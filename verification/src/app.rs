//! The picking session as a state machine: one key at a time.
//!
//! A session browses until a key ends it. [`App::handle_key`] takes the state
//! and one key to the next state; the caller draws, reads the next key and
//! calls again, until the session has terminated.

use crate::menu::Menu;
use crate::menu::MenuView;
use crate::menu::Motion;
use crate::types::ItemView;
use crate::types::MenuItem;
use vstd::prelude::*;

verus! {

/// Number of entries that PageUp and PageDown move by.
pub const PAGE_SIZE: usize = 10;

/// The key that was pressed, without its modifiers.
#[derive(Debug, Clone, Copy, PartialEq, Eq, Structural)]
pub enum KeyCode {
    Esc,
    Enter,
    Up,
    Down,
    PageUp,
    PageDown,
    Home,
    End,
    Backspace,
    /// A key that stands for a printable character.
    Char(char),
    /// Any other key.
    Other,
}

/// One key press.
#[derive(Debug, Clone, Copy, PartialEq, Eq, Structural)]
pub struct Key {
    pub code: KeyCode,
    /// Control was held.
    pub control: bool,
    /// Alt or another modifier that is neither Shift nor Control was held.
    pub alt: bool,
}

/// What a key asks for.
#[derive(Debug, Clone, Copy, PartialEq, Eq, Structural)]
pub enum Command {
    /// End the session without a selection.
    Cancel,
    /// End the session with the selected item.
    Commit,
    /// Move the selection.
    Move(Motion),
    /// Append a character to the filter text.
    Insert(char),
    /// Remove the filter text's last character.
    Delete,
    /// Nothing.
    Ignore,
}

impl Key {
    /// The meaning of a key. Escape and Control+C cancel, Enter commits, the
    /// arrow and paging keys move, a character typed without Control or Alt
    /// goes into the filter text, Backspace without them removes from it, and
    /// every other key is ignored.
    pub open spec fn meaning(self) -> Command {
        match self.code {
            KeyCode::Esc => Command::Cancel,
            KeyCode::Enter => Command::Commit,
            KeyCode::Up => Command::Move(Motion::Previous),
            KeyCode::Down => Command::Move(Motion::Next),
            KeyCode::PageUp => Command::Move(Motion::PageUp(PAGE_SIZE)),
            KeyCode::PageDown => Command::Move(Motion::PageDown(PAGE_SIZE)),
            KeyCode::Home => Command::Move(Motion::Start),
            KeyCode::End => Command::Move(Motion::End),
            KeyCode::Char(c) => if self.control && c == 'c' {
                Command::Cancel
            } else if self.control || self.alt {
                Command::Ignore
            } else {
                Command::Insert(c)
            },
            KeyCode::Backspace => if self.control || self.alt {
                Command::Ignore
            } else {
                Command::Delete
            },
            KeyCode::Other => Command::Ignore,
        }
    }

    /// A key pressed without modifiers.
    pub fn plain(code: KeyCode) -> (key: Key)
        ensures
            key == (Key { code, control: false, alt: false }),
    {
        Key { code, control: false, alt: false }
    }

    /// Computes the key's meaning; see [`Key::meaning`].
    pub fn command(&self) -> (command: Command)
        ensures
            command == self.meaning(),
    {
        match self.code {
            KeyCode::Esc => Command::Cancel,
            KeyCode::Enter => Command::Commit,
            KeyCode::Up => Command::Move(Motion::Previous),
            KeyCode::Down => Command::Move(Motion::Next),
            KeyCode::PageUp => Command::Move(Motion::PageUp(PAGE_SIZE)),
            KeyCode::PageDown => Command::Move(Motion::PageDown(PAGE_SIZE)),
            KeyCode::Home => Command::Move(Motion::Start),
            KeyCode::End => Command::Move(Motion::End),
            KeyCode::Char(c) => if self.control && c == 'c' {
                Command::Cancel
            } else if self.control || self.alt {
                Command::Ignore
            } else {
                Command::Insert(c)
            },
            KeyCode::Backspace => if self.control || self.alt {
                Command::Ignore
            } else {
                Command::Delete
            },
            KeyCode::Other => Command::Ignore,
        }
    }
}

/// Where a session stands.
#[derive(Debug, PartialEq, Eq)]
pub enum Phase {
    /// Keys are taken.
    Browsing,
    /// The session is over: with the committed item, or with nothing after a
    /// cancellation.
    Terminated(Option<MenuItem>),
}

/// View of a [`Phase`].
pub enum PhaseView {
    Browsing,
    Terminated(Option<ItemView>),
}

impl View for Phase {
    type V = PhaseView;

    open spec fn view(&self) -> PhaseView {
        match self {
            Phase::Browsing => PhaseView::Browsing,
            Phase::Terminated(result) => PhaseView::Terminated(result.deep_view()),
        }
    }
}

/// The model of an [`App`].
#[verifier::ext_equal]
pub struct AppView {
    pub menu: MenuView,
    pub phase: PhaseView,
}

impl AppView {
    /// The selected item, if the filtered subset has one.
    pub open spec fn selected_item(self) -> Option<ItemView> {
        if self.menu.len() > 0 {
            Some(self.menu.config.items[self.menu.filtered[self.menu.selected]])
        } else {
            None
        }
    }

    /// The state after one key. A terminated session takes no key. While
    /// browsing, a cancel ends the session with nothing; a commit ends it with
    /// the selected item, and does nothing when there is none; a move goes to
    /// the menu; a typed or removed character changes the filter text, after
    /// which the filter is recomputed.
    pub open spec fn step(self, key: Key) -> AppView {
        if self.phase is Terminated {
            self
        } else {
            match key.meaning() {
                Command::Cancel => AppView { phase: PhaseView::Terminated(None), ..self },
                Command::Commit => match self.selected_item() {
                    Some(item) => AppView { phase: PhaseView::Terminated(Some(item)), ..self },
                    None => self,
                },
                Command::Move(motion) => AppView { menu: self.menu.moved(motion), ..self },
                Command::Insert(c) => AppView {
                    menu: self.menu.with_filter(self.menu.filter.push(c)),
                    ..self
                },
                Command::Delete => AppView {
                    menu: self.menu.with_filter(self.menu.shortened_filter()),
                    ..self
                },
                Command::Ignore => self,
            }
        }
    }

    /// The state after a sequence of keys, first to last.
    pub open spec fn run(self, keys: Seq<Key>) -> AppView
        decreases keys.len(),
    {
        if keys.len() == 0 {
            self
        } else {
            self.run(keys.drop_last()).step(keys.last())
        }
    }
}

/// A picking session over a menu.
pub struct App {
    menu: Menu,
    phase: Phase,
}

impl View for App {
    type V = AppView;

    closed spec fn view(&self) -> AppView {
        AppView { menu: self.menu@, phase: self.phase@ }
    }
}

impl App {
    /// A session that browses the given menu.
    pub fn new(menu: Menu) -> (app: App)
        ensures
            app@ == (AppView { menu: menu@, phase: PhaseView::Browsing }),
    {
        App { menu, phase: Phase::Browsing }
    }

    /// The menu of the session.
    pub fn menu(&self) -> (menu: &Menu)
        ensures
            menu@ == self@.menu,
    {
        &self.menu
    }

    /// Whether the session is over.
    pub fn is_terminated(&self) -> (over: bool)
        ensures
            over == (self@.phase is Terminated),
    {
        match &self.phase {
            Phase::Browsing => false,
            Phase::Terminated(_) => true,
        }
    }

    /// The committed item: nothing while the session browses and after a
    /// cancellation.
    pub fn result(&self) -> (item: Option<&MenuItem>)
        ensures
            item.deep_view() == match self@.phase {
                PhaseView::Browsing => None,
                PhaseView::Terminated(result) => result,
            },
    {
        match &self.phase {
            Phase::Browsing => None,
            Phase::Terminated(result) => match result {
                Some(item) => Some(item),
                None => None,
            },
        }
    }

    /// Ends the session's life and hands out the committed item, if any.
    pub fn into_result(self) -> (item: Option<MenuItem>)
        ensures
            item.deep_view() == match self@.phase {
                PhaseView::Browsing => None,
                PhaseView::Terminated(result) => result,
            },
    {
        match self.phase {
            Phase::Browsing => None,
            Phase::Terminated(result) => result,
        }
    }

    /// Takes one key: the session goes to the state that [`AppView::step`]
    /// gives.
    pub fn handle_key(&mut self, key: Key)
        ensures
            final(self)@ == old(self)@.step(key),
    {
        if self.is_terminated() {
            return ;
        }
        match key.command() {
            Command::Cancel => {
                self.phase = Phase::Terminated(None);
            },
            Command::Commit => {
                let committed: Option<MenuItem> = match self.menu.get_selected() {
                    Some(item) => Some(item.clone()),
                    None => None,
                };
                if committed.is_some() {
                    self.phase = Phase::Terminated(committed);
                }
            },
            Command::Move(motion) => {
                self.menu.navigate(motion);
            },
            Command::Insert(c) => {
                self.menu.insert_char(c);
            },
            Command::Delete => {
                self.menu.delete_char();
            },
            Command::Ignore => {},
        }
    }
}

/// Escape ends a browsing session with no result, whatever the filter and
/// the selection are.
pub proof fn lemma_escape_cancels(app: AppView, control: bool, alt: bool)
    requires
        app.phase is Browsing,
    ensures
        app.step(Key { code: KeyCode::Esc, control, alt }).phase == PhaseView::Terminated(None),
        app.step(Key { code: KeyCode::Char('c'), control: true, alt }).phase
            == PhaseView::Terminated(None),
{
}

/// Enter ends a browsing session exactly when the filtered subset has a
/// selected item, and the result is that item; on an empty subset Enter
/// changes nothing.
pub proof fn lemma_enter_commits(app: AppView, control: bool, alt: bool)
    requires
        app.phase is Browsing,
    ensures
        app.menu.len() == 0 ==> app.step(Key { code: KeyCode::Enter, control, alt }) == app,
        app.menu.len() > 0 ==> app.step(Key { code: KeyCode::Enter, control, alt }).phase
            == PhaseView::Terminated(
            Some(app.menu.config.items[app.menu.filtered[app.menu.selected]]),
        ),
{
}

/// A terminated session stays as it is under every sequence of keys.
pub proof fn lemma_terminated_absorbs(app: AppView, keys: Seq<Key>)
    requires
        app.phase is Terminated,
    ensures
        app.run(keys) == app,
    decreases keys.len(),
{
    if keys.len() > 0 {
        lemma_terminated_absorbs(app, keys.drop_last());
    }
}

/// No key but cancel and commit ends a session, and no key changes the menu
/// document.
pub proof fn lemma_step_keeps_document(app: AppView, key: Key)
    ensures
        app.step(key).menu.config == app.menu.config,
        app.step(key).menu.visible_height == app.menu.visible_height,
        app.phase is Browsing && app.step(key).phase is Terminated ==> key.meaning()
            == Command::Cancel || key.meaning() == Command::Commit,
{
}

/// Every key keeps the menu's invariant, and a list that is the filter
/// text's result stays one.
pub proof fn lemma_step_wf(app: AppView, key: Key)
    requires
        app.menu.wf(),
    ensures
        app.step(key).menu.wf(),
        app.menu.consistent() ==> app.step(key).menu.consistent(),
{
    if app.phase is Browsing {
        match key.meaning() {
            Command::Move(motion) => {
                crate::menu::lemma_moved_wf(app.menu, motion);
            },
            Command::Insert(c) => {
                crate::menu::lemma_refiltered_wf(
                    MenuView { filter: app.menu.filter.push(c), ..app.menu },
                );
            },
            Command::Delete => {
                crate::menu::lemma_refiltered_wf(
                    MenuView { filter: app.menu.shortened_filter(), ..app.menu },
                );
            },
            _ => {},
        }
    }
}

/// Through a whole session, whatever keys come, the menu keeps its invariant:
/// the selection is a valid index of a non-empty list, the selected entry is
/// visible, and the list shown is the filter text's result.
pub proof fn lemma_run_wf(app: AppView, keys: Seq<Key>)
    requires
        app.menu.wf(),
        app.menu.consistent(),
    ensures
        app.run(keys).menu.wf(),
        app.run(keys).menu.consistent(),
        app.run(keys).menu.selection_visible(),
        app.run(keys).menu.config == app.menu.config,
    decreases keys.len(),
{
    if keys.len() > 0 {
        lemma_run_wf(app, keys.drop_last());
        lemma_step_wf(app.run(keys.drop_last()), keys.last());
        lemma_step_keeps_document(app.run(keys.drop_last()), keys.last());
    }
}

} // verus!
