//! The menu's runtime state: the filtered subset, the selection inside it and
//! the scroll window, with the operations that move them.
//!
//! [`MenuView`] is the mathematical model. Every operation of [`Menu`] is
//! stated as one step of that model, and the laws at the end of this file are
//! proved of the model.

use crate::buffer::input_cursor;
use crate::buffer::input_delete_prev;
use crate::buffer::input_insert;
use crate::buffer::input_new;
use crate::buffer::input_text;
use crate::buffer::input_value;
use crate::filter::all_indices;
use crate::filter::as_ints;
use crate::filter::lemma_matching_is_ordered_subset;
use crate::filter::matching;
use crate::filter::recompute_filter;
use crate::filter::rising_below;
use crate::types::resolve_dimension;
use crate::types::resolved;
use crate::types::ConfigView;
use crate::types::MenuConfig;
use crate::types::MenuItem;
use crate::types::ParseError;
use crate::types::DEFAULT_HEIGHT;
use crate::types::DEFAULT_WIDTH;
use tui_input::Input;
use vstd::prelude::*;

verus! {

/// Number of list rows that a menu shows unless it is told otherwise.
pub const VISIBLE_HEIGHT: usize = 15;

/// The scroll offset that brings `selected` back into a window of
/// `visible_height` rows: a selection above the window pulls the window's top
/// to itself, one below it pulls the window's bottom to itself, one inside
/// leaves the window where it is.
pub open spec fn resync(selected: int, scroll_offset: int, visible_height: int) -> int {
    if selected < scroll_offset {
        selected
    } else if selected >= scroll_offset + visible_height {
        selected - visible_height + 1
    } else {
        scroll_offset
    }
}

/// A navigation request.
#[derive(Debug, Clone, Copy, PartialEq, Eq, Structural)]
pub enum Motion {
    Next,
    Previous,
    PageDown(usize),
    PageUp(usize),
    Start,
    End,
}

/// The model of a [`Menu`].
#[verifier::ext_equal]
pub struct MenuView {
    /// The menu document.
    pub config: ConfigView,
    /// The filter text typed so far.
    pub filter: Seq<char>,
    /// Indices into `config.items` of the items shown, in rising order.
    pub filtered: Seq<int>,
    /// Index into `filtered` of the selected entry.
    pub selected: int,
    /// Index into `filtered` of the first visible entry.
    pub scroll_offset: int,
    /// Number of rows of the visible list area; at least one.
    pub visible_height: int,
}

impl MenuView {
    /// The state of a fresh menu: no filter text, every item shown, the first
    /// one selected, the window at the top. A height of zero counts as one.
    pub open spec fn initial(config: ConfigView, visible_height: int) -> MenuView {
        MenuView {
            config,
            filter: Seq::empty(),
            filtered: all_indices(config.items.len()),
            selected: 0,
            scroll_offset: 0,
            visible_height: if visible_height < 1 {
                1
            } else {
                visible_height
            },
        }
    }

    /// Number of entries of the filtered subset.
    pub open spec fn len(self) -> int {
        self.filtered.len() as int
    }

    /// The invariant of every menu state.
    pub open spec fn wf(self) -> bool {
        &&& self.config.wf()
        &&& self.visible_height >= 1
        &&& rising_below(self.filtered, self.config.items.len() as int)
        &&& 0 <= self.selected
        &&& self.len() == 0 ==> self.selected == 0
        &&& self.len() > 0 ==> self.selected < self.len()
        &&& self.selection_visible()
        &&& self.scroll_offset + self.visible_height <= if self.len() > self.visible_height {
            self.len()
        } else {
            self.visible_height
        }
    }

    /// The filtered subset is the one that the filter text gives.
    pub open spec fn consistent(self) -> bool {
        self.filtered == matching(self.config.items, self.filter)
    }

    /// The selected entry lies inside the scroll window.
    pub open spec fn selection_visible(self) -> bool {
        0 <= self.scroll_offset <= self.selected <= self.scroll_offset + self.visible_height - 1
    }

    /// The selection set to `selected`, and the window resynchronised.
    pub open spec fn moved_to(self, selected: int) -> MenuView {
        MenuView {
            selected,
            scroll_offset: resync(selected, self.scroll_offset, self.visible_height),
            ..self
        }
    }

    /// One entry down, from the last entry to the first.
    pub open spec fn next(self) -> MenuView {
        if self.len() == 0 {
            self
        } else if self.selected + 1 == self.len() {
            self.moved_to(0)
        } else {
            self.moved_to(self.selected + 1)
        }
    }

    /// One entry up, from the first entry to the last.
    pub open spec fn previous(self) -> MenuView {
        if self.len() == 0 {
            self
        } else if self.selected == 0 {
            self.moved_to(self.len() - 1)
        } else {
            self.moved_to(self.selected - 1)
        }
    }

    /// `page_size` entries down, stopping at the last entry.
    pub open spec fn page_down(self, page_size: int) -> MenuView {
        if self.len() == 0 {
            self
        } else if self.selected + page_size <= self.len() - 1 {
            self.moved_to(self.selected + page_size)
        } else {
            self.moved_to(self.len() - 1)
        }
    }

    /// `page_size` entries up, stopping at the first entry.
    pub open spec fn page_up(self, page_size: int) -> MenuView {
        if self.selected >= page_size {
            self.moved_to(self.selected - page_size)
        } else {
            self.moved_to(0)
        }
    }

    /// Selection and window back at the top.
    pub open spec fn to_start(self) -> MenuView {
        MenuView { selected: 0, scroll_offset: 0, ..self }
    }

    /// The last entry selected.
    pub open spec fn to_end(self) -> MenuView {
        if self.len() == 0 {
            self
        } else {
            self.moved_to(self.len() - 1)
        }
    }

    /// The state after one navigation request.
    pub open spec fn moved(self, motion: Motion) -> MenuView {
        match motion {
            Motion::Next => self.next(),
            Motion::Previous => self.previous(),
            Motion::PageDown(n) => self.page_down(n as int),
            Motion::PageUp(n) => self.page_up(n as int),
            Motion::Start => self.to_start(),
            Motion::End => self.to_end(),
        }
    }

    /// The state after a sequence of navigation requests, first to last.
    pub open spec fn moved_all(self, motions: Seq<Motion>) -> MenuView
        decreases motions.len(),
    {
        if motions.len() == 0 {
            self
        } else {
            self.moved_all(motions.drop_last()).moved(motions.last())
        }
    }

    /// The filtered subset recomputed from the filter text; selection and
    /// window go back to the top.
    pub open spec fn refiltered(self) -> MenuView {
        MenuView {
            filtered: matching(self.config.items, self.filter),
            selected: 0,
            scroll_offset: 0,
            ..self
        }
    }

    /// The filter text replaced, and the filtered subset recomputed.
    pub open spec fn with_filter(self, filter: Seq<char>) -> MenuView {
        (MenuView { filter, ..self }).refiltered()
    }

    /// The filter text without its last character; the empty text stays.
    pub open spec fn shortened_filter(self) -> Seq<char> {
        if self.filter.len() == 0 {
            self.filter
        } else {
            self.filter.drop_last()
        }
    }

    /// The document's size settled: an explicit value wins, and a size that
    /// is still unset becomes the default. Nothing else changes.
    pub open spec fn with_dimensions(self, width: Option<u16>, height: Option<u16>) -> MenuView {
        MenuView {
            config: ConfigView {
                width: resolved(width, self.config.width, DEFAULT_WIDTH as nat),
                height: resolved(height, self.config.height, DEFAULT_HEIGHT as nat),
                ..self.config
            },
            ..self
        }
    }

    /// Number of entries inside the scroll window.
    pub open spec fn visible_count(self) -> int {
        if self.len() - self.scroll_offset < self.visible_height {
            self.len() - self.scroll_offset
        } else {
            self.visible_height
        }
    }
}

/// Selection and scroll offset, which always change together.
#[derive(Debug, Clone, Copy)]
struct Window {
    selected: usize,
    scroll_offset: usize,
}

/// A menu: the document, the filter's text buffer, the filtered subset, and
/// the selection with its scroll window.
pub struct Menu {
    config: MenuConfig,
    input: Input,
    filtered_indices: Vec<usize>,
    window: Window,
    visible_height: usize,
}

impl View for Menu {
    type V = MenuView;

    closed spec fn view(&self) -> MenuView {
        MenuView {
            config: self.config@,
            filter: input_text(self.input),
            filtered: as_ints(self.filtered_indices@),
            selected: self.window.selected as int,
            scroll_offset: self.window.scroll_offset as int,
            visible_height: self.visible_height as int,
        }
    }
}

/// Computes the scroll offset that brings `selected` back into the window;
/// see [`resync`]. A height of zero counts as one.
pub fn resync_scroll(selected: usize, scroll_offset: usize, visible_height: usize) -> (r: usize)
    ensures
        r == resync(
            selected as int,
            scroll_offset as int,
            if visible_height == 0 {
                1
            } else {
                visible_height as int
            },
        ),
{
    let height: usize = if visible_height == 0 {
        1
    } else {
        visible_height
    };
    if selected < scroll_offset {
        selected
    } else if selected - scroll_offset >= height {
        selected - height + 1
    } else {
        scroll_offset
    }
}

impl Menu {
    #[verifier::type_invariant]
    spec fn inv(self) -> bool {
        &&& self@.wf()
        &&& input_cursor(self.input) == input_text(self.input).len()
    }

    /// A menu over a document whose items fit its columns, with the default
    /// visible height.
    pub fn new(config: MenuConfig) -> (menu: Menu)
        requires
            config@.wf(),
        ensures
            menu@ == MenuView::initial(config@, VISIBLE_HEIGHT as int),
            menu@.wf(),
    {
        Menu::with_visible_height(config, VISIBLE_HEIGHT)
    }

    /// A menu whose list area shows `visible_height` rows. A height of zero is
    /// raised to one.
    pub fn with_visible_height(config: MenuConfig, visible_height: usize) -> (menu: Menu)
        requires
            config@.wf(),
        ensures
            menu@ == MenuView::initial(config@, visible_height as int),
            menu@.wf(),
    {
        let filtered_indices: Vec<usize> = recompute_filter(&config.items, "");
        proof {
            reveal_strlit("");
            lemma_matching_is_ordered_subset(config@.items, ""@);
        }
        let height: usize = if visible_height == 0 {
            1
        } else {
            visible_height
        };
        Menu {
            config,
            input: input_new(),
            filtered_indices,
            window: Window { selected: 0, scroll_offset: 0 },
            visible_height: height,
        }
    }

    /// Checks the document and builds the menu over it. The document is
    /// rejected exactly when some item does not fit the columns.
    pub fn try_new(config: MenuConfig) -> (r: Result<Menu, ParseError>)
        ensures
            match r {
                Ok(menu) => config@.wf() && menu@ == MenuView::initial(
                    config@,
                    VISIBLE_HEIGHT as int,
                ),
                Err(e) => config@.rejected_with(e),
            },
    {
        match config.validate() {
            Ok(()) => Ok(Menu::new(config)),
            Err(e) => Err(e),
        }
    }

    /// Settles the size of the menu: the caller's explicit values, and the
    /// defaults where the document leaves the size unset.
    pub fn resolve_dimensions(&mut self, width: Option<u16>, height: Option<u16>)
        ensures
            final(self)@ == old(self)@.with_dimensions(width, height),
            final(self)@.wf(),
    {
        proof {
            use_type_invariant(&*self);
        }
        self.config.width = resolve_dimension(width, self.config.width, DEFAULT_WIDTH);
        self.config.height = resolve_dimension(height, self.config.height, DEFAULT_HEIGHT);
    }

    /// The menu document.
    pub fn config(&self) -> (config: &MenuConfig)
        ensures
            config@ == self@.config,
            self@.wf(),
    {
        proof {
            use_type_invariant(self);
        }
        &self.config
    }

    /// The filter text typed so far.
    pub fn filter_text(&self) -> (text: &str)
        ensures
            text@ == self@.filter,
    {
        input_value(&self.input)
    }

    /// The filtered subset: indices into the document's items.
    pub fn filtered_indices(&self) -> (indices: &Vec<usize>)
        ensures
            as_ints(indices@) == self@.filtered,
            self@.wf(),
    {
        proof {
            use_type_invariant(self);
        }
        &self.filtered_indices
    }

    /// Index of the selected entry inside the filtered subset.
    pub fn selected(&self) -> (selected: usize)
        ensures
            selected == self@.selected,
            self@.wf(),
    {
        proof {
            use_type_invariant(self);
        }
        self.window.selected
    }

    /// Index of the first visible entry inside the filtered subset.
    pub fn scroll_offset(&self) -> (offset: usize)
        ensures
            offset == self@.scroll_offset,
            self@.wf(),
    {
        proof {
            use_type_invariant(self);
        }
        self.window.scroll_offset
    }

    /// Number of rows of the visible list area.
    pub fn visible_height(&self) -> (height: usize)
        ensures
            height == self@.visible_height,
            self@.wf(),
    {
        proof {
            use_type_invariant(self);
        }
        self.visible_height
    }

    /// Sets the selection and resynchronises the window.
    fn select(&mut self, selected: usize)
        requires
            old(self)@.len() == 0 ==> selected == 0,
            old(self)@.len() > 0 ==> selected < old(self)@.len(),
        ensures
            final(self)@ == old(self)@.moved_to(selected as int),
            final(self)@.wf(),
    {
        proof {
            use_type_invariant(&*self);
            lemma_moved_to_wf(self@, selected as int);
        }
        let scroll_offset: usize = resync_scroll(
            selected,
            self.window.scroll_offset,
            self.visible_height,
        );
        self.window = Window { selected, scroll_offset };
    }

    /// Selects the entry below the selected one; from the last entry the
    /// selection wraps to the first. Nothing happens on an empty list.
    pub fn next(&mut self)
        ensures
            final(self)@ == old(self)@.next(),
            final(self)@.wf(),
            final(self)@.selection_visible(),
    {
        proof {
            use_type_invariant(&*self);
        }
        let n: usize = self.filtered_indices.len();
        if n > 0 {
            if self.window.selected + 1 == n {
                self.select(0);
            } else {
                self.select(self.window.selected + 1);
            }
        }
    }

    /// Selects the entry above the selected one; from the first entry the
    /// selection wraps to the last. Nothing happens on an empty list.
    pub fn previous(&mut self)
        ensures
            final(self)@ == old(self)@.previous(),
            final(self)@.wf(),
            final(self)@.selection_visible(),
    {
        proof {
            use_type_invariant(&*self);
        }
        let n: usize = self.filtered_indices.len();
        if n > 0 {
            if self.window.selected == 0 {
                self.select(n - 1);
            } else {
                self.select(self.window.selected - 1);
            }
        }
    }

    /// Moves the selection `page_size` entries down and stops at the last
    /// entry. Nothing happens on an empty list.
    pub fn page_down(&mut self, page_size: usize)
        ensures
            final(self)@ == old(self)@.page_down(page_size as int),
            final(self)@.wf(),
            final(self)@.selection_visible(),
    {
        proof {
            use_type_invariant(&*self);
        }
        let n: usize = self.filtered_indices.len();
        if n > 0 {
            if page_size <= n - 1 - self.window.selected {
                self.select(self.window.selected + page_size);
            } else {
                self.select(n - 1);
            }
        }
    }

    /// Moves the selection `page_size` entries up and stops at the first entry.
    pub fn page_up(&mut self, page_size: usize)
        ensures
            final(self)@ == old(self)@.page_up(page_size as int),
            final(self)@.wf(),
            final(self)@.selection_visible(),
    {
        proof {
            use_type_invariant(&*self);
        }
        if self.window.selected >= page_size {
            self.select(self.window.selected - page_size);
        } else {
            self.select(0);
        }
    }

    /// Selects the first entry and scrolls to the top.
    pub fn move_to_start(&mut self)
        ensures
            final(self)@ == old(self)@.to_start(),
            final(self)@.wf(),
            final(self)@.selection_visible(),
    {
        proof {
            use_type_invariant(&*self);
        }
        self.window = Window { selected: 0, scroll_offset: 0 };
    }

    /// Selects the last entry. Nothing happens on an empty list.
    pub fn move_to_end(&mut self)
        ensures
            final(self)@ == old(self)@.to_end(),
            final(self)@.wf(),
            final(self)@.selection_visible(),
    {
        proof {
            use_type_invariant(&*self);
        }
        let n: usize = self.filtered_indices.len();
        if n > 0 {
            self.select(n - 1);
        }
    }

    /// Carries out one navigation request.
    pub fn navigate(&mut self, motion: Motion)
        ensures
            final(self)@ == old(self)@.moved(motion),
            final(self)@.wf(),
            final(self)@.selection_visible(),
    {
        match motion {
            Motion::Next => self.next(),
            Motion::Previous => self.previous(),
            Motion::PageDown(n) => self.page_down(n),
            Motion::PageUp(n) => self.page_up(n),
            Motion::Start => self.move_to_start(),
            Motion::End => self.move_to_end(),
        }
    }

    /// Brings the window back over the selection. Every operation of a menu
    /// leaves the selection visible, so on a menu reached through them the
    /// call changes nothing.
    pub fn update_scroll(&mut self)
        ensures
            final(self)@ == old(self)@.moved_to(old(self)@.selected),
            final(self)@ == old(self)@,
    {
        proof {
            use_type_invariant(&*self);
        }
        self.select(self.window.selected);
    }

    /// Recomputes the filtered subset from the filter text and puts selection
    /// and window back at the top.
    pub fn update_filter(&mut self)
        ensures
            final(self)@ == old(self)@.refiltered(),
            final(self)@.wf(),
    {
        proof {
            use_type_invariant(&*self);
            lemma_matching_is_ordered_subset(self@.config.items, self@.filter);
        }
        let indices: Vec<usize> = recompute_filter(&self.config.items, input_value(&self.input));
        self.window = Window { selected: 0, scroll_offset: 0 };
        self.filtered_indices = indices;
    }

    /// Appends a character to the filter text and recomputes the filter.
    pub fn insert_char(&mut self, c: char)
        ensures
            final(self)@ == old(self)@.with_filter(old(self)@.filter.push(c)),
            final(self)@.wf(),
    {
        proof {
            use_type_invariant(&*self);
        }
        let mut input: Input = input_new();
        std::mem::swap(&mut self.input, &mut input);
        let ghost before = input_text(input);
        input_insert(&mut input, c);
        assert(input_text(input) =~= before.push(c));
        self.input = input;
        self.update_filter();
    }

    /// Removes the last character of the filter text, if there is one, and
    /// recomputes the filter.
    pub fn delete_char(&mut self)
        ensures
            final(self)@ == old(self)@.with_filter(old(self)@.shortened_filter()),
            final(self)@.wf(),
    {
        proof {
            use_type_invariant(&*self);
        }
        let mut input: Input = input_new();
        std::mem::swap(&mut self.input, &mut input);
        let ghost before = input_text(input);
        input_delete_prev(&mut input);
        assert(before.len() > 0 ==> input_text(input) =~= before.drop_last());
        self.input = input;
        self.update_filter();
    }

    /// The selected item, or nothing when the filtered subset is empty.
    pub fn get_selected(&self) -> (item: Option<&MenuItem>)
        ensures
            self@.wf(),
            self@.len() == 0 ==> item is None,
            self@.len() > 0 ==> item is Some && item->0@
                == self@.config.items[self@.filtered[self@.selected]],
    {
        proof {
            use_type_invariant(self);
        }
        if self.window.selected < self.filtered_indices.len() {
            let index: usize = self.filtered_indices[self.window.selected];
            assert(as_ints(self.filtered_indices@)[self.window.selected as int] == index);
            Some(&self.config.items[index])
        } else {
            None
        }
    }

    /// The entries inside the scroll window, top to bottom, each as the
    /// item's index in the document and the item.
    pub fn get_visible_items(&self) -> (rows: Vec<(usize, &MenuItem)>)
        ensures
            self@.wf(),
            rows@.len() == self@.visible_count(),
            forall|k: int|
                0 <= k < rows@.len() ==> {
                    &&& (#[trigger] rows@[k]).0 == self@.filtered[self@.scroll_offset + k]
                    &&& rows@[k].1@ == self@.config.items[rows@[k].0 as int]
                },
    {
        proof {
            use_type_invariant(self);
        }
        let n: usize = self.filtered_indices.len();
        let start: usize = self.window.scroll_offset;
        let end: usize = if n - start < self.visible_height {
            n
        } else {
            start + self.visible_height
        };
        let mut rows: Vec<(usize, &MenuItem)> = Vec::new();
        let mut i: usize = start;
        while i < end
            invariant
                start <= i <= end <= n,
                n == self.filtered_indices.len(),
                start == self@.scroll_offset,
                self@.wf(),
                rows@.len() == i - start,
                forall|k: int|
                    0 <= k < rows@.len() ==> {
                        &&& (#[trigger] rows@[k]).0 == self@.filtered[self@.scroll_offset + k]
                        &&& rows@[k].1@ == self@.config.items[rows@[k].0 as int]
                    },
            decreases end - i,
        {
            let index: usize = self.filtered_indices[i];
            assert(as_ints(self.filtered_indices@)[i as int] == index);
            rows.push((index, &self.config.items[index]));
            i += 1;
        }
        rows
    }
}

/// A fresh menu over a document whose items fit its columns meets the
/// invariant, and it shows what the empty filter text gives: every item.
pub proof fn lemma_initial_wf(config: ConfigView, visible_height: int)
    requires
        config.wf(),
    ensures
        MenuView::initial(config, visible_height).wf(),
        MenuView::initial(config, visible_height).consistent(),
{
    lemma_matching_is_ordered_subset(config.items, Seq::empty());
}

/// Setting the selection to a valid index and resynchronising the window
/// keeps the invariant.
pub proof fn lemma_moved_to_wf(v: MenuView, selected: int)
    requires
        v.wf(),
        v.len() == 0 ==> selected == 0,
        v.len() > 0 ==> 0 <= selected < v.len(),
    ensures
        v.moved_to(selected).wf(),
{
}

/// Every navigation request keeps the invariant: in particular the selection
/// stays inside the filtered subset and inside the scroll window.
pub proof fn lemma_moved_wf(v: MenuView, motion: Motion)
    requires
        v.wf(),
    ensures
        v.moved(motion).wf(),
        v.moved(motion).selection_visible(),
        v.moved(motion).len() == v.len(),
        v.len() > 0 ==> 0 <= v.moved(motion).selected < v.len(),
{
    match motion {
        Motion::Next => {
            if v.len() > 0 {
                if v.selected + 1 == v.len() {
                    lemma_moved_to_wf(v, 0);
                } else {
                    lemma_moved_to_wf(v, v.selected + 1);
                }
            }
        },
        Motion::Previous => {
            if v.len() > 0 {
                if v.selected == 0 {
                    lemma_moved_to_wf(v, v.len() - 1);
                } else {
                    lemma_moved_to_wf(v, v.selected - 1);
                }
            }
        },
        Motion::PageDown(n) => {
            if v.len() > 0 {
                if v.selected + n <= v.len() - 1 {
                    lemma_moved_to_wf(v, v.selected + n);
                } else {
                    lemma_moved_to_wf(v, v.len() - 1);
                }
            }
        },
        Motion::PageUp(n) => {
            if v.selected >= n {
                lemma_moved_to_wf(v, v.selected - n);
            } else {
                lemma_moved_to_wf(v, 0);
            }
        },
        Motion::Start => {},
        Motion::End => {
            if v.len() > 0 {
                lemma_moved_to_wf(v, v.len() - 1);
            }
        },
    }
}

/// After any sequence of navigation requests the invariant still holds: on a
/// non-empty filtered subset the selection is a valid index, and the selected
/// entry is visible.
pub proof fn lemma_moved_all_wf(v: MenuView, motions: Seq<Motion>)
    requires
        v.wf(),
    ensures
        v.moved_all(motions).wf(),
        v.moved_all(motions).selection_visible(),
        v.moved_all(motions).len() == v.len(),
        v.len() > 0 ==> 0 <= v.moved_all(motions).selected < v.len(),
    decreases motions.len(),
{
    if motions.len() > 0 {
        lemma_moved_all_wf(v, motions.drop_last());
        lemma_moved_wf(v.moved_all(motions.drop_last()), motions.last());
    }
}

/// One step down and one step up, in either order, bring the selection back
/// to where it was, at the wrap boundary too.
pub proof fn lemma_next_previous_round_trip(v: MenuView)
    requires
        v.wf(),
    ensures
        v.next().previous().selected == v.selected,
        v.previous().next().selected == v.selected,
{
}

/// Recomputing the filter twice is the same as recomputing it once.
pub proof fn lemma_refiltered_idempotent(v: MenuView)
    ensures
        v.refiltered().refiltered() == v.refiltered(),
{
}

/// Recomputing the filter keeps the invariant, whatever the filter text, and
/// puts selection and window back at the top of a list that is the filter
/// text's result.
pub proof fn lemma_refiltered_wf(v: MenuView)
    requires
        v.wf(),
    ensures
        v.refiltered().wf(),
        v.refiltered().consistent(),
        v.refiltered().selected == 0,
        v.refiltered().scroll_offset == 0,
{
    lemma_matching_is_ordered_subset(v.config.items, v.filter);
}

} // verus!
