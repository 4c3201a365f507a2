//! The data model: items, column layout, the menu document and the result of
//! a picking session, each with its mathematical view.

use vstd::prelude::*;

verus! {

/// How a column's text is placed inside the column's width.
#[derive(Debug, Clone, Copy, PartialEq, Eq, Structural)]
pub enum Alignment {
    Left,
    Center,
    Right,
}

impl Default for Alignment {
    fn default() -> (a: Self)
        ensures
            a == Alignment::Left,
    {
        Alignment::Left
    }
}

/// Optional decoration of an item.
#[derive(Debug, PartialEq, Eq)]
pub struct ItemStyle {
    pub icon: Option<String>,
    pub color: Option<String>,
}

/// View of an [`ItemStyle`].
pub struct StyleView {
    pub icon: Option<Seq<char>>,
    pub color: Option<Seq<char>>,
}

impl View for ItemStyle {
    type V = StyleView;

    open spec fn view(&self) -> StyleView {
        StyleView { icon: self.icon.deep_view(), color: self.color.deep_view() }
    }
}

impl Default for ItemStyle {
    fn default() -> (s: Self)
        ensures
            s@ == (StyleView { icon: None, color: None }),
    {
        ItemStyle { icon: None, color: None }
    }
}

/// A copy of an optional string.
fn clone_text(text: &Option<String>) -> (copy: Option<String>)
    ensures
        copy == *text,
{
    match text {
        Some(s) => Some(s.clone()),
        None => None,
    }
}

impl Clone for ItemStyle {
    fn clone(&self) -> (copy: Self)
        ensures
            copy == *self,
    {
        ItemStyle { icon: clone_text(&self.icon), color: clone_text(&self.color) }
    }
}

/// One selectable entry of a menu.
#[derive(Debug, PartialEq, Eq)]
pub struct MenuItem {
    pub id: String,
    pub columns: Vec<String>,
    pub command: Option<String>,
    pub action: Option<String>,
    pub style: ItemStyle,
}

/// View of a [`MenuItem`].
pub struct ItemView {
    pub id: Seq<char>,
    pub columns: Seq<Seq<char>>,
    pub command: Option<Seq<char>>,
    pub action: Option<Seq<char>>,
    pub style: StyleView,
}

impl View for MenuItem {
    type V = ItemView;

    open spec fn view(&self) -> ItemView {
        ItemView {
            id: self.id@,
            columns: self.columns.deep_view(),
            command: self.command.deep_view(),
            action: self.action.deep_view(),
            style: self.style@,
        }
    }
}

impl DeepView for MenuItem {
    type V = ItemView;

    open spec fn deep_view(&self) -> ItemView {
        self@
    }
}

/// A copy of a list of strings.
fn clone_texts(texts: &Vec<String>) -> (copy: Vec<String>)
    ensures
        copy@ == texts@,
{
    let mut copy: Vec<String> = Vec::new();
    let mut i: usize = 0;
    while i < texts.len()
        invariant
            i <= texts.len(),
            copy@ == texts@.take(i as int),
        decreases texts.len() - i,
    {
        copy.push(texts[i].clone());
        i += 1;
    }
    assert(texts@.take(texts.len() as int) =~= texts@);
    copy
}

impl Clone for MenuItem {
    fn clone(&self) -> (copy: Self)
        ensures
            copy@ == self@,
    {
        MenuItem {
            id: self.id.clone(),
            columns: clone_texts(&self.columns),
            command: clone_text(&self.command),
            action: clone_text(&self.action),
            style: self.style.clone(),
        }
    }
}

/// Layout of one column.
#[derive(Debug, PartialEq, Eq)]
pub struct ColumnConfig {
    pub title: String,
    /// Width in character cells.
    pub width: u16,
    pub align: Alignment,
}

/// View of a [`ColumnConfig`].
pub struct ColumnView {
    pub title: Seq<char>,
    pub width: nat,
    pub align: Alignment,
}

impl View for ColumnConfig {
    type V = ColumnView;

    open spec fn view(&self) -> ColumnView {
        ColumnView { title: self.title@, width: self.width as nat, align: self.align }
    }
}

impl DeepView for ColumnConfig {
    type V = ColumnView;

    open spec fn deep_view(&self) -> ColumnView {
        self@
    }
}

/// The menu document: prompt, column layout and items. A `width` or `height`
/// of zero means that the value is unset.
#[derive(Debug, PartialEq, Eq)]
pub struct MenuConfig {
    pub prompt: String,
    pub columns: Vec<ColumnConfig>,
    pub items: Vec<MenuItem>,
    pub width: u16,
    pub height: u16,
}

/// View of a [`MenuConfig`].
pub struct ConfigView {
    pub prompt: Seq<char>,
    pub columns: Seq<ColumnView>,
    pub items: Seq<ItemView>,
    pub width: nat,
    pub height: nat,
}

impl ConfigView {
    /// Every item supplies exactly one text per configured column.
    pub open spec fn wf(self) -> bool {
        forall|i: int|
            0 <= i < self.items.len() ==> (#[trigger] self.items[i]).columns.len()
                == self.columns.len()
    }

    /// `e` reports the first item that does not fit the columns.
    pub open spec fn rejected_with(self, e: ParseError) -> bool {
        match e {
            ParseError::ColumnCount { item, expected, found } => {
                &&& item < self.items.len()
                &&& expected == self.columns.len()
                &&& found == self.items[item as int].columns.len()
                &&& found != expected
                &&& forall|k: int|
                    0 <= k < item ==> (#[trigger] self.items[k]).columns.len() == expected
            },
        }
    }
}

impl View for MenuConfig {
    type V = ConfigView;

    open spec fn view(&self) -> ConfigView {
        ConfigView {
            prompt: self.prompt@,
            columns: self.columns.deep_view(),
            items: self.items.deep_view(),
            width: self.width as nat,
            height: self.height as nat,
        }
    }
}

/// Why a menu document was rejected.
#[derive(Debug, Clone, Copy, PartialEq, Eq, Structural)]
pub enum ParseError {
    /// Item `item` supplies `found` column texts where the layout has
    /// `expected` columns.
    ColumnCount { item: usize, expected: usize, found: usize },
}

/// Width used when neither the caller nor the document sets one.
pub const DEFAULT_WIDTH: u16 = 120;

/// Height used when neither the caller nor the document sets one.
pub const DEFAULT_HEIGHT: u16 = 20;

/// One dimension: an explicit value wins, an unset (zero) document value
/// becomes `fallback`, any other document value stays.
pub open spec fn resolved(explicit: Option<u16>, configured: nat, fallback: nat) -> nat {
    match explicit {
        Some(v) => v as nat,
        None => if configured == 0 {
            fallback
        } else {
            configured
        },
    }
}

/// Resolves one dimension; see [`resolved`].
pub fn resolve_dimension(explicit: Option<u16>, configured: u16, fallback: u16) -> (r: u16)
    ensures
        r == resolved(explicit, configured as nat, fallback as nat),
{
    match explicit {
        Some(v) => v,
        None => if configured == 0 {
            fallback
        } else {
            configured
        },
    }
}

impl MenuConfig {
    /// Checks that every item has one text per column. The error names the
    /// first item that does not.
    pub fn validate(&self) -> (r: Result<(), ParseError>)
        ensures
            r is Ok <==> self@.wf(),
            r matches Err(e) ==> self@.rejected_with(e),
    {
        let expected: usize = self.columns.len();
        let mut i: usize = 0;
        while i < self.items.len()
            invariant
                i <= self.items.len(),
                expected == self.columns.len(),
                forall|k: int|
                    0 <= k < i ==> (#[trigger] self@.items[k]).columns.len() == expected,
            decreases self.items.len() - i,
        {
            let found: usize = self.items[i].columns.len();
            if found != expected {
                assert(self@.items[i as int].columns.len() == found);
                return Err(ParseError::ColumnCount { item: i, expected, found });
            }
            assert(self@.items[i as int].columns.len() == expected);
            i += 1;
        }
        Ok(())
    }
}

/// The action reported for an item that names none.
pub open spec fn default_action() -> Seq<char> {
    "select"@
}

/// The structured result of a committed selection.
#[derive(Debug, PartialEq, Eq)]
pub struct MenuResponse {
    pub selected: Option<MenuItem>,
    pub action: String,
}

impl MenuResponse {
    /// The result for a committed item: the item itself, and its action, or
    /// `"select"` where it names none.
    pub fn new(item: MenuItem) -> (r: MenuResponse)
        ensures
            r.selected == Some(item),
            r.action@ == match item@.action {
                Some(a) => a,
                None => default_action(),
            },
    {
        let action: String = match &item.action {
            Some(a) => a.clone(),
            None => "select".to_owned(),
        };
        MenuResponse { selected: Some(item), action }
    }
}

} // verus!
