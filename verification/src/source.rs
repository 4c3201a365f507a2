//! The text form of a menu document.
//!
//! The text is cut into lines at every `'\n'`; one `'\r'` at a line's end does
//! not belong to the line. A line of spaces and tabs only, and a line that
//! starts with `---`, stand for nothing. Every other line is one item: the
//! text before the first `:` is the label and what follows it the command; a
//! line without `:` is a label without a command.

use crate::text::chars_of;
use crate::text::string_of_range;
use crate::types::Alignment;
use crate::types::ColumnConfig;
use crate::types::ColumnView;
use crate::types::ConfigView;
use crate::types::ItemStyle;
use crate::types::ItemView;
use crate::types::MenuConfig;
use crate::types::MenuItem;
use crate::types::StyleView;
use vstd::prelude::*;

verus! {

/// The lines of a text: the parts between its `'\n'` characters. A text
/// without `'\n'` is one line.
pub open spec fn lines_of(text: Seq<char>) -> Seq<Seq<char>>
    decreases text.len(),
{
    let cut = text.index_of_last('\n');
    if cut is Some && 0 <= cut->0 < text.len() {
        lines_of(text.take(cut->0)).push(text.skip(cut->0 + 1))
    } else {
        seq![text]
    }
}

/// The line without the `'\r'` at its end, if it has one.
pub open spec fn without_cr(line: Seq<char>) -> Seq<char> {
    if line.len() > 0 && line.last() == '\r' {
        line.drop_last()
    } else {
        line
    }
}

/// The line holds nothing but spaces and tabs.
pub open spec fn is_blank(line: Seq<char>) -> bool {
    forall|i: int| 0 <= i < line.len() ==> line[i] == ' ' || line[i] == '\t'
}

/// The line starts with `---`.
pub open spec fn is_rule(line: Seq<char>) -> bool {
    line.len() >= 3 && line[0] == '-' && line[1] == '-' && line[2] == '-'
}

/// The item with `label` as its id and its only column.
pub open spec fn labelled(label: Seq<char>, command: Option<Seq<char>>) -> ItemView {
    ItemView {
        id: label,
        columns: seq![label],
        command,
        action: None,
        style: StyleView { icon: None, color: None },
    }
}

/// The item that a line stands for: label and command are parted at the
/// line's first `:`, whatever the label is.
pub open spec fn item_of(line: Seq<char>) -> ItemView {
    match line.index_of_first(':') {
        Some(colon) => labelled(line.take(colon), Some(line.skip(colon + 1))),
        None => labelled(line, None),
    }
}

/// The items of one line: none for a blank line or a rule, else one.
pub open spec fn line_items(raw: Seq<char>) -> Seq<ItemView> {
    let line = without_cr(raw);
    if is_blank(line) || is_rule(line) {
        Seq::empty()
    } else {
        seq![item_of(line)]
    }
}

/// The items of a list of lines, in the lines' order.
pub open spec fn items_from(lines: Seq<Seq<char>>) -> Seq<ItemView>
    decreases lines.len(),
{
    if lines.len() == 0 {
        Seq::empty()
    } else {
        items_from(lines.drop_last()) + line_items(lines.last())
    }
}

/// The items of a text in text form.
pub open spec fn items_of_text(text: Seq<char>) -> Seq<ItemView> {
    items_from(lines_of(text))
}

/// The items of the lines that end before position `start`, where `start` is
/// the start of a line.
spec fn items_before(text: Seq<char>, start: int) -> Seq<ItemView> {
    if start == 0 {
        Seq::empty()
    } else {
        items_from(lines_of(text.take(start - 1)))
    }
}

proof fn lemma_line_step(text: Seq<char>, start: int, end: int)
    requires
        0 <= start <= end <= text.len(),
        forall|j: int| start <= j < end ==> text[j] != '\n',
        start > 0 ==> text[start - 1] == '\n',
    ensures
        items_from(lines_of(text.take(end))) == items_before(text, start) + line_items(
            text.subrange(start, end),
        ),
{
    let t = text.take(end);
    t.index_of_last_ensures('\n');
    if start == 0 {
        assert(t =~= text.subrange(start, end));
        assert(lines_of(t) == seq![t]);
        assert(seq![t].drop_last() =~= Seq::<Seq<char>>::empty());
        assert(items_from(seq![t]) == items_from(Seq::<Seq<char>>::empty()) + line_items(t));
        assert(items_from(Seq::<Seq<char>>::empty()) == Seq::<ItemView>::empty());
    } else {
        assert(t[start - 1] == '\n');
        assert(t.contains('\n'));
        let cut = t.index_of_last('\n')->0;
        assert(cut == start - 1) by {
            if cut < start - 1 {
                assert(t[start - 1] != '\n');
            }
            if cut >= start {
                assert(text[cut] != '\n');
            }
        }
        let head = lines_of(t.take(cut));
        let line = t.skip(cut + 1);
        assert(t.take(cut) =~= text.take(start - 1));
        assert(line =~= text.subrange(start, end));
        assert(lines_of(t) == head.push(line));
        assert(head.push(line).drop_last() =~= head);
    }
}

/// Appends to `items` what the line `chars[start..end]` stands for.
fn push_line(items: &mut Vec<MenuItem>, chars: &Vec<char>, start: usize, end: usize)
    requires
        start <= end <= chars.len(),
    ensures
        final(items).deep_view() == old(items).deep_view() + line_items(
            chars@.subrange(start as int, end as int),
        ),
{
    let ghost raw = chars@.subrange(start as int, end as int);
    let stop: usize = if end > start && chars[end - 1] == '\r' {
        end - 1
    } else {
        end
    };
    let ghost line = chars@.subrange(start as int, stop as int);
    assert(line =~= without_cr(raw));
    let mut blank: bool = true;
    let mut colon: usize = stop;
    let mut i: usize = start;
    while i < stop
        invariant
            start <= i <= stop <= chars.len(),
            line == chars@.subrange(start as int, stop as int),
            blank <==> forall|j: int| 0 <= j < i - start ==> line[j] == ' ' || line[j] == '\t',
            start <= colon <= stop,
            colon < stop ==> colon < i && chars@[colon as int] == ':',
            forall|j: int| start <= j < i && j < colon ==> chars@[j] != ':',
        decreases stop - i,
    {
        let c: char = chars[i];
        assert(line[i - start] == c);
        if c != ' ' && c != '\t' {
            blank = false;
        }
        if c == ':' && colon == stop {
            colon = i;
        }
        i += 1;
    }
    let rule: bool = stop - start >= 3 && chars[start] == '-' && chars[start + 1] == '-'
        && chars[start + 2] == '-';
    assert(rule == is_rule(line)) by {
        if line.len() >= 3 {
            assert(line[0] == chars@[start as int]);
            assert(line[1] == chars@[start + 1]);
            assert(line[2] == chars@[start + 2]);
        }
    }
    if blank || rule {
        assert(final(items).deep_view() =~= old(items).deep_view() + line_items(raw));
        return ;
    }
    proof {
        line.index_of_first_ensures(':');
        if colon < stop {
            let at = colon - start;
            assert(line[at] == ':');
            assert(line.contains(':'));
            let first = line.index_of_first(':')->0;
            assert(first == at) by {
                if first < at {
                    assert(chars@[start + first] == line[first]);
                }
            }
        } else {
            assert(!line.contains(':')) by {
                if line.contains(':') {
                    let j = choose|j: int| 0 <= j < line.len() && line[j] == ':';
                    assert(chars@[start + j] == line[j]);
                }
            }
        }
    }
    let label: String = string_of_range(chars, start, colon);
    let column: String = string_of_range(chars, start, colon);
    let command: Option<String> = if colon < stop {
        Some(string_of_range(chars, colon + 1, stop))
    } else {
        None
    };
    let mut columns: Vec<String> = Vec::new();
    columns.push(column);
    let item = MenuItem {
        id: label,
        columns,
        command,
        action: None,
        style: ItemStyle { icon: None, color: None },
    };
    proof {
        let at = colon - start;
        assert(chars@.subrange(start as int, colon as int) =~= line.take(at));
        if colon < stop {
            assert(chars@.subrange(colon + 1, stop as int) =~= line.skip(at + 1));
        } else {
            assert(line.take(at) =~= line);
        }
        assert(item@.columns =~= seq![item@.id]);
        assert(item@ == item_of(line));
    }
    items.push(item);
    assert(final(items).deep_view() =~= old(items).deep_view() + line_items(raw));
}

/// Reads the items of a document in text form. Every text is a document: the
/// function does not fail.
pub fn parse_items(text: &str) -> (items: Vec<MenuItem>)
    ensures
        items.deep_view() == items_of_text(text@),
{
    let chars: Vec<char> = chars_of(text);
    let n: usize = chars.len();
    let mut items: Vec<MenuItem> = Vec::new();
    let mut start: usize = 0;
    let mut i: usize = 0;
    assert(items.deep_view() =~= items_before(chars@, 0));
    while i < n
        invariant
            start <= i <= n,
            n == chars.len(),
            forall|j: int| start <= j < i ==> chars@[j] != '\n',
            start > 0 ==> chars@[start - 1] == '\n',
            items.deep_view() == items_before(chars@, start as int),
        decreases n - i,
    {
        if chars[i] == '\n' {
            push_line(&mut items, &chars, start, i);
            proof {
                lemma_line_step(chars@, start as int, i as int);
                assert(chars@.take(i + 1 - 1) =~= chars@.take(i as int));
            }
            start = i + 1;
        }
        i += 1;
    }
    push_line(&mut items, &chars, start, n);
    proof {
        lemma_line_step(chars@, start as int, n as int);
        assert(chars@.take(n as int) =~= chars@);
    }
    items
}

/// The length of the longest id among the items.
pub open spec fn widest_id(items: Seq<ItemView>) -> nat
    decreases items.len(),
{
    if items.len() == 0 {
        0
    } else {
        let rest = widest_id(items.drop_last());
        if items.last().id.len() > rest {
            items.last().id.len()
        } else {
            rest
        }
    }
}

/// The document that a text in text form stands for: one left-aligned column
/// without title, as wide as the longest label but no wider than a `u16`
/// holds, and no size set.
pub open spec fn config_of_text(prompt: Seq<char>, text: Seq<char>) -> ConfigView {
    let items = items_of_text(text);
    let widest = widest_id(items);
    ConfigView {
        prompt,
        columns: seq![
            ColumnView {
                title: Seq::empty(),
                width: if widest > u16::MAX {
                    u16::MAX as nat
                } else {
                    widest
                },
                align: Alignment::Left,
            },
        ],
        items,
        width: 0,
        height: 0,
    }
}

/// Every item read from text form has exactly one column.
pub proof fn lemma_text_items_have_one_column(lines: Seq<Seq<char>>)
    ensures
        forall|i: int|
            0 <= i < items_from(lines).len() ==> (#[trigger] items_from(lines)[i]).columns.len()
                == 1,
    decreases lines.len(),
{
    if lines.len() > 0 {
        lemma_text_items_have_one_column(lines.drop_last());
    }
}

impl MenuConfig {
    /// Builds the document for a text in text form, under the given prompt.
    pub fn from_text(prompt: &str, text: &str) -> (config: MenuConfig)
        ensures
            config@ == config_of_text(prompt@, text@),
            config@.wf(),
    {
        let items: Vec<MenuItem> = parse_items(text);
        let mut widest: usize = 0;
        let mut i: usize = 0;
        while i < items.len()
            invariant
                i <= items.len(),
                widest == widest_id(items.deep_view().take(i as int)),
            decreases items.len() - i,
        {
            let len: usize = items[i].id.as_str().unicode_len();
            proof {
                let upto = items.deep_view().take(i + 1);
                assert(upto.drop_last() =~= items.deep_view().take(i as int));
                assert(upto.last().id == items@[i as int].id@);
            }
            if len > widest {
                widest = len;
            }
            i += 1;
        }
        assert(items.deep_view().take(items.len() as int) =~= items.deep_view());
        let width: u16 = if widest > 0xffff {
            0xffff
        } else {
            widest as u16
        };
        let mut columns: Vec<ColumnConfig> = Vec::new();
        columns.push(ColumnConfig { title: String::new(), width, align: Alignment::Left });
        let config = MenuConfig { prompt: prompt.to_owned(), columns, items, width: 0, height: 0 };
        proof {
            lemma_text_items_have_one_column(lines_of(text@));
            assert(config@.columns =~= config_of_text(prompt@, text@).columns);
        }
        config
    }
}

/// The first character of the text that is no space, tab or line break is
/// `{`: the text is a structured document and not one in text form.
pub open spec fn is_structured(text: Seq<char>) -> bool {
    exists|i: int|
        0 <= i < text.len() && #[trigger] text[i] == '{' && forall|j: int|
            0 <= j < i ==> is_space(text[j])
}

/// Space, tab, line feed or carriage return.
pub open spec fn is_space(c: char) -> bool {
    c == ' ' || c == '\t' || c == '\n' || c == '\r'
}

/// Tells a structured document from one in text form; see [`is_structured`].
pub fn looks_structured(text: &str) -> (structured: bool)
    ensures
        structured == is_structured(text@),
{
    let chars: Vec<char> = chars_of(text);
    let mut i: usize = 0;
    while i < chars.len()
        invariant
            i <= chars.len(),
            chars@ == text@,
            forall|j: int| 0 <= j < i ==> is_space(chars@[j]),
        decreases chars.len() - i,
    {
        let c: char = chars[i];
        if c == '{' {
            return true;
        }
        if !(c == ' ' || c == '\t' || c == '\n' || c == '\r') {
            assert(!is_space(chars@[i as int]));
            return false;
        }
        i += 1;
    }
    assert(!is_structured(text@)) by {
        if is_structured(text@) {
            let k = choose|k: int|
                0 <= k < text@.len() && #[trigger] text@[k] == '{' && forall|j: int|
                    0 <= j < k ==> is_space(text@[j]);
            assert(is_space(chars@[k]));
        }
    }
    false
}

} // verus!
