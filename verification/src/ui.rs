//! The composer: from a menu's state to a description of the frame to draw.
//!
//! A [`Frame`] says what stands where: the prompt, one row per visible item
//! with its padded column texts and colours, the filter text, and the
//! scrollbar's thumb. Painting the frame is the caller's work.

use crate::config::Rgb;
use crate::config::Theme;
use crate::filter::as_ints;
use crate::menu::Menu;
use crate::menu::MenuView;
use crate::text::chars_of;
use crate::text::spaces;
use crate::types::Alignment;
use crate::types::MenuConfig;
use crate::types::MenuItem;
use vstd::prelude::*;

verus! {

/// A column text cut to `width` characters where it is longer, and filled up
/// with spaces to `width` characters where it is shorter: on the right under
/// `Left`, on the left under `Right`, on both sides under `Center`, where an
/// odd space more goes to the right.
pub open spec fn padded(text: Seq<char>, width: nat, align: Alignment) -> Seq<char> {
    let shown = if text.len() > width {
        text.take(width as int)
    } else {
        text
    };
    let fill = (width - shown.len()) as nat;
    match align {
        Alignment::Left => shown + spaces(fill),
        Alignment::Right => spaces(fill) + shown,
        Alignment::Center => spaces(fill / 2) + shown + spaces((fill - fill / 2) as nat),
    }
}

/// A padded column text is exactly `width` characters long, and a text that
/// fits its column is kept whole.
pub proof fn lemma_padded_width(text: Seq<char>, width: nat, align: Alignment)
    ensures
        padded(text, width, align).len() == width,
        text.len() <= width ==> contains_whole(padded(text, width, align), text),
{
    if text.len() <= width {
        let fill = (width - text.len()) as nat;
        let at: int = match align {
            Alignment::Left => 0,
            Alignment::Right => fill as int,
            Alignment::Center => (fill / 2) as int,
        };
        assert(padded(text, width, align).subrange(at, at + text.len()) =~= text);
    }
}

/// `text` stands in `line` as one contiguous part.
pub open spec fn contains_whole(line: Seq<char>, text: Seq<char>) -> bool {
    exists|at: int|
        0 <= at && at + text.len() <= line.len() && #[trigger] line.subrange(
            at,
            at + text.len(),
        ) == text
}

fn push_spaces(out: &mut String, n: usize)
    ensures
        final(out)@ == old(out)@ + spaces(n as nat),
{
    let mut i: usize = 0;
    while i < n
        invariant
            i <= n,
            out@ == old(out)@ + spaces(i as nat),
        decreases n - i,
    {
        out.push(' ');
        i += 1;
        assert(out@ =~= old(out)@ + spaces(i as nat));
    }
}

fn push_chars(out: &mut String, chars: &Vec<char>, count: usize)
    requires
        count <= chars.len(),
    ensures
        final(out)@ == old(out)@ + chars@.take(count as int),
{
    let mut i: usize = 0;
    while i < count
        invariant
            i <= count <= chars.len(),
            out@ == old(out)@ + chars@.take(i as int),
        decreases count - i,
    {
        out.push(chars[i]);
        i += 1;
        assert(out@ =~= old(out)@ + chars@.take(i as int));
    }
}

/// Pads or cuts one column text to the column's width.
pub fn pad_column(text: &str, width: u16, align: Alignment) -> (out: String)
    ensures
        out@ == padded(text@, width as nat, align),
        out@.len() == width,
{
    let chars: Vec<char> = chars_of(text);
    let w: usize = width as usize;
    let shown: usize = if chars.len() > w {
        w
    } else {
        chars.len()
    };
    let fill: usize = w - shown;
    let left: usize = match align {
        Alignment::Left => 0,
        Alignment::Right => fill,
        Alignment::Center => fill / 2,
    };
    let mut out: String = String::new();
    push_spaces(&mut out, left);
    push_chars(&mut out, &chars, shown);
    push_spaces(&mut out, fill - left);
    proof {
        lemma_padded_width(text@, width as nat, align);
        assert(chars@.take(chars@.len() as int) =~= chars@);
        assert(out@ =~= padded(text@, width as nat, align));
    }
    out
}

/// One column text of a row, padded, with its colours.
#[derive(Debug, PartialEq, Eq)]
pub struct Cell {
    pub text: String,
    pub fg: Rgb,
    pub bg: Option<Rgb>,
}

/// One visible item.
#[derive(Debug, PartialEq, Eq)]
pub struct Row {
    /// Index of the item in the document.
    pub index: usize,
    /// One cell per configured column.
    pub cells: Vec<Cell>,
    /// Whether this row shows the selected item.
    pub highlighted: bool,
}

/// The scrollbar's thumb, in cells of the track.
#[derive(Debug, Clone, Copy, PartialEq, Eq, Structural)]
pub struct Scrollbar {
    pub offset: u16,
    pub height: u16,
}

/// What to draw for one state of the menu.
#[derive(Debug, PartialEq, Eq)]
pub struct Frame {
    pub prompt: String,
    pub rows: Vec<Row>,
    pub filter: String,
    pub scrollbar: Option<Scrollbar>,
}

/// The texts joined by single spaces.
pub open spec fn joined(texts: Seq<Seq<char>>) -> Seq<char>
    decreases texts.len(),
{
    if texts.len() == 0 {
        Seq::empty()
    } else if texts.len() == 1 {
        texts[0]
    } else {
        joined(texts.drop_last()) + seq![' '] + texts.last()
    }
}

/// The texts of a row's cells.
pub open spec fn cell_texts(cells: Seq<Cell>) -> Seq<Seq<char>> {
    Seq::new(cells.len(), |j: int| cells[j].text@)
}

impl Row {
    /// The row as one line: its cells joined by single spaces.
    pub fn text(&self) -> (line: String)
        ensures
            line@ == joined(cell_texts(self.cells@)),
    {
        let mut line: String = String::new();
        let n: usize = self.cells.len();
        let mut j: usize = 0;
        while j < n
            invariant
                j <= n,
                n == self.cells.len(),
                line@ == joined(cell_texts(self.cells@).take(j as int)),
            decreases n - j,
        {
            if j > 0 {
                line.push(' ');
            }
            let chars: Vec<char> = chars_of(self.cells[j].text.as_str());
            let ghost before = line@;
            push_chars(&mut line, &chars, chars.len());
            proof {
                let texts = cell_texts(self.cells@);
                assert(chars@.take(chars@.len() as int) =~= chars@);
                assert(texts.take(j + 1).drop_last() =~= texts.take(j as int));
                assert(texts.take(j + 1).last() == chars@);
                if j > 0 {
                    assert(line@ =~= joined(texts.take(j as int)) + seq![' '] + chars@);
                } else {
                    assert(line@ =~= chars@);
                }
            }
            j += 1;
        }
        assert(cell_texts(self.cells@).take(n as int) =~= cell_texts(self.cells@));
        line
    }
}

/// Foreground colour of a cell: the first column of the highlighted row
/// stands out, the rest of that row has the selection's text colour.
pub open spec fn cell_fg(theme: Theme, highlighted: bool, column: int) -> Rgb {
    if highlighted && column == 0 {
        theme.selection_match
    } else if highlighted {
        theme.selection_text
    } else {
        theme.text
    }
}

/// Background colour of a cell: only the highlighted row has one.
pub open spec fn cell_bg(theme: Theme, highlighted: bool) -> Option<Rgb> {
    if highlighted {
        Some(theme.selection)
    } else {
        None
    }
}

/// `row` is the `k`-th visible row of the menu: it shows the item at entry
/// `scroll_offset + k` of the filtered subset, one padded cell per column, and
/// it is highlighted exactly when its item is the selected one.
pub open spec fn row_shows(row: Row, v: MenuView, theme: Theme, k: int) -> bool {
    let index = v.filtered[v.scroll_offset + k];
    let item = v.config.items[index];
    &&& row.index == index
    &&& row.highlighted == (index == v.filtered[v.selected])
    &&& row.cells@.len() == v.config.columns.len()
    &&& forall|j: int|
        0 <= j < row.cells@.len() ==> {
            &&& (#[trigger] row.cells@[j]).text@ == padded(
                item.columns[j],
                v.config.columns[j].width,
                v.config.columns[j].align,
            )
            &&& row.cells@[j].fg == cell_fg(theme, row.highlighted, j)
            &&& row.cells@[j].bg == cell_bg(theme, row.highlighted)
        }
}

/// `part / whole * scale`, rounded to the nearest integer, halves upward.
pub open spec fn rounded_share(part: int, whole: int, scale: int) -> int {
    (2 * part * scale + whole) / (2 * whole)
}

/// Height of the scrollbar's thumb: the visible share of the track, at least
/// one cell.
pub open spec fn thumb_height(total: int, visible: int, track: int) -> int {
    let h = rounded_share(visible, total, track);
    if h < 1 {
        1
    } else {
        h
    }
}

/// Offset of the scrollbar's thumb: the scrolled share of the track.
pub open spec fn thumb_offset(total: int, offset: int, track: int) -> int {
    rounded_share(offset, total, track)
}

/// The rounded share of a part that is no larger than the whole stays within
/// the scale, and it is the integer nearest to the exact share.
pub proof fn lemma_rounded_share(part: int, whole: int, scale: int)
    requires
        0 <= part <= whole,
        0 < whole,
        0 <= scale,
    ensures
        0 <= rounded_share(part, whole, scale) <= scale,
        2 * part * scale - whole < 2 * whole * rounded_share(part, whole, scale) <= 2 * part
            * scale + whole,
{
    let num = 2 * part * scale + whole;
    let den = 2 * whole;
    let q = num / den;
    assert(0 <= part * scale <= whole * scale) by (nonlinear_arith)
        requires
            0 <= part <= whole,
            0 <= scale,
    ;
    assert(2 * part * scale == 2 * (part * scale)) by (nonlinear_arith);
    assert(2 * whole * scale == 2 * (whole * scale)) by (nonlinear_arith);
    assert(num == den * q + num % den && 0 <= num % den < den) by {
        vstd::arithmetic::div_mod::lemma_fundamental_div_mod(num, den);
    }
    assert(den * (scale + 1) == 2 * (whole * scale) + 2 * whole) by (nonlinear_arith)
        requires
            den == 2 * whole,
    ;
    assert(q <= scale) by (nonlinear_arith)
        requires
            den * q <= num,
            num < den * (scale + 1),
            den > 0,
    ;
    assert(q >= 0) by (nonlinear_arith)
        requires
            den * q + den > num,
            num >= 0,
            den > 0,
    ;
}

fn share(part: usize, whole: usize, scale: u16) -> (r: u16)
    requires
        part <= whole,
        0 < whole,
    ensures
        r == rounded_share(part as int, whole as int, scale as int),
{
    proof {
        lemma_rounded_share(part as int, whole as int, scale as int);
        assert(0 <= (part as int) * (scale as int) <= 0xffff_ffff_ffff_ffff * 0xffff)
            by (nonlinear_arith)
            requires
                0 <= part <= 0xffff_ffff_ffff_ffff,
                0 <= scale <= 0xffff,
        ;
        assert(2 * (part as int) * (scale as int) == 2 * ((part as int) * (scale as int)))
            by (nonlinear_arith);
    }
    let product: u128 = (part as u128) * (scale as u128);
    let num: u128 = 2 * product + (whole as u128);
    let den: u128 = 2 * (whole as u128);
    let q: u128 = num / den;
    q as u16
}

/// The scrollbar for a list of `total` entries of which `visible` fit the
/// window, scrolled by `offset`, on a track of `track_height` cells. There is
/// none when every entry fits.
pub fn scrollbar(total: usize, visible: usize, offset: usize, track_height: u16) -> (bar: Option<
    Scrollbar,
>)
    requires
        offset <= total,
    ensures
        total <= visible ==> bar is None,
        total > visible ==> bar is Some && bar->0.height == thumb_height(
            total as int,
            visible as int,
            track_height as int,
        ) && bar->0.offset == thumb_offset(total as int, offset as int, track_height as int),
{
    if total > visible {
        let h: u16 = share(visible, total, track_height);
        let height: u16 = if h < 1 {
            1
        } else {
            h
        };
        Some(Scrollbar { offset: share(offset, total, track_height), height })
    } else {
        None
    }
}

/// The margin on either side of a box of `inner` cells centred in `outer`
/// cells: half of what is left over, and nothing when the box does not fit.
pub fn centering_margin(outer: u16, inner: u16) -> (margin: u16)
    ensures
        inner <= outer ==> margin == (outer - inner) / 2,
        inner > outer ==> margin == 0,
{
    if inner <= outer {
        (outer - inner) / 2
    } else {
        0
    }
}

fn compose_row(
    config: &MenuConfig,
    item: &MenuItem,
    index: usize,
    highlighted: bool,
    theme: &Theme,
) -> (row: Row)
    requires
        item@.columns.len() == config@.columns.len(),
    ensures
        row.index == index,
        row.highlighted == highlighted,
        row.cells@.len() == config@.columns.len(),
        forall|j: int|
            0 <= j < row.cells@.len() ==> {
                &&& (#[trigger] row.cells@[j]).text@ == padded(
                    item@.columns[j],
                    config@.columns[j].width,
                    config@.columns[j].align,
                )
                &&& row.cells@[j].fg == cell_fg(*theme, highlighted, j)
                &&& row.cells@[j].bg == cell_bg(*theme, highlighted)
            },
{
    let mut cells: Vec<Cell> = Vec::new();
    let n: usize = config.columns.len();
    let mut j: usize = 0;
    while j < n
        invariant
            j <= n,
            n == config.columns.len(),
            n == item.columns.len(),
            item@.columns.len() == config@.columns.len(),
            cells@.len() == j,
            forall|c: int|
                0 <= c < j ==> {
                    &&& (#[trigger] cells@[c]).text@ == padded(
                        item@.columns[c],
                        config@.columns[c].width,
                        config@.columns[c].align,
                    )
                    &&& cells@[c].fg == cell_fg(*theme, highlighted, c)
                    &&& cells@[c].bg == cell_bg(*theme, highlighted)
                },
        decreases n - j,
    {
        let column = &config.columns[j];
        assert(config@.columns[j as int] == column@);
        assert(item@.columns[j as int] == item.columns@[j as int]@);
        let text: String = pad_column(item.columns[j].as_str(), column.width, column.align);
        let fg: Rgb = if highlighted && j == 0 {
            theme.selection_match
        } else if highlighted {
            theme.selection_text
        } else {
            theme.text
        };
        let bg: Option<Rgb> = if highlighted {
            Some(theme.selection)
        } else {
            None
        };
        cells.push(Cell { text, fg, bg });
        j += 1;
    }
    Row { index, cells, highlighted }
}

/// Composes the frame for the menu's present state. The menu is only read.
pub fn compose(menu: &Menu, theme: &Theme, track_height: u16) -> (frame: Frame)
    ensures
        frame.prompt@ == menu@.config.prompt,
        frame.filter@ == menu@.filter,
        frame.rows@.len() == menu@.visible_count(),
        forall|k: int|
            0 <= k < frame.rows@.len() ==> row_shows(#[trigger] frame.rows@[k], menu@, *theme, k),
        menu@.len() <= menu@.visible_height ==> frame.scrollbar is None,
        menu@.len() > menu@.visible_height ==> frame.scrollbar is Some
            && frame.scrollbar->0.height == thumb_height(
            menu@.len(),
            menu@.visible_height,
            track_height as int,
        ) && frame.scrollbar->0.offset == thumb_offset(
            menu@.len(),
            menu@.scroll_offset,
            track_height as int,
        ),
{
    let config: &MenuConfig = menu.config();
    let visible: Vec<(usize, &MenuItem)> = menu.get_visible_items();
    let selected: usize = menu.selected();
    let offset: usize = menu.scroll_offset();
    let indices: &Vec<usize> = menu.filtered_indices();
    let mut rows: Vec<Row> = Vec::new();
    let n: usize = visible.len();
    let total: usize = indices.len();
    assert(as_ints(indices@).len() == indices@.len());
    let mut k: usize = 0;
    while k < n
        invariant
            k <= n,
            n == visible@.len(),
            offset + n <= menu@.len() <= usize::MAX,
            n == menu@.visible_count(),
            menu@.wf(),
            config@ == menu@.config,
            selected == menu@.selected,
            offset == menu@.scroll_offset,
            forall|r: int|
                0 <= r < visible@.len() ==> {
                    &&& (#[trigger] visible@[r]).0 == menu@.filtered[menu@.scroll_offset + r]
                    &&& visible@[r].1@ == menu@.config.items[visible@[r].0 as int]
                },
            rows@.len() == k,
            forall|r: int| 0 <= r < k ==> row_shows(#[trigger] rows@[r], menu@, *theme, r),
        decreases n - k,
    {
        let index: usize = visible[k].0;
        let item: &MenuItem = visible[k].1;
        let highlighted: bool = offset + k == selected;
        proof {
            let v = menu@;
            let entry = v.scroll_offset + k;
            assert(0 <= entry < v.len());
            assert(0 <= v.filtered[entry] < v.config.items.len());
            assert(v.config.items[v.filtered[entry]].columns.len() == v.config.columns.len());
            if entry < v.selected {
                assert(v.filtered[entry] < v.filtered[v.selected]);
            }
            if v.selected < entry {
                assert(v.filtered[v.selected] < v.filtered[entry]);
            }
        }
        let row: Row = compose_row(config, item, index, highlighted, theme);
        rows.push(row);
        k += 1;
    }
    let bar: Option<Scrollbar> = scrollbar(
        total,
        menu.visible_height(),
        offset,
        track_height,
    );
    Frame {
        prompt: menu.config().prompt.clone(),
        rows,
        filter: menu.filter_text().to_owned(),
        scrollbar: bar,
    }
}

} // verus!
