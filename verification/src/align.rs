//! Alignment modes and the padding of one cell.

use crate::width::{
    display_width, fill, lemma_width_fill_back, lemma_width_fill_front, text_width,
};
use vstd::prelude::*;
use vstd::string::*;

verus! {

/// The formatting alignment to use for column elements.
#[derive(Debug, Clone, Copy, PartialEq, Eq, Structural)]
pub enum ColumnAlign {
    /// Center-align all column elements.
    Center,
    /// Left-align all column elements.
    Left,
    /// Right-align all column elements.
    Right,
}

impl Default for ColumnAlign {
    fn default() -> (align: ColumnAlign)
        ensures
            align == ColumnAlign::Center,
    {
        ColumnAlign::Center
    }
}

/// The larger of two widths.
pub open spec fn wider(a: nat, b: nat) -> nat {
    if a > b {
        a
    } else {
        b
    }
}

/// Columns still to be filled when a text `len` columns wide goes into a cell
/// of `width` columns. A text wider than the cell is never cut: the gap is 0.
pub open spec fn gap(len: nat, width: nat) -> nat {
    if width > len {
        (width - len) as nat
    } else {
        0
    }
}

/// Spaces put before the text.
pub open spec fn left_padding(align: ColumnAlign, gap: nat) -> nat {
    match align {
        ColumnAlign::Center => gap / 2,
        ColumnAlign::Left => 0,
        ColumnAlign::Right => gap,
    }
}

/// Spaces put after the text: what the left side leaves of the gap.
pub open spec fn right_padding(align: ColumnAlign, gap: nat) -> nat {
    (gap - left_padding(align, gap)) as nat
}

/// `text` between `left` spaces and `right` spaces.
pub open spec fn framed(text: Seq<char>, left: nat, right: nat) -> Seq<char> {
    fill(' ', left) + text + fill(' ', right)
}

/// `text`, taken to be `len` columns wide, padded to `width` columns.
pub open spec fn padded(text: Seq<char>, len: nat, width: nat, align: ColumnAlign) -> Seq<char> {
    framed(text, left_padding(align, gap(len, width)), right_padding(align, gap(len, width)))
}

/// `text` padded to `width` columns by its display width.
pub open spec fn padded_cell(text: Seq<char>, width: nat, align: ColumnAlign) -> Seq<char> {
    padded(text, text_width(text), width, align)
}

/// The two paddings share the gap. Centered text has the odd column on its
/// right; left-aligned text has nothing before it, right-aligned text nothing
/// after it.
pub proof fn lemma_padding_sides(align: ColumnAlign, gap: nat)
    ensures
        left_padding(align, gap) + right_padding(align, gap) == gap,
        align == ColumnAlign::Center ==> left_padding(align, gap) <= right_padding(align, gap)
            <= left_padding(align, gap) + 1,
        align == ColumnAlign::Left ==> left_padding(align, gap) == 0,
        align == ColumnAlign::Right ==> right_padding(align, gap) == 0,
{
}

/// Spaces around a text add their number to its width.
pub proof fn lemma_framed_width(text: Seq<char>, left: nat, right: nat)
    ensures
        text_width(framed(text, left, right)) == left + text_width(text) + right,
{
    lemma_width_fill_back(fill(' ', left) + text, ' ', right);
    lemma_width_fill_front(' ', left, text);
}

/// A padded cell is as wide as asked for, or as the text where that is wider.
pub proof fn lemma_padded_width(text: Seq<char>, width: nat, align: ColumnAlign)
    ensures
        text_width(padded_cell(text, width, align)) == wider(width, text_width(text)),
{
    let g = gap(text_width(text), width);
    lemma_padding_sides(align, g);
    lemma_framed_width(text, left_padding(align, g), right_padding(align, g));
}

/// A text that fills its cell is left as it is.
pub proof fn lemma_padded_full(text: Seq<char>, len: nat, width: nat, align: ColumnAlign)
    requires
        width <= len,
    ensures
        padded(text, len, width, align) == text,
{
    assert(fill(' ', 0) + text + fill(' ', 0) =~= text);
}

/// `n` copies of the one character that `unit` holds.
pub(crate) fn repeated(unit: &str, n: usize) -> (s: String)
    requires
        unit@.len() == 1,
    ensures
        s@ == fill(unit@[0], n as nat),
{
    let mut s = String::new();
    let mut i: usize = 0;
    assert(s@ =~= fill(unit@[0], 0));
    while i < n
        invariant
            i <= n,
            unit@.len() == 1,
            s@ == fill(unit@[0], i as nat),
        decreases n - i,
    {
        s.append(unit);
        i += 1;
        assert(s@ =~= fill(unit@[0], i as nat));
    }
    s
}

/// `elem` with `left` spaces before it and `right` spaces after it.
pub(crate) fn surround(elem: &str, left: usize, right: usize) -> (s: String)
    ensures
        s@ == framed(elem@, left as nat, right as nat),
{
    proof {
        reveal_strlit(" ");
    }
    let mut s = repeated(" ", left);
    s.append(elem);
    let tail = repeated(" ", right);
    s.append(tail.as_str());
    s
}

/// Pads `elem`, measured as `len` columns wide, to `width` columns.
pub fn pad_measured(elem: &str, len: usize, width: usize, align: ColumnAlign) -> (s: String)
    ensures
        s@ == padded(elem@, len as nat, width as nat, align),
{
    let total_pad = width.saturating_sub(len);
    let left_pad = match align {
        ColumnAlign::Center => total_pad / 2,
        ColumnAlign::Left => 0,
        ColumnAlign::Right => total_pad,
    };
    let right_pad = total_pad - left_pad;
    surround(elem, left_pad, right_pad)
}

/// Pad a string to the center with spaces (for center-aligned columns).
pub fn pad_center(elem: &str, width: usize) -> (s: String)
    ensures
        s@ == padded_cell(elem@, width as nat, ColumnAlign::Center),
        text_width(s@) == wider(width as nat, text_width(elem@)),
{
    proof {
        lemma_padded_width(elem@, width as nat, ColumnAlign::Center);
    }
    let len = display_width(elem);
    pad_measured(elem, len, width, ColumnAlign::Center)
}

/// Pad a string to the left with spaces (for right-aligned columns).
pub fn pad_left(elem: &str, width: usize) -> (s: String)
    ensures
        s@ == padded_cell(elem@, width as nat, ColumnAlign::Right),
        text_width(s@) == wider(width as nat, text_width(elem@)),
{
    proof {
        lemma_padded_width(elem@, width as nat, ColumnAlign::Right);
    }
    let len = display_width(elem);
    pad_measured(elem, len, width, ColumnAlign::Right)
}

/// Pad a string to the right with spaces (for left-aligned columns).
pub fn pad_right(elem: &str, width: usize) -> (s: String)
    ensures
        s@ == padded_cell(elem@, width as nat, ColumnAlign::Left),
        text_width(s@) == wider(width as nat, text_width(elem@)),
{
    proof {
        lemma_padded_width(elem@, width as nat, ColumnAlign::Left);
    }
    let len = display_width(elem);
    pad_measured(elem, len, width, ColumnAlign::Left)
}

/// Pads `elem` to `width` columns the way `align` asks.
pub fn pad(elem: &str, width: usize, align: ColumnAlign) -> (s: String)
    ensures
        s@ == padded_cell(elem@, width as nat, align),
        text_width(s@) == wider(width as nat, text_width(elem@)),
{
    match align {
        ColumnAlign::Center => pad_center(elem, width),
        ColumnAlign::Left => pad_right(elem, width),
        ColumnAlign::Right => pad_left(elem, width),
    }
}

} // verus!
