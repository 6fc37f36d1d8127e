//! Reading a rendered table back: stripping the pipes and the bar leaves the
//! padded cells, and rendering those again changes nothing.

use crate::align::{
    framed, gap, left_padding, lemma_padded_full, lemma_padded_width, padded_cell, right_padding,
    ColumnAlign,
};
use crate::columns::{column_count, table_widths, uniform, widest};
use crate::frame::{fits, lemma_table_fits};
use crate::render::{bar_fill, bar_text, joined, line_text, pad_row, table_lines};
use crate::width::{fill, text_width};
use vstd::prelude::*;

verus! {

/// No cell of the record holds a pipe.
pub open spec fn pipe_free(cells: Seq<Seq<char>>) -> bool {
    forall|j: int, i: int|
        0 <= j < cells.len() && 0 <= i < cells[j].len() ==> #[trigger] cells[j][i] != '|'
}

/// No cell of the table holds a pipe.
pub open spec fn table_pipe_free(header: Option<Seq<Seq<char>>>, rows: Seq<Seq<Seq<char>>>) -> bool {
    &&& header matches Some(h) ==> pipe_free(h)
    &&& forall|r: int| 0 <= r < rows.len() ==> pipe_free(#[trigger] rows[r])
}

/// Index of the first pipe in `text`, or its length where it holds none.
pub open spec fn first_pipe(text: Seq<char>) -> int
    decreases text.len(),
{
    if text.len() == 0 || text[0] == '|' {
        0
    } else {
        1 + first_pipe(text.skip(1))
    }
}

/// The cells of a line's inside: the texts between the `" | "` separators.
pub open spec fn split_cells(body: Seq<char>) -> Seq<Seq<char>>
    decreases body.len(),
{
    let p = first_pipe(body);
    if 1 <= p && p + 2 <= body.len() {
        seq![body.take(p - 1)] + split_cells(body.skip(p + 2))
    } else {
        seq![body]
    }
}

/// The cells of a header or data line: the line without `"| "` and `" |"`,
/// parted at each `" | "`.
pub open spec fn strip_line(line: Seq<char>) -> Seq<Seq<char>> {
    if line.len() >= 4 {
        split_cells(line.subrange(2, line.len() - 2))
    } else {
        Seq::empty()
    }
}

/// A separator bar has a hyphen behind its first pipe, where a header or data
/// line has a space.
pub open spec fn is_bar(line: Seq<char>) -> bool {
    line.len() >= 2 && line[1] == '-'
}

/// The header and rows that the lines of a rendered table show: a bar in
/// second place marks the line before it as the header and is dropped.
pub open spec fn strip_table(lines: Seq<Seq<char>>) -> (
    Option<Seq<Seq<char>>>,
    Seq<Seq<Seq<char>>>,
) {
    if lines.len() >= 2 && is_bar(lines[1]) {
        (
            Some(strip_line(lines[0])),
            Seq::new((lines.len() - 2) as nat, |r: int| strip_line(lines[r + 2])),
        )
    } else {
        (None, Seq::new(lines.len(), |r: int| strip_line(lines[r])))
    }
}

/// `text` without the spaces at its start.
pub open spec fn trim_start(text: Seq<char>) -> Seq<char>
    decreases text.len(),
{
    if text.len() > 0 && text[0] == ' ' {
        trim_start(text.skip(1))
    } else {
        text
    }
}

/// `text` without the spaces at its end.
pub open spec fn trim_end(text: Seq<char>) -> Seq<char>
    decreases text.len(),
{
    if text.len() > 0 && text.last() == ' ' {
        trim_end(text.drop_last())
    } else {
        text
    }
}

/// `text` without the spaces around it.
pub open spec fn trimmed(text: Seq<char>) -> Seq<char> {
    trim_end(trim_start(text))
}

/// The header with every cell padded to its column.
pub open spec fn pad_header(
    header: Option<Seq<Seq<char>>>,
    widths: Seq<nat>,
    align: ColumnAlign,
) -> Option<Seq<Seq<char>>> {
    match header {
        Some(h) => Some(pad_row(h, widths, align)),
        None => None,
    }
}

/// The rows with every cell padded to its column.
pub open spec fn pad_rows(rows: Seq<Seq<Seq<char>>>, widths: Seq<nat>, align: ColumnAlign) -> Seq<
    Seq<Seq<char>>,
> {
    Seq::new(rows.len(), |r: int| pad_row(rows[r], widths, align))
}

/// Spaces in front of a text are trimmed away.
pub proof fn lemma_trim_start_fill(n: nat, text: Seq<char>)
    ensures
        trim_start(fill(' ', n) + text) == trim_start(text),
    decreases n,
{
    if n == 0 {
        assert(fill(' ', n) + text =~= text);
    } else {
        let m = (n - 1) as nat;
        assert((fill(' ', n) + text).skip(1) =~= fill(' ', m) + text);
        lemma_trim_start_fill(m, text);
    }
}

/// Spaces behind a text are trimmed away.
pub proof fn lemma_trim_end_fill(text: Seq<char>, n: nat)
    ensures
        trim_end(text + fill(' ', n)) == trim_end(text),
    decreases n,
{
    if n == 0 {
        assert(text + fill(' ', n) =~= text);
    } else {
        let m = (n - 1) as nat;
        assert((text + fill(' ', n)).drop_last() =~= text + fill(' ', m));
        lemma_trim_end_fill(text, m);
    }
}

/// Spaces behind a text do not change what is left of it once trimmed on both
/// sides.
pub proof fn lemma_trimmed_fill_back(text: Seq<char>, n: nat)
    ensures
        trimmed(text + fill(' ', n)) == trimmed(text),
    decreases text.len(),
{
    let whole = text + fill(' ', n);
    if text.len() == 0 {
        assert(whole =~= fill(' ', n) + text);
        lemma_trim_start_fill(n, text);
    } else if text[0] == ' ' {
        assert(whole.skip(1) =~= text.skip(1) + fill(' ', n));
        lemma_trimmed_fill_back(text.skip(1), n);
    } else {
        assert(whole[0] == text[0]);
        lemma_trim_end_fill(text, n);
    }
}

/// A text between spaces is, once trimmed, the text trimmed.
pub proof fn lemma_trimmed_framed(text: Seq<char>, left: nat, right: nat)
    ensures
        trimmed(framed(text, left, right)) == trimmed(text),
{
    assert(framed(text, left, right) =~= fill(' ', left) + (text + fill(' ', right)));
    lemma_trim_start_fill(left, text + fill(' ', right));
    lemma_trimmed_fill_back(text, right);
}

/// Up to the spaces around it, a padded cell is the cell.
pub proof fn lemma_trimmed_padded(text: Seq<char>, width: nat, align: ColumnAlign)
    ensures
        trimmed(padded_cell(text, width, align)) == trimmed(text),
{
    let g = gap(text_width(text), width);
    lemma_trimmed_framed(text, left_padding(align, g), right_padding(align, g));
}

/// Padding brings no pipe into a record.
pub proof fn lemma_padded_pipe_free(cells: Seq<Seq<char>>, widths: Seq<nat>, align: ColumnAlign)
    requires
        pipe_free(cells),
    ensures
        pipe_free(pad_row(cells, widths, align)),
{
    let row = pad_row(cells, widths, align);
    assert forall|j: int, i: int| 0 <= j < row.len() && 0 <= i < row[j].len() implies #[trigger] row[j][i]
        != '|' by {
        let g = gap(text_width(cells[j]), widths[j]);
        let left = left_padding(align, g);
        if left <= i < left + cells[j].len() {
            assert(row[j][i] == cells[j][i - left]);
        }
    }
}

/// In front of a text without a pipe, the first pipe of what follows is found.
pub proof fn lemma_first_pipe_concat(a: Seq<char>, b: Seq<char>)
    requires
        forall|i: int| 0 <= i < a.len() ==> a[i] != '|',
    ensures
        first_pipe(a + b) == a.len() + first_pipe(b),
    decreases a.len(),
{
    if a.len() == 0 {
        assert(a + b =~= b);
    } else {
        assert((a + b)[0] == a[0]);
        assert((a + b).skip(1) =~= a.skip(1) + b);
        assert forall|i: int| 0 <= i < a.skip(1).len() implies a.skip(1)[i] != '|' by {
            assert(a.skip(1)[i] == a[i + 1]);
        }
        lemma_first_pipe_concat(a.skip(1), b);
    }
}

/// The joined cells are the first cell, a separator and the other cells joined.
pub proof fn lemma_joined_first(cells: Seq<Seq<char>>)
    requires
        cells.len() >= 2,
    ensures
        joined(cells) == cells[0] + seq![' ', '|', ' '] + joined(cells.skip(1)),
    decreases cells.len(),
{
    let fewer = cells.drop_last();
    let others = cells.skip(1);
    assert(others.last() == cells.last());
    if cells.len() == 2 {
        assert(fewer.len() == 1);
        assert(joined(fewer) == cells[0]);
        assert(others.len() == 1);
        assert(joined(others) == cells[1]);
    } else {
        lemma_joined_first(fewer);
        assert(fewer.skip(1) =~= others.drop_last());
        assert(joined(cells) =~= cells[0] + seq![' ', '|', ' '] + joined(others));
    }
}

/// Parting the joined cells of a record without pipes gives the cells back.
pub proof fn lemma_split_joined(cells: Seq<Seq<char>>)
    requires
        cells.len() >= 1,
        pipe_free(cells),
    ensures
        split_cells(joined(cells)) == cells,
    decreases cells.len(),
{
    let body = joined(cells);
    let first = cells[0];
    assert forall|i: int| 0 <= i < first.len() implies first[i] != '|' by {
        assert(cells[0][i] != '|');
    }
    if cells.len() == 1 {
        lemma_first_pipe_concat(first, Seq::empty());
        assert(first + Seq::<char>::empty() =~= first);
        assert(split_cells(body) =~= cells);
    } else {
        let others = cells.skip(1);
        let tail = seq![' ', '|', ' '] + joined(others);
        lemma_joined_first(cells);
        assert(body =~= first + tail);
        lemma_first_pipe_concat(first, tail);
        assert(tail.skip(1)[0] == '|');
        assert(first_pipe(tail.skip(1)) == 0);
        assert(first_pipe(tail) == 1);
        let p = first_pipe(body);
        assert(p == first.len() + 1);
        assert(body.take(p - 1) =~= first);
        assert(body.skip(p + 2) =~= joined(others));
        assert forall|j: int, i: int| 0 <= j < others.len() && 0 <= i < others[j].len() implies #[trigger] others[j][i]
            != '|' by {
            assert(cells[j + 1][i] != '|');
        }
        lemma_split_joined(others);
        assert(split_cells(body) =~= cells);
    }
}

/// Stripping a line of a record without pipes gives its cells back.
pub proof fn lemma_strip_line(cells: Seq<Seq<char>>)
    requires
        cells.len() >= 1,
        pipe_free(cells),
    ensures
        strip_line(line_text(cells)) == cells,
        line_text(cells).len() >= 4,
        line_text(cells)[1] == ' ',
{
    let line = line_text(cells);
    assert(line.subrange(2, line.len() - 2) =~= joined(cells));
    lemma_split_joined(cells);
}

/// Stripped of its pipes and its bar, a rendered table shows its header and
/// rows, each cell padded to its column.
pub proof fn lemma_strip_table(
    header: Option<Seq<Seq<char>>>,
    rows: Seq<Seq<Seq<char>>>,
    widths: Seq<nat>,
    align: ColumnAlign,
)
    requires
        widths.len() >= 1,
        header matches Some(h) ==> h.len() == widths.len(),
        forall|r: int| 0 <= r < rows.len() ==> (#[trigger] rows[r]).len() == widths.len(),
        table_pipe_free(header, rows),
    ensures
        strip_table(table_lines(header, rows, widths, align)) == (
            pad_header(header, widths, align),
            pad_rows(rows, widths, align),
        ),
{
    let lines = table_lines(header, rows, widths, align);
    let stripped = strip_table(lines);
    let body = pad_rows(rows, widths, align);
    assert forall|r: int| 0 <= r < rows.len() implies {
        &&& strip_line(line_text(#[trigger] body[r])) == body[r]
        &&& line_text(body[r]).len() >= 4
        &&& line_text(body[r])[1] == ' '
    } by {
        assert(pipe_free(rows[r]));
        lemma_padded_pipe_free(rows[r], widths, align);
        lemma_strip_line(body[r]);
    }
    match header {
        Some(h) => {
            lemma_padded_pipe_free(h, widths, align);
            lemma_strip_line(pad_row(h, widths, align));
            assert(lines[1] == bar_text(widths));
            assert(bar_fill(widths) >= 2);
            assert(bar_text(widths)[1] == '-');
            assert(stripped.1 =~= body) by {
                assert forall|r: int| 0 <= r < rows.len() implies stripped.1[r] == body[r] by {
                    assert(lines[r + 2] == line_text(body[r]));
                }
            }
        },
        None => {
            if lines.len() >= 2 {
                assert(lines[1] == line_text(body[1]));
                assert(!is_bar(lines[1]));
            }
            assert(stripped.1 =~= body) by {
                assert forall|r: int| 0 <= r < rows.len() implies stripped.1[r] == body[r] by {
                    assert(lines[r] == line_text(body[r]));
                }
            }
        },
    }
}

/// Rendering a table and stripping the pipes and the bar recovers every cell
/// up to the spaces around it, for a table whose cells hold no pipe.
pub proof fn lemma_round_trip(
    header: Option<Seq<Seq<char>>>,
    rows: Seq<Seq<Seq<char>>>,
    align: ColumnAlign,
)
    requires
        uniform(header, rows),
        table_pipe_free(header, rows),
    ensures
        ({
            let shown = strip_table(
                table_lines(header, rows, table_widths(header, rows), align),
            );
            &&& header matches Some(h) ==> forall|j: int|
                0 <= j < h.len() ==> shown.0 is Some && j < shown.0->0.len() && trimmed(
                    shown.0->0[j],
                ) == trimmed(#[trigger] h[j])
            &&& forall|r: int, j: int|
                0 <= r < rows.len() && 0 <= j < rows[r].len() ==> r < shown.1.len() && j
                    < shown.1[r].len() && trimmed(shown.1[r][j]) == trimmed(#[trigger] rows[r][j])
        }),
{
    let widths = table_widths(header, rows);
    let shown = strip_table(table_lines(header, rows, widths, align));
    if widths.len() >= 1 {
        lemma_strip_table(header, rows, widths, align);
        if let Some(h) = header {
            assert forall|j: int| 0 <= j < h.len() implies trimmed(shown.0->0[j]) == trimmed(
                #[trigger] h[j],
            ) by {
                lemma_trimmed_padded(h[j], widths[j], align);
            }
        }
        assert forall|r: int, j: int| 0 <= r < rows.len() && 0 <= j < rows[r].len() implies trimmed(
            shown.1[r][j],
        ) == trimmed(#[trigger] rows[r][j]) by {
            lemma_trimmed_padded(rows[r][j], widths[j], align);
        }
    }
}

/// In a table of cells that each fill their column, every column is as wide
/// as it was.
proof fn lemma_padded_widest(
    header: Option<Seq<Seq<char>>>,
    rows: Seq<Seq<Seq<char>>>,
    widths: Seq<nat>,
    align: ColumnAlign,
    n: nat,
    j: int,
)
    requires
        0 <= j < widths.len(),
        n <= rows.len(),
        header matches Some(h) ==> fits(h, widths),
        forall|r: int| 0 <= r < rows.len() ==> fits(#[trigger] rows[r], widths),
    ensures
        widest(pad_header(header, widths, align), pad_rows(rows, widths, align), n, j) == if header is Some
            || n > 0 {
            widths[j]
        } else {
            0
        },
    decreases n,
{
    if n == 0 {
        if let Some(h) = header {
            lemma_padded_width(h[j], widths[j], align);
            assert(text_width(h[j]) <= widths[j]);
        }
    } else {
        lemma_padded_widest(header, rows, widths, align, (n - 1) as nat, j);
        assert(fits(rows[n - 1], widths));
        lemma_padded_width(rows[n - 1][j], widths[j], align);
        assert(text_width(rows[n - 1][j]) <= widths[j]);
    }
}

/// Rendering the cells that a rendered table shows gives the same lines again,
/// for a table whose cells hold no pipe.
pub proof fn lemma_render_again(
    header: Option<Seq<Seq<char>>>,
    rows: Seq<Seq<Seq<char>>>,
    align: ColumnAlign,
)
    requires
        uniform(header, rows),
        table_pipe_free(header, rows),
    ensures
        ({
            let lines = table_lines(header, rows, table_widths(header, rows), align);
            let shown = strip_table(lines);
            table_lines(shown.0, shown.1, table_widths(shown.0, shown.1), align) == lines
        }),
{
    let widths = table_widths(header, rows);
    let lines = table_lines(header, rows, widths, align);
    let shown = strip_table(lines);
    if widths.len() == 0 {
        assert(shown.1 =~= Seq::empty());
        assert(table_widths(shown.0, shown.1) =~= Seq::empty());
    } else {
        lemma_strip_table(header, rows, widths, align);
        lemma_table_fits(header, rows);
        let h2 = pad_header(header, widths, align);
        let t2 = pad_rows(rows, widths, align);
        assert(column_count(h2, t2) == widths.len());
        assert(header is Some || rows.len() > 0);
        assert forall|j: int| 0 <= j < widths.len() implies widest(h2, t2, t2.len(), j)
            == widths[j] by {
            lemma_padded_widest(header, rows, widths, align, rows.len(), j);
        }
        assert(table_widths(h2, t2) =~= widths);
        assert forall|cells: Seq<Seq<char>>| #[trigger] fits(cells, widths) implies pad_row(
            pad_row(cells, widths, align),
            widths,
            align,
        ) == pad_row(cells, widths, align) by {
            let once = pad_row(cells, widths, align);
            assert forall|j: int| 0 <= j < cells.len() implies padded_cell(once[j], widths[j], align)
                == once[j] by {
                lemma_padded_width(cells[j], widths[j], align);
                assert(text_width(cells[j]) <= widths[j]);
                lemma_padded_full(once[j], text_width(once[j]), widths[j], align);
            }
            assert(pad_row(once, widths, align) =~= once);
        }
        if let Some(h) = header {
            assert(fits(h, widths));
        }
        assert forall|r: int| 0 <= r < rows.len() implies line_text(pad_row(t2[r], widths, align))
            == line_text(pad_row(rows[r], widths, align)) by {
            assert(fits(rows[r], widths));
        }
        assert(table_lines(h2, t2, widths, align) =~= lines);
    }
}

} // verus!
