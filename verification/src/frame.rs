//! The frame holds: every line of a rendered table is as wide as the frame.

use crate::align::{lemma_padded_width, ColumnAlign};
use crate::columns::{lemma_widest_is_max, table_widths, uniform};
use crate::render::{
    bar_fill, bar_text, frame_width, header_spans, heading_spans, joined, line_text, lines_text,
    pad_row, spans_text, sum, table_lines, table_spans,
};
use crate::width::{fill, lemma_width_fill, lemma_width_plain_between, text_width};
use vstd::prelude::*;

verus! {

/// Sum of the display widths of the cells.
pub open spec fn cells_width(cells: Seq<Seq<char>>) -> nat
    decreases cells.len(),
{
    if cells.len() == 0 {
        0
    } else {
        cells_width(cells.drop_last()) + text_width(cells.last())
    }
}

/// The record has one cell for each column, none wider than its column.
pub open spec fn fits(cells: Seq<Seq<char>>, widths: Seq<nat>) -> bool {
    &&& cells.len() == widths.len()
    &&& forall|j: int| 0 <= j < cells.len() ==> text_width(#[trigger] cells[j]) <= widths[j]
}

/// Cells joined by `" | "` are as wide as the cells together and three columns
/// for each separator.
pub proof fn lemma_joined_width(cells: Seq<Seq<char>>)
    requires
        cells.len() >= 1,
    ensures
        text_width(joined(cells)) == cells_width(cells) + 3 * (cells.len() - 1),
    decreases cells.len(),
{
    if cells.len() == 1 {
        assert(cells_width(cells.drop_last()) == 0);
        assert(cells.last() == cells[0]);
    } else {
        lemma_joined_width(cells.drop_last());
        lemma_width_plain_between(joined(cells.drop_last()), seq![' ', '|', ' '], cells.last());
    }
}

/// A line is as wide as its cells together, a space on either side of each,
/// and the pipes.
pub proof fn lemma_line_width(cells: Seq<Seq<char>>)
    requires
        cells.len() >= 1,
    ensures
        text_width(line_text(cells)) == cells_width(cells) + 3 * cells.len() + 1,
{
    let body = joined(cells);
    lemma_joined_width(cells);
    lemma_width_plain_between(Seq::empty(), seq!['|', ' '], body);
    assert(Seq::<char>::empty() + seq!['|', ' '] + body =~= seq!['|', ' '] + body);
    lemma_width_plain_between(seq!['|', ' '] + body, seq![' ', '|'], Seq::empty());
    assert(seq!['|', ' '] + body + seq![' ', '|'] + Seq::<char>::empty() =~= line_text(cells));
}

/// The separator bar is as wide as the frame.
pub proof fn lemma_bar_width(widths: Seq<nat>)
    requires
        widths.len() >= 1,
    ensures
        text_width(bar_text(widths)) == frame_width(widths),
{
    let dashes = fill('-', bar_fill(widths));
    lemma_width_fill('-', bar_fill(widths));
    lemma_width_plain_between(Seq::empty(), seq!['|'], dashes);
    assert(Seq::<char>::empty() + seq!['|'] + dashes =~= seq!['|'] + dashes);
    lemma_width_plain_between(seq!['|'] + dashes, seq!['|'], Seq::empty());
    assert(seq!['|'] + dashes + seq!['|'] + Seq::<char>::empty() =~= bar_text(widths));
}

/// Padded to widths that no cell exceeds, the cells are together as wide as
/// the columns.
pub proof fn lemma_padded_row_width(cells: Seq<Seq<char>>, widths: Seq<nat>, align: ColumnAlign)
    requires
        fits(cells, widths),
    ensures
        cells_width(pad_row(cells, widths, align)) == sum(widths),
    decreases cells.len(),
{
    let row = pad_row(cells, widths, align);
    if cells.len() > 0 {
        let k = cells.len() - 1;
        assert(row.drop_last() =~= pad_row(cells.drop_last(), widths.drop_last(), align));
        assert forall|j: int| 0 <= j < k implies text_width(#[trigger] cells.drop_last()[j])
            <= widths.drop_last()[j] by {
            assert(cells.drop_last()[j] == cells[j]);
        }
        lemma_padded_row_width(cells.drop_last(), widths.drop_last(), align);
        lemma_padded_width(cells[k], widths[k], align);
        assert(text_width(cells[k]) <= widths[k]);
    }
}

/// A record padded to widths that none of its cells exceeds renders as a line
/// exactly as wide as the frame.
pub proof fn lemma_padded_line_width(cells: Seq<Seq<char>>, widths: Seq<nat>, align: ColumnAlign)
    requires
        widths.len() >= 1,
        fits(cells, widths),
    ensures
        text_width(line_text(pad_row(cells, widths, align))) == frame_width(widths),
{
    lemma_padded_row_width(cells, widths, align);
    lemma_line_width(pad_row(cells, widths, align));
}

/// With the widths of its own columns, every record of a table fits.
pub proof fn lemma_table_fits(header: Option<Seq<Seq<char>>>, rows: Seq<Seq<Seq<char>>>)
    requires
        uniform(header, rows),
    ensures
        header matches Some(h) ==> fits(h, table_widths(header, rows)),
        forall|r: int| 0 <= r < rows.len() ==> fits(#[trigger] rows[r], table_widths(header, rows)),
{
    let widths = table_widths(header, rows);
    if let Some(h) = header {
        assert forall|j: int| 0 <= j < h.len() implies text_width(#[trigger] h[j]) <= widths[j] by {
            lemma_widest_is_max(header, rows, rows.len(), j);
        }
    }
    assert forall|r: int| 0 <= r < rows.len() implies fits(#[trigger] rows[r], widths) by {
        assert forall|j: int| 0 <= j < rows[r].len() implies text_width(#[trigger] rows[r][j])
            <= widths[j] by {
            lemma_widest_is_max(header, rows, rows.len(), j);
        }
    }
}

/// Every line of a table rendered with widths that no cell exceeds is exactly
/// as wide as the frame: header line, separator bar and data lines align.
pub proof fn lemma_lines_align(
    header: Option<Seq<Seq<char>>>,
    rows: Seq<Seq<Seq<char>>>,
    widths: Seq<nat>,
    align: ColumnAlign,
)
    requires
        header matches Some(h) ==> fits(h, widths),
        forall|r: int| 0 <= r < rows.len() ==> fits(#[trigger] rows[r], widths),
    ensures
        forall|i: int|
            0 <= i < table_lines(header, rows, widths, align).len() ==> text_width(
                #[trigger] table_lines(header, rows, widths, align)[i],
            ) == frame_width(widths),
{
    let lines = table_lines(header, rows, widths, align);
    assert forall|i: int| 0 <= i < lines.len() implies text_width(#[trigger] lines[i])
        == frame_width(widths) by {
        let skipped: int = if header is Some {
            2
        } else {
            0
        };
        if i < skipped {
            if i == 0 {
                lemma_padded_line_width(header->0, widths, align);
            } else {
                lemma_bar_width(widths);
            }
        } else {
            let r = i - skipped;
            assert(fits(rows[r], widths));
            lemma_padded_line_width(rows[r], widths, align);
        }
    }
}

/// For every table whose rows have as many fields as it has columns, all lines
/// of the rendered table have the same display width.
pub proof fn lemma_rendered_lines_align(
    header: Option<Seq<Seq<char>>>,
    rows: Seq<Seq<Seq<char>>>,
    align: ColumnAlign,
)
    requires
        uniform(header, rows),
    ensures
        forall|i: int, j: int|
            0 <= i < table_lines(header, rows, table_widths(header, rows), align).len() && 0 <= j
                < table_lines(header, rows, table_widths(header, rows), align).len()
                ==> text_width(
                #[trigger] table_lines(header, rows, table_widths(header, rows), align)[i],
            ) == text_width(
                #[trigger] table_lines(header, rows, table_widths(header, rows), align)[j],
            ),
{
    lemma_table_fits(header, rows);
    lemma_lines_align(header, rows, table_widths(header, rows), align);
}

/// The spans of a header line spell the line and its line feed.
pub proof fn lemma_header_spans_text(cells: Seq<Seq<char>>)
    ensures
        spans_text(header_spans(cells)) == line_text(cells) + seq!['\n'],
{
    lemma_heading_spans_text(cells);
    let head = heading_spans(cells);
    let all = header_spans(cells);
    assert(all.drop_last() =~= head);
    assert(all.last() == (seq![' ', '|', '\n'], false));
    assert(seq!['|', ' '] + joined(cells) + seq![' ', '|', '\n'] =~= line_text(cells) + seq![
        '\n',
    ]);
}

/// The spans up to the last header cell spell `"| "` and the joined cells.
pub proof fn lemma_heading_spans_text(cells: Seq<Seq<char>>)
    ensures
        spans_text(heading_spans(cells)) == seq!['|', ' '] + joined(cells),
    decreases cells.len(),
{
    let lead = (seq!['|', ' '], false);
    let none = Seq::<(Seq<char>, bool)>::empty();
    lemma_spans_text_push(none, lead);
    assert(none.push(lead) =~= seq![lead]);
    assert(spans_text(seq![lead]) =~= seq!['|', ' ']);
    if cells.len() == 0 {
        assert(seq!['|', ' '] + joined(cells) =~= seq!['|', ' ']);
    } else if cells.len() == 1 {
        lemma_spans_text_push(seq![lead], (cells[0], true));
        assert(seq![lead].push((cells[0], true)) =~= heading_spans(cells));
    } else {
        let before = heading_spans(cells.drop_last());
        let between = (seq![' ', '|', ' '], false);
        lemma_heading_spans_text(cells.drop_last());
        lemma_spans_text_push(before, between);
        lemma_spans_text_push(before.push(between), (cells.last(), true));
        assert(before.push(between).push((cells.last(), true)) =~= heading_spans(cells));
        assert(spans_text(heading_spans(cells)) =~= seq!['|', ' '] + joined(cells));
    }
}

/// Appending one plain span appends its text.
pub proof fn lemma_spans_text_push(spans: Seq<(Seq<char>, bool)>, span: (Seq<char>, bool))
    ensures
        spans_text(spans.push(span)) == spans_text(spans) + span.0,
{
    assert(spans.push(span).drop_last() =~= spans);
}

/// Spans one after the other spell their texts one after the other.
pub proof fn lemma_spans_text_concat(a: Seq<(Seq<char>, bool)>, b: Seq<(Seq<char>, bool)>)
    ensures
        spans_text(a + b) == spans_text(a) + spans_text(b),
    decreases b.len(),
{
    if b.len() == 0 {
        assert(a + b =~= a);
        assert(spans_text(a) + spans_text(b) =~= spans_text(a));
    } else {
        lemma_spans_text_concat(a, b.drop_last());
        assert((a + b).drop_last() =~= a + b.drop_last());
        assert((a + b).last() == b.last());
        assert(spans_text(a + b) =~= spans_text(a) + spans_text(b));
    }
}

/// Lines one after the other spell their texts one after the other.
pub proof fn lemma_lines_text_concat(a: Seq<Seq<char>>, b: Seq<Seq<char>>)
    ensures
        lines_text(a + b) == lines_text(a) + lines_text(b),
    decreases b.len(),
{
    if b.len() == 0 {
        assert(a + b =~= a);
        assert(lines_text(a) + lines_text(b) =~= lines_text(a));
    } else {
        lemma_lines_text_concat(a, b.drop_last());
        assert((a + b).drop_last() =~= a + b.drop_last());
        assert((a + b).last() == b.last());
        assert(lines_text(a + b) =~= lines_text(a) + lines_text(b));
    }
}

/// One plain span for each line, with its line feed, spells the lines.
pub proof fn lemma_line_spans_text(lines: Seq<Seq<char>>)
    ensures
        spans_text(Seq::new(lines.len(), |i: int| (lines[i] + seq!['\n'], false))) == lines_text(
            lines,
        ),
    decreases lines.len(),
{
    let spans = Seq::new(lines.len(), |i: int| (lines[i] + seq!['\n'], false));
    if lines.len() > 0 {
        let fewer = lines.drop_last();
        lemma_line_spans_text(fewer);
        assert(spans.drop_last() =~= Seq::new(fewer.len(), |i: int| (fewer[i] + seq!['\n'], false)));
        assert(spans_text(spans) =~= lines_text(lines));
    }
}

/// The spans of a rendered table spell its lines, each closed by a line feed:
/// a sink without styling receives exactly the lines.
pub proof fn lemma_spans_spell_lines(
    header: Option<Seq<Seq<char>>>,
    rows: Seq<Seq<Seq<char>>>,
    widths: Seq<nat>,
    align: ColumnAlign,
)
    ensures
        spans_text(table_spans(header, rows, widths, align)) == lines_text(
            table_lines(header, rows, widths, align),
        ),
{
    if widths.len() > 0 {
        let body = Seq::new(rows.len(), |r: int| line_text(pad_row(rows[r], widths, align)));
        let body_spans = Seq::new(
            rows.len(),
            |r: int| (line_text(pad_row(rows[r], widths, align)) + seq!['\n'], false),
        );
        lemma_line_spans_text(body);
        assert(body_spans =~= Seq::new(body.len(), |i: int| (body[i] + seq!['\n'], false)));
        match header {
            Some(h) => {
                let top = line_text(pad_row(h, widths, align));
                let head = seq![top, bar_text(widths)];
                let head_spans = header_spans(pad_row(h, widths, align)) + seq![
                    (bar_text(widths) + seq!['\n'], false),
                ];
                lemma_header_spans_text(pad_row(h, widths, align));
                lemma_spans_text_push(
                    header_spans(pad_row(h, widths, align)),
                    (bar_text(widths) + seq!['\n'], false),
                );
                assert(head_spans =~= header_spans(pad_row(h, widths, align)).push(
                    (bar_text(widths) + seq!['\n'], false),
                ));
                assert(head.drop_last() =~= seq![top]);
                assert(lines_text(seq![top].drop_last()) =~= Seq::<char>::empty());
                assert(lines_text(seq![top]) =~= top + seq!['\n']);
                assert(lines_text(head) =~= top + seq!['\n'] + bar_text(widths) + seq!['\n']);
                assert(spans_text(head_spans) =~= lines_text(head));
                lemma_spans_text_concat(head_spans, body_spans);
                lemma_lines_text_concat(head, body);
            },
            None => {
                assert(Seq::<(Seq<char>, bool)>::empty() + body_spans =~= body_spans);
                assert(Seq::<Seq<char>>::empty() + body =~= body);
            },
        }
    }
}

} // verus!
