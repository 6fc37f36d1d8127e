//! The renderer: padded cells between pipes, the separator bar, and the output
//! as a sequence of spans, of which the header's cells are styled.

use crate::align::{pad, padded_cell, repeated, ColumnAlign};
use crate::columns::{column_count, nats, uniform};
use crate::width::fill;
use vstd::prelude::*;
use vstd::string::*;

verus! {

/// One piece of output: text to be written as it is, or, when `styled`, in the
/// style of a header cell. Styling never changes the text.
#[derive(Debug, Clone, PartialEq, Eq)]
pub struct Span {
    pub text: String,
    pub styled: bool,
}

impl DeepView for Span {
    type V = (Seq<char>, bool);

    open spec fn deep_view(&self) -> (Seq<char>, bool) {
        (self.text@, self.styled)
    }
}

/// Each cell of a record padded to the width of its column.
pub open spec fn pad_row(cells: Seq<Seq<char>>, widths: Seq<nat>, align: ColumnAlign) -> Seq<
    Seq<char>,
> {
    Seq::new(cells.len(), |j: int| padded_cell(cells[j], widths[j], align))
}

/// The cells in order with `" | "` between neighbours.
pub open spec fn joined(cells: Seq<Seq<char>>) -> Seq<char>
    decreases cells.len(),
{
    if cells.len() == 0 {
        Seq::empty()
    } else if cells.len() == 1 {
        cells[0]
    } else {
        joined(cells.drop_last()) + seq![' ', '|', ' '] + cells.last()
    }
}

/// A header or data line: `"| "`, the cells with `" | "` between them, `" |"`.
pub open spec fn line_text(cells: Seq<Seq<char>>) -> Seq<char> {
    seq!['|', ' '] + joined(cells) + seq![' ', '|']
}

/// Sum of the column widths.
pub open spec fn sum(widths: Seq<nat>) -> nat
    decreases widths.len(),
{
    if widths.len() == 0 {
        0
    } else {
        sum(widths.drop_last()) + widths.last()
    }
}

/// Width of the whole frame: the columns, a space on either side of each, a
/// pipe between neighbours and the two outer pipes.
pub open spec fn frame_width(widths: Seq<nat>) -> int {
    sum(widths) + 2 * widths.len() + (widths.len() - 1) + 2
}

/// Number of hyphens in the separator bar: the frame without its outer pipes.
pub open spec fn bar_fill(widths: Seq<nat>) -> nat {
    if frame_width(widths) >= 2 {
        (frame_width(widths) - 2) as nat
    } else {
        0
    }
}

/// The separator bar: a pipe, hyphens, a pipe.
pub open spec fn bar_text(widths: Seq<nat>) -> Seq<char> {
    seq!['|'] + fill('-', bar_fill(widths)) + seq!['|']
}

/// The lines of the rendered table, without their line ends: with a header its
/// line and the bar, then one line for each row. A table without columns has no
/// lines.
pub open spec fn table_lines(
    header: Option<Seq<Seq<char>>>,
    rows: Seq<Seq<Seq<char>>>,
    widths: Seq<nat>,
    align: ColumnAlign,
) -> Seq<Seq<char>> {
    if widths.len() == 0 {
        Seq::empty()
    } else {
        let head = match header {
            Some(h) => seq![line_text(pad_row(h, widths, align)), bar_text(widths)],
            None => Seq::empty(),
        };
        head + Seq::new(rows.len(), |r: int| line_text(pad_row(rows[r], widths, align)))
    }
}

/// The lines one after the other, each closed by a line feed.
pub open spec fn lines_text(lines: Seq<Seq<char>>) -> Seq<char>
    decreases lines.len(),
{
    if lines.len() == 0 {
        Seq::empty()
    } else {
        lines_text(lines.drop_last()) + lines.last() + seq!['\n']
    }
}

/// The texts of the spans one after the other.
pub open spec fn spans_text(spans: Seq<(Seq<char>, bool)>) -> Seq<char>
    decreases spans.len(),
{
    if spans.len() == 0 {
        Seq::empty()
    } else {
        spans_text(spans.drop_last()) + spans.last().0
    }
}

/// The spans of a header line up to its last cell: `"| "` plain, then each
/// padded cell styled, with `" | "` plain between neighbours.
pub open spec fn heading_spans(cells: Seq<Seq<char>>) -> Seq<(Seq<char>, bool)>
    decreases cells.len(),
{
    if cells.len() == 0 {
        seq![(seq!['|', ' '], false)]
    } else if cells.len() == 1 {
        seq![(seq!['|', ' '], false), (cells[0], true)]
    } else {
        heading_spans(cells.drop_last()) + seq![(seq![' ', '|', ' '], false), (cells.last(), true)]
    }
}

/// The spans of a whole header line, line feed included.
pub open spec fn header_spans(cells: Seq<Seq<char>>) -> Seq<(Seq<char>, bool)> {
    heading_spans(cells) + seq![(seq![' ', '|', '\n'], false)]
}

/// The rendered table as spans: the header line cell by cell, the bar and each
/// data line as one plain span with its line feed.
pub open spec fn table_spans(
    header: Option<Seq<Seq<char>>>,
    rows: Seq<Seq<Seq<char>>>,
    widths: Seq<nat>,
    align: ColumnAlign,
) -> Seq<(Seq<char>, bool)> {
    if widths.len() == 0 {
        Seq::empty()
    } else {
        let head = match header {
            Some(h) => header_spans(pad_row(h, widths, align)) + seq![
                (bar_text(widths) + seq!['\n'], false),
            ],
            None => Seq::empty(),
        };
        head + Seq::new(
            rows.len(),
            |r: int| (line_text(pad_row(rows[r], widths, align)) + seq!['\n'], false),
        )
    }
}

/// Renders one line: every cell padded to its column's width, between pipes.
pub fn render_line(cells: &Vec<String>, widths: &Vec<usize>, align: ColumnAlign) -> (line: String)
    requires
        cells.len() == widths.len(),
    ensures
        line@ == line_text(pad_row(cells.deep_view(), nats(widths@), align)),
{
    let ghost row = pad_row(cells.deep_view(), nats(widths@), align);
    proof {
        reveal_strlit("| ");
        reveal_strlit(" |");
    }
    let mut line = String::new();
    line.append("| ");
    assert(line@ =~= seq!['|', ' '] + joined(row.take(0)));
    let mut j: usize = 0;
    while j < cells.len()
        invariant
            j <= cells.len(),
            cells.len() == widths.len(),
            row == pad_row(cells.deep_view(), nats(widths@), align),
            line@ == seq!['|', ' '] + joined(row.take(j as int)),
        decreases cells.len() - j,
    {
        proof {
            reveal_strlit(" | ");
        }
        if j > 0 {
            line.append(" | ");
        }
        let cell = pad(cells[j].as_str(), widths[j], align);
        line.append(cell.as_str());
        proof {
            let next = row.take(j + 1);
            assert(next.drop_last() =~= row.take(j as int));
            assert(next.last() == cell@);
            assert(line@ =~= seq!['|', ' '] + joined(next));
        }
        j += 1;
    }
    assert(row.take(j as int) =~= row);
    line.append(" |");
    line
}

/// Renders the separator bar for columns of the given widths.
pub fn horizontal_bar(widths: &Vec<usize>) -> (bar: String)
    ensures
        bar@ == bar_text(nats(widths@)),
{
    let ghost w = nats(widths@);
    proof {
        reveal_strlit("|");
    }
    let mut bar = String::new();
    bar.append("|");
    assert(w.take(0) =~= Seq::<nat>::empty());
    assert(bar@ =~= seq!['|'] + fill('-', bar_fill(w.take(0))));
    let mut j: usize = 0;
    while j < widths.len()
        invariant
            j <= widths.len(),
            w == nats(widths@),
            bar@ == seq!['|'] + fill('-', bar_fill(w.take(j as int))),
        decreases widths.len() - j,
    {
        proof {
            reveal_strlit("-");
        }
        if j > 0 {
            bar.append("-");
        }
        let column = repeated("-", widths[j]);
        bar.append(column.as_str());
        bar.append("-");
        bar.append("-");
        proof {
            let next = w.take(j + 1);
            assert(next.drop_last() =~= w.take(j as int));
            assert(next.last() == widths[j as int] as nat);
            assert(bar@ =~= seq!['|'] + fill('-', bar_fill(next)));
        }
        j += 1;
    }
    assert(w.take(j as int) =~= w);
    bar.append("|");
    bar
}

/// Renders the header line as spans: the padded cells styled, the frame plain.
pub fn render_header(cells: &Vec<String>, widths: &Vec<usize>, align: ColumnAlign) -> (spans: Vec<
    Span,
>)
    requires
        cells.len() == widths.len(),
    ensures
        spans.deep_view() == header_spans(pad_row(cells.deep_view(), nats(widths@), align)),
{
    let ghost row = pad_row(cells.deep_view(), nats(widths@), align);
    proof {
        reveal_strlit("| ");
        reveal_strlit(" |\n");
    }
    let mut spans: Vec<Span> = Vec::new();
    spans.push(Span { text: "| ".to_owned(), styled: false });
    assert(spans.deep_view() =~~= heading_spans(row.take(0)));
    let mut j: usize = 0;
    while j < cells.len()
        invariant
            j <= cells.len(),
            cells.len() == widths.len(),
            row == pad_row(cells.deep_view(), nats(widths@), align),
            spans.deep_view() == heading_spans(row.take(j as int)),
        decreases cells.len() - j,
    {
        let ghost before = spans.deep_view();
        proof {
            reveal_strlit(" | ");
        }
        if j > 0 {
            spans.push(Span { text: " | ".to_owned(), styled: false });
        }
        let cell = pad(cells[j].as_str(), widths[j], align);
        let ghost padded = cell@;
        spans.push(Span { text: cell, styled: true });
        proof {
            let next = row.take(j + 1);
            assert(next.drop_last() =~= row.take(j as int));
            assert(next.last() == padded);
            if j > 0 {
                assert(spans.deep_view() =~~= before + seq![
                    (seq![' ', '|', ' '], false),
                    (next.last(), true),
                ]);
            } else {
                assert(row.take(0).len() == 0);
                assert(spans.deep_view() =~~= before + seq![(padded, true)]);
                assert(spans.deep_view() =~~= seq![(seq!['|', ' '], false), (next[0], true)]);
            }
        }
        j += 1;
    }
    assert(row.take(j as int) =~= row);
    let ghost before = spans.deep_view();
    spans.push(Span { text: " |\n".to_owned(), styled: false });
    assert(spans.deep_view() =~~= before + seq![(seq![' ', '|', '\n'], false)]);
    spans
}

/// Renders a table whose column widths are known: with a header its line and
/// the bar, then every row. Nothing is rendered for a table without columns.
pub fn render_table(
    header: &Option<Vec<String>>,
    rows: &Vec<Vec<String>>,
    widths: &Vec<usize>,
    align: ColumnAlign,
) -> (spans: Vec<Span>)
    requires
        uniform(header.deep_view(), rows.deep_view()),
        widths.len() == column_count(header.deep_view(), rows.deep_view()),
    ensures
        spans.deep_view() == table_spans(
            header.deep_view(),
            rows.deep_view(),
            nats(widths@),
            align,
        ),
{
    let ghost h = header.deep_view();
    let ghost t = rows.deep_view();
    let ghost w = nats(widths@);
    proof {
        reveal_strlit("\n");
    }
    if widths.len() == 0 {
        let spans: Vec<Span> = Vec::new();
        assert(spans.deep_view() =~~= table_spans(h, t, w, align));
        return spans;
    }
    let mut spans: Vec<Span> = match header {
        Some(cells) => {
            let mut head = render_header(cells, widths, align);
            let ghost before = head.deep_view();
            let mut bar = horizontal_bar(widths);
            bar.append("\n");
            head.push(Span { text: bar, styled: false });
            assert(head.deep_view() =~~= before + seq![(bar_text(w) + seq!['\n'], false)]);
            head
        },
        None => Vec::new(),
    };
    let ghost head = spans.deep_view();
    assert(head =~~= match h {
        Some(c) => header_spans(pad_row(c, w, align)) + seq![(bar_text(w) + seq!['\n'], false)],
        None => Seq::empty(),
    });
    let mut r: usize = 0;
    while r < rows.len()
        invariant
            r <= rows.len(),
            t == rows.deep_view(),
            h == header.deep_view(),
            w == nats(widths@),
            uniform(h, t),
            widths.len() == column_count(h, t),
            spans.deep_view() == head + Seq::new(
                r as nat,
                |i: int| (line_text(pad_row(t[i], w, align)) + seq!['\n'], false),
            ),
        decreases rows.len() - r,
    {
        let ghost before = spans.deep_view();
        assert(t[r as int].len() == widths.len());
        let mut line = render_line(&rows[r], widths, align);
        proof {
            reveal_strlit("\n");
        }
        line.append("\n");
        spans.push(Span { text: line, styled: false });
        assert(rows[r as int].deep_view() == t[r as int]);
        assert(spans.deep_view() =~~= before + seq![
            (line_text(pad_row(t[r as int], w, align)) + seq!['\n'], false),
        ]);
        r += 1;
        assert(spans.deep_view() =~~= head + Seq::new(
            r as nat,
            |i: int| (line_text(pad_row(t[i], w, align)) + seq!['\n'], false),
        ));
    }
    assert(spans.deep_view() =~~= table_spans(h, t, w, align));
    spans
}

/// The text that the spans spell: what a sink without styling receives.
pub fn plain_text(spans: &Vec<Span>) -> (text: String)
    ensures
        text@ == spans_text(spans.deep_view()),
{
    let ghost all = spans.deep_view();
    let mut text = String::new();
    assert(all.take(0) =~= Seq::empty());
    let mut i: usize = 0;
    while i < spans.len()
        invariant
            i <= spans.len(),
            all == spans.deep_view(),
            text@ == spans_text(all.take(i as int)),
        decreases spans.len() - i,
    {
        text.append(spans[i].text.as_str());
        proof {
            let next = all.take(i + 1);
            assert(next.drop_last() =~= all.take(i as int));
            assert(next.last().0 == spans[i as int].text@);
        }
        i += 1;
    }
    assert(all.take(i as int) =~= all);
    text
}

} // verus!
