//! From input to rendered table.

use crate::align::ColumnAlign;
use crate::columns::{
    column_count, column_widths, first_uneven_row, nats, table_widths, uniform,
};
use crate::input::{csv_header, csv_records, error_text, open_reader, read_header, read_records};
use crate::render::{render_table, table_spans, Span};
use vstd::prelude::*;

verus! {

/// Why a table could not be rendered. Nothing is rendered in either case.
#[derive(Debug, Clone, PartialEq, Eq)]
pub enum TableError {
    /// The input is not well-formed delimited text; the message says why.
    Parse(String),
    /// The row with this index has not as many fields as the table has columns.
    UnevenRow { row: usize },
}

/// `result` is what rendering the table owes: the spans of the table laid out
/// with the widths of its own columns, or, where a row's field count differs
/// from the column count, the error that names the first such row.
pub open spec fn laid_out(
    header: Option<Seq<Seq<char>>>,
    rows: Seq<Seq<Seq<char>>>,
    align: ColumnAlign,
    result: Result<Vec<Span>, TableError>,
) -> bool {
    if uniform(header, rows) {
        result matches Ok(spans) && spans.deep_view() == table_spans(
            header,
            rows,
            table_widths(header, rows),
            align,
        )
    } else {
        result matches Err(TableError::UnevenRow { row }) && row < rows.len() && rows[row as int].len()
            != column_count(header, rows) && forall|i: int|
            0 <= i < row ==> (#[trigger] rows[i]).len() == column_count(header, rows)
    }
}

/// Lays out a table: checks that every row has as many fields as the table has
/// columns, measures the columns and renders.
pub fn layout(header: &Option<Vec<String>>, rows: &Vec<Vec<String>>, align: ColumnAlign) -> (result:
    Result<Vec<Span>, TableError>)
    ensures
        laid_out(header.deep_view(), rows.deep_view(), align, result),
{
    match first_uneven_row(header, rows) {
        Some(row) => Err(TableError::UnevenRow { row }),
        None => {
            let widths = column_widths(header, rows);
            assert(widths.len() == nats(widths@).len());
            Ok(render_table(header, rows, &widths, align))
        },
    }
}

/// Format a CSV table into a pretty-printed Markdown table.
///
/// The whole input is parsed before anything is rendered: an error on any
/// record leaves no output at all.
pub fn format_table(input: &[u8], align: ColumnAlign) -> (result: Result<Vec<Span>, TableError>)
    ensures
        csv_records(input@) is None ==> result matches Err(TableError::Parse(_)),
        csv_records(input@) matches Some(rows) ==> laid_out(csv_header(input@), rows, align, result),
{
    let mut reader = open_reader(input);
    let header = read_header(&mut reader);
    match read_records(reader) {
        Err(error) => Err(TableError::Parse(error_text(&error))),
        Ok(rows) => layout(&header, &rows, align),
    }
}

} // verus!
