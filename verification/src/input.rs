//! Reading delimited text: the header and the records of comma-separated
//! input, as the `csv` crate parses them.

use vstd::prelude::*;

verus! {

/// `csv::Reader`, carried through as it is: nothing inside it is read here.
#[verifier::external_type_specification]
#[verifier::external_body]
#[verifier::reject_recursive_types(R)]
pub struct ExReader<R>(csv::Reader<R>);

/// `csv::Error`, carried through as it is.
#[verifier::external_type_specification]
#[verifier::external_body]
pub struct ExError(csv::Error);

/// The bytes that a reader was opened on.
pub uninterp spec fn reader_input(reader: csv::Reader<&[u8]>) -> Seq<u8>;

/// The header that `csv` finds in `input`: the fields of its first record, or
/// `None` where that record cannot be read as text.
pub uninterp spec fn csv_header(input: Seq<u8>) -> Option<Seq<Seq<char>>>;

/// The records that `csv` finds in `input` after the first, or `None` where it
/// reports an error on one of them.
pub uninterp spec fn csv_records(input: Seq<u8>) -> Option<Seq<Seq<Seq<char>>>>;

/// Opens a reader on `input` with `csv::Reader::from_reader`.
///
/// Trusted: the reader reads these bytes.
#[verifier::external_body]
pub(crate) fn open_reader<'a>(input: &'a [u8]) -> (reader: csv::Reader<&'a [u8]>)
    ensures
        reader_input(reader) == input@,
{
    csv::Reader::from_reader(input)
}

/// Reads the header with `csv::Reader::headers`.
///
/// Trusted: the result is a function of the reader's input alone, named
/// `csv_header`, and the reader still reads the same input: `csv` keeps the
/// first record aside, so that the records that follow are not affected.
#[verifier::external_body]
pub(crate) fn read_header(reader: &mut csv::Reader<&[u8]>) -> (header: Option<Vec<String>>)
    ensures
        reader_input(*final(reader)) == reader_input(*old(reader)),
        header.deep_view() == csv_header(reader_input(*old(reader))),
{
    match reader.headers() {
        Ok(record) => Some(record.iter().map(String::from).collect()),
        Err(_) => None,
    }
}

/// Reads every record after the header with `csv::Reader::records`.
///
/// Trusted: whether `csv` reports an error, and the records it yields
/// otherwise, are a function of the reader's input alone, named
/// `csv_records`. The reader is used up: records are read once.
#[verifier::external_body]
pub(crate) fn read_records(reader: csv::Reader<&[u8]>) -> (rows: Result<
    Vec<Vec<String>>,
    csv::Error,
>)
    ensures
        rows is Ok <==> csv_records(reader_input(reader)) is Some,
        rows matches Ok(t) ==> csv_records(reader_input(reader)) == Some(t.deep_view()),
{
    let mut reader = reader;
    reader.records().map(|row| row.map(|record| record.iter().map(String::from).collect())).collect()
}

/// The message of a `csv` error, from its `to_string`.
///
/// Trusted, with nothing claimed of the text.
#[verifier::external_body]
pub(crate) fn error_text(error: &csv::Error) -> (text: String) {
    error.to_string()
}

} // verus!
