//! Delimiter-separated records, read and written by the `csv` crate.
//!
//! What the crate makes of a document, and the bytes it writes for a sequence of
//! records, are named here and not defined: the library's contracts speak of them by
//! these names. The names, the two types and the functions below them are taken on
//! trust: nothing in them is proved.

use vstd::prelude::*;

verus! {

/// The field delimiter of the record files that are merged: a colon.
pub const RAW_DELIMITER: u8 = 0x3A;

/// The field delimiter of the merged table: a semicolon.
pub const OUTPUT_DELIMITER: u8 = 0x3B;

/// Whether `delimiter` is one of the two that the library reads and writes with.
pub open spec fn is_delimiter(delimiter: u8) -> bool {
    delimiter == RAW_DELIMITER || delimiter == OUTPUT_DELIMITER
}

/// The error type of the `csv` crate.
#[verifier::external_type_specification]
#[verifier::external_body]
pub struct ExCsvError(csv::Error);

/// A `csv::Writer` that writes to a vector of bytes. The verifier sees nothing inside
/// it: what it holds is spoken of through `written` and `delimiter_of`.
#[verifier::external_body]
pub struct RecordWriter {
    inner: csv::Writer<Vec<u8>>,
}

/// The header row that the `csv` crate reads from `data`; `None` where it reports an
/// error instead.
pub uninterp spec fn header_in(data: Seq<u8>, delimiter: u8) -> Option<Seq<Seq<char>>>;

/// The data rows that the `csv` crate reads from `data` after the header row; `None`
/// where it reports an error for one of them.
pub uninterp spec fn rows_in(data: Seq<u8>, delimiter: u8) -> Option<Seq<Seq<Seq<char>>>>;

/// The records that a writer has taken so far, in order.
pub uninterp spec fn written(writer: RecordWriter) -> Seq<Seq<Seq<char>>>;

/// The field delimiter that a writer was made with.
pub uninterp spec fn delimiter_of(writer: RecordWriter) -> u8;

/// The bytes that the `csv` crate writes for `records` with the field delimiter
/// `delimiter`.
pub uninterp spec fn encoded(records: Seq<Seq<Seq<char>>>, delimiter: u8) -> Seq<u8>;

/// How the `csv` crate shows a record of these fields for debugging.
pub uninterp spec fn debug_of(fields: Seq<Seq<char>>) -> Seq<char>;

/// `Reader::headers` on a reader over `data`, made by a `ReaderBuilder` with the given
/// delimiter and `flexible`, so that rows of any number of fields are read. The result
/// is the header row, or the error that the reader reports for it; which of the two, and
/// which fields, depends on the bytes and the delimiter alone.
#[verifier::external_body]
pub(crate) fn read_header(data: &[u8], delimiter: u8) -> (out: Result<Vec<String>, csv::Error>)
    requires
        is_delimiter(delimiter),
    ensures
        match out {
            Ok(header) => header_in(data@, delimiter) == Some(header.deep_view()),
            Err(_) => header_in(data@, delimiter).is_none(),
        },
{
    let mut reader =
        csv::ReaderBuilder::new().delimiter(delimiter).flexible(true).from_reader(data);
    Ok(reader.headers()?.iter().map(String::from).collect())
}

/// `Reader::into_records` on a reader over `data`, made by a `ReaderBuilder` with the
/// given delimiter and `flexible`, collected up to the first error. The result is the
/// rows after the header row, or the first error that the reader reports; which of the
/// two, and which rows, depends on the bytes and the delimiter alone.
#[verifier::external_body]
pub(crate) fn read_rows(data: &[u8], delimiter: u8) -> (out: Result<Vec<Vec<String>>, csv::Error>)
    requires
        is_delimiter(delimiter),
    ensures
        match out {
            Ok(rows) => rows_in(data@, delimiter) == Some(rows.deep_view()),
            Err(_) => rows_in(data@, delimiter).is_none(),
        },
{
    let reader = csv::ReaderBuilder::new().delimiter(delimiter).flexible(true).from_reader(data);
    reader.into_records().map(|row| Ok(row?.iter().map(String::from).collect())).collect()
}

/// `WriterBuilder::from_writer` with the given delimiter, `flexible`, and an empty vector
/// to write to. The writer has taken no record yet.
#[verifier::external_body]
pub(crate) fn new_writer(delimiter: u8) -> (writer: RecordWriter)
    requires
        is_delimiter(delimiter),
    ensures
        written(writer) == Seq::<Seq<Seq<char>>>::empty(),
        delimiter_of(writer) == delimiter,
{
    let sink: Vec<u8> = Vec::new();
    let inner = csv::WriterBuilder::new().delimiter(delimiter).flexible(true).from_writer(sink);
    RecordWriter { inner }
}

/// `Writer::write_record`. A writer made with `flexible` takes a record of any number of
/// fields, and its sink is a vector, which takes every write: the call does not fail,
/// and the record is added to those taken.
#[verifier::external_body]
pub(crate) fn write_record(writer: &mut RecordWriter, record: &Vec<String>) -> (out: Result<
    (),
    csv::Error,
>)
    ensures
        out is Ok,
        written(*final(writer)) == written(*old(writer)).push(record.deep_view()),
        delimiter_of(*final(writer)) == delimiter_of(*old(writer)),
{
    writer.inner.write_record(record)
}

/// `Writer::into_inner`: the bytes written for the records that the writer took. They
/// depend on the records and the delimiter alone. The sink is a vector, which takes every
/// write, so the flush inside `into_inner` does not fail.
#[verifier::external_body]
pub(crate) fn finish_writer(writer: RecordWriter) -> (bytes: Vec<u8>)
    ensures
        bytes@ == encoded(written(writer), delimiter_of(writer)),
{
    match writer.inner.into_inner() {
        Ok(bytes) => bytes,
        Err(failed) => failed.into_inner().get_ref().clone(),
    }
}

/// The `Debug` text of a `StringRecord` that holds these fields. It depends on the fields
/// alone.
#[verifier::external_body]
pub(crate) fn debug_text(fields: &Vec<String>) -> (out: String)
    ensures
        out@ == debug_of(fields.deep_view()),
{
    format!("{:?}", csv::StringRecord::from(fields.clone()))
}

} // verus!
