//! The byte stream reader: tokenizes a document into its header row and, one
//! at a time, its data rows. The tokenizing is the `csv` crate's.

use crate::errors::{Failure, ServerErrors};
use crate::record::{byte_strings, outcome_view, Header, RawRow};
use vstd::prelude::*;
use vstd::string::StringExecFns;

verus! {

/// `csv::Reader`: the tokenizer over a source of bytes.
#[verifier::external_type_specification]
#[verifier::external_body]
#[verifier::reject_recursive_types(R)]
pub struct ExReader<R>(csv::Reader<R>);

/// `csv::Error`: what the tokenizer reports. Only its text is read.
#[verifier::external_type_specification]
#[verifier::external_body]
pub struct ExError(csv::Error);

/// What the tokenizer makes of one row: its fields, or the description of
/// the error that it reports for the row.
pub type Tokens = Result<Seq<Seq<u8>>, Seq<char>>;

/// The first record of a document as a `csv::Reader` with the default
/// settings reports it through `byte_headers`: without fields where the
/// document has no record at all.
pub uninterp spec fn csv_header(body: Seq<u8>) -> Tokens;

/// The records after the first as a `csv::Reader` with the default settings
/// yields them one by one, to the end of the document. A record whose number
/// of fields differs from that of the first record is reported as an error,
/// and reading goes on behind it.
pub uninterp spec fn csv_rows(body: Seq<u8>) -> Seq<Tokens>;

/// The text that a `csv::Error` displays as.
pub uninterp spec fn csv_error_text(e: csv::Error) -> Seq<char>;

/// The document that a reader was opened on.
pub uninterp spec fn reader_document(r: csv::Reader<&[u8]>) -> Seq<u8>;

/// The number of data rows that have been read from a reader so far, the
/// rows reported as errors included.
pub uninterp spec fn reader_position(r: csv::Reader<&[u8]>) -> nat;

/// What a record stands for once it is copied out of the reader: its fields,
/// or the text of its error.
pub open spec fn tokens_of(read: Result<Vec<Vec<u8>>, csv::Error>) -> Tokens {
    match read {
        Ok(fields) => Ok(byte_strings(fields@)),
        Err(e) => Err(csv_error_text(e)),
    }
}

/// `csv::Reader::from_reader` on a byte slice: a reader at the start of the
/// document.
#[verifier::external_body]
fn open_reader<'a>(body: &'a [u8]) -> (r: csv::Reader<&'a [u8]>)
    ensures
        reader_document(r) == body@,
        reader_position(r) == 0,
{
    csv::Reader::from_reader(body)
}

/// `csv::Reader::byte_headers`, with the record copied out field by field.
/// The call reads the first record if no call has read it yet, and leaves the
/// data rows where they are.
#[verifier::external_body]
fn read_header(r: &mut csv::Reader<&[u8]>) -> (h: Result<Vec<Vec<u8>>, csv::Error>)
    ensures
        reader_document(*final(r)) == reader_document(*old(r)),
        reader_position(*final(r)) == reader_position(*old(r)),
        tokens_of(h) == csv_header(reader_document(*old(r))),
{
    r.byte_headers().map(|record| record.iter().map(|field| field.to_vec()).collect())
}

/// One step of `csv::Reader::byte_records`, that is one call of
/// `read_byte_record`, with the record copied out field by field: the next
/// data row or its error, or nothing at the end of the document. A reader with
/// the default settings is not flexible: a row that it hands out has as many
/// fields as the first record of the document.
#[verifier::external_body]
fn read_row(r: &mut csv::Reader<&[u8]>) -> (row: Option<Result<Vec<Vec<u8>>, csv::Error>>)
    ensures
        reader_document(*final(r)) == reader_document(*old(r)),
        match row {
            Some(read) => reader_position(*old(r)) < csv_rows(reader_document(*old(r))).len()
                && csv_rows(reader_document(*old(r)))[reader_position(*old(r)) as int]
                == tokens_of(read) && reader_position(*final(r)) == reader_position(*old(r)) + 1,
            None => reader_position(*old(r)) >= csv_rows(reader_document(*old(r))).len()
                && reader_position(*final(r)) == reader_position(*old(r)),
        },
        row matches Some(Ok(fields)) ==> (csv_header(reader_document(*old(r))) matches Ok(names)
            ==> fields@.len() == names.len()),
{
    r.byte_records().next().map(
        |read| read.map(|record| record.iter().map(|field| field.to_vec()).collect()),
    )
}

/// The `Display` text of a `csv::Error`.
#[verifier::external_body]
fn error_text(e: &csv::Error) -> (s: String)
    ensures
        s@ == csv_error_text(*e),
{
    e.to_string()
}

/// A single-pass reader over one document.
pub struct RowReader<'a> {
    inner: csv::Reader<&'a [u8]>,
}

impl<'a> RowReader<'a> {
    /// The document that the reader was opened on.
    pub closed spec fn document(&self) -> Seq<u8> {
        reader_document(self.inner)
    }

    /// The number of data rows read so far.
    pub closed spec fn rows_read(&self) -> nat {
        reader_position(self.inner)
    }

    /// Opens a reader at the start of a document.
    pub fn new(body: &'a [u8]) -> (r: Self)
        ensures
            r.document() == body@,
            r.rows_read() == 0,
    {
        RowReader { inner: open_reader(body) }
    }

    /// Reads the header. It may be asked for at any time, and reading it does
    /// not move the reader.
    pub fn header(&mut self) -> (h: Result<Header, ServerErrors>)
        ensures
            final(self).document() == old(self).document(),
            final(self).rows_read() == old(self).rows_read(),
            outcome_view(h) == header_outcome(csv_header(old(self).document())),
    {
        match read_header(&mut self.inner) {
            Ok(names) => Header::from_names(names),
            Err(e) => Err(parse_failure(&e)),
        }
    }

    /// Reads the next data row: nothing at the end of the document, else the
    /// row or the failure that the tokenizer reports for it. A row that is
    /// handed out has as many fields as the header.
    pub fn next_row(&mut self) -> (row: Option<Result<RawRow, ServerErrors>>)
        ensures
            final(self).document() == old(self).document(),
            row matches Some(Ok(fields)) ==> (csv_header(old(self).document()) matches Ok(names)
                ==> fields@.len() == names.len()),
            match row {
                None => old(self).rows_read() >= csv_rows(old(self).document()).len()
                    && final(self).rows_read() == old(self).rows_read(),
                Some(read) => old(self).rows_read() < csv_rows(old(self).document()).len()
                    && final(self).rows_read() == old(self).rows_read() + 1 && outcome_view(read)
                    == row_outcome(csv_rows(old(self).document())[old(self).rows_read() as int]),
            },
    {
        match read_row(&mut self.inner) {
            None => None,
            Some(Ok(fields)) => Some(Ok(RawRow { fields })),
            Some(Err(e)) => Some(Err(parse_failure(&e))),
        }
    }
}

/// The failure that stands for an error of the tokenizer: it carries the
/// tokenizer's description.
fn parse_failure(e: &csv::Error) -> (failure: ServerErrors)
    ensures
        failure@ == Failure::Parse(csv_error_text(*e)),
{
    ServerErrors::ParseFailure { msg: error_text(e) }
}

/// The description of the failure that a document without a header row ends
/// in.
pub open spec fn no_header_text() -> Seq<char> {
    "CSV error: no header row"@
}

/// The header that the first record of a document stands for: a first record
/// without fields means that the document has no header row.
pub open spec fn header_outcome(tokens: Tokens) -> Result<Seq<Seq<u8>>, Failure> {
    match tokens {
        Err(text) => Err(Failure::Parse(text)),
        Ok(names) => if names.len() == 0 {
            Err(Failure::Parse(no_header_text()))
        } else {
            Ok(names)
        },
    }
}

/// The raw row that a record of the document stands for.
pub open spec fn row_outcome(tokens: Tokens) -> Result<Seq<Seq<u8>>, Failure> {
    match tokens {
        Err(text) => Err(Failure::Parse(text)),
        Ok(fields) => Ok(fields),
    }
}

impl Header {
    /// Takes the first record of a document as its header. A record without
    /// fields is no header.
    pub fn from_names(names: Vec<Vec<u8>>) -> (h: Result<Header, ServerErrors>)
        ensures
            outcome_view(h) == header_outcome(Ok(byte_strings(names@))),
    {
        if names.len() == 0 {
            Err(ServerErrors::ParseFailure { msg: String::from_str("CSV error: no header row") })
        } else {
            Ok(Header { names })
        }
    }
}

} // verus!
