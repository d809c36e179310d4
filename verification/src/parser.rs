//! The pipeline: header, then row by row binding, validation, transformation
//! and accumulation, ended by the first failure.

use crate::errors::{DecodeFault, Failure, FieldName, ServerErrors, BAD_REQUEST, OK};
use crate::json::{array_json, envelope_json, response_for, Response};
use crate::reader::{csv_header, csv_rows, header_outcome, row_outcome, RowReader, Tokens};
use crate::record::{
    bound_record, converted, field_of, has_column, lemma_aligned_row_is_long_enough, outcome_view,
    text_field, InputModel, OutputModel, ResponseRecord,
};
use crate::results::ResultSet;
use crate::text::decimal_text;
use vstd::prelude::*;

verus! {

/// The outcome of one record of the document under a header: the failure of
/// the tokenizer, or what the row converts to.
pub open spec fn row_result(header: Seq<Seq<u8>>, tokens: Tokens) -> Result<OutputModel, Failure> {
    match row_outcome(tokens) {
        Err(failure) => Err(failure),
        Ok(row) => converted(header, row),
    }
}

/// The outcome of the first `n` data rows under a header: their output
/// records in row order, or the failure of the first row that has one.
pub open spec fn rows_converted(header: Seq<Seq<u8>>, rows: Seq<Tokens>, n: nat) -> Result<
    Seq<OutputModel>,
    Failure,
>
    decreases n,
{
    if n == 0 {
        Ok(Seq::empty())
    } else {
        match rows_converted(header, rows, (n - 1) as nat) {
            Err(failure) => Err(failure),
            Ok(done) => match row_result(header, rows[n - 1]) {
                Err(failure) => Err(failure),
                Ok(record) => Ok(done.push(record)),
            },
        }
    }
}

/// The outcome of a document, given what the tokenizer makes of its first
/// record and of the records after it.
pub open spec fn parsed(header: Tokens, rows: Seq<Tokens>) -> Result<Seq<OutputModel>, Failure> {
    match header_outcome(header) {
        Err(failure) => Err(failure),
        Ok(names) => rows_converted(names, rows, rows.len()),
    }
}

/// Once a row has failed, the rows behind it change nothing.
pub proof fn lemma_failure_is_final(header: Seq<Seq<u8>>, rows: Seq<Tokens>, n: nat, m: nat)
    requires
        n <= m,
        rows_converted(header, rows, n) is Err,
    ensures
        rows_converted(header, rows, m) == rows_converted(header, rows, n),
    decreases m,
{
    if n < m {
        lemma_failure_is_final(header, rows, n, (m - 1) as nat);
    }
}

/// While no row fails, there is one record for each row, in row order.
pub proof fn lemma_rows_in_order(header: Seq<Seq<u8>>, rows: Seq<Tokens>, n: nat)
    requires
        n <= rows.len(),
        forall|i: int| 0 <= i < n ==> (#[trigger] row_result(header, rows[i])) is Ok,
    ensures
        rows_converted(header, rows, n) matches Ok(records) && records.len() == n && forall|
            i: int,
        |
            0 <= i < n ==> records[i] == (#[trigger] row_result(header, rows[i]))->Ok_0,
    decreases n,
{
    if n > 0 {
        lemma_rows_in_order(header, rows, (n - 1) as nat);
    }
}

/// The first row that fails decides the outcome of the rows.
pub proof fn lemma_first_failure_decides(header: Seq<Seq<u8>>, rows: Seq<Tokens>, i: int)
    requires
        0 <= i < rows.len(),
        forall|k: int| 0 <= k < i ==> (#[trigger] row_result(header, rows[k])) is Ok,
        row_result(header, rows[i]) is Err,
    ensures
        rows_converted(header, rows, rows.len()) == Err::<Seq<OutputModel>, Failure>(
            row_result(header, rows[i])->Err_0,
        ),
{
    lemma_rows_in_order(header, rows, i as nat);
    assert(rows_converted(header, rows, (i + 1) as nat) is Err);
    lemma_failure_is_final(header, rows, (i + 1) as nat, rows.len());
}

/// A well-formed document whose rows are all valid is answered with status
/// 200 and one record for each data row, in the order of the rows.
pub proof fn theorem_one_record_per_row(header: Tokens, rows: Seq<Tokens>)
    requires
        header_outcome(header) is Ok,
        forall|i: int|
            0 <= i < rows.len() ==> (#[trigger] row_result(
                header_outcome(header)->Ok_0,
                rows[i],
            )) is Ok,
    ensures
        response_for(parsed(header, rows)).0 == OK,
        parsed(header, rows) matches Ok(records) && records.len() == rows.len() && forall|i: int|
            0 <= i < rows.len() ==> records[i] == (#[trigger] row_result(
                header_outcome(header)->Ok_0,
                rows[i],
            ))->Ok_0,
{
    lemma_rows_in_order(header_outcome(header)->Ok_0, rows, rows.len());
}

/// A document in which some row fails is answered with status 400, and the
/// answer is the envelope of the first such row's failure: no record of a row
/// before or behind it is part of the answer.
pub proof fn theorem_first_failure_is_the_answer(header: Tokens, rows: Seq<Tokens>, i: int)
    requires
        header_outcome(header) is Ok,
        0 <= i < rows.len(),
        forall|k: int|
            0 <= k < i ==> (#[trigger] row_result(header_outcome(header)->Ok_0, rows[k])) is Ok,
        row_result(header_outcome(header)->Ok_0, rows[i]) is Err,
    ensures
        parsed(header, rows) == Err::<Seq<OutputModel>, Failure>(
            row_result(header_outcome(header)->Ok_0, rows[i])->Err_0,
        ),
        response_for(parsed(header, rows)) == (
            BAD_REQUEST,
            envelope_json(row_result(header_outcome(header)->Ok_0, rows[i])->Err_0.message()),
        ),
{
    lemma_first_failure_decides(header_outcome(header)->Ok_0, rows, i);
}

/// A document with a row that fails, wherever it stands, is answered with
/// status 400.
pub proof fn theorem_any_failure_is_refused(header: Tokens, rows: Seq<Tokens>, i: int)
    requires
        header_outcome(header) is Ok,
        0 <= i < rows.len(),
        row_result(header_outcome(header)->Ok_0, rows[i]) is Err,
    ensures
        parsed(header, rows) is Err,
        response_for(parsed(header, rows)).0 == BAD_REQUEST,
{
    let names = header_outcome(header)->Ok_0;
    if rows_converted(names, rows, i as nat) is Err {
        lemma_failure_is_final(names, rows, i as nat, rows.len());
    } else {
        assert(rows_converted(names, rows, (i + 1) as nat) is Err);
        lemma_failure_is_final(names, rows, (i + 1) as nat, rows.len());
    }
}

/// A row whose `is_parent` decodes to a number other than 0 and 1, and before
/// which no row fails, is answered with status 400 and a description that
/// ends in that number, written in decimal.
pub proof fn theorem_invalid_flag_is_refused(header: Tokens, rows: Seq<Tokens>, i: int)
    requires
        header_outcome(header) is Ok,
        0 <= i < rows.len(),
        forall|k: int|
            0 <= k < i ==> (#[trigger] row_result(header_outcome(header)->Ok_0, rows[k])) is Ok,
        rows[i] is Ok,
        bound_record(header_outcome(header)->Ok_0, rows[i]->Ok_0) is Ok,
        bound_record(header_outcome(header)->Ok_0, rows[i]->Ok_0)->Ok_0.is_parent > 1,
    ensures
        parsed(header, rows) == Err::<Seq<OutputModel>, Failure>(
            Failure::Validation(
                bound_record(header_outcome(header)->Ok_0, rows[i]->Ok_0)->Ok_0.is_parent,
            ),
        ),
        response_for(parsed(header, rows)) == (
            BAD_REQUEST,
            envelope_json(
                "Invalid \"is_parent\" found in record, set to "@ + decimal_text(
                    bound_record(header_outcome(header)->Ok_0, rows[i]->Ok_0)->Ok_0.is_parent as nat,
                ),
            ),
        ),
{
    theorem_first_failure_is_the_answer(header, rows, i);
}

/// A document that holds a header and no data row is answered with status 200
/// and the empty array.
pub proof fn theorem_header_only(header: Tokens, rows: Seq<Tokens>)
    requires
        header_outcome(header) is Ok,
        rows.len() == 0,
    ensures
        parsed(header, rows) == Ok::<Seq<OutputModel>, Failure>(Seq::empty()),
        response_for(parsed(header, rows)) == (OK, "[]"@),
{
    reveal_strlit("[");
    reveal_strlit("]");
    reveal_strlit("[]");
    assert(array_json(Seq::<OutputModel>::empty()) =~= "[]"@);
}

/// Under a header that lacks one of the four columns, the first data row
/// fails, and the document is answered with status 400. Where the tokenizer
/// accepts the row, the failure is one of deserialization; it names the
/// lacking column unless a column looked up before it is in fault too.
pub proof fn theorem_missing_column(header: Tokens, rows: Seq<Tokens>, f: FieldName)
    requires
        header_outcome(header) is Ok,
        !has_column(header_outcome(header)->Ok_0, f.key()),
        rows.len() > 0,
    ensures
        response_for(parsed(header, rows)).0 == BAD_REQUEST,
        parsed(header, rows) == Err::<Seq<OutputModel>, Failure>(
            row_result(header_outcome(header)->Ok_0, rows[0])->Err_0,
        ),
        rows[0] matches Ok(row) ==> bound_record(header_outcome(header)->Ok_0, row) is Err
            && parsed(header, rows) == Err::<Seq<OutputModel>, Failure>(
            Failure::Deserialization(bound_record(header_outcome(header)->Ok_0, row)->Err_0),
        ),
        rows[0] matches Ok(row) ==> f == FieldName::Id ==> bound_record(
            header_outcome(header)->Ok_0,
            row,
        ) == Err::<InputModel, DecodeFault>(DecodeFault::MissingField(f)),
        rows[0] matches Ok(row) ==> f == FieldName::IsParent && text_field(
            header_outcome(header)->Ok_0,
            row,
            FieldName::Id,
        ) is Ok && text_field(header_outcome(header)->Ok_0, row, FieldName::Email) is Ok
            && text_field(header_outcome(header)->Ok_0, row, FieldName::Name) is Ok
            ==> bound_record(header_outcome(header)->Ok_0, row) == Err::<InputModel, DecodeFault>(
            DecodeFault::MissingField(f),
        ),
{
    let names = header_outcome(header)->Ok_0;
    if rows[0] is Ok {
        let row = rows[0]->Ok_0;
        assert(field_of(names, row, f) is Err);
        assert(bound_record(names, row) is Err);
    }
    assert(row_result(names, rows[0]) is Err);
    lemma_first_failure_decides(names, rows, 0);
}

/// Runs the pipeline over a document and collects the output records. Every
/// row that the reader hands out is as long as the header, so that no failure
/// is that of a row too short.
pub fn parse_records(body: &[u8]) -> (out: Result<ResultSet, ServerErrors>)
    ensures
        outcome_view(out) == parsed(csv_header(body@), csv_rows(body@)),
        !(out matches Err(
            ServerErrors::DeserializationFailure { fault: DecodeFault::ShortRow(_) },
        )),
{
    let ghost rows = csv_rows(body@);
    let mut reader = RowReader::new(body);
    let header = match reader.header() {
        Ok(header) => header,
        Err(e) => {
            return Err(e);
        },
    };
    let mut results = ResultSet::new();
    loop
        invariant
            rows == csv_rows(body@),
            reader.document() == body@,
            reader.rows_read() <= rows.len(),
            header_outcome(csv_header(body@)) == Ok::<Seq<Seq<u8>>, Failure>(header@),
            rows_converted(header@, rows, reader.rows_read()) == Ok::<Seq<OutputModel>, Failure>(
                results@,
            ),
        decreases rows.len() - reader.rows_read(),
    {
        let ghost n = reader.rows_read();
        let record = match reader.next_row() {
            None => {
                return Ok(results);
            },
            Some(Err(e)) => {
                proof {
                    lemma_failure_is_final(header@, rows, n + 1, rows.len());
                }
                return Err(e);
            },
            Some(Ok(row)) => match ResponseRecord::from_row(&header, &row) {
                Err(e) => {
                    proof {
                        lemma_failure_is_final(header@, rows, n + 1, rows.len());
                        lemma_aligned_row_is_long_enough(header@, row@);
                    }
                    return Err(e);
                },
                Ok(record) => record,
            },
        };
        results.append(record);
    }
}

/// Answers an upload: the records of the document as a JSON array with status
/// 200, or the error envelope of the first failure with status 400.
pub fn parse_csv(body: &[u8]) -> (response: Response)
    ensures
        response@ == response_for(parsed(csv_header(body@), csv_rows(body@))),
{
    match parse_records(body) {
        Ok(results) => {
            let records = results.finalize();
            Response::success(records.as_slice())
        },
        Err(e) => Response::failure(&e),
    }
}

} // verus!
