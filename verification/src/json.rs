//! The response of the endpoint: the result set as a JSON array, or the error
//! envelope, with the status that goes with each. The layout is fixed here;
//! the quoting of text is `serde_json`'s.

use crate::errors::{ErrorMessage, Failure, ServerErrors, BAD_REQUEST, OK};
use crate::record::{OutputModel, ResponseRecord};
use crate::results::record_views;
use vstd::prelude::*;
use vstd::string::StringExecFns;

verus! {

/// `serde_json::Error`: why a value could not be written as JSON.
#[verifier::external_type_specification]
#[verifier::external_body]
pub struct ExJsonError(serde_json::Error);

/// The JSON string literal that `serde_json` writes for a text: the text
/// between double quotes, with the characters escaped that JSON wants escaped.
pub uninterp spec fn json_string(text: Seq<char>) -> Seq<char>;

/// `serde_json::to_string` on a string slice. It does not fail there: the
/// serializer writes the quoted text into a buffer in memory, and a string
/// gives it no other reason to give up.
#[verifier::external_body]
fn to_json_string(text: &str) -> (quoted: Result<String, serde_json::Error>)
    ensures
        quoted is Ok,
        quoted matches Ok(s) ==> s@ == json_string(text@),
{
    serde_json::to_string(text)
}

/// Quotes a text as a JSON string literal.
pub fn quote(text: &str) -> (quoted: String)
    ensures
        quoted@ == json_string(text@),
{
    to_json_string(text).unwrap()
}

/// A flag as JSON.
pub open spec fn flag_json(flag: bool) -> Seq<char> {
    if flag {
        "true"@
    } else {
        "false"@
    }
}

/// One record as a JSON object: the four fields in the order `id`, `email`,
/// `name`, `is_parent`, without white space.
pub open spec fn record_json(record: OutputModel) -> Seq<char> {
    "{\"id\":"@ + json_string(record.id) + ",\"email\":"@ + json_string(record.email)
        + ",\"name\":"@ + json_string(record.name) + ",\"is_parent\":"@ + flag_json(
        record.is_parent,
    ) + "}"@
}

/// The first `n` records as JSON objects with a comma between neighbours.
pub open spec fn items_json(records: Seq<OutputModel>, n: nat) -> Seq<char>
    decreases n,
{
    if n == 0 {
        Seq::empty()
    } else if n == 1 {
        record_json(records[0])
    } else {
        items_json(records, (n - 1) as nat) + ","@ + record_json(records[n - 1])
    }
}

/// The records as a JSON array, in their order.
pub open spec fn array_json(records: Seq<OutputModel>) -> Seq<char> {
    "["@ + items_json(records, records.len()) + "]"@
}

/// The error envelope as JSON: an object with the one field `msg`.
pub open spec fn envelope_json(msg: Seq<char>) -> Seq<char> {
    "{\"msg\":"@ + json_string(msg) + "}"@
}

/// Writes one record as a JSON object.
pub fn render_record(record: &ResponseRecord) -> (json: String)
    ensures
        json@ == record_json(record@),
{
    let mut json = String::from_str("{\"id\":");
    json.append(quote(record.id.as_str()).as_str());
    json.append(",\"email\":");
    json.append(quote(record.email.as_str()).as_str());
    json.append(",\"name\":");
    json.append(quote(record.name.as_str()).as_str());
    json.append(",\"is_parent\":");
    if record.is_parent {
        json.append("true");
    } else {
        json.append("false");
    }
    json.append("}");
    json
}

/// Writes the records as a JSON array, in their order.
pub fn render_records(records: &[ResponseRecord]) -> (json: String)
    ensures
        json@ == array_json(record_views(records@)),
{
    let ghost views = record_views(records@);
    let mut json = String::from_str("[");
    let mut i: usize = 0;
    while i < records.len()
        invariant
            i <= records@.len(),
            views == record_views(records@),
            json@ == "["@ + items_json(views, i as nat),
        decreases records@.len() - i,
    {
        let ghost before = json@;
        if i > 0 {
            json.append(",");
        }
        let item = render_record(&records[i]);
        json.append(item.as_str());
        proof {
            assert(views[i as int] == records@[i as int]@);
            if i == 0 {
                assert(items_json(views, 0) =~= Seq::<char>::empty());
                assert(json@ =~= "["@ + items_json(views, 1));
            } else {
                assert(json@ =~= "["@ + (items_json(views, i as nat) + ","@ + record_json(
                    views[i as int],
                )));
            }
        }
        i += 1;
    }
    json.append("]");
    json
}

/// Writes the error envelope as a JSON object.
pub fn render_error(envelope: &ErrorMessage) -> (json: String)
    ensures
        json@ == envelope_json(envelope@),
{
    let mut json = String::from_str("{\"msg\":");
    json.append(quote(envelope.msg.as_str()).as_str());
    json.append("}");
    json
}

/// What the endpoint answers: a status and a JSON body.
#[derive(Debug, Clone, PartialEq, Eq)]
pub struct Response {
    pub status: u16,
    pub body: String,
}

impl View for Response {
    type V = (u16, Seq<char>);

    open spec fn view(&self) -> (u16, Seq<char>) {
        (self.status, self.body@)
    }
}

/// The answer to an outcome of the pipeline: the records as an array with
/// status 200, or the failure's description in the envelope with status 400.
pub open spec fn response_for(outcome: Result<Seq<OutputModel>, Failure>) -> (u16, Seq<char>) {
    match outcome {
        Ok(records) => (OK, array_json(records)),
        Err(failure) => (BAD_REQUEST, envelope_json(failure.message())),
    }
}

impl Response {
    /// The content type of every answer.
    pub fn content_type(&self) -> (media: &'static str)
        ensures
            media@ == "application/json"@,
    {
        "application/json"
    }

    /// The answer to a finished result set.
    pub fn success(records: &[ResponseRecord]) -> (response: Response)
        ensures
            response@ == response_for(Ok(record_views(records@))),
    {
        Response { status: OK, body: render_records(records) }
    }

    /// The answer to a failure, whatever its kind.
    pub fn failure(e: &ServerErrors) -> (response: Response)
        ensures
            response@ == response_for(Err(e@)),
    {
        let envelope = ErrorMessage::from_error(e);
        Response { status: e.status_code(), body: render_error(&envelope) }
    }
}

} // verus!
