//! The failure taxonomy of the pipeline and its client-facing shape.

use vstd::prelude::*;
use vstd::string::StringExecFns;

verus! {

/// One of the four fields that every record must carry.
#[derive(Clone, Copy, Debug, PartialEq, Eq, Structural)]
pub enum FieldName {
    Id,
    Email,
    Name,
    IsParent,
}

impl FieldName {
    /// The column name that binds this field, as text.
    pub open spec fn label_text(self) -> Seq<char> {
        match self {
            FieldName::Id => "id"@,
            FieldName::Email => "email"@,
            FieldName::Name => "name"@,
            FieldName::IsParent => "is_parent"@,
        }
    }

    /// The column name that binds this field, as it stands in a header row.
    pub open spec fn key(self) -> Seq<u8> {
        vstd::utf8::encode_utf8(self.label_text())
    }

    pub fn label(self) -> (s: &'static str)
        ensures
            s@ == self.label_text(),
    {
        match self {
            FieldName::Id => "id",
            FieldName::Email => "email",
            FieldName::Name => "name",
            FieldName::IsParent => "is_parent",
        }
    }
}

/// The four column names byte by byte: `id`, `email`, `name` and `is_parent`
/// in ASCII, lower case.
pub proof fn lemma_key_bytes()
    ensures
        FieldName::Id.key() == seq![0x69u8, 0x64u8],
        FieldName::Email.key() == seq![0x65u8, 0x6du8, 0x61u8, 0x69u8, 0x6cu8],
        FieldName::Name.key() == seq![0x6eu8, 0x61u8, 0x6du8, 0x65u8],
        FieldName::IsParent.key() == seq![
            0x69u8,
            0x73u8,
            0x5fu8,
            0x70u8,
            0x61u8,
            0x72u8,
            0x65u8,
            0x6eu8,
            0x74u8,
        ],
{
    reveal_strlit("id");
    reveal_strlit("email");
    reveal_strlit("name");
    reveal_strlit("is_parent");
    vstd::utf8::is_ascii_chars_encode_utf8("id"@);
    vstd::utf8::is_ascii_chars_encode_utf8("email"@);
    vstd::utf8::is_ascii_chars_encode_utf8("name"@);
    vstd::utf8::is_ascii_chars_encode_utf8("is_parent"@);
    assert(FieldName::Id.key() =~= seq![0x69u8, 0x64u8]);
    assert(FieldName::Email.key() =~= seq![0x65u8, 0x6du8, 0x61u8, 0x69u8, 0x6cu8]);
    assert(FieldName::Name.key() =~= seq![0x6eu8, 0x61u8, 0x6du8, 0x65u8]);
    assert(FieldName::IsParent.key() =~= seq![
        0x69u8,
        0x73u8,
        0x5fu8,
        0x70u8,
        0x61u8,
        0x72u8,
        0x65u8,
        0x6eu8,
        0x74u8,
    ]);
}

/// Why a row could not be bound to a record.
#[derive(Clone, Copy, Debug, PartialEq, Eq, Structural)]
pub enum DecodeFault {
    /// The header has no column of that name.
    MissingField(FieldName),
    /// The header names the column more than once.
    DuplicateField(FieldName),
    /// The row ends before the column of that name.
    ShortRow(FieldName),
    /// The field's bytes are not UTF-8.
    InvalidText(FieldName),
    /// The field is not an unsigned integer that fits in eight bits.
    InvalidInteger(FieldName),
}

impl DecodeFault {
    pub open spec fn field(self) -> FieldName {
        match self {
            DecodeFault::MissingField(f) => f,
            DecodeFault::DuplicateField(f) => f,
            DecodeFault::ShortRow(f) => f,
            DecodeFault::InvalidText(f) => f,
            DecodeFault::InvalidInteger(f) => f,
        }
    }

    pub open spec fn lead_text(self) -> Seq<char> {
        match self {
            DecodeFault::MissingField(_) => "missing field `"@,
            DecodeFault::DuplicateField(_) => "duplicate field `"@,
            DecodeFault::ShortRow(_) => "row ends before field `"@,
            DecodeFault::InvalidText(_) => "invalid UTF-8 in field `"@,
            DecodeFault::InvalidInteger(_) => "invalid unsigned integer in field `"@,
        }
    }

    /// The description of the fault: what went wrong, then the field's name
    /// between backticks.
    pub open spec fn text(self) -> Seq<char> {
        self.lead_text() + self.field().label_text() + "`"@
    }

    pub fn describe(self) -> (s: String)
        ensures
            s@ == self.text(),
    {
        let (lead, field) = match self {
            DecodeFault::MissingField(f) => ("missing field `", f),
            DecodeFault::DuplicateField(f) => ("duplicate field `", f),
            DecodeFault::ShortRow(f) => ("row ends before field `", f),
            DecodeFault::InvalidText(f) => ("invalid UTF-8 in field `", f),
            DecodeFault::InvalidInteger(f) => ("invalid unsigned integer in field `", f),
        };
        let mut s = String::from_str(lead);
        s.append(field.label());
        s.append("`");
        s
    }
}


/// A failure of the pipeline. Each one ends the request.
#[derive(Debug, Clone, PartialEq, Eq)]
pub enum ServerErrors {
    /// The header is missing, or a row could not be tokenized. Carries the
    /// tokenizer's own description.
    ParseFailure { msg: String },
    /// A required field is missing or does not decode to its type.
    DeserializationFailure { fault: DecodeFault },
    /// A decoded value breaks a rule of the domain: `is_parent` is neither 0
    /// nor 1. Carries the offending value.
    ValidationFailure { value: u8 },
}

/// What a failure is, with its text as a sequence of characters.
pub enum Failure {
    Parse(Seq<char>),
    Deserialization(DecodeFault),
    Validation(u8),
}

impl View for ServerErrors {
    type V = Failure;

    open spec fn view(&self) -> Failure {
        match self {
            ServerErrors::ParseFailure { msg } => Failure::Parse(msg@),
            ServerErrors::DeserializationFailure { fault } => Failure::Deserialization(*fault),
            ServerErrors::ValidationFailure { value } => Failure::Validation(*value),
        }
    }
}

impl Failure {
    /// The human-readable description that the client is sent.
    pub open spec fn message(self) -> Seq<char> {
        match self {
            Failure::Parse(msg) => msg,
            Failure::Deserialization(fault) => "CSV deserialize error: "@ + fault.text(),
            Failure::Validation(value) => "Invalid \"is_parent\" found in record, set to "@
                + crate::text::decimal_text(value as nat),
        }
    }
}

/// The status of every failure response.
pub const BAD_REQUEST: u16 = 400;

/// The status of every success response.
pub const OK: u16 = 200;

impl ServerErrors {
    /// The human-readable description of the failure.
    pub fn message(&self) -> (s: String)
        ensures
            s@ == self@.message(),
    {
        match self {
            ServerErrors::ParseFailure { msg } => msg.clone(),
            ServerErrors::DeserializationFailure { fault } => {
                let text = fault.describe();
                String::from_str("CSV deserialize error: ").concat(text.as_str())
            },
            ServerErrors::ValidationFailure { value } => {
                let digits = crate::text::decimal(*value);
                String::from_str("Invalid \"is_parent\" found in record, set to ").concat(
                    digits.as_str(),
                )
            },
        }
    }

    /// The status that the failure is answered with: the same for every kind.
    pub fn status_code(&self) -> (code: u16)
        ensures
            code == BAD_REQUEST,
    {
        BAD_REQUEST
    }
}

/// The sole shape that a failure is reported in.
#[derive(Debug, Clone, PartialEq, Eq)]
pub struct ErrorMessage {
    pub msg: String,
}

impl View for ErrorMessage {
    type V = Seq<char>;

    open spec fn view(&self) -> Seq<char> {
        self.msg@
    }
}

impl ErrorMessage {
    /// Wraps the description of a failure.
    pub fn from_error(e: &ServerErrors) -> (m: ErrorMessage)
        ensures
            m@ == e@.message(),
    {
        ErrorMessage { msg: e.message() }
    }
}

} // verus!
