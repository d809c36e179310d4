//! Rows and records: the raw row as the tokenizer hands it over, the typed
//! input record that a row is bound to by header name, and the output record.

use crate::errors::{DecodeFault, Failure, FieldName, ServerErrors};
use crate::text::{bytes_equal, decode_text, decode_unsigned, text_of, unsigned_of};
use vstd::prelude::*;

verus! {

/// The field names of a document, in column order. Rows are bound against it
/// by name, not by position.
#[derive(Debug, Clone, PartialEq, Eq)]
pub struct Header {
    pub names: Vec<Vec<u8>>,
}

/// One data row: its fields as uninterpreted bytes, in column order.
#[derive(Debug, Clone, PartialEq, Eq)]
pub struct RawRow {
    pub fields: Vec<Vec<u8>>,
}

/// The byte strings that a vector of byte vectors holds.
pub open spec fn byte_strings(v: Seq<Vec<u8>>) -> Seq<Seq<u8>> {
    Seq::new(v.len(), |i: int| v[i]@)
}

impl View for Header {
    type V = Seq<Seq<u8>>;

    open spec fn view(&self) -> Seq<Seq<u8>> {
        byte_strings(self.names@)
    }
}

impl View for RawRow {
    type V = Seq<Seq<u8>>;

    open spec fn view(&self) -> Seq<Seq<u8>> {
        byte_strings(self.fields@)
    }
}

/// Whether column `j` of the header carries the name `key`.
pub open spec fn names_column(header: Seq<Seq<u8>>, key: Seq<u8>, j: int) -> bool {
    0 <= j < header.len() && header[j] == key
}

/// Whether some column of the header carries the name.
pub open spec fn has_column(header: Seq<Seq<u8>>, key: Seq<u8>) -> bool {
    exists|j: int| names_column(header, key, j)
}

/// Whether two different columns of the header carry the name.
pub open spec fn repeats_column(header: Seq<Seq<u8>>, key: Seq<u8>) -> bool {
    exists|j: int, k: int| j < k && names_column(header, key, j) && names_column(header, key, k)
}

/// A column that carries the name: the only one, where the name is not
/// repeated.
pub open spec fn column_of(header: Seq<Seq<u8>>, key: Seq<u8>) -> int {
    choose|j: int| names_column(header, key, j)
}

/// Where a name stands in a header.
#[derive(Clone, Copy, Debug, PartialEq, Eq, Structural)]
pub enum Lookup {
    Absent,
    Repeated,
    At(usize),
}

impl Header {
    /// Looks a column up by its name.
    pub fn find_column(&self, key: &[u8]) -> (found: Lookup)
        ensures
            found is Absent <==> !has_column(self@, key@),
            found is Repeated <==> repeats_column(self@, key@),
            found matches Lookup::At(j) ==> column_of(self@, key@) == j,
    {
        let mut found = Lookup::Absent;
        let mut i: usize = 0;
        while i < self.names.len()
            invariant
                i <= self.names@.len(),
                found is Absent <==> forall|j: int| 0 <= j < i ==> !names_column(self@, key@, j),
                found is Repeated <==> exists|j: int, k: int|
                    j < k < i && names_column(self@, key@, j) && names_column(self@, key@, k),
                found matches Lookup::At(j) ==> j < i && names_column(self@, key@, j as int)
                    && forall|k: int| 0 <= k < i && k != j ==> !names_column(self@, key@, k),
            decreases self.names@.len() - i,
        {
            if bytes_equal(self.names[i].as_slice(), key) {
                assert(names_column(self@, key@, i as int));
                found =
                match found {
                    Lookup::Absent => Lookup::At(i),
                    Lookup::At(j) => {
                        assert(j < i && names_column(self@, key@, j as int) && names_column(
                            self@,
                            key@,
                            i as int,
                        ));
                        Lookup::Repeated
                    },
                    Lookup::Repeated => Lookup::Repeated,
                };
            } else {
                assert(!names_column(self@, key@, i as int));
            }
            i += 1;
        }
        found
    }
}

/// The bytes of the row under the column of that name.
pub open spec fn field_of(header: Seq<Seq<u8>>, row: Seq<Seq<u8>>, f: FieldName) -> Result<
    Seq<u8>,
    DecodeFault,
> {
    if !has_column(header, f.key()) {
        Err(DecodeFault::MissingField(f))
    } else if repeats_column(header, f.key()) {
        Err(DecodeFault::DuplicateField(f))
    } else if column_of(header, f.key()) >= row.len() {
        Err(DecodeFault::ShortRow(f))
    } else {
        Ok(row[column_of(header, f.key())])
    }
}

/// The text of the row under the column of that name.
pub open spec fn text_field(header: Seq<Seq<u8>>, row: Seq<Seq<u8>>, f: FieldName) -> Result<
    Seq<char>,
    DecodeFault,
> {
    match field_of(header, row, f) {
        Err(fault) => Err(fault),
        Ok(bytes) => match text_of(bytes) {
            Some(text) => Ok(text),
            None => Err(DecodeFault::InvalidText(f)),
        },
    }
}

/// The small unsigned integer of the row under the column of that name.
pub open spec fn number_field(header: Seq<Seq<u8>>, row: Seq<Seq<u8>>, f: FieldName) -> Result<
    u8,
    DecodeFault,
> {
    match field_of(header, row, f) {
        Err(fault) => Err(fault),
        Ok(bytes) => match unsigned_of(bytes) {
            Some(n) => Ok(n),
            None => Err(DecodeFault::InvalidInteger(f)),
        },
    }
}

impl RawRow {
    /// The field under the column of the given name.
    pub fn field<'a>(&'a self, header: &Header, f: FieldName) -> (found: Result<
        &'a [u8],
        DecodeFault,
    >)
        ensures
            match found {
                Ok(bytes) => field_of(header@, self@, f) == Ok::<Seq<u8>, DecodeFault>(bytes@),
                Err(fault) => field_of(header@, self@, f) == Err::<Seq<u8>, DecodeFault>(fault),
            },
    {
        match header.find_column(f.label().as_bytes()) {
            Lookup::Absent => Err(DecodeFault::MissingField(f)),
            Lookup::Repeated => Err(DecodeFault::DuplicateField(f)),
            Lookup::At(j) => {
                if j >= self.fields.len() {
                    Err(DecodeFault::ShortRow(f))
                } else {
                    Ok(self.fields[j].as_slice())
                }
            },
        }
    }

    /// The text under the column of the given name, exactly as it stands.
    pub fn text<'a>(&'a self, header: &Header, f: FieldName) -> (found: Result<
        String,
        DecodeFault,
    >)
        ensures
            match found {
                Ok(s) => text_field(header@, self@, f) == Ok::<Seq<char>, DecodeFault>(s@),
                Err(fault) => text_field(header@, self@, f) == Err::<Seq<char>, DecodeFault>(
                    fault,
                ),
            },
    {
        match self.field(header, f) {
            Err(fault) => Err(fault),
            Ok(bytes) => match decode_text(bytes) {
                Some(s) => Ok(s),
                None => Err(DecodeFault::InvalidText(f)),
            },
        }
    }

    /// The small unsigned integer under the column of the given name.
    pub fn number(&self, header: &Header, f: FieldName) -> (found: Result<u8, DecodeFault>)
        ensures
            found == number_field(header@, self@, f),
    {
        match self.field(header, f) {
            Err(fault) => Err(fault),
            Ok(bytes) => match decode_unsigned(bytes) {
                Some(n) => Ok(n),
                None => Err(DecodeFault::InvalidInteger(f)),
            },
        }
    }
}


/// A row bound to the four named fields, before validation.
#[derive(Debug, Clone, PartialEq, Eq)]
pub struct CsvRecord {
    pub id: String,
    pub email: String,
    pub name: String,
    pub is_parent: u8,
}

/// What an input record holds.
pub struct InputModel {
    pub id: Seq<char>,
    pub email: Seq<char>,
    pub name: Seq<char>,
    pub is_parent: u8,
}

impl View for CsvRecord {
    type V = InputModel;

    open spec fn view(&self) -> InputModel {
        InputModel { id: self.id@, email: self.email@, name: self.name@, is_parent: self.is_parent }
    }
}

/// A validated record as the client receives it.
#[derive(Debug, Clone, PartialEq, Eq)]
pub struct ResponseRecord {
    pub id: String,
    pub email: String,
    pub name: String,
    pub is_parent: bool,
}

/// What an output record holds.
pub struct OutputModel {
    pub id: Seq<char>,
    pub email: Seq<char>,
    pub name: Seq<char>,
    pub is_parent: bool,
}

impl View for ResponseRecord {
    type V = OutputModel;

    open spec fn view(&self) -> OutputModel {
        OutputModel {
            id: self.id@,
            email: self.email@,
            name: self.name@,
            is_parent: self.is_parent,
        }
    }
}

/// The input record that a row is bound to under a header. The fields are
/// looked up in the order `id`, `email`, `name`, `is_parent`, and the first
/// one that cannot be had decides the fault.
pub open spec fn bound_record(header: Seq<Seq<u8>>, row: Seq<Seq<u8>>) -> Result<
    InputModel,
    DecodeFault,
> {
    match text_field(header, row, FieldName::Id) {
        Err(fault) => Err(fault),
        Ok(id) => match text_field(header, row, FieldName::Email) {
            Err(fault) => Err(fault),
            Ok(email) => match text_field(header, row, FieldName::Name) {
                Err(fault) => Err(fault),
                Ok(name) => match number_field(header, row, FieldName::IsParent) {
                    Err(fault) => Err(fault),
                    Ok(is_parent) => Ok(InputModel { id, email, name, is_parent }),
                },
            },
        },
    }
}

/// The output record of a valid input record: the three texts unchanged, and
/// the flag true for 0 and false for 1. Any other number is refused.
pub open spec fn transformed(record: InputModel) -> Result<OutputModel, Failure> {
    if record.is_parent == 0 || record.is_parent == 1 {
        Ok(
            OutputModel {
                id: record.id,
                email: record.email,
                name: record.name,
                is_parent: record.is_parent == 0,
            },
        )
    } else {
        Err(Failure::Validation(record.is_parent))
    }
}

/// The outcome of one row under a header: its output record, or the failure
/// that ends the request.
pub open spec fn converted(header: Seq<Seq<u8>>, row: Seq<Seq<u8>>) -> Result<
    OutputModel,
    Failure,
> {
    match bound_record(header, row) {
        Err(fault) => Err(Failure::Deserialization(fault)),
        Ok(record) => transformed(record),
    }
}

/// The view of an outcome that carries a value with a view on either side.
pub open spec fn outcome_view<T: View, E: View>(outcome: Result<T, E>) -> Result<T::V, E::V> {
    match outcome {
        Ok(value) => Ok(value@),
        Err(e) => Err(e@),
    }
}

/// The three texts of an output record are the bytes of their fields, read as
/// UTF-8 and changed in nothing: encoded again they are those bytes.
pub proof fn theorem_texts_round_trip(header: Seq<Seq<u8>>, row: Seq<Seq<u8>>)
    requires
        converted(header, row) is Ok,
    ensures
        field_of(header, row, FieldName::Id) == Ok::<Seq<u8>, DecodeFault>(
            vstd::utf8::encode_utf8(converted(header, row)->Ok_0.id),
        ),
        field_of(header, row, FieldName::Email) == Ok::<Seq<u8>, DecodeFault>(
            vstd::utf8::encode_utf8(converted(header, row)->Ok_0.email),
        ),
        field_of(header, row, FieldName::Name) == Ok::<Seq<u8>, DecodeFault>(
            vstd::utf8::encode_utf8(converted(header, row)->Ok_0.name),
        ),
{
    vstd::utf8::decode_utf8_encode_utf8(field_of(header, row, FieldName::Id)->Ok_0);
    vstd::utf8::decode_utf8_encode_utf8(field_of(header, row, FieldName::Email)->Ok_0);
    vstd::utf8::decode_utf8_encode_utf8(field_of(header, row, FieldName::Name)->Ok_0);
}

/// The flag of an output record is true where `is_parent` is 0 and false
/// where it is 1; a row with any other number has no output record.
pub proof fn theorem_flag_is_inverted(header: Seq<Seq<u8>>, row: Seq<Seq<u8>>)
    requires
        bound_record(header, row) is Ok,
    ensures
        bound_record(header, row)->Ok_0.is_parent == 0 ==> converted(header, row) is Ok
            && converted(header, row)->Ok_0.is_parent,
        bound_record(header, row)->Ok_0.is_parent == 1 ==> converted(header, row) is Ok
            && !converted(header, row)->Ok_0.is_parent,
        bound_record(header, row)->Ok_0.is_parent > 1 ==> converted(header, row) == Err::<
            OutputModel,
            Failure,
        >(Failure::Validation(bound_record(header, row)->Ok_0.is_parent)),
{
}

/// A row whose three texts decode has an output record with the flag true
/// where its `is_parent` field is the digit `0`, and with the flag false where
/// it is the digit `1`.
pub proof fn theorem_flag_digits(header: Seq<Seq<u8>>, row: Seq<Seq<u8>>)
    requires
        text_field(header, row, FieldName::Id) is Ok,
        text_field(header, row, FieldName::Email) is Ok,
        text_field(header, row, FieldName::Name) is Ok,
    ensures
        field_of(header, row, FieldName::IsParent) == Ok::<Seq<u8>, DecodeFault>(seq![0x30u8])
            ==> converted(header, row) is Ok && converted(header, row)->Ok_0.is_parent,
        field_of(header, row, FieldName::IsParent) == Ok::<Seq<u8>, DecodeFault>(seq![0x31u8])
            ==> converted(header, row) is Ok && !converted(header, row)->Ok_0.is_parent,
{
    crate::text::lemma_zero_and_one();
}

/// A row with as many fields as the header has a field under every column:
/// binding it never finds the row too short.
pub proof fn lemma_aligned_row_is_long_enough(header: Seq<Seq<u8>>, row: Seq<Seq<u8>>)
    requires
        header.len() == row.len(),
    ensures
        !(bound_record(header, row) matches Err(DecodeFault::ShortRow(_))),
        !(converted(header, row) matches Err(Failure::Deserialization(DecodeFault::ShortRow(_)))),
{
    assert forall|f: FieldName| !(#[trigger] field_of(header, row, f) matches Err(
        DecodeFault::ShortRow(_),
    )) by {
        if has_column(header, f.key()) {
            assert(names_column(header, f.key(), column_of(header, f.key())));
        }
    }
}

impl CsvRecord {
    /// Binds a row to the four named fields and decodes them.
    pub fn bind(header: &Header, row: &RawRow) -> (bound: Result<CsvRecord, DecodeFault>)
        ensures
            match bound {
                Ok(record) => bound_record(header@, row@) == Ok::<InputModel, DecodeFault>(
                    record@,
                ),
                Err(fault) => bound_record(header@, row@) == Err::<InputModel, DecodeFault>(
                    fault,
                ),
            },
    {
        let id = match row.text(header, FieldName::Id) {
            Ok(s) => s,
            Err(fault) => return Err(fault),
        };
        let email = match row.text(header, FieldName::Email) {
            Ok(s) => s,
            Err(fault) => return Err(fault),
        };
        let name = match row.text(header, FieldName::Name) {
            Ok(s) => s,
            Err(fault) => return Err(fault),
        };
        let is_parent = match row.number(header, FieldName::IsParent) {
            Ok(n) => n,
            Err(fault) => return Err(fault),
        };
        Ok(CsvRecord { id, email, name, is_parent })
    }
}

impl ResponseRecord {
    /// Validates an input record and turns it into an output record.
    pub fn from_record(record: CsvRecord) -> (out: Result<ResponseRecord, ServerErrors>)
        ensures
            outcome_view(out) == transformed(record@),
    {
        if record.is_parent != 0 && record.is_parent != 1 {
            return Err(ServerErrors::ValidationFailure { value: record.is_parent });
        }
        Ok(
            ResponseRecord {
                id: record.id,
                email: record.email,
                name: record.name,
                is_parent: record.is_parent == 0,
            },
        )
    }

    /// Binds, validates and transforms one row.
    pub fn from_row(header: &Header, row: &RawRow) -> (out: Result<ResponseRecord, ServerErrors>)
        ensures
            outcome_view(out) == converted(header@, row@),
    {
        match CsvRecord::bind(header, row) {
            Err(fault) => Err(ServerErrors::DeserializationFailure { fault }),
            Ok(record) => ResponseRecord::from_record(record),
        }
    }
}

} // verus!
