//! The result accumulator: an append-only container that keeps the output
//! records in insertion order. It grows in steps of bounded size, so that no
//! single append pays for moving everything that came before; the container
//! is `atone::Vc`.

use crate::record::{OutputModel, ResponseRecord};
use vstd::prelude::*;

verus! {

/// `atone::CustomVc`, of which `atone::Vc` is the instance with the default
/// step size.
#[verifier::external_type_specification]
#[verifier::external_body]
#[verifier::reject_recursive_types(T)]
pub struct ExCustomVc<T, const R: usize>(atone::CustomVc<T, R>);

/// The records that an `atone::Vc` holds, front to back.
pub uninterp spec fn vc_items(v: atone::Vc<ResponseRecord>) -> Seq<ResponseRecord>;

/// `atone::Vc::new`: an empty container.
#[verifier::external_body]
fn vc_new() -> (v: atone::Vc<ResponseRecord>)
    ensures
        vc_items(v) == Seq::<ResponseRecord>::empty(),
{
    atone::Vc::new()
}

/// `atone::Vc::push`: the record is appended behind all that the container
/// holds, and those stay as they are, whether or not the call moves some of
/// them to a larger buffer. Like `Vec::push` it gives up only when memory or
/// the address space is exhausted.
#[verifier::external_body]
fn vc_push(v: &mut atone::Vc<ResponseRecord>, record: ResponseRecord)
    ensures
        vc_items(*final(v)) == vc_items(*old(v)).push(record),
{
    v.push(record)
}

/// `Vec::from` on an `atone::Vc`: the same records in the same order.
#[verifier::external_body]
fn vc_into_vec(v: atone::Vc<ResponseRecord>) -> (records: Vec<ResponseRecord>)
    ensures
        records@ == vc_items(v),
{
    Vec::from(v)
}

/// The records of one request, in the order of the rows they came from.
pub struct ResultSet {
    items: atone::Vc<ResponseRecord>,
}

/// The views of a sequence of output records.
pub open spec fn record_views(records: Seq<ResponseRecord>) -> Seq<OutputModel> {
    Seq::new(records.len(), |i: int| records[i]@)
}

impl View for ResultSet {
    type V = Seq<OutputModel>;

    closed spec fn view(&self) -> Seq<OutputModel> {
        record_views(vc_items(self.items))
    }
}

impl ResultSet {
    /// An empty result set.
    pub fn new() -> (set: Self)
        ensures
            set@ == Seq::<OutputModel>::empty(),
    {
        let set = ResultSet { items: vc_new() };
        assert(set@ =~= Seq::<OutputModel>::empty());
        set
    }

    /// Appends a record behind those already held.
    pub fn append(&mut self, record: ResponseRecord)
        ensures
            final(self)@ == old(self)@.push(record@),
    {
        vc_push(&mut self.items, record);
        assert(self@ =~= old(self)@.push(record@));
    }

    /// Ends the build phase and hands the records out in insertion order.
    pub fn finalize(self) -> (records: Vec<ResponseRecord>)
        ensures
            record_views(records@) == self@,
    {
        vc_into_vec(self.items)
    }
}

} // verus!
