//! Key-value operations for the KV sink, kept in the sink crate's own
//! `KvOperations` collection.
use substreams_sink_kv::pb::sf::substreams::sink::kv::v1::KvOperations;
use vstd::prelude::*;

verus! {

#[verifier::external_type_specification]
#[verifier::external_body]
pub struct ExKvOperations(KvOperations);

/// The operations a `KvOperations` holds, in order: key, value, ordinal and
/// kind (1 for a set, 2 for a delete).
pub uninterp spec fn kv_operations_contents(ops: KvOperations) -> Seq<(Seq<char>, Seq<u8>, u64, i32)>;

/// `KvOperations::default()`: the source derives `Default`, which gives an
/// empty list of operations.
#[verifier::external_body]
pub(crate) fn new_kv_operations() -> (r: KvOperations)
    ensures
        kv_operations_contents(r) == Seq::<(Seq<char>, Seq<u8>, u64, i32)>::empty(),
{
    KvOperations::default()
}

/// `KvOperations::push_new`: the source appends one operation of kind `Set`
/// (1) with the given key, value and ordinal.
#[verifier::external_body]
pub(crate) fn kv_push_new(ops: &mut KvOperations, key: &str, value: &[u8], ordinal: u64)
    ensures
        kv_operations_contents(*final(ops)) == kv_operations_contents(*old(ops)).push(
            (key@, value@, ordinal, 1i32),
        ),
{
    ops.push_new(key, value, ordinal)
}

/// `KvOperations::push_delete`: the source appends one operation of kind
/// `Delete` (2) with the given key and ordinal and an empty value.
#[verifier::external_body]
pub(crate) fn kv_push_delete(ops: &mut KvOperations, key: &str, ordinal: u64)
    ensures
        kv_operations_contents(*final(ops)) == kv_operations_contents(*old(ops)).push(
            (key@, Seq::<u8>::empty(), ordinal, 2i32),
        ),
{
    ops.push_delete(key, ordinal)
}

} // verus!
