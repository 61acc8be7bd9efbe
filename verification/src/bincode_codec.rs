//! The two calls into `bincode` that the older framing makes, both on `u64`
//! values. `bincode::serialize` and `bincode::deserialize` use fixed-width
//! integers in little-endian order and accept trailing bytes (bincode 1.3,
//! `DefaultOptions::new().with_fixint_encoding().allow_trailing_bytes()`).
use crate::byte_order::{le_bytes, le_value};
use vstd::prelude::*;

verus! {

/// `bincode::ErrorKind`, opaque to Verus (`bincode::Error` is a box of it).
#[verifier::external_type_specification]
#[verifier::external_body]
pub struct ExBincodeErrorKind(bincode::ErrorKind);

/// `bincode::serialize::<u64>`: always succeeds, giving the eight
/// little-endian bytes of the value.
#[verifier::external_body]
pub(crate) fn bincode_serialize_u64(value: u64) -> (encoded: Result<Vec<u8>, bincode::Error>)
    ensures
        encoded is Ok,
        encoded.unwrap()@ == le_bytes(value as nat, 8),
{
    bincode::serialize(&value)
}

/// `bincode::deserialize::<u64>`: reads the first eight bytes as a
/// little-endian number; fewer than eight bytes is an error. Which error
/// value comes back is left unsaid.
#[verifier::external_body]
pub(crate) fn bincode_deserialize_u64(bytes: &[u8]) -> (decoded: Result<u64, bincode::Error>)
    ensures
        decoded is Ok <==> bytes@.len() >= 8,
        decoded is Ok ==> decoded.unwrap() == le_value(bytes@.subrange(0, 8)),
{
    bincode::deserialize::<u64>(bytes)
}

} // verus!
