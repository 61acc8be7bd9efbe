//! The older framing: a message is the bincode encoding of its length as a
//! `u64` (eight little-endian bytes), followed by the bincode encoding of
//! the value itself.
use crate::bincode_codec::{bincode_deserialize_u64, bincode_serialize_u64};
use crate::byte_order::{le_bytes, le_value, lemma_le_roundtrip, lemma_pow256_8};
use vstd::prelude::*;

verus! {

/// `std::io::Error`, opaque to Verus.
#[verifier::external_type_specification]
#[verifier::external_body]
pub struct ExIoError(std::io::Error);

/// Why a message could not be read.
#[derive(Debug)]
pub enum ReadError {
    IoError(std::io::Error),
    DeserializationError(bincode::Error),
}

impl From<bincode::Error> for ReadError {
    fn from(error: bincode::Error) -> (converted: Self) {
        ReadError::DeserializationError(error)
    }
}

impl vstd::std_specs::convert::FromSpecImpl<bincode::Error> for ReadError {
    open spec fn obeys_from_spec() -> bool {
        true
    }

    open spec fn from_spec(error: bincode::Error) -> Self {
        ReadError::DeserializationError(error)
    }
}

impl From<std::io::Error> for ReadError {
    fn from(error: std::io::Error) -> (converted: Self) {
        ReadError::IoError(error)
    }
}

impl vstd::std_specs::convert::FromSpecImpl<std::io::Error> for ReadError {
    open spec fn obeys_from_spec() -> bool {
        true
    }

    open spec fn from_spec(error: std::io::Error) -> Self {
        ReadError::IoError(error)
    }
}

/// A message ready to be written: its size header, then its body.
pub struct ByteMessage {
    pub size: Vec<u8>,
    pub data: Vec<u8>,
}

/// The size header that precedes a body of `len` bytes.
pub open spec fn size_header(len: nat) -> Seq<u8> {
    le_bytes(len, 8)
}

/// Frames an already serialised body.
pub fn convert_to_byte_message(data: Vec<u8>) -> (message: ByteMessage)
    ensures
        message.size@ == size_header(data@.len()),
        message.data@ == data@,
{
    let len = data.len() as u64;
    let size = bincode_serialize_u64(len).unwrap();
    ByteMessage { size, data }
}

/// Reads the size header: the first eight bytes, little-endian. Fewer than
/// eight bytes cannot be decoded.
pub fn decode_first_u64(header: &[u8]) -> (size: Result<u64, ReadError>)
    ensures
        size is Ok <==> header@.len() >= 8,
        size is Ok ==> size.unwrap() == le_value(header@.subrange(0, 8)),
        size is Err ==> size matches Err(ReadError::DeserializationError(_)),
{
    match bincode_deserialize_u64(header) {
        Ok(value) => Ok(value),
        Err(error) => Err(ReadError::from(error)),
    }
}

/// The size header of a framed body, read back, is the body's length.
pub proof fn lemma_size_header_roundtrip(len: nat)
    requires
        len <= u64::MAX,
    ensures
        size_header(len).len() == 8,
        size_header(len).subrange(0, 8) == size_header(len),
        le_value(size_header(len)) == len,
{
    lemma_pow256_8();
    lemma_le_roundtrip(len, 8);
    assert(size_header(len).subrange(0, 8) =~= size_header(len));
}

} // verus!
