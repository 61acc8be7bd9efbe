//! The framing that the connections use: a message is its length as an
//! eight-byte big-endian `u64`, followed by the serialised value.
use crate::byte_order::{
    be_bytes, be_value, lemma_be_bytes_digits, lemma_be_roundtrip, lemma_be_value_digits,
    lemma_pow256_8, u64_from_be_bytes, u64_to_be_bytes,
};
use vstd::arithmetic::power::pow;
use vstd::prelude::*;
use vstd::slice::{slice_subrange, slice_to_vec};

verus! {

/// Bytes in the size header of a frame.
pub const FRAME_HEADER_LEN: usize = 8;

/// A serialised value and the size that announces it.
pub struct ByteMessage {
    pub size: u64,
    pub data: Vec<u8>,
}

/// The header of a frame whose body has `len` bytes.
pub open spec fn frame_header(len: nat) -> Seq<u8> {
    be_bytes(len, 8)
}

/// The frame that carries `payload`: its header, then the payload.
pub open spec fn frame(payload: Seq<u8>) -> Seq<u8> {
    frame_header(payload.len()) + payload
}

/// The body size that the header at the start of `bytes` announces.
pub open spec fn announced_len(bytes: Seq<u8>) -> nat {
    be_value(bytes.subrange(0, 8))
}

/// Whether `bytes` starts with a whole frame.
pub open spec fn holds_whole_frame(bytes: Seq<u8>) -> bool {
    bytes.len() >= 8 && bytes.len() - 8 >= announced_len(bytes)
}

/// Why a byte stream does not start with a whole frame.
#[derive(Debug, PartialEq, Eq)]
pub enum FrameError {
    /// Fewer than eight bytes: the size header is cut short.
    IncompleteHeader { available: usize },
    /// The header announces more body bytes than follow it.
    IncompleteBody { announced: u64, available: usize },
}

/// Pairs a serialised value with its size.
pub fn convert_to_byte_message(data: Vec<u8>) -> (message: ByteMessage)
    ensures
        message.size == data@.len(),
        message.data@ == data@,
{
    let size = data.len() as u64;
    ByteMessage { size, data }
}

impl ByteMessage {
    /// The bytes that go on the wire: the size header, then the data.
    pub fn into_frame(self) -> (bytes: Vec<u8>)
        requires
            self.size == self.data@.len(),
        ensures
            bytes@ == frame(self.data@),
            bytes@.len() == 8 + self.data@.len(),
            forall|i: int|
                0 <= i < 8 ==> #[trigger] bytes@[7 - i] as int == (self.data@.len() as int / pow(
                    256,
                    i as nat,
                )) % 256,
            bytes@.subrange(8, bytes@.len() as int) == self.data@,
    {
        let mut bytes = u64_to_be_bytes(self.size);
        let mut data = self.data;
        let ghost header = bytes@;
        bytes.append(&mut data);
        proof {
            assert(bytes@.subrange(8, bytes@.len() as int) =~= self.data@);
            assert forall|i: int| 0 <= i < 8 implies #[trigger] bytes@[7 - i] as int == (
            self.data@.len() as int / pow(256, i as nat)) % 256 by {
                assert(bytes@[7 - i] == header[7 - i]);
            }
        }
        bytes
    }
}

/// The frame that carries `payload`.
pub fn encode_frame(payload: &[u8]) -> (bytes: Vec<u8>)
    ensures
        bytes@ == frame(payload@),
        bytes@.len() == 8 + payload@.len(),
        forall|i: int|
            0 <= i < 8 ==> #[trigger] bytes@[7 - i] as int == (payload@.len() as int / pow(
                256,
                i as nat,
            )) % 256,
        bytes@.subrange(8, bytes@.len() as int) == payload@,
{
    convert_to_byte_message(slice_to_vec(payload)).into_frame()
}

/// Reads the size header at the start of `header`.
pub fn decode_frame_header(header: &[u8]) -> (len: Result<u64, FrameError>)
    ensures
        len is Ok <==> header@.len() >= 8,
        len matches Ok(n) ==> n == announced_len(header@),
        len matches Ok(n) ==> forall|i: int|
            0 <= i < 8 ==> #[trigger] header@[7 - i] as int == (n as int / pow(256, i as nat)) % 256,
        len matches Err(e) ==> e == (FrameError::IncompleteHeader { available: header@.len() as usize }),
{
    if header.len() < FRAME_HEADER_LEN {
        Err(FrameError::IncompleteHeader { available: header.len() })
    } else {
        Ok(u64_from_be_bytes(header))
    }
}

/// Splits the first frame off `input`: its payload, and how many bytes it
/// took (header and payload). Bytes after the frame are left alone.
pub fn decode_frame(input: &[u8]) -> (decoded: Result<(Vec<u8>, usize), FrameError>)
    ensures
        decoded is Ok <==> holds_whole_frame(input@),
        decoded matches Ok((payload, used)) ==> {
            &&& payload@ == input@.subrange(8, 8 + announced_len(input@) as int)
            &&& used == 8 + announced_len(input@)
            &&& used == 8 + payload@.len()
            &&& forall|i: int|
                0 <= i < 8 ==> #[trigger] input@[7 - i] as int == (payload@.len() as int / pow(
                    256,
                    i as nat,
                )) % 256
        },
        decoded matches Err(e) ==> (e == if input@.len() < 8 {
            FrameError::IncompleteHeader { available: input@.len() as usize }
        } else {
            FrameError::IncompleteBody {
                announced: announced_len(input@) as u64,
                available: (input@.len() - 8) as usize,
            }
        }),
{
    let announced = match decode_frame_header(input) {
        Ok(n) => n,
        Err(e) => return Err(e),
    };
    let available = input.len() - FRAME_HEADER_LEN;
    if (available as u64) < announced {
        return Err(FrameError::IncompleteBody { announced, available });
    }
    let len = announced as usize;
    let end = FRAME_HEADER_LEN + len;
    let payload = slice_to_vec(slice_subrange(input, FRAME_HEADER_LEN, end));
    Ok((payload, end))
}

/// The header of a frame is the standard eight-byte big-endian encoding of
/// the payload's length: the byte `i` places from its end is the base-256
/// digit `(len / 256^i) % 256`.
pub proof fn lemma_frame_header_digits(len: nat)
    ensures
        frame_header(len).len() == 8,
        forall|i: int|
            0 <= i < 8 ==> #[trigger] frame_header(len)[7 - i] as int == (len as int / pow(
                256,
                i as nat,
            )) % 256,
{
    lemma_be_bytes_digits(len, 8);
}

/// The length that a header announces is the plain big-endian number of its
/// first eight bytes: below `2^64`, and each of those bytes is the base-256
/// digit of its place.
pub proof fn lemma_announced_len_digits(bytes: Seq<u8>)
    requires
        bytes.len() >= 8,
    ensures
        announced_len(bytes) < 0x1_0000_0000_0000_0000,
        forall|i: int|
            0 <= i < 8 ==> #[trigger] bytes[7 - i] as int == (announced_len(bytes) as int / pow(
                256,
                i as nat,
            )) % 256,
{
    let head = bytes.subrange(0, 8);
    lemma_be_value_digits(head);
    lemma_pow256_8();
    crate::byte_order::lemma_pow256_is_pow(8);
    assert forall|i: int| 0 <= i < 8 implies #[trigger] bytes[7 - i] as int == (announced_len(
        bytes,
    ) as int / pow(256, i as nat)) % 256 by {
        assert(head[head.len() - 1 - i] == bytes[7 - i]);
    }
}

/// The header of a frame announces the length of its payload, and the
/// payload follows it: in a stream that starts with the frame of `payload`,
/// the first frame holds `payload`, and what follows it is the rest of the
/// stream.
pub proof fn lemma_frame_roundtrip(payload: Seq<u8>, rest: Seq<u8>)
    requires
        payload.len() <= u64::MAX,
    ensures
        frame(payload).len() == 8 + payload.len(),
        announced_len(frame(payload) + rest) == payload.len(),
        holds_whole_frame(frame(payload) + rest),
        (frame(payload) + rest).subrange(8, 8 + payload.len() as int) == payload,
        (frame(payload) + rest).subrange(8 + payload.len() as int, (frame(payload) + rest).len() as int)
            == rest,
{
    lemma_pow256_8();
    lemma_be_roundtrip(payload.len(), 8);
    let bytes = frame(payload) + rest;
    assert(bytes.subrange(0, 8) =~= frame_header(payload.len()));
    assert(bytes.subrange(8, 8 + payload.len() as int) =~= payload);
    assert(bytes.subrange(8 + payload.len() as int, bytes.len() as int) =~= rest);
}

} // verus!
