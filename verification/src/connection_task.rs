//! The decisions of a connection task: it assembles incoming messages with
//! an `IncrementalReadStorage`, hands each complete one on, and frames the
//! responses that it sends back.
use crate::incremental_read::{lemma_any_chunking_fills_message, IncrementalReadStorage, ReadState};
use crate::stream_serialization::{announced_len, encode_frame, frame, lemma_frame_roundtrip};
use vstd::prelude::*;

verus! {

/// What happened since the last decision.
pub enum ConnectionEvent {
    /// Reading from the socket failed: it was closed.
    ReadFailed,
    /// Bytes were read into the storage.
    ReadProgressed,
    /// A serialised response is ready to go out.
    Response(Vec<u8>),
    /// Neither the socket nor the response channel has anything more.
    Idle,
}

/// What the task does next.
pub enum ConnectionAction {
    /// End the task; `socket_closed` when the socket closed on us.
    Close { socket_closed: bool },
    /// Keep waiting.
    Continue,
    /// A whole message arrived: hand its bytes on.
    Deliver(Vec<u8>),
    /// Write these bytes (a whole frame) to the socket.
    Transmit(Vec<u8>),
}

/// Decides what to do on `event`. A complete message leaves the storage
/// empty for the next one.
pub fn on_connection_event(storage: &mut IncrementalReadStorage, event: ConnectionEvent) -> (action:
    ConnectionAction)
    ensures
        match event {
            ConnectionEvent::ReadFailed => action == (ConnectionAction::Close {
                socket_closed: true,
            }) && final(storage)@ == old(storage)@,
            ConnectionEvent::ReadProgressed => if old(storage)@.is_full() {
                action matches ConnectionAction::Deliver(message) && message@ == old(
                    storage,
                )@.contents && final(storage)@ == ReadState::initial()
            } else {
                action is Continue && final(storage)@ == old(storage)@
            },
            ConnectionEvent::Response(data) => action matches ConnectionAction::Transmit(bytes)
                && bytes@ == frame(data@) && final(storage)@ == old(storage)@,
            ConnectionEvent::Idle => action == (ConnectionAction::Close { socket_closed: false })
                && final(storage)@ == old(storage)@,
        },
{
    match event {
        ConnectionEvent::ReadFailed => ConnectionAction::Close { socket_closed: true },
        ConnectionEvent::ReadProgressed => {
            if storage.is_full() {
                let message = vstd::slice::slice_to_vec(storage.buffer());
                storage.reset();
                ConnectionAction::Deliver(message)
            } else {
                ConnectionAction::Continue
            }
        },
        ConnectionEvent::Response(data) => ConnectionAction::Transmit(encode_frame(&data)),
        ConnectionEvent::Idle => ConnectionAction::Close { socket_closed: false },
    }
}

/// The reader and the framing agree: a reader told the size in the header of
/// `payload`'s frame, and then handed the rest of the frame in any pieces,
/// ends full with exactly `payload`.
pub proof fn lemma_reader_receives_frame(payload: Seq<u8>, chunks: Seq<Seq<u8>>)
    requires
        payload.len() <= isize::MAX,
        chunks.flatten() == frame(payload).subrange(8, frame(payload).len() as int),
    ensures
        announced_len(frame(payload)) == payload.len(),
        ReadState::started(announced_len(frame(payload))).append_all(chunks) == (ReadState {
            size: Some(payload.len()),
            contents: payload,
        }),
        ReadState::started(announced_len(frame(payload))).append_all(chunks).is_full(),
{
    lemma_frame_roundtrip(payload, Seq::empty());
    assert(frame(payload) + Seq::<u8>::empty() =~= frame(payload));
    assert(frame(payload).subrange(8, frame(payload).len() as int) =~= payload);
    lemma_any_chunking_fills_message(payload, chunks);
}

} // verus!
