//! Assembles one length-prefixed message from a byte stream that arrives in
//! pieces: first the announced size, then the body, chunk by chunk, until
//! the buffer holds exactly the announced number of bytes.
use crate::bytes_buffer::{
    bytes_mut_as_slice, bytes_mut_contents, bytes_mut_extend_from_slice, bytes_mut_len,
    bytes_mut_new, bytes_mut_with_capacity,
};
use bytes::BytesMut;
use vstd::prelude::*;

verus! {

/// What the reader knows: the announced size, once the header has been
/// read, and the body bytes received so far.
pub struct ReadState {
    pub size: Option<nat>,
    pub contents: Seq<u8>,
}

impl ReadState {
    /// Nothing read yet.
    pub open spec fn initial() -> ReadState {
        ReadState { size: None, contents: Seq::empty() }
    }

    /// The header announced `size` bytes; none of the body has arrived.
    pub open spec fn started(size: nat) -> ReadState {
        ReadState { size: Some(size), contents: Seq::empty() }
    }

    pub open spec fn is_initialized(self) -> bool {
        self.size is Some
    }

    /// The body holds exactly the announced number of bytes.
    pub open spec fn is_full(self) -> bool {
        self.size matches Some(n) && self.contents.len() == n
    }

    /// How many body bytes are still missing.
    pub open spec fn remaining(self) -> int {
        self.size.unwrap() - self.contents.len()
    }

    /// The state after `chunk` has been appended to the body.
    pub open spec fn append(self, chunk: Seq<u8>) -> ReadState {
        ReadState { size: self.size, contents: self.contents + chunk }
    }

    /// The state after each of `chunks` has been appended, in order.
    pub open spec fn append_all(self, chunks: Seq<Seq<u8>>) -> ReadState
        decreases chunks.len(),
    {
        if chunks.len() == 0 {
            self
        } else {
            self.append(chunks[0]).append_all(chunks.drop_first())
        }
    }

    /// Consistent: no body before the header, never more body than announced,
    /// and an announced size that a buffer can hold.
    pub open spec fn valid(self) -> bool {
        match self.size {
            None => self.contents.len() == 0,
            Some(n) => self.contents.len() <= n && n <= isize::MAX,
        }
    }
}

/// The next thing that the reader needs from the stream.
pub enum FillStep {
    /// The eight-byte size header.
    ReadHeader,
    /// Up to `max` body bytes (never more than are still missing).
    ReadBody { max: usize },
    /// Nothing: the message is complete.
    Complete,
}

/// What a read of body bytes brought.
#[derive(Debug, Clone, Copy, PartialEq, Eq, Structural)]
pub enum ReadOutcome {
    /// The bytes were appended.
    Progressed,
    /// The stream ended: no bytes came although some are missing.
    StreamEnded,
}

/// Buffer for one incoming message.
pub struct IncrementalReadStorage {
    size: Option<usize>,
    buffer: BytesMut,
}

impl View for IncrementalReadStorage {
    type V = ReadState;

    closed spec fn view(&self) -> ReadState {
        ReadState {
            size: match self.size {
                Some(n) => Some(n as nat),
                None => None,
            },
            contents: bytes_mut_contents(self.buffer),
        }
    }
}

impl IncrementalReadStorage {
    /// Every storage is consistent (see `ReadState::valid`).
    #[verifier::type_invariant]
    spec fn consistent(&self) -> bool {
        self@.valid()
    }
}

impl Default for IncrementalReadStorage {
    fn default() -> (storage: Self)
        ensures
            storage@ == ReadState::initial(),
    {
        let storage = IncrementalReadStorage { size: None, buffer: bytes_mut_new() };
        assert(storage@.contents =~= Seq::<u8>::empty());
        storage
    }
}

impl IncrementalReadStorage {
    /// Whole message received.
    pub fn is_full(&self) -> (full: bool)
        ensures
            full == self@.is_full(),
            full <==> (self@.size is Some && self@.contents.len() == self@.size.unwrap()),
            self@.valid(),
    {
        proof {
            use_type_invariant(self);
        }
        match self.size {
            Some(n) => bytes_mut_len(&self.buffer) == n,
            None => false,
        }
    }

    /// Forgets the message, ready for the next one.
    pub fn reset(&mut self)
        ensures
            final(self)@ == ReadState::initial(),
    {
        *self = Self::default();
    }

    fn set_up(&mut self, size: usize)
        requires
            size <= isize::MAX,
        ensures
            final(self)@ == ReadState::started(size as nat),
    {
        let buffer = bytes_mut_with_capacity(size);
        *self = IncrementalReadStorage { size: Some(size), buffer };
    }

    /// The size header has been read.
    pub fn is_initialized(&self) -> (initialized: bool)
        ensures
            initialized == self@.is_initialized(),
    {
        self.size.is_some()
    }

    /// Takes the size that the header announced, if a buffer can hold it.
    /// A larger size (above `isize::MAX`) is refused and changes nothing;
    /// the allocation for it would panic.
    pub fn begin_message(&mut self, announced: u64) -> (accepted: bool)
        requires
            !old(self)@.is_initialized(),
        ensures
            accepted == (announced <= isize::MAX),
            accepted ==> final(self)@ == ReadState::started(announced as nat),
            !accepted ==> final(self)@ == old(self)@,
            final(self)@.valid(),
    {
        proof {
            use_type_invariant(&*self);
        }
        if announced <= isize::MAX as u64 {
            self.set_up(announced as usize);
            true
        } else {
            false
        }
    }

    /// What to read next: the header, the missing body bytes, or nothing
    /// once the message is complete.
    pub fn next_step(&self) -> (step: FillStep)
        ensures
            self@.valid(),
            match step {
                FillStep::ReadHeader => !self@.is_initialized(),
                FillStep::ReadBody { max } => self@.is_initialized() && !self@.is_full() && max
                    == self@.remaining() && max > 0 && self@.contents.len() + max
                    == self@.size.unwrap(),
                FillStep::Complete => self@.is_full() && self@.size is Some
                    && self@.contents.len() == self@.size.unwrap(),
            },
    {
        proof {
            use_type_invariant(self);
        }
        match self.size {
            None => FillStep::ReadHeader,
            Some(n) => {
                let held = bytes_mut_len(&self.buffer);
                if held == n {
                    FillStep::Complete
                } else {
                    FillStep::ReadBody { max: n - held }
                }
            },
        }
    }

    /// How many body bytes are still missing.
    pub fn remaining(&self) -> (missing: usize)
        requires
            self@.is_initialized(),
        ensures
            missing == self@.remaining(),
            self@.valid(),
    {
        proof {
            use_type_invariant(self);
        }
        let n = self.size.unwrap();
        n - bytes_mut_len(&self.buffer)
    }

    /// Appends body bytes that a read brought; never more than are missing.
    /// A read that brought nothing while bytes are missing means that the
    /// stream ended, and changes nothing.
    pub fn accept_bytes(&mut self, chunk: &[u8]) -> (outcome: ReadOutcome)
        requires
            old(self)@.is_initialized(),
            chunk@.len() <= old(self)@.remaining(),
        ensures
            outcome == (if chunk@.len() == 0 && old(self)@.remaining() > 0 {
                ReadOutcome::StreamEnded
            } else {
                ReadOutcome::Progressed
            }),
            final(self)@ == old(self)@.append(chunk@),
            final(self)@.valid(),
    {
        proof {
            use_type_invariant(&*self);
        }
        let ended = chunk.len() == 0 && self.remaining() > 0;
        let mut buffer = bytes_mut_new();
        std::mem::swap(&mut buffer, &mut self.buffer);
        bytes_mut_extend_from_slice(&mut buffer, chunk);
        self.buffer = buffer;
        if ended {
            ReadOutcome::StreamEnded
        } else {
            ReadOutcome::Progressed
        }
    }

    /// The body bytes received so far.
    pub fn buffer(&self) -> (bytes: &[u8])
        ensures
            bytes@ == self@.contents,
    {
        bytes_mut_as_slice(&self.buffer)
    }
}

/// A reader is full exactly when it holds the announced number of body
/// bytes: never before the header, never while a byte is missing; and what
/// it still misses is the announced size less what it holds.
pub proof fn lemma_full_means_whole_body(state: ReadState)
    ensures
        state.size is None ==> !state.is_full(),
        forall|n: nat|
            state.size == Some(n) ==> (state.is_full() <==> state.contents.len() == n),
        forall|n: nat|
            state.size == Some(n) && state.contents.len() < n ==> !state.is_full()
                && state.remaining() == n - state.contents.len() && state.remaining() > 0,
{
}

/// The reader's invariant across calls: it starts consistent, each step that
/// its contract admits keeps it consistent, and a body step only appends
/// (what was held before stays a prefix).
pub proof fn lemma_reader_invariant(state: ReadState, announced: nat, chunk: Seq<u8>)
    ensures
        ReadState::initial().valid(),
        !ReadState::initial().is_initialized(),
        announced <= isize::MAX ==> ReadState::started(announced).valid(),
        state.valid() && state.is_initialized() && chunk.len() <= state.remaining() ==> {
            &&& state.append(chunk).valid()
            &&& state.append(chunk).size == state.size
            &&& state.append(chunk).contents.subrange(0, state.contents.len() as int)
                == state.contents
        },
{
    assert((state.contents + chunk).subrange(0, state.contents.len() as int) =~= state.contents);
}

/// Appending chunks appends their concatenation.
pub proof fn lemma_append_all(state: ReadState, chunks: Seq<Seq<u8>>)
    ensures
        state.append_all(chunks) == (ReadState {
            size: state.size,
            contents: state.contents + chunks.flatten(),
        }),
    decreases chunks.len(),
{
    if chunks.len() == 0 {
        assert(state.contents + chunks.flatten() =~= state.contents);
    } else {
        let next = state.append(chunks[0]);
        lemma_append_all(next, chunks.drop_first());
        assert(next.contents + chunks.drop_first().flatten() =~= state.contents
            + chunks.flatten());
    }
}

/// Whatever the pieces in which a message's body arrives, a reader that was
/// told its size ends full, holding exactly that body, and was never
/// handed more than it was missing.
pub proof fn lemma_any_chunking_fills_message(body: Seq<u8>, chunks: Seq<Seq<u8>>)
    requires
        chunks.flatten() == body,
        body.len() <= isize::MAX,
    ensures
        ReadState::started(body.len()).append_all(chunks) == (ReadState {
            size: Some(body.len()),
            contents: body,
        }),
        ReadState::started(body.len()).append_all(chunks).is_full(),
        forall|k: int|
            0 <= k < chunks.len() ==> #[trigger] chunks[k].len() <= ReadState::started(
                body.len(),
            ).append_all(chunks.take(k)).remaining(),
{
    let start = ReadState::started(body.len());
    lemma_append_all(start, chunks);
    assert(start.contents + body =~= body);
    assert forall|k: int| 0 <= k < chunks.len() implies #[trigger] chunks[k].len()
        <= start.append_all(chunks.take(k)).remaining() by {
        lemma_append_all(start, chunks.take(k));
        lemma_flatten_split(chunks, k);
    }
}

/// The flattening of `chunks` starts with that of its first `k` chunks,
/// followed by chunk `k`.
pub proof fn lemma_flatten_split(chunks: Seq<Seq<u8>>, k: int)
    requires
        0 <= k < chunks.len(),
    ensures
        chunks.take(k).flatten().len() + chunks[k].len() <= chunks.flatten().len(),
    decreases k,
{
    if k == 0 {
        assert(chunks.take(0) =~= Seq::<Seq<u8>>::empty());
        lemma_flatten_len_first(chunks);
    } else {
        let rest = chunks.drop_first();
        lemma_flatten_split(rest, k - 1);
        assert(rest.take(k - 1) =~= chunks.take(k).drop_first());
        assert(chunks.take(k)[0] == chunks[0]);
        assert(rest[k - 1] == chunks[k]);
    }
}

proof fn lemma_flatten_len_first(chunks: Seq<Seq<u8>>)
    requires
        chunks.len() > 0,
    ensures
        chunks[0].len() <= chunks.flatten().len(),
{
}

} // verus!
