//! Streaming digest computation through a bounded buffer.
//!
//! A [`StreamingHasher`] says how many bytes to ask a byte source for, is fed
//! the chunk that the read returned, and says whether that chunk was the
//! last. Reading itself is left to the caller; [`hash_bytes`] is the same
//! procedure run over bytes that are already in memory. The digest depends
//! on the content and the mode alone, never on the size of the buffer.

use vstd::prelude::*;
use crate::digest::{
    absorbed,
    context_compute,
    context_consume,
    context_new,
    digest_of,
    ContentDigest,
};

verus! {

/// How much of a source goes into its digest.
#[derive(Clone, Copy, Debug, PartialEq, Eq, Structural)]
pub enum HashMode {
    /// Stop reading once this many bytes have been read.
    Partial(usize),
    /// Read until the source is exhausted.
    Full,
}

/// What hashing one source yields: its digest and how many bytes were read
/// to get it.
#[derive(Clone, Copy, Debug, PartialEq, Eq, Structural)]
pub struct HashOutcome {
    pub digest: ContentDigest,
    pub bytes_read: u64,
}

/// A byte count as a `u64`, pinned at the largest value where it does not fit.
pub open spec fn saturated(count: nat) -> u64 {
    if count <= u64::MAX {
        count as u64
    } else {
        u64::MAX
    }
}

/// Whether `total` bytes exhaust the byte budget of `mode`. Full mode has no
/// budget.
pub open spec fn budget_met(mode: HashMode, total: nat) -> bool {
    match mode {
        HashMode::Partial(budget) => total >= budget,
        HashMode::Full => false,
    }
}

/// How many bytes to ask the source for once `total` bytes have been read:
/// a whole buffer, or what is left of the budget where that is less.
pub open spec fn request_len(mode: HashMode, capacity: nat, total: nat) -> nat {
    match mode {
        HashMode::Full => capacity,
        HashMode::Partial(budget) => if total >= budget {
            0
        } else if budget - total < capacity {
            (budget - total) as nat
        } else {
            capacity
        },
    }
}

/// Whether a chunk of `chunk_len` bytes, returned by a read that asked for
/// `request` bytes and bringing the bytes read to `total`, is the last one:
/// the read came back short, or the budget is met.
pub open spec fn is_last_chunk(mode: HashMode, request: nat, chunk_len: nat, total: nat) -> bool {
    chunk_len < request || budget_met(mode, total)
}

/// How many leading bytes of a source of `len` bytes are read and hashed:
/// all of them in full mode, and in partial mode as many as the budget
/// allows.
pub open spec fn window_len(len: nat, mode: HashMode) -> nat {
    match mode {
        HashMode::Full => len,
        HashMode::Partial(budget) => if len <= budget {
            len
        } else {
            budget as nat
        },
    }
}

/// The digest that a source holding `data` gets in `mode`: the digest of its
/// window.
pub open spec fn stream_digest(data: Seq<u8>, mode: HashMode) -> u128 {
    digest_of(data.take(window_len(data.len(), mode) as int))
}

/// The state of hashing one source: the accumulator, the mode and buffer
/// size it was started with, and whether the last chunk has been seen.
pub struct StreamingHasher {
    context: md5::Context,
    mode: HashMode,
    capacity: usize,
    total: u64,
    finished: bool,
}

impl StreamingHasher {
    /// The bytes folded into the digest so far.
    pub closed spec fn consumed(&self) -> Seq<u8> {
        absorbed(self.context)
    }

    /// The mode that the hasher was started with.
    pub closed spec fn mode(&self) -> HashMode {
        self.mode
    }

    /// The size of the buffer that the chunks come through.
    pub closed spec fn capacity(&self) -> usize {
        self.capacity
    }

    /// Whether the last chunk has been fed.
    pub closed spec fn is_finished(&self) -> bool {
        self.finished
    }

    /// The buffer holds at least one byte and the running byte count agrees
    /// with what was consumed.
    pub closed spec fn wf(&self) -> bool {
        &&& self.capacity > 0
        &&& self.total == saturated(self.consumed().len())
    }

    /// A hasher that has seen nothing yet.
    pub fn new(mode: HashMode, capacity: usize) -> (hasher: StreamingHasher)
        requires
            capacity > 0,
        ensures
            hasher.wf(),
            hasher.mode() == mode,
            hasher.capacity() == capacity,
            hasher.consumed() == Seq::<u8>::empty(),
            !hasher.is_finished(),
    {
        StreamingHasher { context: context_new(), mode, capacity, total: 0, finished: false }
    }

    /// How many bytes to ask the source for next: never more than the buffer
    /// holds, and never more than is left of the budget.
    pub fn request(&self) -> (count: usize)
        requires
            self.wf(),
        ensures
            count == request_len(self.mode(), self.capacity() as nat, self.consumed().len()),
            count <= self.capacity(),
    {
        match self.mode {
            HashMode::Full => self.capacity,
            HashMode::Partial(budget) => {
                let budget_wide = budget as u64;
                if self.total >= budget_wide {
                    0
                } else {
                    let left = budget_wide - self.total;
                    if left < self.capacity as u64 {
                        left as usize
                    } else {
                        self.capacity
                    }
                }
            },
        }
    }

    /// Folds in the chunk that a read returned and says whether it was the
    /// last: whether it is shorter than what was asked for, or meets the
    /// budget. Every chunk fed before the last one, and the last one itself,
    /// goes into the digest whole; chunks fed after the last one are ignored.
    pub fn feed(&mut self, chunk: &[u8]) -> (done: bool)
        requires
            old(self).wf(),
        ensures
            final(self).wf(),
            final(self).mode() == old(self).mode(),
            final(self).capacity() == old(self).capacity(),
            final(self).is_finished() == done,
            old(self).is_finished() ==> done && final(self).consumed() == old(self).consumed(),
            !old(self).is_finished() ==> {
                &&& final(self).consumed() == old(self).consumed() + chunk@
                &&& done == is_last_chunk(
                    old(self).mode(),
                    request_len(
                        old(self).mode(),
                        old(self).capacity() as nat,
                        old(self).consumed().len(),
                    ),
                    chunk@.len(),
                    final(self).consumed().len(),
                )
            },
    {
        if self.finished {
            return true;
        }
        let request = self.request();
        context_consume(&mut self.context, chunk);
        let grown: u64 = chunk.len() as u64;
        self.total = self.total.saturating_add(grown);
        let short = chunk.len() < request;
        let met = match self.mode {
            HashMode::Partial(budget) => self.total >= budget as u64,
            HashMode::Full => false,
        };
        self.finished = short || met;
        self.finished
    }

    /// The number of bytes fed so far, pinned at `u64::MAX`.
    pub fn bytes_read(&self) -> (count: u64)
        requires
            self.wf(),
        ensures
            count == saturated(self.consumed().len()),
    {
        self.total
    }

    /// Ends the computation: the digest of everything that was folded in.
    pub fn finish(self) -> (outcome: HashOutcome)
        requires
            self.wf(),
        ensures
            outcome.digest.value == digest_of(self.consumed()),
            outcome.bytes_read == saturated(self.consumed().len()),
    {
        let total = self.total;
        let bytes = context_compute(self.context);
        HashOutcome { digest: ContentDigest::from_bytes(&bytes), bytes_read: total }
    }
}

/// Hashes bytes held in memory as a source would be hashed: request by
/// request through a [`StreamingHasher`], until a short read or the budget
/// ends it. Every positive buffer size gives the same digest.
pub fn hash_bytes(data: &[u8], mode: HashMode, capacity: usize) -> (outcome: HashOutcome)
    requires
        capacity > 0,
    ensures
        outcome.digest.value == stream_digest(data@, mode),
        outcome.bytes_read == window_len(data@.len(), mode),
{
    let mut hasher = StreamingHasher::new(mode, capacity);
    let mut offset: usize = 0;
    loop
        invariant_except_break
            !hasher.is_finished(),
            offset == 0 || !budget_met(mode, offset as nat),
        invariant
            capacity > 0,
            hasher.wf(),
            hasher.mode() == mode,
            hasher.capacity() == capacity,
            offset <= data@.len(),
            hasher.consumed() == data@.take(offset as int),
        ensures
            offset == window_len(data@.len(), mode),
        decreases data@.len() - offset,
    {
        let request = hasher.request();
        let remaining = data.len() - offset;
        let take = if remaining < request {
            remaining
        } else {
            request
        };
        let chunk = &data[offset..offset + take];
        let done = hasher.feed(chunk);
        assert(data@.take(offset as int) + chunk@ =~= data@.take(offset + take));
        offset += take;
        if done {
            break;
        }
    }
    hasher.finish()
}

/// A source no longer than the budget is covered whole by the partial
/// window: its partial digest is its full digest.
pub proof fn lemma_short_source_partial_is_full(data: Seq<u8>, budget: usize)
    requires
        data.len() <= budget,
    ensures
        window_len(data.len(), HashMode::Partial(budget)) == data.len(),
        stream_digest(data, HashMode::Partial(budget)) == stream_digest(data, HashMode::Full),
{
}

/// The full digest is the digest of the whole content.
pub proof fn lemma_full_digest_covers_content(data: Seq<u8>)
    ensures
        stream_digest(data, HashMode::Full) == digest_of(data),
{
    assert(data.take(data.len() as int) =~= data);
}

/// Two sources that agree on their first `budget` bytes get the same partial
/// digest, however they differ after those.
pub proof fn lemma_partial_digest_ignores_tail(first: Seq<u8>, second: Seq<u8>, budget: usize)
    requires
        first.len() >= budget,
        second.len() >= budget,
        first.take(budget as int) == second.take(budget as int),
    ensures
        stream_digest(first, HashMode::Partial(budget)) == stream_digest(
            second,
            HashMode::Partial(budget),
        ),
{
}

/// How far into a source of `len` bytes the reads get, by the rules of
/// [`StreamingHasher`], when `offset` bytes have been read and the last chunk
/// has not been seen: each read asks for `request_len` bytes and returns what
/// the source has left of them, and the first last chunk ends it.
pub open spec fn read_reach(len: nat, mode: HashMode, capacity: nat, offset: nat) -> nat
    decreases len - offset,
{
    let request = request_len(mode, capacity, offset);
    let chunk = if len - offset < request {
        (len - offset) as nat
    } else {
        request
    };
    if offset > len || chunk == 0 || is_last_chunk(mode, request, chunk, offset + chunk) {
        offset + chunk
    } else {
        read_reach(len, mode, capacity, offset + chunk)
    }
}

/// From any point before the end of the window, the reads get exactly to
/// the end of the window.
proof fn lemma_read_reach(len: nat, mode: HashMode, capacity: nat, offset: nat)
    requires
        capacity > 0,
        offset <= window_len(len, mode),
        offset == 0 || !budget_met(mode, offset),
    ensures
        read_reach(len, mode, capacity, offset) == window_len(len, mode),
    decreases len - offset,
{
    let request = request_len(mode, capacity, offset);
    let chunk = if len - offset < request {
        (len - offset) as nat
    } else {
        request
    };
    if !(chunk == 0 || is_last_chunk(mode, request, chunk, offset + chunk)) {
        lemma_read_reach(len, mode, capacity, offset + chunk);
    }
}

/// Every positive buffer size reads the same window of a source, and so
/// gives the same digest for the same content and mode.
pub proof fn lemma_buffer_size_is_irrelevant(len: nat, mode: HashMode, first: nat, second: nat)
    requires
        first > 0,
        second > 0,
    ensures
        read_reach(len, mode, first, 0) == window_len(len, mode),
        read_reach(len, mode, first, 0) == read_reach(len, mode, second, 0),
{
    lemma_read_reach(len, mode, first, 0);
    lemma_read_reach(len, mode, second, 0);
}

} // verus!
