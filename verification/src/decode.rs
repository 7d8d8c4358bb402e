//! Streaming text decoder that never splits a character across two reads.
//!
//! A [`DecodeCursor`] takes the bytes of each read in turn. It hands out the
//! text that is complete so far and carries the bytes of a character that the
//! read cut short, so that the next read completes it. Bytes that can never
//! become text are not skipped: they, and all that follows them, stay carried
//! until the buffer is full or the stream ends.

use crate::text::{
    decode_prefix, lemma_remainder_is_partial_unit, lemma_text_concat, remainder_of, text_of,
    valid_up_to, MAX_UNIT_LEN,
};
use vstd::prelude::*;
use vstd::slice::slice_subrange;
use vstd::utf8::{decode_utf8, valid_utf8};

verus! {

/// Number of bytes the reusable read buffer holds.
pub const CHUNK_CAPACITY: usize = 256;

/// Decoder state carried from one read to the next: the read buffer and the
/// count of bytes at its start that the previous read left undecoded.
pub struct DecodeCursor {
    buf: [u8; CHUNK_CAPACITY],
    pending: usize,
}

impl View for DecodeCursor {
    type V = Seq<u8>;

    /// The bytes carried over from earlier reads.
    closed spec fn view(&self) -> Seq<u8> {
        self.buf@.subrange(0, self.pending as int)
    }
}

impl DecodeCursor {
    #[verifier::type_invariant]
    spec fn bounded(self) -> bool {
        self.pending <= CHUNK_CAPACITY
    }

    /// A cursor that carries nothing.
    pub fn new() -> (cursor: Self)
        ensures
            cursor@ == Seq::<u8>::empty(),
    {
        let cursor = DecodeCursor { buf: [0u8; CHUNK_CAPACITY], pending: 0 };
        assert(cursor@ =~= Seq::<u8>::empty());
        cursor
    }

    /// Number of bytes carried over from earlier reads.
    pub fn pending_len(&self) -> (n: usize)
        ensures
            n == self@.len(),
            n <= CHUNK_CAPACITY,
    {
        proof {
            use_type_invariant(self);
        }
        self.pending
    }

    /// Number of bytes the next read may deliver.
    pub fn free_space(&self) -> (n: usize)
        ensures
            n == CHUNK_CAPACITY - self@.len(),
    {
        proof {
            use_type_invariant(self);
        }
        CHUNK_CAPACITY - self.pending
    }

    /// Takes the bytes of one read. Returns the text that the carried bytes
    /// followed by `chunk` hold up to the last complete character, and carries
    /// the rest over to the next read.
    pub fn feed(&mut self, chunk: &[u8]) -> (text: String)
        requires
            old(self)@.len() + chunk@.len() <= CHUNK_CAPACITY,
        ensures
            text@ == text_of(old(self)@ + chunk@),
            final(self)@ == remainder_of(old(self)@ + chunk@),
            final(self)@.len() <= CHUNK_CAPACITY,
    {
        proof {
            use_type_invariant(&*self);
        }
        let ghost carried = self@;
        let n: usize = chunk.len();
        let start: usize = self.pending;
        let mut i: usize = 0;
        while i < n
            invariant
                i <= n,
                n == chunk@.len(),
                start + n <= CHUNK_CAPACITY,
                self.pending == start,
                self.buf@.subrange(0, start as int) == carried,
                forall|t: int| 0 <= t < i ==> self.buf@[start + t] == chunk@[t],
            decreases n - i,
        {
            let ghost before = self.buf@;
            self.buf[start + i] = chunk[i];
            assert(self.buf@.subrange(0, start as int) =~= before.subrange(0, start as int));
            i += 1;
        }
        let filled: usize = start + n;
        let ghost data = carried + chunk@;
        assert(self.buf@.subrange(0, filled as int) =~= data);
        let (text, k) = decode_prefix(slice_subrange(self.buf.as_slice(), 0, filled));
        self.pending = 0;
        let mut j: usize = 0;
        while k + j < filled
            invariant
                k + j <= filled <= CHUNK_CAPACITY,
                data.len() == filled,
                self.pending == 0,
                forall|t: int| 0 <= t < j ==> self.buf@[t] == data[k + t],
                forall|t: int| k + j <= t < filled ==> self.buf@[t] == data[t],
            decreases filled - k - j,
        {
            self.buf[j] = self.buf[k + j];
            j += 1;
        }
        self.pending = filled - k;
        assert(self@ =~= remainder_of(data));
        text
    }

    /// Ends the stream. Bytes still carried have not become text; they are
    /// dropped, and their count is returned.
    pub fn finish(self) -> (dropped: usize)
        ensures
            dropped == self@.len(),
    {
        proof {
            use_type_invariant(&self);
        }
        self.pending
    }
}

/// All bytes of `chunks`, in order.
pub open spec fn joined(chunks: Seq<Seq<u8>>) -> Seq<u8>
    decreases chunks.len(),
{
    if chunks.len() == 0 {
        Seq::empty()
    } else {
        joined(chunks.drop_last()) + chunks.last()
    }
}

/// What a cursor carries once it has been fed `chunks` in order, having
/// carried `carried` before.
pub open spec fn carried_after(carried: Seq<u8>, chunks: Seq<Seq<u8>>) -> Seq<u8>
    decreases chunks.len(),
{
    if chunks.len() == 0 {
        carried
    } else {
        remainder_of(carried_after(carried, chunks.drop_last()) + chunks.last())
    }
}

/// All the text that a cursor returns while it is fed `chunks` in order,
/// having carried `carried` before.
pub open spec fn text_across(carried: Seq<u8>, chunks: Seq<Seq<u8>>) -> Seq<char>
    decreases chunks.len(),
{
    if chunks.len() == 0 {
        Seq::empty()
    } else {
        text_across(carried, chunks.drop_last()) + text_of(
            carried_after(carried, chunks.drop_last()) + chunks.last(),
        )
    }
}

/// Where the reads cut the stream does not show: fed to a fresh cursor in any
/// number of chunks of any sizes, a byte stream yields the text of its
/// longest well-formed prefix, and the cursor is left carrying the rest.
pub proof fn lemma_chunking_is_invisible(chunks: Seq<Seq<u8>>)
    ensures
        text_across(Seq::empty(), chunks) == text_of(joined(chunks)),
        carried_after(Seq::empty(), chunks) == remainder_of(joined(chunks)),
    decreases chunks.len(),
{
    let nothing = Seq::<u8>::empty();
    if chunks.len() == 0 {
        assert(valid_utf8(nothing));
        assert(nothing.subrange(0, 0) =~= nothing);
        assert(text_of(nothing) =~= Seq::<char>::empty());
        assert(remainder_of(nothing) =~= nothing);
    } else {
        lemma_chunking_is_invisible(chunks.drop_last());
        lemma_text_concat(joined(chunks.drop_last()), chunks.last());
    }
}

/// As long as the stream can still be completed to well-formed text, what a
/// cursor carries between reads is one character cut short: fewer bytes than
/// a character can occupy.
pub proof fn lemma_carried_is_partial_unit(chunks: Seq<Seq<u8>>, rest: Seq<u8>)
    requires
        valid_utf8(joined(chunks) + rest),
    ensures
        carried_after(Seq::empty(), chunks).len() < MAX_UNIT_LEN,
{
    lemma_chunking_is_invisible(chunks);
    lemma_remainder_is_partial_unit(joined(chunks), rest);
}

/// Well-formed text cut in two at any byte offset, and fed to a fresh cursor
/// as two reads, comes out as the text of the whole; nothing is left carried.
pub proof fn lemma_split_is_invisible(body: Seq<u8>, at: int)
    requires
        valid_utf8(body),
        0 <= at <= body.len(),
    ensures
        ({
            let first = body.subrange(0, at);
            let second = body.subrange(at, body.len() as int);
            &&& text_of(first) + text_of(remainder_of(first) + second) == decode_utf8(body)
            &&& remainder_of(remainder_of(first) + second) == Seq::<u8>::empty()
        }),
{
    let first = body.subrange(0, at);
    let second = body.subrange(at, body.len() as int);
    assert(first + second =~= body);
    lemma_text_concat(first, second);
    assert(valid_up_to(body) == body.len());
    assert(body.subrange(0, body.len() as int) =~= body);
    assert(remainder_of(body) =~= Seq::<u8>::empty());
}

} // verus!
