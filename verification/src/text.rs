//! Text held by a byte sequence whose end may cut a multi-byte character.
//!
//! A response body arrives in chunks, and a chunk may end in the middle of a
//! character. This module says how much of a byte sequence is text
//! ([`valid_up_to`]), what that text is ([`text_of`]) and which bytes are left
//! over ([`remainder_of`]), and proves that these compose over concatenation.

use vstd::prelude::*;
use vstd::slice::slice_subrange;
use vstd::string::StringSliceAdditionalSpecFns;
use vstd::utf8::*;

verus! {

/// Largest number of bytes a single character occupies.
pub const MAX_UNIT_LEN: usize = 4;

/// Length of the longest prefix of `bytes` that is well-formed text.
pub open spec fn valid_up_to(bytes: Seq<u8>) -> nat
    decreases bytes.len(),
{
    if valid_utf8(bytes) {
        bytes.len()
    } else {
        valid_up_to(bytes.drop_last())
    }
}

/// The characters of the longest well-formed prefix of `bytes`.
pub open spec fn text_of(bytes: Seq<u8>) -> Seq<char> {
    decode_utf8(bytes.subrange(0, valid_up_to(bytes) as int))
}

/// The bytes of `bytes` that follow its longest well-formed prefix.
pub open spec fn remainder_of(bytes: Seq<u8>) -> Seq<u8> {
    bytes.subrange(valid_up_to(bytes) as int, bytes.len() as int)
}

/// `k` bytes of `bytes` are well-formed text and no longer prefix is.
pub open spec fn is_longest_valid_prefix(bytes: Seq<u8>, k: int) -> bool {
    &&& 0 <= k <= bytes.len()
    &&& valid_utf8(bytes.subrange(0, k))
    &&& forall|j: int| k < j <= bytes.len() ==> !valid_utf8(#[trigger] bytes.subrange(0, j))
}

/// Calls `core::str::from_utf8` and, where it refuses the bytes, reads
/// `Utf8Error::valid_up_to` off the error.
///
/// Trusted, as std documents the two: the call succeeds exactly on well-formed
/// UTF-8 and then hands back a string slice over the same bytes; on failure
/// the error's offset is the greatest length whose prefix would have been
/// accepted.
#[verifier::external_body]
fn parse_utf8(bytes: &[u8]) -> (parsed: Result<&str, usize>)
    ensures
        parsed matches Ok(text) ==> valid_utf8(bytes@) && text.spec_bytes() == bytes@,
        parsed matches Err(k) ==> !valid_utf8(bytes@) && is_longest_valid_prefix(
            bytes@,
            k as int,
        ),
{
    match core::str::from_utf8(bytes) {
        Ok(text) => Ok(text),
        Err(refusal) => Err(refusal.valid_up_to()),
    }
}

/// Decodes the longest well-formed prefix of `bytes` and reports its length.
pub fn decode_prefix(bytes: &[u8]) -> (out: (String, usize))
    ensures
        out.0@ == text_of(bytes@),
        out.1 == valid_up_to(bytes@),
        out.1 <= bytes@.len(),
{
    match parse_utf8(bytes) {
        Ok(text) => {
            proof {
                assert(bytes@.subrange(0, bytes@.len() as int) =~= bytes@);
                encode_utf8_decode_utf8(text@);
            }
            (text.to_owned(), bytes.len())
        },
        Err(k) => {
            proof {
                lemma_longest_valid_prefix_unique(bytes@, k as int);
            }
            match parse_utf8(slice_subrange(bytes, 0, k)) {
                Ok(text) => {
                    proof {
                        encode_utf8_decode_utf8(text@);
                    }
                    (text.to_owned(), k)
                },
                Err(_) => {
                    // Not reached: this prefix is the one that was accepted.
                    assert(false);
                    (String::new(), k)
                },
            }
        },
    }
}

/// [`valid_up_to`] is the length of the longest well-formed prefix.
pub proof fn lemma_valid_up_to_is_longest(bytes: Seq<u8>)
    ensures
        is_longest_valid_prefix(bytes, valid_up_to(bytes) as int),
    decreases bytes.len(),
{
    if valid_utf8(bytes) {
        assert(bytes.subrange(0, bytes.len() as int) =~= bytes);
    } else {
        let shorter = bytes.drop_last();
        lemma_valid_up_to_is_longest(shorter);
        let k = valid_up_to(bytes) as int;
        assert(shorter.subrange(0, k) =~= bytes.subrange(0, k));
        assert forall|j: int| k < j <= bytes.len() implies !valid_utf8(
            #[trigger] bytes.subrange(0, j),
        ) by {
            if j == bytes.len() {
                assert(bytes.subrange(0, j) =~= bytes);
            } else {
                assert(shorter.subrange(0, j) =~= bytes.subrange(0, j));
            }
        }
    }
}

/// Only one length is that of the longest well-formed prefix.
pub proof fn lemma_longest_valid_prefix_unique(bytes: Seq<u8>, k: int)
    requires
        is_longest_valid_prefix(bytes, k),
    ensures
        k == valid_up_to(bytes),
{
    lemma_valid_up_to_is_longest(bytes);
}

/// Well-formed text followed by bytes that make the whole well-formed leaves
/// those bytes well-formed on their own.
pub proof fn lemma_valid_suffix(head: Seq<u8>, tail: Seq<u8>)
    requires
        valid_utf8(head),
        valid_utf8(head + tail),
    ensures
        valid_utf8(tail),
{
    let whole = head + tail;
    assert(whole.subrange(0, head.len() as int) =~= head);
    assert(whole.subrange(head.len() as int, whole.len() as int) =~= tail);
    if !valid_utf8(tail) {
        partial_valid_partial_invalid_utf8(whole, head.len() as int);
    }
}

/// Decoding two well-formed pieces one after the other gives the text of
/// their concatenation.
pub proof fn lemma_decode_concat(head: Seq<u8>, tail: Seq<u8>)
    requires
        valid_utf8(head),
        valid_utf8(tail),
    ensures
        valid_utf8(head + tail),
        decode_utf8(head + tail) == decode_utf8(head) + decode_utf8(tail),
    decreases head.len(),
{
    valid_utf8_concat(head, tail);
    if head.len() == 0 {
        assert(head + tail =~= tail);
        assert(decode_utf8(head) + decode_utf8(tail) =~= decode_utf8(tail));
    } else {
        let rest = pop_first_scalar(head);
        assert(pop_first_scalar(head + tail) =~= rest + tail);
        lemma_decode_concat(rest, tail);
        assert(decode_utf8(head + tail) =~= decode_utf8(head) + decode_utf8(tail));
    }
}

/// The longest well-formed prefix of a concatenation is found by continuing
/// from what the first part left over.
pub proof fn lemma_valid_up_to_concat(first: Seq<u8>, second: Seq<u8>)
    ensures
        valid_up_to(first + second) == valid_up_to(first) + valid_up_to(
            remainder_of(first) + second,
        ),
{
    let whole = first + second;
    let k = valid_up_to(first) as int;
    let head = first.subrange(0, k);
    let rest = remainder_of(first) + second;
    let m = valid_up_to(rest) as int;
    lemma_valid_up_to_is_longest(first);
    lemma_valid_up_to_is_longest(rest);
    assert(whole =~= head + rest);
    assert(whole.subrange(0, k + m) =~= head + rest.subrange(0, m));
    valid_utf8_concat(head, rest.subrange(0, m));
    assert forall|j: int| k + m < j <= whole.len() implies !valid_utf8(
        #[trigger] whole.subrange(0, j),
    ) by {
        assert(whole.subrange(0, j) =~= head + rest.subrange(0, j - k));
        if valid_utf8(whole.subrange(0, j)) {
            lemma_valid_suffix(head, rest.subrange(0, j - k));
        }
    }
    lemma_longest_valid_prefix_unique(whole, k + m);
}

/// Text and leftover bytes of a concatenation, from those of its parts.
pub proof fn lemma_text_concat(first: Seq<u8>, second: Seq<u8>)
    ensures
        text_of(first + second) == text_of(first) + text_of(remainder_of(first) + second),
        remainder_of(first + second) == remainder_of(remainder_of(first) + second),
{
    let whole = first + second;
    let k = valid_up_to(first) as int;
    let head = first.subrange(0, k);
    let rest = remainder_of(first) + second;
    let m = valid_up_to(rest) as int;
    lemma_valid_up_to_is_longest(first);
    lemma_valid_up_to_is_longest(rest);
    lemma_valid_up_to_concat(first, second);
    assert(whole =~= head + rest);
    assert(whole.subrange(0, k + m) =~= head + rest.subrange(0, m));
    lemma_decode_concat(head, rest.subrange(0, m));
    assert(whole.subrange(k + m, whole.len() as int) =~= rest.subrange(m, rest.len() as int));
}

/// What is left over holds no text at its start.
pub proof fn lemma_remainder_has_no_text(bytes: Seq<u8>)
    ensures
        valid_up_to(remainder_of(bytes)) == 0,
        text_of(remainder_of(bytes)) == Seq::<char>::empty(),
{
    let empty = Seq::<u8>::empty();
    assert(bytes + empty =~= bytes);
    assert(remainder_of(bytes) + empty =~= remainder_of(bytes));
    lemma_valid_up_to_concat(bytes, empty);
    assert(remainder_of(bytes).subrange(0, 0) =~= empty);
    assert(decode_utf8(empty) =~= Seq::<char>::empty());
}

/// While the bytes seen so far can still be completed to well-formed text,
/// what is left over is a character cut short: fewer bytes than a character
/// can occupy.
pub proof fn lemma_remainder_is_partial_unit(bytes: Seq<u8>, rest: Seq<u8>)
    requires
        valid_utf8(bytes + rest),
    ensures
        remainder_of(bytes).len() < MAX_UNIT_LEN,
{
    let whole = bytes + rest;
    let k = valid_up_to(bytes) as int;
    let head = bytes.subrange(0, k);
    let tail = remainder_of(bytes) + rest;
    lemma_valid_up_to_is_longest(bytes);
    assert(whole =~= head + tail);
    lemma_valid_suffix(head, tail);
    if k < bytes.len() {
        let unit = length_of_first_scalar(tail);
        assert(valid_first_scalar(tail));
        if k + unit <= bytes.len() {
            reveal_with_fuel(valid_utf8, 2);
            let first = take_first_scalar(tail);
            assert(valid_first_scalar(first));
            assert(pop_first_scalar(first) =~= Seq::<u8>::empty());
            assert(valid_utf8(first));
            valid_utf8_concat(head, first);
            assert(bytes.subrange(0, k + unit) =~= head + first);
            assert(false);
        }
    }
}

} // verus!
