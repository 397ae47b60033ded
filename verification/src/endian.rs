//! Words of 32 bits and the bytes they are made of, the least significant
//! byte first.

use vstd::prelude::*;
use vstd::slice::slice_subrange;

verus! {

/// Byte `r` of a word of 32 bits, counted from the least significant.
pub open spec fn word_byte(w: u32, r: u64) -> u8 {
    ((w >> (8 * r) as u32) & 0xff) as u8
}

/// The four bytes of a word, the least significant first.
pub open spec fn word_bytes(w: u32) -> Seq<u8> {
    Seq::new(4, |r: int| word_byte(w, r as u64))
}

/// The bytes of a sequence of words, word after word.
pub open spec fn words_bytes(v: Seq<u32>) -> Seq<u8> {
    Seq::new(4 * v.len(), |i: int| word_byte(v[i / 4], (i % 4) as u64))
}

/// The word with the given bytes, the least significant first.
pub open spec fn word_of(b0: u8, b1: u8, b2: u8, b3: u8) -> u32 {
    (b0 as u32) | ((b1 as u32) << 8) | ((b2 as u32) << 16) | ((b3 as u32) << 24)
}

/// A word is made of its four bytes, and has no others.
pub proof fn lemma_word_of(b0: u8, b1: u8, b2: u8, b3: u8)
    by (bit_vector)
    ensures
        word_byte(word_of(b0, b1, b2, b3), 0) == b0,
        word_byte(word_of(b0, b1, b2, b3), 1) == b1,
        word_byte(word_of(b0, b1, b2, b3), 2) == b2,
        word_byte(word_of(b0, b1, b2, b3), 3) == b3,
{
}

/// Two words with the same four bytes are the same word.
pub proof fn lemma_word_ext(a: u32, b: u32)
    by (bit_vector)
    requires
        word_byte(a, 0) == word_byte(b, 0),
        word_byte(a, 1) == word_byte(b, 1),
        word_byte(a, 2) == word_byte(b, 2),
        word_byte(a, 3) == word_byte(b, 3),
    ensures
        a == b,
{
}

/// Reads a word from the first four bytes of `src`.
pub fn decode_u32_le(src: &[u8]) -> (r: u32)
    requires
        src.len() >= 4,
    ensures
        r == word_of(src[0], src[1], src[2], src[3]),
        word_bytes(r) == src@.subrange(0, 4),
{
    let r = (src[0] as u32) | ((src[1] as u32) << 8) | ((src[2] as u32) << 16) | ((src[3] as u32) << 24);
    proof {
        lemma_word_of(src[0], src[1], src[2], src[3]);
        assert(word_bytes(r) =~= src@.subrange(0, 4));
    }
    r
}

/// Reads one word from every four whole bytes of `src` into the front of
/// `v`.
pub fn decode_u32_range_le(v: &mut [u32], src: &[u8])
    requires
        old(v).len() >= src.len() / 4,
    ensures
        final(v).len() == old(v).len(),
        forall|i: int| 0 <= i < src.len() / 4 ==> word_bytes(#[trigger] final(v)[i]) == src@.subrange(4 * i, 4 * i + 4),
        forall|i: int| src.len() / 4 <= i < old(v).len() ==> final(v)[i] == old(v)[i],
{
    let ghost v0 = v@;
    let n = src.len() / 4;
    let mut i: usize = 0;
    while i < n
        invariant
            i <= n,
            n == src.len() / 4,
            v.len() == v0.len(),
            v0.len() >= n,
            forall|j: int| 0 <= j < i ==> word_bytes(#[trigger] v[j]) == src@.subrange(4 * j, 4 * j + 4),
            forall|j: int| i <= j < v0.len() ==> v[j] == v0[j],
        decreases n - i,
    {
        let chunk = slice_subrange(src, 4 * i, 4 * i + 4);
        let w = decode_u32_le(chunk);
        proof {
            assert(chunk@.subrange(0, 4) =~= src@.subrange(4 * i, 4 * i + 4));
        }
        v[i] = w;
        i += 1;
    }
}

/// Writes a word into the four bytes of `dst`.
pub fn encode_u32_le(dst: &mut [u8], value: u32)
    requires
        old(dst).len() == 4,
    ensures
        final(dst)@ == word_bytes(value),
{
    dst[0] = #[verifier::truncate] (value as u8);
    dst[1] = #[verifier::truncate] ((value >> 8) as u8);
    dst[2] = #[verifier::truncate] ((value >> 16) as u8);
    dst[3] = #[verifier::truncate] ((value >> 24) as u8);
    proof {
        assert(value as u8 == word_byte(value, 0) && (value >> 8) as u8 == word_byte(value, 1) && (value >> 16) as u8
            == word_byte(value, 2) && (value >> 24) as u8 == word_byte(value, 3)) by (bit_vector);
        assert(dst@ =~= word_bytes(value));
    }
}

/// Writes the words of `v` into the front of `dst`, four bytes each.
pub fn encode_u32_range_le(dst: &mut [u8], v: &[u32])
    requires
        old(dst).len() >= 4 * v.len(),
    ensures
        final(dst)@ == words_bytes(v@) + old(dst)@.subrange(4 * v.len(), old(dst).len() as int),
{
    let ghost orig = dst@;
    let ghost fin = final(dst)@;
    let n = v.len();
    let mut rest: &mut [u8] = dst;
    let mut i: usize = 0;
    while i < n
        invariant
            i <= n,
            n == v.len(),
            orig.len() >= 4 * n,
            rest.len() == orig.len() - 4 * i,
            rest@ == orig.subrange(4 * i as int, orig.len() as int),
            fin == words_bytes(v@.subrange(0, i as int)) + final(rest)@,
        decreases n - i,
    {
        let (chunk, tail) = rest.split_at_mut(4);
        encode_u32_le(chunk, v[i]);
        rest = tail;
        proof {
            assert(rest@ =~= orig.subrange(4 * (i + 1) as int, orig.len() as int));
            assert(words_bytes(v@.subrange(0, i + 1)) =~= words_bytes(v@.subrange(0, i as int)) + word_bytes(
                v[i as int],
            ));
        }
        i += 1;
    }
    proof {
        assert(v@.subrange(0, n as int) =~= v@);
        assert(words_bytes(v@.subrange(0, 0)) =~= Seq::<u8>::empty());
    }
}

/// The word with its four bytes in the opposite order.
pub open spec fn swapped(x: u32) -> u32 {
    (x >> 24) | ((x >> 8) & 0xff00) | ((x << 8) & 0xff0000) | (x << 24)
}

/// Swapping moves byte `r` to place `3 - r`, and swapping twice changes
/// nothing.
pub proof fn lemma_swapped(x: u32)
    by (bit_vector)
    ensures
        word_byte(swapped(x), 0) == word_byte(x, 3),
        word_byte(swapped(x), 1) == word_byte(x, 2),
        word_byte(swapped(x), 2) == word_byte(x, 1),
        word_byte(swapped(x), 3) == word_byte(x, 0),
        swapped(swapped(x)) == x,
{
}

/// The word with its four bytes in the opposite order.
pub fn swap_bytes_32(x: u32) -> (r: u32)
    ensures
        r == swapped(x),
        word_byte(r, 0) == word_byte(x, 3),
        word_byte(r, 1) == word_byte(x, 2),
        word_byte(r, 2) == word_byte(x, 1),
        word_byte(r, 3) == word_byte(x, 0),
{
    proof {
        lemma_swapped(x);
    }
    (x >> 24) | ((x >> 8) & 0xff00) | ((x << 8) & 0xff0000) | (x << 24)
}

} // verus!
