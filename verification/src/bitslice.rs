//! The bit-plane layout and the transposes that lead into it and out of it.
//!
//! Eight words of 64 bits hold four AES states.  Bit `p` of plane `i` is bit
//! `i` of one byte, and the byte at position `p = 16 * r + 4 * c + b` is the
//! one in row `r`, column `c` of block `b`.

use vstd::prelude::*;
use crate::endian::{lemma_word_ext, word_byte, words_bytes};

verus! {

/// Bit `p` of a plane, as 0 or 1.
pub open spec fn lane(x: u64, p: u64) -> u64 {
    (x >> p) & 1
}

/// The byte with the given bits, the least significant first.
pub open spec fn pack8(b0: u64, b1: u64, b2: u64, b3: u64, b4: u64, b5: u64, b6: u64, b7: u64) -> u8 {
    (b0 | (b1 << 1) | (b2 << 2) | (b3 << 3) | (b4 << 4) | (b5 << 5) | (b6 << 6) | (b7 << 7)) as u8
}

/// The byte that the first eight words of `q` hold at position `p`: its bit
/// `i` is bit `p` of plane `i`.
pub open spec fn lane_byte(q: Seq<u64>, p: u64) -> u8 {
    pack8(
        lane(q[0], p),
        lane(q[1], p),
        lane(q[2], p),
        lane(q[3], p),
        lane(q[4], p),
        lane(q[5], p),
        lane(q[6], p),
        lane(q[7], p),
    )
}

/// Byte `j` of a word of 64 bits, counted from the least significant.
pub open spec fn row_byte(x: u64, j: u64) -> u8 {
    ((x >> (8 * j) as u64) & 0xff) as u8
}

/// The position of byte `k` of block `b` in the planes.
pub open spec fn lane_of(b: int, k: int) -> u64 {
    (16 * (k % 4) + 4 * (k / 4) + b) as u64
}

/// The state of block `b`, `0 <= b < 4`, that eight planes hold.
pub open spec fn block_state(q: Seq<u64>, b: int) -> Seq<u8> {
    Seq::new(16, |k: int| lane_byte(q, lane_of(b, k)))
}

/// One of eight words, by its number.
pub open spec fn pick8(c: u64, q0: u64, q1: u64, q2: u64, q3: u64, q4: u64, q5: u64, q6: u64, q7: u64) -> u64 {
    if c == 0 {
        q0
    } else if c == 1 {
        q1
    } else if c == 2 {
        q2
    } else if c == 3 {
        q3
    } else if c == 4 {
        q4
    } else if c == 5 {
        q5
    } else if c == 6 {
        q6
    } else {
        q7
    }
}

/// Taking a bit out of a plane commutes with the operations of a Boolean
/// circuit on planes.
pub proof fn lemma_lane_gates()
    by (bit_vector)
    ensures
        forall|a: u64, b: u64, p: u64| p < 64 ==> #[trigger] lane(a ^ b, p) == lane(a, p) ^ lane(b, p),
        forall|a: u64, b: u64, p: u64| p < 64 ==> #[trigger] lane(a & b, p) == lane(a, p) & lane(b, p),
        forall|a: u64, p: u64| p < 64 ==> #[trigger] lane(!a, p) == lane(a, p) ^ 1,
        forall|a: u64, p: u64| p < 64 ==> #[trigger] lane(a, p) <= 1,
{
}

/// The low half of a masked swap: the masked bits of `x` stay, those of `y`
/// come in, moved up by `shift`.
pub open spec fn swap_lo(x: u64, y: u64, mask: u64, shift: u64) -> u64 {
    (x & mask) | ((y & mask) << shift)
}

/// The high half of a masked swap: the bits of `y` above the mask stay, those
/// of `x` come in, moved down by `shift`.
pub open spec fn swap_hi(x: u64, y: u64, mask: u64, shift: u64) -> u64 {
    ((x >> shift) & mask) | (y & (mask << shift))
}

/// Exchanges the bits of `x` above the mask with the masked bits of `y`:
/// returns the new `x` and leaves the new `y` in place.
pub fn swap_with_mask(x: u64, y: &mut u64, mask: u64, shift: usize) -> (r: u64)
    requires
        shift < 64,
    ensures
        r == swap_lo(x, *old(y), mask, shift as u64),
        *final(y) == swap_hi(x, *old(y), mask, shift as u64),
{
    let t = (x & mask) | ((*y & mask) << shift);
    *y = ((x >> shift) & mask) | (*y & (mask << shift));
    t
}

/// The masked swap under the name that the transpose uses.
pub fn swap_inplace(x: u64, y: &mut u64, mask: u64, shift: usize) -> (r: u64)
    requires
        shift < 64,
    ensures
        r == swap_lo(x, *old(y), mask, shift as u64),
        *final(y) == swap_hi(x, *old(y), mask, shift as u64),
{
    swap_with_mask(x, y, mask, shift)
}

/// Bit `c` of plane `i` of `t` is bit `i` of plane `c` of `q`, in the group
/// `j` of eight bits and for all `i`.  Read by bytes: the byte that `t` holds
/// at position `8 * j + c` is byte `j` of plane `c` of `q`, and the other way
/// round.
pub open spec fn transposed_at(q: Seq<u64>, t: Seq<u64>, c: u64, j: u64) -> bool {
    &&& lane_byte(t, (8 * j + c) as u64) == row_byte(q[c as int], j)
    &&& row_byte(t[c as int], j) == lane_byte(q, (8 * j + c) as u64)
}

/// Whether `t` is the transpose of `q`: each of the eight groups of eight
/// bits, taken as a matrix of eight by eight bits over the planes, is
/// transposed.
pub open spec fn is_transpose(q: Seq<u64>, t: Seq<u64>) -> bool {
    forall|c: u64, j: u64| c < 8 && j < 8 ==> #[trigger] transposed_at(q, t, c, j)
}

/// Transposes the eight planes in place, by three rounds of masked swaps.
pub fn ortho(q: &mut [u64])
    requires
        old(q).len() >= 8,
    ensures
        final(q).len() == old(q).len(),
        is_transpose(old(q)@, final(q)@),
        forall|i: int| 8 <= i < old(q).len() ==> final(q)[i] == old(q)[i],
{
    let a0 = q[0];
    let a1 = q[1];
    let a2 = q[2];
    let a3 = q[3];
    let a4 = q[4];
    let a5 = q[5];
    let a6 = q[6];
    let a7 = q[7];

    let mut b1 = a1;
    let b0 = swap_inplace(a0, &mut b1, 0x5555555555555555, 1);
    let mut b3 = a3;
    let b2 = swap_inplace(a2, &mut b3, 0x5555555555555555, 1);
    let mut b5 = a5;
    let b4 = swap_inplace(a4, &mut b5, 0x5555555555555555, 1);
    let mut b7 = a7;
    let b6 = swap_inplace(a6, &mut b7, 0x5555555555555555, 1);

    let mut c2 = b2;
    let c0 = swap_inplace(b0, &mut c2, 0x3333333333333333, 2);
    let mut c3 = b3;
    let c1 = swap_inplace(b1, &mut c3, 0x3333333333333333, 2);
    let mut c6 = b6;
    let c4 = swap_inplace(b4, &mut c6, 0x3333333333333333, 2);
    let mut c7 = b7;
    let c5 = swap_inplace(b5, &mut c7, 0x3333333333333333, 2);

    let mut d4 = c4;
    let d0 = swap_inplace(c0, &mut d4, 0x0F0F0F0F0F0F0F0F, 4);
    let mut d5 = c5;
    let d1 = swap_inplace(c1, &mut d5, 0x0F0F0F0F0F0F0F0F, 4);
    let mut d6 = c6;
    let d2 = swap_inplace(c2, &mut d6, 0x0F0F0F0F0F0F0F0F, 4);
    let mut d7 = c7;
    let d3 = swap_inplace(c3, &mut d7, 0x0F0F0F0F0F0F0F0F, 4);

    q[0] = d0;
    q[1] = d1;
    q[2] = d2;
    q[3] = d3;
    q[4] = d4;
    q[5] = d5;
    q[6] = d6;
    q[7] = d7;

    proof {
        assert forall|c: u64, j: u64| c < 8 && j < 8 implies #[trigger] transposed_at(
            old(q)@,
            q@,
            c,
            j,
        ) by {
            let p = (8 * j + c) as u64;
            let ac = pick8(c, a0, a1, a2, a3, a4, a5, a6, a7);
            let dc = pick8(c, d0, d1, d2, d3, d4, d5, d6, d7);
            assert(ac == old(q)[c as int]);
            assert(dc == q[c as int]);
            assert(pack8(
                lane(d0, p),
                lane(d1, p),
                lane(d2, p),
                lane(d3, p),
                lane(d4, p),
                lane(d5, p),
                lane(d6, p),
                lane(d7, p),
            ) == row_byte(ac, j) && row_byte(dc, j) == pack8(
                lane(a0, p),
                lane(a1, p),
                lane(a2, p),
                lane(a3, p),
                lane(a4, p),
                lane(a5, p),
                lane(a6, p),
                lane(a7, p),
            )) by (bit_vector)
                requires
                    c < 8,
                    j < 8,
                    p == 8 * j + c,
                    ac == pick8(c, a0, a1, a2, a3, a4, a5, a6, a7),
                    dc == pick8(c, d0, d1, d2, d3, d4, d5, d6, d7),
                    b0 == swap_lo(a0, a1, 0x5555555555555555, 1),
                    b1 == swap_hi(a0, a1, 0x5555555555555555, 1),
                    b2 == swap_lo(a2, a3, 0x5555555555555555, 1),
                    b3 == swap_hi(a2, a3, 0x5555555555555555, 1),
                    b4 == swap_lo(a4, a5, 0x5555555555555555, 1),
                    b5 == swap_hi(a4, a5, 0x5555555555555555, 1),
                    b6 == swap_lo(a6, a7, 0x5555555555555555, 1),
                    b7 == swap_hi(a6, a7, 0x5555555555555555, 1),
                    c0 == swap_lo(b0, b2, 0x3333333333333333, 2),
                    c2 == swap_hi(b0, b2, 0x3333333333333333, 2),
                    c1 == swap_lo(b1, b3, 0x3333333333333333, 2),
                    c3 == swap_hi(b1, b3, 0x3333333333333333, 2),
                    c4 == swap_lo(b4, b6, 0x3333333333333333, 2),
                    c6 == swap_hi(b4, b6, 0x3333333333333333, 2),
                    c5 == swap_lo(b5, b7, 0x3333333333333333, 2),
                    c7 == swap_hi(b5, b7, 0x3333333333333333, 2),
                    d0 == swap_lo(c0, c4, 0x0F0F0F0F0F0F0F0F, 4),
                    d4 == swap_hi(c0, c4, 0x0F0F0F0F0F0F0F0F, 4),
                    d1 == swap_lo(c1, c5, 0x0F0F0F0F0F0F0F0F, 4),
                    d5 == swap_hi(c1, c5, 0x0F0F0F0F0F0F0F0F, 4),
                    d2 == swap_lo(c2, c6, 0x0F0F0F0F0F0F0F0F, 4),
                    d6 == swap_hi(c2, c6, 0x0F0F0F0F0F0F0F0F, 4),
                    d3 == swap_lo(c3, c7, 0x0F0F0F0F0F0F0F0F, 4),
                    d7 == swap_hi(c3, c7, 0x0F0F0F0F0F0F0F0F, 4),
            ;
        }
    }
}

/// The four bytes of a word, each moved to an even byte of 64 bits.
pub open spec fn spread(w: u32) -> u64 {
    let x = w as u64;
    let y = (x | (x << 16)) & 0x0000FFFF0000FFFFu64;
    (y | (y << 8)) & 0x00FF00FF00FF00FFu64
}

/// The four even bytes of 64 bits, gathered into a word.
pub open spec fn gather(x: u64) -> u32 {
    let y = x & 0x00FF00FF00FF00FFu64;
    let z = (y | (y >> 8)) & 0x0000FFFF0000FFFFu64;
    (z | (z >> 16)) as u32
}

/// Byte `r` of each of the four words `w0 .. w3` is where the pair
/// `(q0, q1)` keeps it: `q0` has the bytes of `w0` and `w2` in turn, `q1`
/// those of `w1` and `w3`.
pub open spec fn interleaved_at(q0: u64, q1: u64, w0: u32, w1: u32, w2: u32, w3: u32, r: u64) -> bool {
    &&& word_byte(w0, r) == row_byte(q0, (2 * r) as u64)
    &&& word_byte(w2, r) == row_byte(q0, (2 * r + 1) as u64)
    &&& word_byte(w1, r) == row_byte(q1, (2 * r) as u64)
    &&& word_byte(w3, r) == row_byte(q1, (2 * r + 1) as u64)
}

/// Whether the pair `(q0, q1)` holds the four words `w0 .. w3` byte by byte.
pub open spec fn is_interleaved(q0: u64, q1: u64, w0: u32, w1: u32, w2: u32, w3: u32) -> bool {
    forall|r: u64| r < 4 ==> #[trigger] interleaved_at(q0, q1, w0, w1, w2, w3, r)
}

proof fn lemma_interleave(w0: u32, w1: u32, w2: u32, w3: u32, r: u64)
    by (bit_vector)
    requires
        r < 4,
    ensures
        interleaved_at(spread(w0) | (spread(w2) << 8), spread(w1) | (spread(w3) << 8), w0, w1, w2, w3, r),
{
}

proof fn lemma_deinterleave(q0: u64, q1: u64, r: u64)
    by (bit_vector)
    requires
        r < 4,
    ensures
        interleaved_at(q0, q1, gather(q0), gather(q1), gather(q0 >> 8), gather(q1 >> 8), r),
{
}

/// Packs four words into two planes.
pub fn interleave_in(q0: &mut u64, q1: &mut u64, w: &[u32])
    requires
        w.len() >= 4,
    ensures
        is_interleaved(*final(q0), *final(q1), w[0], w[1], w[2], w[3]),
{
    let mut x0 = w[0] as u64;
    let mut x1 = w[1] as u64;
    let mut x2 = w[2] as u64;
    let mut x3 = w[3] as u64;

    x0 |= x0 << 16;
    x1 |= x1 << 16;
    x2 |= x2 << 16;
    x3 |= x3 << 16;

    x0 &= 0x0000FFFF0000FFFFu64;
    x1 &= 0x0000FFFF0000FFFFu64;
    x2 &= 0x0000FFFF0000FFFFu64;
    x3 &= 0x0000FFFF0000FFFFu64;

    x0 |= x0 << 8;
    x1 |= x1 << 8;
    x2 |= x2 << 8;
    x3 |= x3 << 8;

    x0 &= 0x00FF00FF00FF00FFu64;
    x1 &= 0x00FF00FF00FF00FFu64;
    x2 &= 0x00FF00FF00FF00FFu64;
    x3 &= 0x00FF00FF00FF00FFu64;

    *q0 = x0 | (x2 << 8);
    *q1 = x1 | (x3 << 8);

    proof {
        assert forall|r: u64| r < 4 implies #[trigger] interleaved_at(*q0, *q1, w[0], w[1], w[2], w[3], r) by {
            lemma_interleave(w[0], w[1], w[2], w[3], r);
        }
    }
}

/// Unpacks two planes into four words.
pub fn interleave_out(w: &mut [u32], q0: u64, q1: u64)
    requires
        old(w).len() >= 4,
    ensures
        final(w).len() == old(w).len(),
        is_interleaved(q0, q1, final(w)[0], final(w)[1], final(w)[2], final(w)[3]),
        forall|i: int| 4 <= i < old(w).len() ==> final(w)[i] == old(w)[i],
{
    let mut x0 = q0 & 0x00FF00FF00FF00FFu64;
    let mut x1 = q1 & 0x00FF00FF00FF00FFu64;
    let mut x2 = (q0 >> 8) & 0x00FF00FF00FF00FFu64;
    let mut x3 = (q1 >> 8) & 0x00FF00FF00FF00FFu64;

    x0 |= x0 >> 8;
    x1 |= x1 >> 8;
    x2 |= x2 >> 8;
    x3 |= x3 >> 8;

    x0 &= 0x0000FFFF0000FFFFu64;
    x1 &= 0x0000FFFF0000FFFFu64;
    x2 &= 0x0000FFFF0000FFFFu64;
    x3 &= 0x0000FFFF0000FFFFu64;

    w[0] = #[verifier::truncate] ((x0 | (x0 >> 16)) as u32);
    w[1] = #[verifier::truncate] ((x1 | (x1 >> 16)) as u32);
    w[2] = #[verifier::truncate] ((x2 | (x2 >> 16)) as u32);
    w[3] = #[verifier::truncate] ((x3 | (x3 >> 16)) as u32);

    proof {
        assert forall|r: u64| r < 4 implies #[trigger] interleaved_at(q0, q1, w[0], w[1], w[2], w[3], r) by {
            lemma_deinterleave(q0, q1, r);
        }
    }
}

/// Whether the planes `x` hold, four words to a pair of planes, the sixteen
/// words `w`: block `b` in the planes `b` and `b + 4`.
pub open spec fn holds_words(x: Seq<u64>, w: Seq<u32>) -> bool {
    &&& x.len() == 8
    &&& w.len() == 16
    &&& forall|b: int|
        0 <= b < 4 ==> #[trigger] is_interleaved(x[b], x[b + 4], w[4 * b], w[4 * b + 1], w[4 * b + 2], w[4 * b + 3])
}

/// Whether byte `j` of plane `c` of `x` is the byte that `y` holds at
/// position `8 * j + c`, for all `c` and `j`: what a transpose gives, read in
/// one direction.
pub open spec fn rows_are_lanes(x: Seq<u64>, y: Seq<u64>) -> bool {
    forall|c: u64, j: u64| c < 8 && j < 8 ==> #[trigger] row_byte(x[c as int], j) == lane_byte(y, (8 * j + c) as u64)
}

/// A transpose relates the rows of one side to the positions of the other,
/// in both directions.
pub proof fn lemma_transpose_rows(q: Seq<u64>, t: Seq<u64>)
    requires
        is_transpose(q, t),
    ensures
        rows_are_lanes(q, t),
        rows_are_lanes(t, q),
{
    assert forall|c: u64, j: u64| c < 8 && j < 8 implies #[trigger] row_byte(q[c as int], j) == lane_byte(
        t,
        (8 * j + c) as u64,
    ) by {
        assert(transposed_at(q, t, c, j));
    }
    assert forall|c: u64, j: u64| c < 8 && j < 8 implies #[trigger] row_byte(t[c as int], j) == lane_byte(
        q,
        (8 * j + c) as u64,
    ) by {
        assert(transposed_at(q, t, c, j));
    }
}

/// Where the planes `x` hold the words `w` and their rows are the positions
/// of `y`, the state of block `b` in `y` is the bytes of the four words of
/// that block.
pub proof fn lemma_block_words(x: Seq<u64>, y: Seq<u64>, w: Seq<u32>, b: int)
    requires
        holds_words(x, w),
        rows_are_lanes(x, y),
        0 <= b < 4,
    ensures
        block_state(y, b) == words_bytes(w.subrange(4 * b, 4 * b + 4)),
{
    let ws = w.subrange(4 * b, 4 * b + 4);
    assert(is_interleaved(x[b], x[b + 4], w[4 * b], w[4 * b + 1], w[4 * b + 2], w[4 * b + 3]));
    assert forall|k: int| 0 <= k < 16 implies block_state(y, b)[k] == words_bytes(ws)[k] by {
        let col = k / 4;
        let r = (k % 4) as u64;
        assert(interleaved_at(x[b], x[b + 4], w[4 * b], w[4 * b + 1], w[4 * b + 2], w[4 * b + 3], r));
        let c = (4 * (col % 2) + b) as u64;
        let j = (2 * r + col / 2) as u64;
        assert(lane_of(b, k) == (8 * j + c) as u64);
        assert(row_byte(x[c as int], j) == lane_byte(y, (8 * j + c) as u64));
        assert(ws[col] == w[4 * b + col]);
    }
    assert(block_state(y, b) =~= words_bytes(ws));
}

/// Two words of 64 bits with the same eight bytes are the same word.
proof fn lemma_rows_ext(x: u64, y: u64)
    by (bit_vector)
    requires
        row_byte(x, 0) == row_byte(y, 0),
        row_byte(x, 1) == row_byte(y, 1),
        row_byte(x, 2) == row_byte(y, 2),
        row_byte(x, 3) == row_byte(y, 3),
        row_byte(x, 4) == row_byte(y, 4),
        row_byte(x, 5) == row_byte(y, 5),
        row_byte(x, 6) == row_byte(y, 6),
        row_byte(x, 7) == row_byte(y, 7),
    ensures
        x == y,
{
}

/// The transpose is its own inverse: the transpose `u` of a transpose `t`
/// of `q` has the eight planes of `q`.
pub proof fn lemma_ortho_involution(q: Seq<u64>, t: Seq<u64>, u: Seq<u64>)
    requires
        is_transpose(q, t),
        is_transpose(t, u),
    ensures
        forall|i: int| 0 <= i < 8 ==> u[i] == q[i],
{
    assert forall|i: int| 0 <= i < 8 implies u[i] == q[i] by {
        let c = i as u64;
        assert forall|j: u64| j < 8 implies row_byte(u[i], j) == row_byte(q[i], j) by {
            assert(transposed_at(q, t, c, j));
            assert(transposed_at(t, u, c, j));
        }
        assert(row_byte(u[i], 0) == row_byte(q[i], 0));
        assert(row_byte(u[i], 1) == row_byte(q[i], 1));
        assert(row_byte(u[i], 2) == row_byte(q[i], 2));
        assert(row_byte(u[i], 3) == row_byte(q[i], 3));
        assert(row_byte(u[i], 4) == row_byte(q[i], 4));
        assert(row_byte(u[i], 5) == row_byte(q[i], 5));
        assert(row_byte(u[i], 6) == row_byte(q[i], 6));
        assert(row_byte(u[i], 7) == row_byte(q[i], 7));
        lemma_rows_ext(u[i], q[i]);
    }
}

/// Unpacking undoes packing: the words that a pair of planes holds are the
/// only ones that it holds.
pub proof fn lemma_interleave_out_in(
    q0: u64,
    q1: u64,
    w0: u32,
    w1: u32,
    w2: u32,
    w3: u32,
    v0: u32,
    v1: u32,
    v2: u32,
    v3: u32,
)
    requires
        is_interleaved(q0, q1, w0, w1, w2, w3),
        is_interleaved(q0, q1, v0, v1, v2, v3),
    ensures
        w0 == v0,
        w1 == v1,
        w2 == v2,
        w3 == v3,
{
    assert(interleaved_at(q0, q1, w0, w1, w2, w3, 0) && interleaved_at(q0, q1, v0, v1, v2, v3, 0));
    assert(interleaved_at(q0, q1, w0, w1, w2, w3, 1) && interleaved_at(q0, q1, v0, v1, v2, v3, 1));
    assert(interleaved_at(q0, q1, w0, w1, w2, w3, 2) && interleaved_at(q0, q1, v0, v1, v2, v3, 2));
    assert(interleaved_at(q0, q1, w0, w1, w2, w3, 3) && interleaved_at(q0, q1, v0, v1, v2, v3, 3));
    lemma_word_ext(w0, v0);
    lemma_word_ext(w1, v1);
    lemma_word_ext(w2, v2);
    lemma_word_ext(w3, v3);
}

/// Packing undoes unpacking: the pair of planes that holds four words is
/// the only one that holds them.
pub proof fn lemma_interleave_in_out(q0: u64, q1: u64, r0: u64, r1: u64, w0: u32, w1: u32, w2: u32, w3: u32)
    requires
        is_interleaved(q0, q1, w0, w1, w2, w3),
        is_interleaved(r0, r1, w0, w1, w2, w3),
    ensures
        q0 == r0,
        q1 == r1,
{
    assert(interleaved_at(q0, q1, w0, w1, w2, w3, 0) && interleaved_at(r0, r1, w0, w1, w2, w3, 0));
    assert(interleaved_at(q0, q1, w0, w1, w2, w3, 1) && interleaved_at(r0, r1, w0, w1, w2, w3, 1));
    assert(interleaved_at(q0, q1, w0, w1, w2, w3, 2) && interleaved_at(r0, r1, w0, w1, w2, w3, 2));
    assert(interleaved_at(q0, q1, w0, w1, w2, w3, 3) && interleaved_at(r0, r1, w0, w1, w2, w3, 3));
    lemma_rows_ext(q0, r0);
    lemma_rows_ext(q1, r1);
}

/// Planes that hold the same bytes at the eight positions of group `j` have
/// the same byte `j`, each of them.
proof fn lemma_group_ext(
    a0: u64, a1: u64, a2: u64, a3: u64, a4: u64, a5: u64, a6: u64, a7: u64,
    b0: u64, b1: u64, b2: u64, b3: u64, b4: u64, b5: u64, b6: u64, b7: u64,
    j: u64,
)
    by (bit_vector)
    requires
        j < 8,
        pack8(
            lane(a0, (8 * j + 0) as u64), lane(a1, (8 * j + 0) as u64), lane(a2, (8 * j + 0) as u64), lane(a3, (8 * j + 0) as u64), lane(a4, (8 * j + 0) as u64), lane(a5, (8 * j + 0) as u64), lane(a6, (8 * j + 0) as u64), lane(a7, (8 * j + 0) as u64),
        ) == pack8(
            lane(b0, (8 * j + 0) as u64), lane(b1, (8 * j + 0) as u64), lane(b2, (8 * j + 0) as u64), lane(b3, (8 * j + 0) as u64), lane(b4, (8 * j + 0) as u64), lane(b5, (8 * j + 0) as u64), lane(b6, (8 * j + 0) as u64), lane(b7, (8 * j + 0) as u64),
        ),
        pack8(
            lane(a0, (8 * j + 1) as u64), lane(a1, (8 * j + 1) as u64), lane(a2, (8 * j + 1) as u64), lane(a3, (8 * j + 1) as u64), lane(a4, (8 * j + 1) as u64), lane(a5, (8 * j + 1) as u64), lane(a6, (8 * j + 1) as u64), lane(a7, (8 * j + 1) as u64),
        ) == pack8(
            lane(b0, (8 * j + 1) as u64), lane(b1, (8 * j + 1) as u64), lane(b2, (8 * j + 1) as u64), lane(b3, (8 * j + 1) as u64), lane(b4, (8 * j + 1) as u64), lane(b5, (8 * j + 1) as u64), lane(b6, (8 * j + 1) as u64), lane(b7, (8 * j + 1) as u64),
        ),
        pack8(
            lane(a0, (8 * j + 2) as u64), lane(a1, (8 * j + 2) as u64), lane(a2, (8 * j + 2) as u64), lane(a3, (8 * j + 2) as u64), lane(a4, (8 * j + 2) as u64), lane(a5, (8 * j + 2) as u64), lane(a6, (8 * j + 2) as u64), lane(a7, (8 * j + 2) as u64),
        ) == pack8(
            lane(b0, (8 * j + 2) as u64), lane(b1, (8 * j + 2) as u64), lane(b2, (8 * j + 2) as u64), lane(b3, (8 * j + 2) as u64), lane(b4, (8 * j + 2) as u64), lane(b5, (8 * j + 2) as u64), lane(b6, (8 * j + 2) as u64), lane(b7, (8 * j + 2) as u64),
        ),
        pack8(
            lane(a0, (8 * j + 3) as u64), lane(a1, (8 * j + 3) as u64), lane(a2, (8 * j + 3) as u64), lane(a3, (8 * j + 3) as u64), lane(a4, (8 * j + 3) as u64), lane(a5, (8 * j + 3) as u64), lane(a6, (8 * j + 3) as u64), lane(a7, (8 * j + 3) as u64),
        ) == pack8(
            lane(b0, (8 * j + 3) as u64), lane(b1, (8 * j + 3) as u64), lane(b2, (8 * j + 3) as u64), lane(b3, (8 * j + 3) as u64), lane(b4, (8 * j + 3) as u64), lane(b5, (8 * j + 3) as u64), lane(b6, (8 * j + 3) as u64), lane(b7, (8 * j + 3) as u64),
        ),
        pack8(
            lane(a0, (8 * j + 4) as u64), lane(a1, (8 * j + 4) as u64), lane(a2, (8 * j + 4) as u64), lane(a3, (8 * j + 4) as u64), lane(a4, (8 * j + 4) as u64), lane(a5, (8 * j + 4) as u64), lane(a6, (8 * j + 4) as u64), lane(a7, (8 * j + 4) as u64),
        ) == pack8(
            lane(b0, (8 * j + 4) as u64), lane(b1, (8 * j + 4) as u64), lane(b2, (8 * j + 4) as u64), lane(b3, (8 * j + 4) as u64), lane(b4, (8 * j + 4) as u64), lane(b5, (8 * j + 4) as u64), lane(b6, (8 * j + 4) as u64), lane(b7, (8 * j + 4) as u64),
        ),
        pack8(
            lane(a0, (8 * j + 5) as u64), lane(a1, (8 * j + 5) as u64), lane(a2, (8 * j + 5) as u64), lane(a3, (8 * j + 5) as u64), lane(a4, (8 * j + 5) as u64), lane(a5, (8 * j + 5) as u64), lane(a6, (8 * j + 5) as u64), lane(a7, (8 * j + 5) as u64),
        ) == pack8(
            lane(b0, (8 * j + 5) as u64), lane(b1, (8 * j + 5) as u64), lane(b2, (8 * j + 5) as u64), lane(b3, (8 * j + 5) as u64), lane(b4, (8 * j + 5) as u64), lane(b5, (8 * j + 5) as u64), lane(b6, (8 * j + 5) as u64), lane(b7, (8 * j + 5) as u64),
        ),
        pack8(
            lane(a0, (8 * j + 6) as u64), lane(a1, (8 * j + 6) as u64), lane(a2, (8 * j + 6) as u64), lane(a3, (8 * j + 6) as u64), lane(a4, (8 * j + 6) as u64), lane(a5, (8 * j + 6) as u64), lane(a6, (8 * j + 6) as u64), lane(a7, (8 * j + 6) as u64),
        ) == pack8(
            lane(b0, (8 * j + 6) as u64), lane(b1, (8 * j + 6) as u64), lane(b2, (8 * j + 6) as u64), lane(b3, (8 * j + 6) as u64), lane(b4, (8 * j + 6) as u64), lane(b5, (8 * j + 6) as u64), lane(b6, (8 * j + 6) as u64), lane(b7, (8 * j + 6) as u64),
        ),
        pack8(
            lane(a0, (8 * j + 7) as u64), lane(a1, (8 * j + 7) as u64), lane(a2, (8 * j + 7) as u64), lane(a3, (8 * j + 7) as u64), lane(a4, (8 * j + 7) as u64), lane(a5, (8 * j + 7) as u64), lane(a6, (8 * j + 7) as u64), lane(a7, (8 * j + 7) as u64),
        ) == pack8(
            lane(b0, (8 * j + 7) as u64), lane(b1, (8 * j + 7) as u64), lane(b2, (8 * j + 7) as u64), lane(b3, (8 * j + 7) as u64), lane(b4, (8 * j + 7) as u64), lane(b5, (8 * j + 7) as u64), lane(b6, (8 * j + 7) as u64), lane(b7, (8 * j + 7) as u64),
        ),
    ensures
        row_byte(a0, j) == row_byte(b0, j),
        row_byte(a1, j) == row_byte(b1, j),
        row_byte(a2, j) == row_byte(b2, j),
        row_byte(a3, j) == row_byte(b3, j),
        row_byte(a4, j) == row_byte(b4, j),
        row_byte(a5, j) == row_byte(b5, j),
        row_byte(a6, j) == row_byte(b6, j),
        row_byte(a7, j) == row_byte(b7, j),
{
}

/// Whether the planes of `a` and those of `b` have the same byte `j`.
pub open spec fn same_rows_at(a: Seq<u64>, b: Seq<u64>, j: u64) -> bool {
    &&& row_byte(a[0], j) == row_byte(b[0], j)
    &&& row_byte(a[1], j) == row_byte(b[1], j)
    &&& row_byte(a[2], j) == row_byte(b[2], j)
    &&& row_byte(a[3], j) == row_byte(b[3], j)
    &&& row_byte(a[4], j) == row_byte(b[4], j)
    &&& row_byte(a[5], j) == row_byte(b[5], j)
    &&& row_byte(a[6], j) == row_byte(b[6], j)
    &&& row_byte(a[7], j) == row_byte(b[7], j)
}

/// Eight planes are known by the 64 bytes that they hold.
pub proof fn lemma_planes_ext(a: Seq<u64>, b: Seq<u64>)
    requires
        forall|p: u64| p < 64 ==> #[trigger] lane_byte(a, p) == lane_byte(b, p),
    ensures
        forall|i: int| 0 <= i < 8 ==> a[i] == b[i],
{
    assert forall|j: u64| j < 8 implies #[trigger] same_rows_at(a, b, j) by {
        assert(lane_byte(a, (8 * j + 0) as u64) == lane_byte(b, (8 * j + 0) as u64));
        assert(lane_byte(a, (8 * j + 1) as u64) == lane_byte(b, (8 * j + 1) as u64));
        assert(lane_byte(a, (8 * j + 2) as u64) == lane_byte(b, (8 * j + 2) as u64));
        assert(lane_byte(a, (8 * j + 3) as u64) == lane_byte(b, (8 * j + 3) as u64));
        assert(lane_byte(a, (8 * j + 4) as u64) == lane_byte(b, (8 * j + 4) as u64));
        assert(lane_byte(a, (8 * j + 5) as u64) == lane_byte(b, (8 * j + 5) as u64));
        assert(lane_byte(a, (8 * j + 6) as u64) == lane_byte(b, (8 * j + 6) as u64));
        assert(lane_byte(a, (8 * j + 7) as u64) == lane_byte(b, (8 * j + 7) as u64));
        lemma_group_ext(
            a[0], a[1], a[2], a[3], a[4], a[5], a[6], a[7],
            b[0], b[1], b[2], b[3], b[4], b[5], b[6], b[7],
            j,
        );
    }
    assert(same_rows_at(a, b, 0) && same_rows_at(a, b, 1) && same_rows_at(a, b, 2) && same_rows_at(a, b, 3));
    assert(same_rows_at(a, b, 4) && same_rows_at(a, b, 5) && same_rows_at(a, b, 6) && same_rows_at(a, b, 7));
    assert forall|i: int| 0 <= i < 8 implies a[i] == b[i] by {
        lemma_rows_ext(a[i], b[i]);
    }
}

} // verus!
