//! The three linear steps of a round, on bit planes: AddRoundKey, ShiftRows
//! and MixColumns.  Each works on the four blocks at once.

use vstd::prelude::*;
use crate::bitslice::{block_state, lane, lane_byte, lane_of, lemma_lane_gates, pack8};
use crate::gf256::{gf_mul, lemma_mul_by_two_and_three, xtime};

verus! {

/// The pack of the bitwise sums is the sum of the packs.
proof fn lemma_pack8_xor(
    a0: u64,
    a1: u64,
    a2: u64,
    a3: u64,
    a4: u64,
    a5: u64,
    a6: u64,
    a7: u64,
    k0: u64,
    k1: u64,
    k2: u64,
    k3: u64,
    k4: u64,
    k5: u64,
    k6: u64,
    k7: u64,
)
    by (bit_vector)
    requires
        a0 <= 1,
        a1 <= 1,
        a2 <= 1,
        a3 <= 1,
        a4 <= 1,
        a5 <= 1,
        a6 <= 1,
        a7 <= 1,
        k0 <= 1,
        k1 <= 1,
        k2 <= 1,
        k3 <= 1,
        k4 <= 1,
        k5 <= 1,
        k6 <= 1,
        k7 <= 1,
    ensures
        pack8(a0 ^ k0, a1 ^ k1, a2 ^ k2, a3 ^ k3, a4 ^ k4, a5 ^ k5, a6 ^ k6, a7 ^ k7) == pack8(
            a0,
            a1,
            a2,
            a3,
            a4,
            a5,
            a6,
            a7,
        ) ^ pack8(k0, k1, k2, k3, k4, k5, k6, k7),
{
}

/// Adds `sk` to `q` word by word, as far as both reach.  Where both hold
/// eight planes, that adds the round key in `sk` to the state, in all four
/// blocks.
pub fn add_round_key(q: &mut [u64], sk: &[u64])
    ensures
        final(q).len() == old(q).len(),
        forall|i: int| 0 <= i < old(q).len() && i < sk.len() ==> final(q)[i] == old(q)[i] ^ sk[i],
        forall|i: int| sk.len() <= i < old(q).len() ==> final(q)[i] == old(q)[i],
        old(q).len() >= 8 && sk.len() >= 8 ==> forall|p: u64|
            p < 64 ==> #[trigger] lane_byte(final(q)@, p) == lane_byte(old(q)@, p) ^ lane_byte(sk@, p),
        old(q).len() >= 8 && sk.len() >= 8 ==> forall|b: int|
            0 <= b < 4 ==> #[trigger] block_state(final(q)@, b) == crate::aes::add_round_key(
                block_state(old(q)@, b),
                block_state(sk@, b),
            ),
{
    let ghost q0 = q@;
    let n = if q.len() < sk.len() {
        q.len()
    } else {
        sk.len()
    };
    let mut i: usize = 0;
    while i < n
        invariant
            i <= n,
            n <= sk.len(),
            n <= q0.len(),
            n == sk.len() || n == q0.len(),
            q.len() == q0.len(),
            forall|j: int| 0 <= j < i ==> q[j] == q0[j] ^ sk[j],
            forall|j: int| i <= j < q0.len() ==> q[j] == q0[j],
        decreases n - i,
    {
        q[i] = q[i] ^ sk[i];
        i += 1;
    }
    proof {
        if q0.len() >= 8 && sk.len() >= 8 {
            lemma_lane_gates();
            assert forall|p: u64| p < 64 implies #[trigger] lane_byte(q@, p) == lane_byte(q0, p) ^ lane_byte(
                sk@,
                p,
            ) by {
                lemma_pack8_xor(
                    lane(q0[0], p),
                    lane(q0[1], p),
                    lane(q0[2], p),
                    lane(q0[3], p),
                    lane(q0[4], p),
                    lane(q0[5], p),
                    lane(q0[6], p),
                    lane(q0[7], p),
                    lane(sk[0], p),
                    lane(sk[1], p),
                    lane(sk[2], p),
                    lane(sk[3], p),
                    lane(sk[4], p),
                    lane(sk[5], p),
                    lane(sk[6], p),
                    lane(sk[7], p),
                );
            }
            assert forall|b: int| 0 <= b < 4 implies #[trigger] block_state(q@, b)
                == crate::aes::add_round_key(block_state(q0, b), block_state(sk@, b)) by {
                assert forall|k: int| 0 <= k < 16 implies block_state(q@, b)[k] == crate::aes::add_round_key(
                    block_state(q0, b),
                    block_state(sk@, b),
                )[k] by {
                    assert(lane_of(b, k) < 64);
                }
                assert(block_state(q@, b) =~= crate::aes::add_round_key(block_state(q0, b), block_state(sk@, b)));
            }
        }
    }
}

/// ShiftRows on one plane: the sixteen bits of row `r` turn by `4 * r`
/// places, which moves every byte `r` columns to the left.
pub open spec fn shift_rows_plane(x: u64) -> u64 {
    (x & 0x000000000000FFFF) | ((x & 0x00000000FFF00000) >> 4) | ((x & 0x00000000000F0000) << 12) | ((x
        & 0x0000FF0000000000) >> 8) | ((x & 0x000000FF00000000) << 8) | ((x & 0xF000000000000000) >> 12)
        | ((x & 0x0FFF000000000000) << 4)
}

proof fn lemma_shift_rows_lane(x: u64, r: u64, c: u64, b: u64)
    by (bit_vector)
    requires
        r < 4,
        c < 4,
        b < 4,
    ensures
        lane(shift_rows_plane(x), (16 * r + 4 * c + b) as u64) == lane(
            x,
            (16 * r + 4 * ((c + r) % 4) + b) as u64,
        ),
{
}

/// ShiftRows on every word of `q`; where `q` holds eight planes, that is
/// ShiftRows in all four blocks.
pub fn shift_rows(q: &mut [u64])
    ensures
        final(q).len() == old(q).len(),
        forall|i: int| 0 <= i < old(q).len() ==> final(q)[i] == shift_rows_plane(old(q)[i]),
        old(q).len() >= 8 ==> forall|b: int|
            0 <= b < 4 ==> #[trigger] block_state(final(q)@, b) == crate::aes::shift_rows(
                block_state(old(q)@, b),
            ),
{
    let ghost q0 = q@;
    let n = q.len();
    let mut i: usize = 0;
    while i < n
        invariant
            i <= n,
            n == q0.len(),
            q.len() == q0.len(),
            forall|j: int| 0 <= j < i ==> q[j] == shift_rows_plane(q0[j]),
            forall|j: int| i <= j < n ==> q[j] == q0[j],
        decreases n - i,
    {
        let x = q[i];
        q[i] = (x & 0x000000000000FFFF) | ((x & 0x00000000FFF00000) >> 4) | ((x & 0x00000000000F0000) << 12)
            | ((x & 0x0000FF0000000000) >> 8) | ((x & 0x000000FF00000000) << 8) | ((x & 0xF000000000000000)
            >> 12) | ((x & 0x0FFF000000000000) << 4);
        i += 1;
    }
    proof {
        assert forall|b: int| q0.len() >= 8 && 0 <= b < 4 implies #[trigger] block_state(q@, b)
            == crate::aes::shift_rows(block_state(q0, b)) by {
            assert forall|k: int| 0 <= k < 16 implies block_state(q@, b)[k] == crate::aes::shift_rows(
                block_state(q0, b),
            )[k] by {
                let r = (k % 4) as u64;
                let c = (k / 4) as u64;
                let k2 = 4 * ((k / 4 + k % 4) % 4) + k % 4;
                lemma_shift_rows_lane(q0[0], r, c, b as u64);
                lemma_shift_rows_lane(q0[1], r, c, b as u64);
                lemma_shift_rows_lane(q0[2], r, c, b as u64);
                lemma_shift_rows_lane(q0[3], r, c, b as u64);
                lemma_shift_rows_lane(q0[4], r, c, b as u64);
                lemma_shift_rows_lane(q0[5], r, c, b as u64);
                lemma_shift_rows_lane(q0[6], r, c, b as u64);
                lemma_shift_rows_lane(q0[7], r, c, b as u64);
                assert(lane_of(b, k) == (16 * r + 4 * c + b as u64) as u64);
                assert(lane_of(b, k2) == (16 * r + 4 * ((c + r) % 4) + b as u64) as u64);
            }
            assert(block_state(q@, b) =~= crate::aes::shift_rows(block_state(q0, b)));
        }
    }
}

/// A plane turned by half its length.
pub open spec fn rotr32(x: u64) -> u64 {
    (x >> 32) | (x << 32)
}

/// A plane turned right by sixteen places: position `p` then holds what
/// stood one row further on.
pub open spec fn rotr16(x: u64) -> u64 {
    (x >> 16) | (x << 48)
}

/// Turns a plane by half its length.
pub fn rotate_right_32(x: u64) -> (r: u64)
    ensures
        r == rotr32(x),
{
    (x >> 32) | (x << 32)
}

proof fn lemma_lane_rotations()
    by (bit_vector)
    ensures
        forall|x: u64, p: u64| p < 64 ==> #[trigger] lane(rotr16(x), p) == lane(x, ((p + 16) % 64) as u64),
        forall|x: u64, p: u64| p < 64 ==> #[trigger] lane(rotr32(x), p) == lane(x, ((p + 32) % 64) as u64),
{
}

/// One byte of MixColumns from the bits of the four bytes of its column:
/// `a` in the same row, then `b`, `c` and `d` one, two and three rows on.
proof fn lemma_mix_bits(
    a0: u64, a1: u64, a2: u64, a3: u64, a4: u64, a5: u64, a6: u64, a7: u64,
    b0: u64, b1: u64, b2: u64, b3: u64, b4: u64, b5: u64, b6: u64, b7: u64,
    c0: u64, c1: u64, c2: u64, c3: u64, c4: u64, c5: u64, c6: u64, c7: u64,
    d0: u64, d1: u64, d2: u64, d3: u64, d4: u64, d5: u64, d6: u64, d7: u64,
)
    by (bit_vector)
    requires
        a0 <= 1, a1 <= 1, a2 <= 1, a3 <= 1, a4 <= 1, a5 <= 1, a6 <= 1, a7 <= 1,
        b0 <= 1, b1 <= 1, b2 <= 1, b3 <= 1, b4 <= 1, b5 <= 1, b6 <= 1, b7 <= 1,
        c0 <= 1, c1 <= 1, c2 <= 1, c3 <= 1, c4 <= 1, c5 <= 1, c6 <= 1, c7 <= 1,
        d0 <= 1, d1 <= 1, d2 <= 1, d3 <= 1, d4 <= 1, d5 <= 1, d6 <= 1, d7 <= 1,
    ensures
        pack8(
            a7 ^ b7 ^ b0 ^ (c0 ^ d0),
            a0 ^ b0 ^ a7 ^ b7 ^ b1 ^ (c1 ^ d1),
            a1 ^ b1 ^ b2 ^ (c2 ^ d2),
            a2 ^ b2 ^ a7 ^ b7 ^ b3 ^ (c3 ^ d3),
            a3 ^ b3 ^ a7 ^ b7 ^ b4 ^ (c4 ^ d4),
            a4 ^ b4 ^ b5 ^ (c5 ^ d5),
            a5 ^ b5 ^ b6 ^ (c6 ^ d6),
            a6 ^ b6 ^ b7 ^ (c7 ^ d7),
        ) == xtime(pack8(a0, a1, a2, a3, a4, a5, a6, a7)) ^ (xtime(pack8(b0, b1, b2, b3, b4, b5, b6, b7))
            ^ pack8(b0, b1, b2, b3, b4, b5, b6, b7)) ^ pack8(c0, c1, c2, c3, c4, c5, c6, c7) ^ pack8(
            d0,
            d1,
            d2,
            d3,
            d4,
            d5,
            d6,
            d7,
        ),
{
}

/// Whether the planes `n` are what MixColumns makes of the planes `q`.
pub open spec fn mixed_planes(q: Seq<u64>, n: Seq<u64>) -> bool {
    &&& q.len() >= 8
    &&& n.len() >= 8
    &&& n[0] == q[7] ^ rotr16(q[7]) ^ rotr16(q[0]) ^ rotr32(q[0] ^ rotr16(q[0]))
    &&& n[1] == q[0] ^ rotr16(q[0]) ^ q[7] ^ rotr16(q[7]) ^ rotr16(q[1]) ^ rotr32(q[1] ^ rotr16(q[1]))
    &&& n[2] == q[1] ^ rotr16(q[1]) ^ rotr16(q[2]) ^ rotr32(q[2] ^ rotr16(q[2]))
    &&& n[3] == q[2] ^ rotr16(q[2]) ^ q[7] ^ rotr16(q[7]) ^ rotr16(q[3]) ^ rotr32(q[3] ^ rotr16(q[3]))
    &&& n[4] == q[3] ^ rotr16(q[3]) ^ q[7] ^ rotr16(q[7]) ^ rotr16(q[4]) ^ rotr32(q[4] ^ rotr16(q[4]))
    &&& n[5] == q[4] ^ rotr16(q[4]) ^ rotr16(q[5]) ^ rotr32(q[5] ^ rotr16(q[5]))
    &&& n[6] == q[5] ^ rotr16(q[5]) ^ rotr16(q[6]) ^ rotr32(q[6] ^ rotr16(q[6]))
    &&& n[7] == q[6] ^ rotr16(q[6]) ^ rotr16(q[7]) ^ rotr32(q[7] ^ rotr16(q[7]))
}

/// MixColumns at one position of the planes: the byte that the new planes
/// hold at `p`, from the bytes that the old ones hold at `p` and one, two and
/// three rows on.
proof fn lemma_mix_lane(q: Seq<u64>, n: Seq<u64>, p: u64)
    requires
        mixed_planes(q, n),
        p < 64,
    ensures
        lane_byte(n, p) == gf_mul(0x02, lane_byte(q, p)) ^ gf_mul(0x03, lane_byte(q, ((p + 16) % 64) as u64))
            ^ lane_byte(q, ((p + 32) % 64) as u64) ^ lane_byte(q, ((p + 48) % 64) as u64),
{
    let pb = ((p + 16) % 64) as u64;
    let pc = ((p + 32) % 64) as u64;
    let pd = ((p + 48) % 64) as u64;
    assert(((pc + 16) % 64) as u64 == pd);
    lemma_lane_gates();
    lemma_lane_rotations();
    assert forall|i: int| 0 <= i < 8 implies lane(#[trigger] rotr16(q[i]), p) == lane(q[i], pb) && lane(
        rotr32(q[i] ^ rotr16(q[i])),
        p,
    ) == lane(q[i], pc) ^ lane(q[i], pd) by {
        assert(lane(rotr32(q[i] ^ rotr16(q[i])), p) == lane(q[i] ^ rotr16(q[i]), pc));
        assert(lane(rotr16(q[i]), pc) == lane(q[i], pd));
    }
    assert(lane(n[0], p) == lane(q[7], p) ^ lane(q[7], pb) ^ lane(q[0], pb) ^ (lane(q[0], pc) ^ lane(q[0], pd)));
    assert(lane(n[1], p) == lane(q[0], p) ^ lane(q[0], pb) ^ lane(q[7], p) ^ lane(q[7], pb) ^ lane(q[1], pb) ^ (
    lane(q[1], pc) ^ lane(q[1], pd)));
    assert(lane(n[2], p) == lane(q[1], p) ^ lane(q[1], pb) ^ lane(q[2], pb) ^ (lane(q[2], pc) ^ lane(q[2], pd)));
    assert(lane(n[3], p) == lane(q[2], p) ^ lane(q[2], pb) ^ lane(q[7], p) ^ lane(q[7], pb) ^ lane(q[3], pb) ^ (
    lane(q[3], pc) ^ lane(q[3], pd)));
    assert(lane(n[4], p) == lane(q[3], p) ^ lane(q[3], pb) ^ lane(q[7], p) ^ lane(q[7], pb) ^ lane(q[4], pb) ^ (
    lane(q[4], pc) ^ lane(q[4], pd)));
    assert(lane(n[5], p) == lane(q[4], p) ^ lane(q[4], pb) ^ lane(q[5], pb) ^ (lane(q[5], pc) ^ lane(q[5], pd)));
    assert(lane(n[6], p) == lane(q[5], p) ^ lane(q[5], pb) ^ lane(q[6], pb) ^ (lane(q[6], pc) ^ lane(q[6], pd)));
    assert(lane(n[7], p) == lane(q[6], p) ^ lane(q[6], pb) ^ lane(q[7], pb) ^ (lane(q[7], pc) ^ lane(q[7], pd)));
    lemma_mix_bits(
        lane(q[0], p), lane(q[1], p), lane(q[2], p), lane(q[3], p),
        lane(q[4], p), lane(q[5], p), lane(q[6], p), lane(q[7], p),
        lane(q[0], pb), lane(q[1], pb), lane(q[2], pb), lane(q[3], pb),
        lane(q[4], pb), lane(q[5], pb), lane(q[6], pb), lane(q[7], pb),
        lane(q[0], pc), lane(q[1], pc), lane(q[2], pc), lane(q[3], pc),
        lane(q[4], pc), lane(q[5], pc), lane(q[6], pc), lane(q[7], pc),
        lane(q[0], pd), lane(q[1], pd), lane(q[2], pd), lane(q[3], pd),
        lane(q[4], pd), lane(q[5], pd), lane(q[6], pd), lane(q[7], pd),
    );
    lemma_mul_by_two_and_three(lane_byte(q, p));
    lemma_mul_by_two_and_three(lane_byte(q, pb));
}

/// Sixteen places on in the planes is one row on in the same column.
proof fn lemma_rows_on(b: int, c: int, r: int)
    requires
        0 <= b < 4,
        0 <= c < 4,
        0 <= r < 4,
    ensures
        lane_of(b, 4 * c + r) == 16 * r + 4 * c + b,
        ((lane_of(b, 4 * c + r) + 16) % 64) as u64 == lane_of(b, 4 * c + (r + 1) % 4),
        ((lane_of(b, 4 * c + r) + 32) % 64) as u64 == lane_of(b, 4 * c + (r + 2) % 4),
        ((lane_of(b, 4 * c + r) + 48) % 64) as u64 == lane_of(b, 4 * c + (r + 3) % 4),
{
    assert((4 * c + r) % 4 == r && (4 * c + r) / 4 == c);
    assert((4 * c + (r + 1) % 4) % 4 == (r + 1) % 4 && (4 * c + (r + 1) % 4) / 4 == c);
    assert((4 * c + (r + 2) % 4) % 4 == (r + 2) % 4 && (4 * c + (r + 2) % 4) / 4 == c);
    assert((4 * c + (r + 3) % 4) % 4 == (r + 3) % 4 && (4 * c + (r + 3) % 4) / 4 == c);
}

/// MixColumns in one block, from the equations between the planes.
proof fn lemma_mix_block(q: Seq<u64>, n: Seq<u64>, b: int)
    requires
        mixed_planes(q, n),
        0 <= b < 4,
    ensures
        block_state(n, b) == crate::aes::mix_columns(block_state(q, b)),
{
    let s = block_state(q, b);
    let m = crate::aes::mix_columns(s);
    assert forall|k: int| 0 <= k < 16 implies block_state(n, b)[k] == m[k] by {
        let c = k / 4;
        let r = k % 4;
        let p = lane_of(b, k);
        assert(k == 4 * c + r);
        lemma_rows_on(b, c, r);
        lemma_mix_lane(q, n, p);
        let k1 = 4 * c + (r + 1) % 4;
        let k2 = 4 * c + (r + 2) % 4;
        let k3 = 4 * c + (r + 3) % 4;
        assert(s[k] == lane_byte(q, p));
        assert(s[k1] == lane_byte(q, lane_of(b, k1)));
        assert(s[k2] == lane_byte(q, lane_of(b, k2)));
        assert(s[k3] == lane_byte(q, lane_of(b, k3)));
        assert(m[k] == crate::aes::mix_column_byte(s, c, r));
    }
    assert(block_state(n, b) =~= m);
}

/// MixColumns, in all four blocks.  In the planes a step to the next row of
/// a column is a turn by sixteen places, and doubling in the field moves each
/// bit one plane up, with the top bit fed back into planes 0, 1, 3 and 4.
pub fn mix_columns(q: &mut [u64])
    requires
        old(q).len() >= 8,
    ensures
        final(q).len() == old(q).len(),
        mixed_planes(old(q)@, final(q)@),
        forall|i: int| 8 <= i < old(q).len() ==> final(q)[i] == old(q)[i],
        forall|b: int|
            0 <= b < 4 ==> #[trigger] block_state(final(q)@, b) == crate::aes::mix_columns(
                block_state(old(q)@, b),
            ),
{
    let q0 = q[0];
    let q1 = q[1];
    let q2 = q[2];
    let q3 = q[3];
    let q4 = q[4];
    let q5 = q[5];
    let q6 = q[6];
    let q7 = q[7];
    let r0 = (q0 >> 16) | (q0 << 48);
    let r1 = (q1 >> 16) | (q1 << 48);
    let r2 = (q2 >> 16) | (q2 << 48);
    let r3 = (q3 >> 16) | (q3 << 48);
    let r4 = (q4 >> 16) | (q4 << 48);
    let r5 = (q5 >> 16) | (q5 << 48);
    let r6 = (q6 >> 16) | (q6 << 48);
    let r7 = (q7 >> 16) | (q7 << 48);

    q[0] = q7 ^ r7 ^ r0 ^ rotate_right_32(q0 ^ r0);
    q[1] = q0 ^ r0 ^ q7 ^ r7 ^ r1 ^ rotate_right_32(q1 ^ r1);
    q[2] = q1 ^ r1 ^ r2 ^ rotate_right_32(q2 ^ r2);
    q[3] = q2 ^ r2 ^ q7 ^ r7 ^ r3 ^ rotate_right_32(q3 ^ r3);
    q[4] = q3 ^ r3 ^ q7 ^ r7 ^ r4 ^ rotate_right_32(q4 ^ r4);
    q[5] = q4 ^ r4 ^ r5 ^ rotate_right_32(q5 ^ r5);
    q[6] = q5 ^ r5 ^ r6 ^ rotate_right_32(q6 ^ r6);
    q[7] = q6 ^ r6 ^ r7 ^ rotate_right_32(q7 ^ r7);

    proof {
        assert(r0 == rotr16(q0) && r1 == rotr16(q1) && r2 == rotr16(q2) && r3 == rotr16(q3));
        assert(r4 == rotr16(q4) && r5 == rotr16(q5) && r6 == rotr16(q6) && r7 == rotr16(q7));
        assert(mixed_planes(old(q)@, q@));
        assert forall|b: int| 0 <= b < 4 implies #[trigger] block_state(q@, b) == crate::aes::mix_columns(
            block_state(old(q)@, b),
        ) by {
            lemma_mix_block(old(q)@, q@, b);
        }
    }
}

} // verus!
