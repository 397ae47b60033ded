//! The key expansion of AES-256, and the fifteen round keys laid out in bit
//! planes.

use vstd::prelude::*;
use vstd::array::array_as_slice;
use vstd::slice::slice_subrange;
use crate::aes::{key_expansion, key_word, rcon, rcon_word, rot_word, round_key, sbox, xor_word};
use crate::bitslice::{
    block_state,
    holds_words,
    interleave_in,
    is_interleaved,
    lane_byte,
    lemma_block_words,
    lemma_transpose_rows,
    ortho,
    row_byte,
    transposed_at,
};
use crate::endian::{decode_u32_range_le, word_byte, word_bytes, words_bytes};
use crate::gf256::xtime;
use crate::sbox::aes_sbox;

verus! {

/// The low four bytes of a plane are the bytes of its low word.
proof fn lemma_low_rows(x: u64, w: u32)
    by (bit_vector)
    requires
        w == x as u32,
    ensures
        row_byte(x, 0) == word_byte(w, 0),
        row_byte(x, 1) == word_byte(w, 1),
        row_byte(x, 2) == word_byte(w, 2),
        row_byte(x, 3) == word_byte(w, 3),
{
}

/// SubWord: the S-box on each of the four bytes of a word, by one pass of
/// the circuit.
pub fn sub_word(x: u32) -> (r: u32)
    ensures
        word_bytes(r) == crate::aes::sub_word(word_bytes(x)),
{
    let mut q = [0u64;8];
    q[0] = x as u64;
    let ghost q0 = q@;
    ortho(&mut q);
    let ghost q1 = q@;
    aes_sbox(&mut q);
    let ghost q2 = q@;
    ortho(&mut q);
    let r = #[verifier::truncate] (q[0] as u32);
    proof {
        lemma_low_rows(q0[0], x);
        lemma_low_rows(q[0], r);
        assert forall|j: int| 0 <= j < 4 implies word_bytes(r)[j] == crate::aes::sub_word(word_bytes(x))[j] by {
            let p = (8 * j) as u64;
            assert(transposed_at(q0, q1, 0, j as u64));
            assert(transposed_at(q2, q@, 0, j as u64));
            assert(lane_byte(q2, p) == sbox(lane_byte(q1, p)));
        }
        assert(word_bytes(r) =~= crate::aes::sub_word(word_bytes(x)));
    }
    r
}

/// The round constants x^0 .. x^9 of the field.
pub const RCON: [u32; 10] = [0x01, 0x02, 0x04, 0x08, 0x10, 0x20, 0x40, 0x80, 0x1B, 0x36];

proof fn lemma_xtime_chain()
    by (bit_vector)
    ensures
        xtime(0x01) == 0x02,
        xtime(0x02) == 0x04,
        xtime(0x04) == 0x08,
        xtime(0x08) == 0x10,
        xtime(0x10) == 0x20,
        xtime(0x20) == 0x40,
        xtime(0x40) == 0x80,
        xtime(0x80) == 0x1b,
        xtime(0x1b) == 0x36,
{
}

/// The table holds the round constants.
pub proof fn lemma_rcon_table(k: int)
    requires
        1 <= k <= 10,
    ensures
        RCON[k - 1] == rcon(k) as u32,
        rcon(k) != 0,
{
    lemma_xtime_chain();
    assert(rcon(1) == 0x01);
    assert(rcon(2) == 0x02);
    assert(rcon(3) == 0x04);
    assert(rcon(4) == 0x08);
    assert(rcon(5) == 0x10);
    assert(rcon(6) == 0x20);
    assert(rcon(7) == 0x40);
    assert(rcon(8) == 0x80);
    assert(rcon(9) == 0x1b);
    assert(rcon(10) == 0x36);
}

proof fn lemma_word_steps(t: u32, a: u32, c: u8, r: u64)
    by (bit_vector)
    requires
        r < 4,
    ensures
        word_byte((t << 24) | (t >> 8), r) == word_byte(t, ((r + 1) % 4) as u64),
        word_byte(t ^ a, r) == word_byte(t, r) ^ word_byte(a, r),
        word_byte(t ^ (c as u32), r) == word_byte(t, r) ^ (if r == 0 { c } else { 0u8 }),
{
}

/// One step of the key expansion on words: word `i` from the one before it
/// and the one eight places back.  `sub_rot` and `sub` are the words that
/// SubWord gave; each counts only in the case that uses it.
proof fn lemma_key_step(key: Seq<u8>, i: int, prev: u32, back: u32, sub_rot: u32, sub: u32, next: u32)
    requires
        8 <= i < 60,
        word_bytes(prev) == key_word(key, i - 1),
        word_bytes(back) == key_word(key, i - 8),
        i % 8 == 0 ==> word_bytes(sub_rot) == crate::aes::sub_word(word_bytes((prev << 24) | (prev >> 8))),
        i % 8 == 4 ==> word_bytes(sub) == crate::aes::sub_word(word_bytes(prev)),
        next == if i % 8 == 0 {
            (sub_rot ^ RCON[i / 8 - 1]) ^ back
        } else if i % 8 == 4 {
            sub ^ back
        } else {
            prev ^ back
        },
    ensures
        word_bytes(next) == key_word(key, i),
{
    let p = key_word(key, i - 1);
    let rot = (prev << 24) | (prev >> 8);
    assert(word_bytes(rot) =~= rot_word(p)) by {
        assert forall|r: int| 0 <= r < 4 implies word_bytes(rot)[r] == rot_word(p)[r] by {
            lemma_word_steps(prev, 0, 0, r as u64);
            assert(p[(r + 1) % 4] == word_byte(prev, ((r + 1) % 4) as u64));
        }
    }
    let t_word = if i % 8 == 0 {
        sub_rot ^ RCON[i / 8 - 1]
    } else if i % 8 == 4 {
        sub
    } else {
        prev
    };
    let t = if i % 8 == 0 {
        xor_word(crate::aes::sub_word(rot_word(p)), rcon_word(i / 8))
    } else if i % 8 == 4 {
        crate::aes::sub_word(p)
    } else {
        p
    };
    assert(word_bytes(t_word) =~= t) by {
        if i % 8 == 0 {
            lemma_rcon_table(i / 8);
            let c = rcon(i / 8);
            assert(RCON[i / 8 - 1] == c as u32);
            assert forall|r: int| 0 <= r < 4 implies word_bytes(t_word)[r] == t[r] by {
                lemma_word_steps(sub_rot, 0, c, r as u64);
            }
        }
    }
    assert(next == t_word ^ back);
    assert(word_bytes(next) =~= xor_word(key_word(key, i - 8), t)) by {
        assert forall|r: int| 0 <= r < 4 implies word_bytes(next)[r] == xor_word(key_word(key, i - 8), t)[r] by {
            lemma_word_steps(t_word, back, 0, r as u64);
            lemma_xor_commutes(word_byte(t_word, r as u64), word_byte(back, r as u64));
        }
    }
}

proof fn lemma_xor_commutes(a: u8, b: u8)
    by (bit_vector)
    ensures
        a ^ b == b ^ a,
{
}

/// Expands a key of 32 bytes and writes the fifteen round keys into the
/// first 120 words of `comp_skey`, eight planes for each: in every round key
/// all four blocks hold the same sixteen bytes.
pub fn aes_keyschedule(comp_skey: &mut [u64], key: &[u8])
    requires
        old(comp_skey).len() >= 120,
        key.len() == 32,
    ensures
        final(comp_skey).len() == old(comp_skey).len(),
        forall|i: int, b: int|
            0 <= i < 15 && 0 <= b < 4 ==> #[trigger] block_state(final(comp_skey)@.subrange(8 * i, 8 * i + 8), b)
                == round_key(key_expansion(key@), i),
        forall|j: int| 120 <= j < old(comp_skey).len() ==> final(comp_skey)[j] == old(comp_skey)[j],
{
    let ghost sk0 = comp_skey@;
    let mut skey = [0u32;60];
    decode_u32_range_le(&mut skey, key);
    proof {
        assert forall|j: int| 0 <= j < 8 implies word_bytes(#[trigger] skey[j]) == key_word(key@, j) by {}
    }

    let mut tmp = skey[7];
    let mut i: usize = 8;
    while i < 60
        invariant
            8 <= i <= 60,
            tmp == skey[i - 1],
            forall|j: int| 0 <= j < i ==> word_bytes(#[trigger] skey[j]) == key_word(key@, j),
        decreases 60 - i,
    {
        let ghost prev = tmp;
        let ghost sub_rot = 0u32;
        let ghost sub = 0u32;
        if i % 8 == 0 {
            tmp = (tmp << 24) | (tmp >> 8);
            tmp = sub_word(tmp);
            proof {
                sub_rot = tmp;
            }
            tmp = tmp ^ RCON[i / 8 - 1];
        } else if i % 8 == 4 {
            tmp = sub_word(tmp);
            proof {
                sub = tmp;
            }
        }
        tmp ^= skey[i - 8];
        proof {
            lemma_key_step(key@, i as int, prev, skey[i - 8], sub_rot, sub, tmp);
        }
        skey[i] = tmp;
        i += 1;
    }

    let mut r: usize = 0;
    while r < 15
        invariant
            r <= 15,
            comp_skey.len() == sk0.len(),
            sk0.len() >= 120,
            forall|j: int| 0 <= j < 60 ==> word_bytes(#[trigger] skey[j]) == key_word(key@, j),
            forall|i: int, b: int|
                0 <= i < r && 0 <= b < 4 ==> #[trigger] block_state(comp_skey@.subrange(8 * i, 8 * i + 8), b)
                    == round_key(key_expansion(key@), i),
            forall|j: int| 8 * r <= j < sk0.len() ==> comp_skey[j] == sk0[j],
        decreases 15 - r,
    {
        let mut q = [0u64;8];
        let mut q0: u64 = 0;
        let mut q1: u64 = 0;
        let words = slice_subrange(array_as_slice(&skey), 4 * r, 4 * r + 4);
        interleave_in(&mut q0, &mut q1, words);
        q[0] = q0;
        q[1] = q0;
        q[2] = q0;
        q[3] = q0;
        q[4] = q1;
        q[5] = q1;
        q[6] = q1;
        q[7] = q1;
        let ghost x = q@;
        ortho(&mut q);
        let ghost before = comp_skey@;
        let mut k: usize = 0;
        while k < 8
            invariant
                k <= 8,
                r < 15,
                comp_skey.len() == sk0.len(),
                sk0.len() >= 120,
                forall|j: int| 0 <= j < k ==> comp_skey[8 * r + j] == q[j],
                forall|j: int| 0 <= j < 8 * r ==> comp_skey[j] == before[j],
                forall|j: int| 8 * r + k <= j < sk0.len() ==> comp_skey[j] == sk0[j],
            decreases 8 - k,
        {
            comp_skey[8 * r + k] = q[k];
            k += 1;
        }
        proof {
            let w = Seq::new(16, |n: int| words[n % 4]);
            assert(holds_words(x, w)) by {
                assert forall|b: int| 0 <= b < 4 implies #[trigger] is_interleaved(
                    x[b],
                    x[b + 4],
                    w[4 * b],
                    w[4 * b + 1],
                    w[4 * b + 2],
                    w[4 * b + 3],
                ) by {}
            }
            lemma_transpose_rows(x, q@);
            let planes = comp_skey@.subrange(8 * r, 8 * r + 8);
            assert(planes =~= q@);
            assert forall|b: int| 0 <= b < 4 implies #[trigger] block_state(planes, b) == round_key(
                key_expansion(key@),
                r as int,
            ) by {
                lemma_block_words(x, q@, w, b);
                let ws = w.subrange(4 * b, 4 * b + 4);
                let rk = round_key(key_expansion(key@), r as int);
                assert forall|n: int| 0 <= n < 16 implies words_bytes(ws)[n] == rk[n] by {
                    assert(ws[n / 4] == skey[4 * r + n / 4]);
                    assert(word_bytes(skey[4 * r + n / 4])[n % 4] == key_word(key@, 4 * r + n / 4)[n % 4]);
                    assert(rk[n] == key_expansion(key@)[16 * r + n]);
                    assert((16 * r + n) / 4 == 4 * r + n / 4 && (16 * r + n) % 4 == n % 4);
                }
                assert(words_bytes(ws) =~= rk);
            }
            assert forall|i: int, b: int| 0 <= i < r && 0 <= b < 4 implies #[trigger] block_state(
                comp_skey@.subrange(8 * i, 8 * i + 8),
                b,
            ) == round_key(key_expansion(key@), i) by {
                assert(comp_skey@.subrange(8 * i, 8 * i + 8) =~= before.subrange(8 * i, 8 * i + 8));
            }
        }
        r += 1;
    }
}

} // verus!
