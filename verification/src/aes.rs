//! AES-256 as the standard (FIPS 197) defines it, on sequences of bytes, and
//! the keystream of its counter mode.  Nothing here is executable: these
//! functions say what the bit-plane code must compute.
//!
//! A state is sixteen bytes, column after column: byte `4 * c + r` sits in
//! row `r` of column `c`.

use vstd::prelude::*;
use crate::gf256::{gf_inv, gf_mul, xtime};

verus! {

/// Rotation of a byte to the left by `k` bits, `0 < k < 8`.
pub open spec fn rotl8(b: u8, k: u8) -> u8 {
    (b << k) | (b >> (8 - k) as u8)
}

/// The affine map over GF(2) that ends the S-box.
pub open spec fn affine(b: u8) -> u8 {
    b ^ rotl8(b, 1) ^ rotl8(b, 2) ^ rotl8(b, 3) ^ rotl8(b, 4) ^ 0x63
}

/// The S-box: inversion in the field, then the affine map.
pub open spec fn sbox(a: u8) -> u8 {
    affine(gf_inv(a))
}

/// Row 0 of the S-box table: the bytes {00} to {0f}.
pub open spec fn sbox_row_0(a: u8) -> u8 {
    if a == 0x00 {
        0x63u8
    } else if a == 0x01 {
        0x7cu8
    } else if a == 0x02 {
        0x77u8
    } else if a == 0x03 {
        0x7bu8
    } else if a == 0x04 {
        0xf2u8
    } else if a == 0x05 {
        0x6bu8
    } else if a == 0x06 {
        0x6fu8
    } else if a == 0x07 {
        0xc5u8
    } else if a == 0x08 {
        0x30u8
    } else if a == 0x09 {
        0x01u8
    } else if a == 0x0a {
        0x67u8
    } else if a == 0x0b {
        0x2bu8
    } else if a == 0x0c {
        0xfeu8
    } else if a == 0x0d {
        0xd7u8
    } else if a == 0x0e {
        0xabu8
    } else {
        0x76u8
    }
}

/// Row 1 of the S-box table: the bytes {10} to {1f}.
pub open spec fn sbox_row_1(a: u8) -> u8 {
    if a == 0x10 {
        0xcau8
    } else if a == 0x11 {
        0x82u8
    } else if a == 0x12 {
        0xc9u8
    } else if a == 0x13 {
        0x7du8
    } else if a == 0x14 {
        0xfau8
    } else if a == 0x15 {
        0x59u8
    } else if a == 0x16 {
        0x47u8
    } else if a == 0x17 {
        0xf0u8
    } else if a == 0x18 {
        0xadu8
    } else if a == 0x19 {
        0xd4u8
    } else if a == 0x1a {
        0xa2u8
    } else if a == 0x1b {
        0xafu8
    } else if a == 0x1c {
        0x9cu8
    } else if a == 0x1d {
        0xa4u8
    } else if a == 0x1e {
        0x72u8
    } else {
        0xc0u8
    }
}

/// Row 2 of the S-box table: the bytes {20} to {2f}.
pub open spec fn sbox_row_2(a: u8) -> u8 {
    if a == 0x20 {
        0xb7u8
    } else if a == 0x21 {
        0xfdu8
    } else if a == 0x22 {
        0x93u8
    } else if a == 0x23 {
        0x26u8
    } else if a == 0x24 {
        0x36u8
    } else if a == 0x25 {
        0x3fu8
    } else if a == 0x26 {
        0xf7u8
    } else if a == 0x27 {
        0xccu8
    } else if a == 0x28 {
        0x34u8
    } else if a == 0x29 {
        0xa5u8
    } else if a == 0x2a {
        0xe5u8
    } else if a == 0x2b {
        0xf1u8
    } else if a == 0x2c {
        0x71u8
    } else if a == 0x2d {
        0xd8u8
    } else if a == 0x2e {
        0x31u8
    } else {
        0x15u8
    }
}

/// Row 3 of the S-box table: the bytes {30} to {3f}.
pub open spec fn sbox_row_3(a: u8) -> u8 {
    if a == 0x30 {
        0x04u8
    } else if a == 0x31 {
        0xc7u8
    } else if a == 0x32 {
        0x23u8
    } else if a == 0x33 {
        0xc3u8
    } else if a == 0x34 {
        0x18u8
    } else if a == 0x35 {
        0x96u8
    } else if a == 0x36 {
        0x05u8
    } else if a == 0x37 {
        0x9au8
    } else if a == 0x38 {
        0x07u8
    } else if a == 0x39 {
        0x12u8
    } else if a == 0x3a {
        0x80u8
    } else if a == 0x3b {
        0xe2u8
    } else if a == 0x3c {
        0xebu8
    } else if a == 0x3d {
        0x27u8
    } else if a == 0x3e {
        0xb2u8
    } else {
        0x75u8
    }
}

/// Row 4 of the S-box table: the bytes {40} to {4f}.
pub open spec fn sbox_row_4(a: u8) -> u8 {
    if a == 0x40 {
        0x09u8
    } else if a == 0x41 {
        0x83u8
    } else if a == 0x42 {
        0x2cu8
    } else if a == 0x43 {
        0x1au8
    } else if a == 0x44 {
        0x1bu8
    } else if a == 0x45 {
        0x6eu8
    } else if a == 0x46 {
        0x5au8
    } else if a == 0x47 {
        0xa0u8
    } else if a == 0x48 {
        0x52u8
    } else if a == 0x49 {
        0x3bu8
    } else if a == 0x4a {
        0xd6u8
    } else if a == 0x4b {
        0xb3u8
    } else if a == 0x4c {
        0x29u8
    } else if a == 0x4d {
        0xe3u8
    } else if a == 0x4e {
        0x2fu8
    } else {
        0x84u8
    }
}

/// Row 5 of the S-box table: the bytes {50} to {5f}.
pub open spec fn sbox_row_5(a: u8) -> u8 {
    if a == 0x50 {
        0x53u8
    } else if a == 0x51 {
        0xd1u8
    } else if a == 0x52 {
        0x00u8
    } else if a == 0x53 {
        0xedu8
    } else if a == 0x54 {
        0x20u8
    } else if a == 0x55 {
        0xfcu8
    } else if a == 0x56 {
        0xb1u8
    } else if a == 0x57 {
        0x5bu8
    } else if a == 0x58 {
        0x6au8
    } else if a == 0x59 {
        0xcbu8
    } else if a == 0x5a {
        0xbeu8
    } else if a == 0x5b {
        0x39u8
    } else if a == 0x5c {
        0x4au8
    } else if a == 0x5d {
        0x4cu8
    } else if a == 0x5e {
        0x58u8
    } else {
        0xcfu8
    }
}

/// Row 6 of the S-box table: the bytes {60} to {6f}.
pub open spec fn sbox_row_6(a: u8) -> u8 {
    if a == 0x60 {
        0xd0u8
    } else if a == 0x61 {
        0xefu8
    } else if a == 0x62 {
        0xaau8
    } else if a == 0x63 {
        0xfbu8
    } else if a == 0x64 {
        0x43u8
    } else if a == 0x65 {
        0x4du8
    } else if a == 0x66 {
        0x33u8
    } else if a == 0x67 {
        0x85u8
    } else if a == 0x68 {
        0x45u8
    } else if a == 0x69 {
        0xf9u8
    } else if a == 0x6a {
        0x02u8
    } else if a == 0x6b {
        0x7fu8
    } else if a == 0x6c {
        0x50u8
    } else if a == 0x6d {
        0x3cu8
    } else if a == 0x6e {
        0x9fu8
    } else {
        0xa8u8
    }
}

/// Row 7 of the S-box table: the bytes {70} to {7f}.
pub open spec fn sbox_row_7(a: u8) -> u8 {
    if a == 0x70 {
        0x51u8
    } else if a == 0x71 {
        0xa3u8
    } else if a == 0x72 {
        0x40u8
    } else if a == 0x73 {
        0x8fu8
    } else if a == 0x74 {
        0x92u8
    } else if a == 0x75 {
        0x9du8
    } else if a == 0x76 {
        0x38u8
    } else if a == 0x77 {
        0xf5u8
    } else if a == 0x78 {
        0xbcu8
    } else if a == 0x79 {
        0xb6u8
    } else if a == 0x7a {
        0xdau8
    } else if a == 0x7b {
        0x21u8
    } else if a == 0x7c {
        0x10u8
    } else if a == 0x7d {
        0xffu8
    } else if a == 0x7e {
        0xf3u8
    } else {
        0xd2u8
    }
}

/// Row 8 of the S-box table: the bytes {80} to {8f}.
pub open spec fn sbox_row_8(a: u8) -> u8 {
    if a == 0x80 {
        0xcdu8
    } else if a == 0x81 {
        0x0cu8
    } else if a == 0x82 {
        0x13u8
    } else if a == 0x83 {
        0xecu8
    } else if a == 0x84 {
        0x5fu8
    } else if a == 0x85 {
        0x97u8
    } else if a == 0x86 {
        0x44u8
    } else if a == 0x87 {
        0x17u8
    } else if a == 0x88 {
        0xc4u8
    } else if a == 0x89 {
        0xa7u8
    } else if a == 0x8a {
        0x7eu8
    } else if a == 0x8b {
        0x3du8
    } else if a == 0x8c {
        0x64u8
    } else if a == 0x8d {
        0x5du8
    } else if a == 0x8e {
        0x19u8
    } else {
        0x73u8
    }
}

/// Row 9 of the S-box table: the bytes {90} to {9f}.
pub open spec fn sbox_row_9(a: u8) -> u8 {
    if a == 0x90 {
        0x60u8
    } else if a == 0x91 {
        0x81u8
    } else if a == 0x92 {
        0x4fu8
    } else if a == 0x93 {
        0xdcu8
    } else if a == 0x94 {
        0x22u8
    } else if a == 0x95 {
        0x2au8
    } else if a == 0x96 {
        0x90u8
    } else if a == 0x97 {
        0x88u8
    } else if a == 0x98 {
        0x46u8
    } else if a == 0x99 {
        0xeeu8
    } else if a == 0x9a {
        0xb8u8
    } else if a == 0x9b {
        0x14u8
    } else if a == 0x9c {
        0xdeu8
    } else if a == 0x9d {
        0x5eu8
    } else if a == 0x9e {
        0x0bu8
    } else {
        0xdbu8
    }
}

/// Row a of the S-box table: the bytes {a0} to {af}.
pub open spec fn sbox_row_a(a: u8) -> u8 {
    if a == 0xa0 {
        0xe0u8
    } else if a == 0xa1 {
        0x32u8
    } else if a == 0xa2 {
        0x3au8
    } else if a == 0xa3 {
        0x0au8
    } else if a == 0xa4 {
        0x49u8
    } else if a == 0xa5 {
        0x06u8
    } else if a == 0xa6 {
        0x24u8
    } else if a == 0xa7 {
        0x5cu8
    } else if a == 0xa8 {
        0xc2u8
    } else if a == 0xa9 {
        0xd3u8
    } else if a == 0xaa {
        0xacu8
    } else if a == 0xab {
        0x62u8
    } else if a == 0xac {
        0x91u8
    } else if a == 0xad {
        0x95u8
    } else if a == 0xae {
        0xe4u8
    } else {
        0x79u8
    }
}

/// Row b of the S-box table: the bytes {b0} to {bf}.
pub open spec fn sbox_row_b(a: u8) -> u8 {
    if a == 0xb0 {
        0xe7u8
    } else if a == 0xb1 {
        0xc8u8
    } else if a == 0xb2 {
        0x37u8
    } else if a == 0xb3 {
        0x6du8
    } else if a == 0xb4 {
        0x8du8
    } else if a == 0xb5 {
        0xd5u8
    } else if a == 0xb6 {
        0x4eu8
    } else if a == 0xb7 {
        0xa9u8
    } else if a == 0xb8 {
        0x6cu8
    } else if a == 0xb9 {
        0x56u8
    } else if a == 0xba {
        0xf4u8
    } else if a == 0xbb {
        0xeau8
    } else if a == 0xbc {
        0x65u8
    } else if a == 0xbd {
        0x7au8
    } else if a == 0xbe {
        0xaeu8
    } else {
        0x08u8
    }
}

/// Row c of the S-box table: the bytes {c0} to {cf}.
pub open spec fn sbox_row_c(a: u8) -> u8 {
    if a == 0xc0 {
        0xbau8
    } else if a == 0xc1 {
        0x78u8
    } else if a == 0xc2 {
        0x25u8
    } else if a == 0xc3 {
        0x2eu8
    } else if a == 0xc4 {
        0x1cu8
    } else if a == 0xc5 {
        0xa6u8
    } else if a == 0xc6 {
        0xb4u8
    } else if a == 0xc7 {
        0xc6u8
    } else if a == 0xc8 {
        0xe8u8
    } else if a == 0xc9 {
        0xddu8
    } else if a == 0xca {
        0x74u8
    } else if a == 0xcb {
        0x1fu8
    } else if a == 0xcc {
        0x4bu8
    } else if a == 0xcd {
        0xbdu8
    } else if a == 0xce {
        0x8bu8
    } else {
        0x8au8
    }
}

/// Row d of the S-box table: the bytes {d0} to {df}.
pub open spec fn sbox_row_d(a: u8) -> u8 {
    if a == 0xd0 {
        0x70u8
    } else if a == 0xd1 {
        0x3eu8
    } else if a == 0xd2 {
        0xb5u8
    } else if a == 0xd3 {
        0x66u8
    } else if a == 0xd4 {
        0x48u8
    } else if a == 0xd5 {
        0x03u8
    } else if a == 0xd6 {
        0xf6u8
    } else if a == 0xd7 {
        0x0eu8
    } else if a == 0xd8 {
        0x61u8
    } else if a == 0xd9 {
        0x35u8
    } else if a == 0xda {
        0x57u8
    } else if a == 0xdb {
        0xb9u8
    } else if a == 0xdc {
        0x86u8
    } else if a == 0xdd {
        0xc1u8
    } else if a == 0xde {
        0x1du8
    } else {
        0x9eu8
    }
}

/// Row e of the S-box table: the bytes {e0} to {ef}.
pub open spec fn sbox_row_e(a: u8) -> u8 {
    if a == 0xe0 {
        0xe1u8
    } else if a == 0xe1 {
        0xf8u8
    } else if a == 0xe2 {
        0x98u8
    } else if a == 0xe3 {
        0x11u8
    } else if a == 0xe4 {
        0x69u8
    } else if a == 0xe5 {
        0xd9u8
    } else if a == 0xe6 {
        0x8eu8
    } else if a == 0xe7 {
        0x94u8
    } else if a == 0xe8 {
        0x9bu8
    } else if a == 0xe9 {
        0x1eu8
    } else if a == 0xea {
        0x87u8
    } else if a == 0xeb {
        0xe9u8
    } else if a == 0xec {
        0xceu8
    } else if a == 0xed {
        0x55u8
    } else if a == 0xee {
        0x28u8
    } else {
        0xdfu8
    }
}

/// Row f of the S-box table: the bytes {f0} to {ff}.
pub open spec fn sbox_row_f(a: u8) -> u8 {
    if a == 0xf0 {
        0x8cu8
    } else if a == 0xf1 {
        0xa1u8
    } else if a == 0xf2 {
        0x89u8
    } else if a == 0xf3 {
        0x0du8
    } else if a == 0xf4 {
        0xbfu8
    } else if a == 0xf5 {
        0xe6u8
    } else if a == 0xf6 {
        0x42u8
    } else if a == 0xf7 {
        0x68u8
    } else if a == 0xf8 {
        0x41u8
    } else if a == 0xf9 {
        0x99u8
    } else if a == 0xfa {
        0x2du8
    } else if a == 0xfb {
        0x0fu8
    } else if a == 0xfc {
        0xb0u8
    } else if a == 0xfd {
        0x54u8
    } else if a == 0xfe {
        0xbbu8
    } else {
        0x16u8
    }
}

/// The S-box as the table of the standard, sixteen rows of sixteen bytes.
pub open spec fn sbox_table(a: u8) -> u8 {
    if a < 0x10 {
        sbox_row_0(a)
    } else if a < 0x20 {
        sbox_row_1(a)
    } else if a < 0x30 {
        sbox_row_2(a)
    } else if a < 0x40 {
        sbox_row_3(a)
    } else if a < 0x50 {
        sbox_row_4(a)
    } else if a < 0x60 {
        sbox_row_5(a)
    } else if a < 0x70 {
        sbox_row_6(a)
    } else if a < 0x80 {
        sbox_row_7(a)
    } else if a < 0x90 {
        sbox_row_8(a)
    } else if a < 0xa0 {
        sbox_row_9(a)
    } else if a < 0xb0 {
        sbox_row_a(a)
    } else if a < 0xc0 {
        sbox_row_b(a)
    } else if a < 0xd0 {
        sbox_row_c(a)
    } else if a < 0xe0 {
        sbox_row_d(a)
    } else if a < 0xf0 {
        sbox_row_e(a)
    } else {
        sbox_row_f(a)
    }
}

/// SubBytes: the S-box on every byte of the state.
pub open spec fn sub_bytes(s: Seq<u8>) -> Seq<u8> {
    Seq::new(16, |i: int| sbox(s[i]))
}

/// ShiftRows: row `r` moves `r` columns to the left.
pub open spec fn shift_rows(s: Seq<u8>) -> Seq<u8> {
    Seq::new(16, |i: int| s[4 * ((i / 4 + i % 4) % 4) + i % 4])
}

/// The byte in row `r` of column `c` after MixColumns.
pub open spec fn mix_column_byte(s: Seq<u8>, c: int, r: int) -> u8 {
    gf_mul(0x02, s[4 * c + r]) ^ gf_mul(0x03, s[4 * c + (r + 1) % 4])
        ^ s[4 * c + (r + 2) % 4] ^ s[4 * c + (r + 3) % 4]
}

/// MixColumns: every column is multiplied by the fixed polynomial
/// {03}x^3 + {01}x^2 + {01}x + {02}.
pub open spec fn mix_columns(s: Seq<u8>) -> Seq<u8> {
    Seq::new(16, |i: int| mix_column_byte(s, i / 4, i % 4))
}

/// AddRoundKey: the state plus the round key, byte by byte.
pub open spec fn add_round_key(s: Seq<u8>, k: Seq<u8>) -> Seq<u8> {
    Seq::new(16, |i: int| s[i] ^ k[i])
}

/// Round key `i` of an expanded key of 240 bytes.
pub open spec fn round_key(w: Seq<u8>, i: int) -> Seq<u8> {
    w.subrange(16 * i, 16 * i + 16)
}

/// The state after the initial AddRoundKey and `n` full rounds.
pub open spec fn rounds(w: Seq<u8>, input: Seq<u8>, n: nat) -> Seq<u8>
    decreases n,
{
    if n == 0 {
        add_round_key(input, round_key(w, 0))
    } else {
        let s = rounds(w, input, (n - 1) as nat);
        add_round_key(mix_columns(shift_rows(sub_bytes(s))), round_key(w, n as int))
    }
}

/// The cipher of AES-256: thirteen full rounds and a last one without
/// MixColumns, under the expanded key `w`.
pub open spec fn cipher(w: Seq<u8>, input: Seq<u8>) -> Seq<u8> {
    add_round_key(shift_rows(sub_bytes(rounds(w, input, 13))), round_key(w, 14))
}

/// The round constant of step `i >= 1` of the key expansion: x^(i-1).
pub open spec fn rcon(i: int) -> u8
    decreases i,
{
    if i <= 1 { 0x01u8 } else { xtime(rcon(i - 1)) }
}

/// SubWord: the S-box on the four bytes of a word.
pub open spec fn sub_word(w: Seq<u8>) -> Seq<u8> {
    Seq::new(4, |i: int| sbox(w[i]))
}

/// RotWord: the four bytes of a word moved one place to the left.
pub open spec fn rot_word(w: Seq<u8>) -> Seq<u8> {
    Seq::new(4, |i: int| w[(i + 1) % 4])
}

/// The sum of two words.
pub open spec fn xor_word(a: Seq<u8>, b: Seq<u8>) -> Seq<u8> {
    Seq::new(4, |i: int| a[i] ^ b[i])
}

/// The word `[rcon(i), 0, 0, 0]`.
pub open spec fn rcon_word(i: int) -> Seq<u8> {
    Seq::new(4, |k: int| if k == 0 { rcon(i) } else { 0u8 })
}

/// Word `i` of the key expansion of a key of 32 bytes, `0 <= i < 60`.
pub open spec fn key_word(key: Seq<u8>, i: int) -> Seq<u8>
    decreases i,
{
    if i < 8 {
        key.subrange(4 * i, 4 * i + 4)
    } else {
        let prev = key_word(key, i - 1);
        let t = if i % 8 == 0 {
            xor_word(sub_word(rot_word(prev)), rcon_word(i / 8))
        } else if i % 8 == 4 {
            sub_word(prev)
        } else {
            prev
        };
        xor_word(key_word(key, i - 8), t)
    }
}

/// The expanded key: sixty words, 240 bytes, fifteen round keys.
pub open spec fn key_expansion(key: Seq<u8>) -> Seq<u8> {
    Seq::new(240, |k: int| key_word(key, k / 4)[k % 4])
}

/// A counter of 32 bits as four bytes, the most significant first.
pub open spec fn be32(x: u32) -> Seq<u8> {
    Seq::new(4, |k: int| (x >> (8 * (3 - k)) as u32) as u8)
}

/// The input block of counter mode: the nonce of twelve bytes, then the
/// block counter.
pub open spec fn counter_block(nonce: Seq<u8>, counter: u32) -> Seq<u8> {
    nonce + be32(counter)
}

/// The counter `n` blocks after `counter`; it wraps at 2^32.
pub open spec fn counter_add(counter: u32, n: int) -> u32 {
    ((counter + n) % 0x1_0000_0000) as u32
}

/// Block `j` of the keystream that starts at `counter`.
pub open spec fn keystream_block(w: Seq<u8>, nonce: Seq<u8>, counter: u32, j: int) -> Seq<u8> {
    cipher(w, counter_block(nonce, counter_add(counter, j)))
}

/// The first `len` bytes of the keystream that starts at `counter`.
pub open spec fn keystream(w: Seq<u8>, nonce: Seq<u8>, counter: u32, len: nat) -> Seq<u8> {
    Seq::new(len, |i: int| keystream_block(w, nonce, counter, i / 16)[i % 16])
}

/// The keystream of AES-256 in counter mode for a key of 32 bytes and a nonce
/// of twelve, counting blocks from zero.
pub open spec fn aes256ctr_keystream(key: Seq<u8>, nonce: Seq<u8>, len: nat) -> Seq<u8> {
    keystream(key_expansion(key), nonce, 0, len)
}

} // verus!
