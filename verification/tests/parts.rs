//! The parts of the cipher, each on its own.

use aes256ctr::bitslice::{interleave_in, interleave_out, ortho, swap_inplace, swap_with_mask};
use aes256ctr::ctr::{aes_ctr, encrypt_planes, full_round, increment_counter, pack_blocks, unpack_blocks};
use aes256ctr::endian::{decode_u32_le, decode_u32_range_le, encode_u32_le, encode_u32_range_le, swap_bytes_32};
use aes256ctr::keyschedule::{aes_keyschedule, sub_word, RCON};
use aes256ctr::round::{add_round_key, mix_columns, rotate_right_32, shift_rows};
use aes256ctr::sbox::aes_sbox;

fn unhex(s: &str) -> Vec<u8> {
    (0..s.len() / 2).map(|i| u8::from_str_radix(&s[2 * i..2 * i + 2], 16).unwrap()).collect()
}

const SBOX: [u8; 256] = [
    0x63, 0x7c, 0x77, 0x7b, 0xf2, 0x6b, 0x6f, 0xc5, 0x30, 0x01, 0x67, 0x2b, 0xfe, 0xd7, 0xab, 0x76,
    0xca, 0x82, 0xc9, 0x7d, 0xfa, 0x59, 0x47, 0xf0, 0xad, 0xd4, 0xa2, 0xaf, 0x9c, 0xa4, 0x72, 0xc0,
    0xb7, 0xfd, 0x93, 0x26, 0x36, 0x3f, 0xf7, 0xcc, 0x34, 0xa5, 0xe5, 0xf1, 0x71, 0xd8, 0x31, 0x15,
    0x04, 0xc7, 0x23, 0xc3, 0x18, 0x96, 0x05, 0x9a, 0x07, 0x12, 0x80, 0xe2, 0xeb, 0x27, 0xb2, 0x75,
    0x09, 0x83, 0x2c, 0x1a, 0x1b, 0x6e, 0x5a, 0xa0, 0x52, 0x3b, 0xd6, 0xb3, 0x29, 0xe3, 0x2f, 0x84,
    0x53, 0xd1, 0x00, 0xed, 0x20, 0xfc, 0xb1, 0x5b, 0x6a, 0xcb, 0xbe, 0x39, 0x4a, 0x4c, 0x58, 0xcf,
    0xd0, 0xef, 0xaa, 0xfb, 0x43, 0x4d, 0x33, 0x85, 0x45, 0xf9, 0x02, 0x7f, 0x50, 0x3c, 0x9f, 0xa8,
    0x51, 0xa3, 0x40, 0x8f, 0x92, 0x9d, 0x38, 0xf5, 0xbc, 0xb6, 0xda, 0x21, 0x10, 0xff, 0xf3, 0xd2,
    0xcd, 0x0c, 0x13, 0xec, 0x5f, 0x97, 0x44, 0x17, 0xc4, 0xa7, 0x7e, 0x3d, 0x64, 0x5d, 0x19, 0x73,
    0x60, 0x81, 0x4f, 0xdc, 0x22, 0x2a, 0x90, 0x88, 0x46, 0xee, 0xb8, 0x14, 0xde, 0x5e, 0x0b, 0xdb,
    0xe0, 0x32, 0x3a, 0x0a, 0x49, 0x06, 0x24, 0x5c, 0xc2, 0xd3, 0xac, 0x62, 0x91, 0x95, 0xe4, 0x79,
    0xe7, 0xc8, 0x37, 0x6d, 0x8d, 0xd5, 0x4e, 0xa9, 0x6c, 0x56, 0xf4, 0xea, 0x65, 0x7a, 0xae, 0x08,
    0xba, 0x78, 0x25, 0x2e, 0x1c, 0xa6, 0xb4, 0xc6, 0xe8, 0xdd, 0x74, 0x1f, 0x4b, 0xbd, 0x8b, 0x8a,
    0x70, 0x3e, 0xb5, 0x66, 0x48, 0x03, 0xf6, 0x0e, 0x61, 0x35, 0x57, 0xb9, 0x86, 0xc1, 0x1d, 0x9e,
    0xe1, 0xf8, 0x98, 0x11, 0x69, 0xd9, 0x8e, 0x94, 0x9b, 0x1e, 0x87, 0xe9, 0xce, 0x55, 0x28, 0xdf,
    0x8c, 0xa1, 0x89, 0x0d, 0xbf, 0xe6, 0x42, 0x68, 0x41, 0x99, 0x2d, 0x0f, 0xb0, 0x54, 0xbb, 0x16,
];

const BLOCKS: [&str; 4] = ["00112233445566778899aabbccddeeff", "db135345f20a225c01010101c6c6c6c6", "3f5061728394a5b6c7d8e9fa0b1c2d3e", "5c6d7e8fa0b1c2d3e4f5061728394a5b"];

/// The planes that hold the four blocks.
fn planes_of(blocks: &[&str; 4]) -> [u64; 8] {
    let mut w = [0u32; 16];
    for b in 0..4 {
        let bytes = unhex(blocks[b]);
        for c in 0..4 {
            w[4 * b + c] = u32::from_le_bytes([bytes[4 * c], bytes[4 * c + 1], bytes[4 * c + 2], bytes[4 * c + 3]]);
        }
    }
    pack_blocks(&w)
}

/// The four blocks that the planes hold.
fn blocks_of(q: &[u64; 8]) -> Vec<Vec<u8>> {
    let mut t = *q;
    let w = unpack_blocks(&mut t);
    (0..4).map(|b| w[4 * b..4 * b + 4].iter().flat_map(|x| x.to_le_bytes()).collect()).collect()
}

fn expect(q: &[u64; 8], blocks: &[&str; 4]) {
    let got = blocks_of(q);
    for b in 0..4 {
        assert_eq!(got[b], unhex(blocks[b]), "block {}", b);
    }
}

#[test]
fn decode_u32_le_reads_low_byte_first() {
    assert_eq!(decode_u32_le(&[0x01, 0x02, 0x03, 0x04]), 0x04030201);
    assert_eq!(decode_u32_le(&[0xff, 0x00, 0x00, 0x80, 0x55]), 0x800000ff);
}

#[test]
fn decode_u32_range_le_fills_the_front() {
    let mut v = [0xdeadbeefu32; 4];
    decode_u32_range_le(&mut v, &[1, 0, 0, 0, 2, 0, 0, 0, 0x78, 0x56, 0x34, 0x12]);
    assert_eq!(v, [1, 2, 0x12345678, 0xdeadbeef]);
}

#[test]
fn decode_u32_range_le_ignores_a_trailing_part() {
    let mut v = [7u32; 2];
    decode_u32_range_le(&mut v, &[1, 0, 0, 0, 9, 9, 9]);
    assert_eq!(v, [1, 7]);
    decode_u32_range_le(&mut v, &[]);
    assert_eq!(v, [1, 7]);
}

#[test]
fn encode_u32_le_writes_low_byte_first() {
    let mut d = [0u8; 4];
    encode_u32_le(&mut d, 0x12345678);
    assert_eq!(d, [0x78, 0x56, 0x34, 0x12]);
}

#[test]
fn encode_u32_range_le_writes_the_front() {
    let mut d = [0xeeu8; 10];
    encode_u32_range_le(&mut d, &[0x04030201, 0x80000000]);
    assert_eq!(d, [1, 2, 3, 4, 0, 0, 0, 0x80, 0xee, 0xee]);
    encode_u32_range_le(&mut d, &[]);
    assert_eq!(d, [1, 2, 3, 4, 0, 0, 0, 0x80, 0xee, 0xee]);
}

#[test]
fn encode_then_decode_round_trip() {
    let words = [0u32, 1, 0xffffffff, 0x01020304, 0xa5a5a5a5];
    let mut bytes = [0u8; 20];
    encode_u32_range_le(&mut bytes, &words);
    let mut back = [0u32; 5];
    decode_u32_range_le(&mut back, &bytes);
    assert_eq!(back, words);
}

#[test]
fn swap_bytes_32_reverses_the_bytes() {
    assert_eq!(swap_bytes_32(0x01020304), 0x04030201);
    assert_eq!(swap_bytes_32(0), 0);
    assert_eq!(swap_bytes_32(1), 0x01000000);
    assert_eq!(swap_bytes_32(0xff00aa55), 0x55aa00ff);
    for x in [0x12345678u32, 0xdeadbeef, 0x80000001] {
        assert_eq!(swap_bytes_32(x), x.swap_bytes());
        assert_eq!(swap_bytes_32(swap_bytes_32(x)), x);
    }
}

#[test]
fn swap_with_mask_exchanges_the_odd_and_even_bits() {
    let mut y = 0x0000_0000_0000_0000u64;
    let x = swap_with_mask(0xffff_ffff_ffff_ffff, &mut y, 0x5555555555555555, 1);
    assert_eq!(x, 0x5555555555555555);
    assert_eq!(y, 0x5555555555555555);
    let mut y = 0xffff_ffff_ffff_ffffu64;
    let x = swap_with_mask(0, &mut y, 0x5555555555555555, 1);
    assert_eq!(x, 0xaaaaaaaaaaaaaaaa);
    assert_eq!(y, 0xaaaaaaaaaaaaaaaa);
}

#[test]
fn swap_with_mask_twice_restores_both() {
    for (mask, shift) in [(0x5555555555555555u64, 1usize), (0x3333333333333333, 2), (0x0f0f0f0f0f0f0f0f, 4)] {
        let x0 = 0x0123456789abcdefu64;
        let y0 = 0xfedcba9876543210u64;
        let mut y = y0;
        let x = swap_with_mask(x0, &mut y, mask, shift);
        assert!(x != x0 || y != y0);
        let mut y2 = y;
        let x2 = swap_inplace(x, &mut y2, mask, shift);
        assert_eq!((x2, y2), (x0, y0));
    }
}

#[test]
fn swap_inplace_is_swap_with_mask() {
    let mut a = 0x1122334455667788u64;
    let mut b = a;
    let r1 = swap_inplace(0x99aabbccddeeff00, &mut a, 0x3333333333333333, 2);
    let r2 = swap_with_mask(0x99aabbccddeeff00, &mut b, 0x3333333333333333, 2);
    assert_eq!((r1, a), (r2, b));
}

#[test]
fn ortho_transposes_bits_in_every_byte_column() {
    // Plane c gets the value c in byte j: afterwards position 8 * j + c
    // holds the byte c, so plane i has bit 8 * j + c set where bit i of c
    // is set.
    let mut q = [0u64; 8];
    for c in 0..8 {
        q[c] = 0x0101010101010101u64 * c as u64;
    }
    ortho(&mut q);
    assert_eq!(q[0], 0xaaaaaaaaaaaaaaaa);
    assert_eq!(q[1], 0xcccccccccccccccc);
    assert_eq!(q[2], 0xf0f0f0f0f0f0f0f0);
    for i in 3..8 {
        assert_eq!(q[i], 0);
    }
}

#[test]
fn ortho_is_its_own_inverse() {
    let mut q = [
        0x0123456789abcdefu64,
        0xfedcba9876543210,
        0x0f1e2d3c4b5a6978,
        0x8796a5b4c3d2e1f0,
        0xdeadbeefcafebabe,
        0x0000000000000001,
        0x8000000000000000,
        0xffffffffffffffff,
    ];
    let before = q;
    ortho(&mut q);
    assert_ne!(q, before);
    ortho(&mut q);
    assert_eq!(q, before);
}

#[test]
fn interleave_in_lays_bytes_in_turn() {
    let mut q0 = 0u64;
    let mut q1 = 0u64;
    interleave_in(&mut q0, &mut q1, &[0x03020100, 0x13121110, 0x23222120, 0x33323130]);
    assert_eq!(q0, 0x2303220221012000);
    assert_eq!(q1, 0x3313321231113010);
}

#[test]
fn interleave_out_undoes_interleave_in() {
    let words = [0xdeadbeefu32, 0x01234567, 0x89abcdef, 0xffffffff];
    let mut q0 = 0u64;
    let mut q1 = 0u64;
    interleave_in(&mut q0, &mut q1, &words);
    let mut back = [0u32; 5];
    back[4] = 77;
    interleave_out(&mut back, q0, q1);
    assert_eq!(back, [0xdeadbeef, 0x01234567, 0x89abcdef, 0xffffffff, 77]);
}

#[test]
fn interleave_in_undoes_interleave_out() {
    let (q0, q1) = (0x0123456789abcdefu64, 0xfedcba9876543210u64);
    let mut w = [0u32; 4];
    interleave_out(&mut w, q0, q1);
    let (mut r0, mut r1) = (0u64, 0u64);
    interleave_in(&mut r0, &mut r1, &w);
    assert_eq!((r0, r1), (q0, q1));
}

#[test]
fn pack_then_unpack_gives_the_words_back() {
    let mut w = [0u32; 16];
    for i in 0..16 {
        w[i] = 0x01010101u32.wrapping_mul(i as u32 + 1) ^ 0x00c0ffee;
    }
    let mut q = pack_blocks(&w);
    assert_eq!(unpack_blocks(&mut q), w);
}

#[test]
fn sub_word_applies_the_sbox_to_each_byte() {
    assert_eq!(sub_word(0x00000000), 0x63636363);
    assert_eq!(sub_word(0xff530100), 0x16ed7c63);
    assert_eq!(sub_word(0x9a10ff53), 0xb8ca16ed);
}

#[test]
fn rcon_is_the_powers_of_x() {
    assert_eq!(RCON, [0x01, 0x02, 0x04, 0x08, 0x10, 0x20, 0x40, 0x80, 0x1b, 0x36]);
}

#[test]
fn aes_sbox_is_sub_bytes_in_four_blocks() {
    let mut q = planes_of(&BLOCKS);
    aes_sbox(&mut q);
    expect(&q, &["638293c31bfc33f5c4eeacea4bc12816", "b97ded6e8967934a7c7c7c7cb4b4b4b4", "7553ef40ec22064ec6611e2d2b9cd8b2", "4a3cf373e0c8256669e66ff03412d639"]);
}

#[test]
fn aes_sbox_covers_all_256_bytes() {
    // Sixteen blocks hold every byte value once; the S-box is a bijection
    // with no fixed point and no opposite fixed point.
    let mut seen = [false; 256];
    for g in 0..4u32 {
        let mut w = [0u32; 16];
        for i in 0..16u32 {
            let v = 64 * g + 4 * i;
            w[i as usize] = v | (v + 1) << 8 | (v + 2) << 16 | (v + 3) << 24;
        }
        let mut q = pack_blocks(&w);
        aes_sbox(&mut q);
        let out = unpack_blocks(&mut q);
        for i in 0..16 {
            for (k, s) in out[i].to_le_bytes().iter().enumerate() {
                let a = (w[i] >> (8 * k)) as u8;
                assert_ne!(*s, a);
                assert_ne!(*s, !a);
                assert!(!seen[*s as usize]);
                seen[*s as usize] = true;
            }
        }
    }
    assert!(seen.iter().all(|x| *x));
}

#[test]
fn shift_rows_moves_row_r_by_r_columns() {
    let mut q = planes_of(&BLOCKS);
    shift_rows(&mut q);
    expect(&q, &["0055aaff4499ee3388dd2277cc1166bb", "db0a01c6f201c64501c6535cc6132201", "3f94e93e83d82d72c71c61b60b50a5fa", "5cb1065ba0f54a8fe4397ed3286dc217"]);
}

#[test]
fn mix_columns_multiplies_every_column() {
    let mut q = planes_of(&BLOCKS);
    mix_columns(&mut q);
    expect(&q, &["2277005566334411aaff88ddeebbcc99", "8e4da1bc9fdc589d01010101c6c6c6c6", "9d4e3b94a9f287d8f5b6c38c217a0f50", "fe8b47f28257e035c60824ea0adf68bd"]);
}

#[test]
fn mix_columns_standard_columns() {
    let mut q = planes_of(&["db135345f20a225c01010101c6c6c6c6", "d4d4d4d52d26314c00000000ffffffff",
        "00000000000000000000000000000000", "01000000000100000000010000000001"]);
    mix_columns(&mut q);
    expect(&q, &["8e4da1bc9fdc589d01010101c6c6c6c6", "d5d5d7d64d7ebdf800000000ffffffff",
        "00000000000000000000000000000000", "02010103030201010103020101010302"]);
}

#[test]
fn rotate_right_32_swaps_the_halves() {
    assert_eq!(rotate_right_32(0x0123456789abcdef), 0x89abcdef01234567);
    assert_eq!(rotate_right_32(1), 0x0000000100000000);
    assert_eq!(rotate_right_32(rotate_right_32(0xdeadbeef00c0ffee)), 0xdeadbeef00c0ffee);
}

#[test]
fn add_round_key_adds_plane_by_plane() {
    let mut q = [1u64, 2, 3, 4, 5, 6, 7, 8];
    add_round_key(&mut q, &[0xff, 0xff, 0xff, 0xff, 0, 0, 0, 0, 99]);
    assert_eq!(q, [0xfe, 0xfd, 0xfc, 0xfb, 5, 6, 7, 8]);
}

#[test]
fn add_round_key_adds_the_round_key_in_four_blocks() {
    let key: Vec<u8> = (0u8..32).collect();
    let mut sk = [0u64; 120];
    aes_keyschedule(&mut sk, &key);
    let mut q = planes_of(&BLOCKS);
    add_round_key(&mut q, &sk[16..24]);
    expect(&q, &["a562e0ace523a2ef21e6642869af2e63", "7e6091da537ce6c4a87ecf9263b4065a", "9a23a3ed22e2612e6ea72769ae6eeda2", "f91ebc1001c7064b4d8ac8848d4b8ac7"]);
    add_round_key(&mut q, &sk[16..24]);
    expect(&q, &BLOCKS);
}

#[test]
fn full_round_is_the_four_steps() {
    let key: Vec<u8> = (0u8..32).collect();
    let mut sk = [0u64; 120];
    aes_keyschedule(&mut sk, &key);
    let mut q = planes_of(&BLOCKS);
    full_round(&mut q, &sk, 5);
    expect(&q, &["0e9817919bc2b4e4d8fed7a7a153db2e", "65a610f0387d7b06ed913c1a6824215c", "4d40579497b8a984fc79a6edfb1252ff", "eca8e64320806b7f04ddc7c58a6b1833"]);
    let mut p = planes_of(&BLOCKS);
    aes_sbox(&mut p);
    shift_rows(&mut p);
    mix_columns(&mut p);
    add_round_key(&mut p, &sk[40..48]);
    assert_eq!(p, q);
}

#[test]
fn encrypt_planes_is_the_cipher_in_four_blocks() {
    let key: Vec<u8> = (0u8..32).collect();
    let mut sk = [0u64; 120];
    aes_keyschedule(&mut sk, &key);
    let mut q = planes_of(&BLOCKS);
    encrypt_planes(&mut q, &sk);
    expect(&q, &["8ea2b7ca516745bfeafc49904b496089", "65cec8aef610ca32884514d144cb2bf1", "8c9017643bfaf8c204ad546f7720cc83", "f5e6fade26860f5086facadd06f3020a"]);
}

#[test]
fn increment_counter_adds_to_the_four_counters() {
    let mut ivw = [0u32; 17];
    for i in 0..17 {
        ivw[i] = 0x1000 + i as u32;
    }
    ivw[3] = 0u32.swap_bytes();
    ivw[7] = 0x000000ffu32.swap_bytes();
    ivw[11] = 0xfffffffeu32.swap_bytes();
    ivw[15] = 0x12345678u32.swap_bytes();
    increment_counter(&mut ivw, 4);
    assert_eq!(ivw[3], 0x04000000);
    assert_eq!(ivw[7], 0x00000103u32.swap_bytes());
    assert_eq!(ivw[11], 0x00000002u32.swap_bytes());
    assert_eq!(ivw[15], 0x1234567cu32.swap_bytes());
    for i in 0..17 {
        if i % 4 != 3 || i == 16 {
            assert_eq!(ivw[i], 0x1000 + i as u32);
        }
    }
}

#[test]
fn increment_counter_by_zero_changes_nothing() {
    let mut ivw = [0x01020304u32; 16];
    increment_counter(&mut ivw, 0);
    assert_eq!(ivw, [0x01020304u32; 16]);
}

#[test]
fn aes_ctr_enciphers_each_block_with_its_own_input() {
    let key: Vec<u8> = (0u8..32).collect();
    let mut sk = [0u64; 120];
    aes_keyschedule(&mut sk, &key);
    let mut ivw = [0u32; 16];
    for b in 0..4 {
        let bytes = unhex(BLOCKS[b]);
        for c in 0..4 {
            ivw[4 * b + c] = u32::from_le_bytes([bytes[4 * c], bytes[4 * c + 1], bytes[4 * c + 2], bytes[4 * c + 3]]);
        }
    }
    let before = ivw;
    let mut out = [0x77u8; 66];
    aes_ctr(&mut out, &mut ivw, &sk);
    let enc = ["8ea2b7ca516745bfeafc49904b496089", "65cec8aef610ca32884514d144cb2bf1", "8c9017643bfaf8c204ad546f7720cc83", "f5e6fade26860f5086facadd06f3020a"];
    for b in 0..4 {
        assert_eq!(out[16 * b..16 * b + 16].to_vec(), unhex(enc[b]));
    }
    assert_eq!(out[64..].to_vec(), vec![0x77u8; 2]);
    for i in 0..16 {
        if i % 4 == 3 {
            assert_eq!(ivw[i].swap_bytes(), before[i].swap_bytes().wrapping_add(4));
        } else {
            assert_eq!(ivw[i], before[i]);
        }
    }
}

#[test]
fn aes_sbox_matches_the_table() {
    for g in 0..4u32 {
        let mut w = [0u32; 16];
        for i in 0..16u32 {
            let v = 64 * g + 4 * i;
            w[i as usize] = v | (v + 1) << 8 | (v + 2) << 16 | (v + 3) << 24;
        }
        let mut q = pack_blocks(&w);
        aes_sbox(&mut q);
        let out = unpack_blocks(&mut q);
        for i in 0..16 {
            for (k, s) in out[i].to_le_bytes().iter().enumerate() {
                let a = (w[i] >> (8 * k)) as u8;
                assert_eq!(*s, SBOX[a as usize], "S-box of {:02x}", a);
            }
        }
    }
}

#[test]
fn sub_word_matches_the_table() {
    for a in 0..=255u32 {
        let x = a | ((a + 1) & 0xff) << 8 | ((a + 2) & 0xff) << 16 | ((a + 3) & 0xff) << 24;
        let y = sub_word(x).to_le_bytes();
        for k in 0..4 {
            assert_eq!(y[k], SBOX[((a as usize) + k) & 0xff]);
        }
    }
}
