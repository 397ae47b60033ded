//! Keystreams and round keys from the standards.

use aes256ctr::bitslice::ortho;
use aes256ctr::ctr::unpack_blocks;
use aes256ctr::keyschedule::aes_keyschedule;
use aes256ctr::{aes256ctr_init, aes256ctr_squeeze_blocks, Aes256ctrCtx, AES256CTR_BLOCKBYTES};

fn hex(s: &str) -> Vec<u8> {
    let digits: Vec<u8> = s
        .bytes()
        .filter(|c| !c.is_ascii_whitespace())
        .map(|c| match c {
            b'0'..=b'9' => c - b'0',
            b'a'..=b'f' => c - b'a' + 10,
            b'A'..=b'F' => c - b'A' + 10,
            _ => panic!("not a hex digit"),
        })
        .collect();
    assert_eq!(digits.len() % 2, 0);
    digits.chunks(2).map(|p| p[0] * 16 + p[1]).collect()
}

/// A context whose first block is `block` and whose other three blocks count
/// on from it.
fn context_at(key: &[u8], block: &[u8]) -> Aes256ctrCtx {
    let mut ctx = Aes256ctrCtx::default();
    aes256ctr_init(&mut ctx, key, &block[..12]);
    let counter = u32::from_be_bytes([block[12], block[13], block[14], block[15]]);
    for b in 0..4u32 {
        ctx.ivw[4 * b as usize + 3] = u32::from_le_bytes(counter.wrapping_add(b).to_be_bytes());
    }
    ctx
}

#[test]
fn block_bytes_is_four_blocks() {
    assert_eq!(AES256CTR_BLOCKBYTES, 64);
}

#[test]
fn fips197_example_block() {
    let key = hex("000102030405060708090a0b0c0d0e0f101112131415161718191a1b1c1d1e1f");
    let block = hex("00112233445566778899aabbccddeeff");
    let mut ctx = context_at(&key, &block);
    let mut out = [0u8; 64];
    aes256ctr_squeeze_blocks(&mut out, 1, &mut ctx);
    assert_eq!(out[..16].to_vec(), hex("8ea2b7ca516745bfeafc49904b496089"));
}

#[test]
fn sp800_38a_ctr_aes256_keystream() {
    let key = hex("603deb1015ca71be2b73aef0857d77811f352c073b6108d72d9810a30914dff4");
    let block = hex("f0f1f2f3f4f5f6f7f8f9fafbfcfdfeff");
    let mut ctx = context_at(&key, &block);
    let mut out = [0u8; 64];
    aes256ctr_squeeze_blocks(&mut out, 1, &mut ctx);
    let expected = hex(
        "0bdf7df1591716335e9a8b15c860c502
         5a6e699d536119065433863c8f657b94
         1bc12c9c01610d5d0d8bd6a3378eca62
         2956e1c8693536b1bee99c73a31576b6",
    );
    assert_eq!(out.to_vec(), expected);
}

#[test]
fn sp800_38a_ctr_aes256_encrypt() {
    let key = hex("603deb1015ca71be2b73aef0857d77811f352c073b6108d72d9810a30914dff4");
    let block = hex("f0f1f2f3f4f5f6f7f8f9fafbfcfdfeff");
    let plain = hex(
        "6bc1bee22e409f96e93d7e117393172a
         ae2d8a571e03ac9c9eb76fac45af8e51
         30c81c46a35ce411e5fbc1191a0a52ef
         f69f2445df4f9b17ad2b417be66c3710",
    );
    let cipher = hex(
        "601ec313775789a5b7a7f504bbf3d228
         f443e3ca4d62b59aca84e990cacaf5c5
         2b0930daa23de94ce87017ba2d84988d
         dfc9c58db67aada613c2dd08457941a6",
    );
    let mut ctx = context_at(&key, &block);
    let mut ks = [0u8; 64];
    aes256ctr_squeeze_blocks(&mut ks, 1, &mut ctx);
    let got: Vec<u8> = plain.iter().zip(ks.iter()).map(|(p, k)| p ^ k).collect();
    assert_eq!(got, cipher);
}

#[test]
fn rfc3686_vector_7_after_init() {
    // The vector counts from one; a fresh context counts from zero, so its
    // second block is the vector's first.
    let key = hex("776beff2851db06f4c8a0542c8696f6c6a81af1eec96b4d37fc1d689e6c1c104");
    let nonce = hex("00000060db5672c97aa8f0b2");
    let mut ctx = Aes256ctrCtx::default();
    aes256ctr_init(&mut ctx, &key, &nonce);
    let mut ks = [0u8; 64];
    aes256ctr_squeeze_blocks(&mut ks, 1, &mut ctx);
    let plain = b"Single block msg";
    let got: Vec<u8> = plain.iter().zip(ks[16..32].iter()).map(|(p, k)| p ^ k).collect();
    assert_eq!(got, hex("145ad01dbf824ec7560863dc71e3e0c0"));
}

#[test]
fn keystream_from_zero_three_passes() {
    let key: Vec<u8> = (0u8..32).collect();
    let nonce: Vec<u8> = (0xa0u8..0xac).collect();
    let mut ctx = Aes256ctrCtx::default();
    aes256ctr_init(&mut ctx, &key, &nonce);
    let mut out = vec![0u8; 192];
    aes256ctr_squeeze_blocks(&mut out, 3, &mut ctx);
    let expected = hex(
        "b7a435ce454463b760dc82c838468a115c699625af4b93a0f8220a2a6119c5d0
         e6187c2d45cb02bf626587d3077ac0de70ac591092b7426c9c0e26867fab7501
         d27647ffaf22533d5f9c04c8097a83f9471b464862d01a7e415e0b5ea47085b0
         b4bc856f30a5e4e0f4e2ff188fceccbacd0baba4c5c1997aee753e9ab19a4d94
         8f842bab03ae8f9b9edb06508588ed28245061aede359b3c2fcfdea4b455f24d
         c511b07fd34280173759fe8b124a91d688d9ad6bbed0fa8cfdcdbdf5afc7342b",
    );
    assert_eq!(out, expected);
}

#[test]
fn keystream_across_counter_wrap() {
    // Blocks 0xfffffffe, 0xffffffff, 0, 1: the last two are the first two of
    // the keystream from zero.
    let key: Vec<u8> = (0u8..32).collect();
    let mut block: Vec<u8> = (0xa0u8..0xac).collect();
    block.extend_from_slice(&[0xff, 0xff, 0xff, 0xfe]);
    let mut ctx = context_at(&key, &block);
    let mut out = [0u8; 64];
    aes256ctr_squeeze_blocks(&mut out, 1, &mut ctx);
    let expected = hex(
        "f093967633fd3af5a70af9d6f9de5c59e3d021d9bab86ffdd1a737a642eef7e0
         b7a435ce454463b760dc82c838468a115c699625af4b93a0f8220a2a6119c5d0",
    );
    assert_eq!(out.to_vec(), expected);
}

/// The sixteen bytes of round key `i`, as block `b` of the planes holds
/// them.
fn round_key_bytes(sk: &[u64], i: usize, b: usize) -> Vec<u8> {
    let mut q = [0u64; 8];
    q.copy_from_slice(&sk[8 * i..8 * i + 8]);
    let w = unpack_blocks(&mut q);
    w[4 * b..4 * b + 4].iter().flat_map(|x| x.to_le_bytes()).collect()
}

#[test]
fn key_schedule_fips197_appendix_a3() {
    let key = hex("603deb1015ca71be2b73aef0857d77811f352c073b6108d72d9810a30914dff4");
    let mut sk = [0u64; 120];
    aes_keyschedule(&mut sk, &key);
    assert_eq!(round_key_bytes(&sk, 0, 0), key[..16].to_vec());
    assert_eq!(round_key_bytes(&sk, 1, 0), key[16..].to_vec());
    assert_eq!(round_key_bytes(&sk, 2, 0), hex("9ba354118e6925afa51a8b5f2067fcde"));
    assert_eq!(round_key_bytes(&sk, 14, 0)[12..].to_vec(), hex("706c631e"));
}

#[test]
fn key_schedule_fips197_appendix_c3() {
    let key: Vec<u8> = (0u8..32).collect();
    let mut sk = [0u64; 120];
    aes_keyschedule(&mut sk, &key);
    assert_eq!(round_key_bytes(&sk, 1, 0), hex("101112131415161718191a1b1c1d1e1f"));
    assert_eq!(round_key_bytes(&sk, 2, 0), hex("a573c29fa176c498a97fce93a572c09c"));
    assert_eq!(round_key_bytes(&sk, 14, 0), hex("24fc79ccbf0979e9371ac23c6d68de36"));
}

#[test]
fn key_schedule_same_key_in_all_four_blocks() {
    let key: Vec<u8> = (0u8..32).map(|x| x.wrapping_mul(37).wrapping_add(11)).collect();
    let mut sk = [0u64; 120];
    aes_keyschedule(&mut sk, &key);
    for i in 0..15 {
        let first = round_key_bytes(&sk, i, 0);
        for b in 1..4 {
            assert_eq!(round_key_bytes(&sk, i, b), first);
        }
    }
}

#[test]
fn key_schedule_leaves_words_behind_untouched() {
    let key: Vec<u8> = (0u8..32).collect();
    let mut sk = vec![0x5a5a_5a5a_5a5a_5a5au64; 124];
    aes_keyschedule(&mut sk, &key);
    assert_eq!(sk[120..].to_vec(), vec![0x5a5a_5a5a_5a5a_5a5au64; 4]);
    let mut again = [0u64; 120];
    aes_keyschedule(&mut again, &key);
    assert_eq!(sk[..120].to_vec(), again.to_vec());
}

#[test]
fn ortho_twice_is_identity_on_round_keys() {
    let key: Vec<u8> = (0u8..32).collect();
    let mut sk = [0u64; 120];
    aes_keyschedule(&mut sk, &key);
    let mut q = [0u64; 8];
    q.copy_from_slice(&sk[8..16]);
    let before = q;
    ortho(&mut q);
    assert_ne!(q, before);
    ortho(&mut q);
    assert_eq!(q, before);
}
