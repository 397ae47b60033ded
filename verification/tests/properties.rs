//! What holds of every keystream, tried on chosen values.

use aes256ctr::{aes256ctr_init, aes256ctr_squeeze_blocks, Aes256ctrCtx};

fn fresh(key: &[u8; 32], nonce: &[u8; 12]) -> Aes256ctrCtx {
    let mut ctx = Aes256ctrCtx::default();
    aes256ctr_init(&mut ctx, key, nonce);
    ctx
}

fn sample_key(seed: u8) -> [u8; 32] {
    let mut k = [0u8; 32];
    let mut x = seed as u32 * 2654435761u32 + 12345;
    for b in k.iter_mut() {
        x = x.wrapping_mul(1664525).wrapping_add(1013904223);
        *b = (x >> 24) as u8;
    }
    k
}

fn sample_nonce(seed: u8) -> [u8; 12] {
    let k = sample_key(seed.wrapping_add(101));
    let mut n = [0u8; 12];
    n.copy_from_slice(&k[..12]);
    n
}

fn counters(ctx: &Aes256ctrCtx) -> [u32; 4] {
    [
        ctx.ivw[3].swap_bytes(),
        ctx.ivw[7].swap_bytes(),
        ctx.ivw[11].swap_bytes(),
        ctx.ivw[15].swap_bytes(),
    ]
}

#[test]
fn default_context_is_all_zero() {
    let ctx = Aes256ctrCtx::default();
    assert_eq!(ctx.sk_exp, [0u64; 120]);
    assert_eq!(ctx.ivw, [0u32; 16]);
}

#[test]
fn init_sets_nonce_and_counters() {
    let key = sample_key(1);
    let nonce: [u8; 12] = [1, 2, 3, 4, 5, 6, 7, 8, 9, 10, 11, 12];
    let ctx = fresh(&key, &nonce);
    for b in 0..4 {
        assert_eq!(ctx.ivw[4 * b], 0x04030201);
        assert_eq!(ctx.ivw[4 * b + 1], 0x08070605);
        assert_eq!(ctx.ivw[4 * b + 2], 0x0c0b0a09);
    }
    assert_eq!(ctx.ivw[3], 0x0000_0000);
    assert_eq!(ctx.ivw[7], 0x0100_0000);
    assert_eq!(ctx.ivw[11], 0x0200_0000);
    assert_eq!(ctx.ivw[15], 0x0300_0000);
    assert_eq!(counters(&ctx), [0, 1, 2, 3]);
}

#[test]
fn init_overwrites_an_old_context() {
    let mut ctx = fresh(&sample_key(9), &sample_nonce(9));
    let mut skip = [0u8; 128];
    aes256ctr_squeeze_blocks(&mut skip, 2, &mut ctx);
    let key = sample_key(2);
    let nonce = sample_nonce(2);
    aes256ctr_init(&mut ctx, &key, &nonce);
    let clean = fresh(&key, &nonce);
    assert_eq!(ctx.sk_exp, clean.sk_exp);
    assert_eq!(ctx.ivw, clean.ivw);
}

#[test]
fn squeeze_in_two_calls_equals_one_call() {
    let key = sample_key(3);
    let nonce = sample_nonce(3);
    for a in 0..4u64 {
        for b in 0..4u64 {
            let mut once = vec![0u8; 64 * (a + b) as usize];
            let mut c1 = fresh(&key, &nonce);
            aes256ctr_squeeze_blocks(&mut once, a + b, &mut c1);

            let mut first = vec![0u8; 64 * a as usize];
            let mut second = vec![0u8; 64 * b as usize];
            let mut c2 = fresh(&key, &nonce);
            aes256ctr_squeeze_blocks(&mut first, a, &mut c2);
            aes256ctr_squeeze_blocks(&mut second, b, &mut c2);
            first.extend_from_slice(&second);

            assert_eq!(once, first);
            assert_eq!(c1.ivw, c2.ivw);
            assert_eq!(c1.sk_exp, c2.sk_exp);
        }
    }
}

#[test]
fn counters_advance_by_four_per_pass() {
    let key = sample_key(4);
    let nonce = sample_nonce(4);
    let mut ctx = fresh(&key, &nonce);
    let start = ctx.ivw;
    let keys = ctx.sk_exp;
    let mut out = vec![0u8; 64 * 5];
    aes256ctr_squeeze_blocks(&mut out, 5, &mut ctx);
    assert_eq!(counters(&ctx), [20, 21, 22, 23]);
    for i in 0..16 {
        if i % 4 != 3 {
            assert_eq!(ctx.ivw[i], start[i]);
        }
    }
    assert_eq!(ctx.sk_exp, keys);
    aes256ctr_squeeze_blocks(&mut out, 2, &mut ctx);
    assert_eq!(counters(&ctx), [28, 29, 30, 31]);
    assert_eq!(ctx.ivw[3], 28u32.swap_bytes());
}

#[test]
fn counters_wrap_modulo_two_to_the_32() {
    let key = sample_key(5);
    let nonce = sample_nonce(5);
    let mut ctx = fresh(&key, &nonce);
    ctx.ivw[3] = 0xffff_fffcu32.swap_bytes();
    ctx.ivw[7] = 0xffff_fffdu32.swap_bytes();
    ctx.ivw[11] = 0xffff_fffeu32.swap_bytes();
    ctx.ivw[15] = 0xffff_ffffu32.swap_bytes();
    let mut out = [0u8; 128];
    aes256ctr_squeeze_blocks(&mut out, 2, &mut ctx);
    assert_eq!(counters(&ctx), [4, 5, 6, 7]);
    // After the wrap the keystream is that of a fresh context.
    let mut clean = fresh(&key, &nonce);
    let mut head = [0u8; 64];
    aes256ctr_squeeze_blocks(&mut head, 1, &mut clean);
    assert_eq!(out[64..].to_vec(), head.to_vec());
    assert_ne!(out[..64].to_vec(), head.to_vec());
}

#[test]
fn same_key_and_nonce_same_keystream() {
    let key = sample_key(6);
    let nonce = sample_nonce(6);
    let mut a = fresh(&key, &nonce);
    let mut b = fresh(&key, &nonce);
    assert_eq!(a.sk_exp, b.sk_exp);
    assert_eq!(a.ivw, b.ivw);
    let mut x = [0u8; 256];
    let mut y = [0u8; 256];
    aes256ctr_squeeze_blocks(&mut x, 4, &mut a);
    aes256ctr_squeeze_blocks(&mut y, 4, &mut b);
    assert_eq!(x.to_vec(), y.to_vec());
}

fn differing_bits(a: &[u8], b: &[u8]) -> u32 {
    a.iter().zip(b.iter()).map(|(x, y)| (x ^ y).count_ones()).sum()
}

#[test]
fn one_key_bit_changes_about_half_the_output() {
    let mut total = 0u32;
    let mut trials = 0u32;
    for seed in 0..8u8 {
        let key = sample_key(seed);
        let nonce = sample_nonce(seed);
        let mut base = [0u8; 128];
        aes256ctr_squeeze_blocks(&mut base, 2, &mut fresh(&key, &nonce));
        for bit in [0usize, 7, 64, 129, 200, 255] {
            let mut k2 = key;
            k2[bit / 8] ^= 1 << (bit % 8);
            let mut other = [0u8; 128];
            aes256ctr_squeeze_blocks(&mut other, 2, &mut fresh(&k2, &nonce));
            let d = differing_bits(&base, &other);
            assert!(d > 1024 * 35 / 100 && d < 1024 * 65 / 100, "{} of 1024 bits differ", d);
            total += d;
            trials += 1;
        }
    }
    let mean = total / trials;
    assert!(mean > 1024 * 45 / 100 && mean < 1024 * 55 / 100, "mean {}", mean);
}

#[test]
fn one_nonce_bit_changes_about_half_the_output() {
    let mut total = 0u32;
    let mut trials = 0u32;
    for seed in 20..28u8 {
        let key = sample_key(seed);
        let nonce = sample_nonce(seed);
        let mut base = [0u8; 128];
        aes256ctr_squeeze_blocks(&mut base, 2, &mut fresh(&key, &nonce));
        for bit in [0usize, 13, 47, 95] {
            let mut n2 = nonce;
            n2[bit / 8] ^= 1 << (bit % 8);
            let mut other = [0u8; 128];
            aes256ctr_squeeze_blocks(&mut other, 2, &mut fresh(&key, &n2));
            let d = differing_bits(&base, &other);
            assert!(d > 1024 * 35 / 100 && d < 1024 * 65 / 100, "{} of 1024 bits differ", d);
            total += d;
            trials += 1;
        }
    }
    let mean = total / trials;
    assert!(mean > 1024 * 45 / 100 && mean < 1024 * 55 / 100, "mean {}", mean);
}

#[test]
fn xor_with_keystream_twice_gives_text_back() {
    let key = sample_key(7);
    let nonce = sample_nonce(7);
    let text: Vec<u8> = (0..200u32).map(|i| (i * 7 + 3) as u8).collect();
    let mut ks = vec![0u8; 256];
    aes256ctr_squeeze_blocks(&mut ks, 4, &mut fresh(&key, &nonce));
    let sealed: Vec<u8> = text.iter().zip(ks.iter()).map(|(t, k)| t ^ k).collect();
    assert_ne!(sealed, text);
    let mut ks2 = vec![0u8; 256];
    aes256ctr_squeeze_blocks(&mut ks2, 4, &mut fresh(&key, &nonce));
    let opened: Vec<u8> = sealed.iter().zip(ks2.iter()).map(|(t, k)| t ^ k).collect();
    assert_eq!(opened, text);
}

#[test]
fn zero_blocks_changes_nothing() {
    let key = sample_key(8);
    let nonce = sample_nonce(8);
    let mut ctx = fresh(&key, &nonce);
    let before_ivw = ctx.ivw;
    let before_keys = ctx.sk_exp;
    let mut out = [0xabu8; 70];
    aes256ctr_squeeze_blocks(&mut out, 0, &mut ctx);
    assert_eq!(out.to_vec(), vec![0xabu8; 70]);
    assert_eq!(ctx.ivw, before_ivw);
    assert_eq!(ctx.sk_exp, before_keys);
    let mut empty: [u8; 0] = [];
    aes256ctr_squeeze_blocks(&mut empty, 0, &mut ctx);
    assert_eq!(ctx.ivw, before_ivw);
}

#[test]
fn bytes_behind_the_keystream_stay() {
    let key = sample_key(10);
    let nonce = sample_nonce(10);
    let mut out = [0x11u8; 150];
    aes256ctr_squeeze_blocks(&mut out, 2, &mut fresh(&key, &nonce));
    assert_eq!(out[128..].to_vec(), vec![0x11u8; 22]);
    let mut exact = [0u8; 128];
    aes256ctr_squeeze_blocks(&mut exact, 2, &mut fresh(&key, &nonce));
    assert_eq!(out[..128].to_vec(), exact.to_vec());
}
