//! Counter mode: a context of round keys and four block counters, and the
//! keystream that it gives out, 64 bytes at a time.

use vstd::prelude::*;
use vstd::arithmetic::div_mod::lemma_add_mod_noop_right;
use vstd::slice::slice_subrange;
use vstd::array::array_as_slice;
use crate::aes::{be32, cipher, counter_add, key_expansion, keystream, round_key, rounds};
use crate::bitslice::{
    block_state,
    holds_words,
    interleave_in,
    interleave_out,
    is_interleaved,
    is_transpose,
    lane_byte,
    lane_of,
    lemma_block_words,
    lemma_planes_ext,
    lemma_transpose_rows,
    ortho,
};
use crate::endian::{
    decode_u32_range_le,
    encode_u32_range_le,
    lemma_swapped,
    lemma_word_ext,
    swap_bytes_32,
    swapped,
    word_byte,
    word_bytes,
    words_bytes,
};
use crate::keyschedule::aes_keyschedule;
use crate::round::{add_round_key, mix_columns, shift_rows};
use crate::sbox::aes_sbox;

verus! {

/// The bytes of keystream that one pass gives: four blocks of sixteen.
pub const AES256CTR_BLOCKBYTES: usize = 64;

/// The state of one keystream.
pub struct Aes256ctrCtx {
    /// The fifteen round keys in bit planes, eight words each.
    pub sk_exp: [u64; 120],
    /// The next four input blocks, four words each: three words of nonce and
    /// the block counter, which is kept with its bytes swapped.
    pub ivw: [u32; 16],
}

impl Default for Aes256ctrCtx {
    /// A context of zeros.  It holds no key yet: `aes256ctr_init` gives it
    /// one.
    fn default() -> (r: Self)
        ensures
            r.sk_exp@ == Seq::new(120, |i: int| 0u64),
            r.ivw@ == Seq::new(16, |i: int| 0u32),
    {
        let r = Self { sk_exp: [0u64;120], ivw: [0u32;16] };
        proof {
            assert(r.sk_exp@ =~= Seq::new(120, |i: int| 0u64));
            assert(r.ivw@ =~= Seq::new(16, |i: int| 0u32));
        }
        r
    }
}

/// The expanded key of 240 bytes that block `b` is enciphered under, read
/// out of the planes `sk`.
pub open spec fn plane_key(sk: Seq<u64>, b: int) -> Seq<u8> {
    Seq::new(240, |k: int| block_state(sk.subrange(8 * (k / 16), 8 * (k / 16) + 8), b)[k % 16])
}

/// The input block `b` that sixteen words hold.
pub open spec fn block_input(ivw: Seq<u32>, b: int) -> Seq<u8> {
    words_bytes(ivw.subrange(4 * b, 4 * b + 4))
}

/// The sixteen words after `n` passes: each of the four counters has moved
/// on by `4 * n`, modulo 2^32, and the nonce words are as they were.
pub open spec fn ivw_after(ivw: Seq<u32>, n: int) -> Seq<u32> {
    Seq::new(16, |i: int| if i % 4 == 3 { swapped(counter_add(swapped(ivw[i]), 4 * n)) } else { ivw[i] })
}

/// The 64 bytes of one pass: each of the four input blocks under the cipher,
/// with the round keys of its own block.
pub open spec fn superblock(sk: Seq<u64>, ivw: Seq<u32>) -> Seq<u8> {
    Seq::new(64, |i: int| cipher(plane_key(sk, i / 16), block_input(ivw, i / 16))[i % 16])
}

/// The bytes of `n` passes that start from the words `ivw`.
pub open spec fn squeezed(sk: Seq<u64>, ivw: Seq<u32>, n: int) -> Seq<u8> {
    Seq::new((64 * n) as nat, |i: int| superblock(sk, ivw_after(ivw, i / 64))[i % 64])
}

/// The expanded key that the planes hold for the first block.
pub open spec fn stream_keys(sk: Seq<u64>) -> Seq<u8> {
    plane_key(sk, 0)
}

/// The nonce of twelve bytes that the words hold for the first block.
pub open spec fn stream_nonce(ivw: Seq<u32>) -> Seq<u8> {
    words_bytes(ivw.subrange(0, 3))
}

/// The counter of the first block.
pub open spec fn stream_counter(ivw: Seq<u32>) -> u32 {
    swapped(ivw[3])
}

/// Whether planes and words are those of one keystream: the four blocks have
/// the same round keys and the same nonce, and their counters follow one
/// another.
pub open spec fn is_stream(sk: Seq<u64>, ivw: Seq<u32>) -> bool {
    &&& sk.len() == 120
    &&& ivw.len() == 16
    &&& forall|b: int| 0 <= b < 4 ==> #[trigger] plane_key(sk, b) == plane_key(sk, 0)
    &&& forall|b: int, k: int| 0 <= b < 4 && 0 <= k < 3 ==> #[trigger] ivw[4 * b + k] == ivw[k]
    &&& forall|b: int| 0 <= b < 4 ==> swapped(#[trigger] ivw[4 * b + 3]) == counter_add(stream_counter(ivw), b)
}

impl Aes256ctrCtx {
    /// Whether the context is that of a keystream, as `aes256ctr_init`
    /// leaves it and `aes256ctr_squeeze_blocks` keeps it.
    pub open spec fn wf(&self) -> bool {
        is_stream(self.sk_exp@, self.ivw@)
    }

    /// The expanded key.
    pub open spec fn round_keys(&self) -> Seq<u8> {
        stream_keys(self.sk_exp@)
    }

    /// The nonce of twelve bytes.
    pub open spec fn nonce(&self) -> Seq<u8> {
        stream_nonce(self.ivw@)
    }

    /// The counter of the next block.
    pub open spec fn counter(&self) -> u32 {
        stream_counter(self.ivw@)
    }
}

/// Moves each of the four block counters on by `block_count`, modulo 2^32.
/// A counter is kept with its bytes swapped: it is swapped back, added to,
/// and swapped again.
pub fn increment_counter(ivw: &mut [u32], block_count: u32)
    requires
        old(ivw).len() >= 16,
    ensures
        final(ivw).len() == old(ivw).len(),
        forall|i: int|
            0 <= i < 16 && i % 4 == 3 ==> #[trigger] final(ivw)[i] == swapped(
                counter_add(swapped(old(ivw)[i]), block_count as int),
            ),
        forall|i: int| 0 <= i < old(ivw).len() && !(i < 16 && i % 4 == 3) ==> #[trigger] final(ivw)[i] == old(ivw)[i],
{
    let ghost v0 = ivw@;
    let mut i: usize = 3;
    while i < 16
        invariant
            i % 4 == 3,
            3 <= i <= 19,
            ivw.len() == v0.len(),
            v0.len() >= 16,
            forall|j: int|
                0 <= j < i && j < 16 && j % 4 == 3 ==> #[trigger] ivw[j] == swapped(
                    counter_add(swapped(v0[j]), block_count as int),
                ),
            forall|j: int| 0 <= j < v0.len() && !(j < i && j % 4 == 3) ==> #[trigger] ivw[j] == v0[j],
        decreases 19 - i,
    {
        ivw[i] = swap_bytes_32(swap_bytes_32(ivw[i]).wrapping_add(block_count));
        i += 4;
    }
}

/// Round key `i` of block `b` is what the planes `8 * i .. 8 * i + 8` hold
/// for that block.
proof fn lemma_plane_round_key(sk: Seq<u64>, b: int, i: int)
    requires
        sk.len() >= 120,
        0 <= i < 15,
    ensures
        round_key(plane_key(sk, b), i) == block_state(sk.subrange(8 * i, 8 * i + 8), b),
{
    let rk = round_key(plane_key(sk, b), i);
    let bs = block_state(sk.subrange(8 * i, 8 * i + 8), b);
    assert forall|n: int| 0 <= n < 16 implies rk[n] == bs[n] by {
        assert((16 * i + n) / 16 == i && (16 * i + n) % 16 == n);
    }
    assert(rk =~= bs);
}

/// Lays sixteen words, four to a block, out in bit planes.
pub fn pack_blocks(w: &[u32; 16]) -> (q: [u64; 8])
    ensures
        forall|b: int| 0 <= b < 4 ==> block_state(q@, b) == #[trigger] block_input(w@, b),
{
    let mut q = [0u64;8];
    let mut i: usize = 0;
    while i < 4
        invariant
            i <= 4,
            forall|b: int|
                0 <= b < i ==> #[trigger] is_interleaved(
                    q[b],
                    q[b + 4],
                    w[4 * b],
                    w[4 * b + 1],
                    w[4 * b + 2],
                    w[4 * b + 3],
                ),
        decreases 4 - i,
    {
        let mut q0: u64 = 0;
        let mut q1: u64 = 0;
        interleave_in(&mut q0, &mut q1, slice_subrange(array_as_slice(w), 4 * i, 4 * i + 4));
        q[i] = q0;
        q[i + 4] = q1;
        i += 1;
    }
    let ghost x = q@;
    ortho(&mut q);
    proof {
        assert(holds_words(x, w@));
        lemma_transpose_rows(x, q@);
        assert forall|b: int| 0 <= b < 4 implies block_state(q@, b) == #[trigger] block_input(w@, b) by {
            lemma_block_words(x, q@, w@, b);
        }
    }
    q
}

/// Takes the four blocks out of the bit planes, as sixteen words.  The
/// planes are left transposed.
pub fn unpack_blocks(q: &mut [u64; 8]) -> (w: [u32; 16])
    ensures
        forall|b: int| 0 <= b < 4 ==> #[trigger] block_input(w@, b) == block_state(old(q)@, b),
        is_transpose(old(q)@, final(q)@),
{
    let ghost s = q@;
    ortho(q);
    let mut w = [0u32;16];
    let mut i: usize = 0;
    while i < 4
        invariant
            i <= 4,
            forall|b: int|
                0 <= b < i ==> #[trigger] is_interleaved(
                    q[b],
                    q[b + 4],
                    w[4 * b],
                    w[4 * b + 1],
                    w[4 * b + 2],
                    w[4 * b + 3],
                ),
        decreases 4 - i,
    {
        let mut t = [0u32;4];
        interleave_out(&mut t, q[i], q[i + 4]);
        w[4 * i] = t[0];
        w[4 * i + 1] = t[1];
        w[4 * i + 2] = t[2];
        w[4 * i + 3] = t[3];
        i += 1;
    }
    proof {
        assert(holds_words(q@, w@));
        lemma_transpose_rows(s, q@);
        assert forall|b: int| 0 <= b < 4 implies #[trigger] block_input(w@, b) == block_state(s, b) by {
            lemma_block_words(q@, s, w@, b);
        }
    }
    w
}

/// One full round on the planes, under round key `i`.
pub fn full_round(q: &mut [u64; 8], sk_exp: &[u64], i: usize)
    requires
        sk_exp.len() >= 120,
        1 <= i < 14,
    ensures
        forall|b: int|
            0 <= b < 4 ==> #[trigger] block_state(final(q)@, b) == crate::aes::add_round_key(
                crate::aes::mix_columns(crate::aes::shift_rows(crate::aes::sub_bytes(block_state(old(q)@, b)))),
                round_key(plane_key(sk_exp@, b), i as int),
            ),
{
    let ghost s0 = q@;
    aes_sbox(q);
    let ghost s1 = q@;
    shift_rows(q);
    let ghost s2 = q@;
    mix_columns(q);
    let ghost s3 = q@;
    add_round_key(q, slice_subrange(sk_exp, 8 * i, 8 * i + 8));
    proof {
        assert forall|b: int| 0 <= b < 4 implies #[trigger] block_state(q@, b) == crate::aes::add_round_key(
            crate::aes::mix_columns(crate::aes::shift_rows(crate::aes::sub_bytes(block_state(s0, b)))),
            round_key(plane_key(sk_exp@, b), i as int),
        ) by {
            lemma_plane_round_key(sk_exp@, b, i as int);
            assert(block_state(s1, b) == crate::aes::sub_bytes(block_state(s0, b)));
            assert(block_state(s2, b) == crate::aes::shift_rows(block_state(s1, b)));
            assert(block_state(s3, b) == crate::aes::mix_columns(block_state(s2, b)));
        }
    }
}

/// The cipher on the planes: each of the four blocks is enciphered under
/// the round keys that `sk_exp` holds for it.
pub fn encrypt_planes(q: &mut [u64; 8], sk_exp: &[u64])
    requires
        sk_exp.len() >= 120,
    ensures
        forall|b: int|
            0 <= b < 4 ==> #[trigger] block_state(final(q)@, b) == cipher(
                plane_key(sk_exp@, b),
                block_state(old(q)@, b),
            ),
{
    let ghost input = q@;
    add_round_key(q, slice_subrange(sk_exp, 0, 8));
    proof {
        assert forall|b: int| 0 <= b < 4 implies #[trigger] block_state(q@, b) == rounds(
            plane_key(sk_exp@, b),
            block_state(input, b),
            0,
        ) by {
            lemma_plane_round_key(sk_exp@, b, 0);
        }
    }
    let mut i: usize = 1;
    while i < 14
        invariant
            1 <= i <= 14,
            sk_exp.len() >= 120,
            forall|b: int|
                0 <= b < 4 ==> #[trigger] block_state(q@, b) == rounds(
                    plane_key(sk_exp@, b),
                    block_state(input, b),
                    (i - 1) as nat,
                ),
        decreases 14 - i,
    {
        let ghost s0 = q@;
        full_round(q, sk_exp, i);
        proof {
            assert forall|b: int| 0 <= b < 4 implies #[trigger] block_state(q@, b) == rounds(
                plane_key(sk_exp@, b),
                block_state(input, b),
                i as nat,
            ) by {
                assert(block_state(s0, b) == rounds(plane_key(sk_exp@, b), block_state(input, b), (i - 1) as nat));
            }
        }
        i += 1;
    }
    let ghost s0 = q@;
    aes_sbox(q);
    let ghost s1 = q@;
    shift_rows(q);
    let ghost s2 = q@;
    add_round_key(q, slice_subrange(sk_exp, 112, 120));
    proof {
        assert forall|b: int| 0 <= b < 4 implies #[trigger] block_state(q@, b) == cipher(
            plane_key(sk_exp@, b),
            block_state(input, b),
        ) by {
            lemma_plane_round_key(sk_exp@, b, 14);
            assert(block_state(s0, b) == rounds(plane_key(sk_exp@, b), block_state(input, b), 13));
            assert(block_state(s1, b) == crate::aes::sub_bytes(block_state(s0, b)));
            assert(block_state(s2, b) == crate::aes::shift_rows(block_state(s1, b)));
        }
    }
}

/// The bytes of sixteen words are the four blocks that they hold, one after
/// the other.
proof fn lemma_words_blocks(w: Seq<u32>, n: int)
    requires
        w.len() == 16,
        0 <= n < 64,
    ensures
        words_bytes(w)[n] == block_input(w, n / 16)[n % 16],
{
    let b = n / 16;
    let ws = w.subrange(4 * b, 4 * b + 4);
    assert(ws[(n % 16) / 4] == w[n / 4]);
    assert((n % 16) % 4 == n % 4);
}

/// One pass: enciphers the four input blocks that `ivw` holds, writes the 64
/// bytes to the front of `out`, and moves each counter on by four.
pub fn aes_ctr(out: &mut [u8], ivw: &mut [u32], sk_exp: &[u64])
    requires
        old(out).len() >= 64,
        old(ivw).len() == 16,
        sk_exp.len() >= 120,
    ensures
        final(out)@ == superblock(sk_exp@, old(ivw)@) + old(out)@.subrange(64, old(out).len() as int),
        final(ivw)@ == ivw_after(old(ivw)@, 1),
{
    let mut w = [0u32;16];
    let mut i: usize = 0;
    while i < 16
        invariant
            i <= 16,
            ivw.len() == 16,
            ivw@ == old(ivw)@,
            forall|j: int| 0 <= j < i ==> w[j] == ivw[j],
        decreases 16 - i,
    {
        w[i] = ivw[i];
        i += 1;
    }
    assert(w@ =~= ivw@);

    let mut q = pack_blocks(&w);
    let ghost input = q@;
    encrypt_planes(&mut q, sk_exp);
    let ghost s = q@;
    let w = unpack_blocks(&mut q);
    encode_u32_range_le(out, &w);
    proof {
        let sb = superblock(sk_exp@, ivw@);
        assert forall|n: int| 0 <= n < 64 implies words_bytes(w@)[n] == sb[n] by {
            let b = n / 16;
            lemma_words_blocks(w@, n);
            assert(block_input(w@, b) == block_state(s, b));
            assert(block_state(s, b) == cipher(plane_key(sk_exp@, b), block_state(input, b)));
            assert(block_state(input, b) == block_input(ivw@, b));
        }
        assert(words_bytes(w@) =~= sb);
    }

    increment_counter(ivw, 4);
    proof {
        assert(ivw@ =~= ivw_after(old(ivw)@, 1));
    }
}

/// Passes add up: `a` passes and then `b` more leave the words where
/// `a + b` passes leave them.
pub proof fn lemma_ivw_after_add(ivw: Seq<u32>, a: int, b: int)
    requires
        ivw.len() == 16,
        0 <= a,
        0 <= b,
    ensures
        ivw_after(ivw_after(ivw, a), b) == ivw_after(ivw, a + b),
        ivw_after(ivw, 0) == ivw,
{
    assert forall|i: int| 0 <= i < 16 implies ivw_after(ivw_after(ivw, a), b)[i] == ivw_after(ivw, a + b)[i] by {
        if i % 4 == 3 {
            let c = swapped(ivw[i]);
            lemma_swapped(counter_add(c, 4 * a));
            lemma_counter_add(c, 4 * a, 4 * b);
        }
    }
    assert(ivw_after(ivw_after(ivw, a), b) =~= ivw_after(ivw, a + b));
    assert forall|i: int| 0 <= i < 16 implies ivw_after(ivw, 0)[i] == ivw[i] by {
        if i % 4 == 3 {
            lemma_swapped(ivw[i]);
            lemma_swapped(swapped(ivw[i]));
        }
    }
    assert(ivw_after(ivw, 0) =~= ivw);
}

/// Squeezing in two calls gives the same bytes as squeezing once: `a + b`
/// passes are `a` passes, then `b` passes from where those left the
/// counters.
pub proof fn lemma_squeeze_split(sk: Seq<u64>, ivw: Seq<u32>, a: int, b: int)
    requires
        ivw.len() == 16,
        0 <= a,
        0 <= b,
    ensures
        squeezed(sk, ivw, a + b) == squeezed(sk, ivw, a) + squeezed(sk, ivw_after(ivw, a), b),
{
    let l = squeezed(sk, ivw, a + b);
    let r = squeezed(sk, ivw, a) + squeezed(sk, ivw_after(ivw, a), b);
    assert forall|i: int| 0 <= i < 64 * (a + b) implies l[i] == r[i] by {
        if i >= 64 * a {
            let j = i - 64 * a;
            assert(i / 64 == a + j / 64 && i % 64 == j % 64);
            lemma_ivw_after_add(ivw, a, j / 64);
        }
    }
    assert(l =~= r);
}

/// One more pass adds its 64 bytes at the end.
pub proof fn lemma_squeeze_step(sk: Seq<u64>, ivw: Seq<u32>, n: int)
    requires
        ivw.len() == 16,
        0 <= n,
    ensures
        squeezed(sk, ivw, n + 1) == squeezed(sk, ivw, n) + superblock(sk, ivw_after(ivw, n)),
        squeezed(sk, ivw, 0) == Seq::<u8>::empty(),
{
    let v = ivw_after(ivw, n);
    lemma_squeeze_split(sk, ivw, n, 1);
    lemma_ivw_after_add(v, 0, 0);
    assert(squeezed(sk, v, 1) =~= superblock(sk, v));
    assert(squeezed(sk, ivw, 0) =~= Seq::<u8>::empty());
}

/// What a chunk loop keeps: the bytes done, then the chunk, then the rest.
proof fn lemma_chunk_done(fin: Seq<u8>, done: Seq<u8>, chunk: Seq<u8>, rest: Seq<u8>, tail: Seq<u8>)
    requires
        fin == done + rest,
        rest == chunk + tail,
    ensures
        fin == (done + chunk) + tail,
{
    assert(fin =~= (done + chunk) + tail);
}

/// Counting on twice is counting on once by the sum, and counting on by
/// nothing changes nothing.
pub proof fn lemma_counter_add(c: u32, a: int, b: int)
    requires
        0 <= a,
        0 <= b,
    ensures
        counter_add(counter_add(c, a), b) == counter_add(c, a + b),
        counter_add(c, 0) == c,
{
    let m = 0x1_0000_0000int;
    let x = (c + a) % m;
    assert(counter_add(c, a) == x);
    lemma_add_mod_noop_right(b, c + a, m);
    assert((x + b) % m == (c + (a + b)) % m);
}

/// A keystream stays one: after `n` passes the round keys and the nonce are
/// the same, and the counter has moved on by `4 * n` blocks.
pub proof fn lemma_stream_after(sk: Seq<u64>, ivw: Seq<u32>, n: int)
    requires
        is_stream(sk, ivw),
        0 <= n,
    ensures
        is_stream(sk, ivw_after(ivw, n)),
        stream_nonce(ivw_after(ivw, n)) == stream_nonce(ivw),
        stream_counter(ivw_after(ivw, n)) == counter_add(stream_counter(ivw), 4 * n),
{
    let v = ivw_after(ivw, n);
    let c = stream_counter(ivw);
    let c2 = counter_add(c, 4 * n);
    assert forall|b: int| 0 <= b < 4 implies swapped(#[trigger] v[4 * b + 3]) == counter_add(c2, b) by {
        let cb = counter_add(c, b);
        assert(swapped(ivw[4 * b + 3]) == cb);
        assert(v[4 * b + 3] == swapped(counter_add(cb, 4 * n)));
        lemma_swapped(counter_add(cb, 4 * n));
        lemma_counter_add(c, b, 4 * n);
        lemma_counter_add(c, 4 * n, b);
    }
    lemma_counter_add(c2, 0, 0);
    assert(stream_counter(v) == c2) by {
        assert(swapped(v[4 * 0int + 3]) == counter_add(c2, 0));
    }
    assert(stream_nonce(v) =~= stream_nonce(ivw));
    assert forall|b: int, k: int| 0 <= b < 4 && 0 <= k < 3 implies #[trigger] v[4 * b + k] == v[k] by {
        assert(ivw[4 * b + k] == ivw[k]);
    }
}

/// The input block of block `b` of a keystream is the nonce and then the
/// counter of that block, the most significant byte first.
pub proof fn lemma_stream_input(sk: Seq<u64>, ivw: Seq<u32>, b: int)
    requires
        is_stream(sk, ivw),
        0 <= b < 4,
    ensures
        block_input(ivw, b) == crate::aes::counter_block(
            stream_nonce(ivw),
            counter_add(stream_counter(ivw), b),
        ),
{
    let l = block_input(ivw, b);
    let c = counter_add(stream_counter(ivw), b);
    let r = crate::aes::counter_block(stream_nonce(ivw), c);
    assert(swapped(ivw[4 * b + 3]) == c);
    lemma_swapped(ivw[4 * b + 3]);
    lemma_swapped(c);
    lemma_be32(c);
    assert forall|i: int| 0 <= i < 16 implies l[i] == r[i] by {
        if i < 12 {
            assert(ivw[4 * b + i / 4] == ivw[i / 4]);
        } else {
            assert(ivw.subrange(4 * b, 4 * b + 4)[3] == ivw[4 * b + 3]);
            assert(r[i] == be32(c)[i - 12]);
        }
    }
    assert(l =~= r);
}

proof fn lemma_be32(c: u32)
    by (bit_vector)
    ensures
        (c >> 24) as u8 == word_byte(c, 3),
        (c >> 16) as u8 == word_byte(c, 2),
        (c >> 8) as u8 == word_byte(c, 1),
        (c >> 0) as u8 == word_byte(c, 0),
{
}

/// What a keystream context gives out is the keystream of counter mode:
/// block after block, the cipher of the nonce and the running counter.
pub proof fn lemma_squeezed_keystream(sk: Seq<u64>, ivw: Seq<u32>, n: int)
    requires
        is_stream(sk, ivw),
        0 <= n,
    ensures
        squeezed(sk, ivw, n) == keystream(
            stream_keys(sk),
            stream_nonce(ivw),
            stream_counter(ivw),
            (64 * n) as nat,
        ),
{
    let l = squeezed(sk, ivw, n);
    let c = stream_counter(ivw);
    let r = keystream(stream_keys(sk), stream_nonce(ivw), c, (64 * n) as nat);
    assert forall|i: int| 0 <= i < 64 * n implies l[i] == r[i] by {
        let t = i / 64;
        let j = i % 64;
        let b = j / 16;
        let v = ivw_after(ivw, t);
        lemma_stream_after(sk, ivw, t);
        lemma_stream_input(sk, v, b);
        assert(plane_key(sk, b) == plane_key(sk, 0));
        assert(i / 16 == 4 * t + b && i % 16 == j % 16);
        lemma_counter_add(c, 4 * t, b);
    }
    assert(l =~= r);
}

/// Two contexts with the same key, nonce and counter give the same bytes.
pub proof fn lemma_same_stream_same_bytes(a: Aes256ctrCtx, b: Aes256ctrCtx, n: int)
    requires
        a.wf(),
        b.wf(),
        a.round_keys() == b.round_keys(),
        a.nonce() == b.nonce(),
        a.counter() == b.counter(),
        0 <= n,
    ensures
        squeezed(a.sk_exp@, a.ivw@, n) == squeezed(b.sk_exp@, b.ivw@, n),
{
    lemma_squeezed_keystream(a.sk_exp@, a.ivw@, n);
    lemma_squeezed_keystream(b.sk_exp@, b.ivw@, n);
}

/// Planes in which all four blocks have the same round keys are known by
/// those round keys.
proof fn lemma_planes_unique(a: Seq<u64>, b: Seq<u64>, i: int, c: int)
    requires
        a.len() == 120,
        b.len() == 120,
        forall|n: int| 0 <= n < 4 ==> #[trigger] plane_key(a, n) == plane_key(a, 0),
        forall|n: int| 0 <= n < 4 ==> #[trigger] plane_key(b, n) == plane_key(b, 0),
        plane_key(a, 0) == plane_key(b, 0),
        0 <= i < 15,
        0 <= c < 8,
    ensures
        a[8 * i + c] == b[8 * i + c],
{
    let pa = a.subrange(8 * i, 8 * i + 8);
    let pb = b.subrange(8 * i, 8 * i + 8);
    assert forall|p: u64| p < 64 implies #[trigger] lane_byte(pa, p) == lane_byte(pb, p) by {
        let n = (p % 4) as int;
        let k = 4 * ((p / 4) % 4) + p / 16;
        assert(lane_of(n, k as int) == p);
        lemma_plane_round_key(a, n, i);
        lemma_plane_round_key(b, n, i);
        assert(plane_key(a, n) == plane_key(a, 0));
        assert(plane_key(b, n) == plane_key(b, 0));
        assert(block_state(pa, n)[k as int] == lane_byte(pa, p));
        assert(block_state(pb, n)[k as int] == lane_byte(pb, p));
    }
    lemma_planes_ext(pa, pb);
    assert(pa[c] == a[8 * i + c] && pb[c] == b[8 * i + c]);
}

/// A keystream context is known by its round keys, its nonce and its
/// counter: two that agree in these are the same.
pub proof fn lemma_stream_unique(a: Aes256ctrCtx, b: Aes256ctrCtx)
    requires
        a.wf(),
        b.wf(),
        a.round_keys() == b.round_keys(),
        a.nonce() == b.nonce(),
        a.counter() == b.counter(),
    ensures
        a == b,
{
    assert forall|j: int| 0 <= j < 120 implies a.sk_exp@[j] == b.sk_exp@[j] by {
        lemma_planes_unique(a.sk_exp@, b.sk_exp@, j / 8, j % 8);
    }
    assert(a.sk_exp@ =~= b.sk_exp@);
    let va = a.ivw@;
    let vb = b.ivw@;
    assert forall|k: int| 0 <= k < 3 implies va[k] == vb[k] by {
        let na = stream_nonce(va);
        let nb = stream_nonce(vb);
        assert(na[4 * k] == word_byte(va[k], 0) && nb[4 * k] == word_byte(vb[k], 0));
        assert(na[4 * k + 1] == word_byte(va[k], 1) && nb[4 * k + 1] == word_byte(vb[k], 1));
        assert(na[4 * k + 2] == word_byte(va[k], 2) && nb[4 * k + 2] == word_byte(vb[k], 2));
        assert(na[4 * k + 3] == word_byte(va[k], 3) && nb[4 * k + 3] == word_byte(vb[k], 3));
        lemma_word_ext(va[k], vb[k]);
    }
    assert forall|j: int| 0 <= j < 16 implies va[j] == vb[j] by {
        let n = j / 4;
        let k = j % 4;
        if k < 3 {
            assert(va[4 * n + k] == va[k] && vb[4 * n + k] == vb[k]);
        } else {
            assert(swapped(va[4 * n + 3]) == swapped(vb[4 * n + 3]));
            lemma_swapped(va[j]);
            lemma_swapped(vb[j]);
        }
    }
    assert(va =~= vb);
    assert(a.sk_exp == b.sk_exp);
    assert(a.ivw == b.ivw);
}

/// The sum of two byte strings: `a` with the keystream `k` laid over it.
pub open spec fn xor_bytes(a: Seq<u8>, k: Seq<u8>) -> Seq<u8> {
    Seq::new(a.len(), |i: int| a[i] ^ k[i])
}

proof fn lemma_xor_twice(a: u8, k: u8)
    by (bit_vector)
    ensures
        (a ^ k) ^ k == a,
{
}

/// Laying the same keystream over a text twice gives the text back:
/// deciphering is enciphering.
pub proof fn lemma_xor_self_inverse(text: Seq<u8>, k: Seq<u8>)
    requires
        k.len() >= text.len(),
    ensures
        xor_bytes(xor_bytes(text, k), k) == text,
{
    assert forall|i: int| 0 <= i < text.len() implies xor_bytes(xor_bytes(text, k), k)[i] == text[i] by {
        lemma_xor_twice(text[i], k[i]);
    }
    assert(xor_bytes(xor_bytes(text, k), k) =~= text);
}

/// Sets a context up for the keystream of a key of 32 bytes and a nonce of
/// twelve: expands the key, and starts the four block counters at 0, 1, 2
/// and 3.
pub fn aes256ctr_init(ctx: &mut Aes256ctrCtx, key: &[u8], nonce: &[u8])
    requires
        key.len() == 32,
        nonce.len() == 12,
    ensures
        final(ctx).wf(),
        final(ctx).round_keys() == key_expansion(key@),
        final(ctx).nonce() == nonce@,
        final(ctx).counter() == 0,
        forall|b: int| 0 <= b < 4 ==> #[trigger] final(ctx).ivw[4 * b + 3] == swapped(b as u32),
        forall|n: int|
            0 <= n ==> #[trigger] squeezed(final(ctx).sk_exp@, final(ctx).ivw@, n)
                == crate::aes::aes256ctr_keystream(key@, nonce@, (64 * n) as nat),
{
    aes_keyschedule(&mut ctx.sk_exp, key);
    decode_u32_range_le(&mut ctx.ivw, nonce);
    let n0 = ctx.ivw[0];
    let n1 = ctx.ivw[1];
    let n2 = ctx.ivw[2];
    ctx.ivw[4] = n0;
    ctx.ivw[5] = n1;
    ctx.ivw[6] = n2;
    ctx.ivw[8] = n0;
    ctx.ivw[9] = n1;
    ctx.ivw[10] = n2;
    ctx.ivw[12] = n0;
    ctx.ivw[13] = n1;
    ctx.ivw[14] = n2;
    ctx.ivw[3] = swap_bytes_32(0);
    ctx.ivw[7] = swap_bytes_32(1);
    ctx.ivw[11] = swap_bytes_32(2);
    ctx.ivw[15] = swap_bytes_32(3);
    proof {
        let sk = ctx.sk_exp@;
        let ivw = ctx.ivw@;
        let w = key_expansion(key@);
        assert forall|b: int| 0 <= b < 4 implies #[trigger] plane_key(sk, b) == w by {
            assert forall|k: int| 0 <= k < 240 implies plane_key(sk, b)[k] == w[k] by {
                let i = k / 16;
                assert(block_state(sk.subrange(8 * i, 8 * i + 8), b) == round_key(w, i));
            }
            assert(plane_key(sk, b) =~= w);
        }
        lemma_swapped(0);
        lemma_swapped(1);
        lemma_swapped(2);
        lemma_swapped(3);
        assert(stream_counter(ivw) == 0);
        assert(counter_add(0, 0) == 0 && counter_add(0, 1) == 1 && counter_add(0, 2) == 2 && counter_add(0, 3) == 3);
        assert(is_stream(sk, ivw));
        assert forall|i: int| 0 <= i < 12 implies stream_nonce(ivw)[i] == nonce@[i] by {
            assert(word_bytes(ivw[i / 4]) == nonce@.subrange(4 * (i / 4), 4 * (i / 4) + 4));
            assert(word_bytes(ivw[i / 4])[i % 4] == nonce@.subrange(4 * (i / 4), 4 * (i / 4) + 4)[i % 4]);
        }
        assert(stream_nonce(ivw) =~= nonce@);
        assert forall|n: int| 0 <= n implies #[trigger] squeezed(sk, ivw, n) == crate::aes::aes256ctr_keystream(
            key@,
            nonce@,
            (64 * n) as nat,
        ) by {
            lemma_squeezed_keystream(sk, ivw, n);
        }
    }
}

/// Writes `nblocks` times 64 bytes of keystream to the front of `out` and
/// moves the counters of the context on by `4 * nblocks` blocks.  What lies
/// behind those bytes in `out` stays as it is; with `nblocks == 0` nothing
/// changes at all.
#[verifier::spinoff_prover]
pub fn aes256ctr_squeeze_blocks(out: &mut [u8], nblocks: u64, ctx: &mut Aes256ctrCtx)
    requires
        old(out).len() >= 64 * nblocks,
    ensures
        final(ctx).sk_exp == old(ctx).sk_exp,
        final(ctx).ivw@ == ivw_after(old(ctx).ivw@, nblocks as int),
        forall|b: int|
            0 <= b < 4 ==> swapped(#[trigger] final(ctx).ivw[4 * b + 3]) == counter_add(
                swapped(old(ctx).ivw[4 * b + 3]),
                4 * nblocks,
            ),
        forall|i: int| 0 <= i < 16 && i % 4 != 3 ==> #[trigger] final(ctx).ivw[i] == old(ctx).ivw[i],
        final(out)@ == squeezed(old(ctx).sk_exp@, old(ctx).ivw@, nblocks as int) + old(out)@.subrange(
            64 * nblocks,
            old(out).len() as int,
        ),
        nblocks == 0 ==> *final(ctx) == *old(ctx) && final(out)@ == old(out)@,
        old(ctx).wf() ==> {
            &&& final(ctx).wf()
            &&& final(ctx).round_keys() == old(ctx).round_keys()
            &&& final(ctx).nonce() == old(ctx).nonce()
            &&& final(ctx).counter() == counter_add(old(ctx).counter(), 4 * nblocks)
            &&& final(out)@.subrange(0, 64 * nblocks) == keystream(
                old(ctx).round_keys(),
                old(ctx).nonce(),
                old(ctx).counter(),
                (64 * nblocks) as nat,
            )
        },
{
    let ghost orig = out@;
    let ghost fin = final(out)@;
    let ghost sk = ctx.sk_exp@;
    let ghost ivw0 = ctx.ivw@;
    let mut rest: &mut [u8] = out;
    let mut i: u64 = 0;
    proof {
        lemma_ivw_after_add(ivw0, 0, 0);
        lemma_squeeze_step(sk, ivw0, 0);
    }
    while i < nblocks
        invariant
            i <= nblocks,
            orig.len() >= 64 * nblocks,
            ivw0.len() == 16,
            rest.len() == orig.len() - 64 * i,
            rest@ == orig.subrange(64 * i as int, orig.len() as int),
            fin == squeezed(sk, ivw0, i as int) + final(rest)@,
            ctx.sk_exp == old(ctx).sk_exp,
            ctx.sk_exp@ == sk,
            ctx.ivw@ == ivw_after(ivw0, i as int),
        decreases nblocks - i,
    {
        let ghost done = squeezed(sk, ivw0, i as int);
        let ghost rest_fin = final(rest)@;
        let ghost v = ctx.ivw@;
        let (chunk, tail) = rest.split_at_mut(AES256CTR_BLOCKBYTES);
        let ghost tail_fin = final(tail)@;
        let ghost tail_now = tail@;
        aes_ctr(chunk, &mut ctx.ivw, &ctx.sk_exp);
        rest = tail;
        proof {
            let sb = superblock(sk, v);
            assert(chunk@ =~= sb);
            lemma_chunk_done(fin, done, sb, rest_fin, tail_fin);
            lemma_squeeze_step(sk, ivw0, i as int);
            lemma_ivw_after_add(ivw0, i as int, 1);
            assert(tail_now =~= orig.subrange(64 * (i + 1) as int, orig.len() as int));
        }
        i += 1;
    }
    proof {
        let n = nblocks as int;
        lemma_squeeze_end(fin, squeezed(sk, ivw0, n), orig, n);
        assert forall|b: int| 0 <= b < 4 implies swapped(#[trigger] ctx.ivw[4 * b + 3]) == counter_add(
            swapped(ivw0[4 * b + 3]),
            4 * n,
        ) by {
            lemma_swapped(counter_add(swapped(ivw0[4 * b + 3]), 4 * n));
        }
        if nblocks == 0 {
            assert(ctx.ivw@ =~= ivw0);
            assert(ctx.ivw == old(ctx).ivw);
            assert(*ctx == *old(ctx));
        }
        if old(ctx).wf() {
            lemma_stream_after(sk, ivw0, n);
            lemma_squeezed_keystream(sk, ivw0, n);
        }
    }
}

/// At the end of a chunk loop nothing is left to do: the output is the
/// bytes done and what lay behind them.
proof fn lemma_squeeze_end(fin: Seq<u8>, done: Seq<u8>, orig: Seq<u8>, n: int)
    requires
        0 <= n,
        orig.len() >= 64 * n,
        done.len() == 64 * n,
        fin == done + orig.subrange(64 * n, orig.len() as int),
    ensures
        fin.subrange(0, 64 * n) == done,
        n == 0 ==> fin == orig,
{
    assert(fin.subrange(0, 64 * n) =~= done);
    if n == 0 {
        assert(fin =~= orig);
    }
}

} // verus!
