//! The S-box as a Boolean circuit on bit planes.
//!
//! The circuit is the one of Boyar and Peralta: 32 AND gates between two
//! linear layers of XOR gates.  It runs the same gates whatever the data, on
//! all 64 positions of the planes at once.

use vstd::prelude::*;
use crate::aes::{affine, rotl8, sbox, sub_bytes};
use crate::bitslice::{block_state, lane, lane_byte, lane_of, lemma_lane_gates, pack8};
use crate::gf256::{gf_inv, gf_mul, lemma_inverse_unique, pick, xtime};

verus! {

/// The inverse of the affine map that ends the S-box.
pub open spec fn affine_inv(s: u8) -> u8 {
    rotl8(s, 1) ^ rotl8(s, 3) ^ rotl8(s, 6) ^ 0x05
}

/// The circuit on single bits: `x0` is the most significant bit of the input
/// byte, and the first component of the result the most significant bit of
/// the output.  A negation is written as `^ 1`.
pub open spec fn sbox_bits(x0: u64, x1: u64, x2: u64, x3: u64, x4: u64, x5: u64, x6: u64, x7: u64) -> (
    u64,
    u64,
    u64,
    u64,
    u64,
    u64,
    u64,
    u64,
) {
    // The linear layer on top.
    let y14: u64 = x3 ^ x5;
    let y13: u64 = x0 ^ x6;
    let y9: u64 = x0 ^ x3;
    let y8: u64 = x0 ^ x5;
    let t0: u64 = x1 ^ x2;
    let y1: u64 = t0 ^ x7;
    let y4: u64 = y1 ^ x3;
    let y12: u64 = y13 ^ y14;
    let y2: u64 = y1 ^ x0;
    let y5: u64 = y1 ^ x6;
    let y3: u64 = y5 ^ y8;
    let t1: u64 = x4 ^ y12;
    let y15: u64 = t1 ^ x5;
    let y20: u64 = t1 ^ x1;
    let y6: u64 = y15 ^ x7;
    let y10: u64 = y15 ^ t0;
    let y11: u64 = y20 ^ y9;
    let y7: u64 = x7 ^ y11;
    let y17: u64 = y10 ^ y11;
    let y19: u64 = y10 ^ y8;
    let y16: u64 = t0 ^ y11;
    let y21: u64 = y13 ^ y16;
    let y18: u64 = x0 ^ y16;
    // The nonlinear middle.
    let t2: u64 = y12 & y15;
    let t3: u64 = y3 & y6;
    let t4: u64 = t3 ^ t2;
    let t5: u64 = y4 & x7;
    let t6: u64 = t5 ^ t2;
    let t7: u64 = y13 & y16;
    let t8: u64 = y5 & y1;
    let t9: u64 = t8 ^ t7;
    let t10: u64 = y2 & y7;
    let t11: u64 = t10 ^ t7;
    let t12: u64 = y9 & y11;
    let t13: u64 = y14 & y17;
    let t14: u64 = t13 ^ t12;
    let t15: u64 = y8 & y10;
    let t16: u64 = t15 ^ t12;
    let t17: u64 = t4 ^ t14;
    let t18: u64 = t6 ^ t16;
    let t19: u64 = t9 ^ t14;
    let t20: u64 = t11 ^ t16;
    let t21: u64 = t17 ^ y20;
    let t22: u64 = t18 ^ y19;
    let t23: u64 = t19 ^ y21;
    let t24: u64 = t20 ^ y18;
    let t25: u64 = t21 ^ t22;
    let t26: u64 = t21 & t23;
    let t27: u64 = t24 ^ t26;
    let t28: u64 = t25 & t27;
    let t29: u64 = t28 ^ t22;
    let t30: u64 = t23 ^ t24;
    let t31: u64 = t22 ^ t26;
    let t32: u64 = t31 & t30;
    let t33: u64 = t32 ^ t24;
    let t34: u64 = t23 ^ t33;
    let t35: u64 = t27 ^ t33;
    let t36: u64 = t24 & t35;
    let t37: u64 = t36 ^ t34;
    let t38: u64 = t27 ^ t36;
    let t39: u64 = t29 & t38;
    let t40: u64 = t25 ^ t39;
    let t41: u64 = t40 ^ t37;
    let t42: u64 = t29 ^ t33;
    let t43: u64 = t29 ^ t40;
    let t44: u64 = t33 ^ t37;
    let t45: u64 = t42 ^ t41;
    let z0: u64 = t44 & y15;
    let z1: u64 = t37 & y6;
    let z2: u64 = t33 & x7;
    let z3: u64 = t43 & y16;
    let z4: u64 = t40 & y1;
    let z5: u64 = t29 & y7;
    let z6: u64 = t42 & y11;
    let z7: u64 = t45 & y17;
    let z8: u64 = t41 & y10;
    let z9: u64 = t44 & y12;
    let z10: u64 = t37 & y3;
    let z11: u64 = t33 & y4;
    let z12: u64 = t43 & y13;
    let z13: u64 = t40 & y5;
    let z14: u64 = t29 & y2;
    let z15: u64 = t42 & y9;
    let z16: u64 = t45 & y14;
    let z17: u64 = t41 & y8;
    // The linear layer at the bottom.
    let t46: u64 = z15 ^ z16;
    let t47: u64 = z10 ^ z11;
    let t48: u64 = z5 ^ z13;
    let t49: u64 = z9 ^ z10;
    let t50: u64 = z2 ^ z12;
    let t51: u64 = z2 ^ z5;
    let t52: u64 = z7 ^ z8;
    let t53: u64 = z0 ^ z3;
    let t54: u64 = z6 ^ z7;
    let t55: u64 = z16 ^ z17;
    let t56: u64 = z12 ^ t48;
    let t57: u64 = t50 ^ t53;
    let t58: u64 = z4 ^ t46;
    let t59: u64 = z3 ^ t54;
    let t60: u64 = t46 ^ t57;
    let t61: u64 = z14 ^ t57;
    let t62: u64 = t52 ^ t58;
    let t63: u64 = t49 ^ t58;
    let t64: u64 = z4 ^ t59;
    let t65: u64 = t61 ^ t62;
    let t66: u64 = z1 ^ t63;
    let s0: u64 = t59 ^ t63;
    let s6: u64 = t56 ^ (t62 ^ 1);
    let s7: u64 = t48 ^ (t60 ^ 1);
    let t67: u64 = t64 ^ t65;
    let s3: u64 = t53 ^ t66;
    let s4: u64 = t51 ^ t66;
    let s5: u64 = t47 ^ t65;
    let s1: u64 = t64 ^ (s3 ^ 1);
    let s2: u64 = t55 ^ (t67 ^ 1);
    (s0, s1, s2, s3, s4, s5, s6, s7)
}

/// The circuit's truth table, all 256 lines of it: on zero it gives 0x63, and
/// on any other byte `a` a byte `s` such that undoing the affine map on `s`
/// yields an inverse of `a`.
proof fn lemma_sbox_bits_invert(x0: u64, x1: u64, x2: u64, x3: u64, x4: u64, x5: u64, x6: u64, x7: u64)
    requires
        x0 <= 1,
        x1 <= 1,
        x2 <= 1,
        x3 <= 1,
        x4 <= 1,
        x5 <= 1,
        x6 <= 1,
        x7 <= 1,
    ensures
        ({
            let s = sbox_bits(x0, x1, x2, x3, x4, x5, x6, x7);
            let a = pack8(x7, x6, x5, x4, x3, x2, x1, x0);
            let v = pack8(s.7, s.6, s.5, s.4, s.3, s.2, s.1, s.0);
            if a == 0 {
                v == 0x63
            } else {
                gf_mul(a, affine_inv(v)) == 1
            }
        }),
{
    // The linear layer on top.
    let y14: u64 = x3 ^ x5;
    let y13: u64 = x0 ^ x6;
    let y9: u64 = x0 ^ x3;
    let y8: u64 = x0 ^ x5;
    let t0: u64 = x1 ^ x2;
    let y1: u64 = t0 ^ x7;
    let y4: u64 = y1 ^ x3;
    let y12: u64 = y13 ^ y14;
    let y2: u64 = y1 ^ x0;
    let y5: u64 = y1 ^ x6;
    let y3: u64 = y5 ^ y8;
    let t1: u64 = x4 ^ y12;
    let y15: u64 = t1 ^ x5;
    let y20: u64 = t1 ^ x1;
    let y6: u64 = y15 ^ x7;
    let y10: u64 = y15 ^ t0;
    let y11: u64 = y20 ^ y9;
    let y7: u64 = x7 ^ y11;
    let y17: u64 = y10 ^ y11;
    let y19: u64 = y10 ^ y8;
    let y16: u64 = t0 ^ y11;
    let y21: u64 = y13 ^ y16;
    let y18: u64 = x0 ^ y16;
    // The nonlinear middle.
    let t2: u64 = y12 & y15;
    let t3: u64 = y3 & y6;
    let t4: u64 = t3 ^ t2;
    let t5: u64 = y4 & x7;
    let t6: u64 = t5 ^ t2;
    let t7: u64 = y13 & y16;
    let t8: u64 = y5 & y1;
    let t9: u64 = t8 ^ t7;
    let t10: u64 = y2 & y7;
    let t11: u64 = t10 ^ t7;
    let t12: u64 = y9 & y11;
    let t13: u64 = y14 & y17;
    let t14: u64 = t13 ^ t12;
    let t15: u64 = y8 & y10;
    let t16: u64 = t15 ^ t12;
    let t17: u64 = t4 ^ t14;
    let t18: u64 = t6 ^ t16;
    let t19: u64 = t9 ^ t14;
    let t20: u64 = t11 ^ t16;
    let t21: u64 = t17 ^ y20;
    let t22: u64 = t18 ^ y19;
    let t23: u64 = t19 ^ y21;
    let t24: u64 = t20 ^ y18;
    let t25: u64 = t21 ^ t22;
    let t26: u64 = t21 & t23;
    let t27: u64 = t24 ^ t26;
    let t28: u64 = t25 & t27;
    let t29: u64 = t28 ^ t22;
    let t30: u64 = t23 ^ t24;
    let t31: u64 = t22 ^ t26;
    let t32: u64 = t31 & t30;
    let t33: u64 = t32 ^ t24;
    let t34: u64 = t23 ^ t33;
    let t35: u64 = t27 ^ t33;
    let t36: u64 = t24 & t35;
    let t37: u64 = t36 ^ t34;
    let t38: u64 = t27 ^ t36;
    let t39: u64 = t29 & t38;
    let t40: u64 = t25 ^ t39;
    let t41: u64 = t40 ^ t37;
    let t42: u64 = t29 ^ t33;
    let t43: u64 = t29 ^ t40;
    let t44: u64 = t33 ^ t37;
    let t45: u64 = t42 ^ t41;
    let z0: u64 = t44 & y15;
    let z1: u64 = t37 & y6;
    let z2: u64 = t33 & x7;
    let z3: u64 = t43 & y16;
    let z4: u64 = t40 & y1;
    let z5: u64 = t29 & y7;
    let z6: u64 = t42 & y11;
    let z7: u64 = t45 & y17;
    let z8: u64 = t41 & y10;
    let z9: u64 = t44 & y12;
    let z10: u64 = t37 & y3;
    let z11: u64 = t33 & y4;
    let z12: u64 = t43 & y13;
    let z13: u64 = t40 & y5;
    let z14: u64 = t29 & y2;
    let z15: u64 = t42 & y9;
    let z16: u64 = t45 & y14;
    let z17: u64 = t41 & y8;
    // The linear layer at the bottom.
    let t46: u64 = z15 ^ z16;
    let t47: u64 = z10 ^ z11;
    let t48: u64 = z5 ^ z13;
    let t49: u64 = z9 ^ z10;
    let t50: u64 = z2 ^ z12;
    let t51: u64 = z2 ^ z5;
    let t52: u64 = z7 ^ z8;
    let t53: u64 = z0 ^ z3;
    let t54: u64 = z6 ^ z7;
    let t55: u64 = z16 ^ z17;
    let t56: u64 = z12 ^ t48;
    let t57: u64 = t50 ^ t53;
    let t58: u64 = z4 ^ t46;
    let t59: u64 = z3 ^ t54;
    let t60: u64 = t46 ^ t57;
    let t61: u64 = z14 ^ t57;
    let t62: u64 = t52 ^ t58;
    let t63: u64 = t49 ^ t58;
    let t64: u64 = z4 ^ t59;
    let t65: u64 = t61 ^ t62;
    let t66: u64 = z1 ^ t63;
    let s0: u64 = t59 ^ t63;
    let s6: u64 = t56 ^ (t62 ^ 1);
    let s7: u64 = t48 ^ (t60 ^ 1);
    let t67: u64 = t64 ^ t65;
    let s3: u64 = t53 ^ t66;
    let s4: u64 = t51 ^ t66;
    let s5: u64 = t47 ^ t65;
    let s1: u64 = t64 ^ (s3 ^ 1);
    let s2: u64 = t55 ^ (t67 ^ 1);
    let a = pack8(x7, x6, x5, x4, x3, x2, x1, x0);
    let v = pack8(s7, s6, s5, s4, s3, s2, s1, s0);
    let c = affine_inv(v);
    let a1 = xtime(a);
    let a2 = xtime(a1);
    let a3 = xtime(a2);
    let a4 = xtime(a3);
    let a5 = xtime(a4);
    let a6 = xtime(a5);
    let a7 = xtime(a6);
    let r = gf_mul(a, c);
    assert(if a == 0 { v == 0x63 } else { r == 1 }) by (bit_vector)
        requires
            x0 <= 1,
            x1 <= 1,
            x2 <= 1,
            x3 <= 1,
            x4 <= 1,
            x5 <= 1,
            x6 <= 1,
            x7 <= 1,
            a == pack8(x7, x6, x5, x4, x3, x2, x1, x0),
            v == pack8(s7, s6, s5, s4, s3, s2, s1, s0),
            c == affine_inv(v),
            a1 == xtime(a),
            a2 == xtime(a1),
            a3 == xtime(a2),
            a4 == xtime(a3),
            a5 == xtime(a4),
            a6 == xtime(a5),
            a7 == xtime(a6),
            r == pick(c, 0x01, a) ^ pick(c, 0x02, a1) ^ pick(c, 0x04, a2) ^ pick(c, 0x08, a3)
                ^ pick(c, 0x10, a4) ^ pick(c, 0x20, a5) ^ pick(c, 0x40, a6) ^ pick(c, 0x80, a7),
            y14 == x3 ^ x5,
            y13 == x0 ^ x6,
            y9 == x0 ^ x3,
            y8 == x0 ^ x5,
            t0 == x1 ^ x2,
            y1 == t0 ^ x7,
            y4 == y1 ^ x3,
            y12 == y13 ^ y14,
            y2 == y1 ^ x0,
            y5 == y1 ^ x6,
            y3 == y5 ^ y8,
            t1 == x4 ^ y12,
            y15 == t1 ^ x5,
            y20 == t1 ^ x1,
            y6 == y15 ^ x7,
            y10 == y15 ^ t0,
            y11 == y20 ^ y9,
            y7 == x7 ^ y11,
            y17 == y10 ^ y11,
            y19 == y10 ^ y8,
            y16 == t0 ^ y11,
            y21 == y13 ^ y16,
            y18 == x0 ^ y16,
            t2 == y12 & y15,
            t3 == y3 & y6,
            t4 == t3 ^ t2,
            t5 == y4 & x7,
            t6 == t5 ^ t2,
            t7 == y13 & y16,
            t8 == y5 & y1,
            t9 == t8 ^ t7,
            t10 == y2 & y7,
            t11 == t10 ^ t7,
            t12 == y9 & y11,
            t13 == y14 & y17,
            t14 == t13 ^ t12,
            t15 == y8 & y10,
            t16 == t15 ^ t12,
            t17 == t4 ^ t14,
            t18 == t6 ^ t16,
            t19 == t9 ^ t14,
            t20 == t11 ^ t16,
            t21 == t17 ^ y20,
            t22 == t18 ^ y19,
            t23 == t19 ^ y21,
            t24 == t20 ^ y18,
            t25 == t21 ^ t22,
            t26 == t21 & t23,
            t27 == t24 ^ t26,
            t28 == t25 & t27,
            t29 == t28 ^ t22,
            t30 == t23 ^ t24,
            t31 == t22 ^ t26,
            t32 == t31 & t30,
            t33 == t32 ^ t24,
            t34 == t23 ^ t33,
            t35 == t27 ^ t33,
            t36 == t24 & t35,
            t37 == t36 ^ t34,
            t38 == t27 ^ t36,
            t39 == t29 & t38,
            t40 == t25 ^ t39,
            t41 == t40 ^ t37,
            t42 == t29 ^ t33,
            t43 == t29 ^ t40,
            t44 == t33 ^ t37,
            t45 == t42 ^ t41,
            z0 == t44 & y15,
            z1 == t37 & y6,
            z2 == t33 & x7,
            z3 == t43 & y16,
            z4 == t40 & y1,
            z5 == t29 & y7,
            z6 == t42 & y11,
            z7 == t45 & y17,
            z8 == t41 & y10,
            z9 == t44 & y12,
            z10 == t37 & y3,
            z11 == t33 & y4,
            z12 == t43 & y13,
            z13 == t40 & y5,
            z14 == t29 & y2,
            z15 == t42 & y9,
            z16 == t45 & y14,
            z17 == t41 & y8,
            t46 == z15 ^ z16,
            t47 == z10 ^ z11,
            t48 == z5 ^ z13,
            t49 == z9 ^ z10,
            t50 == z2 ^ z12,
            t51 == z2 ^ z5,
            t52 == z7 ^ z8,
            t53 == z0 ^ z3,
            t54 == z6 ^ z7,
            t55 == z16 ^ z17,
            t56 == z12 ^ t48,
            t57 == t50 ^ t53,
            t58 == z4 ^ t46,
            t59 == z3 ^ t54,
            t60 == t46 ^ t57,
            t61 == z14 ^ t57,
            t62 == t52 ^ t58,
            t63 == t49 ^ t58,
            t64 == z4 ^ t59,
            t65 == t61 ^ t62,
            t66 == z1 ^ t63,
            s0 == t59 ^ t63,
            s6 == t56 ^ (t62 ^ 1),
            s7 == t48 ^ (t60 ^ 1),
            t67 == t64 ^ t65,
            s3 == t53 ^ t66,
            s4 == t51 ^ t66,
            s5 == t47 ^ t65,
            s1 == t64 ^ (s3 ^ 1),
            s2 == t55 ^ (t67 ^ 1),
    ;
}

/// The two affine maps undo each other, and the affine map of zero is 0x63.
proof fn lemma_affine(s: u8)
    by (bit_vector)
    ensures
        affine(affine_inv(s)) == s,
        affine(0) == 0x63,
{
}

/// The circuit on single bits computes the S-box.
pub proof fn lemma_sbox_bits(x0: u64, x1: u64, x2: u64, x3: u64, x4: u64, x5: u64, x6: u64, x7: u64)
    requires
        x0 <= 1,
        x1 <= 1,
        x2 <= 1,
        x3 <= 1,
        x4 <= 1,
        x5 <= 1,
        x6 <= 1,
        x7 <= 1,
    ensures
        ({
            let s = sbox_bits(x0, x1, x2, x3, x4, x5, x6, x7);
            pack8(s.7, s.6, s.5, s.4, s.3, s.2, s.1, s.0) == sbox(pack8(x7, x6, x5, x4, x3, x2, x1, x0))
        }),
{
    let s = sbox_bits(x0, x1, x2, x3, x4, x5, x6, x7);
    let a = pack8(x7, x6, x5, x4, x3, x2, x1, x0);
    let v = pack8(s.7, s.6, s.5, s.4, s.3, s.2, s.1, s.0);
    lemma_sbox_bits_invert(x0, x1, x2, x3, x4, x5, x6, x7);
    lemma_affine(v);
    if a != 0 {
        lemma_inverse_unique(a, affine_inv(v));
    }
}

/// Every byte is the pack of its eight bits.
proof fn lemma_byte_bits(a: u8)
    by (bit_vector)
    ensures
        a == pack8(
            (a & 1) as u64,
            ((a >> 1) & 1) as u64,
            ((a >> 2) & 1) as u64,
            ((a >> 3) & 1) as u64,
            ((a >> 4) & 1) as u64,
            ((a >> 5) & 1) as u64,
            ((a >> 6) & 1) as u64,
            ((a >> 7) & 1) as u64,
        ),
        (a & 1) as u64 <= 1,
        ((a >> 1) & 1) as u64 <= 1,
        ((a >> 2) & 1) as u64 <= 1,
        ((a >> 3) & 1) as u64 <= 1,
        ((a >> 4) & 1) as u64 <= 1,
        ((a >> 5) & 1) as u64 <= 1,
        ((a >> 6) & 1) as u64 <= 1,
        ((a >> 7) & 1) as u64 <= 1,
{
}

/// Every byte but zero has an inverse in the field, and `gf_inv` is it.
pub proof fn lemma_inverse_exists(a: u8)
    requires
        a != 0,
    ensures
        gf_mul(a, gf_inv(a)) == 1,
{
    lemma_byte_bits(a);
    let x7 = (a & 1) as u64;
    let x6 = ((a >> 1) & 1) as u64;
    let x5 = ((a >> 2) & 1) as u64;
    let x4 = ((a >> 3) & 1) as u64;
    let x3 = ((a >> 4) & 1) as u64;
    let x2 = ((a >> 5) & 1) as u64;
    let x1 = ((a >> 6) & 1) as u64;
    let x0 = ((a >> 7) & 1) as u64;
    let s = sbox_bits(x0, x1, x2, x3, x4, x5, x6, x7);
    lemma_sbox_bits_invert(x0, x1, x2, x3, x4, x5, x6, x7);
    lemma_inverse_unique(a, affine_inv(pack8(s.7, s.6, s.5, s.4, s.3, s.2, s.1, s.0)));
}

/// Applies the S-box to the 64 bytes that the first eight words of `q`
/// hold, and so SubBytes to each of the four blocks.
pub fn aes_sbox(q: &mut [u64])
    requires
        old(q).len() >= 8,
    ensures
        final(q).len() == old(q).len(),
        forall|i: int| 8 <= i < old(q).len() ==> final(q)[i] == old(q)[i],
        forall|p: u64| p < 64 ==> #[trigger] lane_byte(final(q)@, p) == sbox(lane_byte(old(q)@, p)),
        forall|b: int| 0 <= b < 4 ==> #[trigger] block_state(final(q)@, b) == sub_bytes(block_state(old(q)@, b)),
{
    let x0: u64 = q[7];
    let x1: u64 = q[6];
    let x2: u64 = q[5];
    let x3: u64 = q[4];
    let x4: u64 = q[3];
    let x5: u64 = q[2];
    let x6: u64 = q[1];
    let x7: u64 = q[0];

    // The linear layer on top.
    let y14: u64 = x3 ^ x5;
    let y13: u64 = x0 ^ x6;
    let y9: u64 = x0 ^ x3;
    let y8: u64 = x0 ^ x5;
    let t0: u64 = x1 ^ x2;
    let y1: u64 = t0 ^ x7;
    let y4: u64 = y1 ^ x3;
    let y12: u64 = y13 ^ y14;
    let y2: u64 = y1 ^ x0;
    let y5: u64 = y1 ^ x6;
    let y3: u64 = y5 ^ y8;
    let t1: u64 = x4 ^ y12;
    let y15: u64 = t1 ^ x5;
    let y20: u64 = t1 ^ x1;
    let y6: u64 = y15 ^ x7;
    let y10: u64 = y15 ^ t0;
    let y11: u64 = y20 ^ y9;
    let y7: u64 = x7 ^ y11;
    let y17: u64 = y10 ^ y11;
    let y19: u64 = y10 ^ y8;
    let y16: u64 = t0 ^ y11;
    let y21: u64 = y13 ^ y16;
    let y18: u64 = x0 ^ y16;
    // The nonlinear middle.
    let t2: u64 = y12 & y15;
    let t3: u64 = y3 & y6;
    let t4: u64 = t3 ^ t2;
    let t5: u64 = y4 & x7;
    let t6: u64 = t5 ^ t2;
    let t7: u64 = y13 & y16;
    let t8: u64 = y5 & y1;
    let t9: u64 = t8 ^ t7;
    let t10: u64 = y2 & y7;
    let t11: u64 = t10 ^ t7;
    let t12: u64 = y9 & y11;
    let t13: u64 = y14 & y17;
    let t14: u64 = t13 ^ t12;
    let t15: u64 = y8 & y10;
    let t16: u64 = t15 ^ t12;
    let t17: u64 = t4 ^ t14;
    let t18: u64 = t6 ^ t16;
    let t19: u64 = t9 ^ t14;
    let t20: u64 = t11 ^ t16;
    let t21: u64 = t17 ^ y20;
    let t22: u64 = t18 ^ y19;
    let t23: u64 = t19 ^ y21;
    let t24: u64 = t20 ^ y18;
    let t25: u64 = t21 ^ t22;
    let t26: u64 = t21 & t23;
    let t27: u64 = t24 ^ t26;
    let t28: u64 = t25 & t27;
    let t29: u64 = t28 ^ t22;
    let t30: u64 = t23 ^ t24;
    let t31: u64 = t22 ^ t26;
    let t32: u64 = t31 & t30;
    let t33: u64 = t32 ^ t24;
    let t34: u64 = t23 ^ t33;
    let t35: u64 = t27 ^ t33;
    let t36: u64 = t24 & t35;
    let t37: u64 = t36 ^ t34;
    let t38: u64 = t27 ^ t36;
    let t39: u64 = t29 & t38;
    let t40: u64 = t25 ^ t39;
    let t41: u64 = t40 ^ t37;
    let t42: u64 = t29 ^ t33;
    let t43: u64 = t29 ^ t40;
    let t44: u64 = t33 ^ t37;
    let t45: u64 = t42 ^ t41;
    let z0: u64 = t44 & y15;
    let z1: u64 = t37 & y6;
    let z2: u64 = t33 & x7;
    let z3: u64 = t43 & y16;
    let z4: u64 = t40 & y1;
    let z5: u64 = t29 & y7;
    let z6: u64 = t42 & y11;
    let z7: u64 = t45 & y17;
    let z8: u64 = t41 & y10;
    let z9: u64 = t44 & y12;
    let z10: u64 = t37 & y3;
    let z11: u64 = t33 & y4;
    let z12: u64 = t43 & y13;
    let z13: u64 = t40 & y5;
    let z14: u64 = t29 & y2;
    let z15: u64 = t42 & y9;
    let z16: u64 = t45 & y14;
    let z17: u64 = t41 & y8;
    // The linear layer at the bottom.
    let t46: u64 = z15 ^ z16;
    let t47: u64 = z10 ^ z11;
    let t48: u64 = z5 ^ z13;
    let t49: u64 = z9 ^ z10;
    let t50: u64 = z2 ^ z12;
    let t51: u64 = z2 ^ z5;
    let t52: u64 = z7 ^ z8;
    let t53: u64 = z0 ^ z3;
    let t54: u64 = z6 ^ z7;
    let t55: u64 = z16 ^ z17;
    let t56: u64 = z12 ^ t48;
    let t57: u64 = t50 ^ t53;
    let t58: u64 = z4 ^ t46;
    let t59: u64 = z3 ^ t54;
    let t60: u64 = t46 ^ t57;
    let t61: u64 = z14 ^ t57;
    let t62: u64 = t52 ^ t58;
    let t63: u64 = t49 ^ t58;
    let t64: u64 = z4 ^ t59;
    let t65: u64 = t61 ^ t62;
    let t66: u64 = z1 ^ t63;
    let s0: u64 = t59 ^ t63;
    let s6: u64 = t56 ^ !t62;
    let s7: u64 = t48 ^ !t60;
    let t67: u64 = t64 ^ t65;
    let s3: u64 = t53 ^ t66;
    let s4: u64 = t51 ^ t66;
    let s5: u64 = t47 ^ t65;
    let s1: u64 = t64 ^ !s3;
    let s2: u64 = t55 ^ !t67;

    q[7] = s0;
    q[6] = s1;
    q[5] = s2;
    q[4] = s3;
    q[3] = s4;
    q[2] = s5;
    q[1] = s6;
    q[0] = s7;

    proof {
        lemma_lane_gates();
        assert forall|p: u64| p < 64 implies #[trigger] lane_byte(q@, p) == sbox(lane_byte(old(q)@, p)) by {
            let b = sbox_bits(
                lane(x0, p),
                lane(x1, p),
                lane(x2, p),
                lane(x3, p),
                lane(x4, p),
                lane(x5, p),
                lane(x6, p),
                lane(x7, p),
            );
            lemma_sbox_bits(
                lane(x0, p),
                lane(x1, p),
                lane(x2, p),
                lane(x3, p),
                lane(x4, p),
                lane(x5, p),
                lane(x6, p),
                lane(x7, p),
            );
            assert(b.0 == lane(s0, p));
            assert(b.1 == lane(s1, p));
            assert(b.2 == lane(s2, p));
            assert(b.3 == lane(s3, p));
            assert(b.4 == lane(s4, p));
            assert(b.5 == lane(s5, p));
            assert(b.6 == lane(s6, p));
            assert(b.7 == lane(s7, p));
        }
        assert forall|b: int| 0 <= b < 4 implies #[trigger] block_state(q@, b) == sub_bytes(
            block_state(old(q)@, b),
        ) by {
            assert forall|k: int| 0 <= k < 16 implies block_state(q@, b)[k] == sub_bytes(block_state(old(q)@, b))[k] by {
                assert(lane_of(b, k) < 64);
            }
            assert(block_state(q@, b) =~= sub_bytes(block_state(old(q)@, b)));
        }
    }
}

} // verus!
