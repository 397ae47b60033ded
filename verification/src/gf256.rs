//! The field GF(2^8) of AES: bytes as polynomials over GF(2), reduced modulo
//! x^8 + x^4 + x^3 + x + 1.

use vstd::prelude::*;

verus! {

/// Multiplication by x: a shift, and a reduction when the top bit falls out.
pub open spec fn xtime(a: u8) -> u8 {
    (a << 1) ^ (if a & 0x80 != 0 { 0x1bu8 } else { 0u8 })
}

/// `a` if `b` has the bit `m`, else zero.
pub open spec fn pick(b: u8, m: u8, a: u8) -> u8 {
    if b & m != 0 { a } else { 0u8 }
}

/// The product of two field elements: the sum, over the bits `i` of `b`, of
/// `a` times x^i.
pub open spec fn gf_mul(a: u8, b: u8) -> u8 {
    let a1 = xtime(a);
    let a2 = xtime(a1);
    let a3 = xtime(a2);
    let a4 = xtime(a3);
    let a5 = xtime(a4);
    let a6 = xtime(a5);
    let a7 = xtime(a6);
    pick(b, 0x01, a) ^ pick(b, 0x02, a1) ^ pick(b, 0x04, a2) ^ pick(b, 0x08, a3)
        ^ pick(b, 0x10, a4) ^ pick(b, 0x20, a5) ^ pick(b, 0x40, a6) ^ pick(b, 0x80, a7)
}

/// The multiplicative inverse, with zero mapped to itself.
pub open spec fn gf_inv(a: u8) -> u8 {
    if a == 0 { 0u8 } else { choose|b: u8| gf_mul(a, b) == 1 }
}

/// A field element has at most one inverse, and zero has none: whoever
/// exhibits `b` with `a * b = 1` has found `gf_inv(a)`.
pub proof fn lemma_inverse_unique(a: u8, b: u8)
    requires
        gf_mul(a, b) == 1,
    ensures
        a != 0,
        gf_inv(a) == b,
        gf_mul(a, gf_inv(a)) == 1,
{
    let a1 = xtime(a);
    let a2 = xtime(a1);
    let a3 = xtime(a2);
    let a4 = xtime(a3);
    let a5 = xtime(a4);
    let a6 = xtime(a5);
    let a7 = xtime(a6);
    let c = choose|c: u8| gf_mul(a, c) == 1;
    assert(a != 0 && b == c) by (bit_vector)
        requires
            a1 == xtime(a),
            a2 == xtime(a1),
            a3 == xtime(a2),
            a4 == xtime(a3),
            a5 == xtime(a4),
            a6 == xtime(a5),
            a7 == xtime(a6),
            pick(b, 0x01, a) ^ pick(b, 0x02, a1) ^ pick(b, 0x04, a2) ^ pick(b, 0x08, a3)
                ^ pick(b, 0x10, a4) ^ pick(b, 0x20, a5) ^ pick(b, 0x40, a6) ^ pick(b, 0x80, a7) == 1,
            pick(c, 0x01, a) ^ pick(c, 0x02, a1) ^ pick(c, 0x04, a2) ^ pick(c, 0x08, a3)
                ^ pick(c, 0x10, a4) ^ pick(c, 0x20, a5) ^ pick(c, 0x40, a6) ^ pick(c, 0x80, a7) == 1,
    ;
}

/// Multiplying by x is `xtime`, and multiplying by x + 1 adds the element
/// itself: the two products that MixColumns needs.
pub proof fn lemma_mul_by_two_and_three(s: u8)
    ensures
        gf_mul(0x02, s) == xtime(s),
        gf_mul(0x03, s) == xtime(s) ^ s,
{
    lemma_mul_small(0x02, s);
    lemma_mul_small(0x03, s);
}

proof fn lemma_mul_small(a: u8, s: u8)
    requires
        a == 0x02 || a == 0x03,
    ensures
        a == 0x02 ==> gf_mul(a, s) == xtime(s),
        a == 0x03 ==> gf_mul(a, s) == xtime(s) ^ s,
{
    let a1 = xtime(a);
    let a2 = xtime(a1);
    let a3 = xtime(a2);
    let a4 = xtime(a3);
    let a5 = xtime(a4);
    let a6 = xtime(a5);
    let a7 = xtime(a6);
    let r = gf_mul(a, s);
    assert((a == 0x02 ==> r == xtime(s)) && (a == 0x03 ==> r == xtime(s) ^ s)) by (bit_vector)
        requires
            a == 0x02 || a == 0x03,
            a1 == xtime(a),
            a2 == xtime(a1),
            a3 == xtime(a2),
            a4 == xtime(a3),
            a5 == xtime(a4),
            a6 == xtime(a5),
            a7 == xtime(a6),
            r == pick(s, 0x01, a) ^ pick(s, 0x02, a1) ^ pick(s, 0x04, a2) ^ pick(s, 0x08, a3)
                ^ pick(s, 0x10, a4) ^ pick(s, 0x20, a5) ^ pick(s, 0x40, a6) ^ pick(s, 0x80, a7),
    ;
}

} // verus!
