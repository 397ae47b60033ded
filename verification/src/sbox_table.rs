//! The S-box, defined by inversion in the field and the affine map, is the
//! table of 256 bytes that the standard prints.

use vstd::prelude::*;
use crate::aes::{affine, sbox, sbox_table};
use crate::gf256::{gf_mul, lemma_inverse_unique};

verus! {

/// The lines {00} to {1f} of the table: each byte with its inverse, and
/// the affine map of that inverse.
proof fn lemma_sbox_table_0(a: u8)
    requires
        0x00 <= a <= 0x1f,
    ensures
        sbox(a) == sbox_table(a),
{
    assert(affine(0x00) == 0x63
            && gf_mul(0x01, 0x01) == 1
            && affine(0x01) == 0x7c
            && gf_mul(0x02, 0x8d) == 1
            && affine(0x8d) == 0x77
            && gf_mul(0x03, 0xf6) == 1
            && affine(0xf6) == 0x7b
            && gf_mul(0x04, 0xcb) == 1
            && affine(0xcb) == 0xf2
            && gf_mul(0x05, 0x52) == 1
            && affine(0x52) == 0x6b
            && gf_mul(0x06, 0x7b) == 1
            && affine(0x7b) == 0x6f
            && gf_mul(0x07, 0xd1) == 1
            && affine(0xd1) == 0xc5
            && gf_mul(0x08, 0xe8) == 1
            && affine(0xe8) == 0x30
            && gf_mul(0x09, 0x4f) == 1
            && affine(0x4f) == 0x01
            && gf_mul(0x0a, 0x29) == 1
            && affine(0x29) == 0x67
            && gf_mul(0x0b, 0xc0) == 1
            && affine(0xc0) == 0x2b
            && gf_mul(0x0c, 0xb0) == 1
            && affine(0xb0) == 0xfe
            && gf_mul(0x0d, 0xe1) == 1
            && affine(0xe1) == 0xd7
            && gf_mul(0x0e, 0xe5) == 1
            && affine(0xe5) == 0xab
            && gf_mul(0x0f, 0xc7) == 1
            && affine(0xc7) == 0x76
            && gf_mul(0x10, 0x74) == 1
            && affine(0x74) == 0xca
            && gf_mul(0x11, 0xb4) == 1
            && affine(0xb4) == 0x82
            && gf_mul(0x12, 0xaa) == 1
            && affine(0xaa) == 0xc9
            && gf_mul(0x13, 0x4b) == 1
            && affine(0x4b) == 0x7d
            && gf_mul(0x14, 0x99) == 1
            && affine(0x99) == 0xfa
            && gf_mul(0x15, 0x2b) == 1
            && affine(0x2b) == 0x59
            && gf_mul(0x16, 0x60) == 1
            && affine(0x60) == 0x47
            && gf_mul(0x17, 0x5f) == 1
            && affine(0x5f) == 0xf0
            && gf_mul(0x18, 0x58) == 1
            && affine(0x58) == 0xad
            && gf_mul(0x19, 0x3f) == 1
            && affine(0x3f) == 0xd4
            && gf_mul(0x1a, 0xfd) == 1
            && affine(0xfd) == 0xa2
            && gf_mul(0x1b, 0xcc) == 1
            && affine(0xcc) == 0xaf
            && gf_mul(0x1c, 0xff) == 1
            && affine(0xff) == 0x9c
            && gf_mul(0x1d, 0x40) == 1
            && affine(0x40) == 0xa4
            && gf_mul(0x1e, 0xee) == 1
            && affine(0xee) == 0x72
            && gf_mul(0x1f, 0xb2) == 1
            && affine(0xb2) == 0xc0) by (bit_vector);
    lemma_inverse_unique(0x01, 0x01);
    lemma_inverse_unique(0x02, 0x8d);
    lemma_inverse_unique(0x03, 0xf6);
    lemma_inverse_unique(0x04, 0xcb);
    lemma_inverse_unique(0x05, 0x52);
    lemma_inverse_unique(0x06, 0x7b);
    lemma_inverse_unique(0x07, 0xd1);
    lemma_inverse_unique(0x08, 0xe8);
    lemma_inverse_unique(0x09, 0x4f);
    lemma_inverse_unique(0x0a, 0x29);
    lemma_inverse_unique(0x0b, 0xc0);
    lemma_inverse_unique(0x0c, 0xb0);
    lemma_inverse_unique(0x0d, 0xe1);
    lemma_inverse_unique(0x0e, 0xe5);
    lemma_inverse_unique(0x0f, 0xc7);
    lemma_inverse_unique(0x10, 0x74);
    lemma_inverse_unique(0x11, 0xb4);
    lemma_inverse_unique(0x12, 0xaa);
    lemma_inverse_unique(0x13, 0x4b);
    lemma_inverse_unique(0x14, 0x99);
    lemma_inverse_unique(0x15, 0x2b);
    lemma_inverse_unique(0x16, 0x60);
    lemma_inverse_unique(0x17, 0x5f);
    lemma_inverse_unique(0x18, 0x58);
    lemma_inverse_unique(0x19, 0x3f);
    lemma_inverse_unique(0x1a, 0xfd);
    lemma_inverse_unique(0x1b, 0xcc);
    lemma_inverse_unique(0x1c, 0xff);
    lemma_inverse_unique(0x1d, 0x40);
    lemma_inverse_unique(0x1e, 0xee);
    lemma_inverse_unique(0x1f, 0xb2);
}

/// The lines {20} to {3f} of the table: each byte with its inverse, and
/// the affine map of that inverse.
proof fn lemma_sbox_table_1(a: u8)
    requires
        0x20 <= a <= 0x3f,
    ensures
        sbox(a) == sbox_table(a),
{
    assert(gf_mul(0x20, 0x3a) == 1
            && affine(0x3a) == 0xb7
            && gf_mul(0x21, 0x6e) == 1
            && affine(0x6e) == 0xfd
            && gf_mul(0x22, 0x5a) == 1
            && affine(0x5a) == 0x93
            && gf_mul(0x23, 0xf1) == 1
            && affine(0xf1) == 0x26
            && gf_mul(0x24, 0x55) == 1
            && affine(0x55) == 0x36
            && gf_mul(0x25, 0x4d) == 1
            && affine(0x4d) == 0x3f
            && gf_mul(0x26, 0xa8) == 1
            && affine(0xa8) == 0xf7
            && gf_mul(0x27, 0xc9) == 1
            && affine(0xc9) == 0xcc
            && gf_mul(0x28, 0xc1) == 1
            && affine(0xc1) == 0x34
            && gf_mul(0x29, 0x0a) == 1
            && affine(0x0a) == 0xa5
            && gf_mul(0x2a, 0x98) == 1
            && affine(0x98) == 0xe5
            && gf_mul(0x2b, 0x15) == 1
            && affine(0x15) == 0xf1
            && gf_mul(0x2c, 0x30) == 1
            && affine(0x30) == 0x71
            && gf_mul(0x2d, 0x44) == 1
            && affine(0x44) == 0xd8
            && gf_mul(0x2e, 0xa2) == 1
            && affine(0xa2) == 0x31
            && gf_mul(0x2f, 0xc2) == 1
            && affine(0xc2) == 0x15
            && gf_mul(0x30, 0x2c) == 1
            && affine(0x2c) == 0x04
            && gf_mul(0x31, 0x45) == 1
            && affine(0x45) == 0xc7
            && gf_mul(0x32, 0x92) == 1
            && affine(0x92) == 0x23
            && gf_mul(0x33, 0x6c) == 1
            && affine(0x6c) == 0xc3
            && gf_mul(0x34, 0xf3) == 1
            && affine(0xf3) == 0x18
            && gf_mul(0x35, 0x39) == 1
            && affine(0x39) == 0x96
            && gf_mul(0x36, 0x66) == 1
            && affine(0x66) == 0x05
            && gf_mul(0x37, 0x42) == 1
            && affine(0x42) == 0x9a
            && gf_mul(0x38, 0xf2) == 1
            && affine(0xf2) == 0x07
            && gf_mul(0x39, 0x35) == 1
            && affine(0x35) == 0x12
            && gf_mul(0x3a, 0x20) == 1
            && affine(0x20) == 0x80
            && gf_mul(0x3b, 0x6f) == 1
            && affine(0x6f) == 0xe2
            && gf_mul(0x3c, 0x77) == 1
            && affine(0x77) == 0xeb
            && gf_mul(0x3d, 0xbb) == 1
            && affine(0xbb) == 0x27
            && gf_mul(0x3e, 0x59) == 1
            && affine(0x59) == 0xb2
            && gf_mul(0x3f, 0x19) == 1
            && affine(0x19) == 0x75) by (bit_vector);
    lemma_inverse_unique(0x20, 0x3a);
    lemma_inverse_unique(0x21, 0x6e);
    lemma_inverse_unique(0x22, 0x5a);
    lemma_inverse_unique(0x23, 0xf1);
    lemma_inverse_unique(0x24, 0x55);
    lemma_inverse_unique(0x25, 0x4d);
    lemma_inverse_unique(0x26, 0xa8);
    lemma_inverse_unique(0x27, 0xc9);
    lemma_inverse_unique(0x28, 0xc1);
    lemma_inverse_unique(0x29, 0x0a);
    lemma_inverse_unique(0x2a, 0x98);
    lemma_inverse_unique(0x2b, 0x15);
    lemma_inverse_unique(0x2c, 0x30);
    lemma_inverse_unique(0x2d, 0x44);
    lemma_inverse_unique(0x2e, 0xa2);
    lemma_inverse_unique(0x2f, 0xc2);
    lemma_inverse_unique(0x30, 0x2c);
    lemma_inverse_unique(0x31, 0x45);
    lemma_inverse_unique(0x32, 0x92);
    lemma_inverse_unique(0x33, 0x6c);
    lemma_inverse_unique(0x34, 0xf3);
    lemma_inverse_unique(0x35, 0x39);
    lemma_inverse_unique(0x36, 0x66);
    lemma_inverse_unique(0x37, 0x42);
    lemma_inverse_unique(0x38, 0xf2);
    lemma_inverse_unique(0x39, 0x35);
    lemma_inverse_unique(0x3a, 0x20);
    lemma_inverse_unique(0x3b, 0x6f);
    lemma_inverse_unique(0x3c, 0x77);
    lemma_inverse_unique(0x3d, 0xbb);
    lemma_inverse_unique(0x3e, 0x59);
    lemma_inverse_unique(0x3f, 0x19);
}

/// The lines {40} to {5f} of the table: each byte with its inverse, and
/// the affine map of that inverse.
proof fn lemma_sbox_table_2(a: u8)
    requires
        0x40 <= a <= 0x5f,
    ensures
        sbox(a) == sbox_table(a),
{
    assert(gf_mul(0x40, 0x1d) == 1
            && affine(0x1d) == 0x09
            && gf_mul(0x41, 0xfe) == 1
            && affine(0xfe) == 0x83
            && gf_mul(0x42, 0x37) == 1
            && affine(0x37) == 0x2c
            && gf_mul(0x43, 0x67) == 1
            && affine(0x67) == 0x1a
            && gf_mul(0x44, 0x2d) == 1
            && affine(0x2d) == 0x1b
            && gf_mul(0x45, 0x31) == 1
            && affine(0x31) == 0x6e
            && gf_mul(0x46, 0xf5) == 1
            && affine(0xf5) == 0x5a
            && gf_mul(0x47, 0x69) == 1
            && affine(0x69) == 0xa0
            && gf_mul(0x48, 0xa7) == 1
            && affine(0xa7) == 0x52
            && gf_mul(0x49, 0x64) == 1
            && affine(0x64) == 0x3b
            && gf_mul(0x4a, 0xab) == 1
            && affine(0xab) == 0xd6
            && gf_mul(0x4b, 0x13) == 1
            && affine(0x13) == 0xb3
            && gf_mul(0x4c, 0x54) == 1
            && affine(0x54) == 0x29
            && gf_mul(0x4d, 0x25) == 1
            && affine(0x25) == 0xe3
            && gf_mul(0x4e, 0xe9) == 1
            && affine(0xe9) == 0x2f
            && gf_mul(0x4f, 0x09) == 1
            && affine(0x09) == 0x84
            && gf_mul(0x50, 0xed) == 1
            && affine(0xed) == 0x53
            && gf_mul(0x51, 0x5c) == 1
            && affine(0x5c) == 0xd1
            && gf_mul(0x52, 0x05) == 1
            && affine(0x05) == 0x00
            && gf_mul(0x53, 0xca) == 1
            && affine(0xca) == 0xed
            && gf_mul(0x54, 0x4c) == 1
            && affine(0x4c) == 0x20
            && gf_mul(0x55, 0x24) == 1
            && affine(0x24) == 0xfc
            && gf_mul(0x56, 0x87) == 1
            && affine(0x87) == 0xb1
            && gf_mul(0x57, 0xbf) == 1
            && affine(0xbf) == 0x5b
            && gf_mul(0x58, 0x18) == 1
            && affine(0x18) == 0x6a
            && gf_mul(0x59, 0x3e) == 1
            && affine(0x3e) == 0xcb
            && gf_mul(0x5a, 0x22) == 1
            && affine(0x22) == 0xbe
            && gf_mul(0x5b, 0xf0) == 1
            && affine(0xf0) == 0x39
            && gf_mul(0x5c, 0x51) == 1
            && affine(0x51) == 0x4a
            && gf_mul(0x5d, 0xec) == 1
            && affine(0xec) == 0x4c
            && gf_mul(0x5e, 0x61) == 1
            && affine(0x61) == 0x58
            && gf_mul(0x5f, 0x17) == 1
            && affine(0x17) == 0xcf) by (bit_vector);
    lemma_inverse_unique(0x40, 0x1d);
    lemma_inverse_unique(0x41, 0xfe);
    lemma_inverse_unique(0x42, 0x37);
    lemma_inverse_unique(0x43, 0x67);
    lemma_inverse_unique(0x44, 0x2d);
    lemma_inverse_unique(0x45, 0x31);
    lemma_inverse_unique(0x46, 0xf5);
    lemma_inverse_unique(0x47, 0x69);
    lemma_inverse_unique(0x48, 0xa7);
    lemma_inverse_unique(0x49, 0x64);
    lemma_inverse_unique(0x4a, 0xab);
    lemma_inverse_unique(0x4b, 0x13);
    lemma_inverse_unique(0x4c, 0x54);
    lemma_inverse_unique(0x4d, 0x25);
    lemma_inverse_unique(0x4e, 0xe9);
    lemma_inverse_unique(0x4f, 0x09);
    lemma_inverse_unique(0x50, 0xed);
    lemma_inverse_unique(0x51, 0x5c);
    lemma_inverse_unique(0x52, 0x05);
    lemma_inverse_unique(0x53, 0xca);
    lemma_inverse_unique(0x54, 0x4c);
    lemma_inverse_unique(0x55, 0x24);
    lemma_inverse_unique(0x56, 0x87);
    lemma_inverse_unique(0x57, 0xbf);
    lemma_inverse_unique(0x58, 0x18);
    lemma_inverse_unique(0x59, 0x3e);
    lemma_inverse_unique(0x5a, 0x22);
    lemma_inverse_unique(0x5b, 0xf0);
    lemma_inverse_unique(0x5c, 0x51);
    lemma_inverse_unique(0x5d, 0xec);
    lemma_inverse_unique(0x5e, 0x61);
    lemma_inverse_unique(0x5f, 0x17);
}

/// The lines {60} to {7f} of the table: each byte with its inverse, and
/// the affine map of that inverse.
proof fn lemma_sbox_table_3(a: u8)
    requires
        0x60 <= a <= 0x7f,
    ensures
        sbox(a) == sbox_table(a),
{
    assert(gf_mul(0x60, 0x16) == 1
            && affine(0x16) == 0xd0
            && gf_mul(0x61, 0x5e) == 1
            && affine(0x5e) == 0xef
            && gf_mul(0x62, 0xaf) == 1
            && affine(0xaf) == 0xaa
            && gf_mul(0x63, 0xd3) == 1
            && affine(0xd3) == 0xfb
            && gf_mul(0x64, 0x49) == 1
            && affine(0x49) == 0x43
            && gf_mul(0x65, 0xa6) == 1
            && affine(0xa6) == 0x4d
            && gf_mul(0x66, 0x36) == 1
            && affine(0x36) == 0x33
            && gf_mul(0x67, 0x43) == 1
            && affine(0x43) == 0x85
            && gf_mul(0x68, 0xf4) == 1
            && affine(0xf4) == 0x45
            && gf_mul(0x69, 0x47) == 1
            && affine(0x47) == 0xf9
            && gf_mul(0x6a, 0x91) == 1
            && affine(0x91) == 0x02
            && gf_mul(0x6b, 0xdf) == 1
            && affine(0xdf) == 0x7f
            && gf_mul(0x6c, 0x33) == 1
            && affine(0x33) == 0x50
            && gf_mul(0x6d, 0x93) == 1
            && affine(0x93) == 0x3c
            && gf_mul(0x6e, 0x21) == 1
            && affine(0x21) == 0x9f
            && gf_mul(0x6f, 0x3b) == 1
            && affine(0x3b) == 0xa8
            && gf_mul(0x70, 0x79) == 1
            && affine(0x79) == 0x51
            && gf_mul(0x71, 0xb7) == 1
            && affine(0xb7) == 0xa3
            && gf_mul(0x72, 0x97) == 1
            && affine(0x97) == 0x40
            && gf_mul(0x73, 0x85) == 1
            && affine(0x85) == 0x8f
            && gf_mul(0x74, 0x10) == 1
            && affine(0x10) == 0x92
            && gf_mul(0x75, 0xb5) == 1
            && affine(0xb5) == 0x9d
            && gf_mul(0x76, 0xba) == 1
            && affine(0xba) == 0x38
            && gf_mul(0x77, 0x3c) == 1
            && affine(0x3c) == 0xf5
            && gf_mul(0x78, 0xb6) == 1
            && affine(0xb6) == 0xbc
            && gf_mul(0x79, 0x70) == 1
            && affine(0x70) == 0xb6
            && gf_mul(0x7a, 0xd0) == 1
            && affine(0xd0) == 0xda
            && gf_mul(0x7b, 0x06) == 1
            && affine(0x06) == 0x21
            && gf_mul(0x7c, 0xa1) == 1
            && affine(0xa1) == 0x10
            && gf_mul(0x7d, 0xfa) == 1
            && affine(0xfa) == 0xff
            && gf_mul(0x7e, 0x81) == 1
            && affine(0x81) == 0xf3
            && gf_mul(0x7f, 0x82) == 1
            && affine(0x82) == 0xd2) by (bit_vector);
    lemma_inverse_unique(0x60, 0x16);
    lemma_inverse_unique(0x61, 0x5e);
    lemma_inverse_unique(0x62, 0xaf);
    lemma_inverse_unique(0x63, 0xd3);
    lemma_inverse_unique(0x64, 0x49);
    lemma_inverse_unique(0x65, 0xa6);
    lemma_inverse_unique(0x66, 0x36);
    lemma_inverse_unique(0x67, 0x43);
    lemma_inverse_unique(0x68, 0xf4);
    lemma_inverse_unique(0x69, 0x47);
    lemma_inverse_unique(0x6a, 0x91);
    lemma_inverse_unique(0x6b, 0xdf);
    lemma_inverse_unique(0x6c, 0x33);
    lemma_inverse_unique(0x6d, 0x93);
    lemma_inverse_unique(0x6e, 0x21);
    lemma_inverse_unique(0x6f, 0x3b);
    lemma_inverse_unique(0x70, 0x79);
    lemma_inverse_unique(0x71, 0xb7);
    lemma_inverse_unique(0x72, 0x97);
    lemma_inverse_unique(0x73, 0x85);
    lemma_inverse_unique(0x74, 0x10);
    lemma_inverse_unique(0x75, 0xb5);
    lemma_inverse_unique(0x76, 0xba);
    lemma_inverse_unique(0x77, 0x3c);
    lemma_inverse_unique(0x78, 0xb6);
    lemma_inverse_unique(0x79, 0x70);
    lemma_inverse_unique(0x7a, 0xd0);
    lemma_inverse_unique(0x7b, 0x06);
    lemma_inverse_unique(0x7c, 0xa1);
    lemma_inverse_unique(0x7d, 0xfa);
    lemma_inverse_unique(0x7e, 0x81);
    lemma_inverse_unique(0x7f, 0x82);
}

/// The lines {80} to {9f} of the table: each byte with its inverse, and
/// the affine map of that inverse.
proof fn lemma_sbox_table_4(a: u8)
    requires
        0x80 <= a <= 0x9f,
    ensures
        sbox(a) == sbox_table(a),
{
    assert(gf_mul(0x80, 0x83) == 1
            && affine(0x83) == 0xcd
            && gf_mul(0x81, 0x7e) == 1
            && affine(0x7e) == 0x0c
            && gf_mul(0x82, 0x7f) == 1
            && affine(0x7f) == 0x13
            && gf_mul(0x83, 0x80) == 1
            && affine(0x80) == 0xec
            && gf_mul(0x84, 0x96) == 1
            && affine(0x96) == 0x5f
            && gf_mul(0x85, 0x73) == 1
            && affine(0x73) == 0x97
            && gf_mul(0x86, 0xbe) == 1
            && affine(0xbe) == 0x44
            && gf_mul(0x87, 0x56) == 1
            && affine(0x56) == 0x17
            && gf_mul(0x88, 0x9b) == 1
            && affine(0x9b) == 0xc4
            && gf_mul(0x89, 0x9e) == 1
            && affine(0x9e) == 0xa7
            && gf_mul(0x8a, 0x95) == 1
            && affine(0x95) == 0x7e
            && gf_mul(0x8b, 0xd9) == 1
            && affine(0xd9) == 0x3d
            && gf_mul(0x8c, 0xf7) == 1
            && affine(0xf7) == 0x64
            && gf_mul(0x8d, 0x02) == 1
            && affine(0x02) == 0x5d
            && gf_mul(0x8e, 0xb9) == 1
            && affine(0xb9) == 0x19
            && gf_mul(0x8f, 0xa4) == 1
            && affine(0xa4) == 0x73
            && gf_mul(0x90, 0xde) == 1
            && affine(0xde) == 0x60
            && gf_mul(0x91, 0x6a) == 1
            && affine(0x6a) == 0x81
            && gf_mul(0x92, 0x32) == 1
            && affine(0x32) == 0x4f
            && gf_mul(0x93, 0x6d) == 1
            && affine(0x6d) == 0xdc
            && gf_mul(0x94, 0xd8) == 1
            && affine(0xd8) == 0x22
            && gf_mul(0x95, 0x8a) == 1
            && affine(0x8a) == 0x2a
            && gf_mul(0x96, 0x84) == 1
            && affine(0x84) == 0x90
            && gf_mul(0x97, 0x72) == 1
            && affine(0x72) == 0x88
            && gf_mul(0x98, 0x2a) == 1
            && affine(0x2a) == 0x46
            && gf_mul(0x99, 0x14) == 1
            && affine(0x14) == 0xee
            && gf_mul(0x9a, 0x9f) == 1
            && affine(0x9f) == 0xb8
            && gf_mul(0x9b, 0x88) == 1
            && affine(0x88) == 0x14
            && gf_mul(0x9c, 0xf9) == 1
            && affine(0xf9) == 0xde
            && gf_mul(0x9d, 0xdc) == 1
            && affine(0xdc) == 0x5e
            && gf_mul(0x9e, 0x89) == 1
            && affine(0x89) == 0x0b
            && gf_mul(0x9f, 0x9a) == 1
            && affine(0x9a) == 0xdb) by (bit_vector);
    lemma_inverse_unique(0x80, 0x83);
    lemma_inverse_unique(0x81, 0x7e);
    lemma_inverse_unique(0x82, 0x7f);
    lemma_inverse_unique(0x83, 0x80);
    lemma_inverse_unique(0x84, 0x96);
    lemma_inverse_unique(0x85, 0x73);
    lemma_inverse_unique(0x86, 0xbe);
    lemma_inverse_unique(0x87, 0x56);
    lemma_inverse_unique(0x88, 0x9b);
    lemma_inverse_unique(0x89, 0x9e);
    lemma_inverse_unique(0x8a, 0x95);
    lemma_inverse_unique(0x8b, 0xd9);
    lemma_inverse_unique(0x8c, 0xf7);
    lemma_inverse_unique(0x8d, 0x02);
    lemma_inverse_unique(0x8e, 0xb9);
    lemma_inverse_unique(0x8f, 0xa4);
    lemma_inverse_unique(0x90, 0xde);
    lemma_inverse_unique(0x91, 0x6a);
    lemma_inverse_unique(0x92, 0x32);
    lemma_inverse_unique(0x93, 0x6d);
    lemma_inverse_unique(0x94, 0xd8);
    lemma_inverse_unique(0x95, 0x8a);
    lemma_inverse_unique(0x96, 0x84);
    lemma_inverse_unique(0x97, 0x72);
    lemma_inverse_unique(0x98, 0x2a);
    lemma_inverse_unique(0x99, 0x14);
    lemma_inverse_unique(0x9a, 0x9f);
    lemma_inverse_unique(0x9b, 0x88);
    lemma_inverse_unique(0x9c, 0xf9);
    lemma_inverse_unique(0x9d, 0xdc);
    lemma_inverse_unique(0x9e, 0x89);
    lemma_inverse_unique(0x9f, 0x9a);
}

/// The lines {a0} to {bf} of the table: each byte with its inverse, and
/// the affine map of that inverse.
proof fn lemma_sbox_table_5(a: u8)
    requires
        0xa0 <= a <= 0xbf,
    ensures
        sbox(a) == sbox_table(a),
{
    assert(gf_mul(0xa0, 0xfb) == 1
            && affine(0xfb) == 0xe0
            && gf_mul(0xa1, 0x7c) == 1
            && affine(0x7c) == 0x32
            && gf_mul(0xa2, 0x2e) == 1
            && affine(0x2e) == 0x3a
            && gf_mul(0xa3, 0xc3) == 1
            && affine(0xc3) == 0x0a
            && gf_mul(0xa4, 0x8f) == 1
            && affine(0x8f) == 0x49
            && gf_mul(0xa5, 0xb8) == 1
            && affine(0xb8) == 0x06
            && gf_mul(0xa6, 0x65) == 1
            && affine(0x65) == 0x24
            && gf_mul(0xa7, 0x48) == 1
            && affine(0x48) == 0x5c
            && gf_mul(0xa8, 0x26) == 1
            && affine(0x26) == 0xc2
            && gf_mul(0xa9, 0xc8) == 1
            && affine(0xc8) == 0xd3
            && gf_mul(0xaa, 0x12) == 1
            && affine(0x12) == 0xac
            && gf_mul(0xab, 0x4a) == 1
            && affine(0x4a) == 0x62
            && gf_mul(0xac, 0xce) == 1
            && affine(0xce) == 0x91
            && gf_mul(0xad, 0xe7) == 1
            && affine(0xe7) == 0x95
            && gf_mul(0xae, 0xd2) == 1
            && affine(0xd2) == 0xe4
            && gf_mul(0xaf, 0x62) == 1
            && affine(0x62) == 0x79
            && gf_mul(0xb0, 0x0c) == 1
            && affine(0x0c) == 0xe7
            && gf_mul(0xb1, 0xe0) == 1
            && affine(0xe0) == 0xc8
            && gf_mul(0xb2, 0x1f) == 1
            && affine(0x1f) == 0x37
            && gf_mul(0xb3, 0xef) == 1
            && affine(0xef) == 0x6d
            && gf_mul(0xb4, 0x11) == 1
            && affine(0x11) == 0x8d
            && gf_mul(0xb5, 0x75) == 1
            && affine(0x75) == 0xd5
            && gf_mul(0xb6, 0x78) == 1
            && affine(0x78) == 0x4e
            && gf_mul(0xb7, 0x71) == 1
            && affine(0x71) == 0xa9
            && gf_mul(0xb8, 0xa5) == 1
            && affine(0xa5) == 0x6c
            && gf_mul(0xb9, 0x8e) == 1
            && affine(0x8e) == 0x56
            && gf_mul(0xba, 0x76) == 1
            && affine(0x76) == 0xf4
            && gf_mul(0xbb, 0x3d) == 1
            && affine(0x3d) == 0xea
            && gf_mul(0xbc, 0xbd) == 1
            && affine(0xbd) == 0x65
            && gf_mul(0xbd, 0xbc) == 1
            && affine(0xbc) == 0x7a
            && gf_mul(0xbe, 0x86) == 1
            && affine(0x86) == 0xae
            && gf_mul(0xbf, 0x57) == 1
            && affine(0x57) == 0x08) by (bit_vector);
    lemma_inverse_unique(0xa0, 0xfb);
    lemma_inverse_unique(0xa1, 0x7c);
    lemma_inverse_unique(0xa2, 0x2e);
    lemma_inverse_unique(0xa3, 0xc3);
    lemma_inverse_unique(0xa4, 0x8f);
    lemma_inverse_unique(0xa5, 0xb8);
    lemma_inverse_unique(0xa6, 0x65);
    lemma_inverse_unique(0xa7, 0x48);
    lemma_inverse_unique(0xa8, 0x26);
    lemma_inverse_unique(0xa9, 0xc8);
    lemma_inverse_unique(0xaa, 0x12);
    lemma_inverse_unique(0xab, 0x4a);
    lemma_inverse_unique(0xac, 0xce);
    lemma_inverse_unique(0xad, 0xe7);
    lemma_inverse_unique(0xae, 0xd2);
    lemma_inverse_unique(0xaf, 0x62);
    lemma_inverse_unique(0xb0, 0x0c);
    lemma_inverse_unique(0xb1, 0xe0);
    lemma_inverse_unique(0xb2, 0x1f);
    lemma_inverse_unique(0xb3, 0xef);
    lemma_inverse_unique(0xb4, 0x11);
    lemma_inverse_unique(0xb5, 0x75);
    lemma_inverse_unique(0xb6, 0x78);
    lemma_inverse_unique(0xb7, 0x71);
    lemma_inverse_unique(0xb8, 0xa5);
    lemma_inverse_unique(0xb9, 0x8e);
    lemma_inverse_unique(0xba, 0x76);
    lemma_inverse_unique(0xbb, 0x3d);
    lemma_inverse_unique(0xbc, 0xbd);
    lemma_inverse_unique(0xbd, 0xbc);
    lemma_inverse_unique(0xbe, 0x86);
    lemma_inverse_unique(0xbf, 0x57);
}

/// The lines {c0} to {df} of the table: each byte with its inverse, and
/// the affine map of that inverse.
proof fn lemma_sbox_table_6(a: u8)
    requires
        0xc0 <= a <= 0xdf,
    ensures
        sbox(a) == sbox_table(a),
{
    assert(gf_mul(0xc0, 0x0b) == 1
            && affine(0x0b) == 0xba
            && gf_mul(0xc1, 0x28) == 1
            && affine(0x28) == 0x78
            && gf_mul(0xc2, 0x2f) == 1
            && affine(0x2f) == 0x25
            && gf_mul(0xc3, 0xa3) == 1
            && affine(0xa3) == 0x2e
            && gf_mul(0xc4, 0xda) == 1
            && affine(0xda) == 0x1c
            && gf_mul(0xc5, 0xd4) == 1
            && affine(0xd4) == 0xa6
            && gf_mul(0xc6, 0xe4) == 1
            && affine(0xe4) == 0xb4
            && gf_mul(0xc7, 0x0f) == 1
            && affine(0x0f) == 0xc6
            && gf_mul(0xc8, 0xa9) == 1
            && affine(0xa9) == 0xe8
            && gf_mul(0xc9, 0x27) == 1
            && affine(0x27) == 0xdd
            && gf_mul(0xca, 0x53) == 1
            && affine(0x53) == 0x74
            && gf_mul(0xcb, 0x04) == 1
            && affine(0x04) == 0x1f
            && gf_mul(0xcc, 0x1b) == 1
            && affine(0x1b) == 0x4b
            && gf_mul(0xcd, 0xfc) == 1
            && affine(0xfc) == 0xbd
            && gf_mul(0xce, 0xac) == 1
            && affine(0xac) == 0x8b
            && gf_mul(0xcf, 0xe6) == 1
            && affine(0xe6) == 0x8a
            && gf_mul(0xd0, 0x7a) == 1
            && affine(0x7a) == 0x70
            && gf_mul(0xd1, 0x07) == 1
            && affine(0x07) == 0x3e
            && gf_mul(0xd2, 0xae) == 1
            && affine(0xae) == 0xb5
            && gf_mul(0xd3, 0x63) == 1
            && affine(0x63) == 0x66
            && gf_mul(0xd4, 0xc5) == 1
            && affine(0xc5) == 0x48
            && gf_mul(0xd5, 0xdb) == 1
            && affine(0xdb) == 0x03
            && gf_mul(0xd6, 0xe2) == 1
            && affine(0xe2) == 0xf6
            && gf_mul(0xd7, 0xea) == 1
            && affine(0xea) == 0x0e
            && gf_mul(0xd8, 0x94) == 1
            && affine(0x94) == 0x61
            && gf_mul(0xd9, 0x8b) == 1
            && affine(0x8b) == 0x35
            && gf_mul(0xda, 0xc4) == 1
            && affine(0xc4) == 0x57
            && gf_mul(0xdb, 0xd5) == 1
            && affine(0xd5) == 0xb9
            && gf_mul(0xdc, 0x9d) == 1
            && affine(0x9d) == 0x86
            && gf_mul(0xdd, 0xf8) == 1
            && affine(0xf8) == 0xc1
            && gf_mul(0xde, 0x90) == 1
            && affine(0x90) == 0x1d
            && gf_mul(0xdf, 0x6b) == 1
            && affine(0x6b) == 0x9e) by (bit_vector);
    lemma_inverse_unique(0xc0, 0x0b);
    lemma_inverse_unique(0xc1, 0x28);
    lemma_inverse_unique(0xc2, 0x2f);
    lemma_inverse_unique(0xc3, 0xa3);
    lemma_inverse_unique(0xc4, 0xda);
    lemma_inverse_unique(0xc5, 0xd4);
    lemma_inverse_unique(0xc6, 0xe4);
    lemma_inverse_unique(0xc7, 0x0f);
    lemma_inverse_unique(0xc8, 0xa9);
    lemma_inverse_unique(0xc9, 0x27);
    lemma_inverse_unique(0xca, 0x53);
    lemma_inverse_unique(0xcb, 0x04);
    lemma_inverse_unique(0xcc, 0x1b);
    lemma_inverse_unique(0xcd, 0xfc);
    lemma_inverse_unique(0xce, 0xac);
    lemma_inverse_unique(0xcf, 0xe6);
    lemma_inverse_unique(0xd0, 0x7a);
    lemma_inverse_unique(0xd1, 0x07);
    lemma_inverse_unique(0xd2, 0xae);
    lemma_inverse_unique(0xd3, 0x63);
    lemma_inverse_unique(0xd4, 0xc5);
    lemma_inverse_unique(0xd5, 0xdb);
    lemma_inverse_unique(0xd6, 0xe2);
    lemma_inverse_unique(0xd7, 0xea);
    lemma_inverse_unique(0xd8, 0x94);
    lemma_inverse_unique(0xd9, 0x8b);
    lemma_inverse_unique(0xda, 0xc4);
    lemma_inverse_unique(0xdb, 0xd5);
    lemma_inverse_unique(0xdc, 0x9d);
    lemma_inverse_unique(0xdd, 0xf8);
    lemma_inverse_unique(0xde, 0x90);
    lemma_inverse_unique(0xdf, 0x6b);
}

/// The lines {e0} to {ff} of the table: each byte with its inverse, and
/// the affine map of that inverse.
proof fn lemma_sbox_table_7(a: u8)
    requires
        0xe0 <= a <= 0xff,
    ensures
        sbox(a) == sbox_table(a),
{
    assert(gf_mul(0xe0, 0xb1) == 1
            && affine(0xb1) == 0xe1
            && gf_mul(0xe1, 0x0d) == 1
            && affine(0x0d) == 0xf8
            && gf_mul(0xe2, 0xd6) == 1
            && affine(0xd6) == 0x98
            && gf_mul(0xe3, 0xeb) == 1
            && affine(0xeb) == 0x11
            && gf_mul(0xe4, 0xc6) == 1
            && affine(0xc6) == 0x69
            && gf_mul(0xe5, 0x0e) == 1
            && affine(0x0e) == 0xd9
            && gf_mul(0xe6, 0xcf) == 1
            && affine(0xcf) == 0x8e
            && gf_mul(0xe7, 0xad) == 1
            && affine(0xad) == 0x94
            && gf_mul(0xe8, 0x08) == 1
            && affine(0x08) == 0x9b
            && gf_mul(0xe9, 0x4e) == 1
            && affine(0x4e) == 0x1e
            && gf_mul(0xea, 0xd7) == 1
            && affine(0xd7) == 0x87
            && gf_mul(0xeb, 0xe3) == 1
            && affine(0xe3) == 0xe9
            && gf_mul(0xec, 0x5d) == 1
            && affine(0x5d) == 0xce
            && gf_mul(0xed, 0x50) == 1
            && affine(0x50) == 0x55
            && gf_mul(0xee, 0x1e) == 1
            && affine(0x1e) == 0x28
            && gf_mul(0xef, 0xb3) == 1
            && affine(0xb3) == 0xdf
            && gf_mul(0xf0, 0x5b) == 1
            && affine(0x5b) == 0x8c
            && gf_mul(0xf1, 0x23) == 1
            && affine(0x23) == 0xa1
            && gf_mul(0xf2, 0x38) == 1
            && affine(0x38) == 0x89
            && gf_mul(0xf3, 0x34) == 1
            && affine(0x34) == 0x0d
            && gf_mul(0xf4, 0x68) == 1
            && affine(0x68) == 0xbf
            && gf_mul(0xf5, 0x46) == 1
            && affine(0x46) == 0xe6
            && gf_mul(0xf6, 0x03) == 1
            && affine(0x03) == 0x42
            && gf_mul(0xf7, 0x8c) == 1
            && affine(0x8c) == 0x68
            && gf_mul(0xf8, 0xdd) == 1
            && affine(0xdd) == 0x41
            && gf_mul(0xf9, 0x9c) == 1
            && affine(0x9c) == 0x99
            && gf_mul(0xfa, 0x7d) == 1
            && affine(0x7d) == 0x2d
            && gf_mul(0xfb, 0xa0) == 1
            && affine(0xa0) == 0x0f
            && gf_mul(0xfc, 0xcd) == 1
            && affine(0xcd) == 0xb0
            && gf_mul(0xfd, 0x1a) == 1
            && affine(0x1a) == 0x54
            && gf_mul(0xfe, 0x41) == 1
            && affine(0x41) == 0xbb
            && gf_mul(0xff, 0x1c) == 1
            && affine(0x1c) == 0x16) by (bit_vector);
    lemma_inverse_unique(0xe0, 0xb1);
    lemma_inverse_unique(0xe1, 0x0d);
    lemma_inverse_unique(0xe2, 0xd6);
    lemma_inverse_unique(0xe3, 0xeb);
    lemma_inverse_unique(0xe4, 0xc6);
    lemma_inverse_unique(0xe5, 0x0e);
    lemma_inverse_unique(0xe6, 0xcf);
    lemma_inverse_unique(0xe7, 0xad);
    lemma_inverse_unique(0xe8, 0x08);
    lemma_inverse_unique(0xe9, 0x4e);
    lemma_inverse_unique(0xea, 0xd7);
    lemma_inverse_unique(0xeb, 0xe3);
    lemma_inverse_unique(0xec, 0x5d);
    lemma_inverse_unique(0xed, 0x50);
    lemma_inverse_unique(0xee, 0x1e);
    lemma_inverse_unique(0xef, 0xb3);
    lemma_inverse_unique(0xf0, 0x5b);
    lemma_inverse_unique(0xf1, 0x23);
    lemma_inverse_unique(0xf2, 0x38);
    lemma_inverse_unique(0xf3, 0x34);
    lemma_inverse_unique(0xf4, 0x68);
    lemma_inverse_unique(0xf5, 0x46);
    lemma_inverse_unique(0xf6, 0x03);
    lemma_inverse_unique(0xf7, 0x8c);
    lemma_inverse_unique(0xf8, 0xdd);
    lemma_inverse_unique(0xf9, 0x9c);
    lemma_inverse_unique(0xfa, 0x7d);
    lemma_inverse_unique(0xfb, 0xa0);
    lemma_inverse_unique(0xfc, 0xcd);
    lemma_inverse_unique(0xfd, 0x1a);
    lemma_inverse_unique(0xfe, 0x41);
    lemma_inverse_unique(0xff, 0x1c);
}

/// The S-box is the table of the standard.
pub proof fn lemma_sbox_table(a: u8)
    ensures
        sbox(a) == sbox_table(a),
{
    if a < 0x20 {
        lemma_sbox_table_0(a);
    } else if a < 0x40 {
        lemma_sbox_table_1(a);
    } else if a < 0x60 {
        lemma_sbox_table_2(a);
    } else if a < 0x80 {
        lemma_sbox_table_3(a);
    } else if a < 0xa0 {
        lemma_sbox_table_4(a);
    } else if a < 0xc0 {
        lemma_sbox_table_5(a);
    } else if a < 0xe0 {
        lemma_sbox_table_6(a);
    } else {
        lemma_sbox_table_7(a);
    }
}

} // verus!
