//! AES-256 in counter mode, computed on bit planes: four blocks at a time,
//! with the S-box as a Boolean circuit and no table lookup that depends on
//! secret data.  Every function is proved against the cipher as the AES
//! standard (FIPS 197) defines it.
//!
//! - `gf256` and `aes` say what the cipher is: the field, the S-box, the
//!   round steps, the key expansion and the keystream of counter mode.
//! - `endian` and `bitslice` hold the bytes of words and the layout of four
//!   blocks in eight planes, with the transposes between the two.
//! - `sbox`, `round` and `keyschedule` are the parts of the cipher on planes.
//! - `ctr` is the keystream: `aes256ctr_init` and
//!   `aes256ctr_squeeze_blocks` on an `Aes256ctrCtx`.
//! - `sbox_table` shows that the S-box is the table that the standard prints.

pub mod aes;
pub mod bitslice;
pub mod ctr;
pub mod endian;
pub mod gf256;
pub mod keyschedule;
pub mod round;
pub mod sbox;
pub mod sbox_table;

pub use ctr::{aes256ctr_init, aes256ctr_squeeze_blocks, Aes256ctrCtx, AES256CTR_BLOCKBYTES};
