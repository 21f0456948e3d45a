//! The CRC-32C preset: the checksum engine driven by the table of the
//! Castagnoli generator polynomial.

use vstd::prelude::*;

use crate::algorithm;
use crate::model::crc_of;

pub mod hasher;

verus! {

/// The CRC-32C (Castagnoli) generator polynomial, in normal bit order.
pub const POLYNOMIAL: u32 = 0x1EDC6F41;

/// The CRC-32C checksum of `s` chained from `seed`, as a function of the
/// polynomial alone.
pub open spec fn checksum_spec(seed: u32, s: Seq<u8>) -> u32 {
    crc_of(POLYNOMIAL, seed, s)
}

/// Computes the CRC-32C checksum of `buf` chained from `seed`.  The empty
/// buffer returns the seed unchanged.
pub fn slice_by_8_with_seed(buf: &[u8], seed: u32) -> (r: u32)
    ensures
        r == checksum_spec(seed, buf@),
        buf@.len() == 0 ==> r == seed,
{
    let t = algorithm::generate_table(POLYNOMIAL);
    let r = algorithm::slice_by_8_with_seed(buf, seed, &t);
    proof {
        crate::lemmas::lemma_fold_bytes_math(t, POLYNOMIAL, !seed, buf@);
    }
    r
}

/// Computes the CRC-32C checksum of `buf` with seed 0.
pub fn slice_by_8(buf: &[u8]) -> (r: u32)
    ensures
        r == checksum_spec(0, buf@),
{
    slice_by_8_with_seed(buf, 0)
}

} // verus!
