//! The default streaming slice-by-8 hasher, built on the CRC-32 checksum:
//! the running checksum is the key, and each written buffer is chained
//! through it by seeding the checksum with the current key.

use vstd::prelude::*;

use crate::crc32::checksum_spec;
use crate::crc32::slice_by_8_with_seed;

verus! {

/// Slice-by-8 hasher over the standard CRC-32 polynomial.  Its abstract
/// value is its 32-bit key.
pub struct SliceBy8Hasher {
    key: u32,
}

impl View for SliceBy8Hasher {
    type V = u32;

    closed spec fn view(&self) -> u32 {
        self.key
    }
}

impl SliceBy8Hasher {
    /// A hasher whose key starts at `seed`.
    pub fn with_seed(seed: u32) -> (h: SliceBy8Hasher)
        ensures
            h@ == seed,
    {
        SliceBy8Hasher { key: seed }
    }

    /// The hash of everything written so far, widened to 64 bits.
    pub fn finish(&self) -> (r: u64)
        ensures
            r == self@ as u64,
    {
        self.key as u64
    }

    /// Writes `bytes` into the hasher: the new key is the checksum of
    /// `bytes` seeded with the old key.
    pub fn write(&mut self, bytes: &[u8])
        ensures
            final(self)@ == checksum_spec(old(self)@, bytes@),
    {
        self.key = slice_by_8_with_seed(bytes, self.key);
    }

    /// A fresh hasher with key 0.
    pub fn build_hasher(&self) -> (h: SliceBy8Hasher)
        ensures
            h@ == 0,
    {
        SliceBy8Hasher { key: 0 }
    }
}

impl Default for SliceBy8Hasher {
    /// A hasher whose key starts at 0.
    fn default() -> (h: SliceBy8Hasher)
        ensures
            h@ == 0,
    {
        SliceBy8Hasher { key: 0 }
    }
}

impl core::hash::Hasher for SliceBy8Hasher {
    /// The hash of everything written so far, widened to 64 bits.
    fn finish(&self) -> u64 {
        SliceBy8Hasher::finish(self)
    }

    /// Writes `bytes` into the hasher.
    fn write(&mut self, bytes: &[u8]) {
        SliceBy8Hasher::write(self, bytes);
    }
}

impl core::hash::BuildHasher for SliceBy8Hasher {
    type Hasher = SliceBy8Hasher;

    /// A fresh hasher with key 0.
    fn build_hasher(&self) -> SliceBy8Hasher {
        SliceBy8Hasher::build_hasher(self)
    }
}

/// A builder for default [`SliceBy8Hasher`]s.
pub type SliceBy8BuildHasher = core::hash::BuildHasherDefault<SliceBy8Hasher>;

} // verus!

