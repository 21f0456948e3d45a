//! A streaming hasher over the CRC-32 checksum: the running checksum is
//! the key, and each written buffer is chained through it by seeding the
//! checksum with the current key.

use vstd::prelude::*;

use crate::crc32::checksum_spec;
use crate::crc32::slice_by_8_with_seed;

verus! {

/// Slice-by-8 CRC-32 hasher.  Its abstract value is its 32-bit key.
pub struct CRC32Hasher {
    key: u32,
}

impl View for CRC32Hasher {
    type V = u32;

    closed spec fn view(&self) -> u32 {
        self.key
    }
}

impl CRC32Hasher {
    /// A hasher whose key starts at `seed`.
    pub fn with_seed(seed: u32) -> (h: CRC32Hasher)
        ensures
            h@ == seed,
    {
        CRC32Hasher { key: seed }
    }

    /// The hash of everything written so far, widened to 64 bits.
    pub fn finish(&self) -> (r: u64)
        ensures
            r == self@ as u64,
    {
        self.key as u64
    }

    /// Writes `bytes` into the hasher: the new key is the checksum of
    /// `bytes` seeded with the old key.
    pub fn write(&mut self, bytes: &[u8])
        ensures
            final(self)@ == checksum_spec(old(self)@, bytes@),
    {
        self.key = slice_by_8_with_seed(bytes, self.key);
    }

    /// A fresh hasher with key 0.
    pub fn build_hasher(&self) -> (h: CRC32Hasher)
        ensures
            h@ == 0,
    {
        CRC32Hasher { key: 0 }
    }
}

impl Default for CRC32Hasher {
    /// A hasher whose key starts at 0.
    fn default() -> (h: CRC32Hasher)
        ensures
            h@ == 0,
    {
        CRC32Hasher { key: 0 }
    }
}

impl core::hash::Hasher for CRC32Hasher {
    /// The hash of everything written so far, widened to 64 bits.
    fn finish(&self) -> u64 {
        CRC32Hasher::finish(self)
    }

    /// Writes `bytes` into the hasher.
    fn write(&mut self, bytes: &[u8]) {
        CRC32Hasher::write(self, bytes);
    }
}

impl core::hash::BuildHasher for CRC32Hasher {
    type Hasher = CRC32Hasher;

    /// A fresh hasher with key 0.
    fn build_hasher(&self) -> CRC32Hasher {
        CRC32Hasher::build_hasher(self)
    }
}

/// A builder for default [`CRC32Hasher`]s.
pub type CRC32BuildHasher = core::hash::BuildHasherDefault<CRC32Hasher>;

} // verus!

