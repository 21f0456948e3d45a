//! A streaming hasher over the CRC-32C checksum: the running checksum is
//! the key, and each written buffer is chained through it by seeding the
//! checksum with the current key.

use vstd::prelude::*;

use crate::crc32c::checksum_spec;
use crate::crc32c::slice_by_8_with_seed;

verus! {

/// Slice-by-8 CRC-32C hasher.  Its abstract value is its 32-bit key.
pub struct CRC32CHasher {
    key: u32,
}

impl View for CRC32CHasher {
    type V = u32;

    closed spec fn view(&self) -> u32 {
        self.key
    }
}

impl CRC32CHasher {
    /// A hasher whose key starts at `seed`.
    pub fn with_seed(seed: u32) -> (h: CRC32CHasher)
        ensures
            h@ == seed,
    {
        CRC32CHasher { key: seed }
    }

    /// The hash of everything written so far, widened to 64 bits.
    pub fn finish(&self) -> (r: u64)
        ensures
            r == self@ as u64,
    {
        self.key as u64
    }

    /// Writes `bytes` into the hasher: the new key is the checksum of
    /// `bytes` seeded with the old key.
    pub fn write(&mut self, bytes: &[u8])
        ensures
            final(self)@ == checksum_spec(old(self)@, bytes@),
    {
        self.key = slice_by_8_with_seed(bytes, self.key);
    }

    /// A fresh hasher with key 0.
    pub fn build_hasher(&self) -> (h: CRC32CHasher)
        ensures
            h@ == 0,
    {
        CRC32CHasher { key: 0 }
    }
}

impl Default for CRC32CHasher {
    /// A hasher whose key starts at 0.
    fn default() -> (h: CRC32CHasher)
        ensures
            h@ == 0,
    {
        CRC32CHasher { key: 0 }
    }
}

impl core::hash::Hasher for CRC32CHasher {
    /// The hash of everything written so far, widened to 64 bits.
    fn finish(&self) -> u64 {
        CRC32CHasher::finish(self)
    }

    /// Writes `bytes` into the hasher.
    fn write(&mut self, bytes: &[u8]) {
        CRC32CHasher::write(self, bytes);
    }
}

impl core::hash::BuildHasher for CRC32CHasher {
    type Hasher = CRC32CHasher;

    /// A fresh hasher with key 0.
    fn build_hasher(&self) -> CRC32CHasher {
        CRC32CHasher::build_hasher(self)
    }
}

/// A builder for default [`CRC32CHasher`]s.
pub type CRC32CBuildHasher = core::hash::BuildHasherDefault<CRC32CHasher>;

} // verus!

