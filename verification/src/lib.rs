//! CRC-32 and CRC-32C checksums computed with the table-driven
//! slice-by-8 algorithm.
//!
//! The lookup tables are derived from a generator polynomial by
//! [`generate_table`]; [`slice_by_8`] and [`slice_by_8_with_seed`] fold a
//! byte buffer through such a table.  The modules [`crc32`] and [`crc32c`]
//! pair the engine with the standard and the Castagnoli polynomial, and
//! each offers a streaming hasher built on seed chaining.

pub mod model;

mod lemmas;

pub mod algorithm;

pub mod crc32;

pub mod crc32c;

pub mod hasher;

pub use algorithm::generate_table;
pub use algorithm::slice_by_8;
pub use algorithm::slice_by_8_with_seed;
pub use algorithm::slice_by_8_with_seed_swapped;
pub use hasher::SliceBy8BuildHasher;
pub use hasher::SliceBy8Hasher;
