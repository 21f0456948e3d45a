//! Tests of the streaming CRC-32C hasher.

use std::collections::HashMap;
use std::hash::BuildHasher;

use slice_by_8::crc32c;
use slice_by_8::crc32c::hasher::{CRC32CBuildHasher, CRC32CHasher};

#[test]
fn hasher_hasher_default() {
    let hasher = CRC32CHasher::default();
    assert_eq!(hasher.finish(), 0);
}

#[test]
fn hasher_hasher_with_seed() {
    let hasher = CRC32CHasher::with_seed(0x9B9BEFFB);
    assert_eq!(hasher.finish(), 0x9B9BEFFB);
}

#[test]
fn hasher_build_hasher() {
    let build_hasher = CRC32CHasher::default();
    let mut hasher = build_hasher.build_hasher();
    hasher.write(b"abcdefghijklmnopqrstuvwxyz");
    assert_eq!(hasher.finish(), 0x9EE6EF25);
}

#[test]
fn hasher_build_hasher_results_are_coherent_with_free_function() {
    let build_hasher = CRC32CHasher::default();
    let mut hasher = build_hasher.build_hasher();

    const HASH_ME: &[u8] = b"abcdefghijklmnopqrstuvwxyz";

    let hash_free_function = crc32c::slice_by_8(HASH_ME);
    hasher.write(HASH_ME);
    assert_eq!(hasher.finish(), hash_free_function as u64);

    let hash_free_function = crc32c::slice_by_8_with_seed(HASH_ME, hash_free_function);
    hasher.write(HASH_ME);
    assert_eq!(hasher.finish(), hash_free_function as u64);
}

#[test]
fn hasher_hasher_is_usable_in_std_collections() {
    const HASH_ME: &str = "hash me!";
    const VALUE: &str = "Hi";

    let mut map = HashMap::with_hasher(CRC32CBuildHasher::default());
    map.insert(HASH_ME, VALUE);
    assert_eq!(map.get(&HASH_ME), Some(&VALUE));
}
