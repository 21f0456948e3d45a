//! Tests of the streaming CRC-32 hasher.

use std::collections::HashMap;
use std::hash::{BuildHasher, Hasher};

use slice_by_8::crc32;
use slice_by_8::crc32::hasher::{CRC32BuildHasher, CRC32Hasher};

#[test]
fn hasher_default() {
    let hasher = CRC32Hasher::default();
    assert_eq!(hasher.finish(), 0);
}

#[test]
fn hasher_with_seed() {
    let hasher = CRC32Hasher::with_seed(0x9B9BEFFB);
    assert_eq!(hasher.finish(), 0x9B9BEFFB);
}

#[test]
fn build_hasher() {
    let build_hasher = CRC32Hasher::default();
    let mut hasher = build_hasher.build_hasher();
    hasher.write(b"abcdefghijklmnopqrstuvwxyz");
    assert_eq!(hasher.finish(), 0x4C2750BD);
}

#[test]
fn build_hasher_results_are_coherent_with_free_function() {
    let build_hasher = CRC32Hasher::default();
    let mut hasher = build_hasher.build_hasher();

    const HASH_ME: &[u8] = b"abcdefghijklmnopqrstuvwxyz";

    let hash_free_function = crc32::slice_by_8(HASH_ME);
    hasher.write(HASH_ME);
    assert_eq!(hasher.finish(), hash_free_function as u64);

    let hash_free_function = crc32::slice_by_8_with_seed(&HASH_ME, hash_free_function);
    hasher.write(&HASH_ME);
    assert_eq!(hasher.finish(), hash_free_function as u64);
}

#[test]
fn hasher_is_usable_in_std_collections() {
    const HASH_ME: &str = "hash me!";
    const VALUE: &str = "Hi";

    let mut map = HashMap::with_hasher(CRC32BuildHasher::default());
    map.insert(HASH_ME, VALUE);
    assert_eq!(map.get(&HASH_ME), Some(&VALUE));
}

/// The trait-level hasher methods agree with the contract-bearing
/// inherent ones.
#[test]
fn trait_methods_match_inherent_methods() {
    let mut via_trait = CRC32Hasher::default();
    Hasher::write(&mut via_trait, b"abcdefghijklmnopqrstuvwxyz");
    assert_eq!(Hasher::finish(&via_trait), 0x4C2750BD);
    let fresh = BuildHasher::build_hasher(&CRC32Hasher::with_seed(77));
    assert_eq!(fresh.finish(), 0);
}
