//! Tests of the default slice-by-8 hasher.

use std::collections::HashMap;
use std::hash::{BuildHasher, Hasher};

use slice_by_8::crc32;
use slice_by_8::{SliceBy8BuildHasher, SliceBy8Hasher};

#[test]
fn slice_hasher_default() {
    let hasher = SliceBy8Hasher::default();
    assert_eq!(hasher.finish(), 0);
}

#[test]
fn slice_hasher_with_seed() {
    let hasher = SliceBy8Hasher::with_seed(0x9B9BEFFB);
    assert_eq!(hasher.finish(), 0x9B9BEFFB);
}

#[test]
fn slice_build_hasher() {
    let build_hasher = SliceBy8BuildHasher::default();
    let mut hasher = build_hasher.build_hasher();
    hasher.write(b"abcdefghijklmnopqrstuvwxyz");
    assert_eq!(Hasher::finish(&hasher), 0x4C2750BD);
}

#[test]
fn slice_build_hasher_results_are_coherent_with_free_function() {
    let build_hasher = SliceBy8BuildHasher::default();
    let mut hasher = build_hasher.build_hasher();

    const HASH_ME: &[u8] = b"abcdefghijklmnopqrstuvwxyz";

    let hash_free_function = crc32::slice_by_8(HASH_ME);
    hasher.write(HASH_ME);
    assert_eq!(Hasher::finish(&hasher), hash_free_function as u64);

    let hash_free_function = crc32::slice_by_8_with_seed(&HASH_ME, hash_free_function);
    hasher.write(&HASH_ME);
    assert_eq!(Hasher::finish(&hasher), hash_free_function as u64);
}

#[test]
fn slice_hasher_is_usable_in_std_collections() {
    const HASH_ME: &str = "hash me!";
    const VALUE: &str = "Hi";

    let mut map = HashMap::with_hasher(SliceBy8BuildHasher::default());
    map.insert(HASH_ME, VALUE);
    assert_eq!(map.get(&HASH_ME), Some(&VALUE));
}
