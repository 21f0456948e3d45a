//! Tests of the CRC-32 preset.

use slice_by_8::crc32;

const HASH_ME: &[u8] = b"abcdefghijklmnopqrstuvwxyz";

#[test]
fn crc32_slice_by_8_no_seed() {
    assert_eq!(crc32::slice_by_8(HASH_ME), 0x4C2750BD);
}

#[test]
fn crc32_slice_by_8_with_seed() {
    assert_eq!(crc32::slice_by_8_with_seed(HASH_ME, 123456789), 0xEADB5034);
}

/// The checksum with no seed is the checksum with seed 0.
#[test]
fn no_seed_is_seed_zero() {
    for buf in [&b""[..], &b"a"[..], HASH_ME, &[0u8; 40][..]] {
        assert_eq!(crc32::slice_by_8(buf), crc32::slice_by_8_with_seed(buf, 0));
    }
}

/// The checksum of the empty buffer is the seed itself, for every seed.
#[test]
fn empty_buffer_returns_seed() {
    for seed in [0u32, 1, 123456789, 0xFFFFFFFF, 0x9B9BEFFB] {
        assert_eq!(crc32::slice_by_8_with_seed(b"", seed), seed);
    }
}

/// Chaining: checksumming the second half seeded with the first half's
/// checksum gives the checksum of the whole, wherever the split falls.
#[test]
fn seed_chaining_matches_concatenation() {
    let whole = crc32::slice_by_8(HASH_ME);
    for split in 0..=HASH_ME.len() {
        let (a, b) = HASH_ME.split_at(split);
        let mid = crc32::slice_by_8_with_seed(a, 0);
        assert_eq!(crc32::slice_by_8_with_seed(b, mid), whole);
    }
    let mid = crc32::slice_by_8_with_seed(b"hello ", 0xC0FFEE);
    assert_eq!(
        crc32::slice_by_8_with_seed(b"world", mid),
        crc32::slice_by_8_with_seed(b"hello world", 0xC0FFEE)
    );
}
