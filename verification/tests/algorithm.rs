//! Tests of the table generator and the table-driven checksum engine.

use slice_by_8::crc32;
use slice_by_8::generate_table;
use slice_by_8::slice_by_8;
use slice_by_8::slice_by_8_with_seed;
use slice_by_8::slice_by_8_with_seed_swapped;

const HASH_ME: &[u8] = b"abcdefghijklmnopqrstuvwxyz";

#[test]
fn algorithm_slice_by_8_no_seed() {
    let lookup_table = generate_table(crc32::POLYNOMIAL);
    assert_eq!(slice_by_8(HASH_ME, &lookup_table), 0x4C2750BD);
}

#[test]
fn algorithm_slice_by_8_with_seed() {
    let lookup_table = generate_table(crc32::POLYNOMIAL);
    assert_eq!(
        slice_by_8_with_seed(HASH_ME, 123456789, &lookup_table),
        0xEADB5034
    );
}

/// Rows 1..=7 of a generated table satisfy the row recurrence
/// `t[k][b] == (t[k-1][b] >> 8) ^ t[0][t[k-1][b] & 0xFF]`, whatever the
/// polynomial.
#[test]
fn generated_rows_satisfy_recurrence() {
    for poly in [0x04C11DB7u32, 0x1EDC6F41, 0, 1, 0xDEADBEEF, 0xFFFFFFFF] {
        let t = generate_table(poly);
        for k in 1..8 {
            for b in 0..256 {
                let prev = t[k - 1][b];
                assert_eq!(t[k][b], (prev >> 8) ^ t[0][(prev & 0xFF) as usize]);
            }
        }
    }
}

/// The degenerate polynomial 0 produces the all-zero table, not an error.
#[test]
fn zero_polynomial_gives_zero_table() {
    let t = generate_table(0);
    for k in 0..8 {
        for b in 0..256 {
            assert_eq!(t[k][b], 0);
        }
    }
}

/// Both fold orders of the bulk phase give the same checksum on every
/// input, exercised here on buffers of every length from empty through
/// several whole blocks.
#[test]
fn fold_orders_agree() {
    let lookup_table = generate_table(crc32::POLYNOMIAL);
    let data: Vec<u8> = (0u32..64).map(|i| (i * 37 + 11) as u8).collect();
    for len in 0..=data.len() {
        let buf = &data[..len];
        assert_eq!(
            slice_by_8_with_seed(buf, 0x12345678, &lookup_table),
            slice_by_8_with_seed_swapped(buf, 0x12345678, &lookup_table)
        );
    }
    assert_eq!(
        slice_by_8_with_seed_swapped(HASH_ME, 0, &lookup_table),
        0x4C2750BD
    );
    assert_eq!(
        slice_by_8_with_seed_swapped(HASH_ME, 123456789, &lookup_table),
        0xEADB5034
    );
}

/// The checksum depends on the bytes alone, not on where in memory the
/// buffer starts: the same bytes at different offsets of a larger buffer
/// give the same checksum.
#[test]
fn offset_independence() {
    let lookup_table = generate_table(crc32::POLYNOMIAL);
    let mut arena = vec![0u8; HASH_ME.len() + 16];
    let mut results = Vec::new();
    for offset in 0..16 {
        arena[offset..offset + HASH_ME.len()].copy_from_slice(HASH_ME);
        results.push(slice_by_8(&arena[offset..offset + HASH_ME.len()], &lookup_table));
    }
    for r in results {
        assert_eq!(r, 0x4C2750BD);
    }
}
