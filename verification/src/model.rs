//! Mathematical model of the reflected CRC computation.
//!
//! Everything here is specification-level: the single-bit step of the
//! reflected polynomial division, the single-byte table fold, the fold of a
//! whole byte sequence, and the predicates a lookup table has to satisfy.
//! The executable engine in [`crate::algorithm`] is specified against these
//! functions.

use vstd::prelude::*;

verus! {

/// One step of the reflected (least-significant-bit-first) CRC division:
/// shift right one bit and, when the bit shifted out was set, fold the
/// reflected polynomial in.
pub open spec fn crc_step(poly: u32, acc: u32) -> u32 {
    if acc & 1 == 1 {
        (acc >> 1) ^ poly
    } else {
        acc >> 1
    }
}

/// `n` successive [`crc_step`]s applied to `acc`.
pub open spec fn crc_steps(poly: u32, acc: u32, n: nat) -> u32
    decreases n,
{
    if n == 0 {
        acc
    } else {
        crc_step(poly, crc_steps(poly, acc, (n - 1) as nat))
    }
}

/// The low `n` bits of `x`, in reverse order, left-aligned at bit `n - 1`.
/// [`reversed_bits`] instantiates this at the full width.
pub open spec fn reversed_low_bits(x: u32, n: nat) -> u32
    decreases n,
{
    if n == 0 {
        0u32
    } else {
        (reversed_low_bits(x, (n - 1) as nat) << 1) | ((x >> ((n - 1) as u32)) & 1)
    }
}

/// `x` with its 32 bits in reverse order.
pub open spec fn reversed_bits(x: u32) -> u32 {
    reversed_low_bits(x, 32)
}

/// The single-byte step entry the table generator stores in row 0: eight
/// [`crc_step`]s of the reflected polynomial applied to the byte value `b`.
pub open spec fn row0_entry(poly: u32, b: int) -> u32 {
    crc_steps(reversed_bits(poly), b as u32, 8)
}

/// Row 0 of `t` is the single-byte step function of the polynomial `poly`.
pub open spec fn table_row0_for(t: [[u32; 256]; 8], poly: u32) -> bool {
    forall|b: int| 0 <= b < 256 ==> #[trigger] t[0][b] == row0_entry(poly, b)
}

/// Rows 1 to 7 of `t` are each derived from the previous row and row 0:
/// `t[k][b] == (t[k-1][b] >> 8) ^ t[0][t[k-1][b] & 0xFF]`.
pub open spec fn table_rows_derived(t: [[u32; 256]; 8]) -> bool {
    forall|k: int, b: int|
        1 <= k < 8 && 0 <= b < 256 ==> #[trigger] t[k][b] == (t[k - 1][b] >> 8) ^ t[0][(t[k - 1][b]
            & 0xFF) as int]
}

/// A table the checksum engine may be driven by: rows 1 to 7 follow from
/// row 0, and row 0 is the single-byte step function of some polynomial.
pub open spec fn table_well_formed(t: [[u32; 256]; 8]) -> bool {
    table_rows_derived(t) && (exists|poly: u32| table_row0_for(t, poly))
}

/// One byte folded into the accumulator through row 0 of the table.
pub open spec fn fold_byte(t: [[u32; 256]; 8], acc: u32, b: u8) -> u32 {
    t[0][((acc ^ b as u32) & 0xFF) as int] ^ (acc >> 8)
}

/// A whole byte sequence folded into the accumulator, front to back.
pub open spec fn fold_bytes(t: [[u32; 256]; 8], acc: u32, s: Seq<u8>) -> u32
    decreases s.len(),
{
    if s.len() == 0 {
        acc
    } else {
        fold_bytes(t, fold_byte(t, acc, s[0]), s.skip(1))
    }
}

/// The checksum of `s` under table `t`, chained from `seed`: complement the
/// seed, fold every byte, complement the result.
pub open spec fn checksum_with_seed_spec(t: [[u32; 256]; 8], seed: u32, s: Seq<u8>) -> u32 {
    !fold_bytes(t, !seed, s)
}

/// One byte absorbed by the reflected CRC division itself, with no table:
/// xor the byte into the low accumulator byte and run eight bit steps.
pub open spec fn byte_step(polyr: u32, acc: u32, b: u8) -> u32 {
    crc_steps(polyr, acc ^ b as u32, 8)
}

/// A whole byte sequence absorbed by [`byte_step`], front to back.
pub open spec fn byte_steps(polyr: u32, acc: u32, s: Seq<u8>) -> u32
    decreases s.len(),
{
    if s.len() == 0 {
        acc
    } else {
        byte_steps(polyr, byte_step(polyr, acc, s[0]), s.skip(1))
    }
}

/// The checksum of `s` for the generator polynomial `poly` (in normal bit
/// order), chained from `seed`.  This is the table-free statement of what
/// the engine computes when it is driven by a table generated for `poly`.
pub open spec fn crc_of(poly: u32, seed: u32, s: Seq<u8>) -> u32 {
    !byte_steps(reversed_bits(poly), !seed, s)
}

/// Folding a concatenation is folding the two parts in turn.
pub proof fn lemma_fold_bytes_concat(t: [[u32; 256]; 8], acc: u32, a: Seq<u8>, b: Seq<u8>)
    ensures
        fold_bytes(t, acc, a + b) == fold_bytes(t, fold_bytes(t, acc, a), b),
    decreases a.len(),
{
    if a.len() == 0 {
        assert(a + b =~= b);
    } else {
        assert((a + b).skip(1) =~= a.skip(1) + b);
        lemma_fold_bytes_concat(t, fold_byte(t, acc, a[0]), a.skip(1), b);
    }
}

/// Absorbing a concatenation is absorbing the two parts in turn.
pub proof fn lemma_byte_steps_concat(polyr: u32, acc: u32, a: Seq<u8>, b: Seq<u8>)
    ensures
        byte_steps(polyr, acc, a + b) == byte_steps(polyr, byte_steps(polyr, acc, a), b),
    decreases a.len(),
{
    if a.len() == 0 {
        assert(a + b =~= b);
    } else {
        assert((a + b).skip(1) =~= a.skip(1) + b);
        lemma_byte_steps_concat(polyr, byte_step(polyr, acc, a[0]), a.skip(1), b);
    }
}

/// Seed chaining: checksumming `b` with the checksum of `a` as its seed
/// gives the checksum of `a` followed by `b`.  This is what makes the
/// checksum usable as an incremental hash.
pub proof fn lemma_seed_chaining(t: [[u32; 256]; 8], seed: u32, a: Seq<u8>, b: Seq<u8>)
    ensures
        checksum_with_seed_spec(t, checksum_with_seed_spec(t, seed, a), b)
            == checksum_with_seed_spec(t, seed, a + b),
{
    let mid = fold_bytes(t, !seed, a);
    assert(!(!mid) == mid) by (bit_vector);
    lemma_fold_bytes_concat(t, !seed, a, b);
}

/// Seed chaining, stated of the table-free model: for every polynomial,
/// every seed and every pair of buffers, checksumming the second buffer
/// seeded with the first buffer's checksum gives the checksum of the
/// concatenation.
pub proof fn lemma_crc_of_seed_chaining(poly: u32, seed: u32, a: Seq<u8>, b: Seq<u8>)
    ensures
        crc_of(poly, crc_of(poly, seed, a), b) == crc_of(poly, seed, a + b),
{
    let polyr = reversed_bits(poly);
    let mid = byte_steps(polyr, !seed, a);
    assert(!(!mid) == mid) by (bit_vector);
    lemma_byte_steps_concat(polyr, !seed, a, b);
}

/// The checksum of the empty buffer is the seed itself, whatever the table:
/// the two complements cancel.
pub proof fn lemma_empty_checksum(t: [[u32; 256]; 8], seed: u32)
    ensures
        checksum_with_seed_spec(t, seed, Seq::<u8>::empty()) == seed,
{
    assert(!(!seed) == seed) by (bit_vector);
}

} // verus!
