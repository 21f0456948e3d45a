//! The table generator and the slice-by-8 checksum engine, parameterized by
//! a lookup table.

use vstd::prelude::*;

use crate::model::{
    crc_steps, reversed_low_bits, reversed_bits, row0_entry, table_row0_for, table_rows_derived,
    table_well_formed, fold_bytes, checksum_with_seed_spec, lemma_fold_bytes_concat,
    lemma_empty_checksum,
};
use crate::lemmas::{
    row0_linear, lemma_row0_linear_of, lemma_fold_block, lemma_fold_bytes_snoc, word_of, word_be,
    byte_swapped, slice8_combine, bv_word_or, bv_swapped_one, bv_swapped_two, bv_xor8_rev,
    bv_index_bounds,
};

verus! {

/// The 32 bits of `x` in reverse order.
fn reverse_bits_of(x: u32) -> (r: u32)
    ensures
        r == reversed_bits(x),
{
    let mut r: u32 = 0;
    let mut i: u32 = 0;
    while i < 32
        invariant
            i <= 32,
            r == reversed_low_bits(x, i as nat),
        decreases 32 - i,
    {
        r = (r << 1) | ((x >> i) & 1);
        i = i + 1;
    }
    r
}

/// Generate the 8x256 lookup table for `polynomial` (given in normal bit
/// order; it is bit-reversed before use).  Row 0 is the single-byte step
/// function of the reflected polynomial; each further row is derived from
/// the previous row and row 0.
pub fn generate_table(polynomial: u32) -> (t: [[u32; 256]; 8])
    ensures
        table_row0_for(t, polynomial),
        table_rows_derived(t),
        table_well_formed(t),
{
    let rp: u32 = reverse_bits_of(polynomial);
    let mut t: [[u32; 256]; 8] = [[0u32; 256]; 8];

    let mut row: [u32; 256] = [0u32; 256];
    let mut b: usize = 0;
    while b < 256
        invariant
            b <= 256,
            rp == reversed_bits(polynomial),
            forall|j: int| 0 <= j < b ==> #[trigger] row[j] == row0_entry(polynomial, j),
        decreases 256 - b,
    {
        let mut crc: u32 = b as u32;
        let mut j: usize = 0;
        while j < 8
            invariant
                j <= 8,
                b < 256,
                rp == reversed_bits(polynomial),
                crc == crc_steps(rp, b as u32, j as nat),
            decreases 8 - j,
        {
            crc = if crc & 1 == 1 {
                (crc >> 1) ^ rp
            } else {
                crc >> 1
            };
            j = j + 1;
        }
        row[b] = crc;
        b = b + 1;
    }
    t[0] = row;

    let mut k: usize = 1;
    while k < 8
        invariant
            1 <= k <= 8,
            forall|j: int| 0 <= j < 256 ==> #[trigger] t[0][j] == row0_entry(polynomial, j),
            forall|kk: int, j: int|
                1 <= kk < k && 0 <= j < 256 ==> #[trigger] t[kk][j] == (t[kk - 1][j] >> 8)
                    ^ t[0][(t[kk - 1][j] & 0xFF) as int],
        decreases 8 - k,
    {
        let mut next: [u32; 256] = [0u32; 256];
        let mut b2: usize = 0;
        while b2 < 256
            invariant
                1 <= k < 8,
                b2 <= 256,
                forall|j: int| 0 <= j < b2 ==> #[trigger] next[j] == (t[k - 1][j] >> 8)
                    ^ t[0][(t[k - 1][j] & 0xFF) as int],
            decreases 256 - b2,
        {
            let prev: u32 = t[k - 1][b2];
            assert(prev & 0xFF < 256) by (bit_vector);
            let idx: usize = (prev & 0xFF) as usize;
            next[b2] = (prev >> 8) ^ t[0][idx];
            b2 = b2 + 1;
        }
        t[k] = next;
        k = k + 1;
    }
    proof {
        assert(table_well_formed(t)) by {
            assert(table_row0_for(t, polynomial));
        }
    }
    t
}

/// The engine shared by the two public fold orders.  The buffer is consumed
/// in three phases over one accumulator: leading bytes one at a time until
/// the rest is a multiple of eight, then eight bytes per step through the
/// eight table rows, composing words from bytes in the order `swapped`
/// selects, then nothing is left over.  Both word orders give the checksum
/// of the whole buffer.
fn fold_buffer(buf: &[u8], seed: u32, t: &[[u32; 256]; 8], swapped: bool) -> (r: u32)
    requires
        table_well_formed(*t),
    ensures
        r == checksum_with_seed_spec(*t, seed, buf@),
{
    proof {
        let poly = choose|poly: u32| table_row0_for(*t, poly);
        lemma_row0_linear_of(*t, poly);
    }
    let len: usize = buf.len();
    let prefix_len: usize = len % 8;
    let mut acc: u32 = !seed;
    let mut i: usize = 0;
    while i < prefix_len
        invariant
            i <= prefix_len,
            prefix_len <= len,
            len == buf@.len(),
            acc == fold_bytes(*t, !seed, buf@.take(i as int)),
        decreases prefix_len - i,
    {
        let b: u8 = buf[i];
        proof {
            lemma_fold_bytes_snoc(*t, !seed, buf@.take(i as int), b);
            assert(buf@.take(i as int).push(b) =~= buf@.take(i as int + 1));
            assert((acc ^ (b as u32)) & 0xFF < 256) by (bit_vector);
        }
        acc = t[0][((acc ^ (b as u32)) & 0xFF) as usize] ^ (acc >> 8);
        i = i + 1;
    }
    while i < len
        invariant
            i <= len,
            len == buf@.len(),
            (len - i) % 8 == 0,
            acc == fold_bytes(*t, !seed, buf@.take(i as int)),
            table_rows_derived(*t),
            row0_linear(*t),
            t[0][0] == 0,
        decreases len - i,
    {
        let b0: u8 = buf[i];
        let b1: u8 = buf[i + 1];
        let b2: u8 = buf[i + 2];
        let b3: u8 = buf[i + 3];
        let b4: u8 = buf[i + 4];
        let b5: u8 = buf[i + 5];
        let b6: u8 = buf[i + 6];
        let b7: u8 = buf[i + 7];
        let ghost block = seq![b0, b1, b2, b3, b4, b5, b6, b7];
        let ghost x = acc ^ word_of(b0, b1, b2, b3);
        let ghost high = word_of(b4, b5, b6, b7);
        proof {
            assert(buf@.take(i as int + 8) =~= buf@.take(i as int) + block);
            lemma_fold_bytes_concat(*t, !seed, buf@.take(i as int), block);
            lemma_fold_block(*t, acc, block);
            bv_index_bounds(x);
            bv_index_bounds(high);
        }
        let nacc: u32;
        if swapped {
            let one: u32 = (((b0 as u32) << 24) | ((b1 as u32) << 16) | ((b2 as u32) << 8) | (
            b3 as u32)) ^ ((acc >> 24) | ((acc >> 8) & 0xFF00) | ((acc << 8) & 0xFF0000) | (acc
                << 24));
            let two: u32 = ((b4 as u32) << 24) | ((b5 as u32) << 16) | ((b6 as u32) << 8) | (
            b7 as u32);
            proof {
                assert(one == word_be(b0, b1, b2, b3) ^ byte_swapped(acc));
                assert(two == word_be(b4, b5, b6, b7));
                bv_swapped_one(acc, b0, b1, b2, b3);
                bv_swapped_two(b4, b5, b6, b7);
                bv_xor8_rev(
                    t[7][(x & 0xFF) as int],
                    t[6][((x >> 8) & 0xFF) as int],
                    t[5][((x >> 16) & 0xFF) as int],
                    t[4][(x >> 24) as int],
                    t[3][(high & 0xFF) as int],
                    t[2][((high >> 8) & 0xFF) as int],
                    t[1][((high >> 16) & 0xFF) as int],
                    t[0][(high >> 24) as int],
                );
            }
            nacc = t[0][(two & 0xFF) as usize] ^ t[1][((two >> 8) & 0xFF) as usize] ^ t[2][((two
                >> 16) & 0xFF) as usize] ^ t[3][(two >> 24) as usize] ^ t[4][(one
                & 0xFF) as usize] ^ t[5][((one >> 8) & 0xFF) as usize] ^ t[6][((one >> 16)
                & 0xFF) as usize] ^ t[7][(one >> 24) as usize];
            proof {
                assert(nacc == slice8_combine(*t, x, high));
            }
        } else {
            let low: u32 = ((b0 as u32) | ((b1 as u32) << 8) | ((b2 as u32) << 16) | ((b3 as u32)
                << 24)) ^ acc;
            let hw: u32 = (b4 as u32) | ((b5 as u32) << 8) | ((b6 as u32) << 16) | ((b7 as u32)
                << 24);
            proof {
                bv_word_or(b0, b1, b2, b3);
                bv_word_or(b4, b5, b6, b7);
                assert(word_of(b0, b1, b2, b3) ^ acc == acc ^ word_of(b0, b1, b2, b3)) by (
                bit_vector);
                assert(low == x);
                assert(hw == high);
            }
            nacc = t[7][(low & 0xFF) as usize] ^ t[6][((low >> 8) & 0xFF) as usize] ^ t[5][((low
                >> 16) & 0xFF) as usize] ^ t[4][(low >> 24) as usize] ^ t[3][(hw
                & 0xFF) as usize] ^ t[2][((hw >> 8) & 0xFF) as usize] ^ t[1][((hw >> 16)
                & 0xFF) as usize] ^ t[0][(hw >> 24) as usize];
            proof {
                assert(nacc == slice8_combine(*t, x, high));
            }
        }
        acc = nacc;
        i = i + 8;
    }
    proof {
        assert(buf@.take(len as int) =~= buf@);
    }
    !acc
}

/// Computes the checksum of `buf` against `lookup_table`, chaining from
/// `seed`: the complement of the seed is folded through the table, byte by
/// byte and block by block, and the complement of the final accumulator is
/// returned.  The empty buffer returns the seed unchanged.
pub fn slice_by_8_with_seed(buf: &[u8], seed: u32, lookup_table: &[[u32; 256]; 8]) -> (r: u32)
    requires
        table_well_formed(*lookup_table),
    ensures
        r == checksum_with_seed_spec(*lookup_table, seed, buf@),
        buf@.len() == 0 ==> r == seed,
{
    let r = fold_buffer(buf, seed, lookup_table, false);
    proof {
        if buf@.len() == 0 {
            assert(buf@ =~= Seq::<u8>::empty());
            lemma_empty_checksum(*lookup_table, seed);
        }
    }
    r
}

/// [`slice_by_8_with_seed`] with the alternate fold order of the bulk
/// phase: words are composed high byte first and the accumulator enters
/// byte-swapped, as the engine folds on a big-endian host.  The result is
/// the same as [`slice_by_8_with_seed`]'s on every input.
pub fn slice_by_8_with_seed_swapped(buf: &[u8], seed: u32, lookup_table: &[[u32; 256]; 8]) -> (r:
    u32)
    requires
        table_well_formed(*lookup_table),
    ensures
        r == checksum_with_seed_spec(*lookup_table, seed, buf@),
        buf@.len() == 0 ==> r == seed,
{
    let r = fold_buffer(buf, seed, lookup_table, true);
    proof {
        if buf@.len() == 0 {
            assert(buf@ =~= Seq::<u8>::empty());
            lemma_empty_checksum(*lookup_table, seed);
        }
    }
    r
}

/// Computes the checksum of `buf` against `lookup_table` with seed 0.
pub fn slice_by_8(buf: &[u8], lookup_table: &[[u32; 256]; 8]) -> (r: u32)
    requires
        table_well_formed(*lookup_table),
    ensures
        r == checksum_with_seed_spec(*lookup_table, 0, buf@),
{
    slice_by_8_with_seed(buf, 0, lookup_table)
}

} // verus!
