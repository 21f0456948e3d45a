//! Proof support for the checksum engine.
//!
//! The central result is [`lemma_fold_block`]: folding eight bytes one at a
//! time through row 0 of a well-formed table gives the same accumulator as
//! the slice-by-8 combination, which looks each of the eight bytes up in its
//! own table row and xors the results.  The proof rests on the xor-linearity
//! of the single-byte step, which in turn follows from the linearity of the
//! underlying shift-and-xor bit step.

use vstd::prelude::*;

use crate::model::{
    crc_step, crc_steps, row0_entry, table_row0_for, table_rows_derived, fold_byte, fold_bytes,
    reversed_bits, byte_step, byte_steps,
};

verus! {

/// The bit step distributes over xor.
proof fn bv_step_linear(p: u32, x: u32, y: u32)
    by (bit_vector)
    ensures
        crc_step(p, x ^ y) == crc_step(p, x) ^ crc_step(p, y),
{
}

/// On an even accumulator the bit step is a plain shift.
proof fn bv_step_even(p: u32, x: u32)
    by (bit_vector)
    requires
        x & 1 == 0,
    ensures
        crc_step(p, x) == x >> 1,
{
}

/// Xor is commutative and associative, with 0 as unit.
proof fn bv_xor(a: u32, b: u32, c: u32)
    by (bit_vector)
    ensures
        a ^ b == b ^ a,
        (a ^ b) ^ c == a ^ (b ^ c),
        a ^ 0 == a,
        !(!a) == a,
{
}

/// Regrouping of a two-by-two xor.
proof fn bv_xor_regroup(a: u32, b: u32, c: u32, d: u32)
    by (bit_vector)
    ensures
        (a ^ b) ^ (c ^ d) == (a ^ c) ^ (b ^ d),
{
}

/// All the bit steps applied to `acc` are plain shifts while the low byte
/// is clear.
proof fn bv_even_chain(x: u32)
    by (bit_vector)
    requires
        x & 0xFF == 0,
    ensures
        x & 1 == 0,
        (x >> 1) & 1 == 0,
        (x >> 2) & 1 == 0,
        (x >> 3) & 1 == 0,
        (x >> 4) & 1 == 0,
        (x >> 5) & 1 == 0,
        (x >> 6) & 1 == 0,
        (x >> 7) & 1 == 0,
        (x >> 1) >> 1 == x >> 2,
        (x >> 2) >> 1 == x >> 3,
        (x >> 3) >> 1 == x >> 4,
        (x >> 4) >> 1 == x >> 5,
        (x >> 5) >> 1 == x >> 6,
        (x >> 6) >> 1 == x >> 7,
        (x >> 7) >> 1 == x >> 8,
{
}

/// `n` bit steps applied to 0 leave 0.
proof fn lemma_crc_steps_zero(p: u32, n: nat)
    ensures
        crc_steps(p, 0, n) == 0,
    decreases n,
{
    if n > 0 {
        lemma_crc_steps_zero(p, (n - 1) as nat);
        assert(crc_step(p, 0) == 0) by (bit_vector);
    }
}

/// `n` bit steps distribute over xor.
proof fn lemma_crc_steps_linear(p: u32, x: u32, y: u32, n: nat)
    ensures
        crc_steps(p, x ^ y, n) == crc_steps(p, x, n) ^ crc_steps(p, y, n),
    decreases n,
{
    if n > 0 {
        lemma_crc_steps_linear(p, x, y, (n - 1) as nat);
        bv_step_linear(p, crc_steps(p, x, (n - 1) as nat), crc_steps(p, y, (n - 1) as nat));
    }
}

/// Eight bit steps of a value with a clear low byte shift that byte in.
proof fn lemma_crc_steps8_high(p: u32, x: u32)
    requires
        x & 0xFF == 0,
    ensures
        crc_steps(p, x, 8) == x >> 8,
{
    bv_even_chain(x);
    bv_step_even(p, x);
    assert(crc_steps(p, x, 0) == x);
    assert(crc_steps(p, x, 1) == x >> 1);
    bv_step_even(p, x >> 1);
    assert(crc_steps(p, x, 2) == x >> 2);
    bv_step_even(p, x >> 2);
    assert(crc_steps(p, x, 3) == x >> 3);
    bv_step_even(p, x >> 3);
    assert(crc_steps(p, x, 4) == x >> 4);
    bv_step_even(p, x >> 4);
    assert(crc_steps(p, x, 5) == x >> 5);
    bv_step_even(p, x >> 5);
    assert(crc_steps(p, x, 6) == x >> 6);
    bv_step_even(p, x >> 6);
    assert(crc_steps(p, x, 7) == x >> 7);
    bv_step_even(p, x >> 7);
    assert(crc_steps(p, x, 8) == x >> 8);
}

/// Row 0 of a generated table is xor-linear on byte indices.
pub(crate) open spec fn row0_linear(t: [[u32; 256]; 8]) -> bool {
    forall|a: u32, b: u32|
        a < 256 && b < 256 ==> #[trigger] t[0][(a ^ b) as int] == t[0][a as int] ^ t[0][b as int]
}

/// A table whose row 0 is the single-byte step function of some polynomial
/// has an xor-linear row 0 that maps 0 to 0.
pub(crate) proof fn lemma_row0_linear_of(t: [[u32; 256]; 8], p: u32)
    requires
        table_row0_for(t, p),
    ensures
        row0_linear(t),
        t[0][0] == 0,
{
    let pr = crate::model::reversed_bits(p);
    assert forall|a: u32, b: u32| a < 256 && b < 256 implies #[trigger] t[0][(a ^ b) as int] == t[0][a as int]
        ^ t[0][b as int] by {
        assert(a ^ b < 256) by (bit_vector)
            requires
                a < 256 && b < 256,
        ;
        lemma_crc_steps_linear(pr, a, b, 8);
        assert(t[0][(a ^ b) as int] == row0_entry(p, (a ^ b) as int));
        assert(t[0][a as int] == row0_entry(p, a as int));
        assert(t[0][b as int] == row0_entry(p, b as int));
    }
    lemma_crc_steps_zero(pr, 8);
    assert(t[0][0] == row0_entry(p, 0));
}

/// One zero-byte step: what [`fold_byte`] does when the byte is 0.
pub(crate) open spec fn fz(t: [[u32; 256]; 8], x: u32) -> u32 {
    t[0][(x & 0xFF) as int] ^ (x >> 8)
}

/// `n` zero-byte steps.
pub(crate) open spec fn fzn(t: [[u32; 256]; 8], x: u32, n: nat) -> u32
    decreases n,
{
    if n == 0 {
        x
    } else {
        fz(t, fzn(t, x, (n - 1) as nat))
    }
}

/// Byte-extraction facts for the zero-byte step.
proof fn bv_extract(x: u32, y: u32)
    by (bit_vector)
    ensures
        (x ^ y) & 0xFF == (x & 0xFF) ^ (y & 0xFF),
        (x ^ y) >> 8 == (x >> 8) ^ (y >> 8),
        x & 0xFF < 256,
        (x >> 8) & 0xFF < 256,
        (x >> 16) & 0xFF < 256,
        x >> 24 < 256,
{
}

/// Folding an actual byte equals a zero-byte step on the accumulator with
/// the byte xored into its low end.
proof fn lemma_fold_byte_fz(t: [[u32; 256]; 8], acc: u32, b: u8)
    ensures
        fold_byte(t, acc, b) == fz(t, acc ^ (b as u32)),
{
    assert((acc ^ (b as u32)) >> 8 == acc >> 8) by (bit_vector);
}

/// The zero-byte step distributes over xor.
proof fn lemma_fz_linear(t: [[u32; 256]; 8], x: u32, y: u32)
    requires
        row0_linear(t),
    ensures
        fz(t, x ^ y) == fz(t, x) ^ fz(t, y),
{
    bv_extract(x, y);
    bv_extract(y, x);
    assert(t[0][((x & 0xFF) ^ (y & 0xFF)) as int] == t[0][(x & 0xFF) as int] ^ t[0][(y
        & 0xFF) as int]);
    bv_xor_regroup(t[0][(x & 0xFF) as int], x >> 8, t[0][(y & 0xFF) as int], y >> 8);
}

/// `n` zero-byte steps distribute over xor.
proof fn lemma_fzn_linear(t: [[u32; 256]; 8], x: u32, y: u32, n: nat)
    requires
        row0_linear(t),
    ensures
        fzn(t, x ^ y, n) == fzn(t, x, n) ^ fzn(t, y, n),
    decreases n,
{
    if n > 0 {
        lemma_fzn_linear(t, x, y, (n - 1) as nat);
        lemma_fz_linear(t, fzn(t, x, (n - 1) as nat), fzn(t, y, (n - 1) as nat));
    }
}

/// The first of `n` zero-byte steps can be peeled off the inside.
proof fn lemma_fzn_peel(t: [[u32; 256]; 8], x: u32, n: nat)
    requires
        n >= 1,
    ensures
        fzn(t, x, n) == fzn(t, fz(t, x), (n - 1) as nat),
    decreases n,
{
    if n == 1 {
        assert(fzn(t, x, 1) == fz(t, fzn(t, x, 0)));
        assert(fzn(t, fz(t, x), 0) == fz(t, x));
    } else {
        lemma_fzn_peel(t, x, (n - 1) as nat);
        assert(fzn(t, x, n) == fz(t, fzn(t, x, (n - 1) as nat)));
        assert(fzn(t, fz(t, x), (n - 1) as nat) == fz(t, fzn(t, fz(t, x), (n - 2) as nat)));
    }
}

/// Zero-byte steps compose.
proof fn lemma_fzn_add(t: [[u32; 256]; 8], x: u32, m: nat, n: nat)
    ensures
        fzn(t, fzn(t, x, m), n) == fzn(t, x, m + n),
    decreases n,
{
    if n > 0 {
        lemma_fzn_add(t, x, m, (n - 1) as nat);
    }
}

/// A byte value shifted up one position comes back down in one zero-byte
/// step, and its low byte is clear on the way.
proof fn bv_shift_byte(b: u32)
    by (bit_vector)
    requires
        b < 256,
    ensures
        (b << 8) & 0xFF == 0,
        (b << 8) >> 8 == b,
        (b << 16) & 0xFF == 0,
        (b << 16) >> 8 == b << 8,
        (b << 24) & 0xFF == 0,
        (b << 24) >> 8 == b << 16,
        b << 8 < 0x10000,
        b << 16 < 0x1000000,
        b & 0xFF == b,
        b >> 8 == 0,
{
}

/// A zero-byte step of a byte value shifted up one position just moves it
/// back down.
proof fn lemma_fz_shift(t: [[u32; 256]; 8], b: u32)
    requires
        t[0][0] == 0,
        b < 256,
    ensures
        fz(t, b << 8) == b,
        fz(t, b << 16) == b << 8,
        fz(t, b << 24) == b << 16,
        fz(t, b) == t[0][b as int],
{
    bv_shift_byte(b);
    bv_zero_xor(b);
    bv_zero_xor(b << 8);
    bv_zero_xor(b << 16);
    bv_zero_xor(t[0][b as int]);
}

/// Xor with 0, on either side, is the identity.
proof fn bv_zero_xor(a: u32)
    by (bit_vector)
    ensures
        0u32 ^ a == a,
        a ^ 0 == a,
{
}

/// `k + 1` zero-byte steps of a byte value land on row `k` of a table whose
/// rows are derived from row 0.
proof fn lemma_fzn_row(t: [[u32; 256]; 8], x: u32, k: nat)
    requires
        table_rows_derived(t),
        t[0][0] == 0,
        x < 256,
        k < 8,
    ensures
        fzn(t, x, k + 1) == t[k as int][x as int],
    decreases k,
{
    if k == 0 {
        assert(fzn(t, x, 1) == fz(t, fzn(t, x, 0)));
        lemma_fz_shift(t, x);
    } else {
        lemma_fzn_row(t, x, (k - 1) as nat);
        let prev = t[k - 1][x as int];
        assert(fzn(t, x, k + 1) == fz(t, fzn(t, x, k)));
        assert(t[k as int][x as int] == (prev >> 8) ^ t[0][(prev & 0xFF) as int]);
        bv_xor(t[0][(prev & 0xFF) as int], prev >> 8, 0);
    }
}

/// A byte value shifted up `k` positions, `n` zero-byte steps later, lands
/// on row `n - k - 1`; the shift eats `k` of the steps.
proof fn lemma_fzn_shifted(t: [[u32; 256]; 8], b: u32, n: nat)
    requires
        table_rows_derived(t),
        t[0][0] == 0,
        b < 256,
        4 <= n <= 8,
    ensures
        fzn(t, b, n) == t[n - 1][b as int],
        fzn(t, b << 8, n) == t[n - 2][b as int],
        fzn(t, b << 16, n) == t[n - 3][b as int],
        fzn(t, b << 24, n) == t[n - 4][b as int],
{
    lemma_fz_shift(t, b);
    lemma_fzn_row(t, b, (n - 1) as nat);
    lemma_fzn_peel(t, b << 8, n);
    lemma_fzn_row(t, b, (n - 2) as nat);
    lemma_fzn_peel(t, b << 16, n);
    lemma_fzn_peel(t, b << 8, (n - 1) as nat);
    lemma_fzn_row(t, b, (n - 3) as nat);
    lemma_fzn_peel(t, b << 24, n);
    lemma_fzn_peel(t, b << 16, (n - 1) as nat);
    lemma_fzn_peel(t, b << 8, (n - 2) as nat);
    lemma_fzn_row(t, b, (n - 4) as nat);
}

/// The first four bytes of a block, composed into a 32-bit word in buffer
/// order (first byte lowest).
pub(crate) open spec fn word_of(b0: u8, b1: u8, b2: u8, b3: u8) -> u32 {
    (b0 as u32) ^ ((b1 as u32) << 8) ^ ((b2 as u32) << 16) ^ ((b3 as u32) << 24)
}

/// The slice-by-8 combination: each byte of the accumulator-xored low word
/// and of the high word looked up in its own table row, all eight results
/// xored together.
pub(crate) open spec fn slice8_combine(t: [[u32; 256]; 8], x: u32, high: u32) -> u32 {
    t[7][(x & 0xFF) as int] ^ t[6][((x >> 8) & 0xFF) as int] ^ t[5][((x >> 16) & 0xFF) as int]
        ^ t[4][(x >> 24) as int] ^ t[3][(high & 0xFF) as int] ^ t[2][((high >> 8)
        & 0xFF) as int] ^ t[1][((high >> 16) & 0xFF) as int] ^ t[0][(high >> 24) as int]
}

/// Xoring four shifted bytes into the accumulator one by one is xoring in
/// the composed word.
proof fn bv_inject4(acc: u32, b0: u8, b1: u8, b2: u8, b3: u8)
    by (bit_vector)
    ensures
        ((((acc ^ (b0 as u32)) ^ ((b1 as u32) << 8)) ^ ((b2 as u32) << 16)) ^ ((b3 as u32) << 24))
            == acc ^ word_of(b0, b1, b2, b3),
{
}

/// A word is the xor of its four shifted bytes.
proof fn bv_word_decomp(x: u32)
    by (bit_vector)
    ensures
        x == (((x & 0xFF) ^ (((x >> 8) & 0xFF) << 8)) ^ (((x >> 16) & 0xFF) << 16)) ^ ((x >> 24)
            << 24),
{
}

/// Regrouping of an eight-term xor from two four-term halves.
proof fn bv_xor8(a: u32, b: u32, c: u32, d: u32, e: u32, f: u32, g: u32, h: u32)
    by (bit_vector)
    ensures
        (((a ^ b) ^ c) ^ d) ^ (((e ^ f) ^ g) ^ h) == a ^ b ^ c ^ d ^ e ^ f ^ g ^ h,
{
}

/// Four zero-byte steps of a word split into one row lookup per byte.
proof fn lemma_fzn_word(t: [[u32; 256]; 8], w: u32, n: nat)
    requires
        table_rows_derived(t),
        row0_linear(t),
        t[0][0] == 0,
        4 <= n <= 8,
    ensures
        fzn(t, w, n) == ((t[n - 1][(w & 0xFF) as int] ^ t[n - 2][((w >> 8) & 0xFF) as int]) ^ t[n
            - 3][((w >> 16) & 0xFF) as int]) ^ t[n - 4][(w >> 24) as int],
{
    let w0 = w & 0xFF;
    let w1 = (w >> 8) & 0xFF;
    let w2 = (w >> 16) & 0xFF;
    let w3 = w >> 24;
    bv_extract(w, w);
    bv_word_decomp(w);
    lemma_fzn_linear(t, (w0 ^ (w1 << 8)) ^ (w2 << 16), w3 << 24, n);
    lemma_fzn_linear(t, w0 ^ (w1 << 8), w2 << 16, n);
    lemma_fzn_linear(t, w0, w1 << 8, n);
    lemma_fzn_shifted(t, w0, n);
    lemma_fzn_shifted(t, w1, n);
    lemma_fzn_shifted(t, w2, n);
    lemma_fzn_shifted(t, w3, n);
}

/// The central equivalence: folding a block of eight bytes one at a time
/// through row 0 of a well-formed table equals the slice-by-8 combination
/// of the accumulator-xored low word and the high word.
pub(crate) proof fn lemma_fold_block(t: [[u32; 256]; 8], acc: u32, s: Seq<u8>)
    requires
        table_rows_derived(t),
        row0_linear(t),
        t[0][0] == 0,
        s.len() == 8,
    ensures
        fold_bytes(t, acc, s) == slice8_combine(
            t,
            acc ^ word_of(s[0], s[1], s[2], s[3]),
            word_of(s[4], s[5], s[6], s[7]),
        ),
{
    let b0 = s[0];
    let b1 = s[1];
    let b2 = s[2];
    let b3 = s[3];
    let b4 = s[4];
    let b5 = s[5];
    let b6 = s[6];
    let b7 = s[7];
    let c0 = b0 as u32;
    let c1 = b1 as u32;
    let c2 = b2 as u32;
    let c3 = b3 as u32;
    let c4 = b4 as u32;
    let c5 = b5 as u32;
    let c6 = b6 as u32;
    let c7 = b7 as u32;

    // Unfold the fold of the block into eight single-byte folds.
    let a1 = fold_byte(t, acc, b0);
    let a2 = fold_byte(t, a1, b1);
    let a3 = fold_byte(t, a2, b2);
    let a4 = fold_byte(t, a3, b3);
    let a5 = fold_byte(t, a4, b4);
    let a6 = fold_byte(t, a5, b5);
    let a7 = fold_byte(t, a6, b6);
    let a8 = fold_byte(t, a7, b7);
    lemma_fold_bytes_unfold8(t, acc, s);

    // Absorb the first four bytes into the accumulator: a4 is four
    // zero-byte steps of acc xor the low word.
    let x1 = acc ^ c0;
    let x2 = x1 ^ (c1 << 8);
    let x3 = x2 ^ (c2 << 16);
    let x4 = x3 ^ (c3 << 24);
    lemma_fzn_low(t, x1);
    lemma_fzn_low(t, x2);
    lemma_fzn_low(t, x3);
    lemma_fzn_low(t, x4);
    lemma_fzn_low(t, c2 << 16);
    lemma_fzn_low(t, c3 << 24);
    lemma_fold_byte_fz(t, acc, b0);
    assert(a1 == fzn(t, x1, 1));
    lemma_fold_byte_fz(t, a1, b1);
    lemma_fz_shift(t, c1);
    lemma_fz_linear(t, x1, c1 << 8);
    assert(a2 == fz(t, fz(t, x2)));
    assert(a2 == fzn(t, x2, 2));
    lemma_fold_byte_fz(t, a2, b2);
    lemma_fz_shift(t, c2);
    assert(fzn(t, c2 << 16, 2) == c2);
    lemma_fzn_linear(t, x2, c2 << 16, 2);
    assert(a3 == fz(t, fzn(t, x3, 2)));
    assert(a3 == fzn(t, x3, 3));
    lemma_fold_byte_fz(t, a3, b3);
    lemma_fz_shift(t, c3);
    assert(fzn(t, c3 << 24, 3) == c3);
    lemma_fzn_linear(t, x3, c3 << 24, 3);
    assert(a4 == fz(t, fzn(t, x4, 3)));
    assert(a4 == fzn(t, x4, 4));

    // Absorb the last four bytes the same way: a8 is four zero-byte steps
    // of a4 xor the high word.
    let y1 = a4 ^ c4;
    let y2 = y1 ^ (c5 << 8);
    let y3 = y2 ^ (c6 << 16);
    let y4 = y3 ^ (c7 << 24);
    lemma_fzn_low(t, y1);
    lemma_fzn_low(t, y2);
    lemma_fzn_low(t, y3);
    lemma_fzn_low(t, y4);
    lemma_fzn_low(t, c6 << 16);
    lemma_fzn_low(t, c7 << 24);
    lemma_fold_byte_fz(t, a4, b4);
    assert(a5 == fzn(t, y1, 1));
    lemma_fold_byte_fz(t, a5, b5);
    lemma_fz_shift(t, c5);
    lemma_fz_linear(t, y1, c5 << 8);
    assert(a6 == fz(t, fz(t, y2)));
    assert(a6 == fzn(t, y2, 2));
    lemma_fold_byte_fz(t, a6, b6);
    lemma_fz_shift(t, c6);
    assert(fzn(t, c6 << 16, 2) == c6);
    lemma_fzn_linear(t, y2, c6 << 16, 2);
    assert(a7 == fz(t, fzn(t, y3, 2)));
    assert(a7 == fzn(t, y3, 3));
    lemma_fold_byte_fz(t, a7, b7);
    lemma_fz_shift(t, c7);
    assert(fzn(t, c7 << 24, 3) == c7);
    lemma_fzn_linear(t, y3, c7 << 24, 3);
    assert(a8 == fz(t, fzn(t, y4, 3)));
    assert(a8 == fzn(t, y4, 4));

    // Separate the two words.
    let x = acc ^ word_of(b0, b1, b2, b3);
    let high = word_of(b4, b5, b6, b7);
    bv_inject4(acc, b0, b1, b2, b3);
    assert(x4 == x);
    bv_inject4(a4, b4, b5, b6, b7);
    assert(y4 == a4 ^ high);
    lemma_fzn_linear(t, a4, high, 4);
    lemma_fzn_add(t, x, 4, 4);
    assert(a8 == fzn(t, x, 8) ^ fzn(t, high, 4));

    // Split each word into its per-row lookups and regroup.
    lemma_fzn_word(t, x, 8);
    lemma_fzn_word(t, high, 4);
    bv_xor8(
        t[7][(x & 0xFF) as int],
        t[6][((x >> 8) & 0xFF) as int],
        t[5][((x >> 16) & 0xFF) as int],
        t[4][(x >> 24) as int],
        t[3][(high & 0xFF) as int],
        t[2][((high >> 8) & 0xFF) as int],
        t[1][((high >> 16) & 0xFF) as int],
        t[0][(high >> 24) as int],
    );
}

/// Eight applications of the definitional unfolding of [`fold_bytes`] on a
/// sequence of length 8.
proof fn lemma_fold_bytes_unfold8(t: [[u32; 256]; 8], acc: u32, s: Seq<u8>)
    requires
        s.len() == 8,
    ensures
        fold_bytes(t, acc, s) == fold_byte(
            t,
            fold_byte(
                t,
                fold_byte(
                    t,
                    fold_byte(
                        t,
                        fold_byte(
                            t,
                            fold_byte(t, fold_byte(t, fold_byte(t, acc, s[0]), s[1]), s[2]),
                            s[3],
                        ),
                        s[4],
                    ),
                    s[5],
                ),
                s[6],
            ),
            s[7],
        ),
{
    let s1 = s.skip(1);
    let s2 = s1.skip(1);
    let s3 = s2.skip(1);
    let s4 = s3.skip(1);
    let s5 = s4.skip(1);
    let s6 = s5.skip(1);
    let s7 = s6.skip(1);
    let s8 = s7.skip(1);
    assert(s1[0] == s[1] && s2[0] == s[2] && s3[0] == s[3] && s4[0] == s[4] && s5[0] == s[5]
        && s6[0] == s[6] && s7[0] == s[7]);
    assert(s8.len() == 0);
    let a1 = fold_byte(t, acc, s[0]);
    let a2 = fold_byte(t, a1, s[1]);
    let a3 = fold_byte(t, a2, s[2]);
    let a4 = fold_byte(t, a3, s[3]);
    let a5 = fold_byte(t, a4, s[4]);
    let a6 = fold_byte(t, a5, s[5]);
    let a7 = fold_byte(t, a6, s[6]);
    let a8 = fold_byte(t, a7, s[7]);
    assert(fold_bytes(t, acc, s) == fold_bytes(t, a1, s1));
    assert(fold_bytes(t, a1, s1) == fold_bytes(t, a2, s2));
    assert(fold_bytes(t, a2, s2) == fold_bytes(t, a3, s3));
    assert(fold_bytes(t, a3, s3) == fold_bytes(t, a4, s4));
    assert(fold_bytes(t, a4, s4) == fold_bytes(t, a5, s5));
    assert(fold_bytes(t, a5, s5) == fold_bytes(t, a6, s6));
    assert(fold_bytes(t, a6, s6) == fold_bytes(t, a7, s7));
    assert(fold_bytes(t, a7, s7) == fold_bytes(t, a8, s8));
    assert(fold_bytes(t, a8, s8) == a8);
}

/// Folding one more byte after a sequence is one more single-byte fold.
pub(crate) proof fn lemma_fold_bytes_snoc(t: [[u32; 256]; 8], acc: u32, s: Seq<u8>, b: u8)
    ensures
        fold_bytes(t, acc, s.push(b)) == fold_byte(t, fold_bytes(t, acc, s), b),
{
    crate::model::lemma_fold_bytes_concat(t, acc, s, seq![b]);
    assert(s.push(b) =~= s + seq![b]);
    let y = fold_bytes(t, acc, s);
    assert(seq![b].skip(1) =~= Seq::<u8>::empty());
    assert(fold_bytes(t, y, seq![b]) == fold_bytes(t, fold_byte(t, y, seq![b][0]), seq![b].skip(1)));
    assert(seq![b][0] == b);
}

/// The four bytes composed into a word in big-endian order (first byte
/// highest).
pub(crate) open spec fn word_be(b0: u8, b1: u8, b2: u8, b3: u8) -> u32 {
    ((b0 as u32) << 24) | ((b1 as u32) << 16) | ((b2 as u32) << 8) | (b3 as u32)
}

/// The four bytes of `x` in reverse order.
pub(crate) open spec fn byte_swapped(x: u32) -> u32 {
    (x >> 24) | ((x >> 8) & 0xFF00) | ((x << 8) & 0xFF0000) | (x << 24)
}

/// Or-composition of disjoint shifted bytes is the xor-composition.
pub(crate) proof fn bv_word_or(b0: u8, b1: u8, b2: u8, b3: u8)
    by (bit_vector)
    ensures
        ((b0 as u32) | ((b1 as u32) << 8) | ((b2 as u32) << 16) | ((b3 as u32) << 24)) == word_of(
            b0,
            b1,
            b2,
            b3,
        ),
{
}

/// The bytes of the big-endian low word with the byte-swapped accumulator
/// xored in are the bytes of the little-endian low word with the plain
/// accumulator xored in, in reverse order.
pub(crate) proof fn bv_swapped_one(acc: u32, b0: u8, b1: u8, b2: u8, b3: u8)
    by (bit_vector)
    ensures
        (word_be(b0, b1, b2, b3) ^ byte_swapped(acc)) & 0xFF == (acc ^ word_of(b0, b1, b2, b3))
            >> 24,
        ((word_be(b0, b1, b2, b3) ^ byte_swapped(acc)) >> 8) & 0xFF == ((acc ^ word_of(
            b0,
            b1,
            b2,
            b3,
        )) >> 16) & 0xFF,
        ((word_be(b0, b1, b2, b3) ^ byte_swapped(acc)) >> 16) & 0xFF == ((acc ^ word_of(
            b0,
            b1,
            b2,
            b3,
        )) >> 8) & 0xFF,
        (word_be(b0, b1, b2, b3) ^ byte_swapped(acc)) >> 24 == (acc ^ word_of(b0, b1, b2, b3))
            & 0xFF,
{
}

/// The bytes of the big-endian high word are the bytes of the little-endian
/// high word in reverse order.
pub(crate) proof fn bv_swapped_two(b4: u8, b5: u8, b6: u8, b7: u8)
    by (bit_vector)
    ensures
        word_be(b4, b5, b6, b7) & 0xFF == word_of(b4, b5, b6, b7) >> 24,
        (word_be(b4, b5, b6, b7) >> 8) & 0xFF == (word_of(b4, b5, b6, b7) >> 16) & 0xFF,
        (word_be(b4, b5, b6, b7) >> 16) & 0xFF == (word_of(b4, b5, b6, b7) >> 8) & 0xFF,
        word_be(b4, b5, b6, b7) >> 24 == word_of(b4, b5, b6, b7) & 0xFF,
{
}

/// An eight-term xor read in the opposite order.
pub(crate) proof fn bv_xor8_rev(a: u32, b: u32, c: u32, d: u32, e: u32, f: u32, g: u32, h: u32)
    by (bit_vector)
    ensures
        a ^ b ^ c ^ d ^ e ^ f ^ g ^ h == h ^ g ^ f ^ e ^ d ^ c ^ b ^ a,
{
}

/// Bounds for the byte extractions the engine indexes the table with.
pub(crate) proof fn bv_index_bounds(x: u32)
    by (bit_vector)
    ensures
        x & 0xFF < 256,
        (x >> 8) & 0xFF < 256,
        (x >> 16) & 0xFF < 256,
        x >> 24 < 256,
{
}

/// A word splits into its low byte and its upper bytes.
proof fn bv_mask_split(v: u32)
    by (bit_vector)
    ensures
        v == (v & 0xFF) ^ (v & 0xFFFFFF00),
        (v & 0xFFFFFF00) & 0xFF == 0,
        v & 0xFF < 256,
        (v & 0xFFFFFF00) >> 8 == v >> 8,
{
}

/// One fold through row 0 of a table generated for `p` is one byte
/// absorbed by the reflected division itself.
proof fn lemma_fold_byte_math(t: [[u32; 256]; 8], p: u32, acc: u32, b: u8)
    requires
        table_row0_for(t, p),
    ensures
        fold_byte(t, acc, b) == byte_step(reversed_bits(p), acc, b),
{
    let pr = reversed_bits(p);
    let v = acc ^ (b as u32);
    bv_mask_split(v);
    lemma_crc_steps_linear(pr, v & 0xFF, v & 0xFFFFFF00, 8);
    lemma_crc_steps8_high(pr, v & 0xFFFFFF00);
    assert(t[0][(v & 0xFF) as int] == row0_entry(p, (v & 0xFF) as int));
    assert((acc ^ (b as u32)) >> 8 == acc >> 8) by (bit_vector);
    assert(((v & 0xFF) as int) as u32 == v & 0xFF);
}

/// Folding a buffer through row 0 of a table generated for `p` is the
/// reflected division of the buffer by `p`.
pub(crate) proof fn lemma_fold_bytes_math(t: [[u32; 256]; 8], p: u32, acc: u32, s: Seq<u8>)
    requires
        table_row0_for(t, p),
    ensures
        fold_bytes(t, acc, s) == byte_steps(reversed_bits(p), acc, s),
    decreases s.len(),
{
    if s.len() > 0 {
        lemma_fold_byte_math(t, p, acc, s[0]);
        lemma_fold_bytes_math(t, p, fold_byte(t, acc, s[0]), s.skip(1));
    }
}

/// The first few iterates of the zero-byte step, written out.
proof fn lemma_fzn_low(t: [[u32; 256]; 8], x: u32)
    ensures
        fzn(t, x, 0) == x,
        fzn(t, x, 1) == fz(t, x),
        fzn(t, x, 2) == fz(t, fz(t, x)),
        fzn(t, x, 3) == fz(t, fz(t, fz(t, x))),
        fzn(t, x, 4) == fz(t, fz(t, fz(t, fz(t, x)))),
{
    assert(fzn(t, x, 1) == fz(t, fzn(t, x, 0)));
    assert(fzn(t, x, 2) == fz(t, fzn(t, x, 1)));
    assert(fzn(t, x, 3) == fz(t, fzn(t, x, 2)));
    assert(fzn(t, x, 4) == fz(t, fzn(t, x, 3)));
}

} // verus!


