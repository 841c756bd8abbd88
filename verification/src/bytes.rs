//! Reading fixed-width integers out of a byte string, in both byte orders.

use vstd::prelude::*;
use vstd::arithmetic::div_mod::{lemma_div_denominator, lemma_fundamental_div_mod};

verus! {

/// The 16-bit little-endian integer at `off`.
pub open spec fn u16_le(b: Seq<u8>, off: int) -> int {
    b[off] + 256 * b[off + 1]
}

/// The 32-bit little-endian integer at `off`.
pub open spec fn u32_le(b: Seq<u8>, off: int) -> int {
    b[off] + 256 * (b[off + 1] + 256 * (b[off + 2] + 256 * b[off + 3]))
}

/// The 32-bit big-endian integer at `off`.
pub open spec fn u32_be(b: Seq<u8>, off: int) -> int {
    b[off + 3] + 256 * (b[off + 2] + 256 * (b[off + 1] + 256 * b[off]))
}

/// The 48-bit big-endian integer at `off`.
pub open spec fn u48_be(b: Seq<u8>, off: int) -> int {
    b[off + 5] + 256 * (b[off + 4] + 256 * (b[off + 3] + 256 * (b[off + 2] + 256 * (b[off + 1]
        + 256 * b[off]))))
}

/// Read the 16-bit little-endian integer at `off`.
pub fn read_u16_le(b: &[u8], off: usize) -> (r: u16)
    requires
        off + 2 <= b@.len(),
    ensures
        r == u16_le(b@, off as int),
{
    let lo = b[off] as u16;
    let hi = b[off + 1] as u16;
    lo + 256 * hi
}

/// Read the 32-bit little-endian integer at `off`.
pub fn read_u32_le(b: &[u8], off: usize) -> (r: u32)
    requires
        off + 4 <= b@.len(),
    ensures
        r == u32_le(b@, off as int),
{
    let b0 = b[off] as u32;
    let b1 = b[off + 1] as u32;
    let b2 = b[off + 2] as u32;
    let b3 = b[off + 3] as u32;
    b0 + 256 * (b1 + 256 * (b2 + 256 * b3))
}

/// Read the 32-bit big-endian integer at `off`.
pub fn read_u32_be(b: &[u8], off: usize) -> (r: u32)
    requires
        off + 4 <= b@.len(),
    ensures
        r == u32_be(b@, off as int),
{
    let _len = b.len();
    let b0 = b[off + 3] as u32;
    let b1 = b[off + 2] as u32;
    let b2 = b[off + 1] as u32;
    let b3 = b[off] as u32;
    b0 + 256 * (b1 + 256 * (b2 + 256 * b3))
}

/// Read the 48-bit big-endian integer at `off`.
pub fn read_u48_be(b: &[u8], off: usize) -> (r: u64)
    requires
        off + 6 <= b@.len(),
    ensures
        r == u48_be(b@, off as int),
        r < 0x1000000000000,
{
    let _len = b.len();
    let b0 = b[off + 5] as u64;
    let b1 = b[off + 4] as u64;
    let b2 = b[off + 3] as u64;
    let b3 = b[off + 2] as u64;
    let b4 = b[off + 1] as u64;
    let b5 = b[off] as u64;
    b0 + 256 * (b1 + 256 * (b2 + 256 * (b3 + 256 * (b4 + 256 * b5))))
}

/// A 32-bit value is recovered from its four little-endian bytes.
pub proof fn lemma_u32_le_of_bytes(b: Seq<u8>, off: int, s: u32)
    requires
        0 <= off,
        off + 4 <= b.len(),
        b[off] == s % 256,
        b[off + 1] == (s / 256) % 256,
        b[off + 2] == (s / 65536) % 256,
        b[off + 3] == (s / 16777216) % 256,
    ensures
        u32_le(b, off) == s,
{
    lemma_u32_decomposition(s);
}

/// A 32-bit value is recovered from its four big-endian bytes.
pub proof fn lemma_u32_be_of_bytes(b: Seq<u8>, off: int, s: u32)
    requires
        0 <= off,
        off + 4 <= b.len(),
        b[off + 3] == s % 256,
        b[off + 2] == (s / 256) % 256,
        b[off + 1] == (s / 65536) % 256,
        b[off] == (s / 16777216) % 256,
    ensures
        u32_be(b, off) == s,
{
    lemma_u32_decomposition(s);
}

/// A 32-bit value equals the Horner sum of its four bytes.
proof fn lemma_u32_decomposition(s: u32)
    ensures
        s == (s % 256) + 256 * (((s / 256) % 256) + 256 * (((s / 65536) % 256) + 256 * ((s
            / 16777216) % 256))),
{
    lemma_fundamental_div_mod(s as int, 256);
    lemma_fundamental_div_mod(s as int / 256, 256);
    lemma_fundamental_div_mod(s as int / 65536, 256);
    lemma_div_denominator(s as int, 256, 256);
    lemma_div_denominator(s as int, 65536, 256);
    assert(s as int / 16777216 < 256) by {
        assert(s < 0x100000000);
        lemma_div_denominator(s as int, 16777216, 256);
        lemma_fundamental_div_mod(s as int / 16777216, 256);
    }
    assert((s as int / 16777216) % 256 == s as int / 16777216) by {
        lemma_fundamental_div_mod(s as int / 16777216, 256);
    }
}

/// A 48-bit value is recovered from its six big-endian bytes.
pub proof fn lemma_u48_be_of_bytes(b: Seq<u8>, off: int, s: u64)
    requires
        0 <= off,
        off + 6 <= b.len(),
        s < 0x1000000000000,
        b[off + 5] == s % 256,
        b[off + 4] == (s / 0x100) % 256,
        b[off + 3] == (s / 0x10000) % 256,
        b[off + 2] == (s / 0x1000000) % 256,
        b[off + 1] == (s / 0x100000000) % 256,
        b[off] == (s / 0x10000000000) % 256,
    ensures
        u48_be(b, off) == s,
{
    lemma_fundamental_div_mod(s as int, 256);
    lemma_fundamental_div_mod(s as int / 0x100, 256);
    lemma_fundamental_div_mod(s as int / 0x10000, 256);
    lemma_fundamental_div_mod(s as int / 0x1000000, 256);
    lemma_fundamental_div_mod(s as int / 0x100000000, 256);
    lemma_div_denominator(s as int, 0x100, 256);
    lemma_div_denominator(s as int, 0x10000, 256);
    lemma_div_denominator(s as int, 0x1000000, 256);
    lemma_div_denominator(s as int, 0x100000000, 256);
    assert(s as int / 0x10000000000 < 256) by {
        lemma_div_denominator(s as int, 0x10000000000, 256);
        lemma_fundamental_div_mod(s as int / 0x10000000000, 256);
    }
    assert((s as int / 0x10000000000) % 256 == s as int / 0x10000000000) by {
        lemma_fundamental_div_mod(s as int / 0x10000000000, 256);
    }
}

} // verus!
