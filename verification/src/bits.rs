//! Facts about single bits of 16-bit and 32-bit masks.
//!
//! A board row keeps its ten cells in a `u16` and a board column its twenty
//! cells in a `u32`. The lemmas here say what one exclusive-or, one
//! inclusive-or, one masking or one shift does to each bit.

use vstd::prelude::*;

verus! {

/// Bit `k` of a 16-bit mask.
pub open spec fn bit16(x: u16, k: u16) -> bool {
    x & (1u16 << k) != 0
}

/// Bit `k` of a 32-bit mask.
pub open spec fn bit32(x: u32, k: u32) -> bool {
    x & (1u32 << k) != 0
}

/// No bit of zero is set.
pub proof fn lemma_zero16(k: u16)
    by (bit_vector)
    requires
        k < 16,
    ensures
        !bit16(0, k),
{
}

/// Exclusive-or with one bit inverts that bit and leaves the others.
pub proof fn lemma_flip16(x: u16, k: u16, m: u16)
    by (bit_vector)
    requires
        k < 10,
        m < 10,
        x < 1024,
    ensures
        bit16(x ^ (1u16 << k), m) == (if m == k {
            !bit16(x, m)
        } else {
            bit16(x, m)
        }),
        (x ^ (1u16 << k)) < 1024,
{
}

/// Inclusive-or with one bit sets that bit and leaves the others.
pub proof fn lemma_set16(x: u16, k: u16, m: u16)
    by (bit_vector)
    requires
        k < 10,
        m < 10,
        x < 1024,
    ensures
        bit16(x | (1u16 << k), m) == (m == k || bit16(x, m)),
        (x | (1u16 << k)) < 1024,
{
}

/// Masking one bit out clears that bit and leaves the others.
pub proof fn lemma_clear16(x: u16, k: u16, m: u16)
    by (bit_vector)
    requires
        k < 10,
        m < 10,
        x < 1024,
    ensures
        bit16(x & !(1u16 << k), m) == (m != k && bit16(x, m)),
        (x & !(1u16 << k)) < 1024,
{
}

/// A ten-bit mask has all ten bits set exactly when it is `0x3ff`.
pub proof fn lemma_full16(x: u16)
    by (bit_vector)
    requires
        x < 1024,
    ensures
        (x == 0x3ff) == (bit16(x, 0) && bit16(x, 1) && bit16(x, 2) && bit16(x, 3) && bit16(x, 4)
            && bit16(x, 5) && bit16(x, 6) && bit16(x, 7) && bit16(x, 8) && bit16(x, 9)),
{
}

/// No bit of zero is set.
pub proof fn lemma_zero32(k: u32)
    by (bit_vector)
    requires
        k < 32,
    ensures
        !bit32(0, k),
{
}

/// Exclusive-or with one bit inverts that bit and leaves the others.
pub proof fn lemma_flip32(x: u32, k: u32, m: u32)
    by (bit_vector)
    requires
        k < 20,
        m < 21,
        x < 0x10_0000,
    ensures
        bit32(x ^ (1u32 << k), m) == (if m == k {
            !bit32(x, m)
        } else {
            bit32(x, m)
        }),
        (x ^ (1u32 << k)) < 0x10_0000,
{
}

/// Inclusive-or with one bit sets that bit and leaves the others.
pub proof fn lemma_set32(x: u32, k: u32, m: u32)
    by (bit_vector)
    requires
        k < 20,
        m < 21,
        x < 0x10_0000,
    ensures
        bit32(x | (1u32 << k), m) == (m == k || bit32(x, m)),
        (x | (1u32 << k)) < 0x10_0000,
{
}

/// Masking one bit out clears that bit and leaves the others.
pub proof fn lemma_clear32(x: u32, k: u32, m: u32)
    by (bit_vector)
    requires
        k < 20,
        m < 21,
        x < 0x10_0000,
    ensures
        bit32(x & !(1u32 << k), m) == (m != k && bit32(x, m)),
        (x & !(1u32 << k)) < 0x10_0000,
{
}

/// Bits 20 and above of a twenty-bit mask are clear.
pub proof fn lemma_high_bits_clear32(x: u32, k: u32)
    by (bit_vector)
    requires
        x < 0x10_0000,
        20 <= k < 32,
    ensures
        !bit32(x, k),
{
}

/// Testing a bit by shifting the mask down or by shifting a one up.
pub proof fn lemma_bit_forms32(x: u32, k: u32)
    by (bit_vector)
    requires
        k < 32,
    ensures
        ((x >> k) & 1u32 != 0u32) == bit32(x, k),
{
}

/// Dropping bit `k` of a twenty-bit mask: the bits below it stay, the bits
/// above it move down by one.
pub proof fn lemma_drop_bit32(x: u32, k: u32, m: u32)
    by (bit_vector)
    requires
        x < 0x10_0000,
        k < 20,
        m < 20,
    ensures
        ({
            let keep = ((1u32 << k) - 1u32) as u32;
            let y = !keep & (x >> 1u32) | keep & x;
            &&& y < 0x10_0000
            &&& bit32(y, m) == (if m < k {
                bit32(x, m)
            } else {
                bit32(x, (m + 1u32) as u32)
            })
        }),
{
}

/// A mask equal to `2^h - 1` has every bit below `h` set.
pub proof fn lemma_low_ones32(x: u32, h: u32, k: u32)
    by (bit_vector)
    requires
        h <= 20,
        k < h,
        x == ((1u32 << h) - 1u32) as u32,
    ensures
        bit32(x, k),
{
}

} // verus!
