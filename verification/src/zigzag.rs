//! The zigzag transform: a bijection between signed and unsigned 64-bit
//! integers that maps values of small magnitude, of either sign, to small
//! unsigned values, so that they take few bytes under the prefix encoding.

use vstd::prelude::*;

verus! {

/// The value `zigzag_encode` maps `v` to: `0, -1, 1, -2, 2, ...` become
/// `0, 1, 2, 3, 4, ...`.
pub open spec fn zigzag_encoded(v: i64) -> u64 {
    if v >= 0 {
        (2 * v) as u64
    } else {
        (-2 * v - 1) as u64
    }
}

/// The value `zigzag_decode` maps `u` to: even values come from non-negative
/// inputs, odd values from negative ones.
pub open spec fn zigzag_decoded(u: u64) -> i64 {
    if u % 2 == 0 {
        (u / 2) as i64
    } else {
        (-((u + 1) / 2)) as i64
    }
}

/// Maps negative values to positive values, creating a sequence that
/// alternates between negative and positive values. This makes the value more
/// amenable to efficient prefix uvarint encoding.
pub fn zigzag_encode(v: i64) -> (r: u64)
    ensures
        r == zigzag_encoded(v),
{
    if v >= 0 {
        (v as u64) * 2
    } else {
        // -(v + 1) is the magnitude of v minus one; it cannot overflow, even
        // for i64::MIN, and 2 * it + 1 stays within u64.
        ((-(v + 1)) as u64) * 2 + 1
    }
}

/// Inverts `zigzag_encode()`.
pub fn zigzag_decode(u: u64) -> (r: i64)
    ensures
        r == zigzag_decoded(u),
{
    if u % 2 == 0 {
        (u / 2) as i64
    } else {
        -((u / 2) as i64) - 1
    }
}

/// The zigzag transform is invertible: decoding an encoded value returns the
/// original, for every `i64`.
pub proof fn lemma_zigzag_roundtrip(v: i64)
    ensures
        zigzag_decoded(zigzag_encoded(v)) == v,
{
}

/// The transform is invertible in the other direction as well: it is a
/// bijection over the full 64-bit domain.
pub proof fn lemma_zigzag_bijective(u: u64)
    ensures
        zigzag_encoded(zigzag_decoded(u)) == u,
{
}

/// The magnitude of a signed value, as an unbounded integer.
pub open spec fn magnitude(v: i64) -> int {
    if v >= 0 {
        v as int
    } else {
        -(v as int)
    }
}

/// The transform orders by magnitude: of two values, the one of strictly
/// smaller magnitude gets the strictly smaller unsigned image, so it never
/// encodes into more bytes.
pub proof fn lemma_zigzag_magnitude_order(a: i64, b: i64)
    requires
        magnitude(a) < magnitude(b),
    ensures
        zigzag_encoded(a) < zigzag_encoded(b),
{
}

} // verus!
