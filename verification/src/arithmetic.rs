//! Arithmetic on bytes, with the flag that tells what a byte could not hold.

use vstd::prelude::*;

verus! {

/// The sum of two bytes, cut to a byte, and whether it was cut: the carry.
pub open spec fn sum_of(a: u8, b: u8) -> (u8, bool) {
    (((a + b) % 256) as u8, a + b > 255)
}

/// The difference `a - b` of two bytes, wrapped into a byte, and whether it
/// wrapped: the borrow.
pub open spec fn difference_of(a: u8, b: u8) -> (u8, bool) {
    (((a - b) % 256) as u8, a < b)
}

/// A byte shifted right by one bit, and whether the bit shifted out, its
/// lowest, was set.
pub open spec fn halved(a: u8) -> (u8, bool) {
    ((a / 2) as u8, a % 2 == 1)
}

/// A byte shifted left by one bit, and whether the bit shifted out, its
/// highest, was set.
pub open spec fn doubled(a: u8) -> (u8, bool) {
    (((a * 2) % 256) as u8, a >= 128)
}

/// The number that a flag stands for: 1 if it is raised, else 0.
pub open spec fn flag_value(raised: bool) -> u8 {
    if raised {
        1u8
    } else {
        0u8
    }
}

/// The flag completes what the byte cannot hold: the result and 256 for a
/// carry make up the sum.
pub proof fn lemma_sum_of(a: u8, b: u8)
    ensures
        sum_of(a, b).0 + 256 * flag_value(sum_of(a, b).1) == a + b,
{
}

/// The result less 256 for a borrow is the difference.
pub proof fn lemma_difference_of(a: u8, b: u8)
    ensures
        difference_of(a, b).0 - 256 * flag_value(difference_of(a, b).1) == a - b,
{
}

/// Twice the result and the bit shifted out make up the byte.
pub proof fn lemma_halved(a: u8)
    ensures
        2 * halved(a).0 + flag_value(halved(a).1) == a,
{
}

/// The result and 256 for the bit shifted out make up twice the byte.
pub proof fn lemma_doubled(a: u8)
    ensures
        doubled(a).0 + 256 * flag_value(doubled(a).1) == 2 * a,
{
}

/// Adds two bytes.
pub fn add_bytes(a: u8, b: u8) -> (result: (u8, bool))
    ensures
        result == sum_of(a, b),
{
    (a.wrapping_add(b), b > 0xFF - a)
}

/// Subtracts the byte `b` from the byte `a`.
pub fn subtract_bytes(a: u8, b: u8) -> (result: (u8, bool))
    ensures
        result == difference_of(a, b),
{
    (a.wrapping_sub(b), a < b)
}

/// Shifts a byte right by one bit.
pub fn shift_right(a: u8) -> (result: (u8, bool))
    ensures
        result == halved(a),
{
    let shifted: u8 = a >> 1;
    let lsb: u8 = a & 1;
    assert(shifted == a / 2 && lsb == a % 2) by (bit_vector)
        requires
            shifted == a >> 1,
            lsb == a & 1,
    ;
    (shifted, lsb == 1)
}

/// Shifts a byte left by one bit.
pub fn shift_left(a: u8) -> (result: (u8, bool))
    ensures
        result == doubled(a),
{
    let shifted: u8 = a << 1;
    let msb: u8 = (a >> 7) & 1;
    assert(shifted == (a * 2) % 256 && (msb == 1) == (a >= 128)) by (bit_vector)
        requires
            shifted == a << 1,
            msb == (a >> 7) & 1,
    ;
    (shifted, msb == 1)
}

} // verus!
