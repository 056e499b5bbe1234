//! The arithmetic of the register-to-register group. Each operation gives
//! the new value of `Vx` and the flag for `VF`, both computed from the
//! operands as they were before the operation.

use vstd::prelude::*;

verus! {

/// The flag register's value for a condition: 1 where it holds, else 0.
pub open spec fn flag(condition: bool) -> u8 {
    if condition {
        1
    } else {
        0
    }
}

/// `a + b` truncated to 8 bits, and the carry: 1 exactly if the sum
/// exceeds 255.
pub open spec fn add_carry_spec(a: u8, b: u8) -> (u8, u8) {
    (((a + b) % 256) as u8, flag(a + b > 255))
}

/// `a - b` with 8-bit wrap-around, and the not-borrow flag: 1 exactly if
/// `a >= b`.
pub open spec fn sub_borrow_spec(a: u8, b: u8) -> (u8, u8) {
    (((a - b) % 256) as u8, flag(a >= b))
}

/// `a` shifted right by one, and the bit that fell off: the low bit of `a`.
pub open spec fn shift_right_spec(a: u8) -> (u8, u8) {
    ((a / 2) as u8, (a % 2) as u8)
}

/// `a` shifted left by one and truncated to 8 bits, and the bit that fell
/// off: the high bit of `a`.
pub open spec fn shift_left_spec(a: u8) -> (u8, u8) {
    (((a * 2) % 256) as u8, (a / 128) as u8)
}

/// The hundreds, tens and units digits of `value`.
pub open spec fn bcd_spec(value: u8) -> (u8, u8, u8) {
    ((value / 100) as u8, ((value / 10) % 10) as u8, (value % 10) as u8)
}

/// Adds with carry.
pub fn add_carry(a: u8, b: u8) -> (r: (u8, u8))
    ensures
        r == add_carry_spec(a, b),
        r.1 == 1 <==> a + b > 255,
        r.0 == (a + b) % 256,
{
    let sum: u16 = a as u16 + b as u16;
    let carry: u8 = if sum > 255 {
        1
    } else {
        0
    };
    ((sum % 256) as u8, carry)
}

/// Subtracts with wrap-around and not-borrow.
pub fn sub_borrow(a: u8, b: u8) -> (r: (u8, u8))
    ensures
        r == sub_borrow_spec(a, b),
        r.1 == 1 <==> a >= b,
        r.0 == (a - b) % 256,
{
    if a >= b {
        (a - b, 1)
    } else {
        let wrapped: u16 = 256 + a as u16 - b as u16;
        (wrapped as u8, 0)
    }
}

/// Shifts right by one, keeping the low bit as the flag.
pub fn shift_right(a: u8) -> (r: (u8, u8))
    ensures
        r == shift_right_spec(a),
{
    assert(a >> 1 == a / 2) by (bit_vector);
    assert(a & 1 == a % 2) by (bit_vector);
    (a >> 1, a & 1)
}

/// Shifts left by one, keeping the high bit as the flag.
pub fn shift_left(a: u8) -> (r: (u8, u8))
    ensures
        r == shift_left_spec(a),
{
    assert((a & 0x7F) << 1 == (a * 2) % 256) by (bit_vector);
    assert(a >> 7 == a / 128) by (bit_vector);
    ((a & 0x7F) << 1, a >> 7)
}

/// Splits a byte into its three decimal digits.
pub fn bcd(value: u8) -> (digits: (u8, u8, u8))
    ensures
        digits == bcd_spec(value),
        digits.0 * 100 + digits.1 * 10 + digits.2 == value,
        digits.0 < 10 && digits.1 < 10 && digits.2 < 10,
{
    (value / 100, (value / 10) % 10, value % 10)
}

} // verus!
