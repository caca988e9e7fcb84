//! Serial-number arithmetic on 16-bit block numbers.
//!
//! Block numbers wrap around after 65535, so transfers longer than
//! 2^16 blocks compare block numbers by the forward distance on the
//! circle of 16-bit values: `a` precedes `b` when walking forward from
//! `a` reaches `b` in fewer than 2^15 steps. Two values exactly 2^15
//! apart are unordered: neither precedes the other.

use vstd::prelude::*;

verus! {

/// Number of 16-bit values; block numbers live on a circle of this size.
pub const SERIAL_MODULUS: u32 = 0x1_0000;

/// Forward distance on the circle from `a` to `b`: how many upward
/// steps (with wrap-around) lead from `a` to `b`. Always in `[0, 2^16)`.
pub open spec fn serial_distance(a: u16, b: u16) -> int {
    if b >= a {
        b - a
    } else {
        b + 0x1_0000 - a
    }
}

/// `a` precedes `b` in serial-number order: the forward distance from
/// `a` to `b` is strictly between 0 and 2^15.
pub open spec fn serial_precedes(a: u16, b: u16) -> bool {
    a != b && serial_distance(a, b) < 0x8000
}

/// Adding `n` to `a`, modulo 2^16.
pub open spec fn serial_add(a: u16, n: int) -> u16 {
    (((a + n) % 0x1_0000 + 0x1_0000) % 0x1_0000) as u16
}

/// Wrap-around addition of a step count to a block number.
pub fn serial_add16(a: u16, n: u16) -> (r: u16)
    ensures
        r == serial_add(a, n as int),
{
    let s: u32 = (a as u32 + n as u32) % SERIAL_MODULUS;
    s as u16
}

/// Forward distance from `a` to `b` as a 16-bit count.
pub fn serial_distance16(a: u16, b: u16) -> (r: u16)
    ensures
        r == serial_distance(a, b),
{
    if b >= a {
        b - a
    } else {
        let d: u32 = b as u32 + SERIAL_MODULUS - a as u32;
        d as u16
    }
}

/// Serial-number `<`: true when `a` precedes `b`.
pub fn serial_lt16(a: u16, b: u16) -> (r: bool)
    ensures
        r == serial_precedes(a, b),
{
    if a == b {
        false
    } else {
        serial_distance16(a, b) < 0x8000
    }
}

/// Serial-number `>`: true when `b` precedes `a`.
pub fn serial_gt16(a: u16, b: u16) -> (r: bool)
    ensures
        r == serial_precedes(b, a),
{
    serial_lt16(b, a)
}

/// Stepping forward twice is one step by the sum.
pub proof fn lemma_serial_add_chain(a: u16, m: int, n: int)
    requires
        0 <= m,
        0 <= n,
    ensures
        serial_add(serial_add(a, m), n) == serial_add(a, m + n),
{
    let big = 0x1_0000int;
    let s1 = ((a + m) % big + big) % big;
    assert(s1 == (a + m) % big && 0 <= s1 < big) by (nonlinear_arith)
        requires
            big == 0x1_0000,
            s1 == ((a + m) % big + big) % big,
            a >= 0,
            m >= 0,
    ;
    assert(serial_add(a, m) == s1);
    let s2 = ((s1 + n) % big + big) % big;
    assert(s2 == (a + m + n) % big && 0 <= s2 < big) by (nonlinear_arith)
        requires
            big == 0x1_0000,
            s2 == ((s1 + n) % big + big) % big,
            s1 == (a + m) % big,
            a >= 0,
            m >= 0,
            n >= 0,
    ;
    assert(serial_add(serial_add(a, m), n) == s2);
    assert(serial_add(a, m + n) == ((a + m + n) % big + big) % big);
    assert(((a + m + n) % big + big) % big == (a + m + n) % big) by (nonlinear_arith)
        requires
            big == 0x1_0000,
            a >= 0,
            m >= 0,
            n >= 0,
    ;
}

} // verus!
