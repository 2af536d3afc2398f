use vstd::prelude::*;

verus! {

/// Ten to the power `e`.
pub open spec fn pow10(e: int) -> int
    decreases e,
{
    if e <= 0 {
        1
    } else {
        10 * pow10(e - 1)
    }
}

/// The codepoint shown at position `i` of a five-digit, right-aligned line
/// number: the decimal digit of `value` at that position, or a space where
/// only zeros would stand to the left of the first significant digit.
pub open spec fn digit_codepoint(value: int, i: int) -> int {
    let q = value / pow10(4 - i);
    if q % pow10(i + 1) == 0 {
        32
    } else {
        48 + q % 10
    }
}

/// Converts the digits of an integer to unicode codepoints, right aligned in
/// a field of five, with leading zeros shown as spaces.
pub fn digits(value: u32) -> (r: [u32; 5])
    ensures
        forall|i: int| 0 <= i < 5 ==> r@[i] == digit_codepoint(value as int, i),
{
    proof {
        assert(pow10(0) == 1);
        assert(pow10(1) == 10);
        assert(pow10(2) == 100);
        assert(pow10(3) == 1000);
        assert(pow10(4) == 10000);
        assert(pow10(5) == 100000);
    }
    let q0 = value / 10000;
    let q1 = value / 1000;
    let q2 = value / 100;
    let q3 = value / 10;
    let q4 = value;
    let c0 = if q0 % 10 == 0 {
        32
    } else {
        48 + q0 % 10
    };
    let c1 = if q1 % 100 == 0 {
        32
    } else {
        48 + q1 % 10
    };
    let c2 = if q2 % 1000 == 0 {
        32
    } else {
        48 + q2 % 10
    };
    let c3 = if q3 % 10000 == 0 {
        32
    } else {
        48 + q3 % 10
    };
    let c4 = if q4 % 100000 == 0 {
        32
    } else {
        48 + q4 % 10
    };
    [c0, c1, c2, c3, c4]
}

} // verus!
