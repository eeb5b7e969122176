//! Hexadecimal digits: what a digit is worth, and which digit stands for a
//! value.
use vstd::prelude::*;
use crate::ascii::{DIGIT_0, DIGIT_9, HYPHEN, LOWER_A, LOWER_F, UPPER_A, UPPER_F};

verus! {

/// An ASCII hexadecimal digit, in either case.
pub open spec fn is_hex_digit(b: u8) -> bool {
    ||| (DIGIT_0 <= b && b <= DIGIT_9)
    ||| (LOWER_A <= b && b <= LOWER_F)
    ||| (UPPER_A <= b && b <= UPPER_F)
}

/// The value of an ASCII hexadecimal digit (0 for any other byte).
pub open spec fn hex_digit_value(b: u8) -> int {
    if DIGIT_0 <= b && b <= DIGIT_9 {
        b - DIGIT_0
    } else if LOWER_A <= b && b <= LOWER_F {
        b - LOWER_A + 10
    } else if UPPER_A <= b && b <= UPPER_F {
        b - UPPER_A + 10
    } else {
        0
    }
}

/// The byte written by two hexadecimal digits, high nibble first.
pub open spec fn hex_pair_value(hi: u8, lo: u8) -> u8 {
    (hex_digit_value(hi) * 16 + hex_digit_value(lo)) as u8
}

/// The lower-case hexadecimal digit for a value below 16.
pub open spec fn lower_hex_digit(n: int) -> u8
    recommends
        0 <= n < 16,
{
    if n < 10 {
        (DIGIT_0 + n) as u8
    } else {
        (LOWER_A + n - 10) as u8
    }
}

/// The value of a hexadecimal digit, or `0xff` for a byte that is no
/// hexadecimal digit.
pub(crate) fn hex_value(b: u8) -> (r: u8)
    ensures
        is_hex_digit(b) ==> r == hex_digit_value(b),
        is_hex_digit(b) ==> r < 16,
        !is_hex_digit(b) ==> r == 0xff,
{
    if DIGIT_0 <= b && b <= DIGIT_9 {
        b - DIGIT_0
    } else if LOWER_A <= b && b <= LOWER_F {
        b - LOWER_A + 10
    } else if UPPER_A <= b && b <= UPPER_F {
        b - UPPER_A + 10
    } else {
        0xff
    }
}

/// The lower-case hexadecimal digit for `n`.
pub(crate) fn lower_hex_char(n: u8) -> (r: u8)
    requires
        n < 16,
    ensures
        r == lower_hex_digit(n as int),
{
    if n < 10 {
        DIGIT_0 + n
    } else {
        LOWER_A + (n - 10)
    }
}

/// The byte written by two hexadecimal digits.
pub(crate) fn hex_pair(hi: u8, lo: u8) -> (r: u8)
    requires
        hi < 16,
        lo < 16,
    ensures
        r == hi * 16 + lo,
{
    hi * 16 + lo
}

/// A lower-case digit is a hexadecimal digit, worth the value it was made
/// for, and no hyphen.
pub proof fn lemma_lower_hex_digit(n: int)
    requires
        0 <= n < 16,
    ensures
        is_hex_digit(lower_hex_digit(n)),
        hex_digit_value(lower_hex_digit(n)) == n,
        lower_hex_digit(n) != HYPHEN,
{
}

/// Writing a byte as two lower-case digits and reading them back gives the
/// byte.
pub proof fn lemma_hex_pair_of_byte(b: u8)
    ensures
        hex_pair_value(lower_hex_digit((b / 16) as int), lower_hex_digit((b % 16) as int)) == b,
{
    lemma_lower_hex_digit((b / 16) as int);
    lemma_lower_hex_digit((b % 16) as int);
    assert((b / 16) * 16 + b % 16 == b) by (nonlinear_arith);
}

/// The digit as it is written in lower case.
pub open spec fn lower_case_digit(b: u8) -> u8 {
    if UPPER_A <= b && b <= UPPER_F {
        (b + (LOWER_A - UPPER_A)) as u8
    } else {
        b
    }
}

/// The digit as it is written in upper case.
pub open spec fn upper_case_digit(b: u8) -> u8 {
    if LOWER_A <= b && b <= LOWER_F {
        (b - (LOWER_A - UPPER_A)) as u8
    } else {
        b
    }
}

/// Case does not matter to a digit: a byte and its upper- or lower-case
/// form are digits alike, and worth the same.
pub proof fn lemma_digit_case(b: u8)
    ensures
        is_hex_digit(upper_case_digit(b)) == is_hex_digit(b),
        is_hex_digit(lower_case_digit(b)) == is_hex_digit(b),
        hex_digit_value(upper_case_digit(b)) == hex_digit_value(b),
        hex_digit_value(lower_case_digit(b)) == hex_digit_value(b),
        upper_case_digit(b) == HYPHEN <==> b == HYPHEN,
        lower_case_digit(b) == HYPHEN <==> b == HYPHEN,
{
}

/// Reading a digit and writing its value gives the digit in lower case.
pub proof fn lemma_hex_digit_rewritten(d: u8)
    requires
        is_hex_digit(d),
    ensures
        0 <= hex_digit_value(d) < 16,
        lower_hex_digit(hex_digit_value(d)) == lower_case_digit(d),
{
}

/// The byte written by two digits has the first digit's value as its high
/// nibble and the second's as its low nibble.
pub proof fn lemma_hex_pair_nibbles(hi: u8, lo: u8)
    requires
        is_hex_digit(hi),
        is_hex_digit(lo),
    ensures
        hex_pair_value(hi, lo) / 16 == hex_digit_value(hi),
        hex_pair_value(hi, lo) % 16 == hex_digit_value(lo),
{
    let a: int = hex_digit_value(hi);
    let b: int = hex_digit_value(lo);
    assert(0 <= a < 16 && 0 <= b < 16);
    assert((a * 16 + b) / 16 == a && (a * 16 + b) % 16 == b && a * 16 + b < 256) by (nonlinear_arith)
        requires
            0 <= a < 16,
            0 <= b < 16,
    ;
}

} // verus!
