//! Numeric encoding: the precision threshold and decimal strings.
//!
//! An integer is encoded as a plain number only if its magnitude fits
//! losslessly in the 53-bit mantissa of an IEEE-754 double; otherwise it is
//! encoded as an arbitrary-precision number backed by its decimal string.

use vstd::prelude::*;
use vstd::string::StringExecFns;

use crate::value::{DynModel, DynamicValue};

verus! {

/// The largest integer magnitude that an IEEE-754 double represents exactly:
/// two to the 53rd power, minus one. The same threshold applies to signed and
/// unsigned integers of every width.
pub const SAFE_MAGNITUDE: i128 = 9007199254740991;

/// The magnitude of the smallest 128-bit signed integer: two to the 127th.
pub const MIN_SIGNED_MAGNITUDE: u128 = 170141183460469231731687303715884105728;

/// The decimal digit character for `d`, which must be between 0 and 9.
pub open spec fn digit_char(d: int) -> char {
    if d == 0 {
        '0'
    } else if d == 1 {
        '1'
    } else if d == 2 {
        '2'
    } else if d == 3 {
        '3'
    } else if d == 4 {
        '4'
    } else if d == 5 {
        '5'
    } else if d == 6 {
        '6'
    } else if d == 7 {
        '7'
    } else if d == 8 {
        '8'
    } else {
        '9'
    }
}

/// The numeric value of a decimal digit character; 0 for any other character.
pub open spec fn digit_value(c: char) -> nat {
    if c == '0' {
        0
    } else if c == '1' {
        1
    } else if c == '2' {
        2
    } else if c == '3' {
        3
    } else if c == '4' {
        4
    } else if c == '5' {
        5
    } else if c == '6' {
        6
    } else if c == '7' {
        7
    } else if c == '8' {
        8
    } else if c == '9' {
        9
    } else {
        0
    }
}

/// The decimal digit string of a natural number, most significant digit
/// first, with no leading zeros (zero itself is the single digit `0`).
pub open spec fn dec_digits(n: nat) -> Seq<char>
    decreases n,
{
    if n < 10 {
        seq![digit_char(n as int)]
    } else {
        dec_digits(n / 10) + seq![digit_char((n % 10) as int)]
    }
}

/// The decimal string of an integer: the digit string of its magnitude,
/// preceded by a minus sign when the integer is negative.
pub open spec fn dec_string(n: int) -> Seq<char> {
    if n < 0 {
        seq!['-'] + dec_digits((-n) as nat)
    } else {
        dec_digits(n as nat)
    }
}

/// The natural number denoted by a decimal digit string, read left to right.
pub open spec fn parse_dec_digits(s: Seq<char>) -> nat
    decreases s.len(),
{
    if s.len() == 0 {
        0
    } else {
        parse_dec_digits(s.drop_last()) * 10 + digit_value(s.last())
    }
}

/// The integer denoted by a decimal string with an optional leading minus.
pub open spec fn parse_dec_string(s: Seq<char>) -> int {
    if s.len() > 0 && s[0] == '-' {
        -(parse_dec_digits(s.drop_first()) as int)
    } else {
        parse_dec_digits(s) as int
    }
}

/// Parsing the decimal digit string of a natural number gives it back
/// exactly.
pub proof fn lemma_dec_digits_roundtrip(n: nat)
    ensures
        parse_dec_digits(dec_digits(n)) == n,
    decreases n,
{
    if n < 10 {
        let s = dec_digits(n);
        assert(s == seq![digit_char(n as int)]);
        assert(s.drop_last() =~= Seq::<char>::empty());
        assert(parse_dec_digits(s.drop_last()) == 0);
        assert(s.last() == digit_char(n as int));
        assert(digit_value(digit_char(n as int)) == n);
    } else {
        lemma_dec_digits_roundtrip(n / 10);
        let s = dec_digits(n);
        assert(s == dec_digits(n / 10) + seq![digit_char((n % 10) as int)]);
        assert(s.last() == digit_char((n % 10) as int));
        assert(s.drop_last() =~= dec_digits(n / 10));
        assert(digit_value(digit_char((n % 10) as int)) == n % 10);
        assert(parse_dec_digits(s) == (n / 10) * 10 + n % 10);
    }
}

/// A decimal digit string never starts with a minus sign.
pub proof fn lemma_dec_digits_no_sign(n: nat)
    ensures
        dec_digits(n).len() > 0,
        dec_digits(n)[0] != '-',
    decreases n,
{
    if n >= 10 {
        lemma_dec_digits_no_sign(n / 10);
        assert(dec_digits(n)[0] == dec_digits(n / 10)[0]);
    }
}

/// Parsing the decimal string of an integer gives it back exactly.
pub proof fn lemma_dec_string_roundtrip(n: int)
    ensures
        parse_dec_string(dec_string(n)) == n,
{
    if n < 0 {
        let digits = dec_digits((-n) as nat);
        let s = seq!['-'] + digits;
        assert(s[0] == '-');
        assert(s.drop_first() =~= digits);
        lemma_dec_digits_roundtrip((-n) as nat);
    } else {
        lemma_dec_digits_no_sign(n as nat);
        lemma_dec_digits_roundtrip(n as nat);
    }
}

/// The digit of `d`, which must be below 10, as a one-character string slice.
fn digit_str(d: u128) -> (r: &'static str)
    requires
        d < 10,
    ensures
        r@ == seq![digit_char(d as int)],
{
    proof {
        reveal_strlit("0");
        reveal_strlit("1");
        reveal_strlit("2");
        reveal_strlit("3");
        reveal_strlit("4");
        reveal_strlit("5");
        reveal_strlit("6");
        reveal_strlit("7");
        reveal_strlit("8");
        reveal_strlit("9");
    }
    if d == 0 {
        "0"
    } else if d == 1 {
        "1"
    } else if d == 2 {
        "2"
    } else if d == 3 {
        "3"
    } else if d == 4 {
        "4"
    } else if d == 5 {
        "5"
    } else if d == 6 {
        "6"
    } else if d == 7 {
        "7"
    } else if d == 8 {
        "8"
    } else {
        "9"
    }
}

/// Prepends the decimal digits of `n` to `tail`.
fn push_dec_digits(n: u128, tail: String) -> (r: String)
    ensures
        r@ == dec_digits(n as nat) + tail@,
    decreases n,
{
    let d = n % 10;
    let prefixed = String::from_str(digit_str(d)).concat(tail.as_str());
    if n < 10 {
        proof {
            assert(prefixed@ =~= dec_digits(n as nat) + tail@);
        }
        prefixed
    } else {
        let r = push_dec_digits(n / 10, prefixed);
        proof {
            assert(r@ =~= dec_digits(n as nat) + tail@);
        }
        r
    }
}

/// The decimal digit string of an unsigned integer.
pub fn dec_string_unsigned(n: u128) -> (r: String)
    ensures
        r@ == dec_digits(n as nat),
{
    let r = push_dec_digits(n, String::new());
    proof {
        assert(r@ =~= dec_digits(n as nat));
    }
    r
}

/// The decimal string of a signed integer.
pub fn dec_string_signed(n: i128) -> (r: String)
    ensures
        r@ == dec_string(n as int),
{
    if n >= 0 {
        dec_string_unsigned(n as u128)
    } else {
        let magnitude: u128 = if n == i128::MIN {
            MIN_SIGNED_MAGNITUDE
        } else {
            (-n) as u128
        };
        assert(magnitude as int == -(n as int));
        let digits = push_dec_digits(magnitude, String::new());
        proof {
            reveal_strlit("-");
            assert(digits@ =~= dec_digits((-(n as int)) as nat));
        }
        let r = String::from_str("-").concat(digits.as_str());
        proof {
            assert(r@ =~= dec_string(n as int));
        }
        r
    }
}

/// The dynamic encoding of a signed integer: a plain number when the
/// magnitude is at most [`SAFE_MAGNITUDE`], else a big number backed by the
/// decimal string.
pub open spec fn spec_encode_signed(n: int) -> DynModel {
    if -(SAFE_MAGNITUDE as int) <= n <= SAFE_MAGNITUDE as int {
        DynModel::Number(n)
    } else {
        DynModel::BigNumber(dec_string(n))
    }
}

/// The dynamic encoding of an unsigned integer: a plain number when the value
/// is at most [`SAFE_MAGNITUDE`], else a big number backed by the decimal
/// string.
pub open spec fn spec_encode_unsigned(n: int) -> DynModel {
    if n <= SAFE_MAGNITUDE as int {
        DynModel::Number(n)
    } else {
        DynModel::BigNumber(dec_digits(n as nat))
    }
}

/// Encodes a signed integer, applying the precision threshold.
pub fn encode_signed(n: i128) -> (d: DynamicValue)
    ensures
        d@ == spec_encode_signed(n as int),
{
    if -SAFE_MAGNITUDE <= n && n <= SAFE_MAGNITUDE {
        DynamicValue::Number(n)
    } else {
        DynamicValue::BigNumber(dec_string_signed(n))
    }
}

/// Encodes an unsigned integer, applying the precision threshold.
pub fn encode_unsigned(n: u128) -> (d: DynamicValue)
    ensures
        d@ == spec_encode_unsigned(n as int),
{
    if n <= SAFE_MAGNITUDE as u128 {
        DynamicValue::Number(n as i128)
    } else {
        DynamicValue::BigNumber(dec_string_unsigned(n))
    }
}

} // verus!
