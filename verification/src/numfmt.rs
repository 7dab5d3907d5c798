//! Decimal text for the integer and boolean values an event may carry.

use vstd::prelude::*;

verus! {

/// The decimal digit character for `d`, for `0 <= d <= 9`.
pub open spec fn spec_digit(d: int) -> char {
    if d == 0 {
        '0'
    } else if d == 1 {
        '1'
    } else if d == 2 {
        '2'
    } else if d == 3 {
        '3'
    } else if d == 4 {
        '4'
    } else if d == 5 {
        '5'
    } else if d == 6 {
        '6'
    } else if d == 7 {
        '7'
    } else if d == 8 {
        '8'
    } else {
        '9'
    }
}

/// The decimal digit sequence of a non-negative integer, most significant
/// digit first, with no leading zeros (a lone `0` for zero).
pub open spec fn spec_udec(n: nat) -> Seq<char>
    decreases n,
{
    if n < 10 {
        seq![spec_digit(n as int)]
    } else {
        spec_udec(n / 10) + seq![spec_digit((n % 10) as int)]
    }
}

/// The decimal text of a signed integer: a `-` sign before the magnitude
/// when negative.
pub open spec fn spec_idec(n: int) -> Seq<char> {
    if n < 0 {
        seq!['-'] + spec_udec((-n) as nat)
    } else {
        spec_udec(n as nat)
    }
}

/// The text of a boolean, as `true` or `false`.
pub open spec fn spec_bool_text(b: bool) -> Seq<char> {
    if b {
        "true"@
    } else {
        "false"@
    }
}

/// Appends one character to a string.
/// Relies on `String::push`: appends the given character to the end.
#[verifier::external_body]
pub(crate) fn push_char(s: &mut String, c: char)
    ensures
        final(s)@ == old(s)@.push(c),
{
    s.push(c);
}

fn digit_char(d: u8) -> (c: char)
    requires
        d <= 9,
    ensures
        c == spec_digit(d as int),
{
    if d == 0 {
        '0'
    } else if d == 1 {
        '1'
    } else if d == 2 {
        '2'
    } else if d == 3 {
        '3'
    } else if d == 4 {
        '4'
    } else if d == 5 {
        '5'
    } else if d == 6 {
        '6'
    } else if d == 7 {
        '7'
    } else if d == 8 {
        '8'
    } else {
        '9'
    }
}

/// The decimal text of an unsigned 128-bit integer.
pub fn u128_to_string(v: u128) -> (r: String)
    ensures
        r@ == spec_udec(v as nat),
    decreases v,
{
    if v < 10 {
        let mut r = String::new();
        push_char(&mut r, digit_char(v as u8));
        proof {
            assert(r@ =~= spec_udec(v as nat));
        }
        r
    } else {
        let mut r = u128_to_string(v / 10);
        push_char(&mut r, digit_char((v % 10) as u8));
        proof {
            assert(r@ =~= spec_udec(v as nat));
        }
        r
    }
}

/// The decimal text of a signed 128-bit integer.
pub fn i128_to_string(v: i128) -> (r: String)
    ensures
        r@ == spec_idec(v as int),
{
    if v >= 0 {
        u128_to_string(v as u128)
    } else {
        let m: u128 = ((-(v + 1)) as u128) + 1;
        proof {
            assert(m as int == -(v as int));
        }
        let mut r = String::new();
        push_char(&mut r, '-');
        let digits = u128_to_string(m);
        let r = r.concat(digits.as_str());
        proof {
            assert(r@ =~= spec_idec(v as int));
        }
        r
    }
}

/// The decimal text of an unsigned 64-bit integer.
pub fn u64_to_string(v: u64) -> (r: String)
    ensures
        r@ == spec_udec(v as nat),
{
    u128_to_string(v as u128)
}

/// The decimal text of a signed 64-bit integer.
pub fn i64_to_string(v: i64) -> (r: String)
    ensures
        r@ == spec_idec(v as int),
{
    i128_to_string(v as i128)
}

/// The text of a boolean.
pub fn bool_to_string(b: bool) -> (r: String)
    ensures
        r@ == spec_bool_text(b),
{
    if b {
        String::from_str("true")
    } else {
        String::from_str("false")
    }
}

} // verus!
