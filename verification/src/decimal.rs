//! Decimal text of 64-bit integers, as IDs are written and read.
use vstd::prelude::*;

verus! {

/// The character of a decimal digit.
pub open spec fn digit_char(d: int) -> char {
    if d == 0 {
        '0'
    } else if d == 1 {
        '1'
    } else if d == 2 {
        '2'
    } else if d == 3 {
        '3'
    } else if d == 4 {
        '4'
    } else if d == 5 {
        '5'
    } else if d == 6 {
        '6'
    } else if d == 7 {
        '7'
    } else if d == 8 {
        '8'
    } else {
        '9'
    }
}

/// An ASCII decimal digit.
pub open spec fn is_digit(c: char) -> bool {
    '0' <= c <= '9'
}

/// The value of an ASCII decimal digit.
pub open spec fn digit_value(c: char) -> int {
    c as int - '0' as int
}

/// The digits of a natural number, most significant first, without leading zeros.
pub open spec fn decimal_digits(n: nat) -> Seq<char>
    decreases n,
{
    if n < 10 {
        seq![digit_char(n as int)]
    } else {
        decimal_digits(n / 10).push(digit_char((n % 10) as int))
    }
}

/// The decimal text of an integer: a `-` before the digits of a negative one.
pub open spec fn decimal_string(v: int) -> Seq<char> {
    if v < 0 {
        seq!['-'] + decimal_digits((-v) as nat)
    } else {
        decimal_digits(v as nat)
    }
}

/// The value of a run of digits.
pub open spec fn digits_value(s: Seq<char>) -> int
    decreases s.len(),
{
    if s.len() == 0 {
        0
    } else {
        digits_value(s.drop_last()) * 10 + digit_value(s.last())
    }
}

/// What a text reads as in base 10: an optional `+` or `-`, then one or more ASCII digits,
/// nothing else, and a value that fits an `i64`.
pub open spec fn parse_decimal(s: Seq<char>) -> Option<int> {
    let signed = s.len() > 0 && (s[0] == '+' || s[0] == '-');
    let digits = if signed {
        s.drop_first()
    } else {
        s
    };
    let magnitude = digits_value(digits);
    let v = if signed && s[0] == '-' {
        -magnitude
    } else {
        magnitude
    };
    if digits.len() > 0 && (forall|i: int| 0 <= i < digits.len() ==> is_digit(#[trigger] digits[i]))
        && i64::MIN <= v <= i64::MAX {
        Some(v)
    } else {
        None
    }
}

/// std's `ParseIntError`.
#[verifier::external_type_specification]
#[verifier::external_body]
pub struct ExParseIntError(std::num::ParseIntError);

/// std's `FromStr` for `i64` (`str::parse::<i64>`).
///
/// Trusted: as std documents it, the text is read in base 10 with an optional `+` or `-`
/// sign and no whitespace, and the result is an error exactly where the text is not of that
/// form or its value does not fit an `i64`. Which error comes back is not stated.
#[verifier::external_body]
pub(crate) fn parse_i64(src: &str) -> (r: Result<i64, std::num::ParseIntError>)
    ensures
        r is Ok <==> parse_decimal(src@) is Some,
        r matches Ok(v) ==> parse_decimal(src@) == Some(v as int),
{
    src.parse::<i64>()
}

/// std's `ToString` for `i64`, through its `Display`.
///
/// Trusted: the text is the decimal digits of the value without leading zeros, after a `-`
/// where it is negative.
#[verifier::external_body]
pub(crate) fn i64_to_string(v: i64) -> (s: String)
    ensures
        s@ == decimal_string(v as int),
{
    v.to_string()
}

proof fn lemma_digit_char(d: int)
    requires
        0 <= d < 10,
    ensures
        is_digit(digit_char(d)),
        digit_value(digit_char(d)) == d,
{
}

proof fn lemma_decimal_digits(n: nat)
    ensures
        decimal_digits(n).len() > 0,
        forall|i: int|
            0 <= i < decimal_digits(n).len() ==> is_digit(#[trigger] decimal_digits(n)[i]),
        digits_value(decimal_digits(n)) == n,
    decreases n,
{
    if n < 10 {
        lemma_digit_char(n as int);
        let s = decimal_digits(n);
        assert(s.drop_last() =~= Seq::<char>::empty());
        assert(digits_value(s.drop_last()) == 0);
        assert(s.last() == digit_char(n as int));
        assert(digits_value(s) == n);
    } else {
        lemma_decimal_digits(n / 10);
        lemma_digit_char((n % 10) as int);
        let s = decimal_digits(n);
        assert(s.drop_last() =~= decimal_digits(n / 10));
        assert(s.last() == digit_char((n % 10) as int));
        assert((n / 10) * 10 + n % 10 == n);
        assert(digits_value(s) == digits_value(decimal_digits(n / 10)) * 10 + (n % 10));
        assert forall|i: int| 0 <= i < s.len() implies is_digit(#[trigger] s[i]) by {
            if i < s.len() - 1 {
                assert(s[i] == decimal_digits(n / 10)[i]);
            }
        }
    }
}

/// Reading back the decimal text of an `i64` gives the same `i64`.
pub proof fn lemma_decimal_round_trip(v: i64)
    ensures
        parse_decimal(decimal_string(v as int)) == Some(v as int),
{
    let s = decimal_string(v as int);
    if v < 0 {
        let n = (-(v as int)) as nat;
        lemma_decimal_digits(n);
        assert(s.drop_first() =~= decimal_digits(n));
        assert(s[0] == '-');
    } else {
        lemma_decimal_digits(v as nat);
        assert(is_digit(s[0]));
    }
}

} // verus!
