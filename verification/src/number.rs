//! Decimal numbers as text.

use vstd::prelude::*;
use vstd::string::StringExecFns;
use crate::text::{chars_of, is_trimmed, is_white_space};

verus! {

/// The character that writes a single digit.
pub open spec fn digit_char(d: nat) -> char {
    (48 + d) as char
}

/// A natural number in decimal, without leading zeros.
pub open spec fn decimal(n: nat) -> Seq<char>
    decreases n,
{
    if n < 10 {
        seq![digit_char(n)]
    } else {
        decimal(n / 10).push(digit_char(n % 10))
    }
}

/// An integer in decimal: a minus sign if it is negative, then its absolute value.
pub open spec fn signed_decimal(i: int) -> Seq<char> {
    if i < 0 {
        seq!['-'] + decimal((-i) as nat)
    } else {
        decimal(i as nat)
    }
}

/// Whether a character is a decimal digit.
pub open spec fn is_digit(c: char) -> bool {
    '0' <= c <= '9'
}

/// Whether every character of a text is a decimal digit.
pub open spec fn all_digits(s: Seq<char>) -> bool {
    forall|i: int| 0 <= i < s.len() ==> is_digit(#[trigger] s[i])
}

/// The number that a text of digits stands for.
pub open spec fn digits_value(s: Seq<char>) -> nat
    decreases s.len(),
{
    if s.len() == 0 {
        0
    } else {
        digits_value(s.drop_last()) * 10 + (s.last() as nat - 48) as nat
    }
}

/// The digits of a number that may begin with a sign.
pub open spec fn unsigned_part(s: Seq<char>) -> Seq<char> {
    if s.len() > 0 && (s.first() == '+' || s.first() == '-') {
        s.drop_first()
    } else {
        s
    }
}

/// The 32-bit integer that a text stands for: an optional sign and at least one digit, nothing
/// else, within the range of the type.
pub open spec fn parsed_i32(s: Seq<char>) -> Option<i32> {
    let digits = unsigned_part(s);
    let value = if s.len() > 0 && s.first() == '-' {
        -digits_value(digits)
    } else {
        digits_value(digits) as int
    };
    if digits.len() > 0 && all_digits(digits) && i32::MIN <= value <= i32::MAX {
        Some(value as i32)
    } else {
        None
    }
}

/// Writes a number in decimal.
pub fn decimal_text(n: u128) -> (r: String)
    ensures
        r@ == decimal(n as nat),
    decreases n,
{
    if n < 10 {
        let mut r = String::new();
        r.push((48u8 + n as u8) as char);
        assert(r@ == decimal(n as nat));
        r
    } else {
        let mut r = decimal_text(n / 10);
        r.push((48u8 + (n % 10) as u8) as char);
        r
    }
}

/// Writes a signed number in decimal.
pub fn signed_text(i: i32) -> (r: String)
    ensures
        r@ == signed_decimal(i as int),
{
    if i < 0 {
        let magnitude: u128 = (-(i as i64)) as u128;
        let mut r = String::new();
        r.push('-');
        let digits = decimal_text(magnitude);
        r.append(digits.as_str());
        assert(r@ == seq!['-'] + decimal((-i) as nat));
        r
    } else {
        decimal_text(i as u128)
    }
}

/// Reads a 32-bit integer, or nothing if the text is not one.
pub fn parse_i32(s: &str) -> (r: Option<i32>)
    ensures
        r == parsed_i32(s@),
{
    let chars = chars_of(s);
    let signed = chars.len() > 0 && (chars[0] == '+' || chars[0] == '-');
    let negative = chars.len() > 0 && chars[0] == '-';
    let from: usize = if signed {
        1
    } else {
        0
    };
    let ghost digits = unsigned_part(s@);
    if from == chars.len() {
        return None;
    }
    let mut value: i64 = 0;
    let mut too_large = false;
    let mut i: usize = from;
    assert(digits.take(0).len() == 0);
    while i < chars.len()
        invariant
            chars@ == s@,
            digits == unsigned_part(s@),
            from <= i <= chars.len(),
            digits.len() == chars.len() - from,
            forall|j: int| from <= j < chars.len() ==> s@[j] == #[trigger] digits[j - from],
            all_digits(digits.take(i - from)),
            !too_large ==> 0 <= value <= 2147483648 && value == digits_value(digits.take(i - from)),
            too_large ==> digits_value(digits.take(i - from)) > 2147483648,
        decreases chars.len() - i,
    {
        let c = chars[i];
        proof {
            assert(s@[i as int] == digits[i - from]);
            assert(digits.take(i - from + 1).drop_last() == digits.take(i - from));
            assert(digits.take(i - from + 1).last() == c);
        }
        if c < '0' || c > '9' {
            return None;
        }
        if !too_large {
            value = value * 10 + (c as u32 - 48) as i64;
            if value > 2147483648 {
                too_large = true;
            }
        }
        i = i + 1;
    }
    assert(digits.take(digits.len() as int) == digits);
    if too_large {
        None
    } else if negative {
        Some((-value) as i32)
    } else if value <= 2147483647 {
        Some(value as i32)
    } else {
        None
    }
}

/// A number written in decimal is a text of digits that stands for the number.
pub proof fn law_decimal_digits(n: nat)
    ensures
        decimal(n).len() > 0,
        all_digits(decimal(n)),
        digits_value(decimal(n)) == n,
    decreases n,
{
    if n < 10 {
        assert(decimal(n).drop_last().len() == 0);
        assert(digits_value(decimal(n).drop_last()) == 0);
    } else {
        law_decimal_digits(n / 10);
        assert(decimal(n).drop_last() == decimal(n / 10));
    }
}

/// Reading what was written gives back the number, for every 32-bit integer.
pub proof fn law_number_round_trip(i: i32)
    ensures
        parsed_i32(signed_decimal(i as int)) == Some(i),
{
    if i < 0 {
        law_decimal_digits((-i) as nat);
        assert(unsigned_part(signed_decimal(i as int)) == decimal((-i) as nat));
    } else {
        law_decimal_digits(i as nat);
        assert(is_digit(decimal(i as nat)[0]));
        assert(unsigned_part(signed_decimal(i as int)) == decimal(i as nat));
    }
}

/// A number written in decimal holds no white space.
pub proof fn lemma_decimal_trimmed(n: nat)
    ensures
        is_trimmed(decimal(n)),
        forall|i: int| 0 <= i < decimal(n).len() ==> !is_white_space(#[trigger] decimal(n)[i]),
{
    law_decimal_digits(n);
    assert forall|i: int| 0 <= i < decimal(n).len() implies !is_white_space(
        #[trigger] decimal(n)[i],
    ) by {
        assert(is_digit(decimal(n)[i]));
    }
}

/// A number is written digit by digit: a last digit behind the number without it, and a single digit
/// as the character for it.
pub proof fn law_decimal(n: nat, d: nat)
    requires
        d < 10,
    ensures
        decimal(d) == seq![(48 + d) as char],
        n > 0 ==> decimal(10 * n + d) == decimal(n).push((48 + d) as char),
        signed_decimal(n as int) == decimal(n),
        n > 0 ==> signed_decimal(-(n as int)) == seq!['-'] + decimal(n),
{
    assert((10 * n + d) / 10 == n);
    assert((10 * n + d) % 10 == d);
}

/// The value of digits grows tenfold with each digit behind them, which then counts for itself.
pub proof fn law_digits_value(s: Seq<char>, c: char)
    requires
        '0' <= c <= '9',
    ensures
        s.len() == 0 ==> digits_value(s) == 0,
        digits_value(s.push(c)) == 10 * digits_value(s) + (c as int - 48),
{
    assert(s.push(c).drop_last() == s);
}

/// A text stands for a 32-bit integer exactly where it is digits that stand for it, with or without a
/// plus sign, or a minus sign and digits that stand for its opposite.
pub proof fn law_parsed_i32(s: Seq<char>, n: i32)
    ensures
        parsed_i32(s) == Some(n) <==> exists|digits: Seq<char>|
            {
                &&& digits.len() > 0
                &&& forall|i: int| 0 <= i < digits.len() ==> '0' <= #[trigger] digits[i] <= '9'
                &&& (s == digits || s == seq!['+'] + digits) && n == #[trigger] digits_value(digits)
                    || s == seq!['-'] + digits && n == -digits_value(digits)
            },
{
    let ds = unsigned_part(s);
    if parsed_i32(s) == Some(n) {
        assert forall|i: int| 0 <= i < ds.len() implies '0' <= #[trigger] ds[i] <= '9' by {
            assert(is_digit(ds[i]));
        }
        if s.first() == '+' || s.first() == '-' {
            assert(s == seq![s.first()] + ds);
        }
        assert(n == digits_value(ds) || n == -digits_value(ds));
    }
    if exists|digits: Seq<char>|
        {
            &&& digits.len() > 0
            &&& forall|i: int| 0 <= i < digits.len() ==> '0' <= #[trigger] digits[i] <= '9'
            &&& (s == digits || s == seq!['+'] + digits) && n == #[trigger] digits_value(digits) || s
                == seq!['-'] + digits && n == -digits_value(digits)
        } {
        let digits = choose|digits: Seq<char>|
            {
                &&& digits.len() > 0
                &&& forall|i: int| 0 <= i < digits.len() ==> '0' <= #[trigger] digits[i] <= '9'
                &&& (s == digits || s == seq!['+'] + digits) && n == #[trigger] digits_value(digits)
                    || s == seq!['-'] + digits && n == -digits_value(digits)
            };
        assert('0' <= digits[0] <= '9');
        assert(all_digits(digits));
        if s != digits {
            assert(s.drop_first() == digits);
        }
        assert(ds == digits);
    }
}

} // verus!
