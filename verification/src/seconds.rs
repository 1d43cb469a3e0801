//! The start of a sentence as the page writes it: seconds as a decimal
//! numeral, read as whole milliseconds. The numeral is multiplied by 1000 and
//! what remains behind the point is cut off. All of it is integer arithmetic
//! on the digits, so `1.001` is 1001 milliseconds and `0.0009` is none.

use crate::text::{after_first, before_first, chars_of, text_after_first, text_before_first};
use vstd::prelude::*;
use vstd::string::StrSliceExecFns;

verus! {

/// Why a start attribute gave no time.
#[derive(Clone, Copy, Debug, PartialEq, Eq, Structural)]
pub enum StartError {
    /// The text is no decimal numeral.
    NotNumeric,
    /// The numeral is below zero by a millisecond or more.
    Negative,
    /// The numeral counts more milliseconds than an `i64` holds.
    OutOfRange,
}

/// `c` is one of the ten decimal digits.
pub open spec fn is_digit(c: char) -> bool {
    48 <= c as int <= 57
}

/// The number that a decimal digit stands for.
pub open spec fn digit_of(c: char) -> int {
    c as int - 48
}

/// Every character of `s` is a decimal digit. The empty text qualifies.
pub open spec fn all_digits(s: Seq<char>) -> bool {
    forall|i: int| 0 <= i < s.len() ==> is_digit(#[trigger] s[i])
}

/// The number that a run of decimal digits writes. The empty run writes 0.
pub open spec fn number_of(s: Seq<char>) -> int
    decreases s.len(),
{
    if s.len() == 0 {
        0
    } else {
        10 * number_of(s.drop_last()) + digit_of(s.last())
    }
}

/// The text begins with a sign.
pub open spec fn is_signed(s: Seq<char>) -> bool {
    s.len() > 0 && (s[0] == '+' || s[0] == '-')
}

/// The text begins with a minus sign.
pub open spec fn is_negative(s: Seq<char>) -> bool {
    s.len() > 0 && s[0] == '-'
}

/// The text without its sign, if it has one.
pub open spec fn unsigned_part(s: Seq<char>) -> Seq<char> {
    if is_signed(s) {
        s.drop_first()
    } else {
        s
    }
}

/// What the numeral writes before its point.
pub open spec fn whole_digits(s: Seq<char>) -> Seq<char> {
    before_first(unsigned_part(s), '.')
}

/// What the numeral writes behind its point.
pub open spec fn fraction_digits(s: Seq<char>) -> Seq<char> {
    after_first(unsigned_part(s), '.')
}

/// The text is a decimal numeral: an optional sign, then digits with at most
/// one point among them, and at least one digit. No exponent, no spaces, and
/// no names for what is not a number.
pub open spec fn is_numeral(s: Seq<char>) -> bool {
    &&& all_digits(whole_digits(s))
    &&& all_digits(fraction_digits(s))
    &&& whole_digits(s).len() + fraction_digits(s).len() > 0
}

/// The thousandths that the digits behind a point amount to, cut off behind
/// the third digit.
pub open spec fn thousandths(fraction: Seq<char>) -> int {
    if fraction.len() >= 3 {
        number_of(fraction.take(3))
    } else if fraction.len() == 2 {
        10 * number_of(fraction)
    } else if fraction.len() == 1 {
        100 * number_of(fraction)
    } else {
        0
    }
}

/// The whole milliseconds of a numeral of seconds, without its sign.
pub open spec fn magnitude_ms(s: Seq<char>) -> int {
    1000 * number_of(whole_digits(s)) + thousandths(fraction_digits(s))
}

/// The milliseconds that a start attribute counts. A numeral that comes to no
/// whole millisecond is 0 whatever its sign.
pub open spec fn millis_of(s: Seq<char>) -> Result<int, StartError> {
    if !is_numeral(s) {
        Err(StartError::NotNumeric)
    } else if magnitude_ms(s) == 0 {
        Ok(0)
    } else if is_negative(s) {
        Err(StartError::Negative)
    } else if magnitude_ms(s) > i64::MAX {
        Err(StartError::OutOfRange)
    } else {
        Ok(magnitude_ms(s))
    }
}

/// A run of digits writes no negative number, and one of up to three digits
/// writes less than a thousand.
pub proof fn lemma_number_bounds(s: Seq<char>)
    requires
        all_digits(s),
    ensures
        0 <= number_of(s),
        s.len() == 0 ==> number_of(s) == 0,
        s.len() == 1 ==> number_of(s) <= 9,
        s.len() == 2 ==> number_of(s) <= 99,
        s.len() == 3 ==> number_of(s) <= 999,
    decreases s.len(),
{
    if s.len() > 0 {
        let earlier = s.drop_last();
        assert forall|i: int| 0 <= i < earlier.len() implies is_digit(#[trigger] earlier[i]) by {
            assert(earlier[i] == s[i]);
        }
        assert(is_digit(s[s.len() - 1]));
        lemma_number_bounds(earlier);
    }
}

/// Ten to the power of `n`.
pub open spec fn pow10(n: nat) -> int
    decreases n,
{
    if n == 0 {
        1
    } else {
        10 * pow10((n - 1) as nat)
    }
}

/// A run of `n` digits writes a number below ten to the power of `n`.
pub proof fn lemma_number_below_power(s: Seq<char>)
    requires
        all_digits(s),
    ensures
        0 <= number_of(s) < pow10(s.len()),
    decreases s.len(),
{
    if s.len() > 0 {
        let earlier = s.drop_last();
        assert forall|i: int| 0 <= i < earlier.len() implies is_digit(#[trigger] earlier[i]) by {
            assert(earlier[i] == s[i]);
        }
        assert(is_digit(s[s.len() - 1]));
        lemma_number_below_power(earlier);
    }
}

/// A run of digits, cut in two: what the first part writes, shifted by the
/// length of the second, and what the second part writes.
pub proof fn lemma_number_split(s: Seq<char>, k: int)
    requires
        0 <= k <= s.len(),
    ensures
        number_of(s) == number_of(s.take(k)) * pow10((s.len() - k) as nat) + number_of(s.skip(k)),
    decreases s.len(),
{
    if k == s.len() {
        assert(s.take(k) =~= s);
        assert(s.skip(k) =~= Seq::<char>::empty());
    } else {
        let earlier = s.drop_last();
        lemma_number_split(earlier, k);
        assert(earlier.take(k) =~= s.take(k));
        assert(earlier.skip(k) =~= s.skip(k).drop_last());
        assert(s.skip(k).last() == s.last());
        let head = number_of(s.take(k));
        let shift = pow10((s.len() - 1 - k) as nat);
        assert(pow10((s.len() - k) as nat) == 10 * shift);
        assert(10 * (head * shift) == head * (10 * shift)) by (nonlinear_arith);
    }
}

/// The milliseconds of a numeral are its value times 1000, cut off behind the
/// point. With `k` digits behind the point the value is the number that all
/// the digits write together, divided by ten to the power of `k`.
pub proof fn lemma_millis_are_truncated(s: Seq<char>)
    requires
        is_numeral(s),
    ensures
        magnitude_ms(s) == ((number_of(whole_digits(s)) * pow10(fraction_digits(s).len())
            + number_of(fraction_digits(s))) * 1000) / pow10(fraction_digits(s).len()),
{
    let fraction = fraction_digits(s);
    let k = fraction.len();
    let whole = number_of(whole_digits(s));
    let part = number_of(fraction);
    let cut = thousandths(fraction);
    let power = pow10(k);
    lemma_number_below_power(fraction);
    // What is cut off: less than one thousandth.
    let rest = part * 1000 - cut * power;
    assert(0 <= rest < power) by {
        reveal_with_fuel(pow10, 4);
        if k == 0 {
            assert(power == 1);
        } else if k == 1 {
            assert(power == 10);
            assert(cut * 10 == 1000 * part);
        } else if k == 2 {
            assert(power == 100);
            assert(cut * 100 == 1000 * part);
        } else {
            let tail = fraction.skip(3);
            let shift = pow10((k - 3) as nat);
            lemma_number_split(fraction, 3);
            assert forall|i: int| 0 <= i < tail.len() implies is_digit(#[trigger] tail[i]) by {
                assert(tail[i] == fraction[i + 3]);
            }
            lemma_number_below_power(tail);
            assert(power == 1000 * shift);
            assert(part == cut * shift + number_of(tail));
            assert(cut * power == 1000 * (cut * shift)) by (nonlinear_arith)
                requires
                    power == 1000 * shift,
            ;
            assert(rest == 1000 * number_of(tail));
        }
    }
    assert((whole * power + part) * 1000 == (1000 * whole + cut) * power + rest)
        by (nonlinear_arith)
        requires
            rest == part * 1000 - cut * power,
    ;
    vstd::arithmetic::div_mod::lemma_fundamental_div_mod_converse(
        (whole * power + part) * 1000,
        power,
        1000 * whole + cut,
        rest,
    );
}

/// One digit more: the number so far ten times, and the digit.
proof fn lemma_number_step(s: Seq<char>, i: int)
    requires
        0 <= i < s.len(),
    ensures
        number_of(s.take(i + 1)) == 10 * number_of(s.take(i)) + digit_of(s[i]),
{
    assert(s.take(i + 1).drop_last() =~= s.take(i));
}

/// The number that `c` stands for, where it is a decimal digit.
fn digit_value(c: char) -> (value: Option<u64>)
    ensures
        value is Some <==> is_digit(c),
        value matches Some(digit) ==> digit == digit_of(c),
{
    match c {
        '0' => Some(0),
        '1' => Some(1),
        '2' => Some(2),
        '3' => Some(3),
        '4' => Some(4),
        '5' => Some(5),
        '6' => Some(6),
        '7' => Some(7),
        '8' => Some(8),
        '9' => Some(9),
        _ => None,
    }
}

/// What a run of characters turned out to be.
enum Digits {
    /// Not all of them are digits.
    Invalid,
    /// Digits that write more than an `i64` holds.
    TooLarge,
    /// Digits that write this number.
    Value(u64),
}

/// Reads a run of digits as a number.
fn read_digits(s: &str) -> (digits: Digits)
    ensures
        digits is Invalid <==> !all_digits(s@),
        digits is TooLarge ==> number_of(s@) > i64::MAX,
        digits matches Digits::Value(n) ==> n == number_of(s@) && n <= i64::MAX,
{
    let chars = chars_of(s);
    let mut acc: u64 = 0;
    let mut too_large = false;
    let mut i: usize = 0;
    while i < chars.len()
        invariant
            i <= chars.len(),
            chars@ == s@,
            all_digits(s@.take(i as int)),
            !too_large ==> acc == number_of(s@.take(i as int)) && acc <= i64::MAX,
            too_large ==> number_of(s@.take(i as int)) > i64::MAX,
        decreases chars.len() - i,
    {
        let digit = match digit_value(chars[i]) {
            Some(digit) => digit,
            None => {
                assert(!is_digit(s@[i as int]));
                return Digits::Invalid;
            },
        };
        proof {
            assert(is_digit(s@[i as int]));
            lemma_number_step(s@, i as int);
            assert forall|j: int| 0 <= j < i + 1 implies is_digit(
                #[trigger] s@.take(i + 1)[j],
            ) by {
                if j < i {
                    assert(s@.take(i as int)[j] == s@[j]);
                } else {
                    assert(s@.take(i + 1)[j] == s@[i as int]);
                }
            }
        }
        if !too_large {
            if acc > (9223372036854775807 - digit) / 10 {
                too_large = true;
            } else {
                acc = 10 * acc + digit;
            }
        }
        i += 1;
    }
    assert(s@.take(i as int) =~= s@);
    if too_large {
        Digits::TooLarge
    } else {
        Digits::Value(acc)
    }
}

/// Reads the digits behind a point as thousandths.
fn read_thousandths(fraction: &str) -> (value: Option<u64>)
    ensures
        value is Some <==> all_digits(fraction@),
        value matches Some(t) ==> t == thousandths(fraction@) && t <= 999,
{
    if let Digits::Invalid = read_digits(fraction) {
        return None;
    }
    let len = fraction.unicode_len();
    let kept: usize = if len < 3 {
        len
    } else {
        3
    };
    let head = fraction.substring_char(0, kept);
    proof {
        assert(head@ =~= fraction@.take(kept as int));
        assert forall|j: int| 0 <= j < head@.len() implies is_digit(#[trigger] head@[j]) by {
            assert(head@[j] == fraction@[j]);
        }
        lemma_number_bounds(head@);
        if len < 3 {
            assert(fraction@.take(kept as int) =~= fraction@);
        }
    }
    match read_digits(head) {
        Digits::Value(number) => {
            if len >= 3 {
                Some(number)
            } else if len == 2 {
                Some(10 * number)
            } else if len == 1 {
                Some(100 * number)
            } else {
                Some(0)
            }
        },
        _ => unreached(),
    }
}

/// The whole milliseconds that a start attribute counts: its numeral of
/// seconds times 1000, with what remains behind the point cut off. It is owed
/// for every decimal numeral that is not negative and that an `i64` holds.
pub fn seconds_to_millis(text: &str) -> (millis: Result<i64, StartError>)
    ensures
        match millis {
            Ok(ms) => millis_of(text@) == Ok::<int, StartError>(ms as int) && ms >= 0,
            Err(e) => millis_of(text@) == Err::<int, StartError>(e),
        },
{
    let chars = chars_of(text);
    let negative = chars.len() > 0 && chars[0] == '-';
    let signed = negative || (chars.len() > 0 && chars[0] == '+');
    let body: &str = if signed {
        text.substring_char(1, chars.len())
    } else {
        text
    };
    assert(body@ =~= unsigned_part(text@));
    let whole = text_before_first(body, '.');
    let fraction = text_after_first(body, '.');
    let whole_value = read_digits(whole.as_str());
    let fraction_value = read_thousandths(fraction.as_str());
    let any_digit = whole.as_str().unicode_len() > 0 || fraction.as_str().unicode_len() > 0;
    match (whole_value, fraction_value) {
        (Digits::Invalid, _) => Err(StartError::NotNumeric),
        (_, None) => Err(StartError::NotNumeric),
        (Digits::TooLarge, Some(_)) => {
            if !any_digit {
                Err(StartError::NotNumeric)
            } else if negative {
                Err(StartError::Negative)
            } else {
                Err(StartError::OutOfRange)
            }
        },
        (Digits::Value(seconds), Some(rest)) => {
            if !any_digit {
                Err(StartError::NotNumeric)
            } else if seconds == 0 && rest == 0 {
                Ok(0)
            } else if negative {
                Err(StartError::Negative)
            } else if seconds > (9223372036854775807 - rest) / 1000 {
                Err(StartError::OutOfRange)
            } else {
                Ok((seconds * 1000 + rest) as i64)
            }
        },
    }
}

} // verus!
