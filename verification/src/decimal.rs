//! Signed decimal numbers as text: reading one from a field, and writing one
//! into a message.

use crate::alphabet::{chars_of, is_digit};
use crate::text::string_of;
use vstd::prelude::*;

verus! {

/// Whether every character of `text` is a decimal digit.
pub open spec fn all_digits(text: Seq<char>) -> bool {
    forall|i: int| 0 <= i < text.len() ==> is_digit(#[trigger] text[i])
}

/// The number that the digit `c` stands for.
pub open spec fn digit_value(c: char) -> nat {
    (c as int - '0' as int) as nat
}

/// The number that a run of digits stands for, the last digit counting once.
pub open spec fn digits_value(digits: Seq<char>) -> nat
    decreases digits.len(),
{
    if digits.len() == 0 {
        0
    } else {
        digits_value(digits.drop_last()) * 10 + digit_value(digits.last())
    }
}

/// Whether `text` begins with a plus or a minus sign.
pub open spec fn has_sign(text: Seq<char>) -> bool {
    text.len() > 0 && (text[0] == '+' || text[0] == '-')
}

/// The integer that `text` denotes: an optional sign followed by one digit or
/// more, and nothing else. Any other text denotes no integer.
pub open spec fn decimal_value(text: Seq<char>) -> Option<int> {
    let digits = if has_sign(text) {
        text.skip(1)
    } else {
        text
    };
    if digits.len() == 0 || !all_digits(digits) {
        None
    } else if has_sign(text) && text[0] == '-' {
        Some(-(digits_value(digits) as int))
    } else {
        Some(digits_value(digits) as int)
    }
}

/// The `isize` that `text` denotes, if it denotes an integer that fits.
pub open spec fn isize_value(text: Seq<char>) -> Option<isize> {
    match decimal_value(text) {
        Some(v) => if isize::MIN <= v <= isize::MAX {
            Some(v as isize)
        } else {
            None
        },
        None => None,
    }
}

/// A run of digits stands for at least as much as any of its beginnings.
proof fn lemma_digits_value_grows(digits: Seq<char>, k: int)
    requires
        0 <= k <= digits.len(),
        all_digits(digits),
    ensures
        digits_value(digits.take(k)) <= digits_value(digits),
    decreases digits.len() - k,
{
    if k == digits.len() {
        assert(digits.take(k) == digits);
    } else {
        let front = digits.drop_last();
        assert(front.take(k) == digits.take(k));
        lemma_digits_value_grows(front, k);
    }
}

/// Reads the `isize` that `text` denotes.
pub fn parse_isize(text: &str) -> (res: Option<isize>)
    ensures
        res == isize_value(text@),
{
    let chars = chars_of(text);
    let negative: bool = chars.len() > 0 && chars[0] == '-';
    let start: usize = if chars.len() > 0 && (chars[0] == '+' || chars[0] == '-') {
        1
    } else {
        0
    };
    let ghost digits = if has_sign(text@) {
        text@.skip(1)
    } else {
        text@
    };
    if start == chars.len() {
        return None;
    }
    let limit: u128 = isize::MAX as u128 + 1;
    let mut magnitude: u128 = 0;
    let mut i: usize = start;
    while i < chars.len()
        invariant
            start <= i <= chars.len(),
            chars@ == text@,
            digits == text@.skip(start as int),
            digits == if has_sign(text@) {
                text@.skip(1)
            } else {
                text@
            },
            limit == isize::MAX + 1,
            all_digits(digits.take(i - start)),
            magnitude == digits_value(digits.take(i - start)),
            magnitude <= limit,
        decreases chars.len() - i,
    {
        let c: char = chars[i];
        if c < '0' || c > '9' {
            assert(!all_digits(digits));
            return None;
        }
        let digit: u128 = (c as u32 - '0' as u32) as u128;
        let next: u128 = magnitude * 10 + digit;
        proof {
            let longer = digits.take(i - start + 1);
            assert(longer.drop_last() == digits.take(i - start));
            assert(longer.last() == c);
            assert(next == digits_value(longer));
            assert(all_digits(longer));
        }
        if next > limit {
            proof {
                if all_digits(digits) {
                    lemma_digits_value_grows(digits, i - start + 1);
                    assert(digits_value(digits) > isize::MAX + 1);
                }
            }
            return None;
        }
        magnitude = next;
        i = i + 1;
    }
    assert(digits.take(i - start) == digits);
    if negative {
        Some((-(magnitude as i128)) as isize)
    } else if magnitude < limit {
        Some(magnitude as isize)
    } else {
        None
    }
}

/// The digit that stands for `d`, a number below ten.
pub open spec fn digit_char(d: nat) -> char {
    ('0' as int + d) as char
}

/// The digits of `n`, the most significant first, without leading zeros.
pub open spec fn digits_text(n: nat) -> Seq<char>
    decreases n,
{
    if n < 10 {
        seq![digit_char(n)]
    } else {
        digits_text(n / 10).push(digit_char(n % 10))
    }
}

/// The text that denotes `v`: its digits, after a minus sign when `v` is
/// negative.
pub open spec fn decimal_text(v: int) -> Seq<char> {
    if v < 0 {
        seq!['-'] + digits_text((-v) as nat)
    } else {
        digits_text(v as nat)
    }
}

/// Writes `value` as text.
pub fn format_isize(value: isize) -> (text: String)
    ensures
        text@ == decimal_text(value as int),
{
    let negative: bool = value < 0;
    let mut rest: u128 = if negative {
        (-(value as i128)) as u128
    } else {
        value as u128
    };
    let ghost magnitude = rest as nat;
    let mut reversed: Vec<char> = Vec::new();
    while rest >= 10
        invariant
            digits_text(magnitude) == digits_text(rest as nat) + reversed@.reverse(),
        decreases rest,
    {
        let digit: u8 = (rest % 10) as u8;
        reversed.push((48u8 + digit) as char);
        rest = rest / 10;
    }
    reversed.push((48u8 + rest as u8) as char);
    let mut chars: Vec<char> = Vec::new();
    if negative {
        chars.push('-');
    }
    let ghost sign = chars@;
    let mut k: usize = reversed.len();
    while k > 0
        invariant
            k <= reversed.len(),
            chars@ == sign + reversed@.reverse().take(reversed.len() - k),
        decreases k,
    {
        k = k - 1;
        chars.push(reversed[k]);
    }
    string_of(&chars)
}

/// The digits of a number are digits, at least one, and stand for the number.
pub proof fn lemma_digits_text(n: nat)
    ensures
        digits_text(n).len() >= 1,
        all_digits(digits_text(n)),
        digits_value(digits_text(n)) == n,
    decreases n,
{
    let text = digits_text(n);
    if n < 10 {
        assert(digits_value(text.drop_last()) == 0);
    } else {
        lemma_digits_text(n / 10);
        assert(text.drop_last() == digits_text(n / 10));
        assert(all_digits(text));
    }
}

/// Reading what was written gives the number back.
pub proof fn lemma_decimal_round_trip(v: int)
    ensures
        decimal_value(decimal_text(v)) == Some(v),
{
    let text = decimal_text(v);
    if v < 0 {
        lemma_digits_text((-v) as nat);
        assert(text.skip(1) == digits_text((-v) as nat));
    } else {
        lemma_digits_text(v as nat);
    }
}

/// Reading what `format_isize` wrote gives the `isize` back.
pub proof fn lemma_isize_round_trip(value: isize)
    ensures
        isize_value(decimal_text(value as int)) == Some(value),
{
    lemma_decimal_round_trip(value as int);
}

} // verus!
