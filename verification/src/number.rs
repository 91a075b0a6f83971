//! Reading decimal numbers from text.
//!
//! A number is an optional sign and one or more decimal digits, with nothing
//! before, between or behind them. An unsigned number takes `+` as its only
//! sign. A number that does not fit its type is no number.

use crate::text::chars_of;
use vstd::prelude::*;

verus! {

/// Whether `c` is a decimal digit.
pub open spec fn is_digit(c: char) -> bool {
    0x30 <= c as u32 <= 0x39
}

/// The value of the decimal digit `c`.
pub open spec fn digit_value(c: char) -> nat {
    (c as u32 - 0x30) as nat
}

/// Whether `s` holds nothing but decimal digits.
pub open spec fn all_digits(s: Seq<char>) -> bool {
    forall|i: int| 0 <= i < s.len() ==> is_digit(#[trigger] s[i])
}

/// The number that the digits `s` stand for.
pub open spec fn decimal_value(s: Seq<char>) -> nat
    decreases s.len(),
{
    if s.len() == 0 {
        0
    } else {
        decimal_value(s.drop_last()) * 10 + digit_value(s.last())
    }
}

/// `s` without its sign, if it starts with one: `+`, or `-` where
/// `minus_allowed` says so.
pub open spec fn unsigned_part(s: Seq<char>, minus_allowed: bool) -> Seq<char> {
    if s.len() > 0 && (s[0] == '+' || (minus_allowed && s[0] == '-')) {
        s.drop_first()
    } else {
        s
    }
}

/// What `s` reads as an unsigned number up to `max`.
pub open spec fn unsigned_number(s: Seq<char>, max: nat) -> Option<nat> {
    let digits = unsigned_part(s, false);
    if digits.len() > 0 && all_digits(digits) && decimal_value(digits) <= max {
        Some(decimal_value(digits))
    } else {
        None
    }
}

/// What `s` reads as a signed number from `min` to `max`.
pub open spec fn signed_number(s: Seq<char>, min: int, max: int) -> Option<int> {
    let digits = unsigned_part(s, true);
    let value = if s.len() > 0 && s[0] == '-' {
        -(decimal_value(digits) as int)
    } else {
        decimal_value(digits) as int
    };
    if digits.len() > 0 && all_digits(digits) && min <= value <= max {
        Some(value)
    } else {
        None
    }
}

/// The first digits of a number stand for no more than the number.
pub proof fn lemma_decimal_prefix(s: Seq<char>, k: int)
    requires
        0 <= k <= s.len(),
    ensures
        decimal_value(s.take(k)) <= decimal_value(s),
    decreases s.len(),
{
    if k == s.len() {
        assert(s.take(k) =~= s);
    } else {
        assert(s.drop_last().take(k) =~= s.take(k));
        lemma_decimal_prefix(s.drop_last(), k);
    }
}

/// The number that the digits `chars[from..]` stand for, if there are any,
/// all of them are digits, and the number is no larger than `max`.
fn parse_digits(chars: &Vec<char>, from: usize, max: u64) -> (r: Option<u64>)
    requires
        from <= chars.len(),
    ensures
        ({
            let digits = chars@.skip(from as int);
            match r {
                Some(v) => digits.len() > 0 && all_digits(digits) && v == decimal_value(digits)
                    && v <= max,
                None => !(digits.len() > 0 && all_digits(digits) && decimal_value(digits) <= max),
            }
        }),
{
    let n = chars.len();
    if from == n {
        return None;
    }
    let ghost digits = chars@.skip(from as int);
    let mut value: u64 = 0;
    let mut i: usize = from;
    assert(digits.take(0) =~= Seq::<char>::empty());
    while i < n
        invariant
            from <= i <= n,
            n == chars.len(),
            digits == chars@.skip(from as int),
            all_digits(digits.take(i - from)),
            value == decimal_value(digits.take(i - from)),
            value <= max,
        decreases n - i,
    {
        let c = chars[i];
        let code: u32 = c as u32;
        assert(digits[i - from] == c);
        if code < 0x30 || code > 0x39 {
            assert(!is_digit(digits[i - from]));
            return None;
        }
        let d: u64 = (code - 0x30) as u64;
        proof {
            assert(digits.take(i - from + 1).drop_last() =~= digits.take(i - from));
            assert(digits.take(i - from + 1).last() == c);
            lemma_decimal_prefix(digits, i - from + 1);
            assert forall|k: int| 0 <= k < digits.take(i - from + 1).len() implies is_digit(
                #[trigger] digits.take(i - from + 1)[k],
            ) by {
                if k < i - from {
                    assert(digits.take(i - from + 1)[k] == digits.take(i - from)[k]);
                }
            }
        }
        let tens = match value.checked_mul(10) {
            Some(t) => t,
            None => { return None; },
        };
        let next = match tens.checked_add(d) {
            Some(t) => t,
            None => { return None; },
        };
        if next > max {
            return None;
        }
        value = next;
        i += 1;
    }
    assert(digits.take(n - from) =~= digits);
    Some(value)
}

/// Reads `s` as an unsigned number: an optional `+` and one or more digits.
pub fn parse_usize(s: &str) -> (r: Option<usize>)
    ensures
        match r {
            Some(v) => unsigned_number(s@, usize::MAX as nat) == Some(v as nat),
            None => unsigned_number(s@, usize::MAX as nat) is None,
        },
{
    let chars = chars_of(s);
    let from: usize = if chars.len() > 0 && chars[0] == '+' {
        1
    } else {
        0
    };
    assert(chars@.skip(from as int) =~= unsigned_part(s@, false));
    match parse_digits(&chars, from, usize::MAX as u64) {
        Some(v) => Some(v as usize),
        None => None,
    }
}

/// Reads `s` as a signed number: an optional `+` or `-` and one or more
/// digits.
pub fn parse_i64(s: &str) -> (r: Option<i64>)
    ensures
        match r {
            Some(v) => signed_number(s@, i64::MIN as int, i64::MAX as int) == Some(v as int),
            None => signed_number(s@, i64::MIN as int, i64::MAX as int) is None,
        },
{
    let chars = chars_of(s);
    let negative = chars.len() > 0 && chars[0] == '-';
    let from: usize = if chars.len() > 0 && (chars[0] == '+' || chars[0] == '-') {
        1
    } else {
        0
    };
    assert(chars@.skip(from as int) =~= unsigned_part(s@, true));
    if negative {
        match parse_digits(&chars, from, 0x8000_0000_0000_0000) {
            Some(v) => {
                if v == 0x8000_0000_0000_0000 {
                    Some(i64::MIN)
                } else {
                    Some(-(v as i64))
                }
            },
            None => None,
        }
    } else {
        match parse_digits(&chars, from, 0x7fff_ffff_ffff_ffff) {
            Some(v) => Some(v as i64),
            None => None,
        }
    }
}

} // verus!
