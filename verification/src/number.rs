//! Track and disc numbers, as tags write them.
//!
//! A tag may hold `7`, `07` or `7/12`. The number is read from the front:
//! the decimal digits up to the first character that is no digit. A text
//! that starts with no digit holds no number.

use vstd::arithmetic::div_mod::{lemma_add_mod_noop, lemma_mod_bound, lemma_mul_mod_noop_left, lemma_small_mod};
use vstd::prelude::*;

use crate::text::chars_of;

verus! {

/// One more than the largest number that a track or disc number can hold.
pub open spec fn modulus() -> nat {
    0x1_0000_0000
}

/// Whether `c` is one of the ten decimal digits.
pub open spec fn is_digit(c: char) -> bool {
    '0' <= c && c <= '9'
}

/// The value of the decimal digit `c`.
pub open spec fn digit(c: char) -> nat
    recommends
        is_digit(c),
{
    (c as nat - '0' as nat) as nat
}

/// How many characters at the front of `s` are decimal digits.
pub open spec fn digit_run(s: Seq<char>) -> nat
    decreases s.len(),
{
    if s.len() > 0 && is_digit(s[0]) {
        1 + digit_run(s.drop_first())
    } else {
        0
    }
}

/// The number that the decimal digits of `s` write, read from the left.
pub open spec fn decimal(s: Seq<char>) -> nat
    decreases s.len(),
{
    if s.len() == 0 {
        0
    } else {
        decimal(s.drop_last()) * 10 + digit(s.last())
    }
}

/// What the leading digits of `s` write.
pub open spec fn leading_number(s: Seq<char>) -> nat {
    decimal(s.take(digit_run(s) as int))
}

/// The number that `s` holds: what its leading digits write, cut to 32
/// bits; none where `s` starts with no digit.
pub open spec fn number_of(s: Seq<char>) -> Option<u32> {
    if digit_run(s) == 0 {
        None
    } else {
        Some((leading_number(s) % modulus()) as u32)
    }
}

/// `digit_run(s)` is the one `n` such that the first `n` characters of `s`
/// are digits and the next one, if there is one, is not.
pub proof fn lemma_digit_run(s: Seq<char>, n: int)
    requires
        0 <= n <= s.len(),
        forall|i: int| 0 <= i < n ==> is_digit(#[trigger] s[i]),
        n < s.len() ==> !is_digit(s[n]),
    ensures
        digit_run(s) == n,
    decreases n,
{
    if n > 0 {
        let rest = s.drop_first();
        assert forall|i: int| 0 <= i < n - 1 implies is_digit(#[trigger] rest[i]) by {
            assert(rest[i] == s[i + 1]);
        }
        if n < s.len() {
            assert(rest[n - 1] == s[n]);
        }
        lemma_digit_run(rest, n - 1);
    }
}

/// The digits counted by `digit_run` are digits, and they stop at a character
/// that is none.
pub proof fn lemma_digit_run_is_longest(s: Seq<char>)
    ensures
        digit_run(s) <= s.len(),
        forall|i: int| 0 <= i < digit_run(s) ==> is_digit(#[trigger] s[i]),
        digit_run(s) < s.len() ==> !is_digit(s[digit_run(s) as int]),
    decreases s.len(),
{
    if s.len() > 0 && is_digit(s[0]) {
        let rest = s.drop_first();
        lemma_digit_run_is_longest(rest);
        assert forall|i: int| 0 <= i < digit_run(s) implies is_digit(#[trigger] s[i]) by {
            if i > 0 {
                assert(rest[i - 1] == s[i]);
            }
        }
        if digit_run(s) < s.len() {
            assert(rest[digit_run(rest) as int] == s[digit_run(s) as int]);
        }
    }
}

/// Digits that are followed by a character that is no digit are the number,
/// whatever comes behind: of `3/12` the `3`.
pub proof fn lemma_leading_number_stops(digits: Seq<char>, stop: char, rest: Seq<char>)
    requires
        forall|i: int| 0 <= i < digits.len() ==> is_digit(#[trigger] digits[i]),
        !is_digit(stop),
    ensures
        leading_number(digits.push(stop) + rest) == decimal(digits),
        leading_number(digits) == decimal(digits),
        digits.len() > 0 ==> number_of(digits.push(stop) + rest) == Some(
            (decimal(digits) % modulus()) as u32,
        ),
        digits.len() == 0 ==> number_of(digits.push(stop) + rest) is None,
{
    let text = digits.push(stop) + rest;
    assert forall|i: int| 0 <= i < digits.len() implies is_digit(#[trigger] text[i]) by {
        assert(text[i] == digits[i]);
    }
    assert(text[digits.len() as int] == stop);
    lemma_digit_run(text, digits.len() as int);
    assert(text.take(digits.len() as int) == digits);
    lemma_digit_run(digits, digits.len() as int);
    assert(digits.take(digits.len() as int) == digits);
}

/// Appending one digit multiplies by ten and adds the digit.
pub proof fn lemma_decimal_push(s: Seq<char>, c: char)
    ensures
        decimal(s.push(c)) == decimal(s) * 10 + digit(c),
{
    assert(s.push(c).drop_last() == s);
}

/// One step of reading a number that wraps at `modulus()`.
proof fn lemma_wrapping_step(value: nat, acc: u32, d: u32)
    requires
        acc == value % modulus(),
        d <= 9,
    ensures
        acc.wrapping_mul(10).wrapping_add(d) == (value * 10 + d as nat) % modulus(),
{
    let m = modulus() as int;
    let shifted = acc.wrapping_mul(10) as int;
    assert(shifted == (acc as int * 10) % m);
    lemma_mul_mod_noop_left(value as int, 10, m);
    assert(shifted == (value as int * 10) % m);
    lemma_mod_bound(value as int * 10, m);
    lemma_small_mod(d as nat, m as nat);
    lemma_add_mod_noop(value as int * 10, d as int, m);
    assert((shifted + d as int) % m == (value as int * 10 + d as int) % m);
    if shifted + d > u32::MAX {
        assert((shifted + d as int) % m == shifted + d - m) by {
            vstd::arithmetic::div_mod::lemma_mod_sub_multiples_vanish(shifted + d as int, m);
            lemma_small_mod((shifted + d - m) as nat, m as nat);
        }
    } else {
        lemma_small_mod((shifted + d) as nat, m as nat);
    }
}

/// Reads one decimal digit.
pub fn to_digit(c: char) -> (d: Option<u32>)
    ensures
        d is Some <==> is_digit(c),
        d matches Some(v) ==> v == digit(c) && v <= 9,
{
    if '0' <= c && c <= '9' {
        Some(c as u32 - '0' as u32)
    } else {
        None
    }
}

/// Reads the number at the front of `text`.
///
/// Digits are taken up to the first character that is no digit, so `3/12`
/// gives 3. A text that starts with no digit, the empty text too, cannot be
/// read and gives `None`. A number too large for 32 bits wraps around.
pub fn parse_number(text: &str) -> (n: Option<u32>)
    ensures
        n == number_of(text@),
        n is Some <==> text@.len() > 0 && is_digit(text@[0]),
        n matches Some(v) ==> leading_number(text@) < modulus() ==> v == leading_number(text@),
{
    let chars = chars_of(text);
    let mut acc: u32 = 0;
    let mut i: usize = 0;
    let mut stopped = false;
    proof {
        lemma_small_mod(0, modulus());
    }
    while !stopped && i < chars.len()
        invariant
            i <= chars.len(),
            forall|j: int| 0 <= j < i ==> is_digit(#[trigger] chars@[j]),
            stopped ==> i < chars.len() && !is_digit(chars@[i as int]),
            acc == decimal(chars@.take(i as int)) % modulus(),
        decreases chars.len() - i + if stopped { 0int } else { 1int },
    {
        match to_digit(chars[i]) {
            Some(d) => {
                proof {
                    let before = chars@.take(i as int);
                    assert(chars@.take(i + 1) == before.push(chars@[i as int]));
                    lemma_decimal_push(before, chars@[i as int]);
                    lemma_wrapping_step(decimal(before), acc, d);
                }
                acc = acc.wrapping_mul(10).wrapping_add(d);
                i = i + 1;
            },
            None => {
                stopped = true;
            },
        }
    }
    proof {
        lemma_digit_run(chars@, i as int);
        if leading_number(text@) < modulus() {
            lemma_small_mod(leading_number(text@), modulus());
        }
        lemma_mod_bound(leading_number(text@) as int, modulus() as int);
    }
    if i == 0 {
        None
    } else {
        Some(acc)
    }
}

} // verus!
