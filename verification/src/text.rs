//! Characters and decimal numbers: what the lexer and the parser need of
//! strings beyond what they can take from a verified library.

use vstd::prelude::*;

verus! {

/// `String::push` of the standard library: the string afterwards is the
/// string before with `ch` appended. Nothing here proves this; it is what the
/// library's documentation states.
pub assume_specification[ String::push ](s: &mut String, ch: char)
    ensures
        final(s)@ == old(s)@.push(ch),
;

/// The characters of `text`, in order.
pub fn chars_of(text: &str) -> (chars: Vec<char>)
    ensures
        chars@ == text@,
{
    let mut chars: Vec<char> = Vec::new();
    for c in it: text.chars()
        invariant
            chars@ == it.seq().take(it.index() as int),
    {
        chars.push(c);
    }
    chars
}

/// The characters of `chars` from `from` up to, not including, `to`, as a string.
pub fn string_of(chars: &Vec<char>, from: usize, to: usize) -> (text: String)
    requires
        from <= to <= chars@.len(),
    ensures
        text@ == chars@.subrange(from as int, to as int),
{
    let mut text = String::new();
    let mut i: usize = from;
    while i < to
        invariant
            from <= i <= to <= chars@.len(),
            text@ == chars@.subrange(from as int, i as int),
        decreases to - i,
    {
        text.push(chars[i]);
        i = i + 1;
    }
    text
}

/// The decimal digit that writes `d`.
pub open spec fn digit_char(d: nat) -> char {
    if d == 0 {
        '0'
    } else if d == 1 {
        '1'
    } else if d == 2 {
        '2'
    } else if d == 3 {
        '3'
    } else if d == 4 {
        '4'
    } else if d == 5 {
        '5'
    } else if d == 6 {
        '6'
    } else if d == 7 {
        '7'
    } else if d == 8 {
        '8'
    } else {
        '9'
    }
}

/// The value of a decimal digit, and `None` for any other character.
pub open spec fn digit_value(c: char) -> Option<nat> {
    if c == '0' {
        Some(0)
    } else if c == '1' {
        Some(1)
    } else if c == '2' {
        Some(2)
    } else if c == '3' {
        Some(3)
    } else if c == '4' {
        Some(4)
    } else if c == '5' {
        Some(5)
    } else if c == '6' {
        Some(6)
    } else if c == '7' {
        Some(7)
    } else if c == '8' {
        Some(8)
    } else if c == '9' {
        Some(9)
    } else {
        None
    }
}

/// `n` written in decimal, without leading zeros.
pub open spec fn decimal(n: nat) -> Seq<char>
    decreases n,
{
    if n < 10 {
        seq![digit_char(n)]
    } else {
        decimal(n / 10).push(digit_char(n % 10))
    }
}

/// The number that a run of decimal digits writes, and `None` where `digits`
/// is empty or holds another character.
pub open spec fn decimal_value(digits: Seq<char>) -> Option<nat>
    decreases digits.len(),
{
    if digits.len() == 0 {
        None
    } else {
        match digit_value(digits.last()) {
            None => None,
            Some(d) => if digits.len() == 1 {
                Some(d)
            } else {
                match decimal_value(digits.drop_last()) {
                    None => None,
                    Some(rest) => Some(rest * 10 + d),
                }
            },
        }
    }
}

/// The decimal digit that writes `d`.
fn digit_of(d: usize) -> (c: char)
    requires
        d < 10,
    ensures
        c == digit_char(d as nat),
{
    if d == 0 {
        '0'
    } else if d == 1 {
        '1'
    } else if d == 2 {
        '2'
    } else if d == 3 {
        '3'
    } else if d == 4 {
        '4'
    } else if d == 5 {
        '5'
    } else if d == 6 {
        '6'
    } else if d == 7 {
        '7'
    } else if d == 8 {
        '8'
    } else {
        '9'
    }
}

/// The value of the decimal digit `c`, and `None` for any other character.
fn value_of(c: char) -> (d: Option<usize>)
    ensures
        match d {
            Some(v) => digit_value(c) == Some(v as nat),
            None => digit_value(c) is None,
        },
{
    if c == '0' {
        Some(0)
    } else if c == '1' {
        Some(1)
    } else if c == '2' {
        Some(2)
    } else if c == '3' {
        Some(3)
    } else if c == '4' {
        Some(4)
    } else if c == '5' {
        Some(5)
    } else if c == '6' {
        Some(6)
    } else if c == '7' {
        Some(7)
    } else if c == '8' {
        Some(8)
    } else if c == '9' {
        Some(9)
    } else {
        None
    }
}

/// Appends `n`, written in decimal, to `text`.
pub fn push_decimal(text: &mut String, n: usize)
    ensures
        final(text)@ == old(text)@ + decimal(n as nat),
    decreases n,
{
    if n < 10 {
        text.push(digit_of(n));
    } else {
        push_decimal(text, n / 10);
        text.push(digit_of(n % 10));
    }
}

/// Reads a run of decimal digits as a number. `None` where `digits` is empty,
/// holds another character, or writes a number that `usize` cannot hold.
pub fn parse_decimal(digits: &str) -> (value: Option<usize>)
    ensures
        match value {
            Some(v) => decimal_value(digits@) == Some(v as nat),
            None => match decimal_value(digits@) {
                Some(v) => v > usize::MAX,
                None => true,
            },
        },
{
    let chars = chars_of(digits);
    if chars.len() == 0 {
        return None;
    }
    let mut value: usize = 0;
    let mut i: usize = 0;
    while i < chars.len()
        invariant
            chars@ == digits@,
            i <= chars@.len(),
            chars@.len() > 0,
            i > 0 ==> decimal_value(chars@.take(i as int)) == Some(value as nat),
            i == 0 ==> value == 0,
        decreases chars@.len() - i,
    {
        let ghost head = chars@.take(i as int + 1);
        assert(head.drop_last() == chars@.take(i as int));
        assert(head.last() == chars@[i as int]);
        let d = match value_of(chars[i]) {
            Some(d) => d,
            None => {
                proof {
                    lemma_decimal_value_prefix(chars@, i as int + 1);
                }
                return None;
            },
        };
        let scaled = match value.checked_mul(10) {
            Some(scaled) => scaled,
            None => {
                proof {
                    lemma_decimal_value_grows(chars@, i as int + 1);
                }
                return None;
            },
        };
        value = match scaled.checked_add(d) {
            Some(sum) => sum,
            None => {
                proof {
                    lemma_decimal_value_grows(chars@, i as int + 1);
                }
                return None;
            },
        };
        i = i + 1;
    }
    assert(chars@.take(i as int) == chars@);
    Some(value)
}

/// A run with a prefix that is no number is no number either.
pub proof fn lemma_decimal_value_prefix(digits: Seq<char>, n: int)
    requires
        0 < n <= digits.len(),
        decimal_value(digits.take(n)) is None,
    ensures
        decimal_value(digits) is None,
    decreases digits.len() - n,
{
    if n < digits.len() {
        assert(digits.take(n + 1).drop_last() == digits.take(n));
        lemma_decimal_value_prefix(digits, n + 1);
    } else {
        assert(digits.take(n) == digits);
    }
}

/// A run that is a number is at least as large as each of its prefixes.
pub proof fn lemma_decimal_value_grows(digits: Seq<char>, n: int)
    requires
        0 < n <= digits.len(),
    ensures
        match (decimal_value(digits), decimal_value(digits.take(n))) {
            (Some(whole), Some(head)) => whole >= head,
            (Some(_), None) => false,
            _ => true,
        },
    decreases digits.len() - n,
{
    if n < digits.len() {
        assert(digits.take(n + 1).drop_last() == digits.take(n));
        lemma_decimal_value_grows(digits, n + 1);
    } else {
        assert(digits.take(n) == digits);
    }
}

} // verus!
