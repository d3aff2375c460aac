//! Numbers written out in text.
use crate::text::chars_of;
use vstd::prelude::*;

verus! {

/// The value of a digit in the given radix.
pub open spec fn digit_value(c: char, radix: nat) -> Option<nat> {
    let u = c as u32;
    let v = if 0x30 <= u <= 0x39 {
        (u - 0x30) as nat
    } else if 0x41 <= u <= 0x5a {
        (u - 0x41 + 10) as nat
    } else if 0x61 <= u <= 0x7a {
        (u - 0x61 + 10) as nat
    } else {
        radix
    };
    if v < radix {
        Some(v)
    } else {
        None
    }
}

/// The number that digits denote in the given radix.
pub open spec fn digits_value(s: Seq<char>, radix: nat) -> Option<nat>
    decreases s.len(),
{
    if s.len() == 0 {
        Some(0)
    } else {
        match (digits_value(s.drop_last(), radix), digit_value(s.last(), radix)) {
            (Some(head), Some(d)) => Some(head * radix + d),
            _ => None,
        }
    }
}

/// The number up to `max` that a text denotes in the given radix, a plus
/// sign before it allowed.
pub open spec fn number_in(s: Seq<char>, radix: nat, max: nat) -> Option<nat> {
    let digits = if s.len() > 0 && s[0] == '+' {
        s.drop_first()
    } else {
        s
    };
    if digits.len() == 0 {
        None
    } else {
        match digits_value(digits, radix) {
            Some(v) => if v <= max {
                Some(v)
            } else {
                None
            },
            None => None,
        }
    }
}

/// The value of a digit in the given radix.
fn value_of_digit(c: char, radix: u64) -> (r: Option<u64>)
    requires
        radix <= 36,
    ensures
        match (r, digit_value(c, radix as nat)) {
            (Some(a), Some(b)) => a == b,
            (None, None) => true,
            _ => false,
        },
{
    let u: u32 = c as u32;
    let v: u64 = if 0x30 <= u && u <= 0x39 {
        (u - 0x30) as u64
    } else if 0x41 <= u && u <= 0x5a {
        (u - 0x41 + 10) as u64
    } else if 0x61 <= u && u <= 0x7a {
        (u - 0x61 + 10) as u64
    } else {
        radix
    };
    if v < radix {
        Some(v)
    } else {
        None
    }
}

/// Once the digits read so far are too large or are none, so are all.
proof fn lemma_digits_prefix(s: Seq<char>, radix: nat, n: int)
    requires
        0 <= n <= s.len(),
        radix >= 1,
    ensures
        digits_value(s.take(n), radix) is None ==> digits_value(s, radix) is None,
        digits_value(s, radix) is Some ==> digits_value(s.take(n), radix) is Some
            && digits_value(s.take(n), radix)->0 <= digits_value(s, radix)->0,
    decreases s.len() - n,
{
    if n < s.len() {
        assert(s.take(n + 1).drop_last() == s.take(n));
        lemma_digits_prefix(s, radix, n + 1);
        if digits_value(s.take(n + 1), radix) is Some {
            let head = digits_value(s.take(n), radix)->0;
            assert(head <= head * radix) by (nonlinear_arith)
                requires
                    radix >= 1,
                    head >= 0,
            ;
        }
    } else {
        assert(s.take(n) == s);
    }
}

/// The number up to `max` that the characters from `from` on denote in the
/// given radix.
pub fn parse_number(chars: &Vec<char>, from: usize, radix: u64, max: u64) -> (r: Option<u64>)
    requires
        from <= chars@.len(),
        radix == 10 || radix == 16,
    ensures
        match (r, number_in(chars@.skip(from as int), radix as nat, max as nat)) {
            (Some(a), Some(b)) => a == b,
            (None, None) => true,
            _ => false,
        },
{
    let ghost whole = chars@.skip(from as int);
    let start: usize = if from < chars.len() && chars[from] == '+' {
        from + 1
    } else {
        from
    };
    let ghost digits = chars@.skip(start as int);
    assert(start == from + 1 ==> digits == whole.drop_first());
    if start == chars.len() {
        return None;
    }
    let mut sum: u128 = 0;
    let mut i: usize = start;
    assert(digits.take(0) == Seq::<char>::empty());
    while i < chars.len()
        invariant
            start <= i <= chars@.len(),
            digits == chars@.skip(start as int),
            digits.len() > 0,
            number_in(whole, radix as nat, max as nat) == (match digits_value(digits, radix as nat) {
                Some(v) => if v <= max {
                    Some(v)
                } else {
                    None
                },
                None => None,
            }),
            radix == 10 || radix == 16,
            sum <= max,
            whole == chars@.skip(from as int),
            digits_value(digits.take(i - start), radix as nat) == Some(sum as nat),
        decreases chars@.len() - i,
    {
        proof {
            assert(digits.take(i - start + 1).drop_last() == digits.take(i - start));
            assert(digits.take(i - start + 1).last() == chars@[i as int]);
            lemma_digits_prefix(digits, radix as nat, i - start + 1);
            assert(sum * radix <= u64::MAX * 16) by (nonlinear_arith)
                requires
                    sum <= u64::MAX,
                    radix <= 16,
            ;
        }
        match value_of_digit(chars[i], radix) {
            Some(d) => {
                sum = sum * radix as u128 + d as u128;
            },
            None => {
                return None;
            },
        }
        if sum > max as u128 {
            return None;
        }
        i = i + 1;
    }
    assert(digits.take(digits.len() as int) == digits);
    Some(sum as u64)
}

/// The unsigned 64-bit number that a text denotes in decimal, as Rust's
/// integer parser reads it: digits, a plus sign before them allowed.
pub open spec fn u64_in(s: Seq<char>) -> Option<nat> {
    number_in(s, 10, u64::MAX as nat)
}

/// The unsigned 64-bit number that a text denotes in decimal.
pub fn parse_u64(s: &str) -> (r: Option<u64>)
    ensures
        match (r, u64_in(s@)) {
            (Some(a), Some(b)) => a == b,
            (None, None) => true,
            _ => false,
        },
{
    let chars = chars_of(s);
    assert(chars@.skip(0) == chars@);
    parse_number(&chars, 0, 10, u64::MAX)
}

}
