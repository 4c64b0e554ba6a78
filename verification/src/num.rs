//! Numbers as decimal text.

use crate::text::to_chars;
use vstd::prelude::*;
use vstd::string::*;

verus! {

/// The character of the decimal digit `d`.
pub open spec fn digit(d: int) -> char {
    if d == 0 {
        '0'
    } else if d == 1 {
        '1'
    } else if d == 2 {
        '2'
    } else if d == 3 {
        '3'
    } else if d == 4 {
        '4'
    } else if d == 5 {
        '5'
    } else if d == 6 {
        '6'
    } else if d == 7 {
        '7'
    } else if d == 8 {
        '8'
    } else {
        '9'
    }
}

/// The decimal digit that `c` is, if it is one.
pub open spec fn digit_value(c: char) -> Option<int> {
    if '0' <= c <= '9' {
        Some((c as u32) - ('0' as u32))
    } else {
        None
    }
}

/// The decimal numeral of `n`, without leading zeros.
pub open spec fn decimal(n: nat) -> Seq<char>
    decreases n,
{
    if n < 10 {
        seq![digit(n as int)]
    } else {
        decimal(n / 10).push(digit((n % 10) as int))
    }
}

/// The decimal numeral of `i`, with `-` before it where `i` is negative.
pub open spec fn signed_decimal(i: int) -> Seq<char> {
    if i < 0 {
        seq!['-'] + decimal((-i) as nat)
    } else {
        decimal(i as nat)
    }
}

/// The number that the first `i` characters of `s` denote as decimal digits, if all of them
/// are digits.
pub open spec fn digits_value(s: Seq<char>, i: int) -> Option<int>
    decreases i,
{
    if i <= 0 || i > s.len() {
        Some(0)
    } else {
        match (digits_value(s, i - 1), digit_value(s[i - 1])) {
            (Some(v), Some(d)) => Some(v * 10 + d),
            _ => None,
        }
    }
}

/// The 32-bit integer that `s` denotes: an optional sign, `+` or `-`, and at least one decimal
/// digit, with a value in the range of the type.
pub open spec fn parsed_i32(s: Seq<char>) -> Option<int> {
    let signed = s.len() > 0 && (s[0] == '-' || s[0] == '+');
    let body = if signed {
        s.subrange(1, s.len() as int)
    } else {
        s
    };
    if body.len() == 0 {
        None
    } else {
        match digits_value(body, body.len() as int) {
            Some(v) => {
                let r = if s[0] == '-' {
                    -v
                } else {
                    v
                };
                if -0x8000_0000 <= r <= 0x7fff_ffff {
                    Some(r)
                } else {
                    None
                }
            },
            None => None,
        }
    }
}

proof fn lemma_digits_value_grows(s: Seq<char>, i: int, j: int)
    requires
        0 <= i <= j <= s.len(),
    ensures
        digits_value(s, j) matches Some(v) ==> (digits_value(s, i) matches Some(w) && 0 <= w <= v),
        digits_value(s, i).is_none() ==> digits_value(s, j).is_none(),
    decreases j,
{
    if i < j {
        lemma_digits_value_grows(s, i, j - 1);
    } else {
        lemma_digits_value_nonnegative(s, i);
    }
}

proof fn lemma_digits_value_nonnegative(s: Seq<char>, i: int)
    ensures
        digits_value(s, i) matches Some(v) ==> v >= 0,
    decreases i,
{
    if 0 < i <= s.len() {
        lemma_digits_value_nonnegative(s, i - 1);
    }
}

/// The character of the decimal digit `d`.
pub fn digit_char(d: u8) -> (c: char)
    requires
        d < 10,
    ensures
        c == digit(d as int),
{
    if d == 0 {
        '0'
    } else if d == 1 {
        '1'
    } else if d == 2 {
        '2'
    } else if d == 3 {
        '3'
    } else if d == 4 {
        '4'
    } else if d == 5 {
        '5'
    } else if d == 6 {
        '6'
    } else if d == 7 {
        '7'
    } else if d == 8 {
        '8'
    } else {
        '9'
    }
}

/// Appends the decimal numeral of `n` to `out`.
pub fn push_decimal(out: &mut String, n: u64)
    ensures
        final(out)@ == old(out)@ + decimal(n as nat),
    decreases n,
{
    if n >= 10 {
        push_decimal(out, n / 10);
    }
    let d: u8 = (n % 10) as u8;
    out.push(digit_char(d));
}

/// The decimal numeral of `n`.
pub fn u64_string(n: u64) -> (r: String)
    ensures
        r@ == decimal(n as nat),
{
    let mut r = String::new();
    push_decimal(&mut r, n);
    r
}

/// The decimal numeral of `i`, with `-` before it where `i` is negative.
pub fn i32_string(i: i32) -> (r: String)
    ensures
        r@ == signed_decimal(i as int),
{
    let mut r = String::new();
    let wide: i64 = i as i64;
    if wide < 0 {
        r.push('-');
        push_decimal(&mut r, (0 - wide) as u64);
    } else {
        push_decimal(&mut r, wide as u64);
    }
    r
}

/// Reads a 32-bit integer from its decimal text.
pub fn parse_i32(s: &str) -> (r: Option<i32>)
    ensures
        match r {
            Some(v) => parsed_i32(s@) == Some(v as int),
            None => parsed_i32(s@).is_none(),
        },
{
    let t = to_chars(s);
    let n: usize = t.len();
    if n == 0 {
        return None;
    }
    let negative = t[0] == '-';
    let start: usize = if negative || t[0] == '+' {
        1
    } else {
        0
    };
    if start == n {
        return None;
    }
    let ghost body = if start == 1 {
        t@.subrange(1, n as int)
    } else {
        t@
    };
    let mut value: i64 = 0;
    let mut i: usize = start;
    while i < n
        invariant
            start <= i <= n,
            n == t.len(),
            t@ == s@,
            n > 0,
            start <= 1,
            (start == 1) == (t@[0] == '-' || t@[0] == '+'),
            body == (if start == 1 {
                t@.subrange(1, n as int)
            } else {
                t@
            }),
            digits_value(body, i - start) == Some(value as int),
            0 <= value <= 0x8000_0000,
        decreases n - i,
    {
        let c = t[i];
        if !('0' <= c && c <= '9') {
            proof {
                lemma_digits_value_grows(body, i - start + 1, body.len() as int);
            }
            return None;
        }
        let d: i64 = ((c as u32) - ('0' as u32)) as i64;
        value = value * 10 + d;
        if value > 0x8000_0000 {
            proof {
                lemma_digits_value_grows(body, i - start + 1, body.len() as int);
            }
            return None;
        }
        i += 1;
    }
    if negative {
        Some((0 - value) as i32)
    } else if value > 0x7fff_ffff {
        None
    } else {
        Some(value as i32)
    }
}

} // verus!
