//! Decimal integer parsing as `str::parse` for the integer types does it.
use vstd::prelude::*;
use crate::text::all_ascii_digits;

verus! {

pub open spec fn digit_value(c: char) -> nat {
    ((c as u32) - ('0' as u32)) as nat
}

pub open spec fn digits_value(s: Seq<char>) -> nat
    decreases s.len(),
{
    if s.len() == 0 {
        0
    } else {
        digits_value(s.drop_last()) * 10 + digit_value(s.last())
    }
}

/// The digits of an unsigned decimal: an optional `+` followed by at least one ASCII digit.
pub open spec fn unsigned_digits(s: Seq<char>) -> Option<Seq<char>> {
    let d = if s.len() > 0 && s[0] == '+' { s.skip(1) } else { s };
    if d.len() > 0 && all_ascii_digits(d) { Some(d) } else { None }
}

/// `str::parse` for an unsigned integer type whose largest value is `max`.
pub open spec fn parse_unsigned(s: Seq<char>, max: nat) -> Option<nat> {
    match unsigned_digits(s) {
        Some(d) => if digits_value(d) <= max { Some(digits_value(d)) } else { None },
        None => None,
    }
}

/// `str::parse::<i64>`: an optional sign followed by at least one ASCII digit, in range.
pub open spec fn parse_i64_spec(s: Seq<char>) -> Option<int> {
    if s.len() > 0 && s[0] == '-' {
        let d = s.skip(1);
        if d.len() > 0 && all_ascii_digits(d) && digits_value(d) <= 9223372036854775808 {
            Some(-(digits_value(d) as int))
        } else {
            None
        }
    } else {
        match parse_unsigned(s, 9223372036854775807) {
            Some(v) => Some(v as int),
            None => None,
        }
    }
}

/// The value of a run of ASCII digits, or `None` when it exceeds `max`.
fn digits_capped(d: &[char], max: u64) -> (r: Option<u64>)
    requires
        all_ascii_digits(d@),
    ensures
        match r {
            Some(v) => v as nat == digits_value(d@) && v <= max,
            None => digits_value(d@) > max,
        },
{
    let cap: u128 = max as u128 + 1;
    let mut acc: u128 = 0;
    assert(d@.take(0) =~= Seq::<char>::empty());
    for i in 0..d.len()
        invariant
            cap == max as u128 + 1,
            all_ascii_digits(d@),
            acc <= cap,
            acc == cap ==> digits_value(d@.take(i as int)) >= cap,
            acc < cap ==> acc == digits_value(d@.take(i as int)),
    {
        let c = d[i];
        assert('0' <= d@[i as int] <= '9');
        let dv: u128 = (c as u32 - '0' as u32) as u128;
        assert(d@.take(i + 1).drop_last() =~= d@.take(i as int));
        assert(d@.take(i + 1).last() == c);
        if acc < cap {
            let next = acc * 10 + dv;
            if next >= cap {
                acc = cap;
            } else {
                acc = next;
            }
        } else {
            assert(digits_value(d@.take(i + 1)) >= digits_value(d@.take(i as int)) * 10) by (nonlinear_arith)
                requires
                    digits_value(d@.take(i + 1)) == digits_value(d@.take(i as int)) * 10 + digit_value(c),
            {}
        }
    }
    assert(d@.take(d.len() as int) =~= d@);
    if acc < cap {
        Some(acc as u64)
    } else {
        None
    }
}

/// `str::parse` for an unsigned integer type whose largest value is `max`.
pub fn parse_unsigned_text(s: &[char], max: u64) -> (r: Option<u64>)
    ensures
        match r {
            Some(v) => parse_unsigned(s@, max as nat) == Some(v as nat),
            None => parse_unsigned(s@, max as nat).is_none(),
        },
{
    let start: usize = if s.len() > 0 && s[0] == '+' { 1 } else { 0 };
    let d = crate::text::slice_range(s, start, s.len());
    assert(d@ =~= (if s@.len() > 0 && s@[0] == '+' { s@.skip(1) } else { s@ }));
    if d.len() == 0 || !crate::text::is_all_ascii_digits(d.as_slice()) {
        return None;
    }
    digits_capped(d.as_slice(), max)
}

/// `str::parse::<u8>`.
pub fn parse_u8(s: &[char]) -> (r: Option<u8>)
    ensures
        match r {
            Some(v) => parse_unsigned(s@, 255) == Some(v as nat),
            None => parse_unsigned(s@, 255).is_none(),
        },
{
    match parse_unsigned_text(s, 255) {
        Some(v) => Some(v as u8),
        None => None,
    }
}

/// `str::parse::<i64>`.
pub fn parse_i64(s: &[char]) -> (r: Option<i64>)
    ensures
        match r {
            Some(v) => parse_i64_spec(s@) == Some(v as int),
            None => parse_i64_spec(s@).is_none(),
        },
{
    if s.len() > 0 && s[0] == '-' {
        let d = crate::text::slice_range(s, 1, s.len());
        assert(d@ =~= s@.skip(1));
        if d.len() == 0 || !crate::text::is_all_ascii_digits(d.as_slice()) {
            return None;
        }
        match digits_capped(d.as_slice(), 9223372036854775808) {
            Some(v) => {
                if v == 9223372036854775808 {
                    Some(i64::MIN)
                } else {
                    Some(-(v as i64))
                }
            },
            None => None,
        }
    } else {
        match parse_unsigned_text(s, 9223372036854775807) {
            Some(v) => Some(v as i64),
            None => None,
        }
    }
}

}

verus! {

pub open spec fn digit_char(d: nat) -> char {
    (('0' as u32) + d) as char
}

/// The decimal text of a natural number, as `Display` writes it.
pub open spec fn decimal(n: nat) -> Seq<char>
    decreases n,
{
    if n < 10 {
        seq![digit_char(n)]
    } else {
        decimal(n / 10).push(digit_char(n % 10))
    }
}

fn digit_to_char(d: u64) -> (c: char)
    requires
        d < 10,
    ensures
        c == digit_char(d as nat),
{
    let b: u8 = (d as u8) + 48;
    b as char
}

/// The decimal text of `n`.
pub fn decimal_text(n: u64) -> (r: Vec<char>)
    ensures
        r@ == decimal(n as nat),
    decreases n,
{
    if n < 10 {
        let mut r: Vec<char> = Vec::new();
        r.push(digit_to_char(n));
        r
    } else {
        let mut r = decimal_text(n / 10);
        r.push(digit_to_char(n % 10));
        r
    }
}

}
