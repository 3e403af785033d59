//! Decimal integer tokens: an optional sign followed by ASCII digits, as
//! Rust's integer `FromStr` reads them.
use vstd::prelude::*;
use vstd::string::*;

verus! {

pub open spec fn is_digit(c: char) -> bool {
    '0' <= c && c <= '9'
}

pub open spec fn digit_value(c: char) -> nat {
    (c as u32 - '0' as u32) as nat
}

pub open spec fn all_digits(s: Seq<char>) -> bool {
    forall|i: int| 0 <= i < s.len() ==> is_digit(#[trigger] s[i])
}

/// The number that a run of decimal digits spells.
pub open spec fn decimal(s: Seq<char>) -> nat
    decreases s.len(),
{
    if s.len() == 0 {
        0
    } else {
        decimal(s.drop_last()) * 10 + digit_value(s.last())
    }
}

/// The value of a non-empty run of digits that is at most `limit`.
pub open spec fn bounded_decimal(s: Seq<char>, limit: nat) -> Option<nat> {
    if s.len() > 0 && all_digits(s) && decimal(s) <= limit {
        Some(decimal(s))
    } else {
        None
    }
}

/// An unsigned token: an optional `+`, then digits, with a value at most `limit`.
pub open spec fn unsigned_value(s: Seq<char>, limit: nat) -> Option<nat> {
    if s.len() > 0 && s[0] == '+' {
        bounded_decimal(s.drop_first(), limit)
    } else {
        bounded_decimal(s, limit)
    }
}

/// A signed token: an optional `+` or `-`, then digits, with a value in `i32`.
pub open spec fn i32_value(s: Seq<char>) -> Option<int> {
    if s.len() > 0 && s[0] == '-' {
        match bounded_decimal(s.drop_first(), 0x8000_0000) {
            Some(v) => Some(-v),
            None => None,
        }
    } else {
        match unsigned_value(s, i32::MAX as nat) {
            Some(v) => Some(v as int),
            None => None,
        }
    }
}

/// Value of the digits `s[start..]`, if there is at least one, all are
/// digits, and the value is at most `limit`.
fn digits_from(s: &str, start: usize, limit: u64) -> (r: Option<u64>)
    requires
        start <= s@.len(),
        limit <= 0x1_0000_0000,
    ensures
        r == (match bounded_decimal(s@.subrange(start as int, s@.len() as int), limit as nat) {
            Some(v) => Some(v as u64),
            None => None,
        }),
{
    let n = s.unicode_len();
    if start >= n {
        return None;
    }
    let mut acc: u64 = 0;
    let mut over = false;
    let mut i = start;
    while i < n
        invariant
            start <= i <= n,
            n == s@.len(),
            limit <= 0x1_0000_0000,
            all_digits(s@.subrange(start as int, i as int)),
            !over ==> acc == decimal(s@.subrange(start as int, i as int)) && acc <= limit,
            over ==> decimal(s@.subrange(start as int, i as int)) > limit,
        decreases n - i,
    {
        let c = s.get_char(i);
        if !('0' <= c && c <= '9') {
            assert(s@.subrange(start as int, n as int)[i - start] == c);
            return None;
        }
        let d = (c as u32 - '0' as u32) as u64;
        proof {
            let p = s@.subrange(start as int, i + 1);
            assert(p.drop_last() =~= s@.subrange(start as int, i as int));
            assert(p.last() == c);
            assert(all_digits(p)) by {
                assert forall|k: int| 0 <= k < p.len() implies is_digit(#[trigger] p[k]) by {
                    if k < p.len() - 1 {
                        assert(p[k] == s@.subrange(start as int, i as int)[k]);
                    }
                }
            }
        }
        if !over {
            let next = acc * 10 + d;
            if next > limit {
                over = true;
            } else {
                acc = next;
            }
        }
        i = i + 1;
    }
    proof {
        assert(s@.subrange(start as int, i as int) =~= s@.subrange(start as int, n as int));
    }
    if over {
        None
    } else {
        Some(acc)
    }
}

proof fn lemma_drop_first_is_tail(s: Seq<char>)
    requires
        s.len() > 0,
    ensures
        s.drop_first() =~= s.subrange(1, s.len() as int),
        s =~= s.subrange(0, s.len() as int),
{
}

/// Reads an unsigned token whose value is at most `limit`.
fn unsigned_token(s: &str, limit: u64) -> (r: Option<u64>)
    requires
        limit <= 0x1_0000_0000,
    ensures
        r == (match unsigned_value(s@, limit as nat) {
            Some(v) => Some(v as u64),
            None => None,
        }),
{
    if s.unicode_len() > 0 && s.get_char(0) == '+' {
        proof {
            lemma_drop_first_is_tail(s@);
        }
        digits_from(s, 1, limit)
    } else {
        proof {
            assert(s@ =~= s@.subrange(0, s@.len() as int));
        }
        digits_from(s, 0, limit)
    }
}

pub open spec fn pow10(n: nat) -> nat
    decreases n,
{
    if n == 0 {
        1
    } else {
        10 * pow10((n - 1) as nat)
    }
}

/// A run of `n` digits spells a number below `10^n`.
pub proof fn lemma_decimal_below_pow10(s: Seq<char>)
    requires
        all_digits(s),
    ensures
        decimal(s) < pow10(s.len()),
    decreases s.len(),
{
    if s.len() > 0 {
        let p = s.drop_last();
        assert(all_digits(p)) by {
            assert forall|k: int| 0 <= k < p.len() implies is_digit(#[trigger] p[k]) by {
                assert(p[k] == s[k]);
            }
        }
        lemma_decimal_below_pow10(p);
        assert(is_digit(s[s.len() - 1]));
    }
}

/// Value of the digits `s[from..to]`, a field of at most four digits at a
/// fixed place, if all of them are digits.
pub fn fixed_digits(s: &str, from: usize, to: usize) -> (r: Option<u32>)
    requires
        from < to <= s@.len(),
        to - from <= 4,
    ensures
        r == (if all_digits(s@.subrange(from as int, to as int)) {
            Some(decimal(s@.subrange(from as int, to as int)) as u32)
        } else {
            None
        }),
        all_digits(s@.subrange(from as int, to as int)) ==> decimal(
            s@.subrange(from as int, to as int),
        ) < pow10((to - from) as nat),
{
    let t = s.substring_char(from, to);
    assert(t@ =~= t@.subrange(0, t@.len() as int));
    proof {
        reveal_with_fuel(pow10, 5);
        if all_digits(t@) {
            lemma_decimal_below_pow10(t@);
        }
        assert(t@.len() == to - from);
    }
    match digits_from(t, 0, 10000) {
        Some(v) => Some(v as u32),
        None => None,
    }
}

/// Reads a `u8` token.
pub fn parse_u8(s: &str) -> (r: Option<u8>)
    ensures
        r == (match unsigned_value(s@, u8::MAX as nat) {
            Some(v) => Some(v as u8),
            None => None,
        }),
{
    match unsigned_token(s, u8::MAX as u64) {
        Some(v) => Some(v as u8),
        None => None,
    }
}

/// Reads a `u32` token.
pub fn parse_u32(s: &str) -> (r: Option<u32>)
    ensures
        r == (match unsigned_value(s@, u32::MAX as nat) {
            Some(v) => Some(v as u32),
            None => None,
        }),
{
    match unsigned_token(s, u32::MAX as u64) {
        Some(v) => Some(v as u32),
        None => None,
    }
}

/// Reads an `i32` token.
pub fn parse_i32(s: &str) -> (r: Option<i32>)
    ensures
        r == (match i32_value(s@) {
            Some(v) => Some(v as i32),
            None => None,
        }),
{
    if s.unicode_len() > 0 && s.get_char(0) == '-' {
        proof {
            lemma_drop_first_is_tail(s@);
        }
        match digits_from(s, 1, 0x8000_0000) {
            Some(v) => Some((0 - v as i64) as i32),
            None => None,
        }
    } else {
        match unsigned_token(s, i32::MAX as u64) {
            Some(v) => Some(v as i32),
            None => None,
        }
    }
}

} // verus!
