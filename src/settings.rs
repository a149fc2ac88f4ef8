use vstd::prelude::*;

use crate::types::ValueString;

verus! {

/// Seconds between synchronizations when the setting is absent or malformed.
pub const DEFAULT_AUTO_SYNC_TIME: u32 = 5;

pub open spec fn is_digit(c: char) -> bool {
    '0' <= c && c <= '9'
}

/// The number that a string of decimal digits spells.
pub open spec fn digits_value(s: Seq<char>) -> int
    decreases s.len(),
{
    if s.len() == 0 {
        0
    } else {
        digits_value(s.drop_last()) * 10 + (s.last() as int - '0' as int)
    }
}

/// The digits of a decimal numeral, after an optional leading `+`.
pub open spec fn unsigned_digits(s: Seq<char>) -> Seq<char> {
    if s.len() > 0 && s[0] == '+' {
        s.drop_first()
    } else {
        s
    }
}

/// The value of an unsigned decimal numeral (an optional `+`, then one or
/// more digits) that fits in 32 bits.
pub open spec fn parsed_u32(s: Seq<char>) -> Option<u32> {
    let d = unsigned_digits(s);
    if d.len() > 0 && (forall|i: int| 0 <= i < d.len() ==> is_digit(#[trigger] d[i])) && digits_value(d)
        <= u32::MAX {
        Some(digits_value(d) as u32)
    } else {
        None
    }
}

proof fn lemma_digits_value_nonneg(s: Seq<char>)
    requires
        forall|i: int| 0 <= i < s.len() ==> is_digit(#[trigger] s[i]),
    ensures
        digits_value(s) >= 0,
    decreases s.len(),
{
    if s.len() > 0 {
        lemma_digits_value_nonneg(s.drop_last());
    }
}

/// Reads an unsigned decimal numeral that fits in 32 bits.
pub fn parse_u32(s: &str) -> (r: Option<u32>)
    ensures
        r == parsed_u32(s@),
{
    let n = s.unicode_len();
    let mut i: usize = 0;
    if n > 0 && s.get_char(0) == '+' {
        i = 1;
    }
    let start = i;
    let ghost d = unsigned_digits(s@);
    assert(d == s@.subrange(start as int, n as int));
    if start == n {
        return None;
    }
    let mut value: u64 = 0;
    while i < n
        invariant
            start <= i <= n,
            n == s@.len(),
            d == s@.subrange(start as int, n as int),
            d == unsigned_digits(s@),
            forall|j: int| start <= j < i ==> is_digit(#[trigger] s@[j]),
            value == digits_value(s@.subrange(start as int, i as int)),
            value <= u32::MAX,
        decreases n - i,
    {
        let c = s.get_char(i);
        if !('0' <= c && c <= '9') {
            assert(!is_digit(d[i - start]));
            return None;
        }
        let digit = (c as u32 - '0' as u32) as u64;
        let next = value * 10 + digit;
        assert(s@.subrange(start as int, i + 1).drop_last() == s@.subrange(start as int, i as int));
        if next > u32::MAX as u64 {
            proof {
                let t = s@.subrange(start as int, i + 1);
                assert forall|j: int| 0 <= j < i + 1 - start implies is_digit(#[trigger] t[j]) by {
                    assert(t[j] == s@[start + j]);
                }
                lemma_digits_value_nonneg(t);
                if forall|j: int| 0 <= j < d.len() ==> is_digit(#[trigger] d[j]) {
                    lemma_digits_prefix_bound(d, i + 1 - start);
                    assert(d.subrange(0, i + 1 - start) == t);
                }
            }
            return None;
        }
        value = next;
        i += 1;
    }
    assert(s@.subrange(start as int, n as int) == d);
    assert forall|j: int| 0 <= j < d.len() implies is_digit(#[trigger] d[j]) by {
        assert(d[j] == s@[start + j]);
    }
    Some(value as u32)
}

/// A numeral is worth at least as much as any of its prefixes.
proof fn lemma_digits_prefix_bound(d: Seq<char>, k: int)
    requires
        0 <= k <= d.len(),
        forall|i: int| 0 <= i < d.len() ==> is_digit(#[trigger] d[i]),
    ensures
        digits_value(d) >= digits_value(d.subrange(0, k)),
    decreases d.len(),
{
    if k < d.len() {
        let p = d.drop_last();
        assert forall|i: int| 0 <= i < p.len() implies is_digit(#[trigger] p[i]) by {
            assert(p[i] == d[i]);
        }
        lemma_digits_prefix_bound(p, k);
        assert(p.subrange(0, k) == d.subrange(0, k));
        lemma_digits_value_nonneg(p);
    } else {
        assert(d.subrange(0, k) == d);
    }
}

/// The `auto_sync_time` setting, from the rows that the settings table
/// holds under that key: the first row's value where it is an unsigned
/// 32-bit numeral, else the default.
pub open spec fn auto_sync_time_of(rows: Seq<ValueString>) -> u32 {
    if rows.len() == 0 {
        DEFAULT_AUTO_SYNC_TIME
    } else {
        match parsed_u32(rows[0].value@) {
            Some(v) => v,
            None => DEFAULT_AUTO_SYNC_TIME,
        }
    }
}

/// Reads the synchronization interval, in seconds, from the settings rows.
pub fn auto_sync_time(rows: &Vec<ValueString>) -> (r: u32)
    ensures
        r == auto_sync_time_of(rows@),
{
    if rows.len() == 0 {
        DEFAULT_AUTO_SYNC_TIME
    } else {
        match parse_u32(rows[0].value.as_str()) {
            Some(v) => v,
            None => DEFAULT_AUTO_SYNC_TIME,
        }
    }
}

/// The connection-acquire timeout, in seconds, for a synchronization
/// interval: one second less than the interval, and at least one second.
pub fn acquire_timeout_secs(interval: u32) -> (r: u64)
    ensures
        r == (if interval > 1 {
            interval - 1
        } else {
            1
        }),
{
    if interval > 1 {
        (interval - 1) as u64
    } else {
        1
    }
}

} // verus!
