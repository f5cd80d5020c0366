//! Timestamp and duration parsing.
//!
//! Timestamps arrive as RFC 3339 date-time-with-offset strings and are turned
//! into epoch milliseconds. Durations arrive in a restricted ISO-8601 grammar:
//! `P`, then either a single week component (`P3W`) or optional year, month
//! and day components followed by an optional `T` and optional hour, minute
//! and second components, each a nonnegative integer, in that order, with at
//! least one component present and nothing after the last one. A duration that
//! carries a year or month component is rejected outright: the real-world
//! length of a year or month depends on the calendar, so it has no fixed
//! millisecond count. The numeric result saturates at the largest `i64`
//! rather than overflowing.

use vstd::prelude::*;

use crate::errors::ParseError;

verus! {

/// What `chrono` computes for an RFC 3339 string: `None` when the string is
/// not a valid date-time-with-offset, otherwise the instant as non-leap
/// milliseconds since the Unix epoch. The value depends on the string alone.
pub uninterp spec fn rfc3339_millis(s: Seq<char>) -> Option<int>;

/// Relies on chrono's `DateTime::parse_from_rfc3339`, which accepts exactly
/// the valid RFC 3339 date-time strings, and `DateTime::timestamp_millis`,
/// which returns the instant as non-leap milliseconds since the Unix epoch.
/// Both depend on the input string alone.
#[verifier::external_body]
fn parse_rfc3339_millis(value: &str) -> (r: Option<i64>)
    ensures
        r is Some <==> rfc3339_millis(value@) is Some,
        r is Some ==> r->0 as int == rfc3339_millis(value@)->0,
{
    chrono::DateTime::parse_from_rfc3339(value).ok().map(|dt| dt.timestamp_millis())
}

/// Parse a date-time-with-offset string into epoch milliseconds.
/// Any other input is a parse error.
pub fn parse_datetime(value: &str) -> (r: Result<i64, ParseError>)
    ensures
        r is Ok <==> rfc3339_millis(value@) is Some,
        r is Ok ==> rfc3339_millis(value@) == Some(r->Ok_0 as int),
        r is Err ==> r->Err_0 == ParseError::InvalidTimestamp,
{
    match parse_rfc3339_millis(value) {
        Some(ms) => Ok(ms),
        None => Err(ParseError::InvalidTimestamp),
    }
}

/// An ASCII decimal digit.
pub open spec fn is_ascii_digit(c: char) -> bool {
    48 <= c as int && c as int <= 57
}

/// The numeric value of one ASCII digit.
pub open spec fn digit_val(c: char) -> nat {
    (c as int - 48) as nat
}

/// The first position at or after `i` that does not hold a digit.
pub open spec fn scan_digits(s: Seq<char>, i: int) -> int
    decreases s.len() - i when 0 <= i <= s.len()
{
    if i < s.len() && is_ascii_digit(s[i]) {
        scan_digits(s, i + 1)
    } else {
        i
    }
}

/// The value of the decimal digits `s[i..j]`.
pub open spec fn digits_value(s: Seq<char>, i: int, j: int) -> nat
    decreases j - i when i <= j
{
    if i < j {
        digits_value(s, i, j - 1) * 10 + digit_val(s[j - 1])
    } else {
        0
    }
}

/// `v`, saturated at `cap`.
pub open spec fn capped(v: nat, cap: nat) -> nat {
    if v > cap {
        cap
    } else {
        v
    }
}

/// One duration component at position `i`: a nonempty digit run followed by
/// the unit letter. Yields the numeric value and the position after the unit.
pub open spec fn spec_component(s: Seq<char>, i: int, unit: char) -> Option<(nat, int)> {
    let j = scan_digits(s, i);
    if i < j && j < s.len() && s[j] == unit {
        Some((digits_value(s, i, j), j + 1))
    } else {
        None
    }
}

/// The value of an optional component, zero when absent.
pub open spec fn opt_value(c: Option<(nat, int)>) -> nat {
    match c {
        Some(p) => p.0,
        None => 0,
    }
}

/// Where parsing continues after an optional component.
pub open spec fn opt_next(c: Option<(nat, int)>, i: int) -> int {
    match c {
        Some(p) => p.1,
        None => i,
    }
}

/// What a duration string denotes under the restricted grammar.
pub enum DurationOutcome {
    /// The string does not follow the grammar.
    Invalid,
    /// The string carries a year or month component.
    Calendar,
    /// The total, in milliseconds, before any saturation.
    Millis(int),
}

/// The meaning of a duration string: `P` followed by either one week
/// component ending the string, or the ordered optional components
/// year, month, day, `T`, hour, minute, second, at least one present,
/// consuming the whole string.
pub open spec fn spec_duration_millis(s: Seq<char>) -> DurationOutcome {
    if s.len() == 0 || s[0] != 'P' {
        DurationOutcome::Invalid
    } else if spec_component(s, 1, 'W') is Some {
        let wk = spec_component(s, 1, 'W')->0;
        if wk.1 == s.len() {
            DurationOutcome::Millis((wk.0 * 604800000) as int)
        } else {
            DurationOutcome::Invalid
        }
    } else {
        let year = spec_component(s, 1, 'Y');
        let i1 = opt_next(year, 1);
        let month = spec_component(s, i1, 'M');
        let i2 = opt_next(month, i1);
        let day = spec_component(s, i2, 'D');
        let i3 = opt_next(day, i2);
        let has_t = i3 < s.len() && s[i3] == 'T';
        let hour = if has_t {
            spec_component(s, i3 + 1, 'H')
        } else {
            None
        };
        let i4 = if has_t {
            opt_next(hour, i3 + 1)
        } else {
            i3
        };
        let minute = if has_t {
            spec_component(s, i4, 'M')
        } else {
            None
        };
        let i5 = opt_next(minute, i4);
        let second = if has_t {
            spec_component(s, i5, 'S')
        } else {
            None
        };
        let i6 = opt_next(second, i5);
        if i6 != s.len() {
            DurationOutcome::Invalid
        } else if year is None && month is None && day is None && hour is None && minute is None
            && second is None {
            DurationOutcome::Invalid
        } else if year is Some || month is Some {
            DurationOutcome::Calendar
        } else {
            DurationOutcome::Millis(
                (opt_value(day) * 86400000 + opt_value(hour) * 3600000 + opt_value(minute) * 60000
                    + opt_value(second) * 1000) as int,
            )
        }
    }
}

/// `m` milliseconds, saturated to the `i64` range.
pub open spec fn clamp_millis(m: int) -> i64 {
    if m > i64::MAX {
        i64::MAX
    } else {
        m as i64
    }
}

proof fn lemma_scan_digits(s: Seq<char>, i: int)
    requires
        0 <= i <= s.len(),
    ensures
        i <= scan_digits(s, i) <= s.len(),
        forall|k: int| i <= k < scan_digits(s, i) ==> is_ascii_digit(s[k]),
    decreases s.len() - i,
{
    if i < s.len() && is_ascii_digit(s[i]) {
        lemma_scan_digits(s, i + 1);
    }
}

proof fn lemma_capped_mul(t: nat, k: nat, cap: nat)
    requires
        k >= 1,
    ensures
        capped(capped(t, cap) * k, cap) == capped(t * k, cap),
{
    if t > cap {
        assert(t * k >= t) by (nonlinear_arith)
            requires
                k >= 1,
                t >= 0,
        ;
        assert(cap * k >= cap) by (nonlinear_arith)
            requires
                k >= 1,
                cap >= 0,
        ;
    }
}

proof fn lemma_capped_add(x: nat, y: nat, cap: nat)
    ensures
        capped((capped(x, cap) + capped(y, cap)) as nat, cap) == capped((x + y) as nat, cap),
{
}

fn scan_digits_exec(s: &str, start: usize, n: usize) -> (j: usize)
    requires
        n == s@.len(),
        start <= n,
    ensures
        start <= j <= n,
        j as int == scan_digits(s@, start as int),
{
    let mut i: usize = start;
    loop
        invariant
            start <= i <= n,
            n == s@.len(),
            scan_digits(s@, start as int) == scan_digits(s@, i as int),
        decreases n - i,
    {
        if i == n {
            return i;
        }
        let c = s.get_char(i);
        let u = c as u32;
        if !(48 <= u && u <= 57) {
            return i;
        }
        i = i + 1;
    }
}

fn digits_value_exec(s: &str, start: usize, end: usize) -> (v: u64)
    requires
        start <= end <= s@.len(),
        forall|k: int| start <= k < end ==> is_ascii_digit(s@[k]),
    ensures
        v as nat == capped(digits_value(s@, start as int, end as int), u64::MAX as nat),
{
    let mut acc: u64 = 0;
    let mut i: usize = start;
    while i < end
        invariant
            start <= i <= end <= s@.len(),
            forall|k: int| start <= k < end ==> is_ascii_digit(s@[k]),
            acc as nat == capped(digits_value(s@, start as int, i as int), u64::MAX as nat),
        decreases end - i,
    {
        let c = s.get_char(i);
        let u = c as u32;
        proof {
            assert(is_ascii_digit(s@[i as int]));
        }
        let d: u64 = (u - 48) as u64;
        let next: u64 = match acc.checked_mul(10) {
            Some(m) => match m.checked_add(d) {
                Some(x) => x,
                None => u64::MAX,
            },
            None => u64::MAX,
        };
        proof {
            let t = digits_value(s@, start as int, i as int);
            let dv = digit_val(s@[i as int]);
            assert(digits_value(s@, start as int, i as int + 1) == t * 10 + dv);
            if t > u64::MAX as nat {
                assert(t * 10 + dv >= t);
            }
        }
        acc = next;
        i = i + 1;
    }
    acc
}

fn component_exec(s: &str, i: usize, n: usize, unit: char) -> (r: Option<(u64, usize)>)
    requires
        n == s@.len(),
        i <= n,
    ensures
        r is Some <==> spec_component(s@, i as int, unit) is Some,
        r is Some ==> {
            let p = spec_component(s@, i as int, unit)->0;
            (r->0).0 as nat == capped(p.0, u64::MAX as nat) && (r->0).1 as int == p.1
                && (i as int) < p.1 && p.1 <= (n as int)
        },
{
    proof {
        lemma_scan_digits(s@, i as int);
    }
    let j = scan_digits_exec(s, i, n);
    if i < j && j < n {
        let c = s.get_char(j);
        if c == unit {
            let v = digits_value_exec(s, i, j);
            return Some((v, j + 1));
        }
    }
    None
}

/// Saturating product of two machine words.
fn sat_mul(a: u64, b: u64) -> (r: u64)
    ensures
        r as nat == capped((a as nat) * (b as nat), u64::MAX as nat),
{
    match a.checked_mul(b) {
        Some(x) => x,
        None => u64::MAX,
    }
}

/// Parse a duration of the restricted grammar into milliseconds, rejecting
/// year and month components and saturating at the largest `i64`.
#[verifier::rlimit(100)]
pub fn parse_absolute_duration(value: &str) -> (r: Result<i64, ParseError>)
    ensures
        r == match spec_duration_millis(value@) {
            DurationOutcome::Invalid => Result::<i64, ParseError>::Err(ParseError::InvalidDuration),
            DurationOutcome::Calendar => Result::<i64, ParseError>::Err(
                ParseError::CalendarDuration,
            ),
            DurationOutcome::Millis(m) => Result::<i64, ParseError>::Ok(clamp_millis(m)),
        },
{
    let n = value.unicode_len();
    if n == 0 {
        return Err(ParseError::InvalidDuration);
    }
    if value.get_char(0) != 'P' {
        return Err(ParseError::InvalidDuration);
    }
    if let Some((w, j)) = component_exec(value, 1, n, 'W') {
        if j == n {
            let ghost wv = (spec_component(value@, 1, 'W')->0).0;
            let ms = sat_mul(w, 604800000);
            proof {
                lemma_capped_mul(wv, 604800000, u64::MAX as nat);
            }
            return Ok(clamp_sat(ms, Ghost((wv * 604800000) as int)));
        } else {
            return Err(ParseError::InvalidDuration);
        }
    }
    let year = component_exec(value, 1, n, 'Y');
    let i1 = match year {
        Some(p) => p.1,
        None => 1,
    };
    let month = component_exec(value, i1, n, 'M');
    let i2 = match month {
        Some(p) => p.1,
        None => i1,
    };
    let day = component_exec(value, i2, n, 'D');
    let i3 = match day {
        Some(p) => p.1,
        None => i2,
    };
    let has_t = i3 < n && value.get_char(i3) == 'T';
    let hour = if has_t {
        component_exec(value, i3 + 1, n, 'H')
    } else {
        None
    };
    let i4 = if has_t {
        match hour {
            Some(p) => p.1,
            None => i3 + 1,
        }
    } else {
        i3
    };
    let minute = if has_t {
        component_exec(value, i4, n, 'M')
    } else {
        None
    };
    let i5 = match minute {
        Some(p) => p.1,
        None => i4,
    };
    let second = if has_t {
        component_exec(value, i5, n, 'S')
    } else {
        None
    };
    let i6 = match second {
        Some(p) => p.1,
        None => i5,
    };
    if i6 != n {
        return Err(ParseError::InvalidDuration);
    }
    if year.is_none() && month.is_none() && day.is_none() && hour.is_none() && minute.is_none()
        && second.is_none() {
        return Err(ParseError::InvalidDuration);
    }
    if year.is_some() || month.is_some() {
        return Err(ParseError::CalendarDuration);
    }
    let d = match day {
        Some(p) => p.0,
        None => 0,
    };
    let h = match hour {
        Some(p) => p.0,
        None => 0,
    };
    let mi = match minute {
        Some(p) => p.0,
        None => 0,
    };
    let sec = match second {
        Some(p) => p.0,
        None => 0,
    };
    let ghost s = value@;
    let ghost sp_day = opt_value(spec_component(s, i2 as int, 'D'));
    let ghost sp_hour = if has_t {
        opt_value(spec_component(s, i3 as int + 1, 'H'))
    } else {
        0
    };
    let ghost sp_min = if has_t {
        opt_value(spec_component(s, i4 as int, 'M'))
    } else {
        0
    };
    let ghost sp_sec = if has_t {
        opt_value(spec_component(s, i5 as int, 'S'))
    } else {
        0
    };
    let cap = u64::MAX;
    let t_day = sat_mul(d, 86400000);
    let t_hour = sat_mul(h, 3600000);
    let t_min = sat_mul(mi, 60000);
    let t_sec = sat_mul(sec, 1000);
    proof {
        lemma_capped_mul(sp_day, 86400000, cap as nat);
        lemma_capped_mul(sp_hour, 3600000, cap as nat);
        lemma_capped_mul(sp_min, 60000, cap as nat);
        lemma_capped_mul(sp_sec, 1000, cap as nat);
        lemma_capped_add((sp_day * 86400000) as nat, (sp_hour * 3600000) as nat, cap as nat);
        lemma_capped_add(
            (sp_day * 86400000 + sp_hour * 3600000) as nat,
            (sp_min * 60000) as nat,
            cap as nat,
        );
        lemma_capped_add(
            (sp_day * 86400000 + sp_hour * 3600000 + sp_min * 60000) as nat,
            (sp_sec * 1000) as nat,
            cap as nat,
        );
    }
    let ms = t_day.saturating_add(t_hour).saturating_add(t_min).saturating_add(t_sec);
    Ok(
        clamp_sat(
            ms,
            Ghost(
                (sp_day * 86400000 + sp_hour * 3600000 + sp_min * 60000 + sp_sec * 1000) as int,
            ),
        ),
    )
}

/// Clamp a saturated word to the `i64` range, given the exact mathematical
/// total it saturates.
fn clamp_sat(ms: u64, Ghost(total): Ghost<int>) -> (r: i64)
    requires
        total >= 0,
        ms as nat == capped(total as nat, u64::MAX as nat),
    ensures
        r == clamp_millis(total),
{
    if ms > i64::MAX as u64 {
        i64::MAX
    } else {
        ms as i64
    }
}

} // verus!

