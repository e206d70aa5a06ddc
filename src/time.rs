use vstd::prelude::*;

verus! {

/// What humantime makes of a duration text: whole seconds and the nanoseconds beyond them.
pub uninterp spec fn human_duration(s: Seq<char>) -> Option<(u64, u32)>;

/// The RFC 3339 text that chrono writes for a UTC instant given in seconds since
/// the Unix epoch, or `None` where the instant is outside chrono's calendar.
pub uninterp spec fn rfc3339_text(secs: i64) -> Option<Seq<char>>;

/// The instant, in seconds since the Unix epoch, that chrono reads from an
/// RFC 3339 text, or `None` where the text is not RFC 3339.
pub uninterp spec fn rfc3339_seconds(s: Seq<char>) -> Option<i64>;

/// Largest whole number of seconds in a chrono `TimeDelta` (`i64::MAX` milliseconds).
pub const DELTA_MAX_SECS: u64 = 9_223_372_036_854_775;

/// Nanoseconds beyond `DELTA_MAX_SECS` that a chrono `TimeDelta` still holds.
pub const DELTA_MAX_NANOS: u32 = 807_000_000;

/// Most ASCII digits that a duration text may hold. humantime panics only
/// where its running total of seconds reaches `u64::MAX` together with a carry
/// of nanoseconds; with at most this many digits the total stays below
/// `(10^11 + 11) * 31_557_600` seconds, far under `u64::MAX`.
pub const MAX_DURATION_DIGITS: usize = 11;

/// How many ASCII digits the text holds.
pub open spec fn digit_count(s: Seq<char>) -> nat
    decreases s.len(),
{
    if s.len() == 0 {
        0
    } else {
        digit_count(s.drop_last()) + if '0' <= s.last() && s.last() <= '9' {
            1nat
        } else {
            0nat
        }
    }
}

/// Relies on humantime::parse_duration, which reads texts such as "1h 30m";
/// `std::time::Duration` keeps its sub-second part below one second.
#[verifier::external_body]
fn parse_human_duration(s: &str) -> (r: Option<(u64, u32)>)
    requires
        digit_count(s@) <= MAX_DURATION_DIGITS,
    ensures
        r == human_duration(s@),
        r matches Some(p) ==> p.1 < 1_000_000_000,
{
    match humantime::parse_duration(s) {
        Ok(d) => Some((d.as_secs(), d.subsec_nanos())),
        Err(_) => None,
    }
}

/// Relies on chrono::TimeDelta::from_std, which accepts a duration of at most
/// `i64::MAX` milliseconds, and on `num_seconds`, which gives its whole seconds.
#[verifier::external_body]
fn delta_from_std(secs: u64, nanos: u32) -> (r: Option<i64>)
    requires
        nanos < 1_000_000_000,
    ensures
        r == (if secs < DELTA_MAX_SECS || (secs == DELTA_MAX_SECS && nanos <= DELTA_MAX_NANOS) {
            Some(secs as i64)
        } else {
            None
        }),
{
    match chrono::TimeDelta::from_std(std::time::Duration::new(secs, nanos)) {
        Ok(d) => Some(d.num_seconds()),
        Err(_) => None,
    }
}

/// Relies on chrono's `DateTime::from_timestamp` and `to_rfc3339`.
#[verifier::external_body]
fn format_rfc3339(secs: i64) -> (r: Option<String>)
    ensures
        match r {
            Some(s) => rfc3339_text(secs) == Some(s@),
            None => rfc3339_text(secs).is_none(),
        },
{
    chrono::DateTime::from_timestamp(secs, 0).map(|d| d.to_rfc3339())
}

/// Relies on chrono's `DateTime::parse_from_rfc3339` and `timestamp`.
#[verifier::external_body]
fn parse_rfc3339(s: &str) -> (r: Option<i64>)
    ensures
        r == rfc3339_seconds(s@),
{
    chrono::DateTime::parse_from_rfc3339(s).ok().map(|d| d.timestamp())
}

/// Whole seconds of a timeout text, as the duration parser and chrono's
/// `TimeDelta` read it together; `None` for a text with more than
/// `MAX_DURATION_DIGITS` digits.
pub open spec fn timeout_seconds(s: Seq<char>) -> Option<i64> {
    if digit_count(s) > MAX_DURATION_DIGITS {
        None
    } else {
        match human_duration(s) {
            Some(p) => if p.0 < DELTA_MAX_SECS || (p.0 == DELTA_MAX_SECS && p.1 <= DELTA_MAX_NANOS) {
                Some(p.0 as i64)
            } else {
                None
            },
            None => None,
        }
    }
}

fn count_digits(s: &str) -> (r: usize)
    ensures
        r == digit_count(s@),
{
    let n = s.unicode_len();
    let mut count: usize = 0;
    let mut i: usize = 0;
    while i < n
        invariant
            n == s@.len(),
            i <= n,
            count == digit_count(s@.subrange(0, i as int)),
            count <= i,
        decreases n - i,
    {
        let c = s.get_char(i);
        proof {
            assert(s@.subrange(0, i + 1).drop_last() == s@.subrange(0, i as int));
        }
        if '0' <= c && c <= '9' {
            count = count + 1;
        }
        i = i + 1;
    }
    assert(s@.subrange(0, n as int) == s@);
    count
}

/// Reads a timeout such as "2h 30m" as whole seconds; `None` where the text is
/// not a duration, holds more than `MAX_DURATION_DIGITS` digits, or exceeds
/// what a `TimeDelta` holds.
pub fn parse_timeout_duration(s: &str) -> (r: Option<i64>)
    ensures
        r == timeout_seconds(s@),
        r matches Some(d) ==> d >= 0,
{
    if count_digits(s) > MAX_DURATION_DIGITS {
        return None;
    }
    match parse_human_duration(s) {
        Some(p) => delta_from_std(p.0, p.1),
        None => None,
    }
}

/// The RFC 3339 text of an instant; `None` outside chrono's calendar.
pub fn timestamp_text(secs: i64) -> (r: Option<String>)
    ensures
        match r {
            Some(s) => rfc3339_text(secs) == Some(s@),
            None => rfc3339_text(secs).is_none(),
        },
{
    format_rfc3339(secs)
}

/// The instant written in an RFC 3339 text; `None` where it is not one.
pub fn parse_timestamp(s: &str) -> (r: Option<i64>)
    ensures
        r == rfc3339_seconds(s@),
{
    parse_rfc3339(s)
}

/// Latest instant that the store keeps: 9999-12-31T23:59:59Z, the last one
/// that RFC 3339 writes with a four-digit year.
pub const MAX_STORED_INSTANT: i64 = 253_402_300_799;

/// Earliest instant that the store keeps: 0001-01-01T00:00:00Z.
pub const MIN_STORED_INSTANT: i64 = -62_135_596_800;

pub open spec fn storable(t: i64) -> bool {
    MIN_STORED_INSTANT <= t <= MAX_STORED_INSTANT
}

/// Expiry instant `now + duration`; `None` where it lies after `MAX_STORED_INSTANT`.
pub fn expiry_after(now: i64, duration: i64) -> (r: Option<i64>)
    requires
        duration >= 0,
    ensures
        r == (if now + duration <= MAX_STORED_INSTANT {
            Some((now + duration) as i64)
        } else {
            None
        }),
{
    if now > MAX_STORED_INSTANT - duration {
        None
    } else {
        Some(now + duration)
    }
}

/// How long an entity has left before it expires.
#[derive(Clone, Copy, Debug, PartialEq, Eq, Structural)]
pub enum TimeRemaining {
    /// No expiry is set.
    Never,
    /// The expiry has passed.
    Expired,
    /// Whole hours and the whole minutes beyond them.
    Left { hours: i64, minutes: i64 },
}

/// Time left at `now` until `timeout`: expired once `now` reaches it, else the
/// difference split into whole hours and minutes, the seconds dropped.
pub fn time_remaining(timeout: Option<i64>, now: i64) -> (r: TimeRemaining)
    ensures
        r == (match timeout {
            None => TimeRemaining::Never,
            Some(t) => if now >= t {
                TimeRemaining::Expired
            } else {
                TimeRemaining::Left {
                    hours: ((t - now) / 3600) as i64,
                    minutes: (((t - now) % 3600) / 60) as i64,
                }
            },
        }),
{
    match timeout {
        None => TimeRemaining::Never,
        Some(t) => if now >= t {
            TimeRemaining::Expired
        } else {
            let left: i128 = t as i128 - now as i128;
            let hours: i128 = left / 3600;
            let minutes: i128 = (left % 3600) / 60;
            assert(0 < left && hours <= left && minutes < 60) by (nonlinear_arith)
                requires left == t - now, t > now, hours == left / 3600, minutes == (left % 3600) / 60;
            TimeRemaining::Left { hours: hours as i64, minutes: minutes as i64 }
        },
    }
}

} // verus!
