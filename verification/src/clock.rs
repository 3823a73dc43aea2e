//! Time: the system clock, calendar dates through chrono, and the
//! Eastern-time trading windows derived from them.
//!
//! Timestamps are microseconds since 1970-01-01 UTC; dates are day counts
//! from 1970-01-01 (chrono's `to_epoch_days`).

use vstd::prelude::*;
use chrono::{DateTime, Datelike, NaiveDate, Weekday};
use crate::text::{parse_u32, spec_parse_u32};

verus! {

/// Microseconds in a day.
pub const DAY_MICROS: i64 = 86_400_000_000;

/// Microseconds in a minute.
pub const MINUTE_MICROS: i64 = 60_000_000;

/// One reading of the UTC clock.
#[derive(Debug, Clone, Copy)]
pub struct UtcClock {
    /// Microseconds since the Unix epoch.
    pub micros: i64,
    /// Calendar month, 1 to 12.
    pub month: u32,
    /// Hour of the day, 0 to 23.
    pub hour: u32,
    /// Minute of the hour, 0 to 59.
    pub minute: u32,
}

impl UtcClock {
    pub open spec fn valid(&self) -> bool {
        &&& self.micros >= 0
        &&& 1 <= self.month <= 12
        &&& self.hour < 24
        &&& self.minute < 60
    }
}

/// `std::time::SystemTime::now()` measured from `UNIX_EPOCH` with
/// `duration_since`, as whole seconds and the nanoseconds past them; `None`
/// when std reports the clock before the epoch (`duration_since` errs when
/// the other time is later). std documents `subsec_nanos` as less than
/// one billion. Nothing is claimed about which instant is read.
#[verifier::external_body]
fn system_time_since_epoch() -> (r: Option<(u64, u32)>)
    ensures
        r matches Some((s, n)) ==> n < 1_000_000_000,
{
    match std::time::SystemTime::now().duration_since(std::time::UNIX_EPOCH) {
        Ok(d) => Some((d.as_secs(), d.subsec_nanos())),
        Err(_) => None,
    }
}

/// The calendar month of the UTC date-time `secs` seconds after the epoch,
/// from chrono's `DateTime::from_timestamp(secs, 0)` and `month()`; `None`
/// where chrono reports the instant out of its range. chrono documents
/// proleptic Gregorian dates from year -262144 to 262143, so every instant
/// from the epoch up to 8·10¹² seconds (about year 255 000) is in range;
/// the month is that of the date on day `secs / 86400` (rounded down, as
/// chrono's `div_euclid`).
#[verifier::external_body]
fn utc_month_at(secs: i64) -> (r: Option<u32>)
    ensures
        0 <= secs <= 8_000_000_000_000 ==> r is Some,
        r matches Some(m) ==> 1 <= m <= 12 && exists|y: int, d: int|
            valid_month_day(y, m as int, d) && #[trigger] ymd_epoch_day(y, m as int, d) == secs / 86_400,
{
    match DateTime::from_timestamp(secs, 0) {
        Some(t) => Some(t.month()),
        None => None,
    }
}

/// Reads the system clock once: microseconds since the epoch, and the
/// month, hour and minute (UTC) of that instant. `None` when the clock
/// reads before the epoch or past the year 255 000; nothing is claimed
/// about which instant is read.
pub(crate) fn utc_now() -> (r: Option<UtcClock>)
    ensures
        r matches Some(c) ==> c.valid(),
{
    let (secs, nanos) = match system_time_since_epoch() {
        Some(t) => t,
        None => return None,
    };
    if secs > 8_000_000_000_000 {
        return None;
    }
    let s = secs as i64;
    let month = match utc_month_at(s) {
        Some(m) => m,
        None => return None,
    };
    let micros: i64 = s * 1_000_000 + (nanos / 1000) as i64;
    let hour = ((s / 3600) % 24) as u32;
    let minute = ((s / 60) % 60) as u32;
    Some(UtcClock { micros, month, hour, minute })
}

/// The UTC calendar day (days since 1970-01-01) of a timestamp.
pub open spec fn epoch_day_of(micros: int) -> int {
    micros / (DAY_MICROS as int)
}

/// The UTC calendar day of a timestamp (`date_naive()` as a day count).
pub fn epoch_day(micros: i64) -> (r: i64)
    ensures
        r == epoch_day_of(micros as int),
{
    if micros >= 0 {
        micros / DAY_MICROS
    } else {
        let q = micros / DAY_MICROS;
        if q * DAY_MICROS == micros {
            q
        } else {
            q - 1
        }
    }
}

// ── Calendar dates ────────────────────────────────────────────────────────────

pub open spec fn is_leap_year(y: int) -> bool {
    y % 4 == 0 && (y % 100 != 0 || y % 400 == 0)
}

pub open spec fn days_in_month(y: int, m: int) -> int {
    if m == 2 {
        if is_leap_year(y) { 29 } else { 28 }
    } else if m == 4 || m == 6 || m == 9 || m == 11 {
        30
    } else {
        31
    }
}

/// A month and day that exist in year `y` of the Gregorian calendar.
pub open spec fn valid_month_day(y: int, m: int, d: int) -> bool {
    1 <= m <= 12 && 1 <= d <= days_in_month(y, m)
}

/// Days from 1970-01-01 to the date `y-m-d` of the proleptic Gregorian
/// calendar (years counted astronomically, year 0 before year 1): whole
/// 400-year eras of 146097 days, then the days of the era up to the date,
/// with the year taken to start on March 1 so that leap days come last.
pub open spec fn ymd_epoch_day(y: int, m: int, d: int) -> int {
    let yp = if m <= 2 { y - 1 } else { y };
    let era = yp / 400;
    let yoe = yp - era * 400;
    let doy = (153 * (if m > 2 { m - 3 } else { m + 9 }) + 2) / 5 + d - 1;
    let doe = yoe * 365 + yoe / 4 - yoe / 100 + doy;
    era * 146097 + doe - 719468
}

/// Days from 1970-01-01 to the Monday of ISO week `w` of ISO year `y`:
/// week 1 is the week (Monday to Sunday) that holds January 4.
pub open spec fn iso_monday_epoch_day(y: int, w: int) -> int {
    let jan4 = ymd_epoch_day(y, 1, 4);
    // 1970-01-01 was a Thursday, so Monday is 0 in (day + 3) mod 7.
    let weekday = (jan4 + 3) % 7;
    jan4 - weekday + 7 * (w - 1)
}

/// ISO year `y` has 53 weeks: it starts on a Thursday, or it is a leap
/// year starting on a Wednesday.
pub open spec fn has_iso_week_53(y: int) -> bool {
    let weekday = (ymd_epoch_day(y, 1, 1) + 3) % 7;
    weekday == 3 || (is_leap_year(y) && weekday == 2)
}

/// `NaiveDate::from_ymd_opt(y, m, d)` as a day count (`to_epoch_days`).
/// chrono documents `None` for a month or day that does not exist and for
/// years outside its range; for years 1 to 9999 the result is `Some`
/// exactly when the date exists. chrono documents its dates as proleptic
/// Gregorian and `to_epoch_days` as the day count with 1970-01-01 as day
/// 0, an `i32`.
#[verifier::external_body]
pub(crate) fn ymd_epoch_days(y: i32, m: u32, d: u32) -> (r: Option<i64>)
    ensures
        1 <= y <= 9999 ==> (r is Some <==> valid_month_day(y as int, m as int, d as int)),
        r matches Some(n) ==> n == ymd_epoch_day(y as int, m as int, d as int) && i32::MIN <= n
            <= i32::MAX,
{
    match NaiveDate::from_ymd_opt(y, m, d) {
        Some(date) => Some(date.to_epoch_days() as i64),
        None => None,
    }
}

/// chrono's day count from 1970-01-01 of the date that
/// `NaiveDate::parse_from_str` reads from the text `s` with the format
/// `"%Y-%m-%d"`; `None` where chrono reports a parse error.
pub uninterp spec fn ymd_text_epoch_day(s: Seq<char>) -> Option<i64>;

/// `NaiveDate::parse_from_str(s, "%Y-%m-%d")` as a day count
/// (`to_epoch_days`), `None` on chrono's parse error. Which texts parse,
/// and to which day, is named rather than stated; the day count is an
/// `i32` in chrono.
#[verifier::external_body]
pub(crate) fn parse_ymd_epoch_days(s: &str) -> (r: Option<i64>)
    ensures
        r == ymd_text_epoch_day(s@),
        r matches Some(n) ==> i32::MIN <= n <= i32::MAX,
{
    match NaiveDate::parse_from_str(s, "%Y-%m-%d") {
        Ok(date) => Some(date.to_epoch_days() as i64),
        Err(_) => None,
    }
}

/// `NaiveDate::from_isoywd_opt(y, w, Weekday::Mon)` as a day count.
/// chrono returns `None` for week 0 and for weeks past the year's last
/// ISO week (52 or 53); every year has weeks 1 to 52, week 53 exactly in
/// the years that start on a Thursday (or on a Wednesday in a leap year),
/// and for years 1 to 9999 the Monday is in range. chrono documents ISO 8601 week dates (the
/// first week holds at least four days of the new year, so it holds
/// January 4) on the proleptic Gregorian calendar; the day count is an
/// `i32`. chrono computes `y - 1` or `y + 1` for weeks that
/// start or end in a neighbouring year, so the extreme `i32` years are
/// left out.
#[verifier::external_body]
pub(crate) fn iso_week_monday(y: i32, w: u32) -> (r: Option<i64>)
    requires
        i32::MIN < y < i32::MAX,
    ensures
        (w == 0 || w > 53) ==> r is None,
        (1 <= y <= 9999 && 1 <= w <= 52) ==> r is Some,
        (1 <= y <= 9999 && w == 53) ==> (r is Some <==> has_iso_week_53(y as int)),
        r matches Some(n) ==> n == iso_monday_epoch_day(y as int, w as int) && i32::MIN <= n
            <= i32::MAX,
{
    match NaiveDate::from_isoywd_opt(y, w, Weekday::Mon) {
        Some(date) => Some(date.to_epoch_days() as i64),
        None => None,
    }
}

// ── Eastern-time windows ──────────────────────────────────────────────────────

/// The hour offset of US Eastern time from UTC the daemon assumes:
/// daylight time (UTC-4) from March through November, standard time
/// (UTC-5) otherwise.
pub open spec fn et_offset_hours(month: int) -> int {
    if 3 <= month && month <= 11 { -4 } else { -5 }
}

/// Minutes since Eastern midnight for a UTC hour and minute.
pub open spec fn et_minutes(month: int, hour: int, minute: int) -> int {
    ((hour + et_offset_hours(month)) % 24) * 60 + minute
}

/// Minutes since Eastern midnight at a clock reading.
pub fn et_minutes_of(c: &UtcClock) -> (r: u32)
    requires
        c.valid(),
    ensures
        r == et_minutes(c.month as int, c.hour as int, c.minute as int),
        r < 1440,
{
    let offset: u32 = if c.month >= 3 && c.month <= 11 { 20 } else { 19 };
    let h = (c.hour + offset) % 24;
    proof {
        let o = et_offset_hours(c.month as int);
        assert((c.hour + offset) % 24 == (c.hour + o) % 24) by {
            assert(offset == o + 24);
            assert((c.hour + o + 24) % 24 == (c.hour + o) % 24) by (nonlinear_arith);
        }
    }
    h * 60 + c.minute
}

/// The regular session: from 9:30 up to (not including) 16:00 Eastern.
pub open spec fn spec_in_market_hours(c: UtcClock) -> bool {
    let m = et_minutes(c.month as int, c.hour as int, c.minute as int);
    570 <= m && m < 960
}

/// Whether a clock reading falls in the regular session, 9:30 to 16:00 Eastern.
pub fn in_market_hours(c: &UtcClock) -> (r: bool)
    requires
        c.valid(),
    ensures
        r == spec_in_market_hours(*c),
{
    let m = et_minutes_of(c);
    m >= 570 && m < 960
}

/// Whether the current time falls in the regular session, 9:30 to 16:00
/// Eastern; `false` when the clock cannot be read.
pub fn is_market_hours() -> (r: bool)
    ensures
        exists|c: UtcClock| c.valid() && r == spec_in_market_hours(c),
{
    match utc_now() {
        Some(now) => in_market_hours(&now),
        None => {
            proof {
                let c = UtcClock { micros: 0, month: 1, hour: 0, minute: 0 };
                assert(c.valid() && !spec_in_market_hours(c));
            }
            false
        },
    }
}

// ── Scan window ───────────────────────────────────────────────────────────────

/// `k` is the position of the first `:` in `s`.
pub open spec fn is_first_colon(s: Seq<char>, k: int) -> bool {
    0 <= k < s.len() && s[k] == ':' && !s.subrange(0, k).contains(':')
}

/// `"HH:MM"` as minutes after midnight: the text before the first `:` and
/// the text after it, each read as a `u32`; `None` without a `:` or when a
/// part does not parse.
pub open spec fn spec_parse_hhmm(s: Seq<char>) -> Option<int> {
    if exists|k: int| is_first_colon(s, k) {
        let k = choose|k: int| is_first_colon(s, k);
        match (spec_parse_u32(s.subrange(0, k)), spec_parse_u32(s.subrange(k + 1, s.len() as int))) {
            (Some(h), Some(m)) => Some(h * 60 + m),
            _ => None,
        }
    } else {
        None
    }
}

/// Parses `"HH:MM"` into minutes after midnight.
pub fn parse_hhmm(s: &str) -> (r: Option<u32>)
    requires
        spec_parse_hhmm(s@) matches Some(v) ==> v <= u32::MAX,
    ensures
        r matches Some(v) ==> spec_parse_hhmm(s@) == Some(v as int),
        r is None ==> spec_parse_hhmm(s@) is None,
{
    let n = s.unicode_len();
    let mut k: usize = 0;
    while k < n
        invariant
            n == s@.len(),
            k <= n,
            !s@.subrange(0, k as int).contains(':'),
            spec_parse_hhmm(s@) matches Some(v) ==> v <= u32::MAX,
        decreases n - k,
    {
        if s.get_char(k) == ':' {
            proof {
                let kk = k as int;
                assert(is_first_colon(s@, kk));
                let j = choose|j: int| is_first_colon(s@, j);
                assert(j == kk) by {
                    if j < kk {
                        assert(s@.subrange(0, kk)[j] == ':');
                        assert(s@.subrange(0, kk).contains(':'));
                    }
                    if kk < j {
                        assert(s@.subrange(0, j)[kk] == ':');
                        assert(s@.subrange(0, j).contains(':'));
                    }
                }
            }
            let h = parse_u32(s.substring_char(0, k));
            let m = parse_u32(s.substring_char(k + 1, n));
            return match (h, m) {
                (Some(h), Some(m)) => {
                    assert(spec_parse_hhmm(s@) == Some(h * 60 + m));
                    Some(h * 60 + m)
                },
                _ => None,
            };
        }
        proof {
            let next = s@.subrange(0, k + 1);
            assert forall|i: int| 0 <= i < k + 1 implies #[trigger] next[i] != ':' by {
                if i < k {
                    assert(next[i] == s@.subrange(0, k as int)[i]);
                }
            }
        }
        k = k + 1;
    }
    proof {
        assert(s@.subrange(0, k as int) =~= s@);
        if exists|j: int| is_first_colon(s@, j) {
            let j = choose|j: int| is_first_colon(s@, j);
            assert(s@.contains(':')) by {
                assert(s@[j] == ':');
            }
        }
    }
    None
}

/// 09:30: scan window start when the configured one does not parse.
pub const DEFAULT_SCAN_START: u32 = 570;
/// 15:30: scan window end when the configured one does not parse.
pub const DEFAULT_SCAN_END: u32 = 930;

/// Scanning happens while the broker reports the market open and the
/// Eastern time lies in `[start, end)` (defaults 09:30 and 15:30 when the
/// configured times do not parse).
pub open spec fn spec_scan_window_open(
    market_open: bool,
    c: UtcClock,
    start: Seq<char>,
    end: Seq<char>,
) -> bool {
    let m = et_minutes(c.month as int, c.hour as int, c.minute as int);
    let s = match spec_parse_hhmm(start) {
        Some(v) => v,
        None => DEFAULT_SCAN_START as int,
    };
    let e = match spec_parse_hhmm(end) {
        Some(v) => v,
        None => DEFAULT_SCAN_END as int,
    };
    market_open && s <= m && m < e
}

/// Whether a strategy may scan at this clock reading.
pub fn scan_window_open(market_open: bool, c: &UtcClock, start: &str, end: &str) -> (r: bool)
    requires
        c.valid(),
        spec_parse_hhmm(start@) matches Some(v) ==> v <= u32::MAX,
        spec_parse_hhmm(end@) matches Some(v) ==> v <= u32::MAX,
    ensures
        r == spec_scan_window_open(market_open, *c, start@, end@),
{
    if !market_open {
        return false;
    }
    let m = et_minutes_of(c);
    let s = match parse_hhmm(start) {
        Some(v) => v,
        None => DEFAULT_SCAN_START,
    };
    let e = match parse_hhmm(end) {
        Some(v) => v,
        None => DEFAULT_SCAN_END,
    };
    !(m < s || m >= e)
}

} // verus!
