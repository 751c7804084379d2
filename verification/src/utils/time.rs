//! Database timestamps and the daily monitoring window.

use chrono::{Datelike, Timelike};
use vstd::prelude::*;
use crate::text::opt_str_view;

use crate::text::{digits, from_chars, push_digits};

verus! {

/// A time of day: whole seconds since midnight and the fraction in
/// nanoseconds (a leap second carries `nanos >= 1_000_000_000`).
#[derive(Clone, Copy, Debug, PartialEq, Eq, Structural)]
pub struct TimeOfDay {
    pub seconds: u32,
    pub nanos: u32,
}

impl TimeOfDay {
    /// The range that a clock reading occupies.
    pub open spec fn wf(self) -> bool {
        self.seconds < 86400 && self.nanos < 2_000_000_000
    }

    /// Chronological order: `self` is not after `other`.
    pub open spec fn le(self, other: TimeOfDay) -> bool {
        self.seconds < other.seconds || (self.seconds == other.seconds && self.nanos
            <= other.nanos)
    }

    /// `self` is strictly before `other`.
    pub open spec fn lt(self, other: TimeOfDay) -> bool {
        self.le(other) && self != other
    }

    /// The time `hour:minute:second`, when the fields name one.
    pub fn from_hms(hour: u32, minute: u32, second: u32) -> (r: Option<TimeOfDay>)
        ensures
            r is Some <==> (hour < 24 && minute < 60 && second < 60),
            r matches Some(t) ==> t.wf() && t.seconds == hour * 3600 + minute * 60 + second
                && t.nanos == 0,
    {
        if hour < 24 && minute < 60 && second < 60 {
            Some(TimeOfDay { seconds: hour * 3600 + minute * 60 + second, nanos: 0 })
        } else {
            None
        }
    }
}

fn time_le(a: TimeOfDay, b: TimeOfDay) -> (r: bool)
    ensures
        r == a.le(b),
{
    a.seconds < b.seconds || (a.seconds == b.seconds && a.nanos <= b.nanos)
}

/// What chrono's `NaiveTime::parse_from_str(text, "%H:%M")` gives, as
/// `(hour, minute)`.
pub uninterp spec fn hhmm_parse(text: Seq<char>) -> Option<(u32, u32)>;

/// Calls chrono's `NaiveTime::parse_from_str` with the format `"%H:%M"` and
/// reads hour and minute of the result. Claimed: the result is the named
/// parse of `value`, and a parsed time has `hour < 24` and `minute < 60`
/// (chrono builds it with `from_hms_opt`).
#[verifier::external_body]
fn chrono_parse_hhmm(value: &str) -> (r: Option<(u32, u32)>)
    ensures
        r == hhmm_parse(value@),
        r matches Some(p) ==> p.0 < 24 && p.1 < 60,
{
    chrono::NaiveTime::parse_from_str(value, "%H:%M").ok().map(|t| (t.hour(), t.minute()))
}

/// The time of day that `text` names as `HH:MM`.
pub open spec fn parsed_hhmm(text: Seq<char>) -> Option<TimeOfDay> {
    match hhmm_parse(text) {
        Some(p) => Some(TimeOfDay { seconds: (p.0 * 3600 + p.1 * 60) as u32, nanos: 0 }),
        None => None,
    }
}

/// Parses an `HH:MM` monitoring time.
pub fn parse_hhmm(value: &str) -> (r: Option<TimeOfDay>)
    ensures
        r == parsed_hhmm(value@),
        r matches Some(t) ==> t.wf(),
{
    match chrono_parse_hhmm(value) {
        Some((h, m)) => Some(TimeOfDay { seconds: h * 3600 + m * 60, nanos: 0 }),
        None => None,
    }
}

/// The optional bound `text` parsed as `HH:MM`.
pub open spec fn bound(text: Option<Seq<char>>) -> Option<TimeOfDay> {
    match text {
        Some(t) => parsed_hhmm(t),
        None => None,
    }
}

/// Whether `now` lies in the window `[start, end]`: a window that is missing,
/// unparsable or empty restricts nothing, a window whose start comes before its
/// end is a same-day range with both ends included, and any other wraps past
/// midnight.
pub open spec fn window_contains(
    start: Option<TimeOfDay>,
    end: Option<TimeOfDay>,
    now: TimeOfDay,
) -> bool {
    match (start, end) {
        (Some(s), Some(e)) => if s == e {
            true
        } else if s.lt(e) {
            s.le(now) && now.le(e)
        } else {
            s.le(now) || now.le(e)
        },
        _ => true,
    }
}

/// Whether account monitoring may run at `now`.
pub fn in_monitoring_window(start: Option<&str>, end: Option<&str>, now: TimeOfDay) -> (r: bool)
    ensures
        r == window_contains(bound(opt_str_view(start)), bound(opt_str_view(end)), now),
{
    let s = match start {
        Some(t) => parse_hhmm(t),
        None => None,
    };
    let e = match end {
        Some(t) => parse_hhmm(t),
        None => None,
    };
    match (s, e) {
        (Some(s), Some(e)) => {
            if s == e {
                true
            } else if time_le(s, e) {
                time_le(s, now) && time_le(now, e)
            } else {
                time_le(s, now) || time_le(now, e)
            }
        },
        _ => true,
    }
}

/// A window and its reverse share no time of day but their two bounds.
pub proof fn lemma_window_and_reverse_meet_at_bounds(s: TimeOfDay, e: TimeOfDay, now: TimeOfDay)
    requires
        s != e,
        window_contains(Some(s), Some(e), now),
        window_contains(Some(e), Some(s), now),
    ensures
        now == s || now == e,
{
}

/// Every time of day lies in a window or in its reverse.
pub proof fn lemma_window_or_reverse(s: TimeOfDay, e: TimeOfDay, now: TimeOfDay)
    ensures
        window_contains(Some(s), Some(e), now) || window_contains(Some(e), Some(s), now),
{
}

/// A UTC date and time as chrono's accessors report it.
#[derive(Clone, Copy, Debug, PartialEq, Eq, Structural)]
pub struct UtcFields {
    pub year: i32,
    pub month: u32,
    pub day: u32,
    pub hour: u32,
    pub minute: u32,
    pub second: u32,
    pub nanosecond: u32,
}

impl UtcFields {
    /// The ranges of the fields of a date and time.
    pub open spec fn wf(self) -> bool {
        &&& 1 <= self.month <= 12
        &&& 1 <= self.day <= 31
        &&& self.hour < 24
        &&& self.minute < 60
        &&& self.second < 60
        &&& self.nanosecond < 2_000_000_000
    }
}

/// chrono's `%Y`: four digits for years 0 to 9999, otherwise a sign and at
/// least four digits.
pub open spec fn year_text(y: int) -> Seq<char> {
    if 0 <= y < 10000 {
        digits(y as nat, 4)
    } else if y < 0 {
        seq!['-'] + digits((-y) as nat, 4)
    } else {
        seq!['+'] + digits(y as nat, 4)
    }
}

/// The database timestamp format `%Y-%m-%dT%H:%M:%SZ` of `f` (a leap second
/// shows as second 60).
pub open spec fn timestamp_text(f: UtcFields) -> Seq<char> {
    year_text(f.year as int) + seq!['-'] + digits(f.month as nat, 2) + seq!['-'] + digits(
        f.day as nat,
        2,
    ) + seq!['T'] + digits(f.hour as nat, 2) + seq![':'] + digits(f.minute as nat, 2) + seq![
        ':',
    ] + digits((f.second + f.nanosecond / 1_000_000_000) as nat, 2) + seq!['Z']
}

/// Formats a UTC time as the database timestamp `YYYY-MM-DDTHH:MM:SSZ`.
pub fn utc_datetime_string(value: &UtcFields) -> (r: String)
    requires
        value.wf(),
    ensures
        r@ == timestamp_text(*value),
{
    let mut out: Vec<char> = Vec::new();
    let y = value.year;
    if 0 <= y && y < 10000 {
        push_digits(&mut out, y as u64, 4);
    } else if y < 0 {
        out.push('-');
        push_digits(&mut out, (-(y as i64)) as u64, 4);
    } else {
        out.push('+');
        push_digits(&mut out, y as u64, 4);
    }
    out.push('-');
    push_digits(&mut out, value.month as u64, 2);
    out.push('-');
    push_digits(&mut out, value.day as u64, 2);
    out.push('T');
    push_digits(&mut out, value.hour as u64, 2);
    out.push(':');
    push_digits(&mut out, value.minute as u64, 2);
    out.push(':');
    push_digits(&mut out, (value.second + value.nanosecond / 1_000_000_000) as u64, 2);
    out.push('Z');
    assert(out@ =~= timestamp_text(*value));
    from_chars(out.as_slice())
}

/// Reads chrono's `Utc::now()` field by field. Claimed: the fields are those
/// of a date and time (chrono's accessors give months 1-12, days 1-31, hours
/// below 24, minutes and seconds below 60, nanoseconds below 2e9); which time
/// it is depends on the clock and is left unsaid.
#[verifier::external_body]
fn utc_now() -> (r: UtcFields)
    ensures
        r.wf(),
{
    let t = chrono::Utc::now();
    UtcFields {
        year: t.year(),
        month: t.month(),
        day: t.day(),
        hour: t.hour(),
        minute: t.minute(),
        second: t.second(),
        nanosecond: t.nanosecond(),
    }
}

/// Reads chrono's `Utc::now() - Duration::days(days)` field by field. Claimed
/// as of `utc_now`; that the time is `days` days before the clock's reading
/// is left unsaid, as the reading itself is. `Duration::days` panics only
/// beyond about 1.07e11 days, and the subtraction only when it leaves
/// chrono's years -262142..=262142: with the clock in years 1..=9999,
/// 90,000,000 days (about 246,000 years) either way stay inside them.
#[verifier::external_body]
fn utc_days_ago(days: i64) -> (r: UtcFields)
    requires
        -90_000_000 <= days <= 90_000_000,
    ensures
        r.wf(),
{
    let t = chrono::Utc::now() - chrono::Duration::days(days);
    UtcFields {
        year: t.year(),
        month: t.month(),
        day: t.day(),
        hour: t.hour(),
        minute: t.minute(),
        second: t.second(),
        nanosecond: t.nanosecond(),
    }
}

/// Reads chrono's `Utc::now() - Duration::hours(hours)` field by field.
/// Claimed as of `utc_days_ago`, over the same span of time in hours.
#[verifier::external_body]
fn utc_hours_ago(hours: i64) -> (r: UtcFields)
    requires
        -2_160_000_000 <= hours <= 2_160_000_000,
    ensures
        r.wf(),
{
    let t = chrono::Utc::now() - chrono::Duration::hours(hours);
    UtcFields {
        year: t.year(),
        month: t.month(),
        day: t.day(),
        hour: t.hour(),
        minute: t.minute(),
        second: t.second(),
        nanosecond: t.nanosecond(),
    }
}

/// Whether `s` is the database timestamp of some date and time.
pub open spec fn is_timestamp_text(s: Seq<char>) -> bool {
    exists|f: UtcFields| f.wf() && s == timestamp_text(f)
}

/// The current UTC time as a database timestamp.
pub fn utc_now_string() -> (r: String)
    ensures
        is_timestamp_text(r@),
{
    let f = utc_now();
    utc_datetime_string(&f)
}

/// The UTC time `days` days ago as a database timestamp.
pub fn utc_days_ago_string(days: i64) -> (r: String)
    requires
        -90_000_000 <= days <= 90_000_000,
    ensures
        is_timestamp_text(r@),
{
    let f = utc_days_ago(days);
    utc_datetime_string(&f)
}

/// The UTC time `hours` hours ago as a database timestamp.
pub fn utc_hours_ago_string(hours: i64) -> (r: String)
    requires
        -2_160_000_000 <= hours <= 2_160_000_000,
    ensures
        is_timestamp_text(r@),
{
    let f = utc_hours_ago(hours);
    utc_datetime_string(&f)
}

/// std's `Instant`, carried through as an opaque value.
#[verifier::external_type_specification]
#[verifier::external_body]
pub struct ExInstant(std::time::Instant);

/// Calls std's `Instant::elapsed` and `Duration::as_millis`. Nothing is
/// claimed: the result depends on the clock.
#[verifier::external_body]
fn instant_elapsed_millis(started: &std::time::Instant) -> u128 {
    started.elapsed().as_millis()
}

/// Milliseconds elapsed since `started`, truncated to `i64` as `as` does.
/// No contract gives the value: it is read from the clock.
pub fn elapsed_millis(started: std::time::Instant) -> i64 {
    let ms = instant_elapsed_millis(&started);
    #[verifier::truncate]
    (ms as i64)
}

} // verus!
