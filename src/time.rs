//! Turning a target instant, written in the reference zone, into a delay in
//! seconds from a given "now".
use chrono::TimeZone;
use vstd::prelude::*;

verus! {

/// A wall-clock reading in the reference zone (`Asia/Seoul`), as plain fields.
#[derive(Clone, Copy, Debug, PartialEq, Eq, Structural)]
pub struct CalendarInstant {
    pub year: i32,
    pub month: u32,
    pub day: u32,
    pub hour: u32,
    pub minute: u32,
    pub second: u32,
    pub nanosecond: u32,
}

/// The date half of a structured timestamp.
#[derive(Clone, Copy, Debug, PartialEq, Eq, Structural)]
pub struct DateFields {
    pub year: u16,
    pub month: u8,
    pub day: u8,
}

/// The time-of-day half of a structured timestamp.
#[derive(Clone, Copy, Debug, PartialEq, Eq, Structural)]
pub struct TimeFields {
    pub hour: u8,
    pub minute: u8,
    pub second: u8,
    pub nanosecond: u32,
}

/// A timestamp whose source models the date and the time as optional parts.
#[derive(Clone, Copy, Debug, PartialEq, Eq, Structural)]
pub struct StructuredTimestamp {
    pub date: Option<DateFields>,
    pub time: Option<TimeFields>,
}

/// A target instant as it appears in a configuration.
#[derive(Clone, Debug)]
pub enum Timestamp {
    /// Separate date and time parts.
    Structured(StructuredTimestamp),
    /// Text in the fixed pattern `"YYYY MM DD HH mm"`.
    Text(String),
}

/// Which part of a structured timestamp was absent.
#[derive(Clone, Copy, Debug, PartialEq, Eq, Structural)]
pub enum FieldName {
    Date,
    Time,
}

/// Why a timestamp could not be turned into a delay.
#[derive(Clone, Copy, Debug, PartialEq, Eq, Structural)]
pub enum TimeError {
    /// The fields do not name a valid wall-clock time in the reference zone.
    InvalidCalendarValue,
    /// A required part of a structured timestamp is absent.
    MissingField(FieldName),
    /// The text does not follow the fixed pattern.
    MalformedTimestamp,
}

pub open spec fn is_leap_year(y: int) -> bool {
    (y % 4 == 0 && y % 100 != 0) || y % 400 == 0
}

pub open spec fn days_in_month(y: int, m: int) -> int {
    if m == 2 {
        if is_leap_year(y) {
            29
        } else {
            28
        }
    } else if m == 4 || m == 6 || m == 9 || m == 11 {
        30
    } else {
        31
    }
}

/// The fields form a calendar date and a time of day (no leap seconds).
pub open spec fn valid_fields(t: CalendarInstant) -> bool {
    &&& 1 <= t.month <= 12
    &&& 1 <= t.day <= days_in_month(t.year as int, t.month as int)
    &&& t.hour < 24
    &&& t.minute < 60
    &&& t.second < 60
    &&& t.nanosecond < 1_000_000_000
}

/// The epoch second of a wall-clock time in `Asia/Seoul`, when that wall-clock
/// time names exactly one instant there.
pub uninterp spec fn seoul_epoch_of(
    year: int,
    month: int,
    day: int,
    hour: int,
    minute: int,
    second: int,
) -> Option<int>;

pub open spec fn epoch_of(t: CalendarInstant) -> Option<int> {
    seoul_epoch_of(
        t.year as int,
        t.month as int,
        t.day as int,
        t.hour as int,
        t.minute as int,
        t.second as int,
    )
}

/// Relies on chrono's `TimeZone::with_ymd_and_hms` on chrono-tz's `Asia::Seoul`:
/// the instant of a local wall-clock time, with `single` keeping it only where
/// it is unique, and `timestamp` giving its whole epoch seconds.
#[verifier::external_body]
fn seoul_epoch(year: i32, month: u32, day: u32, hour: u32, minute: u32, second: u32) -> (r:
    Option<i64>)
    ensures
        r matches Some(e) ==> seoul_epoch_of(
            year as int,
            month as int,
            day as int,
            hour as int,
            minute as int,
            second as int,
        ) == Some(e as int),
        r is None ==> seoul_epoch_of(
            year as int,
            month as int,
            day as int,
            hour as int,
            minute as int,
            second as int,
        ) is None,
{
    chrono_tz::Asia::Seoul.with_ymd_and_hms(year, month, day, hour, minute, second).single().map(
        |dt| dt.timestamp(),
    )
}

/// The delay of a calendar instant from the epoch second `now`.
pub open spec fn instant_delay(t: CalendarInstant, now: int) -> Result<int, TimeError> {
    if !valid_fields(t) {
        Err(TimeError::InvalidCalendarValue)
    } else {
        match epoch_of(t) {
            Some(e) => Ok(e - now),
            None => Err(TimeError::InvalidCalendarValue),
        }
    }
}

pub open spec fn int_result(r: Result<i128, TimeError>) -> Result<int, TimeError> {
    match r {
        Ok(d) => Ok(d as int),
        Err(e) => Err(e),
    }
}

/// Every delay handed out lies between two differences of `i64` values.
pub open spec fn delay_in_range(r: Result<i128, TimeError>) -> bool {
    r matches Ok(d) ==> i64::MIN - i64::MAX <= d <= i64::MAX - i64::MIN
}

fn is_leap(year: i32) -> (r: bool)
    ensures
        r == is_leap_year(year as int),
{
    let a: i64 = if year < 0 {
        -(year as i64)
    } else {
        year as i64
    };
    let u: u64 = a as u64;
    assert(year as int % 4 == 0 <==> u as int % 4 == 0);
    assert(year as int % 100 == 0 <==> u as int % 100 == 0);
    assert(year as int % 400 == 0 <==> u as int % 400 == 0);
    (u % 4 == 0 && u % 100 != 0) || u % 400 == 0
}

/// Whether the fields form a valid date and time of day.
pub fn is_valid_instant(t: &CalendarInstant) -> (r: bool)
    ensures
        r == valid_fields(*t),
{
    if t.month < 1 || t.month > 12 || t.day < 1 {
        return false;
    }
    let dim: u32 = if t.month == 2 {
        if is_leap(t.year) {
            29
        } else {
            28
        }
    } else if t.month == 4 || t.month == 6 || t.month == 9 || t.month == 11 {
        30
    } else {
        31
    };
    t.day <= dim && t.hour < 24 && t.minute < 60 && t.second < 60 && t.nanosecond < 1_000_000_000
}

/// Delay in seconds from the epoch second `now` to the instant `t`, read in
/// the reference zone.
pub fn resolve_instant(t: &CalendarInstant, now: i64) -> (r: Result<i128, TimeError>)
    ensures
        int_result(r) == instant_delay(*t, now as int),
        delay_in_range(r),
{
    if !is_valid_instant(t) {
        return Err(TimeError::InvalidCalendarValue);
    }
    match seoul_epoch(t.year, t.month, t.day, t.hour, t.minute, t.second) {
        Some(e) => Ok(e as i128 - now as i128),
        None => Err(TimeError::InvalidCalendarValue),
    }
}

/// For a valid calendar instant that names one instant in the reference
/// zone, the delay is that instant's epoch second minus `now`, exactly.
pub proof fn lemma_delay_is_epoch_difference(t: CalendarInstant, now: int)
    requires
        valid_fields(t),
        epoch_of(t) is Some,
    ensures
        instant_delay(t, now) == Ok::<int, TimeError>(epoch_of(t)->Some_0 - now),
{
}

pub open spec fn is_digit(c: char) -> bool {
    '0' <= c <= '9'
}

/// The decimal value of a run of digits.
pub open spec fn digits_value(s: Seq<char>) -> int
    decreases s.len(),
{
    if s.len() == 0 {
        0
    } else {
        10 * digits_value(s.drop_last()) + (s.last() as int - '0' as int)
    }
}

pub open spec fn digit_run(s: Seq<char>, start: int, end: int) -> bool {
    forall|i: int| start <= i < end ==> is_digit(#[trigger] s[i])
}

/// `s` reads `YYYY MM DD HH mm`: digit groups of widths 4, 2, 2, 2, 2, one
/// space between each.
pub open spec fn follows_pattern(s: Seq<char>) -> bool {
    &&& s.len() == 16
    &&& digit_run(s, 0, 4)
    &&& s[4] == ' '
    &&& digit_run(s, 5, 7)
    &&& s[7] == ' '
    &&& digit_run(s, 8, 10)
    &&& s[10] == ' '
    &&& digit_run(s, 11, 13)
    &&& s[13] == ' '
    &&& digit_run(s, 14, 16)
}

pub open spec fn group(s: Seq<char>, start: int, end: int) -> int {
    digits_value(s.subrange(start, end))
}

/// The calendar instant that a text timestamp names, at second zero.
pub open spec fn instant_of_text(s: Seq<char>) -> Result<CalendarInstant, TimeError> {
    if follows_pattern(s) {
        Ok(
            CalendarInstant {
                year: group(s, 0, 4) as i32,
                month: group(s, 5, 7) as u32,
                day: group(s, 8, 10) as u32,
                hour: group(s, 11, 13) as u32,
                minute: group(s, 14, 16) as u32,
                second: 0,
                nanosecond: 0,
            },
        )
    } else {
        Err(TimeError::MalformedTimestamp)
    }
}

/// The calendar instant of a structured timestamp; the date is looked for first.
pub open spec fn instant_of_structured(s: StructuredTimestamp) -> Result<CalendarInstant, TimeError> {
    match s.date {
        None => Err(TimeError::MissingField(FieldName::Date)),
        Some(d) => match s.time {
            None => Err(TimeError::MissingField(FieldName::Time)),
            Some(t) => Ok(
                CalendarInstant {
                    year: d.year as i32,
                    month: d.month as u32,
                    day: d.day as u32,
                    hour: t.hour as u32,
                    minute: t.minute as u32,
                    second: t.second as u32,
                    nanosecond: t.nanosecond,
                },
            ),
        },
    }
}

pub open spec fn instant_of(ts: Timestamp) -> Result<CalendarInstant, TimeError> {
    match ts {
        Timestamp::Structured(s) => instant_of_structured(s),
        Timestamp::Text(s) => instant_of_text(s@),
    }
}

/// The delay of a configured timestamp from the epoch second `now`.
pub open spec fn timestamp_delay(ts: Timestamp, now: int) -> Result<int, TimeError> {
    match instant_of(ts) {
        Ok(t) => instant_delay(t, now),
        Err(e) => Err(e),
    }
}

proof fn lemma_digits_bound(s: Seq<char>)
    requires
        forall|i: int| 0 <= i < s.len() ==> is_digit(#[trigger] s[i]),
    ensures
        0 <= digits_value(s) < pow10(s.len()),
    decreases s.len(),
{
    if s.len() > 0 {
        lemma_digits_bound(s.drop_last());
    }
}

pub open spec fn pow10(n: nat) -> int
    decreases n,
{
    if n == 0 {
        1
    } else {
        10 * pow10((n - 1) as nat)
    }
}

/// Reads the digits `b[start..end]`, which mirror `s[start..end]`.
fn read_group(b: &[u8], start: usize, end: usize, Ghost(s): Ghost<Seq<char>>) -> (r: Option<u32>)
    requires
        start <= end <= b@.len(),
        end - start <= 4,
        b@.len() == s.len(),
        forall|i: int| 0 <= i < s.len() ==> '\0' <= #[trigger] s[i] <= '\u{7f}',
        forall|i: int| 0 <= i < s.len() ==> #[trigger] b@[i] == s[i] as u8,
    ensures
        r is Some <==> digit_run(s, start as int, end as int),
        r matches Some(v) ==> v as int == group(s, start as int, end as int),
{
    let mut v: u32 = 0;
    let mut i: usize = start;
    while i < end
        invariant
            start <= i <= end <= b@.len(),
            end - start <= 4,
            b@.len() == s.len(),
            forall|k: int| 0 <= k < s.len() ==> '\0' <= #[trigger] s[k] <= '\u{7f}',
            forall|k: int| 0 <= k < s.len() ==> #[trigger] b@[k] == s[k] as u8,
            digit_run(s, start as int, i as int),
            v as int == group(s, start as int, i as int),
        decreases end - i,
    {
        let c: u8 = b[i];
        assert(c == s[i as int] as u8);
        if c < 48 || c > 57 {
            assert(!is_digit(s[i as int]));
            return None;
        }
        assert(is_digit(s[i as int]));
        let ghost sub = s.subrange(start as int, i as int + 1);
        assert(sub.drop_last() =~= s.subrange(start as int, i as int));
        proof {
            lemma_digits_bound(s.subrange(start as int, i as int));
            assert(pow10((i - start) as nat) <= 1000) by {
                reveal_with_fuel(pow10, 4);
            }
        }
        v = v * 10 + (c - 48) as u32;
        i = i + 1;
    }
    Some(v)
}

/// Reads a text timestamp in the fixed pattern `"YYYY MM DD HH mm"`.
pub fn parse_text(s: &str) -> (r: Result<CalendarInstant, TimeError>)
    ensures
        r == instant_of_text(s@),
{
    broadcast use vstd::string::is_ascii_spec_bytes;

    if !s.is_ascii() {
        proof {
            if follows_pattern(s@) {
                assert forall|i: int| 0 <= i < s@.len() implies '\0' <= #[trigger] s@[i] <= '\u{7f}' by {
                    assert(is_digit(s@[i]) || s@[i] == ' ');
                }
                assert(vstd::string::is_ascii(s));
            }
        }
        return Err(TimeError::MalformedTimestamp);
    }
    let b: &[u8] = s.as_bytes();
    let ghost cs = s@;
    assert(forall|i: int| 0 <= i < cs.len() ==> '\0' <= #[trigger] cs[i] <= '\u{7f}');
    assert(forall|i: int| 0 <= i < cs.len() ==> #[trigger] b@[i] == cs[i] as u8);
    if b.len() != 16 || b[4] != 32 || b[7] != 32 || b[10] != 32 || b[13] != 32 {
        return Err(TimeError::MalformedTimestamp);
    }
    let year = read_group(b, 0, 4, Ghost(cs));
    let month = read_group(b, 5, 7, Ghost(cs));
    let day = read_group(b, 8, 10, Ghost(cs));
    let hour = read_group(b, 11, 13, Ghost(cs));
    let minute = read_group(b, 14, 16, Ghost(cs));
    match (year, month, day, hour, minute) {
        (Some(y), Some(mo), Some(d), Some(h), Some(mi)) => {
            proof {
                lemma_digits_bound(cs.subrange(0, 4));
                reveal_with_fuel(pow10, 5);
            }
            Ok(
                CalendarInstant {
                    year: y as i32,
                    month: mo,
                    day: d,
                    hour: h,
                    minute: mi,
                    second: 0,
                    nanosecond: 0,
                },
            )
        },
        _ => Err(TimeError::MalformedTimestamp),
    }
}

/// Reads a structured timestamp, which must hold both a date and a time.
pub fn instant_from_structured(s: &StructuredTimestamp) -> (r: Result<CalendarInstant, TimeError>)
    ensures
        r == instant_of_structured(*s),
{
    match s.date {
        None => Err(TimeError::MissingField(FieldName::Date)),
        Some(d) => match s.time {
            None => Err(TimeError::MissingField(FieldName::Time)),
            Some(t) => Ok(
                CalendarInstant {
                    year: d.year as i32,
                    month: d.month as u32,
                    day: d.day as u32,
                    hour: t.hour as u32,
                    minute: t.minute as u32,
                    second: t.second as u32,
                    nanosecond: t.nanosecond,
                },
            ),
        },
    }
}

/// Delay in seconds from the epoch second `now` to a configured timestamp.
pub fn resolve(ts: &Timestamp, now: i64) -> (r: Result<i128, TimeError>)
    ensures
        int_result(r) == timestamp_delay(*ts, now as int),
        delay_in_range(r),
{
    let inst = match ts {
        Timestamp::Structured(s) => instant_from_structured(s),
        Timestamp::Text(s) => parse_text(s.as_str()),
    };
    match inst {
        Ok(t) => resolve_instant(&t, now),
        Err(e) => Err(e),
    }
}

} // verus!
