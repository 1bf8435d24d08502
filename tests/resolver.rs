use webhook_reminder::time::{
    is_valid_instant, parse_text, resolve, resolve_instant, CalendarInstant, DateFields,
    FieldName, StructuredTimestamp, TimeError, TimeFields, Timestamp,
};

const NOW_0955: i64 = 1748739300;

fn at(year: i32, month: u32, day: u32, hour: u32, minute: u32) -> CalendarInstant {
    CalendarInstant { year, month, day, hour, minute, second: 0, nanosecond: 0 }
}

fn structured(year: u16, month: u8, day: u8, hour: u8, minute: u8) -> StructuredTimestamp {
    StructuredTimestamp {
        date: Some(DateFields { year, month, day }),
        time: Some(TimeFields { hour, minute, second: 0, nanosecond: 0 }),
    }
}

#[test]
fn delay_is_target_epoch_minus_now() {
    assert_eq!(resolve_instant(&at(2025, 6, 1, 10, 0), NOW_0955), Ok(300));
    assert_eq!(resolve_instant(&at(2025, 6, 1, 10, 0), 1748739600), Ok(0));
    assert_eq!(resolve_instant(&at(2025, 6, 1, 9, 0), NOW_0955), Ok(-3300));
    assert_eq!(resolve_instant(&at(2000, 1, 1, 0, 0), 0), Ok(946652400));
}

#[test]
fn seconds_count_but_subseconds_do_not() {
    let t = CalendarInstant { second: 30, nanosecond: 999_999_999, ..at(2025, 6, 1, 10, 0) };
    assert_eq!(resolve_instant(&t, NOW_0955), Ok(330));
}

#[test]
fn leap_day_is_valid_only_in_leap_years() {
    assert!(is_valid_instant(&at(2024, 2, 29, 12, 0)));
    assert!(is_valid_instant(&at(2000, 2, 29, 12, 0)));
    assert!(!is_valid_instant(&at(1900, 2, 29, 12, 0)));
    assert!(!is_valid_instant(&at(2025, 2, 29, 12, 0)));
    assert_eq!(resolve_instant(&at(2024, 2, 29, 12, 0), 0), Ok(1709175600));
}

#[test]
fn invalid_fields_are_rejected_not_clamped() {
    for t in [
        at(2025, 13, 1, 0, 0),
        at(2025, 0, 1, 0, 0),
        at(2025, 1, 32, 0, 0),
        at(2025, 4, 31, 0, 0),
        at(2025, 1, 0, 0, 0),
        at(2025, 1, 1, 25, 0),
        at(2025, 1, 1, 24, 0),
        at(2025, 1, 1, 0, 60),
        CalendarInstant { second: 60, ..at(2025, 1, 1, 0, 0) },
        CalendarInstant { nanosecond: 1_000_000_000, ..at(2025, 1, 1, 0, 0) },
    ] {
        assert_eq!(resolve_instant(&t, 0), Err(TimeError::InvalidCalendarValue), "{:?}", t);
    }
}

#[test]
fn skipped_local_time_is_invalid() {
    // Clocks in Seoul went from 02:00 to 03:00 on 8 May 1988.
    assert_eq!(resolve_instant(&at(1988, 5, 8, 2, 30), 0), Err(TimeError::InvalidCalendarValue));
}

#[test]
fn text_pattern_is_read() {
    assert_eq!(parse_text("2025 06 01 10 00"), Ok(at(2025, 6, 1, 10, 0)));
    assert_eq!(parse_text("0001 12 31 23 59"), Ok(at(1, 12, 31, 23, 59)));
    let ts = Timestamp::Text("2025 06 01 10 00".to_string());
    assert_eq!(resolve(&ts, NOW_0955), Ok(300));
}

#[test]
fn malformed_text_is_rejected() {
    for s in [
        "",
        "2025-06-01 10:00",
        "2025 06 01 10 0",
        "2025 06 01 10 000",
        "2025 6 01 10 00 ",
        " 2025 06 01 10 00",
        "2025 06 01 1a 00",
        "2025 06 01 10 0\u{e9}",
        "2025  06 01 10 0",
    ] {
        assert_eq!(parse_text(s), Err(TimeError::MalformedTimestamp), "{:?}", s);
        let ts = Timestamp::Text(s.to_string());
        assert_eq!(resolve(&ts, 0), Err(TimeError::MalformedTimestamp));
    }
}

#[test]
fn well_formed_text_with_bad_values_is_invalid() {
    let ts = Timestamp::Text("2025 13 01 10 00".to_string());
    assert_eq!(resolve(&ts, 0), Err(TimeError::InvalidCalendarValue));
}

#[test]
fn structured_timestamp_resolves() {
    let ts = Timestamp::Structured(structured(2025, 6, 1, 10, 0));
    assert_eq!(resolve(&ts, NOW_0955), Ok(300));
}

#[test]
fn structured_timestamp_needs_both_parts() {
    let full = structured(2025, 6, 1, 10, 0);
    let no_date = Timestamp::Structured(StructuredTimestamp { date: None, ..full });
    let no_time = Timestamp::Structured(StructuredTimestamp { time: None, ..full });
    let neither = Timestamp::Structured(StructuredTimestamp { date: None, time: None });
    assert_eq!(resolve(&no_date, 0), Err(TimeError::MissingField(FieldName::Date)));
    assert_eq!(resolve(&no_time, 0), Err(TimeError::MissingField(FieldName::Time)));
    assert_eq!(resolve(&neither, 0), Err(TimeError::MissingField(FieldName::Date)));
}

#[test]
fn structured_timestamp_with_bad_day_is_invalid() {
    let ts = Timestamp::Structured(structured(2025, 2, 30, 10, 0));
    assert_eq!(resolve(&ts, 0), Err(TimeError::InvalidCalendarValue));
}
