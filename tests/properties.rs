use date_utils::calendar::{MAX_TIMESTAMP, MIN_TIMESTAMP};
use date_utils::digits::{parse_i32, parse_u8};
use date_utils::period::parse_full_date;
use date_utils::convert::{attach_offset, read_at_looked_up_offset};
use date_utils::{
    datetime_to_date, parse_response_string_to_datetime, parse_to_datetime, timestamp_to_datetime,
    timestamp_to_offset, validate_not_in_future, CalendarDate, ClockTime, DateTimeError, DateType,
    Instant, Offset, OffsetType,
};

fn at(year: i32, month: u8, day: u8, hour: u8, minute: u8, second: u8, nanosecond: u32, offset: i32) -> Instant {
    Instant {
        date: CalendarDate { year, month, day },
        time: ClockTime { hour, minute, second, nanosecond },
        offset: Offset { seconds: offset },
    }
}

#[test]
fn start_and_end_of_day_times() {
    for text in ["2000-02-29", "1999-12-31", "2024-01-01"] {
        let start = parse_to_datetime(text, DateType::Start, OffsetType::Utc).unwrap();
        assert_eq!(start.time, ClockTime::midnight());
        let end = parse_to_datetime(text, DateType::End, OffsetType::Utc).unwrap();
        assert_eq!(end.time, ClockTime::end_of_day());
        assert_eq!(end.time, ClockTime { hour: 23, minute: 59, second: 59, nanosecond: 999_999_999 });
        assert_eq!(start.date, end.date);
    }
}

#[test]
fn full_date_leap_days() {
    assert_eq!(parse_full_date("2024-02-29"), Some(CalendarDate { year: 2024, month: 2, day: 29 }));
    assert_eq!(parse_full_date("2000-02-29"), Some(CalendarDate { year: 2000, month: 2, day: 29 }));
    assert_eq!(parse_full_date("1900-02-29"), None);
    assert_eq!(parse_full_date("2023-02-29"), None);
    assert_eq!(parse_full_date("2023-04-31"), None);
    assert_eq!(parse_full_date("2023-00-10"), None);
    assert_eq!(parse_full_date("2023-01-00"), None);
    assert_eq!(parse_full_date("+023-01-01"), None);
    assert_eq!(parse_full_date(""), None);
    assert!(matches!(
        parse_to_datetime("2023-02-29", DateType::Start, OffsetType::Utc).unwrap_err(),
        DateTimeError::InvalidDateFormat(_, _)
    ));
}

#[test]
fn future_date_is_rejected_with_both_instants() {
    match parse_to_datetime("9999-12-31", DateType::End, OffsetType::Utc).unwrap_err() {
        DateTimeError::DateInFuture(date, now) => {
            assert_eq!(date, at(9999, 12, 31, 23, 59, 59, 999_999_999, 0));
            assert!(now.date.year < 9999);
            assert_eq!(now.offset.seconds, 0);
        }
        other => panic!("unexpected error {:?}", other),
    }
}

#[test]
fn guard_compares_on_the_utc_timeline() {
    let now = at(2025, 5, 10, 12, 0, 0, 500, 0);
    assert!(validate_not_in_future(&at(2025, 5, 10, 12, 0, 0, 500, 0), &now).is_ok());
    assert!(validate_not_in_future(&at(2025, 5, 10, 12, 0, 0, 499, 0), &now).is_ok());
    assert!(matches!(
        validate_not_in_future(&at(2025, 5, 10, 12, 0, 0, 501, 0), &now),
        Err(DateTimeError::DateInFuture(_, _))
    ));
    // 13:00 at +02:00 is 11:00 UTC.
    assert!(validate_not_in_future(&at(2025, 5, 10, 13, 0, 0, 0, 7200), &now).is_ok());
    // 10:00 at -03:00 is 13:00 UTC.
    assert!(validate_not_in_future(&at(2025, 5, 10, 10, 0, 0, 0, -10800), &now).is_err());
}

#[test]
fn timestamp_epoch_and_edges() {
    assert_eq!(timestamp_to_datetime(0, OffsetType::Utc).unwrap(), at(1970, 1, 1, 0, 0, 0, 0, 0));
    assert_eq!(timestamp_to_datetime(-1, OffsetType::Utc).unwrap(), at(1969, 12, 31, 23, 59, 59, 0, 0));
    assert_eq!(timestamp_to_datetime(MIN_TIMESTAMP, OffsetType::Utc).unwrap(), at(-9999, 1, 1, 0, 0, 0, 0, 0));
    assert_eq!(timestamp_to_datetime(MAX_TIMESTAMP, OffsetType::Utc).unwrap(), at(9999, 12, 31, 23, 59, 59, 0, 0));
    assert!(matches!(
        timestamp_to_datetime(MAX_TIMESTAMP + 1, OffsetType::Utc),
        Err(DateTimeError::InvalidTimestamp(t, _)) if t == MAX_TIMESTAMP + 1
    ));
    assert!(matches!(
        timestamp_to_datetime(MIN_TIMESTAMP - 1, OffsetType::Local),
        Err(DateTimeError::InvalidTimestamp(_, _))
    ));
}

#[test]
fn timestamp_round_trip() {
    for ts in [0i64, 1, -1, 86_399, 86_400, 951_782_400, 1_732_440_896, -62_135_596_800, MIN_TIMESTAMP, MAX_TIMESTAMP] {
        let instant = timestamp_to_datetime(ts, OffsetType::Utc).unwrap();
        assert_eq!(instant.unix_timestamp(), ts);
        if let Ok(local) = timestamp_to_datetime(ts, OffsetType::Local) {
            assert_eq!(local.unix_timestamp(), ts);
        }
    }
}

#[test]
fn local_mode_keeps_the_point_in_time() {
    match timestamp_to_datetime(1_732_440_896, OffsetType::Local) {
        Ok(local) => {
            assert_eq!(local.unix_timestamp(), 1_732_440_896);
            assert!(local.offset.seconds.abs() <= 93_599);
        }
        Err(e) => assert!(matches!(e, DateTimeError::ParseError(_))),
    }
}

#[test]
fn date_projection_is_stable() {
    let a = at(2025, 5, 9, 23, 59, 59, 999_999_999, 0);
    let d = datetime_to_date(a).unwrap();
    assert_eq!((d.year, d.month, d.day), (2025, 5, 9));
    let again = datetime_to_date(a).unwrap();
    assert_eq!(d, again);
    let b = timestamp_to_datetime(a.unix_timestamp(), OffsetType::Utc).unwrap();
    assert_eq!(datetime_to_date(b).unwrap(), d);
}

#[test]
fn offset_range() {
    assert_eq!(timestamp_to_offset(-14400).unwrap().seconds, -14400);
    assert_eq!(timestamp_to_offset(93599).unwrap().seconds, 93599);
    assert_eq!(timestamp_to_offset(-93599).unwrap().seconds, -93599);
    assert!(matches!(timestamp_to_offset(93600), Err(DateTimeError::InvalidOffset(93600, _))));
    assert!(matches!(timestamp_to_offset(-93600), Err(DateTimeError::InvalidOffset(-93600, _))));
}

#[test]
fn period_full_date_uses_end_of_day_and_no_guard() {
    let r = parse_response_string_to_datetime("2024-05-31", OffsetType::Utc).unwrap();
    assert_eq!(r, at(2024, 5, 31, 23, 59, 59, 999_999_999, 0));
    let r = parse_response_string_to_datetime("9999-01-01", OffsetType::Utc).unwrap();
    assert_eq!(r, at(9999, 1, 1, 23, 59, 59, 999_999_999, 0));
    assert!(matches!(
        parse_response_string_to_datetime("2024-02-30", OffsetType::Utc),
        Err(DateTimeError::InvalidDateFormat(_, _))
    ));
}

#[test]
fn period_year_month() {
    assert_eq!(parse_response_string_to_datetime("2024-05", OffsetType::Utc).unwrap(), at(2024, 5, 1, 0, 0, 0, 0, 0));
    assert_eq!(parse_response_string_to_datetime("2024-5", OffsetType::Utc).unwrap(), at(2024, 5, 1, 0, 0, 0, 0, 0));
    assert_eq!(parse_response_string_to_datetime("+12-012", OffsetType::Local).unwrap(), at(12, 12, 1, 0, 0, 0, 0, 0));
    assert!(matches!(
        parse_response_string_to_datetime("2024-13", OffsetType::Utc),
        Err(DateTimeError::InvalidDateFormat(_, _))
    ));
    assert!(matches!(
        parse_response_string_to_datetime("2024-0", OffsetType::Utc),
        Err(DateTimeError::InvalidDateFormat(_, _))
    ));
    assert!(matches!(
        parse_response_string_to_datetime("10000-01", OffsetType::Utc),
        Err(DateTimeError::ParseError(_))
    ));
}

#[test]
fn period_quarters() {
    let months = [(1, 1), (2, 4), (3, 7), (4, 10)];
    for (q, m) in months {
        let text = format!("2023-Q{}", q);
        assert_eq!(parse_response_string_to_datetime(&text, OffsetType::Utc).unwrap(), at(2023, m, 1, 0, 0, 0, 0, 0));
    }
    match parse_response_string_to_datetime("2023-Q5", OffsetType::Utc) {
        Err(DateTimeError::InvalidTimeComponent(q)) => assert_eq!(q, "5"),
        other => panic!("unexpected result {:?}", other),
    }
    assert!(matches!(
        parse_response_string_to_datetime("2023-Q0", OffsetType::Utc),
        Err(DateTimeError::InvalidTimeComponent(_))
    ));
    assert!(matches!(
        parse_response_string_to_datetime("20x3-Q1", OffsetType::Utc),
        Err(DateTimeError::InvalidDateFormat(_, _))
    ));
    assert!(matches!(
        parse_response_string_to_datetime("2023-QX", OffsetType::Utc),
        Err(DateTimeError::InvalidDateFormat(_, _))
    ));
}

#[test]
fn period_unsupported() {
    for text in ["", "abc", "2024", "2024-Q", "2024-05-31T00", "May 2024", "2024/05/31", "2024-W12x"] {
        match parse_response_string_to_datetime(text, OffsetType::Utc) {
            Err(DateTimeError::ParseError(msg)) => assert_eq!(msg, format!("Unsupported date format: {}", text)),
            other => panic!("unexpected result for {:?}: {:?}", text, other),
        }
    }
}

#[test]
fn decimal_parsing_follows_from_str() {
    let cases = ["0", "+7", "-7", "2147483647", "-2147483648", "2147483648", "-2147483649", "", "+", "-", "1a", "007", "+-1", "99999999999"];
    for c in cases {
        let b = c.as_bytes();
        assert_eq!(parse_i32(b, 0, b.len()), c.parse::<i32>().ok(), "i32 {:?}", c);
        assert_eq!(parse_u8(b, 0, b.len()), c.parse::<u8>().ok(), "u8 {:?}", c);
    }
    for c in ["255", "256", "+255", "-0", "0255"] {
        let b = c.as_bytes();
        assert_eq!(parse_u8(b, 0, b.len()), c.parse::<u8>().ok(), "u8 {:?}", c);
    }
}

#[test]
fn epoch_seconds_of_offset_instants() {
    assert_eq!(at(1970, 1, 1, 2, 0, 0, 0, 7200).unix_timestamp(), 0);
    assert_eq!(at(2024, 11, 24, 9, 34, 56, 0, 0).unix_timestamp(), 1_732_440_896);
    assert_eq!(at(2000, 3, 1, 0, 0, 0, 0, 0).unix_timestamp(), 951_868_800);
}

#[test]
fn local_mode_attaches_offset_to_boundary() {
    for (date_type, time) in [(DateType::Start, ClockTime::midnight()), (DateType::End, ClockTime::end_of_day())] {
        match parse_to_datetime("2025-05-10", date_type, OffsetType::Local) {
            Ok(r) => {
                assert_eq!(r.date, CalendarDate { year: 2025, month: 5, day: 10 });
                assert_eq!(r.time, time);
                assert!(r.offset.seconds.abs() <= 93_599);
            }
            Err(e) => assert!(matches!(e, DateTimeError::ParseError(_))),
        }
    }
    match parse_response_string_to_datetime("2024-05-31", OffsetType::Local) {
        Ok(r) => {
            assert_eq!(r.date, CalendarDate { year: 2024, month: 5, day: 31 });
            assert_eq!(r.time, ClockTime::end_of_day());
        }
        Err(e) => assert!(matches!(e, DateTimeError::ParseError(_))),
    }
}

#[test]
fn attached_offset_keeps_date_and_time() {
    let naive = at(2025, 5, 10, 0, 0, 0, 0, 0);
    assert_eq!(attach_offset(naive, Ok(7200)).unwrap(), at(2025, 5, 10, 0, 0, 0, 0, 7200));
    assert_eq!(attach_offset(naive, Ok(-18000)).unwrap(), at(2025, 5, 10, 0, 0, 0, 0, -18000));
    match attach_offset(naive, Err("no offset".to_string())) {
        Err(DateTimeError::ParseError(m)) => assert_eq!(m, "no offset"),
        other => panic!("unexpected result {:?}", other),
    }
}

#[test]
fn timestamp_read_at_a_looked_up_offset() {
    assert_eq!(read_at_looked_up_offset(0, Ok(7200)).unwrap(), at(1970, 1, 1, 2, 0, 0, 0, 7200));
    assert_eq!(read_at_looked_up_offset(0, Ok(-3600)).unwrap(), at(1969, 12, 31, 23, 0, 0, 0, -3600));
    assert!(matches!(read_at_looked_up_offset(MAX_TIMESTAMP, Ok(3600)), Err(DateTimeError::ParseError(_))));
    assert!(matches!(read_at_looked_up_offset(MIN_TIMESTAMP, Ok(-1)), Err(DateTimeError::ParseError(_))));
    assert_eq!(read_at_looked_up_offset(MIN_TIMESTAMP, Ok(1)).unwrap().unix_timestamp(), MIN_TIMESTAMP);
    match read_at_looked_up_offset(0, Err("no offset".to_string())) {
        Err(DateTimeError::ParseError(m)) => assert_eq!(m, "no offset"),
        other => panic!("unexpected result {:?}", other),
    }
}

#[test]
fn malformed_periods_carry_the_input() {
    for text in ["2024-13", "2024-00", "2024-02-30", "2023-02-29", "20x3-Q1"] {
        match parse_response_string_to_datetime(text, OffsetType::Utc) {
            Err(DateTimeError::InvalidDateFormat(t, _)) => assert_eq!(t, text),
            other => panic!("unexpected result for {:?}: {:?}", text, other),
        }
    }
    for (text, digit) in [("2024-Q0", "0"), ("2024-Q5", "5"), ("2024-Q9", "9")] {
        match parse_response_string_to_datetime(text, OffsetType::Utc) {
            Err(DateTimeError::InvalidTimeComponent(q)) => assert_eq!(q, digit),
            other => panic!("unexpected result for {:?}: {:?}", text, other),
        }
    }
}
