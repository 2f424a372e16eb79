use date_utils::{
    datetime_to_date, parse_response_string_to_datetime, parse_to_datetime, timestamp_to_datetime,
    CalendarDate, ClockTime, DateTimeError, DateType, Instant, Offset, OffsetType,
};

fn utc(year: i32, month: u8, day: u8, hour: u8, minute: u8, second: u8, nanosecond: u32) -> Instant {
    Instant {
        date: CalendarDate { year, month, day },
        time: ClockTime { hour, minute, second, nanosecond },
        offset: Offset::utc(),
    }
}

#[test]
fn test_parse_to_datetime() {
    assert_eq!(
        parse_to_datetime("2025-05-10", DateType::Start, OffsetType::Utc).unwrap(),
        utc(2025, 5, 10, 0, 0, 0, 0)
    );
    assert_eq!(
        parse_to_datetime("2025-05-09", DateType::End, OffsetType::Utc).unwrap(),
        utc(2025, 5, 9, 23, 59, 59, 999_999_999)
    );
}

#[test]
fn test_parse_to_datetime_error() {
    assert!(matches!(
        parse_to_datetime("2025/05/10", DateType::Start, OffsetType::Utc).unwrap_err(),
        DateTimeError::InvalidDateFormat(_, _)
    ));
    assert!(matches!(
        parse_to_datetime("202-05-10", DateType::Start, OffsetType::Utc).unwrap_err(),
        DateTimeError::InvalidDateFormat(_, _)
    ));
    assert!(matches!(
        parse_to_datetime("2025-14-10", DateType::Start, OffsetType::Utc).unwrap_err(),
        DateTimeError::InvalidDateFormat(_, _)
    ));
    assert!(matches!(
        parse_to_datetime("2025-14-40", DateType::Start, OffsetType::Utc).unwrap_err(),
        DateTimeError::InvalidDateFormat(_, _)
    ));
    assert!(matches!(
        parse_to_datetime("2025-05-40 12:", DateType::Start, OffsetType::Utc).unwrap_err(),
        DateTimeError::InvalidDateFormat(_, _)
    ));
    assert!(matches!(
        parse_to_datetime("2025-05-10 12:70", DateType::Start, OffsetType::Utc).unwrap_err(),
        DateTimeError::InvalidDateFormat(_, _)
    ));
    assert!(matches!(
        parse_to_datetime("2028-05-10", DateType::Start, OffsetType::Utc).unwrap_err(),
        DateTimeError::DateInFuture(_, _)
    ));
}

#[test]
fn test_timestamp_to_datetime() {
    let timestamp = 1732440896;
    let datetime = timestamp_to_datetime(timestamp, OffsetType::Utc).unwrap();
    assert_eq!(datetime.date.year, 2024);
    assert_eq!(datetime.date.month, 11);
    assert_eq!(datetime.date.day, 24);
    assert_eq!(datetime.time.hour, 9);
    assert_eq!(datetime.time.minute, 34);
    assert_eq!(datetime.time.second, 56);
    assert_eq!(datetime.offset.seconds / 3600, 0);
}

#[test]
fn test_datetime_to_date() {
    let datetime = utc(2025, 5, 9, 23, 59, 59, 999_999_999);
    let date = datetime_to_date(datetime).unwrap();
    assert_eq!(date, CalendarDate { year: 2025, month: 5, day: 9 });
}

#[test]
fn test_parse_response_string_to_datetime() {
    let date = parse_response_string_to_datetime("2024-05-31", OffsetType::Utc).unwrap();
    assert_eq!(date.date, utc(2024, 5, 31, 0, 0, 0, 0).date);

    let date = parse_response_string_to_datetime("2024-05", OffsetType::Utc).unwrap();
    assert_eq!(date.date.month, 5);

    let date = parse_response_string_to_datetime("2024-Q2", OffsetType::Utc).unwrap();
    assert_eq!(date.date.month, 4); // Q2 starts in April
}
