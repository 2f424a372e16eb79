use vstd::prelude::*;
use vstd::string::StringSliceAdditionalSpecFns;
use crate::calendar::{valid_ymd, CalendarDate, ClockTime, Instant, Offset};
use crate::convert::{resolve_offset, validate_not_in_future};
use crate::digits::{all_digits, is_digit, decimal_i32, decimal_u8, digits_upto, digits_value, parse_i32, parse_u8};
use crate::error::{DateTimeError, DateType, OffsetType};
use crate::system::now_utc;

verus! {

/// Digits at `lo..hi` of `b`.
pub open spec fn digit_run(b: Seq<u8>, lo: int, hi: int) -> bool {
    all_digits(b.subrange(lo, hi))
}

/// The layout `YYYY-MM-DD`: ten bytes, digits but for two dashes.
pub open spec fn full_date_shape(b: Seq<u8>) -> bool {
    b.len() == 10 && digit_run(b, 0, 4) && b[4] == 45u8 && digit_run(b, 5, 7) && b[7] == 45u8
        && digit_run(b, 8, 10)
}

/// The day that a `YYYY-MM-DD` text names, where it names one.
pub open spec fn full_date(b: Seq<u8>) -> Option<CalendarDate> {
    let y = digits_value(b.subrange(0, 4));
    let m = digits_value(b.subrange(5, 7));
    let d = digits_value(b.subrange(8, 10));
    if full_date_shape(b) && valid_ymd(y, m, d) {
        Some(CalendarDate { year: y as i32, month: m as u8, day: d as u8 })
    } else {
        None
    }
}

pub open spec fn boundary_time(date_type: DateType) -> ClockTime {
    match date_type {
        DateType::Start => ClockTime { hour: 0, minute: 0, second: 0, nanosecond: 0 },
        DateType::End => ClockTime { hour: 23, minute: 59, second: 59, nanosecond: 999_999_999 },
    }
}

/// `date` at the time of day `time`, read at UTC.
pub open spec fn utc_instant(date: CalendarDate, time: ClockTime) -> Instant {
    Instant { date, time, offset: Offset { seconds: 0 } }
}

/// The year, month and day numbers of a text in the layout `YYYY-MM-DD`, where it has
/// that layout; they need not name a day of the calendar.
fn full_date_fields(b: &[u8]) -> (r: Option<(i32, u8, u8)>)
    ensures
        r is Some <==> full_date_shape(b@),
        r is Some ==> r->Some_0.0 as int == digits_value(b@.subrange(0, 4)) && r->Some_0.1 as int
            == digits_value(b@.subrange(5, 7)) && r->Some_0.2 as int == digits_value(
            b@.subrange(8, 10),
        ),
{
    if b.len() != 10 || b[4] != 45u8 || b[7] != 45u8 {
        return None;
    }
    let y = digits_upto(b, 0, 4, 9999);
    let m = digits_upto(b, 5, 7, 99);
    let d = digits_upto(b, 8, 10, 99);
    proof {
        reveal_with_fuel(pow10, 5);
        if digit_run(b@, 0, 4) {
            lemma_digit_run_bound(b@, 0, 4);
        }
        if digit_run(b@, 5, 7) {
            lemma_digit_run_bound(b@, 5, 7);
        }
        if digit_run(b@, 8, 10) {
            lemma_digit_run_bound(b@, 8, 10);
        }
    }
    match (y, m, d) {
        (Some(y), Some(m), Some(d)) => Some((y as i32, m as u8, d as u8)),
        _ => None,
    }
}

/// Reads a `YYYY-MM-DD` text: exactly ten bytes, a four-digit year, a two-digit month and
/// a two-digit day that together name a day of the calendar.
pub fn parse_full_date(text: &str) -> (r: Option<CalendarDate>)
    ensures
        r == full_date(text.spec_bytes()),
{
    match full_date_fields(text.as_bytes()) {
        Some((y, m, d)) => CalendarDate::from_calendar_date(y, m, d),
        None => None,
    }
}

proof fn lemma_digit_run_bound(b: Seq<u8>, lo: int, hi: int)
    requires
        0 <= lo <= hi <= b.len(),
        hi - lo <= 4,
        digit_run(b, lo, hi),
    ensures
        0 <= digits_value(b.subrange(lo, hi)) < pow10(hi - lo),
    decreases hi - lo,
{
    let s = b.subrange(lo, hi);
    if hi > lo {
        assert(s.drop_last() =~= b.subrange(lo, hi - 1));
        assert(digit_run(b, lo, hi - 1));
        lemma_digit_run_bound(b, lo, hi - 1);
        assert(s[s.len() - 1] >= 48 && s[s.len() - 1] <= 57);
    }
}

pub open spec fn pow10(n: int) -> int
    decreases n,
{
    if n <= 0 { 1 } else { 10 * pow10(n - 1) }
}

/// Reads `date` as `YYYY-MM-DD`, takes the start or the end of that day, attaches the
/// offset that `offset_type` selects (zero, or the host's offset at that instant), and fails
/// where the result lies after the current instant.
pub fn parse_to_datetime(date: &str, date_type: DateType, offset_type: OffsetType) -> (r: Result<
    Instant,
    DateTimeError,
>)
    ensures
        full_date(date.spec_bytes()) is None <==> r is Err && r->Err_0 is InvalidDateFormat,
        r is Err && r->Err_0 is InvalidDateFormat ==> r->Err_0->InvalidDateFormat_0@ == date@,
        full_date(date.spec_bytes()) is Some ==> {
            let day = full_date(date.spec_bytes())->Some_0;
            let time = boundary_time(date_type);
            &&& r is Ok ==> r->Ok_0.wf() && r->Ok_0.date == day && r->Ok_0.time == time
            &&& offset_type == OffsetType::Utc && r is Ok ==> r->Ok_0 == utc_instant(day, time)
            &&& r is Err ==> (r->Err_0 is ParseError && offset_type == OffsetType::Local) || (
            r->Err_0 is DateInFuture && r->Err_0->DateInFuture_0.wf()
                && r->Err_0->DateInFuture_0.date == day && r->Err_0->DateInFuture_0.time == time
                && r->Err_0->DateInFuture_0.is_after(r->Err_0->DateInFuture_1))
            &&& offset_type == OffsetType::Utc && r is Err ==> r->Err_0 is DateInFuture
                && r->Err_0->DateInFuture_0 == utc_instant(day, time)
        },
{
    let day = match parse_full_date(date) {
        Some(d) => d,
        None => {
            return Err(DateTimeError::InvalidDateFormat(
                date.to_owned(),
                String::from_str("expected a calendar date written YYYY-MM-DD"),
            ));
        },
    };
    let time = match date_type {
        DateType::Start => ClockTime::midnight(),
        DateType::End => ClockTime::end_of_day(),
    };
    let naive = Instant { date: day, time, offset: Offset::utc() };
    let result = resolve_offset(naive, offset_type)?;
    let now = now_utc();
    validate_not_in_future(&result, &now)?;
    Ok(result)
}

/// Index of the first `-` in `b` at or after `i`, or -1 where there is none.
pub open spec fn find_dash(b: Seq<u8>, i: int) -> int
    decreases b.len() - i,
{
    if i < 0 || i >= b.len() {
        -1
    } else if b[i] == 45u8 {
        i
    } else {
        find_dash(b, i + 1)
    }
}

/// The layout `YYYY-MM`: the text up to the first dash reads as an `i32`, the rest as a `u8`.
pub open spec fn year_month(b: Seq<u8>) -> Option<(int, int)> {
    let k = find_dash(b, 0);
    if k >= 0 && decimal_i32(b.subrange(0, k)) is Some && decimal_u8(b.subrange(k + 1, b.len() as int)) is Some {
        Some((decimal_i32(b.subrange(0, k))->Some_0, decimal_u8(b.subrange(k + 1, b.len() as int))->Some_0))
    } else {
        None
    }
}

/// The layout `YYYY-QN`: seven bytes with a `Q` at index five.
pub open spec fn quarter_shape(b: Seq<u8>) -> bool {
    b.len() == 7 && b[5] == 81u8
}

/// First month of quarter `q`.
pub open spec fn quarter_start_month(q: int) -> int {
    3 * q - 2
}

/// The first day of `month` of `year` at midnight UTC.
pub open spec fn month_start(year: int, month: int) -> Instant {
    utc_instant(
        CalendarDate { year: year as i32, month: month as u8, day: 1 },
        ClockTime { hour: 0, minute: 0, second: 0, nanosecond: 0 },
    )
}

fn first_dash(b: &[u8]) -> (r: usize)
    ensures
        r <= b@.len(),
        r < b@.len() ==> find_dash(b@, 0) == r,
        r == b@.len() ==> find_dash(b@, 0) == -1,
{
    let mut i: usize = 0;
    while i < b.len()
        invariant
            i <= b@.len(),
            find_dash(b@, 0) == find_dash(b@, i as int),
        decreases b@.len() - i,
    {
        if b[i] == 45u8 {
            return i;
        }
        i = i + 1;
    }
    i
}

/// Midnight UTC on the first day of `month` of `year`.
fn first_of_month(year: i32, month: u8) -> (r: Result<Instant, DateTimeError>)
    requires
        1 <= month <= 12,
    ensures
        valid_ymd(year as int, month as int, 1) ==> r == Ok::<Instant, DateTimeError>(
            month_start(year as int, month as int),
        ),
        !valid_ymd(year as int, month as int, 1) ==> r is Err && r->Err_0 is ParseError,
{
    match CalendarDate::from_calendar_date(year, month, 1) {
        Some(date) => Ok(Instant { date, time: ClockTime::midnight(), offset: Offset::utc() }),
        None => Err(DateTimeError::ParseError(String::from_str("year out of the representable range"))),
    }
}

fn malformed(text: &str, reason: &str) -> (r: DateTimeError)
    ensures
        r is InvalidDateFormat && r->InvalidDateFormat_0@ == text@,
{
    DateTimeError::InvalidDateFormat(text.to_owned(), reason.to_owned())
}

/// The decimal digit `d` as a one-character text.
fn digit_text(d: u8) -> (r: String)
    requires
        d < 10,
    ensures
        r@ == seq![((48 + d) as u8) as char],
{
    let t = if d == 0 {
        "0"
    } else if d == 1 {
        "1"
    } else if d == 2 {
        "2"
    } else if d == 3 {
        "3"
    } else if d == 4 {
        "4"
    } else if d == 5 {
        "5"
    } else if d == 6 {
        "6"
    } else if d == 7 {
        "7"
    } else if d == 8 {
        "8"
    } else {
        "9"
    };
    proof {
        reveal_strlit("0");
        reveal_strlit("1");
        reveal_strlit("2");
        reveal_strlit("3");
        reveal_strlit("4");
        reveal_strlit("5");
        reveal_strlit("6");
        reveal_strlit("7");
        reveal_strlit("8");
        reveal_strlit("9");
    }
    let r = String::from_str(t);
    assert(r@ =~= seq![((48 + d) as u8) as char]);
    r
}

/// Reads a period as returned by statistical data services. Three layouts are tried in turn:
/// `YYYY-MM-DD` (the end of that day, with the offset that `offset_type` selects attached),
/// `YYYY-MM` (midnight UTC on the first of the month) and `YYYY-QN` (midnight UTC on the
/// first day of the quarter). A text that fits none fails with `ParseError`.
pub fn parse_response_string_to_datetime(time_period: &str, offset_type: OffsetType) -> (r: Result<
    Instant,
    DateTimeError,
>)
    ensures
        ({
            let b = time_period.spec_bytes();
            &&& full_date_shape(b) && full_date(b) is None ==> r is Err && r->Err_0 is InvalidDateFormat
                && r->Err_0->InvalidDateFormat_0@ == time_period@
            &&& full_date(b) is Some ==> {
                let day = full_date(b)->Some_0;
                let time = boundary_time(DateType::End);
                &&& offset_type == OffsetType::Utc ==> r == Ok::<Instant, DateTimeError>(utc_instant(day, time))
                &&& r is Ok ==> r->Ok_0.wf() && r->Ok_0.date == day && r->Ok_0.time == time
                &&& r is Err ==> offset_type == OffsetType::Local && r->Err_0 is ParseError
            }
            &&& !full_date_shape(b) && year_month(b) is Some ==> {
                let (y, m) = year_month(b)->Some_0;
                &&& !(1 <= m <= 12) ==> r is Err && r->Err_0 is InvalidDateFormat
                    && r->Err_0->InvalidDateFormat_0@ == time_period@
                &&& 1 <= m <= 12 && valid_ymd(y, m, 1) ==> r == Ok::<Instant, DateTimeError>(month_start(y, m))
                &&& 1 <= m <= 12 && !valid_ymd(y, m, 1) ==> r is Err && r->Err_0 is ParseError
            }
            &&& !full_date_shape(b) && year_month(b) is None && quarter_shape(b) ==> {
                let y = decimal_i32(b.subrange(0, 4));
                let q = decimal_u8(b.subrange(6, 7));
                &&& (y is None || q is None) ==> r is Err && r->Err_0 is InvalidDateFormat
                    && r->Err_0->InvalidDateFormat_0@ == time_period@
                &&& y is Some && q is Some && !(1 <= q->Some_0 <= 4) ==> r is Err && r->Err_0 is InvalidTimeComponent
                    && r->Err_0->InvalidTimeComponent_0@ == seq![b[6] as char]
                &&& y is Some && q is Some && 1 <= q->Some_0 <= 4 && valid_ymd(y->Some_0, quarter_start_month(q->Some_0), 1)
                    ==> r == Ok::<Instant, DateTimeError>(month_start(y->Some_0, quarter_start_month(q->Some_0)))
                &&& y is Some && q is Some && 1 <= q->Some_0 <= 4 && !valid_ymd(y->Some_0, quarter_start_month(q->Some_0), 1)
                    ==> r is Err && r->Err_0 is ParseError
            }
            &&& !full_date_shape(b) && year_month(b) is None && !quarter_shape(b) ==> r is Err && r->Err_0 is ParseError
                && r->Err_0->ParseError_0@ == "Unsupported date format: "@ + time_period@
        }),
{
    let b = time_period.as_bytes();
    if let Some((y, m, d)) = full_date_fields(b) {
        return match CalendarDate::from_calendar_date(y, m, d) {
            Some(day) => resolve_offset(
                Instant { date: day, time: ClockTime::end_of_day(), offset: Offset::utc() },
                offset_type,
            ),
            None => Err(malformed(time_period, "no such calendar day")),
        };
    }
    let k = first_dash(b);
    if k < b.len() {
        let year = parse_i32(b, 0, k);
        let month = parse_u8(b, k + 1, b.len());
        if let (Some(year), Some(month)) = (year, month) {
            if month < 1 || month > 12 {
                return Err(malformed(time_period, "month out of the range 1-12"));
            }
            return first_of_month(year, month);
        }
    }
    if b.len() == 7 && b[5] == 81u8 {
        let year = match parse_i32(b, 0, 4) {
            Some(y) => y,
            None => return Err(malformed(time_period, "invalid year")),
        };
        let quarter = match parse_u8(b, 6, 7) {
            Some(q) => q,
            None => return Err(malformed(time_period, "invalid quarter")),
        };
        proof {
            let t = b@.subrange(6, 7);
            assert(t.drop_last() =~= Seq::<u8>::empty());
            assert(t[0] == b@[6]);
            if t[0] == 43u8 {
                assert(t.skip(1).len() == 0);
            }
            assert(is_digit(t[0]));
            assert(digits_value(Seq::<u8>::empty()) == 0);
            assert(t.last() == t[0]);
            assert(digits_value(t) == t[0] - 48);
            assert(quarter + 48 == b@[6]);
        }
        if quarter < 1 || quarter > 4 {
            return Err(DateTimeError::InvalidTimeComponent(digit_text(quarter)));
        }
        return first_of_month(year, 3 * quarter - 2);
    }
    Err(DateTimeError::ParseError(String::from_str("Unsupported date format: ").concat(time_period)))
}

} // verus!
