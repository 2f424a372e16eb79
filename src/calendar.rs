use vstd::prelude::*;
use vstd::arithmetic::div_mod::{lemma_fundamental_div_mod, lemma_fundamental_div_mod_converse_div};

verus! {

/// Smallest year that a date of this library may carry.
pub const MIN_YEAR: i32 = -9999;

/// Largest year that a date of this library may carry.
pub const MAX_YEAR: i32 = 9999;

/// Largest magnitude, in seconds, of an offset from UTC (25:59:59).
pub const MAX_OFFSET_SECONDS: i32 = 93599;

/// Unix seconds of -9999-01-01T00:00:00Z, the first representable instant.
pub const MIN_TIMESTAMP: i64 = -377705116800;

/// Unix seconds of 9999-12-31T23:59:59Z, the last representable whole second.
pub const MAX_TIMESTAMP: i64 = 253402300799;

pub open spec fn is_leap_year(y: int) -> bool {
    (y % 4 == 0 && y % 100 != 0) || y % 400 == 0
}

pub open spec fn days_in_month(y: int, m: int) -> int {
    if m == 2 {
        if is_leap_year(y) { 29 } else { 28 }
    } else if m == 4 || m == 6 || m == 9 || m == 11 {
        30
    } else {
        31
    }
}

/// A valid day of the proleptic Gregorian calendar within the supported years.
pub open spec fn valid_ymd(y: int, m: int, d: int) -> bool {
    MIN_YEAR <= y <= MAX_YEAR && 1 <= m <= 12 && 1 <= d <= days_in_month(y, m)
}

/// Days from 0001-01-01 to the first day of year `y` (negative before it).
pub open spec fn days_before_year(y: int) -> int {
    365 * (y - 1) + (y - 1) / 4 - (y - 1) / 100 + (y - 1) / 400
}

/// Days from the first day of year `y` to the first day of month `m`.
pub open spec fn days_before_month(y: int, m: int) -> int {
    let base: int = if m == 1 {
        0
    } else if m == 2 {
        31
    } else if m == 3 {
        59
    } else if m == 4 {
        90
    } else if m == 5 {
        120
    } else if m == 6 {
        151
    } else if m == 7 {
        181
    } else if m == 8 {
        212
    } else if m == 9 {
        243
    } else if m == 10 {
        273
    } else if m == 11 {
        304
    } else {
        334
    };
    if m > 2 && is_leap_year(y) { base + 1 } else { base }
}

/// Days from 1970-01-01 to the given day (negative before it).
pub open spec fn days_from_epoch(y: int, m: int, d: int) -> int {
    days_before_year(y) + days_before_month(y, m) + d - 1 - days_before_year(1970)
}

/// A day of the calendar: year, month 1-12 and day of the month.
#[derive(Clone, Copy, Debug, PartialEq, Eq, Structural)]
pub struct CalendarDate {
    pub year: i32,
    pub month: u8,
    pub day: u8,
}

/// A time of day with nanosecond precision.
#[derive(Clone, Copy, Debug, PartialEq, Eq, Structural)]
pub struct ClockTime {
    pub hour: u8,
    pub minute: u8,
    pub second: u8,
    pub nanosecond: u32,
}

/// A signed offset from UTC, in whole seconds.
#[derive(Clone, Copy, Debug, PartialEq, Eq, Structural)]
pub struct Offset {
    pub seconds: i32,
}

/// A point in time: the date and time of day as read at an offset from UTC.
#[derive(Clone, Copy, Debug, PartialEq, Eq, Structural)]
pub struct Instant {
    pub date: CalendarDate,
    pub time: ClockTime,
    pub offset: Offset,
}

impl CalendarDate {
    pub open spec fn wf(&self) -> bool {
        valid_ymd(self.year as int, self.month as int, self.day as int)
    }

    pub open spec fn days(&self) -> int {
        days_from_epoch(self.year as int, self.month as int, self.day as int)
    }

    /// The date `year-month-day`, or `None` where no such day exists.
    pub fn from_calendar_date(year: i32, month: u8, day: u8) -> (r: Option<CalendarDate>)
        ensures
            r is Some <==> valid_ymd(year as int, month as int, day as int),
            r is Some ==> r->Some_0 == (CalendarDate { year, month, day }),
    {
        if year < MIN_YEAR || year > MAX_YEAR || month < 1 || month > 12 || day < 1 {
            return None;
        }
        if day <= month_length(year, month) {
            Some(CalendarDate { year, month, day })
        } else {
            None
        }
    }
}

/// Number of days in `month` of `year`.
pub fn month_length(year: i32, month: u8) -> (r: u8)
    requires
        1 <= month <= 12,
    ensures
        r as int == days_in_month(year as int, month as int),
{
    if month == 2 {
        if (year % 4 == 0 && year % 100 != 0) || year % 400 == 0 {
            29
        } else {
            28
        }
    } else if month == 4 || month == 6 || month == 9 || month == 11 {
        30
    } else {
        31
    }
}

impl ClockTime {
    pub open spec fn wf(&self) -> bool {
        self.hour < 24 && self.minute < 60 && self.second < 60 && self.nanosecond < 1_000_000_000
    }

    /// Seconds since the start of the day.
    pub open spec fn seconds_of_day(&self) -> int {
        self.hour as int * 3600 + self.minute as int * 60 + self.second as int
    }

    /// The first instant of a day.
    pub fn midnight() -> (r: ClockTime)
        ensures
            r == (ClockTime { hour: 0, minute: 0, second: 0, nanosecond: 0 }),
    {
        ClockTime { hour: 0, minute: 0, second: 0, nanosecond: 0 }
    }

    /// The last representable instant of a day.
    pub fn end_of_day() -> (r: ClockTime)
        ensures
            r == (ClockTime { hour: 23, minute: 59, second: 59, nanosecond: 999_999_999 }),
    {
        ClockTime { hour: 23, minute: 59, second: 59, nanosecond: 999_999_999 }
    }
}

impl Offset {
    pub open spec fn wf(&self) -> bool {
        -MAX_OFFSET_SECONDS <= self.seconds <= MAX_OFFSET_SECONDS
    }

    /// The zero offset.
    pub fn utc() -> (r: Offset)
        ensures
            r.seconds == 0,
    {
        Offset { seconds: 0 }
    }

    /// The offset of `seconds` from UTC, or `None` where its magnitude exceeds 25:59:59.
    pub fn from_whole_seconds(seconds: i32) -> (r: Option<Offset>)
        ensures
            r is Some <==> -MAX_OFFSET_SECONDS <= seconds <= MAX_OFFSET_SECONDS,
            r is Some ==> r->Some_0.seconds == seconds,
    {
        if -MAX_OFFSET_SECONDS <= seconds && seconds <= MAX_OFFSET_SECONDS {
            Some(Offset { seconds })
        } else {
            None
        }
    }
}

impl Instant {
    pub open spec fn wf(&self) -> bool {
        self.date.wf() && self.time.wf() && self.offset.wf()
    }

    /// Whole seconds since 1970-01-01T00:00:00Z.
    pub open spec fn unix_seconds(&self) -> int {
        self.date.days() * 86400 + self.time.seconds_of_day() - self.offset.seconds
    }

    /// Whether `self` lies strictly after `other` on the UTC timeline.
    pub open spec fn is_after(&self, other: Instant) -> bool {
        self.unix_seconds() > other.unix_seconds() || (self.unix_seconds()
            == other.unix_seconds() && self.time.nanosecond > other.time.nanosecond)
    }
}


/// Floor of `x / d`, for the divisors of the leap-year rule.
fn floor_div(x: i64, d: i64) -> (r: i64)
    requires
        -10000 <= x <= 10000,
        d == 4 || d == 100 || d == 400,
    ensures
        r as int == x as int / d as int,
        -2500 <= r <= 2500,
{
    let a: i64 = x + 10000;
    let q: i64 = a / d;
    let k: i64 = 10000 / d;
    proof {
        lemma_fundamental_div_mod(a as int, d as int);
        assert(10000 == d * k);
        assert(x as int == d * (q - k) + a % d) by (nonlinear_arith)
            requires
                a == x + 10000,
                a == d * q + a % d,
                10000 == d * k,
        ;
        lemma_fundamental_div_mod_converse_div(x as int, d as int, (q - k) as int, a as int % d as int);
        assert(0 <= q && q * d <= a) by (nonlinear_arith)
            requires
                0 <= a <= 20000,
                a == d * q + a % d,
                0 <= a % d < d,
                d >= 4,
        ;
    }
    q - k
}

proof fn lemma_epoch_year_offset()
    ensures
        days_before_year(1970) == 719162,
{
}

/// Days from 0001-01-01 to the first day of `year`.
fn year_start_days(year: i32) -> (r: i64)
    requires
        MIN_YEAR <= year <= MAX_YEAR,
    ensures
        r as int == days_before_year(year as int),
        -3_700_000 <= r <= 3_700_000,
{
    let x: i64 = year as i64 - 1;
    365 * x + floor_div(x, 4) - floor_div(x, 100) + floor_div(x, 400)
}

/// Days from the first day of `year` to the first day of `month`.
fn month_start_days(year: i32, month: u8) -> (r: i64)
    requires
        1 <= month <= 12,
    ensures
        r as int == days_before_month(year as int, month as int),
        0 <= r <= 335,
{
    let base: i64 = if month == 1 {
        0
    } else if month == 2 {
        31
    } else if month == 3 {
        59
    } else if month == 4 {
        90
    } else if month == 5 {
        120
    } else if month == 6 {
        151
    } else if month == 7 {
        181
    } else if month == 8 {
        212
    } else if month == 9 {
        243
    } else if month == 10 {
        273
    } else if month == 11 {
        304
    } else {
        334
    };
    if month > 2 && ((year % 4 == 0 && year % 100 != 0) || year % 400 == 0) {
        base + 1
    } else {
        base
    }
}

/// Days from 1970-01-01 to the given valid day.
pub fn epoch_days(date: &CalendarDate) -> (r: i64)
    requires
        date.wf(),
    ensures
        r as int == date.days(),
        -4_400_000 <= r <= 3_000_000,
{
    let by = year_start_days(date.year);
    let bm = month_start_days(date.year, date.month);
    proof {
        lemma_epoch_year_offset();
    }
    by + bm + date.day as i64 - 1 - 719162
}

impl Instant {
    /// Whole seconds since 1970-01-01T00:00:00Z.
    pub fn unix_timestamp(&self) -> (r: i64)
        requires
            self.wf(),
        ensures
            r as int == self.unix_seconds(),
    {
        let days = epoch_days(&self.date);
        let sod: i64 = self.time.hour as i64 * 3600 + self.time.minute as i64 * 60
            + self.time.second as i64;
        assert(-4_400_000 * 86400 <= days * 86400 <= 3_000_000 * 86400) by (nonlinear_arith)
            requires
                -4_400_000 <= days <= 3_000_000,
        ;
        days * 86400 + sod - self.offset.seconds as i64
    }
}

} // verus!
