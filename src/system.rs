use vstd::prelude::*;
use crate::calendar::{
    CalendarDate, ClockTime, Instant, Offset, MAX_OFFSET_SECONDS, MAX_TIMESTAMP, MIN_TIMESTAMP,
};

verus! {

/// Relies on `time::OffsetDateTime::from_unix_timestamp`: the UTC date and time that lie
/// `ts` whole seconds after 1970-01-01T00:00:00Z, or an error where that falls outside
/// the years -9999..=9999.
#[verifier::external_body]
pub(crate) fn utc_from_timestamp(ts: i64) -> (r: Result<Instant, String>)
    ensures
        r is Ok <==> MIN_TIMESTAMP <= ts <= MAX_TIMESTAMP,
        r is Ok ==> r->Ok_0.wf() && r->Ok_0.offset.seconds == 0 && r->Ok_0.time.nanosecond == 0
            && r->Ok_0.unix_seconds() == ts,
{
    match time::OffsetDateTime::from_unix_timestamp(ts) {
        Ok(t) => Ok(Instant {
            date: CalendarDate { year: t.year(), month: t.month() as u8, day: t.day() },
            time: ClockTime { hour: t.hour(), minute: t.minute(), second: t.second(), nanosecond: 0 },
            offset: Offset { seconds: 0 },
        }),
        Err(e) => Err(e.to_string()),
    }
}

/// Relies on `time::UtcOffset::local_offset_at`: the host's offset from UTC, in seconds,
/// at the instant `ts` seconds after the epoch; it fails where the host cannot tell it.
#[verifier::external_body]
pub(crate) fn local_offset_at(ts: i64) -> (r: Result<i32, String>)
    requires
        MIN_TIMESTAMP <= ts <= MAX_TIMESTAMP,
    ensures
        r is Ok ==> -MAX_OFFSET_SECONDS <= r->Ok_0 <= MAX_OFFSET_SECONDS,
{
    let at = time::OffsetDateTime::from_unix_timestamp(ts).map_err(|e| e.to_string())?;
    time::UtcOffset::local_offset_at(at).map(|o| o.whole_seconds()).map_err(|e| e.to_string())
}

/// Relies on `time::OffsetDateTime::now_utc`: the current instant, read at UTC.
#[verifier::external_body]
pub(crate) fn now_utc() -> (r: Instant)
    ensures
        r.wf(),
        r.offset.seconds == 0,
{
    let t = time::OffsetDateTime::now_utc();
    Instant {
        date: CalendarDate { year: t.year(), month: t.month() as u8, day: t.day() },
        time: ClockTime { hour: t.hour(), minute: t.minute(), second: t.second(), nanosecond: t.nanosecond() },
        offset: Offset { seconds: 0 },
    }
}

} // verus!
