use vstd::prelude::*;
use crate::calendar::{
    CalendarDate, Instant, Offset, MAX_OFFSET_SECONDS, MAX_TIMESTAMP, MIN_TIMESTAMP,
};
use crate::error::{DateTimeError, OffsetType};
use crate::system::{local_offset_at, utc_from_timestamp};

verus! {

/// Whether the instant `ts` seconds after the epoch can be read at `offset`.
pub open spec fn readable_at(ts: int, offset: int) -> bool {
    MIN_TIMESTAMP <= ts + offset <= MAX_TIMESTAMP
}

/// The instant `ts` seconds and `nanosecond` nanoseconds after the epoch, read at `offset`.
pub fn instant_at_offset(ts: i64, nanosecond: u32, offset: Offset) -> (r: Result<Instant, String>)
    requires
        offset.wf(),
        nanosecond < 1_000_000_000,
    ensures
        r is Ok <==> readable_at(ts as int, offset.seconds as int),
        r is Ok ==> r->Ok_0.wf() && r->Ok_0.unix_seconds() == ts && r->Ok_0.offset == offset
            && r->Ok_0.time.nanosecond == nanosecond,
{
    if ts < MIN_TIMESTAMP - MAX_OFFSET_SECONDS as i64 || ts > MAX_TIMESTAMP
        + MAX_OFFSET_SECONDS as i64 {
        return Err(String::from_str("timestamp out of the representable range"));
    }
    match utc_from_timestamp(ts + offset.seconds as i64) {
        Ok(local) => {
            let mut time = local.time;
            time.nanosecond = nanosecond;
            Ok(Instant { date: local.date, time, offset })
        },
        Err(e) => Err(e),
    }
}

/// `naive`, a date and time of day, with the offset that the host's lookup gave attached.
/// A failed lookup is surfaced as `ParseError`; it never falls back to UTC.
pub fn attach_offset(naive: Instant, lookup: Result<i32, String>) -> (r: Result<
    Instant,
    DateTimeError,
>)
    requires
        naive.wf(),
        lookup is Ok ==> -MAX_OFFSET_SECONDS <= lookup->Ok_0 <= MAX_OFFSET_SECONDS,
    ensures
        lookup is Ok ==> r == Ok::<Instant, DateTimeError>(
            Instant { date: naive.date, time: naive.time, offset: Offset { seconds: lookup->Ok_0 } },
        ),
        lookup is Err ==> r is Err && r->Err_0 == DateTimeError::ParseError(lookup->Err_0),
{
    match lookup {
        Ok(seconds) => Ok(Instant { date: naive.date, time: naive.time, offset: Offset { seconds } }),
        Err(e) => Err(DateTimeError::ParseError(e)),
    }
}

/// A date and time of day with the offset that `offset_type` selects attached: zero, or
/// the host's offset at that instant taken as UTC. The date and time of day are kept.
pub fn resolve_offset(naive: Instant, offset_type: OffsetType) -> (r: Result<
    Instant,
    DateTimeError,
>)
    requires
        naive.wf(),
        naive.offset.seconds == 0,
    ensures
        offset_type == OffsetType::Utc ==> r == Ok::<Instant, DateTimeError>(naive),
        r is Ok ==> r->Ok_0.wf() && r->Ok_0.date == naive.date && r->Ok_0.time == naive.time,
        r is Err ==> offset_type == OffsetType::Local && r->Err_0 is ParseError,
{
    match offset_type {
        OffsetType::Utc => Ok(naive),
        OffsetType::Local => {
            let ts = naive.unix_timestamp();
            attach_offset(naive, local_offset_at(ts))
        },
    }
}

/// The instant `ts` seconds after the epoch, read at the offset that the host's lookup
/// gave. A failed lookup, or a reading outside the representable years, is `ParseError`.
pub fn read_at_looked_up_offset(ts: i64, lookup: Result<i32, String>) -> (r: Result<
    Instant,
    DateTimeError,
>)
    requires
        MIN_TIMESTAMP <= ts <= MAX_TIMESTAMP,
        lookup is Ok ==> -MAX_OFFSET_SECONDS <= lookup->Ok_0 <= MAX_OFFSET_SECONDS,
    ensures
        lookup is Err ==> r is Err && r->Err_0 == DateTimeError::ParseError(lookup->Err_0),
        lookup is Ok ==> (r is Ok <==> readable_at(ts as int, lookup->Ok_0 as int)),
        lookup is Ok && r is Ok ==> r->Ok_0.wf() && r->Ok_0.unix_seconds() == ts
            && r->Ok_0.offset.seconds == lookup->Ok_0 && r->Ok_0.time.nanosecond == 0,
        r is Err ==> r->Err_0 is ParseError,
{
    match lookup {
        Ok(seconds) => match instant_at_offset(ts, 0, Offset { seconds }) {
            Ok(i) => Ok(i),
            Err(e) => Err(DateTimeError::ParseError(e)),
        },
        Err(e) => Err(DateTimeError::ParseError(e)),
    }
}

/// Fails with `DateInFuture` exactly where `datetime` lies strictly after `now`.
pub fn validate_not_in_future(datetime: &Instant, now: &Instant) -> (r: Result<(), DateTimeError>)
    requires
        datetime.wf(),
        now.wf(),
    ensures
        r is Ok <==> !datetime.is_after(*now),
        r is Err ==> r->Err_0 == DateTimeError::DateInFuture(*datetime, *now),
{
    let a = datetime.unix_timestamp();
    let b = now.unix_timestamp();
    if a > b || (a == b && datetime.time.nanosecond > now.time.nanosecond) {
        Err(DateTimeError::DateInFuture(*datetime, *now))
    } else {
        Ok(())
    }
}

/// The instant `timestamp` seconds after 1970-01-01T00:00:00Z, read at UTC or at the
/// host's offset at that instant.
pub fn timestamp_to_datetime(timestamp: i64, offset_type: OffsetType) -> (r: Result<
    Instant,
    DateTimeError,
>)
    ensures
        (r is Err && r->Err_0 is InvalidTimestamp) <==> !(MIN_TIMESTAMP <= timestamp
            <= MAX_TIMESTAMP),
        !(MIN_TIMESTAMP <= timestamp <= MAX_TIMESTAMP) ==> r is Err && r->Err_0
            == DateTimeError::InvalidTimestamp(timestamp, r->Err_0->InvalidTimestamp_1),
        MIN_TIMESTAMP <= timestamp <= MAX_TIMESTAMP && offset_type == OffsetType::Utc ==> r is Ok,
        offset_type == OffsetType::Utc && r is Ok ==> r->Ok_0.offset.seconds == 0,
        r is Ok ==> r->Ok_0.wf() && r->Ok_0.unix_seconds() == timestamp && r->Ok_0.time.nanosecond
            == 0,
        MIN_TIMESTAMP <= timestamp <= MAX_TIMESTAMP && r is Err ==> offset_type
            == OffsetType::Local && r->Err_0 is ParseError,
{
    let utc = match utc_from_timestamp(timestamp) {
        Ok(utc) => utc,
        Err(e) => {
            return Err(DateTimeError::InvalidTimestamp(timestamp, e));
        },
    };
    match offset_type {
        OffsetType::Utc => Ok(utc),
        OffsetType::Local => read_at_looked_up_offset(timestamp, local_offset_at(timestamp)),
    }
}

/// The calendar day of `date`, as read at its own offset.
pub fn datetime_to_date(date: Instant) -> (r: Result<CalendarDate, DateTimeError>)
    ensures
        r == Ok::<CalendarDate, DateTimeError>(date.date),
{
    Ok(date.date)
}

/// The offset of `offset_secs` seconds from UTC; fails where its magnitude exceeds 25:59:59.
pub fn timestamp_to_offset(offset_secs: i32) -> (r: Result<Offset, DateTimeError>)
    ensures
        r is Ok <==> -MAX_OFFSET_SECONDS <= offset_secs <= MAX_OFFSET_SECONDS,
        r is Ok ==> r->Ok_0.seconds == offset_secs,
        r is Err ==> r->Err_0 is InvalidOffset && r->Err_0->InvalidOffset_0 == offset_secs,
{
    match Offset::from_whole_seconds(offset_secs) {
        Some(o) => Ok(o),
        None => Err(DateTimeError::InvalidOffset(offset_secs, String::from_str("offset out of range"))),
    }
}

} // verus!
