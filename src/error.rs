use vstd::prelude::*;
use crate::calendar::Instant;

verus! {

/// What went wrong while reading or converting a date.
#[derive(Debug)]
pub enum DateTimeError {
    /// The text (first field) does not spell a date in the expected layout.
    InvalidDateFormat(String, String),
    /// The Unix timestamp (first field) lies outside the representable years.
    InvalidTimestamp(i64, String),
    /// A date and time text did not have the expected layout.
    InvalidDateTimeFormat(String),
    /// A component (here: the quarter digit) is out of its range.
    InvalidTimeComponent(String),
    /// The date (first field) lies after the current instant (second field).
    DateInFuture(Instant, Instant),
    /// The offset in seconds (first field) exceeds 25:59:59 in magnitude.
    InvalidOffset(i32, String),
    /// Any other failure: an unsupported layout, or an offset that the host cannot tell.
    ParseError(String),
}

/// Which end of a day a bare date stands for.
#[derive(Debug, Clone, Copy, PartialEq, Eq, Structural)]
pub enum DateType {
    /// The first instant of the day, 00:00:00.
    Start,
    /// The last instant of the day, 23:59:59.999999999.
    End,
}

/// At which offset from UTC a result is read.
#[derive(Debug, Clone, Copy, PartialEq, Eq, Structural)]
pub enum OffsetType {
    /// The host's own offset at that instant.
    Local,
    /// UTC itself.
    Utc,
}

} // verus!
