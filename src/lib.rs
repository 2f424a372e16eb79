//! Conversions between calendar date strings, Unix timestamps and instants read at an
//! offset from UTC, with the checks that such inputs must pass.
pub mod calendar;
pub mod convert;
pub mod digits;
pub mod error;
pub mod laws;
pub mod period;
mod system;

pub use calendar::{CalendarDate, ClockTime, Instant, Offset};
pub use convert::{datetime_to_date, timestamp_to_datetime, timestamp_to_offset, validate_not_in_future};
pub use error::{DateTimeError, DateType, OffsetType};
pub use period::{parse_response_string_to_datetime, parse_to_datetime};
