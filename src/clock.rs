//! Access-log timestamps.

use vstd::prelude::*;

verus! {

#[verifier::external_type_specification]
#[verifier::external_body]
pub struct ExParseError(chrono::ParseError);

/// A point in time with a fixed offset from UTC.
#[derive(Clone, Copy, Debug, PartialEq, Eq, Structural)]
pub struct LogTime {
    /// Seconds since 1970-01-01T00:00:00 UTC.
    pub utc_seconds: i64,
    /// Seconds to add to UTC to obtain the local time of the log.
    pub offset_seconds: i32,
}

impl LogTime {
    /// A fixed offset lies strictly within one day.
    pub open spec fn wf(&self) -> bool {
        -86400 < self.offset_seconds < 86400
    }
}

/// The instant (seconds since the epoch, UTC) and the UTC offset in seconds
/// that the access-log date text `s` denotes, or `None` where `s` is not such
/// a date.
pub uninterp spec fn log_time_of(s: Seq<char>) -> Option<(int, int)>;

/// Relies on chrono's `DateTime::parse_from_str` with the layout
/// `[%d/%b/%Y:%T %#z]` (day/abbreviated month/year:24-hour time, then a
/// numeric offset, in brackets); the parsed value is read back through
/// `DateTime::timestamp` and `FixedOffset::local_minus_utc`. The outcome
/// depends on the text alone, and chrono keeps every offset within one day.
#[verifier::external_body]
fn parse_with_chrono(s: &str) -> (r: Result<LogTime, chrono::ParseError>)
    ensures
        match r {
            Ok(t) => log_time_of(s@) == Some((t.utc_seconds as int, t.offset_seconds as int))
                && t.wf(),
            Err(_) => log_time_of(s@) is None,
        },
{
    match chrono::DateTime::parse_from_str(s, "[%d/%b/%Y:%T %#z]") {
        Ok(d) => Ok(LogTime { utc_seconds: d.timestamp(), offset_seconds: d.offset().local_minus_utc() }),
        Err(e) => Err(e),
    }
}

/// The time that `t` holds, where `t` is what `log_time_of` gives for a date.
pub open spec fn time_from(t: (int, int)) -> LogTime {
    LogTime { utc_seconds: t.0 as i64, offset_seconds: t.1 as i32 }
}

/// Parses an access-log date such as `[01/Jan/2024:00:00:00 +0000]`.
pub fn parse_log_time(s: &str) -> (r: Result<LogTime, chrono::ParseError>)
    ensures
        match log_time_of(s@) {
            Some(t) => r == Ok::<LogTime, chrono::ParseError>(time_from(t)) && time_from(t).wf(),
            None => r is Err,
        },
{
    parse_with_chrono(s)
}

} // verus!
