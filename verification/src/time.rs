use vstd::prelude::*;

#[allow(unused_imports)]
use chrono::TimeZone;

verus! {

/// The earliest instant, in seconds since the Unix epoch, that chrono can represent
/// (January 1 of the year -262143, 00:00:00 UTC).
pub const MIN_TIMESTAMP_SECS: i64 = -8_334_601_228_800i64;

/// The latest whole second, since the Unix epoch, that chrono can represent
/// (December 31 of the year 262142, 23:59:59 UTC).
pub const MAX_TIMESTAMP_SECS: i64 = 8_210_266_876_799i64;

/// Nanoseconds in one day.
pub const NANOS_PER_DAY: i128 = 86_400_000_000_000i128;

/// An instant in UTC: whole seconds since the Unix epoch and the nanoseconds past them.
/// As in chrono, a leap second is written as a nanosecond part of one second or more
/// on a second that ends a minute.
#[derive(Clone, Copy, Debug, PartialEq, Eq, Structural)]
pub struct Timestamp {
    pub secs: i64,
    pub nanos: u32,
}

impl Timestamp {
    /// The instants chrono can represent.
    pub open spec fn is_valid(self) -> bool {
        &&& MIN_TIMESTAMP_SECS <= self.secs <= MAX_TIMESTAMP_SECS
        &&& (self.nanos < 1_000_000_000 || (self.nanos < 2_000_000_000 && self.secs % 60 == 59))
    }

    /// Not a leap second.
    pub open spec fn is_plain(self) -> bool {
        self.nanos < 1_000_000_000
    }

    /// Whether chrono can represent the instant.
    pub fn is_representable(&self) -> (res: bool)
        ensures
            res == self.is_valid(),
    {
        let in_range = MIN_TIMESTAMP_SECS <= self.secs && self.secs <= MAX_TIMESTAMP_SECS;
        let second_of_minute = self.secs % 60;
        let minute_end = second_of_minute == 59 || second_of_minute == -1;
        in_range && (self.nanos < 1_000_000_000 || (self.nanos < 2_000_000_000 && minute_end))
    }

    /// Nanoseconds since the Unix epoch.
    pub open spec fn total_nanos(self) -> int {
        self.secs * 1_000_000_000 + self.nanos
    }
}

/// Division rounding toward zero, for a positive divisor.
pub open spec fn div_toward_zero(a: int, b: int) -> int
    recommends
        b > 0,
{
    if a >= 0 {
        a / b
    } else {
        -((-a) / b)
    }
}

/// The number of whole days in a span of `nanos` nanoseconds, rounded toward zero.
pub open spec fn whole_days(nanos: int) -> int {
    div_toward_zero(nanos, NANOS_PER_DAY as int)
}

/// Seconds since the start of its day (UTC) of an instant.
pub open spec fn second_of_day(t: Timestamp) -> int {
    (t.secs as int) % 86_400
}

/// The second chrono adds or takes away where a leap second lies between the two
/// times of day: the one `then` is in, when `now` is later in its day, or the one
/// `now` is in, when it is earlier in its day.
pub open spec fn leap_correction(now: Timestamp, then: Timestamp) -> int {
    if second_of_day(now) > second_of_day(then) && then.nanos >= 1_000_000_000 {
        1
    } else if second_of_day(now) < second_of_day(then) && now.nanos >= 1_000_000_000 {
        -1
    } else {
        0
    }
}

/// The span from `then` to `now`, in nanoseconds, as chrono's
/// `signed_duration_since` measures it; a leap second's nanoseconds count past the
/// start of its second.
pub open spec fn span_nanos(now: Timestamp, then: Timestamp) -> int {
    (now.secs - then.secs + leap_correction(now, then)) * 1_000_000_000 + now.nanos - then.nanos
}

/// What chrono's `Utc.datetime_from_str(text, format)` yields, as seconds and nanoseconds.
pub uninterp spec fn chrono_parsed_utc(text: Seq<char>, format: Seq<char>) -> Option<(i64, u32)>;

/// What chrono's `DateTime::parse_from_rfc2822(text)` yields, as seconds and nanoseconds
/// of the instant in UTC.
pub uninterp spec fn chrono_parsed_rfc2822(text: Seq<char>) -> Option<(i64, u32)>;

#[verifier::external_type_specification]
#[verifier::external_body]
pub struct ExChronoParseError(chrono::ParseError);

/// Calls chrono's `DateTime::signed_duration_since` and `TimeDelta::num_days`.
/// Both instants are representable, so the conversions do not fail. The result is
/// the span chrono measures (the days between the dates plus
/// `NaiveTime::signed_duration_since` of the times of day, with its leap-second
/// correction) in whole days, rounded toward zero, as chrono's source computes it
/// (`num_seconds() / 86_400`, with `num_seconds` rounding toward zero).
#[verifier::external_body]
pub(crate) fn chrono_num_days_since(now: Timestamp, then: Timestamp) -> (days: i64)
    requires
        now.is_valid(),
        then.is_valid(),
    ensures
        days == whole_days(span_nanos(now, then)),
{
    let now = chrono::DateTime::from_timestamp(now.secs, now.nanos).unwrap();
    let then = chrono::DateTime::from_timestamp(then.secs, then.nanos).unwrap();
    now.signed_duration_since(then).num_days()
}

/// Calls chrono's `Utc.datetime_from_str`. A parsed instant lies in chrono's range and
/// round-trips through `DateTime::from_timestamp`, so it is valid.
#[verifier::external_body]
pub(crate) fn chrono_datetime_from_str(text: &str, format: &str) -> (res: Result<Timestamp, chrono::ParseError>)
    ensures
        match res {
            Ok(t) => chrono_parsed_utc(text@, format@) == Some((t.secs, t.nanos)) && t.is_valid(),
            Err(_) => chrono_parsed_utc(text@, format@) is None,
        },
{
    #[allow(deprecated)]
    match chrono::Utc.datetime_from_str(text, format) {
        Ok(dt) => Ok(Timestamp { secs: dt.timestamp(), nanos: dt.timestamp_subsec_nanos() }),
        Err(e) => Err(e),
    }
}

/// Calls chrono's `DateTime::parse_from_rfc2822`; the instant is taken in UTC.
#[verifier::external_body]
pub(crate) fn chrono_parse_from_rfc2822(text: &str) -> (res: Result<Timestamp, chrono::ParseError>)
    ensures
        match res {
            Ok(t) => chrono_parsed_rfc2822(text@) == Some((t.secs, t.nanos)) && t.is_valid(),
            Err(_) => chrono_parsed_rfc2822(text@) is None,
        },
{
    match chrono::DateTime::parse_from_rfc2822(text) {
        Ok(dt) => Ok(Timestamp { secs: dt.timestamp(), nanos: dt.timestamp_subsec_nanos() }),
        Err(e) => Err(e),
    }
}

/// The format of update times in the dump.
pub const UPDATE_TIME_FORMAT: &'static str = "%Y-%m-%d %H:%M:%S";

/// A time that did not parse.
#[derive(Debug)]
pub struct DateParseError {
    pub cause: chrono::ParseError,
}

/// The instant an update time of the dump denotes, in UTC.
pub fn parse_update_time(text: &str) -> (res: Result<Timestamp, DateParseError>)
    ensures
        match res {
            Ok(t) => chrono_parsed_utc(text@, UPDATE_TIME_FORMAT@) == Some((t.secs, t.nanos)) && t.is_valid(),
            Err(_) => chrono_parsed_utc(text@, UPDATE_TIME_FORMAT@) is None,
        },
{
    match chrono_datetime_from_str(text, UPDATE_TIME_FORMAT) {
        Ok(t) => Ok(t),
        Err(cause) => Err(DateParseError { cause }),
    }
}

/// An optional update time: absent stays absent, present must parse.
pub fn parse_optional_update_time(text: Option<&str>) -> (res: Result<Option<Timestamp>, DateParseError>)
    ensures
        match text {
            None => res == Ok::<Option<Timestamp>, DateParseError>(None),
            Some(s) => match res {
                Ok(Some(t)) => chrono_parsed_utc(s@, UPDATE_TIME_FORMAT@) == Some((t.secs, t.nanos))
                    && t.is_valid(),
                Ok(None) => false,
                Err(_) => chrono_parsed_utc(s@, UPDATE_TIME_FORMAT@) is None,
            },
        },
{
    match text {
        None => Ok(None),
        Some(s) => match parse_update_time(s) {
            Ok(t) => Ok(Some(t)),
            Err(e) => Err(e),
        },
    }
}

/// The instant a `Last-Modified` header gives, if the server sent one.
pub fn parse_last_modified(header: Option<&str>) -> (res: Result<Option<Timestamp>, DateParseError>)
    ensures
        match header {
            None => res == Ok::<Option<Timestamp>, DateParseError>(None),
            Some(s) => match res {
                Ok(Some(t)) => chrono_parsed_rfc2822(s@) == Some((t.secs, t.nanos)) && t.is_valid(),
                Ok(None) => false,
                Err(_) => chrono_parsed_rfc2822(s@) is None,
            },
        },
{
    match header {
        None => Ok(None),
        Some(s) => match chrono_parse_from_rfc2822(s) {
            Ok(t) => Ok(Some(t)),
            Err(cause) => Err(DateParseError { cause }),
        },
    }
}

} // verus!
