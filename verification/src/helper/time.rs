//! The `timestamp` helper's core, and the timestamp conversions the
//! feed processors share: RFC 3339 text in, epoch seconds inside,
//! RFC 2822 / RFC 3339 / strftime-style text out.

use std::fmt::Write;

use crate::error::GeneratorError;
use crate::value::{Json, ValView};
use vstd::prelude::*;

verus! {

/// The epoch second an RFC 3339 timestamp denotes; nothing when the
/// text is not one.
pub uninterp spec fn rfc3339_epoch_of(s: Seq<char>) -> Option<int>;

/// Relies on `chrono::DateTime::parse_from_rfc3339` and `timestamp`:
/// reads an RFC 3339 timestamp as its epoch second, failing exactly on
/// text that is not one.
#[verifier::external_body]
pub(crate) fn parse_rfc3339_epoch(s: &str) -> (r: Option<i64>)
    ensures
        match r {
            Some(t) => rfc3339_epoch_of(s@) == Some(t as int),
            None => rfc3339_epoch_of(s@) is None,
        },
{
    match chrono::DateTime::parse_from_rfc3339(s) {
        Ok(d) => Some(d.timestamp()),
        Err(_) => None,
    }
}

/// The first epoch second of year zero: where the RFC 2822 calendar
/// (years 0 through 9999) begins.
pub const RFC2822_MIN_EPOCH: i64 = -62167219200;

/// The last epoch second of year 9999: where the RFC 2822 calendar ends.
pub const RFC2822_MAX_EPOCH: i64 = 253402300799;

/// The RFC 2822 text of an epoch second, in UTC.
pub uninterp spec fn rfc2822_of(t: int) -> Seq<char>;

/// Relies on `chrono::DateTime::from_timestamp` and `to_rfc2822`: the
/// text depends on the epoch second alone. `to_rfc2822` aborts on a
/// year outside 0..=9999, so the epoch must lie within that calendar.
#[verifier::external_body]
pub(crate) fn epoch_to_rfc2822(t: i64) -> (r: String)
    requires
        RFC2822_MIN_EPOCH <= t <= RFC2822_MAX_EPOCH,
    ensures
        r@ == rfc2822_of(t as int),
{
    match chrono::DateTime::<chrono::Utc>::from_timestamp(t, 0) {
        Some(d) => d.to_rfc2822(),
        None => String::new(),
    }
}

/// The RFC 3339 text of an epoch second, in UTC, whole seconds.
pub uninterp spec fn rfc3339_secs_of(t: int) -> Seq<char>;

/// Relies on `chrono::DateTime::from_timestamp` and `to_rfc3339_opts`:
/// the text depends on the epoch second alone (empty for one out of the
/// calendar's range).
#[verifier::external_body]
pub(crate) fn epoch_to_rfc3339_secs(t: i64) -> (r: String)
    ensures
        r@ == rfc3339_secs_of(t as int),
{
    match chrono::DateTime::<chrono::Utc>::from_timestamp(t, 0) {
        Some(d) => d.to_rfc3339_opts(chrono::SecondsFormat::Secs, true),
        None => String::new(),
    }
}

/// The strftime-style rendering of an epoch second, in UTC.
pub uninterp spec fn strftime_of(fmt: Seq<char>, t: int) -> Seq<char>;

/// Relies on `chrono::DateTime::from_timestamp` and `format`: the text
/// depends on the format and the epoch second alone (empty for an
/// unusable format or an epoch out of the calendar's range).
#[verifier::external_body]
pub(crate) fn format_epoch(t: i64, fmt: &str) -> (r: String)
    ensures
        r@ == strftime_of(fmt@, t as int),
{
    match chrono::DateTime::<chrono::Utc>::from_timestamp(t, 0) {
        Some(d) => {
            let mut s = String::new();
            match write!(s, "{}", d.format(fmt)) {
                Ok(_) => s,
                Err(_) => String::new(),
            }
        },
        None => String::new(),
    }
}

/// Relies on `chrono::Utc::now`: the wall clock's epoch second; nothing
/// else is promised of it.
#[verifier::external_body]
pub(crate) fn now_epoch() -> i64 {
    chrono::Utc::now().timestamp()
}

/// The `timestamp` helper: writes a timestamp — a given RFC 3339 one,
/// or the present moment — through a strftime-style format.
#[derive(Clone, Copy)]
pub struct TimeHelper;

impl TimeHelper {
    /// The helper's output: the given timestamp rendered through the
    /// format; with no timestamp given, the present moment is rendered.
    /// Fails exactly when a given timestamp is not an RFC 3339 string.
    pub fn format_value(format: &str, value: Option<&Json>) -> (r: Result<String, GeneratorError>)
        ensures
            r matches Ok(s) ==> match value {
                Some(v) => v@ matches ValView::Str(t) && rfc3339_epoch_of(t) matches Some(e) && s@
                    == strftime_of(format@, e),
                None => exists|t: int| s@ == strftime_of(format@, t),
            },
            r matches Err(e) ==> e is Render && match value {
                Some(v) => !(v@ is Str) || rfc3339_epoch_of(v@->Str_0) is None,
                None => false,
            },
    {
        match value {
            Some(v) => match v.as_str() {
                Some(s) => match parse_rfc3339_epoch(s.as_str()) {
                    Some(e) => Ok(format_epoch(e, format)),
                    None => Err(
                        GeneratorError::Render(
                            String::from_str("the timestamp is not an RFC 3339 string"),
                        ),
                    ),
                },
                None => Err(
                    GeneratorError::Render(String::from_str("the timestamp is not a string")),
                ),
            },
            None => Ok(format_epoch(now_epoch(), format)),
        }
    }
}

} // verus!
