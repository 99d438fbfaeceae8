//! Recovery of absolute frame times. The recording start time is extracted
//! from the source video's filename (a pattern picks the timestamp out of the
//! name, a date format string decodes it); each frame's absolute time is then
//! the start time plus the frame's sequence index times the sampling
//! interval. Times are carried as UTC epoch seconds.

use vstd::prelude::*;

verus! {

/// Why no recording start time could be derived from a filename.
#[derive(Clone, Copy, Debug, PartialEq, Eq, Structural)]
pub enum DateError {
    /// The extraction pattern is not a valid regular expression.
    InvalidPattern,
    /// The pattern matches nothing in the filename.
    NoTimestampInText,
    /// The matched text does not decode under the date format.
    UnrecognizedTime,
}

/// Whether `pattern` is a valid regular expression, as `regex::Regex::new`
/// decides it.
pub uninterp spec fn regex_pattern_valid(pattern: Seq<char>) -> bool;

/// The leftmost match of `pattern` in `text`, as `regex::Regex::find`
/// returns it; `None` when the pattern matches nowhere.
pub uninterp spec fn regex_first_match(pattern: Seq<char>, text: Seq<char>) -> Option<Seq<char>>;

/// Relies on `regex::Regex::new` and `regex::Regex::find`: compiles `pattern`
/// and returns the leftmost match in `text`. Both results depend on the two
/// arguments alone; an invalid pattern is reported as `Err`.
#[verifier::external_body]
fn regex_find_first(pattern: &str, text: &str) -> (r: Result<Option<String>, ()>)
    ensures
        match r {
            Ok(found) => {
                &&& regex_pattern_valid(pattern@)
                &&& match found {
                    Some(m) => regex_first_match(pattern@, text@) == Some(m@),
                    None => regex_first_match(pattern@, text@) is None,
                }
            },
            Err(()) => !regex_pattern_valid(pattern@),
        },
{
    match regex::Regex::new(pattern) {
        Ok(re) => Ok(re.find(text).map(|m| m.as_str().to_string())),
        Err(_) => Err(()),
    }
}

/// The UTC epoch seconds that `text` decodes to under the date format
/// `format`, as `chrono::NaiveDateTime::parse_from_str` decides it; `None`
/// when the text does not decode.
pub uninterp spec fn datetime_parse_seconds(text: Seq<char>, format: Seq<char>) -> Option<i64>;

/// Relies on `chrono::NaiveDateTime::parse_from_str`: decodes `text` under
/// `format`; the result, converted to UTC epoch seconds, depends on the two
/// arguments alone.
#[verifier::external_body]
fn parse_datetime_seconds(text: &str, format: &str) -> (r: Option<i64>)
    ensures
        match r {
            Some(v) => datetime_parse_seconds(text@, format@) == Some(v),
            None => datetime_parse_seconds(text@, format@) is None,
        },
{
    chrono::NaiveDateTime::parse_from_str(text, format).ok().map(|d| d.and_utc().timestamp())
}

/// The text `YYYY-MM-DD HH:MM:SS` rendering of an epoch second count, as
/// chrono displays a naive UTC date-time; `None` when the count lies outside
/// chrono's supported range.
pub uninterp spec fn datetime_display(epoch_seconds: i64) -> Option<Seq<char>>;

/// Relies on `chrono::DateTime::from_timestamp` and the `Display` of
/// `chrono::NaiveDateTime`: renders epoch seconds as `YYYY-MM-DD HH:MM:SS`.
/// The result depends on the argument alone.
#[verifier::external_body]
pub fn format_datetime_seconds(epoch_seconds: i64) -> (r: Option<String>)
    ensures
        match r {
            Some(s) => datetime_display(epoch_seconds) == Some(s@),
            None => datetime_display(epoch_seconds) is None,
        },
{
    chrono::DateTime::<chrono::Utc>::from_timestamp(epoch_seconds, 0).map(
        |d| d.naive_utc().to_string(),
    )
}

/// What deriving a start time from a filename yields: the pattern's leftmost
/// match in the name, decoded under the date format — or the error that
/// stopped the derivation.
pub open spec fn spec_parse_date(
    pattern: Seq<char>,
    format: Seq<char>,
    input: Seq<char>,
) -> Result<i64, DateError> {
    if !regex_pattern_valid(pattern) {
        Err(DateError::InvalidPattern)
    } else {
        match regex_first_match(pattern, input) {
            None => Err(DateError::NoTimestampInText),
            Some(m) => match datetime_parse_seconds(m, format) {
                None => Err(DateError::UnrecognizedTime),
                Some(v) => Ok(v),
            },
        }
    }
}

/// Derives the recording start time from the source filename: `pattern` picks
/// the timestamp text out of `input`, `format` decodes it. Returns the start
/// time as UTC epoch seconds, or the first error the derivation hits.
pub fn parse_date(pattern: &str, format: &str, input: &str) -> (r: Result<i64, DateError>)
    ensures
        r == spec_parse_date(pattern@, format@, input@),
{
    match regex_find_first(pattern, input) {
        Err(()) => Err(DateError::InvalidPattern),
        Ok(None) => Err(DateError::NoTimestampInText),
        Ok(Some(m)) => match parse_datetime_seconds(m.as_str(), format) {
            None => Err(DateError::UnrecognizedTime),
            Some(v) => Ok(v),
        },
    }
}

/// The absolute time of a frame: the recording start time plus the frame's
/// sequence index times the sampling interval, in epoch seconds. `None`
/// exactly when that value exceeds the greatest representable time.
pub fn frame_timestamp(start_epoch_seconds: i64, frame_index: u64, interval_sec: u32) -> (r: Option<
    i64,
>)
    ensures
        match r {
            Some(t) => t == start_epoch_seconds + frame_index * interval_sec,
            None => start_epoch_seconds + frame_index * interval_sec > i64::MAX,
        },
{
    match frame_index.checked_mul(interval_sec as u64) {
        None => {
            proof {
                assert(frame_index * interval_sec > u64::MAX);
            }
            None
        },
        Some(offset) => start_epoch_seconds.checked_add_unsigned(offset),
    }
}

} // verus!
