//! Instants as text. The calendar is `chrono`'s.

use vstd::prelude::*;
use crate::error::{Failure, GapixError};
use crate::point::{magnitude_in_range, MAX_MAGNITUDE};

verus! {

/// The instant that `text` gives in the format of RFC 3339, in milliseconds
/// since the epoch, or what `chrono` says is wrong with it.
pub uninterp spec fn rfc3339_instant(text: Seq<char>) -> Result<i64, Seq<char>>;

/// `DateTime::parse_from_rfc3339`, `DateTime::to_utc` and
/// `DateTime::timestamp_millis`: the instant that `text` gives, in
/// milliseconds since the epoch, or the `Display` text of the parse error.
/// The contract gives the outcome a name and claims no more.
#[verifier::external_body]
fn parse_rfc3339(text: &str) -> (instant: Result<i64, String>)
    ensures
        instant matches Ok(t) ==> (rfc3339_instant(text@) matches Ok(v) && v == t),
        instant matches Err(m) ==> (rfc3339_instant(text@) matches Err(w) && w == m@),
{
    match chrono::DateTime::parse_from_rfc3339(text) {
        Ok(dt) => Ok(dt.to_utc().timestamp_millis()),
        Err(e) => Err(e.to_string()),
    }
}

/// The instant `millis` as text in the format of RFC 3339 and in UTC, to
/// the second where it is a whole second, such as "2024-09-01T05:10:44Z",
/// and else to the millisecond, such as "2024-09-01T05:10:44.250Z"; none
/// where the calendar does not reach the instant.
pub uninterp spec fn rfc3339_text(millis: i64) -> Option<Seq<char>>;

/// `DateTime::from_timestamp_millis` and `DateTime::to_rfc3339_opts` with
/// as many digits below the second as are not zero and `Z` for UTC: the
/// instant as text, where the calendar reaches it. The contract gives the
/// result a name and claims no more.
#[verifier::external_body]
fn write_rfc3339(millis: i64) -> (text: Option<String>)
    ensures
        text matches Some(t) ==> rfc3339_text(millis) == Some(t@),
        text is None ==> rfc3339_text(millis) is None,
{
    chrono::DateTime::from_timestamp_millis(millis).map(
        |dt| dt.to_rfc3339_opts(chrono::SecondsFormat::AutoSi, true),
    )
}

/// The instant that `text` gives, or the failure to read one. An instant
/// further from the epoch than the model holds is a failure too.
pub open spec fn spec_parse_utc_date(text: Seq<char>) -> Result<i64, Failure> {
    match rfc3339_instant(text) {
        Ok(t) => if magnitude_in_range(t) {
            Ok(t)
        } else {
            Err(Failure::DateParseFailure("instant out of range"@))
        },
        Err(m) => Err(Failure::DateParseFailure(m)),
    }
}

/// The outcome of reading an instant that is given by the outcome `read` of
/// the calendar.
pub fn utc_date_from(read: Result<i64, String>) -> (instant: Result<i64, GapixError>)
    ensures
        instant matches Ok(t) ==> read == Ok::<i64, String>(t) && magnitude_in_range(t),
        instant matches Err(e) ==> (match read {
            Ok(t) => !magnitude_in_range(t) && e@ == Failure::DateParseFailure(
                "instant out of range"@,
            ),
            Err(m) => e@ == Failure::DateParseFailure(m@),
        }),
{
    match read {
        Ok(t) => if t < -MAX_MAGNITUDE || t > MAX_MAGNITUDE {
            Err(GapixError::DateParseFailure("instant out of range".to_owned()))
        } else {
            Ok(t)
        },
        Err(m) => Err(GapixError::DateParseFailure(m)),
    }
}

/// Reads an instant in the format of RFC 3339, such as
/// "2024-02-02T10:10:54.000Z", as milliseconds since the epoch.
pub fn parse_utc_date(text: &str) -> (instant: Result<i64, GapixError>)
    ensures
        instant matches Ok(t) ==> spec_parse_utc_date(text@) == Ok::<i64, Failure>(t),
        instant matches Err(e) ==> spec_parse_utc_date(text@) == Err::<i64, Failure>(e@),
{
    utc_date_from(parse_rfc3339(text))
}

/// Formats the instant into a string like "2024-09-01T05:10:44Z". This is
/// the format that track files contain.
pub fn format_utc_date(utc_date: i64) -> (text: Result<String, GapixError>)
    ensures
        text matches Ok(t) ==> rfc3339_text(utc_date) == Some(t@),
        text matches Err(e) ==> rfc3339_text(utc_date) is None && e@ == Failure::DateFormatFailure(
            "instant out of range"@,
        ),
{
    match write_rfc3339(utc_date) {
        Some(t) => Ok(t),
        None => Err(GapixError::DateFormatFailure("instant out of range".to_owned())),
    }
}

} // verus!
