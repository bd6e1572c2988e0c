//! Calendar time. A moment is held as whole seconds from the start of 1970,
//! with no time zone; reading and writing its text is left to `chrono`.

use std::fmt::Write;
use vstd::prelude::*;

verus! {

/// What `chrono` reads from `text` under `format`, as seconds from the start
/// of 1970; `None` where it reads no date and time.
pub uninterp spec fn datetime_parsed(text: Seq<char>, format: Seq<char>) -> Option<i64>;

/// What `chrono` writes for the moment `seconds` under `format`; `None` where
/// the moment lies outside its calendar or it cannot write under `format`.
pub uninterp spec fn datetime_formatted(seconds: i64, format: Seq<char>) -> Option<Seq<char>>;

/// Calls `chrono::NaiveDateTime::parse_from_str`. Trusted: whether a date and
/// time is read, and which, is a function of the text and the format alone,
/// named `datetime_parsed`.
#[verifier::external_body]
pub(crate) fn parse_datetime(text: &str, format: &str) -> (seconds: Option<i64>)
    ensures
        seconds == datetime_parsed(text@, format@),
{
    chrono::NaiveDateTime::parse_from_str(text, format).ok().map(|moment| moment.and_utc().timestamp())
}

/// Calls `chrono::NaiveDateTime::format` on the moment that
/// `chrono::DateTime::from_timestamp` makes of `seconds`. Trusted: the text is
/// a function of the seconds and the format alone, named
/// `datetime_formatted`.
#[verifier::external_body]
pub(crate) fn format_datetime(seconds: i64, format: &str) -> (text: Option<String>)
    ensures
        text is Some <==> datetime_formatted(seconds, format@) is Some,
        text matches Some(t) ==> datetime_formatted(seconds, format@) == Some(t@),
{
    let moment = chrono::DateTime::from_timestamp(seconds, 0)?;
    let mut text = String::new();
    write!(text, "{}", moment.naive_utc().format(format)).ok()?;
    Some(text)
}

} // verus!
