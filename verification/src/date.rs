//! Calendar dates, read by the `chrono` crate and held as days since 1970-01-01.

use vstd::prelude::*;

verus! {

/// The date that `chrono::NaiveDate::parse_from_str` reads from `text` under `format`, in
/// days since 1970-01-01; `None` where it reports an error.
pub uninterp spec fn date_parse(text: Seq<char>, format: Seq<char>) -> Option<i32>;

/// The UTC date of the instant that `chrono::DateTime::parse_from_rfc3339` reads from
/// `text`, in days since 1970-01-01; `None` where it reports an error.
pub uninterp spec fn rfc3339_date(text: Seq<char>) -> Option<i32>;

/// Calls `chrono::NaiveDate::parse_from_str` and counts the days of the date from
/// 1970-01-01 with `NaiveDate::to_epoch_days`.
#[verifier::external_body]
pub(crate) fn parse_date(text: &str, format: &str) -> (day: Option<i32>)
    ensures
        day == date_parse(text@, format@),
{
    chrono::NaiveDate::parse_from_str(text, format).ok().map(|d| d.to_epoch_days())
}

/// Calls `chrono::DateTime::parse_from_rfc3339`, takes the date of the instant in UTC and
/// counts its days from 1970-01-01 with `NaiveDate::to_epoch_days`.
#[verifier::external_body]
pub(crate) fn parse_rfc3339_date(text: &str) -> (day: Option<i32>)
    ensures
        day == rfc3339_date(text@),
{
    chrono::DateTime::parse_from_rfc3339(text).ok().map(|t| t.naive_utc().date().to_epoch_days())
}

} // verus!
