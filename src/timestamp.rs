//! Canonical text of timestamps, computed by chrono.
use vstd::prelude::*;

verus! {

/// Canonical text of a timestamp without zone.
pub const TIMESTAMP_FORMAT: &'static str = "%Y-%m-%d %H:%M:%S%.f";

/// Canonical text of a timestamp with zone.
pub const TIMESTAMPTZ_FORMAT: &'static str = "%Y-%m-%d %H:%M:%S%.f%:z";

/// Accepted text of a timestamp with zone on input.
pub const TIMESTAMPTZ_INPUT_FORMAT: &'static str = "%Y-%m-%d %H:%M:%S%.f%#z";

/// What chrono gives for a naive timestamp parsed with a format and written
/// back with it.
pub uninterp spec fn naive_reformat(s: Seq<char>, fmt: Seq<char>) -> Option<Seq<char>>;

/// What chrono gives for a zoned timestamp parsed with one format and written
/// with another.
pub uninterp spec fn zoned_reformat(s: Seq<char>, input: Seq<char>, output: Seq<char>) -> Option<Seq<char>>;

/// What chrono writes, with a format, for the UTC instant `m` microseconds
/// after the Unix epoch; `None` where chrono cannot hold the instant.
pub uninterp spec fn unix_micros_text(m: i64, fmt: Seq<char>) -> Option<Seq<char>>;

/// Relies on `chrono::NaiveDateTime::parse_from_str` and its `format`.
#[verifier::external_body]
pub(crate) fn reformat_naive(s: &str, fmt: &str) -> (r: Option<String>)
    requires
        fmt@ == TIMESTAMP_FORMAT@,
    ensures
        r matches Some(t) ==> naive_reformat(s@, fmt@) == Some(t@),
        r is None ==> naive_reformat(s@, fmt@) is None,
{
    match chrono::NaiveDateTime::parse_from_str(s, fmt) {
        Ok(t) => Some(t.format(fmt).to_string()),
        Err(_) => None,
    }
}

/// Relies on `chrono::DateTime::parse_from_str` and its `format`.
#[verifier::external_body]
pub(crate) fn reformat_zoned(s: &str, input: &str, output: &str) -> (r: Option<String>)
    requires
        input@ == TIMESTAMPTZ_INPUT_FORMAT@,
        output@ == TIMESTAMPTZ_FORMAT@,
    ensures
        r matches Some(t) ==> zoned_reformat(s@, input@, output@) == Some(t@),
        r is None ==> zoned_reformat(s@, input@, output@) is None,
{
    match chrono::DateTime::parse_from_str(s, input) {
        Ok(t) => Some(t.format(output).to_string()),
        Err(_) => None,
    }
}

/// Relies on `chrono::DateTime::from_timestamp_micros` and its `format`.
#[verifier::external_body]
pub(crate) fn format_unix_micros(m: i64, fmt: &str) -> (r: Option<String>)
    requires
        fmt@ == TIMESTAMP_FORMAT@ || fmt@ == TIMESTAMPTZ_FORMAT@,
    ensures
        r matches Some(t) ==> unix_micros_text(m, fmt@) == Some(t@),
        r is None ==> unix_micros_text(m, fmt@) is None,
{
    match chrono::DateTime::from_timestamp_micros(m) {
        Some(t) => Some(t.format(fmt).to_string()),
        None => None,
    }
}

/// The instant, in microseconds since the Unix epoch, that chrono reads from
/// an RFC 3339-like text as a UTC date and time.
pub uninterp spec fn utc_text_micros(s: Seq<char>) -> Option<i64>;

/// Relies on chrono's `FromStr` for `DateTime<Utc>` and its
/// `timestamp_micros`.
#[verifier::external_body]
pub(crate) fn parse_utc_micros(s: &str) -> (r: Option<i64>)
    ensures
        r == utc_text_micros(s@),
{
    match s.parse::<chrono::DateTime<chrono::Utc>>() {
        Ok(t) => Some(t.timestamp_micros()),
        Err(_) => None,
    }
}

} // verus!
