//! The two places where the pipeline consults `chrono`: parsing the upstream
//! RFC 3339 publication timestamp, and reading the local wall clock.

use vstd::prelude::*;

verus! {

/// What `chrono`'s RFC 3339 parser yields for a given character sequence:
/// `None` when the text is not a valid RFC 3339 timestamp, otherwise the
/// instant as whole seconds since the Unix epoch together with the subsecond
/// part in nanoseconds.
pub uninterp spec fn rfc3339_parse(s: Seq<char>) -> Option<(i64, u32)>;

/// Relies on `chrono::DateTime::parse_from_rfc3339`, read through chrono's
/// `timestamp` and `timestamp_subsec_nanos` accessors; the outcome is a
/// function of the characters alone.
#[verifier::external_body]
pub(crate) fn parse_rfc3339(s: &str) -> (r: Option<(i64, u32)>)
    ensures
        r == rfc3339_parse(s@),
{
    match chrono::DateTime::parse_from_rfc3339(s) {
        Ok(t) => Some((t.timestamp(), t.timestamp_subsec_nanos())),
        Err(_) => None,
    }
}

/// Relies on `chrono::Utc::now`: nothing is assumed of the instant itself.
/// The subsecond part stays below two billion: chrono admits values in
/// `1_000_000_000..2_000_000_000` only to represent a leap second.
#[verifier::external_body]
pub(crate) fn now_utc() -> (r: (i64, u32))
    ensures
        r.1 < 2_000_000_000,
{
    let t = chrono::Utc::now();
    (t.timestamp(), t.timestamp_subsec_nanos())
}

} // verus!
