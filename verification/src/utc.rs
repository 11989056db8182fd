//! The boundary to chrono: the rendering of a point in time as a UTC date,
//! with what is taken on trust about it.

use vstd::prelude::*;

verus! {

/// What chrono writes for the UTC time `secs` seconds after the Unix epoch
/// under a `strftime` pattern; `None` where chrono cannot represent the time.
pub uninterp spec fn utc_formatted(secs: int, pattern: Seq<char>) -> Option<Seq<char>>;

/// The last second of the year 9999, in seconds after the Unix epoch.
pub const END_OF_9999: i64 = 253_402_300_799;

/// The time lies in the years 1970 to 9999.
pub open spec fn common_era(secs: int) -> bool {
    0 <= secs <= END_OF_9999
}

/// `chrono::DateTime::from_timestamp`, then `format` on what it returns, as
/// text. Trusted: that the outcome is a function of the seconds and the
/// pattern alone, named `utc_formatted`, and that chrono represents every
/// time of the years 1970 to 9999. The patterns admitted are the two that
/// this library uses; chrono panics when it renders a malformed one.
#[verifier::external_body]
pub(crate) fn format_utc(secs: i64, pattern: &str) -> (r: Option<String>)
    requires
        pattern@ == "%Y/%m-%d"@ || pattern@ == "%Y-%m-%d"@,
    ensures
        match r {
            Some(text) => utc_formatted(secs as int, pattern@) == Some(text@),
            None => utc_formatted(secs as int, pattern@) is None && !common_era(secs as int),
        },
{
    match chrono::DateTime::from_timestamp(secs, 0) {
        Some(time) => Some(time.format(pattern).to_string()),
        None => None,
    }
}

} // verus!
