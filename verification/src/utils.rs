//! Small value-level helpers shared across the registry.

use vstd::prelude::*;
use vstd::string::StrSliceExecFns;
use vstd::string::StringSliceAdditionalSpecFns;

verus! {

/// Seconds in one 365-day year.
pub const SECONDS_PER_YEAR: u64 = 31536000;

/// Milliseconds in one 365-day year.
pub const MILLIS_PER_YEAR: i64 = 31536000000;

/// The UTF-8 bytes of a string.
pub fn string_to_bytes(s: &str) -> (r: Vec<u8>)
    ensures
        r@ == s.spec_bytes(),
{
    s.as_bytes_vec()
}

/// A subscription duration in seconds, from a number of 365-day years.
pub fn duration_in_years(years: u64) -> (r: u64)
    requires
        years * SECONDS_PER_YEAR <= u64::MAX,
    ensures
        r == years * SECONDS_PER_YEAR,
{
    years * SECONDS_PER_YEAR
}

/// A subscription duration in milliseconds, from a number of 365-day years.
pub fn milliseconds_in_years(years: i64) -> (r: i64)
    requires
        0 <= years,
        years * MILLIS_PER_YEAR <= i64::MAX,
    ensures
        r == years * MILLIS_PER_YEAR,
{
    years * MILLIS_PER_YEAR
}

} // verus!
