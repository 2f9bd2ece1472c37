//! The wall clock, read as milliseconds since the Unix epoch.

use vstd::prelude::*;
use crate::text::{decimal, decimal_string};

verus! {

/// `std::time::SystemTime`, a reading of the system clock, carried as it is.
#[verifier::external_type_specification]
#[verifier::external_body]
pub struct ExSystemTime(std::time::SystemTime);

/// `std::time::SystemTimeError`, the error of a measurement that would be
/// negative, carried as it is.
#[verifier::external_type_specification]
#[verifier::external_body]
pub struct ExSystemTimeError(std::time::SystemTimeError);

/// `SystemTime::now` reads the system clock. Nothing is claimed of the value.
pub assume_specification[ std::time::SystemTime::now ]() -> (t: std::time::SystemTime)
;

/// `SystemTime::duration_since` measures the time from `earlier` to `t`, and
/// fails where `earlier` is the later of the two. Nothing is claimed of the value.
pub assume_specification[ std::time::SystemTime::duration_since ](
    t: &std::time::SystemTime,
    earlier: std::time::SystemTime,
) -> (r: Result<core::time::Duration, std::time::SystemTimeError>)
;

/// `Duration::as_millis` gives a duration in whole milliseconds. Nothing is
/// claimed of the value.
pub assume_specification[ core::time::Duration::as_millis ](d: &core::time::Duration) -> (ms: u128)
;

/// The constant `std::time::UNIX_EPOCH`.
#[verifier::external_body]
fn unix_epoch() -> (t: std::time::SystemTime) {
    std::time::UNIX_EPOCH
}

/// Whether `s` is the decimal numeral of some number.
pub open spec fn is_numeral(s: Seq<char>) -> bool {
    exists|n: nat| s == decimal(n)
}

/// The text of a time given in milliseconds since the epoch.
pub fn millis_string(ms: u128) -> (s: String)
    ensures
        s@ == decimal(ms as nat),
{
    decimal_string(ms)
}

/// The present time as text: the milliseconds since the Unix epoch, as a
/// decimal numeral. A clock set before the epoch reads as `"0"`.
pub fn now_string() -> (s: String)
    ensures
        is_numeral(s@),
{
    let now = std::time::SystemTime::now();
    let ms: u128 = match now.duration_since(unix_epoch()) {
        Ok(d) => d.as_millis(),
        Err(_) => 0,
    };
    millis_string(ms)
}

} // verus!
