//! Reading the system clock.

use std::time::{Duration, SystemTime};
use vstd::prelude::*;

verus! {

/// A reading of the system clock (`std::time::SystemTime`), carried through
/// verified code without looking inside.
#[verifier::external_type_specification]
#[verifier::external_body]
pub struct ExSystemTime(SystemTime);

/// Calls `SystemTime::now`. The reading depends on the machine's clock, so
/// nothing is promised of it.
#[verifier::external_body]
fn system_now() -> (t: SystemTime) {
    SystemTime::now()
}

/// Calls `SystemTime::duration_since` with `UNIX_EPOCH`, turning its error
/// (a clock set before 1970) into `None`. The value is opaque to Verus, so
/// nothing is stated of it.
#[verifier::external_body]
fn duration_since_unix_epoch(t: &SystemTime) -> (d: Option<Duration>) {
    t.duration_since(std::time::UNIX_EPOCH).ok()
}

/// Calls `Duration::as_secs`, the whole seconds of the duration. A `Duration`
/// is opaque to Verus, so nothing is stated of the number.
#[verifier::external_body]
fn duration_as_secs(d: &Duration) -> (secs: u64) {
    d.as_secs()
}

/// Seconds since the Unix epoch by the system clock, as a signed number
/// (0 when the clock stands before the epoch).
pub fn unix_now() -> i64 {
    let now = system_now();
    let secs: u64 = match duration_since_unix_epoch(&now) {
        Some(d) => duration_as_secs(&d),
        None => 0,
    };
    secs as i64
}

} // verus!
