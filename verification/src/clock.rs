//! The wall clock, read at the library's edge.

use std::time::Duration;
use std::time::SystemTime;
use std::time::SystemTimeError;
use vstd::prelude::*;

verus! {

#[verifier::external_type_specification]
#[verifier::external_body]
pub struct ExSystemTime(SystemTime);

#[verifier::external_type_specification]
#[verifier::external_body]
pub struct ExSystemTimeError(SystemTimeError);

/// Calls `std::time::SystemTime::now`. Nothing is claimed of the reading:
/// two readings may differ in any way.
#[verifier::external_body]
fn system_time() -> (t: SystemTime) {
    SystemTime::now()
}

/// Calls `SystemTime::duration_since` with the Unix epoch: the time from
/// the epoch to `t`, or an error where `t` stands before the epoch.
/// Nothing is claimed of the result.
#[verifier::external_body]
fn since_epoch(t: &SystemTime) -> (r: Result<Duration, SystemTimeError>) {
    t.duration_since(std::time::UNIX_EPOCH)
}

/// Calls `Duration::as_secs`. Nothing is claimed of the result.
#[verifier::external_body]
fn whole_secs(d: &Duration) -> (n: u64) {
    d.as_secs()
}

/// Calls `Duration::as_millis`. Nothing is claimed of the result.
#[verifier::external_body]
fn whole_millis(d: &Duration) -> (n: u128) {
    d.as_millis()
}

/// Calls `Duration::as_micros`. Nothing is claimed of the result.
#[verifier::external_body]
fn whole_micros(d: &Duration) -> (n: u128) {
    d.as_micros()
}

/// `n`, or the largest number of 64 bits where `n` is larger.
fn clamped(n: u128) -> (t: u64)
    ensures
        t == if n <= u64::MAX {
            n
        } else {
            u64::MAX as u128
        },
{
    if n <= u64::MAX as u128 {
        n as u64
    } else {
        u64::MAX
    }
}

/// The milliseconds since the Unix epoch on the system's clock; 0 where the
/// clock stands before the epoch.
pub(crate) fn now_millis() -> (t: u64) {
    match since_epoch(&system_time()) {
        Ok(d) => clamped(whole_millis(&d)),
        Err(_) => 0,
    }
}

/// The whole seconds since the Unix epoch on the system's clock; 0 where
/// the clock stands before the epoch.
pub(crate) fn now_secs() -> (t: u64) {
    match since_epoch(&system_time()) {
        Ok(d) => whole_secs(&d),
        Err(_) => 0,
    }
}

/// The microseconds since the Unix epoch on the system's clock; 0 where
/// the clock stands before the epoch.
pub(crate) fn now_micros() -> (t: u64) {
    match since_epoch(&system_time()) {
        Ok(d) => clamped(whole_micros(&d)),
        Err(_) => 0,
    }
}

} // verus!
