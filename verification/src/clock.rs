//! Reading the system clock. The clock is the one source the library
//! cannot reason about, so the raw readings come through trusted wrappers
//! with no stated value; everything derived from them is verified to lie
//! in its stated range, whatever the clock returned.

use vstd::prelude::*;

verus! {

#[verifier::external_type_specification]
#[verifier::external_body]
pub struct ExSystemTime(std::time::SystemTime);

/// Relies on `std::time::SystemTime::now`: the current system time.
/// Nothing is assumed of the value.
#[verifier::external_body]
fn utc_now() -> std::time::SystemTime {
    std::time::SystemTime::now()
}

/// Relies on `std::time::SystemTime::duration_since`: the span from the
/// UNIX epoch to `t`. A clock sitting before the epoch yields the zero
/// duration. Nothing is assumed of the value.
#[verifier::external_body]
fn duration_since(t: std::time::SystemTime) -> std::time::Duration {
    match t.duration_since(std::time::UNIX_EPOCH) {
        Ok(d) => d,
        Err(_) => std::time::Duration::ZERO,
    }
}

/// Relies on `std::time::Duration::as_nanos`: the duration in whole
/// nanoseconds. Nothing is assumed of the value.
#[verifier::external_body]
fn duration_as_nanos(d: std::time::Duration) -> u128 {
    d.as_nanos()
}

/// Relies on `std::time::Duration::as_millis`: the duration in whole
/// milliseconds. Nothing is assumed of the value.
#[verifier::external_body]
fn duration_as_millis(d: std::time::Duration) -> u128 {
    d.as_millis()
}

/// Relies on `std::time::Duration::as_secs`: the duration in whole
/// seconds. Nothing is assumed of the value.
#[verifier::external_body]
fn duration_as_secs(d: std::time::Duration) -> u64 {
    d.as_secs()
}

/// The nanosecond part of the clock reading, below one million whatever
/// the clock returned.
pub fn get_nanos() -> (r: u64)
    ensures
        r < 1000000,
{
    let d = duration_since(utc_now());
    (duration_as_nanos(d) % 1000000) as u64
}

/// The millisecond part of the clock reading, below one thousand
/// whatever the clock returned.
pub fn get_millis() -> (r: u64)
    ensures
        r < 1000,
{
    let d = duration_since(utc_now());
    (duration_as_millis(d) % 1000) as u64
}

/// The second of the minute of the clock reading, below sixty whatever
/// the clock returned.
pub fn get_second() -> (r: u64)
    ensures
        r < 60,
{
    let d = duration_since(utc_now());
    duration_as_secs(d) % 60
}

} // verus!
