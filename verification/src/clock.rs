//! The wall clock: time since the Unix epoch in seconds, milliseconds and
//! nanoseconds. What the clock reads is the machine's business; what the
//! library states is how the readings are put together.
use vstd::prelude::*;
use std::time::{Duration, SystemTime, SystemTimeError};

verus! {

#[verifier::external_type_specification]
#[verifier::external_body]
pub struct ExSystemTime(std::time::SystemTime);

#[verifier::external_type_specification]
#[verifier::external_body]
pub struct ExSystemTimeError(std::time::SystemTimeError);

/// Calls `SystemTime::now`. Trusted for nothing but its type: the reading
/// depends on the machine's clock.
#[verifier::external_body]
fn system_now() -> SystemTime {
    SystemTime::now()
}

/// Calls `SystemTime::duration_since(UNIX_EPOCH)`. Trusted for nothing but
/// its type: it fails when the clock reads a time before the epoch.
#[verifier::external_body]
fn since_epoch(t: &SystemTime) -> Result<Duration, SystemTimeError> {
    t.duration_since(std::time::UNIX_EPOCH)
}

/// Calls `Duration::as_secs`: the whole seconds of the duration.
#[verifier::external_body]
fn whole_secs(d: &Duration) -> u64 {
    d.as_secs()
}

/// Calls `Duration::subsec_nanos`. Trusted: the fractional part of a second
/// in nanoseconds, which the documentation says is less than one billion.
#[verifier::external_body]
fn subsec_nanos(d: &Duration) -> (r: u32)
    ensures
        r < 1_000_000_000,
{
    d.subsec_nanos()
}

/// Calls `ToString::to_string` on the clock error (its message).
#[verifier::external_body]
fn time_error_text(e: &SystemTimeError) -> String {
    e.to_string()
}

/// Whole seconds since the epoch, or the clock's error message.
pub fn now_ts() -> Result<i64, String> {
    match since_epoch(&system_now()) {
        Ok(d) => {
            let s = whole_secs(&d);
            Ok(s as i64)
        },
        Err(e) => Err(time_error_text(&e)),
    }
}

/// The nanoseconds of a reading of `secs` whole seconds and `nanos`
/// nanoseconds (`Duration::as_nanos`).
pub open spec fn nanos_total(secs: u64, nanos: u32) -> int {
    secs * 1_000_000_000 + nanos
}

/// The milliseconds of a reading of `secs` whole seconds and `nanos`
/// nanoseconds (`Duration::as_millis`), cut to 64 bits as `as u64` cuts.
pub open spec fn millis_total(secs: u64, nanos: u32) -> int {
    (secs * 1000 + nanos / 1_000_000) % 0x1_0000_0000_0000_0000
}

/// Nanoseconds of a reading of `secs` whole seconds and `nanos` nanoseconds.
pub fn nanos_of(secs: u64, nanos: u32) -> (r: u128)
    ensures
        r == nanos_total(secs, nanos),
{
    secs as u128 * 1_000_000_000u128 + nanos as u128
}

/// Milliseconds of a reading of `secs` whole seconds and `nanos`
/// nanoseconds (under a billion), cut to 64 bits.
pub fn millis_of(secs: u64, nanos: u32) -> (r: u64)
    requires
        nanos < 1_000_000_000,
    ensures
        r == millis_total(secs, nanos),
{
    let ms: u128 = secs as u128 * 1000u128 + (nanos / 1_000_000) as u128;
    assert(ms as u64 == ms % 0x1_0000_0000_0000_0000) by (bit_vector);
    #[verifier::truncate]
    (ms as u64)
}

/// Nanoseconds since the epoch (`Duration::as_nanos`), or the clock's error
/// message: `nanos_of` the reading's whole seconds and its fraction of a
/// second in nanoseconds (under a billion). Which reading the clock gives is
/// not stated.
pub fn now_ns() -> (r: Result<u128, String>)
    ensures
        r matches Ok(n) ==> exists|s: u64, f: u32| f < 1_000_000_000 && n == #[trigger] nanos_total(s, f),
{
    match since_epoch(&system_now()) {
        Ok(d) => {
            let s = whole_secs(&d);
            let f = subsec_nanos(&d);
            let n = nanos_of(s, f);
            Ok(n)
        },
        Err(e) => Err(time_error_text(&e)),
    }
}

/// Milliseconds since the epoch (`Duration::as_millis`, cut to 64 bits):
/// `millis_of` the reading's whole seconds and its fraction of a second in
/// nanoseconds; zero when the clock reads a time before the epoch. Which
/// reading the clock gives is not stated.
pub fn now_ms() -> (r: u64)
    ensures
        r == 0 || exists|s: u64, f: u32| f < 1_000_000_000 && r == #[trigger] millis_total(s, f),
{
    match since_epoch(&system_now()) {
        Ok(d) => {
            let s = whole_secs(&d);
            let f = subsec_nanos(&d);
            millis_of(s, f)
        },
        Err(_) => 0,
    }
}

} // verus!
