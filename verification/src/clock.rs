//! The wall clock, in microseconds since the epoch.

use std::time::{Duration, SystemTime};
use vstd::prelude::*;

verus! {

#[verifier::external_type_specification]
#[verifier::external_body]
pub struct ExSystemTime(SystemTime);

/// `SystemTime::now`. Trusted; nothing is known of the time that comes back.
#[verifier::external_body]
fn system_now() -> SystemTime {
    SystemTime::now()
}

/// `SystemTime::duration_since` the epoch. Trusted; `None` where the clock
/// stands before the epoch.
#[verifier::external_body]
fn since_epoch(time: &SystemTime) -> Option<Duration> {
    time.duration_since(SystemTime::UNIX_EPOCH).ok()
}

/// `Duration::as_micros`. Trusted; the duration is opaque here.
#[verifier::external_body]
fn whole_micros(span: &Duration) -> u128 {
    span.as_micros()
}

/// The current time in microseconds since the epoch; zero where the clock
/// stands before the epoch.
pub(crate) fn now_micros() -> u128 {
    let time = system_now();
    match since_epoch(&time) {
        Some(span) => whole_micros(&span),
        None => 0,
    }
}

} // verus!
