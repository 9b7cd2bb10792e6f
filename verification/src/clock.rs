//! The monotonic clock by which cache entries age.

use vstd::prelude::*;

verus! {

/// Makes `std::time::Instant` known as a type whose inside is not looked at.
#[verifier::external_type_specification]
#[verifier::external_body]
pub struct ExInstant(std::time::Instant);

/// Calls `Instant::now`. Nothing is assumed of the instant returned.
#[verifier::external_body]
fn instant_now() -> (r: std::time::Instant) {
    std::time::Instant::now()
}

/// Calls `Instant::elapsed`. Nothing is assumed of the duration returned.
#[verifier::external_body]
fn elapsed_since(start: &std::time::Instant) -> (r: core::time::Duration) {
    start.elapsed()
}

/// Calls `Duration::as_nanos`. Nothing is assumed of the number returned.
#[verifier::external_body]
fn as_nanos(d: &core::time::Duration) -> (r: u128) {
    d.as_nanos()
}

/// A clock that counts nanoseconds from the moment it was started. It
/// never runs backwards, but nothing in the library's contracts rests on
/// that: they hold for every reading.
pub struct Clock {
    origin: std::time::Instant,
}

impl Clock {
    /// A clock that starts now.
    pub fn start() -> (r: Clock) {
        Clock { origin: instant_now() }
    }

    /// The nanoseconds since the clock was started. The value depends on
    /// when the call is made; nothing is promised of it.
    pub fn now(&self) -> (r: u128) {
        let d = elapsed_since(&self.origin);
        as_nanos(&d)
    }
}

} // verus!
