//! Monotonic milliseconds, read from the system's monotonic clock.

use vstd::prelude::*;

verus! {

#[verifier::external_type_specification]
#[verifier::external_body]
pub struct ExInstant(std::time::Instant);

/// Relies on `Instant::now`: reads the monotonic clock. Nothing is known of the value.
pub assume_specification[ std::time::Instant::now ]() -> std::time::Instant;

/// Relies on `Instant::elapsed`: the time since the instant; nothing is promised of it here.
pub assume_specification[ std::time::Instant::elapsed ](this: &std::time::Instant) -> std::time::Duration;

/// Relies on `Duration::as_millis`: whole milliseconds of a duration; nothing is promised of it here.
pub assume_specification[ std::time::Duration::as_millis ](this: &std::time::Duration) -> u128;

/// A monotonic clock that counts milliseconds from the moment it was started.
pub struct Clock {
    origin: std::time::Instant,
}

impl Clock {
    /// Starts a clock at the current instant.
    pub fn start() -> (c: Clock) {
        Clock { origin: std::time::Instant::now() }
    }

    /// Milliseconds since the clock was started, saturating at `u64::MAX`.
    pub fn now_ms(&self) -> (ms: u64) {
        let elapsed = self.origin.elapsed();
        let ms = elapsed.as_millis();
        if ms > u64::MAX as u128 {
            u64::MAX
        } else {
            ms as u64
        }
    }
}

} // verus!
