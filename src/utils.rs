//! Capture-time clock.
use vstd::prelude::*;

verus! {

/// Relies on std::time::SystemTime::duration_since: the nanoseconds since the
/// Unix epoch, or nothing where the clock stands before it.
#[verifier::external_body]
fn nanos_since_epoch() -> (r: Option<u128>) {
    std::time::SystemTime::now().duration_since(std::time::UNIX_EPOCH).ok().map(|d| d.as_nanos())
}

/// The current time in nanoseconds since the Unix epoch; zero where the
/// system clock stands before the epoch.
pub fn timestamp() -> (r: u128) {
    match nanos_since_epoch() {
        Some(t) => t,
        None => 0,
    }
}

} // verus!
