//! Wall-clock time in milliseconds, the one source of time for the library.
use vstd::prelude::*;

verus! {

/// Milliseconds elapsed since the Unix epoch by the system clock, or 0 if the clock
/// reads earlier than the epoch. Ages, expiries and debouncing measured with it move
/// when the system clock is set forward or back.
/// Trusted: calls `SystemTime::elapsed` on `UNIX_EPOCH` (std). The value depends on the
/// clock, so nothing is promised of it; callers state what holds for every value.
#[verifier::external_body]
pub(crate) fn now_millis() -> u64 {
    match std::time::UNIX_EPOCH.elapsed() {
        Ok(d) => d.as_millis() as u64,
        Err(_) => 0,
    }
}

} // verus!
