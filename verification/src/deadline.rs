use vstd::prelude::*;

verus! {

/// Fixed lead time, in milliseconds, by which the synthetic timeout fires
/// before the externally imposed deadline.
pub const SAFETY_MARGIN_MS: u64 = 100;

/// How long to suspend, starting from `now`, so that the watcher wakes
/// `SAFETY_MARGIN_MS` before the absolute deadline; zero when the deadline
/// is already closer than the margin or already past.
pub open spec fn wake_delay_spec(deadline_epoch_ms: int, now_epoch_ms: int) -> int {
    if deadline_epoch_ms - now_epoch_ms - SAFETY_MARGIN_MS >= 0 {
        deadline_epoch_ms - now_epoch_ms - SAFETY_MARGIN_MS
    } else {
        0
    }
}

/// Computes the sleep duration for the deadline watcher from an absolute
/// deadline and a wall-clock sample, both in epoch milliseconds. The
/// subtraction saturates at zero, so a deadline that is already past yields
/// an immediate wake instead of an underflow.
pub fn wake_delay_ms(deadline_epoch_ms: u64, now_epoch_ms: u64) -> (delay: u64)
    ensures
        delay == wake_delay_spec(deadline_epoch_ms as int, now_epoch_ms as int),
{
    if deadline_epoch_ms >= now_epoch_ms && deadline_epoch_ms - now_epoch_ms >= SAFETY_MARGIN_MS {
        deadline_epoch_ms - now_epoch_ms - SAFETY_MARGIN_MS
    } else {
        0
    }
}

} // verus!
