//! When the main loop turns the pump switch over.
use vstd::prelude::*;

verus! {

/// How long the pump switch stays in one state before it is turned over, in
/// milliseconds.
pub const TOGGLE_PERIOD_MS: u64 = 10000;

/// The switch is due to be turned over: at least a period has passed since
/// it was last switched.  A clock that reads earlier than the last switch
/// counts as no time passed.
pub fn toggle_due(last_switched_ms: u64, now_ms: u64) -> (due: bool)
    ensures
        due == (now_ms >= last_switched_ms && now_ms - last_switched_ms >= TOGGLE_PERIOD_MS),
{
    now_ms >= last_switched_ms && now_ms - last_switched_ms >= TOGGLE_PERIOD_MS
}

} // verus!
