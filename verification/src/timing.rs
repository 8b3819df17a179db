//! Wall-clock catch-up pacing: how many instruction cycles are due, given
//! elapsed time and the configured instruction rate. The caller supplies
//! the clock; nothing here sleeps or reads time.
use vstd::prelude::*;

verus! {

/// The cycles owed after `elapsed_secs` whole seconds at `cycle_rate`
/// cycles per second, of which `done` have already run: the difference,
/// clamped to the `u64` range at both ends.
pub open spec fn spec_due_cycles(elapsed_secs: u64, cycle_rate: u16, done: u64) -> int {
    let target = if elapsed_secs * cycle_rate > u64::MAX {
        u64::MAX as int
    } else {
        elapsed_secs * cycle_rate
    };
    if target >= done {
        target - done
    } else {
        0
    }
}

/// How many fetch/decode/execute cycles should run now so that total
/// throughput tracks wall time: elapsed seconds times the configured
/// rate, minus the cycles already executed.
pub fn due_cycles(elapsed_secs: u64, cycle_rate: u16, done: u64) -> (r: u64)
    ensures
        r == spec_due_cycles(elapsed_secs, cycle_rate, done),
{
    let target = match elapsed_secs.checked_mul(cycle_rate as u64) {
        Some(t) => t,
        None => u64::MAX,
    };
    target.saturating_sub(done)
}

} // verus!
