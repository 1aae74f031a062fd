//! What the platform allows, and how long is left until a deadline.

use vstd::prelude::*;

verus! {

/// How a `_sync` operation waits.
#[derive(Clone, Copy, Debug, PartialEq, Eq, Structural)]
pub enum Strategy {
    /// Park the thread.
    Block,
    /// Busy-wait, because the thread may not block.
    Spin,
}

/// What to do before the next step of an operation that has not finished.
#[derive(Clone, Copy, Debug, PartialEq, Eq, Structural)]
pub enum Pause {
    /// Nothing: take the next step at once.
    Proceed,
    /// Hint the processor that this is a busy-wait.
    Spin,
    /// Park the thread until somebody unparks it.
    Park,
    /// Park the thread for at most this many nanoseconds.
    ParkTimeout(u64),
    /// Suspend the task until somebody signals it.
    Await,
}

impl Pause {
    /// Whether the pause gives up the thread.
    pub open spec fn blocks(self) -> bool {
        self is Park || self is ParkTimeout
    }
}

/// The strategy for a platform.
pub open spec fn strategy_for(wasm: bool, atomics_wait: bool) -> Strategy {
    if wasm && !atomics_wait {
        Strategy::Spin
    } else {
        Strategy::Block
    }
}

/// Picks the strategy of the `_sync` operations.
///
/// Native threads always block. On WebAssembly a thread blocks if `Atomics.wait`
/// works on it, and spins if it does not.
pub fn sync_strategy(wasm: bool, atomics_wait: bool) -> (strategy: Strategy)
    ensures
        strategy == strategy_for(wasm, atomics_wait),
{
    if !wasm {
        Strategy::Block
    } else if atomics_wait {
        Strategy::Block
    } else {
        Strategy::Spin
    }
}

/// Nanoseconds from `now` until `deadline`, none once it has passed.
pub open spec fn time_until(deadline: u64, now: u64) -> u64 {
    if now < deadline {
        (deadline - now) as u64
    } else {
        0
    }
}

/// How long to park or sleep at `now` so as to wake at `deadline`.
pub fn time_left(deadline: u64, now: u64) -> (left: u64)
    ensures
        left == time_until(deadline, now),
{
    if now < deadline {
        deadline - now
    } else {
        0
    }
}

/// Sleeping for the time left reaches the deadline, and not later than needed.
pub proof fn law_time_left_reaches_deadline(deadline: u64, now: u64)
    ensures
        now + time_until(deadline, now) >= deadline,
        now < deadline ==> now + time_until(deadline, now) == deadline,
        time_until(deadline, now) == 0 <==> now >= deadline,
{
}

} // verus!
