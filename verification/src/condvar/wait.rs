//! A wait of whichever kind.

use vstd::prelude::*;

use super::wait_async::AsyncWait;
use super::wait_block::BlockWait;
use super::wait_spin::SpinWait;
use super::{Condvar, CondvarView, MonitorView, Progress, Turn, WaitTimeoutResult};
use crate::guard::Guard;
use crate::mutex::{Mutex, MutexView};
use crate::platform::{Pause, Strategy};
use crate::waiter::Waiter;

verus! {

/// A wait that has begun.
#[derive(Debug)]
pub enum Wait {
    /// It spins.
    Spin(SpinWait),
    /// It parks the thread.
    Block(BlockWait),
    /// It suspends the task.
    Task(AsyncWait),
}

impl Wait {
    /// The wait that `waiter` begins under this strategy.
    pub open spec fn begun_sync<W>(
        strategy: Strategy,
        waiter: Waiter<W>,
        deadline: Option<u64>,
    ) -> Self {
        match strategy {
            Strategy::Block => Wait::Block(BlockWait::begun(waiter, deadline)),
            Strategy::Spin => Wait::Spin(SpinWait::begun(waiter, deadline)),
        }
    }

    /// Whether the wait is over with this step, and if so, whether the time was up.
    pub open spec fn verdict<W>(self, turn: Turn<W>, lists: CondvarView<W>) -> Option<bool> {
        match self {
            Wait::Spin(wait) => wait.verdict(turn, lists),
            Wait::Block(wait) => wait.verdict(turn, lists),
            Wait::Task(wait) => wait.verdict(turn),
        }
    }

    /// The wait after this step.
    pub open spec fn moved<W>(self, turn: Turn<W>, lists: CondvarView<W>) -> Self {
        match self {
            Wait::Spin(wait) => Wait::Spin(
                SpinWait { phase: wait.advanced(turn, lists.spin), ..wait },
            ),
            Wait::Block(wait) => Wait::Block(
                BlockWait { phase: wait.advanced(turn, lists.sync), ..wait },
            ),
            Wait::Task(wait) => Wait::Task(AsyncWait { phase: wait.advanced(turn), ..wait }),
        }
    }

    /// The lists after this step.
    pub open spec fn lists_after<W>(self, turn: Turn<W>, lists: CondvarView<W>) -> CondvarView<W> {
        match self {
            Wait::Spin(wait) => wait.lists_after(turn, lists),
            Wait::Block(wait) => wait.lists_after(turn, lists),
            Wait::Task(wait) => wait.lists_after(turn, lists),
        }
    }

    /// How a wait that is not over pauses at `now`.
    pub open spec fn resting(self, now: u64) -> Pause {
        match self {
            Wait::Spin(_) => Pause::Spin,
            Wait::Block(wait) => wait.parking(now),
            Wait::Task(_) => Pause::Await,
        }
    }

    /// Whether the mutex refused the attempt that follows the wait.
    pub open spec fn refused<T, W>(
        self,
        turn: Turn<W>,
        before: MutexView<T, W>,
        pause: Pause,
        after: MutexView<T, W>,
    ) -> bool {
        match self {
            Wait::Task(_) => before.refuses_async(turn.handle, pause, after),
            _ => before.refuses_sync(turn.strategy, turn.handle, pause, after),
        }
    }

    /// The waiter that this step takes off the list to be woken.
    pub open spec fn cancels<W>(self, turn: Turn<W>, lists: CondvarView<W>) -> Option<Waiter<W>> {
        match self {
            Wait::Task(wait) => wait.cancels(turn, lists),
            _ => None,
        }
    }

    /// Whether this step finishes the wait with `guard` and `result`.
    pub open spec fn readies<T, W>(
        self,
        turn: Turn<W>,
        before: MonitorView<T, W>,
        after: MonitorView<T, W>,
        guard: Guard<T>,
        result: WaitTimeoutResult,
    ) -> bool {
        &&& self.verdict(turn, before.condvar) == Some(result@)
        &&& after.condvar == self.lists_after(turn, before.condvar)
        &&& before.mutex.gives(guard, after.mutex)
    }

    /// Whether this step leaves the wait at `next`, to go on after `pause`.
    pub open spec fn continues<T, W>(
        self,
        turn: Turn<W>,
        before: MonitorView<T, W>,
        after: MonitorView<T, W>,
        next: Wait,
        pause: Pause,
    ) -> bool {
        &&& next == self.moved(turn, before.condvar)
        &&& after.condvar == self.lists_after(turn, before.condvar)
        &&& if self.verdict(turn, before.condvar) is Some {
            self.refused(turn, before.mutex, pause, after.mutex)
        } else {
            pause == self.resting(turn.now) && after.mutex == before.mutex
        }
    }

    /// Takes the wait one step further. Returns the waiter that the step took off
    /// the list too, to be woken.
    pub fn poll<T, W>(
        self,
        condvar: &mut Condvar<W>,
        mutex: &mut Mutex<T, W>,
        turn: Turn<W>,
    ) -> (polled: (Progress<Wait, T>, Option<Waiter<W>>))
        requires
            old(condvar).wf(),
            old(mutex).consistent(),
        ensures
            final(condvar).wf(),
            final(mutex).consistent(),
            old(mutex).wf() ==> final(mutex).wf(),
            polled.1 == self.cancels(turn, old(condvar)@),
            ({
                let before = MonitorView { condvar: old(condvar)@, mutex: old(mutex)@ };
                let after = MonitorView { condvar: final(condvar)@, mutex: final(mutex)@ };
                match polled.0 {
                    Progress::Ready(guard, result) => self.readies(
                        turn,
                        before,
                        after,
                        guard,
                        result,
                    ),
                    Progress::Pending(next, pause) => self.continues(
                        turn,
                        before,
                        after,
                        next,
                        pause,
                    ),
                }
            }),
    {
        match self {
            Wait::Spin(wait) => match wait.poll(condvar, mutex, turn) {
                Progress::Ready(guard, result) => (Progress::Ready(guard, result), None),
                Progress::Pending(next, pause) => (Progress::Pending(Wait::Spin(next), pause), None),
            },
            Wait::Block(wait) => match wait.poll(condvar, mutex, turn) {
                Progress::Ready(guard, result) => (Progress::Ready(guard, result), None),
                Progress::Pending(next, pause) => (
                    Progress::Pending(Wait::Block(next), pause),
                    None,
                ),
            },
            Wait::Task(wait) => match wait.poll(condvar, mutex, turn) {
                (Progress::Ready(guard, result), cancelled) => (
                    Progress::Ready(guard, result),
                    cancelled,
                ),
                (Progress::Pending(next, pause), cancelled) => (
                    Progress::Pending(Wait::Task(next), pause),
                    cancelled,
                ),
            },
        }
    }
}

} // verus!
