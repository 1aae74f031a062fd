//! Waits that spin.

use vstd::prelude::*;

use super::{
    expired, Checked, Condvar, CondvarView, MonitorView, Progress, Turn, WaitTimeoutResult,
};
use crate::guard::Guard;
use crate::mutex::{Attempt, Mutex};
use crate::platform::Pause;
use crate::waiter::{listed, without_first, Waiter};

verus! {

/// How far a spinning wait has come.
#[derive(Clone, Copy, Debug, PartialEq, Eq, Structural)]
pub enum SpinPhase {
    /// On the list.
    Listed,
    /// Taken off the list by a notification that has yet to arrive.
    Claimed,
    /// Over; the mutex has yet to be taken.
    Relocking {
        /// Whether the time was up.
        timed_out: bool,
    },
}

/// A spinning wait that has begun.
#[derive(Debug)]
pub struct SpinWait {
    /// Id of the waiter.
    pub id: u64,
    /// When to give up, in nanoseconds.
    pub deadline: Option<u64>,
    /// How far the wait has come.
    pub phase: SpinPhase,
}

impl SpinWait {
    /// The wait that `waiter` begins.
    pub open spec fn begun<W>(waiter: Waiter<W>, deadline: Option<u64>) -> Self {
        SpinWait { id: waiter.id, deadline, phase: SpinPhase::Listed }
    }

    /// Whether this step finds the waiter still on the list after its deadline.
    pub open spec fn gives_up<W>(self, turn: Turn<W>, list: Seq<Waiter<W>>) -> bool {
        &&& self.phase == SpinPhase::Listed
        &&& !turn.signalled
        &&& expired(self.deadline, turn.now)
        &&& listed(list, self.id)
    }

    /// How far the wait has come after this step.
    ///
    /// A signal ends it. Past the deadline a waiter that is still on the list has
    /// timed out. One that is not has been notified, and the signal will follow.
    pub open spec fn advanced<W>(self, turn: Turn<W>, list: Seq<Waiter<W>>) -> SpinPhase {
        if self.phase is Relocking {
            self.phase
        } else if turn.signalled {
            SpinPhase::Relocking { timed_out: false }
        } else if self.gives_up(turn, list) {
            SpinPhase::Relocking { timed_out: true }
        } else if expired(self.deadline, turn.now) {
            SpinPhase::Claimed
        } else {
            self.phase
        }
    }

    /// The lists after this step: a waiter that gives up takes itself off.
    pub open spec fn lists_after<W>(self, turn: Turn<W>, lists: CondvarView<W>) -> CondvarView<W> {
        if self.gives_up(turn, lists.spin) {
            CondvarView { spin: without_first(lists.spin, self.id), ..lists }
        } else {
            lists
        }
    }

    /// Whether the wait is over with this step, and if so, whether the time was up.
    pub open spec fn verdict<W>(self, turn: Turn<W>, lists: CondvarView<W>) -> Option<bool> {
        match self.advanced(turn, lists.spin) {
            SpinPhase::Relocking { timed_out } => Some(timed_out),
            _ => None,
        }
    }

    /// Whether this step finishes the wait with `guard` and `result`.
    pub open spec fn readies<T, W>(
        self,
        turn: Turn<W>,
        before: MonitorView<T, W>,
        after: MonitorView<T, W>,
        guard: Guard<T>,
        result: WaitTimeoutResult,
    ) -> bool {
        &&& self.advanced(turn, before.condvar.spin) == SpinPhase::Relocking { timed_out: result@ }
        &&& after.condvar == self.lists_after(turn, before.condvar)
        &&& before.mutex.gives(guard, after.mutex)
    }

    /// Whether this step leaves the wait at `next`, to go on after `pause`.
    pub open spec fn continues<T, W>(
        self,
        turn: Turn<W>,
        before: MonitorView<T, W>,
        after: MonitorView<T, W>,
        next: SpinWait,
        pause: Pause,
    ) -> bool {
        &&& next == (SpinWait { phase: self.advanced(turn, before.condvar.spin), ..self })
        &&& after.condvar == self.lists_after(turn, before.condvar)
        &&& if next.phase is Relocking {
            before.mutex.refuses_sync(turn.strategy, turn.handle, pause, after.mutex)
        } else {
            pause == Pause::Spin && after.mutex == before.mutex
        }
    }

    /// Takes the wait one step further: looks for the signal, then at the time, and
    /// once the wait is over, tries to take the mutex.
    pub fn poll<T, W>(
        self,
        condvar: &mut Condvar<W>,
        mutex: &mut Mutex<T, W>,
        turn: Turn<W>,
    ) -> (progress: Progress<SpinWait, T>)
        requires
            old(condvar).wf(),
            old(mutex).consistent(),
        ensures
            final(condvar).wf(),
            final(mutex).consistent(),
            old(mutex).wf() ==> final(mutex).wf(),
            ({
                let before = MonitorView { condvar: old(condvar)@, mutex: old(mutex)@ };
                let after = MonitorView { condvar: final(condvar)@, mutex: final(mutex)@ };
                match progress {
                    Progress::Ready(guard, result) => self.readies(
                        turn,
                        before,
                        after,
                        guard,
                        result,
                    ),
                    Progress::Pending(next, pause) => self.continues(
                        turn,
                        before,
                        after,
                        next,
                        pause,
                    ),
                }
            }),
    {
        let phase = match self.phase {
            SpinPhase::Relocking { timed_out } => SpinPhase::Relocking { timed_out },
            SpinPhase::Claimed => {
                if turn.signalled {
                    SpinPhase::Relocking { timed_out: false }
                } else {
                    SpinPhase::Claimed
                }
            },
            SpinPhase::Listed => {
                if turn.signalled {
                    SpinPhase::Relocking { timed_out: false }
                } else {
                    match self.deadline {
                        Some(deadline) => {
                            if turn.now < deadline {
                                SpinPhase::Listed
                            } else if condvar.remove_spin(self.id) {
                                SpinPhase::Relocking { timed_out: true }
                            } else {
                                SpinPhase::Claimed
                            }
                        },
                        None => SpinPhase::Listed,
                    }
                }
            },
        };
        let next = SpinWait { id: self.id, deadline: self.deadline, phase };
        match phase {
            SpinPhase::Relocking { timed_out } => match mutex.lock_sync(
                turn.strategy,
                turn.handle,
            ) {
                Attempt::Acquired(guard) => Progress::Ready(
                    guard,
                    WaitTimeoutResult::new(timed_out),
                ),
                Attempt::Retry(pause) => Progress::Pending(next, pause),
            },
            _ => Progress::Pending(next, Pause::Spin),
        }
    }
}

impl<W> Condvar<W> {
    fn begin_spin<T>(
        &mut self,
        mutex: &mut Mutex<T, W>,
        guard: Guard<T>,
        waiter: Waiter<W>,
        deadline: Option<u64>,
    ) -> (begun: (SpinWait, Vec<W>))
        requires
            old(self).wf(),
            old(mutex).consistent(),
            old(mutex)@.lent(guard),
        ensures
            final(self).wf(),
            final(mutex).wf(),
            final(self)@ == old(self)@.with_spin(waiter),
            final(mutex)@ == old(mutex)@.released(guard@),
            begun.0 == SpinWait::begun(waiter, deadline),
            begun.1@ == old(mutex)@.queued(),
    {
        let wait = SpinWait { id: waiter.id, deadline, phase: SpinPhase::Listed };
        self.add_spin(waiter);
        (wait, guard.drop(mutex))
    }

    /// Begins a wait that spins: registers `waiter`, releases the mutex, and returns
    /// the wait with the handles of everybody who waited for the mutex.
    pub fn wait_spin<T>(
        &mut self,
        mutex: &mut Mutex<T, W>,
        guard: Guard<T>,
        waiter: Waiter<W>,
    ) -> (begun: (SpinWait, Vec<W>))
        requires
            old(self).wf(),
            old(mutex).consistent(),
            old(mutex)@.lent(guard),
        ensures
            final(self).wf(),
            final(mutex).wf(),
            final(self)@ == old(self)@.with_spin(waiter),
            final(mutex)@ == old(mutex)@.released(guard@),
            begun.0 == SpinWait::begun(waiter, None),
            begun.1@ == old(mutex)@.queued(),
    {
        self.begin_spin(mutex, guard, waiter, None)
    }

    /// Begins a wait that spins until `deadline` at the latest.
    pub fn wait_spin_until<T>(
        &mut self,
        mutex: &mut Mutex<T, W>,
        guard: Guard<T>,
        waiter: Waiter<W>,
        deadline: u64,
    ) -> (begun: (SpinWait, Vec<W>))
        requires
            old(self).wf(),
            old(mutex).consistent(),
            old(mutex)@.lent(guard),
        ensures
            final(self).wf(),
            final(mutex).wf(),
            final(self)@ == old(self)@.with_spin(waiter),
            final(mutex)@ == old(mutex)@.released(guard@),
            begun.0 == SpinWait::begun(waiter, Some(deadline)),
            begun.1@ == old(mutex)@.queued(),
    {
        self.begin_spin(mutex, guard, waiter, Some(deadline))
    }

    /// Checks the condition, and spins while it is `true`.
    ///
    /// When the wait is ready its guard comes back here for the next check. A guard
    /// that is done has seen the condition `false`.
    pub fn wait_spin_while<T, F>(
        &mut self,
        mutex: &mut Mutex<T, W>,
        guard: Guard<T>,
        waiter: Waiter<W>,
        condition: F,
    ) -> (checked: Checked<SpinWait, T, W>) where F: FnOnce(&mut T) -> bool
        requires
            old(self).wf(),
            old(mutex).consistent(),
            old(mutex)@.lent(guard),
            forall|data: &mut T| *data == guard@ ==> call_requires(condition, (data,)),
        ensures
            final(self).wf(),
            final(mutex).wf(),
            exists|data: &mut T, holds: bool|
                {
                    &&& *data == guard@
                    &&& #[trigger] call_ensures(condition, (data,), holds)
                    &&& (MonitorView { condvar: old(self)@, mutex: old(mutex)@ }).checks(
                        holds,
                        *final(data),
                        old(self)@.with_spin(waiter),
                        SpinWait::begun(waiter, None),
                        checked,
                        MonitorView { condvar: final(self)@, mutex: final(mutex)@ },
                    )
                },
    {
        let mut guard = guard;
        if condition(guard.as_mut()) {
            let (wait, wakes) = self.wait_spin(mutex, guard, waiter);
            Checked::Waiting(wait, wakes)
        } else {
            Checked::Done(guard, WaitTimeoutResult::new(false))
        }
    }

    /// Checks the condition, and spins while it is `true` until `deadline` at the
    /// latest.
    ///
    /// When the wait is ready its guard and its result come back here; the first
    /// check is made with the result of a wait that did not time out. A guard that
    /// is done has seen the condition `false` or has timed out.
    pub fn wait_spin_until_while<T, F>(
        &mut self,
        mutex: &mut Mutex<T, W>,
        guard: Guard<T>,
        previous: WaitTimeoutResult,
        waiter: Waiter<W>,
        deadline: u64,
        condition: F,
    ) -> (checked: Checked<SpinWait, T, W>) where F: FnOnce(&mut T) -> bool
        requires
            old(self).wf(),
            old(mutex).consistent(),
            old(mutex)@.lent(guard),
            !previous@ ==> forall|data: &mut T|
                *data == guard@ ==> call_requires(condition, (data,)),
        ensures
            final(self).wf(),
            final(mutex).wf(),
            previous@ ==> (MonitorView { condvar: old(self)@, mutex: old(mutex)@ }).hands_back(
                guard,
                checked,
                MonitorView { condvar: final(self)@, mutex: final(mutex)@ },
            ),
            !previous@ ==> exists|data: &mut T, holds: bool|
                {
                    &&& *data == guard@
                    &&& #[trigger] call_ensures(condition, (data,), holds)
                    &&& (MonitorView { condvar: old(self)@, mutex: old(mutex)@ }).checks(
                        holds,
                        *final(data),
                        old(self)@.with_spin(waiter),
                        SpinWait::begun(waiter, Some(deadline)),
                        checked,
                        MonitorView { condvar: final(self)@, mutex: final(mutex)@ },
                    )
                },
    {
        if previous.timed_out() {
            return Checked::Done(guard, previous);
        }
        let mut guard = guard;
        if condition(guard.as_mut()) {
            let (wait, wakes) = self.wait_spin_until(mutex, guard, waiter, deadline);
            Checked::Waiting(wait, wakes)
        } else {
            Checked::Done(guard, WaitTimeoutResult::new(false))
        }
    }
}

} // verus!
