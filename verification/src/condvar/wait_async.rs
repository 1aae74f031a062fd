//! Waits that suspend the task.

use vstd::prelude::*;

use super::{Checked, Condvar, CondvarView, MonitorView, Progress, Turn, WaitTimeoutResult};
use crate::guard::Guard;
use crate::mutex::{Attempt, Mutex};
use crate::platform::Pause;
use crate::waiter::{first_of, without_first, Waiter};

verus! {

/// A race between a notification and a timer.
///
/// The fields say which of the two is still awaited.
#[derive(Clone, Copy, Debug, PartialEq, Eq, Structural)]
pub struct Race {
    /// Whether the notification is awaited.
    pub notify: bool,
    /// Whether the timer is awaited.
    pub timeout: bool,
}

impl Race {
    /// Who has won: `Some(true)` if the timer, `Some(false)` if the notification,
    /// which goes first if both are ready.
    pub open spec fn winner(self, notify_ready: bool, timeout_ready: bool) -> Option<bool> {
        if self.notify && notify_ready {
            Some(false)
        } else if self.timeout && timeout_ready {
            Some(true)
        } else {
            None
        }
    }

    /// Looks at both sides. The winner is no longer awaited.
    pub fn poll(&mut self, notify_ready: bool, timeout_ready: bool) -> (timed_out: Option<bool>)
        ensures
            timed_out == old(self).winner(notify_ready, timeout_ready),
            *final(self) == (Race {
                notify: old(self).notify && timed_out != Some(false),
                timeout: old(self).timeout && timed_out != Some(true),
            }),
    {
        if self.notify && notify_ready {
            self.notify = false;
            return Some(false);
        }
        if self.timeout && timeout_ready {
            self.timeout = false;
            return Some(true);
        }
        None
    }
}

/// How far a suspended wait has come.
#[derive(Clone, Copy, Debug, PartialEq, Eq, Structural)]
pub enum AsyncPhase {
    /// On the list, until one side of the race wins.
    Suspended(Race),
    /// Over; the mutex has yet to be taken.
    Relocking {
        /// Whether the time was up.
        timed_out: bool,
    },
}

/// A suspended wait that has begun.
#[derive(Debug)]
pub struct AsyncWait {
    /// Id of the waiting task.
    pub id: u64,
    /// When the timer is to go off, in nanoseconds.
    pub deadline: Option<u64>,
    /// How far the wait has come.
    pub phase: AsyncPhase,
}

impl AsyncWait {
    /// The wait that `waiter` begins. Only a wait with a deadline has a timer.
    pub open spec fn begun<W>(waiter: Waiter<W>, deadline: Option<u64>) -> Self {
        AsyncWait {
            id: waiter.id,
            deadline,
            phase: AsyncPhase::Suspended(Race { notify: true, timeout: deadline is Some }),
        }
    }

    /// How far the wait has come after this step.
    pub open spec fn advanced<W>(self, turn: Turn<W>) -> AsyncPhase {
        match self.phase {
            AsyncPhase::Relocking { .. } => self.phase,
            AsyncPhase::Suspended(race) => match race.winner(turn.signalled, turn.expired) {
                Some(timed_out) => AsyncPhase::Relocking { timed_out },
                None => self.phase,
            },
        }
    }

    /// Whether the timer wins with this step.
    pub open spec fn gives_up<W>(self, turn: Turn<W>) -> bool {
        &&& self.phase is Suspended
        &&& self.advanced(turn) == AsyncPhase::Relocking { timed_out: true }
    }

    /// The lists after this step: a task that gives up takes itself off.
    pub open spec fn lists_after<W>(self, turn: Turn<W>, lists: CondvarView<W>) -> CondvarView<W> {
        if self.gives_up(turn) {
            CondvarView { tasks: without_first(lists.tasks, self.id), ..lists }
        } else {
            lists
        }
    }

    /// The waiter that this step takes off the list. Its handle is used after all,
    /// as nobody else will.
    pub open spec fn cancels<W>(self, turn: Turn<W>, lists: CondvarView<W>) -> Option<Waiter<W>> {
        if self.gives_up(turn) {
            first_of(lists.tasks, self.id)
        } else {
            None
        }
    }

    /// Whether the wait is over with this step, and if so, whether the time was up.
    pub open spec fn verdict<W>(self, turn: Turn<W>) -> Option<bool> {
        match self.advanced(turn) {
            AsyncPhase::Relocking { timed_out } => Some(timed_out),
            AsyncPhase::Suspended(_) => None,
        }
    }

    /// Whether this step finishes the wait with `guard` and `result`.
    pub open spec fn readies<T, W>(
        self,
        turn: Turn<W>,
        before: MonitorView<T, W>,
        after: MonitorView<T, W>,
        guard: Guard<T>,
        result: WaitTimeoutResult,
    ) -> bool {
        &&& self.advanced(turn) == AsyncPhase::Relocking { timed_out: result@ }
        &&& after.condvar == self.lists_after(turn, before.condvar)
        &&& before.mutex.gives(guard, after.mutex)
    }

    /// Whether this step leaves the wait at `next`, to go on after `pause`.
    pub open spec fn continues<T, W>(
        self,
        turn: Turn<W>,
        before: MonitorView<T, W>,
        after: MonitorView<T, W>,
        next: AsyncWait,
        pause: Pause,
    ) -> bool {
        &&& next == (AsyncWait { phase: self.advanced(turn), ..self })
        &&& after.condvar == self.lists_after(turn, before.condvar)
        &&& if next.phase is Relocking {
            before.mutex.refuses_async(turn.handle, pause, after.mutex)
        } else {
            pause == Pause::Await && after.mutex == before.mutex
        }
    }

    /// Takes the wait one step further: looks who has won the race, and once the
    /// wait is over, tries to take the mutex. Returns the waiter that the step took
    /// off the list too, to be woken.
    pub fn poll<T, W>(
        self,
        condvar: &mut Condvar<W>,
        mutex: &mut Mutex<T, W>,
        turn: Turn<W>,
    ) -> (polled: (Progress<AsyncWait, T>, Option<Waiter<W>>))
        requires
            old(condvar).wf(),
            old(mutex).consistent(),
        ensures
            final(condvar).wf(),
            final(mutex).consistent(),
            old(mutex).wf() ==> final(mutex).wf(),
            polled.1 == self.cancels(turn, old(condvar)@),
            ({
                let before = MonitorView { condvar: old(condvar)@, mutex: old(mutex)@ };
                let after = MonitorView { condvar: final(condvar)@, mutex: final(mutex)@ };
                match polled.0 {
                    Progress::Ready(guard, result) => self.readies(
                        turn,
                        before,
                        after,
                        guard,
                        result,
                    ),
                    Progress::Pending(next, pause) => self.continues(
                        turn,
                        before,
                        after,
                        next,
                        pause,
                    ),
                }
            }),
    {
        let mut cancelled: Option<Waiter<W>> = None;
        let phase = match self.phase {
            AsyncPhase::Relocking { timed_out } => AsyncPhase::Relocking { timed_out },
            AsyncPhase::Suspended(running) => {
                let mut race = running;
                match race.poll(turn.signalled, turn.expired) {
                    Some(timed_out) => {
                        if timed_out {
                            cancelled = condvar.remove_task(self.id);
                        }
                        AsyncPhase::Relocking { timed_out }
                    },
                    None => AsyncPhase::Suspended(race),
                }
            },
        };
        let next = AsyncWait { id: self.id, deadline: self.deadline, phase };
        let progress = match phase {
            AsyncPhase::Relocking { timed_out } => match mutex.lock_async(turn.handle) {
                Attempt::Acquired(guard) => Progress::Ready(
                    guard,
                    WaitTimeoutResult::new(timed_out),
                ),
                Attempt::Retry(pause) => Progress::Pending(next, pause),
            },
            AsyncPhase::Suspended(_) => Progress::Pending(next, Pause::Await),
        };
        (progress, cancelled)
    }
}

impl<W> Condvar<W> {
    fn begin_async<T>(
        &mut self,
        mutex: &mut Mutex<T, W>,
        guard: Guard<T>,
        waiter: Waiter<W>,
        deadline: Option<u64>,
    ) -> (begun: (AsyncWait, Vec<W>))
        requires
            old(self).wf(),
            old(mutex).consistent(),
            old(mutex)@.lent(guard),
        ensures
            final(self).wf(),
            final(mutex).wf(),
            final(self)@ == old(self)@.with_task(waiter),
            final(mutex)@ == old(mutex)@.released(guard@),
            begun.0 == AsyncWait::begun(waiter, deadline),
            begun.1@ == old(mutex)@.queued(),
    {
        let wait = AsyncWait {
            id: waiter.id,
            deadline,
            phase: AsyncPhase::Suspended(Race { notify: true, timeout: deadline.is_some() }),
        };
        self.add_task(waiter);
        (wait, guard.drop(mutex))
    }

    /// Begins a wait that suspends the task: registers `waiter`, releases the mutex, and
    /// returns the wait with the handles of everybody who waited for the mutex.
    pub fn wait_async<T>(
        &mut self,
        mutex: &mut Mutex<T, W>,
        guard: Guard<T>,
        waiter: Waiter<W>,
    ) -> (begun: (AsyncWait, Vec<W>))
        requires
            old(self).wf(),
            old(mutex).consistent(),
            old(mutex)@.lent(guard),
        ensures
            final(self).wf(),
            final(mutex).wf(),
            final(self)@ == old(self)@.with_task(waiter),
            final(mutex)@ == old(mutex)@.released(guard@),
            begun.0 == AsyncWait::begun(waiter, None),
            begun.1@ == old(mutex)@.queued(),
    {
        self.begin_async(mutex, guard, waiter, None)
    }

    /// Begins a wait that suspends the task until `deadline` at the latest.
    ///
    /// Somebody else has to keep the time: a timer that sleeps until the deadline and
    /// then signals that it has expired.
    pub fn wait_async_until<T>(
        &mut self,
        mutex: &mut Mutex<T, W>,
        guard: Guard<T>,
        waiter: Waiter<W>,
        deadline: u64,
    ) -> (begun: (AsyncWait, Vec<W>))
        requires
            old(self).wf(),
            old(mutex).consistent(),
            old(mutex)@.lent(guard),
        ensures
            final(self).wf(),
            final(mutex).wf(),
            final(self)@ == old(self)@.with_task(waiter),
            final(mutex)@ == old(mutex)@.released(guard@),
            begun.0 == AsyncWait::begun(waiter, Some(deadline)),
            begun.1@ == old(mutex)@.queued(),
    {
        self.begin_async(mutex, guard, waiter, Some(deadline))
    }

    /// Checks the condition, and suspends the task while it is `true`.
    ///
    /// When the wait is ready its guard comes back here for the next check. A guard
    /// that is done has seen the condition `false`.
    pub fn wait_async_while<T, F>(
        &mut self,
        mutex: &mut Mutex<T, W>,
        guard: Guard<T>,
        waiter: Waiter<W>,
        condition: F,
    ) -> (checked: Checked<AsyncWait, T, W>) where F: FnOnce(&mut T) -> bool
        requires
            old(self).wf(),
            old(mutex).consistent(),
            old(mutex)@.lent(guard),
            forall|data: &mut T| *data == guard@ ==> call_requires(condition, (data,)),
        ensures
            final(self).wf(),
            final(mutex).wf(),
            exists|data: &mut T, holds: bool|
                {
                    &&& *data == guard@
                    &&& #[trigger] call_ensures(condition, (data,), holds)
                    &&& (MonitorView { condvar: old(self)@, mutex: old(mutex)@ }).checks(
                        holds,
                        *final(data),
                        old(self)@.with_task(waiter),
                        AsyncWait::begun(waiter, None),
                        checked,
                        MonitorView { condvar: final(self)@, mutex: final(mutex)@ },
                    )
                },
    {
        let mut guard = guard;
        if condition(guard.as_mut()) {
            let (wait, wakes) = self.wait_async(mutex, guard, waiter);
            Checked::Waiting(wait, wakes)
        } else {
            Checked::Done(guard, WaitTimeoutResult::new(false))
        }
    }

    /// Checks the condition, and suspends the task while it is `true` until `deadline`
    /// at the latest.
    ///
    /// When the wait is ready its guard and its result come back here; the first
    /// check is made with the result of a wait that did not time out. A guard that
    /// is done has seen the condition `false` or has timed out.
    pub fn wait_async_until_while<T, F>(
        &mut self,
        mutex: &mut Mutex<T, W>,
        guard: Guard<T>,
        previous: WaitTimeoutResult,
        waiter: Waiter<W>,
        deadline: u64,
        condition: F,
    ) -> (checked: Checked<AsyncWait, T, W>) where F: FnOnce(&mut T) -> bool
        requires
            old(self).wf(),
            old(mutex).consistent(),
            old(mutex)@.lent(guard),
            !previous@ ==> forall|data: &mut T|
                *data == guard@ ==> call_requires(condition, (data,)),
        ensures
            final(self).wf(),
            final(mutex).wf(),
            previous@ ==> (MonitorView { condvar: old(self)@, mutex: old(mutex)@ }).hands_back(
                guard,
                checked,
                MonitorView { condvar: final(self)@, mutex: final(mutex)@ },
            ),
            !previous@ ==> exists|data: &mut T, holds: bool|
                {
                    &&& *data == guard@
                    &&& #[trigger] call_ensures(condition, (data,), holds)
                    &&& (MonitorView { condvar: old(self)@, mutex: old(mutex)@ }).checks(
                        holds,
                        *final(data),
                        old(self)@.with_task(waiter),
                        AsyncWait::begun(waiter, Some(deadline)),
                        checked,
                        MonitorView { condvar: final(self)@, mutex: final(mutex)@ },
                    )
                },
    {
        if previous.timed_out() {
            return Checked::Done(guard, previous);
        }
        let mut guard = guard;
        if condition(guard.as_mut()) {
            let (wait, wakes) = self.wait_async_until(mutex, guard, waiter, deadline);
            Checked::Waiting(wait, wakes)
        } else {
            Checked::Done(guard, WaitTimeoutResult::new(false))
        }
    }

    /// [`Condvar::wait_async_until`] under another name.
    pub fn wait_async_timeout<T>(
        &mut self,
        mutex: &mut Mutex<T, W>,
        guard: Guard<T>,
        waiter: Waiter<W>,
        deadline: u64,
    ) -> (begun: (AsyncWait, Vec<W>))
        requires
            old(self).wf(),
            old(mutex).consistent(),
            old(mutex)@.lent(guard),
        ensures
            final(self).wf(),
            final(mutex).wf(),
            final(self)@ == old(self)@.with_task(waiter),
            final(mutex)@ == old(mutex)@.released(guard@),
            begun.0 == AsyncWait::begun(waiter, Some(deadline)),
            begun.1@ == old(mutex)@.queued(),
    {
        self.wait_async_until(mutex, guard, waiter, deadline)
    }

    /// [`Condvar::wait_async_until_while`] under another name.
    pub fn wait_async_timeout_while<T, F>(
        &mut self,
        mutex: &mut Mutex<T, W>,
        guard: Guard<T>,
        previous: WaitTimeoutResult,
        waiter: Waiter<W>,
        deadline: u64,
        condition: F,
    ) -> (checked: Checked<AsyncWait, T, W>) where F: FnOnce(&mut T) -> bool
        requires
            old(self).wf(),
            old(mutex).consistent(),
            old(mutex)@.lent(guard),
            !previous@ ==> forall|data: &mut T|
                *data == guard@ ==> call_requires(condition, (data,)),
        ensures
            final(self).wf(),
            final(mutex).wf(),
            previous@ ==> (MonitorView { condvar: old(self)@, mutex: old(mutex)@ }).hands_back(
                guard,
                checked,
                MonitorView { condvar: final(self)@, mutex: final(mutex)@ },
            ),
            !previous@ ==> exists|data: &mut T, holds: bool|
                {
                    &&& *data == guard@
                    &&& #[trigger] call_ensures(condition, (data,), holds)
                    &&& (MonitorView { condvar: old(self)@, mutex: old(mutex)@ }).checks(
                        holds,
                        *final(data),
                        old(self)@.with_task(waiter),
                        AsyncWait::begun(waiter, Some(deadline)),
                        checked,
                        MonitorView { condvar: final(self)@, mutex: final(mutex)@ },
                    )
                },
    {
        self.wait_async_until_while(mutex, guard, previous, waiter, deadline, condition)
    }
}

} // verus!
