//! Waits that park the thread.

use vstd::prelude::*;

use super::{
    expired, Checked, Condvar, CondvarView, MonitorView, Progress, Turn, WaitTimeoutResult,
};
use crate::guard::Guard;
use crate::mutex::{Attempt, Mutex};
use crate::platform::{time_left, time_until, Pause};
use crate::waiter::{listed, without_first, Waiter};

verus! {

/// How far a parking wait has come.
#[derive(Clone, Copy, Debug, PartialEq, Eq, Structural)]
pub enum BlockPhase {
    /// On the list, and about to park for the first time.
    Listed,
    /// Has parked.
    Parked,
    /// Over; the mutex has yet to be taken.
    Relocking {
        /// Whether the time was up.
        timed_out: bool,
    },
}

/// A parking wait that has begun.
#[derive(Debug)]
pub struct BlockWait {
    /// Id of the waiting thread.
    pub id: u64,
    /// When to give up, in nanoseconds.
    pub deadline: Option<u64>,
    /// How far the wait has come.
    pub phase: BlockPhase,
}

impl BlockWait {
    /// The wait that `waiter` begins.
    pub open spec fn begun<W>(waiter: Waiter<W>, deadline: Option<u64>) -> Self {
        BlockWait { id: waiter.id, deadline, phase: BlockPhase::Listed }
    }

    /// Whether this step finds the thread still on the list after its deadline.
    pub open spec fn gives_up<W>(self, turn: Turn<W>, list: Seq<Waiter<W>>) -> bool {
        &&& self.phase !is Relocking
        &&& expired(self.deadline, turn.now)
        &&& listed(list, self.id)
    }

    /// How far the wait has come after this step.
    ///
    /// Without a deadline the thread parks once, and however it comes back, the wait
    /// is over. With one, the list tells why it came back: a thread that is no
    /// longer on it has been notified, one that is still on it parks again until the
    /// deadline.
    pub open spec fn advanced<W>(self, turn: Turn<W>, list: Seq<Waiter<W>>) -> BlockPhase {
        if self.phase is Relocking {
            self.phase
        } else if self.gives_up(turn, list) {
            BlockPhase::Relocking { timed_out: true }
        } else if expired(self.deadline, turn.now) {
            BlockPhase::Relocking { timed_out: false }
        } else if self.phase is Parked && (self.deadline is None || !listed(list, self.id)) {
            BlockPhase::Relocking { timed_out: false }
        } else {
            BlockPhase::Parked
        }
    }

    /// The lists after this step: a thread whose wait is over with it takes itself off,
    /// unless it has been notified and is off already. No later notification is then
    /// spent on a thread that does not wait any more.
    pub open spec fn lists_after<W>(self, turn: Turn<W>, lists: CondvarView<W>) -> CondvarView<W> {
        if self.phase !is Relocking && self.advanced(turn, lists.sync) is Relocking {
            CondvarView { sync: without_first(lists.sync, self.id), ..lists }
        } else {
            lists
        }
    }

    /// How the thread parks at `now`.
    pub open spec fn parking(self, now: u64) -> Pause {
        match self.deadline {
            Some(deadline) => Pause::ParkTimeout(time_until(deadline, now)),
            None => Pause::Park,
        }
    }

    /// Whether the wait is over with this step, and if so, whether the time was up.
    pub open spec fn verdict<W>(self, turn: Turn<W>, lists: CondvarView<W>) -> Option<bool> {
        match self.advanced(turn, lists.sync) {
            BlockPhase::Relocking { timed_out } => Some(timed_out),
            _ => None,
        }
    }

    /// Whether this step finishes the wait with `guard` and `result`.
    pub open spec fn readies<T, W>(
        self,
        turn: Turn<W>,
        before: MonitorView<T, W>,
        after: MonitorView<T, W>,
        guard: Guard<T>,
        result: WaitTimeoutResult,
    ) -> bool {
        &&& self.advanced(turn, before.condvar.sync) == BlockPhase::Relocking { timed_out: result@ }
        &&& after.condvar == self.lists_after(turn, before.condvar)
        &&& before.mutex.gives(guard, after.mutex)
    }

    /// Whether this step leaves the wait at `next`, to go on after `pause`.
    pub open spec fn continues<T, W>(
        self,
        turn: Turn<W>,
        before: MonitorView<T, W>,
        after: MonitorView<T, W>,
        next: BlockWait,
        pause: Pause,
    ) -> bool {
        &&& next == (BlockWait { phase: self.advanced(turn, before.condvar.sync), ..self })
        &&& after.condvar == self.lists_after(turn, before.condvar)
        &&& if next.phase is Relocking {
            before.mutex.refuses_sync(turn.strategy, turn.handle, pause, after.mutex)
        } else {
            pause == self.parking(turn.now) && after.mutex == before.mutex
        }
    }

    /// Takes the wait one step further: looks for itself on the list if it has
    /// parked, then at the time, and once the wait is over, leaves the list and tries
    /// to take the mutex.
    pub fn poll<T, W>(
        self,
        condvar: &mut Condvar<W>,
        mutex: &mut Mutex<T, W>,
        turn: Turn<W>,
    ) -> (progress: Progress<BlockWait, T>)
        requires
            old(condvar).wf(),
            old(mutex).consistent(),
        ensures
            final(condvar).wf(),
            final(mutex).consistent(),
            old(mutex).wf() ==> final(mutex).wf(),
            ({
                let before = MonitorView { condvar: old(condvar)@, mutex: old(mutex)@ };
                let after = MonitorView { condvar: final(condvar)@, mutex: final(mutex)@ };
                match progress {
                    Progress::Ready(guard, result) => self.readies(
                        turn,
                        before,
                        after,
                        guard,
                        result,
                    ),
                    Progress::Pending(next, pause) => self.continues(
                        turn,
                        before,
                        after,
                        next,
                        pause,
                    ),
                }
            }),
    {
        let mut pause = Pause::Park;
        let phase = match self.phase {
            BlockPhase::Relocking { timed_out } => BlockPhase::Relocking { timed_out },
            before => match self.deadline {
                None => match before {
                    BlockPhase::Parked => {
                        condvar.remove_sync(self.id);
                        BlockPhase::Relocking { timed_out: false }
                    },
                    _ => BlockPhase::Parked,
                },
                Some(deadline) => {
                    let came_back = match before {
                        BlockPhase::Parked => true,
                        _ => false,
                    };
                    if came_back && !condvar.has_sync(self.id) {
                        BlockPhase::Relocking { timed_out: false }
                    } else if turn.now >= deadline {
                        BlockPhase::Relocking { timed_out: condvar.remove_sync(self.id) }
                    } else {
                        pause = Pause::ParkTimeout(time_left(deadline, turn.now));
                        BlockPhase::Parked
                    }
                },
            },
        };
        let next = BlockWait { id: self.id, deadline: self.deadline, phase };
        match phase {
            BlockPhase::Relocking { timed_out } => match mutex.lock_sync(
                turn.strategy,
                turn.handle,
            ) {
                Attempt::Acquired(guard) => Progress::Ready(
                    guard,
                    WaitTimeoutResult::new(timed_out),
                ),
                Attempt::Retry(pause) => Progress::Pending(next, pause),
            },
            _ => Progress::Pending(next, pause),
        }
    }
}

impl<W> Condvar<W> {
    fn begin_block<T>(
        &mut self,
        mutex: &mut Mutex<T, W>,
        guard: Guard<T>,
        waiter: Waiter<W>,
        deadline: Option<u64>,
    ) -> (begun: (BlockWait, Vec<W>))
        requires
            old(self).wf(),
            old(mutex).consistent(),
            old(mutex)@.lent(guard),
        ensures
            final(self).wf(),
            final(mutex).wf(),
            final(self)@ == old(self)@.with_sync(waiter),
            final(mutex)@ == old(mutex)@.released(guard@),
            begun.0 == BlockWait::begun(waiter, deadline),
            begun.1@ == old(mutex)@.queued(),
    {
        let wait = BlockWait { id: waiter.id, deadline, phase: BlockPhase::Listed };
        self.add_sync(waiter);
        (wait, guard.drop(mutex))
    }

    /// Begins a wait that parks: registers `waiter`, releases the mutex, and returns
    /// the wait with the handles of everybody who waited for the mutex.
    ///
    /// A thread may be unparked for no reason. The wait is then over without a
    /// notification, and takes its waiter off the list: the next notification is for
    /// somebody who still waits. The condition has to be checked again.
    pub fn wait_block<T>(
        &mut self,
        mutex: &mut Mutex<T, W>,
        guard: Guard<T>,
        waiter: Waiter<W>,
    ) -> (begun: (BlockWait, Vec<W>))
        requires
            old(self).wf(),
            old(mutex).consistent(),
            old(mutex)@.lent(guard),
        ensures
            final(self).wf(),
            final(mutex).wf(),
            final(self)@ == old(self)@.with_sync(waiter),
            final(mutex)@ == old(mutex)@.released(guard@),
            begun.0 == BlockWait::begun(waiter, None),
            begun.1@ == old(mutex)@.queued(),
    {
        self.begin_block(mutex, guard, waiter, None)
    }

    /// Begins a wait that parks until `deadline` at the latest.
    pub fn wait_block_until<T>(
        &mut self,
        mutex: &mut Mutex<T, W>,
        guard: Guard<T>,
        waiter: Waiter<W>,
        deadline: u64,
    ) -> (begun: (BlockWait, Vec<W>))
        requires
            old(self).wf(),
            old(mutex).consistent(),
            old(mutex)@.lent(guard),
        ensures
            final(self).wf(),
            final(mutex).wf(),
            final(self)@ == old(self)@.with_sync(waiter),
            final(mutex)@ == old(mutex)@.released(guard@),
            begun.0 == BlockWait::begun(waiter, Some(deadline)),
            begun.1@ == old(mutex)@.queued(),
    {
        self.begin_block(mutex, guard, waiter, Some(deadline))
    }

    /// Checks the condition, and parks while it is `true`.
    ///
    /// When the wait is ready its guard comes back here for the next check. A guard
    /// that is done has seen the condition `false`.
    pub fn wait_block_while<T, F>(
        &mut self,
        mutex: &mut Mutex<T, W>,
        guard: Guard<T>,
        waiter: Waiter<W>,
        condition: F,
    ) -> (checked: Checked<BlockWait, T, W>) where F: FnOnce(&mut T) -> bool
        requires
            old(self).wf(),
            old(mutex).consistent(),
            old(mutex)@.lent(guard),
            forall|data: &mut T| *data == guard@ ==> call_requires(condition, (data,)),
        ensures
            final(self).wf(),
            final(mutex).wf(),
            exists|data: &mut T, holds: bool|
                {
                    &&& *data == guard@
                    &&& #[trigger] call_ensures(condition, (data,), holds)
                    &&& (MonitorView { condvar: old(self)@, mutex: old(mutex)@ }).checks(
                        holds,
                        *final(data),
                        old(self)@.with_sync(waiter),
                        BlockWait::begun(waiter, None),
                        checked,
                        MonitorView { condvar: final(self)@, mutex: final(mutex)@ },
                    )
                },
    {
        let mut guard = guard;
        if condition(guard.as_mut()) {
            let (wait, wakes) = self.wait_block(mutex, guard, waiter);
            Checked::Waiting(wait, wakes)
        } else {
            Checked::Done(guard, WaitTimeoutResult::new(false))
        }
    }

    /// Checks the condition, and parks while it is `true` until `deadline` at the
    /// latest.
    ///
    /// When the wait is ready its guard and its result come back here; the first
    /// check is made with the result of a wait that did not time out. A guard that
    /// is done has seen the condition `false` or has timed out.
    pub fn wait_block_until_while<T, F>(
        &mut self,
        mutex: &mut Mutex<T, W>,
        guard: Guard<T>,
        previous: WaitTimeoutResult,
        waiter: Waiter<W>,
        deadline: u64,
        condition: F,
    ) -> (checked: Checked<BlockWait, T, W>) where F: FnOnce(&mut T) -> bool
        requires
            old(self).wf(),
            old(mutex).consistent(),
            old(mutex)@.lent(guard),
            !previous@ ==> forall|data: &mut T|
                *data == guard@ ==> call_requires(condition, (data,)),
        ensures
            final(self).wf(),
            final(mutex).wf(),
            previous@ ==> (MonitorView { condvar: old(self)@, mutex: old(mutex)@ }).hands_back(
                guard,
                checked,
                MonitorView { condvar: final(self)@, mutex: final(mutex)@ },
            ),
            !previous@ ==> exists|data: &mut T, holds: bool|
                {
                    &&& *data == guard@
                    &&& #[trigger] call_ensures(condition, (data,), holds)
                    &&& (MonitorView { condvar: old(self)@, mutex: old(mutex)@ }).checks(
                        holds,
                        *final(data),
                        old(self)@.with_sync(waiter),
                        BlockWait::begun(waiter, Some(deadline)),
                        checked,
                        MonitorView { condvar: final(self)@, mutex: final(mutex)@ },
                    )
                },
    {
        if previous.timed_out() {
            return Checked::Done(guard, previous);
        }
        let mut guard = guard;
        if condition(guard.as_mut()) {
            let (wait, wakes) = self.wait_block_until(mutex, guard, waiter, deadline);
            Checked::Waiting(wait, wakes)
        } else {
            Checked::Done(guard, WaitTimeoutResult::new(false))
        }
    }
}

} // verus!
