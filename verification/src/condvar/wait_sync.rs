//! Waits that adapt to the platform.

use vstd::prelude::*;

use super::wait::Wait;
use super::{Checked, Condvar, CondvarView, MonitorView, WaitTimeoutResult};
use crate::guard::Guard;
use crate::mutex::Mutex;
use crate::platform::Strategy;
use crate::waiter::Waiter;

verus! {

impl<W> CondvarView<W> {
    /// The lists after somebody began to wait under this strategy.
    pub open spec fn with_sync_waiter(self, strategy: Strategy, waiter: Waiter<W>) -> Self {
        match strategy {
            Strategy::Block => self.with_sync(waiter),
            Strategy::Spin => self.with_spin(waiter),
        }
    }
}

impl<W> Condvar<W> {
    /// Begins a wait as the platform's strategy says: registers `waiter`, releases the
    /// mutex, and returns the wait with the handles of everybody who waited for the
    /// mutex.
    pub fn wait_sync<T>(
        &mut self,
        strategy: Strategy,
        mutex: &mut Mutex<T, W>,
        guard: Guard<T>,
        waiter: Waiter<W>,
    ) -> (begun: (Wait, Vec<W>))
        requires
            old(self).wf(),
            old(mutex).consistent(),
            old(mutex)@.lent(guard),
        ensures
            final(self).wf(),
            final(mutex).wf(),
            final(self)@ == old(self)@.with_sync_waiter(strategy, waiter),
            final(mutex)@ == old(mutex)@.released(guard@),
            begun.0 == Wait::begun_sync(strategy, waiter, None),
            begun.1@ == old(mutex)@.queued(),
    {
        match strategy {
            Strategy::Block => {
                let (wait, wakes) = self.wait_block(mutex, guard, waiter);
                (Wait::Block(wait), wakes)
            },
            Strategy::Spin => {
                let (wait, wakes) = self.wait_spin(mutex, guard, waiter);
                (Wait::Spin(wait), wakes)
            },
        }
    }

    /// Begins a wait until `deadline` at the latest, as the platform's strategy says.
    pub fn wait_sync_until<T>(
        &mut self,
        strategy: Strategy,
        mutex: &mut Mutex<T, W>,
        guard: Guard<T>,
        waiter: Waiter<W>,
        deadline: u64,
    ) -> (begun: (Wait, Vec<W>))
        requires
            old(self).wf(),
            old(mutex).consistent(),
            old(mutex)@.lent(guard),
        ensures
            final(self).wf(),
            final(mutex).wf(),
            final(self)@ == old(self)@.with_sync_waiter(strategy, waiter),
            final(mutex)@ == old(mutex)@.released(guard@),
            begun.0 == Wait::begun_sync(strategy, waiter, Some(deadline)),
            begun.1@ == old(mutex)@.queued(),
    {
        match strategy {
            Strategy::Block => {
                let (wait, wakes) = self.wait_block_until(mutex, guard, waiter, deadline);
                (Wait::Block(wait), wakes)
            },
            Strategy::Spin => {
                let (wait, wakes) = self.wait_spin_until(mutex, guard, waiter, deadline);
                (Wait::Spin(wait), wakes)
            },
        }
    }

    /// Checks the condition, and waits while it is `true`.
    ///
    /// When the wait is ready its guard comes back here for the next check. A guard
    /// that is done has seen the condition `false`.
    pub fn wait_sync_while<T, F>(
        &mut self,
        strategy: Strategy,
        mutex: &mut Mutex<T, W>,
        guard: Guard<T>,
        waiter: Waiter<W>,
        condition: F,
    ) -> (checked: Checked<Wait, T, W>) where F: FnOnce(&mut T) -> bool
        requires
            old(self).wf(),
            old(mutex).consistent(),
            old(mutex)@.lent(guard),
            forall|data: &mut T| *data == guard@ ==> call_requires(condition, (data,)),
        ensures
            final(self).wf(),
            final(mutex).wf(),
            exists|data: &mut T, holds: bool|
                {
                    &&& *data == guard@
                    &&& #[trigger] call_ensures(condition, (data,), holds)
                    &&& (MonitorView { condvar: old(self)@, mutex: old(mutex)@ }).checks(
                        holds,
                        *final(data),
                        old(self)@.with_sync_waiter(strategy, waiter),
                        Wait::begun_sync(strategy, waiter, None),
                        checked,
                        MonitorView { condvar: final(self)@, mutex: final(mutex)@ },
                    )
                },
    {
        let mut guard = guard;
        if condition(guard.as_mut()) {
            let (wait, wakes) = self.wait_sync(strategy, mutex, guard, waiter);
            Checked::Waiting(wait, wakes)
        } else {
            Checked::Done(guard, WaitTimeoutResult::new(false))
        }
    }

    /// Checks the condition, and waits while it is `true` until `deadline` at the
    /// latest.
    ///
    /// When the wait is ready its guard and its result come back here; the first
    /// check is made with the result of a wait that did not time out. A guard that
    /// is done has seen the condition `false` or has timed out.
    pub fn wait_sync_until_while<T, F>(
        &mut self,
        strategy: Strategy,
        mutex: &mut Mutex<T, W>,
        guard: Guard<T>,
        previous: WaitTimeoutResult,
        waiter: Waiter<W>,
        deadline: u64,
        condition: F,
    ) -> (checked: Checked<Wait, T, W>) where F: FnOnce(&mut T) -> bool
        requires
            old(self).wf(),
            old(mutex).consistent(),
            old(mutex)@.lent(guard),
            !previous@ ==> forall|data: &mut T|
                *data == guard@ ==> call_requires(condition, (data,)),
        ensures
            final(self).wf(),
            final(mutex).wf(),
            previous@ ==> (MonitorView { condvar: old(self)@, mutex: old(mutex)@ }).hands_back(
                guard,
                checked,
                MonitorView { condvar: final(self)@, mutex: final(mutex)@ },
            ),
            !previous@ ==> exists|data: &mut T, holds: bool|
                {
                    &&& *data == guard@
                    &&& #[trigger] call_ensures(condition, (data,), holds)
                    &&& (MonitorView { condvar: old(self)@, mutex: old(mutex)@ }).checks(
                        holds,
                        *final(data),
                        old(self)@.with_sync_waiter(strategy, waiter),
                        Wait::begun_sync(strategy, waiter, Some(deadline)),
                        checked,
                        MonitorView { condvar: final(self)@, mutex: final(mutex)@ },
                    )
                },
    {
        if previous.timed_out() {
            return Checked::Done(guard, previous);
        }
        let mut guard = guard;
        if condition(guard.as_mut()) {
            let (wait, wakes) = self.wait_sync_until(strategy, mutex, guard, waiter, deadline);
            Checked::Waiting(wait, wakes)
        } else {
            Checked::Done(guard, WaitTimeoutResult::new(false))
        }
    }
}

} // verus!
