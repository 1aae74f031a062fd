//! Waiting for a condition.
//!
//! A wait registers its waiter, releases the mutex, sits out its pauses until it is
//! notified or its deadline passes, and takes the mutex again. The `wait_` methods
//! of [`Condvar`] begin a wait; the wait that they return is then polled, step by
//! step, until it is ready.

use vstd::prelude::*;

use crate::guard::Guard;
use crate::mutex::MutexView;
use crate::platform::{Pause, Strategy};
use crate::spinlock::Spinlock;
use crate::waiter::{first_of, listed, position, remove_first, take_all, without_first, Waiter};

pub mod wait;
pub mod wait_async;
pub mod wait_block;
pub mod wait_spin;
pub mod wait_sync;

verus! {

/// Whether a timed wait ended because its time was up.
#[derive(Debug, PartialEq, Eq, Copy, Clone, Default, Hash, Structural)]
pub struct WaitTimeoutResult(bool);

impl View for WaitTimeoutResult {
    type V = bool;

    closed spec fn view(&self) -> bool {
        self.0
    }
}

impl WaitTimeoutResult {
    pub(crate) fn new(timed_out: bool) -> (result: Self)
        ensures
            result@ == timed_out,
    {
        WaitTimeoutResult(timed_out)
    }

    /// Whether the wait is known to have timed out.
    pub fn timed_out(&self) -> (timed_out: bool)
        ensures
            timed_out == self@,
    {
        self.0
    }
}

/// Two results are equal exactly if they give the same answer.
pub proof fn law_results_are_their_answers(one: WaitTimeoutResult, other: WaitTimeoutResult)
    ensures
        (one == other) == (one@ == other@),
{
}

/// What whoever drives a wait saw just before a step of it.
#[derive(Debug)]
pub struct Turn<W> {
    /// How `_sync` operations wait here.
    pub strategy: Strategy,
    /// The time, in nanoseconds on the clock of the deadlines.
    pub now: u64,
    /// Whether the waiter's handle has been used to wake it.
    pub signalled: bool,
    /// Whether the timer of a timed task has gone off.
    pub expired: bool,
    /// A handle that wakes the driver, for the queue of the mutex.
    pub handle: W,
}

/// Outcome of one step of a wait `S`.
pub enum Progress<S, T> {
    /// The wait is over and the mutex is held again.
    Ready(Guard<T>, WaitTimeoutResult),
    /// The wait goes on after this pause.
    Pending(S, Pause),
}

/// Outcome of one check of a condition.
pub enum Checked<S, T, W> {
    /// There is no more reason to wait. The mutex is still held.
    Done(Guard<T>, WaitTimeoutResult),
    /// The wait has begun and these are to be woken, as the mutex is free.
    Waiting(S, Vec<W>),
}

/// The waiting lists of a condition variable, oldest entry first.
#[verifier::ext_equal]
pub struct CondvarView<W> {
    /// Threads that spin.
    pub spin: Seq<Waiter<W>>,
    /// Threads that are parked.
    pub sync: Seq<Waiter<W>>,
    /// Tasks that are suspended.
    pub tasks: Seq<Waiter<W>>,
}

impl<W> CondvarView<W> {
    /// Everybody who waits: those who spin, those who are parked, then tasks.
    pub open spec fn waiting(self) -> Seq<Waiter<W>> {
        self.spin + self.sync + self.tasks
    }

    /// Whoever is notified next: the newest of those who spin, or else of those who
    /// are parked, or else of the tasks.
    pub open spec fn next_notified(self) -> Option<Waiter<W>> {
        if self.spin.len() > 0 {
            Some(self.spin.last())
        } else if self.sync.len() > 0 {
            Some(self.sync.last())
        } else if self.tasks.len() > 0 {
            Some(self.tasks.last())
        } else {
            None
        }
    }

    /// The lists without whoever is notified next.
    pub open spec fn notified_one(self) -> Self {
        if self.spin.len() > 0 {
            CondvarView { spin: self.spin.drop_last(), ..self }
        } else if self.sync.len() > 0 {
            CondvarView { sync: self.sync.drop_last(), ..self }
        } else if self.tasks.len() > 0 {
            CondvarView { tasks: self.tasks.drop_last(), ..self }
        } else {
            self
        }
    }

    /// The lists when nobody waits.
    pub open spec fn idle() -> Self {
        CondvarView { spin: Seq::empty(), sync: Seq::empty(), tasks: Seq::empty() }
    }

    /// The lists after somebody began to spin.
    pub open spec fn with_spin(self, waiter: Waiter<W>) -> Self {
        CondvarView { spin: self.spin.push(waiter), ..self }
    }

    /// The lists after somebody was about to park.
    pub open spec fn with_sync(self, waiter: Waiter<W>) -> Self {
        CondvarView { sync: self.sync.push(waiter), ..self }
    }

    /// The lists after a task was about to suspend.
    pub open spec fn with_task(self, waiter: Waiter<W>) -> Self {
        CondvarView { tasks: self.tasks.push(waiter), ..self }
    }
}

/// A condition variable together with the mutex of its condition.
#[verifier::ext_equal]
pub struct MonitorView<T, W> {
    /// The condition variable.
    pub condvar: CondvarView<W>,
    /// The mutex.
    pub mutex: MutexView<T, W>,
}

impl<T, W> MonitorView<T, W> {
    /// Whether a check of the condition came out as `checked` and left `after`.
    ///
    /// The condition answered `holds` and left `data` in the guard. `waiting` and
    /// `begun` are the lists and the wait if there is a wait.
    pub open spec fn checks<S>(
        self,
        holds: bool,
        data: T,
        waiting: CondvarView<W>,
        begun: S,
        checked: Checked<S, T, W>,
        after: Self,
    ) -> bool {
        match checked {
            Checked::Done(guard, result) => {
                &&& !holds
                &&& guard@ == data
                &&& guard.id() == self.mutex.id
                &&& !result@
                &&& after == self
            },
            Checked::Waiting(wait, wakes) => {
                &&& holds
                &&& wait == begun
                &&& wakes@ == self.mutex.queued()
                &&& after.condvar == waiting
                &&& after.mutex == self.mutex.released(data)
            },
        }
    }

    /// Whether a wait that timed out was handed back as `checked`, with nothing
    /// changed.
    pub open spec fn hands_back<S>(
        self,
        guard: Guard<T>,
        checked: Checked<S, T, W>,
        after: Self,
    ) -> bool {
        match checked {
            Checked::Done(back, result) => back == guard && result@ && after == self,
            Checked::Waiting(_, _) => false,
        }
    }
}

/// A condition variable. `W` is what wakes a waiter.
#[derive(Debug)]
pub struct Condvar<W> {
    waiting_sync_threads: Spinlock<Vec<Waiter<W>>>,
    waiting_async_threads: Spinlock<Vec<Waiter<W>>>,
    waiting_spin_threads: Spinlock<Vec<Waiter<W>>>,
}

impl<W> View for Condvar<W> {
    type V = CondvarView<W>;

    closed spec fn view(&self) -> CondvarView<W> {
        CondvarView {
            spin: self.waiting_spin_threads@@,
            sync: self.waiting_sync_threads@@,
            tasks: self.waiting_async_threads@@,
        }
    }
}

/// Takes the newest entry off a list.
fn pop_newest<A>(list: &mut Vec<A>) -> (newest: Option<A>)
    ensures
        old(list)@.len() == 0 ==> newest is None && final(list)@ == old(list)@,
        old(list)@.len() > 0 ==> {
            &&& newest == Some(old(list)@.last())
            &&& final(list)@ == old(list)@.drop_last()
        },
{
    list.pop()
}

impl<W> Condvar<W> {
    /// No list is being changed.
    pub closed spec fn wf(&self) -> bool {
        &&& !self.waiting_sync_threads.is_locked()
        &&& !self.waiting_async_threads.is_locked()
        &&& !self.waiting_spin_threads.is_locked()
    }

    /// A condition variable that nobody waits for.
    pub fn new() -> (condvar: Self)
        ensures
            condvar.wf(),
            condvar@ == CondvarView::<W>::idle(),
    {
        Condvar {
            waiting_sync_threads: Spinlock::new(Vec::new()),
            waiting_async_threads: Spinlock::new(Vec::new()),
            waiting_spin_threads: Spinlock::new(Vec::new()),
        }
    }

    /// Takes one waiter off its list and returns it, to be woken. If nobody waits,
    /// nothing happens.
    pub fn notify_one(&mut self) -> (notified: Option<Waiter<W>>)
        requires
            old(self).wf(),
        ensures
            final(self).wf(),
            final(self)@ == old(self)@.notified_one(),
            notified == old(self)@.next_notified(),
    {
        let spinning: Option<Waiter<W>> = self.waiting_spin_threads.with_mut(pop_newest);
        if spinning.is_some() {
            return spinning;
        }
        let parked: Option<Waiter<W>> = self.waiting_sync_threads.with_mut(pop_newest);
        if parked.is_some() {
            return parked;
        }
        self.waiting_async_threads.with_mut(pop_newest)
    }

    /// Takes everybody off the lists and returns them, to be woken in this order.
    pub fn notify_all(&mut self) -> (notified: Vec<Waiter<W>>)
        requires
            old(self).wf(),
        ensures
            final(self).wf(),
            final(self)@ == CondvarView::<W>::idle(),
            notified@ == old(self)@.waiting(),
    {
        let mut notified: Vec<Waiter<W>> = self.waiting_spin_threads.with_mut(take_all);
        let mut parked: Vec<Waiter<W>> = self.waiting_sync_threads.with_mut(take_all);
        notified.append(&mut parked);
        let mut tasks: Vec<Waiter<W>> = self.waiting_async_threads.with_mut(take_all);
        notified.append(&mut tasks);
        notified
    }

    fn add_spin(&mut self, waiter: Waiter<W>)
        requires
            old(self).wf(),
        ensures
            final(self).wf(),
            final(self)@ == old(self)@.with_spin(waiter),
    {
        self.waiting_spin_threads.with_mut(
            |list: &mut Vec<Waiter<W>>|
                ensures
                    final(list)@ == old(list)@.push(waiter)
                { list.push(waiter) },
        );
    }

    fn add_sync(&mut self, waiter: Waiter<W>)
        requires
            old(self).wf(),
        ensures
            final(self).wf(),
            final(self)@ == old(self)@.with_sync(waiter),
    {
        self.waiting_sync_threads.with_mut(
            |list: &mut Vec<Waiter<W>>|
                ensures
                    final(list)@ == old(list)@.push(waiter)
                { list.push(waiter) },
        );
    }

    fn add_task(&mut self, waiter: Waiter<W>)
        requires
            old(self).wf(),
        ensures
            final(self).wf(),
            final(self)@ == old(self)@.with_task(waiter),
    {
        self.waiting_async_threads.with_mut(
            |list: &mut Vec<Waiter<W>>|
                ensures
                    final(list)@ == old(list)@.push(waiter)
                { list.push(waiter) },
        );
    }

    fn remove_spin(&mut self, id: u64) -> (removed: bool)
        requires
            old(self).wf(),
        ensures
            final(self).wf(),
            final(self)@ == (CondvarView { spin: without_first(old(self)@.spin, id), ..old(self)@ }),
            removed == listed(old(self)@.spin, id),
    {
        self.waiting_spin_threads.with_mut(
            |list: &mut Vec<Waiter<W>>| -> (removed: bool)
                ensures
                    final(list)@ == without_first(old(list)@, id),
                    removed == listed(old(list)@, id)
                { remove_first(list, id).is_some() },
        )
    }

    fn remove_sync(&mut self, id: u64) -> (removed: bool)
        requires
            old(self).wf(),
        ensures
            final(self).wf(),
            final(self)@ == (CondvarView { sync: without_first(old(self)@.sync, id), ..old(self)@ }),
            removed == listed(old(self)@.sync, id),
    {
        self.waiting_sync_threads.with_mut(
            |list: &mut Vec<Waiter<W>>| -> (removed: bool)
                ensures
                    final(list)@ == without_first(old(list)@, id),
                    removed == listed(old(list)@, id)
                { remove_first(list, id).is_some() },
        )
    }

    fn remove_task(&mut self, id: u64) -> (removed: Option<Waiter<W>>)
        requires
            old(self).wf(),
        ensures
            final(self).wf(),
            final(self)@ == (CondvarView { tasks: without_first(old(self)@.tasks, id), ..old(self)@ }),
            removed == first_of(old(self)@.tasks, id),
    {
        self.waiting_async_threads.with_mut(
            |list: &mut Vec<Waiter<W>>| -> (removed: Option<Waiter<W>>)
                ensures
                    final(list)@ == without_first(old(list)@, id),
                    removed == first_of(old(list)@, id)
                { remove_first(list, id) },
        )
    }

    fn has_sync(&mut self, id: u64) -> (has: bool)
        requires
            old(self).wf(),
        ensures
            final(self).wf(),
            final(self)@ == old(self)@,
            has == listed(old(self)@.sync, id),
    {
        self.waiting_sync_threads.with_mut(
            |list: &mut Vec<Waiter<W>>| -> (has: bool)
                ensures
                    final(list)@ == old(list)@,
                    has == listed(old(list)@, id)
                { position(list, id).is_some() },
        )
    }
}

/// Whether there is a deadline and it has passed.
pub open spec fn expired(deadline: Option<u64>, now: u64) -> bool {
    match deadline {
        Some(deadline) => now >= deadline,
        None => false,
    }
}

impl<W> Default for Condvar<W> {
    fn default() -> (condvar: Self)
        ensures
            condvar.wf(),
            condvar@ == CondvarView::<W>::idle(),
    {
        Condvar::new()
    }
}

} // verus!
