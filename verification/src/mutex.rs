//! Mutual exclusion.

use vstd::prelude::*;

use crate::guard::Guard;
use crate::lock_id::LockId;
use crate::platform::{Pause, Strategy};
use crate::spinlock::Spinlock;
use crate::waiter::take_all;

verus! {

/// The lock is held by somebody else.
#[derive(Clone, Copy, Debug, PartialEq, Eq, Structural)]
pub struct NotAvailable;

/// Outcome of one attempt to take a lock.
#[derive(Debug)]
pub enum Attempt<G> {
    /// The lock is taken.
    Acquired(G),
    /// The lock is held; try again after this pause.
    Retry(Pause),
}

/// Outcome of one attempt to take a lock before a deadline.
#[derive(Debug)]
pub enum TimedAttempt<G> {
    /// The lock is taken.
    Acquired(G),
    /// The lock is held and the deadline has passed.
    TimedOut,
    /// The lock is held; park until the deadline, then try again.
    Park,
}

/// What a mutex holds.
#[verifier::ext_equal]
pub struct MutexView<T, W> {
    /// Identity of the mutex.
    pub id: int,
    /// The data, unless a guard has it.
    pub data: Option<T>,
    /// Parked threads, in the order in which they queued.
    pub sync: Seq<W>,
    /// Suspended tasks, in the order in which they queued.
    pub tasks: Seq<W>,
}

impl<T, W> MutexView<T, W> {
    /// Whether a guard is out.
    pub open spec fn held(self) -> bool {
        self.data is None
    }

    /// Whether the data is in this guard: a guard is out, and this one came from here.
    pub open spec fn lent(self, guard: Guard<T>) -> bool {
        self.held() && guard.id() == self.id
    }

    /// Everybody who is to be woken when the mutex is released, in waking order.
    pub open spec fn queued(self) -> Seq<W> {
        self.sync + self.tasks
    }

    /// The mutex after its data went into a guard.
    pub open spec fn acquired(self) -> Self {
        MutexView { data: None, ..self }
    }

    /// The mutex after a guard came back with `data`.
    pub open spec fn freed(self, data: T) -> Self {
        MutexView { data: Some(data), ..self }
    }

    /// The mutex after everybody in its queues was woken.
    pub open spec fn drained(self) -> Self {
        MutexView { sync: Seq::empty(), tasks: Seq::empty(), ..self }
    }

    /// The mutex after a guard came back with `data` and everybody was woken.
    pub open spec fn released(self, data: T) -> Self {
        self.freed(data).drained()
    }

    /// The mutex after a thread queued.
    pub open spec fn with_thread(self, handle: W) -> Self {
        MutexView { sync: self.sync.push(handle), ..self }
    }

    /// The mutex after a task queued.
    pub open spec fn with_task(self, handle: W) -> Self {
        MutexView { tasks: self.tasks.push(handle), ..self }
    }

    /// Nobody queues for a mutex that is free: whoever queued can count on the
    /// release that is still to come.
    pub open spec fn nobody_stranded(self) -> bool {
        self.queued().len() > 0 ==> self.held()
    }

    /// Whether `guard` was taken out of this mutex and `after` is what remained.
    pub open spec fn gives(self, guard: Guard<T>, after: Self) -> bool {
        &&& self.data == Some(guard@)
        &&& guard.id() == self.id
        &&& after == self.acquired()
    }
}

/// A mutex around `T`. `W` is what wakes a waiter.
#[derive(Debug)]
pub struct Mutex<T, W> {
    id: LockId,
    data_lock: bool,
    data: Option<T>,
    waiting_sync_threads: Spinlock<Vec<W>>,
    waiting_async_threads: Spinlock<Vec<W>>,
}

impl<T, W> View for Mutex<T, W> {
    type V = MutexView<T, W>;

    closed spec fn view(&self) -> MutexView<T, W> {
        MutexView {
            id: self.id@,
            data: self.data,
            sync: self.waiting_sync_threads@@,
            tasks: self.waiting_async_threads@@,
        }
    }
}

impl<T, W> Mutex<T, W> {
    /// The flag says whether the data is out, and no list is being changed.
    pub closed spec fn consistent(&self) -> bool {
        &&& self.data_lock == self.data is None
        &&& !self.waiting_sync_threads.is_locked()
        &&& !self.waiting_async_threads.is_locked()
    }

    /// The mutex while nobody is between freeing it and waking those who queued.
    pub open spec fn wf(&self) -> bool {
        self.consistent() && self@.nobody_stranded()
    }

    /// A free mutex around `value`.
    pub fn new(value: T) -> (mutex: Self)
        ensures
            mutex.wf(),
            mutex@ == (MutexView {
                id: mutex@.id,
                data: Some(value),
                sync: Seq::<W>::empty(),
                tasks: Seq::<W>::empty(),
            }),
    {
        Mutex {
            id: LockId(Ghost(arbitrary())),
            data_lock: false,
            data: Some(value),
            waiting_sync_threads: Spinlock::new(Vec::new()),
            waiting_async_threads: Spinlock::new(Vec::new()),
        }
    }

    /// Takes the mutex if it is free.
    pub fn try_lock(&mut self) -> (result: Result<Guard<T>, NotAvailable>)
        requires
            old(self).consistent(),
        ensures
            final(self).wf(),
            match result {
                Ok(guard) => old(self)@.gives(guard, final(self)@),
                Err(NotAvailable) => old(self)@.held() && final(self)@ == old(self)@,
            },
    {
        if self.data_lock {
            return Err(NotAvailable);
        }
        self.data_lock = true;
        Ok(Guard::new(self.data.take().unwrap(), self.id))
    }

    /// Frees the mutex without waking anybody. [`Mutex::did_unlock`] has yet to follow;
    /// somebody else may take the mutex before it does.
    pub fn release(&mut self, guard: Guard<T>)
        requires
            old(self).consistent(),
            old(self)@.lent(guard),
        ensures
            final(self).consistent(),
            final(self)@ == old(self)@.freed(guard@),
    {
        self.data = Some(guard.into_inner());
        self.data_lock = false;
    }

    /// Empties the queues and returns the handles of everybody who was in them:
    /// threads first, then tasks, each in the order in which they queued.
    pub fn did_unlock(&mut self) -> (wakes: Vec<W>)
        requires
            old(self).consistent(),
        ensures
            final(self).wf(),
            final(self)@ == old(self)@.drained(),
            wakes@ == old(self)@.queued(),
    {
        let mut wakes: Vec<W> = self.waiting_sync_threads.with_mut(take_all);
        let mut tasks: Vec<W> = self.waiting_async_threads.with_mut(take_all);
        wakes.append(&mut tasks);
        wakes
    }

    /// One turn of a busy-wait for the mutex.
    pub fn lock_spin(&mut self) -> (attempt: Attempt<Guard<T>>)
        requires
            old(self).consistent(),
        ensures
            final(self).wf(),
            match attempt {
                Attempt::Acquired(guard) => old(self)@.gives(guard, final(self)@),
                Attempt::Retry(pause) => {
                    &&& pause == Pause::Spin
                    &&& old(self)@.held()
                    &&& final(self)@ == old(self)@
                },
            },
    {
        match self.try_lock() {
            Ok(guard) => Attempt::Acquired(guard),
            Err(NotAvailable) => Attempt::Retry(Pause::Spin),
        }
    }

    /// Takes the mutex, or queues the thread and asks it to park.
    pub fn lock_block(&mut self, thread: W) -> (attempt: Attempt<Guard<T>>)
        requires
            old(self).consistent(),
        ensures
            final(self).wf(),
            match attempt {
                Attempt::Acquired(guard) => old(self)@.gives(guard, final(self)@),
                Attempt::Retry(pause) => {
                    &&& pause == Pause::Park
                    &&& old(self)@.held()
                    &&& final(self)@ == old(self)@.with_thread(thread)
                },
            },
    {
        match self.try_lock() {
            Ok(guard) => Attempt::Acquired(guard),
            Err(NotAvailable) => {
                self.waiting_sync_threads.with_mut(
                    |threads: &mut Vec<W>|
                        ensures
                            final(threads)@ == old(threads)@.push(thread)
                        { threads.push(thread) },
                );
                Attempt::Retry(Pause::Park)
            },
        }
    }

    /// Takes the mutex; if it is held, queues the thread before the deadline and
    /// gives up after it.
    pub fn lock_block_timeout(&mut self, thread: W, now: u64, deadline: u64) -> (attempt:
        TimedAttempt<Guard<T>>)
        requires
            old(self).consistent(),
        ensures
            final(self).wf(),
            match attempt {
                TimedAttempt::Acquired(guard) => old(self)@.gives(guard, final(self)@),
                TimedAttempt::TimedOut => {
                    &&& old(self)@.held()
                    &&& now >= deadline
                    &&& final(self)@ == old(self)@
                },
                TimedAttempt::Park => {
                    &&& old(self)@.held()
                    &&& now < deadline
                    &&& final(self)@ == old(self)@.with_thread(thread)
                },
            },
    {
        if now >= deadline {
            return match self.try_lock() {
                Ok(guard) => TimedAttempt::Acquired(guard),
                Err(NotAvailable) => TimedAttempt::TimedOut,
            };
        }
        match self.lock_block(thread) {
            Attempt::Acquired(guard) => TimedAttempt::Acquired(guard),
            Attempt::Retry(_) => TimedAttempt::Park,
        }
    }

    /// Takes the mutex, or waits for it as the platform's strategy says.
    pub fn lock_sync(&mut self, strategy: Strategy, thread: W) -> (attempt: Attempt<Guard<T>>)
        requires
            old(self).consistent(),
        ensures
            final(self).wf(),
            match attempt {
                Attempt::Acquired(guard) => old(self)@.gives(guard, final(self)@),
                Attempt::Retry(pause) => old(self)@.refuses_sync(
                    strategy,
                    thread,
                    pause,
                    final(self)@,
                ),
            },
    {
        match strategy {
            Strategy::Block => self.lock_block(thread),
            Strategy::Spin => self.lock_spin(),
        }
    }

    /// Takes the mutex, or queues the task and asks it to suspend.
    pub fn lock_async(&mut self, task: W) -> (attempt: Attempt<Guard<T>>)
        requires
            old(self).consistent(),
        ensures
            final(self).wf(),
            match attempt {
                Attempt::Acquired(guard) => old(self)@.gives(guard, final(self)@),
                Attempt::Retry(pause) => old(self)@.refuses_async(task, pause, final(self)@),
            },
    {
        match self.try_lock() {
            Ok(guard) => Attempt::Acquired(guard),
            Err(NotAvailable) => {
                self.waiting_async_threads.with_mut(
                    |tasks: &mut Vec<W>|
                        ensures
                            final(tasks)@ == old(tasks)@.push(task)
                        { tasks.push(task) },
                );
                Attempt::Retry(Pause::Await)
            },
        }
    }
}

/// How a `_sync` attempt that failed pauses.
pub open spec fn sync_pause(strategy: Strategy) -> Pause {
    match strategy {
        Strategy::Block => Pause::Park,
        Strategy::Spin => Pause::Spin,
    }
}

impl<T, W> MutexView<T, W> {
    /// The mutex after a `_sync` attempt that failed.
    pub open spec fn queued_sync(self, strategy: Strategy, handle: W) -> Self {
        match strategy {
            Strategy::Block => self.with_thread(handle),
            Strategy::Spin => self,
        }
    }

    /// Whether a `_sync` attempt failed with this pause and left `after`.
    pub open spec fn refuses_sync(
        self,
        strategy: Strategy,
        handle: W,
        pause: Pause,
        after: Self,
    ) -> bool {
        &&& self.held()
        &&& pause == sync_pause(strategy)
        &&& after == self.queued_sync(strategy, handle)
    }

    /// Whether an `_async` attempt failed with this pause and left `after`.
    pub open spec fn refuses_async(self, handle: W, pause: Pause, after: Self) -> bool {
        &&& self.held()
        &&& pause == Pause::Await
        &&& after == self.with_task(handle)
    }
}

} // verus!
