//! Laws of the mutex.

use vstd::prelude::*;

use crate::guard::Guard;
use crate::mutex::MutexView;
use crate::platform::{Pause, Strategy};

verus! {

/// A step that somebody takes on a mutex.
pub enum MutexStep<T, W> {
    /// `try_lock` or `lock_spin`.
    Try,
    /// `lock_block` by the thread with this handle.
    Block(W),
    /// `lock_async` by the task with this handle.
    Suspend(W),
    /// `release`: the guard comes back with this data.
    Free(T),
    /// The `did_unlock` that follows a `release`.
    Drain,
}

/// A mutex, and how many of those who freed it have yet to wake the others.
pub struct MutexRun<T, W> {
    /// The mutex.
    pub mutex: MutexView<T, W>,
    /// Calls of `did_unlock` that are yet to come.
    pub owed: nat,
}

impl<T, W> MutexRun<T, W> {
    /// Whether the step can be taken: there is a guard to come back, or somebody who
    /// came back.
    pub open spec fn enables(self, step: MutexStep<T, W>) -> bool {
        match step {
            MutexStep::Free(_) => self.mutex.held(),
            MutexStep::Drain => self.owed > 0,
            _ => true,
        }
    }

    /// After a step.
    pub open spec fn after(self, step: MutexStep<T, W>) -> Self {
        if !self.enables(step) {
            self
        } else {
            match step {
                MutexStep::Try => if self.mutex.held() {
                    self
                } else {
                    MutexRun { mutex: self.mutex.acquired(), ..self }
                },
                MutexStep::Block(handle) => if self.mutex.held() {
                    MutexRun { mutex: self.mutex.with_thread(handle), ..self }
                } else {
                    MutexRun { mutex: self.mutex.acquired(), ..self }
                },
                MutexStep::Suspend(handle) => if self.mutex.held() {
                    MutexRun { mutex: self.mutex.with_task(handle), ..self }
                } else {
                    MutexRun { mutex: self.mutex.acquired(), ..self }
                },
                MutexStep::Free(data) => MutexRun {
                    mutex: self.mutex.freed(data),
                    owed: self.owed + 1,
                },
                MutexStep::Drain => MutexRun {
                    mutex: self.mutex.drained(),
                    owed: (self.owed - 1) as nat,
                },
            }
        }
    }

    /// The handles that a step returns to be woken.
    pub open spec fn wakes(self, step: MutexStep<T, W>) -> Seq<W> {
        if step is Drain && self.enables(step) {
            self.mutex.queued()
        } else {
            Seq::empty()
        }
    }

    /// After a run of steps.
    pub open spec fn after_all(self, steps: Seq<MutexStep<T, W>>) -> Self
        decreases steps.len(),
    {
        if steps.len() == 0 {
            self
        } else {
            self.after_all(steps.drop_last()).after(steps.last())
        }
    }

    /// The handles that a run of steps returns to be woken, in order.
    pub open spec fn wakes_all(self, steps: Seq<MutexStep<T, W>>) -> Seq<W>
        decreases steps.len(),
    {
        if steps.len() == 0 {
            Seq::empty()
        } else {
            self.wakes_all(steps.drop_last()) + self.after_all(steps.drop_last()).wakes(steps.last())
        }
    }

    /// Whether a step takes the mutex: it comes back with a guard.
    pub open spec fn takes(self, step: MutexStep<T, W>) -> bool {
        (step is Try || step is Block || step is Suspend) && !self.mutex.held()
    }

    /// How many guards come out in a run of steps.
    pub open spec fn taken(self, steps: Seq<MutexStep<T, W>>) -> nat
        decreases steps.len(),
    {
        if steps.len() == 0 {
            0
        } else {
            self.taken(steps.drop_last()) + if self.after_all(steps.drop_last()).takes(
                steps.last(),
            ) {
                1nat
            } else {
                0nat
            }
        }
    }

    /// What the guards that come back in a run of steps leave behind, in order.
    pub open spec fn returned(self, steps: Seq<MutexStep<T, W>>) -> Seq<T>
        decreases steps.len(),
    {
        if steps.len() == 0 {
            Seq::empty()
        } else {
            let earlier = self.returned(steps.drop_last());
            match steps.last() {
                MutexStep::Free(data) if self.after_all(steps.drop_last()).mutex.held() => {
                    earlier.push(data)
                },
                _ => earlier,
            }
        }
    }

    /// Whoever queued can count on somebody: on the holder, or on one who has freed the
    /// mutex and has yet to wake the others.
    pub open spec fn nobody_stranded(self) -> bool {
        self.mutex.queued().len() > 0 ==> self.mutex.held() || self.owed > 0
    }
}

/// Every outcome of a locking attempt is one of these steps, and so are the two parts
/// of a release: a run of steps is what any threads and tasks do to a mutex, in
/// whatever order.
pub proof fn law_outcomes_are_steps<T, W>(
    run: MutexRun<T, W>,
    guard: Guard<T>,
    handle: W,
    pause: Pause,
    after: MutexView<T, W>,
)
    ensures
        run.mutex.gives(guard, after) ==> {
            &&& after == run.after(MutexStep::Try).mutex
            &&& after == run.after(MutexStep::Block(handle)).mutex
            &&& after == run.after(MutexStep::Suspend(handle)).mutex
        },
        run.mutex.refuses_sync(Strategy::Spin, handle, pause, after) ==> after == run.after(
            MutexStep::Try,
        ).mutex,
        run.mutex.refuses_sync(Strategy::Block, handle, pause, after) ==> after == run.after(
            MutexStep::Block(handle),
        ).mutex,
        run.mutex.refuses_async(handle, pause, after) ==> after == run.after(
            MutexStep::Suspend(handle),
        ).mutex,
        run.mutex.held() ==> {
            let freed = run.after(MutexStep::Free(guard@));
            &&& freed.mutex == run.mutex.freed(guard@)
            &&& freed.after(MutexStep::Drain).mutex == run.mutex.released(guard@)
            &&& freed.wakes(MutexStep::Drain) == run.mutex.queued()
        },
{
}

/// An attempt under the spinning strategy never asks to block, and one under the
/// blocking strategy never asks to spin.
pub proof fn law_sync_attempts_follow_the_strategy<T, W>(
    mutex: MutexView<T, W>,
    strategy: Strategy,
    handle: W,
    pause: Pause,
    after: MutexView<T, W>,
)
    requires
        mutex.refuses_sync(strategy, handle, pause, after),
    ensures
        strategy == Strategy::Spin ==> !pause.blocks(),
        strategy == Strategy::Block ==> pause.blocks(),
{
}

/// Whoever gets a guard leaves the mutex held, and a mutex that is held gives none.
pub proof fn law_held_gives_no_guard<T, W>(
    mutex: MutexView<T, W>,
    first: Guard<T>,
    between: MutexView<T, W>,
    second: Guard<T>,
    after: MutexView<T, W>,
)
    requires
        mutex.gives(first, between),
    ensures
        between.lent(first),
        !between.gives(second, after),
{
}

/// Two guards are never out at the same time, whatever steps are taken in whatever
/// order: of a mutex that was free, one guard is out while it is held and none while it
/// is not.
pub proof fn law_one_guard_at_a_time<T, W>(run: MutexRun<T, W>, steps: Seq<MutexStep<T, W>>)
    requires
        !run.mutex.held(),
    ensures
        run.taken(steps) - run.returned(steps).len() == if run.after_all(steps).mutex.held() {
            1int
        } else {
            0int
        },
    decreases steps.len(),
{
    if steps.len() > 0 {
        law_one_guard_at_a_time(run, steps.drop_last());
    }
}

/// The data passes from guard to guard: while the mutex is free it holds what the last
/// guard left behind, and the next guard finds it there. At first it is what the mutex
/// began with.
pub proof fn law_data_passes_on<T, W>(run: MutexRun<T, W>, steps: Seq<MutexStep<T, W>>)
    requires
        !run.mutex.held(),
    ensures
        run.after_all(steps).mutex.id == run.mutex.id,
        !run.after_all(steps).mutex.held() ==> run.after_all(steps).mutex.data
            == if run.returned(steps).len() > 0 {
            Some(run.returned(steps).last())
        } else {
            run.mutex.data
        },
    decreases steps.len(),
{
    if steps.len() > 0 {
        law_data_passes_on(run, steps.drop_last());
    }
}

/// The next guard finds what the last one left behind.
pub proof fn law_reads_what_was_written<T, W>(
    mutex: MutexView<T, W>,
    written: T,
    guard: Guard<T>,
    after: MutexView<T, W>,
)
    requires
        mutex.released(written).gives(guard, after),
    ensures
        guard@ == written,
{
}

/// A mutex that was released can be taken again, and nobody is left in its queues.
pub proof fn law_release_frees<T, W>(mutex: MutexView<T, W>, data: T)
    ensures
        !mutex.released(data).held(),
        mutex.released(data).queued().len() == 0,
{
}

/// No run of steps leaves somebody queued with nobody to count on.
pub proof fn law_nobody_stranded<T, W>(run: MutexRun<T, W>, steps: Seq<MutexStep<T, W>>)
    requires
        run.nobody_stranded(),
    ensures
        run.after_all(steps).nobody_stranded(),
    decreases steps.len(),
{
    if steps.len() > 0 {
        law_nobody_stranded(run, steps.drop_last());
    }
}

/// Whoever queued is woken: after any run of steps it has been, or it is still queued
/// and there is somebody whose steps will wake it.
pub proof fn law_no_wakeup_is_lost<T, W>(
    run: MutexRun<T, W>,
    steps: Seq<MutexStep<T, W>>,
    handle: W,
)
    requires
        run.nobody_stranded(),
        run.mutex.queued().contains(handle),
    ensures
        run.wakes_all(steps).contains(handle) || {
            let after = run.after_all(steps);
            &&& after.mutex.queued().contains(handle)
            &&& after.mutex.held() || after.owed > 0
        },
    decreases steps.len(),
{
    broadcast use vstd::seq_lib::group_seq_properties;

    law_nobody_stranded(run, steps);
    if steps.len() > 0 {
        let before = run.after_all(steps.drop_last());
        law_no_wakeup_is_lost(run, steps.drop_last(), handle);
        if before.mutex.queued().contains(handle) {
            lemma_queue_keeps(before, steps.last(), handle);
        }
    }
}

proof fn lemma_queue_keeps<T, W>(run: MutexRun<T, W>, step: MutexStep<T, W>, handle: W)
    requires
        run.mutex.queued().contains(handle),
    ensures
        run.wakes(step).contains(handle) || run.after(step).mutex.queued().contains(handle),
{
    let queued = run.mutex.queued();
    let at = choose|i: int| 0 <= i < queued.len() && queued[i] == handle;
    let after = run.after(step).mutex.queued();
    match step {
        MutexStep::Block(_) => {
            if at < run.mutex.sync.len() {
                assert(after[at] == handle);
            } else if run.mutex.held() {
                assert(after[at + 1] == handle);
            } else {
                assert(after[at] == handle);
            }
        },
        MutexStep::Drain => {
            if run.enables(step) {
                assert(run.wakes(step)[at] == handle);
            } else {
                assert(after[at] == handle);
            }
        },
        _ => {
            assert(after[at] == handle);
        },
    }
}

} // verus!
