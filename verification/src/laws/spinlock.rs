//! Laws of the spinlock.

use vstd::prelude::*;

use crate::spinlock::Spinlock;

verus! {

/// How far somebody has come inside the critical section.
pub enum Section<T> {
    /// Has entered.
    Entered,
    /// Has read this.
    Read(T),
    /// Has written, and is about to leave.
    Written,
}

/// A step that a thread takes on a spinlock.
///
/// A call of `with_mut` knocks until it enters, lets its closure read the data and
/// write what it makes of them, and leaves. Steps of other threads may come between
/// any two of these.
#[verifier::reject_recursive_types(T)]
pub enum SpinStep<T> {
    /// `try_enter`: one turn of the spin at the door.
    Knock(int),
    /// The closure reads the data.
    Read(int),
    /// The closure writes what this makes of the data that it read.
    Write(int, spec_fn(T) -> T),
    /// `leave`.
    Leave(int),
}

/// A spinlock, and who is inside its critical section.
pub struct SpinRun<T> {
    /// The data.
    pub data: T,
    /// The flag.
    pub locked: bool,
    /// The threads inside.
    pub inside: Map<int, Section<T>>,
}

impl<T> SpinRun<T> {
    /// A lock that nobody has entered.
    pub open spec fn open(data: T) -> Self {
        SpinRun { data, locked: false, inside: Map::empty() }
    }

    /// Whether the thread is at the point of taking this step.
    pub open spec fn enables(self, step: SpinStep<T>) -> bool {
        match step {
            SpinStep::Knock(thread) => !self.inside.contains_key(thread),
            SpinStep::Read(thread) => {
                self.inside.contains_key(thread) && self.inside[thread] is Entered
            },
            SpinStep::Write(thread, _) => {
                self.inside.contains_key(thread) && self.inside[thread] is Read
            },
            SpinStep::Leave(thread) => {
                self.inside.contains_key(thread) && self.inside[thread] is Written
            },
        }
    }

    /// Whether the thread enters with this step: the flag was down.
    pub open spec fn enters(self, step: SpinStep<T>) -> bool {
        step is Knock && self.enables(step) && !self.locked
    }

    /// After a step. One that its thread is not at the point of taking does nothing.
    pub open spec fn after(self, step: SpinStep<T>) -> Self {
        if !self.enables(step) {
            self
        } else {
            match step {
                SpinStep::Knock(thread) => SpinRun {
                    locked: true,
                    inside: if self.locked {
                        self.inside
                    } else {
                        self.inside.insert(thread, Section::Entered)
                    },
                    ..self
                },
                SpinStep::Read(thread) => SpinRun {
                    inside: self.inside.insert(thread, Section::Read(self.data)),
                    ..self
                },
                SpinStep::Write(thread, change) => SpinRun {
                    data: change(self.inside[thread]->Read_0),
                    inside: self.inside.insert(thread, Section::Written),
                    ..self
                },
                SpinStep::Leave(thread) => SpinRun {
                    locked: false,
                    inside: self.inside.remove(thread),
                    ..self
                },
            }
        }
    }

    /// After a run of steps.
    pub open spec fn after_all(self, steps: Seq<SpinStep<T>>) -> Self
        decreases steps.len(),
    {
        if steps.len() == 0 {
            self
        } else {
            self.after_all(steps.drop_last()).after(steps.last())
        }
    }

    /// The threads that enter in a run of steps, in order: one entry for each section.
    pub open spec fn sections(self, steps: Seq<SpinStep<T>>) -> Seq<int>
        decreases steps.len(),
    {
        if steps.len() == 0 {
            Seq::empty()
        } else {
            let earlier = self.sections(steps.drop_last());
            match steps.last() {
                SpinStep::Knock(thread) if self.after_all(steps.drop_last()).enters(steps.last()) => {
                    earlier.push(thread)
                },
                _ => earlier,
            }
        }
    }

    /// The threads whose closures write in a run of steps, in order.
    pub open spec fn writers(self, steps: Seq<SpinStep<T>>) -> Seq<int>
        decreases steps.len(),
    {
        if steps.len() == 0 {
            Seq::empty()
        } else {
            let earlier = self.writers(steps.drop_last());
            match steps.last() {
                SpinStep::Write(thread, _) if self.after_all(steps.drop_last()).enables(
                    steps.last(),
                ) => earlier.push(thread),
                _ => earlier,
            }
        }
    }

    /// What the closures do to the data in a run of steps, in order.
    pub open spec fn changes(self, steps: Seq<SpinStep<T>>) -> Seq<spec_fn(T) -> T>
        decreases steps.len(),
    {
        if steps.len() == 0 {
            Seq::empty()
        } else {
            let earlier = self.changes(steps.drop_last());
            match steps.last() {
                SpinStep::Write(_, change) if self.after_all(steps.drop_last()).enables(
                    steps.last(),
                ) => earlier.push(change),
                _ => earlier,
            }
        }
    }

    /// At most one thread is inside, and the flag is up exactly while one is. What it
    /// has read is what the data still are.
    pub open spec fn orderly(self) -> bool {
        &&& forall|one: int, other: int| #[trigger]
            self.inside.contains_key(one) && #[trigger] self.inside.contains_key(other) ==> one
                == other
        &&& self.locked <==> exists|thread: int| #[trigger] self.inside.contains_key(thread)
        &&& forall|thread: int| #[trigger]
            self.inside.contains_key(thread) ==> match self.inside[thread] {
                Section::Read(data) => data == self.data,
                _ => true,
            }
    }
}

/// What is left of `data` when the changes are made one after another, each to what
/// the one before left.
pub open spec fn in_turn<T>(data: T, changes: Seq<spec_fn(T) -> T>) -> T
    decreases changes.len(),
{
    if changes.len() == 0 {
        data
    } else {
        let last = changes.last();
        last(in_turn(data, changes.drop_last()))
    }
}

/// `try_enter` and `leave` are steps at the door: whoever the first one lets in is
/// inside, and whoever takes the second one is out.
pub proof fn law_door_steps<T>(
    run: SpinRun<T>,
    thread: int,
    before: Spinlock<T>,
    entered: bool,
    after: Spinlock<T>,
)
    requires
        run.data == before@,
        run.locked == before.is_locked(),
    ensures
        ({
            &&& !run.inside.contains_key(thread)
            &&& entered == !before.is_locked()
            &&& after.is_locked()
            &&& after@ == before@
        }) ==> {
            let knocked = run.after(SpinStep::Knock(thread));
            &&& knocked.data == after@
            &&& knocked.locked == after.is_locked()
            &&& knocked.inside.contains_key(thread) == entered
        },
        ({
            &&& run.enables(SpinStep::Leave(thread))
            &&& !after.is_locked()
            &&& after@ == before@
        }) ==> {
            let left = run.after(SpinStep::Leave(thread));
            &&& left.data == after@
            &&& left.locked == after.is_locked()
            &&& !left.inside.contains_key(thread)
        },
{
}

/// The steps of one call of `with_mut` that finds the door open.
pub open spec fn section<T>(thread: int, change: spec_fn(T) -> T) -> Seq<SpinStep<T>> {
    seq![
        SpinStep::Knock(thread),
        SpinStep::Read(thread),
        SpinStep::Write(thread, change),
        SpinStep::Leave(thread),
    ]
}

/// A call of `with_mut` that nobody interrupts changes the data as its closure does,
/// and leaves the lock open.
pub proof fn law_with_mut_is_a_section<T>(data: T, thread: int, change: spec_fn(T) -> T)
    ensures
        SpinRun::open(data).after_all(section(thread, change)) == SpinRun::open(change(data)),
{
    let start = SpinRun::open(data);
    let steps = section(thread, change);
    reveal_with_fuel(SpinRun::after_all, 5);
    assert(steps.drop_last().drop_last().drop_last().drop_last() =~= Seq::empty());
    let end = start.after_all(steps);
    assert(end.inside =~= Map::empty());
}

/// No two sections overlap, whatever the threads do: at most one thread is inside at
/// any time, and nobody else changes the data meanwhile.
pub proof fn law_sections_do_not_overlap<T>(run: SpinRun<T>, steps: Seq<SpinStep<T>>)
    requires
        run.orderly(),
    ensures
        run.after_all(steps).orderly(),
    decreases steps.len(),
{
    if steps.len() > 0 {
        law_sections_do_not_overlap(run, steps.drop_last());
        lemma_stays_orderly(run.after_all(steps.drop_last()), steps.last());
    }
}

proof fn lemma_stays_orderly<T>(run: SpinRun<T>, step: SpinStep<T>)
    requires
        run.orderly(),
    ensures
        run.after(step).orderly(),
{
    let after = run.after(step);
    match step {
        SpinStep::Knock(thread) => {
            if run.enters(step) {
                assert(after.inside.contains_key(thread));
            }
        },
        SpinStep::Read(thread) | SpinStep::Write(thread, _) => {
            if run.enables(step) {
                assert(after.inside.contains_key(thread));
            }
        },
        SpinStep::Leave(_) => {},
    }
}

/// The outcome is that of running the sections one after another: each closure runs
/// once, in the order in which the threads entered, on what the one before left.
///
/// A thread that is inside and has not written yet is the last of those who entered.
pub proof fn law_sections_run_in_turn<T>(data: T, steps: Seq<SpinStep<T>>)
    ensures
        ({
            let run = SpinRun::open(data);
            let end = run.after_all(steps);
            &&& end.orderly()
            &&& end.data == in_turn(data, run.changes(steps))
            &&& run.changes(steps).len() == run.writers(steps).len()
            &&& end.inside.dom().is_empty() ==> run.sections(steps) == run.writers(steps)
            &&& forall|thread: int| #[trigger]
                end.inside.contains_key(thread) ==> run.sections(steps) == if end.inside[thread]
                    is Written {
                    run.writers(steps)
                } else {
                    run.writers(steps).push(thread)
                }
        }),
    decreases steps.len(),
{
    let run = SpinRun::open(data);
    law_sections_do_not_overlap(run, steps);
    if steps.len() > 0 {
        law_sections_run_in_turn(data, steps.drop_last());
        let before = run.after_all(steps.drop_last());
        if let SpinStep::Write(thread, change) = steps.last() {
            if before.enables(steps.last()) {
                let earlier = run.changes(steps.drop_last());
                assert(run.changes(steps).drop_last() =~= earlier);
                assert(run.sections(steps) == run.writers(steps));
            }
        }
        if let SpinStep::Knock(thread) = steps.last() {
            if before.enters(steps.last()) {
                assert(before.inside.dom().is_empty());
            }
        }
    }
}

/// How many of the sections are of this thread.
pub open spec fn times(sections: Seq<int>, thread: int) -> nat
    decreases sections.len(),
{
    if sections.len() == 0 {
        0
    } else {
        times(sections.drop_last(), thread) + if sections.last() == thread {
            1nat
        } else {
            0nat
        }
    }
}

/// How many of the sections are of the first `threads` threads.
spec fn times_all(sections: Seq<int>, threads: nat) -> nat
    decreases threads,
{
    if threads == 0 {
        0
    } else {
        times_all(sections, (threads - 1) as nat) + times(sections, threads - 1)
    }
}

/// No addition is lost: threads that each add 1 equally often inside the section add
/// as many as there are threads, times how often each of them adds.
pub proof fn law_additions_add_up(
    start: int,
    steps: Seq<SpinStep<int>>,
    threads: nat,
    each: nat,
)
    requires
        SpinRun::open(start).after_all(steps).inside.dom().is_empty(),
        forall|i: int|
            0 <= i < steps.len() ==> (#[trigger] steps[i] matches SpinStep::Write(_, change)
                ==> forall|data: int| #[trigger] change(data) == data + 1),
        forall|thread: int| #[trigger]
            times(SpinRun::open(start).sections(steps), thread) == if 0 <= thread < threads {
                each
            } else {
                0
            },
    ensures
        SpinRun::open(start).after_all(steps).data == start + threads * each,
{
    let run = SpinRun::open(start);
    let sections = run.sections(steps);
    law_sections_run_in_turn(start, steps);
    lemma_changes_are_written(start, steps);
    lemma_in_turn_adds(start, run.changes(steps));
    lemma_only_these_threads(sections, threads);
    lemma_times_all_is_product(sections, threads, each);
}

proof fn lemma_changes_are_written(start: int, steps: Seq<SpinStep<int>>)
    requires
        forall|i: int|
            0 <= i < steps.len() ==> (#[trigger] steps[i] matches SpinStep::Write(_, change)
                ==> forall|data: int| #[trigger] change(data) == data + 1),
    ensures
        forall|i: int, data: int|
            0 <= i < SpinRun::open(start).changes(steps).len() ==> #[trigger] (SpinRun::open(
                start,
            ).changes(steps)[i])(data) == data + 1,
    decreases steps.len(),
{
    if steps.len() > 0 {
        let earlier = steps.drop_last();
        assert(forall|i: int| 0 <= i < earlier.len() ==> #[trigger] earlier[i] == steps[i]);
        lemma_changes_are_written(start, earlier);
        assert(steps.last() == steps[steps.len() - 1]);
        let before = SpinRun::open(start).changes(earlier);
        let changes = SpinRun::open(start).changes(steps);
        assert forall|i: int, data: int| 0 <= i < changes.len() implies #[trigger] (changes[i])(
            data,
        ) == data + 1 by {
            if i < before.len() {
                assert((before[i])(data) == data + 1);
            }
        }
    }
}

proof fn lemma_in_turn_adds(start: int, changes: Seq<spec_fn(int) -> int>)
    requires
        forall|i: int, data: int|
            0 <= i < changes.len() ==> #[trigger] (changes[i])(data) == data + 1,
    ensures
        in_turn(start, changes) == start + changes.len(),
    decreases changes.len(),
{
    if changes.len() > 0 {
        let earlier = changes.drop_last();
        assert forall|i: int, data: int| 0 <= i < earlier.len() implies #[trigger] (earlier[i])(
            data,
        ) == data + 1 by {
            assert((changes[i])(data) == data + 1);
        }
        lemma_in_turn_adds(start, earlier);
        let before = in_turn(start, earlier);
        assert((changes[changes.len() - 1])(before) == before + 1);
    }
}

proof fn lemma_only_these_threads(sections: Seq<int>, threads: nat)
    requires
        forall|thread: int|
            !(0 <= thread < threads) ==> #[trigger] times(sections, thread) == 0,
    ensures
        times_all(sections, threads) == sections.len(),
    decreases sections.len(),
{
    if sections.len() == 0 {
        lemma_times_all_is_product(sections, threads, 0);
    } else {
        let earlier = sections.drop_last();
        assert(times(sections, sections.last()) > 0);
        assert forall|thread: int| !(0 <= thread < threads) implies #[trigger] times(
            earlier,
            thread,
        ) == 0 by {
            assert(times(sections, thread) == 0);
        }
        lemma_only_these_threads(earlier, threads);
        lemma_times_all_counts_the_last(sections, threads);
    }
}

proof fn lemma_times_all_counts_the_last(sections: Seq<int>, threads: nat)
    requires
        sections.len() > 0,
    ensures
        times_all(sections, threads) == times_all(sections.drop_last(), threads) + if 0
            <= sections.last() < threads {
            1nat
        } else {
            0nat
        },
    decreases threads,
{
    if threads > 0 {
        lemma_times_all_counts_the_last(sections, (threads - 1) as nat);
    }
}

proof fn lemma_times_all_is_product(sections: Seq<int>, threads: nat, each: nat)
    requires
        forall|thread: int| 0 <= thread < threads ==> #[trigger] times(sections, thread) == each,
    ensures
        times_all(sections, threads) == threads * each,
    decreases threads,
{
    if threads > 0 {
        lemma_times_all_is_product(sections, (threads - 1) as nat, each);
        assert(threads * each == (threads - 1) * each + each) by (nonlinear_arith)
            requires
                threads > 0,
        ;
    } else {
        assert(threads * each == 0) by (nonlinear_arith)
            requires
                threads == 0,
        ;
    }
}

} // verus!
