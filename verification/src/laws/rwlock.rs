//! Laws of the reader-writer lock.

use vstd::prelude::*;

use crate::platform::Strategy;
use crate::rwlock::{ReadGuard, RwLockView, WriteGuard, LOCKED_WRITE, UNLOCKED};

verus! {

/// A step that somebody takes on a lock.
pub enum RwLockStep<T, W> {
    /// `try_lock_read` or `lock_spin_read`.
    TryRead,
    /// `lock_block_read` by the thread with this handle.
    BlockRead(W),
    /// `lock_async_read` by the task with this handle.
    SuspendRead(W),
    /// `try_lock_write` or `lock_spin_write`.
    TryWrite,
    /// `lock_block_write` by the thread with this handle.
    BlockWrite(W),
    /// `lock_async_read_write` by the task with this handle.
    SuspendWrite(W),
    /// `release_read`: a reader leaves.
    FreeRead,
    /// The `did_unlock_read` that follows a `release_read`.
    DrainRead,
    /// `release_write`: the writer comes back with this data.
    FreeWrite(T),
    /// The `did_unlock_write` that follows a `release_write`.
    DrainWrite,
}

/// A lock, and how many of those who left it have yet to wake the others.
pub struct RwLockRun<T, W> {
    /// The lock.
    pub lock: RwLockView<T, W>,
    /// Calls of `did_unlock_read` that are yet to come.
    pub owed_read: nat,
    /// Calls of `did_unlock_write` that are yet to come.
    pub owed_write: nat,
}

impl<T, W> RwLockRun<T, W> {
    /// Whether the step can be taken: there is room for another reader, there is a
    /// guard to come back, or there is somebody who came back.
    pub open spec fn enables(self, step: RwLockStep<T, W>) -> bool {
        match step {
            RwLockStep::TryRead | RwLockStep::BlockRead(_) | RwLockStep::SuspendRead(_) => {
                !self.lock.full()
            },
            RwLockStep::FreeRead => self.lock.readers() > 0,
            RwLockStep::DrainRead => self.owed_read > 0,
            RwLockStep::FreeWrite(_) => self.lock.write_held(),
            RwLockStep::DrainWrite => self.owed_write > 0,
            _ => true,
        }
    }

    /// After a step.
    pub open spec fn after(self, step: RwLockStep<T, W>) -> Self {
        let lock = self.lock;
        if !self.enables(step) {
            self
        } else {
            match step {
                RwLockStep::TryRead => if lock.write_held() {
                    self
                } else {
                    RwLockRun { lock: lock.with_reader(), ..self }
                },
                RwLockStep::BlockRead(handle) => if lock.write_held() {
                    RwLockRun {
                        lock: RwLockView { sync_read: lock.sync_read.push(handle), ..lock },
                        ..self
                    }
                } else {
                    RwLockRun { lock: lock.with_reader(), ..self }
                },
                RwLockStep::SuspendRead(handle) => if lock.write_held() {
                    RwLockRun {
                        lock: RwLockView { async_read: lock.async_read.push(handle), ..lock },
                        ..self
                    }
                } else {
                    RwLockRun { lock: lock.with_reader(), ..self }
                },
                RwLockStep::TryWrite => if lock.word != UNLOCKED {
                    self
                } else {
                    RwLockRun { lock: lock.with_writer(), ..self }
                },
                RwLockStep::BlockWrite(handle) => if lock.word != UNLOCKED {
                    RwLockRun {
                        lock: RwLockView { sync_write: lock.sync_write.push(handle), ..lock },
                        ..self
                    }
                } else {
                    RwLockRun { lock: lock.with_writer(), ..self }
                },
                RwLockStep::SuspendWrite(handle) => if lock.word != UNLOCKED {
                    RwLockRun {
                        lock: RwLockView { async_write: lock.async_write.push(handle), ..lock },
                        ..self
                    }
                } else {
                    RwLockRun { lock: lock.with_writer(), ..self }
                },
                RwLockStep::FreeRead => RwLockRun {
                    lock: lock.freed_by_reader(),
                    owed_read: self.owed_read + 1,
                    ..self
                },
                RwLockStep::DrainRead => RwLockRun {
                    lock: lock.drained_writers(),
                    owed_read: (self.owed_read - 1) as nat,
                    ..self
                },
                RwLockStep::FreeWrite(data) => RwLockRun {
                    lock: lock.freed_by_writer(data),
                    owed_write: self.owed_write + 1,
                    ..self
                },
                RwLockStep::DrainWrite => RwLockRun {
                    lock: lock.drained(),
                    owed_write: (self.owed_write - 1) as nat,
                    ..self
                },
            }
        }
    }

    /// The handles that a step returns to be woken.
    pub open spec fn wakes(self, step: RwLockStep<T, W>) -> Seq<W> {
        if !self.enables(step) {
            Seq::empty()
        } else {
            match step {
                RwLockStep::DrainRead => self.lock.queued_writers(),
                RwLockStep::DrainWrite => self.lock.queued_readers() + self.lock.queued_writers(),
                _ => Seq::empty(),
            }
        }
    }

    /// After a run of steps.
    pub open spec fn after_all(self, steps: Seq<RwLockStep<T, W>>) -> Self
        decreases steps.len(),
    {
        if steps.len() == 0 {
            self
        } else {
            self.after_all(steps.drop_last()).after(steps.last())
        }
    }

    /// The handles that a run of steps returns to be woken, in order.
    pub open spec fn wakes_all(self, steps: Seq<RwLockStep<T, W>>) -> Seq<W>
        decreases steps.len(),
    {
        if steps.len() == 0 {
            Seq::empty()
        } else {
            self.wakes_all(steps.drop_last()) + self.after_all(steps.drop_last()).wakes(steps.last())
        }
    }

    /// Whether a step lets a reader in.
    pub open spec fn lets_reader_in(self, step: RwLockStep<T, W>) -> bool {
        &&& step is TryRead || step is BlockRead || step is SuspendRead
        &&& self.enables(step)
        &&& !self.lock.write_held()
    }

    /// Whether a step lets a writer in.
    pub open spec fn lets_writer_in(self, step: RwLockStep<T, W>) -> bool {
        &&& step is TryWrite || step is BlockWrite || step is SuspendWrite
        &&& self.lock.word == UNLOCKED
    }

    /// How many more guards of readers are out after a run of steps.
    pub open spec fn more_readers(self, steps: Seq<RwLockStep<T, W>>) -> int
        decreases steps.len(),
    {
        if steps.len() == 0 {
            0
        } else {
            let before = self.after_all(steps.drop_last());
            self.more_readers(steps.drop_last()) + if before.lets_reader_in(steps.last()) {
                1int
            } else if steps.last() is FreeRead && before.enables(steps.last()) {
                -1int
            } else {
                0int
            }
        }
    }

    /// How many more guards of writers are out after a run of steps.
    pub open spec fn more_writers(self, steps: Seq<RwLockStep<T, W>>) -> int
        decreases steps.len(),
    {
        if steps.len() == 0 {
            0
        } else {
            let before = self.after_all(steps.drop_last());
            self.more_writers(steps.drop_last()) + if before.lets_writer_in(steps.last()) {
                1int
            } else if steps.last() is FreeWrite && before.enables(steps.last()) {
                -1int
            } else {
                0int
            }
        }
    }

    /// Whether a reader that queued can count on somebody: on a writer, or on one who
    /// has freed the lock and has yet to wake the others.
    pub open spec fn reader_can_wait(self) -> bool {
        self.lock.write_held() || self.owed_write > 0
    }

    /// Whether a writer that queued can count on somebody: on whoever holds the lock, or
    /// on one who has left it and has yet to wake the others.
    pub open spec fn writer_can_wait(self) -> bool {
        self.lock.word != UNLOCKED || self.owed_read > 0 || self.owed_write > 0
    }

    /// Whoever queued can count on somebody.
    pub open spec fn nobody_stranded(self) -> bool {
        &&& self.lock.queued_readers().len() > 0 ==> self.reader_can_wait()
        &&& self.lock.queued_writers().len() > 0 ==> self.writer_can_wait()
    }
}

/// Every outcome of an attempt is one of these steps, and so are the two parts of a
/// release: a run of steps is what any threads and tasks do to a lock, in whatever
/// order.
pub proof fn law_outcomes_are_steps<T, W>(
    run: RwLockRun<T, W>,
    reader: ReadGuard,
    guard: WriteGuard<T>,
    handle: W,
    after: RwLockView<T, W>,
)
    ensures
        !run.lock.full() && run.lock.admits_reader(reader, after) ==> {
            &&& after == run.after(RwLockStep::TryRead).lock
            &&& after == run.after(RwLockStep::BlockRead(handle)).lock
            &&& after == run.after(RwLockStep::SuspendRead(handle)).lock
        },
        run.lock.write_held() ==> {
            let lock = run.lock;
            &&& lock == run.after(RwLockStep::TryRead).lock
            &&& lock.queued_sync_read(Strategy::Block, handle) == run.after(
                RwLockStep::BlockRead(handle),
            ).lock
            &&& (RwLockView { async_read: lock.async_read.push(handle), ..lock }) == run.after(
                RwLockStep::SuspendRead(handle),
            ).lock
        },
        run.lock.admits_writer(guard, after) ==> {
            &&& after == run.after(RwLockStep::TryWrite).lock
            &&& after == run.after(RwLockStep::BlockWrite(handle)).lock
            &&& after == run.after(RwLockStep::SuspendWrite(handle)).lock
        },
        run.lock.word != UNLOCKED ==> {
            let lock = run.lock;
            &&& lock == run.after(RwLockStep::TryWrite).lock
            &&& lock.queued_sync_write(Strategy::Block, handle) == run.after(
                RwLockStep::BlockWrite(handle),
            ).lock
            &&& (RwLockView { async_write: lock.async_write.push(handle), ..lock }) == run.after(
                RwLockStep::SuspendWrite(handle),
            ).lock
        },
        run.lock.readers() > 0 ==> {
            let freed = run.after(RwLockStep::FreeRead);
            &&& freed.lock == run.lock.freed_by_reader()
            &&& freed.after(RwLockStep::DrainRead).lock == run.lock.without_reader()
            &&& freed.wakes(RwLockStep::DrainRead) == run.lock.queued_writers()
        },
        run.lock.write_held() ==> {
            let freed = run.after(RwLockStep::FreeWrite(guard@));
            &&& freed.lock == run.lock.freed_by_writer(guard@)
            &&& freed.after(RwLockStep::DrainWrite).lock == run.lock.without_writer(guard@)
            &&& freed.wakes(RwLockStep::DrainWrite) == run.lock.queued_readers()
                + run.lock.queued_writers()
        },
{
}

/// While a writer holds the lock there are no readers, and nobody else is let in.
pub proof fn law_writer_is_alone<T, W>(
    lock: RwLockView<T, W>,
    reader: ReadGuard,
    guard: WriteGuard<T>,
    after: RwLockView<T, W>,
)
    requires
        lock.write_held(),
    ensures
        lock.readers() == 0,
        !lock.admits_reader(reader, after),
        !lock.admits_writer(guard, after),
{
}

/// While there are readers no writer is let in, but another reader is, as long as
/// the state word can count it. All of them see the same data.
pub proof fn law_readers_share<T, W>(
    lock: RwLockView<T, W>,
    reader: ReadGuard,
    guard: WriteGuard<T>,
    after: RwLockView<T, W>,
)
    requires
        lock.coherent(),
        lock.readers() > 0,
    ensures
        !lock.admits_writer(guard, after),
        reader.id() == lock.id ==> lock.admits_reader(reader, lock.with_reader()),
        !lock.full() ==> {
            &&& lock.with_reader().coherent()
            &&& lock.with_reader().readers() == lock.readers() + 1
            &&& lock.with_reader().data == lock.data
        },
        lock.without_reader().readers() == lock.readers() - 1,
        lock.without_reader().data == lock.data,
{
}

/// Many readers or one writer, whatever steps are taken in whatever order: of a lock that
/// was free, as many guards of readers are out as the state word counts, which are 127
/// at most, and at most one guard of a writer, and then none of a reader.
pub proof fn law_many_readers_or_one_writer<T, W>(
    run: RwLockRun<T, W>,
    steps: Seq<RwLockStep<T, W>>,
)
    requires
        run.lock.coherent(),
        run.lock.word == UNLOCKED,
    ensures
        ({
            let readers = run.more_readers(steps);
            let writers = run.more_writers(steps);
            let after = run.after_all(steps).lock;
            &&& after.coherent()
            &&& readers == after.readers()
            &&& 0 <= readers <= 127
            &&& writers == if after.write_held() {
                1int
            } else {
                0int
            }
            &&& writers > 0 ==> readers == 0
        }),
    decreases steps.len(),
{
    if steps.len() > 0 {
        law_many_readers_or_one_writer(run, steps.drop_last());
    }
}

/// What a reader sees stays as it is: no step changes the data while there are readers,
/// and neither does a run of steps throughout which there are.
pub proof fn law_data_stays_while_read<T, W>(run: RwLockRun<T, W>, steps: Seq<RwLockStep<T, W>>)
    requires
        forall|i: int|
            0 <= i < steps.len() ==> (#[trigger] run.after_all(steps.take(i))).lock.readers() > 0,
    ensures
        run.after_all(steps).lock.data == run.lock.data,
        run.after_all(steps).lock.id == run.lock.id,
    decreases steps.len(),
{
    if steps.len() > 0 {
        let earlier = steps.drop_last();
        assert forall|i: int| 0 <= i < earlier.len() implies (#[trigger] run.after_all(
            earlier.take(i),
        )).lock.readers() > 0 by {
            assert(earlier.take(i) =~= steps.take(i));
        }
        law_data_stays_while_read(run, earlier);
        assert(steps.take(steps.len() - 1) =~= earlier);
        assert(run.after_all(steps.take(steps.len() - 1)).lock.readers() > 0);
    }
}

/// The bit that marks a writer is set exactly while a writer holds the lock.
pub proof fn law_writer_bit<T, W>(lock: RwLockView<T, W>)
    requires
        lock.coherent(),
    ensures
        lock.write_held() <==> lock.word & LOCKED_WRITE != 0,
{
    let word = lock.word;
    assert(word <= 0b1000_0000u8 ==> (word & 0b1000_0000u8 != 0 <==> word == 0b1000_0000u8))
        by (bit_vector);
}

/// Whoever is let in after a writer finds what the writer left behind, readers and
/// writers alike.
pub proof fn law_reads_what_was_written<T, W>(
    lock: RwLockView<T, W>,
    written: T,
    reader: ReadGuard,
    guard: WriteGuard<T>,
    after: RwLockView<T, W>,
)
    ensures
        lock.without_writer(written).admits_reader(reader, after) ==> after.data == Some(
            written,
        ),
        lock.without_writer(written).admits_writer(guard, after) ==> guard@ == written,
{
}

/// The lock after this many readers came.
pub open spec fn with_readers<T, W>(lock: RwLockView<T, W>, count: nat) -> RwLockView<T, W>
    decreases count,
{
    if count == 0 {
        lock
    } else {
        with_readers(lock, (count - 1) as nat).with_reader()
    }
}

/// The lock after this many readers left.
pub open spec fn without_readers<T, W>(lock: RwLockView<T, W>, count: nat) -> RwLockView<T, W>
    decreases count,
{
    if count == 0 {
        lock
    } else {
        without_readers(lock, (count - 1) as nat).without_reader()
    }
}

/// As many readers as the state word can count may come; when all have left, the
/// lock is free and holds what it held before.
pub proof fn law_readers_come_and_go<T, W>(lock: RwLockView<T, W>, count: nat)
    requires
        lock.coherent(),
        lock.word == UNLOCKED,
        count < LOCKED_WRITE,
    ensures
        with_readers(lock, count).coherent(),
        with_readers(lock, count).readers() == count,
        without_readers(with_readers(lock, count), count).word == UNLOCKED,
        without_readers(with_readers(lock, count), count).data == lock.data,
{
    lemma_readers_come(lock, count);
    lemma_readers_go(with_readers(lock, count), count);
}

proof fn lemma_readers_come<T, W>(lock: RwLockView<T, W>, count: nat)
    requires
        lock.coherent(),
        lock.word == UNLOCKED,
        count < LOCKED_WRITE,
    ensures
        with_readers(lock, count).coherent(),
        with_readers(lock, count).word == count,
        with_readers(lock, count).data == lock.data,
    decreases count,
{
    if count > 0 {
        lemma_readers_come(lock, (count - 1) as nat);
    }
}

proof fn lemma_readers_go<T, W>(lock: RwLockView<T, W>, count: nat)
    requires
        count <= lock.word < LOCKED_WRITE,
    ensures
        without_readers(lock, count).word == lock.word - count,
        without_readers(lock, count).data == lock.data,
    decreases count,
{
    if count > 0 {
        lemma_readers_go(lock, (count - 1) as nat);
    }
}

/// No run of steps tears the word from the data, or leaves somebody queued with nobody
/// to count on.
pub proof fn law_nobody_stranded<T, W>(run: RwLockRun<T, W>, steps: Seq<RwLockStep<T, W>>)
    requires
        run.lock.coherent(),
        run.nobody_stranded(),
    ensures
        run.after_all(steps).lock.coherent(),
        run.after_all(steps).nobody_stranded(),
    decreases steps.len(),
{
    if steps.len() > 0 {
        law_nobody_stranded(run, steps.drop_last());
    }
}

/// A reader that queued is woken: after any run of steps it has been, or it is still
/// queued and there is somebody whose steps will wake it.
pub proof fn law_no_reader_wakeup_is_lost<T, W>(
    run: RwLockRun<T, W>,
    steps: Seq<RwLockStep<T, W>>,
    handle: W,
)
    requires
        run.lock.coherent(),
        run.nobody_stranded(),
        run.lock.queued_readers().contains(handle),
    ensures
        run.wakes_all(steps).contains(handle) || {
            let after = run.after_all(steps);
            after.lock.queued_readers().contains(handle) && after.reader_can_wait()
        },
    decreases steps.len(),
{
    broadcast use vstd::seq_lib::group_seq_properties;

    law_nobody_stranded(run, steps);
    if steps.len() > 0 {
        let before = run.after_all(steps.drop_last());
        law_no_reader_wakeup_is_lost(run, steps.drop_last(), handle);
        if before.lock.queued_readers().contains(handle) {
            lemma_readers_kept(before, steps.last(), handle);
        }
    }
}

proof fn lemma_readers_kept<T, W>(run: RwLockRun<T, W>, step: RwLockStep<T, W>, handle: W)
    requires
        run.lock.queued_readers().contains(handle),
    ensures
        run.wakes(step).contains(handle) || run.after(step).lock.queued_readers().contains(handle),
{
    let queued = run.lock.queued_readers();
    let at = choose|i: int| 0 <= i < queued.len() && queued[i] == handle;
    let after = run.after(step).lock.queued_readers();
    if step is DrainWrite && run.enables(step) {
        assert(run.wakes(step)[at] == handle);
    } else if step is BlockRead && run.enables(step) && run.lock.write_held() && at
        >= run.lock.sync_read.len() {
        assert(after[at + 1] == handle);
    } else {
        assert(after[at] == handle);
    }
}

/// A writer that queued is woken: after any run of steps it has been, or it is still
/// queued and there is somebody whose steps will wake it.
pub proof fn law_no_writer_wakeup_is_lost<T, W>(
    run: RwLockRun<T, W>,
    steps: Seq<RwLockStep<T, W>>,
    handle: W,
)
    requires
        run.lock.coherent(),
        run.nobody_stranded(),
        run.lock.queued_writers().contains(handle),
    ensures
        run.wakes_all(steps).contains(handle) || {
            let after = run.after_all(steps);
            after.lock.queued_writers().contains(handle) && after.writer_can_wait()
        },
    decreases steps.len(),
{
    broadcast use vstd::seq_lib::group_seq_properties;

    law_nobody_stranded(run, steps);
    if steps.len() > 0 {
        let before = run.after_all(steps.drop_last());
        law_no_writer_wakeup_is_lost(run, steps.drop_last(), handle);
        if before.lock.queued_writers().contains(handle) {
            lemma_writers_kept(before, steps.last(), handle);
        }
    }
}

proof fn lemma_writers_kept<T, W>(run: RwLockRun<T, W>, step: RwLockStep<T, W>, handle: W)
    requires
        run.lock.queued_writers().contains(handle),
    ensures
        run.wakes(step).contains(handle) || run.after(step).lock.queued_writers().contains(handle),
{
    let queued = run.lock.queued_writers();
    let at = choose|i: int| 0 <= i < queued.len() && queued[i] == handle;
    let after = run.after(step).lock.queued_writers();
    if step is DrainRead && run.enables(step) {
        assert(run.wakes(step)[at] == handle);
    } else if step is DrainWrite && run.enables(step) {
        assert(run.wakes(step)[run.lock.queued_readers().len() + at] == handle);
    } else if step is BlockWrite && run.lock.word != UNLOCKED && at >= run.lock.sync_write.len() {
        assert(after[at + 1] == handle);
    } else {
        assert(after[at] == handle);
    }
}

} // verus!
