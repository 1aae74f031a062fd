//! Many readers or one writer.

use vstd::prelude::*;

use crate::lock_id::LockId;
use crate::mutex::{sync_pause, Attempt, NotAvailable};
use crate::platform::{Pause, Strategy};
use crate::spinlock::Spinlock;
use crate::waiter::take_all;

verus! {

/// State word of a lock that nobody holds.
pub const UNLOCKED: u8 = 0;

/// State word of a lock with one reader; more readers count up from here.
pub const LOCKED_READ: u8 = 0b1;

/// State word of a lock that a writer holds.
pub const LOCKED_WRITE: u8 = 0b1000_0000;

/// What a lock holds.
#[verifier::ext_equal]
pub struct RwLockView<T, W> {
    /// Identity of the lock.
    pub id: int,
    /// The state word.
    pub word: u8,
    /// The data, unless a writer has it.
    pub data: Option<T>,
    /// Parked threads that want to read.
    pub sync_read: Seq<W>,
    /// Suspended tasks that want to read.
    pub async_read: Seq<W>,
    /// Parked threads that want to write.
    pub sync_write: Seq<W>,
    /// Suspended tasks that want to write.
    pub async_write: Seq<W>,
}

impl<T, W> RwLockView<T, W> {
    /// Whether a writer holds the lock.
    pub open spec fn write_held(self) -> bool {
        self.word == LOCKED_WRITE
    }

    /// How many readers hold the lock.
    pub open spec fn readers(self) -> nat {
        if self.word < LOCKED_WRITE {
            self.word as nat
        } else {
            0
        }
    }

    /// Whether another reader would not fit into the state word.
    pub open spec fn full(self) -> bool {
        self.word == LOCKED_WRITE - 1
    }

    /// Everybody who wants to read, in waking order.
    pub open spec fn queued_readers(self) -> Seq<W> {
        self.sync_read + self.async_read
    }

    /// Everybody who wants to write, in waking order.
    pub open spec fn queued_writers(self) -> Seq<W> {
        self.sync_write + self.async_write
    }

    /// The word is a count of readers or the writer's mark, and the data is out
    /// exactly while a writer holds the lock.
    pub open spec fn coherent(self) -> bool {
        &&& self.word <= LOCKED_WRITE
        &&& self.data is None <==> self.write_held()
    }

    /// Readers queue only behind a writer, and writers only behind somebody:
    /// whoever queued can count on the release that is still to come.
    pub open spec fn nobody_stranded(self) -> bool {
        &&& self.queued_readers().len() > 0 ==> self.write_held()
        &&& self.queued_writers().len() > 0 ==> self.word != UNLOCKED
    }

    /// The lock after one more reader.
    pub open spec fn with_reader(self) -> Self {
        RwLockView { word: (self.word + 1) as u8, ..self }
    }

    /// The lock after one reader left.
    pub open spec fn freed_by_reader(self) -> Self {
        RwLockView { word: (self.word - 1) as u8, ..self }
    }

    /// The lock after everybody who wants to write was woken.
    pub open spec fn drained_writers(self) -> Self {
        RwLockView { sync_write: Seq::empty(), async_write: Seq::empty(), ..self }
    }

    /// The lock after one reader left and the writers were woken.
    pub open spec fn without_reader(self) -> Self {
        self.freed_by_reader().drained_writers()
    }

    /// The lock after a writer took the data.
    pub open spec fn with_writer(self) -> Self {
        RwLockView { word: LOCKED_WRITE, data: None, ..self }
    }

    /// The lock after the writer came back with `data`.
    pub open spec fn freed_by_writer(self, data: T) -> Self {
        RwLockView { word: UNLOCKED, data: Some(data), ..self }
    }

    /// The lock after everybody in its queues was woken.
    pub open spec fn drained(self) -> Self {
        RwLockView {
            sync_read: Seq::empty(),
            async_read: Seq::empty(),
            sync_write: Seq::empty(),
            async_write: Seq::empty(),
            ..self
        }
    }

    /// The lock after the writer came back with `data` and everybody was woken.
    pub open spec fn without_writer(self, data: T) -> Self {
        self.freed_by_writer(data).drained()
    }

    /// Whether this guard lets somebody read: there are readers, and it came from here.
    pub open spec fn lent_to_reader(self, guard: ReadGuard) -> bool {
        self.readers() > 0 && guard.id() == self.id
    }

    /// Whether the data is in this guard: a writer has it, and the guard came from here.
    pub open spec fn lent_to_writer(self, guard: WriteGuard<T>) -> bool {
        self.write_held() && guard.id() == self.id
    }

    /// Whether a reader was let in with `guard` and `after` is the lock with it.
    pub open spec fn admits_reader(self, guard: ReadGuard, after: Self) -> bool {
        &&& !self.write_held()
        &&& guard.id() == self.id
        &&& after == self.with_reader()
    }

    /// Whether `guard` was taken out of this lock and `after` is what remained.
    pub open spec fn admits_writer(self, guard: WriteGuard<T>, after: Self) -> bool {
        &&& self.word == UNLOCKED
        &&& self.data == Some(guard@)
        &&& guard.id() == self.id
        &&& after == self.with_writer()
    }

    /// The lock after a reading `_sync` attempt that failed.
    pub open spec fn queued_sync_read(self, strategy: Strategy, handle: W) -> Self {
        match strategy {
            Strategy::Block => RwLockView { sync_read: self.sync_read.push(handle), ..self },
            Strategy::Spin => self,
        }
    }

    /// The lock after a writing `_sync` attempt that failed.
    pub open spec fn queued_sync_write(self, strategy: Strategy, handle: W) -> Self {
        match strategy {
            Strategy::Block => RwLockView { sync_write: self.sync_write.push(handle), ..self },
            Strategy::Spin => self,
        }
    }
}

/// A reader-writer lock around `T`. `W` is what wakes a waiter.
#[derive(Debug)]
pub struct RwLock<T, W> {
    id: LockId,
    inner: Option<T>,
    data_lock: u8,
    waiting_sync_read_threads: Spinlock<Vec<W>>,
    waiting_sync_write_threads: Spinlock<Vec<W>>,
    waiting_async_read_threads: Spinlock<Vec<W>>,
    waiting_async_write_threads: Spinlock<Vec<W>>,
}

impl<T, W> View for RwLock<T, W> {
    type V = RwLockView<T, W>;

    closed spec fn view(&self) -> RwLockView<T, W> {
        RwLockView {
            id: self.id@,
            word: self.data_lock,
            data: self.inner,
            sync_read: self.waiting_sync_read_threads@@,
            async_read: self.waiting_async_read_threads@@,
            sync_write: self.waiting_sync_write_threads@@,
            async_write: self.waiting_async_write_threads@@,
        }
    }
}

/// The right to read the data of a lock.
///
/// The data stays in the lock, where other readers see it too.
#[derive(Debug)]
pub struct ReadGuard {
    id: LockId,
}

/// The data of a lock, in the hands of the one writer.
#[derive(Debug)]
pub struct WriteGuard<T> {
    data: T,
    id: LockId,
}

impl<T> View for WriteGuard<T> {
    type V = T;

    closed spec fn view(&self) -> T {
        self.data
    }
}

impl<T> std::ops::Deref for WriteGuard<T> {
    type Target = T;

    fn deref(&self) -> (data: &T)
        ensures
            *data == self@,
    {
        &self.data
    }
}

impl<T> std::ops::DerefMut for WriteGuard<T> {
    fn deref_mut(&mut self) -> (data: &mut T)
        ensures
            *data == old(self)@,
            final(self)@ == *final(data),
            final(self).id() == old(self).id(),
    {
        &mut self.data
    }
}

impl<T> WriteGuard<T> {
    /// Identity of the lock that the guard belongs to.
    pub closed spec fn id(&self) -> int {
        self.id@
    }

    /// Releases `lock`, the lock that the guard came from, and returns the handles of
    /// everybody who waited for it.
    pub fn drop<W>(self, lock: &mut RwLock<T, W>) -> (wakes: Vec<W>)
        requires
            old(lock).consistent(),
            old(lock)@.lent_to_writer(self),
        ensures
            final(lock).wf(),
            final(lock)@ == old(lock)@.without_writer(self@),
            wakes@ == old(lock)@.queued_readers() + old(lock)@.queued_writers(),
    {
        lock.release_write(self);
        lock.did_unlock_write()
    }
}

impl ReadGuard {
    /// Identity of the lock that the guard belongs to.
    pub closed spec fn id(&self) -> int {
        self.id@
    }

    /// The data of `lock`, the lock that this guard came from.
    pub fn deref<'a, T, W>(&self, lock: &'a RwLock<T, W>) -> (data: &'a T)
        requires
            lock.consistent(),
            lock@.lent_to_reader(*self),
        ensures
            lock@.data == Some(*data),
    {
        lock.inner.as_ref().unwrap()
    }

    /// Leaves `lock`, the lock that the guard came from, and returns the handles of
    /// everybody who waited to write.
    pub fn drop<T, W>(self, lock: &mut RwLock<T, W>) -> (wakes: Vec<W>)
        requires
            old(lock).consistent(),
            old(lock)@.lent_to_reader(self),
        ensures
            final(lock).consistent(),
            old(lock).wf() ==> final(lock).wf(),
            final(lock)@ == old(lock)@.without_reader(),
            wakes@ == old(lock)@.queued_writers(),
    {
        lock.release_read(self);
        lock.did_unlock_read()
    }
}

impl<T, W> RwLock<T, W> {
    /// No list is being changed.
    pub closed spec fn at_rest(&self) -> bool {
        &&& !self.waiting_sync_read_threads.is_locked()
        &&& !self.waiting_sync_write_threads.is_locked()
        &&& !self.waiting_async_read_threads.is_locked()
        &&& !self.waiting_async_write_threads.is_locked()
    }

    /// The word and the data fit together, and no list is being changed.
    pub open spec fn consistent(&self) -> bool {
        self@.coherent() && self.at_rest()
    }

    /// The lock while nobody is between freeing it and waking those who queued.
    pub open spec fn wf(&self) -> bool {
        self.consistent() && self@.nobody_stranded()
    }

    /// A free lock around `value`.
    pub fn new(value: T) -> (lock: Self)
        ensures
            lock.wf(),
            lock@ == unlocked_view::<T, W>(lock@.id, value),
    {
        RwLock {
            id: LockId(Ghost(arbitrary())),
            inner: Some(value),
            data_lock: UNLOCKED,
            waiting_sync_read_threads: Spinlock::new(Vec::new()),
            waiting_sync_write_threads: Spinlock::new(Vec::new()),
            waiting_async_read_threads: Spinlock::new(Vec::new()),
            waiting_async_write_threads: Spinlock::new(Vec::new()),
        }
    }

    /// Whether as many readers hold the lock as the state word can count.
    pub fn is_full(&self) -> (full: bool)
        ensures
            full == self@.full(),
    {
        self.data_lock == LOCKED_WRITE - 1
    }

    /// Lets a reader in unless a writer holds the lock.
    pub fn try_lock_read(&mut self) -> (result: Result<ReadGuard, NotAvailable>)
        requires
            old(self).consistent(),
            !old(self)@.full(),
        ensures
            final(self).consistent(),
            old(self).wf() ==> final(self).wf(),
            match result {
                Ok(guard) => old(self)@.admits_reader(guard, final(self)@),
                Err(NotAvailable) => old(self)@.write_held() && final(self)@ == old(self)@,
            },
    {
        let word = self.data_lock;
        proof {
            assert(word <= 0b1000_0000u8 ==> (word & 0b1000_0000u8 != 0 <==> word
                == 0b1000_0000u8)) by (bit_vector);
        }
        if word & LOCKED_WRITE != 0 {
            Err(NotAvailable)
        } else {
            self.data_lock = word + LOCKED_READ;
            Ok(ReadGuard { id: self.id })
        }
    }

    /// Lets a writer in if nobody holds the lock.
    pub fn try_lock_write(&mut self) -> (result: Result<WriteGuard<T>, NotAvailable>)
        requires
            old(self).consistent(),
        ensures
            final(self).consistent(),
            old(self).wf() ==> final(self).wf(),
            match result {
                Ok(guard) => old(self)@.admits_writer(guard, final(self)@),
                Err(NotAvailable) => {
                    &&& old(self)@.word != UNLOCKED
                    &&& final(self)@ == old(self)@
                },
            },
    {
        if self.data_lock != UNLOCKED {
            return Err(NotAvailable);
        }
        self.data_lock = LOCKED_WRITE;
        Ok(WriteGuard { data: self.inner.take().unwrap(), id: self.id })
    }

    /// One turn of a busy-wait for reading.
    pub fn lock_spin_read(&mut self) -> (attempt: Attempt<ReadGuard>)
        requires
            old(self).consistent(),
            !old(self)@.full(),
        ensures
            final(self).consistent(),
            old(self).wf() ==> final(self).wf(),
            match attempt {
                Attempt::Acquired(guard) => old(self)@.admits_reader(guard, final(self)@),
                Attempt::Retry(pause) => {
                    &&& pause == Pause::Spin
                    &&& old(self)@.write_held()
                    &&& final(self)@ == old(self)@
                },
            },
    {
        match self.try_lock_read() {
            Ok(guard) => Attempt::Acquired(guard),
            Err(NotAvailable) => Attempt::Retry(Pause::Spin),
        }
    }

    /// One turn of a busy-wait for writing.
    pub fn lock_spin_write(&mut self) -> (attempt: Attempt<WriteGuard<T>>)
        requires
            old(self).consistent(),
        ensures
            final(self).consistent(),
            old(self).wf() ==> final(self).wf(),
            match attempt {
                Attempt::Acquired(guard) => old(self)@.admits_writer(guard, final(self)@),
                Attempt::Retry(pause) => {
                    &&& pause == Pause::Spin
                    &&& old(self)@.word != UNLOCKED
                    &&& final(self)@ == old(self)@
                },
            },
    {
        match self.try_lock_write() {
            Ok(guard) => Attempt::Acquired(guard),
            Err(NotAvailable) => Attempt::Retry(Pause::Spin),
        }
    }

    /// Lets a reader in, or queues its thread and asks it to park.
    pub fn lock_block_read(&mut self, thread: W) -> (attempt: Attempt<ReadGuard>)
        requires
            old(self).consistent(),
            !old(self)@.full(),
        ensures
            final(self).consistent(),
            old(self).wf() ==> final(self).wf(),
            match attempt {
                Attempt::Acquired(guard) => old(self)@.admits_reader(guard, final(self)@),
                Attempt::Retry(pause) => {
                    &&& pause == Pause::Park
                    &&& old(self)@.write_held()
                    &&& final(self)@ == (RwLockView {
                        sync_read: old(self)@.sync_read.push(thread),
                        ..old(self)@
                    })
                },
            },
    {
        match self.try_lock_read() {
            Ok(guard) => Attempt::Acquired(guard),
            Err(NotAvailable) => {
                self.waiting_sync_read_threads.with_mut(
                    |threads: &mut Vec<W>|
                        ensures
                            final(threads)@ == old(threads)@.push(thread)
                        { threads.push(thread) },
                );
                Attempt::Retry(Pause::Park)
            },
        }
    }

    /// Lets a writer in, or queues its thread and asks it to park.
    pub fn lock_block_write(&mut self, thread: W) -> (attempt: Attempt<WriteGuard<T>>)
        requires
            old(self).consistent(),
        ensures
            final(self).consistent(),
            old(self).wf() ==> final(self).wf(),
            match attempt {
                Attempt::Acquired(guard) => old(self)@.admits_writer(guard, final(self)@),
                Attempt::Retry(pause) => {
                    &&& pause == Pause::Park
                    &&& old(self)@.word != UNLOCKED
                    &&& final(self)@ == (RwLockView {
                        sync_write: old(self)@.sync_write.push(thread),
                        ..old(self)@
                    })
                },
            },
    {
        match self.try_lock_write() {
            Ok(guard) => Attempt::Acquired(guard),
            Err(NotAvailable) => {
                self.waiting_sync_write_threads.with_mut(
                    |threads: &mut Vec<W>|
                        ensures
                            final(threads)@ == old(threads)@.push(thread)
                        { threads.push(thread) },
                );
                Attempt::Retry(Pause::Park)
            },
        }
    }

    /// Lets a reader in, or makes it wait as the platform's strategy says.
    pub fn lock_sync_read(&mut self, strategy: Strategy, thread: W) -> (attempt: Attempt<ReadGuard>)
        requires
            old(self).consistent(),
            !old(self)@.full(),
        ensures
            final(self).consistent(),
            old(self).wf() ==> final(self).wf(),
            match attempt {
                Attempt::Acquired(guard) => old(self)@.admits_reader(guard, final(self)@),
                Attempt::Retry(pause) => {
                    &&& pause == sync_pause(strategy)
                    &&& old(self)@.write_held()
                    &&& final(self)@ == old(self)@.queued_sync_read(strategy, thread)
                },
            },
    {
        match strategy {
            Strategy::Block => self.lock_block_read(thread),
            Strategy::Spin => self.lock_spin_read(),
        }
    }

    /// Lets a writer in, or makes it wait as the platform's strategy says.
    pub fn lock_sync_write(&mut self, strategy: Strategy, thread: W) -> (attempt: Attempt<
        WriteGuard<T>,
    >)
        requires
            old(self).consistent(),
        ensures
            final(self).consistent(),
            old(self).wf() ==> final(self).wf(),
            match attempt {
                Attempt::Acquired(guard) => old(self)@.admits_writer(guard, final(self)@),
                Attempt::Retry(pause) => {
                    &&& pause == sync_pause(strategy)
                    &&& old(self)@.word != UNLOCKED
                    &&& final(self)@ == old(self)@.queued_sync_write(strategy, thread)
                },
            },
    {
        match strategy {
            Strategy::Block => self.lock_block_write(thread),
            Strategy::Spin => self.lock_spin_write(),
        }
    }

    /// Lets a reader in, or queues its task and asks it to suspend.
    pub fn lock_async_read(&mut self, task: W) -> (attempt: Attempt<ReadGuard>)
        requires
            old(self).consistent(),
            !old(self)@.full(),
        ensures
            final(self).consistent(),
            old(self).wf() ==> final(self).wf(),
            match attempt {
                Attempt::Acquired(guard) => old(self)@.admits_reader(guard, final(self)@),
                Attempt::Retry(pause) => {
                    &&& pause == Pause::Await
                    &&& old(self)@.write_held()
                    &&& final(self)@ == (RwLockView {
                        async_read: old(self)@.async_read.push(task),
                        ..old(self)@
                    })
                },
            },
    {
        match self.try_lock_read() {
            Ok(guard) => Attempt::Acquired(guard),
            Err(NotAvailable) => {
                self.waiting_async_read_threads.with_mut(
                    |tasks: &mut Vec<W>|
                        ensures
                            final(tasks)@ == old(tasks)@.push(task)
                        { tasks.push(task) },
                );
                Attempt::Retry(Pause::Await)
            },
        }
    }

    /// Lets a writer in, or queues its task and asks it to suspend.
    pub fn lock_async_read_write(&mut self, task: W) -> (attempt: Attempt<WriteGuard<T>>)
        requires
            old(self).consistent(),
        ensures
            final(self).consistent(),
            old(self).wf() ==> final(self).wf(),
            match attempt {
                Attempt::Acquired(guard) => old(self)@.admits_writer(guard, final(self)@),
                Attempt::Retry(pause) => {
                    &&& pause == Pause::Await
                    &&& old(self)@.word != UNLOCKED
                    &&& final(self)@ == (RwLockView {
                        async_write: old(self)@.async_write.push(task),
                        ..old(self)@
                    })
                },
            },
    {
        match self.try_lock_write() {
            Ok(guard) => Attempt::Acquired(guard),
            Err(NotAvailable) => {
                self.waiting_async_write_threads.with_mut(
                    |tasks: &mut Vec<W>|
                        ensures
                            final(tasks)@ == old(tasks)@.push(task)
                        { tasks.push(task) },
                );
                Attempt::Retry(Pause::Await)
            },
        }
    }

    /// Lets a reader out without waking anybody. [`RwLock::did_unlock_read`] has yet to
    /// follow; others may take the lock before it does.
    pub fn release_read(&mut self, _guard: ReadGuard)
        requires
            old(self).consistent(),
            old(self)@.lent_to_reader(_guard),
        ensures
            final(self).consistent(),
            final(self)@ == old(self)@.freed_by_reader(),
    {
        self.data_lock = self.data_lock - LOCKED_READ;
    }

    /// Takes the data back from the writer without waking anybody.
    /// [`RwLock::did_unlock_write`] has yet to follow; others may take the lock before it
    /// does.
    pub fn release_write(&mut self, guard: WriteGuard<T>)
        requires
            old(self).consistent(),
            old(self)@.lent_to_writer(guard),
        ensures
            final(self).consistent(),
            final(self)@ == old(self)@.freed_by_writer(guard@),
    {
        self.inner = Some(guard.data);
        self.data_lock = UNLOCKED;
    }

    /// Empties all queues and returns the handles of everybody who was in them:
    /// readers before writers, and of either the threads before the tasks.
    pub fn did_unlock_write(&mut self) -> (wakes: Vec<W>)
        requires
            old(self).consistent(),
        ensures
            final(self).wf(),
            final(self)@ == old(self)@.drained(),
            wakes@ == old(self)@.queued_readers() + old(self)@.queued_writers(),
    {
        let mut wakes: Vec<W> = self.waiting_sync_read_threads.with_mut(take_all);
        let mut tasks: Vec<W> = self.waiting_async_read_threads.with_mut(take_all);
        wakes.append(&mut tasks);
        let mut threads: Vec<W> = self.waiting_sync_write_threads.with_mut(take_all);
        wakes.append(&mut threads);
        let mut tasks: Vec<W> = self.waiting_async_write_threads.with_mut(take_all);
        wakes.append(&mut tasks);
        wakes
    }

    /// Empties the queues of the writers and returns the handles of everybody who
    /// was in them, the threads before the tasks. Readers are left alone: they wait
    /// for a writer, and it was a reader that left.
    pub fn did_unlock_read(&mut self) -> (wakes: Vec<W>)
        requires
            old(self).consistent(),
        ensures
            final(self).consistent(),
            final(self)@ == old(self)@.drained_writers(),
            wakes@ == old(self)@.queued_writers(),
    {
        let mut wakes: Vec<W> = self.waiting_sync_write_threads.with_mut(take_all);
        let mut tasks: Vec<W> = self.waiting_async_write_threads.with_mut(take_all);
        wakes.append(&mut tasks);
        wakes
    }
}

/// Text for people in place of data that a writer has.
pub fn locked_text() -> (text: &'static str)
    ensures
        text@ == "Mutex { <locked> }"@,
{
    "Mutex { <locked> }"
}

impl<T: std::fmt::Display, W> RwLock<T, W> {
    /// Text for people, with the handles of everybody to wake.
    ///
    /// The data is read under the lock, as any other reader reads it. While a
    /// writer has it, the text says so instead.
    pub fn fmt(&mut self) -> (shown: (String, Vec<W>))
        requires
            old(self).consistent(),
            !old(self)@.full(),
        ensures
            final(self).consistent(),
            old(self).wf() ==> final(self).wf(),
            old(self)@.write_held() ==> {
                &&& shown.0@ == "Mutex { <locked> }"@
                &&& shown.1@ == Seq::<W>::empty()
                &&& final(self)@ == old(self)@
            },
            !old(self)@.write_held() ==> {
                &&& vstd::string::to_string_from_display_ensures(
                    &old(self)@.data->Some_0,
                    shown.0,
                )
                &&& shown.1@ == old(self)@.queued_writers()
                &&& final(self)@ == old(self)@.with_reader().without_reader()
            },
    {
        match self.try_lock_read() {
            Ok(guard) => {
                let text = guard.deref(self).to_string();
                let wakes = guard.drop(self);
                (text, wakes)
            },
            Err(NotAvailable) => (locked_text().to_owned(), Vec::new()),
        }
    }
}

impl<T, W> From<T> for RwLock<T, W> {
    fn from(value: T) -> (lock: Self)
        ensures
            lock.wf(),
            lock@ == unlocked_view::<T, W>(lock@.id, value),
    {
        RwLock::new(value)
    }
}

impl<T, W> vstd::std_specs::convert::FromSpecImpl<T> for RwLock<T, W> {
    open spec fn obeys_from_spec() -> bool {
        false
    }

    open spec fn from_spec(value: T) -> Self {
        arbitrary()
    }
}

impl<T: Default, W> Default for RwLock<T, W> {
    fn default() -> (lock: Self)
        ensures
            lock.wf(),
            exists|value: T|
                #[trigger] call_ensures(T::default, (), value) && lock@ == unlocked_view::<T, W>(
                    lock@.id,
                    value,
                ),
    {
        RwLock::new(T::default())
    }
}

/// A lock that nobody holds or waits for.
pub open spec fn unlocked_view<T, W>(id: int, value: T) -> RwLockView<T, W> {
    RwLockView {
        id,
        word: UNLOCKED,
        data: Some(value),
        sync_read: Seq::empty(),
        async_read: Seq::empty(),
        sync_write: Seq::empty(),
        async_write: Seq::empty(),
    }
}

} // verus!
