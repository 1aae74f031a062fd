//! What the calls of a reader-writer lock and its guards do to the data, to the count of
//! readers and to the four queues.

use vstd::prelude::*;

use super::mutex_calls::guard_of;
use crate::mutex::{Attempt, NotAvailable};
use crate::platform::{Pause, Strategy};
use crate::rwlock::{ReadGuard, RwLock, RwLockView, WriteGuard};

verus! {

/// Whether nobody joins or leaves the queues of readers.
pub open spec fn read_queues_stay<T, W>(before: RwLockView<T, W>, after: RwLockView<T, W>) -> bool {
    after.sync_read == before.sync_read && after.async_read == before.async_read
}

/// Whether nobody joins or leaves the queues of writers.
pub open spec fn write_queues_stay<T, W>(
    before: RwLockView<T, W>,
    after: RwLockView<T, W>,
) -> bool {
    after.sync_write == before.sync_write && after.async_write == before.async_write
}

/// Whether nobody joins or leaves any queue.
pub open spec fn all_queues_stay<T, W>(before: RwLockView<T, W>, after: RwLockView<T, W>) -> bool {
    read_queues_stay(before, after) && write_queues_stay(before, after)
}

/// Whether an attempt to read comes out rightly: it gets a guard of this lock exactly if
/// the data are there, which leaves the data where they are and counts one reader more.
pub open spec fn reads_what_is_there<T, W>(
    before: RwLockView<T, W>,
    got: Option<ReadGuard>,
    after: RwLockView<T, W>,
) -> bool {
    &&& after.id == before.id
    &&& after.data == before.data
    &&& match got {
        Some(guard) => {
            &&& before.data is Some
            &&& guard.id() == before.id
            &&& before.word < 127
            &&& after.word == before.word + 1
        },
        None => before.data is None && after.word == before.word,
    }
}

/// Whether an attempt to write comes out rightly: it gets the data, in a guard of this
/// lock, exactly if they are there and nobody reads them, and leaves nothing to read.
pub open spec fn writes_what_is_there<T, W>(
    before: RwLockView<T, W>,
    got: Option<WriteGuard<T>>,
    after: RwLockView<T, W>,
) -> bool {
    &&& after.id == before.id
    &&& match got {
        Some(guard) => {
            &&& before.word == 0
            &&& before.data == Some(guard@)
            &&& guard.id() == before.id
            &&& after.data is None
            &&& after.word == 128
        },
        None => before.word > 0 && after.word == before.word && after.data == before.data,
    }
}

/// A new lock holds its value, has no readers, and nobody is queued for it, however it is
/// made.
pub proof fn law_new_rwlock<T, W>(value: T, lock: RwLock<T, W>)
    requires
        call_ensures(RwLock::<T, W>::new, (value,), lock) || call_ensures(
            <RwLock<T, W> as From<T>>::from,
            (value,),
            lock,
        ),
    ensures
        lock.wf(),
        lock@.data == Some(value),
        lock@.word == 0,
        lock@.sync_read.len() == 0,
        lock@.async_read.len() == 0,
        lock@.sync_write.len() == 0,
        lock@.async_write.len() == 0,
{
}

/// A default lock holds a default value.
pub proof fn law_default_rwlock<T: Default, W>(lock: RwLock<T, W>)
    requires
        call_ensures(<RwLock<T, W> as Default>::default, (), lock),
    ensures
        lock.wf(),
        exists|value: T| #[trigger]
            call_ensures(T::default, (), value) && lock@.data == Some(value),
        lock@.word == 0,
        lock@.sync_read.len() == 0,
        lock@.async_read.len() == 0,
        lock@.sync_write.len() == 0,
        lock@.async_write.len() == 0,
{
}

/// While the word counts readers the data are there; the mark of a writer says that they
/// are not.
pub proof fn law_word_tells_where_the_data_are<T, W>(lock: RwLock<T, W>)
    requires
        lock.consistent(),
    ensures
        lock@.word <= 128,
        lock@.data is None <==> lock@.word == 128,
{
}

/// Every attempt to read, however it waits, gets in exactly if no writer has the data.
pub proof fn law_attempts_to_read<T, W>(strategy: Strategy, handle: W)
    ensures
        forall|lock: &mut RwLock<T, W>, result: Result<ReadGuard, NotAvailable>| #[trigger]
            call_ensures(RwLock::<T, W>::try_lock_read, (lock,), result) && (*lock).consistent()
                && (*lock)@.word != 127 ==> reads_what_is_there(
                (*lock)@,
                match result {
                    Ok(guard) => Some(guard),
                    Err(_) => None,
                },
                (*final(lock))@,
            ),
        forall|lock: &mut RwLock<T, W>, attempt: Attempt<ReadGuard>| #[trigger]
            call_ensures(RwLock::<T, W>::lock_spin_read, (lock,), attempt) && (*lock).consistent()
                && (*lock)@.word != 127 ==> reads_what_is_there(
                (*lock)@,
                guard_of(attempt),
                (*final(lock))@,
            ),
        forall|lock: &mut RwLock<T, W>, attempt: Attempt<ReadGuard>| #[trigger]
            call_ensures(
                RwLock::<T, W>::lock_block_read,
                (lock, handle),
                attempt,
            ) && (*lock).consistent()
                && (*lock)@.word != 127 ==> reads_what_is_there(
                (*lock)@,
                guard_of(attempt),
                (*final(lock))@,
            ),
        forall|lock: &mut RwLock<T, W>, attempt: Attempt<ReadGuard>| #[trigger]
            call_ensures(
                RwLock::<T, W>::lock_sync_read,
                (lock, strategy, handle),
                attempt,
            ) && (*lock).consistent()
                && (*lock)@.word != 127 ==> reads_what_is_there(
                (*lock)@,
                guard_of(attempt),
                (*final(lock))@,
            ),
        forall|lock: &mut RwLock<T, W>, attempt: Attempt<ReadGuard>| #[trigger]
            call_ensures(
                RwLock::<T, W>::lock_async_read,
                (lock, handle),
                attempt,
            ) && (*lock).consistent()
                && (*lock)@.word != 127 ==> reads_what_is_there(
                (*lock)@,
                guard_of(attempt),
                (*final(lock))@,
            ),
{
}

/// Every attempt to write, however it waits, gets the data exactly if nobody holds the lock.
pub proof fn law_attempts_to_write<T, W>(strategy: Strategy, handle: W)
    ensures
        forall|lock: &mut RwLock<T, W>, result: Result<WriteGuard<T>, NotAvailable>| #[trigger]
            call_ensures(RwLock::<T, W>::try_lock_write, (lock,), result) && (*lock).consistent()
                ==> writes_what_is_there(
                (*lock)@,
                match result {
                    Ok(guard) => Some(guard),
                    Err(_) => None,
                },
                (*final(lock))@,
            ),
        forall|lock: &mut RwLock<T, W>, attempt: Attempt<WriteGuard<T>>| #[trigger]
            call_ensures(RwLock::<T, W>::lock_spin_write, (lock,), attempt) && (*lock).consistent()
                ==> writes_what_is_there(
                (*lock)@,
                guard_of(attempt),
                (*final(lock))@,
            ),
        forall|lock: &mut RwLock<T, W>, attempt: Attempt<WriteGuard<T>>| #[trigger]
            call_ensures(
                RwLock::<T, W>::lock_block_write,
                (lock, handle),
                attempt,
            ) && (*lock).consistent()
                ==> writes_what_is_there(
                (*lock)@,
                guard_of(attempt),
                (*final(lock))@,
            ),
        forall|lock: &mut RwLock<T, W>, attempt: Attempt<WriteGuard<T>>| #[trigger]
            call_ensures(
                RwLock::<T, W>::lock_sync_write,
                (lock, strategy, handle),
                attempt,
            ) && (*lock).consistent()
                ==> writes_what_is_there(
                (*lock)@,
                guard_of(attempt),
                (*final(lock))@,
            ),
        forall|lock: &mut RwLock<T, W>, attempt: Attempt<WriteGuard<T>>| #[trigger]
            call_ensures(
                RwLock::<T, W>::lock_async_read_write,
                (lock, handle),
                attempt,
            ) && (*lock).consistent()
                ==> writes_what_is_there(
                (*lock)@,
                guard_of(attempt),
                (*final(lock))@,
            ),
{
}

/// An attempt to read that gets nothing says how to pause, and whoever is told to park or
/// to suspend is the last in the queue of the threads or of the tasks that want to read.
pub proof fn law_refused_readers_queue<T, W>(strategy: Strategy, handle: W)
    ensures
        forall|lock: &mut RwLock<T, W>, result: Result<ReadGuard, NotAvailable>| #[trigger]
            call_ensures(RwLock::<T, W>::try_lock_read, (lock,), result) ==> all_queues_stay(
                (*lock)@,
                (*final(lock))@,
            ),
        forall|lock: &mut RwLock<T, W>, attempt: Attempt<ReadGuard>| #[trigger]
            call_ensures(RwLock::<T, W>::lock_spin_read, (lock,), attempt) ==> {
                let before = (*lock)@;
                let after = (*final(lock))@;
                match attempt {
                    Attempt::Acquired(_) => all_queues_stay(before, after),
                    Attempt::Retry(pause) => pause == Pause::Spin && all_queues_stay(before, after),
                }
            },
        forall|lock: &mut RwLock<T, W>, attempt: Attempt<ReadGuard>| #[trigger]
            call_ensures(RwLock::<T, W>::lock_block_read, (lock, handle), attempt) ==> {
                let before = (*lock)@;
                let after = (*final(lock))@;
                match attempt {
                    Attempt::Acquired(_) => all_queues_stay(before, after),
                    Attempt::Retry(pause) => {
                        &&& pause == Pause::Park
                        &&& after.sync_read == before.sync_read.push(handle)
                        &&& after.async_read == before.async_read
                        &&& write_queues_stay(before, after)
                    },
                }
            },
        forall|lock: &mut RwLock<T, W>, attempt: Attempt<ReadGuard>| #[trigger]
            call_ensures(RwLock::<T, W>::lock_sync_read, (lock, strategy, handle), attempt) ==> {
                let before = (*lock)@;
                let after = (*final(lock))@;
                match (attempt, strategy) {
                    (Attempt::Acquired(_), _) => all_queues_stay(before, after),
                    (Attempt::Retry(pause), Strategy::Block) => {
                        &&& pause == Pause::Park
                        &&& after.sync_read == before.sync_read.push(handle)
                        &&& after.async_read == before.async_read
                        &&& write_queues_stay(before, after)
                    },
                    (Attempt::Retry(pause), Strategy::Spin) => {
                        pause == Pause::Spin && all_queues_stay(before, after)
                    },
                }
            },
        forall|lock: &mut RwLock<T, W>, attempt: Attempt<ReadGuard>| #[trigger]
            call_ensures(RwLock::<T, W>::lock_async_read, (lock, handle), attempt) ==> {
                let before = (*lock)@;
                let after = (*final(lock))@;
                match attempt {
                    Attempt::Acquired(_) => all_queues_stay(before, after),
                    Attempt::Retry(pause) => {
                        &&& pause == Pause::Await
                        &&& after.async_read == before.async_read.push(handle)
                        &&& after.sync_read == before.sync_read
                        &&& write_queues_stay(before, after)
                    },
                }
            },
{
}

/// An attempt to write that gets nothing says how to pause, and whoever is told to park or
/// to suspend is the last in the queue of the threads or of the tasks that want to write.
pub proof fn law_refused_writers_queue<T, W>(strategy: Strategy, handle: W)
    ensures
        forall|lock: &mut RwLock<T, W>, result: Result<WriteGuard<T>, NotAvailable>| #[trigger]
            call_ensures(RwLock::<T, W>::try_lock_write, (lock,), result) ==> all_queues_stay(
                (*lock)@,
                (*final(lock))@,
            ),
        forall|lock: &mut RwLock<T, W>, attempt: Attempt<WriteGuard<T>>| #[trigger]
            call_ensures(RwLock::<T, W>::lock_spin_write, (lock,), attempt) ==> {
                let before = (*lock)@;
                let after = (*final(lock))@;
                match attempt {
                    Attempt::Acquired(_) => all_queues_stay(before, after),
                    Attempt::Retry(pause) => pause == Pause::Spin && all_queues_stay(before, after),
                }
            },
        forall|lock: &mut RwLock<T, W>, attempt: Attempt<WriteGuard<T>>| #[trigger]
            call_ensures(RwLock::<T, W>::lock_block_write, (lock, handle), attempt) ==> {
                let before = (*lock)@;
                let after = (*final(lock))@;
                match attempt {
                    Attempt::Acquired(_) => all_queues_stay(before, after),
                    Attempt::Retry(pause) => {
                        &&& pause == Pause::Park
                        &&& after.sync_write == before.sync_write.push(handle)
                        &&& after.async_write == before.async_write
                        &&& read_queues_stay(before, after)
                    },
                }
            },
        forall|lock: &mut RwLock<T, W>, attempt: Attempt<WriteGuard<T>>| #[trigger]
            call_ensures(RwLock::<T, W>::lock_sync_write, (lock, strategy, handle), attempt) ==> {
                let before = (*lock)@;
                let after = (*final(lock))@;
                match (attempt, strategy) {
                    (Attempt::Acquired(_), _) => all_queues_stay(before, after),
                    (Attempt::Retry(pause), Strategy::Block) => {
                        &&& pause == Pause::Park
                        &&& after.sync_write == before.sync_write.push(handle)
                        &&& after.async_write == before.async_write
                        &&& read_queues_stay(before, after)
                    },
                    (Attempt::Retry(pause), Strategy::Spin) => {
                        pause == Pause::Spin && all_queues_stay(before, after)
                    },
                }
            },
        forall|lock: &mut RwLock<T, W>, attempt: Attempt<WriteGuard<T>>| #[trigger]
            call_ensures(RwLock::<T, W>::lock_async_read_write, (lock, handle), attempt) ==> {
                let before = (*lock)@;
                let after = (*final(lock))@;
                match attempt {
                    Attempt::Acquired(_) => all_queues_stay(before, after),
                    Attempt::Retry(pause) => {
                        &&& pause == Pause::Await
                        &&& after.async_write == before.async_write.push(handle)
                        &&& after.sync_write == before.sync_write
                        &&& read_queues_stay(before, after)
                    },
                }
            },
{
}

/// Whether everybody who wants to write is to be woken, threads before tasks, and nobody is
/// left in their queues.
pub open spec fn wakes_writers<T, W>(
    before: RwLockView<T, W>,
    wakes: Seq<W>,
    after: RwLockView<T, W>,
) -> bool {
    &&& wakes == before.sync_write + before.async_write
    &&& after.sync_write.len() == 0
    &&& after.async_write.len() == 0
    &&& read_queues_stay(before, after)
}

/// Whether everybody is to be woken, readers before writers and of either the threads
/// before the tasks, and nobody is left in any queue.
pub open spec fn wakes_everybody<T, W>(
    before: RwLockView<T, W>,
    wakes: Seq<W>,
    after: RwLockView<T, W>,
) -> bool {
    &&& wakes == before.sync_read + before.async_read + before.sync_write + before.async_write
    &&& after.sync_read.len() == 0
    &&& after.async_read.len() == 0
    &&& after.sync_write.len() == 0
    &&& after.async_write.len() == 0
}

/// A reader that leaves is no longer counted and leaves the data as they are; with it, or
/// with the call that follows, everybody who wants to write is to be woken.
pub proof fn law_leaving_readers_wake_writers<T, W>(guard: ReadGuard)
    ensures
        forall|lock: &mut RwLock<T, W>, unit: ()| #[trigger]
            call_ensures(RwLock::<T, W>::release_read, (lock, guard), unit) && (*lock)@.word > 0
                ==> {
                &&& (*final(lock))@.word == (*lock)@.word - 1
                &&& (*final(lock))@.data == (*lock)@.data
                &&& (*final(lock))@.id == (*lock)@.id
                &&& all_queues_stay((*lock)@, (*final(lock))@)
            },
        forall|lock: &mut RwLock<T, W>, wakes: Vec<W>| #[trigger]
            call_ensures(RwLock::<T, W>::did_unlock_read, (lock,), wakes) ==> {
                &&& (*final(lock))@.word == (*lock)@.word
                &&& (*final(lock))@.data == (*lock)@.data
                &&& (*final(lock))@.id == (*lock)@.id
                &&& wakes_writers((*lock)@, wakes@, (*final(lock))@)
            },
        forall|lock: &mut RwLock<T, W>, wakes: Vec<W>| #[trigger]
            call_ensures(ReadGuard::drop::<T, W>, (guard, lock), wakes) && (*lock)@.word > 0
                ==> {
                &&& (*final(lock))@.word == (*lock)@.word - 1
                &&& (*final(lock))@.data == (*lock)@.data
                &&& (*final(lock))@.id == (*lock)@.id
                &&& wakes_writers((*lock)@, wakes@, (*final(lock))@)
            },
{
}

/// A writer that leaves puts its data back, and the lock is free; with it, or with the call
/// that follows, everybody is to be woken.
pub proof fn law_leaving_writers_wake_everybody<T, W>(guard: WriteGuard<T>)
    ensures
        forall|lock: &mut RwLock<T, W>, unit: ()| #[trigger]
            call_ensures(RwLock::<T, W>::release_write, (lock, guard), unit) ==> {
                &&& (*final(lock))@.word == 0
                &&& (*final(lock))@.data == Some(guard@)
                &&& (*final(lock))@.id == (*lock)@.id
                &&& all_queues_stay((*lock)@, (*final(lock))@)
            },
        forall|lock: &mut RwLock<T, W>, wakes: Vec<W>| #[trigger]
            call_ensures(RwLock::<T, W>::did_unlock_write, (lock,), wakes) ==> {
                &&& (*final(lock))@.word == (*lock)@.word
                &&& (*final(lock))@.data == (*lock)@.data
                &&& (*final(lock))@.id == (*lock)@.id
                &&& wakes_everybody((*lock)@, wakes@, (*final(lock))@)
            },
        forall|lock: &mut RwLock<T, W>, wakes: Vec<W>| #[trigger]
            call_ensures(WriteGuard::<T>::drop::<W>, (guard, lock), wakes) ==> {
                &&& (*final(lock))@.word == 0
                &&& (*final(lock))@.data == Some(guard@)
                &&& (*final(lock))@.id == (*lock)@.id
                &&& wakes_everybody((*lock)@, wakes@, (*final(lock))@)
            },
{
    broadcast use vstd::seq_lib::group_seq_properties;

    assert forall|lock: &mut RwLock<T, W>, wakes: Vec<W>| #[trigger]
        call_ensures(RwLock::<T, W>::did_unlock_write, (lock,), wakes) implies wakes_everybody(
        (*lock)@,
        wakes@,
        (*final(lock))@,
    ) by {
        let before = (*lock)@;
        assert(wakes@ =~= before.sync_read + before.async_read + before.sync_write
            + before.async_write);
    }
    assert forall|lock: &mut RwLock<T, W>, wakes: Vec<W>| #[trigger]
        call_ensures(WriteGuard::<T>::drop::<W>, (guard, lock), wakes) implies wakes_everybody(
        (*lock)@,
        wakes@,
        (*final(lock))@,
    ) by {
        let before = (*lock)@;
        assert(wakes@ =~= before.sync_read + before.async_read + before.sync_write
            + before.async_write);
    }
}

/// Whether a handle that is in one of the four queues before is among those to be woken, or
/// still in that queue.
pub open spec fn covers<T, W>(
    before: RwLockView<T, W>,
    wakes: Seq<W>,
    after: RwLockView<T, W>,
    queued: W,
) -> bool {
    &&& before.sync_read.contains(queued) ==> wakes.contains(queued) || after.sync_read.contains(
        queued,
    )
    &&& before.async_read.contains(queued) ==> wakes.contains(queued)
        || after.async_read.contains(queued)
    &&& before.sync_write.contains(queued) ==> wakes.contains(queued)
        || after.sync_write.contains(queued)
    &&& before.async_write.contains(queued) ==> wakes.contains(queued)
        || after.async_write.contains(queued)
}

/// No call drops anybody from a queue: a handle that is in one of the four before the call is
/// returned by it to be woken, or still there. A handle that is refused with the advice to
/// park or to suspend is in a queue from then on.
pub proof fn law_no_call_drops_a_handle<T, W>(
    strategy: Strategy,
    handle: W,
    reader: ReadGuard,
    writer: WriteGuard<T>,
    queued: W,
)
    ensures
        forall|lock: &mut RwLock<T, W>, result: Result<ReadGuard, NotAvailable>| #[trigger]
            call_ensures(RwLock::<T, W>::try_lock_read, (lock,), result) ==> covers(
                (*lock)@,
                Seq::empty(),
                (*final(lock))@,
                queued,
            ),
        forall|lock: &mut RwLock<T, W>, attempt: Attempt<ReadGuard>| #[trigger]
            call_ensures(RwLock::<T, W>::lock_spin_read, (lock,), attempt) ==> covers(
                (*lock)@,
                Seq::empty(),
                (*final(lock))@,
                queued,
            ),
        forall|lock: &mut RwLock<T, W>, attempt: Attempt<ReadGuard>| #[trigger]
            call_ensures(RwLock::<T, W>::lock_block_read, (lock, handle), attempt) ==> covers(
                (*lock)@,
                Seq::empty(),
                (*final(lock))@,
                queued,
            ),
        forall|lock: &mut RwLock<T, W>, attempt: Attempt<ReadGuard>| #[trigger]
            call_ensures(
                RwLock::<T, W>::lock_sync_read,
                (lock, strategy, handle),
                attempt,
            ) ==> covers(
                (*lock)@,
                Seq::empty(),
                (*final(lock))@,
                queued,
            ),
        forall|lock: &mut RwLock<T, W>, attempt: Attempt<ReadGuard>| #[trigger]
            call_ensures(RwLock::<T, W>::lock_async_read, (lock, handle), attempt) ==> covers(
                (*lock)@,
                Seq::empty(),
                (*final(lock))@,
                queued,
            ),
        forall|lock: &mut RwLock<T, W>, result: Result<WriteGuard<T>, NotAvailable>| #[trigger]
            call_ensures(RwLock::<T, W>::try_lock_write, (lock,), result) ==> covers(
                (*lock)@,
                Seq::empty(),
                (*final(lock))@,
                queued,
            ),
        forall|lock: &mut RwLock<T, W>, attempt: Attempt<WriteGuard<T>>| #[trigger]
            call_ensures(RwLock::<T, W>::lock_spin_write, (lock,), attempt) ==> covers(
                (*lock)@,
                Seq::empty(),
                (*final(lock))@,
                queued,
            ),
        forall|lock: &mut RwLock<T, W>, attempt: Attempt<WriteGuard<T>>| #[trigger]
            call_ensures(RwLock::<T, W>::lock_block_write, (lock, handle), attempt) ==> covers(
                (*lock)@,
                Seq::empty(),
                (*final(lock))@,
                queued,
            ),
        forall|lock: &mut RwLock<T, W>, attempt: Attempt<WriteGuard<T>>| #[trigger]
            call_ensures(
                RwLock::<T, W>::lock_sync_write,
                (lock, strategy, handle),
                attempt,
            ) ==> covers(
                (*lock)@,
                Seq::empty(),
                (*final(lock))@,
                queued,
            ),
        forall|lock: &mut RwLock<T, W>, attempt: Attempt<WriteGuard<T>>| #[trigger]
            call_ensures(RwLock::<T, W>::lock_async_read_write, (lock, handle), attempt) ==> covers(
                (*lock)@,
                Seq::empty(),
                (*final(lock))@,
                queued,
            ),
        forall|lock: &mut RwLock<T, W>, unit: ()| #[trigger]
            call_ensures(
                RwLock::<T, W>::release_read,
                (lock, reader),
                unit,
            ) && (*lock)@.word > 0 ==> covers(
                (*lock)@,
                Seq::empty(),
                (*final(lock))@,
                queued,
            ),
        forall|lock: &mut RwLock<T, W>, unit: ()| #[trigger]
            call_ensures(RwLock::<T, W>::release_write, (lock, writer), unit) ==> covers(
                (*lock)@,
                Seq::empty(),
                (*final(lock))@,
                queued,
            ),
        forall|lock: &mut RwLock<T, W>, wakes: Vec<W>| #[trigger]
            call_ensures(RwLock::<T, W>::did_unlock_read, (lock,), wakes) ==> covers(
                (*lock)@,
                wakes@,
                (*final(lock))@,
                queued,
            ),
        forall|lock: &mut RwLock<T, W>, wakes: Vec<W>| #[trigger]
            call_ensures(RwLock::<T, W>::did_unlock_write, (lock,), wakes) ==> covers(
                (*lock)@,
                wakes@,
                (*final(lock))@,
                queued,
            ),
        forall|lock: &mut RwLock<T, W>, wakes: Vec<W>| #[trigger]
            call_ensures(
                ReadGuard::drop::<T, W>,
                (reader, lock),
                wakes,
            ) && (*lock)@.word > 0 ==> covers(
                (*lock)@,
                wakes@,
                (*final(lock))@,
                queued,
            ),
        forall|lock: &mut RwLock<T, W>, wakes: Vec<W>| #[trigger]
            call_ensures(WriteGuard::<T>::drop::<W>, (writer, lock), wakes) ==> covers(
                (*lock)@,
                wakes@,
                (*final(lock))@,
                queued,
            ),
        forall|lock: &mut RwLock<T, W>, attempt: Attempt<ReadGuard>| #[trigger]
            call_ensures(
                RwLock::<T, W>::lock_block_read,
                (lock, handle),
                attempt,
            ) && attempt is Retry
                ==> (*final(lock))@.sync_read.contains(handle),
        forall|lock: &mut RwLock<T, W>, attempt: Attempt<ReadGuard>| #[trigger]
            call_ensures(
                RwLock::<T, W>::lock_async_read,
                (lock, handle),
                attempt,
            ) && attempt is Retry
                ==> (*final(lock))@.async_read.contains(handle),
        forall|lock: &mut RwLock<T, W>, attempt: Attempt<WriteGuard<T>>| #[trigger]
            call_ensures(
                RwLock::<T, W>::lock_block_write,
                (lock, handle),
                attempt,
            ) && attempt is Retry
                ==> (*final(lock))@.sync_write.contains(handle),
        forall|lock: &mut RwLock<T, W>, attempt: Attempt<WriteGuard<T>>| #[trigger]
            call_ensures(
                RwLock::<T, W>::lock_async_read_write,
                (lock, handle),
                attempt,
            ) && attempt is Retry
                ==> (*final(lock))@.async_write.contains(handle),
{
    law_refused_readers_queue::<T, W>(strategy, handle);
    law_refused_writers_queue::<T, W>(strategy, handle);
    law_leaving_readers_wake_writers::<T, W>(reader);
    law_leaving_writers_wake_everybody::<T, W>(writer);
    assert forall|lock: &mut RwLock<T, W>, result: Result<ReadGuard, NotAvailable>| #[trigger]
        call_ensures(RwLock::<T, W>::try_lock_read, (lock,), result) implies covers(
        (*lock)@,
        Seq::empty(),
        (*final(lock))@,
        queued,
    ) by {
        lemma_covers((*lock)@, Seq::empty(), (*final(lock))@, handle, queued);
    }
    assert forall|lock: &mut RwLock<T, W>, attempt: Attempt<ReadGuard>| #[trigger]
        call_ensures(RwLock::<T, W>::lock_spin_read, (lock,), attempt) implies covers(
        (*lock)@,
        Seq::empty(),
        (*final(lock))@,
        queued,
    ) by {
        lemma_covers((*lock)@, Seq::empty(), (*final(lock))@, handle, queued);
    }
    assert forall|lock: &mut RwLock<T, W>, attempt: Attempt<ReadGuard>| #[trigger]
        call_ensures(RwLock::<T, W>::lock_block_read, (lock, handle), attempt) implies covers(
        (*lock)@,
        Seq::empty(),
        (*final(lock))@,
        queued,
    ) by {
        lemma_covers((*lock)@, Seq::empty(), (*final(lock))@, handle, queued);
    }
    assert forall|lock: &mut RwLock<T, W>, attempt: Attempt<ReadGuard>| #[trigger]
        call_ensures(
            RwLock::<T, W>::lock_sync_read,
            (lock, strategy, handle),
            attempt,
        ) implies covers(
        (*lock)@,
        Seq::empty(),
        (*final(lock))@,
        queued,
    ) by {
        lemma_covers((*lock)@, Seq::empty(), (*final(lock))@, handle, queued);
    }
    assert forall|lock: &mut RwLock<T, W>, attempt: Attempt<ReadGuard>| #[trigger]
        call_ensures(RwLock::<T, W>::lock_async_read, (lock, handle), attempt) implies covers(
        (*lock)@,
        Seq::empty(),
        (*final(lock))@,
        queued,
    ) by {
        lemma_covers((*lock)@, Seq::empty(), (*final(lock))@, handle, queued);
    }
    assert forall|lock: &mut RwLock<T, W>, result: Result<WriteGuard<T>, NotAvailable>| #[trigger]
        call_ensures(RwLock::<T, W>::try_lock_write, (lock,), result) implies covers(
        (*lock)@,
        Seq::empty(),
        (*final(lock))@,
        queued,
    ) by {
        lemma_covers((*lock)@, Seq::empty(), (*final(lock))@, handle, queued);
    }
    assert forall|lock: &mut RwLock<T, W>, attempt: Attempt<WriteGuard<T>>| #[trigger]
        call_ensures(RwLock::<T, W>::lock_spin_write, (lock,), attempt) implies covers(
        (*lock)@,
        Seq::empty(),
        (*final(lock))@,
        queued,
    ) by {
        lemma_covers((*lock)@, Seq::empty(), (*final(lock))@, handle, queued);
    }
    assert forall|lock: &mut RwLock<T, W>, attempt: Attempt<WriteGuard<T>>| #[trigger]
        call_ensures(RwLock::<T, W>::lock_block_write, (lock, handle), attempt) implies covers(
        (*lock)@,
        Seq::empty(),
        (*final(lock))@,
        queued,
    ) by {
        lemma_covers((*lock)@, Seq::empty(), (*final(lock))@, handle, queued);
    }
    assert forall|lock: &mut RwLock<T, W>, attempt: Attempt<WriteGuard<T>>| #[trigger]
        call_ensures(
            RwLock::<T, W>::lock_sync_write,
            (lock, strategy, handle),
            attempt,
        ) implies covers(
        (*lock)@,
        Seq::empty(),
        (*final(lock))@,
        queued,
    ) by {
        lemma_covers((*lock)@, Seq::empty(), (*final(lock))@, handle, queued);
    }
    assert forall|lock: &mut RwLock<T, W>, attempt: Attempt<WriteGuard<T>>| #[trigger]
        call_ensures(RwLock::<T, W>::lock_async_read_write, (lock, handle), attempt) implies covers(
        (*lock)@,
        Seq::empty(),
        (*final(lock))@,
        queued,
    ) by {
        lemma_covers((*lock)@, Seq::empty(), (*final(lock))@, handle, queued);
    }
    assert forall|lock: &mut RwLock<T, W>, unit: ()| #[trigger]
        call_ensures(
            RwLock::<T, W>::release_read,
            (lock, reader),
            unit,
        ) && (*lock)@.word > 0 implies covers(
        (*lock)@,
        Seq::empty(),
        (*final(lock))@,
        queued,
    ) by {
        lemma_covers((*lock)@, Seq::empty(), (*final(lock))@, handle, queued);
    }
    assert forall|lock: &mut RwLock<T, W>, unit: ()| #[trigger]
        call_ensures(RwLock::<T, W>::release_write, (lock, writer), unit) implies covers(
        (*lock)@,
        Seq::empty(),
        (*final(lock))@,
        queued,
    ) by {
        lemma_covers((*lock)@, Seq::empty(), (*final(lock))@, handle, queued);
    }
    assert forall|lock: &mut RwLock<T, W>, wakes: Vec<W>| #[trigger]
        call_ensures(RwLock::<T, W>::did_unlock_read, (lock,), wakes) implies covers(
        (*lock)@,
        wakes@,
        (*final(lock))@,
        queued,
    ) by {
        lemma_covers((*lock)@, wakes@, (*final(lock))@, handle, queued);
    }
    assert forall|lock: &mut RwLock<T, W>, wakes: Vec<W>| #[trigger]
        call_ensures(RwLock::<T, W>::did_unlock_write, (lock,), wakes) implies covers(
        (*lock)@,
        wakes@,
        (*final(lock))@,
        queued,
    ) by {
        lemma_covers((*lock)@, wakes@, (*final(lock))@, handle, queued);
    }
    assert forall|lock: &mut RwLock<T, W>, wakes: Vec<W>| #[trigger]
        call_ensures(
            ReadGuard::drop::<T, W>,
            (reader, lock),
            wakes,
        ) && (*lock)@.word > 0 implies covers(
        (*lock)@,
        wakes@,
        (*final(lock))@,
        queued,
    ) by {
        lemma_covers((*lock)@, wakes@, (*final(lock))@, handle, queued);
    }
    assert forall|lock: &mut RwLock<T, W>, wakes: Vec<W>| #[trigger]
        call_ensures(WriteGuard::<T>::drop::<W>, (writer, lock), wakes) implies covers(
        (*lock)@,
        wakes@,
        (*final(lock))@,
        queued,
    ) by {
        lemma_covers((*lock)@, wakes@, (*final(lock))@, handle, queued);
    }
    assert forall|lock: &mut RwLock<T, W>, attempt: Attempt<ReadGuard>| #[trigger]
        call_ensures(RwLock::<T, W>::lock_block_read, (lock, handle), attempt)
            && attempt is Retry implies (*final(lock))@.sync_read.contains(handle) by {
        assert((*final(lock))@.sync_read.last() == handle);
    }
    assert forall|lock: &mut RwLock<T, W>, attempt: Attempt<ReadGuard>| #[trigger]
        call_ensures(RwLock::<T, W>::lock_async_read, (lock, handle), attempt)
            && attempt is Retry implies (*final(lock))@.async_read.contains(handle) by {
        assert((*final(lock))@.async_read.last() == handle);
    }
    assert forall|lock: &mut RwLock<T, W>, attempt: Attempt<WriteGuard<T>>| #[trigger]
        call_ensures(RwLock::<T, W>::lock_block_write, (lock, handle), attempt)
            && attempt is Retry implies (*final(lock))@.sync_write.contains(handle) by {
        assert((*final(lock))@.sync_write.last() == handle);
    }
    assert forall|lock: &mut RwLock<T, W>, attempt: Attempt<WriteGuard<T>>| #[trigger]
        call_ensures(RwLock::<T, W>::lock_async_read_write, (lock, handle), attempt)
            && attempt is Retry implies (*final(lock))@.async_write.contains(handle) by {
        assert((*final(lock))@.async_write.last() == handle);
    }
}

proof fn lemma_pushed<W>(before: Seq<W>, after: Seq<W>, handle: W, queued: W)
    requires
        after == before || after == before.push(handle),
    ensures
        before.contains(queued) ==> after.contains(queued),
{
    if before.contains(queued) {
        let at = choose|i: int| 0 <= i < before.len() && before[i] == queued;
        assert(after[at] == queued);
    }
}

proof fn lemma_within<W>(front: Seq<W>, queue: Seq<W>, back: Seq<W>, queued: W)
    ensures
        queue.contains(queued) ==> (front + queue + back).contains(queued),
{
    if queue.contains(queued) {
        let at = choose|i: int| 0 <= i < queue.len() && queue[i] == queued;
        assert((front + queue + back)[front.len() + at] == queued);
    }
}

proof fn lemma_covers<T, W>(
    before: RwLockView<T, W>,
    wakes: Seq<W>,
    after: RwLockView<T, W>,
    handle: W,
    queued: W,
)
    requires
        ({
            ||| wakes_writers(before, wakes, after)
            ||| wakes_everybody(before, wakes, after)
            ||| {
                &&& after.sync_read == before.sync_read || after.sync_read
                    == before.sync_read.push(handle)
                &&& after.async_read == before.async_read || after.async_read
                    == before.async_read.push(handle)
                &&& after.sync_write == before.sync_write || after.sync_write
                    == before.sync_write.push(handle)
                &&& after.async_write == before.async_write || after.async_write
                    == before.async_write.push(handle)
            }
        }),
    ensures
        covers(before, wakes, after, queued),
{
    let none = Seq::<W>::empty();
    let readers = before.sync_read + before.async_read;
    let writers = before.sync_write + before.async_write;
    if wakes_writers(before, wakes, after) {
        lemma_within(none, before.sync_write, before.async_write, queued);
        lemma_within(before.sync_write, before.async_write, none, queued);
        assert(wakes =~= none + before.sync_write + before.async_write);
        assert(wakes =~= before.sync_write + before.async_write + none);
    } else if wakes_everybody(before, wakes, after) {
        lemma_within(none, before.sync_read, before.async_read + writers, queued);
        lemma_within(before.sync_read, before.async_read, writers, queued);
        lemma_within(readers, before.sync_write, before.async_write, queued);
        lemma_within(readers + before.sync_write, before.async_write, none, queued);
        assert(wakes =~= none + before.sync_read + (before.async_read + writers));
        assert(wakes =~= before.sync_read + before.async_read + writers);
        assert(wakes =~= readers + before.sync_write + before.async_write);
        assert(wakes =~= readers + before.sync_write + before.async_write + none);
    } else {
        lemma_pushed(before.sync_read, after.sync_read, handle, queued);
        lemma_pushed(before.async_read, after.async_read, handle, queued);
        lemma_pushed(before.sync_write, after.sync_write, handle, queued);
        lemma_pushed(before.async_write, after.async_write, handle, queued);
    }
}

/// Whether a handle is in one of the four queues.
pub open spec fn is_queued<T, W>(lock: RwLockView<T, W>, queued: W) -> bool {
    ||| lock.sync_read.contains(queued)
    ||| lock.async_read.contains(queued)
    ||| lock.sync_write.contains(queued)
    ||| lock.async_write.contains(queued)
}

/// Over any run of calls, none of which drops anybody, a handle that was in a queue is
/// returned by one of them to be woken, or still queued.
pub proof fn law_queued_until_woken<T, W>(
    locks: Seq<RwLockView<T, W>>,
    wakes: Seq<Seq<W>>,
    queued: W,
)
    requires
        locks.len() == wakes.len() + 1,
        forall|i: int|
            0 <= i < wakes.len() ==> covers(locks[i], #[trigger] wakes[i], locks[i + 1], queued),
        is_queued(locks.first(), queued),
    ensures
        ({
            ||| exists|i: int| 0 <= i < wakes.len() && (#[trigger] wakes[i]).contains(queued)
            ||| is_queued(locks.last(), queued)
        }),
    decreases wakes.len(),
{
    if wakes.len() > 0 {
        let last = wakes.len() - 1;
        let earlier = wakes.drop_last();
        assert forall|i: int| 0 <= i < earlier.len() implies covers(
            locks.drop_last()[i],
            #[trigger] earlier[i],
            locks.drop_last()[i + 1],
            queued,
        ) by {
            assert(earlier[i] == wakes[i]);
        }
        law_queued_until_woken(locks.drop_last(), earlier, queued);
        assert(covers(locks[last], wakes[last], locks.last(), queued));
        if exists|i: int| 0 <= i < earlier.len() && (#[trigger] earlier[i]).contains(queued) {
            let i = choose|i: int|
                0 <= i < earlier.len() && (#[trigger] earlier[i]).contains(queued);
            assert(wakes[i].contains(queued));
        }
    }
}

/// Guards show the data of the lock: a reader those that are in it, a writer those that it
/// has, which take what is written into them.
pub proof fn law_guards_show_the_data<T, W>(
    reader: ReadGuard,
    lock: RwLock<T, W>,
    writer: WriteGuard<T>,
)
    ensures
        forall|data: &T| #[trigger]
            call_ensures(ReadGuard::deref::<T, W>, (&reader, &lock), data) ==> lock@.data == Some(
                *data,
            ),
        forall|data: &T| #[trigger]
            call_ensures(<WriteGuard<T> as std::ops::Deref>::deref, (&writer,), data) ==> *data
                == writer@,
        forall|held: &mut WriteGuard<T>, data: &mut T| #[trigger]
            call_ensures(<WriteGuard<T> as std::ops::DerefMut>::deref_mut, (held,), data) ==> {
                &&& *data == (*held)@
                &&& (*final(held))@ == *final(data)
                &&& (*final(held)).id() == (*held).id()
            },
        forall|full: bool| #[trigger]
            call_ensures(RwLock::<T, W>::is_full, (&lock,), full) ==> full == (lock@.word == 127),
{
}

/// The text of a lock is that of its data, unless a writer has them; showing it changes
/// neither the data nor the count, and drops nobody who is queued.
pub proof fn law_locks_show_their_text<T: std::fmt::Display, W>()
    ensures
        forall|lock: &mut RwLock<T, W>, shown: (String, Vec<W>)| #[trigger]
            call_ensures(RwLock::<T, W>::fmt, (lock,), shown) && (*lock).consistent()
                && (*lock)@.word != 127 ==> {
                let before = (*lock)@;
                let after = (*final(lock))@;
                &&& after.word == before.word
                &&& after.data == before.data
                &&& after.id == before.id
                &&& match before.data {
                    Some(data) => {
                        &&& vstd::string::to_string_from_display_ensures(&data, shown.0)
                        &&& wakes_writers(before, shown.1@, after)
                    },
                    None => {
                        &&& shown.0@ == "Mutex { <locked> }"@
                        &&& shown.1@.len() == 0
                        &&& all_queues_stay(before, after)
                    },
                }
            },
        forall|text: &'static str| #[trigger]
            call_ensures(crate::rwlock::locked_text, (), text) ==> text@ == "Mutex { <locked> }"@,
{
}

/// A lock can be called at any time, with room for one more reader where a reader may come
/// in, and takes any guard back that came from it.
pub proof fn law_rwlock_accepts_every_call<T, W>(
    strategy: Strategy,
    handle: W,
    reader: ReadGuard,
    writer: WriteGuard<T>,
)
    ensures
        forall|value: T| #[trigger] call_requires(RwLock::<T, W>::new, (value,)),
        forall|lock: &mut RwLock<T, W>| #[trigger]
            lock.consistent() ==> {
                &&& call_requires(RwLock::<T, W>::try_lock_write, (lock,))
                &&& call_requires(RwLock::<T, W>::lock_spin_write, (lock,))
                &&& call_requires(RwLock::<T, W>::lock_block_write, (lock, handle))
                &&& call_requires(RwLock::<T, W>::lock_sync_write, (lock, strategy, handle))
                &&& call_requires(RwLock::<T, W>::lock_async_read_write, (lock, handle))
                &&& call_requires(RwLock::<T, W>::did_unlock_read, (lock,))
                &&& call_requires(RwLock::<T, W>::did_unlock_write, (lock,))
                &&& (*lock)@.word != 127 ==> {
                    &&& call_requires(RwLock::<T, W>::try_lock_read, (lock,))
                    &&& call_requires(RwLock::<T, W>::lock_spin_read, (lock,))
                    &&& call_requires(RwLock::<T, W>::lock_block_read, (lock, handle))
                    &&& call_requires(RwLock::<T, W>::lock_sync_read, (lock, strategy, handle))
                    &&& call_requires(RwLock::<T, W>::lock_async_read, (lock, handle))
                }
                &&& 0 < (*lock)@.word < 128 && reader.id() == (*lock)@.id ==> {
                    &&& call_requires(RwLock::<T, W>::release_read, (lock, reader))
                    &&& call_requires(ReadGuard::drop::<T, W>, (reader, lock))
                }
                &&& (*lock)@.word == 128 && writer.id() == (*lock)@.id ==> {
                    &&& call_requires(RwLock::<T, W>::release_write, (lock, writer))
                    &&& call_requires(WriteGuard::<T>::drop::<W>, (writer, lock))
                }
            },
        forall|lock: RwLock<T, W>|
            lock.consistent() && 0 < lock@.word < 128 && reader.id() == lock@.id
                ==> #[trigger] call_requires(ReadGuard::deref::<T, W>, (&reader, &lock)),
{
}

/// A lock can be called again after every call.
pub proof fn law_rwlock_stays_consistent<T, W>(
    strategy: Strategy,
    handle: W,
    reader: ReadGuard,
    writer: WriteGuard<T>,
)
    ensures
        forall|lock: &mut RwLock<T, W>, result: Result<ReadGuard, NotAvailable>| #[trigger]
            call_ensures(
                RwLock::<T, W>::try_lock_read,
                (lock,),
                result,
            ) ==> (*final(lock)).consistent(),
        forall|lock: &mut RwLock<T, W>, attempt: Attempt<ReadGuard>| #[trigger]
            call_ensures(
                RwLock::<T, W>::lock_spin_read,
                (lock,),
                attempt,
            ) ==> (*final(lock)).consistent(),
        forall|lock: &mut RwLock<T, W>, attempt: Attempt<ReadGuard>| #[trigger]
            call_ensures(
                RwLock::<T, W>::lock_block_read,
                (lock, handle),
                attempt,
            ) ==> (*final(lock)).consistent(),
        forall|lock: &mut RwLock<T, W>, attempt: Attempt<ReadGuard>| #[trigger]
            call_ensures(
                RwLock::<T, W>::lock_sync_read,
                (lock, strategy, handle),
                attempt,
            ) ==> (*final(lock)).consistent(),
        forall|lock: &mut RwLock<T, W>, attempt: Attempt<ReadGuard>| #[trigger]
            call_ensures(
                RwLock::<T, W>::lock_async_read,
                (lock, handle),
                attempt,
            ) ==> (*final(lock)).consistent(),
        forall|lock: &mut RwLock<T, W>, result: Result<WriteGuard<T>, NotAvailable>| #[trigger]
            call_ensures(
                RwLock::<T, W>::try_lock_write,
                (lock,),
                result,
            ) ==> (*final(lock)).consistent(),
        forall|lock: &mut RwLock<T, W>, attempt: Attempt<WriteGuard<T>>| #[trigger]
            call_ensures(
                RwLock::<T, W>::lock_spin_write,
                (lock,),
                attempt,
            ) ==> (*final(lock)).consistent(),
        forall|lock: &mut RwLock<T, W>, attempt: Attempt<WriteGuard<T>>| #[trigger]
            call_ensures(
                RwLock::<T, W>::lock_block_write,
                (lock, handle),
                attempt,
            ) ==> (*final(lock)).consistent(),
        forall|lock: &mut RwLock<T, W>, attempt: Attempt<WriteGuard<T>>| #[trigger]
            call_ensures(
                RwLock::<T, W>::lock_sync_write,
                (lock, strategy, handle),
                attempt,
            ) ==> (*final(lock)).consistent(),
        forall|lock: &mut RwLock<T, W>, attempt: Attempt<WriteGuard<T>>| #[trigger]
            call_ensures(
                RwLock::<T, W>::lock_async_read_write,
                (lock, handle),
                attempt,
            ) ==> (*final(lock)).consistent(),
        forall|lock: &mut RwLock<T, W>, unit: ()| #[trigger]
            call_ensures(
                RwLock::<T, W>::release_read,
                (lock, reader),
                unit,
            ) ==> (*final(lock)).consistent(),
        forall|lock: &mut RwLock<T, W>, unit: ()| #[trigger]
            call_ensures(
                RwLock::<T, W>::release_write,
                (lock, writer),
                unit,
            ) ==> (*final(lock)).consistent(),
        forall|lock: &mut RwLock<T, W>, wakes: Vec<W>| #[trigger]
            call_ensures(
                RwLock::<T, W>::did_unlock_read,
                (lock,),
                wakes,
            ) ==> (*final(lock)).consistent(),
        forall|lock: &mut RwLock<T, W>, wakes: Vec<W>| #[trigger]
            call_ensures(
                RwLock::<T, W>::did_unlock_write,
                (lock,),
                wakes,
            ) ==> (*final(lock)).consistent(),
        forall|lock: &mut RwLock<T, W>, wakes: Vec<W>| #[trigger]
            call_ensures(
                ReadGuard::drop::<T, W>,
                (reader, lock),
                wakes,
            ) ==> (*final(lock)).consistent(),
        forall|lock: &mut RwLock<T, W>, wakes: Vec<W>| #[trigger]
            call_ensures(
                WriteGuard::<T>::drop::<W>,
                (writer, lock),
                wakes,
            ) ==> (*final(lock)).consistent(),
{
}

} // verus!
