//! What the calls of a mutex and its guard do to the data and to the two queues.

use vstd::prelude::*;

use crate::guard::Guard;
use crate::mutex::{Attempt, Mutex, MutexView, NotAvailable, TimedAttempt};
use crate::platform::{Pause, Strategy};

verus! {

/// Whether an attempt treats the data rightly: it gets the data if they are there, in a
/// guard of this mutex, and leaves them out; if they are not there, it gets nothing.
pub open spec fn takes_what_is_there<T, W>(
    before: MutexView<T, W>,
    got: Option<Guard<T>>,
    after: MutexView<T, W>,
) -> bool {
    &&& after.id == before.id
    &&& after.data is None
    &&& match (before.data, got) {
        (Some(data), Some(guard)) => guard@ == data && guard.id() == before.id,
        (None, None) => true,
        _ => false,
    }
}

/// Whether nobody joins or leaves the queues.
pub open spec fn queues_stay<T, W>(before: MutexView<T, W>, after: MutexView<T, W>) -> bool {
    after.sync == before.sync && after.tasks == before.tasks
}

/// The guard in the outcome of an attempt.
pub open spec fn guard_of<G>(attempt: Attempt<G>) -> Option<G> {
    match attempt {
        Attempt::Acquired(guard) => Some(guard),
        Attempt::Retry(_) => None,
    }
}

/// Whether everybody who was queued before, and nobody else, is to be woken or is still
/// queued: threads as threads, tasks as tasks, and each in its turn.
pub open spec fn nobody_is_dropped<T, W>(
    before: MutexView<T, W>,
    wakes: Seq<W>,
    after: MutexView<T, W>,
) -> bool {
    ||| wakes.len() == 0 && queues_stay(before, after)
    ||| {
        &&& wakes == before.sync + before.tasks
        &&& after.sync.len() == 0
        &&& after.tasks.len() == 0
    }
}

/// A new mutex holds its value, and nobody is queued for it.
pub proof fn law_new_mutex<T, W>(value: T, mutex: Mutex<T, W>)
    requires
        call_ensures(Mutex::<T, W>::new, (value,), mutex),
    ensures
        mutex.wf(),
        mutex@.data == Some(value),
        mutex@.sync.len() == 0,
        mutex@.tasks.len() == 0,
{
}

/// Every attempt, however it waits, takes the data exactly if no guard has them.
pub proof fn law_attempts_take_what_is_there<T, W>(
    strategy: Strategy,
    handle: W,
    now: u64,
    deadline: u64,
)
    ensures
        forall|mutex: &mut Mutex<T, W>, result: Result<Guard<T>, NotAvailable>| #[trigger]
            call_ensures(Mutex::<T, W>::try_lock, (mutex,), result) ==> takes_what_is_there(
                (*mutex)@,
                match result {
                    Ok(guard) => Some(guard),
                    Err(_) => None,
                },
                (*final(mutex))@,
            ),
        forall|mutex: &mut Mutex<T, W>, attempt: Attempt<Guard<T>>| #[trigger]
            call_ensures(Mutex::<T, W>::lock_spin, (mutex,), attempt) ==> takes_what_is_there(
                (*mutex)@,
                guard_of(attempt),
                (*final(mutex))@,
            ),
        forall|mutex: &mut Mutex<T, W>, attempt: Attempt<Guard<T>>| #[trigger]
            call_ensures(Mutex::<T, W>::lock_block, (mutex, handle), attempt)
                ==> takes_what_is_there((*mutex)@, guard_of(attempt), (*final(mutex))@),
        forall|mutex: &mut Mutex<T, W>, attempt: Attempt<Guard<T>>| #[trigger]
            call_ensures(Mutex::<T, W>::lock_sync, (mutex, strategy, handle), attempt)
                ==> takes_what_is_there((*mutex)@, guard_of(attempt), (*final(mutex))@),
        forall|mutex: &mut Mutex<T, W>, attempt: Attempt<Guard<T>>| #[trigger]
            call_ensures(Mutex::<T, W>::lock_async, (mutex, handle), attempt)
                ==> takes_what_is_there((*mutex)@, guard_of(attempt), (*final(mutex))@),
        forall|mutex: &mut Mutex<T, W>, attempt: TimedAttempt<Guard<T>>| #[trigger]
            call_ensures(Mutex::<T, W>::lock_block_timeout, (mutex, handle, now, deadline), attempt)
                ==> takes_what_is_there(
                (*mutex)@,
                match attempt {
                    TimedAttempt::Acquired(guard) => Some(guard),
                    _ => None,
                },
                (*final(mutex))@,
            ),
{
}

/// An attempt that gets nothing says how to pause, and whoever is told to park or to
/// suspend is the last in the queue of the threads or of the tasks, where the others stay
/// before it. Whoever spins, or has run out of time, is in no queue.
pub proof fn law_refused_attempts_queue<T, W>(
    strategy: Strategy,
    handle: W,
    now: u64,
    deadline: u64,
)
    ensures
        forall|mutex: &mut Mutex<T, W>, result: Result<Guard<T>, NotAvailable>| #[trigger]
            call_ensures(Mutex::<T, W>::try_lock, (mutex,), result) ==> queues_stay(
                (*mutex)@,
                (*final(mutex))@,
            ),
        forall|mutex: &mut Mutex<T, W>, attempt: Attempt<Guard<T>>| #[trigger]
            call_ensures(Mutex::<T, W>::lock_spin, (mutex,), attempt) ==> {
                &&& queues_stay((*mutex)@, (*final(mutex))@)
                &&& attempt matches Attempt::Retry(pause) ==> pause == Pause::Spin
            },
        forall|mutex: &mut Mutex<T, W>, attempt: Attempt<Guard<T>>| #[trigger]
            call_ensures(Mutex::<T, W>::lock_block, (mutex, handle), attempt) ==> {
                let before = (*mutex)@;
                let after = (*final(mutex))@;
                match attempt {
                    Attempt::Acquired(_) => queues_stay(before, after),
                    Attempt::Retry(pause) => {
                        &&& pause == Pause::Park
                        &&& after.sync == before.sync.push(handle)
                        &&& after.tasks == before.tasks
                    },
                }
            },
        forall|mutex: &mut Mutex<T, W>, attempt: Attempt<Guard<T>>| #[trigger]
            call_ensures(Mutex::<T, W>::lock_sync, (mutex, strategy, handle), attempt) ==> {
                let before = (*mutex)@;
                let after = (*final(mutex))@;
                match (attempt, strategy) {
                    (Attempt::Acquired(_), _) => queues_stay(before, after),
                    (Attempt::Retry(pause), Strategy::Block) => {
                        &&& pause == Pause::Park
                        &&& after.sync == before.sync.push(handle)
                        &&& after.tasks == before.tasks
                    },
                    (Attempt::Retry(pause), Strategy::Spin) => {
                        pause == Pause::Spin && queues_stay(before, after)
                    },
                }
            },
        forall|mutex: &mut Mutex<T, W>, attempt: Attempt<Guard<T>>| #[trigger]
            call_ensures(Mutex::<T, W>::lock_async, (mutex, handle), attempt) ==> {
                let before = (*mutex)@;
                let after = (*final(mutex))@;
                match attempt {
                    Attempt::Acquired(_) => queues_stay(before, after),
                    Attempt::Retry(pause) => {
                        &&& pause == Pause::Await
                        &&& after.sync == before.sync
                        &&& after.tasks == before.tasks.push(handle)
                    },
                }
            },
        forall|mutex: &mut Mutex<T, W>, attempt: TimedAttempt<Guard<T>>| #[trigger]
            call_ensures(Mutex::<T, W>::lock_block_timeout, (mutex, handle, now, deadline), attempt)
                ==> {
                let before = (*mutex)@;
                let after = (*final(mutex))@;
                match attempt {
                    TimedAttempt::Acquired(_) => queues_stay(before, after),
                    TimedAttempt::TimedOut => now >= deadline && queues_stay(before, after),
                    TimedAttempt::Park => {
                        &&& now < deadline
                        &&& after.sync == before.sync.push(handle)
                        &&& after.tasks == before.tasks
                    },
                }
            },
{
}

/// A guard that comes back puts its data where the next one finds them, and no call drops
/// anybody: whoever was queued is to be woken or is still queued. After `did_unlock` and
/// `drop`, everybody is to be woken.
pub proof fn law_releases_wake_everybody<T, W>(guard: Guard<T>)
    ensures
        forall|mutex: &mut Mutex<T, W>, unit: ()| #[trigger]
            call_ensures(Mutex::<T, W>::release, (mutex, guard), unit) ==> {
                &&& (*final(mutex))@.data == Some(guard@)
                &&& (*final(mutex))@.id == (*mutex)@.id
                &&& queues_stay((*mutex)@, (*final(mutex))@)
            },
        forall|mutex: &mut Mutex<T, W>, wakes: Vec<W>| #[trigger]
            call_ensures(Mutex::<T, W>::did_unlock, (mutex,), wakes) ==> {
                &&& (*final(mutex))@.data == (*mutex)@.data
                &&& (*final(mutex))@.id == (*mutex)@.id
                &&& (*final(mutex))@.sync.len() == 0 && (*final(mutex))@.tasks.len() == 0
                &&& nobody_is_dropped((*mutex)@, wakes@, (*final(mutex))@)
            },
        forall|mutex: &mut Mutex<T, W>, wakes: Vec<W>| #[trigger]
            call_ensures(Guard::<T>::drop::<W>, (guard, mutex), wakes) ==> {
                &&& (*final(mutex))@.data == Some(guard@)
                &&& (*final(mutex))@.id == (*mutex)@.id
                &&& (*final(mutex))@.sync.len() == 0 && (*final(mutex))@.tasks.len() == 0
                &&& nobody_is_dropped((*mutex)@, wakes@, (*final(mutex))@)
            },
{
}

/// Whether a handle that is in one of the two queues before is among those to be woken, or
/// still in that queue.
pub open spec fn covers<T, W>(
    before: MutexView<T, W>,
    wakes: Seq<W>,
    after: MutexView<T, W>,
    queued: W,
) -> bool {
    &&& before.sync.contains(queued) ==> wakes.contains(queued) || after.sync.contains(queued)
    &&& before.tasks.contains(queued) ==> wakes.contains(queued) || after.tasks.contains(queued)
}

/// No call drops anybody from a queue: a handle that is in one before the call is returned by
/// it to be woken, or still there. A handle that is refused with the advice to park or to
/// suspend is in a queue from then on.
pub proof fn law_no_call_drops_a_handle<T, W>(
    strategy: Strategy,
    handle: W,
    now: u64,
    deadline: u64,
    guard: Guard<T>,
    queued: W,
)
    ensures
        forall|mutex: &mut Mutex<T, W>, result: Result<Guard<T>, NotAvailable>| #[trigger]
            call_ensures(Mutex::<T, W>::try_lock, (mutex,), result) ==> covers(
                (*mutex)@,
                Seq::empty(),
                (*final(mutex))@,
                queued,
            ),
        forall|mutex: &mut Mutex<T, W>, attempt: Attempt<Guard<T>>| #[trigger]
            call_ensures(Mutex::<T, W>::lock_spin, (mutex,), attempt) ==> covers(
                (*mutex)@,
                Seq::empty(),
                (*final(mutex))@,
                queued,
            ),
        forall|mutex: &mut Mutex<T, W>, attempt: Attempt<Guard<T>>| #[trigger]
            call_ensures(Mutex::<T, W>::lock_block, (mutex, handle), attempt) ==> covers(
                (*mutex)@,
                Seq::empty(),
                (*final(mutex))@,
                queued,
            ),
        forall|mutex: &mut Mutex<T, W>, attempt: Attempt<Guard<T>>| #[trigger]
            call_ensures(Mutex::<T, W>::lock_sync, (mutex, strategy, handle), attempt) ==> covers(
                (*mutex)@,
                Seq::empty(),
                (*final(mutex))@,
                queued,
            ),
        forall|mutex: &mut Mutex<T, W>, attempt: Attempt<Guard<T>>| #[trigger]
            call_ensures(Mutex::<T, W>::lock_async, (mutex, handle), attempt) ==> covers(
                (*mutex)@,
                Seq::empty(),
                (*final(mutex))@,
                queued,
            ),
        forall|mutex: &mut Mutex<T, W>, attempt: TimedAttempt<Guard<T>>| #[trigger]
            call_ensures(
                Mutex::<T, W>::lock_block_timeout,
                (mutex, handle, now, deadline),
                attempt,
            ) ==> covers(
                (*mutex)@,
                Seq::empty(),
                (*final(mutex))@,
                queued,
            ),
        forall|mutex: &mut Mutex<T, W>, unit: ()| #[trigger]
            call_ensures(Mutex::<T, W>::release, (mutex, guard), unit) ==> covers(
                (*mutex)@,
                Seq::empty(),
                (*final(mutex))@,
                queued,
            ),
        forall|mutex: &mut Mutex<T, W>, wakes: Vec<W>| #[trigger]
            call_ensures(Mutex::<T, W>::did_unlock, (mutex,), wakes) ==> covers(
                (*mutex)@,
                wakes@,
                (*final(mutex))@,
                queued,
            ),
        forall|mutex: &mut Mutex<T, W>, wakes: Vec<W>| #[trigger]
            call_ensures(Guard::<T>::drop::<W>, (guard, mutex), wakes) ==> covers(
                (*mutex)@,
                wakes@,
                (*final(mutex))@,
                queued,
            ),
        forall|mutex: &mut Mutex<T, W>, attempt: Attempt<Guard<T>>| #[trigger]
            call_ensures(Mutex::<T, W>::lock_block, (mutex, handle), attempt) && attempt is Retry
                ==> (*final(mutex))@.sync.contains(handle),
        forall|mutex: &mut Mutex<T, W>, attempt: Attempt<Guard<T>>| #[trigger]
            call_ensures(Mutex::<T, W>::lock_async, (mutex, handle), attempt) && attempt is Retry
                ==> (*final(mutex))@.tasks.contains(handle),
        forall|mutex: &mut Mutex<T, W>, attempt: TimedAttempt<Guard<T>>| #[trigger]
            call_ensures(Mutex::<T, W>::lock_block_timeout, (mutex, handle, now, deadline), attempt)
                && attempt is Park ==> (*final(mutex))@.sync.contains(handle),
{
    assert forall|mutex: &mut Mutex<T, W>, result: Result<Guard<T>, NotAvailable>| #[trigger]
        call_ensures(Mutex::<T, W>::try_lock, (mutex,), result) implies covers(
        (*mutex)@,
        Seq::empty(),
        (*final(mutex))@,
        queued,
    ) by {
        lemma_covers((*mutex)@, Seq::empty(), (*final(mutex))@, handle, queued);
    }
    assert forall|mutex: &mut Mutex<T, W>, attempt: Attempt<Guard<T>>| #[trigger]
        call_ensures(Mutex::<T, W>::lock_spin, (mutex,), attempt) implies covers(
        (*mutex)@,
        Seq::empty(),
        (*final(mutex))@,
        queued,
    ) by {
        lemma_covers((*mutex)@, Seq::empty(), (*final(mutex))@, handle, queued);
    }
    assert forall|mutex: &mut Mutex<T, W>, attempt: Attempt<Guard<T>>| #[trigger]
        call_ensures(Mutex::<T, W>::lock_block, (mutex, handle), attempt) implies covers(
        (*mutex)@,
        Seq::empty(),
        (*final(mutex))@,
        queued,
    ) by {
        lemma_covers((*mutex)@, Seq::empty(), (*final(mutex))@, handle, queued);
    }
    assert forall|mutex: &mut Mutex<T, W>, attempt: Attempt<Guard<T>>| #[trigger]
        call_ensures(Mutex::<T, W>::lock_sync, (mutex, strategy, handle), attempt) implies covers(
        (*mutex)@,
        Seq::empty(),
        (*final(mutex))@,
        queued,
    ) by {
        lemma_covers((*mutex)@, Seq::empty(), (*final(mutex))@, handle, queued);
    }
    assert forall|mutex: &mut Mutex<T, W>, attempt: Attempt<Guard<T>>| #[trigger]
        call_ensures(Mutex::<T, W>::lock_async, (mutex, handle), attempt) implies covers(
        (*mutex)@,
        Seq::empty(),
        (*final(mutex))@,
        queued,
    ) by {
        lemma_covers((*mutex)@, Seq::empty(), (*final(mutex))@, handle, queued);
    }
    assert forall|mutex: &mut Mutex<T, W>, attempt: TimedAttempt<Guard<T>>| #[trigger]
        call_ensures(
            Mutex::<T, W>::lock_block_timeout,
            (mutex, handle, now, deadline),
            attempt,
        ) implies covers(
        (*mutex)@,
        Seq::empty(),
        (*final(mutex))@,
        queued,
    ) by {
        lemma_covers((*mutex)@, Seq::empty(), (*final(mutex))@, handle, queued);
    }
    assert forall|mutex: &mut Mutex<T, W>, unit: ()| #[trigger]
        call_ensures(Mutex::<T, W>::release, (mutex, guard), unit) implies covers(
        (*mutex)@,
        Seq::empty(),
        (*final(mutex))@,
        queued,
    ) by {
        lemma_covers((*mutex)@, Seq::empty(), (*final(mutex))@, handle, queued);
    }
    assert forall|mutex: &mut Mutex<T, W>, wakes: Vec<W>| #[trigger]
        call_ensures(Mutex::<T, W>::did_unlock, (mutex,), wakes) implies covers(
        (*mutex)@,
        wakes@,
        (*final(mutex))@,
        queued,
    ) by {
        lemma_covers((*mutex)@, wakes@, (*final(mutex))@, handle, queued);
    }
    assert forall|mutex: &mut Mutex<T, W>, wakes: Vec<W>| #[trigger]
        call_ensures(Guard::<T>::drop::<W>, (guard, mutex), wakes) implies covers(
        (*mutex)@,
        wakes@,
        (*final(mutex))@,
        queued,
    ) by {
        lemma_covers((*mutex)@, wakes@, (*final(mutex))@, handle, queued);
    }
    assert forall|mutex: &mut Mutex<T, W>, attempt: Attempt<Guard<T>>| #[trigger]
        call_ensures(Mutex::<T, W>::lock_block, (mutex, handle), attempt)
            && attempt is Retry implies (*final(mutex))@.sync.contains(handle) by {
        assert((*final(mutex))@.sync.last() == handle);
    }
    assert forall|mutex: &mut Mutex<T, W>, attempt: Attempt<Guard<T>>| #[trigger]
        call_ensures(Mutex::<T, W>::lock_async, (mutex, handle), attempt)
            && attempt is Retry implies (*final(mutex))@.tasks.contains(handle) by {
        assert((*final(mutex))@.tasks.last() == handle);
    }
    assert forall|mutex: &mut Mutex<T, W>, attempt: TimedAttempt<Guard<T>>| #[trigger]
        call_ensures(Mutex::<T, W>::lock_block_timeout, (mutex, handle, now, deadline), attempt)
            && attempt is Park implies (*final(mutex))@.sync.contains(handle) by {
        assert((*final(mutex))@.sync.last() == handle);
    }
}

proof fn lemma_covers<T, W>(
    before: MutexView<T, W>,
    wakes: Seq<W>,
    after: MutexView<T, W>,
    handle: W,
    queued: W,
)
    requires
        ({
            ||| nobody_is_dropped(before, wakes, after)
            ||| after.sync == before.sync.push(handle) && after.tasks == before.tasks
            ||| after.sync == before.sync && after.tasks == before.tasks.push(handle)
        }),
    ensures
        covers(before, wakes, after, queued),
{
    if before.sync.contains(queued) {
        let at = choose|i: int| 0 <= i < before.sync.len() && before.sync[i] == queued;
        if wakes == before.sync + before.tasks {
            assert(wakes[at] == queued);
        } else {
            assert(after.sync[at] == queued);
        }
    }
    if before.tasks.contains(queued) {
        let at = choose|i: int| 0 <= i < before.tasks.len() && before.tasks[i] == queued;
        if wakes == before.sync + before.tasks {
            assert(wakes[before.sync.len() + at] == queued);
        } else {
            assert(after.tasks[at] == queued);
        }
    }
}

/// Over any run of calls, none of which drops anybody, a handle that was in a queue is
/// returned by one of them to be woken, or still queued.
pub proof fn law_queued_until_woken<T, W>(
    mutexes: Seq<MutexView<T, W>>,
    wakes: Seq<Seq<W>>,
    queued: W,
)
    requires
        mutexes.len() == wakes.len() + 1,
        forall|i: int|
            0 <= i < wakes.len() ==> covers(
                mutexes[i],
                #[trigger] wakes[i],
                mutexes[i + 1],
                queued,
            ),
        mutexes.first().sync.contains(queued) || mutexes.first().tasks.contains(queued),
    ensures
        ({
            ||| exists|i: int| 0 <= i < wakes.len() && (#[trigger] wakes[i]).contains(queued)
            ||| mutexes.last().sync.contains(queued)
            ||| mutexes.last().tasks.contains(queued)
        }),
    decreases wakes.len(),
{
    if wakes.len() > 0 {
        let last = wakes.len() - 1;
        let earlier = wakes.drop_last();
        assert forall|i: int| 0 <= i < earlier.len() implies covers(
            mutexes.drop_last()[i],
            #[trigger] earlier[i],
            mutexes.drop_last()[i + 1],
            queued,
        ) by {
            assert(earlier[i] == wakes[i]);
        }
        law_queued_until_woken(mutexes.drop_last(), earlier, queued);
        assert(covers(mutexes[last], wakes[last], mutexes.last(), queued));
        if exists|i: int| 0 <= i < earlier.len() && (#[trigger] earlier[i]).contains(queued) {
            let i = choose|i: int|
                0 <= i < earlier.len() && (#[trigger] earlier[i]).contains(queued);
            assert(wakes[i].contains(queued));
        }
    }
}

/// A guard shows the data that it has, takes what is written into them, and stays a
/// guard of its mutex.
pub proof fn law_guards_show_their_data<T>(guard: Guard<T>)
    ensures
        forall|data: &T| #[trigger]
            call_ensures(Guard::<T>::as_ref, (&guard,), data) ==> *data == guard@,
        forall|data: &T| #[trigger]
            call_ensures(<Guard<T> as std::ops::Deref>::deref, (&guard,), data) ==> *data == guard@,
        forall|held: &mut Guard<T>, data: &mut T| #[trigger]
            call_ensures(Guard::<T>::as_mut, (held,), data) ==> {
                &&& *data == (*held)@
                &&& (*final(held))@ == *final(data)
                &&& (*final(held)).id() == (*held).id()
            },
        forall|held: &mut Guard<T>, data: &mut T| #[trigger]
            call_ensures(<Guard<T> as std::ops::DerefMut>::deref_mut, (held,), data) ==> {
                &&& *data == (*held)@
                &&& (*final(held))@ == *final(data)
                &&& (*final(held)).id() == (*held).id()
            },
{
}

/// The text of a guard is that of its data.
pub proof fn law_guards_show_their_text<T: std::fmt::Display>(guard: Guard<T>, shown: String)
    requires
        call_ensures(Guard::<T>::fmt, (&guard,), shown),
    ensures
        vstd::string::to_string_from_display_ensures(&guard@, shown),
{
}

/// A mutex can be called at any time, and takes any guard back that came from it while
/// its data are out.
pub proof fn law_mutex_accepts_every_call<T, W>(
    strategy: Strategy,
    handle: W,
    now: u64,
    deadline: u64,
    guard: Guard<T>,
)
    ensures
        forall|value: T| #[trigger] call_requires(Mutex::<T, W>::new, (value,)),
        forall|mutex: &mut Mutex<T, W>| #[trigger]
            mutex.consistent() ==> {
                &&& call_requires(Mutex::<T, W>::try_lock, (mutex,))
                &&& call_requires(Mutex::<T, W>::lock_spin, (mutex,))
                &&& call_requires(Mutex::<T, W>::lock_block, (mutex, handle))
                &&& call_requires(Mutex::<T, W>::lock_sync, (mutex, strategy, handle))
                &&& call_requires(Mutex::<T, W>::lock_async, (mutex, handle))
                &&& call_requires(
                    Mutex::<T, W>::lock_block_timeout,
                    (mutex, handle, now, deadline),
                )
                &&& call_requires(Mutex::<T, W>::did_unlock, (mutex,))
                &&& (*mutex)@.data is None && guard.id() == (*mutex)@.id ==> {
                    &&& call_requires(Mutex::<T, W>::release, (mutex, guard))
                    &&& call_requires(Guard::<T>::drop::<W>, (guard, mutex))
                }
            },
{
}

/// A mutex can be called again after every call.
pub proof fn law_mutex_stays_consistent<T, W>(
    strategy: Strategy,
    handle: W,
    now: u64,
    deadline: u64,
    guard: Guard<T>,
)
    ensures
        forall|mutex: &mut Mutex<T, W>, result: Result<Guard<T>, NotAvailable>| #[trigger]
            call_ensures(
                Mutex::<T, W>::try_lock,
                (mutex,),
                result,
            ) ==> (*final(mutex)).consistent(),
        forall|mutex: &mut Mutex<T, W>, attempt: Attempt<Guard<T>>| #[trigger]
            call_ensures(
                Mutex::<T, W>::lock_spin,
                (mutex,),
                attempt,
            ) ==> (*final(mutex)).consistent(),
        forall|mutex: &mut Mutex<T, W>, attempt: Attempt<Guard<T>>| #[trigger]
            call_ensures(
                Mutex::<T, W>::lock_block,
                (mutex, handle),
                attempt,
            ) ==> (*final(mutex)).consistent(),
        forall|mutex: &mut Mutex<T, W>, attempt: Attempt<Guard<T>>| #[trigger]
            call_ensures(Mutex::<T, W>::lock_sync, (mutex, strategy, handle), attempt)
                ==> (*final(mutex)).consistent(),
        forall|mutex: &mut Mutex<T, W>, attempt: Attempt<Guard<T>>| #[trigger]
            call_ensures(
                Mutex::<T, W>::lock_async,
                (mutex, handle),
                attempt,
            ) ==> (*final(mutex)).consistent(),
        forall|mutex: &mut Mutex<T, W>, attempt: TimedAttempt<Guard<T>>| #[trigger]
            call_ensures(Mutex::<T, W>::lock_block_timeout, (mutex, handle, now, deadline), attempt)
                ==> (*final(mutex)).consistent(),
        forall|mutex: &mut Mutex<T, W>, unit: ()| #[trigger]
            call_ensures(
                Mutex::<T, W>::release,
                (mutex, guard),
                unit,
            ) ==> (*final(mutex)).consistent(),
        forall|mutex: &mut Mutex<T, W>, wakes: Vec<W>| #[trigger]
            call_ensures(
                Mutex::<T, W>::did_unlock,
                (mutex,),
                wakes,
            ) ==> (*final(mutex)).consistent(),
        forall|mutex: &mut Mutex<T, W>, wakes: Vec<W>| #[trigger]
            call_ensures(
                Guard::<T>::drop::<W>,
                (guard, mutex),
                wakes,
            ) ==> (*final(mutex)).consistent(),
{
}

} // verus!
