//! What the calls of the smaller parts do: the spinlock, the waiting lists, the ids of
//! waiters, and what the platform allows.

use vstd::prelude::*;

use super::condvar_calls::{is_on, leaves};
use crate::platform::{sync_strategy, time_left, Strategy};
use crate::spinlock::Spinlock;
use crate::waiter::{
    lemma_first_place, listed, position, remove_first, take_all, Waiter, WaiterIds,
};

verus! {

/// A new spinlock is open and holds its data. Whoever knocks gets in exactly if nobody is
/// inside, and the data stay as they are; whoever leaves opens it again.
pub proof fn law_spinlock_door<T>()
    ensures
        forall|data: T, lock: Spinlock<T>| #[trigger]
            call_ensures(Spinlock::<T>::new, (data,), lock) ==> lock@ == data && !lock.is_locked(),
        forall|lock: &mut Spinlock<T>, entered: bool| #[trigger]
            call_ensures(Spinlock::<T>::try_enter, (lock,), entered) ==> {
                &&& entered == !(*lock).is_locked()
                &&& (*final(lock)).is_locked()
                &&& (*final(lock))@ == (*lock)@
            },
        forall|lock: &mut Spinlock<T>, unit: ()| #[trigger]
            call_ensures(Spinlock::<T>::leave, (lock,), unit) ==> {
                &&& !(*final(lock)).is_locked()
                &&& (*final(lock))@ == (*lock)@
            },
        forall|lock: &mut Spinlock<T>| #[trigger]
            call_requires(Spinlock::<T>::try_enter, (lock,)),
        forall|lock: &mut Spinlock<T>|
            (*lock).is_locked() ==> #[trigger] call_requires(Spinlock::<T>::leave, (lock,)),
{
}

/// A section runs its closure once, on the data of the lock, leaves in it what the closure
/// made of them, returns what the closure returned, and leaves the lock open.
pub proof fn law_spinlock_sections<T, F: FnOnce(&mut T) -> R, R>(f: F)
    ensures
        forall|lock: &mut Spinlock<T>, result: R| #[trigger]
            call_ensures(Spinlock::<T>::with_mut::<F, R>, (lock, f), result) ==> {
                &&& !(*final(lock)).is_locked()
                &&& exists|data: &mut T|
                    {
                        &&& *data == (*lock)@
                        &&& *final(data) == (*final(lock))@
                        &&& #[trigger] call_ensures(f, (data,), result)
                    }
            },
        forall|lock: &mut Spinlock<T>|
            !(*lock).is_locked() && (forall|data: &mut T|
                *data == (*lock)@ ==> call_requires(f, (data,))) ==> #[trigger] call_requires(
                Spinlock::<T>::with_mut::<F, R>,
                (lock, f),
            ),
{
}

/// Looking for an id finds the oldest entry with it, and taking it off leaves all others in
/// order. Taking everything leaves nothing.
pub proof fn law_waiting_lists<W>(list: Vec<Waiter<W>>, id: u64)
    ensures
        forall|place: Option<usize>| #[trigger]
            call_ensures(position::<W>, (&list, id), place) ==> match place {
                Some(at) => {
                    &&& at < list@.len()
                    &&& list@[at as int].id == id
                    &&& forall|i: int| 0 <= i < at ==> (#[trigger] list@[i]).id != id
                },
                None => !is_on(list@, id),
            },
        forall|entries: &mut Vec<Waiter<W>>, removed: Option<Waiter<W>>| #[trigger]
            call_ensures(remove_first::<W>, (entries, id), removed) ==> leaves(
                (*entries)@,
                id,
                removed,
                (*final(entries))@,
            ),
        forall|entries: &mut Vec<W>, taken: Vec<W>| #[trigger]
            call_ensures(take_all::<W>, (entries,), taken) ==> {
                &&& taken@ == (*entries)@
                &&& (*final(entries))@.len() == 0
            },
{
    assert forall|entries: &mut Vec<Waiter<W>>, removed: Option<Waiter<W>>| #[trigger]
        call_ensures(remove_first::<W>, (entries, id), removed) implies leaves(
        (*entries)@,
        id,
        removed,
        (*final(entries))@,
    ) by {
        let before = (*entries)@;
        if listed(before, id) {
            lemma_first_place(before, id);
        }
    }
}

/// Ids are drawn one after another from zero on, and after the largest from zero again: the
/// next draw from where a draw left off gives the next id.
pub proof fn law_ids_count_up()
    ensures
        forall|fresh: WaiterIds, ids: &mut WaiterIds, id: u64|
            {
                &&& #[trigger] call_ensures(WaiterIds::new, (), fresh)
                &&& #[trigger] call_ensures(WaiterIds::fetch_add, (ids,), id)
                &&& *ids == fresh
            } ==> id == 0,
        forall|ids: &mut WaiterIds, id: u64, later: &mut WaiterIds, next: u64|
            {
                &&& #[trigger] call_ensures(WaiterIds::fetch_add, (ids,), id)
                &&& #[trigger] call_ensures(WaiterIds::fetch_add, (later,), next)
                &&& *later == *final(ids)
            } ==> next == if id < u64::MAX {
                id + 1
            } else {
                0
            },
{
}

/// Only a thread of a browser that cannot wait spins.
pub proof fn law_only_browsers_spin(wasm: bool, atomics_wait: bool, strategy: Strategy)
    requires
        call_ensures(sync_strategy, (wasm, atomics_wait), strategy),
    ensures
        strategy == Strategy::Spin <==> wasm && !atomics_wait,
{
}

/// Resting for the time left ends at the deadline; none is left once it has passed.
pub proof fn law_time_left_ends_at_the_deadline(deadline: u64, now: u64, left: u64)
    requires
        call_ensures(time_left, (deadline, now), left),
    ensures
        now < deadline ==> now + left == deadline,
        now >= deadline ==> left == 0,
{
}

} // verus!
