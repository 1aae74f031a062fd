//! What the calls of a condition variable and of a wait do to the lists, to the mutex and
//! to the wait.

use vstd::prelude::*;

use super::mutex_calls::{queues_stay, takes_what_is_there};
use crate::condvar::wait::Wait;
use crate::condvar::wait_async::{AsyncPhase, AsyncWait, Race};
use crate::condvar::wait_block::{BlockPhase, BlockWait};
use crate::condvar::wait_spin::{SpinPhase, SpinWait};
use crate::condvar::{
    Checked, Condvar, CondvarView, Progress, Turn, WaitTimeoutResult,
};
use crate::guard::Guard;
use crate::mutex::{Mutex, MutexView};
use crate::platform::{Pause, Strategy};
use crate::waiter::{first_of, lemma_first_place, listed, without_first, Waiter};

verus! {

/// Whether an entry with this id is on the list.
pub open spec fn is_on<W>(list: Seq<Waiter<W>>, id: u64) -> bool {
    exists|i: int| 0 <= i < list.len() && (#[trigger] list[i]).id == id
}

/// Whether the oldest entry with this id was taken off the list, and all others stay. If
/// there is none, the list stays.
pub open spec fn leaves<W>(
    before: Seq<Waiter<W>>,
    id: u64,
    removed: Option<Waiter<W>>,
    after: Seq<Waiter<W>>,
) -> bool {
    match removed {
        Some(entry) => exists|at: int|
            {
                &&& 0 <= at < before.len()
                &&& #[trigger] before[at] == entry
                &&& entry.id == id
                &&& forall|i: int| 0 <= i < at ==> (#[trigger] before[i]).id != id
                &&& after == before.remove(at)
            },
        None => !is_on(before, id) && after == before,
    }
}

/// Where and how a wait waits.
pub enum Way {
    /// Spinning.
    Spin,
    /// Parked.
    Block,
    /// Suspended.
    Task,
}

/// The way of the `_sync` calls: threads that may not block spin.
pub open spec fn way_of(strategy: Strategy) -> Way {
    match strategy {
        Strategy::Block => Way::Block,
        Strategy::Spin => Way::Spin,
    }
}

/// Whether the waiter is the newest on the list of those who wait this way, where all others
/// stay as they are.
pub open spec fn joins<W>(
    before: CondvarView<W>,
    way: Way,
    waiter: Waiter<W>,
    after: CondvarView<W>,
) -> bool {
    match way {
        Way::Spin => {
            &&& after.spin == before.spin.push(waiter)
            &&& after.sync == before.sync
            &&& after.tasks == before.tasks
        },
        Way::Block => {
            &&& after.spin == before.spin
            &&& after.sync == before.sync.push(waiter)
            &&& after.tasks == before.tasks
        },
        Way::Task => {
            &&& after.spin == before.spin
            &&& after.sync == before.sync
            &&& after.tasks == before.tasks.push(waiter)
        },
    }
}

/// Whether this is a wait of that way at its start: with that id, until that deadline, with
/// the notification awaited, and the timer exactly if there is a deadline.
pub open spec fn starts(wait: Wait, way: Way, id: u64, deadline: Option<u64>) -> bool {
    match (wait, way) {
        (Wait::Spin(wait), Way::Spin) => {
            wait.id == id && wait.deadline == deadline && wait.phase == SpinPhase::Listed
        },
        (Wait::Block(wait), Way::Block) => {
            wait.id == id && wait.deadline == deadline && wait.phase == BlockPhase::Listed
        },
        (Wait::Task(wait), Way::Task) => {
            &&& wait.id == id
            &&& wait.deadline == deadline
            &&& wait.phase matches AsyncPhase::Suspended(race) && race.notify && race.timeout
                == (deadline is Some)
        },
        _ => false,
    }
}

/// Whether the mutex was released with this data and everybody who was queued for it is to
/// be woken: nobody is dropped.
pub open spec fn lets_go<T, W>(
    before: MutexView<T, W>,
    data: T,
    wakes: Seq<W>,
    after: MutexView<T, W>,
) -> bool {
    &&& after.id == before.id
    &&& after.data == Some(data)
    &&& wakes == before.sync + before.tasks
    &&& after.sync.len() == 0
    &&& after.tasks.len() == 0
}

/// Every wait, of whatever way, puts its waiter on the list of that way, lets go of the
/// mutex with the data of its guard, wakes everybody who was queued for it, and keeps its
/// deadline.
pub proof fn law_waits_begin<T, W>(
    strategy: Strategy,
    guard: Guard<T>,
    waiter: Waiter<W>,
    deadline: u64,
)
    ensures
        forall|condvar: &mut Condvar<W>, mutex: &mut Mutex<T, W>, begun: (SpinWait, Vec<W>)|
            #[trigger]
            call_ensures(Condvar::<W>::wait_spin::<T>, (condvar, mutex, guard, waiter), begun) ==> {
                &&& joins((*condvar)@, Way::Spin, waiter, (*final(condvar))@)
                &&& starts(Wait::Spin(begun.0), Way::Spin, waiter.id, None)
                &&& lets_go((*mutex)@, guard@, begun.1@, (*final(mutex))@)
                &&& (*final(condvar)).wf() && (*final(mutex)).wf()
            },
        forall|condvar: &mut Condvar<W>, mutex: &mut Mutex<T, W>, begun: (SpinWait, Vec<W>)|
            #[trigger]
            call_ensures(
                Condvar::<W>::wait_spin_until::<T>,
                (condvar, mutex, guard, waiter, deadline),
                begun,
            ) ==> {
                &&& joins((*condvar)@, Way::Spin, waiter, (*final(condvar))@)
                &&& starts(Wait::Spin(begun.0), Way::Spin, waiter.id, Some(deadline))
                &&& lets_go((*mutex)@, guard@, begun.1@, (*final(mutex))@)
                &&& (*final(condvar)).wf() && (*final(mutex)).wf()
            },
        forall|condvar: &mut Condvar<W>, mutex: &mut Mutex<T, W>, begun: (BlockWait, Vec<W>)|
            #[trigger]
            call_ensures(
                Condvar::<W>::wait_block::<T>,
                (condvar, mutex, guard, waiter),
                begun,
            ) ==> {
                &&& joins((*condvar)@, Way::Block, waiter, (*final(condvar))@)
                &&& starts(Wait::Block(begun.0), Way::Block, waiter.id, None)
                &&& lets_go((*mutex)@, guard@, begun.1@, (*final(mutex))@)
                &&& (*final(condvar)).wf() && (*final(mutex)).wf()
            },
        forall|condvar: &mut Condvar<W>, mutex: &mut Mutex<T, W>, begun: (BlockWait, Vec<W>)|
            #[trigger]
            call_ensures(
                Condvar::<W>::wait_block_until::<T>,
                (condvar, mutex, guard, waiter, deadline),
                begun,
            ) ==> {
                &&& joins((*condvar)@, Way::Block, waiter, (*final(condvar))@)
                &&& starts(Wait::Block(begun.0), Way::Block, waiter.id, Some(deadline))
                &&& lets_go((*mutex)@, guard@, begun.1@, (*final(mutex))@)
                &&& (*final(condvar)).wf() && (*final(mutex)).wf()
            },
        forall|condvar: &mut Condvar<W>, mutex: &mut Mutex<T, W>, begun: (AsyncWait, Vec<W>)|
            #[trigger]
            call_ensures(
                Condvar::<W>::wait_async::<T>,
                (condvar, mutex, guard, waiter),
                begun,
            ) ==> {
                &&& joins((*condvar)@, Way::Task, waiter, (*final(condvar))@)
                &&& starts(Wait::Task(begun.0), Way::Task, waiter.id, None)
                &&& lets_go((*mutex)@, guard@, begun.1@, (*final(mutex))@)
                &&& (*final(condvar)).wf() && (*final(mutex)).wf()
            },
        forall|condvar: &mut Condvar<W>, mutex: &mut Mutex<T, W>, begun: (AsyncWait, Vec<W>)|
            #[trigger]
            call_ensures(
                Condvar::<W>::wait_async_until::<T>,
                (condvar, mutex, guard, waiter, deadline),
                begun,
            ) ==> {
                &&& joins((*condvar)@, Way::Task, waiter, (*final(condvar))@)
                &&& starts(Wait::Task(begun.0), Way::Task, waiter.id, Some(deadline))
                &&& lets_go((*mutex)@, guard@, begun.1@, (*final(mutex))@)
                &&& (*final(condvar)).wf() && (*final(mutex)).wf()
            },
        forall|condvar: &mut Condvar<W>, mutex: &mut Mutex<T, W>, begun: (Wait, Vec<W>)|
            #[trigger]
            call_ensures(
                Condvar::<W>::wait_sync::<T>,
                (condvar, strategy, mutex, guard, waiter),
                begun,
            ) ==> {
                &&& joins((*condvar)@, way_of(strategy), waiter, (*final(condvar))@)
                &&& starts(begun.0, way_of(strategy), waiter.id, None)
                &&& lets_go((*mutex)@, guard@, begun.1@, (*final(mutex))@)
                &&& (*final(condvar)).wf() && (*final(mutex)).wf()
            },
        forall|condvar: &mut Condvar<W>, mutex: &mut Mutex<T, W>, begun: (Wait, Vec<W>)|
            #[trigger]
            call_ensures(
                Condvar::<W>::wait_sync_until::<T>,
                (condvar, strategy, mutex, guard, waiter, deadline),
                begun,
            ) ==> {
                &&& joins((*condvar)@, way_of(strategy), waiter, (*final(condvar))@)
                &&& starts(begun.0, way_of(strategy), waiter.id, Some(deadline))
                &&& lets_go((*mutex)@, guard@, begun.1@, (*final(mutex))@)
                &&& (*final(condvar)).wf() && (*final(mutex)).wf()
            },
        forall|condvar: &mut Condvar<W>, mutex: &mut Mutex<T, W>, begun: (AsyncWait, Vec<W>)|
            #[trigger]
            call_ensures(
                Condvar::<W>::wait_async_timeout::<T>,
                (condvar, mutex, guard, waiter, deadline),
                begun,
            ) ==> {
                &&& joins((*condvar)@, Way::Task, waiter, (*final(condvar))@)
                &&& starts(Wait::Task(begun.0), Way::Task, waiter.id, Some(deadline))
                &&& lets_go((*mutex)@, guard@, begun.1@, (*final(mutex))@)
                &&& (*final(condvar)).wf() && (*final(mutex)).wf()
            },
{
}

/// Whether a check of a condition came out rightly. If the condition does not hold, the
/// guard comes back with what the condition left in it, nothing has timed out, and nothing
/// else changes. If it holds, a wait begins.
pub open spec fn checks_rightly<T, W>(
    condvar: CondvarView<W>,
    mutex: MutexView<T, W>,
    guard: Guard<T>,
    holds: bool,
    data: T,
    way: Way,
    waiter: Waiter<W>,
    deadline: Option<u64>,
    checked: Checked<Wait, T, W>,
    condvar_after: CondvarView<W>,
    mutex_after: MutexView<T, W>,
) -> bool {
    match checked {
        Checked::Done(back, result) => {
            &&& !holds
            &&& back@ == data
            &&& back.id() == guard.id()
            &&& !result@
            &&& condvar_after == condvar
            &&& mutex_after == mutex
        },
        Checked::Waiting(wait, wakes) => {
            &&& holds
            &&& joins(condvar, way, waiter, condvar_after)
            &&& starts(wait, way, waiter.id, deadline)
            &&& lets_go(mutex, data, wakes@, mutex_after)
        },
    }
}

/// The same outcome, of a wait that spins.
pub open spec fn checked_spin<T, W>(checked: Checked<SpinWait, T, W>) -> Checked<Wait, T, W> {
    match checked {
        Checked::Done(guard, result) => Checked::Done(guard, result),
        Checked::Waiting(wait, wakes) => Checked::Waiting(Wait::Spin(wait), wakes),
    }
}

/// The same outcome, of a wait that parks.
pub open spec fn checked_block<T, W>(checked: Checked<BlockWait, T, W>) -> Checked<Wait, T, W> {
    match checked {
        Checked::Done(guard, result) => Checked::Done(guard, result),
        Checked::Waiting(wait, wakes) => Checked::Waiting(Wait::Block(wait), wakes),
    }
}

/// The same outcome, of a wait that suspends.
pub open spec fn checked_async<T, W>(checked: Checked<AsyncWait, T, W>) -> Checked<Wait, T, W> {
    match checked {
        Checked::Done(guard, result) => Checked::Done(guard, result),
        Checked::Waiting(wait, wakes) => Checked::Waiting(Wait::Task(wait), wakes),
    }
}

/// Waiting while a condition holds looks at the condition once, on the data of the guard,
/// and waits exactly if it holds. Whoever was queued for the mutex is then to be woken.
pub proof fn law_waits_while_a_condition_holds<T, W, F: FnOnce(&mut T) -> bool>(
    strategy: Strategy,
    guard: Guard<T>,
    waiter: Waiter<W>,
    condition: F,
)
    ensures
        forall|
            condvar: &mut Condvar<W>,
            mutex: &mut Mutex<T, W>,
            checked: Checked<SpinWait, T, W>,
        | #[trigger]
            call_ensures(
                Condvar::<W>::wait_spin_while::<T, F>,
                (condvar, mutex, guard, waiter, condition),
                checked,
            )
                && (*mutex)@.data is None && guard.id() == (*mutex)@.id
                ==> {
                &&& (*final(condvar)).wf() && (*final(mutex)).wf()
                &&& exists|data: &mut T, holds: bool|
                    {
                        &&& *data == guard@
                        &&& #[trigger] call_ensures(condition, (data,), holds)
                        &&& checks_rightly(
                            (*condvar)@,
                            (*mutex)@,
                            guard,
                            holds,
                            *final(data),
                            Way::Spin,
                            waiter,
                            None,
                            checked_spin(checked),
                            (*final(condvar))@,
                            (*final(mutex))@,
                        )
                    }
            },
        forall|
            condvar: &mut Condvar<W>,
            mutex: &mut Mutex<T, W>,
            checked: Checked<BlockWait, T, W>,
        | #[trigger]
            call_ensures(
                Condvar::<W>::wait_block_while::<T, F>,
                (condvar, mutex, guard, waiter, condition),
                checked,
            )
                && (*mutex)@.data is None && guard.id() == (*mutex)@.id
                ==> {
                &&& (*final(condvar)).wf() && (*final(mutex)).wf()
                &&& exists|data: &mut T, holds: bool|
                    {
                        &&& *data == guard@
                        &&& #[trigger] call_ensures(condition, (data,), holds)
                        &&& checks_rightly(
                            (*condvar)@,
                            (*mutex)@,
                            guard,
                            holds,
                            *final(data),
                            Way::Block,
                            waiter,
                            None,
                            checked_block(checked),
                            (*final(condvar))@,
                            (*final(mutex))@,
                        )
                    }
            },
        forall|
            condvar: &mut Condvar<W>,
            mutex: &mut Mutex<T, W>,
            checked: Checked<AsyncWait, T, W>,
        | #[trigger]
            call_ensures(
                Condvar::<W>::wait_async_while::<T, F>,
                (condvar, mutex, guard, waiter, condition),
                checked,
            )
                && (*mutex)@.data is None && guard.id() == (*mutex)@.id
                ==> {
                &&& (*final(condvar)).wf() && (*final(mutex)).wf()
                &&& exists|data: &mut T, holds: bool|
                    {
                        &&& *data == guard@
                        &&& #[trigger] call_ensures(condition, (data,), holds)
                        &&& checks_rightly(
                            (*condvar)@,
                            (*mutex)@,
                            guard,
                            holds,
                            *final(data),
                            Way::Task,
                            waiter,
                            None,
                            checked_async(checked),
                            (*final(condvar))@,
                            (*final(mutex))@,
                        )
                    }
            },
        forall|
            condvar: &mut Condvar<W>,
            mutex: &mut Mutex<T, W>,
            checked: Checked<Wait, T, W>,
        | #[trigger]
            call_ensures(
                Condvar::<W>::wait_sync_while::<T, F>,
                (condvar, strategy, mutex, guard, waiter, condition),
                checked,
            )
                && (*mutex)@.data is None && guard.id() == (*mutex)@.id
                ==> {
                &&& (*final(condvar)).wf() && (*final(mutex)).wf()
                &&& exists|data: &mut T, holds: bool|
                    {
                        &&& *data == guard@
                        &&& #[trigger] call_ensures(condition, (data,), holds)
                        &&& checks_rightly(
                            (*condvar)@,
                            (*mutex)@,
                            guard,
                            holds,
                            *final(data),
                            way_of(strategy),
                            waiter,
                            None,
                            checked,
                            (*final(condvar))@,
                            (*final(mutex))@,
                        )
                    }
            },
{
}

/// Waiting while a condition holds until a deadline ends without another look at the
/// condition if the wait before has timed out: the guard comes back as it is, and nothing
/// else changes. Otherwise it looks and waits as without a deadline, but until then.
pub proof fn law_timed_waits_while_a_condition_holds<T, W, F: FnOnce(&mut T) -> bool>(
    strategy: Strategy,
    guard: Guard<T>,
    previous: WaitTimeoutResult,
    waiter: Waiter<W>,
    deadline: u64,
    condition: F,
)
    ensures
        forall|
            condvar: &mut Condvar<W>,
            mutex: &mut Mutex<T, W>,
            checked: Checked<SpinWait, T, W>,
        | #[trigger]
            call_ensures(
                Condvar::<W>::wait_spin_until_while::<T, F>,
                (condvar, mutex, guard, previous, waiter, deadline, condition),
                checked,
            ) && (*mutex)@.data is None && guard.id() == (*mutex)@.id
                ==> {
                &&& (*final(condvar)).wf() && (*final(mutex)).wf()
                &&& previous@ ==> {
                    &&& checked matches Checked::Done(back, result) && back == guard && result@
                    &&& (*final(condvar))@ == (*condvar)@
                    &&& (*final(mutex))@ == (*mutex)@
                }
                &&& !previous@ ==> exists|data: &mut T, holds: bool|
                    {
                        &&& *data == guard@
                        &&& #[trigger] call_ensures(condition, (data,), holds)
                        &&& checks_rightly(
                            (*condvar)@,
                            (*mutex)@,
                            guard,
                            holds,
                            *final(data),
                            Way::Spin,
                            waiter,
                            Some(deadline),
                            checked_spin(checked),
                            (*final(condvar))@,
                            (*final(mutex))@,
                        )
                    }
            },
        forall|
            condvar: &mut Condvar<W>,
            mutex: &mut Mutex<T, W>,
            checked: Checked<BlockWait, T, W>,
        | #[trigger]
            call_ensures(
                Condvar::<W>::wait_block_until_while::<T, F>,
                (condvar, mutex, guard, previous, waiter, deadline, condition),
                checked,
            ) && (*mutex)@.data is None && guard.id() == (*mutex)@.id
                ==> {
                &&& (*final(condvar)).wf() && (*final(mutex)).wf()
                &&& previous@ ==> {
                    &&& checked matches Checked::Done(back, result) && back == guard && result@
                    &&& (*final(condvar))@ == (*condvar)@
                    &&& (*final(mutex))@ == (*mutex)@
                }
                &&& !previous@ ==> exists|data: &mut T, holds: bool|
                    {
                        &&& *data == guard@
                        &&& #[trigger] call_ensures(condition, (data,), holds)
                        &&& checks_rightly(
                            (*condvar)@,
                            (*mutex)@,
                            guard,
                            holds,
                            *final(data),
                            Way::Block,
                            waiter,
                            Some(deadline),
                            checked_block(checked),
                            (*final(condvar))@,
                            (*final(mutex))@,
                        )
                    }
            },
        forall|
            condvar: &mut Condvar<W>,
            mutex: &mut Mutex<T, W>,
            checked: Checked<AsyncWait, T, W>,
        | #[trigger]
            call_ensures(
                Condvar::<W>::wait_async_until_while::<T, F>,
                (condvar, mutex, guard, previous, waiter, deadline, condition),
                checked,
            ) && (*mutex)@.data is None && guard.id() == (*mutex)@.id
                ==> {
                &&& (*final(condvar)).wf() && (*final(mutex)).wf()
                &&& previous@ ==> {
                    &&& checked matches Checked::Done(back, result) && back == guard && result@
                    &&& (*final(condvar))@ == (*condvar)@
                    &&& (*final(mutex))@ == (*mutex)@
                }
                &&& !previous@ ==> exists|data: &mut T, holds: bool|
                    {
                        &&& *data == guard@
                        &&& #[trigger] call_ensures(condition, (data,), holds)
                        &&& checks_rightly(
                            (*condvar)@,
                            (*mutex)@,
                            guard,
                            holds,
                            *final(data),
                            Way::Task,
                            waiter,
                            Some(deadline),
                            checked_async(checked),
                            (*final(condvar))@,
                            (*final(mutex))@,
                        )
                    }
            },
        forall|
            condvar: &mut Condvar<W>,
            mutex: &mut Mutex<T, W>,
            checked: Checked<AsyncWait, T, W>,
        | #[trigger]
            call_ensures(
                Condvar::<W>::wait_async_timeout_while::<T, F>,
                (condvar, mutex, guard, previous, waiter, deadline, condition),
                checked,
            ) && (*mutex)@.data is None && guard.id() == (*mutex)@.id
                ==> {
                &&& (*final(condvar)).wf() && (*final(mutex)).wf()
                &&& previous@ ==> {
                    &&& checked matches Checked::Done(back, result) && back == guard && result@
                    &&& (*final(condvar))@ == (*condvar)@
                    &&& (*final(mutex))@ == (*mutex)@
                }
                &&& !previous@ ==> exists|data: &mut T, holds: bool|
                    {
                        &&& *data == guard@
                        &&& #[trigger] call_ensures(condition, (data,), holds)
                        &&& checks_rightly(
                            (*condvar)@,
                            (*mutex)@,
                            guard,
                            holds,
                            *final(data),
                            Way::Task,
                            waiter,
                            Some(deadline),
                            checked_async(checked),
                            (*final(condvar))@,
                            (*final(mutex))@,
                        )
                    }
            },
        forall|
            condvar: &mut Condvar<W>,
            mutex: &mut Mutex<T, W>,
            checked: Checked<Wait, T, W>,
        | #[trigger]
            call_ensures(
                Condvar::<W>::wait_sync_until_while::<T, F>,
                (condvar, strategy, mutex, guard, previous, waiter, deadline, condition),
                checked,
            ) && (*mutex)@.data is None && guard.id() == (*mutex)@.id
                ==> {
                &&& (*final(condvar)).wf() && (*final(mutex)).wf()
                &&& previous@ ==> {
                    &&& checked matches Checked::Done(back, result) && back == guard && result@
                    &&& (*final(condvar))@ == (*condvar)@
                    &&& (*final(mutex))@ == (*mutex)@
                }
                &&& !previous@ ==> exists|data: &mut T, holds: bool|
                    {
                        &&& *data == guard@
                        &&& #[trigger] call_ensures(condition, (data,), holds)
                        &&& checks_rightly(
                            (*condvar)@,
                            (*mutex)@,
                            guard,
                            holds,
                            *final(data),
                            way_of(strategy),
                            waiter,
                            Some(deadline),
                            checked,
                            (*final(condvar))@,
                            (*final(mutex))@,
                        )
                    }
            },
{
}

/// Whether a wait ends with a step, and if so, whether its time is up.
///
/// A signal ends one that spins; a deadline that has passed ends it while it is on its list.
/// A park without a deadline ends by coming back; with one it ends at the deadline, or when
/// the thread is off its list, and its time was up exactly if it is still on it. A suspended
/// wait ends by its signal, or else by its timer. What has ended stays as it ended.
pub open spec fn ends<W>(wait: Wait, turn: Turn<W>, lists: CondvarView<W>) -> Option<bool> {
    match wait {
        Wait::Spin(wait) => match (wait.phase, wait.deadline) {
            (SpinPhase::Relocking { timed_out }, _) => Some(timed_out),
            _ if turn.signalled => Some(false),
            (SpinPhase::Listed, Some(deadline)) if deadline <= turn.now && is_on(
                lists.spin,
                wait.id,
            ) => Some(true),
            _ => None,
        },
        Wait::Block(wait) => match (wait.phase, wait.deadline) {
            (BlockPhase::Relocking { timed_out }, _) => Some(timed_out),
            (_, Some(deadline)) if deadline <= turn.now => Some(is_on(lists.sync, wait.id)),
            (BlockPhase::Parked, None) => Some(false),
            (BlockPhase::Parked, Some(_)) if !is_on(lists.sync, wait.id) => Some(false),
            _ => None,
        },
        Wait::Task(wait) => match wait.phase {
            AsyncPhase::Relocking { timed_out } => Some(timed_out),
            AsyncPhase::Suspended(race) => if race.notify && turn.signalled {
                Some(false)
            } else if race.timeout && turn.expired {
                Some(true)
            } else {
                None
            },
        },
    }
}

/// Whether `next` is the wait after it ended in this way: it has only to take the mutex.
pub open spec fn has_ended(wait: Wait, timed_out: bool, next: Wait) -> bool {
    match (wait, next) {
        (Wait::Spin(wait), Wait::Spin(next)) => {
            &&& next.id == wait.id
            &&& next.deadline == wait.deadline
            &&& next.phase == SpinPhase::Relocking { timed_out }
        },
        (Wait::Block(wait), Wait::Block(next)) => {
            &&& next.id == wait.id
            &&& next.deadline == wait.deadline
            &&& next.phase == BlockPhase::Relocking { timed_out }
        },
        (Wait::Task(wait), Wait::Task(next)) => {
            &&& next.id == wait.id
            &&& next.deadline == wait.deadline
            &&& next.phase == AsyncPhase::Relocking { timed_out }
        },
        _ => false,
    }
}

/// Whether `next` is the wait after a step that did not end it, and `pause` the right one.
///
/// One that spins or is suspended stays as it is, except that past its deadline one that
/// spins waits for the signal alone. One that parks has parked, until its deadline at the
/// latest.
pub open spec fn goes_on(wait: Wait, now: u64, next: Wait, pause: Pause) -> bool {
    match (wait, next) {
        (Wait::Spin(wait), Wait::Spin(next)) => {
            &&& pause == Pause::Spin
            &&& next.id == wait.id
            &&& next.deadline == wait.deadline
            &&& next.phase == match wait.deadline {
                Some(deadline) if deadline <= now => SpinPhase::Claimed,
                _ => wait.phase,
            }
        },
        (Wait::Block(wait), Wait::Block(next)) => {
            &&& match wait.deadline {
                Some(deadline) => {
                    &&& now < deadline
                    &&& pause matches Pause::ParkTimeout(left) && now + left == deadline
                },
                None => pause == Pause::Park,
            }
            &&& next.id == wait.id
            &&& next.deadline == wait.deadline
            &&& next.phase == BlockPhase::Parked
        },
        (Wait::Task(wait), Wait::Task(next)) => pause == Pause::Await && next == wait,
        _ => false,
    }
}

/// Whether a step did the right thing to the lists: a wait that ends with it, without having
/// been notified, takes its entry off, and nobody else's. Only a task's is handed out.
pub open spec fn lists_fit<W>(
    wait: Wait,
    turn: Turn<W>,
    before: CondvarView<W>,
    cancelled: Option<Waiter<W>>,
    after: CondvarView<W>,
) -> bool {
    let ended = ends(wait, turn, before);
    match wait {
        Wait::Spin(wait) => {
            &&& cancelled is None
            &&& after.sync == before.sync
            &&& after.tasks == before.tasks
            &&& if wait.phase is Listed && ended == Some(true) {
                exists|entry: Option<Waiter<W>>|
                    entry is Some && #[trigger] leaves(before.spin, wait.id, entry, after.spin)
            } else {
                after.spin == before.spin
            }
        },
        Wait::Block(wait) => {
            &&& cancelled is None
            &&& after.spin == before.spin
            &&& after.tasks == before.tasks
            &&& if wait.phase !is Relocking && ended is Some {
                exists|entry: Option<Waiter<W>>| #[trigger]
                    leaves(before.sync, wait.id, entry, after.sync)
            } else {
                after.sync == before.sync
            }
        },
        Wait::Task(wait) => {
            &&& after.spin == before.spin
            &&& after.sync == before.sync
            &&& if wait.phase is Suspended && ended == Some(true) {
                leaves(before.tasks, wait.id, cancelled, after.tasks)
            } else {
                cancelled is None && after.tasks == before.tasks
            }
        },
    }
}

/// Whether whoever is refused the mutex after its wait is queued for it as it waits: a task
/// as a task, a thread as a parked thread where it may block, and else not at all.
pub open spec fn queues_again<T, W>(
    wait: Wait,
    turn: Turn<W>,
    before: MutexView<T, W>,
    pause: Pause,
    after: MutexView<T, W>,
) -> bool {
    &&& before.data is None
    &&& after.data is None
    &&& after.id == before.id
    &&& match (wait, turn.strategy) {
        (Wait::Task(_), _) => {
            &&& pause == Pause::Await
            &&& after.sync == before.sync
            &&& after.tasks == before.tasks.push(turn.handle)
        },
        (_, Strategy::Block) => {
            &&& pause == Pause::Park
            &&& after.sync == before.sync.push(turn.handle)
            &&& after.tasks == before.tasks
        },
        (_, Strategy::Spin) => pause == Pause::Spin && queues_stay(before, after),
    }
}

/// Whether a step of a wait came out rightly. One that ends takes the mutex if it is free,
/// with the data in its guard, and says whether the time was up.
pub open spec fn steps_rightly<T, W>(
    wait: Wait,
    turn: Turn<W>,
    condvar: CondvarView<W>,
    mutex: MutexView<T, W>,
    progress: Progress<Wait, T>,
    cancelled: Option<Waiter<W>>,
    condvar_after: CondvarView<W>,
    mutex_after: MutexView<T, W>,
) -> bool {
    &&& lists_fit(wait, turn, condvar, cancelled, condvar_after)
    &&& match (ends(wait, turn, condvar), progress) {
        (Some(timed_out), Progress::Ready(guard, result)) => {
            &&& result@ == timed_out
            &&& takes_what_is_there(mutex, Some(guard), mutex_after)
            &&& queues_stay(mutex, mutex_after)
        },
        (Some(timed_out), Progress::Pending(next, pause)) => {
            &&& has_ended(wait, timed_out, next)
            &&& queues_again(wait, turn, mutex, pause, mutex_after)
        },
        (None, Progress::Pending(next, pause)) => {
            &&& goes_on(wait, turn.now, next, pause)
            &&& mutex_after == mutex
        },
        (None, Progress::Ready(_, _)) => false,
    }
}

/// The same outcome, of a wait that spins.
pub open spec fn progress_spin<T>(progress: Progress<SpinWait, T>) -> Progress<Wait, T> {
    match progress {
        Progress::Ready(guard, result) => Progress::Ready(guard, result),
        Progress::Pending(next, pause) => Progress::Pending(Wait::Spin(next), pause),
    }
}

/// The same outcome, of a wait that parks.
pub open spec fn progress_block<T>(progress: Progress<BlockWait, T>) -> Progress<Wait, T> {
    match progress {
        Progress::Ready(guard, result) => Progress::Ready(guard, result),
        Progress::Pending(next, pause) => Progress::Pending(Wait::Block(next), pause),
    }
}

/// The same outcome, of a wait that suspends.
pub open spec fn progress_async<T>(progress: Progress<AsyncWait, T>) -> Progress<Wait, T> {
    match progress {
        Progress::Ready(guard, result) => Progress::Ready(guard, result),
        Progress::Pending(next, pause) => Progress::Pending(Wait::Task(next), pause),
    }
}

/// Every step of a wait that spins comes out rightly.
pub proof fn law_steps_of_spinning_wait<T, W>(wait: SpinWait, turn: Turn<W>)
    ensures
        forall|
            condvar: &mut Condvar<W>,
            mutex: &mut Mutex<T, W>,
            polled: Progress<SpinWait, T>,
        | #[trigger]
            call_ensures(SpinWait::poll::<T, W>, (wait, condvar, mutex, turn), polled) ==> {
                &&& (*final(condvar)).wf() && (*final(mutex)).consistent()
                &&& steps_rightly(
                    Wait::Spin(wait),
                    turn,
                    (*condvar)@,
                    (*mutex)@,
                    progress_spin(polled),
                    None,
                    (*final(condvar))@,
                    (*final(mutex))@,
                )
            },
{
    assert forall|
        condvar: &mut Condvar<W>,
        mutex: &mut Mutex<T, W>,
        polled: Progress<SpinWait, T>,
    | #[trigger]
        call_ensures(
            SpinWait::poll::<T, W>,
            (wait, condvar, mutex, turn),
            polled,
        ) implies steps_rightly(
        Wait::Spin(wait),
        turn,
        (*condvar)@,
        (*mutex)@,
        progress_spin(polled),
        None,
        (*final(condvar))@,
        (*final(mutex))@,
    ) by {
        lemma_lists_fit(Wait::Spin(wait), turn, (*condvar)@);
    }
}

/// Every step of a wait that parks comes out rightly.
pub proof fn law_steps_of_parking_wait<T, W>(wait: BlockWait, turn: Turn<W>)
    ensures
        forall|
            condvar: &mut Condvar<W>,
            mutex: &mut Mutex<T, W>,
            polled: Progress<BlockWait, T>,
        | #[trigger]
            call_ensures(BlockWait::poll::<T, W>, (wait, condvar, mutex, turn), polled) ==> {
                &&& (*final(condvar)).wf() && (*final(mutex)).consistent()
                &&& steps_rightly(
                    Wait::Block(wait),
                    turn,
                    (*condvar)@,
                    (*mutex)@,
                    progress_block(polled),
                    None,
                    (*final(condvar))@,
                    (*final(mutex))@,
                )
            },
{
    assert forall|
        condvar: &mut Condvar<W>,
        mutex: &mut Mutex<T, W>,
        polled: Progress<BlockWait, T>,
    | #[trigger]
        call_ensures(
            BlockWait::poll::<T, W>,
            (wait, condvar, mutex, turn),
            polled,
        ) implies steps_rightly(
        Wait::Block(wait),
        turn,
        (*condvar)@,
        (*mutex)@,
        progress_block(polled),
        None,
        (*final(condvar))@,
        (*final(mutex))@,
    ) by {
        lemma_lists_fit(Wait::Block(wait), turn, (*condvar)@);
    }
}

/// Every step of a suspended wait comes out rightly.
pub proof fn law_steps_of_suspended_wait<T, W>(wait: AsyncWait, turn: Turn<W>)
    ensures
        forall|
            condvar: &mut Condvar<W>,
            mutex: &mut Mutex<T, W>,
            polled: (Progress<AsyncWait, T>, Option<Waiter<W>>),
        | #[trigger]
            call_ensures(AsyncWait::poll::<T, W>, (wait, condvar, mutex, turn), polled) ==> {
                &&& (*final(condvar)).wf() && (*final(mutex)).consistent()
                &&& steps_rightly(
                    Wait::Task(wait),
                    turn,
                    (*condvar)@,
                    (*mutex)@,
                    progress_async(polled.0),
                    polled.1,
                    (*final(condvar))@,
                    (*final(mutex))@,
                )
            },
{
    assert forall|
        condvar: &mut Condvar<W>,
        mutex: &mut Mutex<T, W>,
        polled: (Progress<AsyncWait, T>, Option<Waiter<W>>),
    | #[trigger]
        call_ensures(
            AsyncWait::poll::<T, W>,
            (wait, condvar, mutex, turn),
            polled,
        ) implies steps_rightly(
        Wait::Task(wait),
        turn,
        (*condvar)@,
        (*mutex)@,
        progress_async(polled.0),
        polled.1,
        (*final(condvar))@,
        (*final(mutex))@,
    ) by {
        lemma_lists_fit(Wait::Task(wait), turn, (*condvar)@);
    }
}

/// Every step of a wait of whichever kind comes out rightly.
pub proof fn law_steps_of_any_wait<T, W>(wait: Wait, turn: Turn<W>)
    ensures
        forall|
            condvar: &mut Condvar<W>,
            mutex: &mut Mutex<T, W>,
            polled: (Progress<Wait, T>, Option<Waiter<W>>),
        | #[trigger]
            call_ensures(Wait::poll::<T, W>, (wait, condvar, mutex, turn), polled) ==> {
                &&& (*final(condvar)).wf() && (*final(mutex)).consistent()
                &&& steps_rightly(
                    wait,
                    turn,
                    (*condvar)@,
                    (*mutex)@,
                    polled.0,
                    polled.1,
                    (*final(condvar))@,
                    (*final(mutex))@,
                )
            },
{
    assert forall|
        condvar: &mut Condvar<W>,
        mutex: &mut Mutex<T, W>,
        polled: (Progress<Wait, T>, Option<Waiter<W>>),
    | #[trigger]
        call_ensures(
            Wait::poll::<T, W>,
            (wait, condvar, mutex, turn),
            polled,
        ) implies steps_rightly(
        wait,
        turn,
        (*condvar)@,
        (*mutex)@,
        polled.0,
        polled.1,
        (*final(condvar))@,
        (*final(mutex))@,
    ) by {
        lemma_lists_fit(wait, turn, (*condvar)@);
    }
}

/// What a step does to the lists is right.
pub proof fn lemma_lists_fit<W>(wait: Wait, turn: Turn<W>, lists: CondvarView<W>)
    ensures
        lists_fit(wait, turn, lists, wait.cancels(turn, lists), wait.lists_after(turn, lists)),
{
    lemma_first_leaves(lists.spin, wait.id());
    lemma_first_leaves(lists.sync, wait.id());
    lemma_first_leaves(lists.tasks, wait.id());
    let after = wait.lists_after(turn, lists);
    assert(ends(wait, turn, lists) == wait.verdict(turn, lists));
    match wait {
        Wait::Spin(spin) => {
            if spin.gives_up(turn, lists.spin) {
                assert(leaves(lists.spin, spin.id, first_of(lists.spin, spin.id), after.spin));
            }
        },
        Wait::Block(block) => {
            if block.phase !is Relocking && wait.verdict(turn, lists) is Some {
                assert(leaves(lists.sync, block.id, first_of(lists.sync, block.id), after.sync));
            }
        },
        Wait::Task(_) => {},
    }
}

proof fn lemma_first_leaves<W>(list: Seq<Waiter<W>>, id: u64)
    ensures
        is_on(list, id) == listed(list, id),
        leaves(list, id, first_of(list, id), without_first(list, id)),
{
    if listed(list, id) {
        lemma_first_place(list, id);
    }
}

/// Whether a wait is over in this way: it is ready if the mutex is free, and else has only
/// to take the mutex.
pub open spec fn is_over<T, W>(
    wait: Wait,
    timed_out: bool,
    mutex: MutexView<T, W>,
    progress: Progress<Wait, T>,
) -> bool {
    &&& mutex.data is Some ==> progress is Ready
    &&& match progress {
        Progress::Ready(_, result) => result@ == timed_out,
        Progress::Pending(next, _) => has_ended(wait, timed_out, next),
    }
}

/// A wait with a deadline times out with its first step after the deadline, whichever call
/// began it: one that spins or parks if it is still on its list and has not been signalled,
/// a suspended one if its timer went off and it has not been signalled.
pub proof fn law_deadlines_end_waits<T, W>(
    strategy: Strategy,
    guard: Guard<T>,
    waiter: Waiter<W>,
    deadline: u64,
    turn: Turn<W>,
)
    requires
        turn.now >= deadline,
        turn.expired,
        !turn.signalled,
    ensures
        forall|
            condvar: &mut Condvar<W>,
            mutex: &mut Mutex<T, W>,
            begun: (Wait, Vec<W>),
            later: &mut Condvar<W>,
            lock: &mut Mutex<T, W>,
            polled: (Progress<Wait, T>, Option<Waiter<W>>),
        |
            {
                &&& #[trigger] call_ensures(
                    Condvar::<W>::wait_sync_until::<T>,
                    (condvar, strategy, mutex, guard, waiter, deadline),
                    begun,
                )
                &&& #[trigger] call_ensures(
                    Wait::poll::<T, W>,
                    (begun.0, later, lock, turn),
                    polled,
                )
                &&& match strategy {
                    Strategy::Spin => is_on((*later)@.spin, waiter.id),
                    Strategy::Block => is_on((*later)@.sync, waiter.id),
                }
            } ==> is_over(begun.0, true, (*lock)@, polled.0),
        forall|
            condvar: &mut Condvar<W>,
            mutex: &mut Mutex<T, W>,
            begun: (SpinWait, Vec<W>),
            later: &mut Condvar<W>,
            lock: &mut Mutex<T, W>,
            polled: Progress<SpinWait, T>,
        |
            {
                &&& #[trigger] call_ensures(
                    Condvar::<W>::wait_spin_until::<T>,
                    (condvar, mutex, guard, waiter, deadline),
                    begun,
                )
                &&& #[trigger] call_ensures(
                    SpinWait::poll::<T, W>,
                    (begun.0, later, lock, turn),
                    polled,
                )
                &&& is_on((*later)@.spin, waiter.id)
            } ==> is_over(Wait::Spin(begun.0), true, (*lock)@, progress_spin(polled)),
        forall|
            condvar: &mut Condvar<W>,
            mutex: &mut Mutex<T, W>,
            begun: (BlockWait, Vec<W>),
            later: &mut Condvar<W>,
            lock: &mut Mutex<T, W>,
            polled: Progress<BlockWait, T>,
        |
            {
                &&& #[trigger] call_ensures(
                    Condvar::<W>::wait_block_until::<T>,
                    (condvar, mutex, guard, waiter, deadline),
                    begun,
                )
                &&& #[trigger] call_ensures(
                    BlockWait::poll::<T, W>,
                    (begun.0, later, lock, turn),
                    polled,
                )
                &&& is_on((*later)@.sync, waiter.id)
            } ==> is_over(Wait::Block(begun.0), true, (*lock)@, progress_block(polled)),
        forall|
            condvar: &mut Condvar<W>,
            mutex: &mut Mutex<T, W>,
            begun: (AsyncWait, Vec<W>),
            later: &mut Condvar<W>,
            lock: &mut Mutex<T, W>,
            polled: (Progress<AsyncWait, T>, Option<Waiter<W>>),
        |
            {
                &&& #[trigger] call_ensures(
                    Condvar::<W>::wait_async_until::<T>,
                    (condvar, mutex, guard, waiter, deadline),
                    begun,
                )
                &&& #[trigger] call_ensures(
                    AsyncWait::poll::<T, W>,
                    (begun.0, later, lock, turn),
                    polled,
                )
            } ==> is_over(Wait::Task(begun.0), true, (*lock)@, progress_async(polled.0)),
        forall|
            condvar: &mut Condvar<W>,
            mutex: &mut Mutex<T, W>,
            begun: (AsyncWait, Vec<W>),
            later: &mut Condvar<W>,
            lock: &mut Mutex<T, W>,
            polled: (Progress<AsyncWait, T>, Option<Waiter<W>>),
        |
            {
                &&& #[trigger] call_ensures(
                    Condvar::<W>::wait_async_timeout::<T>,
                    (condvar, mutex, guard, waiter, deadline),
                    begun,
                )
                &&& #[trigger] call_ensures(
                    AsyncWait::poll::<T, W>,
                    (begun.0, later, lock, turn),
                    polled,
                )
            } ==> is_over(Wait::Task(begun.0), true, (*lock)@, progress_async(polled.0)),
{
    law_waits_begin::<T, W>(strategy, guard, waiter, deadline);
    assert forall|
        condvar: &mut Condvar<W>,
        mutex: &mut Mutex<T, W>,
        begun: (Wait, Vec<W>),
        later: &mut Condvar<W>,
        lock: &mut Mutex<T, W>,
        polled: (Progress<Wait, T>, Option<Waiter<W>>),
    |
        {
            &&& #[trigger] call_ensures(
                Condvar::<W>::wait_sync_until::<T>,
                (condvar, strategy, mutex, guard, waiter, deadline),
                begun,
            )
            &&& #[trigger] call_ensures(Wait::poll::<T, W>, (begun.0, later, lock, turn), polled)
            &&& match strategy {
                Strategy::Spin => is_on((*later)@.spin, waiter.id),
                Strategy::Block => is_on((*later)@.sync, waiter.id),
            }
        } implies is_over(begun.0, true, (*lock)@, polled.0) by {
        law_steps_of_any_wait::<T, W>(begun.0, turn);
    }
    assert forall|
        condvar: &mut Condvar<W>,
        mutex: &mut Mutex<T, W>,
        begun: (SpinWait, Vec<W>),
        later: &mut Condvar<W>,
        lock: &mut Mutex<T, W>,
        polled: Progress<SpinWait, T>,
    |
        {
            &&& #[trigger] call_ensures(
                Condvar::<W>::wait_spin_until::<T>,
                (condvar, mutex, guard, waiter, deadline),
                begun,
            )
            &&& #[trigger] call_ensures(
                SpinWait::poll::<T, W>,
                (begun.0, later, lock, turn),
                polled,
            )
            &&& is_on((*later)@.spin, waiter.id)
        } implies is_over(Wait::Spin(begun.0), true, (*lock)@, progress_spin(polled)) by {
        law_steps_of_spinning_wait::<T, W>(begun.0, turn);
    }
    assert forall|
        condvar: &mut Condvar<W>,
        mutex: &mut Mutex<T, W>,
        begun: (BlockWait, Vec<W>),
        later: &mut Condvar<W>,
        lock: &mut Mutex<T, W>,
        polled: Progress<BlockWait, T>,
    |
        {
            &&& #[trigger] call_ensures(
                Condvar::<W>::wait_block_until::<T>,
                (condvar, mutex, guard, waiter, deadline),
                begun,
            )
            &&& #[trigger] call_ensures(
                BlockWait::poll::<T, W>,
                (begun.0, later, lock, turn),
                polled,
            )
            &&& is_on((*later)@.sync, waiter.id)
        } implies is_over(Wait::Block(begun.0), true, (*lock)@, progress_block(polled)) by {
        law_steps_of_parking_wait::<T, W>(begun.0, turn);
    }
    assert forall|
        condvar: &mut Condvar<W>,
        mutex: &mut Mutex<T, W>,
        begun: (AsyncWait, Vec<W>),
        later: &mut Condvar<W>,
        lock: &mut Mutex<T, W>,
        polled: (Progress<AsyncWait, T>, Option<Waiter<W>>),
    |
        {
            &&& #[trigger] call_ensures(
                Condvar::<W>::wait_async_until::<T>,
                (condvar, mutex, guard, waiter, deadline),
                begun,
            )
            &&& #[trigger] call_ensures(
                AsyncWait::poll::<T, W>,
                (begun.0, later, lock, turn),
                polled,
            )
        } implies is_over(Wait::Task(begun.0), true, (*lock)@, progress_async(polled.0)) by {
        law_steps_of_suspended_wait::<T, W>(begun.0, turn);
    }
    assert forall|
        condvar: &mut Condvar<W>,
        mutex: &mut Mutex<T, W>,
        begun: (AsyncWait, Vec<W>),
        later: &mut Condvar<W>,
        lock: &mut Mutex<T, W>,
        polled: (Progress<AsyncWait, T>, Option<Waiter<W>>),
    |
        {
            &&& #[trigger] call_ensures(
                Condvar::<W>::wait_async_timeout::<T>,
                (condvar, mutex, guard, waiter, deadline),
                begun,
            )
            &&& #[trigger] call_ensures(
                AsyncWait::poll::<T, W>,
                (begun.0, later, lock, turn),
                polled,
            )
        } implies is_over(Wait::Task(begun.0), true, (*lock)@, progress_async(polled.0)) by {
        law_steps_of_suspended_wait::<T, W>(begun.0, turn);
    }
}

/// A wait that spins or is suspended is over with its first step after it was signalled,
/// whichever call began it, with or without a deadline, and has not timed out.
pub proof fn law_signals_end_waits<T, W>(
    strategy: Strategy,
    guard: Guard<T>,
    waiter: Waiter<W>,
    deadline: u64,
    turn: Turn<W>,
)
    requires
        turn.signalled,
    ensures
        forall|
            condvar: &mut Condvar<W>,
            mutex: &mut Mutex<T, W>,
            begun: (Wait, Vec<W>),
            later: &mut Condvar<W>,
            lock: &mut Mutex<T, W>,
            polled: (Progress<Wait, T>, Option<Waiter<W>>),
        |
            {
                &&& #[trigger] call_ensures(
                    Condvar::<W>::wait_sync::<T>,
                    (condvar, strategy, mutex, guard, waiter),
                    begun,
                )
                &&& #[trigger] call_ensures(
                    Wait::poll::<T, W>,
                    (begun.0, later, lock, turn),
                    polled,
                )
                &&& strategy == Strategy::Spin
            } ==> is_over(begun.0, false, (*lock)@, polled.0),
        forall|
            condvar: &mut Condvar<W>,
            mutex: &mut Mutex<T, W>,
            begun: (Wait, Vec<W>),
            later: &mut Condvar<W>,
            lock: &mut Mutex<T, W>,
            polled: (Progress<Wait, T>, Option<Waiter<W>>),
        |
            {
                &&& #[trigger] call_ensures(
                    Condvar::<W>::wait_sync_until::<T>,
                    (condvar, strategy, mutex, guard, waiter, deadline),
                    begun,
                )
                &&& #[trigger] call_ensures(
                    Wait::poll::<T, W>,
                    (begun.0, later, lock, turn),
                    polled,
                )
                &&& strategy == Strategy::Spin
            } ==> is_over(begun.0, false, (*lock)@, polled.0),
        forall|
            condvar: &mut Condvar<W>,
            mutex: &mut Mutex<T, W>,
            begun: (SpinWait, Vec<W>),
            later: &mut Condvar<W>,
            lock: &mut Mutex<T, W>,
            polled: Progress<SpinWait, T>,
        |
            {
                &&& #[trigger] call_ensures(
                    Condvar::<W>::wait_spin::<T>,
                    (condvar, mutex, guard, waiter),
                    begun,
                )
                &&& #[trigger] call_ensures(
                    SpinWait::poll::<T, W>,
                    (begun.0, later, lock, turn),
                    polled,
                )
            } ==> is_over(Wait::Spin(begun.0), false, (*lock)@, progress_spin(polled)),
        forall|
            condvar: &mut Condvar<W>,
            mutex: &mut Mutex<T, W>,
            begun: (SpinWait, Vec<W>),
            later: &mut Condvar<W>,
            lock: &mut Mutex<T, W>,
            polled: Progress<SpinWait, T>,
        |
            {
                &&& #[trigger] call_ensures(
                    Condvar::<W>::wait_spin_until::<T>,
                    (condvar, mutex, guard, waiter, deadline),
                    begun,
                )
                &&& #[trigger] call_ensures(
                    SpinWait::poll::<T, W>,
                    (begun.0, later, lock, turn),
                    polled,
                )
            } ==> is_over(Wait::Spin(begun.0), false, (*lock)@, progress_spin(polled)),
        forall|
            condvar: &mut Condvar<W>,
            mutex: &mut Mutex<T, W>,
            begun: (AsyncWait, Vec<W>),
            later: &mut Condvar<W>,
            lock: &mut Mutex<T, W>,
            polled: (Progress<AsyncWait, T>, Option<Waiter<W>>),
        |
            {
                &&& #[trigger] call_ensures(
                    Condvar::<W>::wait_async::<T>,
                    (condvar, mutex, guard, waiter),
                    begun,
                )
                &&& #[trigger] call_ensures(
                    AsyncWait::poll::<T, W>,
                    (begun.0, later, lock, turn),
                    polled,
                )
            } ==> is_over(Wait::Task(begun.0), false, (*lock)@, progress_async(polled.0)),
        forall|
            condvar: &mut Condvar<W>,
            mutex: &mut Mutex<T, W>,
            begun: (AsyncWait, Vec<W>),
            later: &mut Condvar<W>,
            lock: &mut Mutex<T, W>,
            polled: (Progress<AsyncWait, T>, Option<Waiter<W>>),
        |
            {
                &&& #[trigger] call_ensures(
                    Condvar::<W>::wait_async_until::<T>,
                    (condvar, mutex, guard, waiter, deadline),
                    begun,
                )
                &&& #[trigger] call_ensures(
                    AsyncWait::poll::<T, W>,
                    (begun.0, later, lock, turn),
                    polled,
                )
            } ==> is_over(Wait::Task(begun.0), false, (*lock)@, progress_async(polled.0)),
        forall|
            condvar: &mut Condvar<W>,
            mutex: &mut Mutex<T, W>,
            begun: (AsyncWait, Vec<W>),
            later: &mut Condvar<W>,
            lock: &mut Mutex<T, W>,
            polled: (Progress<AsyncWait, T>, Option<Waiter<W>>),
        |
            {
                &&& #[trigger] call_ensures(
                    Condvar::<W>::wait_async_timeout::<T>,
                    (condvar, mutex, guard, waiter, deadline),
                    begun,
                )
                &&& #[trigger] call_ensures(
                    AsyncWait::poll::<T, W>,
                    (begun.0, later, lock, turn),
                    polled,
                )
            } ==> is_over(Wait::Task(begun.0), false, (*lock)@, progress_async(polled.0)),
{
    law_waits_begin::<T, W>(strategy, guard, waiter, deadline);
    assert forall|
        condvar: &mut Condvar<W>,
        mutex: &mut Mutex<T, W>,
        begun: (Wait, Vec<W>),
        later: &mut Condvar<W>,
        lock: &mut Mutex<T, W>,
        polled: (Progress<Wait, T>, Option<Waiter<W>>),
    |
        {
            &&& #[trigger] call_ensures(
                Condvar::<W>::wait_sync::<T>,
                (condvar, strategy, mutex, guard, waiter),
                begun,
            )
            &&& #[trigger] call_ensures(Wait::poll::<T, W>, (begun.0, later, lock, turn), polled)
            &&& strategy == Strategy::Spin
        } implies is_over(begun.0, false, (*lock)@, polled.0) by {
        law_steps_of_any_wait::<T, W>(begun.0, turn);
    }
    assert forall|
        condvar: &mut Condvar<W>,
        mutex: &mut Mutex<T, W>,
        begun: (Wait, Vec<W>),
        later: &mut Condvar<W>,
        lock: &mut Mutex<T, W>,
        polled: (Progress<Wait, T>, Option<Waiter<W>>),
    |
        {
            &&& #[trigger] call_ensures(
                Condvar::<W>::wait_sync_until::<T>,
                (condvar, strategy, mutex, guard, waiter, deadline),
                begun,
            )
            &&& #[trigger] call_ensures(Wait::poll::<T, W>, (begun.0, later, lock, turn), polled)
            &&& strategy == Strategy::Spin
        } implies is_over(begun.0, false, (*lock)@, polled.0) by {
        law_steps_of_any_wait::<T, W>(begun.0, turn);
    }
    assert forall|
        condvar: &mut Condvar<W>,
        mutex: &mut Mutex<T, W>,
        begun: (SpinWait, Vec<W>),
        later: &mut Condvar<W>,
        lock: &mut Mutex<T, W>,
        polled: Progress<SpinWait, T>,
    |
        {
            &&& #[trigger] call_ensures(
                Condvar::<W>::wait_spin::<T>,
                (condvar, mutex, guard, waiter),
                begun,
            )
            &&& #[trigger] call_ensures(
                SpinWait::poll::<T, W>,
                (begun.0, later, lock, turn),
                polled,
            )
        } implies is_over(Wait::Spin(begun.0), false, (*lock)@, progress_spin(polled)) by {
        law_steps_of_spinning_wait::<T, W>(begun.0, turn);
    }
    assert forall|
        condvar: &mut Condvar<W>,
        mutex: &mut Mutex<T, W>,
        begun: (SpinWait, Vec<W>),
        later: &mut Condvar<W>,
        lock: &mut Mutex<T, W>,
        polled: Progress<SpinWait, T>,
    |
        {
            &&& #[trigger] call_ensures(
                Condvar::<W>::wait_spin_until::<T>,
                (condvar, mutex, guard, waiter, deadline),
                begun,
            )
            &&& #[trigger] call_ensures(
                SpinWait::poll::<T, W>,
                (begun.0, later, lock, turn),
                polled,
            )
        } implies is_over(Wait::Spin(begun.0), false, (*lock)@, progress_spin(polled)) by {
        law_steps_of_spinning_wait::<T, W>(begun.0, turn);
    }
    assert forall|
        condvar: &mut Condvar<W>,
        mutex: &mut Mutex<T, W>,
        begun: (AsyncWait, Vec<W>),
        later: &mut Condvar<W>,
        lock: &mut Mutex<T, W>,
        polled: (Progress<AsyncWait, T>, Option<Waiter<W>>),
    |
        {
            &&& #[trigger] call_ensures(
                Condvar::<W>::wait_async::<T>,
                (condvar, mutex, guard, waiter),
                begun,
            )
            &&& #[trigger] call_ensures(
                AsyncWait::poll::<T, W>,
                (begun.0, later, lock, turn),
                polled,
            )
        } implies is_over(Wait::Task(begun.0), false, (*lock)@, progress_async(polled.0)) by {
        law_steps_of_suspended_wait::<T, W>(begun.0, turn);
    }
    assert forall|
        condvar: &mut Condvar<W>,
        mutex: &mut Mutex<T, W>,
        begun: (AsyncWait, Vec<W>),
        later: &mut Condvar<W>,
        lock: &mut Mutex<T, W>,
        polled: (Progress<AsyncWait, T>, Option<Waiter<W>>),
    |
        {
            &&& #[trigger] call_ensures(
                Condvar::<W>::wait_async_until::<T>,
                (condvar, mutex, guard, waiter, deadline),
                begun,
            )
            &&& #[trigger] call_ensures(
                AsyncWait::poll::<T, W>,
                (begun.0, later, lock, turn),
                polled,
            )
        } implies is_over(Wait::Task(begun.0), false, (*lock)@, progress_async(polled.0)) by {
        law_steps_of_suspended_wait::<T, W>(begun.0, turn);
    }
    assert forall|
        condvar: &mut Condvar<W>,
        mutex: &mut Mutex<T, W>,
        begun: (AsyncWait, Vec<W>),
        later: &mut Condvar<W>,
        lock: &mut Mutex<T, W>,
        polled: (Progress<AsyncWait, T>, Option<Waiter<W>>),
    |
        {
            &&& #[trigger] call_ensures(
                Condvar::<W>::wait_async_timeout::<T>,
                (condvar, mutex, guard, waiter, deadline),
                begun,
            )
            &&& #[trigger] call_ensures(
                AsyncWait::poll::<T, W>,
                (begun.0, later, lock, turn),
                polled,
            )
        } implies is_over(Wait::Task(begun.0), false, (*lock)@, progress_async(polled.0)) by {
        law_steps_of_suspended_wait::<T, W>(begun.0, turn);
    }
}

/// A wait that parked, and is off its list when it comes back, is over with that step and has
/// not timed out, whichever call began it, with or without a deadline. Without one it is over
/// however it comes back.
pub proof fn law_notified_waits_end<T, W>(
    strategy: Strategy,
    guard: Guard<T>,
    waiter: Waiter<W>,
    deadline: u64,
    next: Turn<W>,
    turn: Turn<W>,
)
    requires
        strategy == Strategy::Block,
        next.now < deadline,
    ensures
        forall|
            condvar: &mut Condvar<W>,
            mutex: &mut Mutex<T, W>,
            begun: (BlockWait, Vec<W>),
            between: &mut Condvar<W>,
            held: &mut Mutex<T, W>,
            went_on: Progress<BlockWait, T>,
            parked: BlockWait,
            later: &mut Condvar<W>,
            lock: &mut Mutex<T, W>,
            polled: Progress<BlockWait, T>,
        |
            {
                &&& #[trigger] call_ensures(
                    Condvar::<W>::wait_block::<T>,
                    (condvar, mutex, guard, waiter),
                    begun,
                )
                &&& #[trigger] call_ensures(
                    BlockWait::poll::<T, W>,
                    (begun.0, between, held, next),
                    went_on,
                )
                &&& went_on matches Progress::Pending(left, _) && left == parked
                &&& #[trigger] call_ensures(
                    BlockWait::poll::<T, W>,
                    (parked, later, lock, turn),
                    polled,
                )
            } ==> is_over(Wait::Block(begun.0), false, (*lock)@, progress_block(polled)),
        forall|
            condvar: &mut Condvar<W>,
            mutex: &mut Mutex<T, W>,
            begun: (BlockWait, Vec<W>),
            between: &mut Condvar<W>,
            held: &mut Mutex<T, W>,
            went_on: Progress<BlockWait, T>,
            parked: BlockWait,
            later: &mut Condvar<W>,
            lock: &mut Mutex<T, W>,
            polled: Progress<BlockWait, T>,
        |
            {
                &&& #[trigger] call_ensures(
                    Condvar::<W>::wait_block_until::<T>,
                    (condvar, mutex, guard, waiter, deadline),
                    begun,
                )
                &&& #[trigger] call_ensures(
                    BlockWait::poll::<T, W>,
                    (begun.0, between, held, next),
                    went_on,
                )
                &&& went_on matches Progress::Pending(left, _) && left == parked
                &&& #[trigger] call_ensures(
                    BlockWait::poll::<T, W>,
                    (parked, later, lock, turn),
                    polled,
                )
                &&& !is_on((*later)@.sync, waiter.id)
            } ==> is_over(Wait::Block(begun.0), false, (*lock)@, progress_block(polled)),
        forall|
            condvar: &mut Condvar<W>,
            mutex: &mut Mutex<T, W>,
            begun: (Wait, Vec<W>),
            between: &mut Condvar<W>,
            held: &mut Mutex<T, W>,
            went_on: (Progress<Wait, T>, Option<Waiter<W>>),
            parked: Wait,
            later: &mut Condvar<W>,
            lock: &mut Mutex<T, W>,
            polled: (Progress<Wait, T>, Option<Waiter<W>>),
        |
            {
                &&& #[trigger] call_ensures(
                    Condvar::<W>::wait_sync::<T>,
                    (condvar, strategy, mutex, guard, waiter),
                    begun,
                )
                &&& #[trigger] call_ensures(
                    Wait::poll::<T, W>,
                    (begun.0, between, held, next),
                    went_on,
                )
                &&& went_on.0 matches Progress::Pending(left, _) && left == parked
                &&& #[trigger] call_ensures(Wait::poll::<T, W>, (parked, later, lock, turn), polled)
            } ==> is_over(begun.0, false, (*lock)@, polled.0),
        forall|
            condvar: &mut Condvar<W>,
            mutex: &mut Mutex<T, W>,
            begun: (Wait, Vec<W>),
            between: &mut Condvar<W>,
            held: &mut Mutex<T, W>,
            went_on: (Progress<Wait, T>, Option<Waiter<W>>),
            parked: Wait,
            later: &mut Condvar<W>,
            lock: &mut Mutex<T, W>,
            polled: (Progress<Wait, T>, Option<Waiter<W>>),
        |
            {
                &&& #[trigger] call_ensures(
                    Condvar::<W>::wait_sync_until::<T>,
                    (condvar, strategy, mutex, guard, waiter, deadline),
                    begun,
                )
                &&& #[trigger] call_ensures(
                    Wait::poll::<T, W>,
                    (begun.0, between, held, next),
                    went_on,
                )
                &&& went_on.0 matches Progress::Pending(left, _) && left == parked
                &&& #[trigger] call_ensures(Wait::poll::<T, W>, (parked, later, lock, turn), polled)
                &&& !is_on((*later)@.sync, waiter.id)
            } ==> is_over(begun.0, false, (*lock)@, polled.0),
{
    law_waits_begin::<T, W>(strategy, guard, waiter, deadline);
    assert forall|
        condvar: &mut Condvar<W>,
        mutex: &mut Mutex<T, W>,
        begun: (BlockWait, Vec<W>),
        between: &mut Condvar<W>,
        held: &mut Mutex<T, W>,
        went_on: Progress<BlockWait, T>,
        parked: BlockWait,
        later: &mut Condvar<W>,
        lock: &mut Mutex<T, W>,
        polled: Progress<BlockWait, T>,
    |
        {
            &&& #[trigger] call_ensures(
                Condvar::<W>::wait_block::<T>,
                (condvar, mutex, guard, waiter),
                begun,
            )
            &&& #[trigger] call_ensures(
                BlockWait::poll::<T, W>,
                (begun.0, between, held, next),
                went_on,
            )
            &&& went_on matches Progress::Pending(left, _) && left == parked
            &&& #[trigger] call_ensures(
                BlockWait::poll::<T, W>,
                (parked, later, lock, turn),
                polled,
            )
        } implies is_over(Wait::Block(begun.0), false, (*lock)@, progress_block(polled)) by {
        law_steps_of_parking_wait::<T, W>(begun.0, next);
        law_steps_of_parking_wait::<T, W>(parked, turn);
    }
    assert forall|
        condvar: &mut Condvar<W>,
        mutex: &mut Mutex<T, W>,
        begun: (BlockWait, Vec<W>),
        between: &mut Condvar<W>,
        held: &mut Mutex<T, W>,
        went_on: Progress<BlockWait, T>,
        parked: BlockWait,
        later: &mut Condvar<W>,
        lock: &mut Mutex<T, W>,
        polled: Progress<BlockWait, T>,
    |
        {
            &&& #[trigger] call_ensures(
                Condvar::<W>::wait_block_until::<T>,
                (condvar, mutex, guard, waiter, deadline),
                begun,
            )
            &&& #[trigger] call_ensures(
                BlockWait::poll::<T, W>,
                (begun.0, between, held, next),
                went_on,
            )
            &&& went_on matches Progress::Pending(left, _) && left == parked
            &&& #[trigger] call_ensures(
                BlockWait::poll::<T, W>,
                (parked, later, lock, turn),
                polled,
            )
            &&& !is_on((*later)@.sync, waiter.id)
        } implies is_over(Wait::Block(begun.0), false, (*lock)@, progress_block(polled)) by {
        law_steps_of_parking_wait::<T, W>(begun.0, next);
        law_steps_of_parking_wait::<T, W>(parked, turn);
    }
    assert forall|
        condvar: &mut Condvar<W>,
        mutex: &mut Mutex<T, W>,
        begun: (Wait, Vec<W>),
        between: &mut Condvar<W>,
        held: &mut Mutex<T, W>,
        went_on: (Progress<Wait, T>, Option<Waiter<W>>),
        parked: Wait,
        later: &mut Condvar<W>,
        lock: &mut Mutex<T, W>,
        polled: (Progress<Wait, T>, Option<Waiter<W>>),
    |
        {
            &&& #[trigger] call_ensures(
                Condvar::<W>::wait_sync::<T>,
                (condvar, strategy, mutex, guard, waiter),
                begun,
            )
            &&& #[trigger] call_ensures(Wait::poll::<T, W>, (begun.0, between, held, next), went_on)
            &&& went_on.0 matches Progress::Pending(left, _) && left == parked
            &&& #[trigger] call_ensures(Wait::poll::<T, W>, (parked, later, lock, turn), polled)
        } implies is_over(begun.0, false, (*lock)@, polled.0) by {
        law_steps_of_any_wait::<T, W>(begun.0, next);
        law_steps_of_any_wait::<T, W>(parked, turn);
    }
    assert forall|
        condvar: &mut Condvar<W>,
        mutex: &mut Mutex<T, W>,
        begun: (Wait, Vec<W>),
        between: &mut Condvar<W>,
        held: &mut Mutex<T, W>,
        went_on: (Progress<Wait, T>, Option<Waiter<W>>),
        parked: Wait,
        later: &mut Condvar<W>,
        lock: &mut Mutex<T, W>,
        polled: (Progress<Wait, T>, Option<Waiter<W>>),
    |
        {
            &&& #[trigger] call_ensures(
                Condvar::<W>::wait_sync_until::<T>,
                (condvar, strategy, mutex, guard, waiter, deadline),
                begun,
            )
            &&& #[trigger] call_ensures(Wait::poll::<T, W>, (begun.0, between, held, next), went_on)
            &&& went_on.0 matches Progress::Pending(left, _) && left == parked
            &&& #[trigger] call_ensures(Wait::poll::<T, W>, (parked, later, lock, turn), polled)
            &&& !is_on((*later)@.sync, waiter.id)
        } implies is_over(begun.0, false, (*lock)@, polled.0) by {
        law_steps_of_any_wait::<T, W>(begun.0, next);
        law_steps_of_any_wait::<T, W>(parked, turn);
    }
}

/// Whether the newest waiter of those who spin, or else of those who are parked, or else of
/// the tasks, was taken off its list and all others stay. If nobody waits, nothing changes.
pub open spec fn notifies_one<W>(
    before: CondvarView<W>,
    notified: Option<Waiter<W>>,
    after: CondvarView<W>,
) -> bool {
    match notified {
        Some(waiter) => {
            ||| {
                &&& before.spin == after.spin.push(waiter)
                &&& after.sync == before.sync
                &&& after.tasks == before.tasks
            }
            ||| {
                &&& before.spin.len() == 0 && after.spin.len() == 0
                &&& before.sync == after.sync.push(waiter)
                &&& after.tasks == before.tasks
            }
            ||| {
                &&& before.spin.len() == 0 && after.spin.len() == 0
                &&& before.sync.len() == 0 && after.sync.len() == 0
                &&& before.tasks == after.tasks.push(waiter)
            }
        },
        None => {
            &&& before.spin.len() == 0 && before.sync.len() == 0 && before.tasks.len() == 0
            &&& after == before
        },
    }
}

/// `notify_one` takes one waiter off if anybody waits, `notify_all` everybody, in this order:
/// those who spin, those who are parked, then the tasks.
pub proof fn law_notifications<W>()
    ensures
        forall|condvar: &mut Condvar<W>, notified: Option<Waiter<W>>| #[trigger]
            call_ensures(Condvar::<W>::notify_one, (condvar,), notified) ==> {
                &&& notifies_one((*condvar)@, notified, (*final(condvar))@)
                &&& (*final(condvar)).wf()
            },
        forall|condvar: &mut Condvar<W>, notified: Vec<Waiter<W>>| #[trigger]
            call_ensures(Condvar::<W>::notify_all, (condvar,), notified) ==> {
                &&& notified@ == (*condvar)@.spin + (*condvar)@.sync + (*condvar)@.tasks
                &&& (*final(condvar))@.spin.len() == 0
                &&& (*final(condvar))@.sync.len() == 0
                &&& (*final(condvar))@.tasks.len() == 0
                &&& (*final(condvar)).wf()
            },
{
    assert forall|condvar: &mut Condvar<W>, notified: Option<Waiter<W>>| #[trigger]
        call_ensures(Condvar::<W>::notify_one, (condvar,), notified) implies notifies_one(
        (*condvar)@,
        notified,
        (*final(condvar))@,
    ) by {
        let before = (*condvar)@;
        let after = (*final(condvar))@;
        if before.spin.len() > 0 {
            assert(before.spin =~= after.spin.push(before.spin.last()));
        } else if before.sync.len() > 0 {
            assert(before.sync =~= after.sync.push(before.sync.last()));
        } else if before.tasks.len() > 0 {
            assert(before.tasks =~= after.tasks.push(before.tasks.last()));
        }
    }
}

/// Nobody waits for a new condition variable.
pub proof fn law_new_condvar<W>(condvar: Condvar<W>)
    requires
        call_ensures(Condvar::<W>::new, (), condvar) || call_ensures(
            <Condvar<W> as Default>::default,
            (),
            condvar,
        ),
    ensures
        condvar.wf(),
        condvar@.spin.len() == 0,
        condvar@.sync.len() == 0,
        condvar@.tasks.len() == 0,
{
}

/// A result says what it was made to say.
pub proof fn law_results_answer(result: WaitTimeoutResult, timed_out: bool)
    requires
        call_ensures(WaitTimeoutResult::timed_out, (&result,), timed_out),
    ensures
        timed_out == result@,
{
}

/// The notification wins a race if it is awaited and there, the timer if it is awaited and
/// went off and the notification has not won. The winner, and nobody else, is no longer
/// awaited.
pub proof fn law_races(notify_ready: bool, timeout_ready: bool)
    ensures
        forall|race: &mut Race, timed_out: Option<bool>| #[trigger]
            call_ensures(Race::poll, (race, notify_ready, timeout_ready), timed_out) ==> {
                let before = *race;
                let after = *final(race);
                match timed_out {
                    Some(false) => {
                        &&& before.notify && notify_ready
                        &&& after == Race { notify: false, ..before }
                    },
                    Some(true) => {
                        &&& !(before.notify && notify_ready)
                        &&& before.timeout && timeout_ready
                        &&& after == Race { timeout: false, ..before }
                    },
                    None => {
                        &&& !(before.notify && notify_ready)
                        &&& !(before.timeout && timeout_ready)
                        &&& after == before
                    },
                }
            },
{
}

/// A condition variable takes every notification and every wait, with any guard that came
/// from the mutex while its data are out, and every step of any wait.
pub proof fn law_condvar_accepts_every_call<T, W>(
    strategy: Strategy,
    guard: Guard<T>,
    waiter: Waiter<W>,
    deadline: u64,
    spin: SpinWait,
    block: BlockWait,
    task: AsyncWait,
    wait: Wait,
    turn: Turn<W>,
)
    ensures
        forall|condvar: &mut Condvar<W>| #[trigger]
            condvar.wf() ==> {
                &&& call_requires(Condvar::<W>::notify_one, (condvar,))
                &&& call_requires(Condvar::<W>::notify_all, (condvar,))
            },
        forall|condvar: &mut Condvar<W>, mutex: &mut Mutex<T, W>| #[trigger]
            condvar.wf() && #[trigger] mutex.consistent() ==> {
                &&& call_requires(SpinWait::poll::<T, W>, (spin, condvar, mutex, turn))
                &&& call_requires(BlockWait::poll::<T, W>, (block, condvar, mutex, turn))
                &&& call_requires(AsyncWait::poll::<T, W>, (task, condvar, mutex, turn))
                &&& call_requires(Wait::poll::<T, W>, (wait, condvar, mutex, turn))
                &&& (*mutex)@.data is None && guard.id() == (*mutex)@.id ==> {
                    &&& call_requires(
                        Condvar::<W>::wait_spin::<T>,
                        (condvar, mutex, guard, waiter),
                    )
                    &&& call_requires(
                        Condvar::<W>::wait_spin_until::<T>,
                        (condvar, mutex, guard, waiter, deadline),
                    )
                    &&& call_requires(
                        Condvar::<W>::wait_block::<T>,
                        (condvar, mutex, guard, waiter),
                    )
                    &&& call_requires(
                        Condvar::<W>::wait_block_until::<T>,
                        (condvar, mutex, guard, waiter, deadline),
                    )
                    &&& call_requires(
                        Condvar::<W>::wait_async::<T>,
                        (condvar, mutex, guard, waiter),
                    )
                    &&& call_requires(
                        Condvar::<W>::wait_async_until::<T>,
                        (condvar, mutex, guard, waiter, deadline),
                    )
                    &&& call_requires(
                        Condvar::<W>::wait_sync::<T>,
                        (condvar, strategy, mutex, guard, waiter),
                    )
                    &&& call_requires(
                        Condvar::<W>::wait_sync_until::<T>,
                        (condvar, strategy, mutex, guard, waiter, deadline),
                    )
                    &&& call_requires(
                        Condvar::<W>::wait_async_timeout::<T>,
                        (condvar, mutex, guard, waiter, deadline),
                    )
                }
            },
{
}

/// A condition variable takes every wait for a condition that can be asked of the data.
pub proof fn law_condvar_accepts_conditions<T, W, F: FnOnce(&mut T) -> bool>(
    strategy: Strategy,
    guard: Guard<T>,
    previous: WaitTimeoutResult,
    waiter: Waiter<W>,
    deadline: u64,
    condition: F,
)
    requires
        forall|data: &mut T| *data == guard@ ==> call_requires(condition, (data,)),
    ensures
        forall|condvar: &mut Condvar<W>, mutex: &mut Mutex<T, W>| #[trigger]
            condvar.wf() && #[trigger] mutex.consistent() && (*mutex)@.data is None && guard.id()
                == (*mutex)@.id ==> {
                &&& call_requires(
                    Condvar::<W>::wait_spin_while::<T, F>,
                    (condvar, mutex, guard, waiter, condition),
                )
                &&& call_requires(
                    Condvar::<W>::wait_block_while::<T, F>,
                    (condvar, mutex, guard, waiter, condition),
                )
                &&& call_requires(
                    Condvar::<W>::wait_async_while::<T, F>,
                    (condvar, mutex, guard, waiter, condition),
                )
                &&& call_requires(
                    Condvar::<W>::wait_sync_while::<T, F>,
                    (condvar, strategy, mutex, guard, waiter, condition),
                )
                &&& call_requires(
                    Condvar::<W>::wait_spin_until_while::<T, F>,
                    (condvar, mutex, guard, previous, waiter, deadline, condition),
                )
                &&& call_requires(
                    Condvar::<W>::wait_block_until_while::<T, F>,
                    (condvar, mutex, guard, previous, waiter, deadline, condition),
                )
                &&& call_requires(
                    Condvar::<W>::wait_async_until_while::<T, F>,
                    (condvar, mutex, guard, previous, waiter, deadline, condition),
                )
                &&& call_requires(
                    Condvar::<W>::wait_async_timeout_while::<T, F>,
                    (condvar, mutex, guard, previous, waiter, deadline, condition),
                )
                &&& call_requires(
                    Condvar::<W>::wait_sync_until_while::<T, F>,
                    (condvar, strategy, mutex, guard, previous, waiter, deadline, condition),
                )
            },
{
}

} // verus!
