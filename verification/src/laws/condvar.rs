//! Laws of the condition variable.

use vstd::multiset::Multiset;
use vstd::prelude::*;

use crate::condvar::wait::Wait;
use crate::condvar::wait_async::{AsyncPhase, AsyncWait};
use crate::condvar::wait_block::{BlockPhase, BlockWait};
use crate::condvar::wait_spin::{SpinPhase, SpinWait};
use crate::condvar::{expired, CondvarView, MonitorView, Turn};
use crate::platform::{Pause, Strategy};
use crate::waiter::{
    distinct_ids, first_at, first_place, lemma_first_place, listed, without_first, Waiter,
};

verus! {

/// One of the waiting lists.
pub enum List {
    /// Threads that spin.
    Spin,
    /// Threads that are parked.
    Sync,
    /// Tasks that are suspended.
    Tasks,
}

impl<W> CondvarView<W> {
    /// The entries of one list.
    pub open spec fn list(self, list: List) -> Seq<Waiter<W>> {
        match list {
            List::Spin => self.spin,
            List::Sync => self.sync,
            List::Tasks => self.tasks,
        }
    }

    /// The lists with other entries on one of them.
    pub open spec fn with_list(self, list: List, entries: Seq<Waiter<W>>) -> Self {
        match list {
            List::Spin => CondvarView { spin: entries, ..self },
            List::Sync => CondvarView { sync: entries, ..self },
            List::Tasks => CondvarView { tasks: entries, ..self },
        }
    }
}

/// A step that somebody takes on a condition variable.
pub enum CondvarStep<W> {
    /// A wait begins.
    Register(List, Waiter<W>),
    /// `notify_one`.
    NotifyOne,
    /// `notify_all`.
    NotifyAll,
    /// A waiter with this id takes itself off this list.
    GiveUp(List, u64),
}

/// The lists after a step.
pub open spec fn condvar_after<W>(lists: CondvarView<W>, step: CondvarStep<W>) -> CondvarView<W> {
    match step {
        CondvarStep::Register(list, waiter) => lists.with_list(
            list,
            lists.list(list).push(waiter),
        ),
        CondvarStep::NotifyOne => lists.notified_one(),
        CondvarStep::NotifyAll => CondvarView::idle(),
        CondvarStep::GiveUp(list, id) => lists.with_list(
            list,
            without_first(lists.list(list), id),
        ),
    }
}

/// The waiters that a step notifies.
pub open spec fn condvar_notifies<W>(lists: CondvarView<W>, step: CondvarStep<W>) -> Seq<Waiter<W>> {
    match step {
        CondvarStep::NotifyOne => match lists.next_notified() {
            Some(waiter) => seq![waiter],
            None => Seq::empty(),
        },
        CondvarStep::NotifyAll => lists.waiting(),
        _ => Seq::empty(),
    }
}

/// The lists after a run of steps.
pub open spec fn condvar_run<W>(
    lists: CondvarView<W>,
    steps: Seq<CondvarStep<W>>,
) -> CondvarView<W>
    decreases steps.len(),
{
    if steps.len() == 0 {
        lists
    } else {
        condvar_after(condvar_run(lists, steps.drop_last()), steps.last())
    }
}

/// The waiters that a run of steps notifies, in order.
pub open spec fn condvar_run_notifies<W>(
    lists: CondvarView<W>,
    steps: Seq<CondvarStep<W>>,
) -> Seq<Waiter<W>>
    decreases steps.len(),
{
    if steps.len() == 0 {
        Seq::empty()
    } else {
        condvar_run_notifies(lists, steps.drop_last()) + condvar_notifies(
            condvar_run(lists, steps.drop_last()),
            steps.last(),
        )
    }
}

/// What the methods of a condition variable and of a wait do to the lists are these
/// steps.
pub proof fn law_methods_are_steps<W>(lists: CondvarView<W>, waiter: Waiter<W>, id: u64)
    ensures
        lists.with_spin(waiter) == condvar_after(
            lists,
            CondvarStep::Register(List::Spin, waiter),
        ),
        lists.with_sync(waiter) == condvar_after(
            lists,
            CondvarStep::Register(List::Sync, waiter),
        ),
        lists.with_task(waiter) == condvar_after(
            lists,
            CondvarStep::Register(List::Tasks, waiter),
        ),
        (CondvarView { spin: without_first(lists.spin, id), ..lists }) == condvar_after(
            lists,
            CondvarStep::GiveUp(List::Spin, id),
        ),
        (CondvarView { sync: without_first(lists.sync, id), ..lists }) == condvar_after(
            lists,
            CondvarStep::GiveUp(List::Sync, id),
        ),
        (CondvarView { tasks: without_first(lists.tasks, id), ..lists }) == condvar_after(
            lists,
            CondvarStep::GiveUp(List::Tasks, id),
        ),
{
}

/// `notify_one` takes exactly the waiter that it returns off the lists, and if nobody
/// waits it does nothing.
pub proof fn law_notify_one_takes_one<W>(lists: CondvarView<W>)
    ensures
        lists.next_notified() is None <==> lists.waiting().len() == 0,
        lists.waiting().len() == 0 ==> lists.notified_one() == lists,
        lists.waiting().len() > 0 ==> {
            let notified = lists.next_notified()->Some_0;
            &&& lists.waiting().contains(notified)
            &&& lists.waiting().to_multiset()
                == lists.notified_one().waiting().to_multiset().insert(notified)
        },
{
    broadcast use vstd::seq_lib::group_to_multiset_ensures;

    if lists.spin.len() > 0 {
        lemma_drop_from(Seq::empty(), lists.spin, lists.sync + lists.tasks);
        assert(lists.waiting() =~= Seq::empty() + lists.spin + (lists.sync + lists.tasks));
        assert(lists.notified_one().waiting() =~= Seq::empty() + lists.spin.drop_last() + (
        lists.sync + lists.tasks));
    } else if lists.sync.len() > 0 {
        lemma_drop_from(lists.spin, lists.sync, lists.tasks);
    } else if lists.tasks.len() > 0 {
        lemma_drop_from(lists.spin + lists.sync, lists.tasks, Seq::empty());
        assert(lists.waiting() =~= lists.spin + lists.sync + lists.tasks + Seq::empty());
        assert(lists.notified_one().waiting() =~= lists.spin + lists.sync + lists.tasks.drop_last()
            + Seq::empty());
    }
}

proof fn lemma_drop_from<A>(front: Seq<A>, middle: Seq<A>, back: Seq<A>)
    requires
        middle.len() > 0,
    ensures
        (front + middle + back).contains(middle.last()),
        (front + middle + back).to_multiset() == (front + middle.drop_last()
            + back).to_multiset().insert(middle.last()),
{
    broadcast use vstd::seq_lib::group_to_multiset_ensures;

    let all = front + middle + back;
    let at = front.len() + middle.len() - 1;
    assert(all[at] == middle.last());
    assert(all.remove(at) =~= front + middle.drop_last() + back);
    assert(all.to_multiset().contains(all[at]));
}

/// Nobody waits any more after `notify_all`, and it returns the same waiters that
/// `notify_one` returns when it is called until nobody waits.
pub proof fn law_notify_all_is_notify_one_for_all<W>(lists: CondvarView<W>)
    ensures
        condvar_after(lists, CondvarStep::NotifyAll).waiting().len() == 0,
        condvar_run(lists, notify_ones(lists.waiting().len())) == condvar_after(
            lists,
            CondvarStep::NotifyAll,
        ),
        condvar_run_notifies(lists, notify_ones(lists.waiting().len())).to_multiset()
            == condvar_notifies(lists, CondvarStep::NotifyAll).to_multiset(),
{
    broadcast use vstd::seq_lib::group_to_multiset_ensures;

    let count = lists.waiting().len();
    lemma_notify_ones(lists, count);
    let rest = condvar_run(lists, notify_ones(count));
    assert(rest.waiting().len() == 0);
    assert(rest =~= CondvarView::idle());
    assert(rest.waiting() =~= Seq::empty());
    assert(rest.waiting().to_multiset() =~= Multiset::empty());
}

/// This many calls of `notify_one`.
pub open spec fn notify_ones<W>(count: nat) -> Seq<CondvarStep<W>> {
    Seq::new(count, |i: int| CondvarStep::NotifyOne)
}

proof fn lemma_notify_ones<W>(lists: CondvarView<W>, count: nat)
    requires
        count <= lists.waiting().len(),
    ensures
        condvar_run(lists, notify_ones(count)).waiting().len() == lists.waiting().len() - count,
        lists.waiting().to_multiset() == condvar_run(
            lists,
            notify_ones(count),
        ).waiting().to_multiset().add(
            condvar_run_notifies(lists, notify_ones(count)).to_multiset(),
        ),
    decreases count,
{
    broadcast use vstd::seq_lib::group_to_multiset_ensures;

    if count == 0 {
        assert(condvar_run_notifies(lists, notify_ones::<W>(0)).to_multiset()
            =~= Multiset::empty());
    } else {
        let fewer = (count - 1) as nat;
        lemma_notify_ones(lists, fewer);
        assert(notify_ones::<W>(count).drop_last() =~= notify_ones(fewer));
        let before = condvar_run(lists, notify_ones(fewer));
        law_notify_one_takes_one(before);
        let notified = before.next_notified()->Some_0;
        let earlier = condvar_run_notifies(lists, notify_ones(fewer));
        assert(condvar_run_notifies(lists, notify_ones(count)) =~= earlier.push(notified));
        assert(earlier.push(notified).to_multiset() =~= earlier.to_multiset().insert(notified));
        let after = before.notified_one();
        assert(before.waiting().len() == after.waiting().len() + 1);
        assert(before.waiting().to_multiset().add(earlier.to_multiset())
            =~= after.waiting().to_multiset().add(earlier.push(notified).to_multiset()));
    }
}

/// A waiter that is off its list, and did not take itself off, has been notified:
/// after any run of steps of others it has been, or it is still there.
pub proof fn law_off_the_list_means_notified<W>(
    lists: CondvarView<W>,
    steps: Seq<CondvarStep<W>>,
    list: List,
    waiter: Waiter<W>,
)
    requires
        lists.list(list).contains(waiter),
        forall|i: int|
            0 <= i < steps.len() ==> #[trigger] steps[i] != CondvarStep::<W>::GiveUp(
                list,
                waiter.id,
            ),
    ensures
        condvar_run(lists, steps).list(list).contains(waiter) || condvar_run_notifies(
            lists,
            steps,
        ).contains(waiter),
    decreases steps.len(),
{
    broadcast use vstd::seq_lib::group_seq_properties;

    if steps.len() > 0 {
        let earlier = steps.drop_last();
        assert(forall|i: int| 0 <= i < earlier.len() ==> #[trigger] earlier[i] == steps[i]);
        law_off_the_list_means_notified(lists, earlier, list, waiter);
        let before = condvar_run(lists, earlier);
        assert(steps.last() == steps[steps.len() - 1]);
        if before.list(list).contains(waiter) {
            lemma_kept_or_notified(before, steps.last(), list, waiter);
            if condvar_notifies_from(before, steps.last(), list).contains(waiter) {
                lemma_notified_from_its_list(before, steps.last(), list, waiter);
            }
        }
    }
}

/// The waiters of one list that a step notifies.
pub open spec fn condvar_notifies_from<W>(
    lists: CondvarView<W>,
    step: CondvarStep<W>,
    list: List,
) -> Seq<Waiter<W>> {
    match step {
        CondvarStep::NotifyOne => if lists.notified_one().list(list).len() < lists.list(list).len() {
            seq![lists.next_notified()->Some_0]
        } else {
            Seq::empty()
        },
        CondvarStep::NotifyAll => lists.list(list),
        _ => Seq::empty(),
    }
}

proof fn lemma_kept_or_notified<W>(
    lists: CondvarView<W>,
    step: CondvarStep<W>,
    list: List,
    waiter: Waiter<W>,
)
    requires
        lists.list(list).contains(waiter),
        step != CondvarStep::<W>::GiveUp(list, waiter.id),
    ensures
        condvar_after(lists, step).list(list).contains(waiter) || condvar_notifies_from(
            lists,
            step,
            list,
        ).contains(waiter),
{
    let entries = lists.list(list);
    let at = choose|i: int| 0 <= i < entries.len() && entries[i] == waiter;
    let after = condvar_after(lists, step).list(list);
    let notified = condvar_notifies_from(lists, step, list);
    match step {
        CondvarStep::NotifyOne => {
            if at < after.len() {
                assert(after[at] == waiter);
            } else {
                assert(notified[0] == waiter);
            }
        },
        CondvarStep::NotifyAll => {},
        CondvarStep::GiveUp(other, id) => {
            if other == list && listed(entries, id) {
                lemma_first_place(entries, id);
                if at < first_place(entries, id) {
                    assert(after[at] == waiter);
                } else {
                    assert(after[at - 1] == waiter);
                }
            } else {
                assert(after[at] == waiter);
            }
        },
        CondvarStep::Register(_, _) => {
            assert(after[at] == waiter);
        },
    }
}

proof fn lemma_notified_from_its_list<W>(
    lists: CondvarView<W>,
    step: CondvarStep<W>,
    list: List,
    waiter: Waiter<W>,
)
    requires
        condvar_notifies_from(lists, step, list).contains(waiter),
    ensures
        condvar_notifies(lists, step).contains(waiter),
{
    let from = condvar_notifies_from(lists, step, list);
    let at = choose|i: int| 0 <= i < from.len() && from[i] == waiter;
    let offset = match (step, list) {
        (CondvarStep::NotifyAll, List::Sync) => lists.spin.len() as int,
        (CondvarStep::NotifyAll, List::Tasks) => (lists.spin.len() + lists.sync.len()) as int,
        _ => 0int,
    };
    assert(condvar_notifies(lists, step)[offset + at] == waiter);
}

/// The waiters of one list that a run of steps notifies, in order.
pub open spec fn condvar_run_notifies_from<W>(
    lists: CondvarView<W>,
    steps: Seq<CondvarStep<W>>,
    list: List,
) -> Seq<Waiter<W>>
    decreases steps.len(),
{
    if steps.len() == 0 {
        Seq::empty()
    } else {
        condvar_run_notifies_from(lists, steps.drop_last(), list) + condvar_notifies_from(
            condvar_run(lists, steps.drop_last()),
            steps.last(),
            list,
        )
    }
}

/// Whether the waiter is on the list, and its id is on it only once.
pub open spec fn sole<W>(list: Seq<Waiter<W>>, waiter: Waiter<W>) -> bool {
    &&& list.contains(waiter)
    &&& forall|i: int, j: int|
        {
            &&& 0 <= i < list.len()
            &&& 0 <= j < list.len()
            &&& (#[trigger] list[i]).id == waiter.id
            &&& (#[trigger] list[j]).id == waiter.id
        } ==> i == j
}

/// Whether none of the steps is one that the waiter with this id takes.
pub open spec fn by_others<W>(steps: Seq<CondvarStep<W>>, list: List, id: u64) -> bool {
    forall|i: int|
        0 <= i < steps.len() ==> match #[trigger] steps[i] {
            CondvarStep::Register(registered, waiter) => registered != list || waiter.id != id,
            CondvarStep::GiveUp(left, other) => left != list || other != id,
            _ => true,
        }
}

/// A waiter with an id of its own is on its list exactly as long as it has not been
/// notified, whatever the others do.
pub proof fn law_listed_until_notified<W>(
    lists: CondvarView<W>,
    steps: Seq<CondvarStep<W>>,
    list: List,
    waiter: Waiter<W>,
)
    requires
        sole(lists.list(list), waiter),
        by_others(steps, list, waiter.id),
    ensures
        ({
            let notified = condvar_run_notifies_from(lists, steps, list).contains(waiter);
            let after = condvar_run(lists, steps).list(list);
            &&& notified ==> !listed(after, waiter.id)
            &&& !notified ==> sole(after, waiter)
        }),
{
    lemma_listed_or_notified(lists, steps, list, waiter);
    let notified = condvar_run_notifies_from(lists, steps, list);
    if notified.contains(waiter) {
        let at = choose|i: int| 0 <= i < notified.len() && notified[i] == waiter;
        assert(notified[at].id == waiter.id);
    }
}

proof fn lemma_listed_or_notified<W>(
    lists: CondvarView<W>,
    steps: Seq<CondvarStep<W>>,
    list: List,
    waiter: Waiter<W>,
)
    requires
        sole(lists.list(list), waiter),
        by_others(steps, list, waiter.id),
    ensures
        ({
            let notified = condvar_run_notifies_from(lists, steps, list);
            let after = condvar_run(lists, steps).list(list);
            ||| sole(after, waiter) && !listed(notified, waiter.id)
            ||| !listed(after, waiter.id) && notified.contains(waiter)
        }),
    decreases steps.len(),
{
    if steps.len() > 0 {
        let earlier = steps.drop_last();
        assert(forall|i: int| 0 <= i < earlier.len() ==> #[trigger] earlier[i] == steps[i]);
        lemma_listed_or_notified(lists, earlier, list, waiter);
        let before = condvar_run(lists, earlier);
        let step = steps.last();
        assert(step == steps[steps.len() - 1]);
        let told = condvar_run_notifies_from(lists, earlier, list);
        let now = condvar_notifies_from(before, step, list);
        let after = condvar_after(before, step).list(list);
        if sole(before.list(list), waiter) {
            lemma_one_step(before, step, list, waiter);
            if sole(after, waiter) {
                assert(!listed(told + now, waiter.id));
            } else {
                let at = choose|i: int| 0 <= i < now.len() && now[i] == waiter;
                assert((told + now)[told.len() + at] == waiter);
            }
        } else {
            lemma_stays_off(before, step, list, waiter.id);
            let at = choose|i: int| 0 <= i < told.len() && told[i] == waiter;
            assert((told + now)[at] == waiter);
        }
    }
}

proof fn lemma_one_step<W>(
    lists: CondvarView<W>,
    step: CondvarStep<W>,
    list: List,
    waiter: Waiter<W>,
)
    requires
        sole(lists.list(list), waiter),
        by_others(seq![step], list, waiter.id),
    ensures
        ({
            let notified = condvar_notifies_from(lists, step, list);
            let after = condvar_after(lists, step).list(list);
            ||| sole(after, waiter) && !listed(notified, waiter.id)
            ||| !listed(after, waiter.id) && notified.contains(waiter)
        }),
{
    assert(seq![step][0] == step);
    lemma_kept_or_notified(lists, step, list, waiter);
    let entries = lists.list(list);
    let after = condvar_after(lists, step).list(list);
    match step {
        CondvarStep::GiveUp(other, id) => {
            if other == list && listed(entries, id) {
                lemma_places_after_removal(entries, id);
            }
        },
        _ => {},
    }
}

/// Where the entries stand after the first one of `id` was taken off.
proof fn lemma_places_after_removal<W>(list: Seq<Waiter<W>>, id: u64)
    requires
        listed(list, id),
    ensures
        ({
            let first = first_place(list, id);
            let rest = without_first(list, id);
            &&& first_at(list, id, first)
            &&& rest.len() == list.len() - 1
            &&& forall|i: int| 0 <= i < first ==> #[trigger] rest[i] == list[i]
            &&& forall|i: int| first <= i < rest.len() ==> #[trigger] rest[i] == list[i + 1]
        }),
{
    lemma_first_place(list, id);
}

proof fn lemma_stays_off<W>(lists: CondvarView<W>, step: CondvarStep<W>, list: List, id: u64)
    requires
        !listed(lists.list(list), id),
        by_others(seq![step], list, id),
    ensures
        !listed(condvar_after(lists, step).list(list), id),
{
    assert(seq![step][0] == step);
    let entries = lists.list(list);
    let after = condvar_after(lists, step).list(list);
    match step {
        CondvarStep::GiveUp(other, gone) => {
            if other == list && listed(entries, gone) {
                lemma_places_after_removal(entries, gone);
            }
        },
        _ => {},
    }
}

/// A wait that spins says truthfully why it is over. It began with an id of its own,
/// others took whatever steps, and its flag was raised only if it was notified: then
/// it has timed out only if it was not notified, and otherwise only if it was.
pub proof fn law_spinning_wait_is_truthful<W>(
    lists: CondvarView<W>,
    waiter: Waiter<W>,
    deadline: Option<u64>,
    steps: Seq<CondvarStep<W>>,
    turn: Turn<W>,
)
    requires
        !listed(lists.spin, waiter.id),
        by_others(steps, List::Spin, waiter.id),
        turn.signalled ==> condvar_run_notifies_from(
            lists.with_spin(waiter),
            steps,
            List::Spin,
        ).contains(waiter),
    ensures
        ({
            let begun = lists.with_spin(waiter);
            let notified = condvar_run_notifies_from(begun, steps, List::Spin).contains(waiter);
            let wait = SpinWait::begun(waiter, deadline);
            match wait.advanced(turn, condvar_run(begun, steps).spin) {
                SpinPhase::Relocking { timed_out } => timed_out == !notified,
                SpinPhase::Claimed => notified,
                SpinPhase::Listed => !expired(deadline, turn.now),
            }
        }),
{
    lemma_registered_alone(lists.spin, waiter);
    law_listed_until_notified(lists.with_spin(waiter), steps, List::Spin, waiter);
    lemma_sole_is_listed(condvar_run(lists.with_spin(waiter), steps).spin, waiter);
}

/// A wait that parks until a deadline says truthfully why it is over: it began with
/// an id of its own, others took whatever steps, and then it has timed out only if it
/// was not notified, and otherwise only if it was.
pub proof fn law_parking_wait_is_truthful<W>(
    lists: CondvarView<W>,
    waiter: Waiter<W>,
    deadline: u64,
    parked: bool,
    steps: Seq<CondvarStep<W>>,
    turn: Turn<W>,
)
    requires
        !listed(lists.sync, waiter.id),
        by_others(steps, List::Sync, waiter.id),
    ensures
        ({
            let begun = lists.with_sync(waiter);
            let notified = condvar_run_notifies_from(begun, steps, List::Sync).contains(waiter);
            let wait = BlockWait {
                phase: if parked {
                    BlockPhase::Parked
                } else {
                    BlockPhase::Listed
                },
                ..BlockWait::begun(waiter, Some(deadline))
            };
            match wait.advanced(turn, condvar_run(begun, steps).sync) {
                BlockPhase::Relocking { timed_out } => timed_out == !notified,
                _ => turn.now < deadline && (parked ==> !notified),
            }
        }),
{
    lemma_registered_alone(lists.sync, waiter);
    law_listed_until_notified(lists.with_sync(waiter), steps, List::Sync, waiter);
    lemma_sole_is_listed(condvar_run(lists.with_sync(waiter), steps).sync, waiter);
}

/// A suspended wait says truthfully why it is over. It began with an id of its own,
/// others took whatever steps, its signal came only if it was notified, and its timer
/// went off only after the deadline: then it has timed out only after its deadline, and
/// has succeeded only if it was notified. One that times out and was not notified takes
/// its own waiter off the list, to be woken after all.
pub proof fn law_suspended_wait_is_truthful<W>(
    lists: CondvarView<W>,
    waiter: Waiter<W>,
    deadline: Option<u64>,
    steps: Seq<CondvarStep<W>>,
    turn: Turn<W>,
)
    requires
        !listed(lists.tasks, waiter.id),
        by_others(steps, List::Tasks, waiter.id),
        turn.signalled ==> condvar_run_notifies_from(
            lists.with_task(waiter),
            steps,
            List::Tasks,
        ).contains(waiter),
        deadline is Some && turn.expired ==> expired(deadline, turn.now),
    ensures
        ({
            let begun = lists.with_task(waiter);
            let after = condvar_run(begun, steps);
            let notified = condvar_run_notifies_from(begun, steps, List::Tasks).contains(waiter);
            let wait = AsyncWait::begun(waiter, deadline);
            match wait.advanced(turn) {
                AsyncPhase::Relocking { timed_out } => {
                    &&& timed_out ==> expired(deadline, turn.now) && !turn.signalled
                    &&& !timed_out ==> notified
                    &&& !listed(wait.lists_after(turn, after).tasks, waiter.id)
                    &&& wait.cancels(turn, after) == if timed_out && !notified {
                        Some(waiter)
                    } else {
                        None
                    }
                },
                AsyncPhase::Suspended(_) => {
                    &&& wait.advanced(turn) == wait.phase
                    &&& !turn.signalled
                    &&& deadline is Some ==> !turn.expired
                },
            }
        }),
{
    let begun = lists.with_task(waiter);
    let after = condvar_run(begun, steps);
    lemma_registered_alone(lists.tasks, waiter);
    law_listed_until_notified(begun, steps, List::Tasks, waiter);
    lemma_sole_is_listed(after.tasks, waiter);
    if sole(after.tasks, waiter) {
        lemma_places_after_removal(after.tasks, waiter.id);
    }
}

proof fn lemma_registered_alone<W>(list: Seq<Waiter<W>>, waiter: Waiter<W>)
    requires
        !listed(list, waiter.id),
    ensures
        sole(list.push(waiter), waiter),
{
    assert(list.push(waiter)[list.len() as int] == waiter);
}

proof fn lemma_sole_is_listed<W>(list: Seq<Waiter<W>>, waiter: Waiter<W>)
    ensures
        sole(list, waiter) ==> listed(list, waiter.id),
{
    if list.contains(waiter) {
        let at = choose|i: int| 0 <= i < list.len() && list[i] == waiter;
        assert(list[at].id == waiter.id);
    }
}

/// A waiter that takes itself off a list of distinct waiters is off it, and nobody
/// else is: no notification can be meant for it any more.
pub proof fn law_giving_up_removes_one<W>(list: Seq<Waiter<W>>, id: u64, other: Waiter<W>)
    requires
        distinct_ids(list),
    ensures
        !listed(without_first(list, id), id),
        distinct_ids(without_first(list, id)),
        other.id != id ==> (list.contains(other) <==> without_first(list, id).contains(other)),
{
    if listed(list, id) {
        lemma_places_after_removal(list, id);
        let first = first_place(list, id);
        let rest = without_first(list, id);
        if list.contains(other) && other.id != id {
            let at = choose|i: int| 0 <= i < list.len() && list[i] == other;
            if at < first {
                assert(rest[at] == other);
            } else {
                assert(rest[at - 1] == other);
            }
        }
    }
}

/// A wait that spins or parks times out only after its deadline, and only while it
/// is on its list: one that was notified in time says so, however late it looks.
pub proof fn law_timeout_hides_no_notification<W>(
    spin: SpinWait,
    block: BlockWait,
    turn: Turn<W>,
    lists: CondvarView<W>,
)
    ensures
        spin.phase !is Relocking && spin.verdict(turn, lists) == Some(true) ==> {
            &&& expired(spin.deadline, turn.now)
            &&& listed(lists.spin, spin.id)
            &&& !turn.signalled
            &&& spin.lists_after(turn, lists).spin == without_first(lists.spin, spin.id)
        },
        block.phase !is Relocking && block.verdict(turn, lists) == Some(true) ==> {
            &&& expired(block.deadline, turn.now)
            &&& listed(lists.sync, block.id)
            &&& block.lists_after(turn, lists).sync == without_first(lists.sync, block.id)
        },
{
}

/// A suspended wait times out only if it has a timer and the timer went off before
/// the notification came, and ends otherwise only by the notification.
pub proof fn law_suspended_wait_ends_by_its_race<W>(wait: AsyncWait, turn: Turn<W>)
    ensures
        wait.phase matches AsyncPhase::Suspended(race) ==> {
            &&& wait.verdict(turn) == Some(true) <==> {
                &&& race.timeout
                &&& turn.expired
                &&& !(race.notify && turn.signalled)
            }
            &&& wait.verdict(turn) == Some(false) <==> race.notify && turn.signalled
        },
{
}

/// A wait that was begun without a deadline is not timed out by any step.
pub proof fn law_untimed_waits_do_not_time_out<W>(
    waiter: Waiter<W>,
    turns: Seq<Turn<W>>,
    lists: Seq<CondvarView<W>>,
)
    requires
        turns.len() == lists.len(),
    ensures
        wait_run(Wait::Spin(SpinWait::begun(waiter, None)), turns, lists).may_not_time_out(),
        wait_run(Wait::Block(BlockWait::begun(waiter, None)), turns, lists).may_not_time_out(),
        wait_run(Wait::Task(AsyncWait::begun(waiter, None)), turns, lists).may_not_time_out(),
    decreases turns.len(),
{
    if turns.len() > 0 {
        law_untimed_waits_do_not_time_out(waiter, turns.drop_last(), lists.drop_last());
    }
}

impl Wait {
    /// Whether the wait has no deadline and has not timed out.
    pub open spec fn may_not_time_out(self) -> bool {
        match self {
            Wait::Spin(wait) => {
                &&& wait.deadline is None
                &&& wait.phase != SpinPhase::Relocking { timed_out: true }
            },
            Wait::Block(wait) => {
                &&& wait.deadline is None
                &&& wait.phase != BlockPhase::Relocking { timed_out: true }
            },
            Wait::Task(wait) => match wait.phase {
                AsyncPhase::Suspended(race) => wait.deadline is None && !race.timeout,
                AsyncPhase::Relocking { timed_out } => wait.deadline is None && !timed_out,
            },
        }
    }
}

/// A wait after a run of steps, each with the lists that it found.
pub open spec fn wait_run<W>(wait: Wait, turns: Seq<Turn<W>>, lists: Seq<CondvarView<W>>) -> Wait
    decreases turns.len(),
{
    if turns.len() == 0 {
        wait
    } else {
        wait_run(wait, turns.drop_last(), lists.drop_last()).moved(turns.last(), lists.last())
    }
}

/// A notification or a deadline ends a wait: a signal ends one that spins or is
/// suspended, being off the list ends one that has parked, and past its deadline one
/// that is still on its list ends too.
pub proof fn law_waits_end<W>(
    spin: SpinWait,
    block: BlockWait,
    task: AsyncWait,
    turn: Turn<W>,
    lists: CondvarView<W>,
)
    ensures
        turn.signalled ==> spin.verdict(turn, lists) is Some,
        expired(spin.deadline, turn.now) && spin.phase is Listed && listed(lists.spin, spin.id)
            ==> spin.verdict(turn, lists) is Some,
        block.phase is Parked && !listed(lists.sync, block.id) ==> block.verdict(turn, lists) is Some,
        expired(block.deadline, turn.now) ==> block.verdict(turn, lists) is Some,
        task.phase matches AsyncPhase::Suspended(race) ==> (race.notify && turn.signalled
            ==> task.verdict(turn) is Some),
{
}

/// A wait that is over returns as soon as it finds the mutex free, with the data in
/// its guard.
pub proof fn law_over_and_free_is_ready<T, W>(
    wait: Wait,
    next: Wait,
    turn: Turn<W>,
    before: MonitorView<T, W>,
    after: MonitorView<T, W>,
    pause: Pause,
)
    requires
        wait.verdict(turn, before.condvar) is Some,
        !before.mutex.held(),
    ensures
        !wait.continues(turn, before, after, next, pause),
{
}

/// Where threads may not block, a wait that spins never asks to block, even for the
/// mutex. A suspended wait asks neither to block nor to spin, anywhere.
pub proof fn law_waits_keep_the_thread<T, W>(
    spin: SpinWait,
    next: SpinWait,
    task: AsyncWait,
    next_task: AsyncWait,
    turn: Turn<W>,
    before: MonitorView<T, W>,
    after: MonitorView<T, W>,
    pause: Pause,
)
    ensures
        turn.strategy == Strategy::Spin && spin.continues(turn, before, after, next, pause)
            ==> !pause.blocks(),
        task.continues(turn, before, after, next_task, pause) ==> pause == Pause::Await,
{
}

/// Where threads may block, a wait that parks never asks to spin.
pub proof fn law_parking_waits_do_not_spin<T, W>(
    wait: BlockWait,
    next: BlockWait,
    turn: Turn<W>,
    before: MonitorView<T, W>,
    after: MonitorView<T, W>,
    pause: Pause,
)
    requires
        turn.strategy == Strategy::Block,
        wait.continues(turn, before, after, next, pause),
    ensures
        pause.blocks(),
{
}

} // verus!
