//! Laws of all the waits on a condition variable.

use vstd::prelude::*;

use super::condvar::{
    condvar_run, condvar_run_notifies, law_giving_up_removes_one, law_notify_one_takes_one,
    notify_ones, List,
};
use crate::condvar::wait::Wait;
use crate::condvar::wait_async::AsyncWait;
use crate::condvar::wait_block::BlockWait;
use crate::condvar::wait_spin::SpinWait;
use crate::condvar::{CondvarView, Turn};
use crate::waiter::{distinct_ids, listed, Waiter};

verus! {

impl Wait {
    /// The wait that `waiter` begins on this list.
    pub open spec fn begun_on<W>(list: List, waiter: Waiter<W>, deadline: Option<u64>) -> Self {
        match list {
            List::Spin => Wait::Spin(SpinWait::begun(waiter, deadline)),
            List::Sync => Wait::Block(BlockWait::begun(waiter, deadline)),
            List::Tasks => Wait::Task(AsyncWait::begun(waiter, deadline)),
        }
    }

    /// Id of whoever waits.
    pub open spec fn id(self) -> u64 {
        match self {
            Wait::Spin(wait) => wait.id,
            Wait::Block(wait) => wait.id,
            Wait::Task(wait) => wait.id,
        }
    }

    /// The list that it waits on.
    pub open spec fn list(self) -> List {
        match self {
            Wait::Spin(_) => List::Spin,
            Wait::Block(_) => List::Sync,
            Wait::Task(_) => List::Tasks,
        }
    }

    /// Whether the wait is over, and only the mutex is yet to be taken.
    pub open spec fn over(self) -> bool {
        match self {
            Wait::Spin(wait) => wait.phase is Relocking,
            Wait::Block(wait) => wait.phase is Relocking,
            Wait::Task(wait) => wait.phase is Relocking,
        }
    }

    /// Whether the wait goes on and has not been notified.
    pub open spec fn registered<W>(self, lists: CondvarView<W>) -> bool {
        !self.over() && listed(lists.list(self.list()), self.id())
    }
}

/// Whether the wait at place `i` goes on and is the one with this id on this list.
pub open spec fn waits_at(waits: Seq<Option<Wait>>, i: int, list: List, id: u64) -> bool {
    &&& 0 <= i < waits.len()
    &&& waits[i] matches Some(wait) && !wait.over() && wait.list() == list && wait.id() == id
}

/// Whether there is a wait that goes on and has this id on this list.
pub open spec fn has_wait(waits: Seq<Option<Wait>>, list: List, id: u64) -> bool {
    exists|i: int| waits_at(waits, i, list, id)
}

/// Whether there is a wait at place `i` that goes on and has not been notified.
pub open spec fn registered_at<W>(
    lists: CondvarView<W>,
    waits: Seq<Option<Wait>>,
    i: int,
) -> bool {
    &&& 0 <= i < waits.len()
    &&& waits[i] matches Some(wait) && wait.registered(lists)
}

/// Whether every entry of the lists is that of a wait that goes on, and no two waits
/// share an entry, nor two entries a wait.
pub open spec fn all_owned<W>(lists: CondvarView<W>, waits: Seq<Option<Wait>>) -> bool {
    &&& forall|list: List| distinct_ids(#[trigger] lists.list(list))
    &&& forall|list: List, k: int|
        0 <= k < lists.list(list).len() ==> has_wait(
            waits,
            list,
            (#[trigger] lists.list(list)[k]).id,
        )
    &&& forall|i: int, j: int, list: List, id: u64| #[trigger]
        waits_at(waits, i, list, id) && #[trigger] waits_at(waits, j, list, id) ==> i == j
}

/// For each place, whether a wait there goes on and has not been notified.
pub open spec fn registrations<W>(
    lists: CondvarView<W>,
    waits: Seq<Option<Wait>>,
) -> Seq<bool> {
    Seq::new(waits.len(), |i: int| registered_at(lists, waits, i))
}

/// How many of the answers are yes.
pub open spec fn count(answers: Seq<bool>) -> nat
    decreases answers.len(),
{
    if answers.len() == 0 {
        0
    } else {
        count(answers.drop_last()) + if answers.last() {
            1nat
        } else {
            0nat
        }
    }
}

/// If one answer alone changes, the count changes with it.
pub proof fn lemma_count_with_one_changed(before: Seq<bool>, after: Seq<bool>, i: int)
    requires
        0 <= i < before.len() == after.len(),
        forall|j: int| 0 <= j < before.len() && j != i ==> #[trigger] before[j] == after[j],
    ensures
        before[i] == after[i] ==> count(after) == count(before),
        before[i] && !after[i] ==> count(after) == count(before) - 1,
        !before[i] && after[i] ==> count(after) == count(before) + 1,
    decreases before.len(),
{
    if i < before.len() - 1 {
        lemma_count_with_one_changed(before.drop_last(), after.drop_last(), i);
    } else {
        assert(before.drop_last() =~= after.drop_last());
    }
}

/// Beginning a wait with an id of its own keeps every entry with its wait.
pub proof fn lemma_begin<W>(
    lists: CondvarView<W>,
    waits: Seq<Option<Wait>>,
    i: int,
    waiter: Waiter<W>,
    wait: Wait,
)
    requires
        all_owned(lists, waits),
        0 <= i < waits.len(),
        waits[i] matches Some(old_wait) ==> old_wait.over(),
        !has_wait(waits, wait.list(), waiter.id),
        wait.id() == waiter.id,
        !wait.over(),
    ensures
        ({
            let begun = lists.with_list(wait.list(), lists.list(wait.list()).push(waiter));
            let together = waits.update(i, Some(wait));
            &&& all_owned(begun, together)
            &&& registered_at(begun, together, i)
            &&& forall|j: int|
                j != i ==> #[trigger] registered_at(begun, together, j) == registered_at(
                    lists,
                    waits,
                    j,
                )
        }),
{
    let entries = lists.list(wait.list());
    let begun = lists.with_list(wait.list(), entries.push(waiter));
    let together = waits.update(i, Some(wait));
    assert(begun.list(wait.list()) == entries.push(waiter));
    assert(entries.push(waiter)[entries.len() as int] == waiter);
    assert forall|list: List, k: int| 0 <= k < begun.list(list).len() implies has_wait(
        together,
        list,
        (#[trigger] begun.list(list)[k]).id,
    ) by {
        let id = begun.list(list)[k].id;
        if list == wait.list() && k == entries.len() {
            assert(waits_at(together, i, list, id));
        } else {
            assert(lists.list(list)[k] == begun.list(list)[k]);
            let owner = choose|owner: int| waits_at(waits, owner, list, id);
            assert(waits_at(together, owner, list, id));
        }
    }
    assert forall|a: int, b: int, list: List, id: u64| #[trigger]
        waits_at(together, a, list, id) && #[trigger] waits_at(together, b, list, id) implies a
        == b by {
        if a != i {
            assert(waits_at(waits, a, list, id));
        }
        if b != i {
            assert(waits_at(waits, b, list, id));
        }
    }
    assert forall|list: List| distinct_ids(#[trigger] begun.list(list)) by {
        assert(distinct_ids(lists.list(list)));
        if list == wait.list() {
            assert forall|a: int| 0 <= a < entries.len() implies (#[trigger] entries[a]).id
                != waiter.id by {
                assert(has_wait(waits, list, lists.list(list)[a].id));
            }
        }
    }
    assert forall|j: int| j != i implies #[trigger] registered_at(begun, together, j)
        == registered_at(lists, waits, j) by {
        if 0 <= j < waits.len() && waits[j] is Some {
            let other = waits[j]->Some_0;
            if !other.over() && other.list() == wait.list() {
                assert(waits_at(waits, j, wait.list(), other.id()));
                let before = lists.list(other.list());
                if listed(before, other.id()) {
                    let at = choose|at: int|
                        0 <= at < before.len() && (#[trigger] before[at]).id == other.id();
                    assert(begun.list(other.list())[at].id == other.id());
                }
            }
        }
    }
}

/// A step of a wait, with a signal only if the wait was notified, keeps every entry
/// with its wait. If the wait is over with it, it has no entry any more.
pub proof fn lemma_poll<W>(
    lists: CondvarView<W>,
    waits: Seq<Option<Wait>>,
    i: int,
    turn: Turn<W>,
)
    requires
        all_owned(lists, waits),
        0 <= i < waits.len(),
        waits[i] is Some,
        turn.signalled ==> !registered_at(lists, waits, i),
    ensures
        ({
            let wait = waits[i]->Some_0;
            let left = wait.lists_after(turn, lists);
            let together = waits.update(i, Some(wait.moved(turn, lists)));
            &&& all_owned(left, together)
            &&& registered_at(left, together, i) == (registered_at(lists, waits, i)
                && !wait.moved(turn, lists).over())
            &&& forall|j: int|
                j != i ==> #[trigger] registered_at(left, together, j) == registered_at(
                    lists,
                    waits,
                    j,
                )
        }),
{
    let wait = waits[i]->Some_0;
    let next = wait.moved(turn, lists);
    let left = wait.lists_after(turn, lists);
    let together = waits.update(i, Some(next));
    let entries = lists.list(wait.list());
    assert(next.list() == wait.list() && next.id() == wait.id());
    assert(distinct_ids(entries));
    assert(forall|list: List| list != wait.list() ==> #[trigger] left.list(list) == lists.list(list));
    assert forall|waiter: Waiter<W>| waiter.id != wait.id() implies #[trigger] left.list(
        wait.list(),
    ).contains(waiter) == entries.contains(waiter) by {
        law_giving_up_removes_one(entries, wait.id(), waiter);
    }
    assert(distinct_ids(left.list(wait.list())) && (next.over() && !wait.over() ==> !listed(
        left.list(wait.list()),
        wait.id(),
    ))) by {
        law_giving_up_removes_one(entries, wait.id(), entries[0]);
        if registered_at(lists, waits, i) {
            assert(!turn.signalled);
        }
    }
    assert(!next.over() || wait.over() ==> left == lists);
    assert forall|list: List| distinct_ids(#[trigger] left.list(list)) by {
        assert(distinct_ids(lists.list(list)));
    }
    assert forall|list: List, k: int| 0 <= k < left.list(list).len() implies has_wait(
        together,
        list,
        (#[trigger] left.list(list)[k]).id,
    ) by {
        let entry = left.list(list)[k];
        if next.over() && !wait.over() && list == wait.list() {
            assert(entry.id != wait.id());
            assert(left.list(list).contains(entry));
        }
        assert(lists.list(list).contains(entry)) by {
            if left == lists || list != wait.list() {
                assert(lists.list(list)[k] == entry);
            }
        }
        let at = choose|at: int| 0 <= at < lists.list(list).len() && lists.list(list)[at] == entry;
        assert(has_wait(waits, list, lists.list(list)[at].id));
        let owner = choose|owner: int| waits_at(waits, owner, list, entry.id);
        assert(waits_at(together, owner, list, entry.id));
    }
    assert forall|a: int, b: int, list: List, id: u64| #[trigger]
        waits_at(together, a, list, id) && #[trigger] waits_at(together, b, list, id) implies a
        == b by {
        assert(waits_at(waits, a, list, id));
        assert(waits_at(waits, b, list, id));
    }
    assert forall|j: int| j != i implies #[trigger] registered_at(left, together, j)
        == registered_at(lists, waits, j) by {
        if 0 <= j < waits.len() && waits[j] is Some && left != lists {
            let other = waits[j]->Some_0;
            if !other.over() && other.list() == wait.list() {
                assert(waits_at(waits, j, wait.list(), other.id()));
                assert(waits_at(waits, i, wait.list(), wait.id()));
                lemma_listed_in_both(entries, left.list(wait.list()), wait.id(), other.id());
            }
        }
    }
}

proof fn lemma_listed_in_both<W>(
    one: Seq<Waiter<W>>,
    other: Seq<Waiter<W>>,
    left: u64,
    id: u64,
)
    requires
        id != left,
        forall|waiter: Waiter<W>|
            waiter.id != left ==> #[trigger] other.contains(waiter) == one.contains(waiter),
    ensures
        listed(one, id) == listed(other, id),
{
    if listed(one, id) {
        let at = choose|at: int| 0 <= at < one.len() && (#[trigger] one[at]).id == id;
        assert(one.contains(one[at]));
        assert(other.contains(one[at]));
        let place = choose|place: int| 0 <= place < other.len() && other[place] == one[at];
        assert(other[place].id == id);
    }
    if listed(other, id) {
        let at = choose|at: int| 0 <= at < other.len() && (#[trigger] other[at]).id == id;
        assert(other.contains(other[at]));
        let place = choose|place: int| 0 <= place < one.len() && one[place] == other[at];
        assert(one[place].id == id);
    }
}

/// The list that the next notification takes somebody off.
pub open spec fn notified_list<W>(lists: CondvarView<W>) -> List {
    if lists.spin.len() > 0 {
        List::Spin
    } else if lists.sync.len() > 0 {
        List::Sync
    } else {
        List::Tasks
    }
}

/// Whether `notify_one` reaches the wait at place `i`: it has not been notified before,
/// it is the one whose waiter is returned, and after the call it has been notified.
pub open spec fn notify_reaches<W>(
    lists: CondvarView<W>,
    waits: Seq<Option<Wait>>,
    i: int,
) -> bool {
    &&& lists.next_notified() matches Some(notified) && waits_at(
        waits,
        i,
        notified_list(lists),
        notified.id,
    )
    &&& registered_at(lists, waits, i)
    &&& !registered_at(lists.notified_one(), waits, i)
}

/// If anybody waits, `notify_one` reaches exactly one wait, one that goes on: none that
/// is over takes the notification. It leaves all the others as they are, and so every
/// entry with its wait. If nobody waits, it does nothing.
pub proof fn law_notify_one_reaches_one_wait<W>(lists: CondvarView<W>, waits: Seq<Option<Wait>>)
    requires
        all_owned(lists, waits),
    ensures
        all_owned(lists.notified_one(), waits),
        (exists|i: int| registered_at(lists, waits, i)) <==> lists.waiting().len() > 0,
        lists.waiting().len() == 0 ==> lists.notified_one() == lists,
        lists.waiting().len() > 0 ==> exists|i: int|
            {
                &&& #[trigger] notify_reaches(lists, waits, i)
                &&& forall|j: int|
                    j != i ==> #[trigger] registered_at(lists.notified_one(), waits, j)
                        == registered_at(lists, waits, j)
            },
{
    let after = lists.notified_one();
    let on = notified_list(lists);
    let entries = lists.list(on);
    assert forall|list: List| distinct_ids(#[trigger] after.list(list)) by {
        assert(distinct_ids(lists.list(list)));
    }
    assert forall|list: List, k: int| 0 <= k < after.list(list).len() implies has_wait(
        waits,
        list,
        (#[trigger] after.list(list)[k]).id,
    ) by {
        assert(after.list(list)[k] == lists.list(list)[k]);
    }
    if lists.waiting().len() > 0 {
        let notified = entries.last();
        let last = entries.len() - 1;
        assert(has_wait(waits, on, lists.list(on)[last].id));
        let i = choose|i: int| waits_at(waits, i, on, notified.id);
        assert(listed(entries, notified.id));
        assert(distinct_ids(entries));
        assert(!listed(after.list(on), notified.id)) by {
            assert(forall|k: int|
                0 <= k < after.list(on).len() ==> #[trigger] after.list(on)[k] == entries[k]);
        }
        assert(registered_at(lists, waits, i));
        assert(notify_reaches(lists, waits, i));
        assert forall|j: int| j != i implies #[trigger] registered_at(after, waits, j)
            == registered_at(lists, waits, j) by {
            if 0 <= j < waits.len() && waits[j] is Some {
                let other = waits[j]->Some_0;
                if !other.over() && other.list() == on {
                    assert(waits_at(waits, j, on, other.id()));
                    assert(other.id() != notified.id);
                    if listed(entries, other.id()) {
                        let at = choose|at: int|
                            0 <= at < entries.len() && (#[trigger] entries[at]).id == other.id();
                        assert(after.list(on)[at].id == other.id());
                    }
                    if listed(after.list(on), other.id()) {
                        let at = choose|at: int|
                            0 <= at < after.list(on).len() && (#[trigger] after.list(on)[at]).id
                                == other.id();
                        assert(entries[at].id == other.id());
                    }
                }
            }
        }
    } else {
        assert forall|i: int| !registered_at(lists, waits, i) by {
            if 0 <= i < waits.len() && waits[i] is Some {
                assert(lists.list(waits[i]->Some_0.list()).len() == 0);
            }
        }
    }
}

/// There are as many entries on the lists as there are waits that go on and have not
/// been notified, and no wait has two of them.
pub proof fn law_one_entry_for_each_wait<W>(lists: CondvarView<W>, waits: Seq<Option<Wait>>)
    requires
        all_owned(lists, waits),
    ensures
        lists.waiting().len() == count(registrations(lists, waits)),
        forall|i: int, list: List, k: int, other: List, l: int|
            {
                &&& 0 <= k < lists.list(list).len()
                &&& 0 <= l < lists.list(other).len()
                &&& #[trigger] waits_at(waits, i, list, lists.list(list)[k].id)
                &&& #[trigger] waits_at(waits, i, other, lists.list(other)[l].id)
            } ==> list == other && k == l,
    decreases lists.waiting().len(),
{
    let answers = registrations(lists, waits);
    law_notify_one_reaches_one_wait(lists, waits);
    assert forall|i: int, list: List, k: int, other: List, l: int|
        {
            &&& 0 <= k < lists.list(list).len()
            &&& 0 <= l < lists.list(other).len()
            &&& #[trigger] waits_at(waits, i, list, lists.list(list)[k].id)
            &&& #[trigger] waits_at(waits, i, other, lists.list(other)[l].id)
        } implies list == other && k == l by {
        assert(distinct_ids(lists.list(list)));
    }
    if lists.waiting().len() > 0 {
        let after = lists.notified_one();
        law_notify_one_takes_one(lists);
        law_one_entry_for_each_wait(after, waits);
        let i = choose|i: int|
            {
                &&& #[trigger] notify_reaches(lists, waits, i)
                &&& forall|j: int|
                    j != i ==> #[trigger] registered_at(after, waits, j) == registered_at(
                        lists,
                        waits,
                        j,
                    )
            };
        lemma_count_with_one_changed(answers, registrations(after, waits), i);
    } else {
        lemma_count_of_no(answers);
    }
}

proof fn lemma_count_of_no(answers: Seq<bool>)
    requires
        forall|i: int| 0 <= i < answers.len() ==> !#[trigger] answers[i],
    ensures
        count(answers) == 0,
    decreases answers.len(),
{
    if answers.len() > 0 {
        lemma_count_of_no(answers.drop_last());
    }
}

/// Calls of `notify_one` notify one wait each, as long as there are any: of the waits
/// that go on, as many are notified as there are calls, or all if there are fewer.
/// The others stay on their lists. Calls beyond that do nothing, so that nobody is
/// notified in advance.
pub proof fn law_each_call_notifies_one<W>(
    lists: CondvarView<W>,
    waits: Seq<Option<Wait>>,
    calls: nat,
)
    requires
        all_owned(lists, waits),
    ensures
        ({
            let pending = count(registrations(lists, waits));
            let notified = condvar_run_notifies(lists, notify_ones(calls));
            let after = condvar_run(lists, notify_ones(calls));
            &&& all_owned(after, waits)
            &&& notified.len() == if calls < pending {
                calls
            } else {
                pending
            }
            &&& count(registrations(after, waits)) == pending - notified.len()
            &&& forall|i: int| #[trigger]
                registered_at(after, waits, i) ==> registered_at(lists, waits, i)
            &&& forall|i: int| #[trigger]
                registered_at(lists, waits, i) ==> registered_at(after, waits, i) || listed(
                    notified,
                    waits[i]->Some_0.id(),
                )
            &&& calls >= pending ==> after == CondvarView::<W>::idle()
        }),
    decreases calls,
{
    law_one_entry_for_each_wait(lists, waits);
    if calls > 0 {
        let fewer = (calls - 1) as nat;
        law_each_call_notifies_one(lists, waits, fewer);
        assert(notify_ones::<W>(calls).drop_last() =~= notify_ones(fewer));
        let before = condvar_run(lists, notify_ones(fewer));
        let earlier = condvar_run_notifies(lists, notify_ones(fewer));
        let after = before.notified_one();
        let notified = condvar_run_notifies(lists, notify_ones(calls));
        law_one_entry_for_each_wait(before, waits);
        law_notify_one_reaches_one_wait(before, waits);
        law_notify_one_takes_one(before);
        law_one_entry_for_each_wait(after, waits);
        if before.waiting().len() > 0 {
            assert(notified =~= earlier.push(before.next_notified()->Some_0));
            assert(after.waiting().len() == before.waiting().len() - 1);
        } else {
            assert(notified =~= earlier);
        }
        assert forall|i: int| #[trigger] registered_at(lists, waits, i) implies registered_at(
            after,
            waits,
            i,
        ) || listed(notified, waits[i]->Some_0.id()) by {
            let id = waits[i]->Some_0.id();
            if registered_at(before, waits, i) {
                if !registered_at(after, waits, i) {
                    assert(notify_reaches(before, waits, i));
                    assert(notified[earlier.len() as int].id == id);
                }
            } else {
                let at = choose|at: int| 0 <= at < earlier.len() && (#[trigger] earlier[at]).id == id;
                assert(notified[at].id == id);
            }
        }
    }
    let after = condvar_run(lists, notify_ones(calls));
    law_one_entry_for_each_wait(after, waits);
    if after.waiting().len() == 0 {
        assert(after =~= CondvarView::<W>::idle());
    }
}

/// A step that somebody takes on a condition variable or in a wait on it.
pub enum WaitStep<W> {
    /// At this place a wait begins on this list.
    Begin(int, List, Waiter<W>, Option<u64>),
    /// The wait at this place takes a step.
    Poll(int, Turn<W>),
    /// The wait at this place is over, and returns.
    Return(int),
    /// `notify_one`.
    NotifyOne,
    /// `notify_all`.
    NotifyAll,
}

/// A condition variable and the waits on it. At each place there is one wait at a time.
pub struct WaitRun<W> {
    /// The lists.
    pub lists: CondvarView<W>,
    /// The waits that have not returned.
    pub waits: Seq<Option<Wait>>,
}

impl<W> WaitRun<W> {
    /// Whether the step can be taken.
    ///
    /// A wait begins with an id that no other wait on its list has, and a signal comes
    /// only to a wait that was notified.
    pub open spec fn enables(self, step: WaitStep<W>) -> bool {
        match step {
            WaitStep::Begin(i, list, waiter, _) => {
                &&& 0 <= i < self.waits.len()
                &&& self.waits[i] is None
                &&& !has_wait(self.waits, list, waiter.id)
            },
            WaitStep::Poll(i, turn) => {
                &&& 0 <= i < self.waits.len()
                &&& self.waits[i] is Some
                &&& turn.signalled ==> !registered_at(self.lists, self.waits, i)
            },
            WaitStep::Return(i) => {
                &&& 0 <= i < self.waits.len()
                &&& self.waits[i] matches Some(wait) && wait.over()
            },
            _ => true,
        }
    }

    /// After a step. One that cannot be taken does nothing.
    pub open spec fn after(self, step: WaitStep<W>) -> Self {
        if !self.enables(step) {
            self
        } else {
            match step {
                WaitStep::Begin(i, list, waiter, deadline) => WaitRun {
                    lists: self.lists.with_list(list, self.lists.list(list).push(waiter)),
                    waits: self.waits.update(i, Some(Wait::begun_on(list, waiter, deadline))),
                },
                WaitStep::Poll(i, turn) => {
                    let wait = self.waits[i]->Some_0;
                    WaitRun {
                        lists: wait.lists_after(turn, self.lists),
                        waits: self.waits.update(i, Some(wait.moved(turn, self.lists))),
                    }
                },
                WaitStep::Return(i) => WaitRun { waits: self.waits.update(i, None), ..self },
                WaitStep::NotifyOne => WaitRun { lists: self.lists.notified_one(), ..self },
                WaitStep::NotifyAll => WaitRun { lists: CondvarView::idle(), ..self },
            }
        }
    }

    /// After a run of steps.
    pub open spec fn after_all(self, steps: Seq<WaitStep<W>>) -> Self
        decreases steps.len(),
    {
        if steps.len() == 0 {
            self
        } else {
            self.after_all(steps.drop_last()).after(steps.last())
        }
    }
}

/// Whatever waits begin, go on, come back for no reason, time out and return, in any
/// order, every entry on the lists is that of a wait that goes on: a wait that is over
/// leaves none behind.
pub proof fn law_entries_belong_to_waits<W>(run: WaitRun<W>, steps: Seq<WaitStep<W>>)
    requires
        all_owned(run.lists, run.waits),
    ensures
        all_owned(run.after_all(steps).lists, run.after_all(steps).waits),
    decreases steps.len(),
{
    if steps.len() > 0 {
        law_entries_belong_to_waits(run, steps.drop_last());
        let before = run.after_all(steps.drop_last());
        let step = steps.last();
        if before.enables(step) {
            match step {
                WaitStep::Begin(i, list, waiter, deadline) => {
                    lemma_begin(
                        before.lists,
                        before.waits,
                        i,
                        waiter,
                        Wait::begun_on(list, waiter, deadline),
                    );
                },
                WaitStep::Poll(i, turn) => {
                    lemma_poll(before.lists, before.waits, i, turn);
                },
                WaitStep::Return(i) => {
                    lemma_return(before.lists, before.waits, i);
                },
                WaitStep::NotifyOne => {
                    law_notify_one_reaches_one_wait(before.lists, before.waits);
                },
                WaitStep::NotifyAll => {},
            }
        }
    }
}

/// A condition variable that nobody waits for has no entry without a wait.
pub proof fn law_idle_is_owned<W>(waits: Seq<Option<Wait>>)
    requires
        forall|i: int| 0 <= i < waits.len() ==> #[trigger] waits[i] is None,
    ensures
        all_owned(CondvarView::<W>::idle(), waits),
{
}

/// A wait that is over and returns had no entry.
pub proof fn lemma_return<W>(lists: CondvarView<W>, waits: Seq<Option<Wait>>, i: int)
    requires
        all_owned(lists, waits),
        0 <= i < waits.len(),
        waits[i] matches Some(wait) ==> wait.over(),
    ensures
        all_owned(lists, waits.update(i, None)),
        forall|j: int| #[trigger]
            registered_at(lists, waits.update(i, None), j) == registered_at(lists, waits, j),
{
    let rest = waits.update(i, None);
    assert(forall|j: int, list: List, id: u64| #[trigger]
        waits_at(rest, j, list, id) == waits_at(waits, j, list, id));
    assert forall|list: List, k: int| 0 <= k < lists.list(list).len() implies has_wait(
        rest,
        list,
        (#[trigger] lists.list(list)[k]).id,
    ) by {
        let id = lists.list(list)[k].id;
        let owner = choose|owner: int| waits_at(waits, owner, list, id);
        assert(waits_at(rest, owner, list, id));
    }
}

} // verus!
