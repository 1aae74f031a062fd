//! Laws of all the receives on a channel.

use vstd::prelude::*;

use super::condvar::List;
use super::mpsc::{recv_traffic, send_traffic, traffic_fits, try_traffic};
use super::waits::{
    all_owned, count, has_wait, law_notify_one_reaches_one_wait, law_one_entry_for_each_wait,
    lemma_begin, lemma_count_with_one_changed, lemma_poll, lemma_return, notify_reaches,
    registered_at, registrations, waits_at,
};
use crate::condvar::wait::Wait;
use crate::condvar::{CondvarView, MonitorView, Turn};
use crate::mpsc::{Method, RecvState, SendStep, TimedRecvStep, TryRecvError};
use crate::waiter::Waiter;

verus! {

/// A receive that is under way.
pub struct Receive {
    /// How it waits.
    pub method: Method,
    /// When it gives up.
    pub deadline: Option<u64>,
    /// How far it has come.
    pub state: RecvState,
}

impl Method {
    /// The list that waits of this method are on.
    pub open spec fn list(self) -> List {
        match self {
            Method::Spin => List::Spin,
            Method::Block => List::Sync,
            Method::Task => List::Tasks,
        }
    }
}

/// The wait of each receive that has one.
pub open spec fn waits_of(receives: Seq<Option<Receive>>) -> Seq<Option<Wait>> {
    Seq::new(
        receives.len(),
        |i: int|
            match receives[i] {
                Some(receive) => match receive.state {
                    RecvState::Waiting(wait) => Some(wait),
                    RecvState::Locking => None,
                },
                None => None,
            },
    )
}

/// A step that somebody takes on a channel, what came of it, and who is to be woken, as
/// the channel is free.
pub enum ChannelStep<T, W> {
    /// A step of sending a message.
    Send(Method, T, W, SendStep<T, W>, Seq<W>),
    /// An attempt to receive.
    Try(Result<T, TryRecvError>, Seq<W>),
    /// At this place a receive begins.
    Begin(int, Method, Option<u64>),
    /// The receive at this place takes a step.
    Poll(int, Waiter<W>, Turn<W>, TimedRecvStep<T>, Seq<W>),
    /// Somebody locks the channel.
    Hold,
    /// Whoever holds the channel frees it.
    Free,
    /// Whoever freed the channel wakes those who waited for it.
    Drain,
}

/// A channel and the receives on it. At each place there is one receive at a time.
pub struct ChannelRun<T, W> {
    /// The channel.
    pub channel: MonitorView<Seq<T>, W>,
    /// The messages in it, whether or not somebody holds it.
    pub messages: Seq<T>,
    /// The receives that are under way.
    pub receives: Seq<Option<Receive>>,
}

impl<T, W> ChannelRun<T, W> {
    /// Whether the receive at place `i` waits and has not been notified.
    pub open spec fn waits_at(self, i: int) -> bool {
        registered_at(self.channel.condvar, waits_of(self.receives), i)
    }

    /// Whether the receive at place `i` is about to look for a message: it has been
    /// notified, or it does not wait in the first place.
    pub open spec fn comes_at(self, i: int) -> bool {
        &&& 0 <= i < self.receives.len()
        &&& self.receives[i] is Some
        &&& !self.waits_at(i)
    }

    /// For each place, whether a receive there is about to look for a message.
    pub open spec fn coming(self) -> Seq<bool> {
        Seq::new(self.receives.len(), |i: int| self.comes_at(i))
    }

    /// Whether `step` takes the channel and its receives to `after`.
    ///
    /// A receive has an id that no other one on its list has, and a signal comes only
    /// to one that was notified.
    pub open spec fn takes_step(self, step: ChannelStep<T, W>, after: Self) -> bool {
        match step {
            ChannelStep::Send(method, message, handle, outcome, wakes) => {
                &&& self.channel.send_steps(
                    method,
                    message,
                    handle,
                    outcome,
                    wakes,
                    after.channel,
                )
                &&& traffic_fits(self.messages, send_traffic(message, outcome), after.messages)
                &&& after.receives == self.receives
            },
            ChannelStep::Try(result, wakes) => {
                &&& self.channel.tries(result, wakes, after.channel)
                &&& traffic_fits(self.messages, try_traffic(result), after.messages)
                &&& after.receives == self.receives
            },
            ChannelStep::Begin(i, method, deadline) => {
                let begun = Receive { method, deadline, state: RecvState::Locking };
                &&& 0 <= i < self.receives.len()
                &&& self.receives[i] is None
                &&& after.channel == self.channel
                &&& after.messages == self.messages
                &&& after.receives == self.receives.update(i, Some(begun))
            },
            ChannelStep::Poll(i, waiter, turn, outcome, wakes) => {
                &&& 0 <= i < self.receives.len()
                &&& self.receives[i] matches Some(receive)
                &&& !has_wait(
                    waits_of(self.receives.update(i, None)),
                    receive.method.list(),
                    waiter.id,
                )
                &&& turn.signalled ==> !self.waits_at(i)
                &&& self.channel.recv_steps(
                    receive.method,
                    receive.deadline,
                    receive.state,
                    waiter,
                    turn,
                    outcome,
                    wakes,
                    after.channel,
                )
                &&& traffic_fits(self.messages, recv_traffic(outcome), after.messages)
                &&& after.receives == self.receives.update(
                    i,
                    match outcome {
                        TimedRecvStep::Finished(_) => None,
                        TimedRecvStep::Pending(state, _) => Some(Receive { state, ..receive }),
                    },
                )
            },
            ChannelStep::Hold => {
                &&& !self.channel.mutex.held()
                &&& after.channel.mutex == self.channel.mutex.acquired()
                &&& after.channel.condvar == self.channel.condvar
                &&& after.messages == self.messages
                &&& after.receives == self.receives
            },
            ChannelStep::Free => {
                &&& self.channel.mutex.held()
                &&& after.channel.mutex == self.channel.mutex.freed(self.messages)
                &&& after.channel.condvar == self.channel.condvar
                &&& after.messages == self.messages
                &&& after.receives == self.receives
            },
            ChannelStep::Drain => {
                &&& after.channel.mutex == self.channel.mutex.drained()
                &&& after.channel.condvar == self.channel.condvar
                &&& after.messages == self.messages
                &&& after.receives == self.receives
            },
        }
    }

    /// Every entry on the lists is that of a receive that waits, and every message in
    /// the channel has a receive coming for it while another receive waits.
    pub open spec fn sound(self) -> bool {
        &&& !self.channel.mutex.held() ==> self.channel.mutex.data == Some(self.messages)
        &&& forall|i: int|
            0 <= i < self.receives.len() ==> (#[trigger] self.receives[i] matches Some(receive)
                ==> receive.state.belongs(receive.method, receive.deadline))
        &&& all_owned(self.channel.condvar, waits_of(self.receives))
        &&& (exists|i: int| self.waits_at(i)) ==> self.messages.len() <= count(self.coming())
    }
}

/// A new channel, on which nothing is received yet, is sound.
pub proof fn law_new_channels_are_sound<T, W>(run: ChannelRun<T, W>)
    requires
        run.channel.condvar == CondvarView::<W>::idle(),
        run.channel.mutex.data == Some(Seq::<T>::empty()),
        run.messages == Seq::<T>::empty(),
        forall|i: int| 0 <= i < run.receives.len() ==> #[trigger] run.receives[i] is None,
    ensures
        run.sound(),
{
}

/// Whether `runs` are a channel and its receives after each of these steps.
///
/// There is one entry more than steps: the first is what it began with.
pub open spec fn is_course<T, W>(
    runs: Seq<ChannelRun<T, W>>,
    steps: Seq<ChannelStep<T, W>>,
) -> bool {
    &&& runs.len() == steps.len() + 1
    &&& forall|i: int|
        0 <= i < steps.len() ==> runs[i].takes_step(#[trigger] steps[i], runs[i + 1])
}

/// However messages are sent and receives begin, wait, come back for no reason, time
/// out and finish, in any order, the channel stays sound: no notification goes to a
/// receive that does not wait any more, and none is lost. While a receive waits, every
/// message in the channel has another receive coming for it.
pub proof fn law_channels_stay_sound<T, W>(
    runs: Seq<ChannelRun<T, W>>,
    steps: Seq<ChannelStep<T, W>>,
)
    requires
        is_course(runs, steps),
        runs.first().sound(),
    ensures
        runs.last().sound(),
    decreases steps.len(),
{
    if steps.len() > 0 {
        let last = steps.len() - 1;
        let earlier = runs.drop_last();
        assert forall|i: int| 0 <= i < steps.drop_last().len() implies earlier[i].takes_step(
            #[trigger] steps.drop_last()[i],
            earlier[i + 1],
        ) by {
            assert(steps.drop_last()[i] == steps[i]);
        }
        law_channels_stay_sound(earlier, steps.drop_last());
        assert(runs[last].takes_step(steps[last], runs[last + 1]));
        lemma_stays_sound(runs[last], steps[last], runs.last());
    }
}

proof fn lemma_stays_sound<T, W>(
    before: ChannelRun<T, W>,
    step: ChannelStep<T, W>,
    after: ChannelRun<T, W>,
)
    requires
        before.sound(),
        before.takes_step(step, after),
    ensures
        after.sound(),
{
    match step {
        ChannelStep::Send(_, message, _, SendStep::Sent(notified), wakes) => {
            lemma_send_stays_sound(before, message, notified, wakes, after);
        },
        ChannelStep::Begin(i, _, _) => {
            assert(waits_of(after.receives) =~= waits_of(before.receives));
            assert(forall|j: int| #[trigger] after.waits_at(j) == before.waits_at(j));
            assert(!before.waits_at(i));
            lemma_count_with_one_changed(before.coming(), after.coming(), i);
        },
        ChannelStep::Poll(i, waiter, turn, outcome, wakes) => {
            lemma_poll_stays_sound(before, i, waiter, turn, outcome, wakes, after);
        },
        _ => {
            assert(after.coming() =~= before.coming());
            assert(forall|j: int| #[trigger] after.waits_at(j) == before.waits_at(j));
        },
    }
}

proof fn lemma_send_stays_sound<T, W>(
    before: ChannelRun<T, W>,
    message: T,
    notified: Option<Waiter<W>>,
    wakes: Seq<W>,
    after: ChannelRun<T, W>,
)
    requires
        before.sound(),
        before.channel.sends(message, notified, wakes, after.channel),
        after.messages == before.messages.push(message),
        after.receives == before.receives,
    ensures
        after.sound(),
{
    let lists = before.channel.condvar;
    let waits = waits_of(before.receives);
    law_notify_one_reaches_one_wait(lists, waits);
    if exists|i: int| after.waits_at(i) {
        let still = choose|i: int| after.waits_at(i);
        if lists.waiting().len() == 0 {
            assert(registered_at(lists, waits, still));
        }
        let i = choose|i: int|
            {
                &&& #[trigger] notify_reaches(lists, waits, i)
                &&& forall|j: int|
                    j != i ==> #[trigger] registered_at(lists.notified_one(), waits, j)
                        == registered_at(lists, waits, j)
            };
        assert(before.waits_at(i));
        assert(!after.waits_at(i));
        assert(forall|j: int| j != i ==> #[trigger] after.waits_at(j) == before.waits_at(j));
        lemma_count_with_one_changed(before.coming(), after.coming(), i);
    }
}

proof fn lemma_poll_stays_sound<T, W>(
    before: ChannelRun<T, W>,
    i: int,
    waiter: Waiter<W>,
    turn: Turn<W>,
    outcome: TimedRecvStep<T>,
    wakes: Seq<W>,
    after: ChannelRun<T, W>,
)
    requires
        before.sound(),
        before.takes_step(ChannelStep::Poll(i, waiter, turn, outcome, wakes), after),
    ensures
        after.sound(),
{
    let receive = before.receives[i]->Some_0;
    let begun = receive.method.begun(waiter, receive.deadline);
    let lists = before.channel.condvar;
    let waits = waits_of(before.receives);
    let later = waits_of(after.receives);
    let (moved_lists, moved_waits) = match receive.state {
        RecvState::Locking => (lists, waits),
        RecvState::Waiting(wait) => (
            wait.lists_after(turn, lists),
            waits.update(i, Some(wait.moved(turn, lists))),
        ),
    };
    let takes = !before.channel.mutex.held() && match receive.state {
        RecvState::Locking => true,
        RecvState::Waiting(wait) => wait.verdict(turn, lists) is Some,
    };
    if receive.state is Waiting {
        lemma_poll(lists, waits, i, turn);
    }
    assert(all_owned(moved_lists, moved_waits));
    assert(forall|j: int|
        j != i ==> #[trigger] registered_at(moved_lists, moved_waits, j) == registered_at(
            lists,
            waits,
            j,
        ));
    if outcome is Finished {
        lemma_return(moved_lists, moved_waits, i);
        assert(later =~= moved_waits.update(i, None));
    } else if takes {
        assert(!has_wait(moved_waits, begun.list(), waiter.id)) by {
            let others = waits_of(before.receives.update(i, None));
            assert forall|j: int| !waits_at(moved_waits, j, begun.list(), waiter.id) by {
                if waits_at(moved_waits, j, begun.list(), waiter.id) {
                    assert(waits_at(others, j, begun.list(), waiter.id));
                }
            }
        }
        lemma_begin(moved_lists, moved_waits, i, waiter, begun);
        assert(later =~= moved_waits.update(i, Some(begun)));
    } else {
        assert(later =~= moved_waits);
    }
    assert(all_owned(after.channel.condvar, later));
    assert(forall|j: int| j != i ==> #[trigger] after.waits_at(j) == before.waits_at(j));
    lemma_count_with_one_changed(before.coming(), after.coming(), i);
}

/// A receive that waits is notified of the next message: if any receives wait, sending
/// notifies exactly one of them, which is then coming for the message, and leaves the
/// others waiting. One that waits alone is the one.
pub proof fn law_waiting_receiver_is_notified<T, W>(
    before: ChannelRun<T, W>,
    method: Method,
    message: T,
    handle: W,
    notified: Option<Waiter<W>>,
    wakes: Seq<W>,
    after: ChannelRun<T, W>,
)
    requires
        before.sound(),
        before.takes_step(
            ChannelStep::Send(method, message, handle, SendStep::Sent(notified), wakes),
            after,
        ),
    ensures
        notified is Some <==> exists|i: int| before.waits_at(i),
        notified matches Some(waiter) ==> exists|i: int|
            {
                &&& #[trigger] before.waits_at(i)
                &&& waits_of(before.receives)[i]->Some_0.id() == waiter.id
                &&& after.comes_at(i)
                &&& forall|j: int|
                    j != i ==> #[trigger] after.waits_at(j) == before.waits_at(j)
            },
        forall|i: int|
            (#[trigger] before.waits_at(i) && forall|j: int|
                j != i ==> !#[trigger] before.waits_at(j)) ==> {
                &&& notified matches Some(waiter) && waits_of(before.receives)[i]->Some_0.id()
                    == waiter.id
                &&& after.comes_at(i)
                &&& after.channel.condvar.waiting().len() == 0
            },
{
    let lists = before.channel.condvar;
    let waits = waits_of(before.receives);
    law_notify_one_reaches_one_wait(lists, waits);
    law_notify_one_reaches_one_wait(after.channel.condvar, waits);
    assert(forall|i: int| #[trigger] before.waits_at(i) == registered_at(lists, waits, i));
    if lists.waiting().len() > 0 {
        let i = choose|i: int|
            {
                &&& #[trigger] notify_reaches(lists, waits, i)
                &&& forall|j: int|
                    j != i ==> #[trigger] registered_at(lists.notified_one(), waits, j)
                        == registered_at(lists, waits, j)
            };
        assert(before.waits_at(i));
        assert(after.comes_at(i));
        assert(forall|j: int| j != i ==> #[trigger] after.waits_at(j) == before.waits_at(j));
        if forall|j: int| j != i ==> !#[trigger] before.waits_at(j) {
            assert forall|j: int| !registered_at(after.channel.condvar, waits, j) by {
                assert(!after.waits_at(j));
            }
        }
    }
}

/// The condition variable of a channel has one entry for each receive that waits, and
/// none besides.
pub proof fn law_one_entry_for_each_receive<T, W>(run: ChannelRun<T, W>)
    requires
        run.sound(),
    ensures
        run.channel.condvar.waiting().len() == count(
            Seq::new(run.receives.len(), |i: int| run.waits_at(i)),
        ),
{
    let waits = waits_of(run.receives);
    law_one_entry_for_each_wait(run.channel.condvar, waits);
    assert(Seq::new(run.receives.len(), |i: int| run.waits_at(i)) =~= registrations(
        run.channel.condvar,
        waits,
    ));
}

} // verus!
