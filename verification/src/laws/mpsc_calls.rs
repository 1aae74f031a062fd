//! What the calls of a channel do to its messages, to those who wait for one and to those
//! who wait for the channel.

use vstd::prelude::*;

use super::condvar_calls::{
    ends, goes_on, has_ended, is_on, joins, lemma_lists_fit, lets_go,
    lists_fit, notifies_one, queues_again, starts, way_of, Way,
};
use super::mutex_calls::queues_stay;
use crate::condvar::wait::Wait;
use crate::condvar::wait_async::AsyncPhase;
use crate::condvar::wait_block::BlockPhase;
use crate::condvar::wait_spin::SpinPhase;
use crate::condvar::{CondvarView, MonitorView, Turn};
use crate::mpsc::{
    channel, recv_cancels, IntoIter, Method, Receiver, RecvState, RecvStep, SendStep, Sender,
    Shared, TimedRecvStep, TryRecvError,
};
use crate::mutex::MutexView;
use crate::platform::{Pause, Strategy};
use crate::waiter::Waiter;

verus! {

/// Whether whoever is refused the channel is queued for it as it waits.
pub open spec fn queues_by<T, W>(
    way: Way,
    before: MutexView<T, W>,
    handle: W,
    pause: Pause,
    after: MutexView<T, W>,
) -> bool {
    &&& before.data is None
    &&& after.data is None
    &&& after.id == before.id
    &&& match way {
        Way::Spin => pause == Pause::Spin && queues_stay(before, after),
        Way::Block => {
            &&& pause == Pause::Park
            &&& after.sync == before.sync.push(handle)
            &&& after.tasks == before.tasks
        },
        Way::Task => {
            &&& pause == Pause::Await
            &&& after.sync == before.sync
            &&& after.tasks == before.tasks.push(handle)
        },
    }
}

/// Whether a step of sending came out rightly: if the channel is free, the message is behind
/// all others, a waiter is notified if there is any, and nobody who waited for the channel
/// is dropped. If it is not free, the message comes back and nothing was sent.
pub open spec fn sends_rightly<T, W>(
    way: Way,
    before: MonitorView<Seq<T>, W>,
    message: T,
    handle: W,
    sent: (SendStep<T, W>, Vec<W>),
    after: MonitorView<Seq<T>, W>,
) -> bool {
    match (before.mutex.data, sent.0) {
        (Some(messages), SendStep::Sent(notified)) => {
            &&& lets_go(before.mutex, messages.push(message), sent.1@, after.mutex)
            &&& notifies_one(before.condvar, notified, after.condvar)
        },
        (None, SendStep::Busy(back, pause)) => {
            &&& back == message
            &&& sent.1@.len() == 0
            &&& after.condvar == before.condvar
            &&& queues_by(way, before.mutex, handle, pause, after.mutex)
        },
        _ => false,
    }
}

/// Whether looking for a message in a free channel came out rightly: the oldest one is
/// received and the others stay in order. If there is none, receiving ends if its time is
/// up, and else a wait begins.
pub open spec fn looks_rightly<T, W>(
    way: Way,
    deadline: Option<u64>,
    waiter: Waiter<W>,
    timed_out: bool,
    lists: CondvarView<W>,
    mutex: MutexView<Seq<T>, W>,
    step: TimedRecvStep<T>,
    wakes: Seq<W>,
    after: MonitorView<Seq<T>, W>,
) -> bool {
    &&& after.mutex.data is Some
    &&& lets_go(mutex, after.mutex.data->Some_0, wakes, after.mutex)
    &&& match step {
        TimedRecvStep::Finished(Ok(message)) => {
            &&& mutex.data == Some(seq![message] + after.mutex.data->Some_0)
            &&& after.condvar == lists
        },
        TimedRecvStep::Finished(Err(_)) => {
            &&& timed_out
            &&& mutex.data == Some(Seq::<T>::empty())
            &&& after.mutex.data == mutex.data
            &&& after.condvar == lists
        },
        TimedRecvStep::Pending(RecvState::Waiting(wait), pause) => {
            &&& !timed_out
            &&& pause == Pause::Proceed
            &&& mutex.data == Some(Seq::<T>::empty())
            &&& after.mutex.data == mutex.data
            &&& starts(wait, way, waiter.id, deadline)
            &&& joins(lists, way, waiter, after.condvar)
        },
        TimedRecvStep::Pending(RecvState::Locking, _) => false,
    }
}

/// Whether this is a state of receiving in that way until that deadline.
pub open spec fn fits_call(state: RecvState, way: Way, deadline: Option<u64>) -> bool {
    match (state, way) {
        (RecvState::Locking, _) => true,
        (RecvState::Waiting(Wait::Spin(wait)), Way::Spin) => {
            &&& wait.deadline == deadline
            &&& deadline is None ==> wait.phase != SpinPhase::Relocking { timed_out: true }
        },
        (RecvState::Waiting(Wait::Block(wait)), Way::Block) => {
            &&& wait.deadline == deadline
            &&& deadline is None ==> wait.phase != BlockPhase::Relocking { timed_out: true }
        },
        (RecvState::Waiting(Wait::Task(wait)), Way::Task) => {
            &&& wait.deadline == deadline
            &&& deadline is None ==> match wait.phase {
                AsyncPhase::Suspended(race) => !race.timeout,
                AsyncPhase::Relocking { timed_out } => !timed_out,
            }
        },
        _ => false,
    }
}

/// Whether a step of receiving came out rightly: it looks for a message as soon as it has
/// the channel, at first and whenever its wait is over, and until then waits.
pub open spec fn receives_rightly<T, W>(
    way: Way,
    deadline: Option<u64>,
    before: MonitorView<Seq<T>, W>,
    state: RecvState,
    waiter: Waiter<W>,
    turn: Turn<W>,
    step: TimedRecvStep<T>,
    cancelled: Option<Waiter<W>>,
    wakes: Seq<W>,
    after: MonitorView<Seq<T>, W>,
) -> bool {
    match state {
        RecvState::Locking => {
            &&& cancelled is None
            &&& if before.mutex.data is Some {
                looks_rightly(
                    way,
                    deadline,
                    waiter,
                    false,
                    before.condvar,
                    before.mutex,
                    step,
                    wakes,
                    after,
                )
            } else {
                &&& wakes.len() == 0
                &&& after.condvar == before.condvar
                &&& step matches TimedRecvStep::Pending(RecvState::Locking, pause)
                &&& queues_by(way, before.mutex, turn.handle, pause, after.mutex)
            }
        },
        RecvState::Waiting(wait) => match ends(wait, turn, before.condvar) {
            Some(timed_out) if before.mutex.data is Some => exists|lists: CondvarView<W>|
                {
                    &&& #[trigger] lists_fit(wait, turn, before.condvar, cancelled, lists)
                    &&& looks_rightly(
                        way,
                        deadline,
                        waiter,
                        timed_out,
                        lists,
                        before.mutex,
                        step,
                        wakes,
                        after,
                    )
                },
            Some(timed_out) => {
                &&& wakes.len() == 0
                &&& lists_fit(wait, turn, before.condvar, cancelled, after.condvar)
                &&& step matches TimedRecvStep::Pending(RecvState::Waiting(next), pause)
                &&& has_ended(wait, timed_out, next)
                &&& queues_again(wait, turn, before.mutex, pause, after.mutex)
            },
            None => {
                &&& wakes.len() == 0
                &&& lists_fit(wait, turn, before.condvar, cancelled, after.condvar)
                &&& after.mutex == before.mutex
                &&& step matches TimedRecvStep::Pending(RecvState::Waiting(next), pause)
                &&& goes_on(wait, turn.now, next, pause)
            },
        },
    }
}

/// The outcome of receiving without a deadline as one of receiving with one.
pub open spec fn as_timed<T>(step: RecvStep<T>) -> TimedRecvStep<T> {
    match step {
        RecvStep::Received(message) => TimedRecvStep::Finished(Ok(message)),
        RecvStep::Pending(next, pause) => TimedRecvStep::Pending(next, pause),
    }
}

/// A new channel is free and empty, and nobody waits for it or for a message.
pub proof fn law_new_channel<T, W>(made: (Shared<T, W>, Sender<T>, Receiver<T>))
    requires
        call_ensures(channel::<T, W>, (), made),
    ensures
        made.0.wf(),
        made.0@.mutex.data == Some(Seq::<T>::empty()),
        made.0@.mutex.sync.len() == 0,
        made.0@.mutex.tasks.len() == 0,
        made.0@.condvar.spin.len() == 0,
        made.0@.condvar.sync.len() == 0,
        made.0@.condvar.tasks.len() == 0,
{
}

/// Every step of sending, in whatever way, comes out rightly.
pub proof fn law_sending<T, W>(sender: Sender<T>, strategy: Strategy, message: T, handle: W)
    ensures
        forall|shared: &mut Shared<T, W>, sent: (SendStep<T, W>, Vec<W>)| #[trigger]
            call_ensures(
                Sender::<T>::send_spin::<W>,
                (&sender, shared, message, handle),
                sent,
            ) ==> {
                &&& (*final(shared)).consistent()
                &&& sends_rightly(
                    Way::Spin,
                    (*shared)@,
                    message,
                    handle,
                    sent,
                    (*final(shared))@,
                )
            },
        forall|shared: &mut Shared<T, W>, sent: (SendStep<T, W>, Vec<W>)| #[trigger]
            call_ensures(
                Sender::<T>::send_block::<W>,
                (&sender, shared, message, handle),
                sent,
            ) ==> {
                &&& (*final(shared)).consistent()
                &&& sends_rightly(
                    Way::Block,
                    (*shared)@,
                    message,
                    handle,
                    sent,
                    (*final(shared))@,
                )
            },
        forall|shared: &mut Shared<T, W>, sent: (SendStep<T, W>, Vec<W>)| #[trigger]
            call_ensures(
                Sender::<T>::send_sync::<W>,
                (&sender, shared, strategy, message, handle),
                sent,
            ) ==> {
                &&& (*final(shared)).consistent()
                &&& sends_rightly(
                    way_of(strategy),
                    (*shared)@,
                    message,
                    handle,
                    sent,
                    (*final(shared))@,
                )
            },
        forall|shared: &mut Shared<T, W>, sent: (SendStep<T, W>, Vec<W>)| #[trigger]
            call_ensures(
                Sender::<T>::send_async::<W>,
                (&sender, shared, message, handle),
                sent,
            ) ==> {
                &&& (*final(shared)).consistent()
                &&& sends_rightly(
                    Way::Task,
                    (*shared)@,
                    message,
                    handle,
                    sent,
                    (*final(shared))@,
                )
            },
{
    assert forall|shared: &mut Shared<T, W>, sent: (SendStep<T, W>, Vec<W>)| #[trigger]
        call_ensures(
            Sender::<T>::send_spin::<W>,
            (&sender, shared, message, handle),
            sent,
        ) implies sends_rightly(
        Way::Spin,
        (*shared)@,
        message,
        handle,
        sent,
        (*final(shared))@,
    ) by {
        lemma_notifies_one((*shared)@.condvar);
    }
    assert forall|shared: &mut Shared<T, W>, sent: (SendStep<T, W>, Vec<W>)| #[trigger]
        call_ensures(
            Sender::<T>::send_block::<W>,
            (&sender, shared, message, handle),
            sent,
        ) implies sends_rightly(
        Way::Block,
        (*shared)@,
        message,
        handle,
        sent,
        (*final(shared))@,
    ) by {
        lemma_notifies_one((*shared)@.condvar);
    }
    assert forall|shared: &mut Shared<T, W>, sent: (SendStep<T, W>, Vec<W>)| #[trigger]
        call_ensures(
            Sender::<T>::send_sync::<W>,
            (&sender, shared, strategy, message, handle),
            sent,
        ) implies sends_rightly(
        way_of(strategy),
        (*shared)@,
        message,
        handle,
        sent,
        (*final(shared))@,
    ) by {
        lemma_notifies_one((*shared)@.condvar);
    }
    assert forall|shared: &mut Shared<T, W>, sent: (SendStep<T, W>, Vec<W>)| #[trigger]
        call_ensures(
            Sender::<T>::send_async::<W>,
            (&sender, shared, message, handle),
            sent,
        ) implies sends_rightly(
        Way::Task,
        (*shared)@,
        message,
        handle,
        sent,
        (*final(shared))@,
    ) by {
        lemma_notifies_one((*shared)@.condvar);
    }
}

proof fn lemma_notifies_one<W>(lists: CondvarView<W>)
    ensures
        notifies_one(lists, lists.next_notified(), lists.notified_one()),
{
    let after = lists.notified_one();
    if lists.spin.len() > 0 {
        assert(lists.spin =~= after.spin.push(lists.spin.last()));
    } else if lists.sync.len() > 0 {
        assert(lists.sync =~= after.sync.push(lists.sync.last()));
    } else if lists.tasks.len() > 0 {
        assert(lists.tasks =~= after.tasks.push(lists.tasks.last()));
    }
}

/// Every step of receiving without a deadline, in whatever way, comes out rightly.
pub proof fn law_receiving<T, W>(
    receiver: Receiver<T>,
    state: RecvState,
    waiter: Waiter<W>,
    turn: Turn<W>,
)
    ensures
        forall|shared: &mut Shared<T, W>, stepped: (RecvStep<T>, Vec<W>)| #[trigger]
            call_ensures(
                Receiver::<T>::recv_spin::<W>,
                (&receiver, shared, state, waiter, turn),
                stepped,
            ) && fits_call(state, Way::Spin, None) ==> {
                &&& (*final(shared)).consistent()
                &&& (as_timed(stepped.0) matches TimedRecvStep::Pending(next, _) ==> fits_call(next, Way::Spin, None))
                &&& receives_rightly(
                    Way::Spin,
                    None,
                    (*shared)@,
                    state,
                    waiter,
                    turn,
                    as_timed(stepped.0),
                    None,
                    stepped.1@,
                    (*final(shared))@,
                )
            },
        forall|shared: &mut Shared<T, W>, stepped: (RecvStep<T>, Vec<W>)| #[trigger]
            call_ensures(
                Receiver::<T>::recv_block::<W>,
                (&receiver, shared, state, waiter, turn),
                stepped,
            ) && fits_call(state, Way::Block, None) ==> {
                &&& (*final(shared)).consistent()
                &&& (as_timed(stepped.0) matches TimedRecvStep::Pending(next, _) ==> fits_call(next, Way::Block, None))
                &&& receives_rightly(
                    Way::Block,
                    None,
                    (*shared)@,
                    state,
                    waiter,
                    turn,
                    as_timed(stepped.0),
                    None,
                    stepped.1@,
                    (*final(shared))@,
                )
            },
        forall|shared: &mut Shared<T, W>, stepped: (RecvStep<T>, Vec<W>)| #[trigger]
            call_ensures(
                Receiver::<T>::recv_sync::<W>,
                (&receiver, shared, state, waiter, turn),
                stepped,
            ) && fits_call(state, way_of(turn.strategy), None) ==> {
                &&& (*final(shared)).consistent()
                &&& (as_timed(stepped.0) matches TimedRecvStep::Pending(next, _) ==> fits_call(next, way_of(turn.strategy), None))
                &&& receives_rightly(
                    way_of(turn.strategy),
                    None,
                    (*shared)@,
                    state,
                    waiter,
                    turn,
                    as_timed(stepped.0),
                    None,
                    stepped.1@,
                    (*final(shared))@,
                )
            },
        forall|shared: &mut Shared<T, W>, stepped: (RecvStep<T>, Vec<W>)| #[trigger]
            call_ensures(
                Receiver::<T>::recv_async::<W>,
                (&receiver, shared, state, waiter, turn),
                stepped,
            ) && fits_call(state, Way::Task, None) ==> {
                &&& (*final(shared)).consistent()
                &&& (as_timed(stepped.0) matches TimedRecvStep::Pending(next, _) ==> fits_call(next, Way::Task, None))
                &&& receives_rightly(
                    Way::Task,
                    None,
                    (*shared)@,
                    state,
                    waiter,
                    turn,
                    as_timed(stepped.0),
                    None,
                    stepped.1@,
                    (*final(shared))@,
                )
            },
{
    assert forall|shared: &mut Shared<T, W>, stepped: (RecvStep<T>, Vec<W>)| #[trigger]
        call_ensures(
            Receiver::<T>::recv_spin::<W>,
            (&receiver, shared, state, waiter, turn),
            stepped,
        ) && fits_call(state, Way::Spin, None) implies receives_rightly(
        Way::Spin,
        None,
        (*shared)@,
        state,
        waiter,
        turn,
        as_timed(stepped.0),
        None,
        stepped.1@,
        (*final(shared))@,
    ) by {
        lemma_receives_rightly(
            Method::Spin,
            Way::Spin,
            None,
            (*shared)@,
            state,
            waiter,
            turn,
            as_timed(stepped.0),
            stepped.1@,
            (*final(shared))@,
        );
    }
    assert forall|shared: &mut Shared<T, W>, stepped: (RecvStep<T>, Vec<W>)| #[trigger]
        call_ensures(
            Receiver::<T>::recv_block::<W>,
            (&receiver, shared, state, waiter, turn),
            stepped,
        ) && fits_call(state, Way::Block, None) implies receives_rightly(
        Way::Block,
        None,
        (*shared)@,
        state,
        waiter,
        turn,
        as_timed(stepped.0),
        None,
        stepped.1@,
        (*final(shared))@,
    ) by {
        lemma_receives_rightly(
            Method::Block,
            Way::Block,
            None,
            (*shared)@,
            state,
            waiter,
            turn,
            as_timed(stepped.0),
            stepped.1@,
            (*final(shared))@,
        );
    }
    assert forall|shared: &mut Shared<T, W>, stepped: (RecvStep<T>, Vec<W>)| #[trigger]
        call_ensures(
            Receiver::<T>::recv_sync::<W>,
            (&receiver, shared, state, waiter, turn),
            stepped,
        ) && fits_call(state, way_of(turn.strategy), None) implies receives_rightly(
        way_of(turn.strategy),
        None,
        (*shared)@,
        state,
        waiter,
        turn,
        as_timed(stepped.0),
        None,
        stepped.1@,
        (*final(shared))@,
    ) by {
        lemma_receives_rightly(
            Method::of(turn.strategy),
            way_of(turn.strategy),
            None,
            (*shared)@,
            state,
            waiter,
            turn,
            as_timed(stepped.0),
            stepped.1@,
            (*final(shared))@,
        );
    }
    assert forall|shared: &mut Shared<T, W>, stepped: (RecvStep<T>, Vec<W>)| #[trigger]
        call_ensures(
            Receiver::<T>::recv_async::<W>,
            (&receiver, shared, state, waiter, turn),
            stepped,
        ) && fits_call(state, Way::Task, None) implies receives_rightly(
        Way::Task,
        None,
        (*shared)@,
        state,
        waiter,
        turn,
        as_timed(stepped.0),
        None,
        stepped.1@,
        (*final(shared))@,
    ) by {
        lemma_receives_rightly(
            Method::Task,
            Way::Task,
            None,
            (*shared)@,
            state,
            waiter,
            turn,
            as_timed(stepped.0),
            stepped.1@,
            (*final(shared))@,
        );
    }
}

/// Every step of receiving until a deadline, in whatever way, comes out rightly.
pub proof fn law_timed_receiving<T, W>(
    receiver: Receiver<T>,
    state: RecvState,
    waiter: Waiter<W>,
    deadline: u64,
    turn: Turn<W>,
)
    ensures
        forall|shared: &mut Shared<T, W>, stepped: (TimedRecvStep<T>, Vec<W>)| #[trigger]
            call_ensures(
                Receiver::<T>::recv_spin_timeout::<W>,
                (&receiver, shared, state, waiter, deadline, turn),
                stepped,
            ) && fits_call(state, Way::Spin, Some(deadline)) ==> {
                &&& (*final(shared)).consistent()
                &&& (stepped.0 matches TimedRecvStep::Pending(next, _) ==> fits_call(next, Way::Spin, Some(deadline)))
                &&& receives_rightly(
                    Way::Spin,
                    Some(deadline),
                    (*shared)@,
                    state,
                    waiter,
                    turn,
                    stepped.0,
                    None,
                    stepped.1@,
                    (*final(shared))@,
                )
            },
        forall|shared: &mut Shared<T, W>, stepped: (TimedRecvStep<T>, Vec<W>)| #[trigger]
            call_ensures(
                Receiver::<T>::recv_block_timeout::<W>,
                (&receiver, shared, state, waiter, deadline, turn),
                stepped,
            ) && fits_call(state, Way::Block, Some(deadline)) ==> {
                &&& (*final(shared)).consistent()
                &&& (stepped.0 matches TimedRecvStep::Pending(next, _) ==> fits_call(next, Way::Block, Some(deadline)))
                &&& receives_rightly(
                    Way::Block,
                    Some(deadline),
                    (*shared)@,
                    state,
                    waiter,
                    turn,
                    stepped.0,
                    None,
                    stepped.1@,
                    (*final(shared))@,
                )
            },
        forall|shared: &mut Shared<T, W>, stepped: (TimedRecvStep<T>, Vec<W>)| #[trigger]
            call_ensures(
                Receiver::<T>::recv_sync_timeout::<W>,
                (&receiver, shared, state, waiter, deadline, turn),
                stepped,
            ) && fits_call(state, way_of(turn.strategy), Some(deadline)) ==> {
                &&& (*final(shared)).consistent()
                &&& (stepped.0 matches TimedRecvStep::Pending(next, _) ==> fits_call(next, way_of(turn.strategy), Some(deadline)))
                &&& receives_rightly(
                    way_of(turn.strategy),
                    Some(deadline),
                    (*shared)@,
                    state,
                    waiter,
                    turn,
                    stepped.0,
                    None,
                    stepped.1@,
                    (*final(shared))@,
                )
            },
        forall|
            shared: &mut Shared<T, W>,
            stepped: (TimedRecvStep<T>, Option<Waiter<W>>, Vec<W>),
        | #[trigger]
            call_ensures(
                Receiver::<T>::recv_async_timeout::<W>,
                (&receiver, shared, state, waiter, deadline, turn),
                stepped,
            ) && fits_call(state, Way::Task, Some(deadline)) ==> {
                &&& (*final(shared)).consistent()
                &&& (stepped.0 matches TimedRecvStep::Pending(next, _) ==> fits_call(next, Way::Task, Some(deadline)))
                &&& receives_rightly(
                    Way::Task,
                    Some(deadline),
                    (*shared)@,
                    state,
                    waiter,
                    turn,
                    stepped.0,
                    stepped.1,
                    stepped.2@,
                    (*final(shared))@,
                )
            },
{
    assert forall|shared: &mut Shared<T, W>, stepped: (TimedRecvStep<T>, Vec<W>)| #[trigger]
        call_ensures(
            Receiver::<T>::recv_spin_timeout::<W>,
            (&receiver, shared, state, waiter, deadline, turn),
            stepped,
        ) && fits_call(state, Way::Spin, Some(deadline)) implies receives_rightly(
        Way::Spin,
        Some(deadline),
        (*shared)@,
        state,
        waiter,
        turn,
        stepped.0,
        None,
        stepped.1@,
        (*final(shared))@,
    ) by {
        lemma_receives_rightly(
            Method::Spin,
            Way::Spin,
            Some(deadline),
            (*shared)@,
            state,
            waiter,
            turn,
            stepped.0,
            stepped.1@,
            (*final(shared))@,
        );
    }
    assert forall|shared: &mut Shared<T, W>, stepped: (TimedRecvStep<T>, Vec<W>)| #[trigger]
        call_ensures(
            Receiver::<T>::recv_block_timeout::<W>,
            (&receiver, shared, state, waiter, deadline, turn),
            stepped,
        ) && fits_call(state, Way::Block, Some(deadline)) implies receives_rightly(
        Way::Block,
        Some(deadline),
        (*shared)@,
        state,
        waiter,
        turn,
        stepped.0,
        None,
        stepped.1@,
        (*final(shared))@,
    ) by {
        lemma_receives_rightly(
            Method::Block,
            Way::Block,
            Some(deadline),
            (*shared)@,
            state,
            waiter,
            turn,
            stepped.0,
            stepped.1@,
            (*final(shared))@,
        );
    }
    assert forall|shared: &mut Shared<T, W>, stepped: (TimedRecvStep<T>, Vec<W>)| #[trigger]
        call_ensures(
            Receiver::<T>::recv_sync_timeout::<W>,
            (&receiver, shared, state, waiter, deadline, turn),
            stepped,
        ) && fits_call(state, way_of(turn.strategy), Some(deadline)) implies receives_rightly(
        way_of(turn.strategy),
        Some(deadline),
        (*shared)@,
        state,
        waiter,
        turn,
        stepped.0,
        None,
        stepped.1@,
        (*final(shared))@,
    ) by {
        lemma_receives_rightly(
            Method::of(turn.strategy),
            way_of(turn.strategy),
            Some(deadline),
            (*shared)@,
            state,
            waiter,
            turn,
            stepped.0,
            stepped.1@,
            (*final(shared))@,
        );
    }
    assert forall|
        shared: &mut Shared<T, W>,
        stepped: (TimedRecvStep<T>, Option<Waiter<W>>, Vec<W>),
    | #[trigger]
        call_ensures(
            Receiver::<T>::recv_async_timeout::<W>,
            (&receiver, shared, state, waiter, deadline, turn),
            stepped,
        ) && fits_call(state, Way::Task, Some(deadline)) implies receives_rightly(
        Way::Task,
        Some(deadline),
        (*shared)@,
        state,
        waiter,
        turn,
        stepped.0,
        stepped.1,
        stepped.2@,
        (*final(shared))@,
    ) by {
        lemma_receives_rightly(
            Method::Task,
            Way::Task,
            Some(deadline),
            (*shared)@,
            state,
            waiter,
            turn,
            stepped.0,
            stepped.2@,
            (*final(shared))@,
        );
    }
}

/// The outcome of a step of an iterator as one of receiving.
pub open spec fn some_of<T>(step: RecvStep<Option<T>>) -> RecvStep<T> {
    match step {
        RecvStep::Received(message) => RecvStep::Received(message->Some_0),
        RecvStep::Pending(next, pause) => RecvStep::Pending(next, pause),
    }
}

/// Every step of the iterator is one of receiving as the platform's strategy says.
pub proof fn law_iterating<T, W>(
    state: RecvState,
    waiter: Waiter<W>,
    turn: Turn<W>,
)
    ensures
        forall|
            messages: &mut IntoIter<T>,
            shared: &mut Shared<T, W>,
            stepped: (RecvStep<Option<T>>, Vec<W>),
        | #[trigger]
            call_ensures(
                IntoIter::<T>::next::<W>,
                (messages, shared, state, waiter, turn),
                stepped,
            ) && fits_call(state, way_of(turn.strategy), None) ==> {
                &&& (*final(shared)).consistent()
                &&& (as_timed(some_of(stepped.0)) matches TimedRecvStep::Pending(next, _) ==> fits_call(next, way_of(turn.strategy), None))
                &&& receives_rightly(
                    way_of(turn.strategy),
                    None,
                    (*shared)@,
                    state,
                    waiter,
                    turn,
                    as_timed(some_of(stepped.0)),
                    None,
                    stepped.1@,
                    (*final(shared))@,
                )
            },
{
    assert forall|
        messages: &mut IntoIter<T>,
        shared: &mut Shared<T, W>,
        stepped: (RecvStep<Option<T>>, Vec<W>),
    | #[trigger]
        call_ensures(
            IntoIter::<T>::next::<W>,
            (messages, shared, state, waiter, turn),
            stepped,
        ) && fits_call(state, way_of(turn.strategy), None) implies receives_rightly(
        way_of(turn.strategy),
        None,
        (*shared)@,
        state,
        waiter,
        turn,
        as_timed(some_of(stepped.0)),
        None,
        stepped.1@,
        (*final(shared))@,
    ) by {
        lemma_receives_rightly(
            Method::of(turn.strategy),
            way_of(turn.strategy),
            None,
            (*shared)@,
            state,
            waiter,
            turn,
            as_timed(some_of(stepped.0)),
            stepped.1@,
            (*final(shared))@,
        );
    }
}

/// The iterator has no end: what it receives is a message.
pub proof fn law_iterators_do_not_end<T, W>(state: RecvState, waiter: Waiter<W>, turn: Turn<W>)
    ensures
        forall|
            messages: &mut IntoIter<T>,
            shared: &mut Shared<T, W>,
            stepped: (RecvStep<Option<T>>, Vec<W>),
        | #[trigger]
            call_ensures(IntoIter::<T>::next::<W>, (messages, shared, state, waiter, turn), stepped)
                ==> {
                &&& stepped.0 matches RecvStep::Received(message) ==> message is Some
                &&& (*final(messages)).receiver() == (*messages).receiver()
            },
        forall|receiver: Receiver<T>, messages: IntoIter<T>| #[trigger]
            call_ensures(Receiver::<T>::into_iter, (receiver,), messages) ==> messages.receiver()
                == receiver,
{
}

proof fn lemma_receives_rightly<T, W>(
    method: Method,
    way: Way,
    deadline: Option<u64>,
    before: MonitorView<Seq<T>, W>,
    state: RecvState,
    waiter: Waiter<W>,
    turn: Turn<W>,
    step: TimedRecvStep<T>,
    wakes: Seq<W>,
    after: MonitorView<Seq<T>, W>,
)
    requires
        before.recv_steps(method, deadline, state, waiter, turn, step, wakes, after),
        fits_call(state, way, deadline),
        way == match method {
            Method::Spin => Way::Spin,
            Method::Block => Way::Block,
            Method::Task => Way::Task,
        },
    ensures
        receives_rightly(
            way,
            deadline,
            before,
            state,
            waiter,
            turn,
            step,
            recv_cancels(state, turn, before.condvar),
            wakes,
            after,
        ),
        (way != Way::Task || deadline is None) ==> recv_cancels(state, turn, before.condvar) is None,
{
    if before.mutex.data is Some {
        let messages = before.mutex.data->Some_0;
        if messages.len() > 0 {
            assert(messages =~= seq![messages.first()] + messages.drop_first());
        } else {
            assert(messages =~= Seq::<T>::empty());
        }
    }
    if let RecvState::Waiting(wait) = state {
        lemma_lists_fit(wait, turn, before.condvar);
        let lists = wait.lists_after(turn, before.condvar);
        assert(lists_fit(wait, turn, before.condvar, wait.cancels(turn, before.condvar), lists));
    }
}

/// Whether an attempt to receive came out rightly: it receives the oldest message of a channel
/// that is free, and else nothing. Nobody who waited for the channel is dropped.
pub open spec fn tries_rightly<T, W>(
    before: MonitorView<Seq<T>, W>,
    tried: (Result<T, TryRecvError>, Vec<W>),
    after: MonitorView<Seq<T>, W>,
) -> bool {
    &&& after.condvar == before.condvar
    &&& match (before.mutex.data, tried.0) {
        (Some(messages), Ok(message)) => {
            &&& after.mutex.data is Some
            &&& messages == seq![message] + after.mutex.data->Some_0
            &&& lets_go(before.mutex, after.mutex.data->Some_0, tried.1@, after.mutex)
        },
        (Some(messages), Err(_)) => {
            &&& messages.len() == 0
            &&& lets_go(before.mutex, messages, tried.1@, after.mutex)
        },
        (None, Ok(_)) => false,
        (None, Err(_)) => tried.1@.len() == 0 && after.mutex == before.mutex,
    }
}

/// Every attempt to receive comes out rightly.
pub proof fn law_trying_to_receive<T, W>(receiver: Receiver<T>)
    ensures
        forall|shared: &mut Shared<T, W>, tried: (Result<T, TryRecvError>, Vec<W>)| #[trigger]
            call_ensures(Receiver::<T>::try_recv::<W>, (&receiver, shared), tried) ==> {
                &&& (*final(shared)).consistent()
                &&& tries_rightly((*shared)@, tried, (*final(shared))@)
            },
{
    assert forall|shared: &mut Shared<T, W>, tried: (Result<T, TryRecvError>, Vec<W>)| #[trigger]
        call_ensures(
            Receiver::<T>::try_recv::<W>,
            (&receiver, shared),
            tried,
        ) implies tries_rightly(
        (*shared)@,
        tried,
        (*final(shared))@,
    ) by {
        if (*shared)@.mutex.data is Some {
            let messages = (*shared)@.mutex.data->Some_0;
            if messages.len() > 0 {
                assert(messages =~= seq![messages.first()] + messages.drop_first());
            }
        }
    }
}

/// A receive that found the channel empty, and was then signalled, receives the oldest message
/// with its next step if there is one and the channel is free, in whatever way it waits and
/// whether or not it has a deadline.
pub proof fn law_signalled_receives_finish<T, W>(
    receiver: Receiver<T>,
    waiter: Waiter<W>,
    other: Waiter<W>,
    deadline: u64,
    first: Turn<W>,
    turn: Turn<W>,
)
    requires
        turn.signalled,
        turn.strategy == first.strategy,
    ensures
        forall|
            shared: &mut Shared<T, W>,
            began: (RecvStep<T>, Vec<W>),
            state: RecvState,
            later: &mut Shared<T, W>,
            stepped: (RecvStep<T>, Vec<W>),
        |
            {
                &&& #[trigger] call_ensures(
                    Receiver::<T>::recv_spin::<W>,
                    (&receiver, shared, RecvState::Locking, waiter, first),
                    began,
                )
                &&& began.0 == RecvStep::<T>::Pending(state, Pause::Proceed)
                &&& #[trigger] call_ensures(
                    Receiver::<T>::recv_spin::<W>,
                    (&receiver, later, state, other, turn),
                    stepped,
                )
                &&& (*shared)@.mutex.data is Some
                &&& (*later)@.mutex.data is Some
                &&& (*later)@.mutex.data->Some_0.len() > 0
            } ==> stepped.0 == RecvStep::<T>::Received((*later)@.mutex.data->Some_0.first()),
        forall|
            shared: &mut Shared<T, W>,
            began: (RecvStep<T>, Vec<W>),
            state: RecvState,
            later: &mut Shared<T, W>,
            stepped: (RecvStep<T>, Vec<W>),
        |
            {
                &&& #[trigger] call_ensures(
                    Receiver::<T>::recv_sync::<W>,
                    (&receiver, shared, RecvState::Locking, waiter, first),
                    began,
                )
                &&& began.0 == RecvStep::<T>::Pending(state, Pause::Proceed)
                &&& #[trigger] call_ensures(
                    Receiver::<T>::recv_sync::<W>,
                    (&receiver, later, state, other, turn),
                    stepped,
                )
                &&& turn.strategy == Strategy::Spin
                &&& (*shared)@.mutex.data is Some
                &&& (*later)@.mutex.data is Some
                &&& (*later)@.mutex.data->Some_0.len() > 0
            } ==> stepped.0 == RecvStep::<T>::Received((*later)@.mutex.data->Some_0.first()),
        forall|
            shared: &mut Shared<T, W>,
            began: (RecvStep<T>, Vec<W>),
            state: RecvState,
            later: &mut Shared<T, W>,
            stepped: (RecvStep<T>, Vec<W>),
        |
            {
                &&& #[trigger] call_ensures(
                    Receiver::<T>::recv_async::<W>,
                    (&receiver, shared, RecvState::Locking, waiter, first),
                    began,
                )
                &&& began.0 == RecvStep::<T>::Pending(state, Pause::Proceed)
                &&& #[trigger] call_ensures(
                    Receiver::<T>::recv_async::<W>,
                    (&receiver, later, state, other, turn),
                    stepped,
                )
                &&& (*shared)@.mutex.data is Some
                &&& (*later)@.mutex.data is Some
                &&& (*later)@.mutex.data->Some_0.len() > 0
            } ==> stepped.0 == RecvStep::<T>::Received((*later)@.mutex.data->Some_0.first()),
        forall|
            shared: &mut Shared<T, W>,
            began: (TimedRecvStep<T>, Vec<W>),
            state: RecvState,
            later: &mut Shared<T, W>,
            stepped: (TimedRecvStep<T>, Vec<W>),
        |
            {
                &&& #[trigger] call_ensures(
                    Receiver::<T>::recv_spin_timeout::<W>,
                    (&receiver, shared, RecvState::Locking, waiter, deadline, first),
                    began,
                )
                &&& began.0 == TimedRecvStep::<T>::Pending(state, Pause::Proceed)
                &&& #[trigger] call_ensures(
                    Receiver::<T>::recv_spin_timeout::<W>,
                    (&receiver, later, state, other, deadline, turn),
                    stepped,
                )
                &&& (*shared)@.mutex.data is Some
                &&& (*later)@.mutex.data is Some
                &&& (*later)@.mutex.data->Some_0.len() > 0
            } ==> stepped.0 == TimedRecvStep::<T>::Finished(Ok((*later)@.mutex.data->Some_0.first())),
        forall|
            shared: &mut Shared<T, W>,
            began: (TimedRecvStep<T>, Vec<W>),
            state: RecvState,
            later: &mut Shared<T, W>,
            stepped: (TimedRecvStep<T>, Vec<W>),
        |
            {
                &&& #[trigger] call_ensures(
                    Receiver::<T>::recv_sync_timeout::<W>,
                    (&receiver, shared, RecvState::Locking, waiter, deadline, first),
                    began,
                )
                &&& began.0 == TimedRecvStep::<T>::Pending(state, Pause::Proceed)
                &&& #[trigger] call_ensures(
                    Receiver::<T>::recv_sync_timeout::<W>,
                    (&receiver, later, state, other, deadline, turn),
                    stepped,
                )
                &&& turn.strategy == Strategy::Spin
                &&& (*shared)@.mutex.data is Some
                &&& (*later)@.mutex.data is Some
                &&& (*later)@.mutex.data->Some_0.len() > 0
            } ==> stepped.0 == TimedRecvStep::<T>::Finished(Ok((*later)@.mutex.data->Some_0.first())),
        forall|
            shared: &mut Shared<T, W>,
            began: (TimedRecvStep<T>, Option<Waiter<W>>, Vec<W>),
            state: RecvState,
            later: &mut Shared<T, W>,
            stepped: (TimedRecvStep<T>, Option<Waiter<W>>, Vec<W>),
        |
            {
                &&& #[trigger] call_ensures(
                    Receiver::<T>::recv_async_timeout::<W>,
                    (&receiver, shared, RecvState::Locking, waiter, deadline, first),
                    began,
                )
                &&& began.0 == TimedRecvStep::<T>::Pending(state, Pause::Proceed)
                &&& #[trigger] call_ensures(
                    Receiver::<T>::recv_async_timeout::<W>,
                    (&receiver, later, state, other, deadline, turn),
                    stepped,
                )
                &&& (*shared)@.mutex.data is Some
                &&& (*later)@.mutex.data is Some
                &&& (*later)@.mutex.data->Some_0.len() > 0
            } ==> stepped.0 == TimedRecvStep::<T>::Finished(Ok((*later)@.mutex.data->Some_0.first())),
{
    assert forall|
        shared: &mut Shared<T, W>,
        began: (RecvStep<T>, Vec<W>),
        state: RecvState,
        later: &mut Shared<T, W>,
        stepped: (RecvStep<T>, Vec<W>),
    |
        {
            &&& #[trigger] call_ensures(
                Receiver::<T>::recv_spin::<W>,
                (&receiver, shared, RecvState::Locking, waiter, first),
                began,
            )
            &&& began.0 == RecvStep::<T>::Pending(state, Pause::Proceed)
            &&& #[trigger] call_ensures(
                Receiver::<T>::recv_spin::<W>,
                (&receiver, later, state, other, turn),
                stepped,
            )
            &&& (*shared)@.mutex.data is Some
            &&& (*later)@.mutex.data is Some
            &&& (*later)@.mutex.data->Some_0.len() > 0
        } implies stepped.0 == RecvStep::<T>::Received((*later)@.mutex.data->Some_0.first()) by {
        law_receiving::<T, W>(receiver, RecvState::Locking, waiter, first);
        law_receiving::<T, W>(receiver, state, other, turn);
        let messages = (*later)@.mutex.data->Some_0;
        let rest = (*final(later))@.mutex.data->Some_0;
        assert(forall|message: T| (seq![message] + rest).first() == message);
    }
    assert forall|
        shared: &mut Shared<T, W>,
        began: (RecvStep<T>, Vec<W>),
        state: RecvState,
        later: &mut Shared<T, W>,
        stepped: (RecvStep<T>, Vec<W>),
    |
        {
            &&& #[trigger] call_ensures(
                Receiver::<T>::recv_sync::<W>,
                (&receiver, shared, RecvState::Locking, waiter, first),
                began,
            )
            &&& began.0 == RecvStep::<T>::Pending(state, Pause::Proceed)
            &&& #[trigger] call_ensures(
                Receiver::<T>::recv_sync::<W>,
                (&receiver, later, state, other, turn),
                stepped,
            )
            &&& turn.strategy == Strategy::Spin
            &&& (*shared)@.mutex.data is Some
            &&& (*later)@.mutex.data is Some
            &&& (*later)@.mutex.data->Some_0.len() > 0
        } implies stepped.0 == RecvStep::<T>::Received((*later)@.mutex.data->Some_0.first()) by {
        law_receiving::<T, W>(receiver, RecvState::Locking, waiter, first);
        law_receiving::<T, W>(receiver, state, other, turn);
        let messages = (*later)@.mutex.data->Some_0;
        let rest = (*final(later))@.mutex.data->Some_0;
        assert(forall|message: T| (seq![message] + rest).first() == message);
    }
    assert forall|
        shared: &mut Shared<T, W>,
        began: (RecvStep<T>, Vec<W>),
        state: RecvState,
        later: &mut Shared<T, W>,
        stepped: (RecvStep<T>, Vec<W>),
    |
        {
            &&& #[trigger] call_ensures(
                Receiver::<T>::recv_async::<W>,
                (&receiver, shared, RecvState::Locking, waiter, first),
                began,
            )
            &&& began.0 == RecvStep::<T>::Pending(state, Pause::Proceed)
            &&& #[trigger] call_ensures(
                Receiver::<T>::recv_async::<W>,
                (&receiver, later, state, other, turn),
                stepped,
            )
            &&& (*shared)@.mutex.data is Some
            &&& (*later)@.mutex.data is Some
            &&& (*later)@.mutex.data->Some_0.len() > 0
        } implies stepped.0 == RecvStep::<T>::Received((*later)@.mutex.data->Some_0.first()) by {
        law_receiving::<T, W>(receiver, RecvState::Locking, waiter, first);
        law_receiving::<T, W>(receiver, state, other, turn);
        let messages = (*later)@.mutex.data->Some_0;
        let rest = (*final(later))@.mutex.data->Some_0;
        assert(forall|message: T| (seq![message] + rest).first() == message);
    }
    assert forall|
        shared: &mut Shared<T, W>,
        began: (TimedRecvStep<T>, Vec<W>),
        state: RecvState,
        later: &mut Shared<T, W>,
        stepped: (TimedRecvStep<T>, Vec<W>),
    |
        {
            &&& #[trigger] call_ensures(
                Receiver::<T>::recv_spin_timeout::<W>,
                (&receiver, shared, RecvState::Locking, waiter, deadline, first),
                began,
            )
            &&& began.0 == TimedRecvStep::<T>::Pending(state, Pause::Proceed)
            &&& #[trigger] call_ensures(
                Receiver::<T>::recv_spin_timeout::<W>,
                (&receiver, later, state, other, deadline, turn),
                stepped,
            )
            &&& (*shared)@.mutex.data is Some
            &&& (*later)@.mutex.data is Some
            &&& (*later)@.mutex.data->Some_0.len() > 0
        } implies stepped.0 == TimedRecvStep::<T>::Finished(Ok((*later)@.mutex.data->Some_0.first())) by {
        law_timed_receiving::<T, W>(receiver, RecvState::Locking, waiter, deadline, first);
        law_timed_receiving::<T, W>(receiver, state, other, deadline, turn);
        let messages = (*later)@.mutex.data->Some_0;
        let rest = (*final(later))@.mutex.data->Some_0;
        assert(forall|message: T| (seq![message] + rest).first() == message);
    }
    assert forall|
        shared: &mut Shared<T, W>,
        began: (TimedRecvStep<T>, Vec<W>),
        state: RecvState,
        later: &mut Shared<T, W>,
        stepped: (TimedRecvStep<T>, Vec<W>),
    |
        {
            &&& #[trigger] call_ensures(
                Receiver::<T>::recv_sync_timeout::<W>,
                (&receiver, shared, RecvState::Locking, waiter, deadline, first),
                began,
            )
            &&& began.0 == TimedRecvStep::<T>::Pending(state, Pause::Proceed)
            &&& #[trigger] call_ensures(
                Receiver::<T>::recv_sync_timeout::<W>,
                (&receiver, later, state, other, deadline, turn),
                stepped,
            )
            &&& turn.strategy == Strategy::Spin
            &&& (*shared)@.mutex.data is Some
            &&& (*later)@.mutex.data is Some
            &&& (*later)@.mutex.data->Some_0.len() > 0
        } implies stepped.0 == TimedRecvStep::<T>::Finished(Ok((*later)@.mutex.data->Some_0.first())) by {
        law_timed_receiving::<T, W>(receiver, RecvState::Locking, waiter, deadline, first);
        law_timed_receiving::<T, W>(receiver, state, other, deadline, turn);
        let messages = (*later)@.mutex.data->Some_0;
        let rest = (*final(later))@.mutex.data->Some_0;
        assert(forall|message: T| (seq![message] + rest).first() == message);
    }
    assert forall|
        shared: &mut Shared<T, W>,
        began: (TimedRecvStep<T>, Option<Waiter<W>>, Vec<W>),
        state: RecvState,
        later: &mut Shared<T, W>,
        stepped: (TimedRecvStep<T>, Option<Waiter<W>>, Vec<W>),
    |
        {
            &&& #[trigger] call_ensures(
                Receiver::<T>::recv_async_timeout::<W>,
                (&receiver, shared, RecvState::Locking, waiter, deadline, first),
                began,
            )
            &&& began.0 == TimedRecvStep::<T>::Pending(state, Pause::Proceed)
            &&& #[trigger] call_ensures(
                Receiver::<T>::recv_async_timeout::<W>,
                (&receiver, later, state, other, deadline, turn),
                stepped,
            )
            &&& (*shared)@.mutex.data is Some
            &&& (*later)@.mutex.data is Some
            &&& (*later)@.mutex.data->Some_0.len() > 0
        } implies stepped.0 == TimedRecvStep::<T>::Finished(Ok((*later)@.mutex.data->Some_0.first())) by {
        law_timed_receiving::<T, W>(receiver, RecvState::Locking, waiter, deadline, first);
        law_timed_receiving::<T, W>(receiver, state, other, deadline, turn);
        let messages = (*later)@.mutex.data->Some_0;
        let rest = (*final(later))@.mutex.data->Some_0;
        assert(forall|message: T| (seq![message] + rest).first() == message);
    }
}

/// A receive that found the channel empty and parked, and is off its list when it comes back,
/// receives the oldest message with that step if there is one and the channel is free, with
/// or without a deadline.
pub proof fn law_notified_receives_finish<T, W>(
    receiver: Receiver<T>,
    waiter: Waiter<W>,
    second: Waiter<W>,
    third: Waiter<W>,
    deadline: u64,
    first: Turn<W>,
    next: Turn<W>,
    turn: Turn<W>,
)
    requires
        first.strategy == Strategy::Block,
        next.strategy == Strategy::Block,
        turn.strategy == Strategy::Block,
    ensures
        forall|
            shared: &mut Shared<T, W>,
            began: (RecvStep<T>, Vec<W>),
            listed: RecvState,
            between: &mut Shared<T, W>,
            went_on: (RecvStep<T>, Vec<W>),
            parked: RecvState,
            later: &mut Shared<T, W>,
            stepped: (RecvStep<T>, Vec<W>),
        |
            {
                &&& #[trigger] call_ensures(
                    Receiver::<T>::recv_block::<W>,
                    (&receiver, shared, RecvState::Locking, waiter, first),
                    began,
                )
                &&& began.0 == RecvStep::<T>::Pending(listed, Pause::Proceed)
                &&& #[trigger] call_ensures(
                    Receiver::<T>::recv_block::<W>,
                    (&receiver, between, listed, second, next),
                    went_on,
                )
                &&& went_on.0 matches RecvStep::Pending(left, _) && left == parked
                &&& #[trigger] call_ensures(
                    Receiver::<T>::recv_block::<W>,
                    (&receiver, later, parked, third, turn),
                    stepped,
                )
                &&& !is_on((*later)@.condvar.sync, waiter.id)
                &&& (*shared)@.mutex.data is Some
                &&& (*later)@.mutex.data is Some
                &&& (*later)@.mutex.data->Some_0.len() > 0
            } ==> stepped.0 == RecvStep::<T>::Received((*later)@.mutex.data->Some_0.first()),
        forall|
            shared: &mut Shared<T, W>,
            began: (RecvStep<T>, Vec<W>),
            listed: RecvState,
            between: &mut Shared<T, W>,
            went_on: (RecvStep<T>, Vec<W>),
            parked: RecvState,
            later: &mut Shared<T, W>,
            stepped: (RecvStep<T>, Vec<W>),
        |
            {
                &&& #[trigger] call_ensures(
                    Receiver::<T>::recv_sync::<W>,
                    (&receiver, shared, RecvState::Locking, waiter, first),
                    began,
                )
                &&& began.0 == RecvStep::<T>::Pending(listed, Pause::Proceed)
                &&& #[trigger] call_ensures(
                    Receiver::<T>::recv_sync::<W>,
                    (&receiver, between, listed, second, next),
                    went_on,
                )
                &&& went_on.0 matches RecvStep::Pending(left, _) && left == parked
                &&& #[trigger] call_ensures(
                    Receiver::<T>::recv_sync::<W>,
                    (&receiver, later, parked, third, turn),
                    stepped,
                )
                &&& !is_on((*later)@.condvar.sync, waiter.id)
                &&& (*shared)@.mutex.data is Some
                &&& (*later)@.mutex.data is Some
                &&& (*later)@.mutex.data->Some_0.len() > 0
            } ==> stepped.0 == RecvStep::<T>::Received((*later)@.mutex.data->Some_0.first()),
        forall|
            shared: &mut Shared<T, W>,
            began: (TimedRecvStep<T>, Vec<W>),
            listed: RecvState,
            between: &mut Shared<T, W>,
            went_on: (TimedRecvStep<T>, Vec<W>),
            parked: RecvState,
            later: &mut Shared<T, W>,
            stepped: (TimedRecvStep<T>, Vec<W>),
        |
            {
                &&& #[trigger] call_ensures(
                    Receiver::<T>::recv_block_timeout::<W>,
                    (&receiver, shared, RecvState::Locking, waiter, deadline, first),
                    began,
                )
                &&& began.0 == TimedRecvStep::<T>::Pending(listed, Pause::Proceed)
                &&& #[trigger] call_ensures(
                    Receiver::<T>::recv_block_timeout::<W>,
                    (&receiver, between, listed, second, deadline, next),
                    went_on,
                )
                &&& went_on.0 matches TimedRecvStep::Pending(left, _) && left == parked
                &&& next.now < deadline
                &&& #[trigger] call_ensures(
                    Receiver::<T>::recv_block_timeout::<W>,
                    (&receiver, later, parked, third, deadline, turn),
                    stepped,
                )
                &&& !is_on((*later)@.condvar.sync, waiter.id)
                &&& (*shared)@.mutex.data is Some
                &&& (*later)@.mutex.data is Some
                &&& (*later)@.mutex.data->Some_0.len() > 0
            } ==> stepped.0 == TimedRecvStep::<T>::Finished(Ok((*later)@.mutex.data->Some_0.first())),
        forall|
            shared: &mut Shared<T, W>,
            began: (TimedRecvStep<T>, Vec<W>),
            listed: RecvState,
            between: &mut Shared<T, W>,
            went_on: (TimedRecvStep<T>, Vec<W>),
            parked: RecvState,
            later: &mut Shared<T, W>,
            stepped: (TimedRecvStep<T>, Vec<W>),
        |
            {
                &&& #[trigger] call_ensures(
                    Receiver::<T>::recv_sync_timeout::<W>,
                    (&receiver, shared, RecvState::Locking, waiter, deadline, first),
                    began,
                )
                &&& began.0 == TimedRecvStep::<T>::Pending(listed, Pause::Proceed)
                &&& #[trigger] call_ensures(
                    Receiver::<T>::recv_sync_timeout::<W>,
                    (&receiver, between, listed, second, deadline, next),
                    went_on,
                )
                &&& went_on.0 matches TimedRecvStep::Pending(left, _) && left == parked
                &&& next.now < deadline
                &&& #[trigger] call_ensures(
                    Receiver::<T>::recv_sync_timeout::<W>,
                    (&receiver, later, parked, third, deadline, turn),
                    stepped,
                )
                &&& !is_on((*later)@.condvar.sync, waiter.id)
                &&& (*shared)@.mutex.data is Some
                &&& (*later)@.mutex.data is Some
                &&& (*later)@.mutex.data->Some_0.len() > 0
            } ==> stepped.0 == TimedRecvStep::<T>::Finished(Ok((*later)@.mutex.data->Some_0.first())),
{
    assert forall|
        shared: &mut Shared<T, W>,
        began: (RecvStep<T>, Vec<W>),
        listed: RecvState,
        between: &mut Shared<T, W>,
        went_on: (RecvStep<T>, Vec<W>),
        parked: RecvState,
        later: &mut Shared<T, W>,
        stepped: (RecvStep<T>, Vec<W>),
    |
        {
            &&& #[trigger] call_ensures(
                Receiver::<T>::recv_block::<W>,
                (&receiver, shared, RecvState::Locking, waiter, first),
                began,
            )
            &&& began.0 == RecvStep::<T>::Pending(listed, Pause::Proceed)
            &&& #[trigger] call_ensures(
                Receiver::<T>::recv_block::<W>,
                (&receiver, between, listed, second, next),
                went_on,
            )
            &&& went_on.0 matches RecvStep::Pending(left, _) && left == parked
            &&& #[trigger] call_ensures(
                Receiver::<T>::recv_block::<W>,
                (&receiver, later, parked, third, turn),
                stepped,
            )
            &&& !is_on((*later)@.condvar.sync, waiter.id)
            &&& (*shared)@.mutex.data is Some
            &&& (*later)@.mutex.data is Some
            &&& (*later)@.mutex.data->Some_0.len() > 0
        } implies stepped.0 == RecvStep::<T>::Received((*later)@.mutex.data->Some_0.first()) by {
        law_receiving::<T, W>(receiver, RecvState::Locking, waiter, first);
        law_receiving::<T, W>(receiver, listed, second, next);
        law_receiving::<T, W>(receiver, parked, third, turn);
        let rest = (*final(later))@.mutex.data->Some_0;
        assert(forall|message: T| (seq![message] + rest).first() == message);
    }
    assert forall|
        shared: &mut Shared<T, W>,
        began: (RecvStep<T>, Vec<W>),
        listed: RecvState,
        between: &mut Shared<T, W>,
        went_on: (RecvStep<T>, Vec<W>),
        parked: RecvState,
        later: &mut Shared<T, W>,
        stepped: (RecvStep<T>, Vec<W>),
    |
        {
            &&& #[trigger] call_ensures(
                Receiver::<T>::recv_sync::<W>,
                (&receiver, shared, RecvState::Locking, waiter, first),
                began,
            )
            &&& began.0 == RecvStep::<T>::Pending(listed, Pause::Proceed)
            &&& #[trigger] call_ensures(
                Receiver::<T>::recv_sync::<W>,
                (&receiver, between, listed, second, next),
                went_on,
            )
            &&& went_on.0 matches RecvStep::Pending(left, _) && left == parked
            &&& #[trigger] call_ensures(
                Receiver::<T>::recv_sync::<W>,
                (&receiver, later, parked, third, turn),
                stepped,
            )
            &&& !is_on((*later)@.condvar.sync, waiter.id)
            &&& (*shared)@.mutex.data is Some
            &&& (*later)@.mutex.data is Some
            &&& (*later)@.mutex.data->Some_0.len() > 0
        } implies stepped.0 == RecvStep::<T>::Received((*later)@.mutex.data->Some_0.first()) by {
        law_receiving::<T, W>(receiver, RecvState::Locking, waiter, first);
        law_receiving::<T, W>(receiver, listed, second, next);
        law_receiving::<T, W>(receiver, parked, third, turn);
        let rest = (*final(later))@.mutex.data->Some_0;
        assert(forall|message: T| (seq![message] + rest).first() == message);
    }
    assert forall|
        shared: &mut Shared<T, W>,
        began: (TimedRecvStep<T>, Vec<W>),
        listed: RecvState,
        between: &mut Shared<T, W>,
        went_on: (TimedRecvStep<T>, Vec<W>),
        parked: RecvState,
        later: &mut Shared<T, W>,
        stepped: (TimedRecvStep<T>, Vec<W>),
    |
        {
            &&& #[trigger] call_ensures(
                Receiver::<T>::recv_block_timeout::<W>,
                (&receiver, shared, RecvState::Locking, waiter, deadline, first),
                began,
            )
            &&& began.0 == TimedRecvStep::<T>::Pending(listed, Pause::Proceed)
            &&& #[trigger] call_ensures(
                Receiver::<T>::recv_block_timeout::<W>,
                (&receiver, between, listed, second, deadline, next),
                went_on,
            )
            &&& went_on.0 matches TimedRecvStep::Pending(left, _) && left == parked
            &&& next.now < deadline
            &&& #[trigger] call_ensures(
                Receiver::<T>::recv_block_timeout::<W>,
                (&receiver, later, parked, third, deadline, turn),
                stepped,
            )
            &&& !is_on((*later)@.condvar.sync, waiter.id)
            &&& (*shared)@.mutex.data is Some
            &&& (*later)@.mutex.data is Some
            &&& (*later)@.mutex.data->Some_0.len() > 0
        } implies stepped.0 == TimedRecvStep::<T>::Finished(Ok((*later)@.mutex.data->Some_0.first())) by {
        law_timed_receiving::<T, W>(receiver, RecvState::Locking, waiter, deadline, first);
        law_timed_receiving::<T, W>(receiver, listed, second, deadline, next);
        law_timed_receiving::<T, W>(receiver, parked, third, deadline, turn);
        let rest = (*final(later))@.mutex.data->Some_0;
        assert(forall|message: T| (seq![message] + rest).first() == message);
    }
    assert forall|
        shared: &mut Shared<T, W>,
        began: (TimedRecvStep<T>, Vec<W>),
        listed: RecvState,
        between: &mut Shared<T, W>,
        went_on: (TimedRecvStep<T>, Vec<W>),
        parked: RecvState,
        later: &mut Shared<T, W>,
        stepped: (TimedRecvStep<T>, Vec<W>),
    |
        {
            &&& #[trigger] call_ensures(
                Receiver::<T>::recv_sync_timeout::<W>,
                (&receiver, shared, RecvState::Locking, waiter, deadline, first),
                began,
            )
            &&& began.0 == TimedRecvStep::<T>::Pending(listed, Pause::Proceed)
            &&& #[trigger] call_ensures(
                Receiver::<T>::recv_sync_timeout::<W>,
                (&receiver, between, listed, second, deadline, next),
                went_on,
            )
            &&& went_on.0 matches TimedRecvStep::Pending(left, _) && left == parked
            &&& next.now < deadline
            &&& #[trigger] call_ensures(
                Receiver::<T>::recv_sync_timeout::<W>,
                (&receiver, later, parked, third, deadline, turn),
                stepped,
            )
            &&& !is_on((*later)@.condvar.sync, waiter.id)
            &&& (*shared)@.mutex.data is Some
            &&& (*later)@.mutex.data is Some
            &&& (*later)@.mutex.data->Some_0.len() > 0
        } implies stepped.0 == TimedRecvStep::<T>::Finished(Ok((*later)@.mutex.data->Some_0.first())) by {
        law_timed_receiving::<T, W>(receiver, RecvState::Locking, waiter, deadline, first);
        law_timed_receiving::<T, W>(receiver, listed, second, deadline, next);
        law_timed_receiving::<T, W>(receiver, parked, third, deadline, turn);
        let rest = (*final(later))@.mutex.data->Some_0;
        assert(forall|message: T| (seq![message] + rest).first() == message);
    }
}

/// A channel takes every call at any time, from any state of receiving that fits the call.
pub proof fn law_channel_accepts_every_call<T, W>(
    sender: Sender<T>,
    receiver: Receiver<T>,
    strategy: Strategy,
    message: T,
    handle: W,
    state: RecvState,
    waiter: Waiter<W>,
    deadline: u64,
    turn: Turn<W>,
)
    ensures
        forall|shared: &mut Shared<T, W>| #[trigger]
            shared.consistent() ==> {
                &&& call_requires(Receiver::<T>::try_recv::<W>, (&receiver, shared))
                &&& call_requires(Sender::<T>::send_spin::<W>, (&sender, shared, message, handle))
                &&& call_requires(Sender::<T>::send_block::<W>, (&sender, shared, message, handle))
                &&& call_requires(Sender::<T>::send_sync::<W>, (&sender, shared, strategy, message, handle))
                &&& call_requires(Sender::<T>::send_async::<W>, (&sender, shared, message, handle))
                &&& fits_call(state, Way::Spin, None) ==> call_requires(
                    Receiver::<T>::recv_spin::<W>,
                    (&receiver, shared, state, waiter, turn),
                )
                &&& fits_call(state, Way::Block, None) ==> call_requires(
                    Receiver::<T>::recv_block::<W>,
                    (&receiver, shared, state, waiter, turn),
                )
                &&& fits_call(state, way_of(turn.strategy), None) ==> call_requires(
                    Receiver::<T>::recv_sync::<W>,
                    (&receiver, shared, state, waiter, turn),
                )
                &&& fits_call(state, Way::Task, None) ==> call_requires(
                    Receiver::<T>::recv_async::<W>,
                    (&receiver, shared, state, waiter, turn),
                )
                &&& fits_call(state, Way::Spin, Some(deadline)) ==> call_requires(
                    Receiver::<T>::recv_spin_timeout::<W>,
                    (&receiver, shared, state, waiter, deadline, turn),
                )
                &&& fits_call(state, Way::Block, Some(deadline)) ==> call_requires(
                    Receiver::<T>::recv_block_timeout::<W>,
                    (&receiver, shared, state, waiter, deadline, turn),
                )
                &&& fits_call(state, way_of(turn.strategy), Some(deadline)) ==> call_requires(
                    Receiver::<T>::recv_sync_timeout::<W>,
                    (&receiver, shared, state, waiter, deadline, turn),
                )
                &&& fits_call(state, Way::Task, Some(deadline)) ==> call_requires(
                    Receiver::<T>::recv_async_timeout::<W>,
                    (&receiver, shared, state, waiter, deadline, turn),
                )
            },
        forall|messages: &mut IntoIter<T>, shared: &mut Shared<T, W>|
            #![trigger messages.receiver(), shared.consistent()]
            shared.consistent() && fits_call(state, way_of(turn.strategy), None) ==> call_requires(
                IntoIter::<T>::next::<W>,
                (messages, shared, state, waiter, turn),
            ),
        forall|shared: Shared<T, W>| #[trigger] shared.wf() ==> shared.consistent(),
{
}

} // verus!
