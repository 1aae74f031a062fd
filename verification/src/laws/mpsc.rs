//! Laws of the channel.

use vstd::prelude::*;

use crate::condvar::{MonitorView, Turn};
use crate::mpsc::{Method, RecvState, SendStep, TimedRecvStep, TryRecvError};
use crate::platform::{Pause, Strategy};
use crate::waiter::Waiter;

verus! {

/// What a step did to the messages of a channel.
pub enum Traffic<T> {
    /// This message was sent.
    Sent(T),
    /// This message was received.
    Received(T),
    /// Neither.
    Nothing,
}

/// Whether a step with this traffic takes the messages from `before` to `after`.
pub open spec fn traffic_fits<T>(before: Seq<T>, traffic: Traffic<T>, after: Seq<T>) -> bool {
    match traffic {
        Traffic::Sent(message) => after == before.push(message),
        Traffic::Received(message) => {
            &&& before.len() > 0
            &&& message == before.first()
            &&& after == before.drop_first()
        },
        Traffic::Nothing => after == before,
    }
}

/// Whether `messages` are those of a channel after each step of this traffic.
///
/// There is one entry more than steps: the first is what the channel began with.
pub open spec fn is_history<T>(messages: Seq<Seq<T>>, traffic: Seq<Traffic<T>>) -> bool {
    &&& messages.len() == traffic.len() + 1
    &&& forall|i: int|
        0 <= i < traffic.len() ==> traffic_fits(
            messages[i],
            #[trigger] traffic[i],
            messages[i + 1],
        )
}

/// The messages that were sent, in order.
pub open spec fn sent<T>(traffic: Seq<Traffic<T>>) -> Seq<T>
    decreases traffic.len(),
{
    if traffic.len() == 0 {
        Seq::empty()
    } else {
        match traffic.last() {
            Traffic::Sent(message) => sent(traffic.drop_last()).push(message),
            _ => sent(traffic.drop_last()),
        }
    }
}

/// The messages that were received, in order.
pub open spec fn received<T>(traffic: Seq<Traffic<T>>) -> Seq<T>
    decreases traffic.len(),
{
    if traffic.len() == 0 {
        Seq::empty()
    } else {
        match traffic.last() {
            Traffic::Received(message) => received(traffic.drop_last()).push(message),
            _ => received(traffic.drop_last()),
        }
    }
}

/// What a step of sending did.
pub open spec fn send_traffic<T, W>(message: T, step: SendStep<T, W>) -> Traffic<T> {
    match step {
        SendStep::Sent(_) => Traffic::Sent(message),
        SendStep::Busy(_, _) => Traffic::Nothing,
    }
}

/// What a step of receiving did.
pub open spec fn recv_traffic<T>(step: TimedRecvStep<T>) -> Traffic<T> {
    match step {
        TimedRecvStep::Finished(Ok(message)) => Traffic::Received(message),
        _ => Traffic::Nothing,
    }
}

/// What an attempt to receive did.
pub open spec fn try_traffic<T>(result: Result<T, TryRecvError>) -> Traffic<T> {
    match result {
        Ok(message) => Traffic::Received(message),
        Err(_) => Traffic::Nothing,
    }
}

/// Every step of sending and of receiving on a channel that nobody holds, by
/// whatever method and from whatever state, is such traffic, and leaves the channel
/// held by nobody.
pub proof fn law_steps_are_traffic<T, W>(
    before: MonitorView<Seq<T>, W>,
    method: Method,
    message: T,
    handle: W,
    send_step: SendStep<T, W>,
    deadline: Option<u64>,
    state: RecvState,
    waiter: Waiter<W>,
    turn: Turn<W>,
    recv_step: TimedRecvStep<T>,
    result: Result<T, TryRecvError>,
    wakes: Seq<W>,
    after: MonitorView<Seq<T>, W>,
)
    requires
        !before.mutex.held(),
    ensures
        before.send_steps(method, message, handle, send_step, wakes, after) ==> {
            &&& !after.mutex.held()
            &&& traffic_fits(
                before.mutex.data->Some_0,
                send_traffic(message, send_step),
                after.mutex.data->Some_0,
            )
        },
        before.recv_steps(method, deadline, state, waiter, turn, recv_step, wakes, after) ==> {
            &&& !after.mutex.held()
            &&& traffic_fits(
                before.mutex.data->Some_0,
                recv_traffic(recv_step),
                after.mutex.data->Some_0,
            )
        },
        before.tries(result, wakes, after) ==> {
            &&& !after.mutex.held()
            &&& traffic_fits(
                before.mutex.data->Some_0,
                try_traffic(result),
                after.mutex.data->Some_0,
            )
        },
{
}

/// Messages come out in the order in which they went in, none is lost and none is
/// made up: at any time those received, followed by those still in the channel, are
/// those that it began with, followed by those sent.
pub proof fn law_first_in_first_out<T>(messages: Seq<Seq<T>>, traffic: Seq<Traffic<T>>)
    requires
        is_history(messages, traffic),
    ensures
        received(traffic) + messages.last() == messages.first() + sent(traffic),
    decreases traffic.len(),
{
    if traffic.len() > 0 {
        let earlier = traffic.drop_last();
        let last = traffic.len() - 1;
        assert forall|i: int| 0 <= i < earlier.len() implies traffic_fits(
            messages.drop_last()[i],
            #[trigger] earlier[i],
            messages.drop_last()[i + 1],
        ) by {
            assert(earlier[i] == traffic[i]);
        }
        law_first_in_first_out(messages.drop_last(), earlier);
        let before = messages[last];
        assert(messages.drop_last().last() == before);
        assert(traffic_fits(before, traffic[last], messages.last()));
        match traffic[last] {
            Traffic::Sent(message) => {
                assert(received(traffic) + messages.last() =~= (received(earlier) + before).push(
                    message,
                ));
            },
            Traffic::Received(message) => {
                assert(received(traffic) + messages.last() =~= received(earlier) + before);
            },
            Traffic::Nothing => {},
        }
        assert(messages.first() + sent(traffic) =~= received(traffic) + messages.last());
    } else {
        assert(received(traffic) + messages.last() =~= messages.first() + sent(traffic));
    }
}

/// Sending never waits for the receiver: on a channel that nobody holds, a message is
/// sent at once, however many are there already.
pub proof fn law_sending_does_not_wait<T, W>(
    before: MonitorView<Seq<T>, W>,
    method: Method,
    message: T,
    handle: W,
    step: SendStep<T, W>,
    wakes: Seq<W>,
    after: MonitorView<Seq<T>, W>,
)
    requires
        !before.mutex.held(),
        before.send_steps(method, message, handle, step, wakes, after),
    ensures
        step is Sent,
{
}

/// Where threads may not block, sending and receiving by spinning never ask to block.
/// By suspending they ask neither to block nor to spin, anywhere.
pub proof fn law_channels_keep_the_thread<T, W>(
    before: MonitorView<Seq<T>, W>,
    method: Method,
    message: T,
    send_step: SendStep<T, W>,
    deadline: Option<u64>,
    state: RecvState,
    waiter: Waiter<W>,
    turn: Turn<W>,
    recv_step: TimedRecvStep<T>,
    wakes: Seq<W>,
    after: MonitorView<Seq<T>, W>,
)
    requires
        method != Method::Block,
        method == Method::Spin ==> turn.strategy == Strategy::Spin,
        state.belongs(method, deadline),
    ensures
        before.send_steps(method, message, turn.handle, send_step, wakes, after) ==> (
        send_step matches SendStep::Busy(_, pause) ==> {
            &&& !pause.blocks()
            &&& method == Method::Task ==> pause == Pause::Await
        }),
        before.recv_steps(method, deadline, state, waiter, turn, recv_step, wakes, after) ==> (
        recv_step matches TimedRecvStep::Pending(_, pause) ==> {
            &&& !pause.blocks()
            &&& method == Method::Task ==> pause == Pause::Await || pause == Pause::Proceed
        }),
{
}

/// What was sent to a channel that nobody else touches is what the next receiver
/// gets, if the channel was empty.
pub proof fn law_receives_what_was_sent<T, W>(
    before: MonitorView<Seq<T>, W>,
    message: T,
    notified: Option<Waiter<W>>,
    wakes: Seq<W>,
    between: MonitorView<Seq<T>, W>,
    method: Method,
    waiter: Waiter<W>,
    turn: Turn<W>,
    step: TimedRecvStep<T>,
    later_wakes: Seq<W>,
    after: MonitorView<Seq<T>, W>,
)
    requires
        before.mutex.data == Some(Seq::<T>::empty()),
        before.sends(message, notified, wakes, between),
        between.recv_steps(
            method,
            None,
            RecvState::Locking,
            waiter,
            turn,
            step,
            later_wakes,
            after,
        ),
    ensures
        step == TimedRecvStep::<T>::Finished(Ok(message)),
        after.mutex.data == Some(Seq::<T>::empty()),
{
    assert(Seq::<T>::empty().push(message).drop_first() =~= Seq::<T>::empty());
}

} // verus!
