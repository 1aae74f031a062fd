//! A channel from many senders to one receiver.
//!
//! The two halves work on the shared state of their channel. Sending never waits
//! for the receiver: the buffer has no bound.

use std::collections::VecDeque;
use std::marker::PhantomData;

use vstd::prelude::*;

use crate::condvar::wait::Wait;
use crate::condvar::wait_async::{AsyncPhase, AsyncWait};
use crate::condvar::wait_block::{BlockPhase, BlockWait};
use crate::condvar::wait_spin::{SpinPhase, SpinWait};
use crate::condvar::{Condvar, CondvarView, MonitorView, Progress, Turn};
use crate::guard::Guard;
use crate::mutex::{Attempt, Mutex, MutexView, NotAvailable};
use crate::platform::{Pause, Strategy};
use crate::text::written_text;
use crate::waiter::Waiter;

verus! {

/// The shared state of a channel: its messages, and who waits for one.
#[derive(Debug)]
pub struct Shared<T, W> {
    /// The messages, oldest first.
    pub queue: Mutex<VecDeque<T>, W>,
    /// Notified of every message.
    pub condvar: Condvar<W>,
}

/// A mutex around a queue, seen as one around the messages in it.
pub open spec fn messages_view<T, W>(queue: MutexView<VecDeque<T>, W>) -> MutexView<Seq<T>, W> {
    MutexView {
        id: queue.id,
        data: match queue.data {
            Some(messages) => Some(messages@),
            None => None,
        },
        sync: queue.sync,
        tasks: queue.tasks,
    }
}

impl<T, W> View for Shared<T, W> {
    type V = MonitorView<Seq<T>, W>;

    open spec fn view(&self) -> MonitorView<Seq<T>, W> {
        MonitorView { condvar: self.condvar@, mutex: messages_view(self.queue@) }
    }
}

impl<T, W> Shared<T, W> {
    /// No part of the channel is being changed.
    pub open spec fn consistent(&self) -> bool {
        self.queue.consistent() && self.condvar.wf()
    }

    /// The channel while nobody is between freeing it and waking those who queued.
    pub open spec fn wf(&self) -> bool {
        self.queue.wf() && self.condvar.wf()
    }
}

/// The sending half of a channel. It can be cloned.
pub struct Sender<T> {
    message: PhantomData<T>,
}

/// The receiving half of a channel. There is one.
pub struct Receiver<T> {
    message: PhantomData<T>,
}

/// No message can be had now.
#[derive(Clone, Copy, Debug, PartialEq, Eq, Hash, Structural)]
#[non_exhaustive]
pub enum TryRecvError {
    /// There is none.
    Empty,
}

/// No message came in time.
#[derive(Clone, Copy, Debug, PartialEq, Eq, Hash, Structural)]
#[non_exhaustive]
pub enum RecvTimeoutError {
    /// The deadline passed.
    Timeout,
}

/// Outcome of one step of sending.
#[derive(Debug)]
pub enum SendStep<T, W> {
    /// The message is in the channel and this waiter, if any, is to be woken.
    Sent(Option<Waiter<W>>),
    /// The channel is locked; send the message again after this pause.
    Busy(T, Pause),
}

/// How far receiving has come.
#[derive(Debug)]
pub enum RecvState {
    /// The channel is yet to be locked.
    Locking,
    /// There was no message; this wait is under way.
    Waiting(Wait),
}

/// Outcome of one step of receiving.
#[derive(Debug)]
pub enum RecvStep<T> {
    /// This message was received.
    Received(T),
    /// Receiving goes on from this state after this pause.
    Pending(RecvState, Pause),
}

/// Outcome of one step of receiving before a deadline.
#[derive(Debug)]
pub enum TimedRecvStep<T> {
    /// Receiving is over.
    Finished(Result<T, RecvTimeoutError>),
    /// Receiving goes on from this state after this pause.
    Pending(RecvState, Pause),
}

/// How to wait for the lock and for a message.
#[derive(Clone, Copy, Debug, PartialEq, Eq, Structural)]
pub enum Method {
    /// Spin.
    Spin,
    /// Park the thread.
    Block,
    /// Suspend the task.
    Task,
}

impl Method {
    /// The method of the `_sync` operations.
    pub open spec fn of(strategy: Strategy) -> Self {
        match strategy {
            Strategy::Block => Method::Block,
            Strategy::Spin => Method::Spin,
        }
    }

    /// Whether an attempt to lock was refused with this pause and left `after`.
    pub open spec fn refused<T, W>(
        self,
        before: MutexView<T, W>,
        handle: W,
        pause: Pause,
        after: MutexView<T, W>,
    ) -> bool {
        match self {
            Method::Spin => before.refuses_sync(Strategy::Spin, handle, pause, after),
            Method::Block => before.refuses_sync(Strategy::Block, handle, pause, after),
            Method::Task => before.refuses_async(handle, pause, after),
        }
    }

    /// The lists after `waiter` began to wait.
    pub open spec fn lists_with<W>(
        self,
        lists: CondvarView<W>,
        waiter: Waiter<W>,
    ) -> CondvarView<W> {
        match self {
            Method::Spin => lists.with_spin(waiter),
            Method::Block => lists.with_sync(waiter),
            Method::Task => lists.with_task(waiter),
        }
    }

    /// The wait that `waiter` begins.
    pub open spec fn begun<W>(self, waiter: Waiter<W>, deadline: Option<u64>) -> Wait {
        match self {
            Method::Spin => Wait::Spin(SpinWait::begun(waiter, deadline)),
            Method::Block => Wait::Block(BlockWait::begun(waiter, deadline)),
            Method::Task => Wait::Task(AsyncWait::begun(waiter, deadline)),
        }
    }
}

impl RecvState {
    /// Whether this is a state of receiving by `method` until `deadline`.
    pub open spec fn belongs(self, method: Method, deadline: Option<u64>) -> bool {
        match (self, method) {
            (RecvState::Locking, _) => true,
            (RecvState::Waiting(Wait::Spin(wait)), Method::Spin) => {
                &&& wait.deadline == deadline
                &&& deadline is None ==> wait.phase != SpinPhase::Relocking { timed_out: true }
            },
            (RecvState::Waiting(Wait::Block(wait)), Method::Block) => {
                &&& wait.deadline == deadline
                &&& deadline is None ==> wait.phase != BlockPhase::Relocking { timed_out: true }
            },
            (RecvState::Waiting(Wait::Task(wait)), Method::Task) => {
                &&& wait.deadline == deadline
                &&& deadline is None ==> match wait.phase {
                    AsyncPhase::Suspended(race) => !race.timeout,
                    AsyncPhase::Relocking { timed_out } => !timed_out,
                }
            },
            _ => false,
        }
    }
}

impl<T> RecvStep<T> {
    /// The same outcome as one of receiving before a deadline.
    pub open spec fn timed(self) -> TimedRecvStep<T> {
        match self {
            RecvStep::Received(message) => TimedRecvStep::Finished(Ok(message)),
            RecvStep::Pending(next, pause) => TimedRecvStep::Pending(next, pause),
        }
    }

    /// Whether receiving may go on from here.
    pub open spec fn belongs(self, method: Method) -> bool {
        self matches RecvStep::Pending(next, _) ==> next.belongs(method, None)
    }
}

impl<T> TimedRecvStep<T> {
    /// Whether receiving may go on from here.
    pub open spec fn belongs(self, method: Method, deadline: Option<u64>) -> bool {
        self matches TimedRecvStep::Pending(next, _) ==> next.belongs(method, deadline)
    }
}

fn sync_method(strategy: Strategy) -> (method: Method)
    ensures
        method == Method::of(strategy),
{
    match strategy {
        Strategy::Block => Method::Block,
        Strategy::Spin => Method::Spin,
    }
}

impl<T, W> MonitorView<Seq<T>, W> {
    /// Whether `message` was sent, `notified` is to be woken, and so are `wakes`, who
    /// waited for the channel.
    pub open spec fn sends(
        self,
        message: T,
        notified: Option<Waiter<W>>,
        wakes: Seq<W>,
        after: MonitorView<Seq<T>, W>,
    ) -> bool {
        &&& !self.mutex.held()
        &&& wakes == self.mutex.queued()
        &&& after.mutex == self.mutex.released(self.mutex.data->Some_0.push(message))
        &&& after.condvar == self.condvar.notified_one()
        &&& notified == self.condvar.next_notified()
    }

    /// Whether a step of sending `message` came out as `step`, with `wakes` to be woken.
    pub open spec fn send_steps(
        self,
        method: Method,
        message: T,
        handle: W,
        step: SendStep<T, W>,
        wakes: Seq<W>,
        after: MonitorView<Seq<T>, W>,
    ) -> bool {
        match step {
            SendStep::Sent(notified) => self.sends(message, notified, wakes, after),
            SendStep::Busy(back, pause) => {
                &&& back == message
                &&& wakes.len() == 0
                &&& method.refused(self.mutex, handle, pause, after.mutex)
                &&& after.condvar == self.condvar
            },
        }
    }

    /// Whether taking a message out of a channel that is free came out as `step`.
    ///
    /// The oldest message is received. Without one, receiving ends if the time is up,
    /// or else a wait begins. Whoever waited for the channel is in `wakes`.
    pub open spec fn takes(
        self,
        timed_out: bool,
        begun: Wait,
        waiting: CondvarView<W>,
        step: TimedRecvStep<T>,
        wakes: Seq<W>,
        after: MonitorView<Seq<T>, W>,
    ) -> bool {
        let messages = self.mutex.data->Some_0;
        &&& !self.mutex.held()
        &&& wakes == self.mutex.queued()
        &&& if messages.len() > 0 {
            &&& step == TimedRecvStep::<T>::Finished(Ok(messages.first()))
            &&& after.condvar == self.condvar
            &&& after.mutex == self.mutex.released(messages.drop_first())
        } else if timed_out {
            &&& step == TimedRecvStep::<T>::Finished(Err(RecvTimeoutError::Timeout))
            &&& after.condvar == self.condvar
            &&& after.mutex == self.mutex.released(messages)
        } else {
            &&& step == TimedRecvStep::<T>::Pending(RecvState::Waiting(begun), Pause::Proceed)
            &&& after.condvar == waiting
            &&& after.mutex == self.mutex.released(messages)
        }
    }

    /// Whether an attempt to receive came out as `result`, with `wakes` to be woken.
    pub open spec fn tries(
        self,
        result: Result<T, TryRecvError>,
        wakes: Seq<W>,
        after: MonitorView<Seq<T>, W>,
    ) -> bool {
        match self.mutex.data {
            Some(messages) => {
                &&& wakes == self.mutex.queued()
                &&& after.condvar == self.condvar
                &&& if messages.len() > 0 {
                    &&& result == Ok::<T, TryRecvError>(messages.first())
                    &&& after.mutex == self.mutex.released(messages.drop_first())
                } else {
                    &&& result == Err::<T, TryRecvError>(TryRecvError::Empty)
                    &&& after.mutex == self.mutex.released(messages)
                }
            },
            None => {
                &&& result == Err::<T, TryRecvError>(TryRecvError::Empty)
                &&& wakes.len() == 0
                &&& after == self
            },
        }
    }

    /// Whether a step of receiving from `state` came out as `step`, with `wakes`, who
    /// waited for the channel, to be woken.
    ///
    /// The channel is locked first. Once it is, or once a wait is over and it is
    /// locked again, a message is taken.
    pub open spec fn recv_steps(
        self,
        method: Method,
        deadline: Option<u64>,
        state: RecvState,
        waiter: Waiter<W>,
        turn: Turn<W>,
        step: TimedRecvStep<T>,
        wakes: Seq<W>,
        after: MonitorView<Seq<T>, W>,
    ) -> bool {
        let begun = method.begun(waiter, deadline);
        match state {
            RecvState::Locking => if self.mutex.held() {
                &&& wakes.len() == 0
                &&& after.condvar == self.condvar
                &&& step matches TimedRecvStep::Pending(next, pause)
                &&& next == RecvState::Locking
                &&& method.refused(self.mutex, turn.handle, pause, after.mutex)
            } else {
                self.takes(
                    false,
                    begun,
                    method.lists_with(self.condvar, waiter),
                    step,
                    wakes,
                    after,
                )
            },
            RecvState::Waiting(wait) => {
                let lists = wait.lists_after(turn, self.condvar);
                match wait.verdict(turn, self.condvar) {
                    None => {
                        &&& wakes.len() == 0
                        &&& after.condvar == lists
                        &&& after.mutex == self.mutex
                        &&& step == TimedRecvStep::<T>::Pending(
                            RecvState::Waiting(wait.moved(turn, self.condvar)),
                            wait.resting(turn.now),
                        )
                    },
                    Some(timed_out) => if self.mutex.held() {
                        &&& wakes.len() == 0
                        &&& after.condvar == lists
                        &&& step matches TimedRecvStep::Pending(next, pause)
                        &&& next == RecvState::Waiting(wait.moved(turn, self.condvar))
                        &&& wait.refused(turn, self.mutex, pause, after.mutex)
                    } else {
                        (MonitorView { condvar: lists, mutex: self.mutex }).takes(
                            timed_out,
                            begun,
                            method.lists_with(lists, waiter),
                            step,
                            wakes,
                            after,
                        )
                    },
                }
            },
        }
    }
}

/// The waiter that a step of receiving takes off the list to be woken.
pub open spec fn recv_cancels<W>(
    state: RecvState,
    turn: Turn<W>,
    lists: CondvarView<W>,
) -> Option<Waiter<W>> {
    match state {
        RecvState::Locking => None,
        RecvState::Waiting(wait) => wait.cancels(turn, lists),
    }
}

/// Creates a channel: its shared state and its two halves.
///
/// What is sent comes out in the order in which it was sent.
pub fn channel<T, W>() -> (channel: (Shared<T, W>, Sender<T>, Receiver<T>))
    ensures
        channel.0.wf(),
        channel.0@.condvar == CondvarView::<W>::idle(),
        channel.0@.mutex == (MutexView {
            id: channel.0@.mutex.id,
            data: Some(Seq::<T>::empty()),
            sync: Seq::<W>::empty(),
            tasks: Seq::<W>::empty(),
        }),
{
    let shared = Shared { queue: Mutex::new(VecDeque::new()), condvar: Condvar::new() };
    (shared, Sender { message: PhantomData }, Receiver { message: PhantomData })
}

fn attempt_lock<T, W>(queue: &mut Mutex<T, W>, method: Method, handle: W) -> (attempt: Attempt<
    Guard<T>,
>)
    requires
        old(queue).consistent(),
    ensures
        final(queue).wf(),
        match attempt {
            Attempt::Acquired(guard) => old(queue)@.gives(guard, final(queue)@),
            Attempt::Retry(pause) => method.refused(old(queue)@, handle, pause, final(queue)@),
        },
{
    match method {
        Method::Spin => queue.lock_spin(),
        Method::Block => queue.lock_block(handle),
        Method::Task => queue.lock_async(handle),
    }
}

impl<T> Sender<T> {
    fn send<W>(
        &self,
        shared: &mut Shared<T, W>,
        method: Method,
        message: T,
        handle: W,
    ) -> (sent: (SendStep<T, W>, Vec<W>))
        requires
            old(shared).consistent(),
        ensures
            final(shared).wf(),
            old(shared)@.send_steps(
                method,
                message,
                handle,
                sent.0,
                sent.1@,
                final(shared)@,
            ),
    {
        match attempt_lock(&mut shared.queue, method, handle) {
            Attempt::Acquired(guard) => {
                let mut guard = guard;
                guard.as_mut().push_back(message);
                let wakes = guard.drop(&mut shared.queue);
                (SendStep::Sent(shared.condvar.notify_one()), wakes)
            },
            Attempt::Retry(pause) => (SendStep::Busy(message, pause), Vec::new()),
        }
    }

    /// Sends a message, or asks to spin if the channel is locked. Returns the handles of
    /// everybody who waited for the channel too, as do the other ways to send.
    pub fn send_spin<W>(
        &self,
        shared: &mut Shared<T, W>,
        message: T,
        handle: W,
    ) -> (sent: (SendStep<T, W>, Vec<W>))
        requires
            old(shared).consistent(),
        ensures
            final(shared).wf(),
            old(shared)@.send_steps(
                Method::Spin,
                message,
                handle,
                sent.0,
                sent.1@,
                final(shared)@,
            ),
    {
        self.send(shared, Method::Spin, message, handle)
    }

    /// Sends a message, or queues the thread and asks it to park if the channel is
    /// locked.
    pub fn send_block<W>(
        &self,
        shared: &mut Shared<T, W>,
        message: T,
        handle: W,
    ) -> (sent: (SendStep<T, W>, Vec<W>))
        requires
            old(shared).consistent(),
        ensures
            final(shared).wf(),
            old(shared)@.send_steps(
                Method::Block,
                message,
                handle,
                sent.0,
                sent.1@,
                final(shared)@,
            ),
    {
        self.send(shared, Method::Block, message, handle)
    }

    /// Sends a message, or waits as the platform's strategy says if the channel is
    /// locked.
    pub fn send_sync<W>(
        &self,
        shared: &mut Shared<T, W>,
        strategy: Strategy,
        message: T,
        handle: W,
    ) -> (sent: (SendStep<T, W>, Vec<W>))
        requires
            old(shared).consistent(),
        ensures
            final(shared).wf(),
            old(shared)@.send_steps(
                Method::of(strategy),
                message,
                handle,
                sent.0,
                sent.1@,
                final(shared)@,
            ),
    {
        self.send(shared, sync_method(strategy), message, handle)
    }

    /// Sends a message, or queues the task and asks it to suspend if the channel is
    /// locked.
    pub fn send_async<W>(
        &self,
        shared: &mut Shared<T, W>,
        message: T,
        handle: W,
    ) -> (sent: (SendStep<T, W>, Vec<W>))
        requires
            old(shared).consistent(),
        ensures
            final(shared).wf(),
            old(shared)@.send_steps(
                Method::Task,
                message,
                handle,
                sent.0,
                sent.1@,
                final(shared)@,
            ),
    {
        self.send(shared, Method::Task, message, handle)
    }
}

impl<T> Clone for Sender<T> {
    fn clone(&self) -> (sender: Self)
        ensures
            sender == *self,
    {
        Sender { message: PhantomData }
    }
}

impl<T> Receiver<T> {
    fn take<W>(
        &self,
        shared: &mut Shared<T, W>,
        guard: Guard<VecDeque<T>>,
        timed_out: bool,
        method: Method,
        deadline: Option<u64>,
        waiter: Waiter<W>,
    ) -> (taken: (TimedRecvStep<T>, Vec<W>))
        requires
            old(shared).consistent(),
            old(shared).queue@.lent(guard),
        ensures
            final(shared).wf(),
            (MonitorView {
                condvar: old(shared)@.condvar,
                mutex: old(shared)@.mutex.freed(guard@@),
            }).takes(
                timed_out,
                method.begun(waiter, deadline),
                method.lists_with(old(shared)@.condvar, waiter),
                taken.0,
                taken.1@,
                final(shared)@,
            ),
    {
        let mut guard = guard;
        match guard.as_mut().pop_front() {
            Some(message) => {
                let wakes = guard.drop(&mut shared.queue);
                (TimedRecvStep::Finished(Ok(message)), wakes)
            },
            None => {
                if timed_out {
                    let wakes = guard.drop(&mut shared.queue);
                    return (TimedRecvStep::Finished(Err(RecvTimeoutError::Timeout)), wakes);
                }
                let (wait, wakes) = self.begin(shared, guard, method, deadline, waiter);
                (TimedRecvStep::Pending(RecvState::Waiting(wait), Pause::Proceed), wakes)
            },
        }
    }

    fn begin<W>(
        &self,
        shared: &mut Shared<T, W>,
        guard: Guard<VecDeque<T>>,
        method: Method,
        deadline: Option<u64>,
        waiter: Waiter<W>,
    ) -> (begun: (Wait, Vec<W>))
        requires
            old(shared).consistent(),
            old(shared).queue@.lent(guard),
        ensures
            final(shared).wf(),
            begun.0 == method.begun(waiter, deadline),
            begun.1@ == old(shared)@.mutex.queued(),
            final(shared)@.condvar == method.lists_with(old(shared)@.condvar, waiter),
            final(shared)@.mutex == old(shared)@.mutex.released(guard@@),
    {
        let condvar = &mut shared.condvar;
        let queue = &mut shared.queue;
        match method {
            Method::Spin => {
                let (wait, wakes) = match deadline {
                    Some(deadline) => condvar.wait_spin_until(queue, guard, waiter, deadline),
                    None => condvar.wait_spin(queue, guard, waiter),
                };
                (Wait::Spin(wait), wakes)
            },
            Method::Block => {
                let (wait, wakes) = match deadline {
                    Some(deadline) => condvar.wait_block_until(queue, guard, waiter, deadline),
                    None => condvar.wait_block(queue, guard, waiter),
                };
                (Wait::Block(wait), wakes)
            },
            Method::Task => {
                let (wait, wakes) = match deadline {
                    Some(deadline) => condvar.wait_async_until(queue, guard, waiter, deadline),
                    None => condvar.wait_async(queue, guard, waiter),
                };
                (Wait::Task(wait), wakes)
            },
        }
    }

    fn recv<W>(
        &self,
        shared: &mut Shared<T, W>,
        method: Method,
        deadline: Option<u64>,
        state: RecvState,
        waiter: Waiter<W>,
        turn: Turn<W>,
    ) -> (stepped: (TimedRecvStep<T>, Option<Waiter<W>>, Vec<W>))
        requires
            old(shared).consistent(),
            state.belongs(method, deadline),
        ensures
            final(shared).consistent(),
            old(shared).wf() ==> final(shared).wf(),
            stepped.0.belongs(method, deadline),
            old(shared)@.recv_steps(
                method,
                deadline,
                state,
                waiter,
                turn,
                stepped.0,
                stepped.2@,
                final(shared)@,
            ),
            stepped.1 == recv_cancels(state, turn, old(shared)@.condvar),
    {
        match state {
            RecvState::Locking => match attempt_lock(&mut shared.queue, method, turn.handle) {
                Attempt::Acquired(guard) => {
                    let (step, wakes) = self.take(shared, guard, false, method, deadline, waiter);
                    (step, None, wakes)
                },
                Attempt::Retry(pause) => (
                    TimedRecvStep::Pending(RecvState::Locking, pause),
                    None,
                    Vec::new(),
                ),
            },
            RecvState::Waiting(wait) => match wait.poll(
                &mut shared.condvar,
                &mut shared.queue,
                turn,
            ) {
                (Progress::Ready(guard, result), cancelled) => {
                    let timed_out = result.timed_out();
                    let (step, wakes) = self.take(
                        shared,
                        guard,
                        timed_out,
                        method,
                        deadline,
                        waiter,
                    );
                    (step, cancelled, wakes)
                },
                (Progress::Pending(next, pause), cancelled) => (
                    TimedRecvStep::Pending(RecvState::Waiting(next), pause),
                    cancelled,
                    Vec::new(),
                ),
            },
        }
    }

    fn recv_untimed<W>(
        &self,
        shared: &mut Shared<T, W>,
        method: Method,
        state: RecvState,
        waiter: Waiter<W>,
        turn: Turn<W>,
    ) -> (stepped: (RecvStep<T>, Vec<W>))
        requires
            old(shared).consistent(),
            state.belongs(method, None),
        ensures
            final(shared).consistent(),
            old(shared).wf() ==> final(shared).wf(),
            stepped.0.belongs(method),
            old(shared)@.recv_steps(
                method,
                None,
                state,
                waiter,
                turn,
                stepped.0.timed(),
                stepped.1@,
                final(shared)@,
            ),
    {
        let (step, _, wakes) = self.recv(shared, method, None, state, waiter, turn);
        match step {
            TimedRecvStep::Finished(result) => (RecvStep::Received(result.unwrap()), wakes),
            TimedRecvStep::Pending(next, pause) => (RecvStep::Pending(next, pause), wakes),
        }
    }

    fn recv_timed<W>(
        &self,
        shared: &mut Shared<T, W>,
        method: Method,
        state: RecvState,
        waiter: Waiter<W>,
        deadline: u64,
        turn: Turn<W>,
    ) -> (stepped: (TimedRecvStep<T>, Vec<W>))
        requires
            old(shared).consistent(),
            state.belongs(method, Some(deadline)),
        ensures
            final(shared).consistent(),
            old(shared).wf() ==> final(shared).wf(),
            stepped.0.belongs(method, Some(deadline)),
            old(shared)@.recv_steps(
                method,
                Some(deadline),
                state,
                waiter,
                turn,
                stepped.0,
                stepped.1@,
                final(shared)@,
            ),
    {
        let (step, _, wakes) = self.recv(shared, method, Some(deadline), state, waiter, turn);
        (step, wakes)
    }

    /// One step of receiving a message, spinning while there is none. Returns the handles
    /// of everybody who waited for the channel too, as do the other ways to receive.
    pub fn recv_spin<W>(
        &self,
        shared: &mut Shared<T, W>,
        state: RecvState,
        waiter: Waiter<W>,
        turn: Turn<W>,
    ) -> (stepped: (RecvStep<T>, Vec<W>))
        requires
            old(shared).consistent(),
            state.belongs(Method::Spin, None),
        ensures
            final(shared).consistent(),
            old(shared).wf() ==> final(shared).wf(),
            stepped.0.belongs(Method::Spin),
            old(shared)@.recv_steps(
                Method::Spin,
                None,
                state,
                waiter,
                turn,
                stepped.0.timed(),
                stepped.1@,
                final(shared)@,
            ),
    {
        self.recv_untimed(shared, Method::Spin, state, waiter, turn)
    }

    /// One step of receiving a message, parking the thread while there is none.
    pub fn recv_block<W>(
        &self,
        shared: &mut Shared<T, W>,
        state: RecvState,
        waiter: Waiter<W>,
        turn: Turn<W>,
    ) -> (stepped: (RecvStep<T>, Vec<W>))
        requires
            old(shared).consistent(),
            state.belongs(Method::Block, None),
        ensures
            final(shared).consistent(),
            old(shared).wf() ==> final(shared).wf(),
            stepped.0.belongs(Method::Block),
            old(shared)@.recv_steps(
                Method::Block,
                None,
                state,
                waiter,
                turn,
                stepped.0.timed(),
                stepped.1@,
                final(shared)@,
            ),
    {
        self.recv_untimed(shared, Method::Block, state, waiter, turn)
    }

    /// One step of receiving a message, waiting as the platform's strategy says.
    pub fn recv_sync<W>(
        &self,
        shared: &mut Shared<T, W>,
        state: RecvState,
        waiter: Waiter<W>,
        turn: Turn<W>,
    ) -> (stepped: (RecvStep<T>, Vec<W>))
        requires
            old(shared).consistent(),
            state.belongs(Method::of(turn.strategy), None),
        ensures
            final(shared).consistent(),
            old(shared).wf() ==> final(shared).wf(),
            stepped.0.belongs(Method::of(turn.strategy)),
            old(shared)@.recv_steps(
                Method::of(turn.strategy),
                None,
                state,
                waiter,
                turn,
                stepped.0.timed(),
                stepped.1@,
                final(shared)@,
            ),
    {
        let method = sync_method(turn.strategy);
        self.recv_untimed(shared, method, state, waiter, turn)
    }

    /// One step of receiving a message, suspending the task while there is none.
    pub fn recv_async<W>(
        &self,
        shared: &mut Shared<T, W>,
        state: RecvState,
        waiter: Waiter<W>,
        turn: Turn<W>,
    ) -> (stepped: (RecvStep<T>, Vec<W>))
        requires
            old(shared).consistent(),
            state.belongs(Method::Task, None),
        ensures
            final(shared).consistent(),
            old(shared).wf() ==> final(shared).wf(),
            stepped.0.belongs(Method::Task),
            old(shared)@.recv_steps(
                Method::Task,
                None,
                state,
                waiter,
                turn,
                stepped.0.timed(),
                stepped.1@,
                final(shared)@,
            ),
    {
        self.recv_untimed(shared, Method::Task, state, waiter, turn)
    }

    /// One step of receiving a message, spinning until `deadline` at the latest.
    pub fn recv_spin_timeout<W>(
        &self,
        shared: &mut Shared<T, W>,
        state: RecvState,
        waiter: Waiter<W>,
        deadline: u64,
        turn: Turn<W>,
    ) -> (stepped: (TimedRecvStep<T>, Vec<W>))
        requires
            old(shared).consistent(),
            state.belongs(Method::Spin, Some(deadline)),
        ensures
            final(shared).consistent(),
            old(shared).wf() ==> final(shared).wf(),
            stepped.0.belongs(Method::Spin, Some(deadline)),
            old(shared)@.recv_steps(
                Method::Spin,
                Some(deadline),
                state,
                waiter,
                turn,
                stepped.0,
                stepped.1@,
                final(shared)@,
            ),
    {
        self.recv_timed(shared, Method::Spin, state, waiter, deadline, turn)
    }

    /// One step of receiving a message, parking the thread until `deadline` at the
    /// latest.
    pub fn recv_block_timeout<W>(
        &self,
        shared: &mut Shared<T, W>,
        state: RecvState,
        waiter: Waiter<W>,
        deadline: u64,
        turn: Turn<W>,
    ) -> (stepped: (TimedRecvStep<T>, Vec<W>))
        requires
            old(shared).consistent(),
            state.belongs(Method::Block, Some(deadline)),
        ensures
            final(shared).consistent(),
            old(shared).wf() ==> final(shared).wf(),
            stepped.0.belongs(Method::Block, Some(deadline)),
            old(shared)@.recv_steps(
                Method::Block,
                Some(deadline),
                state,
                waiter,
                turn,
                stepped.0,
                stepped.1@,
                final(shared)@,
            ),
    {
        self.recv_timed(shared, Method::Block, state, waiter, deadline, turn)
    }

    /// One step of receiving a message, waiting until `deadline` at the latest as the
    /// platform's strategy says.
    pub fn recv_sync_timeout<W>(
        &self,
        shared: &mut Shared<T, W>,
        state: RecvState,
        waiter: Waiter<W>,
        deadline: u64,
        turn: Turn<W>,
    ) -> (stepped: (TimedRecvStep<T>, Vec<W>))
        requires
            old(shared).consistent(),
            state.belongs(Method::of(turn.strategy), Some(deadline)),
        ensures
            final(shared).consistent(),
            old(shared).wf() ==> final(shared).wf(),
            stepped.0.belongs(Method::of(turn.strategy), Some(deadline)),
            old(shared)@.recv_steps(
                Method::of(turn.strategy),
                Some(deadline),
                state,
                waiter,
                turn,
                stepped.0,
                stepped.1@,
                final(shared)@,
            ),
    {
        let method = sync_method(turn.strategy);
        self.recv_timed(shared, method, state, waiter, deadline, turn)
    }

    /// One step of receiving a message, suspending the task until `deadline` at the
    /// latest. Returns the waiter that the step took off the list too, to be woken, before
    /// the handles of everybody who waited for the channel.
    pub fn recv_async_timeout<W>(
        &self,
        shared: &mut Shared<T, W>,
        state: RecvState,
        waiter: Waiter<W>,
        deadline: u64,
        turn: Turn<W>,
    ) -> (stepped: (TimedRecvStep<T>, Option<Waiter<W>>, Vec<W>))
        requires
            old(shared).consistent(),
            state.belongs(Method::Task, Some(deadline)),
        ensures
            final(shared).consistent(),
            old(shared).wf() ==> final(shared).wf(),
            stepped.0.belongs(Method::Task, Some(deadline)),
            old(shared)@.recv_steps(
                Method::Task,
                Some(deadline),
                state,
                waiter,
                turn,
                stepped.0,
                stepped.2@,
                final(shared)@,
            ),
            stepped.1 == recv_cancels(state, turn, old(shared)@.condvar),
    {
        self.recv(shared, Method::Task, Some(deadline), state, waiter, turn)
    }

    /// Receives a message if there is one and the channel is not locked. Returns the
    /// handles of everybody who waited for the channel too.
    pub fn try_recv<W>(&self, shared: &mut Shared<T, W>) -> (tried: (
        Result<T, TryRecvError>,
        Vec<W>,
    ))
        requires
            old(shared).consistent(),
        ensures
            final(shared).wf(),
            old(shared)@.tries(tried.0, tried.1@, final(shared)@),
    {
        match shared.queue.try_lock() {
            Ok(guard) => {
                let mut guard = guard;
                let message = guard.as_mut().pop_front();
                let wakes = guard.drop(&mut shared.queue);
                (message.ok_or(TryRecvError::Empty), wakes)
            },
            Err(NotAvailable) => (Err(TryRecvError::Empty), Vec::new()),
        }
    }

    /// An iterator over the messages to come.
    pub fn into_iter(self) -> (messages: IntoIter<T>)
        ensures
            messages.receiver() == self,
    {
        IntoIter { receiver: self }
    }
}

/// The messages of a channel, one after the other. There is always another one to
/// wait for.
pub struct IntoIter<T> {
    receiver: Receiver<T>,
}

impl<T> IntoIter<T> {
    /// The half that the messages come from.
    pub closed spec fn receiver(&self) -> Receiver<T> {
        self.receiver
    }

    /// One step of receiving the next message, waiting as the platform's strategy
    /// says. Returns the handles of everybody who waited for the channel too.
    pub fn next<W>(
        &mut self,
        shared: &mut Shared<T, W>,
        state: RecvState,
        waiter: Waiter<W>,
        turn: Turn<W>,
    ) -> (stepped: (RecvStep<Option<T>>, Vec<W>))
        requires
            old(shared).consistent(),
            state.belongs(Method::of(turn.strategy), None),
        ensures
            final(self).receiver() == old(self).receiver(),
            final(shared).consistent(),
            old(shared).wf() ==> final(shared).wf(),
            stepped.0.belongs(Method::of(turn.strategy)),
            stepped.0 != RecvStep::<Option<T>>::Received(None),
            old(shared)@.recv_steps(
                Method::of(turn.strategy),
                None,
                state,
                waiter,
                turn,
                match stepped.0 {
                    RecvStep::Received(message) => TimedRecvStep::Finished(Ok(message->Some_0)),
                    RecvStep::Pending(next, pause) => TimedRecvStep::Pending(next, pause),
                },
                stepped.1@,
                final(shared)@,
            ),
    {
        let (step, wakes) = self.receiver.recv_sync(shared, state, waiter, turn);
        match step {
            RecvStep::Received(message) => (RecvStep::Received(Some(message)), wakes),
            RecvStep::Pending(next, pause) => (RecvStep::Pending(next, pause), wakes),
        }
    }
}

impl<T> Sender<T> {
    /// What the half is called when it is shown to a programmer.
    fn name(&self) -> (name: &'static str)
        ensures
            name@ == "Sender"@,
    {
        "Sender"
    }
}

impl<T> Receiver<T> {
    /// What the half is called when it is shown to a programmer.
    fn name(&self) -> (name: &'static str)
        ensures
            name@ == "Receiver"@,
    {
        "Receiver"
    }
}

impl<T> std::fmt::Debug for Sender<T> {
    fn fmt(&self, f: &mut std::fmt::Formatter<'_>) -> (shown: Result<(), std::fmt::Error>)
        ensures
            shown is Ok ==> written_text(*final(f)) == written_text(*old(f)) + "Sender"@,
    {
        f.write_str(self.name())
    }
}

impl<T> std::fmt::Debug for Receiver<T> {
    fn fmt(&self, f: &mut std::fmt::Formatter<'_>) -> (shown: Result<(), std::fmt::Error>)
        ensures
            shown is Ok ==> written_text(*final(f)) == written_text(*old(f)) + "Receiver"@,
    {
        f.write_str(self.name())
    }
}

} // verus!
