use wasm_safe_mutex::condvar::Turn;
use wasm_safe_mutex::mpsc::{
    channel, IntoIter, Receiver, RecvState, RecvStep, RecvTimeoutError, SendStep, Sender, Shared,
    TimedRecvStep, TryRecvError,
};
use wasm_safe_mutex::platform::{Pause, Strategy};
use wasm_safe_mutex::waiter::Waiter;

const RECEIVER: u32 = 1;
const SENDER: u32 = 2;

fn turn(now: u64, signalled: bool, expired: bool) -> Turn<u32> {
    Turn {
        strategy: Strategy::Block,
        now,
        signalled,
        expired,
        handle: RECEIVER,
    }
}

fn waiter() -> Waiter<u32> {
    Waiter {
        id: 7,
        handle: RECEIVER,
    }
}

fn sent<T>((step, wakes): (SendStep<T, u32>, Vec<u32>)) -> Option<u32> {
    assert_eq!(wakes, vec![]);
    match step {
        SendStep::Sent(notified) => notified.map(|waiter| waiter.handle),
        SendStep::Busy(_, _) => panic!("the channel is locked"),
    }
}

fn received<T>((step, wakes): (RecvStep<T>, Vec<u32>)) -> T {
    assert_eq!(wakes, vec![]);
    match step {
        RecvStep::Received(message) => message,
        RecvStep::Pending(_, _) => panic!("no message"),
    }
}

fn pending<T>((step, wakes): (RecvStep<T>, Vec<u32>)) -> (RecvState, Pause) {
    assert_eq!(wakes, vec![]);
    match step {
        RecvStep::Received(_) => panic!("a message"),
        RecvStep::Pending(state, pause) => (state, pause),
    }
}

fn send_sync<T>(tx: &Sender<T>, shared: &mut Shared<T, u32>, message: T) {
    sent(tx.send_sync(shared, Strategy::Block, message, SENDER));
}

fn recv_sync<T>(rx: &Receiver<T>, shared: &mut Shared<T, u32>) -> T {
    received(rx.recv_sync(shared, RecvState::Locking, waiter(), turn(0, false, false)))
}

#[test]
fn test_send_recv_spin() {
    let (mut shared, tx, rx) = channel();
    sent(tx.send_spin(&mut shared, 1, SENDER));
    sent(tx.send_spin(&mut shared, 2, SENDER));
    let first = rx.recv_spin(&mut shared, RecvState::Locking, waiter(), turn(0, false, false));
    assert_eq!(received(first), 1);
    let second = rx.recv_spin(&mut shared, RecvState::Locking, waiter(), turn(0, false, false));
    assert_eq!(received(second), 2);
}

#[test]
fn test_send_recv_block() {
    let (mut shared, tx, rx) = channel();
    sent(tx.send_block(&mut shared, 1, SENDER));
    sent(tx.send_block(&mut shared, 2, SENDER));
    let first = rx.recv_block(&mut shared, RecvState::Locking, waiter(), turn(0, false, false));
    assert_eq!(received(first), 1);
    let second = rx.recv_block(&mut shared, RecvState::Locking, waiter(), turn(0, false, false));
    assert_eq!(received(second), 2);
}

#[test]
fn test_send_recv_sync() {
    let (mut shared, tx, rx) = channel();
    send_sync(&tx, &mut shared, 1);
    send_sync(&tx, &mut shared, 2);
    assert_eq!(recv_sync(&rx, &mut shared), 1);
    assert_eq!(recv_sync(&rx, &mut shared), 2);
}

#[test]
fn test_send_recv_async() {
    let (mut shared, tx, rx) = channel();
    sent(tx.send_async(&mut shared, 1, SENDER));
    sent(tx.send_async(&mut shared, 2, SENDER));
    let first = rx.recv_async(&mut shared, RecvState::Locking, waiter(), turn(0, false, false));
    assert_eq!(received(first), 1);
    let second = rx.recv_async(&mut shared, RecvState::Locking, waiter(), turn(0, false, false));
    assert_eq!(received(second), 2);
}

#[test]
fn test_multiple_senders() {
    let (mut shared, tx, rx) = channel();
    let tx1 = tx.clone();
    let tx2 = tx.clone();
    send_sync(&tx1, &mut shared, 1);
    send_sync(&tx2, &mut shared, 2);
    let mut results = vec![recv_sync(&rx, &mut shared), recv_sync(&rx, &mut shared)];
    results.sort();
    assert_eq!(results, vec![1, 2]);
}

#[test]
fn test_ordering() {
    let (mut shared, tx, rx) = channel();
    for i in 0..10 {
        send_sync(&tx, &mut shared, i);
    }
    for i in 0..10 {
        assert_eq!(recv_sync(&rx, &mut shared), i);
    }
}

#[test]
fn test_blocking_behavior() {
    let (mut shared, tx, rx) = channel();
    let step = rx.recv_sync(&mut shared, RecvState::Locking, waiter(), turn(0, false, false));
    let (state, pause) = pending(step);
    assert_eq!(pause, Pause::Proceed);
    let (state, pause) = pending(rx.recv_sync(&mut shared, state, waiter(), turn(0, false, false)));
    assert_eq!(pause, Pause::Park);
    let notified = sent(tx.send_sync(&mut shared, Strategy::Block, 42, SENDER));
    assert_eq!(notified, Some(RECEIVER));
    let step = rx.recv_sync(&mut shared, state, waiter(), turn(100, false, false));
    assert_eq!(received(step), 42);
}

#[test]
fn test_try_recv() {
    let (mut shared, tx, rx) = channel();
    assert_eq!(rx.try_recv(&mut shared).0, Err(TryRecvError::Empty));
    send_sync(&tx, &mut shared, 1);
    assert_eq!(rx.try_recv(&mut shared).0, Ok(1));
    assert_eq!(rx.try_recv(&mut shared).0, Err(TryRecvError::Empty));
}

#[test]
fn test_recv_timeout() {
    let (mut shared, tx, rx) = channel();
    let mut state = RecvState::Locking;
    let mut now = 0;
    let result = loop {
        match rx.recv_sync_timeout(&mut shared, state, waiter(), 100, turn(now, false, false)).0 {
            TimedRecvStep::Finished(result) => break result,
            TimedRecvStep::Pending(next, pause) => {
                if let Pause::ParkTimeout(time) = pause {
                    now += time;
                }
                state = next;
            }
        }
    };
    assert_eq!(now, 100);
    assert_eq!(result, Err(RecvTimeoutError::Timeout));

    send_sync(&tx, &mut shared, 1);
    let turn = turn(now, false, false);
    let step = rx.recv_sync_timeout(&mut shared, RecvState::Locking, waiter(), 1100, turn);
    assert!(matches!(step.0, TimedRecvStep::Finished(Ok(1))));
}

#[test]
fn test_recv_spin_timeout() {
    let (mut shared, tx, rx) = channel();
    let mut state = RecvState::Locking;
    let mut now = 0;
    let result = loop {
        match rx.recv_spin_timeout(&mut shared, state, waiter(), 100, turn(now, false, false)).0 {
            TimedRecvStep::Finished(result) => break result,
            TimedRecvStep::Pending(next, pause) => {
                assert!(pause == Pause::Proceed || pause == Pause::Spin);
                now += 10;
                state = next;
            }
        }
    };
    assert_eq!(now, 100);
    assert_eq!(result, Err(RecvTimeoutError::Timeout));

    send_sync(&tx, &mut shared, 1);
    let turn = turn(now, false, false);
    let step = rx.recv_spin_timeout(&mut shared, RecvState::Locking, waiter(), 1100, turn);
    assert!(matches!(step.0, TimedRecvStep::Finished(Ok(1))));
}

#[test]
fn test_recv_block_timeout() {
    let (mut shared, tx, rx) = channel();
    let mut state = RecvState::Locking;
    let mut now = 0;
    let result = loop {
        match rx.recv_block_timeout(&mut shared, state, waiter(), 100, turn(now, false, false)).0 {
            TimedRecvStep::Finished(result) => break result,
            TimedRecvStep::Pending(next, pause) => {
                if let Pause::ParkTimeout(time) = pause {
                    now += time;
                }
                state = next;
            }
        }
    };
    assert_eq!(now, 100);
    assert_eq!(result, Err(RecvTimeoutError::Timeout));

    send_sync(&tx, &mut shared, 1);
    let turn = turn(now, false, false);
    let step = rx.recv_block_timeout(&mut shared, RecvState::Locking, waiter(), 1100, turn);
    assert!(matches!(step.0, TimedRecvStep::Finished(Ok(1))));
}

#[test]
fn test_recv_async_timeout() {
    let (mut shared, tx, rx) = channel();
    let locking = RecvState::Locking;
    let step = rx.recv_async_timeout(&mut shared, locking, waiter(), 100, turn(0, false, false));
    let state = match step {
        (TimedRecvStep::Pending(state, Pause::Proceed), None, _) => state,
        _ => panic!("there is no message yet"),
    };
    let step = rx.recv_async_timeout(&mut shared, state, waiter(), 100, turn(50, false, false));
    let state = match step {
        (TimedRecvStep::Pending(state, Pause::Await), None, _) => state,
        _ => panic!("the time is not up yet"),
    };
    let (step, cancelled, _) =
        rx.recv_async_timeout(&mut shared, state, waiter(), 100, turn(100, false, true));
    assert!(matches!(
        step,
        TimedRecvStep::Finished(Err(RecvTimeoutError::Timeout))
    ));
    assert_eq!(cancelled.map(|waiter| waiter.id), Some(7));

    sent(tx.send_async(&mut shared, 1, SENDER));
    let locking = RecvState::Locking;
    let (step, cancelled, _) =
        rx.recv_async_timeout(&mut shared, locking, waiter(), 1100, turn(100, false, false));
    assert!(matches!(step, TimedRecvStep::Finished(Ok(1))));
    assert!(cancelled.is_none());
}

#[test]
fn test_debug() {
    let (_shared, tx, rx): (Shared<i32, u32>, _, _) = channel::<i32, u32>();
    assert_eq!(format!("{:?}", tx), "Sender");
    assert_eq!(format!("{:?}", rx), "Receiver");
}

fn next<T>(iter: &mut IntoIter<T>, shared: &mut Shared<T, u32>) -> Option<T> {
    received(iter.next(shared, RecvState::Locking, waiter(), turn(0, false, false)))
}

#[test]
fn test_into_iter() {
    let (mut shared, tx, rx) = channel();
    send_sync(&tx, &mut shared, 1);
    send_sync(&tx, &mut shared, 2);
    send_sync(&tx, &mut shared, 3);

    let mut iter = rx.into_iter();
    assert_eq!(next(&mut iter, &mut shared), Some(1));
    assert_eq!(next(&mut iter, &mut shared), Some(2));
    assert_eq!(next(&mut iter, &mut shared), Some(3));
    let step = iter.next(&mut shared, RecvState::Locking, waiter(), turn(0, false, false));
    assert!(matches!(step.0, RecvStep::Pending(_, Pause::Proceed)));
}

#[test]
fn test_sender_sync() {
    fn is_sync<T: Sync>() {}
    is_sync::<Sender<i32>>();
}

#[test]
fn a_locked_channel_hands_the_message_back() {
    let (mut shared, tx, rx) = channel();
    let guard = shared.queue.try_lock().unwrap();
    assert!(matches!(
        tx.send_spin(&mut shared, 5, SENDER).0,
        SendStep::Busy(5, Pause::Spin)
    ));
    assert!(matches!(
        tx.send_block(&mut shared, 6, SENDER).0,
        SendStep::Busy(6, Pause::Park)
    ));
    assert!(matches!(
        tx.send_async(&mut shared, 7, SENDER).0,
        SendStep::Busy(7, Pause::Await)
    ));
    assert!(matches!(
        tx.send_sync(&mut shared, Strategy::Spin, 8, SENDER).0,
        SendStep::Busy(8, Pause::Spin)
    ));
    assert_eq!(rx.try_recv(&mut shared).0, Err(TryRecvError::Empty));
    let step = rx.recv_spin(&mut shared, RecvState::Locking, waiter(), turn(0, false, false));
    assert!(matches!(
        step.0,
        RecvStep::Pending(RecvState::Locking, Pause::Spin)
    ));
    assert_eq!(guard.drop(&mut shared.queue), vec![SENDER, SENDER]);
    sent(tx.send_spin(&mut shared, 5, SENDER));
    assert_eq!(recv_sync(&rx, &mut shared), 5);
}

#[test]
fn a_waiting_receiver_is_notified() {
    let (mut shared, tx, rx) = channel();
    let step = rx.recv_spin(&mut shared, RecvState::Locking, waiter(), turn(0, false, false));
    let (state, _) = pending(step);
    let (state, pause) = pending(rx.recv_spin(&mut shared, state, waiter(), turn(0, false, false)));
    assert_eq!(pause, Pause::Spin);
    assert_eq!(sent(tx.send_spin(&mut shared, 9, SENDER)), Some(RECEIVER));
    let step = rx.recv_spin(&mut shared, state, waiter(), turn(0, true, false));
    assert_eq!(received(step), 9);
}

#[test]
fn a_suspended_receiver_is_notified() {
    let (mut shared, tx, rx) = channel();
    let step = rx.recv_async(&mut shared, RecvState::Locking, waiter(), turn(0, false, false));
    let (state, _) = pending(step);
    let step = rx.recv_async(&mut shared, state, waiter(), turn(0, false, false));
    let (state, pause) = pending(step);
    assert_eq!(pause, Pause::Await);
    assert_eq!(sent(tx.send_async(&mut shared, 9, SENDER)), Some(RECEIVER));
    let step = rx.recv_async(&mut shared, state, waiter(), turn(0, true, false));
    assert_eq!(received(step), 9);
}

#[test]
fn a_message_that_comes_with_the_deadline_is_received() {
    let (mut shared, tx, rx) = channel();
    let locking = RecvState::Locking;
    let step = rx.recv_block_timeout(&mut shared, locking, waiter(), 100, turn(0, false, false));
    let state = match step.0 {
        TimedRecvStep::Pending(state, _) => state,
        TimedRecvStep::Finished(_) => panic!("there is no message yet"),
    };
    assert_eq!(sent(tx.send_block(&mut shared, 3, SENDER)), Some(RECEIVER));
    let step = rx.recv_block_timeout(&mut shared, state, waiter(), 100, turn(100, false, false));
    assert!(matches!(step.0, TimedRecvStep::Finished(Ok(3))));
}

#[test]
fn a_receiver_that_came_back_for_no_reason_leaves_the_next_notification_to_others() {
    let (mut shared, tx, rx) = channel();
    let thread = || Waiter { id: 1, handle: 10 };
    let step = rx.recv_block(&mut shared, RecvState::Locking, thread(), turn(0, false, false));
    let (state, pause) = pending(step);
    assert_eq!(pause, Pause::Proceed);
    let (state, pause) = pending(rx.recv_block(&mut shared, state, thread(), turn(0, false, false)));
    assert_eq!(pause, Pause::Park);
    // woken for no reason: the channel is still empty, so it waits again
    let (state, pause) = pending(rx.recv_block(&mut shared, state, thread(), turn(0, false, false)));
    assert_eq!(pause, Pause::Proceed);
    let (state, pause) = pending(rx.recv_block(&mut shared, state, thread(), turn(0, false, false)));
    assert_eq!(pause, Pause::Park);
    assert_eq!(sent(tx.send_sync(&mut shared, Strategy::Block, 1, SENDER)), Some(10));
    let step = rx.recv_block(&mut shared, state, thread(), turn(0, false, false));
    assert_eq!(received(step), 1);

    let task = || Waiter { id: 2, handle: 20 };
    let step = rx.recv_async(&mut shared, RecvState::Locking, task(), turn(0, false, false));
    let (state, _) = pending(step);
    let (state, pause) = pending(rx.recv_async(&mut shared, state, task(), turn(0, false, false)));
    assert_eq!(pause, Pause::Await);
    assert_eq!(sent(tx.send_sync(&mut shared, Strategy::Block, 2, SENDER)), Some(20));
    let step = rx.recv_async(&mut shared, state, task(), turn(0, true, false));
    assert_eq!(received(step), 2);
    assert_eq!(sent(tx.send_sync(&mut shared, Strategy::Block, 3, SENDER)), None);
}

#[test]
fn every_message_has_a_receiver_coming_for_it() {
    let (mut shared, tx, rx) = channel();
    let task = |id: u64| Waiter {
        id,
        handle: id as u32,
    };
    let begin = |shared: &mut Shared<i32, u32>, id: u64| {
        let step = rx.recv_async(shared, RecvState::Locking, task(id), turn(0, false, false));
        pending(step).0
    };
    let first = begin(&mut shared, 1);
    let second = begin(&mut shared, 2);
    assert_eq!(sent(tx.send_spin(&mut shared, 5, SENDER)), Some(2));
    assert_eq!(sent(tx.send_spin(&mut shared, 6, SENDER)), Some(1));
    assert_eq!(sent(tx.send_spin(&mut shared, 7, SENDER)), None);
    let step = rx.recv_async(&mut shared, first, task(1), turn(0, true, false));
    assert_eq!(received(step), 5);
    let step = rx.recv_async(&mut shared, second, task(2), turn(0, true, false));
    assert_eq!(received(step), 6);
    assert_eq!(rx.try_recv(&mut shared).0, Ok(7));
}

/// A channel that was freed while the thread 3 and the task 4 were queued for it.
fn freed_channel(messages: &[i32]) -> (Shared<i32, u32>, Sender<i32>, Receiver<i32>) {
    let (mut shared, tx, rx) = channel();
    for message in messages {
        send_sync(&tx, &mut shared, *message);
    }
    let guard = shared.queue.try_lock().unwrap();
    assert!(matches!(
        tx.send_async(&mut shared, 0, 4).0,
        SendStep::Busy(0, Pause::Await)
    ));
    assert!(matches!(
        tx.send_block(&mut shared, 0, 3).0,
        SendStep::Busy(0, Pause::Park)
    ));
    shared.queue.release(guard);
    (shared, tx, rx)
}

#[test]
fn whoever_uses_the_channel_next_wakes_those_who_queued_for_it() {
    let (mut shared, tx, _rx) = freed_channel(&[]);
    let (step, wakes) = tx.send_spin(&mut shared, 5, SENDER);
    assert!(matches!(step, SendStep::Sent(None)));
    assert_eq!(wakes, vec![3, 4]);
    assert_eq!(shared.queue.did_unlock(), vec![]);

    let (mut shared, _tx, rx) = freed_channel(&[5]);
    let (step, wakes) =
        rx.recv_spin(&mut shared, RecvState::Locking, waiter(), turn(0, false, false));
    assert!(matches!(step, RecvStep::Received(5)));
    assert_eq!(wakes, vec![3, 4]);

    let (mut shared, _tx, rx) = freed_channel(&[]);
    let (step, wakes) =
        rx.recv_block(&mut shared, RecvState::Locking, waiter(), turn(0, false, false));
    assert!(matches!(step, RecvStep::Pending(RecvState::Waiting(_), Pause::Proceed)));
    assert_eq!(wakes, vec![3, 4]);

    let (mut shared, _tx, rx) = freed_channel(&[]);
    assert_eq!(rx.try_recv(&mut shared), (Err(TryRecvError::Empty), vec![3, 4]));
    assert_eq!(rx.try_recv(&mut shared), (Err(TryRecvError::Empty), vec![]));
    let (mut shared, _tx, rx) = freed_channel(&[6, 7]);
    assert_eq!(rx.try_recv(&mut shared), (Ok(6), vec![3, 4]));
    assert_eq!(rx.try_recv(&mut shared), (Ok(7), vec![]));
}
