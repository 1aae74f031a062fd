use wasm_safe_mutex::condvar::wait::Wait;
use wasm_safe_mutex::condvar::wait_async::{AsyncPhase, Race};
use wasm_safe_mutex::condvar::wait_block::BlockPhase;
use wasm_safe_mutex::condvar::wait_spin::{SpinPhase, SpinWait};
use wasm_safe_mutex::condvar::{Checked, Condvar, Progress, Turn, WaitTimeoutResult};
use wasm_safe_mutex::platform::{Pause, Strategy};
use wasm_safe_mutex::waiter::Waiter;
use wasm_safe_mutex::{Guard, Mutex};

fn waiter(id: u64) -> Waiter<u32> {
    Waiter {
        id,
        handle: id as u32 * 10,
    }
}

fn turn(now: u64) -> Turn<u32> {
    Turn {
        strategy: Strategy::Block,
        now,
        signalled: false,
        expired: false,
        handle: 5,
    }
}

fn signalled() -> Turn<u32> {
    Turn {
        signalled: true,
        ..turn(0)
    }
}

fn ready<S, T>(progress: Progress<S, T>) -> (Guard<T>, bool) {
    match progress {
        Progress::Ready(guard, result) => (guard, result.timed_out()),
        Progress::Pending(_, _) => panic!("the wait goes on"),
    }
}

fn pending<S, T>(progress: Progress<S, T>) -> (S, Pause) {
    match progress {
        Progress::Ready(_, _) => panic!("the wait is over"),
        Progress::Pending(wait, pause) => (wait, pause),
    }
}

fn waiting<S, T, W>(checked: Checked<S, T, W>) -> S {
    match checked {
        Checked::Done(_, _) => panic!("there is no reason to wait"),
        Checked::Waiting(wait, _) => wait,
    }
}

fn done<S, T, W>(checked: Checked<S, T, W>) -> (Guard<T>, bool) {
    match checked {
        Checked::Done(guard, result) => (guard, result.timed_out()),
        Checked::Waiting(_, _) => panic!("the wait goes on"),
    }
}

#[test]
fn a_spinning_wait_ends_with_its_signal() {
    let mut mutex: Mutex<bool, u32> = Mutex::new(false);
    let mut condvar: Condvar<u32> = Condvar::new();
    let guard = mutex.try_lock().unwrap();
    let (wait, wakes) = condvar.wait_spin(&mut mutex, guard, waiter(1));
    assert_eq!(wakes, vec![]);
    let (wait, pause) = pending(wait.poll(&mut condvar, &mut mutex, turn(0)));
    assert_eq!(pause, Pause::Spin);

    let mut other = mutex.try_lock().unwrap();
    *other = true;
    other.drop(&mut mutex);
    assert_eq!(condvar.notify_one().map(|w| w.handle), Some(10));
    // off the list, but the flag is not up yet
    let (wait, pause) = pending(wait.poll(&mut condvar, &mut mutex, turn(0)));
    assert_eq!(pause, Pause::Spin);
    let (guard, timed_out) = ready(wait.poll(&mut condvar, &mut mutex, signalled()));
    assert!(*guard);
    assert!(!timed_out);
}

#[test]
fn a_spinning_wait_times_out_or_waits_for_its_signal() {
    let mut mutex: Mutex<i32, u32> = Mutex::new(0);
    let mut condvar: Condvar<u32> = Condvar::new();

    let guard = mutex.try_lock().unwrap();
    let (wait, _) = condvar.wait_spin_until(&mut mutex, guard, waiter(1), 100);
    let (wait, pause) = pending(wait.poll(&mut condvar, &mut mutex, turn(99)));
    assert_eq!(pause, Pause::Spin);
    let (guard, timed_out) = ready(wait.poll(&mut condvar, &mut mutex, turn(100)));
    assert!(timed_out);
    assert!(condvar.notify_one().is_none());

    let (wait, _) = condvar.wait_spin_until(&mut mutex, guard, waiter(2), 100);
    assert_eq!(condvar.notify_one().map(|w| w.id), Some(2));
    let (wait, pause) = pending(wait.poll(&mut condvar, &mut mutex, turn(200)));
    assert_eq!(pause, Pause::Spin);
    assert_eq!(wait.phase, SpinPhase::Claimed);
    let (_, timed_out) = ready(wait.poll(&mut condvar, &mut mutex, signalled()));
    assert!(!timed_out);
}

#[test]
fn a_wait_that_is_over_waits_for_the_mutex() {
    let mut mutex: Mutex<i32, u32> = Mutex::new(0);
    let mut condvar: Condvar<u32> = Condvar::new();
    let guard = mutex.try_lock().unwrap();
    let (wait, _) = condvar.wait_spin(&mut mutex, guard, waiter(1));
    let other = mutex.try_lock().unwrap();
    let (wait, pause) = pending(wait.poll(&mut condvar, &mut mutex, signalled()));
    assert_eq!(pause, Pause::Park);
    assert_eq!(wait.phase, SpinPhase::Relocking { timed_out: false });
    assert_eq!(other.drop(&mut mutex), vec![5]);
    ready(wait.poll(&mut condvar, &mut mutex, turn(0)));
}

#[test]
fn a_parking_wait_parks_once() {
    let mut mutex: Mutex<i32, u32> = Mutex::new(0);
    let mut condvar: Condvar<u32> = Condvar::new();
    let guard = mutex.try_lock().unwrap();
    let (wait, _) = condvar.wait_block(&mut mutex, guard, waiter(1));
    let (wait, pause) = pending(wait.poll(&mut condvar, &mut mutex, turn(0)));
    assert_eq!(pause, Pause::Park);
    assert_eq!(condvar.notify_one().map(|w| w.id), Some(1));
    let (_, timed_out) = ready(wait.poll(&mut condvar, &mut mutex, turn(0)));
    assert!(!timed_out);
}

#[test]
fn a_thread_that_came_back_for_no_reason_takes_no_notification() {
    let mut mutex: Mutex<i32, u32> = Mutex::new(0);
    let mut condvar: Condvar<u32> = Condvar::new();
    let guard = mutex.try_lock().unwrap();
    let (waits, _) = condvar.wait_block(&mut mutex, guard, waiter(2));
    let (waits, pause) = pending(waits.poll(&mut condvar, &mut mutex, turn(0)));
    assert_eq!(pause, Pause::Park);
    let guard = mutex.try_lock().unwrap();
    let (leaves, _) = condvar.wait_block(&mut mutex, guard, waiter(1));
    let (leaves, pause) = pending(leaves.poll(&mut condvar, &mut mutex, turn(0)));
    assert_eq!(pause, Pause::Park);
    // woken for no reason
    let (guard, timed_out) = ready(leaves.poll(&mut condvar, &mut mutex, turn(0)));
    assert!(!timed_out);
    guard.drop(&mut mutex);
    // the other one still waits
    assert_eq!(condvar.notify_one().map(|w| w.id), Some(2));
    assert!(condvar.notify_one().is_none());
    let (_, timed_out) = ready(waits.poll(&mut condvar, &mut mutex, turn(0)));
    assert!(!timed_out);
}

#[test]
fn a_thread_leaves_the_list_before_it_has_the_mutex() {
    let mut mutex: Mutex<i32, u32> = Mutex::new(0);
    let mut condvar: Condvar<u32> = Condvar::new();
    let guard = mutex.try_lock().unwrap();
    let (wait, _) = condvar.wait_block(&mut mutex, guard, waiter(1));
    let (wait, _) = pending(wait.poll(&mut condvar, &mut mutex, turn(0)));
    let other = mutex.try_lock().unwrap();
    let (wait, pause) = pending(wait.poll(&mut condvar, &mut mutex, turn(0)));
    assert_eq!(pause, Pause::Park);
    assert_eq!(wait.phase, BlockPhase::Relocking { timed_out: false });
    assert!(condvar.notify_one().is_none());
    assert_eq!(other.drop(&mut mutex), vec![5]);
    ready(wait.poll(&mut condvar, &mut mutex, turn(0)));
}

#[test]
fn equal_results_give_equal_answers() {
    let mut mutex: Mutex<i32, u32> = Mutex::new(0);
    let mut condvar: Condvar<u32> = Condvar::new();
    let in_time = WaitTimeoutResult::default();
    let guard = mutex.try_lock().unwrap();
    let (wait, _) = condvar.wait_block_until(&mut mutex, guard, waiter(1), 100);
    let result = match wait.poll(&mut condvar, &mut mutex, turn(100)) {
        Progress::Ready(_, result) => result,
        Progress::Pending(_, _) => panic!("the time is up"),
    };
    assert!(result.timed_out());
    assert!(result.timed_out());
    assert_ne!(result, in_time);
    assert_eq!(result, result.clone());
    assert_eq!(in_time, WaitTimeoutResult::default());
}

#[test]
fn a_parking_wait_parks_until_its_deadline() {
    let mut mutex: Mutex<i32, u32> = Mutex::new(0);
    let mut condvar: Condvar<u32> = Condvar::new();
    let guard = mutex.try_lock().unwrap();
    let (wait, _) = condvar.wait_block_until(&mut mutex, guard, waiter(1), 100);
    let (wait, pause) = pending(wait.poll(&mut condvar, &mut mutex, turn(10)));
    assert_eq!(pause, Pause::ParkTimeout(90));
    // woken for no reason
    let (wait, pause) = pending(wait.poll(&mut condvar, &mut mutex, turn(60)));
    assert_eq!(pause, Pause::ParkTimeout(40));
    assert_eq!(wait.phase, BlockPhase::Parked);
    let (guard, timed_out) = ready(wait.poll(&mut condvar, &mut mutex, turn(100)));
    assert!(timed_out);
    assert!(condvar.notify_one().is_none());

    // notified in time
    let (wait, _) = condvar.wait_block_until(&mut mutex, guard, waiter(1), 200);
    let (wait, _) = pending(wait.poll(&mut condvar, &mut mutex, turn(110)));
    assert_eq!(condvar.notify_one().map(|w| w.id), Some(1));
    let (guard, timed_out) = ready(wait.poll(&mut condvar, &mut mutex, turn(120)));
    assert!(!timed_out);

    // notified in time, but looks late
    let (wait, _) = condvar.wait_block_until(&mut mutex, guard, waiter(1), 300);
    assert_eq!(condvar.notify_all().len(), 1);
    let (_, timed_out) = ready(wait.poll(&mut condvar, &mut mutex, turn(400)));
    assert!(!timed_out);
}

#[test]
fn a_suspended_wait_ends_with_its_signal() {
    let mut mutex: Mutex<bool, u32> = Mutex::new(true);
    let mut condvar: Condvar<u32> = Condvar::new();
    let guard = mutex.try_lock().unwrap();
    let (wait, _) = condvar.wait_async(&mut mutex, guard, waiter(1));
    // it has no timer
    let late = Turn {
        expired: true,
        ..turn(0)
    };
    let (progress, cancelled) = wait.poll(&mut condvar, &mut mutex, late);
    assert!(cancelled.is_none());
    let (wait, pause) = pending(progress);
    assert_eq!(pause, Pause::Await);
    assert_eq!(condvar.notify_one().map(|w| w.id), Some(1));
    let (progress, _) = wait.poll(&mut condvar, &mut mutex, signalled());
    let (guard, timed_out) = ready(progress);
    assert!(*guard);
    assert!(!timed_out);
}

#[test]
fn a_suspended_wait_times_out_with_its_timer() {
    let mut mutex: Mutex<i32, u32> = Mutex::new(0);
    let mut condvar: Condvar<u32> = Condvar::new();
    let guard = mutex.try_lock().unwrap();
    let (wait, _) = condvar.wait_async_timeout(&mut mutex, guard, waiter(3), 100);
    assert_eq!(wait.deadline, Some(100));
    let other = mutex.try_lock().unwrap();
    let late = Turn {
        expired: true,
        ..turn(100)
    };
    let (progress, cancelled) = wait.poll(&mut condvar, &mut mutex, late);
    assert_eq!(cancelled.map(|w| w.handle), Some(30));
    let (wait, pause) = pending(progress);
    assert_eq!(pause, Pause::Await);
    assert_eq!(wait.phase, AsyncPhase::Relocking { timed_out: true });
    assert_eq!(other.drop(&mut mutex), vec![5]);
    let (progress, cancelled) = wait.poll(&mut condvar, &mut mutex, turn(120));
    assert!(cancelled.is_none());
    let (_, timed_out) = ready(progress);
    assert!(timed_out);
    assert!(condvar.notify_one().is_none());
}

#[test]
fn a_notification_wins_the_race() {
    let mut race = Race {
        notify: true,
        timeout: true,
    };
    assert_eq!(race.poll(false, false), None);
    assert_eq!(race.poll(true, true), Some(false));
    assert_eq!(race.poll(true, true), Some(true));
    assert_eq!(race.poll(true, true), None);
}

#[test]
fn spinning_waiters_are_notified_first_and_the_newest_before_the_oldest() {
    let mut mutex: Mutex<i32, u32> = Mutex::new(0);
    let mut condvar: Condvar<u32> = Condvar::default();
    for id in 1..3 {
        let guard = mutex.try_lock().unwrap();
        condvar.wait_async(&mut mutex, guard, waiter(id));
        let guard = mutex.try_lock().unwrap();
        condvar.wait_block(&mut mutex, guard, waiter(10 + id));
        let guard = mutex.try_lock().unwrap();
        condvar.wait_spin(&mut mutex, guard, waiter(20 + id));
    }
    let mut order = Vec::new();
    while let Some(notified) = condvar.notify_one() {
        order.push(notified.id);
    }
    assert_eq!(order, vec![22, 21, 12, 11, 2, 1]);
}

#[test]
fn as_many_are_notified_as_there_are_calls() {
    let mut mutex: Mutex<i32, u32> = Mutex::new(0);
    let mut condvar: Condvar<u32> = Condvar::new();
    let guard = mutex.try_lock().unwrap();
    condvar.wait_async(&mut mutex, guard, waiter(1));
    let guard = mutex.try_lock().unwrap();
    condvar.wait_block(&mut mutex, guard, waiter(2));
    let guard = mutex.try_lock().unwrap();
    condvar.wait_spin(&mut mutex, guard, waiter(3));
    assert_eq!(condvar.notify_one().map(|w| w.id), Some(3));
    assert_eq!(condvar.notify_one().map(|w| w.id), Some(2));
    assert_eq!(condvar.notify_one().map(|w| w.id), Some(1));
    for _ in 0..3 {
        assert!(condvar.notify_one().is_none());
    }
    // nobody is notified in advance
    let guard = mutex.try_lock().unwrap();
    let (wait, _) = condvar.wait_block_until(&mut mutex, guard, waiter(4), 100);
    let (_, pause) = pending(wait.poll(&mut condvar, &mut mutex, turn(40)));
    assert_eq!(pause, Pause::ParkTimeout(60));
    assert_eq!(condvar.notify_one().map(|w| w.id), Some(4));
}

#[test]
fn everybody_is_notified() {
    let mut mutex: Mutex<i32, u32> = Mutex::new(0);
    let mut condvar: Condvar<u32> = Condvar::new();
    for id in 0..3 {
        let guard = mutex.try_lock().unwrap();
        let checked = condvar.wait_sync_while(
            Strategy::Block,
            &mut mutex,
            guard,
            waiter(id),
            |count: &mut i32| *count < 10,
        );
        assert!(matches!(waiting(checked), Wait::Block(_)));
    }
    let mut guard = mutex.try_lock().unwrap();
    *guard = 10;
    guard.drop(&mut mutex);
    let notified: Vec<u64> = condvar.notify_all().iter().map(|w| w.id).collect();
    assert_eq!(notified, vec![0, 1, 2]);
    assert!(condvar.notify_all().is_empty());
}

#[test]
fn a_wait_ends_when_its_condition_is_false() {
    let mut mutex: Mutex<i32, u32> = Mutex::new(0);
    let mut condvar: Condvar<u32> = Condvar::new();
    let guard = mutex.try_lock().unwrap();
    let small = |value: &mut i32| *value < 10;
    let wait = waiting(condvar.wait_spin_while(&mut mutex, guard, waiter(1), small));
    let mut other = mutex.try_lock().unwrap();
    *other = 10;
    other.drop(&mut mutex);
    condvar.notify_one();
    let (guard, _) = ready(wait.poll(&mut condvar, &mut mutex, signalled()));
    let (guard, timed_out) =
        done(condvar.wait_spin_while(&mut mutex, guard, waiter(2), small));
    assert_eq!(*guard, 10);
    assert!(!timed_out);

    let (guard, _) = done(condvar.wait_block_while(&mut mutex, guard, waiter(2), small));
    let (guard, _) = done(condvar.wait_async_while(&mut mutex, guard, waiter(2), small));
    assert_eq!(*guard, 10);
    assert!(condvar.notify_one().is_none());
}

#[test]
fn a_timed_wait_ends_without_another_look_at_the_condition() {
    let mut mutex: Mutex<i32, u32> = Mutex::new(0);
    let mut condvar: Condvar<u32> = Condvar::new();
    let guard = mutex.try_lock().unwrap();
    let in_time = WaitTimeoutResult::default();
    assert!(!in_time.timed_out());
    let always = |_: &mut i32| true;
    let checked =
        condvar.wait_spin_until_while(&mut mutex, guard, in_time, waiter(1), 100, always);
    let wait: SpinWait = waiting(checked);
    let (guard, result) = match wait.poll(&mut condvar, &mut mutex, turn(100)) {
        Progress::Ready(guard, result) => (guard, result),
        Progress::Pending(_, _) => panic!("the time is up"),
    };
    let unseen = |_: &mut i32| -> bool { panic!("the condition is not looked at") };
    let (guard, timed_out) =
        done(condvar.wait_spin_until_while(&mut mutex, guard, result, waiter(2), 100, unseen));
    assert!(timed_out);
    let (guard, timed_out) =
        done(condvar.wait_block_until_while(&mut mutex, guard, result, waiter(2), 100, unseen));
    assert!(timed_out);
    let (guard, timed_out) =
        done(condvar.wait_async_until_while(&mut mutex, guard, result, waiter(2), 100, unseen));
    assert!(timed_out);
    let (guard, timed_out) = done(condvar.wait_sync_until_while(
        Strategy::Spin,
        &mut mutex,
        guard,
        result,
        waiter(2),
        100,
        unseen,
    ));
    assert!(timed_out);
    let checked =
        condvar.wait_async_timeout_while(&mut mutex, guard, in_time, waiter(4), 100, always);
    assert_eq!(waiting(checked).id, 4);
}

#[test]
fn the_strategy_decides_how_a_wait_waits() {
    let mut mutex: Mutex<i32, u32> = Mutex::new(0);
    let mut condvar: Condvar<u32> = Condvar::new();
    let guard = mutex.try_lock().unwrap();
    let (wait, _) = condvar.wait_sync(Strategy::Spin, &mut mutex, guard, waiter(1));
    let (progress, _) = wait.poll(&mut condvar, &mut mutex, turn(0));
    assert_eq!(pending(progress).1, Pause::Spin);
    let guard = mutex.try_lock().unwrap();
    let (wait, _) = condvar.wait_sync_until(Strategy::Block, &mut mutex, guard, waiter(2), 100);
    let (progress, _) = wait.poll(&mut condvar, &mut mutex, turn(0));
    assert_eq!(pending(progress).1, Pause::ParkTimeout(100));
}

#[test]
fn a_consumer_collects_what_a_producer_queues() {
    let mut mutex: Mutex<Vec<i32>, u32> = Mutex::new(Vec::new());
    let mut condvar: Condvar<u32> = Condvar::new();
    let mut collected = Vec::new();
    let mut produced = 0;
    for _ in 0..5 {
        let mut guard = mutex.try_lock().unwrap();
        loop {
            let empty = |queue: &mut Vec<i32>| queue.is_empty();
            match condvar.wait_sync_while(Strategy::Block, &mut mutex, guard, waiter(1), empty) {
                Checked::Done(mut queue, _) => {
                    collected.push(queue.remove(0));
                    queue.drop(&mut mutex);
                    break;
                }
                Checked::Waiting(wait, _) => {
                    let (wait, pause) = {
                        let (progress, _) = wait.poll(&mut condvar, &mut mutex, turn(0));
                        pending(progress)
                    };
                    assert_eq!(pause, Pause::Park);
                    let mut queue = mutex.try_lock().unwrap();
                    queue.push(produced);
                    produced += 1;
                    queue.drop(&mut mutex);
                    assert_eq!(condvar.notify_one().map(|w| w.id), Some(1));
                    let (progress, _) = wait.poll(&mut condvar, &mut mutex, turn(0));
                    guard = ready(progress).0;
                }
            }
        }
    }
    assert_eq!(collected, vec![0, 1, 2, 3, 4]);
}
