use std::ops::Deref;
use wasm_safe_mutex::mutex::{Attempt, TimedAttempt};
use wasm_safe_mutex::platform::{sync_strategy, time_left, Pause, Strategy};
use wasm_safe_mutex::waiter::{position, remove_first, Waiter, WaiterIds};
use wasm_safe_mutex::{Guard, Mutex, NotAvailable};

fn acquired<G>(attempt: Attempt<G>) -> G {
    match attempt {
        Attempt::Acquired(guard) => guard,
        Attempt::Retry(_) => panic!("the mutex is held"),
    }
}

fn pause<G>(attempt: Attempt<G>) -> Pause {
    match attempt {
        Attempt::Acquired(_) => panic!("the mutex is free"),
        Attempt::Retry(pause) => pause,
    }
}

#[test]
fn the_next_guard_finds_what_the_last_one_wrote() {
    let mut mutex: Mutex<i32, u32> = Mutex::new(42);
    let mut guard = acquired(mutex.lock_sync(Strategy::Block, 1));
    *guard = 100;
    guard.drop(&mut mutex);
    assert_eq!(*acquired(mutex.lock_sync(Strategy::Block, 1)), 100);
}

#[test]
fn a_second_lock_fails_while_the_first_is_held() {
    let mut mutex: Mutex<&str, u32> = Mutex::new("data");
    let guard = mutex.try_lock().unwrap();
    assert_eq!(*guard, "data");
    assert!(matches!(mutex.try_lock(), Err(NotAvailable)));
    guard.drop(&mut mutex);
    assert!(mutex.try_lock().is_ok());
}

#[test]
fn the_guard_gives_access_to_the_data() {
    let mut mutex: Mutex<String, u32> = Mutex::new(String::from("hello"));
    let mut guard = acquired(mutex.lock_spin());
    guard.push_str(", world!");
    assert_eq!(&*guard, "hello, world!");
    assert_eq!(guard.as_ref(), "hello, world!");
    guard.as_mut().push('?');
    assert_eq!(guard.deref(), "hello, world!?");
    assert_eq!(guard.fmt(), "hello, world!?");
}

#[test]
fn four_threads_add_up() {
    let mut mutex: Mutex<i32, u32> = Mutex::new(0);
    for thread in 0..4 {
        for _ in 0..25 {
            let mut guard: Guard<i32> = acquired(mutex.lock_sync(Strategy::Block, thread));
            *guard += 1;
            guard.drop(&mut mutex);
        }
    }
    assert_eq!(*acquired(mutex.lock_sync(Strategy::Block, 0)), 100);
}

#[test]
fn a_task_adds_to_a_list() {
    let mut mutex: Mutex<Vec<i32>, u32> = Mutex::new(vec![1, 2, 3]);
    let mut guard = acquired(mutex.lock_async(1));
    guard.push(4);
    guard.drop(&mut mutex);
    let sum: i32 = acquired(mutex.lock_async(1)).iter().sum();
    assert_eq!(sum, 10);
}

#[test]
fn a_release_wakes_threads_then_tasks_in_order() {
    let mut mutex: Mutex<i32, u32> = Mutex::new(0);
    let guard = mutex.try_lock().unwrap();
    assert_eq!(pause(mutex.lock_async(30)), Pause::Await);
    assert_eq!(pause(mutex.lock_block(10)), Pause::Park);
    assert_eq!(pause(mutex.lock_spin()), Pause::Spin);
    assert_eq!(pause(mutex.lock_sync(Strategy::Block, 20)), Pause::Park);
    assert_eq!(pause(mutex.lock_sync(Strategy::Spin, 99)), Pause::Spin);
    assert_eq!(guard.drop(&mut mutex), vec![10, 20, 30]);
    let guard = mutex.try_lock().unwrap();
    assert_eq!(guard.drop(&mut mutex), vec![]);
    assert_eq!(mutex.did_unlock(), vec![]);
}

#[test]
fn a_mutex_may_be_taken_before_those_who_queued_are_woken() {
    let mut mutex: Mutex<i32, u32> = Mutex::new(0);
    let mut guard = mutex.try_lock().unwrap();
    assert_eq!(pause(mutex.lock_block(10)), Pause::Park);
    *guard = 3;
    mutex.release(guard);
    let other = mutex.try_lock().unwrap();
    assert_eq!(*other, 3);
    assert_eq!(mutex.did_unlock(), vec![10]);
    // woken in vain, so back into the queue
    assert_eq!(pause(mutex.lock_block(10)), Pause::Park);
    assert_eq!(other.drop(&mut mutex), vec![10]);
    assert!(mutex.try_lock().is_ok());
}

#[test]
fn a_timed_lock_gives_up_after_the_deadline() {
    let mut mutex: Mutex<i32, u32> = Mutex::new(0);
    let guard = mutex.try_lock().unwrap();
    assert!(matches!(
        mutex.lock_block_timeout(1, 99, 100),
        TimedAttempt::Park
    ));
    assert!(matches!(
        mutex.lock_block_timeout(1, 100, 100),
        TimedAttempt::TimedOut
    ));
    assert_eq!(guard.drop(&mut mutex), vec![1]);
    // even late, a mutex that is free is taken
    assert!(matches!(
        mutex.lock_block_timeout(1, 101, 100),
        TimedAttempt::Acquired(_)
    ));
}

#[test]
fn only_a_browser_thread_without_atomics_wait_spins() {
    assert_eq!(sync_strategy(false, false), Strategy::Block);
    assert_eq!(sync_strategy(false, true), Strategy::Block);
    assert_eq!(sync_strategy(true, true), Strategy::Block);
    assert_eq!(sync_strategy(true, false), Strategy::Spin);
}

#[test]
fn no_time_is_left_after_the_deadline() {
    assert_eq!(time_left(100, 40), 60);
    assert_eq!(time_left(100, 100), 0);
    assert_eq!(time_left(100, 140), 0);
}

#[test]
fn the_first_entry_of_an_id_is_removed() {
    let mut list: Vec<Waiter<char>> = vec![
        Waiter { id: 1, handle: 'a' },
        Waiter { id: 2, handle: 'b' },
        Waiter { id: 1, handle: 'c' },
    ];
    assert_eq!(position(&list, 2), Some(1));
    assert_eq!(position(&list, 3), None);
    assert_eq!(remove_first(&mut list, 1).map(|w| w.handle), Some('a'));
    assert_eq!(remove_first(&mut list, 1).map(|w| w.handle), Some('c'));
    assert!(remove_first(&mut list, 1).is_none());
    assert_eq!(list.len(), 1);
}

#[test]
fn ids_count_up() {
    let mut ids = WaiterIds::new();
    assert_eq!(ids.fetch_add(), 0);
    assert_eq!(ids.fetch_add(), 1);
    assert_eq!(ids.fetch_add(), 2);
}
