use std::ops::{Deref, DerefMut};
use wasm_safe_mutex::mutex::{Attempt, NotAvailable};
use wasm_safe_mutex::platform::{Pause, Strategy};
use wasm_safe_mutex::rwlock::{ReadGuard, RwLock, WriteGuard};

fn acquired<G>(attempt: Attempt<G>) -> G {
    match attempt {
        Attempt::Acquired(guard) => guard,
        Attempt::Retry(_) => panic!("the lock is held"),
    }
}

fn pause<G>(attempt: Attempt<G>) -> Pause {
    match attempt {
        Attempt::Acquired(_) => panic!("the lock is free"),
        Attempt::Retry(pause) => pause,
    }
}

#[test]
fn test_lock_try() {
    let mut mutex: RwLock<i32, u32> = RwLock::new(0);
    let lock = mutex.try_lock_read();
    assert!(lock.is_ok());
    assert_eq!(lock.as_ref().unwrap().deref(&mutex), &0);
    let lock2 = mutex.try_lock_read();
    assert!(lock2.is_ok());
    assert_eq!(lock2.as_ref().unwrap().deref(&mutex), &0);

    lock2.unwrap().drop(&mut mutex);
    //fail to acquire write lock
    let lock2 = mutex.try_lock_write();
    assert!(!lock2.is_ok());

    lock.unwrap().drop(&mut mutex);
    let mut write_lock = mutex.try_lock_write();
    assert!(write_lock.is_ok());
    assert_eq!(write_lock.as_ref().unwrap().deref(), &0);

    *write_lock.as_mut().unwrap().deref_mut() = 2;
    assert_eq!(write_lock.as_ref().unwrap().deref(), &2);

    //fail to acquire a new read lock
    let read_lock = mutex.try_lock_read();
    assert!(!read_lock.is_ok());

    write_lock.unwrap().drop(&mut mutex);
    //new read lock
    let read_lock = mutex.try_lock_read();
    assert!(read_lock.is_ok());
    assert_eq!(read_lock.as_ref().unwrap().deref(&mutex), &2);
}

#[test]
fn test_lock_spin() {
    let mut mutex: RwLock<i32, u32> = RwLock::new(0);
    let lock = acquired(mutex.lock_spin_read());
    lock.drop(&mut mutex);

    let lock = acquired(mutex.lock_spin_write());
    lock.drop(&mut mutex);
}

#[test]
fn test_lock_block() {
    let mut mutex: RwLock<i32, u32> = RwLock::new(0);
    let lock = acquired(mutex.lock_block_read(1));
    assert_eq!(lock.deref(&mutex), &0);
    let lock2 = acquired(mutex.lock_block_read(1));
    assert_eq!(lock.deref(&mutex), &0);
    lock2.drop(&mut mutex);

    //the other thread has to wait for the reader
    assert_eq!(pause(mutex.lock_block_write(2)), Pause::Park);
    assert_eq!(lock.drop(&mut mutex), vec![2]);
    let lock = acquired(mutex.lock_block_write(2));
    //and this one for the writer
    assert_eq!(pause(mutex.lock_block_read(1)), Pause::Park);
    assert_eq!(lock.drop(&mut mutex), vec![1]);
    acquired(mutex.lock_block_read(1)).drop(&mut mutex);
}

#[test]
fn test_async() {
    let mut mutex: RwLock<i32, u32> = RwLock::new(0);
    let lock = acquired(mutex.lock_async_read(1));
    assert_eq!(lock.deref(&mutex), &0);
    lock.drop(&mut mutex);
    let lock = acquired(mutex.lock_async_read_write(1));
    assert_eq!(lock.deref(), &0);
    lock.drop(&mut mutex);
}

#[test]
fn readers_share_and_the_writer_is_alone() {
    let mut lock: RwLock<Vec<i32>, u32> = RwLock::new(vec![1, 2, 3]);
    let r1 = acquired(lock.lock_sync_read(Strategy::Block, 1));
    let r2 = acquired(lock.lock_sync_read(Strategy::Block, 2));
    assert_eq!(r1.deref(&lock).len(), 3);
    assert_eq!(r2.deref(&lock).len(), 3);
    r1.drop(&mut lock);
    assert_eq!(lock.try_lock_write().err(), Some(NotAvailable));
    r2.drop(&mut lock);

    let mut w = acquired(lock.lock_sync_write(Strategy::Block, 1));
    w.push(4);
    assert_eq!(lock.try_lock_read().err(), Some(NotAvailable));
    assert_eq!(lock.try_lock_write().err(), Some(NotAvailable));
    w.drop(&mut lock);
    let r = lock.try_lock_read().unwrap();
    assert_eq!(r.deref(&lock), &vec![1, 2, 3, 4]);
}

#[test]
fn a_writer_wakes_everybody_and_a_reader_the_writers() {
    let mut lock: RwLock<i32, u32> = RwLock::new(0);
    let writer: WriteGuard<i32> = lock.try_lock_write().unwrap();
    assert_eq!(pause(lock.lock_async_read_write(40)), Pause::Await);
    assert_eq!(pause(lock.lock_block_write(30)), Pause::Park);
    assert_eq!(pause(lock.lock_async_read(20)), Pause::Await);
    assert_eq!(pause(lock.lock_block_read(10)), Pause::Park);
    assert_eq!(pause(lock.lock_block_read(11)), Pause::Park);
    assert_eq!(pause(lock.lock_spin_read()), Pause::Spin);
    assert_eq!(pause(lock.lock_spin_write()), Pause::Spin);
    assert_eq!(writer.drop(&mut lock), vec![10, 11, 20, 30, 40]);

    let reader: ReadGuard = lock.try_lock_read().unwrap();
    let other: ReadGuard = lock.try_lock_read().unwrap();
    assert_eq!(pause(lock.lock_block_write(30)), Pause::Park);
    assert_eq!(reader.drop(&mut lock), vec![30]);
    assert_eq!(pause(lock.lock_async_read_write(40)), Pause::Await);
    assert_eq!(other.drop(&mut lock), vec![40]);
    assert!(lock.try_lock_write().is_ok());
}

#[test]
fn a_lock_may_be_taken_before_those_who_queued_are_woken() {
    let mut lock: RwLock<i32, u32> = RwLock::new(0);
    let writer = lock.try_lock_write().unwrap();
    assert_eq!(pause(lock.lock_block_read(10)), Pause::Park);
    lock.release_write(writer);
    let other = lock.try_lock_write().unwrap();
    assert_eq!(lock.did_unlock_write(), vec![10]);
    assert_eq!(other.drop(&mut lock), vec![]);

    let reader = lock.try_lock_read().unwrap();
    assert_eq!(pause(lock.lock_block_write(20)), Pause::Park);
    lock.release_read(reader);
    let other = lock.try_lock_read().unwrap();
    assert_eq!(lock.did_unlock_read(), vec![20]);
    assert_eq!(pause(lock.lock_block_write(20)), Pause::Park);
    assert_eq!(other.drop(&mut lock), vec![20]);
}

#[test]
fn the_strategy_decides_how_a_refused_attempt_waits() {
    let mut lock: RwLock<i32, u32> = RwLock::new(0);
    let writer = lock.try_lock_write().unwrap();
    assert_eq!(pause(lock.lock_sync_read(Strategy::Block, 1)), Pause::Park);
    assert_eq!(pause(lock.lock_sync_read(Strategy::Spin, 2)), Pause::Spin);
    assert_eq!(pause(lock.lock_sync_write(Strategy::Block, 3)), Pause::Park);
    assert_eq!(pause(lock.lock_sync_write(Strategy::Spin, 4)), Pause::Spin);
    assert_eq!(writer.drop(&mut lock), vec![1, 3]);
}

#[test]
fn a_hundred_and_twenty_seven_readers_fit() {
    let mut lock: RwLock<i32, u32> = RwLock::new(5);
    let mut readers = Vec::new();
    while !lock.is_full() {
        readers.push(lock.try_lock_read().unwrap());
    }
    assert_eq!(readers.len(), 127);
    assert!(lock.try_lock_write().is_err());
    for reader in readers {
        assert_eq!(reader.deref(&lock), &5);
        reader.drop(&mut lock);
    }
    assert!(lock.try_lock_write().is_ok());
}

#[test]
fn a_lock_shows_its_data_unless_a_writer_has_it() {
    let mut lock: RwLock<i32, u32> = RwLock::from(17);
    assert_eq!(lock.fmt(), ("17".to_string(), vec![]));
    let reader = lock.try_lock_read().unwrap();
    assert_eq!(pause(lock.lock_block_write(3)), Pause::Park);
    assert_eq!(lock.fmt(), ("17".to_string(), vec![3]));
    reader.drop(&mut lock);
    let writer = lock.try_lock_write().unwrap();
    assert_eq!(lock.fmt(), ("Mutex { <locked> }".to_string(), vec![]));
    writer.drop(&mut lock);
}

#[test]
fn a_default_lock_holds_the_default() {
    let mut lock: RwLock<i32, u32> = RwLock::default();
    assert_eq!(*lock.try_lock_write().unwrap(), 0);
}
