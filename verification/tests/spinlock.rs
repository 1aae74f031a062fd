use wasm_safe_mutex::spinlock::Spinlock;
use wasm_safe_mutex::waiter::take_all;

#[test]
fn a_spinlock_runs_the_section_and_returns_its_result() {
    let mut lock = Spinlock::new(vec![1, 2]);
    let len = lock.with_mut(|list: &mut Vec<i32>| {
        list.push(3);
        list.len()
    });
    assert_eq!(len, 3);
    assert_eq!(lock.with_mut(take_all), vec![1, 2, 3]);
    assert_eq!(lock.with_mut(|list| list.len()), 0);
}

#[test]
fn a_spinlock_lets_one_in_at_a_time() {
    let mut lock = Spinlock::new(0);
    assert!(lock.try_enter());
    assert!(!lock.try_enter());
    lock.leave();
    assert!(lock.try_enter());
}

#[test]
fn sections_run_one_after_another() {
    let mut lock = Spinlock::new(Vec::new());
    for section in 0..3 {
        let length = lock.with_mut(|data| {
            data.push(section);
            data.len()
        });
        assert_eq!(length, section + 1);
    }
    assert_eq!(lock.with_mut(|data| data.clone()), vec![0, 1, 2]);
}

#[test]
fn additions_add_up() {
    let mut lock = Spinlock::new(5);
    for _ in 0..4 {
        for _thread in 0..3 {
            lock.with_mut(|data| *data += 1);
        }
    }
    assert_eq!(lock.with_mut(|data| *data), 5 + 3 * 4);
}
