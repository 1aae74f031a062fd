//! A lock for short critical sections.

use vstd::prelude::*;

verus! {

/// Data together with the flag that guards it.
///
/// The flag is up while somebody is in the critical section. Whoever finds it up
/// spins until it is down.
#[derive(Debug)]
pub struct Spinlock<T> {
    data: T,
    locked: bool,
}

impl<T> View for Spinlock<T> {
    type V = T;

    closed spec fn view(&self) -> T {
        self.data
    }
}

impl<T> Spinlock<T> {
    /// Whether somebody is inside the critical section.
    pub closed spec fn is_locked(&self) -> bool {
        self.locked
    }

    /// An open lock around `data`.
    pub fn new(data: T) -> (lock: Self)
        ensures
            lock@ == data,
            !lock.is_locked(),
    {
        Spinlock { data, locked: false }
    }

    /// One turn of the spin at the door: raises the flag, and says whether it was down,
    /// so that the section is entered.
    pub fn try_enter(&mut self) -> (entered: bool)
        ensures
            entered == !old(self).is_locked(),
            final(self).is_locked(),
            final(self)@ == old(self)@,
    {
        let was_locked = self.locked;
        self.locked = true;
        !was_locked
    }

    /// Leaves the section: lowers the flag.
    pub fn leave(&mut self)
        requires
            old(self).is_locked(),
        ensures
            !final(self).is_locked(),
            final(self)@ == old(self)@,
    {
        self.locked = false;
    }

    /// Runs `f` on the data inside the critical section and returns what it returns.
    ///
    /// This is the only access to the data, so that every access is short-lived.
    pub fn with_mut<F, R>(&mut self, f: F) -> (result: R) where F: FnOnce(&mut T) -> R
        requires
            !old(self).is_locked(),
            forall|data: &mut T| *data == old(self)@ ==> call_requires(f, (data,)),
        ensures
            !final(self).is_locked(),
            exists|data: &mut T|
                {
                    &&& *data == old(self)@
                    &&& *final(data) == final(self)@
                    &&& #[trigger] call_ensures(f, (data,), result)
                },
    {
        let entered = self.try_enter();
        assert(entered);
        let result = f(&mut self.data);
        self.leave();
        result
    }
}

} // verus!
