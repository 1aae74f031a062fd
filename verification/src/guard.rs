//! Access to the data behind a [`Mutex`].

use vstd::prelude::*;

use crate::lock_id::LockId;
use crate::mutex::Mutex;

verus! {

/// The data of a mutex, in the hands of whoever holds the mutex.
///
/// A locking step moves the data out of the mutex and into the guard, so that while
/// the guard exists there is no other way to the data. [`Guard::drop`] moves it
/// back.
pub struct Guard<T> {
    data: T,
    id: LockId,
}

impl<T> View for Guard<T> {
    type V = T;

    closed spec fn view(&self) -> T {
        self.data
    }
}

impl<T> Guard<T> {
    /// Identity of the mutex that the guard belongs to.
    pub closed spec fn id(&self) -> int {
        self.id@
    }

    pub(crate) fn new(data: T, id: LockId) -> (guard: Self)
        ensures
            guard@ == data,
            guard.id() == id@,
    {
        Guard { data, id }
    }

    /// Releases `mutex`, the mutex that the guard came from, and returns the handles of
    /// everybody who waited for it.
    pub fn drop<W>(self, mutex: &mut Mutex<T, W>) -> (wakes: Vec<W>)
        requires
            old(mutex).consistent(),
            old(mutex)@.lent(self),
        ensures
            final(mutex).wf(),
            final(mutex)@ == old(mutex)@.released(self@),
            wakes@ == old(mutex)@.queued(),
    {
        mutex.release(self);
        mutex.did_unlock()
    }

    pub(crate) fn into_inner(self) -> (data: T)
        ensures
            data == self@,
    {
        self.data
    }

    /// The protected data.
    pub fn as_ref(&self) -> (data: &T)
        ensures
            *data == self@,
    {
        &self.data
    }

    /// The protected data, to be changed.
    pub fn as_mut(&mut self) -> (data: &mut T)
        ensures
            *data == old(self)@,
            final(self)@ == *final(data),
            final(self).id() == old(self).id(),
    {
        &mut self.data
    }
}

impl<T> std::ops::Deref for Guard<T> {
    type Target = T;

    fn deref(&self) -> (data: &T)
        ensures
            *data == self@,
    {
        &self.data
    }
}

impl<T> std::ops::DerefMut for Guard<T> {
    fn deref_mut(&mut self) -> (data: &mut T)
        ensures
            *data == old(self)@,
            final(self)@ == *final(data),
            final(self).id() == old(self).id(),
    {
        &mut self.data
    }
}

impl<T: std::fmt::Display> Guard<T> {
    /// Text for people: that of the protected data.
    pub fn fmt(&self) -> (shown: String)
        ensures
            vstd::string::to_string_from_display_ensures(&self@, shown),
    {
        self.data.to_string()
    }
}

} // verus!
