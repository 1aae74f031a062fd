//! What holds of the primitives as a whole: over any two steps, or over any run of
//! steps that threads and tasks take in whatever order.
//!
//! The modules whose names end in `_calls` speak of the calls themselves: what each of
//! them does to the data, the messages, the queues and the lists, and what two or three
//! of them do together.

pub mod condvar;
pub mod condvar_calls;
pub mod mpsc;
pub mod mpsc_calls;
pub mod mutex;
pub mod mutex_calls;
pub mod parts_calls;
pub mod receives;
pub mod rwlock;
pub mod rwlock_calls;
pub mod spinlock;
pub mod waits;
