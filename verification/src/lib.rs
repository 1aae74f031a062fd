//! Synchronization primitives that adapt to what the platform can do.
//!
//! A browser's main thread may not block, a worker or a native thread may. Every
//! primitive here therefore comes in four flavours: `_block` parks the thread,
//! `_spin` busy-waits, `_sync` picks one of the two for the platform, and `_async`
//! suspends the task.
//!
//! The types of this crate are the state behind the primitives, and their methods
//! are the atomic steps on that state. A step that cannot finish says how to pause
//! before the next one, and a step that releases something hands back the handles
//! of those to wake. Parking, waking, reading the clock and running the loop around
//! the steps belong to the runtime that drives them.

pub mod condvar;
pub mod guard;
pub mod laws;
pub mod lock_id;
pub mod mpsc;
pub mod mutex;
pub mod platform;
pub mod rwlock;
pub mod spinlock;
pub mod text;
pub mod waiter;

pub use crate::guard::Guard;
pub use crate::mutex::{Mutex, NotAvailable};
