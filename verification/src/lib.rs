//! The core of a reactor that waits on file descriptors for many waiters at once.
//!
//! The library is free of I/O. It holds the registration table, builds the set of
//! descriptors to wait on, decides who is notified when the wait returns, and
//! drives the state of a single waiter. The blocking wait itself, the interrupt
//! pipe and the thread that runs the loop belong to the application around it.

pub mod future;
pub mod interest;
pub mod laws;
pub mod reactor;
pub mod task;

pub use future::FdFuture;
pub use interest::Interest;
pub use reactor::Handle;
