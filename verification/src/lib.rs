//! The core of a cooperative, non-blocking task model.
//!
//! A computation is advanced by repeated, non-blocking polls. One that cannot
//! finish hands its wakeup handle to whoever will make progress possible and
//! returns [`Async::Pending`]; invoking the handle later schedules the task for
//! another poll. Nothing here blocks a thread, spawns one, or touches shared
//! memory: every type is a plain value whose operations are verified against a
//! mathematical model, so that a thread-safe shell only has to run them under
//! its own synchronisation.
//!
//! * [`poll`]: the outcome of one poll.
//! * [`task`]: wakeup handles, the single-slot wakeup mailbox, task-local
//!   storage and the per-poll context.
//! * [`future`]: the contract between a computation and whoever polls it, and
//!   the computation that is ready at once.
//! * [`executor`]: the spawn contract, its error, and a reference
//!   single-threaded pool that keeps the books of task lifetimes.

pub mod executor;
pub mod future;
pub mod poll;
pub mod task;

pub use crate::future::Future;
pub use crate::poll::Async;
