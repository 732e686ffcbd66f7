//! What a computation sees of its task while it is being polled: a wakeup
//! handle, task-local storage, and the context that bundles the two.

pub mod atomic_waker;
pub mod context;
pub mod data;
pub mod protocol;
pub mod waker;

pub use crate::task::atomic_waker::AtomicWaker;
pub use crate::task::context::Context;
pub use crate::task::data::{local_map, IdHasher, KeyRegistry, LocalKey, LocalMap, Opaque};
pub use crate::task::waker::Waker;
