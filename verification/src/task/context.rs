//! The bundle handed to a computation on each poll.

use vstd::prelude::*;
use crate::task::data::{LocalMap, Opaque};
use crate::task::waker::Waker;

verus! {

/// What a computation may use during one poll: the wakeup handle of its task
/// and exclusive access to the task's local storage.
///
/// A context is built afresh for every poll. It only borrows the handle and
/// the storage, for the duration of that poll, and cannot outlive it. Local
/// storage has no lock of its own: it is safe because the one context of the
/// poll in flight is the only way to reach it.
pub struct Context<'a, V: Opaque> {
    /// The wakeup handle of the task being polled.
    pub waker: &'a Waker,
    /// The local storage of the task being polled.
    pub map: &'a mut LocalMap<V>,
}

impl<'a, V: Opaque> Context<'a, V> {
    /// A context over `map` and `waker`.
    ///
    /// Whatever the poll leaves in the context's storage is what `map` holds
    /// once the context is gone.
    pub fn new(map: &'a mut LocalMap<V>, waker: &'a Waker) -> (cx: Context<'a, V>)
        ensures
            *cx.map == *old(map),
            *final(cx.map) == *final(map),
            *cx.waker == *waker,
    {
        Context { waker, map }
    }

    /// The wakeup handle of the task being polled.
    pub fn waker(&self) -> (waker: &Waker)
        ensures
            *waker == *self.waker,
    {
        self.waker
    }

    /// Exclusive access to the local storage of the task being polled.
    ///
    /// The context afterwards holds what the caller leaves behind the returned
    /// reference, and still stands for the same storage and the same handle.
    pub fn local_storage(&mut self) -> (map: &mut LocalMap<V>)
        ensures
            *map == *old(self).map,
            *final(self).map == *final(map),
            *final(final(self).map) == *final(old(self).map),
            final(self).waker == old(self).waker,
    {
        &mut *self.map
    }
}

} // verus!
