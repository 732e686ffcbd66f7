//! The contract between a computation and whoever polls it.

use vstd::prelude::*;
use std::marker::PhantomData;
use crate::poll::Async;
use crate::task::context::Context;
use crate::task::data::Opaque;
use crate::task::waker::Waker;

verus! {

/// A computation that produces its result through repeated, non-blocking
/// polls.
///
/// Some rules of `poll` bind whoever implements it and whoever calls it, and
/// cannot be stated as a contract on values; nothing here is proved from them.
///
/// * `poll` never blocks the calling thread.
/// * Only the thread that currently drives the task calls `poll`, and never
///   two at once: local storage is reached through the context of the one
///   poll in flight and has no lock of its own.
/// * `Ready` is returned at most once. To poll again after it is a programming
///   error, not a recoverable condition: an implementation may panic. A
///   computation can rule such a poll out by saying when it is
///   [`pollable`](Self::pollable).
/// * `Pending` is a binding promise. Before it returns `Pending`, a
///   computation has arranged that the wakeup handle of the context, or a copy
///   of it, is invoked once progress is possible; one that breaks the promise
///   stalls its task for good.
///
/// What a poll does to the values that it can reach is the business of
/// [`poll_spec`](Self::poll_spec).
pub trait Future {
    /// The result of the computation.
    type Item;

    /// What the task of the computation keeps in its local storage.
    type Local: Opaque;

    /// Whether the computation may be polled: it has not returned `Ready`
    /// yet, or does not mind. A computation that says nothing may always be
    /// polled.
    open spec fn pollable(&self) -> bool {
        true
    }

    /// What one poll may do: whether a poll of the computation `before`, with
    /// the wakeup handle `waker` and the local storage `locals` in its
    /// context, may return `outcome` and leave behind the computation `after`
    /// and the local storage `left`.
    ///
    /// A computation that says nothing allows everything. One that is verified
    /// says here what its `poll` does, and whoever drives it can tell what
    /// each poll has done.
    open spec fn poll_spec(
        before: &Self,
        waker: Waker,
        locals: Map<u64, Self::Local>,
        after: &Self,
        left: Map<u64, Self::Local>,
        outcome: Async<Self::Item>,
    ) -> bool {
        true
    }

    /// Tries to advance the computation; `cx` is good for this call only.
    ///
    /// A computation that is not ready yet may be polled again. The context is
    /// left standing for the same wakeup handle and the same local storage as
    /// before.
    fn poll(&mut self, cx: &mut Context<Self::Local>) -> (outcome: Async<Self::Item>)
        requires
            old(self).pollable(),
        ensures
            outcome is Pending ==> final(self).pollable(),
            Self::poll_spec(
                old(self),
                *old(cx).waker,
                old(cx).map@,
                final(self),
                final(cx).map@,
                outcome,
            ),
            *final(final(cx).map) == *final(old(cx).map),
            final(cx).waker == old(cx).waker,
    ;
}

/// The simplest computation: one that is ready on its first poll, with a value
/// that was there from the start. It touches neither the wakeup handle nor the
/// local storage of its task.
///
/// Its one poll hands the value out. It may not be polled again, and panics if
/// it is.
#[verifier::reject_recursive_types(V)]
pub struct Ready<T, V: Opaque> {
    value: Option<T>,
    marker: PhantomData<V>,
}

impl<T, V: Opaque> Ready<T, V> {
    /// The value that the computation still holds.
    pub closed spec fn value(&self) -> Option<T> {
        self.value
    }
}

/// The computation that is ready at once with `value`.
pub fn ready<T, V: Opaque>(value: T) -> (computation: Ready<T, V>)
    ensures
        computation.value() == Some(value),
{
    Ready { value: Some(value), marker: PhantomData }
}

impl<T, V: Opaque> Future for Ready<T, V> {
    type Item = T;

    type Local = V;

    open spec fn pollable(&self) -> bool {
        self.value() is Some
    }

    open spec fn poll_spec(
        before: &Self,
        waker: Waker,
        locals: Map<u64, V>,
        after: &Self,
        left: Map<u64, V>,
        outcome: Async<T>,
    ) -> bool {
        &&& before.value() matches Some(value) && outcome == Async::Ready(value)
        &&& after.value() is None
        &&& left == locals
    }

    fn poll(&mut self, cx: &mut Context<V>) -> (outcome: Async<T>) {
        Async::Ready(self.value.take().unwrap())
    }
}

} // verus!
