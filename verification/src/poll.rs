//! The outcome of one non-blocking attempt to advance a computation.

use vstd::prelude::*;

verus! {

/// What a single poll produced.
///
/// `Ready` carries the final result and is returned at most once per task.
/// `Pending` is a promise: before returning it, the computation has arranged
/// for the wakeup handle of its context to be invoked once progress is
/// possible. There is no third state, and neither stands for a blocked thread.
#[derive(Debug, PartialEq, Eq)]
pub enum Async<T> {
    /// The computation has finished with this value.
    Ready(T),
    /// The computation is not finished yet.
    Pending,
}

impl<T> Async<T> {
    /// Whether this is `Ready`.
    pub fn is_ready(&self) -> (ready: bool)
        ensures
            ready == (self is Ready),
    {
        match self {
            Async::Ready(_) => true,
            Async::Pending => false,
        }
    }

    /// Whether this is `Pending`.
    pub fn is_pending(&self) -> (pending: bool)
        ensures
            pending == (self is Pending),
    {
        !self.is_ready()
    }

    /// Applies `f` to the value of a `Ready`; a `Pending` stays `Pending` and
    /// `f` is not called.
    pub fn map<U, F: FnOnce(T) -> U>(self, f: F) -> (mapped: Async<U>)
        requires
            self matches Async::Ready(value) ==> call_requires(f, (value,)),
        ensures
            match self {
                Async::Ready(value) => mapped matches Async::Ready(out) && call_ensures(
                    f,
                    (value,),
                    out,
                ),
                Async::Pending => mapped is Pending,
            },
    {
        match self {
            Async::Ready(value) => Async::Ready(f(value)),
            Async::Pending => Async::Pending,
        }
    }
}

} // verus!
