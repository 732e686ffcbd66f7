//! Wakeup handles.

use vstd::prelude::*;

verus! {

/// A capability to schedule one task for another poll.
///
/// A handle is bound to exactly one task for its whole life and is a plain,
/// freely copyable value: every copy is equivalent, may be sent to any thread,
/// and holds no resource, so dropping all copies without invoking any leaks
/// nothing. Invoking a handle means handing it to the executor that issued it;
/// the handle itself never touches the task.
#[derive(Clone, Copy, Debug, PartialEq, Eq, Hash, Structural)]
pub struct Waker {
    /// The identity of the task that this handle wakes.
    pub task: u64,
}

impl Waker {
    /// The handle of the task with identity `task`.
    pub fn new(task: u64) -> (waker: Waker)
        ensures
            waker.task == task,
    {
        Waker { task }
    }

    /// The identity of the task that this handle wakes.
    pub fn task_id(&self) -> (task: u64)
        ensures
            task == self.task,
    {
        self.task
    }

    /// Whether invoking `self` and invoking `other` wake the same task.
    pub fn will_wake(&self, other: &Waker) -> (same: bool)
        ensures
            same == (*self == *other),
    {
        self.task == other.task
    }
}

} // verus!
