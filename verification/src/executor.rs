//! The spawn contract, and a reference pool that keeps the books of task
//! lifetimes on one thread.
//!
//! An executor owns tasks. For each it allocates empty local storage and a
//! wakeup handle of its own; it polls the task with a fresh context whenever
//! the handle has been invoked; and when the computation is ready or the task
//! is cancelled it destroys the storage and retires the handle, so that
//! invoking a copy of it later does nothing. How tasks are assigned to threads
//! and in which order they run is up to each executor. [`LocalPool`] is the
//! plainest one: a single thread, first woken first polled.

use vstd::prelude::*;
use std::collections::HashMap;
use crate::future::Future;
use crate::poll::Async;
use crate::task::context::Context;
use crate::task::data::{local_map, LocalMap};
use crate::task::waker::Waker;

verus! {

/// Why a spawn failed.
#[derive(Clone, Copy, Debug, PartialEq, Eq, Structural)]
pub enum SpawnErrorKind {
    /// The executor has been shut down and accepts no more work.
    Shutdown,
    /// The executor has no room for another task at the moment.
    AtCapacity,
}

/// The error of a spawn that did not take place.
///
/// Either kind is final for the attempt that it answers: the computation was
/// not accepted and will never be polled. Nothing retries on the caller's
/// behalf.
#[derive(Clone, Copy, Debug, PartialEq, Eq, Structural)]
pub struct SpawnError {
    /// Why the spawn failed.
    pub kind: SpawnErrorKind,
}

impl SpawnError {
    /// The error of an executor that has been shut down.
    pub fn shutdown() -> (error: SpawnError)
        ensures
            error.kind == SpawnErrorKind::Shutdown,
    {
        SpawnError { kind: SpawnErrorKind::Shutdown }
    }

    /// The error of an executor that is full.
    pub fn at_capacity() -> (error: SpawnError)
        ensures
            error.kind == SpawnErrorKind::AtCapacity,
    {
        SpawnError { kind: SpawnErrorKind::AtCapacity }
    }

    /// Whether the executor had been shut down.
    pub fn is_shutdown(&self) -> (yes: bool)
        ensures
            yes == (self.kind == SpawnErrorKind::Shutdown),
    {
        match self.kind {
            SpawnErrorKind::Shutdown => true,
            SpawnErrorKind::AtCapacity => false,
        }
    }

    /// Whether the executor was full.
    pub fn is_at_capacity(&self) -> (yes: bool)
        ensures
            yes == (self.kind == SpawnErrorKind::AtCapacity),
    {
        match self.kind {
            SpawnErrorKind::Shutdown => false,
            SpawnErrorKind::AtCapacity => true,
        }
    }
}

/// The contract through which computations are submitted for scheduling.
///
/// A spawn either accepts the computation, which from then on is a task of the
/// executor, or fails with a [`SpawnError`] and never polls it. Which tasks an
/// executor runs when, and on which thread, is its own business.
pub trait Executor<F: Future> {
    /// Whether the executor is in a state that its own operations leave it
    /// in; they are called on such a state only. An executor that says
    /// nothing is always in order.
    open spec fn in_order(&self) -> bool {
        true
    }

    /// Submits a computation that may be polled.
    fn spawn(&mut self, future: F) -> (spawned: Result<(), SpawnError>)
        requires
            old(self).in_order(),
            future.pollable(),
        ensures
            final(self).in_order(),
    ;

    /// Whether the executor would accept a computation now, and if not, why
    /// not. The answer binds nobody: by the time of the spawn things may have
    /// changed.
    fn status(&self) -> (status: Result<(), SpawnError>)
        requires
            self.in_order(),
    ;
}

/// What there is to a task, apart from its identity: its computation and its
/// local storage.
#[verifier::reject_recursive_types(F)]
pub struct TaskState<F: Future> {
    /// The computation, as the last poll left it.
    pub computation: F,
    /// The local storage, as the last poll left it.
    pub locals: Map<u64, F::Local>,
}

/// The books of a pool: which tasks are alive and what there is to each,
/// which of them wait for a poll, and what the pool will do with the next
/// spawn.
#[verifier::reject_recursive_types(F)]
pub struct PoolState<F: Future> {
    /// Every live task, by its identity.
    pub tasks: Map<u64, TaskState<F>>,
    /// The tasks that have been woken and not polled since, first woken first.
    pub queue: Seq<u64>,
    /// The identity that the next task gets. Every smaller one has been used.
    pub next_id: nat,
    /// The largest number of tasks that may be alive at once.
    pub capacity: nat,
    /// Whether the pool still accepts work.
    pub open: bool,
}

/// What can happen to a pool.
#[verifier::reject_recursive_types(F)]
pub enum Event<F: Future> {
    /// This computation is submitted.
    Spawn(F),
    /// The wakeup handle of the task with the given identity is invoked.
    Wake(u64),
    /// The task with the given identity is cancelled.
    Cancel(u64),
    /// The task at the head of the queue is polled. `ready` says whether its
    /// computation has finished, `after` what the poll left of the task.
    Poll { ready: bool, after: TaskState<F> },
    /// The pool is shut down.
    Shutdown,
}

impl<F: Future> PoolState<F> {
    /// The books of a new pool with room for `capacity` tasks.
    pub open spec fn fresh(capacity: nat) -> PoolState<F> {
        PoolState { tasks: Map::empty(), queue: Seq::empty(), next_id: 0, capacity, open: true }
    }

    /// Whether the task `id` is alive: spawned, not ready yet, not cancelled.
    pub open spec fn is_live(self, id: u64) -> bool {
        self.tasks.contains_key(id)
    }

    /// Whether `id` has been given to a task that is not alive any more.
    pub open spec fn is_retired(self, id: u64) -> bool {
        id < self.next_id && !self.is_live(id)
    }

    /// Whether every live task has a computation that may be polled.
    pub open spec fn all_pollable(self) -> bool {
        forall|id: u64| #[trigger] self.is_live(id) ==> self.tasks[id].computation.pollable()
    }

    /// Whether the books are in order: finitely many tasks and no more than
    /// there is room for; only live tasks wait for a poll, none of them twice;
    /// and no identity that is still to be handed out is in use.
    pub open spec fn wf(self) -> bool {
        &&& self.tasks.dom().finite()
        &&& self.tasks.len() <= self.capacity
        &&& self.next_id <= u64::MAX
        &&& self.queue.no_duplicates()
        &&& forall|i: int| 0 <= i < self.queue.len() ==> self.is_live(#[trigger] self.queue[i])
        &&& forall|id: u64| #[trigger] self.is_live(id) ==> id < self.next_id
    }

    /// Why the next spawn fails, if it does: a pool that has been shut down
    /// accepts nothing, and an open one is full when it holds as many tasks as
    /// it has room for or has run out of identities.
    pub open spec fn spawn_error(self) -> Option<SpawnError> {
        if !self.open {
            Some(SpawnError { kind: SpawnErrorKind::Shutdown })
        } else if self.tasks.len() >= self.capacity || self.next_id >= u64::MAX {
            Some(SpawnError { kind: SpawnErrorKind::AtCapacity })
        } else {
            None
        }
    }

    /// The books after a spawn of `computation` that succeeded: the new task
    /// has the next identity and empty storage, and waits for its first poll.
    pub open spec fn spawned(self, computation: F) -> PoolState<F> {
        PoolState {
            tasks: self.tasks.insert(
                self.next_id as u64,
                TaskState { computation, locals: Map::empty() },
            ),
            queue: self.queue.push(self.next_id as u64),
            next_id: self.next_id + 1,
            ..self
        }
    }

    /// The books after the handle of task `id` has been invoked: a live task
    /// that does not wait for a poll yet joins the end of the queue; nothing
    /// else changes anything.
    pub open spec fn woken(self, id: u64) -> PoolState<F> {
        if self.is_live(id) && !self.queue.contains(id) {
            PoolState { queue: self.queue.push(id), ..self }
        } else {
            self
        }
    }

    /// The books after task `id` has been cancelled: the task is gone, storage
    /// and all, and no longer waits for a poll. Cancelling what is not alive
    /// changes nothing.
    pub open spec fn cancelled(self, id: u64) -> PoolState<F> {
        if self.is_live(id) {
            PoolState {
                tasks: self.tasks.remove(id),
                queue: if self.queue.contains(id) {
                    self.queue.remove(self.queue.index_of(id))
                } else {
                    self.queue
                },
                ..self
            }
        } else {
            self
        }
    }

    /// The books after the task at the head of the queue has been polled. It
    /// leaves the queue. If its computation is ready the task is gone, storage
    /// and all; if not, it stays alive as the poll left it.
    pub open spec fn polled(self, ready: bool, after: TaskState<F>) -> PoolState<F>
        recommends
            self.queue.len() > 0,
    {
        PoolState {
            tasks: if ready {
                self.tasks.remove(self.queue[0])
            } else {
                self.tasks.insert(self.queue[0], after)
            },
            queue: self.queue.drop_first(),
            ..self
        }
    }

    /// Whether a poll of the task at the head of the queue may return
    /// `outcome` and leave `after` of the task: the computation is handed the
    /// wakeup handle of its own task and its own local storage, does what it
    /// says of its polls, and may be polled again unless it is ready.
    pub open spec fn may_poll(self, outcome: Async<F::Item>, after: TaskState<F>) -> bool
        recommends
            self.queue.len() > 0,
    {
        &&& outcome is Pending ==> after.computation.pollable()
        &&& F::poll_spec(
            &self.tasks[self.queue[0]].computation,
            Waker { task: self.queue[0] },
            self.tasks[self.queue[0]].locals,
            &after.computation,
            after.locals,
            outcome,
        )
    }

    /// The books after the waiting tasks have been polled in turn, as many of
    /// them as `polls` is long. Each entry of `polls` gives what one poll
    /// returned and what it left of its task.
    pub open spec fn polled_in_turn(
        self,
        polls: Seq<(Async<F::Item>, TaskState<F>)>,
    ) -> PoolState<F>
        decreases polls.len(),
    {
        if polls.len() == 0 {
            self
        } else {
            self.polled_in_turn(polls.drop_last()).polled(polls.last().0 is Ready, polls.last().1)
        }
    }

    /// Whether polling the waiting tasks in turn may go as `polls` says: there
    /// is a task at the head of the queue for every entry, and each poll may
    /// return what its entry holds.
    pub open spec fn may_poll_in_turn(self, polls: Seq<(Async<F::Item>, TaskState<F>)>) -> bool
        decreases polls.len(),
    {
        polls.len() == 0 || {
            &&& self.may_poll_in_turn(polls.drop_last())
            &&& self.polled_in_turn(polls.drop_last()).queue.len() > 0
            &&& self.polled_in_turn(polls.drop_last()).may_poll(polls.last().0, polls.last().1)
        }
    }

    /// What the computations that finished during the polls of `polls`
    /// produced, each with the identity of its task, in the order of the
    /// polls.
    pub open spec fn harvest(self, polls: Seq<(Async<F::Item>, TaskState<F>)>) -> Seq<
        (u64, F::Item),
    >
        decreases polls.len(),
    {
        if polls.len() == 0 {
            Seq::empty()
        } else {
            match polls.last().0 {
                Async::Ready(item) => self.harvest(polls.drop_last()).push(
                    (self.queue[polls.len() - 1], item),
                ),
                Async::Pending => self.harvest(polls.drop_last()),
            }
        }
    }

    /// The books after the pool has been shut down: the tasks that it holds
    /// go on, and no new one is accepted.
    pub open spec fn shut_down(self) -> PoolState<F> {
        PoolState { open: false, ..self }
    }

    /// Whether `event` brings no computation into the books that may not be
    /// polled.
    pub open spec fn admits(self, event: Event<F>) -> bool {
        match event {
            Event::Spawn(computation) => computation.pollable(),
            Event::Poll { ready, after } => ready || after.computation.pollable(),
            _ => true,
        }
    }

    /// The books after `event`. A spawn that fails and a poll with nothing in
    /// the queue change nothing.
    pub open spec fn after(self, event: Event<F>) -> PoolState<F> {
        match event {
            Event::Spawn(computation) => if self.spawn_error() is None {
                self.spawned(computation)
            } else {
                self
            },
            Event::Wake(id) => self.woken(id),
            Event::Cancel(id) => self.cancelled(id),
            Event::Poll { ready, after } => if self.queue.len() > 0 {
                self.polled(ready, after)
            } else {
                self
            },
            Event::Shutdown => self.shut_down(),
        }
    }

    /// The books after the events of `events`, one after the other.
    pub open spec fn after_all(self, events: Seq<Event<F>>) -> PoolState<F>
        decreases events.len(),
    {
        if events.len() == 0 {
            self
        } else {
            self.after(events[0]).after_all(events.drop_first())
        }
    }
}

/// A task: a computation together with its local storage. Its identity, which
/// is also that of its wakeup handle, is the key under which the pool holds it.
struct Task<F: Future> {
    future: F,
    locals: LocalMap<F::Local>,
}

/// A single-threaded pool of tasks.
///
/// The pool polls no task on its own: [`turn`](Self::turn) polls the task that
/// has waited longest. A wakeup handle is invoked by handing it to
/// [`wake`](Self::wake).
pub struct LocalPool<F: Future> {
    tasks: HashMap<u64, Task<F>>,
    queue: Vec<u64>,
    next_id: u64,
    capacity: usize,
    open: bool,
}

impl<F: Future> View for LocalPool<F> {
    type V = PoolState<F>;

    closed spec fn view(&self) -> PoolState<F> {
        PoolState {
            tasks: Map::new(
                |id: u64| self.tasks@.contains_key(id),
                |id: u64|
                    TaskState {
                        computation: self.tasks@[id].future,
                        locals: self.tasks@[id].locals@,
                    },
            ),
            queue: self.queue@,
            next_id: self.next_id as nat,
            capacity: self.capacity as nat,
            open: self.open,
        }
    }
}

/// Where `id` stands in `queue`, if it does.
fn position(queue: &Vec<u64>, id: u64) -> (at: Option<usize>)
    ensures
        match at {
            Some(i) => i < queue@.len() && queue@[i as int] == id,
            None => !queue@.contains(id),
        },
{
    let mut i: usize = 0;
    while i < queue.len()
        invariant
            i <= queue@.len(),
            forall|j: int| 0 <= j < i ==> queue@[j] != id,
        decreases queue@.len() - i,
    {
        if queue[i] == id {
            return Some(i);
        }
        i = i + 1;
    }
    None
}

impl<F: Future> LocalPool<F> {
    /// Whether the books of the pool are in order and every task in them may
    /// be polled. Every operation keeps it so.
    pub open spec fn wf(&self) -> bool {
        self@.wf() && self@.all_pollable()
    }

    /// An open pool without tasks, with room for `capacity` of them.
    pub fn new(capacity: usize) -> (pool: LocalPool<F>)
        ensures
            pool.wf(),
            pool@ == PoolState::<F>::fresh(capacity as nat),
    {
        let pool = LocalPool {
            tasks: HashMap::new(),
            queue: Vec::new(),
            next_id: 0,
            capacity,
            open: true,
        };
        assert(pool@.tasks =~= Map::empty());
        pool
    }

    /// Why the pool would turn a computation away now, if it would.
    fn refusal(&self) -> (error: Option<SpawnError>)
        requires
            self.wf(),
        ensures
            error == self@.spawn_error(),
    {
        proof {
            assert(self@.tasks.dom() =~= self.tasks@.dom());
        }
        if !self.open {
            Some(SpawnError::shutdown())
        } else if self.tasks.len() >= self.capacity || self.next_id == u64::MAX {
            Some(SpawnError::at_capacity())
        } else {
            None
        }
    }

    /// Invokes `waker`: its task will be polled again.
    ///
    /// A live task that does not wait for a poll yet joins the end of the
    /// queue. If the task waits already, nothing changes: however often it is
    /// woken, it is polled once. If the task is not alive any more, because its
    /// computation is ready or it was cancelled, nothing happens at all.
    pub fn wake(&mut self, waker: &Waker)
        requires
            old(self).wf(),
        ensures
            final(self).wf(),
            final(self)@ == old(self)@.woken(waker.task),
    {
        if self.tasks.contains_key(&waker.task) {
            if position(&self.queue, waker.task).is_none() {
                self.queue.push(waker.task);
            }
        }
        proof {
            lemma_event_keeps_wf(old(self)@, Event::Wake(waker.task));
            lemma_event_keeps_pollable(old(self)@, Event::Wake(waker.task));
        }
    }

    /// Cancels the task `id`, and says whether there was such a task.
    ///
    /// The computation and the local storage are dropped and the task will not
    /// be polled again.
    pub fn cancel(&mut self, id: u64) -> (was_live: bool)
        requires
            old(self).wf(),
        ensures
            final(self).wf(),
            was_live == old(self)@.is_live(id),
            final(self)@ == old(self)@.cancelled(id),
    {
        match self.tasks.remove(&id) {
            None => {
                proof {
                    assert(self.tasks@ =~= old(self).tasks@);
                    assert(self@.tasks =~= old(self)@.tasks);
                }
                false
            },
            Some(_) => {
                let ghost queue = old(self)@.queue;
                match position(&self.queue, id) {
                    Some(at) => {
                        proof {
                            assert(queue.contains(id));
                            assert(queue[queue.index_of(id)] == id);
                        }
                        self.queue.remove(at);
                    },
                    None => {},
                }
                proof {
                    assert(self@.tasks =~= old(self)@.cancelled(id).tasks);
                    lemma_event_keeps_wf(old(self)@, Event::Cancel(id));
                    lemma_event_keeps_pollable(old(self)@, Event::Cancel(id));
                }
                true
            },
        }
    }

    /// Shuts the pool down: from now on every spawn fails. The tasks that the
    /// pool holds are kept and can still be woken and polled.
    pub fn shutdown(&mut self)
        requires
            old(self).wf(),
        ensures
            final(self).wf(),
            final(self)@ == old(self)@.shut_down(),
    {
        self.open = false;
        proof {
            lemma_event_keeps_wf(old(self)@, Event::Shutdown);
            lemma_event_keeps_pollable(old(self)@, Event::Shutdown);
        }
    }

    /// Polls the task that has waited longest, if any task waits.
    ///
    /// The computation is handed a fresh context that holds the task's own
    /// wakeup handle and the task's own local storage. The result is the
    /// identity of the task and what its computation returned. After `Ready`
    /// the task is destroyed, local storage included, and its handle is
    /// retired. After `Pending` the task stays, as the poll left it, and is
    /// polled again once it has been woken.
    pub fn turn(&mut self) -> (polled: Option<(u64, Async<F::Item>)>)
        requires
            old(self).wf(),
        ensures
            final(self).wf(),
            match polled {
                None => old(self)@.queue.len() == 0 && final(self)@ == old(self)@,
                Some((id, outcome)) => old(self)@.queue.len() > 0 && id == old(self)@.queue[0]
                    && exists|after: TaskState<F>| #[trigger]
                    old(self)@.may_poll(outcome, after) && final(self)@ == old(self)@.polled(
                        outcome is Ready,
                        after,
                    ),
            },
    {
        if self.queue.len() == 0 {
            return None;
        }
        let id: u64 = self.queue.remove(0);
        assert(old(self)@.is_live(id));
        let removed = self.tasks.remove(&id);
        let mut task = removed.unwrap();
        let waker = Waker::new(id);
        let ghost before = TaskState { computation: task.future, locals: task.locals@ };
        assert(before == old(self)@.tasks[id]);
        let outcome = {
            let mut cx = Context::new(&mut task.locals, &waker);
            task.future.poll(&mut cx)
        };
        let ghost after = TaskState { computation: task.future, locals: task.locals@ };
        assert(old(self)@.may_poll(outcome, after));
        match outcome {
            Async::Ready(value) => {
                proof {
                    assert(self@.tasks =~= old(self)@.tasks.remove(id));
                    lemma_event_keeps_wf(old(self)@, Event::Poll { ready: true, after });
                    lemma_event_keeps_pollable(old(self)@, Event::Poll { ready: true, after });
                }
                Some((id, Async::Ready(value)))
            },
            Async::Pending => {
                self.tasks.insert(id, task);
                proof {
                    assert(self@.tasks =~= old(self)@.tasks.insert(id, after));
                    lemma_event_keeps_wf(old(self)@, Event::Poll { ready: false, after });
                    lemma_event_keeps_pollable(
                        old(self)@,
                        Event::Poll { ready: false, after },
                    );
                }
                Some((id, Async::Pending))
            },
        }
    }

    /// Polls the waiting tasks in turn until none waits any more, and returns
    /// what the computations that finished produced, each with the identity of
    /// its task, in the order in which they finished.
    ///
    /// Exactly the tasks that waited at the start are polled, each once, first
    /// woken first. Those that finished are gone and are the ones in the
    /// result; all others are still alive, and a task that did not wait is
    /// untouched.
    pub fn run_until_stalled(&mut self) -> (finished: Vec<(u64, F::Item)>)
        requires
            old(self).wf(),
        ensures
            final(self).wf(),
            exists|polls: Seq<(Async<F::Item>, TaskState<F>)>|
                {
                    &&& polls.len() == old(self)@.queue.len()
                    &&& #[trigger] old(self)@.may_poll_in_turn(polls)
                    &&& final(self)@ == old(self)@.polled_in_turn(polls)
                    &&& finished@ == old(self)@.harvest(polls)
                },
            final(self)@.queue.len() == 0,
            final(self)@.next_id == old(self)@.next_id,
            final(self)@.capacity == old(self)@.capacity,
            final(self)@.open == old(self)@.open,
            forall|id: u64| #[trigger]
                final(self)@.is_live(id) ==> old(self)@.is_live(id),
            forall|i: int|
                0 <= i < finished@.len() ==> old(self)@.queue.contains((#[trigger] finished@[i]).0)
                    && !final(self)@.is_live(finished@[i].0),
            forall|id: u64|
                old(self)@.is_live(id) && !(#[trigger] final(self)@.is_live(id)) ==> exists|i: int|
                    0 <= i < finished@.len() && (#[trigger] finished@[i]).0 == id,
            forall|id: u64|
                old(self)@.is_live(id) && !old(self)@.queue.contains(id) ==> (
                #[trigger] final(self)@.is_live(id)) && final(self)@.tasks[id] == old(
                    self,
                )@.tasks[id],
    {
        let mut finished: Vec<(u64, F::Item)> = Vec::new();
        let ghost start = self@;
        let ghost mut polls: Seq<(Async<F::Item>, TaskState<F>)> = Seq::empty();
        while self.queue.len() > 0
            invariant
                start.wf(),
                self.wf(),
                0 <= polls.len() <= start.queue.len(),
                start.may_poll_in_turn(polls),
                self@ == start.polled_in_turn(polls),
                finished@ == start.harvest(polls),
                self@.queue == start.queue.subrange(polls.len() as int, start.queue.len() as int),
                self@.next_id == start.next_id,
                self@.capacity == start.capacity,
                self@.open == start.open,
                forall|id: u64| #[trigger] self@.is_live(id) ==> start.is_live(id),
                forall|i: int|
                    0 <= i < finished@.len() ==> start.queue.contains((#[trigger] finished@[i]).0)
                        && !self@.is_live(finished@[i].0),
                forall|id: u64|
                    start.is_live(id) && !(#[trigger] self@.is_live(id)) ==> exists|i: int|
                        0 <= i < finished@.len() && (#[trigger] finished@[i]).0 == id,
                forall|id: u64|
                    start.is_live(id) && !start.queue.subrange(0, polls.len() as int).contains(id)
                        ==> (#[trigger] self@.is_live(id)) && self@.tasks[id] == start.tasks[id],
            decreases self@.queue.len(),
        {
            let ghost before = self@;
            let ghost earlier = finished@;
            let ghost polled = polls.len() as int;
            let ghost head = start.queue[polled];
            assert(before.queue[0] == head);
            assert(before.is_live(head));
            let turned = self.turn();
            proof {
                let outcome = turned.unwrap().1;
                let after = choose|after: TaskState<F>| #[trigger]
                    before.may_poll(outcome, after) && self@ == before.polled(
                        outcome is Ready,
                        after,
                    );
                let longer = polls.push((outcome, after));
                assert(longer.drop_last() =~= polls);
                assert(longer.last() == (outcome, after));
                polls = longer;
                assert(start.queue.subrange(0, polled + 1)[polled] == head);
                assert(self@.queue =~= start.queue.subrange(polled + 1, start.queue.len() as int));
                assert forall|other: u64| #[trigger] self@.is_live(other) implies start.is_live(
                    other,
                ) by {
                    if other != head {
                        assert(before.is_live(other));
                    }
                }
                assert forall|other: u64|
                    start.is_live(other) && !start.queue.subrange(0, polled + 1).contains(
                        other,
                    ) implies (#[trigger] self@.is_live(other)) && self@.tasks[other]
                    == start.tasks[other] by {
                    assert(other != head);
                    if start.queue.subrange(0, polled).contains(other) {
                        let j = start.queue.subrange(0, polled).index_of(other);
                        assert(start.queue.subrange(0, polled + 1)[j] == other);
                    }
                    assert(before.is_live(other));
                }
            }
            match turned {
                Some((id, Async::Ready(item))) => {
                    finished.push((id, item));
                    proof {
                        let last = finished@.len() - 1;
                        assert(finished@[last].0 == head);
                        assert forall|i: int| 0 <= i < finished@.len() implies start.queue.contains(
                            (#[trigger] finished@[i]).0,
                        ) && !self@.is_live(finished@[i].0) by {
                            if i < last {
                                assert(finished@[i] == earlier[i]);
                                assert(!before.is_live(earlier[i].0));
                            }
                        }
                        assert forall|other: u64|
                            start.is_live(other) && !(#[trigger] self@.is_live(
                                other,
                            )) implies exists|i: int|
                            0 <= i < finished@.len() && (#[trigger] finished@[i]).0 == other by {
                            if other != head {
                                assert(!before.is_live(other));
                                let i = choose|i: int|
                                    0 <= i < earlier.len() && (#[trigger] earlier[i]).0 == other;
                                assert(finished@[i].0 == other);
                            }
                        }
                    }
                },
                _ => {
                    proof {
                        assert forall|i: int| 0 <= i < finished@.len() implies start.queue.contains(
                            (#[trigger] finished@[i]).0,
                        ) && !self@.is_live(finished@[i].0) by {
                            assert(!before.is_live(earlier[i].0));
                        }
                        assert forall|other: u64|
                            start.is_live(other) && !(#[trigger] self@.is_live(
                                other,
                            )) implies exists|i: int|
                            0 <= i < finished@.len() && (#[trigger] finished@[i]).0 == other by {
                            assert(!before.is_live(other));
                        }
                    }
                },
            }
        }
        proof {
            assert(start.queue.subrange(0, polls.len() as int) =~= start.queue);
        }
        finished
    }

    /// The number of live tasks.
    pub fn len(&self) -> (n: usize)
        requires
            self.wf(),
        ensures
            n == self@.tasks.len(),
    {
        assert(self@.tasks.dom() =~= self.tasks@.dom());
        self.tasks.len()
    }

    /// The number of tasks that wait for a poll.
    pub fn waiting(&self) -> (n: usize)
        ensures
            n == self@.queue.len(),
    {
        self.queue.len()
    }

    /// Whether the task `id` is alive.
    pub fn is_live(&self, id: u64) -> (live: bool)
        ensures
            live == self@.is_live(id),
    {
        self.tasks.contains_key(&id)
    }
}

impl<F: Future> Executor<F> for LocalPool<F> {
    open spec fn in_order(&self) -> bool {
        self.wf()
    }

    /// Submits a computation.
    ///
    /// If the pool accepts it, a task is made for it, with empty local storage
    /// and an identity that no task of this pool has had before, and waits for
    /// its first poll. If not, the books stay as they are and the computation
    /// is dropped without ever having been polled.
    fn spawn(&mut self, future: F) -> (spawned: Result<(), SpawnError>)
        ensures
            match old(self)@.spawn_error() {
                Some(error) => spawned == Err::<(), SpawnError>(error) && final(self)@ == old(
                    self,
                )@,
                None => spawned is Ok && final(self)@ == old(self)@.spawned(future),
            },
    {
        match self.refusal() {
            Some(error) => Err(error),
            None => {
                let id: u64 = self.next_id;
                self.tasks.insert(id, Task { future, locals: local_map() });
                self.queue.push(id);
                self.next_id = id + 1;
                proof {
                    assert(self@.tasks =~= old(self)@.spawned(future).tasks);
                    lemma_event_keeps_wf(old(self)@, Event::Spawn(future));
                    lemma_event_keeps_pollable(old(self)@, Event::Spawn(future));
                }
                Ok(())
            },
        }
    }

    /// Whether the pool would accept a computation now, and if not, why not.
    fn status(&self) -> (status: Result<(), SpawnError>)
        ensures
            match self@.spawn_error() {
                Some(error) => status == Err::<(), SpawnError>(error),
                None => status is Ok,
            },
    {
        match self.refusal() {
            Some(error) => Err(error),
            None => Ok(()),
        }
    }
}

/// A spawn that succeeds keeps the books in order.
proof fn lemma_spawned_wf<F: Future>(before: PoolState<F>, computation: F)
    requires
        before.wf(),
        before.spawn_error() is None,
    ensures
        before.spawned(computation).wf(),
{
    let after = before.spawned(computation);
    let id = before.next_id as u64;
    assert(!before.is_live(id));
    assert(after.tasks.dom() =~= before.tasks.dom().insert(id));
    assert(after.tasks.len() == before.tasks.len() + 1);
    assert forall|t: u64| #[trigger] after.is_live(t) implies t < after.next_id by {
        if t != id {
            assert(before.is_live(t));
        }
    }
    assert forall|i: int| 0 <= i < before.queue.len() implies before.queue[i] != id by {
        assert(before.is_live(before.queue[i]));
    }
    assert forall|i: int| 0 <= i < after.queue.len() implies after.is_live(
        #[trigger] after.queue[i],
    ) by {
        if i < before.queue.len() {
            assert(before.is_live(before.queue[i]));
        }
    }
}

/// A wakeup keeps the books in order.
proof fn lemma_woken_wf<F: Future>(before: PoolState<F>, id: u64)
    requires
        before.wf(),
    ensures
        before.woken(id).wf(),
{
    let after = before.woken(id);
    assert forall|t: u64| #[trigger] after.is_live(t) implies t < after.next_id by {
        assert(before.is_live(t));
    }
    if before.is_live(id) && !before.queue.contains(id) {
        assert forall|i: int| 0 <= i < before.queue.len() implies before.queue[i] != id by {
            assert(before.queue.contains(before.queue[i]));
        }
        assert forall|i: int| 0 <= i < after.queue.len() implies after.is_live(
            #[trigger] after.queue[i],
        ) by {
            if i < before.queue.len() {
                assert(before.is_live(before.queue[i]));
            }
        }
    }
}

/// A cancellation keeps the books in order.
proof fn lemma_cancelled_wf<F: Future>(before: PoolState<F>, id: u64)
    requires
        before.wf(),
    ensures
        before.cancelled(id).wf(),
{
    let after = before.cancelled(id);
    assert forall|t: u64| #[trigger] after.is_live(t) implies t < after.next_id by {
        assert(before.is_live(t));
    }
    if before.is_live(id) {
        assert(after.tasks.dom() =~= before.tasks.dom().remove(id));
        assert(after.tasks.len() == before.tasks.len() - 1);
        if before.queue.contains(id) {
            let at = before.queue.index_of(id);
            before.queue.remove_ensures(at);
            assert forall|i: int| 0 <= i < after.queue.len() implies after.is_live(
                #[trigger] after.queue[i],
            ) by {
                if i < at {
                    assert(before.is_live(before.queue[i]));
                    assert(before.queue[i] != before.queue[at]);
                } else {
                    assert(before.is_live(before.queue[i + 1]));
                    assert(before.queue[i + 1] != before.queue[at]);
                }
            }
            assert forall|i: int, j: int|
                0 <= i < after.queue.len() && 0 <= j < after.queue.len() && i
                    != j implies after.queue[i] != after.queue[j] by {
                let bi = if i < at {
                    i
                } else {
                    i + 1
                };
                let bj = if j < at {
                    j
                } else {
                    j + 1
                };
                assert(after.queue[i] == before.queue[bi]);
                assert(after.queue[j] == before.queue[bj]);
            }
        } else {
            assert forall|i: int| 0 <= i < after.queue.len() implies after.is_live(
                #[trigger] after.queue[i],
            ) by {
                assert(before.is_live(before.queue[i]));
                assert(before.queue.contains(before.queue[i]));
            }
        }
    }
}

/// A poll keeps the books in order.
proof fn lemma_polled_wf<F: Future>(before: PoolState<F>, ready: bool, left: TaskState<F>)
    requires
        before.wf(),
        before.queue.len() > 0,
    ensures
        before.polled(ready, left).wf(),
{
    let after = before.polled(ready, left);
    let id = before.queue[0];
    assert(before.is_live(id));
    assert forall|t: u64| #[trigger] after.is_live(t) implies t < after.next_id by {
        assert(before.is_live(t));
    }
    assert forall|i: int| 0 <= i < after.queue.len() implies after.is_live(
        #[trigger] after.queue[i],
    ) by {
        assert(before.is_live(before.queue[i + 1]));
    }
    assert forall|i: int, j: int|
        0 <= i < after.queue.len() && 0 <= j < after.queue.len() && i != j implies after.queue[i]
        != after.queue[j] by {
        assert(after.queue[i] == before.queue[i + 1]);
        assert(after.queue[j] == before.queue[j + 1]);
    }
    if ready {
        assert(after.tasks.dom() =~= before.tasks.dom().remove(id));
        assert(after.tasks.len() == before.tasks.len() - 1);
    } else {
        assert(after.tasks.dom() =~= before.tasks.dom());
    }
}

/// Whatever happens to a pool, its books stay in order.
pub proof fn lemma_event_keeps_wf<F: Future>(before: PoolState<F>, event: Event<F>)
    requires
        before.wf(),
    ensures
        before.after(event).wf(),
{
    match event {
        Event::Spawn(computation) => {
            if before.spawn_error() is None {
                lemma_spawned_wf(before, computation);
            }
        },
        Event::Wake(id) => {
            lemma_woken_wf(before, id);
        },
        Event::Cancel(id) => {
            lemma_cancelled_wf(before, id);
        },
        Event::Poll { ready, after } => {
            if before.queue.len() > 0 {
                lemma_polled_wf(before, ready, after);
            }
        },
        Event::Shutdown => {
            assert forall|t: u64| #[trigger] before.shut_down().is_live(t) implies t
                < before.shut_down().next_id by {
                assert(before.is_live(t));
            }
        },
    }
}

/// Whatever happens to a pool, every task in its books may be polled, as long
/// as no computation comes in that may not.
pub proof fn lemma_event_keeps_pollable<F: Future>(before: PoolState<F>, event: Event<F>)
    requires
        before.all_pollable(),
        before.admits(event),
    ensures
        before.after(event).all_pollable(),
{
    let after = before.after(event);
    let fresh: Option<u64> = match event {
        Event::Spawn(_) => Some(before.next_id as u64),
        Event::Poll { .. } if before.queue.len() > 0 => Some(before.queue[0]),
        _ => None,
    };
    assert forall|id: u64| #[trigger]
        after.is_live(id) implies after.tasks[id].computation.pollable() by {
        if fresh != Some(id) {
            assert(before.is_live(id));
        }
    }
}

/// In a sequence without duplicates, an element stands where it is found.
proof fn lemma_found_at(queue: Seq<u64>, at: int, id: u64)
    requires
        queue.no_duplicates(),
        0 <= at < queue.len(),
        queue[at] == id,
    ensures
        queue.contains(id),
        queue.index_of(id) == at,
{
}

/// A task that waits for a poll gets it.
///
/// Whatever happens to the pool, short of the task being cancelled, a waiting
/// task never falls back in the queue, and every poll brings it one place
/// forward, until it is at the head and is polled itself.
pub proof fn lemma_waiting_task_advances<F: Future>(
    before: PoolState<F>,
    id: u64,
    event: Event<F>,
)
    requires
        before.wf(),
        before.queue.contains(id),
        !(event matches Event::Cancel(cancelled) && cancelled == id),
    ensures
        ({
            let after = before.after(event);
            let at = before.queue.index_of(id);
            if event is Poll && at == 0 {
                !after.queue.contains(id)
            } else {
                &&& after.queue.contains(id)
                &&& after.queue.index_of(id) <= at
                &&& event is Poll ==> after.queue.index_of(id) == at - 1
            }
        }),
{
    let after = before.after(event);
    let at = before.queue.index_of(id);
    lemma_event_keeps_wf(before, event);
    match event {
        Event::Cancel(cancelled) => {
            if before.is_live(cancelled) && before.queue.contains(cancelled) {
                let gone = before.queue.index_of(cancelled);
                before.queue.remove_ensures(gone);
                if at < gone {
                    lemma_found_at(after.queue, at, id);
                } else {
                    lemma_found_at(after.queue, at - 1, id);
                }
            } else {
                lemma_found_at(after.queue, at, id);
            }
        },
        Event::Poll { ready, after: left } => {
            if at == 0 {
                if after.queue.contains(id) {
                    let again = after.queue.index_of(id);
                    assert(before.queue[again + 1] == id);
                }
            } else {
                assert(after.queue[at - 1] == before.queue[at]);
                lemma_found_at(after.queue, at - 1, id);
            }
        },
        _ => {
            assert(after.queue[at] == id);
            lemma_found_at(after.queue, at, id);
        },
    }
}

/// A retired handle is inert for good.
///
/// Once the task of a handle has finished or been cancelled, nothing that
/// happens to the pool afterwards, spawns included, brings a task with that
/// identity to life again. Invoking the handle, or any copy of it, at any
/// later time changes nothing, and the task is never polled again, since only
/// live tasks wait for a poll.
pub proof fn lemma_retired_handle_is_inert<F: Future>(
    before: PoolState<F>,
    id: u64,
    events: Seq<Event<F>>,
)
    requires
        before.wf(),
        before.is_retired(id),
    ensures
        before.after_all(events).wf(),
        before.after_all(events).is_retired(id),
        before.after_all(events).woken(id) == before.after_all(events),
        !before.after_all(events).queue.contains(id),
    decreases events.len(),
{
    if events.len() > 0 {
        lemma_event_keeps_wf(before, events[0]);
        lemma_retired_handle_is_inert(before.after(events[0]), id, events.drop_first());
    } else {
        if before.queue.contains(id) {
            let at = before.queue.index_of(id);
            assert(before.is_live(before.queue[at]));
        }
    }
}

/// A task leaves the books the moment its computation is ready or it is
/// cancelled: from then on its handle is retired.
pub proof fn lemma_finished_task_is_retired<F: Future>(
    before: PoolState<F>,
    id: u64,
    left: TaskState<F>,
)
    requires
        before.wf(),
        before.is_live(id),
    ensures
        before.cancelled(id).is_retired(id),
        before.queue.len() > 0 && before.queue[0] == id ==> before.polled(true, left).is_retired(
            id,
        ),
{
}

} // verus!
