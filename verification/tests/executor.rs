use std::cell::{Cell, RefCell};
use std::rc::Rc;
use std::sync::{Arc, Mutex};

use futures_core::executor::{Executor, LocalPool, SpawnError, SpawnErrorKind};
use futures_core::task::atomic_waker::AtomicWaker;
use futures_core::task::{Context, KeyRegistry, LocalKey, Waker};
use futures_core::future::{ready, Ready};
use futures_core::{Async, Future};

fn zero() -> u64 {
    0
}

/// Not ready on its first poll, when it leaves its handle in a mailbox; ready
/// with 42 once `done` has been set.
struct Delayed {
    mailbox: Rc<RefCell<AtomicWaker>>,
    done: Rc<Cell<bool>>,
    polls: Rc<Cell<u32>>,
}

impl Future for Delayed {
    type Item = i32;
    type Local = u64;

    fn poll(&mut self, cx: &mut Context<u64>) -> Async<i32> {
        self.polls.set(self.polls.get() + 1);
        if self.done.get() {
            Async::Ready(42)
        } else {
            let owed = self.mailbox.borrow_mut().register(*cx.waker());
            assert_eq!(owed, None);
            Async::Pending
        }
    }
}

/// Adds one to a task-local counter on every poll and is ready with the
/// counter once it has been polled `polls` times.
struct Counting<'k> {
    key: &'k LocalKey<u64, fn() -> u64>,
    polls: u32,
    seen: Rc<RefCell<Vec<(u64, u64)>>>,
}

impl<'k> Future for Counting<'k> {
    type Item = u64;
    type Local = u64;

    fn poll(&mut self, cx: &mut Context<u64>) -> Async<u64> {
        let task = cx.waker().task_id();
        let slot = self.key.get_mut(cx);
        *slot += 1;
        let now = *slot;
        self.seen.borrow_mut().push((task, now));
        self.polls -= 1;
        if self.polls == 0 {
            Async::Ready(now)
        } else {
            Async::Pending
        }
    }
}

/// Ready at once with its own number; counts how often it is polled.
struct Immediate {
    number: u32,
    polls: Rc<Cell<u32>>,
}

impl Future for Immediate {
    type Item = u32;
    type Local = u64;

    fn poll(&mut self, _cx: &mut Context<u64>) -> Async<u32> {
        self.polls.set(self.polls.get() + 1);
        Async::Ready(self.number)
    }
}

/// Never ready.
struct Stuck {
    polls: Rc<Cell<u32>>,
}

impl Future for Stuck {
    type Item = ();
    type Local = u64;

    fn poll(&mut self, _cx: &mut Context<u64>) -> Async<()> {
        self.polls.set(self.polls.get() + 1);
        Async::Pending
    }
}

struct Counted {
    drops: Arc<Mutex<u32>>,
}

impl Drop for Counted {
    fn drop(&mut self) {
        *self.drops.lock().unwrap() += 1;
    }
}

/// Fills three slots of its local storage on the first poll; ready on the
/// second.
struct Hoarder<'k> {
    keys: &'k [LocalKey<Counted, Box<dyn Fn() -> Counted>>],
    polled: bool,
}

impl<'k> Future for Hoarder<'k> {
    type Item = ();
    type Local = Counted;

    fn poll(&mut self, cx: &mut Context<Counted>) -> Async<()> {
        for key in self.keys {
            key.get_mut(cx);
        }
        if self.polled {
            Async::Ready(())
        } else {
            self.polled = true;
            Async::Pending
        }
    }
}

#[test]
fn a_pending_task_is_polled_again_after_its_handle_is_fired() {
    let mailbox = Rc::new(RefCell::new(AtomicWaker::new()));
    let done = Rc::new(Cell::new(false));
    let polls = Rc::new(Cell::new(0));
    let mut pool = LocalPool::new(4);
    let spawned = pool.spawn(Delayed {
        mailbox: mailbox.clone(),
        done: done.clone(),
        polls: polls.clone(),
    });
    assert_eq!(spawned, Ok(()));
    assert_eq!(polls.get(), 0);

    assert_eq!(pool.turn(), Some((0, Async::Pending)));
    assert_eq!(polls.get(), 1);
    assert!(pool.is_live(0));
    assert_eq!(pool.waiting(), 0);
    assert_eq!(pool.turn(), None);
    assert_eq!(polls.get(), 1);

    // Elsewhere and later, the condition comes true and the mailbox is fired.
    done.set(true);
    let handle = mailbox.borrow_mut().fire();
    assert_eq!(handle, Some(Waker::new(0)));
    pool.wake(&handle.unwrap());
    assert_eq!(pool.waiting(), 1);

    assert_eq!(pool.turn(), Some((0, Async::Ready(42))));
    assert_eq!(polls.get(), 2);
    assert!(!pool.is_live(0));
    assert_eq!(pool.len(), 0);
    assert_eq!(pool.turn(), None);
}

#[test]
fn local_state_persists_across_polls_and_is_isolated_per_task() {
    let mut registry = KeyRegistry::new();
    let key = registry.declare(zero as fn() -> u64).unwrap();
    let seen = Rc::new(RefCell::new(Vec::new()));
    let mut pool = LocalPool::new(4);
    assert_eq!(pool.spawn(Counting { key: &key, polls: 2, seen: seen.clone() }), Ok(()));

    // First poll: the slot starts at 0, so adding one and reading gives 1.
    assert_eq!(pool.turn(), Some((0, Async::Pending)));
    assert_eq!(*seen.borrow(), vec![(0, 1)]);

    // A later poll of the same task goes on from there.
    pool.wake(&Waker::new(0));
    assert_eq!(pool.turn(), Some((0, Async::Ready(2))));
    assert_eq!(*seen.borrow(), vec![(0, 1), (0, 2)]);

    // Another task with the same key starts at 0 again.
    assert_eq!(pool.spawn(Counting { key: &key, polls: 1, seen: seen.clone() }), Ok(()));
    assert_eq!(pool.turn(), Some((1, Async::Ready(1))));
    assert_eq!(*seen.borrow(), vec![(0, 1), (0, 2), (1, 1)]);
}

#[test]
fn tasks_that_live_side_by_side_do_not_share_local_state() {
    let mut registry = KeyRegistry::new();
    let key = registry.declare(zero as fn() -> u64).unwrap();
    let seen = Rc::new(RefCell::new(Vec::new()));
    let mut pool = LocalPool::new(4);
    assert_eq!(pool.spawn(Counting { key: &key, polls: 3, seen: seen.clone() }), Ok(()));
    assert_eq!(pool.spawn(Counting { key: &key, polls: 2, seen: seen.clone() }), Ok(()));
    assert_eq!(pool.turn(), Some((0, Async::Pending)));
    assert_eq!(pool.turn(), Some((1, Async::Pending)));
    pool.wake(&Waker::new(1));
    pool.wake(&Waker::new(0));
    assert_eq!(pool.turn(), Some((1, Async::Ready(2))));
    assert_eq!(pool.turn(), Some((0, Async::Pending)));
    pool.wake(&Waker::new(0));
    assert_eq!(pool.turn(), Some((0, Async::Ready(3))));
    assert_eq!(
        *seen.borrow(),
        vec![(0, 1), (1, 1), (1, 2), (0, 2), (0, 3)]
    );
}

#[test]
fn spawn_on_a_pool_that_was_shut_down_fails_and_polls_nothing() {
    let polls = Rc::new(Cell::new(0));
    let mut pool = LocalPool::new(4);
    assert_eq!(pool.status(), Ok(()));
    pool.shutdown();
    assert_eq!(pool.status(), Err(SpawnError::shutdown()));
    let spawned = pool.spawn(Immediate { number: 1, polls: polls.clone() });
    assert_eq!(spawned, Err(SpawnError::shutdown()));
    assert!(spawned.unwrap_err().is_shutdown());
    assert!(!spawned.unwrap_err().is_at_capacity());
    assert_eq!(pool.len(), 0);
    assert_eq!(pool.waiting(), 0);
    assert_eq!(pool.turn(), None);
    assert_eq!(polls.get(), 0);
    // The computation was dropped: nobody else holds the counter any more.
    assert_eq!(Rc::strong_count(&polls), 1);
}

#[test]
fn shutdown_keeps_the_tasks_that_are_there() {
    let polls = Rc::new(Cell::new(0));
    let mut pool = LocalPool::new(4);
    assert_eq!(pool.spawn(Immediate { number: 5, polls: polls.clone() }), Ok(()));
    pool.shutdown();
    assert!(pool.is_live(0));
    assert_eq!(pool.turn(), Some((0, Async::Ready(5))));
    assert_eq!(polls.get(), 1);
}

#[test]
fn a_full_pool_turns_a_spawn_away_until_a_task_is_gone() {
    let polls = Rc::new(Cell::new(0));
    let mut pool = LocalPool::new(2);
    assert_eq!(pool.spawn(Immediate { number: 1, polls: polls.clone() }), Ok(()));
    assert_eq!(pool.spawn(Immediate { number: 2, polls: polls.clone() }), Ok(()));
    assert_eq!(pool.status(), Err(SpawnError::at_capacity()));
    let refused = pool.spawn(Immediate { number: 3, polls: polls.clone() });
    assert_eq!(refused, Err(SpawnError { kind: SpawnErrorKind::AtCapacity }));
    assert!(refused.unwrap_err().is_at_capacity());
    assert!(!refused.unwrap_err().is_shutdown());
    assert_eq!(pool.len(), 2);
    assert_eq!(polls.get(), 0);

    assert_eq!(pool.turn(), Some((0, Async::Ready(1))));
    assert_eq!(pool.status(), Ok(()));
    assert_eq!(pool.spawn(Immediate { number: 4, polls: polls.clone() }), Ok(()));
    assert_eq!(pool.turn(), Some((1, Async::Ready(2))));
    // Identities are not used again: the new task is 2, not 0.
    assert_eq!(pool.turn(), Some((2, Async::Ready(4))));
    assert_eq!(polls.get(), 3);
}

#[test]
fn a_pool_without_room_accepts_nothing() {
    let polls = Rc::new(Cell::new(0));
    let mut pool = LocalPool::new(0);
    assert_eq!(
        pool.spawn(Stuck { polls: polls.clone() }),
        Err(SpawnError::at_capacity())
    );
    pool.shutdown();
    assert_eq!(
        pool.spawn(Stuck { polls: polls.clone() }),
        Err(SpawnError::shutdown())
    );
    assert_eq!(polls.get(), 0);
}

#[test]
fn waking_a_finished_task_does_nothing() {
    let polls = Rc::new(Cell::new(0));
    let mut pool = LocalPool::new(4);
    assert_eq!(pool.spawn(Immediate { number: 7, polls: polls.clone() }), Ok(()));
    let handle = Waker::new(0);
    let copy = handle;
    assert_eq!(pool.turn(), Some((0, Async::Ready(7))));
    for _ in 0..3 {
        pool.wake(&handle);
        pool.wake(&copy);
        assert_eq!(pool.waiting(), 0);
        assert_eq!(pool.len(), 0);
        assert!(!pool.is_live(0));
        assert_eq!(pool.turn(), None);
    }
    assert_eq!(polls.get(), 1);
}

#[test]
fn waking_a_cancelled_task_does_nothing() {
    let polls = Rc::new(Cell::new(0));
    let other = Rc::new(Cell::new(0));
    let mut pool = LocalPool::new(4);
    assert_eq!(pool.spawn(Stuck { polls: polls.clone() }), Ok(()));
    assert_eq!(pool.spawn(Stuck { polls: other.clone() }), Ok(()));
    assert_eq!(pool.turn(), Some((0, Async::Pending)));
    pool.wake(&Waker::new(0));
    assert_eq!(pool.waiting(), 2);

    assert!(pool.cancel(0));
    assert!(!pool.cancel(0));
    assert!(!pool.is_live(0));
    assert_eq!(pool.len(), 1);
    assert_eq!(pool.waiting(), 1);
    assert_eq!(Rc::strong_count(&polls), 1);

    pool.wake(&Waker::new(0));
    assert_eq!(pool.waiting(), 1);
    assert_eq!(pool.turn(), Some((1, Async::Pending)));
    pool.wake(&Waker::new(0));
    assert_eq!(pool.turn(), None);
    assert_eq!(polls.get(), 1);
    assert_eq!(other.get(), 1);

    // A task that is spawned later does not inherit the retired handle.
    assert_eq!(pool.spawn(Stuck { polls: other.clone() }), Ok(()));
    assert!(!pool.is_live(0));
    assert!(pool.is_live(2));
}

#[test]
fn waking_a_task_that_never_was_does_nothing() {
    let mut pool: LocalPool<Stuck> = LocalPool::new(4);
    pool.wake(&Waker::new(0));
    pool.wake(&Waker::new(17));
    assert_eq!(pool.waiting(), 0);
    assert_eq!(pool.turn(), None);
    assert!(!pool.cancel(17));
}

#[test]
fn a_task_woken_many_times_is_polled_once() {
    let polls = Rc::new(Cell::new(0));
    let mut pool = LocalPool::new(4);
    assert_eq!(pool.spawn(Stuck { polls: polls.clone() }), Ok(()));
    pool.wake(&Waker::new(0));
    pool.wake(&Waker::new(0));
    assert_eq!(pool.waiting(), 1);
    assert_eq!(pool.turn(), Some((0, Async::Pending)));
    assert_eq!(pool.turn(), None);
    for _ in 0..5 {
        pool.wake(&Waker::new(0));
    }
    assert_eq!(pool.waiting(), 1);
    assert_eq!(pool.turn(), Some((0, Async::Pending)));
    assert_eq!(pool.turn(), None);
    assert_eq!(polls.get(), 2);
}

#[test]
fn tasks_are_polled_in_the_order_in_which_they_were_woken() {
    let polls = Rc::new(Cell::new(0));
    let mut pool = LocalPool::new(8);
    for _ in 0..4 {
        assert_eq!(pool.spawn(Stuck { polls: polls.clone() }), Ok(()));
    }
    for id in 0..4u64 {
        assert_eq!(pool.turn(), Some((id, Async::Pending)));
    }
    pool.wake(&Waker::new(2));
    pool.wake(&Waker::new(0));
    pool.wake(&Waker::new(3));
    pool.wake(&Waker::new(2));
    assert!(pool.cancel(0));
    assert_eq!(pool.turn(), Some((2, Async::Pending)));
    assert_eq!(pool.turn(), Some((3, Async::Pending)));
    assert_eq!(pool.turn(), None);
}

#[test]
fn a_task_takes_its_local_storage_with_it() {
    let drops = Arc::new(Mutex::new(0u32));
    let mut registry = KeyRegistry::new();
    let mut keys: Vec<LocalKey<Counted, Box<dyn Fn() -> Counted>>> = Vec::new();
    for _ in 0..3 {
        let counter = drops.clone();
        let init: Box<dyn Fn() -> Counted> = Box::new(move || Counted { drops: counter.clone() });
        keys.push(registry.declare(init).unwrap());
    }
    let mut pool = LocalPool::new(4);
    assert_eq!(pool.spawn(Hoarder { keys: &keys, polled: false }), Ok(()));
    assert_eq!(pool.spawn(Hoarder { keys: &keys, polled: false }), Ok(()));
    assert_eq!(pool.turn(), Some((0, Async::Pending)));
    assert_eq!(pool.turn(), Some((1, Async::Pending)));
    assert_eq!(*drops.lock().unwrap(), 0);

    // The first task finishes: its three values go, each once.
    pool.wake(&Waker::new(0));
    assert_eq!(pool.turn(), Some((0, Async::Ready(()))));
    assert_eq!(*drops.lock().unwrap(), 3);

    // The second is cancelled: so do its three.
    assert!(pool.cancel(1));
    assert_eq!(*drops.lock().unwrap(), 6);
    drop(pool);
    assert_eq!(*drops.lock().unwrap(), 6);
}

/// An executor of the simplest kind: it has been shut down from the start.
struct Refusing;

impl<F: Future> Executor<F> for Refusing {
    fn spawn(&mut self, _future: F) -> Result<(), SpawnError> {
        Err(SpawnError::shutdown())
    }

    fn status(&self) -> Result<(), SpawnError> {
        Err(SpawnError::shutdown())
    }
}

fn submit<F: Future, E: Executor<F>>(executor: &mut E, future: F) -> Result<(), SpawnError> {
    executor.status()?;
    executor.spawn(future)
}

#[test]
fn computations_are_submitted_through_the_executor_contract() {
    let polls = Rc::new(Cell::new(0));
    let mut refusing = Refusing;
    let refused = submit(&mut refusing, Immediate { number: 1, polls: polls.clone() });
    assert_eq!(refused, Err(SpawnError::shutdown()));
    assert_eq!(Rc::strong_count(&polls), 1);

    let mut pool = LocalPool::new(1);
    assert_eq!(submit(&mut pool, Immediate { number: 2, polls: polls.clone() }), Ok(()));
    assert_eq!(
        submit(&mut pool, Immediate { number: 3, polls: polls.clone() }),
        Err(SpawnError::at_capacity())
    );
    assert_eq!(pool.turn(), Some((0, Async::Ready(2))));
    assert_eq!(pool.turn(), None);
    assert_eq!(polls.get(), 1);
}

#[test]
fn running_until_stalled_polls_each_waiting_task_once() {
    let mut registry = KeyRegistry::new();
    let key = registry.declare(zero as fn() -> u64).unwrap();
    let seen = Rc::new(RefCell::new(Vec::new()));
    let mut pool = LocalPool::new(8);
    assert_eq!(pool.spawn(Counting { key: &key, polls: 1, seen: seen.clone() }), Ok(()));
    assert_eq!(pool.spawn(Counting { key: &key, polls: 2, seen: seen.clone() }), Ok(()));
    assert_eq!(pool.spawn(Counting { key: &key, polls: 1, seen: seen.clone() }), Ok(()));
    assert_eq!(pool.spawn(Counting { key: &key, polls: 3, seen: seen.clone() }), Ok(()));

    assert_eq!(pool.run_until_stalled(), vec![(0, 1), (2, 1)]);
    assert_eq!(*seen.borrow(), vec![(0, 1), (1, 1), (2, 1), (3, 1)]);
    assert_eq!(pool.waiting(), 0);
    assert_eq!(pool.len(), 2);
    assert!(pool.is_live(1) && pool.is_live(3));
    assert_eq!(pool.run_until_stalled(), vec![]);

    pool.wake(&Waker::new(3));
    pool.wake(&Waker::new(1));
    pool.wake(&Waker::new(0));
    assert_eq!(pool.run_until_stalled(), vec![(1, 2)]);
    pool.wake(&Waker::new(3));
    assert_eq!(pool.run_until_stalled(), vec![(3, 3)]);
    assert_eq!(pool.len(), 0);
    assert_eq!(
        *seen.borrow(),
        vec![(0, 1), (1, 1), (2, 1), (3, 1), (3, 2), (1, 2), (3, 3)]
    );
}

#[test]
fn a_ready_computation_finishes_on_its_first_poll() {
    let mut pool: LocalPool<Ready<&str, u64>> = LocalPool::new(4);
    assert_eq!(pool.spawn(ready("first")), Ok(()));
    assert_eq!(pool.spawn(ready("second")), Ok(()));
    assert_eq!(pool.turn(), Some((0, Async::Ready("first"))));
    assert!(!pool.is_live(0));
    assert!(pool.is_live(1));
    pool.wake(&Waker::new(0));
    assert_eq!(pool.run_until_stalled(), vec![(1, "second")]);
    assert_eq!(pool.len(), 0);
    assert_eq!(pool.turn(), None);
}

#[test]
fn wakers_are_equal_exactly_when_they_wake_the_same_task() {
    let a = Waker::new(1);
    let b = a;
    let c = Waker::new(2);
    assert!(a.will_wake(&b));
    assert!(!a.will_wake(&c));
    assert_eq!(a, b);
    assert_ne!(a, c);
    assert_eq!(c.task_id(), 2);
    assert_eq!(c.task, 2);
}
