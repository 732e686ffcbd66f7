//! The wakeup mailbox: a single slot for the most recent wakeup handle of
//! interest, shared by a consumer that registers handles and by producers that
//! fire.
//!
//! The consumer checks a condition, finds it not met, and registers its handle;
//! a producer makes the condition true and fires. Done carelessly, the producer
//! can fire between the check and the registration, and the notification is
//! lost. The mailbox rules this out with a state word that both sides change
//! in single atomic steps. This module holds those steps as operations on a
//! plain value, and proves over every interleaving of them that no registered
//! handle is lost. A shell that shares a mailbox between threads runs each step
//! atomically; within one thread [`AtomicWaker::register`] and
//! [`AtomicWaker::fire`] run the steps of one side back to back.

use vstd::prelude::*;
use crate::task::waker::Waker;

verus! {

/// The state word of a mailbox.
#[derive(Clone, Copy, Debug, PartialEq, Eq, Structural)]
pub enum State {
    /// Nobody is working on the slot.
    Idle,
    /// The consumer is storing a handle.
    Registering,
    /// A producer is taking the handle out.
    Waking,
    /// The consumer is storing a handle and a producer has fired meanwhile:
    /// the consumer owes the wakeup.
    RegisteringWaking,
}

impl State {
    /// Whether the consumer holds the slot.
    pub open spec fn registering(self) -> bool {
        self is Registering || self is RegisteringWaking
    }
}

/// What the consumer found when it tried to take hold of the slot.
#[derive(Clone, Copy, Debug, PartialEq, Eq, Structural)]
pub enum RegisterStart {
    /// The slot is the consumer's: it stores its handle and lets go.
    Acquired,
    /// A fire is in flight: the consumer must invoke its handle itself, now.
    WakeNow,
    /// Another registration is in flight, against the rule that registrations
    /// are serialized: nothing was done and the handle is not stored.
    Busy,
}

/// The mathematical value of a mailbox: its state word and its slot.
pub struct Mailbox {
    pub state: State,
    pub slot: Option<Waker>,
}

impl Mailbox {
    /// The mailbox that nobody has touched yet.
    pub open spec fn empty() -> Mailbox {
        Mailbox { state: State::Idle, slot: None }
    }

    /// The consumer's first step: take hold of the slot if the mailbox is idle.
    pub open spec fn begin_register(self) -> (Mailbox, RegisterStart) {
        match self.state {
            State::Idle => (Mailbox { state: State::Registering, ..self }, RegisterStart::Acquired),
            State::Waking => (self, RegisterStart::WakeNow),
            _ => (self, RegisterStart::Busy),
        }
    }

    /// The consumer's second step: put `waker` into the slot, replacing what
    /// was there.
    pub open spec fn store(self, waker: Waker) -> Mailbox {
        Mailbox { slot: Some(waker), ..self }
    }

    /// The consumer's last step: let go of the slot. If a producer fired
    /// meanwhile, the handle comes out again, for the consumer to invoke.
    pub open spec fn end_register(self) -> (Mailbox, Option<Waker>) {
        match self.state {
            State::Registering => (Mailbox { state: State::Idle, ..self }, None),
            State::RegisteringWaking => (Mailbox { state: State::Idle, slot: None }, self.slot),
            _ => (self, None),
        }
    }

    /// A producer's first step: announce the fire, and take hold of the slot
    /// if the mailbox is idle. The second component says whether it did.
    pub open spec fn begin_fire(self) -> (Mailbox, bool) {
        match self.state {
            State::Idle => (Mailbox { state: State::Waking, ..self }, true),
            State::Registering => (Mailbox { state: State::RegisteringWaking, ..self }, false),
            _ => (self, false),
        }
    }

    /// A producer's second step: empty the slot.
    pub open spec fn take(self) -> (Mailbox, Option<Waker>) {
        (Mailbox { slot: None, ..self }, self.slot)
    }

    /// A producer's last step: let go of the slot.
    pub open spec fn end_fire(self) -> Mailbox {
        match self.state {
            State::Waking => Mailbox { state: State::Idle, ..self },
            State::RegisteringWaking => Mailbox { state: State::Registering, ..self },
            _ => self,
        }
    }

    /// A whole registration of `waker` with nothing in between: the new
    /// mailbox, and the handle that the consumer must invoke now, if any.
    pub open spec fn register(self, waker: Waker) -> (Mailbox, Option<Waker>) {
        match self.state {
            State::Idle => (Mailbox { state: State::Idle, slot: Some(waker) }, None),
            State::Waking => (self, Some(waker)),
            _ => (self, None),
        }
    }

    /// A whole fire with nothing in between: the new mailbox, and the handle
    /// that the producer must invoke, if any.
    pub open spec fn fire(self) -> (Mailbox, Option<Waker>) {
        match self.state {
            State::Idle => (Mailbox { state: State::Idle, slot: None }, self.slot),
            State::Registering => (Mailbox { state: State::RegisteringWaking, ..self }, None),
            _ => (self, None),
        }
    }
}

/// A single-slot holder of the most recent wakeup handle of interest.
///
/// The slot holds at most one handle. Registering stores a handle, replacing
/// the one before; firing takes out whatever is stored and hands it to the
/// caller to invoke, or does nothing if the slot is empty. Neither operation
/// invokes a handle itself: each returns the handle that its caller owes a
/// wakeup.
///
/// At most one registration may be in flight at a time; callers serialize
/// their registrations, typically by owning the consuming side. Any number of
/// fires may be in flight.
pub struct AtomicWaker {
    state: State,
    slot: Option<Waker>,
}

impl View for AtomicWaker {
    type V = Mailbox;

    closed spec fn view(&self) -> Mailbox {
        Mailbox { state: self.state, slot: self.slot }
    }
}

impl AtomicWaker {
    /// An idle mailbox with an empty slot.
    pub fn new() -> (mailbox: AtomicWaker)
        ensures
            mailbox@ == Mailbox::empty(),
    {
        AtomicWaker { state: State::Idle, slot: None }
    }

    /// The state word.
    pub fn state(&self) -> (state: State)
        ensures
            state == self@.state,
    {
        self.state
    }

    /// The consumer's first step. Only after `Acquired` may the consumer go on
    /// to [`store`](Self::store) and [`end_register`](Self::end_register).
    pub fn begin_register(&mut self) -> (start: RegisterStart)
        ensures
            (final(self)@, start) == old(self)@.begin_register(),
    {
        match self.state {
            State::Idle => {
                self.state = State::Registering;
                RegisterStart::Acquired
            },
            State::Waking => RegisterStart::WakeNow,
            _ => RegisterStart::Busy,
        }
    }

    /// The consumer's second step, for the consumer that holds the slot.
    pub fn store(&mut self, waker: Waker)
        requires
            old(self)@.state.registering(),
        ensures
            final(self)@ == old(self)@.store(waker),
    {
        self.slot = Some(waker);
    }

    /// The consumer's last step, for the consumer that holds the slot. The
    /// consumer must invoke the handle that is returned, if any.
    pub fn end_register(&mut self) -> (owed: Option<Waker>)
        requires
            old(self)@.state.registering(),
        ensures
            (final(self)@, owed) == old(self)@.end_register(),
    {
        match self.state {
            State::Registering => {
                self.state = State::Idle;
                None
            },
            State::RegisteringWaking => {
                self.state = State::Idle;
                self.slot.take()
            },
            _ => None,
        }
    }

    /// A producer's first step. Only if it returns `true` may the producer go
    /// on to [`take`](Self::take) and [`end_fire`](Self::end_fire); otherwise
    /// its fire has been noted and it is done.
    pub fn begin_fire(&mut self) -> (acquired: bool)
        ensures
            (final(self)@, acquired) == old(self)@.begin_fire(),
    {
        match self.state {
            State::Idle => {
                self.state = State::Waking;
                true
            },
            State::Registering => {
                self.state = State::RegisteringWaking;
                false
            },
            _ => false,
        }
    }

    /// A producer's second step, for the producer that holds the slot. The
    /// producer invokes the handle that is returned, if any, once it has let
    /// go of the slot.
    pub fn take(&mut self) -> (taken: Option<Waker>)
        requires
            old(self)@.state is Waking,
        ensures
            (final(self)@, taken) == old(self)@.take(),
    {
        self.slot.take()
    }

    /// A producer's last step, for the producer that holds the slot.
    pub fn end_fire(&mut self)
        requires
            old(self)@.state is Waking,
        ensures
            final(self)@ == old(self)@.end_fire(),
    {
        self.state = State::Idle;
    }

    /// Registers `waker` as the handle to invoke on the next fire, in one go.
    ///
    /// On an idle mailbox the handle is stored and replaces the one before. If
    /// a fire is in flight, the handle is not stored but returned: the caller
    /// invokes it at once, so that the fire is not lost on it. If another
    /// registration is in flight, nothing happens.
    pub fn register(&mut self, waker: Waker) -> (owed: Option<Waker>)
        ensures
            (final(self)@, owed) == old(self)@.register(waker),
    {
        match self.begin_register() {
            RegisterStart::Acquired => {
                self.store(waker);
                self.end_register()
            },
            RegisterStart::WakeNow => Some(waker),
            RegisterStart::Busy => None,
        }
    }

    /// Fires, in one go: takes the stored handle out and returns it for the
    /// caller to invoke. With an empty slot nothing happens. If a registration
    /// is in flight, the fire is noted and the registration will hand out its
    /// handle when it ends.
    pub fn fire(&mut self) -> (owed: Option<Waker>)
        ensures
            (final(self)@, owed) == old(self)@.fire(),
    {
        if self.begin_fire() {
            let taken = self.take();
            self.end_fire();
            taken
        } else {
            None
        }
    }
}

} // verus!
