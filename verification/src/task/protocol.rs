//! Every interleaving of the mailbox steps, and the proof that none of them
//! loses a wakeup.
//!
//! The model is one consumer, which registers handles one registration at a
//! time, and any number of producers, which fire. A producer that did not get
//! hold of the slot has nothing more to do, so only the one that holds it
//! needs a place in the model.

use vstd::prelude::*;
use crate::task::atomic_waker::{Mailbox, RegisterStart};
use crate::task::waker::Waker;

verus! {

/// Where the consumer stands in its registration.
pub enum Consumer {
    /// No registration is in flight.
    Idle,
    /// It holds the slot and is about to store this handle.
    Acquired(Waker),
    /// It has stored this handle and is about to let go of the slot.
    Stored(Waker),
}

/// Where the producer that holds the slot stands in its fire.
pub enum Producer {
    /// No producer holds the slot.
    Idle,
    /// It holds the slot and is about to empty it.
    Acquired,
    /// It has taken this out of the slot and is about to let go and invoke it.
    Took(Option<Waker>),
}

/// One atomic step of one of the parties.
pub enum Step {
    /// The consumer starts to register this handle.
    BeginRegister(Waker),
    /// The consumer stores its handle.
    Store,
    /// The consumer lets go of the slot.
    EndRegister,
    /// Some producer starts to fire.
    BeginFire,
    /// The producer that holds the slot empties it.
    Take,
    /// The producer that holds the slot lets go of it.
    EndFire,
}

/// A mailbox together with the parties that work on it, and a record of what
/// became of the most recent registration.
pub struct Protocol {
    /// The shared mailbox.
    pub mailbox: Mailbox,
    /// The consumer.
    pub consumer: Consumer,
    /// The producer that holds the slot, if any.
    pub producer: Producer,
    /// The handle of the most recent registration that has ended.
    pub last: Option<Waker>,
    /// Whether that handle has been handed out for invocation since, by the
    /// registration itself or by a fire.
    pub delivered: bool,
    /// Whether a fire has begun since that registration ended.
    pub fired_since: bool,
}

impl Protocol {
    /// An untouched mailbox, with nobody at work.
    pub open spec fn start() -> Protocol {
        Protocol {
            mailbox: Mailbox::empty(),
            consumer: Consumer::Idle,
            producer: Producer::Idle,
            last: None,
            delivered: false,
            fired_since: false,
        }
    }

    /// Whether nobody is in the middle of an operation.
    pub open spec fn quiescent(self) -> bool {
        self.consumer is Idle && self.producer is Idle
    }

    /// Whether `step` can be taken: each party takes its own steps in order,
    /// and the consumer starts a registration only when none is in flight.
    pub open spec fn enabled(self, step: Step) -> bool {
        match step {
            Step::BeginRegister(_) => self.consumer is Idle,
            Step::Store => self.consumer is Acquired,
            Step::EndRegister => self.consumer is Stored,
            Step::BeginFire => true,
            Step::Take => self.producer is Acquired,
            Step::EndFire => self.producer is Took,
        }
    }

    /// The system after `step`.
    pub open spec fn step(self, step: Step) -> Protocol {
        match step {
            Step::BeginRegister(waker) => {
                let (mailbox, start) = self.mailbox.begin_register();
                match start {
                    RegisterStart::Acquired => Protocol {
                        mailbox,
                        consumer: Consumer::Acquired(waker),
                        ..self
                    },
                    RegisterStart::WakeNow => Protocol {
                        mailbox,
                        last: Some(waker),
                        delivered: true,
                        fired_since: false,
                        ..self
                    },
                    RegisterStart::Busy => Protocol { mailbox, ..self },
                }
            },
            Step::Store => Protocol {
                mailbox: self.mailbox.store(self.consumer->Acquired_0),
                consumer: Consumer::Stored(self.consumer->Acquired_0),
                ..self
            },
            Step::EndRegister => {
                let (mailbox, owed) = self.mailbox.end_register();
                Protocol {
                    mailbox,
                    consumer: Consumer::Idle,
                    last: Some(self.consumer->Stored_0),
                    delivered: owed == Some(self.consumer->Stored_0),
                    fired_since: false,
                    ..self
                }
            },
            Step::BeginFire => {
                let (mailbox, acquired) = self.mailbox.begin_fire();
                Protocol {
                    mailbox,
                    producer: if acquired {
                        Producer::Acquired
                    } else {
                        self.producer
                    },
                    fired_since: true,
                    ..self
                }
            },
            Step::Take => {
                let (mailbox, taken) = self.mailbox.take();
                Protocol { mailbox, producer: Producer::Took(taken), ..self }
            },
            Step::EndFire => Protocol {
                mailbox: self.mailbox.end_fire(),
                producer: Producer::Idle,
                delivered: self.delivered || (self.last is Some && self.producer->Took_0
                    == self.last),
                ..self
            },
        }
    }

    /// Whether the steps of `steps` can be taken one after the other.
    pub open spec fn feasible(self, steps: Seq<Step>) -> bool
        decreases steps.len(),
    {
        steps.len() == 0 || (self.enabled(steps[0]) && self.step(steps[0]).feasible(
            steps.drop_first(),
        ))
    }

    /// The system after the steps of `steps`, taken one after the other.
    pub open spec fn run(self, steps: Seq<Step>) -> Protocol
        decreases steps.len(),
    {
        if steps.len() == 0 {
            self
        } else {
            self.step(steps[0]).run(steps.drop_first())
        }
    }

    /// What holds of the system whatever the parties have done so far.
    ///
    /// The state word tells who is at work: the consumer holds the slot
    /// exactly while a registration is in flight, and a producer holds it
    /// exactly in state `Waking`. A stored handle stays in the slot until the
    /// registration ends. And a registered handle that has not been handed out
    /// yet is either still in the slot or in the hands of the producer that
    /// took it; if a fire has begun since, that producer is still at work.
    pub open spec fn consistent(self) -> bool {
        &&& self.mailbox.state.registering() <==> !(self.consumer is Idle)
        &&& self.mailbox.state is Waking <==> !(self.producer is Idle)
        &&& self.consumer matches Consumer::Stored(waker) ==> self.mailbox.slot == Some(waker)
        &&& self.consumer is Idle && self.last is Some && !self.delivered ==> match self.producer {
            Producer::Took(taken) => taken == self.last,
            _ => self.mailbox.slot == self.last,
        }
        &&& self.consumer is Idle && self.last is Some && !self.delivered && self.fired_since
            ==> !(self.producer is Idle)
    }

    /// Whether the most recent registration has got its wakeup, if it is owed
    /// one: once nobody is at work any more, a handle that was registered
    /// before some fire began has been handed out for invocation.
    pub open spec fn no_wakeup_lost(self) -> bool {
        self.quiescent() && self.last is Some && self.fired_since ==> self.delivered
    }
}

/// A party that takes its steps in order may take each of them: in a
/// consistent system every step that can be taken finds the mailbox in the
/// state that the operation behind it asks for.
pub proof fn lemma_enabled_step_is_allowed(before: Protocol, step: Step)
    requires
        before.consistent(),
        before.enabled(step),
    ensures
        step is Store || step is EndRegister ==> before.mailbox.state.registering(),
        step is Take || step is EndFire ==> before.mailbox.state is Waking,
{
}

/// Every step that can be taken keeps the system consistent.
pub proof fn lemma_step_keeps_consistent(before: Protocol, step: Step)
    requires
        before.consistent(),
        before.enabled(step),
    ensures
        before.step(step).consistent(),
{
}

/// Whatever steps are taken from a consistent system, it stays consistent.
pub proof fn lemma_run_keeps_consistent(before: Protocol, steps: Seq<Step>)
    requires
        before.consistent(),
        before.feasible(steps),
    ensures
        before.run(steps).consistent(),
    decreases steps.len(),
{
    if steps.len() > 0 {
        lemma_step_keeps_consistent(before, steps[0]);
        lemma_run_keeps_consistent(before.step(steps[0]), steps.drop_first());
    }
}

/// No wakeup is lost.
///
/// Take any interleaving of the steps of one consumer, whose registrations
/// follow one another, and of any number of producers. If at its end nobody is
/// at work, and a fire has begun after the most recent registration ended,
/// then the handle of that registration has been handed out for invocation: by
/// that fire, by an earlier one that was still at work, or by the registration
/// itself.
pub proof fn lemma_no_wakeup_lost(steps: Seq<Step>)
    requires
        Protocol::start().feasible(steps),
    ensures
        Protocol::start().run(steps).consistent(),
        Protocol::start().run(steps).no_wakeup_lost(),
{
    lemma_run_keeps_consistent(Protocol::start(), steps);
}

/// A registration that ends while the mailbox is quiet leaves its handle in
/// the slot, and one that meets a fire hands its handle out itself: either
/// way the handle is not dropped.
pub proof fn lemma_registration_keeps_handle(before: Protocol, waker: Waker)
    requires
        before.consistent(),
        before.consumer == Consumer::Stored(waker),
    ensures
        ({
            let after = before.step(Step::EndRegister);
            after.last == Some(waker) && (after.delivered || after.mailbox.slot == Some(waker))
        }),
{
}

} // verus!
