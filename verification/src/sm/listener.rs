//! Observers of committed transitions.

use crate::sm::msg::EventId;
use crate::sm::state::StateId;
use crate::sm::trans::Transition;
use vstd::prelude::*;

verus! {

/// An observer that is told of every transition a machine commits.
pub trait StateMachineListener<S: StateId, E: EventId> {
    fn transion(&self, _tran: &Transition<S, E>) {
    }
}

/// One registration of an observer.
#[verifier::reject_recursive_types(S)]
#[verifier::reject_recursive_types(E)]
pub struct Subscription<S: StateId, E: EventId> {
    listener: Box<dyn StateMachineListener<S, E>>,
}

impl<S: StateId, E: EventId> Subscription<S, E> {
    /// Wraps an observer for the registry.
    fn new(listener: Box<dyn StateMachineListener<S, E>>) -> (subscription: Subscription<S, E>)
        ensures
            subscription == (Subscription { listener }),
    {
        Subscription { listener }
    }

    /// The registration that holds `listener`.
    pub closed spec fn of(listener: Box<dyn StateMachineListener<S, E>>) -> Subscription<S, E> {
        Subscription { listener }
    }
}

/// The observers of one machine, in the order of their registration.
#[verifier::reject_recursive_types(S)]
#[verifier::reject_recursive_types(E)]
pub struct StateMachineNotify<S: StateId, E: EventId> {
    listeners: Vec<Subscription<S, E>>,
}

impl<S: StateId, E: EventId> View for StateMachineNotify<S, E> {
    type V = Seq<Subscription<S, E>>;

    /// The registrations, oldest first.
    closed spec fn view(&self) -> Seq<Subscription<S, E>> {
        self.listeners@
    }
}

impl<S: StateId, E: EventId> StateMachineNotify<S, E> {
    /// Registers `listener` behind those registered before. Nothing is ever
    /// removed, and the same observer may be registered twice.
    #[allow(non_snake_case)]
    pub fn addListener(&mut self, listener: Box<dyn StateMachineListener<S, E>>)
        ensures
            final(self)@ == old(self)@.push(Subscription::of(listener)),
            final(self)@.len() == old(self)@.len() + 1,
            final(self)@.drop_last() == old(self)@,
    {
        let subscription = Subscription::new(listener);
        self.listeners.push(subscription);
        assert(self.listeners@.drop_last() =~= old(self).listeners@);
    }

    /// Tells every observer of `tran`, in the order of registration.
    pub fn notify_transition(&self, tran: &Transition<S, E>) {
        let mut i: usize = 0;
        while i < self.listeners.len()
            invariant
                i <= self.listeners@.len(),
            decreases self.listeners@.len() - i,
        {
            self.listeners[i].listener.transion(tran);
            i += 1;
        }
    }

    /// A registry without observers.
    pub fn new() -> (notify: StateMachineNotify<S, E>)
        ensures
            notify@ == Seq::<Subscription<S, E>>::empty(),
    {
        StateMachineNotify { listeners: Vec::new() }
    }
}

} // verus!
