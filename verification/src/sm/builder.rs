//! The staged builder of a machine. Each stage is a type of its own that
//! offers only the step that is due: initial state, then a batch of
//! transitions given field by field, then the terminal state, then the
//! machine. A call out of order does not compile.

use crate::sm::listener::Subscription;
use crate::sm::model::Machine;
use crate::sm::msg::EventId;
use crate::sm::state::State;
use crate::sm::state::StateId;
use crate::sm::trans::Action;
use crate::sm::trans::Draft;
use crate::sm::trans::Guard;
use crate::sm::trans::Transition;
use crate::sm::trans::TransitionBuilder;
use crate::sm::StateMachine;
use vstd::laws_eq::obeys_concrete_eq;
use vstd::prelude::*;

verus! {

/// What a builder of a machine has been given so far.
#[verifier::reject_recursive_types(S)]
#[verifier::reject_recursive_types(E)]
pub struct Plan<S: StateId, E: EventId> {
    pub initial: Option<S>,
    pub terminal: Option<S>,
    /// The transitions that were finalized, in the order given.
    pub batch: Seq<Transition<S, E>>,
    /// The transition under construction, if one is open.
    pub draft: Option<Draft<S, E>>,
}

impl<S: StateId, E: EventId> Plan<S, E> {
    /// Nothing has been given yet.
    pub open spec fn empty() -> Plan<S, E> {
        Plan { initial: None, terminal: None, batch: Seq::empty(), draft: None }
    }

    /// `batch` is this plan's batch with the open transition finalized
    /// behind it.
    pub open spec fn closes_to(self, batch: Seq<Transition<S, E>>) -> bool
        recommends
            self.draft is Some,
    {
        &&& batch.len() == self.batch.len() + 1
        &&& batch.drop_last() == self.batch
        &&& batch.last()@ == self.draft->0.edge()
        &&& batch.last().action_spec() == self.draft->0.action
        &&& batch.last().guard_spec() == self.draft->0.guard
    }
}

/// The entry to the staged construction of a machine.
#[verifier::reject_recursive_types(S)]
#[verifier::reject_recursive_types(E)]
pub struct StateMachineBuilder<S: StateId, E: EventId> {
    trans: Vec<Transition<S, E>>,
}

impl<S: StateId, E: EventId> View for StateMachineBuilder<S, E> {
    type V = Plan<S, E>;

    closed spec fn view(&self) -> Plan<S, E> {
        Plan {
            initial: None,
            terminal: None,
            batch: self.trans@,
            draft: None,
        }
    }
}

impl<S: StateId, E: EventId> StateMachineBuilder<S, E> {
    /// A builder that has been given nothing.
    pub fn new() -> (builder: Self)
        ensures
            builder@ == Plan::<S, E>::empty(),
    {
        StateMachineBuilder { trans: Vec::new() }
    }

    /// Enters the staged protocol.
    pub fn config(self) -> (next: SmBuilder<S, E>)
        ensures
            next@ == self@,
    {
        SmBuilder { trans: self.trans }
    }
}

/// The stage that awaits the initial state.
#[verifier::reject_recursive_types(S)]
#[verifier::reject_recursive_types(E)]
pub struct SmBuilder<S: StateId, E: EventId> {
    trans: Vec<Transition<S, E>>,
}

impl<S: StateId, E: EventId> View for SmBuilder<S, E> {
    type V = Plan<S, E>;

    closed spec fn view(&self) -> Plan<S, E> {
        Plan {
            initial: None,
            terminal: None,
            batch: self.trans@,
            draft: None,
        }
    }
}

impl<S: StateId, E: EventId> SmBuilder<S, E> {
    /// Sets the initial state.
    pub fn init(self, init: State<S>) -> (next: TransBuilder<S, E>)
        ensures
            next@ == (Plan { initial: Some(init@), ..self@ }),
    {
        TransBuilder { init, trans: self.trans }
    }
}

/// The stage that is ready for the batch of transitions.
#[verifier::reject_recursive_types(S)]
#[verifier::reject_recursive_types(E)]
pub struct TransBuilder<S: StateId, E: EventId> {
    init: State<S>,
    trans: Vec<Transition<S, E>>,
}

impl<S: StateId, E: EventId> View for TransBuilder<S, E> {
    type V = Plan<S, E>;

    closed spec fn view(&self) -> Plan<S, E> {
        Plan {
            initial: Some(self.init@),
            terminal: None,
            batch: self.trans@,
            draft: None,
        }
    }
}

impl<S: StateId, E: EventId> TransBuilder<S, E> {
    /// Opens the batch with an empty first transition.
    pub fn trans(self) -> (next: TranStarter<S, E>)
        ensures
            next@ == (Plan { draft: Some(Draft::empty()), ..self@ }),
    {
        TranStarter { init: self.init, trans: self.trans }
    }
}

/// The stage in which an open transition awaits its source.
#[verifier::reject_recursive_types(S)]
#[verifier::reject_recursive_types(E)]
pub struct TranStarter<S: StateId, E: EventId> {
    init: State<S>,
    trans: Vec<Transition<S, E>>,
}

impl<S: StateId, E: EventId> View for TranStarter<S, E> {
    type V = Plan<S, E>;

    closed spec fn view(&self) -> Plan<S, E> {
        Plan {
            initial: Some(self.init@),
            terminal: None,
            batch: self.trans@,
            draft: Some(
                Draft {
                    source: None,
                    target: None,
                    event: None,
                    action: None,
                    guard: None,
                },
            ),
        }
    }
}

impl<S: StateId, E: EventId> TranStarter<S, E> {
    /// Sets the source of the open transition.
    pub fn source(self, source: State<S>) -> (next: Source<S, E>)
        ensures
            self@.draft == Some(Draft::<S, E>::empty()),
            next@ == (Plan {
                draft: Some(Draft { source: Some(source@), ..self@.draft->0 }),
                ..self@
            }),
    {
        Source { init: self.init, trans: self.trans, source }
    }
}

/// The stage in which the open transition has its source and awaits its
/// target.
#[verifier::reject_recursive_types(S)]
#[verifier::reject_recursive_types(E)]
pub struct Source<S: StateId, E: EventId> {
    init: State<S>,
    trans: Vec<Transition<S, E>>,
    source: State<S>,
}

impl<S: StateId, E: EventId> View for Source<S, E> {
    type V = Plan<S, E>;

    closed spec fn view(&self) -> Plan<S, E> {
        Plan {
            initial: Some(self.init@),
            terminal: None,
            batch: self.trans@,
            draft: Some(
                Draft {
                    source: Some(self.source@),
                    target: None,
                    event: None,
                    action: None,
                    guard: None,
                },
            ),
        }
    }
}

impl<S: StateId, E: EventId> Source<S, E> {
    /// Sets the target of the open transition.
    pub fn target(self, target: State<S>) -> (next: Target<S, E>)
        ensures
            next@ == (Plan {
                draft: Some(Draft { target: Some(target@), ..self@.draft->0 }),
                ..self@
            }),
    {
        Target { init: self.init, trans: self.trans, source: self.source, target }
    }
}

/// The stage in which the open transition has source and target and
/// awaits its event.
#[verifier::reject_recursive_types(S)]
#[verifier::reject_recursive_types(E)]
pub struct Target<S: StateId, E: EventId> {
    init: State<S>,
    trans: Vec<Transition<S, E>>,
    source: State<S>,
    target: State<S>,
}

impl<S: StateId, E: EventId> View for Target<S, E> {
    type V = Plan<S, E>;

    closed spec fn view(&self) -> Plan<S, E> {
        Plan {
            initial: Some(self.init@),
            terminal: None,
            batch: self.trans@,
            draft: Some(
                Draft {
                    source: Some(self.source@),
                    target: Some(self.target@),
                    event: None,
                    action: None,
                    guard: None,
                },
            ),
        }
    }
}

impl<S: StateId, E: EventId> Target<S, E> {
    /// Sets the event of the open transition.
    pub fn event(self, event: E) -> (next: Act<S, E>)
        ensures
            next@ == (Plan {
                draft: Some(Draft { event: Some(event), ..self@.draft->0 }),
                ..self@
            }),
            next@.draft->0.complete(),
    {
        Act { init: self.init, trans: self.trans, source: self.source, target: self.target, event }
    }
}

/// The stage in which the open transition awaits its action, which may be
/// absent.
#[verifier::reject_recursive_types(S)]
#[verifier::reject_recursive_types(E)]
pub struct Act<S: StateId, E: EventId> {
    init: State<S>,
    trans: Vec<Transition<S, E>>,
    source: State<S>,
    target: State<S>,
    event: E,
}

impl<S: StateId, E: EventId> View for Act<S, E> {
    type V = Plan<S, E>;

    closed spec fn view(&self) -> Plan<S, E> {
        Plan {
            initial: Some(self.init@),
            terminal: None,
            batch: self.trans@,
            draft: Some(
                Draft {
                    source: Some(self.source@),
                    target: Some(self.target@),
                    event: Some(self.event),
                    action: None,
                    guard: None,
                },
            ),
        }
    }
}

impl<S: StateId, E: EventId> Act<S, E> {
    /// Sets the action of the open transition, or leaves it without one.
    pub fn action(self, act: Option<Box<dyn Action<S, E>>>) -> (next: Gurd<S, E>)
        ensures
            next@ == (Plan { draft: Some(Draft { action: act, ..self@.draft->0 }), ..self@ }),
            next@.draft->0.complete(),
    {
        Gurd {
            init: self.init,
            trans: self.trans,
            source: self.source,
            target: self.target,
            event: self.event,
            action: act,
        }
    }
}

/// The stage in which the open transition awaits its guard, which may be
/// absent.
#[verifier::reject_recursive_types(S)]
#[verifier::reject_recursive_types(E)]
pub struct Gurd<S: StateId, E: EventId> {
    init: State<S>,
    trans: Vec<Transition<S, E>>,
    source: State<S>,
    target: State<S>,
    event: E,
    action: Option<Box<dyn Action<S, E>>>,
}

impl<S: StateId, E: EventId> View for Gurd<S, E> {
    type V = Plan<S, E>;

    closed spec fn view(&self) -> Plan<S, E> {
        Plan {
            initial: Some(self.init@),
            terminal: None,
            batch: self.trans@,
            draft: Some(
                Draft {
                    source: Some(self.source@),
                    target: Some(self.target@),
                    event: Some(self.event),
                    action: self.action,
                    guard: None,
                },
            ),
        }
    }
}

impl<S: StateId, E: EventId> Gurd<S, E> {
    /// Sets the guard of the open transition, or leaves it without one.
    pub fn guard(self, guard: Option<Box<dyn Guard<S, E>>>) -> (next: TransEnder<S, E>)
        ensures
            next@ == (Plan { draft: Some(Draft { guard: guard, ..self@.draft->0 }), ..self@ }),
            next@.draft->0.complete(),
    {
        TransEnder {
            init: self.init,
            trans: self.trans,
            source: self.source,
            target: self.target,
            event: self.event,
            action: self.action,
            guard,
        }
    }
}

/// The stage in which the open transition is complete: it is finalized
/// into the batch, and either the next one is opened or the batch is closed.
#[verifier::reject_recursive_types(S)]
#[verifier::reject_recursive_types(E)]
pub struct TransEnder<S: StateId, E: EventId> {
    init: State<S>,
    trans: Vec<Transition<S, E>>,
    source: State<S>,
    target: State<S>,
    event: E,
    action: Option<Box<dyn Action<S, E>>>,
    guard: Option<Box<dyn Guard<S, E>>>,
}

impl<S: StateId, E: EventId> View for TransEnder<S, E> {
    type V = Plan<S, E>;

    closed spec fn view(&self) -> Plan<S, E> {
        Plan {
            initial: Some(self.init@),
            terminal: None,
            batch: self.trans@,
            draft: Some(
                Draft {
                    source: Some(self.source@),
                    target: Some(self.target@),
                    event: Some(self.event),
                    action: self.action,
                    guard: self.guard,
                },
            ),
        }
    }
}

impl<S: StateId, E: EventId> TransEnder<S, E> {
    /// The batch with the open transition, built from its fields, behind
    /// it.
    fn finalize(self) -> (done: (State<S>, Vec<Transition<S, E>>))
        ensures
            done.0@ == self@.initial->0,
            self@.closes_to(done.1@),
    {
        let mut trans = self.trans;
        let mut tranb = TransitionBuilder::new();
        let tran = tranb.source(self.source).target(self.target).event(self.event).action(
            self.action,
        ).guard(self.guard).build();
        trans.push(tran);
        assert(trans@.drop_last() =~= self.trans@);
        (self.init, trans)
    }

    /// Finalizes the open transition into the batch and opens the next.
    pub fn and(self) -> (next: TranStarter<S, E>)
        ensures
            self@.closes_to(next@.batch),
            next@ == (Plan { batch: next@.batch, draft: Some(Draft::empty()), ..self@ }),
    {
        let (init, trans) = self.finalize();
        TranStarter { init, trans }
    }

    /// Finalizes the open transition into the batch and closes the batch.
    pub fn done(self) -> (next: SmEnder<S, E>)
        ensures
            self@.closes_to(next@.batch),
            next@ == (Plan { batch: next@.batch, draft: None, ..self@ }),
    {
        let (init, trans) = self.finalize();
        SmEnder { init, trans }
    }
}

/// The stage in which the batch is closed, with at least one transition in
/// it, and the terminal state is awaited.
#[verifier::reject_recursive_types(S)]
#[verifier::reject_recursive_types(E)]
pub struct SmEnder<S: StateId, E: EventId> {
    init: State<S>,
    trans: Vec<Transition<S, E>>,
}

impl<S: StateId, E: EventId> View for SmEnder<S, E> {
    type V = Plan<S, E>;

    closed spec fn view(&self) -> Plan<S, E> {
        Plan {
            initial: Some(self.init@),
            terminal: None,
            batch: self.trans@,
            draft: None,
        }
    }
}

impl<S: StateId, E: EventId> SmEnder<S, E> {
    /// A closed batch holds at least one transition.
    #[verifier::type_invariant]
    spec fn populated(self) -> bool {
        self.trans@.len() > 0
    }

    /// Sets the terminal state.
    pub fn end(self, end: State<S>) -> (next: SmFactory<S, E>)
        ensures
            self@.initial is Some,
            self@.batch.len() > 0,
            next@ == (Plan { terminal: Some(end@), ..self@ }),
    {
        proof {
            use_type_invariant(&self);
        }
        SmFactory { init: self.init, end, trans: self.trans }
    }
}

/// The stage in which everything has been given and the machine can be
/// built.
#[verifier::reject_recursive_types(S)]
#[verifier::reject_recursive_types(E)]
pub struct SmFactory<S: StateId, E: EventId> {
    init: State<S>,
    end: State<S>,
    trans: Vec<Transition<S, E>>,
}

impl<S: StateId, E: EventId> View for SmFactory<S, E> {
    type V = Plan<S, E>;

    closed spec fn view(&self) -> Plan<S, E> {
        Plan {
            initial: Some(self.init@),
            terminal: Some(self.end@),
            batch: self.trans@,
            draft: None,
        }
    }
}

impl<S: StateId, E: EventId> SmFactory<S, E> {
    /// What is built from holds at least one transition.
    #[verifier::type_invariant]
    spec fn populated(self) -> bool {
        self.trans@.len() > 0
    }

    /// Builds the machine: in its initial state, without observers, its
    /// table the batch without the transitions that equal an earlier one.
    /// Of equal transitions the first stays, with its guard and action.
    pub fn build(self) -> (machine: StateMachine<S, E>)
        requires
            obeys_concrete_eq::<S>(),
            obeys_concrete_eq::<E>(),
        ensures
            machine@.distinct(),
            machine.transitions() == Transition::dedup(self@.batch),
            machine.listeners() == Seq::<Subscription<S, E>>::empty(),
            self@.initial is Some,
            self@.terminal is Some,
            self@.batch.len() > 0,
            machine@ == (Machine {
                initial: self@.initial->0,
                terminal: self@.terminal->0,
                current: self@.initial->0,
                sticky: None,
                table: Transition::edges(Transition::dedup(self@.batch)),
            }),
    {
        proof {
            use_type_invariant(&self);
        }
        StateMachine::new(self.init, self.end, self.trans)
    }
}

} // verus!
