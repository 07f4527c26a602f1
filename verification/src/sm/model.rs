//! The mathematical model of a machine: what its table holds, which
//! transition an event selects, and what one step does.

use vstd::prelude::*;

verus! {

/// A transition as the model sees it: its two states and its event.
pub struct Edge<S, E> {
    pub source: S,
    pub target: S,
    pub event: E,
}

impl<S, E> Edge<S, E> {
    /// Equality of transitions: source, target and event agree. Guard and
    /// action play no part.
    pub open spec fn same_as(self, other: Edge<S, E>) -> bool {
        self.source == other.source && self.target == other.target && self.event == other.event
    }

    /// Whether the transition leaves `current` on `event`.
    pub open spec fn fires(self, current: S, event: E) -> bool {
        self.source == current && self.event == event
    }
}

/// How the evaluation of one selected transition ended.
pub enum Outcome {
    /// The guard, if any, held and the action, if any, succeeded.
    Passed,
    /// The guard answered no.
    Declined,
    /// The guard failed, with this text.
    GuardFailed(Seq<char>),
    /// The action failed, with this text.
    ActionFailed(Seq<char>),
}

impl Outcome {
    /// The outcomes that evaluating a transition can have: without a guard
    /// none that a guard produces, without an action none that an action
    /// produces.
    pub open spec fn possible_for(self, guarded: bool, acting: bool) -> bool {
        match self {
            Outcome::Passed => true,
            Outcome::Declined => guarded,
            Outcome::GuardFailed(_) => guarded,
            Outcome::ActionFailed(_) => acting,
        }
    }
}

/// The state of a machine.
pub struct Machine<S, E> {
    pub initial: S,
    pub terminal: S,
    pub current: S,
    pub sticky: Option<Seq<char>>,
    pub table: Seq<Edge<S, E>>,
}

impl<S, E> Machine<S, E> {
    /// The machine has not reached its terminal state.
    pub open spec fn running(self) -> bool {
        self.current != self.terminal
    }

    /// No two entries of the table are equal as transitions.
    pub open spec fn distinct(self) -> bool {
        forall|i: int, j: int|
            0 <= i < j < self.table.len() ==> !(#[trigger] self.table[i]).same_as(
                #[trigger] self.table[j],
            )
    }

    /// The table's entries for `event`, in insertion order.
    pub open spec fn by_event(self, event: E) -> Seq<Edge<S, E>> {
        self.table.filter(|edge: Edge<S, E>| edge.event == event)
    }

    /// Entry `i` is the first of the table that leaves the current state on
    /// `event`.
    pub open spec fn first_firing(self, event: E, i: int) -> bool {
        &&& 0 <= i < self.table.len()
        &&& self.table[i].fires(self.current, event)
        &&& forall|j: int| 0 <= j < i ==> !(#[trigger] self.table[j]).fires(self.current, event)
    }

    /// At most one entry is the first that fires, so that entry is the one
    /// selected while the machine runs and has not failed.
    pub proof fn lemma_first_firing_unique(self, event: E, i: int)
        requires
            self.first_firing(event, i),
        ensures
            forall|k: int| self.first_firing(event, k) ==> k == i,
            self.sticky is None && self.running() ==> self.selected(event) == Some(i),
    {
        assert forall|k: int| self.first_firing(event, k) implies k == i by {
            if k < i {
                assert(!self.table[k].fires(self.current, event));
            } else if i < k {
                assert(!self.table[i].fires(self.current, event));
            }
        }
    }

    /// The entry that `event` selects: none once the machine has failed or
    /// has reached its terminal state, else the first entry that leaves the
    /// current state on `event`, if there is one.
    pub open spec fn selected(self, event: E) -> Option<int> {
        if self.sticky is Some || !self.running() {
            None
        } else if exists|i: int| self.first_firing(event, i) {
            Some(choose|i: int| self.first_firing(event, i))
        } else {
            None
        }
    }

    /// The machine after evaluating the entry `i` with `outcome`.
    pub open spec fn settled(self, i: int, outcome: Outcome) -> Machine<S, E> {
        match outcome {
            Outcome::Passed => Machine { current: self.table[i].target, ..self },
            Outcome::Declined => self,
            Outcome::GuardFailed(text) => Machine { sticky: Some(text), ..self },
            Outcome::ActionFailed(text) => Machine { sticky: Some(text), ..self },
        }
    }

    /// The machine after `event`, where evaluating the selected entry, if
    /// any, ended in `outcome`.
    pub open spec fn step(self, event: E, outcome: Outcome) -> Machine<S, E> {
        match self.selected(event) {
            Some(i) => self.settled(i, outcome),
            None => self,
        }
    }

    /// Whether `event` commits a transition.
    pub open spec fn accepts(self, event: E, outcome: Outcome) -> bool {
        self.selected(event) is Some && outcome is Passed
    }

    /// The transition that the listeners are told of, if `event` commits
    /// one.
    pub open spec fn announces(self, event: E, outcome: Outcome) -> Option<Edge<S, E>> {
        if self.accepts(event, outcome) {
            Some(self.table[self.selected(event)->0])
        } else {
            None
        }
    }

    /// The machine after a sequence of events, each with the outcome of its
    /// evaluation.
    pub open spec fn run(self, inputs: Seq<(E, Outcome)>) -> Machine<S, E>
        decreases inputs.len(),
    {
        if inputs.len() == 0 {
            self
        } else {
            self.run(inputs.drop_last()).step(inputs.last().0, inputs.last().1)
        }
    }

    /// What the listeners are told during a sequence of events, in order.
    pub open spec fn trace(self, inputs: Seq<(E, Outcome)>) -> Seq<Edge<S, E>>
        decreases inputs.len(),
    {
        if inputs.len() == 0 {
            Seq::empty()
        } else {
            let before = self.run(inputs.drop_last());
            let earlier = self.trace(inputs.drop_last());
            match before.announces(inputs.last().0, inputs.last().1) {
                Some(edge) => earlier.push(edge),
                None => earlier,
            }
        }
    }
}

} // verus!
