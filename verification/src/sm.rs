//! The state machine and the pieces it is assembled from.

pub mod builder;
pub mod laws;
pub mod listener;
pub mod model;
pub mod msg;
pub mod state;
pub mod trans;

use crate::sm::listener::StateMachineListener;
use crate::sm::listener::StateMachineNotify;
use crate::sm::listener::Subscription;
use crate::sm::model::Edge;
use crate::sm::model::Machine;
use crate::sm::msg::EventId;
use crate::sm::msg::Message;
use crate::sm::state::State;
use crate::sm::state::StateId;
use crate::sm::trans::StateContext;
use crate::sm::trans::Transition;
use crate::sm::trans::Verdict;
use vstd::laws_eq::obeys_concrete_eq;
use vstd::prelude::*;

verus! {

/// The points of a machine's life at which a context can be handed out.
pub enum Stage {
    EventNotAccept,
    StateChanged,
    StateEntry,
    StateExit,
    StateMachineErr,
    StateMachineStart,
    StateMachineStop,
    Transition,
    TransionStart,
    TransionEnd,
}

/// A machine: its initial, terminal and current state, the failure that
/// stopped it, if any, its table of transitions and its observers.
#[verifier::reject_recursive_types(S)]
#[verifier::reject_recursive_types(E)]
pub struct StateMachine<S: StateId, E: EventId> {
    init: State<S>,
    end: State<S>,
    current: State<S>,
    err: Option<String>,
    trans: Vec<Transition<S, E>>,
    notify: StateMachineNotify<S, E>,
}

impl<S: StateId, E: EventId> View for StateMachine<S, E> {
    type V = Machine<S, E>;

    closed spec fn view(&self) -> Machine<S, E> {
        Machine {
            initial: self.init@,
            terminal: self.end@,
            current: self.current@,
            sticky: match self.err {
                Some(text) => Some(text@),
                None => None,
            },
            table: Transition::edges(self.trans@),
        }
    }
}

impl<S: StateId, E: EventId> StateMachine<S, E> {
    /// The transitions of the table, callbacks included, in insertion
    /// order.
    pub closed spec fn transitions(&self) -> Seq<Transition<S, E>> {
        self.trans@
    }

    /// The registered observers, oldest first.
    pub closed spec fn listeners(&self) -> Seq<Subscription<S, E>> {
        self.notify@
    }

    /// Identities compare by value, and no transition occurs twice in the
    /// table.
    #[verifier::type_invariant]
    spec fn wf(&self) -> bool {
        &&& obeys_concrete_eq::<S>()
        &&& obeys_concrete_eq::<E>()
        &&& self@.distinct()
    }

    /// The model's table is that of the transitions held.
    pub proof fn lemma_table(&self)
        ensures
            self@.table == Transition::edges(self.transitions()),
    {
    }

    /// Tells every observer of `tran`.
    pub fn notify_transition(&self, tran: &Transition<S, E>) {
        self.notify.notify_transition(tran)
    }

    /// Registers `listener` behind the observers registered before. The
    /// machine itself stays as it was.
    pub fn add_listener(&mut self, listener: Box<dyn StateMachineListener<S, E>>)
        ensures
            final(self).listeners().len() == old(self).listeners().len() + 1,
            final(self).listeners().drop_last() == old(self).listeners(),
            final(self)@ == old(self)@,
            final(self).transitions() == old(self).transitions(),
    {
        proof {
            use_type_invariant(&*self);
        }
        let mut notify = StateMachineNotify::new();
        core::mem::swap(&mut notify, &mut self.notify);
        notify.addListener(listener);
        core::mem::swap(&mut notify, &mut self.notify);
    }

    /// The transitions of the table, in insertion order.
    pub fn all_trans(&self) -> (all: Vec<&Transition<S, E>>)
        ensures
            all@.len() == self.transitions().len(),
            forall|i: int| 0 <= i < all@.len() ==> *#[trigger] all@[i] == self.transitions()[i],
    {
        let mut all: Vec<&Transition<S, E>> = Vec::new();
        let mut i: usize = 0;
        while i < self.trans.len()
            invariant
                i <= self.trans@.len(),
                all@.len() == i,
                forall|j: int| 0 <= j < i ==> *#[trigger] all@[j] == self.trans@[j],
            decreases self.trans@.len() - i,
        {
            all.push(&self.trans[i]);
            i += 1;
        }
        all
    }

    /// The transitions that the table holds for `event`, in insertion
    /// order.
    pub fn event_trans(&self, event: &E) -> (group: Vec<&Transition<S, E>>)
        ensures
            group@.map_values(|tran: &Transition<S, E>| tran@) == self@.by_event(*event),
    {
        proof {
            use_type_invariant(self);
        }
        let ghost on_event = |edge: Edge<S, E>| edge.event == *event;
        let mut group: Vec<&Transition<S, E>> = Vec::new();
        let mut i: usize = 0;
        proof {
            reveal(Seq::filter);
            assert(self@.table.take(0).len() == 0);
            assert(group@.map_values(|tran: &Transition<S, E>| tran@) =~= self@.table.take(
                0,
            ).filter(on_event));
        }
        while i < self.trans.len()
            invariant
                self.wf(),
                i <= self.trans@.len(),
                on_event == |edge: Edge<S, E>| edge.event == *event,
                group@.map_values(|tran: &Transition<S, E>| tran@) == self@.table.take(
                    i as int,
                ).filter(on_event),
            decreases self.trans@.len() - i,
        {
            let tran = &self.trans[i];
            proof {
                reveal(obeys_concrete_eq);
                reveal(Seq::filter);
                let next = self@.table.take(i + 1);
                assert(next.drop_last() =~= self@.table.take(i as int));
                assert(next.last() == tran@);
            }
            let ghost before = group@;
            if *tran.event() == *event {
                group.push(tran);
                assert(group@.map_values(|tran: &Transition<S, E>| tran@) =~= before.map_values(
                    |tran: &Transition<S, E>| tran@,
                ).push(tran@));
            }
            i += 1;
        }
        proof {
            assert(self@.table.take(self.trans@.len() as int) =~= self@.table);
        }
        group
    }

    /// Whether the machine has not reached its terminal state.
    pub fn is_running(&self) -> (running: bool)
        ensures
            running == self@.running(),
    {
        proof {
            use_type_invariant(self);
            reveal(obeys_concrete_eq);
        }
        !(self.current == self.end)
    }

    /// Whether a guard or an action has failed, which stops the machine for
    /// good.
    pub fn has_err(&self) -> (failed: bool)
        ensures
            failed == (self@.sticky is Some),
    {
        match self.err {
            Some(_) => true,
            None => false,
        }
    }

    /// The current state.
    pub fn get_state(&self) -> (state: &State<S>)
        ensures
            state@ == self@.current,
    {
        &self.current
    }

    /// The state in which the machine started.
    pub fn initial_state(&self) -> (state: &State<S>)
        ensures
            state@ == self@.initial,
    {
        &self.init
    }

    /// The state in which the machine stops.
    pub fn terminal_state(&self) -> (state: &State<S>)
        ensures
            state@ == self@.terminal,
    {
        &self.end
    }

    /// Finds the transition that `event` selects: none once the machine has
    /// failed or has reached its terminal state, else the first transition
    /// of the table that leaves the current state on `event`.
    pub fn select(&self, event: &E) -> (pick: Option<usize>)
        ensures
            match pick {
                Some(i) => self@.selected(*event) == Some(i as int),
                None => self@.selected(*event) is None,
            },
    {
        proof {
            use_type_invariant(self);
        }
        if self.has_err() {
            return None;
        }
        if !self.is_running() {
            return None;
        }
        let mut i: usize = 0;
        while i < self.trans.len()
            invariant
                i <= self.trans@.len(),
                self.wf(),
                self@.sticky is None,
                self@.running(),
                self@.table == Transition::edges(self.trans@),
                forall|j: int| 0 <= j < i ==> !(#[trigger] self@.table[j]).fires(self@.current, *event),
            decreases self.trans@.len() - i,
        {
            let tran = &self.trans[i];
            proof {
                reveal(obeys_concrete_eq);
                assert(self@.table[i as int] == tran@);
            }
            if *tran.source() == self.current && *tran.event() == *event {
                proof {
                    self@.lemma_first_firing_unique(*event, i as int);
                }
                return Some(i);
            }
            i += 1;
        }
        None
    }

    /// Records how the evaluation of the selected transition `index` ended:
    /// a pass moves the machine to the target, a failure stops it for good,
    /// and a guard that declined leaves it as it was. This is the step that
    /// `send_event` takes once guard and action have answered; it is open to
    /// hosts that evaluate them on their own.
    pub fn settle(&mut self, index: usize, verdict: Verdict) -> (accepted: bool)
        requires
            index < old(self)@.table.len(),
            old(self)@.selected(old(self)@.table[index as int].event) == Some(index as int),
        ensures
            final(self).transitions() == old(self).transitions(),
            final(self).listeners() == old(self).listeners(),
            final(self)@ == old(self)@.step(old(self)@.table[index as int].event, verdict@),
            accepted == old(self)@.accepts(old(self)@.table[index as int].event, verdict@),
    {
        proof {
            use_type_invariant(&*self);
        }
        match verdict {
            Verdict::Passed => {
                self.current = *self.trans[index].target();
                true
            },
            Verdict::Declined => false,
            Verdict::GuardFailed(text) => {
                self.err = Some(text);
                false
            },
            Verdict::ActionFailed(text) => {
                self.err = Some(text);
                false
            },
        }
    }

    /// Feeds one message to the machine. The event selects a transition as
    /// `select` says; its guard and action are evaluated on the context of
    /// that transition and the message; what they answer decides the step: a
    /// pass commits the transition and tells the observers. Returns whether
    /// a transition was committed.
    pub fn send_event(&mut self, message: &Message<E>) -> (accepted: bool)
        ensures
            final(self).transitions() == old(self).transitions(),
            final(self).listeners() == old(self).listeners(),
            match old(self)@.selected(message.payload_spec()) {
                None => !accepted && final(self)@ == old(self)@,
                Some(i) => exists|verdict: Verdict|
                    (old(self).transitions()[i].evaluates_to(
                        &StateContext::of(
                            Stage::Transition,
                            &old(self).transitions()[i].route_spec(),
                            message,
                        ),
                        verdict,
                    ) && verdict@.possible_for(
                        old(self).transitions()[i].guarded(),
                        old(self).transitions()[i].acting(),
                    ) && final(self)@ == #[trigger] old(self)@.step(message.payload_spec(), verdict@)
                        && accepted == old(self)@.accepts(message.payload_spec(), verdict@)),
            },
    {
        match self.select(message.get_payload()) {
            None => false,
            Some(index) => {
                let tran = &self.trans[index];
                let ctx = StateContext::new(Stage::Transition, tran.route(), message);
                let verdict = tran.attempt(&ctx);
                let ghost judged = verdict;
                let accepted = self.settle(index, verdict);
                assert(self@ == old(self)@.step(message.payload_spec(), judged@));
                if accepted {
                    assert(old(self)@.announces(message.payload_spec(), judged@) == Some(
                        self.trans@[index as int]@,
                    ));
                    self.notify.notify_transition(&self.trans[index]);
                }
                accepted
            },
        }
    }

    /// A machine in its initial state, without observers. Its table is
    /// `trans` without the transitions that equal an earlier one.
    pub fn new(init: State<S>, end: State<S>, trans: Vec<Transition<S, E>>) -> (machine:
        StateMachine<S, E>)
        requires
            obeys_concrete_eq::<S>(),
            obeys_concrete_eq::<E>(),
        ensures
            machine@.distinct(),
            machine.transitions() == Transition::dedup(trans@),
            machine.listeners() == Seq::<Subscription<S, E>>::empty(),
            machine@ == (Machine {
                initial: init@,
                terminal: end@,
                current: init@,
                sticky: None,
                table: Transition::edges(Transition::dedup(trans@)),
            }),
    {
        let table = Transition::unique(trans);
        proof {
            Transition::lemma_dedup_distinct(trans@);
        }
        StateMachine {
            init,
            end,
            current: init,
            err: None,
            trans: table,
            notify: StateMachineNotify::new(),
        }
    }
}

} // verus!
