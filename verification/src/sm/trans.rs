//! Transitions, the callbacks they carry, and the builder of one transition.

use crate::sm::model::Edge;
use crate::sm::model::Outcome;
use crate::sm::msg::EventId;
use crate::sm::msg::Message;
use crate::sm::state::State;
use crate::sm::state::StateId;
use crate::sm::Stage;
use vstd::laws_eq::obeys_concrete_eq;
use vstd::prelude::*;
use vstd::std_specs::cmp::PartialEqSpec;
use vstd::std_specs::cmp::PartialEqSpecImpl;

verus! {

/// The two states and the event of a transition, without its callbacks.
#[derive(Clone, Copy, Debug)]
pub struct Route<S: StateId, E: EventId> {
    source: State<S>,
    target: State<S>,
    event: E,
}

impl<S: StateId, E: EventId> View for Route<S, E> {
    type V = Edge<S, E>;

    closed spec fn view(&self) -> Edge<S, E> {
        Edge { source: self.source@, target: self.target@, event: self.event }
    }
}

impl<S: StateId, E: EventId> Route<S, E> {
    /// The route from `source` to `target` on `event`.
    pub fn new(source: State<S>, target: State<S>, event: E) -> (route: Route<S, E>)
        ensures
            route@ == (Edge { source: source@, target: target@, event: event }),
    {
        Route { source, target, event }
    }

    /// The state that the transition leaves.
    pub fn source(&self) -> (source: &State<S>)
        ensures
            source@ == self@.source,
    {
        &self.source
    }

    /// The state that the transition enters.
    pub fn target(&self) -> (target: &State<S>)
        ensures
            target@ == self@.target,
    {
        &self.target
    }

    /// The event that triggers the transition.
    pub fn event(&self) -> (event: &E)
        ensures
            *event == self@.event,
    {
        &self.event
    }
}

/// What a guard or an action gets to see: the route of the transition under
/// evaluation and the message that selected it.
pub struct StateContext<'a, S: StateId, E: EventId> {
    stage: Stage,
    message: &'a Message<E>,
    tran: &'a Route<S, E>,
}

impl<'a, S: StateId, E: EventId> StateContext<'a, S, E> {
    /// The point of the machine's life that the context was made for.
    pub closed spec fn stage_spec(&self) -> Stage {
        self.stage
    }

    /// The route of the transition under evaluation.
    pub closed spec fn tran_spec(&self) -> Route<S, E> {
        *self.tran
    }

    /// The message under evaluation.
    pub closed spec fn message_spec(&self) -> Message<E> {
        *self.message
    }

    /// The context of `tran` and `message` at `stage`.
    pub closed spec fn of(stage: Stage, tran: &'a Route<S, E>, message: &'a Message<E>) -> StateContext<
        'a,
        S,
        E,
    > {
        StateContext { stage, message, tran }
    }

    /// The context of `tran` and `message` at `stage`.
    pub fn new(stage: Stage, tran: &'a Route<S, E>, message: &'a Message<E>) -> (ctx:
        StateContext<'a, S, E>)
        ensures
            ctx == StateContext::of(stage, tran, message),
            ctx.stage_spec() == stage,
            ctx.tran_spec() == *tran,
            ctx.message_spec() == *message,
    {
        StateContext { stage, tran, message }
    }

    /// The route of the transition under evaluation.
    pub fn tran(&self) -> (tran: &Route<S, E>)
        ensures
            *tran == self.tran_spec(),
    {
        self.tran
    }

    /// The message under evaluation.
    pub fn message(&self) -> (message: &Message<E>)
        ensures
            *message == self.message_spec(),
    {
        self.message
    }
}

/// A predicate that decides whether a selected transition is taken. It
/// answers yes or no, or fails with a text.
pub trait Guard<S: StateId, E: EventId> {
    fn check(&self, ctx: &StateContext<S, E>) -> Result<bool, String>;
}

/// A callback that runs once a transition is accepted, before the state
/// changes. It succeeds, or fails with a text.
pub trait Action<S: StateId, E: EventId> {
    fn run(&self, ctx: &StateContext<S, E>) -> Result<(), String>;
}

/// Whether `answer` is an answer that `guard` gives when it is asked about
/// `ctx`.
pub open spec fn guard_answers<S: StateId, E: EventId, G: Guard<S, E> + ?Sized>(
    guard: &G,
    ctx: &StateContext<S, E>,
    answer: Result<bool, String>,
) -> bool {
    call_ensures(G::check, (guard, ctx), answer)
}

/// Whether `answer` is an answer that `action` gives when it is run on
/// `ctx`.
pub open spec fn action_answers<S: StateId, E: EventId, A: Action<S, E> + ?Sized>(
    action: &A,
    ctx: &StateContext<S, E>,
    answer: Result<(), String>,
) -> bool {
    call_ensures(A::run, (action, ctx), answer)
}

/// Asks `guard` about `ctx`.
fn ask_guard<S: StateId, E: EventId, G: Guard<S, E> + ?Sized>(
    guard: &G,
    ctx: &StateContext<S, E>,
) -> (answer: Result<bool, String>)
    ensures
        guard_answers(guard, ctx, answer),
{
    guard.check(ctx)
}

/// Runs `action` on `ctx`.
fn run_action<S: StateId, E: EventId, A: Action<S, E> + ?Sized>(
    action: &A,
    ctx: &StateContext<S, E>,
) -> (answer: Result<(), String>)
    ensures
        action_answers(action, ctx, answer),
{
    action.run(ctx)
}

/// How the evaluation of one transition ended.
pub enum Verdict {
    /// The guard, if any, held and the action, if any, succeeded.
    Passed,
    /// The guard answered no.
    Declined,
    /// The guard failed, with this text.
    GuardFailed(String),
    /// The action failed, with this text.
    ActionFailed(String),
}

impl View for Verdict {
    type V = Outcome;

    open spec fn view(&self) -> Outcome {
        match self {
            Verdict::Passed => Outcome::Passed,
            Verdict::Declined => Outcome::Declined,
            Verdict::GuardFailed(text) => Outcome::GuardFailed(text@),
            Verdict::ActionFailed(text) => Outcome::ActionFailed(text@),
        }
    }
}

impl Verdict {
    /// What the guard's answer settles: a yes leaves the verdict to the
    /// action, a no declines, a failure fails with the guard's text.
    pub open spec fn settled_by_guard(answer: Result<bool, String>) -> Option<Verdict> {
        match answer {
            Ok(true) => None,
            Ok(false) => Some(Verdict::Declined),
            Err(text) => Some(Verdict::GuardFailed(text)),
        }
    }

    /// What the action's answer settles, once the guard has said yes: no
    /// action or a success passes, a failure fails with the action's text.
    pub open spec fn settled_by_action(answer: Option<Result<(), String>>) -> Verdict {
        match answer {
            None => Verdict::Passed,
            Some(Ok(())) => Verdict::Passed,
            Some(Err(text)) => Verdict::ActionFailed(text),
        }
    }

    /// What the guard's answer settles: a yes leaves the verdict to the
    /// action, a no declines, a failure fails with the guard's text.
    pub fn after_guard(answer: Result<bool, String>) -> (verdict: Option<Verdict>)
        ensures
            verdict == Verdict::settled_by_guard(answer),
    {
        match answer {
            Ok(true) => None,
            Ok(false) => Some(Verdict::Declined),
            Err(text) => Some(Verdict::GuardFailed(text)),
        }
    }

    /// What the action's answer settles, once the guard has said yes: no
    /// action or a success passes, a failure fails with the action's text.
    pub fn after_action(answer: Option<Result<(), String>>) -> (verdict: Verdict)
        ensures
            verdict == Verdict::settled_by_action(answer),
    {
        match answer {
            None => Verdict::Passed,
            Some(Ok(())) => Verdict::Passed,
            Some(Err(text)) => Verdict::ActionFailed(text),
        }
    }
}

/// An edge of the machine: from `source` to `target` on `event`, with an
/// optional guard and an optional action.
#[verifier::reject_recursive_types(S)]
#[verifier::reject_recursive_types(E)]
pub struct Transition<S: StateId, E: EventId> {
    route: Route<S, E>,
    guard: Option<Box<dyn Guard<S, E>>>,
    action: Option<Box<dyn Action<S, E>>>,
}

impl<S: StateId, E: EventId> View for Transition<S, E> {
    type V = Edge<S, E>;

    closed spec fn view(&self) -> Edge<S, E> {
        self.route@
    }
}

impl<S: StateId, E: EventId> Transition<S, E> {
    /// The model's view of a list of transitions.
    pub open spec fn edges(all: Seq<Transition<S, E>>) -> Seq<Edge<S, E>> {
        all.map_values(|tran: Transition<S, E>| tran@)
    }

    /// The guard that the transition carries.
    pub closed spec fn guard_spec(&self) -> Option<Box<dyn Guard<S, E>>> {
        self.guard
    }

    /// The action that the transition carries.
    pub closed spec fn action_spec(&self) -> Option<Box<dyn Action<S, E>>> {
        self.action
    }

    /// Whether the transition carries a guard.
    pub open spec fn guarded(&self) -> bool {
        self.guard_spec() is Some
    }

    /// Whether the transition carries an action.
    pub open spec fn acting(&self) -> bool {
        self.action_spec() is Some
    }

    /// The two states and the event of the transition.
    pub closed spec fn route_spec(&self) -> Route<S, E> {
        self.route
    }

    /// The two states and the event of the transition.
    pub fn route(&self) -> (route: &Route<S, E>)
        ensures
            *route == self.route_spec(),
            route@ == self@,
    {
        &self.route
    }

    /// Whether `answer` is what evaluating the guard on `ctx` gives: yes
    /// where the transition has no guard, else an answer of its guard.
    pub open spec fn guard_gives(&self, ctx: &StateContext<S, E>, answer: Result<bool, String>) -> bool {
        match self.guard_spec() {
            Some(guard) => guard_answers::<S, E, dyn Guard<S, E>>(&*guard, ctx, answer),
            None => answer == Ok::<bool, String>(true),
        }
    }

    /// Whether `answer` is what running the action on `ctx` gives: nothing
    /// where the transition has no action, else an answer of its action.
    pub open spec fn action_gives(
        &self,
        ctx: &StateContext<S, E>,
        answer: Option<Result<(), String>>,
    ) -> bool {
        match self.action_spec() {
            Some(action) => answer is Some && action_answers::<S, E, dyn Action<S, E>>(
                &*action,
                ctx,
                answer->0,
            ),
            None => answer is None,
        }
    }

    /// Whether `verdict` is what evaluating the transition on `ctx` gives:
    /// the guard answers first; a no or a failure of the guard settles the
    /// verdict; after a yes the action runs, and its answer settles it.
    pub open spec fn evaluates_to(&self, ctx: &StateContext<S, E>, verdict: Verdict) -> bool {
        exists|asked: Result<bool, String>| #[trigger]
            self.guard_gives(ctx, asked) && match Verdict::settled_by_guard(asked) {
                Some(settled) => verdict == settled,
                None => exists|ran: Option<Result<(), String>>| #[trigger]
                    self.action_gives(ctx, ran) && verdict == Verdict::settled_by_action(ran),
            }
    }

    /// Evaluates the guard. A transition without a guard always passes;
    /// else the answer is the one that the guard gives for `ctx`.
    pub fn transit(&self, ctx: &StateContext<S, E>) -> (answer: Result<bool, String>)
        ensures
            self.guard_gives(ctx, answer),
            !self.guarded() ==> answer == Ok::<bool, String>(true),
    {
        if let Some(guard) = &self.guard {
            ask_guard::<S, E, dyn Guard<S, E>>(&**guard, ctx)
        } else {
            Ok(true)
        }
    }

    /// Runs the action, if the transition carries one, and hands back the
    /// answer that the action gives for `ctx`.
    pub fn perform(&self, ctx: &StateContext<S, E>) -> (answer: Option<Result<(), String>>)
        ensures
            self.action_gives(ctx, answer),
            answer is Some == self.acting(),
    {
        match &self.action {
            Some(action) => Some(run_action::<S, E, dyn Action<S, E>>(&**action, ctx)),
            None => None,
        }
    }

    /// Evaluates the guard and, where it holds, runs the action; their
    /// answers decide the verdict.
    pub fn attempt(&self, ctx: &StateContext<S, E>) -> (verdict: Verdict)
        ensures
            self.evaluates_to(ctx, verdict),
            verdict@.possible_for(self.guarded(), self.acting()),
    {
        let asked = self.transit(ctx);
        match Verdict::after_guard(asked) {
            Some(verdict) => verdict,
            None => {
                let ran = self.perform(ctx);
                Verdict::after_action(ran)
            },
        }
    }

    /// The transition from `source` to `target` on `event`, with the given
    /// action and guard.
    pub fn new(
        source: State<S>,
        target: State<S>,
        event: E,
        action: Option<Box<dyn Action<S, E>>>,
        guard: Option<Box<dyn Guard<S, E>>>,
    ) -> (tran: Transition<S, E>)
        ensures
            tran@ == (Edge { source: source@, target: target@, event: event }),
            tran.guard_spec() == guard,
            tran.action_spec() == action,
    {
        Transition { route: Route::new(source, target, event), guard, action }
    }

    /// The state that the transition leaves.
    pub fn source(&self) -> (source: &State<S>)
        ensures
            source@ == self@.source,
    {
        self.route.source()
    }

    /// The state that the transition enters.
    pub fn target(&self) -> (target: &State<S>)
        ensures
            target@ == self@.target,
    {
        self.route.target()
    }

    /// The event that triggers the transition.
    pub fn event(&self) -> (event: &E)
        ensures
            *event == self@.event,
    {
        self.route.event()
    }

    /// The action that the transition carries, if any.
    pub fn action(&self) -> (action: Option<&Box<dyn Action<S, E>>>)
        ensures
            match action {
                Some(a) => self.action_spec() == Some(*a),
                None => self.action_spec() is None,
            },
    {
        self.action.as_ref()
    }

    /// Whether `seen` holds a transition equal to `tran`.
    pub open spec fn known(seen: Seq<Transition<S, E>>, tran: Transition<S, E>) -> bool {
        exists|i: int| 0 <= i < seen.len() && (#[trigger] seen[i])@.same_as(tran@)
    }

    /// Entry `i` of `all` equals none of the entries before it.
    pub open spec fn first_of_its_kind(all: Seq<Transition<S, E>>, i: int) -> bool {
        &&& 0 <= i < all.len()
        &&& forall|j: int| 0 <= j < i ==> !(#[trigger] all[j])@.same_as(all[i]@)
    }

    /// `all` without the transitions that equal an earlier one: of equal
    /// transitions the first stays, with its guard and action.
    pub open spec fn dedup(all: Seq<Transition<S, E>>) -> Seq<Transition<S, E>>
        decreases all.len(),
    {
        if all.len() == 0 {
            Seq::empty()
        } else {
            let kept = Self::dedup(all.drop_last());
            if Self::known(kept, all.last()) {
                kept
            } else {
                kept.push(all.last())
            }
        }
    }

    /// Every kept transition stems from `all`, and none equals another.
    pub proof fn lemma_dedup_distinct(all: Seq<Transition<S, E>>)
        ensures
            forall|k: int|
                0 <= k < Self::dedup(all).len() ==> all.contains(#[trigger] Self::dedup(all)[k]),
            forall|i: int, j: int|
                0 <= i < j < Self::dedup(all).len() ==> !(#[trigger] Self::edges(
                    Self::dedup(all),
                )[i]).same_as(#[trigger] Self::edges(Self::dedup(all))[j]),
        decreases all.len(),
    {
        if all.len() > 0 {
            let front = all.drop_last();
            Self::lemma_dedup_distinct(front);
            let kept = Self::dedup(front);
            let now = Self::dedup(all);
            assert forall|k: int| 0 <= k < now.len() implies all.contains(#[trigger] now[k]) by {
                if k < kept.len() {
                    assert(front.contains(kept[k]));
                    let w = choose|w: int| 0 <= w < front.len() && front[w] == kept[k];
                    assert(all[w] == kept[k]);
                } else {
                    assert(all[all.len() - 1] == now[k]);
                }
            }
            assert forall|i: int, j: int| 0 <= i < j < now.len() implies !(#[trigger] Self::edges(
                now,
            )[i]).same_as(#[trigger] Self::edges(now)[j]) by {
                if j < kept.len() {
                    assert(Self::edges(kept)[i] == kept[i]@);
                    assert(Self::edges(kept)[j] == kept[j]@);
                } else {
                    assert(!Self::known(kept, all.last()));
                    assert(now[i] == kept[i]);
                    assert(!kept[i]@.same_as(all.last()@));
                }
            }
        }
    }

    /// Whether `seen` holds a transition equal to `tran`.
    pub fn is_known(seen: &Vec<Transition<S, E>>, tran: &Transition<S, E>) -> (found: bool)
        requires
            obeys_concrete_eq::<S>(),
            obeys_concrete_eq::<E>(),
        ensures
            found == Self::known(seen@, *tran),
    {
        let mut i: usize = 0;
        while i < seen.len()
            invariant
                obeys_concrete_eq::<S>(),
                obeys_concrete_eq::<E>(),
                i <= seen@.len(),
                forall|j: int| 0 <= j < i ==> !(#[trigger] seen@[j])@.same_as(tran@),
            decreases seen@.len() - i,
        {
            if seen[i].same_edge(tran) {
                return true;
            }
            i += 1;
        }
        false
    }

    /// Drops every transition that equals an earlier one.
    pub fn unique(all: Vec<Transition<S, E>>) -> (kept: Vec<Transition<S, E>>)
        requires
            obeys_concrete_eq::<S>(),
            obeys_concrete_eq::<E>(),
        ensures
            kept@ == Self::dedup(all@),
    {
        let mut kept: Vec<Transition<S, E>> = Vec::new();
        for tran in it: all
            invariant
                obeys_concrete_eq::<S>(),
                obeys_concrete_eq::<E>(),
                it.seq() == all@,
                kept@ == Self::dedup(all@.take(it.index() as int)),
        {
            proof {
                let k = it.index() as int;
                assert(all@.take(k + 1).drop_last() =~= all@.take(k));
                assert(all@.take(k + 1).last() == tran);
            }
            if !Self::is_known(&kept, &tran) {
                kept.push(tran);
            }
        }
        proof {
            assert(all@.take(all@.len() as int) =~= all@);
        }
        kept
    }

    /// Whether the two transitions are equal: guards and actions are not
    /// compared.
    pub fn same_edge(&self, other: &Transition<S, E>) -> (same: bool)
        requires
            obeys_concrete_eq::<S>(),
            obeys_concrete_eq::<E>(),
        ensures
            same == self@.same_as(other@),
    {
        proof {
            reveal(obeys_concrete_eq);
        }
        *self == *other
    }
}

impl<S: StateId, E: EventId> PartialEq for Transition<S, E> {
    fn eq(&self, other: &Self) -> (same: bool) {
        *self.route.source() == *other.route.source() && *self.route.target()
            == *other.route.target() && *self.route.event() == *other.route.event()
    }
}

impl<S: StateId, E: EventId> PartialEqSpecImpl for Transition<S, E> {
    open spec fn obeys_eq_spec() -> bool {
        S::obeys_eq_spec() && E::obeys_eq_spec()
    }

    /// Equality looks at source, target and event only.
    open spec fn eq_spec(&self, other: &Self) -> bool {
        self@.source.eq_spec(&other@.source) && self@.target.eq_spec(&other@.target)
            && self@.event.eq_spec(&other@.event)
    }
}

/// What a builder of one transition has been given so far.
#[verifier::reject_recursive_types(S)]
#[verifier::reject_recursive_types(E)]
pub struct Draft<S: StateId, E: EventId> {
    pub source: Option<S>,
    pub target: Option<S>,
    pub event: Option<E>,
    pub action: Option<Box<dyn Action<S, E>>>,
    pub guard: Option<Box<dyn Guard<S, E>>>,
}

impl<S: StateId, E: EventId> Draft<S, E> {
    /// Nothing has been given yet.
    pub open spec fn empty() -> Draft<S, E> {
        Draft { source: None, target: None, event: None, action: None, guard: None }
    }

    /// Source, target and event are there: a transition can be built.
    pub open spec fn complete(self) -> bool {
        self.source is Some && self.target is Some && self.event is Some
    }

    /// The transition that the draft describes.
    pub open spec fn edge(self) -> Edge<S, E>
        recommends
            self.complete(),
    {
        Edge { source: self.source->0, target: self.target->0, event: self.event->0 }
    }
}

/// Collects the fields of one transition. Source, target and event are
/// given in that order; action and guard may follow and default to absent.
/// A call out of order is a configuration error, a defect of the calling
/// code: the preconditions hold verified callers to the order, and code
/// that is not verified fails fast at the call.
#[verifier::reject_recursive_types(S)]
#[verifier::reject_recursive_types(E)]
pub struct TransitionBuilder<S: StateId, E: EventId> {
    source: Option<State<S>>,
    target: Option<State<S>>,
    event: Option<E>,
    action: Option<Box<dyn Action<S, E>>>,
    guard: Option<Box<dyn Guard<S, E>>>,
}

impl<S: StateId, E: EventId> View for TransitionBuilder<S, E> {
    type V = Draft<S, E>;

    closed spec fn view(&self) -> Draft<S, E> {
        Draft {
            source: match self.source {
                Some(state) => Some(state@),
                None => None,
            },
            target: match self.target {
                Some(state) => Some(state@),
                None => None,
            },
            event: self.event,
            action: self.action,
            guard: self.guard,
        }
    }
}

impl<S: StateId, E: EventId> TransitionBuilder<S, E> {
    /// Yields the transition and leaves the builder empty.
    pub fn build(&mut self) -> (tran: Transition<S, E>)
        requires
            old(self)@.complete(),
        ensures
            tran@ == old(self)@.edge(),
            tran.action_spec() == old(self)@.action,
            tran.guard_spec() == old(self)@.guard,
            final(self)@ == Draft::<S, E>::empty(),
    {
        let tran = Transition::new(
            self.source.take().expect("source state absent!"),
            self.target.take().expect("target state absent!"),
            self.event.take().expect("event absent"),
            self.action.take(),
            self.guard.take(),
        );
        tran
    }

    /// Sets or clears the guard, once source, target and event are there.
    pub fn guard(&mut self, guard: Option<Box<dyn Guard<S, E>>>) -> (builder: &mut Self)
        requires
            old(self)@.complete(),
        ensures
            builder@ == (Draft { guard: guard, ..old(self)@ }),
            *final(self) == *final(builder),
    {
        self.source.as_ref().expect("source absent");
        self.target.as_ref().expect("target absent");
        self.event.as_ref().expect("event absent");
        self.guard = guard;
        self
    }

    /// Sets or clears the action, once source, target and event are there.
    pub fn action(&mut self, act: Option<Box<dyn Action<S, E>>>) -> (builder: &mut Self)
        requires
            old(self)@.complete(),
        ensures
            builder@ == (Draft { action: act, ..old(self)@ }),
            *final(self) == *final(builder),
    {
        self.source.as_ref().expect("source absent");
        self.target.as_ref().expect("target absent");
        self.event.as_ref().expect("event absent");
        self.action = act;
        self
    }

    /// Sets the event, once source and target are there.
    pub fn event(&mut self, event: E) -> (builder: &mut Self)
        requires
            old(self)@.source is Some,
            old(self)@.target is Some,
        ensures
            builder@ == (Draft { event: Some(event), ..old(self)@ }),
            *final(self) == *final(builder),
    {
        self.source.as_ref().expect("source absent");
        self.target.as_ref().expect("target absent");
        self.event = Some(event);
        self
    }

    /// Sets the target, once the source is there.
    pub fn target(&mut self, target: State<S>) -> (builder: &mut Self)
        requires
            old(self)@.source is Some,
        ensures
            builder@ == (Draft { target: Some(target@), ..old(self)@ }),
            *final(self) == *final(builder),
    {
        self.source.as_ref().expect("source absent");
        self.target = Some(target);
        self
    }

    /// Sets the source.
    pub fn source(&mut self, source: State<S>) -> (builder: &mut Self)
        ensures
            builder@ == (Draft { source: Some(source@), ..old(self)@ }),
            *final(self) == *final(builder),
    {
        self.source = Some(source);
        self
    }

    /// A builder that has been given nothing.
    pub fn new() -> (builder: Self)
        ensures
            builder@ == Draft::<S, E>::empty(),
    {
        TransitionBuilder { source: None, target: None, event: None, action: None, guard: None }
    }
}

} // verus!
