//! Laws of the model: what holds of every machine, whatever its table and
//! whatever its guards and actions answer.

use crate::sm::model::Edge;
use crate::sm::model::Machine;
use crate::sm::model::Outcome;
use crate::sm::msg::EventId;
use crate::sm::state::StateId;
use crate::sm::trans::Transition;
use vstd::prelude::*;

verus! {

/// Determinism. Two machines that agree on their table, their terminal
/// state, their current state and their failure, fed the same events with
/// the same outcomes of guards and actions, end in the same state and tell
/// their listeners of the same transitions in the same order.
pub proof fn lemma_runs_are_determined<S, E>(
    a: Machine<S, E>,
    b: Machine<S, E>,
    inputs: Seq<(E, Outcome)>,
)
    requires
        a.table == b.table,
        a.terminal == b.terminal,
        a.current == b.current,
        a.sticky == b.sticky,
    ensures
        a.run(inputs).table == b.run(inputs).table,
        a.run(inputs).terminal == b.run(inputs).terminal,
        a.run(inputs).current == b.run(inputs).current,
        a.run(inputs).sticky == b.run(inputs).sticky,
        a.trace(inputs) == b.trace(inputs),
    decreases inputs.len(),
{
    if inputs.len() > 0 {
        let front = inputs.drop_last();
        lemma_runs_are_determined(a, b, front);
        let event = inputs.last().0;
        let ra = a.run(front);
        let rb = b.run(front);
        assert forall|i: int| ra.first_firing(event, i) == rb.first_firing(event, i) by {}
        assert(ra.selected(event) == rb.selected(event));
    }
}

/// A step never touches the table, the initial state or the terminal
/// state.
pub proof fn lemma_step_keeps_configuration<S, E>(m: Machine<S, E>, event: E, outcome: Outcome)
    ensures
        m.step(event, outcome).table == m.table,
        m.step(event, outcome).initial == m.initial,
        m.step(event, outcome).terminal == m.terminal,
{
}

/// A guard or an action that fails stops the machine: the failure is
/// recorded, the event is rejected and the current state stays.
pub proof fn lemma_failure_is_recorded<S, E>(m: Machine<S, E>, event: E, outcome: Outcome)
    requires
        m.selected(event) is Some,
        outcome is GuardFailed || outcome is ActionFailed,
    ensures
        m.step(event, outcome).sticky is Some,
        m.step(event, outcome).current == m.current,
        !m.accepts(event, outcome),
{
}

/// Sticky failure, one step: a machine that has failed rejects every
/// event, whatever its payload, and does not change.
pub proof fn lemma_failed_machine_rejects<S, E>(m: Machine<S, E>, event: E, outcome: Outcome)
    requires
        m.sticky is Some,
    ensures
        m.step(event, outcome) == m,
        !m.accepts(event, outcome),
        m.announces(event, outcome) is None,
{
}

/// Sticky failure, for good: no sequence of events changes a machine that
/// has failed, and none of them reaches a listener.
pub proof fn lemma_failure_is_permanent<S, E>(m: Machine<S, E>, inputs: Seq<(E, Outcome)>)
    requires
        m.sticky is Some,
    ensures
        m.run(inputs) == m,
        m.trace(inputs) == Seq::<Edge<S, E>>::empty(),
    decreases inputs.len(),
{
    if inputs.len() > 0 {
        lemma_failure_is_permanent(m, inputs.drop_last());
        lemma_failed_machine_rejects(m, inputs.last().0, inputs.last().1);
    }
}

/// Sticky failure, every later call: once the evaluation of a selected
/// transition has failed, the current state is what it was before, and every
/// event that follows is rejected, whatever its payload and whatever guards
/// and actions would answer.
pub proof fn lemma_sticky_failure<S, E>(
    m: Machine<S, E>,
    event: E,
    outcome: Outcome,
    later: Seq<(E, Outcome)>,
)
    requires
        m.selected(event) is Some,
        outcome is GuardFailed || outcome is ActionFailed,
    ensures
        !m.accepts(event, outcome),
        m.step(event, outcome).current == m.current,
        m.step(event, outcome).run(later) == m.step(event, outcome),
        forall|k: int|
            0 <= k < later.len() ==> !(#[trigger] m.step(event, outcome).run(later.take(k))).accepts(
                later[k].0,
                later[k].1,
            ),
{
    let failed = m.step(event, outcome);
    lemma_failure_is_permanent(failed, later);
    assert forall|k: int| 0 <= k < later.len() implies !(#[trigger] failed.run(
        later.take(k),
    )).accepts(later[k].0, later[k].1) by {
        lemma_failure_is_permanent(failed, later.take(k));
        lemma_failed_machine_rejects(failed, later[k].0, later[k].1);
    }
}

/// Terminal sink, one step: a machine in its terminal state is not
/// running, rejects every event and does not change.
pub proof fn lemma_terminal_machine_rejects<S, E>(m: Machine<S, E>, event: E, outcome: Outcome)
    requires
        m.current == m.terminal,
    ensures
        !m.running(),
        m.step(event, outcome) == m,
        !m.accepts(event, outcome),
        m.announces(event, outcome) is None,
{
}

/// Terminal sink, for good: no sequence of events moves a machine out of
/// its terminal state, even where the table holds transitions that leave
/// it.
pub proof fn lemma_terminal_is_a_sink<S, E>(m: Machine<S, E>, inputs: Seq<(E, Outcome)>)
    requires
        m.current == m.terminal,
    ensures
        m.run(inputs) == m,
        m.trace(inputs) == Seq::<Edge<S, E>>::empty(),
    decreases inputs.len(),
{
    if inputs.len() > 0 {
        lemma_terminal_is_a_sink(m, inputs.drop_last());
        lemma_terminal_machine_rejects(m, inputs.last().0, inputs.last().1);
    }
}

/// Terminal sink, every later call: every event fed to a machine in its
/// terminal state is rejected.
pub proof fn lemma_terminal_rejects_all<S, E>(m: Machine<S, E>, later: Seq<(E, Outcome)>)
    requires
        m.current == m.terminal,
    ensures
        forall|k: int| 0 <= k < later.len() ==> !(#[trigger] m.run(later.take(k))).running(),
        forall|k: int|
            0 <= k < later.len() ==> !(#[trigger] m.run(later.take(k))).accepts(
                later[k].0,
                later[k].1,
            ),
{
    assert forall|k: int| 0 <= k < later.len() implies !(#[trigger] m.run(later.take(k))).running()
        && !m.run(later.take(k)).accepts(later[k].0, later[k].1) by {
        lemma_terminal_is_a_sink(m, later.take(k));
        lemma_terminal_machine_rejects(m, later[k].0, later[k].1);
    }
}

/// First match only. Where two entries leave the current state on the
/// same event, the earlier one is selected; when its guard declines, the
/// event is rejected and the machine stays as it was. The later entry is
/// not consulted: nothing here depends on what its guard would answer.
pub proof fn lemma_first_match_only<S, E>(m: Machine<S, E>, event: E, first: int, second: int)
    requires
        m.sticky is None,
        m.running(),
        m.first_firing(event, first),
        first < second < m.table.len(),
        m.table[second].fires(m.current, event),
    ensures
        m.selected(event) == Some(first),
        m.step(event, Outcome::Declined) == m,
        !m.accepts(event, Outcome::Declined),
        m.announces(event, Outcome::Declined) is None,
{
    m.lemma_first_firing_unique(event, first);
}

/// An event commits exactly the selected entry: the machine moves to that
/// entry's target and the listeners are told of that entry.
pub proof fn lemma_pass_commits_selected<S, E>(m: Machine<S, E>, event: E, i: int)
    requires
        m.selected(event) == Some(i),
    ensures
        0 <= i < m.table.len(),
        m.table[i].fires(m.current, event),
        m.accepts(event, Outcome::Passed),
        m.step(event, Outcome::Passed).current == m.table[i].target,
        m.step(event, Outcome::Passed).sticky is None,
        m.announces(event, Outcome::Passed) == Some(m.table[i]),
{
    let k = choose|k: int| m.first_firing(event, k);
    assert(m.first_firing(event, k));
}

/// Scanning a whole sequence for the first element that meets `p` and `q`
/// finds the same element as scanning only the elements that meet `p` for
/// the first that meets `q`.
pub proof fn lemma_first_in_filter<A>(s: Seq<A>, p: spec_fn(A) -> bool, q: spec_fn(A) -> bool, i: int)
    requires
        0 <= i < s.len(),
        p(s[i]) && q(s[i]),
        forall|j: int| 0 <= j < i ==> !(p(#[trigger] s[j]) && q(s[j])),
    ensures
        exists|k: int|
            (0 <= k < s.filter(p).len() && #[trigger] s.filter(p)[k] == s[i] && forall|j: int|
                0 <= j < k ==> !q(#[trigger] s.filter(p)[j])),
    decreases s.len(),
{
    reveal(Seq::filter);
    let front = s.drop_last();
    if i < s.len() - 1 {
        assert(front[i] == s[i]);
        assert forall|j: int| 0 <= j < i implies !(p(#[trigger] front[j]) && q(front[j])) by {
            assert(front[j] == s[j]);
        }
        lemma_first_in_filter(front, p, q, i);
        let k = choose|k: int|
            {
                &&& 0 <= k < front.filter(p).len()
                &&& #[trigger] front.filter(p)[k] == front[i]
                &&& forall|j: int| 0 <= j < k ==> !q(#[trigger] front.filter(p)[j])
            };
        assert(s.filter(p)[k] == s[i]);
        assert forall|j: int| 0 <= j < k implies !q(#[trigger] s.filter(p)[j]) by {
            assert(s.filter(p)[j] == front.filter(p)[j]);
        }
    } else {
        let k = front.filter(p).len() as int;
        assert(s.filter(p) == front.filter(p).push(s.last()));
        assert(s.filter(p)[k] == s[i]);
        assert forall|j: int| 0 <= j < k implies !q(#[trigger] s.filter(p)[j]) by {
            let found = front.filter(p)[j];
            assert(s.filter(p)[j] == found);
            front.lemma_filter_pred(p, j);
            assert(front.filter(p).contains(found));
            front.lemma_filter_contains_rev(p, found);
            let w = choose|w: int| 0 <= w < front.len() && front[w] == found;
            assert(s[w] == found);
        }
    }
}

/// The table indexed by event. The entry that an event selects is the one
/// found by taking the table's entries for that event, in insertion order,
/// and scanning them for the first whose source is the current state.
pub proof fn lemma_selected_within_event_group<S, E>(m: Machine<S, E>, event: E, i: int)
    requires
        m.selected(event) == Some(i),
    ensures
        forall|k: int|
            0 <= k < m.by_event(event).len() ==> (#[trigger] m.by_event(event)[k]).event == event,
        exists|k: int|
            (0 <= k < m.by_event(event).len() && #[trigger] m.by_event(event)[k] == m.table[i]
                && forall|j: int|
                0 <= j < k ==> (#[trigger] m.by_event(event)[j]).source != m.current),
{
    lemma_pass_commits_selected(m, event, i);
    assert(m.first_firing(event, i));
    let on_event = |edge: Edge<S, E>| edge.event == event;
    let at_current = |edge: Edge<S, E>| edge.source == m.current;
    assert forall|k: int| 0 <= k < m.by_event(event).len() implies (#[trigger] m.by_event(
        event,
    )[k]).event == event by {
        m.table.lemma_filter_pred(on_event, k);
    }
    assert forall|j: int| 0 <= j < i implies !(on_event(#[trigger] m.table[j]) && at_current(
        m.table[j],
    )) by {
        assert(!m.table[j].fires(m.current, event));
    }
    lemma_first_in_filter(m.table, on_event, at_current, i);
    let k = choose|k: int|
        {
            &&& 0 <= k < m.table.filter(on_event).len()
            &&& #[trigger] m.table.filter(on_event)[k] == m.table[i]
            &&& forall|j: int| 0 <= j < k ==> !at_current(#[trigger] m.table.filter(on_event)[j])
        };
    assert(m.by_event(event)[k] == m.table[i]);
    assert forall|j: int| 0 <= j < k implies (#[trigger] m.by_event(event)[j]).source
        != m.current by {
        assert(!at_current(m.table.filter(on_event)[j]));
    }
}

/// The table indexed by event, where nothing is selected: while the machine
/// runs and has not failed, no entry for the event has the current state as
/// its source.
pub proof fn lemma_unselected_event_group<S, E>(m: Machine<S, E>, event: E)
    requires
        m.sticky is None,
        m.running(),
        m.selected(event) is None,
    ensures
        forall|k: int|
            0 <= k < m.by_event(event).len() ==> (#[trigger] m.by_event(event)[k]).source
                != m.current,
{
    let on_event = |edge: Edge<S, E>| edge.event == event;
    assert forall|k: int| 0 <= k < m.by_event(event).len() implies (#[trigger] m.by_event(
        event,
    )[k]).source != m.current by {
        let found = m.by_event(event)[k];
        if found.source == m.current {
            m.table.lemma_filter_pred(on_event, k);
            assert(m.table.filter(on_event).contains(found));
            m.table.lemma_filter_contains_rev(on_event, found);
            let w = choose|w: int| 0 <= w < m.table.len() && m.table[w] == found;
            assert(m.table[w].fires(m.current, event));
            lemma_some_entry_fires(m, event, w);
        }
    }
}

/// Where some entry leaves the current state on the event, one of them is
/// the first.
pub proof fn lemma_some_entry_fires<S, E>(m: Machine<S, E>, event: E, w: int)
    requires
        0 <= w < m.table.len(),
        m.table[w].fires(m.current, event),
    ensures
        exists|i: int| m.first_firing(event, i),
    decreases w,
{
    if exists|j: int| 0 <= j < w && (#[trigger] m.table[j]).fires(m.current, event) {
        let j = choose|j: int| 0 <= j < w && (#[trigger] m.table[j]).fires(m.current, event);
        lemma_some_entry_fires(m, event, j);
    } else {
        assert(m.first_firing(event, w));
    }
}

/// Deduplication, two transitions: of two equal transitions given one
/// after the other only the first is kept, with its guard and action.
pub proof fn lemma_duplicate_collapses<S: StateId, E: EventId>(
    first: Transition<S, E>,
    second: Transition<S, E>,
)
    requires
        first@.same_as(second@),
    ensures
        Transition::dedup(seq![first, second]) == seq![first],
{
    let both = seq![first, second];
    let one = both.drop_last();
    assert(one =~= seq![first]);
    let none = one.drop_last();
    assert(none.len() == 0);
    assert(Transition::dedup(none) =~= Seq::<Transition<S, E>>::empty());
    assert(!Transition::known(Transition::dedup(none), first));
    assert(Transition::dedup(one) =~= seq![first]);
    assert(Transition::dedup(one)[0]@.same_as(second@));
    assert(Transition::known(Transition::dedup(one), second));
}

/// Deduplication covers its input: every transition given has an equal
/// one among those kept.
pub proof fn lemma_dedup_covers<S: StateId, E: EventId>(all: Seq<Transition<S, E>>, i: int)
    requires
        0 <= i < all.len(),
    ensures
        Transition::known(Transition::dedup(all), all[i]),
    decreases all.len(),
{
    let front = all.drop_last();
    let kept = Transition::dedup(front);
    let now = Transition::dedup(all);
    if i < front.len() {
        lemma_dedup_covers(front, i);
        assert(front[i] == all[i]);
        let w = choose|w: int| 0 <= w < kept.len() && (#[trigger] kept[w])@.same_as(front[i]@);
        assert(now[w] == kept[w]);
        assert(0 <= w < now.len() && now[w]@.same_as(all[i]@));
    } else if Transition::known(kept, all.last()) {
        assert(now == kept);
    } else {
        let w = now.len() - 1;
        assert(now[w] == all[i]);
        assert(0 <= w < now.len() && now[w]@.same_as(all[i]@));
    }
}

/// Deduplication keeps the first: every transition kept is, guard and
/// action included, the first among those given that are equal to it.
pub proof fn lemma_dedup_keeps_first<S: StateId, E: EventId>(all: Seq<Transition<S, E>>, k: int)
    requires
        0 <= k < Transition::dedup(all).len(),
    ensures
        exists|i: int|
            (#[trigger] Transition::first_of_its_kind(all, i) && all[i] == Transition::dedup(
                all,
            )[k]),
    decreases all.len(),
{
    let front = all.drop_last();
    let kept = Transition::dedup(front);
    let now = Transition::dedup(all);
    if k < kept.len() {
        assert(now[k] == kept[k]);
        lemma_dedup_keeps_first(front, k);
        let i = choose|i: int| #[trigger]
            Transition::first_of_its_kind(front, i) && front[i] == kept[k];
        assert forall|j: int| 0 <= j < i implies !(#[trigger] all[j])@.same_as(all[i]@) by {
            assert(front[j] == all[j]);
            assert(front[i] == all[i]);
        }
        assert(Transition::first_of_its_kind(all, i) && all[i] == now[k]);
    } else {
        let i = all.len() - 1;
        assert(!Transition::known(kept, all.last()));
        assert(now[k] == all[i]);
        assert forall|j: int| 0 <= j < i implies !(#[trigger] all[j])@.same_as(all[i]@) by {
            if all[j]@.same_as(all[i]@) {
                lemma_dedup_covers(front, j);
                let w = choose|w: int|
                    0 <= w < kept.len() && (#[trigger] kept[w])@.same_as(front[j]@);
                assert(front[j] == all[j]);
                assert(kept[w]@.same_as(all.last()@));
            }
        }
        assert(Transition::first_of_its_kind(all, i) && all[i] == now[k]);
    }
}

} // verus!
