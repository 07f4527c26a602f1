//! States and the requirements on state identities.

use std::fmt::Debug;
use std::hash::Hash;
use vstd::prelude::*;
use vstd::std_specs::cmp::PartialEqSpec;
use vstd::std_specs::cmp::PartialEqSpecImpl;

verus! {

/// What a host type must offer to serve as the identity of a state.
pub trait StateId: PartialEq + Eq + Copy + Debug + Hash {}

/// A state of a machine: an immutable wrapper around its identity.
#[derive(Clone, Copy, Debug, Hash)]
pub struct State<S: StateId> {
    id: S,
}

impl<S: StateId> View for State<S> {
    type V = S;

    /// A state is modelled by its identity.
    closed spec fn view(&self) -> S {
        self.id
    }
}

impl<S: StateId> State<S> {
    /// The state with the identity `id`.
    pub fn new(id: S) -> (state: Self)
        ensures
            state@ == id,
    {
        State { id }
    }

    /// The identity of the state.
    pub fn id(&self) -> (id: &S)
        ensures
            *id == self@,
    {
        &self.id
    }
}

impl<S: StateId> PartialEq for State<S> {
    fn eq(&self, other: &State<S>) -> (same: bool) {
        self.id == other.id
    }
}

impl<S: StateId> PartialEqSpecImpl for State<S> {
    open spec fn obeys_eq_spec() -> bool {
        S::obeys_eq_spec()
    }

    /// Two states are equal exactly when their identities are.
    open spec fn eq_spec(&self, other: &State<S>) -> bool {
        self@.eq_spec(&other@)
    }
}

impl<S: StateId> Eq for State<S> {}

} // verus!
