//! The syntax tree that the parser builds.
//!
//! Names in the tree are plain text. Nothing is checked here: a machine may
//! declare the same state twice, a state may list the same event twice, and
//! a transition may name a state that no one declares.

use vstd::prelude::*;

verus! {

/// A transition as written: on `event`, go to the state named `target`.
#[derive(Debug, PartialEq, Eq)]
pub struct Transition {
    pub event: String,
    pub target: String,
}

/// A state as written: its name and its transitions in declaration order.
#[derive(Debug, PartialEq, Eq)]
pub struct State {
    pub name: String,
    pub transitions: Vec<Transition>,
}

/// A machine as written: its name and its states in declaration order.
#[derive(Debug, PartialEq, Eq)]
pub struct Machine {
    pub name: String,
    pub states: Vec<State>,
}

/// The mathematical value of a [`Transition`].
pub ghost struct TransitionView {
    pub event: Seq<char>,
    pub target: Seq<char>,
}

/// The mathematical value of a [`State`].
pub ghost struct StateView {
    pub name: Seq<char>,
    pub transitions: Seq<TransitionView>,
}

/// The mathematical value of a [`Machine`].
pub ghost struct MachineView {
    pub name: Seq<char>,
    pub states: Seq<StateView>,
}

impl View for Transition {
    type V = TransitionView;

    open spec fn view(&self) -> TransitionView {
        TransitionView { event: self.event@, target: self.target@ }
    }
}

/// The views of a sequence of transitions, in order.
pub open spec fn transition_views(transitions: Seq<Transition>) -> Seq<TransitionView> {
    transitions.map_values(|t: Transition| t@)
}

impl View for State {
    type V = StateView;

    open spec fn view(&self) -> StateView {
        StateView { name: self.name@, transitions: transition_views(self.transitions@) }
    }
}

/// The views of a sequence of states, in order.
pub open spec fn state_views(states: Seq<State>) -> Seq<StateView> {
    states.map_values(|s: State| s@)
}

impl View for Machine {
    type V = MachineView;

    open spec fn view(&self) -> MachineView {
        MachineView { name: self.name@, states: state_views(self.states@) }
    }
}

} // verus!
