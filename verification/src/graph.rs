//! The resolver: from a syntax tree to a closed graph.
//!
//! Resolution gives every declared state its position in declaration order
//! as its index, and replaces the target name of every transition by the
//! index of the state that bears it. Where several states bear one name, the
//! name stands for the last of them. The first declared state is the initial
//! state.

use vstd::prelude::*;
use vstd::hash_map::StringHashMap;
use vstd::string::StringExecFns;
use crate::ast::Machine;
use crate::ast::MachineView;
use crate::ast::StateView;
use crate::ast::TransitionView;
use crate::ast::state_views;
use crate::ast::transition_views;

verus! {

/// The index of a state in a graph.
pub type StateId = usize;

pub const UNDEFINED_STATE: &'static str = "Undefined state: ";

pub const NO_STATES: &'static str = "Machine must have at least one state!";

/// A resolved transition: on `event`, go to the state at index `target`.
#[derive(Debug, PartialEq, Eq)]
pub struct TransitionEdge {
    pub event: String,
    pub target: StateId,
}

/// A state of the graph: its name and its outgoing edges in declaration
/// order.
#[derive(Debug, PartialEq, Eq)]
pub struct StateNode {
    pub name: String,
    pub transitions: Vec<TransitionEdge>,
}

/// A resolved machine: its states in declaration order and the index of the
/// state it starts in.
#[derive(Debug, PartialEq, Eq)]
pub struct FsmGraph {
    pub states: Vec<StateNode>,
    pub initial_state: StateId,
}

/// The mathematical value of a [`TransitionEdge`].
pub ghost struct EdgeView {
    pub event: Seq<char>,
    pub target: int,
}

/// The mathematical value of a [`StateNode`].
pub ghost struct NodeView {
    pub name: Seq<char>,
    pub transitions: Seq<EdgeView>,
}

/// The mathematical value of an [`FsmGraph`].
pub ghost struct GraphView {
    pub states: Seq<NodeView>,
    pub initial_state: int,
}

impl View for TransitionEdge {
    type V = EdgeView;

    open spec fn view(&self) -> EdgeView {
        EdgeView { event: self.event@, target: self.target as int }
    }
}

/// The views of a sequence of edges, in order.
pub open spec fn edge_views(edges: Seq<TransitionEdge>) -> Seq<EdgeView> {
    edges.map_values(|e: TransitionEdge| e@)
}

impl View for StateNode {
    type V = NodeView;

    open spec fn view(&self) -> NodeView {
        NodeView { name: self.name@, transitions: edge_views(self.transitions@) }
    }
}

/// The views of a sequence of nodes, in order.
pub open spec fn node_views(nodes: Seq<StateNode>) -> Seq<NodeView> {
    nodes.map_values(|n: StateNode| n@)
}

impl View for FsmGraph {
    type V = GraphView;

    open spec fn view(&self) -> GraphView {
        GraphView { states: node_views(self.states@), initial_state: self.initial_state as int }
    }
}

impl GraphView {
    /// Whether every edge points at one of the graph's states. This is all
    /// that rendering a graph asks of it.
    pub open spec fn closed(self) -> bool {
        forall|i: int, j: int|
            0 <= i < self.states.len() && 0 <= j < self.states[i].transitions.len() ==> 0 <= (
            #[trigger] self.states[i].transitions[j]).target < self.states.len()
    }

    /// A graph is well formed when it has a state, starts in its first state,
    /// and is closed.
    pub open spec fn wf(self) -> bool {
        &&& self.states.len() > 0
        &&& self.initial_state == 0
        &&& self.closed()
    }
}

/// Whether some state of `states` bears `name`.
pub open spec fn declares(states: Seq<StateView>, name: Seq<char>) -> bool {
    exists|i: int| 0 <= i < states.len() && #[trigger] states[i].name == name
}

/// The table from state names to indices that reading `states` in order
/// builds: a later state takes a name over from an earlier one.
pub open spec fn name_table(states: Seq<StateView>) -> Map<Seq<char>, int>
    decreases states.len(),
{
    if states.len() == 0 {
        Map::empty()
    } else {
        name_table(states.drop_last()).insert(states.last().name, states.len() - 1)
    }
}

/// The first transition target from position `j` on that `table` does not
/// hold, or `None` if it holds them all.
pub open spec fn first_undefined_in(
    table: Map<Seq<char>, int>,
    transitions: Seq<TransitionView>,
    j: int,
) -> Option<Seq<char>>
    decreases transitions.len() - j,
{
    if j < 0 || j >= transitions.len() {
        None
    } else if !table.contains_key(transitions[j].target) {
        Some(transitions[j].target)
    } else {
        first_undefined_in(table, transitions, j + 1)
    }
}

/// The first transition target, in declaration order, of the states from
/// position `i` on that `table` does not hold, or `None` if it holds them
/// all.
pub open spec fn first_undefined_from(
    table: Map<Seq<char>, int>,
    states: Seq<StateView>,
    i: int,
) -> Option<Seq<char>>
    decreases states.len() - i,
{
    if i < 0 || i >= states.len() {
        None
    } else {
        match first_undefined_in(table, states[i].transitions, 0) {
            Some(name) => Some(name),
            None => first_undefined_from(table, states, i + 1),
        }
    }
}

/// The first transition target of the machine, in declaration order, that
/// none of its states bears.
pub open spec fn first_undefined(m: MachineView) -> Option<Seq<char>> {
    first_undefined_from(name_table(m.states), m.states, 0)
}

/// A transition with its target looked up in `table`.
pub open spec fn resolve_transition(table: Map<Seq<char>, int>, t: TransitionView) -> EdgeView {
    EdgeView { event: t.event, target: table[t.target] }
}

/// A state with each of its transitions resolved, in order.
pub open spec fn resolve_state(table: Map<Seq<char>, int>, s: StateView) -> NodeView {
    NodeView {
        name: s.name,
        transitions: s.transitions.map_values(|t: TransitionView| resolve_transition(table, t)),
    }
}

/// The graph of a machine: its states in order, each resolved against the
/// machine's name table, starting in the first.
pub open spec fn resolved_graph(m: MachineView) -> GraphView {
    GraphView {
        states: m.states.map_values(|s: StateView| resolve_state(name_table(m.states), s)),
        initial_state: 0,
    }
}

/// The message for a target that no state bears.
pub open spec fn undefined_state(name: Seq<char>) -> Seq<char> {
    UNDEFINED_STATE@ + name
}

/// What resolution yields: the message naming the first undefined target,
/// else the message for a machine without states, else the graph.
pub open spec fn resolve(m: MachineView) -> Result<GraphView, Seq<char>> {
    match first_undefined(m) {
        Some(name) => Err(undefined_state(name)),
        None => if m.states.len() == 0 {
            Err(NO_STATES@)
        } else {
            Ok(resolved_graph(m))
        },
    }
}

/// The view of what resolution returns.
pub open spec fn graph_result_view(r: Result<FsmGraph, String>) -> Result<GraphView, Seq<char>> {
    match r {
        Ok(graph) => Ok(graph@),
        Err(message) => Err(message@),
    }
}

/// The name table holds exactly the declared names, and sends each to the
/// last position that bears it.
pub proof fn lemma_name_table(states: Seq<StateView>, name: Seq<char>)
    ensures
        name_table(states).contains_key(name) <==> declares(states, name),
        name_table(states).contains_key(name) ==> {
            let index = name_table(states)[name];
            &&& 0 <= index < states.len()
            &&& states[index].name == name
            &&& forall|k: int| index < k < states.len() ==> (#[trigger] states[k]).name != name
        },
    decreases states.len(),
{
    if states.len() > 0 {
        let front = states.drop_last();
        lemma_name_table(front, name);
        if states.last().name == name {
            assert(states[states.len() - 1].name == name);
        } else {
            if declares(states, name) {
                let i = choose|i: int| 0 <= i < states.len() && #[trigger] states[i].name == name;
                assert(front[i].name == name);
            }
            if declares(front, name) {
                let i = choose|i: int| 0 <= i < front.len() && #[trigger] front[i].name == name;
                assert(states[i].name == name);
            }
            if name_table(states).contains_key(name) {
                let index = name_table(front)[name];
                assert(states[index] == front[index]);
                assert forall|k: int| index < k < states.len() implies (
                #[trigger] states[k]).name != name by {
                    if k < front.len() {
                        assert(front[k] == states[k]);
                    }
                }
            }
        }
    }
}

/// Whether `table`, as the resolver holds it, agrees with `model`.
pub open spec fn table_models(table: Map<Seq<char>, usize>, model: Map<Seq<char>, int>) -> bool {
    &&& forall|name: Seq<char>| table.contains_key(name) <==> model.contains_key(name)
    &&& forall|name: Seq<char>| #[trigger]
        model.contains_key(name) ==> table[name] as int == model[name]
}

impl FsmGraph {
    /// Whether the graph is well formed.
    pub open spec fn wf(&self) -> bool {
        self@.wf()
    }

    /// Whether every edge points at one of the graph's states.
    pub open spec fn closed(&self) -> bool {
        self@.closed()
    }

    /// Tells whether every edge points at one of the graph's states.
    pub fn is_closed(&self) -> (ok: bool)
        ensures
            ok == self.closed(),
    {
        let count = self.states.len();
        let mut i: usize = 0;
        while i < count
            invariant
                count == self.states@.len(),
                0 <= i <= count,
                forall|k: int, l: int|
                    0 <= k < i && 0 <= l < self@.states[k].transitions.len() ==> 0 <= (
                    #[trigger] self@.states[k].transitions[l]).target < count,
            decreases count - i,
        {
            let state = &self.states[i];
            let mut j: usize = 0;
            while j < state.transitions.len()
                invariant
                    count == self.states@.len(),
                    0 <= i < count,
                    state == self.states@[i as int],
                    0 <= j <= state.transitions@.len(),
                    forall|l: int|
                        0 <= l < j ==> 0 <= (#[trigger] self@.states[i as int].transitions[l]).target
                            < count,
                decreases state.transitions@.len() - j,
            {
                proof {
                    assert(self@.states[i as int] == state@);
                    assert(self@.states[i as int].transitions[j as int]
                        == state.transitions@[j as int]@);
                }
                if state.transitions[j].target >= count {
                    return false;
                }
                j = j + 1;
            }
            proof {
                assert(self@.states[i as int] == state@);
            }
            i = i + 1;
        }
        true
    }

    /// Tells whether the graph is well formed, for a graph that was not
    /// obtained from [`FsmGraph::compile`].
    pub fn is_well_formed(&self) -> (ok: bool)
        ensures
            ok == self.wf(),
    {
        self.states.len() > 0 && self.initial_state == 0 && self.is_closed()
    }

    /// Resolves a machine into a graph.
    ///
    /// Fails with `Undefined state: ` and the name when a transition targets
    /// a name that no state bears, naming the first such target in
    /// declaration order, and with another message when the machine has no
    /// states at all.
    #[verifier::loop_isolation(false)]
    pub fn compile(machine: Machine) -> (r: Result<FsmGraph, String>)
        ensures
            graph_result_view(r) == resolve(machine@),
            r matches Ok(graph) ==> graph.wf(),
    {
        let ghost states = machine@.states;
        let ghost model = name_table(states);
        let count = machine.states.len();

        let mut table: StringHashMap<StateId> = StringHashMap::new();
        let mut i: usize = 0;
        while i < count
            invariant
                count == machine.states@.len(),
                states == state_views(machine.states@),
                0 <= i <= count,
                table_models(table@, name_table(states.take(i as int))),
            decreases count - i,
        {
            proof {
                assert(states.take(i + 1).drop_last() =~= states.take(i as int));
                assert(states.take(i + 1).last() == machine.states@[i as int]@);
            }
            table.insert(machine.states[i].name.clone(), i);
            i = i + 1;
        }
        proof {
            assert(states.take(count as int) =~= states);
            assert forall|name: Seq<char>| #[trigger] model.contains_key(name) implies 0
                <= model[name] < states.len() by {
                lemma_name_table(states, name);
            }
        }

        let mut nodes: Vec<StateNode> = Vec::new();
        let mut i: usize = 0;
        while i < count
            invariant
                count == machine.states@.len(),
                states == state_views(machine.states@),
                model == name_table(states),
                table_models(table@, model),
                forall|name: Seq<char>| #[trigger]
                    model.contains_key(name) ==> 0 <= model[name] < states.len(),
                0 <= i <= count,
                first_undefined_from(model, states, i as int) == first_undefined_from(
                    model,
                    states,
                    0,
                ),
                node_views(nodes@) == resolved_graph(machine@).states.take(i as int),
            decreases count - i,
        {
            let state = &machine.states[i];
            let ghost declared = state@.transitions;
            let mut edges: Vec<TransitionEdge> = Vec::new();
            let mut j: usize = 0;
            while j < state.transitions.len()
                invariant
                    declared == transition_views(state.transitions@),
                    table_models(table@, model),
                    0 <= j <= state.transitions@.len(),
                    first_undefined_in(model, declared, j as int) == first_undefined_in(
                        model,
                        declared,
                        0,
                    ),
                    edge_views(edges@) == resolve_state(model, state@).transitions.take(j as int),
                decreases state.transitions@.len() - j,
            {
                let transition = &state.transitions[j];
                assert(declared[j as int] == transition@);
                match table.get(transition.target.as_str()) {
                    Some(index) => {
                        let edge = TransitionEdge {
                            event: transition.event.clone(),
                            target: *index,
                        };
                        proof {
                            assert(edge@ == resolve_transition(model, transition@));
                            assert(edge_views(edges@.push(edge)) =~= resolve_state(
                                model,
                                state@,
                            ).transitions.take(j + 1));
                        }
                        edges.push(edge);
                    },
                    None => {
                        let mut message = String::from_str(UNDEFINED_STATE);
                        message.append(transition.target.as_str());
                        return Err(message);
                    },
                }
                j = j + 1;
            }
            proof {
                assert(resolve_state(model, state@).transitions.take(j as int) =~= resolve_state(
                    model,
                    state@,
                ).transitions);
            }
            let node = StateNode { name: state.name.clone(), transitions: edges };
            proof {
                assert(states[i as int] == state@);
                assert(node@ == resolve_state(model, state@));
                assert(node_views(nodes@.push(node)) =~= resolved_graph(machine@).states.take(
                    i + 1,
                ));
            }
            nodes.push(node);
            i = i + 1;
        }
        proof {
            assert(resolved_graph(machine@).states.take(count as int) =~= resolved_graph(
                machine@,
            ).states);
        }
        if nodes.len() == 0 {
            return Err(String::from_str(NO_STATES));
        }
        let graph = FsmGraph { states: nodes, initial_state: 0 };
        proof {
            assert(graph@ == resolved_graph(machine@));
            lemma_resolved_graph_wf(machine@);
        }
        Ok(graph)
    }
}

/// Every target that the table holds from position `j` on resolves; if one
/// is missing, the first missing one is a target of a transition at or after
/// `j`, and every target before it is held.
pub proof fn lemma_first_undefined_in(
    table: Map<Seq<char>, int>,
    transitions: Seq<TransitionView>,
    j: int,
)
    requires
        0 <= j <= transitions.len(),
    ensures
        match first_undefined_in(table, transitions, j) {
            None => forall|k: int|
                j <= k < transitions.len() ==> table.contains_key(
                    (#[trigger] transitions[k]).target,
                ),
            Some(name) => exists|k: int|
                {
                    &&& j <= k < transitions.len()
                    &&& (#[trigger] transitions[k]).target == name
                    &&& !table.contains_key(name)
                    &&& forall|l: int|
                        j <= l < k ==> table.contains_key((#[trigger] transitions[l]).target)
                },
        },
    decreases transitions.len() - j,
{
    if j < transitions.len() {
        if !table.contains_key(transitions[j].target) {
            assert(transitions[j].target == transitions[j].target);
        } else {
            lemma_first_undefined_in(table, transitions, j + 1);
            if let Some(name) = first_undefined_in(table, transitions, j + 1) {
                let k = choose|k: int|
                    {
                        &&& j + 1 <= k < transitions.len()
                        &&& (#[trigger] transitions[k]).target == name
                        &&& !table.contains_key(name)
                        &&& forall|l: int|
                            j + 1 <= l < k ==> table.contains_key(
                                (#[trigger] transitions[l]).target,
                            )
                    };
                assert(transitions[k].target == name);
            }
        }
    }
}

/// The graph of a machine that has a state and no undefined target is well
/// formed.
pub proof fn lemma_resolved_graph_wf(m: MachineView)
    requires
        m.states.len() > 0,
        first_undefined(m) is None,
    ensures
        resolved_graph(m).wf(),
{
    let table = name_table(m.states);
    let g = resolved_graph(m);
    assert forall|i: int, j: int|
        0 <= i < g.states.len() && 0 <= j < g.states[i].transitions.len() implies 0 <= (
    #[trigger] g.states[i].transitions[j]).target < g.states.len() by {
        lemma_all_targets_defined(m, i, j);
        lemma_name_table(m.states, m.states[i].transitions[j].target);
    }
}

/// In a machine without an undefined target, the table holds the target of
/// every transition.
pub proof fn lemma_all_targets_defined(m: MachineView, i: int, j: int)
    requires
        first_undefined(m) is None,
        0 <= i < m.states.len(),
        0 <= j < m.states[i].transitions.len(),
    ensures
        name_table(m.states).contains_key(m.states[i].transitions[j].target),
{
    lemma_none_undefined_from(name_table(m.states), m.states, 0, i);
    lemma_first_undefined_in(name_table(m.states), m.states[i].transitions, 0);
}

/// If no target is undefined from state `from` on, none is undefined in any
/// single state at or after `from`.
proof fn lemma_none_undefined_from(
    table: Map<Seq<char>, int>,
    states: Seq<StateView>,
    from: int,
    i: int,
)
    requires
        0 <= from <= i < states.len(),
        first_undefined_from(table, states, from) is None,
    ensures
        first_undefined_in(table, states[i].transitions, 0) is None,
    decreases i - from,
{
    if from < i {
        lemma_none_undefined_from(table, states, from + 1, i);
    }
}

/// Whether the machine has a transition at position `j` of state `i`.
pub open spec fn has_transition(m: MachineView, i: int, j: int) -> bool {
    0 <= i < m.states.len() && 0 <= j < m.states[i].transitions.len()
}

/// Whether the transition at position `l` of state `k` is declared before
/// the one at position `j` of state `i`.
pub open spec fn declared_before(k: int, l: int, i: int, j: int) -> bool {
    k < i || (k == i && l < j)
}

/// From state `from` on, either the table holds every target, or the first
/// undefined target is that of some transition, the table does not hold it,
/// and it holds the target of every transition declared before that one.
proof fn lemma_first_undefined_from(table: Map<Seq<char>, int>, m: MachineView, from: int)
    requires
        0 <= from <= m.states.len(),
    ensures
        match first_undefined_from(table, m.states, from) {
            None => forall|i: int, j: int|
                from <= i && #[trigger] has_transition(m, i, j) ==> table.contains_key(
                    m.states[i].transitions[j].target,
                ),
            Some(name) => exists|i: int, j: int|
                {
                    &&& from <= i
                    &&& #[trigger] has_transition(m, i, j)
                    &&& m.states[i].transitions[j].target == name
                    &&& !table.contains_key(name)
                    &&& forall|k: int, l: int|
                        from <= k && #[trigger] has_transition(m, k, l) && declared_before(
                            k,
                            l,
                            i,
                            j,
                        ) ==> table.contains_key(m.states[k].transitions[l].target)
                },
        },
    decreases m.states.len() - from,
{
    if from < m.states.len() {
        let here = m.states[from].transitions;
        lemma_first_undefined_in(table, here, 0);
        match first_undefined_in(table, here, 0) {
            Some(name) => {
                let j = choose|j: int|
                    {
                        &&& 0 <= j < here.len()
                        &&& (#[trigger] here[j]).target == name
                        &&& !table.contains_key(name)
                        &&& forall|l: int|
                            0 <= l < j ==> table.contains_key((#[trigger] here[l]).target)
                    };
                assert(has_transition(m, from, j));
                assert forall|k: int, l: int|
                    from <= k && #[trigger] has_transition(m, k, l) && declared_before(
                        k,
                        l,
                        from,
                        j,
                    ) implies table.contains_key(m.states[k].transitions[l].target) by {
                    assert(here[l].target == m.states[k].transitions[l].target);
                }
            },
            None => {
                lemma_first_undefined_from(table, m, from + 1);
                match first_undefined_from(table, m.states, from + 1) {
                    Some(name) => {
                        let (i, j) = choose|i: int, j: int|
                            {
                                &&& from + 1 <= i
                                &&& #[trigger] has_transition(m, i, j)
                                &&& m.states[i].transitions[j].target == name
                                &&& !table.contains_key(name)
                                &&& forall|k: int, l: int|
                                    from + 1 <= k && #[trigger] has_transition(m, k, l)
                                        && declared_before(k, l, i, j) ==> table.contains_key(
                                        m.states[k].transitions[l].target,
                                    )
                            };
                        assert(has_transition(m, i, j));
                        assert forall|k: int, l: int|
                            from <= k && #[trigger] has_transition(m, k, l) && declared_before(
                                k,
                                l,
                                i,
                                j,
                            ) implies table.contains_key(m.states[k].transitions[l].target) by {
                            if k == from {
                                assert(table.contains_key(here[l].target));
                            }
                        }
                    },
                    None => {
                        assert forall|i: int, j: int|
                            from <= i && #[trigger] has_transition(m, i, j) implies table.contains_key(
                            m.states[i].transitions[j].target,
                        ) by {
                            if i == from {
                                assert(table.contains_key(here[j].target));
                            }
                        }
                    },
                }
            },
        }
    }
}

/// Resolution succeeds exactly when the machine has a state and every
/// transition targets a declared name. When a target is undefined, the
/// message names the target of the first transition, in declaration order,
/// whose target no state bears.
pub proof fn lemma_resolve_outcome(m: MachineView)
    ensures
        resolve(m) is Ok <==> m.states.len() > 0 && forall|i: int, j: int| #[trigger]
            has_transition(m, i, j) ==> declares(m.states, m.states[i].transitions[j].target),
        resolve(m) is Ok ==> resolve(m) == Ok::<GraphView, Seq<char>>(resolved_graph(m))
            && resolved_graph(m).wf(),
        resolve(m) is Err ==> resolve(m) == Err::<GraphView, Seq<char>>(NO_STATES@) || exists|
            i: int,
            j: int,
        |
            {
                &&& #[trigger] has_transition(m, i, j)
                &&& !declares(m.states, m.states[i].transitions[j].target)
                &&& resolve(m) == Err::<GraphView, Seq<char>>(
                    undefined_state(m.states[i].transitions[j].target),
                )
                &&& forall|k: int, l: int| #[trigger]
                    has_transition(m, k, l) && declared_before(k, l, i, j) ==> declares(
                        m.states,
                        m.states[k].transitions[l].target,
                    )
            },
{
    let table = name_table(m.states);
    lemma_first_undefined_from(table, m, 0);
    assert forall|name: Seq<char>| table.contains_key(name) <==> declares(m.states, name) by {
        lemma_name_table(m.states, name);
    }
    if resolve(m) is Ok {
        lemma_resolved_graph_wf(m);
    }
}

/// A transition whose target no state bears makes resolution fail, and the
/// message names a target that no state bears. It names the target of this
/// very transition unless a transition declared before it has another
/// undefined target.
pub proof fn lemma_undefined_target_rejected(m: MachineView, i: int, j: int)
    requires
        has_transition(m, i, j),
        !declares(m.states, m.states[i].transitions[j].target),
    ensures
        resolve(m) is Err,
        first_undefined(m) matches Some(name) && !declares(m.states, name) && resolve(m)
            == Err::<GraphView, Seq<char>>(undefined_state(name)),
        (forall|k: int, l: int| #[trigger]
            has_transition(m, k, l) && declared_before(k, l, i, j) ==> declares(
                m.states,
                m.states[k].transitions[l].target,
            ) || m.states[k].transitions[l].target == m.states[i].transitions[j].target)
            ==> resolve(m) == Err::<GraphView, Seq<char>>(
            undefined_state(m.states[i].transitions[j].target),
        ),
{
    let table = name_table(m.states);
    lemma_first_undefined_from(table, m, 0);
    assert forall|name: Seq<char>| table.contains_key(name) <==> declares(m.states, name) by {
        lemma_name_table(m.states, name);
    }
    assert(has_transition(m, i, j));
}

/// A machine without states does not resolve, and its message is not that
/// of any undefined target.
pub proof fn lemma_no_states_rejected(m: MachineView)
    requires
        m.states.len() == 0,
    ensures
        resolve(m) == Err::<GraphView, Seq<char>>(NO_STATES@),
        forall|name: Seq<char>| NO_STATES@ != #[trigger] undefined_state(name),
{
    reveal_strlit("Machine must have at least one state!");
    reveal_strlit("Undefined state: ");
    assert forall|name: Seq<char>| NO_STATES@ != #[trigger] undefined_state(name) by {
        assert(NO_STATES@[0] == 'M');
        assert(undefined_state(name)[0] == 'U');
    }
}

} // verus!
