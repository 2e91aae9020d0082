//! The C backend: a graph rendered as one C translation unit.
//!
//! The unit holds an enum of the states, a helper that prints the events a
//! state accepts, a helper that tells whether a state is terminal, the
//! transition function, a lookup of state names, and a fixed `main` that
//! walks the machine from its first state on the events it reads.

use vstd::prelude::*;
use vstd::string::StringExecFns;
use crate::ast::MachineView;
use crate::graph::EdgeView;
use crate::graph::FsmGraph;
use crate::graph::GraphView;
use crate::graph::NodeView;
use crate::graph::StateNode;
use crate::graph::has_transition;
use crate::graph::lemma_all_targets_defined;
use crate::graph::lemma_name_table;
use crate::graph::resolve;
use crate::graph::resolved_graph;
use crate::lines::lemma_flatten_all;
use crate::lines::lemma_flatten_next;
use crate::lines::lemma_flatten_none;

verus! {

pub const ENUM_PREFIX: &'static str = "STATE_";

pub const INCLUDES: &'static str = "#include <stdio.h>\n#include <string.h>\n\n";

pub const ENUM_OPEN: &'static str = "typedef enum{\n";

pub const ENUM_CLOSE: &'static str = "} State;\n\n";

pub const EVENTS_OPEN: &'static str =
    "void print_available_events(State s) {\n     printf(\"   [Options: \");\n     switch (s) {\n";

pub const EVENTS_CLOSE: &'static str = "    }\n    printf(\"]\\n\");\n}\n\n";

pub const TERMINAL_OPEN: &'static str = "int is_terminal(State s) {\n    switch (s) {\n";

pub const TERMINAL_CLOSE: &'static str =
    "        default: return 0;\n    }\n    return 0;\n}\n\n";

pub const NEXT_STATE_OPEN: &'static str =
    "State next_state(State current, const char* event) {\n    switch (current) {\n";

pub const NEXT_STATE_CLOSE: &'static str = "    }\n    return (State)-1;\n}\n\n";

pub const STATE_NAME_OPEN: &'static str = "const char* state_name(State s) {\n     switch (s) {\n";

pub const STATE_NAME_CLOSE: &'static str = "    }\n    return \"Unknown\";\n}";

/// The interactive driver that ends every generated program. It starts in
/// the state with enum value 0 and reads events of at most 99 characters.
pub const BOILERPLATE: &'static str = r#"

int main() {
    State current = 0; // Assuming 0 is initial
    char buffer[100];
    
    printf("FSM Started...\n");

    while(1) {
        printf("   Current State: %s\n", state_name(current));

        if (is_terminal(current)) {
            printf(">> Final state reached. Terminating.\n");
            break;
        }
        
        print_available_events(current);

        printf(">> ");
        if (scanf("%99s", buffer) != 1) break;
        
        State next = next_state(current, buffer);
        if (next != (State)-1) {
            printf(">> Transitioned: %s -> %s\n", state_name(current), state_name(next));
            current = next;
        } else {
            printf(">> Invalid event. Stayed in %s.\n", state_name(current));
        }
    }
    return 0;
}
"#;

/// The enum constant of a state: `STATE_` and the name as it is.
pub open spec fn enum_name(name: Seq<char>) -> Seq<char> {
    ENUM_PREFIX@ + name
}

/// The enum entry of a state.
pub open spec fn enum_entry(s: NodeView) -> Seq<char> {
    "    "@ + enum_name(s.name) + ",\n"@
}

/// The enum entries of the graph, one for each state in index order.
pub open spec fn enum_entries(g: GraphView) -> Seq<Seq<char>> {
    g.states.map_values(|s: NodeView| enum_entry(s))
}

/// The enum of the states.
pub open spec fn enum_text(g: GraphView) -> Seq<char> {
    ENUM_OPEN@ + enum_entries(g).flatten() + ENUM_CLOSE@
}

/// The events of `edges` in order, with `, ` between one and the next.
pub open spec fn joined_events(edges: Seq<EdgeView>) -> Seq<char>
    decreases edges.len(),
{
    if edges.len() == 0 {
        Seq::empty()
    } else {
        joined_events(edges.drop_last()) + (if edges.len() > 1 {
            ", "@
        } else {
            Seq::empty()
        }) + edges.last().event
    }
}

/// The case that prints the events of one state.
pub open spec fn event_case(s: NodeView) -> Seq<char> {
    "        case "@ + enum_name(s.name) + ":\n            printf(\""@ + joined_events(
        s.transitions,
    ) + "\");\n            break;\n"@
}

/// The cases of the event helper, one for each state in index order.
pub open spec fn event_cases(g: GraphView) -> Seq<Seq<char>> {
    g.states.map_values(|s: NodeView| event_case(s))
}

/// The helper that prints the events a state accepts.
pub open spec fn event_helper_text(g: GraphView) -> Seq<char> {
    EVENTS_OPEN@ + event_cases(g).flatten() + EVENTS_CLOSE@
}

/// What one state adds to the terminal helper: a case that returns 1 if the
/// state has no outgoing edge, nothing otherwise.
pub open spec fn terminal_case(s: NodeView) -> Seq<char> {
    if s.transitions.len() == 0 {
        "        case "@ + enum_name(s.name) + ": return 1;\n"@
    } else {
        Seq::empty()
    }
}

/// What the states add to the terminal helper, in index order.
pub open spec fn terminal_cases(g: GraphView) -> Seq<Seq<char>> {
    g.states.map_values(|s: NodeView| terminal_case(s))
}

/// The helper that tells whether a state is terminal: the cases that return
/// 1, then a default that returns 0.
pub open spec fn terminal_helper_text(g: GraphView) -> Seq<char> {
    TERMINAL_OPEN@ + terminal_cases(g).flatten() + TERMINAL_CLOSE@
}

/// The clause of the transition function for one edge: compare the event,
/// return the enum constant of the target.
pub open spec fn transition_clause(g: GraphView, e: EdgeView) -> Seq<char> {
    "            if (strcmp(event, \""@ + e.event + "\") == 0) return "@ + enum_name(
        g.states[e.target].name,
    ) + ";\n"@
}

/// The clauses for the edges of one state, in declaration order.
pub open spec fn transition_clauses(g: GraphView, s: NodeView) -> Seq<Seq<char>> {
    s.transitions.map_values(|e: EdgeView| transition_clause(g, e))
}

/// The case of the transition function for one state.
pub open spec fn next_state_case(g: GraphView, s: NodeView) -> Seq<char> {
    "        case "@ + enum_name(s.name) + ":\n"@ + transition_clauses(g, s).flatten()
        + "            break;\n"@
}

/// The cases of the transition function, one for each state in index order.
pub open spec fn next_state_cases(g: GraphView) -> Seq<Seq<char>> {
    g.states.map_values(|s: NodeView| next_state_case(g, s))
}

/// The transition function: the cases, then the value for no match.
pub open spec fn next_state_text(g: GraphView) -> Seq<char> {
    NEXT_STATE_OPEN@ + next_state_cases(g).flatten() + NEXT_STATE_CLOSE@
}

/// The case of the name lookup for one state.
pub open spec fn state_name_case(s: NodeView) -> Seq<char> {
    "        case "@ + enum_name(s.name) + ": return \""@ + s.name + "\";\n"@
}

/// The cases of the name lookup, one for each state in index order.
pub open spec fn state_name_cases(g: GraphView) -> Seq<Seq<char>> {
    g.states.map_values(|s: NodeView| state_name_case(s))
}

/// The lookup of state names.
pub open spec fn state_name_text(g: GraphView) -> Seq<char> {
    STATE_NAME_OPEN@ + state_name_cases(g).flatten() + STATE_NAME_CLOSE@
}

/// The C text of a graph.
pub open spec fn c_text(g: GraphView) -> Seq<char> {
    INCLUDES@ + enum_text(g) + event_helper_text(g) + terminal_helper_text(g) + next_state_text(g)
        + state_name_text(g) + BOILERPLATE@
}

/// The enum constant of the state named `name`.
pub fn get_enum_name(name: &str) -> (constant: String)
    ensures
        constant@ == enum_name(name@),
{
    let mut constant = String::from_str(ENUM_PREFIX);
    constant.append(name);
    constant
}

/// Builds the enum entry of one state.
fn enum_entry_text(state: &StateNode) -> (text: String)
    ensures
        text@ == enum_entry(state@),
{
    let mut text = String::from_str("    ");
    text.append(get_enum_name(state.name.as_str()).as_str());
    text.append(",\n");
    text
}

/// Renders the enum of the states.
pub fn generate_enum(graph: &FsmGraph) -> (code: String)
    ensures
        code@ == enum_text(graph@),
{
    let ghost cases = enum_entries(graph@);
    let mut code = String::from_str(ENUM_OPEN);
    let mut i: usize = 0;
    proof {
        lemma_flatten_none(cases);
        assert(code@ =~= ENUM_OPEN@ + cases.take(0).flatten());
    }
    while i < graph.states.len()
        invariant
            cases == enum_entries(graph@),
            0 <= i <= graph.states@.len(),
            code@ == ENUM_OPEN@ + cases.take(i as int).flatten(),
        decreases graph.states@.len() - i,
    {
        let entry = enum_entry_text(&graph.states[i]);
        code.append(entry.as_str());
        proof {
            lemma_flatten_next(cases, i as int);
            assert(code@ =~= ENUM_OPEN@ + cases.take(i + 1).flatten());
        }
        i = i + 1;
    }
    proof {
        lemma_flatten_all(cases);
    }
    code.append(ENUM_CLOSE);
    code
}

/// Builds the case that prints the events of one state.
fn event_case_text(state: &StateNode) -> (text: String)
    ensures
        text@ == event_case(state@),
{
    let ghost edges = state@.transitions;
    let mut text = String::from_str("        case ");
    text.append(get_enum_name(state.name.as_str()).as_str());
    text.append(":\n            printf(\"");
    let ghost head = text@;
    let mut j: usize = 0;
    proof {
        assert(edges.take(0) =~= Seq::<EdgeView>::empty());
        assert(text@ =~= head + joined_events(edges.take(0)));
    }
    while j < state.transitions.len()
        invariant
            edges == state@.transitions,
            0 <= j <= state.transitions@.len(),
            text@ == head + joined_events(edges.take(j as int)),
        decreases state.transitions@.len() - j,
    {
        if j > 0 {
            text.append(", ");
        }
        text.append(state.transitions[j].event.as_str());
        proof {
            assert(edges.take(j + 1).drop_last() =~= edges.take(j as int));
            assert(edges.take(j + 1).last() == state.transitions@[j as int]@);
            assert(text@ =~= head + joined_events(edges.take(j + 1)));
        }
        j = j + 1;
    }
    proof {
        assert(edges.take(j as int) =~= edges);
    }
    text.append("\");\n            break;\n");
    proof {
        assert(text@ =~= event_case(state@));
    }
    text
}

/// Renders the helper that prints the events a state accepts.
pub fn generate_event_helper(graph: &FsmGraph) -> (code: String)
    ensures
        code@ == event_helper_text(graph@),
{
    let ghost cases = event_cases(graph@);
    let mut code = String::from_str(EVENTS_OPEN);
    let mut i: usize = 0;
    proof {
        lemma_flatten_none(cases);
        assert(code@ =~= EVENTS_OPEN@ + cases.take(0).flatten());
    }
    while i < graph.states.len()
        invariant
            cases == event_cases(graph@),
            0 <= i <= graph.states@.len(),
            code@ == EVENTS_OPEN@ + cases.take(i as int).flatten(),
        decreases graph.states@.len() - i,
    {
        let case = event_case_text(&graph.states[i]);
        code.append(case.as_str());
        proof {
            lemma_flatten_next(cases, i as int);
            assert(code@ =~= EVENTS_OPEN@ + cases.take(i + 1).flatten());
        }
        i = i + 1;
    }
    proof {
        lemma_flatten_all(cases);
    }
    code.append(EVENTS_CLOSE);
    code
}

/// Renders the helper that tells whether a state is terminal.
pub fn generate_terminal_helper(graph: &FsmGraph) -> (code: String)
    ensures
        code@ == terminal_helper_text(graph@),
{
    let ghost cases = terminal_cases(graph@);
    let mut code = String::from_str(TERMINAL_OPEN);
    let mut i: usize = 0;
    proof {
        lemma_flatten_none(cases);
        assert(code@ =~= TERMINAL_OPEN@ + cases.take(0).flatten());
    }
    while i < graph.states.len()
        invariant
            cases == terminal_cases(graph@),
            0 <= i <= graph.states@.len(),
            code@ == TERMINAL_OPEN@ + cases.take(i as int).flatten(),
        decreases graph.states@.len() - i,
    {
        let state = &graph.states[i];
        let ghost before = code@;
        if state.transitions.len() == 0 {
            code.append("        case ");
            code.append(get_enum_name(state.name.as_str()).as_str());
            code.append(": return 1;\n");
        }
        proof {
            lemma_flatten_next(cases, i as int);
            assert(code@ =~= before + terminal_case(state@));
            assert(code@ =~= TERMINAL_OPEN@ + cases.take(i + 1).flatten());
        }
        i = i + 1;
    }
    proof {
        lemma_flatten_all(cases);
    }
    code.append(TERMINAL_CLOSE);
    code
}

/// Builds the case of the transition function for state `i`.
fn next_state_case_text(graph: &FsmGraph, i: usize) -> (text: String)
    requires
        graph.closed(),
        i < graph.states@.len(),
    ensures
        text@ == next_state_case(graph@, graph@.states[i as int]),
{
    let state = &graph.states[i];
    let ghost g = graph@;
    let ghost clauses = transition_clauses(g, state@);
    let mut text = String::from_str("        case ");
    text.append(get_enum_name(state.name.as_str()).as_str());
    text.append(":\n");
    let ghost head = text@;
    let mut j: usize = 0;
    proof {
        assert(g.states[i as int] == state@);
        lemma_flatten_none(clauses);
        assert(text@ =~= head + clauses.take(0).flatten());
    }
    while j < state.transitions.len()
        invariant
            graph.closed(),
            g == graph@,
            i < graph.states@.len(),
            state == graph.states@[i as int],
            clauses == transition_clauses(g, state@),
            0 <= j <= state.transitions@.len(),
            text@ == head + clauses.take(j as int).flatten(),
        decreases state.transitions@.len() - j,
    {
        let edge = &state.transitions[j];
        proof {
            assert(g.states[i as int] == state@);
            assert(g.states[i as int].transitions[j as int] == edge@);
            assert(0 <= edge@.target < g.states.len());
        }
        let target = &graph.states[edge.target];
        let ghost before = text@;
        text.append("            if (strcmp(event, \"");
        text.append(edge.event.as_str());
        text.append("\") == 0) return ");
        text.append(get_enum_name(target.name.as_str()).as_str());
        text.append(";\n");
        proof {
            assert(g.states[edge@.target] == target@);
            assert(clauses[j as int] == transition_clause(g, edge@));
            assert(text@ =~= before + transition_clause(g, edge@));
            lemma_flatten_next(clauses, j as int);
            assert(text@ =~= head + clauses.take(j + 1).flatten());
        }
        j = j + 1;
    }
    proof {
        lemma_flatten_all(clauses);
    }
    text.append("            break;\n");
    proof {
        assert(text@ =~= next_state_case(g, state@));
    }
    text
}

/// Renders the transition function.
pub fn generate_next_state(graph: &FsmGraph) -> (code: String)
    requires
        graph.closed(),
    ensures
        code@ == next_state_text(graph@),
{
    let ghost cases = next_state_cases(graph@);
    let mut code = String::from_str(NEXT_STATE_OPEN);
    let mut i: usize = 0;
    proof {
        lemma_flatten_none(cases);
        assert(code@ =~= NEXT_STATE_OPEN@ + cases.take(0).flatten());
    }
    while i < graph.states.len()
        invariant
            graph.closed(),
            cases == next_state_cases(graph@),
            0 <= i <= graph.states@.len(),
            code@ == NEXT_STATE_OPEN@ + cases.take(i as int).flatten(),
        decreases graph.states@.len() - i,
    {
        let case = next_state_case_text(graph, i);
        code.append(case.as_str());
        proof {
            lemma_flatten_next(cases, i as int);
            assert(code@ =~= NEXT_STATE_OPEN@ + cases.take(i + 1).flatten());
        }
        i = i + 1;
    }
    proof {
        lemma_flatten_all(cases);
    }
    code.append(NEXT_STATE_CLOSE);
    code
}

/// Renders the lookup of state names.
pub fn generate_state_name(graph: &FsmGraph) -> (code: String)
    ensures
        code@ == state_name_text(graph@),
{
    let ghost cases = state_name_cases(graph@);
    let mut code = String::from_str(STATE_NAME_OPEN);
    let mut i: usize = 0;
    proof {
        lemma_flatten_none(cases);
        assert(code@ =~= STATE_NAME_OPEN@ + cases.take(0).flatten());
    }
    while i < graph.states.len()
        invariant
            cases == state_name_cases(graph@),
            0 <= i <= graph.states@.len(),
            code@ == STATE_NAME_OPEN@ + cases.take(i as int).flatten(),
        decreases graph.states@.len() - i,
    {
        let state = &graph.states[i];
        let ghost before = code@;
        code.append("        case ");
        code.append(get_enum_name(state.name.as_str()).as_str());
        code.append(": return \"");
        code.append(state.name.as_str());
        code.append("\";\n");
        proof {
            lemma_flatten_next(cases, i as int);
            assert(code@ =~= before + state_name_case(state@));
            assert(code@ =~= STATE_NAME_OPEN@ + cases.take(i + 1).flatten());
        }
        i = i + 1;
    }
    proof {
        lemma_flatten_all(cases);
    }
    code.append(STATE_NAME_CLOSE);
    code
}

/// Renders the graph as a C program.
pub fn generate_c(graph: &FsmGraph) -> (code: String)
    requires
        graph.closed(),
    ensures
        code@ == c_text(graph@),
{
    let mut code = String::from_str(INCLUDES);
    code.append(generate_enum(graph).as_str());
    code.append(generate_event_helper(graph).as_str());
    code.append(generate_terminal_helper(graph).as_str());
    code.append(generate_next_state(graph).as_str());
    code.append(generate_state_name(graph).as_str());
    code.append(BOILERPLATE);
    code
}

/// The enum of a machine that resolves holds one entry for each declared
/// state and no other, in declaration order, and the entry of a state is
/// `STATE_` followed by the state's name as declared.
pub proof fn lemma_enum_follows_declarations(m: MachineView)
    requires
        resolve(m) is Ok,
    ensures
        enum_entries(resolved_graph(m)).len() == m.states.len(),
        forall|i: int|
            0 <= i < m.states.len() ==> #[trigger] enum_entries(resolved_graph(m))[i] == "    "@ + (
            "STATE_"@ + m.states[i].name) + ",\n"@,
        enum_text(resolved_graph(m)) == ENUM_OPEN@ + enum_entries(resolved_graph(m)).flatten()
            + ENUM_CLOSE@,
{
}

/// In the C text of a machine that resolves, a state adds a case that
/// returns 1 to the terminal helper if it declares no transition, and adds
/// nothing if it declares one; every state without a case of its own falls
/// to the default, which returns 0.
pub proof fn lemma_terminal_iff_no_transitions(m: MachineView, i: int)
    requires
        resolve(m) is Ok,
        0 <= i < m.states.len(),
    ensures
        terminal_cases(resolved_graph(m)).len() == m.states.len(),
        m.states[i].transitions.len() == 0 ==> terminal_cases(resolved_graph(m))[i]
            == "        case "@ + ("STATE_"@ + m.states[i].name) + ": return 1;\n"@,
        m.states[i].transitions.len() > 0 ==> terminal_cases(resolved_graph(m))[i]
            == Seq::<char>::empty(),
        terminal_cases(resolved_graph(m))[i].len() > 0 <==> m.states[i].transitions.len() == 0,
{
    reveal_strlit(": return 1;\n");
}

/// In the C text of a machine that resolves, the case of a state in the
/// transition function holds one clause for each transition the state
/// declares, in declaration order, and the clause compares with the event
/// and returns the enum constant of the target, both as declared.
pub proof fn lemma_clauses_follow_declarations(m: MachineView, i: int, j: int)
    requires
        resolve(m) is Ok,
        has_transition(m, i, j),
    ensures
        next_state_cases(resolved_graph(m)).len() == m.states.len(),
        next_state_cases(resolved_graph(m))[i] == "        case "@ + ("STATE_"@
            + m.states[i].name) + ":\n"@ + transition_clauses(
            resolved_graph(m),
            resolved_graph(m).states[i],
        ).flatten() + "            break;\n"@,
        transition_clauses(resolved_graph(m), resolved_graph(m).states[i]).len()
            == m.states[i].transitions.len(),
        transition_clauses(resolved_graph(m), resolved_graph(m).states[i])[j]
            == "            if (strcmp(event, \""@ + m.states[i].transitions[j].event
            + "\") == 0) return "@ + ("STATE_"@ + m.states[i].transitions[j].target) + ";\n"@,
{
    lemma_all_targets_defined(m, i, j);
    lemma_name_table(m.states, m.states[i].transitions[j].target);
}

} // verus!
