//! The DOT backend: a graph rendered as a `digraph`, one line per edge.

use vstd::prelude::*;
use vstd::string::StringExecFns;
use crate::ast::MachineView;
use crate::ast::StateView;
use crate::ast::TransitionView;
use crate::graph::EdgeView;
use crate::graph::FsmGraph;
use crate::graph::GraphView;
use crate::graph::has_transition;
use crate::graph::lemma_all_targets_defined;
use crate::graph::lemma_name_table;
use crate::graph::name_table;
use crate::graph::resolve;
use crate::graph::resolved_graph;
use crate::lines::lemma_flatten_all;
use crate::lines::lemma_flatten_map;
use crate::lines::lemma_flatten_next;
use crate::lines::lemma_flatten_none;

verus! {

pub const DOT_OPEN: &'static str = "digraph {\n";

pub const DOT_CLOSE: &'static str = "}\n";

/// The line for one edge: the names as they are, nothing escaped.
pub open spec fn edge_line(source: Seq<char>, target: Seq<char>, event: Seq<char>) -> Seq<char> {
    "    "@ + source + " -> "@ + target + " [label=\""@ + event + "\"];\n"@
}

/// The lines for the edges that leave state `i`, in declaration order.
pub open spec fn state_edge_lines(g: GraphView, i: int) -> Seq<Seq<char>> {
    g.states[i].transitions.map_values(
        |e: EdgeView| edge_line(g.states[i].name, g.states[e.target].name, e.event),
    )
}

/// The lines for the edges of every state, state by state.
pub open spec fn edge_line_blocks(g: GraphView) -> Seq<Seq<Seq<char>>> {
    Seq::new(g.states.len(), |i: int| state_edge_lines(g, i))
}

/// The lines for all the edges of the graph: states in index order, the
/// edges of each in declaration order.
pub open spec fn edge_lines(g: GraphView) -> Seq<Seq<char>> {
    edge_line_blocks(g).flatten()
}

/// The DOT text of a graph.
pub open spec fn dot_text(g: GraphView) -> Seq<char> {
    DOT_OPEN@ + edge_lines(g).flatten() + DOT_CLOSE@
}

/// Renders the graph as a DOT digraph.
pub fn generate_dot(graph: &FsmGraph) -> (output: String)
    requires
        graph.closed(),
    ensures
        output@ == dot_text(graph@),
{
    let ghost g = graph@;
    let ghost blocks = edge_line_blocks(g);
    let mut output = String::from_str(DOT_OPEN);
    let mut i: usize = 0;
    proof {
        lemma_flatten_none(blocks);
        assert(blocks.take(0).flatten().flatten() =~= Seq::<char>::empty());
        assert(output@ =~= DOT_OPEN@ + blocks.take(0).flatten().flatten());
    }
    while i < graph.states.len()
        invariant
            graph.closed(),
            g == graph@,
            blocks == edge_line_blocks(g),
            0 <= i <= graph.states@.len(),
            output@ == DOT_OPEN@ + blocks.take(i as int).flatten().flatten(),
        decreases graph.states@.len() - i,
    {
        let state = &graph.states[i];
        let ghost before = blocks.take(i as int).flatten();
        let ghost block = blocks[i as int];
        let mut j: usize = 0;
        proof {
            assert(g.states[i as int] == state@);
            assert(before + block.take(0) =~= before);
        }
        while j < state.transitions.len()
            invariant
                graph.closed(),
                g == graph@,
                0 <= i < graph.states@.len(),
                state == graph.states@[i as int],
                block == state_edge_lines(g, i as int),
                0 <= j <= state.transitions@.len(),
                output@ == DOT_OPEN@ + (before + block.take(j as int)).flatten(),
            decreases state.transitions@.len() - j,
        {
            let edge = &state.transitions[j];
            proof {
                assert(g.states[i as int] == state@);
                assert(g.states[i as int].transitions[j as int] == edge@);
                assert(0 <= edge@.target < g.states.len());
            }
            let target = &graph.states[edge.target];
            let ghost old_text = output@;
            output.append("    ");
            output.append(state.name.as_str());
            output.append(" -> ");
            output.append(target.name.as_str());
            output.append(" [label=\"");
            output.append(edge.event.as_str());
            output.append("\"];\n");
            proof {
                let line = edge_line(state.name@, target.name@, edge.event@);
                assert(g.states[edge@.target] == target@);
                assert(block[j as int] == line);
                assert(output@ =~= old_text + line);
                assert(before + block.take(j + 1) =~= (before + block.take(j as int)).push(line));
                (before + block.take(j as int)).lemma_flatten_push(line);
                assert(output@ =~= DOT_OPEN@ + (before + block.take(j + 1)).flatten());
            }
            j = j + 1;
        }
        proof {
            assert(block.take(j as int) =~= block);
            lemma_flatten_next(blocks, i as int);
        }
        i = i + 1;
    }
    proof {
        lemma_flatten_all(blocks);
    }
    output.append(DOT_CLOSE);
    output
}

/// An edge as the machine declares it: the state it leaves, the event, and
/// the name of the state it targets.
pub ghost struct DeclaredEdge {
    pub source: Seq<char>,
    pub event: Seq<char>,
    pub target: Seq<char>,
}

/// The edges that one state declares, in declaration order.
pub open spec fn declared_edges_of(s: StateView) -> Seq<DeclaredEdge> {
    s.transitions.map_values(
        |t: TransitionView| DeclaredEdge { source: s.name, event: t.event, target: t.target },
    )
}

/// The edges that the machine declares: states in declaration order, the
/// transitions of each in declaration order.
pub open spec fn declared_edges(m: MachineView) -> Seq<DeclaredEdge> {
    m.states.map_values(|s: StateView| declared_edges_of(s)).flatten()
}

/// The line that stands for a declared edge.
pub open spec fn declared_edge_line(d: DeclaredEdge) -> Seq<char> {
    edge_line(d.source, d.target, d.event)
}

/// The DOT text of a machine that resolves holds one line for each declared
/// transition and no other: the lines are the declared transitions, one for
/// one and in declaration order, each written with the names as declared.
pub proof fn lemma_one_line_per_transition(m: MachineView)
    requires
        resolve(m) is Ok,
    ensures
        edge_lines(resolved_graph(m)) == declared_edges(m).map_values(
            |d: DeclaredEdge| declared_edge_line(d),
        ),
        edge_lines(resolved_graph(m)).len() == declared_edges(m).len(),
        dot_text(resolved_graph(m)) == DOT_OPEN@ + declared_edges(m).map_values(
            |d: DeclaredEdge| declared_edge_line(d),
        ).flatten() + DOT_CLOSE@,
{
    let g = resolved_graph(m);
    let table = name_table(m.states);
    let declared = m.states.map_values(|s: StateView| declared_edges_of(s));
    let line = |d: DeclaredEdge| declared_edge_line(d);
    let blocks = edge_line_blocks(g);
    assert forall|i: int| 0 <= i < declared.len() implies #[trigger] blocks[i]
        == declared[i].map_values(line) by {
        assert forall|j: int| 0 <= j < declared[i].len() implies #[trigger] blocks[i][j]
            == declared[i].map_values(line)[j] by {
            assert(has_transition(m, i, j));
            lemma_all_targets_defined(m, i, j);
            lemma_name_table(m.states, m.states[i].transitions[j].target);
        }
        assert(blocks[i] =~= declared[i].map_values(line));
    }
    lemma_flatten_map(declared, line, blocks);
}

} // verus!
