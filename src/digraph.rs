//! The directed graph of petgraph that holds a workflow's steps and edges.
use vstd::prelude::*;

use crate::graph::StepId;

verus! {

#[verifier::external_type_specification]
#[verifier::external_body]
#[verifier::reject_recursive_types(N)]
#[verifier::reject_recursive_types(E)]
#[verifier::reject_recursive_types(Ty)]
#[verifier::reject_recursive_types(Ix)]
pub struct ExGraph<N, E, Ty, Ix>(petgraph::graph::Graph<N, E, Ty, Ix>);

#[verifier::external_type_specification]
#[verifier::external_body]
pub struct ExDirected(petgraph::Directed);

/// A directed graph of step ids, indexed by `usize`.
pub type StepGraph = petgraph::graph::Graph<StepId, (), petgraph::Directed, usize>;

/// The node weights of a step graph, by node index.
pub uninterp spec fn graph_nodes(g: StepGraph) -> Seq<StepId>;

/// The edges of a step graph, as pairs of node indices, by edge index.
pub uninterp spec fn graph_edges(g: StepGraph) -> Seq<(usize, usize)>;

/// Relies on the `Default` of `Graph` (`with_capacity(0, 0)`): a graph with
/// no node and no edge.
#[verifier::external_body]
pub(crate) fn new_graph() -> (r: StepGraph)
    ensures
        graph_nodes(r) == Seq::<StepId>::empty(),
        graph_edges(r) == Seq::<(usize, usize)>::empty(),
{
    petgraph::graph::Graph::default()
}

/// Relies on `Graph::add_node`: the node is appended, its index is the
/// former node count; with `usize` indices it never runs out of them.
#[verifier::external_body]
pub(crate) fn add_node(g: &mut StepGraph, id: StepId) -> (r: usize)
    ensures
        graph_nodes(*final(g)) == graph_nodes(*old(g)).push(id),
        graph_edges(*final(g)) == graph_edges(*old(g)),
        r == graph_nodes(*old(g)).len(),
{
    g.add_node(id).index()
}

/// Relies on `Graph::add_edge`: the edge `a -> b` is appended; it panics
/// when an index is out of bounds, which `requires` rules out.
#[verifier::external_body]
pub(crate) fn add_edge(g: &mut StepGraph, a: usize, b: usize)
    requires
        a < graph_nodes(*old(g)).len(),
        b < graph_nodes(*old(g)).len(),
    ensures
        graph_nodes(*final(g)) == graph_nodes(*old(g)),
        graph_edges(*final(g)) == graph_edges(*old(g)).push((a, b)),
{
    g.add_edge(petgraph::graph::NodeIndex::new(a), petgraph::graph::NodeIndex::new(b), ());
}

} // verus!
