//! Validation of a step list and its dependency edges into an acyclic graph.
use vstd::prelude::*;

use crate::digraph::{add_edge, add_node, graph_edges, graph_nodes, new_graph, StepGraph};

verus! {

/// The identity of a workflow step.
pub type StepId = u128;

/// A dependency edge `(from, to)`: `from` must complete before `to` starts.
pub type Edge = (StepId, StepId);

/// Why a step list and an edge list do not form a dependency graph.
#[derive(Debug, Clone, Copy, PartialEq, Eq, Structural)]
pub enum GraphError {
    /// An edge names a step that is not in the step list.
    StepNotFound(StepId),
    /// The edges form a cycle; the step named is one of those left unordered.
    CircularDependency(StepId),
}

/// `edges` holds the edge `a -> b`.
pub open spec fn has_edge(edges: Seq<Edge>, a: StepId, b: StepId) -> bool {
    exists|k: int| 0 <= k < edges.len() && #[trigger] edges[k] == (a, b)
}

/// Every endpoint of every edge is one of `ids`.
pub open spec fn endpoints_known(ids: Seq<StepId>, edges: Seq<Edge>) -> bool {
    forall|k: int|
        0 <= k < edges.len() ==> ids.contains(#[trigger] edges[k].0) && ids.contains(edges[k].1)
}

/// `order` lists each step of `ids` once, and no edge leads from a step to
/// itself or to a step listed before it.
pub open spec fn is_topological_order(order: Seq<StepId>, ids: Seq<StepId>, edges: Seq<Edge>) -> bool {
    &&& order.no_duplicates()
    &&& forall|x: StepId| order.contains(x) <==> ids.contains(x)
    &&& forall|i: int, j: int|
        0 <= j <= i < order.len() ==> !has_edge(edges, #[trigger] order[i], #[trigger] order[j])
}

/// The steps and edges form a directed acyclic graph: some order of the
/// steps respects every edge.
pub open spec fn is_acyclic(ids: Seq<StepId>, edges: Seq<Edge>) -> bool {
    exists|order: Seq<StepId>| is_topological_order(order, ids, edges)
}

/// `c` is a cycle of `edges`: each step has an edge to the next, and the
/// last to the first.
pub open spec fn is_cycle(edges: Seq<Edge>, c: Seq<StepId>) -> bool {
    &&& c.len() > 0
    &&& forall|i: int| 0 <= i < c.len() - 1 ==> #[trigger] has_edge(edges, c[i], c[i + 1])
    &&& has_edge(edges, c[c.len() - 1], c[0])
}

/// Step `x` lies on a cycle of `edges`.
pub open spec fn on_cycle(edges: Seq<Edge>, x: StepId) -> bool {
    exists|c: Seq<StepId>| is_cycle(edges, c) && c[0] == x
}

/// Edges that lead both ways between two steps form a cycle: no step list
/// makes them a valid graph, whether the steps are known or not.
pub proof fn law_two_way_edges_are_rejected(ids: Seq<StepId>, edges: Seq<Edge>, a: StepId, b: StepId)
    requires
        has_edge(edges, a, b),
        has_edge(edges, b, a),
    ensures
        !(endpoints_known(ids, edges) && is_acyclic(ids, edges)),
{
    if endpoints_known(ids, edges) && is_acyclic(ids, edges) {
        let o = choose|o: Seq<StepId>| is_topological_order(o, ids, edges);
        let k = choose|k: int| 0 <= k < edges.len() && #[trigger] edges[k] == (a, b);
        assert(ids.contains(edges[k].0) && ids.contains(edges[k].1));
        assert(o.contains(a) && o.contains(b));
        let i = choose|i: int| 0 <= i < o.len() && o[i] == a;
        let j = choose|j: int| 0 <= j < o.len() && o[j] == b;
        if i <= j {
            assert(!has_edge(edges, o[j], o[i]));
        } else {
            assert(!has_edge(edges, o[i], o[j]));
        }
    }
}

/// If every step of a nonempty set `r` of steps has a prerequisite in `r`,
/// no topological order exists: the set is empty whenever one does.
proof fn lemma_sourceless_set_is_empty(order: Seq<StepId>, ids: Seq<StepId>, edges: Seq<Edge>, r: Set<StepId>)
    requires
        is_topological_order(order, ids, edges),
        forall|y: StepId| #[trigger] r.contains(y) ==> ids.contains(y),
        forall|y: StepId|
            #[trigger] r.contains(y) ==> exists|x: StepId| r.contains(x) && has_edge(edges, x, y),
    ensures
        forall|y: StepId| !r.contains(y),
{
    if order.len() > 0 {
        lemma_prefix_outside_sourceless_set(order, ids, edges, r, order.len() - 1);
    }
    assert forall|y: StepId| !r.contains(y) by {
        if r.contains(y) {
            assert(order.contains(y));
            let q = choose|q: int| 0 <= q < order.len() && order[q] == y;
            assert(!r.contains(order[q]));
        }
    }
}

proof fn lemma_prefix_outside_sourceless_set(
    order: Seq<StepId>,
    ids: Seq<StepId>,
    edges: Seq<Edge>,
    r: Set<StepId>,
    p: int,
)
    requires
        is_topological_order(order, ids, edges),
        0 <= p < order.len(),
        forall|y: StepId| #[trigger] r.contains(y) ==> ids.contains(y),
        forall|y: StepId|
            #[trigger] r.contains(y) ==> exists|x: StepId| r.contains(x) && has_edge(edges, x, y),
    ensures
        forall|q: int| 0 <= q <= p ==> !r.contains(#[trigger] order[q]),
    decreases p,
{
    if p > 0 {
        lemma_prefix_outside_sourceless_set(order, ids, edges, r, p - 1);
    }
    if r.contains(order[p]) {
        let y = order[p];
        let x = choose|x: StepId| r.contains(x) && has_edge(edges, x, y);
        assert(order.contains(x));
        let q = choose|q: int| 0 <= q < order.len() && order[q] == x;
        if q >= p {
            assert(!has_edge(edges, order[q], order[p]));
        } else {
            assert(!r.contains(order[q]));
        }
    }
}

/// A validated dependency graph: the distinct steps, the edges as pairs of
/// positions among them, and an order of execution that respects the edges.
#[derive(Debug)]
pub struct DependencyGraph {
    nodes: Vec<StepId>,
    edges: Vec<(usize, usize)>,
    order: Vec<usize>,
    digraph: StepGraph,
}

impl DependencyGraph {
    /// The distinct steps of the graph.
    pub closed spec fn node_seq(&self) -> Seq<StepId> {
        self.nodes@
    }

    /// The edges, as pairs of positions in `node_seq`.
    pub closed spec fn edge_seq(&self) -> Seq<(usize, usize)> {
        self.edges@
    }

    /// The order of execution, as positions in `node_seq`.
    pub closed spec fn order_seq(&self) -> Seq<usize> {
        self.order@
    }

    /// The order of execution, as step ids.
    pub open spec fn order_ids(&self) -> Seq<StepId> {
        self.order_seq().map_values(|i: usize| self.node_seq()[i as int])
    }

    /// The edges, as pairs of step ids.
    pub open spec fn edge_ids(&self) -> Seq<Edge> {
        self.edge_seq().map_values(
            |e: (usize, usize)| (self.node_seq()[e.0 as int], self.node_seq()[e.1 as int]),
        )
    }

    /// Steps are distinct, edges and `order` point at steps, and `order`
    /// lists each position once, every edge going forward.
    pub open spec fn order_ok(&self, order: Seq<usize>) -> bool {
        &&& self.node_seq().len() <= usize::MAX
        &&& self.node_seq().no_duplicates()
        &&& forall|k: int|
            0 <= k < self.edge_seq().len() ==> (#[trigger] self.edge_seq()[k]).0 < self.node_seq().len()
                && self.edge_seq()[k].1 < self.node_seq().len()
        &&& order.len() == self.node_seq().len()
        &&& order.no_duplicates()
        &&& forall|t: int| 0 <= t < order.len() ==> #[trigger] order[t] < self.node_seq().len()
        &&& forall|x: usize| x < self.node_seq().len() ==> #[trigger] order.contains(x)
        &&& forall|t: int, k: int|
            0 <= t < order.len() && 0 <= k < self.edge_seq().len()
                && #[trigger] self.edge_seq()[k].1 == #[trigger] order[t] ==> exists|s: int|
                0 <= s < t && order[s] == self.edge_seq()[k].0
    }

    /// The petgraph graph holds the steps and edges.
    pub closed spec fn digraph_matches(&self) -> bool {
        graph_nodes(self.digraph) == self.node_seq() && graph_edges(self.digraph) == self.edge_seq()
    }

    /// The graph's invariant: its order is valid and its petgraph graph
    /// holds its steps and edges.
    pub open spec fn wf(&self) -> bool {
        self.order_ok(self.order_seq()) && self.digraph_matches()
    }

    /// The graph as a petgraph directed graph: node `i` holds the `i`-th
    /// step, and the edges are those of the definition, in order.
    pub fn digraph(&self) -> (r: &StepGraph)
        requires
            self.wf(),
        ensures
            graph_nodes(*r) == self.node_seq(),
            graph_edges(*r) == self.edge_seq(),
    {
        &self.digraph
    }

    /// The number of steps in the order of execution.
    pub fn order_len(&self) -> (r: usize)
        requires
            self.wf(),
        ensures
            r == self.order_ids().len(),
    {
        self.order.len()
    }

    /// The step at position `t` of the order of execution.
    pub fn order_id(&self, t: usize) -> (r: StepId)
        requires
            self.wf(),
            t < self.order_ids().len(),
        ensures
            r == self.order_ids()[t as int],
    {
        self.nodes[self.order[t]]
    }

    /// Builds the graph of `ids` and `edges`. Fails with `StepNotFound`
    /// naming the first unknown endpoint (in edge order, `from` before `to`),
    /// else with `CircularDependency` exactly when the edges form a cycle.
    pub fn build(ids: &Vec<StepId>, edges: &Vec<Edge>) -> (r: Result<DependencyGraph, GraphError>)
        ensures
            r is Ok <==> endpoints_known(ids@, edges@) && is_acyclic(ids@, edges@),
            r matches Ok(g) ==> {
                &&& g.wf()
                &&& forall|x: StepId| g.node_seq().contains(x) <==> ids@.contains(x)
                &&& g.edge_ids() == edges@
                &&& is_topological_order(g.order_ids(), ids@, edges@)
            },
            r matches Err(GraphError::StepNotFound(x)) ==> !ids@.contains(x) && exists|k: int|
                0 <= k < edges@.len() && (edges@[k].0 == x || edges@[k].1 == x),
            !endpoints_known(ids@, edges@) ==> r is Err && r->Err_0 is StepNotFound,
            endpoints_known(ids@, edges@) ==> !(r matches Err(GraphError::StepNotFound(_))),
            r matches Err(GraphError::CircularDependency(x)) ==> ids@.contains(x) && on_cycle(edges@, x),
    {
        let nodes = distinct_ids(ids);
        let mut idx: Vec<(usize, usize)> = Vec::new();
        let mut k: usize = 0;
        while k < edges.len()
            invariant
                k <= edges@.len(),
                nodes@.no_duplicates(),
                forall|x: StepId| nodes@.contains(x) <==> ids@.contains(x),
                idx@.len() == k,
                forall|q: int|
                    0 <= q < k ==> (#[trigger] idx@[q]).0 < nodes@.len() && idx@[q].1 < nodes@.len()
                        && nodes@[idx@[q].0 as int] == edges@[q].0 && nodes@[idx@[q].1 as int]
                        == edges@[q].1,
                forall|q: int| 0 <= q < k ==> ids@.contains((#[trigger] edges@[q]).0) && ids@.contains(edges@[q].1),
            decreases edges@.len() - k,
        {
            let (from, to) = edges[k];
            let a = match find_index(&nodes, from) {
                Some(a) => a,
                None => {
                    return Err(GraphError::StepNotFound(from));
                },
            };
            let b = match find_index(&nodes, to) {
                Some(b) => b,
                None => {
                    return Err(GraphError::StepNotFound(to));
                },
            };
            assert(nodes@.contains(nodes@[a as int]));
            assert(nodes@.contains(nodes@[b as int]));
            assert(ids@.contains(from));
            assert(ids@.contains(to));
            assert(edges@[k as int] == (from, to));
            assert(ids@.contains(edges@[k as int].0) && ids@.contains(edges@[k as int].1));
            idx.push((a, b));
            k = k + 1;
        }
        let mut digraph = new_graph();
        let mut i: usize = 0;
        while i < nodes.len()
            invariant
                i <= nodes@.len(),
                graph_nodes(digraph) == nodes@.subrange(0, i as int),
                graph_edges(digraph) == Seq::<(usize, usize)>::empty(),
            decreases nodes@.len() - i,
        {
            add_node(&mut digraph, nodes[i]);
            assert(nodes@.subrange(0, i + 1) =~= nodes@.subrange(0, i as int).push(nodes@[i as int]));
            i = i + 1;
        }
        assert(nodes@.subrange(0, nodes@.len() as int) == nodes@);
        let mut k: usize = 0;
        while k < idx.len()
            invariant
                k <= idx@.len(),
                graph_nodes(digraph) == nodes@,
                graph_edges(digraph) == idx@.subrange(0, k as int),
                forall|q: int|
                    0 <= q < idx@.len() ==> (#[trigger] idx@[q]).0 < nodes@.len() && idx@[q].1 < nodes@.len(),
            decreases idx@.len() - k,
        {
            add_edge(&mut digraph, idx[k].0, idx[k].1);
            assert(idx@.subrange(0, k + 1) =~= idx@.subrange(0, k as int).push(idx@[k as int]));
            k = k + 1;
        }
        assert(idx@.subrange(0, idx@.len() as int) == idx@);
        let g = DependencyGraph { nodes, edges: idx, order: Vec::new(), digraph };
        assert(g.edge_ids() =~= edges@);
        assert(g.digraph_matches());
        match g.sorted() {
            Ok(order) => {
                let g = DependencyGraph { order, ..g };
                proof {
                    g.lemma_order_ids_topological(ids@, edges@);
                }
                Ok(g)
            },
            Err(i) => {
                proof {
                    g.lemma_cycle_ids(edges@, i);
                    assert(!is_acyclic(ids@, edges@)) by {
                        if is_acyclic(ids@, edges@) {
                            let o = choose|o: Seq<StepId>| is_topological_order(o, ids@, edges@);
                            g.lemma_stalled_not_ordered(o, ids@, edges@);
                        }
                    }
                }
                Err(GraphError::CircularDependency(g.nodes[i]))
            },
        }
    }

    /// The edges between the graph's nodes, and nothing more, are required
    /// of an order of execution.
    spec fn edges_valid(&self) -> bool {
        &&& self.node_seq().no_duplicates()
        &&& forall|k: int|
            0 <= k < self.edge_seq().len() ==> (#[trigger] self.edge_seq()[k]).0 < self.node_seq().len()
                && self.edge_seq()[k].1 < self.node_seq().len()
    }

    /// Some edge from a position of `rest` leads to `x`.
    spec fn blocked_by(&self, rest: Seq<usize>, x: usize) -> bool {
        exists|k: int|
            0 <= k < self.edge_seq().len() && (#[trigger] self.edge_seq()[k]).1 == x && rest.contains(
                self.edge_seq()[k].0,
            )
    }

    /// No position of `rest` is the target of an edge from another position of `rest`.
    spec fn stalled(&self, rest: Seq<usize>) -> bool {
        &&& rest.len() > 0
        &&& forall|p: int| 0 <= p < rest.len() ==> #[trigger] rest[p] < self.node_seq().len()
        &&& forall|p: int| 0 <= p < rest.len() ==> self.blocked_by(rest, #[trigger] rest[p])
    }

    /// Orders the positions of the graph so that every edge goes forward,
    /// or returns a position among those that cannot be ordered.
    fn sorted(&self) -> (r: Result<Vec<usize>, usize>)
        requires
            self.edges_valid(),
        ensures
            r matches Ok(order) ==> self.order_ok(order@),
            r matches Err(i) ==> i < self.node_seq().len() && (exists|rest: Seq<usize>| self.stalled(rest))
                && exists|c: Seq<usize>| self.index_cycle(c) && c[0] == i,
    {
        let n = self.nodes.len();
        let mut order: Vec<usize> = Vec::new();
        let mut rest: Vec<usize> = Vec::new();
        let mut i: usize = 0;
        while i < n
            invariant
                i <= n,
                n == self.node_seq().len(),
                rest@ =~= Seq::new(i as nat, |p: int| p as usize),
            decreases n - i,
        {
            rest.push(i);
            i = i + 1;
        }
        assert forall|x: usize| x < n <==> (order@.contains(x) || rest@.contains(x)) by {
            if x < n {
                assert(rest@[x as int] == x);
            }
        }
        while rest.len() > 0
            invariant
                self.edges_valid(),
                n == self.node_seq().len(),
                order@.len() + rest@.len() == n,
                order@.no_duplicates(),
                rest@.no_duplicates(),
                forall|x: usize| #[trigger] order@.contains(x) ==> !rest@.contains(x),
                forall|x: usize| x < n <==> (order@.contains(x) || rest@.contains(x)),
                forall|t: int, k: int|
                    0 <= t < order@.len() && 0 <= k < self.edge_seq().len()
                        && #[trigger] self.edge_seq()[k].1 == #[trigger] order@[t] ==> exists|s: int|
                        0 <= s < t && order@[s] == self.edge_seq()[k].0,
            decreases rest@.len(),
        {
            match self.find_ready(&rest) {
                Some(p) => {
                    let x = rest[p];
                    let ghost old_order = order@;
                    let ghost old_rest = rest@;
                    assert(old_rest[p as int] == x);
                    assert(!old_order.contains(x));
                    rest.remove(p);
                    order.push(x);
                    proof {
                        assert(order@.no_duplicates()) by {
                            assert forall|a: int, b: int|
                                0 <= a < b < order@.len() implies order@[a] != order@[b] by {
                                if b == old_order.len() {
                                    assert(old_order.contains(order@[a]));
                                }
                            }
                        }
                        assert forall|y: usize| #[trigger] order@.contains(y) implies !rest@.contains(y) by {
                            if y != x {
                                assert(old_order.contains(y));
                            }
                            if rest@.contains(y) {
                                let q = choose|q: int| 0 <= q < rest@.len() && rest@[q] == y;
                                if q < p {
                                    assert(old_rest[q] == y);
                                } else {
                                    assert(old_rest[q + 1] == y);
                                }
                            }
                        }
                        assert forall|y: usize| y < n <==> (order@.contains(y) || rest@.contains(y)) by {
                            if old_rest.contains(y) && y != x {
                                let q = choose|q: int| 0 <= q < old_rest.len() && old_rest[q] == y;
                                if q < p {
                                    assert(rest@[q] == y);
                                } else {
                                    assert(rest@[q - 1] == y);
                                }
                            }
                            if old_order.contains(y) {
                                let q = choose|q: int| 0 <= q < old_order.len() && old_order[q] == y;
                                assert(order@[q] == y);
                            }
                            if order@.contains(y) && y != x {
                                let q = choose|q: int| 0 <= q < order@.len() && order@[q] == y;
                                assert(old_order[q] == y);
                            }
                            if rest@.contains(y) {
                                let q = choose|q: int| 0 <= q < rest@.len() && rest@[q] == y;
                                if q < p {
                                    assert(old_rest[q] == y);
                                } else {
                                    assert(old_rest[q + 1] == y);
                                }
                            }
                            assert(order@[order@.len() - 1] == x);
                        }
                        assert forall|t: int, k: int|
                            0 <= t < order@.len() && 0 <= k < self.edge_seq().len()
                                && #[trigger] self.edge_seq()[k].1 == #[trigger] order@[t] implies exists|s: int|
                                0 <= s < t && order@[s] == self.edge_seq()[k].0 by {
                            if t < old_order.len() {
                                let s = choose|s: int| 0 <= s < t && old_order[s] == self.edge_seq()[k].0;
                                assert(order@[s] == self.edge_seq()[k].0);
                            } else {
                                let src = self.edge_seq()[k].0;
                                assert(!old_rest.contains(src));
                                assert(old_order.contains(src));
                                let s = choose|s: int| 0 <= s < old_order.len() && old_order[s] == src;
                                assert(order@[s] == src);
                            }
                        }
                        assert(rest@.no_duplicates()) by {
                            assert forall|a: int, b: int|
                                0 <= a < b < rest@.len() implies rest@[a] != rest@[b] by {
                                let a2 = if a < p { a } else { a + 1 };
                                let b2 = if b < p { b } else { b + 1 };
                                assert(rest@[a] == old_rest[a2]);
                                assert(rest@[b] == old_rest[b2]);
                            }
                        }
                    }
                },
                None => {
                    let ghost rs = rest@;
                    assert(rs[0] < n);
                    assert(self.stalled(rs));
                    return Err(self.find_cycle(&rest));
                },
            }
        }
        proof {
            assert forall|t: int| 0 <= t < order@.len() implies #[trigger] order@[t] < n by {
                assert(order@.contains(order@[t]));
            }
            assert forall|x: usize| x < n implies #[trigger] order@.contains(x) by {
                assert(!rest@.contains(x));
            }
            assert(self.node_seq().len() <= usize::MAX);
            assert(self.order_ok(order@));
        }
        Ok(order)
    }

    /// Edge `a -> b` is among the graph's edges, as positions.
    pub open spec fn index_edge(&self, a: usize, b: usize) -> bool {
        exists|k: int| 0 <= k < self.edge_seq().len() && self.edge_seq()[k] == (a, b)
    }

    /// `c` is a cycle of positions of the graph.
    pub open spec fn index_cycle(&self, c: Seq<usize>) -> bool {
        &&& c.len() > 0
        &&& forall|i: int| 0 <= i < c.len() ==> #[trigger] c[i] < self.node_seq().len()
        &&& forall|i: int| 0 <= i < c.len() - 1 ==> #[trigger] self.index_edge(c[i], c[i + 1])
        &&& self.index_edge(c[c.len() - 1], c[0])
    }

    /// A position of `rest` with an edge into `y`.
    fn blocking_source(&self, rest: &Vec<usize>, y: usize) -> (r: usize)
        requires
            self.edges_valid(),
            self.blocked_by(rest@, y),
        ensures
            rest@.contains(r),
            self.index_edge(r, y),
    {
        let mut k: usize = 0;
        while k < self.edges.len()
            invariant
                k <= self.edge_seq().len(),
                forall|q: int|
                    0 <= q < k && (#[trigger] self.edge_seq()[q]).1 == y ==> !rest@.contains(self.edge_seq()[q].0),
            decreases self.edge_seq().len() - k,
        {
            let (a, b) = self.edges[k];
            if b == y && contains_position(rest, a) {
                assert(self.edge_seq()[k as int] == (a, b));
                return a;
            }
            k = k + 1;
        }
        vstd::pervasive::unreached()
    }

    /// A position on a cycle, found by walking back from `rest[0]` along
    /// edges that come from `rest` until a position repeats.
    fn find_cycle(&self, rest: &Vec<usize>) -> (r: usize)
        requires
            self.edges_valid(),
            self.stalled(rest@),
        ensures
            r < self.node_seq().len(),
            exists|c: Seq<usize>| self.index_cycle(c) && c[0] == r,
    {
        let mut walk: Vec<usize> = Vec::new();
        walk.push(rest[0]);
        assert(rest@.contains(rest@[0]));
        loop
            invariant
                self.edges_valid(),
                self.stalled(rest@),
                walk@.len() > 0,
                walk@.len() <= rest@.len(),
                walk@.no_duplicates(),
                forall|t: int| 0 <= t < walk@.len() ==> rest@.contains(#[trigger] walk@[t]),
                forall|t: int| 0 <= t < walk@.len() - 1 ==> #[trigger] self.index_edge(walk@[t + 1], walk@[t]),
            decreases rest@.len() - walk@.len(),
        {
            let m = walk.len() - 1;
            let y = walk[m];
            proof {
                assert(rest@.contains(y));
                let p = choose|p: int| 0 <= p < rest@.len() && rest@[p] == y;
                assert(self.blocked_by(rest@, rest@[p]));
            }
            let a = self.blocking_source(rest, y);
            match find_position(&walk, a) {
                Some(j) => {
                    proof {
                        let w = walk@;
                        let len = (m - j + 1) as nat;
                        let c = Seq::new(len, |i: int| if i == 0 { w[j as int] } else { w[m + 1 - i] });
                        assert forall|i: int| 0 <= i < c.len() implies #[trigger] c[i] < self.node_seq().len() by {
                            let t = if i == 0 { j as int } else { m + 1 - i };
                            assert(rest@.contains(w[t]));
                            let p = choose|p: int| 0 <= p < rest@.len() && rest@[p] == w[t];
                        }
                        assert forall|i: int| 0 <= i < c.len() - 1 implies #[trigger] self.index_edge(c[i], c[i + 1]) by {
                            if i > 0 {
                                let t = m - i;
                                assert(self.index_edge(w[t + 1], w[t]));
                            }
                        }
                        if len > 1 {
                            assert(self.index_edge(w[j + 1], w[j as int]));
                        }
                        assert(self.index_cycle(c));
                    }
                    return a;
                },
                None => {
                    let ghost before = walk@;
                    walk.push(a);
                    proof {
                        assert forall|t: int| 0 <= t < walk@.len() - 1 implies #[trigger] self.index_edge(walk@[t + 1], walk@[t]) by {
                            if t < before.len() - 1 {
                                assert(walk@[t] == before[t] && walk@[t + 1] == before[t + 1]);
                            }
                        }
                        assert(walk@.no_duplicates());
                        assert forall|x: usize| walk@.contains(x) implies rest@.contains(x) by {
                            let t = choose|t: int| 0 <= t < walk@.len() && walk@[t] == x;
                            assert(rest@.contains(walk@[t]));
                        }
                        lemma_distinct_within(walk@, rest@);
                    }
                },
            }
        }
    }

    /// A cycle of positions gives a cycle of the steps at those positions.
    proof fn lemma_cycle_ids(&self, edges: Seq<Edge>, i: usize)
        requires
            self.edges_valid(),
            self.edge_ids() == edges,
            exists|c: Seq<usize>| self.index_cycle(c) && c[0] == i,
        ensures
            on_cycle(edges, self.node_seq()[i as int]),
    {
        let c = choose|c: Seq<usize>| self.index_cycle(c) && c[0] == i;
        let nodes = self.node_seq();
        let ci = c.map_values(|p: usize| nodes[p as int]);
        assert forall|a: usize, b: usize| self.index_edge(a, b) implies has_edge(edges, nodes[a as int], nodes[b as int]) by {
            let k = choose|k: int| 0 <= k < self.edge_seq().len() && self.edge_seq()[k] == (a, b);
            assert(edges[k] == (nodes[a as int], nodes[b as int]));
        }
        assert forall|q: int| 0 <= q < ci.len() - 1 implies #[trigger] has_edge(edges, ci[q], ci[q + 1]) by {
            assert(self.index_edge(c[q], c[q + 1]));
        }
        assert(self.index_edge(c[c.len() - 1], c[0]));
        assert(is_cycle(edges, ci));
    }

    /// A position of `rest` that is the target of no edge from `rest`.
    fn find_ready(&self, rest: &Vec<usize>) -> (r: Option<usize>)
        requires
            self.edges_valid(),
            rest@.len() > 0,
        ensures
            r matches Some(p) ==> p < rest@.len() && forall|k: int|
                0 <= k < self.edge_seq().len() && #[trigger] self.edge_seq()[k].1 == rest@[p as int]
                    ==> !rest@.contains(self.edge_seq()[k].0),
            r is None ==> forall|p: int| 0 <= p < rest@.len() ==> self.blocked_by(rest@, #[trigger] rest@[p]),
    {
        let mut p: usize = 0;
        while p < rest.len()
            invariant
                p <= rest@.len(),
                forall|q: int| 0 <= q < p ==> self.blocked_by(rest@, #[trigger] rest@[q]),
            decreases rest@.len() - p,
        {
            let x = rest[p];
            let mut k: usize = 0;
            let mut blocked = false;
            while k < self.edges.len() && !blocked
                invariant
                    k <= self.edge_seq().len(),
                    x == rest@[p as int],
                    blocked ==> self.blocked_by(rest@, x),
                    !blocked ==> forall|q: int|
                        0 <= q < k && #[trigger] self.edge_seq()[q].1 == x ==> !rest@.contains(
                            self.edge_seq()[q].0,
                        ),
                decreases self.edge_seq().len() - k,
            {
                let (a, b) = self.edges[k];
                if b == x && contains_position(rest, a) {
                    blocked = true;
                }
                k = k + 1;
            }
            if !blocked {
                return Some(p);
            }
            p = p + 1;
        }
        None
    }

    proof fn lemma_order_ids_topological(&self, ids: Seq<StepId>, edges: Seq<Edge>)
        requires
            self.wf(),
            forall|x: StepId| self.node_seq().contains(x) <==> ids.contains(x),
            self.edge_ids() == edges,
        ensures
            is_topological_order(self.order_ids(), ids, edges),
    {
        let o = self.order_ids();
        let nodes = self.node_seq();
        assert(o.no_duplicates()) by {
            assert forall|a: int, b: int| 0 <= a < b < o.len() implies o[a] != o[b] by {
                assert(self.order_seq()[a] != self.order_seq()[b]);
                assert(self.order_seq()[a] < nodes.len());
                assert(self.order_seq()[b] < nodes.len());
            }
        }
        assert forall|x: StepId| o.contains(x) <==> ids.contains(x) by {
            if ids.contains(x) {
                let q = choose|q: int| 0 <= q < nodes.len() && nodes[q] == x;
                assert((q as usize) as int == q);
                assert((q as usize) < nodes.len());
                assert(self.order_seq().contains(q as usize));
                let t = choose|t: int| 0 <= t < self.order_seq().len() && self.order_seq()[t] == q as usize;
                assert(o.len() == self.order_seq().len());
                assert(o[t] == nodes[self.order_seq()[t] as int]);
                assert(o[t] == x);
            }
            if o.contains(x) {
                let t = choose|t: int| 0 <= t < o.len() && o[t] == x;
                assert(self.order_seq()[t] < nodes.len());
                assert(nodes.contains(x));
            }
        }
        assert forall|i: int, j: int| 0 <= j <= i < o.len() implies !has_edge(edges, #[trigger] o[i], #[trigger] o[j]) by {
            if has_edge(edges, o[i], o[j]) {
                let k = choose|k: int| 0 <= k < edges.len() && #[trigger] edges[k] == (o[i], o[j]);
                let e = self.edge_seq()[k];
                assert(edges[k] == (nodes[e.0 as int], nodes[e.1 as int]));
                assert(self.order_seq()[i] < nodes.len());
                assert(self.order_seq()[j] < nodes.len());
                assert(e.1 == self.order_seq()[j]);
                let s = choose|s: int| 0 <= s < j && self.order_seq()[s] == e.0;
                assert(e.0 == self.order_seq()[i]);
                assert(self.order_seq()[s] == self.order_seq()[i]);
            }
        }
    }

    proof fn lemma_stalled_not_ordered(&self, o: Seq<StepId>, ids: Seq<StepId>, edges: Seq<Edge>)
        requires
            self.edges_valid(),
            exists|rest: Seq<usize>| self.stalled(rest),
            forall|x: StepId| self.node_seq().contains(x) <==> ids.contains(x),
            self.edge_ids() == edges,
        ensures
            !is_topological_order(o, ids, edges),
    {
        if !is_topological_order(o, ids, edges) {
            return;
        }
        let rest = choose|rest: Seq<usize>| self.stalled(rest);
        let nodes = self.node_seq();
        let r = Set::new(|y: StepId| exists|p: int| 0 <= p < rest.len() && nodes[rest[p] as int] == y);
        assert forall|y: StepId| #[trigger] r.contains(y) implies ids.contains(y) by {
            let p = choose|p: int| 0 <= p < rest.len() && nodes[rest[p] as int] == y;
            assert(rest[p] < nodes.len());
            assert(nodes.contains(y));
        }
        assert forall|y: StepId| #[trigger] r.contains(y) implies exists|x: StepId|
            r.contains(x) && has_edge(edges, x, y) by {
            let p = choose|p: int| 0 <= p < rest.len() && nodes[rest[p] as int] == y;
            assert(self.blocked_by(rest, rest[p]));
            let k = choose|k: int|
                0 <= k < self.edge_seq().len() && (#[trigger] self.edge_seq()[k]).1 == rest[p]
                    && rest.contains(self.edge_seq()[k].0);
            let e = self.edge_seq()[k];
            let q = choose|q: int| 0 <= q < rest.len() && rest[q] == e.0;
            let x = nodes[e.0 as int];
            assert(r.contains(x));
            assert(edges[k] == (x, y));
        }
        lemma_sourceless_set_is_empty(o, ids, edges, r);
        assert(rest[0] < nodes.len());
        assert(r.contains(nodes[rest[0] as int]));
    }
}

/// The position of `x` in `nodes`, if it occurs there.
fn find_index(nodes: &Vec<StepId>, x: StepId) -> (r: Option<usize>)
    ensures
        r matches Some(i) ==> i < nodes@.len() && nodes@[i as int] == x,
        r is None ==> !nodes@.contains(x),
{
    let mut i: usize = 0;
    while i < nodes.len()
        invariant
            i <= nodes@.len(),
            forall|q: int| 0 <= q < i ==> nodes@[q] != x,
        decreases nodes@.len() - i,
    {
        if nodes[i] == x {
            return Some(i);
        }
        i = i + 1;
    }
    None
}

/// The position of `x` in `v`, if it occurs there.
fn find_position(v: &Vec<usize>, x: usize) -> (r: Option<usize>)
    ensures
        r matches Some(i) ==> i < v@.len() && v@[i as int] == x,
        r is None ==> !v@.contains(x),
{
    let mut i: usize = 0;
    while i < v.len()
        invariant
            i <= v@.len(),
            forall|q: int| 0 <= q < i ==> v@[q] != x,
        decreases v@.len() - i,
    {
        if v[i] == x {
            return Some(i);
        }
        i = i + 1;
    }
    None
}

/// A sequence without repeats, all of whose elements occur in `r`, is no
/// longer than `r`.
proof fn lemma_distinct_within(s: Seq<usize>, r: Seq<usize>)
    requires
        s.no_duplicates(),
        forall|x: usize| s.contains(x) ==> r.contains(x),
    ensures
        s.len() <= r.len(),
{
    s.unique_seq_to_set();
    r.lemma_cardinality_of_set();
    vstd::seq_lib::seq_to_set_is_finite(r);
    assert(s.to_set().subset_of(r.to_set()));
    vstd::set_lib::lemma_len_subset(s.to_set(), r.to_set());
}

/// Whether `x` occurs in `v`.
fn contains_position(v: &Vec<usize>, x: usize) -> (r: bool)
    ensures
        r == v@.contains(x),
{
    let mut i: usize = 0;
    while i < v.len()
        invariant
            i <= v@.len(),
            forall|q: int| 0 <= q < i ==> v@[q] != x,
        decreases v@.len() - i,
    {
        if v[i] == x {
            return true;
        }
        i = i + 1;
    }
    false
}

/// The ids of `ids`, each once, in order of first occurrence.
fn distinct_ids(ids: &Vec<StepId>) -> (r: Vec<StepId>)
    ensures
        r@.no_duplicates(),
        forall|x: StepId| r@.contains(x) <==> ids@.contains(x),
{
    let mut r: Vec<StepId> = Vec::new();
    let mut i: usize = 0;
    while i < ids.len()
        invariant
            i <= ids@.len(),
            r@.no_duplicates(),
            forall|x: StepId| r@.contains(x) <==> ids@.subrange(0, i as int).contains(x),
        decreases ids@.len() - i,
    {
        let x = ids[i];
        let ghost before = r@;
        match find_index(&r, x) {
            Some(q) => {
                assert(r@[q as int] == x);
            },
            None => {
                r.push(x);
                assert(r@ == before.push(x));
                assert(r@[before.len() as int] == x);
            },
        }
        assert(r@.contains(x));
        let ghost pre = ids@.subrange(0, i as int);
        assert(ids@.subrange(0, i + 1) =~= pre.push(x));
        assert forall|y: StepId| r@.contains(y) <==> pre.push(x).contains(y) by {
            if pre.push(x).contains(y) && y != x {
                let q = choose|q: int| 0 <= q < pre.len() + 1 && pre.push(x)[q] == y;
                assert(pre[q] == y);
                assert(before.contains(y));
                let q2 = choose|q2: int| 0 <= q2 < before.len() && before[q2] == y;
                assert(r@[q2] == y);
            }
            if r@.contains(y) {
                if y == x {
                    assert(pre.push(x)[pre.len() as int] == x);
                } else {
                    let q = choose|q: int| 0 <= q < r@.len() && r@[q] == y;
                    assert(before[q] == y);
                    assert(before.contains(y));
                    assert(pre.contains(y));
                    let q2 = choose|q2: int| 0 <= q2 < pre.len() && pre[q2] == y;
                    assert(pre.push(x)[q2] == y);
                }
            }
        }
        i = i + 1;
    }
    assert(ids@.subrange(0, ids@.len() as int) == ids@);
    r
}

} // verus!
