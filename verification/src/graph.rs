//! The directed graph that a call graph is kept in, and its topological order.
//!
//! The graph is that of petgraph. What is stated here of its operations is believed, not proved.
use petgraph::graph::{Graph, NodeIndex};
use vstd::prelude::*;

verus! {

/// The graph type of petgraph.
#[verifier::external_type_specification]
#[verifier::external_body]
#[verifier::reject_recursive_types(N)]
#[verifier::reject_recursive_types(E)]
#[verifier::reject_recursive_types(Ty)]
#[verifier::reject_recursive_types(Ix)]
pub struct ExGraph<N, E, Ty, Ix>(Graph<N, E, Ty, Ix>);

/// The marker of petgraph for graphs whose edges have a direction.
#[verifier::external_type_specification]
#[verifier::external_body]
pub struct ExDirected(petgraph::Directed);

/// A directed graph whose nodes stand for functions, given by their position in the module.
pub type CallGraph = Graph<usize, ()>;

/// The weights of the nodes of a graph, by node index.
pub uninterp spec fn graph_nodes(graph: Graph<usize, ()>) -> Seq<usize>;

/// The edges of a graph, from source to target, in the order of their addition.
pub uninterp spec fn graph_edges(graph: Graph<usize, ()>) -> Seq<(u32, u32)>;

/// What `petgraph::algo::toposort` makes of a graph with so many nodes and these edges: an order
/// of its nodes, or `None` if it reports a cycle.
pub uninterp spec fn toposort(nodes: nat, edges: Seq<(u32, u32)>) -> Option<Seq<u32>>;

/// Whether `order` has every node exactly once, and the source of each edge before its target.
pub open spec fn is_topological(order: Seq<u32>, nodes: nat, edges: Seq<(u32, u32)>) -> bool {
    &&& order.len() == nodes
    &&& order.no_duplicates()
    &&& forall|i: int| 0 <= i < order.len() ==> #[trigger] order[i] < nodes
    &&& forall|i: int, j: int|
        0 <= i < order.len() && 0 <= j < order.len() && edges.contains(
            (#[trigger] order[i], #[trigger] order[j]),
        ) ==> i < j
}

/// Whether `walk` follows edges and ends where it starts.
pub open spec fn is_cycle(walk: Seq<u32>, edges: Seq<(u32, u32)>) -> bool {
    &&& walk.len() >= 2
    &&& walk.first() == walk.last()
    &&& forall|i: int| 0 <= i < walk.len() - 1 ==> edges.contains((#[trigger] walk[i], walk[i + 1]))
}

/// Whether the edges form a cycle.
pub open spec fn has_cycle(edges: Seq<(u32, u32)>) -> bool {
    exists|walk: Seq<u32>| is_cycle(walk, edges)
}

/// `petgraph::graph::Graph::new`: a graph without nodes and without edges.
#[verifier::external_body]
pub(crate) fn graph_new() -> (graph: CallGraph)
    ensures
        graph_nodes(graph) == Seq::<usize>::empty(),
        graph_edges(graph) == Seq::<(u32, u32)>::empty(),
{
    Graph::new()
}

/// `petgraph::graph::Graph::add_node`: adds a node with the next index and returns the index. It
/// panics if the graph is at the maximum number of nodes for its index type.
#[verifier::external_body]
pub(crate) fn graph_add_node(graph: &mut CallGraph, weight: usize) -> (node: u32)
    requires
        graph_nodes(*old(graph)).len() < u32::MAX,
    ensures
        node == graph_nodes(*old(graph)).len(),
        graph_nodes(*final(graph)) == graph_nodes(*old(graph)).push(weight),
        graph_edges(*final(graph)) == graph_edges(*old(graph)),
{
    graph.add_node(weight).index() as u32
}

/// `petgraph::graph::Graph::add_edge`: adds an edge between two nodes, also if there is one
/// already. It panics if a node doesn't exist or if the graph is at the maximum number of edges
/// for its index type.
#[verifier::external_body]
pub(crate) fn graph_add_edge(graph: &mut CallGraph, source: u32, target: u32)
    requires
        source < graph_nodes(*old(graph)).len(),
        target < graph_nodes(*old(graph)).len(),
        graph_edges(*old(graph)).len() < u32::MAX,
    ensures
        graph_nodes(*final(graph)) == graph_nodes(*old(graph)),
        graph_edges(*final(graph)) == graph_edges(*old(graph)).push((source, target)),
{
    graph.add_edge(NodeIndex::new(source as usize), NodeIndex::new(target as usize), ());
}

/// `petgraph::graph::Graph::node_count`: the number of nodes.
#[verifier::external_body]
pub(crate) fn graph_node_count(graph: &CallGraph) -> (count: usize)
    ensures
        count == graph_nodes(*graph).len(),
{
    graph.node_count()
}

/// `petgraph::graph::Graph::edge_count`: the number of edges.
#[verifier::external_body]
pub(crate) fn graph_edge_count(graph: &CallGraph) -> (count: usize)
    ensures
        count == graph_edges(*graph).len(),
{
    graph.edge_count()
}

/// `petgraph::graph::Graph::node_weight`: the weight of a node, if the node exists.
#[verifier::external_body]
pub(crate) fn graph_node_weight(graph: &CallGraph, node: u32) -> (weight: Option<usize>)
    ensures
        weight == (if node < graph_nodes(*graph).len() {
            Some(graph_nodes(*graph)[node as int])
        } else {
            None
        }),
{
    graph.node_weight(NodeIndex::new(node as usize)).copied()
}

/// `petgraph::graph::Graph::raw_nodes`: all the nodes in the order of their indices, of which the
/// weights are taken.
#[verifier::external_body]
pub(crate) fn graph_raw_nodes(graph: &CallGraph) -> (weights: Vec<usize>)
    ensures
        weights@ == graph_nodes(*graph),
{
    graph.raw_nodes().iter().map(|node| node.weight).collect()
}

/// `petgraph::algo::toposort`: the nodes in topological order, each before its successors, or
/// `None` in place of the error that it returns if the graph has a cycle. The result depends on
/// the number of nodes and on the edges in the order of their addition.
#[verifier::external_body]
pub(crate) fn graph_toposort(graph: &CallGraph) -> (order: Option<Vec<u32>>)
    ensures
        match order {
            Some(nodes) => {
                &&& toposort(graph_nodes(*graph).len(), graph_edges(*graph)) == Some(nodes@)
                &&& is_topological(nodes@, graph_nodes(*graph).len(), graph_edges(*graph))
            },
            None => {
                &&& toposort(graph_nodes(*graph).len(), graph_edges(*graph)) is None
                &&& has_cycle(graph_edges(*graph))
            },
        },
{
    match petgraph::algo::toposort(graph, None) {
        Ok(nodes) => Some(nodes.into_iter().map(|node| node.index() as u32).collect()),
        Err(_) => None,
    }
}

} // verus!
