//! The functions that an entry point needs, and which of them call which.
use crate::error::Stop;
use crate::graph::{
    graph_add_edge, graph_add_node, graph_edge_count, graph_edges, graph_new, graph_node_count,
    graph_node_weight, graph_nodes, CallGraph,
};
use crate::ir::{Expression, Function, Module};
use crate::visit::{after_all, function_visits, Interface, Visitor};
use vstd::prelude::*;

verus! {

/// Collects the functions that are called, by their position in the module.
pub struct CallVisitor {
    pub calls: Vec<usize>,
}

impl Visitor for CallVisitor {
    type Model = Seq<usize>;

    open spec fn wf(&self) -> bool {
        true
    }

    open spec fn model(&self) -> Seq<usize> {
        self.calls@
    }

    open spec fn after(model: Seq<usize>, expr: Expression) -> Seq<usize> {
        match expr {
            Expression::Call { function, .. } => model.push(function.index),
            _ => model,
        }
    }

    fn visit_expr(&mut self, expr: &Expression) {
        match expr {
            Expression::Call { function, .. } => self.calls.push(function.index),
            _ => (),
        }
    }
}

/// The functions that a function calls, in the order of its expressions. There is no such list if
/// the function is invalid.
pub open spec fn calls_of(func: Function) -> Option<Seq<usize>> {
    match function_visits(func) {
        Some(visits) => Some(after_all::<CallVisitor>(Seq::empty(), visits)),
        None => None,
    }
}

/// The nodes and edges of a call graph. A node stands for a function, given by its position in the
/// module, and an edge leads from a function to one that calls it.
pub struct GraphModel {
    pub nodes: Seq<usize>,
    pub edges: Seq<(u32, u32)>,
}

/// The node of a function, or the next free one.
pub open spec fn node_of(nodes: Seq<usize>, function: usize) -> int
    decreases nodes.len(),
{
    if nodes.len() == 0 {
        0
    } else if nodes.drop_last().contains(function) {
        node_of(nodes.drop_last(), function)
    } else if nodes.last() == function {
        nodes.len() - 1
    } else {
        nodes.len() as int
    }
}

/// The graph with a node for `target`, and an edge from there to `caller` if there is one.
///
/// The target must be a function of the module. Nodes and edges are numbered by a `u32`.
pub open spec fn with_call(
    graph: GraphModel,
    caller: Option<u32>,
    target: usize,
    functions: nat,
) -> Option<GraphModel> {
    let known = graph.nodes.contains(target);
    if target >= functions || (!known && graph.nodes.len() >= u32::MAX) || (caller is Some
        && graph.edges.len() >= u32::MAX) {
        None
    } else {
        let nodes = if known {
            graph.nodes
        } else {
            graph.nodes.push(target)
        };
        let edges = match caller {
            Some(node) => graph.edges.push((node_of(nodes, target) as u32, node)),
            None => graph.edges,
        };
        Some(GraphModel { nodes, edges })
    }
}

/// The graph with the first `count` of `targets`, called from `caller` if that is a node.
pub open spec fn with_calls(
    graph: GraphModel,
    caller: Option<u32>,
    targets: Seq<usize>,
    count: nat,
    functions: nat,
) -> Option<GraphModel>
    decreases count,
{
    if count == 0 {
        Some(graph)
    } else {
        match with_calls(graph, caller, targets, (count - 1) as nat, functions) {
            Some(before) => with_call(before, caller, targets[count - 1], functions),
            None => None,
        }
    }
}

/// The graph with the calls of all the nodes from `node` on, and of the nodes that they add.
pub open spec fn with_nodes_from(module: Module, graph: GraphModel, node: nat) -> Option<GraphModel>
    decreases module.functions@.len() - node,
{
    let functions = module.functions@.len();
    if node >= graph.nodes.len() {
        Some(graph)
    } else if node >= functions || graph.nodes[node as int] >= functions {
        None
    } else {
        match calls_of(module.functions@[graph.nodes[node as int] as int]) {
            None => None,
            Some(targets) => match with_calls(
                graph,
                Some(node as u32),
                targets,
                targets.len(),
                functions,
            ) {
                None => None,
                Some(next) => with_nodes_from(module, next, node + 1),
            },
        }
    }
}

/// The call graph of an entry point: a node for each function that is called from there, directly
/// or not, and an edge from each to those that call it. The entry point isn't in the graph.
///
/// There is no graph if a function is invalid, or if there are too many nodes or edges.
pub open spec fn call_graph_of(module: Module, entry: Function) -> Option<GraphModel> {
    let empty = GraphModel { nodes: Seq::empty(), edges: Seq::empty() };
    match calls_of(entry) {
        None => None,
        Some(targets) => match with_calls(
            empty,
            None,
            targets,
            targets.len(),
            module.functions@.len(),
        ) {
            None => None,
            Some(graph) => with_nodes_from(module, graph, 0),
        },
    }
}

/// The nodes and edges of a graph.
pub open spec fn model_of(graph: CallGraph) -> GraphModel {
    GraphModel { nodes: graph_nodes(graph), edges: graph_edges(graph) }
}

/// The node of a function is where it stands, or the next free one.
pub proof fn node_of_is_position(nodes: Seq<usize>, function: usize)
    ensures
        0 <= node_of(nodes, function) <= nodes.len(),
        nodes.contains(function) ==> node_of(nodes, function) < nodes.len() && nodes[node_of(
            nodes,
            function,
        )] == function,
    decreases nodes.len(),
{
    if nodes.len() > 0 {
        node_of_is_position(nodes.drop_last(), function);
        if nodes.contains(function) && !nodes.drop_last().contains(function) {
            let i = choose|i: int| 0 <= i < nodes.len() && nodes[i] == function;
            assert(i == nodes.len() - 1) by {
                if i < nodes.len() - 1 {
                    assert(nodes.drop_last()[i] == function);
                }
            }
        }
    }
}

/// If the first place where `function` stands is `position`, that is its node.
proof fn first_position_is_node(nodes: Seq<usize>, function: usize, position: int)
    requires
        0 <= position < nodes.len(),
        nodes[position] == function,
        forall|i: int| 0 <= i < position ==> nodes[i] != function,
    ensures
        node_of(nodes, function) == position,
    decreases nodes.len(),
{
    let before = nodes.drop_last();
    if position < before.len() {
        assert(before[position] == function);
        first_position_is_node(before, function, position);
    } else {
        assert(!before.contains(function));
    }
}

/// The functions that a function calls.
fn list_calls(func: &Function) -> (calls: Option<Vec<usize>>)
    ensures
        match calls {
            Some(list) => calls_of(*func) == Some(list@),
            None => calls_of(*func) is None,
        },
{
    let mut interface = Interface {
        expressions: &func.expressions,
        visitor: CallVisitor { calls: Vec::new() },
    };
    if interface.traverse(&func.body) {
        Some(interface.visitor.calls)
    } else {
        None
    }
}

/// The node of a function, if the graph has one.
fn find_node(graph: &CallGraph, function: usize) -> (node: Option<u32>)
    requires
        graph_nodes(*graph).len() <= u32::MAX,
    ensures
        match node {
            Some(n) => graph_nodes(*graph).contains(function) && n == node_of(
                graph_nodes(*graph),
                function,
            ),
            None => !graph_nodes(*graph).contains(function),
        },
{
    let ghost nodes = graph_nodes(*graph);
    let count: u32 = graph_node_count(graph) as u32;
    for i in 0..count
        invariant
            nodes == graph_nodes(*graph),
            count == nodes.len(),
            forall|j: int| 0 <= j < i ==> nodes[j] != function,
    {
        match graph_node_weight(graph, i) {
            Some(weight) => {
                if weight == function {
                    proof {
                        first_position_is_node(nodes, function, i as int);
                        assert(nodes[i as int] == function);
                    }
                    return Some(i);
                }
            },
            None => (),
        }
    }
    None
}

/// Adds a call. Returns whether that was possible.
fn add_call(graph: &mut CallGraph, caller: Option<u32>, target: usize, functions: usize) -> (added:
    bool)
    requires
        graph_nodes(*old(graph)).len() <= u32::MAX,
        caller matches Some(node) ==> node < graph_nodes(*old(graph)).len(),
    ensures
        match with_call(model_of(*old(graph)), caller, target, functions as nat) {
            Some(next) => added && model_of(*final(graph)) == next && next.nodes.len() <= u32::MAX
                && next.nodes.len() >= graph_nodes(*old(graph)).len(),
            None => !added,
        },
{
    if target >= functions {
        return false;
    }
    if caller.is_some() && graph_edge_count(graph) >= u32::MAX as usize {
        return false;
    }
    let ghost nodes = graph_nodes(*graph);
    let node: u32 = match find_node(graph, target) {
        Some(node) => node,
        None => {
            if graph_node_count(graph) >= u32::MAX as usize {
                return false;
            }
            let node: u32 = graph_add_node(graph, target);
            proof {
                first_position_is_node(graph_nodes(*graph), target, nodes.len() as int);
            }
            node
        },
    };
    proof {
        assert(graph_nodes(*graph).contains(target)) by {
            assert(nodes.contains(target) || graph_nodes(*graph)[nodes.len() as int] == target);
        }
        node_of_is_position(graph_nodes(*graph), target);
    }
    match caller {
        Some(c) => graph_add_edge(graph, node, c),
        None => (),
    }
    true
}

/// Once a call was impossible, all calls together are impossible.
proof fn calls_stay_impossible(
    graph: GraphModel,
    caller: Option<u32>,
    targets: Seq<usize>,
    written: nat,
    count: nat,
    functions: nat,
)
    requires
        written <= count,
        with_calls(graph, caller, targets, written, functions) is None,
    ensures
        with_calls(graph, caller, targets, count, functions) is None,
    decreases count,
{
    if written < count {
        calls_stay_impossible(graph, caller, targets, written, (count - 1) as nat, functions);
    }
}

/// Adds calls. Returns whether that was possible.
fn add_calls(graph: &mut CallGraph, caller: Option<u32>, targets: &Vec<usize>, functions: usize) -> (
added: bool)
    requires
        graph_nodes(*old(graph)).len() <= u32::MAX,
        caller matches Some(node) ==> node < graph_nodes(*old(graph)).len(),
    ensures
        match with_calls(
            model_of(*old(graph)),
            caller,
            targets@,
            targets@.len(),
            functions as nat,
        ) {
            Some(next) => added && model_of(*final(graph)) == next && next.nodes.len() <= u32::MAX
                && next.nodes.len() >= graph_nodes(*old(graph)).len(),
            None => !added,
        },
{
    let ghost start = model_of(*graph);
    for i in 0..targets.len()
        invariant
            start == model_of(*old(graph)),
            start.nodes.len() <= graph_nodes(*graph).len() <= u32::MAX,
            caller matches Some(node) ==> node < graph_nodes(*graph).len(),
            with_calls(start, caller, targets@, i as nat, functions as nat) == Some(
                model_of(*graph),
            ),
    {
        if !add_call(graph, caller, targets[i], functions) {
            proof {
                calls_stay_impossible(
                    start,
                    caller,
                    targets@,
                    (i + 1) as nat,
                    targets@.len(),
                    functions as nat,
                );
            }
            return false;
        }
    }
    true
}

/// Builds the call graph of an entry point.
pub fn build_call_graph(module: &Module, entry: &Function) -> (graph: Result<CallGraph, Stop>)
    ensures
        match graph {
            Ok(g) => call_graph_of(*module, *entry) == Some(model_of(g)),
            Err(stop) => stop is Invalid && call_graph_of(*module, *entry) is None,
        },
{
    let functions: usize = module.functions.len();
    let mut graph = graph_new();
    let targets = match list_calls(entry) {
        Some(targets) => targets,
        None => {
            return Err(Stop::Invalid);
        },
    };
    if !add_calls(&mut graph, None, &targets, functions) {
        return Err(Stop::Invalid);
    }
    let mut node: usize = 0;
    while node < graph_node_count(&graph)
        invariant
            functions == module.functions@.len(),
            graph_nodes(graph).len() <= u32::MAX,
            node <= graph_nodes(graph).len(),
            call_graph_of(*module, *entry) == with_nodes_from(
                *module,
                model_of(graph),
                node as nat,
            ),
        decreases functions - node,
    {
        let position: usize = match graph_node_weight(&graph, node as u32) {
            Some(weight) => weight,
            None => {
                return Err(Stop::Invalid);
            },
        };
        if node >= functions || position >= functions {
            return Err(Stop::Invalid);
        }
        let targets = match list_calls(&module.functions.data[position]) {
            Some(targets) => targets,
            None => {
                return Err(Stop::Invalid);
            },
        };
        if !add_calls(&mut graph, Some(node as u32), &targets, functions) {
            return Err(Stop::Invalid);
        }
        node = node + 1;
    }
    Ok(graph)
}

} // verus!
