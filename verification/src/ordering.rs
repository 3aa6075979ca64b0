//! The call graph has every function that an entry point needs, and a topological order of it puts
//! every function before those that call it.
use crate::call_graph::{
    call_graph_of, calls_of, node_of, node_of_is_position, with_call, with_calls, with_nodes_from,
    GraphModel,
};
use crate::graph::{has_cycle, is_cycle, is_topological};
use crate::ir::{Function, Module};
use vstd::prelude::*;

verus! {

/// Whether the function at `caller` calls the one at `callee`.
pub open spec fn calls(module: Module, caller: usize, callee: usize) -> bool {
    &&& caller < module.functions@.len()
    &&& calls_of(module.functions@[caller as int]) matches Some(targets) && targets.contains(callee)
}

/// Whether `entry` calls the function at `callee`.
pub open spec fn entry_calls(entry: Function, callee: usize) -> bool {
    calls_of(entry) matches Some(targets) && targets.contains(callee)
}

/// Whether `path` starts with a function that `entry` calls, and each function of it calls the next
/// one.
pub open spec fn is_call_path(module: Module, entry: Function, path: Seq<usize>) -> bool {
    &&& path.len() > 0
    &&& entry_calls(entry, path.first())
    &&& forall|i: int|
        0 <= i < path.len() - 1 ==> calls(module, #[trigger] path[i], path[i + 1])
}

/// Whether `entry` calls the function, directly or through other functions.
pub open spec fn is_needed(module: Module, entry: Function, function: usize) -> bool {
    exists|path: Seq<usize>| #[trigger]
        is_call_path(module, entry, path) && path.last() == function
}

/// Whether each function of `walk` calls the next one, and the last one is the first one.
pub open spec fn is_recursion(module: Module, walk: Seq<usize>) -> bool {
    &&& walk.len() >= 2
    &&& walk.first() == walk.last()
    &&& forall|i: int|
        0 <= i < walk.len() - 1 ==> calls(module, #[trigger] walk[i], walk[i + 1])
}

/// Whether the graph has an edge from the node of `callee` to the node `caller`.
pub open spec fn has_edge(graph: GraphModel, callee: usize, caller: int) -> bool {
    exists|node: u32|
        #![trigger graph.nodes[node as int]]
        node < graph.nodes.len() && graph.nodes[node as int] == callee && graph.edges.contains(
            (node, caller as u32),
        )
}

/// What holds of a call graph of which the calls of the first `done` nodes have been added: it has
/// no node twice, all its nodes are needed, its edges stand for calls, and the first `done` nodes
/// can be visited and their calls have edges.
spec fn is_partial(module: Module, entry: Function, graph: GraphModel, done: int) -> bool {
    &&& graph.nodes.len() <= u32::MAX
    &&& graph.nodes.no_duplicates()
    &&& forall|i: int|
        0 <= i < graph.nodes.len() ==> (#[trigger] graph.nodes[i]) < module.functions@.len()
            && is_needed(module, entry, graph.nodes[i])
    &&& forall|i: int|
        0 <= i < graph.edges.len() ==> is_call_edge(module, graph, #[trigger] graph.edges[i])
    &&& forall|node: int, callee: usize|
        0 <= node < done && node < graph.nodes.len() && #[trigger] calls(
            module,
            graph.nodes[node],
            callee,
        ) ==> has_edge(graph, callee, node)
    &&& forall|node: int|
        0 <= node < done && node < graph.nodes.len() ==> calls_of(
            module.functions@[#[trigger] graph.nodes[node] as int],
        ) is Some
}

/// Whether an edge connects two nodes of which the second calls the first.
pub open spec fn is_call_edge(module: Module, graph: GraphModel, edge: (u32, u32)) -> bool {
    &&& edge.0 < graph.nodes.len()
    &&& edge.1 < graph.nodes.len()
    &&& calls(module, graph.nodes[edge.1 as int], graph.nodes[edge.0 as int])
}

/// A further call keeps what holds of the graph.
proof fn one_call_is_added(
    module: Module,
    entry: Function,
    graph: GraphModel,
    caller: Option<u32>,
    target: usize,
    done: int,
)
    requires
        is_partial(module, entry, graph, done),
        0 <= done <= graph.nodes.len(),
        is_needed(module, entry, target),
        caller matches Some(node) ==> node < graph.nodes.len() && calls(
            module,
            graph.nodes[node as int],
            target,
        ),
        with_call(graph, caller, target, module.functions@.len()) is Some,
    ensures
        ({
            let next = with_call(graph, caller, target, module.functions@.len())->0;
            &&& is_partial(module, entry, next, done)
            &&& graph.nodes.len() <= next.nodes.len()
            &&& next.nodes.contains(target)
            &&& forall|i: int|
                0 <= i < graph.nodes.len() ==> #[trigger] next.nodes[i] == graph.nodes[i]
            &&& forall|callee: usize, node: int| #[trigger]
                has_edge(graph, callee, node) ==> has_edge(next, callee, node)
            &&& caller matches Some(node) ==> has_edge(next, target, node as int)
        }),
{
    let next = with_call(graph, caller, target, module.functions@.len())->0;
    let known = graph.nodes.contains(target);
    assert(next.nodes.contains(target)) by {
        if !known {
            assert(next.nodes[graph.nodes.len() as int] == target);
        }
    }
    node_of_is_position(next.nodes, target);
    let position = node_of(next.nodes, target);
    assert(next.nodes[position] == target);
    assert forall|i: int| 0 <= i < next.nodes.len() implies (#[trigger] next.nodes[i])
        < module.functions@.len() && is_needed(module, entry, next.nodes[i]) by {
        if i < graph.nodes.len() {
            assert(next.nodes[i] == graph.nodes[i]);
        }
    }
    assert(next.nodes.no_duplicates()) by {
        assert forall|i: int, j: int|
            0 <= i < next.nodes.len() && 0 <= j < next.nodes.len() && i != j implies next.nodes[i]
            != next.nodes[j] by {
            if !known {
                if i == graph.nodes.len() {
                    assert(graph.nodes[j] != target);
                } else if j == graph.nodes.len() {
                    assert(graph.nodes[i] != target);
                }
            }
        }
    }
    assert forall|i: int| 0 <= i < next.edges.len() implies is_call_edge(
        module,
        next,
        #[trigger] next.edges[i],
    ) by {
        if i < graph.edges.len() {
            assert(next.edges[i] == graph.edges[i]);
            assert(is_call_edge(module, graph, graph.edges[i]));
        }
    }
    assert forall|callee: usize, node: int| #[trigger]
        has_edge(graph, callee, node) implies has_edge(next, callee, node) by {
        let source = choose|source: u32|
            #![trigger graph.nodes[source as int]]
            source < graph.nodes.len() && graph.nodes[source as int] == callee
                && graph.edges.contains((source, node as u32));
        assert(next.nodes[source as int] == callee);
        let k = choose|k: int|
            0 <= k < graph.edges.len() && graph.edges[k] == (source, node as u32);
        assert(next.edges[k] == (source, node as u32));
    }
    if let Some(node) = caller {
        let source = position as u32;
        assert(next.nodes[source as int] == target);
        assert(next.edges[graph.edges.len() as int] == (source, node));
        assert(has_edge(next, target, node as int));
    }
    assert forall|node: int, callee: usize|
        0 <= node < done && node < next.nodes.len() && #[trigger] calls(
            module,
            next.nodes[node],
            callee,
        ) implies has_edge(next, callee, node) by {
        assert(calls(module, graph.nodes[node], callee));
        assert(has_edge(graph, callee, node));
    }
}

/// Further calls keep what holds of the graph.
proof fn calls_are_added(
    module: Module,
    entry: Function,
    graph: GraphModel,
    caller: Option<u32>,
    targets: Seq<usize>,
    count: nat,
    done: int,
)
    requires
        is_partial(module, entry, graph, done),
        0 <= done <= graph.nodes.len(),
        count <= targets.len(),
        forall|i: int| 0 <= i < targets.len() ==> is_needed(module, entry, #[trigger] targets[i]),
        caller matches Some(node) ==> node < graph.nodes.len() && forall|i: int|
            0 <= i < targets.len() ==> calls(
                module,
                graph.nodes[node as int],
                #[trigger] targets[i],
            ),
        with_calls(graph, caller, targets, count, module.functions@.len()) is Some,
    ensures
        ({
            let next = with_calls(graph, caller, targets, count, module.functions@.len())->0;
            &&& is_partial(module, entry, next, done)
            &&& graph.nodes.len() <= next.nodes.len()
            &&& forall|i: int|
                0 <= i < graph.nodes.len() ==> #[trigger] next.nodes[i] == graph.nodes[i]
            &&& forall|i: int| 0 <= i < count ==> next.nodes.contains(#[trigger] targets[i])
            &&& caller matches Some(node) ==> forall|i: int|
                0 <= i < count ==> has_edge(next, #[trigger] targets[i], node as int)
        }),
    decreases count,
{
    if count > 0 {
        let functions = module.functions@.len();
        calls_are_added(module, entry, graph, caller, targets, (count - 1) as nat, done);
        let before = with_calls(graph, caller, targets, (count - 1) as nat, functions)->0;
        let target = targets[count - 1];
        one_call_is_added(module, entry, before, caller, target, done);
        let next = with_call(before, caller, target, functions)->0;
        assert forall|i: int| 0 <= i < count implies next.nodes.contains(#[trigger] targets[i]) by {
            if i < count - 1 {
                let k = choose|k: int|
                    0 <= k < before.nodes.len() && before.nodes[k] == targets[i];
                assert(next.nodes[k] == targets[i]);
            }
        }
        if let Some(node) = caller {
            assert forall|i: int| 0 <= i < count implies has_edge(
                next,
                #[trigger] targets[i],
                node as int,
            ) by {
                if i < count - 1 {
                    assert(has_edge(before, targets[i], node as int));
                }
            }
        }
    }
}

/// A function that a needed function calls is needed.
proof fn calls_of_needed_functions_are_needed(
    module: Module,
    entry: Function,
    caller: usize,
    callee: usize,
)
    requires
        is_needed(module, entry, caller),
        calls(module, caller, callee),
    ensures
        is_needed(module, entry, callee),
{
    let path = choose|path: Seq<usize>| #[trigger]
        is_call_path(module, entry, path) && path.last() == caller;
    let longer = path.push(callee);
    assert(is_call_path(module, entry, longer)) by {
        assert forall|i: int| 0 <= i < longer.len() - 1 implies calls(
            module,
            #[trigger] longer[i],
            longer[i + 1],
        ) by {
            assert(longer[i] == path[i]);
            if i < path.len() - 1 {
                assert(calls(module, path[i], path[i + 1]));
            }
        }
    }
    assert(longer.last() == callee);
}

/// The calls of the further nodes keep what holds of the graph.
proof fn nodes_are_added(module: Module, entry: Function, graph: GraphModel, node: nat)
    requires
        is_partial(module, entry, graph, node as int),
        node <= graph.nodes.len(),
        with_nodes_from(module, graph, node) is Some,
    ensures
        ({
            let next = with_nodes_from(module, graph, node)->0;
            &&& is_partial(module, entry, next, next.nodes.len() as int)
            &&& graph.nodes.len() <= next.nodes.len()
            &&& forall|i: int|
                0 <= i < graph.nodes.len() ==> #[trigger] next.nodes[i] == graph.nodes[i]
        }),
    decreases module.functions@.len() - node,
{
    let functions = module.functions@.len();
    if node < graph.nodes.len() {
        let caller = graph.nodes[node as int];
        let targets = calls_of(module.functions@[caller as int])->0;
        assert forall|i: int| 0 <= i < targets.len() implies calls(
            module,
            caller,
            #[trigger] targets[i],
        ) && is_needed(module, entry, targets[i]) by {
            assert(targets.contains(targets[i]));
            calls_of_needed_functions_are_needed(module, entry, caller, targets[i]);
        }
        calls_are_added(
            module,
            entry,
            graph,
            Some(node as u32),
            targets,
            targets.len(),
            node as int,
        );
        let next = with_calls(graph, Some(node as u32), targets, targets.len(), functions)->0;
        assert(is_partial(module, entry, next, (node + 1) as int)) by {
            assert forall|n: int, callee: usize|
                0 <= n < node + 1 && n < next.nodes.len() && #[trigger] calls(
                    module,
                    next.nodes[n],
                    callee,
                ) implies has_edge(next, callee, n) by {
                if n == node {
                    assert(next.nodes[n] == caller);
                    let k = choose|k: int| 0 <= k < targets.len() && targets[k] == callee;
                    assert(has_edge(next, targets[k], node as int));
                }
            }
        }
        nodes_are_added(module, entry, next, node + 1);
    }
}

/// The call graph of an entry point has exactly one node for each function that the entry point
/// calls, directly or through other functions, and none for others. Its edges lead exactly from
/// functions to those that call them. All the functions can be visited.
pub proof fn call_graphs_are_complete(module: Module, entry: Function, graph: GraphModel)
    requires
        call_graph_of(module, entry) == Some(graph),
    ensures
        graph.nodes.no_duplicates(),
        forall|function: usize|
            graph.nodes.contains(function) <==> #[trigger] is_needed(module, entry, function),
        forall|i: int|
            0 <= i < graph.edges.len() ==> is_call_edge(module, graph, #[trigger] graph.edges[i]),
        forall|node: int, callee: usize|
            0 <= node < graph.nodes.len() && #[trigger] calls(module, graph.nodes[node], callee)
                ==> has_edge(graph, callee, node),
        forall|node: int|
            0 <= node < graph.nodes.len() ==> (#[trigger] graph.nodes[node])
                < module.functions@.len() && calls_of(
                module.functions@[graph.nodes[node] as int],
            ) is Some,
        graph.nodes.len() <= u32::MAX,
{
    let functions = module.functions@.len();
    let empty = GraphModel { nodes: Seq::empty(), edges: Seq::empty() };
    let targets = calls_of(entry)->0;
    assert forall|i: int| 0 <= i < targets.len() implies is_needed(
        module,
        entry,
        #[trigger] targets[i],
    ) by {
        let path = seq![targets[i]];
        assert(targets.contains(targets[i]));
        assert(is_call_path(module, entry, path));
        assert(path.last() == targets[i]);
    }
    calls_are_added(module, entry, empty, None, targets, targets.len(), 0);
    let start = with_calls(empty, None, targets, targets.len(), functions)->0;
    nodes_are_added(module, entry, start, 0);
    assert forall|function: usize| #[trigger]
        is_needed(module, entry, function) implies graph.nodes.contains(function) by {
        let path = choose|path: Seq<usize>| #[trigger]
            is_call_path(module, entry, path) && path.last() == function;
        let k = choose|k: int| 0 <= k < targets.len() && targets[k] == path.first();
        assert(start.nodes.contains(targets[k]));
        let n = choose|n: int| 0 <= n < start.nodes.len() && start.nodes[n] == targets[k];
        assert(graph.nodes[n] == path.first());
        paths_stay_in_the_graph(module, entry, graph, path, path.len());
    }
    assert forall|function: usize| graph.nodes.contains(function) implies #[trigger] is_needed(
        module,
        entry,
        function,
    ) by {
        let n = choose|n: int| 0 <= n < graph.nodes.len() && graph.nodes[n] == function;
        assert(is_needed(module, entry, graph.nodes[n]));
    }
}

/// A path of calls that starts in the graph stays there.
proof fn paths_stay_in_the_graph(
    module: Module,
    entry: Function,
    graph: GraphModel,
    path: Seq<usize>,
    count: nat,
)
    requires
        is_partial(module, entry, graph, graph.nodes.len() as int),
        is_call_path(module, entry, path),
        graph.nodes.contains(path.first()),
        0 < count <= path.len(),
    ensures
        graph.nodes.contains(path[count - 1]),
    decreases count,
{
    if count > 1 {
        paths_stay_in_the_graph(module, entry, graph, path, (count - 1) as nat);
        let n = choose|n: int| 0 <= n < graph.nodes.len() && graph.nodes[n] == path[count - 2];
        let i = count - 2;
        assert(calls(module, path[i], path[i + 1]));
        assert(calls(module, graph.nodes[n], path[count - 1]));
        assert(has_edge(graph, path[count - 1], n));
    }
}

/// In a topological order of the call graph, every function that is needed stands exactly once, and
/// each function comes after all the functions that it calls.
pub proof fn functions_come_before_their_callers(
    module: Module,
    entry: Function,
    graph: GraphModel,
    order: Seq<u32>,
)
    requires
        call_graph_of(module, entry) == Some(graph),
        is_topological(order, graph.nodes.len(), graph.edges),
    ensures
        forall|i: int, j: int|
            0 <= i < order.len() && 0 <= j < order.len() && i != j
                ==> graph.nodes[#[trigger] order[i] as int] != graph.nodes[#[trigger] order[j] as int],
        forall|function: usize| #[trigger]
            is_needed(module, entry, function) ==> exists|i: int|
                0 <= i < order.len() && graph.nodes[#[trigger] order[i] as int] == function,
        forall|j: int, callee: usize|
            0 <= j < order.len() && #[trigger] calls(module, graph.nodes[order[j] as int], callee)
                ==> exists|i: int|
                0 <= i < j && graph.nodes[#[trigger] order[i] as int] == callee,
{
    call_graphs_are_complete(module, entry, graph);
    let nodes = graph.nodes;
    assert forall|node: u32| node < nodes.len() implies #[trigger] order.contains(node) by {
        distinct_numbers_are_all_numbers(order, nodes.len(), node);
    }
    assert forall|i: int, j: int|
        0 <= i < order.len() && 0 <= j < order.len() && i != j implies nodes[
        #[trigger] order[i] as int] != nodes[#[trigger] order[j] as int] by {
        assert(order[i] < nodes.len() && order[j] < nodes.len());
        assert(order[i] != order[j]);
    }
    assert forall|function: usize| #[trigger] is_needed(module, entry, function) implies exists|i:
        int|
        0 <= i < order.len() && nodes[#[trigger] order[i] as int] == function by {
        assert(nodes.contains(function));
        let n = choose|n: int| 0 <= n < nodes.len() && nodes[n] == function;
        assert(order.contains(n as u32));
        let i = choose|i: int| 0 <= i < order.len() && order[i] == n as u32;
        assert(nodes[order[i] as int] == function);
    }
    assert forall|j: int, callee: usize|
        0 <= j < order.len() && #[trigger] calls(
            module,
            nodes[order[j] as int],
            callee,
        ) implies exists|i: int| 0 <= i < j && nodes[#[trigger] order[i] as int] == callee by {
        let node = order[j] as int;
        assert(has_edge(graph, callee, node));
        let source = choose|source: u32|
            #![trigger nodes[source as int]]
            source < nodes.len() && nodes[source as int] == callee && graph.edges.contains(
                (source, node as u32),
            );
        assert(order.contains(source));
        let i = choose|i: int| 0 <= i < order.len() && order[i] == source;
        assert(graph.edges.contains((order[i], order[j])));
        assert(i < j);
        assert(nodes[order[i] as int] == callee);
    }
}

/// A list of as many distinct numbers below `count` has all of them.
proof fn distinct_numbers_are_all_numbers(numbers: Seq<u32>, count: nat, number: u32)
    requires
        numbers.len() == count,
        numbers.no_duplicates(),
        forall|i: int| 0 <= i < numbers.len() ==> #[trigger] numbers[i] < count,
        number < count,
    ensures
        numbers.contains(number),
    decreases count,
{
    let ints = Seq::new(numbers.len(), |i: int| numbers[i] as int);
    let set = ints.to_set();
    let all = vstd::set_lib::set_int_range(0, count as int);
    assert(ints.no_duplicates());
    ints.unique_seq_to_set();
    vstd::set_lib::lemma_int_range(0, count as int);
    assert(set.subset_of(all));
    vstd::set_lib::lemma_subset_equality(set, all);
    assert(all.contains(number as int));
    assert(ints.contains(number as int));
    let i = choose|i: int| 0 <= i < ints.len() && ints[i] == number as int;
    assert(numbers[i] == number);
}

/// The call graph has a cycle only if the module has a recursion. Where no function calls itself,
/// directly or through others, there is a topological order.
pub proof fn cycles_are_recursions(module: Module, entry: Function, graph: GraphModel)
    requires
        call_graph_of(module, entry) == Some(graph),
        has_cycle(graph.edges),
    ensures
        exists|walk: Seq<usize>| is_recursion(module, walk),
{
    assert(forall|i: int|
        0 <= i < graph.edges.len() ==> is_call_edge(module, graph, #[trigger] graph.edges[i])) by {
        call_graphs_are_complete(module, entry, graph);
    }
    let cycle = choose|walk: Seq<u32>| is_cycle(walk, graph.edges);
    let last = cycle.len() - 1;
    // Edges lead from callees to callers
    let walk = Seq::new(cycle.len(), |i: int| graph.nodes[cycle[last - i] as int]);
    assert forall|i: int| 0 <= i < walk.len() - 1 implies calls(
        module,
        #[trigger] walk[i],
        walk[i + 1],
    ) by {
        let k = last - i - 1;
        assert(graph.edges.contains((cycle[k], cycle[k + 1])));
        let e = choose|e: int|
            0 <= e < graph.edges.len() && graph.edges[e] == (cycle[k], cycle[k + 1]);
        assert(is_call_edge(module, graph, graph.edges[e]));
    }
    assert(is_recursion(module, walk));
}

/// There is no recursion in a module whose functions only call functions that were added before
/// them.
pub proof fn backward_calls_are_no_recursion(module: Module, walk: Seq<usize>)
    requires
        forall|caller: usize, callee: usize| #[trigger]
            calls(module, caller, callee) ==> callee < caller,
    ensures
        !is_recursion(module, walk),
{
    if is_recursion(module, walk) {
        walk_goes_down(module, walk, walk.len());
    }
}

/// Along a walk of backward calls the positions decrease.
proof fn walk_goes_down(module: Module, walk: Seq<usize>, count: nat)
    requires
        is_recursion(module, walk),
        forall|caller: usize, callee: usize| #[trigger]
            calls(module, caller, callee) ==> callee < caller,
        0 < count <= walk.len(),
    ensures
        walk[count - 1] + (count - 1) <= walk.first(),
    decreases count,
{
    if count > 1 {
        walk_goes_down(module, walk, (count - 1) as nat);
        let i = count - 2;
        assert(calls(module, walk[i], walk[i + 1]));
    }
}

} // verus!
