//! The call graph lists the functions in the order in which their calls are found.
use crate::call_graph::{
    call_graph_of, calls_of, node_of_is_position, with_call, with_calls, with_nodes_from, GraphModel,
};
use crate::ir::{Function, Module};
use vstd::prelude::*;

verus! {

/// The items of a list without repetitions: each stands where it comes first.
pub open spec fn firsts(list: Seq<usize>) -> Seq<usize>
    decreases list.len(),
{
    if list.len() == 0 {
        Seq::empty()
    } else {
        let before = firsts(list.drop_last());
        if before.contains(list.last()) {
            before
        } else {
            before.push(list.last())
        }
    }
}

/// The calls of the entry point, then those of the first `count` functions of a list.
pub open spec fn found_calls(module: Module, entry: Function, list: Seq<usize>, count: nat) -> Seq<
    usize,
>
    decreases count,
{
    if count == 0 {
        calls_of(entry)->0
    } else {
        found_calls(module, entry, list, (count - 1) as nat) + calls_of(
            module.functions@[list[count - 1] as int],
        )->0
    }
}

/// The calls of the first `count` functions of a list, each with the position of the caller in the
/// list.
pub open spec fn found_callers(module: Module, list: Seq<usize>, count: nat) -> Seq<(usize, u32)>
    decreases count,
{
    if count == 0 {
        Seq::empty()
    } else {
        let targets = calls_of(module.functions@[list[count - 1] as int])->0;
        found_callers(module, list, (count - 1) as nat) + with_caller(
            targets,
            targets.len(),
            (count - 1) as u32,
        )
    }
}

/// The first `count` of some calls, each with the same caller.
pub open spec fn with_caller(targets: Seq<usize>, count: nat, caller: u32) -> Seq<(usize, u32)> {
    Seq::new(count, |i: int| (targets[i], caller))
}

/// Whether the edges of a graph stand for these calls, in this order: each edge leads from the node
/// of the function that is called to the node that calls it.
pub open spec fn edges_are(graph: GraphModel, found: Seq<(usize, u32)>) -> bool {
    &&& graph.edges.len() == found.len()
    &&& forall|i: int|
        0 <= i < found.len() ==> {
            &&& (#[trigger] graph.edges[i]).0 < graph.nodes.len()
            &&& graph.nodes[graph.edges[i].0 as int] == found[i].0
            &&& graph.edges[i].1 == found[i].1
        }
}

/// Further calls are listed after the others.
proof fn calls_are_listed(
    graph: GraphModel,
    caller: Option<u32>,
    targets: Seq<usize>,
    count: nat,
    functions: nat,
    list: Seq<usize>,
    found: Seq<(usize, u32)>,
)
    requires
        count <= targets.len(),
        graph.nodes == firsts(list),
        graph.nodes.len() <= u32::MAX,
        edges_are(graph, found),
        with_calls(graph, caller, targets, count, functions) is Some,
    ensures
        ({
            let next = with_calls(graph, caller, targets, count, functions)->0;
            &&& next.nodes == firsts(list + targets.take(count as int))
            &&& next.nodes.len() <= u32::MAX
            &&& graph.nodes.len() <= next.nodes.len()
            &&& next.nodes.take(graph.nodes.len() as int) == graph.nodes
            &&& match caller {
                Some(node) => edges_are(next, found + with_caller(targets, count, node)),
                None => edges_are(next, found),
            }
        }),
    decreases count,
{
    if count == 0 {
        assert(list + targets.take(0) =~= list);
        assert(graph.nodes.take(graph.nodes.len() as int) =~= graph.nodes);
        if let Some(node) = caller {
            assert(found + with_caller(targets, 0, node) =~= found);
        }
    } else {
        let k = (count - 1) as nat;
        calls_are_listed(graph, caller, targets, k, functions, list, found);
        let before = with_calls(graph, caller, targets, k, functions)->0;
        let target = targets[k as int];
        let next = with_call(before, caller, target, functions)->0;
        let longer = list + targets.take(count as int);
        assert(longer.drop_last() =~= list + targets.take(k as int));
        assert(longer.last() == target);
        assert(next.nodes == firsts(longer));
        assert(next.nodes.take(graph.nodes.len() as int) =~= before.nodes.take(
            graph.nodes.len() as int,
        ));
        assert(next.nodes.contains(target)) by {
            if !before.nodes.contains(target) {
                assert(next.nodes[before.nodes.len() as int] == target);
            }
        }
        node_of_is_position(next.nodes, target);
        match caller {
            Some(node) => {
                let earlier = found + with_caller(targets, k, node);
                let all = found + with_caller(targets, count, node);
                assert(all =~= earlier.push((target, node)));
                assert forall|i: int| 0 <= i < all.len() implies {
                    &&& (#[trigger] next.edges[i]).0 < next.nodes.len()
                    &&& next.nodes[next.edges[i].0 as int] == all[i].0
                    &&& next.edges[i].1 == all[i].1
                } by {
                    if i < earlier.len() {
                        assert(next.edges[i] == before.edges[i]);
                        assert(all[i] == earlier[i]);
                    }
                }
            },
            None => {
                assert forall|i: int| 0 <= i < found.len() implies {
                    &&& (#[trigger] next.edges[i]).0 < next.nodes.len()
                    &&& next.nodes[next.edges[i].0 as int] == found[i].0
                    &&& next.edges[i].1 == found[i].1
                } by {
                    assert(next.edges[i] == before.edges[i]);
                }
            },
        }
    }
}

/// What the first functions of a list call doesn't depend on the functions after them.
proof fn first_calls_stay(
    module: Module,
    entry: Function,
    list: Seq<usize>,
    longer: Seq<usize>,
    count: nat,
)
    requires
        count <= list.len() <= longer.len(),
        longer.take(list.len() as int) == list,
    ensures
        found_calls(module, entry, longer, count) == found_calls(module, entry, list, count),
        found_callers(module, longer, count) == found_callers(module, list, count),
    decreases count,
{
    if count > 0 {
        first_calls_stay(module, entry, list, longer, (count - 1) as nat);
        assert(longer.take(list.len() as int)[count - 1] == longer[count - 1]);
    }
}

/// The calls of further functions are listed after the others.
proof fn nodes_are_listed(module: Module, entry: Function, graph: GraphModel, node: nat)
    requires
        node <= graph.nodes.len() <= u32::MAX,
        graph.nodes == firsts(found_calls(module, entry, graph.nodes, node)),
        edges_are(graph, found_callers(module, graph.nodes, node)),
        with_nodes_from(module, graph, node) is Some,
    ensures
        ({
            let next = with_nodes_from(module, graph, node)->0;
            &&& next.nodes == firsts(found_calls(module, entry, next.nodes, next.nodes.len()))
            &&& edges_are(next, found_callers(module, next.nodes, next.nodes.len()))
        }),
    decreases module.functions@.len() - node,
{
    let functions = module.functions@.len();
    if node < graph.nodes.len() {
        let targets = calls_of(module.functions@[graph.nodes[node as int] as int])->0;
        let list = found_calls(module, entry, graph.nodes, node);
        let found = found_callers(module, graph.nodes, node);
        let caller = Some(node as u32);
        calls_are_listed(graph, caller, targets, targets.len(), functions, list, found);
        let next = with_calls(graph, caller, targets, targets.len(), functions)->0;
        assert(targets.take(targets.len() as int) =~= targets);
        first_calls_stay(module, entry, graph.nodes, next.nodes, node);
        assert(next.nodes[node as int] == next.nodes.take(graph.nodes.len() as int)[node as int]);
        nodes_are_listed(module, entry, next, node + 1);
    }
}

/// The nodes of a call graph are the functions in the order in which their calls are found: first
/// those that the entry point calls, then those that the functions call, in the order of the nodes.
/// The edges are all the calls of these functions, in the same order.
pub proof fn functions_are_listed_as_they_are_found(
    module: Module,
    entry: Function,
    graph: GraphModel,
)
    requires
        call_graph_of(module, entry) == Some(graph),
    ensures
        graph.nodes == firsts(found_calls(module, entry, graph.nodes, graph.nodes.len())),
        edges_are(graph, found_callers(module, graph.nodes, graph.nodes.len())),
{
    let empty = GraphModel { nodes: Seq::empty(), edges: Seq::empty() };
    let targets = calls_of(entry)->0;
    let functions = module.functions@.len();
    calls_are_listed(
        empty,
        None,
        targets,
        targets.len(),
        functions,
        Seq::empty(),
        Seq::empty(),
    );
    assert(Seq::<usize>::empty() + targets.take(targets.len() as int) =~= targets);
    let start = with_calls(empty, None, targets, targets.len(), functions)->0;
    nodes_are_listed(module, entry, start, 0);
}

} // verus!
