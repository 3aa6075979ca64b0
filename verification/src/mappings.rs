//! The texture mappings have exactly the textures that are used, each with its only sampler.
use crate::arena::Arena;
use crate::context::Env;
use crate::graph::graph_nodes;
use crate::ir::{Expression, Function};
use crate::names::{NameKey, Names};
use crate::textures::{
    global_of, with_function_textures, TextureMapping, TextureMappingVisitor, TextureModel, Textures,
};
use crate::visit::{after_all, function_visits};
use crate::writer::{node_textures, Writer};
use vstd::prelude::*;

verus! {

/// Whether an expression uses a texture.
pub open spec fn uses_texture(expr: Expression) -> bool {
    expr is ImageSample || expr is ImageLoad
}

/// The name of the texture that an expression uses, and what it is used with.
pub open spec fn texture_use(
    names: Names,
    expressions: Arena<Expression>,
    expr: Expression,
) -> Option<(Seq<char>, TextureMapping)> {
    match expr {
        Expression::ImageSample { image, sampler, .. } => match (
            global_of(expressions, image),
            global_of(expressions, sampler),
        ) {
            (Some(texture), Some(sampler)) => match names.lookup(NameKey::GlobalVariable(texture)) {
                Some(name) => Some((name, TextureMapping { texture, sampler: Some(sampler) })),
                None => None,
            },
            _ => None,
        },
        Expression::ImageLoad { image, .. } => match global_of(expressions, image) {
            Some(texture) => match names.lookup(NameKey::GlobalVariable(texture)) {
                Some(name) => Some((name, TextureMapping { texture, sampler: None })),
                None => None,
            },
            None => None,
        },
        _ => None,
    }
}

/// Whether a function uses the texture `name` as `mapping` says.
pub open spec fn function_uses(
    names: Names,
    func: Function,
    name: Seq<char>,
    mapping: TextureMapping,
) -> bool {
    function_visits(func) matches Some(visits) && exists|i: int|
        0 <= i < visits.len() && #[trigger] texture_use(names, func.expressions, visits[i]) == Some(
            (name, mapping),
        )
}

/// What holds of the textures after `visits`, if the module isn't invalid.
spec fn is_summary(start: TextureModel, end: TextureModel, visits: Seq<Expression>) -> bool {
    &&& end.names == start.names
    &&& end.expressions == start.expressions
    // What has been known stays
    &&& forall|name: Seq<char>|
        start.map.dom().contains(name) ==> #[trigger] end.map.dom().contains(name) && end.map[name]
            == start.map[name]
    // All uses are known
    &&& forall|i: int|
        0 <= i < visits.len() && uses_texture(#[trigger] visits[i]) ==> is_noted(end, visits[i])
    // Only uses are known
    &&& forall|name: Seq<char>| #[trigger]
        end.map.dom().contains(name) && !start.map.dom().contains(name) ==> exists|i: int|
            0 <= i < visits.len() && #[trigger] texture_use(
                end.names,
                end.expressions,
                visits[i],
            ) == Some((name, end.map[name]))
    // Only conflicts are reported
    &&& end.multiple && !start.multiple ==> exists|i: int|
        0 <= i < visits.len() && is_conflict(end, #[trigger] visits[i])
}

/// Whether the use of a texture is known, with this sampler if no texture has several ones.
spec fn is_noted(model: TextureModel, expr: Expression) -> bool {
    texture_use(model.names, model.expressions, expr) matches Some((name, mapping)) && {
        &&& model.map.dom().contains(name)
        &&& model.multiple || model.map[name].sampler == mapping.sampler
    }
}

/// Whether the use of a texture differs in the sampler from what is known.
spec fn is_conflict(model: TextureModel, expr: Expression) -> bool {
    texture_use(model.names, model.expressions, expr) matches Some((name, mapping)) && {
        &&& model.map.dom().contains(name)
        &&& model.map[name].sampler != mapping.sampler
    }
}

/// A visitor sums up the textures.
proof fn textures_are_summed_up(start: TextureModel, visits: Seq<Expression>)
    requires
        !after_all::<TextureMappingVisitor<'_>>(start, visits).invalid,
    ensures
        is_summary(start, after_all::<TextureMappingVisitor<'_>>(start, visits), visits),
        !start.invalid,
    decreases visits.len(),
{
    if visits.len() > 0 {
        let first = visits.drop_last();
        let expr = visits.last();
        let before = after_all::<TextureMappingVisitor<'_>>(start, first);
        let end = before.visit(expr);
        assert(end == after_all::<TextureMappingVisitor<'_>>(start, visits));
        textures_are_summed_up(start, first);
        assert forall|name: Seq<char>|
            start.map.dom().contains(name) implies #[trigger] end.map.dom().contains(name)
            && end.map[name] == start.map[name] by {
            assert(before.map.dom().contains(name));
        }
        assert(uses_texture(expr) ==> is_noted(end, expr));
        assert forall|i: int| 0 <= i < visits.len() && uses_texture(
            #[trigger] visits[i],
        ) implies is_noted(end, visits[i]) by {
            if i < first.len() {
                assert(first[i] == visits[i]);
                assert(is_noted(before, first[i]));
            }
        }
        assert forall|name: Seq<char>| #[trigger]
            end.map.dom().contains(name) && !start.map.dom().contains(name) implies exists|i: int|
            0 <= i < visits.len() && #[trigger] texture_use(
                end.names,
                end.expressions,
                visits[i],
            ) == Some((name, end.map[name])) by {
            if before.map.dom().contains(name) {
                let i = choose|i: int|
                    0 <= i < first.len() && #[trigger] texture_use(
                        before.names,
                        before.expressions,
                        first[i],
                    ) == Some((name, before.map[name]));
                assert(visits[i] == first[i]);
                assert(texture_use(end.names, end.expressions, visits[i]) == Some(
                    (name, end.map[name]),
                ));
            } else {
                let i = visits.len() - 1;
                assert(texture_use(end.names, end.expressions, visits[i]) == Some(
                    (name, end.map[name]),
                ));
            }
        }
        if end.multiple && !start.multiple {
            if before.multiple {
                let i = choose|i: int|
                    0 <= i < first.len() && is_conflict(before, #[trigger] first[i]);
                assert(visits[i] == first[i]);
                assert(is_conflict(end, visits[i]));
            } else {
                let i = visits.len() - 1;
                assert(is_conflict(end, visits[i]));
            }
        }
    }
}

/// Whether one of the functions uses the texture `name` as `mapping` says.
pub open spec fn are_used(
    names: Names,
    functions: Seq<Function>,
    name: Seq<char>,
    mapping: TextureMapping,
) -> bool {
    exists|f: int|
        0 <= f < functions.len() && function_uses(names, #[trigger] functions[f], name, mapping)
}

/// Whether `map` has exactly the textures that the functions use, each with its only sampler.
pub open spec fn is_mapping_of(
    map: Map<Seq<char>, TextureMapping>,
    names: Names,
    functions: Seq<Function>,
) -> bool {
    &&& forall|name: Seq<char>, mapping: TextureMapping| #[trigger]
        are_used(names, functions, name, mapping) ==> map.dom().contains(name) && map[name].sampler
            == mapping.sampler
    &&& forall|name: Seq<char>| #[trigger]
        map.dom().contains(name) ==> are_used(names, functions, name, map[name])
}

/// Whether the functions use a texture with two samplers, or both with and without.
pub open spec fn has_conflict(names: Names, functions: Seq<Function>) -> bool {
    exists|name: Seq<char>, first: TextureMapping, second: TextureMapping|
        first.sampler != second.sampler && #[trigger] are_used(names, functions, name, first)
            && #[trigger] are_used(names, functions, name, second)
}

/// What is known of the textures of the first functions of a list.
pub open spec fn textures_of(names: Names, functions: Seq<Function>, count: nat) -> Textures
    decreases count,
{
    if count == 0 {
        Textures::Mapped(Map::empty())
    } else {
        with_function_textures(
            textures_of(names, functions, (count - 1) as nat),
            names,
            functions[count - 1],
        )
    }
}

/// A further function adds its uses.
proof fn uses_are_added(
    names: Names,
    functions: Seq<Function>,
    func: Function,
    name: Seq<char>,
    mapping: TextureMapping,
)
    ensures
        are_used(names, functions.push(func), name, mapping) <==> are_used(
            names,
            functions,
            name,
            mapping,
        ) || function_uses(names, func, name, mapping),
{
    let all = functions.push(func);
    if are_used(names, functions, name, mapping) {
        let f = choose|f: int|
            0 <= f < functions.len() && function_uses(names, #[trigger] functions[f], name, mapping);
        assert(all[f] == functions[f]);
    }
    if function_uses(names, func, name, mapping) {
        assert(all[functions.len() as int] == func);
    }
    if are_used(names, all, name, mapping) {
        let f = choose|f: int|
            0 <= f < all.len() && function_uses(names, #[trigger] all[f], name, mapping);
        if f < functions.len() {
            assert(all[f] == functions[f]);
        }
    }
}

/// A further function keeps what the textures say.
proof fn one_function_is_added(
    names: Names,
    functions: Seq<Function>,
    map: Map<Seq<char>, TextureMapping>,
    func: Function,
)
    requires
        is_mapping_of(map, names, functions),
    ensures
        match with_function_textures(Textures::Mapped(map), names, func) {
            Textures::Mapped(next) => is_mapping_of(next, names, functions.push(func)),
            Textures::MultipleSamplers => has_conflict(names, functions.push(func)),
            Textures::Invalid => true,
        },
{
    let all = functions.push(func);
    if let Some(visits) = function_visits(func) {
        let start = TextureModel {
            names,
            expressions: func.expressions,
            map,
            multiple: false,
            invalid: false,
        };
        let end = after_all::<TextureMappingVisitor<'_>>(start, visits);
        if !end.invalid {
            textures_are_summed_up(start, visits);
            assert forall|name: Seq<char>| #[trigger] end.map.dom().contains(name) implies are_used(
                names,
                all,
                name,
                end.map[name],
            ) by {
                uses_are_added(names, functions, func, name, end.map[name]);
                if map.dom().contains(name) {
                    assert(are_used(names, functions, name, map[name]));
                } else {
                    let i = choose|i: int|
                        0 <= i < visits.len() && #[trigger] texture_use(
                            end.names,
                            end.expressions,
                            visits[i],
                        ) == Some((name, end.map[name]));
                    assert(texture_use(names, func.expressions, visits[i]) == Some(
                        (name, end.map[name]),
                    ));
                    assert(function_uses(names, func, name, end.map[name]));
                }
            }
            if end.multiple {
                let i = choose|i: int|
                    0 <= i < visits.len() && is_conflict(end, #[trigger] visits[i]);
                let (name, mapping) = texture_use(names, func.expressions, visits[i])->0;
                assert(function_uses(names, func, name, mapping));
                uses_are_added(names, functions, func, name, mapping);
                assert(are_used(names, all, name, end.map[name]));
                assert(are_used(names, all, name, mapping));
                assert(has_conflict(names, all));
            } else {
                assert forall|name: Seq<char>, mapping: TextureMapping| #[trigger]
                    are_used(names, all, name, mapping) implies end.map.dom().contains(name)
                    && end.map[name].sampler == mapping.sampler by {
                    uses_are_added(names, functions, func, name, mapping);
                    if are_used(names, functions, name, mapping) {
                        assert(map.dom().contains(name));
                        assert(end.map.dom().contains(name));
                    } else {
                        let i = choose|i: int|
                            0 <= i < visits.len() && #[trigger] texture_use(
                                names,
                                func.expressions,
                                visits[i],
                            ) == Some((name, mapping));
                        assert(uses_texture(visits[i]));
                        assert(is_noted(end, visits[i]));
                    }
                }
            }
        }
    }
}

/// What is known of the textures of functions is what they are used with.
proof fn functions_are_added(names: Names, functions: Seq<Function>, count: nat)
    requires
        count <= functions.len(),
    ensures
        match textures_of(names, functions, count) {
            Textures::Mapped(map) => is_mapping_of(map, names, functions.take(count as int)),
            Textures::MultipleSamplers => has_conflict(names, functions.take(count as int)),
            Textures::Invalid => true,
        },
    decreases count,
{
    if count == 0 {
        let none = functions.take(0);
        assert forall|name: Seq<char>, mapping: TextureMapping| !#[trigger] are_used(
            names,
            none,
            name,
            mapping,
        ) by {}
    } else {
        let before = functions.take(count - 1);
        let func = functions[count - 1];
        functions_are_added(names, functions, (count - 1) as nat);
        assert(functions.take(count as int) =~= before.push(func));
        match textures_of(names, functions, (count - 1) as nat) {
            Textures::Mapped(map) => {
                one_function_is_added(names, before, map, func);
            },
            Textures::MultipleSamplers => {
                let (name, first, second) = choose|
                    name: Seq<char>,
                    first: TextureMapping,
                    second: TextureMapping,
                |
                    first.sampler != second.sampler && #[trigger] are_used(
                        names,
                        before,
                        name,
                        first,
                    ) && #[trigger] are_used(names, before, name, second);
                uses_are_added(names, before, func, name, first);
                uses_are_added(names, before, func, name, second);
                assert(are_used(names, before.push(func), name, first));
                assert(are_used(names, before.push(func), name, second));
            },
            Textures::Invalid => {},
        }
    }
}

/// The functions of the nodes of a call graph.
pub open spec fn node_functions(env: Env<'_>, nodes: Seq<usize>) -> Seq<Function> {
    Seq::new(nodes.len(), |i: int| env.module.functions@[nodes[i] as int])
}

/// The functions that a writer writes: those of its call graph, then the entry point.
pub open spec fn written_functions(writer: Writer<'_>) -> Seq<Function> {
    node_functions(writer.env, graph_nodes(writer.call_graph)).push(writer.entry_point.function)
}

/// The textures of nodes are those of their functions.
proof fn node_textures_are_those_of_functions(
    env: Env<'_>,
    nodes: Seq<usize>,
    functions: Seq<Function>,
    count: nat,
)
    requires
        count <= nodes.len() <= functions.len(),
        forall|i: int|
            0 <= i < nodes.len() ==> #[trigger] functions[i] == node_functions(env, nodes)[i],
        !(node_textures(env, nodes, count) is Invalid),
    ensures
        node_textures(env, nodes, count) == textures_of(env.analysis.names, functions, count),
    decreases count,
{
    if count > 0 {
        let before = node_textures(env, nodes, (count - 1) as nat);
        assert(!(before is Invalid));
        node_textures_are_those_of_functions(env, nodes, functions, (count - 1) as nat);
        let position = nodes[count - 1];
        assert(functions[count - 1] == env.module.functions@[position as int]);
        if position >= env.module.functions@.len() {
            assert(before is MultipleSamplers);
        }
    }
}

/// If a module is written, the texture mappings have exactly the names of the textures that its
/// functions use. The mapping of a name has the sampler of every use of that name, and none if the
/// texture is used without.
pub proof fn texture_mappings_are_what_is_used(
    writer: Writer<'_>,
    map: Map<Seq<char>, TextureMapping>,
)
    requires
        writer.module_textures() == Textures::Mapped(map),
    ensures
        is_mapping_of(map, writer.env.analysis.names, written_functions(writer)),
{
    let nodes = graph_nodes(writer.call_graph);
    let functions = written_functions(writer);
    let names = writer.env.analysis.names;
    node_textures_are_those_of_functions(writer.env, nodes, functions, nodes.len());
    functions_are_added(names, functions, functions.len());
    assert(functions.take(functions.len() as int) =~= functions);
}

/// A valid module is rejected for its textures exactly if its functions use a texture with two
/// samplers, or both with and without a sampler.
pub proof fn conflicting_samplers_are_rejected(writer: Writer<'_>)
    requires
        !(writer.module_textures() is Invalid),
    ensures
        writer.module_textures() is MultipleSamplers <==> has_conflict(
            writer.env.analysis.names,
            written_functions(writer),
        ),
{
    let nodes = graph_nodes(writer.call_graph);
    let functions = written_functions(writer);
    let names = writer.env.analysis.names;
    node_textures_are_those_of_functions(writer.env, nodes, functions, nodes.len());
    functions_are_added(names, functions, functions.len());
    assert(functions.take(functions.len() as int) =~= functions);
}

} // verus!
