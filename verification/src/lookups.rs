//! What is looked up is what was filed: names, types, features, and the entry point of a new
//! writer.
use crate::arena::{handle_at, Arena, Handle};
use crate::call_graph::call_graph_of;
use crate::context::{argument_name, local_key, Analysis, FunctionType, Options};
use crate::error::{Error, ErrorView, Features};
use crate::growth::modules_are_added_at_the_end;
use crate::ir::{Expression, Function, GlobalVariable, LocalVariable, Module, Type};
use crate::names::{NameKey, Names};
use crate::output::{Output, Status};
use crate::text::decimal;
use crate::textures::{global_of, TextureMappings};
use crate::typing::{Resolution, Typifier};
use crate::writer::{
    creation, is_used_push_constant, selected_entry_point, selected_entry_point_is_the_first_match,
    uses_push_constants, Writer,
};
use vstd::prelude::*;

verus! {

/// Whether the item at `index` of a list of names is `name`, where `None` stands for a list that
/// ends before.
pub open spec fn is_name_at(list: Seq<String>, index: int, name: Option<Seq<char>>) -> bool {
    match name {
        Some(text) => index < list.len() && list[index]@ == text,
        None => index >= list.len(),
    }
}

/// Whether the item at `index` of the list at `row` is `name`, where `None` stands for a list that
/// ends before or is missing.
pub open spec fn is_name_in(
    lists: Seq<Vec<String>>,
    row: int,
    index: int,
    name: Option<Seq<char>>,
) -> bool {
    match name {
        Some(text) => row < lists.len() && index < lists[row]@.len() && lists[row]@[index]@ == text,
        None => row >= lists.len() || index >= lists[row]@.len(),
    }
}

/// The name of an item is the one at its position in the list for items of its sort.
pub proof fn names_are_found_where_they_are_filed(names: Names, key: NameKey)
    ensures
        ({
            let name = names.lookup(key);
            match key {
                NameKey::GlobalVariable(global) => is_name_at(
                    names.global_variables@,
                    global.index as int,
                    name,
                ),
                NameKey::Type(ty) => is_name_at(names.types@, ty.index as int, name),
                NameKey::StructMember(ty, member) => is_name_in(
                    names.members@,
                    ty.index as int,
                    member as int,
                    name,
                ),
                NameKey::Function(function) => is_name_at(
                    names.functions@,
                    function.index as int,
                    name,
                ),
                NameKey::FunctionArgument(function, argument) => is_name_in(
                    names.arguments@,
                    function.index as int,
                    argument as int,
                    name,
                ),
                NameKey::FunctionLocal(function, local) => is_name_in(
                    names.function_locals@,
                    function.index as int,
                    local.index as int,
                    name,
                ),
                NameKey::EntryPointLocal(entry_point, local) => is_name_in(
                    names.entry_point_locals@,
                    entry_point as int,
                    local.index as int,
                    name,
                ),
            }
        }),
{
}

/// The names of local variables and arguments are filed under the function that they belong to.
/// Entry points have no arguments.
pub proof fn names_belong_to_their_function(
    names: Names,
    function: Handle<Function>,
    entry_point: u16,
    local: Handle<LocalVariable>,
    argument: u32,
)
    ensures
        local_key(FunctionType::Function(function), local) == NameKey::FunctionLocal(
            function,
            local,
        ),
        local_key(FunctionType::EntryPoint(entry_point), local) == NameKey::EntryPointLocal(
            entry_point,
            local,
        ),
        argument_name(FunctionType::Function(function), argument, names) == names.lookup(
            NameKey::FunctionArgument(function, argument),
        ),
        argument_name(FunctionType::EntryPoint(entry_point), argument, names) is None,
{
}

/// An expression has the type that it has been resolved to. It has no type if it hasn't been
/// resolved, or if it has been resolved to a type that the module doesn't have.
pub proof fn expressions_have_the_types_they_are_resolved_to(
    typifier: Typifier,
    types: Arena<Type>,
    expr: Handle<Expression>,
)
    ensures
        expr.index >= typifier.resolutions@.len() ==> typifier.type_of(expr, types) is None
            && typifier.declared_type_of(expr) is None,
        expr.index < typifier.resolutions@.len() ==> match typifier.resolutions@[expr.index as int]
        {
            Resolution::Value(inner) => {
                &&& typifier.type_of(expr, types) == Some(inner)
                &&& typifier.declared_type_of(expr) is None
            },
            Resolution::Handle(ty) => {
                &&& typifier.declared_type_of(expr) == Some(ty)
                &&& ty.index < types@.len() ==> typifier.type_of(expr, types) == Some(
                    types@[ty.index as int].inner,
                )
                &&& ty.index >= types@.len() ==> typifier.type_of(expr, types) is None
            },
        },
{
}

/// A set of features is empty exactly if no feature is in it.
pub proof fn empty_sets_have_no_feature(features: Features)
    ensures
        features.spec_is_empty() <==> forall|bit: u32|
            bit < 32 ==> (#[trigger] (features.bits >> bit)) & 1 == 0,
{
    let bits = features.bits;
    if features.spec_is_empty() {
        assert forall|bit: u32| bit < 32 implies (#[trigger] (bits >> bit)) & 1 == 0 by {
            assert((bits >> bit) & 1 == 0) by (bit_vector)
                requires
                    bits == 0,
                    bit < 32,
            ;
        }
    }
    if forall|bit: u32| bit < 32 ==> (#[trigger] (bits >> bit)) & 1 == 0 {
        assert(bits == 0) by (bit_vector)
            requires
                (bits >> 0u32) & 1 == 0,
                (bits >> 1u32) & 1 == 0,
                (bits >> 2u32) & 1 == 0,
                (bits >> 3u32) & 1 == 0,
                (bits >> 4u32) & 1 == 0,
                (bits >> 5u32) & 1 == 0,
                (bits >> 6u32) & 1 == 0,
                (bits >> 7u32) & 1 == 0,
                (bits >> 8u32) & 1 == 0,
                (bits >> 9u32) & 1 == 0,
                (bits >> 10u32) & 1 == 0,
                (bits >> 11u32) & 1 == 0,
                (bits >> 12u32) & 1 == 0,
                (bits >> 13u32) & 1 == 0,
                (bits >> 14u32) & 1 == 0,
                (bits >> 15u32) & 1 == 0,
                (bits >> 16u32) & 1 == 0,
                (bits >> 17u32) & 1 == 0,
                (bits >> 18u32) & 1 == 0,
                (bits >> 19u32) & 1 == 0,
                (bits >> 20u32) & 1 == 0,
                (bits >> 21u32) & 1 == 0,
                (bits >> 22u32) & 1 == 0,
                (bits >> 23u32) & 1 == 0,
                (bits >> 24u32) & 1 == 0,
                (bits >> 25u32) & 1 == 0,
                (bits >> 26u32) & 1 == 0,
                (bits >> 27u32) & 1 == 0,
                (bits >> 28u32) & 1 == 0,
                (bits >> 29u32) & 1 == 0,
                (bits >> 30u32) & 1 == 0,
                (bits >> 31u32) & 1 == 0,
        ;
    }
}

/// What is written is added at the end, and nothing is once writing has stopped. The number of an
/// interface block is used up when it is written.
pub proof fn writing_adds_at_the_end(o: Output, text: Seq<char>, error: ErrorView)
    ensures
        o.status is Running ==> {
            &&& o.put(text).text == o.text + text
            &&& o.put(text).next_id == o.next_id
            &&& o.put(text).status is Running
            &&& o.fail(error).text == o.text
            &&& o.fail(error).status == Status::Failed(error)
            &&& o.invalid().text == o.text
            &&& o.invalid().status is Invalid
            &&& o.next_id < u32::MAX ==> {
                &&& o.put_id().text == o.text + decimal(o.next_id)
                &&& o.put_id().next_id == o.next_id + 1
                &&& o.put_id().status is Running
            }
        },
        !(o.status is Running) ==> o.put(text) == o && o.fail(error) == o && o.invalid() == o
            && o.put_id() == o,
{
}

/// A version that isn't supported is rejected whatever the module is.
pub proof fn unsupported_versions_are_rejected(
    module: Module,
    options: Options,
    analysis: Analysis,
)
    requires
        !options.version.spec_is_supported(),
    ensures
        creation(module, options, analysis) == Status::Failed(ErrorView::VersionNotSupported),
{
}

/// A module without an entry point of the name and the stage that the options ask for is rejected.
pub proof fn missing_entry_points_are_rejected(
    module: Module,
    options: Options,
    analysis: Analysis,
)
    requires
        options.version.spec_is_supported(),
        forall|i: int|
            0 <= i < module.entry_points@.len() ==> (#[trigger] module.entry_points@[i]).0.0
                != options.entry_point.0 || module.entry_points@[i].0.1@ != options.entry_point.1@,
    ensures
        creation(module, options, analysis) == Status::Failed(ErrorView::EntryPointNotFound),
{
    selected_entry_point_is_the_first_match(module, options);
}

/// A module is accepted for the first entry point of the name and the stage that the options ask
/// for, exactly if that has a call graph, uses no global that is a push constant, and needs no
/// feature that isn't supported. Otherwise it is rejected for the first of these that fails.
pub proof fn entry_points_are_accepted_or_rejected(
    module: Module,
    options: Options,
    analysis: Analysis,
    position: int,
)
    requires
        options.version.spec_is_supported(),
        0 <= position < module.entry_points@.len(),
        module.entry_points@[position].0.0 == options.entry_point.0,
        module.entry_points@[position].0.1@ == options.entry_point.1@,
        forall|i: int|
            0 <= i < position ==> (#[trigger] module.entry_points@[i]).0.0 != options.entry_point.0
                || module.entry_points@[i].0.1@ != options.entry_point.1@,
    ensures
        ({
            let entry = module.entry_points@[position].1.function;
            let usage = entry.global_usage@;
            let globals = module.global_variables@;
            let missing = analysis.features.used.bits & !analysis.features.supported.bits;
            let pushes = exists|g: int|
                0 <= g < usage.len() && g < globals.len() && ((#[trigger] usage[g]).load
                    || usage[g].store) && globals[g].class is PushConstant;
            creation(module, options, analysis) == (if call_graph_of(module, entry) is None {
                Status::Invalid
            } else if pushes {
                Status::Failed(ErrorView::PushConstantNotSupported)
            } else if missing != 0 {
                Status::Failed(ErrorView::MissingFeatures(Features { bits: missing }))
            } else {
                Status::Running
            })
        }),
{
    selected_entry_point_is_the_first_match(module, options);
    let entry = module.entry_points@[position].1.function;
    let usage = entry.global_usage@;
    let globals = module.global_variables@;
    assert(selected_entry_point(module, options) == Some(position));
    assert forall|g: int|
        0 <= g < usage.len() && g < globals.len() && ((#[trigger] usage[g]).load || usage[g].store)
            && globals[g].class is PushConstant implies uses_push_constants(module, entry) by {
        assert(is_used_push_constant(module, entry, g));
    }
    if uses_push_constants(module, entry) {
        let g = choose|g: int| is_used_push_constant(module, entry, g);
        assert(usage[g].load || usage[g].store);
    }
}

/// A new writer has written nothing, numbers interface blocks from zero, and writes the first entry
/// point of the name and the stage that the options ask for.
pub proof fn new_writers_write_the_selected_entry_point<'a>(
    writer: Writer<'a>,
    module: &'a Module,
    options: &'a Options,
    analysis: &'a Analysis,
    position: int,
)
    requires
        writer.is_new(module, options, analysis),
        0 <= position < module.entry_points@.len(),
        module.entry_points@[position].0.0 == options.entry_point.0,
        module.entry_points@[position].0.1@ == options.entry_point.1@,
        forall|i: int|
            0 <= i < position ==> (#[trigger] module.entry_points@[i]).0.0 != options.entry_point.0
                || module.entry_points@[i].0.1@ != options.entry_point.1@,
    ensures
        writer.state().text.len() == 0,
        writer.state().next_id == 0,
        writer.state().status is Running,
        *writer.entry_point == module.entry_points@[position].1,
        writer.entry_point_idx == position as u16,
        writer.env.module == module,
        writer.env.options == options,
        writer.env.analysis == analysis,
        call_graph_of(*module, writer.entry_point.function) is Some,
{
    selected_entry_point_is_the_first_match(*module, *options);
    assert(selected_entry_point(*module, *options) == Some(position));
}

/// Exactly the expressions that are global variables stand for one.
pub proof fn globals_are_named_directly(
    expressions: Arena<Expression>,
    expr: Handle<Expression>,
    global: Handle<GlobalVariable>,
)
    ensures
        global_of(expressions, expr) == Some(global) <==> expr.index < expressions@.len()
            && expressions@[expr.index as int] == Expression::GlobalVariable(global),
{
}

/// The mappings of textures have exactly the names of their entries, each with the mapping of its
/// entry.
pub proof fn mappings_have_all_their_entries(mappings: TextureMappings, i: int, name: Seq<char>)
    requires
        mappings.wf(),
        0 <= i < mappings.entries@.len(),
    ensures
        mappings@.dom().contains(mappings.entries@[i].0@),
        mappings@[mappings.entries@[i].0@] == mappings.entries@[i].1,
        mappings@.dom().contains(name) ==> exists|j: int|
            0 <= j < mappings.entries@.len() && (#[trigger] mappings.entries@[j]).0@ == name,
{
    let own = mappings.entries@[i].0@;
    assert(mappings.has_at(i, own));
    let k = choose|k: int| mappings.has_at(k, own);
    assert(mappings.entries@[k].0@ == mappings.entries@[i].0@);
    if mappings@.dom().contains(name) {
        let j = choose|j: int| mappings.has_at(j, name);
        assert(mappings.entries@[j].0@ == name);
    }
}

/// An error says which one it is, and of what.
pub proof fn errors_say_what_they_are(error: Error)
    ensures
        match error {
            Error::Type(e) => error@ == ErrorView::Type(e.reason@),
            Error::MissingFeatures(features) => error@ == ErrorView::MissingFeatures(features),
            Error::PushConstantNotSupported => error@ is PushConstantNotSupported,
            Error::VersionNotSupported => error@ is VersionNotSupported,
            Error::EntryPointNotFound => error@ is EntryPointNotFound,
            Error::UnsupportedExternal(name) => error@ == ErrorView::UnsupportedExternal(name@),
            Error::UnsupportedScalar(kind, width) => error@ == ErrorView::UnsupportedScalar(
                kind,
                width,
            ),
            Error::PatchInterpolationNotSupported => error@ is PatchInterpolationNotSupported,
            Error::ImageMultipleSamplers => error@ is ImageMultipleSamplers,
            Error::Custom(message) => error@ == ErrorView::Custom(message@),
        },
{
}

/// A writer that has written its module has all the text of the module in its output, after what
/// was there before, and still belongs to the same module and entry point.
pub proof fn written_modules_are_in_the_output(before: Writer<'_>, after: Writer<'_>)
    requires
        before.written(after),
    ensures
        after.out@ == before.module_output().text,
        after.out@.len() >= before.out@.len(),
        after.out@.take(before.out@.len() as int) == before.out@,
        after.env == before.env,
        after.entry_point == before.entry_point,
        after.entry_point_idx == before.entry_point_idx,
        after.call_graph == before.call_graph,
{
    modules_are_added_at_the_end(before);
}

/// The handle of a position points there.
pub proof fn handles_point_to_their_position(arena: Arena<Expression>, index: int)
    requires
        0 <= index <= usize::MAX,
    ensures
        handle_at::<Expression>(index).index == index,
        arena.has(handle_at(index)) <==> index < arena@.len(),
        arena.at(handle_at(index)) == arena@[index],
{
}

} // verus!
