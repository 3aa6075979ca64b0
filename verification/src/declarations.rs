//! How the part of the source before the functions is written: the version and the extensions,
//! then the structs and the global variables.
use crate::arena::{handle_at, Handle};
use crate::context::Env;
use crate::error::ErrorView;
use crate::ir::{
    Binding, EntryPoint, GlobalUse, GlobalVariable, ImageClass, ImageDimension, ShaderStage,
    StorageAccess, StorageClass, StructMember, Type, TypeInner,
};
use crate::names::NameKey;
use crate::output::{name_piece, Failure, Parts, Piece};
use crate::terms::{
    conservative_depth_name, glsl_conservative_depth, glsl_interpolation, glsl_storage_class,
    glsl_storage_format, interpolation_qualifier, storage_class_qualifier, storage_format_name,
};
use crate::text::decimal;
use crate::types::{add_members, image_type_pieces, member_pieces, write_image_type};
use crate::version::Version;
use vstd::prelude::*;

verus! {

/// A struct, written as in C: `struct name { members };`.
pub open spec fn struct_pieces(env: Env<'_>, ty: Handle<Type>, members: Seq<StructMember>) -> Seq<
    Piece,
> {
    (seq![
        Piece::Text("struct "@),
        name_piece(env.analysis.names.lookup(NameKey::Type(ty))),
        Piece::Text(" {\n"@),
    ] + member_pieces(env, ty, members, members.len())).push(Piece::Text("};\n"@))
}

/// Helper method used to write structs
///
/// # Notes
/// Ends in a newline
pub fn write_struct<'a>(
    env: Env<'a>,
    parts: &mut Parts<'a>,
    handle: Handle<Type>,
    members: &'a Vec<StructMember>,
)
    ensures
        final(parts)@ == old(parts)@ + struct_pieces(env, handle, members@),
{
    parts.text("struct ");
    parts.name(env.analysis.names.get(NameKey::Type(handle)));
    parts.text(" {\n");
    add_members(env, parts, handle, members);
    parts.text("};\n");
    assert(parts@ =~= old(parts)@ + struct_pieces(env, handle, members@));
}

/// The storage access modifier.
///
/// glsl allows adding both `readonly` and `writeonly` but this means that they can only be used to
/// query information, so there is no modifier when both loads and stores are allowed.
pub open spec fn access_pieces(access: StorageAccess) -> Seq<Piece> {
    if access.load && !access.store {
        seq![Piece::Text("readonly "@)]
    } else if access.store && !access.load {
        seq![Piece::Text("writeonly "@)]
    } else {
        seq![]
    }
}

/// The interpolation modifier of a global.
///
/// Interpolations are ignored except for inputs of fragment shaders and outputs of vertex shaders.
pub open spec fn interpolation_pieces(stage: ShaderStage, global: GlobalVariable) -> Seq<Piece> {
    match global.interpolation {
        Some(interpolation) => {
            if (stage is Fragment && global.class is Input) || (stage is Vertex
                && global.class is Output) {
                match interpolation_qualifier(interpolation) {
                    Some(qualifier) => seq![Piece::Text(qualifier), Piece::Text(" "@)],
                    None => seq![Piece::Fail(ErrorView::PatchInterpolationNotSupported)],
                }
            } else {
                seq![]
            }
        },
        None => seq![],
    }
}

/// A global that is neither image nor sampler: its modifiers, its storage class, then
/// `type name;`.
pub open spec fn global_declaration_pieces(
    env: Env<'_>,
    handle: Handle<GlobalVariable>,
    global: GlobalVariable,
) -> Seq<Piece> {
    access_pieces(global.storage_access) + interpolation_pieces(
        env.options.entry_point.0,
        global,
    ) + seq![
        Piece::Text(storage_class_qualifier(global.class)),
        Piece::Text(" "@),
        Piece::Type(global.ty),
        Piece::Text(" "@),
        name_piece(env.analysis.names.lookup(NameKey::GlobalVariable(handle))),
        Piece::Text(";\n"@),
    ]
}

/// The layout of a storage image; other images have none.
pub open spec fn storage_layout_pieces(class: ImageClass) -> Seq<Piece> {
    match class {
        ImageClass::Storage(format) => seq![
            Piece::Text("layout("@),
            Piece::Text(storage_format_name(format)),
            Piece::Text(") "@),
        ],
        _ => seq![],
    }
}

/// A global that is an image: its layout and its modifiers, then `uniform type name;`.
pub open spec fn image_global_pieces(
    env: Env<'_>,
    handle: Handle<GlobalVariable>,
    global: GlobalVariable,
    dim: ImageDimension,
    arrayed: bool,
    class: ImageClass,
) -> Seq<Piece> {
    storage_layout_pieces(class) + access_pieces(global.storage_access) + seq![
        Piece::Text("uniform "@),
    ] + image_type_pieces(dim, arrayed, class) + seq![
        Piece::Text(" "@),
        name_piece(env.analysis.names.lookup(NameKey::GlobalVariable(handle))),
        Piece::Text(";\n"@),
    ]
}

/// A global variable of the module.
///
/// Builtins aren't declared, and glsl has no samplers. All images are `uniform`.
pub open spec fn any_global_pieces(env: Env<'_>, handle: Handle<GlobalVariable>) -> Seq<Piece> {
    let global = env.module.global_variables.at(handle);
    if global.binding matches Some(Binding::BuiltIn(_)) {
        seq![]
    } else if !env.module.types.has(global.ty) {
        seq![Piece::Invalid]
    } else {
        match env.module.types.at(global.ty).inner {
            TypeInner::Image { dim, arrayed, class } => image_global_pieces(
                env,
                handle,
                global,
                dim,
                arrayed,
                class,
            ),
            TypeInner::Sampler { .. } => seq![],
            _ => global_declaration_pieces(env, handle, global),
        }
    }
}

/// Adds the storage access modifier.
fn add_access<'a>(parts: &mut Parts<'a>, access: StorageAccess)
    ensures
        final(parts)@ == old(parts)@ + access_pieces(access),
{
    if access.load && !access.store {
        parts.text("readonly ");
    } else if access.store && !access.load {
        parts.text("writeonly ");
    }
    assert(parts@ =~= old(parts)@ + access_pieces(access));
}

/// Adds the interpolation modifier of a global.
fn add_interpolation<'a>(parts: &mut Parts<'a>, stage: ShaderStage, global: &GlobalVariable)
    ensures
        final(parts)@ == old(parts)@ + interpolation_pieces(stage, *global),
{
    match global.interpolation {
        Some(interpolation) => match (stage, global.class) {
            (ShaderStage::Fragment, StorageClass::Input)
            | (ShaderStage::Vertex, StorageClass::Output) => match glsl_interpolation(
                interpolation,
            ) {
                Ok(qualifier) => {
                    parts.text(qualifier);
                    parts.text(" ");
                },
                Err(_) => parts.fail(Failure::PatchInterpolation),
            },
            _ => (),
        },
        None => (),
    }
    assert(parts@ =~= old(parts)@ + interpolation_pieces(stage, *global));
}

/// Helper method used to write non images/sampler globals
///
/// # Notes
/// Adds a newline
pub fn write_global<'a>(
    env: Env<'a>,
    parts: &mut Parts<'a>,
    handle: Handle<GlobalVariable>,
    global: &'a GlobalVariable,
)
    ensures
        final(parts)@ == old(parts)@ + global_declaration_pieces(env, handle, *global),
{
    add_access(parts, global.storage_access);
    add_interpolation(parts, env.options.entry_point.0, global);
    // Write the storage class
    // Trailing space is important
    parts.text(glsl_storage_class(global.class));
    parts.text(" ");
    parts.ty(global.ty);
    // Leading space is important
    parts.text(" ");
    parts.name(env.analysis.names.get(NameKey::GlobalVariable(handle)));
    parts.text(";\n");
    assert(parts@ =~= old(parts)@ + global_declaration_pieces(env, handle, *global));
}

/// Adds a global that is an image.
fn add_image_global<'a>(
    env: Env<'a>,
    parts: &mut Parts<'a>,
    handle: Handle<GlobalVariable>,
    global: &'a GlobalVariable,
    dim: ImageDimension,
    arrayed: bool,
    class: ImageClass,
)
    ensures
        final(parts)@ == old(parts)@ + image_global_pieces(
            env,
            handle,
            *global,
            dim,
            arrayed,
            class,
        ),
{
    match class {
        ImageClass::Storage(format) => {
            parts.text("layout(");
            parts.text(glsl_storage_format(format));
            parts.text(") ");
        },
        _ => (),
    }
    assert(parts@ =~= old(parts)@ + storage_layout_pieces(class));
    add_access(parts, global.storage_access);
    // The trailing space is important
    parts.text("uniform ");
    write_image_type(parts, dim, arrayed, class);
    // The leading space is important
    parts.text(" ");
    parts.name(env.analysis.names.get(NameKey::GlobalVariable(handle)));
    parts.text(";\n");
    assert(parts@ =~= old(parts)@ + image_global_pieces(
        env,
        handle,
        *global,
        dim,
        arrayed,
        class,
    ));
}

/// Adds a global variable of the module.
fn add_any_global<'a>(
    env: Env<'a>,
    parts: &mut Parts<'a>,
    handle: Handle<GlobalVariable>,
    global: &'a GlobalVariable,
)
    requires
        *global == env.module.global_variables.at(handle),
    ensures
        final(parts)@ == old(parts)@ + any_global_pieces(env, handle),
{
    // Skip builtins
    match global.binding {
        Some(Binding::BuiltIn(_)) => {
            assert(parts@ =~= old(parts)@ + any_global_pieces(env, handle));
            return;
        },
        _ => (),
    }
    match env.module.types.try_get(global.ty) {
        None => parts.invalid(),
        Some(ty) => match &ty.inner {
            // We treat images separately because they might require writing the storage format
            TypeInner::Image { dim, arrayed, class } => {
                add_image_global(env, parts, handle, global, *dim, *arrayed, *class);
            },
            // glsl has no concept of samplers so we just ignore it
            TypeInner::Sampler { .. } => (),
            _ => write_global(env, parts, handle, global),
        },
    }
    assert(parts@ =~= old(parts)@ + any_global_pieces(env, handle));
}

/// The version: number, then profile.
pub open spec fn version_pieces(version: Version) -> Seq<Piece> {
    match version {
        Version::Desktop(v) => seq![Piece::Text(decimal(v as nat)), Piece::Text(" core"@)],
        Version::Embedded(v) => seq![Piece::Text(decimal(v as nat)), Piece::Text(" es"@)],
    }
}

/// The first `count` extension directives: `#extension name: require`.
pub open spec fn extension_pieces(extensions: Seq<String>, count: nat) -> Seq<Piece>
    decreases count,
{
    if count == 0 {
        seq![]
    } else {
        extension_pieces(extensions, (count - 1) as nat).push(Piece::Text("#extension "@)).push(
            Piece::Text(extensions[count - 1]@),
        ).push(Piece::Text(": require\n"@))
    }
}

/// The layouts for early depth tests, if they are enabled.
pub open spec fn depth_test_pieces(entry_point: EntryPoint) -> Seq<Piece> {
    match entry_point.early_depth_test {
        Some(depth_test) => {
            let pieces = seq![Piece::Text("layout(early_fragment_tests) in;\n"@)];
            match depth_test.conservative {
                Some(conservative) => pieces.push(Piece::Text("layout (depth_"@)).push(
                    Piece::Text(conservative_depth_name(conservative)),
                ).push(Piece::Text(") out float gl_FragDepth;\n"@)),
                None => pieces,
            }
        },
        None => seq![],
    }
}

/// What stands at the start of the source: the version directive, the extension directives, the
/// precision that `es` requires, and the layouts for early depth tests.
pub open spec fn prologue_pieces(env: Env<'_>, entry_point: EntryPoint) -> Seq<Piece> {
    let version = env.options.version;
    let extensions = env.analysis.features.extensions@;
    let directives = (seq![Piece::Text("#version "@)] + version_pieces(version)).push(
        Piece::Text("\n"@),
    );
    let directives = (directives + extension_pieces(extensions, extensions.len())).push(
        Piece::Text("\n"@),
    );
    let directives = if version.spec_is_es() {
        directives.push(Piece::Text("precision highp float;\n\n"@))
    } else {
        directives
    };
    (directives + depth_test_pieces(entry_point)).push(Piece::Text("\n"@))
}

/// The structs among the first `count` types.
pub open spec fn all_struct_pieces(env: Env<'_>, count: nat) -> Seq<Piece>
    decreases count,
{
    if count == 0 {
        seq![]
    } else {
        let index = count - 1;
        let before = all_struct_pieces(env, index as nat);
        match env.module.types@[index].inner {
            TypeInner::Struct { members, .. } => before + struct_pieces(
                env,
                handle_at(index),
                members@,
            ),
            _ => before,
        }
    }
}

/// Those of the first `count` globals that the entry point uses.
pub open spec fn all_global_pieces(env: Env<'_>, usage: Seq<GlobalUse>, count: nat) -> Seq<Piece>
    decreases count,
{
    if count == 0 {
        seq![]
    } else {
        let index = count - 1;
        let before = all_global_pieces(env, usage, index as nat);
        if usage[index].is_empty() {
            before
        } else {
            before + any_global_pieces(env, handle_at(index))
        }
    }
}

/// The number of globals whose usage is known.
pub open spec fn listed_globals(env: Env<'_>, usage: Seq<GlobalUse>) -> nat {
    if env.module.global_variables@.len() < usage.len() {
        env.module.global_variables@.len()
    } else {
        usage.len()
    }
}

/// The part of the source before the functions.
pub open spec fn declaration_pieces(env: Env<'_>, entry_point: EntryPoint) -> Seq<Piece> {
    let usage = entry_point.function.global_usage@;
    let structs = (prologue_pieces(env, entry_point) + all_struct_pieces(
        env,
        env.module.types@.len(),
    )).push(Piece::Text("\n"@));
    (structs + all_global_pieces(env, usage, listed_globals(env, usage))).push(Piece::Text("\n"@))
}

/// Adds the start of the source.
fn add_prologue<'a>(env: Env<'a>, parts: &mut Parts<'a>, entry_point: &'a EntryPoint)
    requires
        old(parts)@ == Seq::<Piece>::empty(),
    ensures
        final(parts)@ == prologue_pieces(env, *entry_point),
{
    // Write the version (It must be the first thing or it isn't a valid glsl output)
    parts.text("#version ");
    match env.options.version {
        Version::Desktop(v) => {
            parts.decimal(v as u64);
            parts.text(" core");
        },
        Version::Embedded(v) => {
            parts.decimal(v as u64);
            parts.text(" es");
        },
    }
    parts.text("\n");
    // Write all the needed extensions
    let extensions = &env.analysis.features.extensions;
    let ghost version = (seq![Piece::Text("#version "@)] + version_pieces(
        env.options.version,
    )).push(Piece::Text("\n"@));
    assert(parts@ =~= version + extension_pieces(extensions@, 0));
    for i in 0..extensions.len()
        invariant
            parts@ == version + extension_pieces(extensions@, i as nat),
    {
        parts.text("#extension ");
        parts.text(extensions[i].as_str());
        parts.text(": require\n");
        assert(parts@ =~= version + extension_pieces(extensions@, (i + 1) as nat));
    }
    parts.text("\n");
    // glsl es requires a precision to be specified for floats
    if env.options.version.is_es() {
        parts.text("precision highp float;\n\n");
    }
    // Enable early depth tests if needed
    let ghost directives = parts@;
    match entry_point.early_depth_test {
        Some(depth_test) => {
            parts.text("layout(early_fragment_tests) in;\n");
            match depth_test.conservative {
                Some(conservative) => {
                    parts.text("layout (depth_");
                    parts.text(glsl_conservative_depth(conservative));
                    parts.text(") out float gl_FragDepth;\n");
                },
                None => (),
            }
        },
        None => (),
    }
    assert(parts@ =~= directives + depth_test_pieces(*entry_point));
    parts.text("\n");
}

/// Adds all the structs of the module.
///
/// They are always ordered because you can't make a struct without adding all of its members first.
fn add_structs<'a>(env: Env<'a>, parts: &mut Parts<'a>)
    ensures
        final(parts)@ == old(parts)@ + all_struct_pieces(env, env.module.types@.len()),
{
    assert(parts@ =~= old(parts)@ + all_struct_pieces(env, 0));
    for i in 0..env.module.types.data.len()
        invariant
            parts@ == old(parts)@ + all_struct_pieces(env, i as nat),
    {
        match &env.module.types.data[i].inner {
            TypeInner::Struct { members, .. } => write_struct(
                env,
                parts,
                Handle::new(i),
                members,
            ),
            _ => (),
        }
        assert(parts@ =~= old(parts)@ + all_struct_pieces(env, (i + 1) as nat));
    }
}

/// Adds the globals that the entry point uses.
///
/// We filter all globals that aren't used by the selected entry point as they might interfere with
/// each other (i.e. two globals with the same location but different classes)
fn add_globals<'a>(env: Env<'a>, parts: &mut Parts<'a>, usage: &Vec<GlobalUse>)
    ensures
        final(parts)@ == old(parts)@ + all_global_pieces(env, usage@, listed_globals(env, usage@)),
{
    assert(parts@ =~= old(parts)@ + all_global_pieces(env, usage@, 0));
    let globals = &env.module.global_variables.data;
    let count: usize = if globals.len() < usage.len() {
        globals.len()
    } else {
        usage.len()
    };
    for i in 0..count
        invariant
            count <= globals@.len(),
            count <= usage@.len(),
            globals@ == env.module.global_variables@,
            parts@ == old(parts)@ + all_global_pieces(env, usage@, i as nat),
    {
        if !usage[i].is_empty() {
            add_any_global(env, parts, Handle::new(i), &globals[i]);
        }
        assert(parts@ =~= old(parts)@ + all_global_pieces(env, usage@, (i + 1) as nat));
    }
}

/// The pieces of the part of the source before the functions.
pub fn declaration_parts<'a>(env: Env<'a>, entry_point: &'a EntryPoint) -> (parts: Parts<'a>)
    ensures
        parts@ == declaration_pieces(env, *entry_point),
{
    let mut parts = Parts::new();
    add_prologue(env, &mut parts, entry_point);
    add_structs(env, &mut parts);
    parts.text("\n");
    add_globals(env, &mut parts, &entry_point.function.global_usage);
    parts.text("\n");
    parts
}

} // verus!
