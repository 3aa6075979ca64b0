//! How types are written.
use crate::arena::Handle;
use crate::context::Env;
use crate::error::ErrorView;
use crate::ir::{
    ArraySize, Bytes, ConstantInner, ImageClass, ImageDimension, ScalarKind, StructMember, Type,
    TypeInner,
};
use crate::names::NameKey;
use crate::output::{name_piece, Failure, Part, Parts, Piece};
use crate::terms::{
    dimension_name, glsl_dimension, glsl_scalar, scalar_exists, scalar_name, scalar_prefix,
};
use crate::text::decimal;
use vstd::prelude::*;

verus! {

/// The prefix that marks types made of a scalar.
pub open spec fn prefix_piece(kind: ScalarKind, width: Bytes) -> Piece {
    if scalar_exists(kind, width) {
        Piece::Text(scalar_prefix(kind, width))
    } else {
        Piece::Fail(ErrorView::UnsupportedScalar(kind, width))
    }
}

/// The type of a scalar.
pub open spec fn scalar_piece(kind: ScalarKind, width: Bytes) -> Piece {
    if scalar_exists(kind, width) {
        Piece::Text(scalar_name(kind, width))
    } else {
        Piece::Fail(ErrorView::UnsupportedScalar(kind, width))
    }
}

/// The prefix that marks types made of a scalar.
pub fn prefix_part<'a>(kind: ScalarKind, width: Bytes) -> (part: Part<'a>)
    ensures
        part.view() == prefix_piece(kind, width),
{
    match glsl_scalar(kind, width) {
        Ok(strings) => Part::Text(strings.prefix),
        Err(_) => Part::Fail(Failure::UnsupportedScalar(kind, width)),
    }
}

/// The type of a scalar.
pub fn scalar_part<'a>(kind: ScalarKind, width: Bytes) -> (part: Part<'a>)
    ensures
        part.view() == scalar_piece(kind, width),
{
    match glsl_scalar(kind, width) {
        Ok(strings) => Part::Text(strings.full),
        Err(_) => Part::Fail(Failure::UnsupportedScalar(kind, width)),
    }
}

/// The size of an array: a constant that must be an unsigned integer.
pub open spec fn array_size_pieces(env: Env<'_>, size: ArraySize) -> Seq<Piece> {
    match size {
        ArraySize::Constant(constant) => {
            if env.module.constants.has(constant) {
                match env.module.constants.at(constant).inner {
                    ConstantInner::Uint(n) => seq![Piece::Text(decimal(n as nat))],
                    _ => seq![Piece::Invalid],
                }
            } else {
                seq![Piece::Invalid]
            }
        },
        // The size is left out
        ArraySize::Dynamic => seq![],
    }
}

/// The first `count` members of a struct or an interface block, one on a line: `type name;`.
pub open spec fn member_pieces(
    env: Env<'_>,
    ty: Handle<Type>,
    members: Seq<StructMember>,
    count: nat,
) -> Seq<Piece>
    decreases count,
{
    if count == 0 {
        seq![]
    } else {
        let index = count - 1;
        member_pieces(env, ty, members, index as nat).push(Piece::Text("\t"@)).push(
            Piece::Type(members[index].ty),
        ).push(Piece::Text(" "@)).push(
            name_piece(env.analysis.names.lookup(NameKey::StructMember(ty, index as u32))),
        ).push(Piece::Text(";\n"@))
    }
}

/// How a type is written.
///
/// - scalars by their name
/// - vectors as `gvecN`, where `g` is the scalar prefix and `N` the size
/// - matrices as `gmatMxN`, where `M` is the columns count and `N` the rows count
/// - pointers as the type that they point to
/// - arrays as `base[size]`
/// - structs by their name, except for interface blocks, which are written out under a name with a
///   number of its own: `name_block_ID { members }`
///
/// Images and samplers can't be written this way.
pub open spec fn type_pieces(env: Env<'_>, ty: Handle<Type>) -> Seq<Piece> {
    match env.module.types.at(ty).inner {
        TypeInner::Scalar { kind, width } => seq![scalar_piece(kind, width)],
        TypeInner::Vector { size, kind, width } => seq![
            prefix_piece(kind, width),
            Piece::Text("vec"@),
            Piece::Text(decimal(size.count() as nat)),
        ],
        TypeInner::Matrix { columns, rows, width } => seq![
            prefix_piece(ScalarKind::Float, width),
            Piece::Text("mat"@),
            Piece::Text(decimal(columns.count() as nat)),
            Piece::Text("x"@),
            Piece::Text(decimal(rows.count() as nat)),
        ],
        TypeInner::Pointer { base, .. } => seq![Piece::Type(base)],
        TypeInner::Array { base, size, .. } => (seq![Piece::Type(base), Piece::Text("["@)]
            + array_size_pieces(env, size)).push(Piece::Text("]"@)),
        TypeInner::Struct { block, members } => {
            let name = name_piece(env.analysis.names.lookup(NameKey::Type(ty)));
            if block {
                (seq![name, Piece::Text("_block_"@), Piece::FreshId, Piece::Text(" {\n"@)]
                    + member_pieces(env, ty, members@, members@.len())).push(
                    Piece::Text("}"@),
                )
            } else {
                seq![name]
            }
        },
        TypeInner::Image { .. } | TypeInner::Sampler { .. } => seq![Piece::Invalid],
    }
}

/// Adds the size of an array.
fn add_array_size<'a>(env: Env<'a>, parts: &mut Parts<'a>, size: &'a ArraySize)
    ensures
        final(parts)@ == old(parts)@ + array_size_pieces(env, *size),
{
    match size {
        ArraySize::Constant(constant) => match env.module.constants.try_get(*constant) {
            Some(c) => match &c.inner {
                ConstantInner::Uint(n) => parts.decimal(*n),
                _ => parts.invalid(),
            },
            None => parts.invalid(),
        },
        ArraySize::Dynamic => (),
    }
    assert(parts@ =~= old(parts)@ + array_size_pieces(env, *size));
}

/// Adds the members of a struct or an interface block.
pub fn add_members<'a>(
    env: Env<'a>,
    parts: &mut Parts<'a>,
    ty: Handle<Type>,
    members: &'a Vec<StructMember>,
)
    ensures
        final(parts)@ == old(parts)@ + member_pieces(env, ty, members@, members@.len()),
{
    assert(parts@ =~= old(parts)@ + member_pieces(env, ty, members@, 0));
    for i in 0..members.len()
        invariant
            parts@ == old(parts)@ + member_pieces(env, ty, members@, i as nat),
    {
        // The indentation is only for readability
        parts.text("\t");
        parts.ty(members[i].ty);
        // The leading space is important
        // All members must have a semicolon even the last one
        parts.text(" ");
        parts.name(env.analysis.names.get(NameKey::StructMember(ty, i as u32)));
        parts.text(";\n");
        assert(parts@ =~= old(parts)@ + member_pieces(env, ty, members@, (i + 1) as nat));
    }
}

/// The pieces of a type.
pub fn type_parts<'a>(env: Env<'a>, ty: Handle<Type>, inner: &'a TypeInner) -> (parts: Parts<'a>)
    requires
        env.module.types.has(ty),
        *inner == env.module.types.at(ty).inner,
    ensures
        parts@ == type_pieces(env, ty),
{
    let mut parts = Parts::new();
    match inner {
        TypeInner::Scalar { kind, width } => parts.push(scalar_part(*kind, *width)),
        TypeInner::Vector { size, kind, width } => {
            parts.push(prefix_part(*kind, *width));
            parts.text("vec");
            parts.decimal(size.count() as u64);
        },
        TypeInner::Matrix { columns, rows, width } => {
            parts.push(prefix_part(ScalarKind::Float, *width));
            parts.text("mat");
            parts.decimal(columns.count() as u64);
            parts.text("x");
            parts.decimal(rows.count() as u64);
        },
        TypeInner::Pointer { base, .. } => parts.ty(*base),
        TypeInner::Array { base, size, .. } => {
            parts.ty(*base);
            parts.text("[");
            add_array_size(env, &mut parts, size);
            parts.text("]");
        },
        TypeInner::Struct { block, members } => {
            parts.name(env.analysis.names.get(NameKey::Type(ty)));
            if *block {
                parts.text("_block_");
                parts.push(Part::FreshId);
                parts.text(" {\n");
                add_members(env, &mut parts, ty, members);
                parts.text("}");
            }
        },
        TypeInner::Image { .. } | TypeInner::Sampler { .. } => parts.invalid(),
    }
    parts
}

/// The parts of an image type: whether it is sampled or stored, its scalar kind, and the
/// modifiers for multisampling and depth comparison.
pub open spec fn image_class_parts(class: ImageClass) -> (Seq<char>, ScalarKind, Seq<char>, Seq<
    char,
>) {
    match class {
        ImageClass::Sampled { kind, multi } => (
            "sampler"@,
            kind,
            if multi {
                "MS"@
            } else {
                ""@
            },
            ""@,
        ),
        ImageClass::Depth => ("sampler"@, ScalarKind::Float, ""@, "Shadow"@),
        ImageClass::Storage(format) => ("image"@, format.scalar_kind(), ""@, ""@),
    }
}

/// How an image type is written: the scalar prefix, the image "type", the dimensions and the
/// modifiers, which must come in the order `MS`, `Array`, `Shadow`.
pub open spec fn image_type_pieces(dim: ImageDimension, arrayed: bool, class: ImageClass) -> Seq<
    Piece,
> {
    let (base, kind, ms, comparison) = image_class_parts(class);
    seq![
        prefix_piece(kind, 4),
        Piece::Text(base),
        Piece::Text(dimension_name(dim)),
        Piece::Text(ms),
        Piece::Text(
            if arrayed {
                "Array"@
            } else {
                ""@
            },
        ),
        Piece::Text(comparison),
    ]
}

/// Helper method to write a image type
///
/// # Notes
/// Adds no leading or trailing whitespaces
pub fn write_image_type<'a>(
    parts: &mut Parts<'a>,
    dim: ImageDimension,
    arrayed: bool,
    class: ImageClass,
)
    ensures
        final(parts)@ == old(parts)@ + image_type_pieces(dim, arrayed, class),
{
    let (base, kind, ms, comparison) = match class {
        ImageClass::Sampled { kind, multi } => (
            "sampler",
            kind,
            if multi {
                "MS"
            } else {
                ""
            },
            "",
        ),
        ImageClass::Depth => ("sampler", ScalarKind::Float, "", "Shadow"),
        ImageClass::Storage(format) => ("image", format.scalar_kind(), "", ""),
    };
    parts.push(prefix_part(kind, 4));
    parts.text(base);
    parts.text(glsl_dimension(dim));
    parts.text(ms);
    parts.text(
        if arrayed {
            "Array"
        } else {
            ""
        },
    );
    parts.text(comparison);
    assert(parts@ =~= old(parts)@ + image_type_pieces(dim, arrayed, class));
}

} // verus!
