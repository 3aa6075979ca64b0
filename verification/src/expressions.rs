//! How expressions are written.
use crate::arena::Handle;
use crate::context::{argument_name, local_key, Env, FunctionCtx};
use crate::describe::{cannot_apply_not_words, cannot_bitcast_words, cannot_index_words};
use crate::error::ErrorView;
use crate::ir::{
    Binding, Bytes, Expression, GlobalVariable, ImageClass, ImageDimension, SampleLevel, ScalarKind,
    Type, TypeInner, UnaryOperator,
};
use crate::names::NameKey;
use crate::output::{items_view, name_piece, separated, Failure, Parts, Piece};
use crate::terms::{
    binary_operator_text, built_in_name, derivative_function, glsl_binary_operator, glsl_built_in,
    glsl_derivative, glsl_math, glsl_relational, math_function, relational_function,
};
use crate::text::decimal;
use crate::types::{prefix_part, prefix_piece, scalar_part, scalar_piece};
use vstd::prelude::*;

verus! {

/// Each of `exprs` as the item of a list.
pub open spec fn expr_items(exprs: Seq<Handle<Expression>>) -> Seq<Seq<Piece>> {
    Seq::new(exprs.len(), |i: int| seq![Piece::Expr(exprs[i])])
}

/// `pieces`, then another argument if there is one.
pub open spec fn with_argument(pieces: Seq<Piece>, argument: Option<Handle<Expression>>) -> Seq<
    Piece,
> {
    match argument {
        Some(expr) => pieces.push(Piece::Text(", "@)).push(Piece::Expr(expr)),
        None => pieces,
    }
}

/// An access with a known index: `base[index]`, or `base.member` for structs.
pub open spec fn access_index_pieces(
    env: Env<'_>,
    ctx: FunctionCtx<'_>,
    base: Handle<Expression>,
    index: u32,
) -> Seq<Piece> {
    match ctx.typifier.type_of(base, env.module.types) {
        None => seq![Piece::Expr(base), Piece::Invalid],
        Some(inner) => match inner {
            TypeInner::Vector { .. } | TypeInner::Matrix { .. } | TypeInner::Array { .. } => seq![
                Piece::Expr(base),
                Piece::Text("["@),
                Piece::Text(decimal(index as nat)),
                Piece::Text("]"@),
            ],
            TypeInner::Struct { .. } => match ctx.typifier.declared_type_of(base) {
                Some(ty) => seq![
                    Piece::Expr(base),
                    Piece::Text("."@),
                    name_piece(env.analysis.names.lookup(NameKey::StructMember(ty, index))),
                ],
                None => seq![Piece::Expr(base), Piece::Invalid],
            },
            _ => seq![
                Piece::Expr(base),
                Piece::Fail(ErrorView::Custom(cannot_index_words(inner))),
            ],
        },
    }
}

/// A global variable: the glsl variable of a builtin, or the name of the global.
pub open spec fn global_pieces(env: Env<'_>, global: Handle<GlobalVariable>) -> Seq<Piece> {
    if env.module.global_variables.has(global) {
        match env.module.global_variables.at(global).binding {
            Some(Binding::BuiltIn(built_in)) => seq![Piece::Text(built_in_name(built_in))],
            _ => seq![name_piece(env.analysis.names.lookup(NameKey::GlobalVariable(global)))],
        }
    } else {
        seq![Piece::Invalid]
    }
}

/// The function that samples an image.
pub open spec fn sample_function(level: SampleLevel) -> Seq<char> {
    match level {
        SampleLevel::Auto | SampleLevel::Bias(_) => "texture"@,
        SampleLevel::Zero | SampleLevel::Exact(_) => "textureLod"@,
        SampleLevel::Gradient { .. } => "textureGrad"@,
    }
}

/// The number of components of the vector that a sample takes its coordinates from: those of the
/// coordinate, the array index and the depth reference.
pub open spec fn sample_dimension(
    coordinate: nat,
    array_index: Option<Handle<Expression>>,
    depth_ref: Option<Handle<Expression>>,
) -> nat {
    coordinate + (if array_index is Some {
        1nat
    } else {
        0
    }) + (if depth_ref is Some {
        1nat
    } else {
        0
    })
}

/// `pieces`, then the arguments that a sample level needs.
pub open spec fn with_sample_level(pieces: Seq<Piece>, level: SampleLevel) -> Seq<Piece> {
    match level {
        SampleLevel::Auto => pieces,
        SampleLevel::Zero => pieces.push(Piece::Text(", 0"@)),
        SampleLevel::Exact(expr) | SampleLevel::Bias(expr) => pieces.push(
            Piece::Text(", "@),
        ).push(Piece::Expr(expr)),
        SampleLevel::Gradient { x, y } => pieces.push(Piece::Text(", "@)).push(
            Piece::Expr(x),
        ).push(Piece::Text(", "@)).push(Piece::Expr(y)),
    }
}

/// A sample of an image: `function(image, vecN(coordinate, array_index, depth_ref), level)`.
///
/// The coordinate must be a vector.
pub open spec fn image_sample_pieces(
    env: Env<'_>,
    ctx: FunctionCtx<'_>,
    image: Handle<Expression>,
    coordinate: Handle<Expression>,
    array_index: Option<Handle<Expression>>,
    level: SampleLevel,
    depth_ref: Option<Handle<Expression>>,
) -> Seq<Piece> {
    let head = seq![
        Piece::Text(sample_function(level)),
        Piece::Text("("@),
        Piece::Expr(image),
        Piece::Text(", "@),
    ];
    match ctx.typifier.type_of(coordinate, env.module.types) {
        Some(TypeInner::Vector { size, .. }) => {
            let vector = head.push(Piece::Text("vec"@)).push(
                Piece::Text(
                    decimal(sample_dimension(size.count() as nat, array_index, depth_ref)),
                ),
            ).push(Piece::Text("("@)).push(Piece::Expr(coordinate));
            let vector = with_argument(with_argument(vector, array_index), depth_ref).push(
                Piece::Text(")"@),
            );
            with_sample_level(vector, level).push(Piece::Text(")"@))
        },
        _ => head.push(Piece::Invalid),
    }
}

/// The vector that holds the coordinates of a texel and its layer.
pub open spec fn layered_coordinate_type(dim: ImageDimension) -> Seq<char> {
    match dim {
        ImageDimension::D1 => "ivec2"@,
        ImageDimension::D2 => "ivec3"@,
        ImageDimension::D3 => "ivec4"@,
        ImageDimension::Cube => "ivec4"@,
    }
}

/// A load from an image: `texelFetch(image, coordinate, index)` for sampled images and
/// `imageLoad(image, coordinate)` for storage images. There is no function for depth images.
pub open spec fn image_load_pieces(
    env: Env<'_>,
    ctx: FunctionCtx<'_>,
    image: Handle<Expression>,
    coordinate: Handle<Expression>,
    array_index: Option<Handle<Expression>>,
    index: Option<Handle<Expression>>,
) -> Seq<Piece> {
    match ctx.typifier.type_of(image, env.module.types) {
        Some(TypeInner::Image { dim, class, .. }) => {
            if class is Depth {
                seq![Piece::Invalid]
            } else {
                let function = if class is Sampled {
                    "texelFetch"@
                } else {
                    "imageLoad"@
                };
                let head = seq![Piece::Text(function), Piece::Text("("@), Piece::Expr(image)];
                let coordinates = match array_index {
                    Some(layer) => head.push(Piece::Text(", "@)).push(
                        Piece::Text(layered_coordinate_type(dim)),
                    ).push(Piece::Text("("@)).push(Piece::Expr(coordinate)).push(
                        Piece::Text(", "@),
                    ).push(Piece::Expr(layer)).push(Piece::Text(")"@)),
                    None => head.push(Piece::Text(", "@)).push(Piece::Expr(coordinate)),
                };
                with_argument(coordinates, index).push(Piece::Text(")"@))
            }
        },
        _ => seq![Piece::Invalid],
    }
}

/// A unary operator: `(op expr)`, where `op` is `-` for negation, and for logical negation `~` on
/// integers and `!` on booleans.
pub open spec fn unary_pieces(
    env: Env<'_>,
    ctx: FunctionCtx<'_>,
    op: UnaryOperator,
    expr: Handle<Expression>,
) -> Seq<Piece> {
    let token = match op {
        UnaryOperator::Negate => Piece::Text("-"@),
        UnaryOperator::Not => match ctx.typifier.type_of(expr, env.module.types) {
            None => Piece::Invalid,
            Some(inner) => match inner {
                TypeInner::Scalar { kind: ScalarKind::Sint, .. } => Piece::Text("~"@),
                TypeInner::Scalar { kind: ScalarKind::Uint, .. } => Piece::Text("~"@),
                TypeInner::Scalar { kind: ScalarKind::Bool, .. } => Piece::Text("!"@),
                _ => Piece::Fail(ErrorView::Custom(cannot_apply_not_words(inner))),
            },
        },
    };
    if token is Text {
        seq![Piece::Text("("@), token, Piece::Text(" "@), Piece::Expr(expr), Piece::Text(")"@)]
    } else {
        seq![token]
    }
}

/// The function that reinterprets the bits of a scalar, if glsl has one.
pub open spec fn bitcast_function(source: ScalarKind, target: ScalarKind) -> Option<Seq<char>> {
    match (source, target) {
        (ScalarKind::Float, ScalarKind::Sint) => Some("floatBitsToInt"@),
        (ScalarKind::Float, ScalarKind::Uint) => Some("floatBitsToUint"@),
        (ScalarKind::Sint, ScalarKind::Float) => Some("intBitsToFloat"@),
        (ScalarKind::Uint, ScalarKind::Float) => Some("uintBitsToFloat"@),
        _ => None,
    }
}

/// The scalar kind of a scalar or a vector.
pub open spec fn source_kind(inner: TypeInner) -> Option<ScalarKind> {
    match inner {
        TypeInner::Scalar { kind, .. } => Some(kind),
        TypeInner::Vector { kind, .. } => Some(kind),
        _ => None,
    }
}

/// The width of a scalar after a conversion: a float is a double only if it comes from a scalar of
/// the same width.
pub open spec fn converted_width(kind: ScalarKind, width: Bytes) -> Bytes {
    if kind is Float && width != 8 {
        4
    } else {
        width
    }
}

/// The type that something is converted to. For a scalar or a vector that is the type of the same
/// size with another scalar kind; everything else keeps its type, which must be declared.
pub open spec fn converted_type_pieces(
    inner: TypeInner,
    declared: Option<Handle<Type>>,
    kind: ScalarKind,
) -> Seq<Piece> {
    match inner {
        TypeInner::Scalar { width, .. } => seq![scalar_piece(kind, converted_width(kind, width))],
        TypeInner::Vector { size, width, .. } => seq![
            prefix_piece(kind, converted_width(kind, width)),
            Piece::Text("vec"@),
            Piece::Text(decimal(size.count() as nat)),
        ],
        _ => match declared {
            Some(ty) => seq![Piece::Type(ty)],
            None => seq![Piece::Invalid],
        },
    }
}

/// The function that a cast calls: the type that is converted to, or a function that reinterprets
/// the bits.
pub open spec fn cast_function_pieces(
    inner: TypeInner,
    declared: Option<Handle<Type>>,
    kind: ScalarKind,
    convert: bool,
) -> Seq<Piece> {
    if convert {
        converted_type_pieces(inner, declared, kind)
    } else {
        match source_kind(inner) {
            None => seq![Piece::Invalid],
            Some(source) => match bitcast_function(source, kind) {
                Some(name) => seq![Piece::Text(name)],
                None => seq![Piece::Fail(ErrorView::Custom(cannot_bitcast_words(source, kind)))],
            },
        }
    }
}

/// A cast: `type(expr)` for a conversion, `function(expr)` for a bitcast.
pub open spec fn as_pieces(
    env: Env<'_>,
    ctx: FunctionCtx<'_>,
    expr: Handle<Expression>,
    kind: ScalarKind,
    convert: bool,
) -> Seq<Piece> {
    let function = match ctx.typifier.type_of(expr, env.module.types) {
        None => seq![Piece::Invalid],
        Some(inner) => cast_function_pieces(
            inner,
            ctx.typifier.declared_type_of(expr),
            kind,
            convert,
        ),
    };
    function + seq![Piece::Text("("@), Piece::Expr(expr), Piece::Text(")"@)]
}

/// How an expression is written.
///
/// Operators are wrapped in parentheses, to avoid precedence issues. Loads are written as the
/// pointer, since glsl has no pointers.
pub open spec fn expr_pieces(env: Env<'_>, ctx: FunctionCtx<'_>, expr: Expression) -> Seq<Piece> {
    match expr {
        Expression::Access { base, index } => seq![
            Piece::Expr(base),
            Piece::Text("["@),
            Piece::Expr(index),
            Piece::Text("]"@),
        ],
        Expression::AccessIndex { base, index } => access_index_pieces(env, ctx, base, index),
        Expression::Constant(constant) => seq![Piece::Constant(constant)],
        Expression::Compose { ty, components } => (seq![Piece::Type(ty), Piece::Text("("@)]
            + separated(expr_items(components@))).push(Piece::Text(")"@)),
        Expression::FunctionArgument(pos) => seq![
            name_piece(argument_name(ctx.func, pos, env.analysis.names)),
        ],
        Expression::GlobalVariable(global) => global_pieces(env, global),
        Expression::LocalVariable(local) => seq![
            name_piece(env.analysis.names.lookup(local_key(ctx.func, local))),
        ],
        Expression::Load { pointer } => seq![Piece::Expr(pointer)],
        Expression::ImageSample { image, coordinate, array_index, level, depth_ref, .. } =>
            image_sample_pieces(env, ctx, image, coordinate, array_index, level, depth_ref),
        Expression::ImageLoad { image, coordinate, array_index, index } => image_load_pieces(
            env,
            ctx,
            image,
            coordinate,
            array_index,
            index,
        ),
        Expression::Unary { op, expr } => unary_pieces(env, ctx, op, expr),
        Expression::Binary { op, left, right } => seq![
            Piece::Text("("@),
            Piece::Expr(left),
            Piece::Text(" "@),
            Piece::Text(binary_operator_text(op)),
            Piece::Text(" "@),
            Piece::Expr(right),
            Piece::Text(")"@),
        ],
        Expression::Select { condition, accept, reject } => seq![
            Piece::Text("("@),
            Piece::Expr(condition),
            Piece::Text(" ? "@),
            Piece::Expr(accept),
            Piece::Text(" : "@),
            Piece::Expr(reject),
            Piece::Text(")"@),
        ],
        Expression::Derivative { axis, expr } => seq![
            Piece::Text(derivative_function(axis)),
            Piece::Text("("@),
            Piece::Expr(expr),
            Piece::Text(")"@),
        ],
        Expression::Relational { fun, argument } => seq![
            Piece::Text(relational_function(fun)),
            Piece::Text("("@),
            Piece::Expr(argument),
            Piece::Text(")"@),
        ],
        Expression::Math { fun, arg, arg1, arg2 } => with_argument(
            with_argument(
                seq![Piece::Text(math_function(fun)), Piece::Text("("@), Piece::Expr(arg)],
                arg1,
            ),
            arg2,
        ).push(Piece::Text(")"@)),
        Expression::As { expr, kind, convert } => as_pieces(env, ctx, expr, kind, convert),
        Expression::Call { function, arguments } => (seq![
            name_piece(env.analysis.names.lookup(NameKey::Function(function))),
            Piece::Text("("@),
        ] + separated(expr_items(arguments@))).push(Piece::Text(")"@)),
        Expression::ArrayLength(expr) => seq![
            Piece::Text("uint("@),
            Piece::Expr(expr),
            Piece::Text(".length())"@),
        ],
    }
}

/// Adds a comma separated list of expressions.
fn add_exprs<'a>(parts: &mut Parts<'a>, exprs: &Vec<Handle<Expression>>)
    ensures
        final(parts)@ == old(parts)@ + separated(expr_items(exprs@)),
{
    let mut items: Vec<Parts<'a>> = Vec::new();
    for i in 0..exprs.len()
        invariant
            items@.len() == i,
            forall|j: int| 0 <= j < i ==> (#[trigger] items@[j])@ == seq![Piece::Expr(exprs@[j])],
    {
        let mut item = Parts::new();
        item.expr(exprs[i]);
        items.push(item);
    }
    assert(items_view(items@) =~= expr_items(exprs@));
    parts.write_slice(&items);
}

/// Adds another argument if there is one.
fn add_argument<'a>(parts: &mut Parts<'a>, argument: &Option<Handle<Expression>>)
    ensures
        final(parts)@ == with_argument(old(parts)@, *argument),
{
    match argument {
        Some(expr) => {
            parts.text(", ");
            parts.expr(*expr);
        },
        None => (),
    }
}

/// The pieces of an access with a known index.
fn access_index_parts<'a>(
    env: Env<'a>,
    ctx: FunctionCtx<'a>,
    base: Handle<Expression>,
    index: u32,
) -> (parts: Parts<'a>)
    ensures
        parts@ == access_index_pieces(env, ctx, base, index),
{
    let mut parts = Parts::new();
    parts.expr(base);
    match ctx.typifier.get(base, &env.module.types) {
        None => parts.invalid(),
        Some(inner) => match inner {
            TypeInner::Vector { .. } | TypeInner::Matrix { .. } | TypeInner::Array { .. } => {
                parts.text("[");
                parts.decimal(index as u64);
                parts.text("]");
            },
            TypeInner::Struct { .. } => match ctx.typifier.get_handle(base) {
                Some(ty) => {
                    parts.text(".");
                    parts.name(env.analysis.names.get(NameKey::StructMember(ty, index)));
                },
                None => parts.invalid(),
            },
            _ => parts.fail(Failure::CannotIndex(inner)),
        },
    }
    parts
}

/// The pieces of a global variable.
fn global_parts<'a>(env: Env<'a>, global: Handle<GlobalVariable>) -> (parts: Parts<'a>)
    ensures
        parts@ == global_pieces(env, global),
{
    let mut parts = Parts::new();
    match env.module.global_variables.try_get(global) {
        Some(variable) => match variable.binding {
            Some(Binding::BuiltIn(built_in)) => parts.text(glsl_built_in(built_in)),
            _ => parts.name(env.analysis.names.get(NameKey::GlobalVariable(global))),
        },
        None => parts.invalid(),
    }
    parts
}

/// Adds the arguments that a sample level needs.
fn add_sample_level<'a>(parts: &mut Parts<'a>, level: &SampleLevel)
    ensures
        final(parts)@ == with_sample_level(old(parts)@, *level),
{
    match level {
        // Auto needs no more arguments
        SampleLevel::Auto => (),
        // Zero needs level set to 0
        SampleLevel::Zero => parts.text(", 0"),
        // Exact and bias require another argument
        SampleLevel::Exact(expr) | SampleLevel::Bias(expr) => {
            parts.text(", ");
            parts.expr(*expr);
        },
        SampleLevel::Gradient { x, y } => {
            parts.text(", ");
            parts.expr(*x);
            parts.text(", ");
            parts.expr(*y);
        },
    }
}

/// The pieces of a sample of an image.
fn image_sample_parts<'a>(
    env: Env<'a>,
    ctx: FunctionCtx<'a>,
    image: Handle<Expression>,
    coordinate: Handle<Expression>,
    array_index: &Option<Handle<Expression>>,
    level: &SampleLevel,
    depth_ref: &Option<Handle<Expression>>,
) -> (parts: Parts<'a>)
    ensures
        parts@ == image_sample_pieces(
            env,
            ctx,
            image,
            coordinate,
            *array_index,
            *level,
            *depth_ref,
        ),
{
    let mut parts = Parts::new();
    // The function to be used depends on the sample level
    parts.text(
        match level {
            SampleLevel::Auto | SampleLevel::Bias(_) => "texture",
            SampleLevel::Zero | SampleLevel::Exact(_) => "textureLod",
            SampleLevel::Gradient { .. } => "textureGrad",
        },
    );
    parts.text("(");
    parts.expr(image);
    parts.text(", ");
    match ctx.typifier.get(coordinate, &env.module.types) {
        Some(TypeInner::Vector { size, .. }) => {
            let mut coord_dim: u8 = size.count();
            if array_index.is_some() {
                coord_dim = coord_dim + 1;
            }
            if depth_ref.is_some() {
                coord_dim = coord_dim + 1;
            }
            // Compose a new texture coordinates vector
            parts.text("vec");
            parts.decimal(coord_dim as u64);
            parts.text("(");
            parts.expr(coordinate);
            add_argument(&mut parts, array_index);
            add_argument(&mut parts, depth_ref);
            parts.text(")");
            add_sample_level(&mut parts, level);
            // End the function
            parts.text(")");
        },
        _ => parts.invalid(),
    }
    parts
}

/// The pieces of a load from an image.
fn image_load_parts<'a>(
    env: Env<'a>,
    ctx: FunctionCtx<'a>,
    image: Handle<Expression>,
    coordinate: Handle<Expression>,
    array_index: &Option<Handle<Expression>>,
    index: &Option<Handle<Expression>>,
) -> (parts: Parts<'a>)
    ensures
        parts@ == image_load_pieces(env, ctx, image, coordinate, *array_index, *index),
{
    let mut parts = Parts::new();
    match ctx.typifier.get(image, &env.module.types) {
        Some(TypeInner::Image { dim, class, .. }) => {
            let function = match class {
                ImageClass::Sampled { .. } => "texelFetch",
                ImageClass::Storage(_) => "imageLoad",
                ImageClass::Depth => {
                    parts.invalid();
                    return parts;
                },
            };
            parts.text(function);
            parts.text("(");
            parts.expr(image);
            match array_index {
                Some(layer) => {
                    parts.text(", ");
                    parts.text(
                        match dim {
                            ImageDimension::D1 => "ivec2",
                            ImageDimension::D2 => "ivec3",
                            ImageDimension::D3 => "ivec4",
                            ImageDimension::Cube => "ivec4",
                        },
                    );
                    parts.text("(");
                    parts.expr(coordinate);
                    parts.text(", ");
                    parts.expr(*layer);
                    parts.text(")");
                },
                None => {
                    parts.text(", ");
                    parts.expr(coordinate);
                },
            }
            add_argument(&mut parts, index);
            parts.text(")");
        },
        _ => parts.invalid(),
    }
    parts
}

/// The pieces of a unary operator.
fn unary_parts<'a>(
    env: Env<'a>,
    ctx: FunctionCtx<'a>,
    op: UnaryOperator,
    expr: Handle<Expression>,
) -> (parts: Parts<'a>)
    ensures
        parts@ == unary_pieces(env, ctx, op, expr),
{
    let mut parts = Parts::new();
    let token = match op {
        UnaryOperator::Negate => "-",
        UnaryOperator::Not => match ctx.typifier.get(expr, &env.module.types) {
            None => {
                parts.invalid();
                return parts;
            },
            Some(inner) => match inner {
                TypeInner::Scalar { kind: ScalarKind::Sint, .. } => "~",
                TypeInner::Scalar { kind: ScalarKind::Uint, .. } => "~",
                TypeInner::Scalar { kind: ScalarKind::Bool, .. } => "!",
                _ => {
                    parts.fail(Failure::CannotApplyNot(inner));
                    return parts;
                },
            },
        },
    };
    parts.text("(");
    parts.text(token);
    parts.text(" ");
    parts.expr(expr);
    parts.text(")");
    parts
}

/// The function that reinterprets the bits of a scalar, if glsl has one.
fn glsl_bitcast(source: ScalarKind, target: ScalarKind) -> (function: Option<&'static str>)
    ensures
        match function {
            Some(name) => bitcast_function(source, target) == Some(name@),
            None => bitcast_function(source, target) is None,
        },
{
    match (source, target) {
        (ScalarKind::Float, ScalarKind::Sint) => Some("floatBitsToInt"),
        (ScalarKind::Float, ScalarKind::Uint) => Some("floatBitsToUint"),
        (ScalarKind::Sint, ScalarKind::Float) => Some("intBitsToFloat"),
        (ScalarKind::Uint, ScalarKind::Float) => Some("uintBitsToFloat"),
        _ => None,
    }
}

/// The width of a scalar after a conversion.
fn width_after(kind: ScalarKind, width: Bytes) -> (after: Bytes)
    ensures
        after == converted_width(kind, width),
{
    match kind {
        ScalarKind::Float => {
            if width == 8 {
                8
            } else {
                4
            }
        },
        _ => width,
    }
}

/// Adds the function that a cast calls.
fn add_cast_function<'a>(
    parts: &mut Parts<'a>,
    inner: &TypeInner,
    declared: Option<Handle<Type>>,
    kind: ScalarKind,
    convert: bool,
)
    ensures
        final(parts)@ == old(parts)@ + cast_function_pieces(*inner, declared, kind, convert),
{
    if convert {
        // The function name is the type that is converted to
        match inner {
            TypeInner::Scalar { width, .. } => {
                parts.push(scalar_part(kind, width_after(kind, *width)));
            },
            TypeInner::Vector { size, width, .. } => {
                parts.push(prefix_part(kind, width_after(kind, *width)));
                parts.text("vec");
                parts.decimal(size.count() as u64);
            },
            _ => match declared {
                Some(ty) => parts.ty(ty),
                None => parts.invalid(),
            },
        }
    } else {
        // The function name is one of the glsl provided bitcast functions
        match inner {
            TypeInner::Scalar { kind: source, .. } | TypeInner::Vector { kind: source, .. } => {
                match glsl_bitcast(*source, kind) {
                    Some(name) => parts.text(name),
                    None => parts.fail(Failure::CannotBitcast(*source, kind)),
                }
            },
            _ => parts.invalid(),
        }
    }
    assert(parts@ =~= old(parts)@ + cast_function_pieces(*inner, declared, kind, convert));
}

/// The pieces of a cast.
fn as_parts<'a>(
    env: Env<'a>,
    ctx: FunctionCtx<'a>,
    expr: Handle<Expression>,
    kind: ScalarKind,
    convert: bool,
) -> (parts: Parts<'a>)
    ensures
        parts@ == as_pieces(env, ctx, expr, kind, convert),
{
    let mut parts = Parts::new();
    match ctx.typifier.get(expr, &env.module.types) {
        None => parts.invalid(),
        Some(inner) => {
            let declared = ctx.typifier.get_handle(expr);
            add_cast_function(&mut parts, inner, declared, kind, convert);
        },
    }
    let ghost function = parts@;
    parts.text("(");
    parts.expr(expr);
    parts.text(")");
    assert(parts@ =~= function + seq![Piece::Text("("@), Piece::Expr(expr), Piece::Text(")"@)]);
    parts
}

/// The pieces of an expression.
pub fn expr_parts<'a>(env: Env<'a>, ctx: FunctionCtx<'a>, expr: &'a Expression) -> (parts: Parts<
    'a,
>)
    ensures
        parts@ == expr_pieces(env, ctx, *expr),
{
    let mut parts = Parts::new();
    match expr {
        // `Access` is applied to arrays, vectors and matrices and is written as indexing
        Expression::Access { base, index } => {
            parts.expr(*base);
            parts.text("[");
            parts.expr(*index);
            parts.text("]");
        },
        // `AccessIndex` is the same as `Access` except that the index is a constant and it can
        // be applied to structs
        Expression::AccessIndex { base, index } => {
            return access_index_parts(env, ctx, *base, *index);
        },
        Expression::Constant(constant) => parts.constant(*constant),
        // `type(components)` where `components` is a comma separated list of expressions
        Expression::Compose { ty, components } => {
            parts.ty(*ty);
            parts.text("(");
            add_exprs(&mut parts, components);
            parts.text(")");
        },
        // Function arguments are written as the argument name
        Expression::FunctionArgument(pos) => {
            parts.name(ctx.get_arg(*pos, &env.analysis.names));
        },
        Expression::GlobalVariable(global) => {
            return global_parts(env, *global);
        },
        // A local is written as it's name
        Expression::LocalVariable(local) => {
            parts.name(env.analysis.names.get(ctx.name_key(*local)));
        },
        // glsl has no pointers so there's no load operation, just write the pointer expression
        Expression::Load { pointer } => parts.expr(*pointer),
        Expression::ImageSample { image, coordinate, array_index, level, depth_ref, .. } => {
            return image_sample_parts(
                env,
                ctx,
                *image,
                *coordinate,
                array_index,
                level,
                depth_ref,
            );
        },
        Expression::ImageLoad { image, coordinate, array_index, index } => {
            return image_load_parts(env, ctx, *image, *coordinate, array_index, index);
        },
        Expression::Unary { op, expr } => {
            return unary_parts(env, ctx, *op, *expr);
        },
        // `left op right`
        Expression::Binary { op, left, right } => {
            parts.text("(");
            parts.expr(*left);
            parts.text(" ");
            parts.text(glsl_binary_operator(*op));
            parts.text(" ");
            parts.expr(*right);
            parts.text(")");
        },
        // `condition ? accept : reject`
        Expression::Select { condition, accept, reject } => {
            parts.text("(");
            parts.expr(*condition);
            parts.text(" ? ");
            parts.expr(*accept);
            parts.text(" : ");
            parts.expr(*reject);
            parts.text(")");
        },
        // `Derivative` is a function call to a glsl provided function
        Expression::Derivative { axis, expr } => {
            parts.text(glsl_derivative(*axis));
            parts.text("(");
            parts.expr(*expr);
            parts.text(")");
        },
        // `Relational` is a normal function call to some glsl provided functions
        Expression::Relational { fun, argument } => {
            parts.text(glsl_relational(*fun));
            parts.text("(");
            parts.expr(*argument);
            parts.text(")");
        },
        Expression::Math { fun, arg, arg1, arg2 } => {
            parts.text(glsl_math(*fun));
            parts.text("(");
            parts.expr(*arg);
            add_argument(&mut parts, arg1);
            add_argument(&mut parts, arg2);
            parts.text(")");
        },
        Expression::As { expr, kind, convert } => {
            return as_parts(env, ctx, *expr, *kind, *convert);
        },
        // `name(arguments)` where `arguments` is a comma separated expressions list
        Expression::Call { function, arguments } => {
            parts.name(env.analysis.names.get(NameKey::Function(*function)));
            parts.text("(");
            add_exprs(&mut parts, arguments);
            parts.text(")");
        },
        // `expr.length()`, converted to a uint
        Expression::ArrayLength(expr) => {
            parts.text("uint(");
            parts.expr(*expr);
            parts.text(".length())");
        },
    }
    parts
}

} // verus!
