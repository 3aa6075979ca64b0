//! How the output grows: nothing that has been written changes any more, and types, constants and
//! expressions are written without stray whitespace and on one line.
use crate::arena::{handle_at, Handle};
use crate::constants::{constant_items, constant_pieces};
use crate::context::{Env, FunctionCtx, FunctionType};
use crate::declarations::{
    declaration_pieces, global_declaration_pieces, struct_pieces, version_pieces,
};
use crate::expressions::{converted_width, expr_items, expr_pieces, sample_dimension};
use crate::functions::{function_head_pieces, function_output, typing_of};
use crate::graph::{graph_edges, graph_nodes, toposort};
use crate::ir::{
    ArraySize, BinaryOperator, Binding, BuiltIn, Bytes, Constant, ConstantInner, DerivativeAxis,
    Expression, Function, GlobalVariable, ImageClass, ImageDimension, MathFunction,
    RelationalFunction, ScalarKind, Statement, StructMember, SwitchCase, Type, TypeInner,
};
use crate::names::{NameKey, Names};
use crate::output::{separated, Output, Piece};
use crate::render::{
    constant_output, expr_output, full_depth, piece_output, pieces_output, render, type_output,
    Depth,
};
use crate::statements::{
    block_output, cases_output, max_indent, render_changes_nothing_after_a_stop, stmt_output,
};
use crate::terms::{
    binary_operator_text, built_in_name, derivative_function, dimension_name, math_function,
    relational_function, scalar_name, scalar_prefix,
};
use crate::text::{decimal, decimal_has_only_digits, signed_decimal, tabs};
use crate::types::{array_size_pieces, image_class_parts, image_type_pieces, type_pieces};
use crate::writer::{
    function_changes_nothing_after_a_stop, functions_output, node_output, Writer,
};
use vstd::prelude::*;

verus! {

/// Whether a character is whitespace.
pub open spec fn is_space(c: char) -> bool {
    c == ' ' || c == '\t' || c == '\n' || c == '\r'
}

/// Whether a text neither starts nor ends with whitespace.
pub open spec fn is_tidy(s: Seq<char>) -> bool {
    s.len() > 0 && !is_space(s[0]) && !is_space(s[s.len() - 1])
}

/// Whether a text has no newline.
pub open spec fn is_flat(s: Seq<char>) -> bool {
    forall|i: int| 0 <= i < s.len() ==> #[trigger] s[i] != '\n'
}

/// Whether `after` has everything that `before` has, at the start.
pub open spec fn grown(before: Output, after: Output) -> bool {
    &&& before.text.len() <= after.text.len()
    &&& forall|i: int| 0 <= i < before.text.len() ==> #[trigger] after.text[i] == before.text[i]
    &&& before.next_id <= after.next_id
}

/// What `after` has on top of `before`.
pub open spec fn appended(before: Output, after: Output) -> Seq<char> {
    after.text.skip(before.text.len() as int)
}

/// Whether no name has whitespace at its ends.
pub open spec fn names_are_tidy(names: Names) -> bool {
    forall|key: NameKey| (#[trigger] names.lookup(key)) matches Some(name) ==> is_tidy(name)
}

/// Whether no name has a newline.
pub open spec fn names_are_flat(names: Names) -> bool {
    forall|key: NameKey| (#[trigger] names.lookup(key)) matches Some(name) ==> is_flat(name)
}

/// Whether neither names nor literals have whitespace at their ends.
pub open spec fn words_are_tidy(env: Env<'_>) -> bool {
    &&& names_are_tidy(env.analysis.names)
    &&& forall|i: int|
        0 <= i < env.module.constants@.len() ==> (
        #[trigger] env.module.constants@[i].inner matches ConstantInner::Float(literal) ==> is_tidy(
            literal@,
        ))
}

/// Whether neither names nor literals have a newline.
pub open spec fn words_are_flat(env: Env<'_>) -> bool {
    &&& names_are_flat(env.analysis.names)
    &&& forall|i: int|
        0 <= i < env.module.constants@.len() ==> (
        #[trigger] env.module.constants@[i].inner matches ConstantInner::Float(literal) ==> is_flat(
            literal@,
        ))
}

/// Whether everything from `before` to `after` has been written, and no interface block is part of
/// it: each of them takes a number.
pub open spec fn written_without_blocks(before: Output, after: Output) -> bool {
    after.status is Running && after.next_id == before.next_id
}

/// Whether `after` has grown from `before` by a text without whitespace at its ends, if the words
/// have none, and without newlines, if the words have none and no interface block is written.
pub open spec fn neatly_grown(env: Env<'_>, before: Output, after: Output) -> bool {
    &&& grown(before, after)
    &&& after.status is Running && words_are_tidy(env) ==> is_tidy(appended(before, after))
    &&& written_without_blocks(before, after) && words_are_flat(env) ==> is_flat(
        appended(before, after),
    )
}

/// Whether a piece isn't a text, or is a text without whitespace at its ends.
pub open spec fn solid_piece(piece: Piece) -> bool {
    match piece {
        Piece::Text(s) => is_tidy(s),
        _ => true,
    }
}

/// Whether a piece is the empty text.
pub open spec fn empty_piece(piece: Piece) -> bool {
    match piece {
        Piece::Text(s) => s.len() == 0,
        _ => false,
    }
}

/// Whether a piece isn't a text, or is a text without newlines.
pub open spec fn flat_piece(piece: Piece) -> bool {
    match piece {
        Piece::Text(s) => is_flat(s),
        _ => true,
    }
}

/// Whether all pieces are on one line.
pub open spec fn flat_pieces(pieces: Seq<Piece>) -> bool {
    forall|i: int| 0 <= i < pieces.len() ==> flat_piece(#[trigger] pieces[i])
}

/// Whether one of the first `count` pieces is the number of an interface block.
pub open spec fn has_number(pieces: Seq<Piece>, count: nat) -> bool {
    exists|i: int| 0 <= i < count && i < pieces.len() && #[trigger] pieces[i] is FreshId
}

/// Whether the pieces up to `first` and from `last` on are empty, and those two are solid.
pub open spec fn solid_ends(pieces: Seq<Piece>, first: int, last: int) -> bool {
    &&& 0 <= first < pieces.len()
    &&& 0 <= last < pieces.len()
    &&& solid_piece(pieces[first])
    &&& solid_piece(pieces[last])
    &&& forall|i: int| 0 <= i < first ==> empty_piece(#[trigger] pieces[i])
    &&& forall|i: int| last < i < pieces.len() ==> empty_piece(#[trigger] pieces[i])
}

/// What comes after a growth after a growth has grown from the start.
proof fn growth_is_transitive(a: Output, b: Output, c: Output)
    requires
        grown(a, b),
        grown(b, c),
    ensures
        grown(a, c),
        appended(a, c) == appended(a, b) + appended(b, c),
{
    assert forall|i: int| 0 <= i < a.text.len() implies #[trigger] c.text[i] == a.text[i] by {
        assert(c.text[i] == b.text[i]);
        assert(b.text[i] == a.text[i]);
    }
    assert(appended(a, c) =~= appended(a, b) + appended(b, c)) by {
        assert forall|i: int| 0 <= i < appended(a, c).len() implies appended(a, c)[i] == (appended(
            a,
            b,
        ) + appended(b, c))[i] by {
            if i < appended(a, b).len() {
                assert(c.text[i + a.text.len()] == b.text[i + a.text.len()]);
            }
        }
    }
}

/// Every numeral is tidy and on one line.
proof fn decimal_is_neat(n: nat)
    ensures
        is_tidy(decimal(n)),
        is_flat(decimal(n)),
{
    decimal_has_only_digits(n);
    assert('0' <= decimal(n)[0] <= '9');
    assert('0' <= decimal(n)[decimal(n).len() - 1] <= '9');
}

/// Every signed numeral is tidy and on one line.
proof fn signed_decimal_is_neat(n: int)
    ensures
        is_tidy(signed_decimal(n)),
        is_flat(signed_decimal(n)),
{
    if n < 0 {
        reveal_strlit("-");
        decimal_is_neat((-n) as nat);
        let s = signed_decimal(n);
        assert forall|i: int| 0 <= i < s.len() implies #[trigger] s[i] != '\n' by {
            if i > 0 {
                assert(s[i] == decimal((-n) as nat)[i - 1]);
            }
        }
    } else {
        decimal_is_neat(n as nat);
    }
}

/// The name of a builtin is tidy and on one line.
proof fn built_in_names_are_neat(built_in: BuiltIn)
    ensures
        is_tidy(built_in_name(built_in)),
        is_flat(built_in_name(built_in)),
{
    reveal_strlit("gl_Position");
    reveal_strlit("gl_GlobalInvocationID");
    reveal_strlit("gl_BaseInstance");
    reveal_strlit("gl_BaseVertex");
    reveal_strlit("gl_ClipDistance");
    reveal_strlit("gl_InstanceIndex");
    reveal_strlit("gl_VertexIndex");
    reveal_strlit("gl_PointSize");
    reveal_strlit("gl_FragCoord");
    reveal_strlit("gl_FrontFacing");
    reveal_strlit("gl_SampleID");
    reveal_strlit("gl_FragDepth");
    reveal_strlit("gl_LocalInvocationID");
    reveal_strlit("gl_LocalInvocationIndex");
    reveal_strlit("gl_WorkGroupID");
    reveal_strlit("gl_WorkGroupSize");
}

/// The name of a dimension is tidy and on one line.
proof fn dimension_names_are_neat(dim: ImageDimension)
    ensures
        is_tidy(dimension_name(dim)),
        is_flat(dimension_name(dim)),
{
    reveal_strlit("1D");
    reveal_strlit("2D");
    reveal_strlit("3D");
    reveal_strlit("Cube");
}

/// A binary operator is tidy and on one line.
proof fn binary_operators_are_neat(op: BinaryOperator)
    ensures
        is_tidy(binary_operator_text(op)),
        is_flat(binary_operator_text(op)),
{
    reveal_strlit("+");
    reveal_strlit("-");
    reveal_strlit("*");
    reveal_strlit("/");
    reveal_strlit("%");
    reveal_strlit("==");
    reveal_strlit("!=");
    reveal_strlit("<");
    reveal_strlit("<=");
    reveal_strlit(">");
    reveal_strlit(">=");
    reveal_strlit("&");
    reveal_strlit("^");
    reveal_strlit("|");
    reveal_strlit("&&");
    reveal_strlit("||");
    reveal_strlit("<<");
    reveal_strlit(">>");
}

/// The name of a derivative is tidy and on one line.
proof fn derivative_functions_are_neat(axis: DerivativeAxis)
    ensures
        is_tidy(derivative_function(axis)),
        is_flat(derivative_function(axis)),
{
    reveal_strlit("dFdx");
    reveal_strlit("dFdy");
    reveal_strlit("fwidth");
}

/// The name of a relational function is tidy and on one line.
proof fn relational_functions_are_neat(fun: RelationalFunction)
    ensures
        is_tidy(relational_function(fun)),
        is_flat(relational_function(fun)),
{
    reveal_strlit("!isinf");
    reveal_strlit("isinf");
    reveal_strlit("isnan");
    reveal_strlit("!isnan");
    reveal_strlit("all");
    reveal_strlit("any");
}

/// The name of a math function is tidy and on one line.
proof fn math_functions_are_neat(fun: MathFunction)
    ensures
        is_tidy(math_function(fun)),
        is_flat(math_function(fun)),
{
    reveal_strlit("abs");
    reveal_strlit("min");
    reveal_strlit("max");
    reveal_strlit("clamp");
    reveal_strlit("cos");
    reveal_strlit("cosh");
    reveal_strlit("sin");
    reveal_strlit("sinh");
    reveal_strlit("tan");
    reveal_strlit("tanh");
    reveal_strlit("acos");
    reveal_strlit("asin");
    reveal_strlit("atan");
    reveal_strlit("atan2");
    reveal_strlit("ceil");
    reveal_strlit("floor");
    reveal_strlit("round");
    reveal_strlit("fract");
    reveal_strlit("trunc");
    reveal_strlit("modf");
    reveal_strlit("frexp");
    reveal_strlit("ldexp");
    reveal_strlit("exp");
    reveal_strlit("exp2");
    reveal_strlit("log");
    reveal_strlit("log2");
    reveal_strlit("pow");
    reveal_strlit("dot");
    reveal_strlit("outerProduct");
    reveal_strlit("cross");
    reveal_strlit("distance");
    reveal_strlit("length");
    reveal_strlit("normalize");
    reveal_strlit("faceforward");
    reveal_strlit("reflect");
    reveal_strlit("sign");
    reveal_strlit("fma");
    reveal_strlit("mix");
    reveal_strlit("step");
    reveal_strlit("smoothstep");
    reveal_strlit("sqrt");
    reveal_strlit("inversesqrt");
    reveal_strlit("transpose");
    reveal_strlit("determinant");
    reveal_strlit("bitCount");
    reveal_strlit("bitfieldReverse");
}

/// The kinds of scalar have tidy names and prefixes without spaces, all on one line.
proof fn scalar_words_are_neat(kind: ScalarKind, width: Bytes)
    ensures
        is_tidy(scalar_name(kind, width)),
        is_flat(scalar_name(kind, width)),
        scalar_prefix(kind, width).len() == 0 || is_tidy(scalar_prefix(kind, width)),
        is_flat(scalar_prefix(kind, width)),
{
    reveal_strlit("i");
    reveal_strlit("u");
    reveal_strlit("d");
    reveal_strlit("");
    reveal_strlit("b");
    reveal_strlit("int");
    reveal_strlit("uint");
    reveal_strlit("double");
    reveal_strlit("float");
    reveal_strlit("bool");
}

/// The pieces of a list have no newline if its items have none.
proof fn separated_is_flat(items: Seq<Seq<Piece>>)
    requires
        forall|i: int| 0 <= i < items.len() ==> flat_pieces(#[trigger] items[i]),
    ensures
        flat_pieces(separated(items)),
    decreases items.len(),
{
    reveal_strlit(", ");
    if items.len() >= 2 {
        separated_is_flat(items.drop_last());
        let before = separated(items.drop_last());
        let last = items.last();
        assert(flat_pieces(last));
        let whole = separated(items);
        assert forall|i: int| 0 <= i < whole.len() implies flat_piece(#[trigger] whole[i]) by {
            if i < before.len() {
                assert(whole[i] == before[i]);
            } else if i > before.len() {
                assert(whole[i] == last[i - before.len() - 1]);
            }
        }
    }
}

/// Where the pieces of a type are solid at the ends, and that they are on one line.
proof fn type_pieces_are_neat(env: Env<'_>, ty: Handle<Type>) -> (ends: (int, int))
    requires
        env.module.types.has(ty),
    ensures
        words_are_tidy(env) ==> solid_ends(type_pieces(env, ty), ends.0, ends.1),
        words_are_flat(env) ==> flat_pieces(type_pieces(env, ty)) || has_number(
            type_pieces(env, ty),
            type_pieces(env, ty).len(),
        ),
{
    let pieces = type_pieces(env, ty);
    reveal_strlit("vec");
    reveal_strlit("mat");
    reveal_strlit("x");
    reveal_strlit("[");
    reveal_strlit("]");
    reveal_strlit("}");
    match env.module.types.at(ty).inner {
        TypeInner::Scalar { kind, width } => {
            scalar_words_are_neat(kind, width);
            (0, 0)
        },
        TypeInner::Vector { size, kind, width } => {
            scalar_words_are_neat(kind, width);
            decimal_is_neat(size.count() as nat);
            (
                if empty_piece(pieces[0]) {
                    1
                } else {
                    0
                },
                2,
            )
        },
        TypeInner::Matrix { columns, rows, width } => {
            scalar_words_are_neat(ScalarKind::Float, width);
            decimal_is_neat(columns.count() as nat);
            decimal_is_neat(rows.count() as nat);
            (
                if empty_piece(pieces[0]) {
                    1
                } else {
                    0
                },
                4,
            )
        },
        TypeInner::Pointer { .. } => (0, 0),
        TypeInner::Array { size, .. } => {
            let inner = array_size_pieces(env, size);
            assert(flat_pieces(inner)) by {
                if let ArraySize::Constant(constant) = size {
                    if let ConstantInner::Uint(n) = env.module.constants.at(constant).inner {
                        decimal_is_neat(n as nat);
                    }
                }
            }
            assert forall|i: int| 0 <= i < pieces.len() implies flat_piece(
                #[trigger] pieces[i],
            ) by {
                if 2 <= i < pieces.len() - 1 {
                    assert(pieces[i] == inner[i - 2]);
                }
            }
            (0, pieces.len() - 1)
        },
        TypeInner::Struct { block, .. } => {
            let name = env.analysis.names.lookup(NameKey::Type(ty));
            if block {
                assert(pieces[2] is FreshId);
            }
            (0, pieces.len() - 1)
        },
        TypeInner::Image { .. } | TypeInner::Sampler { .. } => (0, 0),
    }
}

/// Where the pieces of a constant are solid at the ends, and that they are on one line.
proof fn constant_pieces_are_neat(env: Env<'_>, constant: Handle<Constant>) -> (ends: (int, int))
    requires
        env.module.constants.has(constant),
    ensures
        words_are_tidy(env) ==> solid_ends(
            constant_pieces(env.module.constants.at(constant)),
            ends.0,
            ends.1,
        ),
        words_are_flat(env) ==> flat_pieces(constant_pieces(env.module.constants.at(constant))),
{
    let c = env.module.constants.at(constant);
    assert(c.inner == env.module.constants@[constant.index as int].inner);
    let pieces = constant_pieces(c);
    reveal_strlit("u");
    reveal_strlit("(");
    reveal_strlit(")");
    reveal_strlit("true");
    reveal_strlit("false");
    match c.inner {
        ConstantInner::Sint(n) => {
            signed_decimal_is_neat(n as int);
            (0, 0)
        },
        ConstantInner::Uint(n) => {
            decimal_is_neat(n as nat);
            (0, 1)
        },
        ConstantInner::Float(_) => (0, 0),
        ConstantInner::Bool(_) => (0, 0),
        ConstantInner::Composite(components) => {
            let items = constant_items(components@);
            separated_is_flat(items);
            let list = separated(items);
            assert forall|i: int| 0 <= i < pieces.len() implies flat_piece(
                #[trigger] pieces[i],
            ) by {
                if 2 <= i < pieces.len() - 1 {
                    assert(pieces[i] == list[i - 2]);
                }
            }
            (0, pieces.len() - 1)
        },
    }
}

/// Where the pieces of an expression are solid at the ends, and that they are on one line.
#[verifier::rlimit(60)]
proof fn expr_pieces_are_neat(env: Env<'_>, ctx: FunctionCtx<'_>, expr: Expression) -> (ends: (
    int,
    int,
))
    ensures
        words_are_tidy(env) ==> solid_ends(expr_pieces(env, ctx, expr), ends.0, ends.1),
        words_are_flat(env) ==> flat_pieces(expr_pieces(env, ctx, expr)),
{
    let pieces = expr_pieces(env, ctx, expr);
    reveal_strlit("(");
    reveal_strlit(")");
    reveal_strlit("[");
    reveal_strlit("]");
    reveal_strlit(".");
    reveal_strlit(", ");
    reveal_strlit(" ");
    match expr {
        Expression::AccessIndex { index, .. } => {
            decimal_is_neat(index as nat);
        },
        Expression::Compose { components, .. } => {
            let items = expr_items(components@);
            separated_is_flat(items);
            let list = separated(items);
            assert forall|i: int| 0 <= i < pieces.len() implies flat_piece(
                #[trigger] pieces[i],
            ) by {
                if 2 <= i < pieces.len() - 1 {
                    assert(pieces[i] == list[i - 2]);
                }
            }
        },
        Expression::FunctionArgument(pos) => {
            if let FunctionType::Function(function) = ctx.func {
                let name = env.analysis.names.lookup(NameKey::FunctionArgument(function, pos));
            }
        },
        Expression::GlobalVariable(global) => {
            if let Some(Binding::BuiltIn(built_in)) = env.module.global_variables.at(
                global,
            ).binding {
                built_in_names_are_neat(built_in);
            }
        },
        Expression::ImageSample { coordinate, array_index, level, depth_ref, .. } => {
            reveal_strlit("texture");
            reveal_strlit("textureLod");
            reveal_strlit("textureGrad");
            reveal_strlit("vec");
            reveal_strlit(", 0");
            if let Some(TypeInner::Vector { size, .. }) = ctx.typifier.type_of(
                coordinate,
                env.module.types,
            ) {
                decimal_is_neat(sample_dimension(size.count() as nat, array_index, depth_ref));
            }
        },
        Expression::ImageLoad { .. } => {
            reveal_strlit("texelFetch");
            reveal_strlit("imageLoad");
            reveal_strlit("ivec2");
            reveal_strlit("ivec3");
            reveal_strlit("ivec4");
        },
        Expression::Unary { .. } => {
            reveal_strlit("-");
            reveal_strlit("~");
            reveal_strlit("!");
        },
        Expression::Binary { op, .. } => {
            binary_operators_are_neat(op);
        },
        Expression::Select { .. } => {
            reveal_strlit(" ? ");
            reveal_strlit(" : ");
        },
        Expression::Derivative { axis, .. } => {
            derivative_functions_are_neat(axis);
        },
        Expression::Relational { fun, .. } => {
            relational_functions_are_neat(fun);
        },
        Expression::Math { fun, .. } => {
            math_functions_are_neat(fun);
        },
        Expression::As { expr: source, kind, .. } => {
            reveal_strlit("vec");
            match ctx.typifier.type_of(source, env.module.types) {
                Some(TypeInner::Scalar { width, .. }) => {
                    scalar_words_are_neat(kind, converted_width(kind, width));
                },
                Some(TypeInner::Vector { size, width, .. }) => {
                    scalar_words_are_neat(kind, converted_width(kind, width));
                    decimal_is_neat(size.count() as nat);
                },
                _ => {},
            }
            reveal_strlit("floatBitsToInt");
            reveal_strlit("floatBitsToUint");
            reveal_strlit("intBitsToFloat");
            reveal_strlit("uintBitsToFloat");
        },
        Expression::Call { function, arguments } => {
            let name = env.analysis.names.lookup(NameKey::Function(function));
            let items = expr_items(arguments@);
            separated_is_flat(items);
            let list = separated(items);
            assert forall|i: int|
                words_are_flat(env) && 0 <= i < pieces.len() implies flat_piece(
                #[trigger] pieces[i],
            ) by {
                if 2 <= i < pieces.len() - 1 {
                    assert(pieces[i] == list[i - 2]);
                }
            }
        },
        Expression::ArrayLength(_) => {
            reveal_strlit("uint(");
            reveal_strlit(".length())");
        },
        _ => {},
    }
    (
        if expr is As && empty_piece(pieces[0]) {
            1
        } else {
            0
        },
        pieces.len() - 1,
    )
}

/// A type grows the output neatly.
proof fn type_grows_neatly(
    env: Env<'_>,
    ctx: Option<FunctionCtx<'_>>,
    o: Output,
    ty: Handle<Type>,
    depth: Depth,
)
    requires
        o.status is Running,
    ensures
        neatly_grown(env, o, type_output(env, ctx, o, ty, depth)),
    decreases depth.exprs, depth.constants, depth.types, 0nat,
{
    if depth.types > 0 && env.module.types.has(ty) {
        let pieces = type_pieces(env, ty);
        let inner = Depth { types: (depth.types - 1) as usize, ..depth };
        let (first, last) = type_pieces_are_neat(env, ty);
        pieces_grow_neatly(env, ctx, o, pieces, pieces.len(), inner, first, last);
    }
}

/// A constant grows the output neatly.
proof fn constant_grows_neatly(
    env: Env<'_>,
    ctx: Option<FunctionCtx<'_>>,
    o: Output,
    constant: Handle<Constant>,
    depth: Depth,
)
    requires
        o.status is Running,
    ensures
        neatly_grown(env, o, constant_output(env, ctx, o, constant, depth)),
    decreases depth.exprs, depth.constants, depth.types, 0nat,
{
    if depth.constants > 0 && env.module.constants.has(constant) {
        let pieces = constant_pieces(env.module.constants.at(constant));
        let inner = Depth {
            constants: (depth.constants - 1) as usize,
            types: full_depth(env, ctx).types,
            ..depth
        };
        let (first, last) = constant_pieces_are_neat(env, constant);
        pieces_grow_neatly(env, ctx, o, pieces, pieces.len(), inner, first, last);
    }
}

/// An expression grows the output neatly.
proof fn expr_grows_neatly(
    env: Env<'_>,
    ctx: Option<FunctionCtx<'_>>,
    o: Output,
    expr: Handle<Expression>,
    depth: Depth,
)
    requires
        o.status is Running,
    ensures
        neatly_grown(env, o, expr_output(env, ctx, o, expr, depth)),
    decreases depth.exprs, depth.constants, depth.types, 0nat,
{
    if let Some(c) = ctx {
        if depth.exprs > 0 && c.expressions.has(expr) {
            let pieces = expr_pieces(env, c, c.expressions.at(expr));
            let inner = Depth { exprs: (depth.exprs - 1) as usize, ..full_depth(env, ctx) };
            let (first, last) = expr_pieces_are_neat(env, c, c.expressions.at(expr));
            pieces_grow_neatly(env, ctx, o, pieces, pieces.len(), inner, first, last);
        }
    }
}

/// A piece grows the output: a text by itself, everything else neatly.
proof fn piece_grows_neatly(
    env: Env<'_>,
    ctx: Option<FunctionCtx<'_>>,
    o: Output,
    piece: Piece,
    depth: Depth,
)
    requires
        o.status is Running,
    ensures
        grown(o, piece_output(env, ctx, o, piece, depth)),
        match piece {
            Piece::Text(s) => appended(o, piece_output(env, ctx, o, piece, depth)) == s,
            _ => neatly_grown(env, o, piece_output(env, ctx, o, piece, depth)),
        },
    decreases depth.exprs, depth.constants, depth.types, 1nat,
{
    match piece {
        Piece::Text(s) => {
            assert(appended(o, o.put(s)) =~= s);
        },
        Piece::FreshId => {
            decimal_is_neat(o.next_id);
            assert(o.next_id < u32::MAX ==> appended(o, o.put_id()) =~= decimal(o.next_id));
        },
        Piece::Type(ty) => {
            type_grows_neatly(env, ctx, o, ty, depth);
        },
        Piece::Constant(constant) => {
            constant_grows_neatly(env, ctx, o, constant, depth);
        },
        Piece::Expr(expr) => {
            expr_grows_neatly(env, ctx, o, expr, depth);
        },
        Piece::Fail(_) | Piece::Invalid => {},
    }
}

/// Pieces grow the output, neatly if they are solid at `first` and `last` and on one line.
proof fn pieces_grow_neatly(
    env: Env<'_>,
    ctx: Option<FunctionCtx<'_>>,
    o: Output,
    pieces: Seq<Piece>,
    count: nat,
    depth: Depth,
    first: int,
    last: int,
)
    requires
        o.status is Running,
        count <= pieces.len(),
    ensures
        ({
            let after = pieces_output(env, ctx, o, pieces, count, depth);
            let new = appended(o, after);
            &&& grown(o, after)
            &&& after.status is Running && words_are_tidy(env) && solid_ends(pieces, first, last)
                ==> {
                &&& count <= first ==> new.len() == 0
                &&& count > first ==> new.len() > 0 && !is_space(new[0])
                &&& count > last ==> new.len() > 0 && !is_space(new[new.len() - 1])
            }
            &&& written_without_blocks(o, after) && words_are_flat(env) && flat_pieces(pieces)
                ==> is_flat(new)
            &&& written_without_blocks(o, after) ==> !has_number(pieces, count)
        }),
    decreases depth.exprs, depth.constants, depth.types, count + 2,
{
    if count > 0 {
        let k = (count - 1) as nat;
        pieces_grow_neatly(env, ctx, o, pieces, k, depth, first, last);
        let before = pieces_output(env, ctx, o, pieces, k, depth);
        let piece = pieces[k as int];
        let after = piece_output(env, ctx, before, piece, depth);
        if before.status is Running {
            piece_grows_neatly(env, ctx, before, piece, depth);
            growth_is_transitive(o, before, after);
            let prior = appended(o, before);
            let new = appended(before, after);
            let whole = appended(o, after);
            if written_without_blocks(o, after) {
                assert(!(piece is FreshId));
                assert forall|i: int| 0 <= i < count && i < pieces.len() implies !(
                #[trigger] pieces[i] is FreshId) by {
                    if i < k {
                        assert(!has_number(pieces, k));
                    }
                }
            }
            if written_without_blocks(o, after) && words_are_flat(env) && flat_pieces(pieces) {
                assert(flat_piece(piece));
                assert forall|i: int| 0 <= i < whole.len() implies #[trigger] whole[i] != '\n' by {
                    if i < prior.len() {
                        assert(whole[i] == prior[i]);
                    } else {
                        assert(whole[i] == new[i - prior.len()]);
                    }
                }
            }
            if after.status is Running && words_are_tidy(env) && solid_ends(pieces, first, last) {
                if k < first || k > last {
                    assert(empty_piece(piece));
                    assert(whole =~= prior);
                }
            }
        }
    }
}

/// Types, constants and expressions add neither leading nor trailing whitespace, if names and
/// literals have none at their ends. They add no newlines if names and literals have none and they
/// write no interface block. What has been written before stays.
pub proof fn pieces_are_written_neatly(
    env: Env<'_>,
    ctx: Option<FunctionCtx<'_>>,
    o: Output,
    piece: Piece,
    depth: Depth,
)
    requires
        o.status is Running,
        piece is Type || piece is Constant || piece is Expr,
    ensures
        ({
            let after = piece_output(env, ctx, o, piece, depth);
            &&& grown(o, after)
            &&& after.status is Running && words_are_tidy(env) ==> is_tidy(appended(o, after))
            &&& written_without_blocks(o, after) && words_are_flat(env) ==> is_flat(
                appended(o, after),
            )
        }),
{
    piece_grows_neatly(env, ctx, o, piece, depth);
}

/// Every further piece grows the output.
pub proof fn further_pieces_grow(
    env: Env<'_>,
    ctx: Option<FunctionCtx<'_>>,
    o: Output,
    pieces: Seq<Piece>,
    start: nat,
    count: nat,
    depth: Depth,
)
    requires
        start <= count <= pieces.len(),
    ensures
        grown(
            pieces_output(env, ctx, o, pieces, start, depth),
            pieces_output(env, ctx, o, pieces, count, depth),
        ),
    decreases count,
{
    if start < count {
        further_pieces_grow(env, ctx, o, pieces, start, (count - 1) as nat, depth);
        let begun = pieces_output(env, ctx, o, pieces, start, depth);
        let before = pieces_output(env, ctx, o, pieces, (count - 1) as nat, depth);
        let after = piece_output(env, ctx, before, pieces[count - 1], depth);
        if before.status is Running {
            piece_grows_neatly(env, ctx, before, pieces[count - 1], depth);
        }
        growth_is_transitive(begun, before, after);
    }
}

/// Whether a text has no whitespace.
pub open spec fn has_no_space(s: Seq<char>) -> bool {
    forall|i: int| 0 <= i < s.len() ==> !is_space(#[trigger] s[i])
}

/// Whether no name has whitespace.
pub open spec fn names_have_no_space(names: Names) -> bool {
    forall|key: NameKey| (#[trigger] names.lookup(key)) matches Some(name) ==> has_no_space(name)
}

/// Whether a piece is a text without whitespace, or neither a text nor a constant nor an
/// expression.
spec fn is_type_word(piece: Piece) -> bool {
    match piece {
        Piece::Text(s) => has_no_space(s),
        Piece::Constant(_) | Piece::Expr(_) => false,
        _ => true,
    }
}

/// Numerals have no whitespace.
proof fn decimals_have_no_space(n: nat)
    ensures
        has_no_space(decimal(n)),
{
    decimal_has_only_digits(n);
    assert forall|i: int| 0 <= i < decimal(n).len() implies !is_space(#[trigger] decimal(n)[i]) by {
        assert('0' <= decimal(n)[i] <= '9');
    }
}

/// The pieces of a type that isn't an interface block have no whitespace.
proof fn type_pieces_have_no_space(env: Env<'_>, ty: Handle<Type>)
    requires
        env.module.types.has(ty),
        names_have_no_space(env.analysis.names),
        !has_number(type_pieces(env, ty), type_pieces(env, ty).len()),
    ensures
        forall|i: int|
            0 <= i < type_pieces(env, ty).len() ==> is_type_word(#[trigger] type_pieces(env, ty)[i]),
{
    let pieces = type_pieces(env, ty);
    reveal_strlit("vec");
    reveal_strlit("mat");
    reveal_strlit("x");
    reveal_strlit("[");
    reveal_strlit("]");
    reveal_strlit("i");
    reveal_strlit("u");
    reveal_strlit("d");
    reveal_strlit("");
    reveal_strlit("b");
    reveal_strlit("int");
    reveal_strlit("uint");
    reveal_strlit("double");
    reveal_strlit("float");
    reveal_strlit("bool");
    match env.module.types.at(ty).inner {
        TypeInner::Vector { size, .. } => {
            decimals_have_no_space(size.count() as nat);
        },
        TypeInner::Matrix { columns, rows, .. } => {
            decimals_have_no_space(columns.count() as nat);
            decimals_have_no_space(rows.count() as nat);
        },
        TypeInner::Array { size, .. } => {
            let inner = array_size_pieces(env, size);
            if let ArraySize::Constant(constant) = size {
                if let ConstantInner::Uint(n) = env.module.constants.at(constant).inner {
                    decimals_have_no_space(n as nat);
                }
            }
            assert forall|i: int| 0 <= i < pieces.len() implies is_type_word(
                #[trigger] pieces[i],
            ) by {
                if 2 <= i < pieces.len() - 1 {
                    assert(pieces[i] == inner[i - 2]);
                }
            }
        },
        TypeInner::Struct { block, .. } => {
            let name = env.analysis.names.lookup(NameKey::Type(ty));
            if block {
                assert(pieces[2] is FreshId);
            }
        },
        _ => {},
    }
}

/// Types are written without any whitespace, if names have none and they write no interface block.
pub proof fn types_are_written_without_whitespace(
    env: Env<'_>,
    ctx: Option<FunctionCtx<'_>>,
    o: Output,
    ty: Handle<Type>,
    depth: Depth,
)
    requires
        o.status is Running,
        names_have_no_space(env.analysis.names),
    ensures
        ({
            let after = type_output(env, ctx, o, ty, depth);
            written_without_blocks(o, after) ==> has_no_space(appended(o, after))
        }),
    decreases depth.types, 0nat,
{
    let after = type_output(env, ctx, o, ty, depth);
    if written_without_blocks(o, after) {
        let pieces = type_pieces(env, ty);
        let inner = Depth { types: (depth.types - 1) as usize, ..depth };
        pieces_grow_neatly(env, ctx, o, pieces, pieces.len(), inner, 0, 0);
        type_pieces_have_no_space(env, ty);
        type_words_have_no_space(env, ctx, o, pieces, pieces.len(), inner);
    }
}

/// The pieces of types are written without any whitespace.
proof fn type_words_have_no_space(
    env: Env<'_>,
    ctx: Option<FunctionCtx<'_>>,
    o: Output,
    pieces: Seq<Piece>,
    count: nat,
    depth: Depth,
)
    requires
        o.status is Running,
        names_have_no_space(env.analysis.names),
        count <= pieces.len(),
        forall|i: int| 0 <= i < pieces.len() ==> is_type_word(#[trigger] pieces[i]),
        written_without_blocks(o, pieces_output(env, ctx, o, pieces, count, depth)),
    ensures
        has_no_space(appended(o, pieces_output(env, ctx, o, pieces, count, depth))),
    decreases depth.types, count + 1,
{
    if count > 0 {
        let k = (count - 1) as nat;
        let before = pieces_output(env, ctx, o, pieces, k, depth);
        let piece = pieces[k as int];
        let after = piece_output(env, ctx, before, piece, depth);
        assert(after == pieces_output(env, ctx, o, pieces, count, depth));
        pieces_grow_neatly(env, ctx, o, pieces, k, depth, 0, 0);
        assert(before.status is Running);
        piece_grows_neatly(env, ctx, before, piece, depth);
        growth_is_transitive(o, before, after);
        type_words_have_no_space(env, ctx, o, pieces, k, depth);
        if let Piece::Type(ty) = piece {
            types_are_written_without_whitespace(env, ctx, before, ty, depth);
            assert(after == type_output(env, ctx, before, ty, depth));
        }
        let prior = appended(o, before);
        let new = appended(before, after);
        let whole = appended(o, after);
        assert(is_type_word(piece));
        assert(has_no_space(new));
        assert forall|i: int| 0 <= i < whole.len() implies !is_space(#[trigger] whole[i]) by {
            if i < prior.len() {
                assert(whole[i] == prior[i]);
            } else {
                assert(whole[i] == new[i - prior.len()]);
            }
        }
    }
}

/// Whether `after` has grown from `before`, and ends with a newline if everything has been written.
pub open spec fn grown_by_lines(before: Output, after: Output) -> bool {
    &&& grown(before, after)
    &&& after.status is Running ==> before.text.len() < after.text.len() && after.text.last()
        == '\n'
}

/// A text grows the output.
proof fn text_grows(o: Output, s: Seq<char>)
    ensures
        grown(o, o.put(s)),
        s.len() > 0 && s.last() == '\n' ==> grown_by_lines(o, o.put(s)),
{
}

/// Rendering grows the output.
pub proof fn rendering_grows(
    env: Env<'_>,
    ctx: Option<FunctionCtx<'_>>,
    o: Output,
    pieces: Seq<Piece>,
)
    ensures
        grown(o, render(env, ctx, o, pieces)),
{
    if o.status is Running {
        pieces_grow_neatly(env, ctx, o, pieces, pieces.len(), full_depth(env, ctx), 0, 0);
    } else {
        render_changes_nothing_after_a_stop(env, ctx, o, pieces);
    }
}

/// Rendering pieces of which the last is a text that ends with a newline grows the output by lines.
pub proof fn rendering_grows_by_lines(
    env: Env<'_>,
    ctx: Option<FunctionCtx<'_>>,
    o: Output,
    pieces: Seq<Piece>,
    end: Seq<char>,
)
    requires
        o.status is Running,
        pieces.len() > 0,
        pieces.last() == Piece::Text(end),
        end.len() > 0,
        end.last() == '\n',
    ensures
        grown_by_lines(o, render(env, ctx, o, pieces)),
{
    let depth = full_depth(env, ctx);
    let count = (pieces.len() - 1) as nat;
    pieces_grow_neatly(env, ctx, o, pieces, count, depth, 0, 0);
    let before = pieces_output(env, ctx, o, pieces, count, depth);
    assert(render(env, ctx, o, pieces) == piece_output(env, ctx, before, pieces.last(), depth));
    assert(piece_output(env, ctx, before, pieces.last(), depth) == before.put(end));
    text_grows(before, end);
    growth_is_transitive(o, before, before.put(end));
}

/// A struct grows the output by lines.
pub proof fn structs_end_with_a_newline(
    env: Env<'_>,
    o: Output,
    ty: Handle<Type>,
    members: Seq<StructMember>,
)
    requires
        o.status is Running,
    ensures
        grown_by_lines(o, render(env, None, o, struct_pieces(env, ty, members))),
{
    reveal_strlit("};\n");
    rendering_grows_by_lines(env, None, o, struct_pieces(env, ty, members), "};\n"@);
}

/// A global that is neither image nor sampler grows the output by lines.
pub proof fn globals_end_with_a_newline(
    env: Env<'_>,
    o: Output,
    handle: Handle<GlobalVariable>,
    global: GlobalVariable,
)
    requires
        o.status is Running,
    ensures
        grown_by_lines(o, render(env, None, o, global_declaration_pieces(env, handle, global))),
{
    reveal_strlit(";\n");
    rendering_grows_by_lines(
        env,
        None,
        o,
        global_declaration_pieces(env, handle, global),
        ";\n"@,
    );
}

/// Texts that are solid at `first` and `last` and on one line are written neatly.
proof fn texts_grow_neatly(
    env: Env<'_>,
    o: Output,
    pieces: Seq<Piece>,
    count: nat,
    first: int,
    last: int,
)
    requires
        o.status is Running,
        count <= pieces.len(),
        forall|i: int| 0 <= i < pieces.len() ==> #[trigger] pieces[i] is Text,
        solid_ends(pieces, first, last),
        flat_pieces(pieces),
    ensures
        ({
            let after = pieces_output(env, None, o, pieces, count, full_depth(env, None));
            let new = appended(o, after);
            &&& after.status is Running
            &&& grown(o, after)
            &&& count <= first ==> new.len() == 0
            &&& count > first ==> new.len() > 0 && !is_space(new[0])
            &&& count > last ==> new.len() > 0 && !is_space(new[new.len() - 1])
            &&& is_flat(new)
        }),
    decreases count,
{
    if count > 0 {
        let k = (count - 1) as nat;
        let depth = full_depth(env, None);
        texts_grow_neatly(env, o, pieces, k, first, last);
        let before = pieces_output(env, None, o, pieces, k, depth);
        let text = pieces[k as int]->Text_0;
        let after = before.put(text);
        assert(piece_output(env, None, before, pieces[k as int], depth) == after);
        assert(appended(before, after) =~= text);
        growth_is_transitive(o, before, after);
        let prior = appended(o, before);
        let whole = appended(o, after);
        assert(flat_piece(pieces[k as int]));
        assert forall|i: int| 0 <= i < whole.len() implies #[trigger] whole[i] != '\n' by {
            if i < prior.len() {
                assert(whole[i] == prior[i]);
            } else {
                assert(whole[i] == text[i - prior.len()]);
            }
        }
        if k < first || k > last {
            assert(empty_piece(pieces[k as int]));
            assert(whole =~= prior);
        }
    }
}

/// Image types have neither leading nor trailing whitespace, and no newlines.
pub proof fn image_types_are_written_neatly(
    env: Env<'_>,
    o: Output,
    dim: ImageDimension,
    arrayed: bool,
    class: ImageClass,
)
    requires
        o.status is Running,
    ensures
        ({
            let after = render(env, None, o, image_type_pieces(dim, arrayed, class));
            &&& after.status is Running
            &&& is_tidy(appended(o, after))
            &&& is_flat(appended(o, after))
        }),
{
    let pieces = image_type_pieces(dim, arrayed, class);
    scalar_words_are_neat(image_class_parts(class).1, 4);
    dimension_names_are_neat(dim);
    reveal_strlit("sampler");
    reveal_strlit("image");
    reveal_strlit("MS");
    reveal_strlit("");
    reveal_strlit("Array");
    reveal_strlit("Shadow");
    let first: int = if empty_piece(pieces[0]) {
        1
    } else {
        0
    };
    let last: int = if !empty_piece(pieces[5]) {
        5
    } else if !empty_piece(pieces[4]) {
        4
    } else if !empty_piece(pieces[3]) {
        3
    } else {
        2
    };
    texts_grow_neatly(env, o, pieces, pieces.len(), first, last);
}

/// A statement grows the output by lines.
proof fn statement_grows(
    env: Env<'_>,
    ctx: FunctionCtx<'_>,
    o: Output,
    sta: Statement,
    indent: nat,
)
    requires
        o.status is Running,
    ensures
        grown_by_lines(o, stmt_output(env, ctx, o, sta, indent)),
    decreases sta, 0nat,
{
    if indent <= max_indent() {
        let o1 = o.put(tabs(indent));
        text_grows(o, tabs(indent));
        reveal_strlit("}\n");
        reveal_strlit(";\n");
        match sta {
            Statement::Block(block) => {
                let o2 = o1.put("{\n"@);
                let o3 = block_output(env, ctx, o2, block@, block@.len(), indent + 1);
                let o4 = o3.put(tabs(indent));
                let o5 = o4.put("}\n"@);
                block_grows(env, ctx, o2, block@, block@.len(), indent + 1);
                growth_is_transitive(o, o1, o2);
                growth_is_transitive(o, o2, o3);
                growth_is_transitive(o, o3, o4);
                growth_is_transitive(o, o4, o5);
            },
            Statement::If { condition, accept, reject } => {
                let pieces = seq![
                    Piece::Text("if("@),
                    Piece::Expr(condition),
                    Piece::Text(") {\n"@),
                ];
                let o2 = render(env, Some(ctx), o1, pieces);
                let o3 = block_output(env, ctx, o2, accept@, accept@.len(), indent + 1);
                rendering_grows(env, Some(ctx), o1, pieces);
                block_grows(env, ctx, o2, accept@, accept@.len(), indent + 1);
                growth_is_transitive(o, o1, o2);
                growth_is_transitive(o, o2, o3);
                let o4 = if reject@.len() > 0 {
                    let t1 = o3.put(tabs(indent));
                    let t2 = t1.put("} else {\n"@);
                    let t3 = block_output(env, ctx, t2, reject@, reject@.len(), indent + 1);
                    block_grows(env, ctx, t2, reject@, reject@.len(), indent + 1);
                    growth_is_transitive(o, o3, t1);
                    growth_is_transitive(o, t1, t2);
                    growth_is_transitive(o, t2, t3);
                    t3
                } else {
                    o3
                };
                let o5 = o4.put(tabs(indent));
                let o6 = o5.put("}\n"@);
                growth_is_transitive(o, o4, o5);
                growth_is_transitive(o, o5, o6);
            },
            Statement::Switch { selector, cases, default } => {
                let pieces = seq![
                    Piece::Text("switch("@),
                    Piece::Expr(selector),
                    Piece::Text(") {\n"@),
                ];
                let o2 = render(env, Some(ctx), o1, pieces);
                let o3 = cases_output(env, ctx, o2, cases@, cases@.len(), indent);
                rendering_grows(env, Some(ctx), o1, pieces);
                cases_grow(env, ctx, o2, cases@, cases@.len(), indent);
                growth_is_transitive(o, o1, o2);
                growth_is_transitive(o, o2, o3);
                let o4 = if default@.len() > 0 {
                    let t1 = o3.put(tabs(indent + 1));
                    let t2 = t1.put("default:\n"@);
                    let t3 = block_output(env, ctx, t2, default@, default@.len(), indent + 2);
                    block_grows(env, ctx, t2, default@, default@.len(), indent + 2);
                    growth_is_transitive(o, o3, t1);
                    growth_is_transitive(o, t1, t2);
                    growth_is_transitive(o, t2, t3);
                    t3
                } else {
                    o3
                };
                let o5 = o4.put(tabs(indent));
                let o6 = o5.put("}\n"@);
                growth_is_transitive(o, o4, o5);
                growth_is_transitive(o, o5, o6);
            },
            Statement::Loop { body, continuing } => {
                let o2 = o1.put("while(true) {\n"@);
                let o3 = block_output(env, ctx, o2, body@, body@.len(), indent + 1);
                let o4 = block_output(
                    env,
                    ctx,
                    o3,
                    continuing@,
                    continuing@.len(),
                    indent + 1,
                );
                let o5 = o4.put(tabs(indent));
                let o6 = o5.put("}\n"@);
                block_grows(env, ctx, o2, body@, body@.len(), indent + 1);
                block_grows(env, ctx, o3, continuing@, continuing@.len(), indent + 1);
                growth_is_transitive(o, o1, o2);
                growth_is_transitive(o, o2, o3);
                growth_is_transitive(o, o3, o4);
                growth_is_transitive(o, o4, o5);
                growth_is_transitive(o, o5, o6);
            },
            Statement::Break => {
                reveal_strlit("break;\n");
                growth_is_transitive(o, o1, o1.put("break;\n"@));
            },
            Statement::Continue => {
                reveal_strlit("continue;\n");
                growth_is_transitive(o, o1, o1.put("continue;\n"@));
            },
            Statement::Return { value } => match value {
                Some(expr) => {
                    let pieces = seq![
                        Piece::Text("return"@),
                        Piece::Text(" "@),
                        Piece::Expr(expr),
                        Piece::Text(";\n"@),
                    ];
                    rendering_grows_by_lines(env, Some(ctx), o1, pieces, ";\n"@);
                    growth_is_transitive(o, o1, render(env, Some(ctx), o1, pieces));
                },
                None => {
                    reveal_strlit("return;\n");
                    growth_is_transitive(o, o1, o1.put("return;\n"@));
                },
            },
            Statement::Kill => {
                reveal_strlit("discard;\n");
                growth_is_transitive(o, o1, o1.put("discard;\n"@));
            },
            Statement::Store { pointer, value } => {
                let pieces = seq![
                    Piece::Expr(pointer),
                    Piece::Text(" = "@),
                    Piece::Expr(value),
                    Piece::Text(";\n"@),
                ];
                rendering_grows_by_lines(env, Some(ctx), o1, pieces, ";\n"@);
                growth_is_transitive(o, o1, render(env, Some(ctx), o1, pieces));
            },
        }
    }
}

/// The statements of a block grow the output.
proof fn block_grows(
    env: Env<'_>,
    ctx: FunctionCtx<'_>,
    o: Output,
    block: Seq<Statement>,
    count: nat,
    indent: nat,
)
    ensures
        grown(o, block_output(env, ctx, o, block, count, indent)),
    decreases block, count,
{
    if 0 < count <= block.len() {
        let before = block_output(env, ctx, o, block, (count - 1) as nat, indent);
        block_grows(env, ctx, o, block, (count - 1) as nat, indent);
        let after = stmt_output(env, ctx, before, block[count - 1], indent);
        if before.status is Running {
            statement_grows(env, ctx, before, block[count - 1], indent);
        }
        growth_is_transitive(o, before, after);
    }
}

/// The cases of a switch grow the output.
proof fn cases_grow(
    env: Env<'_>,
    ctx: FunctionCtx<'_>,
    o: Output,
    cases: Seq<SwitchCase>,
    count: nat,
    indent: nat,
)
    ensures
        grown(o, cases_output(env, ctx, o, cases, count, indent)),
    decreases cases, count,
{
    if 0 < count <= cases.len() {
        let case = cases[count - 1];
        let o1 = cases_output(env, ctx, o, cases, (count - 1) as nat, indent);
        let o2 = o1.put(tabs(indent + 1));
        let o3 = o2.put("case "@);
        let o4 = o3.put(signed_decimal(case.value as int));
        let o5 = o4.put(":\n"@);
        let o6 = block_output(env, ctx, o5, case.body@, case.body@.len(), indent + 2);
        let o7 = o6.put(tabs(indent + 2));
        let o8 = o7.put("break;\n"@);
        cases_grow(env, ctx, o, cases, (count - 1) as nat, indent);
        block_grows(env, ctx, o5, case.body@, case.body@.len(), indent + 2);
        growth_is_transitive(o, o1, o2);
        growth_is_transitive(o, o2, o3);
        growth_is_transitive(o, o3, o4);
        growth_is_transitive(o, o4, o5);
        growth_is_transitive(o, o5, o6);
        growth_is_transitive(o, o6, o7);
        growth_is_transitive(o, o7, o8);
    }
}

/// A statement always adds a newline at its end, and what has been written before stays.
pub proof fn statements_end_with_a_newline(
    env: Env<'_>,
    ctx: FunctionCtx<'_>,
    o: Output,
    sta: Statement,
    indent: nat,
)
    requires
        o.status is Running,
    ensures
        grown_by_lines(o, stmt_output(env, ctx, o, sta, indent)),
{
    statement_grows(env, ctx, o, sta, indent);
}

/// A function always adds a newline at its end, and what has been written before stays.
pub proof fn functions_end_with_a_newline(
    env: Env<'_>,
    o: Output,
    ty: FunctionType,
    func: Function,
    name: Seq<char>,
)
    ensures
        grown(o, function_output(env, o, ty, func, name)),
        o.status is Running ==> grown_by_lines(o, function_output(env, o, ty, func, name)),
{
    if let Some(Ok(typifier)) = typing_of(env, ty) {
        let ctx = FunctionCtx { func: ty, expressions: &func.expressions, typifier: &typifier };
        let head = function_head_pieces(env, ty, func, name);
        let o1 = render(env, Some(ctx), o, head);
        let o2 = block_output(env, ctx, o1, func.body@, func.body@.len(), 1);
        let o3 = o2.put("}\n"@);
        reveal_strlit("}\n");
        rendering_grows(env, Some(ctx), o, head);
        block_grows(env, ctx, o1, func.body@, func.body@.len(), 1);
        growth_is_transitive(o, o1, o2);
        growth_is_transitive(o, o2, o3);
    }
}

/// The functions of nodes grow the output.
proof fn functions_grow(
    env: Env<'_>,
    o: Output,
    nodes: Seq<usize>,
    order: Seq<u32>,
    count: nat,
)
    ensures
        grown(o, functions_output(env, o, nodes, order, count)),
    decreases count,
{
    if count > 0 {
        let before = functions_output(env, o, nodes, order, (count - 1) as nat);
        functions_grow(env, o, nodes, order, (count - 1) as nat);
        let node = order[count - 1];
        if node < nodes.len() && nodes[node as int] < env.module.functions@.len() {
            let position = nodes[node as int] as int;
            let handle = handle_at(position);
            if let Some(name) = env.analysis.names.lookup(NameKey::Function(handle)) {
                let ty = FunctionType::Function(handle);
                let func = env.module.functions@[position];
                let after = function_output(env, before, ty, func, name);
                functions_end_with_a_newline(env, before, ty, func, name);
                growth_is_transitive(before, after, after.put("\n"@));
            }
        }
        growth_is_transitive(o, before, node_output(env, before, nodes, node));
    }
}

/// Writing a module changes nothing of what has been written before, also where it stops early. If
/// it doesn't, the output ends with a newline.
pub proof fn modules_are_added_at_the_end(writer: Writer<'_>)
    ensures
        grown_by_lines(writer.state(), writer.module_output()),
{
    let env = writer.env;
    let nodes = graph_nodes(writer.call_graph);
    let pieces = declaration_pieces(env, *writer.entry_point);
    let o = writer.state();
    let o1 = render(env, None, o, pieces);
    rendering_grows(env, None, o, pieces);
    if let Some(order) = toposort(nodes.len(), graph_edges(writer.call_graph)) {
        let o2 = functions_output(env, o1, nodes, order, order.len());
        functions_grow(env, o1, nodes, order, order.len());
        growth_is_transitive(o, o1, o2);
        let ty = FunctionType::EntryPoint(writer.entry_point_idx);
        let func = writer.entry_point.function;
        let o3 = function_output(env, o2, ty, func, "main"@);
        functions_end_with_a_newline(env, o2, ty, func, "main"@);
        growth_is_transitive(o, o2, o3);
        if !(o2.status is Running) {
            function_changes_nothing_after_a_stop(env, o2, ty, func, "main"@);
        }
    }
}

/// The first pieces of a longer list are written as if they stood alone.
proof fn first_pieces_are_written_first(
    env: Env<'_>,
    ctx: Option<FunctionCtx<'_>>,
    o: Output,
    pieces: Seq<Piece>,
    more: Seq<Piece>,
    count: nat,
    depth: Depth,
)
    requires
        count <= pieces.len(),
    ensures
        pieces_output(env, ctx, o, pieces + more, count, depth) == pieces_output(
            env,
            ctx,
            o,
            pieces,
            count,
            depth,
        ),
    decreases count,
{
    if count > 0 {
        first_pieces_are_written_first(env, ctx, o, pieces, more, (count - 1) as nat, depth);
        assert((pieces + more)[count - 1] == pieces[count - 1]);
    }
}

/// The output of a new writer starts with the version directive, also where writing stops early.
pub proof fn version_directive_comes_first(writer: Writer<'_>)
    requires
        writer.out@.len() == 0,
    ensures
        ({
            let directive = "#version "@ + writer.env.options.version.text() + "\n"@;
            let text = writer.module_output().text;
            text.len() >= directive.len() && text.take(directive.len() as int) == directive
        }),
{
    let env = writer.env;
    let version = env.options.version;
    let o = writer.state();
    let depth = full_depth(env, None);
    let directive = "#version "@ + version.text() + "\n"@;
    let pieces = declaration_pieces(env, *writer.entry_point);
    let first = (seq![Piece::Text("#version "@)] + version_pieces(version)).push(
        Piece::Text("\n"@),
    );
    let rest = pieces.skip(first.len() as int);
    assert(pieces =~= first + rest) by {
        assert(pieces.take(4) =~= first);
    }
    assert(first.len() == 4);
    // The directive
    let o1 = o.put(first[0]->Text_0);
    let o2 = o1.put(first[1]->Text_0);
    let o3 = o2.put(first[2]->Text_0);
    let o4 = o3.put(first[3]->Text_0);
    assert(pieces_output(env, None, o, first, 0, depth) == o);
    assert(piece_output(env, None, o, first[0], depth) == o1);
    assert(pieces_output(env, None, o, first, 1, depth) == o1);
    assert(piece_output(env, None, o1, first[1], depth) == o2);
    assert(pieces_output(env, None, o, first, 2, depth) == o2);
    assert(piece_output(env, None, o2, first[2], depth) == o3);
    assert(pieces_output(env, None, o, first, 3, depth) == o3);
    assert(piece_output(env, None, o3, first[3], depth) == o4);
    assert(pieces_output(env, None, o, first, 4, depth) == o4);
    assert(o4.text =~= directive);
    // The rest
    first_pieces_are_written_first(env, None, o, first, rest, 4, depth);
    further_pieces_grow(env, None, o, pieces, 4, pieces.len(), depth);
    let declared = render(env, None, o, pieces);
    let nodes = graph_nodes(writer.call_graph);
    if let Some(order) = toposort(nodes.len(), graph_edges(writer.call_graph)) {
        let o5 = functions_output(env, declared, nodes, order, order.len());
        functions_grow(env, declared, nodes, order, order.len());
        let ty = FunctionType::EntryPoint(writer.entry_point_idx);
        let func = writer.entry_point.function;
        functions_end_with_a_newline(env, o5, ty, func, "main"@);
        growth_is_transitive(o4, declared, o5);
        growth_is_transitive(o4, o5, function_output(env, o5, ty, func, "main"@));
    }
    let text = writer.module_output().text;
    assert(grown(o4, writer.module_output()));
    assert(text.take(directive.len() as int) =~= directive);
}

/// A list starts with its first item and ends with its last one: there is no comma before or after
/// the items.
pub proof fn lists_start_and_end_with_items(items: Seq<Seq<Piece>>)
    requires
        items.len() > 0,
    ensures
        separated(items).len() >= items.first().len(),
        separated(items).take(items.first().len() as int) == items.first(),
        separated(items).len() >= items.last().len(),
        separated(items).skip(separated(items).len() - items.last().len()) == items.last(),
    decreases items.len(),
{
    let list = separated(items);
    if items.len() > 1 {
        let before = items.drop_last();
        lists_start_and_end_with_items(before);
        assert(before.first() == items.first());
        assert(list.take(items.first().len() as int) =~= separated(before).take(
            items.first().len() as int,
        ));
    } else {
        assert(list.take(items.first().len() as int) =~= items.first());
    }
    assert(list.skip(list.len() - items.last().len()) =~= items.last());
}

} // verus!
