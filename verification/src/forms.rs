//! How the text of an expression, a type or a constant follows from the texts of its parts.
use crate::arena::Handle;
use crate::constants::{constant_items, constant_pieces};
use crate::context::{Env, FunctionCtx, FunctionType};
use crate::describe::{cannot_apply_not_words, cannot_bitcast_words, cannot_index_words};
use crate::error::ErrorView;
use crate::expressions::{
    expr_items, expr_pieces, sample_dimension, with_argument, with_sample_level,
};
use crate::ir::{
    ArraySize, BinaryOperator, Binding, Bytes, Constant, ConstantInner, DerivativeAxis, Expression,
    Function, GlobalVariable, ImageClass, ImageDimension, LocalVariable, MathFunction,
    RelationalFunction, SampleLevel, ScalarKind, StorageClass, StructMember, Type, TypeInner,
    UnaryOperator, VectorSize,
};
use crate::names::NameKey;
use crate::output::{separated, Output, Piece};
use crate::render::{
    constant_output, expr_output, full_depth, piece_output, pieces_output, type_output, Depth,
};
use crate::terms::{
    binary_operator_text, built_in_name, derivative_function, math_function, relational_function,
};
use crate::text::{decimal, signed_decimal};
use crate::types::{member_pieces, type_pieces};
use vstd::prelude::*;

verus! {

/// `o`, then an expression, unless writing has stopped.
pub open spec fn expr_after(
    env: Env<'_>,
    ctx: FunctionCtx<'_>,
    o: Output,
    expr: Handle<Expression>,
    depth: Depth,
) -> Output {
    if o.status is Running {
        expr_output(env, Some(ctx), o, expr, depth)
    } else {
        o
    }
}

/// The limit for the parts of an expression.
pub open spec fn inner_depth(env: Env<'_>, ctx: FunctionCtx<'_>, depth: Depth) -> Depth {
    Depth { exprs: (depth.exprs - 1) as usize, ..full_depth(env, Some(ctx)) }
}

/// Whether `expr` is the handle of `form`, and its parts may be written.
pub open spec fn is_form(
    ctx: FunctionCtx<'_>,
    o: Output,
    expr: Handle<Expression>,
    depth: Depth,
    form: Expression,
) -> bool {
    &&& o.status is Running
    &&& depth.exprs > 0
    &&& ctx.expressions.has(expr)
    &&& ctx.expressions.at(expr) == form
}

/// `o`, then a type, unless writing has stopped.
pub open spec fn type_after(
    env: Env<'_>,
    ctx: Option<FunctionCtx<'_>>,
    o: Output,
    ty: Handle<Type>,
    depth: Depth,
) -> Output {
    if o.status is Running {
        type_output(env, ctx, o, ty, depth)
    } else {
        o
    }
}

/// `o`, then a constant, unless writing has stopped.
pub open spec fn constant_after(
    env: Env<'_>,
    ctx: Option<FunctionCtx<'_>>,
    o: Output,
    constant: Handle<Constant>,
    depth: Depth,
) -> Output {
    if o.status is Running {
        constant_output(env, ctx, o, constant, depth)
    } else {
        o
    }
}

/// `o`, then a piece.
pub open spec fn piece_after(
    env: Env<'_>,
    ctx: Option<FunctionCtx<'_>>,
    o: Output,
    piece: Piece,
    depth: Depth,
) -> Output {
    match piece {
        Piece::Text(s) => o.put(s),
        Piece::FreshId => o.put_id(),
        Piece::Type(ty) => type_after(env, ctx, o, ty, depth),
        Piece::Constant(constant) => constant_after(env, ctx, o, constant, depth),
        Piece::Expr(expr) => if o.status is Running {
            expr_output(env, ctx, o, expr, depth)
        } else {
            o
        },
        Piece::Fail(error) => o.fail(error),
        Piece::Invalid => o.invalid(),
    }
}

/// `o`, then the first `count` pieces.
pub open spec fn pieces_after(
    env: Env<'_>,
    ctx: Option<FunctionCtx<'_>>,
    o: Output,
    pieces: Seq<Piece>,
    count: nat,
    depth: Depth,
) -> Output
    decreases count,
{
    if count == 0 {
        o
    } else {
        let before = pieces_after(env, ctx, o, pieces, (count - 1) as nat, depth);
        piece_after(env, ctx, before, pieces[count - 1], depth)
    }
}

/// Pieces are written one after the other.
pub proof fn pieces_follow_one_another(
    env: Env<'_>,
    ctx: Option<FunctionCtx<'_>>,
    o: Output,
    pieces: Seq<Piece>,
    count: nat,
    depth: Depth,
)
    ensures
        pieces_output(env, ctx, o, pieces, count, depth) == pieces_after(
            env,
            ctx,
            o,
            pieces,
            count,
            depth,
        ),
    decreases count,
{
    if count > 0 {
        let k = (count - 1) as nat;
        pieces_follow_one_another(env, ctx, o, pieces, k, depth);
        let before = pieces_output(env, ctx, o, pieces, k, depth);
        assert(piece_output(env, ctx, before, pieces[k as int], depth) == piece_after(
            env,
            ctx,
            before,
            pieces[k as int],
            depth,
        ));
    }
}

/// The text of an expression is that of its pieces.
proof fn expr_is_pieces(
    env: Env<'_>,
    ctx: FunctionCtx<'_>,
    o: Output,
    expr: Handle<Expression>,
    depth: Depth,
)
    requires
        o.status is Running,
        depth.exprs > 0,
        ctx.expressions.has(expr),
    ensures
        ({
            let pieces = expr_pieces(env, ctx, ctx.expressions.at(expr));
            expr_output(env, Some(ctx), o, expr, depth) == pieces_after(
                env,
                Some(ctx),
                o,
                pieces,
                pieces.len(),
                inner_depth(env, ctx, depth),
            )
        }),
{
    let pieces = expr_pieces(env, ctx, ctx.expressions.at(expr));
    let d = inner_depth(env, ctx, depth);
    pieces_follow_one_another(env, Some(ctx), o, pieces, pieces.len(), d);
}

/// To write two lists of pieces one after the other is to write their concatenation.
pub proof fn pieces_after_concatenation(
    env: Env<'_>,
    ctx: Option<FunctionCtx<'_>>,
    o: Output,
    first: Seq<Piece>,
    second: Seq<Piece>,
    count: nat,
    depth: Depth,
)
    requires
        count <= second.len(),
    ensures
        pieces_after(env, ctx, o, first + second, first.len() + count, depth) == pieces_after(
            env,
            ctx,
            pieces_after(env, ctx, o, first, first.len(), depth),
            second,
            count,
            depth,
        ),
    decreases count,
{
    let all = first + second;
    if count > 0 {
        pieces_after_concatenation(env, ctx, o, first, second, (count - 1) as nat, depth);
        assert(all[first.len() + count - 1] == second[count - 1]);
    } else {
        pieces_after_prefix(env, ctx, o, first, all, first.len(), depth);
    }
}

/// What is written of pieces depends on these pieces alone.
proof fn pieces_after_prefix(
    env: Env<'_>,
    ctx: Option<FunctionCtx<'_>>,
    o: Output,
    first: Seq<Piece>,
    all: Seq<Piece>,
    count: nat,
    depth: Depth,
)
    requires
        count <= first.len() <= all.len(),
        forall|i: int| 0 <= i < first.len() ==> #[trigger] all[i] == first[i],
    ensures
        pieces_after(env, ctx, o, all, count, depth) == pieces_after(
            env,
            ctx,
            o,
            first,
            count,
            depth,
        ),
    decreases count,
{
    if count > 0 {
        pieces_after_prefix(env, ctx, o, first, all, (count - 1) as nat, depth);
    }
}

/// `o`, then a name, which must be there.
pub open spec fn name_after(o: Output, name: Option<Seq<char>>) -> Output {
    match name {
        Some(s) => o.put(s),
        None => o.invalid(),
    }
}

/// `o`, then a comma and an expression if there is one.
pub open spec fn argument_after(
    env: Env<'_>,
    ctx: FunctionCtx<'_>,
    o: Output,
    argument: Option<Handle<Expression>>,
    depth: Depth,
) -> Output {
    match argument {
        Some(expr) => expr_after(env, ctx, o.put(", "@), expr, depth),
        None => o,
    }
}

/// `o`, then expressions with commas between them.
pub open spec fn exprs_after(
    env: Env<'_>,
    ctx: FunctionCtx<'_>,
    o: Output,
    list: Seq<Handle<Expression>>,
    depth: Depth,
) -> Output
    decreases list.len(),
{
    if list.len() == 0 {
        o
    } else if list.len() == 1 {
        expr_after(env, ctx, o, list[0], depth)
    } else {
        let before = exprs_after(env, ctx, o, list.drop_last(), depth);
        expr_after(env, ctx, before.put(", "@), list.last(), depth)
    }
}

/// `o`, then constants with commas between them.
pub open spec fn constants_after(
    env: Env<'_>,
    ctx: Option<FunctionCtx<'_>>,
    o: Output,
    list: Seq<Handle<Constant>>,
    depth: Depth,
) -> Output
    decreases list.len(),
{
    if list.len() == 0 {
        o
    } else if list.len() == 1 {
        constant_after(env, ctx, o, list[0], depth)
    } else {
        let before = constants_after(env, ctx, o, list.drop_last(), depth);
        constant_after(env, ctx, before.put(", "@), list.last(), depth)
    }
}

/// The items of a list of expressions are written one after the other.
proof fn list_is_exprs(
    env: Env<'_>,
    ctx: FunctionCtx<'_>,
    o: Output,
    list: Seq<Handle<Expression>>,
    depth: Depth,
)
    ensures
        ({
            let pieces = separated(expr_items(list));
            pieces_after(env, Some(ctx), o, pieces, pieces.len(), depth) == exprs_after(
                env,
                ctx,
                o,
                list,
                depth,
            )
        }),
    decreases list.len(),
{
    reveal_with_fuel(pieces_after, 3);
    let items = expr_items(list);
    let pieces = separated(items);
    if list.len() == 1 {
        assert(pieces.len() == 1 && pieces[0] == Piece::Expr(list[0]));
    } else if list.len() > 1 {
        assert(items.drop_last() =~= expr_items(list.drop_last()));
        let before = separated(items.drop_last());
        let rest = seq![Piece::Text(", "@), Piece::Expr(list.last())];
        assert(pieces =~= before + rest);
        list_is_exprs(env, ctx, o, list.drop_last(), depth);
        pieces_after_concatenation(env, Some(ctx), o, before, rest, 2, depth);
    }
}

/// The items of a list of constants are written one after the other.
proof fn list_is_constants(
    env: Env<'_>,
    ctx: Option<FunctionCtx<'_>>,
    o: Output,
    list: Seq<Handle<Constant>>,
    depth: Depth,
)
    ensures
        ({
            let pieces = separated(constant_items(list));
            pieces_after(env, ctx, o, pieces, pieces.len(), depth) == constants_after(
                env,
                ctx,
                o,
                list,
                depth,
            )
        }),
    decreases list.len(),
{
    reveal_with_fuel(pieces_after, 3);
    let items = constant_items(list);
    let pieces = separated(items);
    if list.len() == 1 {
        assert(pieces.len() == 1 && pieces[0] == Piece::Constant(list[0]));
    } else if list.len() > 1 {
        assert(items.drop_last() =~= constant_items(list.drop_last()));
        let before = separated(items.drop_last());
        let rest = seq![Piece::Text(", "@), Piece::Constant(list.last())];
        assert(pieces =~= before + rest);
        list_is_constants(env, ctx, o, list.drop_last(), depth);
        pieces_after_concatenation(env, ctx, o, before, rest, 2, depth);
    }
}

/// A list between two other lists of pieces is written between them.
proof fn middle_is_written(
    env: Env<'_>,
    ctx: Option<FunctionCtx<'_>>,
    o: Output,
    first: Seq<Piece>,
    middle: Seq<Piece>,
    last: Seq<Piece>,
    depth: Depth,
)
    ensures
        ({
            let all = first + middle + last;
            let o1 = pieces_after(env, ctx, o, first, first.len(), depth);
            let o2 = pieces_after(env, ctx, o1, middle, middle.len(), depth);
            pieces_after(env, ctx, o, all, all.len(), depth) == pieces_after(
                env,
                ctx,
                o2,
                last,
                last.len(),
                depth,
            )
        }),
{
    pieces_after_concatenation(env, ctx, o, first, middle, middle.len(), depth);
    pieces_after_concatenation(env, ctx, o, first + middle, last, last.len(), depth);
}

/// An access with a computed index is written as the base, then the index in brackets.
#[verifier::rlimit(50)]
pub proof fn accesses_are_indexing(
    env: Env<'_>,
    ctx: FunctionCtx<'_>,
    o: Output,
    expr: Handle<Expression>,
    depth: Depth,
    base: Handle<Expression>,
    index: Handle<Expression>,
)
    requires
        is_form(ctx, o, expr, depth, (Expression::Access { base, index })),
    ensures
        ({
            let d = inner_depth(env, ctx, depth);
            let based = expr_after(env, ctx, o, base, d).put("["@);
            expr_output(env, Some(ctx), o, expr, depth) == expr_after(
                env,
                ctx,
                based,
                index,
                d,
            ).put("]"@)
        }),
{
    expr_is_pieces(env, ctx, o, expr, depth);
    reveal_with_fuel(pieces_after, 8);
}

/// An access with a known index into a vector, a matrix or an array is written as the base, then
/// the numeral of that very index in brackets.
#[verifier::rlimit(50)]
pub proof fn constant_accesses_are_indexing(
    env: Env<'_>,
    ctx: FunctionCtx<'_>,
    o: Output,
    expr: Handle<Expression>,
    depth: Depth,
    base: Handle<Expression>,
    index: u32,
)
    requires
        is_form(ctx, o, expr, depth, (Expression::AccessIndex { base, index })),
        ctx.typifier.type_of(base, env.module.types) matches Some(inner) && (inner is Vector
            || inner is Matrix || inner is Array),
    ensures
        ({
            let d = inner_depth(env, ctx, depth);
            let based = expr_after(env, ctx, o, base, d).put("["@);
            expr_output(env, Some(ctx), o, expr, depth) == based.put(decimal(index as nat)).put(
                "]"@,
            )
        }),
{
    expr_is_pieces(env, ctx, o, expr, depth);
    reveal_with_fuel(pieces_after, 8);
}

/// An access to a member of a struct is written as the base, then a dot and the name of the member.
#[verifier::rlimit(50)]
pub proof fn member_accesses_name_the_member(
    env: Env<'_>,
    ctx: FunctionCtx<'_>,
    o: Output,
    expr: Handle<Expression>,
    depth: Depth,
    base: Handle<Expression>,
    index: u32,
    ty: Handle<Type>,
)
    requires
        is_form(ctx, o, expr, depth, (Expression::AccessIndex { base, index })),
        ctx.typifier.type_of(base, env.module.types) matches Some(inner) && inner is Struct,
        ctx.typifier.declared_type_of(base) == Some(ty),
    ensures
        ({
            let d = inner_depth(env, ctx, depth);
            expr_output(env, Some(ctx), o, expr, depth) == name_after(
                expr_after(env, ctx, o, base, d).put("."@),
                env.analysis.names.lookup(NameKey::StructMember(ty, index)),
            )
        }),
{
    expr_is_pieces(env, ctx, o, expr, depth);
    reveal_with_fuel(pieces_after, 8);
}

/// An access with a known index into anything else is rejected, after the base has been written.
#[verifier::rlimit(50)]
pub proof fn other_accesses_are_rejected(
    env: Env<'_>,
    ctx: FunctionCtx<'_>,
    o: Output,
    expr: Handle<Expression>,
    depth: Depth,
    base: Handle<Expression>,
    index: u32,
    inner: TypeInner,
)
    requires
        is_form(ctx, o, expr, depth, (Expression::AccessIndex { base, index })),
        ctx.typifier.type_of(base, env.module.types) == Some(inner),
        !(inner is Vector || inner is Matrix || inner is Array || inner is Struct),
    ensures
        ({
            let d = inner_depth(env, ctx, depth);
            let based = expr_after(env, ctx, o, base, d);
            expr_output(env, Some(ctx), o, expr, depth) == based.fail(
                ErrorView::Custom(cannot_index_words(inner)),
            )
        }),
{
    expr_is_pieces(env, ctx, o, expr, depth);
    reveal_with_fuel(pieces_after, 8);
}

/// A constant expression is written as the constant.
#[verifier::rlimit(50)]
pub proof fn constant_expressions_are_constants(
    env: Env<'_>,
    ctx: FunctionCtx<'_>,
    o: Output,
    expr: Handle<Expression>,
    depth: Depth,
    constant: Handle<Constant>,
)
    requires
        is_form(ctx, o, expr, depth, (Expression::Constant(constant))),
    ensures
        ({
            let d = inner_depth(env, ctx, depth);
            expr_output(env, Some(ctx), o, expr, depth) == constant_after(
                env,
                Some(ctx),
                o,
                constant,
                d,
            )
        }),
{
    expr_is_pieces(env, ctx, o, expr, depth);
    reveal_with_fuel(pieces_after, 8);
}

/// A composition is written as the type, then all its components in order and in parentheses.
#[verifier::rlimit(50)]
pub proof fn compositions_are_calls_of_types(
    env: Env<'_>,
    ctx: FunctionCtx<'_>,
    o: Output,
    expr: Handle<Expression>,
    depth: Depth,
    ty: Handle<Type>,
    components: Vec<Handle<Expression>>,
)
    requires
        is_form(ctx, o, expr, depth, (Expression::Compose { ty, components })),
    ensures
        ({
            let d = inner_depth(env, ctx, depth);
            let typed = type_after(env, Some(ctx), o, ty, d).put("("@);
            expr_output(env, Some(ctx), o, expr, depth) == exprs_after(
                env,
                ctx,
                typed,
                components@,
                d,
            ).put(")"@)
        }),
{
    let d = inner_depth(env, ctx, depth);
    expr_is_pieces(env, ctx, o, expr, depth);
    reveal_with_fuel(pieces_after, 4);
    let list = separated(expr_items(components@));
    let first = seq![Piece::Type(ty), Piece::Text("("@)];
    let last = seq![Piece::Text(")"@)];
    assert(expr_pieces(env, ctx, ctx.expressions.at(expr)) =~= first + list + last);
    middle_is_written(env, Some(ctx), o, first, list, last, d);
    let o1 = pieces_after(env, Some(ctx), o, first, 2, d);
    list_is_exprs(env, ctx, o1, components@, d);
}

/// A call is written as the name of the function, then all its arguments in order and in
/// parentheses.
#[verifier::rlimit(50)]
pub proof fn calls_name_the_function(
    env: Env<'_>,
    ctx: FunctionCtx<'_>,
    o: Output,
    expr: Handle<Expression>,
    depth: Depth,
    function: Handle<Function>,
    arguments: Vec<Handle<Expression>>,
)
    requires
        is_form(ctx, o, expr, depth, (Expression::Call { function, arguments })),
    ensures
        ({
            let d = inner_depth(env, ctx, depth);
            let name = env.analysis.names.lookup(NameKey::Function(function));
            expr_output(env, Some(ctx), o, expr, depth) == exprs_after(
                env,
                ctx,
                name_after(o, name).put("("@),
                arguments@,
                d,
            ).put(")"@)
        }),
{
    let d = inner_depth(env, ctx, depth);
    expr_is_pieces(env, ctx, o, expr, depth);
    reveal_with_fuel(pieces_after, 4);
    let list = separated(expr_items(arguments@));
    let name = env.analysis.names.lookup(NameKey::Function(function));
    let pieces = expr_pieces(env, ctx, ctx.expressions.at(expr));
    let first = seq![pieces[0], Piece::Text("("@)];
    let last = seq![Piece::Text(")"@)];
    assert(pieces =~= first + list + last);
    middle_is_written(env, Some(ctx), o, first, list, last, d);
    let o1 = pieces_after(env, Some(ctx), o, first, 2, d);
    list_is_exprs(env, ctx, o1, arguments@, d);
}

/// An argument is written as its name, and entry points have none.
pub proof fn arguments_are_named(
    env: Env<'_>,
    ctx: FunctionCtx<'_>,
    o: Output,
    expr: Handle<Expression>,
    depth: Depth,
    position: u32,
)
    requires
        is_form(ctx, o, expr, depth, (Expression::FunctionArgument(position))),
    ensures
        ({
            expr_output(env, Some(ctx), o, expr, depth) == (match ctx.func {
                FunctionType::Function(function) => name_after(
                    o,
                    env.analysis.names.lookup(NameKey::FunctionArgument(function, position)),
                ),
                FunctionType::EntryPoint(_) => o.invalid(),
            })
        }),
{
    expr_is_pieces(env, ctx, o, expr, depth);
    reveal_with_fuel(pieces_after, 3);
}

/// A local variable is written as its name.
pub proof fn locals_are_named(
    env: Env<'_>,
    ctx: FunctionCtx<'_>,
    o: Output,
    expr: Handle<Expression>,
    depth: Depth,
    local: Handle<LocalVariable>,
)
    requires
        is_form(ctx, o, expr, depth, (Expression::LocalVariable(local))),
    ensures
        ({
            expr_output(env, Some(ctx), o, expr, depth) == name_after(
                o,
                env.analysis.names.lookup(
                    match ctx.func {
                        FunctionType::Function(function) => NameKey::FunctionLocal(function, local),
                        FunctionType::EntryPoint(index) => NameKey::EntryPointLocal(index, local),
                    },
                ),
            )
        }),
{
    expr_is_pieces(env, ctx, o, expr, depth);
    reveal_with_fuel(pieces_after, 3);
}

/// A builtin is written as its glsl variable, and every other global as its name.
pub proof fn globals_are_named(
    env: Env<'_>,
    ctx: FunctionCtx<'_>,
    o: Output,
    expr: Handle<Expression>,
    depth: Depth,
    global: Handle<GlobalVariable>,
)
    requires
        is_form(ctx, o, expr, depth, (Expression::GlobalVariable(global))),
        env.module.global_variables.has(global),
    ensures
        ({
            let binding = env.module.global_variables@[global.index as int].binding;
            expr_output(env, Some(ctx), o, expr, depth) == (match binding {
                Some(Binding::BuiltIn(built_in)) => o.put(built_in_name(built_in)),
                _ => name_after(
                    o,
                    env.analysis.names.lookup(NameKey::GlobalVariable(global)),
                ),
            })
        }),
{
    expr_is_pieces(env, ctx, o, expr, depth);
    reveal_with_fuel(pieces_after, 3);
}

/// A load is written as its pointer.
pub proof fn loads_are_pointers(
    env: Env<'_>,
    ctx: FunctionCtx<'_>,
    o: Output,
    expr: Handle<Expression>,
    depth: Depth,
    pointer: Handle<Expression>,
)
    requires
        is_form(ctx, o, expr, depth, (Expression::Load { pointer })),
    ensures
        ({
            let d = inner_depth(env, ctx, depth);
            expr_output(env, Some(ctx), o, expr, depth) == expr_after(env, ctx, o, pointer, d)
        }),
{
    expr_is_pieces(env, ctx, o, expr, depth);
    reveal_with_fuel(pieces_after, 3);
}

/// How many components a vector has.
pub open spec fn components_of(size: VectorSize) -> nat {
    match size {
        VectorSize::Bi => 2,
        VectorSize::Tri => 3,
        VectorSize::Quad => 4,
    }
}

/// One if there is an expression.
pub open spec fn one_if_some(expr: Option<Handle<Expression>>) -> nat {
    if expr is Some {
        1
    } else {
        0
    }
}

/// `o`, then the name of the function that samples with this level: only explicit levels have
/// functions of their own.
pub open spec fn sampling_after(o: Output, level: SampleLevel) -> Output {
    match level {
        SampleLevel::Auto => o.put("texture"@),
        SampleLevel::Bias(_) => o.put("texture"@),
        SampleLevel::Zero => o.put("textureLod"@),
        SampleLevel::Exact(_) => o.put("textureLod"@),
        SampleLevel::Gradient { .. } => o.put("textureGrad"@),
    }
}

/// `o`, then the arguments of a sample level.
pub open spec fn level_after(
    env: Env<'_>,
    ctx: FunctionCtx<'_>,
    o: Output,
    level: SampleLevel,
    depth: Depth,
) -> Output {
    match level {
        SampleLevel::Auto => o,
        SampleLevel::Zero => o.put(", 0"@),
        SampleLevel::Exact(expr) => argument_after(env, ctx, o, Some(expr), depth),
        SampleLevel::Bias(expr) => argument_after(env, ctx, o, Some(expr), depth),
        SampleLevel::Gradient { x, y } => argument_after(
            env,
            ctx,
            argument_after(env, ctx, o, Some(x), depth),
            Some(y),
            depth,
        ),
    }
}

/// Three pieces are written one after the other.
#[verifier::rlimit(50)]
proof fn three_pieces_are_written(
    env: Env<'_>,
    ctx: Option<FunctionCtx<'_>>,
    o: Output,
    pieces: Seq<Piece>,
    depth: Depth,
)
    ensures
        ({
            let o1 = piece_after(env, ctx, o, pieces[0], depth);
            let o2 = piece_after(env, ctx, o1, pieces[1], depth);
            pieces_after(env, ctx, o, pieces, 3, depth) == piece_after(
                env,
                ctx,
                o2,
                pieces[2],
                depth,
            )
        }),
{
    reveal_with_fuel(pieces_after, 4);
}

/// One more piece is written after the others.
proof fn push_is_written(
    env: Env<'_>,
    ctx: Option<FunctionCtx<'_>>,
    o: Output,
    pieces: Seq<Piece>,
    piece: Piece,
    depth: Depth,
)
    ensures
        pieces_after(env, ctx, o, pieces.push(piece), pieces.len() + 1, depth) == piece_after(
            env,
            ctx,
            pieces_after(env, ctx, o, pieces, pieces.len(), depth),
            piece,
            depth,
        ),
{
    pieces_after_prefix(env, ctx, o, pieces, pieces.push(piece), pieces.len(), depth);
}

/// Another argument is written after the others.
proof fn argument_is_written(
    env: Env<'_>,
    ctx: FunctionCtx<'_>,
    o: Output,
    pieces: Seq<Piece>,
    argument: Option<Handle<Expression>>,
    depth: Depth,
)
    ensures
        ({
            let all = with_argument(pieces, argument);
            let before = pieces_after(env, Some(ctx), o, pieces, pieces.len(), depth);
            pieces_after(env, Some(ctx), o, all, all.len(), depth) == argument_after(
                env,
                ctx,
                before,
                argument,
                depth,
            )
        }),
{
    if let Some(expr) = argument {
        let comma = Piece::Text(", "@);
        push_is_written(env, Some(ctx), o, pieces, comma, depth);
        push_is_written(env, Some(ctx), o, pieces.push(comma), Piece::Expr(expr), depth);
    }
}

/// The arguments of a sample level are written after the others.
proof fn level_is_written(
    env: Env<'_>,
    ctx: FunctionCtx<'_>,
    o: Output,
    pieces: Seq<Piece>,
    level: SampleLevel,
    depth: Depth,
)
    ensures
        ({
            let all = with_sample_level(pieces, level);
            let before = pieces_after(env, Some(ctx), o, pieces, pieces.len(), depth);
            pieces_after(env, Some(ctx), o, all, all.len(), depth) == level_after(
                env,
                ctx,
                before,
                level,
                depth,
            )
        }),
{
    match level {
        SampleLevel::Auto => {},
        SampleLevel::Zero => {
            push_is_written(env, Some(ctx), o, pieces, Piece::Text(", 0"@), depth);
        },
        SampleLevel::Exact(expr) | SampleLevel::Bias(expr) => {
            argument_is_written(env, ctx, o, pieces, Some(expr), depth);
        },
        SampleLevel::Gradient { x, y } => {
            argument_is_written(env, ctx, o, pieces, Some(x), depth);
            argument_is_written(env, ctx, o, with_argument(pieces, Some(x)), Some(y), depth);
        },
    }
}

/// A sample is written as a call with the image and a vector, then what the level needs. The vector
/// has one component for each component of the coordinate, one for the array index if there is one
/// and one for the depth reference if there is one, and is made of just these.
#[verifier::rlimit(60)]
pub proof fn samples_use_all_coordinates(
    env: Env<'_>,
    ctx: FunctionCtx<'_>,
    o: Output,
    expr: Handle<Expression>,
    depth: Depth,
    image: Handle<Expression>,
    sampler: Handle<Expression>,
    coordinate: Handle<Expression>,
    array_index: Option<Handle<Expression>>,
    offset: Option<Handle<Constant>>,
    level: SampleLevel,
    depth_ref: Option<Handle<Expression>>,
    size: VectorSize,
)
    requires
        is_form(ctx, o, expr, depth, (Expression::ImageSample {
            image,
            sampler,
            coordinate,
            array_index,
            offset,
            level,
            depth_ref,
        })),
        ctx.typifier.type_of(coordinate, env.module.types) matches Some(
            TypeInner::Vector { size: s, .. },
        ) && s == size,
    ensures
        ({
            let d = inner_depth(env, ctx, depth);
            expr_output(env, Some(ctx), o, expr, depth) == ({
                let n = components_of(size) + one_if_some(array_index) + one_if_some(depth_ref);
                let o1 = expr_after(env, ctx, sampling_after(o, level).put("("@), image, d);
                let o2 = o1.put(", "@).put("vec"@).put(decimal(n)).put("("@);
                let o3 = expr_after(env, ctx, o2, coordinate, d);
                let o4 = argument_after(env, ctx, o3, array_index, d);
                let o5 = argument_after(env, ctx, o4, depth_ref, d);
                level_after(env, ctx, o5.put(")"@), level, d).put(")"@)
            })
        }),
{
    let d = inner_depth(env, ctx, depth);
    expr_is_pieces(env, ctx, o, expr, depth);
    reveal_with_fuel(pieces_after, 1);
    let pieces = expr_pieces(env, ctx, ctx.expressions.at(expr));
    let n = components_of(size) + one_if_some(array_index) + one_if_some(depth_ref);
    let u1 = pieces.take(3);
    let u2 = u1.push(Piece::Text(", "@));
    let u3 = u2.push(Piece::Text("vec"@));
    let u4 = u3.push(Piece::Text(decimal(n)));
    let u5 = u4.push(Piece::Text("("@));
    let v1 = u5.push(Piece::Expr(coordinate));
    three_pieces_are_written(env, Some(ctx), o, u1, d);
    push_is_written(env, Some(ctx), o, u1, Piece::Text(", "@), d);
    push_is_written(env, Some(ctx), o, u2, Piece::Text("vec"@), d);
    push_is_written(env, Some(ctx), o, u3, Piece::Text(decimal(n)), d);
    push_is_written(env, Some(ctx), o, u4, Piece::Text("("@), d);
    push_is_written(env, Some(ctx), o, u5, Piece::Expr(coordinate), d);
    let v2 = with_argument(v1, array_index);
    let v3 = with_argument(v2, depth_ref);
    let v4 = v3.push(Piece::Text(")"@));
    let v5 = with_sample_level(v4, level);
    assert(pieces =~= v5.push(Piece::Text(")"@)));
    argument_is_written(env, ctx, o, v1, array_index, d);
    argument_is_written(env, ctx, o, v2, depth_ref, d);
    push_is_written(env, Some(ctx), o, v3, Piece::Text(")"@), d);
    level_is_written(env, ctx, o, v4, level, d);
    push_is_written(env, Some(ctx), o, v5, Piece::Text(")"@), d);
}

/// A load from an image is written as a call with the image, the coordinate and the level if there
/// is one. The function is that of sampled or of storage images. A layer goes into a vector with
/// the coordinate, which has one component more than the image has dimensions, except for cubes.
#[verifier::rlimit(60)]
pub proof fn loads_from_images_are_calls(
    env: Env<'_>,
    ctx: FunctionCtx<'_>,
    o: Output,
    expr: Handle<Expression>,
    depth: Depth,
    image: Handle<Expression>,
    coordinate: Handle<Expression>,
    array_index: Option<Handle<Expression>>,
    index: Option<Handle<Expression>>,
    dim: ImageDimension,
    class: ImageClass,
)
    requires
        is_form(ctx, o, expr, depth, (Expression::ImageLoad {
            image,
            coordinate,
            array_index,
            index,
        })),
        !(class is Depth),
        ctx.typifier.type_of(image, env.module.types) matches Some(
            TypeInner::Image { dim: m, class: c, .. },
        ) && m == dim && c == class,
    ensures
        ({
            let d = inner_depth(env, ctx, depth);
            expr_output(env, Some(ctx), o, expr, depth) == ({
                let o1 = match class {
                    ImageClass::Storage(_) => o.put("imageLoad"@),
                    _ => o.put("texelFetch"@),
                };
                let o2 = expr_after(env, ctx, o1.put("("@), image, d).put(", "@);
                let o3 = match array_index {
                    None => expr_after(env, ctx, o2, coordinate, d),
                    Some(layer) => {
                        let vector = match dim {
                            ImageDimension::D1 => o2.put("ivec2"@),
                            ImageDimension::D2 => o2.put("ivec3"@),
                            ImageDimension::D3 => o2.put("ivec4"@),
                            ImageDimension::Cube => o2.put("ivec4"@),
                        };
                        let o3 = expr_after(env, ctx, vector.put("("@), coordinate, d);
                        expr_after(env, ctx, o3.put(", "@), layer, d).put(")"@)
                    },
                };
                argument_after(env, ctx, o3, index, d).put(")"@)
            })
        }),
{
    let d = inner_depth(env, ctx, depth);
    expr_is_pieces(env, ctx, o, expr, depth);
    reveal_with_fuel(pieces_after, 1);
    let pieces = expr_pieces(env, ctx, ctx.expressions.at(expr));
    let comma = Piece::Text(", "@);
    let u1 = pieces.take(3);
    let u2 = u1.push(comma);
    three_pieces_are_written(env, Some(ctx), o, u1, d);
    push_is_written(env, Some(ctx), o, u1, comma, d);
    let v = match array_index {
        None => {
            push_is_written(env, Some(ctx), o, u2, Piece::Expr(coordinate), d);
            u2.push(Piece::Expr(coordinate))
        },
        Some(layer) => {
            let u3 = u2.push(pieces[4]);
            let u4 = u3.push(Piece::Text("("@));
            let u5 = u4.push(Piece::Expr(coordinate));
            let u6 = u5.push(comma);
            let u7 = u6.push(Piece::Expr(layer));
            push_is_written(env, Some(ctx), o, u2, pieces[4], d);
            push_is_written(env, Some(ctx), o, u3, Piece::Text("("@), d);
            push_is_written(env, Some(ctx), o, u4, Piece::Expr(coordinate), d);
            push_is_written(env, Some(ctx), o, u5, comma, d);
            push_is_written(env, Some(ctx), o, u6, Piece::Expr(layer), d);
            push_is_written(env, Some(ctx), o, u7, Piece::Text(")"@), d);
            u7.push(Piece::Text(")"@))
        },
    };
    let w = with_argument(v, index);
    assert(pieces =~= w.push(Piece::Text(")"@)));
    argument_is_written(env, ctx, o, v, index, d);
    push_is_written(env, Some(ctx), o, w, Piece::Text(")"@), d);
}

/// A negation is written as the operator and the operand in parentheses.
#[verifier::rlimit(50)]
pub proof fn negations_are_wrapped(
    env: Env<'_>,
    ctx: FunctionCtx<'_>,
    o: Output,
    expr: Handle<Expression>,
    depth: Depth,
    operand: Handle<Expression>,
)
    requires
        is_form(ctx, o, expr, depth, (Expression::Unary {
            op: UnaryOperator::Negate,
            expr: operand,
        })),
    ensures
        ({
            let d = inner_depth(env, ctx, depth);
            expr_output(env, Some(ctx), o, expr, depth) == expr_after(
                env,
                ctx,
                o.put("("@).put("-"@).put(" "@),
                operand,
                d,
            ).put(")"@)
        }),
{
    expr_is_pieces(env, ctx, o, expr, depth);
    reveal_with_fuel(pieces_after, 8);
}

/// A logical negation is written with one operator for integers and another one for booleans, and
/// rejected for everything else before anything is written.
#[verifier::rlimit(50)]
pub proof fn complements_depend_on_the_type(
    env: Env<'_>,
    ctx: FunctionCtx<'_>,
    o: Output,
    expr: Handle<Expression>,
    depth: Depth,
    operand: Handle<Expression>,
    inner: TypeInner,
)
    requires
        is_form(ctx, o, expr, depth, (Expression::Unary { op: UnaryOperator::Not, expr: operand })),
        ctx.typifier.type_of(operand, env.module.types) == Some(inner),
    ensures
        ({
            let d = inner_depth(env, ctx, depth);
            expr_output(env, Some(ctx), o, expr, depth) == (match inner {
                TypeInner::Scalar { kind: ScalarKind::Bool, .. } => expr_after(
                    env,
                    ctx,
                    o.put("("@).put("!"@).put(" "@),
                    operand,
                    d,
                ).put(")"@),
                TypeInner::Scalar { kind: ScalarKind::Sint | ScalarKind::Uint, .. } => expr_after(
                    env,
                    ctx,
                    o.put("("@).put("~"@).put(" "@),
                    operand,
                    d,
                ).put(")"@),
                _ => o.fail(ErrorView::Custom(cannot_apply_not_words(inner))),
            })
        }),
{
    expr_is_pieces(env, ctx, o, expr, depth);
    reveal_with_fuel(pieces_after, 8);
}

/// A binary operator is written between its operands, left and right in this order, and everything
/// in parentheses.
#[verifier::rlimit(50)]
pub proof fn binary_operators_are_infix(
    env: Env<'_>,
    ctx: FunctionCtx<'_>,
    o: Output,
    expr: Handle<Expression>,
    depth: Depth,
    op: BinaryOperator,
    left: Handle<Expression>,
    right: Handle<Expression>,
)
    requires
        is_form(ctx, o, expr, depth, (Expression::Binary { op, left, right })),
    ensures
        ({
            let d = inner_depth(env, ctx, depth);
            expr_output(env, Some(ctx), o, expr, depth) == ({
                let o1 = expr_after(env, ctx, o.put("("@), left, d);
                let o2 = o1.put(" "@).put(binary_operator_text(op)).put(" "@);
                expr_after(env, ctx, o2, right, d).put(")"@)
            })
        }),
{
    expr_is_pieces(env, ctx, o, expr, depth);
    reveal_with_fuel(pieces_after, 9);
}

/// A selection is written as a conditional in parentheses: the condition, what it accepts, then
/// what it rejects.
#[verifier::rlimit(50)]
pub proof fn selections_are_conditionals(
    env: Env<'_>,
    ctx: FunctionCtx<'_>,
    o: Output,
    expr: Handle<Expression>,
    depth: Depth,
    condition: Handle<Expression>,
    accept: Handle<Expression>,
    reject: Handle<Expression>,
)
    requires
        is_form(ctx, o, expr, depth, (Expression::Select { condition, accept, reject })),
    ensures
        ({
            let d = inner_depth(env, ctx, depth);
            expr_output(env, Some(ctx), o, expr, depth) == ({
                let o1 = expr_after(env, ctx, o.put("("@), condition, d);
                let o2 = expr_after(env, ctx, o1.put(" ? "@), accept, d);
                expr_after(env, ctx, o2.put(" : "@), reject, d).put(")"@)
            })
        }),
{
    expr_is_pieces(env, ctx, o, expr, depth);
    reveal_with_fuel(pieces_after, 9);
}

/// A derivative is written as a call with its operand.
#[verifier::rlimit(50)]
pub proof fn derivatives_are_calls(
    env: Env<'_>,
    ctx: FunctionCtx<'_>,
    o: Output,
    expr: Handle<Expression>,
    depth: Depth,
    axis: DerivativeAxis,
    operand: Handle<Expression>,
)
    requires
        is_form(ctx, o, expr, depth, (Expression::Derivative { axis, expr: operand })),
    ensures
        ({
            let d = inner_depth(env, ctx, depth);
            expr_output(env, Some(ctx), o, expr, depth) == expr_after(
                env,
                ctx,
                o.put(derivative_function(axis)).put("("@),
                operand,
                d,
            ).put(")"@)
        }),
{
    expr_is_pieces(env, ctx, o, expr, depth);
    reveal_with_fuel(pieces_after, 5);
}

/// A relation is written as a call with its operand.
#[verifier::rlimit(50)]
pub proof fn relations_are_calls(
    env: Env<'_>,
    ctx: FunctionCtx<'_>,
    o: Output,
    expr: Handle<Expression>,
    depth: Depth,
    fun: RelationalFunction,
    operand: Handle<Expression>,
)
    requires
        is_form(ctx, o, expr, depth, (Expression::Relational { fun, argument: operand })),
    ensures
        ({
            let d = inner_depth(env, ctx, depth);
            expr_output(env, Some(ctx), o, expr, depth) == expr_after(
                env,
                ctx,
                o.put(relational_function(fun)).put("("@),
                operand,
                d,
            ).put(")"@)
        }),
{
    expr_is_pieces(env, ctx, o, expr, depth);
    reveal_with_fuel(pieces_after, 5);
}

/// A math function is written as a call with all its arguments in order.
#[verifier::rlimit(50)]
pub proof fn math_functions_are_calls(
    env: Env<'_>,
    ctx: FunctionCtx<'_>,
    o: Output,
    expr: Handle<Expression>,
    depth: Depth,
    fun: MathFunction,
    arg: Handle<Expression>,
    arg1: Option<Handle<Expression>>,
    arg2: Option<Handle<Expression>>,
)
    requires
        is_form(ctx, o, expr, depth, (Expression::Math { fun, arg, arg1, arg2 })),
    ensures
        ({
            let d = inner_depth(env, ctx, depth);
            expr_output(env, Some(ctx), o, expr, depth) == ({
                let o1 = expr_after(env, ctx, o.put(math_function(fun)).put("("@), arg, d);
                argument_after(env, ctx, argument_after(env, ctx, o1, arg1, d), arg2, d).put(
                    ")"@,
                )
            })
        }),
{
    expr_is_pieces(env, ctx, o, expr, depth);
    reveal_with_fuel(pieces_after, 10);
}

/// The length of an array is written as the call of a method, converted to an unsigned integer.
#[verifier::rlimit(50)]
pub proof fn array_lengths_are_unsigned(
    env: Env<'_>,
    ctx: FunctionCtx<'_>,
    o: Output,
    expr: Handle<Expression>,
    depth: Depth,
    array: Handle<Expression>,
)
    requires
        is_form(ctx, o, expr, depth, (Expression::ArrayLength(array))),
    ensures
        ({
            let d = inner_depth(env, ctx, depth);
            expr_output(env, Some(ctx), o, expr, depth) == expr_after(
                env,
                ctx,
                o.put("uint("@),
                array,
                d,
            ).put(".length())"@)
        }),
{
    expr_is_pieces(env, ctx, o, expr, depth);
    reveal_with_fuel(pieces_after, 5);
}

/// `o`, then the name of a scalar type.
pub open spec fn scalar_after(o: Output, kind: ScalarKind, width: Bytes) -> Output {
    match kind {
        ScalarKind::Sint => o.put("int"@),
        ScalarKind::Uint => o.put("uint"@),
        ScalarKind::Bool => o.put("bool"@),
        ScalarKind::Float => if width == 4 {
            o.put("float"@)
        } else if width == 8 {
            o.put("double"@)
        } else {
            o.fail(ErrorView::UnsupportedScalar(kind, width))
        },
    }
}

/// `o`, then the letter that marks types made of a scalar; floats have none.
pub open spec fn letter_after(o: Output, kind: ScalarKind, width: Bytes) -> Output {
    match kind {
        ScalarKind::Sint => o.put("i"@),
        ScalarKind::Uint => o.put("u"@),
        ScalarKind::Bool => o.put("b"@),
        ScalarKind::Float => if width == 4 {
            o.put(""@)
        } else if width == 8 {
            o.put("d"@)
        } else {
            o.fail(ErrorView::UnsupportedScalar(kind, width))
        },
    }
}

/// A conversion is written as a call of the type that is converted to. A scalar becomes a scalar of
/// the target kind, and a vector a vector of the target kind and of the same size; floats are
/// doubles only if the source is as wide as a double. Everything else keeps its declared type.
#[verifier::rlimit(50)]
pub proof fn conversions_call_the_target_type(
    env: Env<'_>,
    ctx: FunctionCtx<'_>,
    o: Output,
    expr: Handle<Expression>,
    depth: Depth,
    operand: Handle<Expression>,
    kind: ScalarKind,
    inner: TypeInner,
)
    requires
        is_form(ctx, o, expr, depth, (Expression::As { expr: operand, kind, convert: true })),
        ctx.typifier.type_of(operand, env.module.types) == Some(inner),
    ensures
        ({
            let d = inner_depth(env, ctx, depth);
            expr_output(env, Some(ctx), o, expr, depth) == ({
                let o1 = match inner {
                    TypeInner::Scalar { width, .. } => scalar_after(
                        o,
                        kind,
                        if width == 8 {
                            8
                        } else {
                            4
                        },
                    ),
                    TypeInner::Vector { size, width, .. } => letter_after(
                        o,
                        kind,
                        if width == 8 {
                            8
                        } else {
                            4
                        },
                    ).put("vec"@).put(decimal(components_of(size))),
                    _ => match ctx.typifier.declared_type_of(operand) {
                        Some(ty) => type_after(env, Some(ctx), o, ty, d),
                        None => o.invalid(),
                    },
                };
                expr_after(env, ctx, o1.put("("@), operand, d).put(")"@)
            })
        }),
{
    expr_is_pieces(env, ctx, o, expr, depth);
    reveal_with_fuel(pieces_after, 8);
}

/// A bitcast of a scalar or a vector is written as a call of the function between the two kinds, of
/// which one must be float and the other an integer. All other bitcasts are rejected.
#[verifier::rlimit(50)]
pub proof fn bitcasts_call_functions(
    env: Env<'_>,
    ctx: FunctionCtx<'_>,
    o: Output,
    expr: Handle<Expression>,
    depth: Depth,
    operand: Handle<Expression>,
    kind: ScalarKind,
    inner: TypeInner,
)
    requires
        is_form(ctx, o, expr, depth, (Expression::As { expr: operand, kind, convert: false })),
        ctx.typifier.type_of(operand, env.module.types) == Some(inner),
        inner is Scalar || inner is Vector,
    ensures
        ({
            let d = inner_depth(env, ctx, depth);
            expr_output(env, Some(ctx), o, expr, depth) == ({
                let source = match inner {
                    TypeInner::Scalar { kind, .. } => kind,
                    TypeInner::Vector { kind, .. } => kind,
                    _ => ScalarKind::Bool,
                };
                let o1 = if source is Float && kind is Sint {
                    o.put("floatBitsToInt"@)
                } else if source is Float && kind is Uint {
                    o.put("floatBitsToUint"@)
                } else if source is Sint && kind is Float {
                    o.put("intBitsToFloat"@)
                } else if source is Uint && kind is Float {
                    o.put("uintBitsToFloat"@)
                } else {
                    o.fail(ErrorView::Custom(cannot_bitcast_words(source, kind)))
                };
                expr_after(env, ctx, o1.put("("@), operand, d).put(")"@)
            })
        }),
{
    expr_is_pieces(env, ctx, o, expr, depth);
    reveal_with_fuel(pieces_after, 6);
}

/// An access with a known index into a vector, a matrix or an array is written as an access whose
/// index is an expression that is written as the numeral of that index.
pub proof fn both_accesses_are_written_alike(
    env: Env<'_>,
    ctx: FunctionCtx<'_>,
    o: Output,
    known: Handle<Expression>,
    computed: Handle<Expression>,
    depth: Depth,
    base: Handle<Expression>,
    index: u32,
    literal: Handle<Expression>,
)
    requires
        is_form(ctx, o, known, depth, (Expression::AccessIndex { base, index })),
        is_form(ctx, o, computed, depth, (Expression::Access { base, index: literal })),
        ctx.typifier.type_of(base, env.module.types) matches Some(inner) && (inner is Vector
            || inner is Matrix || inner is Array),
        forall|x: Output|
            x.status is Running ==> #[trigger] expr_output(
                env,
                Some(ctx),
                x,
                literal,
                inner_depth(env, ctx, depth),
            ) == x.put(decimal(index as nat)),
    ensures
        expr_output(env, Some(ctx), o, known, depth) == expr_output(
            env,
            Some(ctx),
            o,
            computed,
            depth,
        ),
{
    accesses_are_indexing(env, ctx, o, computed, depth, base, literal);
    constant_accesses_are_indexing(env, ctx, o, known, depth, base, index);
}

/// A scalar is written by its name.
pub proof fn scalars_have_names(
    env: Env<'_>,
    ctx: Option<FunctionCtx<'_>>,
    o: Output,
    ty: Handle<Type>,
    depth: Depth,
    kind: ScalarKind,
    width: Bytes,
)
    requires
        o.status is Running,
        depth.types > 0,
        env.module.types.has(ty),
        env.module.types.at(ty).inner == (TypeInner::Scalar { kind, width }),
    ensures
        type_output(env, ctx, o, ty, depth) == scalar_after(o, kind, width),
{
    let d = Depth { types: (depth.types - 1) as usize, ..depth };
    let pieces = type_pieces(env, ty);
    pieces_follow_one_another(env, ctx, o, pieces, pieces.len(), d);
    reveal_with_fuel(pieces_after, 3);
}

/// A vector is written as the letter of its scalar, then `vec` and how many components it has.
#[verifier::rlimit(50)]
pub proof fn vectors_have_their_size(
    env: Env<'_>,
    ctx: Option<FunctionCtx<'_>>,
    o: Output,
    ty: Handle<Type>,
    depth: Depth,
    size: VectorSize,
    kind: ScalarKind,
    width: Bytes,
)
    requires
        o.status is Running,
        depth.types > 0,
        env.module.types.has(ty),
        env.module.types.at(ty).inner == (TypeInner::Vector { size, kind, width }),
    ensures
        type_output(env, ctx, o, ty, depth) == letter_after(o, kind, width).put("vec"@).put(
            decimal(components_of(size)),
        ),
{
    let d = Depth { types: (depth.types - 1) as usize, ..depth };
    let pieces = type_pieces(env, ty);
    pieces_follow_one_another(env, ctx, o, pieces, pieces.len(), d);
    reveal_with_fuel(pieces_after, 7);
}

/// A matrix is written as the letter of its floats, then `mat`, its columns, `x` and its rows.
#[verifier::rlimit(50)]
pub proof fn matrices_have_columns_and_rows(
    env: Env<'_>,
    ctx: Option<FunctionCtx<'_>>,
    o: Output,
    ty: Handle<Type>,
    depth: Depth,
    columns: VectorSize,
    rows: VectorSize,
    width: Bytes,
)
    requires
        o.status is Running,
        depth.types > 0,
        env.module.types.has(ty),
        env.module.types.at(ty).inner == (TypeInner::Matrix { columns, rows, width }),
    ensures
        type_output(env, ctx, o, ty, depth) == letter_after(o, ScalarKind::Float, width).put(
            "mat"@,
        ).put(decimal(components_of(columns))).put("x"@).put(decimal(components_of(rows))),
{
    let d = Depth { types: (depth.types - 1) as usize, ..depth };
    let pieces = type_pieces(env, ty);
    pieces_follow_one_another(env, ctx, o, pieces, pieces.len(), d);
    reveal_with_fuel(pieces_after, 7);
}

/// An array is written as its base, then its size in brackets, which are empty if the size isn't
/// known. The size must be an unsigned constant.
#[verifier::rlimit(50)]
pub proof fn arrays_have_their_size(
    env: Env<'_>,
    ctx: Option<FunctionCtx<'_>>,
    o: Output,
    ty: Handle<Type>,
    depth: Depth,
    base: Handle<Type>,
    size: ArraySize,
    stride: Option<u32>,
)
    requires
        o.status is Running,
        depth.types > 0,
        env.module.types.has(ty),
        env.module.types.at(ty).inner == (TypeInner::Array { base, size, stride }),
    ensures
        ({
            let d = Depth { types: (depth.types - 1) as usize, ..depth };
            type_output(env, ctx, o, ty, depth) == ({
                let o1 = type_after(env, ctx, o, base, d).put("["@);
                let o2 = match size {
                    ArraySize::Dynamic => o1,
                    ArraySize::Constant(constant) => if constant.index
                        < env.module.constants@.len() {
                        match env.module.constants@[constant.index as int].inner {
                            ConstantInner::Uint(n) => o1.put(decimal(n as nat)),
                            _ => o1.invalid(),
                        }
                    } else {
                        o1.invalid()
                    },
                };
                o2.put("]"@)
            })
        }),
{
    let d = Depth { types: (depth.types - 1) as usize, ..depth };
    let pieces = type_pieces(env, ty);
    pieces_follow_one_another(env, ctx, o, pieces, pieces.len(), d);
    reveal_with_fuel(pieces_after, 7);
}

/// A struct that is no interface block is written by its name.
pub proof fn structs_are_named(
    env: Env<'_>,
    ctx: Option<FunctionCtx<'_>>,
    o: Output,
    ty: Handle<Type>,
    depth: Depth,
    members: Vec<StructMember>,
)
    requires
        o.status is Running,
        depth.types > 0,
        env.module.types.has(ty),
        env.module.types.at(ty).inner == (TypeInner::Struct { block: false, members }),
    ensures
        type_output(env, ctx, o, ty, depth) == name_after(
            o,
            env.analysis.names.lookup(NameKey::Type(ty)),
        ),
{
    let d = Depth { types: (depth.types - 1) as usize, ..depth };
    let pieces = type_pieces(env, ty);
    pieces_follow_one_another(env, ctx, o, pieces, pieces.len(), d);
    reveal_with_fuel(pieces_after, 3);
}

/// `o`, then the first `count` members of a struct, each on a line of its own.
pub open spec fn members_after(
    env: Env<'_>,
    ctx: Option<FunctionCtx<'_>>,
    o: Output,
    ty: Handle<Type>,
    members: Seq<StructMember>,
    count: nat,
    depth: Depth,
) -> Output
    decreases count,
{
    if count == 0 {
        o
    } else {
        let before = members_after(env, ctx, o, ty, members, (count - 1) as nat, depth);
        let typed = type_after(env, ctx, before.put("\t"@), members[count - 1].ty, depth);
        name_after(
            typed.put(" "@),
            env.analysis.names.lookup(NameKey::StructMember(ty, (count - 1) as u32)),
        ).put(";\n"@)
    }
}

/// The members of a struct are written one after the other.
#[verifier::rlimit(50)]
pub proof fn members_follow_one_another(
    env: Env<'_>,
    ctx: Option<FunctionCtx<'_>>,
    o: Output,
    ty: Handle<Type>,
    members: Seq<StructMember>,
    count: nat,
    depth: Depth,
)
    ensures
        ({
            let pieces = member_pieces(env, ty, members, count);
            pieces_after(env, ctx, o, pieces, pieces.len(), depth) == members_after(
                env,
                ctx,
                o,
                ty,
                members,
                count,
                depth,
            )
        }),
    decreases count,
{
    if count > 0 {
        let k = (count - 1) as nat;
        let pieces = member_pieces(env, ty, members, count);
        let before = member_pieces(env, ty, members, k);
        let rest = pieces.skip(before.len() as int);
        assert(pieces =~= before + rest);
        assert(rest.len() == 5);
        members_follow_one_another(env, ctx, o, ty, members, k, depth);
        pieces_after_concatenation(env, ctx, o, before, rest, 5, depth);
        reveal_with_fuel(pieces_after, 6);
    }
}

/// An interface block is written as the name of the struct, `_block_`, a new number, and all its
/// members in order and in braces.
#[verifier::rlimit(50)]
pub proof fn blocks_have_all_their_members(
    env: Env<'_>,
    ctx: Option<FunctionCtx<'_>>,
    o: Output,
    ty: Handle<Type>,
    depth: Depth,
    members: Vec<StructMember>,
)
    requires
        o.status is Running,
        depth.types > 0,
        env.module.types.has(ty),
        env.module.types.at(ty).inner == (TypeInner::Struct { block: true, members }),
    ensures
        ({
            let d = Depth { types: (depth.types - 1) as usize, ..depth };
            type_output(env, ctx, o, ty, depth) == ({
                let o1 = name_after(o, env.analysis.names.lookup(NameKey::Type(ty)));
                let o2 = o1.put("_block_"@).put_id().put(" {\n"@);
                members_after(env, ctx, o2, ty, members@, members@.len(), d).put("}"@)
            })
        }),
{
    let d = Depth { types: (depth.types - 1) as usize, ..depth };
    let pieces = type_pieces(env, ty);
    pieces_follow_one_another(env, ctx, o, pieces, pieces.len(), d);
    reveal_with_fuel(pieces_after, 5);
    let first = pieces.take(4);
    let middle = member_pieces(env, ty, members@, members@.len());
    let last = seq![Piece::Text("}"@)];
    assert(pieces =~= first + middle + last);
    middle_is_written(env, ctx, o, first, middle, last, d);
    let o1 = pieces_after(env, ctx, o, first, 4, d);
    members_follow_one_another(env, ctx, o1, ty, members@, members@.len(), d);
}

/// Images and samplers aren't written as types.
pub proof fn images_and_samplers_are_no_types(
    env: Env<'_>,
    ctx: Option<FunctionCtx<'_>>,
    o: Output,
    ty: Handle<Type>,
    depth: Depth,
)
    requires
        o.status is Running,
        env.module.types.has(ty),
        env.module.types.at(ty).inner is Image || env.module.types.at(ty).inner is Sampler,
    ensures
        type_output(env, ctx, o, ty, depth) == o.invalid(),
{
    let d = Depth { types: (depth.types - 1) as usize, ..depth };
    let pieces = type_pieces(env, ty);
    pieces_follow_one_another(env, ctx, o, pieces, pieces.len(), d);
    reveal_with_fuel(pieces_after, 2);
}

/// Constants are written by their value: signed integers as numerals, unsigned ones with a `u`
/// behind, floats as their literal, booleans in words, and composites as the type, then all the
/// components in order and in parentheses.
#[verifier::rlimit(50)]
pub proof fn constants_have_their_value(
    env: Env<'_>,
    ctx: Option<FunctionCtx<'_>>,
    o: Output,
    constant: Handle<Constant>,
    depth: Depth,
)
    requires
        o.status is Running,
        depth.constants > 0,
        env.module.constants.has(constant),
    ensures
        ({
            let d = Depth {
                constants: (depth.constants - 1) as usize,
                types: full_depth(env, ctx).types,
                ..depth
            };
            let value = env.module.constants@[constant.index as int];
            constant_output(env, ctx, o, constant, depth) == match value.inner {
                ConstantInner::Sint(n) => o.put(signed_decimal(n as int)),
                ConstantInner::Uint(n) => o.put(decimal(n as nat)).put("u"@),
                ConstantInner::Float(literal) => o.put(literal@),
                ConstantInner::Bool(b) => o.put(
                    if b {
                        "true"@
                    } else {
                        "false"@
                    },
                ),
                ConstantInner::Composite(components) => constants_after(
                    env,
                    ctx,
                    type_after(env, ctx, o, value.ty, d).put("("@),
                    components@,
                    d,
                ).put(")"@),
            }
        }),
{
    let d = Depth {
        constants: (depth.constants - 1) as usize,
        types: full_depth(env, ctx).types,
        ..depth
    };
    let value = env.module.constants@[constant.index as int];
    let pieces = constant_pieces(value);
    pieces_follow_one_another(env, ctx, o, pieces, pieces.len(), d);
    reveal_with_fuel(pieces_after, 4);
    if let ConstantInner::Composite(components) = value.inner {
        let list = separated(constant_items(components@));
        let first = seq![Piece::Type(value.ty), Piece::Text("("@)];
        let last = seq![Piece::Text(")"@)];
        assert(pieces =~= first + list + last);
        middle_is_written(env, ctx, o, first, list, last, d);
        let o1 = pieces_after(env, ctx, o, first, 2, d);
        list_is_constants(env, ctx, o1, components@, d);
    }
}

/// The vector that a sample takes its coordinates from has one component more if the coordinate has
/// one component more, if there is an array index, and if there is a depth reference.
pub proof fn samples_count_their_coordinates(
    coordinate: nat,
    array_index: Handle<Expression>,
    depth_ref: Handle<Expression>,
    layer: Option<Handle<Expression>>,
    reference: Option<Handle<Expression>>,
)
    ensures
        sample_dimension(0, None, None) == 0,
        sample_dimension(coordinate + 1, layer, reference) == sample_dimension(
            coordinate,
            layer,
            reference,
        ) + 1,
        sample_dimension(coordinate, Some(array_index), reference) == sample_dimension(
            coordinate,
            None,
            reference,
        ) + 1,
        sample_dimension(coordinate, layer, Some(depth_ref)) == sample_dimension(
            coordinate,
            layer,
            None,
        ) + 1,
{
}

/// A pointer is written as the type that it points to.
pub proof fn pointers_are_what_they_point_to(
    env: Env<'_>,
    ctx: Option<FunctionCtx<'_>>,
    o: Output,
    ty: Handle<Type>,
    depth: Depth,
    base: Handle<Type>,
    class: StorageClass,
)
    requires
        o.status is Running,
        depth.types > 0,
        env.module.types.has(ty),
        env.module.types.at(ty).inner == (TypeInner::Pointer { base, class }),
    ensures
        ({
            let d = Depth { types: (depth.types - 1) as usize, ..depth };
            type_output(env, ctx, o, ty, depth) == type_after(env, ctx, o, base, d)
        }),
{
    let d = Depth { types: (depth.types - 1) as usize, ..depth };
    let pieces = type_pieces(env, ty);
    pieces_follow_one_another(env, ctx, o, pieces, pieces.len(), d);
    reveal_with_fuel(pieces_after, 2);
}

/// Handles that point nowhere make a module invalid.
pub proof fn dangling_handles_are_invalid(
    env: Env<'_>,
    ctx: FunctionCtx<'_>,
    o: Output,
    expr: Handle<Expression>,
    ty: Handle<Type>,
    constant: Handle<Constant>,
    depth: Depth,
)
    requires
        o.status is Running,
    ensures
        expr.index >= ctx.expressions@.len() ==> expr_output(env, Some(ctx), o, expr, depth)
            == o.invalid(),
        ty.index >= env.module.types@.len() ==> type_output(env, Some(ctx), o, ty, depth)
            == o.invalid(),
        constant.index >= env.module.constants@.len() ==> constant_output(
            env,
            Some(ctx),
            o,
            constant,
            depth,
        ) == o.invalid(),
{
}

} // verus!
