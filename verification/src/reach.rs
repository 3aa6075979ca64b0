//! Every expression that is written has been visited, so every function whose call is written is
//! in the call graph.
use crate::arena::{Arena, Handle};
use crate::call_graph::{calls_of, CallVisitor};
use crate::context::{Env, FunctionCtx};
use crate::expressions::{expr_items, expr_pieces};
use crate::ir::{Expression, Function, SampleLevel};
use crate::output::{separated, Piece};
use crate::visit::{after_all, expr_visits, function_visits, list_visits, operands};
use vstd::prelude::*;

verus! {

/// The pieces of a list are commas and the pieces of its items.
proof fn list_pieces_are_commas_or_exprs(exprs: Seq<Handle<Expression>>, expr: Handle<Expression>)
    requires
        separated(expr_items(exprs)).contains(Piece::Expr(expr)),
    ensures
        exprs.contains(expr),
    decreases exprs.len(),
{
    let items = expr_items(exprs);
    let list = separated(items);
    let k = choose|k: int| 0 <= k < list.len() && list[k] == Piece::Expr(expr);
    if exprs.len() == 1 {
        assert(exprs[0] == expr);
    } else if exprs.len() > 1 {
        let before = separated(items.drop_last());
        assert(items.drop_last() =~= expr_items(exprs.drop_last()));
        if k < before.len() {
            assert(before[k] == Piece::Expr(expr));
            list_pieces_are_commas_or_exprs(exprs.drop_last(), expr);
            let j = choose|j: int|
                0 <= j < exprs.drop_last().len() && exprs.drop_last()[j] == expr;
            assert(exprs[j] == expr);
        } else if k > before.len() {
            assert(exprs[exprs.len() - 1] == expr);
        }
    }
}

/// The expressions that an expression is written with are among those that it is made of.
pub proof fn written_operands_are_operands(
    env: Env<'_>,
    ctx: FunctionCtx<'_>,
    expr: Expression,
    operand: Handle<Expression>,
)
    requires
        expr_pieces(env, ctx, expr).contains(Piece::Expr(operand)),
    ensures
        operands(expr).contains(operand),
{
    let pieces = expr_pieces(env, ctx, expr);
    let list = operands(expr);
    let k = choose|k: int| 0 <= k < pieces.len() && pieces[k] == Piece::Expr(operand);
    match expr {
        Expression::Compose { components, .. } => {
            let inner = separated(expr_items(components@));
            assert(inner[k - 2] == Piece::Expr(operand));
            list_pieces_are_commas_or_exprs(components@, operand);
        },
        Expression::Call { arguments, .. } => {
            let inner = separated(expr_items(arguments@));
            assert(inner[k - 2] == Piece::Expr(operand));
            list_pieces_are_commas_or_exprs(arguments@, operand);
        },
        Expression::ImageSample {
            image,
            sampler,
            coordinate,
            array_index,
            level,
            depth_ref,
            ..
        } => {
            let extra: int = if array_index is Some {
                1
            } else {
                0
            };
            let levels: int = match level {
                SampleLevel::Auto | SampleLevel::Zero => 0,
                SampleLevel::Exact(_) | SampleLevel::Bias(_) => 1,
                SampleLevel::Gradient { .. } => 2,
            };
            assert(list[0] == image && list[2] == coordinate);
            assert(array_index is Some ==> list[3] == array_index->0);
            assert(levels == 1 ==> list[3 + extra] == (match level {
                SampleLevel::Exact(e) | SampleLevel::Bias(e) => e,
                _ => image,
            }));
            assert(level matches SampleLevel::Gradient { x, y } ==> list[3 + extra] == x && list[4
                + extra] == y);
            assert(depth_ref is Some ==> list[3 + extra + levels] == depth_ref->0);
        },
        Expression::ImageLoad { image, coordinate, array_index, index } => {
            let extra: int = if array_index is Some {
                1
            } else {
                0
            };
            assert(list[0] == image && list[1] == coordinate);
            assert(array_index is Some ==> list[2] == array_index->0);
            assert(index is Some ==> list[2 + extra] == index->0);
        },
        Expression::Math { arg, arg1, arg2, .. } => {
            let extra: int = if arg1 is Some {
                1
            } else {
                0
            };
            assert(list[0] == arg);
            assert(arg1 is Some ==> list[1] == arg1->0);
            assert(arg2 is Some ==> list[1 + extra] == arg2->0);
        },
        Expression::Access { base, index } => {
            assert(list[0] == base && list[1] == index);
        },
        Expression::Binary { left, right, .. } => {
            assert(list[0] == left && list[1] == right);
        },
        Expression::Select { condition, accept, reject } => {
            assert(list[0] == condition && list[1] == accept && list[2] == reject);
        },
        _ => {
            assert(list.len() > 0 ==> list[0] == list.first());
        },
    }
}

/// Whether an expression is written with another one.
#[verifier::opaque]
pub open spec fn is_written_with(
    env: Env<'_>,
    ctx: FunctionCtx<'_>,
    expr: Handle<Expression>,
    operand: Handle<Expression>,
) -> bool {
    &&& ctx.expressions.has(expr)
    &&& expr_pieces(env, ctx, ctx.expressions.at(expr)).contains(Piece::Expr(operand))
}

/// An expression is written only with expressions that it is made of.
proof fn written_with_operands(
    env: Env<'_>,
    ctx: FunctionCtx<'_>,
    expr: Handle<Expression>,
    operand: Handle<Expression>,
)
    requires
        is_written_with(env, ctx, expr, operand),
    ensures
        ctx.expressions.has(expr),
        operands(ctx.expressions.at(expr)).contains(operand),
{
    reveal(is_written_with);
    written_operands_are_operands(env, ctx, ctx.expressions.at(expr), operand);
}

/// Whether writing the first expression of `path` writes the last one: each is written with the
/// next one.
pub open spec fn is_written_path(
    env: Env<'_>,
    ctx: FunctionCtx<'_>,
    path: Seq<Handle<Expression>>,
) -> bool {
    &&& path.len() > 0
    &&& forall|i: int|
        0 <= i < path.len() - 1 ==> is_written_with(env, ctx, #[trigger] path[i], path[i + 1])
}

/// The visits of a list have those of its items.
proof fn list_has_visits_of_items(
    expressions: Arena<Expression>,
    list: Seq<Handle<Expression>>,
    count: nat,
    depth: nat,
    item: int,
    expr: Expression,
)
    requires
        list_visits(expressions, list, count, depth) is Some,
        0 <= item < count,
    ensures
        expr_visits(expressions, list[item], depth) is Some,
        expr_visits(expressions, list[item], depth)->0.contains(expr) ==> list_visits(
            expressions,
            list,
            count,
            depth,
        )->0.contains(expr),
    decreases count,
{
    let first = list_visits(expressions, list, (count - 1) as nat, depth)->0;
    let second = expr_visits(expressions, list[count - 1], depth)->0;
    let all = list_visits(expressions, list, count, depth)->0;
    assert(all == first + second);
    if item < count - 1 {
        list_has_visits_of_items(expressions, list, (count - 1) as nat, depth, item, expr);
        if first.contains(expr) {
            let k = choose|k: int| 0 <= k < first.len() && first[k] == expr;
            assert(all[k] == expr);
        }
    } else if second.contains(expr) {
        let k = choose|k: int| 0 <= k < second.len() && second[k] == expr;
        assert(all[first.len() + k] == expr);
    }
}

/// Every expression that is written when an expression is written has been visited, if the
/// expression can be visited.
pub proof fn written_expressions_are_visited(
    env: Env<'_>,
    ctx: FunctionCtx<'_>,
    path: Seq<Handle<Expression>>,
    depth: nat,
)
    requires
        is_written_path(env, ctx, path),
        expr_visits(*ctx.expressions, path.first(), depth) is Some,
    ensures
        ctx.expressions.has(path.last()),
        expr_visits(*ctx.expressions, path.first(), depth)->0.contains(
            ctx.expressions.at(path.last()),
        ),
    decreases path.len(),
{
    let expressions = *ctx.expressions;
    let e = expressions.at(path.first());
    let list = operands(e);
    let visits = expr_visits(expressions, path.first(), depth)->0;
    let rest = list_visits(expressions, list, list.len(), (depth - 1) as nat)->0;
    assert(visits == seq![e] + rest);
    if path.len() == 1 {
        assert(visits[0] == e);
    } else {
        let tail = path.skip(1);
        let i: int = 0;
        assert(is_written_with(env, ctx, path[i], path[i + 1]));
        written_with_operands(env, ctx, path[0], path[1]);
        let item = choose|item: int| 0 <= item < list.len() && list[item] == path[1];
        assert(is_written_path(env, ctx, tail)) by {
            assert forall|j: int| 0 <= j < tail.len() - 1 implies is_written_with(
                env,
                ctx,
                #[trigger] tail[j],
                tail[j + 1],
            ) by {
                let k = j + 1;
                assert(is_written_with(env, ctx, path[k], path[k + 1]));
            }
        }
        assert(tail.last() == path.last());
        let last = expressions.at(path.last());
        list_has_visits_of_items(
            expressions,
            list,
            list.len(),
            (depth - 1) as nat,
            item,
            last,
        );
        written_expressions_are_visited(env, ctx, tail, (depth - 1) as nat);
        let k = choose|k: int| 0 <= k < rest.len() && rest[k] == last;
        assert(visits[k + 1] == last);
    }
}

/// A visitor collects the calls among the visits.
proof fn visited_calls_are_collected(visits: Seq<Expression>, i: int)
    requires
        0 <= i < visits.len(),
        visits[i] is Call,
    ensures
        after_all::<CallVisitor>(Seq::empty(), visits).contains(visits[i]->function.index),
    decreases visits.len(),
{
    let before = after_all::<CallVisitor>(Seq::empty(), visits.drop_last());
    let all = after_all::<CallVisitor>(Seq::empty(), visits);
    if i < visits.len() - 1 {
        visited_calls_are_collected(visits.drop_last(), i);
        let k = choose|k: int|
            0 <= k < before.len() && before[k] == visits[i]->function.index;
        assert(all[k] == before[k]);
    } else {
        assert(all[before.len() as int] == visits[i]->function.index);
    }
}

/// Every function whose call has been visited is among the calls of the function.
pub proof fn visited_calls_are_calls(func: Function, expr: Expression)
    requires
        function_visits(func) is Some,
        function_visits(func)->0.contains(expr),
        expr is Call,
    ensures
        calls_of(func) is Some,
        calls_of(func)->0.contains(expr->function.index),
{
    let visits = function_visits(func)->0;
    let i = choose|i: int| 0 <= i < visits.len() && visits[i] == expr;
    visited_calls_are_collected(visits, i);
}

} // verus!
