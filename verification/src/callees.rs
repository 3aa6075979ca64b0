//! Every call that is written names a function that has been written before.
use crate::arena::{Arena, Handle};
use crate::call_graph::{calls_of, model_of};
use crate::context::{Analysis, FunctionCtx, Options};
use crate::ir::{Expression, Function, Module, Statement, SwitchCase};
use crate::ordering::{call_graphs_are_complete, calls, is_call_path, is_needed};
use crate::reach::{is_written_path, visited_calls_are_calls, written_expressions_are_visited};
use crate::validity::{functions_are_written_before_their_callers, node_position};
use crate::visit::{block_visits, cases_visits, function_visits, join, root_visits, stmt_visits};
use crate::writer::Writer;
use vstd::prelude::*;

verus! {

/// Whether a statement, or a statement nested in it, is written with an expression.
pub open spec fn is_root_of_stmt(sta: Statement, expr: Handle<Expression>) -> bool
    decreases sta, 0nat,
{
    match sta {
        Statement::Block(block) => is_root_of_block(block@, block@.len(), expr),
        Statement::If { condition, accept, reject } => {
            ||| expr == condition
            ||| is_root_of_block(accept@, accept@.len(), expr)
            ||| is_root_of_block(reject@, reject@.len(), expr)
        },
        Statement::Switch { selector, cases, default } => {
            ||| expr == selector
            ||| is_root_of_cases(cases@, cases@.len(), expr)
            ||| is_root_of_block(default@, default@.len(), expr)
        },
        Statement::Loop { body, continuing } => {
            ||| is_root_of_block(body@, body@.len(), expr)
            ||| is_root_of_block(continuing@, continuing@.len(), expr)
        },
        Statement::Break | Statement::Continue | Statement::Kill => false,
        Statement::Return { value } => value == Some(expr),
        Statement::Store { pointer, value } => expr == pointer || expr == value,
    }
}

/// Whether one of the first `count` statements of a block is written with an expression.
pub open spec fn is_root_of_block(
    block: Seq<Statement>,
    count: nat,
    expr: Handle<Expression>,
) -> bool
    decreases block, count,
{
    if count == 0 || count > block.len() {
        false
    } else {
        is_root_of_block(block, (count - 1) as nat, expr) || is_root_of_stmt(block[count - 1], expr)
    }
}

/// Whether one of the first `count` cases of a switch is written with an expression.
pub open spec fn is_root_of_cases(
    cases: Seq<SwitchCase>,
    count: nat,
    expr: Handle<Expression>,
) -> bool
    decreases cases, count,
{
    if count == 0 || count > cases.len() {
        false
    } else {
        let body = cases[count - 1].body@;
        is_root_of_cases(cases, (count - 1) as nat, expr) || is_root_of_block(
            body,
            body.len(),
            expr,
        )
    }
}

/// Whether the visits of an expression are possible and among `visits`.
spec fn has_visits_of(
    expressions: Arena<Expression>,
    visits: Option<Seq<Expression>>,
    expr: Handle<Expression>,
) -> bool {
    visits is Some ==> {
        &&& root_visits(expressions, expr) is Some
        &&& forall|e: Expression| #[trigger]
            root_visits(expressions, expr)->0.contains(e) ==> visits->0.contains(e)
    }
}

/// What is among the visits of one of two lists is among those of both.
proof fn joined_visits_have_both(
    expressions: Arena<Expression>,
    first: Option<Seq<Expression>>,
    second: Option<Seq<Expression>>,
    expr: Handle<Expression>,
)
    requires
        has_visits_of(expressions, first, expr) || has_visits_of(expressions, second, expr),
    ensures
        has_visits_of(expressions, join(first, second), expr),
{
    if let (Some(a), Some(b)) = (first, second) {
        let all = a + b;
        assert forall|e: Expression| #[trigger]
            root_visits(expressions, expr)->0.contains(e) implies all.contains(e) by {
            if a.contains(e) {
                let k = choose|k: int| 0 <= k < a.len() && a[k] == e;
                assert(all[k] == e);
            } else {
                let k = choose|k: int| 0 <= k < b.len() && b[k] == e;
                assert(all[a.len() + k] == e);
            }
        }
    }
}

/// The expressions that a statement is written with are visited from it.
proof fn statement_visits_its_roots(
    expressions: Arena<Expression>,
    sta: Statement,
    expr: Handle<Expression>,
)
    requires
        is_root_of_stmt(sta, expr),
    ensures
        has_visits_of(expressions, stmt_visits(expressions, sta), expr),
    decreases sta, 0nat,
{
    match sta {
        Statement::Block(block) => {
            block_visits_its_roots(expressions, block@, block@.len(), expr);
        },
        Statement::If { condition, accept, reject } => {
            let first = root_visits(expressions, condition);
            let second = block_visits(expressions, accept@, accept@.len());
            let third = block_visits(expressions, reject@, reject@.len());
            if expr == condition {
                joined_visits_have_both(expressions, first, second, expr);
            } else if is_root_of_block(accept@, accept@.len(), expr) {
                block_visits_its_roots(expressions, accept@, accept@.len(), expr);
                joined_visits_have_both(expressions, first, second, expr);
            } else {
                block_visits_its_roots(expressions, reject@, reject@.len(), expr);
            }
            joined_visits_have_both(expressions, join(first, second), third, expr);
        },
        Statement::Switch { selector, cases, default } => {
            let first = root_visits(expressions, selector);
            let second = cases_visits(expressions, cases@, cases@.len());
            let third = block_visits(expressions, default@, default@.len());
            if expr == selector {
                joined_visits_have_both(expressions, first, second, expr);
            } else if is_root_of_cases(cases@, cases@.len(), expr) {
                cases_visit_their_roots(expressions, cases@, cases@.len(), expr);
                joined_visits_have_both(expressions, first, second, expr);
            } else {
                block_visits_its_roots(expressions, default@, default@.len(), expr);
            }
            joined_visits_have_both(expressions, join(first, second), third, expr);
        },
        Statement::Loop { body, continuing } => {
            let first = block_visits(expressions, body@, body@.len());
            let second = block_visits(expressions, continuing@, continuing@.len());
            if is_root_of_block(body@, body@.len(), expr) {
                block_visits_its_roots(expressions, body@, body@.len(), expr);
            } else {
                block_visits_its_roots(expressions, continuing@, continuing@.len(), expr);
            }
            joined_visits_have_both(expressions, first, second, expr);
        },
        Statement::Store { pointer, value } => {
            joined_visits_have_both(
                expressions,
                root_visits(expressions, pointer),
                root_visits(expressions, value),
                expr,
            );
        },
        _ => {},
    }
}

/// The expressions that a block is written with are visited from it.
proof fn block_visits_its_roots(
    expressions: Arena<Expression>,
    block: Seq<Statement>,
    count: nat,
    expr: Handle<Expression>,
)
    requires
        is_root_of_block(block, count, expr),
    ensures
        has_visits_of(expressions, block_visits(expressions, block, count), expr),
    decreases block, count,
{
    let before = block_visits(expressions, block, (count - 1) as nat);
    let last = stmt_visits(expressions, block[count - 1]);
    if is_root_of_block(block, (count - 1) as nat, expr) {
        block_visits_its_roots(expressions, block, (count - 1) as nat, expr);
    } else {
        statement_visits_its_roots(expressions, block[count - 1], expr);
    }
    joined_visits_have_both(expressions, before, last, expr);
}

/// The expressions that cases are written with are visited from them.
proof fn cases_visit_their_roots(
    expressions: Arena<Expression>,
    cases: Seq<SwitchCase>,
    count: nat,
    expr: Handle<Expression>,
)
    requires
        is_root_of_cases(cases, count, expr),
    ensures
        has_visits_of(expressions, cases_visits(expressions, cases, count), expr),
    decreases cases, count,
{
    let body = cases[count - 1].body@;
    let before = cases_visits(expressions, cases, (count - 1) as nat);
    let last = block_visits(expressions, body, body.len());
    if is_root_of_cases(cases, (count - 1) as nat, expr) {
        cases_visit_their_roots(expressions, cases, (count - 1) as nat, expr);
    } else {
        block_visits_its_roots(expressions, body, body.len(), expr);
    }
    joined_visits_have_both(expressions, before, last, expr);
}

/// Whether writing a function writes an expression: one of its statements is written with the first
/// expression of a path, and each expression of the path with the next one.
pub open spec fn writes_expression(
    writer: Writer<'_>,
    ctx: FunctionCtx<'_>,
    func: Function,
    path: Seq<Handle<Expression>>,
) -> bool {
    &&& *ctx.expressions == func.expressions
    &&& is_written_path(writer.env, ctx, path)
    &&& is_root_of_block(func.body@, func.body@.len(), path.first())
}

/// Whether writing a function writes a call of the function at `callee`.
pub open spec fn writes_call(
    writer: Writer<'_>,
    ctx: FunctionCtx<'_>,
    func: Function,
    callee: usize,
) -> bool {
    exists|path: Seq<Handle<Expression>>| #[trigger]
        writes_expression(writer, ctx, func, path) && ctx.expressions.has(path.last())
            && ctx.expressions.at(path.last()) is Call && ctx.expressions.at(
            path.last(),
        )->function.index == callee
}

/// The calls that a function is written with are among its calls, if it can be visited.
pub proof fn written_calls_are_calls(
    writer: Writer<'_>,
    ctx: FunctionCtx<'_>,
    func: Function,
    callee: usize,
)
    requires
        writes_call(writer, ctx, func, callee),
        calls_of(func) is Some,
    ensures
        calls_of(func)->0.contains(callee),
{
    let path = choose|path: Seq<Handle<Expression>>| #[trigger]
        writes_expression(writer, ctx, func, path) && ctx.expressions.has(path.last())
            && ctx.expressions.at(path.last()) is Call && ctx.expressions.at(
            path.last(),
        )->function.index == callee;
    let expressions = func.expressions;
    let call = expressions.at(path.last());
    block_visits_its_roots(expressions, func.body@, func.body@.len(), path.first());
    assert(function_visits(func) is Some);
    written_expressions_are_visited(writer.env, ctx, path, expressions@.len());
    assert(root_visits(expressions, path.first())->0.contains(call));
    visited_calls_are_calls(func, call);
}

/// Every call that a new writer writes names a function that has been written before: a call in the
/// function at position `j` of the order names a function at an earlier position, and a call in the
/// entry point names a function of the order.
pub proof fn written_calls_name_functions_written_before<'a>(
    writer: Writer<'a>,
    module: &'a Module,
    options: &'a Options,
    analysis: &'a Analysis,
    order: Seq<u32>,
)
    requires
        writer.is_new(module, options, analysis),
        writer.order_is_sound(),
        writer.function_order() == Some(order),
    ensures
        forall|j: int, ctx: FunctionCtx<'_>, callee: usize|
            0 <= j < order.len() && #[trigger] writes_call(
                writer,
                ctx,
                module.functions@[node_position(writer, order[j]) as int],
                callee,
            ) ==> exists|i: int| 0 <= i < j && node_position(writer, #[trigger] order[i]) == callee,
        forall|ctx: FunctionCtx<'_>, callee: usize| #[trigger]
            writes_call(writer, ctx, writer.entry_point.function, callee) ==> exists|i: int|
                0 <= i < order.len() && node_position(writer, #[trigger] order[i]) == callee,
{
    let graph = model_of(writer.call_graph);
    let entry = writer.entry_point.function;
    call_graphs_are_complete(*module, entry, graph);
    functions_are_written_before_their_callers(writer, module, options, analysis, order);
    assert forall|j: int, ctx: FunctionCtx<'_>, callee: usize|
        0 <= j < order.len() && #[trigger] writes_call(
            writer,
            ctx,
            module.functions@[node_position(writer, order[j]) as int],
            callee,
        ) implies exists|i: int| 0 <= i < j && node_position(writer, #[trigger] order[i])
        == callee by {
        let position = node_position(writer, order[j]);
        assert(order[j] < graph.nodes.len());
        assert(position == graph.nodes[order[j] as int]);
        written_calls_are_calls(writer, ctx, module.functions@[position as int], callee);
        assert(calls(*module, node_position(writer, order[j]), callee));
    }
    assert forall|ctx: FunctionCtx<'_>, callee: usize| #[trigger]
        writes_call(writer, ctx, entry, callee) implies exists|i: int|
        0 <= i < order.len() && node_position(writer, #[trigger] order[i]) == callee by {
        written_calls_are_calls(writer, ctx, entry, callee);
        let path = seq![callee];
        assert(is_call_path(*module, entry, path));
        assert(path.last() == callee);
        assert(is_needed(*module, entry, callee));
    }
}

} // verus!
