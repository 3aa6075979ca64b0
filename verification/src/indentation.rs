//! The indentation is only for readability: statements that are indented differently differ in
//! tabs alone.
use crate::arena::Handle;
use crate::constants::constant_pieces;
use crate::context::{Env, FunctionCtx};
use crate::expressions::expr_pieces;
use crate::growth::{appended, grown, statements_end_with_a_newline};
use crate::ir::{Constant, Expression, Statement, SwitchCase, Type};
use crate::output::{Output, Piece};
use crate::render::{
    constant_output, expr_output, full_depth, piece_output, pieces_output, render, type_output,
    Depth,
};
use crate::statements::{block_output, cases_output, max_indent, stmt_output};
use crate::text::{decimal, signed_decimal, tabs};
use crate::types::type_pieces;
use vstd::prelude::*;

verus! {

/// A text without its tabs.
pub open spec fn without_tabs(s: Seq<char>) -> Seq<char>
    decreases s.len(),
{
    if s.len() == 0 {
        s
    } else {
        let before = without_tabs(s.drop_last());
        if s.last() == '\t' {
            before
        } else {
            before.push(s.last())
        }
    }
}

/// The tabs of two texts are taken out of each.
proof fn tabs_are_taken_out_of_each(first: Seq<char>, second: Seq<char>)
    ensures
        without_tabs(first + second) == without_tabs(first) + without_tabs(second),
    decreases second.len(),
{
    let whole = first + second;
    if second.len() == 0 {
        assert(whole =~= first);
    } else {
        assert(whole.drop_last() =~= first + second.drop_last());
        tabs_are_taken_out_of_each(first, second.drop_last());
        assert(without_tabs(whole) =~= without_tabs(first) + without_tabs(second));
    }
}

/// Without its tabs, an indentation is empty.
proof fn indentations_are_tabs(count: nat)
    ensures
        without_tabs(tabs(count)) == Seq::<char>::empty(),
    decreases count,
{
    if count > 0 {
        assert(tabs(count).drop_last() =~= tabs((count - 1) as nat));
        indentations_are_tabs((count - 1) as nat);
    }
}

/// Whether two outputs have the same status and number, and texts that differ in tabs alone.
pub open spec fn differ_in_tabs(x: Output, y: Output) -> bool {
    &&& x.status == y.status
    &&& x.next_id == y.next_id
    &&& without_tabs(x.text) == without_tabs(y.text)
}

/// The same text keeps the difference.
proof fn same_text_is_added(x: Output, y: Output, s: Seq<char>)
    requires
        differ_in_tabs(x, y),
    ensures
        differ_in_tabs(x.put(s), y.put(s)),
{
    tabs_are_taken_out_of_each(x.text, s);
    tabs_are_taken_out_of_each(y.text, s);
}

/// Different indentations keep the difference.
proof fn indentations_are_added(x: Output, y: Output, a: nat, b: nat)
    requires
        differ_in_tabs(x, y),
    ensures
        differ_in_tabs(x.put(tabs(a)), y.put(tabs(b))),
{
    tabs_are_taken_out_of_each(x.text, tabs(a));
    tabs_are_taken_out_of_each(y.text, tabs(b));
    indentations_are_tabs(a);
    indentations_are_tabs(b);
}

/// The same type keeps the difference.
proof fn same_type_is_added(
    env: Env<'_>,
    ctx: Option<FunctionCtx<'_>>,
    x: Output,
    y: Output,
    ty: Handle<Type>,
    depth: Depth,
)
    requires
        differ_in_tabs(x, y),
    ensures
        differ_in_tabs(
            type_output(env, ctx, x, ty, depth),
            type_output(env, ctx, y, ty, depth),
        ),
    decreases depth.exprs, depth.constants, depth.types, 0nat,
{
    if depth.types > 0 && env.module.types.has(ty) {
        let pieces = type_pieces(env, ty);
        let inner = Depth { types: (depth.types - 1) as usize, ..depth };
        same_pieces_are_added(env, ctx, x, y, pieces, pieces.len(), inner);
    }
}

/// The same constant keeps the difference.
proof fn same_constant_is_added(
    env: Env<'_>,
    ctx: Option<FunctionCtx<'_>>,
    x: Output,
    y: Output,
    constant: Handle<Constant>,
    depth: Depth,
)
    requires
        differ_in_tabs(x, y),
    ensures
        differ_in_tabs(
            constant_output(env, ctx, x, constant, depth),
            constant_output(env, ctx, y, constant, depth),
        ),
    decreases depth.exprs, depth.constants, depth.types, 0nat,
{
    if depth.constants > 0 && env.module.constants.has(constant) {
        let pieces = constant_pieces(env.module.constants.at(constant));
        let inner = Depth {
            constants: (depth.constants - 1) as usize,
            types: full_depth(env, ctx).types,
            ..depth
        };
        same_pieces_are_added(env, ctx, x, y, pieces, pieces.len(), inner);
    }
}

/// The same expression keeps the difference.
proof fn same_expr_is_added(
    env: Env<'_>,
    ctx: Option<FunctionCtx<'_>>,
    x: Output,
    y: Output,
    expr: Handle<Expression>,
    depth: Depth,
)
    requires
        differ_in_tabs(x, y),
    ensures
        differ_in_tabs(
            expr_output(env, ctx, x, expr, depth),
            expr_output(env, ctx, y, expr, depth),
        ),
    decreases depth.exprs, depth.constants, depth.types, 0nat,
{
    if let Some(c) = ctx {
        if depth.exprs > 0 && c.expressions.has(expr) {
            let pieces = expr_pieces(env, c, c.expressions.at(expr));
            let inner = Depth { exprs: (depth.exprs - 1) as usize, ..full_depth(env, ctx) };
            same_pieces_are_added(env, ctx, x, y, pieces, pieces.len(), inner);
        }
    }
}

/// The same piece keeps the difference.
proof fn same_piece_is_added(
    env: Env<'_>,
    ctx: Option<FunctionCtx<'_>>,
    x: Output,
    y: Output,
    piece: Piece,
    depth: Depth,
)
    requires
        differ_in_tabs(x, y),
    ensures
        differ_in_tabs(
            piece_output(env, ctx, x, piece, depth),
            piece_output(env, ctx, y, piece, depth),
        ),
    decreases depth.exprs, depth.constants, depth.types, 1nat,
{
    match piece {
        Piece::Text(s) => {
            same_text_is_added(x, y, s);
        },
        Piece::FreshId => {
            tabs_are_taken_out_of_each(x.text, decimal(x.next_id));
            tabs_are_taken_out_of_each(y.text, decimal(x.next_id));
        },
        Piece::Type(ty) => {
            same_type_is_added(env, ctx, x, y, ty, depth);
        },
        Piece::Constant(constant) => {
            same_constant_is_added(env, ctx, x, y, constant, depth);
        },
        Piece::Expr(expr) => {
            same_expr_is_added(env, ctx, x, y, expr, depth);
        },
        Piece::Fail(_) | Piece::Invalid => {},
    }
}

/// The same pieces keep the difference.
proof fn same_pieces_are_added(
    env: Env<'_>,
    ctx: Option<FunctionCtx<'_>>,
    x: Output,
    y: Output,
    pieces: Seq<Piece>,
    count: nat,
    depth: Depth,
)
    requires
        differ_in_tabs(x, y),
    ensures
        differ_in_tabs(
            pieces_output(env, ctx, x, pieces, count, depth),
            pieces_output(env, ctx, y, pieces, count, depth),
        ),
    decreases depth.exprs, depth.constants, depth.types, count + 2,
{
    if count > 0 {
        let k = (count - 1) as nat;
        same_pieces_are_added(env, ctx, x, y, pieces, k, depth);
        let x1 = pieces_output(env, ctx, x, pieces, k, depth);
        let y1 = pieces_output(env, ctx, y, pieces, k, depth);
        same_piece_is_added(env, ctx, x1, y1, pieces[count - 1], depth);
    }
}

/// The same pieces keep the difference when they are rendered.
proof fn same_pieces_are_rendered(
    env: Env<'_>,
    ctx: FunctionCtx<'_>,
    x: Output,
    y: Output,
    pieces: Seq<Piece>,
)
    requires
        differ_in_tabs(x, y),
    ensures
        differ_in_tabs(render(env, Some(ctx), x, pieces), render(env, Some(ctx), y, pieces)),
{
    let depth = full_depth(env, Some(ctx));
    same_pieces_are_added(env, Some(ctx), x, y, pieces, pieces.len(), depth);
}

/// Whether a statement can be indented by `indent`: neither it nor a statement nested in it gets
/// more tabs than a string can hold.
pub open spec fn stmt_fits(sta: Statement, indent: nat) -> bool
    decreases sta, 0nat,
{
    &&& indent <= max_indent()
    &&& match sta {
        Statement::Block(block) => block_fits(block@, block@.len(), indent + 1),
        Statement::If { accept, reject, .. } => {
            &&& block_fits(accept@, accept@.len(), indent + 1)
            &&& block_fits(reject@, reject@.len(), indent + 1)
        },
        Statement::Switch { cases, default, .. } => {
            &&& cases_fit(cases@, cases@.len(), indent + 2)
            &&& block_fits(default@, default@.len(), indent + 2)
        },
        Statement::Loop { body, continuing } => {
            &&& block_fits(body@, body@.len(), indent + 1)
            &&& block_fits(continuing@, continuing@.len(), indent + 1)
        },
        _ => true,
    }
}

/// Whether the first `count` statements of a block can be indented by `indent`.
pub open spec fn block_fits(block: Seq<Statement>, count: nat, indent: nat) -> bool
    decreases block, count,
{
    if count == 0 || count > block.len() {
        true
    } else {
        block_fits(block, (count - 1) as nat, indent) && stmt_fits(block[count - 1], indent)
    }
}

/// Whether the statements of the first `count` cases can be indented by `indent`.
pub open spec fn cases_fit(cases: Seq<SwitchCase>, count: nat, indent: nat) -> bool
    decreases cases, count,
{
    if count == 0 || count > cases.len() {
        true
    } else {
        let body = cases[count - 1].body@;
        cases_fit(cases, (count - 1) as nat, indent) && block_fits(body, body.len(), indent)
    }
}

/// An indentation, then the same text, keep the difference.
proof fn indented_text_is_added(x: Output, y: Output, a: nat, b: nat, s: Seq<char>)
    requires
        differ_in_tabs(x, y),
    ensures
        differ_in_tabs(x.put(tabs(a)).put(s), y.put(tabs(b)).put(s)),
{
    indentations_are_added(x, y, a, b);
    same_text_is_added(x.put(tabs(a)), y.put(tabs(b)), s);
}

/// The same statement with different indentations keeps the difference.
proof fn same_statement_is_added(
    env: Env<'_>,
    ctx: FunctionCtx<'_>,
    x: Output,
    y: Output,
    sta: Statement,
    a: nat,
    b: nat,
)
    requires
        differ_in_tabs(x, y),
        stmt_fits(sta, a),
        stmt_fits(sta, b),
    ensures
        differ_in_tabs(stmt_output(env, ctx, x, sta, a), stmt_output(env, ctx, y, sta, b)),
    decreases sta, 0nat,
{
    if x.status is Running {
        let x1 = x.put(tabs(a));
        let y1 = y.put(tabs(b));
        indentations_are_added(x, y, a, b);
        match sta {
            Statement::Block(block) => {
                let x2 = x1.put("{\n"@);
                let y2 = y1.put("{\n"@);
                let x3 = block_output(env, ctx, x2, block@, block@.len(), a + 1);
                let y3 = block_output(env, ctx, y2, block@, block@.len(), b + 1);
                same_text_is_added(x1, y1, "{\n"@);
                same_block_is_added(env, ctx, x2, y2, block@, block@.len(), a + 1, b + 1);
                indented_text_is_added(x3, y3, a, b, "}\n"@);
            },
            Statement::If { condition, accept, reject } => {
                let pieces = seq![
                    Piece::Text("if("@),
                    Piece::Expr(condition),
                    Piece::Text(") {\n"@),
                ];
                let x2 = render(env, Some(ctx), x1, pieces);
                let y2 = render(env, Some(ctx), y1, pieces);
                let x3 = block_output(env, ctx, x2, accept@, accept@.len(), a + 1);
                let y3 = block_output(env, ctx, y2, accept@, accept@.len(), b + 1);
                same_pieces_are_rendered(env, ctx, x1, y1, pieces);
                same_block_is_added(env, ctx, x2, y2, accept@, accept@.len(), a + 1, b + 1);
                if reject@.len() > 0 {
                    let x4 = x3.put(tabs(a)).put("} else {\n"@);
                    let y4 = y3.put(tabs(b)).put("} else {\n"@);
                    let x5 = block_output(env, ctx, x4, reject@, reject@.len(), a + 1);
                    let y5 = block_output(env, ctx, y4, reject@, reject@.len(), b + 1);
                    indented_text_is_added(x3, y3, a, b, "} else {\n"@);
                    same_block_is_added(env, ctx, x4, y4, reject@, reject@.len(), a + 1, b + 1);
                    indented_text_is_added(x5, y5, a, b, "}\n"@);
                } else {
                    indented_text_is_added(x3, y3, a, b, "}\n"@);
                }
            },
            Statement::Switch { selector, cases, default } => {
                let pieces = seq![
                    Piece::Text("switch("@),
                    Piece::Expr(selector),
                    Piece::Text(") {\n"@),
                ];
                let x2 = render(env, Some(ctx), x1, pieces);
                let y2 = render(env, Some(ctx), y1, pieces);
                let x3 = cases_output(env, ctx, x2, cases@, cases@.len(), a);
                let y3 = cases_output(env, ctx, y2, cases@, cases@.len(), b);
                same_pieces_are_rendered(env, ctx, x1, y1, pieces);
                same_cases_are_added(env, ctx, x2, y2, cases@, cases@.len(), a, b);
                if default@.len() > 0 {
                    let x4 = x3.put(tabs(a + 1)).put("default:\n"@);
                    let y4 = y3.put(tabs(b + 1)).put("default:\n"@);
                    let x5 = block_output(env, ctx, x4, default@, default@.len(), a + 2);
                    let y5 = block_output(env, ctx, y4, default@, default@.len(), b + 2);
                    indented_text_is_added(x3, y3, a + 1, b + 1, "default:\n"@);
                    same_block_is_added(env, ctx, x4, y4, default@, default@.len(), a + 2, b + 2);
                    indented_text_is_added(x5, y5, a, b, "}\n"@);
                } else {
                    indented_text_is_added(x3, y3, a, b, "}\n"@);
                }
            },
            Statement::Loop { body, continuing } => {
                let x2 = x1.put("while(true) {\n"@);
                let y2 = y1.put("while(true) {\n"@);
                let x3 = block_output(env, ctx, x2, body@, body@.len(), a + 1);
                let y3 = block_output(env, ctx, y2, body@, body@.len(), b + 1);
                let x4 = block_output(env, ctx, x3, continuing@, continuing@.len(), a + 1);
                let y4 = block_output(env, ctx, y3, continuing@, continuing@.len(), b + 1);
                same_text_is_added(x1, y1, "while(true) {\n"@);
                same_block_is_added(env, ctx, x2, y2, body@, body@.len(), a + 1, b + 1);
                same_block_is_added(
                    env,
                    ctx,
                    x3,
                    y3,
                    continuing@,
                    continuing@.len(),
                    a + 1,
                    b + 1,
                );
                indented_text_is_added(x4, y4, a, b, "}\n"@);
            },
            Statement::Break => {
                same_text_is_added(x1, y1, "break;\n"@);
            },
            Statement::Continue => {
                same_text_is_added(x1, y1, "continue;\n"@);
            },
            Statement::Return { value } => match value {
                Some(expr) => {
                    let pieces = seq![
                        Piece::Text("return"@),
                        Piece::Text(" "@),
                        Piece::Expr(expr),
                        Piece::Text(";\n"@),
                    ];
                    same_pieces_are_rendered(env, ctx, x1, y1, pieces);
                },
                None => {
                    same_text_is_added(x1, y1, "return;\n"@);
                },
            },
            Statement::Kill => {
                same_text_is_added(x1, y1, "discard;\n"@);
            },
            Statement::Store { pointer, value } => {
                let pieces = seq![
                    Piece::Expr(pointer),
                    Piece::Text(" = "@),
                    Piece::Expr(value),
                    Piece::Text(";\n"@),
                ];
                same_pieces_are_rendered(env, ctx, x1, y1, pieces);
            },
        }
    }
}

/// The same block with different indentations keeps the difference.
proof fn same_block_is_added(
    env: Env<'_>,
    ctx: FunctionCtx<'_>,
    x: Output,
    y: Output,
    block: Seq<Statement>,
    count: nat,
    a: nat,
    b: nat,
)
    requires
        differ_in_tabs(x, y),
        block_fits(block, count, a),
        block_fits(block, count, b),
    ensures
        differ_in_tabs(
            block_output(env, ctx, x, block, count, a),
            block_output(env, ctx, y, block, count, b),
        ),
    decreases block, count,
{
    if 0 < count <= block.len() {
        let k = (count - 1) as nat;
        same_block_is_added(env, ctx, x, y, block, k, a, b);
        let x1 = block_output(env, ctx, x, block, k, a);
        let y1 = block_output(env, ctx, y, block, k, b);
        same_statement_is_added(env, ctx, x1, y1, block[count - 1], a, b);
    }
}

/// The same cases with different indentations keep the difference.
proof fn same_cases_are_added(
    env: Env<'_>,
    ctx: FunctionCtx<'_>,
    x: Output,
    y: Output,
    cases: Seq<SwitchCase>,
    count: nat,
    a: nat,
    b: nat,
)
    requires
        differ_in_tabs(x, y),
        cases_fit(cases, count, a + 2),
        cases_fit(cases, count, b + 2),
    ensures
        differ_in_tabs(
            cases_output(env, ctx, x, cases, count, a),
            cases_output(env, ctx, y, cases, count, b),
        ),
    decreases cases, count,
{
    if 0 < count <= cases.len() {
        let k = (count - 1) as nat;
        let case = cases[count - 1];
        let body = case.body@;
        let value = signed_decimal(case.value as int);
        same_cases_are_added(env, ctx, x, y, cases, k, a, b);
        let x1 = cases_output(env, ctx, x, cases, k, a);
        let y1 = cases_output(env, ctx, y, cases, k, b);
        let x2 = x1.put(tabs(a + 1)).put("case "@);
        let y2 = y1.put(tabs(b + 1)).put("case "@);
        let x3 = x2.put(value).put(":\n"@);
        let y3 = y2.put(value).put(":\n"@);
        let x4 = block_output(env, ctx, x3, body, body.len(), a + 2);
        let y4 = block_output(env, ctx, y3, body, body.len(), b + 2);
        indented_text_is_added(x1, y1, a + 1, b + 1, "case "@);
        same_text_is_added(x2, y2, value);
        same_text_is_added(x2.put(value), y2.put(value), ":\n"@);
        same_block_is_added(env, ctx, x3, y3, body, body.len(), a + 2, b + 2);
        indented_text_is_added(x4, y4, a + 2, b + 2, "break;\n"@);
    }
}

/// The indentation of a statement is only for readability: with two indentations that fit, the
/// statement has the same result, and what is added differs in tabs alone.
pub proof fn indentation_is_only_for_readability(
    env: Env<'_>,
    ctx: FunctionCtx<'_>,
    o: Output,
    sta: Statement,
    a: nat,
    b: nat,
)
    requires
        stmt_fits(sta, a),
        stmt_fits(sta, b),
    ensures
        ({
            let x = stmt_output(env, ctx, o, sta, a);
            let y = stmt_output(env, ctx, o, sta, b);
            &&& x.status == y.status
            &&& x.next_id == y.next_id
            &&& without_tabs(appended(o, x)) == without_tabs(appended(o, y))
        }),
{
    let x = stmt_output(env, ctx, o, sta, a);
    let y = stmt_output(env, ctx, o, sta, b);
    same_statement_is_added(env, ctx, o, o, sta, a, b);
    if o.status is Running {
        statements_end_with_a_newline(env, ctx, o, sta, a);
        statements_end_with_a_newline(env, ctx, o, sta, b);
        texts_are_split(o, x);
        texts_are_split(o, y);
        let start = without_tabs(o.text);
        let first = without_tabs(appended(o, x));
        let second = without_tabs(appended(o, y));
        assert(start + first == start + second);
        assert((start + first).skip(start.len() as int) =~= first);
        assert((start + second).skip(start.len() as int) =~= second);
    }
}

/// The text of an output that has grown is that of before and what has been added.
proof fn texts_are_split(before: Output, after: Output)
    requires
        grown(before, after),
    ensures
        without_tabs(after.text) == without_tabs(before.text) + without_tabs(
            appended(before, after),
        ),
{
    assert(after.text =~= before.text + appended(before, after));
    tabs_are_taken_out_of_each(before.text, appended(before, after));
}

} // verus!
