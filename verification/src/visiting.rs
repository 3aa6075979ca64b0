//! A visit of a function sees exactly the expressions that its statements use, in their order.
use crate::arena::{Arena, Handle};
use crate::call_graph::{calls_of, CallVisitor};
use crate::ir::{Expression, Function, SampleLevel, Statement, SwitchCase};
use crate::visit::{
    after_all, block_visits, cases_visits, expr_visits, function_visits, list_visits, operands,
    stmt_visits,
};
use vstd::prelude::*;

verus! {

/// The expressions that a statement names, in the order in which they stand in it and in the
/// statements inside.
pub open spec fn roots(sta: Statement) -> Seq<Handle<Expression>>
    decreases sta, 0nat,
{
    match sta {
        Statement::Block(block) => block_roots(block@, block@.len()),
        Statement::If { condition, accept, reject } => seq![condition] + block_roots(
            accept@,
            accept@.len(),
        ) + block_roots(reject@, reject@.len()),
        Statement::Switch { selector, cases, default } => seq![selector] + cases_roots(
            cases@,
            cases@.len(),
        ) + block_roots(default@, default@.len()),
        Statement::Loop { body, continuing } => block_roots(body@, body@.len()) + block_roots(
            continuing@,
            continuing@.len(),
        ),
        Statement::Return { value: Some(value) } => seq![value],
        Statement::Return { value: None } => Seq::empty(),
        Statement::Store { pointer, value } => seq![pointer, value],
        Statement::Break => Seq::empty(),
        Statement::Continue => Seq::empty(),
        Statement::Kill => Seq::empty(),
    }
}

/// The expressions that the first `count` statements of a block name.
pub open spec fn block_roots(block: Seq<Statement>, count: nat) -> Seq<Handle<Expression>>
    decreases block, count,
{
    if count == 0 || count > block.len() {
        Seq::empty()
    } else {
        block_roots(block, (count - 1) as nat) + roots(block[count - 1])
    }
}

/// The expressions that the first `count` cases of a switch name.
pub open spec fn cases_roots(cases: Seq<SwitchCase>, count: nat) -> Seq<Handle<Expression>>
    decreases cases, count,
{
    if count == 0 || count > cases.len() {
        Seq::empty()
    } else {
        let body = cases[count - 1].body@;
        cases_roots(cases, (count - 1) as nat) + block_roots(body, body.len())
    }
}

/// The visits of all the expressions of a list, one after the other.
pub open spec fn visits_of(expressions: Arena<Expression>, list: Seq<Handle<Expression>>) -> Option<
    Seq<Expression>,
>
    decreases list.len(),
{
    if list.len() == 0 {
        Some(Seq::empty())
    } else {
        match (
            visits_of(expressions, list.drop_last()),
            expr_visits(expressions, list.last(), expressions@.len()),
        ) {
            (Some(before), Some(last)) => Some(before + last),
            _ => None,
        }
    }
}

/// To visit two lists one after the other is to visit their concatenation.
proof fn visits_are_concatenated(
    expressions: Arena<Expression>,
    first: Seq<Handle<Expression>>,
    second: Seq<Handle<Expression>>,
)
    ensures
        visits_of(expressions, first + second) == (match (
            visits_of(expressions, first),
            visits_of(expressions, second),
        ) {
            (Some(a), Some(b)) => Some(a + b),
            _ => None,
        }),
    decreases second.len(),
{
    if second.len() == 0 {
        assert(first + second =~= first);
        if let Some(a) = visits_of(expressions, first) {
            assert(a + Seq::<Expression>::empty() =~= a);
        }
    } else {
        let shorter = second.drop_last();
        visits_are_concatenated(expressions, first, shorter);
        assert((first + second).drop_last() =~= first + shorter);
        if visits_of(expressions, first) is Some && visits_of(expressions, second) is Some {
            let a = visits_of(expressions, first)->0;
            let b = visits_of(expressions, shorter)->0;
            let c = expr_visits(expressions, second.last(), expressions@.len())->0;
            assert((a + b) + c =~= a + (b + c));
        }
    }
}

/// The visits of a list with a single expression are those of the expression.
proof fn single_visits(expressions: Arena<Expression>, expr: Handle<Expression>)
    ensures
        visits_of(expressions, seq![expr]) == expr_visits(expressions, expr, expressions@.len()),
{
    let list = seq![expr];
    assert(list.drop_last() =~= Seq::empty());
    assert(visits_of(expressions, list.drop_last()) == Some(Seq::<Expression>::empty()));
    if let Some(visits) = expr_visits(expressions, expr, expressions@.len()) {
        assert(Seq::<Expression>::empty() + visits =~= visits);
    }
}

/// A visit of a statement sees the expressions that the statement names, one after the other in
/// their order.
pub proof fn statements_are_visited_in_order(expressions: Arena<Expression>, sta: Statement)
    ensures
        stmt_visits(expressions, sta) == visits_of(expressions, roots(sta)),
    decreases sta, 0nat,
{
    match sta {
        Statement::Block(block) => {
            blocks_are_visited_in_order(expressions, block@, block@.len());
        },
        Statement::If { condition, accept, reject } => {
            let a = block_roots(accept@, accept@.len());
            let b = block_roots(reject@, reject@.len());
            single_visits(expressions, condition);
            blocks_are_visited_in_order(expressions, accept@, accept@.len());
            blocks_are_visited_in_order(expressions, reject@, reject@.len());
            visits_are_concatenated(expressions, seq![condition], a);
            visits_are_concatenated(expressions, seq![condition] + a, b);
        },
        Statement::Switch { selector, cases, default } => {
            let a = cases_roots(cases@, cases@.len());
            let b = block_roots(default@, default@.len());
            single_visits(expressions, selector);
            cases_are_visited_in_order(expressions, cases@, cases@.len());
            blocks_are_visited_in_order(expressions, default@, default@.len());
            visits_are_concatenated(expressions, seq![selector], a);
            visits_are_concatenated(expressions, seq![selector] + a, b);
        },
        Statement::Loop { body, continuing } => {
            let a = block_roots(body@, body@.len());
            let b = block_roots(continuing@, continuing@.len());
            blocks_are_visited_in_order(expressions, body@, body@.len());
            blocks_are_visited_in_order(expressions, continuing@, continuing@.len());
            visits_are_concatenated(expressions, a, b);
        },
        Statement::Return { value: Some(value) } => {
            single_visits(expressions, value);
        },
        Statement::Store { pointer, value } => {
            single_visits(expressions, pointer);
            single_visits(expressions, value);
            visits_are_concatenated(expressions, seq![pointer], seq![value]);
            assert(seq![pointer] + seq![value] =~= seq![pointer, value]);
        },
        _ => {},
    }
}

/// A visit of a block sees the expressions that its statements name.
proof fn blocks_are_visited_in_order(
    expressions: Arena<Expression>,
    block: Seq<Statement>,
    count: nat,
)
    ensures
        block_visits(expressions, block, count) == visits_of(
            expressions,
            block_roots(block, count),
        ),
    decreases block, count,
{
    if 0 < count <= block.len() {
        let sta = block[count - 1];
        blocks_are_visited_in_order(expressions, block, (count - 1) as nat);
        statements_are_visited_in_order(expressions, sta);
        visits_are_concatenated(
            expressions,
            block_roots(block, (count - 1) as nat),
            roots(sta),
        );
    }
}

/// A visit of the cases of a switch sees the expressions that their statements name.
proof fn cases_are_visited_in_order(
    expressions: Arena<Expression>,
    cases: Seq<SwitchCase>,
    count: nat,
)
    ensures
        cases_visits(expressions, cases, count) == visits_of(
            expressions,
            cases_roots(cases, count),
        ),
    decreases cases, count,
{
    if 0 < count <= cases.len() {
        let body = cases[count - 1].body@;
        cases_are_visited_in_order(expressions, cases, (count - 1) as nat);
        blocks_are_visited_in_order(expressions, body, body.len());
        visits_are_concatenated(
            expressions,
            cases_roots(cases, (count - 1) as nat),
            block_roots(body, body.len()),
        );
    }
}

/// A visit of a function sees the expressions that its statements name, one after the other in
/// their order.
pub proof fn functions_are_visited_in_order(func: Function)
    ensures
        function_visits(func) == visits_of(
            func.expressions,
            block_roots(func.body@, func.body@.len()),
        ),
{
    blocks_are_visited_in_order(func.expressions, func.body@, func.body@.len());
}

/// The expressions in an option: one or none.
pub open spec fn optional(item: Option<Handle<Expression>>) -> Seq<Handle<Expression>> {
    match item {
        Some(expr) => seq![expr],
        None => Seq::empty(),
    }
}

/// The expressions that a level of a sample is made of.
pub open spec fn level_operands(level: SampleLevel) -> Seq<Handle<Expression>> {
    match level {
        SampleLevel::Auto => Seq::empty(),
        SampleLevel::Zero => Seq::empty(),
        SampleLevel::Exact(expr) => seq![expr],
        SampleLevel::Bias(expr) => seq![expr],
        SampleLevel::Gradient { x, y } => seq![x, y],
    }
}

/// An expression is made of all the expressions that it names, in the order of its fields.
pub proof fn operands_are_all_that_is_named(expr: Expression)
    ensures
        match expr {
            Expression::Access { base, index } => operands(expr) == seq![base, index],
            Expression::AccessIndex { base, index: _ } => operands(expr) == seq![base],
            Expression::Constant(_) => operands(expr).len() == 0,
            Expression::Compose { ty: _, components } => operands(expr) == components@,
            Expression::FunctionArgument(_) => operands(expr).len() == 0,
            Expression::GlobalVariable(_) => operands(expr).len() == 0,
            Expression::LocalVariable(_) => operands(expr).len() == 0,
            Expression::Load { pointer } => operands(expr) == seq![pointer],
            Expression::ImageSample {
                image,
                sampler,
                coordinate,
                array_index,
                level,
                depth_ref,
                ..
            } => operands(expr) == seq![image, sampler, coordinate] + optional(array_index)
                + level_operands(level) + optional(depth_ref),
            Expression::ImageLoad { image, coordinate, array_index, index } => operands(expr)
                == seq![image, coordinate] + optional(array_index) + optional(index),
            Expression::Unary { op: _, expr: operand } => operands(expr) == seq![operand],
            Expression::Binary { op: _, left, right } => operands(expr) == seq![left, right],
            Expression::Select { condition, accept, reject } => operands(expr) == seq![
                condition,
                accept,
                reject,
            ],
            Expression::Derivative { axis: _, expr: operand } => operands(expr) == seq![operand],
            Expression::Relational { fun: _, argument } => operands(expr) == seq![argument],
            Expression::Math { fun: _, arg, arg1, arg2 } => operands(expr) == seq![arg] + optional(
                arg1,
            ) + optional(arg2),
            Expression::As { expr: operand, .. } => operands(expr) == seq![operand],
            Expression::Call { function: _, arguments } => operands(expr) == arguments@,
            Expression::ArrayLength(operand) => operands(expr) == seq![operand],
        },
{
    match expr {
        Expression::ImageSample {
            image,
            sampler,
            coordinate,
            array_index,
            level,
            depth_ref,
            ..
        } => {
            assert(operands(expr) =~= seq![image, sampler, coordinate] + optional(array_index)
                + level_operands(level) + optional(depth_ref));
        },
        Expression::ImageLoad { image, coordinate, array_index, index } => {
            assert(operands(expr) =~= seq![image, coordinate] + optional(array_index) + optional(
                index,
            ));
        },
        Expression::Math { arg, arg1, arg2, .. } => {
            assert(operands(expr) =~= seq![arg] + optional(arg1) + optional(arg2));
        },
        _ => {},
    }
}

/// Whether each expression of `path` is made of the next one, among others.
pub open spec fn is_operand_path(
    expressions: Arena<Expression>,
    path: Seq<Handle<Expression>>,
) -> bool {
    &&& path.len() > 0
    &&& forall|i: int|
        0 <= i < path.len() ==> (#[trigger] path[i]).index < expressions@.len()
    &&& forall|i: int|
        0 <= i < path.len() - 1 ==> operands(
            expressions@[(#[trigger] path[i]).index as int],
        ).contains(path[i + 1])
}

/// Whether `expr` can be reached from `start` through the expressions that expressions are made of.
pub open spec fn is_reached(
    expressions: Arena<Expression>,
    start: Handle<Expression>,
    expr: Expression,
) -> bool {
    exists|path: Seq<Handle<Expression>>| #[trigger]
        is_operand_path(expressions, path) && path.first() == start
            && expressions@[path.last().index as int] == expr
}

/// A visit of an expression starts with that expression and sees nothing that can't be reached from
/// there.
pub proof fn visits_stay_within_reach(
    expressions: Arena<Expression>,
    start: Handle<Expression>,
    depth: nat,
    i: int,
)
    requires
        expr_visits(expressions, start, depth) is Some,
        0 <= i < expr_visits(expressions, start, depth)->0.len(),
    ensures
        start.index < expressions@.len(),
        expr_visits(expressions, start, depth)->0[0] == expressions@[start.index as int],
        is_reached(expressions, start, expr_visits(expressions, start, depth)->0[i]),
    decreases depth, 0nat,
{
    let e = expressions@[start.index as int];
    let list = operands(e);
    let visits = expr_visits(expressions, start, depth)->0;
    let rest = list_visits(expressions, list, list.len(), (depth - 1) as nat)->0;
    assert(visits == seq![e] + rest);
    if i == 0 {
        let path = seq![start];
        assert(is_operand_path(expressions, path));
        assert(path.first() == start && path.last() == start);
    } else {
        list_visits_stay_within_reach(
            expressions,
            list,
            list.len(),
            (depth - 1) as nat,
            i - 1,
        );
        let k = choose|k: int|
            0 <= k < list.len() && is_reached(expressions, #[trigger] list[k], rest[i - 1]);
        let tail = choose|path: Seq<Handle<Expression>>| #[trigger]
            is_operand_path(expressions, path) && path.first() == list[k]
                && expressions@[path.last().index as int] == rest[i - 1];
        let path = seq![start] + tail;
        assert(is_operand_path(expressions, path)) by {
            assert forall|j: int| 0 <= j < path.len() implies (#[trigger] path[j]).index
                < expressions@.len() by {
                if j > 0 {
                    assert(path[j] == tail[j - 1]);
                }
            }
            assert forall|j: int| 0 <= j < path.len() - 1 implies operands(
                expressions@[(#[trigger] path[j]).index as int],
            ).contains(path[j + 1]) by {
                assert(path[j + 1] == tail[j]);
                if j > 0 {
                    let m = j - 1;
                    assert(path[j] == tail[m]);
                    assert(operands(expressions@[tail[m].index as int]).contains(tail[m + 1]));
                } else {
                    assert(tail[0] == list[k]);
                }
            }
        }
        assert(path.first() == start && path.last() == tail.last());
    }
}

/// A visit of a list of expressions sees nothing that can't be reached from one of them.
proof fn list_visits_stay_within_reach(
    expressions: Arena<Expression>,
    list: Seq<Handle<Expression>>,
    count: nat,
    depth: nat,
    i: int,
)
    requires
        count <= list.len(),
        list_visits(expressions, list, count, depth) is Some,
        0 <= i < list_visits(expressions, list, count, depth)->0.len(),
    ensures
        exists|k: int|
            0 <= k < list.len() && is_reached(
                expressions,
                #[trigger] list[k],
                list_visits(expressions, list, count, depth)->0[i],
            ),
    decreases depth, count,
{
    let all = list_visits(expressions, list, count, depth)->0;
    let first = list_visits(expressions, list, (count - 1) as nat, depth)->0;
    let second = expr_visits(expressions, list[count - 1], depth)->0;
    assert(all == first + second);
    if i < first.len() {
        list_visits_stay_within_reach(expressions, list, (count - 1) as nat, depth, i);
        assert(all[i] == first[i]);
    } else {
        visits_stay_within_reach(expressions, list[count - 1], depth, i - first.len());
        assert(all[i] == second[i - first.len()]);
        assert(is_reached(expressions, list[count - 1], all[i]));
    }
}

/// The positions of the functions that are called in a list of expressions, in the order of the
/// list.
pub open spec fn called_in(visits: Seq<Expression>) -> Seq<usize>
    decreases visits.len(),
{
    if visits.len() == 0 {
        Seq::empty()
    } else {
        match visits.last() {
            Expression::Call { function, arguments: _ } => called_in(visits.drop_last()).push(
                function.index,
            ),
            _ => called_in(visits.drop_last()),
        }
    }
}

/// The functions that a function calls are those that are called in the expressions of its visit,
/// in the order of the visit.
pub proof fn calls_are_what_is_visited(func: Function)
    ensures
        match function_visits(func) {
            Some(visits) => calls_of(func) == Some(called_in(visits)),
            None => calls_of(func) is None,
        },
{
    if let Some(visits) = function_visits(func) {
        collected_calls_are_what_is_visited(visits);
    }
}

/// A visitor collects the functions that are called.
proof fn collected_calls_are_what_is_visited(visits: Seq<Expression>)
    ensures
        after_all::<CallVisitor>(Seq::empty(), visits) == called_in(visits),
    decreases visits.len(),
{
    if visits.len() > 0 {
        collected_calls_are_what_is_visited(visits.drop_last());
    }
}

/// The visits of the first `count` expressions of a list, one after the other.
pub open spec fn visits_in_turn(
    expressions: Arena<Expression>,
    list: Seq<Handle<Expression>>,
    count: nat,
    depth: nat,
) -> Option<Seq<Expression>>
    decreases count,
{
    if count == 0 {
        Some(Seq::empty())
    } else {
        match (
            visits_in_turn(expressions, list, (count - 1) as nat, depth),
            expr_visits(expressions, list[count - 1], depth),
        ) {
            (Some(before), Some(last)) => Some(before + last),
            _ => None,
        }
    }
}

/// A visit of an expression sees that expression first, then what visits of all the expressions see
/// that it is made of, one after the other.
pub proof fn expressions_are_visited_before_their_operands(
    expressions: Arena<Expression>,
    expr: Handle<Expression>,
    depth: nat,
)
    requires
        depth > 0,
        expr.index < expressions@.len(),
    ensures
        ({
            let e = expressions@[expr.index as int];
            let list = operands(e);
            expr_visits(expressions, expr, depth) == (match visits_in_turn(
                expressions,
                list,
                list.len(),
                (depth - 1) as nat,
            ) {
                Some(visits) => Some(seq![e] + visits),
                None => None,
            })
        }),
{
    let list = operands(expressions@[expr.index as int]);
    lists_are_visited_in_turn(expressions, list, list.len(), (depth - 1) as nat);
}

/// The expressions of a list are visited one after the other.
proof fn lists_are_visited_in_turn(
    expressions: Arena<Expression>,
    list: Seq<Handle<Expression>>,
    count: nat,
    depth: nat,
)
    ensures
        list_visits(expressions, list, count, depth) == visits_in_turn(
            expressions,
            list,
            count,
            depth,
        ),
    decreases count,
{
    if count > 0 {
        lists_are_visited_in_turn(expressions, list, (count - 1) as nat, depth);
    }
}

} // verus!
