//! Visiting all the expressions that the statements of a function use.
use crate::arena::{Arena, Handle};
use crate::ir::{Expression, Function, SampleLevel, Statement, SwitchCase};
use vstd::prelude::*;

verus! {

/// `list`, then `item` if there is one.
pub open spec fn with_optional(
    list: Seq<Handle<Expression>>,
    item: Option<Handle<Expression>>,
) -> Seq<Handle<Expression>> {
    match item {
        Some(expr) => list.push(expr),
        None => list,
    }
}

/// The expressions that an expression is made of, in the order of their visit.
pub open spec fn operands(expr: Expression) -> Seq<Handle<Expression>> {
    match expr {
        Expression::Access { base, index } => seq![base, index],
        Expression::AccessIndex { base, .. } => seq![base],
        Expression::Constant(_) => seq![],
        Expression::Compose { components, .. } => components@,
        Expression::FunctionArgument(_) => seq![],
        Expression::GlobalVariable(_) => seq![],
        Expression::LocalVariable(_) => seq![],
        Expression::Load { pointer } => seq![pointer],
        Expression::ImageSample {
            image,
            sampler,
            coordinate,
            array_index,
            level,
            depth_ref,
            ..
        } => {
            let list = with_optional(seq![image, sampler, coordinate], array_index);
            let list = match level {
                SampleLevel::Auto | SampleLevel::Zero => list,
                SampleLevel::Exact(expr) | SampleLevel::Bias(expr) => list.push(expr),
                SampleLevel::Gradient { x, y } => list.push(x).push(y),
            };
            with_optional(list, depth_ref)
        },
        Expression::ImageLoad { image, coordinate, array_index, index } => with_optional(
            with_optional(seq![image, coordinate], array_index),
            index,
        ),
        Expression::Unary { expr, .. } => seq![expr],
        Expression::Binary { left, right, .. } => seq![left, right],
        Expression::Select { condition, accept, reject } => seq![condition, accept, reject],
        Expression::Derivative { expr, .. } => seq![expr],
        Expression::Relational { argument, .. } => seq![argument],
        Expression::Math { arg, arg1, arg2, .. } => with_optional(
            with_optional(seq![arg], arg1),
            arg2,
        ),
        Expression::As { expr, .. } => seq![expr],
        Expression::Call { arguments, .. } => arguments@,
        Expression::ArrayLength(expr) => seq![expr],
    }
}

/// The visits of `first`, then those of `second`, if both have been possible.
pub open spec fn join(first: Option<Seq<Expression>>, second: Option<Seq<Expression>>) -> Option<
    Seq<Expression>,
> {
    match (first, second) {
        (Some(a), Some(b)) => Some(a + b),
        _ => None,
    }
}

/// The expressions that are visited from `expr`: the expression itself, then those that it is made
/// of. There are none if a handle points nowhere, or if more than `depth` handles follow one
/// another.
pub open spec fn expr_visits(
    expressions: Arena<Expression>,
    expr: Handle<Expression>,
    depth: nat,
) -> Option<Seq<Expression>>
    decreases depth, 0nat,
{
    if depth == 0 || !expressions.has(expr) {
        None
    } else {
        let e = expressions.at(expr);
        let list = operands(e);
        join(Some(seq![e]), list_visits(expressions, list, list.len(), (depth - 1) as nat))
    }
}

/// The expressions that are visited from the first `count` expressions of a list.
pub open spec fn list_visits(
    expressions: Arena<Expression>,
    list: Seq<Handle<Expression>>,
    count: nat,
    depth: nat,
) -> Option<Seq<Expression>>
    decreases depth, count,
{
    if count == 0 {
        Some(Seq::empty())
    } else {
        join(
            list_visits(expressions, list, (count - 1) as nat, depth),
            expr_visits(expressions, list[count - 1], depth),
        )
    }
}

/// The expressions that are visited from an expression of a statement.
pub open spec fn root_visits(expressions: Arena<Expression>, expr: Handle<Expression>) -> Option<
    Seq<Expression>,
> {
    expr_visits(expressions, expr, expressions@.len())
}

/// The expressions that are visited from a statement.
pub open spec fn stmt_visits(expressions: Arena<Expression>, sta: Statement) -> Option<
    Seq<Expression>,
>
    decreases sta, 0nat,
{
    match sta {
        Statement::Block(block) => block_visits(expressions, block@, block@.len()),
        Statement::If { condition, accept, reject } => join(
            join(
                root_visits(expressions, condition),
                block_visits(expressions, accept@, accept@.len()),
            ),
            block_visits(expressions, reject@, reject@.len()),
        ),
        Statement::Switch { selector, cases, default } => join(
            join(
                root_visits(expressions, selector),
                cases_visits(expressions, cases@, cases@.len()),
            ),
            block_visits(expressions, default@, default@.len()),
        ),
        Statement::Loop { body, continuing } => join(
            block_visits(expressions, body@, body@.len()),
            block_visits(expressions, continuing@, continuing@.len()),
        ),
        Statement::Break | Statement::Continue | Statement::Kill => Some(Seq::empty()),
        Statement::Return { value } => match value {
            Some(expr) => root_visits(expressions, expr),
            None => Some(Seq::empty()),
        },
        Statement::Store { pointer, value } => join(
            root_visits(expressions, pointer),
            root_visits(expressions, value),
        ),
    }
}

/// The expressions that are visited from the first `count` statements of a block.
pub open spec fn block_visits(
    expressions: Arena<Expression>,
    block: Seq<Statement>,
    count: nat,
) -> Option<Seq<Expression>>
    decreases block, count,
{
    if count == 0 || count > block.len() {
        Some(Seq::empty())
    } else {
        join(
            block_visits(expressions, block, (count - 1) as nat),
            stmt_visits(expressions, block[count - 1]),
        )
    }
}

/// The expressions that are visited from the first `count` cases of a switch.
pub open spec fn cases_visits(
    expressions: Arena<Expression>,
    cases: Seq<SwitchCase>,
    count: nat,
) -> Option<Seq<Expression>>
    decreases cases, count,
{
    if count == 0 || count > cases.len() {
        Some(Seq::empty())
    } else {
        let body = cases[count - 1].body@;
        join(
            cases_visits(expressions, cases, (count - 1) as nat),
            block_visits(expressions, body, body.len()),
        )
    }
}

/// The expressions that are visited from the statements of a function.
pub open spec fn function_visits(func: Function) -> Option<Seq<Expression>> {
    block_visits(func.expressions, func.body@, func.body@.len())
}

/// Something that is shown expressions.
pub trait Visitor: Sized {
    /// What the visitor has found out.
    type Model;

    /// Whether the visitor is well-formed.
    spec fn wf(&self) -> bool;

    /// What the visitor has found out so far.
    spec fn model(&self) -> Self::Model;

    /// What the visitor knows after it has been shown one more expression.
    spec fn after(model: Self::Model, expr: Expression) -> Self::Model;

    /// Shows an expression to the visitor.
    fn visit_expr(&mut self, expr: &Expression)
        requires
            old(self).wf(),
        ensures
            final(self).wf(),
            final(self).model() == Self::after(old(self).model(), *expr),
    ;
}

/// What a visitor knows after it has been shown all of `exprs`.
pub open spec fn after_all<V: Visitor>(model: V::Model, exprs: Seq<Expression>) -> V::Model
    decreases exprs.len(),
{
    if exprs.len() == 0 {
        model
    } else {
        V::after(after_all::<V>(model, exprs.drop_last()), exprs.last())
    }
}

/// To show two lists one after the other is to show their concatenation.
pub proof fn after_concatenation<V: Visitor>(
    model: V::Model,
    first: Seq<Expression>,
    second: Seq<Expression>,
)
    ensures
        after_all::<V>(model, first + second) == after_all::<V>(
            after_all::<V>(model, first),
            second,
        ),
    decreases second.len(),
{
    if second.len() == 0 {
        assert(first + second =~= first);
    } else {
        assert((first + second).drop_last() =~= first + second.drop_last());
        after_concatenation::<V>(model, first, second.drop_last());
    }
}

/// Adds `item` if there is one.
fn add_optional(list: &mut Vec<Handle<Expression>>, item: &Option<Handle<Expression>>)
    ensures
        final(list)@ == with_optional(old(list)@, *item),
{
    match item {
        Some(expr) => list.push(*expr),
        None => (),
    }
}

/// Adds all of `items`.
fn add_all(list: &mut Vec<Handle<Expression>>, items: &Vec<Handle<Expression>>)
    requires
        old(list)@.len() == 0,
    ensures
        final(list)@ == items@,
{
    for i in 0..items.len()
        invariant
            list@ == items@.take(i as int),
    {
        list.push(items[i]);
        assert(list@ =~= items@.take(i + 1));
    }
    assert(list@ =~= items@);
}

/// The expressions that an expression is made of.
fn list_operands(expr: &Expression) -> (list: Vec<Handle<Expression>>)
    ensures
        list@ == operands(*expr),
{
    let mut list: Vec<Handle<Expression>> = Vec::new();
    match expr {
        Expression::Access { base, index } => {
            list.push(*base);
            list.push(*index);
        },
        Expression::AccessIndex { base, .. } => list.push(*base),
        Expression::Constant(_) => (),
        Expression::Compose { components, .. } => add_all(&mut list, components),
        Expression::FunctionArgument(_) => (),
        Expression::GlobalVariable(_) => (),
        Expression::LocalVariable(_) => (),
        Expression::Load { pointer } => list.push(*pointer),
        Expression::ImageSample {
            image,
            sampler,
            coordinate,
            array_index,
            level,
            depth_ref,
            ..
        } => {
            list.push(*image);
            list.push(*sampler);
            list.push(*coordinate);
            add_optional(&mut list, array_index);
            match level {
                SampleLevel::Auto | SampleLevel::Zero => (),
                SampleLevel::Exact(expr) | SampleLevel::Bias(expr) => list.push(*expr),
                SampleLevel::Gradient { x, y } => {
                    list.push(*x);
                    list.push(*y);
                },
            }
            add_optional(&mut list, depth_ref);
        },
        Expression::ImageLoad { image, coordinate, array_index, index } => {
            list.push(*image);
            list.push(*coordinate);
            add_optional(&mut list, array_index);
            add_optional(&mut list, index);
        },
        Expression::Unary { expr, .. } => list.push(*expr),
        Expression::Binary { left, right, .. } => {
            list.push(*left);
            list.push(*right);
        },
        Expression::Select { condition, accept, reject } => {
            list.push(*condition);
            list.push(*accept);
            list.push(*reject);
        },
        Expression::Derivative { expr, .. } => list.push(*expr),
        Expression::Relational { argument, .. } => list.push(*argument),
        Expression::Math { arg, arg1, arg2, .. } => {
            list.push(*arg);
            add_optional(&mut list, arg1);
            add_optional(&mut list, arg2);
        },
        Expression::As { expr, .. } => list.push(*expr),
        Expression::Call { arguments, .. } => add_all(&mut list, arguments),
        Expression::ArrayLength(expr) => list.push(*expr),
    }
    list
}

/// A visitor, together with the expressions that it is taken through.
pub struct Interface<'a, V> {
    pub expressions: &'a Arena<Expression>,
    pub visitor: V,
}

impl<'a, V: Visitor> Interface<'a, V> {
    /// Whether a traversal has shown `visits` to the visitor that knew `before`, or has been
    /// impossible.
    pub open spec fn traversed(
        self,
        before: V::Model,
        visits: Option<Seq<Expression>>,
        valid: bool,
    ) -> bool {
        match visits {
            Some(list) => valid && self.visitor.model() == after_all::<V>(before, list),
            None => !valid,
        }
    }

    /// Takes the visitor through an expression. Returns whether that was possible.
    fn traverse_expr(&mut self, expr: Handle<Expression>, depth: usize) -> (valid: bool)
        requires
            old(self).visitor.wf(),
        ensures
            final(self).visitor.wf(),
            final(self).expressions == old(self).expressions,
            final(self).traversed(
                old(self).visitor.model(),
                expr_visits(*old(self).expressions, expr, depth as nat),
                valid,
            ),
        decreases depth, 0nat,
    {
        if depth == 0 {
            return false;
        }
        let expressions = self.expressions;
        match expressions.try_get(expr) {
            None => false,
            Some(e) => {
                let ghost before = self.visitor.model();
                self.visitor.visit_expr(e);
                let list = list_operands(e);
                let valid = self.traverse_list(&list, depth - 1);
                proof {
                    let rest = list_visits(
                        *expressions,
                        list@,
                        list@.len(),
                        (depth - 1) as nat,
                    );
                    if let Some(visits) = rest {
                        after_concatenation::<V>(before, seq![*e], visits);
                        assert(seq![*e].drop_last() =~= Seq::<Expression>::empty());
                        reveal_with_fuel(after_all, 2);
                    }
                }
                valid
            },
        }
    }

    /// Takes the visitor through a list of expressions. Returns whether that was possible.
    fn traverse_list(&mut self, list: &Vec<Handle<Expression>>, depth: usize) -> (valid: bool)
        requires
            old(self).visitor.wf(),
        ensures
            final(self).visitor.wf(),
            final(self).expressions == old(self).expressions,
            final(self).traversed(
                old(self).visitor.model(),
                list_visits(*old(self).expressions, list@, list@.len(), depth as nat),
                valid,
            ),
        decreases depth, list@.len() + 1,
    {
        let ghost before = self.visitor.model();
        let mut valid = true;
        for i in 0..list.len()
            invariant
                before == old(self).visitor.model(),
                self.visitor.wf(),
                self.expressions == old(self).expressions,
                self.traversed(
                    before,
                    list_visits(*self.expressions, list@, i as nat, depth as nat),
                    valid,
                ),
        {
            if valid {
                let ghost first = list_visits(
                    *self.expressions,
                    list@,
                    i as nat,
                    depth as nat,
                )->0;
                valid = self.traverse_expr(list[i], depth);
                proof {
                    let next = expr_visits(*self.expressions, list@[i as int], depth as nat);
                    if let Some(second) = next {
                        after_concatenation::<V>(before, first, second);
                    }
                }
            }
        }
        valid
    }

    /// Takes the visitor through an expression of a statement. Returns whether that was possible.
    fn traverse_root(&mut self, expr: Handle<Expression>) -> (valid: bool)
        requires
            old(self).visitor.wf(),
        ensures
            final(self).visitor.wf(),
            final(self).expressions == old(self).expressions,
            final(self).traversed(
                old(self).visitor.model(),
                root_visits(*old(self).expressions, expr),
                valid,
            ),
    {
        let depth: usize = self.expressions.len();
        self.traverse_expr(expr, depth)
    }

    /// Takes the visitor through a statement. Returns whether that was possible.
    fn traverse_stmt(&mut self, sta: &Statement) -> (valid: bool)
        requires
            old(self).visitor.wf(),
        ensures
            final(self).visitor.wf(),
            final(self).expressions == old(self).expressions,
            final(self).traversed(
                old(self).visitor.model(),
                stmt_visits(*old(self).expressions, *sta),
                valid,
            ),
        decreases *sta, 0nat,
    {
        let ghost before = self.visitor.model();
        let ghost exprs = *self.expressions;
        match sta {
            Statement::Block(block) => self.traverse(block),
            Statement::If { condition, accept, reject } => {
                let ghost first = root_visits(exprs, *condition);
                let ghost second = block_visits(exprs, accept@, accept@.len());
                let ghost third = block_visits(exprs, reject@, reject@.len());
                proof {
                    Self::after_join(before, first, second);
                    Self::after_join(before, join(first, second), third);
                }
                self.traverse_root(*condition) && self.traverse(accept) && self.traverse(reject)
            },
            Statement::Switch { selector, cases, default } => {
                let ghost first = root_visits(exprs, *selector);
                let ghost second = cases_visits(exprs, cases@, cases@.len());
                let ghost third = block_visits(exprs, default@, default@.len());
                proof {
                    Self::after_join(before, first, second);
                    Self::after_join(before, join(first, second), third);
                }
                self.traverse_root(*selector) && self.traverse_cases(cases) && self.traverse(
                    default,
                )
            },
            Statement::Loop { body, continuing } => {
                let ghost first = block_visits(exprs, body@, body@.len());
                let ghost second = block_visits(exprs, continuing@, continuing@.len());
                proof {
                    Self::after_join(before, first, second);
                }
                self.traverse(body) && self.traverse(continuing)
            },
            Statement::Break | Statement::Continue | Statement::Kill => true,
            Statement::Return { value } => match value {
                Some(expr) => self.traverse_root(*expr),
                None => true,
            },
            Statement::Store { pointer, value } => {
                proof {
                    Self::after_join(
                        before,
                        root_visits(exprs, *pointer),
                        root_visits(exprs, *value),
                    );
                }
                self.traverse_root(*pointer) && self.traverse_root(*value)
            },
        }
    }

    /// To show two lists one after the other is to show their concatenation.
    proof fn after_join(
        model: V::Model,
        first: Option<Seq<Expression>>,
        second: Option<Seq<Expression>>,
    )
        ensures
            join(first, second) is Some <==> first is Some && second is Some,
            join(first, second) is Some ==> after_all::<V>(model, join(first, second)->0)
                == after_all::<V>(after_all::<V>(model, first->0), second->0),
    {
        if let (Some(a), Some(b)) = (first, second) {
            after_concatenation::<V>(model, a, b);
        }
    }

    /// Takes the visitor through the statements of a block. Returns whether that was possible.
    pub fn traverse(&mut self, block: &Vec<Statement>) -> (valid: bool)
        requires
            old(self).visitor.wf(),
        ensures
            final(self).visitor.wf(),
            final(self).expressions == old(self).expressions,
            final(self).traversed(
                old(self).visitor.model(),
                block_visits(*old(self).expressions, block@, block@.len()),
                valid,
            ),
        decreases block@, block@.len(),
    {
        let ghost before = self.visitor.model();
        let mut valid = true;
        for i in 0..block.len()
            invariant
                before == old(self).visitor.model(),
                self.visitor.wf(),
                self.expressions == old(self).expressions,
                self.traversed(before, block_visits(*self.expressions, block@, i as nat), valid),
        {
            proof {
                Self::after_join(
                    before,
                    block_visits(*self.expressions, block@, i as nat),
                    stmt_visits(*self.expressions, block@[i as int]),
                );
            }
            if valid {
                valid = self.traverse_stmt(&block[i]);
            }
        }
        valid
    }

    /// Takes the visitor through the cases of a switch. Returns whether that was possible.
    fn traverse_cases(&mut self, cases: &Vec<SwitchCase>) -> (valid: bool)
        requires
            old(self).visitor.wf(),
        ensures
            final(self).visitor.wf(),
            final(self).expressions == old(self).expressions,
            final(self).traversed(
                old(self).visitor.model(),
                cases_visits(*old(self).expressions, cases@, cases@.len()),
                valid,
            ),
        decreases cases@, cases@.len(),
    {
        let ghost before = self.visitor.model();
        let mut valid = true;
        for i in 0..cases.len()
            invariant
                before == old(self).visitor.model(),
                self.visitor.wf(),
                self.expressions == old(self).expressions,
                self.traversed(before, cases_visits(*self.expressions, cases@, i as nat), valid),
        {
            proof {
                let body = cases@[i as int].body@;
                Self::after_join(
                    before,
                    cases_visits(*self.expressions, cases@, i as nat),
                    block_visits(*self.expressions, body, body.len()),
                );
            }
            if valid {
                valid = self.traverse(&cases[i].body);
            }
        }
        valid
    }
}

} // verus!
