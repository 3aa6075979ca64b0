//! Writing pieces out.
//!
//! Types, constants and expressions refer to one another by handles, so nothing in their form
//! rules out that one contains itself. A chain of handles without a repetition is no longer than
//! the arena, so a chain that exceeds the length of the arena shows that the module is invalid.
use crate::arena::Handle;
use crate::constants::{constant_parts, constant_pieces};
use crate::context::{Env, FunctionCtx};
use crate::error::{BackendResult, Stop};
use crate::expressions::{expr_parts, expr_pieces};
use crate::ir::{Constant, Expression, Type};
use crate::output::{Output, Part, Parts, Piece};
use crate::text::{append_decimal, append_signed_decimal};
use crate::types::{type_parts, type_pieces};
use crate::writer::Writer;
use vstd::prelude::*;
use vstd::string::*;

verus! {

/// How many handles may still be followed, of each sort.
#[derive(Clone, Copy)]
pub struct Depth {
    pub exprs: usize,
    pub constants: usize,
    pub types: usize,
}

/// As many expressions of the function, and as many constants and types of the module, as there
/// are.
pub open spec fn full_depth(env: Env<'_>, ctx: Option<FunctionCtx<'_>>) -> Depth {
    Depth {
        exprs: match ctx {
            Some(c) => c.expressions@.len() as usize,
            None => 0,
        },
        constants: env.module.constants@.len() as usize,
        types: env.module.types@.len() as usize,
    }
}

/// `o` with a type at the end.
pub open spec fn type_output(
    env: Env<'_>,
    ctx: Option<FunctionCtx<'_>>,
    o: Output,
    ty: Handle<Type>,
    depth: Depth,
) -> Output
    decreases depth.exprs, depth.constants, depth.types, 0nat,
{
    if depth.types == 0 || !env.module.types.has(ty) {
        o.invalid()
    } else {
        let pieces = type_pieces(env, ty);
        let inner = Depth { types: (depth.types - 1) as usize, ..depth };
        pieces_output(env, ctx, o, pieces, pieces.len(), inner)
    }
}

/// `o` with a constant at the end.
pub open spec fn constant_output(
    env: Env<'_>,
    ctx: Option<FunctionCtx<'_>>,
    o: Output,
    constant: Handle<Constant>,
    depth: Depth,
) -> Output
    decreases depth.exprs, depth.constants, depth.types, 0nat,
{
    if depth.constants == 0 || !env.module.constants.has(constant) {
        o.invalid()
    } else {
        let pieces = constant_pieces(env.module.constants.at(constant));
        let inner = Depth {
            constants: (depth.constants - 1) as usize,
            types: full_depth(env, ctx).types,
            ..depth
        };
        pieces_output(env, ctx, o, pieces, pieces.len(), inner)
    }
}

/// `o` with an expression at the end.
pub open spec fn expr_output(
    env: Env<'_>,
    ctx: Option<FunctionCtx<'_>>,
    o: Output,
    expr: Handle<Expression>,
    depth: Depth,
) -> Output
    decreases depth.exprs, depth.constants, depth.types, 0nat,
{
    match ctx {
        None => o.invalid(),
        Some(c) => {
            if depth.exprs == 0 || !c.expressions.has(expr) {
                o.invalid()
            } else {
                let pieces = expr_pieces(env, c, c.expressions.at(expr));
                let inner = Depth {
                    exprs: (depth.exprs - 1) as usize,
                    ..full_depth(env, ctx)
                };
                pieces_output(env, ctx, o, pieces, pieces.len(), inner)
            }
        },
    }
}

/// `o` with a piece at the end, unless writing has stopped.
pub open spec fn piece_output(
    env: Env<'_>,
    ctx: Option<FunctionCtx<'_>>,
    o: Output,
    piece: Piece,
    depth: Depth,
) -> Output
    decreases depth.exprs, depth.constants, depth.types, 1nat,
{
    if o.status is Running {
        match piece {
            Piece::Text(text) => o.put(text),
            Piece::FreshId => o.put_id(),
            Piece::Type(ty) => type_output(env, ctx, o, ty, depth),
            Piece::Constant(constant) => constant_output(env, ctx, o, constant, depth),
            Piece::Expr(expr) => expr_output(env, ctx, o, expr, depth),
            Piece::Fail(error) => o.fail(error),
            Piece::Invalid => o.invalid(),
        }
    } else {
        o
    }
}

/// `o` with the first `count` of `pieces` at the end, unless writing has stopped.
pub open spec fn pieces_output(
    env: Env<'_>,
    ctx: Option<FunctionCtx<'_>>,
    o: Output,
    pieces: Seq<Piece>,
    count: nat,
    depth: Depth,
) -> Output
    decreases depth.exprs, depth.constants, depth.types, count + 2,
{
    if count == 0 {
        o
    } else {
        let before = pieces_output(env, ctx, o, pieces, (count - 1) as nat, depth);
        piece_output(env, ctx, before, pieces[count - 1], depth)
    }
}

/// `o` with all of `pieces` at the end, unless writing has stopped.
pub open spec fn render(
    env: Env<'_>,
    ctx: Option<FunctionCtx<'_>>,
    o: Output,
    pieces: Seq<Piece>,
) -> Output {
    pieces_output(env, ctx, o, pieces, pieces.len(), full_depth(env, ctx))
}

/// Once writing has stopped, further pieces change nothing.
pub proof fn pieces_change_nothing_after_a_stop(
    env: Env<'_>,
    ctx: Option<FunctionCtx<'_>>,
    o: Output,
    pieces: Seq<Piece>,
    written: nat,
    count: nat,
    depth: Depth,
)
    requires
        written <= count,
        !(pieces_output(env, ctx, o, pieces, written, depth).status is Running),
    ensures
        pieces_output(env, ctx, o, pieces, count, depth) == pieces_output(
            env,
            ctx,
            o,
            pieces,
            written,
            depth,
        ),
    decreases count,
{
    if written < count {
        pieces_change_nothing_after_a_stop(
            env,
            ctx,
            o,
            pieces,
            written,
            (count - 1) as nat,
            depth,
        );
        let before = pieces_output(env, ctx, o, pieces, (count - 1) as nat, depth);
        assert(piece_output(env, ctx, before, pieces[count - 1], depth) == before);
    }
}

impl<'a> Writer<'a> {
    /// As many expressions of the function, and as many constants and types of the module, as
    /// there are.
    fn full_depth(&self, ctx: Option<FunctionCtx<'a>>) -> (depth: Depth)
        ensures
            depth == full_depth(self.env, ctx),
    {
        Depth {
            exprs: match ctx {
                Some(c) => c.expressions.len(),
                None => 0,
            },
            constants: self.env.module.constants.len(),
            types: self.env.module.types.len(),
        }
    }

    /// Helper method used to write non image/sampler types
    ///
    /// # Notes
    /// Adds no trailing or leading whitespaces
    ///
    /// The module is invalid
    /// - If type is either a image or sampler
    /// - If it's an Array with a [`ArraySize::Constant`](crate::ir::ArraySize::Constant) with a
    /// constant that isn't [`Uint`](crate::ir::ConstantInner::Uint)
    pub fn write_type(
        &mut self,
        ctx: Option<FunctionCtx<'a>>,
        ty: Handle<Type>,
        depth: Depth,
    ) -> (result: BackendResult)
        ensures
            final(self).outcome(result) == type_output(
                old(self).env,
                ctx,
                old(self).state(),
                ty,
                depth,
            ),
            final(self).same_inputs(*old(self)),
        decreases depth.exprs, depth.constants, depth.types, 0nat,
    {
        if depth.types == 0 {
            return Err(Stop::Invalid);
        }
        let env = self.env;
        match env.module.types.try_get(ty) {
            None => Err(Stop::Invalid),
            Some(t) => {
                let parts = type_parts(env, ty, &t.inner);
                let inner = Depth {
                    exprs: depth.exprs,
                    constants: depth.constants,
                    types: depth.types - 1,
                };
                self.write_parts(ctx, &parts, inner)
            },
        }
    }

    /// Helper method used to write constants
    ///
    /// # Notes
    /// Adds no newlines or leading/trailing whitespaces
    pub fn write_constant(
        &mut self,
        ctx: Option<FunctionCtx<'a>>,
        constant: Handle<Constant>,
        depth: Depth,
    ) -> (result: BackendResult)
        ensures
            final(self).outcome(result) == constant_output(
                old(self).env,
                ctx,
                old(self).state(),
                constant,
                depth,
            ),
            final(self).same_inputs(*old(self)),
        decreases depth.exprs, depth.constants, depth.types, 0nat,
    {
        if depth.constants == 0 {
            return Err(Stop::Invalid);
        }
        let env = self.env;
        match env.module.constants.try_get(constant) {
            None => Err(Stop::Invalid),
            Some(c) => {
                let parts = constant_parts(c);
                let inner = Depth {
                    exprs: depth.exprs,
                    constants: depth.constants - 1,
                    types: env.module.types.len(),
                };
                self.write_parts(ctx, &parts, inner)
            },
        }
    }

    /// Helper method to write expressions
    ///
    /// # Notes
    /// Doesn't add any newlines or leading/trailing spaces
    pub fn write_expr(
        &mut self,
        ctx: Option<FunctionCtx<'a>>,
        expr: Handle<Expression>,
        depth: Depth,
    ) -> (result: BackendResult)
        ensures
            final(self).outcome(result) == expr_output(
                old(self).env,
                ctx,
                old(self).state(),
                expr,
                depth,
            ),
            final(self).same_inputs(*old(self)),
        decreases depth.exprs, depth.constants, depth.types, 0nat,
    {
        let env = self.env;
        let full = self.full_depth(ctx);
        match ctx {
            None => Err(Stop::Invalid),
            Some(c) => {
                if depth.exprs == 0 {
                    return Err(Stop::Invalid);
                }
                match c.expressions.try_get(expr) {
                    None => Err(Stop::Invalid),
                    Some(e) => {
                        let parts = expr_parts(env, c, e);
                        let inner = Depth {
                            exprs: depth.exprs - 1,
                            constants: full.constants,
                            types: full.types,
                        };
                        self.write_parts(ctx, &parts, inner)
                    },
                }
            },
        }
    }

    /// Writes a piece.
    fn write_part(&mut self, ctx: Option<FunctionCtx<'a>>, part: Part<'a>, depth: Depth) -> (result:
        BackendResult)
        ensures
            final(self).outcome(result) == piece_output(
                old(self).env,
                ctx,
                old(self).state(),
                part.view(),
                depth,
            ),
            final(self).same_inputs(*old(self)),
        decreases depth.exprs, depth.constants, depth.types, 1nat,
    {
        match part {
            Part::Text(text) => {
                self.out.append(text);
                Ok(())
            },
            Part::Decimal(n) => {
                append_decimal(&mut self.out, n);
                Ok(())
            },
            Part::Signed(n) => {
                append_signed_decimal(&mut self.out, n);
                Ok(())
            },
            Part::FreshId => {
                if self.block_id.0 < u32::MAX {
                    let id: u32 = self.block_id.generate();
                    append_decimal(&mut self.out, id as u64);
                    Ok(())
                } else {
                    Err(Stop::Invalid)
                }
            },
            Part::Type(ty) => self.write_type(ctx, ty, depth),
            Part::Constant(constant) => self.write_constant(ctx, constant, depth),
            Part::Expr(expr) => self.write_expr(ctx, expr, depth),
            Part::Fail(failure) => Err(Stop::Error(failure.error())),
            Part::Invalid => Err(Stop::Invalid),
        }
    }

    /// Writes pieces.
    fn write_parts(&mut self, ctx: Option<FunctionCtx<'a>>, parts: &Parts<'a>, depth: Depth) -> (
    result: BackendResult)
        ensures
            final(self).outcome(result) == pieces_output(
                old(self).env,
                ctx,
                old(self).state(),
                parts@,
                parts@.len(),
                depth,
            ),
            final(self).same_inputs(*old(self)),
        decreases depth.exprs, depth.constants, depth.types, parts@.len() + 2,
    {
        let ghost start = self.state();
        let ghost pieces = parts@;
        for i in 0..parts.items.len()
            invariant
                pieces == parts@,
                start == old(self).state(),
                self.state() == pieces_output(self.env, ctx, start, pieces, i as nat, depth),
                self.same_inputs(*old(self)),
        {
            match self.write_part(ctx, parts.items[i], depth) {
                Ok(()) => (),
                Err(stop) => {
                    proof {
                        pieces_change_nothing_after_a_stop(
                            self.env,
                            ctx,
                            start,
                            pieces,
                            (i + 1) as nat,
                            pieces.len(),
                            depth,
                        );
                    }
                    return Err(stop);
                },
            }
        }
        Ok(())
    }

    /// Writes pieces.
    pub fn render(&mut self, ctx: Option<FunctionCtx<'a>>, parts: &Parts<'a>) -> (result:
        BackendResult)
        ensures
            final(self).outcome(result) == render(old(self).env, ctx, old(self).state(), parts@),
            final(self).same_inputs(*old(self)),
    {
        let depth = self.full_depth(ctx);
        self.write_parts(ctx, parts, depth)
    }
}

} // verus!
