//! How functions are written.
use crate::arena::{handle_at, Handle};
use crate::context::{argument_name, local_key, Env, FunctionCtx, FunctionType};
use crate::error::{BackendResult, Error, ErrorView, Stop};
use crate::ir::{Function, LocalVariable};
use crate::output::{items_view, name_piece, separated, Output, Parts, Piece};
use crate::render::render;
use crate::statements::{block_changes_nothing_after_a_stop, block_output};
use crate::typing::{ResolveError, Typifier};
use crate::writer::Writer;
use vstd::prelude::*;

verus! {

/// The types of the expressions of a function.
pub open spec fn typing_of(env: Env<'_>, ty: FunctionType) -> Option<
    Result<Typifier, ResolveError>,
> {
    match ty {
        FunctionType::Function(function) => {
            let typing = env.analysis.typing.functions@;
            if function.index < typing.len() {
                Some(typing[function.index as int])
            } else {
                None
            }
        },
        FunctionType::EntryPoint(idx) => {
            let typing = env.analysis.typing.entry_points@;
            if idx < typing.len() {
                Some(typing[idx as int])
            } else {
                None
            }
        },
    }
}

/// Each argument of a function as the item of a list: `type name`.
pub open spec fn argument_items(env: Env<'_>, ty: FunctionType, func: Function) -> Seq<
    Seq<Piece>,
> {
    Seq::new(
        func.arguments@.len(),
        |i: int|
            seq![
                Piece::Type(func.arguments@[i].ty),
                Piece::Text(" "@),
                name_piece(argument_name(ty, i as u32, env.analysis.names)),
            ],
    )
}

/// The first `count` local variables of a function, one on a line: `type name = init;`, where the
/// part with the initializer is optional.
pub open spec fn local_pieces(
    env: Env<'_>,
    ty: FunctionType,
    locals: Seq<LocalVariable>,
    count: nat,
) -> Seq<Piece>
    decreases count,
{
    if count == 0 {
        seq![]
    } else {
        let index = count - 1;
        let local = locals[index];
        let key = local_key(ty, handle_at(index));
        let pieces = local_pieces(env, ty, locals, index as nat).push(Piece::Text("\t"@)).push(
            Piece::Type(local.ty),
        ).push(Piece::Text(" "@)).push(name_piece(env.analysis.names.lookup(key)));
        let pieces = match local.init {
            Some(init) => pieces.push(Piece::Text(" = "@)).push(Piece::Constant(init)),
            None => pieces,
        };
        pieces.push(Piece::Text(";\n"@))
    }
}

/// The part of a function before its statements: `ret_type name(args) {`, where `args` is a comma
/// separated list, then the local variables and an empty line.
pub open spec fn function_head_pieces(
    env: Env<'_>,
    ty: FunctionType,
    func: Function,
    name: Seq<char>,
) -> Seq<Piece> {
    let result = match func.return_type {
        Some(ty) => Piece::Type(ty),
        None => Piece::Text("void"@),
    };
    let head = (seq![result, Piece::Text(" "@), Piece::Text(name), Piece::Text("("@)] + separated(
        argument_items(env, ty, func),
    )).push(Piece::Text(") {\n"@));
    (head + local_pieces(
        env,
        ty,
        func.local_variables@,
        func.local_variables@.len(),
    )).push(Piece::Text("\n"@))
}

/// `o` with a function at the end, unless writing has stopped.
///
/// The types of its expressions must have been resolved.
pub open spec fn function_output(
    env: Env<'_>,
    o: Output,
    ty: FunctionType,
    func: Function,
    name: Seq<char>,
) -> Output {
    match typing_of(env, ty) {
        None => o.invalid(),
        Some(Err(e)) => o.fail(ErrorView::Type(e.reason@)),
        Some(Ok(typifier)) => {
            let ctx = FunctionCtx {
                func: ty,
                expressions: &func.expressions,
                typifier: &typifier,
            };
            let o = render(env, Some(ctx), o, function_head_pieces(env, ty, func, name));
            let o = block_output(env, ctx, o, func.body@, func.body@.len(), 1);
            o.put("}\n"@)
        },
    }
}

/// Adds the arguments of a function.
fn add_arguments<'a>(env: Env<'a>, parts: &mut Parts<'a>, ctx: FunctionCtx<'a>, func: &'a Function)
    ensures
        final(parts)@ == old(parts)@ + separated(argument_items(env, ctx.func, *func)),
{
    let mut items: Vec<Parts<'a>> = Vec::new();
    for i in 0..func.arguments.len()
        invariant
            items@.len() == i,
            forall|j: int|
                0 <= j < i ==> (#[trigger] items@[j])@ == argument_items(env, ctx.func, *func)[j],
    {
        let mut item = Parts::new();
        item.ty(func.arguments[i].ty);
        item.text(" ");
        item.name(ctx.get_arg(i as u32, &env.analysis.names));
        assert(item@ =~= argument_items(env, ctx.func, *func)[i as int]);
        items.push(item);
    }
    assert(items_view(items@) =~= argument_items(env, ctx.func, *func));
    parts.write_slice(&items);
}

/// Adds the local variables of a function.
fn add_locals<'a>(env: Env<'a>, parts: &mut Parts<'a>, ctx: FunctionCtx<'a>, func: &'a Function)
    ensures
        final(parts)@ == old(parts)@ + local_pieces(
            env,
            ctx.func,
            func.local_variables@,
            func.local_variables@.len(),
        ),
{
    let ghost locals = func.local_variables@;
    assert(parts@ =~= old(parts)@ + local_pieces(env, ctx.func, locals, 0));
    for i in 0..func.local_variables.data.len()
        invariant
            locals == func.local_variables@,
            parts@ == old(parts)@ + local_pieces(env, ctx.func, locals, i as nat),
    {
        let local = &func.local_variables.data[i];
        // Indentation (only for readability) and the type
        parts.text("\t");
        parts.ty(local.ty);
        // The leading space is important
        parts.text(" ");
        parts.name(env.analysis.names.get(ctx.name_key(Handle::new(i))));
        // Put the equal signal only if there's a initializer
        match local.init {
            Some(init) => {
                parts.text(" = ");
                parts.constant(init);
            },
            None => (),
        }
        parts.text(";\n");
        assert(parts@ =~= old(parts)@ + local_pieces(env, ctx.func, locals, (i + 1) as nat));
    }
}

/// The pieces of the part of a function before its statements.
fn function_head_parts<'a>(
    env: Env<'a>,
    ctx: FunctionCtx<'a>,
    func: &'a Function,
    name: &'a str,
) -> (parts: Parts<'a>)
    ensures
        parts@ == function_head_pieces(env, ctx.func, *func, name@),
{
    let mut parts = Parts::new();
    // Start with the return type if any otherwise void
    match func.return_type {
        Some(ty) => parts.ty(ty),
        None => parts.text("void"),
    }
    parts.text(" ");
    parts.text(name);
    parts.text("(");
    add_arguments(env, &mut parts, ctx, func);
    parts.text(") {\n");
    add_locals(env, &mut parts, ctx, func);
    parts.text("\n");
    parts
}

impl<'a> Writer<'a> {
    /// The types of the expressions of a function.
    fn typing(&self, ty: FunctionType) -> (typing: Option<&'a Result<Typifier, ResolveError>>)
        ensures
            match typing {
                Some(t) => typing_of(self.env, ty) == Some(*t),
                None => typing_of(self.env, ty) is None,
            },
    {
        let env = self.env;
        match ty {
            FunctionType::Function(function) => {
                if function.index < env.analysis.typing.functions.len() {
                    Some(&env.analysis.typing.functions[function.index])
                } else {
                    None
                }
            },
            FunctionType::EntryPoint(idx) => {
                if (idx as usize) < env.analysis.typing.entry_points.len() {
                    Some(&env.analysis.typing.entry_points[idx as usize])
                } else {
                    None
                }
            },
        }
    }

    /// Helper method used to write functions (both entry points and regular functions)
    ///
    /// # Notes
    /// Adds a newline
    pub fn write_function(&mut self, ty: FunctionType, func: &'a Function, name: &'a str) -> (result:
        BackendResult)
        ensures
            final(self).outcome(result) == function_output(
                old(self).env,
                old(self).state(),
                ty,
                *func,
                name@,
            ),
            final(self).same_inputs(*old(self)),
    {
        // The types of all the expressions of the function
        let typifier = match self.typing(ty) {
            None => {
                return Err(Stop::Invalid);
            },
            Some(Err(e)) => {
                return Err(Stop::Error(Error::Type(e.duplicate())));
            },
            Some(Ok(typifier)) => typifier,
        };
        // Create a function context for the function being written
        let ctx = FunctionCtx { func: ty, expressions: &func.expressions, typifier };
        let env = self.env;
        let parts = function_head_parts(env, ctx, func, name);
        proof {
            let o = render(env, Some(ctx), self.state(), parts@);
            block_changes_nothing_after_a_stop(env, ctx, o, func.body@, func.body@.len(), 1);
        }
        self.render(Some(ctx), &parts)?;
        // Write the function body, the indentation should always be 1 when writing the function
        // body
        self.write_block(&func.body, ctx, 1)?;
        // Close braces and add a newline
        self.put("}\n");
        Ok(())
    }
}

} // verus!
