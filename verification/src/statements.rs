//! How statements are written.
use crate::context::{Env, FunctionCtx};
use crate::error::{BackendResult, Stop};
use crate::ir::{Statement, SwitchCase};
use crate::output::{Output, Parts, Piece};
use crate::render::{
    full_depth, pieces_change_nothing_after_a_stop, pieces_output, render,
};
use crate::text::{signed_decimal, tabs};
use crate::writer::Writer;
use vstd::prelude::*;

verus! {

/// The deepest indentation: a string of more tabs can't be held.
pub open spec fn max_indent() -> nat {
    isize::MAX as nat
}

/// `o` with a statement at the end, unless writing has stopped.
///
/// A statement starts with its indentation and ends with a newline. The statements of nested
/// blocks are indented further.
pub open spec fn stmt_output(
    env: Env<'_>,
    ctx: FunctionCtx<'_>,
    o: Output,
    sta: Statement,
    indent: nat,
) -> Output
    decreases sta, 0nat,
{
    if !(o.status is Running) {
        o
    } else if indent > max_indent() {
        o.invalid()
    } else {
        let o = o.put(tabs(indent));
        match sta {
            // { block }
            Statement::Block(block) => {
                let o = o.put("{\n"@);
                let o = block_output(env, ctx, o, block@, block@.len(), indent + 1);
                o.put(tabs(indent)).put("}\n"@)
            },
            // if(condition) { accept } else { reject }, where an empty `reject` is left out
            Statement::If { condition, accept, reject } => {
                let o = render(
                    env,
                    Some(ctx),
                    o,
                    seq![Piece::Text("if("@), Piece::Expr(condition), Piece::Text(") {\n"@)],
                );
                let o = block_output(env, ctx, o, accept@, accept@.len(), indent + 1);
                let o = if reject@.len() > 0 {
                    let o = o.put(tabs(indent)).put("} else {\n"@);
                    block_output(env, ctx, o, reject@, reject@.len(), indent + 1)
                } else {
                    o
                };
                o.put(tabs(indent)).put("}\n"@)
            },
            // switch(selector) { cases default: default }, where an empty `default` is left out
            Statement::Switch { selector, cases, default } => {
                let o = render(
                    env,
                    Some(ctx),
                    o,
                    seq![Piece::Text("switch("@), Piece::Expr(selector), Piece::Text(") {\n"@)],
                );
                let o = cases_output(env, ctx, o, cases@, cases@.len(), indent);
                let o = if default@.len() > 0 {
                    let o = o.put(tabs(indent + 1)).put("default:\n"@);
                    block_output(env, ctx, o, default@, default@.len(), indent + 2)
                } else {
                    o
                };
                o.put(tabs(indent)).put("}\n"@)
            },
            // while(true) { body continuing }
            Statement::Loop { body, continuing } => {
                let o = o.put("while(true) {\n"@);
                let o = block_output(env, ctx, o, body@, body@.len(), indent + 1);
                let o = block_output(env, ctx, o, continuing@, continuing@.len(), indent + 1);
                o.put(tabs(indent)).put("}\n"@)
            },
            Statement::Break => o.put("break;\n"@),
            Statement::Continue => o.put("continue;\n"@),
            // return value;
            Statement::Return { value } => match value {
                Some(expr) => render(
                    env,
                    Some(ctx),
                    o,
                    seq![Piece::Text("return"@), Piece::Text(" "@), Piece::Expr(expr), Piece::Text(
                        ";\n"@,
                    )],
                ),
                None => o.put("return;\n"@),
            },
            Statement::Kill => o.put("discard;\n"@),
            // pointer = value;
            Statement::Store { pointer, value } => render(
                env,
                Some(ctx),
                o,
                seq![
                    Piece::Expr(pointer),
                    Piece::Text(" = "@),
                    Piece::Expr(value),
                    Piece::Text(";\n"@),
                ],
            ),
        }
    }
}

/// `o` with the first `count` statements of `block` at the end, unless writing has stopped.
pub open spec fn block_output(
    env: Env<'_>,
    ctx: FunctionCtx<'_>,
    o: Output,
    block: Seq<Statement>,
    count: nat,
    indent: nat,
) -> Output
    decreases block, count,
{
    if count == 0 || count > block.len() {
        o
    } else {
        let before = block_output(env, ctx, o, block, (count - 1) as nat, indent);
        stmt_output(env, ctx, before, block[count - 1], indent)
    }
}

/// `o` with the first `count` cases of a switch at the end, unless writing has stopped.
///
/// A case that doesn't fall through ends with a `break`.
pub open spec fn cases_output(
    env: Env<'_>,
    ctx: FunctionCtx<'_>,
    o: Output,
    cases: Seq<SwitchCase>,
    count: nat,
    indent: nat,
) -> Output
    decreases cases, count,
{
    if count == 0 || count > cases.len() {
        o
    } else {
        let o = cases_output(env, ctx, o, cases, (count - 1) as nat, indent);
        let case = cases[count - 1];
        let o = o.put(tabs(indent + 1)).put("case "@).put(signed_decimal(case.value as int)).put(
            ":\n"@,
        );
        let o = block_output(env, ctx, o, case.body@, case.body@.len(), indent + 2);
        if case.fall_through {
            o
        } else {
            o.put(tabs(indent + 2)).put("break;\n"@)
        }
    }
}

/// Once writing has stopped, rendering changes nothing.
pub proof fn render_changes_nothing_after_a_stop(
    env: Env<'_>,
    ctx: Option<FunctionCtx<'_>>,
    o: Output,
    pieces: Seq<Piece>,
)
    ensures
        !(o.status is Running) ==> render(env, ctx, o, pieces) == o,
{
    if !(o.status is Running) {
        let depth = full_depth(env, ctx);
        assert(pieces_output(env, ctx, o, pieces, 0, depth) == o);
        pieces_change_nothing_after_a_stop(env, ctx, o, pieces, 0, pieces.len(), depth);
    }
}

/// Once writing has stopped, further statements change nothing.
pub proof fn block_changes_nothing_after_a_stop(
    env: Env<'_>,
    ctx: FunctionCtx<'_>,
    o: Output,
    block: Seq<Statement>,
    count: nat,
    indent: nat,
)
    ensures
        !(o.status is Running) ==> block_output(env, ctx, o, block, count, indent) == o,
    decreases count,
{
    if !(o.status is Running) && 0 < count <= block.len() {
        block_changes_nothing_after_a_stop(env, ctx, o, block, (count - 1) as nat, indent);
        assert(stmt_output(env, ctx, o, block[count - 1], indent) == o);
    }
}

/// Once writing has stopped, further cases change nothing.
pub proof fn cases_change_nothing_after_a_stop(
    env: Env<'_>,
    ctx: FunctionCtx<'_>,
    o: Output,
    cases: Seq<SwitchCase>,
    count: nat,
    indent: nat,
)
    ensures
        !(o.status is Running) ==> cases_output(env, ctx, o, cases, count, indent) == o,
    decreases count,
{
    if !(o.status is Running) && 0 < count <= cases.len() {
        cases_change_nothing_after_a_stop(env, ctx, o, cases, (count - 1) as nat, indent);
        let case = cases[count - 1];
        block_changes_nothing_after_a_stop(
            env,
            ctx,
            o,
            case.body@,
            case.body@.len(),
            indent + 2,
        );
    }
}

/// Once the first `written` statements of a block have stopped writing, the others change nothing.
proof fn block_stays_stopped(
    env: Env<'_>,
    ctx: FunctionCtx<'_>,
    o: Output,
    block: Seq<Statement>,
    written: nat,
    count: nat,
    indent: nat,
)
    requires
        written <= count <= block.len(),
        !(block_output(env, ctx, o, block, written, indent).status is Running),
    ensures
        block_output(env, ctx, o, block, count, indent) == block_output(
            env,
            ctx,
            o,
            block,
            written,
            indent,
        ),
    decreases count,
{
    if written < count {
        block_stays_stopped(env, ctx, o, block, written, (count - 1) as nat, indent);
        let before = block_output(env, ctx, o, block, (count - 1) as nat, indent);
        assert(stmt_output(env, ctx, before, block[count - 1], indent) == before);
    }
}

/// Once the first `written` cases have stopped writing, the others change nothing.
proof fn cases_stay_stopped(
    env: Env<'_>,
    ctx: FunctionCtx<'_>,
    o: Output,
    cases: Seq<SwitchCase>,
    written: nat,
    count: nat,
    indent: nat,
)
    requires
        written <= count <= cases.len(),
        !(cases_output(env, ctx, o, cases, written, indent).status is Running),
    ensures
        cases_output(env, ctx, o, cases, count, indent) == cases_output(
            env,
            ctx,
            o,
            cases,
            written,
            indent,
        ),
    decreases count,
{
    if written < count {
        cases_stay_stopped(env, ctx, o, cases, written, (count - 1) as nat, indent);
        let before = cases_output(env, ctx, o, cases, (count - 1) as nat, indent);
        let body = cases[count - 1].body@;
        block_changes_nothing_after_a_stop(env, ctx, before, body, body.len(), indent + 2);
    }
}

impl<'a> Writer<'a> {
    /// Helper method used to write statements
    ///
    /// # Notes
    /// Always adds a newline
    pub fn write_stmt(&mut self, sta: &Statement, ctx: FunctionCtx<'a>, indent: usize) -> (result:
        BackendResult)
        ensures
            final(self).outcome(result) == stmt_output(
                old(self).env,
                ctx,
                old(self).state(),
                *sta,
                indent as nat,
            ),
            final(self).same_inputs(*old(self)),
        decreases *sta, 0nat,
    {
        let ghost env = self.env;
        let ghost deeper = (indent + 1) as nat;
        if indent > isize::MAX as usize {
            return Err(Stop::Invalid);
        }
        // The indentation is only for readability
        self.put_tabs(indent);
        match sta {
            // Blocks are simple we just need to write the block statements between braces
            Statement::Block(block) => {
                self.put("{\n");
                // Increase the indentation to help with readability
                self.write_block(block, ctx, indent + 1)?;
                self.put_tabs(indent);
                self.put("}\n");
            },
            // Ifs are written as in C
            Statement::If { condition, accept, reject } => {
                let mut parts = Parts::new();
                parts.text("if(");
                parts.expr(*condition);
                parts.text(") {\n");
                proof {
                    assert(parts@ =~= seq![
                        Piece::Text("if("@),
                        Piece::Expr(*condition),
                        Piece::Text(") {\n"@),
                    ]);
                    let o = render(env, Some(ctx), self.state(), parts@);
                    block_changes_nothing_after_a_stop(
                        env,
                        ctx,
                        o,
                        accept@,
                        accept@.len(),
                        deeper,
                    );
                    let o = block_output(env, ctx, o, accept@, accept@.len(), deeper);
                    let o = o.put(tabs(indent as nat)).put("} else {\n"@);
                    block_changes_nothing_after_a_stop(
                        env,
                        ctx,
                        o,
                        reject@,
                        reject@.len(),
                        deeper,
                    );
                }
                self.render(Some(ctx), &parts)?;
                self.write_block(accept, ctx, indent + 1)?;
                // If there are no statements in the reject block we skip writing it
                if reject.len() > 0 {
                    self.put_tabs(indent);
                    self.put("} else {\n");
                    self.write_block(reject, ctx, indent + 1)?;
                }
                self.put_tabs(indent);
                self.put("}\n");
            },
            // Switch are written as in C. Where the `default` case happens isn't important but we
            // put it last so that we don't need to print a `break` for it
            Statement::Switch { selector, cases, default } => {
                let mut parts = Parts::new();
                parts.text("switch(");
                parts.expr(*selector);
                parts.text(") {\n");
                proof {
                    assert(parts@ =~= seq![
                        Piece::Text("switch("@),
                        Piece::Expr(*selector),
                        Piece::Text(") {\n"@),
                    ]);
                    let o = render(env, Some(ctx), self.state(), parts@);
                    cases_change_nothing_after_a_stop(
                        env,
                        ctx,
                        o,
                        cases@,
                        cases@.len(),
                        indent as nat,
                    );
                    let o = cases_output(env, ctx, o, cases@, cases@.len(), indent as nat);
                    let o = o.put(tabs(deeper)).put("default:\n"@);
                    block_changes_nothing_after_a_stop(
                        env,
                        ctx,
                        o,
                        default@,
                        default@.len(),
                        deeper + 1,
                    );
                }
                self.render(Some(ctx), &parts)?;
                self.write_cases(cases, ctx, indent)?;
                // Only write the default block if the block isn't empty
                if default.len() > 0 {
                    self.put_tabs(indent + 1);
                    self.put("default:\n");
                    self.write_block(default, ctx, indent + 2)?;
                }
                self.put_tabs(indent);
                self.put("}\n");
            },
            // glsl can emulate the behaviour of loops by using a while true loop and appending the
            // continuing block to the body
            Statement::Loop { body, continuing } => {
                self.put("while(true) {\n");
                proof {
                    let o = block_output(env, ctx, self.state(), body@, body@.len(), deeper);
                    block_changes_nothing_after_a_stop(
                        env,
                        ctx,
                        o,
                        continuing@,
                        continuing@.len(),
                        deeper,
                    );
                }
                self.write_block(body, ctx, indent + 1)?;
                self.write_block(continuing, ctx, indent + 1)?;
                self.put_tabs(indent);
                self.put("}\n");
            },
            // Break, continue and return as written as in C
            Statement::Break => self.put("break;\n"),
            Statement::Continue => self.put("continue;\n"),
            Statement::Return { value } => {
                match value {
                    Some(expr) => {
                        let mut parts = Parts::new();
                        parts.text("return");
                        parts.text(" ");
                        parts.expr(*expr);
                        parts.text(";\n");
                        assert(parts@ =~= seq![
                            Piece::Text("return"@),
                            Piece::Text(" "@),
                            Piece::Expr(*expr),
                            Piece::Text(";\n"@),
                        ]);
                        self.render(Some(ctx), &parts)?;
                    },
                    None => self.put("return;\n"),
                }
            },
            // The discard keyword ceases all further processing in a fragment shader
            Statement::Kill => self.put("discard;\n"),
            // Stores in glsl are just variable assignments written as `pointer = value;`
            Statement::Store { pointer, value } => {
                let mut parts = Parts::new();
                parts.expr(*pointer);
                parts.text(" = ");
                parts.expr(*value);
                parts.text(";\n");
                assert(parts@ =~= seq![
                    Piece::Expr(*pointer),
                    Piece::Text(" = "@),
                    Piece::Expr(*value),
                    Piece::Text(";\n"@),
                ]);
                self.render(Some(ctx), &parts)?;
            },
        }
        Ok(())
    }

    /// Writes the statements of a block.
    pub fn write_block(
        &mut self,
        block: &Vec<Statement>,
        ctx: FunctionCtx<'a>,
        indent: usize,
    ) -> (result: BackendResult)
        ensures
            final(self).outcome(result) == block_output(
                old(self).env,
                ctx,
                old(self).state(),
                block@,
                block@.len(),
                indent as nat,
            ),
            final(self).same_inputs(*old(self)),
        decreases block@, block@.len(),
    {
        let ghost start = self.state();
        for i in 0..block.len()
            invariant
                start == old(self).state(),
                self.state() == block_output(
                    self.env,
                    ctx,
                    start,
                    block@,
                    i as nat,
                    indent as nat,
                ),
                self.same_inputs(*old(self)),
        {
            match self.write_stmt(&block[i], ctx, indent) {
                Ok(()) => (),
                Err(stop) => {
                    proof {
                        block_stays_stopped(
                            self.env,
                            ctx,
                            start,
                            block@,
                            (i + 1) as nat,
                            block@.len(),
                            indent as nat,
                        );
                    }
                    return Err(stop);
                },
            }
        }
        Ok(())
    }

    /// Writes the cases of a switch.
    fn write_cases(&mut self, cases: &Vec<SwitchCase>, ctx: FunctionCtx<'a>, indent: usize) -> (
    result: BackendResult)
        requires
            indent <= max_indent(),
        ensures
            final(self).outcome(result) == cases_output(
                old(self).env,
                ctx,
                old(self).state(),
                cases@,
                cases@.len(),
                indent as nat,
            ),
            final(self).same_inputs(*old(self)),
        decreases cases@, cases@.len(),
    {
        let ghost start = self.state();
        for i in 0..cases.len()
            invariant
                indent <= max_indent(),
                start == old(self).state(),
                self.state() == cases_output(
                    self.env,
                    ctx,
                    start,
                    cases@,
                    i as nat,
                    indent as nat,
                ),
                self.same_inputs(*old(self)),
        {
            let case = &cases[i];
            self.put_tabs(indent + 1);
            self.put("case ");
            self.put_signed(case.value as i64);
            self.put(":\n");
            match self.write_block(&case.body, ctx, indent + 2) {
                Ok(()) => (),
                Err(stop) => {
                    proof {
                        cases_stay_stopped(
                            self.env,
                            ctx,
                            start,
                            cases@,
                            (i + 1) as nat,
                            cases@.len(),
                            indent as nat,
                        );
                    }
                    return Err(stop);
                },
            }
            // Write `break;` if the block isn't fallthrough
            if !case.fall_through {
                self.put_tabs(indent + 2);
                self.put("break;\n");
            }
        }
        Ok(())
    }
}

} // verus!
