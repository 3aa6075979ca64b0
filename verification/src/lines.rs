//! How the text of statements, functions, declarations and whole modules follows from the texts of
//! their parts.
use crate::arena::{handle_at, Handle};
use crate::context::{Env, FunctionCtx, FunctionType};
use crate::declarations::{
    access_pieces, all_global_pieces, all_struct_pieces, any_global_pieces, declaration_pieces,
    extension_pieces, global_declaration_pieces, image_global_pieces, interpolation_pieces,
    prologue_pieces, storage_layout_pieces, struct_pieces,
};
use crate::error::ErrorView;
use crate::forms::{
    constant_after, expr_after, letter_after, members_after, members_follow_one_another, name_after,
    pieces_after, pieces_after_concatenation, pieces_follow_one_another, type_after,
};
use crate::functions::{argument_items, function_head_pieces, function_output, local_pieces};
use crate::graph::graph_nodes;
use crate::ir::{
    Binding, ConservativeDepth, EntryPoint, Expression, Function, GlobalUse, GlobalVariable,
    ImageClass, ImageDimension, Interpolation, LocalVariable, ScalarKind, ShaderStage, Statement,
    StorageClass, StorageFormat, StructMember, SwitchCase, Type, TypeInner,
};
use crate::names::NameKey;
use crate::output::{name_piece, separated, Output, Piece, Status};
use crate::render::{full_depth, render};
use crate::statements::{block_output, cases_output, stmt_output};
use crate::terms::storage_format_name;
use crate::text::{decimal, signed_decimal, tabs};
use crate::types::{image_type_pieces, member_pieces};
use crate::typing::{ResolveError, Typifier};
use crate::version::Version;
use crate::writer::{functions_output, Writer};
use vstd::prelude::*;

verus! {

/// `o`, then an expression of a statement.
pub open spec fn root_after(
    env: Env<'_>,
    ctx: FunctionCtx<'_>,
    o: Output,
    expr: Handle<Expression>,
) -> Output {
    expr_after(env, ctx, o, expr, full_depth(env, Some(ctx)))
}

/// `o`, then the first `count` statements of a block, one after the other.
pub open spec fn stmts_after(
    env: Env<'_>,
    ctx: FunctionCtx<'_>,
    o: Output,
    block: Seq<Statement>,
    count: nat,
    indent: nat,
) -> Output
    decreases count,
{
    if count == 0 {
        o
    } else {
        let before = stmts_after(env, ctx, o, block, (count - 1) as nat, indent);
        stmt_output(env, ctx, before, block[count - 1], indent)
    }
}

/// `o`, then all the statements of a block.
pub open spec fn block_after(
    env: Env<'_>,
    ctx: FunctionCtx<'_>,
    o: Output,
    block: Seq<Statement>,
    indent: nat,
) -> Output {
    stmts_after(env, ctx, o, block, block.len(), indent)
}

/// `o`, then the first `count` cases of a switch: each has its label, then all its statements, then
/// a `break` unless it falls through.
pub open spec fn cases_after(
    env: Env<'_>,
    ctx: FunctionCtx<'_>,
    o: Output,
    cases: Seq<SwitchCase>,
    count: nat,
    indent: nat,
) -> Output
    decreases count,
{
    if count == 0 {
        o
    } else {
        let before = cases_after(env, ctx, o, cases, (count - 1) as nat, indent);
        let case = cases[count - 1];
        let labelled = before.put(tabs(indent + 1)).put("case "@).put(
            signed_decimal(case.value as int),
        ).put(":\n"@);
        let body = block_after(env, ctx, labelled, case.body@, indent + 2);
        if case.fall_through {
            body
        } else {
            body.put(tabs(indent + 2)).put("break;\n"@)
        }
    }
}

/// Every statement of a block is written exactly once, and in the order of the block.
pub proof fn statements_follow_one_another(
    env: Env<'_>,
    ctx: FunctionCtx<'_>,
    o: Output,
    block: Seq<Statement>,
    count: nat,
    indent: nat,
)
    requires
        count <= block.len(),
    ensures
        block_output(env, ctx, o, block, count, indent) == stmts_after(
            env,
            ctx,
            o,
            block,
            count,
            indent,
        ),
    decreases count,
{
    if count > 0 {
        statements_follow_one_another(env, ctx, o, block, (count - 1) as nat, indent);
    }
}

/// Every case of a switch is written exactly once, and in the order of the switch.
pub proof fn cases_follow_one_another(
    env: Env<'_>,
    ctx: FunctionCtx<'_>,
    o: Output,
    cases: Seq<SwitchCase>,
    count: nat,
    indent: nat,
)
    requires
        count <= cases.len(),
    ensures
        cases_output(env, ctx, o, cases, count, indent) == cases_after(
            env,
            ctx,
            o,
            cases,
            count,
            indent,
        ),
    decreases count,
{
    if count > 0 {
        cases_follow_one_another(env, ctx, o, cases, (count - 1) as nat, indent);
        let before = cases_output(env, ctx, o, cases, (count - 1) as nat, indent);
        let case = cases[count - 1];
        let labelled = before.put(tabs(indent + 1)).put("case "@).put(
            signed_decimal(case.value as int),
        ).put(":\n"@);
        statements_follow_one_another(
            env,
            ctx,
            labelled,
            case.body@,
            case.body@.len(),
            indent + 2,
        );
    }
}

/// An expression between two texts is written between them.
#[verifier::rlimit(50)]
proof fn root_is_written(
    env: Env<'_>,
    ctx: FunctionCtx<'_>,
    o: Output,
    pieces: Seq<Piece>,
    expr: Handle<Expression>,
)
    requires
        pieces.len() == 3,
        pieces[0] is Text,
        pieces[1] == Piece::Expr(expr),
        pieces[2] is Text,
    ensures
        render(env, Some(ctx), o, pieces) == root_after(env, ctx, o.put(pieces[0]->Text_0), expr).put(
            pieces[2]->Text_0,
        ),
{
    pieces_follow_one_another(env, Some(ctx), o, pieces, 3, full_depth(env, Some(ctx)));
    reveal_with_fuel(pieces_after, 4);
}

/// A block is written as its statements in order, indented further, between braces.
pub proof fn blocks_are_written_in_braces(
    env: Env<'_>,
    ctx: FunctionCtx<'_>,
    o: Output,
    block: Vec<Statement>,
    indent: nat,
)
    requires
        o.status is Running,
        indent <= isize::MAX,
    ensures
        stmt_output(env, ctx, o, Statement::Block(block), indent) == block_after(
            env,
            ctx,
            o.put(tabs(indent)).put("{\n"@),
            block@,
            indent + 1,
        ).put(tabs(indent)).put("}\n"@),
{
    let o1 = o.put(tabs(indent)).put("{\n"@);
    statements_follow_one_another(env, ctx, o1, block@, block@.len(), indent + 1);
}

/// An `if` is written with all its statements: the condition in parentheses, then the accepted
/// statements in order between braces, then, exactly if there are any, `else` and the rejected
/// statements in order between braces. Whether there is an `else` depends on the rejected
/// statements alone.
pub proof fn ifs_are_written_with_both_branches(
    env: Env<'_>,
    ctx: FunctionCtx<'_>,
    o: Output,
    condition: Handle<Expression>,
    accept: Vec<Statement>,
    reject: Vec<Statement>,
    indent: nat,
)
    requires
        o.status is Running,
        indent <= isize::MAX,
    ensures
        ({
            let sta = Statement::If { condition, accept, reject };
            let o1 = root_after(env, ctx, o.put(tabs(indent)).put("if("@), condition).put(
                ") {\n"@,
            );
            let o2 = block_after(env, ctx, o1, accept@, indent + 1).put(tabs(indent));
            let o3 = block_after(env, ctx, o2.put("} else {\n"@), reject@, indent + 1).put(
                tabs(indent),
            );
            stmt_output(env, ctx, o, sta, indent) == (if reject@.len() == 0 {
                o2.put("}\n"@)
            } else {
                o3.put("}\n"@)
            })
        }),
{
    let pieces = seq![
        Piece::Text("if("@),
        Piece::Expr(condition),
        Piece::Text(") {\n"@),
    ];
    let o0 = o.put(tabs(indent));
    root_is_written(env, ctx, o0, pieces, condition);
    let o1 = render(env, Some(ctx), o0, pieces);
    statements_follow_one_another(env, ctx, o1, accept@, accept@.len(), indent + 1);
    let o2 = block_output(env, ctx, o1, accept@, accept@.len(), indent + 1);
    let o3 = o2.put(tabs(indent)).put("} else {\n"@);
    statements_follow_one_another(env, ctx, o3, reject@, reject@.len(), indent + 1);
}

/// A `switch` is written with its selector in parentheses, then all its cases in order, then,
/// exactly if there are any, the default statements in order.
pub proof fn switches_are_written_with_all_cases(
    env: Env<'_>,
    ctx: FunctionCtx<'_>,
    o: Output,
    selector: Handle<Expression>,
    cases: Vec<SwitchCase>,
    default: Vec<Statement>,
    indent: nat,
)
    requires
        o.status is Running,
        indent <= isize::MAX,
    ensures
        ({
            let sta = Statement::Switch { selector, cases, default };
            let o1 = root_after(env, ctx, o.put(tabs(indent)).put("switch("@), selector).put(
                ") {\n"@,
            );
            let o2 = cases_after(env, ctx, o1, cases@, cases@.len(), indent);
            let o3 = o2.put(tabs(indent + 1)).put("default:\n"@);
            let o4 = block_after(env, ctx, o3, default@, indent + 2);
            stmt_output(env, ctx, o, sta, indent) == (if default@.len() == 0 {
                o2.put(tabs(indent)).put("}\n"@)
            } else {
                o4.put(tabs(indent)).put("}\n"@)
            })
        }),
{
    let pieces = seq![
        Piece::Text("switch("@),
        Piece::Expr(selector),
        Piece::Text(") {\n"@),
    ];
    let o0 = o.put(tabs(indent));
    root_is_written(env, ctx, o0, pieces, selector);
    let o1 = render(env, Some(ctx), o0, pieces);
    cases_follow_one_another(env, ctx, o1, cases@, cases@.len(), indent);
    let o2 = cases_output(env, ctx, o1, cases@, cases@.len(), indent);
    let o3 = o2.put(tabs(indent + 1)).put("default:\n"@);
    statements_follow_one_another(env, ctx, o3, default@, default@.len(), indent + 2);
}

/// A loop is written as an endless loop over the statements of its body, then those of its
/// continuing block, all in order.
pub proof fn loops_are_written_with_body_and_continuing(
    env: Env<'_>,
    ctx: FunctionCtx<'_>,
    o: Output,
    body: Vec<Statement>,
    continuing: Vec<Statement>,
    indent: nat,
)
    requires
        o.status is Running,
        indent <= isize::MAX,
    ensures
        ({
            let sta = Statement::Loop { body, continuing };
            let o1 = o.put(tabs(indent)).put("while(true) {\n"@);
            let o2 = block_after(env, ctx, o1, body@, indent + 1);
            let o3 = block_after(env, ctx, o2, continuing@, indent + 1);
            stmt_output(env, ctx, o, sta, indent) == o3.put(tabs(indent)).put("}\n"@)
        }),
{
    let o1 = o.put(tabs(indent)).put("while(true) {\n"@);
    statements_follow_one_another(env, ctx, o1, body@, body@.len(), indent + 1);
    let o2 = block_output(env, ctx, o1, body@, body@.len(), indent + 1);
    statements_follow_one_another(env, ctx, o2, continuing@, continuing@.len(), indent + 1);
}

/// Jumps are written as a keyword and a semicolon, a returned value stands behind the keyword, and
/// a store is written as an assignment of the value to the pointer.
#[verifier::rlimit(50)]
pub proof fn simple_statements_are_lines(
    env: Env<'_>,
    ctx: FunctionCtx<'_>,
    o: Output,
    pointer: Handle<Expression>,
    value: Handle<Expression>,
    indent: nat,
)
    requires
        o.status is Running,
        indent <= isize::MAX,
    ensures
        ({
            let start = o.put(tabs(indent));
            &&& stmt_output(env, ctx, o, Statement::Break, indent) == start.put("break;\n"@)
            &&& stmt_output(env, ctx, o, Statement::Continue, indent) == start.put("continue;\n"@)
            &&& stmt_output(env, ctx, o, Statement::Kill, indent) == start.put("discard;\n"@)
            &&& stmt_output(env, ctx, o, Statement::Return { value: None }, indent) == start.put(
                "return;\n"@,
            )
            &&& stmt_output(env, ctx, o, Statement::Return { value: Some(value) }, indent)
                == root_after(env, ctx, start.put("return"@).put(" "@), value).put(";\n"@)
            &&& stmt_output(env, ctx, o, Statement::Store { pointer, value }, indent) == root_after(
                env,
                ctx,
                root_after(env, ctx, start, pointer).put(" = "@),
                value,
            ).put(";\n"@)
        }),
{
    let start = o.put(tabs(indent));
    let depth = full_depth(env, Some(ctx));
    let returned = seq![
        Piece::Text("return"@),
        Piece::Text(" "@),
        Piece::Expr(value),
        Piece::Text(";\n"@),
    ];
    let stored = seq![
        Piece::Expr(pointer),
        Piece::Text(" = "@),
        Piece::Expr(value),
        Piece::Text(";\n"@),
    ];
    pieces_follow_one_another(env, Some(ctx), start, returned, 4, depth);
    pieces_follow_one_another(env, Some(ctx), start, stored, 4, depth);
    reveal_with_fuel(pieces_after, 5);
}

/// `o`, then the first `count` arguments of a function with commas between them: each is its type,
/// then its name. Entry points have no arguments.
pub open spec fn arguments_after(
    env: Env<'_>,
    ctx: FunctionCtx<'_>,
    o: Output,
    func: Function,
    count: nat,
) -> Output
    decreases count,
{
    if count == 0 {
        o
    } else {
        let before = arguments_after(env, ctx, o, func, (count - 1) as nat);
        let begun = if count == 1 {
            before
        } else {
            before.put(", "@)
        };
        let typed = type_after(
            env,
            Some(ctx),
            begun,
            func.arguments@[count - 1].ty,
            full_depth(env, Some(ctx)),
        ).put(" "@);
        match ctx.func {
            FunctionType::Function(function) => name_after(
                typed,
                env.analysis.names.lookup(NameKey::FunctionArgument(function, (count - 1) as u32)),
            ),
            FunctionType::EntryPoint(_) => typed.invalid(),
        }
    }
}

/// `o`, then the first `count` local variables, each on a line of its own: its type, its name, and,
/// exactly if it has one, an equals sign and its initial value. Functions and entry points differ
/// in nothing but where the names come from.
pub open spec fn locals_after(
    env: Env<'_>,
    ctx: FunctionCtx<'_>,
    o: Output,
    locals: Seq<LocalVariable>,
    count: nat,
) -> Output
    decreases count,
{
    if count == 0 {
        o
    } else {
        let before = locals_after(env, ctx, o, locals, (count - 1) as nat);
        let local = locals[count - 1];
        let depth = full_depth(env, Some(ctx));
        let typed = type_after(env, Some(ctx), before.put("\t"@), local.ty, depth).put(" "@);
        let named = name_after(
            typed,
            env.analysis.names.lookup(
                match ctx.func {
                    FunctionType::Function(function) => NameKey::FunctionLocal(
                        function,
                        handle_at(count - 1),
                    ),
                    FunctionType::EntryPoint(index) => NameKey::EntryPointLocal(
                        index,
                        handle_at(count - 1),
                    ),
                },
            ),
        );
        match local.init {
            Some(init) => constant_after(env, Some(ctx), named.put(" = "@), init, depth).put(
                ";\n"@,
            ),
            None => named.put(";\n"@),
        }
    }
}

/// The arguments of a function are written one after the other.
#[verifier::rlimit(50)]
proof fn arguments_follow_one_another(
    env: Env<'_>,
    ctx: FunctionCtx<'_>,
    o: Output,
    func: Function,
    count: nat,
)
    requires
        count <= func.arguments@.len(),
    ensures
        ({
            let pieces = separated(argument_items(env, ctx.func, func).take(count as int));
            pieces_after(env, Some(ctx), o, pieces, pieces.len(), full_depth(env, Some(ctx)))
                == arguments_after(env, ctx, o, func, count)
        }),
    decreases count,
{
    let depth = full_depth(env, Some(ctx));
    let items = argument_items(env, ctx.func, func).take(count as int);
    if count > 0 {
        let item = items.last();
        let begun = if count == 1 {
            o
        } else {
            arguments_after(env, ctx, o, func, (count - 1) as nat).put(", "@)
        };
        assert(pieces_after(env, Some(ctx), begun, item, 3, depth) == arguments_after(
            env,
            ctx,
            o,
            func,
            count,
        )) by {
            reveal_with_fuel(pieces_after, 4);
            reveal_with_fuel(arguments_after, 2);
        }
        if count > 1 {
            let earlier = argument_items(env, ctx.func, func).take(count - 1);
            assert(items.drop_last() =~= earlier);
            arguments_follow_one_another(env, ctx, o, func, (count - 1) as nat);
            let before = separated(earlier);
            let comma = seq![Piece::Text(", "@)];
            assert(separated(items) =~= before + comma + item);
            pieces_after_concatenation(env, Some(ctx), o, before, comma, 1, depth);
            assert(pieces_after(env, Some(ctx), o, before + comma, before.len() + 1, depth)
                == begun) by {
                reveal_with_fuel(pieces_after, 2);
            }
            pieces_after_concatenation(env, Some(ctx), o, before + comma, item, 3, depth);
        } else {
            assert(separated(items) =~= item);
        }
    }
}

/// The local variables of a function are written one after the other.
#[verifier::rlimit(50)]
proof fn locals_follow_one_another(
    env: Env<'_>,
    ctx: FunctionCtx<'_>,
    o: Output,
    locals: Seq<LocalVariable>,
    count: nat,
)
    ensures
        ({
            let pieces = local_pieces(env, ctx.func, locals, count);
            pieces_after(env, Some(ctx), o, pieces, pieces.len(), full_depth(env, Some(ctx)))
                == locals_after(env, ctx, o, locals, count)
        }),
    decreases count,
{
    if count > 0 {
        let depth = full_depth(env, Some(ctx));
        let k = (count - 1) as nat;
        let pieces = local_pieces(env, ctx.func, locals, count);
        let before = local_pieces(env, ctx.func, locals, k);
        let rest = pieces.skip(before.len() as int);
        assert(pieces =~= before + rest);
        locals_follow_one_another(env, ctx, o, locals, k);
        pieces_after_concatenation(env, Some(ctx), o, before, rest, rest.len(), depth);
        reveal_with_fuel(pieces_after, 8);
    }
}

/// A function is written with all its parts: its return type, or `void` if it has none, its name,
/// its arguments in parentheses, and in braces its local variables, an empty line and all its
/// statements.
#[verifier::rlimit(50)]
pub proof fn functions_have_all_their_parts(
    env: Env<'_>,
    o: Output,
    ty: FunctionType,
    func: Function,
    name: Seq<char>,
    typifier: Typifier,
)
    requires
        o.status is Running,
        match ty {
            FunctionType::Function(function) => function.index
                < env.analysis.typing.functions@.len()
                && env.analysis.typing.functions@[function.index as int]
                == Ok::<Typifier, ResolveError>(typifier),
            FunctionType::EntryPoint(index) => index < env.analysis.typing.entry_points@.len()
                && env.analysis.typing.entry_points@[index as int] == Ok::<Typifier, ResolveError>(
                typifier,
            ),
        },
    ensures
        ({
            let ctx = FunctionCtx {
                func: ty,
                expressions: &func.expressions,
                typifier: &typifier,
            };
            let o1 = match func.return_type {
                Some(ty) => type_after(env, Some(ctx), o, ty, full_depth(env, Some(ctx))),
                None => o.put("void"@),
            };
            let o2 = o1.put(" "@).put(name).put("("@);
            let o3 = arguments_after(env, ctx, o2, func, func.arguments@.len()).put(") {\n"@);
            let locals = func.local_variables@;
            let o4 = locals_after(env, ctx, o3, locals, locals.len()).put("\n"@);
            function_output(env, o, ty, func, name) == block_after(
                env,
                ctx,
                o4,
                func.body@,
                1,
            ).put("}\n"@)
        }),
{
    let ctx = FunctionCtx { func: ty, expressions: &func.expressions, typifier: &typifier };
    let depth = full_depth(env, Some(ctx));
    let pieces = function_head_pieces(env, ty, func, name);
    let items = argument_items(env, ty, func);
    let locals = func.local_variables@;
    let p1 = pieces.take(4);
    let p2 = separated(items);
    let p3 = seq![Piece::Text(") {\n"@)];
    let p4 = local_pieces(env, ty, locals, locals.len());
    let p5 = seq![Piece::Text("\n"@)];
    assert(pieces =~= p1 + p2 + p3 + p4 + p5);
    assert(items.take(func.arguments@.len() as int) =~= items);
    pieces_follow_one_another(env, Some(ctx), o, pieces, pieces.len(), depth);
    let o2 = pieces_after(env, Some(ctx), o, p1, 4, depth);
    assert(o2 == ({
        let o1 = match func.return_type {
            Some(ty) => type_after(env, Some(ctx), o, ty, depth),
            None => o.put("void"@),
        };
        o1.put(" "@).put(name).put("("@)
    })) by {
        reveal_with_fuel(pieces_after, 5);
    }
    pieces_after_concatenation(env, Some(ctx), o, p1, p2, p2.len(), depth);
    arguments_follow_one_another(env, ctx, o2, func, func.arguments@.len());
    let q2 = p1 + p2;
    one_piece_follows(env, Some(ctx), o, q2, Piece::Text(") {\n"@));
    let q3 = q2 + p3;
    let o3 = pieces_after(env, Some(ctx), o, q3, q3.len(), depth);
    pieces_after_concatenation(env, Some(ctx), o, q3, p4, p4.len(), depth);
    locals_follow_one_another(env, ctx, o3, locals, locals.len());
    let q4 = q3 + p4;
    one_piece_follows(env, Some(ctx), o, q4, Piece::Text("\n"@));
    let o4 = render(env, Some(ctx), o, pieces);
    statements_follow_one_another(env, ctx, o4, func.body@, func.body@.len(), 1);
}

/// One more text is written after the other pieces.
proof fn one_piece_follows(
    env: Env<'_>,
    ctx: Option<FunctionCtx<'_>>,
    o: Output,
    pieces: Seq<Piece>,
    piece: Piece,
)
    requires
        piece is Text,
    ensures
        ({
            let depth = full_depth(env, ctx);
            pieces_after(env, ctx, o, pieces + seq![piece], pieces.len() + 1, depth)
                == pieces_after(env, ctx, o, pieces, pieces.len(), depth).put(piece->Text_0)
        }),
{
    pieces_after_concatenation(env, ctx, o, pieces, seq![piece], 1, full_depth(env, ctx));
    reveal_with_fuel(pieces_after, 2);
}

/// A function whose types couldn't be resolved is rejected, with the reason, before anything of it
/// is written.
pub proof fn unresolved_functions_are_rejected(
    env: Env<'_>,
    o: Output,
    ty: FunctionType,
    func: Function,
    name: Seq<char>,
    error: ResolveError,
)
    requires
        match ty {
            FunctionType::Function(function) => function.index
                < env.analysis.typing.functions@.len()
                && env.analysis.typing.functions@[function.index as int]
                == Err::<Typifier, ResolveError>(error),
            FunctionType::EntryPoint(index) => index < env.analysis.typing.entry_points@.len()
                && env.analysis.typing.entry_points@[index as int] == Err::<
                Typifier,
                ResolveError,
            >(error),
        },
    ensures
        function_output(env, o, ty, func, name) == o.fail(ErrorView::Type(error.reason@)),
{
}

/// A function whose types are missing makes the module invalid.
pub proof fn functions_without_types_are_invalid(
    env: Env<'_>,
    o: Output,
    ty: FunctionType,
    func: Function,
    name: Seq<char>,
)
    requires
        match ty {
            FunctionType::Function(function) => function.index
                >= env.analysis.typing.functions@.len(),
            FunctionType::EntryPoint(index) => index >= env.analysis.typing.entry_points@.len(),
        },
    ensures
        function_output(env, o, ty, func, name) == o.invalid(),
{
}

/// `o`, then a struct: its name, then all its members in order and in braces.
pub open spec fn struct_after(
    env: Env<'_>,
    o: Output,
    ty: Handle<Type>,
    members: Seq<StructMember>,
) -> Output {
    let named = name_after(o.put("struct "@), env.analysis.names.lookup(NameKey::Type(ty)));
    members_after(
        env,
        None,
        named.put(" {\n"@),
        ty,
        members,
        members.len(),
        full_depth(env, None),
    ).put("};\n"@)
}

/// `o`, then all the structs among the first `count` types, in their order.
pub open spec fn structs_after(env: Env<'_>, o: Output, count: nat) -> Output
    decreases count,
{
    if count == 0 {
        o
    } else {
        let before = structs_after(env, o, (count - 1) as nat);
        match env.module.types@[count - 1].inner {
            TypeInner::Struct { members, .. } => struct_after(
                env,
                before,
                handle_at(count - 1),
                members@,
            ),
            _ => before,
        }
    }
}

/// A struct is written with all its members.
#[verifier::rlimit(50)]
proof fn struct_is_written(env: Env<'_>, o: Output, ty: Handle<Type>, members: Seq<StructMember>)
    ensures
        ({
            let pieces = struct_pieces(env, ty, members);
            pieces_after(env, None, o, pieces, pieces.len(), full_depth(env, None))
                == struct_after(env, o, ty, members)
        }),
{
    let depth = full_depth(env, None);
    let pieces = struct_pieces(env, ty, members);
    let first = pieces.take(3);
    let middle = member_pieces(env, ty, members, members.len());
    let last = seq![Piece::Text("};\n"@)];
    assert(pieces =~= first + middle + last);
    let o1 = pieces_after(env, None, o, first, 3, depth);
    assert(o1 == name_after(
        o.put("struct "@),
        env.analysis.names.lookup(NameKey::Type(ty)),
    ).put(" {\n"@)) by {
        reveal_with_fuel(pieces_after, 4);
    }
    pieces_after_concatenation(env, None, o, first, middle, middle.len(), depth);
    members_follow_one_another(env, None, o1, ty, members, members.len(), depth);
    one_piece_follows(env, None, o, first + middle, Piece::Text("};\n"@));
}

/// The structs of a module are written one after the other.
proof fn structs_follow_one_another(env: Env<'_>, o: Output, count: nat)
    ensures
        ({
            let pieces = all_struct_pieces(env, count);
            pieces_after(env, None, o, pieces, pieces.len(), full_depth(env, None))
                == structs_after(env, o, count)
        }),
    decreases count,
{
    if count > 0 {
        let depth = full_depth(env, None);
        let before = all_struct_pieces(env, (count - 1) as nat);
        structs_follow_one_another(env, o, (count - 1) as nat);
        if let TypeInner::Struct { members, .. } = env.module.types@[count - 1].inner {
            let rest = struct_pieces(env, handle_at(count - 1), members@);
            let o1 = pieces_after(env, None, o, before, before.len(), depth);
            pieces_after_concatenation(env, None, o, before, rest, rest.len(), depth);
            struct_is_written(env, o1, handle_at(count - 1), members@);
        }
    }
}

/// `o`, then the modifier of a resource that can only be read or only be written.
pub open spec fn access_after(o: Output, global: GlobalVariable) -> Output {
    match (global.storage_access.load, global.storage_access.store) {
        (true, false) => o.put("readonly "@),
        (false, true) => o.put("writeonly "@),
        (true, true) => o,
        (false, false) => o,
    }
}

/// `o`, then the qualifier of the interpolation of a global, with a space behind: that of an input
/// of a fragment shader or of an output of a vertex shader. Other globals have none.
pub open spec fn interpolation_after(
    o: Output,
    stage: ShaderStage,
    global: GlobalVariable,
) -> Output {
    let interpolated = match stage {
        ShaderStage::Fragment => global.class is Input,
        ShaderStage::Vertex => global.class is Output,
        ShaderStage::Compute => false,
    };
    match global.interpolation {
        None => o,
        Some(interpolation) => if !interpolated {
            o
        } else {
            match interpolation {
                Interpolation::Perspective => o.put("smooth"@).put(" "@),
                Interpolation::Linear => o.put("noperspective"@).put(" "@),
                Interpolation::Flat => o.put("flat"@).put(" "@),
                Interpolation::Centroid => o.put("centroid"@).put(" "@),
                Interpolation::Sample => o.put("sample"@).put(" "@),
                Interpolation::Patch => o.fail(ErrorView::PatchInterpolationNotSupported),
            }
        },
    }
}

/// `o`, then the qualifier of a storage class.
pub open spec fn class_after(o: Output, class: StorageClass) -> Output {
    match class {
        StorageClass::Input => o.put("in"@),
        StorageClass::Output => o.put("out"@),
        StorageClass::Storage => o.put("buffer"@),
        StorageClass::Uniform => o.put("uniform"@),
        StorageClass::Handle => o.put("uniform"@),
        StorageClass::WorkGroup => o.put("shared"@),
        StorageClass::Function => o.put(""@),
        StorageClass::Private => o.put(""@),
        StorageClass::PushConstant => o.put(""@),
    }
}

/// `o`, then an image type: the letter of its scalar, whether it is sampled or stored, its
/// dimensions, then the modifiers that apply.
pub open spec fn image_after(
    o: Output,
    dim: ImageDimension,
    arrayed: bool,
    class: ImageClass,
) -> Output {
    let based = match class {
        ImageClass::Sampled { kind, .. } => letter_after(o, kind, 4).put("sampler"@),
        ImageClass::Depth => letter_after(o, ScalarKind::Float, 4).put("sampler"@),
        ImageClass::Storage(format) => letter_after(o, texel_kind(format), 4).put("image"@),
    };
    let sized = match dim {
        ImageDimension::D1 => based.put("1D"@),
        ImageDimension::D2 => based.put("2D"@),
        ImageDimension::D3 => based.put("3D"@),
        ImageDimension::Cube => based.put("Cube"@),
    };
    let sampled = sized.put(
        if class matches ImageClass::Sampled { multi, .. } && multi {
            "MS"@
        } else {
            ""@
        },
    );
    let layered = sampled.put(
        if arrayed {
            "Array"@
        } else {
            ""@
        },
    );
    layered.put(
        if class is Depth {
            "Shadow"@
        } else {
            ""@
        },
    )
}

/// The kind of scalar that a texel reads as: that of the last letters of the format's name, `ui`
/// for unsigned and `i` for signed integers, and floats otherwise.
pub open spec fn texel_kind(format: StorageFormat) -> ScalarKind {
    let name = storage_format_name(format);
    if name.last() == 'i' {
        if name[name.len() - 2] == 'u' {
            ScalarKind::Uint
        } else {
            ScalarKind::Sint
        }
    } else {
        ScalarKind::Float
    }
}

/// `o`, then a global variable, on a line of its own. Builtins and samplers leave no trace.
pub open spec fn global_after(env: Env<'_>, o: Output, handle: Handle<GlobalVariable>) -> Output {
    let global = env.module.global_variables@[handle.index as int];
    let name = env.analysis.names.lookup(NameKey::GlobalVariable(handle));
    if global.binding matches Some(Binding::BuiltIn(_)) {
        o
    } else if global.ty.index >= env.module.types@.len() {
        o.invalid()
    } else {
        match env.module.types@[global.ty.index as int].inner {
            TypeInner::Sampler { .. } => o,
            TypeInner::Image { dim, arrayed, class } => {
                let o2 = access_after(layout_after(o, class), global).put("uniform "@);
                name_after(image_after(o2, dim, arrayed, class).put(" "@), name).put(";\n"@)
            },
            _ => {
                let o1 = interpolation_after(
                    access_after(o, global),
                    env.options.entry_point.0,
                    global,
                );
                let o2 = class_after(o1, global.class).put(" "@);
                let o3 = type_after(env, None, o2, global.ty, full_depth(env, None));
                name_after(o3.put(" "@), name).put(";\n"@)
            },
        }
    }
}

/// `o`, then those of the first `count` globals that are used, in their order.
pub open spec fn globals_after(env: Env<'_>, o: Output, usage: Seq<GlobalUse>, count: nat) -> Output
    decreases count,
{
    if count == 0 {
        o
    } else {
        let before = globals_after(env, o, usage, (count - 1) as nat);
        if usage[count - 1].load || usage[count - 1].store {
            global_after(env, before, handle_at(count - 1))
        } else {
            before
        }
    }
}

/// The kind of the texels of a storage format is what the last letters of its name tell.
pub proof fn format_names_tell_the_kind(format: StorageFormat)
    ensures
        texel_kind(format) == format.scalar_kind(),
{
    reveal_strlit("r11f_g11f_b10f");
    reveal_strlit("r16f");
    reveal_strlit("r16i");
    reveal_strlit("r16ui");
    reveal_strlit("r32f");
    reveal_strlit("r32i");
    reveal_strlit("r32ui");
    reveal_strlit("r8");
    reveal_strlit("r8_snorm");
    reveal_strlit("r8i");
    reveal_strlit("r8ui");
    reveal_strlit("rg16f");
    reveal_strlit("rg16i");
    reveal_strlit("rg16ui");
    reveal_strlit("rg32f");
    reveal_strlit("rg32i");
    reveal_strlit("rg32ui");
    reveal_strlit("rg8");
    reveal_strlit("rg8_snorm");
    reveal_strlit("rg8i");
    reveal_strlit("rg8ui");
    reveal_strlit("rgb10_a2");
    reveal_strlit("rgba16f");
    reveal_strlit("rgba16i");
    reveal_strlit("rgba16ui");
    reveal_strlit("rgba32f");
    reveal_strlit("rgba32i");
    reveal_strlit("rgba32ui");
    reveal_strlit("rgba8");
    reveal_strlit("rgba8_snorm");
    reveal_strlit("rgba8i");
    reveal_strlit("rgba8ui");
}

/// Texts are written one after the other.
#[verifier::rlimit(50)]
proof fn image_is_written(
    env: Env<'_>,
    o: Output,
    dim: ImageDimension,
    arrayed: bool,
    class: ImageClass,
)
    ensures
        ({
            let pieces = image_type_pieces(dim, arrayed, class);
            pieces_after(env, None, o, pieces, 6, full_depth(env, None)) == image_after(
                o,
                dim,
                arrayed,
                class,
            )
        }),
{
    if let ImageClass::Storage(format) = class {
        format_names_tell_the_kind(format);
    }
    reveal_with_fuel(pieces_after, 7);
}

/// The modifier for resources that are only read or only written is written.
proof fn access_is_written(env: Env<'_>, o: Output, global: GlobalVariable)
    ensures
        ({
            let pieces = access_pieces(global.storage_access);
            pieces_after(env, None, o, pieces, pieces.len(), full_depth(env, None))
                == access_after(o, global)
        }),
{
    reveal_with_fuel(pieces_after, 2);
}

/// The qualifier of the interpolation is written.
proof fn interpolation_is_written(
    env: Env<'_>,
    o: Output,
    stage: ShaderStage,
    global: GlobalVariable,
)
    ensures
        ({
            let pieces = interpolation_pieces(stage, global);
            pieces_after(env, None, o, pieces, pieces.len(), full_depth(env, None))
                == interpolation_after(o, stage, global)
        }),
{
    reveal_with_fuel(pieces_after, 3);
}

/// A global variable that is neither image nor sampler is declared with its modifiers, its storage
/// class, its type and its name.
#[verifier::rlimit(50)]
proof fn plain_global_is_written(
    env: Env<'_>,
    o: Output,
    handle: Handle<GlobalVariable>,
    global: GlobalVariable,
)
    ensures
        ({
            let pieces = global_declaration_pieces(env, handle, global);
            let o1 = interpolation_after(
                access_after(o, global),
                env.options.entry_point.0,
                global,
            );
            let o2 = class_after(o1, global.class).put(" "@);
            let o3 = type_after(env, None, o2, global.ty, full_depth(env, None));
            let name = env.analysis.names.lookup(NameKey::GlobalVariable(handle));
            pieces_after(env, None, o, pieces, pieces.len(), full_depth(env, None)) == name_after(
                o3.put(" "@),
                name,
            ).put(";\n"@)
        }),
{
    let depth = full_depth(env, None);
    let pieces = global_declaration_pieces(env, handle, global);
    let p1 = access_pieces(global.storage_access);
    let p2 = interpolation_pieces(env.options.entry_point.0, global);
    let p3 = pieces.skip((p1.len() + p2.len()) as int);
    assert(pieces =~= p1 + p2 + p3);
    access_is_written(env, o, global);
    interpolation_is_written(env, access_after(o, global), env.options.entry_point.0, global);
    pieces_after_concatenation(env, None, o, p1, p2, p2.len(), depth);
    pieces_after_concatenation(env, None, o, p1 + p2, p3, p3.len(), depth);
    let o2 = pieces_after(env, None, o, p1 + p2, p1.len() + p2.len(), depth);
    assert(p3.len() == 6);
    let name = env.analysis.names.lookup(NameKey::GlobalVariable(handle));
    assert(pieces_after(env, None, o2, p3, 6, depth) == name_after(
        type_after(
            env,
            None,
            class_after(o2, global.class).put(" "@),
            global.ty,
            depth,
        ).put(" "@),
        name,
    ).put(";\n"@)) by {
        reveal_with_fuel(pieces_after, 7);
    }
}

/// `o`, then the layout of a storage image. Other images have none.
pub open spec fn layout_after(o: Output, class: ImageClass) -> Output {
    match class {
        ImageClass::Storage(format) => o.put("layout("@).put(storage_format_name(format)).put(
            ") "@,
        ),
        _ => o,
    }
}

/// The layout of a storage image is written.
proof fn layout_is_written(env: Env<'_>, o: Output, class: ImageClass)
    ensures
        ({
            let pieces = storage_layout_pieces(class);
            pieces_after(env, None, o, pieces, pieces.len(), full_depth(env, None))
                == layout_after(o, class)
        }),
{
    reveal_with_fuel(pieces_after, 4);
}

/// The name at the end of a declaration is written.
proof fn name_is_written(env: Env<'_>, o: Output, name: Option<Seq<char>>)
    ensures
        ({
            let pieces = seq![Piece::Text(" "@), name_piece(name), Piece::Text(";\n"@)];
            pieces_after(env, None, o, pieces, 3, full_depth(env, None)) == name_after(
                o.put(" "@),
                name,
            ).put(";\n"@)
        }),
{
    reveal_with_fuel(pieces_after, 4);
}

/// A global variable that is an image is declared with its layout, its modifiers, its type and its
/// name.
#[verifier::rlimit(50)]
proof fn image_global_is_written(
    env: Env<'_>,
    o: Output,
    handle: Handle<GlobalVariable>,
    global: GlobalVariable,
    dim: ImageDimension,
    arrayed: bool,
    class: ImageClass,
)
    ensures
        ({
            let pieces = image_global_pieces(
                env,
                handle,
                global,
                dim,
                arrayed,
                class,
            );
            let o2 = access_after(layout_after(o, class), global).put("uniform "@);
            let name = env.analysis.names.lookup(NameKey::GlobalVariable(handle));
            pieces_after(env, None, o, pieces, pieces.len(), full_depth(env, None)) == name_after(
                image_after(o2, dim, arrayed, class).put(" "@),
                name,
            ).put(";\n"@)
        }),
{
    let depth = full_depth(env, None);
    let pieces = image_global_pieces(env, handle, global, dim, arrayed, class);
    let p1 = storage_layout_pieces(class);
    let p2 = access_pieces(global.storage_access);
    let p3 = seq![Piece::Text("uniform "@)];
    let p4 = image_type_pieces(dim, arrayed, class);
    let q3 = p1 + p2 + p3;
    let q4 = q3 + p4;
    let name = env.analysis.names.lookup(NameKey::GlobalVariable(handle));
    let p5 = seq![Piece::Text(" "@), name_piece(name), Piece::Text(";\n"@)];
    assert(pieces =~= q4 + p5);
    let o1 = layout_after(o, class);
    layout_is_written(env, o, class);
    let o2 = access_after(o1, global);
    access_is_written(env, o1, global);
    pieces_after_concatenation(env, None, o, p1, p2, p2.len(), depth);
    one_piece_follows(env, None, o, p1 + p2, Piece::Text("uniform "@));
    let o3 = o2.put("uniform "@);
    pieces_after_concatenation(env, None, o, q3, p4, p4.len(), depth);
    image_is_written(env, o3, dim, arrayed, class);
    let o4 = image_after(o3, dim, arrayed, class);
    pieces_after_concatenation(env, None, o, q4, p5, 3, depth);
    name_is_written(env, o4, name);
}

/// A global variable of the module is declared as its type and its binding ask for.
proof fn global_is_written(env: Env<'_>, o: Output, handle: Handle<GlobalVariable>)
    ensures
        ({
            let pieces = any_global_pieces(env, handle);
            pieces_after(env, None, o, pieces, pieces.len(), full_depth(env, None))
                == global_after(env, o, handle)
        }),
{
    let global = env.module.global_variables@[handle.index as int];
    let pieces = any_global_pieces(env, handle);
    assert(pieces_after(env, None, o, pieces, 0, full_depth(env, None)) == o);
    if global.binding matches Some(Binding::BuiltIn(_)) {
    } else if global.ty.index >= env.module.types@.len() {
        reveal_with_fuel(pieces_after, 2);
    } else {
        match env.module.types@[global.ty.index as int].inner {
            TypeInner::Sampler { .. } => {},
            TypeInner::Image { dim, arrayed, class } => {
                image_global_is_written(env, o, handle, global, dim, arrayed, class);
            },
            _ => {
                plain_global_is_written(env, o, handle, global);
            },
        }
    }
}

/// The globals of a module are written one after the other.
proof fn globals_follow_one_another(env: Env<'_>, o: Output, usage: Seq<GlobalUse>, count: nat)
    ensures
        ({
            let pieces = all_global_pieces(env, usage, count);
            pieces_after(env, None, o, pieces, pieces.len(), full_depth(env, None))
                == globals_after(env, o, usage, count)
        }),
    decreases count,
{
    if count > 0 {
        let before = all_global_pieces(env, usage, (count - 1) as nat);
        globals_follow_one_another(env, o, usage, (count - 1) as nat);
        if !usage[count - 1].is_empty() {
            let depth = full_depth(env, None);
            let rest = any_global_pieces(env, handle_at(count - 1));
            let o1 = pieces_after(env, None, o, before, before.len(), depth);
            pieces_after_concatenation(env, None, o, before, rest, rest.len(), depth);
            global_is_written(env, o1, handle_at(count - 1));
        }
    }
}

/// `o`, then the directives of the first `count` extensions, each of which is required.
pub open spec fn extensions_after(o: Output, extensions: Seq<String>, count: nat) -> Output
    decreases count,
{
    if count == 0 {
        o
    } else {
        extensions_after(o, extensions, (count - 1) as nat).put("#extension "@).put(
            extensions[count - 1]@,
        ).put(": require\n"@)
    }
}

/// `o`, then the start of the source: the version, the extensions, the precision that `es` asks for
/// and the layouts for early depth tests.
pub open spec fn prologue_after(env: Env<'_>, o: Output, entry_point: EntryPoint) -> Output {
    let extensions = env.analysis.features.extensions@;
    let o1 = match env.options.version {
        Version::Desktop(v) => o.put("#version "@).put(decimal(v as nat)).put(" core"@),
        Version::Embedded(v) => o.put("#version "@).put(decimal(v as nat)).put(" es"@),
    };
    let o2 = extensions_after(o1.put("\n"@), extensions, extensions.len()).put("\n"@);
    let o3 = match env.options.version {
        Version::Desktop(_) => o2,
        Version::Embedded(_) => o2.put("precision highp float;\n\n"@),
    };
    let o4 = match entry_point.early_depth_test {
        None => o3,
        Some(test) => {
            let o4 = o3.put("layout(early_fragment_tests) in;\n"@);
            match test.conservative {
                None => o4,
                Some(conservative) => o4.put("layout (depth_"@).put(
                    match conservative {
                        ConservativeDepth::GreaterEqual => "greater"@,
                        ConservativeDepth::LessEqual => "less"@,
                        ConservativeDepth::Unchanged => "unchanged"@,
                    },
                ).put(") out float gl_FragDepth;\n"@),
            }
        },
    };
    o4.put("\n"@)
}

/// The extension directives are written one after the other.
#[verifier::rlimit(50)]
proof fn extensions_follow_one_another(
    env: Env<'_>,
    o: Output,
    extensions: Seq<String>,
    count: nat,
)
    ensures
        ({
            let pieces = extension_pieces(extensions, count);
            pieces_after(env, None, o, pieces, pieces.len(), full_depth(env, None))
                == extensions_after(o, extensions, count)
        }),
    decreases count,
{
    if count > 0 {
        let depth = full_depth(env, None);
        let pieces = extension_pieces(extensions, count);
        let before = extension_pieces(extensions, (count - 1) as nat);
        let rest = pieces.skip(before.len() as int);
        assert(pieces =~= before + rest);
        assert(rest.len() == 3);
        extensions_follow_one_another(env, o, extensions, (count - 1) as nat);
        pieces_after_concatenation(env, None, o, before, rest, 3, depth);
        reveal_with_fuel(pieces_after, 4);
    }
}

/// The start of the source is written.
#[verifier::rlimit(50)]
proof fn prologue_is_written(env: Env<'_>, o: Output, entry_point: EntryPoint)
    ensures
        ({
            let pieces = prologue_pieces(env, entry_point);
            pieces_after(env, None, o, pieces, pieces.len(), full_depth(env, None))
                == prologue_after(env, o, entry_point)
        }),
{
    let depth = full_depth(env, None);
    let pieces = prologue_pieces(env, entry_point);
    let extensions = env.analysis.features.extensions@;
    let p1 = pieces.take(4);
    let p2 = extension_pieces(extensions, extensions.len());
    let q2 = p1 + p2;
    let p3 = pieces.skip(q2.len() as int);
    assert(pieces =~= q2 + p3);
    let o1 = pieces_after(env, None, o, p1, 4, depth);
    assert(o1 == (match env.options.version {
        Version::Desktop(v) => o.put("#version "@).put(decimal(v as nat)).put(" core"@),
        Version::Embedded(v) => o.put("#version "@).put(decimal(v as nat)).put(" es"@),
    }).put("\n"@)) by {
        reveal_with_fuel(pieces_after, 5);
    }
    pieces_after_concatenation(env, None, o, p1, p2, p2.len(), depth);
    extensions_follow_one_another(env, o1, extensions, extensions.len());
    pieces_after_concatenation(env, None, o, q2, p3, p3.len(), depth);
    let o2 = extensions_after(o1, extensions, extensions.len());
    assert(pieces_after(env, None, o2, p3, p3.len(), depth) == prologue_after(env, o, entry_point))
        by {
        reveal_with_fuel(pieces_after, 9);
    }
}

/// The part of the source before the functions has the start of the source, then all the structs of
/// the module in order, then all the globals in order that the entry point uses, with empty lines
/// between. Globals whose use isn't listed count as unused.
#[verifier::rlimit(50)]
pub proof fn declarations_have_all_their_parts(writer: Writer<'_>)
    ensures
        ({
            let env = writer.env;
            let usage = writer.entry_point.function.global_usage@;
            let listed = if usage.len() < env.module.global_variables@.len() {
                usage.len()
            } else {
                env.module.global_variables@.len()
            };
            let o1 = prologue_after(env, writer.state(), *writer.entry_point);
            let o2 = structs_after(env, o1, env.module.types@.len()).put("\n"@);
            writer.declared() == globals_after(env, o2, usage, listed).put("\n"@)
        }),
{
    let env = writer.env;
    let o = writer.state();
    let depth = full_depth(env, None);
    let usage = writer.entry_point.function.global_usage@;
    let listed = if usage.len() < env.module.global_variables@.len() {
        usage.len()
    } else {
        env.module.global_variables@.len()
    };
    let pieces = declaration_pieces(env, *writer.entry_point);
    let p1 = prologue_pieces(env, *writer.entry_point);
    let p2 = all_struct_pieces(env, env.module.types@.len());
    let q2 = p1 + p2;
    let q3 = q2 + seq![Piece::Text("\n"@)];
    let p4 = all_global_pieces(env, usage, listed);
    let q4 = q3 + p4;
    assert(pieces =~= q4 + seq![Piece::Text("\n"@)]);
    pieces_follow_one_another(env, None, o, pieces, pieces.len(), depth);
    let o1 = prologue_after(env, o, *writer.entry_point);
    prologue_is_written(env, o, *writer.entry_point);
    pieces_after_concatenation(env, None, o, p1, p2, p2.len(), depth);
    structs_follow_one_another(env, o1, env.module.types@.len());
    one_piece_follows(env, None, o, q2, Piece::Text("\n"@));
    let o2 = structs_after(env, o1, env.module.types@.len()).put("\n"@);
    pieces_after_concatenation(env, None, o, q3, p4, p4.len(), depth);
    globals_follow_one_another(env, o2, usage, listed);
    one_piece_follows(env, None, o, q4, Piece::Text("\n"@));
}

/// `o`, then the functions at the first `count` places of an order, each under its name and with an
/// empty line behind.
pub open spec fn functions_after(
    writer: Writer<'_>,
    o: Output,
    order: Seq<u32>,
    count: nat,
) -> Output
    decreases count,
{
    if count == 0 {
        o
    } else {
        let env = writer.env;
        let nodes = graph_nodes(writer.call_graph);
        let before = functions_after(writer, o, order, (count - 1) as nat);
        let node = order[count - 1] as int;
        if node < nodes.len() && nodes[node] < env.module.functions@.len() {
            let handle = handle_at(nodes[node] as int);
            match env.analysis.names.lookup(NameKey::Function(handle)) {
                Some(name) => function_output(
                    env,
                    before,
                    FunctionType::Function(handle),
                    env.module.functions@[nodes[node] as int],
                    name,
                ).put("\n"@),
                None => before.invalid(),
            }
        } else {
            before.invalid()
        }
    }
}

/// The functions are written one after the other.
proof fn functions_follow_one_another(
    writer: Writer<'_>,
    o: Output,
    order: Seq<u32>,
    count: nat,
)
    ensures
        functions_output(writer.env, o, graph_nodes(writer.call_graph), order, count)
            == functions_after(writer, o, order, count),
    decreases count,
{
    if count > 0 {
        functions_follow_one_another(writer, o, order, (count - 1) as nat);
    }
}

/// A module is written as its declarations, then all the functions of the order one after the
/// other, then the entry point under the name `main`.
pub proof fn modules_have_all_their_parts(writer: Writer<'_>, order: Seq<u32>)
    requires
        writer.function_order() == Some(order),
    ensures
        writer.module_output() == function_output(
            writer.env,
            functions_after(writer, writer.declared(), order, order.len()),
            FunctionType::EntryPoint(writer.entry_point_idx),
            writer.entry_point.function,
            "main"@,
        ),
{
    functions_follow_one_another(writer, writer.declared(), order, order.len());
}

/// A local variable with an initial value is written with that value between its name and the
/// semicolon, one without is written with nothing there, in regular functions and in entry points
/// alike.
pub proof fn initial_values_follow_the_name(
    env: Env<'_>,
    ctx: FunctionCtx<'_>,
    o: Output,
    locals: Seq<LocalVariable>,
    i: nat,
)
    requires
        i < locals.len(),
    ensures
        ({
            let depth = full_depth(env, Some(ctx));
            let before = render(env, Some(ctx), o, local_pieces(env, ctx.func, locals, i));
            let typed = type_after(
                env,
                Some(ctx),
                before.put("\t"@),
                locals[i as int].ty,
                depth,
            ).put(" "@);
            let key = match ctx.func {
                FunctionType::Function(function) => NameKey::FunctionLocal(
                    function,
                    handle_at(i as int),
                ),
                FunctionType::EntryPoint(index) => NameKey::EntryPointLocal(
                    index,
                    handle_at(i as int),
                ),
            };
            let named = match env.analysis.names.lookup(key) {
                Some(name) => typed.put(name),
                None => typed.invalid(),
            };
            let after = render(env, Some(ctx), o, local_pieces(env, ctx.func, locals, i + 1));
            match locals[i as int].init {
                Some(init) => after == constant_after(
                    env,
                    Some(ctx),
                    named.put(" = "@),
                    init,
                    depth,
                ).put(";\n"@),
                None => after == named.put(";\n"@),
            }
        }),
{
    let depth = full_depth(env, Some(ctx));
    let first = local_pieces(env, ctx.func, locals, i);
    let second = local_pieces(env, ctx.func, locals, i + 1);
    pieces_follow_one_another(env, Some(ctx), o, first, first.len(), depth);
    pieces_follow_one_another(env, Some(ctx), o, second, second.len(), depth);
    locals_follow_one_another(env, ctx, o, locals, i);
    locals_follow_one_another(env, ctx, o, locals, i + 1);
}

/// The qualifier of an interpolation stands directly before the storage class, and a space between
/// them, for the inputs of fragment shaders and for the outputs of vertex shaders alike. Globals of
/// other storage classes or of other stages, and those without an interpolation, are declared
/// without a qualifier. Patches are rejected.
pub proof fn interpolations_stand_before_the_storage_class(
    env: Env<'_>,
    o: Output,
    handle: Handle<GlobalVariable>,
    global: GlobalVariable,
)
    requires
        env.module.global_variables@[handle.index as int] == global,
        !(global.binding matches Some(Binding::BuiltIn(_))),
        global.ty.index < env.module.types@.len(),
        !(env.module.types@[global.ty.index as int].inner is Image),
        !(env.module.types@[global.ty.index as int].inner is Sampler),
    ensures
        ({
            let depth = full_depth(env, None);
            let accessed = if global.storage_access.load && !global.storage_access.store {
                o.put("readonly "@)
            } else if global.storage_access.store && !global.storage_access.load {
                o.put("writeonly "@)
            } else {
                o
            };
            let stage = env.options.entry_point.0;
            let qualified = if (stage is Fragment && global.class is Input) || (stage is Vertex
                && global.class is Output) {
                match global.interpolation {
                    Some(Interpolation::Perspective) => accessed.put("smooth"@).put(" "@),
                    Some(Interpolation::Linear) => accessed.put("noperspective"@).put(" "@),
                    Some(Interpolation::Flat) => accessed.put("flat"@).put(" "@),
                    Some(Interpolation::Centroid) => accessed.put("centroid"@).put(" "@),
                    Some(Interpolation::Sample) => accessed.put("sample"@).put(" "@),
                    Some(Interpolation::Patch) => accessed.fail(
                        ErrorView::PatchInterpolationNotSupported,
                    ),
                    None => accessed,
                }
            } else {
                accessed
            };
            let classed = qualified.put(
                match global.class {
                    StorageClass::Input => "in"@,
                    StorageClass::Output => "out"@,
                    StorageClass::Storage => "buffer"@,
                    StorageClass::Uniform => "uniform"@,
                    StorageClass::Handle => "uniform"@,
                    StorageClass::WorkGroup => "shared"@,
                    StorageClass::Function => ""@,
                    StorageClass::Private => ""@,
                    StorageClass::PushConstant => ""@,
                },
            ).put(" "@);
            let typed = type_after(env, None, classed, global.ty, depth).put(" "@);
            let named = match env.analysis.names.lookup(NameKey::GlobalVariable(handle)) {
                Some(name) => typed.put(name),
                None => typed.invalid(),
            };
            render(env, None, o, any_global_pieces(env, handle)) == named.put(";\n"@)
        }),
{
    let pieces = any_global_pieces(env, handle);
    pieces_follow_one_another(env, None, o, pieces, pieces.len(), full_depth(env, None));
    plain_global_is_written(env, o, handle, global);
}

/// A module is accepted exactly if all of it can be written and its textures can be mapped. An
/// error of the writer comes before one of the textures.
pub proof fn modules_are_accepted_if_written_and_mapped(writer: Writer<'_>)
    ensures
        writer.status() is Running <==> writer.module_output().status is Running
            && writer.module_textures() is Mapped,
        !(writer.module_output().status is Running) ==> writer.status()
            == writer.module_output().status,
        writer.module_output().status is Running && writer.module_textures() is MultipleSamplers
            ==> writer.status() == Status::Failed(ErrorView::ImageMultipleSamplers),
        writer.module_output().status is Running && writer.module_textures() is Invalid
            ==> writer.status() is Invalid,
        writer.function_order() is None && writer.declared().status is Running
            ==> writer.status() is Invalid,
{
}

} // verus!
