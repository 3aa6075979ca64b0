//! Modules whose items refer only to items that were added before them are never found invalid, how
//! many handles may be followed makes no difference to them, and their functions have an order.
use crate::arena::{handle_at, Arena, Handle};
use crate::call_graph::model_of;
use crate::constants::constant_pieces;
use crate::context::{Analysis, Env, FunctionCtx, FunctionType, Options};
use crate::declarations::declaration_pieces;
use crate::expressions::expr_pieces;
use crate::functions::{function_head_pieces, function_output, typing_of};
use crate::graph::graph_nodes;
use crate::ir::{Constant, Expression, Function, Module, Statement, SwitchCase, Type};
use crate::mappings::{texture_use, uses_texture, written_functions};
use crate::names::NameKey;
use crate::ordering::{
    calls, cycles_are_recursions, functions_come_before_their_callers, is_needed, is_recursion,
};
use crate::output::{Output, Piece};
use crate::render::{
    constant_output, expr_output, full_depth, piece_output, pieces_output, render, type_output,
    Depth,
};
use crate::statements::{
    block_changes_nothing_after_a_stop, block_output, cases_change_nothing_after_a_stop,
    cases_output, max_indent, stmt_output,
};
use crate::text::{signed_decimal, tabs};
use crate::textures::{with_function_textures, TextureMappingVisitor, TextureModel, Textures};
use crate::types::type_pieces;
use crate::visit::{
    after_all, block_visits, cases_visits, expr_visits, function_visits, list_visits, operands,
    stmt_visits,
};
use crate::writer::{
    function_changes_nothing_after_a_stop, functions_change_nothing_after_a_stop, functions_output,
    node_changes_nothing_after_a_stop, node_output, node_textures, Writer,
};
use vstd::prelude::*;

verus! {

/// Whether a limit is at least as high as another one.
pub open spec fn is_deeper(deep: Depth, shallow: Depth) -> bool {
    &&& deep.exprs >= shallow.exprs
    &&& deep.constants >= shallow.constants
    &&& deep.types >= shallow.types
}

/// A piece that isn't found invalid is written the same with a higher limit.
proof fn deeper_piece_is_the_same(
    env: Env<'_>,
    ctx: Option<FunctionCtx<'_>>,
    o: Output,
    piece: Piece,
    shallow: Depth,
    deep: Depth,
)
    requires
        is_deeper(deep, shallow),
        !(piece_output(env, ctx, o, piece, shallow).status is Invalid),
    ensures
        piece_output(env, ctx, o, piece, deep) == piece_output(env, ctx, o, piece, shallow),
    decreases shallow.exprs, shallow.constants, shallow.types, 1nat,
{
    if o.status is Running {
        match piece {
            Piece::Type(ty) => {
                assert(type_output(env, ctx, o, ty, shallow) == piece_output(
                    env,
                    ctx,
                    o,
                    piece,
                    shallow,
                ));
                let pieces = type_pieces(env, ty);
                deeper_pieces_are_the_same(
                    env,
                    ctx,
                    o,
                    pieces,
                    pieces.len(),
                    Depth { types: (shallow.types - 1) as usize, ..shallow },
                    Depth { types: (deep.types - 1) as usize, ..deep },
                );
            },
            Piece::Constant(constant) => {
                assert(constant_output(env, ctx, o, constant, shallow) == piece_output(
                    env,
                    ctx,
                    o,
                    piece,
                    shallow,
                ));
                let pieces = constant_pieces(env.module.constants.at(constant));
                let types = full_depth(env, ctx).types;
                deeper_pieces_are_the_same(
                    env,
                    ctx,
                    o,
                    pieces,
                    pieces.len(),
                    Depth { constants: (shallow.constants - 1) as usize, types, ..shallow },
                    Depth { constants: (deep.constants - 1) as usize, types, ..deep },
                );
            },
            Piece::Expr(expr) => {
                assert(expr_output(env, ctx, o, expr, shallow) == piece_output(
                    env,
                    ctx,
                    o,
                    piece,
                    shallow,
                ));
                let c = ctx->0;
                let pieces = expr_pieces(env, c, c.expressions.at(expr));
                deeper_pieces_are_the_same(
                    env,
                    ctx,
                    o,
                    pieces,
                    pieces.len(),
                    Depth { exprs: (shallow.exprs - 1) as usize, ..full_depth(env, ctx) },
                    Depth { exprs: (deep.exprs - 1) as usize, ..full_depth(env, ctx) },
                );
            },
            _ => {},
        }
    }
}

/// Pieces that aren't found invalid are written the same with a higher limit: the limit on how many
/// handles may be followed only decides what is invalid.
pub proof fn deeper_pieces_are_the_same(
    env: Env<'_>,
    ctx: Option<FunctionCtx<'_>>,
    o: Output,
    pieces: Seq<Piece>,
    count: nat,
    shallow: Depth,
    deep: Depth,
)
    requires
        is_deeper(deep, shallow),
        !(pieces_output(env, ctx, o, pieces, count, shallow).status is Invalid),
    ensures
        pieces_output(env, ctx, o, pieces, count, deep) == pieces_output(
            env,
            ctx,
            o,
            pieces,
            count,
            shallow,
        ),
    decreases shallow.exprs, shallow.constants, shallow.types, count + 2,
{
    if count > 0 {
        let before = pieces_output(env, ctx, o, pieces, (count - 1) as nat, shallow);
        let piece = pieces[count - 1];
        assert(piece_output(env, ctx, before, piece, shallow) == pieces_output(
            env,
            ctx,
            o,
            pieces,
            count,
            shallow,
        ));
        deeper_pieces_are_the_same(env, ctx, o, pieces, (count - 1) as nat, shallow, deep);
        deeper_piece_is_the_same(env, ctx, before, piece, shallow, deep);
    }
}

/// Expressions that can be visited are visited the same with a higher limit.
pub proof fn deeper_visits_are_the_same(
    expressions: Arena<Expression>,
    expr: Handle<Expression>,
    shallow: nat,
    deep: nat,
)
    requires
        shallow <= deep,
        expr_visits(expressions, expr, shallow) is Some,
    ensures
        expr_visits(expressions, expr, deep) == expr_visits(expressions, expr, shallow),
    decreases shallow, 0nat,
{
    let list = operands(expressions.at(expr));
    deeper_list_visits_are_the_same(
        expressions,
        list,
        list.len(),
        (shallow - 1) as nat,
        (deep - 1) as nat,
    );
}

/// Lists of expressions that can be visited are visited the same with a higher limit.
proof fn deeper_list_visits_are_the_same(
    expressions: Arena<Expression>,
    list: Seq<Handle<Expression>>,
    count: nat,
    shallow: nat,
    deep: nat,
)
    requires
        shallow <= deep,
        list_visits(expressions, list, count, shallow) is Some,
    ensures
        list_visits(expressions, list, count, deep) == list_visits(
            expressions,
            list,
            count,
            shallow,
        ),
    decreases shallow, count + 1,
{
    if count > 0 {
        deeper_list_visits_are_the_same(expressions, list, (count - 1) as nat, shallow, deep);
        deeper_visits_are_the_same(expressions, list[count - 1], shallow, deep);
    }
}

/// Up to where references may point.
pub struct Bounds {
    pub exprs: int,
    pub constants: int,
    pub types: int,
}

/// Whether a type is neither image nor sampler.
pub open spec fn is_plain(env: Env<'_>, ty: Handle<Type>) -> bool {
    &&& env.module.types.has(ty)
    &&& !(env.module.types.at(ty).inner is Image)
    &&& !(env.module.types.at(ty).inner is Sampler)
}

/// Whether a piece is there and refers only to what is below the bounds.
pub open spec fn piece_is_valid(env: Env<'_>, piece: Piece, bounds: Bounds) -> bool {
    match piece {
        Piece::Text(_) | Piece::FreshId | Piece::Fail(_) => true,
        Piece::Type(ty) => ty.index < bounds.types && is_plain(env, ty),
        Piece::Constant(constant) => constant.index < bounds.constants
            && env.module.constants.has(constant),
        Piece::Expr(expr) => expr.index < bounds.exprs,
        Piece::Invalid => false,
    }
}

/// Whether all pieces are there and refer only to what is below the bounds.
pub open spec fn pieces_are_valid(env: Env<'_>, pieces: Seq<Piece>, bounds: Bounds) -> bool {
    forall|i: int| 0 <= i < pieces.len() ==> piece_is_valid(env, #[trigger] pieces[i], bounds)
}

/// What may be referred to from outside of the arenas: everything.
pub open spec fn all_bounds(env: Env<'_>, exprs: int) -> Bounds {
    Bounds {
        exprs,
        constants: env.module.constants@.len() as int,
        types: env.module.types@.len() as int,
    }
}

/// Whether types refer only to types before them, and constants only to constants before them.
pub open spec fn items_are_valid(env: Env<'_>) -> bool {
    &&& forall|ty: Handle<Type>|
        is_plain(env, ty) ==> pieces_are_valid(
            env,
            #[trigger] type_pieces(env, ty),
            Bounds { exprs: 0, constants: 0, types: ty.index as int },
        )
    &&& forall|constant: Handle<Constant>|
        env.module.constants.has(constant) ==> pieces_are_valid(
            env,
            constant_pieces(#[trigger] env.module.constants.at(constant)),
            Bounds {
                exprs: 0,
                constants: constant.index as int,
                types: env.module.types@.len() as int,
            },
        )
}

/// Whether the expressions of a function refer only to expressions before them.
pub open spec fn expressions_are_valid(env: Env<'_>, ctx: FunctionCtx<'_>) -> bool {
    forall|expr: Handle<Expression>|
        ctx.expressions.has(expr) ==> pieces_are_valid(
            env,
            expr_pieces(env, ctx, #[trigger] ctx.expressions.at(expr)),
            all_bounds(env, expr.index as int),
        )
}

/// The number of constants and types is that of the limit.
proof fn full_depth_is_all(env: Env<'_>, ctx: Option<FunctionCtx<'_>>)
    ensures
        full_depth(env, ctx).constants == env.module.constants@.len(),
        full_depth(env, ctx).types == env.module.types@.len(),
        ctx matches Some(c) ==> full_depth(env, ctx).exprs == c.expressions@.len(),
{
    assert(env.module.constants.data.len() == env.module.constants@.len());
    assert(env.module.types.data.len() == env.module.types@.len());
    if let Some(c) = ctx {
        assert(c.expressions.data.len() == c.expressions@.len());
    }
}

/// Whether a further piece was found invalid only because there are too many interface blocks.
pub open spec fn is_sound_step(before: Output, after: Output) -> bool {
    after.status is Invalid ==> before.status is Invalid || after.next_id >= u32::MAX
}

/// Valid pieces aren't found invalid.
proof fn valid_piece_is_written(
    env: Env<'_>,
    ctx: Option<FunctionCtx<'_>>,
    o: Output,
    piece: Piece,
    bounds: Bounds,
    depth: Depth,
)
    requires
        items_are_valid(env),
        ctx matches Some(c) ==> expressions_are_valid(env, c),
        bounds.exprs <= full_depth(env, ctx).exprs,
        bounds.exprs <= depth.exprs,
        bounds.constants <= depth.constants,
        bounds.types <= depth.types,
        piece_is_valid(env, piece, bounds),
    ensures
        is_sound_step(o, piece_output(env, ctx, o, piece, depth)),
    decreases depth.exprs, depth.constants, depth.types, 1nat,
{
    full_depth_is_all(env, ctx);
    if o.status is Running {
        match piece {
            Piece::Type(ty) => {
                let pieces = type_pieces(env, ty);
                let inner = Bounds { exprs: 0, constants: 0, types: ty.index as int };
                valid_pieces_are_written(
                    env,
                    ctx,
                    o,
                    pieces,
                    pieces.len(),
                    inner,
                    Depth { types: (depth.types - 1) as usize, ..depth },
                );
                assert(piece_output(env, ctx, o, piece, depth) == type_output(
                    env,
                    ctx,
                    o,
                    ty,
                    depth,
                ));
            },
            Piece::Constant(constant) => {
                let pieces = constant_pieces(env.module.constants.at(constant));
                let types = full_depth(env, ctx).types;
                let inner = Bounds {
                    exprs: 0,
                    constants: constant.index as int,
                    types: env.module.types@.len() as int,
                };
                valid_pieces_are_written(
                    env,
                    ctx,
                    o,
                    pieces,
                    pieces.len(),
                    inner,
                    Depth { constants: (depth.constants - 1) as usize, types, ..depth },
                );
                assert(piece_output(env, ctx, o, piece, depth) == constant_output(
                    env,
                    ctx,
                    o,
                    constant,
                    depth,
                ));
            },
            Piece::Expr(expr) => {
                let c = ctx->0;
                let pieces = expr_pieces(env, c, c.expressions.at(expr));
                let full = full_depth(env, ctx);
                valid_pieces_are_written(
                    env,
                    ctx,
                    o,
                    pieces,
                    pieces.len(),
                    all_bounds(env, expr.index as int),
                    Depth { exprs: (depth.exprs - 1) as usize, ..full },
                );
                assert(piece_output(env, ctx, o, piece, depth) == expr_output(
                    env,
                    ctx,
                    o,
                    expr,
                    depth,
                ));
            },
            _ => {},
        }
    }
}

/// Valid pieces aren't found invalid.
proof fn valid_pieces_are_written(
    env: Env<'_>,
    ctx: Option<FunctionCtx<'_>>,
    o: Output,
    pieces: Seq<Piece>,
    count: nat,
    bounds: Bounds,
    depth: Depth,
)
    requires
        items_are_valid(env),
        ctx matches Some(c) ==> expressions_are_valid(env, c),
        bounds.exprs <= full_depth(env, ctx).exprs,
        bounds.exprs <= depth.exprs,
        bounds.constants <= depth.constants,
        bounds.types <= depth.types,
        count <= pieces.len(),
        pieces_are_valid(env, pieces, bounds),
    ensures
        is_sound_step(o, pieces_output(env, ctx, o, pieces, count, depth)),
    decreases depth.exprs, depth.constants, depth.types, count + 2,
{
    if count > 0 {
        let before = pieces_output(env, ctx, o, pieces, (count - 1) as nat, depth);
        let piece = pieces[count - 1];
        valid_pieces_are_written(env, ctx, o, pieces, (count - 1) as nat, bounds, depth);
        valid_piece_is_written(env, ctx, before, piece, bounds, depth);
        assert(piece_output(env, ctx, before, piece, depth) == pieces_output(
            env,
            ctx,
            o,
            pieces,
            count,
            depth,
        ));
    }
}

/// Valid pieces aren't found invalid when they are rendered.
proof fn valid_pieces_are_rendered(
    env: Env<'_>,
    ctx: Option<FunctionCtx<'_>>,
    o: Output,
    pieces: Seq<Piece>,
)
    requires
        items_are_valid(env),
        ctx matches Some(c) ==> expressions_are_valid(env, c),
        pieces_are_valid(env, pieces, all_bounds(env, full_depth(env, ctx).exprs as int)),
    ensures
        is_sound_step(o, render(env, ctx, o, pieces)),
{
    let depth = full_depth(env, ctx);
    full_depth_is_all(env, ctx);
    valid_pieces_are_written(
        env,
        ctx,
        o,
        pieces,
        pieces.len(),
        all_bounds(env, depth.exprs as int),
        depth,
    );
}

/// Whether a statement refers only to expressions of the function, and isn't nested too deep.
pub open spec fn stmt_is_valid(ctx: FunctionCtx<'_>, sta: Statement, indent: nat) -> bool
    decreases sta, 0nat,
{
    &&& indent <= max_indent()
    &&& match sta {
        Statement::Block(block) => block_is_valid(ctx, block@, block@.len(), indent + 1),
        Statement::If { condition, accept, reject } => {
            &&& ctx.expressions.has(condition)
            &&& block_is_valid(ctx, accept@, accept@.len(), indent + 1)
            &&& block_is_valid(ctx, reject@, reject@.len(), indent + 1)
        },
        Statement::Switch { selector, cases, default } => {
            &&& ctx.expressions.has(selector)
            &&& cases_are_valid(ctx, cases@, cases@.len(), indent + 2)
            &&& block_is_valid(ctx, default@, default@.len(), indent + 2)
        },
        Statement::Loop { body, continuing } => {
            &&& block_is_valid(ctx, body@, body@.len(), indent + 1)
            &&& block_is_valid(ctx, continuing@, continuing@.len(), indent + 1)
        },
        Statement::Break | Statement::Continue | Statement::Kill => true,
        Statement::Return { value } => match value {
            Some(expr) => ctx.expressions.has(expr),
            None => true,
        },
        Statement::Store { pointer, value } => {
            &&& ctx.expressions.has(pointer)
            &&& ctx.expressions.has(value)
        },
    }
}

/// Whether the first `count` statements of a block are valid.
pub open spec fn block_is_valid(
    ctx: FunctionCtx<'_>,
    block: Seq<Statement>,
    count: nat,
    indent: nat,
) -> bool
    decreases block, count,
{
    if count == 0 || count > block.len() {
        true
    } else {
        block_is_valid(ctx, block, (count - 1) as nat, indent) && stmt_is_valid(
            ctx,
            block[count - 1],
            indent,
        )
    }
}

/// Whether the first `count` cases of a switch are valid.
pub open spec fn cases_are_valid(
    ctx: FunctionCtx<'_>,
    cases: Seq<SwitchCase>,
    count: nat,
    indent: nat,
) -> bool
    decreases cases, count,
{
    if count == 0 || count > cases.len() {
        true
    } else {
        let body = cases[count - 1].body@;
        cases_are_valid(ctx, cases, (count - 1) as nat, indent) && block_is_valid(
            ctx,
            body,
            body.len(),
            indent,
        )
    }
}

/// The context of a function whose types have been resolved.
pub open spec fn context_of<'a>(
    env: Env<'a>,
    ty: FunctionType,
    func: &'a Function,
) -> Option<FunctionCtx<'a>> {
    match typing_of(env, ty) {
        Some(Ok(typifier)) => Some(
            FunctionCtx { func: ty, expressions: &func.expressions, typifier: &typifier },
        ),
        _ => None,
    }
}

/// Whether the operands of each expression come before it.
pub open spec fn operands_are_valid(expressions: Arena<Expression>) -> bool {
    forall|expr: Handle<Expression>, i: int|
        expressions.has(expr) && 0 <= i < operands(expressions.at(expr)).len() ==> (
        #[trigger] operands(expressions.at(expr))[i]).index < expr.index
}

/// Whether a function refers only to what exists, and its expressions only to expressions before
/// them.
pub open spec fn function_is_valid(
    env: Env<'_>,
    ty: FunctionType,
    func: Function,
    name: Seq<char>,
) -> bool {
    &&& typing_of(env, ty) is Some
    &&& context_of(env, ty, &func) matches Some(ctx) ==> {
        &&& expressions_are_valid(env, ctx)
        &&& pieces_are_valid(
            env,
            function_head_pieces(env, ty, func, name),
            all_bounds(env, func.expressions@.len() as int),
        )
        &&& block_is_valid(ctx, func.body@, func.body@.len(), 1)
    }
}

/// Whether a module is valid as far as its writer looks at it: its items refer only to items before
/// them, everything that is written has a name, the types of all expressions have been looked for,
/// and no function is recursive.
pub open spec fn is_valid(writer: Writer<'_>) -> bool {
    let env = writer.env;
    let nodes = graph_nodes(writer.call_graph);
    &&& items_are_valid(env)
    &&& pieces_are_valid(env, declaration_pieces(env, *writer.entry_point), all_bounds(env, 0))
    &&& writer.function_order() matches Some(order) && forall|i: int|
        0 <= i < order.len() ==> node_is_valid(env, nodes, #[trigger] order[i])
    &&& function_is_valid(
        env,
        FunctionType::EntryPoint(writer.entry_point_idx),
        writer.entry_point.function,
        "main"@,
    )
}

/// Whether the function of a node is valid and has a name.
pub open spec fn node_is_valid(env: Env<'_>, nodes: Seq<usize>, node: u32) -> bool {
    &&& node < nodes.len()
    &&& nodes[node as int] < env.module.functions@.len()
    &&& {
        let handle = handle_at(nodes[node as int] as int);
        env.analysis.names.lookup(NameKey::Function(handle)) matches Some(name)
            && function_is_valid(
            env,
            FunctionType::Function(handle),
            env.module.functions@[nodes[node as int] as int],
            name,
        )
    }
}

/// Whether the functions of a writer can be visited, and use only named globals as textures and
/// samplers.
pub open spec fn textures_are_valid(writer: Writer<'_>) -> bool {
    let env = writer.env;
    let nodes = graph_nodes(writer.call_graph);
    &&& forall|i: int| 0 <= i < nodes.len() ==> #[trigger] nodes[i] < env.module.functions@.len()
    &&& forall|f: int|
        0 <= f < written_functions(writer).len() ==> function_textures_are_valid(
            env,
            #[trigger] written_functions(writer)[f],
        )
}

/// Whether a function can be visited, and uses only named globals as textures and samplers.
pub open spec fn function_textures_are_valid(env: Env<'_>, func: Function) -> bool {
    function_visits(func) matches Some(visits) && forall|i: int|
        0 <= i < visits.len() && uses_texture(#[trigger] visits[i]) ==> texture_use(
            env.analysis.names,
            func.expressions,
            visits[i],
        ) is Some
}

/// Valid statements aren't found invalid.
proof fn valid_statement_is_written(
    env: Env<'_>,
    ctx: FunctionCtx<'_>,
    o: Output,
    sta: Statement,
    indent: nat,
)
    requires
        items_are_valid(env),
        expressions_are_valid(env, ctx),
        stmt_is_valid(ctx, sta, indent),
    ensures
        is_sound_step(o, stmt_output(env, ctx, o, sta, indent)),
    decreases sta, 0nat,
{
    full_depth_is_all(env, Some(ctx));
    if o.status is Running {
        let o1 = o.put(tabs(indent));
        match sta {
            Statement::Block(block) => {
                let o2 = o1.put("{\n"@);
                valid_block_is_written(env, ctx, o2, block@, block@.len(), indent + 1);
            },
            Statement::If { condition, accept, reject } => {
                let pieces = seq![
                    Piece::Text("if("@),
                    Piece::Expr(condition),
                    Piece::Text(") {\n"@),
                ];
                let o2 = render(env, Some(ctx), o1, pieces);
                let o3 = block_output(env, ctx, o2, accept@, accept@.len(), indent + 1);
                let o4 = o3.put(tabs(indent)).put("} else {\n"@);
                valid_pieces_are_rendered(env, Some(ctx), o1, pieces);
                valid_block_is_written(env, ctx, o2, accept@, accept@.len(), indent + 1);
                valid_block_is_written(env, ctx, o4, reject@, reject@.len(), indent + 1);
                block_changes_nothing_after_a_stop(env, ctx, o2, accept@, accept@.len(), indent + 1);
                block_changes_nothing_after_a_stop(env, ctx, o4, reject@, reject@.len(), indent + 1);
            },
            Statement::Switch { selector, cases, default } => {
                let pieces = seq![
                    Piece::Text("switch("@),
                    Piece::Expr(selector),
                    Piece::Text(") {\n"@),
                ];
                let o2 = render(env, Some(ctx), o1, pieces);
                let o3 = cases_output(env, ctx, o2, cases@, cases@.len(), indent);
                let o4 = o3.put(tabs(indent + 1)).put("default:\n"@);
                valid_pieces_are_rendered(env, Some(ctx), o1, pieces);
                valid_cases_are_written(env, ctx, o2, cases@, cases@.len(), indent);
                valid_block_is_written(env, ctx, o4, default@, default@.len(), indent + 2);
                cases_change_nothing_after_a_stop(env, ctx, o2, cases@, cases@.len(), indent);
                block_changes_nothing_after_a_stop(
                    env,
                    ctx,
                    o4,
                    default@,
                    default@.len(),
                    indent + 2,
                );
            },
            Statement::Loop { body, continuing } => {
                let o2 = o1.put("while(true) {\n"@);
                let o3 = block_output(env, ctx, o2, body@, body@.len(), indent + 1);
                valid_block_is_written(env, ctx, o2, body@, body@.len(), indent + 1);
                valid_block_is_written(env, ctx, o3, continuing@, continuing@.len(), indent + 1);
                block_changes_nothing_after_a_stop(
                    env,
                    ctx,
                    o3,
                    continuing@,
                    continuing@.len(),
                    indent + 1,
                );
            },
            Statement::Return { value: Some(expr) } => {
                let pieces = seq![
                    Piece::Text("return"@),
                    Piece::Text(" "@),
                    Piece::Expr(expr),
                    Piece::Text(";\n"@),
                ];
                valid_pieces_are_rendered(env, Some(ctx), o1, pieces);
            },
            Statement::Store { pointer, value } => {
                let pieces = seq![
                    Piece::Expr(pointer),
                    Piece::Text(" = "@),
                    Piece::Expr(value),
                    Piece::Text(";\n"@),
                ];
                valid_pieces_are_rendered(env, Some(ctx), o1, pieces);
            },
            _ => {},
        }
    }
}

/// Valid blocks aren't found invalid.
proof fn valid_block_is_written(
    env: Env<'_>,
    ctx: FunctionCtx<'_>,
    o: Output,
    block: Seq<Statement>,
    count: nat,
    indent: nat,
)
    requires
        items_are_valid(env),
        expressions_are_valid(env, ctx),
        block_is_valid(ctx, block, count, indent),
    ensures
        is_sound_step(o, block_output(env, ctx, o, block, count, indent)),
    decreases block, count,
{
    if 0 < count <= block.len() {
        let before = block_output(env, ctx, o, block, (count - 1) as nat, indent);
        valid_block_is_written(env, ctx, o, block, (count - 1) as nat, indent);
        valid_statement_is_written(env, ctx, before, block[count - 1], indent);
    }
}

/// Valid cases aren't found invalid.
proof fn valid_cases_are_written(
    env: Env<'_>,
    ctx: FunctionCtx<'_>,
    o: Output,
    cases: Seq<SwitchCase>,
    count: nat,
    indent: nat,
)
    requires
        items_are_valid(env),
        expressions_are_valid(env, ctx),
        cases_are_valid(ctx, cases, count, indent + 2),
    ensures
        is_sound_step(o, cases_output(env, ctx, o, cases, count, indent)),
    decreases cases, count,
{
    if 0 < count <= cases.len() {
        let before = cases_output(env, ctx, o, cases, (count - 1) as nat, indent);
        valid_cases_are_written(env, ctx, o, cases, (count - 1) as nat, indent);
        let case = cases[count - 1];
        let labelled = before.put(tabs(indent + 1)).put("case "@).put(
            signed_decimal(case.value as int),
        ).put(":\n"@);
        valid_block_is_written(env, ctx, labelled, case.body@, case.body@.len(), indent + 2);
        block_changes_nothing_after_a_stop(
            env,
            ctx,
            labelled,
            case.body@,
            case.body@.len(),
            indent + 2,
        );
    }
}

/// Valid functions aren't found invalid.
proof fn valid_function_is_written(
    env: Env<'_>,
    o: Output,
    ty: FunctionType,
    func: Function,
    name: Seq<char>,
)
    requires
        items_are_valid(env),
        function_is_valid(env, ty, func, name),
    ensures
        is_sound_step(o, function_output(env, o, ty, func, name)),
{
    if let Some(Ok(typifier)) = typing_of(env, ty) {
        let ctx = FunctionCtx { func: ty, expressions: &func.expressions, typifier: &typifier };
        assert(context_of(env, ty, &func) == Some(ctx));
        let head = function_head_pieces(env, ty, func, name);
        let o1 = render(env, Some(ctx), o, head);
        full_depth_is_all(env, Some(ctx));
        valid_pieces_are_rendered(env, Some(ctx), o, head);
        valid_block_is_written(env, ctx, o1, func.body@, func.body@.len(), 1);
        block_changes_nothing_after_a_stop(env, ctx, o1, func.body@, func.body@.len(), 1);
    }
}

/// The functions of valid nodes aren't found invalid.
proof fn valid_functions_are_written(
    env: Env<'_>,
    o: Output,
    nodes: Seq<usize>,
    order: Seq<u32>,
    count: nat,
)
    requires
        items_are_valid(env),
        count <= order.len(),
        forall|i: int| 0 <= i < order.len() ==> node_is_valid(env, nodes, #[trigger] order[i]),
    ensures
        is_sound_step(o, functions_output(env, o, nodes, order, count)),
    decreases count,
{
    if count > 0 {
        let before = functions_output(env, o, nodes, order, (count - 1) as nat);
        valid_functions_are_written(env, o, nodes, order, (count - 1) as nat);
        let node = order[count - 1];
        assert(node_is_valid(env, nodes, node));
        let position = nodes[node as int] as int;
        let handle = handle_at(position);
        let name = env.analysis.names.lookup(NameKey::Function(handle))->0;
        valid_function_is_written(
            env,
            before,
            FunctionType::Function(handle),
            env.module.functions@[position],
            name,
        );
        node_changes_nothing_after_a_stop_if(env, before, nodes, node);
    }
}

/// Once writing has stopped, the function of a further node changes nothing.
proof fn node_changes_nothing_after_a_stop_if(
    env: Env<'_>,
    o: Output,
    nodes: Seq<usize>,
    node: u32,
)
    ensures
        !(o.status is Running) ==> node_output(env, o, nodes, node) == o,
{
    if !(o.status is Running) {
        node_changes_nothing_after_a_stop(env, o, nodes, node);
    }
}

/// A valid module is written or rejected, and never found invalid, unless it has so many interface
/// blocks that their numbers run out.
pub proof fn valid_modules_are_written(writer: Writer<'_>)
    requires
        is_valid(writer),
    ensures
        writer.module_output().status is Invalid ==> writer.module_output().next_id >= u32::MAX,
{
    let env = writer.env;
    let nodes = graph_nodes(writer.call_graph);
    let order = writer.function_order()->0;
    let o1 = writer.declared();
    valid_pieces_are_rendered(
        env,
        None,
        writer.state(),
        declaration_pieces(env, *writer.entry_point),
    );
    valid_functions_are_written(env, o1, nodes, order, order.len());
    let o2 = functions_output(env, o1, nodes, order, order.len());
    let ty = FunctionType::EntryPoint(writer.entry_point_idx);
    valid_function_is_written(env, o2, ty, writer.entry_point.function, "main"@);
    if !(o1.status is Running) {
        assert(functions_output(env, o1, nodes, order, 0) == o1);
        functions_change_nothing_after_a_stop(env, o1, nodes, order, 0, order.len());
    }
    if !(o2.status is Running) {
        function_changes_nothing_after_a_stop(env, o2, ty, writer.entry_point.function, "main"@);
    }
}

/// A visitor doesn't find named globals invalid.
proof fn named_textures_are_mapped(start: TextureModel, visits: Seq<Expression>)
    requires
        !start.invalid,
        forall|i: int|
            0 <= i < visits.len() && uses_texture(#[trigger] visits[i]) ==> texture_use(
                start.names,
                start.expressions,
                visits[i],
            ) is Some,
    ensures
        ({
            let end = after_all::<TextureMappingVisitor<'_>>(start, visits);
            !end.invalid && end.names == start.names && end.expressions == start.expressions
        }),
    decreases visits.len(),
{
    if visits.len() > 0 {
        let first = visits.drop_last();
        assert forall|i: int| 0 <= i < first.len() && uses_texture(
            #[trigger] first[i],
        ) implies texture_use(start.names, start.expressions, first[i]) is Some by {
            assert(first[i] == visits[i]);
        }
        named_textures_are_mapped(start, first);
        assert(uses_texture(visits[visits.len() - 1]) ==> texture_use(
            start.names,
            start.expressions,
            visits[visits.len() - 1],
        ) is Some);
    }
}

/// A further valid function isn't found invalid.
proof fn valid_function_textures_are_mapped(env: Env<'_>, before: Textures, func: Function)
    requires
        !(before is Invalid),
        function_textures_are_valid(env, func),
    ensures
        !(with_function_textures(before, env.analysis.names, func) is Invalid),
{
    if let Textures::Mapped(map) = before {
        let start = TextureModel {
            names: env.analysis.names,
            expressions: func.expressions,
            map,
            multiple: false,
            invalid: false,
        };
        named_textures_are_mapped(start, function_visits(func)->0);
    }
}

/// The textures of valid functions aren't found invalid.
proof fn valid_node_textures_are_mapped(writer: Writer<'_>, count: nat)
    requires
        textures_are_valid(writer),
        count <= graph_nodes(writer.call_graph).len(),
    ensures
        !(node_textures(writer.env, graph_nodes(writer.call_graph), count) is Invalid),
    decreases count,
{
    if count > 0 {
        valid_node_textures_are_mapped(writer, (count - 1) as nat);
        let nodes = graph_nodes(writer.call_graph);
        let func = written_functions(writer)[count - 1];
        assert(nodes[count - 1] < writer.env.module.functions@.len());
        assert(func == writer.env.module.functions@[nodes[count - 1] as int]);
        let before = node_textures(writer.env, nodes, (count - 1) as nat);
        valid_function_textures_are_mapped(writer.env, before, func);
    }
}

/// The textures of a module that uses only named globals as textures and samplers are mapped or
/// rejected, and never found invalid.
pub proof fn valid_textures_are_mapped(writer: Writer<'_>)
    requires
        textures_are_valid(writer),
    ensures
        !(writer.module_textures() is Invalid),
{
    let nodes = graph_nodes(writer.call_graph);
    valid_node_textures_are_mapped(writer, nodes.len());
    let func = written_functions(writer)[nodes.len() as int];
    assert(func == writer.entry_point.function);
    valid_function_textures_are_mapped(
        writer.env,
        node_textures(writer.env, nodes, nodes.len()),
        func,
    );
}

/// Expressions whose operands come before them can be visited.
proof fn valid_expression_is_visited(
    expressions: Arena<Expression>,
    expr: Handle<Expression>,
    depth: nat,
)
    requires
        operands_are_valid(expressions),
        expressions.has(expr),
        expr.index < depth,
    ensures
        expr_visits(expressions, expr, depth) is Some,
    decreases depth, 0nat,
{
    let list = operands(expressions.at(expr));
    valid_list_is_visited(expressions, list, list.len(), (depth - 1) as nat);
}

/// Lists of expressions whose operands come before them can be visited.
proof fn valid_list_is_visited(
    expressions: Arena<Expression>,
    list: Seq<Handle<Expression>>,
    count: nat,
    depth: nat,
)
    requires
        operands_are_valid(expressions),
        count <= list.len(),
        forall|i: int|
            0 <= i < list.len() ==> expressions.has(#[trigger] list[i]) && list[i].index < depth,
    ensures
        list_visits(expressions, list, count, depth) is Some,
    decreases depth, count + 1,
{
    if count > 0 {
        valid_list_is_visited(expressions, list, (count - 1) as nat, depth);
        valid_expression_is_visited(expressions, list[count - 1], depth);
    }
}

/// Valid statements can be visited.
proof fn valid_statement_is_visited(ctx: FunctionCtx<'_>, sta: Statement, indent: nat)
    requires
        operands_are_valid(*ctx.expressions),
        stmt_is_valid(ctx, sta, indent),
    ensures
        stmt_visits(*ctx.expressions, sta) is Some,
    decreases sta, 0nat,
{
    let expressions = *ctx.expressions;
    let depth = expressions@.len();
    match sta {
        Statement::Block(block) => {
            valid_block_is_visited(ctx, block@, block@.len(), indent + 1);
        },
        Statement::If { condition, accept, reject } => {
            valid_expression_is_visited(expressions, condition, depth);
            valid_block_is_visited(ctx, accept@, accept@.len(), indent + 1);
            valid_block_is_visited(ctx, reject@, reject@.len(), indent + 1);
        },
        Statement::Switch { selector, cases, default } => {
            valid_expression_is_visited(expressions, selector, depth);
            valid_cases_are_visited(ctx, cases@, cases@.len(), indent + 2);
            valid_block_is_visited(ctx, default@, default@.len(), indent + 2);
        },
        Statement::Loop { body, continuing } => {
            valid_block_is_visited(ctx, body@, body@.len(), indent + 1);
            valid_block_is_visited(ctx, continuing@, continuing@.len(), indent + 1);
        },
        Statement::Return { value: Some(expr) } => {
            valid_expression_is_visited(expressions, expr, depth);
        },
        Statement::Store { pointer, value } => {
            valid_expression_is_visited(expressions, pointer, depth);
            valid_expression_is_visited(expressions, value, depth);
        },
        _ => {},
    }
}

/// Valid blocks can be visited.
proof fn valid_block_is_visited(
    ctx: FunctionCtx<'_>,
    block: Seq<Statement>,
    count: nat,
    indent: nat,
)
    requires
        operands_are_valid(*ctx.expressions),
        block_is_valid(ctx, block, count, indent),
    ensures
        block_visits(*ctx.expressions, block, count) is Some,
    decreases block, count,
{
    if 0 < count <= block.len() {
        valid_block_is_visited(ctx, block, (count - 1) as nat, indent);
        valid_statement_is_visited(ctx, block[count - 1], indent);
    }
}

/// Valid cases can be visited.
proof fn valid_cases_are_visited(
    ctx: FunctionCtx<'_>,
    cases: Seq<SwitchCase>,
    count: nat,
    indent: nat,
)
    requires
        operands_are_valid(*ctx.expressions),
        cases_are_valid(ctx, cases, count, indent),
    ensures
        cases_visits(*ctx.expressions, cases, count) is Some,
    decreases cases, count,
{
    if 0 < count <= cases.len() {
        let body = cases[count - 1].body@;
        valid_cases_are_visited(ctx, cases, (count - 1) as nat, indent);
        valid_block_is_visited(ctx, body, body.len(), indent);
    }
}

/// A function whose statements refer only to its expressions, and whose expressions refer only to
/// expressions before them, can be visited.
pub proof fn valid_functions_can_be_visited(ctx: FunctionCtx<'_>, func: Function)
    requires
        *ctx.expressions == func.expressions,
        operands_are_valid(func.expressions),
        block_is_valid(ctx, func.body@, func.body@.len(), 1),
    ensures
        function_visits(func) is Some,
{
    valid_block_is_visited(ctx, func.body@, func.body@.len(), 1);
}

/// A valid module is written or rejected, and never found invalid, if the numbers of its interface
/// blocks don't run out.
pub proof fn valid_modules_are_accepted_or_rejected(writer: Writer<'_>)
    requires
        is_valid(writer),
        textures_are_valid(writer),
        writer.module_output().next_id < u32::MAX,
    ensures
        !(writer.status() is Invalid),
{
    valid_modules_are_written(writer);
    valid_textures_are_mapped(writer);
}

/// The functions of a module without recursion have an order.
pub proof fn modules_without_recursion_have_an_order<'a>(
    writer: Writer<'a>,
    module: &'a Module,
    options: &'a Options,
    analysis: &'a Analysis,
)
    requires
        writer.is_new(module, options, analysis),
        writer.order_is_sound(),
        forall|walk: Seq<usize>| !is_recursion(*module, walk),
    ensures
        writer.function_order() is Some,
{
    if writer.function_order() is None {
        cycles_are_recursions(*module, writer.entry_point.function, model_of(writer.call_graph));
    }
}

/// The position in the module of the function of a node.
pub open spec fn node_position(writer: Writer<'_>, node: u32) -> usize {
    graph_nodes(writer.call_graph)[node as int]
}

/// A new writer writes every function that its entry point needs exactly once, and after all the
/// functions that it calls. The functions are those of the nodes in the order of
/// [`function_order`](Writer::function_order).
pub proof fn functions_are_written_before_their_callers<'a>(
    writer: Writer<'a>,
    module: &'a Module,
    options: &'a Options,
    analysis: &'a Analysis,
    order: Seq<u32>,
)
    requires
        writer.is_new(module, options, analysis),
        writer.order_is_sound(),
        writer.function_order() == Some(order),
    ensures
        forall|i: int, j: int|
            0 <= i < order.len() && 0 <= j < order.len() && i != j ==> node_position(
                writer,
                #[trigger] order[i],
            ) != node_position(writer, #[trigger] order[j]),
        forall|function: usize| #[trigger]
            is_needed(*module, writer.entry_point.function, function) ==> exists|i: int|
                0 <= i < order.len() && node_position(writer, #[trigger] order[i]) == function,
        forall|j: int, callee: usize|
            0 <= j < order.len() && #[trigger] calls(
                *module,
                node_position(writer, order[j]),
                callee,
            ) ==> exists|i: int|
                0 <= i < j && node_position(writer, #[trigger] order[i]) == callee,
{
    let graph = model_of(writer.call_graph);
    let entry = writer.entry_point.function;
    functions_come_before_their_callers(*module, entry, graph, order);
    assert forall|function: usize| #[trigger] is_needed(*module, entry, function) implies exists|
        i: int,
    |
        0 <= i < order.len() && node_position(writer, #[trigger] order[i]) == function by {
        let i = choose|i: int|
            0 <= i < order.len() && graph.nodes[#[trigger] order[i] as int] == function;
        assert(node_position(writer, order[i]) == function);
    }
    assert forall|j: int, callee: usize|
        0 <= j < order.len() && #[trigger] calls(
            *module,
            node_position(writer, order[j]),
            callee,
        ) implies exists|i: int|
        0 <= i < j && node_position(writer, #[trigger] order[i]) == callee by {
        assert(calls(*module, graph.nodes[order[j] as int], callee));
        let i = choose|i: int|
            0 <= i < j && graph.nodes[#[trigger] order[i] as int] == callee;
        assert(node_position(writer, order[i]) == callee);
    }
}

} // verus!
