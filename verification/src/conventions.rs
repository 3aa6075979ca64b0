//! Conventions that everything written keeps to: operators are wrapped in parentheses, pointers
//! leave no trace, interface blocks have names of their own, and globals that aren't used aren't
//! declared.
use crate::arena::{handle_at, Handle};
use crate::context::{Env, FunctionCtx};
use crate::declarations::{all_global_pieces, any_global_pieces};
use crate::expressions::expr_pieces;
use crate::growth::{appended, further_pieces_grow, grown};
use crate::ir::{Binding, Expression, GlobalUse, GlobalVariable, Type, TypeInner};
use crate::names::NameKey;
use crate::output::{Output, Piece};
use crate::render::{
    expr_output, full_depth, piece_output, pieces_change_nothing_after_a_stop, pieces_output,
    type_output, Depth,
};
use crate::text::{decimal, decimal_has_only_digits, decimal_is_injective};
use crate::types::type_pieces;
use vstd::prelude::*;

verus! {

/// Unary operators, binary operators and selections start with an opening parenthesis and end with
/// a closing one, unless they are rejected or invalid.
pub proof fn operators_are_wrapped(env: Env<'_>, ctx: FunctionCtx<'_>, expr: Expression)
    requires
        expr is Unary || expr is Binary || expr is Select,
    ensures
        ({
            let pieces = expr_pieces(env, ctx, expr);
            ||| pieces.len() > 1 && pieces.first() == Piece::Text("("@) && pieces.last()
                == Piece::Text(")"@)
            ||| pieces.len() == 1 && (pieces[0] is Fail || pieces[0] is Invalid)
        }),
{
}

/// A single piece is written as it is.
proof fn single_piece_is_written(
    env: Env<'_>,
    ctx: Option<FunctionCtx<'_>>,
    o: Output,
    piece: Piece,
    depth: Depth,
)
    ensures
        pieces_output(env, ctx, o, seq![piece], 1, depth) == piece_output(
            env,
            ctx,
            o,
            piece,
            depth,
        ),
{
    assert(pieces_output(env, ctx, o, seq![piece], 0, depth) == o);
}

/// A load is written as its pointer, since there are no pointers in glsl.
pub proof fn loads_are_written_as_pointers(
    env: Env<'_>,
    ctx: FunctionCtx<'_>,
    o: Output,
    expr: Handle<Expression>,
    pointer: Handle<Expression>,
    depth: Depth,
)
    requires
        o.status is Running,
        ctx.expressions.has(expr),
        ctx.expressions.at(expr) == (Expression::Load { pointer }),
        depth.exprs > 0,
    ensures
        expr_output(env, Some(ctx), o, expr, depth) == expr_output(
            env,
            Some(ctx),
            o,
            pointer,
            (Depth { exprs: (depth.exprs - 1) as usize, ..full_depth(env, Some(ctx)) }),
        ),
{
    let inner = Depth { exprs: (depth.exprs - 1) as usize, ..full_depth(env, Some(ctx)) };
    single_piece_is_written(env, Some(ctx), o, Piece::Expr(pointer), inner);
    assert(piece_output(env, Some(ctx), o, Piece::Expr(pointer), inner) == expr_output(
        env,
        Some(ctx),
        o,
        pointer,
        inner,
    ));
}

/// A pointer type is written as the type that it points to, since there are no pointers in glsl.
pub proof fn pointers_are_written_as_bases(
    env: Env<'_>,
    ctx: Option<FunctionCtx<'_>>,
    o: Output,
    ty: Handle<Type>,
    base: Handle<Type>,
    depth: Depth,
)
    requires
        o.status is Running,
        env.module.types.has(ty),
        env.module.types.at(ty).inner matches TypeInner::Pointer { base: b, .. } && b == base,
        depth.types > 0,
    ensures
        type_output(env, ctx, o, ty, depth) == type_output(
            env,
            ctx,
            o,
            base,
            (Depth { types: (depth.types - 1) as usize, ..depth }),
        ),
{
    let inner = Depth { types: (depth.types - 1) as usize, ..depth };
    assert(type_pieces(env, ty) =~= seq![Piece::Type(base)]);
    single_piece_is_written(env, ctx, o, Piece::Type(base), inner);
    assert(piece_output(env, ctx, o, Piece::Type(base), inner) == type_output(
        env,
        ctx,
        o,
        base,
        inner,
    ));
}

/// The name of an interface block: the name of the struct, then its number.
pub open spec fn block_name(name: Seq<char>, id: nat) -> Seq<char> {
    name + "_block_"@ + decimal(id)
}

/// The last underscore of the name of an interface block stands before its number.
proof fn number_follows_last_underscore(name: Seq<char>, id: nat)
    ensures
        ({
            let whole = block_name(name, id);
            let start = whole.len() - decimal(id).len();
            &&& start >= 1
            &&& whole[start - 1] == '_'
            &&& whole.skip(start) == decimal(id)
            &&& forall|i: int| start <= i < whole.len() ==> #[trigger] whole[i] != '_'
        }),
{
    reveal_strlit("_block_");
    decimal_has_only_digits(id);
    let whole = block_name(name, id);
    let start = whole.len() - decimal(id).len();
    assert(whole.skip(start) =~= decimal(id));
    assert forall|i: int| start <= i < whole.len() implies #[trigger] whole[i] != '_' by {
        assert(whole[i] == decimal(id)[i - start]);
    }
}

/// Interface blocks with different numbers have different names, whatever their structs are called.
pub proof fn block_names_differ(first: Seq<char>, i: nat, second: Seq<char>, j: nat)
    requires
        i != j,
    ensures
        block_name(first, i) != block_name(second, j),
{
    let a = block_name(first, i);
    let b = block_name(second, j);
    if a == b {
        number_follows_last_underscore(first, i);
        number_follows_last_underscore(second, j);
        let s = a.len() - decimal(i).len();
        let t = b.len() - decimal(j).len();
        assert(s == t) by {
            if s < t {
                assert(a[t - 1] != '_');
            } else if t < s {
                assert(b[s - 1] != '_');
            }
        }
        assert(decimal(i) == decimal(j));
        decimal_is_injective(i, j);
    }
}

/// A block that is numbered later has another name than one that was numbered before.
pub proof fn later_blocks_have_other_names(
    earlier: Output,
    later: Output,
    first: Seq<char>,
    second: Seq<char>,
)
    requires
        earlier.next_id < later.next_id,
    ensures
        block_name(first, earlier.next_id) != block_name(second, later.next_id),
{
    block_names_differ(first, earlier.next_id, second, later.next_id);
}

/// The type of an interface block starts with its name, which has the next number, and an opening
/// brace. The number is used up.
pub proof fn blocks_are_written_under_their_names(
    env: Env<'_>,
    ctx: Option<FunctionCtx<'_>>,
    o: Output,
    ty: Handle<Type>,
    depth: Depth,
)
    requires
        o.status is Running,
        env.module.types.has(ty),
        env.module.types.at(ty).inner matches TypeInner::Struct { block, .. } && block,
        type_output(env, ctx, o, ty, depth).status is Running,
    ensures
        ({
            let after = type_output(env, ctx, o, ty, depth);
            &&& env.analysis.names.lookup(NameKey::Type(ty)) matches Some(name) && {
                let start = block_name(name, o.next_id) + " {\n"@;
                &&& appended(o, after).len() >= start.len()
                &&& appended(o, after).take(start.len() as int) == start
            }
            &&& o.next_id < after.next_id
            &&& grown(o, after)
        }),
{
    let after = type_output(env, ctx, o, ty, depth);
    let pieces = type_pieces(env, ty);
    let inner = Depth { types: (depth.types - 1) as usize, ..depth };
    let piece = pieces[0];
    let o1 = piece_output(env, ctx, o, piece, inner);
    assert(pieces_output(env, ctx, o, pieces, 0, inner) == o);
    assert(pieces_output(env, ctx, o, pieces, 1, inner) == o1);
    further_pieces_grow(env, ctx, o, pieces, 4, pieces.len(), inner);
    if !(o1.status is Running) {
        pieces_change_nothing_after_a_stop(env, ctx, o, pieces, 1, pieces.len(), inner);
    }
    let name = piece->Text_0;
    assert(o1 == o.put(name));
    let o2 = o1.put("_block_"@);
    assert(piece_output(env, ctx, o1, pieces[1], inner) == o2);
    assert(pieces_output(env, ctx, o, pieces, 2, inner) == o2);
    let o3 = o2.put_id();
    assert(piece_output(env, ctx, o2, pieces[2], inner) == o3);
    assert(pieces_output(env, ctx, o, pieces, 3, inner) == o3);
    if !(o3.status is Running) {
        pieces_change_nothing_after_a_stop(env, ctx, o, pieces, 3, pieces.len(), inner);
    }
    let o4 = o3.put(" {\n"@);
    assert(piece_output(env, ctx, o3, pieces[3], inner) == o4);
    assert(pieces_output(env, ctx, o, pieces, 4, inner) == o4);
    let start = block_name(name, o.next_id) + " {\n"@;
    assert(o4.text =~= o.text + start);
    assert(grown(o4, after));
    assert forall|i: int| 0 <= i < start.len() implies #[trigger] appended(o, after)[i] == start[i] by {
        assert(after.text[o.text.len() + i] == o4.text[o.text.len() + i]);
    }
    assert(appended(o, after).take(start.len() as int) =~= start);
    assert forall|i: int| 0 <= i < o.text.len() implies #[trigger] after.text[i] == o.text[i] by {
        assert(after.text[i] == o4.text[i]);
    }
}

/// Only the globals that the entry point uses have an influence on what is declared: two modules
/// whose used globals are the same have the same declarations of globals.
pub proof fn unused_globals_are_not_declared(
    first: Env<'_>,
    second: Env<'_>,
    usage: Seq<GlobalUse>,
    count: nat,
)
    requires
        first.options == second.options,
        first.analysis == second.analysis,
        first.module.types == second.module.types,
        forall|i: int|
            0 <= i < count && !usage[i].is_empty() ==> #[trigger] first.module.global_variables.at(
                handle_at(i),
            ) == second.module.global_variables.at(handle_at(i)),
    ensures
        all_global_pieces(first, usage, count) == all_global_pieces(second, usage, count),
    decreases count,
{
    if count > 0 {
        unused_globals_are_not_declared(first, second, usage, (count - 1) as nat);
        if !usage[count - 1].is_empty() {
            assert(first.module.global_variables.at(handle_at(count - 1))
                == second.module.global_variables.at(handle_at(count - 1)));
            assert(any_global_pieces(first, handle_at(count - 1)) == any_global_pieces(
                second,
                handle_at(count - 1),
            ));
        }
    }
}

/// Builtins and samplers aren't declared.
pub proof fn builtins_and_samplers_are_not_declared(
    env: Env<'_>,
    handle: Handle<GlobalVariable>,
)
    requires
        ({
            let global = env.module.global_variables.at(handle);
            ||| global.binding matches Some(Binding::BuiltIn(_))
            ||| env.module.types.has(global.ty) && env.module.types.at(global.ty).inner is Sampler
        }),
    ensures
        any_global_pieces(env, handle) == Seq::<Piece>::empty(),
{
}

} // verus!
