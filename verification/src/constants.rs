//! How constants are written.
use crate::arena::Handle;
use crate::describe::{bool_str, bool_words};
use crate::ir::{Constant, ConstantInner};
use crate::output::{items_view, separated, Part, Parts, Piece};
use crate::text::{decimal, signed_decimal};
use vstd::prelude::*;

verus! {

/// Each of `constants` as the item of a list.
pub open spec fn constant_items(constants: Seq<Handle<Constant>>) -> Seq<Seq<Piece>> {
    Seq::new(constants.len(), |i: int| seq![Piece::Constant(constants[i])])
}

/// How a constant is written.
///
/// - signed integers and floats as they are
/// - unsigned integers with a `u` at the end, which `es` needs and `core` allows
/// - booleans as `true` or `false`
/// - composites as `type(components)`, where `components` is a comma separated list of constants
pub open spec fn constant_pieces(constant: Constant) -> Seq<Piece> {
    match constant.inner {
        ConstantInner::Sint(n) => seq![Piece::Text(signed_decimal(n as int))],
        ConstantInner::Uint(n) => seq![Piece::Text(decimal(n as nat)), Piece::Text("u"@)],
        ConstantInner::Float(literal) => seq![Piece::Text(literal@)],
        ConstantInner::Bool(b) => seq![Piece::Text(bool_words(b))],
        ConstantInner::Composite(components) => (seq![
            Piece::Type(constant.ty),
            Piece::Text("("@),
        ] + separated(constant_items(components@))).push(Piece::Text(")"@)),
    }
}

/// Adds a comma separated list of constants.
fn add_constants<'a>(parts: &mut Parts<'a>, constants: &Vec<Handle<Constant>>)
    ensures
        final(parts)@ == old(parts)@ + separated(constant_items(constants@)),
{
    let mut items: Vec<Parts<'a>> = Vec::new();
    for i in 0..constants.len()
        invariant
            items@.len() == i,
            forall|j: int|
                0 <= j < i ==> (#[trigger] items@[j])@ == seq![Piece::Constant(constants@[j])],
    {
        let mut item = Parts::new();
        item.constant(constants[i]);
        items.push(item);
    }
    assert(items_view(items@) =~= constant_items(constants@));
    parts.write_slice(&items);
}

/// The pieces of a constant.
pub fn constant_parts<'a>(constant: &'a Constant) -> (parts: Parts<'a>)
    ensures
        parts@ == constant_pieces(*constant),
{
    let mut parts = Parts::new();
    match &constant.inner {
        ConstantInner::Sint(n) => parts.push(Part::Signed(*n)),
        ConstantInner::Uint(n) => {
            parts.decimal(*n);
            parts.text("u");
        },
        ConstantInner::Float(literal) => parts.text(literal.as_str()),
        ConstantInner::Bool(b) => parts.text(bool_str(*b)),
        ConstantInner::Composite(components) => {
            parts.ty(constant.ty);
            parts.text("(");
            add_constants(&mut parts, components);
            parts.text(")");
        },
    }
    parts
}

} // verus!
