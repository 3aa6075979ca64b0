//! The output of the writer, and the pieces that it is put together from.
use crate::arena::Handle;
use crate::describe::{
    cannot_apply_not, cannot_apply_not_words, cannot_bitcast, cannot_bitcast_words, cannot_index,
    cannot_index_words,
};
use crate::error::{Error, ErrorView};
use crate::ir::{Bytes, Constant, Expression, ScalarKind, Type, TypeInner};
use crate::text::{decimal, signed_decimal};
use vstd::prelude::*;

verus! {

/// Whether writing goes on.
pub enum Status {
    /// Everything so far has been written.
    Running,
    /// The writer has rejected the module.
    Failed(ErrorView),
    /// The module has turned out to be invalid.
    Invalid,
}

/// What has been written so far.
pub struct Output {
    /// The text.
    pub text: Seq<char>,
    /// The number that the next interface block gets.
    pub next_id: nat,
    /// Whether writing goes on.
    pub status: Status,
}

impl Output {
    /// Adds `piece` at the end, unless writing has stopped.
    pub open spec fn put(self, piece: Seq<char>) -> Output {
        if self.status is Running {
            Output { text: self.text + piece, ..self }
        } else {
            self
        }
    }

    /// Adds the number of an interface block at the end, unless writing has stopped. The numbers
    /// are those of a `u32` that mustn't overflow.
    pub open spec fn put_id(self) -> Output {
        if self.status is Running {
            if self.next_id < u32::MAX {
                Output {
                    text: self.text + decimal(self.next_id),
                    next_id: self.next_id + 1,
                    ..self
                }
            } else {
                self.invalid()
            }
        } else {
            self
        }
    }

    /// Rejects the module, unless writing has stopped.
    pub open spec fn fail(self, error: ErrorView) -> Output {
        if self.status is Running {
            Output { status: Status::Failed(error), ..self }
        } else {
            self
        }
    }

    /// Finds the module invalid, unless writing has stopped.
    pub open spec fn invalid(self) -> Output {
        if self.status is Running {
            Output { status: Status::Invalid, ..self }
        } else {
            self
        }
    }
}

/// A piece of glsl source.
pub enum Piece {
    /// This very text.
    Text(Seq<char>),
    /// A number that no other interface block has.
    FreshId,
    /// A type.
    Type(Handle<Type>),
    /// A constant.
    Constant(Handle<Constant>),
    /// An expression.
    Expr(Handle<Expression>),
    /// Nothing: here the writer rejects the module.
    Fail(ErrorView),
    /// Nothing: here the module turns out to be invalid.
    Invalid,
}

/// A name, which must be there.
pub open spec fn name_piece(name: Option<Seq<char>>) -> Piece {
    match name {
        Some(s) => Piece::Text(s),
        None => Piece::Invalid,
    }
}

/// The items of a list, separated by commas. There is no comma before the first or after the last
/// item.
pub open spec fn separated(items: Seq<Seq<Piece>>) -> Seq<Piece>
    decreases items.len(),
{
    if items.len() == 0 {
        Seq::empty()
    } else if items.len() == 1 {
        items[0]
    } else {
        separated(items.drop_last()).push(Piece::Text(", "@)) + items.last()
    }
}

/// Why the writer rejects an expression or a type.
#[derive(Clone, Copy)]
pub enum Failure<'a> {
    CannotIndex(&'a TypeInner),
    CannotApplyNot(&'a TypeInner),
    CannotBitcast(ScalarKind, ScalarKind),
    UnsupportedScalar(ScalarKind, Bytes),
    PatchInterpolation,
}

impl<'a> Failure<'a> {
    /// What the error says.
    pub open spec fn view(self) -> ErrorView {
        match self {
            Failure::CannotIndex(inner) => ErrorView::Custom(cannot_index_words(*inner)),
            Failure::CannotApplyNot(inner) => ErrorView::Custom(cannot_apply_not_words(*inner)),
            Failure::CannotBitcast(source, target) => ErrorView::Custom(
                cannot_bitcast_words(source, target),
            ),
            Failure::UnsupportedScalar(kind, width) => ErrorView::UnsupportedScalar(kind, width),
            Failure::PatchInterpolation => ErrorView::PatchInterpolationNotSupported,
        }
    }

    /// The error.
    pub fn error(self) -> (error: Error)
        ensures
            error@ == self.view(),
    {
        match self {
            Failure::CannotIndex(inner) => Error::Custom(cannot_index(inner)),
            Failure::CannotApplyNot(inner) => Error::Custom(cannot_apply_not(inner)),
            Failure::CannotBitcast(source, target) => Error::Custom(cannot_bitcast(source, target)),
            Failure::UnsupportedScalar(kind, width) => Error::UnsupportedScalar(kind, width),
            Failure::PatchInterpolation => Error::PatchInterpolationNotSupported,
        }
    }
}

/// A [`Piece`], ready to be written.
#[derive(Clone, Copy)]
pub enum Part<'a> {
    Text(&'a str),
    Decimal(u64),
    Signed(i64),
    FreshId,
    Type(Handle<Type>),
    Constant(Handle<Constant>),
    Expr(Handle<Expression>),
    Fail(Failure<'a>),
    Invalid,
}

impl<'a> Part<'a> {
    /// The piece that this stands for.
    pub open spec fn view(self) -> Piece {
        match self {
            Part::Text(s) => Piece::Text(s@),
            Part::Decimal(n) => Piece::Text(decimal(n as nat)),
            Part::Signed(n) => Piece::Text(signed_decimal(n as int)),
            Part::FreshId => Piece::FreshId,
            Part::Type(ty) => Piece::Type(ty),
            Part::Constant(constant) => Piece::Constant(constant),
            Part::Expr(expr) => Piece::Expr(expr),
            Part::Fail(failure) => Piece::Fail(failure.view()),
            Part::Invalid => Piece::Invalid,
        }
    }
}

/// A growing list of pieces.
pub struct Parts<'a> {
    pub items: Vec<Part<'a>>,
}

impl<'a> View for Parts<'a> {
    type V = Seq<Piece>;

    open spec fn view(&self) -> Seq<Piece> {
        Seq::new(self.items@.len(), |i: int| self.items@[i].view())
    }
}

/// The pieces of each item of a list.
pub open spec fn items_view<'a>(items: Seq<Parts<'a>>) -> Seq<Seq<Piece>> {
    Seq::new(items.len(), |i: int| items[i]@)
}

impl<'a> Parts<'a> {
    /// No pieces.
    pub fn new() -> (parts: Self)
        ensures
            parts@ == Seq::<Piece>::empty(),
    {
        let parts = Parts { items: Vec::new() };
        assert(parts@ =~= Seq::<Piece>::empty());
        parts
    }

    /// Adds a piece.
    pub fn push(&mut self, part: Part<'a>)
        ensures
            final(self)@ == old(self)@.push(part.view()),
    {
        self.items.push(part);
        assert(self@ =~= old(self)@.push(part.view()));
    }

    /// Adds a text.
    pub fn text(&mut self, text: &'a str)
        ensures
            final(self)@ == old(self)@.push(Piece::Text(text@)),
    {
        self.push(Part::Text(text));
    }

    /// Adds a numeral.
    pub fn decimal(&mut self, n: u64)
        ensures
            final(self)@ == old(self)@.push(Piece::Text(decimal(n as nat))),
    {
        self.push(Part::Decimal(n));
    }

    /// Adds a type.
    pub fn ty(&mut self, ty: Handle<Type>)
        ensures
            final(self)@ == old(self)@.push(Piece::Type(ty)),
    {
        self.push(Part::Type(ty));
    }

    /// Adds a constant.
    pub fn constant(&mut self, constant: Handle<Constant>)
        ensures
            final(self)@ == old(self)@.push(Piece::Constant(constant)),
    {
        self.push(Part::Constant(constant));
    }

    /// Adds an expression.
    pub fn expr(&mut self, expr: Handle<Expression>)
        ensures
            final(self)@ == old(self)@.push(Piece::Expr(expr)),
    {
        self.push(Part::Expr(expr));
    }

    /// Rejects the module.
    pub fn fail(&mut self, failure: Failure<'a>)
        ensures
            final(self)@ == old(self)@.push(Piece::Fail(failure.view())),
    {
        self.push(Part::Fail(failure));
    }

    /// Finds the module invalid.
    pub fn invalid(&mut self)
        ensures
            final(self)@ == old(self)@.push(Piece::Invalid),
    {
        self.push(Part::Invalid);
    }

    /// Adds a name, which must be there.
    pub fn name(&mut self, name: Option<&'a String>)
        ensures
            final(self)@ == old(self)@.push(
                name_piece(
                    match name {
                        Some(s) => Some(s@),
                        None => None,
                    },
                ),
            ),
    {
        match name {
            Some(s) => self.push(Part::Text(s.as_str())),
            None => self.push(Part::Invalid),
        }
    }

    /// Adds all of `other`.
    pub fn append(&mut self, other: &Parts<'a>)
        ensures
            final(self)@ == old(self)@ + other@,
    {
        assert(self@ =~= old(self)@ + other@.take(0));
        for i in 0..other.items.len()
            invariant
                self@ == old(self)@ + other@.take(i as int),
        {
            self.push(other.items[i]);
            assert(self@ =~= old(self)@ + other@.take(i + 1));
        }
        assert(other@.take(other.items@.len() as int) =~= other@);
    }

    /// Adds a list of comma separated items
    ///
    /// # Notes
    /// - Adds no newlines or leading/trailing whitespaces
    /// - The last element won't have a trailing `,`
    pub fn write_slice(&mut self, items: &Vec<Parts<'a>>)
        ensures
            final(self)@ == old(self)@ + separated(items_view(items@)),
    {
        let ghost view = items_view(items@);
        assert(self@ =~= old(self)@ + separated(view.take(0)));
        for i in 0..items.len()
            invariant
                view == items_view(items@),
                self@ == old(self)@ + separated(view.take(i as int)),
        {
            let ghost before = self@;
            assert(view.take(i + 1).drop_last() =~= view.take(i as int));
            assert(view.take(i + 1).last() == items@[i as int]@);
            if i > 0 {
                self.text(", ");
            }
            self.append(&items[i]);
            assert(self@ =~= old(self)@ + separated(view.take(i + 1)));
        }
        assert(view.take(items@.len() as int) =~= view);
    }
}

} // verus!
