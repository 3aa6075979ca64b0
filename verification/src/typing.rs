//! The types of expressions.
use crate::arena::{Arena, Handle};
use crate::ir::{Expression, Type, TypeInner};
use vstd::prelude::*;

verus! {

/// Why the types of a function's expressions couldn't be resolved.
#[derive(Debug)]
pub struct ResolveError {
    pub reason: String,
}

impl ResolveError {
    /// A copy of the error.
    pub fn duplicate(&self) -> (copy: ResolveError)
        ensures
            copy.reason@ == self.reason@,
    {
        ResolveError { reason: self.reason.clone() }
    }
}

/// The type of an expression.
#[derive(Debug)]
pub enum Resolution {
    /// A type that the module declares.
    Handle(Handle<Type>),
    /// A type that the module doesn't declare.
    Value(TypeInner),
}

/// The types of all the expressions of a function, in the order of its arena.
#[derive(Debug)]
pub struct Typifier {
    pub resolutions: Vec<Resolution>,
}

impl Typifier {
    /// The type of `expr`, if it has been resolved.
    pub open spec fn type_of(self, expr: Handle<Expression>, types: Arena<Type>) -> Option<
        TypeInner,
    > {
        if expr.index < self.resolutions@.len() {
            match self.resolutions@[expr.index as int] {
                Resolution::Handle(ty) => if types.has(ty) {
                    Some(types.at(ty).inner)
                } else {
                    None
                },
                Resolution::Value(inner) => Some(inner),
            }
        } else {
            None
        }
    }

    /// The declared type of `expr`, if it has one.
    pub open spec fn declared_type_of(self, expr: Handle<Expression>) -> Option<Handle<Type>> {
        if expr.index < self.resolutions@.len() {
            match self.resolutions@[expr.index as int] {
                Resolution::Handle(ty) => Some(ty),
                Resolution::Value(_) => None,
            }
        } else {
            None
        }
    }

    /// The type of `expr`, if it has been resolved.
    pub fn get<'a>(&'a self, expr: Handle<Expression>, types: &'a Arena<Type>) -> (inner: Option<
        &'a TypeInner,
    >)
        ensures
            match inner {
                Some(t) => self.type_of(expr, *types) == Some(*t),
                None => self.type_of(expr, *types) is None,
            },
    {
        if expr.index < self.resolutions.len() {
            match &self.resolutions[expr.index] {
                Resolution::Handle(ty) => match types.try_get(*ty) {
                    Some(t) => Some(&t.inner),
                    None => None,
                },
                Resolution::Value(inner) => Some(inner),
            }
        } else {
            None
        }
    }

    /// The declared type of `expr`, if it has one.
    pub fn get_handle(&self, expr: Handle<Expression>) -> (ty: Option<Handle<Type>>)
        ensures
            ty == self.declared_type_of(expr),
    {
        if expr.index < self.resolutions.len() {
            match &self.resolutions[expr.index] {
                Resolution::Handle(ty) => Some(*ty),
                Resolution::Value(_) => None,
            }
        } else {
            None
        }
    }
}

} // verus!
