//! The names that the items of a module are written with.
use crate::arena::Handle;
use crate::ir::{Function, GlobalVariable, LocalVariable, Type};
use vstd::prelude::*;

verus! {

/// Position of an entry point among the entry points of its module.
pub type EntryPointIndex = u16;

/// What a name belongs to.
pub enum NameKey {
    GlobalVariable(Handle<GlobalVariable>),
    Type(Handle<Type>),
    StructMember(Handle<Type>, u32),
    Function(Handle<Function>),
    FunctionArgument(Handle<Function>, u32),
    FunctionLocal(Handle<Function>, Handle<LocalVariable>),
    EntryPointLocal(EntryPointIndex, Handle<LocalVariable>),
}

/// A table of all the names needed for writing a module.
#[derive(Debug)]
pub struct Names {
    /// Names of the types.
    pub types: Vec<String>,
    /// Names of the members, for each type.
    pub members: Vec<Vec<String>>,
    /// Names of the global variables.
    pub global_variables: Vec<String>,
    /// Names of the functions.
    pub functions: Vec<String>,
    /// Names of the arguments, for each function.
    pub arguments: Vec<Vec<String>>,
    /// Names of the local variables, for each function.
    pub function_locals: Vec<Vec<String>>,
    /// Names of the local variables, for each entry point.
    pub entry_point_locals: Vec<Vec<String>>,
}

/// The name at `index`, if the row has one.
pub open spec fn name_in(row: Seq<String>, index: int) -> Option<Seq<char>> {
    if 0 <= index < row.len() {
        Some(row[index]@)
    } else {
        None
    }
}

/// The name at `index` of the row at `row`, if the table has one.
pub open spec fn name_in_row(rows: Seq<Vec<String>>, row: int, index: int) -> Option<Seq<char>> {
    if 0 <= row < rows.len() {
        name_in(rows[row]@, index)
    } else {
        None
    }
}

/// The name at `index`, if the row has one.
fn find_in(row: &Vec<String>, index: usize) -> (name: Option<&String>)
    ensures
        match name {
            Some(s) => name_in(row@, index as int) == Some(s@),
            None => name_in(row@, index as int) is None,
        },
{
    if index < row.len() {
        Some(&row[index])
    } else {
        None
    }
}

/// The name at `index` of the row at `row`, if the table has one.
fn find_in_row(rows: &Vec<Vec<String>>, row: usize, index: usize) -> (name: Option<&String>)
    ensures
        match name {
            Some(s) => name_in_row(rows@, row as int, index as int) == Some(s@),
            None => name_in_row(rows@, row as int, index as int) is None,
        },
{
    if row < rows.len() {
        find_in(&rows[row], index)
    } else {
        None
    }
}

impl Names {
    /// The name that belongs to `key`, if the table has been filled for it.
    pub open spec fn lookup(self, key: NameKey) -> Option<Seq<char>> {
        match key {
            NameKey::GlobalVariable(global) => name_in(
                self.global_variables@,
                global.index as int,
            ),
            NameKey::Type(ty) => name_in(self.types@, ty.index as int),
            NameKey::StructMember(ty, member) => name_in_row(
                self.members@,
                ty.index as int,
                member as int,
            ),
            NameKey::Function(function) => name_in(self.functions@, function.index as int),
            NameKey::FunctionArgument(function, argument) => name_in_row(
                self.arguments@,
                function.index as int,
                argument as int,
            ),
            NameKey::FunctionLocal(function, local) => name_in_row(
                self.function_locals@,
                function.index as int,
                local.index as int,
            ),
            NameKey::EntryPointLocal(entry_point, local) => name_in_row(
                self.entry_point_locals@,
                entry_point as int,
                local.index as int,
            ),
        }
    }

    /// The name that belongs to `key`, if the table has been filled for it.
    pub fn get(&self, key: NameKey) -> (name: Option<&String>)
        ensures
            match name {
                Some(s) => self.lookup(key) == Some(s@),
                None => self.lookup(key) is None,
            },
    {
        match key {
            NameKey::GlobalVariable(global) => find_in(&self.global_variables, global.index),
            NameKey::Type(ty) => find_in(&self.types, ty.index),
            NameKey::StructMember(ty, member) => find_in_row(
                &self.members,
                ty.index,
                member as usize,
            ),
            NameKey::Function(function) => find_in(&self.functions, function.index),
            NameKey::FunctionArgument(function, argument) => find_in_row(
                &self.arguments,
                function.index,
                argument as usize,
            ),
            NameKey::FunctionLocal(function, local) => find_in_row(
                &self.function_locals,
                function.index,
                local.index,
            ),
            NameKey::EntryPointLocal(entry_point, local) => find_in_row(
                &self.entry_point_locals,
                entry_point as usize,
                local.index,
            ),
        }
    }
}

} // verus!
