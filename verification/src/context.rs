//! What the writer knows while it writes: the module, the configuration and the current function.
use crate::arena::{Arena, Handle};
use crate::error::Features;
use crate::ir::{Expression, Function, LocalVariable, Module, ShaderStage};
use crate::names::{EntryPointIndex, NameKey, Names};
use crate::typing::{ResolveError, Typifier};
use crate::version::Version;
use vstd::prelude::*;

verus! {

/// Structure that contains the configuration used in the [`Writer`](crate::writer::Writer)
#[derive(Debug)]
pub struct Options {
    /// The glsl version to be used
    pub version: Version,
    /// The name and stage of the entry point
    ///
    /// If no entry point that matches is found a error will be returned while creating a new
    /// instance of [`Writer`](crate::writer::Writer)
    pub entry_point: (ShaderStage, String),
}

impl Clone for Options {
    fn clone(&self) -> (copy: Self)
        ensures
            copy.version == self.version,
            copy.entry_point.0 == self.entry_point.0,
            copy.entry_point.1@ == self.entry_point.1@,
    {
        Options {
            version: self.version,
            entry_point: (self.entry_point.0, self.entry_point.1.clone()),
        }
    }
}

/// The features that a module uses.
#[derive(Debug)]
pub struct FeatureReport {
    /// The features that the selected entry point uses.
    pub used: Features,
    /// The features that the selected version supports.
    pub supported: Features,
    /// The extensions that the used features need in the selected version.
    pub extensions: Vec<String>,
}

/// The types of all the expressions of a module, or why they couldn't be resolved.
#[derive(Debug)]
pub struct Typing {
    /// For each function.
    pub functions: Vec<Result<Typifier, ResolveError>>,
    /// For each entry point.
    pub entry_points: Vec<Result<Typifier, ResolveError>>,
}

/// What is known of a module before it is written.
#[derive(Debug)]
pub struct Analysis {
    /// The name of everything that is written.
    pub names: Names,
    /// The features that are used.
    pub features: FeatureReport,
    /// The types of all the expressions.
    pub typing: Typing,
}

/// What stays fixed while a module is written.
#[derive(Clone, Copy)]
pub struct Env<'a> {
    /// The module being written
    pub module: &'a Module,
    /// User defined configuration to be used
    pub options: &'a Options,
    /// What is known of the module
    pub analysis: &'a Analysis,
}

/// Stores the current function type (either a regular function or an entry point)
///
/// Also stores data needed to identify it (handle for a regular function or index for an entry point)
#[derive(Clone, Copy)]
pub enum FunctionType {
    /// A regular function and it's handle
    Function(Handle<Function>),
    /// A entry point and it's index
    EntryPoint(EntryPointIndex),
}

/// Helper structure that stores data needed when writing the function
#[derive(Clone, Copy)]
pub struct FunctionCtx<'a> {
    /// The current function being written
    pub func: FunctionType,
    /// The expression arena of the current function being written
    pub expressions: &'a Arena<Expression>,
    /// A typifier that has already resolved all expressions in the function being written
    pub typifier: &'a Typifier,
}

/// What the name of a local variable is filed under.
pub open spec fn local_key(func: FunctionType, local: Handle<LocalVariable>) -> NameKey {
    match func {
        FunctionType::Function(handle) => NameKey::FunctionLocal(handle, local),
        FunctionType::EntryPoint(idx) => NameKey::EntryPointLocal(idx, local),
    }
}

/// The name of an argument. Entry points have none.
pub open spec fn argument_name(func: FunctionType, arg: u32, names: Names) -> Option<Seq<char>> {
    match func {
        FunctionType::Function(handle) => names.lookup(NameKey::FunctionArgument(handle, arg)),
        FunctionType::EntryPoint(_) => None,
    }
}

impl<'a> FunctionCtx<'a> {
    /// Helper method that generates a [`NameKey`] for a local in the current function
    pub fn name_key(&self, local: Handle<LocalVariable>) -> (key: NameKey)
        ensures
            key == local_key(self.func, local),
    {
        match self.func {
            FunctionType::Function(handle) => NameKey::FunctionLocal(handle, local),
            FunctionType::EntryPoint(idx) => NameKey::EntryPointLocal(idx, local),
        }
    }

    /// Helper method that retrieves the name of the argument in the current function
    ///
    /// There is none
    /// - If the function is an entry point
    /// - If the function arguments are less or equal to `arg`
    /// - If `names` hasn't been filled properly
    pub fn get_arg<'c>(&self, arg: u32, names: &'c Names) -> (name: Option<&'c String>)
        ensures
            match name {
                Some(s) => argument_name(self.func, arg, *names) == Some(s@),
                None => argument_name(self.func, arg, *names) is None,
            },
    {
        match self.func {
            FunctionType::Function(handle) => names.get(NameKey::FunctionArgument(handle, arg)),
            FunctionType::EntryPoint(_) => None,
        }
    }
}

/// Helper structure that generates a number
#[derive(Debug)]
pub struct IdGenerator(pub u32);

impl Default for IdGenerator {
    fn default() -> (generator: Self)
        ensures
            generator.0 == 0,
    {
        IdGenerator(0)
    }
}

impl IdGenerator {
    /// Generates a number that's guaranteed to be unique for this `IdGenerator`
    pub fn generate(&mut self) -> (id: u32)
        requires
            old(self).0 < u32::MAX,
        ensures
            id == old(self).0,
            final(self).0 == old(self).0 + 1,
    {
        // It's just an increasing number but it does the job
        let ret: u32 = self.0;
        self.0 = self.0 + 1;
        ret
    }
}

} // verus!
