//! Errors of the writer.
use crate::ir::{Bytes, ScalarKind};
use crate::typing::ResolveError;
use vstd::prelude::*;

verus! {

/// A set of additions to glsl that aren't supported by all versions, one bit for each.
#[derive(Debug, Clone, Copy, PartialEq, Eq, Structural)]
pub struct Features {
    pub bits: u32,
}

impl Features {
    /// Whether the set has no feature.
    pub open spec fn spec_is_empty(self) -> bool {
        self.bits == 0
    }

    /// Whether the set has no feature.
    pub fn is_empty(&self) -> (empty: bool)
        ensures
            empty == self.spec_is_empty(),
    {
        self.bits == 0
    }

    /// The features of this set that `other` lacks.
    pub open spec fn spec_difference(self, other: Features) -> Features {
        Features { bits: self.bits & !other.bits }
    }

    /// The features of this set that `other` lacks.
    pub fn difference(&self, other: Features) -> (lacking: Features)
        ensures
            lacking == self.spec_difference(other),
    {
        Features { bits: self.bits & !other.bits }
    }
}

/// A feature is missing exactly if it is used and not supported.
pub proof fn missing_features_are_used_and_unsupported(used: Features, supported: Features, bit: u32)
    requires
        bit < 32,
    ensures
        (used.spec_difference(supported).bits >> bit) & 1 == 1 <==> (used.bits >> bit) & 1 == 1 && (
        supported.bits >> bit) & 1 == 0,
{
    let u = used.bits;
    let s = supported.bits;
    assert(((u & !s) >> bit) & 1 == 1 <==> (u >> bit) & 1 == 1 && (s >> bit) & 1 == 0)
        by (bit_vector)
        requires
            bit < 32,
    ;
}

/// A glsl compilation error.
#[derive(Debug)]
pub enum Error {
    /// The [`Module`](crate::ir::Module) failed type resolution
    Type(ResolveError),
    /// The specified [`Version`](crate::version::Version) doesn't have all required [`Features`]
    ///
    /// Contains the missing [`Features`]
    MissingFeatures(Features),
    /// [`StorageClass::PushConstant`](crate::ir::StorageClass::PushConstant) was used and isn't
    /// supported
    PushConstantNotSupported,
    /// The specified [`Version`](crate::version::Version) isn't supported
    VersionNotSupported,
    /// The entry point couldn't be found
    EntryPointNotFound,
    /// A call was made to an unsupported external
    UnsupportedExternal(String),
    /// A scalar with an unsupported width was requested
    UnsupportedScalar(ScalarKind, Bytes),
    /// [`Interpolation::Patch`](crate::ir::Interpolation::Patch) isn't supported
    PatchInterpolationNotSupported,
    /// A image was used with multiple samplers, this isn't supported
    ImageMultipleSamplers,
    /// Any other error, in words
    Custom(String),
}

/// What an [`Error`] says.
pub enum ErrorView {
    Type(Seq<char>),
    MissingFeatures(Features),
    PushConstantNotSupported,
    VersionNotSupported,
    EntryPointNotFound,
    UnsupportedExternal(Seq<char>),
    UnsupportedScalar(ScalarKind, Bytes),
    PatchInterpolationNotSupported,
    ImageMultipleSamplers,
    Custom(Seq<char>),
}

impl View for Error {
    type V = ErrorView;

    open spec fn view(&self) -> ErrorView {
        match *self {
            Error::Type(e) => ErrorView::Type(e.reason@),
            Error::MissingFeatures(features) => ErrorView::MissingFeatures(features),
            Error::PushConstantNotSupported => ErrorView::PushConstantNotSupported,
            Error::VersionNotSupported => ErrorView::VersionNotSupported,
            Error::EntryPointNotFound => ErrorView::EntryPointNotFound,
            Error::UnsupportedExternal(name) => ErrorView::UnsupportedExternal(name@),
            Error::UnsupportedScalar(kind, width) => ErrorView::UnsupportedScalar(kind, width),
            Error::PatchInterpolationNotSupported => ErrorView::PatchInterpolationNotSupported,
            Error::ImageMultipleSamplers => ErrorView::ImageMultipleSamplers,
            Error::Custom(message) => ErrorView::Custom(message@),
        }
    }
}

/// Why writing stopped early.
#[derive(Debug)]
pub enum Stop {
    /// The writer rejects the module.
    Error(Error),
    /// The module is invalid: it has no meaning that could be written or rejected.
    Invalid,
}

/// Shorthand result used internally by the writer
pub type BackendResult = Result<(), Stop>;

} // verus!
