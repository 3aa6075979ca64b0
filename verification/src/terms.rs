//! The glsl spelling of the fixed vocabulary: qualifiers, operators, built-in variables and
//! functions.
use crate::error::{Error, ErrorView};
use crate::ir::{
    BinaryOperator, BuiltIn, Bytes, ConservativeDepth, DerivativeAxis, ImageDimension,
    Interpolation, MathFunction, RelationalFunction, ScalarKind, StorageClass, StorageFormat,
};
use vstd::prelude::*;

verus! {

/// Structure returned by [`glsl_scalar`]
///
/// It contains both a prefix used in other types and the full type name
#[derive(Debug, Clone, Copy)]
pub struct ScalarString<'a> {
    /// The prefix used to compose other types
    pub prefix: &'a str,
    /// The name of the scalar type
    pub full: &'a str,
}

/// Whether glsl has a scalar of this kind and width: floats are 4 or 8 bytes wide.
pub open spec fn scalar_exists(kind: ScalarKind, width: Bytes) -> bool {
    kind is Float ==> width == 4 || width == 8
}

/// The prefix that marks vectors, matrices and images of a scalar.
pub open spec fn scalar_prefix(kind: ScalarKind, width: Bytes) -> Seq<char> {
    match kind {
        ScalarKind::Sint => "i"@,
        ScalarKind::Uint => "u"@,
        ScalarKind::Float => if width == 8 {
            "d"@
        } else {
            ""@
        },
        ScalarKind::Bool => "b"@,
    }
}

/// The name of a scalar type.
pub open spec fn scalar_name(kind: ScalarKind, width: Bytes) -> Seq<char> {
    match kind {
        ScalarKind::Sint => "int"@,
        ScalarKind::Uint => "uint"@,
        ScalarKind::Float => if width == 8 {
            "double"@
        } else {
            "float"@
        },
        ScalarKind::Bool => "bool"@,
    }
}

/// Helper function that returns scalar related strings
///
/// Check [`ScalarString`] for the information provided
///
/// # Errors
/// If a [`Float`](ScalarKind::Float) with an width that isn't 4 or 8
pub fn glsl_scalar(kind: ScalarKind, width: Bytes) -> (strings: Result<ScalarString<'static>, Error>)
    ensures
        match strings {
            Ok(s) => {
                &&& scalar_exists(kind, width)
                &&& s.prefix@ == scalar_prefix(kind, width)
                &&& s.full@ == scalar_name(kind, width)
            },
            Err(e) => {
                &&& !scalar_exists(kind, width)
                &&& e@ == ErrorView::UnsupportedScalar(kind, width)
            },
        },
{
    Ok(
        match kind {
            ScalarKind::Sint => ScalarString { prefix: "i", full: "int" },
            ScalarKind::Uint => ScalarString { prefix: "u", full: "uint" },
            ScalarKind::Float => match width {
                4 => ScalarString { prefix: "", full: "float" },
                8 => ScalarString { prefix: "d", full: "double" },
                _ => return Err(Error::UnsupportedScalar(kind, width)),
            },
            ScalarKind::Bool => ScalarString { prefix: "b", full: "bool" },
        },
    )
}

/// The glsl variable of a builtin.
pub open spec fn built_in_name(built_in: BuiltIn) -> Seq<char> {
    match built_in {
        BuiltIn::Position => "gl_Position"@,
        BuiltIn::GlobalInvocationId => "gl_GlobalInvocationID"@,
        BuiltIn::BaseInstance => "gl_BaseInstance"@,
        BuiltIn::BaseVertex => "gl_BaseVertex"@,
        BuiltIn::ClipDistance => "gl_ClipDistance"@,
        BuiltIn::InstanceIndex => "gl_InstanceIndex"@,
        BuiltIn::VertexIndex => "gl_VertexIndex"@,
        BuiltIn::PointSize => "gl_PointSize"@,
        BuiltIn::FragCoord => "gl_FragCoord"@,
        BuiltIn::FrontFacing => "gl_FrontFacing"@,
        BuiltIn::SampleIndex => "gl_SampleID"@,
        BuiltIn::FragDepth => "gl_FragDepth"@,
        BuiltIn::LocalInvocationId => "gl_LocalInvocationID"@,
        BuiltIn::LocalInvocationIndex => "gl_LocalInvocationIndex"@,
        BuiltIn::WorkGroupId => "gl_WorkGroupID"@,
        BuiltIn::WorkGroupSize => "gl_WorkGroupSize"@,
    }
}

/// Helper function that returns the glsl variable name for a builtin
pub fn glsl_built_in(built_in: BuiltIn) -> (s: &'static str)
    ensures
        s@ == built_in_name(built_in),
{
    match built_in {
        BuiltIn::Position => "gl_Position",
        BuiltIn::GlobalInvocationId => "gl_GlobalInvocationID",
        BuiltIn::BaseInstance => "gl_BaseInstance",
        BuiltIn::BaseVertex => "gl_BaseVertex",
        BuiltIn::ClipDistance => "gl_ClipDistance",
        BuiltIn::InstanceIndex => "gl_InstanceIndex",
        BuiltIn::VertexIndex => "gl_VertexIndex",
        BuiltIn::PointSize => "gl_PointSize",
        BuiltIn::FragCoord => "gl_FragCoord",
        BuiltIn::FrontFacing => "gl_FrontFacing",
        BuiltIn::SampleIndex => "gl_SampleID",
        BuiltIn::FragDepth => "gl_FragDepth",
        BuiltIn::LocalInvocationId => "gl_LocalInvocationID",
        BuiltIn::LocalInvocationIndex => "gl_LocalInvocationIndex",
        BuiltIn::WorkGroupId => "gl_WorkGroupID",
        BuiltIn::WorkGroupSize => "gl_WorkGroupSize",
    }
}

/// The qualifier of a storage class; some have none.
pub open spec fn storage_class_qualifier(class: StorageClass) -> Seq<char> {
    match class {
        StorageClass::Function => ""@,
        StorageClass::Input => "in"@,
        StorageClass::Output => "out"@,
        StorageClass::Private => ""@,
        StorageClass::Storage => "buffer"@,
        StorageClass::Uniform => "uniform"@,
        StorageClass::Handle => "uniform"@,
        StorageClass::WorkGroup => "shared"@,
        StorageClass::PushConstant => ""@,
    }
}

/// Helper function that returns the string corresponding to the storage class
pub fn glsl_storage_class(class: StorageClass) -> (s: &'static str)
    ensures
        s@ == storage_class_qualifier(class),
{
    match class {
        StorageClass::Function => "",
        StorageClass::Input => "in",
        StorageClass::Output => "out",
        StorageClass::Private => "",
        StorageClass::Storage => "buffer",
        StorageClass::Uniform => "uniform",
        StorageClass::Handle => "uniform",
        StorageClass::WorkGroup => "shared",
        StorageClass::PushConstant => "",
    }
}

/// The qualifier of an interpolation, if glsl has one.
pub open spec fn interpolation_qualifier(interpolation: Interpolation) -> Option<Seq<char>> {
    match interpolation {
        Interpolation::Perspective => Some("smooth"@),
        Interpolation::Linear => Some("noperspective"@),
        Interpolation::Flat => Some("flat"@),
        Interpolation::Centroid => Some("centroid"@),
        Interpolation::Sample => Some("sample"@),
        Interpolation::Patch => None,
    }
}

/// Helper function that returns the string corresponding to the glsl interpolation qualifier
///
/// # Errors
/// If [`Patch`](Interpolation::Patch) is passed, as it isn't supported in glsl
pub fn glsl_interpolation(interpolation: Interpolation) -> (s: Result<&'static str, Error>)
    ensures
        match s {
            Ok(qualifier) => interpolation_qualifier(interpolation) == Some(qualifier@),
            Err(e) => interpolation_qualifier(interpolation) is None && e@
                == ErrorView::PatchInterpolationNotSupported,
        },
{
    Ok(
        match interpolation {
            Interpolation::Perspective => "smooth",
            Interpolation::Linear => "noperspective",
            Interpolation::Flat => "flat",
            Interpolation::Centroid => "centroid",
            Interpolation::Sample => "sample",
            Interpolation::Patch => return Err(Error::PatchInterpolationNotSupported),
        },
    )
}

/// The dimension part of an image type.
pub open spec fn dimension_name(dim: ImageDimension) -> Seq<char> {
    match dim {
        ImageDimension::D1 => "1D"@,
        ImageDimension::D2 => "2D"@,
        ImageDimension::D3 => "3D"@,
        ImageDimension::Cube => "Cube"@,
    }
}

/// Helper function that returns the glsl dimension string of [`ImageDimension`]
pub fn glsl_dimension(dim: ImageDimension) -> (s: &'static str)
    ensures
        s@ == dimension_name(dim),
{
    match dim {
        ImageDimension::D1 => "1D",
        ImageDimension::D2 => "2D",
        ImageDimension::D3 => "3D",
        ImageDimension::Cube => "Cube",
    }
}

/// The layout qualifier of a storage format.
pub open spec fn storage_format_name(format: StorageFormat) -> Seq<char> {
    match format {
        StorageFormat::R8Unorm => "r8"@,
        StorageFormat::R8Snorm => "r8_snorm"@,
        StorageFormat::R8Uint => "r8ui"@,
        StorageFormat::R8Sint => "r8i"@,
        StorageFormat::R16Uint => "r16ui"@,
        StorageFormat::R16Sint => "r16i"@,
        StorageFormat::R16Float => "r16f"@,
        StorageFormat::Rg8Unorm => "rg8"@,
        StorageFormat::Rg8Snorm => "rg8_snorm"@,
        StorageFormat::Rg8Uint => "rg8ui"@,
        StorageFormat::Rg8Sint => "rg8i"@,
        StorageFormat::R32Uint => "r32ui"@,
        StorageFormat::R32Sint => "r32i"@,
        StorageFormat::R32Float => "r32f"@,
        StorageFormat::Rg16Uint => "rg16ui"@,
        StorageFormat::Rg16Sint => "rg16i"@,
        StorageFormat::Rg16Float => "rg16f"@,
        StorageFormat::Rgba8Unorm => "rgba8"@,
        StorageFormat::Rgba8Snorm => "rgba8_snorm"@,
        StorageFormat::Rgba8Uint => "rgba8ui"@,
        StorageFormat::Rgba8Sint => "rgba8i"@,
        StorageFormat::Rgb10a2Unorm => "rgb10_a2"@,
        StorageFormat::Rg11b10Float => "r11f_g11f_b10f"@,
        StorageFormat::Rg32Uint => "rg32ui"@,
        StorageFormat::Rg32Sint => "rg32i"@,
        StorageFormat::Rg32Float => "rg32f"@,
        StorageFormat::Rgba16Uint => "rgba16ui"@,
        StorageFormat::Rgba16Sint => "rgba16i"@,
        StorageFormat::Rgba16Float => "rgba16f"@,
        StorageFormat::Rgba32Uint => "rgba32ui"@,
        StorageFormat::Rgba32Sint => "rgba32i"@,
        StorageFormat::Rgba32Float => "rgba32f"@,
    }
}

/// Helper function that returns the glsl storage format string of [`StorageFormat`]
pub fn glsl_storage_format(format: StorageFormat) -> (s: &'static str)
    ensures
        s@ == storage_format_name(format),
{
    match format {
        StorageFormat::R8Unorm => "r8",
        StorageFormat::R8Snorm => "r8_snorm",
        StorageFormat::R8Uint => "r8ui",
        StorageFormat::R8Sint => "r8i",
        StorageFormat::R16Uint => "r16ui",
        StorageFormat::R16Sint => "r16i",
        StorageFormat::R16Float => "r16f",
        StorageFormat::Rg8Unorm => "rg8",
        StorageFormat::Rg8Snorm => "rg8_snorm",
        StorageFormat::Rg8Uint => "rg8ui",
        StorageFormat::Rg8Sint => "rg8i",
        StorageFormat::R32Uint => "r32ui",
        StorageFormat::R32Sint => "r32i",
        StorageFormat::R32Float => "r32f",
        StorageFormat::Rg16Uint => "rg16ui",
        StorageFormat::Rg16Sint => "rg16i",
        StorageFormat::Rg16Float => "rg16f",
        StorageFormat::Rgba8Unorm => "rgba8",
        StorageFormat::Rgba8Snorm => "rgba8_snorm",
        StorageFormat::Rgba8Uint => "rgba8ui",
        StorageFormat::Rgba8Sint => "rgba8i",
        StorageFormat::Rgb10a2Unorm => "rgb10_a2",
        StorageFormat::Rg11b10Float => "r11f_g11f_b10f",
        StorageFormat::Rg32Uint => "rg32ui",
        StorageFormat::Rg32Sint => "rg32i",
        StorageFormat::Rg32Float => "rg32f",
        StorageFormat::Rgba16Uint => "rgba16ui",
        StorageFormat::Rgba16Sint => "rgba16i",
        StorageFormat::Rgba16Float => "rgba16f",
        StorageFormat::Rgba32Uint => "rgba32ui",
        StorageFormat::Rgba32Sint => "rgba32i",
        StorageFormat::Rgba32Float => "rgba32f",
    }
}

/// The token of a binary operator.
pub open spec fn binary_operator_text(op: BinaryOperator) -> Seq<char> {
    match op {
        BinaryOperator::Add => "+"@,
        BinaryOperator::Subtract => "-"@,
        BinaryOperator::Multiply => "*"@,
        BinaryOperator::Divide => "/"@,
        BinaryOperator::Modulo => "%"@,
        BinaryOperator::Equal => "=="@,
        BinaryOperator::NotEqual => "!="@,
        BinaryOperator::Less => "<"@,
        BinaryOperator::LessEqual => "<="@,
        BinaryOperator::Greater => ">"@,
        BinaryOperator::GreaterEqual => ">="@,
        BinaryOperator::And => "&"@,
        BinaryOperator::ExclusiveOr => "^"@,
        BinaryOperator::InclusiveOr => "|"@,
        BinaryOperator::LogicalAnd => "&&"@,
        BinaryOperator::LogicalOr => "||"@,
        BinaryOperator::ShiftLeft => "<<"@,
        BinaryOperator::ShiftRight => ">>"@,
    }
}

/// Helper function that returns the token of a binary operator
pub fn glsl_binary_operator(op: BinaryOperator) -> (s: &'static str)
    ensures
        s@ == binary_operator_text(op),
{
    match op {
        BinaryOperator::Add => "+",
        BinaryOperator::Subtract => "-",
        BinaryOperator::Multiply => "*",
        BinaryOperator::Divide => "/",
        BinaryOperator::Modulo => "%",
        BinaryOperator::Equal => "==",
        BinaryOperator::NotEqual => "!=",
        BinaryOperator::Less => "<",
        BinaryOperator::LessEqual => "<=",
        BinaryOperator::Greater => ">",
        BinaryOperator::GreaterEqual => ">=",
        BinaryOperator::And => "&",
        BinaryOperator::ExclusiveOr => "^",
        BinaryOperator::InclusiveOr => "|",
        BinaryOperator::LogicalAnd => "&&",
        BinaryOperator::LogicalOr => "||",
        BinaryOperator::ShiftLeft => "<<",
        BinaryOperator::ShiftRight => ">>",
    }
}

/// The function that computes a derivative.
pub open spec fn derivative_function(axis: DerivativeAxis) -> Seq<char> {
    match axis {
        DerivativeAxis::X => "dFdx"@,
        DerivativeAxis::Y => "dFdy"@,
        DerivativeAxis::Width => "fwidth"@,
    }
}

/// Helper function that returns the glsl function of a derivative
pub fn glsl_derivative(axis: DerivativeAxis) -> (s: &'static str)
    ensures
        s@ == derivative_function(axis),
{
    match axis {
        DerivativeAxis::X => "dFdx",
        DerivativeAxis::Y => "dFdy",
        DerivativeAxis::Width => "fwidth",
    }
}

/// The function that tests a relation; those that glsl lacks invert their opposite.
pub open spec fn relational_function(fun: RelationalFunction) -> Seq<char> {
    match fun {
        RelationalFunction::IsFinite => "!isinf"@,
        RelationalFunction::IsInf => "isinf"@,
        RelationalFunction::IsNan => "isnan"@,
        RelationalFunction::IsNormal => "!isnan"@,
        RelationalFunction::All => "all"@,
        RelationalFunction::Any => "any"@,
    }
}

/// Helper function that returns the glsl function of a relational function
pub fn glsl_relational(fun: RelationalFunction) -> (s: &'static str)
    ensures
        s@ == relational_function(fun),
{
    match fun {
        RelationalFunction::IsFinite => "!isinf",
        RelationalFunction::IsInf => "isinf",
        RelationalFunction::IsNan => "isnan",
        RelationalFunction::IsNormal => "!isnan",
        RelationalFunction::All => "all",
        RelationalFunction::Any => "any",
    }
}

/// The glsl function of a math function.
pub open spec fn math_function(fun: MathFunction) -> Seq<char> {
    match fun {
        MathFunction::Abs => "abs"@,
        MathFunction::Min => "min"@,
        MathFunction::Max => "max"@,
        MathFunction::Clamp => "clamp"@,
        MathFunction::Cos => "cos"@,
        MathFunction::Cosh => "cosh"@,
        MathFunction::Sin => "sin"@,
        MathFunction::Sinh => "sinh"@,
        MathFunction::Tan => "tan"@,
        MathFunction::Tanh => "tanh"@,
        MathFunction::Acos => "acos"@,
        MathFunction::Asin => "asin"@,
        MathFunction::Atan => "atan"@,
        MathFunction::Atan2 => "atan2"@,
        MathFunction::Ceil => "ceil"@,
        MathFunction::Floor => "floor"@,
        MathFunction::Round => "round"@,
        MathFunction::Fract => "fract"@,
        MathFunction::Trunc => "trunc"@,
        MathFunction::Modf => "modf"@,
        MathFunction::Frexp => "frexp"@,
        MathFunction::Ldexp => "ldexp"@,
        MathFunction::Exp => "exp"@,
        MathFunction::Exp2 => "exp2"@,
        MathFunction::Log => "log"@,
        MathFunction::Log2 => "log2"@,
        MathFunction::Pow => "pow"@,
        MathFunction::Dot => "dot"@,
        MathFunction::Outer => "outerProduct"@,
        MathFunction::Cross => "cross"@,
        MathFunction::Distance => "distance"@,
        MathFunction::Length => "length"@,
        MathFunction::Normalize => "normalize"@,
        MathFunction::FaceForward => "faceforward"@,
        MathFunction::Reflect => "reflect"@,
        MathFunction::Sign => "sign"@,
        MathFunction::Fma => "fma"@,
        MathFunction::Mix => "mix"@,
        MathFunction::Step => "step"@,
        MathFunction::SmoothStep => "smoothstep"@,
        MathFunction::Sqrt => "sqrt"@,
        MathFunction::InverseSqrt => "inversesqrt"@,
        MathFunction::Transpose => "transpose"@,
        MathFunction::Determinant => "determinant"@,
        MathFunction::CountOneBits => "bitCount"@,
        MathFunction::ReverseBits => "bitfieldReverse"@,
    }
}

/// Helper function that returns the glsl function of a math function
pub fn glsl_math(fun: MathFunction) -> (s: &'static str)
    ensures
        s@ == math_function(fun),
{
    match fun {
        MathFunction::Abs => "abs",
        MathFunction::Min => "min",
        MathFunction::Max => "max",
        MathFunction::Clamp => "clamp",
        MathFunction::Cos => "cos",
        MathFunction::Cosh => "cosh",
        MathFunction::Sin => "sin",
        MathFunction::Sinh => "sinh",
        MathFunction::Tan => "tan",
        MathFunction::Tanh => "tanh",
        MathFunction::Acos => "acos",
        MathFunction::Asin => "asin",
        MathFunction::Atan => "atan",
        MathFunction::Atan2 => "atan2",
        MathFunction::Ceil => "ceil",
        MathFunction::Floor => "floor",
        MathFunction::Round => "round",
        MathFunction::Fract => "fract",
        MathFunction::Trunc => "trunc",
        MathFunction::Modf => "modf",
        MathFunction::Frexp => "frexp",
        MathFunction::Ldexp => "ldexp",
        MathFunction::Exp => "exp",
        MathFunction::Exp2 => "exp2",
        MathFunction::Log => "log",
        MathFunction::Log2 => "log2",
        MathFunction::Pow => "pow",
        MathFunction::Dot => "dot",
        MathFunction::Outer => "outerProduct",
        MathFunction::Cross => "cross",
        MathFunction::Distance => "distance",
        MathFunction::Length => "length",
        MathFunction::Normalize => "normalize",
        MathFunction::FaceForward => "faceforward",
        MathFunction::Reflect => "reflect",
        MathFunction::Sign => "sign",
        MathFunction::Fma => "fma",
        MathFunction::Mix => "mix",
        MathFunction::Step => "step",
        MathFunction::SmoothStep => "smoothstep",
        MathFunction::Sqrt => "sqrt",
        MathFunction::InverseSqrt => "inversesqrt",
        MathFunction::Transpose => "transpose",
        MathFunction::Determinant => "determinant",
        MathFunction::CountOneBits => "bitCount",
        MathFunction::ReverseBits => "bitfieldReverse",
    }
}

/// The suffix of a depth layout.
pub open spec fn conservative_depth_name(depth: ConservativeDepth) -> Seq<char> {
    match depth {
        ConservativeDepth::GreaterEqual => "greater"@,
        ConservativeDepth::LessEqual => "less"@,
        ConservativeDepth::Unchanged => "unchanged"@,
    }
}

/// Helper function that returns the suffix of a depth layout
pub fn glsl_conservative_depth(depth: ConservativeDepth) -> (s: &'static str)
    ensures
        s@ == conservative_depth_name(depth),
{
    match depth {
        ConservativeDepth::GreaterEqual => "greater",
        ConservativeDepth::LessEqual => "less",
        ConservativeDepth::Unchanged => "unchanged",
    }
}

} // verus!
