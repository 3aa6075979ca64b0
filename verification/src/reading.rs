//! The fixed vocabulary can be read back: what is written for a qualifier, an operator, a builtin
//! or a function stands for that one only.
use crate::describe::{
    bool_words, dimension_words, scalar_kind_words, storage_class_words, storage_format_words,
    vector_size_words,
};
use crate::ir::{
    BinaryOperator, BuiltIn, Bytes, ConservativeDepth, DerivativeAxis, ImageDimension,
    Interpolation, MathFunction, RelationalFunction, ScalarKind, StorageClass, StorageFormat,
    VectorSize,
};
use crate::terms::{
    binary_operator_text, built_in_name, conservative_depth_name, derivative_function,
    dimension_name, interpolation_qualifier, math_function, relational_function, scalar_exists,
    scalar_name, scalar_prefix, storage_class_qualifier, storage_format_name,
};
use vstd::prelude::*;

verus! {

/// The builtin that a glsl variable stands for.
pub open spec fn built_in_called(word: Seq<char>) -> Option<BuiltIn> {
    if word == "gl_Position"@ {
        Some(BuiltIn::Position)
    } else if word == "gl_GlobalInvocationID"@ {
        Some(BuiltIn::GlobalInvocationId)
    } else if word == "gl_BaseInstance"@ {
        Some(BuiltIn::BaseInstance)
    } else if word == "gl_BaseVertex"@ {
        Some(BuiltIn::BaseVertex)
    } else if word == "gl_ClipDistance"@ {
        Some(BuiltIn::ClipDistance)
    } else if word == "gl_InstanceIndex"@ {
        Some(BuiltIn::InstanceIndex)
    } else if word == "gl_VertexIndex"@ {
        Some(BuiltIn::VertexIndex)
    } else if word == "gl_PointSize"@ {
        Some(BuiltIn::PointSize)
    } else if word == "gl_FragCoord"@ {
        Some(BuiltIn::FragCoord)
    } else if word == "gl_FrontFacing"@ {
        Some(BuiltIn::FrontFacing)
    } else if word == "gl_SampleID"@ {
        Some(BuiltIn::SampleIndex)
    } else if word == "gl_FragDepth"@ {
        Some(BuiltIn::FragDepth)
    } else if word == "gl_LocalInvocationID"@ {
        Some(BuiltIn::LocalInvocationId)
    } else if word == "gl_LocalInvocationIndex"@ {
        Some(BuiltIn::LocalInvocationIndex)
    } else if word == "gl_WorkGroupID"@ {
        Some(BuiltIn::WorkGroupId)
    } else if word == "gl_WorkGroupSize"@ {
        Some(BuiltIn::WorkGroupSize)
    } else {
        None
    }
}

/// Every builtin is written as a glsl variable that stands for that builtin and for no other one.
pub proof fn builtins_can_be_read_back(built_in: BuiltIn)
    ensures
        built_in_called(built_in_name(built_in)) == Some(built_in),
{
    reveal_strlit("gl_Position");
    assert("gl_Position"@.len() == 11 && "gl_Position"@[3] == 'P');
    reveal_strlit("gl_GlobalInvocationID");
    assert("gl_GlobalInvocationID"@.len() == 21);
    reveal_strlit("gl_BaseInstance");
    assert("gl_BaseInstance"@.len() == 15 && "gl_BaseInstance"@[3] == 'B');
    reveal_strlit("gl_BaseVertex");
    assert("gl_BaseVertex"@.len() == 13);
    reveal_strlit("gl_ClipDistance");
    assert("gl_ClipDistance"@.len() == 15 && "gl_ClipDistance"@[3] == 'C');
    reveal_strlit("gl_InstanceIndex");
    assert("gl_InstanceIndex"@.len() == 16 && "gl_InstanceIndex"@[3] == 'I');
    reveal_strlit("gl_VertexIndex");
    assert("gl_VertexIndex"@.len() == 14 && "gl_VertexIndex"@[3] == 'V');
    reveal_strlit("gl_PointSize");
    assert("gl_PointSize"@.len() == 12 && "gl_PointSize"@[7] == 't');
    reveal_strlit("gl_FragCoord");
    assert("gl_FragCoord"@.len() == 12 && "gl_FragCoord"@[7] == 'C');
    reveal_strlit("gl_FrontFacing");
    assert("gl_FrontFacing"@.len() == 14 && "gl_FrontFacing"@[3] == 'F');
    reveal_strlit("gl_SampleID");
    assert("gl_SampleID"@.len() == 11 && "gl_SampleID"@[3] == 'S');
    reveal_strlit("gl_FragDepth");
    assert("gl_FragDepth"@.len() == 12 && "gl_FragDepth"@[7] == 'D');
    reveal_strlit("gl_LocalInvocationID");
    assert("gl_LocalInvocationID"@.len() == 20);
    reveal_strlit("gl_LocalInvocationIndex");
    assert("gl_LocalInvocationIndex"@.len() == 23);
    reveal_strlit("gl_WorkGroupID");
    assert("gl_WorkGroupID"@.len() == 14 && "gl_WorkGroupID"@[3] == 'W');
    reveal_strlit("gl_WorkGroupSize");
    assert("gl_WorkGroupSize"@.len() == 16 && "gl_WorkGroupSize"@[3] == 'W');
}

/// The dimensions that a part of an image type stands for.
pub open spec fn dimension_called(word: Seq<char>) -> Option<ImageDimension> {
    if word == "1D"@ {
        Some(ImageDimension::D1)
    } else if word == "2D"@ {
        Some(ImageDimension::D2)
    } else if word == "3D"@ {
        Some(ImageDimension::D3)
    } else if word == "Cube"@ {
        Some(ImageDimension::Cube)
    } else {
        None
    }
}

/// Every number of dimensions is written as a part of an image type that stands for it and for no
/// other one.
pub proof fn dimensions_can_be_read_back(dim: ImageDimension)
    ensures
        dimension_called(dimension_name(dim)) == Some(dim),
{
    reveal_strlit("1D");
    assert("1D"@.len() == 2 && "1D"@[0] == '1');
    reveal_strlit("2D");
    assert("2D"@.len() == 2 && "2D"@[0] == '2');
    reveal_strlit("3D");
    assert("3D"@.len() == 2 && "3D"@[0] == '3');
    reveal_strlit("Cube");
    assert("Cube"@.len() == 4);
}

/// The storage format that a layout qualifier stands for.
pub open spec fn storage_format_called(word: Seq<char>) -> Option<StorageFormat> {
    if word == "r8"@ {
        Some(StorageFormat::R8Unorm)
    } else if word == "r8_snorm"@ {
        Some(StorageFormat::R8Snorm)
    } else if word == "r8ui"@ {
        Some(StorageFormat::R8Uint)
    } else if word == "r8i"@ {
        Some(StorageFormat::R8Sint)
    } else if word == "r16ui"@ {
        Some(StorageFormat::R16Uint)
    } else if word == "r16i"@ {
        Some(StorageFormat::R16Sint)
    } else if word == "r16f"@ {
        Some(StorageFormat::R16Float)
    } else if word == "rg8"@ {
        Some(StorageFormat::Rg8Unorm)
    } else if word == "rg8_snorm"@ {
        Some(StorageFormat::Rg8Snorm)
    } else if word == "rg8ui"@ {
        Some(StorageFormat::Rg8Uint)
    } else if word == "rg8i"@ {
        Some(StorageFormat::Rg8Sint)
    } else if word == "r32ui"@ {
        Some(StorageFormat::R32Uint)
    } else if word == "r32i"@ {
        Some(StorageFormat::R32Sint)
    } else if word == "r32f"@ {
        Some(StorageFormat::R32Float)
    } else if word == "rg16ui"@ {
        Some(StorageFormat::Rg16Uint)
    } else if word == "rg16i"@ {
        Some(StorageFormat::Rg16Sint)
    } else if word == "rg16f"@ {
        Some(StorageFormat::Rg16Float)
    } else if word == "rgba8"@ {
        Some(StorageFormat::Rgba8Unorm)
    } else if word == "rgba8_snorm"@ {
        Some(StorageFormat::Rgba8Snorm)
    } else if word == "rgba8ui"@ {
        Some(StorageFormat::Rgba8Uint)
    } else if word == "rgba8i"@ {
        Some(StorageFormat::Rgba8Sint)
    } else if word == "rgb10_a2"@ {
        Some(StorageFormat::Rgb10a2Unorm)
    } else if word == "r11f_g11f_b10f"@ {
        Some(StorageFormat::Rg11b10Float)
    } else if word == "rg32ui"@ {
        Some(StorageFormat::Rg32Uint)
    } else if word == "rg32i"@ {
        Some(StorageFormat::Rg32Sint)
    } else if word == "rg32f"@ {
        Some(StorageFormat::Rg32Float)
    } else if word == "rgba16ui"@ {
        Some(StorageFormat::Rgba16Uint)
    } else if word == "rgba16i"@ {
        Some(StorageFormat::Rgba16Sint)
    } else if word == "rgba16f"@ {
        Some(StorageFormat::Rgba16Float)
    } else if word == "rgba32ui"@ {
        Some(StorageFormat::Rgba32Uint)
    } else if word == "rgba32i"@ {
        Some(StorageFormat::Rgba32Sint)
    } else if word == "rgba32f"@ {
        Some(StorageFormat::Rgba32Float)
    } else {
        None
    }
}

/// Every storage format is written as a layout qualifier that stands for that format and for no
/// other one.
pub proof fn storage_formats_can_be_read_back(format: StorageFormat)
    ensures
        storage_format_called(storage_format_name(format)) == Some(format),
{
    reveal_strlit("r8");
    assert("r8"@.len() == 2);
    reveal_strlit("r8_snorm");
    assert("r8_snorm"@.len() == 8 && "r8_snorm"@[4] == 'n');
    reveal_strlit("r8ui");
    assert("r8ui"@.len() == 4 && "r8ui"@[1] == '8' && "r8ui"@[3] == 'i');
    reveal_strlit("r8i");
    assert("r8i"@.len() == 3 && "r8i"@[1] == '8');
    reveal_strlit("r16ui");
    assert("r16ui"@.len() == 5 && "r16ui"@[2] == '6' && "r16ui"@[4] == 'i');
    reveal_strlit("r16i");
    assert("r16i"@.len() == 4 && "r16i"@[1] == '1' && "r16i"@[3] == 'i');
    reveal_strlit("r16f");
    assert("r16f"@.len() == 4 && "r16f"@[1] == '1' && "r16f"@[3] == 'f');
    reveal_strlit("rg8");
    assert("rg8"@.len() == 3 && "rg8"@[1] == 'g');
    reveal_strlit("rg8_snorm");
    assert("rg8_snorm"@.len() == 9);
    reveal_strlit("rg8ui");
    assert("rg8ui"@.len() == 5 && "rg8ui"@[2] == '8' && "rg8ui"@[4] == 'i');
    reveal_strlit("rg8i");
    assert("rg8i"@.len() == 4 && "rg8i"@[1] == 'g' && "rg8i"@[3] == 'i');
    reveal_strlit("r32ui");
    assert("r32ui"@.len() == 5 && "r32ui"@[2] == '2' && "r32ui"@[4] == 'i');
    reveal_strlit("r32i");
    assert("r32i"@.len() == 4 && "r32i"@[1] == '3' && "r32i"@[3] == 'i');
    reveal_strlit("r32f");
    assert("r32f"@.len() == 4 && "r32f"@[1] == '3' && "r32f"@[3] == 'f');
    reveal_strlit("rg16ui");
    assert("rg16ui"@.len() == 6 && "rg16ui"@[2] == '1');
    reveal_strlit("rg16i");
    assert("rg16i"@.len() == 5 && "rg16i"@[2] == '1' && "rg16i"@[4] == 'i');
    reveal_strlit("rg16f");
    assert("rg16f"@.len() == 5 && "rg16f"@[2] == '1' && "rg16f"@[4] == 'f');
    reveal_strlit("rgba8");
    assert("rgba8"@.len() == 5 && "rgba8"@[2] == 'b' && "rgba8"@[4] == '8');
    reveal_strlit("rgba8_snorm");
    assert("rgba8_snorm"@.len() == 11);
    reveal_strlit("rgba8ui");
    assert("rgba8ui"@.len() == 7 && "rgba8ui"@[4] == '8' && "rgba8ui"@[6] == 'i');
    reveal_strlit("rgba8i");
    assert("rgba8i"@.len() == 6 && "rgba8i"@[2] == 'b');
    reveal_strlit("rgb10_a2");
    assert("rgb10_a2"@.len() == 8 && "rgb10_a2"@[4] == '0');
    reveal_strlit("r11f_g11f_b10f");
    assert("r11f_g11f_b10f"@.len() == 14);
    reveal_strlit("rg32ui");
    assert("rg32ui"@.len() == 6 && "rg32ui"@[2] == '3');
    reveal_strlit("rg32i");
    assert("rg32i"@.len() == 5 && "rg32i"@[2] == '3' && "rg32i"@[4] == 'i');
    reveal_strlit("rg32f");
    assert("rg32f"@.len() == 5 && "rg32f"@[2] == '3' && "rg32f"@[4] == 'f');
    reveal_strlit("rgba16ui");
    assert("rgba16ui"@.len() == 8 && "rgba16ui"@[4] == '1');
    reveal_strlit("rgba16i");
    assert("rgba16i"@.len() == 7 && "rgba16i"@[4] == '1' && "rgba16i"@[6] == 'i');
    reveal_strlit("rgba16f");
    assert("rgba16f"@.len() == 7 && "rgba16f"@[4] == '1' && "rgba16f"@[6] == 'f');
    reveal_strlit("rgba32ui");
    assert("rgba32ui"@.len() == 8 && "rgba32ui"@[4] == '3');
    reveal_strlit("rgba32i");
    assert("rgba32i"@.len() == 7 && "rgba32i"@[4] == '3' && "rgba32i"@[6] == 'i');
    reveal_strlit("rgba32f");
    assert("rgba32f"@.len() == 7 && "rgba32f"@[4] == '3' && "rgba32f"@[6] == 'f');
}

/// The binary operator that a token stands for.
pub open spec fn binary_operator_called(word: Seq<char>) -> Option<BinaryOperator> {
    if word == "+"@ {
        Some(BinaryOperator::Add)
    } else if word == "-"@ {
        Some(BinaryOperator::Subtract)
    } else if word == "*"@ {
        Some(BinaryOperator::Multiply)
    } else if word == "/"@ {
        Some(BinaryOperator::Divide)
    } else if word == "%"@ {
        Some(BinaryOperator::Modulo)
    } else if word == "=="@ {
        Some(BinaryOperator::Equal)
    } else if word == "!="@ {
        Some(BinaryOperator::NotEqual)
    } else if word == "<"@ {
        Some(BinaryOperator::Less)
    } else if word == "<="@ {
        Some(BinaryOperator::LessEqual)
    } else if word == ">"@ {
        Some(BinaryOperator::Greater)
    } else if word == ">="@ {
        Some(BinaryOperator::GreaterEqual)
    } else if word == "&"@ {
        Some(BinaryOperator::And)
    } else if word == "^"@ {
        Some(BinaryOperator::ExclusiveOr)
    } else if word == "|"@ {
        Some(BinaryOperator::InclusiveOr)
    } else if word == "&&"@ {
        Some(BinaryOperator::LogicalAnd)
    } else if word == "||"@ {
        Some(BinaryOperator::LogicalOr)
    } else if word == "<<"@ {
        Some(BinaryOperator::ShiftLeft)
    } else if word == ">>"@ {
        Some(BinaryOperator::ShiftRight)
    } else {
        None
    }
}

/// Every binary operator is written as a token that stands for that operator and for no other one.
pub proof fn binary_operators_can_be_read_back(op: BinaryOperator)
    ensures
        binary_operator_called(binary_operator_text(op)) == Some(op),
{
    reveal_strlit("+");
    assert("+"@.len() == 1 && "+"@[0] == '+');
    reveal_strlit("-");
    assert("-"@.len() == 1 && "-"@[0] == '-');
    reveal_strlit("*");
    assert("*"@.len() == 1 && "*"@[0] == '*');
    reveal_strlit("/");
    assert("/"@.len() == 1 && "/"@[0] == '/');
    reveal_strlit("%");
    assert("%"@.len() == 1 && "%"@[0] == '%');
    reveal_strlit("==");
    assert("=="@.len() == 2 && "=="@[0] == '=' && "=="@[1] == '=');
    reveal_strlit("!=");
    assert("!="@.len() == 2 && "!="@[0] == '!' && "!="@[1] == '=');
    reveal_strlit("<");
    assert("<"@.len() == 1 && "<"@[0] == '<');
    reveal_strlit("<=");
    assert("<="@.len() == 2 && "<="@[0] == '<' && "<="@[1] == '=');
    reveal_strlit(">");
    assert(">"@.len() == 1 && ">"@[0] == '>');
    reveal_strlit(">=");
    assert(">="@.len() == 2 && ">="@[0] == '>' && ">="@[1] == '=');
    reveal_strlit("&");
    assert("&"@.len() == 1 && "&"@[0] == '&');
    reveal_strlit("^");
    assert("^"@.len() == 1 && "^"@[0] == '^');
    reveal_strlit("|");
    assert("|"@.len() == 1 && "|"@[0] == '|');
    reveal_strlit("&&");
    assert("&&"@.len() == 2 && "&&"@[0] == '&' && "&&"@[1] == '&');
    reveal_strlit("||");
    assert("||"@.len() == 2 && "||"@[0] == '|' && "||"@[1] == '|');
    reveal_strlit("<<");
    assert("<<"@.len() == 2 && "<<"@[0] == '<' && "<<"@[1] == '<');
    reveal_strlit(">>");
    assert(">>"@.len() == 2 && ">>"@[0] == '>' && ">>"@[1] == '>');
}

/// The axis of the derivative that a function computes.
pub open spec fn derivative_called(word: Seq<char>) -> Option<DerivativeAxis> {
    if word == "dFdx"@ {
        Some(DerivativeAxis::X)
    } else if word == "dFdy"@ {
        Some(DerivativeAxis::Y)
    } else if word == "fwidth"@ {
        Some(DerivativeAxis::Width)
    } else {
        None
    }
}

/// Every derivative is written as a function that computes that derivative and no other one.
pub proof fn derivatives_can_be_read_back(axis: DerivativeAxis)
    ensures
        derivative_called(derivative_function(axis)) == Some(axis),
{
    reveal_strlit("dFdx");
    assert("dFdx"@.len() == 4 && "dFdx"@[3] == 'x');
    reveal_strlit("dFdy");
    assert("dFdy"@.len() == 4 && "dFdy"@[3] == 'y');
    reveal_strlit("fwidth");
    assert("fwidth"@.len() == 6);
}

/// The relation that a function tests; an exclamation mark inverts the answer.
pub open spec fn relation_called(word: Seq<char>) -> Option<RelationalFunction> {
    if word == "!isinf"@ {
        Some(RelationalFunction::IsFinite)
    } else if word == "isinf"@ {
        Some(RelationalFunction::IsInf)
    } else if word == "isnan"@ {
        Some(RelationalFunction::IsNan)
    } else if word == "!isnan"@ {
        Some(RelationalFunction::IsNormal)
    } else if word == "all"@ {
        Some(RelationalFunction::All)
    } else if word == "any"@ {
        Some(RelationalFunction::Any)
    } else {
        None
    }
}

/// Every relation is written as a function that tests that relation and no other one.
pub proof fn relations_can_be_read_back(fun: RelationalFunction)
    ensures
        relation_called(relational_function(fun)) == Some(fun),
{
    reveal_strlit("!isinf");
    assert("!isinf"@.len() == 6 && "!isinf"@[3] == 'i');
    reveal_strlit("isinf");
    assert("isinf"@.len() == 5 && "isinf"@[2] == 'i');
    reveal_strlit("isnan");
    assert("isnan"@.len() == 5 && "isnan"@[2] == 'n');
    reveal_strlit("!isnan");
    assert("!isnan"@.len() == 6 && "!isnan"@[3] == 'n');
    reveal_strlit("all");
    assert("all"@.len() == 3 && "all"@[1] == 'l');
    reveal_strlit("any");
    assert("any"@.len() == 3 && "any"@[1] == 'n');
}

/// The math function that a glsl function computes.
pub open spec fn math_called(word: Seq<char>) -> Option<MathFunction> {
    if word == "abs"@ {
        Some(MathFunction::Abs)
    } else if word == "min"@ {
        Some(MathFunction::Min)
    } else if word == "max"@ {
        Some(MathFunction::Max)
    } else if word == "clamp"@ {
        Some(MathFunction::Clamp)
    } else if word == "cos"@ {
        Some(MathFunction::Cos)
    } else if word == "cosh"@ {
        Some(MathFunction::Cosh)
    } else if word == "sin"@ {
        Some(MathFunction::Sin)
    } else if word == "sinh"@ {
        Some(MathFunction::Sinh)
    } else if word == "tan"@ {
        Some(MathFunction::Tan)
    } else if word == "tanh"@ {
        Some(MathFunction::Tanh)
    } else if word == "acos"@ {
        Some(MathFunction::Acos)
    } else if word == "asin"@ {
        Some(MathFunction::Asin)
    } else if word == "atan"@ {
        Some(MathFunction::Atan)
    } else if word == "atan2"@ {
        Some(MathFunction::Atan2)
    } else if word == "ceil"@ {
        Some(MathFunction::Ceil)
    } else if word == "floor"@ {
        Some(MathFunction::Floor)
    } else if word == "round"@ {
        Some(MathFunction::Round)
    } else if word == "fract"@ {
        Some(MathFunction::Fract)
    } else if word == "trunc"@ {
        Some(MathFunction::Trunc)
    } else if word == "modf"@ {
        Some(MathFunction::Modf)
    } else if word == "frexp"@ {
        Some(MathFunction::Frexp)
    } else if word == "ldexp"@ {
        Some(MathFunction::Ldexp)
    } else if word == "exp"@ {
        Some(MathFunction::Exp)
    } else if word == "exp2"@ {
        Some(MathFunction::Exp2)
    } else if word == "log"@ {
        Some(MathFunction::Log)
    } else if word == "log2"@ {
        Some(MathFunction::Log2)
    } else if word == "pow"@ {
        Some(MathFunction::Pow)
    } else if word == "dot"@ {
        Some(MathFunction::Dot)
    } else if word == "outerProduct"@ {
        Some(MathFunction::Outer)
    } else if word == "cross"@ {
        Some(MathFunction::Cross)
    } else if word == "distance"@ {
        Some(MathFunction::Distance)
    } else if word == "length"@ {
        Some(MathFunction::Length)
    } else if word == "normalize"@ {
        Some(MathFunction::Normalize)
    } else if word == "faceforward"@ {
        Some(MathFunction::FaceForward)
    } else if word == "reflect"@ {
        Some(MathFunction::Reflect)
    } else if word == "sign"@ {
        Some(MathFunction::Sign)
    } else if word == "fma"@ {
        Some(MathFunction::Fma)
    } else if word == "mix"@ {
        Some(MathFunction::Mix)
    } else if word == "step"@ {
        Some(MathFunction::Step)
    } else if word == "smoothstep"@ {
        Some(MathFunction::SmoothStep)
    } else if word == "sqrt"@ {
        Some(MathFunction::Sqrt)
    } else if word == "inversesqrt"@ {
        Some(MathFunction::InverseSqrt)
    } else if word == "transpose"@ {
        Some(MathFunction::Transpose)
    } else if word == "determinant"@ {
        Some(MathFunction::Determinant)
    } else if word == "bitCount"@ {
        Some(MathFunction::CountOneBits)
    } else if word == "bitfieldReverse"@ {
        Some(MathFunction::ReverseBits)
    } else {
        None
    }
}

/// Every math function is written as a glsl function that computes it and no other one.
pub proof fn math_functions_can_be_read_back(fun: MathFunction)
    ensures
        math_called(math_function(fun)) == Some(fun),
{
    reveal_strlit("abs");
    assert("abs"@.len() == 3 && "abs"@[0] == 'a' && "abs"@[1] == 'b' && "abs"@[2] == 's');
    reveal_strlit("min");
    assert("min"@.len() == 3 && "min"@[0] == 'm' && "min"@[1] == 'i' && "min"@[2] == 'n');
    reveal_strlit("max");
    assert("max"@.len() == 3 && "max"@[0] == 'm' && "max"@[1] == 'a' && "max"@[2] == 'x');
    reveal_strlit("clamp");
    assert("clamp"@.len() == 5 && "clamp"@[0] == 'c' && "clamp"@[4] == 'p');
    reveal_strlit("cos");
    assert("cos"@.len() == 3 && "cos"@[0] == 'c' && "cos"@[1] == 'o' && "cos"@[2] == 's');
    reveal_strlit("cosh");
    assert("cosh"@.len() == 4 && "cosh"@[0] == 'c' && "cosh"@[2] == 's');
    reveal_strlit("sin");
    assert("sin"@.len() == 3 && "sin"@[0] == 's' && "sin"@[1] == 'i' && "sin"@[2] == 'n');
    reveal_strlit("sinh");
    assert("sinh"@.len() == 4 && "sinh"@[0] == 's' && "sinh"@[2] == 'n');
    reveal_strlit("tan");
    assert("tan"@.len() == 3 && "tan"@[0] == 't' && "tan"@[1] == 'a' && "tan"@[2] == 'n');
    reveal_strlit("tanh");
    assert("tanh"@.len() == 4 && "tanh"@[0] == 't' && "tanh"@[2] == 'n');
    reveal_strlit("acos");
    assert("acos"@.len() == 4 && "acos"@[0] == 'a' && "acos"@[2] == 'o');
    reveal_strlit("asin");
    assert("asin"@.len() == 4 && "asin"@[0] == 'a' && "asin"@[2] == 'i');
    reveal_strlit("atan");
    assert("atan"@.len() == 4 && "atan"@[0] == 'a' && "atan"@[2] == 'a');
    reveal_strlit("atan2");
    assert("atan2"@.len() == 5 && "atan2"@[0] == 'a' && "atan2"@[4] == '2');
    reveal_strlit("ceil");
    assert("ceil"@.len() == 4 && "ceil"@[0] == 'c' && "ceil"@[2] == 'i');
    reveal_strlit("floor");
    assert("floor"@.len() == 5 && "floor"@[0] == 'f' && "floor"@[4] == 'r');
    reveal_strlit("round");
    assert("round"@.len() == 5 && "round"@[0] == 'r' && "round"@[4] == 'd');
    reveal_strlit("fract");
    assert("fract"@.len() == 5 && "fract"@[0] == 'f' && "fract"@[4] == 't');
    reveal_strlit("trunc");
    assert("trunc"@.len() == 5 && "trunc"@[0] == 't' && "trunc"@[4] == 'c');
    reveal_strlit("modf");
    assert("modf"@.len() == 4 && "modf"@[0] == 'm' && "modf"@[2] == 'd');
    reveal_strlit("frexp");
    assert("frexp"@.len() == 5 && "frexp"@[0] == 'f' && "frexp"@[4] == 'p');
    reveal_strlit("ldexp");
    assert("ldexp"@.len() == 5 && "ldexp"@[0] == 'l' && "ldexp"@[4] == 'p');
    reveal_strlit("exp");
    assert("exp"@.len() == 3 && "exp"@[0] == 'e' && "exp"@[1] == 'x' && "exp"@[2] == 'p');
    reveal_strlit("exp2");
    assert("exp2"@.len() == 4 && "exp2"@[0] == 'e' && "exp2"@[2] == 'p');
    reveal_strlit("log");
    assert("log"@.len() == 3 && "log"@[0] == 'l' && "log"@[1] == 'o' && "log"@[2] == 'g');
    reveal_strlit("log2");
    assert("log2"@.len() == 4 && "log2"@[0] == 'l' && "log2"@[2] == 'g');
    reveal_strlit("pow");
    assert("pow"@.len() == 3 && "pow"@[0] == 'p' && "pow"@[1] == 'o' && "pow"@[2] == 'w');
    reveal_strlit("dot");
    assert("dot"@.len() == 3 && "dot"@[0] == 'd' && "dot"@[1] == 'o' && "dot"@[2] == 't');
    reveal_strlit("outerProduct");
    assert("outerProduct"@.len() == 12);
    reveal_strlit("cross");
    assert("cross"@.len() == 5 && "cross"@[0] == 'c' && "cross"@[4] == 's');
    reveal_strlit("distance");
    assert("distance"@.len() == 8 && "distance"@[0] == 'd');
    reveal_strlit("length");
    assert("length"@.len() == 6);
    reveal_strlit("normalize");
    assert("normalize"@.len() == 9 && "normalize"@[0] == 'n');
    reveal_strlit("faceforward");
    assert("faceforward"@.len() == 11 && "faceforward"@[0] == 'f');
    reveal_strlit("reflect");
    assert("reflect"@.len() == 7);
    reveal_strlit("sign");
    assert("sign"@.len() == 4 && "sign"@[0] == 's' && "sign"@[2] == 'g');
    reveal_strlit("fma");
    assert("fma"@.len() == 3 && "fma"@[0] == 'f' && "fma"@[1] == 'm' && "fma"@[2] == 'a');
    reveal_strlit("mix");
    assert("mix"@.len() == 3 && "mix"@[0] == 'm' && "mix"@[1] == 'i' && "mix"@[2] == 'x');
    reveal_strlit("step");
    assert("step"@.len() == 4 && "step"@[0] == 's' && "step"@[2] == 'e');
    reveal_strlit("smoothstep");
    assert("smoothstep"@.len() == 10);
    reveal_strlit("sqrt");
    assert("sqrt"@.len() == 4 && "sqrt"@[0] == 's' && "sqrt"@[2] == 'r');
    reveal_strlit("inversesqrt");
    assert("inversesqrt"@.len() == 11 && "inversesqrt"@[0] == 'i');
    reveal_strlit("transpose");
    assert("transpose"@.len() == 9 && "transpose"@[0] == 't');
    reveal_strlit("determinant");
    assert("determinant"@.len() == 11 && "determinant"@[0] == 'd');
    reveal_strlit("bitCount");
    assert("bitCount"@.len() == 8 && "bitCount"@[0] == 'b');
    reveal_strlit("bitfieldReverse");
    assert("bitfieldReverse"@.len() == 15);
}

/// The depth condition that the suffix of a depth layout stands for.
pub open spec fn conservative_depth_called(word: Seq<char>) -> Option<ConservativeDepth> {
    if word == "greater"@ {
        Some(ConservativeDepth::GreaterEqual)
    } else if word == "less"@ {
        Some(ConservativeDepth::LessEqual)
    } else if word == "unchanged"@ {
        Some(ConservativeDepth::Unchanged)
    } else {
        None
    }
}

/// Every depth condition is written as a suffix that stands for it and for no other one.
pub proof fn conservative_depths_can_be_read_back(depth: ConservativeDepth)
    ensures
        conservative_depth_called(conservative_depth_name(depth)) == Some(depth),
{
    reveal_strlit("greater");
    assert("greater"@.len() == 7);
    reveal_strlit("less");
    assert("less"@.len() == 4);
    reveal_strlit("unchanged");
    assert("unchanged"@.len() == 9);
}

/// The scalar kind with this description.
pub open spec fn scalar_kind_described(word: Seq<char>) -> Option<ScalarKind> {
    if word == "Sint"@ {
        Some(ScalarKind::Sint)
    } else if word == "Uint"@ {
        Some(ScalarKind::Uint)
    } else if word == "Float"@ {
        Some(ScalarKind::Float)
    } else if word == "Bool"@ {
        Some(ScalarKind::Bool)
    } else {
        None
    }
}

/// Every scalar kind has a description of its own.
pub proof fn described_scalar_kinds_can_be_read_back(kind: ScalarKind)
    ensures
        scalar_kind_described(scalar_kind_words(kind)) == Some(kind),
{
    reveal_strlit("Sint");
    assert("Sint"@.len() == 4 && "Sint"@[0] == 'S');
    reveal_strlit("Uint");
    assert("Uint"@.len() == 4 && "Uint"@[0] == 'U');
    reveal_strlit("Float");
    assert("Float"@.len() == 5);
    reveal_strlit("Bool");
    assert("Bool"@.len() == 4 && "Bool"@[0] == 'B');
}

/// The vector size with this description.
pub open spec fn vector_size_described(word: Seq<char>) -> Option<VectorSize> {
    if word == "Bi"@ {
        Some(VectorSize::Bi)
    } else if word == "Tri"@ {
        Some(VectorSize::Tri)
    } else if word == "Quad"@ {
        Some(VectorSize::Quad)
    } else {
        None
    }
}

/// Every vector size has a description of its own.
pub proof fn described_vector_sizes_can_be_read_back(size: VectorSize)
    ensures
        vector_size_described(vector_size_words(size)) == Some(size),
{
    reveal_strlit("Bi");
    assert("Bi"@.len() == 2);
    reveal_strlit("Tri");
    assert("Tri"@.len() == 3);
    reveal_strlit("Quad");
    assert("Quad"@.len() == 4);
}

/// The storage class with this description.
pub open spec fn storage_class_described(word: Seq<char>) -> Option<StorageClass> {
    if word == "Function"@ {
        Some(StorageClass::Function)
    } else if word == "Input"@ {
        Some(StorageClass::Input)
    } else if word == "Output"@ {
        Some(StorageClass::Output)
    } else if word == "Private"@ {
        Some(StorageClass::Private)
    } else if word == "Storage"@ {
        Some(StorageClass::Storage)
    } else if word == "Uniform"@ {
        Some(StorageClass::Uniform)
    } else if word == "Handle"@ {
        Some(StorageClass::Handle)
    } else if word == "WorkGroup"@ {
        Some(StorageClass::WorkGroup)
    } else if word == "PushConstant"@ {
        Some(StorageClass::PushConstant)
    } else {
        None
    }
}

/// Every storage class has a description of its own.
pub proof fn described_storage_classes_can_be_read_back(class: StorageClass)
    ensures
        storage_class_described(storage_class_words(class)) == Some(class),
{
    reveal_strlit("Function");
    assert("Function"@.len() == 8);
    reveal_strlit("Input");
    assert("Input"@.len() == 5);
    reveal_strlit("Output");
    assert("Output"@.len() == 6 && "Output"@[0] == 'O');
    reveal_strlit("Private");
    assert("Private"@.len() == 7 && "Private"@[0] == 'P');
    reveal_strlit("Storage");
    assert("Storage"@.len() == 7 && "Storage"@[0] == 'S');
    reveal_strlit("Uniform");
    assert("Uniform"@.len() == 7 && "Uniform"@[0] == 'U');
    reveal_strlit("Handle");
    assert("Handle"@.len() == 6 && "Handle"@[0] == 'H');
    reveal_strlit("WorkGroup");
    assert("WorkGroup"@.len() == 9);
    reveal_strlit("PushConstant");
    assert("PushConstant"@.len() == 12);
}

/// The dimensions with this description.
pub open spec fn dimension_described(word: Seq<char>) -> Option<ImageDimension> {
    if word == "D1"@ {
        Some(ImageDimension::D1)
    } else if word == "D2"@ {
        Some(ImageDimension::D2)
    } else if word == "D3"@ {
        Some(ImageDimension::D3)
    } else if word == "Cube"@ {
        Some(ImageDimension::Cube)
    } else {
        None
    }
}

/// Every number of dimensions has a description of its own.
pub proof fn described_dimensions_can_be_read_back(dim: ImageDimension)
    ensures
        dimension_described(dimension_words(dim)) == Some(dim),
{
    reveal_strlit("D1");
    assert("D1"@.len() == 2 && "D1"@[1] == '1');
    reveal_strlit("D2");
    assert("D2"@.len() == 2 && "D2"@[1] == '2');
    reveal_strlit("D3");
    assert("D3"@.len() == 2 && "D3"@[1] == '3');
    reveal_strlit("Cube");
    assert("Cube"@.len() == 4);
}

/// The storage format with this description.
pub open spec fn storage_format_described(word: Seq<char>) -> Option<StorageFormat> {
    if word == "R8Unorm"@ {
        Some(StorageFormat::R8Unorm)
    } else if word == "R8Snorm"@ {
        Some(StorageFormat::R8Snorm)
    } else if word == "R8Uint"@ {
        Some(StorageFormat::R8Uint)
    } else if word == "R8Sint"@ {
        Some(StorageFormat::R8Sint)
    } else if word == "R16Uint"@ {
        Some(StorageFormat::R16Uint)
    } else if word == "R16Sint"@ {
        Some(StorageFormat::R16Sint)
    } else if word == "R16Float"@ {
        Some(StorageFormat::R16Float)
    } else if word == "Rg8Unorm"@ {
        Some(StorageFormat::Rg8Unorm)
    } else if word == "Rg8Snorm"@ {
        Some(StorageFormat::Rg8Snorm)
    } else if word == "Rg8Uint"@ {
        Some(StorageFormat::Rg8Uint)
    } else if word == "Rg8Sint"@ {
        Some(StorageFormat::Rg8Sint)
    } else if word == "R32Uint"@ {
        Some(StorageFormat::R32Uint)
    } else if word == "R32Sint"@ {
        Some(StorageFormat::R32Sint)
    } else if word == "R32Float"@ {
        Some(StorageFormat::R32Float)
    } else if word == "Rg16Uint"@ {
        Some(StorageFormat::Rg16Uint)
    } else if word == "Rg16Sint"@ {
        Some(StorageFormat::Rg16Sint)
    } else if word == "Rg16Float"@ {
        Some(StorageFormat::Rg16Float)
    } else if word == "Rgba8Unorm"@ {
        Some(StorageFormat::Rgba8Unorm)
    } else if word == "Rgba8Snorm"@ {
        Some(StorageFormat::Rgba8Snorm)
    } else if word == "Rgba8Uint"@ {
        Some(StorageFormat::Rgba8Uint)
    } else if word == "Rgba8Sint"@ {
        Some(StorageFormat::Rgba8Sint)
    } else if word == "Rgb10a2Unorm"@ {
        Some(StorageFormat::Rgb10a2Unorm)
    } else if word == "Rg11b10Float"@ {
        Some(StorageFormat::Rg11b10Float)
    } else if word == "Rg32Uint"@ {
        Some(StorageFormat::Rg32Uint)
    } else if word == "Rg32Sint"@ {
        Some(StorageFormat::Rg32Sint)
    } else if word == "Rg32Float"@ {
        Some(StorageFormat::Rg32Float)
    } else if word == "Rgba16Uint"@ {
        Some(StorageFormat::Rgba16Uint)
    } else if word == "Rgba16Sint"@ {
        Some(StorageFormat::Rgba16Sint)
    } else if word == "Rgba16Float"@ {
        Some(StorageFormat::Rgba16Float)
    } else if word == "Rgba32Uint"@ {
        Some(StorageFormat::Rgba32Uint)
    } else if word == "Rgba32Sint"@ {
        Some(StorageFormat::Rgba32Sint)
    } else if word == "Rgba32Float"@ {
        Some(StorageFormat::Rgba32Float)
    } else {
        None
    }
}

/// Every storage format has a description of its own.
pub proof fn described_storage_formats_can_be_read_back(format: StorageFormat)
    ensures
        storage_format_described(storage_format_words(format)) == Some(format),
{
    reveal_strlit("R8Unorm");
    assert("R8Unorm"@.len() == 7 && "R8Unorm"@[2] == 'U' && "R8Unorm"@[3] == 'n');
    reveal_strlit("R8Snorm");
    assert("R8Snorm"@.len() == 7 && "R8Snorm"@[2] == 'S' && "R8Snorm"@[3] == 'n');
    reveal_strlit("R8Uint");
    assert("R8Uint"@.len() == 6 && "R8Uint"@[2] == 'U');
    reveal_strlit("R8Sint");
    assert("R8Sint"@.len() == 6 && "R8Sint"@[2] == 'S');
    reveal_strlit("R16Uint");
    assert("R16Uint"@.len() == 7 && "R16Uint"@[2] == '6' && "R16Uint"@[3] == 'U');
    reveal_strlit("R16Sint");
    assert("R16Sint"@.len() == 7 && "R16Sint"@[2] == '6' && "R16Sint"@[3] == 'S');
    reveal_strlit("R16Float");
    assert("R16Float"@.len() == 8
        && "R16Float"@[2] == '6'
        && "R16Float"@[3] == 'F'
        && "R16Float"@[4] == 'l');
    reveal_strlit("Rg8Unorm");
    assert("Rg8Unorm"@.len() == 8
        && "Rg8Unorm"@[2] == '8'
        && "Rg8Unorm"@[3] == 'U'
        && "Rg8Unorm"@[4] == 'n');
    reveal_strlit("Rg8Snorm");
    assert("Rg8Snorm"@.len() == 8
        && "Rg8Snorm"@[2] == '8'
        && "Rg8Snorm"@[3] == 'S'
        && "Rg8Snorm"@[4] == 'n');
    reveal_strlit("Rg8Uint");
    assert("Rg8Uint"@.len() == 7 && "Rg8Uint"@[2] == '8' && "Rg8Uint"@[3] == 'U');
    reveal_strlit("Rg8Sint");
    assert("Rg8Sint"@.len() == 7 && "Rg8Sint"@[2] == '8' && "Rg8Sint"@[3] == 'S');
    reveal_strlit("R32Uint");
    assert("R32Uint"@.len() == 7 && "R32Uint"@[2] == '2' && "R32Uint"@[3] == 'U');
    reveal_strlit("R32Sint");
    assert("R32Sint"@.len() == 7 && "R32Sint"@[2] == '2' && "R32Sint"@[3] == 'S');
    reveal_strlit("R32Float");
    assert("R32Float"@.len() == 8
        && "R32Float"@[2] == '2'
        && "R32Float"@[3] == 'F'
        && "R32Float"@[4] == 'l');
    reveal_strlit("Rg16Uint");
    assert("Rg16Uint"@.len() == 8
        && "Rg16Uint"@[2] == '1'
        && "Rg16Uint"@[3] == '6'
        && "Rg16Uint"@[4] == 'U');
    reveal_strlit("Rg16Sint");
    assert("Rg16Sint"@.len() == 8
        && "Rg16Sint"@[2] == '1'
        && "Rg16Sint"@[3] == '6'
        && "Rg16Sint"@[4] == 'S');
    reveal_strlit("Rg16Float");
    assert("Rg16Float"@.len() == 9 && "Rg16Float"@[2] == '1' && "Rg16Float"@[5] == 'l');
    reveal_strlit("Rgba8Unorm");
    assert("Rgba8Unorm"@.len() == 10 && "Rgba8Unorm"@[5] == 'U' && "Rgba8Unorm"@[6] == 'n');
    reveal_strlit("Rgba8Snorm");
    assert("Rgba8Snorm"@.len() == 10 && "Rgba8Snorm"@[5] == 'S' && "Rgba8Snorm"@[6] == 'n');
    reveal_strlit("Rgba8Uint");
    assert("Rgba8Uint"@.len() == 9 && "Rgba8Uint"@[2] == 'b' && "Rgba8Uint"@[5] == 'U');
    reveal_strlit("Rgba8Sint");
    assert("Rgba8Sint"@.len() == 9 && "Rgba8Sint"@[2] == 'b' && "Rgba8Sint"@[5] == 'S');
    reveal_strlit("Rgb10a2Unorm");
    assert("Rgb10a2Unorm"@.len() == 12 && "Rgb10a2Unorm"@[2] == 'b');
    reveal_strlit("Rg11b10Float");
    assert("Rg11b10Float"@.len() == 12 && "Rg11b10Float"@[2] == '1');
    reveal_strlit("Rg32Uint");
    assert("Rg32Uint"@.len() == 8
        && "Rg32Uint"@[2] == '3'
        && "Rg32Uint"@[3] == '2'
        && "Rg32Uint"@[4] == 'U');
    reveal_strlit("Rg32Sint");
    assert("Rg32Sint"@.len() == 8
        && "Rg32Sint"@[2] == '3'
        && "Rg32Sint"@[3] == '2'
        && "Rg32Sint"@[4] == 'S');
    reveal_strlit("Rg32Float");
    assert("Rg32Float"@.len() == 9 && "Rg32Float"@[2] == '3' && "Rg32Float"@[5] == 'l');
    reveal_strlit("Rgba16Uint");
    assert("Rgba16Uint"@.len() == 10 && "Rgba16Uint"@[5] == '6' && "Rgba16Uint"@[6] == 'U');
    reveal_strlit("Rgba16Sint");
    assert("Rgba16Sint"@.len() == 10 && "Rgba16Sint"@[5] == '6' && "Rgba16Sint"@[6] == 'S');
    reveal_strlit("Rgba16Float");
    assert("Rgba16Float"@.len() == 11 && "Rgba16Float"@[4] == '1');
    reveal_strlit("Rgba32Uint");
    assert("Rgba32Uint"@.len() == 10 && "Rgba32Uint"@[5] == '2' && "Rgba32Uint"@[6] == 'U');
    reveal_strlit("Rgba32Sint");
    assert("Rgba32Sint"@.len() == 10 && "Rgba32Sint"@[5] == '2' && "Rgba32Sint"@[6] == 'S');
    reveal_strlit("Rgba32Float");
    assert("Rgba32Float"@.len() == 11 && "Rgba32Float"@[4] == '3');
}

/// The interpolation that a qualifier stands for.
pub open spec fn interpolation_called(word: Seq<char>) -> Option<Interpolation> {
    if word == "smooth"@ {
        Some(Interpolation::Perspective)
    } else if word == "noperspective"@ {
        Some(Interpolation::Linear)
    } else if word == "flat"@ {
        Some(Interpolation::Flat)
    } else if word == "centroid"@ {
        Some(Interpolation::Centroid)
    } else if word == "sample"@ {
        Some(Interpolation::Sample)
    } else {
        None
    }
}

/// Every interpolation except for that of patches is written as a qualifier that stands for that
/// interpolation and for no other one.
pub proof fn interpolations_can_be_read_back(interpolation: Interpolation)
    ensures
        match interpolation_qualifier(interpolation) {
            Some(qualifier) => interpolation_called(qualifier) == Some(interpolation),
            None => interpolation is Patch,
        },
{
    reveal_strlit("smooth");
    assert("smooth"@.len() == 6 && "smooth"@[1] == 'm');
    reveal_strlit("noperspective");
    assert("noperspective"@.len() == 13);
    reveal_strlit("flat");
    assert("flat"@.len() == 4);
    reveal_strlit("centroid");
    assert("centroid"@.len() == 8);
    reveal_strlit("sample");
    assert("sample"@.len() == 6 && "sample"@[1] == 'a');
}

/// The qualifier of a storage class tells whether it is for inputs, for outputs, for buffers, for
/// uniforms or for work groups. Only storage classes that have no place in a declaration have no
/// qualifier.
pub proof fn storage_classes_have_their_qualifiers(class: StorageClass)
    ensures
        class is Input <==> storage_class_qualifier(class) == "in"@,
        class is Output <==> storage_class_qualifier(class) == "out"@,
        class is Storage <==> storage_class_qualifier(class) == "buffer"@,
        class is Uniform || class is Handle <==> storage_class_qualifier(class) == "uniform"@,
        class is WorkGroup <==> storage_class_qualifier(class) == "shared"@,
        class is Function || class is Private || class is PushConstant <==> storage_class_qualifier(
            class,
        ).len() == 0,
{
    reveal_strlit("in");
    assert("in"@.len() == 2);
    reveal_strlit("out");
    assert("out"@.len() == 3);
    reveal_strlit("buffer");
    assert("buffer"@.len() == 6 && "buffer"@[0] == 'b');
    reveal_strlit("uniform");
    assert("uniform"@.len() == 7);
    reveal_strlit("shared");
    assert("shared"@.len() == 6 && "shared"@[0] == 's');
    reveal_strlit("");
    assert(""@.len() == 0);
}

/// The scalar that a type name stands for: its kind, and its width for floats.
pub open spec fn scalar_called(word: Seq<char>) -> Option<(ScalarKind, Option<Bytes>)> {
    if word == "int"@ {
        Some((ScalarKind::Sint, None))
    } else if word == "uint"@ {
        Some((ScalarKind::Uint, None))
    } else if word == "bool"@ {
        Some((ScalarKind::Bool, None))
    } else if word == "float"@ {
        Some((ScalarKind::Float, Some(4)))
    } else if word == "double"@ {
        Some((ScalarKind::Float, Some(8)))
    } else {
        None
    }
}

/// The scalar that the prefix of a type stands for: its kind, and its width for floats.
pub open spec fn scalar_prefixed(letter: Seq<char>) -> Option<(ScalarKind, Option<Bytes>)> {
    if letter == "i"@ {
        Some((ScalarKind::Sint, None))
    } else if letter == "u"@ {
        Some((ScalarKind::Uint, None))
    } else if letter == "b"@ {
        Some((ScalarKind::Bool, None))
    } else if letter.len() == 0 {
        Some((ScalarKind::Float, Some(4)))
    } else if letter == "d"@ {
        Some((ScalarKind::Float, Some(8)))
    } else {
        None
    }
}

/// Every scalar that glsl has is written as a type name that stands for that scalar, and marks
/// other types with a prefix that stands for it too. Glsl has all the scalars but for floats that
/// are neither 4 nor 8 bytes wide.
pub proof fn scalars_can_be_read_back(kind: ScalarKind, width: Bytes)
    ensures
        scalar_exists(kind, width) <==> (kind is Float ==> (width == 4 || width == 8)),
        scalar_exists(kind, width) ==> ({
            let scalar = if kind is Float {
                (kind, Some(width))
            } else {
                (kind, None)
            };
            &&& scalar_called(scalar_name(kind, width)) == Some(scalar)
            &&& scalar_prefixed(scalar_prefix(kind, width)) == Some(scalar)
        }),
{
    reveal_strlit("int");
    assert("int"@.len() == 3);
    reveal_strlit("uint");
    assert("uint"@.len() == 4 && "uint"@[0] == 'u');
    reveal_strlit("bool");
    assert("bool"@.len() == 4 && "bool"@[0] == 'b');
    reveal_strlit("float");
    assert("float"@.len() == 5);
    reveal_strlit("double");
    assert("double"@.len() == 6);
    reveal_strlit("i");
    assert("i"@.len() == 1 && "i"@[0] == 'i');
    reveal_strlit("u");
    assert("u"@.len() == 1 && "u"@[0] == 'u');
    reveal_strlit("b");
    assert("b"@.len() == 1 && "b"@[0] == 'b');
    reveal_strlit("");
    assert(""@.len() == 0);
    reveal_strlit("d");
    assert("d"@.len() == 1 && "d"@[0] == 'd');
}

/// Truth values are described by their names.
pub proof fn described_truth_values_can_be_read_back(b: bool)
    ensures
        b <==> bool_words(b) == "true"@,
        !b <==> bool_words(b) == "false"@,
{
    reveal_strlit("true");
    assert("true"@.len() == 4);
    reveal_strlit("false");
    assert("false"@.len() == 5);
}

} // verus!
