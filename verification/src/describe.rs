//! Types in words, for error messages.
//!
//! A type is described by its variant and its fields, as its debug form is; a handle is described
//! by its index.
use crate::ir::{
    ArraySize, ImageClass, ImageDimension, ScalarKind, StorageClass, StorageFormat, StructMember,
    TypeInner, VectorSize,
};
use crate::text::{append_decimal, decimal};
use vstd::prelude::*;
use vstd::string::*;

verus! {

/// The name of the variant.
pub open spec fn scalar_kind_words(kind: ScalarKind) -> Seq<char> {
    match kind {
        ScalarKind::Sint => "Sint"@,
        ScalarKind::Uint => "Uint"@,
        ScalarKind::Float => "Float"@,
        ScalarKind::Bool => "Bool"@,
    }
}

/// The name of the variant.
fn scalar_kind_str(kind: ScalarKind) -> (s: &'static str)
    ensures
        s@ == scalar_kind_words(kind),
{
    match kind {
        ScalarKind::Sint => "Sint",
        ScalarKind::Uint => "Uint",
        ScalarKind::Float => "Float",
        ScalarKind::Bool => "Bool",
    }
}

/// The name of the variant.
pub open spec fn vector_size_words(size: VectorSize) -> Seq<char> {
    match size {
        VectorSize::Bi => "Bi"@,
        VectorSize::Tri => "Tri"@,
        VectorSize::Quad => "Quad"@,
    }
}

/// The name of the variant.
fn vector_size_str(size: VectorSize) -> (s: &'static str)
    ensures
        s@ == vector_size_words(size),
{
    match size {
        VectorSize::Bi => "Bi",
        VectorSize::Tri => "Tri",
        VectorSize::Quad => "Quad",
    }
}

/// The name of the variant.
pub open spec fn storage_class_words(class: StorageClass) -> Seq<char> {
    match class {
        StorageClass::Function => "Function"@,
        StorageClass::Input => "Input"@,
        StorageClass::Output => "Output"@,
        StorageClass::Private => "Private"@,
        StorageClass::Storage => "Storage"@,
        StorageClass::Uniform => "Uniform"@,
        StorageClass::Handle => "Handle"@,
        StorageClass::WorkGroup => "WorkGroup"@,
        StorageClass::PushConstant => "PushConstant"@,
    }
}

/// The name of the variant.
fn storage_class_str(class: StorageClass) -> (s: &'static str)
    ensures
        s@ == storage_class_words(class),
{
    match class {
        StorageClass::Function => "Function",
        StorageClass::Input => "Input",
        StorageClass::Output => "Output",
        StorageClass::Private => "Private",
        StorageClass::Storage => "Storage",
        StorageClass::Uniform => "Uniform",
        StorageClass::Handle => "Handle",
        StorageClass::WorkGroup => "WorkGroup",
        StorageClass::PushConstant => "PushConstant",
    }
}

/// The name of the variant.
pub open spec fn dimension_words(dim: ImageDimension) -> Seq<char> {
    match dim {
        ImageDimension::D1 => "D1"@,
        ImageDimension::D2 => "D2"@,
        ImageDimension::D3 => "D3"@,
        ImageDimension::Cube => "Cube"@,
    }
}

/// The name of the variant.
fn dimension_str(dim: ImageDimension) -> (s: &'static str)
    ensures
        s@ == dimension_words(dim),
{
    match dim {
        ImageDimension::D1 => "D1",
        ImageDimension::D2 => "D2",
        ImageDimension::D3 => "D3",
        ImageDimension::Cube => "Cube",
    }
}

/// The name of the variant.
pub open spec fn storage_format_words(format: StorageFormat) -> Seq<char> {
    match format {
        StorageFormat::R8Unorm => "R8Unorm"@,
        StorageFormat::R8Snorm => "R8Snorm"@,
        StorageFormat::R8Uint => "R8Uint"@,
        StorageFormat::R8Sint => "R8Sint"@,
        StorageFormat::R16Uint => "R16Uint"@,
        StorageFormat::R16Sint => "R16Sint"@,
        StorageFormat::R16Float => "R16Float"@,
        StorageFormat::Rg8Unorm => "Rg8Unorm"@,
        StorageFormat::Rg8Snorm => "Rg8Snorm"@,
        StorageFormat::Rg8Uint => "Rg8Uint"@,
        StorageFormat::Rg8Sint => "Rg8Sint"@,
        StorageFormat::R32Uint => "R32Uint"@,
        StorageFormat::R32Sint => "R32Sint"@,
        StorageFormat::R32Float => "R32Float"@,
        StorageFormat::Rg16Uint => "Rg16Uint"@,
        StorageFormat::Rg16Sint => "Rg16Sint"@,
        StorageFormat::Rg16Float => "Rg16Float"@,
        StorageFormat::Rgba8Unorm => "Rgba8Unorm"@,
        StorageFormat::Rgba8Snorm => "Rgba8Snorm"@,
        StorageFormat::Rgba8Uint => "Rgba8Uint"@,
        StorageFormat::Rgba8Sint => "Rgba8Sint"@,
        StorageFormat::Rgb10a2Unorm => "Rgb10a2Unorm"@,
        StorageFormat::Rg11b10Float => "Rg11b10Float"@,
        StorageFormat::Rg32Uint => "Rg32Uint"@,
        StorageFormat::Rg32Sint => "Rg32Sint"@,
        StorageFormat::Rg32Float => "Rg32Float"@,
        StorageFormat::Rgba16Uint => "Rgba16Uint"@,
        StorageFormat::Rgba16Sint => "Rgba16Sint"@,
        StorageFormat::Rgba16Float => "Rgba16Float"@,
        StorageFormat::Rgba32Uint => "Rgba32Uint"@,
        StorageFormat::Rgba32Sint => "Rgba32Sint"@,
        StorageFormat::Rgba32Float => "Rgba32Float"@,
    }
}

/// The name of the variant.
fn storage_format_str(format: StorageFormat) -> (s: &'static str)
    ensures
        s@ == storage_format_words(format),
{
    match format {
        StorageFormat::R8Unorm => "R8Unorm",
        StorageFormat::R8Snorm => "R8Snorm",
        StorageFormat::R8Uint => "R8Uint",
        StorageFormat::R8Sint => "R8Sint",
        StorageFormat::R16Uint => "R16Uint",
        StorageFormat::R16Sint => "R16Sint",
        StorageFormat::R16Float => "R16Float",
        StorageFormat::Rg8Unorm => "Rg8Unorm",
        StorageFormat::Rg8Snorm => "Rg8Snorm",
        StorageFormat::Rg8Uint => "Rg8Uint",
        StorageFormat::Rg8Sint => "Rg8Sint",
        StorageFormat::R32Uint => "R32Uint",
        StorageFormat::R32Sint => "R32Sint",
        StorageFormat::R32Float => "R32Float",
        StorageFormat::Rg16Uint => "Rg16Uint",
        StorageFormat::Rg16Sint => "Rg16Sint",
        StorageFormat::Rg16Float => "Rg16Float",
        StorageFormat::Rgba8Unorm => "Rgba8Unorm",
        StorageFormat::Rgba8Snorm => "Rgba8Snorm",
        StorageFormat::Rgba8Uint => "Rgba8Uint",
        StorageFormat::Rgba8Sint => "Rgba8Sint",
        StorageFormat::Rgb10a2Unorm => "Rgb10a2Unorm",
        StorageFormat::Rg11b10Float => "Rg11b10Float",
        StorageFormat::Rg32Uint => "Rg32Uint",
        StorageFormat::Rg32Sint => "Rg32Sint",
        StorageFormat::Rg32Float => "Rg32Float",
        StorageFormat::Rgba16Uint => "Rgba16Uint",
        StorageFormat::Rgba16Sint => "Rgba16Sint",
        StorageFormat::Rgba16Float => "Rgba16Float",
        StorageFormat::Rgba32Uint => "Rgba32Uint",
        StorageFormat::Rgba32Sint => "Rgba32Sint",
        StorageFormat::Rgba32Float => "Rgba32Float",
    }
}

/// `true` or `false`.
pub open spec fn bool_words(b: bool) -> Seq<char> {
    if b {
        "true"@
    } else {
        "false"@
    }
}

/// `true` or `false`.
pub fn bool_str(b: bool) -> (s: &'static str)
    ensures
        s@ == bool_words(b),
{
    if b {
        "true"
    } else {
        "false"
    }
}

/// `text`, then a handle in words.
pub open spec fn with_handle(text: Seq<char>, index: nat) -> Seq<char> {
    text + "Handle("@ + decimal(index) + ")"@
}

/// Appends a handle in words.
fn append_handle(out: &mut String, index: usize)
    ensures
        final(out)@ == with_handle(old(out)@, index as nat),
{
    out.append("Handle(");
    append_decimal(out, index as u64);
    out.append(")");
}

/// `text`, then an image class in words.
pub open spec fn with_image_class(text: Seq<char>, class: ImageClass) -> Seq<char> {
    match class {
        ImageClass::Sampled { kind, multi } => text + "Sampled { kind: "@ + scalar_kind_words(kind)
            + ", multi: "@ + bool_words(multi) + " }"@,
        ImageClass::Depth => text + "Depth"@,
        ImageClass::Storage(format) => text + "Storage("@ + storage_format_words(format) + ")"@,
    }
}

/// Appends an image class in words.
fn append_image_class(out: &mut String, class: ImageClass)
    ensures
        final(out)@ == with_image_class(old(out)@, class),
{
    match class {
        ImageClass::Sampled { kind, multi } => {
            out.append("Sampled { kind: ");
            out.append(scalar_kind_str(kind));
            out.append(", multi: ");
            out.append(bool_str(multi));
            out.append(" }");
        },
        ImageClass::Depth => out.append("Depth"),
        ImageClass::Storage(format) => {
            out.append("Storage(");
            out.append(storage_format_str(format));
            out.append(")");
        },
    }
}

/// `text`, then an array size in words.
pub open spec fn with_array_size(text: Seq<char>, size: ArraySize) -> Seq<char> {
    match size {
        ArraySize::Constant(constant) => with_handle(text + "Constant("@, constant.index as nat)
            + ")"@,
        ArraySize::Dynamic => text + "Dynamic"@,
    }
}

/// Appends an array size in words.
fn append_array_size(out: &mut String, size: &ArraySize)
    ensures
        final(out)@ == with_array_size(old(out)@, *size),
{
    match size {
        ArraySize::Constant(constant) => {
            out.append("Constant(");
            append_handle(out, constant.index);
            out.append(")");
        },
        ArraySize::Dynamic => out.append("Dynamic"),
    }
}

/// `text`, then an array stride in words.
pub open spec fn with_stride(text: Seq<char>, stride: Option<u32>) -> Seq<char> {
    match stride {
        Some(bytes) => text + "Some("@ + decimal(bytes as nat) + ")"@,
        None => text + "None"@,
    }
}

/// Appends an array stride in words.
fn append_stride(out: &mut String, stride: Option<u32>)
    ensures
        final(out)@ == with_stride(old(out)@, stride),
{
    match stride {
        Some(bytes) => {
            out.append("Some(");
            append_decimal(out, bytes as u64);
            out.append(")");
        },
        None => out.append("None"),
    }
}

/// `text`, then the first `count` members of a structure in words, separated by commas.
pub open spec fn with_members(text: Seq<char>, members: Seq<StructMember>, count: nat) -> Seq<char>
    decreases count,
{
    if count == 0 {
        text
    } else {
        let before = with_members(text, members, (count - 1) as nat);
        let before = if count == 1 {
            before
        } else {
            before + ", "@
        };
        with_handle(before + "StructMember { ty: "@, members[count - 1].ty.index as nat) + " }"@
    }
}

/// Appends the members of a structure in words.
fn append_members(out: &mut String, members: &Vec<StructMember>)
    ensures
        final(out)@ == with_members(old(out)@, members@, members@.len()),
{
    for i in 0..members.len()
        invariant
            out@ == with_members(old(out)@, members@, i as nat),
    {
        if i > 0 {
            out.append(", ");
        }
        out.append("StructMember { ty: ");
        append_handle(out, members[i].ty.index);
        out.append(" }");
    }
}

/// `text`, then a type in words.
pub open spec fn with_type(text: Seq<char>, inner: TypeInner) -> Seq<char> {
    match inner {
        TypeInner::Scalar { kind, width } => text + "Scalar { kind: "@ + scalar_kind_words(kind)
            + ", width: "@ + decimal(width as nat) + " }"@,
        TypeInner::Vector { size, kind, width } => text + "Vector { size: "@ + vector_size_words(
            size,
        ) + ", kind: "@ + scalar_kind_words(kind) + ", width: "@ + decimal(width as nat) + " }"@,
        TypeInner::Matrix { columns, rows, width } => text + "Matrix { columns: "@
            + vector_size_words(columns) + ", rows: "@ + vector_size_words(rows) + ", width: "@
            + decimal(width as nat) + " }"@,
        TypeInner::Pointer { base, class } => with_handle(
            text + "Pointer { base: "@,
            base.index as nat,
        ) + ", class: "@ + storage_class_words(class) + " }"@,
        TypeInner::Array { base, size, stride } => with_stride(
            with_array_size(
                with_handle(text + "Array { base: "@, base.index as nat) + ", size: "@,
                size,
            ) + ", stride: "@,
            stride,
        ) + " }"@,
        TypeInner::Struct { block, members } => with_members(
            text + "Struct { block: "@ + bool_words(block) + ", members: ["@,
            members@,
            members@.len(),
        ) + "] }"@,
        TypeInner::Image { dim, arrayed, class } => with_image_class(
            text + "Image { dim: "@ + dimension_words(dim) + ", arrayed: "@ + bool_words(arrayed)
                + ", class: "@,
            class,
        ) + " }"@,
        TypeInner::Sampler { comparison } => text + "Sampler { comparison: "@ + bool_words(
            comparison,
        ) + " }"@,
    }
}

/// Appends a type in words.
pub fn append_type(out: &mut String, inner: &TypeInner)
    ensures
        final(out)@ == with_type(old(out)@, *inner),
{
    match inner {
        TypeInner::Scalar { kind, width } => {
            out.append("Scalar { kind: ");
            out.append(scalar_kind_str(*kind));
            out.append(", width: ");
            append_decimal(out, *width as u64);
            out.append(" }");
        },
        TypeInner::Vector { size, kind, width } => {
            out.append("Vector { size: ");
            out.append(vector_size_str(*size));
            out.append(", kind: ");
            out.append(scalar_kind_str(*kind));
            out.append(", width: ");
            append_decimal(out, *width as u64);
            out.append(" }");
        },
        TypeInner::Matrix { columns, rows, width } => {
            out.append("Matrix { columns: ");
            out.append(vector_size_str(*columns));
            out.append(", rows: ");
            out.append(vector_size_str(*rows));
            out.append(", width: ");
            append_decimal(out, *width as u64);
            out.append(" }");
        },
        TypeInner::Pointer { base, class } => {
            out.append("Pointer { base: ");
            append_handle(out, base.index);
            out.append(", class: ");
            out.append(storage_class_str(*class));
            out.append(" }");
        },
        TypeInner::Array { base, size, stride } => {
            out.append("Array { base: ");
            append_handle(out, base.index);
            out.append(", size: ");
            append_array_size(out, size);
            out.append(", stride: ");
            append_stride(out, *stride);
            out.append(" }");
        },
        TypeInner::Struct { block, members } => {
            out.append("Struct { block: ");
            out.append(bool_str(*block));
            out.append(", members: [");
            append_members(out, members);
            out.append("] }");
        },
        TypeInner::Image { dim, arrayed, class } => {
            out.append("Image { dim: ");
            out.append(dimension_str(*dim));
            out.append(", arrayed: ");
            out.append(bool_str(*arrayed));
            out.append(", class: ");
            append_image_class(out, *class);
            out.append(" }");
        },
        TypeInner::Sampler { comparison } => {
            out.append("Sampler { comparison: ");
            out.append(bool_str(*comparison));
            out.append(" }");
        },
    }
}

/// The message for an index into a type that can't be indexed.
pub open spec fn cannot_index_words(inner: TypeInner) -> Seq<char> {
    with_type("Cannot index "@, inner)
}

/// The message for a negation of a type that can't be negated.
pub open spec fn cannot_apply_not_words(inner: TypeInner) -> Seq<char> {
    with_type("Cannot apply not to type "@, inner)
}

/// The message for a bitcast that glsl doesn't have.
pub open spec fn cannot_bitcast_words(source: ScalarKind, target: ScalarKind) -> Seq<char> {
    "Cannot bitcast "@ + scalar_kind_words(source) + " to "@ + scalar_kind_words(target)
}

/// The message for an index into a type that can't be indexed.
pub fn cannot_index(inner: &TypeInner) -> (message: String)
    ensures
        message@ == cannot_index_words(*inner),
{
    let mut message = String::from_str("Cannot index ");
    append_type(&mut message, inner);
    message
}

/// The message for a negation of a type that can't be negated.
pub fn cannot_apply_not(inner: &TypeInner) -> (message: String)
    ensures
        message@ == cannot_apply_not_words(*inner),
{
    let mut message = String::from_str("Cannot apply not to type ");
    append_type(&mut message, inner);
    message
}

/// The message for a bitcast that glsl doesn't have.
pub fn cannot_bitcast(source: ScalarKind, target: ScalarKind) -> (message: String)
    ensures
        message@ == cannot_bitcast_words(source, target),
{
    let mut message = String::from_str("Cannot bitcast ");
    message.append(scalar_kind_str(source));
    message.append(" to ");
    message.append(scalar_kind_str(target));
    message
}

} // verus!
