//! Descriptions of types have the form of records: a name, then all the fields with their values.
use crate::describe::{
    bool_words, cannot_apply_not_words, cannot_bitcast_words, cannot_index_words, dimension_words,
    scalar_kind_words, storage_class_words, storage_format_words, vector_size_words,
    with_array_size, with_handle, with_image_class, with_members, with_stride, with_type,
};
use crate::ir::{ArraySize, ImageClass, ScalarKind, StructMember, TypeInner};
use crate::text::decimal;
use vstd::prelude::*;

verus! {

/// `text`, then the first `count` fields of a record with their values. A brace stands before the
/// first field, a comma before each other one.
pub open spec fn with_fields(
    text: Seq<char>,
    fields: Seq<(Seq<char>, Seq<char>)>,
    count: nat,
) -> Seq<char>
    decreases count,
{
    if count == 0 {
        text
    } else {
        let before = with_fields(text, fields, (count - 1) as nat);
        let begun = if count == 1 {
            before + " { "@
        } else {
            before + ", "@
        };
        begun + fields[count - 1].0 + ": "@ + fields[count - 1].1
    }
}

/// A record: its name, then all its fields in braces.
pub open spec fn record(name: Seq<char>, fields: Seq<(Seq<char>, Seq<char>)>) -> Seq<char> {
    with_fields(name, fields, fields.len()) + " }"@
}

/// A value in parentheses, with its name in front.
pub open spec fn wrapped(name: Seq<char>, value: Seq<char>) -> Seq<char> {
    name + "("@ + value + ")"@
}

/// The description of a handle is its position.
pub open spec fn handle_description(index: usize) -> Seq<char> {
    wrapped("Handle"@, decimal(index as nat))
}

/// The description of an image class.
pub open spec fn image_class_description(class: ImageClass) -> Seq<char> {
    match class {
        ImageClass::Sampled { kind, multi } => record(
            "Sampled"@,
            seq![("kind"@, scalar_kind_words(kind)), ("multi"@, bool_words(multi))],
        ),
        ImageClass::Depth => "Depth"@,
        ImageClass::Storage(format) => wrapped("Storage"@, storage_format_words(format)),
    }
}

/// The description of the size of an array.
pub open spec fn array_size_description(size: ArraySize) -> Seq<char> {
    match size {
        ArraySize::Constant(constant) => wrapped("Constant"@, handle_description(constant.index)),
        ArraySize::Dynamic => "Dynamic"@,
    }
}

/// The description of the stride of an array.
pub open spec fn stride_description(stride: Option<u32>) -> Seq<char> {
    match stride {
        Some(bytes) => wrapped("Some"@, decimal(bytes as nat)),
        None => "None"@,
    }
}

/// The descriptions of the first `count` members of a structure, with commas between them.
pub open spec fn member_descriptions(members: Seq<StructMember>, count: nat) -> Seq<char>
    decreases count,
{
    if count == 0 {
        Seq::empty()
    } else {
        let before = member_descriptions(members, (count - 1) as nat);
        let begun = if count == 1 {
            before
        } else {
            before + ", "@
        };
        begun + record(
            "StructMember"@,
            seq![("ty"@, handle_description(members[count - 1].ty.index))],
        )
    }
}

/// The description of a type: the name of its sort, then all its properties.
pub open spec fn type_description(inner: TypeInner) -> Seq<char> {
    match inner {
        TypeInner::Scalar { kind, width } => record(
            "Scalar"@,
            seq![("kind"@, scalar_kind_words(kind)), ("width"@, decimal(width as nat))],
        ),
        TypeInner::Vector { size, kind, width } => record(
            "Vector"@,
            seq![
                ("size"@, vector_size_words(size)),
                ("kind"@, scalar_kind_words(kind)),
                ("width"@, decimal(width as nat)),
            ],
        ),
        TypeInner::Matrix { columns, rows, width } => record(
            "Matrix"@,
            seq![
                ("columns"@, vector_size_words(columns)),
                ("rows"@, vector_size_words(rows)),
                ("width"@, decimal(width as nat)),
            ],
        ),
        TypeInner::Pointer { base, class } => record(
            "Pointer"@,
            seq![("base"@, handle_description(base.index)), ("class"@, storage_class_words(class))],
        ),
        TypeInner::Array { base, size, stride } => record(
            "Array"@,
            seq![
                ("base"@, handle_description(base.index)),
                ("size"@, array_size_description(size)),
                ("stride"@, stride_description(stride)),
            ],
        ),
        TypeInner::Struct { block, members } => record(
            "Struct"@,
            seq![
                ("block"@, bool_words(block)),
                ("members"@, "["@ + member_descriptions(members@, members@.len()) + "]"@),
            ],
        ),
        TypeInner::Image { dim, arrayed, class } => record(
            "Image"@,
            seq![
                ("dim"@, dimension_words(dim)),
                ("arrayed"@, bool_words(arrayed)),
                ("class"@, image_class_description(class)),
            ],
        ),
        TypeInner::Sampler { comparison } => record(
            "Sampler"@,
            seq![("comparison"@, bool_words(comparison))],
        ),
    }
}

/// Fields are added at the end.
proof fn fields_are_appended(
    text: Seq<char>,
    name: Seq<char>,
    fields: Seq<(Seq<char>, Seq<char>)>,
    count: nat,
)
    ensures
        with_fields(text + name, fields, count) == text + with_fields(name, fields, count),
    decreases count,
{
    if count > 0 {
        fields_are_appended(text, name, fields, (count - 1) as nat);
        let before = with_fields(name, fields, (count - 1) as nat);
        let mark = if count == 1 {
            " { "@
        } else {
            ", "@
        };
        let label = fields[count - 1].0;
        let value = fields[count - 1].1;
        assert(text + before + mark + label + ": "@ + value =~= text + (before + mark + label
            + ": "@ + value));
    }
}

/// A record is added at the end, as its name, then its fields.
proof fn record_is_appended(
    text: Seq<char>,
    name: Seq<char>,
    fields: Seq<(Seq<char>, Seq<char>)>,
)
    ensures
        text + record(name, fields) == with_fields(text + name, fields, fields.len()) + " }"@,
{
    fields_are_appended(text, name, fields, fields.len());
    let inner = with_fields(name, fields, fields.len());
    assert(text + (inner + " }"@) =~= text + inner + " }"@);
}

/// A value in parentheses is added at the end.
proof fn wrapped_is_appended(text: Seq<char>, name: Seq<char>, value: Seq<char>)
    ensures
        text + wrapped(name, value) == text + (name + "("@) + value + ")"@,
{
    assert(text + (name + "("@ + value + ")"@) =~= text + (name + "("@) + value + ")"@);
}

/// The start of a record is its name, a brace and the label of its first field.
proof fn first_label_is_appended(text: Seq<char>, name: Seq<char>, label: Seq<char>)
    ensures
        text + name + " { "@ + label + ": "@ == text + (name + " { "@ + label + ": "@),
{
    assert(text + name + " { "@ + label + ": "@ =~= text + (name + " { "@ + label + ": "@));
}

/// A further field starts with a comma and its label.
proof fn next_label_is_appended(text: Seq<char>, label: Seq<char>)
    ensures
        text + ", "@ + label + ": "@ == text + (", "@ + label + ": "@),
{
    assert(text + ", "@ + label + ": "@ =~= text + (", "@ + label + ": "@));
}

/// A handle is described by its position.
proof fn handle_is_described(text: Seq<char>, index: usize)
    ensures
        with_handle(text, index as nat) == text + handle_description(index),
{
    reveal_strlit("Handle(");
    reveal_strlit("Handle");
    reveal_strlit("(");
    assert("Handle("@ =~= "Handle"@ + "("@);
    wrapped_is_appended(text, "Handle"@, decimal(index as nat));
}

/// A stride is described.
proof fn stride_is_described(text: Seq<char>, stride: Option<u32>)
    ensures
        with_stride(text, stride) == text + stride_description(stride),
{
    if let Some(bytes) = stride {
        reveal_strlit("Some(");
        reveal_strlit("Some");
        reveal_strlit("(");
        assert("Some("@ =~= "Some"@ + "("@);
        wrapped_is_appended(text, "Some"@, decimal(bytes as nat));
    }
}

/// The size of an array is described.
proof fn array_size_is_described(text: Seq<char>, size: ArraySize)
    ensures
        with_array_size(text, size) == text + array_size_description(size),
{
    if let ArraySize::Constant(constant) = size {
        reveal_strlit("Constant(");
        reveal_strlit("Constant");
        reveal_strlit("(");
        assert("Constant("@ =~= "Constant"@ + "("@);
        handle_is_described(text + "Constant("@, constant.index);
        wrapped_is_appended(text, "Constant"@, handle_description(constant.index));
    }
}

/// An image class is described.
proof fn image_class_is_described(text: Seq<char>, class: ImageClass)
    ensures
        with_image_class(text, class) == text + image_class_description(class),
{
    match class {
        ImageClass::Sampled { kind, multi } => {
            reveal_strlit("Sampled { kind: ");
            reveal_strlit("Sampled");
            reveal_strlit(" { ");
            reveal_strlit("kind");
            reveal_strlit(": ");
            assert("Sampled { kind: "@ =~= "Sampled"@ + " { "@ + "kind"@ + ": "@);
            reveal_strlit(", multi: ");
            reveal_strlit(", ");
            reveal_strlit("multi");
            reveal_strlit(": ");
            assert(", multi: "@ =~= ", "@ + "multi"@ + ": "@);
            let fields = seq![
                        ("kind"@, scalar_kind_words(kind)),
                        ("multi"@, bool_words(multi)),
            ];
            record_is_appended(text, "Sampled"@, fields);
            first_label_is_appended(text, "Sampled"@, "kind"@);
            let t1 = with_fields(text + "Sampled"@, fields, 1);
            next_label_is_appended(t1, "multi"@);
            let t2 = with_fields(text + "Sampled"@, fields, 2);
            reveal_with_fuel(with_fields, 3);
        },
        ImageClass::Depth => {},
        ImageClass::Storage(format) => {
            reveal_strlit("Storage(");
            reveal_strlit("Storage");
            reveal_strlit("(");
            assert("Storage("@ =~= "Storage"@ + "("@);
            wrapped_is_appended(text, "Storage"@, storage_format_words(format));
        },
    }
}

/// The members of a structure are described one after the other.
proof fn members_are_described(text: Seq<char>, members: Seq<StructMember>, count: nat)
    ensures
        with_members(text, members, count) == text + member_descriptions(members, count),
    decreases count,
{
    if count == 0 {
        assert(text + Seq::<char>::empty() =~= text);
    } else {
        members_are_described(text, members, (count - 1) as nat);
        let before = member_descriptions(members, (count - 1) as nat);
        let begun = if count == 1 {
            before
        } else {
            before + ", "@
        };
        let start = if count == 1 {
            text + before
        } else {
            text + before + ", "@
        };
        assert(start =~= text + begun);
        member_is_described(start, members[count - 1].ty.index);
        let member = record(
            "StructMember"@,
            seq![("ty"@, handle_description(members[count - 1].ty.index))],
        );
        assert(text + begun + member =~= text + (begun + member));
    }
}

/// A member of a structure is described.
proof fn member_is_described(text: Seq<char>, index: usize)
    ensures
        with_handle(text + "StructMember { ty: "@, index as nat) + " }"@ == text + record(
            "StructMember"@,
            seq![("ty"@, handle_description(index))],
        ),
{
    reveal_strlit("StructMember { ty: ");
    reveal_strlit("StructMember");
    reveal_strlit(" { ");
    reveal_strlit("ty");
    reveal_strlit(": ");
    assert("StructMember { ty: "@ =~= "StructMember"@ + " { "@ + "ty"@ + ": "@);
    let fields = seq![("ty"@, handle_description(index))];
    record_is_appended(text, "StructMember"@, fields);
    first_label_is_appended(text, "StructMember"@, "ty"@);
    let t1 = with_fields(text + "StructMember"@, fields, 1);
    reveal_with_fuel(with_fields, 2);
    handle_is_described(text + "StructMember { ty: "@, index);
}

/// A type is described by the name of its sort and all its properties, after the text that stands
/// before it.
pub proof fn types_are_described_as_records(text: Seq<char>, inner: TypeInner)
    ensures
        with_type(text, inner) == text + type_description(inner),
{
    match inner {
        TypeInner::Scalar { .. } => scalar_is_described(text, inner),
        TypeInner::Vector { .. } => vector_is_described(text, inner),
        TypeInner::Matrix { .. } => matrix_is_described(text, inner),
        TypeInner::Pointer { .. } => pointer_is_described(text, inner),
        TypeInner::Array { .. } => array_is_described(text, inner),
        TypeInner::Struct { .. } => struct_is_described(text, inner),
        TypeInner::Image { .. } => image_is_described(text, inner),
        TypeInner::Sampler { .. } => sampler_is_described(text, inner),
    }
}

/// Types of this sort are described.
proof fn scalar_is_described(text: Seq<char>, inner: TypeInner)
    requires
        inner is Scalar,
    ensures
        with_type(text, inner) == text + type_description(inner),
{
    if let TypeInner::Scalar { kind, width } = inner {
        reveal_strlit("Scalar { kind: ");
        reveal_strlit("Scalar");
        reveal_strlit(" { ");
        reveal_strlit("kind");
        reveal_strlit(": ");
        assert("Scalar { kind: "@ =~= "Scalar"@ + " { "@ + "kind"@ + ": "@);
        reveal_strlit(", width: ");
        reveal_strlit(", ");
        reveal_strlit("width");
        reveal_strlit(": ");
        assert(", width: "@ =~= ", "@ + "width"@ + ": "@);
        let fields = seq![
            ("kind"@, scalar_kind_words(kind)),
            ("width"@, decimal(width as nat)),
        ];
        record_is_appended(text, "Scalar"@, fields);
        first_label_is_appended(text, "Scalar"@, "kind"@);
        let t1 = with_fields(text + "Scalar"@, fields, 1);
        next_label_is_appended(t1, "width"@);
        let t2 = with_fields(text + "Scalar"@, fields, 2);
        reveal_with_fuel(with_fields, 3);
    }
}

/// Types of this sort are described.
proof fn vector_is_described(text: Seq<char>, inner: TypeInner)
    requires
        inner is Vector,
    ensures
        with_type(text, inner) == text + type_description(inner),
{
    if let TypeInner::Vector { size, kind, width } = inner {
        reveal_strlit("Vector { size: ");
        reveal_strlit("Vector");
        reveal_strlit(" { ");
        reveal_strlit("size");
        reveal_strlit(": ");
        assert("Vector { size: "@ =~= "Vector"@ + " { "@ + "size"@ + ": "@);
        reveal_strlit(", kind: ");
        reveal_strlit(", ");
        reveal_strlit("kind");
        reveal_strlit(": ");
        assert(", kind: "@ =~= ", "@ + "kind"@ + ": "@);
        reveal_strlit(", width: ");
        reveal_strlit(", ");
        reveal_strlit("width");
        reveal_strlit(": ");
        assert(", width: "@ =~= ", "@ + "width"@ + ": "@);
        let fields = seq![
            ("size"@, vector_size_words(size)),
            ("kind"@, scalar_kind_words(kind)),
            ("width"@, decimal(width as nat)),
        ];
        record_is_appended(text, "Vector"@, fields);
        first_label_is_appended(text, "Vector"@, "size"@);
        let t1 = with_fields(text + "Vector"@, fields, 1);
        next_label_is_appended(t1, "kind"@);
        let t2 = with_fields(text + "Vector"@, fields, 2);
        next_label_is_appended(t2, "width"@);
        let t3 = with_fields(text + "Vector"@, fields, 3);
        reveal_with_fuel(with_fields, 4);
    }
}

/// Types of this sort are described.
proof fn matrix_is_described(text: Seq<char>, inner: TypeInner)
    requires
        inner is Matrix,
    ensures
        with_type(text, inner) == text + type_description(inner),
{
    if let TypeInner::Matrix { columns, rows, width } = inner {
        reveal_strlit("Matrix { columns: ");
        reveal_strlit("Matrix");
        reveal_strlit(" { ");
        reveal_strlit("columns");
        reveal_strlit(": ");
        assert("Matrix { columns: "@ =~= "Matrix"@ + " { "@ + "columns"@ + ": "@);
        reveal_strlit(", rows: ");
        reveal_strlit(", ");
        reveal_strlit("rows");
        reveal_strlit(": ");
        assert(", rows: "@ =~= ", "@ + "rows"@ + ": "@);
        reveal_strlit(", width: ");
        reveal_strlit(", ");
        reveal_strlit("width");
        reveal_strlit(": ");
        assert(", width: "@ =~= ", "@ + "width"@ + ": "@);
        let fields = seq![
            ("columns"@, vector_size_words(columns)),
            ("rows"@, vector_size_words(rows)),
            ("width"@, decimal(width as nat)),
        ];
        record_is_appended(text, "Matrix"@, fields);
        first_label_is_appended(text, "Matrix"@, "columns"@);
        let t1 = with_fields(text + "Matrix"@, fields, 1);
        next_label_is_appended(t1, "rows"@);
        let t2 = with_fields(text + "Matrix"@, fields, 2);
        next_label_is_appended(t2, "width"@);
        let t3 = with_fields(text + "Matrix"@, fields, 3);
        reveal_with_fuel(with_fields, 4);
    }
}

/// Types of this sort are described.
proof fn pointer_is_described(text: Seq<char>, inner: TypeInner)
    requires
        inner is Pointer,
    ensures
        with_type(text, inner) == text + type_description(inner),
{
    if let TypeInner::Pointer { base, class } = inner {
        reveal_strlit("Pointer { base: ");
        reveal_strlit("Pointer");
        reveal_strlit(" { ");
        reveal_strlit("base");
        reveal_strlit(": ");
        assert("Pointer { base: "@ =~= "Pointer"@ + " { "@ + "base"@ + ": "@);
        reveal_strlit(", class: ");
        reveal_strlit(", ");
        reveal_strlit("class");
        reveal_strlit(": ");
        assert(", class: "@ =~= ", "@ + "class"@ + ": "@);
        let fields = seq![
            ("base"@, handle_description(base.index)),
            ("class"@, storage_class_words(class)),
        ];
        record_is_appended(text, "Pointer"@, fields);
        first_label_is_appended(text, "Pointer"@, "base"@);
        let t1 = with_fields(text + "Pointer"@, fields, 1);
        next_label_is_appended(t1, "class"@);
        let t2 = with_fields(text + "Pointer"@, fields, 2);
        reveal_with_fuel(with_fields, 3);
        handle_is_described(text + "Pointer { base: "@, base.index);
    }
}

/// Types of this sort are described.
proof fn array_is_described(text: Seq<char>, inner: TypeInner)
    requires
        inner is Array,
    ensures
        with_type(text, inner) == text + type_description(inner),
{
    if let TypeInner::Array { base, size, stride } = inner {
        reveal_strlit("Array { base: ");
        reveal_strlit("Array");
        reveal_strlit(" { ");
        reveal_strlit("base");
        reveal_strlit(": ");
        assert("Array { base: "@ =~= "Array"@ + " { "@ + "base"@ + ": "@);
        reveal_strlit(", size: ");
        reveal_strlit(", ");
        reveal_strlit("size");
        reveal_strlit(": ");
        assert(", size: "@ =~= ", "@ + "size"@ + ": "@);
        reveal_strlit(", stride: ");
        reveal_strlit(", ");
        reveal_strlit("stride");
        reveal_strlit(": ");
        assert(", stride: "@ =~= ", "@ + "stride"@ + ": "@);
        let fields = seq![
            ("base"@, handle_description(base.index)),
            ("size"@, array_size_description(size)),
            ("stride"@, stride_description(stride)),
        ];
        record_is_appended(text, "Array"@, fields);
        first_label_is_appended(text, "Array"@, "base"@);
        let t1 = with_fields(text + "Array"@, fields, 1);
        next_label_is_appended(t1, "size"@);
        let t2 = with_fields(text + "Array"@, fields, 2);
        next_label_is_appended(t2, "stride"@);
        let t3 = with_fields(text + "Array"@, fields, 3);
        reveal_with_fuel(with_fields, 4);
        handle_is_described(text + "Array { base: "@, base.index);
        array_size_is_described(t1 + ", size: "@, size);
        stride_is_described(t2 + ", stride: "@, stride);
    }
}

/// Types of this sort are described.
proof fn image_is_described(text: Seq<char>, inner: TypeInner)
    requires
        inner is Image,
    ensures
        with_type(text, inner) == text + type_description(inner),
{
    if let TypeInner::Image { dim, arrayed, class } = inner {
        reveal_strlit("Image { dim: ");
        reveal_strlit("Image");
        reveal_strlit(" { ");
        reveal_strlit("dim");
        reveal_strlit(": ");
        assert("Image { dim: "@ =~= "Image"@ + " { "@ + "dim"@ + ": "@);
        reveal_strlit(", arrayed: ");
        reveal_strlit(", ");
        reveal_strlit("arrayed");
        reveal_strlit(": ");
        assert(", arrayed: "@ =~= ", "@ + "arrayed"@ + ": "@);
        reveal_strlit(", class: ");
        reveal_strlit(", ");
        reveal_strlit("class");
        reveal_strlit(": ");
        assert(", class: "@ =~= ", "@ + "class"@ + ": "@);
        let fields = seq![
            ("dim"@, dimension_words(dim)),
            ("arrayed"@, bool_words(arrayed)),
            ("class"@, image_class_description(class)),
        ];
        record_is_appended(text, "Image"@, fields);
        first_label_is_appended(text, "Image"@, "dim"@);
        let t1 = with_fields(text + "Image"@, fields, 1);
        next_label_is_appended(t1, "arrayed"@);
        let t2 = with_fields(text + "Image"@, fields, 2);
        next_label_is_appended(t2, "class"@);
        let t3 = with_fields(text + "Image"@, fields, 3);
        reveal_with_fuel(with_fields, 4);
        image_class_is_described(t2 + ", class: "@, class);
    }
}

/// Types of this sort are described.
proof fn sampler_is_described(text: Seq<char>, inner: TypeInner)
    requires
        inner is Sampler,
    ensures
        with_type(text, inner) == text + type_description(inner),
{
    if let TypeInner::Sampler { comparison } = inner {
        reveal_strlit("Sampler { comparison: ");
        reveal_strlit("Sampler");
        reveal_strlit(" { ");
        reveal_strlit("comparison");
        reveal_strlit(": ");
        assert("Sampler { comparison: "@ =~= "Sampler"@ + " { "@ + "comparison"@ + ": "@);
        let fields = seq![("comparison"@, bool_words(comparison))];
        record_is_appended(text, "Sampler"@, fields);
        first_label_is_appended(text, "Sampler"@, "comparison"@);
        let t1 = with_fields(text + "Sampler"@, fields, 1);
        reveal_with_fuel(with_fields, 2);
    }
}

/// Types of this sort are described.
proof fn struct_is_described(text: Seq<char>, inner: TypeInner)
    requires
        inner is Struct,
    ensures
        with_type(text, inner) == text + type_description(inner),
{
    if let TypeInner::Struct { block, members } = inner {
        reveal_strlit("Struct { block: ");
        reveal_strlit("Struct");
        reveal_strlit(" { ");
        reveal_strlit("block");
        reveal_strlit(": ");
        assert("Struct { block: "@ =~= "Struct"@ + " { "@ + "block"@ + ": "@);
        reveal_strlit(", members: ");
        reveal_strlit(", ");
        reveal_strlit("members");
        reveal_strlit(": ");
        assert(", members: "@ =~= ", "@ + "members"@ + ": "@);
        let fields = seq![
            ("block"@, bool_words(block)),
            ("members"@, "["@ + member_descriptions(members@, members@.len()) + "]"@),
        ];
        record_is_appended(text, "Struct"@, fields);
        first_label_is_appended(text, "Struct"@, "block"@);
        let t1 = with_fields(text + "Struct"@, fields, 1);
        next_label_is_appended(t1, "members"@);
        let t2 = with_fields(text + "Struct"@, fields, 2);
        reveal_with_fuel(with_fields, 3);
        let list = member_descriptions(members@, members@.len());
        reveal_strlit(", members: [");
        reveal_strlit("[");
        assert(", members: ["@ =~= ", members: "@ + "["@);
        reveal_strlit("] }");
        reveal_strlit("]");
        reveal_strlit(" }");
        assert("] }"@ =~= "]"@ + " }"@);
        members_are_described(t1 + ", members: ["@, members@, members@.len());
        assert(t1 + ", members: ["@ + list + "] }"@ =~= t1 + ", members: "@ + ("["@ + list
            + "]"@) + " }"@);
    }
}

/// The messages of the writer say what can't be done, and then to which type.
pub proof fn messages_describe_the_type(inner: TypeInner, source: ScalarKind, target: ScalarKind)
    ensures
        cannot_index_words(inner) == "Cannot index "@ + type_description(inner),
        cannot_apply_not_words(inner) == "Cannot apply not to type "@ + type_description(inner),
        cannot_bitcast_words(source, target) == "Cannot bitcast "@ + scalar_kind_words(source)
            + " to "@ + scalar_kind_words(target),
{
    types_are_described_as_records("Cannot index "@, inner);
    types_are_described_as_records("Cannot apply not to type "@, inner);
}

} // verus!
