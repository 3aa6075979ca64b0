use glsl_writer::arena::{Arena, Handle};
use glsl_writer::context::{IdGenerator, Options};
use glsl_writer::describe::{append_type, cannot_apply_not, cannot_bitcast, cannot_index};
use glsl_writer::error::{Error, Features};
use glsl_writer::ir::{
    ArraySize, BuiltIn, GlobalUse, ImageClass, ImageDimension, Interpolation, MathFunction,
    ScalarKind, ShaderStage, StorageClass, StorageFormat, StructMember, TypeInner, VectorSize,
};
use glsl_writer::names::{NameKey, Names};
use glsl_writer::terms::{
    glsl_built_in, glsl_dimension, glsl_interpolation, glsl_math, glsl_scalar, glsl_storage_class,
    glsl_storage_format,
};
use glsl_writer::text::{append_decimal, append_signed_decimal, append_tabs};
use glsl_writer::textures::TextureMappings;
use glsl_writer::version::Version;
use std::cmp::Ordering;

#[test]
fn versions_compare_within_a_profile() {
    let core = Version::Desktop;
    let es = Version::Embedded;
    assert_eq!(core(330).partial_cmp(&core(450)), Some(Ordering::Less));
    assert_eq!(core(450).partial_cmp(&core(450)), Some(Ordering::Equal));
    assert_eq!(core(460).partial_cmp(&core(450)), Some(Ordering::Greater));
    assert_eq!(es(300).partial_cmp(&es(310)), Some(Ordering::Less));
    assert_eq!(es(310).partial_cmp(&core(310)), None);
    assert_eq!(core(310).partial_cmp(&es(310)), None);
    assert!(core(330) < core(400));
    assert!(!(es(300) < core(400)));
    assert!(core(300) != es(300));
}

#[test]
fn versions_know_their_profile() {
    assert!(Version::Embedded(300).is_es());
    assert!(!Version::Desktop(300).is_es());
    assert_eq!(Version::Desktop(450).to_text(), "450 core");
    assert_eq!(Version::Embedded(65535).to_text(), "65535 es");
    assert!(Version::Desktop(460).is_supported());
    assert!(!Version::Desktop(440).is_supported());
    assert!(!Version::Desktop(300).is_supported());
    assert!(Version::Embedded(300).is_supported());
    assert!(!Version::Embedded(330).is_supported());
}

#[test]
fn numerals() {
    let mut text = String::new();
    append_decimal(&mut text, 0);
    text.push(' ');
    append_decimal(&mut text, 10);
    text.push(' ');
    append_decimal(&mut text, u64::MAX);
    text.push(' ');
    append_signed_decimal(&mut text, -305);
    text.push(' ');
    append_signed_decimal(&mut text, i64::MIN);
    text.push(' ');
    append_signed_decimal(&mut text, 42);
    append_tabs(&mut text, 3);
    append_tabs(&mut text, 0);
    assert_eq!(text, "0 10 18446744073709551615 -305 -9223372036854775808 42\t\t\t");
}

#[test]
fn features_are_sets() {
    let used = Features { bits: 0b0110 };
    let supported = Features { bits: 0b0011 };
    assert_eq!(used.difference(supported), Features { bits: 0b0100 });
    assert!(used.difference(used).is_empty());
    assert!(!used.is_empty());
}

#[test]
fn identifiers_are_unique() {
    let mut generator = IdGenerator::default();
    assert_eq!(generator.generate(), 0);
    assert_eq!(generator.generate(), 1);
    assert_eq!(generator.generate(), 2);
}

#[test]
fn options_can_be_cloned() {
    let options = Options {
        version: Version::Embedded(310),
        entry_point: (ShaderStage::Compute, "cs".to_string()),
    };
    let copy = options.clone();
    assert_eq!(copy.version, options.version);
    assert_eq!(copy.entry_point, options.entry_point);
}

#[test]
fn arenas_hand_out_handles() {
    let mut arena: Arena<u32> = Arena::new();
    let a = arena.append(7);
    let b = arena.append(8);
    assert_eq!((a.index, b.index, arena.len()), (0, 1, 2));
    assert_eq!(arena.try_get(a), Some(&7));
    assert_eq!(arena.try_get(b), Some(&8));
    assert_eq!(arena.try_get(Handle::new(2)), None);
}

#[test]
fn names_are_looked_up_by_key() {
    let row = |names: &[&str]| names.iter().map(|n| n.to_string()).collect::<Vec<_>>();
    let names = Names {
        types: row(&["T"]),
        members: vec![row(&["m", "n"])],
        global_variables: row(&["g", "h"]),
        functions: row(&["f"]),
        arguments: vec![row(&["a"])],
        function_locals: vec![row(&["l"])],
        entry_point_locals: vec![row(&[]), row(&["e"])],
    };
    let get = |key| names.get(key).map(|n| n.as_str());
    assert_eq!(get(NameKey::Type(Handle::new(0))), Some("T"));
    assert_eq!(get(NameKey::StructMember(Handle::new(0), 1)), Some("n"));
    assert_eq!(get(NameKey::StructMember(Handle::new(0), 2)), None);
    assert_eq!(get(NameKey::StructMember(Handle::new(1), 0)), None);
    assert_eq!(get(NameKey::GlobalVariable(Handle::new(1))), Some("h"));
    assert_eq!(get(NameKey::GlobalVariable(Handle::new(2))), None);
    assert_eq!(get(NameKey::Function(Handle::new(0))), Some("f"));
    assert_eq!(get(NameKey::FunctionArgument(Handle::new(0), 0)), Some("a"));
    assert_eq!(get(NameKey::FunctionLocal(Handle::new(0), Handle::new(0))), Some("l"));
    assert_eq!(get(NameKey::EntryPointLocal(0, Handle::new(0))), None);
    assert_eq!(get(NameKey::EntryPointLocal(1, Handle::new(0))), Some("e"));
}

#[test]
fn scalars_have_names_and_prefixes() {
    for (kind, width, prefix, full) in [
        (ScalarKind::Sint, 4, "i", "int"),
        (ScalarKind::Uint, 8, "u", "uint"),
        (ScalarKind::Float, 4, "", "float"),
        (ScalarKind::Float, 8, "d", "double"),
        (ScalarKind::Bool, 1, "b", "bool"),
    ] {
        let strings = glsl_scalar(kind, width).ok().unwrap();
        assert_eq!((strings.prefix, strings.full), (prefix, full));
    }
    assert!(matches!(
        glsl_scalar(ScalarKind::Float, 16).err(),
        Some(Error::UnsupportedScalar(ScalarKind::Float, 16))
    ));
}

#[test]
fn words_of_glsl() {
    assert_eq!(glsl_built_in(BuiltIn::SampleIndex), "gl_SampleID");
    assert_eq!(glsl_built_in(BuiltIn::WorkGroupSize), "gl_WorkGroupSize");
    assert_eq!(glsl_storage_class(StorageClass::Handle), "uniform");
    assert_eq!(glsl_storage_class(StorageClass::PushConstant), "");
    assert_eq!(glsl_storage_class(StorageClass::Function), "");
    assert_eq!(glsl_interpolation(Interpolation::Perspective).ok(), Some("smooth"));
    assert_eq!(glsl_interpolation(Interpolation::Centroid).ok(), Some("centroid"));
    assert_eq!(glsl_interpolation(Interpolation::Sample).ok(), Some("sample"));
    assert!(matches!(
        glsl_interpolation(Interpolation::Patch).err(),
        Some(Error::PatchInterpolationNotSupported)
    ));
    assert_eq!(glsl_dimension(ImageDimension::Cube), "Cube");
    assert_eq!(glsl_dimension(ImageDimension::D1), "1D");
    assert_eq!(glsl_storage_format(StorageFormat::Rgba8Unorm), "rgba8");
    assert_eq!(glsl_storage_format(StorageFormat::Rgba8Uint), "rgba8ui");
    assert_eq!(glsl_storage_format(StorageFormat::Rgb10a2Unorm), "rgb10_a2");
    assert_eq!(glsl_storage_format(StorageFormat::Rg11b10Float), "r11f_g11f_b10f");
    assert_eq!(glsl_math(MathFunction::InverseSqrt), "inversesqrt");
    assert_eq!(glsl_math(MathFunction::FaceForward), "faceforward");
    assert_eq!(glsl_math(MathFunction::Atan2), "atan2");
}

#[test]
fn formats_have_a_scalar_kind() {
    assert_eq!(StorageFormat::R8Unorm.scalar_kind(), ScalarKind::Float);
    assert_eq!(StorageFormat::Rgba32Uint.scalar_kind(), ScalarKind::Uint);
    assert_eq!(StorageFormat::Rg16Sint.scalar_kind(), ScalarKind::Sint);
    assert_eq!(StorageFormat::R16Float.scalar_kind(), ScalarKind::Float);
}

#[test]
fn usage_may_be_empty() {
    assert!(GlobalUse { load: false, store: false }.is_empty());
    assert!(!GlobalUse { load: true, store: false }.is_empty());
    assert!(!GlobalUse { load: false, store: true }.is_empty());
}

#[test]
fn types_in_words() {
    let described = |inner: &TypeInner| {
        let mut text = String::new();
        append_type(&mut text, inner);
        text
    };
    assert_eq!(
        described(&TypeInner::Matrix {
            columns: VectorSize::Bi,
            rows: VectorSize::Quad,
            width: 8
        }),
        "Matrix { columns: Bi, rows: Quad, width: 8 }"
    );
    assert_eq!(
        described(&TypeInner::Array {
            base: Handle::new(3),
            size: ArraySize::Constant(Handle::new(12)),
            stride: Some(16)
        }),
        "Array { base: Handle(3), size: Constant(Handle(12)), stride: Some(16) }"
    );
    assert_eq!(
        described(&TypeInner::Struct {
            block: true,
            members: vec![StructMember { ty: Handle::new(0) }, StructMember { ty: Handle::new(1) }]
        }),
        "Struct { block: true, members: [StructMember { ty: Handle(0) }, StructMember { ty: Handle(1) }] }"
    );
    assert_eq!(
        described(&TypeInner::Image {
            dim: ImageDimension::D2,
            arrayed: false,
            class: ImageClass::Sampled { kind: ScalarKind::Sint, multi: true }
        }),
        "Image { dim: D2, arrayed: false, class: Sampled { kind: Sint, multi: true } }"
    );
    assert_eq!(
        cannot_index(&TypeInner::Sampler { comparison: true }),
        "Cannot index Sampler { comparison: true }"
    );
    assert_eq!(
        cannot_apply_not(&TypeInner::Pointer {
            base: Handle::new(2),
            class: StorageClass::WorkGroup
        }),
        "Cannot apply not to type Pointer { base: Handle(2), class: WorkGroup }"
    );
    assert_eq!(
        cannot_bitcast(ScalarKind::Bool, ScalarKind::Float),
        "Cannot bitcast Bool to Float"
    );
}

#[test]
fn empty_mappings() {
    let mappings = TextureMappings::new();
    assert_eq!(mappings.len(), 0);
    assert!(mappings.get(&"t".to_string()).is_none());
}
