use glsl_writer::arena::{Arena, Handle};
use glsl_writer::context::{Analysis, FeatureReport, Options, Typing};
use glsl_writer::error::{Error, Features, Stop};
use glsl_writer::ir::{
    ArraySize, BinaryOperator, Binding, BuiltIn, ConservativeDepth, Constant, ConstantInner,
    DerivativeAxis, EarlyDepthTest, EntryPoint, Expression, Function, FunctionArgument, GlobalUse,
    GlobalVariable, ImageClass, ImageDimension, Interpolation, LocalVariable, MathFunction, Module,
    RelationalFunction, SampleLevel, ScalarKind, ShaderStage, Statement, StorageAccess,
    StorageClass, StorageFormat, StructMember, SwitchCase, Type, TypeInner, UnaryOperator,
    VectorSize,
};
use glsl_writer::names::Names;
use glsl_writer::textures::TextureMappings;
use glsl_writer::typing::{Resolution, ResolveError, Typifier};
use glsl_writer::version::Version;
use glsl_writer::writer::Writer;

const HEAD: &str = "#version 450 core\n\n\n\n\n";

const FLOAT: TypeInner = TypeInner::Scalar { kind: ScalarKind::Float, width: 4 };

const BOTH: StorageAccess = StorageAccess { load: true, store: true };

struct Shader {
    module: Module,
    options: Options,
    analysis: Analysis,
}

fn empty_function() -> Function {
    Function {
        arguments: vec![],
        return_type: None,
        global_usage: vec![],
        local_variables: Arena::new(),
        expressions: Arena::new(),
        body: vec![],
    }
}

fn global_of(class: StorageClass, ty: Handle<Type>) -> GlobalVariable {
    GlobalVariable { class, binding: None, ty, interpolation: None, storage_access: BOTH }
}

impl Shader {
    fn new() -> Shader {
        Shader {
            module: Module {
                types: Arena::new(),
                constants: Arena::new(),
                global_variables: Arena::new(),
                functions: Arena::new(),
                entry_points: vec![(
                    (ShaderStage::Vertex, "vs".to_string()),
                    EntryPoint { early_depth_test: None, function: empty_function() },
                )],
            },
            options: Options {
                version: Version::Desktop(450),
                entry_point: (ShaderStage::Vertex, "vs".to_string()),
            },
            analysis: Analysis {
                names: Names {
                    types: vec![],
                    members: vec![],
                    global_variables: vec![],
                    functions: vec![],
                    arguments: vec![],
                    function_locals: vec![],
                    entry_point_locals: vec![vec![]],
                },
                features: FeatureReport {
                    used: Features { bits: 0 },
                    supported: Features { bits: 0 },
                    extensions: vec![],
                },
                typing: Typing {
                    functions: vec![],
                    entry_points: vec![Ok(Typifier { resolutions: vec![] })],
                },
            },
        }
    }

    fn ty(&mut self, inner: TypeInner) -> Handle<Type> {
        self.named_ty(inner, "Anonymous", &[])
    }

    fn named_ty(&mut self, inner: TypeInner, name: &str, members: &[&str]) -> Handle<Type> {
        self.analysis.names.types.push(name.to_string());
        self.analysis.names.members.push(members.iter().map(|m| m.to_string()).collect());
        self.module.types.append(Type { inner })
    }

    fn constant(&mut self, inner: ConstantInner, ty: Handle<Type>) -> Handle<Constant> {
        self.module.constants.append(Constant { inner, ty })
    }

    fn global(&mut self, variable: GlobalVariable, name: &str) -> Handle<GlobalVariable> {
        self.analysis.names.global_variables.push(name.to_string());
        self.entry().global_usage.push(GlobalUse { load: true, store: false });
        self.module.global_variables.append(variable)
    }

    fn entry(&mut self) -> &mut Function {
        &mut self.module.entry_points[0].1.function
    }

    fn expr(&mut self, expr: Expression, resolution: Resolution) -> Handle<Expression> {
        match &mut self.analysis.typing.entry_points[0] {
            Ok(typifier) => typifier.resolutions.push(resolution),
            Err(_) => panic!("the types are not resolved"),
        }
        self.entry().expressions.append(expr)
    }

    fn float_expr(&mut self, expr: Expression) -> Handle<Expression> {
        self.expr(expr, Resolution::Value(FLOAT))
    }

    fn number(&mut self, n: i64) -> Handle<Expression> {
        let ty = Handle::new(0);
        let constant = self.constant(ConstantInner::Sint(n), ty);
        self.expr(
            Expression::Constant(constant),
            Resolution::Value(TypeInner::Scalar { kind: ScalarKind::Sint, width: 4 }),
        )
    }

    fn function(&mut self, func: Function, name: &str, resolutions: Vec<Resolution>) -> Handle<Function> {
        self.analysis.names.functions.push(name.to_string());
        let arguments = func.arguments.len();
        self.analysis.names.arguments.push((0..arguments).map(|i| format!("arg{}", i)).collect());
        let locals = func.local_variables.len();
        self.analysis
            .names
            .function_locals
            .push((0..locals).map(|i| format!("{}_local{}", name, i)).collect());
        self.analysis.typing.functions.push(Ok(Typifier { resolutions }));
        self.module.functions.append(func)
    }

    fn call(&mut self, function: Handle<Function>) -> Handle<Expression> {
        self.float_expr(Expression::Call { function, arguments: vec![] })
    }

    fn write(&self) -> (Result<TextureMappings, Error>, String) {
        let mut writer = Writer::new(&self.module, &self.options, &self.analysis).unwrap();
        let result = writer.write();
        (result, writer.out)
    }

    fn text(&self) -> String {
        let (result, text) = self.write();
        assert!(result.is_ok());
        text
    }

    /// The text of the declarations between the prologue and the functions.
    fn declarations(&self) -> String {
        let text = self.text();
        let rest = text.strip_prefix("#version 450 core\n\n\n").unwrap();
        rest.strip_suffix("\nvoid main() {\n\n}\n").unwrap().to_string()
    }

    /// The text of an expression, as the value of a `return`.
    fn returned(&mut self, value: Handle<Expression>) -> String {
        self.entry().body = vec![Statement::Return { value: Some(value) }];
        let text = self.text();
        let start = text.find("\treturn ").unwrap();
        text[start + 8..].strip_suffix(";\n}\n").unwrap().to_string()
    }

    fn rejected(&mut self, value: Handle<Expression>) -> (Error, String) {
        self.entry().body = vec![Statement::Return { value: Some(value) }];
        let (result, text) = self.write();
        (result.err().unwrap(), text)
    }

    fn is_invalid(&self) -> bool {
        let mut writer = Writer::try_new(&self.module, &self.options, &self.analysis).ok().unwrap();
        let result = writer.checked_write();
        if result.is_none() {
            assert_eq!(writer.out, "");
        }
        result.is_none()
    }

    /// The text of the statements of the entry point.
    fn statements(&mut self, body: Vec<Statement>) -> String {
        self.entry().body = body;
        let text = self.text();
        let start = text.find("void main() {\n\n").unwrap();
        text[start + 15..].strip_suffix("}\n").unwrap().to_string()
    }
}

#[test]
fn empty_vertex_shader() {
    let shader = Shader::new();
    let (result, text) = shader.write();
    assert_eq!(result.unwrap().len(), 0);
    assert_eq!(text, format!("{}void main() {{\n\n}}\n", HEAD));
}

#[test]
fn es_has_a_precision() {
    let mut shader = Shader::new();
    shader.options.version = Version::Embedded(310);
    assert_eq!(
        shader.text(),
        "#version 310 es\n\nprecision highp float;\n\n\n\n\nvoid main() {\n\n}\n"
    );
}

#[test]
fn extensions_follow_the_version() {
    let mut shader = Shader::new();
    shader.analysis.features.extensions =
        vec!["GL_ARB_one".to_string(), "GL_ARB_two".to_string()];
    assert_eq!(
        shader.text(),
        "#version 450 core\n#extension GL_ARB_one: require\n#extension GL_ARB_two: require\n\n\n\n\nvoid main() {\n\n}\n"
    );
}

#[test]
fn early_depth_tests() {
    let mut shader = Shader::new();
    shader.module.entry_points[0].1.early_depth_test = Some(EarlyDepthTest { conservative: None });
    assert_eq!(
        shader.text(),
        "#version 450 core\n\nlayout(early_fragment_tests) in;\n\n\n\nvoid main() {\n\n}\n"
    );
    for (depth, name) in [
        (ConservativeDepth::GreaterEqual, "greater"),
        (ConservativeDepth::LessEqual, "less"),
        (ConservativeDepth::Unchanged, "unchanged"),
    ] {
        shader.module.entry_points[0].1.early_depth_test =
            Some(EarlyDepthTest { conservative: Some(depth) });
        assert_eq!(
            shader.text(),
            format!(
                "#version 450 core\n\nlayout(early_fragment_tests) in;\nlayout (depth_{}) out float gl_FragDepth;\n\n\n\nvoid main() {{\n\n}}\n",
                name
            )
        );
    }
}

#[test]
fn unsupported_versions_are_rejected() {
    let mut shader = Shader::new();
    for version in [
        Version::Desktop(440),
        Version::Desktop(320),
        Version::Desktop(300),
        Version::Embedded(320),
        Version::Embedded(330),
    ] {
        shader.options.version = version;
        let result = Writer::new(&shader.module, &shader.options, &shader.analysis);
        assert!(matches!(result.err(), Some(Error::VersionNotSupported)));
    }
}

#[test]
fn supported_versions_are_accepted() {
    let mut shader = Shader::new();
    for version in [330, 400, 410, 420, 430, 450, 460] {
        shader.options.version = Version::Desktop(version);
        assert!(shader.text().starts_with(&format!("#version {} core\n", version)));
    }
    for version in [300, 310] {
        shader.options.version = Version::Embedded(version);
        assert!(shader.text().starts_with(&format!("#version {} es\n", version)));
    }
}

#[test]
fn entry_points_are_found_by_stage_and_name() {
    let mut shader = Shader::new();
    shader.options.entry_point = (ShaderStage::Vertex, "fs".to_string());
    let result = Writer::new(&shader.module, &shader.options, &shader.analysis);
    assert!(matches!(result.err(), Some(Error::EntryPointNotFound)));
    shader.options.entry_point = (ShaderStage::Fragment, "vs".to_string());
    let result = Writer::new(&shader.module, &shader.options, &shader.analysis);
    assert!(matches!(result.err(), Some(Error::EntryPointNotFound)));
}

#[test]
fn the_first_matching_entry_point_is_selected() {
    let mut shader = Shader::new();
    let mut second = empty_function();
    second.body.push(Statement::Kill);
    let mut third = empty_function();
    third.body.push(Statement::Break);
    shader.module.entry_points.push((
        (ShaderStage::Fragment, "fs".to_string()),
        EntryPoint { early_depth_test: None, function: second },
    ));
    shader.module.entry_points.push((
        (ShaderStage::Fragment, "fs".to_string()),
        EntryPoint { early_depth_test: None, function: third },
    ));
    for _ in 0..2 {
        shader.analysis.names.entry_point_locals.push(vec![]);
        shader.analysis.typing.entry_points.push(Ok(Typifier { resolutions: vec![] }));
    }
    shader.options.entry_point = (ShaderStage::Fragment, "fs".to_string());
    let writer = Writer::new(&shader.module, &shader.options, &shader.analysis).unwrap();
    assert_eq!(writer.entry_point_idx, 1);
    assert_eq!(shader.text(), format!("{}void main() {{\n\n\tdiscard;\n}}\n", HEAD));
}

#[test]
fn missing_features_are_reported() {
    let mut shader = Shader::new();
    shader.analysis.features.used = Features { bits: 0b1110 };
    shader.analysis.features.supported = Features { bits: 0b0111 };
    let result = Writer::new(&shader.module, &shader.options, &shader.analysis);
    match result.err() {
        Some(Error::MissingFeatures(missing)) => assert_eq!(missing.bits, 0b1000),
        _ => panic!("missing features"),
    }
    shader.analysis.features.supported = Features { bits: 0b1111 };
    assert!(Writer::new(&shader.module, &shader.options, &shader.analysis).is_ok());
}

#[test]
fn used_push_constants_are_rejected() {
    let mut shader = Shader::new();
    let float = shader.ty(FLOAT);
    shader.global(global_of(StorageClass::Private, float), "g");
    shader.global(global_of(StorageClass::PushConstant, float), "p");
    shader.analysis.features.used = Features { bits: 0b1 };
    let result = Writer::new(&shader.module, &shader.options, &shader.analysis);
    assert!(matches!(result.err(), Some(Error::PushConstantNotSupported)));
    shader.entry().global_usage[1] = GlobalUse { load: false, store: true };
    let result = Writer::new(&shader.module, &shader.options, &shader.analysis);
    assert!(matches!(result.err(), Some(Error::PushConstantNotSupported)));
    shader.entry().global_usage[1] = GlobalUse { load: false, store: false };
    let result = Writer::new(&shader.module, &shader.options, &shader.analysis);
    assert!(matches!(result.err(), Some(Error::MissingFeatures(_))));
    shader.analysis.features.supported = Features { bits: 0b1 };
    assert_eq!(shader.declarations(), "\n float g;\n");
}

#[test]
fn structs_are_declared() {
    let mut shader = Shader::new();
    let float = shader.ty(FLOAT);
    let vec3 = shader.ty(TypeInner::Vector { size: VectorSize::Tri, kind: ScalarKind::Sint, width: 4 });
    shader.named_ty(
        TypeInner::Struct {
            block: false,
            members: vec![StructMember { ty: float }, StructMember { ty: vec3 }],
        },
        "Light",
        &["power", "cell"],
    );
    shader.named_ty(TypeInner::Struct { block: false, members: vec![] }, "Empty", &[]);
    assert_eq!(
        shader.declarations(),
        "struct Light {\n\tfloat power;\n\tivec3 cell;\n};\nstruct Empty {\n};\n\n"
    );
}

#[test]
fn types_are_written() {
    let mut shader = Shader::new();
    let uint = |width| TypeInner::Scalar { kind: ScalarKind::Uint, width };
    let vector = |size, kind, width| TypeInner::Vector { size, kind, width };
    let inners = vec![
        (FLOAT, "float"),
        (TypeInner::Scalar { kind: ScalarKind::Float, width: 8 }, "double"),
        (TypeInner::Scalar { kind: ScalarKind::Sint, width: 4 }, "int"),
        (uint(4), "uint"),
        (uint(1), "uint"),
        (TypeInner::Scalar { kind: ScalarKind::Bool, width: 1 }, "bool"),
        (vector(VectorSize::Bi, ScalarKind::Float, 4), "vec2"),
        (vector(VectorSize::Tri, ScalarKind::Float, 8), "dvec3"),
        (vector(VectorSize::Quad, ScalarKind::Uint, 4), "uvec4"),
        (vector(VectorSize::Bi, ScalarKind::Bool, 1), "bvec2"),
        (
            TypeInner::Matrix { columns: VectorSize::Quad, rows: VectorSize::Tri, width: 4 },
            "mat4x3",
        ),
        (
            TypeInner::Matrix { columns: VectorSize::Bi, rows: VectorSize::Bi, width: 8 },
            "dmat2x2",
        ),
        (
            TypeInner::Pointer { base: Handle::new(3), class: StorageClass::Function },
            "uint",
        ),
        (
            TypeInner::Array { base: Handle::new(0), size: ArraySize::Dynamic, stride: None },
            "float[]",
        ),
        (
            TypeInner::Array {
                base: Handle::new(12),
                size: ArraySize::Constant(Handle::new(0)),
                stride: Some(4),
            },
            "uint[16]",
        ),
    ];
    let mut expected = String::from("\n");
    shader.constant(ConstantInner::Uint(16), Handle::new(3));
    for (i, (inner, text)) in inners.into_iter().enumerate() {
        let ty = shader.ty(inner);
        shader.global(global_of(StorageClass::Uniform, ty), &format!("g{}", i));
        expected.push_str(&format!("uniform {} g{};\n", text, i));
    }
    assert_eq!(shader.declarations(), expected);
}

#[test]
fn unsupported_widths_are_rejected() {
    for inner in [
        TypeInner::Scalar { kind: ScalarKind::Float, width: 2 },
        TypeInner::Vector { size: VectorSize::Bi, kind: ScalarKind::Float, width: 2 },
        TypeInner::Matrix { columns: VectorSize::Bi, rows: VectorSize::Bi, width: 2 },
    ] {
        let mut shader = Shader::new();
        let half = shader.ty(inner);
        shader.global(global_of(StorageClass::Private, half), "g");
        let (result, text) = shader.write();
        assert!(matches!(result, Err(Error::UnsupportedScalar(ScalarKind::Float, 2))));
        assert_eq!(text, "#version 450 core\n\n\n\n ");
    }
}

#[test]
fn interface_blocks_are_numbered() {
    let mut shader = Shader::new();
    let float = shader.ty(FLOAT);
    let block = |float| TypeInner::Struct { block: true, members: vec![StructMember { ty: float }] };
    let first = shader.named_ty(block(float), "Camera", &["fov"]);
    let second = shader.named_ty(block(float), "Scene", &["time"]);
    shader.global(global_of(StorageClass::Uniform, first), "a");
    shader.global(global_of(StorageClass::Storage, second), "b");
    shader.global(global_of(StorageClass::Uniform, first), "c");
    assert_eq!(
        shader.declarations(),
        "struct Camera {\n\tfloat fov;\n};\nstruct Scene {\n\tfloat time;\n};\n\n\
         uniform Camera_block_0 {\n\tfloat fov;\n} a;\n\
         buffer Scene_block_1 {\n\tfloat time;\n} b;\n\
         uniform Camera_block_2 {\n\tfloat fov;\n} c;\n"
    );
}

#[test]
fn storage_classes_and_accesses() {
    let mut shader = Shader::new();
    let float = shader.ty(FLOAT);
    for (i, class) in [
        StorageClass::Input,
        StorageClass::Output,
        StorageClass::Private,
        StorageClass::Storage,
        StorageClass::Uniform,
        StorageClass::WorkGroup,
    ]
    .into_iter()
    .enumerate()
    {
        shader.global(global_of(class, float), &format!("g{}", i));
    }
    let mut read = global_of(StorageClass::Storage, float);
    read.storage_access = StorageAccess { load: true, store: false };
    shader.global(read, "r");
    let mut write = global_of(StorageClass::Storage, float);
    write.storage_access = StorageAccess { load: false, store: true };
    shader.global(write, "w");
    let mut none = global_of(StorageClass::Storage, float);
    none.storage_access = StorageAccess { load: false, store: false };
    shader.global(none, "n");
    assert_eq!(
        shader.declarations(),
        "\nin float g0;\nout float g1;\n float g2;\nbuffer float g3;\nuniform float g4;\n\
         shared float g5;\nreadonly buffer float r;\nwriteonly buffer float w;\nbuffer float n;\n"
    );
}

#[test]
fn interpolations_depend_on_the_stage() {
    let mut shader = Shader::new();
    let float = shader.ty(FLOAT);
    let interpolated = |class, interpolation| GlobalVariable {
        class,
        binding: Some(Binding::Location(0)),
        ty: float,
        interpolation: Some(interpolation),
        storage_access: BOTH,
    };
    shader.global(interpolated(StorageClass::Output, Interpolation::Flat), "a");
    shader.global(interpolated(StorageClass::Output, Interpolation::Linear), "b");
    shader.global(interpolated(StorageClass::Input, Interpolation::Patch), "c");
    assert_eq!(
        shader.declarations(),
        "\nflat out float a;\nnoperspective out float b;\nin float c;\n"
    );
    shader.module.entry_points[0].0 .0 = ShaderStage::Fragment;
    shader.options.entry_point.0 = ShaderStage::Fragment;
    let (result, text) = shader.write();
    assert!(matches!(result, Err(Error::PatchInterpolationNotSupported)));
    assert_eq!(text, "#version 450 core\n\n\n\nout float a;\nout float b;\n");
}

#[test]
fn images_are_uniform_and_samplers_are_skipped() {
    let mut shader = Shader::new();
    let image = |dim, arrayed, class| TypeInner::Image { dim, arrayed, class };
    let sampled = |kind, multi| ImageClass::Sampled { kind, multi };
    for (name, inner) in [
        ("a", image(ImageDimension::D2, false, sampled(ScalarKind::Float, false))),
        ("b", image(ImageDimension::D2, true, sampled(ScalarKind::Sint, true))),
        ("c", image(ImageDimension::Cube, true, ImageClass::Depth)),
        ("d", image(ImageDimension::D3, false, ImageClass::Storage(StorageFormat::R32Uint))),
        ("e", image(ImageDimension::D1, false, ImageClass::Storage(StorageFormat::Rgba8Snorm))),
        ("f", TypeInner::Sampler { comparison: false }),
    ] {
        let ty = shader.ty(inner);
        let mut variable = global_of(StorageClass::Handle, ty);
        if name == "d" {
            variable.storage_access = StorageAccess { load: true, store: false };
        } else if name == "e" {
            variable.storage_access = StorageAccess { load: false, store: true };
        }
        shader.global(variable, name);
    }
    assert_eq!(
        shader.declarations(),
        "\nuniform sampler2D a;\nuniform isampler2DMSArray b;\nuniform samplerCubeArrayShadow c;\n\
         layout(r32ui) readonly uniform uimage3D d;\nlayout(rgba8_snorm) writeonly uniform image1D e;\n"
    );
}

#[test]
fn unused_and_builtin_globals_are_skipped() {
    let mut shader = Shader::new();
    let float = shader.ty(FLOAT);
    shader.global(global_of(StorageClass::Private, float), "used");
    shader.global(global_of(StorageClass::Private, float), "unused");
    shader.entry().global_usage[1] = GlobalUse { load: false, store: false };
    let mut builtin = global_of(StorageClass::Output, float);
    builtin.binding = Some(Binding::BuiltIn(BuiltIn::PointSize));
    shader.global(builtin, "builtin");
    shader.global(global_of(StorageClass::Private, float), "unlisted");
    shader.entry().global_usage.pop();
    assert_eq!(shader.declarations(), "\n float used;\n");
}

#[test]
fn functions_are_written_with_arguments_and_locals() {
    let mut shader = Shader::new();
    let float = shader.ty(FLOAT);
    let int = shader.ty(TypeInner::Scalar { kind: ScalarKind::Sint, width: 4 });
    let seven = shader.constant(ConstantInner::Sint(-7), int);
    let mut func = empty_function();
    func.arguments = vec![FunctionArgument { ty: float }, FunctionArgument { ty: int }];
    func.return_type = Some(float);
    func.local_variables.append(LocalVariable { ty: int, init: Some(seven) });
    func.local_variables.append(LocalVariable { ty: float, init: None });
    let argument = func.expressions.append(Expression::FunctionArgument(1));
    let local = func.expressions.append(Expression::LocalVariable(Handle::new(0)));
    func.body = vec![
        Statement::Store { pointer: local, value: argument },
        Statement::Return { value: Some(local) },
    ];
    let function = shader.function(func, "helper", vec![Resolution::Handle(int), Resolution::Handle(int)]);
    let call = shader.call(function);
    shader.entry().local_variables.append(LocalVariable { ty: float, init: None });
    shader.analysis.names.entry_point_locals[0].push("result".to_string());
    let result = shader.float_expr(Expression::LocalVariable(Handle::new(0)));
    shader.entry().body = vec![Statement::Store { pointer: result, value: call }];
    assert_eq!(
        shader.text(),
        format!(
            "{}float helper(float arg0, int arg1) {{\n\tint helper_local0 = -7;\n\tfloat helper_local1;\n\n\
             \thelper_local0 = arg1;\n\treturn helper_local0;\n}}\n\n\
             void main() {{\n\tfloat result;\n\n\tresult = helper();\n}}\n",
            HEAD
        )
    );
}

#[test]
fn functions_come_before_their_callers() {
    let mut shader = Shader::new();
    let float = shader.ty(FLOAT);
    let caller_of = |callees: &[Handle<Function>]| {
        let mut func = empty_function();
        func.return_type = Some(float);
        for callee in callees {
            let call =
                func.expressions.append(Expression::Call { function: *callee, arguments: vec![] });
            func.body.push(Statement::Return { value: Some(call) });
        }
        func
    };
    let value = || Resolution::Value(FLOAT);
    let leaf = shader.function(caller_of(&[]), "leaf", vec![]);
    shader.function(caller_of(&[]), "unneeded", vec![]);
    let middle = shader.function(caller_of(&[leaf]), "middle", vec![value()]);
    let top = shader.function(caller_of(&[leaf, middle, leaf]), "top", vec![value(), value(), value()]);
    let first = shader.call(top);
    let second = shader.call(leaf);
    shader.entry().body = vec![
        Statement::Return { value: Some(first) },
        Statement::Return { value: Some(second) },
    ];
    assert_eq!(
        shader.text(),
        format!(
            "{}float leaf() {{\n\n}}\n\n\
             float middle() {{\n\n\treturn leaf();\n}}\n\n\
             float top() {{\n\n\treturn leaf();\n\treturn middle();\n\treturn leaf();\n}}\n\n\
             void main() {{\n\n\treturn top();\n\treturn leaf();\n}}\n",
            HEAD
        )
    );
}

#[test]
fn functions_called_in_nested_statements_are_written() {
    let mut shader = Shader::new();
    let names = ["condition", "selector", "stored", "argument"];
    for name in names {
        shader.function(empty_function(), name, vec![]);
    }
    let condition = shader.call(Handle::new(0));
    let selector = shader.call(Handle::new(1));
    let stored = shader.call(Handle::new(2));
    let argument = shader.call(Handle::new(3));
    let negation =
        shader.float_expr(Expression::Unary { op: UnaryOperator::Negate, expr: argument });
    shader.entry().body = vec![Statement::Loop {
        body: vec![Statement::If {
            condition,
            accept: vec![],
            reject: vec![Statement::Switch {
                selector,
                cases: vec![SwitchCase {
                    value: 0,
                    body: vec![Statement::Store { pointer: stored, value: stored }],
                    fall_through: true,
                }],
                default: vec![Statement::Block(vec![Statement::Return { value: Some(negation) }])],
            }],
        }],
        continuing: vec![],
    }];
    let text = shader.text();
    for name in names {
        let written = text.find(&format!("void {}() {{\n", name)).unwrap();
        let main = text.find("void main() {\n").unwrap();
        assert!(written < main);
        assert!(text[main..].contains(&format!("{}()", name)));
    }
}

#[test]
fn recursion_is_invalid() {
    let mut shader = Shader::new();
    let mut func = empty_function();
    let call =
        func.expressions.append(Expression::Call { function: Handle::new(0), arguments: vec![] });
    func.body.push(Statement::Return { value: Some(call) });
    let function = shader.function(func, "endless", vec![Resolution::Value(FLOAT)]);
    let call = shader.call(function);
    shader.entry().body = vec![Statement::Return { value: Some(call) }];
    assert!(shader.is_invalid());
}

#[test]
fn calls_of_missing_functions_are_invalid() {
    let mut shader = Shader::new();
    let call = shader.call(Handle::new(3));
    shader.entry().body = vec![Statement::Return { value: Some(call) }];
    let result = Writer::try_new(&shader.module, &shader.options, &shader.analysis);
    assert!(matches!(result.err(), Some(Stop::Invalid)));
}

#[test]
fn call_graph_does_not_hide_unsupported_versions() {
    let mut shader = Shader::new();
    let call = shader.call(Handle::new(3));
    shader.entry().body = vec![Statement::Return { value: Some(call) }];
    shader.options.version = Version::Embedded(100);
    let result = Writer::try_new(&shader.module, &shader.options, &shader.analysis);
    assert!(matches!(result.err(), Some(Stop::Error(Error::VersionNotSupported))));
}

#[test]
fn unresolved_types_are_reported() {
    let mut shader = Shader::new();
    shader.analysis.typing.entry_points[0] = Err(ResolveError { reason: "no such type".to_string() });
    let (result, text) = shader.write();
    match result {
        Err(Error::Type(e)) => assert_eq!(e.reason, "no such type"),
        _ => panic!("type error"),
    }
    assert_eq!(text, HEAD);
}

#[test]
fn constants_are_written() {
    let mut shader = Shader::new();
    let float = shader.ty(FLOAT);
    let vec2 = shader.ty(TypeInner::Vector { size: VectorSize::Bi, kind: ScalarKind::Float, width: 4 });
    let mat2 = shader.ty(TypeInner::Matrix { columns: VectorSize::Bi, rows: VectorSize::Bi, width: 4 });
    let one = shader.constant(ConstantInner::Float("1.0".to_string()), float);
    let half = shader.constant(ConstantInner::Float("0.5".to_string()), float);
    let row = shader.constant(ConstantInner::Composite(vec![one, half]), vec2);
    let matrix = shader.constant(ConstantInner::Composite(vec![row, row]), mat2);
    let nothing = shader.constant(ConstantInner::Composite(vec![]), vec2);
    let smallest = shader.constant(ConstantInner::Sint(i64::MIN), float);
    let largest = shader.constant(ConstantInner::Uint(u64::MAX), float);
    let zero = shader.constant(ConstantInner::Uint(0), float);
    let yes = shader.constant(ConstantInner::Bool(true), float);
    let no = shader.constant(ConstantInner::Bool(false), float);
    for (constant, text) in [
        (one, "1.0"),
        (row, "vec2(1.0, 0.5)"),
        (matrix, "mat2x2(vec2(1.0, 0.5), vec2(1.0, 0.5))"),
        (nothing, "vec2()"),
        (smallest, "-9223372036854775808"),
        (largest, "18446744073709551615u"),
        (zero, "0u"),
        (yes, "true"),
        (no, "false"),
    ] {
        let expr = shader.float_expr(Expression::Constant(constant));
        assert_eq!(shader.returned(expr), text);
    }
}

#[test]
fn accesses_are_written() {
    let mut shader = Shader::new();
    let float = shader.ty(FLOAT);
    let vec2 = shader.ty(TypeInner::Vector { size: VectorSize::Bi, kind: ScalarKind::Float, width: 4 });
    let record = shader.named_ty(
        TypeInner::Struct { block: false, members: vec![StructMember { ty: vec2 }] },
        "Record",
        &["field"],
    );
    let g = shader.global(global_of(StorageClass::Private, record), "g");
    let global = shader.expr(Expression::GlobalVariable(g), Resolution::Handle(record));
    let member = shader
        .expr(Expression::AccessIndex { base: global, index: 0 }, Resolution::Handle(vec2));
    let component = shader
        .expr(Expression::AccessIndex { base: member, index: 1 }, Resolution::Handle(float));
    let index = shader.number(1);
    let access = shader.float_expr(Expression::Access { base: member, index });
    let load = shader.float_expr(Expression::Load { pointer: access });
    assert_eq!(shader.returned(component), "g.field[1]");
    assert_eq!(shader.returned(access), "g.field[1]");
    assert_eq!(shader.returned(load), "g.field[1]");
    let scalar_access = shader.float_expr(Expression::AccessIndex { base: component, index: 2 });
    let (error, text) = shader.rejected(scalar_access);
    match error {
        Error::Custom(message) => {
            assert_eq!(message, "Cannot index Scalar { kind: Float, width: 4 }")
        }
        _ => panic!("custom error"),
    }
    // The base has been written before the error
    assert!(text.ends_with("\treturn g.field[1]"));
}

#[test]
fn builtins_are_written_by_their_glsl_name() {
    let mut shader = Shader::new();
    let float = shader.ty(FLOAT);
    let mut builtin = global_of(StorageClass::Output, float);
    builtin.binding = Some(Binding::BuiltIn(BuiltIn::Position));
    let position = shader.global(builtin, "position");
    let expr = shader.float_expr(Expression::GlobalVariable(position));
    assert_eq!(shader.returned(expr), "gl_Position");
}

#[test]
fn operators_are_wrapped_in_parentheses() {
    let mut shader = Shader::new();
    let one = shader.number(1);
    let two = shader.number(2);
    let yes = shader.constant(ConstantInner::Bool(true), Handle::new(0));
    let truth = shader.expr(
        Expression::Constant(yes),
        Resolution::Value(TypeInner::Scalar { kind: ScalarKind::Bool, width: 1 }),
    );
    let negation = shader.float_expr(Expression::Unary { op: UnaryOperator::Negate, expr: one });
    let complement = shader.float_expr(Expression::Unary { op: UnaryOperator::Not, expr: two });
    let not = shader.float_expr(Expression::Unary { op: UnaryOperator::Not, expr: truth });
    assert_eq!(shader.returned(negation), "(- 1)");
    assert_eq!(shader.returned(complement), "(~ 2)");
    assert_eq!(shader.returned(not), "(! true)");
    for (op, text) in [
        (BinaryOperator::Add, "+"),
        (BinaryOperator::Subtract, "-"),
        (BinaryOperator::Multiply, "*"),
        (BinaryOperator::Divide, "/"),
        (BinaryOperator::Modulo, "%"),
        (BinaryOperator::Equal, "=="),
        (BinaryOperator::NotEqual, "!="),
        (BinaryOperator::Less, "<"),
        (BinaryOperator::LessEqual, "<="),
        (BinaryOperator::Greater, ">"),
        (BinaryOperator::GreaterEqual, ">="),
        (BinaryOperator::And, "&"),
        (BinaryOperator::ExclusiveOr, "^"),
        (BinaryOperator::InclusiveOr, "|"),
        (BinaryOperator::LogicalAnd, "&&"),
        (BinaryOperator::LogicalOr, "||"),
        (BinaryOperator::ShiftLeft, "<<"),
        (BinaryOperator::ShiftRight, ">>"),
    ] {
        let binary = shader.float_expr(Expression::Binary { op, left: negation, right: two });
        assert_eq!(shader.returned(binary), format!("((- 1) {} 2)", text));
    }
    let select =
        shader.float_expr(Expression::Select { condition: truth, accept: one, reject: negation });
    assert_eq!(shader.returned(select), "(true ? 1 : (- 1))");
    let not_float = shader.float_expr(Expression::Unary { op: UnaryOperator::Not, expr: negation });
    let (error, text) = shader.rejected(not_float);
    match error {
        Error::Custom(message) => {
            assert_eq!(message, "Cannot apply not to type Scalar { kind: Float, width: 4 }")
        }
        _ => panic!("custom error"),
    }
    assert!(text.ends_with("\treturn "));
}

#[test]
fn function_calls_are_written() {
    let mut shader = Shader::new();
    let vec2 = shader.ty(TypeInner::Vector { size: VectorSize::Bi, kind: ScalarKind::Float, width: 4 });
    let one = shader.number(1);
    let two = shader.number(2);
    let three = shader.number(3);
    for (axis, text) in [
        (DerivativeAxis::X, "dFdx(1)"),
        (DerivativeAxis::Y, "dFdy(1)"),
        (DerivativeAxis::Width, "fwidth(1)"),
    ] {
        let expr = shader.float_expr(Expression::Derivative { axis, expr: one });
        assert_eq!(shader.returned(expr), text);
    }
    for (fun, text) in [
        (RelationalFunction::All, "all(1)"),
        (RelationalFunction::Any, "any(1)"),
        (RelationalFunction::IsNan, "isnan(1)"),
        (RelationalFunction::IsInf, "isinf(1)"),
        (RelationalFunction::IsFinite, "!isinf(1)"),
        (RelationalFunction::IsNormal, "!isnan(1)"),
    ] {
        let expr = shader.float_expr(Expression::Relational { fun, argument: one });
        assert_eq!(shader.returned(expr), text);
    }
    for (fun, arg1, arg2, text) in [
        (MathFunction::Abs, None, None, "abs(1)"),
        (MathFunction::Max, Some(two), None, "max(1, 2)"),
        (MathFunction::Mix, Some(two), Some(three), "mix(1, 2, 3)"),
        (MathFunction::Outer, Some(two), None, "outerProduct(1, 2)"),
        (MathFunction::CountOneBits, None, None, "bitCount(1)"),
        (MathFunction::ReverseBits, None, None, "bitfieldReverse(1)"),
    ] {
        let expr = shader.float_expr(Expression::Math { fun, arg: one, arg1, arg2 });
        assert_eq!(shader.returned(expr), text);
    }
    let compose = shader.expr(
        Expression::Compose { ty: vec2, components: vec![one, two] },
        Resolution::Handle(vec2),
    );
    assert_eq!(shader.returned(compose), "vec2(1, 2)");
    let nothing = shader
        .expr(Expression::Compose { ty: vec2, components: vec![] }, Resolution::Handle(vec2));
    assert_eq!(shader.returned(nothing), "vec2()");
    let length = shader.float_expr(Expression::ArrayLength(compose));
    assert_eq!(shader.returned(length), "uint(vec2(1, 2).length())");
    let mut func = empty_function();
    func.arguments = vec![FunctionArgument { ty: vec2 }, FunctionArgument { ty: vec2 }];
    let function = shader.function(func, "f", vec![]);
    let call =
        shader.float_expr(Expression::Call { function, arguments: vec![compose, two] });
    assert_eq!(shader.returned(call), "f(vec2(1, 2), 2)");
}

#[test]
fn casts_are_written() {
    let mut shader = Shader::new();
    let float = shader.ty(FLOAT);
    let g = shader.global(global_of(StorageClass::Private, float), "x");
    let scalar = |kind| TypeInner::Scalar { kind, width: 4 };
    let declared = shader.expr(Expression::GlobalVariable(g), Resolution::Handle(float));
    for (kind, text) in [
        (ScalarKind::Sint, "int(x)"),
        (ScalarKind::Uint, "uint(x)"),
        (ScalarKind::Bool, "bool(x)"),
        (ScalarKind::Float, "float(x)"),
    ] {
        let convert = shader.float_expr(Expression::As { expr: declared, kind, convert: true });
        assert_eq!(shader.returned(convert), text);
    }
    let ints = TypeInner::Vector { size: VectorSize::Tri, kind: ScalarKind::Sint, width: 4 };
    let vector = shader.expr(Expression::GlobalVariable(g), Resolution::Value(ints));
    for (kind, text) in [
        (ScalarKind::Sint, "ivec3(x)"),
        (ScalarKind::Uint, "uvec3(x)"),
        (ScalarKind::Bool, "bvec3(x)"),
        (ScalarKind::Float, "vec3(x)"),
    ] {
        let convert = shader.float_expr(Expression::As { expr: vector, kind, convert: true });
        assert_eq!(shader.returned(convert), text);
    }
    // Floats have the width of the source only if that is a double
    for (inner, text) in [
        (TypeInner::Scalar { kind: ScalarKind::Bool, width: 1 }, "float(x)"),
        (TypeInner::Scalar { kind: ScalarKind::Uint, width: 2 }, "float(x)"),
        (TypeInner::Scalar { kind: ScalarKind::Sint, width: 8 }, "double(x)"),
        (
            TypeInner::Vector { size: VectorSize::Quad, kind: ScalarKind::Bool, width: 1 },
            "vec4(x)",
        ),
        (
            TypeInner::Vector { size: VectorSize::Bi, kind: ScalarKind::Float, width: 8 },
            "dvec2(x)",
        ),
    ] {
        let source = shader.expr(Expression::GlobalVariable(g), Resolution::Value(inner));
        let convert = shader
            .float_expr(Expression::As { expr: source, kind: ScalarKind::Float, convert: true });
        assert_eq!(shader.returned(convert), text);
    }
    // Everything else keeps its declared type
    let matrix = || TypeInner::Matrix { columns: VectorSize::Tri, rows: VectorSize::Bi, width: 4 };
    let declared_matrix = shader.ty(matrix());
    let source = shader.expr(Expression::GlobalVariable(g), Resolution::Handle(declared_matrix));
    for kind in [ScalarKind::Float, ScalarKind::Sint] {
        let convert = shader.float_expr(Expression::As { expr: source, kind, convert: true });
        assert_eq!(shader.returned(convert), "mat3x2(x)");
    }
    for (source, target, text) in [
        (ScalarKind::Float, ScalarKind::Sint, "floatBitsToInt(x)"),
        (ScalarKind::Float, ScalarKind::Uint, "floatBitsToUint(x)"),
        (ScalarKind::Sint, ScalarKind::Float, "intBitsToFloat(x)"),
        (ScalarKind::Uint, ScalarKind::Float, "uintBitsToFloat(x)"),
    ] {
        let expr = shader.expr(Expression::GlobalVariable(g), Resolution::Value(scalar(source)));
        let cast = shader.float_expr(Expression::As { expr, kind: target, convert: false });
        assert_eq!(shader.returned(cast), text);
    }
    let vector = TypeInner::Vector { size: VectorSize::Bi, kind: ScalarKind::Bool, width: 1 };
    let expr = shader.expr(Expression::GlobalVariable(g), Resolution::Value(vector));
    let cast = shader.float_expr(Expression::As { expr, kind: ScalarKind::Uint, convert: false });
    let (error, _) = shader.rejected(cast);
    match error {
        Error::Custom(message) => assert_eq!(message, "Cannot bitcast Bool to Uint"),
        _ => panic!("custom error"),
    }
}

struct Images {
    shader: Shader,
    image: Handle<Expression>,
    sampler: Handle<Expression>,
    coordinate: Handle<Expression>,
    layer: Handle<Expression>,
}

fn images(dim: ImageDimension, class: ImageClass) -> Images {
    let mut shader = Shader::new();
    let image_type = shader.ty(TypeInner::Image { dim, arrayed: false, class });
    let sampler_type = shader.ty(TypeInner::Sampler { comparison: false });
    let vec2 = shader.ty(TypeInner::Vector { size: VectorSize::Bi, kind: ScalarKind::Float, width: 4 });
    let t = shader.global(global_of(StorageClass::Handle, image_type), "t");
    let s = shader.global(global_of(StorageClass::Handle, sampler_type), "s");
    let uv = shader.global(global_of(StorageClass::Private, vec2), "uv");
    let image = shader.expr(Expression::GlobalVariable(t), Resolution::Handle(image_type));
    let sampler = shader.expr(Expression::GlobalVariable(s), Resolution::Handle(sampler_type));
    let coordinate = shader.expr(Expression::GlobalVariable(uv), Resolution::Handle(vec2));
    let layer = shader.number(4);
    Images { shader, image, sampler, coordinate, layer }
}

const SAMPLED: ImageClass = ImageClass::Sampled { kind: ScalarKind::Float, multi: false };

#[test]
fn image_samples_are_written() {
    let Images { mut shader, image, sampler, coordinate, layer } =
        images(ImageDimension::D2, SAMPLED);
    let five = shader.number(5);
    for (level, array_index, depth_ref, text) in [
        (SampleLevel::Auto, None, None, "texture(t, vec2(uv))"),
        (SampleLevel::Bias(five), None, None, "texture(t, vec2(uv), 5)"),
        (SampleLevel::Zero, None, None, "textureLod(t, vec2(uv), 0)"),
        (SampleLevel::Exact(five), Some(layer), None, "textureLod(t, vec3(uv, 4), 5)"),
        (SampleLevel::Auto, None, Some(five), "texture(t, vec3(uv, 5))"),
        (
            SampleLevel::Gradient { x: five, y: layer },
            Some(layer),
            Some(five),
            "textureGrad(t, vec4(uv, 4, 5), 5, 4)",
        ),
    ] {
        let sample = shader.float_expr(Expression::ImageSample {
            image,
            sampler,
            coordinate,
            array_index,
            offset: None,
            level,
            depth_ref,
        });
        assert_eq!(shader.returned(sample), text);
        let (result, _) = shader.write();
        let textures = result.unwrap();
        assert_eq!(textures.len(), 1);
        let mapping = textures.get(&"t".to_string()).unwrap();
        assert_eq!(mapping.texture.index, 0);
        assert_eq!(mapping.sampler.unwrap().index, 1);
    }
}

#[test]
fn image_loads_are_written() {
    for (dim, class, layered, text) in [
        (ImageDimension::D2, SAMPLED, false, "texelFetch(t, uv, 7)"),
        (ImageDimension::D1, SAMPLED, true, "texelFetch(t, ivec2(uv, 4), 7)"),
        (ImageDimension::D2, SAMPLED, true, "texelFetch(t, ivec3(uv, 4), 7)"),
        (ImageDimension::D3, SAMPLED, true, "texelFetch(t, ivec4(uv, 4), 7)"),
        (ImageDimension::Cube, SAMPLED, true, "texelFetch(t, ivec4(uv, 4), 7)"),
        (
            ImageDimension::D2,
            ImageClass::Storage(StorageFormat::R32Float),
            false,
            "imageLoad(t, uv)",
        ),
    ] {
        let Images { mut shader, image, coordinate, layer, .. } = images(dim, class);
        let seven = shader.number(7);
        let load = shader.float_expr(Expression::ImageLoad {
            image,
            coordinate,
            array_index: if layered { Some(layer) } else { None },
            index: if class == SAMPLED { Some(seven) } else { None },
        });
        assert_eq!(shader.returned(load), text);
        let (result, _) = shader.write();
        let textures = result.unwrap();
        assert_eq!(textures.len(), 1);
        assert!(textures.get(&"t".to_string()).unwrap().sampler.is_none());
        assert!(textures.get(&"s".to_string()).is_none());
    }
}

#[test]
fn loads_from_depth_images_are_invalid() {
    let Images { mut shader, image, coordinate, .. } =
        images(ImageDimension::D2, ImageClass::Depth);
    let load = shader.float_expr(Expression::ImageLoad {
        image,
        coordinate,
        array_index: None,
        index: None,
    });
    shader.entry().body = vec![Statement::Return { value: Some(load) }];
    assert!(shader.is_invalid());
}

fn plain_sample(
    image: Handle<Expression>,
    sampler: Handle<Expression>,
    coordinate: Handle<Expression>,
) -> Expression {
    Expression::ImageSample {
        image,
        sampler,
        coordinate,
        array_index: None,
        offset: None,
        level: SampleLevel::Auto,
        depth_ref: None,
    }
}

#[test]
fn conflicting_samplers_are_rejected() {
    let Images { mut shader, image, sampler, coordinate, .. } =
        images(ImageDimension::D2, SAMPLED);
    let other = shader.global(global_of(StorageClass::Handle, Handle::new(1)), "other");
    let other = shader.expr(Expression::GlobalVariable(other), Resolution::Handle(Handle::new(1)));
    let first = shader.float_expr(plain_sample(image, sampler, coordinate));
    let same = shader.float_expr(plain_sample(image, sampler, coordinate));
    let second = shader.float_expr(plain_sample(image, other, coordinate));
    let load = shader.float_expr(Expression::ImageLoad {
        image,
        coordinate,
        array_index: None,
        index: None,
    });
    let returns = |values: &[Handle<Expression>]| {
        values.iter().map(|v| Statement::Return { value: Some(*v) }).collect::<Vec<_>>()
    };
    shader.entry().body = returns(&[first, same]);
    let (result, text) = shader.write();
    assert_eq!(result.unwrap().len(), 1);
    shader.entry().body = returns(&[first, second]);
    let (result, conflicting) = shader.write();
    assert!(matches!(result, Err(Error::ImageMultipleSamplers)));
    // Everything has been written before the error
    assert_eq!(conflicting, text);
    shader.entry().body = returns(&[first, load]);
    assert!(matches!(shader.write().0, Err(Error::ImageMultipleSamplers)));
    shader.entry().body = returns(&[load, first]);
    assert!(matches!(shader.write().0, Err(Error::ImageMultipleSamplers)));
}

#[test]
fn textures_of_called_functions_count() {
    let Images { mut shader, image, sampler, coordinate, .. } =
        images(ImageDimension::D2, SAMPLED);
    let mut func = empty_function();
    let image_there = func.expressions.append(Expression::GlobalVariable(Handle::new(0)));
    let uv_there = func.expressions.append(Expression::GlobalVariable(Handle::new(2)));
    let load = func.expressions.append(Expression::ImageLoad {
        image: image_there,
        coordinate: uv_there,
        array_index: None,
        index: None,
    });
    func.body = vec![Statement::Return { value: Some(load) }];
    let function = shader.function(
        func,
        "fetch",
        vec![
            Resolution::Handle(Handle::new(0)),
            Resolution::Handle(Handle::new(2)),
            Resolution::Value(FLOAT),
        ],
    );
    let call = shader.call(function);
    shader.entry().body = vec![Statement::Return { value: Some(call) }];
    let (result, _) = shader.write();
    let textures = result.unwrap();
    assert_eq!(textures.len(), 1);
    assert!(textures.get(&"t".to_string()).unwrap().sampler.is_none());
    let sample = shader.float_expr(plain_sample(image, sampler, coordinate));
    shader.entry().body.push(Statement::Return { value: Some(sample) });
    assert!(matches!(shader.write().0, Err(Error::ImageMultipleSamplers)));
}

#[test]
fn textures_that_are_not_globals_are_invalid() {
    let Images { mut shader, image, sampler, coordinate, .. } =
        images(ImageDimension::D2, SAMPLED);
    let indirect = shader.expr(Expression::Load { pointer: image }, Resolution::Handle(Handle::new(0)));
    let sample = shader.float_expr(plain_sample(indirect, sampler, coordinate));
    shader.entry().body = vec![Statement::Return { value: Some(sample) }];
    assert!(shader.is_invalid());
}

#[test]
fn simple_statements_are_written() {
    let mut shader = Shader::new();
    let one = shader.number(1);
    let two = shader.number(2);
    assert_eq!(
        shader.statements(vec![
            Statement::Break,
            Statement::Continue,
            Statement::Return { value: None },
            Statement::Return { value: Some(one) },
            Statement::Kill,
            Statement::Store { pointer: one, value: two },
            Statement::Block(vec![]),
        ]),
        "\tbreak;\n\tcontinue;\n\treturn;\n\treturn 1;\n\tdiscard;\n\t1 = 2;\n\t{\n\t}\n"
    );
}

#[test]
fn nested_statements_are_indented() {
    let mut shader = Shader::new();
    let one = shader.number(1);
    assert_eq!(
        shader.statements(vec![
            Statement::If { condition: one, accept: vec![Statement::Kill], reject: vec![] },
            Statement::If {
                condition: one,
                accept: vec![],
                reject: vec![Statement::Block(vec![Statement::Break])],
            },
            Statement::Loop { body: vec![Statement::Break], continuing: vec![Statement::Continue] },
        ]),
        "\tif(1) {\n\t\tdiscard;\n\t}\n\
         \tif(1) {\n\t} else {\n\t\t{\n\t\t\tbreak;\n\t\t}\n\t}\n\
         \twhile(true) {\n\t\tbreak;\n\t\tcontinue;\n\t}\n"
    );
}

#[test]
fn indentation_is_only_for_readability() {
    let mut shader = Shader::new();
    let one = shader.number(1);
    let switch = |one| Statement::Switch {
        selector: one,
        cases: vec![SwitchCase {
            value: 3,
            body: vec![Statement::If {
                condition: one,
                accept: vec![Statement::Kill],
                reject: vec![Statement::Return { value: Some(one) }],
            }],
            fall_through: false,
        }],
        default: vec![Statement::Loop { body: vec![Statement::Break], continuing: vec![] }],
    };
    let flat = shader.statements(vec![switch(one)]);
    let nested = shader.statements(vec![Statement::Block(vec![Statement::Block(vec![switch(one)])])]);
    let inner = nested.strip_prefix("\t{\n\t\t{\n").unwrap().strip_suffix("\t\t}\n\t}\n").unwrap();
    assert!(flat != inner);
    assert_eq!(flat.replace('\t', ""), inner.replace('\t', ""));
}

#[test]
fn cases_that_do_not_fall_through_break() {
    let mut shader = Shader::new();
    let one = shader.number(1);
    assert_eq!(
        shader.statements(vec![Statement::Switch {
            selector: one,
            cases: vec![
                SwitchCase { value: -1, body: vec![Statement::Kill], fall_through: true },
                SwitchCase { value: 2, body: vec![], fall_through: false },
            ],
            default: vec![Statement::Continue],
        }]),
        "\tswitch(1) {\n\t\tcase -1:\n\t\t\tdiscard;\n\t\tcase 2:\n\t\t\tbreak;\n\
         \t\tdefault:\n\t\t\tcontinue;\n\t}\n"
    );
    assert_eq!(
        shader.statements(vec![Statement::Switch { selector: one, cases: vec![], default: vec![] }]),
        "\tswitch(1) {\n\t}\n"
    );
}

#[test]
fn self_references_are_invalid() {
    let mut shader = Shader::new();
    let expr = shader.float_expr(Expression::Load { pointer: Handle::new(0) });
    shader.entry().body = vec![Statement::Return { value: Some(expr) }];
    let result = Writer::try_new(&shader.module, &shader.options, &shader.analysis);
    assert!(matches!(result.err(), Some(Stop::Invalid)));
    let mut shader = Shader::new();
    let ty = shader.ty(TypeInner::Pointer { base: Handle::new(0), class: StorageClass::Private });
    shader.global(global_of(StorageClass::Private, ty), "g");
    assert!(shader.is_invalid());
}

#[test]
fn missing_items_are_invalid() {
    // A global whose type doesn't exist
    let mut shader = Shader::new();
    shader.global(global_of(StorageClass::Private, Handle::new(5)), "g");
    assert!(shader.is_invalid());
    // A global without a name
    let mut shader = Shader::new();
    let float = shader.ty(FLOAT);
    shader.global(global_of(StorageClass::Private, float), "g");
    shader.analysis.names.global_variables.clear();
    assert!(shader.is_invalid());
    // An array whose size isn't unsigned
    let mut shader = Shader::new();
    let float = shader.ty(FLOAT);
    let size = shader.constant(ConstantInner::Sint(3), float);
    let array = shader.ty(TypeInner::Array {
        base: float,
        size: ArraySize::Constant(size),
        stride: None,
    });
    shader.global(global_of(StorageClass::Private, array), "g");
    assert!(shader.is_invalid());
    // An argument of an entry point
    let mut shader = Shader::new();
    let argument = shader.float_expr(Expression::FunctionArgument(0));
    shader.entry().body = vec![Statement::Return { value: Some(argument) }];
    assert!(shader.is_invalid());
    // A sample whose coordinate isn't a vector
    let Images { mut shader, image, sampler, layer, .. } = images(ImageDimension::D2, SAMPLED);
    let sample = shader.float_expr(plain_sample(image, sampler, layer));
    shader.entry().body = vec![Statement::Return { value: Some(sample) }];
    assert!(shader.is_invalid());
    // A function whose types haven't been looked for
    let mut shader = Shader::new();
    shader.analysis.typing.entry_points.clear();
    assert!(shader.is_invalid());
}

#[test]
fn checked_write_writes_valid_modules() {
    let shader = Shader::new();
    let mut writer = Writer::try_new(&shader.module, &shader.options, &shader.analysis).ok().unwrap();
    let result = writer.checked_write();
    assert_eq!(result.unwrap().unwrap().len(), 0);
    assert_eq!(writer.out, shader.text());
}

#[test]
fn checked_write_reports_errors() {
    let mut shader = Shader::new();
    let half = shader.ty(TypeInner::Scalar { kind: ScalarKind::Float, width: 2 });
    shader.global(global_of(StorageClass::Private, half), "g");
    let mut writer = Writer::try_new(&shader.module, &shader.options, &shader.analysis).ok().unwrap();
    let result = writer.checked_write().unwrap();
    assert!(matches!(result, Err(Error::UnsupportedScalar(ScalarKind::Float, 2))));
    assert_eq!(writer.out, shader.write().1);
}

#[test]
fn a_second_write_is_added_at_the_end() {
    let mut shader = Shader::new();
    let float = shader.ty(FLOAT);
    let block = shader.named_ty(
        TypeInner::Struct { block: true, members: vec![StructMember { ty: float }] },
        "Data",
        &["x"],
    );
    shader.global(global_of(StorageClass::Uniform, block), "d");
    let mut writer = Writer::new(&shader.module, &shader.options, &shader.analysis).unwrap();
    assert!(writer.write().is_ok());
    let once = writer.out.clone();
    assert!(once.contains("Data_block_0"));
    assert!(writer.write().is_ok());
    assert_eq!(writer.out, format!("{}{}", once, once.replace("Data_block_0", "Data_block_1")));
}
