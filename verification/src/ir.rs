//! The intermediate representation of shaders that the writer reads.
//!
//! Types, constants, global variables and functions live in the arenas of a [`Module`] and refer
//! to one another by handles. What a shader calls its items is kept apart, in
//! [`Names`](crate::names::Names).
use crate::arena::{Arena, Handle};
use vstd::prelude::*;

verus! {

/// Number of bytes per scalar.
pub type Bytes = u8;

/// Stage of the programmable pipeline.
#[derive(Debug, Clone, Copy, PartialEq, Eq, Structural)]
pub enum ShaderStage {
    Vertex,
    Fragment,
    Compute,
}

/// Addressing space of variables.
#[derive(Debug, Clone, Copy, PartialEq, Eq, Structural)]
pub enum StorageClass {
    /// Function locals.
    Function,
    /// Pipeline input, per invocation.
    Input,
    /// Pipeline output, per invocation.
    Output,
    /// Private data, per invocation, mutable.
    Private,
    /// Storage buffers.
    Storage,
    /// Uniform buffers.
    Uniform,
    /// Opaque handles, such as samplers and images.
    Handle,
    /// Workgroup shared data, mutable.
    WorkGroup,
    /// Push constants.
    PushConstant,
}

/// Built-in inputs and outputs.
#[derive(Debug, Clone, Copy, PartialEq, Eq, Structural)]
pub enum BuiltIn {
    Position,
    GlobalInvocationId,
    BaseInstance,
    BaseVertex,
    ClipDistance,
    InstanceIndex,
    VertexIndex,
    PointSize,
    FragCoord,
    FrontFacing,
    SampleIndex,
    FragDepth,
    LocalInvocationId,
    LocalInvocationIndex,
    WorkGroupId,
    WorkGroupSize,
}

/// Number of components in a vector.
#[derive(Debug, Clone, Copy, PartialEq, Eq, Structural)]
pub enum VectorSize {
    Bi,
    Tri,
    Quad,
}

impl VectorSize {
    /// The number of components.
    pub open spec fn spec_count(self) -> u8 {
        match self {
            VectorSize::Bi => 2,
            VectorSize::Tri => 3,
            VectorSize::Quad => 4,
        }
    }

    /// The number of components.
    #[verifier::when_used_as_spec(spec_count)]
    pub fn count(self) -> (count: u8)
        ensures
            count == self.spec_count(),
    {
        match self {
            VectorSize::Bi => 2,
            VectorSize::Tri => 3,
            VectorSize::Quad => 4,
        }
    }
}

/// Primitive type of a scalar.
#[derive(Debug, Clone, Copy, PartialEq, Eq, Structural)]
pub enum ScalarKind {
    Sint,
    Uint,
    Float,
    Bool,
}

/// Interpolation qualifier of a binding or struct field.
#[derive(Debug, Clone, Copy, PartialEq, Eq, Structural)]
pub enum Interpolation {
    Perspective,
    Linear,
    Flat,
    Patch,
    Centroid,
    Sample,
}

/// Number of dimensions of an image.
#[derive(Debug, Clone, Copy, PartialEq, Eq, Structural)]
pub enum ImageDimension {
    D1,
    D2,
    D3,
    Cube,
}

/// Texel format of a storage image.
#[derive(Debug, Clone, Copy, PartialEq, Eq, Structural)]
pub enum StorageFormat {
    R8Unorm,
    R8Snorm,
    R8Uint,
    R8Sint,
    R16Uint,
    R16Sint,
    R16Float,
    Rg8Unorm,
    Rg8Snorm,
    Rg8Uint,
    Rg8Sint,
    R32Uint,
    R32Sint,
    R32Float,
    Rg16Uint,
    Rg16Sint,
    Rg16Float,
    Rgba8Unorm,
    Rgba8Snorm,
    Rgba8Uint,
    Rgba8Sint,
    Rgb10a2Unorm,
    Rg11b10Float,
    Rg32Uint,
    Rg32Sint,
    Rg32Float,
    Rgba16Uint,
    Rgba16Sint,
    Rgba16Float,
    Rgba32Uint,
    Rgba32Sint,
    Rgba32Float,
}

/// Sub-class of the image type.
#[derive(Debug, Clone, Copy, PartialEq, Eq, Structural)]
pub enum ImageClass {
    /// Regular sampled image.
    Sampled { kind: ScalarKind, multi: bool },
    /// Depth comparison image.
    Depth,
    /// Storage image.
    Storage(StorageFormat),
}

/// Size of an array.
#[derive(Debug)]
pub enum ArraySize {
    /// The array size is the value of a constant.
    Constant(Handle<Constant>),
    /// The array size can change at runtime.
    Dynamic,
}

/// Member of a user-defined structure.
#[derive(Debug)]
pub struct StructMember {
    pub ty: Handle<Type>,
}

/// A data type declared in the module.
#[derive(Debug)]
pub struct Type {
    pub inner: TypeInner,
}

/// The structure of a type.
#[allow(inconsistent_fields)]
#[derive(Debug)]
pub enum TypeInner {
    /// Number of integral or floating-point kind.
    Scalar { kind: ScalarKind, width: Bytes },
    /// Vector of numbers.
    Vector { size: VectorSize, kind: ScalarKind, width: Bytes },
    /// Matrix of floats.
    Matrix { columns: VectorSize, rows: VectorSize, width: Bytes },
    /// Pointer to a value.
    Pointer { base: Handle<Type>, class: StorageClass },
    /// Homogeneous list of elements.
    Array { base: Handle<Type>, size: ArraySize, stride: Option<u32> },
    /// User-defined structure; `block` marks an interface block.
    Struct { block: bool, members: Vec<StructMember> },
    /// Possibly multidimensional array of texels.
    Image { dim: ImageDimension, arrayed: bool, class: ImageClass },
    /// Can be used to sample values from images.
    Sampler { comparison: bool },
}

/// A constant of the module.
#[derive(Debug)]
pub struct Constant {
    pub inner: ConstantInner,
    pub ty: Handle<Type>,
}

/// The value of a constant.
#[derive(Debug)]
pub enum ConstantInner {
    Sint(i64),
    Uint(u64),
    /// A floating-point number, as a decimal literal that always has a decimal part.
    Float(String),
    Bool(bool),
    Composite(Vec<Handle<Constant>>),
}

/// How an input or output variable is bound.
#[derive(Debug, Clone, Copy, PartialEq, Eq, Structural)]
pub enum Binding {
    /// Built-in shader variable.
    BuiltIn(BuiltIn),
    /// Indexed location.
    Location(u32),
    /// Binding within a resource group.
    Resource { group: u32, binding: u32 },
}

/// The accesses that a storage resource allows.
#[derive(Debug, Clone, Copy, PartialEq, Eq, Structural)]
pub struct StorageAccess {
    pub load: bool,
    pub store: bool,
}

/// How a function uses a global variable.
#[derive(Debug, Clone, Copy, PartialEq, Eq, Structural)]
pub struct GlobalUse {
    pub load: bool,
    pub store: bool,
}

impl GlobalUse {
    /// Whether the variable isn't used at all.
    pub open spec fn spec_is_empty(self) -> bool {
        !self.load && !self.store
    }

    /// Whether the variable isn't used at all.
    #[verifier::when_used_as_spec(spec_is_empty)]
    pub fn is_empty(self) -> (empty: bool)
        ensures
            empty == self.spec_is_empty(),
    {
        !self.load && !self.store
    }
}

/// Variable defined at module level.
#[derive(Debug)]
pub struct GlobalVariable {
    pub class: StorageClass,
    pub binding: Option<Binding>,
    pub ty: Handle<Type>,
    pub interpolation: Option<Interpolation>,
    pub storage_access: StorageAccess,
}

/// Variable defined at function level.
#[derive(Debug)]
pub struct LocalVariable {
    pub ty: Handle<Type>,
    /// Initial value, if any.
    pub init: Option<Handle<Constant>>,
}

/// Operation that can be applied on a single value.
#[derive(Debug, Clone, Copy, PartialEq, Eq, Structural)]
pub enum UnaryOperator {
    Negate,
    Not,
}

/// Operation that can be applied on two values.
#[derive(Debug, Clone, Copy, PartialEq, Eq, Structural)]
pub enum BinaryOperator {
    Add,
    Subtract,
    Multiply,
    Divide,
    Modulo,
    Equal,
    NotEqual,
    Less,
    LessEqual,
    Greater,
    GreaterEqual,
    And,
    ExclusiveOr,
    InclusiveOr,
    LogicalAnd,
    LogicalOr,
    ShiftLeft,
    ShiftRight,
}

/// Axis on which to compute a derivative.
#[derive(Debug, Clone, Copy, PartialEq, Eq, Structural)]
pub enum DerivativeAxis {
    X,
    Y,
    Width,
}

/// Built-in shader function for testing relation between values.
#[derive(Debug, Clone, Copy, PartialEq, Eq, Structural)]
pub enum RelationalFunction {
    All,
    Any,
    IsNan,
    IsInf,
    IsFinite,
    IsNormal,
}

/// Built-in shader function for math.
#[derive(Debug, Clone, Copy, PartialEq, Eq, Structural)]
pub enum MathFunction {
    // comparison
    Abs,
    Min,
    Max,
    Clamp,
    // trigonometry
    Cos,
    Cosh,
    Sin,
    Sinh,
    Tan,
    Tanh,
    Acos,
    Asin,
    Atan,
    Atan2,
    // decomposition
    Ceil,
    Floor,
    Round,
    Fract,
    Trunc,
    Modf,
    Frexp,
    Ldexp,
    // exponent
    Exp,
    Exp2,
    Log,
    Log2,
    Pow,
    // geometry
    Dot,
    Outer,
    Cross,
    Distance,
    Length,
    Normalize,
    FaceForward,
    Reflect,
    // computational
    Sign,
    Fma,
    Mix,
    Step,
    SmoothStep,
    Sqrt,
    InverseSqrt,
    Transpose,
    Determinant,
    // bits
    CountOneBits,
    ReverseBits,
}

/// Sampling modifier to control the level of detail.
#[derive(Debug)]
pub enum SampleLevel {
    Auto,
    Zero,
    Exact(Handle<Expression>),
    Bias(Handle<Expression>),
    Gradient { x: Handle<Expression>, y: Handle<Expression> },
}

/// An expression that can be evaluated to obtain a value.
#[allow(inconsistent_fields)]
#[derive(Debug)]
pub enum Expression {
    /// Array access with a computed index.
    Access { base: Handle<Expression>, index: Handle<Expression> },
    /// Array access with a known index.
    AccessIndex { base: Handle<Expression>, index: u32 },
    /// Constant value.
    Constant(Handle<Constant>),
    /// Composite expression.
    Compose { ty: Handle<Type>, components: Vec<Handle<Expression>> },
    /// Reference a function parameter, by its index.
    FunctionArgument(u32),
    /// Reference a global variable.
    GlobalVariable(Handle<GlobalVariable>),
    /// Reference a local variable.
    LocalVariable(Handle<LocalVariable>),
    /// Load a value indirectly.
    Load { pointer: Handle<Expression> },
    /// Sample a point from an image.
    ImageSample {
        image: Handle<Expression>,
        sampler: Handle<Expression>,
        coordinate: Handle<Expression>,
        array_index: Option<Handle<Expression>>,
        offset: Option<Handle<Constant>>,
        level: SampleLevel,
        depth_ref: Option<Handle<Expression>>,
    },
    /// Load a texel from an image.
    ImageLoad {
        image: Handle<Expression>,
        coordinate: Handle<Expression>,
        array_index: Option<Handle<Expression>>,
        index: Option<Handle<Expression>>,
    },
    /// Apply a unary operator.
    Unary { op: UnaryOperator, expr: Handle<Expression> },
    /// Apply a binary operator.
    Binary { op: BinaryOperator, left: Handle<Expression>, right: Handle<Expression> },
    /// Select between two values based on a condition.
    Select {
        condition: Handle<Expression>,
        accept: Handle<Expression>,
        reject: Handle<Expression>,
    },
    /// Compute the derivative on an axis.
    Derivative { axis: DerivativeAxis, expr: Handle<Expression> },
    /// Call a relational function.
    Relational { fun: RelationalFunction, argument: Handle<Expression> },
    /// Call a math function.
    Math {
        fun: MathFunction,
        arg: Handle<Expression>,
        arg1: Option<Handle<Expression>>,
        arg2: Option<Handle<Expression>>,
    },
    /// Cast a simple type to another kind.
    As { expr: Handle<Expression>, kind: ScalarKind, convert: bool },
    /// Call another function.
    Call { function: Handle<Function>, arguments: Vec<Handle<Expression>> },
    /// Get the length of an array.
    ArrayLength(Handle<Expression>),
}

/// A case for a switch statement.
#[derive(Debug)]
pub struct SwitchCase {
    /// Value, upon which the case is considered true.
    pub value: i32,
    /// Body of the case.
    pub body: Vec<Statement>,
    /// If true, the control flow continues to the next case, or to the default.
    pub fall_through: bool,
}

/// Instructions which make up an executable block.
#[allow(inconsistent_fields)]
#[derive(Debug)]
pub enum Statement {
    /// A block containing more statements, to be executed sequentially.
    Block(Vec<Statement>),
    /// Conditionally executes one of two blocks.
    If { condition: Handle<Expression>, accept: Vec<Statement>, reject: Vec<Statement> },
    /// Conditionally executes one of multiple blocks.
    Switch { selector: Handle<Expression>, cases: Vec<SwitchCase>, default: Vec<Statement> },
    /// Executes a block repeatedly.
    Loop { body: Vec<Statement>, continuing: Vec<Statement> },
    /// Exits the loop.
    Break,
    /// Skips execution to the next iteration of the loop.
    Continue,
    /// Returns from the function, possibly with a value.
    Return { value: Option<Handle<Expression>> },
    /// Aborts the current shader execution.
    Kill,
    /// Stores a value at an address.
    Store { pointer: Handle<Expression>, value: Handle<Expression> },
}

/// A function argument.
#[derive(Debug)]
pub struct FunctionArgument {
    pub ty: Handle<Type>,
}

/// A function defined in the module.
#[derive(Debug)]
pub struct Function {
    pub arguments: Vec<FunctionArgument>,
    pub return_type: Option<Handle<Type>>,
    /// How each global variable is used, in the order of the module's global variables.
    pub global_usage: Vec<GlobalUse>,
    pub local_variables: Arena<LocalVariable>,
    pub expressions: Arena<Expression>,
    pub body: Vec<Statement>,
}

/// Enables adjusting depth without disabling early Z.
#[derive(Debug, Clone, Copy, PartialEq, Eq, Structural)]
pub enum ConservativeDepth {
    GreaterEqual,
    LessEqual,
    Unchanged,
}

/// Explicitly allows early depth and stencil tests.
#[derive(Debug, Clone, Copy, PartialEq, Eq, Structural)]
pub struct EarlyDepthTest {
    pub conservative: Option<ConservativeDepth>,
}

/// Exported function, to be run at a certain stage in the pipeline.
#[derive(Debug)]
pub struct EntryPoint {
    pub early_depth_test: Option<EarlyDepthTest>,
    pub function: Function,
}

/// Shader module.
///
/// No two entry points share both stage and name.
#[derive(Debug)]
pub struct Module {
    pub types: Arena<Type>,
    pub constants: Arena<Constant>,
    pub global_variables: Arena<GlobalVariable>,
    pub functions: Arena<Function>,
    pub entry_points: Vec<((ShaderStage, String), EntryPoint)>,
}

impl StorageFormat {
    /// The kind of scalar that a texel of this format reads as: normalized formats read as floats.
    pub open spec fn spec_scalar_kind(self) -> ScalarKind {
        match self {
            StorageFormat::R8Uint
            | StorageFormat::R16Uint
            | StorageFormat::Rg8Uint
            | StorageFormat::R32Uint
            | StorageFormat::Rg16Uint
            | StorageFormat::Rgba8Uint
            | StorageFormat::Rg32Uint
            | StorageFormat::Rgba16Uint
            | StorageFormat::Rgba32Uint => ScalarKind::Uint,
            StorageFormat::R8Sint
            | StorageFormat::R16Sint
            | StorageFormat::Rg8Sint
            | StorageFormat::R32Sint
            | StorageFormat::Rg16Sint
            | StorageFormat::Rgba8Sint
            | StorageFormat::Rg32Sint
            | StorageFormat::Rgba16Sint
            | StorageFormat::Rgba32Sint => ScalarKind::Sint,
            _ => ScalarKind::Float,
        }
    }

    /// The kind of scalar that a texel of this format reads as.
    #[verifier::when_used_as_spec(spec_scalar_kind)]
    pub fn scalar_kind(self) -> (kind: ScalarKind)
        ensures
            kind == self.spec_scalar_kind(),
    {
        match self {
            StorageFormat::R8Uint
            | StorageFormat::R16Uint
            | StorageFormat::Rg8Uint
            | StorageFormat::R32Uint
            | StorageFormat::Rg16Uint
            | StorageFormat::Rgba8Uint
            | StorageFormat::Rg32Uint
            | StorageFormat::Rgba16Uint
            | StorageFormat::Rgba32Uint => ScalarKind::Uint,
            StorageFormat::R8Sint
            | StorageFormat::R16Sint
            | StorageFormat::Rg8Sint
            | StorageFormat::R32Sint
            | StorageFormat::Rg16Sint
            | StorageFormat::Rgba8Sint
            | StorageFormat::Rg32Sint
            | StorageFormat::Rgba16Sint
            | StorageFormat::Rgba32Sint => ScalarKind::Sint,
            _ => ScalarKind::Float,
        }
    }
}

} // verus!
