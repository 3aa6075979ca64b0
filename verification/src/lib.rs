//! OpenGL shading language writer
//!
//! The main structure is [`Writer`], it maintains internal state that is used to output a
//! [`Module`](crate::ir::Module) into glsl
//!
//! # Supported versions
//! ### Core
//! - 330
//! - 400
//! - 410
//! - 420
//! - 430
//! - 450
//! - 460
//!
//! ### ES
//! - 300
//! - 310
//!
pub mod arena;
pub mod call_graph;
pub mod callees;
pub mod constants;
pub mod context;
pub mod conventions;
pub mod declarations;
pub mod describe;
pub mod discovery;
pub mod error;
pub mod expressions;
pub mod forms;
pub mod functions;
pub mod graph;
pub mod growth;
pub mod indentation;
pub mod ir;
pub mod lines;
pub mod lookups;
pub mod mappings;
pub mod names;
pub mod ordering;
pub mod output;
pub mod reach;
pub mod reading;
pub mod render;
pub mod statements;
pub mod terms;
pub mod text;
pub mod textures;
pub mod types;
pub mod typing;
pub mod validity;
pub mod version;
pub mod visit;
pub mod visiting;
pub mod wording;
pub mod writer;

pub use crate::context::Options;
pub use crate::error::{Error, Features};
pub use crate::textures::TextureMapping;
pub use crate::version::Version;
pub use crate::writer::Writer;
