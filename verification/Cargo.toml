[package]
name = "glsl_writer"
version = "0.1.0"
edition = "2021"
publish = false

[dependencies]
petgraph = "0.5"
thiserror = "1"
