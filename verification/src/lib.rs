//! Orchestration of a multi-component native build: configuration
//! resolution, a fixed component/dependency table, deterministic source
//! enumeration, per-platform runtime-library resolution, and assembly and
//! emission of the artifact manifest. Toolchain invocation, filesystem
//! traffic and environment reads stay with the caller; everything here is
//! a function from plain values to plain values.

pub mod artifacts;
pub mod components;
pub mod config;
pub mod order;
pub mod plan;
pub mod runtime;
pub mod sources;
pub mod text;

pub use artifacts::Artifacts;
pub use config::Build;
pub use config::BuildError;
pub use plan::BuildPlan;
