//! Core of a pluggable quantum-circuit emulation kernel: a lazy batching
//! scheduler, the binary output stream, the plugin version and errno protocol,
//! the orchestration that drains scheduled batches through an error model, and
//! the session that sequences shots around it.
//!
//! Rotation angles are fixed-point fractions of a full turn (see
//! [`operation::Angle`]), so that folding Z rotations is exact modulo 2π.

pub mod arg_encoding;
pub mod bytes;
pub mod emulator;
pub mod encoder;
pub mod error_model;
pub mod instance;
pub mod operation;
pub mod runtime;
pub mod time;
pub mod utils;
pub mod version;
