//! Rex: the bundle format of a self-extracting executable, the decisions of
//! the generator that writes it and of the runtime that reads it back.

pub mod error;
pub mod format;
pub mod trailer;
pub mod paths;
pub mod codec;
pub mod runtime;
pub mod staging;
pub mod generator;
pub mod cli;
