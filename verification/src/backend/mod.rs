//! The back end: bytecode.

pub mod bytecode;
