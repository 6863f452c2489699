//! The data the stages exchange: positions, tokens and syntax tree nodes.

pub mod built_in_types;
pub mod others;
pub mod parse_nodes;
pub mod tokens;
