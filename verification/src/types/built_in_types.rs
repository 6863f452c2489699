//! The closed set of types a declaration can name.

use vstd::prelude::*;

verus! {

/// The type written in a declaration, or `Any` where none was written.
#[derive(Debug, Clone, Copy, PartialEq, Eq, Structural)]
pub enum BuiltInTypes {
    Null,
    Int,
    Float,
    Bool,
    Char,
    Str,
    Void,
    Any,
}

} // verus!
