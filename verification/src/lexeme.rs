//! The kinds of literal value.

use vstd::prelude::*;

verus! {

/// The kinds of literal value that can appear in source text.
#[derive(Clone, Copy, Debug, PartialEq, Eq, Structural, PartialOrd, Ord)]
pub enum Lexeme {
    String,
    Int32,
    Int64,
    UInt32,
    UInt64,
    Float64,
    Float32,
    Usize,
    Isize,
    Char,
    Byte,
}

} // verus!
