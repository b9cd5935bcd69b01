//! The reserved words of the source language.

use vstd::prelude::*;

verus! {

/// The reserved surface words of the source language. A compound keyword
/// such as `public struct` is a tag of its own, distinct from `public`.
#[derive(Clone, Copy, Debug, PartialEq, Eq, Structural, PartialOrd, Ord)]
pub enum Keyword {
    If,
    Then,
    Else,
    For,
    Do,
    End,
    Public,
    Struct,
    PublicStruct,
    Trait,
    PublicTrait,
    Enum,
    PublicEnum,
    Implements,
    Inherits,
    As,
    Equal,
    Function,
    PublicFunction,
    Mutable,
    Borrow,
    Own,
    In,
    Optional,
    Let,
    Module,
    PublicModule,
    Use,
    PublicUse,
    ExternCrate,
    Match,
    Return,
    Derive,
}

} // verus!
