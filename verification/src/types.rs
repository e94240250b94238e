use vstd::prelude::*;

verus! {

/// The types of the source language.
#[derive(Debug, Clone, Copy, PartialEq, Eq, Structural)]
pub enum Type {
    Int,
    Bool,
    Double,
    Void,
    Error,
}

/// An implicit conversion that the semantic analysis attached to an expression.
#[derive(Debug, Clone, Copy, PartialEq, Eq, Structural)]
pub enum Conversion {
    IntToDouble,
}

/// What the semantic analysis knows of a function.
#[derive(Debug, Clone, Copy, PartialEq, Eq, Structural)]
pub struct Signature {
    pub return_type: Type,
}

} // verus!
