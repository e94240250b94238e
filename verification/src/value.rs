//! The values that the virtual machine computes with.

use vstd::prelude::*;

verus! {

/// A value of the virtual machine. A double is held by its IEEE-754 bits.
#[derive(Debug, Clone, Copy, PartialEq, Eq, Structural)]
pub enum Value {
    Int(i32),
    Bool(bool),
    Double(u64),
    /// What a variable declared without an initialiser holds.
    Uninitialized,
}

/// The bits of the double 1.0, which increments and decrements add and subtract.
pub const DOUBLE_ONE_BITS: u64 = 0x3FF0_0000_0000_0000u64;

} // verus!
