use vstd::prelude::*;

verus! {

/// Identifies a node of the syntax tree; the semantic analysis keys its tables by it.
#[derive(Debug, Clone, Copy, PartialEq, Eq, Structural)]
pub struct NodeId(pub usize);

/// Identifies a node of the lowered program.
#[derive(Debug, Clone, Copy, PartialEq, Eq, Structural)]
pub struct HirId(pub usize);

/// Identifies a function declared in the program.
#[derive(Debug, Clone, Copy, PartialEq, Eq, Structural)]
pub struct FunctionId(pub usize);

/// Identifies a variable local to a function.
#[derive(Debug, Clone, Copy, PartialEq, Eq, Structural)]
pub struct LocalVarId(pub usize);

/// Identifies a variable declared at the top level.
#[derive(Debug, Clone, Copy, PartialEq, Eq, Structural)]
pub struct GlobalVarId(pub usize);

/// A variable, global or local.
#[derive(Debug, Clone, Copy, PartialEq, Eq, Structural)]
pub enum VariableId {
    Global(GlobalVarId),
    Local(LocalVarId),
}

} // verus!
