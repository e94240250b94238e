//! A bytecode compiler for a small imperative language: the lowering of the
//! analysed syntax tree into its intermediate form, and the emission of
//! bytecode for statements and expressions of that form; and what an
//! `AddAssign` derive generates for the type it is applied to.

pub mod ids;
pub mod types;
pub mod ast;
pub mod hir;
pub mod opcodes;
pub mod value;
pub mod chunk;
pub mod analysis;
pub mod lower_spec;
pub mod lowerer;
pub mod lower_laws;
pub mod compile_spec;
pub mod compile_laws;
pub mod jump_laws;
pub mod emit_laws;
pub mod compiler;
pub mod add_assign;
