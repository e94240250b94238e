//! The intermediate form: the syntax tree with every name resolved, every
//! expression typed, every implicit conversion made explicit and every node
//! numbered.

use vstd::prelude::*;
use crate::ids::{FunctionId, HirId, LocalVarId, VariableId};
use crate::types::Type;

verus! {

#[derive(Debug)]
pub struct Program {
    pub items: Vec<Item>,
}

#[derive(Debug)]
pub enum Item {
    Function(Function),
    GlobalVarDecl(GlobalVarDecl),
}

#[derive(Debug)]
pub struct Function {
    pub id: HirId,
    pub fn_id: FunctionId,
    pub return_type: Type,
    pub params: Vec<Param>,
    pub body: Block,
}

#[derive(Debug, Clone, Copy, PartialEq, Eq, Structural)]
pub struct Param {
    pub id: LocalVarId,
    pub ty: Type,
}

#[derive(Debug)]
pub struct GlobalVarDecl {
    pub id: HirId,
    pub ty: Type,
    pub init: Option<Expr>,
}

#[derive(Debug)]
pub struct Stmt {
    pub kind: StmtKind,
    pub id: HirId,
}

#[derive(Debug)]
pub enum StmtKind {
    Block(Block),
    Break,
    Continue,
    ExprStmt(ExprStmt),
    For(For),
    If(If),
    Print(Print),
    Return(Return),
    VarDecl(VarDecl),
    While(While),
}

#[derive(Debug)]
pub struct Block {
    pub body: Vec<Stmt>,
}

#[derive(Debug)]
pub struct ExprStmt {
    pub expr: Expr,
}

#[derive(Debug)]
pub struct Print {
    pub expr: Expr,
}

#[derive(Debug)]
pub struct Return {
    pub expr: Option<Expr>,
}

#[derive(Debug)]
pub struct VarDecl {
    pub id: LocalVarId,
    pub ty: Type,
    pub init: Option<Expr>,
}

#[derive(Debug)]
pub struct While {
    pub condition: Expr,
    pub body: Box<Stmt>,
}

#[derive(Debug)]
pub struct If {
    pub condition: Expr,
    pub body: Box<Stmt>,
    pub else_clause: Option<Box<Stmt>>,
}

#[derive(Debug)]
pub struct For {
    pub init: Option<ForInit>,
    pub condition: Option<Expr>,
    pub increment: Option<Expr>,
    pub body: Box<Stmt>,
}

#[derive(Debug)]
pub struct ForInit {
    pub kind: ForInitKind,
    pub id: HirId,
}

#[derive(Debug)]
pub enum ForInitKind {
    Decl(VarDecl),
    Expr(Expr),
}

#[derive(Debug)]
pub struct Expr {
    pub kind: ExprKind,
    pub id: HirId,
    pub ty: Type,
}

#[derive(Debug)]
pub enum ExprKind {
    BinaryOp(BinaryOp),
    Call(Call),
    Literal(Literal),
    UnaryOp(UnaryOp),
    VarAssign(VarAssign),
    Variable(Variable),
    Conversion(Conversion),
}

#[derive(Debug)]
pub struct BinaryOp {
    pub kind: BinaryOpKind,
    pub left: Box<Expr>,
    pub right: Box<Expr>,
}

#[derive(Debug)]
pub struct Call {
    pub callee: Box<Expr>,
    pub function: FunctionId,
    pub args: Vec<Expr>,
}

#[derive(Debug, Clone, Copy, PartialEq, Eq, Structural)]
pub struct Literal {
    pub kind: LiteralKind,
}

/// A literal value; a floating-point literal is held by its IEEE-754 bits.
#[derive(Debug, Clone, Copy, PartialEq, Eq, Structural)]
pub enum LiteralKind {
    Bool(bool),
    Float(u64),
    Int(i32),
}

#[derive(Debug)]
pub struct UnaryOp {
    pub kind: UnaryOpKind,
    pub operand: Box<Expr>,
}

#[derive(Debug)]
pub struct VarAssign {
    pub target: Box<Expr>,
    pub value: Box<Expr>,
}

#[derive(Debug, Clone, Copy, PartialEq, Eq, Structural)]
pub struct Variable {
    pub id: VariableId,
}

#[derive(Debug)]
pub struct Conversion {
    pub kind: ConversionKind,
    pub expr: Box<Expr>,
}

#[derive(Debug, Clone, Copy, PartialEq, Eq, Structural)]
pub enum ConversionKind {
    IntToDouble,
}

#[derive(Debug, Clone, Copy, PartialEq, Eq, Structural)]
pub enum UnaryOpKind {
    Negate,
    PostDecrement,
    PostIncrement,
    PreDecrement,
    PreIncrement,
}

#[derive(Debug, Clone, Copy, PartialEq, Eq, Structural)]
pub enum BinaryOpKind {
    Add,
    And,
    BangEq,
    Div,
    EqEq,
    GreaterEq,
    GreaterThan,
    LessEq,
    LessThan,
    Mul,
    Or,
    Sub,
}

} // verus!
