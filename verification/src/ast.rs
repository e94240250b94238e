//! The syntax tree that the parser produces and the semantic analysis annotates.

use vstd::prelude::*;
use crate::ids::NodeId;

verus! {

/// A whole source file.
#[derive(Debug)]
pub struct Program {
    pub items: Vec<Item>,
}

/// A top-level declaration.
#[derive(Debug)]
pub enum Item {
    Function(Function),
    GlobalVarDecl(GlobalVarDecl),
}

#[derive(Debug)]
pub struct Function {
    pub id: NodeId,
    pub params: Vec<Param>,
    pub body: Block,
}

#[derive(Debug)]
pub struct Param {
    pub id: NodeId,
}

#[derive(Debug)]
pub struct GlobalVarDecl {
    pub id: NodeId,
    pub init: Option<Expr>,
}

#[derive(Debug)]
pub struct Stmt {
    pub kind: StmtKind,
    pub id: NodeId,
}

#[derive(Debug)]
pub enum StmtKind {
    Block(Block),
    Break,
    Continue,
    /// A statement the parser could not read; analysis never lets one through.
    Error,
    ExprStmt(ExprStmt),
    For(For),
    If(If),
    Print(Print),
    Return(Return),
    VarDecl(VarDecl),
    While(While),
}

#[derive(Debug)]
pub struct Block {
    pub body: Vec<Stmt>,
}

#[derive(Debug)]
pub struct ExprStmt {
    pub expr: Box<Expr>,
}

#[derive(Debug)]
pub struct Print {
    pub expr: Box<Expr>,
}

#[derive(Debug)]
pub struct Return {
    pub expr: Option<Expr>,
}

#[derive(Debug)]
pub struct VarDecl {
    pub init: Option<Expr>,
}

#[derive(Debug)]
pub struct While {
    pub condition: Box<Expr>,
    pub body: Box<Stmt>,
}

#[derive(Debug)]
pub struct If {
    pub condition: Box<Expr>,
    pub body: Box<Stmt>,
    pub else_body: Option<Box<Stmt>>,
}

#[derive(Debug)]
pub struct For {
    pub init: Option<ForInit>,
    pub condition: Option<Expr>,
    pub increment: Option<Expr>,
    pub body: Box<Stmt>,
}

#[derive(Debug)]
pub struct ForInit {
    pub kind: ForInitKind,
}

#[derive(Debug)]
pub enum ForInitKind {
    Decl(VarDecl),
    Expr(Expr),
}

#[derive(Debug)]
pub struct Expr {
    pub kind: ExprKind,
    pub id: NodeId,
}

#[derive(Debug)]
pub enum ExprKind {
    BinaryOp(BinOpKind, Box<Expr>, Box<Expr>),
    Call(Box<Expr>, Vec<Expr>),
    /// An expression the parser could not read; analysis never lets one through.
    Error,
    Literal(LitKind),
    UnaryOp(UnaryOpKind, Box<Expr>),
    VarAssign(Box<Expr>, Box<Expr>),
    /// A use of a variable, by name.
    Variable(String),
}

/// A literal as written; a floating-point literal is held by its IEEE-754 bits.
#[derive(Debug, Clone, Copy, PartialEq, Eq, Structural)]
pub enum LitKind {
    Bool(bool),
    Float(u64),
    Int(i64),
}

#[derive(Debug, Clone, Copy, PartialEq, Eq, Structural)]
pub enum UnaryOpKind {
    Negate,
    PostDecrement,
    PostIncrement,
    PreDecrement,
    PreIncrement,
}

#[derive(Debug, Clone, Copy, PartialEq, Eq, Structural)]
pub enum BinOpKind {
    Add,
    And,
    BangEq,
    Div,
    EqEq,
    GreaterEq,
    GreaterThan,
    LessEq,
    LessThan,
    Mul,
    Or,
    Sub,
}

} // verus!
