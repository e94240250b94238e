//! What lowering a syntax tree yields: for each kind of node, how many ids
//! its lowering hands out, when the analysis tables let it be lowered at all,
//! and how the lowered node relates to the syntax node.
//!
//! Ids are handed out children first, from a counter; a node lowered with
//! the counter at `start` takes the ids `start .. start + count`.

use vstd::prelude::*;
use crate::analysis::AnalysisCtx;
use crate::ast;
use crate::hir;
use crate::ids::{NodeId, VariableId};
use crate::types::{Conversion, Type};

verus! {

pub open spec fn lowered_binop(op: ast::BinOpKind) -> hir::BinaryOpKind {
    match op {
        ast::BinOpKind::Add => hir::BinaryOpKind::Add,
        ast::BinOpKind::And => hir::BinaryOpKind::And,
        ast::BinOpKind::BangEq => hir::BinaryOpKind::BangEq,
        ast::BinOpKind::Div => hir::BinaryOpKind::Div,
        ast::BinOpKind::EqEq => hir::BinaryOpKind::EqEq,
        ast::BinOpKind::GreaterEq => hir::BinaryOpKind::GreaterEq,
        ast::BinOpKind::GreaterThan => hir::BinaryOpKind::GreaterThan,
        ast::BinOpKind::LessEq => hir::BinaryOpKind::LessEq,
        ast::BinOpKind::LessThan => hir::BinaryOpKind::LessThan,
        ast::BinOpKind::Mul => hir::BinaryOpKind::Mul,
        ast::BinOpKind::Or => hir::BinaryOpKind::Or,
        ast::BinOpKind::Sub => hir::BinaryOpKind::Sub,
    }
}

pub open spec fn lowered_unop(op: ast::UnaryOpKind) -> hir::UnaryOpKind {
    match op {
        ast::UnaryOpKind::Negate => hir::UnaryOpKind::Negate,
        ast::UnaryOpKind::PostDecrement => hir::UnaryOpKind::PostDecrement,
        ast::UnaryOpKind::PostIncrement => hir::UnaryOpKind::PostIncrement,
        ast::UnaryOpKind::PreDecrement => hir::UnaryOpKind::PreDecrement,
        ast::UnaryOpKind::PreIncrement => hir::UnaryOpKind::PreIncrement,
    }
}

/// An integer literal keeps its low 32 bits.
pub open spec fn lowered_lit(lit: ast::LitKind) -> hir::LiteralKind {
    match lit {
        ast::LitKind::Bool(b) => hir::LiteralKind::Bool(b),
        ast::LitKind::Float(f) => hir::LiteralKind::Float(f),
        ast::LitKind::Int(i) => hir::LiteralKind::Int(i as i32),
    }
}

// ---------------------------------------------------------------------------
// Expressions

/// Lowering wraps `a` in a conversion: the analysis attached one to it, and
/// it is not a binary operation (those are returned as they are, whatever
/// the analysis attached).
pub open spec fn converted(ctx: &AnalysisCtx, a: ast::Expr) -> bool {
    &&& !(a.kind is BinaryOp)
    &&& ctx.node_conversion(a.id) is Some
}

/// The ids that lowering `a` hands out, its conversion included.
pub open spec fn expr_count(ctx: &AnalysisCtx, a: ast::Expr) -> nat
    decreases a, 1nat,
{
    node_count(ctx, a) + if converted(ctx, a) { 1nat } else { 0nat }
}

/// The ids that lowering `a` hands out, its own conversion left out.
pub open spec fn node_count(ctx: &AnalysisCtx, a: ast::Expr) -> nat
    decreases a, 0nat,
{
    match a.kind {
        ast::ExprKind::BinaryOp(_, l, r) => expr_count(ctx, *l) + expr_count(ctx, *r) + 1,
        ast::ExprKind::Call(callee, args) => expr_count(ctx, *callee) + exprs_count(ctx, args@) + 1,
        ast::ExprKind::Error => 0,
        ast::ExprKind::Literal(_) => 1,
        ast::ExprKind::UnaryOp(_, o) => expr_count(ctx, *o) + 1,
        ast::ExprKind::VarAssign(t, v) => expr_count(ctx, *t) + expr_count(ctx, *v) + 1,
        ast::ExprKind::Variable(_) => 1,
    }
}

pub open spec fn exprs_count(ctx: &AnalysisCtx, s: Seq<ast::Expr>) -> nat
    decreases s, 2nat,
{
    if s.len() == 0 {
        0
    } else {
        exprs_count(ctx, s.drop_last()) + expr_count(ctx, s.last())
    }
}

/// The analysis tables hold everything that lowering `a` looks up.
pub open spec fn expr_lowerable(ctx: &AnalysisCtx, a: ast::Expr) -> bool
    decreases a, 0nat,
{
    match a.kind {
        ast::ExprKind::BinaryOp(_, l, r) => expr_lowerable(ctx, *l) && expr_lowerable(ctx, *r)
            && ctx.node_type(a.id) is Some,
        ast::ExprKind::Call(callee, args) => expr_lowerable(ctx, *callee) && exprs_lowerable(
            ctx,
            args@,
        ) && ctx.node_call(a.id) is Some && ctx.node_type(a.id) is Some,
        ast::ExprKind::Error => false,
        ast::ExprKind::Literal(_) => ctx.node_type(a.id) is Some,
        ast::ExprKind::UnaryOp(_, o) => expr_lowerable(ctx, *o) && ctx.node_type(a.id) is Some,
        ast::ExprKind::VarAssign(t, v) => expr_lowerable(ctx, *t) && expr_lowerable(ctx, *v)
            && ctx.node_type(a.id) is Some,
        ast::ExprKind::Variable(_) => match ctx.node_variable(a.id) {
            Some(v) => ctx.variable_type(v) is Some,
            None => false,
        },
    }
}

pub open spec fn exprs_lowerable(ctx: &AnalysisCtx, s: Seq<ast::Expr>) -> bool
    decreases s, 1nat,
{
    if s.len() == 0 {
        true
    } else {
        exprs_lowerable(ctx, s.drop_last()) && expr_lowerable(ctx, s.last())
    }
}

/// `h` is what lowering `a` yields with the counter at `start`: the node
/// itself, wrapped in the conversion that the analysis attached to `a`
/// unless `a` is a binary operation.
pub open spec fn expr_lowered(ctx: &AnalysisCtx, a: ast::Expr, h: hir::Expr, start: nat) -> bool
    decreases a, 1nat,
{
    if converted(ctx, a) {
        &&& ctx.node_conversion(a.id) == Some(Conversion::IntToDouble)
        &&& h.kind matches hir::ExprKind::Conversion(c)
        &&& c.kind == hir::ConversionKind::IntToDouble
        &&& node_lowered(ctx, a, *c.expr, start)
        &&& h.id.0 == start + node_count(ctx, a)
        &&& h.ty == Type::Double
    } else {
        node_lowered(ctx, a, h, start)
    }
}

/// `h` is what lowering `a`, its conversion left out, yields with the
/// counter at `start`.
pub open spec fn node_lowered(ctx: &AnalysisCtx, a: ast::Expr, h: hir::Expr, start: nat) -> bool
    decreases a, 0nat,
{
    match a.kind {
        ast::ExprKind::BinaryOp(op, l, r) => {
            &&& h.kind matches hir::ExprKind::BinaryOp(b)
            &&& b.kind == lowered_binop(op)
            &&& expr_lowered(ctx, *l, *b.left, start)
            &&& expr_lowered(ctx, *r, *b.right, start + expr_count(ctx, *l))
            &&& h.id.0 == start + expr_count(ctx, *l) + expr_count(ctx, *r)
            &&& ctx.node_type(a.id) == Some(h.ty)
        },
        ast::ExprKind::Call(callee, args) => {
            &&& h.kind matches hir::ExprKind::Call(c)
            &&& expr_lowered(ctx, *callee, *c.callee, start)
            &&& exprs_lowered(ctx, args@, c.args@, start + expr_count(ctx, *callee))
            &&& ctx.node_call(a.id) == Some(c.function)
            &&& h.id.0 == start + expr_count(ctx, *callee) + exprs_count(ctx, args@)
            &&& ctx.node_type(a.id) == Some(h.ty)
        },
        ast::ExprKind::Error => false,
        ast::ExprKind::Literal(lit) => {
            &&& h.kind == hir::ExprKind::Literal(hir::Literal { kind: lowered_lit(lit) })
            &&& h.id.0 == start
            &&& ctx.node_type(a.id) == Some(h.ty)
        },
        ast::ExprKind::UnaryOp(op, o) => {
            &&& h.kind matches hir::ExprKind::UnaryOp(u)
            &&& u.kind == lowered_unop(op)
            &&& expr_lowered(ctx, *o, *u.operand, start)
            &&& h.id.0 == start + expr_count(ctx, *o)
            &&& ctx.node_type(a.id) == Some(h.ty)
        },
        ast::ExprKind::VarAssign(t, v) => {
            &&& h.kind matches hir::ExprKind::VarAssign(va)
            &&& expr_lowered(ctx, *t, *va.target, start)
            &&& expr_lowered(ctx, *v, *va.value, start + expr_count(ctx, *t))
            &&& h.id.0 == start + expr_count(ctx, *t) + expr_count(ctx, *v)
            &&& ctx.node_type(a.id) == Some(h.ty)
        },
        ast::ExprKind::Variable(_) => {
            &&& ctx.node_variable(a.id) matches Some(var)
            &&& h.kind == hir::ExprKind::Variable(hir::Variable { id: var })
            &&& h.id.0 == start
            &&& ctx.variable_type(var) == Some(h.ty)
        },
    }
}

pub open spec fn exprs_lowered(
    ctx: &AnalysisCtx,
    s: Seq<ast::Expr>,
    hs: Seq<hir::Expr>,
    start: nat,
) -> bool
    decreases s, 2nat,
{
    if s.len() == 0 {
        hs.len() == 0
    } else {
        &&& hs.len() == s.len()
        &&& exprs_lowered(ctx, s.drop_last(), hs.drop_last(), start)
        &&& expr_lowered(ctx, s.last(), hs.last(), start + exprs_count(ctx, s.drop_last()))
    }
}

// ---------------------------------------------------------------------------
// Facts about lists of expressions

pub proof fn lemma_exprs_step(ctx: &AnalysisCtx, s: Seq<ast::Expr>, i: int)
    requires
        0 <= i < s.len(),
    ensures
        exprs_count(ctx, s.take(i + 1)) == exprs_count(ctx, s.take(i)) + expr_count(ctx, s[i]),
        exprs_lowerable(ctx, s.take(i + 1)) == (exprs_lowerable(ctx, s.take(i)) && expr_lowerable(
            ctx,
            s[i],
        )),
{
    assert(s.take(i + 1).drop_last() =~= s.take(i));
}

pub proof fn lemma_exprs_lowered_step(
    ctx: &AnalysisCtx,
    s: Seq<ast::Expr>,
    i: int,
    hs: Seq<hir::Expr>,
    h: hir::Expr,
    start: nat,
)
    requires
        0 <= i < s.len(),
        exprs_lowered(ctx, s.take(i), hs, start),
        expr_lowered(ctx, s[i], h, start + exprs_count(ctx, s.take(i))),
    ensures
        exprs_lowered(ctx, s.take(i + 1), hs.push(h), start),
{
    assert(s.take(i + 1).drop_last() =~= s.take(i));
    assert(hs.push(h).drop_last() =~= hs);
    lemma_exprs_lowered_len(ctx, s.take(i), hs, start);
}

pub proof fn lemma_exprs_lowered_len(ctx: &AnalysisCtx, s: Seq<ast::Expr>, hs: Seq<hir::Expr>, start: nat)
    requires
        exprs_lowered(ctx, s, hs, start),
    ensures
        hs.len() == s.len(),
{
}

/// A prefix of a list takes no more ids than the list, and is lowerable
/// when the list is.
pub proof fn lemma_exprs_prefix(ctx: &AnalysisCtx, s: Seq<ast::Expr>, i: int)
    requires
        0 <= i <= s.len(),
    ensures
        exprs_count(ctx, s.take(i)) <= exprs_count(ctx, s),
        exprs_lowerable(ctx, s) ==> exprs_lowerable(ctx, s.take(i)),
    decreases s.len() - i,
{
    if i == s.len() {
        assert(s.take(i) =~= s);
    } else {
        lemma_exprs_prefix(ctx, s, i + 1);
        lemma_exprs_step(ctx, s, i);
    }
}

// ---------------------------------------------------------------------------
// Optional expressions and declarations

pub open spec fn opt_expr_count(ctx: &AnalysisCtx, o: Option<ast::Expr>) -> nat {
    match o {
        Some(e) => expr_count(ctx, e),
        None => 0,
    }
}

pub open spec fn opt_expr_lowerable(ctx: &AnalysisCtx, o: Option<ast::Expr>) -> bool {
    match o {
        Some(e) => expr_lowerable(ctx, e),
        None => true,
    }
}

pub open spec fn opt_expr_lowered(
    ctx: &AnalysisCtx,
    o: Option<ast::Expr>,
    h: Option<hir::Expr>,
    start: nat,
) -> bool {
    match (o, h) {
        (Some(e), Some(he)) => expr_lowered(ctx, e, he, start),
        (None, None) => true,
        _ => false,
    }
}

/// A declaration is lowered with the id of the node that declares it: the
/// declaration statement, or the `for` statement whose initialiser it is.
pub open spec fn vardecl_lowerable(ctx: &AnalysisCtx, d: ast::VarDecl, n: NodeId) -> bool {
    &&& ctx.node_variable(n) matches Some(VariableId::Local(_))
    &&& ctx.node_type(n) is Some
    &&& opt_expr_lowerable(ctx, d.init)
}

pub open spec fn vardecl_lowered(
    ctx: &AnalysisCtx,
    d: ast::VarDecl,
    n: NodeId,
    h: hir::VarDecl,
    start: nat,
) -> bool {
    &&& ctx.node_variable(n) == Some(VariableId::Local(h.id))
    &&& ctx.node_type(n) == Some(h.ty)
    &&& opt_expr_lowered(ctx, d.init, h.init, start)
}

pub open spec fn init_kind_count(ctx: &AnalysisCtx, k: ast::ForInitKind) -> nat {
    match k {
        ast::ForInitKind::Decl(d) => opt_expr_count(ctx, d.init),
        ast::ForInitKind::Expr(e) => expr_count(ctx, e),
    }
}

/// The ids that lowering the initialiser of a `for` hands out: those of its
/// content and one for itself.
pub open spec fn init_count(ctx: &AnalysisCtx, i: Option<ast::ForInit>) -> nat {
    match i {
        Some(init) => init_kind_count(ctx, init.kind) + 1,
        None => 0,
    }
}

pub open spec fn init_kind_lowerable(ctx: &AnalysisCtx, k: ast::ForInitKind, n: NodeId) -> bool {
    match k {
        ast::ForInitKind::Decl(d) => vardecl_lowerable(ctx, d, n),
        ast::ForInitKind::Expr(e) => expr_lowerable(ctx, e),
    }
}

pub open spec fn init_kind_lowered(
    ctx: &AnalysisCtx,
    k: ast::ForInitKind,
    n: NodeId,
    h: hir::ForInitKind,
    start: nat,
) -> bool {
    match (k, h) {
        (ast::ForInitKind::Decl(d), hir::ForInitKind::Decl(hd)) => vardecl_lowered(
            ctx,
            d,
            n,
            hd,
            start,
        ),
        (ast::ForInitKind::Expr(e), hir::ForInitKind::Expr(he)) => expr_lowered(ctx, e, he, start),
        _ => false,
    }
}

pub open spec fn init_lowered(
    ctx: &AnalysisCtx,
    i: Option<ast::ForInit>,
    n: NodeId,
    h: Option<hir::ForInit>,
    start: nat,
) -> bool {
    match (i, h) {
        (Some(init), Some(hi)) => {
            &&& init_kind_lowered(ctx, init.kind, n, hi.kind, start)
            &&& hi.id.0 == start + init_kind_count(ctx, init.kind)
        },
        (None, None) => true,
        _ => false,
    }
}

// ---------------------------------------------------------------------------
// Statements

/// The ids that lowering `a` hands out; the statement takes the last.
pub open spec fn stmt_count(ctx: &AnalysisCtx, a: ast::Stmt) -> nat
    decreases a, 0nat,
{
    match a.kind {
        ast::StmtKind::Block(b) => stmts_count(ctx, b.body@) + 1,
        ast::StmtKind::Break => 1,
        ast::StmtKind::Continue => 1,
        ast::StmtKind::Error => 0,
        ast::StmtKind::ExprStmt(e) => expr_count(ctx, *e.expr) + 1,
        ast::StmtKind::For(f) => opt_expr_count(ctx, f.condition) + opt_expr_count(ctx, f.increment)
            + init_count(ctx, f.init) + stmt_count(ctx, *f.body) + 1,
        ast::StmtKind::If(i) => expr_count(ctx, *i.condition) + stmt_count(ctx, *i.body) + match i.else_body {
            Some(e) => stmt_count(ctx, *e),
            None => 0,
        } + 1,
        ast::StmtKind::Print(p) => expr_count(ctx, *p.expr) + 1,
        ast::StmtKind::Return(r) => opt_expr_count(ctx, r.expr) + 1,
        ast::StmtKind::VarDecl(d) => opt_expr_count(ctx, d.init) + 1,
        ast::StmtKind::While(w) => expr_count(ctx, *w.condition) + stmt_count(ctx, *w.body) + 1,
    }
}

pub open spec fn stmts_count(ctx: &AnalysisCtx, s: Seq<ast::Stmt>) -> nat
    decreases s, 1nat,
{
    if s.len() == 0 {
        0
    } else {
        stmts_count(ctx, s.drop_last()) + stmt_count(ctx, s.last())
    }
}

/// The analysis tables hold everything that lowering `a` looks up, and `a`
/// holds no statement that the parser could not read.
pub open spec fn stmt_lowerable(ctx: &AnalysisCtx, a: ast::Stmt) -> bool
    decreases a, 0nat,
{
    match a.kind {
        ast::StmtKind::Block(b) => stmts_lowerable(ctx, b.body@),
        ast::StmtKind::Break => true,
        ast::StmtKind::Continue => true,
        ast::StmtKind::Error => false,
        ast::StmtKind::ExprStmt(e) => expr_lowerable(ctx, *e.expr),
        ast::StmtKind::For(f) => {
            &&& opt_expr_lowerable(ctx, f.condition)
            &&& opt_expr_lowerable(ctx, f.increment)
            &&& (f.init matches Some(init) ==> init_kind_lowerable(ctx, init.kind, a.id))
            &&& stmt_lowerable(ctx, *f.body)
        },
        ast::StmtKind::If(i) => {
            &&& expr_lowerable(ctx, *i.condition)
            &&& stmt_lowerable(ctx, *i.body)
            &&& (i.else_body matches Some(e) ==> stmt_lowerable(ctx, *e))
        },
        ast::StmtKind::Print(p) => expr_lowerable(ctx, *p.expr),
        ast::StmtKind::Return(r) => opt_expr_lowerable(ctx, r.expr),
        ast::StmtKind::VarDecl(d) => vardecl_lowerable(ctx, d, a.id),
        ast::StmtKind::While(w) => expr_lowerable(ctx, *w.condition) && stmt_lowerable(ctx, *w.body),
    }
}

pub open spec fn stmts_lowerable(ctx: &AnalysisCtx, s: Seq<ast::Stmt>) -> bool
    decreases s, 1nat,
{
    if s.len() == 0 {
        true
    } else {
        stmts_lowerable(ctx, s.drop_last()) && stmt_lowerable(ctx, s.last())
    }
}

/// `h` is what lowering `a` yields with the counter at `start`. A `for`
/// lowers its condition, then its increment, then its initialiser, then its
/// body.
pub open spec fn stmt_lowered(ctx: &AnalysisCtx, a: ast::Stmt, h: hir::Stmt, start: nat) -> bool
    decreases a, 0nat,
{
    &&& h.id.0 + 1 == start + stmt_count(ctx, a)
    &&& match a.kind {
        ast::StmtKind::Block(b) => {
            &&& h.kind matches hir::StmtKind::Block(hb)
            &&& stmts_lowered(ctx, b.body@, hb.body@, start)
        },
        ast::StmtKind::Break => h.kind is Break,
        ast::StmtKind::Continue => h.kind is Continue,
        ast::StmtKind::Error => false,
        ast::StmtKind::ExprStmt(e) => {
            &&& h.kind matches hir::StmtKind::ExprStmt(he)
            &&& expr_lowered(ctx, *e.expr, he.expr, start)
        },
        ast::StmtKind::For(f) => {
            let after_cond = start + opt_expr_count(ctx, f.condition);
            let after_incr = after_cond + opt_expr_count(ctx, f.increment);
            &&& h.kind matches hir::StmtKind::For(hf)
            &&& opt_expr_lowered(ctx, f.condition, hf.condition, start)
            &&& opt_expr_lowered(ctx, f.increment, hf.increment, after_cond)
            &&& init_lowered(ctx, f.init, a.id, hf.init, after_incr)
            &&& stmt_lowered(ctx, *f.body, *hf.body, after_incr + init_count(ctx, f.init))
        },
        ast::StmtKind::If(i) => {
            let after_cond = start + expr_count(ctx, *i.condition);
            &&& h.kind matches hir::StmtKind::If(hi)
            &&& expr_lowered(ctx, *i.condition, hi.condition, start)
            &&& stmt_lowered(ctx, *i.body, *hi.body, after_cond)
            &&& match (i.else_body, hi.else_clause) {
                (Some(e), Some(he)) => stmt_lowered(
                    ctx,
                    *e,
                    *he,
                    after_cond + stmt_count(ctx, *i.body),
                ),
                (None, None) => true,
                _ => false,
            }
        },
        ast::StmtKind::Print(p) => {
            &&& h.kind matches hir::StmtKind::Print(hp)
            &&& expr_lowered(ctx, *p.expr, hp.expr, start)
        },
        ast::StmtKind::Return(r) => {
            &&& h.kind matches hir::StmtKind::Return(hr)
            &&& opt_expr_lowered(ctx, r.expr, hr.expr, start)
        },
        ast::StmtKind::VarDecl(d) => {
            &&& h.kind matches hir::StmtKind::VarDecl(hd)
            &&& vardecl_lowered(ctx, d, a.id, hd, start)
        },
        ast::StmtKind::While(w) => {
            &&& h.kind matches hir::StmtKind::While(hw)
            &&& expr_lowered(ctx, *w.condition, hw.condition, start)
            &&& stmt_lowered(ctx, *w.body, *hw.body, start + expr_count(ctx, *w.condition))
        },
    }
}

pub open spec fn stmts_lowered(
    ctx: &AnalysisCtx,
    s: Seq<ast::Stmt>,
    hs: Seq<hir::Stmt>,
    start: nat,
) -> bool
    decreases s, 1nat,
{
    if s.len() == 0 {
        hs.len() == 0
    } else {
        &&& hs.len() == s.len()
        &&& stmts_lowered(ctx, s.drop_last(), hs.drop_last(), start)
        &&& stmt_lowered(ctx, s.last(), hs.last(), start + stmts_count(ctx, s.drop_last()))
    }
}

pub proof fn lemma_stmts_step(ctx: &AnalysisCtx, s: Seq<ast::Stmt>, i: int)
    requires
        0 <= i < s.len(),
    ensures
        stmts_count(ctx, s.take(i + 1)) == stmts_count(ctx, s.take(i)) + stmt_count(ctx, s[i]),
        stmts_lowerable(ctx, s.take(i + 1)) == (stmts_lowerable(ctx, s.take(i)) && stmt_lowerable(
            ctx,
            s[i],
        )),
{
    assert(s.take(i + 1).drop_last() =~= s.take(i));
}

pub proof fn lemma_stmts_lowered_step(
    ctx: &AnalysisCtx,
    s: Seq<ast::Stmt>,
    i: int,
    hs: Seq<hir::Stmt>,
    h: hir::Stmt,
    start: nat,
)
    requires
        0 <= i < s.len(),
        stmts_lowered(ctx, s.take(i), hs, start),
        stmt_lowered(ctx, s[i], h, start + stmts_count(ctx, s.take(i))),
    ensures
        stmts_lowered(ctx, s.take(i + 1), hs.push(h), start),
{
    assert(s.take(i + 1).drop_last() =~= s.take(i));
    assert(hs.push(h).drop_last() =~= hs);
}

pub proof fn lemma_stmts_prefix(ctx: &AnalysisCtx, s: Seq<ast::Stmt>, i: int)
    requires
        0 <= i <= s.len(),
    ensures
        stmts_count(ctx, s.take(i)) <= stmts_count(ctx, s),
        stmts_lowerable(ctx, s) ==> stmts_lowerable(ctx, s.take(i)),
    decreases s.len() - i,
{
    if i == s.len() {
        assert(s.take(i) =~= s);
    } else {
        lemma_stmts_prefix(ctx, s, i + 1);
        lemma_stmts_step(ctx, s, i);
    }
}

// ---------------------------------------------------------------------------
// Functions and programs

/// The analysis recorded a local variable of known type for the node `n`.
pub open spec fn param_lowerable_at(ctx: &AnalysisCtx, n: NodeId) -> bool {
    &&& ctx.node_variable(n) matches Some(VariableId::Local(l))
    &&& ctx.variable_type(VariableId::Local(l)) is Some
}

/// `h` is the local variable that the analysis recorded for the node `n`,
/// with its type.
pub open spec fn param_lowered_at(ctx: &AnalysisCtx, n: NodeId, h: hir::Param) -> bool {
    &&& ctx.node_variable(n) == Some(VariableId::Local(h.id))
    &&& ctx.variable_type(VariableId::Local(h.id)) == Some(h.ty)
}

pub open spec fn param_lowerable(ctx: &AnalysisCtx, p: ast::Param) -> bool {
    param_lowerable_at(ctx, p.id)
}

pub open spec fn param_lowered(ctx: &AnalysisCtx, p: ast::Param, h: hir::Param) -> bool {
    param_lowered_at(ctx, p.id, h)
}

pub open spec fn params_lowered(ctx: &AnalysisCtx, ps: Seq<ast::Param>, hs: Seq<hir::Param>) -> bool {
    &&& hs.len() == ps.len()
    &&& forall|i: int| 0 <= i < ps.len() ==> param_lowered(ctx, ps[i], #[trigger] hs[i])
}

pub open spec fn function_count(ctx: &AnalysisCtx, f: ast::Function) -> nat {
    stmts_count(ctx, f.body.body@) + 1
}

/// The analysis tables hold everything that lowering `f` looks up, the
/// function itself being looked up by the node `n`.
pub open spec fn function_lowerable_at(ctx: &AnalysisCtx, f: ast::Function, n: NodeId) -> bool {
    &&& ctx.node_function(n) matches Some(fid)
    &&& ctx.signature(fid) is Some
    &&& forall|i: int| 0 <= i < f.params@.len() ==> param_lowerable(ctx, #[trigger] f.params@[i])
    &&& stmts_lowerable(ctx, f.body.body@)
}

/// `h` is what lowering the function `f`, looked up by the node `n`, yields
/// with the counter at `start`: its parameters take no id, its body is
/// lowered, and the function takes the last id.
pub open spec fn function_lowered_at(
    ctx: &AnalysisCtx,
    f: ast::Function,
    n: NodeId,
    h: hir::Function,
    start: nat,
) -> bool {
    &&& ctx.node_function(n) == Some(h.fn_id)
    &&& ctx.signature(h.fn_id) matches Some(sig)
    &&& h.return_type == sig.return_type
    &&& params_lowered(ctx, f.params@, h.params@)
    &&& stmts_lowered(ctx, f.body.body@, h.body.body@, start)
    &&& h.id.0 == start + stmts_count(ctx, f.body.body@)
}

/// A function of the program is looked up by its own node.
pub open spec fn function_lowerable(ctx: &AnalysisCtx, f: ast::Function) -> bool {
    function_lowerable_at(ctx, f, f.id)
}

pub open spec fn function_lowered(ctx: &AnalysisCtx, f: ast::Function, h: hir::Function, start: nat) -> bool {
    function_lowered_at(ctx, f, f.id, h, start)
}

pub open spec fn item_count(ctx: &AnalysisCtx, item: ast::Item) -> nat {
    match item {
        ast::Item::Function(f) => function_count(ctx, f),
        ast::Item::GlobalVarDecl(_) => 0,
    }
}

/// Only functions can be lowered: lowering a global declaration is not
/// implemented.
pub open spec fn item_lowerable(ctx: &AnalysisCtx, item: ast::Item) -> bool {
    match item {
        ast::Item::Function(f) => function_lowerable(ctx, f),
        ast::Item::GlobalVarDecl(_) => false,
    }
}

pub open spec fn item_lowered(ctx: &AnalysisCtx, item: ast::Item, h: hir::Item, start: nat) -> bool {
    match (item, h) {
        (ast::Item::Function(f), hir::Item::Function(hf)) => function_lowered(ctx, f, hf, start),
        _ => false,
    }
}

pub open spec fn items_count(ctx: &AnalysisCtx, s: Seq<ast::Item>) -> nat
    decreases s.len(),
{
    if s.len() == 0 {
        0
    } else {
        items_count(ctx, s.drop_last()) + item_count(ctx, s.last())
    }
}

pub open spec fn items_lowerable(ctx: &AnalysisCtx, s: Seq<ast::Item>) -> bool
    decreases s.len(),
{
    if s.len() == 0 {
        true
    } else {
        items_lowerable(ctx, s.drop_last()) && item_lowerable(ctx, s.last())
    }
}

/// `hs` is what lowering the items `s`, first to last, yields with the
/// counter at `start`.
pub open spec fn items_lowered(ctx: &AnalysisCtx, s: Seq<ast::Item>, hs: Seq<hir::Item>, start: nat) -> bool
    decreases s.len(),
{
    if s.len() == 0 {
        hs.len() == 0
    } else {
        &&& hs.len() == s.len()
        &&& items_lowered(ctx, s.drop_last(), hs.drop_last(), start)
        &&& item_lowered(ctx, s.last(), hs.last(), start + items_count(ctx, s.drop_last()))
    }
}

pub proof fn lemma_items_step(ctx: &AnalysisCtx, s: Seq<ast::Item>, i: int)
    requires
        0 <= i < s.len(),
    ensures
        items_count(ctx, s.take(i + 1)) == items_count(ctx, s.take(i)) + item_count(ctx, s[i]),
        items_lowerable(ctx, s.take(i + 1)) == (items_lowerable(ctx, s.take(i)) && item_lowerable(
            ctx,
            s[i],
        )),
{
    assert(s.take(i + 1).drop_last() =~= s.take(i));
}

pub proof fn lemma_items_lowered_step(
    ctx: &AnalysisCtx,
    s: Seq<ast::Item>,
    i: int,
    hs: Seq<hir::Item>,
    h: hir::Item,
    start: nat,
)
    requires
        0 <= i < s.len(),
        items_lowered(ctx, s.take(i), hs, start),
        item_lowered(ctx, s[i], h, start + items_count(ctx, s.take(i))),
    ensures
        items_lowered(ctx, s.take(i + 1), hs.push(h), start),
{
    assert(s.take(i + 1).drop_last() =~= s.take(i));
    assert(hs.push(h).drop_last() =~= hs);
}

pub proof fn lemma_items_prefix(ctx: &AnalysisCtx, s: Seq<ast::Item>, i: int)
    requires
        0 <= i <= s.len(),
    ensures
        items_count(ctx, s.take(i)) <= items_count(ctx, s),
        items_lowerable(ctx, s) ==> items_lowerable(ctx, s.take(i)),
    decreases s.len() - i,
{
    if i == s.len() {
        assert(s.take(i) =~= s);
    } else {
        lemma_items_prefix(ctx, s, i + 1);
        lemma_items_step(ctx, s, i);
    }
}

} // verus!
