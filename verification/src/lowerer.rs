//! Lowering: turns the analysed syntax tree into the intermediate form,
//! numbering every node it creates.

use vstd::prelude::*;
use crate::analysis::AnalysisCtx;
use crate::ast;
use crate::hir;
use crate::ids::{HirId, NodeId, VariableId};
use crate::lower_spec::{
    expr_count, expr_lowerable, expr_lowered, exprs_count, exprs_lowerable, exprs_lowered,
    init_count, init_kind_count, init_kind_lowerable, init_kind_lowered, init_lowered,
    lemma_exprs_lowered_step, lemma_exprs_prefix, lemma_exprs_step, lemma_stmts_lowered_step,
    lemma_stmts_prefix, lemma_stmts_step, lowered_binop, lowered_lit, lowered_unop, opt_expr_count,
    opt_expr_lowerable, opt_expr_lowered, stmt_count, stmt_lowerable, stmt_lowered, stmts_count,
    stmts_lowerable, stmts_lowered, vardecl_lowerable, vardecl_lowered, function_count,
    function_lowerable, function_lowerable_at, function_lowered, function_lowered_at, items_count,
    items_lowerable, items_lowered, lemma_items_lowered_step, lemma_items_prefix, lemma_items_step,
    param_lowerable, param_lowerable_at, param_lowered, param_lowered_at,
};
use crate::types::{Conversion, Type};

verus! {

/// Hands out the ids of the lowered nodes, in the order it creates them.
pub struct Lowerer {
    curr_hirid: HirId,
}

/// What the lowering of one syntax node consults: the analysis tables and
/// the id of the statement or declaration being lowered.
pub struct LowerState<'ctx> {
    pub ctx: &'ctx AnalysisCtx,
    pub id: Option<NodeId>,
}

impl<'ctx> LowerState<'ctx> {
    pub fn new(ctx: &'ctx AnalysisCtx, id: Option<NodeId>) -> (s: Self)
        ensures
            s.ctx == ctx,
            s.id == id,
    {
        LowerState { ctx, id }
    }
}

impl ast::BinOpKind {
    pub fn lower(self) -> (k: hir::BinaryOpKind)
        ensures
            k == lowered_binop(self),
    {
        match self {
            ast::BinOpKind::Add => hir::BinaryOpKind::Add,
            ast::BinOpKind::And => hir::BinaryOpKind::And,
            ast::BinOpKind::BangEq => hir::BinaryOpKind::BangEq,
            ast::BinOpKind::Div => hir::BinaryOpKind::Div,
            ast::BinOpKind::EqEq => hir::BinaryOpKind::EqEq,
            ast::BinOpKind::GreaterEq => hir::BinaryOpKind::GreaterEq,
            ast::BinOpKind::GreaterThan => hir::BinaryOpKind::GreaterThan,
            ast::BinOpKind::LessEq => hir::BinaryOpKind::LessEq,
            ast::BinOpKind::LessThan => hir::BinaryOpKind::LessThan,
            ast::BinOpKind::Mul => hir::BinaryOpKind::Mul,
            ast::BinOpKind::Or => hir::BinaryOpKind::Or,
            ast::BinOpKind::Sub => hir::BinaryOpKind::Sub,
        }
    }
}

impl ast::UnaryOpKind {
    pub fn lower(self) -> (k: hir::UnaryOpKind)
        ensures
            k == lowered_unop(self),
    {
        match self {
            ast::UnaryOpKind::Negate => hir::UnaryOpKind::Negate,
            ast::UnaryOpKind::PostDecrement => hir::UnaryOpKind::PostDecrement,
            ast::UnaryOpKind::PostIncrement => hir::UnaryOpKind::PostIncrement,
            ast::UnaryOpKind::PreDecrement => hir::UnaryOpKind::PreDecrement,
            ast::UnaryOpKind::PreIncrement => hir::UnaryOpKind::PreIncrement,
        }
    }
}

impl ast::LitKind {
    /// An integer literal keeps its low 32 bits.
    pub fn lower(self) -> (k: hir::LiteralKind)
        ensures
            k == lowered_lit(self),
    {
        match self {
            ast::LitKind::Bool(b) => hir::LiteralKind::Bool(b),
            ast::LitKind::Float(f) => hir::LiteralKind::Float(f),
            ast::LitKind::Int(i) => hir::LiteralKind::Int(i as i32),
        }
    }
}

impl Lowerer {
    /// A lowerer whose first id is 0.
    pub fn new() -> (l: Lowerer)
        ensures
            l.curr() == 0,
    {
        Lowerer { curr_hirid: HirId(0) }
    }

    /// The id that the lowerer hands out next.
    pub closed spec fn curr(&self) -> nat {
        self.curr_hirid.0 as nat
    }

    /// Hands out the next id.
    pub fn next_hirid(&mut self) -> (id: HirId)
        requires
            old(self).curr() < usize::MAX,
        ensures
            id.0 == old(self).curr(),
            final(self).curr() == old(self).curr() + 1,
    {
        let id = self.curr_hirid;
        self.curr_hirid = HirId(self.curr_hirid.0 + 1);
        id
    }

    /// The type of an expression after `conversion`.
    pub fn get_conversion_type(&self, conversion: &Conversion) -> (t: Type)
        ensures
            t == Type::Double,
    {
        match conversion {
            Conversion::IntToDouble => Type::Double,
        }
    }

    /// Lowers an expression, then wraps it in the conversion that the
    /// analysis attached to it (a binary operation is returned unwrapped).
    pub fn lower_expr(&mut self, expr: ast::Expr, ctx: &AnalysisCtx) -> (h: hir::Expr)
        requires
            expr_lowerable(ctx, expr),
            old(self).curr() + expr_count(ctx, expr) <= usize::MAX,
        ensures
            expr_lowered(ctx, expr, h, old(self).curr()),
            final(self).curr() == old(self).curr() + expr_count(ctx, expr),
        decreases expr,
    {
        let ghost start = self.curr();
        let ghost a = expr;
        let id = expr.id;
        let hir_expr = match expr.kind {
            ast::ExprKind::BinaryOp(op, lhs, rhs) => {
                let kind = op.lower();
                let lhs = self.lower_expr(*lhs, ctx);
                let rhs = self.lower_expr(*rhs, ctx);
                let binop = hir::BinaryOp { kind, left: Box::new(lhs), right: Box::new(rhs) };
                let ty = ctx.get_type(id).unwrap();
                return hir::Expr { kind: hir::ExprKind::BinaryOp(binop), id: self.next_hirid(), ty };
            },
            ast::ExprKind::Call(callee, args) => {
                let callee_hir = self.lower_expr(*callee, ctx);
                let hir_args = self.lower_args(args, ctx);
                let function = ctx.get_call(id).unwrap();
                let call = hir::Call { callee: Box::new(callee_hir), function, args: hir_args };
                let ty = ctx.get_type(id).unwrap();
                hir::Expr { kind: hir::ExprKind::Call(call), id: self.next_hirid(), ty }
            },
            ast::ExprKind::Literal(lit) => {
                let literal = hir::Literal { kind: lit.lower() };
                let ty = ctx.get_type(id).unwrap();
                hir::Expr { kind: hir::ExprKind::Literal(literal), id: self.next_hirid(), ty }
            },
            ast::ExprKind::UnaryOp(op, operand) => {
                let kind = op.lower();
                let operand = self.lower_expr(*operand, ctx);
                let unop = hir::UnaryOp { kind, operand: Box::new(operand) };
                let ty = ctx.get_type(id).unwrap();
                hir::Expr { kind: hir::ExprKind::UnaryOp(unop), id: self.next_hirid(), ty }
            },
            ast::ExprKind::VarAssign(target, value) => {
                let target = self.lower_expr(*target, ctx);
                let value = self.lower_expr(*value, ctx);
                let assign = hir::VarAssign { target: Box::new(target), value: Box::new(value) };
                let ty = ctx.get_type(id).unwrap();
                hir::Expr { kind: hir::ExprKind::VarAssign(assign), id: self.next_hirid(), ty }
            },
            ast::ExprKind::Variable(_) => {
                let var = ctx.get_variable(id).unwrap();
                let ty = ctx.get_variable_type(var).unwrap();
                hir::Expr {
                    kind: hir::ExprKind::Variable(hir::Variable { id: var }),
                    id: self.next_hirid(),
                    ty,
                }
            },
            ast::ExprKind::Error => {
                // the analysis never lets an erroneous expression through
                proof {
                    assert(false);
                }
                return hir::Expr {
                    kind: hir::ExprKind::Literal(hir::Literal { kind: hir::LiteralKind::Bool(false) }),
                    id: HirId(0),
                    ty: Type::Error,
                };
            },
        };
        match ctx.get_conversion(id) {
            Some(conversion) => {
                let ty = self.get_conversion_type(&conversion);
                let kind = match conversion {
                    Conversion::IntToDouble => hir::ConversionKind::IntToDouble,
                };
                let conv = hir::Conversion { kind, expr: Box::new(hir_expr) };
                hir::Expr { kind: hir::ExprKind::Conversion(conv), id: self.next_hirid(), ty }
            },
            None => hir_expr,
        }
    }

    /// Lowers the arguments of a call, first to last.
    #[verifier::loop_isolation(false)]
    fn lower_args(&mut self, args: Vec<ast::Expr>, ctx: &AnalysisCtx) -> (hs: Vec<hir::Expr>)
        requires
            exprs_lowerable(ctx, args@),
            old(self).curr() + exprs_count(ctx, args@) <= usize::MAX,
        ensures
            exprs_lowered(ctx, args@, hs@, old(self).curr()),
            final(self).curr() == old(self).curr() + exprs_count(ctx, args@),
        decreases args,
    {
        let ghost a = args@;
        let ghost orig = args;
        let ghost start = self.curr();
        let mut args = args;
        let mut hs: Vec<hir::Expr> = Vec::new();
        let n = args.len();
        let mut i: usize = 0;
        assert(a.take(0) =~= Seq::<ast::Expr>::empty());
        while i < n
            invariant
                n == a.len(),
                i <= n,
                orig@ == a,
                args@ == a.skip(i as int),
                exprs_lowerable(ctx, a),
                start + exprs_count(ctx, a) <= usize::MAX,
                exprs_lowered(ctx, a.take(i as int), hs@, start),
                self.curr() == start + exprs_count(ctx, a.take(i as int)),
            decreases n - i,
        {
            proof {
                lemma_exprs_step(ctx, a, i as int);
                lemma_exprs_prefix(ctx, a, i + 1);
            }
            let arg = args.remove(0);
            assert(arg == a[i as int]);
            proof {
                vstd::std_specs::vec::axiom_vec_index_decreases(orig, i as int);
            }
            let h = self.lower_expr(arg, ctx);
            proof {
                lemma_exprs_lowered_step(ctx, a, i as int, hs@, h, start);
                assert(a.skip(i as int).remove(0) =~= a.skip(i + 1));
            }
            hs.push(h);
            i = i + 1;
        }
        assert(a.take(n as int) =~= a);
        hs
    }

    /// Lowers a statement; the statement takes the last id it hands out.
    pub fn lower_stmt(&mut self, stmt: ast::Stmt, ctx: &AnalysisCtx) -> (h: hir::Stmt)
        requires
            stmt_lowerable(ctx, stmt),
            old(self).curr() + stmt_count(ctx, stmt) <= usize::MAX,
        ensures
            stmt_lowered(ctx, stmt, h, old(self).curr()),
            final(self).curr() == old(self).curr() + stmt_count(ctx, stmt),
        decreases stmt,
    {
        let state = LowerState::new(ctx, Some(stmt.id));
        match stmt.kind {
            ast::StmtKind::Block(body) => {
                let block = body.lower(self, &state);
                let kind = hir::StmtKind::Block(block);
                hir::Stmt { kind, id: self.next_hirid() }
            },
            ast::StmtKind::Break => {
                let kind = hir::StmtKind::Break;
                hir::Stmt { kind, id: self.next_hirid() }
            },
            ast::StmtKind::Continue => {
                let kind = hir::StmtKind::Continue;
                hir::Stmt { kind, id: self.next_hirid() }
            },
            ast::StmtKind::Error => {
                // the analysis never lets an erroneous statement through
                proof {
                    assert(false);
                }
                hir::Stmt { kind: hir::StmtKind::Break, id: HirId(0) }
            },
            ast::StmtKind::ExprStmt(expr) => {
                let expr = expr.lower(self, &state);
                let kind = hir::StmtKind::ExprStmt(expr);
                hir::Stmt { kind, id: self.next_hirid() }
            },
            ast::StmtKind::For(for_loop) => {
                let for_loop = for_loop.lower(self, &state);
                let kind = hir::StmtKind::For(for_loop);
                hir::Stmt { kind, id: self.next_hirid() }
            },
            ast::StmtKind::If(if_stmt) => {
                let if_stmt = if_stmt.lower(self, &state);
                let kind = hir::StmtKind::If(if_stmt);
                hir::Stmt { kind, id: self.next_hirid() }
            },
            ast::StmtKind::Print(print) => {
                let print = print.lower(self, &state);
                let kind = hir::StmtKind::Print(print);
                hir::Stmt { kind, id: self.next_hirid() }
            },
            ast::StmtKind::Return(ret) => {
                let ret = ret.lower(self, &state);
                let kind = hir::StmtKind::Return(ret);
                hir::Stmt { kind, id: self.next_hirid() }
            },
            ast::StmtKind::VarDecl(decl) => {
                let decl = decl.lower(self, &state);
                let kind = hir::StmtKind::VarDecl(decl);
                hir::Stmt { kind, id: self.next_hirid() }
            },
            ast::StmtKind::While(while_loop) => {
                let while_loop = while_loop.lower(self, &state);
                let kind = hir::StmtKind::While(while_loop);
                hir::Stmt { kind, id: self.next_hirid() }
            },
        }
    }

    fn lower_opt_expr(&mut self, expr: Option<ast::Expr>, ctx: &AnalysisCtx) -> (h: Option<hir::Expr>)
        requires
            opt_expr_lowerable(ctx, expr),
            old(self).curr() + opt_expr_count(ctx, expr) <= usize::MAX,
        ensures
            opt_expr_lowered(ctx, expr, h, old(self).curr()),
            final(self).curr() == old(self).curr() + opt_expr_count(ctx, expr),
    {
        match expr {
            Some(expr) => Some(self.lower_expr(expr, ctx)),
            None => None,
        }
    }
}

impl ast::Block {
    /// Lowers the statements of the block, first to last.
    #[verifier::loop_isolation(false)]
    pub fn lower(self, lowerer: &mut Lowerer, state: &LowerState) -> (h: hir::Block)
        requires
            stmts_lowerable(state.ctx, self.body@),
            old(lowerer).curr() + stmts_count(state.ctx, self.body@) <= usize::MAX,
        ensures
            stmts_lowered(state.ctx, self.body@, h.body@, old(lowerer).curr()),
            final(lowerer).curr() == old(lowerer).curr() + stmts_count(state.ctx, self.body@),
        decreases self,
    {
        let ghost a = self.body@;
        let ghost orig = self.body;
        let ghost start = lowerer.curr();
        let ctx = state.ctx;
        let mut rest = self.body;
        let mut body: Vec<hir::Stmt> = Vec::new();
        let n = rest.len();
        let mut i: usize = 0;
        assert(a.take(0) =~= Seq::<ast::Stmt>::empty());
        while i < n
            invariant
                n == a.len(),
                i <= n,
                orig@ == a,
                rest@ == a.skip(i as int),
                stmts_lowerable(ctx, a),
                start + stmts_count(ctx, a) <= usize::MAX,
                stmts_lowered(ctx, a.take(i as int), body@, start),
                lowerer.curr() == start + stmts_count(ctx, a.take(i as int)),
            decreases n - i,
        {
            proof {
                lemma_stmts_step(ctx, a, i as int);
                lemma_stmts_prefix(ctx, a, i + 1);
            }
            let stmt = rest.remove(0);
            assert(stmt == a[i as int]);
            proof {
                vstd::std_specs::vec::axiom_vec_index_decreases(orig, i as int);
            }
            let h = lowerer.lower_stmt(stmt, ctx);
            proof {
                lemma_stmts_lowered_step(ctx, a, i as int, body@, h, start);
                assert(a.skip(i as int).remove(0) =~= a.skip(i + 1));
            }
            body.push(h);
            i = i + 1;
        }
        assert(a.take(n as int) =~= a);
        hir::Block { body }
    }
}

impl ast::ExprStmt {
    pub fn lower(self, lowerer: &mut Lowerer, state: &LowerState) -> (h: hir::ExprStmt)
        requires
            expr_lowerable(state.ctx, *self.expr),
            old(lowerer).curr() + expr_count(state.ctx, *self.expr) <= usize::MAX,
        ensures
            expr_lowered(state.ctx, *self.expr, h.expr, old(lowerer).curr()),
            final(lowerer).curr() == old(lowerer).curr() + expr_count(state.ctx, *self.expr),
    {
        let expr = lowerer.lower_expr(*self.expr, state.ctx);
        hir::ExprStmt { expr }
    }
}

impl ast::Print {
    pub fn lower(self, lowerer: &mut Lowerer, state: &LowerState) -> (h: hir::Print)
        requires
            expr_lowerable(state.ctx, *self.expr),
            old(lowerer).curr() + expr_count(state.ctx, *self.expr) <= usize::MAX,
        ensures
            expr_lowered(state.ctx, *self.expr, h.expr, old(lowerer).curr()),
            final(lowerer).curr() == old(lowerer).curr() + expr_count(state.ctx, *self.expr),
    {
        let expr = lowerer.lower_expr(*self.expr, state.ctx);
        hir::Print { expr }
    }
}

impl ast::Return {
    pub fn lower(self, lowerer: &mut Lowerer, state: &LowerState) -> (h: hir::Return)
        requires
            opt_expr_lowerable(state.ctx, self.expr),
            old(lowerer).curr() + opt_expr_count(state.ctx, self.expr) <= usize::MAX,
        ensures
            opt_expr_lowered(state.ctx, self.expr, h.expr, old(lowerer).curr()),
            final(lowerer).curr() == old(lowerer).curr() + opt_expr_count(state.ctx, self.expr),
    {
        let expr = lowerer.lower_opt_expr(self.expr, state.ctx);
        hir::Return { expr }
    }
}

impl ast::VarDecl {
    /// Lowers a declaration; the variable and its type are those that the
    /// analysis recorded for the node in `state.id`.
    pub fn lower(self, lowerer: &mut Lowerer, state: &LowerState) -> (h: hir::VarDecl)
        requires
            state.id matches Some(n) && vardecl_lowerable(state.ctx, self, n),
            old(lowerer).curr() + opt_expr_count(state.ctx, self.init) <= usize::MAX,
        ensures
            vardecl_lowered(state.ctx, self, state.id->0, h, old(lowerer).curr()),
            final(lowerer).curr() == old(lowerer).curr() + opt_expr_count(state.ctx, self.init),
    {
        let nodeid = match state.id {
            Some(n) => n,
            None => {
                proof {
                    assert(false);
                }
                NodeId(0)
            },
        };
        let id = match state.ctx.get_variable(nodeid).unwrap() {
            VariableId::Global(g) => {
                proof {
                    assert(false);
                }
                crate::ids::LocalVarId(g.0)
            },
            VariableId::Local(id) => id,
        };
        let ty = state.ctx.get_type(nodeid).unwrap();
        let init = lowerer.lower_opt_expr(self.init, state.ctx);
        hir::VarDecl { id, ty, init }
    }
}

impl ast::ForInitKind {
    pub fn lower(self, lowerer: &mut Lowerer, state: &LowerState) -> (h: hir::ForInitKind)
        requires
            self is Decl ==> state.id is Some,
            init_kind_lowerable(state.ctx, self, state.id->0),
            old(lowerer).curr() + init_kind_count(state.ctx, self) <= usize::MAX,
        ensures
            init_kind_lowered(state.ctx, self, state.id->0, h, old(lowerer).curr()),
            final(lowerer).curr() == old(lowerer).curr() + init_kind_count(state.ctx, self),
    {
        match self {
            ast::ForInitKind::Decl(decl) => {
                let decl = decl.lower(lowerer, state);
                hir::ForInitKind::Decl(decl)
            },
            ast::ForInitKind::Expr(expr) => {
                let expr = lowerer.lower_expr(expr, state.ctx);
                hir::ForInitKind::Expr(expr)
            },
        }
    }
}

impl ast::For {
    /// Lowers the condition, then the increment, then the initialiser, then
    /// the body.
    pub fn lower(self, lowerer: &mut Lowerer, state: &LowerState) -> (h: hir::For)
        requires
            self.init matches Some(i) && i.kind is Decl ==> state.id is Some,
            opt_expr_lowerable(state.ctx, self.condition),
            opt_expr_lowerable(state.ctx, self.increment),
            self.init matches Some(init) ==> init_kind_lowerable(state.ctx, init.kind, state.id->0),
            stmt_lowerable(state.ctx, *self.body),
            old(lowerer).curr() + opt_expr_count(state.ctx, self.condition) + opt_expr_count(
                state.ctx,
                self.increment,
            ) + init_count(state.ctx, self.init) + stmt_count(state.ctx, *self.body) <= usize::MAX,
        ensures
            ({
                let start = old(lowerer).curr();
                let after_cond = start + opt_expr_count(state.ctx, self.condition);
                let after_incr = after_cond + opt_expr_count(state.ctx, self.increment);
                &&& opt_expr_lowered(state.ctx, self.condition, h.condition, start)
                &&& opt_expr_lowered(state.ctx, self.increment, h.increment, after_cond)
                &&& init_lowered(state.ctx, self.init, state.id->0, h.init, after_incr)
                &&& stmt_lowered(
                    state.ctx,
                    *self.body,
                    *h.body,
                    after_incr + init_count(state.ctx, self.init),
                )
                &&& final(lowerer).curr() == after_incr + init_count(state.ctx, self.init)
                    + stmt_count(state.ctx, *self.body)
            }),
        decreases self,
    {
        let condition = lowerer.lower_opt_expr(self.condition, state.ctx);
        let increment = lowerer.lower_opt_expr(self.increment, state.ctx);
        let init = match self.init {
            Some(init) => {
                let kind = init.kind.lower(lowerer, state);
                let id = lowerer.next_hirid();
                Some(hir::ForInit { kind, id })
            },
            None => None,
        };
        let body = lowerer.lower_stmt(*self.body, state.ctx);
        hir::For { init, condition, increment, body: Box::new(body) }
    }
}

impl ast::If {
    pub fn lower(self, lowerer: &mut Lowerer, state: &LowerState) -> (h: hir::If)
        requires
            expr_lowerable(state.ctx, *self.condition),
            stmt_lowerable(state.ctx, *self.body),
            self.else_body matches Some(e) ==> stmt_lowerable(state.ctx, *e),
            old(lowerer).curr() + expr_count(state.ctx, *self.condition) + stmt_count(
                state.ctx,
                *self.body,
            ) + match self.else_body {
                Some(e) => stmt_count(state.ctx, *e),
                None => 0,
            } <= usize::MAX,
        ensures
            ({
                let start = old(lowerer).curr();
                let after_cond = start + expr_count(state.ctx, *self.condition);
                let after_body = after_cond + stmt_count(state.ctx, *self.body);
                &&& expr_lowered(state.ctx, *self.condition, h.condition, start)
                &&& stmt_lowered(state.ctx, *self.body, *h.body, after_cond)
                &&& match (self.else_body, h.else_clause) {
                    (Some(e), Some(he)) => stmt_lowered(state.ctx, *e, *he, after_body)
                        && final(lowerer).curr() == after_body + stmt_count(state.ctx, *e),
                    (None, None) => final(lowerer).curr() == after_body,
                    _ => false,
                }
            }),
        decreases self,
    {
        let condition = lowerer.lower_expr(*self.condition, state.ctx);
        let body = lowerer.lower_stmt(*self.body, state.ctx);
        let else_clause = match self.else_body {
            Some(else_clause) => Some(Box::new(lowerer.lower_stmt(*else_clause, state.ctx))),
            None => None,
        };
        hir::If { condition, body: Box::new(body), else_clause }
    }
}

impl ast::While {
    pub fn lower(self, lowerer: &mut Lowerer, state: &LowerState) -> (h: hir::While)
        requires
            expr_lowerable(state.ctx, *self.condition),
            stmt_lowerable(state.ctx, *self.body),
            old(lowerer).curr() + expr_count(state.ctx, *self.condition) + stmt_count(
                state.ctx,
                *self.body,
            ) <= usize::MAX,
        ensures
            expr_lowered(state.ctx, *self.condition, h.condition, old(lowerer).curr()),
            stmt_lowered(
                state.ctx,
                *self.body,
                *h.body,
                old(lowerer).curr() + expr_count(state.ctx, *self.condition),
            ),
            final(lowerer).curr() == old(lowerer).curr() + expr_count(state.ctx, *self.condition)
                + stmt_count(state.ctx, *self.body),
        decreases self,
    {
        let condition = lowerer.lower_expr(*self.condition, state.ctx);
        let body = lowerer.lower_stmt(*self.body, state.ctx);
        hir::While { condition, body: Box::new(body) }
    }
}

impl ast::Param {
    /// The parameter as the local variable that the analysis recorded for it.
    pub fn lower(self, state: &LowerState) -> (h: hir::Param)
        requires
            state.id matches Some(n) && param_lowerable_at(state.ctx, n),
        ensures
            param_lowered_at(state.ctx, state.id->0, h),
    {
        let nodeid = match state.id {
            Some(n) => n,
            None => {
                proof {
                    assert(false);
                }
                NodeId(0)
            },
        };
        let varid = state.ctx.get_variable(nodeid).unwrap();
        let id = match varid {
            VariableId::Global(g) => {
                proof {
                    assert(false);
                }
                crate::ids::LocalVarId(g.0)
            },
            VariableId::Local(i) => i,
        };
        let ty = state.ctx.get_variable_type(varid).unwrap();
        hir::Param { id, ty }
    }
}

impl ast::Function {
    /// Lowers the parameters, then the body; the function takes the last id.
    pub fn lower(self, lowerer: &mut Lowerer, state: &LowerState) -> (h: hir::Function)
        requires
            state.id matches Some(n) && function_lowerable_at(state.ctx, self, n),
            old(lowerer).curr() + function_count(state.ctx, self) <= usize::MAX,
        ensures
            function_lowered_at(state.ctx, self, state.id->0, h, old(lowerer).curr()),
            final(lowerer).curr() == old(lowerer).curr() + function_count(state.ctx, self),
    {
        let ctx = state.ctx;
        let nodeid = match state.id {
            Some(n) => n,
            None => {
                proof {
                    assert(false);
                }
                NodeId(0)
            },
        };
        let fn_id = ctx.get_function(nodeid).unwrap();
        let sig = ctx.get_signature(fn_id).unwrap();
        let return_type = sig.return_type;
        let ghost ps = self.params@;
        let mut rest = self.params;
        let mut params: Vec<hir::Param> = Vec::new();
        let n = rest.len();
        let mut i: usize = 0;
        while i < n
            invariant
                n == ps.len(),
                i <= n,
                rest@ == ps.skip(i as int),
                forall|j: int| 0 <= j < ps.len() ==> param_lowerable(ctx, #[trigger] ps[j]),
                params@.len() == i,
                forall|j: int| 0 <= j < i ==> param_lowered(ctx, ps[j], #[trigger] params@[j]),
            decreases n - i,
        {
            let param = rest.remove(0);
            assert(param == ps[i as int]);
            let param_state = LowerState::new(ctx, Some(param.id));
            let h = param.lower(&param_state);
            params.push(h);
            assert(ps.skip(i as int).remove(0) =~= ps.skip(i + 1));
            i = i + 1;
        }
        let body = self.body.lower(lowerer, state);
        hir::Function { id: lowerer.next_hirid(), fn_id, return_type, params, body }
    }
}

impl Lowerer {
    /// Lowers every item of the program, first to last. Only functions can
    /// be lowered; the analysis tables are left as they are.
    #[verifier::loop_isolation(false)]
    pub fn lower(&mut self, program: ast::Program, ctx: &mut AnalysisCtx) -> (h: hir::Program)
        requires
            items_lowerable(old(ctx), program.items@),
            old(self).curr() + items_count(old(ctx), program.items@) <= usize::MAX,
        ensures
            items_lowered(old(ctx), program.items@, h.items@, old(self).curr()),
            final(self).curr() == old(self).curr() + items_count(old(ctx), program.items@),
            *final(ctx) == *old(ctx),
    {
        let ctx: &AnalysisCtx = ctx;
        let ghost a = program.items@;
        let ghost start = self.curr();
        let mut rest = program.items;
        let mut items: Vec<hir::Item> = Vec::new();
        let n = rest.len();
        let mut i: usize = 0;
        assert(a.take(0) =~= Seq::<ast::Item>::empty());
        while i < n
            invariant
                n == a.len(),
                i <= n,
                rest@ == a.skip(i as int),
                items_lowered(ctx, a.take(i as int), items@, start),
                self.curr() == start + items_count(ctx, a.take(i as int)),
            decreases n - i,
        {
            proof {
                lemma_items_step(ctx, a, i as int);
                lemma_items_prefix(ctx, a, i + 1);
            }
            let item = rest.remove(0);
            assert(item == a[i as int]);
            let h = match item {
                ast::Item::Function(f) => hir::Item::Function(self.lower_function(f, ctx)),
                ast::Item::GlobalVarDecl(_) => {
                    // Lowering a global declaration is not implemented; the
                    // precondition admits no program that holds one.
                    proof {
                        assert(false);
                    }
                    hir::Item::GlobalVarDecl(
                        hir::GlobalVarDecl { id: HirId(0), ty: Type::Error, init: None },
                    )
                },
            };
            proof {
                lemma_items_lowered_step(ctx, a, i as int, items@, h, start);
                assert(a.skip(i as int).remove(0) =~= a.skip(i + 1));
            }
            items.push(h);
            i = i + 1;
        }
        assert(a.take(n as int) =~= a);
        hir::Program { items }
    }

    pub fn lower_function(&mut self, function: ast::Function, ctx: &AnalysisCtx) -> (h: hir::Function)
        requires
            function_lowerable(ctx, function),
            old(self).curr() + function_count(ctx, function) <= usize::MAX,
        ensures
            function_lowered(ctx, function, h, old(self).curr()),
            final(self).curr() == old(self).curr() + function_count(ctx, function),
    {
        let state = LowerState::new(ctx, Some(function.id));
        function.lower(self, &state)
    }
}

} // verus!
