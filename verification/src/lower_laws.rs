//! Laws of the lowering: how the ids of a lowered program are laid out.

use vstd::prelude::*;
use crate::analysis::AnalysisCtx;
use crate::ast;
use crate::hir;
use crate::lower_spec::{
    lowered_binop, lowered_lit, lowered_unop,
    expr_count, expr_lowered, exprs_count, exprs_lowered, init_count, init_kind_count,
    init_lowered, item_count, items_count, items_lowered, node_count, node_lowered, opt_expr_count,
    opt_expr_lowered, stmt_count, stmt_lowered, stmts_count, stmts_lowered, converted,
};

verus! {

/// The numbers `start, start + 1, ..., start + len - 1`, in that order.
pub open spec fn id_range(start: nat, len: nat) -> Seq<nat> {
    Seq::new(len, |i: int| (start + i) as nat)
}

/// The ids of a lowered expression, in the order that lowering hands them
/// out: children first, a conversion after the node it converts.
pub open spec fn expr_ids(h: hir::Expr) -> Seq<nat>
    decreases h, 1nat,
{
    match h.kind {
        hir::ExprKind::BinaryOp(b) => expr_ids(*b.left) + expr_ids(*b.right) + seq![h.id.0 as nat],
        hir::ExprKind::Call(c) => expr_ids(*c.callee) + exprs_ids(c.args@) + seq![h.id.0 as nat],
        hir::ExprKind::Literal(_) => seq![h.id.0 as nat],
        hir::ExprKind::UnaryOp(u) => expr_ids(*u.operand) + seq![h.id.0 as nat],
        hir::ExprKind::VarAssign(va) => expr_ids(*va.target) + expr_ids(*va.value) + seq![
            h.id.0 as nat,
        ],
        hir::ExprKind::Variable(_) => seq![h.id.0 as nat],
        hir::ExprKind::Conversion(c) => expr_ids(*c.expr) + seq![h.id.0 as nat],
    }
}

pub open spec fn exprs_ids(s: Seq<hir::Expr>) -> Seq<nat>
    decreases s, 0nat,
{
    if s.len() == 0 {
        Seq::empty()
    } else {
        exprs_ids(s.drop_last()) + expr_ids(s.last())
    }
}

pub open spec fn opt_expr_ids(o: Option<hir::Expr>) -> Seq<nat> {
    match o {
        Some(e) => expr_ids(e),
        None => Seq::empty(),
    }
}

pub open spec fn init_kind_ids(k: hir::ForInitKind) -> Seq<nat> {
    match k {
        hir::ForInitKind::Decl(d) => opt_expr_ids(d.init),
        hir::ForInitKind::Expr(e) => expr_ids(e),
    }
}

pub open spec fn init_ids(i: Option<hir::ForInit>) -> Seq<nat> {
    match i {
        Some(init) => init_kind_ids(init.kind) + seq![init.id.0 as nat],
        None => Seq::empty(),
    }
}

/// The ids of a lowered statement, in the order that lowering hands them
/// out; a `for` lists its condition, increment, initialiser and body in
/// that order.
pub open spec fn stmt_ids(h: hir::Stmt) -> Seq<nat>
    decreases h, 1nat,
{
    match h.kind {
        hir::StmtKind::Block(b) => stmts_ids(b.body@) + seq![h.id.0 as nat],
        hir::StmtKind::Break => seq![h.id.0 as nat],
        hir::StmtKind::Continue => seq![h.id.0 as nat],
        hir::StmtKind::ExprStmt(e) => expr_ids(e.expr) + seq![h.id.0 as nat],
        hir::StmtKind::For(f) => opt_expr_ids(f.condition) + opt_expr_ids(f.increment) + init_ids(
            f.init,
        ) + stmt_ids(*f.body) + seq![h.id.0 as nat],
        hir::StmtKind::If(i) => {
            let else_part = match i.else_clause {
                Some(e) => stmt_ids(*e),
                None => Seq::empty(),
            };
            expr_ids(i.condition) + stmt_ids(*i.body) + else_part + seq![h.id.0 as nat]
        },
        hir::StmtKind::Print(p) => expr_ids(p.expr) + seq![h.id.0 as nat],
        hir::StmtKind::Return(r) => opt_expr_ids(r.expr) + seq![h.id.0 as nat],
        hir::StmtKind::VarDecl(d) => opt_expr_ids(d.init) + seq![h.id.0 as nat],
        hir::StmtKind::While(w) => expr_ids(w.condition) + stmt_ids(*w.body) + seq![h.id.0 as nat],
    }
}

pub open spec fn stmts_ids(s: Seq<hir::Stmt>) -> Seq<nat>
    decreases s, 0nat,
{
    if s.len() == 0 {
        Seq::empty()
    } else {
        stmts_ids(s.drop_last()) + stmt_ids(s.last())
    }
}

pub open spec fn item_ids(h: hir::Item) -> Seq<nat> {
    match h {
        hir::Item::Function(f) => stmts_ids(f.body.body@) + seq![f.id.0 as nat],
        hir::Item::GlobalVarDecl(g) => opt_expr_ids(g.init) + seq![g.id.0 as nat],
    }
}

/// The ids of a lowered program, item after item.
pub open spec fn items_ids(s: Seq<hir::Item>) -> Seq<nat>
    decreases s.len(),
{
    if s.len() == 0 {
        Seq::empty()
    } else {
        items_ids(s.drop_last()) + item_ids(s.last())
    }
}

proof fn lemma_range_concat(start: nat, a: nat, b: nat)
    ensures
        id_range(start, a) + id_range(start + a, b) =~= id_range(start, a + b),
{
}

proof fn lemma_range_push(start: nat, a: nat)
    ensures
        id_range(start, a) + seq![start + a] =~= id_range(start, a + 1),
{
}

proof fn lemma_expr_ids(ctx: &AnalysisCtx, a: ast::Expr, h: hir::Expr, start: nat)
    requires
        expr_lowered(ctx, a, h, start),
    ensures
        expr_ids(h) =~= id_range(start, expr_count(ctx, a)),
    decreases a, 1nat,
{
    if converted(ctx, a) {
        let c = h.kind->Conversion_0;
        lemma_node_ids(ctx, a, *c.expr, start);
        lemma_range_push(start, node_count(ctx, a));
    } else {
        lemma_node_ids(ctx, a, h, start);
    }
}

proof fn lemma_node_ids(ctx: &AnalysisCtx, a: ast::Expr, h: hir::Expr, start: nat)
    requires
        node_lowered(ctx, a, h, start),
    ensures
        expr_ids(h) =~= id_range(start, node_count(ctx, a)),
    decreases a, 0nat,
{
    match a.kind {
        ast::ExprKind::BinaryOp(_, l, r) => {
            let b = h.kind->BinaryOp_0;
            let cl = expr_count(ctx, *l);
            let cr = expr_count(ctx, *r);
            lemma_expr_ids(ctx, *l, *b.left, start);
            lemma_expr_ids(ctx, *r, *b.right, start + cl);
            lemma_range_concat(start, cl, cr);
            lemma_range_push(start, cl + cr);
        },
        ast::ExprKind::Call(callee, args) => {
            let c = h.kind->Call_0;
            let cc = expr_count(ctx, *callee);
            let ca = exprs_count(ctx, args@);
            lemma_expr_ids(ctx, *callee, *c.callee, start);
            lemma_exprs_ids(ctx, args@, c.args@, start + cc);
            lemma_range_concat(start, cc, ca);
            lemma_range_push(start, cc + ca);
        },
        ast::ExprKind::Error => {},
        ast::ExprKind::Literal(_) => {},
        ast::ExprKind::UnaryOp(_, o) => {
            let u = h.kind->UnaryOp_0;
            lemma_expr_ids(ctx, *o, *u.operand, start);
            lemma_range_push(start, expr_count(ctx, *o));
        },
        ast::ExprKind::VarAssign(t, v) => {
            let va = h.kind->VarAssign_0;
            let ct = expr_count(ctx, *t);
            let cv = expr_count(ctx, *v);
            lemma_expr_ids(ctx, *t, *va.target, start);
            lemma_expr_ids(ctx, *v, *va.value, start + ct);
            lemma_range_concat(start, ct, cv);
            lemma_range_push(start, ct + cv);
        },
        ast::ExprKind::Variable(_) => {},
    }
}

proof fn lemma_exprs_ids(ctx: &AnalysisCtx, s: Seq<ast::Expr>, hs: Seq<hir::Expr>, start: nat)
    requires
        exprs_lowered(ctx, s, hs, start),
    ensures
        exprs_ids(hs) =~= id_range(start, exprs_count(ctx, s)),
    decreases s, 2nat,
{
    if s.len() > 0 {
        let c = exprs_count(ctx, s.drop_last());
        lemma_exprs_ids(ctx, s.drop_last(), hs.drop_last(), start);
        lemma_expr_ids(ctx, s.last(), hs.last(), start + c);
        lemma_range_concat(start, c, expr_count(ctx, s.last()));
    }
}

proof fn lemma_opt_expr_ids(ctx: &AnalysisCtx, a: Option<ast::Expr>, h: Option<hir::Expr>, start: nat)
    requires
        opt_expr_lowered(ctx, a, h, start),
    ensures
        opt_expr_ids(h) =~= id_range(start, opt_expr_count(ctx, a)),
{
    match (a, h) {
        (Some(e), Some(he)) => lemma_expr_ids(ctx, e, he, start),
        _ => {},
    }
}

proof fn lemma_init_ids(
    ctx: &AnalysisCtx,
    a: Option<ast::ForInit>,
    n: crate::ids::NodeId,
    h: Option<hir::ForInit>,
    start: nat,
)
    requires
        init_lowered(ctx, a, n, h, start),
    ensures
        init_ids(h) =~= id_range(start, init_count(ctx, a)),
{
    match (a, h) {
        (Some(init), Some(hi)) => {
            match (init.kind, hi.kind) {
                (ast::ForInitKind::Decl(d), hir::ForInitKind::Decl(hd)) => {
                    lemma_opt_expr_ids(ctx, d.init, hd.init, start);
                },
                (ast::ForInitKind::Expr(e), hir::ForInitKind::Expr(he)) => {
                    lemma_expr_ids(ctx, e, he, start);
                },
                _ => {},
            }
            lemma_range_push(start, init_kind_count(ctx, init.kind));
        },
        _ => {},
    }
}

proof fn lemma_stmt_ids(ctx: &AnalysisCtx, a: ast::Stmt, h: hir::Stmt, start: nat)
    requires
        stmt_lowered(ctx, a, h, start),
    ensures
        stmt_ids(h) =~= id_range(start, stmt_count(ctx, a)),
    decreases a, 0nat,
{
    match a.kind {
        ast::StmtKind::Block(b) => {
            let hb = h.kind->Block_0;
            lemma_stmts_ids(ctx, b.body@, hb.body@, start);
            lemma_range_push(start, stmts_count(ctx, b.body@));
        },
        ast::StmtKind::Break => {},
        ast::StmtKind::Continue => {},
        ast::StmtKind::Error => {},
        ast::StmtKind::ExprStmt(e) => {
            let he = h.kind->ExprStmt_0;
            lemma_expr_ids(ctx, *e.expr, he.expr, start);
            lemma_range_push(start, expr_count(ctx, *e.expr));
        },
        ast::StmtKind::For(f) => {
            let hf = h.kind->For_0;
            let c1 = opt_expr_count(ctx, f.condition);
            let c2 = opt_expr_count(ctx, f.increment);
            let c3 = init_count(ctx, f.init);
            let c4 = stmt_count(ctx, *f.body);
            lemma_opt_expr_ids(ctx, f.condition, hf.condition, start);
            lemma_opt_expr_ids(ctx, f.increment, hf.increment, start + c1);
            lemma_init_ids(ctx, f.init, a.id, hf.init, start + c1 + c2);
            lemma_stmt_ids(ctx, *f.body, *hf.body, start + c1 + c2 + c3);
            lemma_range_concat(start, c1, c2);
            lemma_range_concat(start, c1 + c2, c3);
            lemma_range_concat(start, c1 + c2 + c3, c4);
            lemma_range_push(start, c1 + c2 + c3 + c4);
        },
        ast::StmtKind::If(i) => {
            let hi = h.kind->If_0;
            let c1 = expr_count(ctx, *i.condition);
            let c2 = stmt_count(ctx, *i.body);
            lemma_expr_ids(ctx, *i.condition, hi.condition, start);
            lemma_stmt_ids(ctx, *i.body, *hi.body, start + c1);
            lemma_range_concat(start, c1, c2);
            match (i.else_body, hi.else_clause) {
                (Some(e), Some(he)) => {
                    let c3 = stmt_count(ctx, *e);
                    lemma_stmt_ids(ctx, *e, *he, start + c1 + c2);
                    lemma_range_concat(start, c1 + c2, c3);
                    lemma_range_push(start, c1 + c2 + c3);
                },
                _ => {
                    lemma_range_push(start, c1 + c2);
                },
            }
        },
        ast::StmtKind::Print(p) => {
            let hp = h.kind->Print_0;
            lemma_expr_ids(ctx, *p.expr, hp.expr, start);
            lemma_range_push(start, expr_count(ctx, *p.expr));
        },
        ast::StmtKind::Return(r) => {
            let hr = h.kind->Return_0;
            lemma_opt_expr_ids(ctx, r.expr, hr.expr, start);
            lemma_range_push(start, opt_expr_count(ctx, r.expr));
        },
        ast::StmtKind::VarDecl(d) => {
            let hd = h.kind->VarDecl_0;
            lemma_opt_expr_ids(ctx, d.init, hd.init, start);
            lemma_range_push(start, opt_expr_count(ctx, d.init));
        },
        ast::StmtKind::While(w) => {
            let hw = h.kind->While_0;
            let c1 = expr_count(ctx, *w.condition);
            let c2 = stmt_count(ctx, *w.body);
            lemma_expr_ids(ctx, *w.condition, hw.condition, start);
            lemma_stmt_ids(ctx, *w.body, *hw.body, start + c1);
            lemma_range_concat(start, c1, c2);
            lemma_range_push(start, c1 + c2);
        },
    }
}

proof fn lemma_stmts_ids(ctx: &AnalysisCtx, s: Seq<ast::Stmt>, hs: Seq<hir::Stmt>, start: nat)
    requires
        stmts_lowered(ctx, s, hs, start),
    ensures
        stmts_ids(hs) =~= id_range(start, stmts_count(ctx, s)),
    decreases s, 1nat,
{
    if s.len() > 0 {
        let c = stmts_count(ctx, s.drop_last());
        lemma_stmts_ids(ctx, s.drop_last(), hs.drop_last(), start);
        lemma_stmt_ids(ctx, s.last(), hs.last(), start + c);
        lemma_range_concat(start, c, stmt_count(ctx, s.last()));
    }
}

proof fn lemma_items_ids(ctx: &AnalysisCtx, s: Seq<ast::Item>, hs: Seq<hir::Item>, start: nat)
    requires
        items_lowered(ctx, s, hs, start),
    ensures
        items_ids(hs) =~= id_range(start, items_count(ctx, s)),
    decreases s.len(),
{
    if s.len() > 0 {
        let c = items_count(ctx, s.drop_last());
        lemma_items_ids(ctx, s.drop_last(), hs.drop_last(), start);
        match (s.last(), hs.last()) {
            (ast::Item::Function(f), hir::Item::Function(hf)) => {
                lemma_stmts_ids(ctx, f.body.body@, hf.body.body@, start + c);
                lemma_range_push(start + c, stmts_count(ctx, f.body.body@));
            },
            _ => {},
        }
        lemma_range_concat(start, c, item_count(ctx, s.last()));
    }
}

/// Lowering numbers the nodes it creates consecutively from the counter:
/// listed in the order they were created, the ids of a lowered program are
/// `start, start + 1, ...`, as many as the counter advanced by, so no two
/// nodes of the lowered program share an id.
pub proof fn lemma_lowered_program_ids(
    ctx: &AnalysisCtx,
    items: Seq<ast::Item>,
    lowered: Seq<hir::Item>,
    start: nat,
)
    requires
        items_lowered(ctx, items, lowered, start),
    ensures
        items_ids(lowered) == id_range(start, items_count(ctx, items)),
        items_ids(lowered).no_duplicates(),
{
    lemma_items_ids(ctx, items, lowered, start);
}

/// The same law for a single statement: its ids are consecutive from the
/// counter, and distinct.
pub proof fn lemma_lowered_stmt_ids(ctx: &AnalysisCtx, stmt: ast::Stmt, lowered: hir::Stmt, start: nat)
    requires
        stmt_lowered(ctx, stmt, lowered, start),
    ensures
        stmt_ids(lowered) == id_range(start, stmt_count(ctx, stmt)),
        stmt_ids(lowered).no_duplicates(),
{
    lemma_stmt_ids(ctx, stmt, lowered, start);
}

/// The same law for a single expression.
pub proof fn lemma_lowered_expr_ids(ctx: &AnalysisCtx, expr: ast::Expr, lowered: hir::Expr, start: nat)
    requires
        expr_lowered(ctx, expr, lowered, start),
    ensures
        expr_ids(lowered) == id_range(start, expr_count(ctx, expr)),
        expr_ids(lowered).no_duplicates(),
{
    lemma_expr_ids(ctx, expr, lowered, start);
}

/// Every id in `ids` is below `id`.
pub open spec fn all_below(ids: Seq<nat>, id: nat) -> bool {
    forall|i: int| 0 <= i < ids.len() ==> #[trigger] ids[i] < id
}

/// Every node of `h` has a larger id than every node below it.
pub open spec fn ids_above_children(h: hir::Expr) -> bool
    decreases h,
{
    let id = h.id.0 as nat;
    match h.kind {
        hir::ExprKind::BinaryOp(b) => {
            &&& all_below(expr_ids(*b.left), id) && ids_above_children(*b.left)
            &&& all_below(expr_ids(*b.right), id) && ids_above_children(*b.right)
        },
        hir::ExprKind::Call(c) => {
            &&& all_below(expr_ids(*c.callee), id) && ids_above_children(*c.callee)
            &&& all_below(exprs_ids(c.args@), id)
            &&& forall|i: int| 0 <= i < c.args@.len() ==> ids_above_children(#[trigger] c.args@[i])
        },
        hir::ExprKind::Literal(_) => true,
        hir::ExprKind::UnaryOp(u) => all_below(expr_ids(*u.operand), id) && ids_above_children(
            *u.operand,
        ),
        hir::ExprKind::VarAssign(va) => {
            &&& all_below(expr_ids(*va.target), id) && ids_above_children(*va.target)
            &&& all_below(expr_ids(*va.value), id) && ids_above_children(*va.value)
        },
        hir::ExprKind::Variable(_) => true,
        hir::ExprKind::Conversion(c) => all_below(expr_ids(*c.expr), id) && ids_above_children(
            *c.expr,
        ),
    }
}

proof fn lemma_expr_above(ctx: &AnalysisCtx, a: ast::Expr, h: hir::Expr, start: nat)
    requires
        expr_lowered(ctx, a, h, start),
    ensures
        ids_above_children(h),
        h.id.0 == start + expr_count(ctx, a) - 1,
    decreases a, 1nat,
{
    if converted(ctx, a) {
        let c = h.kind->Conversion_0;
        lemma_node_above(ctx, a, *c.expr, start);
        lemma_node_ids(ctx, a, *c.expr, start);
    } else {
        lemma_node_above(ctx, a, h, start);
    }
}

proof fn lemma_node_above(ctx: &AnalysisCtx, a: ast::Expr, h: hir::Expr, start: nat)
    requires
        node_lowered(ctx, a, h, start),
    ensures
        ids_above_children(h),
        h.id.0 == start + node_count(ctx, a) - 1,
    decreases a, 0nat,
{
    match a.kind {
        ast::ExprKind::BinaryOp(_, l, r) => {
            let b = h.kind->BinaryOp_0;
            let cl = expr_count(ctx, *l);
            lemma_expr_above(ctx, *l, *b.left, start);
            lemma_expr_above(ctx, *r, *b.right, start + cl);
            lemma_expr_ids(ctx, *l, *b.left, start);
            lemma_expr_ids(ctx, *r, *b.right, start + cl);
        },
        ast::ExprKind::Call(callee, args) => {
            let c = h.kind->Call_0;
            let cc = expr_count(ctx, *callee);
            lemma_expr_above(ctx, *callee, *c.callee, start);
            lemma_expr_ids(ctx, *callee, *c.callee, start);
            lemma_exprs_above(ctx, args@, c.args@, start + cc);
            lemma_exprs_ids(ctx, args@, c.args@, start + cc);
        },
        ast::ExprKind::Error => {},
        ast::ExprKind::Literal(_) => {},
        ast::ExprKind::UnaryOp(_, o) => {
            let u = h.kind->UnaryOp_0;
            lemma_expr_above(ctx, *o, *u.operand, start);
            lemma_expr_ids(ctx, *o, *u.operand, start);
        },
        ast::ExprKind::VarAssign(t, v) => {
            let va = h.kind->VarAssign_0;
            let ct = expr_count(ctx, *t);
            lemma_expr_above(ctx, *t, *va.target, start);
            lemma_expr_above(ctx, *v, *va.value, start + ct);
            lemma_expr_ids(ctx, *t, *va.target, start);
            lemma_expr_ids(ctx, *v, *va.value, start + ct);
        },
        ast::ExprKind::Variable(_) => {},
    }
}

proof fn lemma_exprs_above(ctx: &AnalysisCtx, s: Seq<ast::Expr>, hs: Seq<hir::Expr>, start: nat)
    requires
        exprs_lowered(ctx, s, hs, start),
    ensures
        forall|i: int| 0 <= i < hs.len() ==> ids_above_children(#[trigger] hs[i]),
    decreases s, 2nat,
{
    if s.len() > 0 {
        let c = exprs_count(ctx, s.drop_last());
        lemma_exprs_above(ctx, s.drop_last(), hs.drop_last(), start);
        lemma_expr_above(ctx, s.last(), hs.last(), start + c);
        assert forall|i: int| 0 <= i < hs.len() implies ids_above_children(#[trigger] hs[i]) by {
            if i < hs.len() - 1 {
                assert(hs[i] == hs.drop_last()[i]);
            }
        }
    }
}

/// In a lowered expression every node takes a larger id than every node
/// below it, and the expression itself takes the last id handed out.
pub proof fn lemma_lowered_expr_ids_above_children(
    ctx: &AnalysisCtx,
    expr: ast::Expr,
    lowered: hir::Expr,
    start: nat,
)
    requires
        expr_lowered(ctx, expr, lowered, start),
    ensures
        ids_above_children(lowered),
        lowered.id.0 == start + expr_count(ctx, expr) - 1,
{
    lemma_expr_above(ctx, expr, lowered, start);
}

/// The name of a binary operator of the syntax tree.
pub open spec fn ast_binop_name(op: ast::BinOpKind) -> Seq<char> {
    match op {
        ast::BinOpKind::Add => "Add"@,
        ast::BinOpKind::And => "And"@,
        ast::BinOpKind::BangEq => "BangEq"@,
        ast::BinOpKind::Div => "Div"@,
        ast::BinOpKind::EqEq => "EqEq"@,
        ast::BinOpKind::GreaterEq => "GreaterEq"@,
        ast::BinOpKind::GreaterThan => "GreaterThan"@,
        ast::BinOpKind::LessEq => "LessEq"@,
        ast::BinOpKind::LessThan => "LessThan"@,
        ast::BinOpKind::Mul => "Mul"@,
        ast::BinOpKind::Or => "Or"@,
        ast::BinOpKind::Sub => "Sub"@,
    }
}

/// The name of a binary operator of the intermediate form.
pub open spec fn hir_binop_name(op: hir::BinaryOpKind) -> Seq<char> {
    match op {
        hir::BinaryOpKind::Add => "Add"@,
        hir::BinaryOpKind::And => "And"@,
        hir::BinaryOpKind::BangEq => "BangEq"@,
        hir::BinaryOpKind::Div => "Div"@,
        hir::BinaryOpKind::EqEq => "EqEq"@,
        hir::BinaryOpKind::GreaterEq => "GreaterEq"@,
        hir::BinaryOpKind::GreaterThan => "GreaterThan"@,
        hir::BinaryOpKind::LessEq => "LessEq"@,
        hir::BinaryOpKind::LessThan => "LessThan"@,
        hir::BinaryOpKind::Mul => "Mul"@,
        hir::BinaryOpKind::Or => "Or"@,
        hir::BinaryOpKind::Sub => "Sub"@,
    }
}

pub open spec fn ast_unop_name(op: ast::UnaryOpKind) -> Seq<char> {
    match op {
        ast::UnaryOpKind::Negate => "Negate"@,
        ast::UnaryOpKind::PostDecrement => "PostDecrement"@,
        ast::UnaryOpKind::PostIncrement => "PostIncrement"@,
        ast::UnaryOpKind::PreDecrement => "PreDecrement"@,
        ast::UnaryOpKind::PreIncrement => "PreIncrement"@,
    }
}

pub open spec fn hir_unop_name(op: hir::UnaryOpKind) -> Seq<char> {
    match op {
        hir::UnaryOpKind::Negate => "Negate"@,
        hir::UnaryOpKind::PostDecrement => "PostDecrement"@,
        hir::UnaryOpKind::PostIncrement => "PostIncrement"@,
        hir::UnaryOpKind::PreDecrement => "PreDecrement"@,
        hir::UnaryOpKind::PreIncrement => "PreIncrement"@,
    }
}

/// Lowering keeps every operator: a binary or unary operator becomes the
/// operator of the same name in the intermediate form.
pub proof fn lemma_lowering_keeps_operators(b: ast::BinOpKind, u: ast::UnaryOpKind)
    ensures
        hir_binop_name(lowered_binop(b)) == ast_binop_name(b),
        hir_unop_name(lowered_unop(u)) == ast_unop_name(u),
{
}

/// Lowering keeps every literal: a boolean and the bits of a floating-point
/// number as they are, and an integer that fits in 32 bits as it is (a
/// larger one keeps its low 32 bits).
pub proof fn lemma_lowering_keeps_literals(lit: ast::LitKind)
    ensures
        lit matches ast::LitKind::Bool(b) ==> lowered_lit(lit) == hir::LiteralKind::Bool(b),
        lit matches ast::LitKind::Float(f) ==> lowered_lit(lit) == hir::LiteralKind::Float(f),
        lit matches ast::LitKind::Int(i) ==> (lowered_lit(lit) matches hir::LiteralKind::Int(j)
            && (i32::MIN <= i <= i32::MAX ==> j == i)),
{
}

} // verus!
