use compiler::analysis::AnalysisCtx;
use compiler::ast;
use compiler::hir;
use compiler::ids::{FunctionId, HirId, LocalVarId, NodeId, VariableId};
use compiler::lowerer::Lowerer;
use compiler::types::{Conversion, Signature, Type};

fn lit(id: usize, kind: ast::LitKind) -> ast::Expr {
    ast::Expr { kind: ast::ExprKind::Literal(kind), id: NodeId(id) }
}

fn var(id: usize, name: &str) -> ast::Expr {
    ast::Expr { kind: ast::ExprKind::Variable(name.to_string()), id: NodeId(id) }
}

#[test]
fn literal_takes_the_first_id_and_its_type() {
    let mut ctx = AnalysisCtx::new();
    ctx.types.insert(7, Type::Int);
    let mut lowerer = Lowerer::new();
    let h = lowerer.lower_expr(lit(7, ast::LitKind::Int(42)), &ctx);
    assert_eq!(h.id, HirId(0));
    assert_eq!(h.ty, Type::Int);
    match h.kind {
        hir::ExprKind::Literal(l) => assert_eq!(l.kind, hir::LiteralKind::Int(42)),
        _ => panic!("expected a literal"),
    }
}

#[test]
fn integer_literal_keeps_its_low_32_bits() {
    let mut ctx = AnalysisCtx::new();
    ctx.types.insert(1, Type::Int);
    let mut lowerer = Lowerer::new();
    let h = lowerer.lower_expr(lit(1, ast::LitKind::Int(0x1_0000_0005)), &ctx);
    match h.kind {
        hir::ExprKind::Literal(l) => assert_eq!(l.kind, hir::LiteralKind::Int(5)),
        _ => panic!("expected a literal"),
    }
}

#[test]
fn conversion_wraps_the_converted_operand_and_takes_the_next_id() {
    // 1 + 2.5, where the analysis converts the integer 1 to a double.
    let mut ctx = AnalysisCtx::new();
    ctx.types.insert(1, Type::Int);
    ctx.types.insert(2, Type::Double);
    ctx.types.insert(3, Type::Double);
    ctx.conversions.insert(1, Conversion::IntToDouble);
    let sum = ast::Expr {
        kind: ast::ExprKind::BinaryOp(
            ast::BinOpKind::Add,
            Box::new(lit(1, ast::LitKind::Int(1))),
            Box::new(lit(2, ast::LitKind::Float(2.5f64.to_bits()))),
        ),
        id: NodeId(3),
    };
    let mut lowerer = Lowerer::new();
    let h = lowerer.lower_expr(sum, &ctx);
    assert_eq!(h.id, HirId(3));
    assert_eq!(h.ty, Type::Double);
    match h.kind {
        hir::ExprKind::BinaryOp(b) => {
            assert_eq!(b.kind, hir::BinaryOpKind::Add);
            assert_eq!(b.left.id, HirId(1));
            assert_eq!(b.left.ty, Type::Double);
            match &b.left.kind {
                hir::ExprKind::Conversion(c) => {
                    assert_eq!(c.kind, hir::ConversionKind::IntToDouble);
                    assert_eq!(c.expr.id, HirId(0));
                    assert_eq!(c.expr.ty, Type::Int);
                },
                _ => panic!("expected a conversion"),
            }
            assert_eq!(b.right.id, HirId(2));
            match &b.right.kind {
                hir::ExprKind::Literal(l) => {
                    assert_eq!(l.kind, hir::LiteralKind::Float(2.5f64.to_bits()))
                },
                _ => panic!("expected a literal"),
            }
        },
        _ => panic!("expected a binary operation"),
    }
}

#[test]
fn binary_operation_is_never_wrapped_in_a_conversion() {
    let mut ctx = AnalysisCtx::new();
    ctx.types.insert(1, Type::Int);
    ctx.types.insert(2, Type::Int);
    ctx.types.insert(3, Type::Int);
    ctx.conversions.insert(3, Conversion::IntToDouble);
    let sum = ast::Expr {
        kind: ast::ExprKind::BinaryOp(
            ast::BinOpKind::Mul,
            Box::new(lit(1, ast::LitKind::Int(6))),
            Box::new(lit(2, ast::LitKind::Int(7))),
        ),
        id: NodeId(3),
    };
    let mut lowerer = Lowerer::new();
    let h = lowerer.lower_expr(sum, &ctx);
    assert_eq!(h.id, HirId(2));
    assert_eq!(h.ty, Type::Int);
    assert!(matches!(h.kind, hir::ExprKind::BinaryOp(_)));
}

#[test]
fn variable_and_assignment_take_their_variable_and_type() {
    let mut ctx = AnalysisCtx::new();
    ctx.variables.insert(1, VariableId::Local(LocalVarId(4)));
    ctx.variables.insert(2, VariableId::Local(LocalVarId(4)));
    ctx.local_var_types.insert(4, Type::Bool);
    ctx.types.insert(2, Type::Bool);
    ctx.types.insert(3, Type::Bool);
    let assign = ast::Expr {
        kind: ast::ExprKind::VarAssign(Box::new(var(1, "x")), Box::new(lit(2, ast::LitKind::Bool(true)))),
        id: NodeId(3),
    };
    let mut lowerer = Lowerer::new();
    let h = lowerer.lower_expr(assign, &ctx);
    assert_eq!(h.id, HirId(2));
    match h.kind {
        hir::ExprKind::VarAssign(va) => {
            assert_eq!(va.target.id, HirId(0));
            assert_eq!(va.target.ty, Type::Bool);
            match va.target.kind {
                hir::ExprKind::Variable(v) => assert_eq!(v.id, VariableId::Local(LocalVarId(4))),
                _ => panic!("expected a variable"),
            }
            assert_eq!(va.value.id, HirId(1));
        },
        _ => panic!("expected an assignment"),
    }
}

#[test]
fn call_lowers_callee_then_arguments_in_order() {
    let mut ctx = AnalysisCtx::new();
    ctx.variables.insert(1, VariableId::Local(LocalVarId(0)));
    ctx.local_var_types.insert(0, Type::Int);
    ctx.types.insert(2, Type::Int);
    ctx.types.insert(3, Type::Int);
    ctx.types.insert(4, Type::Int);
    ctx.calls.insert(4, FunctionId(9));
    let call = ast::Expr {
        kind: ast::ExprKind::Call(
            Box::new(var(1, "f")),
            vec![lit(2, ast::LitKind::Int(1)), lit(3, ast::LitKind::Int(2))],
        ),
        id: NodeId(4),
    };
    let mut lowerer = Lowerer::new();
    let h = lowerer.lower_expr(call, &ctx);
    assert_eq!(h.id, HirId(3));
    match h.kind {
        hir::ExprKind::Call(c) => {
            assert_eq!(c.function, FunctionId(9));
            assert_eq!(c.callee.id, HirId(0));
            assert_eq!(c.args.len(), 2);
            assert_eq!(c.args[0].id, HirId(1));
            assert_eq!(c.args[1].id, HirId(2));
        },
        _ => panic!("expected a call"),
    }
}

fn stmt(id: usize, kind: ast::StmtKind) -> ast::Stmt {
    ast::Stmt { kind, id: NodeId(id) }
}

#[test]
fn for_lowers_condition_increment_initialiser_then_body() {
    // for (int i = 0; i < 3; i++) print i;
    let mut ctx = AnalysisCtx::new();
    // the declaration in the initialiser is looked up by the `for` node.
    ctx.variables.insert(10, VariableId::Local(LocalVarId(0)));
    ctx.types.insert(10, Type::Int);
    ctx.types.insert(1, Type::Int);
    for n in [2usize, 4, 6, 7] {
        ctx.variables.insert(n, VariableId::Local(LocalVarId(0)));
    }
    ctx.local_var_types.insert(0, Type::Int);
    ctx.types.insert(3, Type::Int);
    ctx.types.insert(5, Type::Bool);
    ctx.types.insert(8, Type::Int);
    let for_loop = ast::For {
        init: Some(ast::ForInit {
            kind: ast::ForInitKind::Decl(ast::VarDecl { init: Some(lit(1, ast::LitKind::Int(0))) }),
        }),
        condition: Some(ast::Expr {
            kind: ast::ExprKind::BinaryOp(
                ast::BinOpKind::LessThan,
                Box::new(var(2, "i")),
                Box::new(lit(3, ast::LitKind::Int(3))),
            ),
            id: NodeId(5),
        }),
        increment: Some(ast::Expr {
            kind: ast::ExprKind::UnaryOp(ast::UnaryOpKind::PostIncrement, Box::new(var(6, "i"))),
            id: NodeId(8),
        }),
        body: Box::new(stmt(11, ast::StmtKind::Print(ast::Print { expr: Box::new(var(7, "i")) }))),
    };
    let mut lowerer = Lowerer::new();
    let h = lowerer.lower_stmt(stmt(10, ast::StmtKind::For(for_loop)), &ctx);
    // condition: i (0), 3 (1), < (2); increment: i (3), ++ (4);
    // initialiser: 0 (5), the initialiser itself (6); body: i (7), print (8); for (9).
    assert_eq!(h.id, HirId(9));
    match h.kind {
        hir::StmtKind::For(f) => {
            assert_eq!(f.condition.as_ref().unwrap().id, HirId(2));
            assert_eq!(f.increment.as_ref().unwrap().id, HirId(4));
            let init = f.init.unwrap();
            assert_eq!(init.id, HirId(6));
            match init.kind {
                hir::ForInitKind::Decl(d) => {
                    assert_eq!(d.id, LocalVarId(0));
                    assert_eq!(d.ty, Type::Int);
                    assert_eq!(d.init.unwrap().id, HirId(5));
                },
                _ => panic!("expected a declaration"),
            }
            assert_eq!(f.body.id, HirId(8));
        },
        _ => panic!("expected a for"),
    }
}

#[test]
fn program_is_lowered_item_by_item_with_distinct_ids() {
    // fn main() { while (true) { break; } print 1; }
    let mut ctx = AnalysisCtx::new();
    ctx.functions.insert(0, FunctionId(0));
    ctx.signatures.insert(0, Signature { return_type: Type::Void });
    ctx.variables.insert(1, VariableId::Local(LocalVarId(0)));
    ctx.local_var_types.insert(0, Type::Int);
    ctx.types.insert(2, Type::Bool);
    ctx.types.insert(6, Type::Int);
    let body = ast::Block {
        body: vec![
            stmt(
                3,
                ast::StmtKind::While(ast::While {
                    condition: Box::new(lit(2, ast::LitKind::Bool(true))),
                    body: Box::new(stmt(
                        5,
                        ast::StmtKind::Block(ast::Block { body: vec![stmt(4, ast::StmtKind::Break)] }),
                    )),
                }),
            ),
            stmt(7, ast::StmtKind::Print(ast::Print { expr: Box::new(lit(6, ast::LitKind::Int(1))) })),
        ],
    };
    let program = ast::Program {
        items: vec![ast::Item::Function(ast::Function {
            id: NodeId(0),
            params: vec![ast::Param { id: NodeId(1) }],
            body,
        })],
    };
    let sizes = (ctx.types.len(), ctx.variables.len(), ctx.functions.len(), ctx.signatures.len());
    let mut lowerer = Lowerer::new();
    let h = lowerer.lower(program, &mut ctx);
    // the analysis tables are left as they were
    assert_eq!((ctx.types.len(), ctx.variables.len(), ctx.functions.len(), ctx.signatures.len()), sizes);
    assert_eq!(ctx.types.get(&2), Some(&Type::Bool));
    assert_eq!(h.items.len(), 1);
    match &h.items[0] {
        hir::Item::Function(f) => {
            assert_eq!(f.fn_id, FunctionId(0));
            assert_eq!(f.return_type, Type::Void);
            assert_eq!(f.params, vec![hir::Param { id: LocalVarId(0), ty: Type::Int }]);
            assert_eq!(f.body.body.len(), 2);
            // true (0), break (1), block (2), while (3), 1 (4), print (5), function (6)
            assert_eq!(f.body.body[0].id, HirId(3));
            assert_eq!(f.body.body[1].id, HirId(5));
            assert_eq!(f.id, HirId(6));
        },
        _ => panic!("expected a function"),
    }
    // the lowerer goes on from where it stopped
    ctx.types.insert(20, Type::Bool);
    let next = lowerer.lower_expr(lit(20, ast::LitKind::Bool(false)), &ctx);
    assert_eq!(next.id, HirId(7));
}

#[test]
fn if_with_else_lowers_condition_then_branches() {
    let mut ctx = AnalysisCtx::new();
    ctx.types.insert(1, Type::Bool);
    let if_stmt = ast::If {
        condition: Box::new(lit(1, ast::LitKind::Bool(false))),
        body: Box::new(stmt(2, ast::StmtKind::Continue)),
        else_body: Some(Box::new(stmt(3, ast::StmtKind::Break))),
    };
    let mut lowerer = Lowerer::new();
    let h = lowerer.lower_stmt(stmt(4, ast::StmtKind::If(if_stmt)), &ctx);
    assert_eq!(h.id, HirId(3));
    match h.kind {
        hir::StmtKind::If(i) => {
            assert_eq!(i.condition.id, HirId(0));
            assert_eq!(i.body.id, HirId(1));
            assert!(matches!(i.body.kind, hir::StmtKind::Continue));
            let e = i.else_clause.unwrap();
            assert_eq!(e.id, HirId(2));
            assert!(matches!(e.kind, hir::StmtKind::Break));
        },
        _ => panic!("expected an if"),
    }
}

#[test]
fn return_and_expression_statement() {
    let mut ctx = AnalysisCtx::new();
    ctx.types.insert(1, Type::Int);
    let mut lowerer = Lowerer::new();
    let r = lowerer.lower_stmt(stmt(2, ast::StmtKind::Return(ast::Return { expr: None })), &ctx);
    assert_eq!(r.id, HirId(0));
    match r.kind {
        hir::StmtKind::Return(ret) => assert!(ret.expr.is_none()),
        _ => panic!("expected a return"),
    }
    let e = lowerer.lower_stmt(
        stmt(3, ast::StmtKind::ExprStmt(ast::ExprStmt { expr: Box::new(lit(1, ast::LitKind::Int(9))) })),
        &ctx,
    );
    assert_eq!(e.id, HirId(2));
}

#[test]
fn conversion_type_is_double() {
    let lowerer = Lowerer::new();
    assert_eq!(lowerer.get_conversion_type(&Conversion::IntToDouble), Type::Double);
}
