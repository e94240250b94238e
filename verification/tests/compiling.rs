use compiler::chunk::Chunk;
use compiler::compiler::{Compiler, LocalSlot};
use compiler::hir;
use compiler::ids::{HirId, LocalVarId, VariableId};
use compiler::opcodes::OpCode;
use compiler::types::Type;
use compiler::value::{Value, DOUBLE_ONE_BITS};

fn lit_int(id: usize, v: i32) -> hir::Expr {
    hir::Expr {
        kind: hir::ExprKind::Literal(hir::Literal { kind: hir::LiteralKind::Int(v) }),
        id: HirId(id),
        ty: Type::Int,
    }
}

fn lit_bool(id: usize, b: bool) -> hir::Expr {
    hir::Expr {
        kind: hir::ExprKind::Literal(hir::Literal { kind: hir::LiteralKind::Bool(b) }),
        id: HirId(id),
        ty: Type::Bool,
    }
}

fn lit_double(id: usize, bits: u64) -> hir::Expr {
    hir::Expr {
        kind: hir::ExprKind::Literal(hir::Literal { kind: hir::LiteralKind::Float(bits) }),
        id: HirId(id),
        ty: Type::Double,
    }
}

fn local(id: usize, slot: usize, ty: Type) -> hir::Expr {
    hir::Expr {
        kind: hir::ExprKind::Variable(hir::Variable { id: VariableId::Local(LocalVarId(slot)) }),
        id: HirId(id),
        ty,
    }
}

fn binary(id: usize, kind: hir::BinaryOpKind, left: hir::Expr, right: hir::Expr, ty: Type) -> hir::Expr {
    hir::Expr {
        kind: hir::ExprKind::BinaryOp(hir::BinaryOp { kind, left: Box::new(left), right: Box::new(right) }),
        id: HirId(id),
        ty,
    }
}

fn unary(id: usize, kind: hir::UnaryOpKind, operand: hir::Expr) -> hir::Expr {
    let ty = operand.ty;
    hir::Expr { kind: hir::ExprKind::UnaryOp(hir::UnaryOp { kind, operand: Box::new(operand) }), id: HirId(id), ty }
}

fn stmt(id: usize, kind: hir::StmtKind) -> hir::Stmt {
    hir::Stmt { kind, id: HirId(id) }
}

fn print(id: usize, expr: hir::Expr) -> hir::Stmt {
    stmt(id, hir::StmtKind::Print(hir::Print { expr }))
}

fn block(id: usize, body: Vec<hir::Stmt>) -> hir::Stmt {
    stmt(id, hir::StmtKind::Block(hir::Block { body }))
}

fn decl(slot: usize, ty: Type, init: Option<hir::Expr>) -> hir::VarDecl {
    hir::VarDecl { id: LocalVarId(slot), ty, init }
}

#[test]
fn operand_is_written_most_significant_byte_first() {
    let mut chunk = Chunk::new();
    chunk.write_u24(0x01_2345);
    assert_eq!(chunk.bytecode, vec![0x01, 0x23, 0x45]);
    chunk.write_u24(0xAB_CDEF_u32 | 0x0100_0000);
    assert_eq!(chunk.bytecode, vec![0x01, 0x23, 0x45, 0xAB, 0xCD, 0xEF]);
}

#[test]
fn jump_is_written_with_a_placeholder_and_patched_to_the_end() {
    let mut chunk = Chunk::new();
    let pos = chunk.write_jump(OpCode::Jmp);
    assert_eq!(pos, 1);
    assert_eq!(chunk.bytecode, vec![4, 0xFF, 0xFF, 0xFF]);
    chunk.write(OpCode::Pop.as_byte());
    chunk.patch_jump(pos);
    assert_eq!(chunk.bytecode, vec![4, 0, 0, 5, 2]);
    chunk.patch_jump_to(pos, 0x01_0203);
    assert_eq!(chunk.bytecode, vec![4, 1, 2, 3, 2]);
}

#[test]
fn constants_are_numbered_in_order() {
    let mut chunk = Chunk::new();
    assert_eq!(chunk.write_constant(Value::Int(3)), 0);
    assert_eq!(chunk.write_constant(Value::Bool(true)), 1);
    assert_eq!(chunk.constants, vec![Value::Int(3), Value::Bool(true)]);
    assert!(chunk.bytecode.is_empty());
}

#[test]
fn opcodes_have_their_bytes() {
    assert_eq!(OpCode::LoadConst.as_byte(), 0);
    assert_eq!(OpCode::Halt.as_byte(), 1);
    assert_eq!(OpCode::JmpFalse.as_byte(), 5);
    assert_eq!(OpCode::I32ToF64.as_byte(), 31);
    assert_eq!(OpCode::F64StoreLocal.as_byte(), 40);
}

#[test]
fn local_slot_converts_to_its_number() {
    assert_eq!(LocalSlot(7).into_u32(), 7u32);
}

#[test]
fn literal_is_loaded_from_the_constants() {
    let mut compiler = Compiler::new();
    let mut chunk = Chunk::new();
    compiler.compile_expr(&lit_int(0, 7), &mut chunk);
    compiler.compile_expr(&lit_double(1, 2.5f64.to_bits()), &mut chunk);
    assert_eq!(chunk.bytecode, vec![0, 0, 0, 0, 0, 0, 0, 1]);
    assert_eq!(chunk.constants, vec![Value::Int(7), Value::Double(2.5f64.to_bits())]);
}

#[test]
fn arithmetic_goes_by_the_result_type() {
    let mut compiler = Compiler::new();
    let mut chunk = Chunk::new();
    let e = binary(2, hir::BinaryOpKind::Add, lit_int(0, 1), lit_int(1, 2), Type::Int);
    compiler.compile_expr(&e, &mut chunk);
    assert_eq!(chunk.bytecode, vec![0, 0, 0, 0, 0, 0, 0, 1, 7]);
    let mut chunk = Chunk::new();
    let e = binary(2, hir::BinaryOpKind::Div, lit_double(0, 1), lit_double(1, 2), Type::Double);
    compiler.compile_expr(&e, &mut chunk);
    assert_eq!(*chunk.bytecode.last().unwrap(), OpCode::F64Div.as_byte());
}

#[test]
fn comparison_goes_by_the_left_operand_type() {
    let mut compiler = Compiler::new();
    let mut chunk = Chunk::new();
    let e = binary(2, hir::BinaryOpKind::LessThan, lit_double(0, 1), lit_double(1, 2), Type::Bool);
    compiler.compile_expr(&e, &mut chunk);
    assert_eq!(*chunk.bytecode.last().unwrap(), OpCode::F64Less.as_byte());
    let mut chunk = Chunk::new();
    let e = binary(2, hir::BinaryOpKind::BangEq, lit_bool(0, true), lit_bool(1, false), Type::Bool);
    compiler.compile_expr(&e, &mut chunk);
    assert_eq!(*chunk.bytecode.last().unwrap(), OpCode::BNEqual.as_byte());
}

#[test]
fn and_skips_its_right_operand_when_the_left_is_false() {
    let mut compiler = Compiler::new();
    let mut chunk = Chunk::new();
    let e = binary(2, hir::BinaryOpKind::And, lit_bool(0, true), lit_bool(1, false), Type::Bool);
    compiler.compile_expr(&e, &mut chunk);
    // load, dup, jump-if-false to the end, pop, load
    assert_eq!(chunk.bytecode, vec![0, 0, 0, 0, 3, 5, 0, 0, 14, 2, 0, 0, 0, 1]);
}

#[test]
fn or_skips_its_right_operand_when_the_left_is_true() {
    let mut compiler = Compiler::new();
    let mut chunk = Chunk::new();
    let e = binary(2, hir::BinaryOpKind::Or, lit_bool(0, false), lit_bool(1, true), Type::Bool);
    compiler.compile_expr(&e, &mut chunk);
    assert_eq!(chunk.bytecode, vec![0, 0, 0, 0, 3, 6, 0, 0, 14, 2, 0, 0, 0, 1]);
}

#[test]
fn conversion_and_negation() {
    let mut compiler = Compiler::new();
    let mut chunk = Chunk::new();
    let conv = hir::Expr {
        kind: hir::ExprKind::Conversion(hir::Conversion {
            kind: hir::ConversionKind::IntToDouble,
            expr: Box::new(lit_int(0, 2)),
        }),
        id: HirId(1),
        ty: Type::Double,
    };
    let neg = unary(2, hir::UnaryOpKind::Negate, conv);
    compiler.compile_expr(&neg, &mut chunk);
    assert_eq!(chunk.bytecode, vec![0, 0, 0, 0, 31, 22]);
}

#[test]
fn declaration_stores_its_initialiser_and_later_loads_use_its_slot() {
    let mut compiler = Compiler::new();
    let mut chunk = Chunk::new();
    compiler.compile_var_decl(&decl(3, Type::Int, Some(lit_int(0, 5))), &mut chunk);
    compiler.compile_expr(&local(1, 3, Type::Int), &mut chunk);
    assert_eq!(chunk.bytecode, vec![0, 0, 0, 0, 38, 0, 0, 3, 35, 0, 0, 3]);
    assert_eq!(chunk.constants, vec![Value::Int(5)]);
}

#[test]
fn declaration_without_initialiser_stores_the_uninitialised_value() {
    let mut compiler = Compiler::new();
    let mut chunk = Chunk::new();
    compiler.compile_var_decl(&decl(2, Type::Bool, None), &mut chunk);
    assert_eq!(chunk.bytecode, vec![0, 0, 0, 0, 39, 0, 0, 2]);
    assert_eq!(chunk.constants, vec![Value::Uninitialized]);
}

#[test]
fn assignment_keeps_the_value_on_the_stack() {
    let mut compiler = Compiler::new();
    let mut chunk = Chunk::new();
    compiler.compile_var_decl(&decl(0, Type::Double, Some(lit_double(0, 0))), &mut chunk);
    let assign = hir::Expr {
        kind: hir::ExprKind::VarAssign(hir::VarAssign {
            target: Box::new(local(1, 0, Type::Double)),
            value: Box::new(lit_double(2, 1)),
        }),
        id: HirId(3),
        ty: Type::Double,
    };
    compiler.compile_expr(&assign, &mut chunk);
    assert_eq!(chunk.bytecode, vec![0, 0, 0, 0, 40, 0, 0, 0, 0, 0, 0, 1, 3, 40, 0, 0, 0]);
}

#[test]
fn postfix_increment_keeps_the_old_value() {
    let mut compiler = Compiler::new();
    let mut chunk = Chunk::new();
    compiler.compile_var_decl(&decl(0, Type::Int, Some(lit_int(0, 1))), &mut chunk);
    compiler.compile_expr(&unary(2, hir::UnaryOpKind::PostIncrement, local(1, 0, Type::Int)), &mut chunk);
    assert_eq!(
        chunk.bytecode,
        vec![0, 0, 0, 0, 38, 0, 0, 0, 35, 0, 0, 0, 3, 0, 0, 0, 1, 7, 38, 0, 0, 0],
    );
    assert_eq!(chunk.constants, vec![Value::Int(1), Value::Int(1)]);
}

#[test]
fn prefix_decrement_keeps_the_new_value() {
    let mut compiler = Compiler::new();
    let mut chunk = Chunk::new();
    compiler.compile_var_decl(&decl(0, Type::Double, Some(lit_double(0, 0))), &mut chunk);
    compiler.compile_expr(&unary(2, hir::UnaryOpKind::PreDecrement, local(1, 0, Type::Double)), &mut chunk);
    assert_eq!(
        chunk.bytecode,
        vec![0, 0, 0, 0, 40, 0, 0, 0, 37, 0, 0, 0, 0, 0, 0, 1, 19, 3, 40, 0, 0, 0],
    );
    assert_eq!(chunk.constants, vec![Value::Double(0), Value::Double(DOUBLE_ONE_BITS)]);
}

#[test]
fn expression_statement_pops_its_value_and_print_goes_by_type() {
    let mut compiler = Compiler::new();
    let mut chunk = Chunk::new();
    compiler.compile_stmt(
        &stmt(1, hir::StmtKind::ExprStmt(hir::ExprStmt { expr: lit_int(0, 4) })),
        &mut chunk,
    );
    compiler.compile_stmt(&print(3, lit_bool(2, true)), &mut chunk);
    assert_eq!(chunk.bytecode, vec![0, 0, 0, 0, 2, 0, 0, 0, 1, 33]);
}

#[test]
fn if_else_jumps_over_the_branch_not_taken() {
    let mut compiler = Compiler::new();
    let mut chunk = Chunk::new();
    let s = stmt(
        5,
        hir::StmtKind::If(hir::If {
            condition: lit_bool(0, true),
            body: Box::new(print(2, lit_int(1, 1))),
            else_clause: Some(Box::new(print(4, lit_int(3, 2)))),
        }),
    );
    compiler.compile_stmt(&s, &mut chunk);
    assert_eq!(
        chunk.bytecode,
        vec![0, 0, 0, 0, 5, 0, 0, 17, 0, 0, 0, 1, 32, 4, 0, 0, 22, 0, 0, 0, 2, 32],
    );
}

#[test]
fn if_without_else_jumps_to_its_end() {
    let mut compiler = Compiler::new();
    let mut chunk = Chunk::new();
    let s = stmt(
        3,
        hir::StmtKind::If(hir::If {
            condition: lit_bool(0, false),
            body: Box::new(print(2, lit_int(1, 1))),
            else_clause: None,
        }),
    );
    compiler.compile_stmt(&s, &mut chunk);
    assert_eq!(chunk.bytecode, vec![0, 0, 0, 0, 5, 0, 0, 13, 0, 0, 0, 1, 32]);
}

#[test]
fn break_in_while_jumps_to_the_end_of_the_loop() {
    let mut compiler = Compiler::new();
    let mut chunk = Chunk::new();
    let s = stmt(
        3,
        hir::StmtKind::While(hir::While {
            condition: lit_bool(0, true),
            body: Box::new(block(2, vec![stmt(1, hir::StmtKind::Break)])),
        }),
    );
    compiler.compile_stmt(&s, &mut chunk);
    assert_eq!(chunk.bytecode, vec![0, 0, 0, 0, 5, 0, 0, 16, 4, 0, 0, 16, 4, 0, 0, 0]);
}

#[test]
fn continue_in_while_jumps_to_the_condition() {
    let mut compiler = Compiler::new();
    let mut chunk = Chunk::new();
    // the loop starts after a statement, so its start is not position 0
    compiler.compile_stmt(&print(1, lit_int(0, 0)), &mut chunk);
    let s = stmt(
        4,
        hir::StmtKind::While(hir::While {
            condition: lit_bool(2, true),
            body: Box::new(stmt(3, hir::StmtKind::Continue)),
        }),
    );
    compiler.compile_stmt(&s, &mut chunk);
    assert_eq!(
        chunk.bytecode,
        vec![0, 0, 0, 0, 32, 0, 0, 0, 1, 5, 0, 0, 21, 4, 0, 0, 5, 4, 0, 0, 5],
    );
}

#[test]
fn continue_in_for_jumps_to_the_increment() {
    // for (int i = 0; i < 3; i++) { continue; }
    let mut compiler = Compiler::new();
    let mut chunk = Chunk::new();
    let f = hir::For {
        init: Some(hir::ForInit {
            kind: hir::ForInitKind::Decl(decl(0, Type::Int, Some(lit_int(0, 0)))),
            id: HirId(1),
        }),
        condition: Some(binary(4, hir::BinaryOpKind::LessThan, local(2, 0, Type::Int), lit_int(3, 3), Type::Bool)),
        increment: Some(unary(6, hir::UnaryOpKind::PostIncrement, local(5, 0, Type::Int))),
        body: Box::new(block(8, vec![stmt(7, hir::StmtKind::Continue)])),
    };
    compiler.compile_stmt(&stmt(9, hir::StmtKind::For(f)), &mut chunk);
    assert_eq!(
        chunk.bytecode,
        vec![
            0, 0, 0, 0, 38, 0, 0, 0, // int i = 0
            35, 0, 0, 0, 0, 0, 0, 1, 16, // i < 3
            5, 0, 0, 43, // leave the loop when false
            4, 0, 0, 25, // continue
            35, 0, 0, 0, 3, 0, 0, 0, 2, 7, 38, 0, 0, 0, // i++
            4, 0, 0, 8, // back to the condition
        ],
    );
    assert_eq!(chunk.constants, vec![Value::Int(0), Value::Int(3), Value::Int(1)]);
}

#[test]
fn break_in_for_without_condition_jumps_to_the_end() {
    // for (;;) { break; }
    let mut compiler = Compiler::new();
    let mut chunk = Chunk::new();
    let f = hir::For {
        init: None,
        condition: None,
        increment: None,
        body: Box::new(stmt(0, hir::StmtKind::Break)),
    };
    compiler.compile_stmt(&stmt(1, hir::StmtKind::For(f)), &mut chunk);
    assert_eq!(chunk.bytecode, vec![4, 0, 0, 8, 4, 0, 0, 0]);
}

#[test]
fn program_ends_by_loading_zero_and_halting() {
    let mut compiler = Compiler::new();
    let mut chunk = Chunk::new();
    let program = hir::Program { items: vec![] };
    compiler.compile_program(&program, &mut chunk);
    assert_eq!(chunk.bytecode, vec![0, 0, 0, 0, 1]);
    assert_eq!(chunk.constants, vec![Value::Int(0)]);
}
