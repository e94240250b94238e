//! Laws of the instructions that compiling chooses: which arithmetic an
//! increment or decrement performs, which print and store instructions go
//! with which type, and that a `for` loop's code begins with the code of its
//! initialiser.

use vstd::prelude::*;
use crate::chunk::u24_bytes;
use crate::compile_laws::{
    lemma_emit_jump_extends, lemma_expr_compiled_extends, lemma_for_frame, lemma_patched_keeps,
    slots_are_numbers,
};
use crate::compile_spec::{
    emit, emit_jump, expr_compiled, for_init_compiled, jumps_in_bounds, stmt_compiled,
    vardecl_compiled, CodeState,
};
use crate::hir;
use crate::opcodes::OpCode;
use crate::types::Type;
use crate::value::{Value, DOUBLE_ONE_BITS};

verus! {

/// An increment or decrement of a variable: after the code that loads the
/// variable (which ends at `n`), a postfix one duplicates the loaded value,
/// loads the constant one of the operand's type and then subtracts it for a
/// decrement or adds it for an increment, with the arithmetic instruction of
/// the operand's type; a prefix one loads the one, does the arithmetic and
/// then duplicates the result. Either stores the result with the store
/// instruction of the operand's type. Only an `int` or a `double` can be
/// incremented or decremented.
pub proof fn lemma_step_arithmetic(e: hir::Expr, st: CodeState)
    requires
        e.kind matches hir::ExprKind::UnaryOp(u) && u.kind != hir::UnaryOpKind::Negate,
        expr_compiled(e, st) is Some,
    ensures
        ({
            let u = e.kind->UnaryOp_0;
            let ty = u.operand.ty;
            let fin = expr_compiled(e, st)->0;
            let st1 = expr_compiled(*u.operand, st)->0;
            let n = st1.code.len() as int;
            let decrement = u.kind == hir::UnaryOpKind::PreDecrement || u.kind
                == hir::UnaryOpKind::PostDecrement;
            let postfix = u.kind == hir::UnaryOpKind::PostDecrement || u.kind
                == hir::UnaryOpKind::PostIncrement;
            let arith = if postfix { n + 5 } else { n + 4 };
            &&& ty == Type::Int || ty == Type::Double
            &&& fin.code.len() == n + 10
            &&& postfix ==> fin.code[n] == OpCode::Dup.spec_byte() && fin.code[n + 1]
                == OpCode::LoadConst.spec_byte()
            &&& !postfix ==> fin.code[n] == OpCode::LoadConst.spec_byte() && fin.code[n + 5]
                == OpCode::Dup.spec_byte()
            &&& (decrement && ty == Type::Int) ==> fin.code[arith] == OpCode::I32Sub.spec_byte()
            &&& (decrement && ty == Type::Double) ==> fin.code[arith] == OpCode::F64Sub.spec_byte()
            &&& (!decrement && ty == Type::Int) ==> fin.code[arith] == OpCode::I32Add.spec_byte()
            &&& (!decrement && ty == Type::Double) ==> fin.code[arith] == OpCode::F64Add.spec_byte()
            &&& ty == Type::Int ==> fin.code[n + 6] == OpCode::I32StoreLocal.spec_byte()
                && fin.consts == st1.consts.push(Value::Int(1))
            &&& ty == Type::Double ==> fin.code[n + 6] == OpCode::F64StoreLocal.spec_byte()
                && fin.consts == st1.consts.push(Value::Double(DOUBLE_ONE_BITS))
        }),
{
}

/// A `print` statement ends with the print instruction of the printed
/// expression's type, right after the expression's code: `I32Print` for an
/// `int`, `BPrint` for a `bool`, `F64Print` for a `double`; nothing else can
/// be printed.
pub proof fn lemma_print_instruction(s: hir::Stmt, st: CodeState)
    requires
        s.kind is Print,
        stmt_compiled(s, st) is Some,
    ensures
        ({
            let e = s.kind->Print_0.expr;
            let fin = stmt_compiled(s, st)->0;
            let code = expr_compiled(e, st)->0.code;
            &&& e.ty == Type::Int || e.ty == Type::Bool || e.ty == Type::Double
            &&& fin.code.len() == code.len() + 1
            &&& fin.code.drop_last() == code
            &&& e.ty == Type::Int ==> fin.code.last() == OpCode::I32Print.spec_byte()
            &&& e.ty == Type::Bool ==> fin.code.last() == OpCode::BPrint.spec_byte()
            &&& e.ty == Type::Double ==> fin.code.last() == OpCode::F64Print.spec_byte()
        }),
{
    let e = s.kind->Print_0.expr;
    let st1 = expr_compiled(e, st)->0;
    assert(stmt_compiled(s, st)->0.code.drop_last() =~= st1.code);
}

/// A declaration ends by storing into the variable's own slot with the store
/// instruction of the declared type: `I32StoreLocal` for an `int`,
/// `BStoreLocal` for a `bool`, `F64StoreLocal` for a `double`. Without an
/// initialiser, the value stored is the uninitialised one, loaded as the
/// last constant; a `double` cannot be declared so.
pub proof fn lemma_declaration_store(d: hir::VarDecl, st: CodeState)
    requires
        vardecl_compiled(d, st) is Some,
    ensures
        ({
            let fin = vardecl_compiled(d, st)->0;
            let k = fin.code.len() as int;
            &&& d.ty == Type::Int || d.ty == Type::Bool || d.ty == Type::Double
            &&& k >= 4
            &&& fin.code.subrange(k - 3, k) == u24_bytes(d.id.0 as int)
            &&& d.ty == Type::Int ==> fin.code[k - 4] == OpCode::I32StoreLocal.spec_byte()
            &&& d.ty == Type::Bool ==> fin.code[k - 4] == OpCode::BStoreLocal.spec_byte()
            &&& d.ty == Type::Double ==> fin.code[k - 4] == OpCode::F64StoreLocal.spec_byte()
            &&& d.init is None ==> d.ty != Type::Double && fin.consts.last() == Value::Uninitialized
            &&& fin.locals.contains_key(d.id.0) && fin.locals[d.id.0].0 == d.id.0
        }),
{
    let fin = vardecl_compiled(d, st)->0;
    let k = fin.code.len() as int;
    assert(fin.code.subrange(k - 3, k) =~= u24_bytes(d.id.0 as int));
}

/// Every expression that compiles emits at least one byte.
pub proof fn lemma_expr_code_grows(e: hir::Expr, st: CodeState)
    requires
        expr_compiled(e, st) is Some,
    ensures
        expr_compiled(e, st)->0.code.len() > st.code.len(),
    decreases e,
{
    lemma_expr_compiled_extends(e, st);
    match e.kind {
        hir::ExprKind::BinaryOp(b) => {
            lemma_expr_compiled_extends(*b.left, st);
            let st1 = expr_compiled(*b.left, st)->0;
            if b.kind == hir::BinaryOpKind::And || b.kind == hir::BinaryOpKind::Or {
                let jump = if b.kind == hir::BinaryOpKind::And {
                    OpCode::JmpFalse
                } else {
                    OpCode::JmpTrue
                };
                let st2 = emit(st1, OpCode::Dup);
                let pos = st2.code.len() + 1;
                let st3 = emit(emit_jump(st2, jump), OpCode::Pop);
                lemma_expr_compiled_extends(*b.right, st3);
                let st4 = expr_compiled(*b.right, st3)->0;
                lemma_emit_jump_extends(st2, jump);
                let empty = Seq::<u8>::empty();
                assert(empty =~= st4.code.subrange(0, 0));
                lemma_patched_keeps(st4.code, empty, pos as int, st4.code.len() as int);
            } else {
                lemma_expr_compiled_extends(*b.right, st1);
            }
        },
        hir::ExprKind::UnaryOp(u) => {
            lemma_expr_compiled_extends(*u.operand, st);
        },
        hir::ExprKind::VarAssign(va) => {
            lemma_expr_compiled_extends(*va.value, st);
        },
        hir::ExprKind::Conversion(c) => {
            lemma_expr_compiled_extends(*c.expr, st);
        },
        _ => {},
    }
}

/// The code of a `for` loop begins with the code of its initialiser, as an
/// expression or a declaration compiles on its own from where the loop
/// starts; an initialiser emits at least one byte.
pub proof fn lemma_for_starts_with_init(s: hir::Stmt, st: CodeState)
    requires
        s.kind is For,
        stmt_compiled(s, st) is Some,
        jumps_in_bounds(st),
        slots_are_numbers(st.locals),
    ensures
        ({
            let fin = stmt_compiled(s, st)->0;
            match s.kind->For_0.init {
                Some(i) => match i.kind {
                    hir::ForInitKind::Expr(e) => {
                        &&& expr_compiled(e, st) is Some
                        &&& expr_compiled(e, st)->0.code.is_prefix_of(fin.code)
                        &&& expr_compiled(e, st)->0.code.len() > st.code.len()
                    },
                    hir::ForInitKind::Decl(d) => {
                        &&& vardecl_compiled(d, st) is Some
                        &&& vardecl_compiled(d, st)->0.code.is_prefix_of(fin.code)
                        &&& vardecl_compiled(d, st)->0.code.len() > st.code.len()
                    },
                },
                None => st.code.is_prefix_of(fin.code),
            }
        }),
{
    lemma_for_frame(s, st);
    let f = s.kind->For_0;
    if let Some(i) = f.init {
        match i.kind {
            hir::ForInitKind::Expr(e) => {
                lemma_expr_code_grows(e, st);
            },
            hir::ForInitKind::Decl(d) => {
                if let Some(init) = d.init {
                    lemma_expr_code_grows(init, st);
                }
            },
        }
    }
    assert(for_init_compiled(f.init, st) is Some);
}

} // verus!
