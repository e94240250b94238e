//! What compiling the intermediate form emits. The state of a compilation is
//! the chunk being written (its instruction stream and constants), the local
//! variables declared so far with their slots, and, for each loop being
//! compiled, the positions of the jump operands of its `continue` and `break`
//! statements, which are patched when the loop is done.
//!
//! Compiling a node yields the state after it, or nothing where the compiler
//! cannot compile it (a construct it does not implement, an operand type it
//! has no instruction for, a variable without a slot, `break` or `continue`
//! outside a loop).

use vstd::prelude::*;
use crate::chunk::{patched, placeholder, u24_bytes};
use crate::hir;
use crate::ids::VariableId;
use crate::opcodes::OpCode;
use crate::types::Type;
use crate::value::{Value, DOUBLE_ONE_BITS};

verus! {

/// The slot that holds a local variable's value while its function runs.
#[derive(Debug, Clone, Copy, PartialEq, Eq, Structural)]
pub struct LocalSlot(pub usize);

/// The jumps of one loop still waiting for their target.
pub struct LoopView {
    pub continue_jumps: Seq<int>,
    pub break_jumps: Seq<int>,
}

pub struct CodeState {
    pub code: Seq<u8>,
    pub consts: Seq<Value>,
    pub locals: Map<usize, LocalSlot>,
    pub loops: Seq<LoopView>,
}

// ---------------------------------------------------------------------------
// Emitting

pub open spec fn emit(st: CodeState, op: OpCode) -> CodeState {
    CodeState { code: st.code.push(op.spec_byte()), ..st }
}

pub open spec fn emit_u24(st: CodeState, v: u32) -> CodeState {
    CodeState { code: st.code + u24_bytes(v as int), ..st }
}

/// `LoadConst` of `v`, added to the pool of constants.
pub open spec fn load_const(st: CodeState, v: Value) -> CodeState {
    let st1 = emit(st, OpCode::LoadConst);
    let st2 = CodeState { consts: st1.consts.push(v), ..st1 };
    emit_u24(st2, st.consts.len() as u32)
}

/// A jump whose operand is still to be patched; its operand sits right
/// after the opcode, at `st.code.len() + 1`.
pub open spec fn emit_jump(st: CodeState, op: OpCode) -> CodeState {
    CodeState { code: st.code.push(op.spec_byte()) + placeholder(), ..st }
}

pub open spec fn emit_jump_back(st: CodeState, op: OpCode, target: int) -> CodeState {
    CodeState { code: st.code.push(op.spec_byte()) + u24_bytes(target), ..st }
}

/// The jump operand at `pos` made to point to the end of the stream.
pub open spec fn patch(st: CodeState, pos: int) -> CodeState {
    CodeState { code: patched(st.code, pos, st.code.len() as int), ..st }
}

/// Every jump operand in `ps`, first to last, made to point to `target`.
pub open spec fn patch_all(code: Seq<u8>, ps: Seq<int>, target: int) -> Seq<u8>
    decreases ps.len(),
{
    if ps.len() == 0 {
        code
    } else {
        patched(patch_all(code, ps.drop_last(), target), ps.last(), target)
    }
}

pub open spec fn push_loop(st: CodeState) -> CodeState {
    CodeState {
        loops: st.loops.push(LoopView { continue_jumps: Seq::empty(), break_jumps: Seq::empty() }),
        ..st
    }
}

/// The local slot of `v`, where it is a local that has one.
pub open spec fn slot_of(st: CodeState, v: VariableId) -> Option<LocalSlot> {
    match v {
        VariableId::Local(l) => if st.locals.contains_key(l.0) {
            Some(st.locals[l.0])
        } else {
            None
        },
        VariableId::Global(_) => None,
    }
}

/// The variable that an expression reads, where it is a plain variable.
pub open spec fn variable_of(e: hir::Expr) -> Option<VariableId> {
    match e.kind {
        hir::ExprKind::Variable(v) => Some(v.id),
        _ => None,
    }
}

// ---------------------------------------------------------------------------
// Choosing instructions by type

pub open spec fn arith_op(kind: hir::BinaryOpKind, ty: Type) -> Option<OpCode> {
    match (kind, ty) {
        (hir::BinaryOpKind::Add, Type::Int) => Some(OpCode::I32Add),
        (hir::BinaryOpKind::Add, Type::Double) => Some(OpCode::F64Add),
        (hir::BinaryOpKind::Sub, Type::Int) => Some(OpCode::I32Sub),
        (hir::BinaryOpKind::Sub, Type::Double) => Some(OpCode::F64Sub),
        (hir::BinaryOpKind::Mul, Type::Int) => Some(OpCode::I32Mul),
        (hir::BinaryOpKind::Mul, Type::Double) => Some(OpCode::F64Mul),
        (hir::BinaryOpKind::Div, Type::Int) => Some(OpCode::I32Div),
        (hir::BinaryOpKind::Div, Type::Double) => Some(OpCode::F64Div),
        _ => None,
    }
}

pub open spec fn compare_op(kind: hir::BinaryOpKind, ty: Type) -> Option<OpCode> {
    match (kind, ty) {
        (hir::BinaryOpKind::BangEq, Type::Int) => Some(OpCode::I32NEqual),
        (hir::BinaryOpKind::BangEq, Type::Bool) => Some(OpCode::BNEqual),
        (hir::BinaryOpKind::BangEq, Type::Double) => Some(OpCode::F64NEqual),
        (hir::BinaryOpKind::EqEq, Type::Int) => Some(OpCode::I32Equal),
        (hir::BinaryOpKind::EqEq, Type::Bool) => Some(OpCode::BEqual),
        (hir::BinaryOpKind::EqEq, Type::Double) => Some(OpCode::F64Equal),
        (hir::BinaryOpKind::GreaterEq, Type::Int) => Some(OpCode::I32GreaterEq),
        (hir::BinaryOpKind::GreaterEq, Type::Double) => Some(OpCode::F64GreaterEq),
        (hir::BinaryOpKind::GreaterThan, Type::Int) => Some(OpCode::I32Greater),
        (hir::BinaryOpKind::GreaterThan, Type::Double) => Some(OpCode::F64Greater),
        (hir::BinaryOpKind::LessEq, Type::Int) => Some(OpCode::I32LessEq),
        (hir::BinaryOpKind::LessEq, Type::Double) => Some(OpCode::F64LessEq),
        (hir::BinaryOpKind::LessThan, Type::Int) => Some(OpCode::I32Less),
        (hir::BinaryOpKind::LessThan, Type::Double) => Some(OpCode::F64Less),
        _ => None,
    }
}

/// The instruction of a binary operation other than `&&` and `||`: the
/// arithmetic ones go by the type of the result, the comparisons by the
/// type of the left operand.
pub open spec fn binary_op(kind: hir::BinaryOpKind, result_ty: Type, left_ty: Type) -> Option<OpCode> {
    match kind {
        hir::BinaryOpKind::Add | hir::BinaryOpKind::Sub | hir::BinaryOpKind::Mul
        | hir::BinaryOpKind::Div => arith_op(kind, result_ty),
        _ => compare_op(kind, left_ty),
    }
}

pub open spec fn store_op(ty: Type) -> Option<OpCode> {
    match ty {
        Type::Int => Some(OpCode::I32StoreLocal),
        Type::Bool => Some(OpCode::BStoreLocal),
        Type::Double => Some(OpCode::F64StoreLocal),
        _ => None,
    }
}

pub open spec fn load_op(ty: Type) -> Option<OpCode> {
    match ty {
        Type::Int => Some(OpCode::I32LoadLocal),
        Type::Bool => Some(OpCode::BLoadLocal),
        Type::Double => Some(OpCode::F64LoadLocal),
        _ => None,
    }
}

pub open spec fn print_op(ty: Type) -> Option<OpCode> {
    match ty {
        Type::Int => Some(OpCode::I32Print),
        Type::Bool => Some(OpCode::BPrint),
        Type::Double => Some(OpCode::F64Print),
        _ => None,
    }
}

pub open spec fn negate_op(ty: Type) -> Option<OpCode> {
    match ty {
        Type::Int => Some(OpCode::I32Negate),
        Type::Double => Some(OpCode::F64Negate),
        _ => None,
    }
}

/// The constant one of a type that can be incremented.
pub open spec fn one_of(ty: Type) -> Option<Value> {
    match ty {
        Type::Int => Some(Value::Int(1)),
        Type::Double => Some(Value::Double(DOUBLE_ONE_BITS)),
        _ => None,
    }
}

pub open spec fn add_op(ty: Type) -> OpCode {
    if ty == Type::Int { OpCode::I32Add } else { OpCode::F64Add }
}

pub open spec fn sub_op(ty: Type) -> OpCode {
    if ty == Type::Int { OpCode::I32Sub } else { OpCode::F64Sub }
}

// ---------------------------------------------------------------------------
// Expressions

/// The code of an increment or decrement of the variable in `slot` of type
/// `ty`, emitted after the code that loads it: a postfix one duplicates the
/// loaded value before adding or subtracting one, a prefix one duplicates
/// the result.
pub open spec fn step_code(st: CodeState, kind: hir::UnaryOpKind, ty: Type, slot: LocalSlot) -> CodeState {
    let one = one_of(ty)->0;
    let op = match kind {
        hir::UnaryOpKind::PostDecrement | hir::UnaryOpKind::PreDecrement => sub_op(ty),
        _ => add_op(ty),
    };
    let store = store_op(ty)->0;
    match kind {
        hir::UnaryOpKind::PostDecrement | hir::UnaryOpKind::PostIncrement => emit_u24(
            emit(emit(load_const(emit(st, OpCode::Dup), one), op), store),
            slot.0 as u32,
        ),
        _ => emit_u24(emit(emit(emit(load_const(st, one), op), OpCode::Dup), store), slot.0 as u32),
    }
}

/// The state after compiling the expression `e` from `st`: the code that
/// computes its value appended; `None` where the compiler cannot compile it.
pub open spec fn expr_compiled(e: hir::Expr, st: CodeState) -> Option<CodeState>
    decreases e,
{
    match e.kind {
        hir::ExprKind::Literal(lit) => Some(
            load_const(
                st,
                match lit.kind {
                    hir::LiteralKind::Int(i) => Value::Int(i),
                    hir::LiteralKind::Bool(b) => Value::Bool(b),
                    hir::LiteralKind::Float(f) => Value::Double(f),
                },
            ),
        ),
        hir::ExprKind::BinaryOp(b) => match b.kind {
            hir::BinaryOpKind::And | hir::BinaryOpKind::Or => {
                let jump = if b.kind == hir::BinaryOpKind::And {
                    OpCode::JmpFalse
                } else {
                    OpCode::JmpTrue
                };
                match expr_compiled(*b.left, st) {
                    Some(st1) => {
                        let st2 = emit(st1, OpCode::Dup);
                        let pos = st2.code.len() + 1;
                        let st3 = emit(emit_jump(st2, jump), OpCode::Pop);
                        match expr_compiled(*b.right, st3) {
                            Some(st4) => Some(patch(st4, pos as int)),
                            None => None,
                        }
                    },
                    None => None,
                }
            },
            _ => match expr_compiled(*b.left, st) {
                Some(st1) => match expr_compiled(*b.right, st1) {
                    Some(st2) => match binary_op(b.kind, e.ty, b.left.ty) {
                        Some(op) => Some(emit(st2, op)),
                        None => None,
                    },
                    None => None,
                },
                None => None,
            },
        },
        hir::ExprKind::UnaryOp(u) => match expr_compiled(*u.operand, st) {
            Some(st1) => match u.kind {
                hir::UnaryOpKind::Negate => match negate_op(u.operand.ty) {
                    Some(op) => Some(emit(st1, op)),
                    None => None,
                },
                _ => match (one_of(u.operand.ty), variable_of(*u.operand)) {
                    (Some(_), Some(v)) => match slot_of(st1, v) {
                        Some(slot) => Some(step_code(st1, u.kind, u.operand.ty, slot)),
                        None => None,
                    },
                    _ => None,
                },
            },
            None => None,
        },
        hir::ExprKind::VarAssign(va) => match expr_compiled(*va.value, st) {
            Some(st1) => match (variable_of(*va.target), store_op(va.target.ty)) {
                (Some(v), Some(op)) => match slot_of(st1, v) {
                    Some(slot) => if slot.0 <= u32::MAX {
                        Some(emit_u24(emit(emit(st1, OpCode::Dup), op), slot.0 as u32))
                    } else {
                        None
                    },
                    None => None,
                },
                _ => None,
            },
            None => None,
        },
        hir::ExprKind::Variable(v) => match (load_op(e.ty), slot_of(st, v.id)) {
            (Some(op), Some(slot)) => if slot.0 <= u32::MAX {
                Some(emit_u24(emit(st, op), slot.0 as u32))
            } else {
                None
            },
            _ => None,
        },
        hir::ExprKind::Call(_) => None,
        hir::ExprKind::Conversion(c) => match expr_compiled(*c.expr, st) {
            Some(st1) => Some(emit(st1, OpCode::I32ToF64)),
            None => None,
        },
    }
}

// ---------------------------------------------------------------------------
// Statements

/// Records the slot of the local `id`: its own number.
pub open spec fn declare(st: CodeState, id: usize) -> CodeState {
    CodeState { locals: st.locals.insert(id, LocalSlot(id)), ..st }
}

/// A declaration stores its initialiser, or the uninitialised value, in the
/// variable's slot. A double declared without an initialiser is not
/// implemented.
pub open spec fn vardecl_compiled(d: hir::VarDecl, st: CodeState) -> Option<CodeState> {
    match d.init {
        Some(init) => match expr_compiled(init, st) {
            Some(st1) => match store_op(d.ty) {
                Some(op) => if d.id.0 <= u32::MAX {
                    Some(emit_u24(emit(declare(st1, d.id.0), op), d.id.0 as u32))
                } else {
                    None
                },
                None => None,
            },
            None => None,
        },
        None => {
            let st1 = load_const(declare(st, d.id.0), Value::Uninitialized);
            if (d.ty == Type::Int || d.ty == Type::Bool) && d.id.0 <= u32::MAX {
                Some(emit_u24(emit(st1, store_op(d.ty)->0), d.id.0 as u32))
            } else {
                None
            }
        },
    }
}

/// The innermost loop with `pos` added to its `break` jumps.
pub open spec fn add_break(st: CodeState, pos: int) -> CodeState {
    let top = st.loops.last();
    CodeState {
        loops: st.loops.update(
            st.loops.len() - 1,
            LoopView { break_jumps: top.break_jumps.push(pos), ..top },
        ),
        ..st
    }
}

/// The innermost loop with `pos` added to its `continue` jumps.
pub open spec fn add_continue(st: CodeState, pos: int) -> CodeState {
    let top = st.loops.last();
    CodeState {
        loops: st.loops.update(
            st.loops.len() - 1,
            LoopView { continue_jumps: top.continue_jumps.push(pos), ..top },
        ),
        ..st
    }
}

/// Ends the innermost `while` loop, which starts at `start`: its `continue`
/// jumps go to the start, then its `break` jumps to the end.
pub open spec fn close_while(st: CodeState, start: int) -> CodeState {
    let top = st.loops.last();
    CodeState {
        code: patch_all(
            patch_all(st.code, top.continue_jumps, start),
            top.break_jumps,
            st.code.len() as int,
        ),
        loops: st.loops.drop_last(),
        ..st
    }
}

/// Ends the innermost `for` loop: its `break` jumps go to the end, then its
/// `continue` jumps to its increment at `next`.
pub open spec fn close_for(st: CodeState, next: int) -> CodeState {
    let top = st.loops.last();
    CodeState {
        code: patch_all(
            patch_all(st.code, top.break_jumps, st.code.len() as int),
            top.continue_jumps,
            next,
        ),
        loops: st.loops.drop_last(),
        ..st
    }
}

pub open spec fn opt_expr_compiled(e: Option<hir::Expr>, st: CodeState) -> Option<CodeState> {
    match e {
        Some(e) => expr_compiled(e, st),
        None => Some(st),
    }
}

/// The initialiser of a `for`: a declaration, or an expression whose code
/// is followed by no `Pop`.
pub open spec fn for_init_compiled(init: Option<hir::ForInit>, st: CodeState) -> Option<CodeState> {
    match init {
        Some(i) => match i.kind {
            hir::ForInitKind::Decl(d) => vardecl_compiled(d, st),
            hir::ForInitKind::Expr(e) => expr_compiled(e, st),
        },
        None => Some(st),
    }
}

/// The condition of a `for` and the jump out of the loop when it is false.
pub open spec fn for_cond_compiled(cond: Option<hir::Expr>, st: CodeState) -> Option<CodeState> {
    match cond {
        Some(c) => match expr_compiled(c, st) {
            Some(st1) => Some(emit_jump(st1, OpCode::JmpFalse)),
            None => None,
        },
        None => Some(st),
    }
}

/// The state after compiling the statement `s` from `st`; `None` where the
/// compiler cannot compile it. (The code of a `for` whose initialiser or
/// increment is an expression pops neither value.)
pub open spec fn stmt_compiled(s: hir::Stmt, st: CodeState) -> Option<CodeState>
    decreases s, 0nat,
{
    match s.kind {
        hir::StmtKind::ExprStmt(e) => match expr_compiled(e.expr, st) {
            Some(st1) => Some(emit(st1, OpCode::Pop)),
            None => None,
        },
        hir::StmtKind::Print(p) => match expr_compiled(p.expr, st) {
            Some(st1) => match print_op(p.expr.ty) {
                Some(op) => Some(emit(st1, op)),
                None => None,
            },
            None => None,
        },
        hir::StmtKind::VarDecl(d) => vardecl_compiled(d, st),
        hir::StmtKind::Block(b) => stmts_compiled(b.body@, st),
        hir::StmtKind::If(i) => match expr_compiled(i.condition, st) {
            Some(st1) => {
                let pos = st1.code.len() + 1int;
                match stmt_compiled(*i.body, emit_jump(st1, OpCode::JmpFalse)) {
                    Some(st2) => match i.else_clause {
                        Some(e) => {
                            let end = st2.code.len() + 1int;
                            match stmt_compiled(*e, patch(emit_jump(st2, OpCode::Jmp), pos)) {
                                Some(st3) => Some(patch(st3, end)),
                                None => None,
                            }
                        },
                        None => Some(patch(st2, pos)),
                    },
                    None => None,
                }
            },
            None => None,
        },
        hir::StmtKind::While(w) => {
            let start = st.code.len() as int;
            match expr_compiled(w.condition, st) {
                Some(st1) => {
                    let exit = st1.code.len() + 1int;
                    match stmt_compiled(*w.body, push_loop(emit_jump(st1, OpCode::JmpFalse))) {
                        Some(st2) => if st2.loops.len() > 0 {
                            Some(close_while(patch(emit_jump_back(st2, OpCode::Jmp, start), exit), start))
                        } else {
                            None
                        },
                        None => None,
                    }
                },
                None => None,
            }
        },
        hir::StmtKind::For(f) => match for_init_compiled(f.init, st) {
            Some(st1) => {
                let start = st1.code.len() as int;
                match for_cond_compiled(f.condition, st1) {
                    Some(st2) => {
                        let exit = st2.code.len() - 3int;
                        match stmt_compiled(*f.body, push_loop(st2)) {
                            Some(st3) => {
                                let next = st3.code.len() as int;
                                match opt_expr_compiled(f.increment, st3) {
                                    Some(st4) => {
                                        let st5 = emit_jump_back(st4, OpCode::Jmp, start);
                                        let st6 = if f.condition is Some {
                                            patch(st5, exit)
                                        } else {
                                            st5
                                        };
                                        if st6.loops.len() > 0 {
                                            Some(close_for(st6, next))
                                        } else {
                                            None
                                        }
                                    },
                                    None => None,
                                }
                            },
                            None => None,
                        }
                    },
                    None => None,
                }
            },
            None => None,
        },
        hir::StmtKind::Break => if st.loops.len() > 0 {
            Some(add_break(emit_jump(st, OpCode::Jmp), st.code.len() + 1int))
        } else {
            None
        },
        hir::StmtKind::Continue => if st.loops.len() > 0 {
            Some(add_continue(emit_jump(st, OpCode::Jmp), st.code.len() + 1int))
        } else {
            None
        },
        hir::StmtKind::Return(_) => None,
    }
}

/// The statements of a block, first to last.
pub open spec fn stmts_compiled(s: Seq<hir::Stmt>, st: CodeState) -> Option<CodeState>
    decreases s, 1nat,
{
    if s.len() == 0 {
        Some(st)
    } else {
        match stmts_compiled(s.drop_last(), st) {
            Some(st1) => stmt_compiled(s.last(), st1),
            None => None,
        }
    }
}

/// Every pending jump operand lies inside the instruction stream.
pub open spec fn jumps_in_bounds(st: CodeState) -> bool {
    forall|i: int, j: int|
        0 <= i < st.loops.len() ==> {
            &&& (0 <= j < st.loops[i].continue_jumps.len() ==> st.loops[i].continue_jumps[j] + 3
                <= st.code.len())
            &&& (0 <= j < st.loops[i].break_jumps.len() ==> st.loops[i].break_jumps[j] + 3
                <= st.code.len())
        }
}

} // verus!
