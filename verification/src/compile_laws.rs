//! Laws of the compiler: what compiling a node leaves untouched, and what a
//! constant load names.

use vstd::prelude::*;
use crate::chunk::{lemma_u24_round_trip, patched, placeholder, u24_at, u24_bytes};
use crate::compile_spec::{
    declare, emit, emit_jump, emit_jump_back, emit_u24, expr_compiled, for_cond_compiled,
    for_init_compiled, jumps_in_bounds, load_const, opt_expr_compiled, patch, patch_all, push_loop,
    step_code, stmt_compiled, stmts_compiled, store_op, vardecl_compiled, CodeState, LocalSlot,
    LoopView,
};
use crate::value::Value;
use crate::hir;
use crate::opcodes::OpCode;

verus! {

pub proof fn lemma_prefix_trans<A>(a: Seq<A>, b: Seq<A>, c: Seq<A>)
    requires
        a.is_prefix_of(b),
        b.is_prefix_of(c),
    ensures
        a.is_prefix_of(c),
{
    assert(a =~= c.subrange(0, a.len() as int)) by {
        assert forall|i: int| 0 <= i < a.len() implies a[i] == c[i] by {
            assert(a[i] == b[i]);
            assert(b[i] == c[i]);
        }
    }
}

pub proof fn lemma_prefix_append<A>(a: Seq<A>, b: Seq<A>, c: Seq<A>)
    requires
        a.is_prefix_of(b),
    ensures
        a.is_prefix_of(b + c),
{
    assert(a =~= (b + c).subrange(0, a.len() as int));
}

pub proof fn lemma_prefix_push<A>(a: Seq<A>, b: Seq<A>, x: A)
    requires
        a.is_prefix_of(b),
    ensures
        a.is_prefix_of(b.push(x)),
{
    assert(a =~= b.push(x).subrange(0, a.len() as int));
}

pub proof fn lemma_prefix_refl<A>(a: Seq<A>)
    ensures
        a.is_prefix_of(a),
{
    assert(a =~= a.subrange(0, a.len() as int));
}

/// Patching an operand that lies after the first `k` bytes keeps those
/// bytes and the length of the stream.
pub proof fn lemma_patched_keeps(code: Seq<u8>, prefix: Seq<u8>, pos: int, target: int)
    requires
        prefix.is_prefix_of(code),
        prefix.len() <= pos,
        pos + 3 <= code.len(),
    ensures
        patched(code, pos, target).len() == code.len(),
        prefix.is_prefix_of(patched(code, pos, target)),
{
    let p = patched(code, pos, target);
    assert(prefix =~= p.subrange(0, prefix.len() as int)) by {
        assert forall|i: int| 0 <= i < prefix.len() implies prefix[i] == p[i] by {
            assert(prefix[i] == code[i]);
        }
    }
}

/// Code that extends the stream of `st` and keeps the rest of the state.
pub open spec fn extends(st: CodeState, st2: CodeState) -> bool {
    &&& st.code.is_prefix_of(st2.code)
    &&& st.consts.is_prefix_of(st2.consts)
    &&& st2.locals == st.locals
    &&& st2.loops == st.loops
}

pub(crate) proof fn lemma_extends_trans(a: CodeState, b: CodeState, c: CodeState)
    requires
        extends(a, b),
        extends(b, c),
    ensures
        extends(a, c),
{
    lemma_prefix_trans(a.code, b.code, c.code);
    lemma_prefix_trans(a.consts, b.consts, c.consts);
}

pub(crate) proof fn lemma_emit_extends(st: CodeState, op: OpCode)
    ensures
        extends(st, emit(st, op)),
{
    lemma_prefix_refl(st.code);
    lemma_prefix_push(st.code, st.code, op.spec_byte());
    lemma_prefix_refl(st.consts);
}

proof fn lemma_emit_u24_extends(st: CodeState, v: u32)
    ensures
        extends(st, emit_u24(st, v)),
{
    lemma_prefix_refl(st.code);
    lemma_prefix_append(st.code, st.code, u24_bytes(v as int));
    lemma_prefix_refl(st.consts);
}

proof fn lemma_load_const_extends(st: CodeState, v: crate::value::Value)
    ensures
        extends(st, load_const(st, v)),
{
    let st1 = emit(st, OpCode::LoadConst);
    lemma_emit_extends(st, OpCode::LoadConst);
    let st2 = CodeState { consts: st1.consts.push(v), ..st1 };
    lemma_prefix_push(st.consts, st1.consts, v);
    lemma_emit_u24_extends(st2, st.consts.len() as u32);
    lemma_prefix_trans(st.code, st2.code, load_const(st, v).code);
    lemma_prefix_trans(st.consts, st2.consts, load_const(st, v).consts);
}

/// `LoadConst` names the constant it adds: its operand reads back the
/// constant's index, and the pool holds the value at that index. (An operand
/// holds 24 bits, so the pool must be smaller than that.)
pub proof fn lemma_load_const_reads_back(st: CodeState, v: Value)
    requires
        st.consts.len() < 0x100_0000,
    ensures
        ({
            let st2 = load_const(st, v);
            let idx = u24_at(st2.code, st.code.len() + 1int);
            &&& st2.code[st.code.len() as int] == OpCode::LoadConst.spec_byte()
            &&& idx == st.consts.len()
            &&& st2.consts[idx] == v
        }),
{
    let n = st.consts.len() as int;
    lemma_u24_round_trip(n);
    let st2 = load_const(st, v);
    let b = u24_bytes(n);
    let base = st.code.len() + 1int;
    assert(st2.code == st.code.push(OpCode::LoadConst.spec_byte()) + b);
    assert(st2.code[base] == b[0]);
    assert(st2.code[base + 1] == b[1]);
    assert(st2.code[base + 2] == b[2]);
}

pub(crate) proof fn lemma_emit_jump_extends(st: CodeState, op: OpCode)
    ensures
        extends(st, emit_jump(st, op)),
        emit_jump(st, op).code.len() == st.code.len() + 4,
{
    lemma_prefix_refl(st.code);
    lemma_prefix_push(st.code, st.code, op.spec_byte());
    lemma_prefix_append(st.code, st.code.push(op.spec_byte()), placeholder());
    lemma_prefix_refl(st.consts);
}

pub(crate) proof fn lemma_emit_jump_back_extends(st: CodeState, op: OpCode, target: int)
    ensures
        extends(st, emit_jump_back(st, op, target)),
{
    lemma_prefix_refl(st.code);
    lemma_prefix_push(st.code, st.code, op.spec_byte());
    lemma_prefix_append(st.code, st.code.push(op.spec_byte()), u24_bytes(target));
    lemma_prefix_refl(st.consts);
}

proof fn lemma_step_code_extends(st: CodeState, kind: hir::UnaryOpKind, ty: crate::types::Type, slot: crate::compile_spec::LocalSlot)
    ensures
        extends(st, step_code(st, kind, ty, slot)),
{
    let one = crate::compile_spec::one_of(ty)->0;
    let op = match kind {
        hir::UnaryOpKind::PostDecrement | hir::UnaryOpKind::PreDecrement => crate::compile_spec::sub_op(ty),
        _ => crate::compile_spec::add_op(ty),
    };
    let store = crate::compile_spec::store_op(ty)->0;
    match kind {
        hir::UnaryOpKind::PostDecrement | hir::UnaryOpKind::PostIncrement => {
            let s1 = emit(st, OpCode::Dup);
            let s2 = load_const(s1, one);
            let s3 = emit(s2, op);
            let s4 = emit(s3, store);
            lemma_emit_extends(st, OpCode::Dup);
            lemma_load_const_extends(s1, one);
            lemma_emit_extends(s2, op);
            lemma_emit_extends(s3, store);
            lemma_emit_u24_extends(s4, slot.0 as u32);
            lemma_extends_trans(st, s1, s2);
            lemma_extends_trans(st, s2, s3);
            lemma_extends_trans(st, s3, s4);
            lemma_extends_trans(st, s4, emit_u24(s4, slot.0 as u32));
        },
        _ => {
            let s1 = load_const(st, one);
            let s2 = emit(s1, op);
            let s3 = emit(s2, OpCode::Dup);
            let s4 = emit(s3, store);
            lemma_load_const_extends(st, one);
            lemma_emit_extends(s1, op);
            lemma_emit_extends(s2, OpCode::Dup);
            lemma_emit_extends(s3, store);
            lemma_emit_u24_extends(s4, slot.0 as u32);
            lemma_extends_trans(st, s1, s2);
            lemma_extends_trans(st, s2, s3);
            lemma_extends_trans(st, s3, s4);
            lemma_extends_trans(st, s4, emit_u24(s4, slot.0 as u32));
        },
    }
}

/// Compiling an expression only appends: the instructions and constants
/// already in the chunk stay as they are, and neither the local slots nor
/// the pending jumps of enclosing loops change.
pub proof fn lemma_expr_compiled_extends(e: hir::Expr, st: CodeState)
    requires
        expr_compiled(e, st) is Some,
    ensures
        extends(st, expr_compiled(e, st)->0),
    decreases e,
{
    let st_final = expr_compiled(e, st)->0;
    match e.kind {
        hir::ExprKind::Literal(lit) => {
            let v = match lit.kind {
                hir::LiteralKind::Int(i) => crate::value::Value::Int(i),
                hir::LiteralKind::Bool(b) => crate::value::Value::Bool(b),
                hir::LiteralKind::Float(f) => crate::value::Value::Double(f),
            };
            lemma_load_const_extends(st, v);
        },
        hir::ExprKind::BinaryOp(b) => match b.kind {
            hir::BinaryOpKind::And | hir::BinaryOpKind::Or => {
                let jump = if b.kind == hir::BinaryOpKind::And {
                    OpCode::JmpFalse
                } else {
                    OpCode::JmpTrue
                };
                lemma_expr_compiled_extends(*b.left, st);
                let st1 = expr_compiled(*b.left, st)->0;
                let st2 = emit(st1, OpCode::Dup);
                let pos = st2.code.len() + 1;
                let sj = emit_jump(st2, jump);
                let st3 = emit(sj, OpCode::Pop);
                lemma_emit_extends(st1, OpCode::Dup);
                lemma_emit_jump_extends(st2, jump);
                lemma_emit_extends(sj, OpCode::Pop);
                lemma_expr_compiled_extends(*b.right, st3);
                let st4 = expr_compiled(*b.right, st3)->0;
                lemma_extends_trans(st, st1, st2);
                lemma_extends_trans(st, st2, sj);
                lemma_extends_trans(st, sj, st3);
                lemma_extends_trans(st, st3, st4);
                lemma_prefix_trans(st.code, st2.code, st4.code);
                lemma_patched_keeps(st4.code, st.code, pos as int, st4.code.len() as int);
                lemma_prefix_refl(st4.consts);
                lemma_prefix_trans(st.consts, st4.consts, st_final.consts);
            },
            _ => {
                lemma_expr_compiled_extends(*b.left, st);
                let st1 = expr_compiled(*b.left, st)->0;
                lemma_expr_compiled_extends(*b.right, st1);
                let st2 = expr_compiled(*b.right, st1)->0;
                lemma_extends_trans(st, st1, st2);
                let op = crate::compile_spec::binary_op(b.kind, e.ty, b.left.ty)->0;
                lemma_emit_extends(st2, op);
                lemma_extends_trans(st, st2, emit(st2, op));
            },
        },
        hir::ExprKind::UnaryOp(u) => {
            lemma_expr_compiled_extends(*u.operand, st);
            let st1 = expr_compiled(*u.operand, st)->0;
            match u.kind {
                hir::UnaryOpKind::Negate => {
                    let op = crate::compile_spec::negate_op(u.operand.ty)->0;
                    lemma_emit_extends(st1, op);
                    lemma_extends_trans(st, st1, emit(st1, op));
                },
                _ => {
                    let v = crate::compile_spec::variable_of(*u.operand)->0;
                    let slot = crate::compile_spec::slot_of(st1, v)->0;
                    lemma_step_code_extends(st1, u.kind, u.operand.ty, slot);
                    lemma_extends_trans(st, st1, step_code(st1, u.kind, u.operand.ty, slot));
                },
            }
        },
        hir::ExprKind::VarAssign(va) => {
            lemma_expr_compiled_extends(*va.value, st);
            let st1 = expr_compiled(*va.value, st)->0;
            let op = crate::compile_spec::store_op(va.target.ty)->0;
            let v = crate::compile_spec::variable_of(*va.target)->0;
            let slot = crate::compile_spec::slot_of(st1, v)->0;
            let s2 = emit(st1, OpCode::Dup);
            let s3 = emit(s2, op);
            lemma_emit_extends(st1, OpCode::Dup);
            lemma_emit_extends(s2, op);
            lemma_emit_u24_extends(s3, slot.0 as u32);
            lemma_extends_trans(st, st1, s2);
            lemma_extends_trans(st, s2, s3);
            lemma_extends_trans(st, s3, emit_u24(s3, slot.0 as u32));
        },
        hir::ExprKind::Variable(v) => {
            let op = crate::compile_spec::load_op(e.ty)->0;
            let slot = crate::compile_spec::slot_of(st, v.id)->0;
            lemma_emit_extends(st, op);
            lemma_emit_u24_extends(emit(st, op), slot.0 as u32);
            lemma_extends_trans(st, emit(st, op), emit_u24(emit(st, op), slot.0 as u32));
        },
        hir::ExprKind::Call(_) => {},
        hir::ExprKind::Conversion(c) => {
            lemma_expr_compiled_extends(*c.expr, st);
            let st1 = expr_compiled(*c.expr, st)->0;
            lemma_emit_extends(st1, OpCode::I32ToF64);
            lemma_extends_trans(st, st1, emit(st1, OpCode::I32ToF64));
        },
    }
}

// ---------------------------------------------------------------------------
// Statements

/// Patching operands that all lie after a prefix and inside the stream
/// keeps the prefix and the length of the stream.
pub proof fn lemma_patch_all_keeps(code: Seq<u8>, prefix: Seq<u8>, ps: Seq<int>, target: int)
    requires
        prefix.is_prefix_of(code),
        forall|j: int| 0 <= j < ps.len() ==> prefix.len() <= #[trigger] ps[j] && ps[j] + 3 <= code.len(),
    ensures
        patch_all(code, ps, target).len() == code.len(),
        prefix.is_prefix_of(patch_all(code, ps, target)),
    decreases ps.len(),
{
    if ps.len() > 0 {
        let rest = ps.drop_last();
        assert forall|j: int| 0 <= j < rest.len() implies prefix.len() <= #[trigger] rest[j]
            && rest[j] + 3 <= code.len() by {
            assert(rest[j] == ps[j]);
        }
        lemma_patch_all_keeps(code, prefix, rest, target);
        let p = ps.last();
        assert(p == ps[ps.len() - 1]);
        lemma_patched_keeps(patch_all(code, rest, target), prefix, p, target);
    }
}

/// Every local holds the slot of its own number.
pub open spec fn slots_are_numbers(locals: Map<usize, LocalSlot>) -> bool {
    forall|k: usize| locals.contains_key(k) ==> locals[k] == LocalSlot(k)
}

/// `new` is `old` after compiling a statement that started with the stream
/// `mark` bytes long: the same loops, all but the innermost unchanged, and
/// the innermost only gained jumps, all lying after `mark`.
pub open spec fn loops_extend(old: Seq<LoopView>, new: Seq<LoopView>, mark: nat) -> bool {
    &&& new.len() == old.len()
    &&& forall|i: int| 0 <= i < old.len() - 1 ==> new[i] == old[i]
    &&& old.len() > 0 ==> {
        let o = old.last();
        let n = new.last();
        &&& o.continue_jumps.is_prefix_of(n.continue_jumps)
        &&& o.break_jumps.is_prefix_of(n.break_jumps)
        &&& forall|j: int|
            o.continue_jumps.len() <= j < n.continue_jumps.len() ==> #[trigger] n.continue_jumps[j]
                >= mark
        &&& forall|j: int|
            o.break_jumps.len() <= j < n.break_jumps.len() ==> #[trigger] n.break_jumps[j] >= mark
    }
}

/// What compiling a statement may change of the state it started from: it
/// appends instructions and constants, with patches only past where it
/// started; it adds locals; it leaves every enclosing loop as it was, but
/// for jumps added to the innermost one; and it leaves every pending jump
/// inside the stream.
pub open spec fn stmt_frame(st: CodeState, st2: CodeState) -> bool {
    &&& st.code.is_prefix_of(st2.code)
    &&& st.consts.is_prefix_of(st2.consts)
    &&& st.locals.submap_of(st2.locals)
    &&& slots_are_numbers(st2.locals)
    &&& loops_extend(st.loops, st2.loops, st.code.len())
    &&& jumps_in_bounds(st2)
}

proof fn lemma_loops_extend_refl(l: Seq<LoopView>, mark: nat)
    ensures
        loops_extend(l, l, mark),
{
    if l.len() > 0 {
        lemma_prefix_refl(l.last().continue_jumps);
        lemma_prefix_refl(l.last().break_jumps);
    }
}

pub(crate) proof fn lemma_extends_frame(st: CodeState, st2: CodeState)
    requires
        extends(st, st2),
        jumps_in_bounds(st),
        slots_are_numbers(st.locals),
    ensures
        stmt_frame(st, st2),
{
    lemma_loops_extend_refl(st.loops, st.code.len());
}

proof fn lemma_frame_trans(a: CodeState, b: CodeState, c: CodeState)
    requires
        stmt_frame(a, b),
        stmt_frame(b, c),
    ensures
        stmt_frame(a, c),
{
    lemma_prefix_trans(a.code, b.code, c.code);
    lemma_prefix_trans(a.consts, b.consts, c.consts);
    assert(a.locals.submap_of(c.locals)) by {
        assert forall|k: usize| #[trigger] a.locals.dom().contains(k) implies c.locals.dom().contains(k)
            && a.locals[k] == c.locals[k] by {
            assert(b.locals.dom().contains(k));
            assert(c.locals.dom().contains(k));
        }
    }
    if a.loops.len() > 0 {
        let (ao, bo, co) = (a.loops.last(), b.loops.last(), c.loops.last());
        lemma_prefix_trans(ao.continue_jumps, bo.continue_jumps, co.continue_jumps);
        lemma_prefix_trans(ao.break_jumps, bo.break_jumps, co.break_jumps);
        assert forall|j: int|
            ao.continue_jumps.len() <= j < co.continue_jumps.len() implies #[trigger] co.continue_jumps[j]
            >= a.code.len() by {
            if j < bo.continue_jumps.len() {
                assert(co.continue_jumps[j] == bo.continue_jumps[j]);
            }
        }
        assert forall|j: int|
            ao.break_jumps.len() <= j < co.break_jumps.len() implies #[trigger] co.break_jumps[j]
            >= a.code.len() by {
            if j < bo.break_jumps.len() {
                assert(co.break_jumps[j] == bo.break_jumps[j]);
            }
        }
    }
}

/// Patching an operand that lies after where the statement started keeps
/// the frame.
proof fn lemma_patch_frame(a: CodeState, st: CodeState, pos: int)
    requires
        stmt_frame(a, st),
        a.code.len() <= pos,
        pos + 3 <= st.code.len(),
    ensures
        stmt_frame(a, patch(st, pos)),
{
    lemma_patched_keeps(st.code, a.code, pos, st.code.len() as int);
}

proof fn lemma_extends_after_frame(a: CodeState, st: CodeState, st2: CodeState)
    requires
        stmt_frame(a, st),
        extends(st, st2),
    ensures
        stmt_frame(a, st2),
{
    lemma_extends_frame(st, st2);
    lemma_frame_trans(a, st, st2);
}

pub(crate) proof fn lemma_vardecl_frame(d: hir::VarDecl, st: CodeState)
    requires
        vardecl_compiled(d, st) is Some,
        jumps_in_bounds(st),
        slots_are_numbers(st.locals),
    ensures
        stmt_frame(st, vardecl_compiled(d, st)->0),
{
    let k = d.id.0;
    match d.init {
        Some(init) => {
            lemma_expr_compiled_extends(init, st);
            let st1 = expr_compiled(init, st)->0;
            lemma_extends_frame(st, st1);
            let sd = declare(st1, k);
            assert(st1.locals.submap_of(sd.locals));
            assert(stmt_frame(st, sd)) by {
                lemma_loops_extend_refl(st.loops, st.code.len());
            }
            let op = store_op(d.ty)->0;
            lemma_emit_extends(sd, op);
            lemma_emit_u24_extends(emit(sd, op), k as u32);
            lemma_extends_trans(sd, emit(sd, op), emit_u24(emit(sd, op), k as u32));
            lemma_extends_after_frame(st, sd, emit_u24(emit(sd, op), k as u32));
        },
        None => {
            let sd = declare(st, k);
            assert(stmt_frame(st, sd)) by {
                lemma_prefix_refl(st.code);
                lemma_prefix_refl(st.consts);
                lemma_loops_extend_refl(st.loops, st.code.len());
            }
            let s1 = load_const(sd, Value::Uninitialized);
            let op = store_op(d.ty)->0;
            lemma_load_const_extends(sd, Value::Uninitialized);
            lemma_emit_extends(s1, op);
            lemma_emit_u24_extends(emit(s1, op), k as u32);
            lemma_extends_trans(sd, s1, emit(s1, op));
            lemma_extends_trans(sd, emit(s1, op), emit_u24(emit(s1, op), k as u32));
            lemma_extends_after_frame(st, sd, emit_u24(emit(s1, op), k as u32));
        },
    }
}

/// Compiling a statement keeps its frame: see `stmt_frame`. In particular
/// the instructions already emitted are never changed, and when it leaves a
/// loop all of the loop's pending jumps have been patched and forgotten.
pub proof fn lemma_stmt_compiled_frame(s: hir::Stmt, st: CodeState)
    requires
        stmt_compiled(s, st) is Some,
        jumps_in_bounds(st),
        slots_are_numbers(st.locals),
    ensures
        stmt_frame(st, stmt_compiled(s, st)->0),
    decreases s, 1nat,
{
    let fin = stmt_compiled(s, st)->0;
    match s.kind {
        hir::StmtKind::ExprStmt(e) => {
            lemma_expr_compiled_extends(e.expr, st);
            let st1 = expr_compiled(e.expr, st)->0;
            lemma_emit_extends(st1, OpCode::Pop);
            lemma_extends_trans(st, st1, fin);
            lemma_extends_frame(st, fin);
        },
        hir::StmtKind::Print(p) => {
            lemma_expr_compiled_extends(p.expr, st);
            let st1 = expr_compiled(p.expr, st)->0;
            let op = crate::compile_spec::print_op(p.expr.ty)->0;
            lemma_emit_extends(st1, op);
            lemma_extends_trans(st, st1, fin);
            lemma_extends_frame(st, fin);
        },
        hir::StmtKind::VarDecl(d) => {
            lemma_vardecl_frame(d, st);
        },
        hir::StmtKind::Block(b) => {
            lemma_stmts_compiled_frame(b.body@, st);
        },
        hir::StmtKind::If(_) => {
            lemma_if_frame(s, st);
        },
        hir::StmtKind::While(_) => {
            lemma_while_frame(s, st);
        },
        hir::StmtKind::For(_) => {
            lemma_for_frame(s, st);
        },
        hir::StmtKind::Break => {
            lemma_jump_frame(s, st);
        },
        hir::StmtKind::Continue => {
            lemma_jump_frame(s, st);
        },
        hir::StmtKind::Return(_) => {},
    }
}

proof fn lemma_if_frame(s: hir::Stmt, st: CodeState)
    requires
        s.kind is If,
        stmt_compiled(s, st) is Some,
        jumps_in_bounds(st),
        slots_are_numbers(st.locals),
    ensures
        stmt_frame(st, stmt_compiled(s, st)->0),
    decreases s, 0nat,
{
    let i = s.kind->If_0;
    lemma_expr_compiled_extends(i.condition, st);
    let st1 = expr_compiled(i.condition, st)->0;
    let pos = st1.code.len() + 1int;
    let sj = emit_jump(st1, OpCode::JmpFalse);
    lemma_emit_jump_extends(st1, OpCode::JmpFalse);
    lemma_extends_trans(st, st1, sj);
    lemma_extends_frame(st, sj);
    lemma_stmt_compiled_frame(*i.body, sj);
    let st2 = stmt_compiled(*i.body, sj)->0;
    lemma_frame_trans(st, sj, st2);
    match i.else_clause {
        Some(e) => {
            let end = st2.code.len() + 1int;
            let sj2 = emit_jump(st2, OpCode::Jmp);
            lemma_emit_jump_extends(st2, OpCode::Jmp);
            lemma_extends_after_frame(st, st2, sj2);
            lemma_patch_frame(st, sj2, pos);
            let sp = patch(sj2, pos);
            lemma_stmt_compiled_frame(*e, sp);
            let st3 = stmt_compiled(*e, sp)->0;
            lemma_frame_trans(st, sp, st3);
            lemma_patch_frame(st, st3, end);
        },
        None => {
            lemma_patch_frame(st, st2, pos);
        },
    }
}

proof fn lemma_while_frame(s: hir::Stmt, st: CodeState)
    requires
        s.kind is While,
        stmt_compiled(s, st) is Some,
        jumps_in_bounds(st),
        slots_are_numbers(st.locals),
    ensures
        stmt_frame(st, stmt_compiled(s, st)->0),
    decreases s, 0nat,
{
    let w = s.kind->While_0;
    let fin = stmt_compiled(s, st)->0;
    let start = st.code.len() as int;
    lemma_expr_compiled_extends(w.condition, st);
    let st1 = expr_compiled(w.condition, st)->0;
    let exit = st1.code.len() + 1int;
    let sj = emit_jump(st1, OpCode::JmpFalse);
    lemma_emit_jump_extends(st1, OpCode::JmpFalse);
    lemma_extends_trans(st, st1, sj);
    let sp = push_loop(sj);
    lemma_loop_top(st, sj, *w.body);
    let st2 = stmt_compiled(*w.body, sp)->0;
    let sb = emit_jump_back(st2, OpCode::Jmp, start);
    lemma_emit_jump_back_extends(st2, OpCode::Jmp, start);
    lemma_prefix_trans(st.code, sj.code, st2.code);
    lemma_prefix_trans(st.code, st2.code, sb.code);
    let se = patch(sb, exit);
    lemma_patched_keeps(sb.code, st.code, exit, sb.code.len() as int);
    let top = se.loops.last();
    assert(top == st2.loops.last());
    lemma_patch_all_keeps(se.code, st.code, top.continue_jumps, start);
    let c1 = patch_all(se.code, top.continue_jumps, start);
    lemma_patch_all_keeps(c1, st.code, top.break_jumps, se.code.len() as int);
    lemma_prefix_trans(st.consts, sj.consts, st2.consts);
    lemma_prefix_trans(st.consts, st2.consts, sb.consts);
    lemma_close_frame(st, fin);
}

pub(crate) proof fn lemma_for_frame(s: hir::Stmt, st: CodeState)
    requires
        s.kind is For,
        stmt_compiled(s, st) is Some,
        jumps_in_bounds(st),
        slots_are_numbers(st.locals),
    ensures
        stmt_frame(st, stmt_compiled(s, st)->0),
        stmt_frame(for_init_compiled(s.kind->For_0.init, st)->0, stmt_compiled(s, st)->0),
    decreases s, 0nat,
{
    let f = s.kind->For_0;
    let fin = stmt_compiled(s, st)->0;
    let st1 = for_init_compiled(f.init, st)->0;
    match f.init {
        Some(init) => match init.kind {
            hir::ForInitKind::Decl(d) => lemma_vardecl_frame(d, st),
            hir::ForInitKind::Expr(e) => {
                lemma_expr_compiled_extends(e, st);
                lemma_extends_frame(st, st1);
            },
        },
        None => {
            lemma_prefix_refl(st.code);
            lemma_prefix_refl(st.consts);
            lemma_extends_frame(st, st);
        },
    }
    let start = st1.code.len() as int;
    let st2 = for_cond_compiled(f.condition, st1)->0;
    let exit = st2.code.len() - 3int;
    match f.condition {
        Some(c) => {
            lemma_expr_compiled_extends(c, st1);
            let sc = expr_compiled(c, st1)->0;
            lemma_emit_jump_extends(sc, OpCode::JmpFalse);
            lemma_extends_trans(st1, sc, st2);
        },
        None => {
            lemma_prefix_refl(st1.code);
            lemma_prefix_refl(st1.consts);
        },
    }
    let sp = push_loop(st2);
    lemma_loop_top(st1, st2, *f.body);
    let st3 = stmt_compiled(*f.body, sp)->0;
    let next = st3.code.len() as int;
    let st4 = opt_expr_compiled(f.increment, st3)->0;
    match f.increment {
        Some(inc) => {
            lemma_expr_compiled_extends(inc, st3);
        },
        None => {
            lemma_prefix_refl(st3.code);
            lemma_prefix_refl(st3.consts);
        },
    }
    let st5 = emit_jump_back(st4, OpCode::Jmp, start);
    lemma_emit_jump_back_extends(st4, OpCode::Jmp, start);
    lemma_extends_trans(st3, st4, st5);
    let st6 = if f.condition is Some {
        patch(st5, exit)
    } else {
        st5
    };
    lemma_prefix_trans(st1.code, st2.code, st3.code);
    lemma_prefix_trans(st1.code, st3.code, st5.code);
    lemma_prefix_trans(st1.consts, st2.consts, st3.consts);
    lemma_prefix_trans(st1.consts, st3.consts, st5.consts);
    if f.condition is Some {
        lemma_patched_keeps(st5.code, st1.code, exit, st5.code.len() as int);
    }
    let top = st6.loops.last();
    assert(top == st3.loops.last());
    lemma_patch_all_keeps(st6.code, st1.code, top.break_jumps, st6.code.len() as int);
    let c1 = patch_all(st6.code, top.break_jumps, st6.code.len() as int);
    lemma_patch_all_keeps(c1, st1.code, top.continue_jumps, next);
    lemma_close_frame(st1, fin);
    lemma_frame_trans(st, st1, fin);
}

proof fn lemma_jump_frame(s: hir::Stmt, st: CodeState)
    requires
        s.kind is Break || s.kind is Continue,
        stmt_compiled(s, st) is Some,
        jumps_in_bounds(st),
        slots_are_numbers(st.locals),
    ensures
        stmt_frame(st, stmt_compiled(s, st)->0),
{
    let fin = stmt_compiled(s, st)->0;
    let sj = emit_jump(st, OpCode::Jmp);
    lemma_emit_jump_extends(st, OpCode::Jmp);
    let pos = st.code.len() + 1int;
    let top = sj.loops.last();
    lemma_prefix_refl(top.continue_jumps);
    lemma_prefix_refl(top.break_jumps);
    if s.kind is Break {
        lemma_prefix_push(top.break_jumps, top.break_jumps, pos);
        assert(fin.loops.last().continue_jumps == top.continue_jumps);
        assert(fin.loops.last().break_jumps == top.break_jumps.push(pos));
    } else {
        lemma_prefix_push(top.continue_jumps, top.continue_jumps, pos);
        assert(fin.loops.last().break_jumps == top.break_jumps);
        assert(fin.loops.last().continue_jumps == top.continue_jumps.push(pos));
    }
    assert forall|i: int, j: int| 0 <= i < fin.loops.len() implies {
        &&& (0 <= j < fin.loops[i].continue_jumps.len() ==> fin.loops[i].continue_jumps[j] + 3
            <= fin.code.len())
        &&& (0 <= j < fin.loops[i].break_jumps.len() ==> fin.loops[i].break_jumps[j] + 3
            <= fin.code.len())
    } by {
        if i < fin.loops.len() - 1 {
            assert(fin.loops[i] == st.loops[i]);
        }
    }
}

pub(crate) proof fn lemma_stmts_compiled_frame(s: Seq<hir::Stmt>, st: CodeState)
    requires
        stmts_compiled(s, st) is Some,
        jumps_in_bounds(st),
        slots_are_numbers(st.locals),
    ensures
        stmt_frame(st, stmts_compiled(s, st)->0),
    decreases s, 1nat,
{
    if s.len() == 0 {
        lemma_prefix_refl(st.code);
        lemma_prefix_refl(st.consts);
        lemma_extends_frame(st, st);
    } else {
        lemma_stmts_compiled_frame(s.drop_last(), st);
        let st1 = stmts_compiled(s.drop_last(), st)->0;
        lemma_stmt_compiled_frame(s.last(), st1);
        lemma_frame_trans(st, st1, stmt_compiled(s.last(), st1)->0);
    }
}

pub(crate) proof fn lemma_push_loop_bounds(st: CodeState)
    requires
        jumps_in_bounds(st),
    ensures
        jumps_in_bounds(push_loop(st)),
{
    let sp = push_loop(st);
    assert forall|i: int, j: int| 0 <= i < sp.loops.len() implies {
        &&& (0 <= j < sp.loops[i].continue_jumps.len() ==> sp.loops[i].continue_jumps[j] + 3
            <= sp.code.len())
        &&& (0 <= j < sp.loops[i].break_jumps.len() ==> sp.loops[i].break_jumps[j] + 3
            <= sp.code.len())
    } by {
        if i < st.loops.len() {
            assert(sp.loops[i] == st.loops[i]);
        }
    }
}

/// The body of a loop compiled after `sj`, with a fresh loop pushed: the
/// enclosing loops come back as they were, and every jump the body left
/// pending on the fresh loop lies after `st` and inside the stream.
pub(crate) proof fn lemma_loop_top(st: CodeState, sj: CodeState, body: hir::Stmt)
    requires
        extends(st, sj),
        jumps_in_bounds(st),
        slots_are_numbers(st.locals),
        stmt_compiled(body, push_loop(sj)) is Some,
    ensures
        ({
            let st2 = stmt_compiled(body, push_loop(sj))->0;
            let top = st2.loops.last();
            &&& stmt_frame(push_loop(sj), st2)
            &&& st2.loops.len() == st.loops.len() + 1
            &&& st2.loops.drop_last() == st.loops
            &&& forall|j: int|
                0 <= j < top.continue_jumps.len() ==> st.code.len() <= #[trigger] top.continue_jumps[j]
                    && top.continue_jumps[j] + 3 <= st2.code.len()
            &&& forall|j: int|
                0 <= j < top.break_jumps.len() ==> st.code.len() <= #[trigger] top.break_jumps[j]
                    && top.break_jumps[j] + 3 <= st2.code.len()
        }),
    decreases body, 2nat,
{
    let sp = push_loop(sj);
    lemma_extends_frame(st, sj);
    lemma_push_loop_bounds(sj);
    lemma_stmt_compiled_frame(body, sp);
    let st2 = stmt_compiled(body, sp)->0;
    assert(st2.loops.drop_last() =~= st.loops) by {
        assert forall|i: int| 0 <= i < st.loops.len() implies st2.loops[i] == st.loops[i] by {
            assert(sp.loops[i] == sj.loops[i]);
        }
    }
    let top = st2.loops.last();
    assert(top == st2.loops[st2.loops.len() - 1]);
    assert forall|j: int| 0 <= j < top.continue_jumps.len() implies st.code.len()
        <= #[trigger] top.continue_jumps[j] && top.continue_jumps[j] + 3 <= st2.code.len() by {
        assert(sp.loops.last().continue_jumps.len() == 0);
    }
    assert forall|j: int| 0 <= j < top.break_jumps.len() implies st.code.len()
        <= #[trigger] top.break_jumps[j] && top.break_jumps[j] + 3 <= st2.code.len() by {
        assert(sp.loops.last().break_jumps.len() == 0);
    }
}

proof fn lemma_close_frame(st: CodeState, fin: CodeState)
    requires
        st.code.is_prefix_of(fin.code),
        st.consts.is_prefix_of(fin.consts),
        st.locals.submap_of(fin.locals),
        slots_are_numbers(fin.locals),
        fin.loops == st.loops,
        jumps_in_bounds(st),
    ensures
        stmt_frame(st, fin),
{
    lemma_loops_extend_refl(st.loops, st.code.len());
}

/// Growing the stream without touching the loops keeps the pending jumps
/// inside it.
pub(crate) proof fn lemma_bounds_grow(a: CodeState, b: CodeState)
    requires
        jumps_in_bounds(a),
        a.loops == b.loops,
        a.code.len() <= b.code.len(),
    ensures
        jumps_in_bounds(b),
{
}

pub(crate) proof fn lemma_stmts_prefix_some(s: Seq<hir::Stmt>, st: CodeState, k: int)
    requires
        stmts_compiled(s, st) is Some,
        0 <= k <= s.len(),
    ensures
        stmts_compiled(s.take(k), st) is Some,
    decreases s.len() - k,
{
    if k == s.len() {
        assert(s.take(k) =~= s);
    } else {
        lemma_stmts_prefix_some(s, st, k + 1);
        assert(s.take(k + 1).drop_last() =~= s.take(k));
    }
}

pub(crate) proof fn lemma_stmts_step(s: Seq<hir::Stmt>, st: CodeState, k: int)
    requires
        0 <= k < s.len(),
        stmts_compiled(s.take(k), st) is Some,
    ensures
        stmts_compiled(s.take(k + 1), st) == stmt_compiled(s[k], stmts_compiled(s.take(k), st)->0),
{
    assert(s.take(k + 1).drop_last() =~= s.take(k));
    assert(s.take(k + 1).last() == s[k]);
}

pub(crate) proof fn lemma_for_init_frame(init: Option<hir::ForInit>, st: CodeState)
    requires
        for_init_compiled(init, st) is Some,
        jumps_in_bounds(st),
        slots_are_numbers(st.locals),
    ensures
        stmt_frame(st, for_init_compiled(init, st)->0),
{
    match init {
        Some(i) => match i.kind {
            hir::ForInitKind::Decl(d) => lemma_vardecl_frame(d, st),
            hir::ForInitKind::Expr(e) => {
                lemma_expr_compiled_extends(e, st);
                lemma_extends_frame(st, expr_compiled(e, st)->0);
            },
        },
        None => {
            lemma_prefix_refl(st.code);
            lemma_prefix_refl(st.consts);
            lemma_extends_frame(st, st);
        },
    }
}

pub(crate) proof fn lemma_for_cond_frame(cond: Option<hir::Expr>, st: CodeState)
    requires
        for_cond_compiled(cond, st) is Some,
    ensures
        extends(st, for_cond_compiled(cond, st)->0),
{
    match cond {
        Some(c) => {
            lemma_expr_compiled_extends(c, st);
            let sc = expr_compiled(c, st)->0;
            lemma_emit_jump_extends(sc, OpCode::JmpFalse);
            lemma_extends_trans(st, sc, emit_jump(sc, OpCode::JmpFalse));
        },
        None => {
            lemma_prefix_refl(st.code);
            lemma_prefix_refl(st.consts);
        },
    }
}

pub(crate) proof fn lemma_vardecl_loops(d: hir::VarDecl, st: CodeState)
    requires
        vardecl_compiled(d, st) is Some,
    ensures
        vardecl_compiled(d, st)->0.loops == st.loops,
{
    if let Some(init) = d.init {
        lemma_expr_compiled_extends(init, st);
    }
}

pub(crate) proof fn lemma_for_init_loops(init: Option<hir::ForInit>, st: CodeState)
    requires
        for_init_compiled(init, st) is Some,
    ensures
        for_init_compiled(init, st)->0.loops == st.loops,
{
    if let Some(i) = init {
        match i.kind {
            hir::ForInitKind::Decl(d) => lemma_vardecl_loops(d, st),
            hir::ForInitKind::Expr(e) => lemma_expr_compiled_extends(e, st),
        }
    }
}


/// A `while` or `for` loop leaves the loops being compiled exactly as it
/// found them: once it is compiled, every jump that its body left pending has
/// been patched and the loop's own context is gone.
pub proof fn lemma_loop_keeps_loops(s: hir::Stmt, st: CodeState)
    requires
        s.kind is While || s.kind is For,
        stmt_compiled(s, st) is Some,
        jumps_in_bounds(st),
        slots_are_numbers(st.locals),
    ensures
        stmt_compiled(s, st)->0.loops == st.loops,
{
    if s.kind is While {
        let w = s.kind->While_0;
        lemma_expr_compiled_extends(w.condition, st);
        let st1 = expr_compiled(w.condition, st)->0;
        let sj = emit_jump(st1, OpCode::JmpFalse);
        lemma_emit_jump_extends(st1, OpCode::JmpFalse);
        lemma_extends_trans(st, st1, sj);
        lemma_loop_top(st, sj, *w.body);
    } else {
        let f = s.kind->For_0;
        lemma_for_init_frame(f.init, st);
        lemma_for_init_loops(f.init, st);
        let st1 = for_init_compiled(f.init, st)->0;
        lemma_for_cond_frame(f.condition, st1);
        let st2 = for_cond_compiled(f.condition, st1)->0;
        lemma_loop_top(st1, st2, *f.body);
        let st3 = stmt_compiled(*f.body, push_loop(st2))->0;
        if let Some(inc) = f.increment {
            lemma_expr_compiled_extends(inc, st3);
        }
    }
}

} // verus!
