//! Laws of the jumps of loops: the jumps that a loop leaves pending never
//! share a byte, and once a loop is compiled each of its jumps reads back
//! the position it leads to.

use vstd::prelude::*;
use crate::chunk::{lemma_patched_reads_target, lemma_u24_round_trip, patched, u24_at, u24_bytes};
use crate::compile_laws::{
    lemma_emit_jump_extends, lemma_expr_compiled_extends, lemma_extends_frame, lemma_extends_trans,
    lemma_for_cond_frame, lemma_for_init_frame, lemma_loop_top, lemma_patch_all_keeps,
    lemma_prefix_refl, lemma_push_loop_bounds, lemma_stmt_compiled_frame,
    lemma_stmts_compiled_frame, slots_are_numbers, lemma_vardecl_loops, lemma_for_init_loops,
};
use crate::compile_spec::{
    emit_jump, emit_jump_back, patch, expr_compiled, for_cond_compiled, for_init_compiled, jumps_in_bounds,
    opt_expr_compiled, patch_all, push_loop, stmt_compiled, stmts_compiled, vardecl_compiled,
    CodeState, LoopView,
};
use crate::hir;
use crate::opcodes::OpCode;

verus! {

/// No two of the operands at the positions `ps` share a byte.
pub open spec fn apart_within(ps: Seq<int>) -> bool {
    forall|i: int, j: int|
        #![trigger ps[i], ps[j]]
        0 <= i < j < ps.len() ==> ps[i] + 3 <= ps[j] || ps[j] + 3 <= ps[i]
}

/// No operand at a position of `ps` shares a byte with one at a position of
/// `qs`.
pub open spec fn apart_across(ps: Seq<int>, qs: Seq<int>) -> bool {
    forall|i: int, j: int|
        #![trigger ps[i], qs[j]]
        0 <= i < ps.len() && 0 <= j < qs.len() ==> ps[i] + 3 <= qs[j] || qs[j] + 3 <= ps[i]
}

/// No two pending jumps of the loop share a byte.
pub open spec fn loop_apart(l: LoopView) -> bool {
    &&& apart_within(l.continue_jumps)
    &&& apart_within(l.break_jumps)
    &&& apart_across(l.continue_jumps, l.break_jumps)
}

/// No two pending jumps of a loop being compiled share a byte.
pub open spec fn pending_apart(st: CodeState) -> bool {
    forall|i: int| 0 <= i < st.loops.len() ==> loop_apart(#[trigger] st.loops[i])
}

/// Every position of `ps` starts an operand inside a stream of `len` bytes.
pub open spec fn in_stream(ps: Seq<int>, len: int) -> bool {
    forall|j: int| 0 <= j < ps.len() ==> 0 <= #[trigger] ps[j] && ps[j] + 3 <= len
}

// ---------------------------------------------------------------------------
// Patching many operands

proof fn lemma_in_stream_drop_last(ps: Seq<int>, len: int)
    requires
        in_stream(ps, len),
        ps.len() > 0,
    ensures
        in_stream(ps.drop_last(), len),
        0 <= ps.last() && ps.last() + 3 <= len,
{
    assert(ps.last() == ps[ps.len() - 1]);
    assert forall|j: int| 0 <= j < ps.drop_last().len() implies 0 <= #[trigger] ps.drop_last()[j]
        && ps.drop_last()[j] + 3 <= len by {
        assert(ps.drop_last()[j] == ps[j]);
    }
}

proof fn lemma_patched_len(code: Seq<u8>, pos: int, t: int)
    requires
        0 <= pos,
        pos + 3 <= code.len(),
    ensures
        patched(code, pos, t).len() == code.len(),
{
}

proof fn lemma_patch_all_len(code: Seq<u8>, ps: Seq<int>, t: int)
    requires
        in_stream(ps, code.len() as int),
    ensures
        patch_all(code, ps, t).len() == code.len(),
{
    let empty = Seq::<u8>::empty();
    assert(empty =~= code.subrange(0, 0));
    lemma_patch_all_keeps(code, empty, ps, t);
}

/// Patching operands leaves every byte outside them as it was.
proof fn lemma_patch_all_elsewhere(code: Seq<u8>, ps: Seq<int>, t: int, x: int)
    requires
        in_stream(ps, code.len() as int),
        0 <= t < 0x100_0000,
        0 <= x < code.len(),
        forall|j: int| 0 <= j < ps.len() ==> !(#[trigger] ps[j] <= x < ps[j] + 3),
    ensures
        patch_all(code, ps, t)[x] == code[x],
    decreases ps.len(),
{
    if ps.len() > 0 {
        let rest = ps.drop_last();
        lemma_in_stream_drop_last(ps, code.len() as int);
        assert forall|j: int| 0 <= j < rest.len() implies !(#[trigger] rest[j] <= x < rest[j] + 3) by {
            assert(rest[j] == ps[j]);
        }
        lemma_patch_all_elsewhere(code, rest, t, x);
        lemma_patch_all_len(code, rest, t);
        let q = ps.last();
        assert(q == ps[ps.len() - 1]);
        lemma_patched_reads_target(patch_all(code, rest, t), q, t);
    }
}

/// An operand that no other patched operand overlaps reads back the target.
proof fn lemma_patch_all_reads(code: Seq<u8>, ps: Seq<int>, t: int, k: int)
    requires
        in_stream(ps, code.len() as int),
        apart_within(ps),
        0 <= t < 0x100_0000,
        0 <= k < ps.len(),
    ensures
        u24_at(patch_all(code, ps, t), ps[k]) == t,
    decreases ps.len(),
{
    let rest = ps.drop_last();
    let q = ps.last();
    lemma_in_stream_drop_last(ps, code.len() as int);
    lemma_patch_all_len(code, rest, t);
    let c1 = patch_all(code, rest, t);
    lemma_patched_reads_target(c1, q, t);
    assert(q == ps[ps.len() - 1]);
    if k < ps.len() - 1 {
        assert(apart_within(rest)) by {
            assert forall|i: int, j: int| 0 <= i < j < rest.len() implies rest[i] + 3 <= rest[j]
                || rest[j] + 3 <= rest[i] by {
                assert(rest[i] == ps[i]);
                assert(rest[j] == ps[j]);
            }
        }
        assert(rest[k] == ps[k]);
        lemma_patch_all_reads(code, rest, t, k);
        assert(ps[k] + 3 <= q || q + 3 <= ps[k]);
        let p = patched(c1, q, t);
        assert(p[ps[k]] == c1[ps[k]]);
        assert(p[ps[k] + 1] == c1[ps[k] + 1]);
        assert(p[ps[k] + 2] == c1[ps[k] + 2]);
    }
}

/// An operand that no patched operand overlaps reads back what it read.
proof fn lemma_patch_all_keeps_operand(code: Seq<u8>, ps: Seq<int>, t: int, x: int)
    requires
        in_stream(ps, code.len() as int),
        0 <= t < 0x100_0000,
        0 <= x,
        x + 3 <= code.len(),
        forall|j: int| 0 <= j < ps.len() ==> #[trigger] ps[j] + 3 <= x || x + 3 <= ps[j],
    ensures
        u24_at(patch_all(code, ps, t), x) == u24_at(code, x),
{
    lemma_patch_all_elsewhere(code, ps, t, x);
    lemma_patch_all_elsewhere(code, ps, t, x + 1);
    lemma_patch_all_elsewhere(code, ps, t, x + 2);
}

/// The operand written right after an opcode byte reads back its value.
proof fn lemma_written_operand(code: Seq<u8>, op: u8, v: int)
    requires
        0 <= v < 0x100_0000,
    ensures
        u24_at(code.push(op) + u24_bytes(v), code.len() + 1int) == v,
{
    lemma_u24_round_trip(v);
    let c = code.push(op) + u24_bytes(v);
    let base = code.len() + 1int;
    assert(c[base] == u24_bytes(v)[0]);
    assert(c[base + 1] == u24_bytes(v)[1]);
    assert(c[base + 2] == u24_bytes(v)[2]);
}

// ---------------------------------------------------------------------------
// The pending jumps stay apart

proof fn lemma_apart_push(ps: Seq<int>, pos: int)
    requires
        apart_within(ps),
        forall|j: int| 0 <= j < ps.len() ==> #[trigger] ps[j] + 3 <= pos,
    ensures
        apart_within(ps.push(pos)),
{
    let n = ps.push(pos);
    assert forall|i: int, j: int| 0 <= i < j < n.len() implies n[i] + 3 <= n[j] || n[j] + 3 <= n[i] by {
        assert(n[i] == ps[i]);
        if j < ps.len() {
            assert(n[j] == ps[j]);
        }
    }
}

proof fn lemma_across_push_left(ps: Seq<int>, qs: Seq<int>, pos: int)
    requires
        apart_across(ps, qs),
        forall|j: int| 0 <= j < qs.len() ==> #[trigger] qs[j] + 3 <= pos,
    ensures
        apart_across(ps.push(pos), qs),
{
    let n = ps.push(pos);
    assert forall|i: int, j: int| 0 <= i < n.len() && 0 <= j < qs.len() implies n[i] + 3 <= qs[j]
        || qs[j] + 3 <= n[i] by {
        if i < ps.len() {
            assert(n[i] == ps[i]);
        }
    }
}

proof fn lemma_across_push_right(ps: Seq<int>, qs: Seq<int>, pos: int)
    requires
        apart_across(ps, qs),
        forall|j: int| 0 <= j < ps.len() ==> #[trigger] ps[j] + 3 <= pos,
    ensures
        apart_across(ps, qs.push(pos)),
{
    let n = qs.push(pos);
    assert forall|i: int, j: int| 0 <= i < ps.len() && 0 <= j < n.len() implies ps[i] + 3 <= n[j]
        || n[j] + 3 <= ps[i] by {
        if j < qs.len() {
            assert(n[j] == qs[j]);
        }
    }
}

proof fn lemma_push_loop_apart(st: CodeState)
    requires
        pending_apart(st),
    ensures
        pending_apart(push_loop(st)),
{
    let sp = push_loop(st);
    assert forall|i: int| 0 <= i < sp.loops.len() implies loop_apart(#[trigger] sp.loops[i]) by {
        if i < st.loops.len() {
            assert(sp.loops[i] == st.loops[i]);
        }
    }
}

proof fn lemma_drop_loop_apart(st: CodeState, fin: CodeState)
    requires
        pending_apart(st),
        st.loops.len() > 0,
        fin.loops == st.loops.drop_last(),
    ensures
        pending_apart(fin),
{
    assert forall|i: int| 0 <= i < fin.loops.len() implies loop_apart(#[trigger] fin.loops[i]) by {
        assert(fin.loops[i] == st.loops[i]);
    }
}

/// Compiling a statement keeps the pending jumps of every loop apart: each
/// new jump is written past every operand already in the stream.
pub proof fn lemma_stmt_compiled_apart(s: hir::Stmt, st: CodeState)
    requires
        stmt_compiled(s, st) is Some,
        jumps_in_bounds(st),
        slots_are_numbers(st.locals),
        pending_apart(st),
    ensures
        pending_apart(stmt_compiled(s, st)->0),
    decreases s, 1nat,
{
    match s.kind {
        hir::StmtKind::ExprStmt(e) => lemma_expr_compiled_extends(e.expr, st),
        hir::StmtKind::Print(p) => lemma_expr_compiled_extends(p.expr, st),
        hir::StmtKind::VarDecl(d) => lemma_vardecl_loops(d, st),
        hir::StmtKind::Block(b) => lemma_stmts_compiled_apart(b.body@, st),
        hir::StmtKind::If(_) => lemma_if_apart(s, st),
        hir::StmtKind::While(_) => lemma_while_apart(s, st),
        hir::StmtKind::For(_) => lemma_for_apart(s, st),
        hir::StmtKind::Break => lemma_jump_apart(s, st),
        hir::StmtKind::Continue => lemma_jump_apart(s, st),
        hir::StmtKind::Return(_) => {},
    }
}

proof fn lemma_stmts_compiled_apart(s: Seq<hir::Stmt>, st: CodeState)
    requires
        stmts_compiled(s, st) is Some,
        jumps_in_bounds(st),
        slots_are_numbers(st.locals),
        pending_apart(st),
    ensures
        pending_apart(stmts_compiled(s, st)->0),
    decreases s, 1nat,
{
    if s.len() > 0 {
        lemma_stmts_compiled_apart(s.drop_last(), st);
        lemma_stmts_compiled_frame(s.drop_last(), st);
        let st1 = stmts_compiled(s.drop_last(), st)->0;
        lemma_stmt_compiled_apart(s.last(), st1);
    }
}

proof fn lemma_if_apart(s: hir::Stmt, st: CodeState)
    requires
        s.kind is If,
        stmt_compiled(s, st) is Some,
        jumps_in_bounds(st),
        slots_are_numbers(st.locals),
        pending_apart(st),
    ensures
        pending_apart(stmt_compiled(s, st)->0),
    decreases s, 0nat,
{
    let i = s.kind->If_0;
    lemma_expr_compiled_extends(i.condition, st);
    let st1 = expr_compiled(i.condition, st)->0;
    let pos = st1.code.len() + 1int;
    let sj = emit_jump(st1, OpCode::JmpFalse);
    lemma_emit_jump_extends(st1, OpCode::JmpFalse);
    lemma_extends_trans(st, st1, sj);
    lemma_extends_frame(st, sj);
    lemma_stmt_compiled_apart(*i.body, sj);
    lemma_stmt_compiled_frame(*i.body, sj);
    let st2 = stmt_compiled(*i.body, sj)->0;
    if let Some(e) = i.else_clause {
        let sj2 = emit_jump(st2, OpCode::Jmp);
        lemma_emit_jump_extends(st2, OpCode::Jmp);
        lemma_extends_frame(st2, sj2);
        let sp = patch(sj2, pos);
        lemma_patched_len(sj2.code, pos, sj2.code.len() as int);
        lemma_stmt_compiled_apart(*e, sp);
    }
}

proof fn lemma_while_apart(s: hir::Stmt, st: CodeState)
    requires
        s.kind is While,
        stmt_compiled(s, st) is Some,
        jumps_in_bounds(st),
        slots_are_numbers(st.locals),
        pending_apart(st),
    ensures
        pending_apart(stmt_compiled(s, st)->0),
    decreases s, 0nat,
{
    let w = s.kind->While_0;
    lemma_expr_compiled_extends(w.condition, st);
    let st1 = expr_compiled(w.condition, st)->0;
    let sj = emit_jump(st1, OpCode::JmpFalse);
    lemma_emit_jump_extends(st1, OpCode::JmpFalse);
    lemma_extends_trans(st, st1, sj);
    lemma_extends_frame(st, sj);
    let sp = push_loop(sj);
    lemma_push_loop_bounds(sj);
    lemma_push_loop_apart(sj);
    lemma_stmt_compiled_apart(*w.body, sp);
    let st2 = stmt_compiled(*w.body, sp)->0;
    lemma_drop_loop_apart(st2, stmt_compiled(s, st)->0);
}

proof fn lemma_for_apart(s: hir::Stmt, st: CodeState)
    requires
        s.kind is For,
        stmt_compiled(s, st) is Some,
        jumps_in_bounds(st),
        slots_are_numbers(st.locals),
        pending_apart(st),
    ensures
        pending_apart(stmt_compiled(s, st)->0),
    decreases s, 0nat,
{
    let f = s.kind->For_0;
    lemma_for_init_frame(f.init, st);
    lemma_for_init_loops(f.init, st);
    let st1 = for_init_compiled(f.init, st)->0;
    lemma_for_cond_frame(f.condition, st1);
    let st2 = for_cond_compiled(f.condition, st1)->0;
    lemma_extends_frame(st1, st2);
    let sp = push_loop(st2);
    lemma_push_loop_bounds(st2);
    lemma_push_loop_apart(st2);
    lemma_stmt_compiled_apart(*f.body, sp);
    let st3 = stmt_compiled(*f.body, sp)->0;
    if let Some(inc) = f.increment {
        lemma_expr_compiled_extends(inc, st3);
    }
    lemma_drop_loop_apart(st3, stmt_compiled(s, st)->0);
}

proof fn lemma_jump_apart(s: hir::Stmt, st: CodeState)
    requires
        s.kind is Break || s.kind is Continue,
        stmt_compiled(s, st) is Some,
        jumps_in_bounds(st),
        pending_apart(st),
    ensures
        pending_apart(stmt_compiled(s, st)->0),
{
    let fin = stmt_compiled(s, st)->0;
    let pos = st.code.len() + 1int;
    let last = st.loops.len() - 1;
    let top = st.loops[last];
    assert(loop_apart(top));
    assert forall|j: int| 0 <= j < top.continue_jumps.len() implies #[trigger] top.continue_jumps[j]
        + 3 <= pos by {}
    assert forall|j: int| 0 <= j < top.break_jumps.len() implies #[trigger] top.break_jumps[j] + 3
        <= pos by {}
    if s.kind is Break {
        lemma_apart_push(top.break_jumps, pos);
        lemma_across_push_right(top.continue_jumps, top.break_jumps, pos);
    } else {
        lemma_apart_push(top.continue_jumps, pos);
        lemma_across_push_left(top.continue_jumps, top.break_jumps, pos);
    }
    assert forall|i: int| 0 <= i < fin.loops.len() implies loop_apart(#[trigger] fin.loops[i]) by {
        if i < last {
            assert(fin.loops[i] == st.loops[i]);
        }
    }
}

// ---------------------------------------------------------------------------
// Where the jumps of a loop lead

/// The state in which the body of the `while` statement `s`, compiled from
/// `st`, is done: the last of its loops holds the jumps that the body's
/// `break` and `continue` statements left pending.
pub open spec fn while_body_done(s: hir::Stmt, st: CodeState) -> CodeState {
    let w = s.kind->While_0;
    stmt_compiled(
        *w.body,
        push_loop(emit_jump(expr_compiled(w.condition, st)->0, OpCode::JmpFalse)),
    )->0
}

/// Once a `while` loop is compiled, the jump taken when its condition is
/// false and each of its `break` jumps lead to the end of the loop, while
/// its closing jump and each of its `continue` jumps lead back to its
/// condition. (An operand holds 24 bits, so the loop must end below that.)
pub proof fn lemma_while_jump_targets(s: hir::Stmt, st: CodeState)
    requires
        s.kind is While,
        stmt_compiled(s, st) is Some,
        jumps_in_bounds(st),
        slots_are_numbers(st.locals),
        pending_apart(st),
        stmt_compiled(s, st)->0.code.len() < 0x100_0000,
    ensures
        ({
            let fin = stmt_compiled(s, st)->0;
            let body = while_body_done(s, st);
            let top = body.loops.last();
            let start = st.code.len() as int;
            let end = fin.code.len() as int;
            &&& u24_at(fin.code, expr_compiled(s.kind->While_0.condition, st)->0.code.len() + 1int)
                == end
            &&& u24_at(fin.code, body.code.len() + 1int) == start
            &&& forall|j: int|
                0 <= j < top.break_jumps.len() ==> u24_at(fin.code, #[trigger] top.break_jumps[j])
                    == end
            &&& forall|j: int|
                0 <= j < top.continue_jumps.len() ==> u24_at(
                    fin.code,
                    #[trigger] top.continue_jumps[j],
                ) == start
        }),
{
    let w = s.kind->While_0;
    let fin = stmt_compiled(s, st)->0;
    let start = st.code.len() as int;
    lemma_expr_compiled_extends(w.condition, st);
    let st1 = expr_compiled(w.condition, st)->0;
    let exit = st1.code.len() + 1int;
    let sj = emit_jump(st1, OpCode::JmpFalse);
    lemma_emit_jump_extends(st1, OpCode::JmpFalse);
    lemma_extends_trans(st, st1, sj);
    lemma_extends_frame(st, sj);
    lemma_prefix_refl(sj.code);
    lemma_prefix_refl(sj.consts);
    lemma_loop_top(sj, sj, *w.body);
    let sp = push_loop(sj);
    lemma_push_loop_bounds(sj);
    lemma_push_loop_apart(sj);
    lemma_stmt_compiled_apart(*w.body, sp);
    let st2 = stmt_compiled(*w.body, sp)->0;
    let top = st2.loops.last();
    assert(loop_apart(top)) by {
        assert(top == st2.loops[st2.loops.len() - 1]);
    }
    let cs = top.continue_jumps;
    let bs = top.break_jumps;
    let sb = emit_jump_back(st2, OpCode::Jmp, start);
    let back = st2.code.len() + 1int;
    let end = sb.code.len() as int;
    let se = patch(sb, exit);
    lemma_patched_len(sb.code, exit, end);
    let c1 = patch_all(se.code, cs, start);
    lemma_patch_all_len(se.code, cs, start);
    lemma_patch_all_len(c1, bs, end);
    assert(fin.code == patch_all(c1, bs, end));
    // the jump out of the loop
    lemma_patched_reads_target(sb.code, exit, end);
    lemma_patch_all_keeps_operand(se.code, cs, start, exit);
    lemma_patch_all_keeps_operand(c1, bs, end, exit);
    // the closing jump
    lemma_written_operand(st2.code, OpCode::Jmp.spec_byte(), start);
    assert(se.code[back] == sb.code[back]);
    assert(se.code[back + 1] == sb.code[back + 1]);
    assert(se.code[back + 2] == sb.code[back + 2]);
    lemma_patch_all_keeps_operand(se.code, cs, start, back);
    lemma_patch_all_keeps_operand(c1, bs, end, back);
    // the pending jumps of the body
    assert forall|j: int| 0 <= j < bs.len() implies u24_at(fin.code, #[trigger] bs[j]) == end by {
        lemma_patch_all_reads(c1, bs, end, j);
    }
    assert forall|j: int| 0 <= j < cs.len() implies u24_at(fin.code, #[trigger] cs[j]) == start by {
        lemma_patch_all_reads(se.code, cs, start, j);
        assert forall|m: int| 0 <= m < bs.len() implies #[trigger] bs[m] + 3 <= cs[j] || cs[j] + 3
            <= bs[m] by {}
        lemma_patch_all_keeps_operand(c1, bs, end, cs[j]);
    }
}

/// The state in which the initialiser of the `for` statement `s`, compiled
/// from `st`, is done: the loop starts here.
pub open spec fn for_init_done(s: hir::Stmt, st: CodeState) -> CodeState {
    for_init_compiled(s.kind->For_0.init, st)->0
}

/// The state in which the condition of the `for` statement `s` and the jump
/// out of the loop are done.
pub open spec fn for_cond_done(s: hir::Stmt, st: CodeState) -> CodeState {
    for_cond_compiled(s.kind->For_0.condition, for_init_done(s, st))->0
}

/// The state in which the body of the `for` statement `s` is done: the last
/// of its loops holds the jumps that the body's `break` and `continue`
/// statements left pending. The increment starts here.
pub open spec fn for_body_done(s: hir::Stmt, st: CodeState) -> CodeState {
    stmt_compiled(*s.kind->For_0.body, push_loop(for_cond_done(s, st)))->0
}

/// The state in which the increment of the `for` statement `s` is done.
pub open spec fn for_increment_done(s: hir::Stmt, st: CodeState) -> CodeState {
    opt_expr_compiled(s.kind->For_0.increment, for_body_done(s, st))->0
}

/// Once a `for` loop is compiled, the jump taken when its condition is false
/// and each of its `break` jumps lead to the end of the loop, each of its
/// `continue` jumps leads to its increment, and its closing jump leads back
/// to its condition. (An operand holds 24 bits, so the loop must end below
/// that.)
pub proof fn lemma_for_jump_targets(s: hir::Stmt, st: CodeState)
    requires
        s.kind is For,
        stmt_compiled(s, st) is Some,
        jumps_in_bounds(st),
        slots_are_numbers(st.locals),
        pending_apart(st),
        stmt_compiled(s, st)->0.code.len() < 0x100_0000,
    ensures
        ({
            let fin = stmt_compiled(s, st)->0;
            let body = for_body_done(s, st);
            let top = body.loops.last();
            let start = for_init_done(s, st).code.len() as int;
            let next = body.code.len() as int;
            let end = fin.code.len() as int;
            &&& s.kind->For_0.condition is Some ==> u24_at(
                fin.code,
                for_cond_done(s, st).code.len() - 3int,
            ) == end
            &&& u24_at(fin.code, for_increment_done(s, st).code.len() + 1int) == start
            &&& forall|j: int|
                0 <= j < top.break_jumps.len() ==> u24_at(fin.code, #[trigger] top.break_jumps[j])
                    == end
            &&& forall|j: int|
                0 <= j < top.continue_jumps.len() ==> u24_at(
                    fin.code,
                    #[trigger] top.continue_jumps[j],
                ) == next
        }),
{
    let f = s.kind->For_0;
    let fin = stmt_compiled(s, st)->0;
    lemma_for_init_frame(f.init, st);
    lemma_for_init_loops(f.init, st);
    let st1 = for_init_compiled(f.init, st)->0;
    let start = st1.code.len() as int;
    lemma_for_cond_frame(f.condition, st1);
    let st2 = for_cond_compiled(f.condition, st1)->0;
    let exit = st2.code.len() - 3int;
    if let Some(c) = f.condition {
        lemma_emit_jump_extends(expr_compiled(c, st1)->0, OpCode::JmpFalse);
    }
    lemma_extends_frame(st1, st2);
    lemma_prefix_refl(st2.code);
    lemma_prefix_refl(st2.consts);
    lemma_loop_top(st2, st2, *f.body);
    let sp = push_loop(st2);
    lemma_push_loop_bounds(st2);
    lemma_push_loop_apart(st2);
    lemma_stmt_compiled_apart(*f.body, sp);
    let st3 = stmt_compiled(*f.body, sp)->0;
    let next = st3.code.len() as int;
    let top = st3.loops.last();
    assert(loop_apart(top)) by {
        assert(top == st3.loops[st3.loops.len() - 1]);
    }
    let cs = top.continue_jumps;
    let bs = top.break_jumps;
    let st4 = opt_expr_compiled(f.increment, st3)->0;
    if let Some(inc) = f.increment {
        lemma_expr_compiled_extends(inc, st3);
    }
    assert(st3.code.len() <= st4.code.len());
    let back = st4.code.len() + 1int;
    let st5 = emit_jump_back(st4, OpCode::Jmp, start);
    let st6 = if f.condition is Some {
        patch(st5, exit)
    } else {
        st5
    };
    let end = st5.code.len() as int;
    if f.condition is Some {
        lemma_patched_len(st5.code, exit, end);
    }
    let c1 = patch_all(st6.code, bs, end);
    lemma_patch_all_len(st6.code, bs, end);
    lemma_patch_all_len(c1, cs, next);
    assert(fin.code == patch_all(c1, cs, next));
    // the closing jump
    lemma_written_operand(st4.code, OpCode::Jmp.spec_byte(), start);
    if f.condition is Some {
        // the jump out of the loop
        lemma_patched_reads_target(st5.code, exit, end);
        lemma_patch_all_keeps_operand(st6.code, bs, end, exit);
        lemma_patch_all_keeps_operand(c1, cs, next, exit);
        assert(st6.code[back] == st5.code[back]);
        assert(st6.code[back + 1] == st5.code[back + 1]);
        assert(st6.code[back + 2] == st5.code[back + 2]);
    }
    lemma_patch_all_keeps_operand(st6.code, bs, end, back);
    lemma_patch_all_keeps_operand(c1, cs, next, back);
    // the pending jumps of the body
    assert forall|j: int| 0 <= j < cs.len() implies u24_at(fin.code, #[trigger] cs[j]) == next by {
        lemma_patch_all_reads(c1, cs, next, j);
    }
    assert forall|j: int| 0 <= j < bs.len() implies u24_at(fin.code, #[trigger] bs[j]) == end by {
        lemma_patch_all_reads(st6.code, bs, end, j);
        assert forall|m: int| 0 <= m < cs.len() implies #[trigger] cs[m] + 3 <= bs[j] || bs[j] + 3
            <= cs[m] by {}
        lemma_patch_all_keeps_operand(c1, cs, next, bs[j]);
    }
}

} // verus!
