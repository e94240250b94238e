//! The bytecode compiler: emits the instructions of statements and
//! expressions of the intermediate form into a chunk.

use vstd::prelude::*;
use std::collections::HashMap;
use crate::chunk::Chunk;
use crate::compile_laws::{
    lemma_bounds_grow, lemma_emit_jump_extends, lemma_expr_compiled_extends, lemma_extends_frame,
    lemma_patch_all_keeps, lemma_push_loop_bounds, lemma_stmt_compiled_frame,
    lemma_stmts_prefix_some, lemma_stmts_step, slots_are_numbers,
};
use crate::compile_spec::{
    arith_op, compare_op, declare, emit, emit_jump, emit_u24, expr_compiled, for_cond_compiled,
    for_init_compiled, jumps_in_bounds, load_const, load_op, patch_all, print_op, push_loop,
    slot_of, stmt_compiled, stmts_compiled, store_op, vardecl_compiled, CodeState, LoopView,
};
use crate::hir;
use crate::ids::VariableId;
use crate::opcodes::OpCode;
use crate::types::Type;
use crate::value::{Value, DOUBLE_ONE_BITS};

pub use crate::compile_spec::LocalSlot;

verus! {

broadcast use vstd::std_specs::hash::group_hash_axioms;

impl LocalSlot {
    /// The slot number as an operand. Slots above `u32::MAX` have no operand.
    pub fn into_u32(self) -> (v: u32)
        requires
            self.0 <= u32::MAX,
        ensures
            v == self.0,
    {
        self.0 as u32
    }
}

/// The jumps of a loop being compiled that wait for their target: those of
/// its `continue` statements and those of its `break` statements.
#[derive(Debug)]
pub struct LoopContext {
    continue_jumps: Vec<usize>,
    break_jumps: Vec<usize>,
}

impl View for LoopContext {
    type V = LoopView;

    closed spec fn view(&self) -> LoopView {
        LoopView {
            continue_jumps: self.continue_jumps@.map_values(|p: usize| p as int),
            break_jumps: self.break_jumps@.map_values(|p: usize| p as int),
        }
    }
}

/// Compiles statements and expressions into a chunk. It remembers the slot
/// of every local variable declared so far and, for each loop being
/// compiled, the jumps that wait for the loop's end or its next iteration.
pub struct Compiler {
    locals: HashMap<usize, LocalSlot>,
    loop_stack: Vec<LoopContext>,
}

impl Compiler {
    /// The slot of every local declared so far, by the local's number.
    pub closed spec fn locals_view(&self) -> Map<usize, LocalSlot> {
        self.locals@
    }

    /// The pending jumps of each loop being compiled, outermost first.
    pub closed spec fn loops_view(&self) -> Seq<LoopView> {
        self.loop_stack@.map_values(|c: LoopContext| c@)
    }

    /// The state of a compilation into `chunk`.
    pub open spec fn state(&self, chunk: &Chunk) -> CodeState {
        CodeState {
            code: chunk.bytecode@,
            consts: chunk.constants@,
            locals: self.locals_view(),
            loops: self.loops_view(),
        }
    }

    /// A compiler that knows no local and is inside no loop.
    pub fn new() -> (c: Compiler)
        ensures
            c.locals_view() == Map::<usize, LocalSlot>::empty(),
            c.loops_view() == Seq::<LoopView>::empty(),
    {
        let c = Compiler { locals: HashMap::new(), loop_stack: Vec::new() };
        assert(c.loop_stack@.map_values(|c: LoopContext| c@) =~= Seq::<LoopView>::empty());
        c
    }

    fn emit_op(&self, chunk: &mut Chunk, op: OpCode)
        ensures
            self.state(final(chunk)) == emit(self.state(old(chunk)), op),
    {
        chunk.write(op.as_byte());
    }

    fn emit_operand(&self, chunk: &mut Chunk, v: u32)
        ensures
            self.state(final(chunk)) == emit_u24(self.state(old(chunk)), v),
    {
        chunk.write_u24(v);
    }

    /// `LoadConst` of `value`, which is added to the constants.
    fn emit_load_const(&self, chunk: &mut Chunk, value: Value)
        ensures
            self.state(final(chunk)) == load_const(self.state(old(chunk)), value),
    {
        chunk.write(OpCode::LoadConst.as_byte());
        let idx = chunk.write_constant(value);
        chunk.write_u24(idx as u32);
    }

    fn arith_opcode(kind: hir::BinaryOpKind, ty: Type) -> (r: Option<OpCode>)
        ensures
            r == arith_op(kind, ty),
    {
        match (kind, ty) {
            (hir::BinaryOpKind::Add, Type::Int) => Some(OpCode::I32Add),
            (hir::BinaryOpKind::Add, Type::Double) => Some(OpCode::F64Add),
            (hir::BinaryOpKind::Sub, Type::Int) => Some(OpCode::I32Sub),
            (hir::BinaryOpKind::Sub, Type::Double) => Some(OpCode::F64Sub),
            (hir::BinaryOpKind::Mul, Type::Int) => Some(OpCode::I32Mul),
            (hir::BinaryOpKind::Mul, Type::Double) => Some(OpCode::F64Mul),
            (hir::BinaryOpKind::Div, Type::Int) => Some(OpCode::I32Div),
            (hir::BinaryOpKind::Div, Type::Double) => Some(OpCode::F64Div),
            _ => None,
        }
    }

    fn compare_opcode(kind: hir::BinaryOpKind, ty: Type) -> (r: Option<OpCode>)
        ensures
            r == compare_op(kind, ty),
    {
        match (kind, ty) {
            (hir::BinaryOpKind::BangEq, Type::Int) => Some(OpCode::I32NEqual),
            (hir::BinaryOpKind::BangEq, Type::Bool) => Some(OpCode::BNEqual),
            (hir::BinaryOpKind::BangEq, Type::Double) => Some(OpCode::F64NEqual),
            (hir::BinaryOpKind::EqEq, Type::Int) => Some(OpCode::I32Equal),
            (hir::BinaryOpKind::EqEq, Type::Bool) => Some(OpCode::BEqual),
            (hir::BinaryOpKind::EqEq, Type::Double) => Some(OpCode::F64Equal),
            (hir::BinaryOpKind::GreaterEq, Type::Int) => Some(OpCode::I32GreaterEq),
            (hir::BinaryOpKind::GreaterEq, Type::Double) => Some(OpCode::F64GreaterEq),
            (hir::BinaryOpKind::GreaterThan, Type::Int) => Some(OpCode::I32Greater),
            (hir::BinaryOpKind::GreaterThan, Type::Double) => Some(OpCode::F64Greater),
            (hir::BinaryOpKind::LessEq, Type::Int) => Some(OpCode::I32LessEq),
            (hir::BinaryOpKind::LessEq, Type::Double) => Some(OpCode::F64LessEq),
            (hir::BinaryOpKind::LessThan, Type::Int) => Some(OpCode::I32Less),
            (hir::BinaryOpKind::LessThan, Type::Double) => Some(OpCode::F64Less),
            _ => None,
        }
    }

    fn store_opcode(ty: Type) -> (r: Option<OpCode>)
        ensures
            r == store_op(ty),
    {
        match ty {
            Type::Int => Some(OpCode::I32StoreLocal),
            Type::Bool => Some(OpCode::BStoreLocal),
            Type::Double => Some(OpCode::F64StoreLocal),
            _ => None,
        }
    }

    fn load_opcode(ty: Type) -> (r: Option<OpCode>)
        ensures
            r == load_op(ty),
    {
        match ty {
            Type::Int => Some(OpCode::I32LoadLocal),
            Type::Bool => Some(OpCode::BLoadLocal),
            Type::Double => Some(OpCode::F64LoadLocal),
            _ => None,
        }
    }

    fn print_opcode(ty: Type) -> (r: Option<OpCode>)
        ensures
            r == print_op(ty),
    {
        match ty {
            Type::Int => Some(OpCode::I32Print),
            Type::Bool => Some(OpCode::BPrint),
            Type::Double => Some(OpCode::F64Print),
            _ => None,
        }
    }

    /// The slot of `v`, where it is a local that has one.
    fn slot(&self, v: VariableId) -> (r: Option<LocalSlot>)
        ensures
            forall|chunk: Chunk| r == slot_of(#[trigger] self.state(&chunk), v),
    {
        match v {
            VariableId::Local(l) => match self.locals.get(&l.0) {
                Some(s) => Some(*s),
                None => None,
            },
            VariableId::Global(_) => None,
        }
    }

    /// Emits the instructions that compute `expr`.
    #[verifier::spinoff_prover]
    pub fn compile_expr(&mut self, expr: &hir::Expr, chunk: &mut Chunk)
        requires
            expr_compiled(*expr, old(self).state(old(chunk))) is Some,
        ensures
            final(self).state(final(chunk)) == expr_compiled(*expr, old(self).state(old(chunk)))->0,
        decreases expr,
    {
        match &expr.kind {
            hir::ExprKind::Literal(lit) => {
                let value = match lit.kind {
                    hir::LiteralKind::Int(i) => Value::Int(i),
                    hir::LiteralKind::Bool(b) => Value::Bool(b),
                    hir::LiteralKind::Float(f) => Value::Double(f),
                };
                self.emit_load_const(chunk, value);
            },
            hir::ExprKind::BinaryOp(binop) => {
                match binop.kind {
                    hir::BinaryOpKind::And | hir::BinaryOpKind::Or => {
                        let jump = match binop.kind {
                            hir::BinaryOpKind::And => OpCode::JmpFalse,
                            _ => OpCode::JmpTrue,
                        };
                        self.compile_expr(&binop.left, chunk);
                        self.emit_op(chunk, OpCode::Dup);
                        let ghost st3 = emit(emit_jump(self.state(chunk), jump), OpCode::Pop);
                        let pos = chunk.write_jump(jump);
                        self.emit_op(chunk, OpCode::Pop);
                        assert(self.state(chunk) == st3);
                        self.compile_expr(&binop.right, chunk);
                        proof {
                            lemma_expr_compiled_extends(*binop.right, st3);
                        }
                        chunk.patch_jump(pos);
                    },
                    _ => {
                        self.compile_expr(&binop.left, chunk);
                        self.compile_expr(&binop.right, chunk);
                        let op = match binop.kind {
                            hir::BinaryOpKind::Add | hir::BinaryOpKind::Sub
                            | hir::BinaryOpKind::Mul | hir::BinaryOpKind::Div => Self::arith_opcode(
                                binop.kind,
                                expr.ty,
                            ),
                            _ => Self::compare_opcode(binop.kind, binop.left.ty),
                        };
                        self.emit_op(chunk, op.unwrap());
                    },
                }
            },
            hir::ExprKind::UnaryOp(unary) => {
                self.compile_expr(&unary.operand, chunk);
                let ty = unary.operand.ty;
                match unary.kind {
                    hir::UnaryOpKind::Negate => {
                        let op = match ty {
                            Type::Int => OpCode::I32Negate,
                            _ => OpCode::F64Negate,
                        };
                        self.emit_op(chunk, op);
                    },
                    _ => {
                        let (one, add, sub, store) = match ty {
                            Type::Int => (
                                Value::Int(1),
                                OpCode::I32Add,
                                OpCode::I32Sub,
                                OpCode::I32StoreLocal,
                            ),
                            _ => (
                                Value::Double(DOUBLE_ONE_BITS),
                                OpCode::F64Add,
                                OpCode::F64Sub,
                                OpCode::F64StoreLocal,
                            ),
                        };
                        let var = match &unary.operand.kind {
                            hir::ExprKind::Variable(v) => v.id,
                            _ => {
                                // only a variable can be incremented or decremented
                                proof {
                                    assert(false);
                                }
                                return;
                            },
                        };
                        let slot = self.slot(var).unwrap();
                        match unary.kind {
                            hir::UnaryOpKind::PostDecrement => {
                                self.emit_op(chunk, OpCode::Dup);
                                self.emit_load_const(chunk, one);
                                self.emit_op(chunk, sub);
                                self.emit_op(chunk, store);
                            },
                            hir::UnaryOpKind::PostIncrement => {
                                self.emit_op(chunk, OpCode::Dup);
                                self.emit_load_const(chunk, one);
                                self.emit_op(chunk, add);
                                self.emit_op(chunk, store);
                            },
                            hir::UnaryOpKind::PreDecrement => {
                                self.emit_load_const(chunk, one);
                                self.emit_op(chunk, sub);
                                self.emit_op(chunk, OpCode::Dup);
                                self.emit_op(chunk, store);
                            },
                            _ => {
                                self.emit_load_const(chunk, one);
                                self.emit_op(chunk, add);
                                self.emit_op(chunk, OpCode::Dup);
                                self.emit_op(chunk, store);
                            },
                        }
                        self.emit_operand(chunk, slot.0 as u32);
                    },
                }
            },
            hir::ExprKind::VarAssign(assign) => {
                self.compile_expr(&assign.value, chunk);
                let var = match &assign.target.kind {
                    hir::ExprKind::Variable(v) => v.id,
                    _ => {
                        // only a variable can be assigned to
                        proof {
                            assert(false);
                        }
                        return;
                    },
                };
                self.emit_op(chunk, OpCode::Dup);
                let op = Self::store_opcode(assign.target.ty).unwrap();
                self.emit_op(chunk, op);
                let slot = self.slot(var).unwrap();
                self.emit_operand(chunk, slot.into_u32());
            },
            hir::ExprKind::Variable(v) => {
                let op = Self::load_opcode(expr.ty).unwrap();
                self.emit_op(chunk, op);
                let slot = self.slot(v.id).unwrap();
                self.emit_operand(chunk, slot.into_u32());
            },
            hir::ExprKind::Call(_) => {
                proof {
                    assert(false);
                }
            },
            hir::ExprKind::Conversion(conversion) => {
                self.compile_expr(&conversion.expr, chunk);
                self.emit_op(chunk, OpCode::I32ToF64);
            },
        }
    }

    /// Emits a declaration: its initialiser, or the uninitialised value, is
    /// stored in the variable's slot, which is recorded.
    pub fn compile_var_decl(&mut self, decl: &hir::VarDecl, chunk: &mut Chunk)
        requires
            vardecl_compiled(*decl, old(self).state(old(chunk))) is Some,
        ensures
            final(self).state(final(chunk)) == vardecl_compiled(*decl, old(self).state(old(chunk)))->0,
    {
        let localid = decl.id.0;
        match &decl.init {
            Some(init) => {
                self.compile_expr(init, chunk);
                let ghost before = self.state(chunk);
                self.locals.insert(localid, LocalSlot(localid));
                assert(self.state(chunk) == declare(before, localid));
                let op = Self::store_opcode(decl.ty).unwrap();
                self.emit_op(chunk, op);
                self.emit_operand(chunk, LocalSlot(localid).into_u32());
            },
            None => {
                let ghost before = self.state(chunk);
                self.locals.insert(localid, LocalSlot(localid));
                assert(self.state(chunk) == declare(before, localid));
                self.emit_load_const(chunk, Value::Uninitialized);
                let op = match decl.ty {
                    Type::Int => OpCode::I32StoreLocal,
                    _ => OpCode::BStoreLocal,
                };
                self.emit_op(chunk, op);
                self.emit_operand(chunk, LocalSlot(localid).into_u32());
            },
        }
    }

    /// Makes every jump operand in `jumps`, first to last, point to `target`.
    fn patch_jumps_to(chunk: &mut Chunk, jumps: &Vec<usize>, target: usize)
        requires
            forall|j: int| 0 <= j < jumps@.len() ==> #[trigger] jumps@[j] + 3 <= old(chunk).bytecode@.len(),
        ensures
            final(chunk).bytecode@ == patch_all(
                old(chunk).bytecode@,
                jumps@.map_values(|p: usize| p as int),
                target as int,
            ),
            final(chunk).constants@ == old(chunk).constants@,
    {
        let ghost ps = jumps@.map_values(|p: usize| p as int);
        let ghost code0 = chunk.bytecode@;
        let mut k: usize = 0;
        assert(ps.take(0) =~= Seq::<int>::empty());
        while k < jumps.len()
            invariant
                k <= jumps@.len(),
                ps == jumps@.map_values(|p: usize| p as int),
                forall|j: int| 0 <= j < jumps@.len() ==> #[trigger] jumps@[j] + 3 <= code0.len(),
                chunk.bytecode@ == patch_all(code0, ps.take(k as int), target as int),
                chunk.bytecode@.len() == code0.len(),
                chunk.constants@ == old(chunk).constants@,
            decreases jumps@.len() - k,
        {
            assert(ps.take(k + 1).drop_last() =~= ps.take(k as int));
            chunk.patch_jump_to(jumps[k], target);
            k = k + 1;
        }
        assert(ps.take(jumps@.len() as int) =~= ps);
    }

    /// Emits the statements of a block, first to last.
    fn compile_block(&mut self, stmts: &Vec<hir::Stmt>, chunk: &mut Chunk)
        requires
            stmts_compiled(stmts@, old(self).state(old(chunk))) is Some,
            jumps_in_bounds(old(self).state(old(chunk))),
            slots_are_numbers(old(self).locals_view()),
        ensures
            final(self).state(final(chunk)) == stmts_compiled(stmts@, old(self).state(old(chunk)))->0,
        decreases stmts, 0nat,
    {
        let ghost st0 = self.state(chunk);
        let ghost s = stmts@;
        let mut i: usize = 0;
        assert(s.take(0) =~= Seq::<hir::Stmt>::empty());
        while i < stmts.len()
            invariant
                i <= s.len(),
                s == stmts@,
                stmts_compiled(s, st0) is Some,
                stmts_compiled(s.take(i as int), st0) is Some,
                self.state(chunk) == stmts_compiled(s.take(i as int), st0)->0,
                jumps_in_bounds(self.state(chunk)),
                slots_are_numbers(self.locals_view()),
            decreases s.len() - i,
        {
            proof {
                lemma_stmts_prefix_some(s, st0, i + 1);
                lemma_stmts_step(s, st0, i as int);
                vstd::std_specs::vec::axiom_vec_index_decreases(*stmts, i as int);
            }
            let ghost before = self.state(chunk);
            self.compile_stmt(&stmts[i], chunk);
            proof {
                lemma_stmt_compiled_frame(s[i as int], before);
            }
            i = i + 1;
        }
        assert(s.take(s.len() as int) =~= s);
    }

    /// Adds `jump` to the `break` jumps of the innermost loop, or to its
    /// `continue` jumps.
    fn record_jump(&mut self, jump: usize, is_break: bool)
        requires
            old(self).loops_view().len() > 0,
        ensures
            final(self).locals_view() == old(self).locals_view(),
            ({
                let loops = old(self).loops_view();
                let top = loops.last();
                final(self).loops_view() == loops.update(
                    loops.len() - 1,
                    if is_break {
                        LoopView { break_jumps: top.break_jumps.push(jump as int), ..top }
                    } else {
                        LoopView { continue_jumps: top.continue_jumps.push(jump as int), ..top }
                    },
                )
            }),
    {
        let ghost old_stack = self.loop_stack@;
        let mut top = self.loop_stack.pop().unwrap();
        let ghost old_top = top@;
        if is_break {
            top.break_jumps.push(jump);
            assert(top.break_jumps@.map_values(|p: usize| p as int) =~= old_top.break_jumps.push(
                jump as int,
            ));
        } else {
            top.continue_jumps.push(jump);
            assert(top.continue_jumps@.map_values(|p: usize| p as int)
                =~= old_top.continue_jumps.push(jump as int));
        }
        self.loop_stack.push(top);
        assert(self.loop_stack@.map_values(|c: LoopContext| c@) =~= old_stack.map_values(
            |c: LoopContext| c@,
        ).update(old_stack.len() - 1, top@));
    }

    /// Enters a loop: a fresh context for its jumps.
    fn enter_loop(&mut self)
        ensures
            final(self).locals_view() == old(self).locals_view(),
            final(self).loops_view() == old(self).loops_view().push(
                LoopView { continue_jumps: Seq::empty(), break_jumps: Seq::empty() },
            ),
    {
        let ghost old_stack = self.loop_stack@;
        let ctx = LoopContext { continue_jumps: Vec::new(), break_jumps: Vec::new() };
        assert(ctx@.continue_jumps =~= Seq::<int>::empty());
        assert(ctx@.break_jumps =~= Seq::<int>::empty());
        self.loop_stack.push(ctx);
        assert(self.loop_stack@.map_values(|c: LoopContext| c@) =~= old_stack.map_values(
            |c: LoopContext| c@,
        ).push(ctx@));
    }

    /// Leaves the innermost loop, handing back its context.
    fn leave_loop(&mut self) -> (ctx: LoopContext)
        requires
            old(self).loops_view().len() > 0,
        ensures
            final(self).locals_view() == old(self).locals_view(),
            final(self).loops_view() == old(self).loops_view().drop_last(),
            ctx@ == old(self).loops_view().last(),
    {
        let ghost old_stack = self.loop_stack@;
        let ctx = self.loop_stack.pop().unwrap();
        assert(self.loop_stack@.map_values(|c: LoopContext| c@) =~= old_stack.map_values(
            |c: LoopContext| c@,
        ).drop_last());
        ctx
    }

    /// Emits an `if`: its condition, a jump past the body when it is false,
    /// the body, and for an `else` a jump past it at the end of the body.
    #[verifier::spinoff_prover]
    fn compile_if(&mut self, stmt: &hir::Stmt, chunk: &mut Chunk)
        requires
            stmt.kind is If,
            stmt_compiled(*stmt, old(self).state(old(chunk))) is Some,
            jumps_in_bounds(old(self).state(old(chunk))),
            slots_are_numbers(old(self).locals_view()),
        ensures
            final(self).state(final(chunk)) == stmt_compiled(*stmt, old(self).state(old(chunk)))->0,
        decreases stmt, 0nat,
    {
        let ghost st0 = self.state(chunk);
        let if_stmt = match &stmt.kind {
            hir::StmtKind::If(i) => i,
            _ => {
                proof {
                    assert(false);
                }
                return;
            },
        };
        self.compile_expr(&if_stmt.condition, chunk);
        proof {
            lemma_expr_compiled_extends(if_stmt.condition, st0);
        }
        let pos = chunk.write_jump(OpCode::JmpFalse);
        let ghost sj = self.state(chunk);
        proof {
            lemma_emit_jump_extends(expr_compiled(if_stmt.condition, st0)->0, OpCode::JmpFalse);
            crate::compile_laws::lemma_extends_trans(st0, expr_compiled(if_stmt.condition, st0)->0, sj);
            lemma_extends_frame(st0, sj);
        }
        self.compile_stmt(&if_stmt.body, chunk);
        proof {
            lemma_stmt_compiled_frame(*if_stmt.body, sj);
        }
        match &if_stmt.else_clause {
            Some(else_body) => {
                let end_jump = chunk.write_jump(OpCode::Jmp);
                chunk.patch_jump(pos);
                let ghost sp = self.state(chunk);
                proof {
                    lemma_bounds_grow(stmt_compiled(*if_stmt.body, sj)->0, sp);
                }
                self.compile_stmt(else_body, chunk);
                proof {
                    lemma_stmt_compiled_frame(**else_body, sp);
                }
                chunk.patch_jump(end_jump);
            },
            None => {
                chunk.patch_jump(pos);
            },
        }
    }

    /// Emits a `while` loop: its condition, a jump out when it is false, its
    /// body and a jump back to the condition; `continue` jumps go to the
    /// condition and `break` jumps out.
    #[verifier::spinoff_prover]
    fn compile_while(&mut self, stmt: &hir::Stmt, chunk: &mut Chunk)
        requires
            stmt.kind is While,
            stmt_compiled(*stmt, old(self).state(old(chunk))) is Some,
            jumps_in_bounds(old(self).state(old(chunk))),
            slots_are_numbers(old(self).locals_view()),
        ensures
            final(self).state(final(chunk)) == stmt_compiled(*stmt, old(self).state(old(chunk)))->0,
        decreases stmt, 0nat,
    {
        let ghost st0 = self.state(chunk);
        let while_loop = match &stmt.kind {
            hir::StmtKind::While(w) => w,
            _ => {
                proof {
                    assert(false);
                }
                return;
            },
        };
        let loop_start = chunk.bytecode.len();
        self.compile_expr(&while_loop.condition, chunk);
        let ghost st1 = self.state(chunk);
        let exit_jump = chunk.write_jump(OpCode::JmpFalse);
        let ghost sj = self.state(chunk);
        proof {
            lemma_expr_compiled_extends(while_loop.condition, st0);
            lemma_emit_jump_extends(st1, OpCode::JmpFalse);
            crate::compile_laws::lemma_extends_trans(st0, st1, sj);
            lemma_extends_frame(st0, sj);
            lemma_push_loop_bounds(sj);
        }
        self.enter_loop();
        assert(self.state(chunk) == push_loop(sj));
        self.compile_stmt(&while_loop.body, chunk);
        let ghost st2 = self.state(chunk);
        proof {
            lemma_stmt_compiled_frame(*while_loop.body, push_loop(sj));
        }
        chunk.write_jump_back(OpCode::Jmp, loop_start);
        chunk.patch_jump(exit_jump);
        let ghost se = self.state(chunk);
        proof {
            lemma_bounds_grow(st2, se);
        }
        let loop_context = self.leave_loop();
        assert(forall|j: int| 0 <= j < loop_context.continue_jumps@.len() ==>
            #[trigger] loop_context.continue_jumps@[j] == loop_context@.continue_jumps[j]);
        assert(forall|j: int| 0 <= j < loop_context.break_jumps@.len() ==>
            #[trigger] loop_context.break_jumps@[j] == loop_context@.break_jumps[j]);
        assert(se.loops.last() == se.loops[se.loops.len() - 1]);
        Self::patch_jumps_to(chunk, &loop_context.continue_jumps, loop_start);
        let end = chunk.bytecode.len();
        proof {
            lemma_patch_all_keeps(se.code, Seq::empty(), se.loops.last().continue_jumps, loop_start as int);
        }
        Self::patch_jumps_to(chunk, &loop_context.break_jumps, end);
    }

    /// Emits a `for` loop: its initialiser, its condition and a jump out when
    /// it is false, its body, its increment and a jump back to the
    /// condition; `break` jumps go out and `continue` jumps to the increment.
    #[verifier::spinoff_prover]
    #[verifier::rlimit(30)]
    fn compile_for(&mut self, stmt: &hir::Stmt, chunk: &mut Chunk)
        requires
            stmt.kind is For,
            stmt_compiled(*stmt, old(self).state(old(chunk))) is Some,
            jumps_in_bounds(old(self).state(old(chunk))),
            slots_are_numbers(old(self).locals_view()),
        ensures
            final(self).state(final(chunk)) == stmt_compiled(*stmt, old(self).state(old(chunk)))->0,
        decreases stmt, 0nat,
    {
        let ghost st0 = self.state(chunk);
        proof {
            lemma_stmt_compiled_frame(*stmt, st0);
        }
        let for_loop = match &stmt.kind {
            hir::StmtKind::For(f) => f,
            _ => {
                proof {
                    assert(false);
                }
                return;
            },
        };
        match &for_loop.init {
            Some(init) => match &init.kind {
                hir::ForInitKind::Decl(decl) => {
                    self.compile_var_decl(decl, chunk);
                },
                hir::ForInitKind::Expr(expr) => {
                    self.compile_expr(expr, chunk);
                },
            },
            None => {},
        }
        let ghost st1 = self.state(chunk);
        assert(st1 == for_init_compiled(for_loop.init, st0)->0);
        proof {
            crate::compile_laws::lemma_for_init_frame(for_loop.init, st0);
        }
        let loop_start = chunk.bytecode.len();
        let jump_out = match &for_loop.condition {
            Some(cond) => {
                self.compile_expr(cond, chunk);
                proof {
                    lemma_expr_compiled_extends(*cond, st1);
                    lemma_emit_jump_extends(self.state(chunk), OpCode::JmpFalse);
                }
                Some(chunk.write_jump(OpCode::JmpFalse))
            },
            None => None,
        };
        let ghost st2 = self.state(chunk);
        assert(st2 == for_cond_compiled(for_loop.condition, st1)->0);
        proof {
            crate::compile_laws::lemma_for_cond_frame(for_loop.condition, st1);
            lemma_push_loop_bounds(st2);
        }
        self.enter_loop();
        assert(self.state(chunk) == push_loop(st2));
        self.compile_stmt(&for_loop.body, chunk);
        let ghost st3 = self.state(chunk);
        proof {
            lemma_stmt_compiled_frame(*for_loop.body, push_loop(st2));
        }
        let continue_jump_pos = chunk.bytecode.len();
        match &for_loop.increment {
            Some(incre) => {
                self.compile_expr(incre, chunk);
                proof {
                    lemma_expr_compiled_extends(*incre, st3);
                }
            },
            None => {},
        }
        chunk.write_jump_back(OpCode::Jmp, loop_start);
        match jump_out {
            Some(jump_out) => {
                chunk.patch_jump(jump_out);
            },
            None => {},
        }
        let ghost st6 = self.state(chunk);
        assert(st6.loops == st3.loops);
        proof {
            lemma_bounds_grow(st3, st6);
        }
        let loop_context = self.leave_loop();
        assert(forall|j: int| 0 <= j < loop_context.continue_jumps@.len() ==>
            #[trigger] loop_context.continue_jumps@[j] == loop_context@.continue_jumps[j]);
        assert(forall|j: int| 0 <= j < loop_context.break_jumps@.len() ==>
            #[trigger] loop_context.break_jumps@[j] == loop_context@.break_jumps[j]);
        assert(st6.loops.last() == st6.loops[st6.loops.len() - 1]);
        let end = chunk.bytecode.len();
        Self::patch_jumps_to(chunk, &loop_context.break_jumps, end);
        proof {
            lemma_patch_all_keeps(st6.code, Seq::empty(), st6.loops.last().break_jumps, end as int);
        }
        Self::patch_jumps_to(chunk, &loop_context.continue_jumps, continue_jump_pos);
    }

    /// Emits the instructions of `stmt`. A `while` or `for` loop patches the
    /// jumps of the `break` and `continue` statements of its body once its
    /// end is known.
    #[verifier::spinoff_prover]
    pub fn compile_stmt(&mut self, stmt: &hir::Stmt, chunk: &mut Chunk)
        requires
            stmt_compiled(*stmt, old(self).state(old(chunk))) is Some,
            jumps_in_bounds(old(self).state(old(chunk))),
            slots_are_numbers(old(self).locals_view()),
        ensures
            final(self).state(final(chunk)) == stmt_compiled(*stmt, old(self).state(old(chunk)))->0,
        decreases stmt, 1nat,
    {
        let ghost st0 = self.state(chunk);
        proof {
            lemma_stmt_compiled_frame(*stmt, st0);
        }
        match &stmt.kind {
            hir::StmtKind::ExprStmt(expr) => {
                self.compile_expr(&expr.expr, chunk);
                self.emit_op(chunk, OpCode::Pop);
            },
            hir::StmtKind::Print(print) => {
                self.compile_expr(&print.expr, chunk);
                let op = Self::print_opcode(print.expr.ty).unwrap();
                self.emit_op(chunk, op);
            },
            hir::StmtKind::VarDecl(vardecl) => {
                self.compile_var_decl(vardecl, chunk);
            },
            hir::StmtKind::Block(block) => {
                self.compile_block(&block.body, chunk);
            },
            hir::StmtKind::If(_) => {
                self.compile_if(stmt, chunk);
            },
            hir::StmtKind::While(_) => {
                self.compile_while(stmt, chunk);
            },
            hir::StmtKind::For(_) => {
                self.compile_for(stmt, chunk);
            },
            hir::StmtKind::Break => {
                let jump = chunk.write_jump(OpCode::Jmp);
                self.record_jump(jump, true);
            },
            hir::StmtKind::Continue => {
                let jump = chunk.write_jump(OpCode::Jmp);
                self.record_jump(jump, false);
            },
            hir::StmtKind::Return(_) => {
                proof {
                    assert(false);
                }
            },
        }
    }

    /// Emits a function. Compiling function bodies is not implemented: the
    /// chunk and the compiler are left as they are.
    pub fn compile_fn(&mut self, function: &hir::Function, chunk: &mut Chunk)
        ensures
            final(self).state(final(chunk)) == old(self).state(old(chunk)),
    {
    }

    /// Emits a global declaration. Compiling globals is not implemented: the
    /// chunk and the compiler are left as they are.
    pub fn compile_gloval_var_decl(&mut self, decl: &hir::GlobalVarDecl, chunk: &mut Chunk)
        ensures
            final(self).state(final(chunk)) == old(self).state(old(chunk)),
    {
    }

    /// Emits a program: each of its items, then the integer 0 as the
    /// program's result and `Halt`.
    pub fn compile_program(&mut self, program: &hir::Program, chunk: &mut Chunk)
        ensures
            final(self).state(final(chunk)) == emit(
                load_const(old(self).state(old(chunk)), Value::Int(0)),
                OpCode::Halt,
            ),
    {
        let ghost st0 = self.state(chunk);
        let mut i: usize = 0;
        while i < program.items.len()
            invariant
                i <= program.items@.len(),
                self.state(chunk) == st0,
            decreases program.items@.len() - i,
        {
            match &program.items[i] {
                hir::Item::Function(function) => {
                    self.compile_fn(function, chunk);
                },
                hir::Item::GlobalVarDecl(decl) => {
                    self.compile_gloval_var_decl(decl, chunk);
                },
            }
            i = i + 1;
        }
        self.emit_load_const(chunk, Value::Int(0));
        self.emit_op(chunk, OpCode::Halt);
    }
}

} // verus!
