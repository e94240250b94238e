//! The instruction set of the virtual machine.

use vstd::prelude::*;

verus! {

/// One instruction of the virtual machine. The instructions that name a
/// constant, a local slot or a jump target carry a 24-bit operand after the
/// opcode byte.
#[derive(Debug, Clone, Copy, PartialEq, Eq, Structural)]
pub enum OpCode {
    LoadConst,
    Halt,
    Pop,
    Dup,
    Jmp,
    JmpFalse,
    JmpTrue,
    I32Add,
    I32Sub,
    I32Mul,
    I32Div,
    I32Negate,
    I32Equal,
    I32NEqual,
    I32Greater,
    I32GreaterEq,
    I32Less,
    I32LessEq,
    F64Add,
    F64Sub,
    F64Mul,
    F64Div,
    F64Negate,
    F64Equal,
    F64NEqual,
    F64Greater,
    F64GreaterEq,
    F64Less,
    F64LessEq,
    BEqual,
    BNEqual,
    I32ToF64,
    I32Print,
    BPrint,
    F64Print,
    I32LoadLocal,
    BLoadLocal,
    F64LoadLocal,
    I32StoreLocal,
    BStoreLocal,
    F64StoreLocal,
}

impl OpCode {
    /// The byte that encodes the opcode in a chunk.
    pub open spec fn spec_byte(self) -> u8 {
        match self {
            OpCode::LoadConst => 0,
            OpCode::Halt => 1,
            OpCode::Pop => 2,
            OpCode::Dup => 3,
            OpCode::Jmp => 4,
            OpCode::JmpFalse => 5,
            OpCode::JmpTrue => 6,
            OpCode::I32Add => 7,
            OpCode::I32Sub => 8,
            OpCode::I32Mul => 9,
            OpCode::I32Div => 10,
            OpCode::I32Negate => 11,
            OpCode::I32Equal => 12,
            OpCode::I32NEqual => 13,
            OpCode::I32Greater => 14,
            OpCode::I32GreaterEq => 15,
            OpCode::I32Less => 16,
            OpCode::I32LessEq => 17,
            OpCode::F64Add => 18,
            OpCode::F64Sub => 19,
            OpCode::F64Mul => 20,
            OpCode::F64Div => 21,
            OpCode::F64Negate => 22,
            OpCode::F64Equal => 23,
            OpCode::F64NEqual => 24,
            OpCode::F64Greater => 25,
            OpCode::F64GreaterEq => 26,
            OpCode::F64Less => 27,
            OpCode::F64LessEq => 28,
            OpCode::BEqual => 29,
            OpCode::BNEqual => 30,
            OpCode::I32ToF64 => 31,
            OpCode::I32Print => 32,
            OpCode::BPrint => 33,
            OpCode::F64Print => 34,
            OpCode::I32LoadLocal => 35,
            OpCode::BLoadLocal => 36,
            OpCode::F64LoadLocal => 37,
            OpCode::I32StoreLocal => 38,
            OpCode::BStoreLocal => 39,
            OpCode::F64StoreLocal => 40,
        }
    }

    /// The byte that encodes the opcode in a chunk.
    pub fn as_byte(self) -> (b: u8)
        ensures
            b == self.spec_byte(),
    {
        match self {
            OpCode::LoadConst => 0,
            OpCode::Halt => 1,
            OpCode::Pop => 2,
            OpCode::Dup => 3,
            OpCode::Jmp => 4,
            OpCode::JmpFalse => 5,
            OpCode::JmpTrue => 6,
            OpCode::I32Add => 7,
            OpCode::I32Sub => 8,
            OpCode::I32Mul => 9,
            OpCode::I32Div => 10,
            OpCode::I32Negate => 11,
            OpCode::I32Equal => 12,
            OpCode::I32NEqual => 13,
            OpCode::I32Greater => 14,
            OpCode::I32GreaterEq => 15,
            OpCode::I32Less => 16,
            OpCode::I32LessEq => 17,
            OpCode::F64Add => 18,
            OpCode::F64Sub => 19,
            OpCode::F64Mul => 20,
            OpCode::F64Div => 21,
            OpCode::F64Negate => 22,
            OpCode::F64Equal => 23,
            OpCode::F64NEqual => 24,
            OpCode::F64Greater => 25,
            OpCode::F64GreaterEq => 26,
            OpCode::F64Less => 27,
            OpCode::F64LessEq => 28,
            OpCode::BEqual => 29,
            OpCode::BNEqual => 30,
            OpCode::I32ToF64 => 31,
            OpCode::I32Print => 32,
            OpCode::BPrint => 33,
            OpCode::F64Print => 34,
            OpCode::I32LoadLocal => 35,
            OpCode::BLoadLocal => 36,
            OpCode::F64LoadLocal => 37,
            OpCode::I32StoreLocal => 38,
            OpCode::BStoreLocal => 39,
            OpCode::F64StoreLocal => 40,
        }
    }
}

/// Distinct opcodes are encoded by distinct bytes, so that the machine can
/// tell every instruction from every other.
pub proof fn lemma_opcode_byte_injective(a: OpCode, b: OpCode)
    ensures
        a.spec_byte() == b.spec_byte() ==> a == b,
{
}

} // verus!
