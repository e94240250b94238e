//! A chunk of bytecode: the instruction stream and its pool of constants.
//!
//! An operand is 24 bits wide and written most significant byte first; a
//! jump operand is the absolute position in the stream that it jumps to.

use vstd::prelude::*;
use crate::opcodes::OpCode;
use crate::value::Value;

verus! {

/// The number of distinct values that a 24-bit operand can hold.
pub const U24_RANGE: u32 = 0x100_0000u32;

/// The three bytes that encode the low 24 bits of `v`, most significant first.
pub open spec fn u24_bytes(v: int) -> Seq<u8> {
    seq![((v / 0x10000) % 0x100) as u8, ((v / 0x100) % 0x100) as u8, (v % 0x100) as u8]
}

/// The operand that a jump carries until it is patched.
pub open spec fn placeholder() -> Seq<u8> {
    u24_bytes(0xFF_FFFF)
}

/// `code` with the three bytes at `pos` replaced by the operand `target`.
pub open spec fn patched(code: Seq<u8>, pos: int, target: int) -> Seq<u8> {
    code.take(pos) + u24_bytes(target) + code.skip(pos + 3)
}

/// The operand that the three bytes of `code` at `pos` encode.
pub open spec fn u24_at(code: Seq<u8>, pos: int) -> int {
    code[pos] * 0x10000 + code[pos + 1] * 0x100 + code[pos + 2]
}

/// An operand reads back as the value it was written from, for every value
/// that fits in 24 bits.
pub proof fn lemma_u24_round_trip(v: int)
    requires
        0 <= v < 0x100_0000,
    ensures
        u24_bytes(v).len() == 3,
        u24_at(u24_bytes(v), 0) == v,
{
    let hi = v / 0x10000;
    let mid = (v / 0x100) % 0x100;
    let lo = v % 0x100;
    assert(0 <= hi < 0x100);
    assert(hi % 0x100 == hi);
    assert(v / 0x100 == hi * 0x100 + mid) by {
        vstd::arithmetic::div_mod::lemma_div_denominator(v, 0x100, 0x100);
        vstd::arithmetic::div_mod::lemma_fundamental_div_mod(v / 0x100, 0x100);
    }
    assert(v == (v / 0x100) * 0x100 + lo) by {
        vstd::arithmetic::div_mod::lemma_fundamental_div_mod(v, 0x100);
    }
}

/// Patching a jump operand changes only its three bytes, which then read
/// back as the target.
pub proof fn lemma_patched_reads_target(code: Seq<u8>, pos: int, target: int)
    requires
        0 <= pos,
        pos + 3 <= code.len(),
        0 <= target < 0x100_0000,
    ensures
        patched(code, pos, target).len() == code.len(),
        u24_at(patched(code, pos, target), pos) == target,
        forall|i: int|
            0 <= i < code.len() && !(pos <= i < pos + 3) ==> #[trigger] patched(code, pos, target)[i]
                == code[i],
{
    lemma_u24_round_trip(target);
    let p = patched(code, pos, target);
    assert(p[pos] == u24_bytes(target)[0]);
    assert(p[pos + 1] == u24_bytes(target)[1]);
    assert(p[pos + 2] == u24_bytes(target)[2]);
}

/// A compiled unit: the instruction stream and the constants it refers to.
#[derive(Debug)]
pub struct Chunk {
    pub bytecode: Vec<u8>,
    pub constants: Vec<Value>,
}

impl Chunk {
    /// An empty chunk.
    pub fn new() -> (c: Chunk)
        ensures
            c.bytecode@ == Seq::<u8>::empty(),
            c.constants@ == Seq::<Value>::empty(),
    {
        Chunk { bytecode: Vec::new(), constants: Vec::new() }
    }

    /// Appends one byte to the instruction stream.
    pub fn write(&mut self, byte: u8)
        ensures
            final(self).bytecode@ == old(self).bytecode@.push(byte),
            final(self).constants@ == old(self).constants@,
    {
        self.bytecode.push(byte);
    }

    /// Appends the low 24 bits of `value` as an operand.
    pub fn write_u24(&mut self, value: u32)
        ensures
            final(self).bytecode@ == old(self).bytecode@ + u24_bytes(value as int),
            final(self).constants@ == old(self).constants@,
    {
        self.write_operand(value as usize);
    }

    fn write_operand(&mut self, value: usize)
        ensures
            final(self).bytecode@ == old(self).bytecode@ + u24_bytes(value as int),
            final(self).constants@ == old(self).constants@,
    {
        self.bytecode.push(((value / 0x10000) % 0x100) as u8);
        self.bytecode.push(((value / 0x100) % 0x100) as u8);
        self.bytecode.push((value % 0x100) as u8);
        assert(self.bytecode@ =~= old(self).bytecode@ + u24_bytes(value as int));
    }

    /// Appends `value` to the pool of constants and returns its index.
    pub fn write_constant(&mut self, value: Value) -> (idx: usize)
        ensures
            idx == old(self).constants@.len(),
            final(self).constants@ == old(self).constants@.push(value),
            final(self).bytecode@ == old(self).bytecode@,
    {
        let idx = self.constants.len();
        self.constants.push(value);
        idx
    }

    /// Appends a jump `op` whose operand is still to be patched, and returns
    /// the position of that operand.
    pub fn write_jump(&mut self, op: OpCode) -> (pos: usize)
        ensures
            pos == old(self).bytecode@.len() + 1,
            final(self).bytecode@ == old(self).bytecode@.push(op.spec_byte()) + placeholder(),
            final(self).constants@ == old(self).constants@,
    {
        self.write(op.as_byte());
        let pos = self.bytecode.len();
        self.write_u24(0xFF_FFFF);
        pos
    }

    /// Appends a jump `op` to the position `target`.
    pub fn write_jump_back(&mut self, op: OpCode, target: usize)
        ensures
            final(self).bytecode@ == old(self).bytecode@.push(op.spec_byte()) + u24_bytes(target as int),
            final(self).constants@ == old(self).constants@,
    {
        self.write(op.as_byte());
        self.write_operand(target);
    }

    /// Makes the jump operand at `pos` point to `target`.
    pub fn patch_jump_to(&mut self, pos: usize, target: usize)
        requires
            pos + 3 <= old(self).bytecode@.len(),
        ensures
            final(self).bytecode@ == patched(old(self).bytecode@, pos as int, target as int),
            final(self).constants@ == old(self).constants@,
    {
        let len = self.bytecode.len();
        assert(pos + 3 <= len);
        self.bytecode.set(pos, ((target / 0x10000) % 0x100) as u8);
        self.bytecode.set(pos + 1, ((target / 0x100) % 0x100) as u8);
        self.bytecode.set(pos + 2, (target % 0x100) as u8);
        assert(self.bytecode@ =~= patched(old(self).bytecode@, pos as int, target as int));
    }

    /// Makes the jump operand at `pos` point to the end of the instruction
    /// stream, where the next instruction will be written.
    pub fn patch_jump(&mut self, pos: usize)
        requires
            pos + 3 <= old(self).bytecode@.len(),
        ensures
            final(self).bytecode@ == patched(
                old(self).bytecode@,
                pos as int,
                old(self).bytecode@.len() as int,
            ),
            final(self).constants@ == old(self).constants@,
    {
        let end = self.bytecode.len();
        self.patch_jump_to(pos, end);
    }
}

} // verus!
