//! The bytecode of the first version of the language: instructions and their
//! encoding as bytes.
//!
//! Every instruction is one opcode byte followed by its operand, if any, in
//! big-endian order: a constant index takes four bytes, a jump offset and a
//! global slot two.
use vstd::prelude::*;

use crate::stages::object::Object;

verus! {

/// A machine instruction.
#[derive(Debug, Clone, Copy, PartialEq, Eq, Structural)]
pub enum Instruction {
    /// Push the constant with this index.
    Constant(u32),
    /// Discard the top of the stack.
    Pop,
    Add,
    Sub,
    Mul,
    Div,
    /// Push `true`.
    True,
    /// Push `false`.
    False,
    Equal,
    NotEqual,
    GreaterThan,
    /// Negate the integer on top of the stack.
    Negate,
    /// Logically invert the boolean on top of the stack.
    Bang,
    /// Skip this many bytes forward when the top of the stack is not `true`.
    JumpNotTrue(i16),
    /// Skip this many bytes forward.
    Jump(i16),
    /// Store the top of the stack in this global slot.
    SetGlobal(u16),
}

/// The opcode byte of an instruction.
pub open spec fn opcode(instruction: Instruction) -> u8 {
    match instruction {
        Instruction::Constant(_) => 0,
        Instruction::Pop => 1,
        Instruction::Add => 2,
        Instruction::Sub => 3,
        Instruction::Mul => 4,
        Instruction::Div => 5,
        Instruction::True => 6,
        Instruction::False => 7,
        Instruction::Equal => 8,
        Instruction::NotEqual => 9,
        Instruction::GreaterThan => 10,
        Instruction::Negate => 11,
        Instruction::Bang => 12,
        Instruction::JumpNotTrue(_) => 13,
        Instruction::Jump(_) => 14,
        Instruction::SetGlobal(_) => 15,
    }
}

/// The two bytes of a 16-bit value, most significant first.
pub open spec fn be_u16(v: u16) -> Seq<u8> {
    seq![(v / 256) as u8, (v % 256) as u8]
}

/// The four bytes of a 32-bit value, most significant first.
pub open spec fn be_u32(v: u32) -> Seq<u8> {
    seq![(v / 0x100_0000) as u8, ((v / 0x1_0000) % 256) as u8, ((v / 256) % 256) as u8, (v % 256) as u8]
}

/// The bytes of an instruction.
pub open spec fn encoding(instruction: Instruction) -> Seq<u8> {
    seq![opcode(instruction)] + match instruction {
        Instruction::Constant(index) => be_u32(index),
        Instruction::JumpNotTrue(offset) => be_u16(offset as u16),
        Instruction::Jump(offset) => be_u16(offset as u16),
        Instruction::SetGlobal(slot) => be_u16(slot),
        _ => Seq::empty(),
    }
}

impl Instruction {
    /// The bytes of this instruction.
    pub fn encode(&self) -> (r: Vec<u8>)
        ensures
            r@ == encoding(*self),
    {
        let mut bytes: Vec<u8> = Vec::new();
        match *self {
            Instruction::Constant(index) => {
                bytes.push(0);
                bytes.push((index / 0x100_0000) as u8);
                bytes.push(((index / 0x1_0000) % 256) as u8);
                bytes.push(((index / 256) % 256) as u8);
                bytes.push((index % 256) as u8);
            },
            Instruction::Pop => bytes.push(1),
            Instruction::Add => bytes.push(2),
            Instruction::Sub => bytes.push(3),
            Instruction::Mul => bytes.push(4),
            Instruction::Div => bytes.push(5),
            Instruction::True => bytes.push(6),
            Instruction::False => bytes.push(7),
            Instruction::Equal => bytes.push(8),
            Instruction::NotEqual => bytes.push(9),
            Instruction::GreaterThan => bytes.push(10),
            Instruction::Negate => bytes.push(11),
            Instruction::Bang => bytes.push(12),
            Instruction::JumpNotTrue(offset) => {
                let v = offset as u16;
                bytes.push(13);
                bytes.push((v / 256) as u8);
                bytes.push((v % 256) as u8);
            },
            Instruction::Jump(offset) => {
                let v = offset as u16;
                bytes.push(14);
                bytes.push((v / 256) as u8);
                bytes.push((v % 256) as u8);
            },
            Instruction::SetGlobal(slot) => {
                bytes.push(15);
                bytes.push((slot / 256) as u8);
                bytes.push((slot % 256) as u8);
            },
        }
        assert(bytes@ =~= encoding(*self));
        bytes
    }
}

/// A compiled program: its instructions as bytes and its table of constants.
#[derive(Debug)]
pub struct Bytecode {
    pub instructions: Vec<u8>,
    pub constants: Vec<Object>,
}

proof fn lemma_be_u16_injective(x: u16, y: u16)
    requires
        be_u16(x) == be_u16(y),
    ensures
        x == y,
{
    assert(be_u16(x)[0] == be_u16(y)[0] && be_u16(x)[1] == be_u16(y)[1]);
    assert(x == (x / 256) * 256 + x % 256);
    assert(y == (y / 256) * 256 + y % 256);
}

proof fn lemma_be_u32_injective(x: u32, y: u32)
    requires
        be_u32(x) == be_u32(y),
    ensures
        x == y,
{
    assert(be_u32(x)[0] == be_u32(y)[0] && be_u32(x)[1] == be_u32(y)[1]);
    assert(be_u32(x)[2] == be_u32(y)[2] && be_u32(x)[3] == be_u32(y)[3]);
    assert(x == (x / 0x100_0000) * 0x100_0000 + ((x / 0x1_0000) % 256) * 0x1_0000 + ((x / 256) % 256) * 256 + x % 256);
    assert(y == (y / 0x100_0000) * 0x100_0000 + ((y / 0x1_0000) % 256) * 0x1_0000 + ((y / 256) % 256) * 256 + y % 256);
}

/// Distinct instructions have distinct encodings.
pub proof fn law_encoding_injective(a: Instruction, b: Instruction)
    requires
        encoding(a) == encoding(b),
    ensures
        a == b,
{
    assert(encoding(a)[0] == opcode(a));
    assert(encoding(b)[0] == opcode(b));
    match (a, b) {
        (Instruction::Constant(x), Instruction::Constant(y)) => {
            assert(be_u32(x) =~= encoding(a).subrange(1, 5));
            assert(be_u32(y) =~= encoding(b).subrange(1, 5));
            lemma_be_u32_injective(x, y);
        },
        (Instruction::JumpNotTrue(x), Instruction::JumpNotTrue(y)) => {
            assert(be_u16(x as u16) =~= encoding(a).subrange(1, 3));
            assert(be_u16(y as u16) =~= encoding(b).subrange(1, 3));
            lemma_be_u16_injective(x as u16, y as u16);
            assert((x as u16) == (y as u16) ==> x == y) by (bit_vector);
        },
        (Instruction::Jump(x), Instruction::Jump(y)) => {
            assert(be_u16(x as u16) =~= encoding(a).subrange(1, 3));
            assert(be_u16(y as u16) =~= encoding(b).subrange(1, 3));
            lemma_be_u16_injective(x as u16, y as u16);
            assert((x as u16) == (y as u16) ==> x == y) by (bit_vector);
        },
        (Instruction::SetGlobal(x), Instruction::SetGlobal(y)) => {
            assert(be_u16(x) =~= encoding(a).subrange(1, 3));
            assert(be_u16(y) =~= encoding(b).subrange(1, 3));
            lemma_be_u16_injective(x, y);
        },
        _ => {},
    }
}

} // verus!
