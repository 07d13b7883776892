//! The instruction decoder: a 4-bit opcode nibble names one of fourteen
//! operations; every other nibble decodes to `Unknown`, carrying the raw
//! nibble for the fault protocol.

use vstd::prelude::*;

verus! {

/// One decoded operation of the machine.
#[derive(Clone, Copy, Debug, PartialEq, Eq, Structural)]
pub enum Instruction {
    Halt,
    Jump,
    JumpZ,
    Load,
    Store,
    LShft,
    RShft,
    Xor,
    And,
    SFull,
    Add,
    Pop,
    Push,
    NoOp,
    Unknown(u16),
}

/// The opcode table: which operation a nibble names.  Nibbles 0x1 and
/// 0xC name none and fall to `Unknown`.
pub open spec fn decode_spec(op: u16) -> Instruction {
    if op == 0x0 {
        Instruction::Halt
    } else if op == 0x2 {
        Instruction::Jump
    } else if op == 0x3 {
        Instruction::JumpZ
    } else if op == 0x4 {
        Instruction::Load
    } else if op == 0x5 {
        Instruction::Store
    } else if op == 0x6 {
        Instruction::LShft
    } else if op == 0x7 {
        Instruction::RShft
    } else if op == 0x8 {
        Instruction::Xor
    } else if op == 0x9 {
        Instruction::And
    } else if op == 0xA {
        Instruction::SFull
    } else if op == 0xB {
        Instruction::Add
    } else if op == 0xD {
        Instruction::Pop
    } else if op == 0xE {
        Instruction::Push
    } else if op == 0xF {
        Instruction::NoOp
    } else {
        Instruction::Unknown(op)
    }
}

impl Instruction {
    /// Decode an opcode nibble into its operation.
    pub fn decode(op: u16) -> (inst: Instruction)
        ensures
            inst == decode_spec(op),
    {
        match op {
            0x0 => Instruction::Halt,
            0x2 => Instruction::Jump,
            0x3 => Instruction::JumpZ,
            0x4 => Instruction::Load,
            0x5 => Instruction::Store,
            0x6 => Instruction::LShft,
            0x7 => Instruction::RShft,
            0x8 => Instruction::Xor,
            0x9 => Instruction::And,
            0xA => Instruction::SFull,
            0xB => Instruction::Add,
            0xD => Instruction::Pop,
            0xE => Instruction::Push,
            0xF => Instruction::NoOp,
            _ => Instruction::Unknown(op),
        }
    }
}

} // verus!
