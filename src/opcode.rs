//! The instruction set: five opcodes, their byte encodings and their
//! instruction lengths.
use vstd::prelude::*;

verus! {

/// Byte of the no-operation instruction.
pub const NOP_BYTE: u8 = 0x00;

/// Byte of the instruction that loads the operand into the accumulator.
pub const MOV_BYTE: u8 = 0x01;

/// Byte of the instruction that adds the operand to the accumulator.
pub const ADD_BYTE: u8 = 0x02;

/// Byte of the instruction that subtracts the operand from the accumulator.
pub const SUB_BYTE: u8 = 0x03;

/// Byte of the terminator, which halts the machine.
pub const END_BYTE: u8 = 0x87;

/// A decoded instruction.
#[derive(Clone, Copy, Debug, PartialEq, Eq, Structural)]
pub enum Opcode {
    Mov,
    Add,
    Sub,
    Nop,
    End,
}

/// The opcode that a byte encodes, or `None` for a byte outside the
/// instruction set.
pub open spec fn decode(value: u8) -> Option<Opcode> {
    if value == MOV_BYTE {
        Some(Opcode::Mov)
    } else if value == ADD_BYTE {
        Some(Opcode::Add)
    } else if value == SUB_BYTE {
        Some(Opcode::Sub)
    } else if value == NOP_BYTE {
        Some(Opcode::Nop)
    } else if value == END_BYTE {
        Some(Opcode::End)
    } else {
        None
    }
}

/// How far the cursor moves after executing the instruction whose first
/// byte is `value`: NOP, MOV, ADD and SUB take an operand byte and occupy
/// two bytes; any other byte is skipped on its own.
pub open spec fn instruction_length(value: u8) -> nat {
    match decode(value) {
        Some(Opcode::Mov) | Some(Opcode::Add) | Some(Opcode::Sub) | Some(Opcode::Nop) => 2,
        _ => 1,
    }
}

impl Opcode {
    /// Decodes a byte into an opcode.
    pub fn from_u8(value: u8) -> (r: Option<Opcode>)
        ensures
            r == decode(value),
    {
        match value {
            0x01 => Some(Opcode::Mov),
            0x02 => Some(Opcode::Add),
            0x03 => Some(Opcode::Sub),
            0x00 => Some(Opcode::Nop),
            0x87 => Some(Opcode::End),
            _ => None,
        }
    }
}

} // verus!
