//! The tagged instruction representation the decoder produces and the
//! executor consumes.

use vstd::prelude::*;

verus! {

/// An immediate operand of one of the supported widths.
#[derive(Debug, Clone, Copy, PartialEq, Eq, Structural)]
pub enum Source {
    Imm8(u8),
    Imm16(u16),
    Imm32(u32),
}

/// The operand zero-extended to 32 bits.
pub open spec fn source_value(s: Source) -> u32 {
    match s {
        Source::Imm8(value) => value as u32,
        Source::Imm16(value) => value as u32,
        Source::Imm32(value) => value,
    }
}

impl Source {
    /// The operand zero-extended to 32 bits.
    pub fn value(self) -> (r: u32)
        ensures
            r == source_value(self),
    {
        match self {
            Source::Imm8(value) => value as u32,
            Source::Imm16(value) => value as u32,
            Source::Imm32(value) => value,
        }
    }
}

/// One decoded Thumb instruction, tagged with its operand fields.
#[derive(Debug, Clone, Copy, PartialEq, Eq, Structural)]
pub enum InstructionKind {
    Mov { register: u8, source: Source },
    Add { rm: u8, rn: u8, rd: u8 },
    Blx { rm: u8 },
    Bx { rm: u8 },
    B { imm11: i16 },
    Ldr { rt: u8, source: Source },
    LdrReg { rm: u8, rn: u8, rt: u8 },
    LdrImm { source: Source, rn: u8, rt: u8 },
    Str { rt: u8, rn: u8 },
    Undefined,
}

/// A decoded instruction with the address it was fetched from and its
/// encoded size in bytes (2 for Thumb, 4 for Thumb-2).
#[derive(Debug, Clone, Copy, PartialEq, Eq, Structural)]
pub struct Instruction {
    pub kind: InstructionKind,
    pub addr: u32,
    pub size: u16,
}

} // verus!
