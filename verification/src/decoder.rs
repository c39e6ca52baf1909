//! Classification of raw halfwords into decoded instructions.
//!
//! A first halfword whose top five bits are `0b11101`, `0b11110` or
//! `0b11111` opens a 32-bit Thumb-2 encoding; anything else is a 16-bit
//! Thumb instruction, decoded by major opcode (bits 11..16) and refined
//! by further bit fields.

use vstd::prelude::*;

use crate::instruction::{InstructionKind, Source};

use core::ops::Range;

verus! {

/// The bits `[lo, hi)` set, as a 64-bit mask.
pub open spec fn bit_mask(lo: u8, hi: u8) -> u64 {
    let top = ((1u64 << hi) - 1) as u64;
    let bot = ((1u64 << lo) - 1) as u64;
    top & !bot
}

/// Extraction of a bit range, left in place: the value ANDed with the
/// mask of bits `[lo, hi)`.
pub trait BitVec: Sized {
    /// The width of the value in bits.
    spec fn bit_width() -> nat;

    /// What `get` returns: the value with all bits outside `[lo, hi)` cleared.
    spec fn masked(self, lo: u8, hi: u8) -> Self;

    fn get(&self, range: Range<u8>) -> (r: Self)
        requires
            range.start <= range.end,
            range.end <= Self::bit_width(),
        ensures
            r == self.masked(range.start, range.end),
    ;
}

impl BitVec for u16 {
    open spec fn bit_width() -> nat {
        16
    }

    open spec fn masked(self, lo: u8, hi: u8) -> u16 {
        self & (bit_mask(lo, hi) as u16)
    }

    fn get(&self, range: Range<u8>) -> (r: u16) {
        let lo = range.start;
        let hi = range.end;
        proof {
            assert(1u64 << hi >= 1 && 1u64 << lo >= 1) by (bit_vector)
                requires
                    hi < 64u8 && lo < 64u8,
            ;
        }
        let top = (1u64 << hi) - 1;
        let bot = (1u64 << lo) - 1;
        let mask = #[verifier::truncate] ((top & !bot) as u16);
        *self & mask
    }
}

impl BitVec for u32 {
    open spec fn bit_width() -> nat {
        32
    }

    open spec fn masked(self, lo: u8, hi: u8) -> u32 {
        self & (bit_mask(lo, hi) as u32)
    }

    fn get(&self, range: Range<u8>) -> (r: u32) {
        let lo = range.start;
        let hi = range.end;
        proof {
            assert(1u64 << hi >= 1 && 1u64 << lo >= 1) by (bit_vector)
                requires
                    hi < 64u8 && lo < 64u8,
            ;
        }
        let top = (1u64 << hi) - 1;
        let bot = (1u64 << lo) - 1;
        let mask = #[verifier::truncate] ((top & !bot) as u32);
        *self & mask
    }
}

/// Replication of bit `topbit - 1` of the low `topbit` bits into the
/// upper bits: two's-complement sign extension.
pub open spec fn sign_extend16(v: u16, topbit: i16) -> i16
    recommends
        0 < topbit < 16,
{
    let mask = ((1u64 << (topbit as u64)) - 1) as u16;
    let low = v & mask;
    if low & (1u16 << ((topbit - 1) as u16)) != 0 {
        (low | !mask) as i16
    } else {
        low as i16
    }
}

/// Sign extension of the low `topbit` bits into a signed value.
pub trait SignExtend<T>: Sized {
    /// Which top-bit positions the width of `Self` admits.
    spec fn extend_req(topbit: i16) -> bool;

    /// What `extend` returns.
    spec fn extend_spec(self, topbit: i16) -> T;

    fn extend(&self, topbit: i16) -> (r: T)
        requires
            Self::extend_req(topbit),
        ensures
            r == self.extend_spec(topbit),
    ;
}

impl SignExtend<i16> for u16 {
    open spec fn extend_req(topbit: i16) -> bool {
        0 < topbit < 16
    }

    open spec fn extend_spec(self, topbit: i16) -> i16 {
        sign_extend16(self, topbit)
    }

    fn extend(&self, topbit: i16) -> (r: i16) {
        let t = topbit as u64;
        proof {
            assert(1u64 << t >= 1) by (bit_vector)
                requires
                    t < 64u64,
            ;
        }
        let mask = #[verifier::truncate] (((1u64 << t) - 1) as u16);
        let low = *self & mask;
        if low & (1u16 << ((topbit - 1) as u16)) != 0 {
            #[verifier::truncate] ((low | !mask) as i16)
        } else {
            #[verifier::truncate] (low as i16)
        }
    }
}

/// The halfword opens one of the three 32-bit Thumb-2 encodings.
pub open spec fn is_thumb32(halfword: u16) -> bool {
    (halfword >> 11) == 0b11101 || (halfword >> 11) == 0b11110 || (halfword >> 11) == 0b11111
}

/// What a 16-bit Thumb halfword decodes to, by the table of supported
/// encodings; anything outside the table is `Undefined`.
pub open spec fn spec_decode16(op: u16) -> InstructionKind {
    let major = op >> 11;
    if major == 0b00100 {
        InstructionKind::Mov {
            register: ((op >> 8) & 0x7) as u8,
            source: Source::Imm8((op & 0xFF) as u8),
        }
    } else if major == 0b00011 {
        InstructionKind::Add {
            rm: ((op >> 6) & 0x7) as u8,
            rn: ((op >> 3) & 0x7) as u8,
            rd: (op & 0x7) as u8,
        }
    } else if major == 0b01000 {
        if (op >> 7) == 0b010001111 {
            InstructionKind::Blx { rm: ((op >> 3) & 0xF) as u8 }
        } else if (op >> 7) == 0b010001110 {
            InstructionKind::Bx { rm: ((op >> 3) & 0xF) as u8 }
        } else {
            InstructionKind::Undefined
        }
    } else if major == 0b11100 {
        InstructionKind::B { imm11: sign_extend16(op & 0x7FF, 11) }
    } else if major == 0b01001 {
        InstructionKind::Ldr {
            rt: ((op >> 8) & 0x7) as u8,
            source: Source::Imm32(((op & 0xFF) as u32) << 2),
        }
    } else if major == 0b01011 {
        InstructionKind::LdrReg {
            rm: ((op >> 6) & 0x7) as u8,
            rn: ((op >> 3) & 0x7) as u8,
            rt: (op & 0x7) as u8,
        }
    } else if major == 0b01101 {
        InstructionKind::LdrImm {
            source: Source::Imm8(((op >> 6) & 0x1F) as u8),
            rn: ((op >> 3) & 0x7) as u8,
            rt: (op & 0x7) as u8,
        }
    } else if major == 0b01100 {
        InstructionKind::Str { rt: (op & 0x7) as u8, rn: ((op >> 3) & 0x7) as u8 }
    } else {
        InstructionKind::Undefined
    }
}

/// How the in-place masked fields of a halfword relate to the shifted
/// field values the decode table is written with.
proof fn lemma_decode_fields(op: u16)
    by (bit_vector)
    ensures
        (op & (bit_mask(11, 16) as u16) == 0x2000) == ((op >> 11) == 0b00100),
        (op & (bit_mask(11, 16) as u16) == 0x1800) == ((op >> 11) == 0b00011),
        (op & (bit_mask(11, 16) as u16) == 0x4000) == ((op >> 11) == 0b01000),
        (op & (bit_mask(11, 16) as u16) == 0xE000) == ((op >> 11) == 0b11100),
        (op & (bit_mask(11, 16) as u16) == 0x4800) == ((op >> 11) == 0b01001),
        (op & (bit_mask(11, 16) as u16) == 0x5800) == ((op >> 11) == 0b01011),
        (op & (bit_mask(11, 16) as u16) == 0x6800) == ((op >> 11) == 0b01101),
        (op & (bit_mask(11, 16) as u16) == 0x6000) == ((op >> 11) == 0b01100),
        (op & (bit_mask(11, 16) as u16) == 0xE800) == ((op >> 11) == 0b11101),
        (op & (bit_mask(11, 16) as u16) == 0xF000) == ((op >> 11) == 0b11110),
        (op & (bit_mask(11, 16) as u16) == 0xF800) == ((op >> 11) == 0b11111),
        (op & (bit_mask(7, 16) as u16) == 0x4780) == ((op >> 7) == 0b010001111),
        (op & (bit_mask(7, 16) as u16) == 0x4700) == ((op >> 7) == 0b010001110),
        ((op & (bit_mask(8, 11) as u16)) >> 8) == ((op >> 8) & 0x7),
        (op & (bit_mask(0, 8) as u16)) == (op & 0xFF),
        ((op & (bit_mask(6, 9) as u16)) >> 6) == ((op >> 6) & 0x7),
        ((op & (bit_mask(3, 6) as u16)) >> 3) == ((op >> 3) & 0x7),
        (op & (bit_mask(0, 3) as u16)) == (op & 0x7),
        ((op & (bit_mask(3, 7) as u16)) >> 3) == ((op >> 3) & 0xF),
        ((op & (bit_mask(6, 11) as u16)) >> 6) == ((op >> 6) & 0x1F),
        (op & (bit_mask(0, 11) as u16)) == (op & 0x7FF),
{
}

/// A pending 32-bit Thumb-2 decode, holding the first halfword.
pub struct Thumb32 {
    pub halfword: u16,
}

impl Thumb32 {
    pub fn new(halfword: u16) -> (r: Thumb32)
        ensures
            r.halfword == halfword,
    {
        Thumb32 { halfword }
    }

    /// Decode, given the second halfword. No 32-bit encoding is
    /// supported yet, so every pair decodes to `Undefined`.
    pub fn decode(&self, halfword: u16) -> (r: InstructionKind)
        ensures
            r == InstructionKind::Undefined,
    {
        let _ = halfword;
        InstructionKind::Undefined
    }
}

/// A 16-bit Thumb decode, holding the halfword.
pub struct Thumb16 {
    pub opcode: u16,
}

impl Thumb16 {
    pub fn new(opcode: u16) -> (r: Thumb16)
        ensures
            r.opcode == opcode,
    {
        Thumb16 { opcode }
    }

    pub fn decode(&self) -> (r: InstructionKind)
        ensures
            r == spec_decode16(self.opcode),
    {
        proof {
            lemma_decode_fields(self.opcode);
        }
        match self.opcode.get(11..16) {
            0b0010_0000_0000_0000 => InstructionKind::Mov {
                register: (self.opcode.get(8..11) >> 8) as u8,
                source: Source::Imm8((self.opcode.get(0..8)) as u8),
            },
            0b0001_1000_0000_0000 => InstructionKind::Add {
                rm: (self.opcode.get(6..9) >> 6) as u8,
                rn: (self.opcode.get(3..6) >> 3) as u8,
                rd: self.opcode.get(0..3) as u8,
            },
            0b0100_0000_0000_0000 => match self.opcode.get(7..16) {
                0b0100_0111_1000_0000 => InstructionKind::Blx {
                    rm: (self.opcode.get(3..7) >> 3) as u8,
                },
                0b0100_0111_0000_0000 => InstructionKind::Bx {
                    rm: (self.opcode.get(3..7) >> 3) as u8,
                },
                _ => InstructionKind::Undefined,
            },
            0b1110_0000_0000_0000 => InstructionKind::B { imm11: self.opcode.get(0..11).extend(11) },
            0b0100_1000_0000_0000 => InstructionKind::Ldr {
                rt: (self.opcode.get(8..11) >> 8) as u8,
                source: Source::Imm32((self.opcode.get(0..8) as u32) << 2),
            },
            0b0101_1000_0000_0000 => InstructionKind::LdrReg {
                rm: (self.opcode.get(6..9) >> 6) as u8,
                rn: (self.opcode.get(3..6) >> 3) as u8,
                rt: self.opcode.get(0..3) as u8,
            },
            0b0110_1000_0000_0000 => InstructionKind::LdrImm {
                source: Source::Imm8((self.opcode.get(6..11) >> 6) as u8),
                rn: (self.opcode.get(3..6) >> 3) as u8,
                rt: self.opcode.get(0..3) as u8,
            },
            0b0110_0000_0000_0000 => InstructionKind::Str {
                rt: self.opcode.get(0..3) as u8,
                rn: (self.opcode.get(3..6) >> 3) as u8,
            },
            _ => InstructionKind::Undefined,
        }
    }
}

/// The first halfword of an instruction, classified: 16-bit Thumb, or
/// the opening halfword of a 32-bit Thumb-2 encoding.
pub enum Decoder {
    Thumb16(Thumb16),
    Thumb32(Thumb32),
}

impl Decoder {
    /// Classify a halfword: the three Thumb-2 prefixes open a 32-bit
    /// encoding, every other halfword is a 16-bit instruction.
    pub fn new(halfword: u16) -> (r: Decoder)
        ensures
            is_thumb32(halfword) ==> r == Decoder::Thumb32(Thumb32 { halfword }),
            !is_thumb32(halfword) ==> r == Decoder::Thumb16(Thumb16 { opcode: halfword }),
    {
        proof {
            lemma_decode_fields(halfword);
        }
        match halfword.get(11..16) {
            0b1110_1000_0000_0000 | 0b1111_0000_0000_0000 | 0b1111_1000_0000_0000 => {
                Decoder::Thumb32(Thumb32::new(halfword))
            },
            _ => Decoder::Thumb16(Thumb16::new(halfword)),
        }
    }
}

} // verus!
