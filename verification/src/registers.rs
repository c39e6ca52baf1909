//! The register file: 16 general slots, banked stack pointers, PSR,
//! CONTROL and VTOR.
//!
//! Slot 13 routes to MSP or PSP by `CONTROL.spsel` and the mode; slot 15
//! (the PC) reads as the stored value plus 4 and forces bit 0 clear on
//! every write. `RegsModel` is the mathematical value of the whole file,
//! and `reg_read` / `reg_write` say exactly what `get` and `set` do.

use vstd::prelude::*;

use crate::bits::{le_bytes, le_int, BitSize};
use crate::decoder::BitVec;
use crate::processor::{Mode, RAM_CAPACITY};

verus! {

// page 429 @ ARMv7M Reference Manual
#[derive(Clone, Copy)]
pub struct Control {
    pub private: bool,
    pub stack: bool,
}

impl Control {
    pub fn new(private: bool, stack: bool) -> (r: Control)
        ensures
            r.private == private,
            r.stack == stack,
    {
        Control { private, stack }
    }
}

/// Slot 13 reaches PSP exactly when the process stack is selected and
/// the processor runs in Thread mode.
pub open spec fn uses_psp(stack: bool, mode: Mode) -> bool {
    stack && mode == Mode::Thread
}

#[derive(Clone, Copy)]
pub struct StackPointer {
    pub msp: u32,
    pub psp: u32,
}

/// The stack pointer slot 13 reaches under `stack` and `mode`.
pub open spec fn sp_stored(sp: StackPointer, stack: bool, mode: Mode) -> u32 {
    if uses_psp(stack, mode) {
        sp.psp
    } else {
        sp.msp
    }
}

/// The banked pair after writing `v` through slot 13.
pub open spec fn sp_written(sp: StackPointer, stack: bool, mode: Mode, v: u32) -> StackPointer {
    if uses_psp(stack, mode) {
        StackPointer { msp: sp.msp, psp: v }
    } else {
        StackPointer { msp: v, psp: sp.psp }
    }
}

impl StackPointer {
    pub fn new(sp: u32) -> (r: StackPointer)
        ensures
            r.msp == sp,
            r.psp == sp,
    {
        StackPointer { msp: sp, psp: sp }
    }

    /// Update the selected stack pointer with `f`; the banked one is
    /// untouched.
    pub fn set<F>(&mut self, control: Control, mode: Mode, f: F) where F: Fn(u32) -> u32
        requires
            call_requires(f, (sp_stored(*old(self), control.stack, mode),)),
        ensures
            exists|fv: u32|
                {
                    &&& #[trigger] call_ensures(f, (sp_stored(*old(self), control.stack, mode),), fv)
                    &&& *final(self) == sp_written(*old(self), control.stack, mode, fv)
                },
    {
        if control.stack && matches!(mode, Mode::Thread) {
            self.psp = f(self.psp);
        } else {
            self.msp = f(self.msp);
        }
    }

    /// The stack pointer slot 13 currently reaches.
    pub fn get(&self, control: Control, mode: Mode) -> (r: u32)
        ensures
            r == sp_stored(*self, control.stack, mode),
    {
        if control.stack && matches!(mode, Mode::Thread) {
            self.psp
        } else {
            self.msp
        }
    }
}

/// Whether bit `bit` of `v` is set.
pub open spec fn bit_is_set(v: u32, bit: u32) -> bool {
    v & (1u32 << bit) != 0
}

/// The program status register, manipulated bit by bit: bit 24 is the
/// Thumb state bit, bits 0..9 the current exception number, bit 9 the
/// stack-alignment flag recorded on exception entry.
#[derive(Clone, Copy)]
pub struct PSR {
    pub value: u32,
}

impl PSR {
    pub fn new() -> (r: PSR)
        ensures
            r.value == 0,
    {
        PSR { value: 0 }
    }

    pub fn get(&self, bit: u32) -> (r: bool)
        requires
            bit < 32,
        ensures
            r == bit_is_set(self.value, bit),
    {
        let r = ((self.value & (1u32 << bit)) >> bit) != 0;
        proof {
            let v = self.value;
            assert((((v & (1u32 << bit)) >> bit) != 0) == (v & (1u32 << bit) != 0)) by (bit_vector)
                requires
                    bit < 32u32,
            ;
        }
        r
    }

    pub fn set(&mut self, bit: u32)
        requires
            bit < 32,
        ensures
            final(self).value == old(self).value | (1u32 << bit),
    {
        self.value = self.value | (1u32 << bit);
    }

    pub fn unset(&mut self, bit: u32)
        requires
            bit < 32,
        ensures
            final(self).value == old(self).value & !(1u32 << bit),
    {
        self.value = self.value & !(1u32 << bit);
    }
}

/// Which region anchors the vector table.
pub enum TableBase {
    Code,
    Ram,
}

pub open spec fn table_base_value(base: TableBase) -> u32 {
    match base {
        TableBase::Code => 0,
        TableBase::Ram => 1,
    }
}

impl TableBase {
    fn value(self) -> (r: u32)
        ensures
            r == table_base_value(self),
    {
        match self {
            TableBase::Code => 0,
            TableBase::Ram => 1,
        }
    }
}

/// The vector-table base address held in a VTOR value: bit 29 selects
/// the anchoring region (code at 0, SRAM at `0x2000_0000`) and bits
/// 7..29 hold the offset, scaled by 128.
pub open spec fn vtor_base_addr(v: u32) -> u32 {
    (((v >> 29) & 1) << 29) | (((v >> 7) & 0x3FFFFF) << 7)
}

/// The vector table offset register, a single 32-bit system control
/// word at `0xE000_ED08`.
#[derive(Clone, Copy)]
pub struct Vtor {
    pub value: u32,
}

impl Vtor {
    pub fn new(base: TableBase, offset: u32) -> (r: Vtor)
        ensures
            r.value == (table_base_value(base) << 29u32) | (offset << 7u32),
    {
        Vtor { value: (base.value() << 29) | offset << 7 }
    }

    /// The register's stored word, as any of the bus widths.
    pub fn read<T: BitSize>(&self) -> (r: T)
        ensures
            r.as_nat() == le_int(le_bytes(self.value as nat, 4).take(T::width() as int)),
    {
        proof {
            T::lemma_bounds();
            crate::bits::lemma_le_bytes_len(self.value as nat, 4);
        }
        let bytes = self.value.to_bytes();
        T::from(bytes.as_slice())
    }

    /// Replace the stored word (narrow writes zero-extend).
    pub fn write<T: BitSize>(&mut self, value: T)
        ensures
            final(self).value == value.as_nat(),
    {
        self.value = value.to_u32();
    }

    /// The effective vector-table base address.
    pub fn addr(&self) -> (r: u32)
        ensures
            r == vtor_base_addr(self.value),
    {
        let v = self.value;
        proof {
            assert((1u32 << 29u32) == 0x20000000u32 && (v & 0x20000000u32 == 0 ==> vtor_base_addr(
                v,
            ) == (v & (crate::decoder::bit_mask(7u8, 29u8) as u32))) && (v & 0x20000000u32 != 0
                ==> vtor_base_addr(v) == (v & (crate::decoder::bit_mask(7u8, 29u8) as u32))
                + 0x20000000u32) && (v & (crate::decoder::bit_mask(7u8, 29u8) as u32))
                <= 0x1FFFFF80u32) by (bit_vector);
        }
        match v & (1u32 << 29) {
            0 => v.get(7..29),
            _ => v.get(7..29) + 0x20000000,
        }
    }
}

/// The mathematical value of the register file.
#[verifier::ext_equal]
pub struct RegsModel {
    /// The stored words of the 16 general slots.
    pub regs: Seq<u32>,
    pub msp: u32,
    pub psp: u32,
    pub psr: u32,
    pub vtor: u32,
    pub ctrl_private: bool,
    pub ctrl_stack: bool,
}

impl RegsModel {
    /// A well-formed file has exactly its 16 slots.
    pub open spec fn wf(self) -> bool {
        self.regs.len() == 16
    }
}

/// The stored value an update function is handed for `slot`: the routed
/// stack pointer for 13, the raw word otherwise.
pub open spec fn reg_stored(r: RegsModel, slot: int, mode: Mode) -> u32 {
    if slot == 13 {
        if uses_psp(r.ctrl_stack, mode) {
            r.psp
        } else {
            r.msp
        }
    } else {
        r.regs[slot]
    }
}

/// What `get` returns for `slot`: the stored value, except that the PC
/// reads as stored plus 4.
pub open spec fn reg_read(r: RegsModel, slot: int, mode: Mode) -> u32 {
    if slot == 15 {
        r.regs[15].wrapping_add(4)
    } else {
        reg_stored(r, slot, mode)
    }
}

/// The file after writing `v` to `slot`: slot 13 goes to the routed
/// stack pointer, slot 15 drops bit 0 of `v`, the rest store `v` as is.
pub open spec fn reg_write(r: RegsModel, slot: int, v: u32, mode: Mode) -> RegsModel {
    if slot == 13 {
        if uses_psp(r.ctrl_stack, mode) {
            RegsModel { psp: v, ..r }
        } else {
            RegsModel { msp: v, ..r }
        }
    } else if slot == 15 {
        RegsModel { regs: r.regs.update(15, v & 0xFFFF_FFFEu32), ..r }
    } else {
        RegsModel { regs: r.regs.update(slot, v), ..r }
    }
}

/// The register file at reset: all slots zero, both stack pointers at
/// the top of SRAM, PSR and VTOR zero, main stack selected.
pub open spec fn regs_initial() -> RegsModel {
    RegsModel {
        regs: Seq::new(16, |i: int| 0u32),
        msp: (0x20000000 + RAM_CAPACITY) as u32,
        psp: (0x20000000 + RAM_CAPACITY) as u32,
        psr: 0,
        vtor: 0,
        ctrl_private: false,
        ctrl_stack: false,
    }
}

#[derive(Clone, Copy)]
pub struct Registers {
    pub registers: [u32; 16],
    pub vtor: Vtor,
    pub psr: PSR,
    pub sp: StackPointer,
    pub control: Control,
}

impl View for Registers {
    type V = RegsModel;

    open spec fn view(&self) -> RegsModel {
        RegsModel {
            regs: self.registers@,
            msp: self.sp.msp,
            psp: self.sp.psp,
            psr: self.psr.value,
            vtor: self.vtor.value,
            ctrl_private: self.control.private,
            ctrl_stack: self.control.stack,
        }
    }
}

impl Registers {
    pub fn new() -> (r: Registers)
        ensures
            r@ =~= regs_initial(),
    {
        let r = Registers {
            registers: [0; 16],
            vtor: Vtor::new(TableBase::Code, 0),
            psr: PSR::new(),
            sp: StackPointer::new((0x20000000 + RAM_CAPACITY) as u32),
            control: Control::new(false, false),
        };
        proof {
            assert(r.registers@ =~= Seq::new(16, |i: int| 0u32));
            let vv = r.vtor.value;
            assert(vv == 0) by (bit_vector)
                requires
                    vv == (0u32 << 29u32) | (0u32 << 7u32),
            ;
        }
        r
    }

    /// Read-modify-write of the logical register behind `slot`.
    pub fn set<F>(&mut self, register: u8, f: F, mode: Mode) where F: Fn(u32) -> u32
        requires
            register < 16,
            call_requires(f, (reg_stored(old(self)@, register as int, mode),)),
        ensures
            exists|fv: u32|
                {
                    &&& #[trigger] call_ensures(
                        f,
                        (reg_stored(old(self)@, register as int, mode),),
                        fv,
                    )
                    &&& final(self)@ == reg_write(old(self)@, register as int, fv, mode)
                },
    {
        match register {
            13 => {
                self.sp.set(self.control, mode, f);
                proof {
                    let fv = choose|fv: u32|
                        call_ensures(f, (reg_stored(old(self)@, register as int, mode),), fv)
                            && self.sp == sp_written(old(self).sp, old(self).control.stack, mode, fv);
                    assert(self@ =~= reg_write(old(self)@, register as int, fv, mode));
                }
            },
            15 => {
                let v = f(self.registers[15]);
                self.registers[15] = v & 0xFFFFFFFE;
                proof {
                    assert(self@ =~= reg_write(old(self)@, register as int, v, mode));
                }
            },
            _ => {
                let v = f(self.registers[register as usize]);
                self.registers[register as usize] = v;
                proof {
                    assert(self@ =~= reg_write(old(self)@, register as int, v, mode));
                }
            },
        }
    }

    /// The logical value behind `slot`; the PC reads biased by 4.
    pub fn get(&self, register: u8, mode: Mode) -> (r: u32)
        requires
            register < 16,
        ensures
            r == reg_read(self@, register as int, mode),
    {
        match register {
            13 => self.sp.get(self.control, mode),
            15 => self.registers[15].wrapping_add(4),
            _ => self.registers[register as usize],
        }
    }

    /// A snapshot of the 16 stored slots for observers.
    pub fn all(&self) -> (r: [u32; 16])
        ensures
            r@ == self@.regs,
    {
        self.registers
    }
}

/// PC read bias: after a write of an even `x` through slot 15, a read
/// of slot 15 yields `x + 4`, so long as the sum stays in 32 bits.
pub proof fn lemma_pc_read_bias(r: RegsModel, x: u32, mode: Mode)
    requires
        r.wf(),
        x & 1 == 0,
        x <= 0xFFFFFFFB,
    ensures
        reg_read(reg_write(r, 15, x, mode), 15, mode) == x + 4,
{
    assert(x & 0xFFFF_FFFEu32 == x) by (bit_vector)
        requires
            x & 1 == 0,
    ;
}

/// Banked stack pointers: with the process stack selected in Thread
/// mode, a write through slot 13 lands in PSP and leaves MSP exactly
/// as it was; clearing the selection exposes the untouched MSP through
/// slot 13 again.
pub proof fn lemma_banked_sp(r: RegsModel, v: u32)
    requires
        r.wf(),
        r.ctrl_stack,
    ensures
        reg_write(r, 13, v, Mode::Thread).psp == v,
        reg_write(r, 13, v, Mode::Thread).msp == r.msp,
        reg_read(
            RegsModel { ctrl_stack: false, ..reg_write(r, 13, v, Mode::Thread) },
            13,
            Mode::Thread,
        ) == r.msp,
{
}

} // verus!
