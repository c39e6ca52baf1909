//! The processor: the flash and SRAM regions, the register file, the
//! interrupt controller, and the execution mode, advanced one
//! architectural instruction per `step`.
//!
//! `ProcModel` is the mathematical value of the whole machine, and the
//! `*_model` spec functions are the transition semantics: every public
//! operation promises that the new state is exactly the model applied
//! to the old one.

use vstd::prelude::*;

use crate::bits::{le_bytes, le_int, pow256, splice, BitSize, DataBus};
use crate::decoder::{is_thumb32, spec_decode16, Decoder};
use crate::fault::{
    exc_priority, exception_entry_model, exception_return_model, poll_index, push_stack_model,
    Exception, InterruptController,
};
use crate::instruction::{source_value, Instruction, InstructionKind};
use crate::loader::{
    elf_sections, elf_sections_of, entry_of, entry_value, record_checksum_ok, sections_view,
    spec_next, Error, Hex, Kind, SectionClass,
};
use crate::memory::Memory;
use crate::registers::{reg_read, reg_write, regs_initial, vtor_base_addr, RegsModel, Registers};

verus! {

/// How many bytes of SRAM the processor owns.
pub const RAM_CAPACITY: usize = 16380;

/// How many bytes of flash the processor owns.
pub const FLASH_CAPACITY: usize = 65540;

/// The execution mode: Thread outside exception handlers, Handle inside.
#[derive(Debug, Clone, Copy, PartialEq, Eq, Structural)]
pub enum Mode {
    Thread,
    Handle,
}

/// The mathematical value of the whole machine.
#[verifier::ext_equal]
pub struct ProcModel {
    /// The flash bytes, addressed from 0.
    pub flash: Seq<u8>,
    /// The SRAM bytes, addressed from `0x2000_0000`.
    pub ram: Seq<u8>,
    /// The pending exception queue, in arrival order.
    pub pending: Seq<Exception>,
    /// The execution priority group gating new pending entries.
    pub group: i32,
    pub mode: Mode,
    pub regs: RegsModel,
}

/// The machine at power-on: zeroed regions, nothing pending, Thread
/// mode, the register file at reset.
pub open spec fn proc_initial() -> ProcModel {
    ProcModel {
        flash: Seq::new(FLASH_CAPACITY as nat, |i: int| 0u8),
        ram: Seq::new(RAM_CAPACITY as nat, |i: int| 0u8),
        pending: Seq::empty(),
        group: 0,
        mode: Mode::Thread,
        regs: regs_initial(),
    }
}

/// The range `[addr, addr + w)` lies inside the flash region.
pub open spec fn in_flash(addr: int, w: nat) -> bool {
    0 <= addr && addr + w <= 0x10004
}

/// The range `[addr, addr + w)` lies inside the SRAM region.
pub open spec fn in_ram(addr: int, w: nat) -> bool {
    0x20000000 <= addr && addr + w <= 0x20003ffc
}

/// The single system-control word: the VTOR register.
pub open spec fn is_vtor(addr: int) -> bool {
    addr == 0xe000ed08
}

/// The state after enqueueing `e`: pending grows by `e` when its
/// priority does not exceed the group, else nothing changes.
pub open spec fn throw_model(m: ProcModel, e: Exception) -> ProcModel {
    if exc_priority(e) <= m.group {
        ProcModel { pending: m.pending.push(e), ..m }
    } else {
        m
    }
}

/// The state after a `w`-byte bus read at `addr`: unchanged for a
/// mapped range, a pending `BusFault` for an unmapped one.
pub open spec fn bus_read_state(m: ProcModel, addr: int, w: nat) -> ProcModel {
    if in_flash(addr, w) || in_ram(addr, w) || is_vtor(addr) {
        m
    } else {
        throw_model(m, Exception::BusFault)
    }
}

/// The value a `w`-byte bus read at `addr` returns: the little-endian
/// bytes of the owning region, the VTOR word, or zero when unmapped.
pub open spec fn bus_read_val(m: ProcModel, addr: int, w: nat) -> nat {
    if in_flash(addr, w) {
        le_int(m.flash.subrange(addr, addr + w))
    } else if in_ram(addr, w) {
        le_int(m.ram.subrange(addr - 0x20000000, addr - 0x20000000 + w))
    } else if is_vtor(addr) {
        le_int(le_bytes(m.regs.vtor as nat, 4).take(w as int))
    } else {
        0
    }
}

/// The state after a `w`-byte bus write of `v` at `addr`: the owning
/// region's bytes replaced, the VTOR word replaced, or a pending
/// `BusFault` and the value discarded.
pub open spec fn bus_write_state(m: ProcModel, addr: int, w: nat, v: nat) -> ProcModel {
    if in_flash(addr, w) {
        ProcModel { flash: splice(m.flash, addr, le_bytes(v, w)), ..m }
    } else if in_ram(addr, w) {
        ProcModel { ram: splice(m.ram, addr - 0x20000000, le_bytes(v, w)), ..m }
    } else if is_vtor(addr) {
        ProcModel { regs: RegsModel { vtor: v as u32, ..m.regs }, ..m }
    } else {
        throw_model(m, Exception::BusFault)
    }
}

/// All-zero byte sequences decode to zero.
proof fn lemma_le_int_zeros(s: Seq<u8>)
    requires
        forall|i: int| 0 <= i < s.len() ==> s[i] == 0,
    ensures
        le_int(s) == 0,
    decreases s.len(),
{
    if s.len() > 0 {
        lemma_le_int_zeros(s.skip(1));
    }
}

#[derive(Clone)]
pub struct Processor {
    pub flash: Memory,
    pub ram: Memory,
    pub nvic: InterruptController,
    pub mode: Mode,
    pub registers: Registers,
}

impl View for Processor {
    type V = ProcModel;

    open spec fn view(&self) -> ProcModel {
        ProcModel {
            flash: self.flash.data@,
            ram: self.ram.data@,
            pending: self.nvic.pending@,
            group: self.nvic.group,
            mode: self.mode,
            regs: self.registers@,
        }
    }
}

impl Processor {
    /// The regions sit at their fixed bases, the controller carries
    /// the architectural priority table, and the machine's view is
    /// well formed.
    pub open spec fn wf(self) -> bool {
        &&& self.flash.start == 0
        &&& self.ram.start == 0x20000000
        &&& self.nvic.wf()
        &&& model_wf(self@)
    }

    /// A powered-on processor.
    pub fn new() -> (r: Processor)
        ensures
            r.wf(),
            r@ =~= proc_initial(),
    {
        Processor {
            flash: Memory::new(0x0, FLASH_CAPACITY),
            ram: Memory::new(0x20000000, RAM_CAPACITY),
            nvic: InterruptController::new(),
            mode: Mode::Thread,
            registers: Registers::new(),
        }
    }

}

impl DataBus for Processor {
    /// The processor's invariant: regions at their fixed bases and
    /// sizes, the architectural priority table in place.
    open spec fn bus_ok(self) -> bool {
        self.wf()
    }

    /// The bus takes every access; unmapped ones fault instead of
    /// being refused.
    open spec fn access_ok(self, addr: int, w: nat) -> bool {
        true
    }

    open spec fn read_state(self, addr: int, w: nat) -> ProcModel {
        bus_read_state(self@, addr, w)
    }

    open spec fn read_val(self, addr: int, w: nat) -> nat {
        bus_read_val(self@, addr, w)
    }

    open spec fn write_state(self, addr: int, w: nat, v: nat) -> ProcModel {
        bus_write_state(self@, addr, w, v)
    }

    /// Read a `T` from the bus: little-endian from the region owning
    /// `[addr, addr + width)`, the VTOR word at its own address, and
    /// zero with a pending `BusFault` anywhere else.
    fn read<T: BitSize>(&mut self, addr: usize) -> (r: T) {
        let w = T::size();
        proof {
            T::lemma_bounds();
        }
        if addr <= 0x10004 - w {
            let r = self.flash.read::<T>(addr);
            proof {
                assert(self@ =~= bus_read_state(old(self)@, addr as int, T::width()));
            }
            r
        } else if addr >= 0x20000000 && addr <= 0x20003ffc - w {
            let r = self.ram.read::<T>(addr);
            proof {
                assert(self@ =~= bus_read_state(old(self)@, addr as int, T::width()));
            }
            r
        } else if addr == 0xe000ed08 {
            let r = self.registers.vtor.read::<T>();
            proof {
                assert(self@ =~= bus_read_state(old(self)@, addr as int, T::width()));
            }
            r
        } else {
            self.nvic.throw(Exception::BusFault);
            let mut zeros: Vec<u8> = Vec::new();
            zeros.push(0);
            zeros.push(0);
            zeros.push(0);
            zeros.push(0);
            let r = T::from(zeros.as_slice());
            proof {
                assert(self@ =~= bus_read_state(old(self)@, addr as int, T::width()));
                lemma_le_int_zeros(zeros@.take(T::width() as int));
            }
            r
        }
    }

    /// Write a `T` to the bus: little-endian into the region owning
    /// `[addr, addr + width)`, into the VTOR word at its own address,
    /// and discarded with a pending `BusFault` anywhere else.
    fn write<T: BitSize>(&mut self, addr: usize, value: T) {
        let w = T::size();
        proof {
            T::lemma_bounds();
            crate::bits::lemma_le_bytes_len(value.as_nat(), T::width());
        }
        if addr <= 0x10004 - w {
            self.flash.write::<T>(addr, value);
            proof {
                assert(self@ =~= bus_write_state(
                    old(self)@,
                    addr as int,
                    T::width(),
                    value.as_nat(),
                ));
            }
        } else if addr >= 0x20000000 && addr <= 0x20003ffc - w {
            self.ram.write::<T>(addr, value);
            proof {
                assert(self@ =~= bus_write_state(
                    old(self)@,
                    addr as int,
                    T::width(),
                    value.as_nat(),
                ));
            }
        } else if addr == 0xe000ed08 {
            self.registers.vtor.write::<T>(value);
            proof {
                assert(self@ =~= bus_write_state(
                    old(self)@,
                    addr as int,
                    T::width(),
                    value.as_nat(),
                ));
            }
        } else {
            self.nvic.throw(Exception::BusFault);
            proof {
                assert(self@ =~= bus_write_state(
                    old(self)@,
                    addr as int,
                    T::width(),
                    value.as_nat(),
                ));
            }
        }
    }
}

/// The state after loading MSP, PSP and PC from the vector table: the
/// handler entry is read at `base + handler_offset`, MSP at `base`
/// (forced word-aligned), PSP becomes 0 and the PC takes the entry.
pub open spec fn load_vtor_model(m: ProcModel, handler_offset: int) -> ProcModel {
    let a = vtor_base_addr(m.regs.vtor) as int;
    let handler = bus_read_val(m, a + handler_offset, 4) as u32;
    let m1 = bus_read_state(m, a + handler_offset, 4);
    let mspv = bus_read_val(m1, a, 4) as u32;
    let m2 = bus_read_state(m1, a, 4);
    let m3 = ProcModel {
        regs: RegsModel { msp: mspv & 0xfffffffc, psp: 0, ..m2.regs },
        ..m2
    };
    ProcModel { regs: reg_write(m3.regs, 15, handler, m3.mode), ..m3 }
}

/// The state after `reset`: a fresh register file, Thread mode, and
/// MSP and PC loaded through the vector table, whose base is 0 again.
pub open spec fn reset_model(m: ProcModel) -> ProcModel {
    load_vtor_model(ProcModel { regs: regs_initial(), mode: Mode::Thread, ..m }, 4)
}

/// The state after writing `data` byte by byte through the bus,
/// starting at `addr`.
pub open spec fn flash_data_model(m: ProcModel, addr: int, data: Seq<u8>) -> ProcModel
    decreases data.len(),
{
    if data.len() == 0 {
        m
    } else {
        flash_data_model(bus_write_state(m, addr, 1, data[0] as nat), addr + 1, data.skip(1))
    }
}

impl Processor {
    /// Load MSP, PSP and the PC through the vector table, taking the
    /// handler entry from `base + handler_offset`.
    fn load_vtor(&mut self, handler_offset: usize)
        requires
            old(self).wf(),
            handler_offset <= 0x1000,
        ensures
            final(self).wf(),
            final(self)@ == load_vtor_model(old(self)@, handler_offset as int),
    {
        let addr = self.registers.vtor.addr();
        proof {
            let v = self.registers.vtor.value;
            assert(vtor_base_addr(v) <= 0x3FFFFF80u32) by (bit_vector);
        }
        let handler = self.read::<u32>(addr as usize + handler_offset);
        let mspv = self.read::<u32>(addr as usize);
        proof {
            u32::lemma_bounds();
        }
        self.registers.sp.msp = mspv & 0xfffffffc;
        self.registers.sp.psp = 0;
        let ghost pre = self@;
        let mode = self.mode;
        self.registers.set(
            15,
            (|_pc: u32| -> (r: u32)
                ensures
                    r == handler,
                { handler }),
            mode,
        );
        proof {
            assert(self@ =~= ProcModel {
                regs: reg_write(pre.regs, 15, handler, pre.mode),
                ..pre
            });
            assert(self@ =~= load_vtor_model(old(self)@, handler_offset as int));
        }
    }

    /// Reinitialize the register file, return to Thread mode, and load
    /// MSP and PC through the reset vector.
    pub fn reset(&mut self)
        requires
            old(self).wf(),
        ensures
            final(self).wf(),
            final(self)@ == reset_model(old(self)@),
    {
        self.registers = Registers::new();
        self.mode = Mode::Thread;
        self.load_vtor(4);
    }

    /// Write `data` through the bus starting at `addr`, one byte at a
    /// time; bytes aimed outside the regions fault and are dropped.
    pub fn flash_data(&mut self, addr: usize, data: &[u8])
        requires
            old(self).wf(),
            addr + data@.len() <= usize::MAX,
        ensures
            final(self).wf(),
            final(self)@ == flash_data_model(old(self)@, addr as int, data@),
    {
        let n = data.len();
        let mut i: usize = 0;
        proof {
            assert(data@.skip(0) =~= data@);
        }
        while i < n
            invariant
                i <= n,
                n == data@.len(),
                addr + n <= usize::MAX,
                self.wf(),
                flash_data_model(old(self)@, addr as int, data@) == flash_data_model(
                    self@,
                    addr + i,
                    data@.skip(i as int),
                ),
            decreases n - i,
        {
            let ghost pre = self@;
            let b = data[i];
            self.write::<u8>(addr + i, b);
            proof {
                assert(data@.skip(i as int)[0] == data@[i as int]);
                assert(data@.skip(i as int).skip(1) =~= data@.skip(i + 1));
                assert(flash_data_model(pre, addr + i, data@.skip(i as int)) == flash_data_model(
                    bus_write_state(pre, addr + i, 1, data@[i as int] as nat),
                    addr + i + 1,
                    data@.skip(i + 1),
                ));
            }
            i = i + 1;
        }
        proof {
            assert(data@.skip(n as int).len() == 0);
        }
    }
}

/// A well-formed machine state: the regions at their fixed sizes, the
/// 16 register slots in place, and the execution priority group still
/// at its initial 0, where nothing ever moves it.
pub open spec fn model_wf(m: ProcModel) -> bool {
    m.flash.len() == FLASH_CAPACITY && m.ram.len() == RAM_CAPACITY && m.regs.wf() && m.group == 0
}

/// A bus read hands back fewer than `pow256(w)`.
pub proof fn lemma_bus_read_val_bound(m: ProcModel, addr: int, w: nat)
    requires
        model_wf(m),
        w <= 4,
    ensures
        bus_read_val(m, addr, w) < pow256(w),
{
    crate::bits::lemma_pow256_values();
    if in_flash(addr, w) {
        crate::bits::lemma_le_int_bound(m.flash.subrange(addr, addr + w));
    } else if in_ram(addr, w) {
        crate::bits::lemma_le_int_bound(m.ram.subrange(addr - 0x20000000, addr - 0x20000000 + w));
    } else if is_vtor(addr) {
        crate::bits::lemma_le_bytes_len(m.regs.vtor as nat, 4);
        crate::bits::lemma_le_int_bound(le_bytes(m.regs.vtor as nat, 4).take(w as int));
    }
}

/// The state after a fetch: the halfword at the stored PC is read, and
/// a second one at PC+2 when the first opens a Thumb-2 encoding.
pub open spec fn fetch_state(m: ProcModel) -> ProcModel {
    let pc = m.regs.regs[15];
    let m1 = bus_read_state(m, pc as int, 2);
    if is_thumb32(bus_read_val(m, pc as int, 2) as u16) {
        bus_read_state(m1, pc.wrapping_add(2) as int, 2)
    } else {
        m1
    }
}

/// The instruction a fetch constructs: the decoded halfword at the
/// stored PC, tagged with that address and its size.
pub open spec fn fetch_inst(m: ProcModel) -> Instruction {
    let pc = m.regs.regs[15];
    let h1 = bus_read_val(m, pc as int, 2) as u16;
    if is_thumb32(h1) {
        Instruction { kind: InstructionKind::Undefined, addr: pc, size: 4 }
    } else {
        Instruction { kind: spec_decode16(h1), addr: pc, size: 2 }
    }
}

/// The state after executing one decoded instruction, before the PC
/// advances past it.
pub open spec fn exec_kind_model(m: ProcModel, kind: InstructionKind) -> ProcModel {
    match kind {
        InstructionKind::Mov { register, source } => ProcModel {
            regs: reg_write(m.regs, register as int, source_value(source), m.mode),
            ..m
        },
        InstructionKind::Add { rm, rn, rd } => {
            let result = reg_read(m.regs, rm as int, m.mode).wrapping_add(
                reg_read(m.regs, rn as int, m.mode),
            );
            ProcModel { regs: reg_write(m.regs, rd as int, result, m.mode), ..m }
        },
        InstructionKind::Blx { rm } => throw_model(m, Exception::UsageFault),
        InstructionKind::Bx { rm } => {
            let a = reg_read(m.regs, rm as int, m.mode);
            if a & 0xf0000000 == 0xf0000000 {
                exception_return_model(m, a & 0x0fffffff)
            } else {
                ProcModel { regs: reg_write(m.regs, 15, a, m.mode), ..m }
            }
        },
        InstructionKind::B { imm11 } => ProcModel {
            regs: reg_write(
                m.regs,
                15,
                m.regs.regs[15].wrapping_add_signed(imm11 as i32),
                m.mode,
            ),
            ..m
        },
        InstructionKind::Ldr { rt, source } => {
            let pc = reg_read(m.regs, 15, m.mode);
            let a = (((pc / 4) * 4) as u32).wrapping_add(source_value(source));
            let data = bus_read_val(m, a as int, 4) as u32;
            let m1 = bus_read_state(m, a as int, 4);
            ProcModel { regs: reg_write(m1.regs, rt as int, data, m1.mode), ..m1 }
        },
        InstructionKind::LdrReg { rm, rn, rt } => m,
        InstructionKind::LdrImm { source, rn, rt } => {
            let a = reg_read(m.regs, rn as int, m.mode).wrapping_add(source_value(source) << 2u32);
            let data = bus_read_val(m, a as int, 4) as u32;
            let m1 = bus_read_state(m, a as int, 4);
            ProcModel { regs: reg_write(m1.regs, rt as int, data, m1.mode), ..m1 }
        },
        InstructionKind::Str { rt, rn } => {
            let value = reg_read(m.regs, rt as int, m.mode);
            let a = reg_read(m.regs, rn as int, m.mode);
            bus_write_state(m, a as int, 4, value as nat)
        },
        InstructionKind::Undefined => throw_model(m, Exception::UsageFault),
    }
}

/// The state after one fetch-decode-execute pass: the instruction at
/// the stored PC is executed and the PC then advances by its size.
pub open spec fn execute_model(m: ProcModel) -> ProcModel {
    let inst = fetch_inst(m);
    let mf = fetch_state(m);
    let me = exec_kind_model(mf, inst.kind);
    ProcModel {
        regs: reg_write(me.regs, 15, me.regs.regs[15].wrapping_add(inst.size as u32), me.mode),
        ..me
    }
}

/// The state after draining at most one pending exception: Reset runs
/// the reset sequence, anything else stacks a frame and enters its
/// handler.
pub open spec fn handle_exception_model(m: ProcModel) -> ProcModel {
    if m.pending.len() == 0 {
        m
    } else {
        let i = poll_index(m.pending);
        let e = m.pending[i];
        let m1 = ProcModel { pending: m.pending.remove(i), ..m };
        if e == Exception::Reset {
            reset_model(m1)
        } else {
            exception_entry_model(push_stack_model(m1), e)
        }
    }
}

/// One architectural step: execute exactly one instruction, then drain
/// at most one pending exception.
pub open spec fn step_model(m: ProcModel) -> ProcModel {
    handle_exception_model(execute_model(m))
}

/// Every register field a decoded instruction carries names one of the
/// 16 slots.
pub open spec fn kind_fields_bounded(kind: InstructionKind) -> bool {
    match kind {
        InstructionKind::Mov { register, source } => register < 16,
        InstructionKind::Add { rm, rn, rd } => rm < 16 && rn < 16 && rd < 16,
        InstructionKind::Blx { rm } => rm < 16,
        InstructionKind::Bx { rm } => rm < 16,
        InstructionKind::B { imm11 } => true,
        InstructionKind::Ldr { rt, source } => rt < 16,
        InstructionKind::LdrReg { rm, rn, rt } => rm < 16 && rn < 16 && rt < 16,
        InstructionKind::LdrImm { source, rn, rt } => rn < 16 && rt < 16,
        InstructionKind::Str { rt, rn } => rt < 16 && rn < 16,
        InstructionKind::Undefined => true,
    }
}

/// The decode table only emits register fields below 16.
proof fn lemma_decode16_bounded(op: u16)
    ensures
        kind_fields_bounded(spec_decode16(op)),
{
    assert(((op >> 8) & 0x7) < 16 && ((op >> 6) & 0x7) < 16 && ((op >> 3) & 0x7) < 16 && (op
        & 0x7) < 16 && ((op >> 3) & 0xF) < 16) by (bit_vector);
}

impl Processor {
    /// Fetch and decode the instruction at the stored PC, reading one
    /// halfword, or two for a Thumb-2 encoding.
    pub fn fetch(&mut self) -> (r: Instruction)
        requires
            old(self).wf(),
        ensures
            final(self).wf(),
            final(self)@ == fetch_state(old(self)@),
            r == fetch_inst(old(self)@),
    {
        let mode = self.mode;
        let pc = self.registers.get(15, mode).wrapping_sub(4);
        proof {
            assert(pc == old(self)@.regs.regs[15]);
            lemma_bus_read_val_bound(old(self)@, pc as int, 2);
            crate::bits::lemma_pow256_values();
        }
        let h1 = self.read::<u16>(pc as usize);
        match Decoder::new(h1) {
            Decoder::Thumb16(thumb16) => {
                let kind = thumb16.decode();
                Instruction { kind, addr: pc, size: 2 }
            },
            Decoder::Thumb32(thumb32) => {
                let h2 = self.read::<u16>(pc.wrapping_add(2) as usize);
                let kind = thumb32.decode(h2);
                Instruction { kind, addr: pc, size: 4 }
            },
        }
    }

    /// Execute the instruction at the stored PC, then advance the PC
    /// past it.
    #[verifier::rlimit(60)]
    fn execute(&mut self)
        requires
            old(self).wf(),
        ensures
            final(self).wf(),
            final(self)@ == execute_model(old(self)@),
    {
        let ghost s = old(self)@;
        let inst = self.fetch();
        proof {
            let pc0 = s.regs.regs[15];
            lemma_bus_read_val_bound(s, pc0 as int, 2);
            crate::bits::lemma_pow256_values();
            lemma_decode16_bounded(bus_read_val(s, pc0 as int, 2) as u16);
        }
        let ghost mf = fetch_state(s);
        let mode = self.mode;
        match inst.kind {
            InstructionKind::Mov { register, source } => {
                let v = source.value();
                self.set_slot(register, v, mode);
            },
            InstructionKind::Add { rm, rn, rd } => {
                let result = self.registers.get(rm, mode).wrapping_add(
                    self.registers.get(rn, mode),
                );
                self.set_slot(rd, result, mode);
            },
            InstructionKind::Blx { rm } => {
                self.nvic.throw(Exception::UsageFault);
                proof {
                    assert(self@ =~= exec_kind_model(mf, inst.kind));
                }
            },
            InstructionKind::Bx { rm } => {
                let addr = self.registers.get(rm, mode);
                if addr & 0xf0000000 == 0xf0000000 {
                    self.exception_return(addr & !(0xf0000000));
                    proof {
                        assert(addr & !(0xf0000000u32) == addr & 0x0fffffffu32) by (bit_vector);
                    }
                } else {
                    self.set_slot(15, addr, mode);
                }
            },
            InstructionKind::B { imm11 } => {
                let pc = self.registers.get(15, mode).wrapping_sub(4);
                proof {
                    assert(pc == mf.regs.regs[15]);
                }
                self.set_slot(15, pc.wrapping_add_signed(imm11 as i32), mode);
            },
            InstructionKind::Ldr { rt, source } => {
                let pc = self.registers.get(15, mode);
                proof {
                    assert((pc / 4) * 4 <= pc) by (nonlinear_arith);
                }
                let aligned = 4 * (pc / 4);
                let addr = aligned.wrapping_add(source.value());
                let data = self.read::<u32>(addr as usize);
                proof {
                    lemma_bus_read_val_bound(mf, addr as int, 4);
                }
                self.set_slot(rt, data, mode);
            },
            InstructionKind::LdrReg { rm, rn, rt } => {
                proof {
                    assert(self@ =~= exec_kind_model(mf, inst.kind));
                }
            },
            InstructionKind::LdrImm { source, rn, rt } => {
                let addr = self.registers.get(rn, mode).wrapping_add(source.value() << 2);
                let data = self.read::<u32>(addr as usize);
                proof {
                    lemma_bus_read_val_bound(mf, addr as int, 4);
                }
                self.set_slot(rt, data, mode);
            },
            InstructionKind::Str { rt, rn } => {
                let value = self.registers.get(rt, mode);
                let addr = self.registers.get(rn, mode);
                self.write::<u32>(addr as usize, value);
            },
            InstructionKind::Undefined => {
                self.nvic.throw(Exception::UsageFault);
                proof {
                    assert(self@ =~= exec_kind_model(mf, inst.kind));
                }
            },
        }
        proof {
            assert(self@ =~= exec_kind_model(mf, inst.kind));
        }
        let ghost me = exec_kind_model(mf, inst.kind);
        let mode2 = self.mode;
        let size = inst.size;
        self.registers.set(
            15,
            (|pc: u32| -> (r: u32)
                ensures
                    r == pc.wrapping_add(size as u32),
                { pc.wrapping_add(size as u32) }),
            mode2,
        );
        proof {
            assert(self@ =~= execute_model(s));
        }
    }

    /// Drain at most one pending exception: Reset restarts the core,
    /// anything else stacks a frame and enters its handler.
    fn handle_exception(&mut self)
        requires
            old(self).wf(),
        ensures
            final(self).wf(),
            final(self)@ == handle_exception_model(old(self)@),
    {
        if let Some(exception) = self.nvic.poll() {
            match exception {
                Exception::Reset => self.reset(),
                _ => {
                    self.push_stack();
                    self.exception_entry(exception);
                },
            }
        }
        proof {
            assert(self@ =~= handle_exception_model(old(self)@));
        }
    }

    /// Execute exactly one architectural instruction, then drain at
    /// most one pending exception.
    pub fn step(&mut self)
        requires
            old(self).wf(),
        ensures
            final(self).wf(),
            final(self)@ == step_model(old(self)@),
    {
        self.execute();
        self.handle_exception();
    }
}

/// The state after a StartSegmentAddress record: the PC takes the
/// encoded entry.
pub open spec fn set_pc_model(m: ProcModel, entry: u32) -> ProcModel {
    ProcModel { regs: reg_write(m.regs, 15, entry, m.mode), ..m }
}

/// The state and outcome of loading a HEX stream from position `p`:
/// records are parsed and checked in turn, Data records written
/// through the bus, StartSegmentAddress records set the PC, an Eof
/// record stops, and the first bad record aborts with its error.
pub open spec fn flash_hex_model(m: ProcModel, s: Seq<u8>, p: int) -> (ProcModel, Option<Error>)
    decreases s.len() - p when 0 <= p <= s.len() via flash_hex_model_dec
{
    match spec_next(s, p) {
        Err(e) => (m, Some(e)),
        Ok((rec, p2)) => {
            if !record_checksum_ok(rec) {
                (m, Some(Error::Checksum))
            } else {
                match rec.kind {
                    Kind::Data => flash_hex_model(
                        flash_data_model(m, rec.addr as int, rec.data),
                        s,
                        p2,
                    ),
                    Kind::Eof => (m, None),
                    Kind::StartSegmentAddress => flash_hex_model(
                        set_pc_model(m, entry_of(rec.data)),
                        s,
                        p2,
                    ),
                    _ => flash_hex_model(m, s, p2),
                }
            }
        },
    }
}

#[via_fn]
proof fn flash_hex_model_dec(m: ProcModel, s: Seq<u8>, p: int) {
    crate::loader::lemma_spec_next_props(s, p);
}

/// A section is loaded exactly when it is executable text or
/// initialized data.
pub open spec fn section_loadable(class: SectionClass) -> bool {
    class == SectionClass::Text || class == SectionClass::Data
}

/// The state after loading a section list: the bytes of each text or
/// data section are written through the bus at its address, in file
/// order. A section whose end would not fit in an address is skipped
/// whole.
pub open spec fn flash_sections_model(
    m: ProcModel,
    secs: Seq<(u32, Seq<u8>, SectionClass)>,
) -> ProcModel
    decreases secs.len(),
{
    if secs.len() == 0 {
        m
    } else {
        let m1 = if section_loadable(secs[0].2) && secs[0].0 + secs[0].1.len() <= usize::MAX {
            flash_data_model(m, secs[0].0 as int, secs[0].1)
        } else {
            m
        };
        flash_sections_model(m1, secs.skip(1))
    }
}

/// The four-byte ELF magic opens the image.
pub open spec fn is_elf(s: Seq<u8>) -> bool {
    s.len() >= 4 && s[0] == 0x7F && s[1] == 0x45 && s[2] == 0x4C && s[3] == 0x46
}

impl Processor {
    /// Load parsed image sections: each text or data section is
    /// written through the bus at its address.
    pub fn load_sections(&mut self, sections: &Vec<(u32, Vec<u8>, SectionClass)>)
        requires
            old(self).wf(),
        ensures
            final(self).wf(),
            final(self)@ == flash_sections_model(old(self)@, sections_view(sections@)),
    {
        let ghost sv = sections_view(sections@);
        let n = sections.len();
        let mut i: usize = 0;
        proof {
            assert(sv.skip(0) =~= sv);
        }
        while i < n
            invariant
                i <= n,
                n == sections@.len(),
                sv == sections_view(sections@),
                self.wf(),
                flash_sections_model(old(self)@, sv) == flash_sections_model(
                    self@,
                    sv.skip(i as int),
                ),
            decreases n - i,
        {
            let ghost pre = self@;
            let sec = &sections[i];
            proof {
                assert(sv[i as int] == (sec.0, sec.1@, sec.2));
            }
            let loadable = matches!(sec.2, SectionClass::Text | SectionClass::Data);
            if loadable && sec.1.len() <= usize::MAX - (sec.0 as usize) {
                self.flash_data(sec.0 as usize, sec.1.as_slice());
            }
            proof {
                assert(sv.skip(i as int)[0] == sv[i as int]);
                assert(sv.skip(i as int).skip(1) =~= sv.skip(i + 1));
                assert(flash_sections_model(pre, sv.skip(i as int)) == flash_sections_model(
                    self@,
                    sv.skip(i + 1),
                ));
            }
            i = i + 1;
        }
        proof {
            assert(sv.skip(n as int).len() == 0);
        }
    }

    /// Load a HEX stream: parse, check and apply records until an Eof
    /// record or the first bad one.
    fn flash_hex(&mut self, rom: &[u8]) -> (r: Result<(), Error>)
        requires
            old(self).wf(),
        ensures
            final(self).wf(),
            final(self)@ == flash_hex_model(old(self)@, rom@, 0).0,
            match flash_hex_model(old(self)@, rom@, 0).1 {
                None => r is Ok,
                Some(e) => r == Err::<(), Error>(e),
            },
    {
        let mut hex = match Hex::new(rom) {
            Ok(h) => h,
            Err(e) => {
                return Err(e);
            },
        };
        loop
            invariant
                self.wf(),
                hex.bytes@ == rom@,
                hex.pos <= rom@.len(),
                flash_hex_model(old(self)@, rom@, 0) == flash_hex_model(
                    self@,
                    rom@,
                    hex.pos as int,
                ),
            decreases rom@.len() - hex.pos,
        {
            let ghost p0 = hex.pos as int;
            let ghost pre = self@;
            let rec = match hex.next() {
                Ok(rec) => rec,
                Err(e) => {
                    return Err(e);
                },
            };
            proof {
                crate::loader::lemma_spec_next_props(rom@, p0);
            }
            if !crate::loader::checksum_ok(&rec) {
                return Err(Error::Checksum);
            }
            match rec.kind {
                Kind::Data => {
                    self.flash_data(rec.addr as usize, rec.data.as_slice());
                },
                Kind::Eof => {
                    return Ok(());
                },
                Kind::StartSegmentAddress => {
                    let entry = entry_value(&rec.data);
                    let mode = self.mode;
                    self.set_slot(15, entry, mode);
                },
                _ => {},
            }
            proof {
                assert(flash_hex_model(pre, rom@, p0) == flash_hex_model(
                    self@,
                    rom@,
                    hex.pos as int,
                ));
            }
        }
    }

    /// Load an image into the processor: an ELF file when the magic
    /// opens it, an Intel HEX stream otherwise.
    pub fn flash(&mut self, rom: &[u8]) -> (r: Result<(), Error>)
        requires
            old(self).wf(),
        ensures
            final(self).wf(),
            is_elf(rom@) ==> (match elf_sections_of(rom@) {
                Some(secs) => final(self)@ == flash_sections_model(old(self)@, secs) && r is Ok,
                None => final(self)@ == old(self)@ && r == Err::<(), Error>(Error::Parse),
            }),
            !is_elf(rom@) ==> {
                &&& final(self)@ == flash_hex_model(old(self)@, rom@, 0).0
                &&& (match flash_hex_model(old(self)@, rom@, 0).1 {
                    None => r is Ok,
                    Some(e) => r == Err::<(), Error>(e),
                })
            },
    {
        if rom.len() >= 4 && rom[0] == 0x7F && rom[1] == 0x45 && rom[2] == 0x4C && rom[3] == 0x46 {
            let sections = match elf_sections(rom) {
                Ok(s) => s,
                Err(e) => {
                    return Err(e);
                },
            };
            self.load_sections(&sections);
            Ok(())
        } else {
            self.flash_hex(rom)
        }
    }
}

/// Round trip: a value written through the bus at a mapped address is
/// what a read of the same width at the same address then returns.
pub proof fn lemma_bus_round_trip(m: ProcModel, addr: int, w: nat, v: nat)
    requires
        model_wf(m),
        v < pow256(w),
        in_flash(addr, w) || in_ram(addr, w) || (is_vtor(addr) && w == 4),
    ensures
        bus_read_val(bus_write_state(m, addr, w, v), addr, w) == v,
{
    crate::bits::lemma_le_bytes_len(v, w);
    let b = le_bytes(v, w);
    crate::bits::lemma_le_int_le_bytes(v, w);
    if in_flash(addr, w) {
        let s2 = splice(m.flash, addr, b);
        assert(s2.subrange(addr, addr + w) =~= b);
    } else if in_ram(addr, w) {
        let at = addr - 0x20000000;
        let s2 = splice(m.ram, at, b);
        assert(s2.subrange(at, at + w) =~= b);
    } else {
        crate::bits::lemma_pow256_values();
        let stored = bus_write_state(m, addr, w, v).regs.vtor;
        assert(stored == v);
        assert(le_bytes(v, 4).take(4) =~= le_bytes(v, 4)) by {
            crate::bits::lemma_le_bytes_len(v, 4);
        }
    }
}

/// Byte order: after a four-byte write of `v` at a mapped region
/// address, the region's four bytes at that address are exactly the
/// little-endian bytes of `v`, least significant first.
pub proof fn lemma_write_byte_order(m: ProcModel, addr: int, v: nat)
    requires
        model_wf(m),
        in_flash(addr, 4) || in_ram(addr, 4),
    ensures
        in_flash(addr, 4) ==> bus_write_state(m, addr, 4, v).flash.subrange(addr, addr + 4)
            == seq![
            (v % 256) as u8,
            ((v / 0x100) % 256) as u8,
            ((v / 0x10000) % 256) as u8,
            ((v / 0x1000000) % 256) as u8,
        ],
        in_ram(addr, 4) ==> bus_write_state(m, addr, 4, v).ram.subrange(
            addr - 0x20000000,
            addr - 0x20000000 + 4,
        ) == seq![
            (v % 256) as u8,
            ((v / 0x100) % 256) as u8,
            ((v / 0x10000) % 256) as u8,
            ((v / 0x1000000) % 256) as u8,
        ],
{
    crate::bits::lemma_le_bytes_len(v, 4);
    crate::bits::lemma_le_bytes4(v);
    let b = le_bytes(v, 4);
    if in_flash(addr, 4) {
        assert(splice(m.flash, addr, b).subrange(addr, addr + 4) =~= b);
    } else {
        let at = addr - 0x20000000;
        assert(splice(m.ram, at, b).subrange(at, at + 4) =~= b);
    }
}

/// Out-of-bounds access: on any well-formed machine, a read at an
/// unmapped address returns zero and leaves a BusFault pending. Every
/// processor satisfying `wf` is such a machine: its view is well
/// formed and its group is 0.
pub proof fn lemma_unmapped_read_faults(m: ProcModel, addr: int, w: nat)
    requires
        model_wf(m),
        !in_flash(addr, w),
        !in_ram(addr, w),
        !is_vtor(addr),
    ensures
        bus_read_val(m, addr, w) == 0,
        bus_read_state(m, addr, w).pending == m.pending.push(Exception::BusFault),
{
}

} // verus!
