use armv7m_emu::bits::DataBus;
use armv7m_emu::fault::Exception;
use armv7m_emu::processor::{Mode, Processor};
use armv7m_emu::registers::{Registers, TableBase, Vtor};

#[test]
fn mov_imm_scenario() {
    let mut p = Processor::new();
    p.write::<u16>(0, 0x2042); // mov r0, #0x42
    p.reset();
    // the zeroed vector table leaves the reset handler at 0... except
    // the halfword above now sits in MEM32[0], which only feeds MSP
    assert_eq!(p.registers.all()[15], 0);
    p.step();
    assert_eq!(p.registers.get(0, Mode::Thread), 0x42);
    assert_eq!(p.registers.all()[15], 2);
}

#[test]
fn add_reg_scenario() {
    let mut p = Processor::new();
    p.registers.set(1, |_| 3, Mode::Thread);
    p.registers.set(2, |_| 4, Mode::Thread);
    p.write::<u16>(0, 0x1888); // add r0, r1, r2
    p.step();
    assert_eq!(p.registers.get(0, Mode::Thread), 7);
}

#[test]
fn ldr_literal_scenario() {
    let mut p = Processor::new();
    p.write::<u32>(0x10, 0xDEAD_BEEF);
    p.write::<u16>(0, 0x4803); // ldr r0, [pc, #12]
    p.step();
    assert_eq!(p.registers.get(0, Mode::Thread), 0xDEAD_BEEF);
}

#[test]
fn str_ldr_round_trip_scenario() {
    let mut p = Processor::new();
    p.registers.set(0, |_| 0xCAFE_BABE, Mode::Thread);
    p.registers.set(1, |_| 0x2000_0100, Mode::Thread);
    p.write::<u16>(0, 0x6008); // str r0, [r1]
    p.write::<u16>(2, 0x6808); // ldr r0, [r1, #0]
    p.step();
    p.step();
    assert_eq!(p.registers.get(0, Mode::Thread), 0xCAFE_BABE);
    assert_eq!(p.read::<u8>(0x2000_0100), 0xBE);
    assert_eq!(p.read::<u8>(0x2000_0101), 0xBA);
    assert_eq!(p.read::<u8>(0x2000_0102), 0xFE);
    assert_eq!(p.read::<u8>(0x2000_0103), 0xCA);
    assert!(p.nvic.pending.is_empty());
}

#[test]
fn unmapped_store_raises_bus_fault() {
    // a write through the bus at an unmapped address leaves a pending
    // BusFault and is dropped
    let mut p = Processor::new();
    p.write::<u32>(0x4000_0000, 7);
    assert_eq!(p.nvic.pending, vec![Exception::BusFault]);

    // executing `str r0, [r1]` against the same address drains that
    // fault into its handler within the step
    let mut q = Processor::new();
    q.registers.set(1, |_| 0x4000_0000, Mode::Thread);
    q.write::<u16>(0, 0x6008);
    q.step();
    assert!(matches!(q.mode, Mode::Handle));
    assert_eq!(q.registers.psr.value & 0x1FF, 5);
}

#[test]
fn unmapped_read_returns_zero() {
    let mut p = Processor::new();
    let v = p.read::<u32>(0x4000_0000);
    assert_eq!(v, 0);
    assert_eq!(p.nvic.pending, vec![Exception::BusFault]);
}

#[test]
fn pc_read_bias() {
    let mut p = Processor::new();
    p.registers.set(15, |_| 0x1000, Mode::Thread);
    assert_eq!(p.registers.get(15, Mode::Thread), 0x1004);
}

#[test]
fn pc_write_clears_bit_zero() {
    let mut regs = Registers::new();
    regs.set(15, |_| 0x1003, Mode::Thread);
    assert_eq!(regs.all()[15], 0x1002);
}

#[test]
fn banked_stack_pointers() {
    let mut regs = Registers::new();
    let msp_before = regs.sp.msp;
    regs.control.stack = true;
    regs.set(13, |_| 0x2000_0040, Mode::Thread);
    assert_eq!(regs.sp.psp, 0x2000_0040);
    assert_eq!(regs.sp.msp, msp_before);
    assert_eq!(regs.get(13, Mode::Thread), 0x2000_0040);
    regs.control.stack = false;
    assert_eq!(regs.get(13, Mode::Thread), msp_before);
    // in Handler mode slot 13 reaches MSP whatever spsel says
    regs.control.stack = true;
    assert_eq!(regs.get(13, Mode::Handle), msp_before);
}

#[test]
fn vtor_base_address() {
    let vtor = Vtor::new(TableBase::Ram, 1);
    assert_eq!(vtor.read::<u32>(), 0x2000_0080);
    assert_eq!(vtor.addr(), 0x2000_0080);
    let code = Vtor::new(TableBase::Code, 2);
    assert_eq!(code.addr(), 0x100);
    let mut w = Vtor::new(TableBase::Code, 0);
    w.write::<u32>(0x2000_0080);
    assert_eq!(w.addr(), 0x2000_0080);
}

#[test]
fn blx_is_stubbed_to_usage_fault() {
    let mut p = Processor::new();
    p.write::<u16>(0, 0x47F0); // blx lr
    p.step();
    // the fault is drained into its handler within the same step
    assert!(matches!(p.mode, Mode::Handle));
    assert_eq!(p.registers.psr.value & 0x1FF, 6);
}

#[test]
fn branch_moves_pc() {
    let mut p = Processor::new();
    p.write::<u16>(0, 0xE005); // b +5 on the stored pc
    p.step();
    // the branch target lands halfword-aligned, the advance adds the size
    assert_eq!(p.registers.all()[15], 6);
}

#[test]
fn reset_loads_msp_and_pc() {
    let mut p = Processor::new();
    p.write::<u32>(0, 0x2000_3FF7);
    p.write::<u32>(4, 0x0000_0101);
    p.reset();
    assert!(matches!(p.mode, Mode::Thread));
    assert_eq!(p.registers.sp.msp, 0x2000_3FF4);
    assert_eq!(p.registers.sp.psp, 0);
    assert_eq!(p.registers.all()[15], 0x100);
}

#[test]
fn ldr_imm_scales_by_four() {
    let mut p = Processor::new();
    p.registers.set(1, |_| 0x2000_0100, Mode::Thread);
    p.write::<u32>(0x2000_0104, 0x1234_5678);
    p.write::<u16>(0, 0x6848); // ldr r0, [r1, #4]
    p.step();
    assert_eq!(p.registers.get(0, Mode::Thread), 0x1234_5678);
}

#[test]
fn vtor_narrow_reads() {
    let mut p = Processor::new();
    p.write::<u32>(0xE000_ED08, 0x2000_0080);
    assert_eq!(p.read::<u8>(0xE000_ED08), 0x80);
    assert_eq!(p.read::<u16>(0xE000_ED08), 0x0080);
}
