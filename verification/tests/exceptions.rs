use armv7m_emu::bits::DataBus;
use armv7m_emu::fault::{Exception, Frame, InterruptController, Priority};
use armv7m_emu::processor::{Mode, Processor};

#[test]
fn interrupt_controller() {
    let mut nvic = InterruptController::new();

    nvic.throw(Exception::Nmi);
    nvic.throw(Exception::HardFault);
    nvic.throw(Exception::Reset);
    nvic.throw(Exception::BusFault);
    nvic.throw(Exception::SysTick);
    nvic.throw(Exception::MemManage);

    assert_eq!(Some(Exception::Reset), nvic.poll());
    assert_eq!(Some(Exception::Nmi), nvic.poll());
    assert_eq!(Some(Exception::HardFault), nvic.poll());
    assert_eq!(Some(Exception::MemManage), nvic.poll());
    assert_eq!(Some(Exception::BusFault), nvic.poll());
    assert_eq!(Some(Exception::SysTick), nvic.poll());
}

#[test]
fn poll_empty_is_none() {
    let mut nvic = InterruptController::new();
    assert_eq!(nvic.poll(), None);
}

#[test]
fn exception_numbers() {
    assert_eq!(Exception::Reset.number(), 1);
    assert_eq!(Exception::Nmi.number(), 2);
    assert_eq!(Exception::HardFault.number(), 3);
    assert_eq!(Exception::MemManage.number(), 4);
    assert_eq!(Exception::BusFault.number(), 5);
    assert_eq!(Exception::UsageFault.number(), 6);
    assert_eq!(Exception::SVCall.number(), 11);
    assert_eq!(Exception::DebugMonitor.number(), 12);
    assert_eq!(Exception::PendSV.number(), 14);
    assert_eq!(Exception::SysTick.number(), 15);
    assert_eq!(Exception::Interrupt { offset: 33 }.number(), 33);
}

#[test]
fn priority_lookup_defaults_to_zero() {
    let table = vec![(Exception::Reset, -3), (Exception::Nmi, -2)];
    let priority = Priority::new(table);
    assert_eq!(priority.get(Exception::Reset), -3);
    assert_eq!(priority.get(Exception::Nmi), -2);
    assert_eq!(priority.get(Exception::SysTick), 0);
}

#[test]
fn push_stack_writes_frame_and_exc_return() {
    let mut p = Processor::new();
    // park the stack inside SRAM and give the registers known values
    p.registers.sp.msp = 0x2000_0120;
    for slot in [0u8, 1, 2, 3] {
        let v = 0x10 + slot as u32;
        p.registers.set(slot, move |_| v, Mode::Thread);
    }
    p.registers.set(12, |_| 0xAB, Mode::Thread);
    p.registers.set(14, |_| 0xCD, Mode::Thread);
    p.registers.set(15, |_| 0x100, Mode::Thread);
    p.registers.psr.value = 0x5A;

    p.push_stack();

    // SP dropped by 0x20 and was word-but-not-doubleword aligned before
    assert_eq!(p.registers.sp.msp, 0x2000_0100);
    assert_eq!(p.read::<u32>(0x2000_0100), 0x10);
    assert_eq!(p.read::<u32>(0x2000_0104), 0x11);
    assert_eq!(p.read::<u32>(0x2000_0108), 0x12);
    assert_eq!(p.read::<u32>(0x2000_010C), 0x13);
    assert_eq!(p.read::<u32>(0x2000_0110), 0xAB);
    assert_eq!(p.read::<u32>(0x2000_0114), 0xCD);
    // the return address is the architectural PC: stored + 4
    assert_eq!(p.read::<u32>(0x2000_0118), 0x104);
    assert_eq!(p.read::<u32>(0x2000_011C), 0x5A & !(1 << 9));
    // Thread mode on the main stack leaves 0xFFFFFFF9 in LR
    assert_eq!(p.registers.get(14, Mode::Thread), 0xFFFF_FFF9);
}

#[test]
fn exception_return_pops_frame() {
    let mut p = Processor::new();
    p.mode = Mode::Handle;
    let base: u32 = 0x2000_0200;
    let words = [1u32, 2, 3, 4, 12, 0x77, 0x200, 0x5A];
    for (i, w) in words.iter().enumerate() {
        p.write::<u32>(base as usize + 4 * i, *w);
    }
    p.registers.sp.msp = base;

    p.exception_return(0xFFFF_FFF9);

    assert!(matches!(p.mode, Mode::Thread));
    assert_eq!(p.registers.get(0, Mode::Thread), 1);
    assert_eq!(p.registers.get(1, Mode::Thread), 2);
    assert_eq!(p.registers.get(2, Mode::Thread), 3);
    assert_eq!(p.registers.get(3, Mode::Thread), 4);
    assert_eq!(p.registers.get(12, Mode::Thread), 12);
    assert_eq!(p.registers.get(14, Mode::Thread), 0x77);
    assert_eq!(p.registers.all()[15], 0x200);
    assert_eq!(p.registers.psr.value, 0x5A);
    assert_eq!(p.registers.sp.msp, base + 0x20);
}

#[test]
fn exception_return_malformed_raises_usage_fault() {
    let mut p = Processor::new();
    p.exception_return(0xFFFF_FFF3);
    assert_eq!(p.nvic.pending, vec![Exception::UsageFault]);
}

#[test]
fn frame_records_alignment() {
    let mut p = Processor::new();
    p.registers.sp.msp = 0x2000_0124;
    let frame: Frame = p.frame();
    assert!(frame.align);
    assert_eq!(frame.ptr, 0x2000_0100);
}

#[test]
fn exception_entry_thumb_bit_follows_handler() {
    // an odd handler address sets the Thumb bit
    let mut p = Processor::new();
    p.write::<u32>(5 * 4, 0x21);
    p.exception_entry(Exception::BusFault);
    assert!(p.registers.psr.value & (1 << 24) != 0);
    assert_eq!(p.registers.all()[15], 0x20);

    // an even handler address clears a previously set Thumb bit
    let mut q = Processor::new();
    q.registers.psr.value = 1 << 24;
    q.write::<u32>(5 * 4, 0x20);
    q.exception_entry(Exception::BusFault);
    assert!(q.registers.psr.value & (1 << 24) == 0);
    assert!(matches!(q.mode, Mode::Handle));
    assert_eq!(q.registers.psr.value & 0x1FF, 5);
}
