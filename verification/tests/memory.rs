use armv7m_emu::bits::DataBus;
use armv7m_emu::fault::Exception;
use armv7m_emu::memory::Memory;
use armv7m_emu::processor::Processor;

#[test]
fn ram() {
    let mut memory = Memory::new(0xff, 0xffff);

    memory.write::<u8>(0xff, 69);
    memory.write::<u16>(0xff1, 1337);
    memory.write::<u32>(0xff3, 69420);

    assert_eq!(memory.read::<u8>(0xff), 69);
    assert_eq!(memory.read::<u16>(0xff1), 1337);
    assert_eq!(memory.read::<u32>(0xff3), 69420);
}

#[test]
fn region_round_trip_widths() {
    let mut memory = Memory::new(0x1000, 0x100);
    memory.write::<u32>(0x1010, 0xDEADBEEF);
    assert_eq!(memory.read::<u32>(0x1010), 0xDEADBEEF);
    memory.write::<u16>(0x1050, 0xBEEF);
    assert_eq!(memory.read::<u16>(0x1050), 0xBEEF);
    memory.write::<u8>(0x10FF, 0xA5);
    assert_eq!(memory.read::<u8>(0x10FF), 0xA5);
}

#[test]
fn bus_round_trip_flash_ram_vtor() {
    let mut p = Processor::new();
    p.write::<u32>(0x100, 0x11223344);
    assert_eq!(p.read::<u32>(0x100), 0x11223344);
    p.write::<u16>(0x2000_0000, 0xCAFE);
    assert_eq!(p.read::<u16>(0x2000_0000), 0xCAFE);
    p.write::<u8>(0x2000_3FF0, 0x7E);
    assert_eq!(p.read::<u8>(0x2000_3FF0), 0x7E);
    p.write::<u32>(0xE000_ED08, 0x2000_0080);
    assert_eq!(p.read::<u32>(0xE000_ED08), 0x2000_0080);
    assert!(p.nvic.pending.is_empty());
}

#[test]
fn write_byte_order_little_endian() {
    let mut p = Processor::new();
    p.write::<u32>(0x2000_0100, 0x11223344);
    assert_eq!(p.read::<u8>(0x2000_0100), 0x44);
    assert_eq!(p.read::<u8>(0x2000_0101), 0x33);
    assert_eq!(p.read::<u8>(0x2000_0102), 0x22);
    assert_eq!(p.read::<u8>(0x2000_0103), 0x11);
}

#[test]
fn straddling_access_faults() {
    let mut p = Processor::new();
    // one byte before the end of flash: a u32 does not fit
    let v = p.read::<u32>(0x10003);
    assert_eq!(v, 0);
    assert_eq!(p.nvic.pending, vec![Exception::BusFault]);
}
