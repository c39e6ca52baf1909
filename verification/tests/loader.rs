use armv7m_emu::bits::DataBus;
use armv7m_emu::loader::{checksum_ok, entry_value, Error, Hex, Kind};
use armv7m_emu::processor::{Mode, Processor};

/// Render one record as ASCII with the checksum the loader expects:
/// the one's complement of the sum of all preceding record bytes.
fn record(addr: u16, kind: u8, data: &[u8]) -> String {
    let mut bytes: Vec<u8> = vec![data.len() as u8, (addr >> 8) as u8, (addr & 0xFF) as u8, kind];
    bytes.extend_from_slice(data);
    let sum: u32 = bytes.iter().map(|b| *b as u32).sum();
    let checksum = !(sum as u8);
    let mut out = String::from(":");
    for b in &bytes {
        out.push_str(&format!("{:02X}", b));
    }
    out.push_str(&format!("{:02X}\n", checksum));
    out
}

#[test]
fn hex_reader_parses_a_record() {
    let image = record(0x0004, 0x00, &[0x10, 0x00, 0x00, 0x00]);
    let mut hex = Hex::new(image.as_bytes()).unwrap();
    let rec = hex.next().unwrap();
    assert_eq!(rec.addr, 4);
    assert!(matches!(rec.kind, Kind::Data));
    assert_eq!(rec.data, vec![0x10, 0x00, 0x00, 0x00]);
    assert!(checksum_ok(&rec));
}

#[test]
fn hex_reader_skips_noise() {
    let image = ": 02 00 10 00 AB cd\n0C\n";
    let mut hex = Hex::new(image.as_bytes()).unwrap();
    let rec = hex.next().unwrap();
    assert_eq!(rec.addr, 0x10);
    assert!(matches!(rec.kind, Kind::Data));
    assert_eq!(rec.data, vec![0xAB, 0xCD]);
}

#[test]
fn hex_reader_truncated_is_eof() {
    let mut hex = Hex::new(b":0400").unwrap();
    assert!(matches!(hex.next(), Err(Error::Eof)));
}

#[test]
fn hex_reader_bad_type_is_kind() {
    let image = record(0, 0x06, &[]);
    let mut hex = Hex::new(image.as_bytes()).unwrap();
    assert!(matches!(hex.next(), Err(Error::Kind)));
}

#[test]
fn checksum_mismatch_fails_flash() {
    let mut image = record(0, 0x00, &[0x42]);
    // corrupt the checksum digits
    let n = image.trim_end().len();
    image.replace_range(n - 2..n, "00");
    let mut p = Processor::new();
    assert!(matches!(p.flash(image.as_bytes()), Err(Error::Checksum)));
}

#[test]
fn flash_hex_writes_data_and_entry() {
    let mut image = String::new();
    image.push_str(&record(0x0000, 0x00, &[0xF7, 0x3F, 0x00, 0x20])); // MEM32[0]
    image.push_str(&record(0x0004, 0x00, &[0x08, 0x00, 0x00, 0x00])); // MEM32[4]
    image.push_str(&record(0x0000, 0x03, &[0x00, 0x00, 0x00, 0x08])); // entry 8
    image.push_str(&record(0x0000, 0x05, &[0x00, 0x00, 0x00, 0x00])); // ignored
    image.push_str(&record(0x0000, 0x01, &[])); // eof
    let mut p = Processor::new();
    assert!(p.flash(image.as_bytes()).is_ok());
    assert_eq!(p.registers.all()[15], 8);
    assert_eq!(p.read::<u32>(0), 0x2000_3FF7);
    assert_eq!(p.read::<u32>(4), 8);

    // reset from the loaded image: msp from MEM32[0], pc from MEM32[4]
    p.reset();
    assert!(matches!(p.mode, Mode::Thread));
    assert_eq!(p.registers.sp.msp, 0x2000_3FF4);
    assert_eq!(p.registers.all()[15], 8);
}

#[test]
fn flash_hex_stops_at_eof_record() {
    let mut image = String::new();
    image.push_str(&record(0x0000, 0x01, &[]));
    image.push_str(&record(0x0000, 0x00, &[0x42]));
    let mut p = Processor::new();
    assert!(p.flash(image.as_bytes()).is_ok());
    assert_eq!(p.read::<u8>(0), 0);
}

#[test]
fn entry_value_big_endian() {
    assert_eq!(entry_value(&vec![0x00, 0x00, 0x01, 0x02]), 0x102);
    assert_eq!(entry_value(&vec![0xDE, 0xAD, 0xBE, 0xEF]), 0xDEAD_BEEF);
    assert_eq!(entry_value(&vec![]), 0);
}

fn le16(v: u16) -> [u8; 2] {
    v.to_le_bytes()
}

fn le32(v: u32) -> [u8; 4] {
    v.to_le_bytes()
}

/// A minimal 32-bit little-endian ELF with one executable section.
fn tiny_elf(text_addr: u32, text: &[u8]) -> Vec<u8> {
    let shstrtab = b"\0.text\0.shstrtab\0";
    let text_off = 52u32;
    let str_off = text_off + text.len() as u32;
    let shoff = str_off + shstrtab.len() as u32;
    let mut out: Vec<u8> = Vec::new();
    // e_ident
    out.extend_from_slice(&[0x7F, 0x45, 0x4C, 0x46, 1, 1, 1, 0, 0, 0, 0, 0, 0, 0, 0, 0]);
    out.extend_from_slice(&le16(2)); // ET_EXEC
    out.extend_from_slice(&le16(40)); // EM_ARM
    out.extend_from_slice(&le32(1)); // version
    out.extend_from_slice(&le32(0)); // entry
    out.extend_from_slice(&le32(0)); // phoff
    out.extend_from_slice(&le32(shoff)); // shoff
    out.extend_from_slice(&le32(0)); // flags
    out.extend_from_slice(&le16(52)); // ehsize
    out.extend_from_slice(&le16(0)); // phentsize
    out.extend_from_slice(&le16(0)); // phnum
    out.extend_from_slice(&le16(40)); // shentsize
    out.extend_from_slice(&le16(3)); // shnum
    out.extend_from_slice(&le16(2)); // shstrndx
    assert_eq!(out.len(), 52);
    out.extend_from_slice(text);
    out.extend_from_slice(shstrtab);
    // section headers: null
    out.extend_from_slice(&[0u8; 40]);
    // .text: PROGBITS, ALLOC | EXECINSTR
    out.extend_from_slice(&le32(1)); // name
    out.extend_from_slice(&le32(1)); // SHT_PROGBITS
    out.extend_from_slice(&le32(6)); // SHF_ALLOC | SHF_EXECINSTR
    out.extend_from_slice(&le32(text_addr));
    out.extend_from_slice(&le32(text_off));
    out.extend_from_slice(&le32(text.len() as u32));
    out.extend_from_slice(&le32(0));
    out.extend_from_slice(&le32(0));
    out.extend_from_slice(&le32(2));
    out.extend_from_slice(&le32(0));
    // .shstrtab: STRTAB
    out.extend_from_slice(&le32(7));
    out.extend_from_slice(&le32(3)); // SHT_STRTAB
    out.extend_from_slice(&le32(0));
    out.extend_from_slice(&le32(0));
    out.extend_from_slice(&le32(str_off));
    out.extend_from_slice(&le32(shstrtab.len() as u32));
    out.extend_from_slice(&le32(0));
    out.extend_from_slice(&le32(0));
    out.extend_from_slice(&le32(1));
    out.extend_from_slice(&le32(0));
    out
}

#[test]
fn flash_elf_loads_text_section() {
    let rom = tiny_elf(0x20, &[0xDE, 0xAD, 0xBE, 0xEF]);
    let mut p = Processor::new();
    assert!(p.flash(rom.as_slice()).is_ok());
    assert_eq!(p.read::<u8>(0x20), 0xDE);
    assert_eq!(p.read::<u8>(0x21), 0xAD);
    assert_eq!(p.read::<u32>(0x20), 0xEFBE_ADDE);
}

#[test]
fn flash_elf_garbage_is_parse_error() {
    let rom = [0x7F, 0x45, 0x4C, 0x46, 9, 9, 9];
    let mut p = Processor::new();
    assert!(matches!(p.flash(&rom), Err(Error::Parse)));
}
