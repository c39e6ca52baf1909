use armv7m_emu::decoder::{BitVec, Decoder, SignExtend, Thumb16, Thumb32};
use armv7m_emu::instruction::{InstructionKind, Source};

#[test]
fn bitvec() {
    let number: u16 = 0b1000_1111_0001_0111;

    println!("{:#018b}", number);
    println!("{:#018b}", number.get(0..12));
}

#[test]
fn bitvec_masks_in_place() {
    let number: u16 = 0b1000_1111_0001_0111;
    assert_eq!(number.get(0..12), 0b0000_1111_0001_0111);
    assert_eq!(number.get(11..16), 0b1000_1000_0000_0000);
    let wide: u32 = 0xDEAD_BEEF;
    assert_eq!(wide.get(8..16), 0x0000_BE00);
}

#[test]
fn classification_thumb32_prefixes() {
    // bits [11..16] of 0b11101, 0b11110, 0b11111 open 32-bit encodings
    assert!(matches!(Decoder::new(0xE800), Decoder::Thumb32(_)));
    assert!(matches!(Decoder::new(0xF000), Decoder::Thumb32(_)));
    assert!(matches!(Decoder::new(0xF800), Decoder::Thumb32(_)));
    assert!(matches!(Decoder::new(0xE000), Decoder::Thumb16(_)));
    assert!(matches!(Decoder::new(0x2042), Decoder::Thumb16(_)));
    assert!(matches!(Decoder::new(0xFFFF), Decoder::Thumb32(_)));
    assert!(matches!(Decoder::new(0x0000), Decoder::Thumb16(_)));
}

#[test]
fn decode_mov_imm() {
    let kind = Thumb16::new(0x2042).decode();
    assert_eq!(kind, InstructionKind::Mov { register: 0, source: Source::Imm8(0x42) });
}

#[test]
fn decode_add_reg() {
    let kind = Thumb16::new(0x1888).decode();
    assert_eq!(kind, InstructionKind::Add { rm: 2, rn: 1, rd: 0 });
}

#[test]
fn decode_bx_blx() {
    assert_eq!(Thumb16::new(0x4770).decode(), InstructionKind::Bx { rm: 14 });
    assert_eq!(Thumb16::new(0x47F0).decode(), InstructionKind::Blx { rm: 14 });
    assert_eq!(Thumb16::new(0x4600).decode(), InstructionKind::Undefined);
}

#[test]
fn decode_branch_sign_extends() {
    assert_eq!(Thumb16::new(0xE7FE).decode(), InstructionKind::B { imm11: -2 });
    assert_eq!(Thumb16::new(0xE005).decode(), InstructionKind::B { imm11: 5 });
}

#[test]
fn decode_loads_and_store() {
    assert_eq!(
        Thumb16::new(0x4803).decode(),
        InstructionKind::Ldr { rt: 0, source: Source::Imm32(12) }
    );
    assert_eq!(Thumb16::new(0x5888).decode(), InstructionKind::LdrReg { rm: 2, rn: 1, rt: 0 });
    assert_eq!(
        Thumb16::new(0x6888).decode(),
        InstructionKind::LdrImm { source: Source::Imm8(2), rn: 1, rt: 0 }
    );
    assert_eq!(Thumb16::new(0x6008).decode(), InstructionKind::Str { rt: 0, rn: 1 });
    assert_eq!(Thumb16::new(0xBF00).decode(), InstructionKind::Undefined);
}

#[test]
fn thumb32_is_stubbed_undefined() {
    let second: u16 = 0x1234;
    assert_eq!(Thumb32::new(0xF000).decode(second), InstructionKind::Undefined);
}

#[test]
fn sign_extension_values() {
    let all: u16 = 0x7FF;
    assert_eq!(all.extend(11), -1i16);
    let top: u16 = 0x400;
    assert_eq!(top.extend(11), -1024i16);
    let pos: u16 = 0x3FF;
    assert_eq!(pos.extend(11), 1023i16);
}

#[test]
fn source_zero_extends() {
    assert_eq!(Source::Imm8(0xFF).value(), 0xFF);
    assert_eq!(Source::Imm16(0xBEEF).value(), 0xBEEF);
    assert_eq!(Source::Imm32(0xDEAD_BEEF).value(), 0xDEAD_BEEF);
}
