use virt_ic::chip::cpu::nes6502::opcodes::ParseError;
use virt_ic::chip::cpu::nes6502::{AddressingMode, Assembler, Opcode};

#[test]
fn decode_known_and_unknown_bytes() {
    assert_eq!(Opcode::decode(0x69), Opcode::ADC(AddressingMode::Immediate(0)));
    assert_eq!(Opcode::decode(0x6C), Opcode::JMP(AddressingMode::Indirect(0)));
    assert_eq!(Opcode::decode(0x0E), Opcode::ASL(AddressingMode::Absolute(0)));
    assert_eq!(Opcode::decode(0x16), Opcode::ASL(AddressingMode::ZeroPageIndexedX(0)));
    assert_eq!(Opcode::decode(0xB4), Opcode::LDY(AddressingMode::ZeroPageIndexedX(0)));
    assert_eq!(Opcode::decode(0xD0), Opcode::BNE(0));
    assert_eq!(Opcode::decode(0xEA), Opcode::NOP);
    assert_eq!(Opcode::decode(0x02), Opcode::NOP);
    assert_eq!(Opcode::decode(0xFF), Opcode::NOP);
    assert_eq!(Opcode::from(0x60u8), Opcode::RTS);
}

#[test]
fn encode_operands_little_endian() {
    assert_eq!(Opcode::LDA(AddressingMode::Absolute(0x1234)).to_bytes(), Ok(vec![0xAD, 0x34, 0x12]));
    assert_eq!(Opcode::STA(AddressingMode::ZeroPageIndexedX(0x10)).to_bytes(), Ok(vec![0x95, 0x10]));
    assert_eq!(Opcode::BPL(-5).to_bytes(), Ok(vec![0x10, 0xFB]));
    assert_eq!(Opcode::ASL(AddressingMode::Implicit).to_bytes(), Ok(vec![0x0A]));
    assert_eq!(Opcode::TXS.to_bytes(), Ok(vec![0x9A]));
}

#[test]
fn encode_rejects_illegal_mode() {
    let op = Opcode::ADC(AddressingMode::Implicit);
    assert_eq!(op.to_bytes(), Err(ParseError::InvalidAddressMode(op)));
    let op = Opcode::STA(AddressingMode::Immediate(1));
    assert_eq!(op.to_bytes(), Err(ParseError::InvalidAddressMode(op)));
}

#[test]
fn assemble_concatenates() {
    let prg = Assembler::assemble(&[
        Opcode::CLC,
        Opcode::LDA(AddressingMode::Immediate(0x5A)),
        Opcode::ADC(AddressingMode::Immediate(0xFF)),
        Opcode::JMP(AddressingMode::Absolute(0x8000)),
    ]);
    assert_eq!(prg, Ok(vec![0x18, 0xA9, 0x5A, 0x69, 0xFF, 0x4C, 0x00, 0x80]));
    assert_eq!(Assembler::assemble(&[]), Ok(vec![]));
}

#[test]
fn assemble_reports_first_invalid() {
    let bad = Opcode::JSR(AddressingMode::Immediate(3));
    let r = Assembler::assemble(&[Opcode::NOP, bad, Opcode::LDX(AddressingMode::Implicit)]);
    assert_eq!(r, Err(ParseError::InvalidAddressMode(bad)));
}

#[test]
fn set_args_build_operands() {
    let mut op = Opcode::decode(0xAD);
    assert!(op.require_arg1());
    op.set_arg1(0x34);
    assert!(op.require_arg2());
    op.set_arg2(0x12);
    assert_eq!(op, Opcode::LDA(AddressingMode::Absolute(0x1234)));
    let mut b = Opcode::decode(0x30);
    assert!(b.require_arg1());
    b.set_arg1(0xFE);
    assert!(!b.require_arg2());
    assert_eq!(b, Opcode::BMI(-2));
    assert!(!Opcode::INX.require_arg1());
    assert!(Opcode::LDA(AddressingMode::ZeroPageIndexedX(1)).need_compute());
    assert!(!Opcode::LDA(AddressingMode::ZeroPage(1)).need_compute());
}

#[test]
fn every_encoding_decodes_back() {
    let mut count = 0;
    for byte in 0u16..=255 {
        let template = Opcode::decode(byte as u8);
        if template == Opcode::NOP && byte != 0xEA {
            continue;
        }
        let mut op = template;
        if op.require_arg1() {
            op.set_arg1(0xC3);
            if op.require_arg2() {
                op.set_arg2(0x5E);
            }
        }
        let bytes = op.to_bytes().expect("decoded instructions have an encoding");
        assert_eq!(bytes[0], byte as u8);
        let mut back = Opcode::decode(bytes[0]);
        if back.require_arg1() {
            back.set_arg1(bytes[1]);
            if back.require_arg2() {
                back.set_arg2(bytes[2]);
            }
        }
        assert_eq!(back, op);
        count += 1;
    }
    assert_eq!(count, 149);
}

#[test]
fn disassemble_reads_back_program() {
    let program = vec![
        Opcode::LDX(AddressingMode::Immediate(0x0A)),
        Opcode::LDA(AddressingMode::ZeroPage(0xFF)),
        Opcode::STA(AddressingMode::ZeroPageIndexedX(0x00)),
        Opcode::DEX,
        Opcode::BPL(-5),
        Opcode::JMP(AddressingMode::Indirect(0xBEEF)),
        Opcode::BMI(-2),
    ];
    let bytes = Assembler::assemble(&program).unwrap();
    assert_eq!(Assembler::disassemble(&bytes), program);
    assert_eq!(Assembler::disassemble(&[]), vec![]);
    // a cut-short operand reads as zero
    assert_eq!(
        Assembler::disassemble(&[0xEA, 0xAD, 0x34]),
        vec![Opcode::NOP, Opcode::LDA(AddressingMode::Absolute(0x0034))]
    );
    // unknown bytes read as NOP
    assert_eq!(Assembler::disassemble(&[0x02, 0xFF]), vec![Opcode::NOP, Opcode::NOP]);
}
