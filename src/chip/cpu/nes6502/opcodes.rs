//! The instruction set of the 6502: addressing modes, instructions, and their encoding.
use vstd::prelude::*;

verus! {

/// How an instruction finds its operand.
#[derive(Debug, Clone, Copy, PartialEq, Eq, Structural)]
pub enum AddressingMode {
    Implicit,
    /// The operand itself.
    Immediate(u8),
    /// Address `$00zz`.
    ZeroPage(u8),
    /// Address `$hhll`.
    Absolute(u16),
    /// The address stored at `$hhll`.
    Indirect(u16),
    /// Address `(zz + X) % 256`.
    ZeroPageIndexedX(u8),
    /// Address `(zz + Y) % 256`.
    ZeroPageIndexedY(u8),
    /// Address `hhll + X`.
    AbsoluteIndexedX(u16),
    /// Address `hhll + Y`.
    AbsoluteIndexedY(u16),
    /// `(zz,X)`: the address stored at `(zz + X) % 256`.
    IndexedIndirect(u8),
    /// `(zz),Y`: the address stored at `zz`, plus Y.
    IndirectIndexed(u8),
}

/// A 6502 instruction with its operand.
#[derive(Debug, Clone, Copy, PartialEq, Eq, Structural)]
pub enum Opcode {
    ADC(AddressingMode),
    AND(AddressingMode),
    ASL(AddressingMode),
    BIT(AddressingMode),
    BPL(i8),
    BMI(i8),
    BVC(i8),
    BVS(i8),
    BCC(i8),
    BCS(i8),
    BNE(i8),
    BEQ(i8),
    BRK,
    CMP(AddressingMode),
    CPX(AddressingMode),
    CPY(AddressingMode),
    DEC(AddressingMode),
    EOR(AddressingMode),
    CLC,
    SEC,
    CLI,
    SEI,
    CLV,
    INC(AddressingMode),
    JMP(AddressingMode),
    JSR(AddressingMode),
    LDA(AddressingMode),
    LDX(AddressingMode),
    LDY(AddressingMode),
    LSR(AddressingMode),
    NOP,
    ORA(AddressingMode),
    TAX,
    TXA,
    DEX,
    INX,
    TAY,
    TYA,
    DEY,
    INY,
    ROL(AddressingMode),
    ROR(AddressingMode),
    RTI,
    RTS,
    SBC(AddressingMode),
    STA(AddressingMode),
    TXS,
    TSX,
    PHA,
    PLA,
    PHP,
    PLP,
    STX(AddressingMode),
    STY(AddressingMode),
}

/// Why a sequence of instructions cannot be encoded.
#[derive(Debug, Clone, Copy, PartialEq, Eq, Structural)]
pub enum ParseError {
    /// The instruction has no encoding in this addressing mode.
    InvalidAddressMode(Opcode),
}

/// The mode needs a first operand byte.
pub open spec fn mode_needs_arg1(m: AddressingMode) -> bool {
    !(m is Implicit)
}

/// The mode needs a second operand byte.
pub open spec fn mode_needs_arg2(m: AddressingMode) -> bool {
    m is Absolute || m is Indirect || m is AbsoluteIndexedX || m is AbsoluteIndexedY
}

/// The mode is resolved to a zero-page or absolute address before the instruction runs.
pub open spec fn mode_needs_compute(m: AddressingMode) -> bool {
    m is Indirect || m is ZeroPageIndexedX || m is ZeroPageIndexedY || m is AbsoluteIndexedX
        || m is AbsoluteIndexedY || m is IndexedIndirect || m is IndirectIndexed
}

/// The mode with its operand's first (low) byte set to `arg`.
pub open spec fn mode_with_arg1(m: AddressingMode, arg: u8) -> AddressingMode {
    match m {
        AddressingMode::Implicit => m,
        AddressingMode::Immediate(_) => AddressingMode::Immediate(arg),
        AddressingMode::ZeroPage(_) => AddressingMode::ZeroPage(arg),
        AddressingMode::ZeroPageIndexedX(_) => AddressingMode::ZeroPageIndexedX(arg),
        AddressingMode::ZeroPageIndexedY(_) => AddressingMode::ZeroPageIndexedY(arg),
        AddressingMode::IndexedIndirect(_) => AddressingMode::IndexedIndirect(arg),
        AddressingMode::IndirectIndexed(_) => AddressingMode::IndirectIndexed(arg),
        AddressingMode::Absolute(_) => AddressingMode::Absolute(arg as u16),
        AddressingMode::Indirect(_) => AddressingMode::Indirect(arg as u16),
        AddressingMode::AbsoluteIndexedX(_) => AddressingMode::AbsoluteIndexedX(arg as u16),
        AddressingMode::AbsoluteIndexedY(_) => AddressingMode::AbsoluteIndexedY(arg as u16),
    }
}

/// `a` with its high byte replaced by `hi`.
pub open spec fn with_high_byte(a: u16, hi: u8) -> u16 {
    (a % 256 + hi * 256) as u16
}

/// The mode with its operand's second (high) byte set to `arg`.
pub open spec fn mode_with_arg2(m: AddressingMode, arg: u8) -> AddressingMode {
    match m {
        AddressingMode::Absolute(a) => AddressingMode::Absolute(with_high_byte(a, arg)),
        AddressingMode::Indirect(a) => AddressingMode::Indirect(with_high_byte(a, arg)),
        AddressingMode::AbsoluteIndexedX(a) => AddressingMode::AbsoluteIndexedX(
            with_high_byte(a, arg),
        ),
        AddressingMode::AbsoluteIndexedY(a) => AddressingMode::AbsoluteIndexedY(
            with_high_byte(a, arg),
        ),
        _ => m,
    }
}

/// The operand bytes that follow an instruction byte in this mode, little-endian.
pub open spec fn operand_bytes(m: AddressingMode) -> Seq<u8> {
    match m {
        AddressingMode::Implicit => seq![],
        AddressingMode::Immediate(v) => seq![v],
        AddressingMode::ZeroPage(v) => seq![v],
        AddressingMode::ZeroPageIndexedX(v) => seq![v],
        AddressingMode::ZeroPageIndexedY(v) => seq![v],
        AddressingMode::IndexedIndirect(v) => seq![v],
        AddressingMode::IndirectIndexed(v) => seq![v],
        AddressingMode::Absolute(a) => seq![(a % 256) as u8, (a / 256) as u8],
        AddressingMode::Indirect(a) => seq![(a % 256) as u8, (a / 256) as u8],
        AddressingMode::AbsoluteIndexedX(a) => seq![(a % 256) as u8, (a / 256) as u8],
        AddressingMode::AbsoluteIndexedY(a) => seq![(a % 256) as u8, (a / 256) as u8],
    }
}

/// The addressing mode of an instruction that takes one.
pub open spec fn op_mode(op: Opcode) -> Option<AddressingMode> {
    match op {
        Opcode::ADC(m) => Some(m),
        Opcode::AND(m) => Some(m),
        Opcode::ASL(m) => Some(m),
        Opcode::BIT(m) => Some(m),
        Opcode::CMP(m) => Some(m),
        Opcode::CPX(m) => Some(m),
        Opcode::CPY(m) => Some(m),
        Opcode::DEC(m) => Some(m),
        Opcode::EOR(m) => Some(m),
        Opcode::INC(m) => Some(m),
        Opcode::JMP(m) => Some(m),
        Opcode::JSR(m) => Some(m),
        Opcode::LDA(m) => Some(m),
        Opcode::LDX(m) => Some(m),
        Opcode::LDY(m) => Some(m),
        Opcode::LSR(m) => Some(m),
        Opcode::ORA(m) => Some(m),
        Opcode::ROL(m) => Some(m),
        Opcode::ROR(m) => Some(m),
        Opcode::SBC(m) => Some(m),
        Opcode::STA(m) => Some(m),
        Opcode::STX(m) => Some(m),
        Opcode::STY(m) => Some(m),
        _ => None,
    }
}

/// The instruction with its addressing mode replaced by `m`.
pub open spec fn with_mode(op: Opcode, m: AddressingMode) -> Opcode {
    match op {
        Opcode::ADC(_) => Opcode::ADC(m),
        Opcode::AND(_) => Opcode::AND(m),
        Opcode::ASL(_) => Opcode::ASL(m),
        Opcode::BIT(_) => Opcode::BIT(m),
        Opcode::CMP(_) => Opcode::CMP(m),
        Opcode::CPX(_) => Opcode::CPX(m),
        Opcode::CPY(_) => Opcode::CPY(m),
        Opcode::DEC(_) => Opcode::DEC(m),
        Opcode::EOR(_) => Opcode::EOR(m),
        Opcode::INC(_) => Opcode::INC(m),
        Opcode::JMP(_) => Opcode::JMP(m),
        Opcode::JSR(_) => Opcode::JSR(m),
        Opcode::LDA(_) => Opcode::LDA(m),
        Opcode::LDX(_) => Opcode::LDX(m),
        Opcode::LDY(_) => Opcode::LDY(m),
        Opcode::LSR(_) => Opcode::LSR(m),
        Opcode::ORA(_) => Opcode::ORA(m),
        Opcode::ROL(_) => Opcode::ROL(m),
        Opcode::ROR(_) => Opcode::ROR(m),
        Opcode::SBC(_) => Opcode::SBC(m),
        Opcode::STA(_) => Opcode::STA(m),
        Opcode::STX(_) => Opcode::STX(m),
        Opcode::STY(_) => Opcode::STY(m),
        _ => op,
    }
}

/// The displacement of a branch instruction.
pub open spec fn branch_offset(op: Opcode) -> Option<i8> {
    match op {
        Opcode::BPL(d) => Some(d),
        Opcode::BMI(d) => Some(d),
        Opcode::BVC(d) => Some(d),
        Opcode::BVS(d) => Some(d),
        Opcode::BCC(d) => Some(d),
        Opcode::BCS(d) => Some(d),
        Opcode::BNE(d) => Some(d),
        Opcode::BEQ(d) => Some(d),
        _ => None,
    }
}

/// The branch instruction with its displacement replaced by `d`.
pub open spec fn with_offset(op: Opcode, d: i8) -> Opcode {
    match op {
        Opcode::BPL(_) => Opcode::BPL(d),
        Opcode::BMI(_) => Opcode::BMI(d),
        Opcode::BVC(_) => Opcode::BVC(d),
        Opcode::BVS(_) => Opcode::BVS(d),
        Opcode::BCC(_) => Opcode::BCC(d),
        Opcode::BCS(_) => Opcode::BCS(d),
        Opcode::BNE(_) => Opcode::BNE(d),
        Opcode::BEQ(_) => Opcode::BEQ(d),
        _ => op,
    }
}

/// The instruction byte of `op`, or `None` where the instruction has no encoding in its
/// addressing mode.
pub open spec fn opcode_byte(op: Opcode) -> Option<u8> {
    match op {
        Opcode::ADC(m) => match m {
            AddressingMode::IndexedIndirect(_) => Some(0x61),
            AddressingMode::ZeroPage(_) => Some(0x65),
            AddressingMode::Immediate(_) => Some(0x69),
            AddressingMode::Absolute(_) => Some(0x6D),
            AddressingMode::IndirectIndexed(_) => Some(0x71),
            AddressingMode::ZeroPageIndexedX(_) => Some(0x75),
            AddressingMode::AbsoluteIndexedY(_) => Some(0x79),
            AddressingMode::AbsoluteIndexedX(_) => Some(0x7D),
            _ => None,
        },
        Opcode::AND(m) => match m {
            AddressingMode::IndexedIndirect(_) => Some(0x21),
            AddressingMode::ZeroPage(_) => Some(0x25),
            AddressingMode::Immediate(_) => Some(0x29),
            AddressingMode::Absolute(_) => Some(0x2D),
            AddressingMode::IndirectIndexed(_) => Some(0x31),
            AddressingMode::ZeroPageIndexedX(_) => Some(0x35),
            AddressingMode::AbsoluteIndexedY(_) => Some(0x39),
            AddressingMode::AbsoluteIndexedX(_) => Some(0x3D),
            _ => None,
        },
        Opcode::ASL(m) => match m {
            AddressingMode::ZeroPage(_) => Some(0x06),
            AddressingMode::Implicit => Some(0x0A),
            AddressingMode::Absolute(_) => Some(0x0E),
            AddressingMode::ZeroPageIndexedX(_) => Some(0x16),
            AddressingMode::AbsoluteIndexedX(_) => Some(0x1E),
            _ => None,
        },
        Opcode::BIT(m) => match m {
            AddressingMode::ZeroPage(_) => Some(0x24),
            AddressingMode::Absolute(_) => Some(0x2C),
            _ => None,
        },
        Opcode::BPL(_) => Some(0x10),
        Opcode::BMI(_) => Some(0x30),
        Opcode::BVC(_) => Some(0x50),
        Opcode::BVS(_) => Some(0x70),
        Opcode::BCC(_) => Some(0x90),
        Opcode::BCS(_) => Some(0xB0),
        Opcode::BNE(_) => Some(0xD0),
        Opcode::BEQ(_) => Some(0xF0),
        Opcode::BRK => Some(0x00),
        Opcode::CMP(m) => match m {
            AddressingMode::IndexedIndirect(_) => Some(0xC1),
            AddressingMode::ZeroPage(_) => Some(0xC5),
            AddressingMode::Immediate(_) => Some(0xC9),
            AddressingMode::Absolute(_) => Some(0xCD),
            AddressingMode::IndirectIndexed(_) => Some(0xD1),
            AddressingMode::ZeroPageIndexedX(_) => Some(0xD5),
            AddressingMode::AbsoluteIndexedY(_) => Some(0xD9),
            AddressingMode::AbsoluteIndexedX(_) => Some(0xDD),
            _ => None,
        },
        Opcode::CPX(m) => match m {
            AddressingMode::Immediate(_) => Some(0xE0),
            AddressingMode::ZeroPage(_) => Some(0xE4),
            AddressingMode::Absolute(_) => Some(0xEC),
            _ => None,
        },
        Opcode::CPY(m) => match m {
            AddressingMode::Immediate(_) => Some(0xC0),
            AddressingMode::ZeroPage(_) => Some(0xC4),
            AddressingMode::Absolute(_) => Some(0xCC),
            _ => None,
        },
        Opcode::DEC(m) => match m {
            AddressingMode::ZeroPage(_) => Some(0xC6),
            AddressingMode::Absolute(_) => Some(0xCE),
            AddressingMode::ZeroPageIndexedX(_) => Some(0xD6),
            AddressingMode::AbsoluteIndexedX(_) => Some(0xDE),
            _ => None,
        },
        Opcode::EOR(m) => match m {
            AddressingMode::IndexedIndirect(_) => Some(0x41),
            AddressingMode::ZeroPage(_) => Some(0x45),
            AddressingMode::Immediate(_) => Some(0x49),
            AddressingMode::Absolute(_) => Some(0x4D),
            AddressingMode::IndirectIndexed(_) => Some(0x51),
            AddressingMode::ZeroPageIndexedX(_) => Some(0x55),
            AddressingMode::AbsoluteIndexedY(_) => Some(0x59),
            AddressingMode::AbsoluteIndexedX(_) => Some(0x5D),
            _ => None,
        },
        Opcode::CLC => Some(0x18),
        Opcode::SEC => Some(0x38),
        Opcode::CLI => Some(0x58),
        Opcode::SEI => Some(0x78),
        Opcode::CLV => Some(0xB8),
        Opcode::INC(m) => match m {
            AddressingMode::ZeroPage(_) => Some(0xE6),
            AddressingMode::Absolute(_) => Some(0xEE),
            AddressingMode::ZeroPageIndexedX(_) => Some(0xF6),
            AddressingMode::AbsoluteIndexedX(_) => Some(0xFE),
            _ => None,
        },
        Opcode::JMP(m) => match m {
            AddressingMode::Absolute(_) => Some(0x4C),
            AddressingMode::Indirect(_) => Some(0x6C),
            _ => None,
        },
        Opcode::JSR(m) => match m {
            AddressingMode::Absolute(_) => Some(0x20),
            _ => None,
        },
        Opcode::LDA(m) => match m {
            AddressingMode::IndexedIndirect(_) => Some(0xA1),
            AddressingMode::ZeroPage(_) => Some(0xA5),
            AddressingMode::Immediate(_) => Some(0xA9),
            AddressingMode::Absolute(_) => Some(0xAD),
            AddressingMode::IndirectIndexed(_) => Some(0xB1),
            AddressingMode::ZeroPageIndexedX(_) => Some(0xB5),
            AddressingMode::AbsoluteIndexedY(_) => Some(0xB9),
            AddressingMode::AbsoluteIndexedX(_) => Some(0xBD),
            _ => None,
        },
        Opcode::LDX(m) => match m {
            AddressingMode::Immediate(_) => Some(0xA2),
            AddressingMode::ZeroPage(_) => Some(0xA6),
            AddressingMode::Absolute(_) => Some(0xAE),
            AddressingMode::ZeroPageIndexedY(_) => Some(0xB6),
            AddressingMode::AbsoluteIndexedY(_) => Some(0xBE),
            _ => None,
        },
        Opcode::LDY(m) => match m {
            AddressingMode::Immediate(_) => Some(0xA0),
            AddressingMode::ZeroPage(_) => Some(0xA4),
            AddressingMode::Absolute(_) => Some(0xAC),
            AddressingMode::ZeroPageIndexedX(_) => Some(0xB4),
            AddressingMode::AbsoluteIndexedX(_) => Some(0xBC),
            _ => None,
        },
        Opcode::LSR(m) => match m {
            AddressingMode::Implicit => Some(0x4A),
            AddressingMode::ZeroPage(_) => Some(0x46),
            AddressingMode::Absolute(_) => Some(0x4E),
            AddressingMode::ZeroPageIndexedX(_) => Some(0x56),
            AddressingMode::AbsoluteIndexedX(_) => Some(0x5E),
            _ => None,
        },
        Opcode::NOP => Some(0xEA),
        Opcode::ORA(m) => match m {
            AddressingMode::IndexedIndirect(_) => Some(0x01),
            AddressingMode::ZeroPage(_) => Some(0x05),
            AddressingMode::Immediate(_) => Some(0x09),
            AddressingMode::Absolute(_) => Some(0x0D),
            AddressingMode::IndirectIndexed(_) => Some(0x11),
            AddressingMode::ZeroPageIndexedX(_) => Some(0x15),
            AddressingMode::AbsoluteIndexedY(_) => Some(0x19),
            AddressingMode::AbsoluteIndexedX(_) => Some(0x1D),
            _ => None,
        },
        Opcode::TAX => Some(0xAA),
        Opcode::TXA => Some(0x8A),
        Opcode::DEX => Some(0xCA),
        Opcode::INX => Some(0xE8),
        Opcode::TAY => Some(0xA8),
        Opcode::TYA => Some(0x98),
        Opcode::DEY => Some(0x88),
        Opcode::INY => Some(0xC8),
        Opcode::ROL(m) => match m {
            AddressingMode::Implicit => Some(0x2A),
            AddressingMode::ZeroPage(_) => Some(0x26),
            AddressingMode::Absolute(_) => Some(0x2E),
            AddressingMode::ZeroPageIndexedX(_) => Some(0x36),
            AddressingMode::AbsoluteIndexedX(_) => Some(0x3E),
            _ => None,
        },
        Opcode::ROR(m) => match m {
            AddressingMode::Implicit => Some(0x6A),
            AddressingMode::ZeroPage(_) => Some(0x66),
            AddressingMode::Absolute(_) => Some(0x6E),
            AddressingMode::ZeroPageIndexedX(_) => Some(0x76),
            AddressingMode::AbsoluteIndexedX(_) => Some(0x7E),
            _ => None,
        },
        Opcode::RTI => Some(0x40),
        Opcode::RTS => Some(0x60),
        Opcode::SBC(m) => match m {
            AddressingMode::IndexedIndirect(_) => Some(0xE1),
            AddressingMode::ZeroPage(_) => Some(0xE5),
            AddressingMode::Immediate(_) => Some(0xE9),
            AddressingMode::Absolute(_) => Some(0xED),
            AddressingMode::IndirectIndexed(_) => Some(0xF1),
            AddressingMode::ZeroPageIndexedX(_) => Some(0xF5),
            AddressingMode::AbsoluteIndexedY(_) => Some(0xF9),
            AddressingMode::AbsoluteIndexedX(_) => Some(0xFD),
            _ => None,
        },
        Opcode::STA(m) => match m {
            AddressingMode::IndexedIndirect(_) => Some(0x81),
            AddressingMode::ZeroPage(_) => Some(0x85),
            AddressingMode::Absolute(_) => Some(0x8D),
            AddressingMode::IndirectIndexed(_) => Some(0x91),
            AddressingMode::ZeroPageIndexedX(_) => Some(0x95),
            AddressingMode::AbsoluteIndexedY(_) => Some(0x99),
            AddressingMode::AbsoluteIndexedX(_) => Some(0x9D),
            _ => None,
        },
        Opcode::TXS => Some(0x9A),
        Opcode::TSX => Some(0xBA),
        Opcode::PHA => Some(0x48),
        Opcode::PLA => Some(0x68),
        Opcode::PHP => Some(0x08),
        Opcode::PLP => Some(0x28),
        Opcode::STX(m) => match m {
            AddressingMode::ZeroPage(_) => Some(0x86),
            AddressingMode::Absolute(_) => Some(0x8E),
            AddressingMode::ZeroPageIndexedY(_) => Some(0x96),
            _ => None,
        },
        Opcode::STY(m) => match m {
            AddressingMode::ZeroPage(_) => Some(0x84),
            AddressingMode::Absolute(_) => Some(0x8C),
            AddressingMode::ZeroPageIndexedX(_) => Some(0x94),
            _ => None,
        },
    }
}

/// The instruction that the byte `b` stands for, with a zero operand; unknown bytes stand for
/// `NOP`.
#[verifier::opaque]
pub open spec fn decode_byte(b: u8) -> Opcode {
    match b {
        0x00 => Opcode::BRK,
        0x01 => Opcode::ORA(AddressingMode::IndexedIndirect(0)),
        0x05 => Opcode::ORA(AddressingMode::ZeroPage(0)),
        0x06 => Opcode::ASL(AddressingMode::ZeroPage(0)),
        0x08 => Opcode::PHP,
        0x09 => Opcode::ORA(AddressingMode::Immediate(0)),
        0x0A => Opcode::ASL(AddressingMode::Implicit),
        0x0D => Opcode::ORA(AddressingMode::Absolute(0)),
        0x0E => Opcode::ASL(AddressingMode::Absolute(0)),
        0x10 => Opcode::BPL(0),
        0x11 => Opcode::ORA(AddressingMode::IndirectIndexed(0)),
        0x15 => Opcode::ORA(AddressingMode::ZeroPageIndexedX(0)),
        0x16 => Opcode::ASL(AddressingMode::ZeroPageIndexedX(0)),
        0x18 => Opcode::CLC,
        0x19 => Opcode::ORA(AddressingMode::AbsoluteIndexedY(0)),
        0x1D => Opcode::ORA(AddressingMode::AbsoluteIndexedX(0)),
        0x1E => Opcode::ASL(AddressingMode::AbsoluteIndexedX(0)),
        0x20 => Opcode::JSR(AddressingMode::Absolute(0)),
        0x21 => Opcode::AND(AddressingMode::IndexedIndirect(0)),
        0x24 => Opcode::BIT(AddressingMode::ZeroPage(0)),
        0x25 => Opcode::AND(AddressingMode::ZeroPage(0)),
        0x26 => Opcode::ROL(AddressingMode::ZeroPage(0)),
        0x28 => Opcode::PLP,
        0x29 => Opcode::AND(AddressingMode::Immediate(0)),
        0x2A => Opcode::ROL(AddressingMode::Implicit),
        0x2C => Opcode::BIT(AddressingMode::Absolute(0)),
        0x2D => Opcode::AND(AddressingMode::Absolute(0)),
        0x2E => Opcode::ROL(AddressingMode::Absolute(0)),
        0x30 => Opcode::BMI(0),
        0x31 => Opcode::AND(AddressingMode::IndirectIndexed(0)),
        0x35 => Opcode::AND(AddressingMode::ZeroPageIndexedX(0)),
        0x36 => Opcode::ROL(AddressingMode::ZeroPageIndexedX(0)),
        0x38 => Opcode::SEC,
        0x39 => Opcode::AND(AddressingMode::AbsoluteIndexedY(0)),
        0x3D => Opcode::AND(AddressingMode::AbsoluteIndexedX(0)),
        0x3E => Opcode::ROL(AddressingMode::AbsoluteIndexedX(0)),
        0x40 => Opcode::RTI,
        0x41 => Opcode::EOR(AddressingMode::IndexedIndirect(0)),
        0x45 => Opcode::EOR(AddressingMode::ZeroPage(0)),
        0x46 => Opcode::LSR(AddressingMode::ZeroPage(0)),
        0x48 => Opcode::PHA,
        0x49 => Opcode::EOR(AddressingMode::Immediate(0)),
        0x4A => Opcode::LSR(AddressingMode::Implicit),
        0x4C => Opcode::JMP(AddressingMode::Absolute(0)),
        0x4D => Opcode::EOR(AddressingMode::Absolute(0)),
        0x4E => Opcode::LSR(AddressingMode::Absolute(0)),
        0x50 => Opcode::BVC(0),
        0x51 => Opcode::EOR(AddressingMode::IndirectIndexed(0)),
        0x55 => Opcode::EOR(AddressingMode::ZeroPageIndexedX(0)),
        0x56 => Opcode::LSR(AddressingMode::ZeroPageIndexedX(0)),
        0x58 => Opcode::CLI,
        0x59 => Opcode::EOR(AddressingMode::AbsoluteIndexedY(0)),
        0x5D => Opcode::EOR(AddressingMode::AbsoluteIndexedX(0)),
        0x5E => Opcode::LSR(AddressingMode::AbsoluteIndexedX(0)),
        0x60 => Opcode::RTS,
        0x61 => Opcode::ADC(AddressingMode::IndexedIndirect(0)),
        0x65 => Opcode::ADC(AddressingMode::ZeroPage(0)),
        0x66 => Opcode::ROR(AddressingMode::ZeroPage(0)),
        0x68 => Opcode::PLA,
        0x69 => Opcode::ADC(AddressingMode::Immediate(0)),
        0x6A => Opcode::ROR(AddressingMode::Implicit),
        0x6C => Opcode::JMP(AddressingMode::Indirect(0)),
        0x6D => Opcode::ADC(AddressingMode::Absolute(0)),
        0x6E => Opcode::ROR(AddressingMode::Absolute(0)),
        0x70 => Opcode::BVS(0),
        0x71 => Opcode::ADC(AddressingMode::IndirectIndexed(0)),
        0x75 => Opcode::ADC(AddressingMode::ZeroPageIndexedX(0)),
        0x76 => Opcode::ROR(AddressingMode::ZeroPageIndexedX(0)),
        0x78 => Opcode::SEI,
        0x79 => Opcode::ADC(AddressingMode::AbsoluteIndexedY(0)),
        0x7D => Opcode::ADC(AddressingMode::AbsoluteIndexedX(0)),
        0x7E => Opcode::ROR(AddressingMode::AbsoluteIndexedX(0)),
        0x81 => Opcode::STA(AddressingMode::IndexedIndirect(0)),
        0x84 => Opcode::STY(AddressingMode::ZeroPage(0)),
        0x85 => Opcode::STA(AddressingMode::ZeroPage(0)),
        0x86 => Opcode::STX(AddressingMode::ZeroPage(0)),
        0x88 => Opcode::DEY,
        0x8A => Opcode::TXA,
        0x8C => Opcode::STY(AddressingMode::Absolute(0)),
        0x8D => Opcode::STA(AddressingMode::Absolute(0)),
        0x8E => Opcode::STX(AddressingMode::Absolute(0)),
        0x90 => Opcode::BCC(0),
        0x91 => Opcode::STA(AddressingMode::IndirectIndexed(0)),
        0x94 => Opcode::STY(AddressingMode::ZeroPageIndexedX(0)),
        0x95 => Opcode::STA(AddressingMode::ZeroPageIndexedX(0)),
        0x96 => Opcode::STX(AddressingMode::ZeroPageIndexedY(0)),
        0x98 => Opcode::TYA,
        0x99 => Opcode::STA(AddressingMode::AbsoluteIndexedY(0)),
        0x9A => Opcode::TXS,
        0x9D => Opcode::STA(AddressingMode::AbsoluteIndexedX(0)),
        0xA0 => Opcode::LDY(AddressingMode::Immediate(0)),
        0xA1 => Opcode::LDA(AddressingMode::IndexedIndirect(0)),
        0xA2 => Opcode::LDX(AddressingMode::Immediate(0)),
        0xA4 => Opcode::LDY(AddressingMode::ZeroPage(0)),
        0xA5 => Opcode::LDA(AddressingMode::ZeroPage(0)),
        0xA6 => Opcode::LDX(AddressingMode::ZeroPage(0)),
        0xA8 => Opcode::TAY,
        0xA9 => Opcode::LDA(AddressingMode::Immediate(0)),
        0xAA => Opcode::TAX,
        0xAC => Opcode::LDY(AddressingMode::Absolute(0)),
        0xAD => Opcode::LDA(AddressingMode::Absolute(0)),
        0xAE => Opcode::LDX(AddressingMode::Absolute(0)),
        0xB0 => Opcode::BCS(0),
        0xB1 => Opcode::LDA(AddressingMode::IndirectIndexed(0)),
        0xB4 => Opcode::LDY(AddressingMode::ZeroPageIndexedX(0)),
        0xB5 => Opcode::LDA(AddressingMode::ZeroPageIndexedX(0)),
        0xB6 => Opcode::LDX(AddressingMode::ZeroPageIndexedY(0)),
        0xB8 => Opcode::CLV,
        0xB9 => Opcode::LDA(AddressingMode::AbsoluteIndexedY(0)),
        0xBA => Opcode::TSX,
        0xBC => Opcode::LDY(AddressingMode::AbsoluteIndexedX(0)),
        0xBD => Opcode::LDA(AddressingMode::AbsoluteIndexedX(0)),
        0xBE => Opcode::LDX(AddressingMode::AbsoluteIndexedY(0)),
        0xC0 => Opcode::CPY(AddressingMode::Immediate(0)),
        0xC1 => Opcode::CMP(AddressingMode::IndexedIndirect(0)),
        0xC4 => Opcode::CPY(AddressingMode::ZeroPage(0)),
        0xC5 => Opcode::CMP(AddressingMode::ZeroPage(0)),
        0xC6 => Opcode::DEC(AddressingMode::ZeroPage(0)),
        0xC8 => Opcode::INY,
        0xC9 => Opcode::CMP(AddressingMode::Immediate(0)),
        0xCA => Opcode::DEX,
        0xCC => Opcode::CPY(AddressingMode::Absolute(0)),
        0xCD => Opcode::CMP(AddressingMode::Absolute(0)),
        0xCE => Opcode::DEC(AddressingMode::Absolute(0)),
        0xD0 => Opcode::BNE(0),
        0xD1 => Opcode::CMP(AddressingMode::IndirectIndexed(0)),
        0xD5 => Opcode::CMP(AddressingMode::ZeroPageIndexedX(0)),
        0xD6 => Opcode::DEC(AddressingMode::ZeroPageIndexedX(0)),
        0xD9 => Opcode::CMP(AddressingMode::AbsoluteIndexedY(0)),
        0xDD => Opcode::CMP(AddressingMode::AbsoluteIndexedX(0)),
        0xDE => Opcode::DEC(AddressingMode::AbsoluteIndexedX(0)),
        0xE0 => Opcode::CPX(AddressingMode::Immediate(0)),
        0xE1 => Opcode::SBC(AddressingMode::IndexedIndirect(0)),
        0xE4 => Opcode::CPX(AddressingMode::ZeroPage(0)),
        0xE5 => Opcode::SBC(AddressingMode::ZeroPage(0)),
        0xE6 => Opcode::INC(AddressingMode::ZeroPage(0)),
        0xE8 => Opcode::INX,
        0xE9 => Opcode::SBC(AddressingMode::Immediate(0)),
        0xEA => Opcode::NOP,
        0xEC => Opcode::CPX(AddressingMode::Absolute(0)),
        0xED => Opcode::SBC(AddressingMode::Absolute(0)),
        0xEE => Opcode::INC(AddressingMode::Absolute(0)),
        0xF0 => Opcode::BEQ(0),
        0xF1 => Opcode::SBC(AddressingMode::IndirectIndexed(0)),
        0xF5 => Opcode::SBC(AddressingMode::ZeroPageIndexedX(0)),
        0xF6 => Opcode::INC(AddressingMode::ZeroPageIndexedX(0)),
        0xF9 => Opcode::SBC(AddressingMode::AbsoluteIndexedY(0)),
        0xFD => Opcode::SBC(AddressingMode::AbsoluteIndexedX(0)),
        0xFE => Opcode::INC(AddressingMode::AbsoluteIndexedX(0)),
        _ => Opcode::NOP,
    }
}

/// The instruction reads a first operand byte.
pub open spec fn op_needs_arg1(op: Opcode) -> bool {
    match op_mode(op) {
        Some(m) => mode_needs_arg1(m),
        None => branch_offset(op) is Some,
    }
}

/// The instruction reads a second operand byte.
pub open spec fn op_needs_arg2(op: Opcode) -> bool {
    match op_mode(op) {
        Some(m) => mode_needs_arg2(m),
        None => false,
    }
}

/// The instruction's address is resolved before it runs.
pub open spec fn op_needs_compute(op: Opcode) -> bool {
    match op_mode(op) {
        Some(m) => mode_needs_compute(m),
        None => false,
    }
}

/// The instruction with its first operand byte set to `arg`.
pub open spec fn op_with_arg1(op: Opcode, arg: u8) -> Opcode {
    match op_mode(op) {
        Some(m) => with_mode(op, mode_with_arg1(m, arg)),
        None => if branch_offset(op) is Some {
            with_offset(op, arg as i8)
        } else {
            op
        },
    }
}

/// The instruction with its second operand byte set to `arg`.
pub open spec fn op_with_arg2(op: Opcode, arg: u8) -> Opcode {
    match op_mode(op) {
        Some(m) => with_mode(op, mode_with_arg2(m, arg)),
        None => op,
    }
}

/// The bytes of one instruction: its instruction byte then its operand, little-endian.
pub open spec fn encoding(op: Opcode) -> Option<Seq<u8>> {
    match opcode_byte(op) {
        Some(b) => Some(
            seq![b] + match op_mode(op) {
                Some(m) => operand_bytes(m),
                None => match branch_offset(op) {
                    Some(d) => seq![d as u8],
                    None => seq![],
                },
            },
        ),
        None => None,
    }
}

/// Number of operand bytes that follow the instruction byte of `op`.
pub open spec fn operand_len(op: Opcode) -> nat {
    if op_needs_arg2(op) {
        2
    } else if op_needs_arg1(op) {
        1
    } else {
        0
    }
}

/// The instruction read from the front of `bytes`, the way the processor reads it: decode
/// the first byte, then take one or two operand bytes as the instruction requires.
pub open spec fn decoded(bytes: Seq<u8>) -> Opcode {
    let op = decode_byte(bytes[0]);
    let op1 = if op_needs_arg1(op) { op_with_arg1(op, bytes[1]) } else { op };
    if op_needs_arg2(op1) { op_with_arg2(op1, bytes[2]) } else { op1 }
}

impl AddressingMode {
    pub fn set_arg1(&mut self, arg: u8)
        ensures
            *final(self) == mode_with_arg1(*old(self), arg),
    {
        *self = match *self {
            AddressingMode::Implicit => AddressingMode::Implicit,
            AddressingMode::Immediate(_) => AddressingMode::Immediate(arg),
            AddressingMode::ZeroPage(_) => AddressingMode::ZeroPage(arg),
            AddressingMode::ZeroPageIndexedX(_) => AddressingMode::ZeroPageIndexedX(arg),
            AddressingMode::ZeroPageIndexedY(_) => AddressingMode::ZeroPageIndexedY(arg),
            AddressingMode::IndexedIndirect(_) => AddressingMode::IndexedIndirect(arg),
            AddressingMode::IndirectIndexed(_) => AddressingMode::IndirectIndexed(arg),
            AddressingMode::Absolute(_) => AddressingMode::Absolute(arg as u16),
            AddressingMode::Indirect(_) => AddressingMode::Indirect(arg as u16),
            AddressingMode::AbsoluteIndexedX(_) => AddressingMode::AbsoluteIndexedX(arg as u16),
            AddressingMode::AbsoluteIndexedY(_) => AddressingMode::AbsoluteIndexedY(arg as u16),
        };
    }

    pub fn set_arg2(&mut self, arg: u8)
        ensures
            *final(self) == mode_with_arg2(*old(self), arg),
    {
        *self = match *self {
            AddressingMode::Absolute(a) => AddressingMode::Absolute(a % 256 + arg as u16 * 256),
            AddressingMode::Indirect(a) => AddressingMode::Indirect(a % 256 + arg as u16 * 256),
            AddressingMode::AbsoluteIndexedX(a) => AddressingMode::AbsoluteIndexedX(
                a % 256 + arg as u16 * 256,
            ),
            AddressingMode::AbsoluteIndexedY(a) => AddressingMode::AbsoluteIndexedY(
                a % 256 + arg as u16 * 256,
            ),
            m => m,
        };
    }

    pub fn require_arg1(&self) -> (r: bool)
        ensures
            r == mode_needs_arg1(*self),
    {
        !matches!(self, AddressingMode::Implicit)
    }

    pub fn require_arg2(&self) -> (r: bool)
        ensures
            r == mode_needs_arg2(*self),
    {
        matches!(
            self,
            AddressingMode::Absolute(_) | AddressingMode::Indirect(_)
                | AddressingMode::AbsoluteIndexedX(_) | AddressingMode::AbsoluteIndexedY(_)
        )
    }

    pub fn need_compute(&self) -> (r: bool)
        ensures
            r == mode_needs_compute(*self),
    {
        matches!(
            self,
            AddressingMode::Indirect(_) | AddressingMode::ZeroPageIndexedX(_)
                | AddressingMode::ZeroPageIndexedY(_) | AddressingMode::AbsoluteIndexedX(_)
                | AddressingMode::AbsoluteIndexedY(_) | AddressingMode::IndexedIndirect(_)
                | AddressingMode::IndirectIndexed(_)
        )
    }
}

/// The instruction byte followed by `arg`, little-endian.
fn opcode_with_u16(opcode: u8, arg: u16) -> (r: Vec<u8>)
    ensures
        r@ == seq![opcode, (arg % 256) as u8, (arg / 256) as u8],
{
    let mut v: Vec<u8> = Vec::new();
    v.push(opcode);
    v.push((arg % 256) as u8);
    v.push((arg / 256) as u8);
    v
}

impl Opcode {
    /// The addressing mode, for an instruction that takes one.
    pub fn mode(&self) -> (r: Option<AddressingMode>)
        ensures
            r == op_mode(*self),
    {
        match *self {
            Opcode::ADC(m) => Some(m),
            Opcode::AND(m) => Some(m),
            Opcode::ASL(m) => Some(m),
            Opcode::BIT(m) => Some(m),
            Opcode::CMP(m) => Some(m),
            Opcode::CPX(m) => Some(m),
            Opcode::CPY(m) => Some(m),
            Opcode::DEC(m) => Some(m),
            Opcode::EOR(m) => Some(m),
            Opcode::INC(m) => Some(m),
            Opcode::JMP(m) => Some(m),
            Opcode::JSR(m) => Some(m),
            Opcode::LDA(m) => Some(m),
            Opcode::LDX(m) => Some(m),
            Opcode::LDY(m) => Some(m),
            Opcode::LSR(m) => Some(m),
            Opcode::ORA(m) => Some(m),
            Opcode::ROL(m) => Some(m),
            Opcode::ROR(m) => Some(m),
            Opcode::SBC(m) => Some(m),
            Opcode::STA(m) => Some(m),
            Opcode::STX(m) => Some(m),
            Opcode::STY(m) => Some(m),
            _ => None,
        }
    }

    /// The same instruction in addressing mode `m`.
    pub fn with_mode(&self, m: AddressingMode) -> (r: Opcode)
        ensures
            r == with_mode(*self, m),
    {
        match *self {
            Opcode::ADC(_) => Opcode::ADC(m),
            Opcode::AND(_) => Opcode::AND(m),
            Opcode::ASL(_) => Opcode::ASL(m),
            Opcode::BIT(_) => Opcode::BIT(m),
            Opcode::CMP(_) => Opcode::CMP(m),
            Opcode::CPX(_) => Opcode::CPX(m),
            Opcode::CPY(_) => Opcode::CPY(m),
            Opcode::DEC(_) => Opcode::DEC(m),
            Opcode::EOR(_) => Opcode::EOR(m),
            Opcode::INC(_) => Opcode::INC(m),
            Opcode::JMP(_) => Opcode::JMP(m),
            Opcode::JSR(_) => Opcode::JSR(m),
            Opcode::LDA(_) => Opcode::LDA(m),
            Opcode::LDX(_) => Opcode::LDX(m),
            Opcode::LDY(_) => Opcode::LDY(m),
            Opcode::LSR(_) => Opcode::LSR(m),
            Opcode::ORA(_) => Opcode::ORA(m),
            Opcode::ROL(_) => Opcode::ROL(m),
            Opcode::ROR(_) => Opcode::ROR(m),
            Opcode::SBC(_) => Opcode::SBC(m),
            Opcode::STA(_) => Opcode::STA(m),
            Opcode::STX(_) => Opcode::STX(m),
            Opcode::STY(_) => Opcode::STY(m),
            op => op,
        }
    }

    /// The displacement, for a branch instruction.
    pub fn offset(&self) -> (r: Option<i8>)
        ensures
            r == branch_offset(*self),
    {
        match *self {
            Opcode::BPL(d) => Some(d),
            Opcode::BMI(d) => Some(d),
            Opcode::BVC(d) => Some(d),
            Opcode::BVS(d) => Some(d),
            Opcode::BCC(d) => Some(d),
            Opcode::BCS(d) => Some(d),
            Opcode::BNE(d) => Some(d),
            Opcode::BEQ(d) => Some(d),
            _ => None,
        }
    }

    fn with_offset(&self, d: i8) -> (r: Opcode)
        ensures
            r == with_offset(*self, d),
    {
        match *self {
            Opcode::BPL(_) => Opcode::BPL(d),
            Opcode::BMI(_) => Opcode::BMI(d),
            Opcode::BVC(_) => Opcode::BVC(d),
            Opcode::BVS(_) => Opcode::BVS(d),
            Opcode::BCC(_) => Opcode::BCC(d),
            Opcode::BCS(_) => Opcode::BCS(d),
            Opcode::BNE(_) => Opcode::BNE(d),
            Opcode::BEQ(_) => Opcode::BEQ(d),
            op => op,
        }
    }

    /// The instruction byte, or `None` where the addressing mode has no encoding.
    pub fn opcode_byte(&self) -> (r: Option<u8>)
        ensures
            r == opcode_byte(*self),
    {
        match *self {
            Opcode::ADC(m) => match m {
                AddressingMode::IndexedIndirect(_) => Some(0x61),
                AddressingMode::ZeroPage(_) => Some(0x65),
                AddressingMode::Immediate(_) => Some(0x69),
                AddressingMode::Absolute(_) => Some(0x6D),
                AddressingMode::IndirectIndexed(_) => Some(0x71),
                AddressingMode::ZeroPageIndexedX(_) => Some(0x75),
                AddressingMode::AbsoluteIndexedY(_) => Some(0x79),
                AddressingMode::AbsoluteIndexedX(_) => Some(0x7D),
                _ => None,
            },
            Opcode::AND(m) => match m {
                AddressingMode::IndexedIndirect(_) => Some(0x21),
                AddressingMode::ZeroPage(_) => Some(0x25),
                AddressingMode::Immediate(_) => Some(0x29),
                AddressingMode::Absolute(_) => Some(0x2D),
                AddressingMode::IndirectIndexed(_) => Some(0x31),
                AddressingMode::ZeroPageIndexedX(_) => Some(0x35),
                AddressingMode::AbsoluteIndexedY(_) => Some(0x39),
                AddressingMode::AbsoluteIndexedX(_) => Some(0x3D),
                _ => None,
            },
            Opcode::ASL(m) => match m {
                AddressingMode::ZeroPage(_) => Some(0x06),
                AddressingMode::Implicit => Some(0x0A),
                AddressingMode::Absolute(_) => Some(0x0E),
                AddressingMode::ZeroPageIndexedX(_) => Some(0x16),
                AddressingMode::AbsoluteIndexedX(_) => Some(0x1E),
                _ => None,
            },
            Opcode::BIT(m) => match m {
                AddressingMode::ZeroPage(_) => Some(0x24),
                AddressingMode::Absolute(_) => Some(0x2C),
                _ => None,
            },
            Opcode::BPL(_) => Some(0x10),
            Opcode::BMI(_) => Some(0x30),
            Opcode::BVC(_) => Some(0x50),
            Opcode::BVS(_) => Some(0x70),
            Opcode::BCC(_) => Some(0x90),
            Opcode::BCS(_) => Some(0xB0),
            Opcode::BNE(_) => Some(0xD0),
            Opcode::BEQ(_) => Some(0xF0),
            Opcode::BRK => Some(0x00),
            Opcode::CMP(m) => match m {
                AddressingMode::IndexedIndirect(_) => Some(0xC1),
                AddressingMode::ZeroPage(_) => Some(0xC5),
                AddressingMode::Immediate(_) => Some(0xC9),
                AddressingMode::Absolute(_) => Some(0xCD),
                AddressingMode::IndirectIndexed(_) => Some(0xD1),
                AddressingMode::ZeroPageIndexedX(_) => Some(0xD5),
                AddressingMode::AbsoluteIndexedY(_) => Some(0xD9),
                AddressingMode::AbsoluteIndexedX(_) => Some(0xDD),
                _ => None,
            },
            Opcode::CPX(m) => match m {
                AddressingMode::Immediate(_) => Some(0xE0),
                AddressingMode::ZeroPage(_) => Some(0xE4),
                AddressingMode::Absolute(_) => Some(0xEC),
                _ => None,
            },
            Opcode::CPY(m) => match m {
                AddressingMode::Immediate(_) => Some(0xC0),
                AddressingMode::ZeroPage(_) => Some(0xC4),
                AddressingMode::Absolute(_) => Some(0xCC),
                _ => None,
            },
            Opcode::DEC(m) => match m {
                AddressingMode::ZeroPage(_) => Some(0xC6),
                AddressingMode::Absolute(_) => Some(0xCE),
                AddressingMode::ZeroPageIndexedX(_) => Some(0xD6),
                AddressingMode::AbsoluteIndexedX(_) => Some(0xDE),
                _ => None,
            },
            Opcode::EOR(m) => match m {
                AddressingMode::IndexedIndirect(_) => Some(0x41),
                AddressingMode::ZeroPage(_) => Some(0x45),
                AddressingMode::Immediate(_) => Some(0x49),
                AddressingMode::Absolute(_) => Some(0x4D),
                AddressingMode::IndirectIndexed(_) => Some(0x51),
                AddressingMode::ZeroPageIndexedX(_) => Some(0x55),
                AddressingMode::AbsoluteIndexedY(_) => Some(0x59),
                AddressingMode::AbsoluteIndexedX(_) => Some(0x5D),
                _ => None,
            },
            Opcode::CLC => Some(0x18),
            Opcode::SEC => Some(0x38),
            Opcode::CLI => Some(0x58),
            Opcode::SEI => Some(0x78),
            Opcode::CLV => Some(0xB8),
            Opcode::INC(m) => match m {
                AddressingMode::ZeroPage(_) => Some(0xE6),
                AddressingMode::Absolute(_) => Some(0xEE),
                AddressingMode::ZeroPageIndexedX(_) => Some(0xF6),
                AddressingMode::AbsoluteIndexedX(_) => Some(0xFE),
                _ => None,
            },
            Opcode::JMP(m) => match m {
                AddressingMode::Absolute(_) => Some(0x4C),
                AddressingMode::Indirect(_) => Some(0x6C),
                _ => None,
            },
            Opcode::JSR(m) => match m {
                AddressingMode::Absolute(_) => Some(0x20),
                _ => None,
            },
            Opcode::LDA(m) => match m {
                AddressingMode::IndexedIndirect(_) => Some(0xA1),
                AddressingMode::ZeroPage(_) => Some(0xA5),
                AddressingMode::Immediate(_) => Some(0xA9),
                AddressingMode::Absolute(_) => Some(0xAD),
                AddressingMode::IndirectIndexed(_) => Some(0xB1),
                AddressingMode::ZeroPageIndexedX(_) => Some(0xB5),
                AddressingMode::AbsoluteIndexedY(_) => Some(0xB9),
                AddressingMode::AbsoluteIndexedX(_) => Some(0xBD),
                _ => None,
            },
            Opcode::LDX(m) => match m {
                AddressingMode::Immediate(_) => Some(0xA2),
                AddressingMode::ZeroPage(_) => Some(0xA6),
                AddressingMode::Absolute(_) => Some(0xAE),
                AddressingMode::ZeroPageIndexedY(_) => Some(0xB6),
                AddressingMode::AbsoluteIndexedY(_) => Some(0xBE),
                _ => None,
            },
            Opcode::LDY(m) => match m {
                AddressingMode::Immediate(_) => Some(0xA0),
                AddressingMode::ZeroPage(_) => Some(0xA4),
                AddressingMode::Absolute(_) => Some(0xAC),
                AddressingMode::ZeroPageIndexedX(_) => Some(0xB4),
                AddressingMode::AbsoluteIndexedX(_) => Some(0xBC),
                _ => None,
            },
            Opcode::LSR(m) => match m {
                AddressingMode::Implicit => Some(0x4A),
                AddressingMode::ZeroPage(_) => Some(0x46),
                AddressingMode::Absolute(_) => Some(0x4E),
                AddressingMode::ZeroPageIndexedX(_) => Some(0x56),
                AddressingMode::AbsoluteIndexedX(_) => Some(0x5E),
                _ => None,
            },
            Opcode::NOP => Some(0xEA),
            Opcode::ORA(m) => match m {
                AddressingMode::IndexedIndirect(_) => Some(0x01),
                AddressingMode::ZeroPage(_) => Some(0x05),
                AddressingMode::Immediate(_) => Some(0x09),
                AddressingMode::Absolute(_) => Some(0x0D),
                AddressingMode::IndirectIndexed(_) => Some(0x11),
                AddressingMode::ZeroPageIndexedX(_) => Some(0x15),
                AddressingMode::AbsoluteIndexedY(_) => Some(0x19),
                AddressingMode::AbsoluteIndexedX(_) => Some(0x1D),
                _ => None,
            },
            Opcode::TAX => Some(0xAA),
            Opcode::TXA => Some(0x8A),
            Opcode::DEX => Some(0xCA),
            Opcode::INX => Some(0xE8),
            Opcode::TAY => Some(0xA8),
            Opcode::TYA => Some(0x98),
            Opcode::DEY => Some(0x88),
            Opcode::INY => Some(0xC8),
            Opcode::ROL(m) => match m {
                AddressingMode::Implicit => Some(0x2A),
                AddressingMode::ZeroPage(_) => Some(0x26),
                AddressingMode::Absolute(_) => Some(0x2E),
                AddressingMode::ZeroPageIndexedX(_) => Some(0x36),
                AddressingMode::AbsoluteIndexedX(_) => Some(0x3E),
                _ => None,
            },
            Opcode::ROR(m) => match m {
                AddressingMode::Implicit => Some(0x6A),
                AddressingMode::ZeroPage(_) => Some(0x66),
                AddressingMode::Absolute(_) => Some(0x6E),
                AddressingMode::ZeroPageIndexedX(_) => Some(0x76),
                AddressingMode::AbsoluteIndexedX(_) => Some(0x7E),
                _ => None,
            },
            Opcode::RTI => Some(0x40),
            Opcode::RTS => Some(0x60),
            Opcode::SBC(m) => match m {
                AddressingMode::IndexedIndirect(_) => Some(0xE1),
                AddressingMode::ZeroPage(_) => Some(0xE5),
                AddressingMode::Immediate(_) => Some(0xE9),
                AddressingMode::Absolute(_) => Some(0xED),
                AddressingMode::IndirectIndexed(_) => Some(0xF1),
                AddressingMode::ZeroPageIndexedX(_) => Some(0xF5),
                AddressingMode::AbsoluteIndexedY(_) => Some(0xF9),
                AddressingMode::AbsoluteIndexedX(_) => Some(0xFD),
                _ => None,
            },
            Opcode::STA(m) => match m {
                AddressingMode::IndexedIndirect(_) => Some(0x81),
                AddressingMode::ZeroPage(_) => Some(0x85),
                AddressingMode::Absolute(_) => Some(0x8D),
                AddressingMode::IndirectIndexed(_) => Some(0x91),
                AddressingMode::ZeroPageIndexedX(_) => Some(0x95),
                AddressingMode::AbsoluteIndexedY(_) => Some(0x99),
                AddressingMode::AbsoluteIndexedX(_) => Some(0x9D),
                _ => None,
            },
            Opcode::TXS => Some(0x9A),
            Opcode::TSX => Some(0xBA),
            Opcode::PHA => Some(0x48),
            Opcode::PLA => Some(0x68),
            Opcode::PHP => Some(0x08),
            Opcode::PLP => Some(0x28),
            Opcode::STX(m) => match m {
                AddressingMode::ZeroPage(_) => Some(0x86),
                AddressingMode::Absolute(_) => Some(0x8E),
                AddressingMode::ZeroPageIndexedY(_) => Some(0x96),
                _ => None,
            },
            Opcode::STY(m) => match m {
                AddressingMode::ZeroPage(_) => Some(0x84),
                AddressingMode::Absolute(_) => Some(0x8C),
                AddressingMode::ZeroPageIndexedX(_) => Some(0x94),
                _ => None,
            },
        }
    }

    /// The instruction that `byte` stands for, with a zero operand; unknown bytes decode as
    /// `NOP`.
    pub fn decode(byte: u8) -> (r: Opcode)
        ensures
            r == decode_byte(byte),
    {
        proof {
            reveal(decode_byte);
        }
        match byte {
            0x00 => Opcode::BRK,
            0x01 => Opcode::ORA(AddressingMode::IndexedIndirect(0)),
            0x05 => Opcode::ORA(AddressingMode::ZeroPage(0)),
            0x06 => Opcode::ASL(AddressingMode::ZeroPage(0)),
            0x08 => Opcode::PHP,
            0x09 => Opcode::ORA(AddressingMode::Immediate(0)),
            0x0A => Opcode::ASL(AddressingMode::Implicit),
            0x0D => Opcode::ORA(AddressingMode::Absolute(0)),
            0x0E => Opcode::ASL(AddressingMode::Absolute(0)),
            0x10 => Opcode::BPL(0),
            0x11 => Opcode::ORA(AddressingMode::IndirectIndexed(0)),
            0x15 => Opcode::ORA(AddressingMode::ZeroPageIndexedX(0)),
            0x16 => Opcode::ASL(AddressingMode::ZeroPageIndexedX(0)),
            0x18 => Opcode::CLC,
            0x19 => Opcode::ORA(AddressingMode::AbsoluteIndexedY(0)),
            0x1D => Opcode::ORA(AddressingMode::AbsoluteIndexedX(0)),
            0x1E => Opcode::ASL(AddressingMode::AbsoluteIndexedX(0)),
            0x20 => Opcode::JSR(AddressingMode::Absolute(0)),
            0x21 => Opcode::AND(AddressingMode::IndexedIndirect(0)),
            0x24 => Opcode::BIT(AddressingMode::ZeroPage(0)),
            0x25 => Opcode::AND(AddressingMode::ZeroPage(0)),
            0x26 => Opcode::ROL(AddressingMode::ZeroPage(0)),
            0x28 => Opcode::PLP,
            0x29 => Opcode::AND(AddressingMode::Immediate(0)),
            0x2A => Opcode::ROL(AddressingMode::Implicit),
            0x2C => Opcode::BIT(AddressingMode::Absolute(0)),
            0x2D => Opcode::AND(AddressingMode::Absolute(0)),
            0x2E => Opcode::ROL(AddressingMode::Absolute(0)),
            0x30 => Opcode::BMI(0),
            0x31 => Opcode::AND(AddressingMode::IndirectIndexed(0)),
            0x35 => Opcode::AND(AddressingMode::ZeroPageIndexedX(0)),
            0x36 => Opcode::ROL(AddressingMode::ZeroPageIndexedX(0)),
            0x38 => Opcode::SEC,
            0x39 => Opcode::AND(AddressingMode::AbsoluteIndexedY(0)),
            0x3D => Opcode::AND(AddressingMode::AbsoluteIndexedX(0)),
            0x3E => Opcode::ROL(AddressingMode::AbsoluteIndexedX(0)),
            0x40 => Opcode::RTI,
            0x41 => Opcode::EOR(AddressingMode::IndexedIndirect(0)),
            0x45 => Opcode::EOR(AddressingMode::ZeroPage(0)),
            0x46 => Opcode::LSR(AddressingMode::ZeroPage(0)),
            0x48 => Opcode::PHA,
            0x49 => Opcode::EOR(AddressingMode::Immediate(0)),
            0x4A => Opcode::LSR(AddressingMode::Implicit),
            0x4C => Opcode::JMP(AddressingMode::Absolute(0)),
            0x4D => Opcode::EOR(AddressingMode::Absolute(0)),
            0x4E => Opcode::LSR(AddressingMode::Absolute(0)),
            0x50 => Opcode::BVC(0),
            0x51 => Opcode::EOR(AddressingMode::IndirectIndexed(0)),
            0x55 => Opcode::EOR(AddressingMode::ZeroPageIndexedX(0)),
            0x56 => Opcode::LSR(AddressingMode::ZeroPageIndexedX(0)),
            0x58 => Opcode::CLI,
            0x59 => Opcode::EOR(AddressingMode::AbsoluteIndexedY(0)),
            0x5D => Opcode::EOR(AddressingMode::AbsoluteIndexedX(0)),
            0x5E => Opcode::LSR(AddressingMode::AbsoluteIndexedX(0)),
            0x60 => Opcode::RTS,
            0x61 => Opcode::ADC(AddressingMode::IndexedIndirect(0)),
            0x65 => Opcode::ADC(AddressingMode::ZeroPage(0)),
            0x66 => Opcode::ROR(AddressingMode::ZeroPage(0)),
            0x68 => Opcode::PLA,
            0x69 => Opcode::ADC(AddressingMode::Immediate(0)),
            0x6A => Opcode::ROR(AddressingMode::Implicit),
            0x6C => Opcode::JMP(AddressingMode::Indirect(0)),
            0x6D => Opcode::ADC(AddressingMode::Absolute(0)),
            0x6E => Opcode::ROR(AddressingMode::Absolute(0)),
            0x70 => Opcode::BVS(0),
            0x71 => Opcode::ADC(AddressingMode::IndirectIndexed(0)),
            0x75 => Opcode::ADC(AddressingMode::ZeroPageIndexedX(0)),
            0x76 => Opcode::ROR(AddressingMode::ZeroPageIndexedX(0)),
            0x78 => Opcode::SEI,
            0x79 => Opcode::ADC(AddressingMode::AbsoluteIndexedY(0)),
            0x7D => Opcode::ADC(AddressingMode::AbsoluteIndexedX(0)),
            0x7E => Opcode::ROR(AddressingMode::AbsoluteIndexedX(0)),
            0x81 => Opcode::STA(AddressingMode::IndexedIndirect(0)),
            0x84 => Opcode::STY(AddressingMode::ZeroPage(0)),
            0x85 => Opcode::STA(AddressingMode::ZeroPage(0)),
            0x86 => Opcode::STX(AddressingMode::ZeroPage(0)),
            0x88 => Opcode::DEY,
            0x8A => Opcode::TXA,
            0x8C => Opcode::STY(AddressingMode::Absolute(0)),
            0x8D => Opcode::STA(AddressingMode::Absolute(0)),
            0x8E => Opcode::STX(AddressingMode::Absolute(0)),
            0x90 => Opcode::BCC(0),
            0x91 => Opcode::STA(AddressingMode::IndirectIndexed(0)),
            0x94 => Opcode::STY(AddressingMode::ZeroPageIndexedX(0)),
            0x95 => Opcode::STA(AddressingMode::ZeroPageIndexedX(0)),
            0x96 => Opcode::STX(AddressingMode::ZeroPageIndexedY(0)),
            0x98 => Opcode::TYA,
            0x99 => Opcode::STA(AddressingMode::AbsoluteIndexedY(0)),
            0x9A => Opcode::TXS,
            0x9D => Opcode::STA(AddressingMode::AbsoluteIndexedX(0)),
            0xA0 => Opcode::LDY(AddressingMode::Immediate(0)),
            0xA1 => Opcode::LDA(AddressingMode::IndexedIndirect(0)),
            0xA2 => Opcode::LDX(AddressingMode::Immediate(0)),
            0xA4 => Opcode::LDY(AddressingMode::ZeroPage(0)),
            0xA5 => Opcode::LDA(AddressingMode::ZeroPage(0)),
            0xA6 => Opcode::LDX(AddressingMode::ZeroPage(0)),
            0xA8 => Opcode::TAY,
            0xA9 => Opcode::LDA(AddressingMode::Immediate(0)),
            0xAA => Opcode::TAX,
            0xAC => Opcode::LDY(AddressingMode::Absolute(0)),
            0xAD => Opcode::LDA(AddressingMode::Absolute(0)),
            0xAE => Opcode::LDX(AddressingMode::Absolute(0)),
            0xB0 => Opcode::BCS(0),
            0xB1 => Opcode::LDA(AddressingMode::IndirectIndexed(0)),
            0xB4 => Opcode::LDY(AddressingMode::ZeroPageIndexedX(0)),
            0xB5 => Opcode::LDA(AddressingMode::ZeroPageIndexedX(0)),
            0xB6 => Opcode::LDX(AddressingMode::ZeroPageIndexedY(0)),
            0xB8 => Opcode::CLV,
            0xB9 => Opcode::LDA(AddressingMode::AbsoluteIndexedY(0)),
            0xBA => Opcode::TSX,
            0xBC => Opcode::LDY(AddressingMode::AbsoluteIndexedX(0)),
            0xBD => Opcode::LDA(AddressingMode::AbsoluteIndexedX(0)),
            0xBE => Opcode::LDX(AddressingMode::AbsoluteIndexedY(0)),
            0xC0 => Opcode::CPY(AddressingMode::Immediate(0)),
            0xC1 => Opcode::CMP(AddressingMode::IndexedIndirect(0)),
            0xC4 => Opcode::CPY(AddressingMode::ZeroPage(0)),
            0xC5 => Opcode::CMP(AddressingMode::ZeroPage(0)),
            0xC6 => Opcode::DEC(AddressingMode::ZeroPage(0)),
            0xC8 => Opcode::INY,
            0xC9 => Opcode::CMP(AddressingMode::Immediate(0)),
            0xCA => Opcode::DEX,
            0xCC => Opcode::CPY(AddressingMode::Absolute(0)),
            0xCD => Opcode::CMP(AddressingMode::Absolute(0)),
            0xCE => Opcode::DEC(AddressingMode::Absolute(0)),
            0xD0 => Opcode::BNE(0),
            0xD1 => Opcode::CMP(AddressingMode::IndirectIndexed(0)),
            0xD5 => Opcode::CMP(AddressingMode::ZeroPageIndexedX(0)),
            0xD6 => Opcode::DEC(AddressingMode::ZeroPageIndexedX(0)),
            0xD9 => Opcode::CMP(AddressingMode::AbsoluteIndexedY(0)),
            0xDD => Opcode::CMP(AddressingMode::AbsoluteIndexedX(0)),
            0xDE => Opcode::DEC(AddressingMode::AbsoluteIndexedX(0)),
            0xE0 => Opcode::CPX(AddressingMode::Immediate(0)),
            0xE1 => Opcode::SBC(AddressingMode::IndexedIndirect(0)),
            0xE4 => Opcode::CPX(AddressingMode::ZeroPage(0)),
            0xE5 => Opcode::SBC(AddressingMode::ZeroPage(0)),
            0xE6 => Opcode::INC(AddressingMode::ZeroPage(0)),
            0xE8 => Opcode::INX,
            0xE9 => Opcode::SBC(AddressingMode::Immediate(0)),
            0xEA => Opcode::NOP,
            0xEC => Opcode::CPX(AddressingMode::Absolute(0)),
            0xED => Opcode::SBC(AddressingMode::Absolute(0)),
            0xEE => Opcode::INC(AddressingMode::Absolute(0)),
            0xF0 => Opcode::BEQ(0),
            0xF1 => Opcode::SBC(AddressingMode::IndirectIndexed(0)),
            0xF5 => Opcode::SBC(AddressingMode::ZeroPageIndexedX(0)),
            0xF6 => Opcode::INC(AddressingMode::ZeroPageIndexedX(0)),
            0xF9 => Opcode::SBC(AddressingMode::AbsoluteIndexedY(0)),
            0xFD => Opcode::SBC(AddressingMode::AbsoluteIndexedX(0)),
            0xFE => Opcode::INC(AddressingMode::AbsoluteIndexedX(0)),
            _ => Opcode::NOP,
        }
    }

    pub fn set_arg1(&mut self, arg: u8)
        ensures
            *final(self) == op_with_arg1(*old(self), arg),
    {
        match self.mode() {
            Some(m) => {
                let mut m = m;
                m.set_arg1(arg);
                *self = self.with_mode(m);
            },
            None => {
                if self.offset().is_some() {
                    *self = self.with_offset(arg as i8);
                }
            },
        }
    }

    pub fn set_arg2(&mut self, arg: u8)
        ensures
            *final(self) == op_with_arg2(*old(self), arg),
    {
        match self.mode() {
            Some(m) => {
                let mut m = m;
                m.set_arg2(arg);
                *self = self.with_mode(m);
            },
            None => {},
        }
    }

    pub fn require_arg1(&self) -> (r: bool)
        ensures
            r == op_needs_arg1(*self),
    {
        match self.mode() {
            Some(m) => m.require_arg1(),
            None => self.offset().is_some(),
        }
    }

    pub fn require_arg2(&self) -> (r: bool)
        ensures
            r == op_needs_arg2(*self),
    {
        match self.mode() {
            Some(m) => m.require_arg2(),
            None => false,
        }
    }

    pub fn need_compute(&self) -> (r: bool)
        ensures
            r == op_needs_compute(*self),
    {
        match self.mode() {
            Some(m) => m.need_compute(),
            None => false,
        }
    }

    /// The bytes of this instruction, or `InvalidAddressMode` where its addressing mode has
    /// no encoding.
    pub fn to_bytes(&self) -> (r: Result<Vec<u8>, ParseError>)
        ensures
            match encoding(*self) {
                Some(s) => r is Ok && r->Ok_0@ == s,
                None => r == Err::<Vec<u8>, ParseError>(ParseError::InvalidAddressMode(*self)),
            },
    {
        let b = match self.opcode_byte() {
            Some(b) => b,
            None => {
                return Err(ParseError::InvalidAddressMode(*self));
            },
        };
        let mut v: Vec<u8> = Vec::new();
        match self.mode() {
            Some(m) => match m {
                AddressingMode::Implicit => {
                    v.push(b);
                },
                AddressingMode::Immediate(x) | AddressingMode::ZeroPage(x)
                | AddressingMode::ZeroPageIndexedX(x) | AddressingMode::ZeroPageIndexedY(x)
                | AddressingMode::IndexedIndirect(x) | AddressingMode::IndirectIndexed(x) => {
                    v.push(b);
                    v.push(x);
                },
                AddressingMode::Absolute(a) | AddressingMode::Indirect(a)
                | AddressingMode::AbsoluteIndexedX(a) | AddressingMode::AbsoluteIndexedY(a) => {
                    v = opcode_with_u16(b, a);
                },
            },
            None => {
                v.push(b);
                match self.offset() {
                    Some(d) => v.push(d as u8),
                    None => {},
                }
            },
        }
        proof {
            assert(v@ =~= encoding(*self)->Some_0);
        }
        Ok(v)
    }
}

impl From<u8> for Opcode {
    fn from(value: u8) -> (r: Opcode) {
        Opcode::decode(value)
    }
}

impl vstd::std_specs::convert::FromSpecImpl<u8> for Opcode {
    open spec fn obeys_from_spec() -> bool {
        true
    }

    open spec fn from_spec(v: u8) -> Opcode {
        decode_byte(v)
    }
}

proof fn lemma_u16_bytes(a: u16)
    ensures
        with_high_byte(((a % 256) as u8) as u16, (a / 256) as u8) == a,
{
}

proof fn lemma_i8_byte(d: i8)
    ensures
        ((d as u8) as i8) == d,
{
    assert(((d as u8) as i8) == d) by (bit_vector);
}

proof fn lemma_round_trip_adc(m: AddressingMode)
    requires
        opcode_byte(Opcode::ADC(m)) is Some,
    ensures
        decoded(encoding(Opcode::ADC(m))->Some_0) == Opcode::ADC(m),
        encoding(Opcode::ADC(m))->Some_0.len() == 1 + operand_len(
            decode_byte(encoding(Opcode::ADC(m))->Some_0[0]),
        ),
{
    reveal(decode_byte);
    match m {
        AddressingMode::IndexedIndirect(v) => {
            assert(decode_byte(0x61) == Opcode::ADC(AddressingMode::IndexedIndirect(0)));
        },
        AddressingMode::ZeroPage(v) => {
            assert(decode_byte(0x65) == Opcode::ADC(AddressingMode::ZeroPage(0)));
        },
        AddressingMode::Immediate(v) => {
            assert(decode_byte(0x69) == Opcode::ADC(AddressingMode::Immediate(0)));
        },
        AddressingMode::Absolute(a) => {
            lemma_u16_bytes(a);
            assert(decode_byte(0x6D) == Opcode::ADC(AddressingMode::Absolute(0)));
        },
        AddressingMode::IndirectIndexed(v) => {
            assert(decode_byte(0x71) == Opcode::ADC(AddressingMode::IndirectIndexed(0)));
        },
        AddressingMode::ZeroPageIndexedX(v) => {
            assert(decode_byte(0x75) == Opcode::ADC(AddressingMode::ZeroPageIndexedX(0)));
        },
        AddressingMode::AbsoluteIndexedY(a) => {
            lemma_u16_bytes(a);
            assert(decode_byte(0x79) == Opcode::ADC(AddressingMode::AbsoluteIndexedY(0)));
        },
        AddressingMode::AbsoluteIndexedX(a) => {
            lemma_u16_bytes(a);
            assert(decode_byte(0x7D) == Opcode::ADC(AddressingMode::AbsoluteIndexedX(0)));
        },
        _ => {},
    }
}

proof fn lemma_round_trip_and(m: AddressingMode)
    requires
        opcode_byte(Opcode::AND(m)) is Some,
    ensures
        decoded(encoding(Opcode::AND(m))->Some_0) == Opcode::AND(m),
        encoding(Opcode::AND(m))->Some_0.len() == 1 + operand_len(
            decode_byte(encoding(Opcode::AND(m))->Some_0[0]),
        ),
{
    reveal(decode_byte);
    match m {
        AddressingMode::IndexedIndirect(v) => {
            assert(decode_byte(0x21) == Opcode::AND(AddressingMode::IndexedIndirect(0)));
        },
        AddressingMode::ZeroPage(v) => {
            assert(decode_byte(0x25) == Opcode::AND(AddressingMode::ZeroPage(0)));
        },
        AddressingMode::Immediate(v) => {
            assert(decode_byte(0x29) == Opcode::AND(AddressingMode::Immediate(0)));
        },
        AddressingMode::Absolute(a) => {
            lemma_u16_bytes(a);
            assert(decode_byte(0x2D) == Opcode::AND(AddressingMode::Absolute(0)));
        },
        AddressingMode::IndirectIndexed(v) => {
            assert(decode_byte(0x31) == Opcode::AND(AddressingMode::IndirectIndexed(0)));
        },
        AddressingMode::ZeroPageIndexedX(v) => {
            assert(decode_byte(0x35) == Opcode::AND(AddressingMode::ZeroPageIndexedX(0)));
        },
        AddressingMode::AbsoluteIndexedY(a) => {
            lemma_u16_bytes(a);
            assert(decode_byte(0x39) == Opcode::AND(AddressingMode::AbsoluteIndexedY(0)));
        },
        AddressingMode::AbsoluteIndexedX(a) => {
            lemma_u16_bytes(a);
            assert(decode_byte(0x3D) == Opcode::AND(AddressingMode::AbsoluteIndexedX(0)));
        },
        _ => {},
    }
}

proof fn lemma_round_trip_asl(m: AddressingMode)
    requires
        opcode_byte(Opcode::ASL(m)) is Some,
    ensures
        decoded(encoding(Opcode::ASL(m))->Some_0) == Opcode::ASL(m),
        encoding(Opcode::ASL(m))->Some_0.len() == 1 + operand_len(
            decode_byte(encoding(Opcode::ASL(m))->Some_0[0]),
        ),
{
    reveal(decode_byte);
    match m {
        AddressingMode::ZeroPage(v) => {
            assert(decode_byte(0x06) == Opcode::ASL(AddressingMode::ZeroPage(0)));
        },
        AddressingMode::Implicit => {
            assert(decode_byte(0x0A) == Opcode::ASL(AddressingMode::Implicit));
        },
        AddressingMode::Absolute(a) => {
            lemma_u16_bytes(a);
            assert(decode_byte(0x0E) == Opcode::ASL(AddressingMode::Absolute(0)));
        },
        AddressingMode::ZeroPageIndexedX(v) => {
            assert(decode_byte(0x16) == Opcode::ASL(AddressingMode::ZeroPageIndexedX(0)));
        },
        AddressingMode::AbsoluteIndexedX(a) => {
            lemma_u16_bytes(a);
            assert(decode_byte(0x1E) == Opcode::ASL(AddressingMode::AbsoluteIndexedX(0)));
        },
        _ => {},
    }
}

proof fn lemma_round_trip_bit(m: AddressingMode)
    requires
        opcode_byte(Opcode::BIT(m)) is Some,
    ensures
        decoded(encoding(Opcode::BIT(m))->Some_0) == Opcode::BIT(m),
        encoding(Opcode::BIT(m))->Some_0.len() == 1 + operand_len(
            decode_byte(encoding(Opcode::BIT(m))->Some_0[0]),
        ),
{
    reveal(decode_byte);
    match m {
        AddressingMode::ZeroPage(v) => {
            assert(decode_byte(0x24) == Opcode::BIT(AddressingMode::ZeroPage(0)));
        },
        AddressingMode::Absolute(a) => {
            lemma_u16_bytes(a);
            assert(decode_byte(0x2C) == Opcode::BIT(AddressingMode::Absolute(0)));
        },
        _ => {},
    }
}

proof fn lemma_round_trip_cmp(m: AddressingMode)
    requires
        opcode_byte(Opcode::CMP(m)) is Some,
    ensures
        decoded(encoding(Opcode::CMP(m))->Some_0) == Opcode::CMP(m),
        encoding(Opcode::CMP(m))->Some_0.len() == 1 + operand_len(
            decode_byte(encoding(Opcode::CMP(m))->Some_0[0]),
        ),
{
    reveal(decode_byte);
    match m {
        AddressingMode::IndexedIndirect(v) => {
            assert(decode_byte(0xC1) == Opcode::CMP(AddressingMode::IndexedIndirect(0)));
        },
        AddressingMode::ZeroPage(v) => {
            assert(decode_byte(0xC5) == Opcode::CMP(AddressingMode::ZeroPage(0)));
        },
        AddressingMode::Immediate(v) => {
            assert(decode_byte(0xC9) == Opcode::CMP(AddressingMode::Immediate(0)));
        },
        AddressingMode::Absolute(a) => {
            lemma_u16_bytes(a);
            assert(decode_byte(0xCD) == Opcode::CMP(AddressingMode::Absolute(0)));
        },
        AddressingMode::IndirectIndexed(v) => {
            assert(decode_byte(0xD1) == Opcode::CMP(AddressingMode::IndirectIndexed(0)));
        },
        AddressingMode::ZeroPageIndexedX(v) => {
            assert(decode_byte(0xD5) == Opcode::CMP(AddressingMode::ZeroPageIndexedX(0)));
        },
        AddressingMode::AbsoluteIndexedY(a) => {
            lemma_u16_bytes(a);
            assert(decode_byte(0xD9) == Opcode::CMP(AddressingMode::AbsoluteIndexedY(0)));
        },
        AddressingMode::AbsoluteIndexedX(a) => {
            lemma_u16_bytes(a);
            assert(decode_byte(0xDD) == Opcode::CMP(AddressingMode::AbsoluteIndexedX(0)));
        },
        _ => {},
    }
}

proof fn lemma_round_trip_cpx(m: AddressingMode)
    requires
        opcode_byte(Opcode::CPX(m)) is Some,
    ensures
        decoded(encoding(Opcode::CPX(m))->Some_0) == Opcode::CPX(m),
        encoding(Opcode::CPX(m))->Some_0.len() == 1 + operand_len(
            decode_byte(encoding(Opcode::CPX(m))->Some_0[0]),
        ),
{
    reveal(decode_byte);
    match m {
        AddressingMode::Immediate(v) => {
            assert(decode_byte(0xE0) == Opcode::CPX(AddressingMode::Immediate(0)));
        },
        AddressingMode::ZeroPage(v) => {
            assert(decode_byte(0xE4) == Opcode::CPX(AddressingMode::ZeroPage(0)));
        },
        AddressingMode::Absolute(a) => {
            lemma_u16_bytes(a);
            assert(decode_byte(0xEC) == Opcode::CPX(AddressingMode::Absolute(0)));
        },
        _ => {},
    }
}

proof fn lemma_round_trip_cpy(m: AddressingMode)
    requires
        opcode_byte(Opcode::CPY(m)) is Some,
    ensures
        decoded(encoding(Opcode::CPY(m))->Some_0) == Opcode::CPY(m),
        encoding(Opcode::CPY(m))->Some_0.len() == 1 + operand_len(
            decode_byte(encoding(Opcode::CPY(m))->Some_0[0]),
        ),
{
    reveal(decode_byte);
    match m {
        AddressingMode::Immediate(v) => {
            assert(decode_byte(0xC0) == Opcode::CPY(AddressingMode::Immediate(0)));
        },
        AddressingMode::ZeroPage(v) => {
            assert(decode_byte(0xC4) == Opcode::CPY(AddressingMode::ZeroPage(0)));
        },
        AddressingMode::Absolute(a) => {
            lemma_u16_bytes(a);
            assert(decode_byte(0xCC) == Opcode::CPY(AddressingMode::Absolute(0)));
        },
        _ => {},
    }
}

proof fn lemma_round_trip_dec(m: AddressingMode)
    requires
        opcode_byte(Opcode::DEC(m)) is Some,
    ensures
        decoded(encoding(Opcode::DEC(m))->Some_0) == Opcode::DEC(m),
        encoding(Opcode::DEC(m))->Some_0.len() == 1 + operand_len(
            decode_byte(encoding(Opcode::DEC(m))->Some_0[0]),
        ),
{
    reveal(decode_byte);
    match m {
        AddressingMode::ZeroPage(v) => {
            assert(decode_byte(0xC6) == Opcode::DEC(AddressingMode::ZeroPage(0)));
        },
        AddressingMode::Absolute(a) => {
            lemma_u16_bytes(a);
            assert(decode_byte(0xCE) == Opcode::DEC(AddressingMode::Absolute(0)));
        },
        AddressingMode::ZeroPageIndexedX(v) => {
            assert(decode_byte(0xD6) == Opcode::DEC(AddressingMode::ZeroPageIndexedX(0)));
        },
        AddressingMode::AbsoluteIndexedX(a) => {
            lemma_u16_bytes(a);
            assert(decode_byte(0xDE) == Opcode::DEC(AddressingMode::AbsoluteIndexedX(0)));
        },
        _ => {},
    }
}

proof fn lemma_round_trip_eor(m: AddressingMode)
    requires
        opcode_byte(Opcode::EOR(m)) is Some,
    ensures
        decoded(encoding(Opcode::EOR(m))->Some_0) == Opcode::EOR(m),
        encoding(Opcode::EOR(m))->Some_0.len() == 1 + operand_len(
            decode_byte(encoding(Opcode::EOR(m))->Some_0[0]),
        ),
{
    reveal(decode_byte);
    match m {
        AddressingMode::IndexedIndirect(v) => {
            assert(decode_byte(0x41) == Opcode::EOR(AddressingMode::IndexedIndirect(0)));
        },
        AddressingMode::ZeroPage(v) => {
            assert(decode_byte(0x45) == Opcode::EOR(AddressingMode::ZeroPage(0)));
        },
        AddressingMode::Immediate(v) => {
            assert(decode_byte(0x49) == Opcode::EOR(AddressingMode::Immediate(0)));
        },
        AddressingMode::Absolute(a) => {
            lemma_u16_bytes(a);
            assert(decode_byte(0x4D) == Opcode::EOR(AddressingMode::Absolute(0)));
        },
        AddressingMode::IndirectIndexed(v) => {
            assert(decode_byte(0x51) == Opcode::EOR(AddressingMode::IndirectIndexed(0)));
        },
        AddressingMode::ZeroPageIndexedX(v) => {
            assert(decode_byte(0x55) == Opcode::EOR(AddressingMode::ZeroPageIndexedX(0)));
        },
        AddressingMode::AbsoluteIndexedY(a) => {
            lemma_u16_bytes(a);
            assert(decode_byte(0x59) == Opcode::EOR(AddressingMode::AbsoluteIndexedY(0)));
        },
        AddressingMode::AbsoluteIndexedX(a) => {
            lemma_u16_bytes(a);
            assert(decode_byte(0x5D) == Opcode::EOR(AddressingMode::AbsoluteIndexedX(0)));
        },
        _ => {},
    }
}

proof fn lemma_round_trip_inc(m: AddressingMode)
    requires
        opcode_byte(Opcode::INC(m)) is Some,
    ensures
        decoded(encoding(Opcode::INC(m))->Some_0) == Opcode::INC(m),
        encoding(Opcode::INC(m))->Some_0.len() == 1 + operand_len(
            decode_byte(encoding(Opcode::INC(m))->Some_0[0]),
        ),
{
    reveal(decode_byte);
    match m {
        AddressingMode::ZeroPage(v) => {
            assert(decode_byte(0xE6) == Opcode::INC(AddressingMode::ZeroPage(0)));
        },
        AddressingMode::Absolute(a) => {
            lemma_u16_bytes(a);
            assert(decode_byte(0xEE) == Opcode::INC(AddressingMode::Absolute(0)));
        },
        AddressingMode::ZeroPageIndexedX(v) => {
            assert(decode_byte(0xF6) == Opcode::INC(AddressingMode::ZeroPageIndexedX(0)));
        },
        AddressingMode::AbsoluteIndexedX(a) => {
            lemma_u16_bytes(a);
            assert(decode_byte(0xFE) == Opcode::INC(AddressingMode::AbsoluteIndexedX(0)));
        },
        _ => {},
    }
}

proof fn lemma_round_trip_jmp(m: AddressingMode)
    requires
        opcode_byte(Opcode::JMP(m)) is Some,
    ensures
        decoded(encoding(Opcode::JMP(m))->Some_0) == Opcode::JMP(m),
        encoding(Opcode::JMP(m))->Some_0.len() == 1 + operand_len(
            decode_byte(encoding(Opcode::JMP(m))->Some_0[0]),
        ),
{
    reveal(decode_byte);
    match m {
        AddressingMode::Absolute(a) => {
            lemma_u16_bytes(a);
            assert(decode_byte(0x4C) == Opcode::JMP(AddressingMode::Absolute(0)));
        },
        AddressingMode::Indirect(a) => {
            lemma_u16_bytes(a);
            assert(decode_byte(0x6C) == Opcode::JMP(AddressingMode::Indirect(0)));
        },
        _ => {},
    }
}

proof fn lemma_round_trip_jsr(m: AddressingMode)
    requires
        opcode_byte(Opcode::JSR(m)) is Some,
    ensures
        decoded(encoding(Opcode::JSR(m))->Some_0) == Opcode::JSR(m),
        encoding(Opcode::JSR(m))->Some_0.len() == 1 + operand_len(
            decode_byte(encoding(Opcode::JSR(m))->Some_0[0]),
        ),
{
    reveal(decode_byte);
    match m {
        AddressingMode::Absolute(a) => {
            lemma_u16_bytes(a);
            assert(decode_byte(0x20) == Opcode::JSR(AddressingMode::Absolute(0)));
        },
        _ => {},
    }
}

proof fn lemma_round_trip_lda(m: AddressingMode)
    requires
        opcode_byte(Opcode::LDA(m)) is Some,
    ensures
        decoded(encoding(Opcode::LDA(m))->Some_0) == Opcode::LDA(m),
        encoding(Opcode::LDA(m))->Some_0.len() == 1 + operand_len(
            decode_byte(encoding(Opcode::LDA(m))->Some_0[0]),
        ),
{
    reveal(decode_byte);
    match m {
        AddressingMode::IndexedIndirect(v) => {
            assert(decode_byte(0xA1) == Opcode::LDA(AddressingMode::IndexedIndirect(0)));
        },
        AddressingMode::ZeroPage(v) => {
            assert(decode_byte(0xA5) == Opcode::LDA(AddressingMode::ZeroPage(0)));
        },
        AddressingMode::Immediate(v) => {
            assert(decode_byte(0xA9) == Opcode::LDA(AddressingMode::Immediate(0)));
        },
        AddressingMode::Absolute(a) => {
            lemma_u16_bytes(a);
            assert(decode_byte(0xAD) == Opcode::LDA(AddressingMode::Absolute(0)));
        },
        AddressingMode::IndirectIndexed(v) => {
            assert(decode_byte(0xB1) == Opcode::LDA(AddressingMode::IndirectIndexed(0)));
        },
        AddressingMode::ZeroPageIndexedX(v) => {
            assert(decode_byte(0xB5) == Opcode::LDA(AddressingMode::ZeroPageIndexedX(0)));
        },
        AddressingMode::AbsoluteIndexedY(a) => {
            lemma_u16_bytes(a);
            assert(decode_byte(0xB9) == Opcode::LDA(AddressingMode::AbsoluteIndexedY(0)));
        },
        AddressingMode::AbsoluteIndexedX(a) => {
            lemma_u16_bytes(a);
            assert(decode_byte(0xBD) == Opcode::LDA(AddressingMode::AbsoluteIndexedX(0)));
        },
        _ => {},
    }
}

proof fn lemma_round_trip_ldx(m: AddressingMode)
    requires
        opcode_byte(Opcode::LDX(m)) is Some,
    ensures
        decoded(encoding(Opcode::LDX(m))->Some_0) == Opcode::LDX(m),
        encoding(Opcode::LDX(m))->Some_0.len() == 1 + operand_len(
            decode_byte(encoding(Opcode::LDX(m))->Some_0[0]),
        ),
{
    reveal(decode_byte);
    match m {
        AddressingMode::Immediate(v) => {
            assert(decode_byte(0xA2) == Opcode::LDX(AddressingMode::Immediate(0)));
        },
        AddressingMode::ZeroPage(v) => {
            assert(decode_byte(0xA6) == Opcode::LDX(AddressingMode::ZeroPage(0)));
        },
        AddressingMode::Absolute(a) => {
            lemma_u16_bytes(a);
            assert(decode_byte(0xAE) == Opcode::LDX(AddressingMode::Absolute(0)));
        },
        AddressingMode::ZeroPageIndexedY(v) => {
            assert(decode_byte(0xB6) == Opcode::LDX(AddressingMode::ZeroPageIndexedY(0)));
        },
        AddressingMode::AbsoluteIndexedY(a) => {
            lemma_u16_bytes(a);
            assert(decode_byte(0xBE) == Opcode::LDX(AddressingMode::AbsoluteIndexedY(0)));
        },
        _ => {},
    }
}

proof fn lemma_round_trip_ldy(m: AddressingMode)
    requires
        opcode_byte(Opcode::LDY(m)) is Some,
    ensures
        decoded(encoding(Opcode::LDY(m))->Some_0) == Opcode::LDY(m),
        encoding(Opcode::LDY(m))->Some_0.len() == 1 + operand_len(
            decode_byte(encoding(Opcode::LDY(m))->Some_0[0]),
        ),
{
    reveal(decode_byte);
    match m {
        AddressingMode::Immediate(v) => {
            assert(decode_byte(0xA0) == Opcode::LDY(AddressingMode::Immediate(0)));
        },
        AddressingMode::ZeroPage(v) => {
            assert(decode_byte(0xA4) == Opcode::LDY(AddressingMode::ZeroPage(0)));
        },
        AddressingMode::Absolute(a) => {
            lemma_u16_bytes(a);
            assert(decode_byte(0xAC) == Opcode::LDY(AddressingMode::Absolute(0)));
        },
        AddressingMode::ZeroPageIndexedX(v) => {
            assert(decode_byte(0xB4) == Opcode::LDY(AddressingMode::ZeroPageIndexedX(0)));
        },
        AddressingMode::AbsoluteIndexedX(a) => {
            lemma_u16_bytes(a);
            assert(decode_byte(0xBC) == Opcode::LDY(AddressingMode::AbsoluteIndexedX(0)));
        },
        _ => {},
    }
}

proof fn lemma_round_trip_lsr(m: AddressingMode)
    requires
        opcode_byte(Opcode::LSR(m)) is Some,
    ensures
        decoded(encoding(Opcode::LSR(m))->Some_0) == Opcode::LSR(m),
        encoding(Opcode::LSR(m))->Some_0.len() == 1 + operand_len(
            decode_byte(encoding(Opcode::LSR(m))->Some_0[0]),
        ),
{
    reveal(decode_byte);
    match m {
        AddressingMode::Implicit => {
            assert(decode_byte(0x4A) == Opcode::LSR(AddressingMode::Implicit));
        },
        AddressingMode::ZeroPage(v) => {
            assert(decode_byte(0x46) == Opcode::LSR(AddressingMode::ZeroPage(0)));
        },
        AddressingMode::Absolute(a) => {
            lemma_u16_bytes(a);
            assert(decode_byte(0x4E) == Opcode::LSR(AddressingMode::Absolute(0)));
        },
        AddressingMode::ZeroPageIndexedX(v) => {
            assert(decode_byte(0x56) == Opcode::LSR(AddressingMode::ZeroPageIndexedX(0)));
        },
        AddressingMode::AbsoluteIndexedX(a) => {
            lemma_u16_bytes(a);
            assert(decode_byte(0x5E) == Opcode::LSR(AddressingMode::AbsoluteIndexedX(0)));
        },
        _ => {},
    }
}

proof fn lemma_round_trip_ora(m: AddressingMode)
    requires
        opcode_byte(Opcode::ORA(m)) is Some,
    ensures
        decoded(encoding(Opcode::ORA(m))->Some_0) == Opcode::ORA(m),
        encoding(Opcode::ORA(m))->Some_0.len() == 1 + operand_len(
            decode_byte(encoding(Opcode::ORA(m))->Some_0[0]),
        ),
{
    reveal(decode_byte);
    match m {
        AddressingMode::IndexedIndirect(v) => {
            assert(decode_byte(0x01) == Opcode::ORA(AddressingMode::IndexedIndirect(0)));
        },
        AddressingMode::ZeroPage(v) => {
            assert(decode_byte(0x05) == Opcode::ORA(AddressingMode::ZeroPage(0)));
        },
        AddressingMode::Immediate(v) => {
            assert(decode_byte(0x09) == Opcode::ORA(AddressingMode::Immediate(0)));
        },
        AddressingMode::Absolute(a) => {
            lemma_u16_bytes(a);
            assert(decode_byte(0x0D) == Opcode::ORA(AddressingMode::Absolute(0)));
        },
        AddressingMode::IndirectIndexed(v) => {
            assert(decode_byte(0x11) == Opcode::ORA(AddressingMode::IndirectIndexed(0)));
        },
        AddressingMode::ZeroPageIndexedX(v) => {
            assert(decode_byte(0x15) == Opcode::ORA(AddressingMode::ZeroPageIndexedX(0)));
        },
        AddressingMode::AbsoluteIndexedY(a) => {
            lemma_u16_bytes(a);
            assert(decode_byte(0x19) == Opcode::ORA(AddressingMode::AbsoluteIndexedY(0)));
        },
        AddressingMode::AbsoluteIndexedX(a) => {
            lemma_u16_bytes(a);
            assert(decode_byte(0x1D) == Opcode::ORA(AddressingMode::AbsoluteIndexedX(0)));
        },
        _ => {},
    }
}

proof fn lemma_round_trip_rol(m: AddressingMode)
    requires
        opcode_byte(Opcode::ROL(m)) is Some,
    ensures
        decoded(encoding(Opcode::ROL(m))->Some_0) == Opcode::ROL(m),
        encoding(Opcode::ROL(m))->Some_0.len() == 1 + operand_len(
            decode_byte(encoding(Opcode::ROL(m))->Some_0[0]),
        ),
{
    reveal(decode_byte);
    match m {
        AddressingMode::Implicit => {
            assert(decode_byte(0x2A) == Opcode::ROL(AddressingMode::Implicit));
        },
        AddressingMode::ZeroPage(v) => {
            assert(decode_byte(0x26) == Opcode::ROL(AddressingMode::ZeroPage(0)));
        },
        AddressingMode::Absolute(a) => {
            lemma_u16_bytes(a);
            assert(decode_byte(0x2E) == Opcode::ROL(AddressingMode::Absolute(0)));
        },
        AddressingMode::ZeroPageIndexedX(v) => {
            assert(decode_byte(0x36) == Opcode::ROL(AddressingMode::ZeroPageIndexedX(0)));
        },
        AddressingMode::AbsoluteIndexedX(a) => {
            lemma_u16_bytes(a);
            assert(decode_byte(0x3E) == Opcode::ROL(AddressingMode::AbsoluteIndexedX(0)));
        },
        _ => {},
    }
}

proof fn lemma_round_trip_ror(m: AddressingMode)
    requires
        opcode_byte(Opcode::ROR(m)) is Some,
    ensures
        decoded(encoding(Opcode::ROR(m))->Some_0) == Opcode::ROR(m),
        encoding(Opcode::ROR(m))->Some_0.len() == 1 + operand_len(
            decode_byte(encoding(Opcode::ROR(m))->Some_0[0]),
        ),
{
    reveal(decode_byte);
    match m {
        AddressingMode::Implicit => {
            assert(decode_byte(0x6A) == Opcode::ROR(AddressingMode::Implicit));
        },
        AddressingMode::ZeroPage(v) => {
            assert(decode_byte(0x66) == Opcode::ROR(AddressingMode::ZeroPage(0)));
        },
        AddressingMode::Absolute(a) => {
            lemma_u16_bytes(a);
            assert(decode_byte(0x6E) == Opcode::ROR(AddressingMode::Absolute(0)));
        },
        AddressingMode::ZeroPageIndexedX(v) => {
            assert(decode_byte(0x76) == Opcode::ROR(AddressingMode::ZeroPageIndexedX(0)));
        },
        AddressingMode::AbsoluteIndexedX(a) => {
            lemma_u16_bytes(a);
            assert(decode_byte(0x7E) == Opcode::ROR(AddressingMode::AbsoluteIndexedX(0)));
        },
        _ => {},
    }
}

proof fn lemma_round_trip_sbc(m: AddressingMode)
    requires
        opcode_byte(Opcode::SBC(m)) is Some,
    ensures
        decoded(encoding(Opcode::SBC(m))->Some_0) == Opcode::SBC(m),
        encoding(Opcode::SBC(m))->Some_0.len() == 1 + operand_len(
            decode_byte(encoding(Opcode::SBC(m))->Some_0[0]),
        ),
{
    reveal(decode_byte);
    match m {
        AddressingMode::IndexedIndirect(v) => {
            assert(decode_byte(0xE1) == Opcode::SBC(AddressingMode::IndexedIndirect(0)));
        },
        AddressingMode::ZeroPage(v) => {
            assert(decode_byte(0xE5) == Opcode::SBC(AddressingMode::ZeroPage(0)));
        },
        AddressingMode::Immediate(v) => {
            assert(decode_byte(0xE9) == Opcode::SBC(AddressingMode::Immediate(0)));
        },
        AddressingMode::Absolute(a) => {
            lemma_u16_bytes(a);
            assert(decode_byte(0xED) == Opcode::SBC(AddressingMode::Absolute(0)));
        },
        AddressingMode::IndirectIndexed(v) => {
            assert(decode_byte(0xF1) == Opcode::SBC(AddressingMode::IndirectIndexed(0)));
        },
        AddressingMode::ZeroPageIndexedX(v) => {
            assert(decode_byte(0xF5) == Opcode::SBC(AddressingMode::ZeroPageIndexedX(0)));
        },
        AddressingMode::AbsoluteIndexedY(a) => {
            lemma_u16_bytes(a);
            assert(decode_byte(0xF9) == Opcode::SBC(AddressingMode::AbsoluteIndexedY(0)));
        },
        AddressingMode::AbsoluteIndexedX(a) => {
            lemma_u16_bytes(a);
            assert(decode_byte(0xFD) == Opcode::SBC(AddressingMode::AbsoluteIndexedX(0)));
        },
        _ => {},
    }
}

proof fn lemma_round_trip_sta(m: AddressingMode)
    requires
        opcode_byte(Opcode::STA(m)) is Some,
    ensures
        decoded(encoding(Opcode::STA(m))->Some_0) == Opcode::STA(m),
        encoding(Opcode::STA(m))->Some_0.len() == 1 + operand_len(
            decode_byte(encoding(Opcode::STA(m))->Some_0[0]),
        ),
{
    reveal(decode_byte);
    match m {
        AddressingMode::IndexedIndirect(v) => {
            assert(decode_byte(0x81) == Opcode::STA(AddressingMode::IndexedIndirect(0)));
        },
        AddressingMode::ZeroPage(v) => {
            assert(decode_byte(0x85) == Opcode::STA(AddressingMode::ZeroPage(0)));
        },
        AddressingMode::Absolute(a) => {
            lemma_u16_bytes(a);
            assert(decode_byte(0x8D) == Opcode::STA(AddressingMode::Absolute(0)));
        },
        AddressingMode::IndirectIndexed(v) => {
            assert(decode_byte(0x91) == Opcode::STA(AddressingMode::IndirectIndexed(0)));
        },
        AddressingMode::ZeroPageIndexedX(v) => {
            assert(decode_byte(0x95) == Opcode::STA(AddressingMode::ZeroPageIndexedX(0)));
        },
        AddressingMode::AbsoluteIndexedY(a) => {
            lemma_u16_bytes(a);
            assert(decode_byte(0x99) == Opcode::STA(AddressingMode::AbsoluteIndexedY(0)));
        },
        AddressingMode::AbsoluteIndexedX(a) => {
            lemma_u16_bytes(a);
            assert(decode_byte(0x9D) == Opcode::STA(AddressingMode::AbsoluteIndexedX(0)));
        },
        _ => {},
    }
}

proof fn lemma_round_trip_stx(m: AddressingMode)
    requires
        opcode_byte(Opcode::STX(m)) is Some,
    ensures
        decoded(encoding(Opcode::STX(m))->Some_0) == Opcode::STX(m),
        encoding(Opcode::STX(m))->Some_0.len() == 1 + operand_len(
            decode_byte(encoding(Opcode::STX(m))->Some_0[0]),
        ),
{
    reveal(decode_byte);
    match m {
        AddressingMode::ZeroPage(v) => {
            assert(decode_byte(0x86) == Opcode::STX(AddressingMode::ZeroPage(0)));
        },
        AddressingMode::Absolute(a) => {
            lemma_u16_bytes(a);
            assert(decode_byte(0x8E) == Opcode::STX(AddressingMode::Absolute(0)));
        },
        AddressingMode::ZeroPageIndexedY(v) => {
            assert(decode_byte(0x96) == Opcode::STX(AddressingMode::ZeroPageIndexedY(0)));
        },
        _ => {},
    }
}

proof fn lemma_round_trip_sty(m: AddressingMode)
    requires
        opcode_byte(Opcode::STY(m)) is Some,
    ensures
        decoded(encoding(Opcode::STY(m))->Some_0) == Opcode::STY(m),
        encoding(Opcode::STY(m))->Some_0.len() == 1 + operand_len(
            decode_byte(encoding(Opcode::STY(m))->Some_0[0]),
        ),
{
    reveal(decode_byte);
    match m {
        AddressingMode::ZeroPage(v) => {
            assert(decode_byte(0x84) == Opcode::STY(AddressingMode::ZeroPage(0)));
        },
        AddressingMode::Absolute(a) => {
            lemma_u16_bytes(a);
            assert(decode_byte(0x8C) == Opcode::STY(AddressingMode::Absolute(0)));
        },
        AddressingMode::ZeroPageIndexedX(v) => {
            assert(decode_byte(0x94) == Opcode::STY(AddressingMode::ZeroPageIndexedX(0)));
        },
        _ => {},
    }
}

/// Every instruction that has an encoding is read back, operand included, from its bytes.
pub proof fn lemma_encoding_round_trip(op: Opcode)
    requires
        opcode_byte(op) is Some,
    ensures
        encoding(op) is Some,
        decoded(encoding(op)->Some_0) == op,
        encoding(op)->Some_0.len() == 1 + operand_len(decode_byte(encoding(op)->Some_0[0])),
{
    reveal(decode_byte);
    match op {
        Opcode::ADC(m) => lemma_round_trip_adc(m),
        Opcode::AND(m) => lemma_round_trip_and(m),
        Opcode::ASL(m) => lemma_round_trip_asl(m),
        Opcode::BIT(m) => lemma_round_trip_bit(m),
        Opcode::BPL(d) => {
            lemma_i8_byte(d);
            assert(decode_byte(0x10) == Opcode::BPL(0));
        },
        Opcode::BMI(d) => {
            lemma_i8_byte(d);
            assert(decode_byte(0x30) == Opcode::BMI(0));
        },
        Opcode::BVC(d) => {
            lemma_i8_byte(d);
            assert(decode_byte(0x50) == Opcode::BVC(0));
        },
        Opcode::BVS(d) => {
            lemma_i8_byte(d);
            assert(decode_byte(0x70) == Opcode::BVS(0));
        },
        Opcode::BCC(d) => {
            lemma_i8_byte(d);
            assert(decode_byte(0x90) == Opcode::BCC(0));
        },
        Opcode::BCS(d) => {
            lemma_i8_byte(d);
            assert(decode_byte(0xB0) == Opcode::BCS(0));
        },
        Opcode::BNE(d) => {
            lemma_i8_byte(d);
            assert(decode_byte(0xD0) == Opcode::BNE(0));
        },
        Opcode::BEQ(d) => {
            lemma_i8_byte(d);
            assert(decode_byte(0xF0) == Opcode::BEQ(0));
        },
        Opcode::BRK => {
            assert(decode_byte(0x00) == Opcode::BRK);
        },
        Opcode::CMP(m) => lemma_round_trip_cmp(m),
        Opcode::CPX(m) => lemma_round_trip_cpx(m),
        Opcode::CPY(m) => lemma_round_trip_cpy(m),
        Opcode::DEC(m) => lemma_round_trip_dec(m),
        Opcode::EOR(m) => lemma_round_trip_eor(m),
        Opcode::CLC => {
            assert(decode_byte(0x18) == Opcode::CLC);
        },
        Opcode::SEC => {
            assert(decode_byte(0x38) == Opcode::SEC);
        },
        Opcode::CLI => {
            assert(decode_byte(0x58) == Opcode::CLI);
        },
        Opcode::SEI => {
            assert(decode_byte(0x78) == Opcode::SEI);
        },
        Opcode::CLV => {
            assert(decode_byte(0xB8) == Opcode::CLV);
        },
        Opcode::INC(m) => lemma_round_trip_inc(m),
        Opcode::JMP(m) => lemma_round_trip_jmp(m),
        Opcode::JSR(m) => lemma_round_trip_jsr(m),
        Opcode::LDA(m) => lemma_round_trip_lda(m),
        Opcode::LDX(m) => lemma_round_trip_ldx(m),
        Opcode::LDY(m) => lemma_round_trip_ldy(m),
        Opcode::LSR(m) => lemma_round_trip_lsr(m),
        Opcode::NOP => {
            assert(decode_byte(0xEA) == Opcode::NOP);
        },
        Opcode::ORA(m) => lemma_round_trip_ora(m),
        Opcode::TAX => {
            assert(decode_byte(0xAA) == Opcode::TAX);
        },
        Opcode::TXA => {
            assert(decode_byte(0x8A) == Opcode::TXA);
        },
        Opcode::DEX => {
            assert(decode_byte(0xCA) == Opcode::DEX);
        },
        Opcode::INX => {
            assert(decode_byte(0xE8) == Opcode::INX);
        },
        Opcode::TAY => {
            assert(decode_byte(0xA8) == Opcode::TAY);
        },
        Opcode::TYA => {
            assert(decode_byte(0x98) == Opcode::TYA);
        },
        Opcode::DEY => {
            assert(decode_byte(0x88) == Opcode::DEY);
        },
        Opcode::INY => {
            assert(decode_byte(0xC8) == Opcode::INY);
        },
        Opcode::ROL(m) => lemma_round_trip_rol(m),
        Opcode::ROR(m) => lemma_round_trip_ror(m),
        Opcode::RTI => {
            assert(decode_byte(0x40) == Opcode::RTI);
        },
        Opcode::RTS => {
            assert(decode_byte(0x60) == Opcode::RTS);
        },
        Opcode::SBC(m) => lemma_round_trip_sbc(m),
        Opcode::STA(m) => lemma_round_trip_sta(m),
        Opcode::TXS => {
            assert(decode_byte(0x9A) == Opcode::TXS);
        },
        Opcode::TSX => {
            assert(decode_byte(0xBA) == Opcode::TSX);
        },
        Opcode::PHA => {
            assert(decode_byte(0x48) == Opcode::PHA);
        },
        Opcode::PLA => {
            assert(decode_byte(0x68) == Opcode::PLA);
        },
        Opcode::PHP => {
            assert(decode_byte(0x08) == Opcode::PHP);
        },
        Opcode::PLP => {
            assert(decode_byte(0x28) == Opcode::PLP);
        },
        Opcode::STX(m) => lemma_round_trip_stx(m),
        Opcode::STY(m) => lemma_round_trip_sty(m),
    }
}

} // verus!
