use virt_ic::board::{Board, Trace};
use virt_ic::chip::clocks::Clock;
use virt_ic::chip::cpu::nes6502::{AddressingMode, Assembler, CpuState, Nes6502, Opcode, StatusRegister};
use virt_ic::chip::gates::NotGate;
use virt_ic::chip::generators::Generator;
use virt_ic::chip::memories::{Ram256B, Rom256B};
use virt_ic::chip::{ChipBuilder, ChipSet};
use virt_ic::utilities::Id;

struct Machine {
    board: Board<ChipSet>,
    cpu: Id<ChipSet>,
    ram: Id<ChipSet>,
}

/// One 256-byte RAM mirrored over $0000-$7FFF, one 256-byte ROM mirrored over $8000-$FFFF.
fn machine(program: &[Opcode]) -> Machine {
    let mut prg = Assembler::assemble(program).expect("program assembles");
    prg.resize(256, 0);
    // reset vector: the processor reads the high byte first
    prg[0xFC] = 0x80;
    prg[0xFD] = 0x00;

    let mut board: Board<ChipSet> = Board::new();
    let rom = board.register_chip(Rom256B::build().set_data(&prg).into_chip());
    let ram = board.register_chip(Ram256B::build());
    let not = board.register_chip(NotGate::build());
    let vcc = board.register_chip(Generator::build().into_chip());
    let clock = board.register_chip(Clock::build().with_half_period_ns(4_000).into_chip());
    let cpu = board.register_chip(Nes6502::build());
    board.register_trace(Trace::from_endpoints(vec![
        (vcc, Generator::OUT),
        (clock, Clock::VCC),
        (cpu, Nes6502::VCC),
        (not, NotGate::VCC),
        (rom, Rom256B::VCC),
        (ram, Ram256B::VCC),
    ]));
    let cpu_addr = [
        Nes6502::A0, Nes6502::A1, Nes6502::A2, Nes6502::A3, Nes6502::A4, Nes6502::A5, Nes6502::A6,
        Nes6502::A7,
    ];
    let cpu_data = [
        Nes6502::D0, Nes6502::D1, Nes6502::D2, Nes6502::D3, Nes6502::D4, Nes6502::D5, Nes6502::D6,
        Nes6502::D7,
    ];
    let rom_addr = [
        Rom256B::A0, Rom256B::A1, Rom256B::A2, Rom256B::A3, Rom256B::A4, Rom256B::A5, Rom256B::A6,
        Rom256B::A7,
    ];
    let rom_io = [
        Rom256B::IO0, Rom256B::IO1, Rom256B::IO2, Rom256B::IO3, Rom256B::IO4, Rom256B::IO5,
        Rom256B::IO6, Rom256B::IO7,
    ];
    let ram_addr = [
        Ram256B::A0, Ram256B::A1, Ram256B::A2, Ram256B::A3, Ram256B::A4, Ram256B::A5, Ram256B::A6,
        Ram256B::A7,
    ];
    let ram_io = [
        Ram256B::IO0, Ram256B::IO1, Ram256B::IO2, Ram256B::IO3, Ram256B::IO4, Ram256B::IO5,
        Ram256B::IO6, Ram256B::IO7,
    ];
    for i in 0..8 {
        board.connect(cpu, cpu_addr[i], rom, rom_addr[i]);
        board.connect(cpu, cpu_data[i], rom, rom_io[i]);
        board.connect(cpu, cpu_addr[i], ram, ram_addr[i]);
        board.connect(cpu, cpu_data[i], ram, ram_io[i]);
    }
    board.connect(cpu, Nes6502::A15, not, NotGate::A);
    board.connect(not, NotGate::NOT_A, rom, Rom256B::CS);
    board.connect(cpu, Nes6502::A15, ram, Ram256B::CS);
    board.register_trace(Trace::from_endpoints(vec![(cpu, Nes6502::RW), (ram, Ram256B::WE), (not, NotGate::B)]));
    board.register_trace(Trace::from_endpoints(vec![
        (not, NotGate::NOT_B),
        (rom, Rom256B::OE),
        (ram, Ram256B::OE),
    ]));
    board.connect(clock, Clock::CLK, cpu, Nes6502::CLK);
    Machine { board, cpu, ram }
}

fn cpu_of(m: &Machine) -> &Nes6502 {
    match m.board.get_chip(&m.cpu) {
        ChipSet::Nes6502(c) => c,
        _ => panic!("not a processor"),
    }
}

fn ram_of(m: &Machine) -> &Ram256B {
    match m.board.get_chip(&m.ram) {
        ChipSet::Ram256B(r) => r,
        _ => panic!("not a RAM"),
    }
}

#[test]
fn arithmetic_scenario() {
    let mut m = machine(&[
        Opcode::CLC,
        Opcode::LDA(AddressingMode::Immediate(0x5A)),
        Opcode::ADC(AddressingMode::Immediate(0xFF)),
        Opcode::SEC,
        Opcode::SBC(AddressingMode::Immediate(0xFF)),
    ]);
    m.board.run_during(4_000_000, 1_000);
    let cpu = cpu_of(&m);
    let r = cpu.registers();
    assert_eq!(r.a.inner, 0x5A);
    // 0x59 - 0xFF borrows, so the carry ends clear
    assert!(!r.p.contains(StatusRegister::C));
    // the zero bytes after the program are BRK, which halts the processor
    assert!(matches!(cpu.state(), CpuState::Halted));
}

#[test]
fn adc_sets_carry() {
    let mut m = machine(&[
        Opcode::CLC,
        Opcode::LDA(AddressingMode::Immediate(0x5A)),
        Opcode::ADC(AddressingMode::Immediate(0xFF)),
    ]);
    m.board.run_during(4_000_000, 1_000);
    let r = cpu_of(&m).registers();
    assert_eq!(r.a.inner, 0x59);
    assert!(r.p.contains(StatusRegister::C));
    assert!(!r.p.contains(StatusRegister::Z));
}

#[test]
fn loop_and_store_scenario() {
    let mut m = machine(&[
        Opcode::CLC,
        Opcode::LDA(AddressingMode::Immediate(0x5A)),
        Opcode::ADC(AddressingMode::Immediate(0xFF)),
        Opcode::SEC,
        Opcode::SBC(AddressingMode::Immediate(0xFF)),
        Opcode::LDX(AddressingMode::Immediate(0x0A)),
        Opcode::LDA(AddressingMode::ZeroPage(0xFF)),
        Opcode::STA(AddressingMode::ZeroPageIndexedX(0x00)),
        Opcode::DEX,
        Opcode::BPL(-5),
        Opcode::BMI(-2),
    ]);
    m.board.run_during(20_000_000, 1_000);
    let k = ram_of(&m).bytes()[0xFF];
    let ram = ram_of(&m).bytes();
    for addr in 0..=0x0A {
        assert_eq!(ram[addr], k, "RAM[{addr:#x}]");
    }
    let r = cpu_of(&m).registers();
    assert_eq!(r.x.inner, 0xFF);
    assert_eq!(r.a.inner, k);
    assert!(matches!(cpu_of(&m).state(), CpuState::Execute(Opcode::BMI(_), _) | CpuState::Fetch | CpuState::Arg1(_)));
}

#[test]
fn subroutine_and_stack() {
    // JSR to a routine that pushes A, changes it, pulls it back and returns; then store it
    let mut m = machine(&[
        Opcode::LDA(AddressingMode::Immediate(0x33)),
        Opcode::JSR(AddressingMode::Absolute(0x800A)),
        Opcode::STA(AddressingMode::ZeroPage(0x10)),
        Opcode::JMP(AddressingMode::Absolute(0x8007)),
        Opcode::PHA,
        Opcode::LDA(AddressingMode::Immediate(0x00)),
        Opcode::PLA,
        Opcode::RTS,
    ]);
    m.board.run_during(10_000_000, 1_000);
    assert_eq!(ram_of(&m).bytes()[0x10], 0x33);
    let r = cpu_of(&m).registers();
    assert_eq!(r.a.inner, 0x33);
    assert_eq!(r.s.inner, 0xFD);
}

#[test]
fn power_up_registers() {
    let mut m = machine(&[Opcode::NOP]);
    m.board.run(1_000);
    let r = cpu_of(&m).registers();
    assert_eq!(r.a.inner, 0);
    assert_eq!(r.s.inner, 0xFD);
    assert_eq!(r.p.bits(), 0x34);
}
