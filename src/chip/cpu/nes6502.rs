//! A 6502-class processor driven cycle by cycle through its pins.
//!
//! The processor acts on the falling edge of CLK; on the rising edge it only turns its data
//! bus around for the coming access. Decimal mode, interrupts, BRK and RTI are not modelled:
//! BRK and RTI halt the processor, and the two indexed indirect addressing modes run as NOP.
pub mod assembler;
pub mod opcodes;

pub use assembler::Assembler;
pub use opcodes::{AddressingMode, Opcode};

use vstd::prelude::*;

use super::Reg;
use crate::chip::{
    fresh_pins, lemma_bits_value_bound, bits_value, get_pin_in, has_pin, high_at, is_high_in, list_pins_in,
    logic_bits, pin_lookup, pin_types, pins_at, pins_from_types, read_at, set_state_at,
    set_state_in, set_types_at, set_types_in, write_at, written, ChipBuilder, ChipRunner, ChipSet,
    Pin, PinId, PinType,
};
use crate::{level_of, State, LOGIC_THRESHOLD_MV};
use opcodes::{
    decode_byte, mode_needs_compute, op_mode, op_needs_arg1, op_needs_arg2, op_needs_compute,
    op_with_arg1, op_with_arg2, with_mode,
};

verus! {

pub const FLAG_N: u8 = 0x80;
pub const FLAG_V: u8 = 0x40;
pub const FLAG_B: u8 = 0x10;
pub const FLAG_D: u8 = 0x08;
pub const FLAG_I: u8 = 0x04;
pub const FLAG_Z: u8 = 0x02;
pub const FLAG_C: u8 = 0x01;

/// `p` with the flags of `mask` set when `on`, cleared otherwise.
pub open spec fn with_flag(p: u8, mask: u8, on: bool) -> u8 {
    if on {
        p | mask
    } else {
        p & !mask
    }
}

/// A flag of `mask` is set in `p`.
pub open spec fn has_flag(p: u8, mask: u8) -> bool {
    p & mask != 0
}

/// `p` with Z and N describing `v`.
pub open spec fn with_nz(p: u8, v: u8) -> u8 {
    with_flag(with_flag(p, FLAG_Z, v == 0), FLAG_N, v >= 128)
}

/// The status register P: N V - B D I Z C, from the highest bit down.
#[derive(Debug, Clone, Copy, PartialEq, Eq, Structural)]
pub struct StatusRegister {
    pub bits: u8,
}

impl StatusRegister {
    pub const N: u8 = 0x80;
    pub const V: u8 = 0x40;
    pub const B: u8 = 0x10;
    pub const D: u8 = 0x08;
    pub const I: u8 = 0x04;
    pub const Z: u8 = 0x02;
    pub const C: u8 = 0x01;

    pub fn from_bits_retain(bits: u8) -> (r: StatusRegister)
        ensures
            r.bits == bits,
    {
        StatusRegister { bits }
    }

    pub fn bits(&self) -> (r: u8)
        ensures
            r == self.bits,
    {
        self.bits
    }

    /// A flag of `mask` is set.
    pub fn contains(&self, mask: u8) -> (r: bool)
        ensures
            r == has_flag(self.bits, mask),
    {
        self.bits & mask != 0
    }

    /// Sets the flags of `mask` when `on`, clears them otherwise.
    pub fn set(&mut self, mask: u8, on: bool)
        ensures
            final(self).bits == with_flag(old(self).bits, mask, on),
    {
        self.bits = if on {
            self.bits | mask
        } else {
            self.bits & !mask
        };
    }
}

fn nz(p: u8, v: u8) -> (r: u8)
    ensures
        r == with_nz(p, v),
{
    let z = if v == 0 {
        p | FLAG_Z
    } else {
        p & !FLAG_Z
    };
    if v >= 128 {
        z | FLAG_N
    } else {
        z & !FLAG_N
    }
}

#[derive(Debug, Clone, Copy)]
pub struct Registers {
    pub a: Reg<u8>,
    pub x: Reg<u8>,
    pub y: Reg<u8>,
    pub pc: Reg<u16>,
    pub s: Reg<u8>,
    pub p: StatusRegister,
}

/// The registers after power-up: A, X and Y zero, S at `$FD`, P at `$34`, PC at `$FFFC`.
pub open spec fn reset_registers() -> Registers {
    Registers {
        a: Reg { inner: 0 },
        x: Reg { inner: 0 },
        y: Reg { inner: 0 },
        pc: Reg { inner: 0xFFFC },
        s: Reg { inner: 0xFD },
        p: StatusRegister { bits: 0x34 },
    }
}

/// Where the processor stands in its cycle.
#[derive(Debug, Clone, Copy)]
pub enum CpuState {
    Reset,
    ResetCollectHighByte,
    ResetCollectLowByte,
    NmiCollectHighByte,
    NmiCollectLowByte,
    IrqCollectHighByte,
    IrqCollectLowByte,
    Fetch,
    Arg1(Opcode),
    Arg2(Opcode),
    Execute(Opcode, usize),
    Halted,
}

/// Something the processor did during a tick.
#[derive(Debug, Clone, Copy)]
pub enum CpuEvent {
    /// A step of this instruction ran.
    Execute { opcode: Opcode },
}

/// What the processor drives onto its buses on a clock edge.
#[derive(Debug, Clone, Copy)]
pub struct BusOut {
    pub addr: Option<u16>,
    pub data: Option<u8>,
    /// Direction of the data bus; input also drives R/W high, output drives it low.
    pub dir: Option<PinType>,
}

pub open spec fn quiet() -> BusOut {
    BusOut { addr: None, data: None, dir: None }
}

/// Presents `a` for reading.
pub open spec fn bus_read(a: u16) -> BusOut {
    BusOut { addr: Some(a), data: None, dir: Some(PinType::Input) }
}

/// Presents `a` and drives `v` for writing.
pub open spec fn bus_write(a: u16, v: u8) -> BusOut {
    BusOut { addr: Some(a), data: Some(v), dir: Some(PinType::Output) }
}

/// The part of the processor that its falling-edge step reads and writes.
#[derive(Debug, Clone, Copy)]
pub struct CpuCore {
    pub state: CpuState,
    pub registers: Registers,
    /// Scratch space for assembling 16-bit values over several cycles.
    pub buffer: u16,
}

/// How an instruction goes on after one of its steps.
#[derive(Debug, Clone, Copy)]
pub enum StepNext {
    /// Runs again at this step.
    Continue(usize),
    /// Is complete; the next instruction is fetched.
    Done,
    /// Stops the processor.
    Halt,
}

/// One step of an instruction.
#[derive(Debug, Clone, Copy)]
pub struct MicroStep {
    pub registers: Registers,
    pub buffer: u16,
    pub bus: BusOut,
    pub next: StepNext,
}

pub open spec fn set_a(r: Registers, v: u8) -> Registers {
    Registers { a: Reg { inner: v }, x: r.x, y: r.y, pc: r.pc, s: r.s, p: r.p }
}

pub open spec fn set_x(r: Registers, v: u8) -> Registers {
    Registers { a: r.a, x: Reg { inner: v }, y: r.y, pc: r.pc, s: r.s, p: r.p }
}

pub open spec fn set_y(r: Registers, v: u8) -> Registers {
    Registers { a: r.a, x: r.x, y: Reg { inner: v }, pc: r.pc, s: r.s, p: r.p }
}

pub open spec fn set_pc(r: Registers, v: u16) -> Registers {
    Registers { a: r.a, x: r.x, y: r.y, pc: Reg { inner: v }, s: r.s, p: r.p }
}

pub open spec fn set_s(r: Registers, v: u8) -> Registers {
    Registers { a: r.a, x: r.x, y: r.y, pc: r.pc, s: Reg { inner: v }, p: r.p }
}

pub open spec fn set_p(r: Registers, v: u8) -> Registers {
    Registers { a: r.a, x: r.x, y: r.y, pc: r.pc, s: r.s, p: StatusRegister { bits: v } }
}

/// Wrapping 8-bit sum.
pub open spec fn add8(a: int, b: int) -> u8 {
    ((a + b) % 256) as u8
}

/// Wrapping 16-bit sum.
pub open spec fn add16(a: int, b: int) -> u16 {
    ((a + b) % 65536) as u16
}

/// ADC: `A + v + C` into A; C from bit 8, V from the signs, then N and Z.
pub open spec fn adc(r: Registers, v: u8) -> Registers {
    let c: int = if has_flag(r.p.bits, FLAG_C) { 1 } else { 0 };
    let sum: int = r.a.inner + v + c;
    let res = (sum % 256) as u8;
    let p = with_flag(r.p.bits, FLAG_C, sum > 255);
    let p = with_flag(p, FLAG_V, (!(r.a.inner ^ v)) & (r.a.inner ^ res) & 0x80 != 0);
    set_p(set_a(r, res), with_nz(p, res))
}

/// Comparison of `base` with `v`: N and Z from `base - v`, C when `base >= v`.
pub open spec fn compare(r: Registers, base: u8, v: u8) -> Registers {
    let res = add8(base as int, 256 - v);
    set_p(r, with_nz(with_flag(r.p.bits, FLAG_C, base >= v), res))
}

/// The effect of an instruction that reads the operand `v`.
pub open spec fn alu(op: Opcode, r: Registers, v: u8) -> Registers {
    match op {
        Opcode::LDA(_) => set_p(set_a(r, v), with_nz(r.p.bits, v)),
        Opcode::LDX(_) => set_p(set_x(r, v), with_nz(r.p.bits, v)),
        Opcode::LDY(_) => set_p(set_y(r, v), with_nz(r.p.bits, v)),
        Opcode::ADC(_) => adc(r, v),
        Opcode::SBC(_) => adc(r, !v),
        Opcode::AND(_) => set_p(set_a(r, r.a.inner & v), with_nz(r.p.bits, r.a.inner & v)),
        Opcode::ORA(_) => set_p(set_a(r, r.a.inner | v), with_nz(r.p.bits, r.a.inner | v)),
        Opcode::EOR(_) => set_p(set_a(r, r.a.inner ^ v), with_nz(r.p.bits, r.a.inner ^ v)),
        Opcode::CMP(_) => compare(r, r.a.inner, v),
        Opcode::CPX(_) => compare(r, r.x.inner, v),
        Opcode::CPY(_) => compare(r, r.y.inner, v),
        Opcode::BIT(_) => set_p(
            r,
            with_flag(
                with_flag(with_flag(r.p.bits, FLAG_Z, r.a.inner & v == 0), FLAG_N, v >= 128),
                FLAG_V,
                v & 0x40 != 0,
            ),
        ),
        _ => r,
    }
}

/// The instruction reads an operand.
pub open spec fn is_read_op(op: Opcode) -> bool {
    op is LDA || op is LDX || op is LDY || op is ADC || op is SBC || op is AND || op is ORA
        || op is EOR || op is CMP || op is CPX || op is CPY || op is BIT
}

/// The instruction reads, modifies and writes back its operand.
pub open spec fn is_rmw_op(op: Opcode) -> bool {
    op is ASL || op is LSR || op is ROL || op is ROR || op is INC || op is DEC
}

/// The instruction stores a register.
pub open spec fn is_store_op(op: Opcode) -> bool {
    op is STA || op is STX || op is STY
}

/// The value a read-modify-write instruction makes of `v` with carry `c`.
pub open spec fn rmw_value(op: Opcode, v: u8, c: bool) -> u8 {
    let ci: int = if c { 1 } else { 0 };
    match op {
        Opcode::ASL(_) => add8(2 * v, 0),
        Opcode::LSR(_) => (v / 2) as u8,
        Opcode::ROL(_) => add8(2 * v, ci),
        Opcode::ROR(_) => (v / 2 + 128 * ci) as u8,
        Opcode::INC(_) => add8(v as int, 1),
        _ => add8(v as int, 255),
    }
}

/// The status a read-modify-write instruction leaves, from `p`, for the operand `v`.
pub open spec fn rmw_status(op: Opcode, p: u8, v: u8) -> u8 {
    let res = rmw_value(op, v, has_flag(p, FLAG_C));
    if op is INC || op is DEC {
        with_nz(p, res)
    } else {
        let carry = if op is ASL || op is ROL {
            v >= 128
        } else {
            v % 2 == 1
        };
        with_nz(with_flag(p, FLAG_C, carry), res)
    }
}

/// The branch instruction's condition holds under `p`.
pub open spec fn branch_taken(op: Opcode, p: u8) -> bool {
    match op {
        Opcode::BPL(_) => !has_flag(p, FLAG_N),
        Opcode::BMI(_) => has_flag(p, FLAG_N),
        Opcode::BVC(_) => !has_flag(p, FLAG_V),
        Opcode::BVS(_) => has_flag(p, FLAG_V),
        Opcode::BCC(_) => !has_flag(p, FLAG_C),
        Opcode::BCS(_) => has_flag(p, FLAG_C),
        Opcode::BNE(_) => !has_flag(p, FLAG_Z),
        _ => has_flag(p, FLAG_Z),
    }
}

/// The address a zero-page or absolute mode names.
pub open spec fn operand_address(m: AddressingMode) -> Option<u16> {
    match m {
        AddressingMode::ZeroPage(z) => Some(z as u16),
        AddressingMode::Absolute(a) => Some(a),
        _ => None,
    }
}

pub open spec fn step_to(n: usize, r: Registers, buffer: u16, bus: BusOut) -> MicroStep {
    MicroStep { registers: r, buffer, bus, next: StepNext::Continue(n) }
}

pub open spec fn done(r: Registers, buffer: u16) -> MicroStep {
    MicroStep { registers: r, buffer, bus: quiet(), next: StepNext::Done }
}

/// Pushes `v`: stores it at `$0100 + S`, then decrements S.
pub open spec fn push(n: usize, r: Registers, buffer: u16, v: u8) -> MicroStep {
    step_to(n, set_s(r, add8(r.s.inner as int, 255)), buffer, bus_write((0x100 + r.s.inner) as u16, v))
}

/// Prepares a pull: increments S, then presents `$0100 + S` for reading.
pub open spec fn pull(n: usize, r: Registers, buffer: u16) -> MicroStep {
    let s = add8(r.s.inner as int, 1);
    step_to(n, set_s(r, s), buffer, bus_read((0x100 + s) as u16))
}

/// A step of an instruction that reads an operand.
pub open spec fn read_step(op: Opcode, step: usize, r: Registers, buffer: u16, d: u8) -> MicroStep {
    let m = op_mode(op)->Some_0;
    if m is Immediate && !(op is BIT) {
        done(alu(op, r, m->Immediate_0), buffer)
    } else {
        match operand_address(m) {
            Some(a) => if step == 0 {
                step_to(1, r, buffer, bus_read(a))
            } else {
                done(alu(op, r, d), buffer)
            },
            None => done(r, buffer),
        }
    }
}

/// A step of a read-modify-write instruction.
pub open spec fn rmw_step(op: Opcode, step: usize, r: Registers, buffer: u16, d: u8) -> MicroStep {
    let m = op_mode(op)->Some_0;
    if m is Implicit && !(op is INC || op is DEC) {
        let v = r.a.inner;
        done(
            set_p(
                set_a(r, rmw_value(op, v, has_flag(r.p.bits, FLAG_C))),
                rmw_status(op, r.p.bits, v),
            ),
            buffer,
        )
    } else {
        match operand_address(m) {
            Some(a) => if step == 0 {
                step_to(1, r, buffer, bus_read(a))
            } else if step == 1 {
                step_to(
                    2,
                    set_p(r, rmw_status(op, r.p.bits, d)),
                    buffer,
                    BusOut {
                        addr: None,
                        data: Some(rmw_value(op, d, has_flag(r.p.bits, FLAG_C))),
                        dir: Some(PinType::Output),
                    },
                )
            } else {
                done(r, buffer)
            },
            None => done(r, buffer),
        }
    }
}

/// A step of a store instruction.
pub open spec fn store_step(op: Opcode, step: usize, r: Registers, buffer: u16, d: u8) -> MicroStep {
    let v = if op is STA {
        r.a.inner
    } else if op is STX {
        r.x.inner
    } else {
        r.y.inner
    };
    match op_mode(op)->Some_0 {
        AddressingMode::ZeroPage(z) => if step == 0 {
            step_to(1, r, buffer, bus_write(z as u16, v))
        } else {
            done(r, buffer)
        },
        AddressingMode::Absolute(a) => if step == 0 {
            step_to(1, r, buffer, quiet())
        } else if step == 1 {
            step_to(2, r, buffer, bus_write(a, v))
        } else {
            done(r, buffer)
        },
        _ => done(r, buffer),
    }
}

/// A step of any other instruction.
pub open spec fn other_step(op: Opcode, step: usize, r: Registers, buffer: u16, d: u8) -> MicroStep {
    match op {
        Opcode::BPL(o) | Opcode::BMI(o) | Opcode::BVC(o) | Opcode::BVS(o) | Opcode::BCC(o)
        | Opcode::BCS(o) | Opcode::BNE(o) | Opcode::BEQ(o) => if branch_taken(op, r.p.bits) {
            done(set_pc(r, add16(r.pc.inner as int, 65536 + o)), buffer)
        } else {
            done(r, buffer)
        },
        Opcode::JMP(AddressingMode::Absolute(a)) => done(set_pc(r, a), buffer),
        Opcode::JSR(AddressingMode::Absolute(a)) => {
            let ret = add16(r.pc.inner as int, 65535);
            if step == 0 {
                push(1, r, buffer, (ret / 256) as u8)
            } else if step == 1 {
                push(2, r, buffer, (ret % 256) as u8)
            } else {
                done(set_pc(r, a), buffer)
            }
        },
        Opcode::RTS => if step == 0 {
            pull(1, r, 0)
        } else if step == 1 {
            pull(2, r, d as u16)
        } else {
            done(set_pc(r, add16(buffer + 256 * d, 1)), add16(buffer as int, 256 * d))
        },
        Opcode::PHA => if step == 0 {
            push(1, r, buffer, r.a.inner)
        } else {
            done(r, buffer)
        },
        Opcode::PHP => if step == 0 {
            push(1, r, buffer, r.p.bits)
        } else {
            done(r, buffer)
        },
        Opcode::PLA => if step == 0 {
            pull(1, r, buffer)
        } else {
            done(set_p(set_a(r, d), with_nz(r.p.bits, d)), buffer)
        },
        Opcode::PLP => if step == 0 {
            pull(1, r, buffer)
        } else {
            done(set_p(r, d), buffer)
        },
        Opcode::TAX => done(set_p(set_x(r, r.a.inner), with_nz(r.p.bits, r.a.inner)), buffer),
        Opcode::TXA => done(set_p(set_a(r, r.x.inner), with_nz(r.p.bits, r.x.inner)), buffer),
        Opcode::TAY => done(set_p(set_y(r, r.a.inner), with_nz(r.p.bits, r.a.inner)), buffer),
        Opcode::TYA => done(set_p(set_a(r, r.y.inner), with_nz(r.p.bits, r.y.inner)), buffer),
        Opcode::TXS => done(set_s(r, r.x.inner), buffer),
        Opcode::TSX => done(set_p(set_x(r, r.s.inner), with_nz(r.p.bits, r.s.inner)), buffer),
        Opcode::INX => {
            let v = add8(r.x.inner as int, 1);
            done(set_p(set_x(r, v), with_nz(r.p.bits, v)), buffer)
        },
        Opcode::INY => {
            let v = add8(r.y.inner as int, 1);
            done(set_p(set_y(r, v), with_nz(r.p.bits, v)), buffer)
        },
        Opcode::DEX => {
            let v = add8(r.x.inner as int, 255);
            done(set_p(set_x(r, v), with_nz(r.p.bits, v)), buffer)
        },
        Opcode::DEY => {
            let v = add8(r.y.inner as int, 255);
            done(set_p(set_y(r, v), with_nz(r.p.bits, v)), buffer)
        },
        Opcode::CLC => done(set_p(r, with_flag(r.p.bits, FLAG_C, false)), buffer),
        Opcode::SEC => done(set_p(r, with_flag(r.p.bits, FLAG_C, true)), buffer),
        Opcode::CLI => done(set_p(r, with_flag(r.p.bits, FLAG_I, false)), buffer),
        Opcode::SEI => done(set_p(r, with_flag(r.p.bits, FLAG_I, true)), buffer),
        Opcode::CLV => done(set_p(r, with_flag(r.p.bits, FLAG_V, false)), buffer),
        Opcode::BRK | Opcode::RTI => MicroStep {
            registers: r,
            buffer,
            bus: quiet(),
            next: StepNext::Halt,
        },
        _ => done(r, buffer),
    }
}

/// One step of an instruction whose address is resolved, at step `step`, with `d` on the data
/// bus.
pub open spec fn instruction_step(op: Opcode, step: usize, r: Registers, buffer: u16, d: u8) -> MicroStep {
    if is_read_op(op) {
        read_step(op, step, r, buffer, d)
    } else if is_rmw_op(op) {
        rmw_step(op, step, r, buffer, d)
    } else if is_store_op(op) {
        store_step(op, step, r, buffer, d)
    } else {
        other_step(op, step, r, buffer, d)
    }
}

/// One step of resolving an indexed or indirect addressing mode: the instruction with its mode
/// rewritten, the next step, the buffer, and the bus.
pub open spec fn compute_step(op: Opcode, step: usize, r: Registers, buffer: u16, d: u8) -> (
    Opcode,
    usize,
    u16,
    BusOut,
) {
    match op_mode(op)->Some_0 {
        AddressingMode::Indirect(a) => if step == 0 {
            (with_mode(op, AddressingMode::Indirect(add16(a as int, 1))), 1, 0, bus_read(a))
        } else if step == 1 {
            (op, 2, (256 * d) as u16, bus_read(a))
        } else {
            let target = add16(buffer as int, d as int);
            (with_mode(op, AddressingMode::Absolute(target)), 0, target, quiet())
        },
        AddressingMode::ZeroPageIndexedX(z) => (
            with_mode(op, AddressingMode::ZeroPage(add8(z as int, r.x.inner as int))),
            0,
            buffer,
            quiet(),
        ),
        AddressingMode::ZeroPageIndexedY(z) => (
            with_mode(op, AddressingMode::ZeroPage(add8(z as int, r.y.inner as int))),
            0,
            buffer,
            quiet(),
        ),
        AddressingMode::AbsoluteIndexedX(a) => (
            with_mode(op, AddressingMode::Absolute(add16(a as int, r.x.inner as int))),
            0,
            buffer,
            quiet(),
        ),
        AddressingMode::AbsoluteIndexedY(a) => (
            with_mode(op, AddressingMode::Absolute(add16(a as int, r.y.inner as int))),
            0,
            buffer,
            quiet(),
        ),
        _ => (op, step, buffer, quiet()),
    }
}

/// The address is read indirectly through the zero page, which is not modelled.
pub open spec fn unmodelled_mode(op: Opcode) -> bool {
    op_mode(op) matches Some(m) && (m is IndexedIndirect || m is IndirectIndexed)
}

/// Presents PC for reading and moves it on by one.
pub open spec fn fetch_next(r: Registers) -> (Registers, BusOut) {
    (set_pc(r, add16(r.pc.inner as int, 1)), bus_read(r.pc.inner))
}

/// The falling-edge step of the processor, with `d` on the data bus.
pub open spec fn falling_edge(c: CpuCore, d: u8) -> (CpuCore, BusOut) {
    let r = c.registers;
    match c.state {
        CpuState::Reset => {
            let (r1, bus) = fetch_next(r);
            (CpuCore { state: CpuState::ResetCollectHighByte, registers: r1, buffer: c.buffer }, bus)
        },
        CpuState::ResetCollectHighByte => {
            let (r1, bus) = fetch_next(r);
            (
                CpuCore {
                    state: CpuState::ResetCollectLowByte,
                    registers: r1,
                    buffer: (256 * d) as u16,
                },
                bus,
            )
        },
        CpuState::ResetCollectLowByte => {
            let target = add16(c.buffer as int, d as int);
            let (r1, bus) = fetch_next(set_pc(r, target));
            (CpuCore { state: CpuState::Fetch, registers: r1, buffer: target }, bus)
        },
        CpuState::Fetch => {
            let op = decode_byte(d);
            if op_needs_arg1(op) {
                let (r1, bus) = fetch_next(r);
                (CpuCore { state: CpuState::Arg1(op), registers: r1, buffer: c.buffer }, bus)
            } else {
                (CpuCore { state: CpuState::Execute(op, 0), registers: r, buffer: c.buffer }, quiet())
            }
        },
        CpuState::Arg1(op) => {
            let op1 = op_with_arg1(op, d);
            if op_needs_arg2(op1) {
                let (r1, bus) = fetch_next(r);
                (CpuCore { state: CpuState::Arg2(op1), registers: r1, buffer: c.buffer }, bus)
            } else {
                (CpuCore { state: CpuState::Execute(op1, 0), registers: r, buffer: c.buffer }, quiet())
            }
        },
        CpuState::Arg2(op) => (
            CpuCore {
                state: CpuState::Execute(op_with_arg2(op, d), 0),
                registers: r,
                buffer: c.buffer,
            },
            quiet(),
        ),
        CpuState::Execute(op, step) => if unmodelled_mode(op) {
            let (r1, bus) = fetch_next(r);
            (CpuCore { state: CpuState::Fetch, registers: r1, buffer: c.buffer }, bus)
        } else if op_needs_compute(op) {
            let (op1, step1, buffer1, bus) = compute_step(op, step, r, c.buffer, d);
            (CpuCore { state: CpuState::Execute(op1, step1), registers: r, buffer: buffer1 }, bus)
        } else {
            let m = instruction_step(op, step, r, c.buffer, d);
            match m.next {
                StepNext::Continue(n) => (
                    CpuCore { state: CpuState::Execute(op, n), registers: m.registers, buffer: m.buffer },
                    m.bus,
                ),
                StepNext::Done => {
                    let (r1, bus) = fetch_next(m.registers);
                    (CpuCore { state: CpuState::Fetch, registers: r1, buffer: m.buffer }, bus)
                },
                StepNext::Halt => (
                    CpuCore { state: CpuState::Halted, registers: m.registers, buffer: m.buffer },
                    m.bus,
                ),
            }
        },
        CpuState::Halted => (c, quiet()),
        _ => (CpuCore { state: CpuState::Halted, registers: r, buffer: c.buffer }, quiet()),
    }
}

/// The rising-edge action: the data bus turns to input ahead of a read, and floats once halted.
pub open spec fn rising_edge(s: CpuState) -> BusOut {
    match s {
        CpuState::Execute(_, _) => quiet(),
        CpuState::Halted => BusOut { addr: None, data: None, dir: Some(PinType::Floating) },
        _ => BusOut { addr: None, data: None, dir: Some(PinType::Input) },
    }
}

fn flag(p: u8, mask: u8, on: bool) -> (r: u8)
    ensures
        r == with_flag(p, mask, on),
{
    if on {
        p | mask
    } else {
        p & !mask
    }
}

fn with_a(r: Registers, v: u8) -> (o: Registers)
    ensures
        o == set_a(r, v),
{
    Registers { a: Reg { inner: v }, x: r.x, y: r.y, pc: r.pc, s: r.s, p: r.p }
}

fn with_x(r: Registers, v: u8) -> (o: Registers)
    ensures
        o == set_x(r, v),
{
    Registers { a: r.a, x: Reg { inner: v }, y: r.y, pc: r.pc, s: r.s, p: r.p }
}

fn with_y(r: Registers, v: u8) -> (o: Registers)
    ensures
        o == set_y(r, v),
{
    Registers { a: r.a, x: r.x, y: Reg { inner: v }, pc: r.pc, s: r.s, p: r.p }
}

fn with_pc(r: Registers, v: u16) -> (o: Registers)
    ensures
        o == set_pc(r, v),
{
    Registers { a: r.a, x: r.x, y: r.y, pc: Reg { inner: v }, s: r.s, p: r.p }
}

fn with_s(r: Registers, v: u8) -> (o: Registers)
    ensures
        o == set_s(r, v),
{
    Registers { a: r.a, x: r.x, y: r.y, pc: r.pc, s: Reg { inner: v }, p: r.p }
}

fn with_p(r: Registers, v: u8) -> (o: Registers)
    ensures
        o == set_p(r, v),
{
    Registers { a: r.a, x: r.x, y: r.y, pc: r.pc, s: r.s, p: StatusRegister { bits: v } }
}

fn wrap8(a: u8, b: u8) -> (r: u8)
    ensures
        r == add8(a as int, b as int),
{
    ((a as u16 + b as u16) % 256) as u8
}

fn wrap16(a: u16, b: u16) -> (r: u16)
    ensures
        r == add16(a as int, b as int),
{
    ((a as u32 + b as u32) % 65536) as u16
}

fn run_adc(r: Registers, v: u8) -> (o: Registers)
    ensures
        o == adc(r, v),
{
    let c: u16 = if r.p.bits & FLAG_C != 0 {
        1
    } else {
        0
    };
    let sum: u16 = r.a.inner as u16 + v as u16 + c;
    let res = (sum % 256) as u8;
    let p = flag(r.p.bits, FLAG_C, sum > 255);
    let p = flag(p, FLAG_V, (!(r.a.inner ^ v)) & (r.a.inner ^ res) & 0x80 != 0);
    with_p(with_a(r, res), nz(p, res))
}

fn run_compare(r: Registers, base: u8, v: u8) -> (o: Registers)
    ensures
        o == compare(r, base, v),
{
    let res = ((base as u16 + 256 - v as u16) % 256) as u8;
    with_p(r, nz(flag(r.p.bits, FLAG_C, base >= v), res))
}

fn run_alu(op: Opcode, r: Registers, v: u8) -> (o: Registers)
    ensures
        o == alu(op, r, v),
{
    match op {
        Opcode::LDA(_) => with_p(with_a(r, v), nz(r.p.bits, v)),
        Opcode::LDX(_) => with_p(with_x(r, v), nz(r.p.bits, v)),
        Opcode::LDY(_) => with_p(with_y(r, v), nz(r.p.bits, v)),
        Opcode::ADC(_) => run_adc(r, v),
        Opcode::SBC(_) => run_adc(r, !v),
        Opcode::AND(_) => with_p(with_a(r, r.a.inner & v), nz(r.p.bits, r.a.inner & v)),
        Opcode::ORA(_) => with_p(with_a(r, r.a.inner | v), nz(r.p.bits, r.a.inner | v)),
        Opcode::EOR(_) => with_p(with_a(r, r.a.inner ^ v), nz(r.p.bits, r.a.inner ^ v)),
        Opcode::CMP(_) => run_compare(r, r.a.inner, v),
        Opcode::CPX(_) => run_compare(r, r.x.inner, v),
        Opcode::CPY(_) => run_compare(r, r.y.inner, v),
        Opcode::BIT(_) => with_p(
            r,
            flag(
                flag(flag(r.p.bits, FLAG_Z, r.a.inner & v == 0), FLAG_N, v >= 128),
                FLAG_V,
                v & 0x40 != 0,
            ),
        ),
        _ => r,
    }
}

fn is_read(op: Opcode) -> (r: bool)
    ensures
        r == is_read_op(op),
{
    matches!(
        op,
        Opcode::LDA(_) | Opcode::LDX(_) | Opcode::LDY(_) | Opcode::ADC(_) | Opcode::SBC(_)
            | Opcode::AND(_) | Opcode::ORA(_) | Opcode::EOR(_) | Opcode::CMP(_) | Opcode::CPX(_)
            | Opcode::CPY(_) | Opcode::BIT(_)
    )
}

fn is_rmw(op: Opcode) -> (r: bool)
    ensures
        r == is_rmw_op(op),
{
    matches!(
        op,
        Opcode::ASL(_) | Opcode::LSR(_) | Opcode::ROL(_) | Opcode::ROR(_) | Opcode::INC(_)
            | Opcode::DEC(_)
    )
}

fn is_store(op: Opcode) -> (r: bool)
    ensures
        r == is_store_op(op),
{
    matches!(op, Opcode::STA(_) | Opcode::STX(_) | Opcode::STY(_))
}

fn run_rmw_value(op: Opcode, v: u8, c: bool) -> (r: u8)
    ensures
        r == rmw_value(op, v, c),
{
    let ci: u16 = if c {
        1
    } else {
        0
    };
    match op {
        Opcode::ASL(_) => ((2 * v as u16) % 256) as u8,
        Opcode::LSR(_) => v / 2,
        Opcode::ROL(_) => ((2 * v as u16 + ci) % 256) as u8,
        Opcode::ROR(_) => (v as u16 / 2 + 128 * ci) as u8,
        Opcode::INC(_) => ((v as u16 + 1) % 256) as u8,
        _ => ((v as u16 + 255) % 256) as u8,
    }
}

fn run_rmw_status(op: Opcode, p: u8, v: u8) -> (r: u8)
    ensures
        r == rmw_status(op, p, v),
{
    let res = run_rmw_value(op, v, p & FLAG_C != 0);
    if matches!(op, Opcode::INC(_) | Opcode::DEC(_)) {
        nz(p, res)
    } else {
        let carry = if matches!(op, Opcode::ASL(_) | Opcode::ROL(_)) {
            v >= 128
        } else {
            v % 2 == 1
        };
        nz(flag(p, FLAG_C, carry), res)
    }
}

fn is_taken(op: Opcode, p: u8) -> (r: bool)
    ensures
        r == branch_taken(op, p),
{
    match op {
        Opcode::BPL(_) => p & FLAG_N == 0,
        Opcode::BMI(_) => p & FLAG_N != 0,
        Opcode::BVC(_) => p & FLAG_V == 0,
        Opcode::BVS(_) => p & FLAG_V != 0,
        Opcode::BCC(_) => p & FLAG_C == 0,
        Opcode::BCS(_) => p & FLAG_C != 0,
        Opcode::BNE(_) => p & FLAG_Z == 0,
        _ => p & FLAG_Z != 0,
    }
}

fn address_operand(m: AddressingMode) -> (r: Option<u16>)
    ensures
        r == operand_address(m),
{
    match m {
        AddressingMode::ZeroPage(z) => Some(z as u16),
        AddressingMode::Absolute(a) => Some(a),
        _ => None,
    }
}

fn read_bus(a: u16) -> (r: BusOut)
    ensures
        r == bus_read(a),
{
    BusOut { addr: Some(a), data: None, dir: Some(PinType::Input) }
}

fn write_bus(a: u16, v: u8) -> (r: BusOut)
    ensures
        r == bus_write(a, v),
{
    BusOut { addr: Some(a), data: Some(v), dir: Some(PinType::Output) }
}

fn no_bus() -> (r: BusOut)
    ensures
        r == quiet(),
{
    BusOut { addr: None, data: None, dir: None }
}

fn finish(r: Registers, buffer: u16) -> (m: MicroStep)
    ensures
        m == done(r, buffer),
{
    MicroStep { registers: r, buffer, bus: no_bus(), next: StepNext::Done }
}

fn go_to(n: usize, r: Registers, buffer: u16, bus: BusOut) -> (m: MicroStep)
    ensures
        m == step_to(n, r, buffer, bus),
{
    MicroStep { registers: r, buffer, bus, next: StepNext::Continue(n) }
}

fn run_push(n: usize, r: Registers, buffer: u16, v: u8) -> (m: MicroStep)
    ensures
        m == push(n, r, buffer, v),
{
    go_to(n, with_s(r, wrap8(r.s.inner, 255)), buffer, write_bus(0x100 + r.s.inner as u16, v))
}

fn run_pull(n: usize, r: Registers, buffer: u16) -> (m: MicroStep)
    ensures
        m == pull(n, r, buffer),
{
    let s = wrap8(r.s.inner, 1);
    go_to(n, with_s(r, s), buffer, read_bus(0x100 + s as u16))
}

fn run_read_step(op: Opcode, step: usize, r: Registers, buffer: u16, d: u8) -> (m: MicroStep)
    requires
        is_read_op(op),
    ensures
        m == read_step(op, step, r, buffer, d),
{
    let m = op.mode().unwrap();
    match m {
        AddressingMode::Immediate(v) => {
            if !matches!(op, Opcode::BIT(_)) {
                return finish(run_alu(op, r, v), buffer);
            }
        },
        _ => {},
    }
    match address_operand(m) {
        Some(a) => if step == 0 {
            go_to(1, r, buffer, read_bus(a))
        } else {
            finish(run_alu(op, r, d), buffer)
        },
        None => finish(r, buffer),
    }
}

fn run_rmw_step(op: Opcode, step: usize, r: Registers, buffer: u16, d: u8) -> (m: MicroStep)
    requires
        is_rmw_op(op),
    ensures
        m == rmw_step(op, step, r, buffer, d),
{
    let m = op.mode().unwrap();
    if matches!(m, AddressingMode::Implicit) && !matches!(op, Opcode::INC(_) | Opcode::DEC(_)) {
        let v = r.a.inner;
        let c = r.p.bits & FLAG_C != 0;
        return finish(
            with_p(with_a(r, run_rmw_value(op, v, c)), run_rmw_status(op, r.p.bits, v)),
            buffer,
        );
    }
    match address_operand(m) {
        Some(a) => if step == 0 {
            go_to(1, r, buffer, read_bus(a))
        } else if step == 1 {
            let c = r.p.bits & FLAG_C != 0;
            go_to(
                2,
                with_p(r, run_rmw_status(op, r.p.bits, d)),
                buffer,
                BusOut {
                    addr: None,
                    data: Some(run_rmw_value(op, d, c)),
                    dir: Some(PinType::Output),
                },
            )
        } else {
            finish(r, buffer)
        },
        None => finish(r, buffer),
    }
}

fn run_store_step(op: Opcode, step: usize, r: Registers, buffer: u16, d: u8) -> (m: MicroStep)
    requires
        is_store_op(op),
    ensures
        m == store_step(op, step, r, buffer, d),
{
    let v = match op {
        Opcode::STA(_) => r.a.inner,
        Opcode::STX(_) => r.x.inner,
        _ => r.y.inner,
    };
    match op.mode().unwrap() {
        AddressingMode::ZeroPage(z) => if step == 0 {
            go_to(1, r, buffer, write_bus(z as u16, v))
        } else {
            finish(r, buffer)
        },
        AddressingMode::Absolute(a) => if step == 0 {
            go_to(1, r, buffer, no_bus())
        } else if step == 1 {
            go_to(2, r, buffer, write_bus(a, v))
        } else {
            finish(r, buffer)
        },
        _ => finish(r, buffer),
    }
}

#[verifier::rlimit(50)]
fn run_other_step(op: Opcode, step: usize, r: Registers, buffer: u16, d: u8) -> (m: MicroStep)
    requires
        !is_read_op(op) && !is_rmw_op(op) && !is_store_op(op),
    ensures
        m == other_step(op, step, r, buffer, d),
{
    match op {
        Opcode::BPL(o) | Opcode::BMI(o) | Opcode::BVC(o) | Opcode::BVS(o) | Opcode::BCC(o)
        | Opcode::BCS(o) | Opcode::BNE(o) | Opcode::BEQ(o) => if is_taken(op, r.p.bits) {
            let target = ((r.pc.inner as i32 + 65536 + o as i32) % 65536) as u16;
            finish(with_pc(r, target), buffer)
        } else {
            finish(r, buffer)
        },
        Opcode::JMP(AddressingMode::Absolute(a)) => finish(with_pc(r, a), buffer),
        Opcode::JSR(AddressingMode::Absolute(a)) => {
            let ret = wrap16(r.pc.inner, 65535);
            if step == 0 {
                run_push(1, r, buffer, (ret / 256) as u8)
            } else if step == 1 {
                run_push(2, r, buffer, (ret % 256) as u8)
            } else {
                finish(with_pc(r, a), buffer)
            }
        },
        Opcode::RTS => if step == 0 {
            run_pull(1, r, 0)
        } else if step == 1 {
            run_pull(2, r, d as u16)
        } else {
            let full = ((buffer as u32 + 256 * d as u32) % 65536) as u16;
            finish(with_pc(r, wrap16(full, 1)), full)
        },
        Opcode::PHA => if step == 0 {
            run_push(1, r, buffer, r.a.inner)
        } else {
            finish(r, buffer)
        },
        Opcode::PHP => if step == 0 {
            run_push(1, r, buffer, r.p.bits)
        } else {
            finish(r, buffer)
        },
        Opcode::PLA => if step == 0 {
            run_pull(1, r, buffer)
        } else {
            finish(with_p(with_a(r, d), nz(r.p.bits, d)), buffer)
        },
        Opcode::PLP => if step == 0 {
            run_pull(1, r, buffer)
        } else {
            finish(with_p(r, d), buffer)
        },
        Opcode::TAX => finish(with_p(with_x(r, r.a.inner), nz(r.p.bits, r.a.inner)), buffer),
        Opcode::TXA => finish(with_p(with_a(r, r.x.inner), nz(r.p.bits, r.x.inner)), buffer),
        Opcode::TAY => finish(with_p(with_y(r, r.a.inner), nz(r.p.bits, r.a.inner)), buffer),
        Opcode::TYA => finish(with_p(with_a(r, r.y.inner), nz(r.p.bits, r.y.inner)), buffer),
        Opcode::TXS => finish(with_s(r, r.x.inner), buffer),
        Opcode::TSX => finish(with_p(with_x(r, r.s.inner), nz(r.p.bits, r.s.inner)), buffer),
        Opcode::INX => {
            let v = wrap8(r.x.inner, 1);
            finish(with_p(with_x(r, v), nz(r.p.bits, v)), buffer)
        },
        Opcode::INY => {
            let v = wrap8(r.y.inner, 1);
            finish(with_p(with_y(r, v), nz(r.p.bits, v)), buffer)
        },
        Opcode::DEX => {
            let v = wrap8(r.x.inner, 255);
            finish(with_p(with_x(r, v), nz(r.p.bits, v)), buffer)
        },
        Opcode::DEY => {
            let v = wrap8(r.y.inner, 255);
            finish(with_p(with_y(r, v), nz(r.p.bits, v)), buffer)
        },
        Opcode::CLC => finish(with_p(r, flag(r.p.bits, FLAG_C, false)), buffer),
        Opcode::SEC => finish(with_p(r, flag(r.p.bits, FLAG_C, true)), buffer),
        Opcode::CLI => finish(with_p(r, flag(r.p.bits, FLAG_I, false)), buffer),
        Opcode::SEI => finish(with_p(r, flag(r.p.bits, FLAG_I, true)), buffer),
        Opcode::CLV => finish(with_p(r, flag(r.p.bits, FLAG_V, false)), buffer),
        Opcode::BRK | Opcode::RTI => MicroStep {
            registers: r,
            buffer,
            bus: no_bus(),
            next: StepNext::Halt,
        },
        _ => finish(r, buffer),
    }
}

fn run_instruction_step(op: Opcode, step: usize, r: Registers, buffer: u16, d: u8) -> (m: MicroStep)
    ensures
        m == instruction_step(op, step, r, buffer, d),
{
    if is_read(op) {
        run_read_step(op, step, r, buffer, d)
    } else if is_rmw(op) {
        run_rmw_step(op, step, r, buffer, d)
    } else if is_store(op) {
        run_store_step(op, step, r, buffer, d)
    } else {
        run_other_step(op, step, r, buffer, d)
    }
}

fn run_compute_step(op: Opcode, step: usize, r: Registers, buffer: u16, d: u8) -> (o: (
    Opcode,
    usize,
    u16,
    BusOut,
))
    requires
        op_needs_compute(op),
    ensures
        o == compute_step(op, step, r, buffer, d),
{
    match op.mode().unwrap() {
        AddressingMode::Indirect(a) => if step == 0 {
            (op.with_mode(AddressingMode::Indirect(wrap16(a, 1))), 1, 0, read_bus(a))
        } else if step == 1 {
            (op, 2, 256 * d as u16, read_bus(a))
        } else {
            let target = wrap16(buffer, d as u16);
            (op.with_mode(AddressingMode::Absolute(target)), 0, target, no_bus())
        },
        AddressingMode::ZeroPageIndexedX(z) => (
            op.with_mode(AddressingMode::ZeroPage(wrap8(z, r.x.inner))),
            0,
            buffer,
            no_bus(),
        ),
        AddressingMode::ZeroPageIndexedY(z) => (
            op.with_mode(AddressingMode::ZeroPage(wrap8(z, r.y.inner))),
            0,
            buffer,
            no_bus(),
        ),
        AddressingMode::AbsoluteIndexedX(a) => (
            op.with_mode(AddressingMode::Absolute(wrap16(a, r.x.inner as u16))),
            0,
            buffer,
            no_bus(),
        ),
        AddressingMode::AbsoluteIndexedY(a) => (
            op.with_mode(AddressingMode::Absolute(wrap16(a, r.y.inner as u16))),
            0,
            buffer,
            no_bus(),
        ),
        _ => (op, step, buffer, no_bus()),
    }
}

fn run_fetch_next(r: Registers) -> (o: (Registers, BusOut))
    ensures
        o == fetch_next(r),
{
    (with_pc(r, wrap16(r.pc.inner, 1)), read_bus(r.pc.inner))
}

/// The modes whose indexed indirect addressing is not modelled.
fn is_unmodelled(op: Opcode) -> (r: bool)
    ensures
        r == unmodelled_mode(op),
{
    match op.mode() {
        Some(m) => matches!(m, AddressingMode::IndexedIndirect(_) | AddressingMode::IndirectIndexed(_)),
        None => false,
    }
}

/// Runs the falling-edge step of the processor with `d` on the data bus.
pub fn step_falling_edge(c: CpuCore, d: u8) -> (o: (CpuCore, BusOut))
    ensures
        o == falling_edge(c, d),
{
    let r = c.registers;
    match c.state {
        CpuState::Reset => {
            let (r1, bus) = run_fetch_next(r);
            (CpuCore { state: CpuState::ResetCollectHighByte, registers: r1, buffer: c.buffer }, bus)
        },
        CpuState::ResetCollectHighByte => {
            let (r1, bus) = run_fetch_next(r);
            (CpuCore { state: CpuState::ResetCollectLowByte, registers: r1, buffer: 256 * d as u16 }, bus)
        },
        CpuState::ResetCollectLowByte => {
            let target = wrap16(c.buffer, d as u16);
            let (r1, bus) = run_fetch_next(with_pc(r, target));
            (CpuCore { state: CpuState::Fetch, registers: r1, buffer: target }, bus)
        },
        CpuState::Fetch => {
            let op = Opcode::decode(d);
            if op.require_arg1() {
                let (r1, bus) = run_fetch_next(r);
                (CpuCore { state: CpuState::Arg1(op), registers: r1, buffer: c.buffer }, bus)
            } else {
                (CpuCore { state: CpuState::Execute(op, 0), registers: r, buffer: c.buffer }, no_bus())
            }
        },
        CpuState::Arg1(op) => {
            let mut op1 = op;
            op1.set_arg1(d);
            if op1.require_arg2() {
                let (r1, bus) = run_fetch_next(r);
                (CpuCore { state: CpuState::Arg2(op1), registers: r1, buffer: c.buffer }, bus)
            } else {
                (CpuCore { state: CpuState::Execute(op1, 0), registers: r, buffer: c.buffer }, no_bus())
            }
        },
        CpuState::Arg2(op) => {
            let mut op1 = op;
            op1.set_arg2(d);
            (CpuCore { state: CpuState::Execute(op1, 0), registers: r, buffer: c.buffer }, no_bus())
        },
        CpuState::Execute(op, step) => if is_unmodelled(op) {
            let (r1, bus) = run_fetch_next(r);
            (CpuCore { state: CpuState::Fetch, registers: r1, buffer: c.buffer }, bus)
        } else if op.need_compute() {
            let (op1, step1, buffer1, bus) = run_compute_step(op, step, r, c.buffer, d);
            (CpuCore { state: CpuState::Execute(op1, step1), registers: r, buffer: buffer1 }, bus)
        } else {
            let m = run_instruction_step(op, step, r, c.buffer, d);
            match m.next {
                StepNext::Continue(n) => (
                    CpuCore { state: CpuState::Execute(op, n), registers: m.registers, buffer: m.buffer },
                    m.bus,
                ),
                StepNext::Done => {
                    let (r1, bus) = run_fetch_next(m.registers);
                    (CpuCore { state: CpuState::Fetch, registers: r1, buffer: m.buffer }, bus)
                },
                StepNext::Halt => (
                    CpuCore { state: CpuState::Halted, registers: m.registers, buffer: m.buffer },
                    m.bus,
                ),
            }
        },
        CpuState::Halted => (c, no_bus()),
        _ => (CpuCore { state: CpuState::Halted, registers: r, buffer: c.buffer }, no_bus()),
    }
}

/// Address pins A0..A15, lowest bit first.
pub open spec fn cpu_address() -> Seq<usize> {
    seq![4usize, 5, 6, 7, 8, 9, 10, 11, 12, 13, 14, 15, 16, 17, 18, 19]
}

/// Data pins D0..D7, lowest bit first.
pub open spec fn cpu_data() -> Seq<usize> {
    seq![28usize, 27, 26, 25, 24, 23, 22, 21]
}

/// The byte on the data pins.
pub open spec fn data_byte(pins: Seq<Pin>) -> u8 {
    bits_value(logic_bits(pins_at(pins, cpu_data()), LOGIC_THRESHOLD_MV)) as u8
}

/// The pins after the processor drives `bus`: the address onto A0..A15, the data onto
/// D0..D7, and the data direction onto D0..D7 with R/W high for input and low for output.
pub open spec fn apply_bus(pins: Seq<Pin>, bus: BusOut) -> Seq<Pin> {
    let with_addr = match bus.addr {
        Some(a) => written(pins, cpu_address(), a as nat),
        None => pins,
    };
    let with_data = match bus.data {
        Some(v) => written(with_addr, cpu_data(), v as nat),
        None => with_addr,
    };
    match bus.dir {
        Some(t) => {
            let typed = set_types_at(with_data, cpu_data(), t);
            match t {
                PinType::Input => set_state_at(typed, 34, State::High),
                PinType::Output => set_state_at(typed, 34, State::Low),
                PinType::Floating => typed,
            }
        },
        None => with_data,
    }
}

fn drive_bus(pins: &mut Vec<Pin>, bus: BusOut)
    requires
        old(pins)@.len() == 41,
    ensures
        final(pins)@ == apply_bus(old(pins)@, bus),
        final(pins)@.len() == 41,
{
    let addr: [usize; 16] = [4, 5, 6, 7, 8, 9, 10, 11, 12, 13, 14, 15, 16, 17, 18, 19];
    let data: [usize; 8] = [28, 27, 26, 25, 24, 23, 22, 21];
    assert(addr@ == cpu_address());
    assert(data@ == cpu_data());
    match bus.addr {
        Some(a) => {
            write_at(pins, &addr, a as usize);
        },
        None => {},
    }
    match bus.data {
        Some(v) => {
            write_at(pins, &data, v as usize);
        },
        None => {},
    }
    match bus.dir {
        Some(t) => {
            set_types_in(pins, &data, t);
            match t {
                PinType::Input => set_state_in(pins, 34, State::High),
                PinType::Output => set_state_in(pins, 34, State::Low),
                PinType::Floating => {},
            }
        },
        None => {},
    }
}

fn rising_bus(s: CpuState) -> (r: BusOut)
    ensures
        r == rising_edge(s),
{
    match s {
        CpuState::Execute(_, _) => no_bus(),
        CpuState::Halted => BusOut { addr: None, data: None, dir: Some(PinType::Floating) },
        _ => BusOut { addr: None, data: None, dir: Some(PinType::Input) },
    }
}

/// The processor part that a tick starts from: as it is while powered, reset on power-up.
pub open spec fn core_at_tick(c: Nes6502) -> CpuCore {
    if c.is_powered() {
        CpuCore { state: c.cpu_state(), registers: c.regs(), buffer: c.scratch() }
    } else {
        CpuCore { state: CpuState::Reset, registers: reset_registers(), buffer: c.scratch() }
    }
}

pub open spec fn has_core(c: Nes6502, k: CpuCore) -> bool {
    c.cpu_state() == k.state && c.regs() == k.registers && c.scratch() == k.buffer
}

/// A 6502-class processor in a 40-pin package.
pub struct Nes6502 {
    pins: Vec<Pin>,
    powered: bool,
    clock: bool,
    state: CpuState,
    registers: Registers,
    buffer: u16,
    last_event: Option<CpuEvent>,
}

impl Nes6502 {
    pub const VCC: PinId = 40;
    pub const GND: PinId = 20;
    pub const RST: PinId = 3;
    pub const OUT0: PinId = 39;
    pub const OUT1: PinId = 38;
    pub const OUT2: PinId = 37;
    pub const OE1: PinId = 36;
    pub const OE2: PinId = 35;
    /// Read/write: high to read, low to write.
    pub const RW: PinId = 34;
    /// Non-maskable interrupt (not modelled).
    pub const NMI: PinId = 33;
    /// Interrupt request (not modelled).
    pub const IRQ: PinId = 32;
    /// Follows the clock.
    pub const M2: PinId = 31;
    pub const TST: PinId = 30;
    pub const CLK: PinId = 29;
    pub const AD1: PinId = 1;
    pub const AD2: PinId = 2;
    pub const A0: PinId = 4;
    pub const A1: PinId = 5;
    pub const A2: PinId = 6;
    pub const A3: PinId = 7;
    pub const A4: PinId = 8;
    pub const A5: PinId = 9;
    pub const A6: PinId = 10;
    pub const A7: PinId = 11;
    pub const A8: PinId = 12;
    pub const A9: PinId = 13;
    pub const A10: PinId = 14;
    pub const A11: PinId = 15;
    pub const A12: PinId = 16;
    pub const A13: PinId = 17;
    pub const A14: PinId = 18;
    pub const A15: PinId = 19;
    pub const D0: PinId = 28;
    pub const D1: PinId = 27;
    pub const D2: PinId = 26;
    pub const D3: PinId = 25;
    pub const D4: PinId = 24;
    pub const D5: PinId = 23;
    pub const D6: PinId = 22;
    pub const D7: PinId = 21;

    /// The pins, indexed by pin number.
    pub closed spec fn pins_view(&self) -> Seq<Pin> {
        self.pins@
    }

    /// The pins of a freshly built processor: each pin's direction, all at `Undefined`.
    pub open spec fn initial_pins() -> Seq<Pin> {
        fresh_pins(seq![PinType::Floating, PinType::Output, PinType::Output, PinType::Input, PinType::Output, PinType::Output, PinType::Output, PinType::Output, PinType::Output, PinType::Output, PinType::Output, PinType::Output, PinType::Output, PinType::Output, PinType::Output, PinType::Output, PinType::Output, PinType::Output, PinType::Output, PinType::Output, PinType::Output, PinType::Floating, PinType::Floating, PinType::Floating, PinType::Floating, PinType::Floating, PinType::Floating, PinType::Floating, PinType::Floating, PinType::Input, PinType::Input, PinType::Output, PinType::Input, PinType::Input, PinType::Output, PinType::Output, PinType::Output, PinType::Output, PinType::Output, PinType::Output, PinType::Input])
    }

    pub closed spec fn is_powered(&self) -> bool {
        self.powered
    }

    pub closed spec fn clock_level(&self) -> bool {
        self.clock
    }

    pub closed spec fn cpu_state(&self) -> CpuState {
        self.state
    }

    pub closed spec fn regs(&self) -> Registers {
        self.registers
    }

    pub closed spec fn scratch(&self) -> u16 {
        self.buffer
    }

    pub closed spec fn last_event(&self) -> Option<CpuEvent> {
        self.last_event
    }

    /// `other` differs from `self` at most in pin levels.
    pub open spec fn same_but_levels(&self, other: &Self) -> bool {
        pin_types(self.pins_view()) == pin_types(other.pins_view())
            && self.is_powered() == other.is_powered()
            && self.clock_level() == other.clock_level()
            && self.cpu_state() == other.cpu_state()
            && self.regs() == other.regs()
            && self.scratch() == other.scratch()
            && self.last_event() == other.last_event()
    }

    pub fn get_pin(&self, pin: PinId) -> (r: Option<Pin>)
        ensures
            r == pin_lookup(self.pins_view(), pin),
    {
        get_pin_in(&self.pins, pin)
    }

    /// Sets the level of pin `pin`, leaving its direction.
    pub fn set_pin_state(&mut self, pin: PinId, state: State)
        requires
            has_pin(old(self).pins_view(), pin as int),
        ensures
            final(self).pins_view() == set_state_at(old(self).pins_view(), pin as int, state),
            old(self).same_but_levels(&*final(self)),
            final(self).is_powered() == old(self).is_powered(),
            final(self).clock_level() == old(self).clock_level(),
            final(self).cpu_state() == old(self).cpu_state(),
            final(self).regs() == old(self).regs(),
            final(self).scratch() == old(self).scratch(),
            final(self).last_event() == old(self).last_event(),
    {
        set_state_in(&mut self.pins, pin, state);
        assert(pin_types(self.pins@) =~= pin_types(old(self).pins@));
    }

    /// The largest pin number plus one.
    pub fn pin_count(&self) -> (r: usize)
        ensures
            r == self.pins_view().len(),
    {
        self.pins.len()
    }

    /// Every pin with its number, by increasing number.
    pub fn list_pins(&self) -> (r: Vec<(PinId, Pin)>)
        requires
            self.wf(),
        ensures
            r@.len() + 1 == self.pins_view().len(),
            forall|i: int|
                0 <= i < r@.len() ==> #[trigger] r@[i] == (
                (i + 1) as usize,
                self.pins_view()[i + 1],
            ),
    {
        list_pins_in(&self.pins)
    }

    /// Drives `addr` onto A0..A15.
    pub fn set_addr(&mut self, addr: u16)
        requires
            old(self).wf(),
        ensures
            final(self).wf(),
            final(self).pins_view() == written(old(self).pins_view(), cpu_address(), addr as nat),
    {
        let ids: [usize; 16] = [4, 5, 6, 7, 8, 9, 10, 11, 12, 13, 14, 15, 16, 17, 18, 19];
        assert(ids@ == cpu_address());
        write_at(&mut self.pins, &ids, addr as usize);
    }

    /// Drives `data` onto D0..D7.
    pub fn set_data(&mut self, data: u8)
        requires
            old(self).wf(),
        ensures
            final(self).wf(),
            final(self).pins_view() == written(old(self).pins_view(), cpu_data(), data as nat),
    {
        let ids: [usize; 8] = [28, 27, 26, 25, 24, 23, 22, 21];
        assert(ids@ == cpu_data());
        write_at(&mut self.pins, &ids, data as usize);
    }

    /// The byte on D0..D7.
    pub fn get_data(&self) -> (r: u8)
        requires
            self.wf(),
        ensures
            r == data_byte(self.pins_view()),
    {
        let ids: [usize; 8] = [28, 27, 26, 25, 24, 23, 22, 21];
        assert(ids@ == cpu_data());
        proof {
            lemma_bits_value_bound(logic_bits(pins_at(self.pins@, cpu_data()), LOGIC_THRESHOLD_MV));
            vstd::arithmetic::power2::lemma2_to64();
        }
        read_at(&self.pins, &ids, LOGIC_THRESHOLD_MV) as u8
    }

    pub fn registers(&self) -> (r: Registers)
        ensures
            r == self.regs(),
    {
        self.registers
    }

    pub fn state(&self) -> (r: CpuState)
        ensures
            r == self.cpu_state(),
    {
        self.state
    }

    /// The instruction step run during the last falling edge, if any.
    pub fn event(&self) -> (r: Option<CpuEvent>)
        ensures
            r == self.last_event(),
    {
        self.last_event
    }

}

impl ChipRunner for Nes6502 {
    open spec fn wf(&self) -> bool {
        self.pins_view().len() == 41 && true
    }

    open spec fn runs_to(&self, tick_ns: u64, next: &Self) -> bool {
        let pins = self.pins_view();
        if high_at(pins, 40, LOGIC_THRESHOLD_MV) {
            let k0 = core_at_tick(*self);
            let clk = high_at(pins, 29, LOGIC_THRESHOLD_MV);
            &&& next.is_powered()
            &&& next.clock_level() == clk
            &&& if self.clock_level() != clk {
                let clocked = set_state_at(pins, 31, level_of(clk));
                if clk {
                    &&& has_core(*next, k0)
                    &&& next.pins_view() == apply_bus(clocked, rising_edge(k0.state))
                    &&& next.last_event() == self.last_event()
                } else {
                    let (k1, bus) = falling_edge(k0, data_byte(clocked));
                    &&& has_core(*next, k1)
                    &&& next.pins_view() == apply_bus(clocked, bus)
                    &&& next.last_event() == match k0.state {
                        CpuState::Execute(op, _) => Some(CpuEvent::Execute { opcode: op }),
                        _ => None,
                    }
                }
            } else {
                &&& has_core(*next, k0)
                &&& next.pins_view() == pins
                &&& next.last_event() == self.last_event()
            }
        } else {
            &&& next.pins_view() == pins
            &&& !next.is_powered()
            &&& next.clock_level() == self.clock_level()
            &&& next.regs() == self.regs()
            &&& next.scratch() == self.scratch()
            &&& next.last_event() == self.last_event()
            &&& next.cpu_state() == if self.is_powered() {
                CpuState::Halted
            } else {
                self.cpu_state()
            }
        }
    }

    fn run(&mut self, tick_ns: u64) {
        if is_high_in(&self.pins, 40, LOGIC_THRESHOLD_MV) {
            if !self.powered {
                self.state = CpuState::Reset;
                self.registers = Registers {
                    a: Reg { inner: 0 },
                    x: Reg { inner: 0 },
                    y: Reg { inner: 0 },
                    pc: Reg { inner: 0xFFFC },
                    s: Reg { inner: 0xFD },
                    p: StatusRegister { bits: 0x34 },
                };
                self.powered = true;
            }
            let clk = is_high_in(&self.pins, 29, LOGIC_THRESHOLD_MV);
            if self.clock != clk {
                self.clock = clk;
                set_state_in(&mut self.pins, 31, State::from_bool(clk));
                if clk {
                    let bus = rising_bus(self.state);
                    drive_bus(&mut self.pins, bus);
                } else {
                    let d = self.get_data();
                    self.last_event = match self.state {
                        CpuState::Execute(op, _) => Some(CpuEvent::Execute { opcode: op }),
                        _ => None,
                    };
                    let core = CpuCore { state: self.state, registers: self.registers, buffer: self.buffer };
                    let (next, bus) = step_falling_edge(core, d);
                    self.state = next.state;
                    self.registers = next.registers;
                    self.buffer = next.buffer;
                    drive_bus(&mut self.pins, bus);
                }
            }
        } else if self.powered {
            self.state = CpuState::Halted;
            self.powered = false;
        }
    }
}

/// The registers of a processor that has never been powered: all zero.
pub open spec fn zero_registers() -> Registers {
    Registers {
        a: Reg { inner: 0 },
        x: Reg { inner: 0 },
        y: Reg { inner: 0 },
        pc: Reg { inner: 0 },
        s: Reg { inner: 0 },
        p: StatusRegister { bits: 0 },
    }
}

impl ChipBuilder<ChipSet> for Nes6502 {
    fn build() -> (r: ChipSet)
        ensures
            r matches ChipSet::Nes6502(c) && c.pins_view() == Nes6502::initial_pins()
                && !c.is_powered() && !c.clock_level() && c.cpu_state() is Reset
                && c.regs() == zero_registers() && c.scratch() == 0 && c.last_event() is None,
    {
        let types: [PinType; 41] = [
            PinType::Floating, PinType::Output, PinType::Output, PinType::Input,
            PinType::Output, PinType::Output, PinType::Output, PinType::Output,
            PinType::Output, PinType::Output, PinType::Output, PinType::Output,
            PinType::Output, PinType::Output, PinType::Output, PinType::Output,
            PinType::Output, PinType::Output, PinType::Output, PinType::Output,
            PinType::Output, PinType::Floating, PinType::Floating, PinType::Floating,
            PinType::Floating, PinType::Floating, PinType::Floating, PinType::Floating,
            PinType::Floating, PinType::Input, PinType::Input, PinType::Output,
            PinType::Input, PinType::Input, PinType::Output, PinType::Output,
            PinType::Output, PinType::Output, PinType::Output, PinType::Output,
            PinType::Input,
        ];
        assert(types@ == seq![PinType::Floating, PinType::Output, PinType::Output, PinType::Input, PinType::Output, PinType::Output, PinType::Output, PinType::Output, PinType::Output, PinType::Output, PinType::Output, PinType::Output, PinType::Output, PinType::Output, PinType::Output, PinType::Output, PinType::Output, PinType::Output, PinType::Output, PinType::Output, PinType::Output, PinType::Floating, PinType::Floating, PinType::Floating, PinType::Floating, PinType::Floating, PinType::Floating, PinType::Floating, PinType::Floating, PinType::Input, PinType::Input, PinType::Output, PinType::Input, PinType::Input, PinType::Output, PinType::Output, PinType::Output, PinType::Output, PinType::Output, PinType::Output, PinType::Input]);
        let c = Nes6502 {
            pins: pins_from_types(&types),
            powered: false,
            clock: false,
            state: CpuState::Reset,
            registers: Registers {
                a: Reg { inner: 0 },
                x: Reg { inner: 0 },
                y: Reg { inner: 0 },
                pc: Reg { inner: 0 },
                s: Reg { inner: 0 },
                p: StatusRegister { bits: 0 },
            },
            buffer: 0,
            last_event: None,
        };
        ChipSet::Nes6502(Box::new(c))
    }
}

} // verus!
