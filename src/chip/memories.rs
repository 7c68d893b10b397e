//! Memory chips: RAM and ROM with chip select, output enable and (for RAM) write enable,
//! all active low, and a bidirectional data bus.
use vstd::arithmetic::power2::{lemma2_to64, pow2};
use vstd::prelude::*;

use super::{
    fresh_pins, lemma_written_types, listed, bits_value, get_pin_in, has_pin, high_at, is_high_in,
    lemma_bits_value_bound, lemma_read_written, list_pins_in, logic_bits, pin_lookup, pin_types,
    pins_at, pins_from_types, read_at, set_state_at, set_state_in, set_types_at, set_types_in,
    valid_ids, write_at, written, ChipBuilder, ChipRunner, ChipSet, Pin, PinId, PinType,
};
use crate::{State, LOGIC_THRESHOLD_MV, POWER_THRESHOLD_MV};

verus! {

/// An access made by a memory chip during a tick.
#[derive(Debug, Clone, Copy, PartialEq, Eq, Structural)]
pub enum MemoryEvent {
    WriteByte { addr: usize, byte: u8 },
    ReadByte { addr: usize, byte: u8 },
}

/// Relies on `rand::random`: any byte at all.
#[verifier::external_body]
fn random_byte() -> (r: u8) {
    rand::random::<u8>()
}

/// Pin numbers of one memory package.
pub struct MemoryLayout {
    pub vcc: usize,
    pub gnd: usize,
    pub cs: usize,
    /// `None` on a read-only chip.
    pub we: Option<usize>,
    pub oe: usize,
}

/// The address on the address pins.
pub open spec fn address_of(pins: Seq<Pin>, addr: Seq<usize>) -> nat {
    bits_value(logic_bits(pins_at(pins, addr), LOGIC_THRESHOLD_MV))
}

/// One access of a powered memory chip: with CS low, WE low writes the data bus into the
/// addressed byte (data pins as inputs), else OE low drives the addressed byte onto the data
/// bus (data pins as outputs); otherwise the data pins float.
pub open spec fn memory_access(
    pins: Seq<Pin>,
    data: Seq<u8>,
    lay: MemoryLayout,
    addr: Seq<usize>,
    io: Seq<usize>,
) -> (Seq<Pin>, Seq<u8>, Option<MemoryEvent>) {
    let a = address_of(pins, addr);
    if pins[lay.cs as int].state == State::Low {
        if lay.we matches Some(w) && pins[w as int].state == State::Low {
            let byte = address_of(pins, io) as u8;
            (
                set_types_at(pins, io, PinType::Input),
                data.update(a as int, byte),
                Some(MemoryEvent::WriteByte { addr: a as usize, byte }),
            )
        } else if pins[lay.oe as int].state == State::Low {
            (
                written(set_types_at(pins, io, PinType::Output), io, data[a as int] as nat),
                data,
                Some(MemoryEvent::ReadByte { addr: a as usize, byte: data[a as int] }),
            )
        } else {
            (set_types_at(pins, io, PinType::Floating), data, None)
        }
    } else {
        (set_types_at(pins, io, PinType::Floating), data, None)
    }
}

/// One tick of a memory chip: while VCC is powered it grounds GND and makes its access (a RAM
/// coming up from unpowered first fills itself with arbitrary bytes); on losing power its data
/// pins float.
pub open spec fn memory_step(
    pins: Seq<Pin>,
    data: Seq<u8>,
    powered: bool,
    next_pins: Seq<Pin>,
    next_data: Seq<u8>,
    next_powered: bool,
    next_event: Option<MemoryEvent>,
    lay: MemoryLayout,
    addr: Seq<usize>,
    io: Seq<usize>,
) -> bool {
    if high_at(pins, lay.vcc as int, POWER_THRESHOLD_MV) {
        let grounded = set_state_at(pins, lay.gnd as int, State::Low);
        &&& next_powered
        &&& (powered || lay.we is None) ==> (next_pins, next_data, next_event) == memory_access(
            grounded,
            data,
            lay,
            addr,
            io,
        )
        &&& (!powered && lay.we is Some) ==> exists|fresh: Seq<u8>|
            fresh.len() == data.len() && (next_pins, next_data, next_event) == memory_access(
                grounded,
                fresh,
                lay,
                addr,
                io,
            )
    } else if powered {
        &&& next_pins == set_types_at(pins, io, PinType::Floating)
        &&& !next_powered
        &&& next_data == data
        &&& next_event is None
    } else {
        &&& next_pins == pins
        &&& !next_powered
        &&& next_data == data
        &&& next_event is None
    }
}

/// The layout is usable: every pin exists, the data bus is eight pins wide, the buses hold
/// distinct pins apart from the control pins, and the memory spans the address bus.
pub open spec fn layout_ok(
    pins: Seq<Pin>,
    data: Seq<u8>,
    lay: MemoryLayout,
    addr: Seq<usize>,
    io: Seq<usize>,
) -> bool {
    &&& lay.vcc < pins.len() && lay.gnd < pins.len() && lay.cs < pins.len() && lay.oe < pins.len()
    &&& (lay.we matches Some(w) ==> w < pins.len())
    &&& valid_ids(pins, addr)
    &&& valid_ids(pins, io)
    &&& io.len() == 8
    &&& addr.len() <= 16
    &&& data.len() == pow2(addr.len())
    &&& forall|k: int| 0 <= k < io.len() ==> io[k] != lay.gnd
    &&& forall|k: int| 0 <= k < addr.len() ==> addr[k] != lay.gnd
}

fn fill_random(data: &mut Vec<u8>)
    ensures
        final(data)@.len() == old(data)@.len(),
{
    let mut i: usize = 0;
    while i < data.len()
        invariant
            data@.len() == old(data)@.len(),
        decreases data@.len() - i,
    {
        let b = random_byte();
        data.set(i, b);
        i = i + 1;
    }
}

/// Runs one tick of a memory chip on its parts.
fn memory_tick(
    pins: &mut Vec<Pin>,
    data: &mut Vec<u8>,
    powered: &mut bool,
    event: &mut Option<MemoryEvent>,
    lay: &MemoryLayout,
    addr: &[usize],
    io: &[usize],
)
    requires
        layout_ok(old(pins)@, old(data)@, *lay, addr@, io@),
    ensures
        final(pins)@.len() == old(pins)@.len(),
        final(data)@.len() == old(data)@.len(),
        memory_step(
            old(pins)@,
            old(data)@,
            *old(powered),
            final(pins)@,
            final(data)@,
            *final(powered),
            *final(event),
            *lay,
            addr@,
            io@,
        ),
{
    proof {
        lemma2_to64();
    }
    if is_high_in(pins, lay.vcc, POWER_THRESHOLD_MV) {
        if !*powered {
            if lay.we.is_some() {
                fill_random(data);
            }
            *powered = true;
        }
        let ghost d0 = data@;
        set_state_in(pins, lay.gnd, State::Low);
        let ghost grounded = pins@;
        proof {
            assert(valid_ids(grounded, addr@));
            assert(valid_ids(grounded, io@));
        }
        let write = match lay.we {
            Some(w) => pins[w].state == State::Low,
            None => false,
        };
        if pins[lay.cs].state == State::Low {
            if write {
                let a = read_at(pins, addr, LOGIC_THRESHOLD_MV);
                let byte = read_at(pins, io, LOGIC_THRESHOLD_MV);
                proof {
                    lemma_bits_value_bound(logic_bits(pins_at(grounded, addr@), LOGIC_THRESHOLD_MV));
                    lemma_bits_value_bound(logic_bits(pins_at(grounded, io@), LOGIC_THRESHOLD_MV));
                }
                set_types_in(pins, io, PinType::Input);
                data.set(a, byte as u8);
                *event = Some(MemoryEvent::WriteByte { addr: a, byte: byte as u8 });
            } else if pins[lay.oe].state == State::Low {
                let a = read_at(pins, addr, LOGIC_THRESHOLD_MV);
                proof {
                    lemma_bits_value_bound(logic_bits(pins_at(grounded, addr@), LOGIC_THRESHOLD_MV));
                }
                let byte = data[a];
                set_types_in(pins, io, PinType::Output);
                write_at(pins, io, byte as usize);
                *event = Some(MemoryEvent::ReadByte { addr: a, byte });
            } else {
                set_types_in(pins, io, PinType::Floating);
                *event = None;
            }
        } else {
            set_types_in(pins, io, PinType::Floating);
            *event = None;
        }
        proof {
            if !*old(powered) && lay.we.is_some() {
                assert(d0.len() == old(data)@.len());
            }
        }
    } else if *powered {
        set_types_in(pins, io, PinType::Floating);
        *powered = false;
        *event = None;
    } else {
        *event = None;
    }
}

/// `n` zero bytes.
pub open spec fn zero_bytes(n: nat) -> Seq<u8> {
    Seq::new(n, |i: int| 0u8)
}

fn zeroes(n: usize) -> (r: Vec<u8>)
    ensures
        r@ == zero_bytes(n as nat),
{
    let mut r: Vec<u8> = Vec::new();
    let mut i: usize = 0;
    while i < n
        invariant
            i <= n,
            r@ =~= zero_bytes(i as nat),
        decreases n - i,
    {
        r.push(0);
        i = i + 1;
    }
    r
}

/// `bytes` cut or padded with zeroes to `n` bytes.
pub open spec fn fitted(bytes: Seq<u8>, n: nat) -> Seq<u8> {
    Seq::new(n, |i: int| if i < bytes.len() { bytes[i] } else { 0u8 })
}

fn fit(bytes: &[u8], n: usize) -> (r: Vec<u8>)
    ensures
        r@ == fitted(bytes@, n as nat),
{
    let mut r: Vec<u8> = Vec::new();
    let mut i: usize = 0;
    while i < n
        invariant
            i <= n,
            r@ =~= fitted(bytes@, n as nat).subrange(0, i as int),
        decreases n - i,
    {
        if i < bytes.len() {
            r.push(bytes[i]);
        } else {
            r.push(0);
        }
        i = i + 1;
    }
    assert(r@ =~= fitted(bytes@, n as nat));
    r
}

/// Address pins of the Ram256B, lowest bit first.
pub open spec fn ram256b_address() -> Seq<usize> {
    seq![4usize, 5, 6, 7, 8, 9, 10, 12]
}

/// Data pins of the Ram256B, lowest bit first.
pub open spec fn ram256b_data() -> Seq<usize> {
    seq![13usize, 14, 15, 16, 17, 18, 19, 20]
}

pub open spec fn ram256b_layout() -> MemoryLayout {
    MemoryLayout { vcc: 22, gnd: 11, cs: 1, we: Some(2), oe: 3 }
}

/// A 256-byte RAM: random contents at power-up, kept until power is lost.
pub struct Ram256B {
    pins: Vec<Pin>,
    powered: bool,
    data: Vec<u8>,
    last_event: Option<MemoryEvent>,
}

impl Ram256B {
    /// Chip select, active low.
    pub const CS: PinId = 1;
    /// Write enable, active low.
    pub const WE: PinId = 2;
    /// Output enable, active low.
    pub const OE: PinId = 3;
    pub const A0: PinId = 4;
    pub const A1: PinId = 5;
    pub const A2: PinId = 6;
    pub const A3: PinId = 7;
    pub const A4: PinId = 8;
    pub const A5: PinId = 9;
    pub const A6: PinId = 10;
    pub const A7: PinId = 12;
    pub const IO0: PinId = 13;
    pub const IO1: PinId = 14;
    pub const IO2: PinId = 15;
    pub const IO3: PinId = 16;
    pub const IO4: PinId = 17;
    pub const IO5: PinId = 18;
    pub const IO6: PinId = 19;
    pub const IO7: PinId = 20;
    pub const VCC: PinId = 22;
    pub const GND: PinId = 11;

    /// The pins, indexed by pin number.
    pub closed spec fn pins_view(&self) -> Seq<Pin> {
        self.pins@
    }

    /// The pins of a freshly built chip: each pin's direction, all at `Undefined`.
    pub open spec fn initial_pins() -> Seq<Pin> {
        fresh_pins(seq![PinType::Floating, PinType::Input, PinType::Input, PinType::Input, PinType::Input, PinType::Input, PinType::Input, PinType::Input, PinType::Input, PinType::Input, PinType::Input, PinType::Output, PinType::Input, PinType::Floating, PinType::Floating, PinType::Floating, PinType::Floating, PinType::Floating, PinType::Floating, PinType::Floating, PinType::Floating, PinType::Floating, PinType::Input])
    }

    pub closed spec fn is_powered(&self) -> bool {
        self.powered
    }

    pub closed spec fn memory(&self) -> Seq<u8> {
        self.data@
    }

    pub closed spec fn last_event(&self) -> Option<MemoryEvent> {
        self.last_event
    }

    /// `other` differs from `self` at most in pin levels.
    pub open spec fn same_but_levels(&self, other: &Self) -> bool {
        pin_types(self.pins_view()) == pin_types(other.pins_view())
            && self.is_powered() == other.is_powered()
            && self.memory() == other.memory()
            && self.last_event() == other.last_event()
    }

    pub fn get_pin(&self, pin: PinId) -> (r: Option<Pin>)
        ensures
            r == pin_lookup(self.pins_view(), pin),
    {
        get_pin_in(&self.pins, pin)
    }

    /// Sets the level of pin `pin`, leaving its direction.
    pub fn set_pin_state(&mut self, pin: PinId, state: State)
        requires
            has_pin(old(self).pins_view(), pin as int),
        ensures
            final(self).pins_view() == set_state_at(old(self).pins_view(), pin as int, state),
            old(self).same_but_levels(&*final(self)),
            final(self).is_powered() == old(self).is_powered(),
            final(self).memory() == old(self).memory(),
            final(self).last_event() == old(self).last_event(),
    {
        set_state_in(&mut self.pins, pin, state);
        assert(pin_types(self.pins@) =~= pin_types(old(self).pins@));
    }

    /// The largest pin number plus one.
    pub fn pin_count(&self) -> (r: usize)
        ensures
            r == self.pins_view().len(),
    {
        self.pins.len()
    }

    /// Every pin with its number, by increasing number.
    pub fn list_pins(&self) -> (r: Vec<(PinId, Pin)>)
        requires
            self.wf(),
        ensures
            r@.len() + 1 == self.pins_view().len(),
            forall|i: int|
                0 <= i < r@.len() ==> #[trigger] r@[i] == (
                (i + 1) as usize,
                self.pins_view()[i + 1],
            ),
    {
        list_pins_in(&self.pins)
    }

    /// The stored bytes.
    pub fn bytes(&self) -> (r: &[u8])
        ensures
            r@ == self.memory(),
    {
        self.data.as_slice()
    }

    /// The access made during the last tick, if any.
    pub fn event(&self) -> (r: Option<MemoryEvent>)
        ensures
            r == self.last_event(),
    {
        self.last_event
    }
}

impl ChipRunner for Ram256B {
    open spec fn wf(&self) -> bool {
        self.pins_view().len() == 23 && self.memory().len() == 256
    }

    open spec fn runs_to(&self, tick_ns: u64, next: &Self) -> bool {
        memory_step(
            self.pins_view(),
            self.memory(),
            self.is_powered(),
            next.pins_view(),
            next.memory(),
            next.is_powered(),
            next.last_event(),
            ram256b_layout(),
            ram256b_address(),
            ram256b_data(),
        )
    }

    fn run(&mut self, tick_ns: u64) {
        let lay = MemoryLayout { vcc: 22, gnd: 11, cs: 1, we: Some(2), oe: 3 };
        let addr: [usize; 8] = [4, 5, 6, 7, 8, 9, 10, 12];
        let io: [usize; 8] = [13, 14, 15, 16, 17, 18, 19, 20];
        proof {
            lemma2_to64();
            assert(addr@ == ram256b_address());
            assert(io@ == ram256b_data());
            assert(valid_ids(self.pins@, addr@));
            assert(valid_ids(self.pins@, io@));
        }
        memory_tick(
            &mut self.pins,
            &mut self.data,
            &mut self.powered,
            &mut self.last_event,
            &lay,
            &addr,
            &io,
        );
    }
}

impl ChipBuilder<ChipSet> for Ram256B {
    fn build() -> (r: ChipSet)
        ensures
            r matches ChipSet::Ram256B(c) && c.pins_view() == Ram256B::initial_pins()
                && c.is_powered() == false
                && c.memory() == zero_bytes(256)
                && c.last_event() == None::<MemoryEvent>,
    {
        let types: [PinType; 23] = [
            PinType::Floating, PinType::Input, PinType::Input, PinType::Input,
            PinType::Input, PinType::Input, PinType::Input, PinType::Input,
            PinType::Input, PinType::Input, PinType::Input, PinType::Output,
            PinType::Input, PinType::Floating, PinType::Floating, PinType::Floating,
            PinType::Floating, PinType::Floating, PinType::Floating, PinType::Floating,
            PinType::Floating, PinType::Floating, PinType::Input,
        ];
        assert(types@ == seq![PinType::Floating, PinType::Input, PinType::Input, PinType::Input, PinType::Input, PinType::Input, PinType::Input, PinType::Input, PinType::Input, PinType::Input, PinType::Input, PinType::Output, PinType::Input, PinType::Floating, PinType::Floating, PinType::Floating, PinType::Floating, PinType::Floating, PinType::Floating, PinType::Floating, PinType::Floating, PinType::Floating, PinType::Input]);
        let c = Ram256B {
            pins: pins_from_types(&types),
            powered: false,
            data: zeroes(256),
            last_event: None,
        };
        ChipSet::Ram256B(c)
    }
}

/// Address pins of the Ram8KB, lowest bit first.
pub open spec fn ram8kb_address() -> Seq<usize> {
    seq![4usize, 5, 6, 7, 8, 9, 10, 11, 12, 14, 15, 16, 17]
}

/// Data pins of the Ram8KB, lowest bit first.
pub open spec fn ram8kb_data() -> Seq<usize> {
    seq![18usize, 19, 20, 21, 22, 23, 24, 25]
}

pub open spec fn ram8kb_layout() -> MemoryLayout {
    MemoryLayout { vcc: 26, gnd: 13, cs: 1, we: Some(2), oe: 3 }
}

/// A 8 KiB RAM: random contents at power-up, kept until power is lost.
pub struct Ram8KB {
    pins: Vec<Pin>,
    powered: bool,
    data: Vec<u8>,
    last_event: Option<MemoryEvent>,
}

impl Ram8KB {
    /// Chip select, active low.
    pub const CS: PinId = 1;
    /// Write enable, active low.
    pub const WE: PinId = 2;
    /// Output enable, active low.
    pub const OE: PinId = 3;
    pub const A0: PinId = 4;
    pub const A1: PinId = 5;
    pub const A2: PinId = 6;
    pub const A3: PinId = 7;
    pub const A4: PinId = 8;
    pub const A5: PinId = 9;
    pub const A6: PinId = 10;
    pub const A7: PinId = 11;
    pub const A8: PinId = 12;
    pub const A9: PinId = 14;
    pub const A10: PinId = 15;
    pub const A11: PinId = 16;
    pub const A12: PinId = 17;
    pub const IO0: PinId = 18;
    pub const IO1: PinId = 19;
    pub const IO2: PinId = 20;
    pub const IO3: PinId = 21;
    pub const IO4: PinId = 22;
    pub const IO5: PinId = 23;
    pub const IO6: PinId = 24;
    pub const IO7: PinId = 25;
    pub const VCC: PinId = 26;
    pub const GND: PinId = 13;

    /// The pins, indexed by pin number.
    pub closed spec fn pins_view(&self) -> Seq<Pin> {
        self.pins@
    }

    /// The pins of a freshly built chip: each pin's direction, all at `Undefined`.
    pub open spec fn initial_pins() -> Seq<Pin> {
        fresh_pins(seq![PinType::Floating, PinType::Input, PinType::Input, PinType::Input, PinType::Input, PinType::Input, PinType::Input, PinType::Input, PinType::Input, PinType::Input, PinType::Input, PinType::Input, PinType::Input, PinType::Output, PinType::Input, PinType::Input, PinType::Input, PinType::Input, PinType::Floating, PinType::Floating, PinType::Floating, PinType::Floating, PinType::Floating, PinType::Floating, PinType::Floating, PinType::Floating, PinType::Input])
    }

    pub closed spec fn is_powered(&self) -> bool {
        self.powered
    }

    pub closed spec fn memory(&self) -> Seq<u8> {
        self.data@
    }

    pub closed spec fn last_event(&self) -> Option<MemoryEvent> {
        self.last_event
    }

    /// `other` differs from `self` at most in pin levels.
    pub open spec fn same_but_levels(&self, other: &Self) -> bool {
        pin_types(self.pins_view()) == pin_types(other.pins_view())
            && self.is_powered() == other.is_powered()
            && self.memory() == other.memory()
            && self.last_event() == other.last_event()
    }

    pub fn get_pin(&self, pin: PinId) -> (r: Option<Pin>)
        ensures
            r == pin_lookup(self.pins_view(), pin),
    {
        get_pin_in(&self.pins, pin)
    }

    /// Sets the level of pin `pin`, leaving its direction.
    pub fn set_pin_state(&mut self, pin: PinId, state: State)
        requires
            has_pin(old(self).pins_view(), pin as int),
        ensures
            final(self).pins_view() == set_state_at(old(self).pins_view(), pin as int, state),
            old(self).same_but_levels(&*final(self)),
            final(self).is_powered() == old(self).is_powered(),
            final(self).memory() == old(self).memory(),
            final(self).last_event() == old(self).last_event(),
    {
        set_state_in(&mut self.pins, pin, state);
        assert(pin_types(self.pins@) =~= pin_types(old(self).pins@));
    }

    /// The largest pin number plus one.
    pub fn pin_count(&self) -> (r: usize)
        ensures
            r == self.pins_view().len(),
    {
        self.pins.len()
    }

    /// Every pin with its number, by increasing number.
    pub fn list_pins(&self) -> (r: Vec<(PinId, Pin)>)
        requires
            self.wf(),
        ensures
            r@.len() + 1 == self.pins_view().len(),
            forall|i: int|
                0 <= i < r@.len() ==> #[trigger] r@[i] == (
                (i + 1) as usize,
                self.pins_view()[i + 1],
            ),
    {
        list_pins_in(&self.pins)
    }

    /// The stored bytes.
    pub fn bytes(&self) -> (r: &[u8])
        ensures
            r@ == self.memory(),
    {
        self.data.as_slice()
    }

    /// The access made during the last tick, if any.
    pub fn event(&self) -> (r: Option<MemoryEvent>)
        ensures
            r == self.last_event(),
    {
        self.last_event
    }
}

impl ChipRunner for Ram8KB {
    open spec fn wf(&self) -> bool {
        self.pins_view().len() == 27 && self.memory().len() == 8192
    }

    open spec fn runs_to(&self, tick_ns: u64, next: &Self) -> bool {
        memory_step(
            self.pins_view(),
            self.memory(),
            self.is_powered(),
            next.pins_view(),
            next.memory(),
            next.is_powered(),
            next.last_event(),
            ram8kb_layout(),
            ram8kb_address(),
            ram8kb_data(),
        )
    }

    fn run(&mut self, tick_ns: u64) {
        let lay = MemoryLayout { vcc: 26, gnd: 13, cs: 1, we: Some(2), oe: 3 };
        let addr: [usize; 13] = [4, 5, 6, 7, 8, 9, 10, 11, 12, 14, 15, 16, 17];
        let io: [usize; 8] = [18, 19, 20, 21, 22, 23, 24, 25];
        proof {
            lemma2_to64();
            assert(addr@ == ram8kb_address());
            assert(io@ == ram8kb_data());
            assert(valid_ids(self.pins@, addr@));
            assert(valid_ids(self.pins@, io@));
        }
        memory_tick(
            &mut self.pins,
            &mut self.data,
            &mut self.powered,
            &mut self.last_event,
            &lay,
            &addr,
            &io,
        );
    }
}

impl ChipBuilder<ChipSet> for Ram8KB {
    fn build() -> (r: ChipSet)
        ensures
            r matches ChipSet::Ram8KB(c) && c.pins_view() == Ram8KB::initial_pins()
                && c.is_powered() == false
                && c.memory() == zero_bytes(8192)
                && c.last_event() == None::<MemoryEvent>,
    {
        let types: [PinType; 27] = [
            PinType::Floating, PinType::Input, PinType::Input, PinType::Input,
            PinType::Input, PinType::Input, PinType::Input, PinType::Input,
            PinType::Input, PinType::Input, PinType::Input, PinType::Input,
            PinType::Input, PinType::Output, PinType::Input, PinType::Input,
            PinType::Input, PinType::Input, PinType::Floating, PinType::Floating,
            PinType::Floating, PinType::Floating, PinType::Floating, PinType::Floating,
            PinType::Floating, PinType::Floating, PinType::Input,
        ];
        assert(types@ == seq![PinType::Floating, PinType::Input, PinType::Input, PinType::Input, PinType::Input, PinType::Input, PinType::Input, PinType::Input, PinType::Input, PinType::Input, PinType::Input, PinType::Input, PinType::Input, PinType::Output, PinType::Input, PinType::Input, PinType::Input, PinType::Input, PinType::Floating, PinType::Floating, PinType::Floating, PinType::Floating, PinType::Floating, PinType::Floating, PinType::Floating, PinType::Floating, PinType::Input]);
        let c = Ram8KB {
            pins: pins_from_types(&types),
            powered: false,
            data: zeroes(8192),
            last_event: None,
        };
        ChipSet::Ram8KB(c)
    }
}

/// Address pins of the Rom256B, lowest bit first.
pub open spec fn rom256b_address() -> Seq<usize> {
    seq![4usize, 5, 6, 7, 8, 9, 10, 12]
}

/// Data pins of the Rom256B, lowest bit first.
pub open spec fn rom256b_data() -> Seq<usize> {
    seq![13usize, 14, 15, 16, 17, 18, 19, 20]
}

pub open spec fn rom256b_layout() -> MemoryLayout {
    MemoryLayout { vcc: 22, gnd: 11, cs: 1, we: None, oe: 3 }
}

/// A 256-byte ROM, programmed when built.
pub struct Rom256B {
    pins: Vec<Pin>,
    powered: bool,
    data: Vec<u8>,
    last_event: Option<MemoryEvent>,
}

impl Rom256B {
    /// Chip select, active low.
    pub const CS: PinId = 1;
    /// Output enable, active low.
    pub const OE: PinId = 3;
    pub const A0: PinId = 4;
    pub const A1: PinId = 5;
    pub const A2: PinId = 6;
    pub const A3: PinId = 7;
    pub const A4: PinId = 8;
    pub const A5: PinId = 9;
    pub const A6: PinId = 10;
    pub const A7: PinId = 12;
    pub const IO0: PinId = 13;
    pub const IO1: PinId = 14;
    pub const IO2: PinId = 15;
    pub const IO3: PinId = 16;
    pub const IO4: PinId = 17;
    pub const IO5: PinId = 18;
    pub const IO6: PinId = 19;
    pub const IO7: PinId = 20;
    pub const VCC: PinId = 22;
    pub const GND: PinId = 11;

    /// The pins, indexed by pin number.
    pub closed spec fn pins_view(&self) -> Seq<Pin> {
        self.pins@
    }

    /// The pins of a freshly built chip: each pin's direction, all at `Undefined`.
    pub open spec fn initial_pins() -> Seq<Pin> {
        fresh_pins(seq![PinType::Floating, PinType::Input, PinType::Floating, PinType::Input, PinType::Input, PinType::Input, PinType::Input, PinType::Input, PinType::Input, PinType::Input, PinType::Input, PinType::Output, PinType::Input, PinType::Floating, PinType::Floating, PinType::Floating, PinType::Floating, PinType::Floating, PinType::Floating, PinType::Floating, PinType::Floating, PinType::Floating, PinType::Input])
    }

    pub closed spec fn is_powered(&self) -> bool {
        self.powered
    }

    pub closed spec fn memory(&self) -> Seq<u8> {
        self.data@
    }

    pub closed spec fn last_event(&self) -> Option<MemoryEvent> {
        self.last_event
    }

    /// `other` differs from `self` at most in pin levels.
    pub open spec fn same_but_levels(&self, other: &Self) -> bool {
        pin_types(self.pins_view()) == pin_types(other.pins_view())
            && self.is_powered() == other.is_powered()
            && self.memory() == other.memory()
            && self.last_event() == other.last_event()
    }

    pub fn get_pin(&self, pin: PinId) -> (r: Option<Pin>)
        ensures
            r == pin_lookup(self.pins_view(), pin),
    {
        get_pin_in(&self.pins, pin)
    }

    /// Sets the level of pin `pin`, leaving its direction.
    pub fn set_pin_state(&mut self, pin: PinId, state: State)
        requires
            has_pin(old(self).pins_view(), pin as int),
        ensures
            final(self).pins_view() == set_state_at(old(self).pins_view(), pin as int, state),
            old(self).same_but_levels(&*final(self)),
            final(self).is_powered() == old(self).is_powered(),
            final(self).memory() == old(self).memory(),
            final(self).last_event() == old(self).last_event(),
    {
        set_state_in(&mut self.pins, pin, state);
        assert(pin_types(self.pins@) =~= pin_types(old(self).pins@));
    }

    /// The largest pin number plus one.
    pub fn pin_count(&self) -> (r: usize)
        ensures
            r == self.pins_view().len(),
    {
        self.pins.len()
    }

    /// Every pin with its number, by increasing number.
    pub fn list_pins(&self) -> (r: Vec<(PinId, Pin)>)
        requires
            self.wf(),
        ensures
            r@.len() + 1 == self.pins_view().len(),
            forall|i: int|
                0 <= i < r@.len() ==> #[trigger] r@[i] == (
                (i + 1) as usize,
                self.pins_view()[i + 1],
            ),
    {
        list_pins_in(&self.pins)
    }

    /// The stored bytes.
    pub fn bytes(&self) -> (r: &[u8])
        ensures
            r@ == self.memory(),
    {
        self.data.as_slice()
    }

    /// The access made during the last tick, if any.
    pub fn event(&self) -> (r: Option<MemoryEvent>)
        ensures
            r == self.last_event(),
    {
        self.last_event
    }

    /// The ROM holding `data`, cut or padded with zeroes to its capacity.
    pub fn set_data(self, data: &[u8]) -> (r: Self)
        requires
            self.wf(),
        ensures
            r.wf(),
            r.memory() == fitted(data@, 256),
            r.pins_view() == self.pins_view(),
            r.is_powered() == self.is_powered(),
            r.last_event() == self.last_event(),
    {
        let mut r = self;
        r.data = fit(data, 256);
        r
    }
}

impl ChipRunner for Rom256B {
    open spec fn wf(&self) -> bool {
        self.pins_view().len() == 23 && self.memory().len() == 256
    }

    open spec fn runs_to(&self, tick_ns: u64, next: &Self) -> bool {
        memory_step(
            self.pins_view(),
            self.memory(),
            self.is_powered(),
            next.pins_view(),
            next.memory(),
            next.is_powered(),
            next.last_event(),
            rom256b_layout(),
            rom256b_address(),
            rom256b_data(),
        ) && next.memory() == self.memory()
    }

    fn run(&mut self, tick_ns: u64) {
        let lay = MemoryLayout { vcc: 22, gnd: 11, cs: 1, we: None, oe: 3 };
        let addr: [usize; 8] = [4, 5, 6, 7, 8, 9, 10, 12];
        let io: [usize; 8] = [13, 14, 15, 16, 17, 18, 19, 20];
        proof {
            lemma2_to64();
            assert(addr@ == rom256b_address());
            assert(io@ == rom256b_data());
            assert(valid_ids(self.pins@, addr@));
            assert(valid_ids(self.pins@, io@));
        }
        memory_tick(
            &mut self.pins,
            &mut self.data,
            &mut self.powered,
            &mut self.last_event,
            &lay,
            &addr,
            &io,
        );
    }
}

impl ChipBuilder<Rom256B> for Rom256B {
    fn build() -> (r: Rom256B)
        ensures
            r.pins_view() == Self::initial_pins(),
            r.is_powered() == false,
            r.memory() == zero_bytes(256),
            r.last_event() == None::<MemoryEvent>,
    {
        let types: [PinType; 23] = [
            PinType::Floating, PinType::Input, PinType::Floating, PinType::Input,
            PinType::Input, PinType::Input, PinType::Input, PinType::Input,
            PinType::Input, PinType::Input, PinType::Input, PinType::Output,
            PinType::Input, PinType::Floating, PinType::Floating, PinType::Floating,
            PinType::Floating, PinType::Floating, PinType::Floating, PinType::Floating,
            PinType::Floating, PinType::Floating, PinType::Input,
        ];
        assert(types@ == seq![PinType::Floating, PinType::Input, PinType::Floating, PinType::Input, PinType::Input, PinType::Input, PinType::Input, PinType::Input, PinType::Input, PinType::Input, PinType::Input, PinType::Output, PinType::Input, PinType::Floating, PinType::Floating, PinType::Floating, PinType::Floating, PinType::Floating, PinType::Floating, PinType::Floating, PinType::Floating, PinType::Floating, PinType::Input]);
        let c = Rom256B {
            pins: pins_from_types(&types),
            powered: false,
            data: zeroes(256),
            last_event: None,
        };
        c
    }
}

impl Rom256B {
    /// This chip as a member of the chip set.
    pub fn into_chip(self) -> (r: ChipSet)
        ensures
            r == ChipSet::Rom256B(self),
    {
        ChipSet::Rom256B(self)
    }
}

impl From<Rom256B> for ChipSet {
    fn from(value: Rom256B) -> (r: ChipSet) {
        ChipSet::Rom256B(value)
    }
}

impl vstd::std_specs::convert::FromSpecImpl<Rom256B> for ChipSet {
    open spec fn obeys_from_spec() -> bool {
        true
    }

    open spec fn from_spec(v: Rom256B) -> ChipSet {
        ChipSet::Rom256B(v)
    }
}

/// Address pins of the Rom8KB, lowest bit first.
pub open spec fn rom8kb_address() -> Seq<usize> {
    seq![4usize, 5, 6, 7, 8, 9, 10, 11, 12, 14, 15, 16, 17]
}

/// Data pins of the Rom8KB, lowest bit first.
pub open spec fn rom8kb_data() -> Seq<usize> {
    seq![18usize, 19, 20, 21, 22, 23, 24, 25]
}

pub open spec fn rom8kb_layout() -> MemoryLayout {
    MemoryLayout { vcc: 26, gnd: 13, cs: 1, we: None, oe: 3 }
}

/// A 8 KiB ROM, programmed when built.
pub struct Rom8KB {
    pins: Vec<Pin>,
    powered: bool,
    data: Vec<u8>,
    last_event: Option<MemoryEvent>,
}

impl Rom8KB {
    /// Chip select, active low.
    pub const CS: PinId = 1;
    /// Output enable, active low.
    pub const OE: PinId = 3;
    pub const A0: PinId = 4;
    pub const A1: PinId = 5;
    pub const A2: PinId = 6;
    pub const A3: PinId = 7;
    pub const A4: PinId = 8;
    pub const A5: PinId = 9;
    pub const A6: PinId = 10;
    pub const A7: PinId = 11;
    pub const A8: PinId = 12;
    pub const A9: PinId = 14;
    pub const A10: PinId = 15;
    pub const A11: PinId = 16;
    pub const A12: PinId = 17;
    pub const IO0: PinId = 18;
    pub const IO1: PinId = 19;
    pub const IO2: PinId = 20;
    pub const IO3: PinId = 21;
    pub const IO4: PinId = 22;
    pub const IO5: PinId = 23;
    pub const IO6: PinId = 24;
    pub const IO7: PinId = 25;
    pub const VCC: PinId = 26;
    pub const GND: PinId = 13;

    /// The pins, indexed by pin number.
    pub closed spec fn pins_view(&self) -> Seq<Pin> {
        self.pins@
    }

    /// The pins of a freshly built chip: each pin's direction, all at `Undefined`.
    pub open spec fn initial_pins() -> Seq<Pin> {
        fresh_pins(seq![PinType::Floating, PinType::Input, PinType::Floating, PinType::Input, PinType::Input, PinType::Input, PinType::Input, PinType::Input, PinType::Input, PinType::Input, PinType::Input, PinType::Input, PinType::Input, PinType::Output, PinType::Input, PinType::Input, PinType::Input, PinType::Input, PinType::Floating, PinType::Floating, PinType::Floating, PinType::Floating, PinType::Floating, PinType::Floating, PinType::Floating, PinType::Floating, PinType::Input])
    }

    pub closed spec fn is_powered(&self) -> bool {
        self.powered
    }

    pub closed spec fn memory(&self) -> Seq<u8> {
        self.data@
    }

    pub closed spec fn last_event(&self) -> Option<MemoryEvent> {
        self.last_event
    }

    /// `other` differs from `self` at most in pin levels.
    pub open spec fn same_but_levels(&self, other: &Self) -> bool {
        pin_types(self.pins_view()) == pin_types(other.pins_view())
            && self.is_powered() == other.is_powered()
            && self.memory() == other.memory()
            && self.last_event() == other.last_event()
    }

    pub fn get_pin(&self, pin: PinId) -> (r: Option<Pin>)
        ensures
            r == pin_lookup(self.pins_view(), pin),
    {
        get_pin_in(&self.pins, pin)
    }

    /// Sets the level of pin `pin`, leaving its direction.
    pub fn set_pin_state(&mut self, pin: PinId, state: State)
        requires
            has_pin(old(self).pins_view(), pin as int),
        ensures
            final(self).pins_view() == set_state_at(old(self).pins_view(), pin as int, state),
            old(self).same_but_levels(&*final(self)),
            final(self).is_powered() == old(self).is_powered(),
            final(self).memory() == old(self).memory(),
            final(self).last_event() == old(self).last_event(),
    {
        set_state_in(&mut self.pins, pin, state);
        assert(pin_types(self.pins@) =~= pin_types(old(self).pins@));
    }

    /// The largest pin number plus one.
    pub fn pin_count(&self) -> (r: usize)
        ensures
            r == self.pins_view().len(),
    {
        self.pins.len()
    }

    /// Every pin with its number, by increasing number.
    pub fn list_pins(&self) -> (r: Vec<(PinId, Pin)>)
        requires
            self.wf(),
        ensures
            r@.len() + 1 == self.pins_view().len(),
            forall|i: int|
                0 <= i < r@.len() ==> #[trigger] r@[i] == (
                (i + 1) as usize,
                self.pins_view()[i + 1],
            ),
    {
        list_pins_in(&self.pins)
    }

    /// The stored bytes.
    pub fn bytes(&self) -> (r: &[u8])
        ensures
            r@ == self.memory(),
    {
        self.data.as_slice()
    }

    /// The access made during the last tick, if any.
    pub fn event(&self) -> (r: Option<MemoryEvent>)
        ensures
            r == self.last_event(),
    {
        self.last_event
    }

    /// The ROM holding `data`, cut or padded with zeroes to its capacity.
    pub fn set_data(self, data: &[u8]) -> (r: Self)
        requires
            self.wf(),
        ensures
            r.wf(),
            r.memory() == fitted(data@, 8192),
            r.pins_view() == self.pins_view(),
            r.is_powered() == self.is_powered(),
            r.last_event() == self.last_event(),
    {
        let mut r = self;
        r.data = fit(data, 8192);
        r
    }
}

impl ChipRunner for Rom8KB {
    open spec fn wf(&self) -> bool {
        self.pins_view().len() == 27 && self.memory().len() == 8192
    }

    open spec fn runs_to(&self, tick_ns: u64, next: &Self) -> bool {
        memory_step(
            self.pins_view(),
            self.memory(),
            self.is_powered(),
            next.pins_view(),
            next.memory(),
            next.is_powered(),
            next.last_event(),
            rom8kb_layout(),
            rom8kb_address(),
            rom8kb_data(),
        ) && next.memory() == self.memory()
    }

    fn run(&mut self, tick_ns: u64) {
        let lay = MemoryLayout { vcc: 26, gnd: 13, cs: 1, we: None, oe: 3 };
        let addr: [usize; 13] = [4, 5, 6, 7, 8, 9, 10, 11, 12, 14, 15, 16, 17];
        let io: [usize; 8] = [18, 19, 20, 21, 22, 23, 24, 25];
        proof {
            lemma2_to64();
            assert(addr@ == rom8kb_address());
            assert(io@ == rom8kb_data());
            assert(valid_ids(self.pins@, addr@));
            assert(valid_ids(self.pins@, io@));
        }
        memory_tick(
            &mut self.pins,
            &mut self.data,
            &mut self.powered,
            &mut self.last_event,
            &lay,
            &addr,
            &io,
        );
    }
}

impl ChipBuilder<Rom8KB> for Rom8KB {
    fn build() -> (r: Rom8KB)
        ensures
            r.pins_view() == Self::initial_pins(),
            r.is_powered() == false,
            r.memory() == zero_bytes(8192),
            r.last_event() == None::<MemoryEvent>,
    {
        let types: [PinType; 27] = [
            PinType::Floating, PinType::Input, PinType::Floating, PinType::Input,
            PinType::Input, PinType::Input, PinType::Input, PinType::Input,
            PinType::Input, PinType::Input, PinType::Input, PinType::Input,
            PinType::Input, PinType::Output, PinType::Input, PinType::Input,
            PinType::Input, PinType::Input, PinType::Floating, PinType::Floating,
            PinType::Floating, PinType::Floating, PinType::Floating, PinType::Floating,
            PinType::Floating, PinType::Floating, PinType::Input,
        ];
        assert(types@ == seq![PinType::Floating, PinType::Input, PinType::Floating, PinType::Input, PinType::Input, PinType::Input, PinType::Input, PinType::Input, PinType::Input, PinType::Input, PinType::Input, PinType::Input, PinType::Input, PinType::Output, PinType::Input, PinType::Input, PinType::Input, PinType::Input, PinType::Floating, PinType::Floating, PinType::Floating, PinType::Floating, PinType::Floating, PinType::Floating, PinType::Floating, PinType::Floating, PinType::Input]);
        let c = Rom8KB {
            pins: pins_from_types(&types),
            powered: false,
            data: zeroes(8192),
            last_event: None,
        };
        c
    }
}

impl Rom8KB {
    /// This chip as a member of the chip set.
    pub fn into_chip(self) -> (r: ChipSet)
        ensures
            r == ChipSet::Rom8KB(self),
    {
        ChipSet::Rom8KB(self)
    }
}

impl From<Rom8KB> for ChipSet {
    fn from(value: Rom8KB) -> (r: ChipSet) {
        ChipSet::Rom8KB(value)
    }
}

impl vstd::std_specs::convert::FromSpecImpl<Rom8KB> for ChipSet {
    open spec fn obeys_from_spec() -> bool {
        true
    }

    open spec fn from_spec(v: Rom8KB) -> ChipSet {
        ChipSet::Rom8KB(v)
    }
}

proof fn lemma_ground_off_bus(pins: Seq<Pin>, gnd: int, ids: Seq<usize>)
    requires
        0 <= gnd < pins.len(),
        forall|k: int| 0 <= k < ids.len() ==> ids[k] != gnd && ids[k] < pins.len(),
    ensures
        pins_at(set_state_at(pins, gnd, State::Low), ids) == pins_at(pins, ids),
{
    let q = set_state_at(pins, gnd, State::Low);
    assert forall|k: int| 0 <= k < ids.len() implies pins_at(q, ids)[k] == pins_at(pins, ids)[k] by {
        assert(q[ids[k] as int] == pins[ids[k] as int]);
    }
    assert(pins_at(q, ids) =~= pins_at(pins, ids));
}

/// Writing a byte with CS and WE low, then reading the same address with CS and OE low and
/// WE high, drives that byte back onto the data pins.
pub proof fn lemma_memory_write_then_read(
    first: Seq<Pin>,
    second: Seq<Pin>,
    data: Seq<u8>,
    lay: MemoryLayout,
    addr: Seq<usize>,
    io: Seq<usize>,
)
    requires
        layout_ok(first, data, lay, addr, io),
        second.len() == first.len(),
        lay.we is Some,
        first[lay.cs as int].state == State::Low,
        first[lay.we->Some_0 as int].state == State::Low,
        second[lay.cs as int].state == State::Low,
        second[lay.we->Some_0 as int].state != State::Low,
        second[lay.oe as int].state == State::Low,
        address_of(second, addr) == address_of(first, addr),
    ensures
        ({
            let d1 = memory_access(first, data, lay, addr, io).1;
            let q2 = memory_access(second, d1, lay, addr, io).0;
            address_of(q2, io) == address_of(first, io)
        }),
{
    lemma2_to64();
    lemma_bits_value_bound(logic_bits(pins_at(first, addr), LOGIC_THRESHOLD_MV));
    lemma_bits_value_bound(logic_bits(pins_at(first, io), LOGIC_THRESHOLD_MV));
    let a = address_of(first, addr);
    let b = address_of(first, io);
    let d1 = memory_access(first, data, lay, addr, io).1;
    assert(d1 == data.update(a as int, b as u8));
    let t = set_types_at(second, io, PinType::Output);
    assert(valid_ids(t, io));
    lemma_read_written(t, io, d1[a as int] as nat, LOGIC_THRESHOLD_MV);
}

/// A RAM that is powered and stays powered, written at an address on one tick and read at the
/// same address on the next, puts the written byte back on its data pins. Between the ticks
/// only pin levels change (as the board does when it settles).
pub proof fn lemma_ram256b_write_then_read(
    r0: Ram256B,
    dt0: u64,
    r1: Ram256B,
    r1b: Ram256B,
    dt1: u64,
    r2: Ram256B,
)
    requires
        r0.wf(),
        r0.is_powered(),
        high_at(r0.pins_view(), Ram256B::VCC as int, POWER_THRESHOLD_MV),
        r0.pins_view()[Ram256B::CS as int].state == State::Low,
        r0.pins_view()[Ram256B::WE as int].state == State::Low,
        r0.runs_to(dt0, &r1),
        r1.same_but_levels(&r1b),
        r1b.wf(),
        high_at(r1b.pins_view(), Ram256B::VCC as int, POWER_THRESHOLD_MV),
        r1b.pins_view()[Ram256B::CS as int].state == State::Low,
        r1b.pins_view()[Ram256B::WE as int].state != State::Low,
        r1b.pins_view()[Ram256B::OE as int].state == State::Low,
        address_of(r1b.pins_view(), ram256b_address()) == address_of(
            r0.pins_view(),
            ram256b_address(),
        ),
        r1b.runs_to(dt1, &r2),
    ensures
        address_of(r2.pins_view(), ram256b_data()) == address_of(r0.pins_view(), ram256b_data()),
        forall|k: int|
            0 <= k < 8 ==> (#[trigger] r2.pins_view()[ram256b_data()[k] as int]).pin_type
                is Output,
{
    lemma2_to64();
    let lay = ram256b_layout();
    let addr = ram256b_address();
    let io = ram256b_data();
    let q0 = set_state_at(r0.pins_view(), 11, State::Low);
    let q1 = set_state_at(r1b.pins_view(), 11, State::Low);
    lemma_ground_off_bus(r0.pins_view(), 11, addr);
    lemma_ground_off_bus(r0.pins_view(), 11, io);
    lemma_ground_off_bus(r1b.pins_view(), 11, addr);
    assert(valid_ids(q0, addr));
    assert(valid_ids(q0, io));
    assert(layout_ok(q0, r0.memory(), lay, addr, io));
    assert(r1b.memory() == memory_access(q0, r0.memory(), lay, addr, io).1);
    lemma_memory_write_then_read(q0, q1, r0.memory(), lay, addr, io);
    let typed = set_types_at(q1, io, PinType::Output);
    let d1 = r1b.memory();
    let a = address_of(q1, addr);
    assert(r1b.is_powered());
    assert(r2.pins_view() == memory_access(q1, d1, lay, addr, io).0);
    assert(r2.pins_view() == written(typed, io, d1[a as int] as nat));
    lemma_written_types(typed, io, d1[a as int] as nat);
    assert forall|k: int| 0 <= k < 8 implies (#[trigger] r2.pins_view()[io[k] as int]).pin_type
        is Output by {
        assert(io[k] as int == io[k] as int);
        assert(listed(io, io.len() as int, io[k] as int));
        let j = io[k] as int;
        assert(0 <= j < typed.len());
        assert(typed[j].pin_type is Output);
        assert(pin_types(r2.pins_view()).len() == typed.len());
        assert(pin_types(typed)[j] == typed[j].pin_type);
        assert(pin_types(r2.pins_view())[j] == r2.pins_view()[j].pin_type);
    }
}

/// A RAM that is powered and stays powered, written at an address on one tick and read at the
/// same address on the next, puts the written byte back on its data pins. Between the ticks
/// only pin levels change (as the board does when it settles).
pub proof fn lemma_ram8kb_write_then_read(
    r0: Ram8KB,
    dt0: u64,
    r1: Ram8KB,
    r1b: Ram8KB,
    dt1: u64,
    r2: Ram8KB,
)
    requires
        r0.wf(),
        r0.is_powered(),
        high_at(r0.pins_view(), Ram8KB::VCC as int, POWER_THRESHOLD_MV),
        r0.pins_view()[Ram8KB::CS as int].state == State::Low,
        r0.pins_view()[Ram8KB::WE as int].state == State::Low,
        r0.runs_to(dt0, &r1),
        r1.same_but_levels(&r1b),
        r1b.wf(),
        high_at(r1b.pins_view(), Ram8KB::VCC as int, POWER_THRESHOLD_MV),
        r1b.pins_view()[Ram8KB::CS as int].state == State::Low,
        r1b.pins_view()[Ram8KB::WE as int].state != State::Low,
        r1b.pins_view()[Ram8KB::OE as int].state == State::Low,
        address_of(r1b.pins_view(), ram8kb_address()) == address_of(
            r0.pins_view(),
            ram8kb_address(),
        ),
        r1b.runs_to(dt1, &r2),
    ensures
        address_of(r2.pins_view(), ram8kb_data()) == address_of(r0.pins_view(), ram8kb_data()),
        forall|k: int|
            0 <= k < 8 ==> (#[trigger] r2.pins_view()[ram8kb_data()[k] as int]).pin_type
                is Output,
{
    lemma2_to64();
    let lay = ram8kb_layout();
    let addr = ram8kb_address();
    let io = ram8kb_data();
    let q0 = set_state_at(r0.pins_view(), 13, State::Low);
    let q1 = set_state_at(r1b.pins_view(), 13, State::Low);
    lemma_ground_off_bus(r0.pins_view(), 13, addr);
    lemma_ground_off_bus(r0.pins_view(), 13, io);
    lemma_ground_off_bus(r1b.pins_view(), 13, addr);
    assert(valid_ids(q0, addr));
    assert(valid_ids(q0, io));
    assert(layout_ok(q0, r0.memory(), lay, addr, io));
    assert(r1b.memory() == memory_access(q0, r0.memory(), lay, addr, io).1);
    lemma_memory_write_then_read(q0, q1, r0.memory(), lay, addr, io);
    let typed = set_types_at(q1, io, PinType::Output);
    let d1 = r1b.memory();
    let a = address_of(q1, addr);
    assert(r1b.is_powered());
    assert(r2.pins_view() == memory_access(q1, d1, lay, addr, io).0);
    assert(r2.pins_view() == written(typed, io, d1[a as int] as nat));
    lemma_written_types(typed, io, d1[a as int] as nat);
    assert forall|k: int| 0 <= k < 8 implies (#[trigger] r2.pins_view()[io[k] as int]).pin_type
        is Output by {
        assert(io[k] as int == io[k] as int);
        assert(listed(io, io.len() as int, io[k] as int));
        let j = io[k] as int;
        assert(0 <= j < typed.len());
        assert(typed[j].pin_type is Output);
        assert(pin_types(r2.pins_view()).len() == typed.len());
        assert(pin_types(typed)[j] == typed[j].pin_type);
        assert(pin_types(r2.pins_view())[j] == r2.pins_view()[j].pin_type);
    }
}

/// However often a ROM is ticked, its contents stay as they were.
pub proof fn lemma_rom_contents_fixed(roms: Seq<Rom256B>, ticks: Seq<u64>)
    requires
        roms.len() == ticks.len() + 1,
        forall|i: int| 0 <= i < ticks.len() ==> #[trigger] roms[i].runs_to(ticks[i], &roms[i + 1]),
    ensures
        forall|i: int| 0 <= i < roms.len() ==> #[trigger] roms[i].memory() == roms[0].memory(),
    decreases ticks.len(),
{
    if ticks.len() > 0 {
        let n = ticks.len() as int;
        lemma_rom_contents_fixed(roms.drop_last(), ticks.drop_last());
        assert forall|i: int| 0 <= i < roms.len() implies #[trigger] roms[i].memory()
            == roms[0].memory() by {
            if i < n {
                assert(roms.drop_last()[i] == roms[i]);
                assert(roms.drop_last()[0] == roms[0]);
            } else {
                assert(roms[n - 1].runs_to(ticks[n - 1], &roms[n]));
                assert(roms.drop_last()[n - 1] == roms[n - 1]);
                assert(roms.drop_last()[0] == roms[0]);
            }
        }
    }
}

} // verus!
