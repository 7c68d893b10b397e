//! Logic gate packages: four 2-input gates, three 3-input gates, or six inverters, each in a
//! 14-pin package powered through VCC (pin 14) and GND (pin 7).
use vstd::prelude::*;

use super::{
    fresh_pins, get_pin_in, has_pin, high_at, is_high_in, list_pins_in, pin_lookup, pin_types,
    pins_from_types, set_state_at, set_state_in, ChipBuilder, ChipRunner, ChipSet, Pin, PinId,
    PinType,
};
use crate::{level_of, State, LOGIC_THRESHOLD_MV};

verus! {

/// The logic function of a gate.
#[derive(Debug, Clone, Copy, PartialEq, Eq, Structural)]
pub enum GateKind {
    And,
    Nand,
    Or,
    Nor,
}

/// Output of a gate of kind `k` on the given inputs.
pub open spec fn gate_output(k: GateKind, inputs: Seq<bool>) -> bool {
    let all = forall|i: int| 0 <= i < inputs.len() ==> #[trigger] inputs[i];
    let any = exists|i: int| 0 <= i < inputs.len() && #[trigger] inputs[i];
    match k {
        GateKind::And => all,
        GateKind::Nand => !all,
        GateKind::Or => any,
        GateKind::Nor => !any,
    }
}

fn gate2(k: GateKind, a: bool, b: bool) -> (r: bool)
    ensures
        r == gate_output(k, seq![a, b]),
{
    let r = match k {
        GateKind::And => a && b,
        GateKind::Nand => !(a && b),
        GateKind::Or => a || b,
        GateKind::Nor => !(a || b),
    };
    proof {
        let s = seq![a, b];
        assert(s[0] == a && s[1] == b);
    }
    r
}

fn gate3(k: GateKind, a: bool, b: bool, c: bool) -> (r: bool)
    ensures
        r == gate_output(k, seq![a, b, c]),
{
    let r = match k {
        GateKind::And => a && b && c,
        GateKind::Nand => !(a && b && c),
        GateKind::Or => a || b || c,
        GateKind::Nor => !(a || b || c),
    };
    proof {
        let s = seq![a, b, c];
        assert(s[0] == a && s[1] == b && s[2] == c);
    }
    r
}

/// Pin `i` reads `High` as a gate input.
pub open spec fn gate_high(pins: Seq<Pin>, i: int) -> bool {
    high_at(pins, i, LOGIC_THRESHOLD_MV)
}

/// One tick of a package of four 2-input gates: when VCC is high, GND is driven low and each
/// output gets its gate's function of the two inputs.
pub open spec fn quad_gate_step(pins: Seq<Pin>, k: GateKind) -> Seq<Pin> {
    if gate_high(pins, 14) {
        let h = |i: int| gate_high(pins, i);
        let p = set_state_at(pins, 7, State::Low);
        let p = set_state_at(p, 3, level_of(gate_output(k, seq![h(1), h(2)])));
        let p = set_state_at(p, 6, level_of(gate_output(k, seq![h(4), h(5)])));
        let p = set_state_at(p, 11, level_of(gate_output(k, seq![h(13), h(12)])));
        set_state_at(p, 8, level_of(gate_output(k, seq![h(10), h(9)])))
    } else {
        pins
    }
}

/// One tick of a package of three 3-input gates.
pub open spec fn triple_gate_step(pins: Seq<Pin>, k: GateKind) -> Seq<Pin> {
    if gate_high(pins, 14) {
        let h = |i: int| gate_high(pins, i);
        let p = set_state_at(pins, 7, State::Low);
        let p = set_state_at(p, 12, level_of(gate_output(k, seq![h(1), h(2), h(13)])));
        let p = set_state_at(p, 6, level_of(gate_output(k, seq![h(3), h(4), h(5)])));
        set_state_at(p, 8, level_of(gate_output(k, seq![h(11), h(10), h(9)])))
    } else {
        pins
    }
}

/// One tick of a package of six inverters.
pub open spec fn hex_inverter_step(pins: Seq<Pin>) -> Seq<Pin> {
    if gate_high(pins, 14) {
        let h = |i: int| gate_high(pins, i);
        let p = set_state_at(pins, 7, State::Low);
        let p = set_state_at(p, 2, level_of(!h(1)));
        let p = set_state_at(p, 4, level_of(!h(3)));
        let p = set_state_at(p, 6, level_of(!h(5)));
        let p = set_state_at(p, 12, level_of(!h(13)));
        let p = set_state_at(p, 10, level_of(!h(11)));
        set_state_at(p, 8, level_of(!h(9)))
    } else {
        pins
    }
}

fn run_quad_gate(pins: &mut Vec<Pin>, k: GateKind)
    requires
        old(pins)@.len() == 15,
    ensures
        final(pins)@ == quad_gate_step(old(pins)@, k),
{
    if is_high_in(pins, 14, LOGIC_THRESHOLD_MV) {
        let a = is_high_in(pins, 1, LOGIC_THRESHOLD_MV);
        let b = is_high_in(pins, 2, LOGIC_THRESHOLD_MV);
        let c = is_high_in(pins, 4, LOGIC_THRESHOLD_MV);
        let d = is_high_in(pins, 5, LOGIC_THRESHOLD_MV);
        let e = is_high_in(pins, 13, LOGIC_THRESHOLD_MV);
        let f = is_high_in(pins, 12, LOGIC_THRESHOLD_MV);
        let g = is_high_in(pins, 10, LOGIC_THRESHOLD_MV);
        let h = is_high_in(pins, 9, LOGIC_THRESHOLD_MV);
        set_state_in(pins, 7, State::Low);
        set_state_in(pins, 3, State::from_bool(gate2(k, a, b)));
        set_state_in(pins, 6, State::from_bool(gate2(k, c, d)));
        set_state_in(pins, 11, State::from_bool(gate2(k, e, f)));
        set_state_in(pins, 8, State::from_bool(gate2(k, g, h)));
    }
}

fn run_triple_gate(pins: &mut Vec<Pin>, k: GateKind)
    requires
        old(pins)@.len() == 15,
    ensures
        final(pins)@ == triple_gate_step(old(pins)@, k),
{
    if is_high_in(pins, 14, LOGIC_THRESHOLD_MV) {
        let a = is_high_in(pins, 1, LOGIC_THRESHOLD_MV);
        let b = is_high_in(pins, 2, LOGIC_THRESHOLD_MV);
        let c = is_high_in(pins, 13, LOGIC_THRESHOLD_MV);
        let d = is_high_in(pins, 3, LOGIC_THRESHOLD_MV);
        let e = is_high_in(pins, 4, LOGIC_THRESHOLD_MV);
        let f = is_high_in(pins, 5, LOGIC_THRESHOLD_MV);
        let g = is_high_in(pins, 11, LOGIC_THRESHOLD_MV);
        let h = is_high_in(pins, 10, LOGIC_THRESHOLD_MV);
        let i = is_high_in(pins, 9, LOGIC_THRESHOLD_MV);
        set_state_in(pins, 7, State::Low);
        set_state_in(pins, 12, State::from_bool(gate3(k, a, b, c)));
        set_state_in(pins, 6, State::from_bool(gate3(k, d, e, f)));
        set_state_in(pins, 8, State::from_bool(gate3(k, g, h, i)));
    }
}

fn run_hex_inverter(pins: &mut Vec<Pin>)
    requires
        old(pins)@.len() == 15,
    ensures
        final(pins)@ == hex_inverter_step(old(pins)@),
{
    if is_high_in(pins, 14, LOGIC_THRESHOLD_MV) {
        let a = is_high_in(pins, 1, LOGIC_THRESHOLD_MV);
        let b = is_high_in(pins, 3, LOGIC_THRESHOLD_MV);
        let c = is_high_in(pins, 5, LOGIC_THRESHOLD_MV);
        let d = is_high_in(pins, 13, LOGIC_THRESHOLD_MV);
        let e = is_high_in(pins, 11, LOGIC_THRESHOLD_MV);
        let f = is_high_in(pins, 9, LOGIC_THRESHOLD_MV);
        set_state_in(pins, 7, State::Low);
        set_state_in(pins, 2, State::from_bool(!a));
        set_state_in(pins, 4, State::from_bool(!b));
        set_state_in(pins, 6, State::from_bool(!c));
        set_state_in(pins, 12, State::from_bool(!d));
        set_state_in(pins, 10, State::from_bool(!e));
        set_state_in(pins, 8, State::from_bool(!f));
    }
}

/// Four 2-input AND gates: AB = A and B, CD, EF and GH likewise.
pub struct AndGate {
    pins: Vec<Pin>,
}

impl AndGate {
    pub const VCC: PinId = 14;
    pub const GND: PinId = 7;
    pub const A: PinId = 1;
    pub const B: PinId = 2;
    pub const AB: PinId = 3;
    pub const C: PinId = 4;
    pub const D: PinId = 5;
    pub const CD: PinId = 6;
    pub const E: PinId = 13;
    pub const F: PinId = 12;
    pub const EF: PinId = 11;
    pub const G: PinId = 10;
    pub const H: PinId = 9;
    pub const GH: PinId = 8;

    /// The pins, indexed by pin number.
    pub closed spec fn pins_view(&self) -> Seq<Pin> {
        self.pins@
    }

    /// The pins of a freshly built chip: each pin's direction, all at `Undefined`.
    pub open spec fn initial_pins() -> Seq<Pin> {
        fresh_pins(seq![PinType::Floating, PinType::Input, PinType::Input, PinType::Output, PinType::Input, PinType::Input, PinType::Output, PinType::Output, PinType::Output, PinType::Input, PinType::Input, PinType::Output, PinType::Input, PinType::Input, PinType::Input])
    }

    /// `other` differs from `self` at most in pin levels.
    pub open spec fn same_but_levels(&self, other: &Self) -> bool {
        pin_types(self.pins_view()) == pin_types(other.pins_view())
    }

    pub fn get_pin(&self, pin: PinId) -> (r: Option<Pin>)
        ensures
            r == pin_lookup(self.pins_view(), pin),
    {
        get_pin_in(&self.pins, pin)
    }

    /// Sets the level of pin `pin`, leaving its direction.
    pub fn set_pin_state(&mut self, pin: PinId, state: State)
        requires
            has_pin(old(self).pins_view(), pin as int),
        ensures
            final(self).pins_view() == set_state_at(old(self).pins_view(), pin as int, state),
            old(self).same_but_levels(&*final(self)),
    {
        set_state_in(&mut self.pins, pin, state);
        assert(pin_types(self.pins@) =~= pin_types(old(self).pins@));
    }

    /// The largest pin number plus one.
    pub fn pin_count(&self) -> (r: usize)
        ensures
            r == self.pins_view().len(),
    {
        self.pins.len()
    }

    /// Every pin with its number, by increasing number.
    pub fn list_pins(&self) -> (r: Vec<(PinId, Pin)>)
        requires
            self.wf(),
        ensures
            r@.len() + 1 == self.pins_view().len(),
            forall|i: int|
                0 <= i < r@.len() ==> #[trigger] r@[i] == (
                (i + 1) as usize,
                self.pins_view()[i + 1],
            ),
    {
        list_pins_in(&self.pins)
    }

}

impl ChipRunner for AndGate {
    open spec fn wf(&self) -> bool {
        self.pins_view().len() == 15
    }

    open spec fn runs_to(&self, tick_ns: u64, next: &Self) -> bool {
        next.pins_view() == quad_gate_step(self.pins_view(), GateKind::And)
    }

    fn run(&mut self, tick_ns: u64) {
        run_quad_gate(&mut self.pins, GateKind::And);
    }
}

impl ChipBuilder<ChipSet> for AndGate {
    fn build() -> (r: ChipSet)
        ensures
            r matches ChipSet::AndGate(c) && c.pins_view() == AndGate::initial_pins(),
    {
        let types: [PinType; 15] = [
            PinType::Floating, PinType::Input, PinType::Input, PinType::Output,
            PinType::Input, PinType::Input, PinType::Output, PinType::Output,
            PinType::Output, PinType::Input, PinType::Input, PinType::Output,
            PinType::Input, PinType::Input, PinType::Input,
        ];
        assert(types@ == seq![PinType::Floating, PinType::Input, PinType::Input, PinType::Output, PinType::Input, PinType::Input, PinType::Output, PinType::Output, PinType::Output, PinType::Input, PinType::Input, PinType::Output, PinType::Input, PinType::Input, PinType::Input]);
        let c = AndGate {
            pins: pins_from_types(&types),
        };
        ChipSet::AndGate(c)
    }
}

/// Three 3-input AND gates: ABC, DEF and GHI.
pub struct ThreeInputAndGate {
    pins: Vec<Pin>,
}

impl ThreeInputAndGate {
    pub const VCC: PinId = 14;
    pub const GND: PinId = 7;
    pub const A: PinId = 1;
    pub const B: PinId = 2;
    pub const C: PinId = 13;
    pub const ABC: PinId = 12;
    pub const D: PinId = 3;
    pub const E: PinId = 4;
    pub const F: PinId = 5;
    pub const DEF: PinId = 6;
    pub const G: PinId = 11;
    pub const H: PinId = 10;
    pub const I: PinId = 9;
    pub const GHI: PinId = 8;

    /// The pins, indexed by pin number.
    pub closed spec fn pins_view(&self) -> Seq<Pin> {
        self.pins@
    }

    /// The pins of a freshly built chip: each pin's direction, all at `Undefined`.
    pub open spec fn initial_pins() -> Seq<Pin> {
        fresh_pins(seq![PinType::Floating, PinType::Input, PinType::Input, PinType::Input, PinType::Input, PinType::Input, PinType::Output, PinType::Output, PinType::Output, PinType::Input, PinType::Input, PinType::Input, PinType::Output, PinType::Input, PinType::Input])
    }

    /// `other` differs from `self` at most in pin levels.
    pub open spec fn same_but_levels(&self, other: &Self) -> bool {
        pin_types(self.pins_view()) == pin_types(other.pins_view())
    }

    pub fn get_pin(&self, pin: PinId) -> (r: Option<Pin>)
        ensures
            r == pin_lookup(self.pins_view(), pin),
    {
        get_pin_in(&self.pins, pin)
    }

    /// Sets the level of pin `pin`, leaving its direction.
    pub fn set_pin_state(&mut self, pin: PinId, state: State)
        requires
            has_pin(old(self).pins_view(), pin as int),
        ensures
            final(self).pins_view() == set_state_at(old(self).pins_view(), pin as int, state),
            old(self).same_but_levels(&*final(self)),
    {
        set_state_in(&mut self.pins, pin, state);
        assert(pin_types(self.pins@) =~= pin_types(old(self).pins@));
    }

    /// The largest pin number plus one.
    pub fn pin_count(&self) -> (r: usize)
        ensures
            r == self.pins_view().len(),
    {
        self.pins.len()
    }

    /// Every pin with its number, by increasing number.
    pub fn list_pins(&self) -> (r: Vec<(PinId, Pin)>)
        requires
            self.wf(),
        ensures
            r@.len() + 1 == self.pins_view().len(),
            forall|i: int|
                0 <= i < r@.len() ==> #[trigger] r@[i] == (
                (i + 1) as usize,
                self.pins_view()[i + 1],
            ),
    {
        list_pins_in(&self.pins)
    }

}

impl ChipRunner for ThreeInputAndGate {
    open spec fn wf(&self) -> bool {
        self.pins_view().len() == 15
    }

    open spec fn runs_to(&self, tick_ns: u64, next: &Self) -> bool {
        next.pins_view() == triple_gate_step(self.pins_view(), GateKind::And)
    }

    fn run(&mut self, tick_ns: u64) {
        run_triple_gate(&mut self.pins, GateKind::And);
    }
}

impl ChipBuilder<ChipSet> for ThreeInputAndGate {
    fn build() -> (r: ChipSet)
        ensures
            r matches ChipSet::ThreeInputAndGate(c) && c.pins_view() == ThreeInputAndGate::initial_pins(),
    {
        let types: [PinType; 15] = [
            PinType::Floating, PinType::Input, PinType::Input, PinType::Input,
            PinType::Input, PinType::Input, PinType::Output, PinType::Output,
            PinType::Output, PinType::Input, PinType::Input, PinType::Input,
            PinType::Output, PinType::Input, PinType::Input,
        ];
        assert(types@ == seq![PinType::Floating, PinType::Input, PinType::Input, PinType::Input, PinType::Input, PinType::Input, PinType::Output, PinType::Output, PinType::Output, PinType::Input, PinType::Input, PinType::Input, PinType::Output, PinType::Input, PinType::Input]);
        let c = ThreeInputAndGate {
            pins: pins_from_types(&types),
        };
        ChipSet::ThreeInputAndGate(c)
    }
}

/// Four 2-input NAND gates: AB = A nand B, CD, EF and GH likewise.
pub struct NandGate {
    pins: Vec<Pin>,
}

impl NandGate {
    pub const VCC: PinId = 14;
    pub const GND: PinId = 7;
    pub const A: PinId = 1;
    pub const B: PinId = 2;
    pub const AB: PinId = 3;
    pub const C: PinId = 4;
    pub const D: PinId = 5;
    pub const CD: PinId = 6;
    pub const E: PinId = 13;
    pub const F: PinId = 12;
    pub const EF: PinId = 11;
    pub const G: PinId = 10;
    pub const H: PinId = 9;
    pub const GH: PinId = 8;

    /// The pins, indexed by pin number.
    pub closed spec fn pins_view(&self) -> Seq<Pin> {
        self.pins@
    }

    /// The pins of a freshly built chip: each pin's direction, all at `Undefined`.
    pub open spec fn initial_pins() -> Seq<Pin> {
        fresh_pins(seq![PinType::Floating, PinType::Input, PinType::Input, PinType::Output, PinType::Input, PinType::Input, PinType::Output, PinType::Output, PinType::Output, PinType::Input, PinType::Input, PinType::Output, PinType::Input, PinType::Input, PinType::Input])
    }

    /// `other` differs from `self` at most in pin levels.
    pub open spec fn same_but_levels(&self, other: &Self) -> bool {
        pin_types(self.pins_view()) == pin_types(other.pins_view())
    }

    pub fn get_pin(&self, pin: PinId) -> (r: Option<Pin>)
        ensures
            r == pin_lookup(self.pins_view(), pin),
    {
        get_pin_in(&self.pins, pin)
    }

    /// Sets the level of pin `pin`, leaving its direction.
    pub fn set_pin_state(&mut self, pin: PinId, state: State)
        requires
            has_pin(old(self).pins_view(), pin as int),
        ensures
            final(self).pins_view() == set_state_at(old(self).pins_view(), pin as int, state),
            old(self).same_but_levels(&*final(self)),
    {
        set_state_in(&mut self.pins, pin, state);
        assert(pin_types(self.pins@) =~= pin_types(old(self).pins@));
    }

    /// The largest pin number plus one.
    pub fn pin_count(&self) -> (r: usize)
        ensures
            r == self.pins_view().len(),
    {
        self.pins.len()
    }

    /// Every pin with its number, by increasing number.
    pub fn list_pins(&self) -> (r: Vec<(PinId, Pin)>)
        requires
            self.wf(),
        ensures
            r@.len() + 1 == self.pins_view().len(),
            forall|i: int|
                0 <= i < r@.len() ==> #[trigger] r@[i] == (
                (i + 1) as usize,
                self.pins_view()[i + 1],
            ),
    {
        list_pins_in(&self.pins)
    }

}

impl ChipRunner for NandGate {
    open spec fn wf(&self) -> bool {
        self.pins_view().len() == 15
    }

    open spec fn runs_to(&self, tick_ns: u64, next: &Self) -> bool {
        next.pins_view() == quad_gate_step(self.pins_view(), GateKind::Nand)
    }

    fn run(&mut self, tick_ns: u64) {
        run_quad_gate(&mut self.pins, GateKind::Nand);
    }
}

impl ChipBuilder<ChipSet> for NandGate {
    fn build() -> (r: ChipSet)
        ensures
            r matches ChipSet::NandGate(c) && c.pins_view() == NandGate::initial_pins(),
    {
        let types: [PinType; 15] = [
            PinType::Floating, PinType::Input, PinType::Input, PinType::Output,
            PinType::Input, PinType::Input, PinType::Output, PinType::Output,
            PinType::Output, PinType::Input, PinType::Input, PinType::Output,
            PinType::Input, PinType::Input, PinType::Input,
        ];
        assert(types@ == seq![PinType::Floating, PinType::Input, PinType::Input, PinType::Output, PinType::Input, PinType::Input, PinType::Output, PinType::Output, PinType::Output, PinType::Input, PinType::Input, PinType::Output, PinType::Input, PinType::Input, PinType::Input]);
        let c = NandGate {
            pins: pins_from_types(&types),
        };
        ChipSet::NandGate(c)
    }
}

/// Three 3-input NAND gates: ABC, DEF and GHI.
pub struct ThreeInputNandGate {
    pins: Vec<Pin>,
}

impl ThreeInputNandGate {
    pub const VCC: PinId = 14;
    pub const GND: PinId = 7;
    pub const A: PinId = 1;
    pub const B: PinId = 2;
    pub const C: PinId = 13;
    pub const ABC: PinId = 12;
    pub const D: PinId = 3;
    pub const E: PinId = 4;
    pub const F: PinId = 5;
    pub const DEF: PinId = 6;
    pub const G: PinId = 11;
    pub const H: PinId = 10;
    pub const I: PinId = 9;
    pub const GHI: PinId = 8;

    /// The pins, indexed by pin number.
    pub closed spec fn pins_view(&self) -> Seq<Pin> {
        self.pins@
    }

    /// The pins of a freshly built chip: each pin's direction, all at `Undefined`.
    pub open spec fn initial_pins() -> Seq<Pin> {
        fresh_pins(seq![PinType::Floating, PinType::Input, PinType::Input, PinType::Input, PinType::Input, PinType::Input, PinType::Output, PinType::Output, PinType::Output, PinType::Input, PinType::Input, PinType::Input, PinType::Output, PinType::Input, PinType::Input])
    }

    /// `other` differs from `self` at most in pin levels.
    pub open spec fn same_but_levels(&self, other: &Self) -> bool {
        pin_types(self.pins_view()) == pin_types(other.pins_view())
    }

    pub fn get_pin(&self, pin: PinId) -> (r: Option<Pin>)
        ensures
            r == pin_lookup(self.pins_view(), pin),
    {
        get_pin_in(&self.pins, pin)
    }

    /// Sets the level of pin `pin`, leaving its direction.
    pub fn set_pin_state(&mut self, pin: PinId, state: State)
        requires
            has_pin(old(self).pins_view(), pin as int),
        ensures
            final(self).pins_view() == set_state_at(old(self).pins_view(), pin as int, state),
            old(self).same_but_levels(&*final(self)),
    {
        set_state_in(&mut self.pins, pin, state);
        assert(pin_types(self.pins@) =~= pin_types(old(self).pins@));
    }

    /// The largest pin number plus one.
    pub fn pin_count(&self) -> (r: usize)
        ensures
            r == self.pins_view().len(),
    {
        self.pins.len()
    }

    /// Every pin with its number, by increasing number.
    pub fn list_pins(&self) -> (r: Vec<(PinId, Pin)>)
        requires
            self.wf(),
        ensures
            r@.len() + 1 == self.pins_view().len(),
            forall|i: int|
                0 <= i < r@.len() ==> #[trigger] r@[i] == (
                (i + 1) as usize,
                self.pins_view()[i + 1],
            ),
    {
        list_pins_in(&self.pins)
    }

}

impl ChipRunner for ThreeInputNandGate {
    open spec fn wf(&self) -> bool {
        self.pins_view().len() == 15
    }

    open spec fn runs_to(&self, tick_ns: u64, next: &Self) -> bool {
        next.pins_view() == triple_gate_step(self.pins_view(), GateKind::Nand)
    }

    fn run(&mut self, tick_ns: u64) {
        run_triple_gate(&mut self.pins, GateKind::Nand);
    }
}

impl ChipBuilder<ChipSet> for ThreeInputNandGate {
    fn build() -> (r: ChipSet)
        ensures
            r matches ChipSet::ThreeInputNandGate(c) && c.pins_view() == ThreeInputNandGate::initial_pins(),
    {
        let types: [PinType; 15] = [
            PinType::Floating, PinType::Input, PinType::Input, PinType::Input,
            PinType::Input, PinType::Input, PinType::Output, PinType::Output,
            PinType::Output, PinType::Input, PinType::Input, PinType::Input,
            PinType::Output, PinType::Input, PinType::Input,
        ];
        assert(types@ == seq![PinType::Floating, PinType::Input, PinType::Input, PinType::Input, PinType::Input, PinType::Input, PinType::Output, PinType::Output, PinType::Output, PinType::Input, PinType::Input, PinType::Input, PinType::Output, PinType::Input, PinType::Input]);
        let c = ThreeInputNandGate {
            pins: pins_from_types(&types),
        };
        ChipSet::ThreeInputNandGate(c)
    }
}

/// Four 2-input OR gates: AB = A or B, CD, EF and GH likewise.
pub struct OrGate {
    pins: Vec<Pin>,
}

impl OrGate {
    pub const VCC: PinId = 14;
    pub const GND: PinId = 7;
    pub const A: PinId = 1;
    pub const B: PinId = 2;
    pub const AB: PinId = 3;
    pub const C: PinId = 4;
    pub const D: PinId = 5;
    pub const CD: PinId = 6;
    pub const E: PinId = 13;
    pub const F: PinId = 12;
    pub const EF: PinId = 11;
    pub const G: PinId = 10;
    pub const H: PinId = 9;
    pub const GH: PinId = 8;

    /// The pins, indexed by pin number.
    pub closed spec fn pins_view(&self) -> Seq<Pin> {
        self.pins@
    }

    /// The pins of a freshly built chip: each pin's direction, all at `Undefined`.
    pub open spec fn initial_pins() -> Seq<Pin> {
        fresh_pins(seq![PinType::Floating, PinType::Input, PinType::Input, PinType::Output, PinType::Input, PinType::Input, PinType::Output, PinType::Output, PinType::Output, PinType::Input, PinType::Input, PinType::Output, PinType::Input, PinType::Input, PinType::Input])
    }

    /// `other` differs from `self` at most in pin levels.
    pub open spec fn same_but_levels(&self, other: &Self) -> bool {
        pin_types(self.pins_view()) == pin_types(other.pins_view())
    }

    pub fn get_pin(&self, pin: PinId) -> (r: Option<Pin>)
        ensures
            r == pin_lookup(self.pins_view(), pin),
    {
        get_pin_in(&self.pins, pin)
    }

    /// Sets the level of pin `pin`, leaving its direction.
    pub fn set_pin_state(&mut self, pin: PinId, state: State)
        requires
            has_pin(old(self).pins_view(), pin as int),
        ensures
            final(self).pins_view() == set_state_at(old(self).pins_view(), pin as int, state),
            old(self).same_but_levels(&*final(self)),
    {
        set_state_in(&mut self.pins, pin, state);
        assert(pin_types(self.pins@) =~= pin_types(old(self).pins@));
    }

    /// The largest pin number plus one.
    pub fn pin_count(&self) -> (r: usize)
        ensures
            r == self.pins_view().len(),
    {
        self.pins.len()
    }

    /// Every pin with its number, by increasing number.
    pub fn list_pins(&self) -> (r: Vec<(PinId, Pin)>)
        requires
            self.wf(),
        ensures
            r@.len() + 1 == self.pins_view().len(),
            forall|i: int|
                0 <= i < r@.len() ==> #[trigger] r@[i] == (
                (i + 1) as usize,
                self.pins_view()[i + 1],
            ),
    {
        list_pins_in(&self.pins)
    }

}

impl ChipRunner for OrGate {
    open spec fn wf(&self) -> bool {
        self.pins_view().len() == 15
    }

    open spec fn runs_to(&self, tick_ns: u64, next: &Self) -> bool {
        next.pins_view() == quad_gate_step(self.pins_view(), GateKind::Or)
    }

    fn run(&mut self, tick_ns: u64) {
        run_quad_gate(&mut self.pins, GateKind::Or);
    }
}

impl ChipBuilder<ChipSet> for OrGate {
    fn build() -> (r: ChipSet)
        ensures
            r matches ChipSet::OrGate(c) && c.pins_view() == OrGate::initial_pins(),
    {
        let types: [PinType; 15] = [
            PinType::Floating, PinType::Input, PinType::Input, PinType::Output,
            PinType::Input, PinType::Input, PinType::Output, PinType::Output,
            PinType::Output, PinType::Input, PinType::Input, PinType::Output,
            PinType::Input, PinType::Input, PinType::Input,
        ];
        assert(types@ == seq![PinType::Floating, PinType::Input, PinType::Input, PinType::Output, PinType::Input, PinType::Input, PinType::Output, PinType::Output, PinType::Output, PinType::Input, PinType::Input, PinType::Output, PinType::Input, PinType::Input, PinType::Input]);
        let c = OrGate {
            pins: pins_from_types(&types),
        };
        ChipSet::OrGate(c)
    }
}

/// Three 3-input OR gates: ABC, DEF and GHI.
pub struct ThreeInputOrGate {
    pins: Vec<Pin>,
}

impl ThreeInputOrGate {
    pub const VCC: PinId = 14;
    pub const GND: PinId = 7;
    pub const A: PinId = 1;
    pub const B: PinId = 2;
    pub const C: PinId = 13;
    pub const ABC: PinId = 12;
    pub const D: PinId = 3;
    pub const E: PinId = 4;
    pub const F: PinId = 5;
    pub const DEF: PinId = 6;
    pub const G: PinId = 11;
    pub const H: PinId = 10;
    pub const I: PinId = 9;
    pub const GHI: PinId = 8;

    /// The pins, indexed by pin number.
    pub closed spec fn pins_view(&self) -> Seq<Pin> {
        self.pins@
    }

    /// The pins of a freshly built chip: each pin's direction, all at `Undefined`.
    pub open spec fn initial_pins() -> Seq<Pin> {
        fresh_pins(seq![PinType::Floating, PinType::Input, PinType::Input, PinType::Input, PinType::Input, PinType::Input, PinType::Output, PinType::Output, PinType::Output, PinType::Input, PinType::Input, PinType::Input, PinType::Output, PinType::Input, PinType::Input])
    }

    /// `other` differs from `self` at most in pin levels.
    pub open spec fn same_but_levels(&self, other: &Self) -> bool {
        pin_types(self.pins_view()) == pin_types(other.pins_view())
    }

    pub fn get_pin(&self, pin: PinId) -> (r: Option<Pin>)
        ensures
            r == pin_lookup(self.pins_view(), pin),
    {
        get_pin_in(&self.pins, pin)
    }

    /// Sets the level of pin `pin`, leaving its direction.
    pub fn set_pin_state(&mut self, pin: PinId, state: State)
        requires
            has_pin(old(self).pins_view(), pin as int),
        ensures
            final(self).pins_view() == set_state_at(old(self).pins_view(), pin as int, state),
            old(self).same_but_levels(&*final(self)),
    {
        set_state_in(&mut self.pins, pin, state);
        assert(pin_types(self.pins@) =~= pin_types(old(self).pins@));
    }

    /// The largest pin number plus one.
    pub fn pin_count(&self) -> (r: usize)
        ensures
            r == self.pins_view().len(),
    {
        self.pins.len()
    }

    /// Every pin with its number, by increasing number.
    pub fn list_pins(&self) -> (r: Vec<(PinId, Pin)>)
        requires
            self.wf(),
        ensures
            r@.len() + 1 == self.pins_view().len(),
            forall|i: int|
                0 <= i < r@.len() ==> #[trigger] r@[i] == (
                (i + 1) as usize,
                self.pins_view()[i + 1],
            ),
    {
        list_pins_in(&self.pins)
    }

}

impl ChipRunner for ThreeInputOrGate {
    open spec fn wf(&self) -> bool {
        self.pins_view().len() == 15
    }

    open spec fn runs_to(&self, tick_ns: u64, next: &Self) -> bool {
        next.pins_view() == triple_gate_step(self.pins_view(), GateKind::Or)
    }

    fn run(&mut self, tick_ns: u64) {
        run_triple_gate(&mut self.pins, GateKind::Or);
    }
}

impl ChipBuilder<ChipSet> for ThreeInputOrGate {
    fn build() -> (r: ChipSet)
        ensures
            r matches ChipSet::ThreeInputOrGate(c) && c.pins_view() == ThreeInputOrGate::initial_pins(),
    {
        let types: [PinType; 15] = [
            PinType::Floating, PinType::Input, PinType::Input, PinType::Input,
            PinType::Input, PinType::Input, PinType::Output, PinType::Output,
            PinType::Output, PinType::Input, PinType::Input, PinType::Input,
            PinType::Output, PinType::Input, PinType::Input,
        ];
        assert(types@ == seq![PinType::Floating, PinType::Input, PinType::Input, PinType::Input, PinType::Input, PinType::Input, PinType::Output, PinType::Output, PinType::Output, PinType::Input, PinType::Input, PinType::Input, PinType::Output, PinType::Input, PinType::Input]);
        let c = ThreeInputOrGate {
            pins: pins_from_types(&types),
        };
        ChipSet::ThreeInputOrGate(c)
    }
}

/// Four 2-input NOR gates: AB = A nor B, CD, EF and GH likewise.
pub struct NorGate {
    pins: Vec<Pin>,
}

impl NorGate {
    pub const VCC: PinId = 14;
    pub const GND: PinId = 7;
    pub const A: PinId = 1;
    pub const B: PinId = 2;
    pub const AB: PinId = 3;
    pub const C: PinId = 4;
    pub const D: PinId = 5;
    pub const CD: PinId = 6;
    pub const E: PinId = 13;
    pub const F: PinId = 12;
    pub const EF: PinId = 11;
    pub const G: PinId = 10;
    pub const H: PinId = 9;
    pub const GH: PinId = 8;

    /// The pins, indexed by pin number.
    pub closed spec fn pins_view(&self) -> Seq<Pin> {
        self.pins@
    }

    /// The pins of a freshly built chip: each pin's direction, all at `Undefined`.
    pub open spec fn initial_pins() -> Seq<Pin> {
        fresh_pins(seq![PinType::Floating, PinType::Input, PinType::Input, PinType::Output, PinType::Input, PinType::Input, PinType::Output, PinType::Output, PinType::Output, PinType::Input, PinType::Input, PinType::Output, PinType::Input, PinType::Input, PinType::Input])
    }

    /// `other` differs from `self` at most in pin levels.
    pub open spec fn same_but_levels(&self, other: &Self) -> bool {
        pin_types(self.pins_view()) == pin_types(other.pins_view())
    }

    pub fn get_pin(&self, pin: PinId) -> (r: Option<Pin>)
        ensures
            r == pin_lookup(self.pins_view(), pin),
    {
        get_pin_in(&self.pins, pin)
    }

    /// Sets the level of pin `pin`, leaving its direction.
    pub fn set_pin_state(&mut self, pin: PinId, state: State)
        requires
            has_pin(old(self).pins_view(), pin as int),
        ensures
            final(self).pins_view() == set_state_at(old(self).pins_view(), pin as int, state),
            old(self).same_but_levels(&*final(self)),
    {
        set_state_in(&mut self.pins, pin, state);
        assert(pin_types(self.pins@) =~= pin_types(old(self).pins@));
    }

    /// The largest pin number plus one.
    pub fn pin_count(&self) -> (r: usize)
        ensures
            r == self.pins_view().len(),
    {
        self.pins.len()
    }

    /// Every pin with its number, by increasing number.
    pub fn list_pins(&self) -> (r: Vec<(PinId, Pin)>)
        requires
            self.wf(),
        ensures
            r@.len() + 1 == self.pins_view().len(),
            forall|i: int|
                0 <= i < r@.len() ==> #[trigger] r@[i] == (
                (i + 1) as usize,
                self.pins_view()[i + 1],
            ),
    {
        list_pins_in(&self.pins)
    }

}

impl ChipRunner for NorGate {
    open spec fn wf(&self) -> bool {
        self.pins_view().len() == 15
    }

    open spec fn runs_to(&self, tick_ns: u64, next: &Self) -> bool {
        next.pins_view() == quad_gate_step(self.pins_view(), GateKind::Nor)
    }

    fn run(&mut self, tick_ns: u64) {
        run_quad_gate(&mut self.pins, GateKind::Nor);
    }
}

impl ChipBuilder<ChipSet> for NorGate {
    fn build() -> (r: ChipSet)
        ensures
            r matches ChipSet::NorGate(c) && c.pins_view() == NorGate::initial_pins(),
    {
        let types: [PinType; 15] = [
            PinType::Floating, PinType::Input, PinType::Input, PinType::Output,
            PinType::Input, PinType::Input, PinType::Output, PinType::Output,
            PinType::Output, PinType::Input, PinType::Input, PinType::Output,
            PinType::Input, PinType::Input, PinType::Input,
        ];
        assert(types@ == seq![PinType::Floating, PinType::Input, PinType::Input, PinType::Output, PinType::Input, PinType::Input, PinType::Output, PinType::Output, PinType::Output, PinType::Input, PinType::Input, PinType::Output, PinType::Input, PinType::Input, PinType::Input]);
        let c = NorGate {
            pins: pins_from_types(&types),
        };
        ChipSet::NorGate(c)
    }
}

/// Three 3-input NOR gates: ABC, DEF and GHI.
pub struct ThreeInputNorGate {
    pins: Vec<Pin>,
}

impl ThreeInputNorGate {
    pub const VCC: PinId = 14;
    pub const GND: PinId = 7;
    pub const A: PinId = 1;
    pub const B: PinId = 2;
    pub const C: PinId = 13;
    pub const ABC: PinId = 12;
    pub const D: PinId = 3;
    pub const E: PinId = 4;
    pub const F: PinId = 5;
    pub const DEF: PinId = 6;
    pub const G: PinId = 11;
    pub const H: PinId = 10;
    pub const I: PinId = 9;
    pub const GHI: PinId = 8;

    /// The pins, indexed by pin number.
    pub closed spec fn pins_view(&self) -> Seq<Pin> {
        self.pins@
    }

    /// The pins of a freshly built chip: each pin's direction, all at `Undefined`.
    pub open spec fn initial_pins() -> Seq<Pin> {
        fresh_pins(seq![PinType::Floating, PinType::Input, PinType::Input, PinType::Input, PinType::Input, PinType::Input, PinType::Output, PinType::Output, PinType::Output, PinType::Input, PinType::Input, PinType::Input, PinType::Output, PinType::Input, PinType::Input])
    }

    /// `other` differs from `self` at most in pin levels.
    pub open spec fn same_but_levels(&self, other: &Self) -> bool {
        pin_types(self.pins_view()) == pin_types(other.pins_view())
    }

    pub fn get_pin(&self, pin: PinId) -> (r: Option<Pin>)
        ensures
            r == pin_lookup(self.pins_view(), pin),
    {
        get_pin_in(&self.pins, pin)
    }

    /// Sets the level of pin `pin`, leaving its direction.
    pub fn set_pin_state(&mut self, pin: PinId, state: State)
        requires
            has_pin(old(self).pins_view(), pin as int),
        ensures
            final(self).pins_view() == set_state_at(old(self).pins_view(), pin as int, state),
            old(self).same_but_levels(&*final(self)),
    {
        set_state_in(&mut self.pins, pin, state);
        assert(pin_types(self.pins@) =~= pin_types(old(self).pins@));
    }

    /// The largest pin number plus one.
    pub fn pin_count(&self) -> (r: usize)
        ensures
            r == self.pins_view().len(),
    {
        self.pins.len()
    }

    /// Every pin with its number, by increasing number.
    pub fn list_pins(&self) -> (r: Vec<(PinId, Pin)>)
        requires
            self.wf(),
        ensures
            r@.len() + 1 == self.pins_view().len(),
            forall|i: int|
                0 <= i < r@.len() ==> #[trigger] r@[i] == (
                (i + 1) as usize,
                self.pins_view()[i + 1],
            ),
    {
        list_pins_in(&self.pins)
    }

}

impl ChipRunner for ThreeInputNorGate {
    open spec fn wf(&self) -> bool {
        self.pins_view().len() == 15
    }

    open spec fn runs_to(&self, tick_ns: u64, next: &Self) -> bool {
        next.pins_view() == triple_gate_step(self.pins_view(), GateKind::Nor)
    }

    fn run(&mut self, tick_ns: u64) {
        run_triple_gate(&mut self.pins, GateKind::Nor);
    }
}

impl ChipBuilder<ChipSet> for ThreeInputNorGate {
    fn build() -> (r: ChipSet)
        ensures
            r matches ChipSet::ThreeInputNorGate(c) && c.pins_view() == ThreeInputNorGate::initial_pins(),
    {
        let types: [PinType; 15] = [
            PinType::Floating, PinType::Input, PinType::Input, PinType::Input,
            PinType::Input, PinType::Input, PinType::Output, PinType::Output,
            PinType::Output, PinType::Input, PinType::Input, PinType::Input,
            PinType::Output, PinType::Input, PinType::Input,
        ];
        assert(types@ == seq![PinType::Floating, PinType::Input, PinType::Input, PinType::Input, PinType::Input, PinType::Input, PinType::Output, PinType::Output, PinType::Output, PinType::Input, PinType::Input, PinType::Input, PinType::Output, PinType::Input, PinType::Input]);
        let c = ThreeInputNorGate {
            pins: pins_from_types(&types),
        };
        ChipSet::ThreeInputNorGate(c)
    }
}

/// Six inverters: !A = not A, and likewise for B to F.
pub struct NotGate {
    pins: Vec<Pin>,
}

impl NotGate {
    pub const VCC: PinId = 14;
    pub const GND: PinId = 7;
    pub const A: PinId = 1;
    pub const NOT_A: PinId = 2;
    pub const B: PinId = 3;
    pub const NOT_B: PinId = 4;
    pub const C: PinId = 5;
    pub const NOT_C: PinId = 6;
    pub const D: PinId = 13;
    pub const NOT_D: PinId = 12;
    pub const E: PinId = 11;
    pub const NOT_E: PinId = 10;
    pub const F: PinId = 9;
    pub const NOT_F: PinId = 8;

    /// The pins, indexed by pin number.
    pub closed spec fn pins_view(&self) -> Seq<Pin> {
        self.pins@
    }

    /// The pins of a freshly built chip: each pin's direction, all at `Undefined`.
    pub open spec fn initial_pins() -> Seq<Pin> {
        fresh_pins(seq![PinType::Floating, PinType::Input, PinType::Output, PinType::Input, PinType::Output, PinType::Input, PinType::Output, PinType::Output, PinType::Output, PinType::Input, PinType::Output, PinType::Input, PinType::Output, PinType::Input, PinType::Input])
    }

    /// `other` differs from `self` at most in pin levels.
    pub open spec fn same_but_levels(&self, other: &Self) -> bool {
        pin_types(self.pins_view()) == pin_types(other.pins_view())
    }

    pub fn get_pin(&self, pin: PinId) -> (r: Option<Pin>)
        ensures
            r == pin_lookup(self.pins_view(), pin),
    {
        get_pin_in(&self.pins, pin)
    }

    /// Sets the level of pin `pin`, leaving its direction.
    pub fn set_pin_state(&mut self, pin: PinId, state: State)
        requires
            has_pin(old(self).pins_view(), pin as int),
        ensures
            final(self).pins_view() == set_state_at(old(self).pins_view(), pin as int, state),
            old(self).same_but_levels(&*final(self)),
    {
        set_state_in(&mut self.pins, pin, state);
        assert(pin_types(self.pins@) =~= pin_types(old(self).pins@));
    }

    /// The largest pin number plus one.
    pub fn pin_count(&self) -> (r: usize)
        ensures
            r == self.pins_view().len(),
    {
        self.pins.len()
    }

    /// Every pin with its number, by increasing number.
    pub fn list_pins(&self) -> (r: Vec<(PinId, Pin)>)
        requires
            self.wf(),
        ensures
            r@.len() + 1 == self.pins_view().len(),
            forall|i: int|
                0 <= i < r@.len() ==> #[trigger] r@[i] == (
                (i + 1) as usize,
                self.pins_view()[i + 1],
            ),
    {
        list_pins_in(&self.pins)
    }

}

impl ChipRunner for NotGate {
    open spec fn wf(&self) -> bool {
        self.pins_view().len() == 15
    }

    open spec fn runs_to(&self, tick_ns: u64, next: &Self) -> bool {
        next.pins_view() == hex_inverter_step(self.pins_view())
    }

    fn run(&mut self, tick_ns: u64) {
        run_hex_inverter(&mut self.pins);
    }
}

impl ChipBuilder<ChipSet> for NotGate {
    fn build() -> (r: ChipSet)
        ensures
            r matches ChipSet::NotGate(c) && c.pins_view() == NotGate::initial_pins(),
    {
        let types: [PinType; 15] = [
            PinType::Floating, PinType::Input, PinType::Output, PinType::Input,
            PinType::Output, PinType::Input, PinType::Output, PinType::Output,
            PinType::Output, PinType::Input, PinType::Output, PinType::Input,
            PinType::Output, PinType::Input, PinType::Input,
        ];
        assert(types@ == seq![PinType::Floating, PinType::Input, PinType::Output, PinType::Input, PinType::Output, PinType::Input, PinType::Output, PinType::Output, PinType::Output, PinType::Input, PinType::Output, PinType::Input, PinType::Output, PinType::Input, PinType::Input]);
        let c = NotGate {
            pins: pins_from_types(&types),
        };
        ChipSet::NotGate(c)
    }
}

} // verus!
