//! Constant level sources.
use vstd::prelude::*;

use super::{
    fresh_pins, get_pin_in, has_pin, list_pins_in, pin_lookup, pin_types, pins_from_types,
    set_state_at, set_state_in, ChipBuilder, ChipRunner, ChipSet, Pin, PinId, PinType,
};
use crate::State;

verus! {

/// A single output held at a configurable level (`High` by default), such as a supply rail.
pub struct Generator {
    pins: Vec<Pin>,
    state: State,
}

impl Generator {
    pub const OUT: PinId = 1;

    /// The pins, indexed by pin number.
    pub closed spec fn pins_view(&self) -> Seq<Pin> {
        self.pins@
    }

    /// The pins of a freshly built chip: each pin's direction, all at `Undefined`.
    pub open spec fn initial_pins() -> Seq<Pin> {
        fresh_pins(seq![PinType::Floating, PinType::Output])
    }

    pub closed spec fn level(&self) -> State {
        self.state
    }

    /// `other` differs from `self` at most in pin levels.
    pub open spec fn same_but_levels(&self, other: &Self) -> bool {
        pin_types(self.pins_view()) == pin_types(other.pins_view())
            && self.level() == other.level()
    }

    pub fn get_pin(&self, pin: PinId) -> (r: Option<Pin>)
        ensures
            r == pin_lookup(self.pins_view(), pin),
    {
        get_pin_in(&self.pins, pin)
    }

    /// Sets the level of pin `pin`, leaving its direction.
    pub fn set_pin_state(&mut self, pin: PinId, state: State)
        requires
            has_pin(old(self).pins_view(), pin as int),
        ensures
            final(self).pins_view() == set_state_at(old(self).pins_view(), pin as int, state),
            old(self).same_but_levels(&*final(self)),
            final(self).level() == old(self).level(),
    {
        set_state_in(&mut self.pins, pin, state);
        assert(pin_types(self.pins@) =~= pin_types(old(self).pins@));
    }

    /// The largest pin number plus one.
    pub fn pin_count(&self) -> (r: usize)
        ensures
            r == self.pins_view().len(),
    {
        self.pins.len()
    }

    /// Every pin with its number, by increasing number.
    pub fn list_pins(&self) -> (r: Vec<(PinId, Pin)>)
        requires
            self.wf(),
        ensures
            r@.len() + 1 == self.pins_view().len(),
            forall|i: int|
                0 <= i < r@.len() ==> #[trigger] r@[i] == (
                (i + 1) as usize,
                self.pins_view()[i + 1],
            ),
    {
        list_pins_in(&self.pins)
    }

    /// The generator holding `state`, its output already at that level.
    pub fn with_state(self, state: State) -> (r: Self)
        requires
            self.wf(),
        ensures
            r.wf(),
            r.level() == state,
            r.pins_view() == set_state_at(self.pins_view(), 1, state),
    {
        let mut r = self;
        r.state = state;
        set_state_in(&mut r.pins, 1, state);
        r
    }
}

impl ChipRunner for Generator {
    open spec fn wf(&self) -> bool {
        self.pins_view().len() == 2
    }

    open spec fn runs_to(&self, tick_ns: u64, next: &Self) -> bool {
        next.level() == self.level() && next.pins_view() == set_state_at(
            self.pins_view(),
            1,
            self.level(),
        )
    }

    fn run(&mut self, tick_ns: u64) {
        let s = self.state;
        set_state_in(&mut self.pins, 1, s);
    }
}

impl ChipBuilder<Generator> for Generator {
    fn build() -> (r: Generator)
        ensures
            r.pins_view() == set_state_at(Self::initial_pins(), 1, State::High),
            r.level() == State::High,
    {
        let types: [PinType; 2] = [
            PinType::Floating, PinType::Output,
        ];
        assert(types@ == seq![PinType::Floating, PinType::Output]);
        let mut c = Generator {
            pins: pins_from_types(&types),
            state: State::High,
        };
        set_state_in(&mut c.pins, 1, State::High);
        c
    }
}

impl Generator {
    /// This chip as a member of the chip set.
    pub fn into_chip(self) -> (r: ChipSet)
        ensures
            r == ChipSet::Generator(self),
    {
        ChipSet::Generator(self)
    }
}

impl From<Generator> for ChipSet {
    fn from(value: Generator) -> (r: ChipSet) {
        ChipSet::Generator(value)
    }
}

impl vstd::std_specs::convert::FromSpecImpl<Generator> for ChipSet {
    open spec fn obeys_from_spec() -> bool {
        true
    }

    open spec fn from_spec(v: Generator) -> ChipSet {
        ChipSet::Generator(v)
    }
}

} // verus!
