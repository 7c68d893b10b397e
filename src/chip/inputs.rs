//! Input devices.
use vstd::prelude::*;

use super::{
    fresh_pins, get_pin_in, has_pin, list_pins_in, pin_lookup, pin_types, pins_from_types,
    set_state_at, set_state_in, ChipBuilder, ChipRunner, ChipSet, Pin, PinId, PinType,
};
use crate::State;

verus! {

/// A push button: while it is down, OUT follows IN; otherwise OUT is `Undefined`.
///
/// Pins: IN 1, OUT 2.
pub struct Button {
    pins: Vec<Pin>,
    down: bool,
}

impl Button {
    pub const I: PinId = 1;
    pub const O: PinId = 2;

    /// The pins, indexed by pin number.
    pub closed spec fn pins_view(&self) -> Seq<Pin> {
        self.pins@
    }

    /// The pins of a freshly built chip: each pin's direction, all at `Undefined`.
    pub open spec fn initial_pins() -> Seq<Pin> {
        fresh_pins(seq![PinType::Floating, PinType::Input, PinType::Output])
    }

    pub closed spec fn is_down(&self) -> bool {
        self.down
    }

    /// `other` differs from `self` at most in pin levels.
    pub open spec fn same_but_levels(&self, other: &Self) -> bool {
        pin_types(self.pins_view()) == pin_types(other.pins_view())
            && self.is_down() == other.is_down()
    }

    pub fn get_pin(&self, pin: PinId) -> (r: Option<Pin>)
        ensures
            r == pin_lookup(self.pins_view(), pin),
    {
        get_pin_in(&self.pins, pin)
    }

    /// Sets the level of pin `pin`, leaving its direction.
    pub fn set_pin_state(&mut self, pin: PinId, state: State)
        requires
            has_pin(old(self).pins_view(), pin as int),
        ensures
            final(self).pins_view() == set_state_at(old(self).pins_view(), pin as int, state),
            old(self).same_but_levels(&*final(self)),
            final(self).is_down() == old(self).is_down(),
    {
        set_state_in(&mut self.pins, pin, state);
        assert(pin_types(self.pins@) =~= pin_types(old(self).pins@));
    }

    /// The largest pin number plus one.
    pub fn pin_count(&self) -> (r: usize)
        ensures
            r == self.pins_view().len(),
    {
        self.pins.len()
    }

    /// Every pin with its number, by increasing number.
    pub fn list_pins(&self) -> (r: Vec<(PinId, Pin)>)
        requires
            self.wf(),
        ensures
            r@.len() + 1 == self.pins_view().len(),
            forall|i: int|
                0 <= i < r@.len() ==> #[trigger] r@[i] == (
                (i + 1) as usize,
                self.pins_view()[i + 1],
            ),
    {
        list_pins_in(&self.pins)
    }

    pub fn press(&mut self)
        ensures
            final(self).is_down(),
            final(self).pins_view() == old(self).pins_view(),
    {
        self.down = true;
    }

    pub fn release(&mut self)
        ensures
            !final(self).is_down(),
            final(self).pins_view() == old(self).pins_view(),
    {
        self.down = false;
    }
}

impl ChipRunner for Button {
    open spec fn wf(&self) -> bool {
        self.pins_view().len() == 3
    }

    open spec fn runs_to(&self, tick_ns: u64, next: &Self) -> bool {
        next.is_down() == self.is_down() && next.pins_view() == set_state_at(
            self.pins_view(),
            2,
            if self.is_down() {
                self.pins_view()[1].state
            } else {
                State::Undefined
            },
        )
    }

    fn run(&mut self, tick_ns: u64) {
        if self.down {
            let s = self.pins[1].state;
            set_state_in(&mut self.pins, 2, s);
        } else {
            set_state_in(&mut self.pins, 2, State::Undefined);
        }
    }
}

impl ChipBuilder<ChipSet> for Button {
    fn build() -> (r: ChipSet)
        ensures
            r matches ChipSet::Button(c) && c.pins_view() == Button::initial_pins()
                && c.is_down() == false,
    {
        let types: [PinType; 3] = [
            PinType::Floating, PinType::Input, PinType::Output,
        ];
        assert(types@ == seq![PinType::Floating, PinType::Input, PinType::Output]);
        let c = Button {
            pins: pins_from_types(&types),
            down: false,
        };
        ChipSet::Button(c)
    }
}

} // verus!
