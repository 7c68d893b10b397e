//! Seven-segment decoder and display.
use vstd::prelude::*;

use super::{
    fresh_pins, bits_value, get_pin_in, has_pin, high_at, is_high_in, list_pins_in, logic_bits,
    pin_lookup, pin_types, pins_at, pins_from_types, read_at, set_state_at, set_state_in, truths,
    write_at, written, ChipBuilder, ChipRunner, ChipSet, Pin, PinId, PinType,
};
use crate::{truth_of, State, LOGIC_THRESHOLD_MV};

verus! {

/// Segment pattern (a..g, a the highest of seven bits) of each hexadecimal digit.
pub open spec fn segment_pattern(digit: usize) -> usize {
    match digit {
        0 => 0b1111110,
        1 => 0b0110000,
        2 => 0b1101101,
        3 => 0b1111001,
        4 => 0b0110011,
        5 => 0b1011011,
        6 => 0b1011111,
        7 => 0b1110000,
        8 => 0b1111111,
        9 => 0b1111011,
        10 => 0b1110111,
        11 => 0b0011111,
        12 => 0b0001101,
        13 => 0b0111101,
        14 => 0b1001111,
        _ => 0b1000111,
    }
}

fn segment_pattern_of(digit: usize) -> (r: usize)
    requires
        digit < 16,
    ensures
        r == segment_pattern(digit),
{
    match digit {
        0 => 0b1111110,
        1 => 0b0110000,
        2 => 0b1101101,
        3 => 0b1111001,
        4 => 0b0110011,
        5 => 0b1011011,
        6 => 0b1011111,
        7 => 0b1110000,
        8 => 0b1111111,
        9 => 0b1111011,
        10 => 0b1110111,
        11 => 0b0011111,
        12 => 0b0001101,
        13 => 0b0111101,
        14 => 0b1001111,
        _ => 0b1000111,
    }
}

/// The character that a display shows for a segment pattern (g the lowest of seven bits, a
/// the highest); unknown patterns show `?`.
pub open spec fn segment_char(pattern: usize) -> char {
    match pattern {
        0b0000000 => ' ',
        0b1111110 => '0',
        0b0110000 => '1',
        0b1101101 => '2',
        0b1111001 => '3',
        0b0110011 => '4',
        0b1011011 => '5',
        0b1011111 => '6',
        0b1110000 => '7',
        0b1110010 => '7',
        0b1111111 => '8',
        0b1111011 => '9',
        0b1110111 => 'A',
        0b0011111 => 'b',
        0b1001110 => 'C',
        0b0001101 => 'c',
        0b0111101 => 'd',
        0b1001111 => 'E',
        0b1000111 => 'F',
        0b1011110 => 'G',
        0b0110111 => 'H',
        0b0010111 => 'h',
        0b0111100 => 'J',
        0b0001110 => 'L',
        0b0001100 => 'l',
        0b1110110 => 'M',
        0b0010101 => 'n',
        0b0011101 => 'o',
        0b1100111 => 'p',
        0b1110011 => 'q',
        0b0001111 => 't',
        0b0111110 => 'U',
        0b0011100 => 'u',
        0b0111011 => 'y',
        0b0001000 => '_',
        0b0000001 => '-',
        0b0001001 => '=',
        0b1001000 => '=',
        _ => '?',
    }
}

fn segment_char_of(pattern: usize) -> (r: char)
    ensures
        r == segment_char(pattern),
{
    match pattern {
        0b0000000 => ' ',
        0b1111110 => '0',
        0b0110000 => '1',
        0b1101101 => '2',
        0b1111001 => '3',
        0b0110011 => '4',
        0b1011011 => '5',
        0b1011111 => '6',
        0b1110000 => '7',
        0b1110010 => '7',
        0b1111111 => '8',
        0b1111011 => '9',
        0b1110111 => 'A',
        0b0011111 => 'b',
        0b1001110 => 'C',
        0b0001101 => 'c',
        0b0111101 => 'd',
        0b1001111 => 'E',
        0b1000111 => 'F',
        0b1011110 => 'G',
        0b0110111 => 'H',
        0b0010111 => 'h',
        0b0111100 => 'J',
        0b0001110 => 'L',
        0b0001100 => 'l',
        0b1110110 => 'M',
        0b0010101 => 'n',
        0b0011101 => 'o',
        0b1100111 => 'p',
        0b1110011 => 'q',
        0b0001111 => 't',
        0b0111110 => 'U',
        0b0011100 => 'u',
        0b0111011 => 'y',
        0b0001000 => '_',
        0b0000001 => '-',
        0b0001001 => '=',
        0b1001000 => '=',
        _ => '?',
    }
}

/// Input pins of the decoder, lowest bit first: A, B, C, D.
pub open spec fn decoder_inputs() -> Seq<usize> {
    seq![5usize, 1, 2, 4]
}

/// Output pins of the decoder, lowest bit first: g, f, e, d, c, b, a.
pub open spec fn decoder_outputs() -> Seq<usize> {
    seq![12usize, 13, 6, 8, 9, 10, 11]
}

/// Segment pins of the display, lowest bit first: g, f, e, d, c, b, a.
pub open spec fn display_segments() -> Seq<usize> {
    seq![7usize, 6, 5, 4, 3, 2, 1]
}

/// One tick of the decoder: when VCC is high, GND is driven low and the outputs show the
/// pattern of the digit on A..D, or nothing while BI is low.
pub open spec fn decoder_step(pins: Seq<Pin>) -> Seq<Pin> {
    if high_at(pins, 14, LOGIC_THRESHOLD_MV) {
        let digit = bits_value(logic_bits(pins_at(pins, decoder_inputs()), LOGIC_THRESHOLD_MV));
        let pattern = if high_at(pins, 3, LOGIC_THRESHOLD_MV) {
            segment_pattern((digit % 16) as usize)
        } else {
            0
        };
        written(set_state_at(pins, 7, State::Low), decoder_outputs(), pattern as nat)
    } else {
        pins
    }
}

/// Decodes a nibble on A..D (A lowest) into the seven segments a..g of its hexadecimal
/// digit; BI low blanks the outputs.
pub struct SevenSegmentsDecoder {
    pins: Vec<Pin>,
}

impl SevenSegmentsDecoder {
    pub const VCC: PinId = 14;
    pub const GND: PinId = 7;
    /// Blanking input, active low.
    pub const BI: PinId = 3;
    pub const IA: PinId = 5;
    pub const IB: PinId = 1;
    pub const IC: PinId = 2;
    pub const ID: PinId = 4;
    pub const OA: PinId = 11;
    pub const OB: PinId = 10;
    pub const OC: PinId = 9;
    pub const OD: PinId = 8;
    pub const OE: PinId = 6;
    pub const OF: PinId = 13;
    pub const OG: PinId = 12;

    /// The pins, indexed by pin number.
    pub closed spec fn pins_view(&self) -> Seq<Pin> {
        self.pins@
    }

    /// The pins of a freshly built chip: each pin's direction, all at `Undefined`.
    pub open spec fn initial_pins() -> Seq<Pin> {
        fresh_pins(seq![PinType::Floating, PinType::Input, PinType::Input, PinType::Input, PinType::Input, PinType::Input, PinType::Output, PinType::Output, PinType::Output, PinType::Output, PinType::Output, PinType::Output, PinType::Output, PinType::Output, PinType::Input])
    }

    /// `other` differs from `self` at most in pin levels.
    pub open spec fn same_but_levels(&self, other: &Self) -> bool {
        pin_types(self.pins_view()) == pin_types(other.pins_view())
    }

    pub fn get_pin(&self, pin: PinId) -> (r: Option<Pin>)
        ensures
            r == pin_lookup(self.pins_view(), pin),
    {
        get_pin_in(&self.pins, pin)
    }

    /// Sets the level of pin `pin`, leaving its direction.
    pub fn set_pin_state(&mut self, pin: PinId, state: State)
        requires
            has_pin(old(self).pins_view(), pin as int),
        ensures
            final(self).pins_view() == set_state_at(old(self).pins_view(), pin as int, state),
            old(self).same_but_levels(&*final(self)),
    {
        set_state_in(&mut self.pins, pin, state);
        assert(pin_types(self.pins@) =~= pin_types(old(self).pins@));
    }

    /// The largest pin number plus one.
    pub fn pin_count(&self) -> (r: usize)
        ensures
            r == self.pins_view().len(),
    {
        self.pins.len()
    }

    /// Every pin with its number, by increasing number.
    pub fn list_pins(&self) -> (r: Vec<(PinId, Pin)>)
        requires
            self.wf(),
        ensures
            r@.len() + 1 == self.pins_view().len(),
            forall|i: int|
                0 <= i < r@.len() ==> #[trigger] r@[i] == (
                (i + 1) as usize,
                self.pins_view()[i + 1],
            ),
    {
        list_pins_in(&self.pins)
    }

}

impl ChipRunner for SevenSegmentsDecoder {
    open spec fn wf(&self) -> bool {
        self.pins_view().len() == 15
    }

    open spec fn runs_to(&self, tick_ns: u64, next: &Self) -> bool {
        next.pins_view() == decoder_step(self.pins_view())
    }

    fn run(&mut self, tick_ns: u64) {
        if is_high_in(&self.pins, 14, LOGIC_THRESHOLD_MV) {
            let inputs: [usize; 4] = [5, 1, 2, 4];
            let outputs: [usize; 7] = [12, 13, 6, 8, 9, 10, 11];
            assert(inputs@ == decoder_inputs());
            assert(outputs@ == decoder_outputs());
            let pattern: usize = if is_high_in(&self.pins, 3, LOGIC_THRESHOLD_MV) {
                let digit = read_at(&self.pins, &inputs, LOGIC_THRESHOLD_MV);
                segment_pattern_of(digit % 16)
            } else {
                0
            };
            set_state_in(&mut self.pins, 7, State::Low);
            write_at(&mut self.pins, &outputs, pattern);
        }
    }
}

impl ChipBuilder<ChipSet> for SevenSegmentsDecoder {
    fn build() -> (r: ChipSet)
        ensures
            r matches ChipSet::SevenSegmentDecoder(c) && c.pins_view() == SevenSegmentsDecoder::initial_pins(),
    {
        let types: [PinType; 15] = [
            PinType::Floating, PinType::Input, PinType::Input, PinType::Input,
            PinType::Input, PinType::Input, PinType::Output, PinType::Output,
            PinType::Output, PinType::Output, PinType::Output, PinType::Output,
            PinType::Output, PinType::Output, PinType::Input,
        ];
        assert(types@ == seq![PinType::Floating, PinType::Input, PinType::Input, PinType::Input, PinType::Input, PinType::Input, PinType::Output, PinType::Output, PinType::Output, PinType::Output, PinType::Output, PinType::Output, PinType::Output, PinType::Output, PinType::Input]);
        let c = SevenSegmentsDecoder {
            pins: pins_from_types(&types),
        };
        ChipSet::SevenSegmentDecoder(c)
    }
}

/// A seven-segment display: a passive sink whose segments can be read back as a character.
///
/// Segments a..g are pins 1..7 (a top, b top right, c bottom right, d bottom, e bottom left,
/// f top left, g middle).
pub struct SegmentDisplay {
    pins: Vec<Pin>,
}

impl SegmentDisplay {
    pub const VCC: PinId = 9;
    pub const GND: PinId = 8;
    pub const A: PinId = 1;
    pub const B: PinId = 2;
    pub const C: PinId = 3;
    pub const D: PinId = 4;
    pub const E: PinId = 5;
    pub const F: PinId = 6;
    pub const G: PinId = 7;

    /// The pins, indexed by pin number.
    pub closed spec fn pins_view(&self) -> Seq<Pin> {
        self.pins@
    }

    /// The pins of a freshly built chip: each pin's direction, all at `Undefined`.
    pub open spec fn initial_pins() -> Seq<Pin> {
        fresh_pins(seq![PinType::Floating, PinType::Input, PinType::Input, PinType::Input, PinType::Input, PinType::Input, PinType::Input, PinType::Input, PinType::Output, PinType::Input])
    }

    /// `other` differs from `self` at most in pin levels.
    pub open spec fn same_but_levels(&self, other: &Self) -> bool {
        pin_types(self.pins_view()) == pin_types(other.pins_view())
    }

    pub fn get_pin(&self, pin: PinId) -> (r: Option<Pin>)
        ensures
            r == pin_lookup(self.pins_view(), pin),
    {
        get_pin_in(&self.pins, pin)
    }

    /// Sets the level of pin `pin`, leaving its direction.
    pub fn set_pin_state(&mut self, pin: PinId, state: State)
        requires
            has_pin(old(self).pins_view(), pin as int),
        ensures
            final(self).pins_view() == set_state_at(old(self).pins_view(), pin as int, state),
            old(self).same_but_levels(&*final(self)),
    {
        set_state_in(&mut self.pins, pin, state);
        assert(pin_types(self.pins@) =~= pin_types(old(self).pins@));
    }

    /// The largest pin number plus one.
    pub fn pin_count(&self) -> (r: usize)
        ensures
            r == self.pins_view().len(),
    {
        self.pins.len()
    }

    /// Every pin with its number, by increasing number.
    pub fn list_pins(&self) -> (r: Vec<(PinId, Pin)>)
        requires
            self.wf(),
        ensures
            r@.len() + 1 == self.pins_view().len(),
            forall|i: int|
                0 <= i < r@.len() ==> #[trigger] r@[i] == (
                (i + 1) as usize,
                self.pins_view()[i + 1],
            ),
    {
        list_pins_in(&self.pins)
    }

    /// The character the display shows: a space while unpowered.
    pub fn as_char(&self) -> (r: char)
        requires
            self.wf(),
        ensures
            r == (if truth_of(self.pins_view()[9].state) {
                segment_char(
                    bits_value(truths(pins_at(self.pins_view(), display_segments()))) as usize,
                )
            } else {
                ' '
            }),
    {
        if self.pins[9].state.to_bool() {
            let mut segments: Vec<Pin> = Vec::new();
            let mut i: usize = 7;
            while i >= 1
                invariant
                    0 <= i <= 7,
                    self.pins_view().len() == 10,
                    segments@ =~= pins_at(self.pins_view(), display_segments()).subrange(
                        0,
                        7 - i as int,
                    ),
                decreases i,
            {
                segments.push(self.pins[i]);
                i = i - 1;
            }
            assert(segments@ =~= pins_at(self.pins_view(), display_segments()));
            segment_char_of(Pin::read(segments.as_slice()))
        } else {
            ' '
        }
    }
}

impl ChipRunner for SegmentDisplay {
    open spec fn wf(&self) -> bool {
        self.pins_view().len() == 10
    }

    open spec fn runs_to(&self, tick_ns: u64, next: &Self) -> bool {
        next.pins_view() == if truth_of(self.pins_view()[9].state) {
            set_state_at(self.pins_view(), 8, State::Low)
        } else {
            self.pins_view()
        }
    }

    fn run(&mut self, tick_ns: u64) {
        if self.pins[9].state.to_bool() {
            set_state_in(&mut self.pins, 8, State::Low);
        }
    }
}

impl ChipBuilder<ChipSet> for SegmentDisplay {
    fn build() -> (r: ChipSet)
        ensures
            r matches ChipSet::SegmentDisplay(c) && c.pins_view() == SegmentDisplay::initial_pins(),
    {
        let types: [PinType; 10] = [
            PinType::Floating, PinType::Input, PinType::Input, PinType::Input,
            PinType::Input, PinType::Input, PinType::Input, PinType::Input,
            PinType::Output, PinType::Input,
        ];
        assert(types@ == seq![PinType::Floating, PinType::Input, PinType::Input, PinType::Input, PinType::Input, PinType::Input, PinType::Input, PinType::Input, PinType::Output, PinType::Input]);
        let c = SegmentDisplay {
            pins: pins_from_types(&types),
        };
        ChipSet::SegmentDisplay(c)
    }
}

} // verus!
