//! Pins, buses, and the family of chips that can sit on a board.
pub mod clocks;
pub mod cpu;
pub mod gates;
pub mod generators;
pub mod inputs;
pub mod memories;
pub mod outputs;
use vstd::arithmetic::power2::{lemma_pow2_strictly_increases, lemma_pow2_unfold, pow2};
use vstd::prelude::*;

use crate::{level_of, logic_of, truth_of, State};

verus! {

/// Identifier of a pin on its chip: its number on the package.
pub type PinId = usize;

/// Direction of a pin.
#[derive(Debug, Clone, Copy, PartialEq, Eq, Structural)]
pub enum PinType {
    /// Neither drives nor reads the wire it is on.
    Floating,
    Input,
    Output,
}

/// An electrical endpoint of a chip.
#[derive(Debug, Clone, Copy, PartialEq, Eq, Structural)]
pub struct Pin {
    pub pin_type: PinType,
    pub state: State,
}

/// Unsigned value of a little-endian sequence of bits.
pub open spec fn bits_value(bits: Seq<bool>) -> nat
    decreases bits.len(),
{
    if bits.len() == 0 {
        0
    } else {
        (if bits[0] { 1nat } else { 0nat }) + 2 * bits_value(bits.drop_first())
    }
}

/// `value` with its `n` lowest bits shifted out.
pub open spec fn shifted(value: nat, n: nat) -> nat
    decreases n,
{
    if n == 0 {
        value
    } else {
        shifted(value / 2, (n - 1) as nat)
    }
}

/// Boolean coercion of each pin's level.
pub open spec fn truths(pins: Seq<Pin>) -> Seq<bool> {
    pins.map_values(|p: Pin| truth_of(p.state))
}

/// Logic reading of each pin's level at `threshold`.
pub open spec fn logic_bits(pins: Seq<Pin>, threshold: i32) -> Seq<bool> {
    pins.map_values(|p: Pin| logic_of(p.state, threshold) is High)
}

/// The pins of `pins` at the positions `ids`, in that order.
pub open spec fn pins_at(pins: Seq<Pin>, ids: Seq<usize>) -> Seq<Pin> {
    ids.map_values(|id: usize| pins[id as int])
}

/// All of `ids` name a position of `pins`, none twice.
pub open spec fn valid_ids(pins: Seq<Pin>, ids: Seq<usize>) -> bool {
    &&& forall|i: int| 0 <= i < ids.len() ==> ids[i] < pins.len()
    &&& forall|i: int, j: int| 0 <= i < j < ids.len() ==> ids[i] != ids[j]
}

/// `pins` after the bits of `value` are driven, lowest first, onto the pins at `ids`.
pub open spec fn written(pins: Seq<Pin>, ids: Seq<usize>, value: nat) -> Seq<Pin>
    decreases ids.len(),
{
    if ids.len() == 0 {
        pins
    } else {
        let id = ids[0] as int;
        written(
            pins.update(id, Pin { pin_type: pins[id].pin_type, state: level_of(value % 2 == 1) }),
            ids.drop_first(),
            value / 2,
        )
    }
}

pub proof fn lemma_bits_value_bound(bits: Seq<bool>)
    ensures
        bits_value(bits) < pow2(bits.len()),
    decreases bits.len(),
{
    if bits.len() > 0 {
        lemma_bits_value_bound(bits.drop_first());
        lemma_pow2_unfold(bits.len());
        assert(pow2(bits.len()) == 2 * pow2((bits.len() - 1) as nat));
    } else {
        vstd::arithmetic::power2::lemma_pow2_pos(0);
    }
}

proof fn lemma_bits_value_step(bits: Seq<bool>, i: int)
    requires
        0 <= i < bits.len(),
    ensures
        bits_value(bits.subrange(i, bits.len() as int)) == (if bits[i] { 1nat } else { 0nat })
            + 2 * bits_value(bits.subrange(i + 1, bits.len() as int)),
{
    assert(bits.subrange(i, bits.len() as int).drop_first() =~= bits.subrange(
        i + 1,
        bits.len() as int,
    ));
}

proof fn lemma_shifted_step(value: nat, i: nat)
    ensures
        shifted(value, i + 1) == shifted(value, i) / 2,
    decreases i,
{
    assert(shifted(value, i + 1) == shifted(value / 2, i));
    if i > 0 {
        lemma_shifted_step(value / 2, (i - 1) as nat);
        assert(shifted(value, i) == shifted(value / 2, (i - 1) as nat));
    }
}

/// Reads `bits` (one boolean per pin, lowest first) as an unsigned number.
fn bits_to_usize(bits: &Vec<bool>) -> (r: usize)
    requires
        bits@.len() <= usize::BITS,
    ensures
        r == bits_value(bits@),
{
    let n = bits.len();
    let mut sum: usize = 0;
    let mut i: usize = n;
    proof {
        vstd::layout::unsigned_int_max_values();
    }
    while i > 0
        invariant
            n == bits@.len() <= usize::BITS,
            i <= n,
            sum == bits_value(bits@.subrange(i as int, n as int)),
            usize::MAX as nat == pow2(usize::BITS as nat) - 1,
        decreases i,
    {
        proof {
            lemma_bits_value_step(bits@, i - 1);
            lemma_bits_value_bound(bits@.subrange(i - 1, n as int));
            if n - i + 1 < usize::BITS {
                lemma_pow2_strictly_increases((n - i + 1) as nat, usize::BITS as nat);
            }
        }
        i = i - 1;
        let b: usize = if bits[i] { 1 } else { 0 };
        sum = 2 * sum + b;
    }
    assert(bits@.subrange(0, n as int) =~= bits@);
    sum
}

impl Pin {
    /// A pin of the given direction at `Undefined`.
    pub fn from_type(pin_type: PinType) -> (r: Pin)
        ensures
            r == (Pin { pin_type, state: State::Undefined }),
    {
        Pin { pin_type, state: State::Undefined }
    }

    /// Reads the pins as an unsigned number, lowest first, each by its boolean coercion.
    pub fn read(pins: &[Pin]) -> (r: usize)
        requires
            pins@.len() <= usize::BITS,
        ensures
            r == bits_value(truths(pins@)),
    {
        let mut bits: Vec<bool> = Vec::new();
        let mut i: usize = 0;
        while i < pins.len()
            invariant
                i <= pins@.len(),
                bits@ =~= truths(pins@).subrange(0, i as int),
            decreases pins@.len() - i,
        {
            bits.push(pins[i].state.to_bool());
            i = i + 1;
        }
        assert(bits@ =~= truths(pins@));
        bits_to_usize(&bits)
    }

    /// Reads the pins as an unsigned number, lowest first, each by its logic level at
    /// `input_threshold` millivolts.
    pub fn read_threshold(pins: &[Pin], input_threshold: i32) -> (r: usize)
        requires
            pins@.len() <= usize::BITS,
        ensures
            r == bits_value(logic_bits(pins@, input_threshold)),
    {
        let mut bits: Vec<bool> = Vec::new();
        let mut i: usize = 0;
        while i < pins.len()
            invariant
                i <= pins@.len(),
                bits@ =~= logic_bits(pins@, input_threshold).subrange(0, i as int),
            decreases pins@.len() - i,
        {
            let l = pins[i].state.as_logic(input_threshold);
            bits.push(l == State::High);
            i = i + 1;
        }
        assert(bits@ =~= logic_bits(pins@, input_threshold));
        bits_to_usize(&bits)
    }

    /// Drives `value` onto the pins, lowest bit first, each pin `High` for a set bit and
    /// `Low` otherwise. Returns true when bits of `value` remain above the last pin.
    pub fn write(pins: &mut Vec<Pin>, value: usize) -> (overflow: bool)
        ensures
            final(pins)@ == written(
                old(pins)@,
                Seq::new(old(pins)@.len(), |i: int| i as usize),
                value as nat,
            ),
            overflow == (shifted(value as nat, old(pins)@.len()) > 0),
    {
        let n = pins.len();
        let ids: Ghost<Seq<usize>> = Ghost(Seq::new(n as nat, |i: int| i as usize));
        let mut rest: usize = value;
        let mut i: usize = 0;
        assert(ids@.subrange(0, n as int) =~= ids@);
        while i < n
            invariant
                n == pins@.len() == old(pins)@.len(),
                i <= n,
                ids@ == Seq::new(n as nat, |k: int| k as usize),
                rest == shifted(value as nat, i as nat),
                written(old(pins)@, ids@, value as nat) == written(
                    pins@,
                    ids@.subrange(i as int, n as int),
                    rest as nat,
                ),
            decreases n - i,
        {
            proof {
                lemma_shifted_step(value as nat, i as nat);
                assert(ids@.subrange(i as int, n as int).drop_first() =~= ids@.subrange(
                    i + 1,
                    n as int,
                ));
            }
            let t = pins[i].pin_type;
            pins.set(i, Pin { pin_type: t, state: State::from_bool(rest % 2 == 1) });
            rest = rest / 2;
            i = i + 1;
        }
        assert(ids@.subrange(n as int, n as int).len() == 0);
        rest > 0
    }
}

/// Reads the pins of `pins` at `ids` as an unsigned number, lowest first, each by its logic
/// level at `threshold` millivolts.
pub fn read_at(pins: &Vec<Pin>, ids: &[usize], threshold: i32) -> (r: usize)
    requires
        ids@.len() <= usize::BITS,
        forall|i: int| 0 <= i < ids@.len() ==> ids@[i] < pins@.len(),
    ensures
        r == bits_value(logic_bits(pins_at(pins@, ids@), threshold)),
{
    let mut bits: Vec<bool> = Vec::new();
    let mut i: usize = 0;
    while i < ids.len()
        invariant
            i <= ids@.len(),
            forall|k: int| 0 <= k < ids@.len() ==> ids@[k] < pins@.len(),
            bits@ =~= logic_bits(pins_at(pins@, ids@), threshold).subrange(0, i as int),
        decreases ids@.len() - i,
    {
        let l = pins[ids[i]].state.as_logic(threshold);
        bits.push(l == State::High);
        i = i + 1;
    }
    assert(bits@ =~= logic_bits(pins_at(pins@, ids@), threshold));
    bits_to_usize(&bits)
}

/// Drives `value` onto the pins of `pins` at `ids`, lowest bit first. Returns true when
/// bits of `value` remain above the last of them.
pub fn write_at(pins: &mut Vec<Pin>, ids: &[usize], value: usize) -> (overflow: bool)
    requires
        forall|i: int| 0 <= i < ids@.len() ==> ids@[i] < old(pins)@.len(),
    ensures
        final(pins)@ == written(old(pins)@, ids@, value as nat),
        final(pins)@.len() == old(pins)@.len(),
        overflow == (shifted(value as nat, ids@.len()) > 0),
{
    let n = ids.len();
    let mut rest: usize = value;
    let mut i: usize = 0;
    assert(ids@.subrange(0, n as int) =~= ids@);
    while i < n
        invariant
            n == ids@.len(),
            pins@.len() == old(pins)@.len(),
            forall|k: int| 0 <= k < ids@.len() ==> ids@[k] < old(pins)@.len(),
            i <= n,
            rest == shifted(value as nat, i as nat),
            written(old(pins)@, ids@, value as nat) == written(
                pins@,
                ids@.subrange(i as int, n as int),
                rest as nat,
            ),
        decreases n - i,
    {
        proof {
            lemma_shifted_step(value as nat, i as nat);
            assert(ids@.subrange(i as int, n as int).drop_first() =~= ids@.subrange(
                i + 1,
                n as int,
            ));
        }
        let id = ids[i];
        let t = pins[id].pin_type;
        pins.set(id, Pin { pin_type: t, state: State::from_bool(rest % 2 == 1) });
        rest = rest / 2;
        i = i + 1;
    }
    assert(ids@.subrange(n as int, n as int).len() == 0);
    rest > 0
}

/// `id` numbers a pin of a chip whose pins are `pins` (position 0 holds no pin).
pub open spec fn has_pin(pins: Seq<Pin>, id: int) -> bool {
    1 <= id < pins.len()
}

/// The directions of the pins.
pub open spec fn pin_types(pins: Seq<Pin>) -> Seq<PinType> {
    pins.map_values(|p: Pin| p.pin_type)
}

/// How a chip advances by one tick.
pub trait ChipRunner: Sized {
    /// The chip's internal invariant.
    spec fn wf(&self) -> bool;

    /// A tick of `tick_ns` nanoseconds may take `self` to `next`.
    spec fn runs_to(&self, tick_ns: u64, next: &Self) -> bool;

    fn run(&mut self, tick_ns: u64)
        requires
            old(self).wf(),
        ensures
            final(self).wf(),
            old(self).runs_to(tick_ns, &*final(self)),
    ;
}

/// A chip: numbered pins and a behaviour on each tick.
pub trait Chip: ChipRunner {
    /// The pins, indexed by pin number; position 0 holds no pin.
    spec fn pins_view(&self) -> Seq<Pin>;

    /// `other` is `self` with possibly different pin levels: same kind, same internal state,
    /// same pin directions.
    spec fn same_but_levels(&self, other: &Self) -> bool;

    proof fn lemma_same_but_levels(a: &Self, b: &Self, c: &Self)
        ensures
            a.same_but_levels(a),
            a.same_but_levels(b) && b.same_but_levels(c) ==> a.same_but_levels(c),
    ;

    /// The largest pin number plus one.
    fn pin_count(&self) -> (r: usize)
        requires
            self.wf(),
        ensures
            r == self.pins_view().len(),
    ;

    fn get_pin(&self, pin: PinId) -> (r: Option<Pin>)
        requires
            self.wf(),
        ensures
            r == (if has_pin(self.pins_view(), pin as int) {
                Some(self.pins_view()[pin as int])
            } else {
                None
            }),
    ;

    /// Sets the level of pin `pin`, leaving its direction.
    fn set_pin_state(&mut self, pin: PinId, state: State)
        requires
            old(self).wf(),
            has_pin(old(self).pins_view(), pin as int),
        ensures
            final(self).wf(),
            final(self).pins_view() == old(self).pins_view().update(
                pin as int,
                Pin { pin_type: old(self).pins_view()[pin as int].pin_type, state },
            ),
            old(self).same_but_levels(&*final(self)),
    ;

    /// Every pin with its number, by increasing number.
    fn list_pins(&self) -> (r: Vec<(PinId, Pin)>)
        requires
            self.wf(),
        ensures
            r@.len() + 1 == self.pins_view().len(),
            forall|i: int|
                0 <= i < r@.len() ==> #[trigger] r@[i] == (
                (i + 1) as usize,
                self.pins_view()[i + 1],
            ),
    ;
}

/// Builds a chip in its initial state.
pub trait ChipBuilder<C: ChipRunner> {
    fn build() -> (r: C)
        ensures
            r.wf(),
    ;
}

/// The pin numbered `id`, if the chip has one.
pub open spec fn pin_lookup(pins: Seq<Pin>, id: usize) -> Option<Pin> {
    if has_pin(pins, id as int) {
        Some(pins[id as int])
    } else {
        None
    }
}

/// `pins` with the level of pin `i` set to `s`, its direction kept.
pub open spec fn set_state_at(pins: Seq<Pin>, i: int, s: State) -> Seq<Pin> {
    pins.update(i, Pin { pin_type: pins[i].pin_type, state: s })
}

/// One of the first `n` entries of `ids` is `j`.
pub open spec fn listed(ids: Seq<usize>, n: int, j: int) -> bool {
    exists|k: int| 0 <= k < n && #[trigger] ids[k] as int == j
}

/// `pins` with the direction of each pin at `ids` set to `t`, its level kept.
pub open spec fn set_types_at(pins: Seq<Pin>, ids: Seq<usize>, t: PinType) -> Seq<Pin> {
    Seq::new(
        pins.len(),
        |i: int|
            if listed(ids, ids.len() as int, i) {
                Pin { pin_type: t, state: pins[i].state }
            } else {
                pins[i]
            },
    )
}

/// Pin `i` reads `High` at `threshold` millivolts.
pub open spec fn high_at(pins: Seq<Pin>, i: int, threshold: i32) -> bool {
    logic_of(pins[i].state, threshold) is High
}

/// Pins of the given directions, all at `Undefined`.
pub open spec fn fresh_pins(types: Seq<PinType>) -> Seq<Pin> {
    types.map_values(|t: PinType| Pin { pin_type: t, state: State::Undefined })
}

/// Fresh pins of the given directions, all at `Undefined`.
pub fn pins_from_types(types: &[PinType]) -> (r: Vec<Pin>)
    ensures
        r@ == fresh_pins(types@),
{
    let mut r: Vec<Pin> = Vec::new();
    let mut i: usize = 0;
    while i < types.len()
        invariant
            i <= types@.len(),
            r@ =~= types@.subrange(0, i as int).map_values(
                |t: PinType| Pin { pin_type: t, state: State::Undefined },
            ),
        decreases types@.len() - i,
    {
        r.push(Pin::from_type(types[i]));
        i = i + 1;
    }
    assert(types@.subrange(0, i as int) =~= types@);
    r
}

pub fn get_pin_in(pins: &Vec<Pin>, pin: PinId) -> (r: Option<Pin>)
    ensures
        r == pin_lookup(pins@, pin),
{
    if 1 <= pin && pin < pins.len() {
        Some(pins[pin])
    } else {
        None
    }
}

pub fn set_state_in(pins: &mut Vec<Pin>, pin: usize, state: State)
    requires
        pin < old(pins)@.len(),
    ensures
        final(pins)@ == set_state_at(old(pins)@, pin as int, state),
{
    let t = pins[pin].pin_type;
    pins.set(pin, Pin { pin_type: t, state });
}

pub fn set_types_in(pins: &mut Vec<Pin>, ids: &[usize], t: PinType)
    requires
        forall|i: int| 0 <= i < ids@.len() ==> ids@[i] < old(pins)@.len(),
    ensures
        final(pins)@ == set_types_at(old(pins)@, ids@, t),
{
    let ghost start = pins@;
    let mut i: usize = 0;
    while i < ids.len()
        invariant
            i <= ids@.len(),
            pins@.len() == start.len(),
            forall|k: int| 0 <= k < ids@.len() ==> ids@[k] < start.len(),
            forall|j: int|
                0 <= j < start.len() ==> #[trigger] pins@[j] == (if listed(ids@, i as int, j) {
                    Pin { pin_type: t, state: start[j].state }
                } else {
                    start[j]
                }),
        decreases ids@.len() - i,
    {
        let id = ids[i];
        let st = pins[id].state;
        pins.set(id, Pin { pin_type: t, state: st });
        proof {
            assert forall|j: int| 0 <= j < start.len() implies listed(ids@, i + 1, j) == (listed(
                ids@,
                i as int,
                j,
            ) || j == id) by {
                if j == id {
                    assert(ids@[i as int] as int == j);
                }
                if listed(ids@, i as int, j) {
                    let k = choose|k: int| 0 <= k < i && #[trigger] ids@[k] as int == j;
                    assert(0 <= k < i + 1 && ids@[k] as int == j);
                }
            }
        }
        i = i + 1;
    }
    assert(pins@ =~= set_types_at(start, ids@, t));
}

pub fn list_pins_in(pins: &Vec<Pin>) -> (r: Vec<(PinId, Pin)>)
    requires
        pins@.len() >= 1,
    ensures
        r@.len() + 1 == pins@.len(),
        forall|i: int| 0 <= i < r@.len() ==> #[trigger] r@[i] == ((i + 1) as usize, pins@[i + 1]),
{
    let mut r: Vec<(PinId, Pin)> = Vec::new();
    let mut i: usize = 1;
    while i < pins.len()
        invariant
            1 <= i <= pins@.len(),
            r@.len() + 1 == i,
            forall|k: int| 0 <= k < r@.len() ==> #[trigger] r@[k] == ((k + 1) as usize, pins@[k + 1]),
        decreases pins@.len() - i,
    {
        r.push((i, pins[i]));
        i = i + 1;
    }
    r
}

/// Whether pin `i` reads `High` at `threshold` millivolts.
pub fn is_high_in(pins: &Vec<Pin>, i: usize, threshold: i32) -> (r: bool)
    requires
        i < pins@.len(),
    ensures
        r == high_at(pins@, i as int, threshold),
{
    pins[i].state.as_logic(threshold) == State::High
}

/// Driving a bus leaves every pin off the bus as it was.
pub proof fn lemma_written_other(pins: Seq<Pin>, ids: Seq<usize>, value: nat, j: int)
    requires
        valid_ids(pins, ids),
        0 <= j < pins.len(),
        forall|k: int| 0 <= k < ids.len() ==> ids[k] != j,
    ensures
        written(pins, ids, value).len() == pins.len(),
        written(pins, ids, value)[j] == pins[j],
    decreases ids.len(),
{
    if ids.len() > 0 {
        let id = ids[0] as int;
        let head_set = pins.update(id, Pin { pin_type: pins[id].pin_type, state: level_of(value % 2 == 1) });
        assert(valid_ids(head_set, ids.drop_first())) by {
            assert forall|a: int, b: int|
                0 <= a < b < ids.drop_first().len() implies ids.drop_first()[a] != ids.drop_first()[b] by {
                assert(ids.drop_first()[a] == ids[a + 1] && ids.drop_first()[b] == ids[b + 1]);
            }
        }
        assert forall|k: int| 0 <= k < ids.drop_first().len() implies ids.drop_first()[k] != j by {
            assert(ids.drop_first()[k] == ids[k + 1]);
        }
        lemma_written_other(head_set, ids.drop_first(), value / 2, j);
    }
}

/// Driving a bus changes no pin's direction.
pub proof fn lemma_written_types(pins: Seq<Pin>, ids: Seq<usize>, value: nat)
    requires
        forall|k: int| 0 <= k < ids.len() ==> ids[k] < pins.len(),
    ensures
        pin_types(written(pins, ids, value)) == pin_types(pins),
    decreases ids.len(),
{
    if ids.len() > 0 {
        let id = ids[0] as int;
        let head_set = pins.update(id, Pin { pin_type: pins[id].pin_type, state: level_of(value % 2 == 1) });
        assert forall|k: int| 0 <= k < ids.drop_first().len() implies ids.drop_first()[k]
            < head_set.len() by {
            assert(ids.drop_first()[k] == ids[k + 1]);
        }
        lemma_written_types(head_set, ids.drop_first(), value / 2);
        assert(pin_types(head_set) =~= pin_types(pins));
    }
}

/// Reading back a bus just driven with `value` gives `value` modulo two to the bus width.
pub proof fn lemma_read_written(pins: Seq<Pin>, ids: Seq<usize>, value: nat, threshold: i32)
    requires
        valid_ids(pins, ids),
        threshold > 0,
    ensures
        bits_value(logic_bits(pins_at(written(pins, ids, value), ids), threshold)) == value % pow2(
            ids.len(),
        ),
    decreases ids.len(),
{
    if ids.len() == 0 {
        vstd::arithmetic::power2::lemma_pow2_pos(0);
        assert(pow2(0) == 1) by {
            vstd::arithmetic::power2::lemma2_to64();
        }
        assert(logic_bits(pins_at(written(pins, ids, value), ids), threshold) =~= Seq::<
            bool,
        >::empty());
    } else {
        let id = ids[0] as int;
        let rest = ids.drop_first();
        let head_set = pins.update(id, Pin { pin_type: pins[id].pin_type, state: level_of(value % 2 == 1) });
        assert(valid_ids(head_set, rest)) by {
            assert forall|a: int, b: int| 0 <= a < b < rest.len() implies rest[a] != rest[b] by {
                assert(rest[a] == ids[a + 1] && rest[b] == ids[b + 1]);
            }
        }
        assert forall|k: int| 0 <= k < rest.len() implies rest[k] != id by {
            assert(rest[k] == ids[k + 1]);
        }
        lemma_read_written(head_set, rest, value / 2, threshold);
        lemma_written_other(head_set, rest, value / 2, id);
        let w = written(pins, ids, value);
        assert(w == written(head_set, rest, value / 2));
        let bits = logic_bits(pins_at(w, ids), threshold);
        assert(bits.drop_first() =~= logic_bits(pins_at(w, rest), threshold));
        assert(bits[0] == (value % 2 == 1));
        lemma_pow2_unfold(ids.len());
        vstd::arithmetic::power2::lemma_pow2_pos((ids.len() - 1) as nat);
        vstd::arithmetic::div_mod::lemma_mod_breakdown(
            value as int,
            2,
            pow2((ids.len() - 1) as nat) as int,
        );
    }
}

/// The chips that can sit on a board.
pub enum ChipSet {
    AndGate(gates::AndGate),
    ThreeInputAndGate(gates::ThreeInputAndGate),
    NandGate(gates::NandGate),
    ThreeInputNandGate(gates::ThreeInputNandGate),
    OrGate(gates::OrGate),
    ThreeInputOrGate(gates::ThreeInputOrGate),
    NorGate(gates::NorGate),
    ThreeInputNorGate(gates::ThreeInputNorGate),
    NotGate(gates::NotGate),
    Generator(generators::Generator),
    Clock(clocks::Clock),
    Ram256B(memories::Ram256B),
    Ram8KB(memories::Ram8KB),
    Rom256B(memories::Rom256B),
    Rom8KB(memories::Rom8KB),
    Button(inputs::Button),
    Nes6502(Box<cpu::nes6502::Nes6502>),
    SevenSegmentDecoder(outputs::SevenSegmentsDecoder),
    SegmentDisplay(outputs::SegmentDisplay),
}

impl ChipRunner for ChipSet {
    open spec fn wf(&self) -> bool {
        match self {
            ChipSet::AndGate(c) => c.wf(),
            ChipSet::ThreeInputAndGate(c) => c.wf(),
            ChipSet::NandGate(c) => c.wf(),
            ChipSet::ThreeInputNandGate(c) => c.wf(),
            ChipSet::OrGate(c) => c.wf(),
            ChipSet::ThreeInputOrGate(c) => c.wf(),
            ChipSet::NorGate(c) => c.wf(),
            ChipSet::ThreeInputNorGate(c) => c.wf(),
            ChipSet::NotGate(c) => c.wf(),
            ChipSet::Generator(c) => c.wf(),
            ChipSet::Clock(c) => c.wf(),
            ChipSet::Ram256B(c) => c.wf(),
            ChipSet::Ram8KB(c) => c.wf(),
            ChipSet::Rom256B(c) => c.wf(),
            ChipSet::Rom8KB(c) => c.wf(),
            ChipSet::Button(c) => c.wf(),
            ChipSet::Nes6502(c) => c.wf(),
            ChipSet::SevenSegmentDecoder(c) => c.wf(),
            ChipSet::SegmentDisplay(c) => c.wf(),
        }
    }

    open spec fn runs_to(&self, tick_ns: u64, next: &Self) -> bool {
        match (self, next) {
            (ChipSet::AndGate(a), ChipSet::AndGate(b)) => a.runs_to(tick_ns, b),
            (ChipSet::ThreeInputAndGate(a), ChipSet::ThreeInputAndGate(b)) => a.runs_to(tick_ns, b),
            (ChipSet::NandGate(a), ChipSet::NandGate(b)) => a.runs_to(tick_ns, b),
            (ChipSet::ThreeInputNandGate(a), ChipSet::ThreeInputNandGate(b)) => a.runs_to(tick_ns, b),
            (ChipSet::OrGate(a), ChipSet::OrGate(b)) => a.runs_to(tick_ns, b),
            (ChipSet::ThreeInputOrGate(a), ChipSet::ThreeInputOrGate(b)) => a.runs_to(tick_ns, b),
            (ChipSet::NorGate(a), ChipSet::NorGate(b)) => a.runs_to(tick_ns, b),
            (ChipSet::ThreeInputNorGate(a), ChipSet::ThreeInputNorGate(b)) => a.runs_to(tick_ns, b),
            (ChipSet::NotGate(a), ChipSet::NotGate(b)) => a.runs_to(tick_ns, b),
            (ChipSet::Generator(a), ChipSet::Generator(b)) => a.runs_to(tick_ns, b),
            (ChipSet::Clock(a), ChipSet::Clock(b)) => a.runs_to(tick_ns, b),
            (ChipSet::Ram256B(a), ChipSet::Ram256B(b)) => a.runs_to(tick_ns, b),
            (ChipSet::Ram8KB(a), ChipSet::Ram8KB(b)) => a.runs_to(tick_ns, b),
            (ChipSet::Rom256B(a), ChipSet::Rom256B(b)) => a.runs_to(tick_ns, b),
            (ChipSet::Rom8KB(a), ChipSet::Rom8KB(b)) => a.runs_to(tick_ns, b),
            (ChipSet::Button(a), ChipSet::Button(b)) => a.runs_to(tick_ns, b),
            (ChipSet::Nes6502(a), ChipSet::Nes6502(b)) => a.runs_to(tick_ns, b),
            (ChipSet::SevenSegmentDecoder(a), ChipSet::SevenSegmentDecoder(b)) => a.runs_to(tick_ns, b),
            (ChipSet::SegmentDisplay(a), ChipSet::SegmentDisplay(b)) => a.runs_to(tick_ns, b),
            _ => false,
        }
    }

    fn run(&mut self, tick_ns: u64) {
        match self {
            ChipSet::AndGate(c) => c.run(tick_ns),
            ChipSet::ThreeInputAndGate(c) => c.run(tick_ns),
            ChipSet::NandGate(c) => c.run(tick_ns),
            ChipSet::ThreeInputNandGate(c) => c.run(tick_ns),
            ChipSet::OrGate(c) => c.run(tick_ns),
            ChipSet::ThreeInputOrGate(c) => c.run(tick_ns),
            ChipSet::NorGate(c) => c.run(tick_ns),
            ChipSet::ThreeInputNorGate(c) => c.run(tick_ns),
            ChipSet::NotGate(c) => c.run(tick_ns),
            ChipSet::Generator(c) => c.run(tick_ns),
            ChipSet::Clock(c) => c.run(tick_ns),
            ChipSet::Ram256B(c) => c.run(tick_ns),
            ChipSet::Ram8KB(c) => c.run(tick_ns),
            ChipSet::Rom256B(c) => c.run(tick_ns),
            ChipSet::Rom8KB(c) => c.run(tick_ns),
            ChipSet::Button(c) => c.run(tick_ns),
            ChipSet::Nes6502(c) => c.run(tick_ns),
            ChipSet::SevenSegmentDecoder(c) => c.run(tick_ns),
            ChipSet::SegmentDisplay(c) => c.run(tick_ns),
        }
    }
}

impl Chip for ChipSet {
    open spec fn pins_view(&self) -> Seq<Pin> {
        match self {
            ChipSet::AndGate(c) => c.pins_view(),
            ChipSet::ThreeInputAndGate(c) => c.pins_view(),
            ChipSet::NandGate(c) => c.pins_view(),
            ChipSet::ThreeInputNandGate(c) => c.pins_view(),
            ChipSet::OrGate(c) => c.pins_view(),
            ChipSet::ThreeInputOrGate(c) => c.pins_view(),
            ChipSet::NorGate(c) => c.pins_view(),
            ChipSet::ThreeInputNorGate(c) => c.pins_view(),
            ChipSet::NotGate(c) => c.pins_view(),
            ChipSet::Generator(c) => c.pins_view(),
            ChipSet::Clock(c) => c.pins_view(),
            ChipSet::Ram256B(c) => c.pins_view(),
            ChipSet::Ram8KB(c) => c.pins_view(),
            ChipSet::Rom256B(c) => c.pins_view(),
            ChipSet::Rom8KB(c) => c.pins_view(),
            ChipSet::Button(c) => c.pins_view(),
            ChipSet::Nes6502(c) => c.pins_view(),
            ChipSet::SevenSegmentDecoder(c) => c.pins_view(),
            ChipSet::SegmentDisplay(c) => c.pins_view(),
        }
    }

    open spec fn same_but_levels(&self, other: &Self) -> bool {
        match (self, other) {
            (ChipSet::AndGate(a), ChipSet::AndGate(b)) => a.same_but_levels(b),
            (ChipSet::ThreeInputAndGate(a), ChipSet::ThreeInputAndGate(b)) => a.same_but_levels(b),
            (ChipSet::NandGate(a), ChipSet::NandGate(b)) => a.same_but_levels(b),
            (ChipSet::ThreeInputNandGate(a), ChipSet::ThreeInputNandGate(b)) => a.same_but_levels(b),
            (ChipSet::OrGate(a), ChipSet::OrGate(b)) => a.same_but_levels(b),
            (ChipSet::ThreeInputOrGate(a), ChipSet::ThreeInputOrGate(b)) => a.same_but_levels(b),
            (ChipSet::NorGate(a), ChipSet::NorGate(b)) => a.same_but_levels(b),
            (ChipSet::ThreeInputNorGate(a), ChipSet::ThreeInputNorGate(b)) => a.same_but_levels(b),
            (ChipSet::NotGate(a), ChipSet::NotGate(b)) => a.same_but_levels(b),
            (ChipSet::Generator(a), ChipSet::Generator(b)) => a.same_but_levels(b),
            (ChipSet::Clock(a), ChipSet::Clock(b)) => a.same_but_levels(b),
            (ChipSet::Ram256B(a), ChipSet::Ram256B(b)) => a.same_but_levels(b),
            (ChipSet::Ram8KB(a), ChipSet::Ram8KB(b)) => a.same_but_levels(b),
            (ChipSet::Rom256B(a), ChipSet::Rom256B(b)) => a.same_but_levels(b),
            (ChipSet::Rom8KB(a), ChipSet::Rom8KB(b)) => a.same_but_levels(b),
            (ChipSet::Button(a), ChipSet::Button(b)) => a.same_but_levels(b),
            (ChipSet::Nes6502(a), ChipSet::Nes6502(b)) => a.same_but_levels(b),
            (ChipSet::SevenSegmentDecoder(a), ChipSet::SevenSegmentDecoder(b)) => a.same_but_levels(b),
            (ChipSet::SegmentDisplay(a), ChipSet::SegmentDisplay(b)) => a.same_but_levels(b),
            _ => false,
        }
    }

    proof fn lemma_same_but_levels(a: &Self, b: &Self, c: &Self) {
    }

    fn pin_count(&self) -> (r: usize) {
        match self {
            ChipSet::AndGate(c) => c.pin_count(),
            ChipSet::ThreeInputAndGate(c) => c.pin_count(),
            ChipSet::NandGate(c) => c.pin_count(),
            ChipSet::ThreeInputNandGate(c) => c.pin_count(),
            ChipSet::OrGate(c) => c.pin_count(),
            ChipSet::ThreeInputOrGate(c) => c.pin_count(),
            ChipSet::NorGate(c) => c.pin_count(),
            ChipSet::ThreeInputNorGate(c) => c.pin_count(),
            ChipSet::NotGate(c) => c.pin_count(),
            ChipSet::Generator(c) => c.pin_count(),
            ChipSet::Clock(c) => c.pin_count(),
            ChipSet::Ram256B(c) => c.pin_count(),
            ChipSet::Ram8KB(c) => c.pin_count(),
            ChipSet::Rom256B(c) => c.pin_count(),
            ChipSet::Rom8KB(c) => c.pin_count(),
            ChipSet::Button(c) => c.pin_count(),
            ChipSet::Nes6502(c) => c.pin_count(),
            ChipSet::SevenSegmentDecoder(c) => c.pin_count(),
            ChipSet::SegmentDisplay(c) => c.pin_count(),
        }
    }

    fn get_pin(&self, pin: PinId) -> (r: Option<Pin>) {
        match self {
            ChipSet::AndGate(c) => c.get_pin(pin),
            ChipSet::ThreeInputAndGate(c) => c.get_pin(pin),
            ChipSet::NandGate(c) => c.get_pin(pin),
            ChipSet::ThreeInputNandGate(c) => c.get_pin(pin),
            ChipSet::OrGate(c) => c.get_pin(pin),
            ChipSet::ThreeInputOrGate(c) => c.get_pin(pin),
            ChipSet::NorGate(c) => c.get_pin(pin),
            ChipSet::ThreeInputNorGate(c) => c.get_pin(pin),
            ChipSet::NotGate(c) => c.get_pin(pin),
            ChipSet::Generator(c) => c.get_pin(pin),
            ChipSet::Clock(c) => c.get_pin(pin),
            ChipSet::Ram256B(c) => c.get_pin(pin),
            ChipSet::Ram8KB(c) => c.get_pin(pin),
            ChipSet::Rom256B(c) => c.get_pin(pin),
            ChipSet::Rom8KB(c) => c.get_pin(pin),
            ChipSet::Button(c) => c.get_pin(pin),
            ChipSet::Nes6502(c) => c.get_pin(pin),
            ChipSet::SevenSegmentDecoder(c) => c.get_pin(pin),
            ChipSet::SegmentDisplay(c) => c.get_pin(pin),
        }
    }

    fn set_pin_state(&mut self, pin: PinId, state: State) {
        match self {
            ChipSet::AndGate(c) => c.set_pin_state(pin, state),
            ChipSet::ThreeInputAndGate(c) => c.set_pin_state(pin, state),
            ChipSet::NandGate(c) => c.set_pin_state(pin, state),
            ChipSet::ThreeInputNandGate(c) => c.set_pin_state(pin, state),
            ChipSet::OrGate(c) => c.set_pin_state(pin, state),
            ChipSet::ThreeInputOrGate(c) => c.set_pin_state(pin, state),
            ChipSet::NorGate(c) => c.set_pin_state(pin, state),
            ChipSet::ThreeInputNorGate(c) => c.set_pin_state(pin, state),
            ChipSet::NotGate(c) => c.set_pin_state(pin, state),
            ChipSet::Generator(c) => c.set_pin_state(pin, state),
            ChipSet::Clock(c) => c.set_pin_state(pin, state),
            ChipSet::Ram256B(c) => c.set_pin_state(pin, state),
            ChipSet::Ram8KB(c) => c.set_pin_state(pin, state),
            ChipSet::Rom256B(c) => c.set_pin_state(pin, state),
            ChipSet::Rom8KB(c) => c.set_pin_state(pin, state),
            ChipSet::Button(c) => c.set_pin_state(pin, state),
            ChipSet::Nes6502(c) => c.set_pin_state(pin, state),
            ChipSet::SevenSegmentDecoder(c) => c.set_pin_state(pin, state),
            ChipSet::SegmentDisplay(c) => c.set_pin_state(pin, state),
        }
    }

    fn list_pins(&self) -> (r: Vec<(PinId, Pin)>) {
        match self {
            ChipSet::AndGate(c) => c.list_pins(),
            ChipSet::ThreeInputAndGate(c) => c.list_pins(),
            ChipSet::NandGate(c) => c.list_pins(),
            ChipSet::ThreeInputNandGate(c) => c.list_pins(),
            ChipSet::OrGate(c) => c.list_pins(),
            ChipSet::ThreeInputOrGate(c) => c.list_pins(),
            ChipSet::NorGate(c) => c.list_pins(),
            ChipSet::ThreeInputNorGate(c) => c.list_pins(),
            ChipSet::NotGate(c) => c.list_pins(),
            ChipSet::Generator(c) => c.list_pins(),
            ChipSet::Clock(c) => c.list_pins(),
            ChipSet::Ram256B(c) => c.list_pins(),
            ChipSet::Ram8KB(c) => c.list_pins(),
            ChipSet::Rom256B(c) => c.list_pins(),
            ChipSet::Rom8KB(c) => c.list_pins(),
            ChipSet::Button(c) => c.list_pins(),
            ChipSet::Nes6502(c) => c.list_pins(),
            ChipSet::SevenSegmentDecoder(c) => c.list_pins(),
            ChipSet::SegmentDisplay(c) => c.list_pins(),
        }
    }
}

} // verus!
