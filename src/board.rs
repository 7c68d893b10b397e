//! Boards: chips wired together by traces, advanced one tick at a time.
use vstd::prelude::*;

use crate::chip::{has_pin, Chip, ChipRunner, Pin, PinId, PinType};
use crate::utilities::{Id, Storage};
use crate::{feed, State};

verus! {

/// The pins of every chip slot of a board, `None` for a removed chip.
pub type BoardPins = Seq<Option<Seq<Pin>>>;

/// An endpoint of a trace: a chip slot and a pin number.
pub type Endpoint = (nat, usize);

pub open spec fn board_pins<C: Chip>(chips: Seq<Option<C>>) -> BoardPins {
    chips.map_values(
        |c: Option<C>|
            match c {
                Some(c) => Some(c.pins_view()),
                None => None,
            },
    )
}

/// Every present chip is well formed.
pub open spec fn all_wf<C: Chip>(chips: Seq<Option<C>>) -> bool {
    forall|i: int| 0 <= i < chips.len() && #[trigger] chips[i] is Some ==> chips[i]->Some_0.wf()
}

/// `b` holds the chips of `a`, in the same slots, with possibly different pin levels.
pub open spec fn same_chips<C: Chip>(a: Seq<Option<C>>, b: Seq<Option<C>>) -> bool {
    &&& a.len() == b.len()
    &&& forall|i: int|
        0 <= i < a.len() ==> (#[trigger] a[i] is Some <==> b[i] is Some) && (a[i] is Some
            ==> a[i]->Some_0.same_but_levels(&b[i]->Some_0))
}

/// The pin at an endpoint, if the chip and the pin exist.
pub open spec fn endpoint_pin(b: BoardPins, chip: nat, pin: usize) -> Option<Pin> {
    if chip < b.len() && b[chip as int] is Some && has_pin(b[chip as int]->Some_0, pin as int) {
        Some(b[chip as int]->Some_0[pin as int])
    } else {
        None
    }
}

/// The level that the output endpoints among `eps` put on their wire.
pub open spec fn bus_level(b: BoardPins, eps: Seq<Endpoint>) -> State
    decreases eps.len(),
{
    if eps.len() == 0 {
        State::Undefined
    } else {
        let acc = bus_level(b, eps.drop_last());
        let e = eps.last();
        match endpoint_pin(b, e.0, e.1) {
            Some(p) => if p.pin_type is Output {
                feed(acc, p.state)
            } else {
                acc
            },
            None => acc,
        }
    }
}

/// `b` with the level of one existing pin replaced.
pub open spec fn set_level(b: BoardPins, chip: nat, pin: usize, s: State) -> BoardPins {
    let pins = b[chip as int]->Some_0;
    b.update(
        chip as int,
        Some(pins.update(pin as int, Pin { pin_type: pins[pin as int].pin_type, state: s })),
    )
}

/// `b` after `level` is fed into every input endpoint among `eps`.
pub open spec fn distribute(b: BoardPins, eps: Seq<Endpoint>, level: State) -> BoardPins
    decreases eps.len(),
{
    if eps.len() == 0 {
        b
    } else {
        let b1 = distribute(b, eps.drop_last(), level);
        let e = eps.last();
        match endpoint_pin(b1, e.0, e.1) {
            Some(p) => if p.pin_type is Input {
                set_level(b1, e.0, e.1, feed(p.state, level))
            } else {
                b1
            },
            None => b1,
        }
    }
}

/// One trace resolved: its bus level is computed, then handed to its inputs.
pub open spec fn resolve(b: BoardPins, eps: Seq<Endpoint>) -> BoardPins {
    distribute(b, eps, bus_level(b, eps))
}

/// Every trace resolved, in order.
pub open spec fn resolve_all(b: BoardPins, traces: Seq<Option<Seq<Endpoint>>>) -> BoardPins
    decreases traces.len(),
{
    if traces.len() == 0 {
        b
    } else {
        let b1 = resolve_all(b, traces.drop_last());
        match traces.last() {
            Some(eps) => resolve(b1, eps),
            None => b1,
        }
    }
}

/// A chip's pins with every input back at `Undefined`.
pub open spec fn reset_chip_inputs(pins: Seq<Pin>) -> Seq<Pin> {
    Seq::new(
        pins.len(),
        |i: int|
            if i >= 1 && pins[i].pin_type is Input {
                Pin { pin_type: PinType::Input, state: State::Undefined }
            } else {
                pins[i]
            },
    )
}

pub open spec fn reset_inputs(b: BoardPins) -> BoardPins {
    b.map_values(
        |c: Option<Seq<Pin>>|
            match c {
                Some(p) => Some(reset_chip_inputs(p)),
                None => None,
            },
    )
}

/// The pins of a board at the start of a tick, after its inputs are cleared and its traces
/// resolved, before its chips run.
pub open spec fn settle(b: BoardPins, traces: Seq<Option<Seq<Endpoint>>>) -> BoardPins {
    resolve_all(reset_inputs(b), traces)
}

/// No endpoint appears twice.
pub open spec fn distinct_endpoints(eps: Seq<Endpoint>) -> bool {
    forall|i: int, j: int| 0 <= i < j < eps.len() ==> eps[i] != eps[j]
}

/// A wire: an ordered list of chip pins.
pub struct Trace<C> {
    pins: Vec<(Id<C>, PinId)>,
}

impl<C> View for Trace<C> {
    type V = Seq<Endpoint>;

    closed spec fn view(&self) -> Seq<Endpoint> {
        self.pins@.map_values(|e: (Id<C>, PinId)| (e.0.slot(), e.1))
    }
}

impl<C> Trace<C> {
    pub fn new() -> (r: Trace<C>)
        ensures
            r@ == Seq::<Endpoint>::empty(),
    {
        let r = Trace { pins: Vec::new() };
        assert(r@ =~= Seq::<Endpoint>::empty());
        r
    }

    /// A trace through the given pins, in that order; no pin may be listed twice.
    pub fn from_endpoints(pins: Vec<(Id<C>, PinId)>) -> (r: Trace<C>)
        requires
            distinct_endpoints(pins@.map_values(|e: (Id<C>, PinId)| (e.0.slot(), e.1))),
        ensures
            r@ == pins@.map_values(|e: (Id<C>, PinId)| (e.0.slot(), e.1)),
    {
        Trace { pins }
    }

    /// Adds a pin to the trace unless it is already on it.
    pub fn connect(&mut self, chip: Id<C>, pin: PinId)
        ensures
            distinct_endpoints(old(self)@) ==> distinct_endpoints(final(self)@),
            final(self)@ == (if old(self)@.contains((chip.slot(), pin)) {
                old(self)@
            } else {
                old(self)@.push((chip.slot(), pin))
            }),
    {
        let mut i: usize = 0;
        while i < self.pins.len()
            invariant
                i <= self@.len(),
                self@.len() == self.pins@.len(),
                forall|k: int| 0 <= k < i ==> self@[k] != (chip.slot(), pin),
            decreases self@.len() - i,
        {
            if self.pins[i].0.index() == chip.index() && self.pins[i].1 == pin {
                assert(self@[i as int] == (chip.slot(), pin));
                return;
            }
            i = i + 1;
        }
        let ghost before = self@;
        self.pins.push((chip, pin));
        assert(self@ =~= before.push((chip.slot(), pin)));
    }

    /// Removes every occurrence of the pin from the trace.
    pub fn disconnect(&mut self, chip: Id<C>, pin: PinId)
        ensures
            final(self)@ == old(self)@.filter(|e: Endpoint| e != (chip.slot(), pin)),
    {
        let ghost start = self@;
        let mut kept: Vec<(Id<C>, PinId)> = Vec::new();
        let mut i: usize = 0;
        while i < self.pins.len()
            invariant
                self@ == start,
                i <= start.len(),
                start.len() == self.pins@.len(),
                kept@.map_values(|e: (Id<C>, PinId)| (e.0.slot(), e.1)) == start.subrange(
                    0,
                    i as int,
                ).filter(|e: Endpoint| e != (chip.slot(), pin)),
            decreases start.len() - i,
        {
            let e = self.pins[i];
            let ghost kept_before = kept@;
            proof {
                reveal(Seq::filter);
                assert(start.subrange(0, i + 1).drop_last() =~= start.subrange(0, i as int));
                assert(start.subrange(0, i + 1).last() == start[i as int]);
                assert(start[i as int] == (e.0.slot(), e.1));
            }
            if !(e.0.index() == chip.index() && e.1 == pin) {
                kept.push(e);
                assert(kept@.map_values(|e: (Id<C>, PinId)| (e.0.slot(), e.1)) =~= kept_before.map_values(
                    |e: (Id<C>, PinId)| (e.0.slot(), e.1),
                ).push((e.0.slot(), e.1)));
            }
            i = i + 1;
        }
        assert(start.subrange(0, start.len() as int) =~= start);
        self.pins = kept;
    }

    /// The pins of the trace, in order.
    pub fn get_connections(&self) -> (r: &[(Id<C>, PinId)])
        ensures
            r@.map_values(|e: (Id<C>, PinId)| (e.0.slot(), e.1)) == self@,
    {
        self.pins.as_slice()
    }
}

impl<C: Chip> Trace<C> {
    /// Resolves the trace on the chips: folds the levels of its output pins into one bus
    /// level, then feeds that level into each of its input pins. Floating pins, and
    /// endpoints whose chip or pin does not exist, take no part.
    pub fn calculate_state(&self, chip_storage: &mut Storage<C>)
        requires
            all_wf(old(chip_storage)@),
        ensures
            all_wf(final(chip_storage)@),
            same_chips(old(chip_storage)@, final(chip_storage)@),
            board_pins(final(chip_storage)@) == resolve(board_pins(old(chip_storage)@), self@),
    {
        let ghost start = chip_storage@;
        let ghost b0 = board_pins(chip_storage@);
        let n = self.pins.len();
        let mut level = State::Undefined;
        let mut i: usize = 0;
        while i < n
            invariant
                n == self@.len() == self.pins@.len(),
                i <= n,
                chip_storage@ == start,
                b0 == board_pins(start),
                all_wf(start),
                level == bus_level(b0, self@.subrange(0, i as int)),
            decreases n - i,
        {
            let (cid, pid) = self.pins[i];
            proof {
                assert(self@.subrange(0, i + 1).drop_last() =~= self@.subrange(0, i as int));
                assert(self@[i as int] == (cid.slot(), pid));
            }
            if chip_storage.is_valid(&cid) {
                let chip = chip_storage.get(&cid);
                match chip.get_pin(pid) {
                    Some(p) => {
                        if p.pin_type == PinType::Output {
                            level = level.feed_state(p.state);
                        }
                    },
                    None => {},
                }
            }
            i = i + 1;
        }
        proof {
            assert(self@.subrange(0, n as int) =~= self@);
            Self::lemma_same_chips_refl(start);
        }
        let mut i: usize = 0;
        while i < n
            invariant
                n == self@.len() == self.pins@.len(),
                i <= n,
                b0 == board_pins(start),
                level == bus_level(b0, self@),
                all_wf(chip_storage@),
                same_chips(start, chip_storage@),
                board_pins(chip_storage@) == distribute(b0, self@.subrange(0, i as int), level),
            decreases n - i,
        {
            let (cid, pid) = self.pins[i];
            let ghost before = chip_storage@;
            proof {
                assert(self@.subrange(0, i + 1).drop_last() =~= self@.subrange(0, i as int));
                assert(self@[i as int] == (cid.slot(), pid));
            }
            if chip_storage.is_valid(&cid) {
                let chip = chip_storage.get_mut(&cid);
                match chip.get_pin(pid) {
                    Some(p) => {
                        if p.pin_type == PinType::Input {
                            let ghost c0 = *chip;
                            chip.set_pin_state(pid, p.state.feed_state(level));
                            proof {
                                let s = cid.slot() as int;
                                C::lemma_same_but_levels(
                                    &start[s]->Some_0,
                                    &c0,
                                    &chip_storage@[s]->Some_0,
                                );
                                assert(board_pins(chip_storage@) =~= set_level(
                                    board_pins(before),
                                    cid.slot(),
                                    pid,
                                    feed(p.state, level),
                                ));
                            }
                        } else {
                            proof {
                                assert(chip_storage@ =~= before);
                            }
                        }
                    },
                    None => {
                        proof {
                            assert(chip_storage@ =~= before);
                        }
                    },
                }
                proof {
                    assert forall|k: int|
                        0 <= k < chip_storage@.len() && #[trigger] chip_storage@[k] is Some implies chip_storage@[k]->Some_0.wf() by {
                        if k != cid.slot() {
                            assert(chip_storage@[k] == before[k]);
                        }
                    }
                    assert forall|k: int| 0 <= k < start.len() implies (#[trigger] start[k] is Some
                        <==> chip_storage@[k] is Some) && (start[k] is Some
                        ==> start[k]->Some_0.same_but_levels(&chip_storage@[k]->Some_0)) by {
                        if k != cid.slot() {
                            assert(chip_storage@[k] == before[k]);
                        }
                    }
                }
            }
            i = i + 1;
        }
        proof {
            assert(self@.subrange(0, n as int) =~= self@);
        }
    }

    proof fn lemma_same_chips_refl(a: Seq<Option<C>>)
        ensures
            same_chips(a, a),
    {
        assert forall|i: int| 0 <= i < a.len() && #[trigger] a[i] is Some implies a[i]->Some_0.same_but_levels(
            &a[i]->Some_0,
        ) by {
            C::lemma_same_but_levels(&a[i]->Some_0, &a[i]->Some_0, &a[i]->Some_0);
        }
    }
}

/// Chips and the traces that wire them, under stable handles.
pub struct Board<C> {
    chips: Storage<C>,
    traces: Storage<Trace<C>>,
}

/// `a` and `b` are alike in every present chip, up to pin levels; this is transitive.
proof fn lemma_same_chips_trans<C: Chip>(a: Seq<Option<C>>, b: Seq<Option<C>>, c: Seq<Option<C>>)
    requires
        same_chips(a, b),
        same_chips(b, c),
    ensures
        same_chips(a, c),
{
    assert forall|i: int| 0 <= i < a.len() && #[trigger] a[i] is Some implies a[i]->Some_0.same_but_levels(
        &c[i]->Some_0,
    ) by {
        C::lemma_same_but_levels(&a[i]->Some_0, &b[i]->Some_0, &c[i]->Some_0);
    }
}

/// Clears every input pin of a chip to `Undefined`.
fn reset_chip<C: Chip>(chip: &mut C)
    requires
        old(chip).wf(),
    ensures
        final(chip).wf(),
        final(chip).pins_view() == reset_chip_inputs(old(chip).pins_view()),
        old(chip).same_but_levels(&*final(chip)),
{
    let ghost start = *chip;
    proof {
        C::lemma_same_but_levels(&start, &start, &start);
    }
    let n = chip.pin_count();
    let mut i: usize = 1;
    while i < n
        invariant
            chip.wf(),
            n == chip.pins_view().len() == start.pins_view().len(),
            1 <= i,
            start.same_but_levels(&*chip),
            n > 0 ==> chip.pins_view()[0] == start.pins_view()[0],
            forall|j: int|
                1 <= j < i && j < n ==> #[trigger] chip.pins_view()[j] == reset_chip_inputs(
                    start.pins_view(),
                )[j],
            forall|j: int| i <= j < n ==> #[trigger] chip.pins_view()[j] == start.pins_view()[j],
        decreases n - i,
    {
        let p = chip.get_pin(i).unwrap();
        if p.pin_type == PinType::Input {
            let ghost c0 = *chip;
            chip.set_pin_state(i, State::Undefined);
            proof {
                C::lemma_same_but_levels(&start, &c0, &*chip);
            }
        }
        i = i + 1;
    }
    assert(chip.pins_view() =~= reset_chip_inputs(start.pins_view()));
}

impl<C: Chip> Board<C> {
    pub closed spec fn chips_view(&self) -> Seq<Option<C>> {
        self.chips@
    }

    pub closed spec fn traces_view(&self) -> Seq<Option<Seq<Endpoint>>> {
        self.traces@.map_values(
            |t: Option<Trace<C>>|
                match t {
                    Some(t) => Some(t@),
                    None => None,
                },
        )
    }

    pub open spec fn wf(&self) -> bool {
        all_wf(self.chips_view())
    }

    /// One tick of `tick_ns` nanoseconds may take `self` to `next`: the traces stay; every
    /// chip first gets the pins that `settle` gives it, then runs for the tick.
    pub open spec fn ticks_to(&self, tick_ns: u64, next: &Self) -> bool {
        let mid = settle(board_pins(self.chips_view()), self.traces_view());
        &&& next.traces_view() == self.traces_view()
        &&& next.chips_view().len() == self.chips_view().len()
        &&& forall|s: int|
            0 <= s < self.chips_view().len() ==> (#[trigger] self.chips_view()[s] is Some
                <==> next.chips_view()[s] is Some) && (self.chips_view()[s] is Some ==> exists|m: C|
                #![auto]
                m.pins_view() == mid[s]->Some_0 && self.chips_view()[s]->Some_0.same_but_levels(&m)
                    && m.runs_to(tick_ns, &next.chips_view()[s]->Some_0))
    }

    /// `n` ticks of `tick_ns` nanoseconds each may take `self` to `next`.
    pub open spec fn ticks_n_to(&self, n: nat, tick_ns: u64, next: &Self) -> bool
        decreases n,
    {
        if n == 0 {
            next.chips_view() == self.chips_view() && next.traces_view() == self.traces_view()
        } else {
            exists|m: Self|
                self.ticks_n_to((n - 1) as nat, tick_ns, &m) && #[trigger] m.ticks_to(tick_ns, next)
        }
    }

    pub fn new() -> (r: Board<C>)
        ensures
            r.chips_view() == Seq::<Option<C>>::empty(),
            r.traces_view() == Seq::<Option<Seq<Endpoint>>>::empty(),
            r.wf(),
    {
        let r = Board { chips: Storage::new(), traces: Storage::new() };
        assert(r.traces_view() =~= Seq::<Option<Seq<Endpoint>>>::empty());
        r
    }

    /// Advances the board by one tick: every input pin is cleared, every trace resolved, then
    /// every chip run, each in order of registration.
    pub fn run(&mut self, tick_ns: u64)
        requires
            old(self).wf(),
        ensures
            final(self).wf(),
            old(self).ticks_to(tick_ns, &*final(self)),
    {
        let ghost start = self.chips@;
        let ghost traces0 = self.traces_view();
        let ghost b0 = board_pins(start);
        let n = self.chips.slot_count();
        proof {
            Trace::<C>::lemma_same_chips_refl(start);
        }
        let mut s: usize = 0;
        while s < n
            invariant
                n == self.chips@.len() == start.len(),
                s <= n,
                self.traces_view() == traces0,
                b0 == board_pins(start),
                all_wf(self.chips@),
                same_chips(start, self.chips@),
                forall|j: int|
                    0 <= j < s ==> #[trigger] board_pins(self.chips@)[j] == reset_inputs(b0)[j],
                forall|j: int| s <= j < n ==> #[trigger] self.chips@[j] == start[j],
            decreases n - s,
        {
            let id: Id<C> = Id::from_index(s);
            if self.chips.is_valid(&id) {
                let ghost before = self.chips@;
                let chip = self.chips.get_mut(&id);
                reset_chip(chip);
                proof {
                    assert forall|k: int|
                        0 <= k < n && #[trigger] self.chips@[k] is Some implies self.chips@[k]->Some_0.wf() by {
                        if k != s {
                            assert(self.chips@[k] == before[k]);
                        }
                    }
                    assert forall|k: int|
                        0 <= k < n implies (#[trigger] start[k] is Some <==> self.chips@[k] is Some)
                        && (start[k] is Some ==> start[k]->Some_0.same_but_levels(
                        &self.chips@[k]->Some_0,
                    )) by {
                        if k != s {
                            assert(self.chips@[k] == before[k]);
                        }
                    }
                    assert forall|j: int| 0 <= j < s + 1 implies #[trigger] board_pins(
                        self.chips@,
                    )[j] == reset_inputs(b0)[j] by {
                        if j != s {
                            assert(self.chips@[j] == before[j]);
                            assert(board_pins(before)[j] == board_pins(self.chips@)[j]);
                        }
                    }
                }
            } else {
                proof {
                    assert(board_pins(self.chips@)[s as int] == reset_inputs(b0)[s as int]);
                }
            }
            s = s + 1;
        }
        proof {
            assert(board_pins(self.chips@) =~= reset_inputs(b0));
        }
        let ghost after_reset = self.chips@;
        let m = self.traces.slot_count();
        let mut t: usize = 0;
        while t < m
            invariant
                m == self.traces@.len() == traces0.len(),
                t <= m,
                self.traces_view() == traces0,
                n == self.chips@.len(),
                all_wf(self.chips@),
                same_chips(start, self.chips@),
                board_pins(self.chips@) == resolve_all(
                    reset_inputs(b0),
                    traces0.subrange(0, t as int),
                ),
            decreases m - t,
        {
            let tid: Id<Trace<C>> = Id::from_index(t);
            let ghost before = self.chips@;
            proof {
                assert(traces0.subrange(0, t + 1).drop_last() =~= traces0.subrange(0, t as int));
            }
            if self.traces.is_valid(&tid) {
                let trace = self.traces.get(&tid);
                trace.calculate_state(&mut self.chips);
                proof {
                    lemma_same_chips_trans(start, before, self.chips@);
                }
            }
            t = t + 1;
        }
        proof {
            assert(traces0.subrange(0, m as int) =~= traces0);
        }
        let ghost mid = self.chips@;
        let mut s: usize = 0;
        while s < n
            invariant
                n == self.chips@.len() == mid.len(),
                s <= n,
                self.traces_view() == traces0,
                all_wf(self.chips@),
                all_wf(mid),
                forall|j: int|
                    0 <= j < s ==> (#[trigger] mid[j] is Some <==> self.chips@[j] is Some) && (
                    mid[j] is Some ==> mid[j]->Some_0.runs_to(tick_ns, &self.chips@[j]->Some_0)),
                forall|j: int| s <= j < n ==> #[trigger] self.chips@[j] == mid[j],
            decreases n - s,
        {
            let id: Id<C> = Id::from_index(s);
            if self.chips.is_valid(&id) {
                let ghost before = self.chips@;
                let chip = self.chips.get_mut(&id);
                chip.run(tick_ns);
                proof {
                    assert forall|k: int|
                        0 <= k < n && #[trigger] self.chips@[k] is Some implies self.chips@[k]->Some_0.wf() by {
                        if k != s {
                            assert(self.chips@[k] == before[k]);
                        }
                    }
                }
            }
            s = s + 1;
        }
        proof {
            let settled = settle(board_pins(start), traces0);
            assert(board_pins(mid) == settled);
            assert forall|j: int| 0 <= j < n && #[trigger] start[j] is Some implies exists|c: C|
                #![auto]
                c.pins_view() == settled[j]->Some_0 && start[j]->Some_0.same_but_levels(&c)
                    && c.runs_to(tick_ns, &self.chips@[j]->Some_0) by {
                let c = mid[j]->Some_0;
                assert(board_pins(mid)[j] == Some(c.pins_view()));
            }
        }
    }

    /// Runs ticks of `step_ns` nanoseconds until at least `duration_ns` nanoseconds of
    /// simulated time have passed: `duration_ns / step_ns` ticks, rounded up.
    pub fn run_during(&mut self, duration_ns: u64, step_ns: u64)
        requires
            old(self).wf(),
            step_ns > 0 || duration_ns == 0,
        ensures
            final(self).wf(),
            old(self).ticks_n_to(
                (if duration_ns == 0 {
                    0
                } else {
                    (duration_ns - 1) / (step_ns as int) + 1
                }) as nat,
                step_ns,
                &*final(self),
            ),
    {
        let ghost start = *self;
        let mut elapsed: u64 = 0;
        let ghost mut count: nat = 0;
        while elapsed < duration_ns
            invariant
                self.wf(),
                step_ns > 0 || duration_ns == 0,
                elapsed == (if count * step_ns > u64::MAX { u64::MAX as int } else { count
                    * step_ns }),
                count > 0 ==> (count - 1) * step_ns < duration_ns,
                start.ticks_n_to(count, step_ns, &*self),
            decreases (if elapsed < duration_ns { duration_ns - elapsed } else { 0 }),
        {
            let ghost before = *self;
            self.run(step_ns);
            proof {
                assert(start.ticks_n_to(count, step_ns, &before));
                assert(before.ticks_to(step_ns, &*self));
                Self::lemma_ticks_n_step(start, before, *self, count, step_ns);
                assert((count + 1) * step_ns == count * step_ns + step_ns) by (nonlinear_arith);
                assert(count * step_ns < duration_ns) by (nonlinear_arith)
                    requires
                        elapsed < duration_ns,
                        elapsed == (if count * step_ns > u64::MAX { u64::MAX as int } else { count
                            * step_ns }),
                ;
                count = count + 1;
            }
            elapsed = if u64::MAX - elapsed < step_ns {
                u64::MAX
            } else {
                elapsed + step_ns
            };
        }
        proof {
            if duration_ns > 0 {
                assert(count > 0);
                assert(count * step_ns >= duration_ns);
                assert(count == (duration_ns - 1) / (step_ns as int) + 1) by (nonlinear_arith)
                    requires
                        count * step_ns >= duration_ns,
                        (count - 1) * step_ns < duration_ns,
                        step_ns > 0,
                        duration_ns > 0,
                        count > 0,
                ;
            }
        }
    }

    proof fn lemma_ticks_n_step(a: Self, m: Self, b: Self, n: nat, tick_ns: u64)
        requires
            a.ticks_n_to(n, tick_ns, &m),
            m.ticks_to(tick_ns, &b),
        ensures
            a.ticks_n_to(n + 1, tick_ns, &b),
    {
        assert(((n + 1) - 1) as nat == n);
        assert(a.ticks_n_to(((n + 1) - 1) as nat, tick_ns, &m) && m.ticks_to(tick_ns, &b));
    }

    /// Adds a chip to the board.
    pub fn register_chip(&mut self, chip: C) -> (r: Id<C>)
        requires
            old(self).wf(),
            chip.wf(),
            old(self).chips_view().len() < usize::MAX,
        ensures
            final(self).wf(),
            final(self).chips_view() == old(self).chips_view().push(Some(chip)),
            final(self).traces_view() == old(self).traces_view(),
            r.slot() == old(self).chips_view().len(),
    {
        self.chips.add(chip)
    }

    /// Adds a trace to the board.
    pub fn register_trace(&mut self, trace: Trace<C>) -> (r: Id<Trace<C>>)
        requires
            old(self).traces_view().len() < usize::MAX,
        ensures
            final(self).chips_view() == old(self).chips_view(),
            final(self).traces_view() == old(self).traces_view().push(Some(trace@)),
            r.slot() == old(self).traces_view().len(),
    {
        let ghost tv = trace@;
        let r = self.traces.add(trace);
        assert(self.traces_view() =~= old(self).traces_view().push(Some(tv)));
        r
    }

    /// Adds a trace joining two pins.
    pub fn connect(&mut self, chip_a: Id<C>, pin_a: PinId, chip_b: Id<C>, pin_b: PinId) -> (r: Id<
        Trace<C>,
    >)
        requires
            old(self).traces_view().len() < usize::MAX,
            (chip_a.slot(), pin_a) != (chip_b.slot(), pin_b),
        ensures
            final(self).chips_view() == old(self).chips_view(),
            final(self).traces_view() == old(self).traces_view().push(
                Some(seq![(chip_a.slot(), pin_a), (chip_b.slot(), pin_b)]),
            ),
            r.slot() == old(self).traces_view().len(),
    {
        let mut pins: Vec<(Id<C>, PinId)> = Vec::new();
        pins.push((chip_a, pin_a));
        pins.push((chip_b, pin_b));
        assert(pins@.map_values(|e: (Id<C>, PinId)| (e.0.slot(), e.1)) =~= seq![
            (chip_a.slot(), pin_a),
            (chip_b.slot(), pin_b),
        ]);
        let trace = Trace::from_endpoints(pins);
        assert(trace@ =~= seq![(chip_a.slot(), pin_a), (chip_b.slot(), pin_b)]);
        self.register_trace(trace)
    }

    pub fn get_chip(&self, id: &Id<C>) -> (r: &C)
        requires
            id.slot() < self.chips_view().len(),
            self.chips_view()[id.slot() as int] is Some,
        ensures
            *r == self.chips_view()[id.slot() as int]->Some_0,
    {
        self.chips.get(id)
    }

    pub fn get_chip_mut(&mut self, id: &Id<C>) -> (r: &mut C)
        requires
            id.slot() < old(self).chips_view().len(),
            old(self).chips_view()[id.slot() as int] is Some,
        ensures
            *r == old(self).chips_view()[id.slot() as int]->Some_0,
            final(self).chips_view() == old(self).chips_view().update(
                id.slot() as int,
                Some(*final(r)),
            ),
            final(self).traces_view() == old(self).traces_view(),
    {
        self.chips.get_mut(id)
    }

    pub fn get_trace(&self, id: &Id<Trace<C>>) -> (r: &Trace<C>)
        requires
            id.slot() < self.traces_view().len(),
            self.traces_view()[id.slot() as int] is Some,
        ensures
            r@ == self.traces_view()[id.slot() as int]->Some_0,
    {
        self.traces.get(id)
    }

    pub fn get_trace_mut(&mut self, id: &Id<Trace<C>>) -> (r: &mut Trace<C>)
        requires
            id.slot() < old(self).traces_view().len(),
            old(self).traces_view()[id.slot() as int] is Some,
        ensures
            r@ == old(self).traces_view()[id.slot() as int]->Some_0,
            final(self).traces_view() == old(self).traces_view().update(
                id.slot() as int,
                Some(final(r)@),
            ),
            final(self).chips_view() == old(self).chips_view(),
    {
        let r = self.traces.get_mut(id);
        r
    }
}

/// The pins of slot `c`.
pub open spec fn slot_pins(b: BoardPins, c: int) -> Seq<Pin> {
    b[c]->Some_0
}

/// `a` and `b` have the same chips and pins, the same pin directions, and differ at most in
/// the levels of input pins (position 0, which holds no pin, is equal).
pub open spec fn only_inputs_differ(a: BoardPins, b: BoardPins) -> bool {
    &&& a.len() == b.len()
    &&& forall|c: int|
        0 <= c < a.len() ==> (#[trigger] a[c] is Some <==> b[c] is Some) && (a[c] is Some
            ==> slot_pins(a, c).len() == slot_pins(b, c).len())
    &&& forall|c: int, p: int|
        0 <= c < a.len() && a[c] is Some && 0 <= p < slot_pins(a, c).len() ==> (#[trigger] slot_pins(
            a,
            c,
        )[p]).pin_type == slot_pins(b, c)[p].pin_type && ((p == 0 || !(slot_pins(
            a,
            c,
        )[p].pin_type is Input)) ==> slot_pins(a, c)[p] == slot_pins(b, c)[p])
}

proof fn lemma_only_inputs_differ_trans(a: BoardPins, b: BoardPins, c: BoardPins)
    requires
        only_inputs_differ(a, b),
        only_inputs_differ(b, c),
    ensures
        only_inputs_differ(a, c),
{
    assert forall|i: int, p: int|
        0 <= i < a.len() && a[i] is Some && 0 <= p < slot_pins(a, i).len() implies (
    #[trigger] slot_pins(a, i)[p]).pin_type == slot_pins(c, i)[p].pin_type && ((p == 0 || !(
    slot_pins(a, i)[p].pin_type is Input)) ==> slot_pins(a, i)[p] == slot_pins(c, i)[p]) by {
        assert(b[i] is Some);
        assert(slot_pins(b, i)[p].pin_type == slot_pins(a, i)[p].pin_type);
    }
}

proof fn lemma_only_inputs_differ_refl(a: BoardPins)
    ensures
        only_inputs_differ(a, a),
{
}

proof fn lemma_set_level_only_inputs(b: BoardPins, c: nat, p: usize, s: State)
    requires
        endpoint_pin(b, c, p) is Some,
        endpoint_pin(b, c, p)->Some_0.pin_type is Input,
    ensures
        only_inputs_differ(b, set_level(b, c, p, s)),
{
    let b2 = set_level(b, c, p, s);
    assert forall|i: int, q: int|
        0 <= i < b.len() && b[i] is Some && 0 <= q < slot_pins(b, i).len() implies (
    #[trigger] slot_pins(b, i)[q]).pin_type == slot_pins(b2, i)[q].pin_type && ((q == 0 || !(
    slot_pins(b, i)[q].pin_type is Input)) ==> slot_pins(b, i)[q] == slot_pins(b2, i)[q]) by {
        if i == c {
            if q != p {
                assert(slot_pins(b2, i)[q] == slot_pins(b, i)[q]);
            }
        } else {
            assert(b2[i] == b[i]);
        }
    }
}

proof fn lemma_distribute_only_inputs(b: BoardPins, eps: Seq<Endpoint>, level: State)
    ensures
        only_inputs_differ(b, distribute(b, eps, level)),
    decreases eps.len(),
{
    if eps.len() > 0 {
        let b1 = distribute(b, eps.drop_last(), level);
        lemma_distribute_only_inputs(b, eps.drop_last(), level);
        let e = eps.last();
        match endpoint_pin(b1, e.0, e.1) {
            Some(p) => {
                if p.pin_type is Input {
                    lemma_set_level_only_inputs(b1, e.0, e.1, feed(p.state, level));
                    lemma_only_inputs_differ_trans(
                        b,
                        b1,
                        set_level(b1, e.0, e.1, feed(p.state, level)),
                    );
                }
            },
            None => {},
        }
    }
}

proof fn lemma_resolve_all_only_inputs(b: BoardPins, traces: Seq<Option<Seq<Endpoint>>>)
    ensures
        only_inputs_differ(b, resolve_all(b, traces)),
    decreases traces.len(),
{
    if traces.len() > 0 {
        let b1 = resolve_all(b, traces.drop_last());
        lemma_resolve_all_only_inputs(b, traces.drop_last());
        match traces.last() {
            Some(eps) => {
                lemma_distribute_only_inputs(b1, eps, bus_level(b1, eps));
                lemma_only_inputs_differ_trans(b, b1, resolve(b1, eps));
            },
            None => {},
        }
    }
}

proof fn lemma_reset_only_inputs(b: BoardPins)
    ensures
        only_inputs_differ(b, reset_inputs(b)),
{
    let r = reset_inputs(b);
    assert forall|c: int| 0 <= c < b.len() implies (#[trigger] b[c] is Some <==> r[c] is Some) && (
    b[c] is Some ==> slot_pins(b, c).len() == slot_pins(r, c).len()) by {}
}

/// Clearing the inputs of two boards that differ only in input levels gives the same pins.
proof fn lemma_reset_same(x: BoardPins, y: BoardPins)
    requires
        only_inputs_differ(x, y),
    ensures
        reset_inputs(x) == reset_inputs(y),
{
    let rx = reset_inputs(x);
    let ry = reset_inputs(y);
    assert forall|c: int| 0 <= c < rx.len() implies rx[c] == ry[c] by {
        if x[c] is Some {
            assert(slot_pins(rx, c) =~= slot_pins(ry, c)) by {
                assert forall|p: int| 0 <= p < slot_pins(rx, c).len() implies slot_pins(rx, c)[p]
                    == slot_pins(ry, c)[p] by {
                    assert(slot_pins(x, c)[p].pin_type == slot_pins(y, c)[p].pin_type);
                }
            }
        }
    }
    assert(rx =~= ry);
}

proof fn lemma_reset_twice(b: BoardPins)
    ensures
        reset_inputs(reset_inputs(b)) == reset_inputs(b),
{
    let r = reset_inputs(b);
    let rr = reset_inputs(r);
    assert forall|c: int| 0 <= c < rr.len() implies rr[c] == r[c] by {
        if b[c] is Some {
            assert(slot_pins(rr, c) =~= slot_pins(r, c));
        }
    }
    assert(rr =~= r);
}

/// Settling a board twice gives the pins of settling it once: when no chip changes its pins,
/// the next tick finds every pin at the level it has now.
pub proof fn lemma_settle_idempotent(b: BoardPins, traces: Seq<Option<Seq<Endpoint>>>)
    ensures
        settle(settle(b, traces), traces) == settle(b, traces),
{
    let r = reset_inputs(b);
    lemma_resolve_all_only_inputs(r, traces);
    lemma_reset_same(r, resolve_all(r, traces));
    lemma_reset_twice(b);
}

/// Settling changes no pin that is not an input: a floating pin, in particular, is never
/// written by trace resolution, and no pin changes direction.
pub proof fn lemma_settle_keeps_non_inputs(
    b: BoardPins,
    traces: Seq<Option<Seq<Endpoint>>>,
    c: nat,
    p: usize,
)
    requires
        endpoint_pin(b, c, p) is Some,
        !(endpoint_pin(b, c, p)->Some_0.pin_type is Input),
    ensures
        endpoint_pin(settle(b, traces), c, p) == endpoint_pin(b, c, p),
{
    let r = reset_inputs(b);
    lemma_reset_only_inputs(b);
    lemma_resolve_all_only_inputs(r, traces);
    lemma_only_inputs_differ_trans(b, r, resolve_all(r, traces));
    let s = settle(b, traces);
    assert(slot_pins(b, c as int)[p as int] == slot_pins(s, c as int)[p as int]);
}

/// An output endpoint at `High` puts the whole bus at `High`.
proof fn lemma_bus_high(b: BoardPins, eps: Seq<Endpoint>, i: int)
    requires
        0 <= i < eps.len(),
        endpoint_pin(b, eps[i].0, eps[i].1) matches Some(p) && p.pin_type is Output && p.state
            is High,
    ensures
        bus_level(b, eps) == State::High,
    decreases eps.len(),
{
    if i < eps.len() - 1 {
        lemma_bus_high(b, eps.drop_last(), i);
    }
}

/// Boards that differ only in input levels put the same level on every bus.
proof fn lemma_bus_level_only_inputs(x: BoardPins, y: BoardPins, eps: Seq<Endpoint>)
    requires
        only_inputs_differ(x, y),
    ensures
        bus_level(x, eps) == bus_level(y, eps),
    decreases eps.len(),
{
    if eps.len() > 0 {
        lemma_bus_level_only_inputs(x, y, eps.drop_last());
        let e = eps.last();
        if endpoint_pin(x, e.0, e.1) is Some {
            assert(slot_pins(x, e.0 as int)[e.1 as int].pin_type == slot_pins(
                y,
                e.0 as int,
            )[e.1 as int].pin_type);
        }
    }
}

/// An input pin at `High` stays `High` whatever level is fed to it.
proof fn lemma_distribute_keeps_high(
    b: BoardPins,
    eps: Seq<Endpoint>,
    level: State,
    c: nat,
    p: usize,
)
    requires
        endpoint_pin(b, c, p) == Some(Pin { pin_type: PinType::Input, state: State::High }),
    ensures
        endpoint_pin(distribute(b, eps, level), c, p) == Some(
            Pin { pin_type: PinType::Input, state: State::High },
        ),
    decreases eps.len(),
{
    if eps.len() > 0 {
        lemma_distribute_keeps_high(b, eps.drop_last(), level, c, p);
        lemma_distribute_only_inputs(b, eps.drop_last(), level);
    }
}

/// Feeding `High` into a bus puts every input endpoint of it at `High`.
proof fn lemma_distribute_high(b: BoardPins, eps: Seq<Endpoint>, j: int)
    requires
        0 <= j < eps.len(),
        endpoint_pin(b, eps[j].0, eps[j].1) matches Some(p) && p.pin_type is Input,
    ensures
        endpoint_pin(distribute(b, eps, State::High), eps[j].0, eps[j].1) == Some(
            Pin { pin_type: PinType::Input, state: State::High },
        ),
    decreases eps.len(),
{
    let b1 = distribute(b, eps.drop_last(), State::High);
    lemma_distribute_only_inputs(b, eps.drop_last(), State::High);
    let e = eps.last();
    if j < eps.len() - 1 {
        lemma_distribute_high(b, eps.drop_last(), j);
        lemma_distribute_keeps_high(b1, seq![e], State::High, eps[j].0, eps[j].1);
        assert(seq![e].drop_last() =~= Seq::<Endpoint>::empty());
    } else {
        assert(slot_pins(b, e.0 as int)[e.1 as int].pin_type == slot_pins(
            b1,
            e.0 as int,
        )[e.1 as int].pin_type);
    }
}

proof fn lemma_resolve_all_keeps_high(
    b: BoardPins,
    traces: Seq<Option<Seq<Endpoint>>>,
    c: nat,
    p: usize,
)
    requires
        endpoint_pin(b, c, p) == Some(Pin { pin_type: PinType::Input, state: State::High }),
    ensures
        endpoint_pin(resolve_all(b, traces), c, p) == Some(
            Pin { pin_type: PinType::Input, state: State::High },
        ),
    decreases traces.len(),
{
    if traces.len() > 0 {
        lemma_resolve_all_keeps_high(b, traces.drop_last(), c, p);
        let b1 = resolve_all(b, traces.drop_last());
        match traces.last() {
            Some(eps) => lemma_distribute_keeps_high(b1, eps, bus_level(b1, eps), c, p),
            None => {},
        }
    }
}

proof fn lemma_resolve_all_high(
    b: BoardPins,
    traces: Seq<Option<Seq<Endpoint>>>,
    k: int,
    i: int,
    j: int,
)
    requires
        0 <= k < traces.len(),
        traces[k] is Some,
        0 <= i < traces[k]->Some_0.len(),
        0 <= j < traces[k]->Some_0.len(),
        endpoint_pin(b, traces[k]->Some_0[i].0, traces[k]->Some_0[i].1) matches Some(p)
            && p.pin_type is Output && p.state is High,
        endpoint_pin(b, traces[k]->Some_0[j].0, traces[k]->Some_0[j].1) matches Some(p)
            && p.pin_type is Input,
    ensures
        endpoint_pin(
            resolve_all(b, traces),
            traces[k]->Some_0[j].0,
            traces[k]->Some_0[j].1,
        ) == Some(Pin { pin_type: PinType::Input, state: State::High }),
    decreases traces.len(),
{
    let eps = traces[k]->Some_0;
    let b1 = resolve_all(b, traces.drop_last());
    lemma_resolve_all_only_inputs(b, traces.drop_last());
    if k == traces.len() - 1 {
        let ei = eps[i];
        let ej = eps[j];
        assert(slot_pins(b, ei.0 as int)[ei.1 as int] == slot_pins(b1, ei.0 as int)[ei.1 as int]);
        assert(slot_pins(b, ej.0 as int)[ej.1 as int].pin_type == slot_pins(
            b1,
            ej.0 as int,
        )[ej.1 as int].pin_type);
        lemma_bus_high(b1, eps, i);
        lemma_distribute_high(b1, eps, j);
    } else {
        lemma_resolve_all_high(b, traces.drop_last(), k, i, j);
        match traces.last() {
            Some(last) => lemma_distribute_keeps_high(
                b1,
                last,
                bus_level(b1, last),
                eps[j].0,
                eps[j].1,
            ),
            None => {},
        }
    }
}

/// Bus arbitration: when an output pin on a trace is at `High`, every input pin on that trace
/// is at `High` once the board has settled.
pub proof fn lemma_settle_high_dominates(
    b: BoardPins,
    traces: Seq<Option<Seq<Endpoint>>>,
    k: int,
    i: int,
    j: int,
)
    requires
        0 <= k < traces.len(),
        traces[k] is Some,
        0 <= i < traces[k]->Some_0.len(),
        0 <= j < traces[k]->Some_0.len(),
        endpoint_pin(b, traces[k]->Some_0[i].0, traces[k]->Some_0[i].1) matches Some(p)
            && p.pin_type is Output && p.state is High,
        endpoint_pin(b, traces[k]->Some_0[j].0, traces[k]->Some_0[j].1) matches Some(p)
            && p.pin_type is Input,
    ensures
        endpoint_pin(settle(b, traces), traces[k]->Some_0[j].0, traces[k]->Some_0[j].1) == Some(
            Pin { pin_type: PinType::Input, state: State::High },
        ),
{
    let r = reset_inputs(b);
    lemma_reset_only_inputs(b);
    let eps = traces[k]->Some_0;
    assert(slot_pins(b, eps[i].0 as int)[eps[i].1 as int] == slot_pins(
        r,
        eps[i].0 as int,
    )[eps[i].1 as int]);
    assert(slot_pins(b, eps[j].0 as int)[eps[j].1 as int].pin_type == slot_pins(
        r,
        eps[j].0 as int,
    )[eps[j].1 as int].pin_type);
    lemma_resolve_all_high(r, traces, k, i, j);
}

} // verus!
