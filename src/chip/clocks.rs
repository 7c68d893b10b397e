//! Clocks.
use vstd::prelude::*;

use super::{
    fresh_pins, get_pin_in, has_pin, high_at, is_high_in, list_pins_in, pin_lookup, pin_types,
    pins_from_types, set_state_at, set_state_in, ChipBuilder, ChipRunner, ChipSet, Pin, PinId,
    PinType,
};
use crate::{level_of, State, POWER_THRESHOLD_MV};

verus! {

/// Number of times a clock with half period `h` flips when its timer reaches `t`: it flips
/// while the timer exceeds `h`, taking `h` off each time.
pub open spec fn clock_flips(t: nat, h: nat) -> nat {
    if t == 0 || h == 0 {
        0
    } else {
        ((t - 1) / (h as int)) as nat
    }
}

/// Half period, in nanoseconds, of a clock at `hertz`.
pub open spec fn half_period_of(hertz: u64) -> u64 {
    if hertz == 0 {
        u64::MAX
    } else if 500_000_000u64 / hertz == 0 {
        1
    } else {
        (500_000_000u64 / hertz) as u64
    }
}

proof fn lemma_flips_remainder(t: nat, h: nat)
    requires
        h >= 1,
    ensures
        clock_flips(t, h) * h <= t,
        t - clock_flips(t, h) * h <= h,
        t > 0 ==> t - clock_flips(t, h) * h >= 1,
{
    if t > 0 {
        let k = clock_flips(t, h);
        let q = (t - 1) / (h as int);
        let r = (t - 1) % (h as int);
        vstd::arithmetic::div_mod::lemma_fundamental_div_mod((t - 1) as int, h as int);
        vstd::arithmetic::div_mod::lemma_mod_pos_bound((t - 1) as int, h as int);
        assert(k * h == h * q) by (nonlinear_arith)
            requires
                k == q,
        ;
    }
}

/// Timer and flip count of a powered clock with half period `h`, from `timer`, after ticks of
/// the given durations.
pub open spec fn clock_run(timer: nat, h: nat, ticks: Seq<u64>) -> (nat, nat)
    decreases ticks.len(),
{
    if ticks.len() == 0 {
        (timer, 0)
    } else {
        let (t0, f0) = clock_run(timer, h, ticks.drop_last());
        let t = (t0 + ticks.last()) as nat;
        let k = clock_flips(t, h);
        ((t - k * h) as nat, f0 + k)
    }
}

/// Total duration of the ticks.
pub open spec fn total_ns(ticks: Seq<u64>) -> nat
    decreases ticks.len(),
{
    if ticks.len() == 0 {
        0
    } else {
        (total_ns(ticks.drop_last()) + ticks.last()) as nat
    }
}

proof fn lemma_clock_run_exact(timer: nat, h: nat, ticks: Seq<u64>)
    requires
        h >= 1,
        timer <= h,
        timer == 0 || timer >= 1,
    ensures
        clock_run(timer, h, ticks).1 == clock_flips(timer + total_ns(ticks), h),
        clock_run(timer, h, ticks).0 == timer + total_ns(ticks) - clock_run(timer, h, ticks).1 * h,
        clock_run(timer, h, ticks).0 <= h,
        timer + total_ns(ticks) > 0 ==> clock_run(timer, h, ticks).0 >= 1,
    decreases ticks.len(),
{
    if ticks.len() == 0 {
        if timer > 0 {
            vstd::arithmetic::div_mod::lemma_basic_div((timer - 1) as int, h as int);
        }
    } else {
        lemma_clock_run_exact(timer, h, ticks.drop_last());
        let (t0, f0) = clock_run(timer, h, ticks.drop_last());
        let t = (t0 + ticks.last()) as nat;
        let k = clock_flips(t, h);
        let total = (timer + total_ns(ticks)) as nat;
        lemma_flips_remainder(t, h);
        assert(total == f0 * h + t) by (nonlinear_arith)
            requires
                t0 == timer + total_ns(ticks.drop_last()) - f0 * h,
                total == timer + total_ns(ticks.drop_last()) + ticks.last(),
                t == t0 + ticks.last(),
        ;
        if t > 0 {
            assert(clock_flips(total, h) == f0 + k) by {
                vstd::arithmetic::div_mod::lemma_hoist_over_denominator((t - 1) as int, f0 as int, h as nat);
                assert((t - 1) as int + f0 * h == total - 1) by (nonlinear_arith)
                    requires
                        total == f0 * h + t,
                ;
            }
        } else {
            assert(t0 == 0);
            assert(f0 == 0) by (nonlinear_arith)
                requires
                    f0 * h + t0 == timer + total_ns(ticks.drop_last()),
                    timer + total_ns(ticks.drop_last()) > 0 ==> t0 >= 1,
                    t0 == 0,
                    h >= 1,
            ;
        }
        assert((t - k * h) + (f0 + k) * h == total) by (nonlinear_arith)
            requires
                total == f0 * h + t,
                k * h <= t,
        ;
    }
}

/// A powered clock started at a zero timer, ticked for a total of `total_ns(ticks)`
/// nanoseconds, flips its level exactly `clock_flips(total, h)` times: the total divided by
/// the half period, or one less.
pub proof fn lemma_clock_flip_count(h: nat, ticks: Seq<u64>)
    requires
        h >= 1,
    ensures
        clock_run(0, h, ticks).1 == clock_flips(total_ns(ticks), h),
        total_ns(ticks) / h - 1 <= clock_run(0, h, ticks).1 <= total_ns(ticks) / h,
{
    lemma_clock_run_exact(0, h, ticks);
    let total = total_ns(ticks);
    if total > 0 {
        vstd::arithmetic::div_mod::lemma_fundamental_div_mod((total - 1) as int, h as int);
        vstd::arithmetic::div_mod::lemma_fundamental_div_mod(total as int, h as int);
        assert((total - 1) / (h as int) <= (total as int) / (h as int)) by {
            vstd::arithmetic::div_mod::lemma_div_is_ordered((total - 1) as int, total as int, h as int);
        }
        assert((total - 1) / (h as int) >= (total as int) / (h as int) - 1) by (nonlinear_arith)
            requires
                (total - 1) as int == h * ((total - 1) / (h as int)) + (total - 1) % (h as int),
                total as int == h * ((total as int) / (h as int)) + (total as int) % (h as int),
                0 <= (total - 1) % (h as int) < h,
                0 <= (total as int) % (h as int) < h,
                h >= 1,
        ;
    }
}

/// A square-wave clock on CLK while VCC is powered; its level flips every half period.
///
/// Pins: CLK 1, GND 2, VCC 4 (pin 3 is unused).
pub struct Clock {
    pins: Vec<Pin>,
    half_period_ns: u64,
    timer_ns: u64,
    active: bool,
}

impl Clock {
    pub const VCC: PinId = 4;
    pub const GND: PinId = 2;
    pub const CLK: PinId = 1;

    /// The pins, indexed by pin number.
    pub closed spec fn pins_view(&self) -> Seq<Pin> {
        self.pins@
    }

    /// The pins of a freshly built chip: each pin's direction, all at `Undefined`.
    pub open spec fn initial_pins() -> Seq<Pin> {
        fresh_pins(seq![PinType::Floating, PinType::Output, PinType::Output, PinType::Floating, PinType::Input])
    }

    pub closed spec fn half_period(&self) -> u64 {
        self.half_period_ns
    }

    pub closed spec fn timer(&self) -> u64 {
        self.timer_ns
    }

    pub closed spec fn phase(&self) -> bool {
        self.active
    }

    /// `other` differs from `self` at most in pin levels.
    pub open spec fn same_but_levels(&self, other: &Self) -> bool {
        pin_types(self.pins_view()) == pin_types(other.pins_view())
            && self.half_period() == other.half_period()
            && self.timer() == other.timer()
            && self.phase() == other.phase()
    }

    pub fn get_pin(&self, pin: PinId) -> (r: Option<Pin>)
        ensures
            r == pin_lookup(self.pins_view(), pin),
    {
        get_pin_in(&self.pins, pin)
    }

    /// Sets the level of pin `pin`, leaving its direction.
    pub fn set_pin_state(&mut self, pin: PinId, state: State)
        requires
            has_pin(old(self).pins_view(), pin as int),
        ensures
            final(self).pins_view() == set_state_at(old(self).pins_view(), pin as int, state),
            old(self).same_but_levels(&*final(self)),
            final(self).half_period() == old(self).half_period(),
            final(self).timer() == old(self).timer(),
            final(self).phase() == old(self).phase(),
    {
        set_state_in(&mut self.pins, pin, state);
        assert(pin_types(self.pins@) =~= pin_types(old(self).pins@));
    }

    /// The largest pin number plus one.
    pub fn pin_count(&self) -> (r: usize)
        ensures
            r == self.pins_view().len(),
    {
        self.pins.len()
    }

    /// Every pin with its number, by increasing number.
    pub fn list_pins(&self) -> (r: Vec<(PinId, Pin)>)
        requires
            self.wf(),
        ensures
            r@.len() + 1 == self.pins_view().len(),
            forall|i: int|
                0 <= i < r@.len() ==> #[trigger] r@[i] == (
                (i + 1) as usize,
                self.pins_view()[i + 1],
            ),
    {
        list_pins_in(&self.pins)
    }

    /// The clock at `hertz`: a half period of `500_000_000 / hertz` nanoseconds, at least one;
    /// a zero frequency gives the longest half period there is.
    pub fn with_frequency(self, hertz: u64) -> (r: Self)
        requires
            self.wf(),
        ensures
            r.wf(),
            r.half_period() == half_period_of(hertz),
            r.timer() == (if self.timer() <= half_period_of(hertz) {
                self.timer()
            } else {
                half_period_of(hertz)
            }),
            r.phase() == self.phase(),
            r.pins_view() == self.pins_view(),
    {
        let half: u64 = if hertz == 0 {
            u64::MAX
        } else if 500_000_000 / hertz == 0 {
            1
        } else {
            500_000_000 / hertz
        };
        self.with_half_period_ns(half)
    }

    /// The clock with a half period of `half_period_ns` nanoseconds, at least one.
    pub fn with_half_period_ns(self, half_period_ns: u64) -> (r: Self)
        requires
            self.wf(),
        ensures
            r.wf(),
            r.half_period() == (if half_period_ns == 0 {
                1
            } else {
                half_period_ns
            }),
            r.timer() == (if self.timer() <= r.half_period() {
                self.timer()
            } else {
                r.half_period()
            }),
            r.phase() == self.phase(),
            r.pins_view() == self.pins_view(),
    {
        let mut r = self;
        r.half_period_ns = if half_period_ns == 0 {
            1
        } else {
            half_period_ns
        };
        if r.timer_ns > r.half_period_ns {
            r.timer_ns = r.half_period_ns;
        }
        r
    }
}

impl ChipRunner for Clock {
    open spec fn wf(&self) -> bool {
        self.pins_view().len() == 5 && self.half_period() >= 1 && self.timer() <= self.half_period()
    }

    open spec fn runs_to(&self, tick_ns: u64, next: &Self) -> bool {
        if high_at(self.pins_view(), 4, POWER_THRESHOLD_MV) {
            let t = (self.timer() + tick_ns) as nat;
            let k = clock_flips(t, self.half_period() as nat);
            &&& next.half_period() == self.half_period()
            &&& next.timer() == t - k * self.half_period()
            &&& next.phase() == (self.phase() != (k % 2 == 1))
            &&& next.pins_view() == set_state_at(self.pins_view(), 1, level_of(next.phase()))
        } else {
            &&& next.half_period() == self.half_period()
            &&& next.timer() == 0
            &&& !next.phase()
            &&& next.pins_view() == self.pins_view()
        }
    }

    fn run(&mut self, tick_ns: u64) {
        if is_high_in(&self.pins, 4, POWER_THRESHOLD_MV) {
            let t: u128 = self.timer_ns as u128 + tick_ns as u128;
            let h: u128 = self.half_period_ns as u128;
            let k: u128 = if t == 0 {
                0
            } else {
                (t - 1) / h
            };
            proof {
                lemma_flips_remainder(t as nat, h as nat);
            }
            let rem: u128 = t - k * h;
            self.timer_ns = rem as u64;
            if k % 2 == 1 {
                self.active = !self.active;
            }
            let a = self.active;
            set_state_in(&mut self.pins, 1, State::from_bool(a));
        } else {
            self.active = false;
            self.timer_ns = 0;
        }
    }
}

impl ChipBuilder<Clock> for Clock {
    fn build() -> (r: Clock)
        ensures
            r.pins_view() == Self::initial_pins(),
            r.half_period() == 1_000_000_000,
            r.timer() == 0,
            r.phase() == false,
    {
        let types: [PinType; 5] = [
            PinType::Floating, PinType::Output, PinType::Output, PinType::Floating,
            PinType::Input,
        ];
        assert(types@ == seq![PinType::Floating, PinType::Output, PinType::Output, PinType::Floating, PinType::Input]);
        let c = Clock {
            pins: pins_from_types(&types),
            half_period_ns: 1_000_000_000,
            timer_ns: 0,
            active: false,
        };
        c
    }
}

impl Clock {
    /// This chip as a member of the chip set.
    pub fn into_chip(self) -> (r: ChipSet)
        ensures
            r == ChipSet::Clock(self),
    {
        ChipSet::Clock(self)
    }
}

impl From<Clock> for ChipSet {
    fn from(value: Clock) -> (r: ChipSet) {
        ChipSet::Clock(value)
    }
}

impl vstd::std_specs::convert::FromSpecImpl<Clock> for ChipSet {
    open spec fn obeys_from_spec() -> bool {
        true
    }

    open spec fn from_spec(v: Clock) -> ChipSet {
        ChipSet::Clock(v)
    }
}

/// Tick `i` of `ticks` takes `clocks[i]` to `clocks[i + 1]`, with VCC powered and the tick no
/// longer than `h` nanoseconds.
pub open spec fn powered_tick(clocks: Seq<Clock>, ticks: Seq<u64>, h: u64, i: int) -> bool {
    &&& clocks[i].runs_to(ticks[i], &clocks[i + 1])
    &&& high_at(clocks[i].pins_view(), 4, POWER_THRESHOLD_MV)
    &&& ticks[i] <= h
}

/// Number of times the phase changes from one clock to the next along `clocks`.
pub open spec fn phase_changes(clocks: Seq<Clock>) -> nat
    decreases clocks.len(),
{
    if clocks.len() <= 1 {
        0
    } else {
        phase_changes(clocks.drop_last()) + if clocks.last().phase() != clocks[clocks.len()
            - 2].phase() {
            1nat
        } else {
            0nat
        }
    }
}

proof fn lemma_clock_changes_exact(clocks: Seq<Clock>, ticks: Seq<u64>)
    requires
        clocks.len() == ticks.len() + 1,
        clocks[0].wf(),
        forall|i: int|
            0 <= i < ticks.len() ==> #[trigger] powered_tick(clocks, ticks, clocks[0].half_period(), i),
    ensures
        ({
            let (t, f) = clock_run(clocks[0].timer() as nat, clocks[0].half_period() as nat, ticks);
            &&& clocks.last().half_period() == clocks[0].half_period()
            &&& clocks.last().timer() == t
            &&& clocks.last().timer() <= clocks[0].half_period()
            &&& clocks.last().pins_view().len() == clocks[0].pins_view().len()
            &&& phase_changes(clocks) == f
            &&& clocks.len() > 1 ==> clocks.last().pins_view()[1].state == level_of(
                clocks.last().phase(),
            )
        }),
    decreases ticks.len(),
{
    if ticks.len() > 0 {
        let n = ticks.len() as int;
        let front = clocks.drop_last();
        assert(front[0] == clocks[0]);
        assert forall|i: int| 0 <= i < ticks.drop_last().len() implies #[trigger] powered_tick(
            front,
            ticks.drop_last(),
            front[0].half_period(),
            i,
        ) by {
            assert(front[i] == clocks[i] && front[i + 1] == clocks[i + 1]);
            assert(ticks.drop_last()[i] == ticks[i]);
            assert(powered_tick(clocks, ticks, clocks[0].half_period(), i));
        }
        lemma_clock_changes_exact(front, ticks.drop_last());
        let prev = clocks[n - 1];
        assert(powered_tick(clocks, ticks, clocks[0].half_period(), n - 1));
        assert(clocks.last() == clocks[n]);
        assert(clocks.drop_last() == front);
        assert(front.last() == prev);
        assert(prev.runs_to(ticks[n - 1], &clocks[n]));
        let h = clocks[0].half_period() as nat;
        let t = (prev.timer() + ticks[n - 1]) as nat;
        let k = clock_flips(t, h);
        lemma_flips_remainder(t, h);
        assert(k < 2) by (nonlinear_arith)
            requires
                t <= 2 * h,
                t > 0 ==> t - k * h >= 1,
                t == 0 ==> k == 0,
                h >= 1,
        ;
        let (t0, f0) = clock_run(clocks[0].timer() as nat, h, ticks.drop_last());
        assert(prev.timer() == t0);
        assert(phase_changes(front) == f0);
        assert(ticks.last() == ticks[n - 1]);
        assert(clock_run(clocks[0].timer() as nat, h, ticks) == ((t - k * h) as nat, f0 + k));
        assert(clocks[n].timer() == t - k * h);
        assert(clocks[clocks.len() - 2] == prev);
        assert((k % 2 == 1) == (k == 1));
        assert(phase_changes(clocks) == f0 + k);
    }
}

/// A clock at a half period of `h` nanoseconds, started with a zero timer and a low phase and
/// kept powered through ticks of at most `h` each, shows on CLK after every tick the level of
/// its phase, and its level changes, counted from low, number exactly `clock_flips(T, h)` for
/// the total time `T`: within one of `T / h`, the time over the half period.
pub proof fn lemma_clock_level_changes(clocks: Seq<Clock>, ticks: Seq<u64>)
    requires
        clocks.len() == ticks.len() + 1,
        clocks[0].wf(),
        clocks[0].timer() == 0,
        !clocks[0].phase(),
        forall|i: int|
            0 <= i < ticks.len() ==> #[trigger] powered_tick(clocks, ticks, clocks[0].half_period(), i),
    ensures
        forall|i: int|
            1 <= i < clocks.len() ==> (#[trigger] clocks[i]).pins_view()[1].state == level_of(
                clocks[i].phase(),
            ),
        phase_changes(clocks) == clock_flips(total_ns(ticks), clocks[0].half_period() as nat),
        total_ns(ticks) / (clocks[0].half_period() as nat) - 1 <= phase_changes(clocks)
            <= total_ns(ticks) / (clocks[0].half_period() as nat),
{
    let h = clocks[0].half_period() as nat;
    lemma_clock_changes_exact(clocks, ticks);
    lemma_clock_flip_count(h, ticks);
    assert forall|i: int| 1 <= i < clocks.len() implies (#[trigger] clocks[i]).pins_view()[1].state
        == level_of(clocks[i].phase()) by {
        let pre = clocks.subrange(0, i + 1);
        let pt = ticks.subrange(0, i);
        assert(pre[0] == clocks[0]);
        assert forall|j: int| 0 <= j < pt.len() implies #[trigger] powered_tick(
            pre,
            pt,
            pre[0].half_period(),
            j,
        ) by {
            assert(pre[j] == clocks[j] && pre[j + 1] == clocks[j + 1] && pt[j] == ticks[j]);
            assert(powered_tick(clocks, ticks, clocks[0].half_period(), j));
        }
        lemma_clock_changes_exact(pre, pt);
        assert(pre.last() == clocks[i]);
    }
}

/// A clock kept powered through a run of ticks ends at the timer that `clock_run` gives, and
/// its phase has flipped once for each flip counted there.
pub proof fn lemma_clock_ticks(clocks: Seq<Clock>, ticks: Seq<u64>)
    requires
        clocks.len() == ticks.len() + 1,
        clocks[0].wf(),
        forall|i: int|
            0 <= i < ticks.len() ==> #[trigger] clocks[i].runs_to(ticks[i], &clocks[i + 1])
                && high_at(clocks[i].pins_view(), 4, POWER_THRESHOLD_MV),
    ensures
        ({
            let (t, f) = clock_run(clocks[0].timer() as nat, clocks[0].half_period() as nat, ticks);
            &&& clocks.last().half_period() == clocks[0].half_period()
            &&& clocks.last().timer() == t
            &&& clocks.last().phase() == (clocks[0].phase() != (f % 2 == 1))
        }),
    decreases ticks.len(),
{
    if ticks.len() > 0 {
        let n = ticks.len() as int;
        let front = clocks.drop_last();
        assert forall|i: int| 0 <= i < ticks.drop_last().len() implies #[trigger] front[i].runs_to(
            ticks.drop_last()[i],
            &front[i + 1],
        ) && high_at(front[i].pins_view(), 4, POWER_THRESHOLD_MV) by {
            assert(front[i] == clocks[i] && front[i + 1] == clocks[i + 1]);
            assert(ticks.drop_last()[i] == ticks[i]);
            assert(clocks[i].runs_to(ticks[i], &clocks[i + 1]));
        }
        lemma_clock_ticks(front, ticks.drop_last());
        assert(clocks[n - 1].runs_to(ticks[n - 1], &clocks[n]));
        assert(front.last() == clocks[n - 1]);
    }
}

} // verus!
