//! A discrete-event simulator of digital chips wired together on a board.
//!
//! Logic levels are three-valued (`Undefined`, `Low`, `High`) plus an analog
//! level expressed in whole millivolts.
pub mod board;
pub mod chip;
pub mod utilities;

use vstd::prelude::*;

verus! {

/// Threshold, in millivolts, at or above which an analog level reads as `High` on a logic
/// input.
pub const LOGIC_THRESHOLD_MV: i32 = 3300;

/// Threshold, in millivolts, at or above which a supply pin counts as powered.
pub const POWER_THRESHOLD_MV: i32 = 1000;

/// The level carried by a pin or a wire.
#[derive(Debug, Clone, Copy, PartialEq, Eq, Structural)]
pub enum State {
    Undefined,
    Low,
    High,
    /// An analog level in millivolts.
    Analog(i32),
}

/// Bus arbitration: the level of a wire on which `acc` has been resolved so far
/// and `input` is one more driver.
pub open spec fn feed(acc: State, input: State) -> State {
    match input {
        State::Undefined => acc,
        State::Low => if acc is Undefined { State::Low } else { acc },
        State::High => State::High,
        State::Analog(v) => match acc {
            State::High => State::High,
            State::Analog(w) => if v < w { acc } else { State::Analog(v) },
            _ => State::Analog(v),
        },
    }
}

/// The logic level read from `s` by an input with the given threshold.
pub open spec fn logic_of(s: State, threshold: i32) -> State {
    match s {
        State::Undefined => State::Low,
        State::Low => State::Low,
        State::High => State::High,
        State::Analog(v) => if v >= threshold { State::High } else { State::Low },
    }
}

/// The analog reading of `s` when `High` stands for `vcc` millivolts.
pub open spec fn analog_of(s: State, vcc: i32) -> State {
    match s {
        State::Undefined | State::Low => State::Analog(0),
        State::High => State::Analog(vcc),
        State::Analog(_) => s,
    }
}

/// Boolean coercion of a level.
pub open spec fn truth_of(s: State) -> bool {
    match s {
        State::High => true,
        State::Analog(v) => v != 0,
        _ => false,
    }
}

pub open spec fn level_of(b: bool) -> State {
    if b { State::High } else { State::Low }
}

impl State {
    /// Resolves one more driver `state` into the level `self` of a wire.
    pub fn feed_state(&self, state: State) -> (r: State)
        ensures
            r == feed(*self, state),
    {
        match state {
            State::Undefined => *self,
            State::Low => match self {
                State::Undefined => State::Low,
                _ => *self,
            },
            State::High => State::High,
            State::Analog(v) => match self {
                State::High => State::High,
                State::Analog(w) => if v < *w { *self } else { State::Analog(v) },
                _ => State::Analog(v),
            },
        }
    }

    /// Converts to an analog level, `High` standing for `conversion_target` millivolts.
    pub fn as_analog(&self, conversion_target: i32) -> (r: State)
        ensures
            r == analog_of(*self, conversion_target),
    {
        match self {
            State::Undefined | State::Low => State::Analog(0),
            State::High => State::Analog(conversion_target),
            State::Analog(_) => *self,
        }
    }

    /// Converts to `Low` or `High`, an analog level reading `High` at or above `threshold`.
    pub fn as_logic(&self, threshold: i32) -> (r: State)
        ensures
            r == logic_of(*self, threshold),
            r is Low || r is High,
    {
        match self {
            State::Undefined => State::Low,
            State::Low => State::Low,
            State::High => State::High,
            State::Analog(v) => if *v >= threshold { State::High } else { State::Low },
        }
    }

    /// Boolean coercion: `High` and any non-zero analog level are true.
    pub fn to_bool(&self) -> (r: bool)
        ensures
            r == truth_of(*self),
    {
        match self {
            State::High => true,
            State::Analog(v) => *v != 0,
            _ => false,
        }
    }

    /// `High` for true, `Low` for false.
    pub fn from_bool(b: bool) -> (r: State)
        ensures
            r == level_of(b),
    {
        if b { State::High } else { State::Low }
    }
}

impl Default for State {
    fn default() -> (r: State)
        ensures
            r is Undefined,
    {
        State::Undefined
    }
}

} // verus!
