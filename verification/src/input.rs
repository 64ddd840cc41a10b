//! Controller input commands and their timed form.
//!
//! A parsed chat token becomes an `Input` (a polar joystick target or a
//! button state), and the parser wraps each one in a `TimedInput` that says
//! when it starts and how long it lasts.  Directions are whole degrees in
//! `[0, 360)`; strengths are whole percentages in `[0, 100]`, where 100
//! means a fully deflected stick.

use vstd::prelude::*;

verus! {

/// One controller input: a polar target for a named joystick, or a button
/// state.  Joysticks and buttons are identified by their position in the
/// controller's capability table.

#[derive(Clone, Copy, PartialEq, Eq, Structural, Debug)]
pub enum Input {
    Joystick { stick: usize, direction_deg: u16, strength_pct: u8 },
    Button { button: usize, pressed: bool },
}

impl Input {
    /// Range validity: directions lie in `[0, 360)` and strengths in
    /// `[0, 100]`.  The parser only ever emits valid inputs.
    pub open spec fn valid(self) -> bool {
        match self {
            Input::Joystick { stick, direction_deg, strength_pct } => {
                direction_deg < 360 && strength_pct <= 100
            },
            Input::Button { button, pressed } => true,
        }
    }

    pub open spec fn is_joystick(self) -> bool {
        self is Joystick
    }

    /// Run-time range check, for callers outside verified code.
    pub fn is_in_range(&self) -> (r: bool)
        ensures
            r == self.valid(),
    {
        match self {
            Input::Joystick { stick, direction_deg, strength_pct } => {
                *direction_deg < 360 && *strength_pct <= 100
            },
            Input::Button { .. } => true,
        }
    }
}

/// A command with its schedule: it takes effect at `start_time` (absolute
/// milliseconds) and lasts `duration` milliseconds.

#[derive(Clone, Copy, PartialEq, Eq, Structural, Debug)]
pub struct TimedInput {
    pub start_time: u64,
    pub duration: u64,
    pub command: Input,
}

/// Why a whole chat line was refused by the parser.  A refused line emits no
/// command at all.

#[derive(Clone, Copy, PartialEq, Eq, Structural, Debug)]
pub enum RejectReason {
    /// Some character of the line is not part of a contiguous tiling of
    /// grammar tokens from the start of the line to its end.
    UnmatchedInput,
    /// A joystick strength percentage above 100.
    StrengthOutOfRange,
    /// A joystick or button duration above that input's permitted maximum.
    DurationOverCap,
    /// The delays accumulated across the line exceed the per-line maximum.
    LineTooLong,
}

} // verus!
