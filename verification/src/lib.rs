//! A crowd-driven virtual game controller: many chat participants vote for
//! button presses and joystick moves, and the library merges those votes into
//! one coherent stream of controller state changes.
//!
//! The core pieces are a command-language parser that turns a chat line into
//! time-stamped controller commands, and a tick-driven scheduler that
//! aggregates overlapping joystick votes, admits button votes under a
//! per-button mutual-exclusion guard, and refuses votes that would complete a
//! forbidden button combination.

use vstd::prelude::*;

pub mod caps;
pub mod input;
pub mod trig;
pub mod aggregate;
pub mod tokenize;
pub mod parser;
pub mod sched;
pub mod keystroke;
pub mod adapter;
pub mod clock;
pub mod config;
pub mod irc_msg;
pub mod vjoy;

verus! {

/// Milliseconds in one second.
pub const MILLISECONDS_PER_SECOND: u64 = 1000;

/// Nominal duration of one video frame in milliseconds.
pub const MILLISECONDS_PER_FRAME: u64 = 17;

} // verus!
