//! The command-language parser: from a tokenized chat line to a list of
//! timed controller commands.
//!
//! A running cumulative delay accumulates over the tokens; each emitted
//! command starts at `now + cumulative delay`.  When a command follows
//! another command directly, a chaining rule inserts the previous
//! command's duration and a small empirically-tuned correction, which
//! depends on the kinds of the two commands.  Delay tokens add to the
//! cumulative delay and break the chain.  The whole line is rejected if a
//! strength is over 100 percent, a duration is over its cap, or the
//! cumulative delay leaves the per-line window.
//!
//! All rejection thresholds sit far below the tokenizer's numeric
//! saturation bound, so saturated values are rejected exactly as their
//! full values would be.

use vstd::prelude::*;
use vstd::string::StringSliceAdditionalSpecFns;
use crate::caps::Capability;
use crate::input::{Input, RejectReason, TimedInput};
use crate::tokenize::{spec_tokenize, tokenize, Tok, tok_wf};
use crate::MILLISECONDS_PER_FRAME;
use crate::MILLISECONDS_PER_SECOND;

verus! {

/// Default duration of a joystick command without a written duration.
pub const DEFAULT_JOYSTICK_COMMAND_DURATION_MS: u64 = MILLISECONDS_PER_SECOND / 4;

/// Default duration of a button command without a written duration.
pub const DEFAULT_BUTTON_COMMAND_DURATION_MS: u64 = MILLISECONDS_PER_SECOND / 2;

/// Longest permitted joystick command.
pub const MAX_JOYSTICK_COMMAND_DURATION_MS: u64 = 5000;

/// Longest permitted cumulative delay over one line.
pub const MAX_DURATION_PER_LINE_MS: u64 = 30000;

/// Delay added by the `.` shorthand after the previous command finishes.
pub const MILLISECONDS_PER_DOT: u64 = 250;

/// Chaining: a joystick move following a joystick move.
pub const JOYSTICK_TO_JOYSTICK_DELAY_MS: u64 = 2 * MILLISECONDS_PER_FRAME;

/// Chaining: a joystick move following a button press.
pub const BUTTON_TO_JOYSTICK_DELAY_MS: u64 = 0;

/// Chaining: a button press following a button press.
pub const BUTTON_TO_BUTTON_DELAY_MS: u64 = 3 * MILLISECONDS_PER_FRAME;

/// Chaining: a button press following a joystick move starts one frame
/// early, to compensate for button latency (clamped at zero).
pub const JOYSTICK_TO_BUTTON_UNDELAY_MS: u64 = MILLISECONDS_PER_FRAME;

/// One parsed command, relative to the moment of parsing: it starts
/// `offset` milliseconds after `now`.
pub struct RelCmd {
    pub offset: int,
    pub duration: int,
    pub command: Input,
}

/// What the chain-evaluation tracks about the previously emitted command:
/// whether it was a joystick move, and its duration.
pub struct ChainPrev {
    pub is_joystick: bool,
    pub duration: int,
}

/// The cumulative delay at which the next command would start, given the
/// previous command (if the chain is unbroken).
pub open spec fn chain_joy(cum: int, last: Option<ChainPrev>) -> int {
    match last {
        Option::None => cum,
        Option::Some(p) => if p.is_joystick {
            cum + p.duration + JOYSTICK_TO_JOYSTICK_DELAY_MS
        } else {
            cum + p.duration + BUTTON_TO_JOYSTICK_DELAY_MS
        },
    }
}

pub open spec fn chain_btn(cum: int, last: Option<ChainPrev>) -> int {
    match last {
        Option::None => cum,
        Option::Some(p) => if p.is_joystick {
            cum + p.duration - (if p.duration >= JOYSTICK_TO_BUTTON_UNDELAY_MS {
                JOYSTICK_TO_BUTTON_UNDELAY_MS as int
            } else {
                0
            })
        } else {
            cum + p.duration + BUTTON_TO_BUTTON_DELAY_MS
        },
    }
}

/// The previous command's duration, folded in by delay tokens that wait
/// for it to finish.
pub open spec fn prev_duration(last: Option<ChainPrev>) -> int {
    match last {
        Option::None => 0,
        Option::Some(p) => p.duration,
    }
}

/// Evaluate the tokens from index `k` on, with cumulative delay `cum` and
/// chain state `last`.  Returns the commands emitted from there on
/// (offsets relative to the parse moment), or the reason the line is
/// rejected.
pub open spec fn eval_from(
    caps: Capability,
    toks: Seq<Tok>,
    k: int,
    cum: int,
    last: Option<ChainPrev>,
) -> Result<Seq<RelCmd>, RejectReason>
    decreases toks.len() - k,
{
    if k < 0 || k >= toks.len() {
        Ok(Seq::empty())
    } else {
        match toks[k] {
            Tok::Joy { stick, direction_deg, strength_sat, duration_ms_sat } => {
                let cum2 = chain_joy(cum, last);
                let st = match strength_sat {
                    Option::None => 100int,
                    Option::Some(v) => v as int,
                };
                let dur = match duration_ms_sat {
                    Option::None => DEFAULT_JOYSTICK_COMMAND_DURATION_MS as int,
                    Option::Some(v) => v as int,
                };
                if st > 100 {
                    Err(RejectReason::StrengthOutOfRange)
                } else if dur > MAX_JOYSTICK_COMMAND_DURATION_MS {
                    Err(RejectReason::DurationOverCap)
                } else if cum2 > MAX_DURATION_PER_LINE_MS {
                    Err(RejectReason::LineTooLong)
                } else {
                    let cmd = RelCmd {
                        offset: cum2,
                        duration: dur,
                        command: Input::Joystick {
                            stick,
                            direction_deg,
                            strength_pct: st as u8,
                        },
                    };
                    match eval_from(
                        caps,
                        toks,
                        k + 1,
                        cum2,
                        Some(ChainPrev { is_joystick: true, duration: dur }),
                    ) {
                        Result::Err(e) => Err(e),
                        Result::Ok(rest) => Ok(seq![cmd] + rest),
                    }
                }
            },
            Tok::Btn { button, duration_ms_sat } => {
                let cum2 = chain_btn(cum, last);
                let dur = match duration_ms_sat {
                    Option::None => DEFAULT_BUTTON_COMMAND_DURATION_MS as int,
                    Option::Some(v) => v as int,
                };
                let cap = caps.buttons@[button as int].max_duration_ms;
                if dur > cap {
                    Err(RejectReason::DurationOverCap)
                } else if cum2 > MAX_DURATION_PER_LINE_MS {
                    Err(RejectReason::LineTooLong)
                } else {
                    let cmd = RelCmd {
                        offset: cum2,
                        duration: dur,
                        command: Input::Button { button, pressed: true },
                    };
                    match eval_from(
                        caps,
                        toks,
                        k + 1,
                        cum2,
                        Some(ChainPrev { is_joystick: false, duration: dur }),
                    ) {
                        Result::Err(e) => Err(e),
                        Result::Ok(rest) => Ok(seq![cmd] + rest),
                    }
                }
            },
            Tok::DelayMs { delay_ms_sat } => {
                let cum2 = cum + prev_duration(last) + delay_ms_sat;
                if cum2 > MAX_DURATION_PER_LINE_MS {
                    Err(RejectReason::LineTooLong)
                } else {
                    eval_from(caps, toks, k + 1, cum2, None)
                }
            },
            Tok::DelayFrame => {
                let cum2 = cum + MILLISECONDS_PER_FRAME;
                if cum2 > MAX_DURATION_PER_LINE_MS {
                    Err(RejectReason::LineTooLong)
                } else {
                    eval_from(caps, toks, k + 1, cum2, None)
                }
            },
            Tok::DelayFinishFrame => {
                let cum2 = cum + prev_duration(last) + MILLISECONDS_PER_FRAME;
                if cum2 > MAX_DURATION_PER_LINE_MS {
                    Err(RejectReason::LineTooLong)
                } else {
                    eval_from(caps, toks, k + 1, cum2, None)
                }
            },
            Tok::DelayFinishDot => {
                let cum2 = cum + prev_duration(last) + MILLISECONDS_PER_DOT;
                if cum2 > MAX_DURATION_PER_LINE_MS {
                    Err(RejectReason::LineTooLong)
                } else {
                    eval_from(caps, toks, k + 1, cum2, None)
                }
            },
        }
    }
}

/// Evaluate a whole token sequence.
pub open spec fn spec_eval(caps: Capability, toks: Seq<Tok>) -> Result<Seq<RelCmd>, RejectReason> {
    eval_from(caps, toks, 0, 0, None)
}

/// Parse a whole line (as bytes): tokenize, then evaluate.
pub open spec fn spec_parse(caps: Capability, s: Seq<u8>) -> Result<Seq<RelCmd>, RejectReason> {
    match spec_tokenize(s, caps) {
        Option::None => Err(RejectReason::UnmatchedInput),
        Option::Some(toks) => spec_eval(caps, toks),
    }
}

/// The executable result matches the parsed commands, with each start
/// time anchored at `now`.
pub open spec fn cmds_match(cmds: Seq<TimedInput>, rel: Seq<RelCmd>, now: int) -> bool {
    &&& cmds.len() == rel.len()
    &&& forall|i: int|
        0 <= i < cmds.len() ==> {
            &&& (#[trigger] cmds[i]).start_time == now + rel[i].offset
            &&& cmds[i].duration == rel[i].duration
            &&& cmds[i].command == rel[i].command
        }
}

} // verus!

verus! {

/// The chain state as the evaluator carries it at run time.
pub open spec fn chain_of(l: Option<(bool, u64)>) -> Option<ChainPrev> {
    match l {
        Option::None => None,
        Option::Some((j, d)) => Some(ChainPrev { is_joystick: j, duration: d as int }),
    }
}

/// Evaluate a token sequence into timed commands anchored at `now_ms`.
#[verifier::rlimit(100)]
pub fn eval_tokens(caps: &Capability, toks: &Vec<Tok>, now_ms: u64) -> (r: Result<
    Vec<TimedInput>,
    RejectReason,
>)
    requires
        caps.wf(),
        forall|k: int| 0 <= k < toks@.len() ==> tok_wf(#[trigger] toks@[k], *caps),
        now_ms < 0x4000_0000_0000_0000,
    ensures
        match r {
            Result::Ok(cmds) => spec_eval(*caps, toks@) matches Ok(rel) && cmds_match(
                cmds@,
                rel,
                now_ms as int,
            ),
            Result::Err(e) => spec_eval(*caps, toks@) == Err::<Seq<RelCmd>, RejectReason>(e),
        },
{
    let n = toks.len();
    let mut k: usize = 0;
    let mut cum: u64 = 0;
    let mut last: Option<(bool, u64)> = None;
    let mut out: Vec<TimedInput> = Vec::new();
    let ghost mut done: Seq<RelCmd> = Seq::empty();
    proof {
        match eval_from(*caps, toks@, 0, 0, None) {
            Result::Ok(rest) => {
                assert(Seq::<RelCmd>::empty() + rest =~= rest);
            },
            Result::Err(_) => {},
        }
    }
    while k < n
        invariant
            caps.wf(),
            n == toks@.len(),
            k <= n,
            forall|q: int| 0 <= q < toks@.len() ==> tok_wf(#[trigger] toks@[q], *caps),
            now_ms < 0x4000_0000_0000_0000,
            cum <= MAX_DURATION_PER_LINE_MS,
            match last {
                Option::Some(p) => p.1 <= crate::caps::MAX_BUTTON_CAP_MS,
                Option::None => true,
            },
            cmds_match(out@, done, now_ms as int),
            match eval_from(*caps, toks@, k as int, cum as int, chain_of(last)) {
                Result::Ok(rest) => spec_eval(*caps, toks@) == Ok::<Seq<RelCmd>, RejectReason>(
                    done + rest,
                ),
                Result::Err(e) => spec_eval(*caps, toks@) == Err::<Seq<RelCmd>, RejectReason>(e),
            },
        decreases n - k,
    {
        proof {
            assert(tok_wf(toks@[k as int], *caps));
        }
        let t = toks[k];
        match t {
            Tok::Joy { stick, direction_deg, strength_sat, duration_ms_sat } => {
                let cum2: u64 = match last {
                    Option::None => cum,
                    Option::Some((is_joy, pd)) => {
                        if is_joy {
                            cum + pd + JOYSTICK_TO_JOYSTICK_DELAY_MS
                        } else {
                            cum + pd + BUTTON_TO_JOYSTICK_DELAY_MS
                        }
                    },
                };
                let st: u64 = match strength_sat {
                    Option::None => 100,
                    Option::Some(v) => v,
                };
                let dur: u64 = match duration_ms_sat {
                    Option::None => DEFAULT_JOYSTICK_COMMAND_DURATION_MS,
                    Option::Some(v) => v,
                };
                if st > 100 {
                    return Err(RejectReason::StrengthOutOfRange);
                }
                if dur > MAX_JOYSTICK_COMMAND_DURATION_MS {
                    return Err(RejectReason::DurationOverCap);
                }
                if cum2 > MAX_DURATION_PER_LINE_MS {
                    return Err(RejectReason::LineTooLong);
                }
                let cmd = TimedInput {
                    start_time: now_ms + cum2,
                    duration: dur,
                    command: Input::Joystick { stick, direction_deg, strength_pct: st as u8 },
                };
                proof {
                    let rc = RelCmd {
                        offset: cum2 as int,
                        duration: dur as int,
                        command: cmd.command,
                    };
                    match eval_from(
                        *caps,
                        toks@,
                        k + 1,
                        cum2 as int,
                        Some(ChainPrev { is_joystick: true, duration: dur as int }),
                    ) {
                        Result::Ok(rest) => {
                            assert(done + (seq![rc] + rest) =~= (done + seq![rc]) + rest);
                        },
                        Result::Err(_) => {},
                    }
                    done = done + seq![rc];
                }
                out.push(cmd);
                cum = cum2;
                last = Some((true, dur));
            },
            Tok::Btn { button, duration_ms_sat } => {
                let cum2: u64 = match last {
                    Option::None => cum,
                    Option::Some((is_joy, pd)) => {
                        if is_joy {
                            if pd >= JOYSTICK_TO_BUTTON_UNDELAY_MS {
                                cum + pd - JOYSTICK_TO_BUTTON_UNDELAY_MS
                            } else {
                                cum + pd
                            }
                        } else {
                            cum + pd + BUTTON_TO_BUTTON_DELAY_MS
                        }
                    },
                };
                let dur: u64 = match duration_ms_sat {
                    Option::None => DEFAULT_BUTTON_COMMAND_DURATION_MS,
                    Option::Some(v) => v,
                };
                let cap = caps.buttons[button].max_duration_ms;
                if dur > cap {
                    return Err(RejectReason::DurationOverCap);
                }
                if cum2 > MAX_DURATION_PER_LINE_MS {
                    return Err(RejectReason::LineTooLong);
                }
                let cmd = TimedInput {
                    start_time: now_ms + cum2,
                    duration: dur,
                    command: Input::Button { button, pressed: true },
                };
                proof {
                    let rc = RelCmd {
                        offset: cum2 as int,
                        duration: dur as int,
                        command: cmd.command,
                    };
                    match eval_from(
                        *caps,
                        toks@,
                        k + 1,
                        cum2 as int,
                        Some(ChainPrev { is_joystick: false, duration: dur as int }),
                    ) {
                        Result::Ok(rest) => {
                            assert(done + (seq![rc] + rest) =~= (done + seq![rc]) + rest);
                        },
                        Result::Err(_) => {},
                    }
                    done = done + seq![rc];
                }
                out.push(cmd);
                cum = cum2;
                last = Some((false, dur));
            },
            Tok::DelayMs { delay_ms_sat } => {
                let pd: u64 = match last {
                    Option::None => 0,
                    Option::Some((_, d)) => d,
                };
                let cum2: u64 = cum + pd + delay_ms_sat;
                if cum2 > MAX_DURATION_PER_LINE_MS {
                    return Err(RejectReason::LineTooLong);
                }
                cum = cum2;
                last = None;
            },
            Tok::DelayFrame => {
                let cum2: u64 = cum + MILLISECONDS_PER_FRAME;
                if cum2 > MAX_DURATION_PER_LINE_MS {
                    return Err(RejectReason::LineTooLong);
                }
                cum = cum2;
                last = None;
            },
            Tok::DelayFinishFrame => {
                let pd: u64 = match last {
                    Option::None => 0,
                    Option::Some((_, d)) => d,
                };
                let cum2: u64 = cum + pd + MILLISECONDS_PER_FRAME;
                if cum2 > MAX_DURATION_PER_LINE_MS {
                    return Err(RejectReason::LineTooLong);
                }
                cum = cum2;
                last = None;
            },
            Tok::DelayFinishDot => {
                let pd: u64 = match last {
                    Option::None => 0,
                    Option::Some((_, d)) => d,
                };
                let cum2: u64 = cum + pd + MILLISECONDS_PER_DOT;
                if cum2 > MAX_DURATION_PER_LINE_MS {
                    return Err(RejectReason::LineTooLong);
                }
                cum = cum2;
                last = None;
            },
        }
        k = k + 1;
    }
    proof {
        assert(done + Seq::<RelCmd>::empty() =~= done);
    }
    Ok(out)
}

/// Parse one chat line, given as bytes, into timed controller commands.
///
/// The line is accepted only if grammar tokens tile it completely; the
/// commands' start times are `now_ms` plus the cumulative delay computed
/// over the line, and the whole line is rejected (emitting nothing) on
/// any out-of-range field or an over-long cumulative delay.
pub fn parse_bytes_as_commands(caps: &Capability, line: &[u8], now_ms: u64) -> (r: Result<
    Vec<TimedInput>,
    RejectReason,
>)
    requires
        caps.wf(),
        now_ms < 0x4000_0000_0000_0000,
    ensures
        match r {
            Result::Ok(cmds) => spec_parse(*caps, line@) matches Ok(rel) && cmds_match(
                cmds@,
                rel,
                now_ms as int,
            ),
            Result::Err(e) => spec_parse(*caps, line@) == Err::<Seq<RelCmd>, RejectReason>(e),
        },
{
    match tokenize(line, caps) {
        Option::None => Err(RejectReason::UnmatchedInput),
        Option::Some(toks) => {
            proof {
                crate::tokenize::lemma_tokenize_from_wf(line@, *caps, 0);
            }
            eval_tokens(caps, &toks, now_ms)
        },
    }
}

/// Parse one chat line into timed controller commands.
pub fn parse_string_as_commands(caps: &Capability, line: &str, now_ms: u64) -> (r: Result<
    Vec<TimedInput>,
    RejectReason,
>)
    requires
        caps.wf(),
        now_ms < 0x4000_0000_0000_0000,
    ensures
        match r {
            Result::Ok(cmds) => spec_parse(*caps, line.spec_bytes()) matches Ok(rel) && cmds_match(
                cmds@,
                rel,
                now_ms as int,
            ),
            Result::Err(e) => spec_parse(*caps, line.spec_bytes()) == Err::<
                Seq<RelCmd>,
                RejectReason,
            >(e),
        },
{
    parse_bytes_as_commands(caps, line.as_bytes(), now_ms)
}

} // verus!

verus! {

/// All commands of an accepted suffix are range-valid, and their offsets
/// and durations stay within the per-line window.
proof fn lemma_eval_ranges(
    caps: Capability,
    toks: Seq<Tok>,
    k: int,
    cum: int,
    last: Option<ChainPrev>,
)
    requires
        caps.wf(),
        forall|q: int| 0 <= q < toks.len() ==> tok_wf(#[trigger] toks[q], caps),
        0 <= cum <= MAX_DURATION_PER_LINE_MS,
        match last {
            Option::Some(p) => 0 <= p.duration <= crate::caps::MAX_BUTTON_CAP_MS,
            Option::None => true,
        },
    ensures
        match eval_from(caps, toks, k, cum, last) {
            Result::Ok(cmds) => forall|i: int|
                0 <= i < cmds.len() ==> {
                    &&& (#[trigger] cmds[i]).command.valid()
                    &&& 0 <= cmds[i].offset <= MAX_DURATION_PER_LINE_MS
                    &&& 0 <= cmds[i].duration <= crate::caps::MAX_BUTTON_CAP_MS
                    &&& match cmds[i].command {
                        Input::Joystick { stick, .. } => (stick as int) < caps.joysticks@.len(),
                        Input::Button { button, .. } => (button as int) < caps.buttons@.len(),
                    }
                },
            Result::Err(_) => true,
        },
    decreases toks.len() - k,
{
    if 0 <= k < toks.len() {
        match toks[k] {
            Tok::Joy { stick, direction_deg, strength_sat, duration_ms_sat } => {
                assert(tok_wf(toks[k], caps));
                let cum2 = chain_joy(cum, last);
                let st = match strength_sat {
                    Option::None => 100int,
                    Option::Some(v) => v as int,
                };
                let dur = match duration_ms_sat {
                    Option::None => DEFAULT_JOYSTICK_COMMAND_DURATION_MS as int,
                    Option::Some(v) => v as int,
                };
                if st <= 100 && dur <= MAX_JOYSTICK_COMMAND_DURATION_MS && cum2
                    <= MAX_DURATION_PER_LINE_MS {
                    lemma_eval_ranges(
                        caps,
                        toks,
                        k + 1,
                        cum2,
                        Some(ChainPrev { is_joystick: true, duration: dur }),
                    );
                }
            },
            Tok::Btn { button, duration_ms_sat } => {
                assert(tok_wf(toks[k], caps));
                assert(caps.buttons@[button as int].max_duration_ms
                    <= crate::caps::MAX_BUTTON_CAP_MS);
                let cum2 = chain_btn(cum, last);
                let dur = match duration_ms_sat {
                    Option::None => DEFAULT_BUTTON_COMMAND_DURATION_MS as int,
                    Option::Some(v) => v as int,
                };
                let cap = caps.buttons@[button as int].max_duration_ms;
                if dur <= cap && cum2 <= MAX_DURATION_PER_LINE_MS {
                    lemma_eval_ranges(
                        caps,
                        toks,
                        k + 1,
                        cum2,
                        Some(ChainPrev { is_joystick: false, duration: dur }),
                    );
                }
            },
            Tok::DelayMs { delay_ms_sat } => {
                let cum2 = cum + prev_duration(last) + delay_ms_sat;
                if cum2 <= MAX_DURATION_PER_LINE_MS {
                    lemma_eval_ranges(caps, toks, k + 1, cum2, None);
                }
            },
            Tok::DelayFrame => {
                let cum2 = cum + MILLISECONDS_PER_FRAME;
                if cum2 <= MAX_DURATION_PER_LINE_MS {
                    lemma_eval_ranges(caps, toks, k + 1, cum2, None);
                }
            },
            Tok::DelayFinishFrame => {
                let cum2 = cum + prev_duration(last) + MILLISECONDS_PER_FRAME;
                if cum2 <= MAX_DURATION_PER_LINE_MS {
                    lemma_eval_ranges(caps, toks, k + 1, cum2, None);
                }
            },
            Tok::DelayFinishDot => {
                let cum2 = cum + prev_duration(last) + MILLISECONDS_PER_DOT;
                if cum2 <= MAX_DURATION_PER_LINE_MS {
                    lemma_eval_ranges(caps, toks, k + 1, cum2, None);
                }
            },
        }
    }
}

/// Range validity of every accepted line: each parsed joystick command
/// has a direction inside `[0, 360)` and a strength inside `[0, 100]`,
/// and every command starts within the per-line window with a duration
/// within the button-cap bound.  A token that would leave these ranges
/// makes the parser reject the whole line, never clamp it.
pub proof fn lemma_parsed_commands_in_range(caps: Capability, s: Seq<u8>)
    requires
        caps.wf(),
    ensures
        match spec_parse(caps, s) {
            Result::Ok(rel) => forall|i: int|
                0 <= i < rel.len() ==> {
                    &&& (#[trigger] rel[i]).command.valid()
                    &&& 0 <= rel[i].offset <= MAX_DURATION_PER_LINE_MS
                    &&& 0 <= rel[i].duration <= crate::caps::MAX_BUTTON_CAP_MS
                    &&& match rel[i].command {
                        Input::Joystick { stick, .. } => (stick as int) < caps.joysticks@.len(),
                        Input::Button { button, .. } => (button as int) < caps.buttons@.len(),
                    }
                },
            Result::Err(_) => true,
        },
{
    match spec_tokenize(s, caps) {
        Option::None => {},
        Option::Some(toks) => {
            crate::tokenize::lemma_tokenize_from_wf(s, caps, 0);
            lemma_eval_ranges(caps, toks, 0, 0, None);
        },
    }
}

/// Determinism of parsing: two runs over the same line, anchored at two
/// parse moments, accept or reject identically, and accepted runs give
/// the same commands with the same relative offsets and durations.
pub proof fn lemma_parse_deterministic(
    caps: Capability,
    s: Seq<u8>,
    now1: int,
    now2: int,
    cmds1: Seq<TimedInput>,
    cmds2: Seq<TimedInput>,
)
    requires
        spec_parse(caps, s) matches Ok(rel) && cmds_match(cmds1, rel, now1) && cmds_match(
            cmds2,
            rel,
            now2,
        ),
    ensures
        cmds1.len() == cmds2.len(),
        forall|i: int|
            0 <= i < cmds1.len() ==> {
                &&& (#[trigger] cmds1[i]).start_time - now1 == (#[trigger] cmds2[i]).start_time
                    - now2
                &&& cmds1[i].duration == cmds2[i].duration
                &&& cmds1[i].command == cmds2[i].command
            },
{
}

} // verus!

verus! {

proof fn lemma_tokenize_count(caps: Capability, s: Seq<u8>, i: int)
    requires
        caps.wf(),
        0 <= i <= s.len(),
    ensures
        match crate::tokenize::tokenize_from(s, caps, i) {
            Option::Some(toks) => toks.len() <= s.len() - i,
            Option::None => true,
        },
    decreases s.len() - i,
{
    crate::tokenize::lemma_skip_ws_range(s, i);
    let j = crate::tokenize::skip_ws(s, i);
    if j < s.len() {
        crate::tokenize::lemma_token_at_progress(s, caps, j);
        match crate::tokenize::token_at(s, caps, j) {
            Option::Some(r) => {
                lemma_tokenize_count(caps, s, r.1);
            },
            Option::None => {},
        }
    }
}

proof fn lemma_eval_count(
    caps: Capability,
    toks: Seq<Tok>,
    k: int,
    cum: int,
    last: Option<ChainPrev>,
)
    requires
        0 <= k <= toks.len(),
    ensures
        match eval_from(caps, toks, k, cum, last) {
            Result::Ok(cmds) => cmds.len() <= toks.len() - k,
            Result::Err(_) => true,
        },
    decreases toks.len() - k,
{
    if 0 <= k < toks.len() {
        match toks[k] {
            Tok::Joy { stick, direction_deg, strength_sat, duration_ms_sat } => {
                let dur = match duration_ms_sat {
                    Option::None => DEFAULT_JOYSTICK_COMMAND_DURATION_MS as int,
                    Option::Some(v) => v as int,
                };
                lemma_eval_count(
                    caps,
                    toks,
                    k + 1,
                    chain_joy(cum, last),
                    Some(ChainPrev { is_joystick: true, duration: dur }),
                );
            },
            Tok::Btn { button, duration_ms_sat } => {
                let dur = match duration_ms_sat {
                    Option::None => DEFAULT_BUTTON_COMMAND_DURATION_MS as int,
                    Option::Some(v) => v as int,
                };
                lemma_eval_count(
                    caps,
                    toks,
                    k + 1,
                    chain_btn(cum, last),
                    Some(ChainPrev { is_joystick: false, duration: dur }),
                );
            },
            Tok::DelayMs { delay_ms_sat } => {
                lemma_eval_count(caps, toks, k + 1, cum + prev_duration(last) + delay_ms_sat, None);
            },
            Tok::DelayFrame => {
                lemma_eval_count(caps, toks, k + 1, cum + MILLISECONDS_PER_FRAME, None);
            },
            Tok::DelayFinishFrame => {
                lemma_eval_count(
                    caps,
                    toks,
                    k + 1,
                    cum + prev_duration(last) + MILLISECONDS_PER_FRAME,
                    None,
                );
            },
            Tok::DelayFinishDot => {
                lemma_eval_count(
                    caps,
                    toks,
                    k + 1,
                    cum + prev_duration(last) + MILLISECONDS_PER_DOT,
                    None,
                );
            },
        }
    }
}

/// An accepted line never emits more commands than it has bytes.
pub proof fn lemma_parse_token_bound(caps: Capability, s: Seq<u8>)
    requires
        caps.wf(),
    ensures
        match spec_parse(caps, s) {
            Result::Ok(rel) => rel.len() <= s.len(),
            Result::Err(_) => true,
        },
{
    match spec_tokenize(s, caps) {
        Option::None => {},
        Option::Some(toks) => {
            lemma_tokenize_count(caps, s, 0);
            lemma_eval_count(caps, toks, 0, 0, None);
        },
    }
}

} // verus!
