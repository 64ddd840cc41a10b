//! The timed-command scheduler: the aggregation and dispatch engine.
//!
//! Submitted commands wait in a queue until their start time arrives.
//! Each tick, due joystick commands join the active set (until they
//! expire), and due button commands go through admission control: a
//! button whose guard is still held, or whose press would complete a
//! configured illegal combination, is silently refused.  An admitted
//! press holds the button's guard for the press duration plus a fixed
//! cool-down, so no two press cycles of one button ever overlap.  Every
//! tick ends by aggregating the active joystick votes into one polar
//! target per joystick and emitting the axis writes for it — so a stick
//! returns to neutral within one tick of its last vote expiring.
//!
//! The scheduler itself is a pure state machine over logical milliseconds:
//! it decides, and returns the device writes to perform, but performs no
//! waiting and no device access itself.

use vstd::prelude::*;
use crate::aggregate::{aggregate, is_best_direction, spec_strength, sum_x, sum_y, Polar, MAX_VOTES};
use crate::caps::{name_index_from, Capability};
use crate::input::{Input, TimedInput};
use crate::trig::{spec_cos_milli, spec_sin_milli};

verus! {

/// After a press's duration, its button guard stays held this much
/// longer, so rapid re-votes cannot flicker the button between frames.
pub const BUTTON_RELEASE_COOLDOWN_MS: u64 = 83;

/// Machine bound on one command's duration.
pub const MAX_COMMAND_DURATION_MS: u64 = 0x1_0000_0000;

/// Machine bound on absolute times handled by the scheduler.
pub const MAX_TIME_MS: u64 = 0x7000_0000_0000_0000;

/// The configured list of forbidden button combinations, by name: do not
/// press the first button while all of the other buttons are held.
#[derive(Clone)]
pub struct ControllerConstraints {
    pub illegal_combinations: Vec<(Vec<u8>, Vec<Vec<u8>>)>,
}

/// One device write the tick loop asks the output port to perform.
#[derive(Clone, Copy, PartialEq, Eq, Structural, Debug)]
pub enum DeviceAction {
    /// Set a raw axis value.
    SetAxis { hid: u32, value: i64 },
    /// Press a button now and release it after the given duration.
    PressButton { index: u8, duration_ms: u64 },
}

/// A command the scheduler can hold: valid ranges, indices inside the
/// capability table, and magnitudes inside the machine bounds.
pub open spec fn cmd_wf(cmd: TimedInput, caps: Capability) -> bool {
    &&& cmd.command.valid()
    &&& match cmd.command {
        Input::Joystick { stick, .. } => (stick as int) < caps.joysticks@.len(),
        Input::Button { button, .. } => (button as int) < caps.buttons@.len(),
    }
    &&& cmd.duration <= MAX_COMMAND_DURATION_MS
    &&& cmd.start_time <= MAX_TIME_MS
}

/// The vote-aggregating timed-command scheduler for one controller.
pub struct Scheduler {
    /// The controller this scheduler drives.
    pub capability: Capability,
    /// Illegal combinations, resolved to button indices: `(b, req)` means
    /// do not press `b` while every button in `req` is held.
    pub rules: Vec<(usize, Vec<usize>)>,
    /// Submitted commands whose start time has not arrived.
    pub queued: Vec<TimedInput>,
    /// Joystick commands whose time window is running.
    pub active: Vec<TimedInput>,
    /// Per-button guard: the absolute time until which the button's
    /// current press cycle (press, hold, release, cool-down) runs.
    pub guards: Vec<u64>,
}

/// Button `b`'s guard is held at `now`: a press cycle is in flight.
pub open spec fn guard_held(guards: Seq<u64>, b: int, now: int) -> bool {
    guards[b] > now
}

/// Pressing button `b` now would complete a forbidden combination: some
/// rule constrains `b` and all of that rule's other buttons are held.
pub open spec fn completes_illegal(
    guards: Seq<u64>,
    rules: Seq<(usize, Vec<usize>)>,
    b: int,
    now: int,
) -> bool {
    exists|i: int|
        0 <= i < rules.len() && (#[trigger] rules[i]).0 == b && forall|j: int|
            0 <= j < rules[i].1@.len() ==> guard_held(guards, #[trigger] rules[i].1@[j] as int, now)
}

/// Admission: a due button vote becomes a press only if the button's
/// guard is free and pressing it completes no illegal combination; the
/// guard is then held for the duration plus the cool-down.
pub open spec fn admit_ok(
    guards: Seq<u64>,
    rules: Seq<(usize, Vec<usize>)>,
    b: int,
    now: int,
) -> bool {
    !guard_held(guards, b, now) && !completes_illegal(guards, rules, b, now)
}

impl Scheduler {
    /// The resolved rules agree with the configured constraints: rule by
    /// rule, each name resolved to its (first) capability index.
    pub open spec fn rules_resolve(
        rules: Seq<(usize, Vec<usize>)>,
        constraints: ControllerConstraints,
        caps: Capability,
    ) -> bool {
        &&& rules.len() == constraints.illegal_combinations@.len()
        &&& forall|i: int|
            0 <= i < rules.len() ==> {
                &&& caps.spec_find_button(constraints.illegal_combinations@[i].0@) == Some(
                    (#[trigger] rules[i]).0 as int,
                )
                &&& rules[i].1@.len() == constraints.illegal_combinations@[i].1@.len()
                &&& forall|j: int|
                    0 <= j < rules[i].1@.len() ==> caps.spec_find_button(
                        constraints.illegal_combinations@[i].1@[j]@,
                    ) == Some(#[trigger] rules[i].1@[j] as int)
            }
    }

    /// Every name of the constraints resolves to a button.
    pub open spec fn constraints_ok(constraints: ControllerConstraints, caps: Capability) -> bool {
        forall|i: int|
            0 <= i < constraints.illegal_combinations@.len() ==> {
                &&& caps.spec_find_button(
                    (#[trigger] constraints.illegal_combinations@[i]).0@,
                ) is Some
                &&& forall|j: int|
                    0 <= j < constraints.illegal_combinations@[i].1@.len() ==> caps.spec_find_button(
                        (#[trigger] constraints.illegal_combinations@[i].1@[j])@,
                    ) is Some
            }
    }

    /// Internal well-formedness: the capability is sound, the rules point
    /// at real buttons, every held command is valid for the capability,
    /// the active set holds joystick commands only, and there is one
    /// guard per button.
    pub open spec fn wf(self) -> bool {
        &&& self.capability.wf()
        &&& self.guards@.len() == self.capability.buttons@.len()
        &&& forall|i: int|
            0 <= i < self.rules@.len() ==> {
                &&& ((#[trigger] self.rules@[i]).0 as int) < self.capability.buttons@.len()
                &&& forall|j: int|
                    0 <= j < self.rules@[i].1@.len() ==> ((#[trigger] self.rules@[i].1@[j]) as int)
                        < self.capability.buttons@.len()
            }
        &&& forall|i: int|
            0 <= i < self.queued@.len() ==> cmd_wf(#[trigger] self.queued@[i], self.capability)
        &&& forall|i: int|
            0 <= i < self.active@.len() ==> cmd_wf(#[trigger] self.active@[i], self.capability)
                && self.active@[i].command is Joystick
        &&& self.queued@.len() + self.active@.len() <= MAX_VOTES
    }

    /// Build a scheduler over a capability table and a set of illegal
    /// combinations.  Fails (before accepting any vote) exactly when a
    /// constraint names a button the capability does not have.
    pub fn new(capability: Capability, constraints: &ControllerConstraints) -> (r: Result<
        Scheduler,
        u8,
    >)
        requires
            capability.wf(),
        ensures
            match r {
                Result::Ok(s) => {
                    &&& Self::constraints_ok(*constraints, capability)
                    &&& s.wf()
                    &&& s.capability == capability
                    &&& Self::rules_resolve(s.rules@, *constraints, capability)
                    &&& s.queued@.len() == 0
                    &&& s.active@.len() == 0
                    &&& s.guards@.len() == capability.buttons@.len()
                    &&& forall|i: int| 0 <= i < s.guards@.len() ==> #[trigger] s.guards@[i] == 0
                },
                Result::Err(_) => !Self::constraints_ok(*constraints, capability),
            },
    {
        let mut rules: Vec<(usize, Vec<usize>)> = Vec::new();
        let ncombos = constraints.illegal_combinations.len();
        let mut i: usize = 0;
        while i < ncombos
            invariant
                capability.wf(),
                ncombos == constraints.illegal_combinations@.len(),
                i <= ncombos,
                rules@.len() == i,
                forall|k: int|
                    0 <= k < i as int ==> {
                        &&& capability.spec_find_button(
                            constraints.illegal_combinations@[k].0@,
                        ) == Some((#[trigger] rules@[k]).0 as int)
                        &&& ((#[trigger] rules@[k]).0 as int) < capability.buttons@.len()
                        &&& rules@[k].1@.len() == constraints.illegal_combinations@[k].1@.len()
                        &&& forall|j: int|
                            0 <= j < rules@[k].1@.len() ==> {
                                &&& capability.spec_find_button(
                                    constraints.illegal_combinations@[k].1@[j]@,
                                ) == Some(#[trigger] rules@[k].1@[j] as int)
                                &&& (rules@[k].1@[j] as int) < capability.buttons@.len()
                            }
                    },
            decreases ncombos - i,
        {
            let (name, others) = &constraints.illegal_combinations[i];
            let b = match capability.find_button(name.as_slice()) {
                Option::Some(b) => b,
                Option::None => {
                    return Err(1);
                },
            };
            let mut req: Vec<usize> = Vec::new();
            let nothers = others.len();
            let mut j: usize = 0;
            while j < nothers
                invariant
                    capability.wf(),
                    nothers == others@.len(),
                    others@ == constraints.illegal_combinations@[i as int].1@,
                    i < constraints.illegal_combinations@.len(),
                    j <= nothers,
                    req@.len() == j,
                    forall|q: int|
                        0 <= q < j as int ==> {
                            &&& capability.spec_find_button(
                                constraints.illegal_combinations@[i as int].1@[q]@,
                            ) == Some(#[trigger] req@[q] as int)
                            &&& (req@[q] as int) < capability.buttons@.len()
                        },
                decreases nothers - j,
            {
                match capability.find_button(others[j].as_slice()) {
                    Option::Some(rb) => {
                        req.push(rb);
                    },
                    Option::None => {
                        return Err(1);
                    },
                }
                j = j + 1;
            }
            rules.push((b, req));
            i = i + 1;
        }
        let mut guards: Vec<u64> = Vec::new();
        let nbtn = capability.buttons.len();
        let mut g: usize = 0;
        while g < nbtn
            invariant
                g <= nbtn,
                guards@.len() == g,
                forall|k: int| 0 <= k < g as int ==> #[trigger] guards@[k] == 0,
            decreases nbtn - g,
        {
            guards.push(0);
            g = g + 1;
        }
        proof {
            assert forall|k: int| 0 <= k < constraints.illegal_combinations@.len() implies {
                &&& capability.spec_find_button(
                    (#[trigger] constraints.illegal_combinations@[k]).0@,
                ) is Some
                &&& forall|j: int|
                    0 <= j < constraints.illegal_combinations@[k].1@.len()
                        ==> capability.spec_find_button(
                        (#[trigger] constraints.illegal_combinations@[k].1@[j])@,
                    ) is Some
            } by {
                assert(capability.spec_find_button(constraints.illegal_combinations@[k].0@)
                    == Some(rules@[k].0 as int));
                assert forall|j: int|
                    0 <= j < constraints.illegal_combinations@[k].1@.len()
                        implies capability.spec_find_button(
                        (constraints.illegal_combinations@[k].1@[j])@,
                    ) is Some by {
                    assert(capability.spec_find_button(constraints.illegal_combinations@[k].1@[j]@)
                        == Some(rules@[k].1@[j] as int));
                }
            }
        }
        Ok(
            Scheduler {
                capability,
                rules,
                queued: Vec::new(),
                active: Vec::new(),
                guards,
            },
        )
    }

    /// Submit one timed command.  Non-blocking from the caller's point of
    /// view: the command only joins the queue, and a later tick promotes
    /// or dispatches it when its start time has arrived.
    pub fn submit(&mut self, cmd: TimedInput)
        requires
            old(self).wf(),
            cmd_wf(cmd, old(self).capability),
            old(self).queued@.len() + old(self).active@.len() < MAX_VOTES,
        ensures
            final(self).wf(),
            final(self).queued@ == old(self).queued@.push(cmd),
            final(self).active == old(self).active,
            final(self).guards == old(self).guards,
            final(self).rules == old(self).rules,
            final(self).capability == old(self).capability,
    {
        self.queued.push(cmd);
    }

    /// Admission control for one button vote at `now_ms`.
    ///
    /// Returns `true` — and starts the guard's hold window — exactly when
    /// the button's guard is free and pressing the button completes no
    /// illegal combination.  A refused vote changes nothing and is never
    /// retried.  An admitted vote holds the guard until
    /// `now + duration + cool-down`.
    pub fn try_admit(&mut self, button: usize, duration_ms: u64, now_ms: u64) -> (admitted: bool)
        requires
            old(self).wf(),
            (button as int) < old(self).capability.buttons@.len(),
            duration_ms <= MAX_COMMAND_DURATION_MS,
            now_ms <= MAX_TIME_MS,
        ensures
            final(self).wf(),
            admitted == admit_ok(old(self).guards@, old(self).rules@, button as int, now_ms as int),
            admitted ==> final(self).guards@ == old(self).guards@.update(
                button as int,
                (now_ms + duration_ms + BUTTON_RELEASE_COOLDOWN_MS) as u64,
            ),
            !admitted ==> final(self).guards@ == old(self).guards@,
            final(self).queued == old(self).queued,
            final(self).active == old(self).active,
            final(self).rules == old(self).rules,
            final(self).capability == old(self).capability,
    {
        if self.guards[button] > now_ms {
            return false;
        }
        let nrules = self.rules.len();
        let mut i: usize = 0;
        while i < nrules
            invariant
                old(self).wf(),
                *self == *old(self),
                nrules == self.rules@.len(),
                i <= nrules,
                (button as int) < self.capability.buttons@.len(),
                now_ms <= MAX_TIME_MS,
                forall|k: int|
                    0 <= k < i as int ==> !((#[trigger] self.rules@[k]).0 == button && forall|
                        j: int,
                    |
                        0 <= j < self.rules@[k].1@.len() ==> guard_held(
                            self.guards@,
                            #[trigger] self.rules@[k].1@[j] as int,
                            now_ms as int,
                        )),
            decreases nrules - i,
        {
            let (rb, req) = &self.rules[i];
            if *rb == button {
                let nreq = req.len();
                let mut j: usize = 0;
                let mut all_held = true;
                while j < nreq
                    invariant
                        old(self).wf(),
                        *self == *old(self),
                        i < self.rules@.len(),
                        req@ == self.rules@[i as int].1@,
                        nreq == req@.len(),
                        j <= nreq,
                        now_ms <= MAX_TIME_MS,
                        all_held == forall|q: int|
                            0 <= q < j as int ==> guard_held(
                                self.guards@,
                                #[trigger] req@[q] as int,
                                now_ms as int,
                            ),
                    decreases nreq - j,
                {
                    let rq = req[j];
                    proof {
                        assert((#[trigger] self.rules@[i as int].1@[j as int] as int)
                            < self.capability.buttons@.len());
                    }
                    if self.guards[rq] <= now_ms {
                        all_held = false;
                    }
                    j = j + 1;
                    proof {
                        if !all_held {
                        } else {
                            assert(forall|q: int|
                                0 <= q < j as int ==> guard_held(
                                    self.guards@,
                                    #[trigger] req@[q] as int,
                                    now_ms as int,
                                ));
                        }
                    }
                }
                if all_held {
                    proof {
                        assert(completes_illegal(
                            self.guards@,
                            self.rules@,
                            button as int,
                            now_ms as int,
                        ));
                    }
                    return false;
                }
            }
            i = i + 1;
        }
        let hold_until = now_ms + duration_ms + BUTTON_RELEASE_COOLDOWN_MS;
        self.guards.set(button, hold_until);
        true
    }
}

} // verus!

verus! {

/// What one dispatch pass over the queue produces: the commands still
/// pending, the joystick commands promoted to the active set, the guards
/// after the admissions, and the presses to perform (button index and
/// press duration), in queue order.
pub struct DispatchOut {
    pub queued: Seq<TimedInput>,
    pub promoted: Seq<TimedInput>,
    pub guards: Seq<u64>,
    pub presses: Seq<(usize, u64)>,
}

/// One pass over the queued commands at time `now`: a command whose start
/// time has not arrived stays queued; a due joystick command is promoted;
/// a due button command goes through admission (its vote is dropped
/// either way), updating the guards as admissions succeed, in order.
pub open spec fn spec_dispatch(
    guards: Seq<u64>,
    rules: Seq<(usize, Vec<usize>)>,
    q: Seq<TimedInput>,
    now: int,
) -> DispatchOut
    decreases q.len(),
{
    if q.len() == 0 {
        DispatchOut { queued: Seq::empty(), promoted: Seq::empty(), guards, presses: Seq::empty() }
    } else {
        let c = q[0];
        if c.start_time > now {
            let rest = spec_dispatch(guards, rules, q.drop_first(), now);
            DispatchOut {
                queued: seq![c] + rest.queued,
                promoted: rest.promoted,
                guards: rest.guards,
                presses: rest.presses,
            }
        } else {
            match c.command {
                Input::Joystick { .. } => {
                    let rest = spec_dispatch(guards, rules, q.drop_first(), now);
                    DispatchOut {
                        queued: rest.queued,
                        promoted: seq![c] + rest.promoted,
                        guards: rest.guards,
                        presses: rest.presses,
                    }
                },
                Input::Button { button, .. } => {
                    if admit_ok(guards, rules, button as int, now) {
                        let g2 = guards.update(
                            button as int,
                            (now + c.duration + BUTTON_RELEASE_COOLDOWN_MS) as u64,
                        );
                        let rest = spec_dispatch(g2, rules, q.drop_first(), now);
                        DispatchOut {
                            queued: rest.queued,
                            promoted: rest.promoted,
                            guards: rest.guards,
                            presses: seq![(button, c.duration)] + rest.presses,
                        }
                    } else {
                        let rest = spec_dispatch(guards, rules, q.drop_first(), now);
                        DispatchOut {
                            queued: rest.queued,
                            promoted: rest.promoted,
                            guards: rest.guards,
                            presses: rest.presses,
                        }
                    }
                },
            }
        }
    }
}

/// The commands whose time window is still running at `now`.
pub open spec fn keep_live(a: Seq<TimedInput>, now: int) -> Seq<TimedInput>
    decreases a.len(),
{
    if a.len() == 0 {
        Seq::empty()
    } else if a[0].start_time + a[0].duration > now {
        seq![a[0]] + keep_live(a.drop_first(), now)
    } else {
        keep_live(a.drop_first(), now)
    }
}

pub proof fn lemma_keep_live_concat(a: Seq<TimedInput>, b: Seq<TimedInput>, now: int)
    ensures
        keep_live(a + b, now) == keep_live(a, now) + keep_live(b, now),
    decreases a.len(),
{
    if a.len() == 0 {
        assert(a + b =~= b);
        assert(Seq::<TimedInput>::empty() + keep_live(b, now) =~= keep_live(b, now));
    } else {
        assert((a + b).drop_first() =~= a.drop_first() + b);
        lemma_keep_live_concat(a.drop_first(), b, now);
        if a[0].start_time + a[0].duration > now {
            assert(seq![a[0]] + (keep_live(a.drop_first(), now) + keep_live(b, now)) =~= (seq![
                a[0],
            ] + keep_live(a.drop_first(), now)) + keep_live(b, now));
        }
    }
}

/// The active votes aimed at one joystick, as polar targets.
pub open spec fn votes_for(a: Seq<TimedInput>, stick: int) -> Seq<Polar>
    decreases a.len(),
{
    if a.len() == 0 {
        Seq::empty()
    } else {
        let rest = votes_for(a.drop_first(), stick);
        match a[0].command {
            Input::Joystick { stick: s2, direction_deg, strength_pct } => {
                if s2 == stick {
                    seq![Polar { direction_deg, strength_pct }] + rest
                } else {
                    rest
                }
            },
            Input::Button { .. } => rest,
        }
    }
}

pub proof fn lemma_votes_for_len(a: Seq<TimedInput>, stick: int)
    ensures
        votes_for(a, stick).len() <= a.len(),
    decreases a.len(),
{
    if a.len() > 0 {
        lemma_votes_for_len(a.drop_first(), stick);
    }
}

/// The neutral stick position.
pub open spec fn neutral() -> Polar {
    Polar { direction_deg: 0, strength_pct: 0 }
}

/// `p` is the correct aggregate of `votes`: neutral when no vote is
/// active, otherwise the scan direction of the summed vote vectors and
/// the summed vector's magnitude, rounded and clamped.
pub open spec fn aggregate_ok(votes: Seq<Polar>, p: Polar) -> bool {
    &&& p.valid()
    &&& if votes.len() == 0 {
        p == neutral()
    } else {
        &&& is_best_direction(sum_x(votes), sum_y(votes), p.direction_deg as int)
        &&& p.strength_pct == spec_strength(sum_x(votes), sum_y(votes))
    }
}

pub open spec fn some_int(o: Option<int>) -> int {
    match o {
        Option::Some(i) => i,
        Option::None => 0,
    }
}

/// The raw axis value for a deflection: the axis midpoint plus the
/// deflection's share of the midpoint, where the deflection is a cosine
/// or sine in milli units times a strength percentage (so `100000` is
/// full positive deflection).
pub open spec fn axis_raw(min: int, max: int, c: int, pct: int) -> int {
    let mid = (max - min) / 2;
    let prod = c * pct * mid;
    if prod >= 0 {
        mid + prod / 100000
    } else {
        mid - ((-prod) / 100000)
    }
}

/// The axis write for one component of a joystick target.
pub open spec fn axis_action(caps: Capability, ai: int, c: int, pct: int) -> DeviceAction {
    DeviceAction::SetAxis {
        hid: caps.axes@[ai].hid,
        value: axis_raw(caps.axes@[ai].min as int, caps.axes@[ai].max as int, c, pct) as i64,
    }
}

/// The two axis writes `a1`, `a2` drive joystick `j` to the correct
/// aggregate of the active votes aimed at it: some polar target `p`
/// aggregates those votes, and the writes set the joystick's x and y
/// axes to `p`'s decomposition.
pub open spec fn joystick_pair_ok(
    caps: Capability,
    live: Seq<TimedInput>,
    j: int,
    a1: DeviceAction,
    a2: DeviceAction,
) -> bool {
    exists|p: Polar|
        {
            &&& #[trigger] aggregate_ok(votes_for(live, j), p)
            &&& a1 == axis_action(
                caps,
                some_int(caps.spec_find_axis(caps.joysticks@[j].x_axis@)),
                spec_cos_milli(p.direction_deg as int),
                p.strength_pct as int,
            )
            &&& a2 == axis_action(
                caps,
                some_int(caps.spec_find_axis(caps.joysticks@[j].y_axis@)),
                spec_sin_milli(p.direction_deg as int),
                p.strength_pct as int,
            )
        }
}

} // verus!

verus! {

impl Scheduler {
    /// One tick of the engine at time `now_ms`.
    ///
    /// Promotes due joystick votes, runs admission over due button votes
    /// in queue order, expires finished joystick votes, and returns the
    /// device writes: one press per admitted vote, then, for every
    /// joystick of the capability table, the two axis writes of its
    /// freshly aggregated target (neutral when no vote is active).
    #[verifier::rlimit(100)]
    pub fn tick(&mut self, now_ms: u64) -> (actions: Vec<DeviceAction>)
        requires
            old(self).wf(),
            now_ms <= MAX_TIME_MS,
        ensures
            final(self).wf(),
            final(self).capability == old(self).capability,
            final(self).rules == old(self).rules,
            ({
                let d = spec_dispatch(
                    old(self).guards@,
                    old(self).rules@,
                    old(self).queued@,
                    now_ms as int,
                );
                let live = keep_live(old(self).active@ + d.promoted, now_ms as int);
                let nj = old(self).capability.joysticks@.len();
                &&& final(self).queued@ == d.queued
                &&& final(self).guards@ == d.guards
                &&& final(self).active@ == live
                &&& actions@.len() == d.presses.len() + 2 * nj
                &&& forall|i: int|
                    0 <= i < d.presses.len() ==> actions@[i] == (DeviceAction::PressButton {
                        index: old(self).capability.buttons@[(#[trigger] d.presses[i]).0 as int].index,
                        duration_ms: d.presses[i].1,
                    })
                &&& forall|j: int|
                    0 <= j < nj ==> #[trigger] joystick_pair_ok(
                        old(self).capability,
                        live,
                        j,
                        actions@[d.presses.len() + 2 * j],
                        actions@[d.presses.len() + 2 * j + 1],
                    )
            }),
    {
        let ghost g0 = self.guards@;
        let ghost q0 = self.queued@;
        let ghost a0 = self.active@;
        let nq = self.queued.len();
        let mut newq: Vec<TimedInput> = Vec::new();
        let mut promoted: Vec<TimedInput> = Vec::new();
        let mut presses: Vec<(usize, u64)> = Vec::new();
        let mut i: usize = 0;
        proof {
            let d0 = spec_dispatch(g0, self.rules@, q0, now_ms as int);
            assert(q0.skip(0) =~= q0);
            assert(Seq::<TimedInput>::empty() + d0.queued =~= d0.queued);
            assert(Seq::<TimedInput>::empty() + d0.promoted =~= d0.promoted);
            assert(Seq::<(usize, u64)>::empty() + d0.presses =~= d0.presses);
        }
        while i < nq
            invariant
                self.wf(),
                self.capability == old(self).capability,
                self.rules == old(self).rules,
                self.queued@ == q0,
                self.active@ == a0,
                q0 == old(self).queued@,
                a0 == old(self).active@,
                now_ms <= MAX_TIME_MS,
                nq == q0.len(),
                i <= nq,
                newq@.len() + promoted@.len() <= i,
                forall|k: int|
                    0 <= k < newq@.len() ==> cmd_wf(#[trigger] newq@[k], self.capability),
                forall|k: int|
                    0 <= k < promoted@.len() ==> cmd_wf(#[trigger] promoted@[k], self.capability)
                        && promoted@[k].command is Joystick,
                forall|k: int|
                    0 <= k < presses@.len() ==> ((#[trigger] presses@[k]).0 as int)
                        < self.capability.buttons@.len(),
                ({
                    let d = spec_dispatch(g0, self.rules@, q0, now_ms as int);
                    let dr = spec_dispatch(self.guards@, self.rules@, q0.skip(i as int), now_ms as int);
                    &&& d.queued == newq@ + dr.queued
                    &&& d.promoted == promoted@ + dr.promoted
                    &&& d.guards == dr.guards
                    &&& d.presses == presses@ + dr.presses
                }),
            decreases nq - i,
        {
            let cmd = self.queued[i];
            proof {
                assert(cmd_wf(q0[i as int], self.capability));
                assert(q0.skip(i as int)[0] == q0[i as int]);
                assert(q0.skip(i as int).drop_first() =~= q0.skip(i as int + 1));
            }
            let ghost pre_guards = self.guards@;
            let ghost dr_pre = spec_dispatch(pre_guards, self.rules@, q0.skip(i as int), now_ms as int);
            if cmd.start_time > now_ms {
                proof {
                    let drn = spec_dispatch(pre_guards, self.rules@, q0.skip(i as int + 1), now_ms as int);
                    assert(dr_pre.queued =~= seq![cmd] + drn.queued);
                    assert(newq@ + (seq![cmd] + drn.queued) =~= (newq@ + seq![cmd]) + drn.queued);
                    assert((newq@ + seq![cmd]) =~= newq@.push(cmd));
                }
                newq.push(cmd);
            } else {
                match cmd.command {
                    Input::Joystick { .. } => {
                        proof {
                            let drn = spec_dispatch(pre_guards, self.rules@, q0.skip(i as int + 1), now_ms as int);
                            assert(dr_pre.promoted =~= seq![cmd] + drn.promoted);
                            assert(promoted@ + (seq![cmd] + drn.promoted) =~= (promoted@ + seq![
                                cmd,
                            ]) + drn.promoted);
                            assert((promoted@ + seq![cmd]) =~= promoted@.push(cmd));
                        }
                        promoted.push(cmd);
                    },
                    Input::Button { button, .. } => {
                        let adm = self.try_admit(button, cmd.duration, now_ms);
                        if adm {
                            proof {
                                let drn = spec_dispatch(self.guards@, self.rules@, q0.skip(i as int + 1), now_ms as int);
                                assert(dr_pre.presses =~= seq![(button, cmd.duration)]
                                    + drn.presses);
                                assert(presses@ + (seq![(button, cmd.duration)] + drn.presses) =~= (
                                presses@ + seq![(button, cmd.duration)]) + drn.presses);
                                assert((presses@ + seq![(button, cmd.duration)]) =~= presses@.push(
                                    (button, cmd.duration),
                                ));
                            }
                            presses.push((button, cmd.duration));
                        }
                    },
                }
            }
            i = i + 1;
        }
        proof {
            assert(q0.skip(nq as int) =~= Seq::<TimedInput>::empty());
            let d = spec_dispatch(g0, self.rules@, q0, now_ms as int);
            let dr = spec_dispatch(self.guards@, self.rules@, q0.skip(nq as int), now_ms as int);
            assert(dr.queued =~= Seq::<TimedInput>::empty());
            assert(newq@ + dr.queued =~= newq@);
            assert(promoted@ + dr.promoted =~= promoted@);
            assert(presses@ + dr.presses =~= presses@);
        }
        self.queued = newq;
        // Expire finished joystick votes, folding in the fresh promotions.
        let mut live: Vec<TimedInput> = Vec::new();
        let na = self.active.len();
        let mut t: usize = 0;
        proof {
            lemma_keep_live_concat(a0, promoted@, now_ms as int);
            assert(a0.skip(0) =~= a0);
            assert(Seq::<TimedInput>::empty() + keep_live(a0, now_ms as int) =~= keep_live(
                a0,
                now_ms as int,
            ));
        }
        while t < na
            invariant
                na == a0.len(),
                self.active@ == a0,
                t <= na,
                now_ms <= MAX_TIME_MS,
                live@.len() <= t,
                forall|k: int|
                    0 <= k < live@.len() ==> cmd_wf(#[trigger] live@[k], self.capability)
                        && live@[k].command is Joystick,
                forall|k: int|
                    0 <= k < a0.len() ==> cmd_wf(#[trigger] a0[k], self.capability)
                        && a0[k].command is Joystick,
                self.capability == old(self).capability,
                keep_live(a0, now_ms as int) == live@ + keep_live(a0.skip(t as int), now_ms as int),
            decreases na - t,
        {
            let cmd = self.active[t];
            proof {
                assert(a0.skip(t as int)[0] == a0[t as int]);
                assert(a0.skip(t as int).drop_first() =~= a0.skip(t as int + 1));
                let kn = keep_live(a0.skip(t as int + 1), now_ms as int);
                if a0[t as int].start_time + a0[t as int].duration > now_ms as int {
                    assert(live@ + (seq![cmd] + kn) =~= (live@ + seq![cmd]) + kn);
                    assert(live@ + seq![cmd] =~= live@.push(cmd));
                }
            }
            if cmd.start_time + cmd.duration > now_ms {
                live.push(cmd);
            }
            t = t + 1;
        }
        proof {
            assert(a0.skip(na as int) =~= Seq::<TimedInput>::empty());
            assert(live@ + keep_live(Seq::<TimedInput>::empty(), now_ms as int) =~= live@);
        }
        let np = promoted.len();
        let mut u: usize = 0;
        proof {
            assert(promoted@.skip(0) =~= promoted@);
        }
        while u < np
            invariant
                np == promoted@.len(),
                u <= np,
                now_ms <= MAX_TIME_MS,
                live@.len() <= a0.len() + u,
                forall|k: int|
                    0 <= k < live@.len() ==> cmd_wf(#[trigger] live@[k], self.capability)
                        && live@[k].command is Joystick,
                forall|k: int|
                    0 <= k < promoted@.len() ==> cmd_wf(#[trigger] promoted@[k], self.capability)
                        && promoted@[k].command is Joystick,
                self.capability == old(self).capability,
                keep_live(a0, now_ms as int) + keep_live(promoted@, now_ms as int) == live@
                    + keep_live(promoted@.skip(u as int), now_ms as int),
            decreases np - u,
        {
            let cmd = promoted[u];
            proof {
                assert(promoted@.skip(u as int)[0] == promoted@[u as int]);
                assert(promoted@.skip(u as int).drop_first() =~= promoted@.skip(u as int + 1));
                let kn = keep_live(promoted@.skip(u as int + 1), now_ms as int);
                if promoted@[u as int].start_time + promoted@[u as int].duration > now_ms as int {
                    assert(live@ + (seq![cmd] + kn) =~= (live@ + seq![cmd]) + kn);
                    assert(live@ + seq![cmd] =~= live@.push(cmd));
                }
            }
            if cmd.start_time + cmd.duration > now_ms {
                live.push(cmd);
            }
            u = u + 1;
        }
        proof {
            assert(promoted@.skip(np as int) =~= Seq::<TimedInput>::empty());
            assert(live@ + keep_live(Seq::<TimedInput>::empty(), now_ms as int) =~= live@);
        }
        self.active = live;
        // Emit the press actions, in admission order.
        let mut actions: Vec<DeviceAction> = Vec::new();
        let npresses = presses.len();
        let mut w: usize = 0;
        while w < npresses
            invariant
                self.wf(),
                self.capability == old(self).capability,
                npresses == presses@.len(),
                w <= npresses,
                actions@.len() == w,
                forall|k: int|
                    0 <= k < presses@.len() ==> ((#[trigger] presses@[k]).0 as int)
                        < self.capability.buttons@.len(),
                forall|k: int|
                    0 <= k < w as int ==> actions@[k] == (DeviceAction::PressButton {
                        index: self.capability.buttons@[(#[trigger] presses@[k]).0 as int].index,
                        duration_ms: presses@[k].1,
                    }),
            decreases npresses - w,
        {
            let (b, dur) = presses[w];
            let idx = self.capability.buttons[b].index;
            actions.push(DeviceAction::PressButton { index: idx, duration_ms: dur });
            w = w + 1;
        }
        // Aggregate and emit every joystick's axis writes.
        let nj = self.capability.joysticks.len();
        let mut j: usize = 0;
        while j < nj
            invariant
                self.wf(),
                self.capability == old(self).capability,
                nj == self.capability.joysticks@.len(),
                j <= nj,
                npresses == presses@.len(),
                actions@.len() == npresses + 2 * j,
                forall|k: int|
                    0 <= k < npresses as int ==> actions@[k] == (DeviceAction::PressButton {
                        index: self.capability.buttons@[(#[trigger] presses@[k]).0 as int].index,
                        duration_ms: presses@[k].1,
                    }),
                forall|j2: int|
                    0 <= j2 < j as int ==> #[trigger] joystick_pair_ok(
                        self.capability,
                        self.active@,
                        j2,
                        actions@[npresses + 2 * j2],
                        actions@[npresses + 2 * j2 + 1],
                    ),
            decreases nj - j,
        {
            let pair = stick_pair(&self.capability, &self.active, j);
            actions.push(pair.0);
            actions.push(pair.1);
            proof {
                assert(joystick_pair_ok(
                    self.capability,
                    self.active@,
                    j as int,
                    actions@[npresses + 2 * (j as int)],
                    actions@[npresses + 2 * (j as int) + 1],
                ));
            }
            j = j + 1;
        }
        actions
    }
}

/// Aggregate the active votes for joystick `j` and compute its two axis
/// writes.
fn stick_pair(caps: &Capability, active: &Vec<TimedInput>, j: usize) -> (r: (
    DeviceAction,
    DeviceAction,
))
    requires
        caps.wf(),
        (j as int) < caps.joysticks@.len(),
        forall|i: int|
            0 <= i < active@.len() ==> cmd_wf(#[trigger] active@[i], *caps)
                && active@[i].command is Joystick,
        active@.len() <= MAX_VOTES,
    ensures
        joystick_pair_ok(*caps, active@, j as int, r.0, r.1),
{
    let mut votes: Vec<Polar> = Vec::new();
    let nact = active.len();
    let mut t2: usize = 0;
    proof {
        assert(active@.skip(0) =~= active@);
        assert(Seq::<Polar>::empty() + votes_for(active@, j as int) =~= votes_for(
            active@,
            j as int,
        ));
    }
    while t2 < nact
        invariant
            caps.wf(),
            forall|i: int|
                0 <= i < active@.len() ==> cmd_wf(#[trigger] active@[i], *caps)
                    && active@[i].command is Joystick,
            nact == active@.len(),
            t2 <= nact,
            votes@.len() <= t2,
            forall|k: int| 0 <= k < votes@.len() ==> (#[trigger] votes@[k]).valid(),
            votes_for(active@, j as int) == votes@ + votes_for(active@.skip(t2 as int), j as int),
        decreases nact - t2,
    {
        let cmd = active[t2];
        proof {
            assert(cmd_wf(active@[t2 as int], *caps));
            assert(active@.skip(t2 as int)[0] == active@[t2 as int]);
            assert(active@.skip(t2 as int).drop_first() =~= active@.skip(t2 as int + 1));
        }
        match cmd.command {
            Input::Joystick { stick, direction_deg, strength_pct } => {
                if stick == j {
                    proof {
                        let vn = votes_for(active@.skip(t2 as int + 1), j as int);
                        let pv = Polar { direction_deg, strength_pct };
                        assert(votes@ + (seq![pv] + vn) =~= (votes@ + seq![pv]) + vn);
                        assert(votes@ + seq![pv] =~= votes@.push(pv));
                    }
                    votes.push(Polar { direction_deg, strength_pct });
                }
            },
            Input::Button { .. } => {},
        }
        t2 = t2 + 1;
    }
    proof {
        assert(active@.skip(nact as int) =~= Seq::<TimedInput>::empty());
        assert(votes@ + votes_for(Seq::<TimedInput>::empty(), j as int) =~= votes@);
        lemma_votes_for_len(active@, j as int);
    }
    let p = aggregate(&votes);
    let xname = &caps.joysticks[j].x_axis;
    let xi: usize = match caps.find_axis(xname.as_slice()) {
        Option::Some(a) => a,
        Option::None => {
            proof {
                assert(caps.has_axis(caps.joysticks@[j as int].x_axis@));
                assert(false);
            }
            0
        },
    };
    let yname = &caps.joysticks[j].y_axis;
    let yi: usize = match caps.find_axis(yname.as_slice()) {
        Option::Some(a) => a,
        Option::None => {
            proof {
                assert(caps.has_axis(caps.joysticks@[j as int].y_axis@));
                assert(false);
            }
            0
        },
    };
    proof {
        crate::trig::lemma_cos_milli_range(p.direction_deg as int);
        crate::trig::lemma_sin_milli_range(p.direction_deg as int);
    }
    let c = crate::trig::cos_milli(p.direction_deg);
    let sv = crate::trig::sin_milli(p.direction_deg);
    let ax = axis_write(caps, xi, c, p.strength_pct);
    let ay = axis_write(caps, yi, sv, p.strength_pct);
    proof {
        assert(aggregate_ok(votes_for(active@, j as int), p));
    }
    (ax, ay)
}

/// Compute one axis write: the raw value for a deflection given by a
/// trigonometric component in milli units and a strength percentage.
fn axis_write(caps: &Capability, ai: usize, c: i32, pct: u8) -> (a: DeviceAction)
    requires
        caps.wf(),
        (ai as int) < caps.axes@.len(),
        -1000 <= c <= 1000,
        pct <= 100,
    ensures
        a == axis_action(*caps, ai as int, c as int, pct as int),
{
    proof {
        assert(-crate::caps::AXIS_RANGE_BOUND <= caps.axes@[ai as int].min);
    }
    let min = caps.axes[ai].min;
    let max = caps.axes[ai].max;
    let mid: i64 = (max - min) / 2;
    proof {
        assert(-100_000 <= (c as int) * (pct as int) <= 100_000) by (nonlinear_arith)
            requires
                -1000 <= c <= 1000,
                0 <= pct <= 100,
        ;
    }
    let cf: i64 = (c as i64) * (pct as i64);
    proof {
        assert(0 <= mid <= crate::caps::AXIS_RANGE_BOUND);
        assert(-100_000 <= cf <= 100_000);
        assert(-100_000 * crate::caps::AXIS_RANGE_BOUND <= cf * mid <= 100_000
            * crate::caps::AXIS_RANGE_BOUND) by (nonlinear_arith)
            requires
                0 <= mid <= crate::caps::AXIS_RANGE_BOUND,
                -100_000 <= cf <= 100_000,
        ;
        assert(cf * mid <= 100_000 * mid && cf * mid >= -100_000 * mid) by (nonlinear_arith)
            requires
                0 <= mid,
                -100_000 <= cf <= 100_000,
        ;
    }
    let prod: i64 = cf * mid;
    let val: i64 = if prod >= 0 {
        proof {
            assert(prod / 100_000 <= mid) by (nonlinear_arith)
                requires
                    0 <= prod,
                    prod <= 100_000 * mid,
            ;
        }
        mid + prod / 100_000
    } else {
        proof {
            assert((-prod) / 100_000 <= mid) by (nonlinear_arith)
                requires
                    prod < 0,
                    -100_000 * mid <= prod,
            ;
        }
        mid - ((-prod) / 100_000)
    };
    DeviceAction::SetAxis { hid: caps.axes[ai].hid, value: val }
}

} // verus!

verus! {

/// Button mutual exclusion: once a vote for button `b` is admitted at
/// `t1` with duration `d1`, every further vote for `b` is refused while
/// the press cycle runs (duration plus cool-down); at any moment from the
/// end of the cool-down on, a vote for `b` is admitted again unless it
/// would complete an illegal combination.
pub proof fn lemma_button_mutual_exclusion(
    guards: Seq<u64>,
    rules: Seq<(usize, Vec<usize>)>,
    b: int,
    d1: u64,
    t1: u64,
    t2: u64,
)
    requires
        0 <= b < guards.len(),
        d1 <= MAX_COMMAND_DURATION_MS,
        t1 <= MAX_TIME_MS,
        admit_ok(guards, rules, b, t1 as int),
    ensures
        t1 <= t2 < t1 + d1 + BUTTON_RELEASE_COOLDOWN_MS ==> !admit_ok(
            guards.update(b, (t1 + d1 + BUTTON_RELEASE_COOLDOWN_MS) as u64),
            rules,
            b,
            t2 as int,
        ),
        t2 >= t1 + d1 + BUTTON_RELEASE_COOLDOWN_MS && !completes_illegal(
            guards.update(b, (t1 + d1 + BUTTON_RELEASE_COOLDOWN_MS) as u64),
            rules,
            b,
            t2 as int,
        ) ==> admit_ok(
            guards.update(b, (t1 + d1 + BUTTON_RELEASE_COOLDOWN_MS) as u64),
            rules,
            b,
            t2 as int,
        ),
{
    let g1 = guards.update(b, (t1 + d1 + BUTTON_RELEASE_COOLDOWN_MS) as u64);
    assert(g1[b] == t1 + d1 + BUTTON_RELEASE_COOLDOWN_MS);
}

/// Illegal combination, refusing direction: while every button that rule
/// `i` requires is held, a vote for the rule's constrained button is
/// refused — its guard is never taken.
pub proof fn lemma_illegal_combination_blocks(
    guards: Seq<u64>,
    rules: Seq<(usize, Vec<usize>)>,
    i: int,
    now: int,
)
    requires
        0 <= i < rules.len(),
        forall|j: int|
            0 <= j < rules[i].1@.len() ==> guard_held(guards, #[trigger] rules[i].1@[j] as int, now),
    ensures
        !admit_ok(guards, rules, rules[i].0 as int, now),
{
    assert(completes_illegal(guards, rules, rules[i].0 as int, now));
}

/// Illegal combination, admitting direction: a vote for a free button is
/// admitted as long as every rule that constrains it still has at least
/// one required button unheld.
pub proof fn lemma_vote_admitted_when_free(
    guards: Seq<u64>,
    rules: Seq<(usize, Vec<usize>)>,
    b: int,
    now: int,
)
    requires
        !guard_held(guards, b, now),
        forall|i: int|
            0 <= i < rules.len() && (#[trigger] rules[i]).0 == b ==> exists|j: int|
                0 <= j < rules[i].1@.len() && !guard_held(guards, #[trigger] rules[i].1@[j] as int, now),
    ensures
        admit_ok(guards, rules, b, now),
{
}

} // verus!

verus! {

/// Commutativity of vote aggregation: two active sets holding the same
/// votes for a joystick, in any order, admit exactly the same aggregate
/// targets.
pub proof fn lemma_aggregate_order_independent(votes1: Seq<Polar>, votes2: Seq<Polar>, p: Polar)
    requires
        votes1.to_multiset() == votes2.to_multiset(),
    ensures
        aggregate_ok(votes1, p) <==> aggregate_ok(votes2, p),
{
    crate::aggregate::lemma_sums_order_independent(votes1, votes2);
}

} // verus!
