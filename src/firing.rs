//! Timing of the output pulse after each zero crossing.
use vstd::prelude::*;

use crate::inference::{infer, inferred, RuleSet};
use crate::zero_cross::ZeroCrossState;

verus! {

/// Length of one mains half-cycle, in clock ticks (microseconds at 60 Hz).
pub const HALF_CYCLE_TICKS: u64 = 8333;

/// Length of the output pulse that latches the power switch, in clock ticks.
pub const PULSE_WIDTH_TICKS: u64 = 500;

/// Longest firing delay: the pulse must be over before the next zero crossing.
pub const MAX_DELAY_TICKS: u64 = HALF_CYCLE_TICKS - PULSE_WIDTH_TICKS;

/// The phase-angle span of one half-cycle, in degrees.
pub const PHASE_SPAN_DEGREES: u64 = 180;

/// A phase angle in degrees as ticks after the zero crossing, rounded down.
pub open spec fn phase_to_ticks(phase: int) -> int {
    phase * HALF_CYCLE_TICKS / PHASE_SPAN_DEGREES as int
}

/// A delay cut down to `MAX_DELAY_TICKS`.
pub open spec fn clamped(delay: int) -> int {
    if delay > MAX_DELAY_TICKS {
        MAX_DELAY_TICKS as int
    } else {
        delay
    }
}

/// Cuts a delay down so that the pulse ends within the half-cycle.
pub fn clamp_delay(delay: u64) -> (r: u64)
    ensures
        r == clamped(delay as int),
        r + PULSE_WIDTH_TICKS <= HALF_CYCLE_TICKS,
{
    if delay > MAX_DELAY_TICKS {
        MAX_DELAY_TICKS
    } else {
        delay
    }
}

/// The firing delay for a phase angle given by the inference, clamped so that
/// the pulse ends within the half-cycle.
pub fn delay_ticks(phase: u32) -> (r: u64)
    ensures
        r == clamped(phase_to_ticks(phase as int)),
        r + PULSE_WIDTH_TICKS <= HALF_CYCLE_TICKS,
{
    assert(phase as u64 * HALF_CYCLE_TICKS <= 0xffff_ffff * 8333) by (nonlinear_arith)
        requires
            phase <= 0xffff_ffff,
    ;
    clamp_delay(phase as u64 * HALF_CYCLE_TICKS / PHASE_SPAN_DEGREES)
}

/// The firing delay for a reading: the inferred phase angle as ticks, clamped.
pub fn firing_delay(reading: u32, rules: &RuleSet) -> (r: u64)
    ensures
        r == clamped(phase_to_ticks(inferred(rules@, reading as int))),
        r + PULSE_WIDTH_TICKS <= HALF_CYCLE_TICKS,
{
    delay_ticks(infer(reading, rules))
}

/// Where the controller stands in the current half-cycle.
#[derive(Clone, Copy, Debug, PartialEq, Eq)]
pub enum FiringState {
    /// Waiting for a zero crossing.
    Idle,
    /// A crossing was seen; the output is low until the delay has passed.
    Armed,
    /// The output is high until the pulse width has passed.
    Fired,
}

/// What the loop must do to the outside world after a step.
#[derive(Clone, Copy, Debug, PartialEq, Eq)]
pub enum OutputAction {
    /// Nothing changes.
    Hold,
    /// Drive the output high.
    Raise,
    /// Drive the output low, then release the zero-cross record.
    LowerAndRelease,
}

/// The firing state machine. `cycle_start` and `delay` belong to the cycle
/// being handled; `last_cycle` is the timestamp of the last crossing that was
/// armed, so that one crossing is never handled twice.
#[derive(Clone, Copy, Debug, PartialEq, Eq)]
pub struct FiringController {
    pub state: FiringState,
    pub cycle_start: u64,
    pub delay: u64,
    pub last_cycle: Option<u64>,
}

/// Ticks from `start` to `now`; a start later than `now` counts as no time.
pub open spec fn elapsed(now: u64, start: u64) -> int {
    if now >= start {
        now - start
    } else {
        0
    }
}

/// A crossing that has not been armed yet.
pub open spec fn is_new_crossing(c: FiringController, snap: ZeroCrossState) -> bool {
    snap.active && c.last_cycle != Some(snap.timestamp)
}

/// One step of the controller at time `now`, given the zero-cross record and
/// the delay computed for this step.
pub open spec fn next(c: FiringController, snap: ZeroCrossState, now: u64, delay: u64) -> (
    FiringController,
    OutputAction,
) {
    match c.state {
        FiringState::Idle => if is_new_crossing(c, snap) {
            (
                FiringController {
                    state: FiringState::Armed,
                    cycle_start: snap.timestamp,
                    delay: clamped(delay as int) as u64,
                    last_cycle: Some(snap.timestamp),
                },
                OutputAction::Hold,
            )
        } else {
            (c, OutputAction::Hold)
        },
        FiringState::Armed => if elapsed(now, c.cycle_start) >= c.delay {
            (
                FiringController {
                    state: FiringState::Fired,
                    cycle_start: c.cycle_start,
                    delay: c.delay,
                    last_cycle: c.last_cycle,
                },
                OutputAction::Raise,
            )
        } else {
            (c, OutputAction::Hold)
        },
        FiringState::Fired => if elapsed(now, c.cycle_start) >= c.delay + PULSE_WIDTH_TICKS {
            (
                FiringController {
                    state: FiringState::Idle,
                    cycle_start: c.cycle_start,
                    delay: c.delay,
                    last_cycle: c.last_cycle,
                },
                OutputAction::LowerAndRelease,
            )
        } else {
            (c, OutputAction::Hold)
        },
    }
}

/// The output is high exactly while the controller is in `Fired`.
pub open spec fn output_high(c: FiringController) -> bool {
    c.state == FiringState::Fired
}

impl FiringController {
    /// The delay of the cycle leaves room for the pulse within the half-cycle.
    pub open spec fn wf(self) -> bool {
        self.delay <= MAX_DELAY_TICKS
    }

    /// A controller waiting for its first crossing.
    pub fn new() -> (r: FiringController)
        ensures
            r.state == FiringState::Idle,
            r.last_cycle is None,
            r.wf(),
    {
        FiringController { state: FiringState::Idle, cycle_start: 0, delay: 0, last_cycle: None }
    }

    /// Whether the output is driven high.
    pub fn is_output_high(&self) -> (r: bool)
        ensures
            r == output_high(*self),
    {
        match self.state {
            FiringState::Fired => true,
            _ => false,
        }
    }

    /// Advances the machine by one loop iteration: arms on a new crossing,
    /// raises the output once the delay has passed, and lowers it and releases
    /// the crossing once the pulse width has passed too.
    pub fn step(&mut self, snap: ZeroCrossState, now: u64, delay: u64) -> (a: OutputAction)
        ensures
            (*final(self), a) == next(*old(self), snap, now, delay),
    {
        let since = if now >= self.cycle_start {
            now - self.cycle_start
        } else {
            0
        };
        match self.state {
            FiringState::Idle => {
                let seen = match self.last_cycle {
                    Some(t) => t == snap.timestamp,
                    None => false,
                };
                if snap.active && !seen {
                    self.state = FiringState::Armed;
                    self.cycle_start = snap.timestamp;
                    self.delay = clamp_delay(delay);
                    self.last_cycle = Some(snap.timestamp);
                }
                OutputAction::Hold
            },
            FiringState::Armed => {
                if since >= self.delay {
                    self.state = FiringState::Fired;
                    OutputAction::Raise
                } else {
                    OutputAction::Hold
                }
            },
            FiringState::Fired => {
                if since >= self.delay && since - self.delay >= PULSE_WIDTH_TICKS {
                    self.state = FiringState::Idle;
                    OutputAction::LowerAndRelease
                } else {
                    OutputAction::Hold
                }
            },
        }
    }
}

/// The output changes level only through the two actions: `Raise` takes it from
/// low to high, and only once the delay has passed since the crossing;
/// `LowerAndRelease` takes it from high to low, and only once the delay and the
/// pulse width have passed. So within one cycle the output rises once and falls
/// once, and the crossing is released only together with the falling edge.
/// Neither edge is late by more than one step: from `Armed` the first step at
/// or after the deadline raises, and from `Fired` the first step at or after
/// the end of the pulse lowers.
pub proof fn lemma_output_edges(c: FiringController, snap: ZeroCrossState, now: u64, delay: u64)
    ensures
        ({
            let (n, a) = next(c, snap, now, delay);
            &&& (a == OutputAction::Raise) <==> (!output_high(c) && output_high(n))
            &&& (a == OutputAction::LowerAndRelease) <==> (output_high(c) && !output_high(n))
            &&& a == OutputAction::Raise ==> elapsed(now, c.cycle_start) >= c.delay
                && n.cycle_start == c.cycle_start && n.delay == c.delay
            &&& a == OutputAction::LowerAndRelease ==> elapsed(now, c.cycle_start) >= c.delay
                + PULSE_WIDTH_TICKS && n.state == FiringState::Idle
            &&& c.state == FiringState::Armed && elapsed(now, c.cycle_start) >= c.delay ==> a
                == OutputAction::Raise
            &&& c.state == FiringState::Fired && elapsed(now, c.cycle_start) >= c.delay
                + PULSE_WIDTH_TICKS ==> a == OutputAction::LowerAndRelease
        }),
{
}

/// A crossing is armed with its own timestamp and the clamped delay, and once
/// handled the same crossing never arms the controller again.
pub proof fn lemma_arm_once(c: FiringController, snap: ZeroCrossState, now: u64, delay: u64)
    requires
        c.state == FiringState::Idle,
    ensures
        ({
            let (n, a) = next(c, snap, now, delay);
            &&& a == OutputAction::Hold
            &&& is_new_crossing(c, snap) ==> n.state == FiringState::Armed && n.cycle_start
                == snap.timestamp && n.delay == clamped(delay as int) && !is_new_crossing(n, snap)
            &&& !is_new_crossing(c, snap) ==> n == c
        }),
{
}

/// Every step keeps the cycle's delay short enough that the pulse ends
/// within the half-cycle.
pub proof fn lemma_step_keeps_pulse_in_half_cycle(
    c: FiringController,
    snap: ZeroCrossState,
    now: u64,
    delay: u64,
)
    requires
        c.wf(),
    ensures
        next(c, snap, now, delay).0.wf(),
        next(c, snap, now, delay).0.delay + PULSE_WIDTH_TICKS <= HALF_CYCLE_TICKS,
{
}

/// `t` moved `k` ticks later.
pub open spec fn shift_time(t: u64, k: u64) -> u64 {
    (t + k) as u64
}

/// The controller with every timestamp moved `k` ticks later.
pub open spec fn shift_controller(c: FiringController, k: u64) -> FiringController {
    FiringController {
        state: c.state,
        cycle_start: shift_time(c.cycle_start, k),
        delay: c.delay,
        last_cycle: match c.last_cycle {
            Some(t) => Some(shift_time(t, k)),
            None => None,
        },
    }
}

/// Timing depends only on time since the crossing: a cycle replayed `k` ticks
/// later, with the same delay, takes the same actions and reaches the same
/// states moved by `k`. So crossings at a fixed period with a constant delay
/// give the same pulse timing in every cycle.
pub proof fn lemma_step_time_shift(
    c: FiringController,
    snap: ZeroCrossState,
    now: u64,
    delay: u64,
    k: u64,
)
    requires
        c.cycle_start + k <= u64::MAX,
        snap.timestamp + k <= u64::MAX,
        now + k <= u64::MAX,
        c.last_cycle matches Some(t) ==> t + k <= u64::MAX,
    ensures
        ({
            let (n, a) = next(c, snap, now, delay);
            let snap2 = ZeroCrossState { active: snap.active, timestamp: shift_time(snap.timestamp, k) };
            let (n2, a2) = next(shift_controller(c, k), snap2, shift_time(now, k), delay);
            a2 == a && n2 == shift_controller(n, k)
        }),
{
}

} // verus!
