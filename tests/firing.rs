use phase_dimmer::firing::{
    clamp_delay, delay_ticks, firing_delay, FiringController, FiringState, OutputAction,
    HALF_CYCLE_TICKS, MAX_DELAY_TICKS, PULSE_WIDTH_TICKS,
};
use phase_dimmer::inference::RuleSet;
use phase_dimmer::zero_cross::ZeroCrossState;

#[test]
fn phase_to_delay() {
    assert_eq!(delay_ticks(0), 0);
    assert_eq!(delay_ticks(90), 4166);
    assert_eq!(delay_ticks(165), 7638);
    assert_eq!(delay_ticks(15), 694);
    assert_eq!(delay_ticks(180), MAX_DELAY_TICKS);
    assert_eq!(delay_ticks(u32::MAX), 7833);
}

#[test]
fn delay_leaves_room_for_pulse() {
    for phase in 0..=1000u32 {
        assert!(delay_ticks(phase) + PULSE_WIDTH_TICKS <= HALF_CYCLE_TICKS);
    }
    assert_eq!(clamp_delay(u64::MAX), 7833);
    assert_eq!(clamp_delay(7833), 7833);
    assert_eq!(clamp_delay(7834), 7833);
}

#[test]
fn delay_for_reading() {
    let rules = RuleSet::standard();
    assert_eq!(firing_delay(0, &rules), 7638);
    assert_eq!(firing_delay(5000, &rules), 4166);
    assert_eq!(firing_delay(10000, &rules), 694);
}

/// Runs the controller at every tick in `from..to`; returns the ticks of each
/// action other than `Hold`.
fn run(
    c: &mut FiringController,
    zc: &mut ZeroCrossState,
    from: u64,
    to: u64,
    delay: u64,
) -> Vec<(u64, OutputAction)> {
    let mut seen = Vec::new();
    for now in from..to {
        let a = c.step(*zc, now, delay);
        if a != OutputAction::Hold {
            seen.push((now, a));
        }
        if a == OutputAction::LowerAndRelease {
            zc.clear();
        }
    }
    seen
}

#[test]
fn fires_once_at_delay_and_releases_after_pulse() {
    let mut c = FiringController::new();
    let mut zc = ZeroCrossState::idle();
    zc.record_edge(1000);
    let seen = run(&mut c, &mut zc, 1000, 1000 + HALF_CYCLE_TICKS, 3000);
    assert_eq!(
        seen,
        vec![(4000, OutputAction::Raise), (4500, OutputAction::LowerAndRelease)]
    );
    assert_eq!(c.state, FiringState::Idle);
    assert!(!zc.active);
}

#[test]
fn output_high_only_between_edges() {
    let mut c = FiringController::new();
    let zc = ZeroCrossState { active: true, timestamp: 50 };
    assert_eq!(c.step(zc, 50, 100), OutputAction::Hold);
    assert_eq!(c.state, FiringState::Armed);
    assert_eq!(c.step(zc, 149, 100), OutputAction::Hold);
    assert!(!c.is_output_high());
    assert_eq!(c.step(zc, 150, 100), OutputAction::Raise);
    assert!(c.is_output_high());
    assert_eq!(c.step(zc, 649, 100), OutputAction::Hold);
    assert!(c.is_output_high());
    assert_eq!(c.step(zc, 650, 100), OutputAction::LowerAndRelease);
    assert!(!c.is_output_high());
    // The same crossing, still reported active, is not armed again.
    assert_eq!(c.step(zc, 700, 100), OutputAction::Hold);
    assert_eq!(c.state, FiringState::Idle);
}

#[test]
fn late_loop_fires_late() {
    let mut c = FiringController::new();
    let zc = ZeroCrossState { active: true, timestamp: 0 };
    assert_eq!(c.step(zc, 0, 100), OutputAction::Hold);
    assert_eq!(c.step(zc, 2000, 100), OutputAction::Raise);
    assert_eq!(c.step(zc, 2001, 100), OutputAction::LowerAndRelease);
}

#[test]
fn delay_is_clamped_when_armed() {
    let mut c = FiringController::new();
    let zc = ZeroCrossState { active: true, timestamp: 0 };
    c.step(zc, 0, 1_000_000);
    assert_eq!(c.delay, MAX_DELAY_TICKS);
    assert_eq!(c.step(zc, 7832, 0), OutputAction::Hold);
    assert_eq!(c.step(zc, 7833, 0), OutputAction::Raise);
    assert_eq!(c.step(zc, 8333, 0), OutputAction::LowerAndRelease);
}

#[test]
fn idle_without_crossing() {
    let mut c = FiringController::new();
    let zc = ZeroCrossState::idle();
    for now in 0..20_000 {
        assert_eq!(c.step(zc, now, 10), OutputAction::Hold);
    }
    assert_eq!(c.state, FiringState::Idle);
}

#[test]
fn periodic_crossings_repeat_timing() {
    let rules = RuleSet::standard();
    let mut c = FiringController::new();
    let mut zc = ZeroCrossState::idle();
    let mut offsets = Vec::new();
    for cycle in 0..5u64 {
        let t0 = 10 + cycle * HALF_CYCLE_TICKS;
        zc.record_edge(t0);
        let delay = firing_delay(3500, &rules);
        let seen = run(&mut c, &mut zc, t0, t0 + HALF_CYCLE_TICKS, delay);
        offsets.push(seen.iter().map(|(t, a)| (t - t0, *a)).collect::<Vec<_>>());
    }
    // 127 degrees is 5879 ticks.
    let expected = vec![(5879, OutputAction::Raise), (6379, OutputAction::LowerAndRelease)];
    for o in offsets {
        assert_eq!(o, expected);
    }
}
