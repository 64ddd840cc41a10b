use demc::caps::sample_gcn_controller_hardware;
use demc::input::{Input, TimedInput};
use demc::sched::{ControllerConstraints, DeviceAction, Scheduler};

fn constraints() -> ControllerConstraints {
    ControllerConstraints {
        illegal_combinations: vec![
            (b"start".to_vec(), vec![b"b".to_vec(), b"x".to_vec()]),
            (b"b".to_vec(), vec![b"start".to_vec(), b"x".to_vec()]),
            (b"x".to_vec(), vec![b"b".to_vec(), b"start".to_vec()]),
        ],
    }
}

fn scheduler() -> Scheduler {
    let caps = sample_gcn_controller_hardware(0, 255, 0, 255, 0, 255, 0, 255).unwrap();
    Scheduler::new(caps, &constraints()).unwrap()
}

fn joy(start: u64, dur: u64, stick: usize, deg: u16, pct: u8) -> TimedInput {
    TimedInput {
        start_time: start,
        duration: dur,
        command: Input::Joystick { stick, direction_deg: deg, strength_pct: pct },
    }
}

fn btn(start: u64, dur: u64, button: usize) -> TimedInput {
    TimedInput { start_time: start, duration: dur, command: Input::Button { button, pressed: true } }
}

#[test]
fn unknown_constraint_button_is_fatal() {
    let caps = sample_gcn_controller_hardware(0, 255, 0, 255, 0, 255, 0, 255).unwrap();
    let bad = ControllerConstraints {
        illegal_combinations: vec![(b"warp".to_vec(), vec![b"b".to_vec()])],
    };
    assert!(Scheduler::new(caps, &bad).is_err());
}

#[test]
fn joystick_vote_drives_axes_and_expires() {
    let mut s = scheduler();
    s.submit(joy(0, 100, 0, 90, 100));
    let actions = s.tick(0);
    // No presses, two axis writes per joystick.
    assert_eq!(actions.len(), 4);
    // Full up: x axis stays at the midpoint, y axis goes to the top.
    assert_eq!(actions[0], DeviceAction::SetAxis { hid: 0x30, value: 127 });
    assert_eq!(actions[1], DeviceAction::SetAxis { hid: 0x31, value: 254 });
    // The untouched c stick stays neutral.
    assert_eq!(actions[2], DeviceAction::SetAxis { hid: 0x33, value: 127 });
    assert_eq!(actions[3], DeviceAction::SetAxis { hid: 0x34, value: 127 });

    // One tick after expiry the stick is neutral again.
    let actions = s.tick(200);
    assert_eq!(actions[0], DeviceAction::SetAxis { hid: 0x30, value: 127 });
    assert_eq!(actions[1], DeviceAction::SetAxis { hid: 0x31, value: 127 });
}

#[test]
fn opposite_votes_cancel() {
    let mut s = scheduler();
    s.submit(joy(0, 100, 0, 0, 100));
    s.submit(joy(0, 100, 0, 180, 100));
    let actions = s.tick(0);
    assert_eq!(actions[0], DeviceAction::SetAxis { hid: 0x30, value: 127 });
    assert_eq!(actions[1], DeviceAction::SetAxis { hid: 0x31, value: 127 });
}

#[test]
fn button_mutual_exclusion_window() {
    let mut s = scheduler();
    s.submit(btn(0, 500, 0));
    let actions = s.tick(0);
    assert!(actions.contains(&DeviceAction::PressButton { index: 0x01, duration_ms: 500 }));

    // A second vote inside the press-plus-cool-down window is refused.
    s.submit(btn(100, 500, 0));
    let actions = s.tick(100);
    assert_eq!(
        actions.iter().filter(|a| matches!(a, DeviceAction::PressButton { .. })).count(),
        0
    );

    // After the window (500ms press + 83ms cool-down) a new vote is
    // admitted.
    s.submit(btn(700, 500, 0));
    let actions = s.tick(700);
    assert!(actions.contains(&DeviceAction::PressButton { index: 0x01, duration_ms: 500 }));
}

#[test]
fn illegal_combination_votes() {
    let mut s = scheduler();
    // b is button 1, x is button 2, start is button 7 of the sample
    // table.
    s.submit(btn(0, 500, 1));
    s.submit(btn(0, 500, 2));
    let actions = s.tick(0);
    assert_eq!(
        actions.iter().filter(|a| matches!(a, DeviceAction::PressButton { .. })).count(),
        2
    );

    // With b and x both held, a start vote is refused.
    s.submit(btn(100, 100, 7));
    let actions = s.tick(100);
    assert_eq!(
        actions.iter().filter(|a| matches!(a, DeviceAction::PressButton { .. })).count(),
        0
    );

    // Once the guards have run out, start is admitted.
    s.submit(btn(1000, 100, 7));
    let actions = s.tick(1000);
    assert!(actions.contains(&DeviceAction::PressButton { index: 0x08, duration_ms: 100 }));
}

#[test]
fn only_one_held_required_button_admits() {
    let mut s = scheduler();
    // Hold only b.
    s.submit(btn(0, 500, 1));
    s.tick(0);
    // x is free, so start does not complete the combination.
    s.submit(btn(100, 100, 7));
    let actions = s.tick(100);
    assert!(actions.contains(&DeviceAction::PressButton { index: 0x08, duration_ms: 100 }));
}

#[test]
fn commands_wait_for_their_start_time() {
    let mut s = scheduler();
    s.submit(btn(500, 100, 0));
    let actions = s.tick(0);
    assert_eq!(
        actions.iter().filter(|a| matches!(a, DeviceAction::PressButton { .. })).count(),
        0
    );
    let actions = s.tick(600);
    assert!(actions.contains(&DeviceAction::PressButton { index: 0x01, duration_ms: 100 }));
}

#[test]
fn try_admit_reports_refusals() {
    let mut s = scheduler();
    assert!(s.try_admit(0, 500, 0));
    assert!(!s.try_admit(0, 500, 200));
    assert!(s.try_admit(0, 500, 583));
}
