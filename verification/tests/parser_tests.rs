use demc::caps::{sample_gcn_controller_hardware, sample_n64_controller_hardware, Capability};
use demc::input::{Input, RejectReason};
use demc::parser::parse_string_as_commands;

fn gcn() -> Capability {
    sample_gcn_controller_hardware(0, 255, 0, 255, 0, 255, 0, 255).unwrap()
}

fn n64() -> Capability {
    sample_n64_controller_hardware(0, 255, 0, 255).unwrap()
}

#[test]
fn scenario_half_strength_up_two_seconds() {
    let caps = gcn();
    let cmds = parse_string_as_commands(&caps, "50%up2s", 1000).unwrap();
    assert_eq!(cmds.len(), 1);
    assert_eq!(cmds[0].start_time, 1000);
    assert_eq!(cmds[0].duration, 2000);
    assert_eq!(
        cmds[0].command,
        Input::Joystick { stick: 0, direction_deg: 90, strength_pct: 50 }
    );
}

#[test]
fn scenario_two_buttons_chain_delay() {
    let caps = gcn();
    let cmds = parse_string_as_commands(&caps, "a b", 0).unwrap();
    assert_eq!(cmds.len(), 2);
    assert_eq!(cmds[0].command, Input::Button { button: 0, pressed: true });
    assert_eq!(cmds[1].command, Input::Button { button: 1, pressed: true });
    assert_eq!(cmds[0].start_time, 0);
    assert_eq!(cmds[0].duration, 500);
    // The second press waits out the first press's nominal duration plus
    // the fixed button-to-button delay of three frames.
    assert_eq!(cmds[1].start_time, 500 + 51);
}

#[test]
fn scenario_two_joysticks_chain_delay() {
    let caps = gcn();
    let cmds = parse_string_as_commands(&caps, "up left", 0).unwrap();
    assert_eq!(cmds.len(), 2);
    assert_eq!(cmds[0].start_time, 0);
    assert_eq!(cmds[0].duration, 250);
    // Nominal joystick duration plus the two-frame joystick-to-joystick
    // delay.
    assert_eq!(cmds[1].start_time, 250 + 34);
    assert_eq!(
        cmds[1].command,
        Input::Joystick { stick: 0, direction_deg: 180, strength_pct: 100 }
    );
}

#[test]
fn scenario_non_contiguous_matches_reject() {
    let caps = gcn();
    assert_eq!(
        parse_string_as_commands(&caps, "hahah", 0),
        Err(RejectReason::UnmatchedInput)
    );
}

#[test]
fn scenario_line_over_duration_cap_rejects() {
    let caps = gcn();
    // Each press is individually inside b's cap, but the accumulated
    // delay walks past the per-line window.
    assert_eq!(
        parse_string_as_commands(&caps, "b20s b20s b20s", 0),
        Err(RejectReason::LineTooLong)
    );
}

#[test]
fn parse_is_deterministic_in_relative_offsets() {
    let caps = gcn();
    let a = parse_string_as_commands(&caps, "up a down b", 5).unwrap();
    let b = parse_string_as_commands(&caps, "up a down b", 1005).unwrap();
    assert_eq!(a.len(), b.len());
    for i in 0..a.len() {
        assert_eq!(a[i].start_time - 5, b[i].start_time - 1005);
        assert_eq!(a[i].duration, b[i].duration);
        assert_eq!(a[i].command, b[i].command);
    }
}

#[test]
fn strength_above_hundred_rejects_whole_line() {
    let caps = gcn();
    assert_eq!(
        parse_string_as_commands(&caps, "150%up", 0),
        Err(RejectReason::StrengthOutOfRange)
    );
    assert_eq!(
        parse_string_as_commands(&caps, "up 101%down", 0),
        Err(RejectReason::StrengthOutOfRange)
    );
}

#[test]
fn durations_over_cap_reject() {
    let caps = gcn();
    assert_eq!(
        parse_string_as_commands(&caps, "up6s", 0),
        Err(RejectReason::DurationOverCap)
    );
    // The pause button carries a short override cap.
    assert_eq!(
        parse_string_as_commands(&caps, "start1s", 0),
        Err(RejectReason::DurationOverCap)
    );
    // Long-press buttons accept long holds.
    assert!(parse_string_as_commands(&caps, "b25s", 0).is_ok());
    assert_eq!(
        parse_string_as_commands(&caps, "r11s", 0),
        Err(RejectReason::DurationOverCap)
    );
}

#[test]
fn delay_tokens_accumulate() {
    let caps = gcn();
    let cmds = parse_string_as_commands(&caps, "a(1s)b", 0).unwrap();
    assert_eq!(cmds.len(), 2);
    // The parenthesized delay waits out a's duration first.
    assert_eq!(cmds[1].start_time, 500 + 1000);

    let plus = parse_string_as_commands(&caps, "a+b", 0).unwrap();
    assert_eq!(plus[1].start_time, 17);

    let bang = parse_string_as_commands(&caps, "a!b", 0).unwrap();
    assert_eq!(bang[1].start_time, 500 + 17);

    let dot = parse_string_as_commands(&caps, "a.b", 0).unwrap();
    assert_eq!(dot[1].start_time, 500 + 250);
}

#[test]
fn matching_is_case_insensitive() {
    let caps = gcn();
    let up = parse_string_as_commands(&caps, "UP", 0).unwrap();
    assert_eq!(
        up[0].command,
        Input::Joystick { stick: 0, direction_deg: 90, strength_pct: 100 }
    );
    let a = parse_string_as_commands(&caps, "A2s", 0).unwrap();
    assert_eq!(a[0].command, Input::Button { button: 0, pressed: true });
    assert_eq!(a[0].duration, 2000);
}

#[test]
fn trailing_garbage_rejects() {
    let caps = gcn();
    assert_eq!(
        parse_string_as_commands(&caps, "up2", 0),
        Err(RejectReason::UnmatchedInput)
    );
    assert_eq!(
        parse_string_as_commands(&caps, "", 0),
        Err(RejectReason::UnmatchedInput)
    );
    assert_eq!(
        parse_string_as_commands(&caps, "   ", 0),
        Err(RejectReason::UnmatchedInput)
    );
    assert_eq!(
        parse_string_as_commands(&caps, "up q", 0),
        Err(RejectReason::UnmatchedInput)
    );
}

#[test]
fn c_direction_words_depend_on_capability() {
    // With a c-stick, "cup" is a joystick word for it.
    let caps = gcn();
    let cmds = parse_string_as_commands(&caps, "cup", 0).unwrap();
    assert_eq!(
        cmds[0].command,
        Input::Joystick { stick: 1, direction_deg: 90, strength_pct: 100 }
    );
    // Without one, the same word names the N64 c-button.
    let caps = n64();
    let cmds = parse_string_as_commands(&caps, "cup", 0).unwrap();
    assert_eq!(cmds[0].command, Input::Button { button: 6, pressed: true });
}

#[test]
fn millisecond_durations_parse() {
    let caps = gcn();
    let cmds = parse_string_as_commands(&caps, "up500ms a 250ms", 0).unwrap();
    assert_eq!(cmds[0].duration, 500);
    assert_eq!(cmds[1].duration, 250);
}

#[test]
fn whitespace_between_tokens_is_allowed() {
    let caps = gcn();
    let cmds = parse_string_as_commands(&caps, "  up   down  ", 0).unwrap();
    assert_eq!(cmds.len(), 2);
}

#[test]
fn delay_only_lines_are_valid_but_empty() {
    let caps = gcn();
    let cmds = parse_string_as_commands(&caps, "(500ms)", 0).unwrap();
    assert_eq!(cmds.len(), 0);
}

#[test]
fn duration_suffixes_do_not_stack() {
    let caps = gcn();
    assert_eq!(
        parse_string_as_commands(&caps, "up2s3s", 0),
        Err(RejectReason::UnmatchedInput)
    );
}

#[test]
fn strength_percent_must_touch_its_digits() {
    let caps = gcn();
    assert_eq!(
        parse_string_as_commands(&caps, "50 %up", 0),
        Err(RejectReason::UnmatchedInput)
    );
    // Whitespace after the percent sign is part of the grammar.
    assert!(parse_string_as_commands(&caps, "50% up", 0).is_ok());
}
