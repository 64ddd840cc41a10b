use demc::adapter::{
    format_log_line, handle_commands, handle_tmi_message, parse_mod_commands, ChatMessageHandler,
    ModCommand,
};
use demc::caps::sample_gcn_controller_hardware;
use demc::input::RejectReason;
use demc::sched::{ControllerConstraints, Scheduler};

fn scheduler() -> Scheduler {
    let caps = sample_gcn_controller_hardware(0, 255, 0, 255, 0, 255, 0, 255).unwrap();
    Scheduler::new(caps, &ControllerConstraints { illegal_combinations: vec![] }).unwrap()
}

#[test]
fn moderator_commands_need_an_allowed_sender() {
    assert_eq!(
        parse_mod_commands(b"kalarmar", b"!savestate"),
        Some(ModCommand::SaveState)
    );
    assert_eq!(
        parse_mod_commands(b"KalarMar", b"!LoadState"),
        Some(ModCommand::LoadState)
    );
    assert_eq!(parse_mod_commands(b"randomviewer", b"!savestate"), None);
    assert_eq!(parse_mod_commands(b"kalarmar", b"savestate"), None);
    assert_eq!(
        parse_mod_commands(b"xxn1", b"!unplugcontroller"),
        Some(ModCommand::UnplugController)
    );
    assert_eq!(
        parse_mod_commands(b"mooismyusername", b"!plugcontroller"),
        Some(ModCommand::PlugController)
    );
}

#[test]
fn recognised_lines_submit_their_commands() {
    let mut s = scheduler();
    handle_commands(&mut s, b"a b", 0).unwrap();
    assert_eq!(s.queued.len(), 2);
    // A rejected line leaves the queue untouched.
    assert_eq!(
        handle_commands(&mut s, b"hahah", 0),
        Err(RejectReason::UnmatchedInput)
    );
    assert_eq!(s.queued.len(), 2);
}

#[test]
fn tmi_messages_route_to_the_right_handler() {
    let mut s = scheduler();
    let out = handle_tmi_message(&mut s, b"kalarmar", b"!unplugcontroller", true, 0);
    assert_eq!(out.handler, Some(ChatMessageHandler::ModCommandHandler));
    assert_eq!(out.mod_command, Some(ModCommand::UnplugController));
    assert_eq!(out.new_accepting, Some(false));
    assert_eq!(s.queued.len(), 0);

    let out = handle_tmi_message(&mut s, b"viewer", b"up a", true, 0);
    assert_eq!(out.handler, Some(ChatMessageHandler::ControllerCommandHandler));
    assert_eq!(out.new_accepting, None);
    assert_eq!(s.queued.len(), 2);

    // While votes are not accepted, controller lines are ignored.
    let out = handle_tmi_message(&mut s, b"viewer", b"up a", false, 0);
    assert_eq!(out.handler, None);
    assert_eq!(s.queued.len(), 2);

    // Noise is logged without a handler.
    let out = handle_tmi_message(&mut s, b"viewer", b"good morning", true, 0);
    assert_eq!(out.handler, None);
    assert_eq!(s.queued.len(), 2);
}

#[test]
fn log_lines_carry_the_handler_marker() {
    assert_eq!(
        format_log_line(b"bob", b"up", Some(ChatMessageHandler::ControllerCommandHandler)),
        b"_bob: up".to_vec()
    );
    assert_eq!(
        format_log_line(b"kalarmar", b"!savestate", Some(ChatMessageHandler::ModCommandHandler)),
        b"!kalarmar: !savestate".to_vec()
    );
    assert_eq!(format_log_line(b"bob", b"hey", None), b"bob: hey".to_vec());
}
