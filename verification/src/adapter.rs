//! The chat-to-scheduler adapter: feed a chat line into the scheduler,
//! recognise moderator commands, and format the operator-facing log line.
//!
//! A chat line is either a privileged moderator command (recognised only
//! from an allow-listed sender), a controller command line handed to the
//! parser and, on success, submitted to the scheduler, or noise that is
//! merely logged.  A malformed line is indistinguishable from noise for
//! the chat user; only the log's marker distinguishes recognised lines.

use vstd::prelude::*;
use crate::input::RejectReason;
use crate::parser::{cmds_match, parse_bytes_as_commands, spec_parse, RelCmd};
use crate::sched::{cmd_wf, Scheduler};
use crate::tokenize::ci_eq;

verus! {

/// A privileged moderator command.
#[derive(Copy, Clone, PartialEq, Eq, Structural, Debug)]
pub enum ModCommand {
    SaveState,
    LoadState,
    UnplugController,
    PlugController,
}

/// Which handler consumed a chat line, for the log.
#[derive(Copy, Clone, PartialEq, Eq, Structural, Debug)]
pub enum ChatMessageHandler {
    ModCommandHandler,
    ControllerCommandHandler,
}

/// Case-insensitive equality of a byte string against a lower-case word.
pub open spec fn eq_ci(s: Seq<u8>, kw: Seq<u8>) -> bool {
    s.len() == kw.len() && forall|k: int| 0 <= k < kw.len() ==> ci_eq(s[k], #[trigger] kw[k])
}

pub open spec fn mod_sender_ok(sender: Seq<u8>) -> bool {
    ||| eq_ci(sender, seq![116u8, 119u8, 105u8, 116u8, 99u8, 104u8, 112u8, 108u8, 97u8, 121u8, 115u8, 112u8, 97u8, 112u8, 101u8, 114u8, 109u8, 97u8, 114u8, 105u8, 111u8])
    ||| eq_ci(sender, seq![120u8, 120u8, 110u8, 49u8])
    ||| eq_ci(sender, seq![107u8, 97u8, 108u8, 97u8, 114u8, 109u8, 97u8, 114u8])
    ||| eq_ci(sender, seq![114u8, 97u8, 115u8, 104u8, 97u8, 109u8, 97u8, 95u8, 105u8, 122u8, 111u8, 117u8, 107u8, 105u8])
    ||| eq_ci(sender, seq![109u8, 111u8, 111u8, 105u8, 115u8, 109u8, 121u8, 117u8, 115u8, 101u8, 114u8, 110u8, 97u8, 109u8, 101u8])
}

/// The moderator command of a chat line, if the sender is allow-listed
/// and the message is exactly one of the privileged keywords (ASCII
/// case-insensitively).
pub open spec fn spec_parse_mod_commands(sender: Seq<u8>, msg: Seq<u8>) -> Option<ModCommand> {
    if !mod_sender_ok(sender) {
        None
    } else if eq_ci(msg, seq![33u8, 115u8, 97u8, 118u8, 101u8, 115u8, 116u8, 97u8, 116u8, 101u8]) {
        Some(ModCommand::SaveState)
    } else if eq_ci(msg, seq![33u8, 108u8, 111u8, 97u8, 100u8, 115u8, 116u8, 97u8, 116u8, 101u8]) {
        Some(ModCommand::LoadState)
    } else if eq_ci(
        msg,
        seq![33u8, 117u8, 110u8, 112u8, 108u8, 117u8, 103u8, 99u8, 111u8, 110u8, 116u8, 114u8, 111u8, 108u8, 108u8, 101u8, 114u8],
    ) {
        Some(ModCommand::UnplugController)
    } else if eq_ci(
        msg,
        seq![33u8, 112u8, 108u8, 117u8, 103u8, 99u8, 111u8, 110u8, 116u8, 114u8, 111u8, 108u8, 108u8, 101u8, 114u8],
    ) {
        Some(ModCommand::PlugController)
    } else {
        None
    }
}

/// Case-insensitive whole-string comparison against a lower-case word.
fn eq_ci_x(s: &[u8], kw: &[u8]) -> (r: bool)
    ensures
        r == eq_ci(s@, kw@),
{
    if s.len() != kw.len() {
        return false;
    }
    crate::tokenize::match_kw_x(s, 0, kw)
}

/// Recognise a privileged moderator command: an allow-listed sender and
/// one of the privileged keywords, both matched case-insensitively.
pub fn parse_mod_commands(sender: &[u8], msg: &[u8]) -> (r: Option<ModCommand>)
    ensures
        r == spec_parse_mod_commands(sender@, msg@),
{
    let m1: Vec<u8> = vec![116u8, 119u8, 105u8, 116u8, 99u8, 104u8, 112u8, 108u8, 97u8, 121u8, 115u8, 112u8, 97u8, 112u8, 101u8, 114u8, 109u8, 97u8, 114u8, 105u8, 111u8];
    let m2: Vec<u8> = vec![120u8, 120u8, 110u8, 49u8];
    let m3: Vec<u8> = vec![107u8, 97u8, 108u8, 97u8, 114u8, 109u8, 97u8, 114u8];
    let m4: Vec<u8> = vec![114u8, 97u8, 115u8, 104u8, 97u8, 109u8, 97u8, 95u8, 105u8, 122u8, 111u8, 117u8, 107u8, 105u8];
    let m5: Vec<u8> = vec![109u8, 111u8, 111u8, 105u8, 115u8, 109u8, 121u8, 117u8, 115u8, 101u8, 114u8, 110u8, 97u8, 109u8, 101u8];
    let c1: Vec<u8> = vec![33u8, 115u8, 97u8, 118u8, 101u8, 115u8, 116u8, 97u8, 116u8, 101u8];
    let c2: Vec<u8> = vec![33u8, 108u8, 111u8, 97u8, 100u8, 115u8, 116u8, 97u8, 116u8, 101u8];
    let c3: Vec<u8> = vec![33u8, 117u8, 110u8, 112u8, 108u8, 117u8, 103u8, 99u8, 111u8, 110u8, 116u8, 114u8, 111u8, 108u8, 108u8, 101u8, 114u8];
    let c4: Vec<u8> = vec![33u8, 112u8, 108u8, 117u8, 103u8, 99u8, 111u8, 110u8, 116u8, 114u8, 111u8, 108u8, 108u8, 101u8, 114u8];
    proof {
        assert(m1@ =~= seq![116u8, 119u8, 105u8, 116u8, 99u8, 104u8, 112u8, 108u8, 97u8, 121u8, 115u8, 112u8, 97u8, 112u8, 101u8, 114u8, 109u8, 97u8, 114u8, 105u8, 111u8]);
        assert(m2@ =~= seq![120u8, 120u8, 110u8, 49u8]);
        assert(m3@ =~= seq![107u8, 97u8, 108u8, 97u8, 114u8, 109u8, 97u8, 114u8]);
        assert(m4@ =~= seq![114u8, 97u8, 115u8, 104u8, 97u8, 109u8, 97u8, 95u8, 105u8, 122u8, 111u8, 117u8, 107u8, 105u8]);
        assert(m5@ =~= seq![109u8, 111u8, 111u8, 105u8, 115u8, 109u8, 121u8, 117u8, 115u8, 101u8, 114u8, 110u8, 97u8, 109u8, 101u8]);
        assert(c1@ =~= seq![33u8, 115u8, 97u8, 118u8, 101u8, 115u8, 116u8, 97u8, 116u8, 101u8]);
        assert(c2@ =~= seq![33u8, 108u8, 111u8, 97u8, 100u8, 115u8, 116u8, 97u8, 116u8, 101u8]);
        assert(c3@ =~= seq![33u8, 117u8, 110u8, 112u8, 108u8, 117u8, 103u8, 99u8, 111u8, 110u8, 116u8, 114u8, 111u8, 108u8, 108u8, 101u8, 114u8]);
        assert(c4@ =~= seq![33u8, 112u8, 108u8, 117u8, 103u8, 99u8, 111u8, 110u8, 116u8, 114u8, 111u8, 108u8, 108u8, 101u8, 114u8]);
    }
    let allowed = eq_ci_x(sender, m1.as_slice()) || eq_ci_x(sender, m2.as_slice()) || eq_ci_x(
        sender,
        m3.as_slice(),
    ) || eq_ci_x(sender, m4.as_slice()) || eq_ci_x(sender, m5.as_slice());
    if !allowed {
        return None;
    }
    if eq_ci_x(msg, c1.as_slice()) {
        Some(ModCommand::SaveState)
    } else if eq_ci_x(msg, c2.as_slice()) {
        Some(ModCommand::LoadState)
    } else if eq_ci_x(msg, c3.as_slice()) {
        Some(ModCommand::UnplugController)
    } else if eq_ci_x(msg, c4.as_slice()) {
        Some(ModCommand::PlugController)
    } else {
        None
    }
}

/// Parse a chat line and, if it is a valid command line, submit all of
/// its commands to the scheduler.  A rejected line submits nothing.
pub fn handle_commands(sched: &mut Scheduler, line: &[u8], now_ms: u64) -> (r: Result<
    (),
    RejectReason,
>)
    requires
        old(sched).wf(),
        now_ms < 0x4000_0000_0000_0000,
        old(sched).queued@.len() + old(sched).active@.len() + line@.len()
            <= crate::aggregate::MAX_VOTES,
    ensures
        final(sched).wf(),
        final(sched).capability == old(sched).capability,
        final(sched).rules == old(sched).rules,
        final(sched).active == old(sched).active,
        final(sched).guards == old(sched).guards,
        match r {
            Result::Ok(()) => {
                &&& spec_parse(old(sched).capability, line@) matches Ok(rel)
                    && final(sched).queued@.len() == old(sched).queued@.len() + rel.len()
                    && cmds_match(
                    final(sched).queued@.skip(old(sched).queued@.len() as int),
                    rel,
                    now_ms as int,
                )
                &&& forall|i: int|
                    0 <= i < old(sched).queued@.len() ==> final(sched).queued@[i] == old(
                        sched,
                    ).queued@[i]
            },
            Result::Err(e) => spec_parse(old(sched).capability, line@) == Err::<
                Seq<RelCmd>,
                RejectReason,
            >(e) && final(sched).queued == old(sched).queued,
        },
{
    let cmds = match parse_bytes_as_commands(&sched.capability, line, now_ms) {
        Result::Ok(cmds) => cmds,
        Result::Err(e) => {
            return Err(e);
        },
    };
    proof {
        crate::parser::lemma_parsed_commands_in_range(sched.capability, line@);
        crate::parser::lemma_parse_token_bound(sched.capability, line@);
        let rel = spec_parse(sched.capability, line@)->Ok_0;
        assert forall|k: int| 0 <= k < cmds@.len() implies cmd_wf(
            #[trigger] cmds@[k],
            sched.capability,
        ) by {
            assert(cmds@[k].start_time == now_ms + rel[k].offset);
            assert(cmds@[k].duration == rel[k].duration);
            assert(cmds@[k].command == rel[k].command);
            assert(rel[k].command.valid());
        }
        assert(cmds@.len() <= line@.len());
        assert(sched.queued@ + cmds@.take(0) =~= sched.queued@);
    }
    let n = cmds.len();
    let mut i: usize = 0;
    let ghost q0 = sched.queued@;
    while i < n
        invariant
            sched.wf(),
            sched.capability == old(sched).capability,
            sched.rules == old(sched).rules,
            sched.active == old(sched).active,
            sched.guards == old(sched).guards,
            n == cmds@.len(),
            i <= n,
            q0 == old(sched).queued@,
            sched.queued@ =~= q0 + cmds@.take(i as int),
            n <= line@.len(),
            q0.len() + sched.active@.len() + line@.len() <= crate::aggregate::MAX_VOTES,
            forall|k: int| 0 <= k < n ==> cmd_wf(#[trigger] cmds@[k], sched.capability),
        decreases n - i,
    {
        let cmd = cmds[i];
        proof {
            assert(q0 + cmds@.take(i as int + 1) =~= (q0 + cmds@.take(i as int)).push(cmd));
        }
        sched.submit(cmd);
        i = i + 1;
    }
    proof {
        assert(sched.queued@ =~= q0 + cmds@);
        assert((q0 + cmds@).skip(q0.len() as int) =~= cmds@);
    }
    Ok(())
}

} // verus!

verus! {

/// The outcome of one chat message: who handled it, which moderator
/// command to carry out (if any), and whether vote acceptance changes.
#[derive(Copy, Clone, PartialEq, Eq, Structural, Debug)]
pub struct TmiOutcome {
    pub handler: Option<ChatMessageHandler>,
    pub mod_command: Option<ModCommand>,
    pub new_accepting: Option<bool>,
}

/// The log-line marker of a handler: `!` for a moderator command, `_`
/// for a recognised controller line, nothing for noise.
pub open spec fn handler_marker(h: Option<ChatMessageHandler>) -> Seq<u8> {
    match h {
        Option::Some(ChatMessageHandler::ModCommandHandler) => seq![33u8],
        Option::Some(ChatMessageHandler::ControllerCommandHandler) => seq![95u8],
        Option::None => Seq::empty(),
    }
}

/// Append a byte slice to a vector.
pub fn push_bytes(v: &mut Vec<u8>, s: &[u8])
    ensures
        final(v)@ == old(v)@ + s@,
{
    let n = s.len();
    let mut i: usize = 0;
    proof {
        assert(v@ =~= old(v)@ + s@.take(0));
    }
    while i < n
        invariant
            n == s@.len(),
            i <= n,
            v@ == old(v)@ + s@.take(i as int),
        decreases n - i,
    {
        proof {
            assert((old(v)@ + s@.take(i as int)).push(s@[i as int]) =~= old(v)@ + s@.take(
                i as int + 1,
            ));
        }
        v.push(s[i]);
        i = i + 1;
    }
    proof {
        assert(s@.take(n as int) =~= s@);
    }
}

/// The operator-facing log line for one chat message: the handler's
/// marker, the sender, a separating colon, and the message.
pub fn format_log_line(sender: &[u8], message: &[u8], handler: Option<ChatMessageHandler>) -> (r:
    Vec<u8>)
    ensures
        r@ == handler_marker(handler) + sender@ + seq![58u8, 32u8] + message@,
{
    let mut v: Vec<u8> = Vec::new();
    match handler {
        Option::Some(ChatMessageHandler::ModCommandHandler) => {
            v.push(33);
        },
        Option::Some(ChatMessageHandler::ControllerCommandHandler) => {
            v.push(95);
        },
        Option::None => {},
    }
    proof {
        assert(v@ =~= handler_marker(handler));
    }
    push_bytes(&mut v, sender);
    v.push(58);
    v.push(32);
    proof {
        assert(v@ =~= handler_marker(handler) + sender@ + seq![58u8, 32u8]);
    }
    push_bytes(&mut v, message);
    proof {
        assert((handler_marker(handler) + sender@ + seq![58u8, 32u8]) + message@ =~= handler_marker(
            handler,
        ) + sender@ + seq![58u8, 32u8] + message@);
    }
    v
}

/// Decide what one chat message does: a privileged moderator command
/// (from an allow-listed sender) is carried out and may switch vote
/// acceptance on or off; otherwise, while votes are accepted, the line
/// is offered to the parser and its commands submitted; anything else
/// is noise.
/// The returned outcome also names the handler for the log.
pub fn handle_tmi_message(
    sched: &mut Scheduler,
    sender: &[u8],
    message: &[u8],
    accepting_controller_commands: bool,
    now_ms: u64,
) -> (r: TmiOutcome)
    requires
        old(sched).wf(),
        now_ms < 0x4000_0000_0000_0000,
        old(sched).queued@.len() + old(sched).active@.len() + message@.len()
            <= crate::aggregate::MAX_VOTES,
    ensures
        final(sched).wf(),
        final(sched).capability == old(sched).capability,
        final(sched).rules == old(sched).rules,
        final(sched).active == old(sched).active,
        final(sched).guards == old(sched).guards,
        r.mod_command == spec_parse_mod_commands(sender@, message@),
        match spec_parse_mod_commands(sender@, message@) {
            Option::Some(m) => {
                &&& r.handler == Some(ChatMessageHandler::ModCommandHandler)
                &&& r.new_accepting == (match m {
                    ModCommand::UnplugController => Some(false),
                    ModCommand::PlugController => Some(true),
                    _ => None::<bool>,
                })
                &&& final(sched).queued == old(sched).queued
            },
            Option::None => {
                &&& r.new_accepting is None
                &&& if accepting_controller_commands && spec_parse(
                    old(sched).capability,
                    message@,
                ) is Ok {
                    &&& r.handler == Some(ChatMessageHandler::ControllerCommandHandler)
                    &&& spec_parse(old(sched).capability, message@) matches Ok(rel)
                        && final(sched).queued@.len() == old(sched).queued@.len() + rel.len()
                        && cmds_match(
                        final(sched).queued@.skip(old(sched).queued@.len() as int),
                        rel,
                        now_ms as int,
                    )
                } else {
                    r.handler is None && final(sched).queued == old(sched).queued
                }
            },
        },
{
    let mod_command = parse_mod_commands(sender, message);
    match mod_command {
        Option::Some(m) => {
            let new_accepting = match m {
                ModCommand::UnplugController => Some(false),
                ModCommand::PlugController => Some(true),
                _ => None,
            };
            TmiOutcome {
                handler: Some(ChatMessageHandler::ModCommandHandler),
                mod_command,
                new_accepting,
            }
        },
        Option::None => {
            if accepting_controller_commands {
                match handle_commands(sched, message, now_ms) {
                    Result::Ok(()) => TmiOutcome {
                        handler: Some(ChatMessageHandler::ControllerCommandHandler),
                        mod_command: None,
                        new_accepting: None,
                    },
                    Result::Err(_) => TmiOutcome {
                        handler: None,
                        mod_command: None,
                        new_accepting: None,
                    },
                }
            } else {
                TmiOutcome { handler: None, mod_command: None, new_accepting: None }
            }
        },
    }
}

} // verus!
