use vstd::prelude::*;
use crate::muxbox::MuxBox;
use crate::pty::{int_decimal, is_running_status, not_found_text, push_i32, PtyManager, PtyStatus};
use crate::text::{chars_of, decimal, push_chars, push_decimal, string_from_chars};

verus! {

/// A command received on the control socket.
#[derive(Debug)]
pub enum SocketFunction {
    ReplaceBoxContent { box_id: String, success: bool, content: String },
    ReplaceBoxScript { box_id: String, script: Vec<String> },
    StopBoxRefresh { box_id: String },
    StartBoxRefresh { box_id: String },
    ReplaceBox { box_id: String, new_box: MuxBox },
    SwitchActiveLayout { layout_id: String },
    AddBox { layout_id: String, muxbox: MuxBox },
    RemoveBox { box_id: String },
    KillPtyProcess { box_id: String },
    RestartPtyProcess { box_id: String },
    QueryPtyStatus { box_id: String },
}

/// What a socket command asks of the application.
#[derive(Debug)]
pub enum SocketMessage {
    /// New content for a box, and whether it reports success.
    MuxBoxOutputUpdate(String, bool, String),
    MuxBoxScriptUpdate(String, Vec<String>),
    StopBoxRefresh(String),
    StartBoxRefresh(String),
    ReplaceMuxBox(String, MuxBox),
    SwitchActiveLayout(String),
    AddBox(String, MuxBox),
    RemoveBox(String),
}

/// Where handling a socket command stands: done, with the messages to send;
/// or waiting for a process to be killed (and, for a restart, for a pause).
#[derive(Debug)]
pub enum SocketStep {
    Messages(Vec<SocketMessage>),
    /// Kill this process, then call `finish_kill`.
    Kill { box_id: String, pid: u32 },
    /// Kill this process if there is one, pause when asked, then call
    /// `finish_restart`.
    Restart { box_id: String, kill_pid: Option<u32>, pause: bool },
}

/// `s` as Rust's `{:?}` writes a string: quoted, with escapes.
pub uninterp spec fn debug_quoted(s: Seq<char>) -> Seq<char>;

/// `<str as Debug>::fmt`, through `format!("{:?}", ..)`: the string quoted and
/// escaped. Only that the result is a function of the text is claimed.
#[verifier::external_body]
fn quoted(s: &str) -> (r: String)
    ensures
        r@ == debug_quoted(s@),
{
    format!("{:?}", s)
}

/// A process id as `{:?}` writes an `Option<u32>`.
pub open spec fn debug_pid(pid: Option<u32>) -> Seq<char> {
    match pid {
        Some(p) => "Some("@ + decimal(p as nat) + ")"@,
        None => "None"@,
    }
}

/// A status as `{:?}` writes it.
pub open spec fn debug_status(s: PtyStatus) -> Seq<char> {
    match s {
        PtyStatus::Starting => "Starting"@,
        PtyStatus::Running => "Running"@,
        PtyStatus::Finished(code) => "Finished("@ + int_decimal(code as int) + ")"@,
        PtyStatus::Error(m) => "Error("@ + debug_quoted(m@) + ")"@,
        PtyStatus::FailedFallback => "FailedFallback"@,
        PtyStatus::Dead(r) => "Dead("@ + debug_quoted(r@) + ")"@,
    }
}

pub open spec fn bool_text(b: bool) -> Seq<char> {
    if b {
        "true"@
    } else {
        "false"@
    }
}

/// The answer to a status query for a box whose process is known.
pub open spec fn status_report(
    muxbox_id: Seq<char>,
    pid: Option<u32>,
    status: PtyStatus,
    running: bool,
    buffer_lines: usize,
) -> Seq<char> {
    "PTY Status - Box: "@ + muxbox_id + ", PID: "@ + debug_pid(pid) + ", Status: "@ + debug_status(status)
        + ", Running: "@ + bool_text(running) + ", Buffer Lines: "@ + decimal(buffer_lines as nat)
}

/// One message: new content for `box_id`, with its success flag and text.
pub open spec fn is_update(v: Seq<SocketMessage>, box_id: Seq<char>, success: bool, text: Seq<char>) -> bool {
    &&& v.len() == 1
    &&& v[0] matches SocketMessage::MuxBoxOutputUpdate(id, ok, t) && id@ == box_id && ok == success && t@ == text
}

pub open spec fn no_manager_text() -> Seq<char> {
    "PTY manager not available"@
}

fn text_of(parts: &Vec<char>) -> (r: String)
    ensures
        r@ == parts@,
{
    string_from_chars(parts)
}

fn concat2(a: &str, b: &str) -> (r: String)
    ensures
        r@ == a@ + b@,
{
    let mut v = chars_of(a);
    let w = chars_of(b);
    push_chars(&mut v, &w);
    string_from_chars(&v)
}

fn update(box_id: &str, success: bool, text: String) -> (r: Vec<SocketMessage>)
    ensures
        is_update(r@, box_id@, success, text@),
{
    let mut v: Vec<SocketMessage> = Vec::new();
    v.push(SocketMessage::MuxBoxOutputUpdate(String::from_str(box_id), success, text));
    v
}

fn one(m: SocketMessage) -> (r: Vec<SocketMessage>)
    ensures
        r@ == seq![m],
{
    let mut v: Vec<SocketMessage> = Vec::new();
    v.push(m);
    v
}

fn push_status(out: &mut Vec<char>, s: &PtyStatus)
    ensures
        final(out)@ == old(out)@ + debug_status(*s),
{
    match s {
        PtyStatus::Starting => {
            let t = chars_of("Starting");
            push_chars(out, &t);
        },
        PtyStatus::Running => {
            let t = chars_of("Running");
            push_chars(out, &t);
        },
        PtyStatus::Finished(code) => {
            let t = chars_of("Finished(");
            push_chars(out, &t);
            push_i32(out, *code);
            out.push(')');
            proof {
                reveal_strlit(")");
            }
            assert(out@ =~= old(out)@ + debug_status(*s));
        },
        PtyStatus::Error(m) => {
            let t = chars_of("Error(");
            push_chars(out, &t);
            let q = quoted(m.as_str());
            let qc = chars_of(q.as_str());
            push_chars(out, &qc);
            out.push(')');
            proof {
                reveal_strlit(")");
            }
            assert(out@ =~= old(out)@ + debug_status(*s));
        },
        PtyStatus::FailedFallback => {
            let t = chars_of("FailedFallback");
            push_chars(out, &t);
        },
        PtyStatus::Dead(r) => {
            let t = chars_of("Dead(");
            push_chars(out, &t);
            let q = quoted(r.as_str());
            let qc = chars_of(q.as_str());
            push_chars(out, &qc);
            out.push(')');
            proof {
                reveal_strlit(")");
            }
            assert(out@ =~= old(out)@ + debug_status(*s));
        },
    }
}

/// The answer to a status query for a box.
pub fn pty_status_report(
    muxbox_id: &str,
    pid: Option<u32>,
    status: &PtyStatus,
    running: bool,
    buffer_lines: usize,
) -> (r: String)
    ensures
        r@ == status_report(muxbox_id@, pid, *status, running, buffer_lines),
{
    let mut out = chars_of("PTY Status - Box: ");
    let id = chars_of(muxbox_id);
    push_chars(&mut out, &id);
    let t = chars_of(", PID: ");
    push_chars(&mut out, &t);
    match pid {
        Some(p) => {
            let a = chars_of("Some(");
            push_chars(&mut out, &a);
            push_decimal(&mut out, p as u64);
            out.push(')');
            proof {
                reveal_strlit(")");
            }
        },
        None => {
            let a = chars_of("None");
            push_chars(&mut out, &a);
        },
    }
    let t = chars_of(", Status: ");
    push_chars(&mut out, &t);
    push_status(&mut out, status);
    let t = chars_of(", Running: ");
    push_chars(&mut out, &t);
    let b = if running {
        chars_of("true")
    } else {
        chars_of("false")
    };
    push_chars(&mut out, &b);
    let t = chars_of(", Buffer Lines: ");
    push_chars(&mut out, &t);
    push_decimal(&mut out, buffer_lines as u64);
    assert(out@ =~= status_report(muxbox_id@, pid, *status, running, buffer_lines));
    text_of(&out)
}

/// Handles a socket command. Commands about boxes and layouts become
/// messages as they are; the PTY commands consult the PTY manager (answering
/// that it is not available when there is none): a query answers at once, a
/// kill of a killable process and a restart hand back the process to kill.
pub fn run_socket_function(socket_function: SocketFunction, pty_manager: &Option<PtyManager>) -> (r: SocketStep)
    ensures
        match socket_function {
            SocketFunction::ReplaceBoxContent { box_id, success, content } => r matches SocketStep::Messages(v) && v@
                == seq![SocketMessage::MuxBoxOutputUpdate(box_id, success, content)],
            SocketFunction::ReplaceBoxScript { box_id, script } => r matches SocketStep::Messages(v) && v@ == seq![
                SocketMessage::MuxBoxScriptUpdate(box_id, script),
            ],
            SocketFunction::StopBoxRefresh { box_id } => r matches SocketStep::Messages(v) && v@ == seq![
                SocketMessage::StopBoxRefresh(box_id),
            ],
            SocketFunction::StartBoxRefresh { box_id } => r matches SocketStep::Messages(v) && v@ == seq![
                SocketMessage::StartBoxRefresh(box_id),
            ],
            SocketFunction::ReplaceBox { box_id, new_box } => r matches SocketStep::Messages(v) && v@ == seq![
                SocketMessage::ReplaceMuxBox(box_id, new_box),
            ],
            SocketFunction::SwitchActiveLayout { layout_id } => r matches SocketStep::Messages(v) && v@ == seq![
                SocketMessage::SwitchActiveLayout(layout_id),
            ],
            SocketFunction::AddBox { layout_id, muxbox } => r matches SocketStep::Messages(v) && v@ == seq![
                SocketMessage::AddBox(layout_id, muxbox),
            ],
            SocketFunction::RemoveBox { box_id } => r matches SocketStep::Messages(v) && v@ == seq![
                SocketMessage::RemoveBox(box_id),
            ],
            SocketFunction::KillPtyProcess { box_id } => match pty_manager {
                None => r matches SocketStep::Messages(v) && is_update(v@, box_id@, false, no_manager_text()),
                Some(pm) => match pm.kill_target(box_id@) {
                    Ok(pid) => r matches SocketStep::Kill { box_id: b, pid: p } && b@ == box_id@ && p == pid,
                    Err(e) => r matches SocketStep::Messages(v) && is_update(
                        v@,
                        box_id@,
                        false,
                        "Failed to kill PTY process: "@ + e,
                    ),
                },
            },
            SocketFunction::RestartPtyProcess { box_id } => match pty_manager {
                None => r matches SocketStep::Messages(v) && is_update(v@, box_id@, false, no_manager_text()),
                Some(pm) => {
                    let running = pm.processes().contains_key(box_id@) && is_running_status(
                        pm.processes()[box_id@].status,
                    );
                    r matches SocketStep::Restart { box_id: b, kill_pid: k, pause: w } && b@ == box_id@ && w
                        == running && k == (if running {
                        match pm.kill_target(box_id@) {
                            Ok(pid) => Some(pid),
                            Err(_) => None,
                        }
                    } else {
                        None
                    })
                },
            },
            SocketFunction::QueryPtyStatus { box_id } => match pty_manager {
                None => r matches SocketStep::Messages(v) && is_update(v@, box_id@, false, no_manager_text()),
                Some(pm) => if pm.processes().contains_key(box_id@) {
                    let p = pm.processes()[box_id@];
                    r matches SocketStep::Messages(v) && is_update(
                        v@,
                        box_id@,
                        true,
                        status_report(p.muxbox_id@, p.process_id, p.status, is_running_status(p.status), p.buffer_lines),
                    )
                } else {
                    r matches SocketStep::Messages(v) && is_update(
                        v@,
                        box_id@,
                        false,
                        "No PTY process found for box "@ + box_id@,
                    )
                },
            },
        },
{
    match socket_function {
        SocketFunction::ReplaceBoxContent { box_id, success, content } => SocketStep::Messages(
            one(SocketMessage::MuxBoxOutputUpdate(box_id, success, content)),
        ),
        SocketFunction::ReplaceBoxScript { box_id, script } => SocketStep::Messages(
            one(SocketMessage::MuxBoxScriptUpdate(box_id, script)),
        ),
        SocketFunction::StopBoxRefresh { box_id } => SocketStep::Messages(one(SocketMessage::StopBoxRefresh(box_id))),
        SocketFunction::StartBoxRefresh { box_id } => SocketStep::Messages(one(SocketMessage::StartBoxRefresh(box_id))),
        SocketFunction::ReplaceBox { box_id, new_box } => SocketStep::Messages(
            one(SocketMessage::ReplaceMuxBox(box_id, new_box)),
        ),
        SocketFunction::SwitchActiveLayout { layout_id } => SocketStep::Messages(
            one(SocketMessage::SwitchActiveLayout(layout_id)),
        ),
        SocketFunction::AddBox { layout_id, muxbox } => SocketStep::Messages(one(SocketMessage::AddBox(layout_id, muxbox))),
        SocketFunction::RemoveBox { box_id } => SocketStep::Messages(one(SocketMessage::RemoveBox(box_id))),
        SocketFunction::KillPtyProcess { box_id } => match pty_manager {
            None => SocketStep::Messages(update(box_id.as_str(), false, String::from_str("PTY manager not available"))),
            Some(pm) => match pm.pid_to_kill(box_id.as_str()) {
                Ok(pid) => SocketStep::Kill { box_id, pid },
                Err(e) => {
                    let text = concat2("Failed to kill PTY process: ", e.as_str());
                    SocketStep::Messages(update(box_id.as_str(), false, text))
                },
            },
        },
        SocketFunction::RestartPtyProcess { box_id } => match pty_manager {
            None => SocketStep::Messages(update(box_id.as_str(), false, String::from_str("PTY manager not available"))),
            Some(pm) => {
                let running = pm.is_process_running(box_id.as_str());
                let kill_pid = if running {
                    match pm.pid_to_kill(box_id.as_str()) {
                        Ok(pid) => Some(pid),
                        Err(_) => None,
                    }
                } else {
                    None
                };
                SocketStep::Restart { box_id, kill_pid, pause: running }
            },
        },
        SocketFunction::QueryPtyStatus { box_id } => match pty_manager {
            None => SocketStep::Messages(update(box_id.as_str(), false, String::from_str("PTY manager not available"))),
            Some(pm) => match pm.get_detailed_process_info(box_id.as_str()) {
                Some(info) => {
                    let text = pty_status_report(
                        info.muxbox_id.as_str(),
                        info.process_id,
                        &info.status,
                        info.is_running,
                        info.buffer_lines,
                    );
                    SocketStep::Messages(update(box_id.as_str(), true, text))
                },
                None => {
                    let text = concat2("No PTY process found for box ", box_id.as_str());
                    SocketStep::Messages(update(box_id.as_str(), false, text))
                },
            },
        },
    }
}

/// Finishes a kill started by `run_socket_function`: the outcome of the kill
/// is recorded, and the box is told whether it worked.
pub fn finish_kill(box_id: &str, outcome: Result<(), String>, pty_manager: &mut PtyManager) -> (r: Vec<SocketMessage>)
    ensures
        old(pty_manager).processes().contains_key(box_id@) ==> match outcome {
            Ok(_) => is_update(r@, box_id@, true, "PTY process killed for box "@ + box_id@),
            Err(m) => is_update(r@, box_id@, false, "Failed to kill PTY process: "@ + m@),
        },
        !old(pty_manager).processes().contains_key(box_id@) ==> is_update(
            r@,
            box_id@,
            false,
            "Failed to kill PTY process: "@ + not_found_text(box_id@),
        ),
        old(pty_manager).processes().contains_key(box_id@) ==> final(pty_manager).processes() == old(
            pty_manager,
        ).processes().insert(
            box_id@,
            crate::pty::PtyProcess {
                status: match outcome {
                    Ok(_) => PtyStatus::Finished(-9i32),
                    Err(m) => PtyStatus::Error(m),
                },
                ..old(pty_manager).processes()[box_id@]
            },
        ),
        !old(pty_manager).processes().contains_key(box_id@) ==> final(pty_manager).processes() == old(
            pty_manager,
        ).processes(),
        final(pty_manager).failures() == old(pty_manager).failures(),
{
    match pty_manager.record_kill_outcome(box_id, outcome) {
        Ok(()) => {
            let text = concat2("PTY process killed for box ", box_id);
            update(box_id, true, text)
        },
        Err(e) => {
            let text = concat2("Failed to kill PTY process: ", e.as_str());
            update(box_id, false, text)
        },
    }
}

/// Finishes a restart started by `run_socket_function`, once any kill and
/// pause are done: the box's process is set to start again with its failure
/// history cleared, and the box is told whether that worked.
pub fn finish_restart(box_id: &str, pty_manager: &mut PtyManager) -> (r: Vec<SocketMessage>)
    ensures
        old(pty_manager).processes().contains_key(box_id@) ==> is_update(
            r@,
            box_id@,
            true,
            "PTY process restarted for box "@ + box_id@,
        ),
        !old(pty_manager).processes().contains_key(box_id@) ==> is_update(
            r@,
            box_id@,
            false,
            "Failed to restart PTY process: "@ + not_found_text(box_id@),
        ),
        old(pty_manager).processes().contains_key(box_id@) ==> final(pty_manager).processes() == old(
            pty_manager,
        ).processes().insert(
            box_id@,
            crate::pty::PtyProcess {
                status: PtyStatus::Starting,
                process_id: None,
                ..old(pty_manager).processes()[box_id@]
            },
        ),
        !old(pty_manager).processes().contains_key(box_id@) ==> final(pty_manager).processes() == old(
            pty_manager,
        ).processes(),
        final(pty_manager).failures() == old(pty_manager).failures().remove(box_id@),
{
    match pty_manager.restart_pty_process(box_id) {
        Ok(()) => {
            let text = concat2("PTY process restarted for box ", box_id);
            update(box_id, true, text)
        },
        Err(e) => {
            let text = concat2("Failed to restart PTY process: ", e.as_str());
            update(box_id, false, text)
        },
    }
}

/// The kill outcome of a kill command that ran and failed, with what it
/// wrote on its error output.
pub fn kill_command_failed(stderr_text: &str) -> (r: String)
    ensures
        r@ == "Kill command failed: "@ + stderr_text@,
{
    concat2("Kill command failed: ", stderr_text)
}

/// The kill outcome of a kill command that could not be run.
pub fn kill_command_not_run(error_text: &str) -> (r: String)
    ensures
        r@ == "Failed to execute kill command: "@ + error_text@,
{
    concat2("Failed to execute kill command: ", error_text)
}

} // verus!
