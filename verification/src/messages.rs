use vstd::prelude::*;
use std::sync::mpsc::Sender;
use std::time::SystemTime;
use uuid::Uuid;

verus! {

#[verifier::external_type_specification]
#[verifier::external_body]
pub struct ExUuid(Uuid);

#[verifier::external_type_specification]
#[verifier::external_body]
pub struct ExSystemTime(SystemTime);

#[verifier::external_type_specification]
#[verifier::external_body]
#[verifier::reject_recursive_types(T)]
pub struct ExSender<T>(Sender<T>);

/// `Uuid::clone`: `Uuid` is `Copy`, and its clone is the value itself.
pub assume_specification[ <Uuid as Clone>::clone ](u: &Uuid) -> (r: Uuid)
    ensures
        r == *u,
;

/// `SystemTime::clone`: `SystemTime` is `Copy`, and its clone is the value itself.
pub assume_specification[ <SystemTime as Clone>::clone ](t: &SystemTime) -> (r: SystemTime)
    ensures
        r == *t,
;

/// `Uuid::new_v4()`: a random identifier. Nothing is promised of the value.
#[verifier::external_body]
pub(crate) fn new_task_id() -> Uuid {
    Uuid::new_v4()
}

/// `Sender::send`: hands a message to the channel; answers whether the
/// receiving end still exists. The answer depends on the receiver, so nothing
/// is promised of it.
#[verifier::external_body]
pub(crate) fn send_message(sender: &Sender<Message>, msg: Message) -> bool {
    sender.send(msg).is_ok()
}

/// One line of streamed script output for a panel.
#[derive(Debug, Clone)]
pub struct StreamingOutput {
    pub panel_id: String,
    pub line_content: String,
    pub sequence: u64,
    pub timestamp: SystemTime,
    pub is_stderr: bool,
}

/// Notice that a panel's streamed output has been delivered.
#[derive(Debug, Clone)]
pub struct StreamingComplete {
    pub panel_id: String,
    pub task_id: Uuid,
    pub exit_code: Option<i32>,
    pub success: bool,
    pub total_lines: u64,
}

impl StreamingComplete {
    /// A notice; it reports success when the exit code is 0.
    pub fn new(panel_id: String, task_id: Uuid, exit_code: Option<i32>, total_lines: u64) -> (c: Self)
        ensures
            c.panel_id == panel_id,
            c.task_id == task_id,
            c.exit_code == exit_code,
            c.success == (exit_code == Some(0i32)),
            c.total_lines == total_lines,
    {
        let success = match exit_code {
            Some(code) => code == 0,
            None => false,
        };
        StreamingComplete { panel_id, task_id, exit_code, success, total_lines }
    }
}

/// Messages that the update manager sends to the draw loop.
#[derive(Debug, Clone)]
pub enum Message {
    StreamingComplete(StreamingComplete),
    RedrawPanel(String),
}

} // verus!
