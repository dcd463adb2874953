use vstd::prelude::*;
use vstd::utf8::*;
use crate::keyed::KeyedList;
use crate::muxbox::texts;
use crate::text::{chars_of, decimal, push_chars, push_decimal, string_from_chars, trim_chars, trimmed};

verus! {

broadcast use vstd::utf8::encode_utf8_decode_utf8;

/// State of a PTY process.
#[derive(Debug, Clone, PartialEq)]
pub enum PtyStatus {
    Starting,
    Running,
    /// Exited with this code.
    Finished(i32),
    Error(String),
    /// The PTY failed and the script ran without one.
    FailedFallback,
    /// The process died unexpectedly, for this reason.
    Dead(String),
}

/// Bookkeeping of one PTY process: whose it is, its process id and state,
/// whether it may be killed, its stream and the length of its scrollback.
#[derive(Debug, Clone)]
pub struct PtyProcess {
    pub muxbox_id: String,
    pub process_id: Option<u32>,
    pub status: PtyStatus,
    pub can_kill: bool,
    pub stream_id: String,
    pub buffer_lines: usize,
}

/// Detailed process information for display.
#[derive(Debug, Clone)]
pub struct ProcessInfo {
    pub muxbox_id: String,
    pub process_id: Option<u32>,
    pub status: PtyStatus,
    pub can_kill: bool,
    pub buffer_lines: usize,
    pub is_running: bool,
}

/// Kinds of PTY error.
#[derive(Debug, Clone, Copy, PartialEq, Eq, Structural)]
pub enum ErrorType {
    ExecutionError,
    ProcessDied,
    FallbackUsed,
}

/// Error state details for the recovery display.
#[derive(Debug, Clone)]
pub struct ErrorStateInfo {
    pub muxbox_id: String,
    pub error_type: ErrorType,
    pub message: String,
    pub pid: Option<u32>,
    pub can_retry: bool,
    pub suggested_action: String,
}

pub open spec fn is_running_status(s: PtyStatus) -> bool {
    s is Running || s is Starting
}

pub open spec fn is_error_status(s: PtyStatus) -> bool {
    s is Error || s is Dead || s is FailedFallback
}

/// Decimal notation of an integer, with a minus sign when negative.
pub open spec fn int_decimal(i: int) -> Seq<char> {
    if i < 0 {
        seq!['-'] + decimal((-i) as nat)
    } else {
        decimal(i as nat)
    }
}

/// The characters whose UTF-8 encoding is the first `n` bytes of that of `s`.
pub open spec fn byte_prefix(s: Seq<char>, n: int) -> Seq<char> {
    decode_utf8(encode_utf8(s).subrange(0, n))
}

pub open spec fn byte_len(s: Seq<char>) -> int {
    encode_utf8(s).len() as int
}

/// `text` cut to `keep` bytes when it is longer than `limit` bytes.
pub open spec fn shortened(text: Seq<char>, limit: int, keep: int) -> Seq<char> {
    if byte_len(text) > limit {
        byte_prefix(text, keep)
    } else {
        text
    }
}

/// Compact text of a status.
pub open spec fn status_text(s: PtyStatus) -> Seq<char> {
    match s {
        PtyStatus::Starting => "Starting"@,
        PtyStatus::Running => "Running"@,
        PtyStatus::Finished(code) => if code == 0 {
            "Done"@
        } else {
            "Exit:"@ + int_decimal(code as int)
        },
        PtyStatus::Error(msg) => "Error:"@ + shortened(msg@, 10, 7),
        PtyStatus::FailedFallback => "Fallback"@,
        PtyStatus::Dead(reason) => "Dead:"@ + shortened(reason@, 8, 5),
    }
}

/// Whether the status text can be made without cutting inside a character.
pub open spec fn status_text_safe(s: PtyStatus) -> bool {
    match s {
        PtyStatus::Error(msg) => byte_len(msg@) <= usize::MAX && (byte_len(msg@) > 10 ==> is_char_boundary(
            encode_utf8(msg@),
            7,
        )),
        PtyStatus::Dead(reason) => byte_len(reason@) <= usize::MAX && (byte_len(reason@) > 8 ==> is_char_boundary(
            encode_utf8(reason@),
            5,
        )),
        _ => true,
    }
}

pub(crate) fn push_i32(out: &mut Vec<char>, v: i32)
    ensures
        final(out)@ == old(out)@ + int_decimal(v as int),
{
    if v < 0 {
        out.push('-');
        let m: i64 = -(v as i64);
        push_decimal(out, m as u64);
        assert(final(out)@ =~= old(out)@ + int_decimal(v as int));
    } else {
        push_decimal(out, v as u64);
    }
}

/// `text` cut to `keep` bytes when it is longer than `limit` bytes.
fn shorten(text: &String, limit: usize, keep: usize) -> (r: Vec<char>)
    requires
        keep <= limit,
        byte_len(text@) <= usize::MAX,
        byte_len(text@) > limit ==> is_char_boundary(encode_utf8(text@), keep as int),
    ensures
        r@ == shortened(text@, limit as int, keep as int),
{
    let s = text.as_str();
    if s.len() > limit {
        let (head, _) = s.split_at(keep);
        proof {
            assert(encode_utf8(head@) == encode_utf8(text@).subrange(0, keep as int));
            assert(head@ == decode_utf8(encode_utf8(head@)));
            assert(head@ == byte_prefix(text@, keep as int));
        }
        chars_of(head)
    } else {
        chars_of(s)
    }
}

fn status_text_exec(s: &PtyStatus) -> (r: Vec<char>)
    requires
        status_text_safe(*s),
    ensures
        r@ == status_text(*s),
{
    let mut out: Vec<char> = Vec::new();
    match s {
        PtyStatus::Starting => {
            out = chars_of("Starting");
        },
        PtyStatus::Running => {
            out = chars_of("Running");
        },
        PtyStatus::Finished(code) => {
            if *code == 0 {
                out = chars_of("Done");
            } else {
                out = chars_of("Exit:");
                push_i32(&mut out, *code);
            }
        },
        PtyStatus::Error(msg) => {
            out = chars_of("Error:");
            let tail = shorten(msg, 10, 7);
            push_chars(&mut out, &tail);
        },
        PtyStatus::FailedFallback => {
            out = chars_of("Fallback");
        },
        PtyStatus::Dead(reason) => {
            out = chars_of("Dead:");
            let tail = shorten(reason, 8, 5);
            push_chars(&mut out, &tail);
        },
    }
    out
}

fn copy_status(s: &PtyStatus) -> (r: PtyStatus)
    ensures
        r == *s,
{
    match s {
        PtyStatus::Starting => PtyStatus::Starting,
        PtyStatus::Running => PtyStatus::Running,
        PtyStatus::Finished(c) => PtyStatus::Finished(*c),
        PtyStatus::Error(m) => PtyStatus::Error(m.clone()),
        PtyStatus::FailedFallback => PtyStatus::FailedFallback,
        PtyStatus::Dead(r) => PtyStatus::Dead(r.clone()),
    }
}

/// Text of a "not found" error for a box.
pub open spec fn not_found_text(muxbox_id: Seq<char>) -> Seq<char> {
    "PTY not found for muxbox: "@ + muxbox_id
}

fn not_found(muxbox_id: &str) -> (r: String)
    ensures
        r@ == not_found_text(muxbox_id@),
{
    let mut v = chars_of("PTY not found for muxbox: ");
    let id = chars_of(muxbox_id);
    push_chars(&mut v, &id);
    string_from_chars(&v)
}

/// Bookkeeping of the PTY processes of the boxes and of their failures: the
/// state that decides restarts, fallbacks and what the status line shows.
#[derive(Debug)]
pub struct PtyManager {
    active_ptys: KeyedList<PtyProcess>,
    pty_failures: KeyedList<Vec<String>>,
}

impl Default for PtyManager {
    /// An empty manager.
    fn default() -> (m: Self)
        ensures
            m.processes() == Map::<Seq<char>, PtyProcess>::empty(),
            m.failures() == Map::<Seq<char>, Seq<Seq<char>>>::empty(),
    {
        match PtyManager::new() {
            Ok(m) => m,
            Err(_) => {
                proof {
                    assert(false);
                }
                PtyManager { active_ptys: KeyedList::new(), pty_failures: KeyedList::new() }
            },
        }
    }
}

impl PtyManager {
    /// The processes, by box id.
    pub closed spec fn processes(&self) -> Map<Seq<char>, PtyProcess> {
        self.active_ptys.view()
    }

    /// Failure messages recorded per box, oldest first.
    pub closed spec fn failures(&self) -> Map<Seq<char>, Seq<Seq<char>>> {
        self.pty_failures.view().map_values(|v: Vec<String>| v@.map_values(|s: String| s@))
    }

    /// Process id and status of a box's process, when it has a process id.
    pub open spec fn spec_process_info(&self, id: Seq<char>) -> Option<(u32, PtyStatus)> {
        if self.processes().contains_key(id) && self.processes()[id].process_id is Some {
            Some((self.processes()[id].process_id->0, self.processes()[id].status))
        } else {
            None
        }
    }

    /// An empty manager; never fails.
    pub fn new() -> (r: Result<Self, String>)
        ensures
            r matches Ok(m) && m.processes() == Map::<Seq<char>, PtyProcess>::empty() && m.failures()
                == Map::<Seq<char>, Seq<Seq<char>>>::empty(),
    {
        let m = PtyManager { active_ptys: KeyedList::new(), pty_failures: KeyedList::new() };
        assert(m.failures() =~= Map::<Seq<char>, Seq<Seq<char>>>::empty());
        Ok(m)
    }

    /// Registers (or replaces) the process of a box.
    pub fn add_pty_process(&mut self, process: PtyProcess)
        ensures
            final(self).processes() == old(self).processes().insert(process.muxbox_id@, process),
            final(self).failures() == old(self).failures(),
    {
        let id = process.muxbox_id.clone();
        self.active_ptys.insert(id.as_str(), process);
    }

    /// The stream that a box's process writes to, if the box has a process.
    pub fn get_stream_id(&self, muxbox_id: &str) -> (r: Option<String>)
        ensures
            (match r {
                Some(s) => Some(s@),
                None => None,
            }) == (if self.processes().contains_key(muxbox_id@) {
                Some(self.processes()[muxbox_id@].stream_id@)
            } else {
                None
            }),
    {
        match self.active_ptys.get(muxbox_id) {
            Some(p) => Some(p.stream_id.clone()),
            None => None,
        }
    }

    pub fn get_pty_status(&self, muxbox_id: &str) -> (r: Option<PtyStatus>)
        ensures
            r == (if self.processes().contains_key(muxbox_id@) {
                Some(self.processes()[muxbox_id@].status)
            } else {
                None
            }),
    {
        match self.active_ptys.get(muxbox_id) {
            Some(p) => Some(copy_status(&p.status)),
            None => None,
        }
    }

    /// Forgets the processes that finished or failed.
    pub fn cleanup_finished(&mut self)
        ensures
            final(self).processes() == old(self).processes().restrict(
                old(self).processes().dom().filter(
                    |k: Seq<char>| !(old(self).processes()[k].status is Finished || old(self).processes()[k].status is Error),
                ),
            ),
            final(self).failures() == old(self).failures(),
    {
        let keys = self.active_ptys.keys();
        let ghost start = self.processes();
        let ghost keep = start.dom().filter(
            |k: Seq<char>| !(start[k].status is Finished || start[k].status is Error),
        );
        let mut i: usize = 0;
        while i < keys.len()
            invariant
                i <= keys@.len(),
                self.failures() == old(self).failures(),
                start == old(self).processes(),
                keep == start.dom().filter(|k: Seq<char>| !(start[k].status is Finished || start[k].status is Error)),
                forall|a: int, b: int| 0 <= a < keys@.len() && 0 <= b < keys@.len() && a != b ==> keys@[a]@ != keys@[b]@,
                forall|k: Seq<char>| start.contains_key(k) <==> exists|j: int| 0 <= j < keys@.len() && #[trigger] keys@[j]@ == k,
                forall|k: Seq<char>| #[trigger] self.processes().contains_key(k) ==> start.contains_key(k) && self.processes()[k] == start[k],
                forall|j: int| 0 <= j < i ==> (#[trigger] self.processes().contains_key(keys@[j]@)) == keep.contains(keys@[j]@),
                forall|j: int| i <= j < keys@.len() ==> #[trigger] self.processes().contains_key(keys@[j]@),
            decreases keys@.len() - i,
        {
            let key = keys[i].as_str();
            let finished = match self.active_ptys.get(key) {
                Some(p) => match &p.status {
                    PtyStatus::Finished(_) | PtyStatus::Error(_) => true,
                    _ => false,
                },
                None => false,
            };
            let ghost before = self.processes();
            if finished {
                let _ = self.active_ptys.remove(key);
            }
            proof {
                assert forall|j: int| 0 <= j < i + 1 implies (#[trigger] self.processes().contains_key(keys@[j]@)) == keep.contains(keys@[j]@) by {
                    if j < i {
                        assert(keys@[j]@ != keys@[i as int]@);
                    }
                }
                assert forall|j: int| i + 1 <= j < keys@.len() implies #[trigger] self.processes().contains_key(keys@[j]@) by {
                    assert(keys@[j]@ != keys@[i as int]@);
                }
            }
            i = i + 1;
        }
        proof {
            let want = start.restrict(keep);
            assert forall|k: Seq<char>| #[trigger] self.processes().contains_key(k) == want.contains_key(k) by {
                if start.contains_key(k) {
                    let j = choose|j: int| 0 <= j < keys@.len() && #[trigger] keys@[j]@ == k;
                    assert(self.processes().contains_key(keys@[j]@) == keep.contains(keys@[j]@));
                }
            }
            assert(self.processes() =~= want);
        }
    }

    /// The boxes that have a process.
    pub fn get_active_pty_muxboxes(&self) -> (r: Vec<String>)
        ensures
            forall|i: int, j: int| 0 <= i < r@.len() && 0 <= j < r@.len() && i != j ==> r@[i]@ != r@[j]@,
            forall|k: Seq<char>| self.processes().contains_key(k) <==> exists|i: int| 0 <= i < r@.len() && #[trigger] r@[i]@ == k,
    {
        self.active_ptys.keys()
    }

    /// Signals are not sent yet; always succeeds.
    pub fn send_signal(&mut self, muxbox_id: &str, signal: i32) -> (r: Result<(), String>)
        ensures
            r is Ok,
            final(self).processes() == old(self).processes(),
            final(self).failures() == old(self).failures(),
    {
        Ok(())
    }

    pub fn get_process_info(&self, muxbox_id: &str) -> (r: Option<(u32, PtyStatus)>)
        ensures
            r == self.spec_process_info(muxbox_id@),
    {
        match self.active_ptys.get(muxbox_id) {
            Some(p) => match p.process_id {
                Some(pid) => Some((pid, copy_status(&p.status))),
                None => None,
            },
            None => None,
        }
    }

    /// Whether the box's process is starting or running.
    pub fn is_process_running(&self, muxbox_id: &str) -> (r: bool)
        ensures
            r == (self.processes().contains_key(muxbox_id@) && is_running_status(self.processes()[muxbox_id@].status)),
    {
        match self.active_ptys.get(muxbox_id) {
            Some(p) => match p.status {
                PtyStatus::Running | PtyStatus::Starting => true,
                _ => false,
            },
            None => false,
        }
    }

    /// Appends a failure message to the box's history.
    pub fn record_pty_failure(&mut self, muxbox_id: String, error_msg: String)
        ensures
            final(self).failures() == old(self).failures().insert(
                muxbox_id@,
                (if old(self).failures().contains_key(muxbox_id@) {
                    old(self).failures()[muxbox_id@]
                } else {
                    Seq::empty()
                }).push(error_msg@),
            ),
            final(self).processes() == old(self).processes(),
    {
        let mut history = match self.pty_failures.remove(muxbox_id.as_str()) {
            Some(v) => v,
            None => Vec::new(),
        };
        history.push(error_msg);
        self.pty_failures.insert(muxbox_id.as_str(), history);
        proof {
            let want = old(self).failures().insert(
                muxbox_id@,
                (if old(self).failures().contains_key(muxbox_id@) {
                    old(self).failures()[muxbox_id@]
                } else {
                    Seq::empty()
                }).push(error_msg@),
            );
            assert(history@.map_values(|s: String| s@) =~= (if old(self).failures().contains_key(muxbox_id@) {
                old(self).failures()[muxbox_id@]
            } else {
                Seq::empty()
            }).push(error_msg@));
            assert(self.failures() =~= want);
        }
    }

    /// The box's failure messages, oldest first.
    pub fn get_pty_failure_history(&self, muxbox_id: &str) -> (r: Vec<String>)
        ensures
            r@.map_values(|s: String| s@) == (if self.failures().contains_key(muxbox_id@) {
                self.failures()[muxbox_id@]
            } else {
                Seq::empty()
            }),
    {
        match self.pty_failures.get(muxbox_id) {
            Some(v) => {
                let mut r: Vec<String> = Vec::new();
                let mut i: usize = 0;
                while i < v.len()
                    invariant
                        i <= v@.len(),
                        r@.map_values(|s: String| s@) == v@.map_values(|s: String| s@).take(i as int),
                    decreases v@.len() - i,
                {
                    let ghost prev = r@;
                    let item = v[i].clone();
                    r.push(item);
                    proof {
                        assert(r@ == prev.push(item));
                        assert(r@.map_values(|s: String| s@) =~= prev.map_values(|s: String| s@).push(v@[i as int]@));
                        assert(v@.map_values(|s: String| s@).take(i + 1) =~= v@.map_values(|s: String| s@).take(
                            i as int,
                        ).push(v@[i as int]@));
                    }
                    i = i + 1;
                }
                assert(v@.map_values(|s: String| s@).take(v@.len() as int) =~= v@.map_values(|s: String| s@));
                r
            },
            None => {
                let r: Vec<String> = Vec::new();
                assert(r@.map_values(|s: String| s@) =~= Seq::<Seq<char>>::empty());
                r
            },
        }
    }

    /// Whether the box has at least `threshold` recorded failures.
    pub fn has_recent_pty_failures(&self, muxbox_id: &str, threshold: usize) -> (r: bool)
        ensures
            r == (self.failures().contains_key(muxbox_id@) && self.failures()[muxbox_id@].len() >= threshold),
    {
        match self.pty_failures.get(muxbox_id) {
            Some(v) => v.len() >= threshold,
            None => false,
        }
    }

    pub fn clear_pty_failures(&mut self, muxbox_id: &str)
        ensures
            final(self).failures() == old(self).failures().remove(muxbox_id@),
            final(self).processes() == old(self).processes(),
    {
        let _ = self.pty_failures.remove(muxbox_id);
        assert(self.failures() =~= old(self).failures().remove(muxbox_id@));
    }

    /// A PTY is avoided after three failures.
    pub fn should_avoid_pty(&self, muxbox_id: &str) -> (r: bool)
        ensures
            r == (self.failures().contains_key(muxbox_id@) && self.failures()[muxbox_id@].len() >= 3),
    {
        self.has_recent_pty_failures(muxbox_id, 3)
    }

    pub fn reset_failure_tracking(&mut self)
        ensures
            final(self).failures() == Map::<Seq<char>, Seq<Seq<char>>>::empty(),
            final(self).processes() == old(self).processes(),
    {
        self.pty_failures.clear();
        assert(self.failures() =~= Map::<Seq<char>, Seq<Seq<char>>>::empty());
    }

    /// Details of the box's process.
    pub fn get_detailed_process_info(&self, muxbox_id: &str) -> (r: Option<ProcessInfo>)
        ensures
            r is Some <==> self.processes().contains_key(muxbox_id@),
            r matches Some(info) ==> {
                let p = self.processes()[muxbox_id@];
                &&& info.muxbox_id@ == p.muxbox_id@
                &&& info.process_id == p.process_id
                &&& info.status == p.status
                &&& info.can_kill == p.can_kill
                &&& info.buffer_lines == p.buffer_lines
                &&& info.is_running == is_running_status(p.status)
            },
    {
        match self.active_ptys.get(muxbox_id) {
            Some(p) => Some(
                ProcessInfo {
                    muxbox_id: p.muxbox_id.clone(),
                    process_id: p.process_id,
                    status: copy_status(&p.status),
                    can_kill: p.can_kill,
                    buffer_lines: p.buffer_lines,
                    is_running: match p.status {
                        PtyStatus::Running | PtyStatus::Starting => true,
                        _ => false,
                    },
                },
            ),
            None => None,
        }
    }

    /// `PID:<pid> <status>` for the status line, e.g. `PID:42 Exit:1`.
    pub fn get_process_status_summary(&self, muxbox_id: &str) -> (r: Option<String>)
        requires
            self.spec_process_info(muxbox_id@) matches Some((_, s)) ==> status_text_safe(s),
        ensures
            r is Some <==> self.spec_process_info(muxbox_id@) is Some,
            r matches Some(t) ==> {
                let (pid, s) = self.spec_process_info(muxbox_id@)->0;
                t@ == "PID:"@ + decimal(pid as nat) + seq![' '] + status_text(s)
            },
    {
        match self.get_process_info(muxbox_id) {
            Some((pid, status)) => {
                let mut out = chars_of("PID:");
                push_decimal(&mut out, pid as u64);
                out.push(' ');
                let text = status_text_exec(&status);
                push_chars(&mut out, &text);
                Some(string_from_chars(&out))
            },
            None => None,
        }
    }

    /// Whether the box's process has failed, died or fallen back.
    pub fn is_pty_in_error_state(&self, muxbox_id: &str) -> (r: bool)
        ensures
            r == (self.spec_process_info(muxbox_id@) matches Some((_, s)) && is_error_status(s)),
    {
        match self.get_process_info(muxbox_id) {
            Some((_, status)) => match status {
                PtyStatus::Error(_) | PtyStatus::Dead(_) | PtyStatus::FailedFallback => true,
                _ => false,
            },
            None => false,
        }
    }

    pub fn is_pty_dead(&self, muxbox_id: &str) -> (r: bool)
        ensures
            r == (self.spec_process_info(muxbox_id@) matches Some((_, s)) && s is Dead),
    {
        match self.get_process_info(muxbox_id) {
            Some((_, status)) => match status {
                PtyStatus::Dead(_) => true,
                _ => false,
            },
            None => false,
        }
    }

    /// What the recovery display shows for a failed, dead or fallen-back process.
    pub fn get_error_state_info(&self, muxbox_id: &str) -> (r: Option<ErrorStateInfo>)
        ensures
            r is Some <==> (self.spec_process_info(muxbox_id@) matches Some((_, s)) && is_error_status(s)),
            r matches Some(info) ==> {
                let (pid, s) = self.spec_process_info(muxbox_id@)->0;
                &&& info.muxbox_id@ == muxbox_id@
                &&& info.pid == Some(pid)
                &&& info.can_retry
                &&& (s matches PtyStatus::Error(m) ==> info.error_type == ErrorType::ExecutionError
                    && info.message@ == m@ && info.suggested_action@ == "Retry PTY execution"@)
                &&& (s matches PtyStatus::Dead(m) ==> info.error_type == ErrorType::ProcessDied
                    && info.message@ == m@ && info.suggested_action@ == "Restart PTY process"@)
                &&& (s is FailedFallback ==> info.error_type == ErrorType::FallbackUsed
                    && info.message@ == "PTY failed, using regular execution"@
                    && info.suggested_action@ == "Reset PTY and retry"@)
            },
    {
        match self.get_process_info(muxbox_id) {
            Some((pid, status)) => match status {
                PtyStatus::Error(msg) => Some(
                    ErrorStateInfo {
                        muxbox_id: String::from_str(muxbox_id),
                        error_type: ErrorType::ExecutionError,
                        message: msg,
                        pid: Some(pid),
                        can_retry: true,
                        suggested_action: String::from_str("Retry PTY execution"),
                    },
                ),
                PtyStatus::Dead(reason) => Some(
                    ErrorStateInfo {
                        muxbox_id: String::from_str(muxbox_id),
                        error_type: ErrorType::ProcessDied,
                        message: reason,
                        pid: Some(pid),
                        can_retry: true,
                        suggested_action: String::from_str("Restart PTY process"),
                    },
                ),
                PtyStatus::FailedFallback => Some(
                    ErrorStateInfo {
                        muxbox_id: String::from_str(muxbox_id),
                        error_type: ErrorType::FallbackUsed,
                        message: String::from_str("PTY failed, using regular execution"),
                        pid: Some(pid),
                        can_retry: true,
                        suggested_action: String::from_str("Reset PTY and retry"),
                    },
                ),
                _ => None,
            },
            None => None,
        }
    }

    fn set_status(&mut self, muxbox_id: &str, status: PtyStatus, clear_pid: bool) -> (r: Result<(), String>)
        ensures
            r is Ok <==> old(self).processes().contains_key(muxbox_id@),
            r matches Err(e) ==> e@ == not_found_text(muxbox_id@),
            r is Ok ==> final(self).processes() == old(self).processes().insert(
                muxbox_id@,
                PtyProcess {
                    status,
                    process_id: if clear_pid { None } else { old(self).processes()[muxbox_id@].process_id },
                    ..old(self).processes()[muxbox_id@]
                },
            ),
            r is Err ==> final(self).processes() == old(self).processes(),
            final(self).failures() == old(self).failures(),
    {
        match self.active_ptys.remove(muxbox_id) {
            Some(mut p) => {
                p.status = status;
                if clear_pid {
                    p.process_id = None;
                }
                self.active_ptys.insert(muxbox_id, p);
                proof {
                    assert(self.processes() =~= old(self).processes().insert(
                        muxbox_id@,
                        PtyProcess {
                            status,
                            process_id: if clear_pid { None } else { old(self).processes()[muxbox_id@].process_id },
                            ..old(self).processes()[muxbox_id@]
                        },
                    ));
                }
                Ok(())
            },
            None => {
                assert(self.processes() =~= old(self).processes());
                Err(not_found(muxbox_id))
            },
        }
    }

    /// Marks the box's process as dead for this reason.
    pub fn mark_pty_dead(&mut self, muxbox_id: &str, reason: String) -> (r: Result<(), String>)
        ensures
            r is Ok <==> old(self).processes().contains_key(muxbox_id@),
            r matches Err(e) ==> e@ == not_found_text(muxbox_id@),
            r is Ok ==> final(self).processes() == old(self).processes().insert(
                muxbox_id@,
                PtyProcess { status: PtyStatus::Dead(reason), ..old(self).processes()[muxbox_id@] },
            ),
            r is Err ==> final(self).processes() == old(self).processes(),
            final(self).failures() == old(self).failures(),
    {
        self.set_status(muxbox_id, PtyStatus::Dead(reason), false)
    }

    /// Prepares a restart once the old process is gone: the failure history is
    /// cleared, the status becomes `Starting` and the process id is forgotten.
    pub fn restart_pty_process(&mut self, muxbox_id: &str) -> (r: Result<(), String>)
        ensures
            r is Ok <==> old(self).processes().contains_key(muxbox_id@),
            r matches Err(e) ==> e@ == not_found_text(muxbox_id@),
            r is Ok ==> final(self).processes() == old(self).processes().insert(
                muxbox_id@,
                PtyProcess { status: PtyStatus::Starting, process_id: None, ..old(self).processes()[muxbox_id@] },
            ),
            r is Err ==> final(self).processes() == old(self).processes(),
            final(self).failures() == old(self).failures().remove(muxbox_id@),
    {
        self.clear_pty_failures(muxbox_id);
        self.set_status(muxbox_id, PtyStatus::Starting, true)
    }

    /// Why input for a box cannot be written to its PTY, if it cannot: the
    /// box has no process, or its process is neither starting nor running.
    pub open spec fn input_refusal(&self, muxbox_id: Seq<char>) -> Option<Seq<char>> {
        if !self.processes().contains_key(muxbox_id) {
            Some("No PTY process found for muxbox: "@ + muxbox_id)
        } else {
            match self.processes()[muxbox_id].status {
                PtyStatus::Running => None,
                PtyStatus::Starting => None,
                PtyStatus::Finished(_) => Some("PTY process "@ + muxbox_id + " has finished and cannot accept input"@),
                PtyStatus::Error(e) => Some("PTY process "@ + muxbox_id + " is in error state: "@ + e@),
                PtyStatus::FailedFallback => Some(
                    "PTY process "@ + muxbox_id + " failed and fell back to regular execution"@,
                ),
                PtyStatus::Dead(reason) => Some("PTY process "@ + muxbox_id + " is dead: "@ + reason@),
            }
        }
    }

    /// Whether input for a box may be written to its PTY, or why not. The
    /// write itself, and what happens when the process has no PTY handle, are
    /// the caller's.
    pub fn input_check(&self, muxbox_id: &str) -> (r: Result<(), String>)
        ensures
            (match r {
                Ok(()) => None,
                Err(e) => Some(e@),
            }) == self.input_refusal(muxbox_id@),
    {
        let id = chars_of(muxbox_id);
        match self.active_ptys.get(muxbox_id) {
            Some(p) => {
                let (tail, detail): (&str, Option<&String>) = match &p.status {
                    PtyStatus::Running => {
                        return Ok(());
                    },
                    PtyStatus::Starting => {
                        return Ok(());
                    },
                    PtyStatus::Finished(_) => (" has finished and cannot accept input", None),
                    PtyStatus::Error(e) => (" is in error state: ", Some(e)),
                    PtyStatus::FailedFallback => (" failed and fell back to regular execution", None),
                    PtyStatus::Dead(reason) => (" is dead: ", Some(reason)),
                };
                let mut v = chars_of("PTY process ");
                push_chars(&mut v, &id);
                let t = chars_of(tail);
                push_chars(&mut v, &t);
                match detail {
                    Some(d) => {
                        let dc = chars_of(d.as_str());
                        push_chars(&mut v, &dc);
                    },
                    None => {},
                }
                Err(string_from_chars(&v))
            },
            None => {
                let mut v = chars_of("No PTY process found for muxbox: ");
                push_chars(&mut v, &id);
                Err(string_from_chars(&v))
            },
        }
    }

    /// The process id to kill for a box, or why there is none: the box has no
    /// process, its process has no id, or the process may not be killed.
    pub open spec fn kill_target(&self, muxbox_id: Seq<char>) -> Result<u32, Seq<char>> {
        if !self.processes().contains_key(muxbox_id) {
            Err(not_found_text(muxbox_id))
        } else {
            let p = self.processes()[muxbox_id];
            match p.process_id {
                None => Err("No process ID available for muxbox "@ + muxbox_id),
                Some(pid) => if p.can_kill {
                    Ok(pid)
                } else {
                    Err("Process "@ + decimal(pid as nat) + " for muxbox "@ + muxbox_id + " cannot be killed"@)
                },
            }
        }
    }

    /// The process id to kill for a box: refused when the box has no process,
    /// no process id, or a process that may not be killed.
    pub fn pid_to_kill(&self, muxbox_id: &str) -> (r: Result<u32, String>)
        ensures
            (match r {
                Ok(pid) => Ok(pid),
                Err(e) => Err(e@),
            }) == self.kill_target(muxbox_id@),
    {
        match self.active_ptys.get(muxbox_id) {
            Some(p) => match p.process_id {
                Some(pid) => {
                    if p.can_kill {
                        Ok(pid)
                    } else {
                        let mut v = chars_of("Process ");
                        push_decimal(&mut v, pid as u64);
                        let mid = chars_of(" for muxbox ");
                        push_chars(&mut v, &mid);
                        let id = chars_of(muxbox_id);
                        push_chars(&mut v, &id);
                        let tail = chars_of(" cannot be killed");
                        push_chars(&mut v, &tail);
                        Err(string_from_chars(&v))
                    }
                },
                None => {
                    let mut v = chars_of("No process ID available for muxbox ");
                    let id = chars_of(muxbox_id);
                    push_chars(&mut v, &id);
                    Err(string_from_chars(&v))
                },
            },
            None => Err(not_found(muxbox_id)),
        }
    }

    /// Records the outcome of killing a box's process: `Finished(-9)` when the
    /// kill succeeded, `Error(message)` with the failure's message otherwise.
    pub fn record_kill_outcome(&mut self, muxbox_id: &str, outcome: Result<(), String>) -> (r: Result<(), String>)
        ensures
            old(self).processes().contains_key(muxbox_id@) ==> final(self).processes() == old(self).processes().insert(
                muxbox_id@,
                PtyProcess {
                    status: match outcome {
                        Ok(_) => PtyStatus::Finished(-9i32),
                        Err(m) => PtyStatus::Error(m),
                    },
                    ..old(self).processes()[muxbox_id@]
                },
            ),
            old(self).processes().contains_key(muxbox_id@) ==> (match outcome {
                Ok(_) => r is Ok,
                Err(m) => r matches Err(e) && e@ == m@,
            }),
            !old(self).processes().contains_key(muxbox_id@) ==> (final(self).processes() == old(self).processes()
                && (r matches Err(e) && e@ == not_found_text(muxbox_id@))),
            final(self).failures() == old(self).failures(),
    {
        match outcome {
            Ok(()) => self.set_status(muxbox_id, PtyStatus::Finished(-9), false),
            Err(msg) => {
                let copy = msg.clone();
                match self.set_status(muxbox_id, PtyStatus::Error(msg), false) {
                    Ok(()) => Err(copy),
                    Err(e) => Err(e),
                }
            },
        }
    }

    /// The first half of killing a box's PTY from the keyboard: the process id
    /// to kill when the process may be killed and has one. A killable process
    /// without a process id is marked `Error("No process ID")`; anything else
    /// is left alone.
    pub fn kill_pty_target(&mut self, muxbox_id: &str) -> (r: Option<u32>)
        ensures
            final(self).failures() == old(self).failures(),
            !old(self).processes().contains_key(muxbox_id@) ==> r is None && final(self).processes() == old(
                self,
            ).processes(),
            old(self).processes().contains_key(muxbox_id@) ==> {
                let p = old(self).processes()[muxbox_id@];
                &&& !p.can_kill ==> r is None && final(self).processes() == old(self).processes()
                &&& (p.can_kill && p.process_id is Some) ==> r == p.process_id && final(self).processes() == old(
                    self,
                ).processes()
                &&& (p.can_kill && p.process_id is None) ==> r is None && final(self).processes() == old(
                    self,
                ).processes().insert(muxbox_id@, PtyProcess { status: final(self).processes()[muxbox_id@].status, ..p })
                    && (final(self).processes()[muxbox_id@].status matches PtyStatus::Error(m) && m@
                    == "No process ID"@)
            },
    {
        let (can_kill, pid) = match self.active_ptys.get(muxbox_id) {
            Some(p) => (p.can_kill, p.process_id),
            None => {
                return None;
            },
        };
        if !can_kill {
            return None;
        }
        match pid {
            Some(pid) => Some(pid),
            None => {
                let _ = self.set_status(muxbox_id, PtyStatus::Error(String::from_str("No process ID")), false);
                None
            },
        }
    }

    /// The second half of killing a box's PTY from the keyboard: a kill that
    /// ran leaves the process `Finished(-9)` and no longer killable; one that
    /// could not run leaves it `Error("Kill failed: <message>")`. Nothing
    /// happens to a box without a process.
    pub fn record_kill_pty_result(&mut self, muxbox_id: &str, outcome: Result<(), String>)
        ensures
            final(self).failures() == old(self).failures(),
            !old(self).processes().contains_key(muxbox_id@) ==> final(self).processes() == old(self).processes(),
            old(self).processes().contains_key(muxbox_id@) ==> {
                let p = old(self).processes()[muxbox_id@];
                let q = final(self).processes()[muxbox_id@];
                &&& final(self).processes() == old(self).processes().insert(muxbox_id@, q)
                &&& q.muxbox_id == p.muxbox_id && q.process_id == p.process_id && q.stream_id == p.stream_id
                    && q.buffer_lines == p.buffer_lines
                &&& outcome is Ok ==> q.status == PtyStatus::Finished(-9i32) && !q.can_kill
                &&& (outcome matches Err(e) ==> q.can_kill == p.can_kill && (q.status matches PtyStatus::Error(m)
                    && m@ == "Kill failed: "@ + e@))
            },
    {
        let mut p = match self.active_ptys.remove(muxbox_id) {
            Some(p) => p,
            None => {
                assert(self.processes() =~= old(self).processes());
                return;
            },
        };
        match outcome {
            Ok(()) => {
                p.status = PtyStatus::Finished(-9);
                p.can_kill = false;
            },
            Err(e) => {
                let mut text = chars_of("Kill failed: ");
                let tail = chars_of(e.as_str());
                push_chars(&mut text, &tail);
                p.status = PtyStatus::Error(string_from_chars(&text));
            },
        }
        self.active_ptys.insert(muxbox_id, p);
        assert(self.processes() =~= old(self).processes().insert(muxbox_id@, self.processes()[muxbox_id@]));
    }

    /// Records that the box's process exited with this code (as the status
    /// `Finished`, the code read as a signed number); nothing happens to a box
    /// without a process.
    pub fn record_exit(&mut self, muxbox_id: &str, exit_code: u32)
        ensures
            final(self).failures() == old(self).failures(),
            final(self).processes() == (if old(self).processes().contains_key(muxbox_id@) {
                old(self).processes().insert(
                    muxbox_id@,
                    PtyProcess { status: PtyStatus::Finished(exit_code as i32), ..old(self).processes()[muxbox_id@] },
                )
            } else {
                old(self).processes()
            }),
    {
        let _ = self.set_status(muxbox_id, PtyStatus::Finished(exit_code as i32), false);
    }

    /// Records that reading the box's PTY failed with this message (as the
    /// status `Error`); nothing happens to a box without a process.
    pub fn record_read_error(&mut self, muxbox_id: &str, message: String)
        ensures
            final(self).failures() == old(self).failures(),
            final(self).processes() == (if old(self).processes().contains_key(muxbox_id@) {
                old(self).processes().insert(
                    muxbox_id@,
                    PtyProcess { status: PtyStatus::Error(message), ..old(self).processes()[muxbox_id@] },
                )
            } else {
                old(self).processes()
            }),
    {
        let _ = self.set_status(muxbox_id, PtyStatus::Error(message), false);
    }
}

/// `source <lib>` lines, one per library, in order.
pub open spec fn source_lines(libs: Seq<Seq<char>>) -> Seq<char>
    decreases libs.len(),
{
    if libs.len() == 0 {
        Seq::empty()
    } else {
        source_lines(libs.drop_last()) + "source "@ + libs.last() + seq!['\n']
    }
}

/// The commands, one per line, in order.
pub open spec fn command_lines(commands: Seq<Seq<char>>) -> Seq<char>
    decreases commands.len(),
{
    if commands.len() == 0 {
        Seq::empty()
    } else {
        command_lines(commands.drop_last()) + commands.last() + seq!['\n']
    }
}

/// The shell script that a PTY runs: the libraries sourced, then the commands.
pub open spec fn spec_script_content(libs: Option<Seq<Seq<char>>>, commands: Seq<Seq<char>>) -> Seq<char> {
    match libs {
        Some(l) => source_lines(l) + command_lines(commands),
        None => command_lines(commands),
    }
}

fn push_lines(out: &mut Vec<char>, items: &Vec<String>, prefix: &Vec<char>)
    ensures
        final(out)@ == old(out)@ + prefixed_lines(prefix@, texts(items@)),
{
    let mut i: usize = 0;
    while i < items.len()
        invariant
            i <= items@.len(),
            out@ == old(out)@ + prefixed_lines(prefix@, texts(items@).take(i as int)),
        decreases items@.len() - i,
    {
        push_chars(out, prefix);
        let item = chars_of(items[i].as_str());
        push_chars(out, &item);
        out.push('\n');
        proof {
            let t = texts(items@);
            assert(t.take(i + 1).drop_last() =~= t.take(i as int));
            assert(t.take(i + 1).last() == items@[i as int]@);
            assert(out@ =~= old(out)@ + prefixed_lines(prefix@, t.take(i + 1)));
        }
        i = i + 1;
    }
    assert(texts(items@).take(items@.len() as int) =~= texts(items@));
}

/// Lines made of `prefix` and an item each.
pub open spec fn prefixed_lines(prefix: Seq<char>, items: Seq<Seq<char>>) -> Seq<char>
    decreases items.len(),
{
    if items.len() == 0 {
        Seq::empty()
    } else {
        prefixed_lines(prefix, items.drop_last()) + prefix + items.last() + seq!['\n']
    }
}

proof fn lemma_prefixed_lines(items: Seq<Seq<char>>)
    ensures
        prefixed_lines("source "@, items) == source_lines(items),
        prefixed_lines(Seq::empty(), items) == command_lines(items),
    decreases items.len(),
{
    if items.len() > 0 {
        lemma_prefixed_lines(items.drop_last());
        assert(prefixed_lines(Seq::empty(), items) =~= command_lines(items));
    }
}

/// The shell script that a PTY runs for these libraries and commands.
pub fn pty_script_content(libs: &Option<Vec<String>>, commands: &Vec<String>) -> (r: String)
    ensures
        r@ == spec_script_content(
            match libs {
                Some(l) => Some(texts(l@)),
                None => None,
            },
            texts(commands@),
        ),
{
    let mut out: Vec<char> = Vec::new();
    match libs {
        Some(l) => {
            let prefix = chars_of("source ");
            push_lines(&mut out, l, &prefix);
            proof {
                lemma_prefixed_lines(texts(l@));
            }
        },
        None => {},
    }
    let ghost mid = out@;
    let none: Vec<char> = Vec::new();
    push_lines(&mut out, commands, &none);
    proof {
        lemma_prefixed_lines(texts(commands@));
        assert(none@ =~= Seq::<char>::empty());
        assert(out@ =~= mid + command_lines(texts(commands@)));
    }
    string_from_chars(&out)
}

/// What a box receives from a read of its PTY's screen: nothing when the
/// content is blank; the content marked `REPLACE:` when a full-screen program
/// redraws it; the content itself otherwise.
pub open spec fn spec_output_update(content: Seq<char>, should_replace: bool) -> Option<Seq<char>> {
    if trimmed(content).len() == 0 {
        None
    } else if should_replace {
        Some("REPLACE:"@ + content)
    } else {
        Some(content)
    }
}

/// The update a box receives from a read of its PTY's screen, if any.
pub fn pty_output_update(content: &str, should_replace: bool) -> (r: Option<String>)
    ensures
        (match r {
            Some(s) => Some(s@),
            None => None,
        }) == spec_output_update(content@, should_replace),
{
    let cs = chars_of(content);
    let t = trim_chars(&cs);
    if t.len() == 0 {
        None
    } else if should_replace {
        let mut out = chars_of("REPLACE:");
        push_chars(&mut out, &cs);
        Some(string_from_chars(&out))
    } else {
        Some(string_from_chars(&cs))
    }
}

/// The notice a box receives when its PTY process exits.
pub fn exit_notice(exit_code: u32) -> (r: String)
    ensures
        r@ == "\n[Process exited with code "@ + decimal(exit_code as nat) + "]\n"@,
{
    let mut out = chars_of("\n[Process exited with code ");
    push_decimal(&mut out, exit_code as u64);
    let tail = chars_of("]\n");
    push_chars(&mut out, &tail);
    string_from_chars(&out)
}

/// The notice a box receives when reading its PTY fails.
pub fn pty_error_notice(message: &str) -> (r: String)
    ensures
        r@ == "[PTY Error: "@ + message@ + "]"@,
{
    let mut out = chars_of("[PTY Error: ");
    let m = chars_of(message);
    push_chars(&mut out, &m);
    out.push(']');
    proof {
        reveal_strlit("]");
    }
    assert(out@ =~= "[PTY Error: "@ + message@ + "]"@);
    string_from_chars(&out)
}

} // verus!
