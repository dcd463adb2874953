use vstd::prelude::*;
use std::sync::mpsc::Sender;
use std::time::{Duration, Instant};
use crate::clock::{duration_from_millis, elapsed_at_least, millis_duration, now};
use crate::messages::{new_task_id, send_message, Message, StreamingComplete, StreamingOutput};
use crate::text::{chars_of, push_chars};

verus! {

/// Output waiting to be rendered in one panel.
#[derive(Debug, Clone)]
pub struct PanelUpdate {
    pub panel_id: String,
    pub content_changes: Vec<String>,
    pub last_update: Instant,
    pub sequence_number: u64,
    pub force_render: bool,
}

/// What is known of a panel's pending output.
pub struct PendingView {
    pub changes: Seq<Seq<char>>,
    pub sequence_number: u64,
    pub force_render: bool,
}

pub open spec fn pending_view(u: PanelUpdate) -> PendingView {
    PendingView {
        changes: u.content_changes@.map_values(|s: String| s@),
        sequence_number: u.sequence_number,
        force_render: u.force_render,
    }
}

pub open spec fn unique_updates(v: Seq<PanelUpdate>) -> bool {
    forall|i: int, j: int|
        0 <= i < v.len() && 0 <= j < v.len() && i != j ==> v[i].panel_id@ != v[j].panel_id@
}

pub open spec fn has_update(v: Seq<PanelUpdate>, k: Seq<char>) -> bool {
    exists|i: int| 0 <= i < v.len() && v[i].panel_id@ == k
}

/// The pending output, by panel id.
pub open spec fn updates_map(v: Seq<PanelUpdate>) -> Map<Seq<char>, PendingView> {
    Map::new(
        |k: Seq<char>| has_update(v, k),
        |k: Seq<char>| pending_view(v[choose|i: int| 0 <= i < v.len() && v[i].panel_id@ == k]),
    )
}

pub open spec fn unique_times(v: Seq<(String, Instant)>) -> bool {
    forall|i: int, j: int| 0 <= i < v.len() && 0 <= j < v.len() && i != j ==> v[i].0@ != v[j].0@
}

/// The ids of some panels, as a set.
pub open spec fn id_set(v: Seq<String>) -> Set<Seq<char>> {
    Set::new(|k: Seq<char>| exists|i: int| 0 <= i < v.len() && v[i]@ == k)
}

/// Panels that have been rendered at least once since the last clearing.
pub open spec fn times_set(v: Seq<(String, Instant)>) -> Set<Seq<char>> {
    Set::new(|k: Seq<char>| exists|i: int| 0 <= i < v.len() && v[i].0@ == k)
}

proof fn lemma_updates_lookup(v: Seq<PanelUpdate>, i: int)
    requires
        unique_updates(v),
        0 <= i < v.len(),
    ensures
        updates_map(v).contains_key(v[i].panel_id@),
        updates_map(v)[v[i].panel_id@] == pending_view(v[i]),
{
    let k = v[i].panel_id@;
    assert(has_update(v, k));
    let c = choose|c: int| 0 <= c < v.len() && v[c].panel_id@ == k;
    assert(0 <= c < v.len() && v[c].panel_id@ == k);
    assert(c == i);
}

/// Number of lines of a text as `str::lines` counts them: one per newline,
/// plus one for a last line without a newline.
pub open spec fn line_count(s: Seq<char>) -> nat {
    newline_count(s) + if s.len() > 0 && s.last() != '\n' { 1nat } else { 0nat }
}

pub open spec fn newline_count(s: Seq<char>) -> nat
    decreases s.len(),
{
    if s.len() == 0 {
        0
    } else {
        newline_count(s.drop_last()) + if s.last() == '\n' { 1nat } else { 0nat }
    }
}

proof fn lemma_newline_count_bound(s: Seq<char>)
    ensures
        newline_count(s) <= s.len(),
    decreases s.len(),
{
    if s.len() > 0 {
        lemma_newline_count_bound(s.drop_last());
    }
}

/// The lines joined with newlines.
pub open spec fn join_lines(parts: Seq<Seq<char>>) -> Seq<char>
    decreases parts.len(),
{
    if parts.len() == 0 {
        Seq::empty()
    } else if parts.len() == 1 {
        parts[0]
    } else {
        join_lines(parts.drop_last()) + seq!['\n'] + parts.last()
    }
}

fn count_lines(v: &Vec<char>) -> (n: u64)
    ensures
        n == line_count(v@),
{
    let mut count: u64 = 0;
    let mut i: usize = 0;
    while i < v.len()
        invariant
            i <= v@.len(),
            count == newline_count(v@.take(i as int)),
            count <= i,
        decreases v@.len() - i,
    {
        assert(v@.take(i + 1).drop_last() =~= v@.take(i as int));
        if v[i] == '\n' {
            count = count + 1;
        }
        i = i + 1;
    }
    assert(v@.take(v@.len() as int) =~= v@);
    if v.len() > 0 && v[v.len() - 1] != '\n' {
        proof {
            lemma_newline_count_bound(v@.drop_last());
            assert(count == newline_count(v@.drop_last()));
        }
        count + 1
    } else {
        count
    }
}

fn join_changes(changes: &Vec<String>) -> (out: Vec<char>)
    ensures
        out@ == join_lines(changes@.map_values(|s: String| s@)),
{
    let ghost parts = changes@.map_values(|s: String| s@);
    let mut out: Vec<char> = Vec::new();
    let mut i: usize = 0;
    while i < changes.len()
        invariant
            i <= changes@.len(),
            parts == changes@.map_values(|s: String| s@),
            out@ == join_lines(parts.take(i as int)),
        decreases changes@.len() - i,
    {
        let piece = chars_of(changes[i].as_str());
        if i > 0 {
            out.push('\n');
        }
        push_chars(&mut out, &piece);
        proof {
            let t = parts.take(i + 1);
            assert(t.drop_last() =~= parts.take(i as int));
            assert(t.last() == piece@);
            if i == 0 {
                assert(out@ =~= join_lines(t));
            } else {
                assert(out@ =~= join_lines(t));
            }
        }
        i = i + 1;
    }
    assert(parts.take(changes@.len() as int) =~= parts);
    out
}

/// Pending output after one more line for `id`: the line is appended and the
/// sequence number becomes `seq` (or the larger of `seq` and the old one when
/// `keep_max` is set).
pub open spec fn with_line(
    m: Map<Seq<char>, PendingView>,
    id: Seq<char>,
    line: Seq<char>,
    seq: u64,
    keep_max: bool,
) -> Map<Seq<char>, PendingView> {
    if m.contains_key(id) {
        m.insert(
            id,
            PendingView {
                changes: m[id].changes.push(line),
                sequence_number: if keep_max && m[id].sequence_number > seq {
                    m[id].sequence_number
                } else {
                    seq
                },
                force_render: m[id].force_render,
            },
        )
    } else {
        m.insert(id, PendingView { changes: seq![line], sequence_number: seq, force_render: false })
    }
}

/// Pending output after all the given lines, in order.
pub open spec fn with_lines(m: Map<Seq<char>, PendingView>, outs: Seq<StreamingOutput>) -> Map<
    Seq<char>,
    PendingView,
>
    decreases outs.len(),
{
    if outs.len() == 0 {
        m
    } else {
        let prev = with_lines(m, outs.drop_last());
        with_line(prev, outs.last().panel_id@, outs.last().line_content@, outs.last().sequence, true)
    }
}

pub open spec fn mentions(outs: Seq<StreamingOutput>, id: Seq<char>) -> bool {
    exists|i: int| 0 <= i < outs.len() && outs[i].panel_id@ == id
}

proof fn lemma_with_lines_untouched(m: Map<Seq<char>, PendingView>, outs: Seq<StreamingOutput>, id: Seq<char>)
    requires
        !mentions(outs, id),
    ensures
        with_lines(m, outs).contains_key(id) == m.contains_key(id),
        m.contains_key(id) ==> with_lines(m, outs)[id] == m[id],
    decreases outs.len(),
{
    if outs.len() > 0 {
        assert(!mentions(outs.drop_last(), id)) by {
            if mentions(outs.drop_last(), id) {
                let i = choose|i: int| 0 <= i < outs.drop_last().len() && outs.drop_last()[i].panel_id@ == id;
                assert(outs[i].panel_id@ == id);
            }
        }
        lemma_with_lines_untouched(m, outs.drop_last(), id);
        assert(outs.last().panel_id@ != id) by {
            assert(outs[outs.len() - 1].panel_id@ == outs.last().panel_id@);
        }
    }
}

proof fn lemma_with_lines_touched(m: Map<Seq<char>, PendingView>, outs: Seq<StreamingOutput>, id: Seq<char>)
    requires
        mentions(outs, id),
    ensures
        with_lines(m, outs).contains_key(id),
        with_lines(m, outs)[id].changes.len() > 0,
    decreases outs.len(),
{
    if outs.last().panel_id@ != id {
        assert(mentions(outs.drop_last(), id)) by {
            let i = choose|i: int| 0 <= i < outs.len() && outs[i].panel_id@ == id;
            assert(i != outs.len() - 1);
            assert(outs.drop_last()[i].panel_id@ == id);
        }
        lemma_with_lines_touched(m, outs.drop_last(), id);
    }
}

/// What the manager has handed to its channel, one entry per message: a
/// completion notice (the task id, drawn at random, is left out) or a redraw.
pub enum SentMessage {
    Complete { panel_id: Seq<char>, exit_code: Option<i32>, success: bool, total_lines: nat },
    Redraw(Seq<char>),
}

pub open spec fn sent_view(m: Message) -> SentMessage {
    match m {
        Message::StreamingComplete(c) => SentMessage::Complete {
            panel_id: c.panel_id@,
            exit_code: c.exit_code,
            success: c.success,
            total_lines: c.total_lines as nat,
        },
        Message::RedrawPanel(id) => SentMessage::Redraw(id@),
    }
}

/// The notice that a panel's output was delivered: exit code 0, success, and
/// the number of lines of its pending lines joined with newlines.
pub open spec fn delivered_notice(id: Seq<char>, changes: Seq<Seq<char>>) -> SentMessage {
    SentMessage::Complete {
        panel_id: id,
        exit_code: Some(0i32),
        success: true,
        total_lines: line_count(join_lines(changes)),
    }
}

/// What rendering a panel sends: the delivery notice, then a redraw.
pub open spec fn render_messages(id: Seq<char>, changes: Seq<Seq<char>>) -> Seq<SentMessage> {
    seq![delivered_notice(id, changes), SentMessage::Redraw(id)]
}

/// What the background pass sends for a due panel: the delivery notice when
/// it has lines, nothing otherwise.
pub open spec fn background_messages(id: Seq<char>, changes: Seq<Seq<char>>) -> Seq<SentMessage> {
    if changes.len() > 0 {
        seq![delivered_notice(id, changes)]
    } else {
        Seq::empty()
    }
}

/// What the background pass sends for the handled panels, in order.
pub open spec fn background_batch(ids: Seq<Seq<char>>, p: Map<Seq<char>, PendingView>) -> Seq<SentMessage>
    decreases ids.len(),
{
    if ids.len() == 0 {
        Seq::empty()
    } else {
        background_batch(ids.drop_last(), p) + background_messages(ids.last(), p[ids.last()].changes)
    }
}

/// What a batch sends: for each panel, at its first mention and when it was
/// rendered (it has no pending output left), its render messages.
pub open spec fn batch_messages(
    outs: Seq<StreamingOutput>,
    queued: Map<Seq<char>, PendingView>,
    left: Map<Seq<char>, PendingView>,
) -> Seq<SentMessage>
    decreases outs.len(),
{
    if outs.len() == 0 {
        Seq::empty()
    } else {
        let id = outs.last().panel_id@;
        batch_messages(outs.drop_last(), queued, left) + if !mentions(outs.drop_last(), id)
            && !left.contains_key(id) {
            render_messages(id, queued[id].changes)
        } else {
            Seq::empty()
        }
    }
}

proof fn lemma_batch_frame(
    outs: Seq<StreamingOutput>,
    queued: Map<Seq<char>, PendingView>,
    l1: Map<Seq<char>, PendingView>,
    l2: Map<Seq<char>, PendingView>,
)
    requires
        forall|id: Seq<char>| mentions(outs, id) ==> l1.contains_key(id) == l2.contains_key(id),
    ensures
        batch_messages(outs, queued, l1) == batch_messages(outs, queued, l2),
    decreases outs.len(),
{
    if outs.len() > 0 {
        assert forall|id: Seq<char>| mentions(outs.drop_last(), id) implies l1.contains_key(id) == l2.contains_key(id) by {
            let i = choose|i: int| 0 <= i < outs.drop_last().len() && outs.drop_last()[i].panel_id@ == id;
            assert(outs[i].panel_id@ == id);
            assert(mentions(outs, id));
        }
        lemma_batch_frame(outs.drop_last(), queued, l1, l2);
        assert(mentions(outs, outs.last().panel_id@)) by {
            assert(outs[outs.len() - 1].panel_id@ == outs.last().panel_id@);
        }
    }
}

/// Manages real-time panel updates with debouncing: lines wait per panel until
/// the panel may be rendered again, then they are delivered in one message.
pub struct RealTimeUpdateManager {
    pending_updates: Vec<PanelUpdate>,
    last_render_times: Vec<(String, Instant)>,
    message_sender: Sender<Message>,
    render_debounce: Duration,
    max_update_frequency: Duration,
    sent: Ghost<Seq<SentMessage>>,
}

impl RealTimeUpdateManager {
    #[verifier::type_invariant]
    spec fn inv(&self) -> bool {
        unique_updates(self.pending_updates@) && unique_times(self.last_render_times@)
    }

    /// Pending output, by panel id.
    pub closed spec fn pending(&self) -> Map<Seq<char>, PendingView> {
        updates_map(self.pending_updates@)
    }

    /// Panels rendered since the last `clear_all_pending`.
    pub closed spec fn rendered_panels(&self) -> Set<Seq<char>> {
        times_set(self.last_render_times@)
    }

    /// Pending lines over all panels.
    pub closed spec fn total_pending(&self) -> nat {
        Self::total_of(self.pending_updates@)
    }

    pub closed spec fn total_of(v: Seq<PanelUpdate>) -> nat
        decreases v.len(),
    {
        if v.len() == 0 {
            0
        } else {
            Self::total_of(v.drop_last()) + v.last().content_changes@.len()
        }
    }

    /// The messages handed to the channel so far, in order.
    pub closed spec fn sent(&self) -> Seq<SentMessage> {
        self.sent@
    }

    /// Where the manager sends its messages.
    pub closed spec fn spec_message_sender(&self) -> Sender<Message> {
        self.message_sender
    }

    pub closed spec fn spec_render_debounce(&self) -> Duration {
        self.render_debounce
    }

    pub closed spec fn spec_max_update_frequency(&self) -> Duration {
        self.max_update_frequency
    }

    /// Nothing pending, nothing rendered, nothing sent yet, messages sent to
    /// `message_sender`; a debounce of 16 ms and an update period of 100 ms.
    pub fn new(message_sender: Sender<Message>) -> (m: Self)
        ensures
            m.spec_message_sender() == message_sender,
            m.sent() == Seq::<SentMessage>::empty(),
            m.spec_render_debounce() == millis_duration(16),
            m.spec_max_update_frequency() == millis_duration(100),
            m.pending() == Map::<Seq<char>, PendingView>::empty(),
            m.rendered_panels() == Set::<Seq<char>>::empty(),
            m.total_pending() == 0,
    {
        let m = RealTimeUpdateManager {
            pending_updates: Vec::new(),
            last_render_times: Vec::new(),
            message_sender,
            render_debounce: duration_from_millis(16),
            max_update_frequency: duration_from_millis(100),
            sent: Ghost(Seq::empty()),
        };
        assert(m.pending() =~= Map::<Seq<char>, PendingView>::empty());
        assert(m.rendered_panels() =~= Set::<Seq<char>>::empty());
        m
    }

    fn find_update(&self, panel_id: &str) -> (r: Option<usize>)
        ensures
            r matches Some(i) ==> i < self.pending_updates@.len()
                && self.pending_updates@[i as int].panel_id@ == panel_id@,
            r is None ==> !has_update(self.pending_updates@, panel_id@),
    {
        let id = chars_of(panel_id);
        let mut i: usize = 0;
        while i < self.pending_updates.len()
            invariant
                i <= self.pending_updates@.len(),
                id@ == panel_id@,
                forall|j: int| 0 <= j < i ==> self.pending_updates@[j].panel_id@ != panel_id@,
            decreases self.pending_updates@.len() - i,
        {
            let other = chars_of(self.pending_updates[i].panel_id.as_str());
            if crate::text::chars_eq(&other, &id) {
                return Some(i);
            }
            i = i + 1;
        }
        None
    }

    fn find_time(&self, panel_id: &str) -> (r: Option<usize>)
        ensures
            r matches Some(i) ==> i < self.last_render_times@.len()
                && self.last_render_times@[i as int].0@ == panel_id@,
            r is None ==> !times_set(self.last_render_times@).contains(panel_id@),
    {
        let id = chars_of(panel_id);
        let mut i: usize = 0;
        while i < self.last_render_times.len()
            invariant
                i <= self.last_render_times@.len(),
                id@ == panel_id@,
                forall|j: int| 0 <= j < i ==> self.last_render_times@[j].0@ != panel_id@,
            decreases self.last_render_times@.len() - i,
        {
            let other = chars_of(self.last_render_times[i].0.as_str());
            if crate::text::chars_eq(&other, &id) {
                return Some(i);
            }
            i = i + 1;
        }
        None
    }

    /// Appends a line to the pending output of a panel.
    fn add_line(&mut self, panel_id: &str, line: String, seq: u64, keep_max: bool, now: Instant)
        ensures
            final(self).pending() == with_line(old(self).pending(), panel_id@, line@, seq, keep_max),
            final(self).rendered_panels() == old(self).rendered_panels(),
            final(self).spec_render_debounce() == old(self).spec_render_debounce(),
            final(self).spec_max_update_frequency() == old(self).spec_max_update_frequency(),
            final(self).sent() == old(self).sent(),
    {
        proof {
            use_type_invariant(&*self);
        }
        let ghost before = self.pending_updates@;
        match self.find_update(panel_id) {
            Some(i) => {
                let mut v: Vec<PanelUpdate> = Vec::new();
                std::mem::swap(&mut v, &mut self.pending_updates);
                let mut u = v.remove(i);
                u.content_changes.push(line);
                if !(keep_max && u.sequence_number > seq) {
                    u.sequence_number = seq;
                }
                u.last_update = now;
                v.insert(i, u);
                proof {
                    let after = v@;
                    assert(after =~= before.update(i as int, u));
                    let want = with_line(updates_map(before), panel_id@, line@, seq, keep_max);
                    lemma_updates_lookup(before, i as int);
                    assert(unique_updates(after)) by {
                        assert forall|a: int, b: int|
                            0 <= a < after.len() && 0 <= b < after.len() && a != b implies after[a].panel_id@
                            != after[b].panel_id@ by {
                            if a != i && b != i {
                                assert(after[a] == before[a] && after[b] == before[b]);
                            } else if a == i {
                                assert(after[b] == before[b]);
                            } else {
                                assert(after[a] == before[a]);
                            }
                        }
                    }
                    assert(pending_view(u).changes =~= want[panel_id@].changes);
                    assert forall|k: Seq<char>| #[trigger] updates_map(after).contains_key(k) == want.contains_key(k) by {
                        if has_update(after, k) {
                            let c = choose|c: int| 0 <= c < after.len() && after[c].panel_id@ == k;
                            if c != i {
                                assert(before[c].panel_id@ == k);
                            }
                        }
                        if has_update(before, k) {
                            let c = choose|c: int| 0 <= c < before.len() && before[c].panel_id@ == k;
                            assert(after[c].panel_id@ == k);
                        }
                    }
                    assert forall|k: Seq<char>| updates_map(after).contains_key(k) implies #[trigger] updates_map(after)[k] == want[k] by {
                        let c = choose|c: int| 0 <= c < after.len() && after[c].panel_id@ == k;
                        lemma_updates_lookup(after, c);
                        if c != i {
                            lemma_updates_lookup(before, c);
                        }
                    }
                    assert(updates_map(after) =~= want);
                }
                self.pending_updates = v;
            },
            None => {
                let mut changes: Vec<String> = Vec::new();
                changes.push(line);
                let id = String::from_str(panel_id);
                let u = PanelUpdate {
                    panel_id: id,
                    content_changes: changes,
                    last_update: now,
                    sequence_number: seq,
                    force_render: false,
                };
                let mut v: Vec<PanelUpdate> = Vec::new();
                std::mem::swap(&mut v, &mut self.pending_updates);
                v.push(u);
                proof {
                    let after = v@;
                    assert(after =~= before.push(u));
                    let want = with_line(updates_map(before), panel_id@, line@, seq, keep_max);
                    assert(unique_updates(after)) by {
                        assert forall|a: int, b: int|
                            0 <= a < after.len() && 0 <= b < after.len() && a != b implies after[a].panel_id@
                            != after[b].panel_id@ by {
                            if a < before.len() && b < before.len() {
                                assert(after[a] == before[a] && after[b] == before[b]);
                            } else if a < before.len() {
                                assert(after[a] == before[a]);
                            } else {
                                assert(after[b] == before[b]);
                            }
                        }
                    }
                    assert(pending_view(u).changes =~= seq![line@]);
                    assert forall|k: Seq<char>| #[trigger] updates_map(after).contains_key(k) == want.contains_key(k) by {
                        if has_update(after, k) {
                            let c = choose|c: int| 0 <= c < after.len() && after[c].panel_id@ == k;
                            if c < before.len() {
                                assert(before[c].panel_id@ == k);
                            }
                        }
                        if has_update(before, k) {
                            let c = choose|c: int| 0 <= c < before.len() && before[c].panel_id@ == k;
                            assert(after[c].panel_id@ == k);
                        }
                        if k == panel_id@ {
                            assert(after[before.len() as int].panel_id@ == k);
                        }
                    }
                    assert forall|k: Seq<char>| updates_map(after).contains_key(k) implies #[trigger] updates_map(after)[k] == want[k] by {
                        let c = choose|c: int| 0 <= c < after.len() && after[c].panel_id@ == k;
                        lemma_updates_lookup(after, c);
                        if c < before.len() {
                            lemma_updates_lookup(before, c);
                            assert(after[c] == before[c]);
                        }
                    }
                    assert(updates_map(after) =~= want);
                }
                self.pending_updates = v;
            },
        }
    }

    /// Records that a panel was rendered at `now`.
    fn mark_rendered(&mut self, panel_id: &str, now: Instant)
        ensures
            final(self).pending() == old(self).pending(),
            final(self).rendered_panels() == old(self).rendered_panels().insert(panel_id@),
            final(self).spec_render_debounce() == old(self).spec_render_debounce(),
            final(self).spec_max_update_frequency() == old(self).spec_max_update_frequency(),
            final(self).sent() == old(self).sent(),
    {
        proof {
            use_type_invariant(&*self);
        }
        let ghost before = self.last_render_times@;
        match self.find_time(panel_id) {
            Some(i) => {
                let mut v: Vec<(String, Instant)> = Vec::new();
                std::mem::swap(&mut v, &mut self.last_render_times);
                let (id, _) = v.remove(i);
                v.insert(i, (id, now));
                proof {
                    let after = v@;
                    assert(after =~= before.update(i as int, (id, now)));
                    assert(unique_times(after)) by {
                        assert forall|a: int, b: int|
                            0 <= a < after.len() && 0 <= b < after.len() && a != b implies after[a].0@
                            != after[b].0@ by {
                            if a != i {
                                assert(after[a] == before[a]);
                            }
                            if b != i {
                                assert(after[b] == before[b]);
                            }
                        }
                    }
                    assert forall|k: Seq<char>| #[trigger] times_set(after).contains(k) == times_set(before).insert(panel_id@).contains(k) by {
                        if times_set(before).contains(k) {
                            let c = choose|c: int| 0 <= c < before.len() && before[c].0@ == k;
                            assert(after[c].0@ == k);
                        }
                        if times_set(after).contains(k) {
                            let c = choose|c: int| 0 <= c < after.len() && after[c].0@ == k;
                            assert(before[c].0@ == k);
                        }
                        if k == panel_id@ {
                            assert(after[i as int].0@ == k);
                        }
                    }
                    assert(times_set(after) =~= times_set(before).insert(panel_id@));
                }
                self.last_render_times = v;
            },
            None => {
                let id = String::from_str(panel_id);
                let mut v: Vec<(String, Instant)> = Vec::new();
                std::mem::swap(&mut v, &mut self.last_render_times);
                v.push((id, now));
                proof {
                    let after = v@;
                    assert(after =~= before.push((id, now)));
                    assert(unique_times(after)) by {
                        assert forall|a: int, b: int|
                            0 <= a < after.len() && 0 <= b < after.len() && a != b implies after[a].0@
                            != after[b].0@ by {
                            if a < before.len() {
                                assert(after[a] == before[a]);
                            }
                            if b < before.len() {
                                assert(after[b] == before[b]);
                            }
                        }
                    }
                    assert forall|k: Seq<char>| #[trigger] times_set(after).contains(k) == times_set(before).insert(panel_id@).contains(k) by {
                        if times_set(before).contains(k) {
                            let c = choose|c: int| 0 <= c < before.len() && before[c].0@ == k;
                            assert(after[c].0@ == k);
                        }
                        if times_set(after).contains(k) {
                            let c = choose|c: int| 0 <= c < after.len() && after[c].0@ == k;
                            if c < before.len() {
                                assert(before[c].0@ == k);
                            }
                        }
                        if k == panel_id@ {
                            assert(after[before.len() as int].0@ == k);
                        }
                    }
                    assert(times_set(after) =~= times_set(before).insert(panel_id@));
                }
                self.last_render_times = v;
            },
        }
    }

    /// Removes the pending output of a panel and answers it, if there was any.
    fn take_update(&mut self, panel_id: &str) -> (r: Option<PanelUpdate>)
        ensures
            final(self).pending() == old(self).pending().remove(panel_id@),
            r is Some <==> old(self).pending().contains_key(panel_id@),
            r matches Some(u) ==> pending_view(u) == old(self).pending()[panel_id@],
            final(self).rendered_panels() == old(self).rendered_panels(),
            final(self).spec_render_debounce() == old(self).spec_render_debounce(),
            final(self).spec_max_update_frequency() == old(self).spec_max_update_frequency(),
            final(self).sent() == old(self).sent(),
    {
        proof {
            use_type_invariant(&*self);
        }
        let ghost before = self.pending_updates@;
        match self.find_update(panel_id) {
            Some(i) => {
                let mut v: Vec<PanelUpdate> = Vec::new();
                std::mem::swap(&mut v, &mut self.pending_updates);
                let u = v.remove(i);
                proof {
                    lemma_updates_lookup(before, i as int);
                    let after = v@;
                    assert(after =~= before.remove(i as int));
                    assert(unique_updates(after)) by {
                        assert forall|a: int, b: int|
                            0 <= a < after.len() && 0 <= b < after.len() && a != b implies after[a].panel_id@
                            != after[b].panel_id@ by {
                            let a2 = if a < i { a } else { a + 1 };
                            let b2 = if b < i { b } else { b + 1 };
                            assert(after[a] == before[a2]);
                            assert(after[b] == before[b2]);
                        }
                    }
                    let want = updates_map(before).remove(panel_id@);
                    assert forall|k: Seq<char>| #[trigger] updates_map(after).contains_key(k) == want.contains_key(k) by {
                        if has_update(after, k) {
                            let c = choose|c: int| 0 <= c < after.len() && after[c].panel_id@ == k;
                            let c2 = if c < i { c } else { c + 1 };
                            assert(before[c2].panel_id@ == k);
                            assert(c2 != i);
                        }
                        if has_update(before, k) && k != panel_id@ {
                            let c = choose|c: int| 0 <= c < before.len() && before[c].panel_id@ == k;
                            assert(c != i);
                            let c2 = if c < i { c } else { c - 1 };
                            assert(after[c2].panel_id@ == k);
                        }
                    }
                    assert forall|k: Seq<char>| updates_map(after).contains_key(k) implies #[trigger] updates_map(after)[k] == want[k] by {
                        let c = choose|c: int| 0 <= c < after.len() && after[c].panel_id@ == k;
                        lemma_updates_lookup(after, c);
                        let c2 = if c < i { c } else { c + 1 };
                        lemma_updates_lookup(before, c2);
                    }
                    assert(updates_map(after) =~= want);
                }
                self.pending_updates = v;
                Some(u)
            },
            None => {
                proof {
                    assert(updates_map(before).remove(panel_id@) =~= updates_map(before));
                }
                None
            },
        }
    }

    /// Hands a message to the channel and records it as sent.
    fn send(&mut self, msg: Message)
        ensures
            final(self).sent() == old(self).sent().push(sent_view(msg)),
            final(self).pending() == old(self).pending(),
            final(self).rendered_panels() == old(self).rendered_panels(),
            final(self).spec_render_debounce() == old(self).spec_render_debounce(),
            final(self).spec_max_update_frequency() == old(self).spec_max_update_frequency(),
    {
        proof {
            use_type_invariant(&*self);
        }
        let ghost v = sent_view(msg);
        let _ = send_message(&self.message_sender, msg);
        self.sent = Ghost(self.sent@.push(v));
    }

    /// Sends the delivery notice for a panel's lines (and, when `redraw` is
    /// set, a redraw request after it).
    fn send_delivery(&mut self, panel_id: &str, changes: &Vec<String>, redraw: bool)
        ensures
            final(self).sent() == old(self).sent() + if redraw {
                render_messages(panel_id@, changes@.map_values(|s: String| s@))
            } else {
                seq![delivered_notice(panel_id@, changes@.map_values(|s: String| s@))]
            },
            final(self).pending() == old(self).pending(),
            final(self).rendered_panels() == old(self).rendered_panels(),
            final(self).spec_render_debounce() == old(self).spec_render_debounce(),
            final(self).spec_max_update_frequency() == old(self).spec_max_update_frequency(),
    {
        let content = join_changes(changes);
        let lines = count_lines(&content);
        let notice = StreamingComplete::new(String::from_str(panel_id), new_task_id(), Some(0), lines);
        self.send(Message::StreamingComplete(notice));
        if redraw {
            self.send(Message::RedrawPanel(String::from_str(panel_id)));
        }
        proof {
            let parts = changes@.map_values(|s: String| s@);
            if redraw {
                assert(self.sent() =~= old(self).sent() + render_messages(panel_id@, parts));
            } else {
                assert(self.sent() =~= old(self).sent() + seq![delivered_notice(panel_id@, parts)]);
            }
        }
    }

    /// Sends a panel's pending output, if any, and records the render time.
    fn trigger_render(&mut self, panel_id: &str)
        ensures
            final(self).pending() == old(self).pending().remove(panel_id@),
            final(self).rendered_panels() == if old(self).pending().contains_key(panel_id@) {
                old(self).rendered_panels().insert(panel_id@)
            } else {
                old(self).rendered_panels()
            },
            final(self).spec_render_debounce() == old(self).spec_render_debounce(),
            final(self).spec_max_update_frequency() == old(self).spec_max_update_frequency(),
            final(self).sent() == if old(self).pending().contains_key(panel_id@) {
                old(self).sent() + render_messages(panel_id@, old(self).pending()[panel_id@].changes)
            } else {
                old(self).sent()
            },
    {
        match self.take_update(panel_id) {
            Some(update) => {
                let t = now();
                self.mark_rendered(panel_id, t);
                self.send_delivery(panel_id, &update.content_changes, true);
            },
            None => {},
        }
    }

    /// Renders a panel when its debounce time has passed (or it was never
    /// rendered) and it has pending lines or a forced render.
    fn maybe_trigger_render(&mut self, panel_id: &str)
        ensures
            final(self).spec_render_debounce() == old(self).spec_render_debounce(),
            final(self).spec_max_update_frequency() == old(self).spec_max_update_frequency(),
            ({
                let due = old(self).pending().contains_key(panel_id@) && (old(self).pending()[panel_id@].changes.len() > 0
                    || old(self).pending()[panel_id@].force_render);
                ||| (due && final(self).pending() == old(self).pending().remove(panel_id@)
                    && final(self).rendered_panels() == old(self).rendered_panels().insert(panel_id@)
                    && final(self).sent() == old(self).sent() + render_messages(
                    panel_id@,
                    old(self).pending()[panel_id@].changes,
                ))
                ||| (final(self).pending() == old(self).pending() && final(self).rendered_panels()
                    == old(self).rendered_panels() && old(self).rendered_panels().contains(panel_id@)
                    && old(self).spec_render_debounce() != millis_duration(0)
                    && final(self).sent() == old(self).sent())
                ||| (!due && final(self).pending() == old(self).pending() && final(self).rendered_panels()
                    == old(self).rendered_panels() && final(self).sent() == old(self).sent())
            }),
    {
        // The clock's answer: whether the panel's last render is at least the
        // debounce time old (asked only of a panel rendered before).
        let debounce_passed = match self.find_time(panel_id) {
            Some(i) => elapsed_at_least(&self.last_render_times[i].1, &self.render_debounce),
            None => true,
        };
        self.render_if_due(panel_id, debounce_passed);
    }

    /// Renders a panel exactly when it has pending lines (or a forced render)
    /// and either it was never rendered or `debounce_passed`, the clock's
    /// answer to whether its last render is at least the debounce time old:
    /// the pending output goes out as its render messages and the panel is
    /// recorded as rendered. Otherwise nothing changes.
    pub fn render_if_due(&mut self, panel_id: &str, debounce_passed: bool)
        ensures
            final(self).spec_render_debounce() == old(self).spec_render_debounce(),
            final(self).spec_max_update_frequency() == old(self).spec_max_update_frequency(),
            ({
                let due = old(self).pending().contains_key(panel_id@) && (old(self).pending()[panel_id@].changes.len() > 0
                    || old(self).pending()[panel_id@].force_render) && (!old(self).rendered_panels().contains(panel_id@)
                    || debounce_passed);
                &&& due ==> final(self).pending() == old(self).pending().remove(panel_id@)
                    && final(self).rendered_panels() == old(self).rendered_panels().insert(panel_id@)
                    && final(self).sent() == old(self).sent() + render_messages(
                    panel_id@,
                    old(self).pending()[panel_id@].changes,
                )
                &&& !due ==> final(self).pending() == old(self).pending() && final(self).rendered_panels()
                    == old(self).rendered_panels() && final(self).sent() == old(self).sent()
            }),
    {
        let rendered_before = match self.find_time(panel_id) {
            Some(_) => true,
            None => false,
        };
        let has_pending = match self.find_update(panel_id) {
            Some(i) => {
                proof {
                    use_type_invariant(&*self);
                    lemma_updates_lookup(self.pending_updates@, i as int);
                }
                self.pending_updates[i].content_changes.len() > 0 || self.pending_updates[i].force_render
            },
            None => false,
        };
        if has_pending && (!rendered_before || debounce_passed) {
            self.trigger_render(panel_id);
        }
    }

    /// Queues one line of streamed output for its panel; the panel is rendered
    /// at once when its debounce time has passed, and always when it was never
    /// rendered before.
    pub fn queue_streaming_update(&mut self, streaming_output: StreamingOutput)
        ensures
            ({
                let id = streaming_output.panel_id@;
                let queued = with_line(
                    old(self).pending(),
                    id,
                    streaming_output.line_content@,
                    streaming_output.sequence,
                    false,
                );
                ||| (final(self).pending() == queued.remove(id) && final(self).rendered_panels() == old(
                    self,
                ).rendered_panels().insert(id) && final(self).sent() == old(self).sent() + render_messages(
                    id,
                    queued[id].changes,
                ))
                ||| (final(self).pending() == queued && final(self).rendered_panels() == old(
                    self,
                ).rendered_panels() && old(self).rendered_panels().contains(id)
                    && old(self).spec_render_debounce() != millis_duration(0) && final(self).sent()
                    == old(self).sent())
            }),
            final(self).spec_render_debounce() == old(self).spec_render_debounce(),
            final(self).spec_max_update_frequency() == old(self).spec_max_update_frequency(),
    {
        let StreamingOutput { panel_id, line_content, sequence, timestamp: _, is_stderr: _ } = streaming_output;
        let t = now();
        self.add_line(panel_id.as_str(), line_content, sequence, false, t);
        proof {
            let queued = with_line(old(self).pending(), panel_id@, streaming_output.line_content@, sequence, false);
            assert(queued.contains_key(panel_id@));
            assert(queued[panel_id@].changes.len() > 0);
        }
        self.maybe_trigger_render(panel_id.as_str());
    }

    /// Queues several lines; each panel they mention is then rendered as for
    /// a single line, once, in the order of first mention. The sequence number
    /// kept for a panel is the largest seen.
    #[verifier::spinoff_prover]
    #[verifier::rlimit(40)]
    pub fn queue_batch_updates(&mut self, outputs: Vec<StreamingOutput>)
        ensures
            final(self).spec_render_debounce() == old(self).spec_render_debounce(),
            final(self).spec_max_update_frequency() == old(self).spec_max_update_frequency(),
            forall|id: Seq<char>| !mentions(outputs@, id) ==> {
                &&& (#[trigger] final(self).pending().contains_key(id)) == old(self).pending().contains_key(id)
                &&& old(self).pending().contains_key(id) ==> final(self).pending()[id] == old(self).pending()[id]
                &&& final(self).rendered_panels().contains(id) == old(self).rendered_panels().contains(id)
            },
            forall|id: Seq<char>| #[trigger] mentions(outputs@, id) ==> {
                let queued = with_lines(old(self).pending(), outputs@);
                ||| (!final(self).pending().contains_key(id) && final(self).rendered_panels().contains(id))
                ||| (final(self).pending().contains_key(id) && final(self).pending()[id] == queued[id]
                    && final(self).rendered_panels().contains(id) == old(self).rendered_panels().contains(id)
                    && old(self).rendered_panels().contains(id) && old(self).spec_render_debounce()
                    != millis_duration(0))
            },
            final(self).sent() == old(self).sent() + batch_messages(
                outputs@,
                with_lines(old(self).pending(), outputs@),
                final(self).pending(),
            ),
    {
        let t = now();
        let mut i: usize = 0;
        while i < outputs.len()
            invariant
                i <= outputs@.len(),
                self.pending() == with_lines(old(self).pending(), outputs@.take(i as int)),
                self.rendered_panels() == old(self).rendered_panels(),
                self.spec_render_debounce() == old(self).spec_render_debounce(),
                self.spec_max_update_frequency() == old(self).spec_max_update_frequency(),
                self.sent() == old(self).sent(),
            decreases outputs@.len() - i,
        {
            let o = &outputs[i];
            self.add_line(o.panel_id.as_str(), o.line_content.clone(), o.sequence, true, t);
            proof {
                assert(outputs@.take(i + 1).drop_last() =~= outputs@.take(i as int));
            }
            i = i + 1;
        }
        assert(outputs@.take(outputs@.len() as int) =~= outputs@);
        let ghost queued = self.pending();
        let ghost mid_rendered = self.rendered_panels();
        proof {
            assert forall|id: Seq<char>| #[trigger] mentions(outputs@, id) implies queued.contains_key(id)
                && queued[id].changes.len() > 0 && !mentions(outputs@.take(0), id) by {
                lemma_with_lines_touched(old(self).pending(), outputs@, id);
            }
            assert(batch_messages(outputs@.take(0), queued, self.pending()) =~= Seq::<SentMessage>::empty());
            assert(self.sent() =~= old(self).sent() + batch_messages(outputs@.take(0), queued, self.pending()));
        }
        // Render each mentioned panel once, at its first mention.
        let mut j: usize = 0;
        while j < outputs.len()
            invariant
                j <= outputs@.len(),
                queued == with_lines(old(self).pending(), outputs@),
                mid_rendered == old(self).rendered_panels(),
                self.spec_render_debounce() == old(self).spec_render_debounce(),
                self.spec_max_update_frequency() == old(self).spec_max_update_frequency(),
                forall|id: Seq<char>| !mentions(outputs@, id) ==> {
                    &&& (#[trigger] self.pending().contains_key(id)) == queued.contains_key(id)
                    &&& queued.contains_key(id) ==> self.pending()[id] == queued[id]
                    &&& self.rendered_panels().contains(id) == mid_rendered.contains(id)
                },
                forall|id: Seq<char>| #[trigger] mentions(outputs@, id) ==> queued.contains_key(id)
                    && queued[id].changes.len() > 0,
                forall|id: Seq<char>| #[trigger] mentions(outputs@, id) && !mentions(outputs@.take(j as int), id) ==> {
                    &&& self.pending().contains_key(id)
                    &&& self.pending()[id] == queued[id]
                    &&& self.rendered_panels().contains(id) == mid_rendered.contains(id)
                },
                forall|id: Seq<char>| #[trigger] mentions(outputs@, id) ==> {
                    ||| (!self.pending().contains_key(id) && self.rendered_panels().contains(id))
                    ||| (self.pending().contains_key(id) && self.pending()[id] == queued[id]
                        && self.rendered_panels().contains(id) == mid_rendered.contains(id)
                        && ((mid_rendered.contains(id) && self.spec_render_debounce() != millis_duration(0)) || !mentions(outputs@.take(j as int), id)))
                },
                self.sent() == old(self).sent() + batch_messages(outputs@.take(j as int), queued, self.pending()),
            decreases outputs@.len() - j,
        {
            let ghost before = *self;
            let first = !Self::mentioned_before(&outputs, j);
            let id_ref = outputs[j].panel_id.as_str();
            proof {
                assert(mentions(outputs@, id_ref@)) by {
                    assert(outputs@[j as int].panel_id@ == id_ref@);
                }
                assert(outputs@.take(j + 1).drop_last() =~= outputs@.take(j as int));
                assert(outputs@.take(j + 1).last() == outputs@[j as int]);
            }
            if first {
                self.maybe_trigger_render(id_ref);
            }
            proof {
                let s0 = outputs@.take(j as int);
                let s1 = outputs@.take(j + 1);
                assert forall|id: Seq<char>| mentions(s1, id) && id != id_ref@ implies mentions(s0, id) by {
                    let c = choose|c: int| 0 <= c < s1.len() && s1[c].panel_id@ == id;
                    assert(c != j);
                    assert(s0[c].panel_id@ == id);
                }
                assert forall|id: Seq<char>| mentions(s0, id) implies mentions(s1, id) by {
                    let c = choose|c: int| 0 <= c < s0.len() && s0[c].panel_id@ == id;
                    assert(s1[c].panel_id@ == id);
                }
                assert(mentions(s1, id_ref@)) by {
                    assert(s1[j as int].panel_id@ == id_ref@);
                }
                assert forall|id: Seq<char>| mentions(s0, id) implies before.pending().contains_key(id)
                    == self.pending().contains_key(id) by {
                    if first {
                        assert(id != id_ref@);
                    }
                }
                lemma_batch_frame(s0, queued, before.pending(), self.pending());
                assert forall|id: Seq<char>| !mentions(outputs@, id) implies {
                    &&& (#[trigger] self.pending().contains_key(id)) == queued.contains_key(id)
                    &&& queued.contains_key(id) ==> self.pending()[id] == queued[id]
                    &&& self.rendered_panels().contains(id) == mid_rendered.contains(id)
                } by {
                    assert(id != id_ref@);
                }
                assert forall|id: Seq<char>| #[trigger] mentions(outputs@, id) && !mentions(s1, id) implies {
                    &&& self.pending().contains_key(id)
                    &&& self.pending()[id] == queued[id]
                    &&& self.rendered_panels().contains(id) == mid_rendered.contains(id)
                } by {
                    assert(id != id_ref@);
                    assert(!mentions(s0, id));
                }
                assert forall|id: Seq<char>| #[trigger] mentions(outputs@, id) implies {
                    ||| (!self.pending().contains_key(id) && self.rendered_panels().contains(id))
                    ||| (self.pending().contains_key(id) && self.pending()[id] == queued[id]
                        && self.rendered_panels().contains(id) == mid_rendered.contains(id)
                        && ((mid_rendered.contains(id) && self.spec_render_debounce() != millis_duration(0)) || !mentions(s1, id)))
                } by {
                    if id != id_ref@ {
                        if !mentions(s1, id) {
                            assert(!mentions(s0, id));
                        }
                    }
                }
                if first {
                    assert(self.sent() =~= old(self).sent() + batch_messages(s1, queued, self.pending()));
                } else {
                    assert(self.sent() =~= old(self).sent() + batch_messages(s1, queued, self.pending()));
                }
            }
            j = j + 1;
        }
        proof {
            assert(outputs@.take(outputs@.len() as int) =~= outputs@);
            assert forall|id: Seq<char>| !mentions(outputs@, id) implies {
                &&& (#[trigger] self.pending().contains_key(id)) == old(self).pending().contains_key(id)
                &&& old(self).pending().contains_key(id) ==> self.pending()[id] == old(self).pending()[id]
                &&& self.rendered_panels().contains(id) == old(self).rendered_panels().contains(id)
            } by {
                lemma_with_lines_untouched(old(self).pending(), outputs@, id);
            }
        }
    }

    /// Whether the panel of `outputs[j]` is mentioned by an earlier output.
    fn mentioned_before(outputs: &Vec<StreamingOutput>, j: usize) -> (r: bool)
        requires
            j < outputs@.len(),
        ensures
            r == mentions(outputs@.take(j as int), outputs@[j as int].panel_id@),
    {
        let id = chars_of(outputs[j].panel_id.as_str());
        let mut k: usize = 0;
        while k < j
            invariant
                k <= j < outputs@.len(),
                id@ == outputs@[j as int].panel_id@,
                forall|c: int| 0 <= c < k ==> outputs@[c].panel_id@ != id@,
            decreases j - k,
        {
            let other = chars_of(outputs[k].panel_id.as_str());
            if crate::text::chars_eq(&other, &id) {
                proof {
                    assert(outputs@.take(j as int)[k as int].panel_id@ == id@);
                }
                return true;
            }
            k = k + 1;
        }
        proof {
            let s = outputs@.take(j as int);
            if mentions(s, id@) {
                let c = choose|c: int| 0 <= c < s.len() && s[c].panel_id@ == id@;
                assert(outputs@[c].panel_id@ == id@);
            }
        }
        false
    }

    /// Background handling of one panel: when `due` (its last line is at
    /// least the debounce time old), its pending output is taken and, when it
    /// has lines, sent as a completed update; the panel is not marked rendered.
    pub fn process_due_panel(&mut self, panel_id: &str, due: bool)
        ensures
            due ==> final(self).pending() == old(self).pending().remove(panel_id@),
            !due ==> final(self).pending() == old(self).pending(),
            final(self).rendered_panels() == old(self).rendered_panels(),
            final(self).spec_render_debounce() == old(self).spec_render_debounce(),
            final(self).spec_max_update_frequency() == old(self).spec_max_update_frequency(),
            final(self).sent() == if due && old(self).pending().contains_key(panel_id@) {
                old(self).sent() + background_messages(panel_id@, old(self).pending()[panel_id@].changes)
            } else {
                old(self).sent()
            },
    {
        if due {
            match self.take_update(panel_id) {
                Some(update) => {
                    if update.content_changes.len() > 0 {
                        self.send_delivery(panel_id, &update.content_changes, false);
                    } else {
                        assert(old(self).sent() + background_messages(
                            panel_id@,
                            old(self).pending()[panel_id@].changes,
                        ) =~= old(self).sent());
                    }
                },
                None => {},
            }
        }
    }

    /// One pass of the background processor: each panel whose last line is
    /// at least the debounce time old is handled as `process_due_panel` does
    /// (its pending output taken, and sent when it has lines), and the ids of
    /// the panels handled are answered, in the order in which they were
    /// pending. Which panels are due depends on the clock; every other panel
    /// keeps its pending output. The notices go out in the order of the
    /// answered ids.
    pub fn process_background_updates(&mut self) -> (handled: Vec<String>)
        ensures
            forall|i: int| 0 <= i < handled@.len() ==> old(self).pending().contains_key(#[trigger] handled@[i]@),
            forall|i: int, j: int| 0 <= i < j < handled@.len() ==> handled@[i]@ != handled@[j]@,
            final(self).pending() == old(self).pending().remove_keys(id_set(handled@)),
            final(self).rendered_panels() == old(self).rendered_panels(),
            final(self).spec_render_debounce() == old(self).spec_render_debounce(),
            final(self).spec_max_update_frequency() == old(self).spec_max_update_frequency(),
            final(self).sent() == old(self).sent() + background_batch(
                handled@.map_values(|s: String| s@),
                old(self).pending(),
            ),
    {
        proof {
            use_type_invariant(&*self);
        }
        let mut ids: Vec<String> = Vec::new();
        let mut j: usize = 0;
        while j < self.pending_updates.len()
            invariant
                j <= self.pending_updates@.len(),
                ids@.len() == j,
                forall|t: int| 0 <= t < j ==> #[trigger] ids@[t]@ == self.pending_updates@[t].panel_id@,
            decreases self.pending_updates@.len() - j,
        {
            ids.push(self.pending_updates[j].panel_id.clone());
            j = j + 1;
        }
        let ghost start = self.pending_updates@;
        proof {
            assert forall|t: int| 0 <= t < ids@.len() implies old(self).pending().contains_key(#[trigger] ids@[t]@) by {
                assert(start[t].panel_id@ == ids@[t]@);
                assert(has_update(start, ids@[t]@));
            }
            assert forall|t: int, u: int| 0 <= t < u < ids@.len() implies ids@[t]@ != ids@[u]@ by {
                assert(ids@[t]@ == start[t].panel_id@);
                assert(ids@[u]@ == start[u].panel_id@);
            }
        }
        let mut handled: Vec<String> = Vec::new();
        assert(old(self).pending().remove_keys(id_set(handled@)) =~= old(self).pending());
        assert(handled@.map_values(|s: String| s@) =~= Seq::<Seq<char>>::empty());
        assert(old(self).sent() + background_batch(Seq::<Seq<char>>::empty(), old(self).pending()) =~= old(self).sent());
        let mut i: usize = 0;
        while i < ids.len()
            invariant
                i <= ids@.len(),
                forall|t: int| 0 <= t < ids@.len() ==> old(self).pending().contains_key(#[trigger] ids@[t]@),
                forall|t: int, u: int| 0 <= t < u < ids@.len() ==> ids@[t]@ != ids@[u]@,
                forall|t: int| 0 <= t < handled@.len() ==> exists|s: int| 0 <= s < i && #[trigger] handled@[t]@ == ids@[s]@,
                forall|t: int| 0 <= t < handled@.len() ==> old(self).pending().contains_key(#[trigger] handled@[t]@),
                forall|t: int, u: int| 0 <= t < u < handled@.len() ==> handled@[t]@ != handled@[u]@,
                self.pending() == old(self).pending().remove_keys(id_set(handled@)),
                self.sent() == old(self).sent() + background_batch(
                    handled@.map_values(|s: String| s@),
                    old(self).pending(),
                ),
                self.rendered_panels() == old(self).rendered_panels(),
                self.spec_render_debounce() == old(self).spec_render_debounce(),
                self.spec_max_update_frequency() == old(self).spec_max_update_frequency(),
            decreases ids@.len() - i,
        {
            let id = ids[i].as_str();
            let due = match self.find_update(id) {
                Some(k) => elapsed_at_least(&self.pending_updates[k].last_update, &self.render_debounce),
                None => false,
            };
            proof {
                if due {
                    assert(!id_set(handled@).contains(id@)) by {
                        if id_set(handled@).contains(id@) {
                            let t = choose|t: int| 0 <= t < handled@.len() && handled@[t]@ == id@;
                            let s0 = choose|s0: int| 0 <= s0 < i && #[trigger] handled@[t]@ == ids@[s0]@;
                            assert(ids@[s0]@ != ids@[i as int]@);
                        }
                    }
                    assert(self.pending().contains_key(id@));
                    assert(self.pending()[id@] == old(self).pending()[id@]);
                }
            }
            self.process_due_panel(id, due);
            if due {
                let ghost before = handled@;
                proof {
                    assert forall|t: int| 0 <= t < before.len() implies before[t]@ != ids@[i as int]@ by {
                        let s = choose|s: int| 0 <= s < i && before[t]@ == ids@[s]@;
                        assert(ids@[s]@ != ids@[i as int]@);
                    }
                }
                handled.push(ids[i].clone());
                proof {
                    assert(handled@ == before.push(handled@[before.len() as int]));
                    assert(id_set(handled@) =~= id_set(before).insert(ids@[i as int]@)) by {
                        assert forall|k: Seq<char>| id_set(handled@).contains(k) implies id_set(before).insert(ids@[i as int]@).contains(k) by {
                            let t = choose|t: int| 0 <= t < handled@.len() && handled@[t]@ == k;
                            if t < before.len() {
                                assert(before[t]@ == k);
                            }
                        }
                        assert forall|k: Seq<char>| id_set(before).insert(ids@[i as int]@).contains(k) implies id_set(handled@).contains(k) by {
                            if k == ids@[i as int]@ {
                                assert(handled@[before.len() as int]@ == k);
                            } else {
                                let t = choose|t: int| 0 <= t < before.len() && before[t]@ == k;
                                assert(handled@[t]@ == k);
                            }
                        }
                    }
                    assert(self.pending() =~= old(self).pending().remove_keys(id_set(handled@)));
                    let hv = handled@.map_values(|s: String| s@);
                    assert(hv.drop_last() =~= before.map_values(|s: String| s@));
                    assert(hv.last() == ids@[i as int]@);
                    assert(self.sent() =~= old(self).sent() + background_batch(hv, old(self).pending()));
                    assert forall|t: int| 0 <= t < handled@.len() implies exists|s: int| 0 <= s < i + 1 && #[trigger] handled@[t]@ == ids@[s]@ by {
                        if t < before.len() {
                            let s = choose|s: int| 0 <= s < i && before[t]@ == ids@[s]@;
                            assert(handled@[t]@ == ids@[s]@);
                        } else {
                            assert(handled@[t]@ == ids@[i as int]@);
                        }
                    }
                }
            }
            i = i + 1;
        }
        handled
    }

    /// Adds a line to a panel's pending output without considering a render.
    pub fn append_pending(&mut self, panel_id: &str, line: String)
        ensures
            final(self).pending() == with_line(old(self).pending(), panel_id@, line@, 0, true),
            final(self).rendered_panels() == old(self).rendered_panels(),
            final(self).spec_render_debounce() == old(self).spec_render_debounce(),
            final(self).spec_max_update_frequency() == old(self).spec_max_update_frequency(),
            final(self).sent() == old(self).sent(),
    {
        let t = now();
        self.add_line(panel_id, line, 0, true, t);
    }

    /// Renders a panel at once, whatever its debounce time, if it has pending output.
    pub fn force_panel_render(&mut self, panel_id: &str)
        ensures
            final(self).pending() == old(self).pending().remove(panel_id@),
            final(self).rendered_panels() == if old(self).pending().contains_key(panel_id@) {
                old(self).rendered_panels().insert(panel_id@)
            } else {
                old(self).rendered_panels()
            },
            final(self).spec_render_debounce() == old(self).spec_render_debounce(),
            final(self).spec_max_update_frequency() == old(self).spec_max_update_frequency(),
            final(self).sent() == if old(self).pending().contains_key(panel_id@) {
                old(self).sent() + render_messages(panel_id@, old(self).pending()[panel_id@].changes)
            } else {
                old(self).sent()
            },
    {
        // The forced entry is taken out at once, so its force flag is never read.
        self.trigger_render(panel_id);
    }

    /// Number of lines pending for a panel.
    pub fn get_pending_update_count(&self, panel_id: &str) -> (n: usize)
        ensures
            n == if self.pending().contains_key(panel_id@) {
                self.pending()[panel_id@].changes.len()
            } else {
                0
            },
    {
        proof {
            use_type_invariant(self);
        }
        match self.find_update(panel_id) {
            Some(i) => {
                proof {
                    lemma_updates_lookup(self.pending_updates@, i as int);
                }
                self.pending_updates[i].content_changes.len()
            },
            None => 0,
        }
    }

    /// Number of lines pending over all panels.
    pub fn get_total_pending_updates(&self) -> (n: usize)
        requires
            self.total_pending() <= usize::MAX,
        ensures
            n == self.total_pending(),
    {
        let mut sum: usize = 0;
        let mut i: usize = 0;
        while i < self.pending_updates.len()
            invariant
                i <= self.pending_updates@.len(),
                sum == Self::total_of(self.pending_updates@.take(i as int)),
                Self::total_of(self.pending_updates@) <= usize::MAX,
            decreases self.pending_updates@.len() - i,
        {
            proof {
                assert(self.pending_updates@.take(i + 1).drop_last() =~= self.pending_updates@.take(i as int));
                Self::lemma_total_prefix(self.pending_updates@, i + 1);
            }
            sum = sum + self.pending_updates[i].content_changes.len();
            i = i + 1;
        }
        assert(self.pending_updates@.take(i as int) =~= self.pending_updates@);
        sum
    }

    proof fn lemma_total_prefix(v: Seq<PanelUpdate>, i: int)
        requires
            0 <= i <= v.len(),
        ensures
            Self::total_of(v.take(i)) <= Self::total_of(v),
        decreases v.len() - i,
    {
        if i < v.len() {
            Self::lemma_total_prefix(v, i + 1);
            assert(v.take(i + 1).drop_last() =~= v.take(i));
        } else {
            assert(v.take(i) =~= v);
        }
    }

    /// Forgets all pending output and all render times.
    pub fn clear_all_pending(&mut self)
        ensures
            final(self).pending() == Map::<Seq<char>, PendingView>::empty(),
            final(self).rendered_panels() == Set::<Seq<char>>::empty(),
            final(self).total_pending() == 0,
            final(self).spec_render_debounce() == old(self).spec_render_debounce(),
            final(self).spec_max_update_frequency() == old(self).spec_max_update_frequency(),
            final(self).sent() == old(self).sent(),
    {
        proof {
            use_type_invariant(&*self);
        }
        self.pending_updates = Vec::new();
        self.last_render_times = Vec::new();
        assert(self.pending() =~= Map::<Seq<char>, PendingView>::empty());
        assert(self.rendered_panels() =~= Set::<Seq<char>>::empty());
    }

    /// Forgets the pending output of one panel.
    pub fn clear_panel_pending(&mut self, panel_id: &str)
        ensures
            final(self).pending() == old(self).pending().remove(panel_id@),
            final(self).rendered_panels() == old(self).rendered_panels(),
            final(self).spec_render_debounce() == old(self).spec_render_debounce(),
            final(self).spec_max_update_frequency() == old(self).spec_max_update_frequency(),
            final(self).sent() == old(self).sent(),
    {
        let _ = self.take_update(panel_id);
    }

    pub fn set_render_debounce(&mut self, debounce: Duration)
        ensures
            final(self).spec_render_debounce() == debounce,
            final(self).spec_max_update_frequency() == old(self).spec_max_update_frequency(),
            final(self).pending() == old(self).pending(),
            final(self).rendered_panels() == old(self).rendered_panels(),
            final(self).sent() == old(self).sent(),
    {
        proof {
            use_type_invariant(&*self);
        }
        self.render_debounce = debounce;
    }

    pub fn set_max_update_frequency(&mut self, frequency: Duration)
        ensures
            final(self).spec_max_update_frequency() == frequency,
            final(self).spec_render_debounce() == old(self).spec_render_debounce(),
            final(self).pending() == old(self).pending(),
            final(self).rendered_panels() == old(self).rendered_panels(),
            final(self).sent() == old(self).sent(),
    {
        proof {
            use_type_invariant(&*self);
        }
        self.max_update_frequency = frequency;
    }

    pub fn render_debounce(&self) -> (d: Duration)
        ensures
            d == self.spec_render_debounce(),
    {
        self.render_debounce
    }

    pub fn max_update_frequency(&self) -> (d: Duration)
        ensures
            d == self.spec_max_update_frequency(),
    {
        self.max_update_frequency
    }
}

} // verus!
