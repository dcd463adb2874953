use vstd::prelude::*;
use crate::muxbox::{texts, StreamType};
use crate::text::{chars_of, push_chars, string_from_chars};

verus! {

/// What the tab bar of a box reads of one of its streams, in the order the
/// streams were added: its id, its kind, its label and whether it is shown.
#[derive(Debug, Clone)]
pub struct TabStream {
    pub id: String,
    pub stream_type: StreamType,
    pub label: String,
    pub active: bool,
}

/// The label of a stream's tab: content and choices show their own label;
/// the other kinds show their kind and name.
pub open spec fn spec_tab_label(stream_type: StreamType, label: Seq<char>) -> Seq<char> {
    match stream_type {
        StreamType::Content | StreamType::Choices => label,
        StreamType::RedirectedOutput(name) => seq!['→'] + name@,
        StreamType::PTY => "PTY"@,
        StreamType::Plugin(name) => "Plugin:"@ + name@,
        StreamType::ChoiceExecution(id) => "Choice:"@ + id@,
        StreamType::RedirectSource(source) => "From:"@ + source@,
        StreamType::ExternalSocket => "Socket"@,
        StreamType::PtySession(name) => "PTY:"@ + name@,
        StreamType::OwnScript => "Script"@,
    }
}

fn prefixed(prefix: &str, name: &String) -> (r: String)
    ensures
        r@ == prefix@ + name@,
{
    let mut v = chars_of(prefix);
    let n = chars_of(name.as_str());
    push_chars(&mut v, &n);
    string_from_chars(&v)
}

/// The label of a stream's tab.
pub fn tab_label(stream_type: &StreamType, label: &str) -> (r: String)
    ensures
        r@ == spec_tab_label(*stream_type, label@),
{
    match stream_type {
        StreamType::Content | StreamType::Choices => String::from_str(label),
        StreamType::RedirectedOutput(name) => {
            let mut v: Vec<char> = Vec::new();
            v.push('→');
            let n = chars_of(name.as_str());
            push_chars(&mut v, &n);
            assert(v@ =~= seq!['→'] + name@);
            string_from_chars(&v)
        },
        StreamType::PTY => String::from_str("PTY"),
        StreamType::Plugin(name) => prefixed("Plugin:", name),
        StreamType::ChoiceExecution(id) => prefixed("Choice:", id),
        StreamType::RedirectSource(source) => prefixed("From:", source),
        StreamType::ExternalSocket => String::from_str("Socket"),
        StreamType::PtySession(name) => prefixed("PTY:", name),
        StreamType::OwnScript => String::from_str("Script"),
    }
}

/// The tab labels of a box's streams, in order.
pub fn get_tab_labels(streams: &Vec<TabStream>) -> (r: Vec<String>)
    ensures
        r@.len() == streams@.len(),
        forall|i: int| 0 <= i < streams@.len() ==> #[trigger] r@[i]@ == spec_tab_label(
            streams@[i].stream_type,
            streams@[i].label@,
        ),
{
    let mut r: Vec<String> = Vec::new();
    let mut i: usize = 0;
    while i < streams.len()
        invariant
            i <= streams@.len(),
            r@.len() == i,
            forall|j: int| 0 <= j < i ==> #[trigger] r@[j]@ == spec_tab_label(streams@[j].stream_type, streams@[j].label@),
        decreases streams@.len() - i,
    {
        let s = &streams[i];
        r.push(tab_label(&s.stream_type, s.label.as_str()));
        i = i + 1;
    }
    r
}

/// The stream ids of a box, in tab order.
pub fn get_tab_stream_ids(streams: &Vec<TabStream>) -> (r: Vec<String>)
    ensures
        texts(r@) == streams@.map_values(|s: TabStream| s.id@),
{
    let mut r: Vec<String> = Vec::new();
    let mut i: usize = 0;
    while i < streams.len()
        invariant
            i <= streams@.len(),
            r@.len() == i,
            texts(r@) == streams@.map_values(|s: TabStream| s.id@).take(i as int),
        decreases streams@.len() - i,
    {
        let ghost prev = r@;
        let id = streams[i].id.clone();
        r.push(id);
        proof {
            let target = streams@.map_values(|s: TabStream| s.id@);
            let rv = texts(r@);
            let pv = texts(prev);
            assert(r@ == prev.push(id));
            assert forall|j: int| 0 <= j < i + 1 implies #[trigger] rv[j] == target.take(i + 1)[j] by {
                if j < i {
                    assert(pv[j] == target.take(i as int)[j]);
                    assert(r@[j] == prev[j]);
                }
            }
            assert(rv =~= target.take(i + 1));
        }
        i = i + 1;
    }
    assert(streams@.map_values(|s: TabStream| s.id@).take(i as int) =~= streams@.map_values(|s: TabStream| s.id@));
    r
}

/// The shown tab: the first active stream, or 0 when none is active.
pub open spec fn spec_active_tab(streams: Seq<TabStream>) -> int {
    if exists|i: int| 0 <= i < streams.len() && streams[i].active {
        choose|i: int| 0 <= i < streams.len() && streams[i].active && forall|j: int| 0 <= j < i ==> !streams[j].active
    } else {
        0
    }
}

proof fn lemma_first_active(streams: Seq<TabStream>, k: int)
    requires
        0 <= k < streams.len(),
        streams[k].active,
        forall|j: int| 0 <= j < k ==> !streams[j].active,
    ensures
        spec_active_tab(streams) == k,
{
    let c = choose|i: int| 0 <= i < streams.len() && streams[i].active && forall|j: int| 0 <= j < i ==> !streams[j].active;
    assert(0 <= c < streams.len() && streams[c].active && forall|j: int| 0 <= j < c ==> !streams[j].active);
    if c < k {
        assert(!streams[c].active);
    } else if k < c {
        assert(!streams[k].active);
    }
}

/// Index of the shown tab.
pub fn get_active_tab_index(streams: &Vec<TabStream>) -> (r: usize)
    ensures
        r == spec_active_tab(streams@),
{
    let mut i: usize = 0;
    while i < streams.len()
        invariant
            i <= streams@.len(),
            forall|j: int| 0 <= j < i ==> !streams@[j].active,
        decreases streams@.len() - i,
    {
        if streams[i].active {
            proof {
                lemma_first_active(streams@, i as int);
            }
            return i;
        }
        i = i + 1;
    }
    0
}

/// The id of the shown stream: the first active one, if any.
pub fn get_current_stream_id(streams: &Vec<TabStream>) -> (r: Option<String>)
    ensures
        (match r {
            Some(s) => Some(s@),
            None => None,
        }) == (if exists|i: int| 0 <= i < streams@.len() && streams@[i].active {
            Some(streams@[spec_active_tab(streams@)].id@)
        } else {
            None
        }),
{
    let mut i: usize = 0;
    while i < streams.len()
        invariant
            i <= streams@.len(),
            forall|j: int| 0 <= j < i ==> !streams@[j].active,
        decreases streams@.len() - i,
    {
        if streams[i].active {
            proof {
                lemma_first_active(streams@, i as int);
            }
            return Some(streams[i].id.clone());
        }
        i = i + 1;
    }
    None
}

/// Whether a box still needs its streams set up: it has none.
pub fn needs_tab_initialization(streams: &Vec<TabStream>) -> (r: bool)
    ensures
        r == (streams@.len() == 0),
{
    streams.len() == 0
}

/// Shows the stream of tab `tab_index` and hides the others; nothing
/// changes, and the answer is `false`, when there is no such tab.
pub fn switch_to_tab(streams: &mut Vec<TabStream>, tab_index: usize) -> (r: bool)
    ensures
        r == (tab_index < old(streams)@.len()),
        !r ==> final(streams)@ == old(streams)@,
        r ==> final(streams)@.len() == old(streams)@.len() && forall|i: int| 0 <= i < old(streams)@.len() ==> #[trigger] final(streams)@[i]
            == (TabStream { active: i == tab_index, ..old(streams)@[i] }),
{
    if tab_index >= streams.len() {
        return false;
    }
    let n = streams.len();
    let mut i: usize = 0;
    while i < n
        invariant
            i <= n == streams@.len() == old(streams)@.len(),
            tab_index < n,
            forall|j: int| i <= j < n ==> #[trigger] streams@[j] == old(streams)@[j],
            forall|j: int| 0 <= j < i ==> #[trigger] streams@[j] == (TabStream { active: j == tab_index, ..old(streams)@[j] }),
        decreases n - i,
    {
        let s = &mut streams[i];
        s.active = i == tab_index;
        i = i + 1;
    }
    true
}

/// Width of one tab: the available width shared among the tabs, kept
/// between 6 and 16 columns.
pub open spec fn tab_width(tab_count: usize, available_width: usize) -> int {
    let share = available_width / (if tab_count == 0 { 1usize } else { tab_count });
    if share < 6 {
        6
    } else if share > 16 {
        16
    } else {
        share as int
    }
}

fn tab_width_exec(tab_count: usize, available_width: usize) -> (w: usize)
    ensures
        w == tab_width(tab_count, available_width),
        6 <= w <= 16,
{
    let share = available_width / (if tab_count == 0 { 1 } else { tab_count });
    if share < 6 {
        6
    } else if share > 16 {
        16
    } else {
        share
    }
}

/// Whether `tab_count` tabs, with 4 columns of border and separators, are
/// wider than the available width.
pub open spec fn spec_tabs_need_scrolling(tab_count: usize, available_width: usize) -> bool {
    tab_count > 0 && tab_count * tab_width(tab_count, available_width) + 4 > available_width
}

/// Whether the tabs overflow the available width.
pub fn tabs_need_scrolling(tab_count: usize, available_width: usize) -> (r: bool)
    requires
        tab_count <= (usize::MAX - 4) / 16,
    ensures
        r == spec_tabs_need_scrolling(tab_count, available_width),
{
    if tab_count == 0 {
        return false;
    }
    let w = tab_width_exec(tab_count, available_width);
    assert(tab_count * w <= tab_count * 16) by (nonlinear_arith)
        requires
            w <= 16,
    ;
    tab_count * w + 4 > available_width
}

/// How far the tab bar can scroll: the tabs that do not fit beside the 6
/// columns of navigation arrows; 0 when the tabs fit.
pub open spec fn spec_max_tab_scroll_offset(tab_count: usize, available_width: usize) -> int {
    if !spec_tabs_need_scrolling(tab_count, available_width) {
        0
    } else {
        let usable = if available_width >= 6 { available_width - 6 } else { 0 };
        let fit = usable / tab_width(tab_count, available_width);
        if tab_count >= fit { tab_count - fit } else { 0 }
    }
}

/// How far the tab bar can scroll.
pub fn max_tab_scroll_offset(tab_count: usize, available_width: usize) -> (r: usize)
    requires
        tab_count <= (usize::MAX - 4) / 16,
    ensures
        r == spec_max_tab_scroll_offset(tab_count, available_width),
{
    if !tabs_need_scrolling(tab_count, available_width) {
        return 0;
    }
    let w = tab_width_exec(tab_count, available_width);
    let usable = available_width.saturating_sub(6);
    let fit = usable / w;
    tab_count.saturating_sub(fit)
}

/// The tab scroll offset after scrolling left: one less, stopping at 0.
pub fn scroll_tabs_left(offset: usize) -> (r: usize)
    ensures
        r == (if offset > 0 { offset - 1 } else { 0 }),
{
    if offset > 0 {
        offset - 1
    } else {
        0
    }
}

/// The tab scroll offset after scrolling right: one more, while it stays
/// before the last tab.
pub fn scroll_tabs_right(offset: usize, tab_count: usize) -> (r: usize)
    ensures
        r == (if tab_count > 0 && offset < tab_count - 1 { offset + 1 } else { offset as int }),
{
    if offset < tab_count.saturating_sub(1) {
        offset + 1
    } else {
        offset
    }
}

} // verus!
