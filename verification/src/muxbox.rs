use vstd::prelude::*;
use crate::bounds::{Anchor, Bounds};
use crate::common::ExecutionMode;
use crate::position::InputBounds;
use crate::text::{chars_of, string_from_chars, trim_chars, trimmed};
use crate::variables::VarTable;

verus! {

/// Source of the content shown in a tab of a box.
#[derive(Debug, Clone, PartialEq, Eq, Hash)]
pub enum StreamType {
    Content,
    Choices,
    OwnScript,
    PTY,
    PtySession(String),
    RedirectedOutput(String),
    ChoiceExecution(String),
    Plugin(String),
    RedirectSource(String),
    ExternalSocket,
}

/// Rank of a stream type in the tab bar: content first, then choices, the
/// box's own script, PTY sessions, redirected outputs, choice executions,
/// plugins, redirect sources and socket connections.
pub open spec fn spec_stream_type_priority(stream_type: StreamType) -> u8 {
    match stream_type {
        StreamType::Content => 0,
        StreamType::Choices => 1,
        StreamType::OwnScript => 2,
        StreamType::PTY => 3,
        StreamType::PtySession(_) => 3,
        StreamType::RedirectedOutput(_) => 4,
        StreamType::ChoiceExecution(_) => 5,
        StreamType::Plugin(_) => 6,
        StreamType::RedirectSource(_) => 7,
        StreamType::ExternalSocket => 8,
    }
}

/// Priority order for stream types in tab display.
pub fn stream_type_priority(stream_type: &StreamType) -> (p: u8)
    ensures
        p == spec_stream_type_priority(*stream_type),
{
    match stream_type {
        StreamType::Content => 0,
        StreamType::Choices => 1,
        StreamType::OwnScript => 2,
        StreamType::PTY => 3,
        StreamType::PtySession(_) => 3,
        StreamType::RedirectedOutput(_) => 4,
        StreamType::ChoiceExecution(_) => 5,
        StreamType::Plugin(_) => 6,
        StreamType::RedirectSource(_) => 7,
        StreamType::ExternalSocket => 8,
    }
}

/// Whether a count is zero (fields equal to zero are left out when saved).
pub fn is_zero(n: &usize) -> (r: bool)
    ensures
        r == (*n == 0),
{
    *n == 0
}

/// A menu entry of a box, with the script it runs and its interaction flags.
#[derive(Debug, Clone, PartialEq, Eq, Hash, Default)]
pub struct Choice {
    pub id: String,
    pub content: Option<String>,
    pub script: Option<Vec<String>>,
    pub redirect_output: Option<String>,
    pub append_output: Option<bool>,
    pub execution_mode: ExecutionMode,
    pub selected: bool,
    pub waiting: bool,
}

/// A box of a layout: its id, its position inside its parent, the point
/// that stays fixed when it is resized, its size limits, its stacking order,
/// whether it is selected and its place in the tab order, the texts that may
/// hold variables, its own variables, its children, and its display
/// settings (fill, border, colours, overflow, refresh interval, focus chain,
/// error state, output, key bindings and the ids of its parent box and
/// layout).
#[derive(Debug, PartialEq)]
pub struct MuxBox {
    pub id: String,
    pub position: InputBounds,
    pub anchor: Anchor,
    pub min_width: Option<usize>,
    pub min_height: Option<usize>,
    pub max_width: Option<usize>,
    pub max_height: Option<usize>,
    pub z_index: Option<i32>,
    pub selected: Option<bool>,
    pub tab_order: Option<String>,
    pub title: Option<String>,
    pub content: Option<String>,
    pub script: Option<Vec<String>>,
    pub redirect_output: Option<String>,
    pub choices: Option<Vec<Choice>>,
    pub variables: Option<VarTable>,
    pub children: Vec<MuxBox>,
    pub overflow_behavior: Option<String>,
    pub refresh_interval: Option<u64>,
    pub next_focus_id: Option<String>,
    pub fill: Option<bool>,
    pub fill_char: Option<char>,
    pub selected_fill_char: Option<char>,
    pub border: Option<bool>,
    pub border_color: Option<String>,
    pub selected_border_color: Option<String>,
    pub bg_color: Option<String>,
    pub selected_bg_color: Option<String>,
    pub fg_color: Option<String>,
    pub selected_fg_color: Option<String>,
    pub title_fg_color: Option<String>,
    pub title_bg_color: Option<String>,
    pub selected_title_bg_color: Option<String>,
    pub selected_title_fg_color: Option<String>,
    pub title_position: Option<String>,
    pub error_state: bool,
    pub error_fg_color: Option<String>,
    pub error_bg_color: Option<String>,
    pub error_title_fg_color: Option<String>,
    pub error_title_bg_color: Option<String>,
    pub error_border_color: Option<String>,
    pub error_selected_bg_color: Option<String>,
    pub error_selected_fg_color: Option<String>,
    pub error_selected_border_color: Option<String>,
    pub error_selected_title_bg_color: Option<String>,
    pub error_selected_title_fg_color: Option<String>,
    pub menu_fg_color: Option<String>,
    pub menu_bg_color: Option<String>,
    pub selected_menu_fg_color: Option<String>,
    pub selected_menu_bg_color: Option<String>,
    pub output: String,
    pub parent_id: Option<String>,
    pub parent_layout_id: Option<String>,
    pub auto_scroll_bottom: Option<bool>,
    pub on_keypress: Option<Vec<(String, Vec<String>)>>,
}

impl MuxBox {
    /// Stacking order: the box's own, or 0 when it has none.
    pub fn effective_z_index(&self) -> (z: i32)
        ensures
            z == (match self.z_index {
                Some(v) => v,
                None => 0,
            }),
    {
        match self.z_index {
            Some(v) => v,
            None => 0,
        }
    }

    /// Whether the box is marked selected.
    pub fn is_selected(&self) -> (r: bool)
        ensures
            r == (self.selected == Some(true)),
    {
        match self.selected {
            Some(v) => v,
            None => false,
        }
    }

    /// The box's rectangle inside its parent's, or inside the screen when it
    /// has no parent; its position must be well formed for that rectangle.
    pub fn absolute_bounds(&self, parent_bounds: Option<&Bounds>, screen: &Bounds) -> (r: Bounds)
        requires
            self.position.resolvable(
                match parent_bounds {
                    Some(p) => *p,
                    None => *screen,
                },
            ),
        ensures
            r == self.position.resolved(
                match parent_bounds {
                    Some(p) => *p,
                    None => *screen,
                },
            ),
    {
        match parent_bounds {
            Some(p) => self.position.to_bounds(p),
            None => self.position.to_bounds(screen),
        }
    }
}

impl Default for MuxBox {
    /// A box with an empty id, placed at the origin with no size, anchored
    /// at its centre, not selected, with nothing else set.
    fn default() -> (b: Self)
        ensures
            b.id@ == Seq::<char>::empty(),
            b.position.x1@ == "0"@,
            b.position.y1@ == "0"@,
            b.position.x2@ == "0"@,
            b.position.y2@ == "0"@,
            b.anchor == Anchor::Center,
            b.min_width is None,
            b.min_height is None,
            b.max_width is None,
            b.max_height is None,
            b.z_index is None,
            b.selected == Some(false),
            b.tab_order is None,
            b.title is None,
            b.content is None,
            b.script is None,
            b.redirect_output is None,
            b.choices is None,
            b.variables is None,
            b.children@.len() == 0,
            b.overflow_behavior is None,
            b.refresh_interval is None,
            b.next_focus_id is None,
            b.fill is None,
            b.fill_char is None,
            b.selected_fill_char is None,
            b.border is None,
            b.border_color is None,
            b.selected_border_color is None,
            b.bg_color is None,
            b.selected_bg_color is None,
            b.fg_color is None,
            b.selected_fg_color is None,
            b.title_fg_color is None,
            b.title_bg_color is None,
            b.selected_title_bg_color is None,
            b.selected_title_fg_color is None,
            b.title_position is None,
            !b.error_state,
            b.error_fg_color is None,
            b.error_bg_color is None,
            b.error_title_fg_color is None,
            b.error_title_bg_color is None,
            b.error_border_color is None,
            b.error_selected_bg_color is None,
            b.error_selected_fg_color is None,
            b.error_selected_border_color is None,
            b.error_selected_title_bg_color is None,
            b.error_selected_title_fg_color is None,
            b.menu_fg_color is None,
            b.menu_bg_color is None,
            b.selected_menu_fg_color is None,
            b.selected_menu_bg_color is None,
            b.output@ == Seq::<char>::empty(),
            b.parent_id is None,
            b.parent_layout_id is None,
            b.auto_scroll_bottom is None,
            b.on_keypress is None,
    {
        MuxBox {
            id: String::new(),
            position: InputBounds {
                x1: String::from_str("0"),
                y1: String::from_str("0"),
                x2: String::from_str("0"),
                y2: String::from_str("0"),
            },
            anchor: Anchor::Center,
            min_width: None,
            min_height: None,
            max_width: None,
            max_height: None,
            z_index: None,
            selected: Some(false),
            tab_order: None,
            title: None,
            content: None,
            script: None,
            redirect_output: None,
            choices: None,
            variables: None,
            children: Vec::new(),
            overflow_behavior: None,
            refresh_interval: None,
            next_focus_id: None,
            fill: None,
            fill_char: None,
            selected_fill_char: None,
            border: None,
            border_color: None,
            selected_border_color: None,
            bg_color: None,
            selected_bg_color: None,
            fg_color: None,
            selected_fg_color: None,
            title_fg_color: None,
            title_bg_color: None,
            selected_title_bg_color: None,
            selected_title_fg_color: None,
            title_position: None,
            error_state: false,
            error_fg_color: None,
            error_bg_color: None,
            error_title_fg_color: None,
            error_title_bg_color: None,
            error_border_color: None,
            error_selected_bg_color: None,
            error_selected_fg_color: None,
            error_selected_border_color: None,
            error_selected_title_bg_color: None,
            error_selected_title_fg_color: None,
            menu_fg_color: None,
            menu_bg_color: None,
            selected_menu_fg_color: None,
            selected_menu_bg_color: None,
            output: String::new(),
            parent_id: None,
            parent_layout_id: None,
            auto_scroll_bottom: None,
            on_keypress: None,
        }
    }
}

/// The pieces of `s` between line breaks; a text without a break is one piece.
pub open spec fn split_lines(s: Seq<char>) -> Seq<Seq<char>>
    decreases s.len(),
{
    if s.len() == 0 {
        seq![Seq::<char>::empty()]
    } else {
        let rest = split_lines(s.drop_last());
        if s.last() == '\n' {
            rest.push(Seq::<char>::empty())
        } else {
            rest.update(rest.len() - 1, rest.last().push(s.last()))
        }
    }
}

/// The lines, each trimmed, without those that are empty once trimmed.
pub open spec fn kept_commands(lines: Seq<Seq<char>>) -> Seq<Seq<char>>
    decreases lines.len(),
{
    if lines.len() == 0 {
        Seq::empty()
    } else {
        let rest = kept_commands(lines.drop_last());
        if trimmed(lines.last()).len() > 0 {
            rest.push(trimmed(lines.last()))
        } else {
            rest
        }
    }
}

/// The commands of a script written as one text: its lines, trimmed, and
/// without the blank ones.
pub open spec fn script_commands(text: Seq<char>) -> Seq<Seq<char>> {
    kept_commands(split_lines(text))
}

/// The texts of a list of strings.
pub open spec fn texts(v: Seq<String>) -> Seq<Seq<char>> {
    v.map_values(|s: String| s@)
}

proof fn lemma_split_lines_push(s: Seq<char>, c: char)
    ensures
        split_lines(s.push(c)) == (if c == '\n' {
            split_lines(s).push(Seq::<char>::empty())
        } else {
            split_lines(s).update(split_lines(s).len() - 1, split_lines(s).last().push(c))
        }),
{
    assert(s.push(c).drop_last() =~= s);
}

proof fn lemma_split_lines_nonempty(s: Seq<char>)
    ensures
        split_lines(s).len() >= 1,
    decreases s.len(),
{
    if s.len() > 0 {
        lemma_split_lines_nonempty(s.drop_last());
    }
}

proof fn lemma_kept_commands_push(lines: Seq<Seq<char>>, line: Seq<char>)
    ensures
        kept_commands(lines.push(line)) == (if trimmed(line).len() > 0 {
            kept_commands(lines).push(trimmed(line))
        } else {
            kept_commands(lines)
        }),
{
    assert(lines.push(line).drop_last() =~= lines);
}

/// Appends the trimmed `line` to `out` unless it is blank.
fn keep_command(out: &mut Vec<String>, line: &Vec<char>)
    ensures
        texts(final(out)@) == (if trimmed(line@).len() > 0 {
            texts(old(out)@).push(trimmed(line@))
        } else {
            texts(old(out)@)
        }),
{
    let t = trim_chars(line);
    if t.len() > 0 {
        let s = string_from_chars(&t);
        out.push(s);
        assert(texts(out@) =~= texts(old(out)@).push(trimmed(line@)));
    }
}

/// Splits a script written as one text into its commands: one per line,
/// trimmed, blank lines left out.
pub fn script_lines(text: &str) -> (r: Vec<String>)
    ensures
        texts(r@) == script_commands(text@),
{
    let cs = chars_of(text);
    let mut out: Vec<String> = Vec::new();
    let mut cur: Vec<char> = Vec::new();
    let ghost mut done: Seq<Seq<char>> = Seq::empty();
    let mut i: usize = 0;
    assert(cs@.take(0) =~= Seq::<char>::empty());
    assert(texts(out@) =~= Seq::<Seq<char>>::empty());
    assert(done.push(cur@) =~= seq![Seq::<char>::empty()]);
    while i < cs.len()
        invariant
            i <= cs@.len(),
            cs@ == text@,
            split_lines(cs@.take(i as int)) == done.push(cur@),
            texts(out@) == kept_commands(done),
        decreases cs@.len() - i,
    {
        let c = cs[i];
        proof {
            assert(cs@.take(i + 1) =~= cs@.take(i as int).push(c));
            lemma_split_lines_push(cs@.take(i as int), c);
        }
        if c == '\n' {
            keep_command(&mut out, &cur);
            proof {
                lemma_kept_commands_push(done, cur@);
                done = done.push(cur@);
            }
            cur = Vec::new();
            assert(split_lines(cs@.take(i + 1)) =~= done.push(cur@));
        } else {
            cur.push(c);
            assert(split_lines(cs@.take(i + 1)) =~= done.push(cur@));
        }
        i = i + 1;
    }
    keep_command(&mut out, &cur);
    proof {
        assert(cs@.take(cs@.len() as int) =~= cs@);
        lemma_kept_commands_push(done, cur@);
    }
    out
}

/// Terminal size, in characters, for a box of these bounds: the border takes
/// two columns and two rows, a title one row, a tab bar (more than one
/// stream) one row; at least 40 columns and 10 rows.
pub open spec fn spec_terminal_dimensions(
    bounds: Bounds,
    border: bool,
    title: Option<String>,
    stream_count: usize,
) -> (u16, u16) {
    let cols0 = bounds.spec_width() as u16;
    let rows0 = bounds.spec_height() as u16;
    let cols1 = if border { sat_sub_u16(cols0, 2) } else { cols0 };
    let rows1 = if border { sat_sub_u16(rows0, 2) } else { rows0 };
    let rows2 = if title matches Some(t) && t@.len() > 0 { sat_sub_u16(rows1, 1) } else { rows1 };
    let rows3 = if stream_count > 1 { sat_sub_u16(rows2, 1) } else { rows2 };
    (if cols1 < 40 { 40 } else { cols1 }, if rows3 < 10 { 10 } else { rows3 })
}

pub open spec fn sat_sub_u16(a: u16, b: u16) -> u16 {
    if a >= b { (a - b) as u16 } else { 0 }
}

/// Character dimensions of the terminal of a PTY box with these bounds,
/// border flag, title and number of streams.
pub fn calculate_terminal_dimensions(
    bounds: &Bounds,
    border: bool,
    title: &Option<String>,
    stream_count: usize,
) -> (r: (u16, u16))
    ensures
        r == spec_terminal_dimensions(*bounds, border, *title, stream_count),
{
    let mut cols = bounds.width() as u16;
    let mut rows = bounds.height() as u16;
    if border {
        cols = cols.saturating_sub(2);
        rows = rows.saturating_sub(2);
    }
    let has_title = match title {
        Some(t) => !t.as_str().is_empty(),
        None => false,
    };
    if has_title {
        rows = rows.saturating_sub(1);
    }
    if stream_count > 1 {
        rows = rows.saturating_sub(1);
    }
    let final_cols = if cols < 40 { 40 } else { cols };
    let final_rows = if rows < 10 { 10 } else { rows };
    (final_cols, final_rows)
}

} // verus!
