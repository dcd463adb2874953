use vstd::prelude::*;
use crate::bounds::Anchor;
use crate::common::EntityType;
use crate::diff_values::{
    choices_of, copy_keys, copy_lines, copy_choices, copy_opt_choices, copy_opt_keys, copy_opt_lines,
    copy_opt_vars, copy_position, copy_text, lines_of, opt_choices, opt_keys, opt_lines, opt_pairs, opt_vars,
    pairs_of, same_opt_choices, same_opt_keys, same_opt_lines, same_place, same_position, same_string,
    same_text, text_of,
};
use crate::muxbox::{Choice, MuxBox};
use crate::position::InputBounds;

verus! {

/// A new value for one field of a box, as a diff of two boxes names it.
#[derive(Debug, PartialEq)]
pub enum MuxBoxField {
    Title(String),
    Position(InputBounds),
    Anchor(Anchor),
    MinHeight(usize),
    MinWidth(usize),
    MaxHeight(usize),
    MaxWidth(usize),
    OverflowBehavior(String),
    RefreshInterval(u64),
    TabOrder(String),
    NextFocusId(String),
    Fill(Option<bool>),
    FillChar(char),
    SelectedFillChar(char),
    Border(Option<bool>),
    BorderColor(String),
    SelectedBorderColor(String),
    BgColor(String),
    SelectedBgColor(String),
    FgColor(String),
    SelectedFgColor(String),
    TitleFgColor(String),
    TitleBgColor(String),
    SelectedTitleBgColor(String),
    SelectedTitleFgColor(String),
    TitlePosition(String),
    ErrorState(bool),
    ErrorFgColor(String),
    ErrorBgColor(String),
    ErrorTitleFgColor(String),
    ErrorTitleBgColor(String),
    ErrorBorderColor(String),
    ErrorSelectedBgColor(String),
    ErrorSelectedFgColor(String),
    ErrorSelectedBorderColor(String),
    ErrorSelectedTitleBgColor(String),
    ErrorSelectedTitleFgColor(String),
    Choices(Vec<Choice>),
    MenuFgColor(String),
    MenuBgColor(String),
    SelectedMenuFgColor(String),
    SelectedMenuBgColor(String),
    RedirectOutput(String),
    Script(Vec<String>),
    OnKeypress(Vec<(String, Vec<String>)>),
    Selected(bool),
    Content(String),
    Output(String),
    ParentId(String),
    ParentLayoutId(String),
    AutoScrollBottom(bool),
    ChildAdded(MuxBox),
    ChildRemoved,
}

/// One change of a diff: the kind of entity, the id of the entity the diff
/// was taken from, and the new value of a field.
#[derive(Debug, PartialEq)]
pub struct FieldChange {
    pub entity: EntityType,
    pub entity_id: Option<String>,
    pub field: MuxBoxField,
}

/// Two field values that say the same: equal, or, for the values that are
/// lists, with the same items.
pub open spec fn same_field(f: MuxBoxField, g: MuxBoxField) -> bool {
    match (f, g) {
        (MuxBoxField::Choices(x), MuxBoxField::Choices(y)) => choices_of(x) == choices_of(y),
        (MuxBoxField::Script(x), MuxBoxField::Script(y)) => lines_of(x) == lines_of(y),
        (MuxBoxField::OnKeypress(x), MuxBoxField::OnKeypress(y)) => pairs_of(x) == pairs_of(y),
        (MuxBoxField::ChildAdded(x), MuxBoxField::ChildAdded(y)) => same_box(x, y),
        _ => f == g,
    }
}

/// Two changes that say the same.
pub open spec fn same_change(c: FieldChange, d: FieldChange) -> bool {
    c.entity == d.entity && c.entity_id == d.entity_id && same_field(c.field, d.field)
}

/// Two lists of changes that say the same, change by change.
pub open spec fn same_changes(r: Seq<FieldChange>, s: Seq<FieldChange>) -> bool {
    r.len() == s.len() && forall|i: int| 0 <= i < r.len() ==> same_change(#[trigger] r[i], s[i])
}

/// `new` is `old` followed by changes that say what `c` says.
pub open spec fn extends_like(new: Seq<FieldChange>, old: Seq<FieldChange>, c: Seq<FieldChange>) -> bool {
    &&& new.len() == old.len() + c.len()
    &&& forall|i: int| 0 <= i < old.len() ==> #[trigger] new[i] == old[i]
    &&& forall|i: int| 0 <= i < c.len() ==> same_change(new[old.len() + i], #[trigger] c[i])
}

pub(crate) proof fn lemma_extends_concat(o0: Seq<FieldChange>, o1: Seq<FieldChange>, o2: Seq<FieldChange>, c1: Seq<FieldChange>, c2: Seq<FieldChange>)
    requires
        extends_like(o1, o0, c1),
        extends_like(o2, o1, c2),
    ensures
        extends_like(o2, o0, c1 + c2),
{
    assert forall|i: int| 0 <= i < o0.len() implies #[trigger] o2[i] == o0[i] by {
        assert(o2[i] == o1[i]);
    }
    assert forall|i: int| 0 <= i < (c1 + c2).len() implies same_change(o2[o0.len() + i], #[trigger] (c1 + c2)[i]) by {
        if i < c1.len() {
            assert(c1[i] == (c1 + c2)[i]);
            assert(o2[o0.len() + i] == o1[o0.len() + i]);
        } else {
            let j = i - c1.len();
            assert(c2[j] == (c1 + c2)[i]);
            assert(o1.len() + j == o0.len() + i);
        }
    }
}

pub(crate) proof fn lemma_extends_empty(o: Seq<FieldChange>)
    ensures
        extends_like(o, o, Seq::<FieldChange>::empty()),
{
}

/// The change of one field of box `a`, when `c` holds.
#[verifier::opaque]
pub open spec fn change_if(c: bool, a: MuxBox, f: MuxBoxField) -> Seq<FieldChange> {
    if c {
        seq![FieldChange { entity: EntityType::MuxBox, entity_id: Some(a.id), field: f }]
    } else {
        Seq::empty()
    }
}

/// The changes of the title, position, anchor, min height, min width, max
/// height, max width, overflow behavior, refresh interval, tab order and next
/// focus id.
pub open spec fn diff_part1(a: MuxBox, b: MuxBox) -> Seq<FieldChange> {
    change_if(text_of(a.title) != text_of(b.title) && b.title is Some, a, MuxBoxField::Title(b.title->0))
        + change_if(!same_place(a.position, b.position), a, MuxBoxField::Position(b.position))
        + change_if(a.anchor != b.anchor, a, MuxBoxField::Anchor(b.anchor))
        + change_if(a.min_height != b.min_height && b.min_height is Some, a, MuxBoxField::MinHeight(b.min_height->0))
        + change_if(a.min_width != b.min_width && b.min_width is Some, a, MuxBoxField::MinWidth(b.min_width->0))
        + change_if(a.max_height != b.max_height && b.max_height is Some, a, MuxBoxField::MaxHeight(b.max_height->0))
        + change_if(a.max_width != b.max_width && b.max_width is Some, a, MuxBoxField::MaxWidth(b.max_width->0))
        + change_if(text_of(a.overflow_behavior) != text_of(b.overflow_behavior) && b.overflow_behavior is Some, a, MuxBoxField::OverflowBehavior(b.overflow_behavior->0))
        + change_if(a.refresh_interval != b.refresh_interval && b.refresh_interval is Some, a, MuxBoxField::RefreshInterval(b.refresh_interval->0))
        + change_if(text_of(a.tab_order) != text_of(b.tab_order) && b.tab_order is Some, a, MuxBoxField::TabOrder(b.tab_order->0))
        + change_if(text_of(a.next_focus_id) != text_of(b.next_focus_id) && b.next_focus_id is Some, a, MuxBoxField::NextFocusId(b.next_focus_id->0))
}

/// The changes of the fill, fill char, selected fill char, border, border
/// color, selected border color, bg color, selected bg color, fg color and
/// selected fg color.
pub open spec fn diff_part2(a: MuxBox, b: MuxBox) -> Seq<FieldChange> {
    change_if(a.fill != b.fill, a, MuxBoxField::Fill(b.fill))
        + change_if(a.fill_char != b.fill_char && b.fill_char is Some, a, MuxBoxField::FillChar(b.fill_char->0))
        + change_if(a.selected_fill_char != b.selected_fill_char && b.selected_fill_char is Some, a, MuxBoxField::SelectedFillChar(b.selected_fill_char->0))
        + change_if(a.border != b.border, a, MuxBoxField::Border(b.border))
        + change_if(text_of(a.border_color) != text_of(b.border_color) && b.border_color is Some, a, MuxBoxField::BorderColor(b.border_color->0))
        + change_if(text_of(a.selected_border_color) != text_of(b.selected_border_color) && b.selected_border_color is Some, a, MuxBoxField::SelectedBorderColor(b.selected_border_color->0))
        + change_if(text_of(a.bg_color) != text_of(b.bg_color) && b.bg_color is Some, a, MuxBoxField::BgColor(b.bg_color->0))
        + change_if(text_of(a.selected_bg_color) != text_of(b.selected_bg_color) && b.selected_bg_color is Some, a, MuxBoxField::SelectedBgColor(b.selected_bg_color->0))
        + change_if(text_of(a.fg_color) != text_of(b.fg_color) && b.fg_color is Some, a, MuxBoxField::FgColor(b.fg_color->0))
        + change_if(text_of(a.selected_fg_color) != text_of(b.selected_fg_color) && b.selected_fg_color is Some, a, MuxBoxField::SelectedFgColor(b.selected_fg_color->0))
}

/// The changes of the title fg color, title bg color, selected title bg color,
/// selected title fg color, title position, error state, error fg color, error
/// bg color, error title fg color and error title bg color.
pub open spec fn diff_part3(a: MuxBox, b: MuxBox) -> Seq<FieldChange> {
    change_if(text_of(a.title_fg_color) != text_of(b.title_fg_color) && b.title_fg_color is Some, a, MuxBoxField::TitleFgColor(b.title_fg_color->0))
        + change_if(text_of(a.title_bg_color) != text_of(b.title_bg_color) && b.title_bg_color is Some, a, MuxBoxField::TitleBgColor(b.title_bg_color->0))
        + change_if(text_of(a.selected_title_bg_color) != text_of(b.selected_title_bg_color) && b.selected_title_bg_color is Some, a, MuxBoxField::SelectedTitleBgColor(b.selected_title_bg_color->0))
        + change_if(text_of(a.selected_title_fg_color) != text_of(b.selected_title_fg_color) && b.selected_title_fg_color is Some, a, MuxBoxField::SelectedTitleFgColor(b.selected_title_fg_color->0))
        + change_if(text_of(a.title_position) != text_of(b.title_position) && b.title_position is Some, a, MuxBoxField::TitlePosition(b.title_position->0))
        + change_if(a.error_state != b.error_state, a, MuxBoxField::ErrorState(b.error_state))
        + change_if(text_of(a.error_fg_color) != text_of(b.error_fg_color) && b.error_fg_color is Some, a, MuxBoxField::ErrorFgColor(b.error_fg_color->0))
        + change_if(text_of(a.error_bg_color) != text_of(b.error_bg_color) && b.error_bg_color is Some, a, MuxBoxField::ErrorBgColor(b.error_bg_color->0))
        + change_if(text_of(a.error_title_fg_color) != text_of(b.error_title_fg_color) && b.error_title_fg_color is Some, a, MuxBoxField::ErrorTitleFgColor(b.error_title_fg_color->0))
        + change_if(text_of(a.error_title_bg_color) != text_of(b.error_title_bg_color) && b.error_title_bg_color is Some, a, MuxBoxField::ErrorTitleBgColor(b.error_title_bg_color->0))
}

/// The changes of the error border color, error selected bg color, error
/// selected fg color, error selected border color, error selected title bg
/// color, error selected title fg color, choices, menu fg color, menu bg color
/// and selected menu fg color.
pub open spec fn diff_part4(a: MuxBox, b: MuxBox) -> Seq<FieldChange> {
    change_if(text_of(a.error_border_color) != text_of(b.error_border_color) && b.error_border_color is Some, a, MuxBoxField::ErrorBorderColor(b.error_border_color->0))
        + change_if(text_of(a.error_selected_bg_color) != text_of(b.error_selected_bg_color) && b.error_selected_bg_color is Some, a, MuxBoxField::ErrorSelectedBgColor(b.error_selected_bg_color->0))
        + change_if(text_of(a.error_selected_fg_color) != text_of(b.error_selected_fg_color) && b.error_selected_fg_color is Some, a, MuxBoxField::ErrorSelectedFgColor(b.error_selected_fg_color->0))
        + change_if(text_of(a.error_selected_border_color) != text_of(b.error_selected_border_color) && b.error_selected_border_color is Some, a, MuxBoxField::ErrorSelectedBorderColor(b.error_selected_border_color->0))
        + change_if(text_of(a.error_selected_title_bg_color) != text_of(b.error_selected_title_bg_color) && b.error_selected_title_bg_color is Some, a, MuxBoxField::ErrorSelectedTitleBgColor(b.error_selected_title_bg_color->0))
        + change_if(text_of(a.error_selected_title_fg_color) != text_of(b.error_selected_title_fg_color) && b.error_selected_title_fg_color is Some, a, MuxBoxField::ErrorSelectedTitleFgColor(b.error_selected_title_fg_color->0))
        + change_if(opt_choices(a.choices) != opt_choices(b.choices) && b.choices is Some, a, MuxBoxField::Choices(b.choices->0))
        + change_if(text_of(a.menu_fg_color) != text_of(b.menu_fg_color) && b.menu_fg_color is Some, a, MuxBoxField::MenuFgColor(b.menu_fg_color->0))
        + change_if(text_of(a.menu_bg_color) != text_of(b.menu_bg_color) && b.menu_bg_color is Some, a, MuxBoxField::MenuBgColor(b.menu_bg_color->0))
        + change_if(text_of(a.selected_menu_fg_color) != text_of(b.selected_menu_fg_color) && b.selected_menu_fg_color is Some, a, MuxBoxField::SelectedMenuFgColor(b.selected_menu_fg_color->0))
}

/// The changes of the selected menu bg color, redirect output, script, on
/// keypress, selected, content, output, parent id and parent layout id.
pub open spec fn diff_part5(a: MuxBox, b: MuxBox) -> Seq<FieldChange> {
    change_if(text_of(a.selected_menu_bg_color) != text_of(b.selected_menu_bg_color) && b.selected_menu_bg_color is Some, a, MuxBoxField::SelectedMenuBgColor(b.selected_menu_bg_color->0))
        + change_if(text_of(a.redirect_output) != text_of(b.redirect_output) && b.redirect_output is Some, a, MuxBoxField::RedirectOutput(b.redirect_output->0))
        + change_if(opt_lines(a.script) != opt_lines(b.script) && b.script is Some, a, MuxBoxField::Script(b.script->0))
        + change_if(opt_keys(a.on_keypress) != opt_keys(b.on_keypress) && b.on_keypress is Some, a, MuxBoxField::OnKeypress(b.on_keypress->0))
        + change_if(a.selected != b.selected && b.selected is Some, a, MuxBoxField::Selected(b.selected->0))
        + change_if(text_of(a.content) != text_of(b.content) && b.content is Some, a, MuxBoxField::Content(b.content->0))
        + change_if(a.output@ != b.output@, a, MuxBoxField::Output(b.output))
        + change_if(text_of(a.parent_id) != text_of(b.parent_id) && b.parent_id is Some, a, MuxBoxField::ParentId(b.parent_id->0))
        + change_if(text_of(a.parent_layout_id) != text_of(b.parent_layout_id) && b.parent_layout_id is Some, a, MuxBoxField::ParentLayoutId(b.parent_layout_id->0))
}

/// The changes that turn box `a` into box `b`, field by field in a fixed
/// order: a field whose value is optional is named only when it differs and
/// `b` has a value; the position, the anchor, the fill and border switches,
/// the error state and the output are named whenever they differ. Each change
/// carries `a`'s id. The changes of the children (see `children_diff`) come
/// after the focus chain.
pub open spec fn spec_muxbox_diff(a: MuxBox, b: MuxBox) -> Seq<FieldChange>
    decreases a, 0nat, 0nat,
{
    diff_part1(a, b) + matched_diff(a.children@, b.children@) + added_children(a.children@, b.children@)
        + removed_children(a.children@, b.children@) + diff_part2(a, b) + diff_part3(a, b) + diff_part4(a, b) + diff_part5(a, b)
}

/// The changes of the children: for each child of `a`, its diff against each
/// child of `b` with the same id; then each child of `b` beyond the number of
/// `a`'s, as added; then each child of `a` beyond the number of `b`'s, as
/// removed.
pub open spec fn children_diff(sa: Seq<MuxBox>, sb: Seq<MuxBox>) -> Seq<FieldChange> {
    matched_diff(sa, sb) + added_children(sa, sb) + removed_children(sa, sb)
}

/// For each box of `sa`, in order, its diffs against the boxes of `sb` with
/// the same id.
pub open spec fn matched_diff(sa: Seq<MuxBox>, sb: Seq<MuxBox>) -> Seq<FieldChange>
    decreases sa, 0nat, 0nat,
{
    if sa.len() == 0 {
        Seq::empty()
    } else {
        matched_diff(sa.drop_last(), sb) + matches_diff(sa[sa.len() - 1], sb)
    }
}

/// The diffs of box `x` against each box of `sb` with the same id, in order.
pub open spec fn matches_diff(x: MuxBox, sb: Seq<MuxBox>) -> Seq<FieldChange>
    decreases x, 1nat, sb.len(),
{
    if sb.len() == 0 {
        Seq::empty()
    } else {
        matches_diff(x, sb.drop_last()) + if x.id@ == sb[sb.len() - 1].id@ {
            spec_muxbox_diff(x, sb[sb.len() - 1])
        } else {
            Seq::empty()
        }
    }
}

/// Each box of `sb` beyond the number of `sa`'s, in order, as an added child
/// carrying its own id.
pub open spec fn added_children(sa: Seq<MuxBox>, sb: Seq<MuxBox>) -> Seq<FieldChange> {
    Seq::new(
        if sb.len() > sa.len() { (sb.len() - sa.len()) as nat } else { 0nat },
        |i: int|
            FieldChange {
                entity: EntityType::MuxBox,
                entity_id: Some(sb[sa.len() + i].id),
                field: MuxBoxField::ChildAdded(sb[sa.len() + i]),
            },
    )
}

/// Each box of `sa` beyond the number of `sb`'s, in order, as a removed child
/// carrying its own id.
pub open spec fn removed_children(sa: Seq<MuxBox>, sb: Seq<MuxBox>) -> Seq<FieldChange> {
    Seq::new(
        if sa.len() > sb.len() { (sa.len() - sb.len()) as nat } else { 0nat },
        |i: int|
            FieldChange {
                entity: EntityType::MuxBox,
                entity_id: Some(sa[sb.len() + i].id),
                field: MuxBoxField::ChildRemoved,
            },
    )
}

/// A box with one field set to a new value; a change of the children or the key bindings leaves the box as it is.
pub open spec fn with_field(m: MuxBox, f: MuxBoxField) -> MuxBox {
    match f {
        MuxBoxField::Title(v) => MuxBox { title: Some(v), ..m },
        MuxBoxField::Position(v) => MuxBox { position: v, ..m },
        MuxBoxField::Anchor(v) => MuxBox { anchor: v, ..m },
        MuxBoxField::MinHeight(v) => MuxBox { min_height: Some(v), ..m },
        MuxBoxField::MinWidth(v) => MuxBox { min_width: Some(v), ..m },
        MuxBoxField::MaxHeight(v) => MuxBox { max_height: Some(v), ..m },
        MuxBoxField::MaxWidth(v) => MuxBox { max_width: Some(v), ..m },
        MuxBoxField::OverflowBehavior(v) => MuxBox { overflow_behavior: Some(v), ..m },
        MuxBoxField::RefreshInterval(v) => MuxBox { refresh_interval: Some(v), ..m },
        MuxBoxField::TabOrder(v) => MuxBox { tab_order: Some(v), ..m },
        MuxBoxField::NextFocusId(v) => MuxBox { next_focus_id: Some(v), ..m },
        MuxBoxField::Fill(v) => MuxBox { fill: v, ..m },
        MuxBoxField::FillChar(v) => MuxBox { fill_char: Some(v), ..m },
        MuxBoxField::SelectedFillChar(v) => MuxBox { selected_fill_char: Some(v), ..m },
        MuxBoxField::Border(v) => MuxBox { border: v, ..m },
        MuxBoxField::BorderColor(v) => MuxBox { border_color: Some(v), ..m },
        MuxBoxField::SelectedBorderColor(v) => MuxBox { selected_border_color: Some(v), ..m },
        MuxBoxField::BgColor(v) => MuxBox { bg_color: Some(v), ..m },
        MuxBoxField::SelectedBgColor(v) => MuxBox { selected_bg_color: Some(v), ..m },
        MuxBoxField::FgColor(v) => MuxBox { fg_color: Some(v), ..m },
        MuxBoxField::SelectedFgColor(v) => MuxBox { selected_fg_color: Some(v), ..m },
        MuxBoxField::TitleFgColor(v) => MuxBox { title_fg_color: Some(v), ..m },
        MuxBoxField::TitleBgColor(v) => MuxBox { title_bg_color: Some(v), ..m },
        MuxBoxField::SelectedTitleBgColor(v) => MuxBox { selected_title_bg_color: Some(v), ..m },
        MuxBoxField::SelectedTitleFgColor(v) => MuxBox { selected_title_fg_color: Some(v), ..m },
        MuxBoxField::TitlePosition(v) => MuxBox { title_position: Some(v), ..m },
        MuxBoxField::ErrorState(v) => MuxBox { error_state: v, ..m },
        MuxBoxField::ErrorFgColor(v) => MuxBox { error_fg_color: Some(v), ..m },
        MuxBoxField::ErrorBgColor(v) => MuxBox { error_bg_color: Some(v), ..m },
        MuxBoxField::ErrorTitleFgColor(v) => MuxBox { error_title_fg_color: Some(v), ..m },
        MuxBoxField::ErrorTitleBgColor(v) => MuxBox { error_title_bg_color: Some(v), ..m },
        MuxBoxField::ErrorBorderColor(v) => MuxBox { error_border_color: Some(v), ..m },
        MuxBoxField::ErrorSelectedBgColor(v) => MuxBox { error_selected_bg_color: Some(v), ..m },
        MuxBoxField::ErrorSelectedFgColor(v) => MuxBox { error_selected_fg_color: Some(v), ..m },
        MuxBoxField::ErrorSelectedBorderColor(v) => MuxBox { error_selected_border_color: Some(v), ..m },
        MuxBoxField::ErrorSelectedTitleBgColor(v) => MuxBox { error_selected_title_bg_color: Some(v), ..m },
        MuxBoxField::ErrorSelectedTitleFgColor(v) => MuxBox { error_selected_title_fg_color: Some(v), ..m },
        MuxBoxField::Choices(v) => MuxBox { choices: Some(v), ..m },
        MuxBoxField::MenuFgColor(v) => MuxBox { menu_fg_color: Some(v), ..m },
        MuxBoxField::MenuBgColor(v) => MuxBox { menu_bg_color: Some(v), ..m },
        MuxBoxField::SelectedMenuFgColor(v) => MuxBox { selected_menu_fg_color: Some(v), ..m },
        MuxBoxField::SelectedMenuBgColor(v) => MuxBox { selected_menu_bg_color: Some(v), ..m },
        MuxBoxField::RedirectOutput(v) => MuxBox { redirect_output: Some(v), ..m },
        MuxBoxField::Script(v) => MuxBox { script: Some(v), ..m },
        MuxBoxField::OnKeypress(_) => m,
        MuxBoxField::Selected(v) => MuxBox { selected: Some(v), ..m },
        MuxBoxField::Content(v) => MuxBox { content: Some(v), ..m },
        MuxBoxField::Output(v) => MuxBox { output: v, ..m },
        MuxBoxField::ParentId(v) => MuxBox { parent_id: Some(v), ..m },
        MuxBoxField::ParentLayoutId(v) => MuxBox { parent_layout_id: Some(v), ..m },
        MuxBoxField::AutoScrollBottom(v) => MuxBox { auto_scroll_bottom: Some(v), ..m },
        MuxBoxField::ChildAdded(_) => m,
        MuxBoxField::ChildRemoved => m,
    }
}

/// A box after a list of changes, in order: each change addressed to a
/// box sets its field, whatever id it carries; others are passed over.
pub open spec fn spec_apply(m: MuxBox, cs: Seq<FieldChange>) -> MuxBox
    decreases cs.len(),
{
    if cs.len() == 0 {
        m
    } else {
        let next = if cs[0].entity == EntityType::MuxBox {
            with_field(m, cs[0].field)
        } else {
            m
        };
        spec_apply(next, cs.drop_first())
    }
}

proof fn lemma_apply_concat(m: MuxBox, s1: Seq<FieldChange>, s2: Seq<FieldChange>)
    ensures
        spec_apply(m, s1 + s2) == spec_apply(spec_apply(m, s1), s2),
    decreases s1.len(),
{
    if s1.len() > 0 {
        let next = if s1[0].entity == EntityType::MuxBox {
            with_field(m, s1[0].field)
        } else {
            m
        };
        assert((s1 + s2).drop_first() =~= s1.drop_first() + s2);
        lemma_apply_concat(next, s1.drop_first(), s2);
    } else {
        assert(s1 + s2 =~= s2);
    }
}

proof fn lemma_apply_one(m: MuxBox, c: bool, a: MuxBox, f: MuxBoxField)
    ensures
        spec_apply(m, change_if(c, a, f)) == if c {
            with_field(m, f)
        } else {
            m
        },
{
    reveal(change_if);
    if c {
        let s = change_if(c, a, f);
        assert(s.drop_first() =~= Seq::<FieldChange>::empty());
        assert(spec_apply(with_field(m, f), s.drop_first()) == with_field(m, f));
    }
}

#[verifier::rlimit(60)]
proof fn lemma_apply_part1(m: MuxBox, a: MuxBox, b: MuxBox)
    ensures
        spec_apply(m, diff_part1(a, b)) == (MuxBox {
            title: if text_of(a.title) != text_of(b.title) && b.title is Some { Some(b.title->0) } else { m.title },
            position: if !same_place(a.position, b.position) { b.position } else { m.position },
            anchor: if a.anchor != b.anchor { b.anchor } else { m.anchor },
            min_height: if a.min_height != b.min_height && b.min_height is Some { Some(b.min_height->0) } else { m.min_height },
            min_width: if a.min_width != b.min_width && b.min_width is Some { Some(b.min_width->0) } else { m.min_width },
            max_height: if a.max_height != b.max_height && b.max_height is Some { Some(b.max_height->0) } else { m.max_height },
            max_width: if a.max_width != b.max_width && b.max_width is Some { Some(b.max_width->0) } else { m.max_width },
            overflow_behavior: if text_of(a.overflow_behavior) != text_of(b.overflow_behavior) && b.overflow_behavior is Some { Some(b.overflow_behavior->0) } else { m.overflow_behavior },
            refresh_interval: if a.refresh_interval != b.refresh_interval && b.refresh_interval is Some { Some(b.refresh_interval->0) } else { m.refresh_interval },
            tab_order: if text_of(a.tab_order) != text_of(b.tab_order) && b.tab_order is Some { Some(b.tab_order->0) } else { m.tab_order },
            next_focus_id: if text_of(a.next_focus_id) != text_of(b.next_focus_id) && b.next_focus_id is Some { Some(b.next_focus_id->0) } else { m.next_focus_id },
            ..m
        }),
{
    let s0 = change_if(text_of(a.title) != text_of(b.title) && b.title is Some, a, MuxBoxField::Title(b.title->0));
    lemma_apply_one(m, text_of(a.title) != text_of(b.title) && b.title is Some, a, MuxBoxField::Title(b.title->0));
    let s1 = s0 + change_if(!same_place(a.position, b.position), a, MuxBoxField::Position(b.position));
    lemma_apply_concat(m, s0, change_if(!same_place(a.position, b.position), a, MuxBoxField::Position(b.position)));
    lemma_apply_one(spec_apply(m, s0), !same_place(a.position, b.position), a, MuxBoxField::Position(b.position));
    let s2 = s1 + change_if(a.anchor != b.anchor, a, MuxBoxField::Anchor(b.anchor));
    lemma_apply_concat(m, s1, change_if(a.anchor != b.anchor, a, MuxBoxField::Anchor(b.anchor)));
    lemma_apply_one(spec_apply(m, s1), a.anchor != b.anchor, a, MuxBoxField::Anchor(b.anchor));
    let s3 = s2 + change_if(a.min_height != b.min_height && b.min_height is Some, a, MuxBoxField::MinHeight(b.min_height->0));
    lemma_apply_concat(m, s2, change_if(a.min_height != b.min_height && b.min_height is Some, a, MuxBoxField::MinHeight(b.min_height->0)));
    lemma_apply_one(spec_apply(m, s2), a.min_height != b.min_height && b.min_height is Some, a, MuxBoxField::MinHeight(b.min_height->0));
    let s4 = s3 + change_if(a.min_width != b.min_width && b.min_width is Some, a, MuxBoxField::MinWidth(b.min_width->0));
    lemma_apply_concat(m, s3, change_if(a.min_width != b.min_width && b.min_width is Some, a, MuxBoxField::MinWidth(b.min_width->0)));
    lemma_apply_one(spec_apply(m, s3), a.min_width != b.min_width && b.min_width is Some, a, MuxBoxField::MinWidth(b.min_width->0));
    let s5 = s4 + change_if(a.max_height != b.max_height && b.max_height is Some, a, MuxBoxField::MaxHeight(b.max_height->0));
    lemma_apply_concat(m, s4, change_if(a.max_height != b.max_height && b.max_height is Some, a, MuxBoxField::MaxHeight(b.max_height->0)));
    lemma_apply_one(spec_apply(m, s4), a.max_height != b.max_height && b.max_height is Some, a, MuxBoxField::MaxHeight(b.max_height->0));
    let s6 = s5 + change_if(a.max_width != b.max_width && b.max_width is Some, a, MuxBoxField::MaxWidth(b.max_width->0));
    lemma_apply_concat(m, s5, change_if(a.max_width != b.max_width && b.max_width is Some, a, MuxBoxField::MaxWidth(b.max_width->0)));
    lemma_apply_one(spec_apply(m, s5), a.max_width != b.max_width && b.max_width is Some, a, MuxBoxField::MaxWidth(b.max_width->0));
    let s7 = s6 + change_if(text_of(a.overflow_behavior) != text_of(b.overflow_behavior) && b.overflow_behavior is Some, a, MuxBoxField::OverflowBehavior(b.overflow_behavior->0));
    lemma_apply_concat(m, s6, change_if(text_of(a.overflow_behavior) != text_of(b.overflow_behavior) && b.overflow_behavior is Some, a, MuxBoxField::OverflowBehavior(b.overflow_behavior->0)));
    lemma_apply_one(spec_apply(m, s6), text_of(a.overflow_behavior) != text_of(b.overflow_behavior) && b.overflow_behavior is Some, a, MuxBoxField::OverflowBehavior(b.overflow_behavior->0));
    let s8 = s7 + change_if(a.refresh_interval != b.refresh_interval && b.refresh_interval is Some, a, MuxBoxField::RefreshInterval(b.refresh_interval->0));
    lemma_apply_concat(m, s7, change_if(a.refresh_interval != b.refresh_interval && b.refresh_interval is Some, a, MuxBoxField::RefreshInterval(b.refresh_interval->0)));
    lemma_apply_one(spec_apply(m, s7), a.refresh_interval != b.refresh_interval && b.refresh_interval is Some, a, MuxBoxField::RefreshInterval(b.refresh_interval->0));
    let s9 = s8 + change_if(text_of(a.tab_order) != text_of(b.tab_order) && b.tab_order is Some, a, MuxBoxField::TabOrder(b.tab_order->0));
    lemma_apply_concat(m, s8, change_if(text_of(a.tab_order) != text_of(b.tab_order) && b.tab_order is Some, a, MuxBoxField::TabOrder(b.tab_order->0)));
    lemma_apply_one(spec_apply(m, s8), text_of(a.tab_order) != text_of(b.tab_order) && b.tab_order is Some, a, MuxBoxField::TabOrder(b.tab_order->0));
    let s10 = s9 + change_if(text_of(a.next_focus_id) != text_of(b.next_focus_id) && b.next_focus_id is Some, a, MuxBoxField::NextFocusId(b.next_focus_id->0));
    lemma_apply_concat(m, s9, change_if(text_of(a.next_focus_id) != text_of(b.next_focus_id) && b.next_focus_id is Some, a, MuxBoxField::NextFocusId(b.next_focus_id->0)));
    lemma_apply_one(spec_apply(m, s9), text_of(a.next_focus_id) != text_of(b.next_focus_id) && b.next_focus_id is Some, a, MuxBoxField::NextFocusId(b.next_focus_id->0));
    assert(diff_part1(a, b) == s10);
}

#[verifier::rlimit(60)]
proof fn lemma_apply_part2(m: MuxBox, a: MuxBox, b: MuxBox)
    ensures
        spec_apply(m, diff_part2(a, b)) == (MuxBox {
            fill: if a.fill != b.fill { b.fill } else { m.fill },
            fill_char: if a.fill_char != b.fill_char && b.fill_char is Some { Some(b.fill_char->0) } else { m.fill_char },
            selected_fill_char: if a.selected_fill_char != b.selected_fill_char && b.selected_fill_char is Some { Some(b.selected_fill_char->0) } else { m.selected_fill_char },
            border: if a.border != b.border { b.border } else { m.border },
            border_color: if text_of(a.border_color) != text_of(b.border_color) && b.border_color is Some { Some(b.border_color->0) } else { m.border_color },
            selected_border_color: if text_of(a.selected_border_color) != text_of(b.selected_border_color) && b.selected_border_color is Some { Some(b.selected_border_color->0) } else { m.selected_border_color },
            bg_color: if text_of(a.bg_color) != text_of(b.bg_color) && b.bg_color is Some { Some(b.bg_color->0) } else { m.bg_color },
            selected_bg_color: if text_of(a.selected_bg_color) != text_of(b.selected_bg_color) && b.selected_bg_color is Some { Some(b.selected_bg_color->0) } else { m.selected_bg_color },
            fg_color: if text_of(a.fg_color) != text_of(b.fg_color) && b.fg_color is Some { Some(b.fg_color->0) } else { m.fg_color },
            selected_fg_color: if text_of(a.selected_fg_color) != text_of(b.selected_fg_color) && b.selected_fg_color is Some { Some(b.selected_fg_color->0) } else { m.selected_fg_color },
            ..m
        }),
{
    let s0 = change_if(a.fill != b.fill, a, MuxBoxField::Fill(b.fill));
    lemma_apply_one(m, a.fill != b.fill, a, MuxBoxField::Fill(b.fill));
    let s1 = s0 + change_if(a.fill_char != b.fill_char && b.fill_char is Some, a, MuxBoxField::FillChar(b.fill_char->0));
    lemma_apply_concat(m, s0, change_if(a.fill_char != b.fill_char && b.fill_char is Some, a, MuxBoxField::FillChar(b.fill_char->0)));
    lemma_apply_one(spec_apply(m, s0), a.fill_char != b.fill_char && b.fill_char is Some, a, MuxBoxField::FillChar(b.fill_char->0));
    let s2 = s1 + change_if(a.selected_fill_char != b.selected_fill_char && b.selected_fill_char is Some, a, MuxBoxField::SelectedFillChar(b.selected_fill_char->0));
    lemma_apply_concat(m, s1, change_if(a.selected_fill_char != b.selected_fill_char && b.selected_fill_char is Some, a, MuxBoxField::SelectedFillChar(b.selected_fill_char->0)));
    lemma_apply_one(spec_apply(m, s1), a.selected_fill_char != b.selected_fill_char && b.selected_fill_char is Some, a, MuxBoxField::SelectedFillChar(b.selected_fill_char->0));
    let s3 = s2 + change_if(a.border != b.border, a, MuxBoxField::Border(b.border));
    lemma_apply_concat(m, s2, change_if(a.border != b.border, a, MuxBoxField::Border(b.border)));
    lemma_apply_one(spec_apply(m, s2), a.border != b.border, a, MuxBoxField::Border(b.border));
    let s4 = s3 + change_if(text_of(a.border_color) != text_of(b.border_color) && b.border_color is Some, a, MuxBoxField::BorderColor(b.border_color->0));
    lemma_apply_concat(m, s3, change_if(text_of(a.border_color) != text_of(b.border_color) && b.border_color is Some, a, MuxBoxField::BorderColor(b.border_color->0)));
    lemma_apply_one(spec_apply(m, s3), text_of(a.border_color) != text_of(b.border_color) && b.border_color is Some, a, MuxBoxField::BorderColor(b.border_color->0));
    let s5 = s4 + change_if(text_of(a.selected_border_color) != text_of(b.selected_border_color) && b.selected_border_color is Some, a, MuxBoxField::SelectedBorderColor(b.selected_border_color->0));
    lemma_apply_concat(m, s4, change_if(text_of(a.selected_border_color) != text_of(b.selected_border_color) && b.selected_border_color is Some, a, MuxBoxField::SelectedBorderColor(b.selected_border_color->0)));
    lemma_apply_one(spec_apply(m, s4), text_of(a.selected_border_color) != text_of(b.selected_border_color) && b.selected_border_color is Some, a, MuxBoxField::SelectedBorderColor(b.selected_border_color->0));
    let s6 = s5 + change_if(text_of(a.bg_color) != text_of(b.bg_color) && b.bg_color is Some, a, MuxBoxField::BgColor(b.bg_color->0));
    lemma_apply_concat(m, s5, change_if(text_of(a.bg_color) != text_of(b.bg_color) && b.bg_color is Some, a, MuxBoxField::BgColor(b.bg_color->0)));
    lemma_apply_one(spec_apply(m, s5), text_of(a.bg_color) != text_of(b.bg_color) && b.bg_color is Some, a, MuxBoxField::BgColor(b.bg_color->0));
    let s7 = s6 + change_if(text_of(a.selected_bg_color) != text_of(b.selected_bg_color) && b.selected_bg_color is Some, a, MuxBoxField::SelectedBgColor(b.selected_bg_color->0));
    lemma_apply_concat(m, s6, change_if(text_of(a.selected_bg_color) != text_of(b.selected_bg_color) && b.selected_bg_color is Some, a, MuxBoxField::SelectedBgColor(b.selected_bg_color->0)));
    lemma_apply_one(spec_apply(m, s6), text_of(a.selected_bg_color) != text_of(b.selected_bg_color) && b.selected_bg_color is Some, a, MuxBoxField::SelectedBgColor(b.selected_bg_color->0));
    let s8 = s7 + change_if(text_of(a.fg_color) != text_of(b.fg_color) && b.fg_color is Some, a, MuxBoxField::FgColor(b.fg_color->0));
    lemma_apply_concat(m, s7, change_if(text_of(a.fg_color) != text_of(b.fg_color) && b.fg_color is Some, a, MuxBoxField::FgColor(b.fg_color->0)));
    lemma_apply_one(spec_apply(m, s7), text_of(a.fg_color) != text_of(b.fg_color) && b.fg_color is Some, a, MuxBoxField::FgColor(b.fg_color->0));
    let s9 = s8 + change_if(text_of(a.selected_fg_color) != text_of(b.selected_fg_color) && b.selected_fg_color is Some, a, MuxBoxField::SelectedFgColor(b.selected_fg_color->0));
    lemma_apply_concat(m, s8, change_if(text_of(a.selected_fg_color) != text_of(b.selected_fg_color) && b.selected_fg_color is Some, a, MuxBoxField::SelectedFgColor(b.selected_fg_color->0)));
    lemma_apply_one(spec_apply(m, s8), text_of(a.selected_fg_color) != text_of(b.selected_fg_color) && b.selected_fg_color is Some, a, MuxBoxField::SelectedFgColor(b.selected_fg_color->0));
    assert(diff_part2(a, b) == s9);
}

#[verifier::rlimit(60)]
proof fn lemma_apply_part3(m: MuxBox, a: MuxBox, b: MuxBox)
    ensures
        spec_apply(m, diff_part3(a, b)) == (MuxBox {
            title_fg_color: if text_of(a.title_fg_color) != text_of(b.title_fg_color) && b.title_fg_color is Some { Some(b.title_fg_color->0) } else { m.title_fg_color },
            title_bg_color: if text_of(a.title_bg_color) != text_of(b.title_bg_color) && b.title_bg_color is Some { Some(b.title_bg_color->0) } else { m.title_bg_color },
            selected_title_bg_color: if text_of(a.selected_title_bg_color) != text_of(b.selected_title_bg_color) && b.selected_title_bg_color is Some { Some(b.selected_title_bg_color->0) } else { m.selected_title_bg_color },
            selected_title_fg_color: if text_of(a.selected_title_fg_color) != text_of(b.selected_title_fg_color) && b.selected_title_fg_color is Some { Some(b.selected_title_fg_color->0) } else { m.selected_title_fg_color },
            title_position: if text_of(a.title_position) != text_of(b.title_position) && b.title_position is Some { Some(b.title_position->0) } else { m.title_position },
            error_state: if a.error_state != b.error_state { b.error_state } else { m.error_state },
            error_fg_color: if text_of(a.error_fg_color) != text_of(b.error_fg_color) && b.error_fg_color is Some { Some(b.error_fg_color->0) } else { m.error_fg_color },
            error_bg_color: if text_of(a.error_bg_color) != text_of(b.error_bg_color) && b.error_bg_color is Some { Some(b.error_bg_color->0) } else { m.error_bg_color },
            error_title_fg_color: if text_of(a.error_title_fg_color) != text_of(b.error_title_fg_color) && b.error_title_fg_color is Some { Some(b.error_title_fg_color->0) } else { m.error_title_fg_color },
            error_title_bg_color: if text_of(a.error_title_bg_color) != text_of(b.error_title_bg_color) && b.error_title_bg_color is Some { Some(b.error_title_bg_color->0) } else { m.error_title_bg_color },
            ..m
        }),
{
    let s0 = change_if(text_of(a.title_fg_color) != text_of(b.title_fg_color) && b.title_fg_color is Some, a, MuxBoxField::TitleFgColor(b.title_fg_color->0));
    lemma_apply_one(m, text_of(a.title_fg_color) != text_of(b.title_fg_color) && b.title_fg_color is Some, a, MuxBoxField::TitleFgColor(b.title_fg_color->0));
    let s1 = s0 + change_if(text_of(a.title_bg_color) != text_of(b.title_bg_color) && b.title_bg_color is Some, a, MuxBoxField::TitleBgColor(b.title_bg_color->0));
    lemma_apply_concat(m, s0, change_if(text_of(a.title_bg_color) != text_of(b.title_bg_color) && b.title_bg_color is Some, a, MuxBoxField::TitleBgColor(b.title_bg_color->0)));
    lemma_apply_one(spec_apply(m, s0), text_of(a.title_bg_color) != text_of(b.title_bg_color) && b.title_bg_color is Some, a, MuxBoxField::TitleBgColor(b.title_bg_color->0));
    let s2 = s1 + change_if(text_of(a.selected_title_bg_color) != text_of(b.selected_title_bg_color) && b.selected_title_bg_color is Some, a, MuxBoxField::SelectedTitleBgColor(b.selected_title_bg_color->0));
    lemma_apply_concat(m, s1, change_if(text_of(a.selected_title_bg_color) != text_of(b.selected_title_bg_color) && b.selected_title_bg_color is Some, a, MuxBoxField::SelectedTitleBgColor(b.selected_title_bg_color->0)));
    lemma_apply_one(spec_apply(m, s1), text_of(a.selected_title_bg_color) != text_of(b.selected_title_bg_color) && b.selected_title_bg_color is Some, a, MuxBoxField::SelectedTitleBgColor(b.selected_title_bg_color->0));
    let s3 = s2 + change_if(text_of(a.selected_title_fg_color) != text_of(b.selected_title_fg_color) && b.selected_title_fg_color is Some, a, MuxBoxField::SelectedTitleFgColor(b.selected_title_fg_color->0));
    lemma_apply_concat(m, s2, change_if(text_of(a.selected_title_fg_color) != text_of(b.selected_title_fg_color) && b.selected_title_fg_color is Some, a, MuxBoxField::SelectedTitleFgColor(b.selected_title_fg_color->0)));
    lemma_apply_one(spec_apply(m, s2), text_of(a.selected_title_fg_color) != text_of(b.selected_title_fg_color) && b.selected_title_fg_color is Some, a, MuxBoxField::SelectedTitleFgColor(b.selected_title_fg_color->0));
    let s4 = s3 + change_if(text_of(a.title_position) != text_of(b.title_position) && b.title_position is Some, a, MuxBoxField::TitlePosition(b.title_position->0));
    lemma_apply_concat(m, s3, change_if(text_of(a.title_position) != text_of(b.title_position) && b.title_position is Some, a, MuxBoxField::TitlePosition(b.title_position->0)));
    lemma_apply_one(spec_apply(m, s3), text_of(a.title_position) != text_of(b.title_position) && b.title_position is Some, a, MuxBoxField::TitlePosition(b.title_position->0));
    let s5 = s4 + change_if(a.error_state != b.error_state, a, MuxBoxField::ErrorState(b.error_state));
    lemma_apply_concat(m, s4, change_if(a.error_state != b.error_state, a, MuxBoxField::ErrorState(b.error_state)));
    lemma_apply_one(spec_apply(m, s4), a.error_state != b.error_state, a, MuxBoxField::ErrorState(b.error_state));
    let s6 = s5 + change_if(text_of(a.error_fg_color) != text_of(b.error_fg_color) && b.error_fg_color is Some, a, MuxBoxField::ErrorFgColor(b.error_fg_color->0));
    lemma_apply_concat(m, s5, change_if(text_of(a.error_fg_color) != text_of(b.error_fg_color) && b.error_fg_color is Some, a, MuxBoxField::ErrorFgColor(b.error_fg_color->0)));
    lemma_apply_one(spec_apply(m, s5), text_of(a.error_fg_color) != text_of(b.error_fg_color) && b.error_fg_color is Some, a, MuxBoxField::ErrorFgColor(b.error_fg_color->0));
    let s7 = s6 + change_if(text_of(a.error_bg_color) != text_of(b.error_bg_color) && b.error_bg_color is Some, a, MuxBoxField::ErrorBgColor(b.error_bg_color->0));
    lemma_apply_concat(m, s6, change_if(text_of(a.error_bg_color) != text_of(b.error_bg_color) && b.error_bg_color is Some, a, MuxBoxField::ErrorBgColor(b.error_bg_color->0)));
    lemma_apply_one(spec_apply(m, s6), text_of(a.error_bg_color) != text_of(b.error_bg_color) && b.error_bg_color is Some, a, MuxBoxField::ErrorBgColor(b.error_bg_color->0));
    let s8 = s7 + change_if(text_of(a.error_title_fg_color) != text_of(b.error_title_fg_color) && b.error_title_fg_color is Some, a, MuxBoxField::ErrorTitleFgColor(b.error_title_fg_color->0));
    lemma_apply_concat(m, s7, change_if(text_of(a.error_title_fg_color) != text_of(b.error_title_fg_color) && b.error_title_fg_color is Some, a, MuxBoxField::ErrorTitleFgColor(b.error_title_fg_color->0)));
    lemma_apply_one(spec_apply(m, s7), text_of(a.error_title_fg_color) != text_of(b.error_title_fg_color) && b.error_title_fg_color is Some, a, MuxBoxField::ErrorTitleFgColor(b.error_title_fg_color->0));
    let s9 = s8 + change_if(text_of(a.error_title_bg_color) != text_of(b.error_title_bg_color) && b.error_title_bg_color is Some, a, MuxBoxField::ErrorTitleBgColor(b.error_title_bg_color->0));
    lemma_apply_concat(m, s8, change_if(text_of(a.error_title_bg_color) != text_of(b.error_title_bg_color) && b.error_title_bg_color is Some, a, MuxBoxField::ErrorTitleBgColor(b.error_title_bg_color->0)));
    lemma_apply_one(spec_apply(m, s8), text_of(a.error_title_bg_color) != text_of(b.error_title_bg_color) && b.error_title_bg_color is Some, a, MuxBoxField::ErrorTitleBgColor(b.error_title_bg_color->0));
    assert(diff_part3(a, b) == s9);
}

#[verifier::rlimit(60)]
proof fn lemma_apply_part4(m: MuxBox, a: MuxBox, b: MuxBox)
    ensures
        spec_apply(m, diff_part4(a, b)) == (MuxBox {
            error_border_color: if text_of(a.error_border_color) != text_of(b.error_border_color) && b.error_border_color is Some { Some(b.error_border_color->0) } else { m.error_border_color },
            error_selected_bg_color: if text_of(a.error_selected_bg_color) != text_of(b.error_selected_bg_color) && b.error_selected_bg_color is Some { Some(b.error_selected_bg_color->0) } else { m.error_selected_bg_color },
            error_selected_fg_color: if text_of(a.error_selected_fg_color) != text_of(b.error_selected_fg_color) && b.error_selected_fg_color is Some { Some(b.error_selected_fg_color->0) } else { m.error_selected_fg_color },
            error_selected_border_color: if text_of(a.error_selected_border_color) != text_of(b.error_selected_border_color) && b.error_selected_border_color is Some { Some(b.error_selected_border_color->0) } else { m.error_selected_border_color },
            error_selected_title_bg_color: if text_of(a.error_selected_title_bg_color) != text_of(b.error_selected_title_bg_color) && b.error_selected_title_bg_color is Some { Some(b.error_selected_title_bg_color->0) } else { m.error_selected_title_bg_color },
            error_selected_title_fg_color: if text_of(a.error_selected_title_fg_color) != text_of(b.error_selected_title_fg_color) && b.error_selected_title_fg_color is Some { Some(b.error_selected_title_fg_color->0) } else { m.error_selected_title_fg_color },
            choices: if opt_choices(a.choices) != opt_choices(b.choices) && b.choices is Some { Some(b.choices->0) } else { m.choices },
            menu_fg_color: if text_of(a.menu_fg_color) != text_of(b.menu_fg_color) && b.menu_fg_color is Some { Some(b.menu_fg_color->0) } else { m.menu_fg_color },
            menu_bg_color: if text_of(a.menu_bg_color) != text_of(b.menu_bg_color) && b.menu_bg_color is Some { Some(b.menu_bg_color->0) } else { m.menu_bg_color },
            selected_menu_fg_color: if text_of(a.selected_menu_fg_color) != text_of(b.selected_menu_fg_color) && b.selected_menu_fg_color is Some { Some(b.selected_menu_fg_color->0) } else { m.selected_menu_fg_color },
            ..m
        }),
{
    let s0 = change_if(text_of(a.error_border_color) != text_of(b.error_border_color) && b.error_border_color is Some, a, MuxBoxField::ErrorBorderColor(b.error_border_color->0));
    lemma_apply_one(m, text_of(a.error_border_color) != text_of(b.error_border_color) && b.error_border_color is Some, a, MuxBoxField::ErrorBorderColor(b.error_border_color->0));
    let s1 = s0 + change_if(text_of(a.error_selected_bg_color) != text_of(b.error_selected_bg_color) && b.error_selected_bg_color is Some, a, MuxBoxField::ErrorSelectedBgColor(b.error_selected_bg_color->0));
    lemma_apply_concat(m, s0, change_if(text_of(a.error_selected_bg_color) != text_of(b.error_selected_bg_color) && b.error_selected_bg_color is Some, a, MuxBoxField::ErrorSelectedBgColor(b.error_selected_bg_color->0)));
    lemma_apply_one(spec_apply(m, s0), text_of(a.error_selected_bg_color) != text_of(b.error_selected_bg_color) && b.error_selected_bg_color is Some, a, MuxBoxField::ErrorSelectedBgColor(b.error_selected_bg_color->0));
    let s2 = s1 + change_if(text_of(a.error_selected_fg_color) != text_of(b.error_selected_fg_color) && b.error_selected_fg_color is Some, a, MuxBoxField::ErrorSelectedFgColor(b.error_selected_fg_color->0));
    lemma_apply_concat(m, s1, change_if(text_of(a.error_selected_fg_color) != text_of(b.error_selected_fg_color) && b.error_selected_fg_color is Some, a, MuxBoxField::ErrorSelectedFgColor(b.error_selected_fg_color->0)));
    lemma_apply_one(spec_apply(m, s1), text_of(a.error_selected_fg_color) != text_of(b.error_selected_fg_color) && b.error_selected_fg_color is Some, a, MuxBoxField::ErrorSelectedFgColor(b.error_selected_fg_color->0));
    let s3 = s2 + change_if(text_of(a.error_selected_border_color) != text_of(b.error_selected_border_color) && b.error_selected_border_color is Some, a, MuxBoxField::ErrorSelectedBorderColor(b.error_selected_border_color->0));
    lemma_apply_concat(m, s2, change_if(text_of(a.error_selected_border_color) != text_of(b.error_selected_border_color) && b.error_selected_border_color is Some, a, MuxBoxField::ErrorSelectedBorderColor(b.error_selected_border_color->0)));
    lemma_apply_one(spec_apply(m, s2), text_of(a.error_selected_border_color) != text_of(b.error_selected_border_color) && b.error_selected_border_color is Some, a, MuxBoxField::ErrorSelectedBorderColor(b.error_selected_border_color->0));
    let s4 = s3 + change_if(text_of(a.error_selected_title_bg_color) != text_of(b.error_selected_title_bg_color) && b.error_selected_title_bg_color is Some, a, MuxBoxField::ErrorSelectedTitleBgColor(b.error_selected_title_bg_color->0));
    lemma_apply_concat(m, s3, change_if(text_of(a.error_selected_title_bg_color) != text_of(b.error_selected_title_bg_color) && b.error_selected_title_bg_color is Some, a, MuxBoxField::ErrorSelectedTitleBgColor(b.error_selected_title_bg_color->0)));
    lemma_apply_one(spec_apply(m, s3), text_of(a.error_selected_title_bg_color) != text_of(b.error_selected_title_bg_color) && b.error_selected_title_bg_color is Some, a, MuxBoxField::ErrorSelectedTitleBgColor(b.error_selected_title_bg_color->0));
    let s5 = s4 + change_if(text_of(a.error_selected_title_fg_color) != text_of(b.error_selected_title_fg_color) && b.error_selected_title_fg_color is Some, a, MuxBoxField::ErrorSelectedTitleFgColor(b.error_selected_title_fg_color->0));
    lemma_apply_concat(m, s4, change_if(text_of(a.error_selected_title_fg_color) != text_of(b.error_selected_title_fg_color) && b.error_selected_title_fg_color is Some, a, MuxBoxField::ErrorSelectedTitleFgColor(b.error_selected_title_fg_color->0)));
    lemma_apply_one(spec_apply(m, s4), text_of(a.error_selected_title_fg_color) != text_of(b.error_selected_title_fg_color) && b.error_selected_title_fg_color is Some, a, MuxBoxField::ErrorSelectedTitleFgColor(b.error_selected_title_fg_color->0));
    let s6 = s5 + change_if(opt_choices(a.choices) != opt_choices(b.choices) && b.choices is Some, a, MuxBoxField::Choices(b.choices->0));
    lemma_apply_concat(m, s5, change_if(opt_choices(a.choices) != opt_choices(b.choices) && b.choices is Some, a, MuxBoxField::Choices(b.choices->0)));
    lemma_apply_one(spec_apply(m, s5), opt_choices(a.choices) != opt_choices(b.choices) && b.choices is Some, a, MuxBoxField::Choices(b.choices->0));
    let s7 = s6 + change_if(text_of(a.menu_fg_color) != text_of(b.menu_fg_color) && b.menu_fg_color is Some, a, MuxBoxField::MenuFgColor(b.menu_fg_color->0));
    lemma_apply_concat(m, s6, change_if(text_of(a.menu_fg_color) != text_of(b.menu_fg_color) && b.menu_fg_color is Some, a, MuxBoxField::MenuFgColor(b.menu_fg_color->0)));
    lemma_apply_one(spec_apply(m, s6), text_of(a.menu_fg_color) != text_of(b.menu_fg_color) && b.menu_fg_color is Some, a, MuxBoxField::MenuFgColor(b.menu_fg_color->0));
    let s8 = s7 + change_if(text_of(a.menu_bg_color) != text_of(b.menu_bg_color) && b.menu_bg_color is Some, a, MuxBoxField::MenuBgColor(b.menu_bg_color->0));
    lemma_apply_concat(m, s7, change_if(text_of(a.menu_bg_color) != text_of(b.menu_bg_color) && b.menu_bg_color is Some, a, MuxBoxField::MenuBgColor(b.menu_bg_color->0)));
    lemma_apply_one(spec_apply(m, s7), text_of(a.menu_bg_color) != text_of(b.menu_bg_color) && b.menu_bg_color is Some, a, MuxBoxField::MenuBgColor(b.menu_bg_color->0));
    let s9 = s8 + change_if(text_of(a.selected_menu_fg_color) != text_of(b.selected_menu_fg_color) && b.selected_menu_fg_color is Some, a, MuxBoxField::SelectedMenuFgColor(b.selected_menu_fg_color->0));
    lemma_apply_concat(m, s8, change_if(text_of(a.selected_menu_fg_color) != text_of(b.selected_menu_fg_color) && b.selected_menu_fg_color is Some, a, MuxBoxField::SelectedMenuFgColor(b.selected_menu_fg_color->0)));
    lemma_apply_one(spec_apply(m, s8), text_of(a.selected_menu_fg_color) != text_of(b.selected_menu_fg_color) && b.selected_menu_fg_color is Some, a, MuxBoxField::SelectedMenuFgColor(b.selected_menu_fg_color->0));
    assert(diff_part4(a, b) == s9);
}

#[verifier::rlimit(60)]
proof fn lemma_apply_part5(m: MuxBox, a: MuxBox, b: MuxBox)
    ensures
        spec_apply(m, diff_part5(a, b)) == (MuxBox {
            selected_menu_bg_color: if text_of(a.selected_menu_bg_color) != text_of(b.selected_menu_bg_color) && b.selected_menu_bg_color is Some { Some(b.selected_menu_bg_color->0) } else { m.selected_menu_bg_color },
            redirect_output: if text_of(a.redirect_output) != text_of(b.redirect_output) && b.redirect_output is Some { Some(b.redirect_output->0) } else { m.redirect_output },
            script: if opt_lines(a.script) != opt_lines(b.script) && b.script is Some { Some(b.script->0) } else { m.script },
            selected: if a.selected != b.selected && b.selected is Some { Some(b.selected->0) } else { m.selected },
            content: if text_of(a.content) != text_of(b.content) && b.content is Some { Some(b.content->0) } else { m.content },
            output: if a.output@ != b.output@ { b.output } else { m.output },
            parent_id: if text_of(a.parent_id) != text_of(b.parent_id) && b.parent_id is Some { Some(b.parent_id->0) } else { m.parent_id },
            parent_layout_id: if text_of(a.parent_layout_id) != text_of(b.parent_layout_id) && b.parent_layout_id is Some { Some(b.parent_layout_id->0) } else { m.parent_layout_id },
            ..m
        }),
{
    let s0 = change_if(text_of(a.selected_menu_bg_color) != text_of(b.selected_menu_bg_color) && b.selected_menu_bg_color is Some, a, MuxBoxField::SelectedMenuBgColor(b.selected_menu_bg_color->0));
    lemma_apply_one(m, text_of(a.selected_menu_bg_color) != text_of(b.selected_menu_bg_color) && b.selected_menu_bg_color is Some, a, MuxBoxField::SelectedMenuBgColor(b.selected_menu_bg_color->0));
    let s1 = s0 + change_if(text_of(a.redirect_output) != text_of(b.redirect_output) && b.redirect_output is Some, a, MuxBoxField::RedirectOutput(b.redirect_output->0));
    lemma_apply_concat(m, s0, change_if(text_of(a.redirect_output) != text_of(b.redirect_output) && b.redirect_output is Some, a, MuxBoxField::RedirectOutput(b.redirect_output->0)));
    lemma_apply_one(spec_apply(m, s0), text_of(a.redirect_output) != text_of(b.redirect_output) && b.redirect_output is Some, a, MuxBoxField::RedirectOutput(b.redirect_output->0));
    let s2 = s1 + change_if(opt_lines(a.script) != opt_lines(b.script) && b.script is Some, a, MuxBoxField::Script(b.script->0));
    lemma_apply_concat(m, s1, change_if(opt_lines(a.script) != opt_lines(b.script) && b.script is Some, a, MuxBoxField::Script(b.script->0)));
    lemma_apply_one(spec_apply(m, s1), opt_lines(a.script) != opt_lines(b.script) && b.script is Some, a, MuxBoxField::Script(b.script->0));
    let s3 = s2 + change_if(opt_keys(a.on_keypress) != opt_keys(b.on_keypress) && b.on_keypress is Some, a, MuxBoxField::OnKeypress(b.on_keypress->0));
    lemma_apply_concat(m, s2, change_if(opt_keys(a.on_keypress) != opt_keys(b.on_keypress) && b.on_keypress is Some, a, MuxBoxField::OnKeypress(b.on_keypress->0)));
    lemma_apply_one(spec_apply(m, s2), opt_keys(a.on_keypress) != opt_keys(b.on_keypress) && b.on_keypress is Some, a, MuxBoxField::OnKeypress(b.on_keypress->0));
    let s4 = s3 + change_if(a.selected != b.selected && b.selected is Some, a, MuxBoxField::Selected(b.selected->0));
    lemma_apply_concat(m, s3, change_if(a.selected != b.selected && b.selected is Some, a, MuxBoxField::Selected(b.selected->0)));
    lemma_apply_one(spec_apply(m, s3), a.selected != b.selected && b.selected is Some, a, MuxBoxField::Selected(b.selected->0));
    let s5 = s4 + change_if(text_of(a.content) != text_of(b.content) && b.content is Some, a, MuxBoxField::Content(b.content->0));
    lemma_apply_concat(m, s4, change_if(text_of(a.content) != text_of(b.content) && b.content is Some, a, MuxBoxField::Content(b.content->0)));
    lemma_apply_one(spec_apply(m, s4), text_of(a.content) != text_of(b.content) && b.content is Some, a, MuxBoxField::Content(b.content->0));
    let s6 = s5 + change_if(a.output@ != b.output@, a, MuxBoxField::Output(b.output));
    lemma_apply_concat(m, s5, change_if(a.output@ != b.output@, a, MuxBoxField::Output(b.output)));
    lemma_apply_one(spec_apply(m, s5), a.output@ != b.output@, a, MuxBoxField::Output(b.output));
    let s7 = s6 + change_if(text_of(a.parent_id) != text_of(b.parent_id) && b.parent_id is Some, a, MuxBoxField::ParentId(b.parent_id->0));
    lemma_apply_concat(m, s6, change_if(text_of(a.parent_id) != text_of(b.parent_id) && b.parent_id is Some, a, MuxBoxField::ParentId(b.parent_id->0)));
    lemma_apply_one(spec_apply(m, s6), text_of(a.parent_id) != text_of(b.parent_id) && b.parent_id is Some, a, MuxBoxField::ParentId(b.parent_id->0));
    let s8 = s7 + change_if(text_of(a.parent_layout_id) != text_of(b.parent_layout_id) && b.parent_layout_id is Some, a, MuxBoxField::ParentLayoutId(b.parent_layout_id->0));
    lemma_apply_concat(m, s7, change_if(text_of(a.parent_layout_id) != text_of(b.parent_layout_id) && b.parent_layout_id is Some, a, MuxBoxField::ParentLayoutId(b.parent_layout_id->0)));
    lemma_apply_one(spec_apply(m, s7), text_of(a.parent_layout_id) != text_of(b.parent_layout_id) && b.parent_layout_id is Some, a, MuxBoxField::ParentLayoutId(b.parent_layout_id->0));
    assert(diff_part5(a, b) == s8);
}

/// Applying the diff of `a` against `b` to `a` makes it agree with `b` on
/// every field the diff covers: an optional field takes `b`'s value where `b`
/// has one and keeps `a`'s otherwise; the position, anchor, fill and border
/// switches, error state and output take `b`'s. The key bindings are named
/// by the diff but a box does not apply them. The id, variables, stacking
/// order and children stay `a`'s. This holds when the children give no
/// changes: a change of a child is applied, like any box change, to `a`
/// itself.
#[verifier::rlimit(60)]
pub proof fn law_apply_diff_agrees(a: MuxBox, b: MuxBox)
    requires
        children_diff(a.children@, b.children@) == Seq::<FieldChange>::empty(),
    ensures
        ({
            let r = spec_apply(a, spec_muxbox_diff(a, b));
            &&& text_of(r.title) == if b.title is Some { text_of(b.title) } else { text_of(a.title) }
            &&& same_place(r.position, b.position)
            &&& r.anchor == b.anchor
            &&& r.min_height == if b.min_height is Some { b.min_height } else { a.min_height }
            &&& r.min_width == if b.min_width is Some { b.min_width } else { a.min_width }
            &&& r.max_height == if b.max_height is Some { b.max_height } else { a.max_height }
            &&& r.max_width == if b.max_width is Some { b.max_width } else { a.max_width }
            &&& text_of(r.overflow_behavior) == if b.overflow_behavior is Some { text_of(b.overflow_behavior) } else { text_of(a.overflow_behavior) }
            &&& r.refresh_interval == if b.refresh_interval is Some { b.refresh_interval } else { a.refresh_interval }
            &&& text_of(r.tab_order) == if b.tab_order is Some { text_of(b.tab_order) } else { text_of(a.tab_order) }
            &&& text_of(r.next_focus_id) == if b.next_focus_id is Some { text_of(b.next_focus_id) } else { text_of(a.next_focus_id) }
            &&& r.fill == b.fill
            &&& r.fill_char == if b.fill_char is Some { b.fill_char } else { a.fill_char }
            &&& r.selected_fill_char == if b.selected_fill_char is Some { b.selected_fill_char } else { a.selected_fill_char }
            &&& r.border == b.border
            &&& text_of(r.border_color) == if b.border_color is Some { text_of(b.border_color) } else { text_of(a.border_color) }
            &&& text_of(r.selected_border_color) == if b.selected_border_color is Some { text_of(b.selected_border_color) } else { text_of(a.selected_border_color) }
            &&& text_of(r.bg_color) == if b.bg_color is Some { text_of(b.bg_color) } else { text_of(a.bg_color) }
            &&& text_of(r.selected_bg_color) == if b.selected_bg_color is Some { text_of(b.selected_bg_color) } else { text_of(a.selected_bg_color) }
            &&& text_of(r.fg_color) == if b.fg_color is Some { text_of(b.fg_color) } else { text_of(a.fg_color) }
            &&& text_of(r.selected_fg_color) == if b.selected_fg_color is Some { text_of(b.selected_fg_color) } else { text_of(a.selected_fg_color) }
            &&& text_of(r.title_fg_color) == if b.title_fg_color is Some { text_of(b.title_fg_color) } else { text_of(a.title_fg_color) }
            &&& text_of(r.title_bg_color) == if b.title_bg_color is Some { text_of(b.title_bg_color) } else { text_of(a.title_bg_color) }
            &&& text_of(r.selected_title_bg_color) == if b.selected_title_bg_color is Some { text_of(b.selected_title_bg_color) } else { text_of(a.selected_title_bg_color) }
            &&& text_of(r.selected_title_fg_color) == if b.selected_title_fg_color is Some { text_of(b.selected_title_fg_color) } else { text_of(a.selected_title_fg_color) }
            &&& text_of(r.title_position) == if b.title_position is Some { text_of(b.title_position) } else { text_of(a.title_position) }
            &&& r.error_state == b.error_state
            &&& text_of(r.error_fg_color) == if b.error_fg_color is Some { text_of(b.error_fg_color) } else { text_of(a.error_fg_color) }
            &&& text_of(r.error_bg_color) == if b.error_bg_color is Some { text_of(b.error_bg_color) } else { text_of(a.error_bg_color) }
            &&& text_of(r.error_title_fg_color) == if b.error_title_fg_color is Some { text_of(b.error_title_fg_color) } else { text_of(a.error_title_fg_color) }
            &&& text_of(r.error_title_bg_color) == if b.error_title_bg_color is Some { text_of(b.error_title_bg_color) } else { text_of(a.error_title_bg_color) }
            &&& text_of(r.error_border_color) == if b.error_border_color is Some { text_of(b.error_border_color) } else { text_of(a.error_border_color) }
            &&& text_of(r.error_selected_bg_color) == if b.error_selected_bg_color is Some { text_of(b.error_selected_bg_color) } else { text_of(a.error_selected_bg_color) }
            &&& text_of(r.error_selected_fg_color) == if b.error_selected_fg_color is Some { text_of(b.error_selected_fg_color) } else { text_of(a.error_selected_fg_color) }
            &&& text_of(r.error_selected_border_color) == if b.error_selected_border_color is Some { text_of(b.error_selected_border_color) } else { text_of(a.error_selected_border_color) }
            &&& text_of(r.error_selected_title_bg_color) == if b.error_selected_title_bg_color is Some { text_of(b.error_selected_title_bg_color) } else { text_of(a.error_selected_title_bg_color) }
            &&& text_of(r.error_selected_title_fg_color) == if b.error_selected_title_fg_color is Some { text_of(b.error_selected_title_fg_color) } else { text_of(a.error_selected_title_fg_color) }
            &&& opt_choices(r.choices) == if b.choices is Some { opt_choices(b.choices) } else { opt_choices(a.choices) }
            &&& text_of(r.menu_fg_color) == if b.menu_fg_color is Some { text_of(b.menu_fg_color) } else { text_of(a.menu_fg_color) }
            &&& text_of(r.menu_bg_color) == if b.menu_bg_color is Some { text_of(b.menu_bg_color) } else { text_of(a.menu_bg_color) }
            &&& text_of(r.selected_menu_fg_color) == if b.selected_menu_fg_color is Some { text_of(b.selected_menu_fg_color) } else { text_of(a.selected_menu_fg_color) }
            &&& text_of(r.selected_menu_bg_color) == if b.selected_menu_bg_color is Some { text_of(b.selected_menu_bg_color) } else { text_of(a.selected_menu_bg_color) }
            &&& text_of(r.redirect_output) == if b.redirect_output is Some { text_of(b.redirect_output) } else { text_of(a.redirect_output) }
            &&& opt_lines(r.script) == if b.script is Some { opt_lines(b.script) } else { opt_lines(a.script) }
            &&& r.on_keypress == a.on_keypress
            &&& r.selected == if b.selected is Some { b.selected } else { a.selected }
            &&& text_of(r.content) == if b.content is Some { text_of(b.content) } else { text_of(a.content) }
            &&& r.output@ == b.output@
            &&& text_of(r.parent_id) == if b.parent_id is Some { text_of(b.parent_id) } else { text_of(a.parent_id) }
            &&& text_of(r.parent_layout_id) == if b.parent_layout_id is Some { text_of(b.parent_layout_id) } else { text_of(a.parent_layout_id) }
            &&& r.id == a.id
            &&& r.auto_scroll_bottom == a.auto_scroll_bottom
            &&& r.variables == a.variables
            &&& r.z_index == a.z_index
            &&& r.children == a.children
        }),
{
    let m1 = spec_apply(a, diff_part1(a, b));
    lemma_apply_part1(a, a, b);
    let ch = matched_diff(a.children@, b.children@) + added_children(a.children@, b.children@) + removed_children(a.children@, b.children@);
    assert(ch == children_diff(a.children@, b.children@));
    lemma_apply_concat(a, diff_part1(a, b), ch);
    assert(spec_apply(m1, Seq::<FieldChange>::empty()) == m1);
    assert(diff_part1(a, b) + ch =~= diff_part1(a, b) + matched_diff(a.children@, b.children@) + added_children(a.children@, b.children@) + removed_children(a.children@, b.children@));
    lemma_apply_part2(m1, a, b);
    lemma_apply_concat(a, diff_part1(a, b) + matched_diff(a.children@, b.children@) + added_children(a.children@, b.children@) + removed_children(a.children@, b.children@), diff_part2(a, b));
    let m2 = spec_apply(m1, diff_part2(a, b));
    lemma_apply_part3(m2, a, b);
    lemma_apply_concat(a, diff_part1(a, b) + matched_diff(a.children@, b.children@) + added_children(a.children@, b.children@) + removed_children(a.children@, b.children@) + diff_part2(a, b), diff_part3(a, b));
    let m3 = spec_apply(m2, diff_part3(a, b));
    lemma_apply_part4(m3, a, b);
    lemma_apply_concat(a, diff_part1(a, b) + matched_diff(a.children@, b.children@) + added_children(a.children@, b.children@) + removed_children(a.children@, b.children@) + diff_part2(a, b) + diff_part3(a, b), diff_part4(a, b));
    let m4 = spec_apply(m3, diff_part4(a, b));
    lemma_apply_part5(m4, a, b);
    lemma_apply_concat(a, diff_part1(a, b) + matched_diff(a.children@, b.children@) + added_children(a.children@, b.children@) + removed_children(a.children@, b.children@) + diff_part2(a, b) + diff_part3(a, b) + diff_part4(a, b), diff_part5(a, b));
    let m5 = spec_apply(m4, diff_part5(a, b));
    assert(spec_muxbox_diff(a, b) == diff_part1(a, b) + matched_diff(a.children@, b.children@) + added_children(a.children@, b.children@) + removed_children(a.children@, b.children@) + diff_part2(a, b) + diff_part3(a, b) + diff_part4(a, b) + diff_part5(a, b));
}

/// A box compared with itself has no changes of its own fields: what is
/// left are the changes its children give.
pub proof fn law_diff_of_same_box_is_own_free(a: MuxBox)
    ensures
        spec_muxbox_diff(a, a) == children_diff(a.children@, a.children@),
{
    reveal(change_if);
    assert(diff_part1(a, a) =~= Seq::<FieldChange>::empty());
    assert(diff_part2(a, a) =~= Seq::<FieldChange>::empty());
    assert(diff_part3(a, a) =~= Seq::<FieldChange>::empty());
    assert(diff_part4(a, a) =~= Seq::<FieldChange>::empty());
    assert(diff_part5(a, a) =~= Seq::<FieldChange>::empty());
    assert(spec_muxbox_diff(a, a) =~= children_diff(a.children@, a.children@));
}

fn box_change(a: &MuxBox, f: MuxBoxField) -> (c: FieldChange)
    ensures
        c == (FieldChange { entity: EntityType::MuxBox, entity_id: Some(a.id), field: f }),
{
    FieldChange { entity: EntityType::MuxBox, entity_id: Some(a.id.clone()), field: f }
}

#[verifier::rlimit(60)]
fn push_part1(a: &MuxBox, b: &MuxBox, out: &mut Vec<FieldChange>)
    ensures
        extends_like(final(out)@, old(out)@, diff_part1(*a, *b)),
{
    let ghost start = out@;
    let ghost g0 = out@;
    push_title(a, b, out);
    let ghost g1 = out@;
    push_position(a, b, out);
    proof { lemma_extends_concat(start, g1, out@, change_if(text_of(a.title) != text_of(b.title) && b.title is Some, *a, MuxBoxField::Title(b.title->0)), change_if(!same_place(a.position, b.position), *a, MuxBoxField::Position(b.position))); }
    let ghost g2 = out@;
    push_anchor(a, b, out);
    proof { lemma_extends_concat(start, g2, out@, change_if(text_of(a.title) != text_of(b.title) && b.title is Some, *a, MuxBoxField::Title(b.title->0)) + change_if(!same_place(a.position, b.position), *a, MuxBoxField::Position(b.position)), change_if(a.anchor != b.anchor, *a, MuxBoxField::Anchor(b.anchor))); }
    let ghost g3 = out@;
    push_min_height(a, b, out);
    proof { lemma_extends_concat(start, g3, out@, change_if(text_of(a.title) != text_of(b.title) && b.title is Some, *a, MuxBoxField::Title(b.title->0)) + change_if(!same_place(a.position, b.position), *a, MuxBoxField::Position(b.position)) + change_if(a.anchor != b.anchor, *a, MuxBoxField::Anchor(b.anchor)), change_if(a.min_height != b.min_height && b.min_height is Some, *a, MuxBoxField::MinHeight(b.min_height->0))); }
    let ghost g4 = out@;
    push_min_width(a, b, out);
    proof { lemma_extends_concat(start, g4, out@, change_if(text_of(a.title) != text_of(b.title) && b.title is Some, *a, MuxBoxField::Title(b.title->0)) + change_if(!same_place(a.position, b.position), *a, MuxBoxField::Position(b.position)) + change_if(a.anchor != b.anchor, *a, MuxBoxField::Anchor(b.anchor)) + change_if(a.min_height != b.min_height && b.min_height is Some, *a, MuxBoxField::MinHeight(b.min_height->0)), change_if(a.min_width != b.min_width && b.min_width is Some, *a, MuxBoxField::MinWidth(b.min_width->0))); }
    let ghost g5 = out@;
    push_max_height(a, b, out);
    proof { lemma_extends_concat(start, g5, out@, change_if(text_of(a.title) != text_of(b.title) && b.title is Some, *a, MuxBoxField::Title(b.title->0)) + change_if(!same_place(a.position, b.position), *a, MuxBoxField::Position(b.position)) + change_if(a.anchor != b.anchor, *a, MuxBoxField::Anchor(b.anchor)) + change_if(a.min_height != b.min_height && b.min_height is Some, *a, MuxBoxField::MinHeight(b.min_height->0)) + change_if(a.min_width != b.min_width && b.min_width is Some, *a, MuxBoxField::MinWidth(b.min_width->0)), change_if(a.max_height != b.max_height && b.max_height is Some, *a, MuxBoxField::MaxHeight(b.max_height->0))); }
    let ghost g6 = out@;
    push_max_width(a, b, out);
    proof { lemma_extends_concat(start, g6, out@, change_if(text_of(a.title) != text_of(b.title) && b.title is Some, *a, MuxBoxField::Title(b.title->0)) + change_if(!same_place(a.position, b.position), *a, MuxBoxField::Position(b.position)) + change_if(a.anchor != b.anchor, *a, MuxBoxField::Anchor(b.anchor)) + change_if(a.min_height != b.min_height && b.min_height is Some, *a, MuxBoxField::MinHeight(b.min_height->0)) + change_if(a.min_width != b.min_width && b.min_width is Some, *a, MuxBoxField::MinWidth(b.min_width->0)) + change_if(a.max_height != b.max_height && b.max_height is Some, *a, MuxBoxField::MaxHeight(b.max_height->0)), change_if(a.max_width != b.max_width && b.max_width is Some, *a, MuxBoxField::MaxWidth(b.max_width->0))); }
    let ghost g7 = out@;
    push_overflow_behavior(a, b, out);
    proof { lemma_extends_concat(start, g7, out@, change_if(text_of(a.title) != text_of(b.title) && b.title is Some, *a, MuxBoxField::Title(b.title->0)) + change_if(!same_place(a.position, b.position), *a, MuxBoxField::Position(b.position)) + change_if(a.anchor != b.anchor, *a, MuxBoxField::Anchor(b.anchor)) + change_if(a.min_height != b.min_height && b.min_height is Some, *a, MuxBoxField::MinHeight(b.min_height->0)) + change_if(a.min_width != b.min_width && b.min_width is Some, *a, MuxBoxField::MinWidth(b.min_width->0)) + change_if(a.max_height != b.max_height && b.max_height is Some, *a, MuxBoxField::MaxHeight(b.max_height->0)) + change_if(a.max_width != b.max_width && b.max_width is Some, *a, MuxBoxField::MaxWidth(b.max_width->0)), change_if(text_of(a.overflow_behavior) != text_of(b.overflow_behavior) && b.overflow_behavior is Some, *a, MuxBoxField::OverflowBehavior(b.overflow_behavior->0))); }
    let ghost g8 = out@;
    push_refresh_interval(a, b, out);
    proof { lemma_extends_concat(start, g8, out@, change_if(text_of(a.title) != text_of(b.title) && b.title is Some, *a, MuxBoxField::Title(b.title->0)) + change_if(!same_place(a.position, b.position), *a, MuxBoxField::Position(b.position)) + change_if(a.anchor != b.anchor, *a, MuxBoxField::Anchor(b.anchor)) + change_if(a.min_height != b.min_height && b.min_height is Some, *a, MuxBoxField::MinHeight(b.min_height->0)) + change_if(a.min_width != b.min_width && b.min_width is Some, *a, MuxBoxField::MinWidth(b.min_width->0)) + change_if(a.max_height != b.max_height && b.max_height is Some, *a, MuxBoxField::MaxHeight(b.max_height->0)) + change_if(a.max_width != b.max_width && b.max_width is Some, *a, MuxBoxField::MaxWidth(b.max_width->0)) + change_if(text_of(a.overflow_behavior) != text_of(b.overflow_behavior) && b.overflow_behavior is Some, *a, MuxBoxField::OverflowBehavior(b.overflow_behavior->0)), change_if(a.refresh_interval != b.refresh_interval && b.refresh_interval is Some, *a, MuxBoxField::RefreshInterval(b.refresh_interval->0))); }
    let ghost g9 = out@;
    push_tab_order(a, b, out);
    proof { lemma_extends_concat(start, g9, out@, change_if(text_of(a.title) != text_of(b.title) && b.title is Some, *a, MuxBoxField::Title(b.title->0)) + change_if(!same_place(a.position, b.position), *a, MuxBoxField::Position(b.position)) + change_if(a.anchor != b.anchor, *a, MuxBoxField::Anchor(b.anchor)) + change_if(a.min_height != b.min_height && b.min_height is Some, *a, MuxBoxField::MinHeight(b.min_height->0)) + change_if(a.min_width != b.min_width && b.min_width is Some, *a, MuxBoxField::MinWidth(b.min_width->0)) + change_if(a.max_height != b.max_height && b.max_height is Some, *a, MuxBoxField::MaxHeight(b.max_height->0)) + change_if(a.max_width != b.max_width && b.max_width is Some, *a, MuxBoxField::MaxWidth(b.max_width->0)) + change_if(text_of(a.overflow_behavior) != text_of(b.overflow_behavior) && b.overflow_behavior is Some, *a, MuxBoxField::OverflowBehavior(b.overflow_behavior->0)) + change_if(a.refresh_interval != b.refresh_interval && b.refresh_interval is Some, *a, MuxBoxField::RefreshInterval(b.refresh_interval->0)), change_if(text_of(a.tab_order) != text_of(b.tab_order) && b.tab_order is Some, *a, MuxBoxField::TabOrder(b.tab_order->0))); }
    let ghost g10 = out@;
    push_next_focus_id(a, b, out);
    proof { lemma_extends_concat(start, g10, out@, change_if(text_of(a.title) != text_of(b.title) && b.title is Some, *a, MuxBoxField::Title(b.title->0)) + change_if(!same_place(a.position, b.position), *a, MuxBoxField::Position(b.position)) + change_if(a.anchor != b.anchor, *a, MuxBoxField::Anchor(b.anchor)) + change_if(a.min_height != b.min_height && b.min_height is Some, *a, MuxBoxField::MinHeight(b.min_height->0)) + change_if(a.min_width != b.min_width && b.min_width is Some, *a, MuxBoxField::MinWidth(b.min_width->0)) + change_if(a.max_height != b.max_height && b.max_height is Some, *a, MuxBoxField::MaxHeight(b.max_height->0)) + change_if(a.max_width != b.max_width && b.max_width is Some, *a, MuxBoxField::MaxWidth(b.max_width->0)) + change_if(text_of(a.overflow_behavior) != text_of(b.overflow_behavior) && b.overflow_behavior is Some, *a, MuxBoxField::OverflowBehavior(b.overflow_behavior->0)) + change_if(a.refresh_interval != b.refresh_interval && b.refresh_interval is Some, *a, MuxBoxField::RefreshInterval(b.refresh_interval->0)) + change_if(text_of(a.tab_order) != text_of(b.tab_order) && b.tab_order is Some, *a, MuxBoxField::TabOrder(b.tab_order->0)), change_if(text_of(a.next_focus_id) != text_of(b.next_focus_id) && b.next_focus_id is Some, *a, MuxBoxField::NextFocusId(b.next_focus_id->0))); }
    assert(diff_part1(*a, *b) == change_if(text_of(a.title) != text_of(b.title) && b.title is Some, *a, MuxBoxField::Title(b.title->0)) + change_if(!same_place(a.position, b.position), *a, MuxBoxField::Position(b.position)) + change_if(a.anchor != b.anchor, *a, MuxBoxField::Anchor(b.anchor)) + change_if(a.min_height != b.min_height && b.min_height is Some, *a, MuxBoxField::MinHeight(b.min_height->0)) + change_if(a.min_width != b.min_width && b.min_width is Some, *a, MuxBoxField::MinWidth(b.min_width->0)) + change_if(a.max_height != b.max_height && b.max_height is Some, *a, MuxBoxField::MaxHeight(b.max_height->0)) + change_if(a.max_width != b.max_width && b.max_width is Some, *a, MuxBoxField::MaxWidth(b.max_width->0)) + change_if(text_of(a.overflow_behavior) != text_of(b.overflow_behavior) && b.overflow_behavior is Some, *a, MuxBoxField::OverflowBehavior(b.overflow_behavior->0)) + change_if(a.refresh_interval != b.refresh_interval && b.refresh_interval is Some, *a, MuxBoxField::RefreshInterval(b.refresh_interval->0)) + change_if(text_of(a.tab_order) != text_of(b.tab_order) && b.tab_order is Some, *a, MuxBoxField::TabOrder(b.tab_order->0)) + change_if(text_of(a.next_focus_id) != text_of(b.next_focus_id) && b.next_focus_id is Some, *a, MuxBoxField::NextFocusId(b.next_focus_id->0)));
}

fn push_title(a: &MuxBox, b: &MuxBox, out: &mut Vec<FieldChange>)
    ensures
        extends_like(final(out)@, old(out)@, change_if(text_of(a.title) != text_of(b.title) && b.title is Some, *a, MuxBoxField::Title(b.title->0))),
{
    let ghost start = out@;
    if !same_text(&a.title, &b.title) {
        if let Some(v) = &b.title {
            out.push(box_change(a, MuxBoxField::Title(v.clone())));
        }
    }
    reveal(change_if);
    assert(extends_like(out@, start, change_if(text_of(a.title) != text_of(b.title) && b.title is Some, *a, MuxBoxField::Title(b.title->0))));
}

fn push_position(a: &MuxBox, b: &MuxBox, out: &mut Vec<FieldChange>)
    ensures
        extends_like(final(out)@, old(out)@, change_if(!same_place(a.position, b.position), *a, MuxBoxField::Position(b.position))),
{
    let ghost start = out@;
    if !same_position(&a.position, &b.position) {
        out.push(box_change(a, MuxBoxField::Position(copy_position(&b.position))));
    }
    reveal(change_if);
    assert(extends_like(out@, start, change_if(!same_place(a.position, b.position), *a, MuxBoxField::Position(b.position))));
}

fn push_anchor(a: &MuxBox, b: &MuxBox, out: &mut Vec<FieldChange>)
    ensures
        extends_like(final(out)@, old(out)@, change_if(a.anchor != b.anchor, *a, MuxBoxField::Anchor(b.anchor))),
{
    let ghost start = out@;
    if a.anchor != b.anchor {
        out.push(box_change(a, MuxBoxField::Anchor(b.anchor)));
    }
    reveal(change_if);
    assert(extends_like(out@, start, change_if(a.anchor != b.anchor, *a, MuxBoxField::Anchor(b.anchor))));
}

fn push_min_height(a: &MuxBox, b: &MuxBox, out: &mut Vec<FieldChange>)
    ensures
        extends_like(final(out)@, old(out)@, change_if(a.min_height != b.min_height && b.min_height is Some, *a, MuxBoxField::MinHeight(b.min_height->0))),
{
    let ghost start = out@;
    match (a.min_height, b.min_height) {
        (Some(x), Some(y)) => {
            if x != y {
                out.push(box_change(a, MuxBoxField::MinHeight(y)));
            }
        },
        (None, Some(y)) => {
            out.push(box_change(a, MuxBoxField::MinHeight(y)));
        },
        _ => {},
    }
    reveal(change_if);
    assert(extends_like(out@, start, change_if(a.min_height != b.min_height && b.min_height is Some, *a, MuxBoxField::MinHeight(b.min_height->0))));
}

fn push_min_width(a: &MuxBox, b: &MuxBox, out: &mut Vec<FieldChange>)
    ensures
        extends_like(final(out)@, old(out)@, change_if(a.min_width != b.min_width && b.min_width is Some, *a, MuxBoxField::MinWidth(b.min_width->0))),
{
    let ghost start = out@;
    match (a.min_width, b.min_width) {
        (Some(x), Some(y)) => {
            if x != y {
                out.push(box_change(a, MuxBoxField::MinWidth(y)));
            }
        },
        (None, Some(y)) => {
            out.push(box_change(a, MuxBoxField::MinWidth(y)));
        },
        _ => {},
    }
    reveal(change_if);
    assert(extends_like(out@, start, change_if(a.min_width != b.min_width && b.min_width is Some, *a, MuxBoxField::MinWidth(b.min_width->0))));
}

fn push_max_height(a: &MuxBox, b: &MuxBox, out: &mut Vec<FieldChange>)
    ensures
        extends_like(final(out)@, old(out)@, change_if(a.max_height != b.max_height && b.max_height is Some, *a, MuxBoxField::MaxHeight(b.max_height->0))),
{
    let ghost start = out@;
    match (a.max_height, b.max_height) {
        (Some(x), Some(y)) => {
            if x != y {
                out.push(box_change(a, MuxBoxField::MaxHeight(y)));
            }
        },
        (None, Some(y)) => {
            out.push(box_change(a, MuxBoxField::MaxHeight(y)));
        },
        _ => {},
    }
    reveal(change_if);
    assert(extends_like(out@, start, change_if(a.max_height != b.max_height && b.max_height is Some, *a, MuxBoxField::MaxHeight(b.max_height->0))));
}

fn push_max_width(a: &MuxBox, b: &MuxBox, out: &mut Vec<FieldChange>)
    ensures
        extends_like(final(out)@, old(out)@, change_if(a.max_width != b.max_width && b.max_width is Some, *a, MuxBoxField::MaxWidth(b.max_width->0))),
{
    let ghost start = out@;
    match (a.max_width, b.max_width) {
        (Some(x), Some(y)) => {
            if x != y {
                out.push(box_change(a, MuxBoxField::MaxWidth(y)));
            }
        },
        (None, Some(y)) => {
            out.push(box_change(a, MuxBoxField::MaxWidth(y)));
        },
        _ => {},
    }
    reveal(change_if);
    assert(extends_like(out@, start, change_if(a.max_width != b.max_width && b.max_width is Some, *a, MuxBoxField::MaxWidth(b.max_width->0))));
}

fn push_overflow_behavior(a: &MuxBox, b: &MuxBox, out: &mut Vec<FieldChange>)
    ensures
        extends_like(final(out)@, old(out)@, change_if(text_of(a.overflow_behavior) != text_of(b.overflow_behavior) && b.overflow_behavior is Some, *a, MuxBoxField::OverflowBehavior(b.overflow_behavior->0))),
{
    let ghost start = out@;
    if !same_text(&a.overflow_behavior, &b.overflow_behavior) {
        if let Some(v) = &b.overflow_behavior {
            out.push(box_change(a, MuxBoxField::OverflowBehavior(v.clone())));
        }
    }
    reveal(change_if);
    assert(extends_like(out@, start, change_if(text_of(a.overflow_behavior) != text_of(b.overflow_behavior) && b.overflow_behavior is Some, *a, MuxBoxField::OverflowBehavior(b.overflow_behavior->0))));
}

fn push_refresh_interval(a: &MuxBox, b: &MuxBox, out: &mut Vec<FieldChange>)
    ensures
        extends_like(final(out)@, old(out)@, change_if(a.refresh_interval != b.refresh_interval && b.refresh_interval is Some, *a, MuxBoxField::RefreshInterval(b.refresh_interval->0))),
{
    let ghost start = out@;
    match (a.refresh_interval, b.refresh_interval) {
        (Some(x), Some(y)) => {
            if x != y {
                out.push(box_change(a, MuxBoxField::RefreshInterval(y)));
            }
        },
        (None, Some(y)) => {
            out.push(box_change(a, MuxBoxField::RefreshInterval(y)));
        },
        _ => {},
    }
    reveal(change_if);
    assert(extends_like(out@, start, change_if(a.refresh_interval != b.refresh_interval && b.refresh_interval is Some, *a, MuxBoxField::RefreshInterval(b.refresh_interval->0))));
}

fn push_tab_order(a: &MuxBox, b: &MuxBox, out: &mut Vec<FieldChange>)
    ensures
        extends_like(final(out)@, old(out)@, change_if(text_of(a.tab_order) != text_of(b.tab_order) && b.tab_order is Some, *a, MuxBoxField::TabOrder(b.tab_order->0))),
{
    let ghost start = out@;
    if !same_text(&a.tab_order, &b.tab_order) {
        if let Some(v) = &b.tab_order {
            out.push(box_change(a, MuxBoxField::TabOrder(v.clone())));
        }
    }
    reveal(change_if);
    assert(extends_like(out@, start, change_if(text_of(a.tab_order) != text_of(b.tab_order) && b.tab_order is Some, *a, MuxBoxField::TabOrder(b.tab_order->0))));
}

fn push_next_focus_id(a: &MuxBox, b: &MuxBox, out: &mut Vec<FieldChange>)
    ensures
        extends_like(final(out)@, old(out)@, change_if(text_of(a.next_focus_id) != text_of(b.next_focus_id) && b.next_focus_id is Some, *a, MuxBoxField::NextFocusId(b.next_focus_id->0))),
{
    let ghost start = out@;
    if !same_text(&a.next_focus_id, &b.next_focus_id) {
        if let Some(v) = &b.next_focus_id {
            out.push(box_change(a, MuxBoxField::NextFocusId(v.clone())));
        }
    }
    reveal(change_if);
    assert(extends_like(out@, start, change_if(text_of(a.next_focus_id) != text_of(b.next_focus_id) && b.next_focus_id is Some, *a, MuxBoxField::NextFocusId(b.next_focus_id->0))));
}

#[verifier::rlimit(60)]
fn push_part2(a: &MuxBox, b: &MuxBox, out: &mut Vec<FieldChange>)
    ensures
        extends_like(final(out)@, old(out)@, diff_part2(*a, *b)),
{
    let ghost start = out@;
    let ghost g0 = out@;
    push_fill(a, b, out);
    let ghost g1 = out@;
    push_fill_char(a, b, out);
    proof { lemma_extends_concat(start, g1, out@, change_if(a.fill != b.fill, *a, MuxBoxField::Fill(b.fill)), change_if(a.fill_char != b.fill_char && b.fill_char is Some, *a, MuxBoxField::FillChar(b.fill_char->0))); }
    let ghost g2 = out@;
    push_selected_fill_char(a, b, out);
    proof { lemma_extends_concat(start, g2, out@, change_if(a.fill != b.fill, *a, MuxBoxField::Fill(b.fill)) + change_if(a.fill_char != b.fill_char && b.fill_char is Some, *a, MuxBoxField::FillChar(b.fill_char->0)), change_if(a.selected_fill_char != b.selected_fill_char && b.selected_fill_char is Some, *a, MuxBoxField::SelectedFillChar(b.selected_fill_char->0))); }
    let ghost g3 = out@;
    push_border(a, b, out);
    proof { lemma_extends_concat(start, g3, out@, change_if(a.fill != b.fill, *a, MuxBoxField::Fill(b.fill)) + change_if(a.fill_char != b.fill_char && b.fill_char is Some, *a, MuxBoxField::FillChar(b.fill_char->0)) + change_if(a.selected_fill_char != b.selected_fill_char && b.selected_fill_char is Some, *a, MuxBoxField::SelectedFillChar(b.selected_fill_char->0)), change_if(a.border != b.border, *a, MuxBoxField::Border(b.border))); }
    let ghost g4 = out@;
    push_border_color(a, b, out);
    proof { lemma_extends_concat(start, g4, out@, change_if(a.fill != b.fill, *a, MuxBoxField::Fill(b.fill)) + change_if(a.fill_char != b.fill_char && b.fill_char is Some, *a, MuxBoxField::FillChar(b.fill_char->0)) + change_if(a.selected_fill_char != b.selected_fill_char && b.selected_fill_char is Some, *a, MuxBoxField::SelectedFillChar(b.selected_fill_char->0)) + change_if(a.border != b.border, *a, MuxBoxField::Border(b.border)), change_if(text_of(a.border_color) != text_of(b.border_color) && b.border_color is Some, *a, MuxBoxField::BorderColor(b.border_color->0))); }
    let ghost g5 = out@;
    push_selected_border_color(a, b, out);
    proof { lemma_extends_concat(start, g5, out@, change_if(a.fill != b.fill, *a, MuxBoxField::Fill(b.fill)) + change_if(a.fill_char != b.fill_char && b.fill_char is Some, *a, MuxBoxField::FillChar(b.fill_char->0)) + change_if(a.selected_fill_char != b.selected_fill_char && b.selected_fill_char is Some, *a, MuxBoxField::SelectedFillChar(b.selected_fill_char->0)) + change_if(a.border != b.border, *a, MuxBoxField::Border(b.border)) + change_if(text_of(a.border_color) != text_of(b.border_color) && b.border_color is Some, *a, MuxBoxField::BorderColor(b.border_color->0)), change_if(text_of(a.selected_border_color) != text_of(b.selected_border_color) && b.selected_border_color is Some, *a, MuxBoxField::SelectedBorderColor(b.selected_border_color->0))); }
    let ghost g6 = out@;
    push_bg_color(a, b, out);
    proof { lemma_extends_concat(start, g6, out@, change_if(a.fill != b.fill, *a, MuxBoxField::Fill(b.fill)) + change_if(a.fill_char != b.fill_char && b.fill_char is Some, *a, MuxBoxField::FillChar(b.fill_char->0)) + change_if(a.selected_fill_char != b.selected_fill_char && b.selected_fill_char is Some, *a, MuxBoxField::SelectedFillChar(b.selected_fill_char->0)) + change_if(a.border != b.border, *a, MuxBoxField::Border(b.border)) + change_if(text_of(a.border_color) != text_of(b.border_color) && b.border_color is Some, *a, MuxBoxField::BorderColor(b.border_color->0)) + change_if(text_of(a.selected_border_color) != text_of(b.selected_border_color) && b.selected_border_color is Some, *a, MuxBoxField::SelectedBorderColor(b.selected_border_color->0)), change_if(text_of(a.bg_color) != text_of(b.bg_color) && b.bg_color is Some, *a, MuxBoxField::BgColor(b.bg_color->0))); }
    let ghost g7 = out@;
    push_selected_bg_color(a, b, out);
    proof { lemma_extends_concat(start, g7, out@, change_if(a.fill != b.fill, *a, MuxBoxField::Fill(b.fill)) + change_if(a.fill_char != b.fill_char && b.fill_char is Some, *a, MuxBoxField::FillChar(b.fill_char->0)) + change_if(a.selected_fill_char != b.selected_fill_char && b.selected_fill_char is Some, *a, MuxBoxField::SelectedFillChar(b.selected_fill_char->0)) + change_if(a.border != b.border, *a, MuxBoxField::Border(b.border)) + change_if(text_of(a.border_color) != text_of(b.border_color) && b.border_color is Some, *a, MuxBoxField::BorderColor(b.border_color->0)) + change_if(text_of(a.selected_border_color) != text_of(b.selected_border_color) && b.selected_border_color is Some, *a, MuxBoxField::SelectedBorderColor(b.selected_border_color->0)) + change_if(text_of(a.bg_color) != text_of(b.bg_color) && b.bg_color is Some, *a, MuxBoxField::BgColor(b.bg_color->0)), change_if(text_of(a.selected_bg_color) != text_of(b.selected_bg_color) && b.selected_bg_color is Some, *a, MuxBoxField::SelectedBgColor(b.selected_bg_color->0))); }
    let ghost g8 = out@;
    push_fg_color(a, b, out);
    proof { lemma_extends_concat(start, g8, out@, change_if(a.fill != b.fill, *a, MuxBoxField::Fill(b.fill)) + change_if(a.fill_char != b.fill_char && b.fill_char is Some, *a, MuxBoxField::FillChar(b.fill_char->0)) + change_if(a.selected_fill_char != b.selected_fill_char && b.selected_fill_char is Some, *a, MuxBoxField::SelectedFillChar(b.selected_fill_char->0)) + change_if(a.border != b.border, *a, MuxBoxField::Border(b.border)) + change_if(text_of(a.border_color) != text_of(b.border_color) && b.border_color is Some, *a, MuxBoxField::BorderColor(b.border_color->0)) + change_if(text_of(a.selected_border_color) != text_of(b.selected_border_color) && b.selected_border_color is Some, *a, MuxBoxField::SelectedBorderColor(b.selected_border_color->0)) + change_if(text_of(a.bg_color) != text_of(b.bg_color) && b.bg_color is Some, *a, MuxBoxField::BgColor(b.bg_color->0)) + change_if(text_of(a.selected_bg_color) != text_of(b.selected_bg_color) && b.selected_bg_color is Some, *a, MuxBoxField::SelectedBgColor(b.selected_bg_color->0)), change_if(text_of(a.fg_color) != text_of(b.fg_color) && b.fg_color is Some, *a, MuxBoxField::FgColor(b.fg_color->0))); }
    let ghost g9 = out@;
    push_selected_fg_color(a, b, out);
    proof { lemma_extends_concat(start, g9, out@, change_if(a.fill != b.fill, *a, MuxBoxField::Fill(b.fill)) + change_if(a.fill_char != b.fill_char && b.fill_char is Some, *a, MuxBoxField::FillChar(b.fill_char->0)) + change_if(a.selected_fill_char != b.selected_fill_char && b.selected_fill_char is Some, *a, MuxBoxField::SelectedFillChar(b.selected_fill_char->0)) + change_if(a.border != b.border, *a, MuxBoxField::Border(b.border)) + change_if(text_of(a.border_color) != text_of(b.border_color) && b.border_color is Some, *a, MuxBoxField::BorderColor(b.border_color->0)) + change_if(text_of(a.selected_border_color) != text_of(b.selected_border_color) && b.selected_border_color is Some, *a, MuxBoxField::SelectedBorderColor(b.selected_border_color->0)) + change_if(text_of(a.bg_color) != text_of(b.bg_color) && b.bg_color is Some, *a, MuxBoxField::BgColor(b.bg_color->0)) + change_if(text_of(a.selected_bg_color) != text_of(b.selected_bg_color) && b.selected_bg_color is Some, *a, MuxBoxField::SelectedBgColor(b.selected_bg_color->0)) + change_if(text_of(a.fg_color) != text_of(b.fg_color) && b.fg_color is Some, *a, MuxBoxField::FgColor(b.fg_color->0)), change_if(text_of(a.selected_fg_color) != text_of(b.selected_fg_color) && b.selected_fg_color is Some, *a, MuxBoxField::SelectedFgColor(b.selected_fg_color->0))); }
    assert(diff_part2(*a, *b) == change_if(a.fill != b.fill, *a, MuxBoxField::Fill(b.fill)) + change_if(a.fill_char != b.fill_char && b.fill_char is Some, *a, MuxBoxField::FillChar(b.fill_char->0)) + change_if(a.selected_fill_char != b.selected_fill_char && b.selected_fill_char is Some, *a, MuxBoxField::SelectedFillChar(b.selected_fill_char->0)) + change_if(a.border != b.border, *a, MuxBoxField::Border(b.border)) + change_if(text_of(a.border_color) != text_of(b.border_color) && b.border_color is Some, *a, MuxBoxField::BorderColor(b.border_color->0)) + change_if(text_of(a.selected_border_color) != text_of(b.selected_border_color) && b.selected_border_color is Some, *a, MuxBoxField::SelectedBorderColor(b.selected_border_color->0)) + change_if(text_of(a.bg_color) != text_of(b.bg_color) && b.bg_color is Some, *a, MuxBoxField::BgColor(b.bg_color->0)) + change_if(text_of(a.selected_bg_color) != text_of(b.selected_bg_color) && b.selected_bg_color is Some, *a, MuxBoxField::SelectedBgColor(b.selected_bg_color->0)) + change_if(text_of(a.fg_color) != text_of(b.fg_color) && b.fg_color is Some, *a, MuxBoxField::FgColor(b.fg_color->0)) + change_if(text_of(a.selected_fg_color) != text_of(b.selected_fg_color) && b.selected_fg_color is Some, *a, MuxBoxField::SelectedFgColor(b.selected_fg_color->0)));
}

fn push_fill(a: &MuxBox, b: &MuxBox, out: &mut Vec<FieldChange>)
    ensures
        extends_like(final(out)@, old(out)@, change_if(a.fill != b.fill, *a, MuxBoxField::Fill(b.fill))),
{
    let ghost start = out@;
    let differs = match (a.fill, b.fill) {
        (Some(x), Some(y)) => x != y,
        (None, None) => false,
        _ => true,
    };
    if differs {
        out.push(box_change(a, MuxBoxField::Fill(b.fill)));
    }
    reveal(change_if);
    assert(extends_like(out@, start, change_if(a.fill != b.fill, *a, MuxBoxField::Fill(b.fill))));
}

fn push_fill_char(a: &MuxBox, b: &MuxBox, out: &mut Vec<FieldChange>)
    ensures
        extends_like(final(out)@, old(out)@, change_if(a.fill_char != b.fill_char && b.fill_char is Some, *a, MuxBoxField::FillChar(b.fill_char->0))),
{
    let ghost start = out@;
    match (a.fill_char, b.fill_char) {
        (Some(x), Some(y)) => {
            if x != y {
                out.push(box_change(a, MuxBoxField::FillChar(y)));
            }
        },
        (None, Some(y)) => {
            out.push(box_change(a, MuxBoxField::FillChar(y)));
        },
        _ => {},
    }
    reveal(change_if);
    assert(extends_like(out@, start, change_if(a.fill_char != b.fill_char && b.fill_char is Some, *a, MuxBoxField::FillChar(b.fill_char->0))));
}

fn push_selected_fill_char(a: &MuxBox, b: &MuxBox, out: &mut Vec<FieldChange>)
    ensures
        extends_like(final(out)@, old(out)@, change_if(a.selected_fill_char != b.selected_fill_char && b.selected_fill_char is Some, *a, MuxBoxField::SelectedFillChar(b.selected_fill_char->0))),
{
    let ghost start = out@;
    match (a.selected_fill_char, b.selected_fill_char) {
        (Some(x), Some(y)) => {
            if x != y {
                out.push(box_change(a, MuxBoxField::SelectedFillChar(y)));
            }
        },
        (None, Some(y)) => {
            out.push(box_change(a, MuxBoxField::SelectedFillChar(y)));
        },
        _ => {},
    }
    reveal(change_if);
    assert(extends_like(out@, start, change_if(a.selected_fill_char != b.selected_fill_char && b.selected_fill_char is Some, *a, MuxBoxField::SelectedFillChar(b.selected_fill_char->0))));
}

fn push_border(a: &MuxBox, b: &MuxBox, out: &mut Vec<FieldChange>)
    ensures
        extends_like(final(out)@, old(out)@, change_if(a.border != b.border, *a, MuxBoxField::Border(b.border))),
{
    let ghost start = out@;
    let differs = match (a.border, b.border) {
        (Some(x), Some(y)) => x != y,
        (None, None) => false,
        _ => true,
    };
    if differs {
        out.push(box_change(a, MuxBoxField::Border(b.border)));
    }
    reveal(change_if);
    assert(extends_like(out@, start, change_if(a.border != b.border, *a, MuxBoxField::Border(b.border))));
}

fn push_border_color(a: &MuxBox, b: &MuxBox, out: &mut Vec<FieldChange>)
    ensures
        extends_like(final(out)@, old(out)@, change_if(text_of(a.border_color) != text_of(b.border_color) && b.border_color is Some, *a, MuxBoxField::BorderColor(b.border_color->0))),
{
    let ghost start = out@;
    if !same_text(&a.border_color, &b.border_color) {
        if let Some(v) = &b.border_color {
            out.push(box_change(a, MuxBoxField::BorderColor(v.clone())));
        }
    }
    reveal(change_if);
    assert(extends_like(out@, start, change_if(text_of(a.border_color) != text_of(b.border_color) && b.border_color is Some, *a, MuxBoxField::BorderColor(b.border_color->0))));
}

fn push_selected_border_color(a: &MuxBox, b: &MuxBox, out: &mut Vec<FieldChange>)
    ensures
        extends_like(final(out)@, old(out)@, change_if(text_of(a.selected_border_color) != text_of(b.selected_border_color) && b.selected_border_color is Some, *a, MuxBoxField::SelectedBorderColor(b.selected_border_color->0))),
{
    let ghost start = out@;
    if !same_text(&a.selected_border_color, &b.selected_border_color) {
        if let Some(v) = &b.selected_border_color {
            out.push(box_change(a, MuxBoxField::SelectedBorderColor(v.clone())));
        }
    }
    reveal(change_if);
    assert(extends_like(out@, start, change_if(text_of(a.selected_border_color) != text_of(b.selected_border_color) && b.selected_border_color is Some, *a, MuxBoxField::SelectedBorderColor(b.selected_border_color->0))));
}

fn push_bg_color(a: &MuxBox, b: &MuxBox, out: &mut Vec<FieldChange>)
    ensures
        extends_like(final(out)@, old(out)@, change_if(text_of(a.bg_color) != text_of(b.bg_color) && b.bg_color is Some, *a, MuxBoxField::BgColor(b.bg_color->0))),
{
    let ghost start = out@;
    if !same_text(&a.bg_color, &b.bg_color) {
        if let Some(v) = &b.bg_color {
            out.push(box_change(a, MuxBoxField::BgColor(v.clone())));
        }
    }
    reveal(change_if);
    assert(extends_like(out@, start, change_if(text_of(a.bg_color) != text_of(b.bg_color) && b.bg_color is Some, *a, MuxBoxField::BgColor(b.bg_color->0))));
}

fn push_selected_bg_color(a: &MuxBox, b: &MuxBox, out: &mut Vec<FieldChange>)
    ensures
        extends_like(final(out)@, old(out)@, change_if(text_of(a.selected_bg_color) != text_of(b.selected_bg_color) && b.selected_bg_color is Some, *a, MuxBoxField::SelectedBgColor(b.selected_bg_color->0))),
{
    let ghost start = out@;
    if !same_text(&a.selected_bg_color, &b.selected_bg_color) {
        if let Some(v) = &b.selected_bg_color {
            out.push(box_change(a, MuxBoxField::SelectedBgColor(v.clone())));
        }
    }
    reveal(change_if);
    assert(extends_like(out@, start, change_if(text_of(a.selected_bg_color) != text_of(b.selected_bg_color) && b.selected_bg_color is Some, *a, MuxBoxField::SelectedBgColor(b.selected_bg_color->0))));
}

fn push_fg_color(a: &MuxBox, b: &MuxBox, out: &mut Vec<FieldChange>)
    ensures
        extends_like(final(out)@, old(out)@, change_if(text_of(a.fg_color) != text_of(b.fg_color) && b.fg_color is Some, *a, MuxBoxField::FgColor(b.fg_color->0))),
{
    let ghost start = out@;
    if !same_text(&a.fg_color, &b.fg_color) {
        if let Some(v) = &b.fg_color {
            out.push(box_change(a, MuxBoxField::FgColor(v.clone())));
        }
    }
    reveal(change_if);
    assert(extends_like(out@, start, change_if(text_of(a.fg_color) != text_of(b.fg_color) && b.fg_color is Some, *a, MuxBoxField::FgColor(b.fg_color->0))));
}

fn push_selected_fg_color(a: &MuxBox, b: &MuxBox, out: &mut Vec<FieldChange>)
    ensures
        extends_like(final(out)@, old(out)@, change_if(text_of(a.selected_fg_color) != text_of(b.selected_fg_color) && b.selected_fg_color is Some, *a, MuxBoxField::SelectedFgColor(b.selected_fg_color->0))),
{
    let ghost start = out@;
    if !same_text(&a.selected_fg_color, &b.selected_fg_color) {
        if let Some(v) = &b.selected_fg_color {
            out.push(box_change(a, MuxBoxField::SelectedFgColor(v.clone())));
        }
    }
    reveal(change_if);
    assert(extends_like(out@, start, change_if(text_of(a.selected_fg_color) != text_of(b.selected_fg_color) && b.selected_fg_color is Some, *a, MuxBoxField::SelectedFgColor(b.selected_fg_color->0))));
}

#[verifier::rlimit(60)]
fn push_part3(a: &MuxBox, b: &MuxBox, out: &mut Vec<FieldChange>)
    ensures
        extends_like(final(out)@, old(out)@, diff_part3(*a, *b)),
{
    let ghost start = out@;
    let ghost g0 = out@;
    push_title_fg_color(a, b, out);
    let ghost g1 = out@;
    push_title_bg_color(a, b, out);
    proof { lemma_extends_concat(start, g1, out@, change_if(text_of(a.title_fg_color) != text_of(b.title_fg_color) && b.title_fg_color is Some, *a, MuxBoxField::TitleFgColor(b.title_fg_color->0)), change_if(text_of(a.title_bg_color) != text_of(b.title_bg_color) && b.title_bg_color is Some, *a, MuxBoxField::TitleBgColor(b.title_bg_color->0))); }
    let ghost g2 = out@;
    push_selected_title_bg_color(a, b, out);
    proof { lemma_extends_concat(start, g2, out@, change_if(text_of(a.title_fg_color) != text_of(b.title_fg_color) && b.title_fg_color is Some, *a, MuxBoxField::TitleFgColor(b.title_fg_color->0)) + change_if(text_of(a.title_bg_color) != text_of(b.title_bg_color) && b.title_bg_color is Some, *a, MuxBoxField::TitleBgColor(b.title_bg_color->0)), change_if(text_of(a.selected_title_bg_color) != text_of(b.selected_title_bg_color) && b.selected_title_bg_color is Some, *a, MuxBoxField::SelectedTitleBgColor(b.selected_title_bg_color->0))); }
    let ghost g3 = out@;
    push_selected_title_fg_color(a, b, out);
    proof { lemma_extends_concat(start, g3, out@, change_if(text_of(a.title_fg_color) != text_of(b.title_fg_color) && b.title_fg_color is Some, *a, MuxBoxField::TitleFgColor(b.title_fg_color->0)) + change_if(text_of(a.title_bg_color) != text_of(b.title_bg_color) && b.title_bg_color is Some, *a, MuxBoxField::TitleBgColor(b.title_bg_color->0)) + change_if(text_of(a.selected_title_bg_color) != text_of(b.selected_title_bg_color) && b.selected_title_bg_color is Some, *a, MuxBoxField::SelectedTitleBgColor(b.selected_title_bg_color->0)), change_if(text_of(a.selected_title_fg_color) != text_of(b.selected_title_fg_color) && b.selected_title_fg_color is Some, *a, MuxBoxField::SelectedTitleFgColor(b.selected_title_fg_color->0))); }
    let ghost g4 = out@;
    push_title_position(a, b, out);
    proof { lemma_extends_concat(start, g4, out@, change_if(text_of(a.title_fg_color) != text_of(b.title_fg_color) && b.title_fg_color is Some, *a, MuxBoxField::TitleFgColor(b.title_fg_color->0)) + change_if(text_of(a.title_bg_color) != text_of(b.title_bg_color) && b.title_bg_color is Some, *a, MuxBoxField::TitleBgColor(b.title_bg_color->0)) + change_if(text_of(a.selected_title_bg_color) != text_of(b.selected_title_bg_color) && b.selected_title_bg_color is Some, *a, MuxBoxField::SelectedTitleBgColor(b.selected_title_bg_color->0)) + change_if(text_of(a.selected_title_fg_color) != text_of(b.selected_title_fg_color) && b.selected_title_fg_color is Some, *a, MuxBoxField::SelectedTitleFgColor(b.selected_title_fg_color->0)), change_if(text_of(a.title_position) != text_of(b.title_position) && b.title_position is Some, *a, MuxBoxField::TitlePosition(b.title_position->0))); }
    let ghost g5 = out@;
    push_error_state(a, b, out);
    proof { lemma_extends_concat(start, g5, out@, change_if(text_of(a.title_fg_color) != text_of(b.title_fg_color) && b.title_fg_color is Some, *a, MuxBoxField::TitleFgColor(b.title_fg_color->0)) + change_if(text_of(a.title_bg_color) != text_of(b.title_bg_color) && b.title_bg_color is Some, *a, MuxBoxField::TitleBgColor(b.title_bg_color->0)) + change_if(text_of(a.selected_title_bg_color) != text_of(b.selected_title_bg_color) && b.selected_title_bg_color is Some, *a, MuxBoxField::SelectedTitleBgColor(b.selected_title_bg_color->0)) + change_if(text_of(a.selected_title_fg_color) != text_of(b.selected_title_fg_color) && b.selected_title_fg_color is Some, *a, MuxBoxField::SelectedTitleFgColor(b.selected_title_fg_color->0)) + change_if(text_of(a.title_position) != text_of(b.title_position) && b.title_position is Some, *a, MuxBoxField::TitlePosition(b.title_position->0)), change_if(a.error_state != b.error_state, *a, MuxBoxField::ErrorState(b.error_state))); }
    let ghost g6 = out@;
    push_error_fg_color(a, b, out);
    proof { lemma_extends_concat(start, g6, out@, change_if(text_of(a.title_fg_color) != text_of(b.title_fg_color) && b.title_fg_color is Some, *a, MuxBoxField::TitleFgColor(b.title_fg_color->0)) + change_if(text_of(a.title_bg_color) != text_of(b.title_bg_color) && b.title_bg_color is Some, *a, MuxBoxField::TitleBgColor(b.title_bg_color->0)) + change_if(text_of(a.selected_title_bg_color) != text_of(b.selected_title_bg_color) && b.selected_title_bg_color is Some, *a, MuxBoxField::SelectedTitleBgColor(b.selected_title_bg_color->0)) + change_if(text_of(a.selected_title_fg_color) != text_of(b.selected_title_fg_color) && b.selected_title_fg_color is Some, *a, MuxBoxField::SelectedTitleFgColor(b.selected_title_fg_color->0)) + change_if(text_of(a.title_position) != text_of(b.title_position) && b.title_position is Some, *a, MuxBoxField::TitlePosition(b.title_position->0)) + change_if(a.error_state != b.error_state, *a, MuxBoxField::ErrorState(b.error_state)), change_if(text_of(a.error_fg_color) != text_of(b.error_fg_color) && b.error_fg_color is Some, *a, MuxBoxField::ErrorFgColor(b.error_fg_color->0))); }
    let ghost g7 = out@;
    push_error_bg_color(a, b, out);
    proof { lemma_extends_concat(start, g7, out@, change_if(text_of(a.title_fg_color) != text_of(b.title_fg_color) && b.title_fg_color is Some, *a, MuxBoxField::TitleFgColor(b.title_fg_color->0)) + change_if(text_of(a.title_bg_color) != text_of(b.title_bg_color) && b.title_bg_color is Some, *a, MuxBoxField::TitleBgColor(b.title_bg_color->0)) + change_if(text_of(a.selected_title_bg_color) != text_of(b.selected_title_bg_color) && b.selected_title_bg_color is Some, *a, MuxBoxField::SelectedTitleBgColor(b.selected_title_bg_color->0)) + change_if(text_of(a.selected_title_fg_color) != text_of(b.selected_title_fg_color) && b.selected_title_fg_color is Some, *a, MuxBoxField::SelectedTitleFgColor(b.selected_title_fg_color->0)) + change_if(text_of(a.title_position) != text_of(b.title_position) && b.title_position is Some, *a, MuxBoxField::TitlePosition(b.title_position->0)) + change_if(a.error_state != b.error_state, *a, MuxBoxField::ErrorState(b.error_state)) + change_if(text_of(a.error_fg_color) != text_of(b.error_fg_color) && b.error_fg_color is Some, *a, MuxBoxField::ErrorFgColor(b.error_fg_color->0)), change_if(text_of(a.error_bg_color) != text_of(b.error_bg_color) && b.error_bg_color is Some, *a, MuxBoxField::ErrorBgColor(b.error_bg_color->0))); }
    let ghost g8 = out@;
    push_error_title_fg_color(a, b, out);
    proof { lemma_extends_concat(start, g8, out@, change_if(text_of(a.title_fg_color) != text_of(b.title_fg_color) && b.title_fg_color is Some, *a, MuxBoxField::TitleFgColor(b.title_fg_color->0)) + change_if(text_of(a.title_bg_color) != text_of(b.title_bg_color) && b.title_bg_color is Some, *a, MuxBoxField::TitleBgColor(b.title_bg_color->0)) + change_if(text_of(a.selected_title_bg_color) != text_of(b.selected_title_bg_color) && b.selected_title_bg_color is Some, *a, MuxBoxField::SelectedTitleBgColor(b.selected_title_bg_color->0)) + change_if(text_of(a.selected_title_fg_color) != text_of(b.selected_title_fg_color) && b.selected_title_fg_color is Some, *a, MuxBoxField::SelectedTitleFgColor(b.selected_title_fg_color->0)) + change_if(text_of(a.title_position) != text_of(b.title_position) && b.title_position is Some, *a, MuxBoxField::TitlePosition(b.title_position->0)) + change_if(a.error_state != b.error_state, *a, MuxBoxField::ErrorState(b.error_state)) + change_if(text_of(a.error_fg_color) != text_of(b.error_fg_color) && b.error_fg_color is Some, *a, MuxBoxField::ErrorFgColor(b.error_fg_color->0)) + change_if(text_of(a.error_bg_color) != text_of(b.error_bg_color) && b.error_bg_color is Some, *a, MuxBoxField::ErrorBgColor(b.error_bg_color->0)), change_if(text_of(a.error_title_fg_color) != text_of(b.error_title_fg_color) && b.error_title_fg_color is Some, *a, MuxBoxField::ErrorTitleFgColor(b.error_title_fg_color->0))); }
    let ghost g9 = out@;
    push_error_title_bg_color(a, b, out);
    proof { lemma_extends_concat(start, g9, out@, change_if(text_of(a.title_fg_color) != text_of(b.title_fg_color) && b.title_fg_color is Some, *a, MuxBoxField::TitleFgColor(b.title_fg_color->0)) + change_if(text_of(a.title_bg_color) != text_of(b.title_bg_color) && b.title_bg_color is Some, *a, MuxBoxField::TitleBgColor(b.title_bg_color->0)) + change_if(text_of(a.selected_title_bg_color) != text_of(b.selected_title_bg_color) && b.selected_title_bg_color is Some, *a, MuxBoxField::SelectedTitleBgColor(b.selected_title_bg_color->0)) + change_if(text_of(a.selected_title_fg_color) != text_of(b.selected_title_fg_color) && b.selected_title_fg_color is Some, *a, MuxBoxField::SelectedTitleFgColor(b.selected_title_fg_color->0)) + change_if(text_of(a.title_position) != text_of(b.title_position) && b.title_position is Some, *a, MuxBoxField::TitlePosition(b.title_position->0)) + change_if(a.error_state != b.error_state, *a, MuxBoxField::ErrorState(b.error_state)) + change_if(text_of(a.error_fg_color) != text_of(b.error_fg_color) && b.error_fg_color is Some, *a, MuxBoxField::ErrorFgColor(b.error_fg_color->0)) + change_if(text_of(a.error_bg_color) != text_of(b.error_bg_color) && b.error_bg_color is Some, *a, MuxBoxField::ErrorBgColor(b.error_bg_color->0)) + change_if(text_of(a.error_title_fg_color) != text_of(b.error_title_fg_color) && b.error_title_fg_color is Some, *a, MuxBoxField::ErrorTitleFgColor(b.error_title_fg_color->0)), change_if(text_of(a.error_title_bg_color) != text_of(b.error_title_bg_color) && b.error_title_bg_color is Some, *a, MuxBoxField::ErrorTitleBgColor(b.error_title_bg_color->0))); }
    assert(diff_part3(*a, *b) == change_if(text_of(a.title_fg_color) != text_of(b.title_fg_color) && b.title_fg_color is Some, *a, MuxBoxField::TitleFgColor(b.title_fg_color->0)) + change_if(text_of(a.title_bg_color) != text_of(b.title_bg_color) && b.title_bg_color is Some, *a, MuxBoxField::TitleBgColor(b.title_bg_color->0)) + change_if(text_of(a.selected_title_bg_color) != text_of(b.selected_title_bg_color) && b.selected_title_bg_color is Some, *a, MuxBoxField::SelectedTitleBgColor(b.selected_title_bg_color->0)) + change_if(text_of(a.selected_title_fg_color) != text_of(b.selected_title_fg_color) && b.selected_title_fg_color is Some, *a, MuxBoxField::SelectedTitleFgColor(b.selected_title_fg_color->0)) + change_if(text_of(a.title_position) != text_of(b.title_position) && b.title_position is Some, *a, MuxBoxField::TitlePosition(b.title_position->0)) + change_if(a.error_state != b.error_state, *a, MuxBoxField::ErrorState(b.error_state)) + change_if(text_of(a.error_fg_color) != text_of(b.error_fg_color) && b.error_fg_color is Some, *a, MuxBoxField::ErrorFgColor(b.error_fg_color->0)) + change_if(text_of(a.error_bg_color) != text_of(b.error_bg_color) && b.error_bg_color is Some, *a, MuxBoxField::ErrorBgColor(b.error_bg_color->0)) + change_if(text_of(a.error_title_fg_color) != text_of(b.error_title_fg_color) && b.error_title_fg_color is Some, *a, MuxBoxField::ErrorTitleFgColor(b.error_title_fg_color->0)) + change_if(text_of(a.error_title_bg_color) != text_of(b.error_title_bg_color) && b.error_title_bg_color is Some, *a, MuxBoxField::ErrorTitleBgColor(b.error_title_bg_color->0)));
}

fn push_title_fg_color(a: &MuxBox, b: &MuxBox, out: &mut Vec<FieldChange>)
    ensures
        extends_like(final(out)@, old(out)@, change_if(text_of(a.title_fg_color) != text_of(b.title_fg_color) && b.title_fg_color is Some, *a, MuxBoxField::TitleFgColor(b.title_fg_color->0))),
{
    let ghost start = out@;
    if !same_text(&a.title_fg_color, &b.title_fg_color) {
        if let Some(v) = &b.title_fg_color {
            out.push(box_change(a, MuxBoxField::TitleFgColor(v.clone())));
        }
    }
    reveal(change_if);
    assert(extends_like(out@, start, change_if(text_of(a.title_fg_color) != text_of(b.title_fg_color) && b.title_fg_color is Some, *a, MuxBoxField::TitleFgColor(b.title_fg_color->0))));
}

fn push_title_bg_color(a: &MuxBox, b: &MuxBox, out: &mut Vec<FieldChange>)
    ensures
        extends_like(final(out)@, old(out)@, change_if(text_of(a.title_bg_color) != text_of(b.title_bg_color) && b.title_bg_color is Some, *a, MuxBoxField::TitleBgColor(b.title_bg_color->0))),
{
    let ghost start = out@;
    if !same_text(&a.title_bg_color, &b.title_bg_color) {
        if let Some(v) = &b.title_bg_color {
            out.push(box_change(a, MuxBoxField::TitleBgColor(v.clone())));
        }
    }
    reveal(change_if);
    assert(extends_like(out@, start, change_if(text_of(a.title_bg_color) != text_of(b.title_bg_color) && b.title_bg_color is Some, *a, MuxBoxField::TitleBgColor(b.title_bg_color->0))));
}

fn push_selected_title_bg_color(a: &MuxBox, b: &MuxBox, out: &mut Vec<FieldChange>)
    ensures
        extends_like(final(out)@, old(out)@, change_if(text_of(a.selected_title_bg_color) != text_of(b.selected_title_bg_color) && b.selected_title_bg_color is Some, *a, MuxBoxField::SelectedTitleBgColor(b.selected_title_bg_color->0))),
{
    let ghost start = out@;
    if !same_text(&a.selected_title_bg_color, &b.selected_title_bg_color) {
        if let Some(v) = &b.selected_title_bg_color {
            out.push(box_change(a, MuxBoxField::SelectedTitleBgColor(v.clone())));
        }
    }
    reveal(change_if);
    assert(extends_like(out@, start, change_if(text_of(a.selected_title_bg_color) != text_of(b.selected_title_bg_color) && b.selected_title_bg_color is Some, *a, MuxBoxField::SelectedTitleBgColor(b.selected_title_bg_color->0))));
}

fn push_selected_title_fg_color(a: &MuxBox, b: &MuxBox, out: &mut Vec<FieldChange>)
    ensures
        extends_like(final(out)@, old(out)@, change_if(text_of(a.selected_title_fg_color) != text_of(b.selected_title_fg_color) && b.selected_title_fg_color is Some, *a, MuxBoxField::SelectedTitleFgColor(b.selected_title_fg_color->0))),
{
    let ghost start = out@;
    if !same_text(&a.selected_title_fg_color, &b.selected_title_fg_color) {
        if let Some(v) = &b.selected_title_fg_color {
            out.push(box_change(a, MuxBoxField::SelectedTitleFgColor(v.clone())));
        }
    }
    reveal(change_if);
    assert(extends_like(out@, start, change_if(text_of(a.selected_title_fg_color) != text_of(b.selected_title_fg_color) && b.selected_title_fg_color is Some, *a, MuxBoxField::SelectedTitleFgColor(b.selected_title_fg_color->0))));
}

fn push_title_position(a: &MuxBox, b: &MuxBox, out: &mut Vec<FieldChange>)
    ensures
        extends_like(final(out)@, old(out)@, change_if(text_of(a.title_position) != text_of(b.title_position) && b.title_position is Some, *a, MuxBoxField::TitlePosition(b.title_position->0))),
{
    let ghost start = out@;
    if !same_text(&a.title_position, &b.title_position) {
        if let Some(v) = &b.title_position {
            out.push(box_change(a, MuxBoxField::TitlePosition(v.clone())));
        }
    }
    reveal(change_if);
    assert(extends_like(out@, start, change_if(text_of(a.title_position) != text_of(b.title_position) && b.title_position is Some, *a, MuxBoxField::TitlePosition(b.title_position->0))));
}

fn push_error_state(a: &MuxBox, b: &MuxBox, out: &mut Vec<FieldChange>)
    ensures
        extends_like(final(out)@, old(out)@, change_if(a.error_state != b.error_state, *a, MuxBoxField::ErrorState(b.error_state))),
{
    let ghost start = out@;
    if a.error_state != b.error_state {
        out.push(box_change(a, MuxBoxField::ErrorState(b.error_state)));
    }
    reveal(change_if);
    assert(extends_like(out@, start, change_if(a.error_state != b.error_state, *a, MuxBoxField::ErrorState(b.error_state))));
}

fn push_error_fg_color(a: &MuxBox, b: &MuxBox, out: &mut Vec<FieldChange>)
    ensures
        extends_like(final(out)@, old(out)@, change_if(text_of(a.error_fg_color) != text_of(b.error_fg_color) && b.error_fg_color is Some, *a, MuxBoxField::ErrorFgColor(b.error_fg_color->0))),
{
    let ghost start = out@;
    if !same_text(&a.error_fg_color, &b.error_fg_color) {
        if let Some(v) = &b.error_fg_color {
            out.push(box_change(a, MuxBoxField::ErrorFgColor(v.clone())));
        }
    }
    reveal(change_if);
    assert(extends_like(out@, start, change_if(text_of(a.error_fg_color) != text_of(b.error_fg_color) && b.error_fg_color is Some, *a, MuxBoxField::ErrorFgColor(b.error_fg_color->0))));
}

fn push_error_bg_color(a: &MuxBox, b: &MuxBox, out: &mut Vec<FieldChange>)
    ensures
        extends_like(final(out)@, old(out)@, change_if(text_of(a.error_bg_color) != text_of(b.error_bg_color) && b.error_bg_color is Some, *a, MuxBoxField::ErrorBgColor(b.error_bg_color->0))),
{
    let ghost start = out@;
    if !same_text(&a.error_bg_color, &b.error_bg_color) {
        if let Some(v) = &b.error_bg_color {
            out.push(box_change(a, MuxBoxField::ErrorBgColor(v.clone())));
        }
    }
    reveal(change_if);
    assert(extends_like(out@, start, change_if(text_of(a.error_bg_color) != text_of(b.error_bg_color) && b.error_bg_color is Some, *a, MuxBoxField::ErrorBgColor(b.error_bg_color->0))));
}

fn push_error_title_fg_color(a: &MuxBox, b: &MuxBox, out: &mut Vec<FieldChange>)
    ensures
        extends_like(final(out)@, old(out)@, change_if(text_of(a.error_title_fg_color) != text_of(b.error_title_fg_color) && b.error_title_fg_color is Some, *a, MuxBoxField::ErrorTitleFgColor(b.error_title_fg_color->0))),
{
    let ghost start = out@;
    if !same_text(&a.error_title_fg_color, &b.error_title_fg_color) {
        if let Some(v) = &b.error_title_fg_color {
            out.push(box_change(a, MuxBoxField::ErrorTitleFgColor(v.clone())));
        }
    }
    reveal(change_if);
    assert(extends_like(out@, start, change_if(text_of(a.error_title_fg_color) != text_of(b.error_title_fg_color) && b.error_title_fg_color is Some, *a, MuxBoxField::ErrorTitleFgColor(b.error_title_fg_color->0))));
}

fn push_error_title_bg_color(a: &MuxBox, b: &MuxBox, out: &mut Vec<FieldChange>)
    ensures
        extends_like(final(out)@, old(out)@, change_if(text_of(a.error_title_bg_color) != text_of(b.error_title_bg_color) && b.error_title_bg_color is Some, *a, MuxBoxField::ErrorTitleBgColor(b.error_title_bg_color->0))),
{
    let ghost start = out@;
    if !same_text(&a.error_title_bg_color, &b.error_title_bg_color) {
        if let Some(v) = &b.error_title_bg_color {
            out.push(box_change(a, MuxBoxField::ErrorTitleBgColor(v.clone())));
        }
    }
    reveal(change_if);
    assert(extends_like(out@, start, change_if(text_of(a.error_title_bg_color) != text_of(b.error_title_bg_color) && b.error_title_bg_color is Some, *a, MuxBoxField::ErrorTitleBgColor(b.error_title_bg_color->0))));
}

#[verifier::rlimit(60)]
fn push_part4(a: &MuxBox, b: &MuxBox, out: &mut Vec<FieldChange>)
    ensures
        extends_like(final(out)@, old(out)@, diff_part4(*a, *b)),
{
    let ghost start = out@;
    let ghost g0 = out@;
    push_error_border_color(a, b, out);
    let ghost g1 = out@;
    push_error_selected_bg_color(a, b, out);
    proof { lemma_extends_concat(start, g1, out@, change_if(text_of(a.error_border_color) != text_of(b.error_border_color) && b.error_border_color is Some, *a, MuxBoxField::ErrorBorderColor(b.error_border_color->0)), change_if(text_of(a.error_selected_bg_color) != text_of(b.error_selected_bg_color) && b.error_selected_bg_color is Some, *a, MuxBoxField::ErrorSelectedBgColor(b.error_selected_bg_color->0))); }
    let ghost g2 = out@;
    push_error_selected_fg_color(a, b, out);
    proof { lemma_extends_concat(start, g2, out@, change_if(text_of(a.error_border_color) != text_of(b.error_border_color) && b.error_border_color is Some, *a, MuxBoxField::ErrorBorderColor(b.error_border_color->0)) + change_if(text_of(a.error_selected_bg_color) != text_of(b.error_selected_bg_color) && b.error_selected_bg_color is Some, *a, MuxBoxField::ErrorSelectedBgColor(b.error_selected_bg_color->0)), change_if(text_of(a.error_selected_fg_color) != text_of(b.error_selected_fg_color) && b.error_selected_fg_color is Some, *a, MuxBoxField::ErrorSelectedFgColor(b.error_selected_fg_color->0))); }
    let ghost g3 = out@;
    push_error_selected_border_color(a, b, out);
    proof { lemma_extends_concat(start, g3, out@, change_if(text_of(a.error_border_color) != text_of(b.error_border_color) && b.error_border_color is Some, *a, MuxBoxField::ErrorBorderColor(b.error_border_color->0)) + change_if(text_of(a.error_selected_bg_color) != text_of(b.error_selected_bg_color) && b.error_selected_bg_color is Some, *a, MuxBoxField::ErrorSelectedBgColor(b.error_selected_bg_color->0)) + change_if(text_of(a.error_selected_fg_color) != text_of(b.error_selected_fg_color) && b.error_selected_fg_color is Some, *a, MuxBoxField::ErrorSelectedFgColor(b.error_selected_fg_color->0)), change_if(text_of(a.error_selected_border_color) != text_of(b.error_selected_border_color) && b.error_selected_border_color is Some, *a, MuxBoxField::ErrorSelectedBorderColor(b.error_selected_border_color->0))); }
    let ghost g4 = out@;
    push_error_selected_title_bg_color(a, b, out);
    proof { lemma_extends_concat(start, g4, out@, change_if(text_of(a.error_border_color) != text_of(b.error_border_color) && b.error_border_color is Some, *a, MuxBoxField::ErrorBorderColor(b.error_border_color->0)) + change_if(text_of(a.error_selected_bg_color) != text_of(b.error_selected_bg_color) && b.error_selected_bg_color is Some, *a, MuxBoxField::ErrorSelectedBgColor(b.error_selected_bg_color->0)) + change_if(text_of(a.error_selected_fg_color) != text_of(b.error_selected_fg_color) && b.error_selected_fg_color is Some, *a, MuxBoxField::ErrorSelectedFgColor(b.error_selected_fg_color->0)) + change_if(text_of(a.error_selected_border_color) != text_of(b.error_selected_border_color) && b.error_selected_border_color is Some, *a, MuxBoxField::ErrorSelectedBorderColor(b.error_selected_border_color->0)), change_if(text_of(a.error_selected_title_bg_color) != text_of(b.error_selected_title_bg_color) && b.error_selected_title_bg_color is Some, *a, MuxBoxField::ErrorSelectedTitleBgColor(b.error_selected_title_bg_color->0))); }
    let ghost g5 = out@;
    push_error_selected_title_fg_color(a, b, out);
    proof { lemma_extends_concat(start, g5, out@, change_if(text_of(a.error_border_color) != text_of(b.error_border_color) && b.error_border_color is Some, *a, MuxBoxField::ErrorBorderColor(b.error_border_color->0)) + change_if(text_of(a.error_selected_bg_color) != text_of(b.error_selected_bg_color) && b.error_selected_bg_color is Some, *a, MuxBoxField::ErrorSelectedBgColor(b.error_selected_bg_color->0)) + change_if(text_of(a.error_selected_fg_color) != text_of(b.error_selected_fg_color) && b.error_selected_fg_color is Some, *a, MuxBoxField::ErrorSelectedFgColor(b.error_selected_fg_color->0)) + change_if(text_of(a.error_selected_border_color) != text_of(b.error_selected_border_color) && b.error_selected_border_color is Some, *a, MuxBoxField::ErrorSelectedBorderColor(b.error_selected_border_color->0)) + change_if(text_of(a.error_selected_title_bg_color) != text_of(b.error_selected_title_bg_color) && b.error_selected_title_bg_color is Some, *a, MuxBoxField::ErrorSelectedTitleBgColor(b.error_selected_title_bg_color->0)), change_if(text_of(a.error_selected_title_fg_color) != text_of(b.error_selected_title_fg_color) && b.error_selected_title_fg_color is Some, *a, MuxBoxField::ErrorSelectedTitleFgColor(b.error_selected_title_fg_color->0))); }
    let ghost g6 = out@;
    push_choices(a, b, out);
    proof { lemma_extends_concat(start, g6, out@, change_if(text_of(a.error_border_color) != text_of(b.error_border_color) && b.error_border_color is Some, *a, MuxBoxField::ErrorBorderColor(b.error_border_color->0)) + change_if(text_of(a.error_selected_bg_color) != text_of(b.error_selected_bg_color) && b.error_selected_bg_color is Some, *a, MuxBoxField::ErrorSelectedBgColor(b.error_selected_bg_color->0)) + change_if(text_of(a.error_selected_fg_color) != text_of(b.error_selected_fg_color) && b.error_selected_fg_color is Some, *a, MuxBoxField::ErrorSelectedFgColor(b.error_selected_fg_color->0)) + change_if(text_of(a.error_selected_border_color) != text_of(b.error_selected_border_color) && b.error_selected_border_color is Some, *a, MuxBoxField::ErrorSelectedBorderColor(b.error_selected_border_color->0)) + change_if(text_of(a.error_selected_title_bg_color) != text_of(b.error_selected_title_bg_color) && b.error_selected_title_bg_color is Some, *a, MuxBoxField::ErrorSelectedTitleBgColor(b.error_selected_title_bg_color->0)) + change_if(text_of(a.error_selected_title_fg_color) != text_of(b.error_selected_title_fg_color) && b.error_selected_title_fg_color is Some, *a, MuxBoxField::ErrorSelectedTitleFgColor(b.error_selected_title_fg_color->0)), change_if(opt_choices(a.choices) != opt_choices(b.choices) && b.choices is Some, *a, MuxBoxField::Choices(b.choices->0))); }
    let ghost g7 = out@;
    push_menu_fg_color(a, b, out);
    proof { lemma_extends_concat(start, g7, out@, change_if(text_of(a.error_border_color) != text_of(b.error_border_color) && b.error_border_color is Some, *a, MuxBoxField::ErrorBorderColor(b.error_border_color->0)) + change_if(text_of(a.error_selected_bg_color) != text_of(b.error_selected_bg_color) && b.error_selected_bg_color is Some, *a, MuxBoxField::ErrorSelectedBgColor(b.error_selected_bg_color->0)) + change_if(text_of(a.error_selected_fg_color) != text_of(b.error_selected_fg_color) && b.error_selected_fg_color is Some, *a, MuxBoxField::ErrorSelectedFgColor(b.error_selected_fg_color->0)) + change_if(text_of(a.error_selected_border_color) != text_of(b.error_selected_border_color) && b.error_selected_border_color is Some, *a, MuxBoxField::ErrorSelectedBorderColor(b.error_selected_border_color->0)) + change_if(text_of(a.error_selected_title_bg_color) != text_of(b.error_selected_title_bg_color) && b.error_selected_title_bg_color is Some, *a, MuxBoxField::ErrorSelectedTitleBgColor(b.error_selected_title_bg_color->0)) + change_if(text_of(a.error_selected_title_fg_color) != text_of(b.error_selected_title_fg_color) && b.error_selected_title_fg_color is Some, *a, MuxBoxField::ErrorSelectedTitleFgColor(b.error_selected_title_fg_color->0)) + change_if(opt_choices(a.choices) != opt_choices(b.choices) && b.choices is Some, *a, MuxBoxField::Choices(b.choices->0)), change_if(text_of(a.menu_fg_color) != text_of(b.menu_fg_color) && b.menu_fg_color is Some, *a, MuxBoxField::MenuFgColor(b.menu_fg_color->0))); }
    let ghost g8 = out@;
    push_menu_bg_color(a, b, out);
    proof { lemma_extends_concat(start, g8, out@, change_if(text_of(a.error_border_color) != text_of(b.error_border_color) && b.error_border_color is Some, *a, MuxBoxField::ErrorBorderColor(b.error_border_color->0)) + change_if(text_of(a.error_selected_bg_color) != text_of(b.error_selected_bg_color) && b.error_selected_bg_color is Some, *a, MuxBoxField::ErrorSelectedBgColor(b.error_selected_bg_color->0)) + change_if(text_of(a.error_selected_fg_color) != text_of(b.error_selected_fg_color) && b.error_selected_fg_color is Some, *a, MuxBoxField::ErrorSelectedFgColor(b.error_selected_fg_color->0)) + change_if(text_of(a.error_selected_border_color) != text_of(b.error_selected_border_color) && b.error_selected_border_color is Some, *a, MuxBoxField::ErrorSelectedBorderColor(b.error_selected_border_color->0)) + change_if(text_of(a.error_selected_title_bg_color) != text_of(b.error_selected_title_bg_color) && b.error_selected_title_bg_color is Some, *a, MuxBoxField::ErrorSelectedTitleBgColor(b.error_selected_title_bg_color->0)) + change_if(text_of(a.error_selected_title_fg_color) != text_of(b.error_selected_title_fg_color) && b.error_selected_title_fg_color is Some, *a, MuxBoxField::ErrorSelectedTitleFgColor(b.error_selected_title_fg_color->0)) + change_if(opt_choices(a.choices) != opt_choices(b.choices) && b.choices is Some, *a, MuxBoxField::Choices(b.choices->0)) + change_if(text_of(a.menu_fg_color) != text_of(b.menu_fg_color) && b.menu_fg_color is Some, *a, MuxBoxField::MenuFgColor(b.menu_fg_color->0)), change_if(text_of(a.menu_bg_color) != text_of(b.menu_bg_color) && b.menu_bg_color is Some, *a, MuxBoxField::MenuBgColor(b.menu_bg_color->0))); }
    let ghost g9 = out@;
    push_selected_menu_fg_color(a, b, out);
    proof { lemma_extends_concat(start, g9, out@, change_if(text_of(a.error_border_color) != text_of(b.error_border_color) && b.error_border_color is Some, *a, MuxBoxField::ErrorBorderColor(b.error_border_color->0)) + change_if(text_of(a.error_selected_bg_color) != text_of(b.error_selected_bg_color) && b.error_selected_bg_color is Some, *a, MuxBoxField::ErrorSelectedBgColor(b.error_selected_bg_color->0)) + change_if(text_of(a.error_selected_fg_color) != text_of(b.error_selected_fg_color) && b.error_selected_fg_color is Some, *a, MuxBoxField::ErrorSelectedFgColor(b.error_selected_fg_color->0)) + change_if(text_of(a.error_selected_border_color) != text_of(b.error_selected_border_color) && b.error_selected_border_color is Some, *a, MuxBoxField::ErrorSelectedBorderColor(b.error_selected_border_color->0)) + change_if(text_of(a.error_selected_title_bg_color) != text_of(b.error_selected_title_bg_color) && b.error_selected_title_bg_color is Some, *a, MuxBoxField::ErrorSelectedTitleBgColor(b.error_selected_title_bg_color->0)) + change_if(text_of(a.error_selected_title_fg_color) != text_of(b.error_selected_title_fg_color) && b.error_selected_title_fg_color is Some, *a, MuxBoxField::ErrorSelectedTitleFgColor(b.error_selected_title_fg_color->0)) + change_if(opt_choices(a.choices) != opt_choices(b.choices) && b.choices is Some, *a, MuxBoxField::Choices(b.choices->0)) + change_if(text_of(a.menu_fg_color) != text_of(b.menu_fg_color) && b.menu_fg_color is Some, *a, MuxBoxField::MenuFgColor(b.menu_fg_color->0)) + change_if(text_of(a.menu_bg_color) != text_of(b.menu_bg_color) && b.menu_bg_color is Some, *a, MuxBoxField::MenuBgColor(b.menu_bg_color->0)), change_if(text_of(a.selected_menu_fg_color) != text_of(b.selected_menu_fg_color) && b.selected_menu_fg_color is Some, *a, MuxBoxField::SelectedMenuFgColor(b.selected_menu_fg_color->0))); }
    assert(diff_part4(*a, *b) == change_if(text_of(a.error_border_color) != text_of(b.error_border_color) && b.error_border_color is Some, *a, MuxBoxField::ErrorBorderColor(b.error_border_color->0)) + change_if(text_of(a.error_selected_bg_color) != text_of(b.error_selected_bg_color) && b.error_selected_bg_color is Some, *a, MuxBoxField::ErrorSelectedBgColor(b.error_selected_bg_color->0)) + change_if(text_of(a.error_selected_fg_color) != text_of(b.error_selected_fg_color) && b.error_selected_fg_color is Some, *a, MuxBoxField::ErrorSelectedFgColor(b.error_selected_fg_color->0)) + change_if(text_of(a.error_selected_border_color) != text_of(b.error_selected_border_color) && b.error_selected_border_color is Some, *a, MuxBoxField::ErrorSelectedBorderColor(b.error_selected_border_color->0)) + change_if(text_of(a.error_selected_title_bg_color) != text_of(b.error_selected_title_bg_color) && b.error_selected_title_bg_color is Some, *a, MuxBoxField::ErrorSelectedTitleBgColor(b.error_selected_title_bg_color->0)) + change_if(text_of(a.error_selected_title_fg_color) != text_of(b.error_selected_title_fg_color) && b.error_selected_title_fg_color is Some, *a, MuxBoxField::ErrorSelectedTitleFgColor(b.error_selected_title_fg_color->0)) + change_if(opt_choices(a.choices) != opt_choices(b.choices) && b.choices is Some, *a, MuxBoxField::Choices(b.choices->0)) + change_if(text_of(a.menu_fg_color) != text_of(b.menu_fg_color) && b.menu_fg_color is Some, *a, MuxBoxField::MenuFgColor(b.menu_fg_color->0)) + change_if(text_of(a.menu_bg_color) != text_of(b.menu_bg_color) && b.menu_bg_color is Some, *a, MuxBoxField::MenuBgColor(b.menu_bg_color->0)) + change_if(text_of(a.selected_menu_fg_color) != text_of(b.selected_menu_fg_color) && b.selected_menu_fg_color is Some, *a, MuxBoxField::SelectedMenuFgColor(b.selected_menu_fg_color->0)));
}

fn push_error_border_color(a: &MuxBox, b: &MuxBox, out: &mut Vec<FieldChange>)
    ensures
        extends_like(final(out)@, old(out)@, change_if(text_of(a.error_border_color) != text_of(b.error_border_color) && b.error_border_color is Some, *a, MuxBoxField::ErrorBorderColor(b.error_border_color->0))),
{
    let ghost start = out@;
    if !same_text(&a.error_border_color, &b.error_border_color) {
        if let Some(v) = &b.error_border_color {
            out.push(box_change(a, MuxBoxField::ErrorBorderColor(v.clone())));
        }
    }
    reveal(change_if);
    assert(extends_like(out@, start, change_if(text_of(a.error_border_color) != text_of(b.error_border_color) && b.error_border_color is Some, *a, MuxBoxField::ErrorBorderColor(b.error_border_color->0))));
}

fn push_error_selected_bg_color(a: &MuxBox, b: &MuxBox, out: &mut Vec<FieldChange>)
    ensures
        extends_like(final(out)@, old(out)@, change_if(text_of(a.error_selected_bg_color) != text_of(b.error_selected_bg_color) && b.error_selected_bg_color is Some, *a, MuxBoxField::ErrorSelectedBgColor(b.error_selected_bg_color->0))),
{
    let ghost start = out@;
    if !same_text(&a.error_selected_bg_color, &b.error_selected_bg_color) {
        if let Some(v) = &b.error_selected_bg_color {
            out.push(box_change(a, MuxBoxField::ErrorSelectedBgColor(v.clone())));
        }
    }
    reveal(change_if);
    assert(extends_like(out@, start, change_if(text_of(a.error_selected_bg_color) != text_of(b.error_selected_bg_color) && b.error_selected_bg_color is Some, *a, MuxBoxField::ErrorSelectedBgColor(b.error_selected_bg_color->0))));
}

fn push_error_selected_fg_color(a: &MuxBox, b: &MuxBox, out: &mut Vec<FieldChange>)
    ensures
        extends_like(final(out)@, old(out)@, change_if(text_of(a.error_selected_fg_color) != text_of(b.error_selected_fg_color) && b.error_selected_fg_color is Some, *a, MuxBoxField::ErrorSelectedFgColor(b.error_selected_fg_color->0))),
{
    let ghost start = out@;
    if !same_text(&a.error_selected_fg_color, &b.error_selected_fg_color) {
        if let Some(v) = &b.error_selected_fg_color {
            out.push(box_change(a, MuxBoxField::ErrorSelectedFgColor(v.clone())));
        }
    }
    reveal(change_if);
    assert(extends_like(out@, start, change_if(text_of(a.error_selected_fg_color) != text_of(b.error_selected_fg_color) && b.error_selected_fg_color is Some, *a, MuxBoxField::ErrorSelectedFgColor(b.error_selected_fg_color->0))));
}

fn push_error_selected_border_color(a: &MuxBox, b: &MuxBox, out: &mut Vec<FieldChange>)
    ensures
        extends_like(final(out)@, old(out)@, change_if(text_of(a.error_selected_border_color) != text_of(b.error_selected_border_color) && b.error_selected_border_color is Some, *a, MuxBoxField::ErrorSelectedBorderColor(b.error_selected_border_color->0))),
{
    let ghost start = out@;
    if !same_text(&a.error_selected_border_color, &b.error_selected_border_color) {
        if let Some(v) = &b.error_selected_border_color {
            out.push(box_change(a, MuxBoxField::ErrorSelectedBorderColor(v.clone())));
        }
    }
    reveal(change_if);
    assert(extends_like(out@, start, change_if(text_of(a.error_selected_border_color) != text_of(b.error_selected_border_color) && b.error_selected_border_color is Some, *a, MuxBoxField::ErrorSelectedBorderColor(b.error_selected_border_color->0))));
}

fn push_error_selected_title_bg_color(a: &MuxBox, b: &MuxBox, out: &mut Vec<FieldChange>)
    ensures
        extends_like(final(out)@, old(out)@, change_if(text_of(a.error_selected_title_bg_color) != text_of(b.error_selected_title_bg_color) && b.error_selected_title_bg_color is Some, *a, MuxBoxField::ErrorSelectedTitleBgColor(b.error_selected_title_bg_color->0))),
{
    let ghost start = out@;
    if !same_text(&a.error_selected_title_bg_color, &b.error_selected_title_bg_color) {
        if let Some(v) = &b.error_selected_title_bg_color {
            out.push(box_change(a, MuxBoxField::ErrorSelectedTitleBgColor(v.clone())));
        }
    }
    reveal(change_if);
    assert(extends_like(out@, start, change_if(text_of(a.error_selected_title_bg_color) != text_of(b.error_selected_title_bg_color) && b.error_selected_title_bg_color is Some, *a, MuxBoxField::ErrorSelectedTitleBgColor(b.error_selected_title_bg_color->0))));
}

fn push_error_selected_title_fg_color(a: &MuxBox, b: &MuxBox, out: &mut Vec<FieldChange>)
    ensures
        extends_like(final(out)@, old(out)@, change_if(text_of(a.error_selected_title_fg_color) != text_of(b.error_selected_title_fg_color) && b.error_selected_title_fg_color is Some, *a, MuxBoxField::ErrorSelectedTitleFgColor(b.error_selected_title_fg_color->0))),
{
    let ghost start = out@;
    if !same_text(&a.error_selected_title_fg_color, &b.error_selected_title_fg_color) {
        if let Some(v) = &b.error_selected_title_fg_color {
            out.push(box_change(a, MuxBoxField::ErrorSelectedTitleFgColor(v.clone())));
        }
    }
    reveal(change_if);
    assert(extends_like(out@, start, change_if(text_of(a.error_selected_title_fg_color) != text_of(b.error_selected_title_fg_color) && b.error_selected_title_fg_color is Some, *a, MuxBoxField::ErrorSelectedTitleFgColor(b.error_selected_title_fg_color->0))));
}

fn push_choices(a: &MuxBox, b: &MuxBox, out: &mut Vec<FieldChange>)
    ensures
        extends_like(final(out)@, old(out)@, change_if(opt_choices(a.choices) != opt_choices(b.choices) && b.choices is Some, *a, MuxBoxField::Choices(b.choices->0))),
{
    let ghost start = out@;
    if !same_opt_choices(&a.choices, &b.choices) {
        if let Some(v) = &b.choices {
            out.push(box_change(a, MuxBoxField::Choices(copy_choices(v))));
        }
    }
    reveal(change_if);
    assert(extends_like(out@, start, change_if(opt_choices(a.choices) != opt_choices(b.choices) && b.choices is Some, *a, MuxBoxField::Choices(b.choices->0))));
}

fn push_menu_fg_color(a: &MuxBox, b: &MuxBox, out: &mut Vec<FieldChange>)
    ensures
        extends_like(final(out)@, old(out)@, change_if(text_of(a.menu_fg_color) != text_of(b.menu_fg_color) && b.menu_fg_color is Some, *a, MuxBoxField::MenuFgColor(b.menu_fg_color->0))),
{
    let ghost start = out@;
    if !same_text(&a.menu_fg_color, &b.menu_fg_color) {
        if let Some(v) = &b.menu_fg_color {
            out.push(box_change(a, MuxBoxField::MenuFgColor(v.clone())));
        }
    }
    reveal(change_if);
    assert(extends_like(out@, start, change_if(text_of(a.menu_fg_color) != text_of(b.menu_fg_color) && b.menu_fg_color is Some, *a, MuxBoxField::MenuFgColor(b.menu_fg_color->0))));
}

fn push_menu_bg_color(a: &MuxBox, b: &MuxBox, out: &mut Vec<FieldChange>)
    ensures
        extends_like(final(out)@, old(out)@, change_if(text_of(a.menu_bg_color) != text_of(b.menu_bg_color) && b.menu_bg_color is Some, *a, MuxBoxField::MenuBgColor(b.menu_bg_color->0))),
{
    let ghost start = out@;
    if !same_text(&a.menu_bg_color, &b.menu_bg_color) {
        if let Some(v) = &b.menu_bg_color {
            out.push(box_change(a, MuxBoxField::MenuBgColor(v.clone())));
        }
    }
    reveal(change_if);
    assert(extends_like(out@, start, change_if(text_of(a.menu_bg_color) != text_of(b.menu_bg_color) && b.menu_bg_color is Some, *a, MuxBoxField::MenuBgColor(b.menu_bg_color->0))));
}

fn push_selected_menu_fg_color(a: &MuxBox, b: &MuxBox, out: &mut Vec<FieldChange>)
    ensures
        extends_like(final(out)@, old(out)@, change_if(text_of(a.selected_menu_fg_color) != text_of(b.selected_menu_fg_color) && b.selected_menu_fg_color is Some, *a, MuxBoxField::SelectedMenuFgColor(b.selected_menu_fg_color->0))),
{
    let ghost start = out@;
    if !same_text(&a.selected_menu_fg_color, &b.selected_menu_fg_color) {
        if let Some(v) = &b.selected_menu_fg_color {
            out.push(box_change(a, MuxBoxField::SelectedMenuFgColor(v.clone())));
        }
    }
    reveal(change_if);
    assert(extends_like(out@, start, change_if(text_of(a.selected_menu_fg_color) != text_of(b.selected_menu_fg_color) && b.selected_menu_fg_color is Some, *a, MuxBoxField::SelectedMenuFgColor(b.selected_menu_fg_color->0))));
}

#[verifier::rlimit(60)]
fn push_part5(a: &MuxBox, b: &MuxBox, out: &mut Vec<FieldChange>)
    ensures
        extends_like(final(out)@, old(out)@, diff_part5(*a, *b)),
{
    let ghost start = out@;
    let ghost g0 = out@;
    push_selected_menu_bg_color(a, b, out);
    let ghost g1 = out@;
    push_redirect_output(a, b, out);
    proof { lemma_extends_concat(start, g1, out@, change_if(text_of(a.selected_menu_bg_color) != text_of(b.selected_menu_bg_color) && b.selected_menu_bg_color is Some, *a, MuxBoxField::SelectedMenuBgColor(b.selected_menu_bg_color->0)), change_if(text_of(a.redirect_output) != text_of(b.redirect_output) && b.redirect_output is Some, *a, MuxBoxField::RedirectOutput(b.redirect_output->0))); }
    let ghost g2 = out@;
    push_script(a, b, out);
    proof { lemma_extends_concat(start, g2, out@, change_if(text_of(a.selected_menu_bg_color) != text_of(b.selected_menu_bg_color) && b.selected_menu_bg_color is Some, *a, MuxBoxField::SelectedMenuBgColor(b.selected_menu_bg_color->0)) + change_if(text_of(a.redirect_output) != text_of(b.redirect_output) && b.redirect_output is Some, *a, MuxBoxField::RedirectOutput(b.redirect_output->0)), change_if(opt_lines(a.script) != opt_lines(b.script) && b.script is Some, *a, MuxBoxField::Script(b.script->0))); }
    let ghost g3 = out@;
    push_on_keypress(a, b, out);
    proof { lemma_extends_concat(start, g3, out@, change_if(text_of(a.selected_menu_bg_color) != text_of(b.selected_menu_bg_color) && b.selected_menu_bg_color is Some, *a, MuxBoxField::SelectedMenuBgColor(b.selected_menu_bg_color->0)) + change_if(text_of(a.redirect_output) != text_of(b.redirect_output) && b.redirect_output is Some, *a, MuxBoxField::RedirectOutput(b.redirect_output->0)) + change_if(opt_lines(a.script) != opt_lines(b.script) && b.script is Some, *a, MuxBoxField::Script(b.script->0)), change_if(opt_keys(a.on_keypress) != opt_keys(b.on_keypress) && b.on_keypress is Some, *a, MuxBoxField::OnKeypress(b.on_keypress->0))); }
    let ghost g4 = out@;
    push_selected(a, b, out);
    proof { lemma_extends_concat(start, g4, out@, change_if(text_of(a.selected_menu_bg_color) != text_of(b.selected_menu_bg_color) && b.selected_menu_bg_color is Some, *a, MuxBoxField::SelectedMenuBgColor(b.selected_menu_bg_color->0)) + change_if(text_of(a.redirect_output) != text_of(b.redirect_output) && b.redirect_output is Some, *a, MuxBoxField::RedirectOutput(b.redirect_output->0)) + change_if(opt_lines(a.script) != opt_lines(b.script) && b.script is Some, *a, MuxBoxField::Script(b.script->0)) + change_if(opt_keys(a.on_keypress) != opt_keys(b.on_keypress) && b.on_keypress is Some, *a, MuxBoxField::OnKeypress(b.on_keypress->0)), change_if(a.selected != b.selected && b.selected is Some, *a, MuxBoxField::Selected(b.selected->0))); }
    let ghost g5 = out@;
    push_content(a, b, out);
    proof { lemma_extends_concat(start, g5, out@, change_if(text_of(a.selected_menu_bg_color) != text_of(b.selected_menu_bg_color) && b.selected_menu_bg_color is Some, *a, MuxBoxField::SelectedMenuBgColor(b.selected_menu_bg_color->0)) + change_if(text_of(a.redirect_output) != text_of(b.redirect_output) && b.redirect_output is Some, *a, MuxBoxField::RedirectOutput(b.redirect_output->0)) + change_if(opt_lines(a.script) != opt_lines(b.script) && b.script is Some, *a, MuxBoxField::Script(b.script->0)) + change_if(opt_keys(a.on_keypress) != opt_keys(b.on_keypress) && b.on_keypress is Some, *a, MuxBoxField::OnKeypress(b.on_keypress->0)) + change_if(a.selected != b.selected && b.selected is Some, *a, MuxBoxField::Selected(b.selected->0)), change_if(text_of(a.content) != text_of(b.content) && b.content is Some, *a, MuxBoxField::Content(b.content->0))); }
    let ghost g6 = out@;
    push_output(a, b, out);
    proof { lemma_extends_concat(start, g6, out@, change_if(text_of(a.selected_menu_bg_color) != text_of(b.selected_menu_bg_color) && b.selected_menu_bg_color is Some, *a, MuxBoxField::SelectedMenuBgColor(b.selected_menu_bg_color->0)) + change_if(text_of(a.redirect_output) != text_of(b.redirect_output) && b.redirect_output is Some, *a, MuxBoxField::RedirectOutput(b.redirect_output->0)) + change_if(opt_lines(a.script) != opt_lines(b.script) && b.script is Some, *a, MuxBoxField::Script(b.script->0)) + change_if(opt_keys(a.on_keypress) != opt_keys(b.on_keypress) && b.on_keypress is Some, *a, MuxBoxField::OnKeypress(b.on_keypress->0)) + change_if(a.selected != b.selected && b.selected is Some, *a, MuxBoxField::Selected(b.selected->0)) + change_if(text_of(a.content) != text_of(b.content) && b.content is Some, *a, MuxBoxField::Content(b.content->0)), change_if(a.output@ != b.output@, *a, MuxBoxField::Output(b.output))); }
    let ghost g7 = out@;
    push_parent_id(a, b, out);
    proof { lemma_extends_concat(start, g7, out@, change_if(text_of(a.selected_menu_bg_color) != text_of(b.selected_menu_bg_color) && b.selected_menu_bg_color is Some, *a, MuxBoxField::SelectedMenuBgColor(b.selected_menu_bg_color->0)) + change_if(text_of(a.redirect_output) != text_of(b.redirect_output) && b.redirect_output is Some, *a, MuxBoxField::RedirectOutput(b.redirect_output->0)) + change_if(opt_lines(a.script) != opt_lines(b.script) && b.script is Some, *a, MuxBoxField::Script(b.script->0)) + change_if(opt_keys(a.on_keypress) != opt_keys(b.on_keypress) && b.on_keypress is Some, *a, MuxBoxField::OnKeypress(b.on_keypress->0)) + change_if(a.selected != b.selected && b.selected is Some, *a, MuxBoxField::Selected(b.selected->0)) + change_if(text_of(a.content) != text_of(b.content) && b.content is Some, *a, MuxBoxField::Content(b.content->0)) + change_if(a.output@ != b.output@, *a, MuxBoxField::Output(b.output)), change_if(text_of(a.parent_id) != text_of(b.parent_id) && b.parent_id is Some, *a, MuxBoxField::ParentId(b.parent_id->0))); }
    let ghost g8 = out@;
    push_parent_layout_id(a, b, out);
    proof { lemma_extends_concat(start, g8, out@, change_if(text_of(a.selected_menu_bg_color) != text_of(b.selected_menu_bg_color) && b.selected_menu_bg_color is Some, *a, MuxBoxField::SelectedMenuBgColor(b.selected_menu_bg_color->0)) + change_if(text_of(a.redirect_output) != text_of(b.redirect_output) && b.redirect_output is Some, *a, MuxBoxField::RedirectOutput(b.redirect_output->0)) + change_if(opt_lines(a.script) != opt_lines(b.script) && b.script is Some, *a, MuxBoxField::Script(b.script->0)) + change_if(opt_keys(a.on_keypress) != opt_keys(b.on_keypress) && b.on_keypress is Some, *a, MuxBoxField::OnKeypress(b.on_keypress->0)) + change_if(a.selected != b.selected && b.selected is Some, *a, MuxBoxField::Selected(b.selected->0)) + change_if(text_of(a.content) != text_of(b.content) && b.content is Some, *a, MuxBoxField::Content(b.content->0)) + change_if(a.output@ != b.output@, *a, MuxBoxField::Output(b.output)) + change_if(text_of(a.parent_id) != text_of(b.parent_id) && b.parent_id is Some, *a, MuxBoxField::ParentId(b.parent_id->0)), change_if(text_of(a.parent_layout_id) != text_of(b.parent_layout_id) && b.parent_layout_id is Some, *a, MuxBoxField::ParentLayoutId(b.parent_layout_id->0))); }
    assert(diff_part5(*a, *b) == change_if(text_of(a.selected_menu_bg_color) != text_of(b.selected_menu_bg_color) && b.selected_menu_bg_color is Some, *a, MuxBoxField::SelectedMenuBgColor(b.selected_menu_bg_color->0)) + change_if(text_of(a.redirect_output) != text_of(b.redirect_output) && b.redirect_output is Some, *a, MuxBoxField::RedirectOutput(b.redirect_output->0)) + change_if(opt_lines(a.script) != opt_lines(b.script) && b.script is Some, *a, MuxBoxField::Script(b.script->0)) + change_if(opt_keys(a.on_keypress) != opt_keys(b.on_keypress) && b.on_keypress is Some, *a, MuxBoxField::OnKeypress(b.on_keypress->0)) + change_if(a.selected != b.selected && b.selected is Some, *a, MuxBoxField::Selected(b.selected->0)) + change_if(text_of(a.content) != text_of(b.content) && b.content is Some, *a, MuxBoxField::Content(b.content->0)) + change_if(a.output@ != b.output@, *a, MuxBoxField::Output(b.output)) + change_if(text_of(a.parent_id) != text_of(b.parent_id) && b.parent_id is Some, *a, MuxBoxField::ParentId(b.parent_id->0)) + change_if(text_of(a.parent_layout_id) != text_of(b.parent_layout_id) && b.parent_layout_id is Some, *a, MuxBoxField::ParentLayoutId(b.parent_layout_id->0)));
}

fn push_selected_menu_bg_color(a: &MuxBox, b: &MuxBox, out: &mut Vec<FieldChange>)
    ensures
        extends_like(final(out)@, old(out)@, change_if(text_of(a.selected_menu_bg_color) != text_of(b.selected_menu_bg_color) && b.selected_menu_bg_color is Some, *a, MuxBoxField::SelectedMenuBgColor(b.selected_menu_bg_color->0))),
{
    let ghost start = out@;
    if !same_text(&a.selected_menu_bg_color, &b.selected_menu_bg_color) {
        if let Some(v) = &b.selected_menu_bg_color {
            out.push(box_change(a, MuxBoxField::SelectedMenuBgColor(v.clone())));
        }
    }
    reveal(change_if);
    assert(extends_like(out@, start, change_if(text_of(a.selected_menu_bg_color) != text_of(b.selected_menu_bg_color) && b.selected_menu_bg_color is Some, *a, MuxBoxField::SelectedMenuBgColor(b.selected_menu_bg_color->0))));
}

fn push_redirect_output(a: &MuxBox, b: &MuxBox, out: &mut Vec<FieldChange>)
    ensures
        extends_like(final(out)@, old(out)@, change_if(text_of(a.redirect_output) != text_of(b.redirect_output) && b.redirect_output is Some, *a, MuxBoxField::RedirectOutput(b.redirect_output->0))),
{
    let ghost start = out@;
    if !same_text(&a.redirect_output, &b.redirect_output) {
        if let Some(v) = &b.redirect_output {
            out.push(box_change(a, MuxBoxField::RedirectOutput(v.clone())));
        }
    }
    reveal(change_if);
    assert(extends_like(out@, start, change_if(text_of(a.redirect_output) != text_of(b.redirect_output) && b.redirect_output is Some, *a, MuxBoxField::RedirectOutput(b.redirect_output->0))));
}

fn push_script(a: &MuxBox, b: &MuxBox, out: &mut Vec<FieldChange>)
    ensures
        extends_like(final(out)@, old(out)@, change_if(opt_lines(a.script) != opt_lines(b.script) && b.script is Some, *a, MuxBoxField::Script(b.script->0))),
{
    let ghost start = out@;
    if !same_opt_lines(&a.script, &b.script) {
        if let Some(v) = &b.script {
            out.push(box_change(a, MuxBoxField::Script(copy_lines(v))));
        }
    }
    reveal(change_if);
    assert(extends_like(out@, start, change_if(opt_lines(a.script) != opt_lines(b.script) && b.script is Some, *a, MuxBoxField::Script(b.script->0))));
}

fn push_on_keypress(a: &MuxBox, b: &MuxBox, out: &mut Vec<FieldChange>)
    ensures
        extends_like(final(out)@, old(out)@, change_if(opt_keys(a.on_keypress) != opt_keys(b.on_keypress) && b.on_keypress is Some, *a, MuxBoxField::OnKeypress(b.on_keypress->0))),
{
    let ghost start = out@;
    if !same_opt_keys(&a.on_keypress, &b.on_keypress) {
        if let Some(v) = &b.on_keypress {
            out.push(box_change(a, MuxBoxField::OnKeypress(copy_keys(v))));
        }
    }
    reveal(change_if);
    assert(extends_like(out@, start, change_if(opt_keys(a.on_keypress) != opt_keys(b.on_keypress) && b.on_keypress is Some, *a, MuxBoxField::OnKeypress(b.on_keypress->0))));
}

fn push_selected(a: &MuxBox, b: &MuxBox, out: &mut Vec<FieldChange>)
    ensures
        extends_like(final(out)@, old(out)@, change_if(a.selected != b.selected && b.selected is Some, *a, MuxBoxField::Selected(b.selected->0))),
{
    let ghost start = out@;
    match (a.selected, b.selected) {
        (Some(x), Some(y)) => {
            if x != y {
                out.push(box_change(a, MuxBoxField::Selected(y)));
            }
        },
        (None, Some(y)) => {
            out.push(box_change(a, MuxBoxField::Selected(y)));
        },
        _ => {},
    }
    reveal(change_if);
    assert(extends_like(out@, start, change_if(a.selected != b.selected && b.selected is Some, *a, MuxBoxField::Selected(b.selected->0))));
}

fn push_content(a: &MuxBox, b: &MuxBox, out: &mut Vec<FieldChange>)
    ensures
        extends_like(final(out)@, old(out)@, change_if(text_of(a.content) != text_of(b.content) && b.content is Some, *a, MuxBoxField::Content(b.content->0))),
{
    let ghost start = out@;
    if !same_text(&a.content, &b.content) {
        if let Some(v) = &b.content {
            out.push(box_change(a, MuxBoxField::Content(v.clone())));
        }
    }
    reveal(change_if);
    assert(extends_like(out@, start, change_if(text_of(a.content) != text_of(b.content) && b.content is Some, *a, MuxBoxField::Content(b.content->0))));
}

fn push_output(a: &MuxBox, b: &MuxBox, out: &mut Vec<FieldChange>)
    ensures
        extends_like(final(out)@, old(out)@, change_if(a.output@ != b.output@, *a, MuxBoxField::Output(b.output))),
{
    let ghost start = out@;
    if !same_string(&a.output, &b.output) {
        out.push(box_change(a, MuxBoxField::Output(b.output.clone())));
    }
    reveal(change_if);
    assert(extends_like(out@, start, change_if(a.output@ != b.output@, *a, MuxBoxField::Output(b.output))));
}

fn push_parent_id(a: &MuxBox, b: &MuxBox, out: &mut Vec<FieldChange>)
    ensures
        extends_like(final(out)@, old(out)@, change_if(text_of(a.parent_id) != text_of(b.parent_id) && b.parent_id is Some, *a, MuxBoxField::ParentId(b.parent_id->0))),
{
    let ghost start = out@;
    if !same_text(&a.parent_id, &b.parent_id) {
        if let Some(v) = &b.parent_id {
            out.push(box_change(a, MuxBoxField::ParentId(v.clone())));
        }
    }
    reveal(change_if);
    assert(extends_like(out@, start, change_if(text_of(a.parent_id) != text_of(b.parent_id) && b.parent_id is Some, *a, MuxBoxField::ParentId(b.parent_id->0))));
}

fn push_parent_layout_id(a: &MuxBox, b: &MuxBox, out: &mut Vec<FieldChange>)
    ensures
        extends_like(final(out)@, old(out)@, change_if(text_of(a.parent_layout_id) != text_of(b.parent_layout_id) && b.parent_layout_id is Some, *a, MuxBoxField::ParentLayoutId(b.parent_layout_id->0))),
{
    let ghost start = out@;
    if !same_text(&a.parent_layout_id, &b.parent_layout_id) {
        if let Some(v) = &b.parent_layout_id {
            out.push(box_change(a, MuxBoxField::ParentLayoutId(v.clone())));
        }
    }
    reveal(change_if);
    assert(extends_like(out@, start, change_if(text_of(a.parent_layout_id) != text_of(b.parent_layout_id) && b.parent_layout_id is Some, *a, MuxBoxField::ParentLayoutId(b.parent_layout_id->0))));
}

/// The changes that turn box `a` into box `b` (see `spec_muxbox_diff`); a
/// value that is a list, and an added child, is handed over as a copy with
/// the same items.
pub fn muxbox_diff(a: &MuxBox, b: &MuxBox) -> (r: Vec<FieldChange>)
    ensures
        same_changes(r@, spec_muxbox_diff(*a, *b)),
{
    let mut out: Vec<FieldChange> = Vec::new();
    push_box_diff(a, b, &mut out);
    proof {
        let d = spec_muxbox_diff(*a, *b);
        assert forall|i: int| 0 <= i < out@.len() implies same_change(#[trigger] out@[i], d[i]) by {
            assert(same_change(out@[0 + i], d[i]));
        }
    }
    out
}

pub(crate) fn push_box_diff(a: &MuxBox, b: &MuxBox, out: &mut Vec<FieldChange>)
    ensures
        extends_like(final(out)@, old(out)@, spec_muxbox_diff(*a, *b)),
    decreases *a, 0nat, 0nat,
{
    let ghost start = out@;
    push_part1(a, b, out);
    let ghost g1 = out@;
    push_matched_diff(&a.children, &b.children, out);
    proof {
        lemma_extends_concat(start, g1, out@, diff_part1(*a, *b), matched_diff(a.children@, b.children@));
    }
    let ghost g2 = out@;
    push_added_children(&a.children, &b.children, out);
    proof {
        lemma_extends_concat(start, g2, out@, diff_part1(*a, *b) + matched_diff(a.children@, b.children@), added_children(a.children@, b.children@));
    }
    let ghost g3 = out@;
    push_removed_children(&a.children, &b.children, out);
    proof {
        lemma_extends_concat(start, g3, out@, diff_part1(*a, *b) + matched_diff(a.children@, b.children@) + added_children(a.children@, b.children@), removed_children(a.children@, b.children@));
    }
    let ghost h1 = out@;
    push_part2(a, b, out);
    proof { lemma_extends_concat(start, h1, out@, diff_part1(*a, *b) + matched_diff(a.children@, b.children@) + added_children(a.children@, b.children@) + removed_children(a.children@, b.children@), diff_part2(*a, *b)); }
    let ghost h2 = out@;
    push_part3(a, b, out);
    proof { lemma_extends_concat(start, h2, out@, diff_part1(*a, *b) + matched_diff(a.children@, b.children@) + added_children(a.children@, b.children@) + removed_children(a.children@, b.children@) + diff_part2(*a, *b), diff_part3(*a, *b)); }
    let ghost h3 = out@;
    push_part4(a, b, out);
    proof { lemma_extends_concat(start, h3, out@, diff_part1(*a, *b) + matched_diff(a.children@, b.children@) + added_children(a.children@, b.children@) + removed_children(a.children@, b.children@) + diff_part2(*a, *b) + diff_part3(*a, *b), diff_part4(*a, *b)); }
    let ghost h4 = out@;
    push_part5(a, b, out);
    proof { lemma_extends_concat(start, h4, out@, diff_part1(*a, *b) + matched_diff(a.children@, b.children@) + added_children(a.children@, b.children@) + removed_children(a.children@, b.children@) + diff_part2(*a, *b) + diff_part3(*a, *b) + diff_part4(*a, *b), diff_part5(*a, *b)); }
    assert(spec_muxbox_diff(*a, *b) == diff_part1(*a, *b) + matched_diff(a.children@, b.children@) + added_children(a.children@, b.children@) + removed_children(a.children@, b.children@) + diff_part2(*a, *b) + diff_part3(*a, *b) + diff_part4(*a, *b) + diff_part5(*a, *b));
}

pub(crate) fn push_matched_diff(sa: &Vec<MuxBox>, sb: &Vec<MuxBox>, out: &mut Vec<FieldChange>)
    ensures
        extends_like(final(out)@, old(out)@, matched_diff(sa@, sb@)),
    decreases sa@, 0nat, 0nat,
{
    let ghost start = out@;
    proof {
        lemma_extends_empty(start);
        assert(matched_diff(sa@.take(0), sb@) == Seq::<FieldChange>::empty());
    }
    let mut i: usize = 0;
    while i < sa.len()
        invariant
            i <= sa@.len(),
            extends_like(out@, start, matched_diff(sa@.take(i as int), sb@)),
        decreases sa@.len() - i,
    {
        let ghost g = out@;
        push_matches_diff(&sa[i], sb, out);
        proof {
            lemma_extends_concat(start, g, out@, matched_diff(sa@.take(i as int), sb@), matches_diff(sa@[i as int], sb@));
            let t = sa@.take(i + 1);
            assert(t.drop_last() =~= sa@.take(i as int));
            assert(t[t.len() - 1] == sa@[i as int]);
        }
        i = i + 1;
    }
    assert(sa@.take(sa@.len() as int) =~= sa@);
}

fn push_matches_diff(x: &MuxBox, sb: &Vec<MuxBox>, out: &mut Vec<FieldChange>)
    ensures
        extends_like(final(out)@, old(out)@, matches_diff(*x, sb@)),
    decreases *x, 1nat, sb@.len(),
{
    let ghost start = out@;
    proof {
        lemma_extends_empty(start);
        assert(matches_diff(*x, sb@.take(0)) == Seq::<FieldChange>::empty());
    }
    let mut j: usize = 0;
    while j < sb.len()
        invariant
            j <= sb@.len(),
            extends_like(out@, start, matches_diff(*x, sb@.take(j as int))),
        decreases sb@.len() - j,
    {
        let ghost g = out@;
        let same = same_string(&x.id, &sb[j].id);
        if same {
            push_box_diff(x, &sb[j], out);
        } else {
            proof {
                lemma_extends_empty(g);
            }
        }
        proof {
            let piece = if x.id@ == sb@[j as int].id@ { spec_muxbox_diff(*x, sb@[j as int]) } else { Seq::<FieldChange>::empty() };
            lemma_extends_concat(start, g, out@, matches_diff(*x, sb@.take(j as int)), piece);
            let t = sb@.take(j + 1);
            assert(t.drop_last() =~= sb@.take(j as int));
            assert(t[t.len() - 1] == sb@[j as int]);
        }
        j = j + 1;
    }
    assert(sb@.take(sb@.len() as int) =~= sb@);
}

pub(crate) fn push_added_children(sa: &Vec<MuxBox>, sb: &Vec<MuxBox>, out: &mut Vec<FieldChange>)
    ensures
        extends_like(final(out)@, old(out)@, added_children(sa@, sb@)),
{
    let ghost start = out@;
    let ghost add = added_children(sa@, sb@);
    let mut k: usize = sa.len();
    while k < sb.len()
        invariant
            sa@.len() <= k,
            sb@.len() <= sa@.len() ==> k == sa@.len(),
            sa@.len() < sb@.len() ==> k <= sb@.len(),
            add == added_children(sa@, sb@),
            out@.len() == start.len() + (k - sa@.len()),
            forall|i: int| 0 <= i < start.len() ==> #[trigger] out@[i] == start[i],
            forall|t: int| 0 <= t < k - sa@.len() ==> same_change(out@[start.len() + t], #[trigger] add[t]),
        decreases sb@.len() - k,
    {
        let c = FieldChange { entity: EntityType::MuxBox, entity_id: Some(sb[k].id.clone()), field: MuxBoxField::ChildAdded(copy_box(&sb[k])) };
        out.push(c);
        proof {
            let t = (k - sa@.len()) as int;
            assert(add[t] == (FieldChange { entity: EntityType::MuxBox, entity_id: Some(sb@[k as int].id), field: MuxBoxField::ChildAdded(sb@[k as int]) }));
        }
        k = k + 1;
    }
    proof {
        assert(add.len() == if sb@.len() > sa@.len() { sb@.len() - sa@.len() } else { 0 });
    }
}

pub(crate) fn push_removed_children(sa: &Vec<MuxBox>, sb: &Vec<MuxBox>, out: &mut Vec<FieldChange>)
    ensures
        extends_like(final(out)@, old(out)@, removed_children(sa@, sb@)),
{
    let ghost start = out@;
    let ghost rem = removed_children(sa@, sb@);
    let mut k: usize = sb.len();
    while k < sa.len()
        invariant
            sb@.len() <= k,
            sa@.len() <= sb@.len() ==> k == sb@.len(),
            sb@.len() < sa@.len() ==> k <= sa@.len(),
            rem == removed_children(sa@, sb@),
            out@.len() == start.len() + (k - sb@.len()),
            forall|i: int| 0 <= i < start.len() ==> #[trigger] out@[i] == start[i],
            forall|t: int| 0 <= t < k - sb@.len() ==> same_change(out@[start.len() + t], #[trigger] rem[t]),
        decreases sa@.len() - k,
    {
        let c = FieldChange { entity: EntityType::MuxBox, entity_id: Some(sa[k].id.clone()), field: MuxBoxField::ChildRemoved };
        out.push(c);
        proof {
            let t = (k - sb@.len()) as int;
            assert(rem[t] == c);
        }
        k = k + 1;
    }
    proof {
        assert(rem.len() == if sa@.len() > sb@.len() { sa@.len() - sb@.len() } else { 0 });
    }
}

/// Sets the field that a change names.
fn set_field(m: &mut MuxBox, f: MuxBoxField)
    ensures
        *final(m) == with_field(*old(m), f),
{
    match f {
        MuxBoxField::Title(v) => {
            m.title = Some(v);
        },
        MuxBoxField::Position(v) => {
            m.position = v;
        },
        MuxBoxField::Anchor(v) => {
            m.anchor = v;
        },
        MuxBoxField::MinHeight(v) => {
            m.min_height = Some(v);
        },
        MuxBoxField::MinWidth(v) => {
            m.min_width = Some(v);
        },
        MuxBoxField::MaxHeight(v) => {
            m.max_height = Some(v);
        },
        MuxBoxField::MaxWidth(v) => {
            m.max_width = Some(v);
        },
        MuxBoxField::OverflowBehavior(v) => {
            m.overflow_behavior = Some(v);
        },
        MuxBoxField::RefreshInterval(v) => {
            m.refresh_interval = Some(v);
        },
        MuxBoxField::TabOrder(v) => {
            m.tab_order = Some(v);
        },
        MuxBoxField::NextFocusId(v) => {
            m.next_focus_id = Some(v);
        },
        MuxBoxField::Fill(v) => {
            m.fill = v;
        },
        MuxBoxField::FillChar(v) => {
            m.fill_char = Some(v);
        },
        MuxBoxField::SelectedFillChar(v) => {
            m.selected_fill_char = Some(v);
        },
        MuxBoxField::Border(v) => {
            m.border = v;
        },
        MuxBoxField::BorderColor(v) => {
            m.border_color = Some(v);
        },
        MuxBoxField::SelectedBorderColor(v) => {
            m.selected_border_color = Some(v);
        },
        MuxBoxField::BgColor(v) => {
            m.bg_color = Some(v);
        },
        MuxBoxField::SelectedBgColor(v) => {
            m.selected_bg_color = Some(v);
        },
        MuxBoxField::FgColor(v) => {
            m.fg_color = Some(v);
        },
        MuxBoxField::SelectedFgColor(v) => {
            m.selected_fg_color = Some(v);
        },
        MuxBoxField::TitleFgColor(v) => {
            m.title_fg_color = Some(v);
        },
        MuxBoxField::TitleBgColor(v) => {
            m.title_bg_color = Some(v);
        },
        MuxBoxField::SelectedTitleBgColor(v) => {
            m.selected_title_bg_color = Some(v);
        },
        MuxBoxField::SelectedTitleFgColor(v) => {
            m.selected_title_fg_color = Some(v);
        },
        MuxBoxField::TitlePosition(v) => {
            m.title_position = Some(v);
        },
        MuxBoxField::ErrorState(v) => {
            m.error_state = v;
        },
        MuxBoxField::ErrorFgColor(v) => {
            m.error_fg_color = Some(v);
        },
        MuxBoxField::ErrorBgColor(v) => {
            m.error_bg_color = Some(v);
        },
        MuxBoxField::ErrorTitleFgColor(v) => {
            m.error_title_fg_color = Some(v);
        },
        MuxBoxField::ErrorTitleBgColor(v) => {
            m.error_title_bg_color = Some(v);
        },
        MuxBoxField::ErrorBorderColor(v) => {
            m.error_border_color = Some(v);
        },
        MuxBoxField::ErrorSelectedBgColor(v) => {
            m.error_selected_bg_color = Some(v);
        },
        MuxBoxField::ErrorSelectedFgColor(v) => {
            m.error_selected_fg_color = Some(v);
        },
        MuxBoxField::ErrorSelectedBorderColor(v) => {
            m.error_selected_border_color = Some(v);
        },
        MuxBoxField::ErrorSelectedTitleBgColor(v) => {
            m.error_selected_title_bg_color = Some(v);
        },
        MuxBoxField::ErrorSelectedTitleFgColor(v) => {
            m.error_selected_title_fg_color = Some(v);
        },
        MuxBoxField::Choices(v) => {
            m.choices = Some(v);
        },
        MuxBoxField::MenuFgColor(v) => {
            m.menu_fg_color = Some(v);
        },
        MuxBoxField::MenuBgColor(v) => {
            m.menu_bg_color = Some(v);
        },
        MuxBoxField::SelectedMenuFgColor(v) => {
            m.selected_menu_fg_color = Some(v);
        },
        MuxBoxField::SelectedMenuBgColor(v) => {
            m.selected_menu_bg_color = Some(v);
        },
        MuxBoxField::RedirectOutput(v) => {
            m.redirect_output = Some(v);
        },
        MuxBoxField::Script(v) => {
            m.script = Some(v);
        },
        MuxBoxField::OnKeypress(_) => {},
        MuxBoxField::Selected(v) => {
            m.selected = Some(v);
        },
        MuxBoxField::Content(v) => {
            m.content = Some(v);
        },
        MuxBoxField::Output(v) => {
            m.output = v;
        },
        MuxBoxField::ParentId(v) => {
            m.parent_id = Some(v);
        },
        MuxBoxField::ParentLayoutId(v) => {
            m.parent_layout_id = Some(v);
        },
        MuxBoxField::AutoScrollBottom(v) => {
            m.auto_scroll_bottom = Some(v);
        },
        MuxBoxField::ChildAdded(_) => {},
        MuxBoxField::ChildRemoved => {},
    }
}

/// Two boxes that hold the same: equal fields, lists with the same items,
/// and children that hold the same, one by one.
pub open spec fn same_box(x: MuxBox, y: MuxBox) -> bool
    decreases x, 0int, 0int,
{
    &&& x.id == y.id
    &&& x.position == y.position
    &&& x.anchor == y.anchor
    &&& x.min_width == y.min_width
    &&& x.min_height == y.min_height
    &&& x.max_width == y.max_width
    &&& x.max_height == y.max_height
    &&& x.z_index == y.z_index
    &&& x.selected == y.selected
    &&& x.tab_order == y.tab_order
    &&& x.title == y.title
    &&& x.content == y.content
    &&& opt_lines(x.script) == opt_lines(y.script)
    &&& x.redirect_output == y.redirect_output
    &&& opt_choices(x.choices) == opt_choices(y.choices)
    &&& opt_vars(x.variables) == opt_vars(y.variables)
    &&& x.children@.len() == y.children@.len()
    &&& same_kids(x.children@, y.children@, 0)
    &&& x.overflow_behavior == y.overflow_behavior
    &&& x.refresh_interval == y.refresh_interval
    &&& x.next_focus_id == y.next_focus_id
    &&& x.fill == y.fill
    &&& x.fill_char == y.fill_char
    &&& x.selected_fill_char == y.selected_fill_char
    &&& x.border == y.border
    &&& x.border_color == y.border_color
    &&& x.selected_border_color == y.selected_border_color
    &&& x.bg_color == y.bg_color
    &&& x.selected_bg_color == y.selected_bg_color
    &&& x.fg_color == y.fg_color
    &&& x.selected_fg_color == y.selected_fg_color
    &&& x.title_fg_color == y.title_fg_color
    &&& x.title_bg_color == y.title_bg_color
    &&& x.selected_title_bg_color == y.selected_title_bg_color
    &&& x.selected_title_fg_color == y.selected_title_fg_color
    &&& x.title_position == y.title_position
    &&& x.error_state == y.error_state
    &&& x.error_fg_color == y.error_fg_color
    &&& x.error_bg_color == y.error_bg_color
    &&& x.error_title_fg_color == y.error_title_fg_color
    &&& x.error_title_bg_color == y.error_title_bg_color
    &&& x.error_border_color == y.error_border_color
    &&& x.error_selected_bg_color == y.error_selected_bg_color
    &&& x.error_selected_fg_color == y.error_selected_fg_color
    &&& x.error_selected_border_color == y.error_selected_border_color
    &&& x.error_selected_title_bg_color == y.error_selected_title_bg_color
    &&& x.error_selected_title_fg_color == y.error_selected_title_fg_color
    &&& x.menu_fg_color == y.menu_fg_color
    &&& x.menu_bg_color == y.menu_bg_color
    &&& x.selected_menu_fg_color == y.selected_menu_fg_color
    &&& x.selected_menu_bg_color == y.selected_menu_bg_color
    &&& x.output == y.output
    &&& x.parent_id == y.parent_id
    &&& x.parent_layout_id == y.parent_layout_id
    &&& x.auto_scroll_bottom == y.auto_scroll_bottom
    &&& opt_pairs(x.on_keypress) == opt_pairs(y.on_keypress)
}

/// Boxes `i` and on of `xs` hold the same as those of `ys`.
pub open spec fn same_kids(xs: Seq<MuxBox>, ys: Seq<MuxBox>, i: int) -> bool
    decreases xs, 0int, xs.len() - i,
{
    if 0 <= i < xs.len() {
        &&& same_box(xs[i], ys[i])
        &&& same_kids(xs, ys, i + 1)
    } else {
        true
    }
}

proof fn lemma_same_kids(xs: Seq<MuxBox>, ys: Seq<MuxBox>, i: int)
    requires
        0 <= i <= xs.len(),
        forall|k: int| i <= k < xs.len() ==> same_box(#[trigger] xs[k], ys[k]),
    ensures
        same_kids(xs, ys, i),
    decreases xs.len() - i,
{
    if i < xs.len() {
        lemma_same_kids(xs, ys, i + 1);
    }
}

/// A copy of a box that holds the same.
pub(crate) fn copy_box(m: &MuxBox) -> (r: MuxBox)
    ensures
        same_box(r, *m),
    decreases *m, 0int,
{
    proof {
        assert(decreases_to!(*m => m.children@));
    }
    MuxBox {
        id: m.id.clone(),
        position: copy_position(&m.position),
        anchor: m.anchor,
        min_width: m.min_width,
        min_height: m.min_height,
        max_width: m.max_width,
        max_height: m.max_height,
        z_index: m.z_index,
        selected: m.selected,
        tab_order: copy_text(&m.tab_order),
        title: copy_text(&m.title),
        content: copy_text(&m.content),
        script: copy_opt_lines(&m.script),
        redirect_output: copy_text(&m.redirect_output),
        choices: copy_opt_choices(&m.choices),
        variables: copy_opt_vars(&m.variables),
        children: copy_kids(&m.children),
        overflow_behavior: copy_text(&m.overflow_behavior),
        refresh_interval: m.refresh_interval,
        next_focus_id: copy_text(&m.next_focus_id),
        fill: m.fill,
        fill_char: m.fill_char,
        selected_fill_char: m.selected_fill_char,
        border: m.border,
        border_color: copy_text(&m.border_color),
        selected_border_color: copy_text(&m.selected_border_color),
        bg_color: copy_text(&m.bg_color),
        selected_bg_color: copy_text(&m.selected_bg_color),
        fg_color: copy_text(&m.fg_color),
        selected_fg_color: copy_text(&m.selected_fg_color),
        title_fg_color: copy_text(&m.title_fg_color),
        title_bg_color: copy_text(&m.title_bg_color),
        selected_title_bg_color: copy_text(&m.selected_title_bg_color),
        selected_title_fg_color: copy_text(&m.selected_title_fg_color),
        title_position: copy_text(&m.title_position),
        error_state: m.error_state,
        error_fg_color: copy_text(&m.error_fg_color),
        error_bg_color: copy_text(&m.error_bg_color),
        error_title_fg_color: copy_text(&m.error_title_fg_color),
        error_title_bg_color: copy_text(&m.error_title_bg_color),
        error_border_color: copy_text(&m.error_border_color),
        error_selected_bg_color: copy_text(&m.error_selected_bg_color),
        error_selected_fg_color: copy_text(&m.error_selected_fg_color),
        error_selected_border_color: copy_text(&m.error_selected_border_color),
        error_selected_title_bg_color: copy_text(&m.error_selected_title_bg_color),
        error_selected_title_fg_color: copy_text(&m.error_selected_title_fg_color),
        menu_fg_color: copy_text(&m.menu_fg_color),
        menu_bg_color: copy_text(&m.menu_bg_color),
        selected_menu_fg_color: copy_text(&m.selected_menu_fg_color),
        selected_menu_bg_color: copy_text(&m.selected_menu_bg_color),
        output: m.output.clone(),
        parent_id: copy_text(&m.parent_id),
        parent_layout_id: copy_text(&m.parent_layout_id),
        auto_scroll_bottom: m.auto_scroll_bottom,
        on_keypress: copy_opt_keys(&m.on_keypress),
    }
}

fn copy_kids(v: &Vec<MuxBox>) -> (r: Vec<MuxBox>)
    ensures
        r@.len() == v@.len(),
        same_kids(r@, v@, 0),
    decreases v@, 0int,
{
    let mut out: Vec<MuxBox> = Vec::new();
    let mut i: usize = 0;
    while i < v.len()
        invariant
            i <= v@.len(),
            out@.len() == i,
            forall|t: int| 0 <= t < i ==> same_box(#[trigger] out@[t], v@[t]),
        decreases v@.len() - i,
    {
        proof {
            assert(decreases_to!(v@ => v@[i as int]));
        }
        out.push(copy_box(&v[i]));
        i = i + 1;
    }
    proof {
        lemma_same_kids(out@, v@, 0);
    }
    out
}
/// Whether `k` is the first box of `kids` with id `id`.
pub open spec fn first_with_id(kids: Seq<MuxBox>, id: Seq<char>, k: int) -> bool {
    &&& 0 <= k < kids.len()
    &&& kids[k].id@ == id
    &&& forall|j: int| 0 <= j < k ==> kids[j].id@ != id
}

/// Whether change `c` goes on to child `k`: it is addressed to a box, and the
/// first child with the id it carries is the `k`-th.
pub open spec fn routes_to(kids: Seq<MuxBox>, k: int, c: FieldChange) -> bool {
    c.entity == EntityType::MuxBox && c.entity_id is Some && first_with_id(kids, (c.entity_id->0)@, k)
}

/// The changes that go on to child `k`, in order.
pub open spec fn routed(kids: Seq<MuxBox>, k: int, cs: Seq<FieldChange>) -> Seq<FieldChange>
    decreases cs.len(),
{
    if cs.len() == 0 {
        Seq::empty()
    } else {
        routed(kids, k, cs.drop_last()) + if routes_to(kids, k, cs.last()) {
            seq![cs.last()]
        } else {
            Seq::empty()
        }
    }
}

/// Whether the changes remove a child: a box that receives such a change
/// drops all its children.
pub open spec fn removes_children(cs: Seq<FieldChange>) -> bool {
    exists|i: int| 0 <= i < cs.len() && cs[i].entity == EntityType::MuxBox && cs[i].field is ChildRemoved
}

/// `after` is `before` with the changes applied: its own fields as
/// `spec_apply` sets them (whatever id a change carries); no children when a
/// change removes a child; otherwise each child with the changes whose id it
/// is the first child to bear (as copies that say the same), applied in the
/// same way.
pub open spec fn tree_applied(before: MuxBox, after: MuxBox, cs: Seq<FieldChange>) -> bool
    decreases before, 1int, 0int,
{
    &&& after == MuxBox { children: after.children, ..spec_apply(before, cs) }
    &&& if removes_children(cs) {
        after.children@.len() == 0
    } else {
        &&& after.children@.len() == before.children@.len()
        &&& kids_applied(before.children@, after.children@, cs, 0)
    }
}

/// Children `i` and on of `ak` are those of `bk` with the changes routed to
/// them applied.
pub open spec fn kids_applied(bk: Seq<MuxBox>, ak: Seq<MuxBox>, cs: Seq<FieldChange>, i: int) -> bool
    decreases bk, 0int, bk.len() - i,
{
    if 0 <= i < bk.len() {
        &&& kid_applied(bk[i], ak[i], routed(bk, i, cs))
        &&& kids_applied(bk, ak, cs, i + 1)
    } else {
        true
    }
}

/// `after` is `before` with changes applied that say what `cs` says.
pub open spec fn kid_applied(before: MuxBox, after: MuxBox, cs: Seq<FieldChange>) -> bool
    decreases before, 2int, 0int,
{
    exists|rc: Seq<FieldChange>| same_changes(rc, cs) && tree_applied(before, after, rc)
}

proof fn lemma_kids_applied(bk: Seq<MuxBox>, ak: Seq<MuxBox>, cs: Seq<FieldChange>, i: int)
    requires
        0 <= i <= bk.len(),
        forall|k: int| i <= k < bk.len() ==> kid_applied(bk[k], #[trigger] ak[k], routed(bk, k, cs)),
    ensures
        kids_applied(bk, ak, cs, i),
    decreases bk.len() - i,
{
    if i < bk.len() {
        lemma_kids_applied(bk, ak, cs, i + 1);
    }
}

proof fn lemma_with_field_keeps_children(m1: MuxBox, m2: MuxBox, f: MuxBoxField)
    requires
        m2 == (MuxBox { children: m2.children, ..m1 }),
    ensures
        with_field(m2, f) == (MuxBox { children: m2.children, ..with_field(m1, f) }),
{
}

proof fn lemma_apply_keeps_children(m1: MuxBox, m2: MuxBox, cs: Seq<FieldChange>)
    requires
        m2 == (MuxBox { children: m2.children, ..m1 }),
    ensures
        spec_apply(m2, cs) == (MuxBox { children: m2.children, ..spec_apply(m1, cs) }),
    decreases cs.len(),
{
    if cs.len() > 0 {
        if cs[0].entity == EntityType::MuxBox {
            lemma_with_field_keeps_children(m1, m2, cs[0].field);
            lemma_apply_keeps_children(with_field(m1, cs[0].field), with_field(m2, cs[0].field), cs.drop_first());
        } else {
            lemma_apply_keeps_children(m1, m2, cs.drop_first());
        }
    }
}

fn copy_field(f: &MuxBoxField) -> (r: MuxBoxField)
    ensures
        same_field(r, *f),
{
    match f {
        MuxBoxField::Title(v) => MuxBoxField::Title(v.clone()),
        MuxBoxField::Position(v) => MuxBoxField::Position(copy_position(v)),
        MuxBoxField::Anchor(v) => MuxBoxField::Anchor(*v),
        MuxBoxField::MinHeight(v) => MuxBoxField::MinHeight(*v),
        MuxBoxField::MinWidth(v) => MuxBoxField::MinWidth(*v),
        MuxBoxField::MaxHeight(v) => MuxBoxField::MaxHeight(*v),
        MuxBoxField::MaxWidth(v) => MuxBoxField::MaxWidth(*v),
        MuxBoxField::OverflowBehavior(v) => MuxBoxField::OverflowBehavior(v.clone()),
        MuxBoxField::RefreshInterval(v) => MuxBoxField::RefreshInterval(*v),
        MuxBoxField::TabOrder(v) => MuxBoxField::TabOrder(v.clone()),
        MuxBoxField::NextFocusId(v) => MuxBoxField::NextFocusId(v.clone()),
        MuxBoxField::Fill(v) => MuxBoxField::Fill(*v),
        MuxBoxField::FillChar(v) => MuxBoxField::FillChar(*v),
        MuxBoxField::SelectedFillChar(v) => MuxBoxField::SelectedFillChar(*v),
        MuxBoxField::Border(v) => MuxBoxField::Border(*v),
        MuxBoxField::BorderColor(v) => MuxBoxField::BorderColor(v.clone()),
        MuxBoxField::SelectedBorderColor(v) => MuxBoxField::SelectedBorderColor(v.clone()),
        MuxBoxField::BgColor(v) => MuxBoxField::BgColor(v.clone()),
        MuxBoxField::SelectedBgColor(v) => MuxBoxField::SelectedBgColor(v.clone()),
        MuxBoxField::FgColor(v) => MuxBoxField::FgColor(v.clone()),
        MuxBoxField::SelectedFgColor(v) => MuxBoxField::SelectedFgColor(v.clone()),
        MuxBoxField::TitleFgColor(v) => MuxBoxField::TitleFgColor(v.clone()),
        MuxBoxField::TitleBgColor(v) => MuxBoxField::TitleBgColor(v.clone()),
        MuxBoxField::SelectedTitleBgColor(v) => MuxBoxField::SelectedTitleBgColor(v.clone()),
        MuxBoxField::SelectedTitleFgColor(v) => MuxBoxField::SelectedTitleFgColor(v.clone()),
        MuxBoxField::TitlePosition(v) => MuxBoxField::TitlePosition(v.clone()),
        MuxBoxField::ErrorState(v) => MuxBoxField::ErrorState(*v),
        MuxBoxField::ErrorFgColor(v) => MuxBoxField::ErrorFgColor(v.clone()),
        MuxBoxField::ErrorBgColor(v) => MuxBoxField::ErrorBgColor(v.clone()),
        MuxBoxField::ErrorTitleFgColor(v) => MuxBoxField::ErrorTitleFgColor(v.clone()),
        MuxBoxField::ErrorTitleBgColor(v) => MuxBoxField::ErrorTitleBgColor(v.clone()),
        MuxBoxField::ErrorBorderColor(v) => MuxBoxField::ErrorBorderColor(v.clone()),
        MuxBoxField::ErrorSelectedBgColor(v) => MuxBoxField::ErrorSelectedBgColor(v.clone()),
        MuxBoxField::ErrorSelectedFgColor(v) => MuxBoxField::ErrorSelectedFgColor(v.clone()),
        MuxBoxField::ErrorSelectedBorderColor(v) => MuxBoxField::ErrorSelectedBorderColor(v.clone()),
        MuxBoxField::ErrorSelectedTitleBgColor(v) => MuxBoxField::ErrorSelectedTitleBgColor(v.clone()),
        MuxBoxField::ErrorSelectedTitleFgColor(v) => MuxBoxField::ErrorSelectedTitleFgColor(v.clone()),
        MuxBoxField::Choices(v) => MuxBoxField::Choices(copy_choices(v)),
        MuxBoxField::MenuFgColor(v) => MuxBoxField::MenuFgColor(v.clone()),
        MuxBoxField::MenuBgColor(v) => MuxBoxField::MenuBgColor(v.clone()),
        MuxBoxField::SelectedMenuFgColor(v) => MuxBoxField::SelectedMenuFgColor(v.clone()),
        MuxBoxField::SelectedMenuBgColor(v) => MuxBoxField::SelectedMenuBgColor(v.clone()),
        MuxBoxField::RedirectOutput(v) => MuxBoxField::RedirectOutput(v.clone()),
        MuxBoxField::Script(v) => MuxBoxField::Script(copy_lines(v)),
        MuxBoxField::OnKeypress(v) => MuxBoxField::OnKeypress(copy_keys(v)),
        MuxBoxField::Selected(v) => MuxBoxField::Selected(*v),
        MuxBoxField::Content(v) => MuxBoxField::Content(v.clone()),
        MuxBoxField::Output(v) => MuxBoxField::Output(v.clone()),
        MuxBoxField::ParentId(v) => MuxBoxField::ParentId(v.clone()),
        MuxBoxField::ParentLayoutId(v) => MuxBoxField::ParentLayoutId(v.clone()),
        MuxBoxField::AutoScrollBottom(v) => MuxBoxField::AutoScrollBottom(*v),
        MuxBoxField::ChildAdded(v) => MuxBoxField::ChildAdded(copy_box(v)),
        MuxBoxField::ChildRemoved => MuxBoxField::ChildRemoved,
    }
}

fn copy_change(c: &FieldChange) -> (r: FieldChange)
    ensures
        same_change(r, *c),
{
    let entity_id = copy_text(&c.entity_id);
    FieldChange { entity: c.entity, entity_id, field: copy_field(&c.field) }
}

/// The index of the first box of `kids` with id `id`, if any.
fn first_index_with_id(kids: &Vec<MuxBox>, id: &String) -> (r: Option<usize>)
    ensures
        r matches Some(k) ==> first_with_id(kids@, id@, k as int),
        r is None ==> forall|j: int| 0 <= j < kids@.len() ==> kids@[j].id@ != id@,
{
    let mut j: usize = 0;
    while j < kids.len()
        invariant
            j <= kids@.len(),
            forall|t: int| 0 <= t < j ==> kids@[t].id@ != id@,
        decreases kids@.len() - j,
    {
        if same_string(&kids[j].id, id) {
            return Some(j);
        }
        j = j + 1;
    }
    None
}

/// Copies of the changes that go on to child `k`.
fn routed_changes(kids: &Vec<MuxBox>, k: usize, cs: &Vec<FieldChange>) -> (r: Vec<FieldChange>)
    ensures
        same_changes(r@, routed(kids@, k as int, cs@)),
{
    let mut out: Vec<FieldChange> = Vec::new();
    let mut j: usize = 0;
    while j < cs.len()
        invariant
            j <= cs@.len(),
            same_changes(out@, routed(kids@, k as int, cs@.take(j as int))),
        decreases cs@.len() - j,
    {
        let c = &cs[j];
        let goes = if c.entity == EntityType::MuxBox {
            match &c.entity_id {
                Some(id) => match first_index_with_id(kids, id) {
                    Some(f) => f == k,
                    None => false,
                },
                None => false,
            }
        } else {
            false
        };
        proof {
            let t = cs@.take(j + 1);
            assert(t.drop_last() =~= cs@.take(j as int));
            assert(t.last() == cs@[j as int]);
            if c.entity == EntityType::MuxBox && c.entity_id is Some {
                let id = (c.entity_id->0)@;
                if first_with_id(kids@, id, k as int) {
                    assert(kids@[k as int].id@ == id);
                }
            }
            assert(goes == routes_to(kids@, k as int, *c));
        }
        let ghost before = out@;
        if goes {
            out.push(copy_change(c));
        }
        proof {
            let want = routed(kids@, k as int, cs@.take(j + 1));
            assert(want == routed(kids@, k as int, cs@.take(j as int)) + if routes_to(kids@, k as int, cs@[j as int]) {
                seq![cs@[j as int]]
            } else {
                Seq::<FieldChange>::empty()
            });
            assert forall|i: int| 0 <= i < out@.len() implies same_change(#[trigger] out@[i], want[i]) by {
                if i < before.len() {
                    assert(out@[i] == before[i]);
                }
            }
        }
        j = j + 1;
    }
    assert(cs@.take(cs@.len() as int) =~= cs@);
    out
}

/// Whether a change addressed to a box removes a child.
pub(crate) fn has_removal(cs: &Vec<FieldChange>) -> (r: bool)
    ensures
        r == removes_children(cs@),
{
    let mut j: usize = 0;
    while j < cs.len()
        invariant
            j <= cs@.len(),
            forall|t: int| 0 <= t < j ==> !(cs@[t].entity == EntityType::MuxBox && cs@[t].field is ChildRemoved),
        decreases cs@.len() - j,
    {
        let removal = match cs[j].field {
            MuxBoxField::ChildRemoved => true,
            _ => false,
        };
        if cs[j].entity == EntityType::MuxBox && removal {
            return true;
        }
        j = j + 1;
    }
    false
}

/// Passes each change addressed to a box on to the first of `kids` that
/// bears its id, which applies it (see `apply_muxbox_changes`).
pub fn route_to_children(kids: &mut Vec<MuxBox>, changes: &Vec<FieldChange>)
    ensures
        final(kids)@.len() == old(kids)@.len(),
        kids_applied(old(kids)@, final(kids)@, changes@, 0),
    decreases old(kids)@, 0int, 0int,
{
    let ghost bk = kids@;
    let n = kids.len();
    let mut all: Vec<Vec<FieldChange>> = Vec::new();
    let mut k: usize = 0;
    while k < n
        invariant
            k <= n == kids@.len(),
            kids@ == bk,
            all@.len() == k,
            forall|t: int| 0 <= t < k ==> same_changes((#[trigger] all@[t])@, routed(bk, t, changes@)),
        decreases n - k,
    {
        let r = routed_changes(kids, k, changes);
        all.push(r);
        k = k + 1;
    }
    let mut i: usize = 0;
    while i < n
        invariant
            i <= n == bk.len() == kids@.len(),
            bk == old(kids)@,
            all@.len() == n - i,
            forall|t: int| 0 <= t < n - i ==> same_changes((#[trigger] all@[t])@, routed(bk, t + i, changes@)),
            forall|t: int| i <= t < n ==> kids@[t] == bk[t],
            forall|t: int| 0 <= t < i ==> kid_applied(bk[t], #[trigger] kids@[t], routed(bk, t, changes@)),
        decreases n - i,
    {
        let ghost before_all = all@;
        let rc = all.remove(0);
        proof {
            assert(same_changes(rc@, routed(bk, i as int, changes@))) by {
                assert(before_all[0] == rc);
            }
            assert forall|t: int| 0 <= t < n - (i + 1) implies same_changes((#[trigger] all@[t])@, routed(bk, t + i + 1, changes@)) by {
                assert(all@[t] == before_all[t + 1]);
            }
        }
        let ghost kids_before = kids@;
        let ghost rcv = rc@;
        let mut kid = kids.remove(i);
        proof {
            assert(kid == old(kids)@[i as int]);
            assert(decreases_to!(old(kids)@ => old(kids)@[i as int]));
        }
        apply_muxbox_changes(&mut kid, rc);
        kids.insert(i, kid);
        proof {
            assert forall|t: int| i + 1 <= t < n implies kids@[t] == bk[t] by {
                assert(kids@[t] == kids_before[t]);
            }
            assert forall|t: int| 0 <= t < i + 1 implies kid_applied(bk[t], #[trigger] kids@[t], routed(bk, t, changes@)) by {
                if t < i {
                    assert(kids@[t] == kids_before[t]);
                } else {
                    assert(same_changes(rcv, routed(bk, t, changes@)) && tree_applied(bk[t], kids@[t], rcv));
                }
            }
        }
        i = i + 1;
    }
    proof {
        lemma_kids_applied(bk, kids@, changes@, 0);
    }
}

/// Applies the changes in order: each change addressed to a box sets the
/// field it names, whatever id it carries; a removed child drops all the
/// box's children; otherwise each change is passed on to the first child
/// that bears its id, which applies it in the same way. Changes to other
/// kinds of entity are passed over.
pub fn apply_muxbox_changes(m: &mut MuxBox, changes: Vec<FieldChange>)
    ensures
        tree_applied(*old(m), *final(m), changes@),
    decreases *old(m), 1int, 0int,
{
    proof {
        assert(decreases_to!(*old(m) => old(m).children@));
    }
    if has_removal(&changes) {
        m.children = Vec::new();
    } else {
        route_to_children(&mut m.children, &changes);
    }
    let ghost mid = *m;
    let mut rest = changes;
    proof {
        lemma_apply_keeps_children(*old(m), mid, rest@);
    }
    while rest.len() > 0
        invariant
            spec_apply(*m, rest@) == (MuxBox { children: mid.children, ..spec_apply(*old(m), changes@) }),
        decreases rest@.len(),
    {
        let ghost before = rest@;
        let c = rest.remove(0);
        assert(rest@ =~= before.drop_first());
        if c.entity == EntityType::MuxBox {
            set_field(m, c.field);
        }
    }
    proof {
        assert(spec_apply(*m, rest@) == *m);
    }
}

} // verus!

