use vstd::prelude::*;
use crate::common::EntityType;
use crate::diff_values::{
    copy_keys, copy_lines, lines_of, opt_keys, opt_lines, pairs_of, same_opt_keys, same_opt_lines, same_text,
    text_of,
};
use crate::layouts::Layout;
use crate::muxbox::MuxBox;
use crate::muxbox_diff::{
    added_children, has_removal, kids_applied, push_added_children, push_box_diff, push_removed_children,
    removed_children, removes_children, route_to_children, same_change, same_changes, spec_muxbox_diff,
    FieldChange,
};

verus! {

/// A new value for one field of a layout, as a diff of two layouts names it.
#[derive(Debug, Clone, PartialEq)]
pub enum LayoutField {
    Title(String),
    RefreshInterval(u64),
    Fill(bool),
    FillChar(char),
    SelectedFillChar(char),
    Border(bool),
    BorderColor(String),
    SelectedBorderColor(String),
    BgColor(String),
    SelectedBgColor(String),
    FgColor(String),
    SelectedFgColor(String),
    TitleFgColor(String),
    TitleBgColor(String),
    TitlePosition(String),
    SelectedTitleBgColor(String),
    SelectedTitleFgColor(String),
    MenuFgColor(String),
    MenuBgColor(String),
    SelectedMenuFgColor(String),
    SelectedMenuBgColor(String),
    ErrorBorderColor(String),
    ErrorBgColor(String),
    ErrorFgColor(String),
    ErrorTitleBgColor(String),
    ErrorTitleFgColor(String),
    ErrorSelectedBorderColor(String),
    ErrorSelectedBgColor(String),
    ErrorSelectedFgColor(String),
    ErrorSelectedTitleBgColor(String),
    ErrorSelectedTitleFgColor(String),
    OverflowBehavior(String),
    Root(bool),
    OnKeypress(Vec<(String, Vec<String>)>),
    Active(bool),
    MuxboxIdsInTabOrder(Vec<String>),
}

/// One change of a diff: the kind of entity, the id of the entity the diff
/// was taken from, and the new value of a field.
#[derive(Debug, Clone, PartialEq)]
pub struct LayoutChange {
    pub entity: EntityType,
    pub entity_id: Option<String>,
    pub field: LayoutField,
}

/// Two field values that say the same: equal, or, for the values that are
/// lists, with the same items.
pub open spec fn same_layout_field(f: LayoutField, g: LayoutField) -> bool {
    match (f, g) {
        (LayoutField::OnKeypress(x), LayoutField::OnKeypress(y)) => pairs_of(x) == pairs_of(y),
        (LayoutField::MuxboxIdsInTabOrder(x), LayoutField::MuxboxIdsInTabOrder(y)) => lines_of(x) == lines_of(y),
        _ => f == g,
    }
}

/// Two changes that say the same.
pub open spec fn same_layout_change(c: LayoutChange, d: LayoutChange) -> bool {
    c.entity == d.entity && c.entity_id == d.entity_id && same_layout_field(c.field, d.field)
}

/// Two lists of changes that say the same, change by change.
pub open spec fn same_layout_changes(r: Seq<LayoutChange>, s: Seq<LayoutChange>) -> bool {
    r.len() == s.len() && forall|i: int| 0 <= i < r.len() ==> same_layout_change(#[trigger] r[i], s[i])
}

/// `new` is `old` followed by changes that say what `c` says.
pub open spec fn extends_like_layout(new: Seq<LayoutChange>, old: Seq<LayoutChange>, c: Seq<LayoutChange>) -> bool {
    &&& new.len() == old.len() + c.len()
    &&& forall|i: int| 0 <= i < old.len() ==> #[trigger] new[i] == old[i]
    &&& forall|i: int| 0 <= i < c.len() ==> same_layout_change(new[old.len() + i], #[trigger] c[i])
}

pub(crate) proof fn lemma_extends_concat(o0: Seq<LayoutChange>, o1: Seq<LayoutChange>, o2: Seq<LayoutChange>, c1: Seq<LayoutChange>, c2: Seq<LayoutChange>)
    requires
        extends_like_layout(o1, o0, c1),
        extends_like_layout(o2, o1, c2),
    ensures
        extends_like_layout(o2, o0, c1 + c2),
{
    assert forall|i: int| 0 <= i < o0.len() implies #[trigger] o2[i] == o0[i] by {
        assert(o2[i] == o1[i]);
    }
    assert forall|i: int| 0 <= i < (c1 + c2).len() implies same_layout_change(o2[o0.len() + i], #[trigger] (c1 + c2)[i]) by {
        if i < c1.len() {
            assert(c1[i] == (c1 + c2)[i]);
            assert(o2[o0.len() + i] == o1[o0.len() + i]);
        } else {
            let j = i - c1.len();
            assert(c2[j] == (c1 + c2)[i]);
            assert(o1.len() + j == o0.len() + i);
        }
    }
}

pub(crate) proof fn lemma_extends_empty(o: Seq<LayoutChange>)
    ensures
        extends_like_layout(o, o, Seq::<LayoutChange>::empty()),
{
}

/// The change of one field of layout `a`, when `c` holds.
#[verifier::opaque]
pub open spec fn layout_change_if(c: bool, a: Layout, f: LayoutField) -> Seq<LayoutChange> {
    if c {
        seq![LayoutChange { entity: EntityType::Layout, entity_id: Some(a.id), field: f }]
    } else {
        Seq::empty()
    }
}

/// The changes of the title, refresh interval, fill, fill char, selected fill
/// char, border, border color, selected border color, bg color and selected bg
/// color.
pub open spec fn diff_part1(a: Layout, b: Layout) -> Seq<LayoutChange> {
    layout_change_if(text_of(a.title) != text_of(b.title) && b.title is Some, a, LayoutField::Title(b.title->0))
        + layout_change_if(a.refresh_interval != b.refresh_interval && b.refresh_interval is Some, a, LayoutField::RefreshInterval(b.refresh_interval->0))
        + layout_change_if(a.fill != b.fill && b.fill is Some, a, LayoutField::Fill(b.fill->0))
        + layout_change_if(a.fill_char != b.fill_char && b.fill_char is Some, a, LayoutField::FillChar(b.fill_char->0))
        + layout_change_if(a.selected_fill_char != b.selected_fill_char && b.selected_fill_char is Some, a, LayoutField::SelectedFillChar(b.selected_fill_char->0))
        + layout_change_if(a.border != b.border && b.border is Some, a, LayoutField::Border(b.border->0))
        + layout_change_if(text_of(a.border_color) != text_of(b.border_color) && b.border_color is Some, a, LayoutField::BorderColor(b.border_color->0))
        + layout_change_if(text_of(a.selected_border_color) != text_of(b.selected_border_color) && b.selected_border_color is Some, a, LayoutField::SelectedBorderColor(b.selected_border_color->0))
        + layout_change_if(text_of(a.bg_color) != text_of(b.bg_color) && b.bg_color is Some, a, LayoutField::BgColor(b.bg_color->0))
        + layout_change_if(text_of(a.selected_bg_color) != text_of(b.selected_bg_color) && b.selected_bg_color is Some, a, LayoutField::SelectedBgColor(b.selected_bg_color->0))
}

/// The changes of the fg color, selected fg color, title fg color, title bg
/// color, title position, selected title bg color, selected title fg color,
/// menu fg color, menu bg color and selected menu fg color.
pub open spec fn diff_part2(a: Layout, b: Layout) -> Seq<LayoutChange> {
    layout_change_if(text_of(a.fg_color) != text_of(b.fg_color) && b.fg_color is Some, a, LayoutField::FgColor(b.fg_color->0))
        + layout_change_if(text_of(a.selected_fg_color) != text_of(b.selected_fg_color) && b.selected_fg_color is Some, a, LayoutField::SelectedFgColor(b.selected_fg_color->0))
        + layout_change_if(text_of(a.title_fg_color) != text_of(b.title_fg_color) && b.title_fg_color is Some, a, LayoutField::TitleFgColor(b.title_fg_color->0))
        + layout_change_if(text_of(a.title_bg_color) != text_of(b.title_bg_color) && b.title_bg_color is Some, a, LayoutField::TitleBgColor(b.title_bg_color->0))
        + layout_change_if(text_of(a.title_position) != text_of(b.title_position) && b.title_position is Some, a, LayoutField::TitlePosition(b.title_position->0))
        + layout_change_if(text_of(a.selected_title_bg_color) != text_of(b.selected_title_bg_color) && b.selected_title_bg_color is Some, a, LayoutField::SelectedTitleBgColor(b.selected_title_bg_color->0))
        + layout_change_if(text_of(a.selected_title_fg_color) != text_of(b.selected_title_fg_color) && b.selected_title_fg_color is Some, a, LayoutField::SelectedTitleFgColor(b.selected_title_fg_color->0))
        + layout_change_if(text_of(a.menu_fg_color) != text_of(b.menu_fg_color) && b.menu_fg_color is Some, a, LayoutField::MenuFgColor(b.menu_fg_color->0))
        + layout_change_if(text_of(a.menu_bg_color) != text_of(b.menu_bg_color) && b.menu_bg_color is Some, a, LayoutField::MenuBgColor(b.menu_bg_color->0))
        + layout_change_if(text_of(a.selected_menu_fg_color) != text_of(b.selected_menu_fg_color) && b.selected_menu_fg_color is Some, a, LayoutField::SelectedMenuFgColor(b.selected_menu_fg_color->0))
}

/// The changes of the selected menu bg color, error border color, error bg
/// color, error fg color, error title bg color, error title fg color, error
/// selected border color, error selected bg color, error selected fg color and
/// error selected title bg color.
pub open spec fn diff_part3(a: Layout, b: Layout) -> Seq<LayoutChange> {
    layout_change_if(text_of(a.selected_menu_bg_color) != text_of(b.selected_menu_bg_color) && b.selected_menu_bg_color is Some, a, LayoutField::SelectedMenuBgColor(b.selected_menu_bg_color->0))
        + layout_change_if(text_of(a.error_border_color) != text_of(b.error_border_color) && b.error_border_color is Some, a, LayoutField::ErrorBorderColor(b.error_border_color->0))
        + layout_change_if(text_of(a.error_bg_color) != text_of(b.error_bg_color) && b.error_bg_color is Some, a, LayoutField::ErrorBgColor(b.error_bg_color->0))
        + layout_change_if(text_of(a.error_fg_color) != text_of(b.error_fg_color) && b.error_fg_color is Some, a, LayoutField::ErrorFgColor(b.error_fg_color->0))
        + layout_change_if(text_of(a.error_title_bg_color) != text_of(b.error_title_bg_color) && b.error_title_bg_color is Some, a, LayoutField::ErrorTitleBgColor(b.error_title_bg_color->0))
        + layout_change_if(text_of(a.error_title_fg_color) != text_of(b.error_title_fg_color) && b.error_title_fg_color is Some, a, LayoutField::ErrorTitleFgColor(b.error_title_fg_color->0))
        + layout_change_if(text_of(a.error_selected_border_color) != text_of(b.error_selected_border_color) && b.error_selected_border_color is Some, a, LayoutField::ErrorSelectedBorderColor(b.error_selected_border_color->0))
        + layout_change_if(text_of(a.error_selected_bg_color) != text_of(b.error_selected_bg_color) && b.error_selected_bg_color is Some, a, LayoutField::ErrorSelectedBgColor(b.error_selected_bg_color->0))
        + layout_change_if(text_of(a.error_selected_fg_color) != text_of(b.error_selected_fg_color) && b.error_selected_fg_color is Some, a, LayoutField::ErrorSelectedFgColor(b.error_selected_fg_color->0))
        + layout_change_if(text_of(a.error_selected_title_bg_color) != text_of(b.error_selected_title_bg_color) && b.error_selected_title_bg_color is Some, a, LayoutField::ErrorSelectedTitleBgColor(b.error_selected_title_bg_color->0))
}

/// The changes of the error selected title fg color, overflow behavior, root,
/// on keypress, active and muxbox ids in tab order.
pub open spec fn diff_part4(a: Layout, b: Layout) -> Seq<LayoutChange> {
    layout_change_if(text_of(a.error_selected_title_fg_color) != text_of(b.error_selected_title_fg_color) && b.error_selected_title_fg_color is Some, a, LayoutField::ErrorSelectedTitleFgColor(b.error_selected_title_fg_color->0))
        + layout_change_if(text_of(a.overflow_behavior) != text_of(b.overflow_behavior) && b.overflow_behavior is Some, a, LayoutField::OverflowBehavior(b.overflow_behavior->0))
        + layout_change_if(a.root != b.root && b.root is Some, a, LayoutField::Root(b.root->0))
        + layout_change_if(opt_keys(a.on_keypress) != opt_keys(b.on_keypress) && b.on_keypress is Some, a, LayoutField::OnKeypress(b.on_keypress->0))
        + layout_change_if(a.active != b.active && b.active is Some, a, LayoutField::Active(b.active->0))
        + layout_change_if(opt_lines(a.muxbox_ids_in_tab_order) != opt_lines(b.muxbox_ids_in_tab_order) && b.muxbox_ids_in_tab_order is Some, a, LayoutField::MuxboxIdsInTabOrder(b.muxbox_ids_in_tab_order->0))
}

/// The changes that turn layout `a` into layout `b`, field by field in a
/// fixed order: a field is named only when it differs and `b` has a value.
/// Each change carries `a`'s id. The changes of the boxes form a list of
/// their own (see `layout_children_diff`).
pub open spec fn spec_layout_diff(a: Layout, b: Layout) -> Seq<LayoutChange> {
    diff_part1(a, b) + diff_part2(a, b) + diff_part3(a, b) + diff_part4(a, b)
}

/// A layout with one field set to a new value; the other fields stay.
pub open spec fn with_layout_field(m: Layout, f: LayoutField) -> Layout {
    match f {
        LayoutField::Title(v) => Layout { title: Some(v), ..m },
        LayoutField::RefreshInterval(v) => Layout { refresh_interval: Some(v), ..m },
        LayoutField::Fill(v) => Layout { fill: Some(v), ..m },
        LayoutField::FillChar(v) => Layout { fill_char: Some(v), ..m },
        LayoutField::SelectedFillChar(v) => Layout { selected_fill_char: Some(v), ..m },
        LayoutField::Border(v) => Layout { border: Some(v), ..m },
        LayoutField::BorderColor(v) => Layout { border_color: Some(v), ..m },
        LayoutField::SelectedBorderColor(v) => Layout { selected_border_color: Some(v), ..m },
        LayoutField::BgColor(v) => Layout { bg_color: Some(v), ..m },
        LayoutField::SelectedBgColor(v) => Layout { selected_bg_color: Some(v), ..m },
        LayoutField::FgColor(v) => Layout { fg_color: Some(v), ..m },
        LayoutField::SelectedFgColor(v) => Layout { selected_fg_color: Some(v), ..m },
        LayoutField::TitleFgColor(v) => Layout { title_fg_color: Some(v), ..m },
        LayoutField::TitleBgColor(v) => Layout { title_bg_color: Some(v), ..m },
        LayoutField::TitlePosition(v) => Layout { title_position: Some(v), ..m },
        LayoutField::SelectedTitleBgColor(v) => Layout { selected_title_bg_color: Some(v), ..m },
        LayoutField::SelectedTitleFgColor(v) => Layout { selected_title_fg_color: Some(v), ..m },
        LayoutField::MenuFgColor(v) => Layout { menu_fg_color: Some(v), ..m },
        LayoutField::MenuBgColor(v) => Layout { menu_bg_color: Some(v), ..m },
        LayoutField::SelectedMenuFgColor(v) => Layout { selected_menu_fg_color: Some(v), ..m },
        LayoutField::SelectedMenuBgColor(v) => Layout { selected_menu_bg_color: Some(v), ..m },
        LayoutField::ErrorBorderColor(v) => Layout { error_border_color: Some(v), ..m },
        LayoutField::ErrorBgColor(v) => Layout { error_bg_color: Some(v), ..m },
        LayoutField::ErrorFgColor(v) => Layout { error_fg_color: Some(v), ..m },
        LayoutField::ErrorTitleBgColor(v) => Layout { error_title_bg_color: Some(v), ..m },
        LayoutField::ErrorTitleFgColor(v) => Layout { error_title_fg_color: Some(v), ..m },
        LayoutField::ErrorSelectedBorderColor(v) => Layout { error_selected_border_color: Some(v), ..m },
        LayoutField::ErrorSelectedBgColor(v) => Layout { error_selected_bg_color: Some(v), ..m },
        LayoutField::ErrorSelectedFgColor(v) => Layout { error_selected_fg_color: Some(v), ..m },
        LayoutField::ErrorSelectedTitleBgColor(v) => Layout { error_selected_title_bg_color: Some(v), ..m },
        LayoutField::ErrorSelectedTitleFgColor(v) => Layout { error_selected_title_fg_color: Some(v), ..m },
        LayoutField::OverflowBehavior(v) => Layout { overflow_behavior: Some(v), ..m },
        LayoutField::Root(v) => Layout { root: Some(v), ..m },
        LayoutField::OnKeypress(v) => Layout { on_keypress: Some(v), ..m },
        LayoutField::Active(v) => Layout { active: Some(v), ..m },
        LayoutField::MuxboxIdsInTabOrder(v) => Layout { muxbox_ids_in_tab_order: Some(v), ..m },
    }
}

/// A layout after a list of changes, in order: each change addressed to a
/// layout sets its field, whatever id it carries; others are passed over.
pub open spec fn spec_apply_layout(m: Layout, cs: Seq<LayoutChange>) -> Layout
    decreases cs.len(),
{
    if cs.len() == 0 {
        m
    } else {
        let next = if cs[0].entity == EntityType::Layout {
            with_layout_field(m, cs[0].field)
        } else {
            m
        };
        spec_apply_layout(next, cs.drop_first())
    }
}

proof fn lemma_apply_concat(m: Layout, s1: Seq<LayoutChange>, s2: Seq<LayoutChange>)
    ensures
        spec_apply_layout(m, s1 + s2) == spec_apply_layout(spec_apply_layout(m, s1), s2),
    decreases s1.len(),
{
    if s1.len() > 0 {
        let next = if s1[0].entity == EntityType::Layout {
            with_layout_field(m, s1[0].field)
        } else {
            m
        };
        assert((s1 + s2).drop_first() =~= s1.drop_first() + s2);
        lemma_apply_concat(next, s1.drop_first(), s2);
    } else {
        assert(s1 + s2 =~= s2);
    }
}

proof fn lemma_apply_one(m: Layout, c: bool, a: Layout, f: LayoutField)
    ensures
        spec_apply_layout(m, layout_change_if(c, a, f)) == if c {
            with_layout_field(m, f)
        } else {
            m
        },
{
    reveal(layout_change_if);
    if c {
        let s = layout_change_if(c, a, f);
        assert(s.drop_first() =~= Seq::<LayoutChange>::empty());
        assert(spec_apply_layout(with_layout_field(m, f), s.drop_first()) == with_layout_field(m, f));
    }
}

#[verifier::rlimit(60)]
proof fn lemma_apply_part1(m: Layout, a: Layout, b: Layout)
    ensures
        spec_apply_layout(m, diff_part1(a, b)) == (Layout {
            title: if text_of(a.title) != text_of(b.title) && b.title is Some { Some(b.title->0) } else { m.title },
            refresh_interval: if a.refresh_interval != b.refresh_interval && b.refresh_interval is Some { Some(b.refresh_interval->0) } else { m.refresh_interval },
            fill: if a.fill != b.fill && b.fill is Some { Some(b.fill->0) } else { m.fill },
            fill_char: if a.fill_char != b.fill_char && b.fill_char is Some { Some(b.fill_char->0) } else { m.fill_char },
            selected_fill_char: if a.selected_fill_char != b.selected_fill_char && b.selected_fill_char is Some { Some(b.selected_fill_char->0) } else { m.selected_fill_char },
            border: if a.border != b.border && b.border is Some { Some(b.border->0) } else { m.border },
            border_color: if text_of(a.border_color) != text_of(b.border_color) && b.border_color is Some { Some(b.border_color->0) } else { m.border_color },
            selected_border_color: if text_of(a.selected_border_color) != text_of(b.selected_border_color) && b.selected_border_color is Some { Some(b.selected_border_color->0) } else { m.selected_border_color },
            bg_color: if text_of(a.bg_color) != text_of(b.bg_color) && b.bg_color is Some { Some(b.bg_color->0) } else { m.bg_color },
            selected_bg_color: if text_of(a.selected_bg_color) != text_of(b.selected_bg_color) && b.selected_bg_color is Some { Some(b.selected_bg_color->0) } else { m.selected_bg_color },
            ..m
        }),
{
    let s0 = layout_change_if(text_of(a.title) != text_of(b.title) && b.title is Some, a, LayoutField::Title(b.title->0));
    lemma_apply_one(m, text_of(a.title) != text_of(b.title) && b.title is Some, a, LayoutField::Title(b.title->0));
    let s1 = s0 + layout_change_if(a.refresh_interval != b.refresh_interval && b.refresh_interval is Some, a, LayoutField::RefreshInterval(b.refresh_interval->0));
    lemma_apply_concat(m, s0, layout_change_if(a.refresh_interval != b.refresh_interval && b.refresh_interval is Some, a, LayoutField::RefreshInterval(b.refresh_interval->0)));
    lemma_apply_one(spec_apply_layout(m, s0), a.refresh_interval != b.refresh_interval && b.refresh_interval is Some, a, LayoutField::RefreshInterval(b.refresh_interval->0));
    let s2 = s1 + layout_change_if(a.fill != b.fill && b.fill is Some, a, LayoutField::Fill(b.fill->0));
    lemma_apply_concat(m, s1, layout_change_if(a.fill != b.fill && b.fill is Some, a, LayoutField::Fill(b.fill->0)));
    lemma_apply_one(spec_apply_layout(m, s1), a.fill != b.fill && b.fill is Some, a, LayoutField::Fill(b.fill->0));
    let s3 = s2 + layout_change_if(a.fill_char != b.fill_char && b.fill_char is Some, a, LayoutField::FillChar(b.fill_char->0));
    lemma_apply_concat(m, s2, layout_change_if(a.fill_char != b.fill_char && b.fill_char is Some, a, LayoutField::FillChar(b.fill_char->0)));
    lemma_apply_one(spec_apply_layout(m, s2), a.fill_char != b.fill_char && b.fill_char is Some, a, LayoutField::FillChar(b.fill_char->0));
    let s4 = s3 + layout_change_if(a.selected_fill_char != b.selected_fill_char && b.selected_fill_char is Some, a, LayoutField::SelectedFillChar(b.selected_fill_char->0));
    lemma_apply_concat(m, s3, layout_change_if(a.selected_fill_char != b.selected_fill_char && b.selected_fill_char is Some, a, LayoutField::SelectedFillChar(b.selected_fill_char->0)));
    lemma_apply_one(spec_apply_layout(m, s3), a.selected_fill_char != b.selected_fill_char && b.selected_fill_char is Some, a, LayoutField::SelectedFillChar(b.selected_fill_char->0));
    let s5 = s4 + layout_change_if(a.border != b.border && b.border is Some, a, LayoutField::Border(b.border->0));
    lemma_apply_concat(m, s4, layout_change_if(a.border != b.border && b.border is Some, a, LayoutField::Border(b.border->0)));
    lemma_apply_one(spec_apply_layout(m, s4), a.border != b.border && b.border is Some, a, LayoutField::Border(b.border->0));
    let s6 = s5 + layout_change_if(text_of(a.border_color) != text_of(b.border_color) && b.border_color is Some, a, LayoutField::BorderColor(b.border_color->0));
    lemma_apply_concat(m, s5, layout_change_if(text_of(a.border_color) != text_of(b.border_color) && b.border_color is Some, a, LayoutField::BorderColor(b.border_color->0)));
    lemma_apply_one(spec_apply_layout(m, s5), text_of(a.border_color) != text_of(b.border_color) && b.border_color is Some, a, LayoutField::BorderColor(b.border_color->0));
    let s7 = s6 + layout_change_if(text_of(a.selected_border_color) != text_of(b.selected_border_color) && b.selected_border_color is Some, a, LayoutField::SelectedBorderColor(b.selected_border_color->0));
    lemma_apply_concat(m, s6, layout_change_if(text_of(a.selected_border_color) != text_of(b.selected_border_color) && b.selected_border_color is Some, a, LayoutField::SelectedBorderColor(b.selected_border_color->0)));
    lemma_apply_one(spec_apply_layout(m, s6), text_of(a.selected_border_color) != text_of(b.selected_border_color) && b.selected_border_color is Some, a, LayoutField::SelectedBorderColor(b.selected_border_color->0));
    let s8 = s7 + layout_change_if(text_of(a.bg_color) != text_of(b.bg_color) && b.bg_color is Some, a, LayoutField::BgColor(b.bg_color->0));
    lemma_apply_concat(m, s7, layout_change_if(text_of(a.bg_color) != text_of(b.bg_color) && b.bg_color is Some, a, LayoutField::BgColor(b.bg_color->0)));
    lemma_apply_one(spec_apply_layout(m, s7), text_of(a.bg_color) != text_of(b.bg_color) && b.bg_color is Some, a, LayoutField::BgColor(b.bg_color->0));
    let s9 = s8 + layout_change_if(text_of(a.selected_bg_color) != text_of(b.selected_bg_color) && b.selected_bg_color is Some, a, LayoutField::SelectedBgColor(b.selected_bg_color->0));
    lemma_apply_concat(m, s8, layout_change_if(text_of(a.selected_bg_color) != text_of(b.selected_bg_color) && b.selected_bg_color is Some, a, LayoutField::SelectedBgColor(b.selected_bg_color->0)));
    lemma_apply_one(spec_apply_layout(m, s8), text_of(a.selected_bg_color) != text_of(b.selected_bg_color) && b.selected_bg_color is Some, a, LayoutField::SelectedBgColor(b.selected_bg_color->0));
    assert(diff_part1(a, b) == s9);
}

#[verifier::rlimit(60)]
proof fn lemma_apply_part2(m: Layout, a: Layout, b: Layout)
    ensures
        spec_apply_layout(m, diff_part2(a, b)) == (Layout {
            fg_color: if text_of(a.fg_color) != text_of(b.fg_color) && b.fg_color is Some { Some(b.fg_color->0) } else { m.fg_color },
            selected_fg_color: if text_of(a.selected_fg_color) != text_of(b.selected_fg_color) && b.selected_fg_color is Some { Some(b.selected_fg_color->0) } else { m.selected_fg_color },
            title_fg_color: if text_of(a.title_fg_color) != text_of(b.title_fg_color) && b.title_fg_color is Some { Some(b.title_fg_color->0) } else { m.title_fg_color },
            title_bg_color: if text_of(a.title_bg_color) != text_of(b.title_bg_color) && b.title_bg_color is Some { Some(b.title_bg_color->0) } else { m.title_bg_color },
            title_position: if text_of(a.title_position) != text_of(b.title_position) && b.title_position is Some { Some(b.title_position->0) } else { m.title_position },
            selected_title_bg_color: if text_of(a.selected_title_bg_color) != text_of(b.selected_title_bg_color) && b.selected_title_bg_color is Some { Some(b.selected_title_bg_color->0) } else { m.selected_title_bg_color },
            selected_title_fg_color: if text_of(a.selected_title_fg_color) != text_of(b.selected_title_fg_color) && b.selected_title_fg_color is Some { Some(b.selected_title_fg_color->0) } else { m.selected_title_fg_color },
            menu_fg_color: if text_of(a.menu_fg_color) != text_of(b.menu_fg_color) && b.menu_fg_color is Some { Some(b.menu_fg_color->0) } else { m.menu_fg_color },
            menu_bg_color: if text_of(a.menu_bg_color) != text_of(b.menu_bg_color) && b.menu_bg_color is Some { Some(b.menu_bg_color->0) } else { m.menu_bg_color },
            selected_menu_fg_color: if text_of(a.selected_menu_fg_color) != text_of(b.selected_menu_fg_color) && b.selected_menu_fg_color is Some { Some(b.selected_menu_fg_color->0) } else { m.selected_menu_fg_color },
            ..m
        }),
{
    let s0 = layout_change_if(text_of(a.fg_color) != text_of(b.fg_color) && b.fg_color is Some, a, LayoutField::FgColor(b.fg_color->0));
    lemma_apply_one(m, text_of(a.fg_color) != text_of(b.fg_color) && b.fg_color is Some, a, LayoutField::FgColor(b.fg_color->0));
    let s1 = s0 + layout_change_if(text_of(a.selected_fg_color) != text_of(b.selected_fg_color) && b.selected_fg_color is Some, a, LayoutField::SelectedFgColor(b.selected_fg_color->0));
    lemma_apply_concat(m, s0, layout_change_if(text_of(a.selected_fg_color) != text_of(b.selected_fg_color) && b.selected_fg_color is Some, a, LayoutField::SelectedFgColor(b.selected_fg_color->0)));
    lemma_apply_one(spec_apply_layout(m, s0), text_of(a.selected_fg_color) != text_of(b.selected_fg_color) && b.selected_fg_color is Some, a, LayoutField::SelectedFgColor(b.selected_fg_color->0));
    let s2 = s1 + layout_change_if(text_of(a.title_fg_color) != text_of(b.title_fg_color) && b.title_fg_color is Some, a, LayoutField::TitleFgColor(b.title_fg_color->0));
    lemma_apply_concat(m, s1, layout_change_if(text_of(a.title_fg_color) != text_of(b.title_fg_color) && b.title_fg_color is Some, a, LayoutField::TitleFgColor(b.title_fg_color->0)));
    lemma_apply_one(spec_apply_layout(m, s1), text_of(a.title_fg_color) != text_of(b.title_fg_color) && b.title_fg_color is Some, a, LayoutField::TitleFgColor(b.title_fg_color->0));
    let s3 = s2 + layout_change_if(text_of(a.title_bg_color) != text_of(b.title_bg_color) && b.title_bg_color is Some, a, LayoutField::TitleBgColor(b.title_bg_color->0));
    lemma_apply_concat(m, s2, layout_change_if(text_of(a.title_bg_color) != text_of(b.title_bg_color) && b.title_bg_color is Some, a, LayoutField::TitleBgColor(b.title_bg_color->0)));
    lemma_apply_one(spec_apply_layout(m, s2), text_of(a.title_bg_color) != text_of(b.title_bg_color) && b.title_bg_color is Some, a, LayoutField::TitleBgColor(b.title_bg_color->0));
    let s4 = s3 + layout_change_if(text_of(a.title_position) != text_of(b.title_position) && b.title_position is Some, a, LayoutField::TitlePosition(b.title_position->0));
    lemma_apply_concat(m, s3, layout_change_if(text_of(a.title_position) != text_of(b.title_position) && b.title_position is Some, a, LayoutField::TitlePosition(b.title_position->0)));
    lemma_apply_one(spec_apply_layout(m, s3), text_of(a.title_position) != text_of(b.title_position) && b.title_position is Some, a, LayoutField::TitlePosition(b.title_position->0));
    let s5 = s4 + layout_change_if(text_of(a.selected_title_bg_color) != text_of(b.selected_title_bg_color) && b.selected_title_bg_color is Some, a, LayoutField::SelectedTitleBgColor(b.selected_title_bg_color->0));
    lemma_apply_concat(m, s4, layout_change_if(text_of(a.selected_title_bg_color) != text_of(b.selected_title_bg_color) && b.selected_title_bg_color is Some, a, LayoutField::SelectedTitleBgColor(b.selected_title_bg_color->0)));
    lemma_apply_one(spec_apply_layout(m, s4), text_of(a.selected_title_bg_color) != text_of(b.selected_title_bg_color) && b.selected_title_bg_color is Some, a, LayoutField::SelectedTitleBgColor(b.selected_title_bg_color->0));
    let s6 = s5 + layout_change_if(text_of(a.selected_title_fg_color) != text_of(b.selected_title_fg_color) && b.selected_title_fg_color is Some, a, LayoutField::SelectedTitleFgColor(b.selected_title_fg_color->0));
    lemma_apply_concat(m, s5, layout_change_if(text_of(a.selected_title_fg_color) != text_of(b.selected_title_fg_color) && b.selected_title_fg_color is Some, a, LayoutField::SelectedTitleFgColor(b.selected_title_fg_color->0)));
    lemma_apply_one(spec_apply_layout(m, s5), text_of(a.selected_title_fg_color) != text_of(b.selected_title_fg_color) && b.selected_title_fg_color is Some, a, LayoutField::SelectedTitleFgColor(b.selected_title_fg_color->0));
    let s7 = s6 + layout_change_if(text_of(a.menu_fg_color) != text_of(b.menu_fg_color) && b.menu_fg_color is Some, a, LayoutField::MenuFgColor(b.menu_fg_color->0));
    lemma_apply_concat(m, s6, layout_change_if(text_of(a.menu_fg_color) != text_of(b.menu_fg_color) && b.menu_fg_color is Some, a, LayoutField::MenuFgColor(b.menu_fg_color->0)));
    lemma_apply_one(spec_apply_layout(m, s6), text_of(a.menu_fg_color) != text_of(b.menu_fg_color) && b.menu_fg_color is Some, a, LayoutField::MenuFgColor(b.menu_fg_color->0));
    let s8 = s7 + layout_change_if(text_of(a.menu_bg_color) != text_of(b.menu_bg_color) && b.menu_bg_color is Some, a, LayoutField::MenuBgColor(b.menu_bg_color->0));
    lemma_apply_concat(m, s7, layout_change_if(text_of(a.menu_bg_color) != text_of(b.menu_bg_color) && b.menu_bg_color is Some, a, LayoutField::MenuBgColor(b.menu_bg_color->0)));
    lemma_apply_one(spec_apply_layout(m, s7), text_of(a.menu_bg_color) != text_of(b.menu_bg_color) && b.menu_bg_color is Some, a, LayoutField::MenuBgColor(b.menu_bg_color->0));
    let s9 = s8 + layout_change_if(text_of(a.selected_menu_fg_color) != text_of(b.selected_menu_fg_color) && b.selected_menu_fg_color is Some, a, LayoutField::SelectedMenuFgColor(b.selected_menu_fg_color->0));
    lemma_apply_concat(m, s8, layout_change_if(text_of(a.selected_menu_fg_color) != text_of(b.selected_menu_fg_color) && b.selected_menu_fg_color is Some, a, LayoutField::SelectedMenuFgColor(b.selected_menu_fg_color->0)));
    lemma_apply_one(spec_apply_layout(m, s8), text_of(a.selected_menu_fg_color) != text_of(b.selected_menu_fg_color) && b.selected_menu_fg_color is Some, a, LayoutField::SelectedMenuFgColor(b.selected_menu_fg_color->0));
    assert(diff_part2(a, b) == s9);
}

#[verifier::rlimit(60)]
proof fn lemma_apply_part3(m: Layout, a: Layout, b: Layout)
    ensures
        spec_apply_layout(m, diff_part3(a, b)) == (Layout {
            selected_menu_bg_color: if text_of(a.selected_menu_bg_color) != text_of(b.selected_menu_bg_color) && b.selected_menu_bg_color is Some { Some(b.selected_menu_bg_color->0) } else { m.selected_menu_bg_color },
            error_border_color: if text_of(a.error_border_color) != text_of(b.error_border_color) && b.error_border_color is Some { Some(b.error_border_color->0) } else { m.error_border_color },
            error_bg_color: if text_of(a.error_bg_color) != text_of(b.error_bg_color) && b.error_bg_color is Some { Some(b.error_bg_color->0) } else { m.error_bg_color },
            error_fg_color: if text_of(a.error_fg_color) != text_of(b.error_fg_color) && b.error_fg_color is Some { Some(b.error_fg_color->0) } else { m.error_fg_color },
            error_title_bg_color: if text_of(a.error_title_bg_color) != text_of(b.error_title_bg_color) && b.error_title_bg_color is Some { Some(b.error_title_bg_color->0) } else { m.error_title_bg_color },
            error_title_fg_color: if text_of(a.error_title_fg_color) != text_of(b.error_title_fg_color) && b.error_title_fg_color is Some { Some(b.error_title_fg_color->0) } else { m.error_title_fg_color },
            error_selected_border_color: if text_of(a.error_selected_border_color) != text_of(b.error_selected_border_color) && b.error_selected_border_color is Some { Some(b.error_selected_border_color->0) } else { m.error_selected_border_color },
            error_selected_bg_color: if text_of(a.error_selected_bg_color) != text_of(b.error_selected_bg_color) && b.error_selected_bg_color is Some { Some(b.error_selected_bg_color->0) } else { m.error_selected_bg_color },
            error_selected_fg_color: if text_of(a.error_selected_fg_color) != text_of(b.error_selected_fg_color) && b.error_selected_fg_color is Some { Some(b.error_selected_fg_color->0) } else { m.error_selected_fg_color },
            error_selected_title_bg_color: if text_of(a.error_selected_title_bg_color) != text_of(b.error_selected_title_bg_color) && b.error_selected_title_bg_color is Some { Some(b.error_selected_title_bg_color->0) } else { m.error_selected_title_bg_color },
            ..m
        }),
{
    let s0 = layout_change_if(text_of(a.selected_menu_bg_color) != text_of(b.selected_menu_bg_color) && b.selected_menu_bg_color is Some, a, LayoutField::SelectedMenuBgColor(b.selected_menu_bg_color->0));
    lemma_apply_one(m, text_of(a.selected_menu_bg_color) != text_of(b.selected_menu_bg_color) && b.selected_menu_bg_color is Some, a, LayoutField::SelectedMenuBgColor(b.selected_menu_bg_color->0));
    let s1 = s0 + layout_change_if(text_of(a.error_border_color) != text_of(b.error_border_color) && b.error_border_color is Some, a, LayoutField::ErrorBorderColor(b.error_border_color->0));
    lemma_apply_concat(m, s0, layout_change_if(text_of(a.error_border_color) != text_of(b.error_border_color) && b.error_border_color is Some, a, LayoutField::ErrorBorderColor(b.error_border_color->0)));
    lemma_apply_one(spec_apply_layout(m, s0), text_of(a.error_border_color) != text_of(b.error_border_color) && b.error_border_color is Some, a, LayoutField::ErrorBorderColor(b.error_border_color->0));
    let s2 = s1 + layout_change_if(text_of(a.error_bg_color) != text_of(b.error_bg_color) && b.error_bg_color is Some, a, LayoutField::ErrorBgColor(b.error_bg_color->0));
    lemma_apply_concat(m, s1, layout_change_if(text_of(a.error_bg_color) != text_of(b.error_bg_color) && b.error_bg_color is Some, a, LayoutField::ErrorBgColor(b.error_bg_color->0)));
    lemma_apply_one(spec_apply_layout(m, s1), text_of(a.error_bg_color) != text_of(b.error_bg_color) && b.error_bg_color is Some, a, LayoutField::ErrorBgColor(b.error_bg_color->0));
    let s3 = s2 + layout_change_if(text_of(a.error_fg_color) != text_of(b.error_fg_color) && b.error_fg_color is Some, a, LayoutField::ErrorFgColor(b.error_fg_color->0));
    lemma_apply_concat(m, s2, layout_change_if(text_of(a.error_fg_color) != text_of(b.error_fg_color) && b.error_fg_color is Some, a, LayoutField::ErrorFgColor(b.error_fg_color->0)));
    lemma_apply_one(spec_apply_layout(m, s2), text_of(a.error_fg_color) != text_of(b.error_fg_color) && b.error_fg_color is Some, a, LayoutField::ErrorFgColor(b.error_fg_color->0));
    let s4 = s3 + layout_change_if(text_of(a.error_title_bg_color) != text_of(b.error_title_bg_color) && b.error_title_bg_color is Some, a, LayoutField::ErrorTitleBgColor(b.error_title_bg_color->0));
    lemma_apply_concat(m, s3, layout_change_if(text_of(a.error_title_bg_color) != text_of(b.error_title_bg_color) && b.error_title_bg_color is Some, a, LayoutField::ErrorTitleBgColor(b.error_title_bg_color->0)));
    lemma_apply_one(spec_apply_layout(m, s3), text_of(a.error_title_bg_color) != text_of(b.error_title_bg_color) && b.error_title_bg_color is Some, a, LayoutField::ErrorTitleBgColor(b.error_title_bg_color->0));
    let s5 = s4 + layout_change_if(text_of(a.error_title_fg_color) != text_of(b.error_title_fg_color) && b.error_title_fg_color is Some, a, LayoutField::ErrorTitleFgColor(b.error_title_fg_color->0));
    lemma_apply_concat(m, s4, layout_change_if(text_of(a.error_title_fg_color) != text_of(b.error_title_fg_color) && b.error_title_fg_color is Some, a, LayoutField::ErrorTitleFgColor(b.error_title_fg_color->0)));
    lemma_apply_one(spec_apply_layout(m, s4), text_of(a.error_title_fg_color) != text_of(b.error_title_fg_color) && b.error_title_fg_color is Some, a, LayoutField::ErrorTitleFgColor(b.error_title_fg_color->0));
    let s6 = s5 + layout_change_if(text_of(a.error_selected_border_color) != text_of(b.error_selected_border_color) && b.error_selected_border_color is Some, a, LayoutField::ErrorSelectedBorderColor(b.error_selected_border_color->0));
    lemma_apply_concat(m, s5, layout_change_if(text_of(a.error_selected_border_color) != text_of(b.error_selected_border_color) && b.error_selected_border_color is Some, a, LayoutField::ErrorSelectedBorderColor(b.error_selected_border_color->0)));
    lemma_apply_one(spec_apply_layout(m, s5), text_of(a.error_selected_border_color) != text_of(b.error_selected_border_color) && b.error_selected_border_color is Some, a, LayoutField::ErrorSelectedBorderColor(b.error_selected_border_color->0));
    let s7 = s6 + layout_change_if(text_of(a.error_selected_bg_color) != text_of(b.error_selected_bg_color) && b.error_selected_bg_color is Some, a, LayoutField::ErrorSelectedBgColor(b.error_selected_bg_color->0));
    lemma_apply_concat(m, s6, layout_change_if(text_of(a.error_selected_bg_color) != text_of(b.error_selected_bg_color) && b.error_selected_bg_color is Some, a, LayoutField::ErrorSelectedBgColor(b.error_selected_bg_color->0)));
    lemma_apply_one(spec_apply_layout(m, s6), text_of(a.error_selected_bg_color) != text_of(b.error_selected_bg_color) && b.error_selected_bg_color is Some, a, LayoutField::ErrorSelectedBgColor(b.error_selected_bg_color->0));
    let s8 = s7 + layout_change_if(text_of(a.error_selected_fg_color) != text_of(b.error_selected_fg_color) && b.error_selected_fg_color is Some, a, LayoutField::ErrorSelectedFgColor(b.error_selected_fg_color->0));
    lemma_apply_concat(m, s7, layout_change_if(text_of(a.error_selected_fg_color) != text_of(b.error_selected_fg_color) && b.error_selected_fg_color is Some, a, LayoutField::ErrorSelectedFgColor(b.error_selected_fg_color->0)));
    lemma_apply_one(spec_apply_layout(m, s7), text_of(a.error_selected_fg_color) != text_of(b.error_selected_fg_color) && b.error_selected_fg_color is Some, a, LayoutField::ErrorSelectedFgColor(b.error_selected_fg_color->0));
    let s9 = s8 + layout_change_if(text_of(a.error_selected_title_bg_color) != text_of(b.error_selected_title_bg_color) && b.error_selected_title_bg_color is Some, a, LayoutField::ErrorSelectedTitleBgColor(b.error_selected_title_bg_color->0));
    lemma_apply_concat(m, s8, layout_change_if(text_of(a.error_selected_title_bg_color) != text_of(b.error_selected_title_bg_color) && b.error_selected_title_bg_color is Some, a, LayoutField::ErrorSelectedTitleBgColor(b.error_selected_title_bg_color->0)));
    lemma_apply_one(spec_apply_layout(m, s8), text_of(a.error_selected_title_bg_color) != text_of(b.error_selected_title_bg_color) && b.error_selected_title_bg_color is Some, a, LayoutField::ErrorSelectedTitleBgColor(b.error_selected_title_bg_color->0));
    assert(diff_part3(a, b) == s9);
}

#[verifier::rlimit(60)]
proof fn lemma_apply_part4(m: Layout, a: Layout, b: Layout)
    ensures
        spec_apply_layout(m, diff_part4(a, b)) == (Layout {
            error_selected_title_fg_color: if text_of(a.error_selected_title_fg_color) != text_of(b.error_selected_title_fg_color) && b.error_selected_title_fg_color is Some { Some(b.error_selected_title_fg_color->0) } else { m.error_selected_title_fg_color },
            overflow_behavior: if text_of(a.overflow_behavior) != text_of(b.overflow_behavior) && b.overflow_behavior is Some { Some(b.overflow_behavior->0) } else { m.overflow_behavior },
            root: if a.root != b.root && b.root is Some { Some(b.root->0) } else { m.root },
            on_keypress: if opt_keys(a.on_keypress) != opt_keys(b.on_keypress) && b.on_keypress is Some { Some(b.on_keypress->0) } else { m.on_keypress },
            active: if a.active != b.active && b.active is Some { Some(b.active->0) } else { m.active },
            muxbox_ids_in_tab_order: if opt_lines(a.muxbox_ids_in_tab_order) != opt_lines(b.muxbox_ids_in_tab_order) && b.muxbox_ids_in_tab_order is Some { Some(b.muxbox_ids_in_tab_order->0) } else { m.muxbox_ids_in_tab_order },
            ..m
        }),
{
    let s0 = layout_change_if(text_of(a.error_selected_title_fg_color) != text_of(b.error_selected_title_fg_color) && b.error_selected_title_fg_color is Some, a, LayoutField::ErrorSelectedTitleFgColor(b.error_selected_title_fg_color->0));
    lemma_apply_one(m, text_of(a.error_selected_title_fg_color) != text_of(b.error_selected_title_fg_color) && b.error_selected_title_fg_color is Some, a, LayoutField::ErrorSelectedTitleFgColor(b.error_selected_title_fg_color->0));
    let s1 = s0 + layout_change_if(text_of(a.overflow_behavior) != text_of(b.overflow_behavior) && b.overflow_behavior is Some, a, LayoutField::OverflowBehavior(b.overflow_behavior->0));
    lemma_apply_concat(m, s0, layout_change_if(text_of(a.overflow_behavior) != text_of(b.overflow_behavior) && b.overflow_behavior is Some, a, LayoutField::OverflowBehavior(b.overflow_behavior->0)));
    lemma_apply_one(spec_apply_layout(m, s0), text_of(a.overflow_behavior) != text_of(b.overflow_behavior) && b.overflow_behavior is Some, a, LayoutField::OverflowBehavior(b.overflow_behavior->0));
    let s2 = s1 + layout_change_if(a.root != b.root && b.root is Some, a, LayoutField::Root(b.root->0));
    lemma_apply_concat(m, s1, layout_change_if(a.root != b.root && b.root is Some, a, LayoutField::Root(b.root->0)));
    lemma_apply_one(spec_apply_layout(m, s1), a.root != b.root && b.root is Some, a, LayoutField::Root(b.root->0));
    let s3 = s2 + layout_change_if(opt_keys(a.on_keypress) != opt_keys(b.on_keypress) && b.on_keypress is Some, a, LayoutField::OnKeypress(b.on_keypress->0));
    lemma_apply_concat(m, s2, layout_change_if(opt_keys(a.on_keypress) != opt_keys(b.on_keypress) && b.on_keypress is Some, a, LayoutField::OnKeypress(b.on_keypress->0)));
    lemma_apply_one(spec_apply_layout(m, s2), opt_keys(a.on_keypress) != opt_keys(b.on_keypress) && b.on_keypress is Some, a, LayoutField::OnKeypress(b.on_keypress->0));
    let s4 = s3 + layout_change_if(a.active != b.active && b.active is Some, a, LayoutField::Active(b.active->0));
    lemma_apply_concat(m, s3, layout_change_if(a.active != b.active && b.active is Some, a, LayoutField::Active(b.active->0)));
    lemma_apply_one(spec_apply_layout(m, s3), a.active != b.active && b.active is Some, a, LayoutField::Active(b.active->0));
    let s5 = s4 + layout_change_if(opt_lines(a.muxbox_ids_in_tab_order) != opt_lines(b.muxbox_ids_in_tab_order) && b.muxbox_ids_in_tab_order is Some, a, LayoutField::MuxboxIdsInTabOrder(b.muxbox_ids_in_tab_order->0));
    lemma_apply_concat(m, s4, layout_change_if(opt_lines(a.muxbox_ids_in_tab_order) != opt_lines(b.muxbox_ids_in_tab_order) && b.muxbox_ids_in_tab_order is Some, a, LayoutField::MuxboxIdsInTabOrder(b.muxbox_ids_in_tab_order->0)));
    lemma_apply_one(spec_apply_layout(m, s4), opt_lines(a.muxbox_ids_in_tab_order) != opt_lines(b.muxbox_ids_in_tab_order) && b.muxbox_ids_in_tab_order is Some, a, LayoutField::MuxboxIdsInTabOrder(b.muxbox_ids_in_tab_order->0));
    assert(diff_part4(a, b) == s5);
}

/// Applying the diff of layout `a` against `b` to `a` makes it agree with `b`
/// on every field the diff covers: each takes `b`'s value where `b` has one
/// and keeps `a`'s otherwise. The id and the boxes stay `a`'s.
#[verifier::rlimit(60)]
pub proof fn law_apply_layout_diff_agrees(a: Layout, b: Layout)
    ensures
        ({
            let r = spec_apply_layout(a, spec_layout_diff(a, b));
            &&& text_of(r.title) == if b.title is Some { text_of(b.title) } else { text_of(a.title) }
            &&& r.refresh_interval == if b.refresh_interval is Some { b.refresh_interval } else { a.refresh_interval }
            &&& r.fill == if b.fill is Some { b.fill } else { a.fill }
            &&& r.fill_char == if b.fill_char is Some { b.fill_char } else { a.fill_char }
            &&& r.selected_fill_char == if b.selected_fill_char is Some { b.selected_fill_char } else { a.selected_fill_char }
            &&& r.border == if b.border is Some { b.border } else { a.border }
            &&& text_of(r.border_color) == if b.border_color is Some { text_of(b.border_color) } else { text_of(a.border_color) }
            &&& text_of(r.selected_border_color) == if b.selected_border_color is Some { text_of(b.selected_border_color) } else { text_of(a.selected_border_color) }
            &&& text_of(r.bg_color) == if b.bg_color is Some { text_of(b.bg_color) } else { text_of(a.bg_color) }
            &&& text_of(r.selected_bg_color) == if b.selected_bg_color is Some { text_of(b.selected_bg_color) } else { text_of(a.selected_bg_color) }
            &&& text_of(r.fg_color) == if b.fg_color is Some { text_of(b.fg_color) } else { text_of(a.fg_color) }
            &&& text_of(r.selected_fg_color) == if b.selected_fg_color is Some { text_of(b.selected_fg_color) } else { text_of(a.selected_fg_color) }
            &&& text_of(r.title_fg_color) == if b.title_fg_color is Some { text_of(b.title_fg_color) } else { text_of(a.title_fg_color) }
            &&& text_of(r.title_bg_color) == if b.title_bg_color is Some { text_of(b.title_bg_color) } else { text_of(a.title_bg_color) }
            &&& text_of(r.title_position) == if b.title_position is Some { text_of(b.title_position) } else { text_of(a.title_position) }
            &&& text_of(r.selected_title_bg_color) == if b.selected_title_bg_color is Some { text_of(b.selected_title_bg_color) } else { text_of(a.selected_title_bg_color) }
            &&& text_of(r.selected_title_fg_color) == if b.selected_title_fg_color is Some { text_of(b.selected_title_fg_color) } else { text_of(a.selected_title_fg_color) }
            &&& text_of(r.menu_fg_color) == if b.menu_fg_color is Some { text_of(b.menu_fg_color) } else { text_of(a.menu_fg_color) }
            &&& text_of(r.menu_bg_color) == if b.menu_bg_color is Some { text_of(b.menu_bg_color) } else { text_of(a.menu_bg_color) }
            &&& text_of(r.selected_menu_fg_color) == if b.selected_menu_fg_color is Some { text_of(b.selected_menu_fg_color) } else { text_of(a.selected_menu_fg_color) }
            &&& text_of(r.selected_menu_bg_color) == if b.selected_menu_bg_color is Some { text_of(b.selected_menu_bg_color) } else { text_of(a.selected_menu_bg_color) }
            &&& text_of(r.error_border_color) == if b.error_border_color is Some { text_of(b.error_border_color) } else { text_of(a.error_border_color) }
            &&& text_of(r.error_bg_color) == if b.error_bg_color is Some { text_of(b.error_bg_color) } else { text_of(a.error_bg_color) }
            &&& text_of(r.error_fg_color) == if b.error_fg_color is Some { text_of(b.error_fg_color) } else { text_of(a.error_fg_color) }
            &&& text_of(r.error_title_bg_color) == if b.error_title_bg_color is Some { text_of(b.error_title_bg_color) } else { text_of(a.error_title_bg_color) }
            &&& text_of(r.error_title_fg_color) == if b.error_title_fg_color is Some { text_of(b.error_title_fg_color) } else { text_of(a.error_title_fg_color) }
            &&& text_of(r.error_selected_border_color) == if b.error_selected_border_color is Some { text_of(b.error_selected_border_color) } else { text_of(a.error_selected_border_color) }
            &&& text_of(r.error_selected_bg_color) == if b.error_selected_bg_color is Some { text_of(b.error_selected_bg_color) } else { text_of(a.error_selected_bg_color) }
            &&& text_of(r.error_selected_fg_color) == if b.error_selected_fg_color is Some { text_of(b.error_selected_fg_color) } else { text_of(a.error_selected_fg_color) }
            &&& text_of(r.error_selected_title_bg_color) == if b.error_selected_title_bg_color is Some { text_of(b.error_selected_title_bg_color) } else { text_of(a.error_selected_title_bg_color) }
            &&& text_of(r.error_selected_title_fg_color) == if b.error_selected_title_fg_color is Some { text_of(b.error_selected_title_fg_color) } else { text_of(a.error_selected_title_fg_color) }
            &&& text_of(r.overflow_behavior) == if b.overflow_behavior is Some { text_of(b.overflow_behavior) } else { text_of(a.overflow_behavior) }
            &&& r.root == if b.root is Some { b.root } else { a.root }
            &&& opt_keys(r.on_keypress) == if b.on_keypress is Some { opt_keys(b.on_keypress) } else { opt_keys(a.on_keypress) }
            &&& r.active == if b.active is Some { b.active } else { a.active }
            &&& opt_lines(r.muxbox_ids_in_tab_order) == if b.muxbox_ids_in_tab_order is Some { opt_lines(b.muxbox_ids_in_tab_order) } else { opt_lines(a.muxbox_ids_in_tab_order) }
            &&& r.id == a.id
            &&& r.children == a.children
        }),
{
    let m1 = spec_apply_layout(a, diff_part1(a, b));
    lemma_apply_part1(a, a, b);
    lemma_apply_part2(m1, a, b);
    lemma_apply_concat(a, diff_part1(a, b), diff_part2(a, b));
    let m2 = spec_apply_layout(m1, diff_part2(a, b));
    lemma_apply_part3(m2, a, b);
    lemma_apply_concat(a, diff_part1(a, b) + diff_part2(a, b), diff_part3(a, b));
    let m3 = spec_apply_layout(m2, diff_part3(a, b));
    lemma_apply_part4(m3, a, b);
    lemma_apply_concat(a, diff_part1(a, b) + diff_part2(a, b) + diff_part3(a, b), diff_part4(a, b));
    let m4 = spec_apply_layout(m3, diff_part4(a, b));
    assert(spec_layout_diff(a, b) == diff_part1(a, b) + diff_part2(a, b) + diff_part3(a, b) + diff_part4(a, b));
}

/// A layout compared with itself has no changes.
pub proof fn law_diff_of_same_layout_is_empty(a: Layout)
    ensures
        spec_layout_diff(a, a) == Seq::<LayoutChange>::empty(),
{
    reveal(layout_change_if);
    assert(diff_part1(a, a) =~= Seq::<LayoutChange>::empty());
    assert(diff_part2(a, a) =~= Seq::<LayoutChange>::empty());
    assert(diff_part3(a, a) =~= Seq::<LayoutChange>::empty());
    assert(diff_part4(a, a) =~= Seq::<LayoutChange>::empty());
    assert(spec_layout_diff(a, a) =~= Seq::<LayoutChange>::empty());
}

fn layout_change(a: &Layout, f: LayoutField) -> (c: LayoutChange)
    ensures
        c == (LayoutChange { entity: EntityType::Layout, entity_id: Some(a.id), field: f }),
{
    LayoutChange { entity: EntityType::Layout, entity_id: Some(a.id.clone()), field: f }
}

#[verifier::rlimit(60)]
fn push_part1(a: &Layout, b: &Layout, out: &mut Vec<LayoutChange>)
    ensures
        extends_like_layout(final(out)@, old(out)@, diff_part1(*a, *b)),
{
    let ghost start = out@;
    let ghost g0 = out@;
    push_title(a, b, out);
    let ghost g1 = out@;
    push_refresh_interval(a, b, out);
    proof { lemma_extends_concat(start, g1, out@, layout_change_if(text_of(a.title) != text_of(b.title) && b.title is Some, *a, LayoutField::Title(b.title->0)), layout_change_if(a.refresh_interval != b.refresh_interval && b.refresh_interval is Some, *a, LayoutField::RefreshInterval(b.refresh_interval->0))); }
    let ghost g2 = out@;
    push_fill(a, b, out);
    proof { lemma_extends_concat(start, g2, out@, layout_change_if(text_of(a.title) != text_of(b.title) && b.title is Some, *a, LayoutField::Title(b.title->0)) + layout_change_if(a.refresh_interval != b.refresh_interval && b.refresh_interval is Some, *a, LayoutField::RefreshInterval(b.refresh_interval->0)), layout_change_if(a.fill != b.fill && b.fill is Some, *a, LayoutField::Fill(b.fill->0))); }
    let ghost g3 = out@;
    push_fill_char(a, b, out);
    proof { lemma_extends_concat(start, g3, out@, layout_change_if(text_of(a.title) != text_of(b.title) && b.title is Some, *a, LayoutField::Title(b.title->0)) + layout_change_if(a.refresh_interval != b.refresh_interval && b.refresh_interval is Some, *a, LayoutField::RefreshInterval(b.refresh_interval->0)) + layout_change_if(a.fill != b.fill && b.fill is Some, *a, LayoutField::Fill(b.fill->0)), layout_change_if(a.fill_char != b.fill_char && b.fill_char is Some, *a, LayoutField::FillChar(b.fill_char->0))); }
    let ghost g4 = out@;
    push_selected_fill_char(a, b, out);
    proof { lemma_extends_concat(start, g4, out@, layout_change_if(text_of(a.title) != text_of(b.title) && b.title is Some, *a, LayoutField::Title(b.title->0)) + layout_change_if(a.refresh_interval != b.refresh_interval && b.refresh_interval is Some, *a, LayoutField::RefreshInterval(b.refresh_interval->0)) + layout_change_if(a.fill != b.fill && b.fill is Some, *a, LayoutField::Fill(b.fill->0)) + layout_change_if(a.fill_char != b.fill_char && b.fill_char is Some, *a, LayoutField::FillChar(b.fill_char->0)), layout_change_if(a.selected_fill_char != b.selected_fill_char && b.selected_fill_char is Some, *a, LayoutField::SelectedFillChar(b.selected_fill_char->0))); }
    let ghost g5 = out@;
    push_border(a, b, out);
    proof { lemma_extends_concat(start, g5, out@, layout_change_if(text_of(a.title) != text_of(b.title) && b.title is Some, *a, LayoutField::Title(b.title->0)) + layout_change_if(a.refresh_interval != b.refresh_interval && b.refresh_interval is Some, *a, LayoutField::RefreshInterval(b.refresh_interval->0)) + layout_change_if(a.fill != b.fill && b.fill is Some, *a, LayoutField::Fill(b.fill->0)) + layout_change_if(a.fill_char != b.fill_char && b.fill_char is Some, *a, LayoutField::FillChar(b.fill_char->0)) + layout_change_if(a.selected_fill_char != b.selected_fill_char && b.selected_fill_char is Some, *a, LayoutField::SelectedFillChar(b.selected_fill_char->0)), layout_change_if(a.border != b.border && b.border is Some, *a, LayoutField::Border(b.border->0))); }
    let ghost g6 = out@;
    push_border_color(a, b, out);
    proof { lemma_extends_concat(start, g6, out@, layout_change_if(text_of(a.title) != text_of(b.title) && b.title is Some, *a, LayoutField::Title(b.title->0)) + layout_change_if(a.refresh_interval != b.refresh_interval && b.refresh_interval is Some, *a, LayoutField::RefreshInterval(b.refresh_interval->0)) + layout_change_if(a.fill != b.fill && b.fill is Some, *a, LayoutField::Fill(b.fill->0)) + layout_change_if(a.fill_char != b.fill_char && b.fill_char is Some, *a, LayoutField::FillChar(b.fill_char->0)) + layout_change_if(a.selected_fill_char != b.selected_fill_char && b.selected_fill_char is Some, *a, LayoutField::SelectedFillChar(b.selected_fill_char->0)) + layout_change_if(a.border != b.border && b.border is Some, *a, LayoutField::Border(b.border->0)), layout_change_if(text_of(a.border_color) != text_of(b.border_color) && b.border_color is Some, *a, LayoutField::BorderColor(b.border_color->0))); }
    let ghost g7 = out@;
    push_selected_border_color(a, b, out);
    proof { lemma_extends_concat(start, g7, out@, layout_change_if(text_of(a.title) != text_of(b.title) && b.title is Some, *a, LayoutField::Title(b.title->0)) + layout_change_if(a.refresh_interval != b.refresh_interval && b.refresh_interval is Some, *a, LayoutField::RefreshInterval(b.refresh_interval->0)) + layout_change_if(a.fill != b.fill && b.fill is Some, *a, LayoutField::Fill(b.fill->0)) + layout_change_if(a.fill_char != b.fill_char && b.fill_char is Some, *a, LayoutField::FillChar(b.fill_char->0)) + layout_change_if(a.selected_fill_char != b.selected_fill_char && b.selected_fill_char is Some, *a, LayoutField::SelectedFillChar(b.selected_fill_char->0)) + layout_change_if(a.border != b.border && b.border is Some, *a, LayoutField::Border(b.border->0)) + layout_change_if(text_of(a.border_color) != text_of(b.border_color) && b.border_color is Some, *a, LayoutField::BorderColor(b.border_color->0)), layout_change_if(text_of(a.selected_border_color) != text_of(b.selected_border_color) && b.selected_border_color is Some, *a, LayoutField::SelectedBorderColor(b.selected_border_color->0))); }
    let ghost g8 = out@;
    push_bg_color(a, b, out);
    proof { lemma_extends_concat(start, g8, out@, layout_change_if(text_of(a.title) != text_of(b.title) && b.title is Some, *a, LayoutField::Title(b.title->0)) + layout_change_if(a.refresh_interval != b.refresh_interval && b.refresh_interval is Some, *a, LayoutField::RefreshInterval(b.refresh_interval->0)) + layout_change_if(a.fill != b.fill && b.fill is Some, *a, LayoutField::Fill(b.fill->0)) + layout_change_if(a.fill_char != b.fill_char && b.fill_char is Some, *a, LayoutField::FillChar(b.fill_char->0)) + layout_change_if(a.selected_fill_char != b.selected_fill_char && b.selected_fill_char is Some, *a, LayoutField::SelectedFillChar(b.selected_fill_char->0)) + layout_change_if(a.border != b.border && b.border is Some, *a, LayoutField::Border(b.border->0)) + layout_change_if(text_of(a.border_color) != text_of(b.border_color) && b.border_color is Some, *a, LayoutField::BorderColor(b.border_color->0)) + layout_change_if(text_of(a.selected_border_color) != text_of(b.selected_border_color) && b.selected_border_color is Some, *a, LayoutField::SelectedBorderColor(b.selected_border_color->0)), layout_change_if(text_of(a.bg_color) != text_of(b.bg_color) && b.bg_color is Some, *a, LayoutField::BgColor(b.bg_color->0))); }
    let ghost g9 = out@;
    push_selected_bg_color(a, b, out);
    proof { lemma_extends_concat(start, g9, out@, layout_change_if(text_of(a.title) != text_of(b.title) && b.title is Some, *a, LayoutField::Title(b.title->0)) + layout_change_if(a.refresh_interval != b.refresh_interval && b.refresh_interval is Some, *a, LayoutField::RefreshInterval(b.refresh_interval->0)) + layout_change_if(a.fill != b.fill && b.fill is Some, *a, LayoutField::Fill(b.fill->0)) + layout_change_if(a.fill_char != b.fill_char && b.fill_char is Some, *a, LayoutField::FillChar(b.fill_char->0)) + layout_change_if(a.selected_fill_char != b.selected_fill_char && b.selected_fill_char is Some, *a, LayoutField::SelectedFillChar(b.selected_fill_char->0)) + layout_change_if(a.border != b.border && b.border is Some, *a, LayoutField::Border(b.border->0)) + layout_change_if(text_of(a.border_color) != text_of(b.border_color) && b.border_color is Some, *a, LayoutField::BorderColor(b.border_color->0)) + layout_change_if(text_of(a.selected_border_color) != text_of(b.selected_border_color) && b.selected_border_color is Some, *a, LayoutField::SelectedBorderColor(b.selected_border_color->0)) + layout_change_if(text_of(a.bg_color) != text_of(b.bg_color) && b.bg_color is Some, *a, LayoutField::BgColor(b.bg_color->0)), layout_change_if(text_of(a.selected_bg_color) != text_of(b.selected_bg_color) && b.selected_bg_color is Some, *a, LayoutField::SelectedBgColor(b.selected_bg_color->0))); }
    assert(diff_part1(*a, *b) == layout_change_if(text_of(a.title) != text_of(b.title) && b.title is Some, *a, LayoutField::Title(b.title->0)) + layout_change_if(a.refresh_interval != b.refresh_interval && b.refresh_interval is Some, *a, LayoutField::RefreshInterval(b.refresh_interval->0)) + layout_change_if(a.fill != b.fill && b.fill is Some, *a, LayoutField::Fill(b.fill->0)) + layout_change_if(a.fill_char != b.fill_char && b.fill_char is Some, *a, LayoutField::FillChar(b.fill_char->0)) + layout_change_if(a.selected_fill_char != b.selected_fill_char && b.selected_fill_char is Some, *a, LayoutField::SelectedFillChar(b.selected_fill_char->0)) + layout_change_if(a.border != b.border && b.border is Some, *a, LayoutField::Border(b.border->0)) + layout_change_if(text_of(a.border_color) != text_of(b.border_color) && b.border_color is Some, *a, LayoutField::BorderColor(b.border_color->0)) + layout_change_if(text_of(a.selected_border_color) != text_of(b.selected_border_color) && b.selected_border_color is Some, *a, LayoutField::SelectedBorderColor(b.selected_border_color->0)) + layout_change_if(text_of(a.bg_color) != text_of(b.bg_color) && b.bg_color is Some, *a, LayoutField::BgColor(b.bg_color->0)) + layout_change_if(text_of(a.selected_bg_color) != text_of(b.selected_bg_color) && b.selected_bg_color is Some, *a, LayoutField::SelectedBgColor(b.selected_bg_color->0)));
}

fn push_title(a: &Layout, b: &Layout, out: &mut Vec<LayoutChange>)
    ensures
        extends_like_layout(final(out)@, old(out)@, layout_change_if(text_of(a.title) != text_of(b.title) && b.title is Some, *a, LayoutField::Title(b.title->0))),
{
    let ghost start = out@;
    if !same_text(&a.title, &b.title) {
        if let Some(v) = &b.title {
            out.push(layout_change(a, LayoutField::Title(v.clone())));
        }
    }
    reveal(layout_change_if);
    assert(extends_like_layout(out@, start, layout_change_if(text_of(a.title) != text_of(b.title) && b.title is Some, *a, LayoutField::Title(b.title->0))));
}

fn push_refresh_interval(a: &Layout, b: &Layout, out: &mut Vec<LayoutChange>)
    ensures
        extends_like_layout(final(out)@, old(out)@, layout_change_if(a.refresh_interval != b.refresh_interval && b.refresh_interval is Some, *a, LayoutField::RefreshInterval(b.refresh_interval->0))),
{
    let ghost start = out@;
    match (a.refresh_interval, b.refresh_interval) {
        (Some(x), Some(y)) => {
            if x != y {
                out.push(layout_change(a, LayoutField::RefreshInterval(y)));
            }
        },
        (None, Some(y)) => {
            out.push(layout_change(a, LayoutField::RefreshInterval(y)));
        },
        _ => {},
    }
    reveal(layout_change_if);
    assert(extends_like_layout(out@, start, layout_change_if(a.refresh_interval != b.refresh_interval && b.refresh_interval is Some, *a, LayoutField::RefreshInterval(b.refresh_interval->0))));
}

fn push_fill(a: &Layout, b: &Layout, out: &mut Vec<LayoutChange>)
    ensures
        extends_like_layout(final(out)@, old(out)@, layout_change_if(a.fill != b.fill && b.fill is Some, *a, LayoutField::Fill(b.fill->0))),
{
    let ghost start = out@;
    match (a.fill, b.fill) {
        (Some(x), Some(y)) => {
            if x != y {
                out.push(layout_change(a, LayoutField::Fill(y)));
            }
        },
        (None, Some(y)) => {
            out.push(layout_change(a, LayoutField::Fill(y)));
        },
        _ => {},
    }
    reveal(layout_change_if);
    assert(extends_like_layout(out@, start, layout_change_if(a.fill != b.fill && b.fill is Some, *a, LayoutField::Fill(b.fill->0))));
}

fn push_fill_char(a: &Layout, b: &Layout, out: &mut Vec<LayoutChange>)
    ensures
        extends_like_layout(final(out)@, old(out)@, layout_change_if(a.fill_char != b.fill_char && b.fill_char is Some, *a, LayoutField::FillChar(b.fill_char->0))),
{
    let ghost start = out@;
    match (a.fill_char, b.fill_char) {
        (Some(x), Some(y)) => {
            if x != y {
                out.push(layout_change(a, LayoutField::FillChar(y)));
            }
        },
        (None, Some(y)) => {
            out.push(layout_change(a, LayoutField::FillChar(y)));
        },
        _ => {},
    }
    reveal(layout_change_if);
    assert(extends_like_layout(out@, start, layout_change_if(a.fill_char != b.fill_char && b.fill_char is Some, *a, LayoutField::FillChar(b.fill_char->0))));
}

fn push_selected_fill_char(a: &Layout, b: &Layout, out: &mut Vec<LayoutChange>)
    ensures
        extends_like_layout(final(out)@, old(out)@, layout_change_if(a.selected_fill_char != b.selected_fill_char && b.selected_fill_char is Some, *a, LayoutField::SelectedFillChar(b.selected_fill_char->0))),
{
    let ghost start = out@;
    match (a.selected_fill_char, b.selected_fill_char) {
        (Some(x), Some(y)) => {
            if x != y {
                out.push(layout_change(a, LayoutField::SelectedFillChar(y)));
            }
        },
        (None, Some(y)) => {
            out.push(layout_change(a, LayoutField::SelectedFillChar(y)));
        },
        _ => {},
    }
    reveal(layout_change_if);
    assert(extends_like_layout(out@, start, layout_change_if(a.selected_fill_char != b.selected_fill_char && b.selected_fill_char is Some, *a, LayoutField::SelectedFillChar(b.selected_fill_char->0))));
}

fn push_border(a: &Layout, b: &Layout, out: &mut Vec<LayoutChange>)
    ensures
        extends_like_layout(final(out)@, old(out)@, layout_change_if(a.border != b.border && b.border is Some, *a, LayoutField::Border(b.border->0))),
{
    let ghost start = out@;
    match (a.border, b.border) {
        (Some(x), Some(y)) => {
            if x != y {
                out.push(layout_change(a, LayoutField::Border(y)));
            }
        },
        (None, Some(y)) => {
            out.push(layout_change(a, LayoutField::Border(y)));
        },
        _ => {},
    }
    reveal(layout_change_if);
    assert(extends_like_layout(out@, start, layout_change_if(a.border != b.border && b.border is Some, *a, LayoutField::Border(b.border->0))));
}

fn push_border_color(a: &Layout, b: &Layout, out: &mut Vec<LayoutChange>)
    ensures
        extends_like_layout(final(out)@, old(out)@, layout_change_if(text_of(a.border_color) != text_of(b.border_color) && b.border_color is Some, *a, LayoutField::BorderColor(b.border_color->0))),
{
    let ghost start = out@;
    if !same_text(&a.border_color, &b.border_color) {
        if let Some(v) = &b.border_color {
            out.push(layout_change(a, LayoutField::BorderColor(v.clone())));
        }
    }
    reveal(layout_change_if);
    assert(extends_like_layout(out@, start, layout_change_if(text_of(a.border_color) != text_of(b.border_color) && b.border_color is Some, *a, LayoutField::BorderColor(b.border_color->0))));
}

fn push_selected_border_color(a: &Layout, b: &Layout, out: &mut Vec<LayoutChange>)
    ensures
        extends_like_layout(final(out)@, old(out)@, layout_change_if(text_of(a.selected_border_color) != text_of(b.selected_border_color) && b.selected_border_color is Some, *a, LayoutField::SelectedBorderColor(b.selected_border_color->0))),
{
    let ghost start = out@;
    if !same_text(&a.selected_border_color, &b.selected_border_color) {
        if let Some(v) = &b.selected_border_color {
            out.push(layout_change(a, LayoutField::SelectedBorderColor(v.clone())));
        }
    }
    reveal(layout_change_if);
    assert(extends_like_layout(out@, start, layout_change_if(text_of(a.selected_border_color) != text_of(b.selected_border_color) && b.selected_border_color is Some, *a, LayoutField::SelectedBorderColor(b.selected_border_color->0))));
}

fn push_bg_color(a: &Layout, b: &Layout, out: &mut Vec<LayoutChange>)
    ensures
        extends_like_layout(final(out)@, old(out)@, layout_change_if(text_of(a.bg_color) != text_of(b.bg_color) && b.bg_color is Some, *a, LayoutField::BgColor(b.bg_color->0))),
{
    let ghost start = out@;
    if !same_text(&a.bg_color, &b.bg_color) {
        if let Some(v) = &b.bg_color {
            out.push(layout_change(a, LayoutField::BgColor(v.clone())));
        }
    }
    reveal(layout_change_if);
    assert(extends_like_layout(out@, start, layout_change_if(text_of(a.bg_color) != text_of(b.bg_color) && b.bg_color is Some, *a, LayoutField::BgColor(b.bg_color->0))));
}

fn push_selected_bg_color(a: &Layout, b: &Layout, out: &mut Vec<LayoutChange>)
    ensures
        extends_like_layout(final(out)@, old(out)@, layout_change_if(text_of(a.selected_bg_color) != text_of(b.selected_bg_color) && b.selected_bg_color is Some, *a, LayoutField::SelectedBgColor(b.selected_bg_color->0))),
{
    let ghost start = out@;
    if !same_text(&a.selected_bg_color, &b.selected_bg_color) {
        if let Some(v) = &b.selected_bg_color {
            out.push(layout_change(a, LayoutField::SelectedBgColor(v.clone())));
        }
    }
    reveal(layout_change_if);
    assert(extends_like_layout(out@, start, layout_change_if(text_of(a.selected_bg_color) != text_of(b.selected_bg_color) && b.selected_bg_color is Some, *a, LayoutField::SelectedBgColor(b.selected_bg_color->0))));
}

#[verifier::rlimit(60)]
fn push_part2(a: &Layout, b: &Layout, out: &mut Vec<LayoutChange>)
    ensures
        extends_like_layout(final(out)@, old(out)@, diff_part2(*a, *b)),
{
    let ghost start = out@;
    let ghost g0 = out@;
    push_fg_color(a, b, out);
    let ghost g1 = out@;
    push_selected_fg_color(a, b, out);
    proof { lemma_extends_concat(start, g1, out@, layout_change_if(text_of(a.fg_color) != text_of(b.fg_color) && b.fg_color is Some, *a, LayoutField::FgColor(b.fg_color->0)), layout_change_if(text_of(a.selected_fg_color) != text_of(b.selected_fg_color) && b.selected_fg_color is Some, *a, LayoutField::SelectedFgColor(b.selected_fg_color->0))); }
    let ghost g2 = out@;
    push_title_fg_color(a, b, out);
    proof { lemma_extends_concat(start, g2, out@, layout_change_if(text_of(a.fg_color) != text_of(b.fg_color) && b.fg_color is Some, *a, LayoutField::FgColor(b.fg_color->0)) + layout_change_if(text_of(a.selected_fg_color) != text_of(b.selected_fg_color) && b.selected_fg_color is Some, *a, LayoutField::SelectedFgColor(b.selected_fg_color->0)), layout_change_if(text_of(a.title_fg_color) != text_of(b.title_fg_color) && b.title_fg_color is Some, *a, LayoutField::TitleFgColor(b.title_fg_color->0))); }
    let ghost g3 = out@;
    push_title_bg_color(a, b, out);
    proof { lemma_extends_concat(start, g3, out@, layout_change_if(text_of(a.fg_color) != text_of(b.fg_color) && b.fg_color is Some, *a, LayoutField::FgColor(b.fg_color->0)) + layout_change_if(text_of(a.selected_fg_color) != text_of(b.selected_fg_color) && b.selected_fg_color is Some, *a, LayoutField::SelectedFgColor(b.selected_fg_color->0)) + layout_change_if(text_of(a.title_fg_color) != text_of(b.title_fg_color) && b.title_fg_color is Some, *a, LayoutField::TitleFgColor(b.title_fg_color->0)), layout_change_if(text_of(a.title_bg_color) != text_of(b.title_bg_color) && b.title_bg_color is Some, *a, LayoutField::TitleBgColor(b.title_bg_color->0))); }
    let ghost g4 = out@;
    push_title_position(a, b, out);
    proof { lemma_extends_concat(start, g4, out@, layout_change_if(text_of(a.fg_color) != text_of(b.fg_color) && b.fg_color is Some, *a, LayoutField::FgColor(b.fg_color->0)) + layout_change_if(text_of(a.selected_fg_color) != text_of(b.selected_fg_color) && b.selected_fg_color is Some, *a, LayoutField::SelectedFgColor(b.selected_fg_color->0)) + layout_change_if(text_of(a.title_fg_color) != text_of(b.title_fg_color) && b.title_fg_color is Some, *a, LayoutField::TitleFgColor(b.title_fg_color->0)) + layout_change_if(text_of(a.title_bg_color) != text_of(b.title_bg_color) && b.title_bg_color is Some, *a, LayoutField::TitleBgColor(b.title_bg_color->0)), layout_change_if(text_of(a.title_position) != text_of(b.title_position) && b.title_position is Some, *a, LayoutField::TitlePosition(b.title_position->0))); }
    let ghost g5 = out@;
    push_selected_title_bg_color(a, b, out);
    proof { lemma_extends_concat(start, g5, out@, layout_change_if(text_of(a.fg_color) != text_of(b.fg_color) && b.fg_color is Some, *a, LayoutField::FgColor(b.fg_color->0)) + layout_change_if(text_of(a.selected_fg_color) != text_of(b.selected_fg_color) && b.selected_fg_color is Some, *a, LayoutField::SelectedFgColor(b.selected_fg_color->0)) + layout_change_if(text_of(a.title_fg_color) != text_of(b.title_fg_color) && b.title_fg_color is Some, *a, LayoutField::TitleFgColor(b.title_fg_color->0)) + layout_change_if(text_of(a.title_bg_color) != text_of(b.title_bg_color) && b.title_bg_color is Some, *a, LayoutField::TitleBgColor(b.title_bg_color->0)) + layout_change_if(text_of(a.title_position) != text_of(b.title_position) && b.title_position is Some, *a, LayoutField::TitlePosition(b.title_position->0)), layout_change_if(text_of(a.selected_title_bg_color) != text_of(b.selected_title_bg_color) && b.selected_title_bg_color is Some, *a, LayoutField::SelectedTitleBgColor(b.selected_title_bg_color->0))); }
    let ghost g6 = out@;
    push_selected_title_fg_color(a, b, out);
    proof { lemma_extends_concat(start, g6, out@, layout_change_if(text_of(a.fg_color) != text_of(b.fg_color) && b.fg_color is Some, *a, LayoutField::FgColor(b.fg_color->0)) + layout_change_if(text_of(a.selected_fg_color) != text_of(b.selected_fg_color) && b.selected_fg_color is Some, *a, LayoutField::SelectedFgColor(b.selected_fg_color->0)) + layout_change_if(text_of(a.title_fg_color) != text_of(b.title_fg_color) && b.title_fg_color is Some, *a, LayoutField::TitleFgColor(b.title_fg_color->0)) + layout_change_if(text_of(a.title_bg_color) != text_of(b.title_bg_color) && b.title_bg_color is Some, *a, LayoutField::TitleBgColor(b.title_bg_color->0)) + layout_change_if(text_of(a.title_position) != text_of(b.title_position) && b.title_position is Some, *a, LayoutField::TitlePosition(b.title_position->0)) + layout_change_if(text_of(a.selected_title_bg_color) != text_of(b.selected_title_bg_color) && b.selected_title_bg_color is Some, *a, LayoutField::SelectedTitleBgColor(b.selected_title_bg_color->0)), layout_change_if(text_of(a.selected_title_fg_color) != text_of(b.selected_title_fg_color) && b.selected_title_fg_color is Some, *a, LayoutField::SelectedTitleFgColor(b.selected_title_fg_color->0))); }
    let ghost g7 = out@;
    push_menu_fg_color(a, b, out);
    proof { lemma_extends_concat(start, g7, out@, layout_change_if(text_of(a.fg_color) != text_of(b.fg_color) && b.fg_color is Some, *a, LayoutField::FgColor(b.fg_color->0)) + layout_change_if(text_of(a.selected_fg_color) != text_of(b.selected_fg_color) && b.selected_fg_color is Some, *a, LayoutField::SelectedFgColor(b.selected_fg_color->0)) + layout_change_if(text_of(a.title_fg_color) != text_of(b.title_fg_color) && b.title_fg_color is Some, *a, LayoutField::TitleFgColor(b.title_fg_color->0)) + layout_change_if(text_of(a.title_bg_color) != text_of(b.title_bg_color) && b.title_bg_color is Some, *a, LayoutField::TitleBgColor(b.title_bg_color->0)) + layout_change_if(text_of(a.title_position) != text_of(b.title_position) && b.title_position is Some, *a, LayoutField::TitlePosition(b.title_position->0)) + layout_change_if(text_of(a.selected_title_bg_color) != text_of(b.selected_title_bg_color) && b.selected_title_bg_color is Some, *a, LayoutField::SelectedTitleBgColor(b.selected_title_bg_color->0)) + layout_change_if(text_of(a.selected_title_fg_color) != text_of(b.selected_title_fg_color) && b.selected_title_fg_color is Some, *a, LayoutField::SelectedTitleFgColor(b.selected_title_fg_color->0)), layout_change_if(text_of(a.menu_fg_color) != text_of(b.menu_fg_color) && b.menu_fg_color is Some, *a, LayoutField::MenuFgColor(b.menu_fg_color->0))); }
    let ghost g8 = out@;
    push_menu_bg_color(a, b, out);
    proof { lemma_extends_concat(start, g8, out@, layout_change_if(text_of(a.fg_color) != text_of(b.fg_color) && b.fg_color is Some, *a, LayoutField::FgColor(b.fg_color->0)) + layout_change_if(text_of(a.selected_fg_color) != text_of(b.selected_fg_color) && b.selected_fg_color is Some, *a, LayoutField::SelectedFgColor(b.selected_fg_color->0)) + layout_change_if(text_of(a.title_fg_color) != text_of(b.title_fg_color) && b.title_fg_color is Some, *a, LayoutField::TitleFgColor(b.title_fg_color->0)) + layout_change_if(text_of(a.title_bg_color) != text_of(b.title_bg_color) && b.title_bg_color is Some, *a, LayoutField::TitleBgColor(b.title_bg_color->0)) + layout_change_if(text_of(a.title_position) != text_of(b.title_position) && b.title_position is Some, *a, LayoutField::TitlePosition(b.title_position->0)) + layout_change_if(text_of(a.selected_title_bg_color) != text_of(b.selected_title_bg_color) && b.selected_title_bg_color is Some, *a, LayoutField::SelectedTitleBgColor(b.selected_title_bg_color->0)) + layout_change_if(text_of(a.selected_title_fg_color) != text_of(b.selected_title_fg_color) && b.selected_title_fg_color is Some, *a, LayoutField::SelectedTitleFgColor(b.selected_title_fg_color->0)) + layout_change_if(text_of(a.menu_fg_color) != text_of(b.menu_fg_color) && b.menu_fg_color is Some, *a, LayoutField::MenuFgColor(b.menu_fg_color->0)), layout_change_if(text_of(a.menu_bg_color) != text_of(b.menu_bg_color) && b.menu_bg_color is Some, *a, LayoutField::MenuBgColor(b.menu_bg_color->0))); }
    let ghost g9 = out@;
    push_selected_menu_fg_color(a, b, out);
    proof { lemma_extends_concat(start, g9, out@, layout_change_if(text_of(a.fg_color) != text_of(b.fg_color) && b.fg_color is Some, *a, LayoutField::FgColor(b.fg_color->0)) + layout_change_if(text_of(a.selected_fg_color) != text_of(b.selected_fg_color) && b.selected_fg_color is Some, *a, LayoutField::SelectedFgColor(b.selected_fg_color->0)) + layout_change_if(text_of(a.title_fg_color) != text_of(b.title_fg_color) && b.title_fg_color is Some, *a, LayoutField::TitleFgColor(b.title_fg_color->0)) + layout_change_if(text_of(a.title_bg_color) != text_of(b.title_bg_color) && b.title_bg_color is Some, *a, LayoutField::TitleBgColor(b.title_bg_color->0)) + layout_change_if(text_of(a.title_position) != text_of(b.title_position) && b.title_position is Some, *a, LayoutField::TitlePosition(b.title_position->0)) + layout_change_if(text_of(a.selected_title_bg_color) != text_of(b.selected_title_bg_color) && b.selected_title_bg_color is Some, *a, LayoutField::SelectedTitleBgColor(b.selected_title_bg_color->0)) + layout_change_if(text_of(a.selected_title_fg_color) != text_of(b.selected_title_fg_color) && b.selected_title_fg_color is Some, *a, LayoutField::SelectedTitleFgColor(b.selected_title_fg_color->0)) + layout_change_if(text_of(a.menu_fg_color) != text_of(b.menu_fg_color) && b.menu_fg_color is Some, *a, LayoutField::MenuFgColor(b.menu_fg_color->0)) + layout_change_if(text_of(a.menu_bg_color) != text_of(b.menu_bg_color) && b.menu_bg_color is Some, *a, LayoutField::MenuBgColor(b.menu_bg_color->0)), layout_change_if(text_of(a.selected_menu_fg_color) != text_of(b.selected_menu_fg_color) && b.selected_menu_fg_color is Some, *a, LayoutField::SelectedMenuFgColor(b.selected_menu_fg_color->0))); }
    assert(diff_part2(*a, *b) == layout_change_if(text_of(a.fg_color) != text_of(b.fg_color) && b.fg_color is Some, *a, LayoutField::FgColor(b.fg_color->0)) + layout_change_if(text_of(a.selected_fg_color) != text_of(b.selected_fg_color) && b.selected_fg_color is Some, *a, LayoutField::SelectedFgColor(b.selected_fg_color->0)) + layout_change_if(text_of(a.title_fg_color) != text_of(b.title_fg_color) && b.title_fg_color is Some, *a, LayoutField::TitleFgColor(b.title_fg_color->0)) + layout_change_if(text_of(a.title_bg_color) != text_of(b.title_bg_color) && b.title_bg_color is Some, *a, LayoutField::TitleBgColor(b.title_bg_color->0)) + layout_change_if(text_of(a.title_position) != text_of(b.title_position) && b.title_position is Some, *a, LayoutField::TitlePosition(b.title_position->0)) + layout_change_if(text_of(a.selected_title_bg_color) != text_of(b.selected_title_bg_color) && b.selected_title_bg_color is Some, *a, LayoutField::SelectedTitleBgColor(b.selected_title_bg_color->0)) + layout_change_if(text_of(a.selected_title_fg_color) != text_of(b.selected_title_fg_color) && b.selected_title_fg_color is Some, *a, LayoutField::SelectedTitleFgColor(b.selected_title_fg_color->0)) + layout_change_if(text_of(a.menu_fg_color) != text_of(b.menu_fg_color) && b.menu_fg_color is Some, *a, LayoutField::MenuFgColor(b.menu_fg_color->0)) + layout_change_if(text_of(a.menu_bg_color) != text_of(b.menu_bg_color) && b.menu_bg_color is Some, *a, LayoutField::MenuBgColor(b.menu_bg_color->0)) + layout_change_if(text_of(a.selected_menu_fg_color) != text_of(b.selected_menu_fg_color) && b.selected_menu_fg_color is Some, *a, LayoutField::SelectedMenuFgColor(b.selected_menu_fg_color->0)));
}

fn push_fg_color(a: &Layout, b: &Layout, out: &mut Vec<LayoutChange>)
    ensures
        extends_like_layout(final(out)@, old(out)@, layout_change_if(text_of(a.fg_color) != text_of(b.fg_color) && b.fg_color is Some, *a, LayoutField::FgColor(b.fg_color->0))),
{
    let ghost start = out@;
    if !same_text(&a.fg_color, &b.fg_color) {
        if let Some(v) = &b.fg_color {
            out.push(layout_change(a, LayoutField::FgColor(v.clone())));
        }
    }
    reveal(layout_change_if);
    assert(extends_like_layout(out@, start, layout_change_if(text_of(a.fg_color) != text_of(b.fg_color) && b.fg_color is Some, *a, LayoutField::FgColor(b.fg_color->0))));
}

fn push_selected_fg_color(a: &Layout, b: &Layout, out: &mut Vec<LayoutChange>)
    ensures
        extends_like_layout(final(out)@, old(out)@, layout_change_if(text_of(a.selected_fg_color) != text_of(b.selected_fg_color) && b.selected_fg_color is Some, *a, LayoutField::SelectedFgColor(b.selected_fg_color->0))),
{
    let ghost start = out@;
    if !same_text(&a.selected_fg_color, &b.selected_fg_color) {
        if let Some(v) = &b.selected_fg_color {
            out.push(layout_change(a, LayoutField::SelectedFgColor(v.clone())));
        }
    }
    reveal(layout_change_if);
    assert(extends_like_layout(out@, start, layout_change_if(text_of(a.selected_fg_color) != text_of(b.selected_fg_color) && b.selected_fg_color is Some, *a, LayoutField::SelectedFgColor(b.selected_fg_color->0))));
}

fn push_title_fg_color(a: &Layout, b: &Layout, out: &mut Vec<LayoutChange>)
    ensures
        extends_like_layout(final(out)@, old(out)@, layout_change_if(text_of(a.title_fg_color) != text_of(b.title_fg_color) && b.title_fg_color is Some, *a, LayoutField::TitleFgColor(b.title_fg_color->0))),
{
    let ghost start = out@;
    if !same_text(&a.title_fg_color, &b.title_fg_color) {
        if let Some(v) = &b.title_fg_color {
            out.push(layout_change(a, LayoutField::TitleFgColor(v.clone())));
        }
    }
    reveal(layout_change_if);
    assert(extends_like_layout(out@, start, layout_change_if(text_of(a.title_fg_color) != text_of(b.title_fg_color) && b.title_fg_color is Some, *a, LayoutField::TitleFgColor(b.title_fg_color->0))));
}

fn push_title_bg_color(a: &Layout, b: &Layout, out: &mut Vec<LayoutChange>)
    ensures
        extends_like_layout(final(out)@, old(out)@, layout_change_if(text_of(a.title_bg_color) != text_of(b.title_bg_color) && b.title_bg_color is Some, *a, LayoutField::TitleBgColor(b.title_bg_color->0))),
{
    let ghost start = out@;
    if !same_text(&a.title_bg_color, &b.title_bg_color) {
        if let Some(v) = &b.title_bg_color {
            out.push(layout_change(a, LayoutField::TitleBgColor(v.clone())));
        }
    }
    reveal(layout_change_if);
    assert(extends_like_layout(out@, start, layout_change_if(text_of(a.title_bg_color) != text_of(b.title_bg_color) && b.title_bg_color is Some, *a, LayoutField::TitleBgColor(b.title_bg_color->0))));
}

fn push_title_position(a: &Layout, b: &Layout, out: &mut Vec<LayoutChange>)
    ensures
        extends_like_layout(final(out)@, old(out)@, layout_change_if(text_of(a.title_position) != text_of(b.title_position) && b.title_position is Some, *a, LayoutField::TitlePosition(b.title_position->0))),
{
    let ghost start = out@;
    if !same_text(&a.title_position, &b.title_position) {
        if let Some(v) = &b.title_position {
            out.push(layout_change(a, LayoutField::TitlePosition(v.clone())));
        }
    }
    reveal(layout_change_if);
    assert(extends_like_layout(out@, start, layout_change_if(text_of(a.title_position) != text_of(b.title_position) && b.title_position is Some, *a, LayoutField::TitlePosition(b.title_position->0))));
}

fn push_selected_title_bg_color(a: &Layout, b: &Layout, out: &mut Vec<LayoutChange>)
    ensures
        extends_like_layout(final(out)@, old(out)@, layout_change_if(text_of(a.selected_title_bg_color) != text_of(b.selected_title_bg_color) && b.selected_title_bg_color is Some, *a, LayoutField::SelectedTitleBgColor(b.selected_title_bg_color->0))),
{
    let ghost start = out@;
    if !same_text(&a.selected_title_bg_color, &b.selected_title_bg_color) {
        if let Some(v) = &b.selected_title_bg_color {
            out.push(layout_change(a, LayoutField::SelectedTitleBgColor(v.clone())));
        }
    }
    reveal(layout_change_if);
    assert(extends_like_layout(out@, start, layout_change_if(text_of(a.selected_title_bg_color) != text_of(b.selected_title_bg_color) && b.selected_title_bg_color is Some, *a, LayoutField::SelectedTitleBgColor(b.selected_title_bg_color->0))));
}

fn push_selected_title_fg_color(a: &Layout, b: &Layout, out: &mut Vec<LayoutChange>)
    ensures
        extends_like_layout(final(out)@, old(out)@, layout_change_if(text_of(a.selected_title_fg_color) != text_of(b.selected_title_fg_color) && b.selected_title_fg_color is Some, *a, LayoutField::SelectedTitleFgColor(b.selected_title_fg_color->0))),
{
    let ghost start = out@;
    if !same_text(&a.selected_title_fg_color, &b.selected_title_fg_color) {
        if let Some(v) = &b.selected_title_fg_color {
            out.push(layout_change(a, LayoutField::SelectedTitleFgColor(v.clone())));
        }
    }
    reveal(layout_change_if);
    assert(extends_like_layout(out@, start, layout_change_if(text_of(a.selected_title_fg_color) != text_of(b.selected_title_fg_color) && b.selected_title_fg_color is Some, *a, LayoutField::SelectedTitleFgColor(b.selected_title_fg_color->0))));
}

fn push_menu_fg_color(a: &Layout, b: &Layout, out: &mut Vec<LayoutChange>)
    ensures
        extends_like_layout(final(out)@, old(out)@, layout_change_if(text_of(a.menu_fg_color) != text_of(b.menu_fg_color) && b.menu_fg_color is Some, *a, LayoutField::MenuFgColor(b.menu_fg_color->0))),
{
    let ghost start = out@;
    if !same_text(&a.menu_fg_color, &b.menu_fg_color) {
        if let Some(v) = &b.menu_fg_color {
            out.push(layout_change(a, LayoutField::MenuFgColor(v.clone())));
        }
    }
    reveal(layout_change_if);
    assert(extends_like_layout(out@, start, layout_change_if(text_of(a.menu_fg_color) != text_of(b.menu_fg_color) && b.menu_fg_color is Some, *a, LayoutField::MenuFgColor(b.menu_fg_color->0))));
}

fn push_menu_bg_color(a: &Layout, b: &Layout, out: &mut Vec<LayoutChange>)
    ensures
        extends_like_layout(final(out)@, old(out)@, layout_change_if(text_of(a.menu_bg_color) != text_of(b.menu_bg_color) && b.menu_bg_color is Some, *a, LayoutField::MenuBgColor(b.menu_bg_color->0))),
{
    let ghost start = out@;
    if !same_text(&a.menu_bg_color, &b.menu_bg_color) {
        if let Some(v) = &b.menu_bg_color {
            out.push(layout_change(a, LayoutField::MenuBgColor(v.clone())));
        }
    }
    reveal(layout_change_if);
    assert(extends_like_layout(out@, start, layout_change_if(text_of(a.menu_bg_color) != text_of(b.menu_bg_color) && b.menu_bg_color is Some, *a, LayoutField::MenuBgColor(b.menu_bg_color->0))));
}

fn push_selected_menu_fg_color(a: &Layout, b: &Layout, out: &mut Vec<LayoutChange>)
    ensures
        extends_like_layout(final(out)@, old(out)@, layout_change_if(text_of(a.selected_menu_fg_color) != text_of(b.selected_menu_fg_color) && b.selected_menu_fg_color is Some, *a, LayoutField::SelectedMenuFgColor(b.selected_menu_fg_color->0))),
{
    let ghost start = out@;
    if !same_text(&a.selected_menu_fg_color, &b.selected_menu_fg_color) {
        if let Some(v) = &b.selected_menu_fg_color {
            out.push(layout_change(a, LayoutField::SelectedMenuFgColor(v.clone())));
        }
    }
    reveal(layout_change_if);
    assert(extends_like_layout(out@, start, layout_change_if(text_of(a.selected_menu_fg_color) != text_of(b.selected_menu_fg_color) && b.selected_menu_fg_color is Some, *a, LayoutField::SelectedMenuFgColor(b.selected_menu_fg_color->0))));
}

#[verifier::rlimit(60)]
fn push_part3(a: &Layout, b: &Layout, out: &mut Vec<LayoutChange>)
    ensures
        extends_like_layout(final(out)@, old(out)@, diff_part3(*a, *b)),
{
    let ghost start = out@;
    let ghost g0 = out@;
    push_selected_menu_bg_color(a, b, out);
    let ghost g1 = out@;
    push_error_border_color(a, b, out);
    proof { lemma_extends_concat(start, g1, out@, layout_change_if(text_of(a.selected_menu_bg_color) != text_of(b.selected_menu_bg_color) && b.selected_menu_bg_color is Some, *a, LayoutField::SelectedMenuBgColor(b.selected_menu_bg_color->0)), layout_change_if(text_of(a.error_border_color) != text_of(b.error_border_color) && b.error_border_color is Some, *a, LayoutField::ErrorBorderColor(b.error_border_color->0))); }
    let ghost g2 = out@;
    push_error_bg_color(a, b, out);
    proof { lemma_extends_concat(start, g2, out@, layout_change_if(text_of(a.selected_menu_bg_color) != text_of(b.selected_menu_bg_color) && b.selected_menu_bg_color is Some, *a, LayoutField::SelectedMenuBgColor(b.selected_menu_bg_color->0)) + layout_change_if(text_of(a.error_border_color) != text_of(b.error_border_color) && b.error_border_color is Some, *a, LayoutField::ErrorBorderColor(b.error_border_color->0)), layout_change_if(text_of(a.error_bg_color) != text_of(b.error_bg_color) && b.error_bg_color is Some, *a, LayoutField::ErrorBgColor(b.error_bg_color->0))); }
    let ghost g3 = out@;
    push_error_fg_color(a, b, out);
    proof { lemma_extends_concat(start, g3, out@, layout_change_if(text_of(a.selected_menu_bg_color) != text_of(b.selected_menu_bg_color) && b.selected_menu_bg_color is Some, *a, LayoutField::SelectedMenuBgColor(b.selected_menu_bg_color->0)) + layout_change_if(text_of(a.error_border_color) != text_of(b.error_border_color) && b.error_border_color is Some, *a, LayoutField::ErrorBorderColor(b.error_border_color->0)) + layout_change_if(text_of(a.error_bg_color) != text_of(b.error_bg_color) && b.error_bg_color is Some, *a, LayoutField::ErrorBgColor(b.error_bg_color->0)), layout_change_if(text_of(a.error_fg_color) != text_of(b.error_fg_color) && b.error_fg_color is Some, *a, LayoutField::ErrorFgColor(b.error_fg_color->0))); }
    let ghost g4 = out@;
    push_error_title_bg_color(a, b, out);
    proof { lemma_extends_concat(start, g4, out@, layout_change_if(text_of(a.selected_menu_bg_color) != text_of(b.selected_menu_bg_color) && b.selected_menu_bg_color is Some, *a, LayoutField::SelectedMenuBgColor(b.selected_menu_bg_color->0)) + layout_change_if(text_of(a.error_border_color) != text_of(b.error_border_color) && b.error_border_color is Some, *a, LayoutField::ErrorBorderColor(b.error_border_color->0)) + layout_change_if(text_of(a.error_bg_color) != text_of(b.error_bg_color) && b.error_bg_color is Some, *a, LayoutField::ErrorBgColor(b.error_bg_color->0)) + layout_change_if(text_of(a.error_fg_color) != text_of(b.error_fg_color) && b.error_fg_color is Some, *a, LayoutField::ErrorFgColor(b.error_fg_color->0)), layout_change_if(text_of(a.error_title_bg_color) != text_of(b.error_title_bg_color) && b.error_title_bg_color is Some, *a, LayoutField::ErrorTitleBgColor(b.error_title_bg_color->0))); }
    let ghost g5 = out@;
    push_error_title_fg_color(a, b, out);
    proof { lemma_extends_concat(start, g5, out@, layout_change_if(text_of(a.selected_menu_bg_color) != text_of(b.selected_menu_bg_color) && b.selected_menu_bg_color is Some, *a, LayoutField::SelectedMenuBgColor(b.selected_menu_bg_color->0)) + layout_change_if(text_of(a.error_border_color) != text_of(b.error_border_color) && b.error_border_color is Some, *a, LayoutField::ErrorBorderColor(b.error_border_color->0)) + layout_change_if(text_of(a.error_bg_color) != text_of(b.error_bg_color) && b.error_bg_color is Some, *a, LayoutField::ErrorBgColor(b.error_bg_color->0)) + layout_change_if(text_of(a.error_fg_color) != text_of(b.error_fg_color) && b.error_fg_color is Some, *a, LayoutField::ErrorFgColor(b.error_fg_color->0)) + layout_change_if(text_of(a.error_title_bg_color) != text_of(b.error_title_bg_color) && b.error_title_bg_color is Some, *a, LayoutField::ErrorTitleBgColor(b.error_title_bg_color->0)), layout_change_if(text_of(a.error_title_fg_color) != text_of(b.error_title_fg_color) && b.error_title_fg_color is Some, *a, LayoutField::ErrorTitleFgColor(b.error_title_fg_color->0))); }
    let ghost g6 = out@;
    push_error_selected_border_color(a, b, out);
    proof { lemma_extends_concat(start, g6, out@, layout_change_if(text_of(a.selected_menu_bg_color) != text_of(b.selected_menu_bg_color) && b.selected_menu_bg_color is Some, *a, LayoutField::SelectedMenuBgColor(b.selected_menu_bg_color->0)) + layout_change_if(text_of(a.error_border_color) != text_of(b.error_border_color) && b.error_border_color is Some, *a, LayoutField::ErrorBorderColor(b.error_border_color->0)) + layout_change_if(text_of(a.error_bg_color) != text_of(b.error_bg_color) && b.error_bg_color is Some, *a, LayoutField::ErrorBgColor(b.error_bg_color->0)) + layout_change_if(text_of(a.error_fg_color) != text_of(b.error_fg_color) && b.error_fg_color is Some, *a, LayoutField::ErrorFgColor(b.error_fg_color->0)) + layout_change_if(text_of(a.error_title_bg_color) != text_of(b.error_title_bg_color) && b.error_title_bg_color is Some, *a, LayoutField::ErrorTitleBgColor(b.error_title_bg_color->0)) + layout_change_if(text_of(a.error_title_fg_color) != text_of(b.error_title_fg_color) && b.error_title_fg_color is Some, *a, LayoutField::ErrorTitleFgColor(b.error_title_fg_color->0)), layout_change_if(text_of(a.error_selected_border_color) != text_of(b.error_selected_border_color) && b.error_selected_border_color is Some, *a, LayoutField::ErrorSelectedBorderColor(b.error_selected_border_color->0))); }
    let ghost g7 = out@;
    push_error_selected_bg_color(a, b, out);
    proof { lemma_extends_concat(start, g7, out@, layout_change_if(text_of(a.selected_menu_bg_color) != text_of(b.selected_menu_bg_color) && b.selected_menu_bg_color is Some, *a, LayoutField::SelectedMenuBgColor(b.selected_menu_bg_color->0)) + layout_change_if(text_of(a.error_border_color) != text_of(b.error_border_color) && b.error_border_color is Some, *a, LayoutField::ErrorBorderColor(b.error_border_color->0)) + layout_change_if(text_of(a.error_bg_color) != text_of(b.error_bg_color) && b.error_bg_color is Some, *a, LayoutField::ErrorBgColor(b.error_bg_color->0)) + layout_change_if(text_of(a.error_fg_color) != text_of(b.error_fg_color) && b.error_fg_color is Some, *a, LayoutField::ErrorFgColor(b.error_fg_color->0)) + layout_change_if(text_of(a.error_title_bg_color) != text_of(b.error_title_bg_color) && b.error_title_bg_color is Some, *a, LayoutField::ErrorTitleBgColor(b.error_title_bg_color->0)) + layout_change_if(text_of(a.error_title_fg_color) != text_of(b.error_title_fg_color) && b.error_title_fg_color is Some, *a, LayoutField::ErrorTitleFgColor(b.error_title_fg_color->0)) + layout_change_if(text_of(a.error_selected_border_color) != text_of(b.error_selected_border_color) && b.error_selected_border_color is Some, *a, LayoutField::ErrorSelectedBorderColor(b.error_selected_border_color->0)), layout_change_if(text_of(a.error_selected_bg_color) != text_of(b.error_selected_bg_color) && b.error_selected_bg_color is Some, *a, LayoutField::ErrorSelectedBgColor(b.error_selected_bg_color->0))); }
    let ghost g8 = out@;
    push_error_selected_fg_color(a, b, out);
    proof { lemma_extends_concat(start, g8, out@, layout_change_if(text_of(a.selected_menu_bg_color) != text_of(b.selected_menu_bg_color) && b.selected_menu_bg_color is Some, *a, LayoutField::SelectedMenuBgColor(b.selected_menu_bg_color->0)) + layout_change_if(text_of(a.error_border_color) != text_of(b.error_border_color) && b.error_border_color is Some, *a, LayoutField::ErrorBorderColor(b.error_border_color->0)) + layout_change_if(text_of(a.error_bg_color) != text_of(b.error_bg_color) && b.error_bg_color is Some, *a, LayoutField::ErrorBgColor(b.error_bg_color->0)) + layout_change_if(text_of(a.error_fg_color) != text_of(b.error_fg_color) && b.error_fg_color is Some, *a, LayoutField::ErrorFgColor(b.error_fg_color->0)) + layout_change_if(text_of(a.error_title_bg_color) != text_of(b.error_title_bg_color) && b.error_title_bg_color is Some, *a, LayoutField::ErrorTitleBgColor(b.error_title_bg_color->0)) + layout_change_if(text_of(a.error_title_fg_color) != text_of(b.error_title_fg_color) && b.error_title_fg_color is Some, *a, LayoutField::ErrorTitleFgColor(b.error_title_fg_color->0)) + layout_change_if(text_of(a.error_selected_border_color) != text_of(b.error_selected_border_color) && b.error_selected_border_color is Some, *a, LayoutField::ErrorSelectedBorderColor(b.error_selected_border_color->0)) + layout_change_if(text_of(a.error_selected_bg_color) != text_of(b.error_selected_bg_color) && b.error_selected_bg_color is Some, *a, LayoutField::ErrorSelectedBgColor(b.error_selected_bg_color->0)), layout_change_if(text_of(a.error_selected_fg_color) != text_of(b.error_selected_fg_color) && b.error_selected_fg_color is Some, *a, LayoutField::ErrorSelectedFgColor(b.error_selected_fg_color->0))); }
    let ghost g9 = out@;
    push_error_selected_title_bg_color(a, b, out);
    proof { lemma_extends_concat(start, g9, out@, layout_change_if(text_of(a.selected_menu_bg_color) != text_of(b.selected_menu_bg_color) && b.selected_menu_bg_color is Some, *a, LayoutField::SelectedMenuBgColor(b.selected_menu_bg_color->0)) + layout_change_if(text_of(a.error_border_color) != text_of(b.error_border_color) && b.error_border_color is Some, *a, LayoutField::ErrorBorderColor(b.error_border_color->0)) + layout_change_if(text_of(a.error_bg_color) != text_of(b.error_bg_color) && b.error_bg_color is Some, *a, LayoutField::ErrorBgColor(b.error_bg_color->0)) + layout_change_if(text_of(a.error_fg_color) != text_of(b.error_fg_color) && b.error_fg_color is Some, *a, LayoutField::ErrorFgColor(b.error_fg_color->0)) + layout_change_if(text_of(a.error_title_bg_color) != text_of(b.error_title_bg_color) && b.error_title_bg_color is Some, *a, LayoutField::ErrorTitleBgColor(b.error_title_bg_color->0)) + layout_change_if(text_of(a.error_title_fg_color) != text_of(b.error_title_fg_color) && b.error_title_fg_color is Some, *a, LayoutField::ErrorTitleFgColor(b.error_title_fg_color->0)) + layout_change_if(text_of(a.error_selected_border_color) != text_of(b.error_selected_border_color) && b.error_selected_border_color is Some, *a, LayoutField::ErrorSelectedBorderColor(b.error_selected_border_color->0)) + layout_change_if(text_of(a.error_selected_bg_color) != text_of(b.error_selected_bg_color) && b.error_selected_bg_color is Some, *a, LayoutField::ErrorSelectedBgColor(b.error_selected_bg_color->0)) + layout_change_if(text_of(a.error_selected_fg_color) != text_of(b.error_selected_fg_color) && b.error_selected_fg_color is Some, *a, LayoutField::ErrorSelectedFgColor(b.error_selected_fg_color->0)), layout_change_if(text_of(a.error_selected_title_bg_color) != text_of(b.error_selected_title_bg_color) && b.error_selected_title_bg_color is Some, *a, LayoutField::ErrorSelectedTitleBgColor(b.error_selected_title_bg_color->0))); }
    assert(diff_part3(*a, *b) == layout_change_if(text_of(a.selected_menu_bg_color) != text_of(b.selected_menu_bg_color) && b.selected_menu_bg_color is Some, *a, LayoutField::SelectedMenuBgColor(b.selected_menu_bg_color->0)) + layout_change_if(text_of(a.error_border_color) != text_of(b.error_border_color) && b.error_border_color is Some, *a, LayoutField::ErrorBorderColor(b.error_border_color->0)) + layout_change_if(text_of(a.error_bg_color) != text_of(b.error_bg_color) && b.error_bg_color is Some, *a, LayoutField::ErrorBgColor(b.error_bg_color->0)) + layout_change_if(text_of(a.error_fg_color) != text_of(b.error_fg_color) && b.error_fg_color is Some, *a, LayoutField::ErrorFgColor(b.error_fg_color->0)) + layout_change_if(text_of(a.error_title_bg_color) != text_of(b.error_title_bg_color) && b.error_title_bg_color is Some, *a, LayoutField::ErrorTitleBgColor(b.error_title_bg_color->0)) + layout_change_if(text_of(a.error_title_fg_color) != text_of(b.error_title_fg_color) && b.error_title_fg_color is Some, *a, LayoutField::ErrorTitleFgColor(b.error_title_fg_color->0)) + layout_change_if(text_of(a.error_selected_border_color) != text_of(b.error_selected_border_color) && b.error_selected_border_color is Some, *a, LayoutField::ErrorSelectedBorderColor(b.error_selected_border_color->0)) + layout_change_if(text_of(a.error_selected_bg_color) != text_of(b.error_selected_bg_color) && b.error_selected_bg_color is Some, *a, LayoutField::ErrorSelectedBgColor(b.error_selected_bg_color->0)) + layout_change_if(text_of(a.error_selected_fg_color) != text_of(b.error_selected_fg_color) && b.error_selected_fg_color is Some, *a, LayoutField::ErrorSelectedFgColor(b.error_selected_fg_color->0)) + layout_change_if(text_of(a.error_selected_title_bg_color) != text_of(b.error_selected_title_bg_color) && b.error_selected_title_bg_color is Some, *a, LayoutField::ErrorSelectedTitleBgColor(b.error_selected_title_bg_color->0)));
}

fn push_selected_menu_bg_color(a: &Layout, b: &Layout, out: &mut Vec<LayoutChange>)
    ensures
        extends_like_layout(final(out)@, old(out)@, layout_change_if(text_of(a.selected_menu_bg_color) != text_of(b.selected_menu_bg_color) && b.selected_menu_bg_color is Some, *a, LayoutField::SelectedMenuBgColor(b.selected_menu_bg_color->0))),
{
    let ghost start = out@;
    if !same_text(&a.selected_menu_bg_color, &b.selected_menu_bg_color) {
        if let Some(v) = &b.selected_menu_bg_color {
            out.push(layout_change(a, LayoutField::SelectedMenuBgColor(v.clone())));
        }
    }
    reveal(layout_change_if);
    assert(extends_like_layout(out@, start, layout_change_if(text_of(a.selected_menu_bg_color) != text_of(b.selected_menu_bg_color) && b.selected_menu_bg_color is Some, *a, LayoutField::SelectedMenuBgColor(b.selected_menu_bg_color->0))));
}

fn push_error_border_color(a: &Layout, b: &Layout, out: &mut Vec<LayoutChange>)
    ensures
        extends_like_layout(final(out)@, old(out)@, layout_change_if(text_of(a.error_border_color) != text_of(b.error_border_color) && b.error_border_color is Some, *a, LayoutField::ErrorBorderColor(b.error_border_color->0))),
{
    let ghost start = out@;
    if !same_text(&a.error_border_color, &b.error_border_color) {
        if let Some(v) = &b.error_border_color {
            out.push(layout_change(a, LayoutField::ErrorBorderColor(v.clone())));
        }
    }
    reveal(layout_change_if);
    assert(extends_like_layout(out@, start, layout_change_if(text_of(a.error_border_color) != text_of(b.error_border_color) && b.error_border_color is Some, *a, LayoutField::ErrorBorderColor(b.error_border_color->0))));
}

fn push_error_bg_color(a: &Layout, b: &Layout, out: &mut Vec<LayoutChange>)
    ensures
        extends_like_layout(final(out)@, old(out)@, layout_change_if(text_of(a.error_bg_color) != text_of(b.error_bg_color) && b.error_bg_color is Some, *a, LayoutField::ErrorBgColor(b.error_bg_color->0))),
{
    let ghost start = out@;
    if !same_text(&a.error_bg_color, &b.error_bg_color) {
        if let Some(v) = &b.error_bg_color {
            out.push(layout_change(a, LayoutField::ErrorBgColor(v.clone())));
        }
    }
    reveal(layout_change_if);
    assert(extends_like_layout(out@, start, layout_change_if(text_of(a.error_bg_color) != text_of(b.error_bg_color) && b.error_bg_color is Some, *a, LayoutField::ErrorBgColor(b.error_bg_color->0))));
}

fn push_error_fg_color(a: &Layout, b: &Layout, out: &mut Vec<LayoutChange>)
    ensures
        extends_like_layout(final(out)@, old(out)@, layout_change_if(text_of(a.error_fg_color) != text_of(b.error_fg_color) && b.error_fg_color is Some, *a, LayoutField::ErrorFgColor(b.error_fg_color->0))),
{
    let ghost start = out@;
    if !same_text(&a.error_fg_color, &b.error_fg_color) {
        if let Some(v) = &b.error_fg_color {
            out.push(layout_change(a, LayoutField::ErrorFgColor(v.clone())));
        }
    }
    reveal(layout_change_if);
    assert(extends_like_layout(out@, start, layout_change_if(text_of(a.error_fg_color) != text_of(b.error_fg_color) && b.error_fg_color is Some, *a, LayoutField::ErrorFgColor(b.error_fg_color->0))));
}

fn push_error_title_bg_color(a: &Layout, b: &Layout, out: &mut Vec<LayoutChange>)
    ensures
        extends_like_layout(final(out)@, old(out)@, layout_change_if(text_of(a.error_title_bg_color) != text_of(b.error_title_bg_color) && b.error_title_bg_color is Some, *a, LayoutField::ErrorTitleBgColor(b.error_title_bg_color->0))),
{
    let ghost start = out@;
    if !same_text(&a.error_title_bg_color, &b.error_title_bg_color) {
        if let Some(v) = &b.error_title_bg_color {
            out.push(layout_change(a, LayoutField::ErrorTitleBgColor(v.clone())));
        }
    }
    reveal(layout_change_if);
    assert(extends_like_layout(out@, start, layout_change_if(text_of(a.error_title_bg_color) != text_of(b.error_title_bg_color) && b.error_title_bg_color is Some, *a, LayoutField::ErrorTitleBgColor(b.error_title_bg_color->0))));
}

fn push_error_title_fg_color(a: &Layout, b: &Layout, out: &mut Vec<LayoutChange>)
    ensures
        extends_like_layout(final(out)@, old(out)@, layout_change_if(text_of(a.error_title_fg_color) != text_of(b.error_title_fg_color) && b.error_title_fg_color is Some, *a, LayoutField::ErrorTitleFgColor(b.error_title_fg_color->0))),
{
    let ghost start = out@;
    if !same_text(&a.error_title_fg_color, &b.error_title_fg_color) {
        if let Some(v) = &b.error_title_fg_color {
            out.push(layout_change(a, LayoutField::ErrorTitleFgColor(v.clone())));
        }
    }
    reveal(layout_change_if);
    assert(extends_like_layout(out@, start, layout_change_if(text_of(a.error_title_fg_color) != text_of(b.error_title_fg_color) && b.error_title_fg_color is Some, *a, LayoutField::ErrorTitleFgColor(b.error_title_fg_color->0))));
}

fn push_error_selected_border_color(a: &Layout, b: &Layout, out: &mut Vec<LayoutChange>)
    ensures
        extends_like_layout(final(out)@, old(out)@, layout_change_if(text_of(a.error_selected_border_color) != text_of(b.error_selected_border_color) && b.error_selected_border_color is Some, *a, LayoutField::ErrorSelectedBorderColor(b.error_selected_border_color->0))),
{
    let ghost start = out@;
    if !same_text(&a.error_selected_border_color, &b.error_selected_border_color) {
        if let Some(v) = &b.error_selected_border_color {
            out.push(layout_change(a, LayoutField::ErrorSelectedBorderColor(v.clone())));
        }
    }
    reveal(layout_change_if);
    assert(extends_like_layout(out@, start, layout_change_if(text_of(a.error_selected_border_color) != text_of(b.error_selected_border_color) && b.error_selected_border_color is Some, *a, LayoutField::ErrorSelectedBorderColor(b.error_selected_border_color->0))));
}

fn push_error_selected_bg_color(a: &Layout, b: &Layout, out: &mut Vec<LayoutChange>)
    ensures
        extends_like_layout(final(out)@, old(out)@, layout_change_if(text_of(a.error_selected_bg_color) != text_of(b.error_selected_bg_color) && b.error_selected_bg_color is Some, *a, LayoutField::ErrorSelectedBgColor(b.error_selected_bg_color->0))),
{
    let ghost start = out@;
    if !same_text(&a.error_selected_bg_color, &b.error_selected_bg_color) {
        if let Some(v) = &b.error_selected_bg_color {
            out.push(layout_change(a, LayoutField::ErrorSelectedBgColor(v.clone())));
        }
    }
    reveal(layout_change_if);
    assert(extends_like_layout(out@, start, layout_change_if(text_of(a.error_selected_bg_color) != text_of(b.error_selected_bg_color) && b.error_selected_bg_color is Some, *a, LayoutField::ErrorSelectedBgColor(b.error_selected_bg_color->0))));
}

fn push_error_selected_fg_color(a: &Layout, b: &Layout, out: &mut Vec<LayoutChange>)
    ensures
        extends_like_layout(final(out)@, old(out)@, layout_change_if(text_of(a.error_selected_fg_color) != text_of(b.error_selected_fg_color) && b.error_selected_fg_color is Some, *a, LayoutField::ErrorSelectedFgColor(b.error_selected_fg_color->0))),
{
    let ghost start = out@;
    if !same_text(&a.error_selected_fg_color, &b.error_selected_fg_color) {
        if let Some(v) = &b.error_selected_fg_color {
            out.push(layout_change(a, LayoutField::ErrorSelectedFgColor(v.clone())));
        }
    }
    reveal(layout_change_if);
    assert(extends_like_layout(out@, start, layout_change_if(text_of(a.error_selected_fg_color) != text_of(b.error_selected_fg_color) && b.error_selected_fg_color is Some, *a, LayoutField::ErrorSelectedFgColor(b.error_selected_fg_color->0))));
}

fn push_error_selected_title_bg_color(a: &Layout, b: &Layout, out: &mut Vec<LayoutChange>)
    ensures
        extends_like_layout(final(out)@, old(out)@, layout_change_if(text_of(a.error_selected_title_bg_color) != text_of(b.error_selected_title_bg_color) && b.error_selected_title_bg_color is Some, *a, LayoutField::ErrorSelectedTitleBgColor(b.error_selected_title_bg_color->0))),
{
    let ghost start = out@;
    if !same_text(&a.error_selected_title_bg_color, &b.error_selected_title_bg_color) {
        if let Some(v) = &b.error_selected_title_bg_color {
            out.push(layout_change(a, LayoutField::ErrorSelectedTitleBgColor(v.clone())));
        }
    }
    reveal(layout_change_if);
    assert(extends_like_layout(out@, start, layout_change_if(text_of(a.error_selected_title_bg_color) != text_of(b.error_selected_title_bg_color) && b.error_selected_title_bg_color is Some, *a, LayoutField::ErrorSelectedTitleBgColor(b.error_selected_title_bg_color->0))));
}

#[verifier::rlimit(60)]
fn push_part4(a: &Layout, b: &Layout, out: &mut Vec<LayoutChange>)
    ensures
        extends_like_layout(final(out)@, old(out)@, diff_part4(*a, *b)),
{
    let ghost start = out@;
    let ghost g0 = out@;
    push_error_selected_title_fg_color(a, b, out);
    let ghost g1 = out@;
    push_overflow_behavior(a, b, out);
    proof { lemma_extends_concat(start, g1, out@, layout_change_if(text_of(a.error_selected_title_fg_color) != text_of(b.error_selected_title_fg_color) && b.error_selected_title_fg_color is Some, *a, LayoutField::ErrorSelectedTitleFgColor(b.error_selected_title_fg_color->0)), layout_change_if(text_of(a.overflow_behavior) != text_of(b.overflow_behavior) && b.overflow_behavior is Some, *a, LayoutField::OverflowBehavior(b.overflow_behavior->0))); }
    let ghost g2 = out@;
    push_root(a, b, out);
    proof { lemma_extends_concat(start, g2, out@, layout_change_if(text_of(a.error_selected_title_fg_color) != text_of(b.error_selected_title_fg_color) && b.error_selected_title_fg_color is Some, *a, LayoutField::ErrorSelectedTitleFgColor(b.error_selected_title_fg_color->0)) + layout_change_if(text_of(a.overflow_behavior) != text_of(b.overflow_behavior) && b.overflow_behavior is Some, *a, LayoutField::OverflowBehavior(b.overflow_behavior->0)), layout_change_if(a.root != b.root && b.root is Some, *a, LayoutField::Root(b.root->0))); }
    let ghost g3 = out@;
    push_on_keypress(a, b, out);
    proof { lemma_extends_concat(start, g3, out@, layout_change_if(text_of(a.error_selected_title_fg_color) != text_of(b.error_selected_title_fg_color) && b.error_selected_title_fg_color is Some, *a, LayoutField::ErrorSelectedTitleFgColor(b.error_selected_title_fg_color->0)) + layout_change_if(text_of(a.overflow_behavior) != text_of(b.overflow_behavior) && b.overflow_behavior is Some, *a, LayoutField::OverflowBehavior(b.overflow_behavior->0)) + layout_change_if(a.root != b.root && b.root is Some, *a, LayoutField::Root(b.root->0)), layout_change_if(opt_keys(a.on_keypress) != opt_keys(b.on_keypress) && b.on_keypress is Some, *a, LayoutField::OnKeypress(b.on_keypress->0))); }
    let ghost g4 = out@;
    push_active(a, b, out);
    proof { lemma_extends_concat(start, g4, out@, layout_change_if(text_of(a.error_selected_title_fg_color) != text_of(b.error_selected_title_fg_color) && b.error_selected_title_fg_color is Some, *a, LayoutField::ErrorSelectedTitleFgColor(b.error_selected_title_fg_color->0)) + layout_change_if(text_of(a.overflow_behavior) != text_of(b.overflow_behavior) && b.overflow_behavior is Some, *a, LayoutField::OverflowBehavior(b.overflow_behavior->0)) + layout_change_if(a.root != b.root && b.root is Some, *a, LayoutField::Root(b.root->0)) + layout_change_if(opt_keys(a.on_keypress) != opt_keys(b.on_keypress) && b.on_keypress is Some, *a, LayoutField::OnKeypress(b.on_keypress->0)), layout_change_if(a.active != b.active && b.active is Some, *a, LayoutField::Active(b.active->0))); }
    let ghost g5 = out@;
    push_muxbox_ids_in_tab_order(a, b, out);
    proof { lemma_extends_concat(start, g5, out@, layout_change_if(text_of(a.error_selected_title_fg_color) != text_of(b.error_selected_title_fg_color) && b.error_selected_title_fg_color is Some, *a, LayoutField::ErrorSelectedTitleFgColor(b.error_selected_title_fg_color->0)) + layout_change_if(text_of(a.overflow_behavior) != text_of(b.overflow_behavior) && b.overflow_behavior is Some, *a, LayoutField::OverflowBehavior(b.overflow_behavior->0)) + layout_change_if(a.root != b.root && b.root is Some, *a, LayoutField::Root(b.root->0)) + layout_change_if(opt_keys(a.on_keypress) != opt_keys(b.on_keypress) && b.on_keypress is Some, *a, LayoutField::OnKeypress(b.on_keypress->0)) + layout_change_if(a.active != b.active && b.active is Some, *a, LayoutField::Active(b.active->0)), layout_change_if(opt_lines(a.muxbox_ids_in_tab_order) != opt_lines(b.muxbox_ids_in_tab_order) && b.muxbox_ids_in_tab_order is Some, *a, LayoutField::MuxboxIdsInTabOrder(b.muxbox_ids_in_tab_order->0))); }
    assert(diff_part4(*a, *b) == layout_change_if(text_of(a.error_selected_title_fg_color) != text_of(b.error_selected_title_fg_color) && b.error_selected_title_fg_color is Some, *a, LayoutField::ErrorSelectedTitleFgColor(b.error_selected_title_fg_color->0)) + layout_change_if(text_of(a.overflow_behavior) != text_of(b.overflow_behavior) && b.overflow_behavior is Some, *a, LayoutField::OverflowBehavior(b.overflow_behavior->0)) + layout_change_if(a.root != b.root && b.root is Some, *a, LayoutField::Root(b.root->0)) + layout_change_if(opt_keys(a.on_keypress) != opt_keys(b.on_keypress) && b.on_keypress is Some, *a, LayoutField::OnKeypress(b.on_keypress->0)) + layout_change_if(a.active != b.active && b.active is Some, *a, LayoutField::Active(b.active->0)) + layout_change_if(opt_lines(a.muxbox_ids_in_tab_order) != opt_lines(b.muxbox_ids_in_tab_order) && b.muxbox_ids_in_tab_order is Some, *a, LayoutField::MuxboxIdsInTabOrder(b.muxbox_ids_in_tab_order->0)));
}

fn push_error_selected_title_fg_color(a: &Layout, b: &Layout, out: &mut Vec<LayoutChange>)
    ensures
        extends_like_layout(final(out)@, old(out)@, layout_change_if(text_of(a.error_selected_title_fg_color) != text_of(b.error_selected_title_fg_color) && b.error_selected_title_fg_color is Some, *a, LayoutField::ErrorSelectedTitleFgColor(b.error_selected_title_fg_color->0))),
{
    let ghost start = out@;
    if !same_text(&a.error_selected_title_fg_color, &b.error_selected_title_fg_color) {
        if let Some(v) = &b.error_selected_title_fg_color {
            out.push(layout_change(a, LayoutField::ErrorSelectedTitleFgColor(v.clone())));
        }
    }
    reveal(layout_change_if);
    assert(extends_like_layout(out@, start, layout_change_if(text_of(a.error_selected_title_fg_color) != text_of(b.error_selected_title_fg_color) && b.error_selected_title_fg_color is Some, *a, LayoutField::ErrorSelectedTitleFgColor(b.error_selected_title_fg_color->0))));
}

fn push_overflow_behavior(a: &Layout, b: &Layout, out: &mut Vec<LayoutChange>)
    ensures
        extends_like_layout(final(out)@, old(out)@, layout_change_if(text_of(a.overflow_behavior) != text_of(b.overflow_behavior) && b.overflow_behavior is Some, *a, LayoutField::OverflowBehavior(b.overflow_behavior->0))),
{
    let ghost start = out@;
    if !same_text(&a.overflow_behavior, &b.overflow_behavior) {
        if let Some(v) = &b.overflow_behavior {
            out.push(layout_change(a, LayoutField::OverflowBehavior(v.clone())));
        }
    }
    reveal(layout_change_if);
    assert(extends_like_layout(out@, start, layout_change_if(text_of(a.overflow_behavior) != text_of(b.overflow_behavior) && b.overflow_behavior is Some, *a, LayoutField::OverflowBehavior(b.overflow_behavior->0))));
}

fn push_root(a: &Layout, b: &Layout, out: &mut Vec<LayoutChange>)
    ensures
        extends_like_layout(final(out)@, old(out)@, layout_change_if(a.root != b.root && b.root is Some, *a, LayoutField::Root(b.root->0))),
{
    let ghost start = out@;
    match (a.root, b.root) {
        (Some(x), Some(y)) => {
            if x != y {
                out.push(layout_change(a, LayoutField::Root(y)));
            }
        },
        (None, Some(y)) => {
            out.push(layout_change(a, LayoutField::Root(y)));
        },
        _ => {},
    }
    reveal(layout_change_if);
    assert(extends_like_layout(out@, start, layout_change_if(a.root != b.root && b.root is Some, *a, LayoutField::Root(b.root->0))));
}

fn push_on_keypress(a: &Layout, b: &Layout, out: &mut Vec<LayoutChange>)
    ensures
        extends_like_layout(final(out)@, old(out)@, layout_change_if(opt_keys(a.on_keypress) != opt_keys(b.on_keypress) && b.on_keypress is Some, *a, LayoutField::OnKeypress(b.on_keypress->0))),
{
    let ghost start = out@;
    if !same_opt_keys(&a.on_keypress, &b.on_keypress) {
        if let Some(v) = &b.on_keypress {
            out.push(layout_change(a, LayoutField::OnKeypress(copy_keys(v))));
        }
    }
    reveal(layout_change_if);
    assert(extends_like_layout(out@, start, layout_change_if(opt_keys(a.on_keypress) != opt_keys(b.on_keypress) && b.on_keypress is Some, *a, LayoutField::OnKeypress(b.on_keypress->0))));
}

fn push_active(a: &Layout, b: &Layout, out: &mut Vec<LayoutChange>)
    ensures
        extends_like_layout(final(out)@, old(out)@, layout_change_if(a.active != b.active && b.active is Some, *a, LayoutField::Active(b.active->0))),
{
    let ghost start = out@;
    match (a.active, b.active) {
        (Some(x), Some(y)) => {
            if x != y {
                out.push(layout_change(a, LayoutField::Active(y)));
            }
        },
        (None, Some(y)) => {
            out.push(layout_change(a, LayoutField::Active(y)));
        },
        _ => {},
    }
    reveal(layout_change_if);
    assert(extends_like_layout(out@, start, layout_change_if(a.active != b.active && b.active is Some, *a, LayoutField::Active(b.active->0))));
}

fn push_muxbox_ids_in_tab_order(a: &Layout, b: &Layout, out: &mut Vec<LayoutChange>)
    ensures
        extends_like_layout(final(out)@, old(out)@, layout_change_if(opt_lines(a.muxbox_ids_in_tab_order) != opt_lines(b.muxbox_ids_in_tab_order) && b.muxbox_ids_in_tab_order is Some, *a, LayoutField::MuxboxIdsInTabOrder(b.muxbox_ids_in_tab_order->0))),
{
    let ghost start = out@;
    if !same_opt_lines(&a.muxbox_ids_in_tab_order, &b.muxbox_ids_in_tab_order) {
        if let Some(v) = &b.muxbox_ids_in_tab_order {
            out.push(layout_change(a, LayoutField::MuxboxIdsInTabOrder(copy_lines(v))));
        }
    }
    reveal(layout_change_if);
    assert(extends_like_layout(out@, start, layout_change_if(opt_lines(a.muxbox_ids_in_tab_order) != opt_lines(b.muxbox_ids_in_tab_order) && b.muxbox_ids_in_tab_order is Some, *a, LayoutField::MuxboxIdsInTabOrder(b.muxbox_ids_in_tab_order->0))));
}

/// The changes that turn layout `a` into layout `b` (see
/// `spec_layout_diff`); a value that is a list is handed over as a copy with
/// the same items.
pub fn layout_diff(a: &Layout, b: &Layout) -> (r: Vec<LayoutChange>)
    ensures
        same_layout_changes(r@, spec_layout_diff(*a, *b)),
{
    let mut out: Vec<LayoutChange> = Vec::new();
    let ghost start = out@;
    push_part1(a, b, &mut out);
    let ghost h1 = out@;
    push_part2(a, b, &mut out);
    proof { lemma_extends_concat(start, h1, out@, diff_part1(*a, *b), diff_part2(*a, *b)); }
    let ghost h2 = out@;
    push_part3(a, b, &mut out);
    proof { lemma_extends_concat(start, h2, out@, diff_part1(*a, *b) + diff_part2(*a, *b), diff_part3(*a, *b)); }
    let ghost h3 = out@;
    push_part4(a, b, &mut out);
    proof { lemma_extends_concat(start, h3, out@, diff_part1(*a, *b) + diff_part2(*a, *b) + diff_part3(*a, *b), diff_part4(*a, *b)); }
    proof {
        let d = spec_layout_diff(*a, *b);
        assert(d == diff_part1(*a, *b) + diff_part2(*a, *b) + diff_part3(*a, *b) + diff_part4(*a, *b));
        assert forall|i: int| 0 <= i < out@.len() implies same_layout_change(#[trigger] out@[i], d[i]) by {
            assert(same_layout_change(out@[0 + i], d[i]));
        }
    }
    out
}

/// Sets the field that a change names.
fn set_field(m: &mut Layout, f: LayoutField)
    ensures
        *final(m) == with_layout_field(*old(m), f),
{
    match f {
        LayoutField::Title(v) => {
            m.title = Some(v);
        },
        LayoutField::RefreshInterval(v) => {
            m.refresh_interval = Some(v);
        },
        LayoutField::Fill(v) => {
            m.fill = Some(v);
        },
        LayoutField::FillChar(v) => {
            m.fill_char = Some(v);
        },
        LayoutField::SelectedFillChar(v) => {
            m.selected_fill_char = Some(v);
        },
        LayoutField::Border(v) => {
            m.border = Some(v);
        },
        LayoutField::BorderColor(v) => {
            m.border_color = Some(v);
        },
        LayoutField::SelectedBorderColor(v) => {
            m.selected_border_color = Some(v);
        },
        LayoutField::BgColor(v) => {
            m.bg_color = Some(v);
        },
        LayoutField::SelectedBgColor(v) => {
            m.selected_bg_color = Some(v);
        },
        LayoutField::FgColor(v) => {
            m.fg_color = Some(v);
        },
        LayoutField::SelectedFgColor(v) => {
            m.selected_fg_color = Some(v);
        },
        LayoutField::TitleFgColor(v) => {
            m.title_fg_color = Some(v);
        },
        LayoutField::TitleBgColor(v) => {
            m.title_bg_color = Some(v);
        },
        LayoutField::TitlePosition(v) => {
            m.title_position = Some(v);
        },
        LayoutField::SelectedTitleBgColor(v) => {
            m.selected_title_bg_color = Some(v);
        },
        LayoutField::SelectedTitleFgColor(v) => {
            m.selected_title_fg_color = Some(v);
        },
        LayoutField::MenuFgColor(v) => {
            m.menu_fg_color = Some(v);
        },
        LayoutField::MenuBgColor(v) => {
            m.menu_bg_color = Some(v);
        },
        LayoutField::SelectedMenuFgColor(v) => {
            m.selected_menu_fg_color = Some(v);
        },
        LayoutField::SelectedMenuBgColor(v) => {
            m.selected_menu_bg_color = Some(v);
        },
        LayoutField::ErrorBorderColor(v) => {
            m.error_border_color = Some(v);
        },
        LayoutField::ErrorBgColor(v) => {
            m.error_bg_color = Some(v);
        },
        LayoutField::ErrorFgColor(v) => {
            m.error_fg_color = Some(v);
        },
        LayoutField::ErrorTitleBgColor(v) => {
            m.error_title_bg_color = Some(v);
        },
        LayoutField::ErrorTitleFgColor(v) => {
            m.error_title_fg_color = Some(v);
        },
        LayoutField::ErrorSelectedBorderColor(v) => {
            m.error_selected_border_color = Some(v);
        },
        LayoutField::ErrorSelectedBgColor(v) => {
            m.error_selected_bg_color = Some(v);
        },
        LayoutField::ErrorSelectedFgColor(v) => {
            m.error_selected_fg_color = Some(v);
        },
        LayoutField::ErrorSelectedTitleBgColor(v) => {
            m.error_selected_title_bg_color = Some(v);
        },
        LayoutField::ErrorSelectedTitleFgColor(v) => {
            m.error_selected_title_fg_color = Some(v);
        },
        LayoutField::OverflowBehavior(v) => {
            m.overflow_behavior = Some(v);
        },
        LayoutField::Root(v) => {
            m.root = Some(v);
        },
        LayoutField::OnKeypress(v) => {
            m.on_keypress = Some(v);
        },
        LayoutField::Active(v) => {
            m.active = Some(v);
        },
        LayoutField::MuxboxIdsInTabOrder(v) => {
            m.muxbox_ids_in_tab_order = Some(v);
        },
    }
}

/// Applies the changes in order: each change addressed to a layout sets the
/// field it names, whatever id it carries; changes to other kinds of entity
/// are passed over.
pub fn apply_layout_changes(m: &mut Layout, changes: Vec<LayoutChange>)
    ensures
        *final(m) == spec_apply_layout(*old(m), changes@),
{
    let mut rest = changes;
    while rest.len() > 0
        invariant
            spec_apply_layout(*m, rest@) == spec_apply_layout(*old(m), changes@),
        decreases rest@.len(),
    {
        let ghost before = rest@;
        let c = rest.remove(0);
        assert(rest@ =~= before.drop_first());
        if c.entity == EntityType::Layout {
            set_field(m, c.field);
        }
    }
    proof {
        assert(spec_apply_layout(*m, rest@) == *m);
    }
}

/// The diffs of the first `n` boxes paired by place: box `i` of `sa` against
/// box `i` of `sb`.
pub open spec fn paired_diff(sa: Seq<MuxBox>, sb: Seq<MuxBox>, n: int) -> Seq<FieldChange>
    decreases n,
{
    if n <= 0 {
        Seq::empty()
    } else {
        paired_diff(sa, sb, n - 1) + spec_muxbox_diff(sa[n - 1], sb[n - 1])
    }
}

/// The changes of a layout's boxes: each box of `a` against the box of `b` at
/// the same place, as far as both lists go; then the boxes of `b` beyond the
/// number of `a`'s, as added; then the boxes of `a` beyond the number of
/// `b`'s, as removed.
pub open spec fn layout_children_diff(sa: Seq<MuxBox>, sb: Seq<MuxBox>) -> Seq<FieldChange> {
    paired_diff(sa, sb, if sa.len() < sb.len() { sa.len() as int } else { sb.len() as int }) + added_children(
        sa,
        sb,
    ) + removed_children(sa, sb)
}

/// The changes of the layout's boxes (see `layout_children_diff`).
pub fn layout_box_diff(a: &Layout, b: &Layout) -> (r: Vec<FieldChange>)
    ensures
        same_changes(r@, layout_children_diff(a.children@, b.children@)),
{
    let mut out: Vec<FieldChange> = Vec::new();
    let ghost start = out@;
    proof {
        crate::muxbox_diff::lemma_extends_empty(start);
    }
    let mut i: usize = 0;
    while i < a.children.len() && i < b.children.len()
        invariant
            0 <= i <= a.children@.len(),
            i <= b.children@.len(),
            crate::muxbox_diff::extends_like(out@, start, paired_diff(a.children@, b.children@, i as int)),
        decreases a.children@.len() - i,
    {
        let ghost g = out@;
        push_box_diff(&a.children[i], &b.children[i], &mut out);
        proof {
            crate::muxbox_diff::lemma_extends_concat(
                start,
                g,
                out@,
                paired_diff(a.children@, b.children@, i as int),
                spec_muxbox_diff(a.children@[i as int], b.children@[i as int]),
            );
        }
        i = i + 1;
    }
    let ghost n = i as int;
    assert(n == if a.children@.len() < b.children@.len() { a.children@.len() as int } else { b.children@.len() as int });
    let ghost g2 = out@;
    push_added_children(&a.children, &b.children, &mut out);
    proof {
        crate::muxbox_diff::lemma_extends_concat(start, g2, out@, paired_diff(a.children@, b.children@, n), added_children(a.children@, b.children@));
    }
    let ghost g3 = out@;
    push_removed_children(&a.children, &b.children, &mut out);
    proof {
        crate::muxbox_diff::lemma_extends_concat(
            start,
            g3,
            out@,
            paired_diff(a.children@, b.children@, n) + added_children(a.children@, b.children@),
            removed_children(a.children@, b.children@),
        );
        let d = layout_children_diff(a.children@, b.children@);
        assert forall|i: int| 0 <= i < out@.len() implies same_change(#[trigger] out@[i], d[i]) by {
            assert(same_change(out@[0 + i], d[i]));
        }
    }
    out
}

/// Passes the changes addressed to boxes on to the layout's boxes: a removed
/// child drops all of them; otherwise each change goes to the first box that
/// bears its id, which applies it. The layout's own fields stay.
pub fn apply_layout_box_changes(l: &mut Layout, changes: &Vec<FieldChange>)
    ensures
        *final(l) == (Layout { children: final(l).children, ..*old(l) }),
        if removes_children(changes@) {
            final(l).children@.len() == 0
        } else {
            &&& final(l).children@.len() == old(l).children@.len()
            &&& kids_applied(old(l).children@, final(l).children@, changes@, 0)
        },
{
    if has_removal(changes) {
        l.children = Vec::new();
    } else {
        route_to_children(&mut l.children, changes);
    }
}

} // verus!

