use vstd::prelude::*;
use crate::common::EntityType;
use crate::diff_values::{opt_choices, opt_keys, opt_lines, same_place, text_of};
use crate::muxbox::MuxBox;
use crate::muxbox_diff::{
    added_children, change_if, children_diff, diff_part1, diff_part2, diff_part3, diff_part4, diff_part5,
    law_diff_of_same_box_is_own_free, matched_diff, matches_diff, removed_children, spec_muxbox_diff,
    FieldChange, MuxBoxField,
};

verus! {

/// Every change of the list is addressed to a box.
pub open spec fn all_box_changes(s: Seq<FieldChange>) -> bool {
    forall|i: int| 0 <= i < s.len() ==> (#[trigger] s[i]).entity == EntityType::MuxBox
}

proof fn lemma_all_box_concat(s1: Seq<FieldChange>, s2: Seq<FieldChange>)
    requires
        all_box_changes(s1),
        all_box_changes(s2),
    ensures
        all_box_changes(s1 + s2),
{
    assert forall|i: int| 0 <= i < (s1 + s2).len() implies (#[trigger] (s1 + s2)[i]).entity == EntityType::MuxBox by {
        if i < s1.len() {
            assert((s1 + s2)[i] == s1[i]);
        } else {
            assert((s1 + s2)[i] == s2[i - s1.len()]);
        }
    }
}

proof fn lemma_change_if_names_box(c: bool, a: MuxBox, f: MuxBoxField)
    ensures
        all_box_changes(change_if(c, a, f)),
{
    reveal(change_if);
}

proof fn lemma_part1_names_boxes(a: MuxBox, b: MuxBox)
    ensures
        all_box_changes(diff_part1(a, b)),
{
    lemma_change_if_names_box(text_of(a.title) != text_of(b.title) && b.title is Some, a, MuxBoxField::Title(b.title->0));
    lemma_change_if_names_box(!same_place(a.position, b.position), a, MuxBoxField::Position(b.position));
    lemma_change_if_names_box(a.anchor != b.anchor, a, MuxBoxField::Anchor(b.anchor));
    lemma_change_if_names_box(a.min_height != b.min_height && b.min_height is Some, a, MuxBoxField::MinHeight(b.min_height->0));
    lemma_change_if_names_box(a.min_width != b.min_width && b.min_width is Some, a, MuxBoxField::MinWidth(b.min_width->0));
    lemma_change_if_names_box(a.max_height != b.max_height && b.max_height is Some, a, MuxBoxField::MaxHeight(b.max_height->0));
    lemma_change_if_names_box(a.max_width != b.max_width && b.max_width is Some, a, MuxBoxField::MaxWidth(b.max_width->0));
    lemma_change_if_names_box(text_of(a.overflow_behavior) != text_of(b.overflow_behavior) && b.overflow_behavior is Some, a, MuxBoxField::OverflowBehavior(b.overflow_behavior->0));
    lemma_change_if_names_box(a.refresh_interval != b.refresh_interval && b.refresh_interval is Some, a, MuxBoxField::RefreshInterval(b.refresh_interval->0));
    lemma_change_if_names_box(text_of(a.tab_order) != text_of(b.tab_order) && b.tab_order is Some, a, MuxBoxField::TabOrder(b.tab_order->0));
    lemma_change_if_names_box(text_of(a.next_focus_id) != text_of(b.next_focus_id) && b.next_focus_id is Some, a, MuxBoxField::NextFocusId(b.next_focus_id->0));
    lemma_all_box_concat(change_if(text_of(a.title) != text_of(b.title) && b.title is Some, a, MuxBoxField::Title(b.title->0)), change_if(!same_place(a.position, b.position), a, MuxBoxField::Position(b.position)));
    lemma_all_box_concat(change_if(text_of(a.title) != text_of(b.title) && b.title is Some, a, MuxBoxField::Title(b.title->0)) + change_if(!same_place(a.position, b.position), a, MuxBoxField::Position(b.position)), change_if(a.anchor != b.anchor, a, MuxBoxField::Anchor(b.anchor)));
    lemma_all_box_concat(change_if(text_of(a.title) != text_of(b.title) && b.title is Some, a, MuxBoxField::Title(b.title->0)) + change_if(!same_place(a.position, b.position), a, MuxBoxField::Position(b.position)) + change_if(a.anchor != b.anchor, a, MuxBoxField::Anchor(b.anchor)), change_if(a.min_height != b.min_height && b.min_height is Some, a, MuxBoxField::MinHeight(b.min_height->0)));
    lemma_all_box_concat(change_if(text_of(a.title) != text_of(b.title) && b.title is Some, a, MuxBoxField::Title(b.title->0)) + change_if(!same_place(a.position, b.position), a, MuxBoxField::Position(b.position)) + change_if(a.anchor != b.anchor, a, MuxBoxField::Anchor(b.anchor)) + change_if(a.min_height != b.min_height && b.min_height is Some, a, MuxBoxField::MinHeight(b.min_height->0)), change_if(a.min_width != b.min_width && b.min_width is Some, a, MuxBoxField::MinWidth(b.min_width->0)));
    lemma_all_box_concat(change_if(text_of(a.title) != text_of(b.title) && b.title is Some, a, MuxBoxField::Title(b.title->0)) + change_if(!same_place(a.position, b.position), a, MuxBoxField::Position(b.position)) + change_if(a.anchor != b.anchor, a, MuxBoxField::Anchor(b.anchor)) + change_if(a.min_height != b.min_height && b.min_height is Some, a, MuxBoxField::MinHeight(b.min_height->0)) + change_if(a.min_width != b.min_width && b.min_width is Some, a, MuxBoxField::MinWidth(b.min_width->0)), change_if(a.max_height != b.max_height && b.max_height is Some, a, MuxBoxField::MaxHeight(b.max_height->0)));
    lemma_all_box_concat(change_if(text_of(a.title) != text_of(b.title) && b.title is Some, a, MuxBoxField::Title(b.title->0)) + change_if(!same_place(a.position, b.position), a, MuxBoxField::Position(b.position)) + change_if(a.anchor != b.anchor, a, MuxBoxField::Anchor(b.anchor)) + change_if(a.min_height != b.min_height && b.min_height is Some, a, MuxBoxField::MinHeight(b.min_height->0)) + change_if(a.min_width != b.min_width && b.min_width is Some, a, MuxBoxField::MinWidth(b.min_width->0)) + change_if(a.max_height != b.max_height && b.max_height is Some, a, MuxBoxField::MaxHeight(b.max_height->0)), change_if(a.max_width != b.max_width && b.max_width is Some, a, MuxBoxField::MaxWidth(b.max_width->0)));
    lemma_all_box_concat(change_if(text_of(a.title) != text_of(b.title) && b.title is Some, a, MuxBoxField::Title(b.title->0)) + change_if(!same_place(a.position, b.position), a, MuxBoxField::Position(b.position)) + change_if(a.anchor != b.anchor, a, MuxBoxField::Anchor(b.anchor)) + change_if(a.min_height != b.min_height && b.min_height is Some, a, MuxBoxField::MinHeight(b.min_height->0)) + change_if(a.min_width != b.min_width && b.min_width is Some, a, MuxBoxField::MinWidth(b.min_width->0)) + change_if(a.max_height != b.max_height && b.max_height is Some, a, MuxBoxField::MaxHeight(b.max_height->0)) + change_if(a.max_width != b.max_width && b.max_width is Some, a, MuxBoxField::MaxWidth(b.max_width->0)), change_if(text_of(a.overflow_behavior) != text_of(b.overflow_behavior) && b.overflow_behavior is Some, a, MuxBoxField::OverflowBehavior(b.overflow_behavior->0)));
    lemma_all_box_concat(change_if(text_of(a.title) != text_of(b.title) && b.title is Some, a, MuxBoxField::Title(b.title->0)) + change_if(!same_place(a.position, b.position), a, MuxBoxField::Position(b.position)) + change_if(a.anchor != b.anchor, a, MuxBoxField::Anchor(b.anchor)) + change_if(a.min_height != b.min_height && b.min_height is Some, a, MuxBoxField::MinHeight(b.min_height->0)) + change_if(a.min_width != b.min_width && b.min_width is Some, a, MuxBoxField::MinWidth(b.min_width->0)) + change_if(a.max_height != b.max_height && b.max_height is Some, a, MuxBoxField::MaxHeight(b.max_height->0)) + change_if(a.max_width != b.max_width && b.max_width is Some, a, MuxBoxField::MaxWidth(b.max_width->0)) + change_if(text_of(a.overflow_behavior) != text_of(b.overflow_behavior) && b.overflow_behavior is Some, a, MuxBoxField::OverflowBehavior(b.overflow_behavior->0)), change_if(a.refresh_interval != b.refresh_interval && b.refresh_interval is Some, a, MuxBoxField::RefreshInterval(b.refresh_interval->0)));
    lemma_all_box_concat(change_if(text_of(a.title) != text_of(b.title) && b.title is Some, a, MuxBoxField::Title(b.title->0)) + change_if(!same_place(a.position, b.position), a, MuxBoxField::Position(b.position)) + change_if(a.anchor != b.anchor, a, MuxBoxField::Anchor(b.anchor)) + change_if(a.min_height != b.min_height && b.min_height is Some, a, MuxBoxField::MinHeight(b.min_height->0)) + change_if(a.min_width != b.min_width && b.min_width is Some, a, MuxBoxField::MinWidth(b.min_width->0)) + change_if(a.max_height != b.max_height && b.max_height is Some, a, MuxBoxField::MaxHeight(b.max_height->0)) + change_if(a.max_width != b.max_width && b.max_width is Some, a, MuxBoxField::MaxWidth(b.max_width->0)) + change_if(text_of(a.overflow_behavior) != text_of(b.overflow_behavior) && b.overflow_behavior is Some, a, MuxBoxField::OverflowBehavior(b.overflow_behavior->0)) + change_if(a.refresh_interval != b.refresh_interval && b.refresh_interval is Some, a, MuxBoxField::RefreshInterval(b.refresh_interval->0)), change_if(text_of(a.tab_order) != text_of(b.tab_order) && b.tab_order is Some, a, MuxBoxField::TabOrder(b.tab_order->0)));
    lemma_all_box_concat(change_if(text_of(a.title) != text_of(b.title) && b.title is Some, a, MuxBoxField::Title(b.title->0)) + change_if(!same_place(a.position, b.position), a, MuxBoxField::Position(b.position)) + change_if(a.anchor != b.anchor, a, MuxBoxField::Anchor(b.anchor)) + change_if(a.min_height != b.min_height && b.min_height is Some, a, MuxBoxField::MinHeight(b.min_height->0)) + change_if(a.min_width != b.min_width && b.min_width is Some, a, MuxBoxField::MinWidth(b.min_width->0)) + change_if(a.max_height != b.max_height && b.max_height is Some, a, MuxBoxField::MaxHeight(b.max_height->0)) + change_if(a.max_width != b.max_width && b.max_width is Some, a, MuxBoxField::MaxWidth(b.max_width->0)) + change_if(text_of(a.overflow_behavior) != text_of(b.overflow_behavior) && b.overflow_behavior is Some, a, MuxBoxField::OverflowBehavior(b.overflow_behavior->0)) + change_if(a.refresh_interval != b.refresh_interval && b.refresh_interval is Some, a, MuxBoxField::RefreshInterval(b.refresh_interval->0)) + change_if(text_of(a.tab_order) != text_of(b.tab_order) && b.tab_order is Some, a, MuxBoxField::TabOrder(b.tab_order->0)), change_if(text_of(a.next_focus_id) != text_of(b.next_focus_id) && b.next_focus_id is Some, a, MuxBoxField::NextFocusId(b.next_focus_id->0)));
}

proof fn lemma_part2_names_boxes(a: MuxBox, b: MuxBox)
    ensures
        all_box_changes(diff_part2(a, b)),
{
    lemma_change_if_names_box(a.fill != b.fill, a, MuxBoxField::Fill(b.fill));
    lemma_change_if_names_box(a.fill_char != b.fill_char && b.fill_char is Some, a, MuxBoxField::FillChar(b.fill_char->0));
    lemma_change_if_names_box(a.selected_fill_char != b.selected_fill_char && b.selected_fill_char is Some, a, MuxBoxField::SelectedFillChar(b.selected_fill_char->0));
    lemma_change_if_names_box(a.border != b.border, a, MuxBoxField::Border(b.border));
    lemma_change_if_names_box(text_of(a.border_color) != text_of(b.border_color) && b.border_color is Some, a, MuxBoxField::BorderColor(b.border_color->0));
    lemma_change_if_names_box(text_of(a.selected_border_color) != text_of(b.selected_border_color) && b.selected_border_color is Some, a, MuxBoxField::SelectedBorderColor(b.selected_border_color->0));
    lemma_change_if_names_box(text_of(a.bg_color) != text_of(b.bg_color) && b.bg_color is Some, a, MuxBoxField::BgColor(b.bg_color->0));
    lemma_change_if_names_box(text_of(a.selected_bg_color) != text_of(b.selected_bg_color) && b.selected_bg_color is Some, a, MuxBoxField::SelectedBgColor(b.selected_bg_color->0));
    lemma_change_if_names_box(text_of(a.fg_color) != text_of(b.fg_color) && b.fg_color is Some, a, MuxBoxField::FgColor(b.fg_color->0));
    lemma_change_if_names_box(text_of(a.selected_fg_color) != text_of(b.selected_fg_color) && b.selected_fg_color is Some, a, MuxBoxField::SelectedFgColor(b.selected_fg_color->0));
    lemma_all_box_concat(change_if(a.fill != b.fill, a, MuxBoxField::Fill(b.fill)), change_if(a.fill_char != b.fill_char && b.fill_char is Some, a, MuxBoxField::FillChar(b.fill_char->0)));
    lemma_all_box_concat(change_if(a.fill != b.fill, a, MuxBoxField::Fill(b.fill)) + change_if(a.fill_char != b.fill_char && b.fill_char is Some, a, MuxBoxField::FillChar(b.fill_char->0)), change_if(a.selected_fill_char != b.selected_fill_char && b.selected_fill_char is Some, a, MuxBoxField::SelectedFillChar(b.selected_fill_char->0)));
    lemma_all_box_concat(change_if(a.fill != b.fill, a, MuxBoxField::Fill(b.fill)) + change_if(a.fill_char != b.fill_char && b.fill_char is Some, a, MuxBoxField::FillChar(b.fill_char->0)) + change_if(a.selected_fill_char != b.selected_fill_char && b.selected_fill_char is Some, a, MuxBoxField::SelectedFillChar(b.selected_fill_char->0)), change_if(a.border != b.border, a, MuxBoxField::Border(b.border)));
    lemma_all_box_concat(change_if(a.fill != b.fill, a, MuxBoxField::Fill(b.fill)) + change_if(a.fill_char != b.fill_char && b.fill_char is Some, a, MuxBoxField::FillChar(b.fill_char->0)) + change_if(a.selected_fill_char != b.selected_fill_char && b.selected_fill_char is Some, a, MuxBoxField::SelectedFillChar(b.selected_fill_char->0)) + change_if(a.border != b.border, a, MuxBoxField::Border(b.border)), change_if(text_of(a.border_color) != text_of(b.border_color) && b.border_color is Some, a, MuxBoxField::BorderColor(b.border_color->0)));
    lemma_all_box_concat(change_if(a.fill != b.fill, a, MuxBoxField::Fill(b.fill)) + change_if(a.fill_char != b.fill_char && b.fill_char is Some, a, MuxBoxField::FillChar(b.fill_char->0)) + change_if(a.selected_fill_char != b.selected_fill_char && b.selected_fill_char is Some, a, MuxBoxField::SelectedFillChar(b.selected_fill_char->0)) + change_if(a.border != b.border, a, MuxBoxField::Border(b.border)) + change_if(text_of(a.border_color) != text_of(b.border_color) && b.border_color is Some, a, MuxBoxField::BorderColor(b.border_color->0)), change_if(text_of(a.selected_border_color) != text_of(b.selected_border_color) && b.selected_border_color is Some, a, MuxBoxField::SelectedBorderColor(b.selected_border_color->0)));
    lemma_all_box_concat(change_if(a.fill != b.fill, a, MuxBoxField::Fill(b.fill)) + change_if(a.fill_char != b.fill_char && b.fill_char is Some, a, MuxBoxField::FillChar(b.fill_char->0)) + change_if(a.selected_fill_char != b.selected_fill_char && b.selected_fill_char is Some, a, MuxBoxField::SelectedFillChar(b.selected_fill_char->0)) + change_if(a.border != b.border, a, MuxBoxField::Border(b.border)) + change_if(text_of(a.border_color) != text_of(b.border_color) && b.border_color is Some, a, MuxBoxField::BorderColor(b.border_color->0)) + change_if(text_of(a.selected_border_color) != text_of(b.selected_border_color) && b.selected_border_color is Some, a, MuxBoxField::SelectedBorderColor(b.selected_border_color->0)), change_if(text_of(a.bg_color) != text_of(b.bg_color) && b.bg_color is Some, a, MuxBoxField::BgColor(b.bg_color->0)));
    lemma_all_box_concat(change_if(a.fill != b.fill, a, MuxBoxField::Fill(b.fill)) + change_if(a.fill_char != b.fill_char && b.fill_char is Some, a, MuxBoxField::FillChar(b.fill_char->0)) + change_if(a.selected_fill_char != b.selected_fill_char && b.selected_fill_char is Some, a, MuxBoxField::SelectedFillChar(b.selected_fill_char->0)) + change_if(a.border != b.border, a, MuxBoxField::Border(b.border)) + change_if(text_of(a.border_color) != text_of(b.border_color) && b.border_color is Some, a, MuxBoxField::BorderColor(b.border_color->0)) + change_if(text_of(a.selected_border_color) != text_of(b.selected_border_color) && b.selected_border_color is Some, a, MuxBoxField::SelectedBorderColor(b.selected_border_color->0)) + change_if(text_of(a.bg_color) != text_of(b.bg_color) && b.bg_color is Some, a, MuxBoxField::BgColor(b.bg_color->0)), change_if(text_of(a.selected_bg_color) != text_of(b.selected_bg_color) && b.selected_bg_color is Some, a, MuxBoxField::SelectedBgColor(b.selected_bg_color->0)));
    lemma_all_box_concat(change_if(a.fill != b.fill, a, MuxBoxField::Fill(b.fill)) + change_if(a.fill_char != b.fill_char && b.fill_char is Some, a, MuxBoxField::FillChar(b.fill_char->0)) + change_if(a.selected_fill_char != b.selected_fill_char && b.selected_fill_char is Some, a, MuxBoxField::SelectedFillChar(b.selected_fill_char->0)) + change_if(a.border != b.border, a, MuxBoxField::Border(b.border)) + change_if(text_of(a.border_color) != text_of(b.border_color) && b.border_color is Some, a, MuxBoxField::BorderColor(b.border_color->0)) + change_if(text_of(a.selected_border_color) != text_of(b.selected_border_color) && b.selected_border_color is Some, a, MuxBoxField::SelectedBorderColor(b.selected_border_color->0)) + change_if(text_of(a.bg_color) != text_of(b.bg_color) && b.bg_color is Some, a, MuxBoxField::BgColor(b.bg_color->0)) + change_if(text_of(a.selected_bg_color) != text_of(b.selected_bg_color) && b.selected_bg_color is Some, a, MuxBoxField::SelectedBgColor(b.selected_bg_color->0)), change_if(text_of(a.fg_color) != text_of(b.fg_color) && b.fg_color is Some, a, MuxBoxField::FgColor(b.fg_color->0)));
    lemma_all_box_concat(change_if(a.fill != b.fill, a, MuxBoxField::Fill(b.fill)) + change_if(a.fill_char != b.fill_char && b.fill_char is Some, a, MuxBoxField::FillChar(b.fill_char->0)) + change_if(a.selected_fill_char != b.selected_fill_char && b.selected_fill_char is Some, a, MuxBoxField::SelectedFillChar(b.selected_fill_char->0)) + change_if(a.border != b.border, a, MuxBoxField::Border(b.border)) + change_if(text_of(a.border_color) != text_of(b.border_color) && b.border_color is Some, a, MuxBoxField::BorderColor(b.border_color->0)) + change_if(text_of(a.selected_border_color) != text_of(b.selected_border_color) && b.selected_border_color is Some, a, MuxBoxField::SelectedBorderColor(b.selected_border_color->0)) + change_if(text_of(a.bg_color) != text_of(b.bg_color) && b.bg_color is Some, a, MuxBoxField::BgColor(b.bg_color->0)) + change_if(text_of(a.selected_bg_color) != text_of(b.selected_bg_color) && b.selected_bg_color is Some, a, MuxBoxField::SelectedBgColor(b.selected_bg_color->0)) + change_if(text_of(a.fg_color) != text_of(b.fg_color) && b.fg_color is Some, a, MuxBoxField::FgColor(b.fg_color->0)), change_if(text_of(a.selected_fg_color) != text_of(b.selected_fg_color) && b.selected_fg_color is Some, a, MuxBoxField::SelectedFgColor(b.selected_fg_color->0)));
}

proof fn lemma_part3_names_boxes(a: MuxBox, b: MuxBox)
    ensures
        all_box_changes(diff_part3(a, b)),
{
    lemma_change_if_names_box(text_of(a.title_fg_color) != text_of(b.title_fg_color) && b.title_fg_color is Some, a, MuxBoxField::TitleFgColor(b.title_fg_color->0));
    lemma_change_if_names_box(text_of(a.title_bg_color) != text_of(b.title_bg_color) && b.title_bg_color is Some, a, MuxBoxField::TitleBgColor(b.title_bg_color->0));
    lemma_change_if_names_box(text_of(a.selected_title_bg_color) != text_of(b.selected_title_bg_color) && b.selected_title_bg_color is Some, a, MuxBoxField::SelectedTitleBgColor(b.selected_title_bg_color->0));
    lemma_change_if_names_box(text_of(a.selected_title_fg_color) != text_of(b.selected_title_fg_color) && b.selected_title_fg_color is Some, a, MuxBoxField::SelectedTitleFgColor(b.selected_title_fg_color->0));
    lemma_change_if_names_box(text_of(a.title_position) != text_of(b.title_position) && b.title_position is Some, a, MuxBoxField::TitlePosition(b.title_position->0));
    lemma_change_if_names_box(a.error_state != b.error_state, a, MuxBoxField::ErrorState(b.error_state));
    lemma_change_if_names_box(text_of(a.error_fg_color) != text_of(b.error_fg_color) && b.error_fg_color is Some, a, MuxBoxField::ErrorFgColor(b.error_fg_color->0));
    lemma_change_if_names_box(text_of(a.error_bg_color) != text_of(b.error_bg_color) && b.error_bg_color is Some, a, MuxBoxField::ErrorBgColor(b.error_bg_color->0));
    lemma_change_if_names_box(text_of(a.error_title_fg_color) != text_of(b.error_title_fg_color) && b.error_title_fg_color is Some, a, MuxBoxField::ErrorTitleFgColor(b.error_title_fg_color->0));
    lemma_change_if_names_box(text_of(a.error_title_bg_color) != text_of(b.error_title_bg_color) && b.error_title_bg_color is Some, a, MuxBoxField::ErrorTitleBgColor(b.error_title_bg_color->0));
    lemma_all_box_concat(change_if(text_of(a.title_fg_color) != text_of(b.title_fg_color) && b.title_fg_color is Some, a, MuxBoxField::TitleFgColor(b.title_fg_color->0)), change_if(text_of(a.title_bg_color) != text_of(b.title_bg_color) && b.title_bg_color is Some, a, MuxBoxField::TitleBgColor(b.title_bg_color->0)));
    lemma_all_box_concat(change_if(text_of(a.title_fg_color) != text_of(b.title_fg_color) && b.title_fg_color is Some, a, MuxBoxField::TitleFgColor(b.title_fg_color->0)) + change_if(text_of(a.title_bg_color) != text_of(b.title_bg_color) && b.title_bg_color is Some, a, MuxBoxField::TitleBgColor(b.title_bg_color->0)), change_if(text_of(a.selected_title_bg_color) != text_of(b.selected_title_bg_color) && b.selected_title_bg_color is Some, a, MuxBoxField::SelectedTitleBgColor(b.selected_title_bg_color->0)));
    lemma_all_box_concat(change_if(text_of(a.title_fg_color) != text_of(b.title_fg_color) && b.title_fg_color is Some, a, MuxBoxField::TitleFgColor(b.title_fg_color->0)) + change_if(text_of(a.title_bg_color) != text_of(b.title_bg_color) && b.title_bg_color is Some, a, MuxBoxField::TitleBgColor(b.title_bg_color->0)) + change_if(text_of(a.selected_title_bg_color) != text_of(b.selected_title_bg_color) && b.selected_title_bg_color is Some, a, MuxBoxField::SelectedTitleBgColor(b.selected_title_bg_color->0)), change_if(text_of(a.selected_title_fg_color) != text_of(b.selected_title_fg_color) && b.selected_title_fg_color is Some, a, MuxBoxField::SelectedTitleFgColor(b.selected_title_fg_color->0)));
    lemma_all_box_concat(change_if(text_of(a.title_fg_color) != text_of(b.title_fg_color) && b.title_fg_color is Some, a, MuxBoxField::TitleFgColor(b.title_fg_color->0)) + change_if(text_of(a.title_bg_color) != text_of(b.title_bg_color) && b.title_bg_color is Some, a, MuxBoxField::TitleBgColor(b.title_bg_color->0)) + change_if(text_of(a.selected_title_bg_color) != text_of(b.selected_title_bg_color) && b.selected_title_bg_color is Some, a, MuxBoxField::SelectedTitleBgColor(b.selected_title_bg_color->0)) + change_if(text_of(a.selected_title_fg_color) != text_of(b.selected_title_fg_color) && b.selected_title_fg_color is Some, a, MuxBoxField::SelectedTitleFgColor(b.selected_title_fg_color->0)), change_if(text_of(a.title_position) != text_of(b.title_position) && b.title_position is Some, a, MuxBoxField::TitlePosition(b.title_position->0)));
    lemma_all_box_concat(change_if(text_of(a.title_fg_color) != text_of(b.title_fg_color) && b.title_fg_color is Some, a, MuxBoxField::TitleFgColor(b.title_fg_color->0)) + change_if(text_of(a.title_bg_color) != text_of(b.title_bg_color) && b.title_bg_color is Some, a, MuxBoxField::TitleBgColor(b.title_bg_color->0)) + change_if(text_of(a.selected_title_bg_color) != text_of(b.selected_title_bg_color) && b.selected_title_bg_color is Some, a, MuxBoxField::SelectedTitleBgColor(b.selected_title_bg_color->0)) + change_if(text_of(a.selected_title_fg_color) != text_of(b.selected_title_fg_color) && b.selected_title_fg_color is Some, a, MuxBoxField::SelectedTitleFgColor(b.selected_title_fg_color->0)) + change_if(text_of(a.title_position) != text_of(b.title_position) && b.title_position is Some, a, MuxBoxField::TitlePosition(b.title_position->0)), change_if(a.error_state != b.error_state, a, MuxBoxField::ErrorState(b.error_state)));
    lemma_all_box_concat(change_if(text_of(a.title_fg_color) != text_of(b.title_fg_color) && b.title_fg_color is Some, a, MuxBoxField::TitleFgColor(b.title_fg_color->0)) + change_if(text_of(a.title_bg_color) != text_of(b.title_bg_color) && b.title_bg_color is Some, a, MuxBoxField::TitleBgColor(b.title_bg_color->0)) + change_if(text_of(a.selected_title_bg_color) != text_of(b.selected_title_bg_color) && b.selected_title_bg_color is Some, a, MuxBoxField::SelectedTitleBgColor(b.selected_title_bg_color->0)) + change_if(text_of(a.selected_title_fg_color) != text_of(b.selected_title_fg_color) && b.selected_title_fg_color is Some, a, MuxBoxField::SelectedTitleFgColor(b.selected_title_fg_color->0)) + change_if(text_of(a.title_position) != text_of(b.title_position) && b.title_position is Some, a, MuxBoxField::TitlePosition(b.title_position->0)) + change_if(a.error_state != b.error_state, a, MuxBoxField::ErrorState(b.error_state)), change_if(text_of(a.error_fg_color) != text_of(b.error_fg_color) && b.error_fg_color is Some, a, MuxBoxField::ErrorFgColor(b.error_fg_color->0)));
    lemma_all_box_concat(change_if(text_of(a.title_fg_color) != text_of(b.title_fg_color) && b.title_fg_color is Some, a, MuxBoxField::TitleFgColor(b.title_fg_color->0)) + change_if(text_of(a.title_bg_color) != text_of(b.title_bg_color) && b.title_bg_color is Some, a, MuxBoxField::TitleBgColor(b.title_bg_color->0)) + change_if(text_of(a.selected_title_bg_color) != text_of(b.selected_title_bg_color) && b.selected_title_bg_color is Some, a, MuxBoxField::SelectedTitleBgColor(b.selected_title_bg_color->0)) + change_if(text_of(a.selected_title_fg_color) != text_of(b.selected_title_fg_color) && b.selected_title_fg_color is Some, a, MuxBoxField::SelectedTitleFgColor(b.selected_title_fg_color->0)) + change_if(text_of(a.title_position) != text_of(b.title_position) && b.title_position is Some, a, MuxBoxField::TitlePosition(b.title_position->0)) + change_if(a.error_state != b.error_state, a, MuxBoxField::ErrorState(b.error_state)) + change_if(text_of(a.error_fg_color) != text_of(b.error_fg_color) && b.error_fg_color is Some, a, MuxBoxField::ErrorFgColor(b.error_fg_color->0)), change_if(text_of(a.error_bg_color) != text_of(b.error_bg_color) && b.error_bg_color is Some, a, MuxBoxField::ErrorBgColor(b.error_bg_color->0)));
    lemma_all_box_concat(change_if(text_of(a.title_fg_color) != text_of(b.title_fg_color) && b.title_fg_color is Some, a, MuxBoxField::TitleFgColor(b.title_fg_color->0)) + change_if(text_of(a.title_bg_color) != text_of(b.title_bg_color) && b.title_bg_color is Some, a, MuxBoxField::TitleBgColor(b.title_bg_color->0)) + change_if(text_of(a.selected_title_bg_color) != text_of(b.selected_title_bg_color) && b.selected_title_bg_color is Some, a, MuxBoxField::SelectedTitleBgColor(b.selected_title_bg_color->0)) + change_if(text_of(a.selected_title_fg_color) != text_of(b.selected_title_fg_color) && b.selected_title_fg_color is Some, a, MuxBoxField::SelectedTitleFgColor(b.selected_title_fg_color->0)) + change_if(text_of(a.title_position) != text_of(b.title_position) && b.title_position is Some, a, MuxBoxField::TitlePosition(b.title_position->0)) + change_if(a.error_state != b.error_state, a, MuxBoxField::ErrorState(b.error_state)) + change_if(text_of(a.error_fg_color) != text_of(b.error_fg_color) && b.error_fg_color is Some, a, MuxBoxField::ErrorFgColor(b.error_fg_color->0)) + change_if(text_of(a.error_bg_color) != text_of(b.error_bg_color) && b.error_bg_color is Some, a, MuxBoxField::ErrorBgColor(b.error_bg_color->0)), change_if(text_of(a.error_title_fg_color) != text_of(b.error_title_fg_color) && b.error_title_fg_color is Some, a, MuxBoxField::ErrorTitleFgColor(b.error_title_fg_color->0)));
    lemma_all_box_concat(change_if(text_of(a.title_fg_color) != text_of(b.title_fg_color) && b.title_fg_color is Some, a, MuxBoxField::TitleFgColor(b.title_fg_color->0)) + change_if(text_of(a.title_bg_color) != text_of(b.title_bg_color) && b.title_bg_color is Some, a, MuxBoxField::TitleBgColor(b.title_bg_color->0)) + change_if(text_of(a.selected_title_bg_color) != text_of(b.selected_title_bg_color) && b.selected_title_bg_color is Some, a, MuxBoxField::SelectedTitleBgColor(b.selected_title_bg_color->0)) + change_if(text_of(a.selected_title_fg_color) != text_of(b.selected_title_fg_color) && b.selected_title_fg_color is Some, a, MuxBoxField::SelectedTitleFgColor(b.selected_title_fg_color->0)) + change_if(text_of(a.title_position) != text_of(b.title_position) && b.title_position is Some, a, MuxBoxField::TitlePosition(b.title_position->0)) + change_if(a.error_state != b.error_state, a, MuxBoxField::ErrorState(b.error_state)) + change_if(text_of(a.error_fg_color) != text_of(b.error_fg_color) && b.error_fg_color is Some, a, MuxBoxField::ErrorFgColor(b.error_fg_color->0)) + change_if(text_of(a.error_bg_color) != text_of(b.error_bg_color) && b.error_bg_color is Some, a, MuxBoxField::ErrorBgColor(b.error_bg_color->0)) + change_if(text_of(a.error_title_fg_color) != text_of(b.error_title_fg_color) && b.error_title_fg_color is Some, a, MuxBoxField::ErrorTitleFgColor(b.error_title_fg_color->0)), change_if(text_of(a.error_title_bg_color) != text_of(b.error_title_bg_color) && b.error_title_bg_color is Some, a, MuxBoxField::ErrorTitleBgColor(b.error_title_bg_color->0)));
}

proof fn lemma_part4_names_boxes(a: MuxBox, b: MuxBox)
    ensures
        all_box_changes(diff_part4(a, b)),
{
    lemma_change_if_names_box(text_of(a.error_border_color) != text_of(b.error_border_color) && b.error_border_color is Some, a, MuxBoxField::ErrorBorderColor(b.error_border_color->0));
    lemma_change_if_names_box(text_of(a.error_selected_bg_color) != text_of(b.error_selected_bg_color) && b.error_selected_bg_color is Some, a, MuxBoxField::ErrorSelectedBgColor(b.error_selected_bg_color->0));
    lemma_change_if_names_box(text_of(a.error_selected_fg_color) != text_of(b.error_selected_fg_color) && b.error_selected_fg_color is Some, a, MuxBoxField::ErrorSelectedFgColor(b.error_selected_fg_color->0));
    lemma_change_if_names_box(text_of(a.error_selected_border_color) != text_of(b.error_selected_border_color) && b.error_selected_border_color is Some, a, MuxBoxField::ErrorSelectedBorderColor(b.error_selected_border_color->0));
    lemma_change_if_names_box(text_of(a.error_selected_title_bg_color) != text_of(b.error_selected_title_bg_color) && b.error_selected_title_bg_color is Some, a, MuxBoxField::ErrorSelectedTitleBgColor(b.error_selected_title_bg_color->0));
    lemma_change_if_names_box(text_of(a.error_selected_title_fg_color) != text_of(b.error_selected_title_fg_color) && b.error_selected_title_fg_color is Some, a, MuxBoxField::ErrorSelectedTitleFgColor(b.error_selected_title_fg_color->0));
    lemma_change_if_names_box(opt_choices(a.choices) != opt_choices(b.choices) && b.choices is Some, a, MuxBoxField::Choices(b.choices->0));
    lemma_change_if_names_box(text_of(a.menu_fg_color) != text_of(b.menu_fg_color) && b.menu_fg_color is Some, a, MuxBoxField::MenuFgColor(b.menu_fg_color->0));
    lemma_change_if_names_box(text_of(a.menu_bg_color) != text_of(b.menu_bg_color) && b.menu_bg_color is Some, a, MuxBoxField::MenuBgColor(b.menu_bg_color->0));
    lemma_change_if_names_box(text_of(a.selected_menu_fg_color) != text_of(b.selected_menu_fg_color) && b.selected_menu_fg_color is Some, a, MuxBoxField::SelectedMenuFgColor(b.selected_menu_fg_color->0));
    lemma_all_box_concat(change_if(text_of(a.error_border_color) != text_of(b.error_border_color) && b.error_border_color is Some, a, MuxBoxField::ErrorBorderColor(b.error_border_color->0)), change_if(text_of(a.error_selected_bg_color) != text_of(b.error_selected_bg_color) && b.error_selected_bg_color is Some, a, MuxBoxField::ErrorSelectedBgColor(b.error_selected_bg_color->0)));
    lemma_all_box_concat(change_if(text_of(a.error_border_color) != text_of(b.error_border_color) && b.error_border_color is Some, a, MuxBoxField::ErrorBorderColor(b.error_border_color->0)) + change_if(text_of(a.error_selected_bg_color) != text_of(b.error_selected_bg_color) && b.error_selected_bg_color is Some, a, MuxBoxField::ErrorSelectedBgColor(b.error_selected_bg_color->0)), change_if(text_of(a.error_selected_fg_color) != text_of(b.error_selected_fg_color) && b.error_selected_fg_color is Some, a, MuxBoxField::ErrorSelectedFgColor(b.error_selected_fg_color->0)));
    lemma_all_box_concat(change_if(text_of(a.error_border_color) != text_of(b.error_border_color) && b.error_border_color is Some, a, MuxBoxField::ErrorBorderColor(b.error_border_color->0)) + change_if(text_of(a.error_selected_bg_color) != text_of(b.error_selected_bg_color) && b.error_selected_bg_color is Some, a, MuxBoxField::ErrorSelectedBgColor(b.error_selected_bg_color->0)) + change_if(text_of(a.error_selected_fg_color) != text_of(b.error_selected_fg_color) && b.error_selected_fg_color is Some, a, MuxBoxField::ErrorSelectedFgColor(b.error_selected_fg_color->0)), change_if(text_of(a.error_selected_border_color) != text_of(b.error_selected_border_color) && b.error_selected_border_color is Some, a, MuxBoxField::ErrorSelectedBorderColor(b.error_selected_border_color->0)));
    lemma_all_box_concat(change_if(text_of(a.error_border_color) != text_of(b.error_border_color) && b.error_border_color is Some, a, MuxBoxField::ErrorBorderColor(b.error_border_color->0)) + change_if(text_of(a.error_selected_bg_color) != text_of(b.error_selected_bg_color) && b.error_selected_bg_color is Some, a, MuxBoxField::ErrorSelectedBgColor(b.error_selected_bg_color->0)) + change_if(text_of(a.error_selected_fg_color) != text_of(b.error_selected_fg_color) && b.error_selected_fg_color is Some, a, MuxBoxField::ErrorSelectedFgColor(b.error_selected_fg_color->0)) + change_if(text_of(a.error_selected_border_color) != text_of(b.error_selected_border_color) && b.error_selected_border_color is Some, a, MuxBoxField::ErrorSelectedBorderColor(b.error_selected_border_color->0)), change_if(text_of(a.error_selected_title_bg_color) != text_of(b.error_selected_title_bg_color) && b.error_selected_title_bg_color is Some, a, MuxBoxField::ErrorSelectedTitleBgColor(b.error_selected_title_bg_color->0)));
    lemma_all_box_concat(change_if(text_of(a.error_border_color) != text_of(b.error_border_color) && b.error_border_color is Some, a, MuxBoxField::ErrorBorderColor(b.error_border_color->0)) + change_if(text_of(a.error_selected_bg_color) != text_of(b.error_selected_bg_color) && b.error_selected_bg_color is Some, a, MuxBoxField::ErrorSelectedBgColor(b.error_selected_bg_color->0)) + change_if(text_of(a.error_selected_fg_color) != text_of(b.error_selected_fg_color) && b.error_selected_fg_color is Some, a, MuxBoxField::ErrorSelectedFgColor(b.error_selected_fg_color->0)) + change_if(text_of(a.error_selected_border_color) != text_of(b.error_selected_border_color) && b.error_selected_border_color is Some, a, MuxBoxField::ErrorSelectedBorderColor(b.error_selected_border_color->0)) + change_if(text_of(a.error_selected_title_bg_color) != text_of(b.error_selected_title_bg_color) && b.error_selected_title_bg_color is Some, a, MuxBoxField::ErrorSelectedTitleBgColor(b.error_selected_title_bg_color->0)), change_if(text_of(a.error_selected_title_fg_color) != text_of(b.error_selected_title_fg_color) && b.error_selected_title_fg_color is Some, a, MuxBoxField::ErrorSelectedTitleFgColor(b.error_selected_title_fg_color->0)));
    lemma_all_box_concat(change_if(text_of(a.error_border_color) != text_of(b.error_border_color) && b.error_border_color is Some, a, MuxBoxField::ErrorBorderColor(b.error_border_color->0)) + change_if(text_of(a.error_selected_bg_color) != text_of(b.error_selected_bg_color) && b.error_selected_bg_color is Some, a, MuxBoxField::ErrorSelectedBgColor(b.error_selected_bg_color->0)) + change_if(text_of(a.error_selected_fg_color) != text_of(b.error_selected_fg_color) && b.error_selected_fg_color is Some, a, MuxBoxField::ErrorSelectedFgColor(b.error_selected_fg_color->0)) + change_if(text_of(a.error_selected_border_color) != text_of(b.error_selected_border_color) && b.error_selected_border_color is Some, a, MuxBoxField::ErrorSelectedBorderColor(b.error_selected_border_color->0)) + change_if(text_of(a.error_selected_title_bg_color) != text_of(b.error_selected_title_bg_color) && b.error_selected_title_bg_color is Some, a, MuxBoxField::ErrorSelectedTitleBgColor(b.error_selected_title_bg_color->0)) + change_if(text_of(a.error_selected_title_fg_color) != text_of(b.error_selected_title_fg_color) && b.error_selected_title_fg_color is Some, a, MuxBoxField::ErrorSelectedTitleFgColor(b.error_selected_title_fg_color->0)), change_if(opt_choices(a.choices) != opt_choices(b.choices) && b.choices is Some, a, MuxBoxField::Choices(b.choices->0)));
    lemma_all_box_concat(change_if(text_of(a.error_border_color) != text_of(b.error_border_color) && b.error_border_color is Some, a, MuxBoxField::ErrorBorderColor(b.error_border_color->0)) + change_if(text_of(a.error_selected_bg_color) != text_of(b.error_selected_bg_color) && b.error_selected_bg_color is Some, a, MuxBoxField::ErrorSelectedBgColor(b.error_selected_bg_color->0)) + change_if(text_of(a.error_selected_fg_color) != text_of(b.error_selected_fg_color) && b.error_selected_fg_color is Some, a, MuxBoxField::ErrorSelectedFgColor(b.error_selected_fg_color->0)) + change_if(text_of(a.error_selected_border_color) != text_of(b.error_selected_border_color) && b.error_selected_border_color is Some, a, MuxBoxField::ErrorSelectedBorderColor(b.error_selected_border_color->0)) + change_if(text_of(a.error_selected_title_bg_color) != text_of(b.error_selected_title_bg_color) && b.error_selected_title_bg_color is Some, a, MuxBoxField::ErrorSelectedTitleBgColor(b.error_selected_title_bg_color->0)) + change_if(text_of(a.error_selected_title_fg_color) != text_of(b.error_selected_title_fg_color) && b.error_selected_title_fg_color is Some, a, MuxBoxField::ErrorSelectedTitleFgColor(b.error_selected_title_fg_color->0)) + change_if(opt_choices(a.choices) != opt_choices(b.choices) && b.choices is Some, a, MuxBoxField::Choices(b.choices->0)), change_if(text_of(a.menu_fg_color) != text_of(b.menu_fg_color) && b.menu_fg_color is Some, a, MuxBoxField::MenuFgColor(b.menu_fg_color->0)));
    lemma_all_box_concat(change_if(text_of(a.error_border_color) != text_of(b.error_border_color) && b.error_border_color is Some, a, MuxBoxField::ErrorBorderColor(b.error_border_color->0)) + change_if(text_of(a.error_selected_bg_color) != text_of(b.error_selected_bg_color) && b.error_selected_bg_color is Some, a, MuxBoxField::ErrorSelectedBgColor(b.error_selected_bg_color->0)) + change_if(text_of(a.error_selected_fg_color) != text_of(b.error_selected_fg_color) && b.error_selected_fg_color is Some, a, MuxBoxField::ErrorSelectedFgColor(b.error_selected_fg_color->0)) + change_if(text_of(a.error_selected_border_color) != text_of(b.error_selected_border_color) && b.error_selected_border_color is Some, a, MuxBoxField::ErrorSelectedBorderColor(b.error_selected_border_color->0)) + change_if(text_of(a.error_selected_title_bg_color) != text_of(b.error_selected_title_bg_color) && b.error_selected_title_bg_color is Some, a, MuxBoxField::ErrorSelectedTitleBgColor(b.error_selected_title_bg_color->0)) + change_if(text_of(a.error_selected_title_fg_color) != text_of(b.error_selected_title_fg_color) && b.error_selected_title_fg_color is Some, a, MuxBoxField::ErrorSelectedTitleFgColor(b.error_selected_title_fg_color->0)) + change_if(opt_choices(a.choices) != opt_choices(b.choices) && b.choices is Some, a, MuxBoxField::Choices(b.choices->0)) + change_if(text_of(a.menu_fg_color) != text_of(b.menu_fg_color) && b.menu_fg_color is Some, a, MuxBoxField::MenuFgColor(b.menu_fg_color->0)), change_if(text_of(a.menu_bg_color) != text_of(b.menu_bg_color) && b.menu_bg_color is Some, a, MuxBoxField::MenuBgColor(b.menu_bg_color->0)));
    lemma_all_box_concat(change_if(text_of(a.error_border_color) != text_of(b.error_border_color) && b.error_border_color is Some, a, MuxBoxField::ErrorBorderColor(b.error_border_color->0)) + change_if(text_of(a.error_selected_bg_color) != text_of(b.error_selected_bg_color) && b.error_selected_bg_color is Some, a, MuxBoxField::ErrorSelectedBgColor(b.error_selected_bg_color->0)) + change_if(text_of(a.error_selected_fg_color) != text_of(b.error_selected_fg_color) && b.error_selected_fg_color is Some, a, MuxBoxField::ErrorSelectedFgColor(b.error_selected_fg_color->0)) + change_if(text_of(a.error_selected_border_color) != text_of(b.error_selected_border_color) && b.error_selected_border_color is Some, a, MuxBoxField::ErrorSelectedBorderColor(b.error_selected_border_color->0)) + change_if(text_of(a.error_selected_title_bg_color) != text_of(b.error_selected_title_bg_color) && b.error_selected_title_bg_color is Some, a, MuxBoxField::ErrorSelectedTitleBgColor(b.error_selected_title_bg_color->0)) + change_if(text_of(a.error_selected_title_fg_color) != text_of(b.error_selected_title_fg_color) && b.error_selected_title_fg_color is Some, a, MuxBoxField::ErrorSelectedTitleFgColor(b.error_selected_title_fg_color->0)) + change_if(opt_choices(a.choices) != opt_choices(b.choices) && b.choices is Some, a, MuxBoxField::Choices(b.choices->0)) + change_if(text_of(a.menu_fg_color) != text_of(b.menu_fg_color) && b.menu_fg_color is Some, a, MuxBoxField::MenuFgColor(b.menu_fg_color->0)) + change_if(text_of(a.menu_bg_color) != text_of(b.menu_bg_color) && b.menu_bg_color is Some, a, MuxBoxField::MenuBgColor(b.menu_bg_color->0)), change_if(text_of(a.selected_menu_fg_color) != text_of(b.selected_menu_fg_color) && b.selected_menu_fg_color is Some, a, MuxBoxField::SelectedMenuFgColor(b.selected_menu_fg_color->0)));
}

proof fn lemma_part5_names_boxes(a: MuxBox, b: MuxBox)
    ensures
        all_box_changes(diff_part5(a, b)),
{
    lemma_change_if_names_box(text_of(a.selected_menu_bg_color) != text_of(b.selected_menu_bg_color) && b.selected_menu_bg_color is Some, a, MuxBoxField::SelectedMenuBgColor(b.selected_menu_bg_color->0));
    lemma_change_if_names_box(text_of(a.redirect_output) != text_of(b.redirect_output) && b.redirect_output is Some, a, MuxBoxField::RedirectOutput(b.redirect_output->0));
    lemma_change_if_names_box(opt_lines(a.script) != opt_lines(b.script) && b.script is Some, a, MuxBoxField::Script(b.script->0));
    lemma_change_if_names_box(opt_keys(a.on_keypress) != opt_keys(b.on_keypress) && b.on_keypress is Some, a, MuxBoxField::OnKeypress(b.on_keypress->0));
    lemma_change_if_names_box(a.selected != b.selected && b.selected is Some, a, MuxBoxField::Selected(b.selected->0));
    lemma_change_if_names_box(text_of(a.content) != text_of(b.content) && b.content is Some, a, MuxBoxField::Content(b.content->0));
    lemma_change_if_names_box(a.output@ != b.output@, a, MuxBoxField::Output(b.output));
    lemma_change_if_names_box(text_of(a.parent_id) != text_of(b.parent_id) && b.parent_id is Some, a, MuxBoxField::ParentId(b.parent_id->0));
    lemma_change_if_names_box(text_of(a.parent_layout_id) != text_of(b.parent_layout_id) && b.parent_layout_id is Some, a, MuxBoxField::ParentLayoutId(b.parent_layout_id->0));
    lemma_all_box_concat(change_if(text_of(a.selected_menu_bg_color) != text_of(b.selected_menu_bg_color) && b.selected_menu_bg_color is Some, a, MuxBoxField::SelectedMenuBgColor(b.selected_menu_bg_color->0)), change_if(text_of(a.redirect_output) != text_of(b.redirect_output) && b.redirect_output is Some, a, MuxBoxField::RedirectOutput(b.redirect_output->0)));
    lemma_all_box_concat(change_if(text_of(a.selected_menu_bg_color) != text_of(b.selected_menu_bg_color) && b.selected_menu_bg_color is Some, a, MuxBoxField::SelectedMenuBgColor(b.selected_menu_bg_color->0)) + change_if(text_of(a.redirect_output) != text_of(b.redirect_output) && b.redirect_output is Some, a, MuxBoxField::RedirectOutput(b.redirect_output->0)), change_if(opt_lines(a.script) != opt_lines(b.script) && b.script is Some, a, MuxBoxField::Script(b.script->0)));
    lemma_all_box_concat(change_if(text_of(a.selected_menu_bg_color) != text_of(b.selected_menu_bg_color) && b.selected_menu_bg_color is Some, a, MuxBoxField::SelectedMenuBgColor(b.selected_menu_bg_color->0)) + change_if(text_of(a.redirect_output) != text_of(b.redirect_output) && b.redirect_output is Some, a, MuxBoxField::RedirectOutput(b.redirect_output->0)) + change_if(opt_lines(a.script) != opt_lines(b.script) && b.script is Some, a, MuxBoxField::Script(b.script->0)), change_if(opt_keys(a.on_keypress) != opt_keys(b.on_keypress) && b.on_keypress is Some, a, MuxBoxField::OnKeypress(b.on_keypress->0)));
    lemma_all_box_concat(change_if(text_of(a.selected_menu_bg_color) != text_of(b.selected_menu_bg_color) && b.selected_menu_bg_color is Some, a, MuxBoxField::SelectedMenuBgColor(b.selected_menu_bg_color->0)) + change_if(text_of(a.redirect_output) != text_of(b.redirect_output) && b.redirect_output is Some, a, MuxBoxField::RedirectOutput(b.redirect_output->0)) + change_if(opt_lines(a.script) != opt_lines(b.script) && b.script is Some, a, MuxBoxField::Script(b.script->0)) + change_if(opt_keys(a.on_keypress) != opt_keys(b.on_keypress) && b.on_keypress is Some, a, MuxBoxField::OnKeypress(b.on_keypress->0)), change_if(a.selected != b.selected && b.selected is Some, a, MuxBoxField::Selected(b.selected->0)));
    lemma_all_box_concat(change_if(text_of(a.selected_menu_bg_color) != text_of(b.selected_menu_bg_color) && b.selected_menu_bg_color is Some, a, MuxBoxField::SelectedMenuBgColor(b.selected_menu_bg_color->0)) + change_if(text_of(a.redirect_output) != text_of(b.redirect_output) && b.redirect_output is Some, a, MuxBoxField::RedirectOutput(b.redirect_output->0)) + change_if(opt_lines(a.script) != opt_lines(b.script) && b.script is Some, a, MuxBoxField::Script(b.script->0)) + change_if(opt_keys(a.on_keypress) != opt_keys(b.on_keypress) && b.on_keypress is Some, a, MuxBoxField::OnKeypress(b.on_keypress->0)) + change_if(a.selected != b.selected && b.selected is Some, a, MuxBoxField::Selected(b.selected->0)), change_if(text_of(a.content) != text_of(b.content) && b.content is Some, a, MuxBoxField::Content(b.content->0)));
    lemma_all_box_concat(change_if(text_of(a.selected_menu_bg_color) != text_of(b.selected_menu_bg_color) && b.selected_menu_bg_color is Some, a, MuxBoxField::SelectedMenuBgColor(b.selected_menu_bg_color->0)) + change_if(text_of(a.redirect_output) != text_of(b.redirect_output) && b.redirect_output is Some, a, MuxBoxField::RedirectOutput(b.redirect_output->0)) + change_if(opt_lines(a.script) != opt_lines(b.script) && b.script is Some, a, MuxBoxField::Script(b.script->0)) + change_if(opt_keys(a.on_keypress) != opt_keys(b.on_keypress) && b.on_keypress is Some, a, MuxBoxField::OnKeypress(b.on_keypress->0)) + change_if(a.selected != b.selected && b.selected is Some, a, MuxBoxField::Selected(b.selected->0)) + change_if(text_of(a.content) != text_of(b.content) && b.content is Some, a, MuxBoxField::Content(b.content->0)), change_if(a.output@ != b.output@, a, MuxBoxField::Output(b.output)));
    lemma_all_box_concat(change_if(text_of(a.selected_menu_bg_color) != text_of(b.selected_menu_bg_color) && b.selected_menu_bg_color is Some, a, MuxBoxField::SelectedMenuBgColor(b.selected_menu_bg_color->0)) + change_if(text_of(a.redirect_output) != text_of(b.redirect_output) && b.redirect_output is Some, a, MuxBoxField::RedirectOutput(b.redirect_output->0)) + change_if(opt_lines(a.script) != opt_lines(b.script) && b.script is Some, a, MuxBoxField::Script(b.script->0)) + change_if(opt_keys(a.on_keypress) != opt_keys(b.on_keypress) && b.on_keypress is Some, a, MuxBoxField::OnKeypress(b.on_keypress->0)) + change_if(a.selected != b.selected && b.selected is Some, a, MuxBoxField::Selected(b.selected->0)) + change_if(text_of(a.content) != text_of(b.content) && b.content is Some, a, MuxBoxField::Content(b.content->0)) + change_if(a.output@ != b.output@, a, MuxBoxField::Output(b.output)), change_if(text_of(a.parent_id) != text_of(b.parent_id) && b.parent_id is Some, a, MuxBoxField::ParentId(b.parent_id->0)));
    lemma_all_box_concat(change_if(text_of(a.selected_menu_bg_color) != text_of(b.selected_menu_bg_color) && b.selected_menu_bg_color is Some, a, MuxBoxField::SelectedMenuBgColor(b.selected_menu_bg_color->0)) + change_if(text_of(a.redirect_output) != text_of(b.redirect_output) && b.redirect_output is Some, a, MuxBoxField::RedirectOutput(b.redirect_output->0)) + change_if(opt_lines(a.script) != opt_lines(b.script) && b.script is Some, a, MuxBoxField::Script(b.script->0)) + change_if(opt_keys(a.on_keypress) != opt_keys(b.on_keypress) && b.on_keypress is Some, a, MuxBoxField::OnKeypress(b.on_keypress->0)) + change_if(a.selected != b.selected && b.selected is Some, a, MuxBoxField::Selected(b.selected->0)) + change_if(text_of(a.content) != text_of(b.content) && b.content is Some, a, MuxBoxField::Content(b.content->0)) + change_if(a.output@ != b.output@, a, MuxBoxField::Output(b.output)) + change_if(text_of(a.parent_id) != text_of(b.parent_id) && b.parent_id is Some, a, MuxBoxField::ParentId(b.parent_id->0)), change_if(text_of(a.parent_layout_id) != text_of(b.parent_layout_id) && b.parent_layout_id is Some, a, MuxBoxField::ParentLayoutId(b.parent_layout_id->0)));
}

proof fn lemma_diff_names_boxes(a: MuxBox, b: MuxBox)
    ensures
        all_box_changes(spec_muxbox_diff(a, b)),
    decreases a, 0nat, 0nat,
{
    lemma_part1_names_boxes(a, b);
    lemma_part2_names_boxes(a, b);
    lemma_part3_names_boxes(a, b);
    lemma_part4_names_boxes(a, b);
    lemma_part5_names_boxes(a, b);
    lemma_matched_names_boxes(a.children@, b.children@);
    let p1 = diff_part1(a, b);
    let m = matched_diff(a.children@, b.children@);
    let ad = added_children(a.children@, b.children@);
    let rm = removed_children(a.children@, b.children@);
    lemma_all_box_concat(p1, m);
    lemma_all_box_concat(p1 + m, ad);
    lemma_all_box_concat(p1 + m + ad, rm);
    lemma_all_box_concat(p1 + m + ad + rm, diff_part2(a, b));
    lemma_all_box_concat(p1 + m + ad + rm + diff_part2(a, b), diff_part3(a, b));
    lemma_all_box_concat(p1 + m + ad + rm + diff_part2(a, b) + diff_part3(a, b), diff_part4(a, b));
    lemma_all_box_concat(
        p1 + m + ad + rm + diff_part2(a, b) + diff_part3(a, b) + diff_part4(a, b),
        diff_part5(a, b),
    );
}

proof fn lemma_matched_names_boxes(sa: Seq<MuxBox>, sb: Seq<MuxBox>)
    ensures
        all_box_changes(matched_diff(sa, sb)),
    decreases sa, 0nat, 0nat,
{
    if sa.len() > 0 {
        lemma_matched_names_boxes(sa.drop_last(), sb);
        lemma_matches_names_boxes(sa[sa.len() - 1], sb);
        lemma_all_box_concat(matched_diff(sa.drop_last(), sb), matches_diff(sa[sa.len() - 1], sb));
    }
}

proof fn lemma_matches_names_boxes(x: MuxBox, sb: Seq<MuxBox>)
    ensures
        all_box_changes(matches_diff(x, sb)),
    decreases x, 1nat, sb.len(),
{
    if sb.len() > 0 {
        lemma_matches_names_boxes(x, sb.drop_last());
        if x.id@ == sb[sb.len() - 1].id@ {
            lemma_diff_names_boxes(x, sb[sb.len() - 1]);
            lemma_all_box_concat(matches_diff(x, sb.drop_last()), spec_muxbox_diff(x, sb[sb.len() - 1]));
        } else {
            assert(matches_diff(x, sb) =~= matches_diff(x, sb.drop_last()));
        }
    }
}

/// Every change of a box diff, the children's included, is addressed to a
/// box.
pub proof fn law_diff_names_boxes(a: MuxBox, b: MuxBox)
    ensures
        forall|i: int|
            0 <= i < spec_muxbox_diff(a, b).len() ==> (#[trigger] spec_muxbox_diff(a, b)[i]).entity
                == EntityType::MuxBox,
{
    lemma_diff_names_boxes(a, b);
}

/// No two boxes of the list share an id.
pub open spec fn distinct_ids(ks: Seq<MuxBox>) -> bool {
    forall|i: int, j: int| 0 <= i < ks.len() && 0 <= j < ks.len() && i != j ==> ks[i].id@ != ks[j].id@
}

/// At every level of the tree, no two children of a box share an id.
pub open spec fn distinct_tree(a: MuxBox) -> bool
    decreases a, 0int, 0int,
{
    distinct_ids(a.children@) && distinct_trees(a.children@, 0)
}

/// Boxes `i` and on of the list have distinct ids at every level.
pub open spec fn distinct_trees(ks: Seq<MuxBox>, i: int) -> bool
    decreases ks, 0int, ks.len() - i,
{
    if 0 <= i < ks.len() {
        distinct_tree(ks[i]) && distinct_trees(ks, i + 1)
    } else {
        true
    }
}

proof fn lemma_distinct_trees(ks: Seq<MuxBox>, i: int, k: int)
    requires
        0 <= i <= k < ks.len(),
        distinct_trees(ks, i),
    ensures
        distinct_tree(ks[k]),
    decreases k - i,
{
    if i < k {
        lemma_distinct_trees(ks, i + 1, k);
    }
}

proof fn lemma_matches_self(ks: Seq<MuxBox>, i: int, m: int)
    requires
        0 <= i < ks.len(),
        0 <= m <= ks.len(),
        distinct_ids(ks),
        spec_muxbox_diff(ks[i], ks[i]) == Seq::<FieldChange>::empty(),
    ensures
        matches_diff(ks[i], ks.take(m)) == Seq::<FieldChange>::empty(),
    decreases m,
{
    if m > 0 {
        let t = ks.take(m);
        assert(t.drop_last() =~= ks.take(m - 1));
        assert(t[t.len() - 1] == ks[m - 1]);
        lemma_matches_self(ks, i, m - 1);
        if m - 1 == i {
            assert(matches_diff(ks[i], t) =~= Seq::<FieldChange>::empty());
        } else {
            assert(ks[i].id@ != ks[m - 1].id@);
            assert(matches_diff(ks[i], t) =~= Seq::<FieldChange>::empty());
        }
    }
}

proof fn lemma_matched_self(ks: Seq<MuxBox>, n: int)
    requires
        0 <= n <= ks.len(),
        distinct_ids(ks),
        forall|k: int| 0 <= k < ks.len() ==> spec_muxbox_diff(#[trigger] ks[k], ks[k]) == Seq::<FieldChange>::empty(),
    ensures
        matched_diff(ks.take(n), ks) == Seq::<FieldChange>::empty(),
    decreases n,
{
    if n > 0 {
        let t = ks.take(n);
        assert(t.drop_last() =~= ks.take(n - 1));
        assert(t[t.len() - 1] == ks[n - 1]);
        lemma_matched_self(ks, n - 1);
        lemma_matches_self(ks, n - 1, ks.len() as int);
        assert(ks.take(ks.len() as int) =~= ks);
        assert(matched_diff(t, ks) =~= Seq::<FieldChange>::empty());
    }
}

/// A box compared with itself has no changes at all, when no two children of
/// a box, at any level, share an id.
pub proof fn law_diff_of_same_box_is_empty(a: MuxBox)
    requires
        distinct_tree(a),
    ensures
        spec_muxbox_diff(a, a) == Seq::<FieldChange>::empty(),
    decreases a,
{
    law_diff_of_same_box_is_own_free(a);
    let ks = a.children@;
    assert forall|k: int| 0 <= k < ks.len() implies spec_muxbox_diff(#[trigger] ks[k], ks[k])
        == Seq::<FieldChange>::empty() by {
        lemma_distinct_trees(ks, 0, k);
        assert(decreases_to!(a => a.children@[k]));
        law_diff_of_same_box_is_empty(ks[k]);
    }
    lemma_matched_self(ks, ks.len() as int);
    assert(ks.take(ks.len() as int) =~= ks);
    assert(added_children(ks, ks) =~= Seq::<FieldChange>::empty());
    assert(removed_children(ks, ks) =~= Seq::<FieldChange>::empty());
    assert(children_diff(ks, ks) =~= Seq::<FieldChange>::empty());
}

} // verus!
