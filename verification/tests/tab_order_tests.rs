use boxmux::common::ExecutionMode;
use boxmux::muxbox::MuxBox;
use boxmux::layout_tree::selected_boxes;
use boxmux::layouts::Layout;
use boxmux::muxbox::Choice;
use boxmux::position::InputBounds;
use boxmux::tab_order::{set_initial_selection, tab_order_boxes, tab_order_ids};
use boxmux::Anchor;

fn layout_box(id: &str, tab: Option<&str>, children: Vec<MuxBox>) -> MuxBox {
    MuxBox {
        id: id.to_string(),
        position: InputBounds {
            x1: "0%".to_string(),
            y1: "0%".to_string(),
            x2: "100%".to_string(),
            y2: "100%".to_string(),
        },
        anchor: Anchor::Center,
        min_width: None,
        min_height: None,
        max_width: None,
        max_height: None,
        z_index: None,
        selected: None,
        tab_order: tab.map(|t| t.to_string()),
        title: None,
        content: None,
        script: None,
        redirect_output: None,
        choices: None,
        variables: None,
        children,
        ..Default::default()
    }
}

fn choice(id: &str) -> Choice {
    Choice {
        id: id.to_string(),
        content: None,
        script: None,
        redirect_output: None,
        append_output: None,
        execution_mode: ExecutionMode::Immediate,
        selected: false,
        waiting: false,
    }
}

fn sample() -> Vec<MuxBox> {
    vec![
        layout_box("menu", Some("2"), vec![layout_box("inner", Some("1"), vec![])]),
        layout_box("status", None, vec![]),
        layout_box("log", Some("3"), vec![]),
        layout_box("other", Some("2"), vec![]),
    ]
}

#[test]
fn tab_order_sorts_by_key_keeping_ties_in_place() {
    assert_eq!(tab_order_ids(&sample()), vec!["inner", "menu", "other", "log"]);
}

#[test]
fn tab_order_compares_keys_as_strings() {
    let boxes = vec![layout_box("ten", Some("10"), vec![]), layout_box("nine", Some("9"), vec![])];
    assert_eq!(tab_order_ids(&boxes), vec!["ten", "nine"]);
}

fn layout_of(children: Vec<MuxBox>) -> Layout {
    let mut l = Layout::new();
    l.id = "main".to_string();
    l.children = children;
    l
}

fn selected_ids(l: &Layout) -> Vec<String> {
    selected_boxes(&l.children).iter().map(|b| b.id.clone()).collect()
}

#[test]
fn tab_order_boxes_match_the_ids() {
    let boxes = sample();
    let ids: Vec<String> = tab_order_boxes(&boxes).iter().map(|b| b.id.clone()).collect();
    assert_eq!(ids, tab_order_ids(&boxes));
}

#[test]
fn next_box_cycles_through_tab_order() {
    let mut l = layout_of(sample());
    l.select_next_muxbox();
    assert_eq!(selected_ids(&l), vec!["inner"]);
    l.select_next_muxbox();
    assert_eq!(selected_ids(&l), vec!["menu"]);
    l.select_next_muxbox();
    l.select_next_muxbox();
    assert_eq!(selected_ids(&l), vec!["log"]);
    l.select_next_muxbox();
    assert_eq!(selected_ids(&l), vec!["inner"]);
}

#[test]
fn previous_box_cycles_backward() {
    let mut l = layout_of(sample());
    l.select_previous_muxbox();
    assert_eq!(selected_ids(&l), vec!["log"]);
    l.select_previous_muxbox();
    assert_eq!(selected_ids(&l), vec!["other"]);
}

#[test]
fn no_tab_boxes_means_no_change() {
    let mut l = layout_of(vec![layout_box("a", None, vec![])]);
    l.select_next_muxbox();
    assert_eq!(l.children[0].selected, None);
    assert_eq!(l.muxbox_ids_in_tab_order, Some(vec![]));
}

#[test]
fn tab_order_is_kept_once_worked_out() {
    let mut l = layout_of(sample());
    let first: Vec<String> = l.get_muxboxes_in_tab_order().iter().map(|b| b.id.clone()).collect();
    assert_eq!(first, vec!["inner", "menu", "other", "log"]);
    assert_eq!(
        l.muxbox_ids_in_tab_order,
        Some(vec!["inner".to_string(), "menu".to_string(), "other".to_string(), "log".to_string()])
    );
    // A box added later has no place in the kept order.
    l.children.push(layout_box("late", Some("0"), vec![]));
    let again: Vec<String> = l.get_muxboxes_in_tab_order().iter().map(|b| b.id.clone()).collect();
    assert_eq!(again, vec!["inner", "menu", "other", "log"]);
}

#[test]
fn kept_order_skips_missing_ids() {
    let mut l = layout_of(sample());
    l.muxbox_ids_in_tab_order = Some(vec!["log".to_string(), "gone".to_string(), "status".to_string()]);
    let ids: Vec<String> = l.get_muxboxes_in_tab_order().iter().map(|b| b.id.clone()).collect();
    assert_eq!(ids, vec!["log", "status"]);
    l.select_next_muxbox();
    assert_eq!(selected_ids(&l), vec!["log"]);
    l.select_next_muxbox();
    assert_eq!(selected_ids(&l), vec!["status"]);
}

#[test]
fn initial_selection_of_a_loaded_layout() {
    let mut first = layout_box("first", Some("1"), vec![]);
    first.choices = Some(vec![choice("c1"), choice("c2")]);
    let mut l = layout_of(vec![layout_box("second", Some("2"), vec![]), first]);
    set_initial_selection(&mut l);
    assert_eq!(l.children[1].selected, Some(true));
    assert_eq!(l.children[0].selected, None);
    let choices = l.children[1].choices.as_ref().unwrap();
    assert!(choices[0].selected);
    assert!(!choices[1].selected);
    assert_eq!(l.muxbox_ids_in_tab_order, None);
}

#[test]
fn initial_selection_follows_a_given_order() {
    let mut l = layout_of(vec![layout_box("a", Some("1"), vec![]), layout_box("b", Some("2"), vec![])]);
    l.muxbox_ids_in_tab_order = Some(vec!["b".to_string(), "a".to_string()]);
    set_initial_selection(&mut l);
    assert_eq!(l.children[1].selected, Some(true));
    assert_eq!(l.children[0].selected, None);
}

#[test]
fn next_then_previous_restores_the_selection() {
    let mut l = layout_of(sample());
    l.select_only_muxbox("other");
    l.select_next_muxbox();
    assert_eq!(selected_ids(&l), vec!["log"]);
    l.select_previous_muxbox();
    assert_eq!(selected_ids(&l), vec!["other"]);

    l.select_only_muxbox("log");
    l.select_next_muxbox();
    assert_eq!(selected_ids(&l), vec!["inner"]);
    l.select_previous_muxbox();
    assert_eq!(selected_ids(&l), vec!["log"]);
}
