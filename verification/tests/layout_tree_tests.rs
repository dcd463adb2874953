use boxmux::muxbox::MuxBox;
use boxmux::layout_tree::{all_boxes, box_at, find_box, replace_box, select_only_box, selected_boxes};
use boxmux::layouts::Layout;
use boxmux::position::InputBounds;
use boxmux::{Anchor, Bounds};

fn at(x1: &str, y1: &str, x2: &str, y2: &str) -> InputBounds {
    InputBounds { x1: x1.to_string(), y1: y1.to_string(), x2: x2.to_string(), y2: y2.to_string() }
}

fn node(id: &str, position: InputBounds, children: Vec<MuxBox>) -> MuxBox {
    MuxBox {
        id: id.to_string(),
        position,
        anchor: Anchor::Center,
        min_width: None,
        min_height: None,
        max_width: None,
        max_height: None,
        z_index: None,
        selected: None,
        tab_order: None,
        title: None,
        content: None,
        script: None,
        redirect_output: None,
        choices: None,
        variables: None,
        children,
        ..Default::default()
    }
}

fn full(id: &str, children: Vec<MuxBox>) -> MuxBox {
    node(id, at("0%", "0%", "100%", "100%"), children)
}

fn sample() -> Vec<MuxBox> {
    vec![
        full("a", vec![full("a1", vec![]), full("a2", vec![full("a2x", vec![])])]),
        full("b", vec![]),
    ]
}

fn ids(boxes: Vec<&MuxBox>) -> Vec<String> {
    boxes.iter().map(|b| b.id.clone()).collect()
}

fn all_box_ids(boxes: &Vec<MuxBox>) -> Vec<String> {
    ids(all_boxes(boxes))
}

fn selected_box_ids(boxes: &Vec<MuxBox>) -> Vec<String> {
    ids(selected_boxes(boxes))
}

fn id_at(boxes: &Vec<MuxBox>, screen: &Bounds, x: u16, y: u16) -> Option<String> {
    box_at(boxes, screen, x, y).map(|b| b.id.clone())
}

fn layout_of(children: Vec<MuxBox>) -> Layout {
    let mut l = Layout::new();
    l.id = "main".to_string();
    l.children = children;
    l
}

#[test]
fn all_ids_in_preorder() {
    assert_eq!(all_box_ids(&sample()), vec!["a", "a1", "a2", "a2x", "b"]);
    assert!(all_box_ids(&vec![]).is_empty());
}

#[test]
fn find_box_looks_below_too() {
    let boxes = sample();
    assert_eq!(find_box(&boxes, "a2x").map(|b| b.id.clone()), Some("a2x".to_string()));
    assert_eq!(find_box(&boxes, "b").map(|b| b.children.len()), Some(0));
    assert!(find_box(&boxes, "zzz").is_none());
}

#[test]
fn select_only_box_selects_matching_ids() {
    let mut boxes = sample();
    boxes[1].selected = Some(true);
    select_only_box(&mut boxes, "a2");
    assert_eq!(selected_box_ids(&boxes), vec!["a2"]);
    assert_eq!(boxes[0].selected, Some(false));
    assert_eq!(boxes[0].children[1].selected, Some(true));
    assert_eq!(boxes[0].children[1].children[0].selected, Some(false));
    select_only_box(&mut boxes, "none");
    assert!(selected_box_ids(&boxes).is_empty());
}

#[test]
fn click_goes_to_highest_box_then_children() {
    let screen = Bounds::new(0, 0, 101, 101);
    let mut low = node("low", at("0", "0", "50", "50"), vec![node("inner", at("10", "10", "20", "20"), vec![])]);
    low.z_index = Some(1);
    let mut high = node("high", at("40", "40", "90", "90"), vec![]);
    high.z_index = Some(5);
    let boxes = vec![low, high];
    assert_eq!(id_at(&boxes, &screen, 45, 45), Some("high".to_string()));
    assert_eq!(id_at(&boxes, &screen, 15, 15), Some("inner".to_string()));
    assert_eq!(id_at(&boxes, &screen, 5, 5), Some("low".to_string()));
    assert_eq!(id_at(&boxes, &screen, 95, 95), None);
}

#[test]
fn click_ties_go_to_the_first_box() {
    let screen = Bounds::new(0, 0, 101, 101);
    let boxes = vec![
        node("first", at("0", "0", "50", "50"), vec![]),
        node("second", at("0", "0", "50", "50"), vec![]),
    ];
    assert_eq!(id_at(&boxes, &screen, 50, 50), Some("first".to_string()));
}

#[test]
fn replace_box_swaps_in_the_first_match() {
    let mut boxes = sample();
    let mut replacement = full("a2", vec![]);
    replacement.title = Some("new".to_string());
    assert!(replace_box(&mut boxes, replacement).is_none());
    let found = find_box(&boxes, "a2").unwrap();
    assert_eq!(found.title, Some("new".to_string()));
    assert!(found.children.is_empty());
    assert_eq!(all_box_ids(&boxes), vec!["a", "a1", "a2", "b"]);

    let back = replace_box(&mut boxes, full("missing", vec![])).unwrap();
    assert_eq!(back.id, "missing");
    assert_eq!(all_box_ids(&boxes), vec!["a", "a1", "a2", "b"]);
}

#[test]
fn layout_lookups_walk_the_whole_tree() {
    let l = layout_of(sample());
    assert_eq!(l.get_muxbox_by_id("a2x").map(|b| b.id.clone()), Some("a2x".to_string()));
    assert!(l.get_muxbox_by_id("zzz").is_none());
    assert_eq!(ids(l.get_all_muxboxes()), vec!["a", "a1", "a2", "a2x", "b"]);
    assert!(l.get_selected_muxboxes().is_empty());
}

#[test]
fn layout_selection_and_deselection() {
    let mut l = layout_of(sample());
    l.select_only_muxbox("a1");
    assert_eq!(ids(l.get_selected_muxboxes()), vec!["a1"]);
    l.children[1].selected = Some(true);
    l.deselect_all_muxboxes();
    assert_eq!(l.children[0].selected, Some(false));
    assert_eq!(l.children[1].selected, Some(false));
    // Only the top-level boxes are deselected.
    assert_eq!(l.children[0].children[0].selected, Some(true));
}

#[test]
fn layout_replace_answers_whether_found() {
    let mut l = layout_of(sample());
    let mut rep = full("a1", vec![]);
    rep.content = Some("fresh".to_string());
    assert_eq!(l.replace_muxbox_recursive(rep), Some(true));
    assert_eq!(l.get_muxbox_by_id("a1").unwrap().content, Some("fresh".to_string()));
    assert_eq!(l.replace_muxbox_recursive(full("nope", vec![])), Some(false));
    assert_eq!(ids(l.get_all_muxboxes()), vec!["a", "a1", "a2", "a2x", "b"]);
}

#[test]
fn layout_click_lookup() {
    let screen = Bounds::new(0, 0, 101, 101);
    let mut low = node("low", at("0", "0", "50", "50"), vec![node("inner", at("10", "10", "20", "20"), vec![])]);
    low.z_index = Some(1);
    let l = layout_of(vec![low]);
    assert_eq!(l.find_muxbox_at_coordinates(&screen, 15, 15).map(|b| b.id.clone()), Some("inner".to_string()));
    assert!(l.find_muxbox_at_coordinates(&screen, 80, 80).is_none());
}
