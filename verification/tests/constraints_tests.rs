use boxmux::constraints::{
    adjust_bounds_with_constraints, apply_constraints, calculate_bounds_map, calculate_initial_bounds,
    try_apply_constraints, try_calculate_bounds_map, try_calculate_initial_bounds,
};
use boxmux::muxbox::MuxBox;
use boxmux::keyed::KeyedList;
use boxmux::position::InputBounds;
use boxmux::{Anchor, Bounds};

fn at(x1: &str, y1: &str, x2: &str, y2: &str) -> InputBounds {
    InputBounds { x1: x1.to_string(), y1: y1.to_string(), x2: x2.to_string(), y2: y2.to_string() }
}

fn sized(id: &str, anchor: Anchor, children: Vec<MuxBox>) -> MuxBox {
    MuxBox {
        id: id.to_string(),
        position: at("0%", "0%", "100%", "100%"),
        anchor,
        min_width: None,
        min_height: None,
        max_width: None,
        max_height: None,
        z_index: None,
        selected: None,
        tab_order: None,
        title: None,
        content: None,
        script: None,
        redirect_output: None,
        choices: None,
        variables: None,
        children,
        ..Default::default()
    }
}

fn bounds_of(map: &KeyedList<Bounds>, id: &str) -> Bounds {
    *map.get(id).unwrap()
}

#[test]
fn min_width_grows_from_the_anchor() {
    let mut node = sized("a", Anchor::Center, vec![]);
    node.min_width = Some(30);
    let mut b = Bounds::new(10, 10, 20, 20);
    apply_constraints(&node, &mut b);
    assert_eq!(b, Bounds::new(0, 10, 30, 20));

    node.anchor = Anchor::BottomRight;
    let mut b = Bounds::new(10, 10, 20, 20);
    apply_constraints(&node, &mut b);
    assert_eq!(b, Bounds::new(10, 10, 40, 20));
}

#[test]
fn min_height_grows_downward_from_top_anchor() {
    let mut node = sized("a", Anchor::CenterTop, vec![]);
    node.min_height = Some(15);
    let mut b = Bounds::new(0, 5, 10, 10);
    apply_constraints(&node, &mut b);
    assert_eq!(b, Bounds::new(0, 0, 10, 10));
}

#[test]
fn max_limits_shrink() {
    let mut node = sized("a", Anchor::TopLeft, vec![]);
    node.max_width = Some(40);
    node.max_height = Some(20);
    let mut b = Bounds::new(0, 0, 100, 50);
    apply_constraints(&node, &mut b);
    assert_eq!(b, Bounds::new(60, 30, 100, 50));
}

#[test]
fn limits_already_met_change_nothing() {
    let mut node = sized("a", Anchor::Center, vec![]);
    node.min_width = Some(5);
    node.max_width = Some(50);
    node.min_height = Some(5);
    node.max_height = Some(50);
    let mut b = Bounds::new(3, 4, 23, 24);
    apply_constraints(&node, &mut b);
    assert_eq!(b, Bounds::new(3, 4, 23, 24));
}

#[test]
fn children_are_kept_inside_their_top_box() {
    let child = sized("child", Anchor::Center, vec![]);
    let root = sized("root", Anchor::Center, vec![child]);
    let mut map = KeyedList::new();
    map.insert("root", Bounds::new(10, 10, 50, 50));
    map.insert("child", Bounds::new(0, 0, 30, 30));
    map.insert("other", Bounds::new(0, 0, 5, 5));
    let out = adjust_bounds_with_constraints(&vec![root], map);
    assert_eq!(bounds_of(&out, "root"), Bounds::new(10, 10, 50, 50));
    assert_eq!(bounds_of(&out, "child"), Bounds::new(10, 10, 30, 30));
    assert_eq!(bounds_of(&out, "other"), Bounds::new(0, 0, 5, 5));
    assert_eq!(out.len(), 3);
}

#[test]
fn top_box_stretches_over_wide_children() {
    let mut child = sized("child", Anchor::TopLeft, vec![]);
    child.min_width = Some(60);
    let grandchild = sized("grand", Anchor::Center, vec![]);
    child.children.push(grandchild);
    let root = sized("root", Anchor::Center, vec![child]);
    let mut map = KeyedList::new();
    map.insert("root", Bounds::new(0, 0, 40, 40));
    map.insert("child", Bounds::new(5, 5, 20, 20));
    map.insert("grand", Bounds::new(0, 0, 90, 90));
    let out = adjust_bounds_with_constraints(&vec![root], map);
    // The child grows to the left only as far as column 0.
    assert_eq!(bounds_of(&out, "child"), Bounds::new(0, 5, 20, 20));
    // The top box answers bounds stretched to (90, 90); everything below it
    // is clamped into them, so the grandchild keeps its size.
    assert_eq!(bounds_of(&out, "grand"), Bounds::new(0, 0, 90, 90));
    assert_eq!(bounds_of(&out, "root"), Bounds::new(0, 0, 40, 40));
}

#[test]
fn boxes_are_placed_inside_their_parents() {
    let mut child = sized("child", Anchor::Center, vec![]);
    child.position = at("50%", "0%", "100%", "50%");
    let mut root = sized("root", Anchor::Center, vec![child]);
    root.position = at("0%", "0%", "50%", "100%");
    let mut side = sized("side", Anchor::Center, vec![]);
    side.position = at("10", "20", "30", "40");
    let screen = Bounds::new(0, 0, 101, 51);
    let map = calculate_initial_bounds(&vec![root, side], &screen);
    assert_eq!(map.len(), 3);
    assert_eq!(bounds_of(&map, "root"), Bounds::new(0, 0, 50, 50));
    assert_eq!(bounds_of(&map, "child"), Bounds::new(25, 0, 49, 25));
    assert_eq!(bounds_of(&map, "side"), Bounds::new(10, 20, 30, 40));
}

#[test]
fn bounds_map_places_then_sizes() {
    let mut root = sized("root", Anchor::TopLeft, vec![]);
    root.position = at("0%", "0%", "50%", "50%");
    root.max_width = Some(20);
    let screen = Bounds::new(0, 0, 101, 101);
    let map = calculate_bounds_map(&vec![root], &screen);
    assert_eq!(bounds_of(&map, "root"), Bounds::new(30, 0, 50, 50));
}

#[test]
fn test_try_calculate_bounds_map_agrees_or_refuses() {
    let screen = Bounds::new(0, 0, 100, 40);
    let good = vec![sized("root", Anchor::TopLeft, vec![sized("child", Anchor::TopLeft, vec![])])];
    let checked = try_calculate_bounds_map(&good, &screen).unwrap();
    let plain = calculate_bounds_map(&good, &screen);
    assert_eq!(bounds_of(&checked, "root"), bounds_of(&plain, "root"));
    assert_eq!(bounds_of(&checked, "child"), bounds_of(&plain, "child"));
    let bad = vec![MuxBox { position: at("x", "0", "10", "10"), ..sized("bad", Anchor::TopLeft, vec![]) }];
    assert!(try_calculate_initial_bounds(&bad, &screen).is_none());
    assert!(try_calculate_bounds_map(&bad, &screen).is_none());
}

#[test]
fn test_try_apply_constraints_refuses_overflow() {
    let node = MuxBox { min_width: Some(usize::MAX), ..sized("n", Anchor::TopRight, vec![]) };
    let b = Bounds::new(10, 0, 20, 5);
    assert!(try_apply_constraints(&node, &b).is_none());
    let ok = MuxBox { min_width: Some(30), ..sized("n", Anchor::TopRight, vec![]) };
    let grown = try_apply_constraints(&ok, &b).unwrap();
    assert_eq!(grown.width(), 30);
}
