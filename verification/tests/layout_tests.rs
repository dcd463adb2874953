use boxmux::layouts::Layout;
use boxmux::muxbox::MuxBox;
use boxmux::position::InputBounds;
use boxmux::Bounds;

fn create_test_muxbox(id: &str) -> MuxBox {
    MuxBox {
        id: id.to_string(),
        title: Some(format!("Test MuxBox {}", id)),
        position: InputBounds {
            x1: "0%".to_string(),
            y1: "0%".to_string(),
            x2: "100%".to_string(),
            y2: "100%".to_string(),
        },
        tab_order: Some(id.to_string()),
        selected: Some(false),
        ..Default::default()
    }
}

fn create_test_layout(id: &str, children: Option<Vec<MuxBox>>) -> Layout {
    Layout {
        id: id.to_string(),
        title: Some(format!("Test Layout {}", id)),
        children: children.unwrap_or_default(),
        root: Some(false),
        active: Some(false),
        ..Default::default()
    }
}

#[test]
fn test_layout_default() {
    let layout = Layout::default();
    assert_eq!(layout.id, "");
    assert_eq!(layout.title, None);
    assert!(layout.children.is_empty());
    assert_eq!(layout.root, None);
    assert_eq!(layout.active, None);
    assert_eq!(layout.muxbox_ids_in_tab_order, None);
}

#[test]
fn test_layout_new() {
    let layout = Layout::new();
    assert_eq!(layout.id, "");
    assert_eq!(layout.title, None);
    assert!(layout.children.is_empty());
    assert_eq!(layout.root, Some(false));
    assert_eq!(layout.active, Some(false));
    assert_eq!(layout.muxbox_ids_in_tab_order, None);
}

#[test]
fn test_layout_creation() {
    let muxbox1 = create_test_muxbox("muxbox1");
    let muxbox2 = create_test_muxbox("muxbox2");
    let children = vec![muxbox1, muxbox2];

    let layout = Layout {
        id: "test_layout".to_string(),
        title: Some("Test Layout".to_string()),
        children,
        root: Some(true),
        active: Some(true),
        ..Default::default()
    };

    assert_eq!(layout.id, "test_layout");
    assert_eq!(layout.title, Some("Test Layout".to_string()));
    assert_eq!(layout.children.len(), 2);
    assert_eq!(layout.root, Some(true));
    assert_eq!(layout.active, Some(true));
}

#[test]
fn test_layout_get_muxbox_by_id() {
    let muxbox1 = create_test_muxbox("muxbox1");
    let muxbox2 = create_test_muxbox("muxbox2");
    let layout = create_test_layout("test", Some(vec![muxbox1, muxbox2]));

    let found_muxbox = layout.get_muxbox_by_id("muxbox1");
    assert!(found_muxbox.is_some());
    assert_eq!(found_muxbox.unwrap().id, "muxbox1");

    let not_found = layout.get_muxbox_by_id("nonexistent");
    assert!(not_found.is_none());
}

#[test]
fn test_layout_get_muxbox_by_id_nested() {
    let child_muxbox = create_test_muxbox("child");
    let parent_muxbox = MuxBox { id: "parent".to_string(), children: vec![child_muxbox], ..Default::default() };
    let layout = create_test_layout("test", Some(vec![parent_muxbox]));

    let found_child = layout.get_muxbox_by_id("child");
    assert!(found_child.is_some());
    assert_eq!(found_child.unwrap().id, "child");
}

#[test]
fn test_layout_get_selected_muxboxes() {
    let mut muxbox1 = create_test_muxbox("muxbox1");
    let mut muxbox2 = create_test_muxbox("muxbox2");
    let mut muxbox3 = create_test_muxbox("muxbox3");

    muxbox1.selected = Some(true);
    muxbox2.selected = Some(false);
    muxbox3.selected = Some(true);

    let layout = create_test_layout("test", Some(vec![muxbox1, muxbox2, muxbox3]));

    let selected = layout.get_selected_muxboxes();
    assert_eq!(selected.len(), 2);
    assert_eq!(selected[0].id, "muxbox1");
    assert_eq!(selected[1].id, "muxbox3");
}

#[test]
fn test_layout_get_selected_muxboxes_none() {
    let muxbox1 = create_test_muxbox("muxbox1");
    let muxbox2 = create_test_muxbox("muxbox2");
    let layout = create_test_layout("test", Some(vec![muxbox1, muxbox2]));

    let selected = layout.get_selected_muxboxes();
    assert_eq!(selected.len(), 0);
}

#[test]
fn test_layout_select_only_muxbox() {
    let mut muxbox1 = create_test_muxbox("muxbox1");
    let mut muxbox2 = create_test_muxbox("muxbox2");
    let mut muxbox3 = create_test_muxbox("muxbox3");

    muxbox1.selected = Some(true);
    muxbox2.selected = Some(true);
    muxbox3.selected = Some(false);

    let mut layout = create_test_layout("test", Some(vec![muxbox1, muxbox2, muxbox3]));

    layout.select_only_muxbox("muxbox2");

    let selected = layout.get_selected_muxboxes();
    assert_eq!(selected.len(), 1);
    assert_eq!(selected[0].id, "muxbox2");
}

#[test]
fn test_layout_select_only_muxbox_nonexistent() {
    let mut muxbox1 = create_test_muxbox("muxbox1");
    muxbox1.selected = Some(true);

    let mut layout = create_test_layout("test", Some(vec![muxbox1]));

    layout.select_only_muxbox("nonexistent");

    let selected = layout.get_selected_muxboxes();
    assert_eq!(selected.len(), 0);
}

#[test]
fn test_layout_deselect_all_muxboxes() {
    let mut muxbox1 = create_test_muxbox("muxbox1");
    let mut muxbox2 = create_test_muxbox("muxbox2");

    muxbox1.selected = Some(true);
    muxbox2.selected = Some(true);

    let mut layout = create_test_layout("test", Some(vec![muxbox1, muxbox2]));

    layout.deselect_all_muxboxes();

    let selected = layout.get_selected_muxboxes();
    assert_eq!(selected.len(), 0);
}

#[test]
fn test_layout_get_muxboxes_in_tab_order() {
    let mut muxbox1 = create_test_muxbox("muxbox1");
    let mut muxbox2 = create_test_muxbox("muxbox2");
    let mut muxbox3 = create_test_muxbox("muxbox3");

    muxbox1.tab_order = Some("3".to_string());
    muxbox2.tab_order = Some("1".to_string());
    muxbox3.tab_order = Some("2".to_string());

    let mut layout = create_test_layout("test", Some(vec![muxbox1, muxbox2, muxbox3]));

    let muxboxes_in_order = layout.get_muxboxes_in_tab_order();
    assert_eq!(muxboxes_in_order.len(), 3);
    assert_eq!(muxboxes_in_order[0].id, "muxbox2");
    assert_eq!(muxboxes_in_order[1].id, "muxbox3");
    assert_eq!(muxboxes_in_order[2].id, "muxbox1");
}

#[test]
fn test_layout_get_muxboxes_in_tab_order_filtered() {
    let mut muxbox1 = create_test_muxbox("muxbox1");
    let mut muxbox2 = create_test_muxbox("muxbox2");
    let mut muxbox3 = create_test_muxbox("muxbox3");

    muxbox1.tab_order = Some("1".to_string());
    muxbox2.tab_order = None;
    muxbox3.tab_order = Some("2".to_string());

    let mut layout = create_test_layout("test", Some(vec![muxbox1, muxbox2, muxbox3]));

    let muxboxes_in_order = layout.get_muxboxes_in_tab_order();
    assert_eq!(muxboxes_in_order.len(), 2);
    assert_eq!(muxboxes_in_order[0].id, "muxbox1");
    assert_eq!(muxboxes_in_order[1].id, "muxbox3");
}

#[test]
fn test_layout_get_muxboxes_in_tab_order_nested() {
    let mut child_muxbox = create_test_muxbox("child");
    child_muxbox.tab_order = Some("2".to_string());

    let mut parent_muxbox = create_test_muxbox("parent");
    parent_muxbox.tab_order = Some("1".to_string());
    parent_muxbox.children = vec![child_muxbox];

    let mut layout = create_test_layout("test", Some(vec![parent_muxbox]));

    let muxboxes_in_order = layout.get_muxboxes_in_tab_order();
    assert_eq!(muxboxes_in_order.len(), 2);
    assert_eq!(muxboxes_in_order[0].id, "parent");
    assert_eq!(muxboxes_in_order[1].id, "child");
}

#[test]
fn test_layout_select_next_muxbox() {
    let mut muxbox1 = create_test_muxbox("muxbox1");
    let mut muxbox2 = create_test_muxbox("muxbox2");
    let mut muxbox3 = create_test_muxbox("muxbox3");

    muxbox1.tab_order = Some("1".to_string());
    muxbox2.tab_order = Some("2".to_string());
    muxbox3.tab_order = Some("3".to_string());

    muxbox1.selected = Some(true);
    muxbox2.selected = Some(false);
    muxbox3.selected = Some(false);

    let mut layout = create_test_layout("test", Some(vec![muxbox1, muxbox2, muxbox3]));

    layout.select_next_muxbox();

    let selected = layout.get_selected_muxboxes();
    assert_eq!(selected.len(), 1);
    assert_eq!(selected[0].id, "muxbox2");
}

#[test]
fn test_layout_select_next_muxbox_wrap_around() {
    let mut muxbox1 = create_test_muxbox("muxbox1");
    let mut muxbox2 = create_test_muxbox("muxbox2");

    muxbox1.tab_order = Some("1".to_string());
    muxbox2.tab_order = Some("2".to_string());

    muxbox1.selected = Some(false);
    muxbox2.selected = Some(true);

    let mut layout = create_test_layout("test", Some(vec![muxbox1, muxbox2]));

    layout.select_next_muxbox();

    let selected = layout.get_selected_muxboxes();
    assert_eq!(selected.len(), 1);
    assert_eq!(selected[0].id, "muxbox1");
}

#[test]
fn test_layout_select_next_muxbox_no_selection() {
    let mut muxbox1 = create_test_muxbox("muxbox1");
    let mut muxbox2 = create_test_muxbox("muxbox2");

    muxbox1.tab_order = Some("1".to_string());
    muxbox2.tab_order = Some("2".to_string());

    muxbox1.selected = Some(false);
    muxbox2.selected = Some(false);

    let mut layout = create_test_layout("test", Some(vec![muxbox1, muxbox2]));

    layout.select_next_muxbox();

    let selected = layout.get_selected_muxboxes();
    assert_eq!(selected.len(), 1);
    assert_eq!(selected[0].id, "muxbox1");
}

#[test]
fn test_layout_select_previous_muxbox() {
    let mut muxbox1 = create_test_muxbox("muxbox1");
    let mut muxbox2 = create_test_muxbox("muxbox2");
    let mut muxbox3 = create_test_muxbox("muxbox3");

    muxbox1.tab_order = Some("1".to_string());
    muxbox2.tab_order = Some("2".to_string());
    muxbox3.tab_order = Some("3".to_string());

    muxbox1.selected = Some(false);
    muxbox2.selected = Some(true);
    muxbox3.selected = Some(false);

    let mut layout = create_test_layout("test", Some(vec![muxbox1, muxbox2, muxbox3]));

    layout.select_previous_muxbox();

    let selected = layout.get_selected_muxboxes();
    assert_eq!(selected.len(), 1);
    assert_eq!(selected[0].id, "muxbox1");
}

#[test]
fn test_layout_select_previous_muxbox_wrap_around() {
    let mut muxbox1 = create_test_muxbox("muxbox1");
    let mut muxbox2 = create_test_muxbox("muxbox2");

    muxbox1.tab_order = Some("1".to_string());
    muxbox2.tab_order = Some("2".to_string());

    muxbox1.selected = Some(true);
    muxbox2.selected = Some(false);

    let mut layout = create_test_layout("test", Some(vec![muxbox1, muxbox2]));

    layout.select_previous_muxbox();

    let selected = layout.get_selected_muxboxes();
    assert_eq!(selected.len(), 1);
    assert_eq!(selected[0].id, "muxbox2");
}

#[test]
fn test_layout_select_previous_muxbox_no_selection() {
    let mut muxbox1 = create_test_muxbox("muxbox1");
    let mut muxbox2 = create_test_muxbox("muxbox2");

    muxbox1.tab_order = Some("1".to_string());
    muxbox2.tab_order = Some("2".to_string());

    muxbox1.selected = Some(false);
    muxbox2.selected = Some(false);

    let mut layout = create_test_layout("test", Some(vec![muxbox1, muxbox2]));

    layout.select_previous_muxbox();

    let selected = layout.get_selected_muxboxes();
    assert_eq!(selected.len(), 1);
    assert_eq!(selected[0].id, "muxbox2");
}

#[test]
fn test_layout_navigation_empty_muxboxes() {
    let mut layout = create_test_layout("test", None);

    layout.select_next_muxbox();
    layout.select_previous_muxbox();

    let selected = layout.get_selected_muxboxes();
    assert_eq!(selected.len(), 0);
}

#[test]
fn test_layout_navigation_no_tab_order() {
    let mut muxbox1 = create_test_muxbox("muxbox1");
    let mut muxbox2 = create_test_muxbox("muxbox2");

    muxbox1.tab_order = None;
    muxbox2.tab_order = None;

    let mut layout = create_test_layout("test", Some(vec![muxbox1, muxbox2]));

    layout.select_next_muxbox();
    layout.select_previous_muxbox();

    let selected = layout.get_selected_muxboxes();
    assert_eq!(selected.len(), 0);
}

#[test]
fn test_layout_get_all_muxboxes() {
    let muxbox1 = create_test_muxbox("muxbox1");
    let muxbox2 = create_test_muxbox("muxbox2");
    let layout = create_test_layout("test", Some(vec![muxbox1, muxbox2]));

    let all_muxboxes = layout.get_all_muxboxes();
    assert_eq!(all_muxboxes.len(), 2);
    assert_eq!(all_muxboxes[0].id, "muxbox1");
    assert_eq!(all_muxboxes[1].id, "muxbox2");
}

#[test]
fn test_layout_get_all_muxboxes_nested() {
    let child_muxbox = create_test_muxbox("child");
    let parent_muxbox = MuxBox { id: "parent".to_string(), children: vec![child_muxbox], ..Default::default() };
    let layout = create_test_layout("test", Some(vec![parent_muxbox]));

    let all_muxboxes = layout.get_all_muxboxes();
    assert_eq!(all_muxboxes.len(), 2);
    assert_eq!(all_muxboxes[0].id, "parent");
    assert_eq!(all_muxboxes[1].id, "child");
}

#[test]
fn test_layout_get_all_muxboxes_empty() {
    let layout = create_test_layout("test", None);

    let all_muxboxes = layout.get_all_muxboxes();
    assert_eq!(all_muxboxes.len(), 0);
}

#[test]
fn test_layout_empty_children_operations() {
    let mut layout = create_test_layout("test", Some(vec![]));

    let muxboxes = layout.get_all_muxboxes();
    assert_eq!(muxboxes.len(), 0);

    let selected = layout.get_selected_muxboxes();
    assert_eq!(selected.len(), 0);

    let tab_ordered = layout.get_muxboxes_in_tab_order();
    assert_eq!(tab_ordered.len(), 0);

    layout.select_next_muxbox();
    layout.select_previous_muxbox();
    layout.select_only_muxbox("nonexistent");
    layout.deselect_all_muxboxes();
}

#[test]
fn test_layout_none_children_operations() {
    let mut layout = create_test_layout("test", None);

    let muxboxes = layout.get_all_muxboxes();
    assert_eq!(muxboxes.len(), 0);

    let selected = layout.get_selected_muxboxes();
    assert_eq!(selected.len(), 0);

    let tab_ordered = layout.get_muxboxes_in_tab_order();
    assert_eq!(tab_ordered.len(), 0);

    layout.select_next_muxbox();
    layout.select_previous_muxbox();
    layout.select_only_muxbox("nonexistent");
    layout.deselect_all_muxboxes();
}

#[test]
fn default_muxbox_sits_at_the_origin() {
    let b = MuxBox::default();
    assert_eq!(b.id, "");
    assert_eq!(b.position.x1, "0");
    assert_eq!(b.position.y2, "0");
    assert_eq!(b.selected, Some(false));
    assert!(b.children.is_empty());
}

#[test]
fn muxbox_stacking_and_selection_flags() {
    let mut b = MuxBox::default();
    assert_eq!(b.effective_z_index(), 0);
    b.z_index = Some(-3);
    assert_eq!(b.effective_z_index(), -3);
    assert!(!b.is_selected());
    b.selected = Some(true);
    assert!(b.is_selected());
    b.selected = None;
    assert!(!b.is_selected());
}

#[test]
fn muxbox_absolute_bounds_inside_parent_or_screen() {
    let b = MuxBox {
        position: InputBounds { x1: "0%".to_string(), y1: "0%".to_string(), x2: "50%".to_string(), y2: "50%".to_string() },
        ..Default::default()
    };
    let screen = Bounds::new(0, 0, 100, 40);
    let parent = Bounds::new(10, 10, 30, 30);
    let on_screen = b.absolute_bounds(None, &screen);
    let in_parent = b.absolute_bounds(Some(&parent), &screen);
    assert_eq!((on_screen.x1, on_screen.y1), (0, 0));
    assert_eq!((in_parent.x1, in_parent.y1), (10, 10));
    assert!(in_parent.x2 <= 30 && in_parent.y2 <= 30);
    assert!(on_screen.x2 > in_parent.x2);
}
