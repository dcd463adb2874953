use boxmux::layouts::{apply_post_validation_setup, App, Layout};
use boxmux::muxbox::MuxBox;
use boxmux::position::InputBounds;

fn create_test_muxbox(id: &str) -> MuxBox {
    MuxBox {
        id: id.to_string(),
        title: Some(format!("Test MuxBox {}", id)),
        position: InputBounds {
            x1: "0%".to_string(),
            y1: "0%".to_string(),
            x2: "100%".to_string(),
            y2: "100%".to_string(),
        },
        tab_order: Some("1".to_string()),
        selected: Some(false),
        ..Default::default()
    }
}

fn create_test_layout(id: &str, children: Option<Vec<MuxBox>>) -> Layout {
    Layout {
        id: id.to_string(),
        title: Some(format!("Test Layout {}", id)),
        children: children.unwrap_or_default(),
        root: Some(false),
        active: Some(false),
        ..Default::default()
    }
}

fn create_test_app() -> App {
    let muxbox1 = create_test_muxbox("muxbox1");
    let muxbox2 = create_test_muxbox("muxbox2");
    let layout1 = create_test_layout("layout1", Some(vec![muxbox1, muxbox2]));

    let mut app = App::new();
    app.layouts.push(layout1);
    app
}

#[test]
fn test_app_new() {
    let app = App::new();
    assert_eq!(app.layouts.len(), 0);
    assert!(app.variables.is_none());
}

#[test]
fn test_app_default() {
    let app = App::default();
    assert_eq!(app.layouts.len(), 0);
    assert!(app.variables.is_none());
}

#[test]
fn test_app_get_layout_by_id() {
    let app = create_test_app();

    let found_layout = app.get_layout_by_id("layout1");
    assert!(found_layout.is_some());
    assert_eq!(found_layout.unwrap().id, "layout1");

    let not_found = app.get_layout_by_id("nonexistent");
    assert!(not_found.is_none());
}

#[test]
fn test_app_get_root_layout() {
    let mut app = create_test_app();

    assert!(app.get_root_layout().is_none());

    app.layouts[0].root = Some(true);

    let root_layout = app.get_root_layout();
    assert!(root_layout.is_some());
    assert_eq!(root_layout.unwrap().id, "layout1");
}

#[test]
fn test_app_get_active_layout() {
    let mut app = create_test_app();

    assert!(app.get_active_layout().is_none());

    app.layouts[0].active = Some(true);

    let active_layout = app.get_active_layout();
    assert!(active_layout.is_some());
    assert_eq!(active_layout.unwrap().id, "layout1");
}

#[test]
fn test_app_set_active_layout() {
    let mut app = create_test_app();

    let layout2 = create_test_layout("layout2", None);
    app.layouts.push(layout2);

    app.set_active_layout("layout2");

    let active_layout = app.get_active_layout();
    assert!(active_layout.is_some());
    assert_eq!(active_layout.unwrap().id, "layout2");

    let layout1 = app.get_layout_by_id("layout1").unwrap();
    assert_eq!(layout1.active, Some(false));
}

#[test]
fn test_app_set_active_layout_nonexistent() {
    let mut app = create_test_app();

    app.set_active_layout("nonexistent");

    assert!(app.get_active_layout().is_none());
}

#[test]
fn test_app_get_muxbox_by_id() {
    let app = create_test_app();

    let found_muxbox = app.get_muxbox_by_id("muxbox1");
    assert!(found_muxbox.is_some());
    assert_eq!(found_muxbox.unwrap().id, "muxbox1");

    let not_found = app.get_muxbox_by_id("nonexistent");
    assert!(not_found.is_none());
}

#[test]
fn test_app_validate_root_layout_activation() {
    let mut app = create_test_app();
    app.layouts[0].root = Some(true);

    assert!(apply_post_validation_setup(&mut app).is_ok());

    let layout = app.get_layout_by_id("layout1").unwrap();
    assert_eq!(layout.active, Some(true));
}

#[test]
fn test_app_validate_default_root() {
    let mut app = create_test_app();

    let layout2 = create_test_layout("layout2", None);
    app.layouts.push(layout2);

    assert!(apply_post_validation_setup(&mut app).is_ok());

    let layout1 = app.get_layout_by_id("layout1").unwrap();
    assert_eq!(layout1.root, Some(true));
    assert_eq!(layout1.active, Some(true));

    let layout2 = app.get_layout_by_id("layout2").unwrap();
    assert_eq!(layout2.root, Some(false));
    assert_eq!(layout2.active, Some(false));
}

#[test]
fn test_app_replace_muxbox() {
    let mut app = create_test_app();

    let mut replacement_muxbox = create_test_muxbox("muxbox1");
    replacement_muxbox.title = Some("Replaced MuxBox".to_string());

    app.replace_muxbox(replacement_muxbox);

    let replaced_muxbox = app.get_muxbox_by_id("muxbox1").unwrap();
    assert_eq!(replaced_muxbox.title, Some("Replaced MuxBox".to_string()));
}

#[test]
fn test_app_replace_muxbox_nonexistent() {
    let mut app = create_test_app();

    let replacement_muxbox = create_test_muxbox("nonexistent");

    app.replace_muxbox(replacement_muxbox);

    let original_muxbox = app.get_muxbox_by_id("muxbox1").unwrap();
    assert_eq!(original_muxbox.title, Some("Test MuxBox muxbox1".to_string()));
}
