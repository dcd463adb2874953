use boxmux::muxbox::MuxBox;
use boxmux::layouts::{apply_post_validation_setup, apply_variable_substitution, App, Layout};
use boxmux::position::InputBounds;
use boxmux::Anchor;

fn table(pairs: &[(&str, &str)]) -> Vec<(String, String)> {
    pairs.iter().map(|(k, v)| (k.to_string(), v.to_string())).collect()
}

fn layout_box(id: &str) -> MuxBox {
    MuxBox {
        id: id.to_string(),
        position: InputBounds {
            x1: "0%".to_string(),
            y1: "0%".to_string(),
            x2: "100%".to_string(),
            y2: "100%".to_string(),
        },
        anchor: Anchor::Center,
        min_width: None,
        min_height: None,
        max_width: None,
        max_height: None,
        z_index: None,
        selected: None,
        tab_order: None,
        title: None,
        content: None,
        script: None,
        redirect_output: None,
        choices: None,
        variables: None,
        children: vec![],
        ..Default::default()
    }
}

fn layout(id: &str, root: Option<bool>, active: Option<bool>, children: Vec<MuxBox>) -> Layout {
    Layout { id: id.to_string(), title: None, root, active, children, muxbox_ids_in_tab_order: None, ..Default::default() }
}

fn app(layouts: Vec<Layout>) -> App {
    App { layouts, variables: None }
}

fn id_of(l: Option<&Layout>) -> Option<String> {
    l.map(|l| l.id.clone())
}

#[test]
fn layouts_found_by_id() {
    let a = app(vec![layout("one", None, None, vec![]), layout("two", None, None, vec![])]);
    assert_eq!(id_of(a.get_layout_by_id("two")), Some("two".to_string()));
    assert_eq!(id_of(a.get_layout_by_id("three")), None);
}

#[test]
fn new_app_and_layout_are_empty() {
    let a = App::new();
    assert!(a.layouts.is_empty());
    assert!(a.variables.is_none());
    let l = Layout::new();
    assert_eq!(l.id, "");
    assert_eq!(l.root, Some(false));
    assert_eq!(l.active, Some(false));
    assert!(l.children.is_empty());
}

#[test]
fn root_and_active_layouts() {
    let a = app(vec![
        layout("one", Some(false), None, vec![]),
        layout("two", Some(true), Some(true), vec![]),
    ]);
    assert_eq!(id_of(a.get_root_layout()), Some("two".to_string()));
    assert_eq!(id_of(a.get_active_layout()), Some("two".to_string()));
    let none = app(vec![layout("one", None, Some(false), vec![])]);
    assert_eq!(id_of(none.get_root_layout()), None);
    assert_eq!(id_of(none.get_active_layout()), None);
}

#[test]
fn showing_a_layout_hides_the_others() {
    let mut a = app(vec![
        layout("one", Some(true), Some(true), vec![]),
        layout("two", None, None, vec![]),
    ]);
    a.set_active_layout("two");
    assert_eq!(a.layouts[0].active, Some(false));
    assert_eq!(a.layouts[1].active, Some(true));
    assert_eq!(a.layouts[0].root, Some(true));
    a.set_active_layout("missing");
    assert_eq!(id_of(a.get_active_layout()), None);
}

#[test]
fn loading_settles_the_root_layout() {
    let mut a = app(vec![
        layout("a", Some(true), None, vec![]),
        layout("b", None, Some(true), vec![]),
        layout("c", Some(true), None, vec![]),
    ]);
    assert!(apply_post_validation_setup(&mut a).is_ok());
    assert_eq!(id_of(a.get_root_layout()), Some("c".to_string()));
    assert_eq!(id_of(a.get_active_layout()), Some("c".to_string()));
    assert_eq!(a.layouts[0].root, Some(false));
    assert_eq!(a.layouts[1].active, Some(false));

    let mut first = app(vec![layout("x", None, None, vec![]), layout("y", None, None, vec![])]);
    assert!(apply_post_validation_setup(&mut first).is_ok());
    assert_eq!(id_of(first.get_root_layout()), Some("x".to_string()));
    assert_eq!(first.layouts[1].root, Some(false));

    let mut empty = App::new();
    assert!(apply_post_validation_setup(&mut empty).is_ok());
    assert!(empty.layouts.is_empty());
}

#[test]
fn loading_selects_the_first_box_in_tab_order() {
    let mut first = layout_box("first");
    first.tab_order = Some("1".to_string());
    let mut second = layout_box("second");
    second.tab_order = Some("2".to_string());
    let mut a = app(vec![layout("main", None, None, vec![second, first])]);
    assert!(apply_post_validation_setup(&mut a).is_ok());
    assert_eq!(a.layouts[0].children[1].selected, Some(true));
    assert_eq!(a.layouts[0].children[0].selected, None);
    assert_eq!(a.layouts[0].root, Some(true));
    assert_eq!(a.layouts[0].active, Some(true));
}

#[test]
fn boxes_found_across_layouts() {
    let mut parent = layout_box("p");
    parent.children.push(layout_box("deep"));
    let a = app(vec![layout("one", None, None, vec![layout_box("a")]), layout("two", None, None, vec![parent])]);
    assert_eq!(a.get_muxbox_by_id("deep").map(|b| b.id.clone()), Some("deep".to_string()));
    assert!(a.get_muxbox_by_id("zz").is_none());
}

#[test]
fn app_variables_reach_layout_titles_and_boxes() {
    let mut b = layout_box("b");
    b.title = Some("${WHO}'s box".to_string());
    let mut l = layout("main", None, None, vec![b]);
    l.title = Some("Layout of ${WHO}".to_string());
    let mut a = App { layouts: vec![l], variables: Some(table(&[("WHO", "ann")])) };
    assert!(apply_variable_substitution(&mut a, &table(&[])).is_ok());
    assert_eq!(a.layouts[0].title, Some("Layout of ann".to_string()));
    assert_eq!(a.layouts[0].children[0].title, Some("ann's box".to_string()));

    let mut bad = app(vec![layout("broken", None, None, vec![])]);
    bad.layouts[0].title = Some("${A:${B}}".to_string());
    let err = apply_variable_substitution(&mut bad, &table(&[])).unwrap_err();
    assert!(err.starts_with("Error in layout 'broken' title: Nested variable"));
}

#[test]
fn replacing_a_box_across_layouts() {
    let mut a = app(vec![layout("one", None, None, vec![layout_box("a")]), layout("two", None, None, vec![layout_box("b")])]);
    let mut rep = layout_box("b");
    rep.content = Some("replaced".to_string());
    a.replace_muxbox(rep);
    assert_eq!(a.get_muxbox_by_id("b").unwrap().content, Some("replaced".to_string()));
    a.replace_muxbox(layout_box("zzz"));
    assert!(a.get_muxbox_by_id("zzz").is_none());
}
