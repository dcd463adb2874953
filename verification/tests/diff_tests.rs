use boxmux::common::EntityType;
use boxmux::layout_diff::{
    apply_layout_box_changes, apply_layout_changes, layout_box_diff, layout_diff, LayoutChange, LayoutField,
};
use boxmux::layouts::Layout;
use boxmux::muxbox::{Choice, MuxBox};
use boxmux::muxbox_diff::{apply_muxbox_changes, muxbox_diff, FieldChange, MuxBoxField};
use boxmux::position::InputBounds;
use boxmux::Anchor;

fn boxed(id: &str) -> MuxBox {
    MuxBox { id: id.to_string(), ..Default::default() }
}

fn at(x1: &str, y1: &str, x2: &str, y2: &str) -> InputBounds {
    InputBounds { x1: x1.to_string(), y1: y1.to_string(), x2: x2.to_string(), y2: y2.to_string() }
}

#[test]
fn test_muxbox_diff_of_equal_boxes_is_empty() {
    let a = MuxBox { title: Some("T".to_string()), border_color: Some("red".to_string()), ..boxed("a") };
    let b = MuxBox { title: Some("T".to_string()), border_color: Some("red".to_string()), ..boxed("a") };
    assert!(muxbox_diff(&a, &b).is_empty());
}

#[test]
fn test_muxbox_diff_names_changed_fields_in_order() {
    let a = MuxBox { title: Some("Old".to_string()), refresh_interval: Some(100), ..boxed("box1") };
    let b = MuxBox {
        title: Some("New".to_string()),
        position: at("10%", "10%", "50%", "50%"),
        refresh_interval: Some(250),
        fill: Some(true),
        error_state: true,
        output: "done".to_string(),
        ..boxed("other")
    };
    let d = muxbox_diff(&a, &b);
    let fields: Vec<&MuxBoxField> = d.iter().map(|c| &c.field).collect();
    assert_eq!(
        fields,
        vec![
            &MuxBoxField::Title("New".to_string()),
            &MuxBoxField::Position(at("10%", "10%", "50%", "50%")),
            &MuxBoxField::RefreshInterval(250),
            &MuxBoxField::Fill(Some(true)),
            &MuxBoxField::ErrorState(true),
            &MuxBoxField::Output("done".to_string()),
        ]
    );
    for c in &d {
        assert_eq!(c.entity, EntityType::MuxBox);
        assert_eq!(c.entity_id, Some("box1".to_string()));
    }
}

#[test]
fn test_muxbox_diff_skips_values_the_other_box_lacks() {
    let a = MuxBox { title: Some("Kept".to_string()), min_width: Some(5), fill_char: Some('#'), ..boxed("a") };
    let b = boxed("a");
    assert!(muxbox_diff(&a, &b).is_empty());
}

#[test]
fn test_muxbox_diff_always_names_switches_that_differ() {
    let a = MuxBox { border: Some(true), anchor: Anchor::TopLeft, ..boxed("a") };
    let b = MuxBox { border: None, anchor: Anchor::Center, ..boxed("a") };
    let d = muxbox_diff(&a, &b);
    let fields: Vec<&MuxBoxField> = d.iter().map(|c| &c.field).collect();
    assert_eq!(fields, vec![&MuxBoxField::Anchor(Anchor::Center), &MuxBoxField::Border(None)]);
}

#[test]
fn test_apply_muxbox_diff_makes_box_agree() {
    let mut a = MuxBox {
        title: Some("Old".to_string()),
        bg_color: Some("black".to_string()),
        selected_fill_char: Some('.'),
        ..boxed("a")
    };
    let b = MuxBox {
        title: Some("New".to_string()),
        max_height: Some(20),
        selected: Some(true),
        parent_layout_id: Some("layout".to_string()),
        error_bg_color: Some("red".to_string()),
        ..boxed("b")
    };
    let d = muxbox_diff(&a, &b);
    apply_muxbox_changes(&mut a, d);
    assert_eq!(a.id, "a");
    assert_eq!(a.title, Some("New".to_string()));
    assert_eq!(a.max_height, Some(20));
    assert_eq!(a.selected, Some(true));
    assert_eq!(a.parent_layout_id, Some("layout".to_string()));
    assert_eq!(a.error_bg_color, Some("red".to_string()));
    // b has no value for these, so they stay.
    assert_eq!(a.bg_color, Some("black".to_string()));
    assert_eq!(a.selected_fill_char, Some('.'));
}

#[test]
fn test_apply_muxbox_changes_ignores_other_entities_and_ids() {
    let mut m = boxed("m");
    let changes = vec![
        FieldChange {
            entity: EntityType::Layout,
            entity_id: Some("m".to_string()),
            field: MuxBoxField::Title("ignored".to_string()),
        },
        FieldChange {
            entity: EntityType::MuxBox,
            entity_id: Some("someone_else".to_string()),
            field: MuxBoxField::Content("applied".to_string()),
        },
        FieldChange { entity: EntityType::MuxBox, entity_id: None, field: MuxBoxField::AutoScrollBottom(true) },
    ];
    apply_muxbox_changes(&mut m, changes);
    assert_eq!(m.title, None);
    assert_eq!(m.content, Some("applied".to_string()));
    assert_eq!(m.auto_scroll_bottom, Some(true));
}

#[test]
fn test_layout_diff_and_apply() {
    let mut a = Layout { id: "l1".to_string(), title: Some("A".to_string()), ..Default::default() };
    let b = Layout {
        id: "l2".to_string(),
        title: Some("B".to_string()),
        refresh_interval: Some(500),
        root: Some(true),
        menu_fg_color: Some("green".to_string()),
        ..Default::default()
    };
    let d = layout_diff(&a, &b);
    let fields: Vec<LayoutField> = d.iter().map(|c| c.field.clone()).collect();
    assert_eq!(
        fields,
        vec![
            LayoutField::Title("B".to_string()),
            LayoutField::RefreshInterval(500),
            LayoutField::MenuFgColor("green".to_string()),
            LayoutField::Root(true),
        ]
    );
    assert!(d.iter().all(|c| c.entity == EntityType::Layout && c.entity_id == Some("l1".to_string())));
    apply_layout_changes(&mut a, d);
    assert_eq!(a.id, "l1");
    assert_eq!(a.title, Some("B".to_string()));
    assert_eq!(a.refresh_interval, Some(500));
    assert_eq!(a.root, Some(true));
    assert_eq!(a.menu_fg_color, Some("green".to_string()));
}

#[test]
fn test_layout_apply_passes_over_box_changes() {
    let mut l = Layout { id: "l".to_string(), ..Default::default() };
    apply_layout_changes(
        &mut l,
        vec![LayoutChange { entity: EntityType::MuxBox, entity_id: None, field: LayoutField::Title("x".to_string()) }],
    );
    assert_eq!(l.title, None);
}

#[test]
fn test_muxbox_diff_includes_children_with_the_same_id() {
    let a = MuxBox {
        children: vec![MuxBox { title: Some("c".to_string()), ..boxed("c1") }, boxed("c2")],
        ..boxed("p")
    };
    let b = MuxBox {
        title: Some("parent".to_string()),
        fill: Some(false),
        children: vec![boxed("c2"), MuxBox { title: Some("changed".to_string()), ..boxed("c1") }],
        ..boxed("p")
    };
    let d = muxbox_diff(&a, &b);
    let got: Vec<(Option<String>, &MuxBoxField)> = d.iter().map(|c| (c.entity_id.clone(), &c.field)).collect();
    assert_eq!(
        got,
        vec![
            (Some("p".to_string()), &MuxBoxField::Title("parent".to_string())),
            (Some("c1".to_string()), &MuxBoxField::Title("changed".to_string())),
            (Some("p".to_string()), &MuxBoxField::Fill(Some(false))),
        ]
    );
}

#[test]
fn test_apply_muxbox_changes_passes_changes_to_first_child_with_id() {
    let mut m = MuxBox {
        children: vec![
            boxed("x"),
            MuxBox { children: vec![boxed("c")], ..boxed("c") },
            boxed("c"),
        ],
        ..boxed("p")
    };
    let changes = vec![FieldChange {
        entity: EntityType::MuxBox,
        entity_id: Some("c".to_string()),
        field: MuxBoxField::Title("T".to_string()),
    }];
    apply_muxbox_changes(&mut m, changes);
    // The box itself takes the change, whatever id it carries.
    assert_eq!(m.title, Some("T".to_string()));
    assert_eq!(m.children[0].title, None);
    // The first child with the id takes it, and passes it on to its own
    // first child with that id.
    assert_eq!(m.children[1].title, Some("T".to_string()));
    assert_eq!(m.children[1].children[0].title, Some("T".to_string()));
    // A later child with the same id does not.
    assert_eq!(m.children[2].title, None);
}

#[test]
fn test_layout_box_diff_pairs_boxes_by_place() {
    let a = Layout { id: "l".to_string(), children: vec![boxed("b1"), boxed("b2")], ..Default::default() };
    let b = Layout {
        id: "l".to_string(),
        children: vec![MuxBox { content: Some("hello".to_string()), ..boxed("other") }],
        ..Default::default()
    };
    let d = layout_box_diff(&a, &b);
    assert_eq!(d.len(), 2);
    assert_eq!(d[0].entity_id, Some("b1".to_string()));
    assert_eq!(d[0].field, MuxBoxField::Content("hello".to_string()));
    assert_eq!(d[1].entity_id, Some("b2".to_string()));
    assert_eq!(d[1].field, MuxBoxField::ChildRemoved);
}

#[test]
fn test_layout_box_changes_reach_boxes_and_removal_clears_them() {
    let mut l = Layout { id: "l".to_string(), children: vec![boxed("b1"), boxed("b2")], ..Default::default() };
    let change = vec![FieldChange {
        entity: EntityType::MuxBox,
        entity_id: Some("b2".to_string()),
        field: MuxBoxField::Content("hello".to_string()),
    }];
    apply_layout_box_changes(&mut l, &change);
    assert_eq!(l.children[0].content, None);
    assert_eq!(l.children[1].content, Some("hello".to_string()));
    let removal = vec![FieldChange { entity: EntityType::MuxBox, entity_id: Some("b1".to_string()), field: MuxBoxField::ChildRemoved }];
    apply_layout_box_changes(&mut l, &removal);
    assert!(l.children.is_empty());
    assert_eq!(l.id, "l");
}

#[test]
fn test_muxbox_diff_names_script_choices_and_key_bindings() {
    let a = MuxBox { script: Some(vec!["echo a".to_string()]), ..boxed("a") };
    let b = MuxBox {
        script: Some(vec!["echo b".to_string(), "ls".to_string()]),
        choices: Some(vec![Choice { id: "c1".to_string(), content: Some("Run".to_string()), ..Default::default() }]),
        on_keypress: Some(vec![("q".to_string(), vec!["quit".to_string()])]),
        ..boxed("a")
    };
    let d = muxbox_diff(&a, &b);
    assert_eq!(d.len(), 3);
    assert_eq!(
        d[0].field,
        MuxBoxField::Choices(vec![Choice { id: "c1".to_string(), content: Some("Run".to_string()), ..Default::default() }])
    );
    assert_eq!(d[1].field, MuxBoxField::Script(vec!["echo b".to_string(), "ls".to_string()]));
    assert_eq!(d[2].field, MuxBoxField::OnKeypress(vec![("q".to_string(), vec!["quit".to_string()])]));
    let mut m = MuxBox { script: Some(vec!["echo a".to_string()]), ..boxed("a") };
    apply_muxbox_changes(&mut m, d);
    assert_eq!(m.script, Some(vec!["echo b".to_string(), "ls".to_string()]));
    assert_eq!(m.choices.as_ref().map(|c| c.len()), Some(1));
    // A box does not apply key bindings.
    assert_eq!(m.on_keypress, None);
}

#[test]
fn test_key_bindings_compare_as_maps() {
    let a = MuxBox {
        on_keypress: Some(vec![("a".to_string(), vec!["x".to_string()]), ("b".to_string(), vec!["y".to_string()])]),
        ..boxed("m")
    };
    let b = MuxBox {
        on_keypress: Some(vec![("b".to_string(), vec!["y".to_string()]), ("a".to_string(), vec!["x".to_string()])]),
        ..boxed("m")
    };
    assert!(muxbox_diff(&a, &b).is_empty());
}

#[test]
fn test_muxbox_diff_names_added_and_removed_children() {
    let a = MuxBox { children: vec![boxed("k1")], ..boxed("p") };
    let b = MuxBox { children: vec![boxed("k1"), MuxBox { title: Some("new".to_string()), ..boxed("k2") }], ..boxed("p") };
    let d = muxbox_diff(&a, &b);
    assert_eq!(d.len(), 1);
    assert_eq!(d[0].entity_id, Some("k2".to_string()));
    match &d[0].field {
        MuxBoxField::ChildAdded(k) => {
            assert_eq!(k.id, "k2");
            assert_eq!(k.title, Some("new".to_string()));
        },
        _ => panic!("expected an added child"),
    }
    let back = muxbox_diff(&b, &a);
    assert_eq!(back.len(), 1);
    assert_eq!(back[0].entity_id, Some("k2".to_string()));
    assert_eq!(back[0].field, MuxBoxField::ChildRemoved);
    // Applying an added child changes nothing; a removed child drops them all.
    let mut m = MuxBox { children: vec![boxed("k1")], ..boxed("p") };
    apply_muxbox_changes(&mut m, d);
    assert_eq!(m.children.len(), 1);
    let mut n = MuxBox { children: vec![boxed("k1"), boxed("k2")], ..boxed("p") };
    apply_muxbox_changes(&mut n, back);
    assert!(n.children.is_empty());
}

#[test]
fn test_layout_diff_names_tab_order_and_key_bindings() {
    let mut a = Layout { id: "l".to_string(), ..Default::default() };
    let b = Layout {
        id: "l".to_string(),
        on_keypress: Some(vec![("r".to_string(), vec!["reload".to_string()])]),
        muxbox_ids_in_tab_order: Some(vec!["b1".to_string(), "b2".to_string()]),
        ..Default::default()
    };
    let d = layout_diff(&a, &b);
    assert_eq!(
        d.iter().map(|c| c.field.clone()).collect::<Vec<_>>(),
        vec![
            LayoutField::OnKeypress(vec![("r".to_string(), vec!["reload".to_string()])]),
            LayoutField::MuxboxIdsInTabOrder(vec!["b1".to_string(), "b2".to_string()]),
        ]
    );
    apply_layout_changes(&mut a, d);
    assert_eq!(a.on_keypress, Some(vec![("r".to_string(), vec!["reload".to_string()])]));
    assert_eq!(a.muxbox_ids_in_tab_order, Some(vec!["b1".to_string(), "b2".to_string()]));
}

#[test]
fn test_layout_diff_of_same_layout_is_empty() {
    let l = Layout { id: "l".to_string(), title: Some("t".to_string()), root: Some(true), ..Default::default() };
    let same = Layout { id: "l".to_string(), title: Some("t".to_string()), root: Some(true), ..Default::default() };
    assert!(layout_diff(&l, &same).is_empty());
}
