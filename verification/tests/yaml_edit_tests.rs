use boxmux::position::InputBounds;
use boxmux::yaml_edit::{
    copy_node, set_active_layout_in_yaml, update_muxbox_bounds_recursive, update_muxbox_field_recursive, YamlNode,
};
use serde_yaml::{Mapping, Value};

fn node(value: Value) -> YamlNode {
    match value {
        Value::Null => YamlNode::Null,
        Value::Bool(b) => YamlNode::Bool(b),
        Value::Number(n) => YamlNode::Number(n),
        Value::String(s) => YamlNode::String(s),
        Value::Sequence(items) => YamlNode::Sequence(items.into_iter().map(node).collect()),
        Value::Mapping(map) => YamlNode::Mapping(map.into_iter().map(|(k, v)| (node(k), node(v))).collect()),
        Value::Tagged(t) => YamlNode::Tagged(t),
    }
}

fn value(n: YamlNode) -> Value {
    match n {
        YamlNode::Null => Value::Null,
        YamlNode::Bool(b) => Value::Bool(b),
        YamlNode::Number(x) => Value::Number(x),
        YamlNode::String(s) => Value::String(s),
        YamlNode::Sequence(items) => Value::Sequence(items.into_iter().map(value).collect()),
        YamlNode::Mapping(pairs) => {
            let mut m = Mapping::new();
            for (k, v) in pairs {
                m.insert(value(k), value(v));
            }
            Value::Mapping(m)
        }
        YamlNode::Tagged(t) => Value::Tagged(t),
    }
}

fn parse(text: &str) -> YamlNode {
    node(serde_yaml::from_str(text).unwrap())
}

fn render(n: YamlNode) -> String {
    serde_yaml::to_string(&value(n)).unwrap()
}

const DOC: &str = r#"
app:
  layouts:
    - id: main
      active: true
      children:
        - id: header
          content: old
          position:
            x1: 0%
            y1: 0%
            x2: 100%
            y2: 10%
        - id: body
          position: full
          children:
            - id: inner
    - id: other
      children:
        - id: header
          content: second
"#;

fn bounds(x1: &str, y1: &str, x2: &str, y2: &str) -> InputBounds {
    InputBounds { x1: x1.to_string(), y1: y1.to_string(), x2: x2.to_string(), y2: y2.to_string() }
}

#[test]
fn field_update_reaches_the_first_box_with_the_id() {
    let mut doc = parse(DOC);
    let r = update_muxbox_field_recursive(&mut doc, "header", "content", &YamlNode::String("new".to_string()));
    assert_eq!(r, Ok(true));
    let expected = DOC.replace("content: old", "content: new");
    assert_eq!(render(doc), render(parse(&expected)));
}

#[test]
fn field_update_appends_a_missing_field() {
    let mut doc = parse(DOC);
    let r = update_muxbox_field_recursive(&mut doc, "inner", "content", &YamlNode::String("hi".to_string()));
    assert_eq!(r, Ok(true));
    let expected = DOC.replace("            - id: inner\n", "            - id: inner\n              content: hi\n");
    assert_eq!(render(doc), render(parse(&expected)));
}

#[test]
fn field_update_of_a_missing_box_changes_nothing() {
    let mut doc = parse(DOC);
    let r = update_muxbox_field_recursive(&mut doc, "nobody", "content", &YamlNode::Null);
    assert_eq!(r, Ok(false));
    assert_eq!(render(doc), render(parse(DOC)));
}

#[test]
fn bounds_are_written_into_an_existing_position() {
    let mut doc = parse(DOC);
    let r = update_muxbox_bounds_recursive(&mut doc, "header", &bounds("5%", "6%", "7%", "8%"));
    assert_eq!(r, Ok(true));
    let expected = DOC
        .replace("x1: 0%\n            y1: 0%\n            x2: 100%\n            y2: 10%", "x1: 5%\n            y1: 6%\n            x2: 7%\n            y2: 8%");
    assert_eq!(render(doc), render(parse(&expected)));
}

#[test]
fn bounds_replace_a_position_that_is_no_mapping() {
    let mut doc = parse(DOC);
    assert_eq!(update_muxbox_bounds_recursive(&mut doc, "body", &bounds("1", "2", "3", "4")), Ok(true));
    let expected = DOC.replace(
        "position: full",
        "position:\n            x1: '1'\n            y1: '2'\n            x2: '3'\n            y2: '4'",
    );
    assert_eq!(render(doc), render(parse(&expected)));
}

#[test]
fn bounds_create_a_missing_position() {
    let mut doc = parse(DOC);
    assert_eq!(update_muxbox_bounds_recursive(&mut doc, "inner", &bounds("a", "b", "c", "d")), Ok(true));
    let expected = DOC.replace(
        "            - id: inner\n",
        "            - id: inner\n              position:\n                x1: a\n                y1: b\n                x2: c\n                y2: d\n",
    );
    assert_eq!(render(doc), render(parse(&expected)));
}

#[test]
fn active_layout_is_marked_in_every_layout() {
    let mut doc = parse(DOC);
    set_active_layout_in_yaml(&mut doc, "other");
    let expected = DOC.replace("    - id: main\n      active: true\n", "    - id: main\n      active: false\n")
        + "      active: true\n";
    assert_eq!(render(doc), render(parse(&expected)));
}

#[test]
fn documents_without_layouts_stay_as_they_are() {
    let mut doc = parse("just: text\n");
    set_active_layout_in_yaml(&mut doc, "main");
    assert_eq!(render(doc), render(parse("just: text\n")));
}

#[test]
fn copies_are_the_same_document() {
    let doc = parse(DOC);
    let copy = copy_node(&doc);
    assert_eq!(render(copy), render(doc));
}
