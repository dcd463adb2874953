use boxmux::box_variables::apply_muxbox_variable_substitution;
use boxmux::common::ExecutionMode;
use boxmux::muxbox::MuxBox;
use boxmux::muxbox::Choice;
use boxmux::position::InputBounds;
use boxmux::variables::VariableContext;
use boxmux::Anchor;

fn table(pairs: &[(&str, &str)]) -> Vec<(String, String)> {
    pairs.iter().map(|(k, v)| (k.to_string(), v.to_string())).collect()
}

fn layout_box(id: &str) -> MuxBox {
    MuxBox {
        id: id.to_string(),
        position: InputBounds {
            x1: "0%".to_string(),
            y1: "0%".to_string(),
            x2: "100%".to_string(),
            y2: "100%".to_string(),
        },
        anchor: Anchor::Center,
        min_width: None,
        min_height: None,
        max_width: None,
        max_height: None,
        z_index: None,
        selected: None,
        tab_order: None,
        title: None,
        content: None,
        script: None,
        redirect_output: None,
        choices: None,
        variables: None,
        children: vec![],
        ..Default::default()
    }
}

fn choice(id: &str, content: &str, script: &[&str]) -> Choice {
    Choice {
        id: id.to_string(),
        content: Some(content.to_string()),
        script: Some(script.iter().map(|s| s.to_string()).collect()),
        redirect_output: None,
        append_output: None,
        execution_mode: ExecutionMode::Immediate,
        selected: false,
        waiting: false,
    }
}

#[test]
fn box_variables_override_application_variables() {
    let app = table(&[("NAME", "app"), ("ONLY_APP", "a")]);
    let context = VariableContext::new(Some(&app), None);
    let mut child = layout_box("child");
    child.content = Some("${NAME}/${ONLY_APP}".to_string());
    let mut node = layout_box("parent");
    node.variables = Some(table(&[("NAME", "box")]));
    node.title = Some("Hello ${NAME}".to_string());
    node.script = Some(vec!["echo ${NAME}".to_string(), "echo $HOME".to_string()]);
    node.redirect_output = Some("out_${ONLY_APP}".to_string());
    node.children.push(child);
    let env = table(&[("HOME", "/home/u")]);

    assert!(apply_muxbox_variable_substitution(&mut node, &context, &env).is_ok());
    assert_eq!(node.title, Some("Hello box".to_string()));
    assert_eq!(node.script, Some(vec!["echo box".to_string(), "echo /home/u".to_string()]));
    assert_eq!(node.redirect_output, Some("out_a".to_string()));
    assert_eq!(node.children[0].content, Some("box/a".to_string()));
    assert_eq!(node.id, "parent");
}

#[test]
fn box_variables_reach_choices() {
    let context = VariableContext::new(Some(&table(&[("CMD", "ls")])), None);
    let mut node = layout_box("menu");
    node.choices = Some(vec![choice("c1", "Run ${CMD}", &["${CMD} -la"])]);
    assert!(apply_muxbox_variable_substitution(&mut node, &context, &table(&[])).is_ok());
    let choices = node.choices.unwrap();
    assert_eq!(choices[0].content, Some("Run ls".to_string()));
    assert_eq!(choices[0].script, Some(vec!["ls -la".to_string()]));
    assert_eq!(choices[0].id, "c1");
}

#[test]
fn box_variable_errors_say_where() {
    let context = VariableContext::new(None, None);
    let env = table(&[]);

    let mut node = layout_box("b1");
    node.title = Some("${A:${B}}".to_string());
    assert_eq!(
        apply_muxbox_variable_substitution(&mut node, &context, &env).unwrap_err(),
        "Error in muxbox 'b1' title: Nested variable substitution is not supported. Found: '${A:${B}' - Use simple variables only."
    );

    let mut node = layout_box("b2");
    node.script = Some(vec!["ok".to_string(), "bad ${X:${Y}}".to_string()]);
    let err = apply_muxbox_variable_substitution(&mut node, &context, &env).unwrap_err();
    assert!(err.starts_with("Error in muxbox 'b2' script line 2: Nested variable"));

    let mut node = layout_box("b3");
    node.choices = Some(vec![choice("pick", "fine", &["${P:${Q}}"])]);
    let err = apply_muxbox_variable_substitution(&mut node, &context, &env).unwrap_err();
    assert!(err.starts_with("Error in muxbox 'b3' choice 'pick' script line 1: Nested"));

    let mut inner = layout_box("inner");
    inner.redirect_output = Some("${R:${S}}".to_string());
    let mut node = layout_box("outer");
    node.children.push(inner);
    let err = apply_muxbox_variable_substitution(&mut node, &context, &env).unwrap_err();
    assert!(err.starts_with("Error in muxbox 'inner' redirect_output: Nested"));
}
