use boxmux::common::ExecutionMode;
use boxmux::muxbox::{
    calculate_terminal_dimensions, is_zero, script_lines, stream_type_priority, Choice, StreamType,
};
use boxmux::muxbox::MuxBox;
use boxmux::position::InputBounds;
use boxmux::Bounds;
use std::collections::hash_map::DefaultHasher;
use std::hash::{Hash, Hasher};

fn create_test_choice(id: &str, content: &str) -> Choice {
    Choice {
        id: id.to_string(),
        content: Some(content.to_string()),
        script: None,
        redirect_output: None,
        append_output: None,
        execution_mode: ExecutionMode::default(),
        selected: false,
        waiting: false,
    }
}

#[test]
fn test_choice_creation() {
    let choice = create_test_choice("test_choice", "Test Content");

    assert_eq!(choice.id, "test_choice");
    assert_eq!(choice.content, Some("Test Content".to_string()));
    assert_eq!(choice.selected, false);
    assert_eq!(choice.waiting, false);
    assert_eq!(choice.execution_mode, ExecutionMode::default());
}

#[test]
fn test_choice_clone() {
    let choice1 = create_test_choice("test", "content");
    let choice2 = choice1.clone();

    assert_eq!(choice1, choice2);
    assert_eq!(choice1.id, choice2.id);
    assert_eq!(choice1.content, choice2.content);
}

#[test]
fn test_choice_equality() {
    let choice1 = create_test_choice("test", "content");
    let choice2 = create_test_choice("test", "content");
    let choice3 = create_test_choice("other", "content");

    assert_eq!(choice1, choice2);
    assert_ne!(choice1, choice3);
}

#[test]
fn test_choice_hash() {
    let choice1 = create_test_choice("test", "content");
    let choice2 = create_test_choice("test", "content");
    let choice3 = create_test_choice("other", "content");

    let mut hasher1 = DefaultHasher::new();
    let mut hasher2 = DefaultHasher::new();
    let mut hasher3 = DefaultHasher::new();

    choice1.hash(&mut hasher1);
    choice2.hash(&mut hasher2);
    choice3.hash(&mut hasher3);

    assert_eq!(hasher1.finish(), hasher2.finish());
    assert_ne!(hasher1.finish(), hasher3.finish());
}

#[test]
fn test_stream_type_priority_order() {
    let ordered = vec![
        StreamType::Content,
        StreamType::Choices,
        StreamType::OwnScript,
        StreamType::PTY,
        StreamType::RedirectedOutput("r".to_string()),
        StreamType::ChoiceExecution("c".to_string()),
        StreamType::Plugin("p".to_string()),
        StreamType::RedirectSource("s".to_string()),
        StreamType::ExternalSocket,
    ];
    for (i, t) in ordered.iter().enumerate() {
        assert_eq!(stream_type_priority(t) as usize, i);
    }
    assert_eq!(stream_type_priority(&StreamType::PtySession("bash".to_string())), 3);
}

#[test]
fn test_is_zero() {
    assert!(is_zero(&0));
    assert!(!is_zero(&7));
}

#[test]
fn test_execution_mode_default_is_immediate() {
    assert_eq!(ExecutionMode::default(), ExecutionMode::Immediate);
}

#[test]
fn script_single_string_is_one_command() {
    assert_eq!(script_lines("echo single command"), vec!["echo single command".to_string()]);
}

#[test]
fn script_text_filters_blank_lines_and_trims() {
    let text = "echo \"First line\"\n\n  echo \"Third line\"  \n   \n\techo \"Fifth line\"\r\n";
    assert_eq!(
        script_lines(text),
        vec![
            "echo \"First line\"".to_string(),
            "echo \"Third line\"".to_string(),
            "echo \"Fifth line\"".to_string(),
        ]
    );
}

#[test]
fn script_text_empty_or_blank_has_no_commands() {
    assert!(script_lines("").is_empty());
    assert!(script_lines(" \n\t\n\u{3000}").is_empty());
}

#[test]
fn terminal_dimensions_subtract_decorations() {
    let bounds = Bounds::new(0, 0, 100, 30);
    assert_eq!(calculate_terminal_dimensions(&bounds, false, &None, 1), (100, 30));
    assert_eq!(calculate_terminal_dimensions(&bounds, true, &None, 1), (98, 28));
    assert_eq!(calculate_terminal_dimensions(&bounds, true, &Some("T".to_string()), 2), (98, 26));
    assert_eq!(calculate_terminal_dimensions(&bounds, true, &Some(String::new()), 1), (98, 28));
}

#[test]
fn terminal_dimensions_have_a_minimum() {
    let bounds = Bounds::new(5, 5, 20, 8);
    assert_eq!(calculate_terminal_dimensions(&bounds, true, &Some("x".to_string()), 3), (40, 10));
}

/// Reads the `script` entry of a box written in YAML and splits it into commands.
fn script_of_yaml_box(yaml: &str) -> Option<Vec<String>> {
    let value: serde_yaml::Value = serde_yaml::from_str(yaml).expect("Should deserialize successfully");
    value.get("script").and_then(|s| s.as_str()).map(script_lines)
}

#[test]
fn test_script_deserialize_filters_empty_lines() {
    let yaml = r#"
            id: "test"
            position:
              x1: "0%"
              y1: "0%"
              x2: "100%"
              y2: "100%"
            script: |
              echo "First line"

              echo "Third line"
              
              echo "Fifth line"
        "#;

    let script = script_of_yaml_box(yaml).expect("Script should be present");

    assert_eq!(script.len(), 3);
    assert_eq!(script[0], "echo \"First line\"");
    assert_eq!(script[1], "echo \"Third line\"");
    assert_eq!(script[2], "echo \"Fifth line\"");
}

#[test]
fn test_script_deserialize_single_string() {
    let yaml = r#"
            id: "test"
            position:
              x1: "0%"
              y1: "0%"
              x2: "100%"
              y2: "100%"
            script: "echo single command"
        "#;

    let script = script_of_yaml_box(yaml).expect("Script should be present");

    assert_eq!(script.len(), 1);
    assert_eq!(script[0], "echo single command");
}

#[test]
fn test_script_deserialize_literal_block() {
    let yaml = r#"
            id: "test"
            position:
              x1: "0%"
              y1: "0%"
              x2: "100%"
              y2: "100%"
            script: |
              echo "Line 1"
              echo "Line 2"
              echo "Line 3"
        "#;

    let script = script_of_yaml_box(yaml).expect("Script should be present");

    assert_eq!(script.len(), 3);
    assert_eq!(script[0], "echo \"Line 1\"");
    assert_eq!(script[1], "echo \"Line 2\"");
    assert_eq!(script[2], "echo \"Line 3\"");
}

#[test]
fn test_muxbox_absolute_bounds_exact_values() {
    let muxbox = MuxBox {
        id: "test".to_string(),
        position: InputBounds {
            x1: "25%".to_string(),
            y1: "50%".to_string(),
            x2: "75%".to_string(),
            y2: "100%".to_string(),
        },
        ..Default::default()
    };
    let parent_bounds = Bounds::new(0, 0, 100, 200);
    let screen = Bounds::new(0, 0, 100, 200);
    let bounds = muxbox.absolute_bounds(Some(&parent_bounds), &screen);
    assert_eq!((bounds.x1, bounds.y1, bounds.x2, bounds.y2), (25, 100, 74, 199));
}
