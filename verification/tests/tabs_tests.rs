use boxmux::muxbox::StreamType;
use boxmux::tabs::{
    get_active_tab_index, get_current_stream_id, get_tab_labels, get_tab_stream_ids, max_tab_scroll_offset, scroll_tabs_left,
    needs_tab_initialization, scroll_tabs_right, switch_to_tab, tab_label, tabs_need_scrolling, TabStream,
};

fn stream(id: &str, stream_type: StreamType, label: &str, active: bool) -> TabStream {
    TabStream { id: id.to_string(), stream_type, label: label.to_string(), active }
}

fn sample() -> Vec<TabStream> {
    vec![
        stream("s1", StreamType::Content, "Main", false),
        stream("s2", StreamType::RedirectedOutput("logs".to_string()), "x", true),
        stream("s3", StreamType::PtySession("bash".to_string()), "y", false),
    ]
}

#[test]
fn tab_labels_by_kind() {
    assert_eq!(get_tab_labels(&sample()), vec!["Main", "→logs", "PTY:bash"]);
    assert_eq!(tab_label(&StreamType::Plugin("clock".to_string()), "z"), "Plugin:clock");
    assert_eq!(tab_label(&StreamType::ChoiceExecution("c1".to_string()), "z"), "Choice:c1");
    assert_eq!(tab_label(&StreamType::RedirectSource("src".to_string()), "z"), "From:src");
    assert_eq!(tab_label(&StreamType::ExternalSocket, "z"), "Socket");
    assert_eq!(tab_label(&StreamType::OwnScript, "z"), "Script");
    assert_eq!(tab_label(&StreamType::PTY, "z"), "PTY");
    assert_eq!(tab_label(&StreamType::Choices, "Menu"), "Menu");
    assert_eq!(get_tab_stream_ids(&sample()), vec!["s1", "s2", "s3"]);
}

#[test]
fn active_tab_and_switching() {
    let mut streams = sample();
    assert_eq!(get_active_tab_index(&streams), 1);
    assert!(switch_to_tab(&mut streams, 2));
    assert_eq!(get_active_tab_index(&streams), 2);
    assert!(!streams[1].active);
    assert!(!switch_to_tab(&mut streams, 3));
    assert_eq!(get_active_tab_index(&streams), 2);
    assert_eq!(get_active_tab_index(&vec![]), 0);
}

#[test]
fn tab_scrolling_arithmetic() {
    assert!(tabs_need_scrolling(3, 30));
    assert_eq!(max_tab_scroll_offset(3, 30), 1);
    assert!(!tabs_need_scrolling(2, 100));
    assert_eq!(max_tab_scroll_offset(2, 100), 0);
    assert!(!tabs_need_scrolling(0, 10));
    assert!(tabs_need_scrolling(10, 20));
    assert_eq!(max_tab_scroll_offset(10, 20), 8);
    assert_eq!(scroll_tabs_left(0), 0);
    assert_eq!(scroll_tabs_left(3), 2);
    assert_eq!(scroll_tabs_right(0, 3), 1);
    assert_eq!(scroll_tabs_right(2, 3), 2);
    assert_eq!(scroll_tabs_right(0, 0), 0);
}

#[test]
fn current_stream_is_the_first_active_one() {
    let streams = vec![
        stream("a", StreamType::Content, "A", false),
        stream("b", StreamType::PTY, "B", true),
        stream("c", StreamType::OwnScript, "C", true),
    ];
    assert_eq!(get_current_stream_id(&streams), Some("b".to_string()));
    let idle = vec![stream("a", StreamType::Content, "A", false)];
    assert_eq!(get_current_stream_id(&idle), None);
    assert!(!needs_tab_initialization(&idle));
    assert!(needs_tab_initialization(&vec![]));
}
