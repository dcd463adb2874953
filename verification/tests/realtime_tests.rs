use boxmux::messages::{Message, StreamingOutput};
use boxmux::real_time_updates::RealTimeUpdateManager;
use std::sync::mpsc;
use std::time::{Duration, SystemTime};

fn output(panel: &str, line: &str, sequence: u64) -> StreamingOutput {
    StreamingOutput {
        panel_id: panel.to_string(),
        line_content: line.to_string(),
        sequence,
        timestamp: SystemTime::now(),
        is_stderr: false,
    }
}

#[test]
fn test_real_time_update_manager_creation() {
    let (sender, _receiver) = mpsc::channel();
    let manager = RealTimeUpdateManager::new(sender);

    assert_eq!(manager.get_total_pending_updates(), 0);
    assert_eq!(manager.render_debounce(), Duration::from_millis(16));
}

#[test]
fn test_queue_streaming_update() {
    let (sender, receiver) = mpsc::channel();
    let mut manager = RealTimeUpdateManager::new(sender);

    manager.queue_streaming_update(output("test_panel", "test line", 1));

    assert_eq!(manager.get_pending_update_count("test_panel"), 0);

    let msg = receiver.try_recv().unwrap();
    if let Message::StreamingComplete(streaming_complete) = msg {
        assert_eq!(streaming_complete.panel_id, "test_panel");
        assert_eq!(streaming_complete.success, true);
        assert_eq!(streaming_complete.total_lines, 1);
    } else {
        panic!("Expected StreamingComplete message");
    }
}

#[test]
fn test_queue_batch_updates() {
    let (sender, receiver) = mpsc::channel();
    let mut manager = RealTimeUpdateManager::new(sender);

    let outputs = vec![output("panel1", "line1", 1), output("panel1", "line2", 2)];

    manager.queue_batch_updates(outputs);

    let msg = receiver.try_recv().unwrap();
    if let Message::StreamingComplete(streaming_complete) = msg {
        assert_eq!(streaming_complete.panel_id, "panel1");
        assert_eq!(streaming_complete.success, true);
        assert_eq!(streaming_complete.total_lines, 2);
    } else {
        panic!("Expected StreamingComplete message");
    }
}

#[test]
fn test_force_panel_render() {
    let (sender, receiver) = mpsc::channel();
    let mut manager = RealTimeUpdateManager::new(sender);

    manager.queue_streaming_update(output("test_panel", "test content", 1));

    let _ = receiver.try_recv();

    manager.append_pending("test_panel", "more content".to_string());

    manager.force_panel_render("test_panel");

    let mut found_update = false;
    while let Ok(msg) = receiver.try_recv() {
        if let Message::StreamingComplete(streaming_complete) = msg {
            if streaming_complete.panel_id == "test_panel" && streaming_complete.total_lines > 0 {
                found_update = true;
                break;
            }
        }
    }
    assert!(found_update, "Expected StreamingComplete message with content");
}

#[test]
fn test_clear_operations() {
    let (sender, _receiver) = mpsc::channel();
    let mut manager = RealTimeUpdateManager::new(sender);

    manager.append_pending("panel1", "content1".to_string());

    assert_eq!(manager.get_pending_update_count("panel1"), 1);

    manager.clear_panel_pending("panel1");
    assert_eq!(manager.get_pending_update_count("panel1"), 0);

    for i in 1..=3 {
        let panel_id = format!("panel{}", i);
        manager.append_pending(&panel_id, format!("content{}", i));
    }

    assert_eq!(manager.get_total_pending_updates(), 3);

    manager.clear_all_pending();
    assert_eq!(manager.get_total_pending_updates(), 0);
}

#[test]
fn test_configuration_updates() {
    let (sender, _receiver) = mpsc::channel();
    let mut manager = RealTimeUpdateManager::new(sender);

    assert_eq!(manager.render_debounce(), Duration::from_millis(16));
    assert_eq!(manager.max_update_frequency(), Duration::from_millis(100));

    manager.set_render_debounce(Duration::from_millis(50));
    manager.set_max_update_frequency(Duration::from_millis(200));

    assert_eq!(manager.render_debounce(), Duration::from_millis(50));
    assert_eq!(manager.max_update_frequency(), Duration::from_millis(200));
}

#[test]
fn test_second_update_waits_for_debounce() {
    let (sender, receiver) = mpsc::channel();
    let mut manager = RealTimeUpdateManager::new(sender);
    manager.set_render_debounce(Duration::from_secs(3600));
    manager.queue_streaming_update(output("p", "first", 1));
    assert_eq!(manager.get_pending_update_count("p"), 0);
    let _ = receiver.try_recv();
    let _ = receiver.try_recv();
    manager.queue_streaming_update(output("p", "second", 2));
    assert_eq!(manager.get_pending_update_count("p"), 1);
    assert!(receiver.try_recv().is_err());
    manager.force_panel_render("p");
    assert_eq!(manager.get_pending_update_count("p"), 0);
    match receiver.try_recv().unwrap() {
        Message::StreamingComplete(c) => assert_eq!(c.total_lines, 1),
        _ => panic!("Expected StreamingComplete message"),
    }
    match receiver.try_recv().unwrap() {
        Message::RedrawPanel(id) => assert_eq!(id, "p"),
        _ => panic!("Expected RedrawPanel message"),
    }
}

#[test]
fn test_line_count_of_multiline_content() {
    let (sender, receiver) = mpsc::channel();
    let mut manager = RealTimeUpdateManager::new(sender);
    manager.append_pending("p", "a\nb".to_string());
    manager.append_pending("p", "c\n".to_string());
    manager.force_panel_render("p");
    match receiver.try_recv().unwrap() {
        // "a\nb\nc\n" holds three lines.
        Message::StreamingComplete(c) => assert_eq!(c.total_lines, 3),
        _ => panic!("Expected StreamingComplete message"),
    }
}

#[test]
fn background_pass_sends_due_panels() {
    let (sender, receiver) = mpsc::channel();
    let mut manager = RealTimeUpdateManager::new(sender);
    manager.set_render_debounce(Duration::from_millis(0));
    manager.append_pending("p1", "a".to_string());
    manager.append_pending("p1", "b".to_string());
    manager.append_pending("p2", "c".to_string());
    let handled = manager.process_background_updates();
    assert_eq!(handled, vec!["p1".to_string(), "p2".to_string()]);
    assert_eq!(manager.get_total_pending_updates(), 0);
    let mut lines = Vec::new();
    while let Ok(msg) = receiver.try_recv() {
        match msg {
            Message::StreamingComplete(c) => lines.push((c.panel_id.clone(), c.total_lines, c.success)),
            Message::RedrawPanel(_) => panic!("the background pass does not redraw"),
        }
    }
    lines.sort();
    assert_eq!(lines, vec![("p1".to_string(), 2, true), ("p2".to_string(), 1, true)]);
}

#[test]
fn due_flag_decides_background_handling() {
    let (sender, receiver) = mpsc::channel();
    let mut manager = RealTimeUpdateManager::new(sender);
    manager.append_pending("p", "x".to_string());
    manager.process_due_panel("p", false);
    assert_eq!(manager.get_pending_update_count("p"), 1);
    assert!(receiver.try_recv().is_err());
    manager.process_due_panel("p", true);
    assert_eq!(manager.get_pending_update_count("p"), 0);
    assert!(matches!(receiver.try_recv(), Ok(Message::StreamingComplete(_))));
}

#[test]
fn test_render_sends_notice_then_redraw() {
    let (sender, receiver) = mpsc::channel();
    let mut manager = RealTimeUpdateManager::new(sender);

    manager.queue_streaming_update(output("p", "a\nb", 1));

    match receiver.try_recv().unwrap() {
        Message::StreamingComplete(c) => {
            assert_eq!(c.panel_id, "p");
            assert_eq!(c.exit_code, Some(0));
            assert!(c.success);
            assert_eq!(c.total_lines, 2);
        }
        _ => panic!("Expected StreamingComplete message"),
    }
    match receiver.try_recv().unwrap() {
        Message::RedrawPanel(id) => assert_eq!(id, "p"),
        _ => panic!("Expected RedrawPanel message"),
    }
    assert!(receiver.try_recv().is_err());
}

#[test]
fn test_batch_renders_each_panel_once_in_order_of_first_mention() {
    let (sender, receiver) = mpsc::channel();
    let mut manager = RealTimeUpdateManager::new(sender);

    manager.queue_batch_updates(vec![output("b", "1", 1), output("a", "2", 2), output("b", "3", 3)]);

    let mut seen = Vec::new();
    while let Ok(msg) = receiver.try_recv() {
        match msg {
            Message::StreamingComplete(c) => seen.push(format!("done {} {}", c.panel_id, c.total_lines)),
            Message::RedrawPanel(id) => seen.push(format!("redraw {}", id)),
        }
    }
    assert_eq!(seen, vec!["done b 2", "redraw b", "done a 1", "redraw a"]);
}

#[test]
fn test_clearing_and_settings_send_nothing() {
    let (sender, receiver) = mpsc::channel();
    let mut manager = RealTimeUpdateManager::new(sender);
    manager.append_pending("p", "x".to_string());
    manager.clear_all_pending();
    manager.set_render_debounce(Duration::from_millis(50));
    assert_eq!(manager.render_debounce(), Duration::from_millis(50));
    assert_eq!(manager.max_update_frequency(), Duration::from_millis(100));
    assert!(receiver.try_recv().is_err());
}
