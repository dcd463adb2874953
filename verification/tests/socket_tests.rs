use boxmux::muxbox::MuxBox;
use boxmux::position::InputBounds;
use boxmux::pty::{PtyManager, PtyProcess, PtyStatus};
use boxmux::socket::{
    finish_kill, finish_restart, kill_command_failed, kill_command_not_run, pty_status_report,
    run_socket_function, SocketFunction, SocketMessage, SocketStep,
};
use boxmux::Anchor;

fn layout_box(id: &str) -> MuxBox {
    MuxBox {
        id: id.to_string(),
        position: InputBounds {
            x1: "0".to_string(),
            y1: "0".to_string(),
            x2: "1".to_string(),
            y2: "1".to_string(),
        },
        anchor: Anchor::Center,
        min_width: None,
        min_height: None,
        max_width: None,
        max_height: None,
        z_index: None,
        selected: None,
        tab_order: None,
        title: None,
        content: None,
        script: None,
        redirect_output: None,
        choices: None,
        variables: None,
        children: vec![],
        ..Default::default()
    }
}

fn manager(processes: Vec<PtyProcess>) -> PtyManager {
    let mut m = PtyManager::new().unwrap();
    for p in processes {
        m.add_pty_process(p);
    }
    m
}

fn process(id: &str, pid: Option<u32>, status: PtyStatus, can_kill: bool) -> PtyProcess {
    PtyProcess {
        muxbox_id: id.to_string(),
        process_id: pid,
        status,
        can_kill,
        stream_id: "s".to_string(),
        buffer_lines: 3,
    }
}

fn single_update(step: SocketStep) -> (String, bool, String) {
    match step {
        SocketStep::Messages(mut v) => {
            assert_eq!(v.len(), 1);
            match v.pop().unwrap() {
                SocketMessage::MuxBoxOutputUpdate(id, ok, text) => (id, ok, text),
                other => panic!("unexpected message {:?}", other),
            }
        }
        other => panic!("unexpected step {:?}", other),
    }
}

#[test]
fn box_commands_become_messages() {
    let step = run_socket_function(
        SocketFunction::ReplaceBoxContent { box_id: "b".to_string(), success: true, content: "hi".to_string() },
        &None,
    );
    assert_eq!(single_update(step), ("b".to_string(), true, "hi".to_string()));

    match run_socket_function(SocketFunction::SwitchActiveLayout { layout_id: "l2".to_string() }, &None) {
        SocketStep::Messages(v) => assert!(matches!(&v[..], [SocketMessage::SwitchActiveLayout(id)] if id == "l2")),
        _ => panic!(),
    }
    match run_socket_function(SocketFunction::AddBox { layout_id: "l".to_string(), muxbox: layout_box("n") }, &None) {
        SocketStep::Messages(v) => assert!(matches!(&v[..], [SocketMessage::AddBox(l, b)] if l == "l" && b.id == "n")),
        _ => panic!(),
    }
    match run_socket_function(
        SocketFunction::ReplaceBoxScript { box_id: "b".to_string(), script: vec!["ls".to_string()] },
        &None,
    ) {
        SocketStep::Messages(v) => {
            assert!(matches!(&v[..], [SocketMessage::MuxBoxScriptUpdate(b, s)] if b == "b" && s == &vec!["ls".to_string()]))
        }
        _ => panic!(),
    }
    match run_socket_function(SocketFunction::StopBoxRefresh { box_id: "x".to_string() }, &None) {
        SocketStep::Messages(v) => assert!(matches!(&v[..], [SocketMessage::StopBoxRefresh(b)] if b == "x")),
        _ => panic!(),
    }
}

#[test]
fn pty_commands_without_a_manager() {
    for f in [
        SocketFunction::KillPtyProcess { box_id: "p".to_string() },
        SocketFunction::RestartPtyProcess { box_id: "p".to_string() },
        SocketFunction::QueryPtyStatus { box_id: "p".to_string() },
    ] {
        assert_eq!(
            single_update(run_socket_function(f, &None)),
            ("p".to_string(), false, "PTY manager not available".to_string())
        );
    }
}

#[test]
fn kill_through_the_socket() {
    let mut pm = manager(vec![
        process("k", Some(42), PtyStatus::Running, true),
        process("locked", Some(7), PtyStatus::Running, false),
    ]);
    let pm_opt = Some(pm);
    match run_socket_function(SocketFunction::KillPtyProcess { box_id: "k".to_string() }, &pm_opt) {
        SocketStep::Kill { box_id, pid } => {
            assert_eq!(box_id, "k");
            assert_eq!(pid, 42);
        }
        other => panic!("unexpected {:?}", other),
    }
    assert_eq!(
        single_update(run_socket_function(SocketFunction::KillPtyProcess { box_id: "locked".to_string() }, &pm_opt)),
        ("locked".to_string(), false, "Failed to kill PTY process: Process 7 for muxbox locked cannot be killed".to_string())
    );
    pm = pm_opt.unwrap();
    let ok = finish_kill("k", Ok(()), &mut pm);
    assert!(matches!(&ok[..], [SocketMessage::MuxBoxOutputUpdate(b, true, t)] if b == "k" && t == "PTY process killed for box k"));
    assert_eq!(pm.get_pty_status("k"), Some(PtyStatus::Finished(-9)));
    let failed = finish_kill("locked", Err(kill_command_failed("denied")), &mut pm);
    assert!(matches!(&failed[..], [SocketMessage::MuxBoxOutputUpdate(_, false, t)] if t == "Failed to kill PTY process: Kill command failed: denied"));
    let missing = finish_kill("none", Ok(()), &mut pm);
    assert!(matches!(&missing[..], [SocketMessage::MuxBoxOutputUpdate(_, false, t)] if t == "Failed to kill PTY process: PTY not found for muxbox: none"));
    assert_eq!(kill_command_not_run("no such file"), "Failed to execute kill command: no such file");
}

#[test]
fn restart_through_the_socket() {
    let mut pm = manager(vec![
        process("run", Some(11), PtyStatus::Running, true),
        process("done", Some(12), PtyStatus::Finished(0), true),
    ]);
    pm.record_pty_failure("run".to_string(), "x".to_string());
    let pm_opt = Some(pm);
    match run_socket_function(SocketFunction::RestartPtyProcess { box_id: "run".to_string() }, &pm_opt) {
        SocketStep::Restart { box_id, kill_pid, pause } => {
            assert_eq!(box_id, "run");
            assert_eq!(kill_pid, Some(11));
            assert!(pause);
        }
        other => panic!("unexpected {:?}", other),
    }
    match run_socket_function(SocketFunction::RestartPtyProcess { box_id: "done".to_string() }, &pm_opt) {
        SocketStep::Restart { kill_pid, pause, .. } => {
            assert_eq!(kill_pid, None);
            assert!(!pause);
        }
        other => panic!("unexpected {:?}", other),
    }
    pm = pm_opt.unwrap();
    let msgs = finish_restart("run", &mut pm);
    assert!(matches!(&msgs[..], [SocketMessage::MuxBoxOutputUpdate(_, true, t)] if t == "PTY process restarted for box run"));
    assert_eq!(pm.get_pty_status("run"), Some(PtyStatus::Starting));
    assert!(pm.get_pty_failure_history("run").is_empty());
    let msgs = finish_restart("ghost", &mut pm);
    assert!(matches!(&msgs[..], [SocketMessage::MuxBoxOutputUpdate(_, false, t)] if t == "Failed to restart PTY process: PTY not found for muxbox: ghost"));
}

#[test]
fn status_query_through_the_socket() {
    let pm = Some(manager(vec![process("q", Some(5), PtyStatus::Error("bad \"x\"".to_string()), true)]));
    assert_eq!(
        single_update(run_socket_function(SocketFunction::QueryPtyStatus { box_id: "q".to_string() }, &pm)),
        (
            "q".to_string(),
            true,
            "PTY Status - Box: q, PID: Some(5), Status: Error(\"bad \\\"x\\\"\"), Running: false, Buffer Lines: 3"
                .to_string()
        )
    );
    assert_eq!(
        single_update(run_socket_function(SocketFunction::QueryPtyStatus { box_id: "zz".to_string() }, &pm)),
        ("zz".to_string(), false, "No PTY process found for box zz".to_string())
    );
}

#[test]
fn status_reports_match_debug_formatting() {
    for status in [
        PtyStatus::Starting,
        PtyStatus::Running,
        PtyStatus::Finished(-2),
        PtyStatus::Error("a\nb".to_string()),
        PtyStatus::FailedFallback,
        PtyStatus::Dead("gone".to_string()),
    ] {
        for pid in [None, Some(9)] {
            let expected = format!(
                "PTY Status - Box: b, PID: {:?}, Status: {:?}, Running: true, Buffer Lines: 12",
                pid, status
            );
            assert_eq!(pty_status_report("b", pid, &status, true, 12), expected);
        }
    }
}

#[test]
fn test_run_socket_function_replace_muxbox_content() {
    let socket_function = SocketFunction::ReplaceBoxContent {
        box_id: "test_muxbox".to_string(),
        success: true,
        content: "Test content".to_string(),
    };

    let result = run_socket_function(socket_function, &None);
    let messages = match result {
        SocketStep::Messages(messages) => messages,
        other => panic!("Expected messages, got {:?}", other),
    };
    assert_eq!(messages.len(), 1);
    match &messages[0] {
        SocketMessage::MuxBoxOutputUpdate(muxbox_id, success, content) => {
            assert_eq!(muxbox_id, "test_muxbox");
            assert_eq!(*success, true);
            assert_eq!(content, "Test content");
        }
        _ => panic!("Expected MuxBoxOutputUpdate message"),
    }
}

#[test]
fn test_run_socket_function_switch_active_layout() {
    let socket_function = SocketFunction::SwitchActiveLayout { layout_id: "new_layout".to_string() };

    let result = run_socket_function(socket_function, &None);
    let messages = match result {
        SocketStep::Messages(messages) => messages,
        other => panic!("Expected messages, got {:?}", other),
    };
    assert_eq!(messages.len(), 1);
    match &messages[0] {
        SocketMessage::SwitchActiveLayout(layout_id) => {
            assert_eq!(layout_id, "new_layout");
        }
        _ => panic!("Expected SwitchActiveLayout message"),
    }
}
