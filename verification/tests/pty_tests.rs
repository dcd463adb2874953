use boxmux::pty::{
    exit_notice, pty_error_notice, pty_output_update, pty_script_content, ErrorType, PtyManager,
    PtyProcess, PtyStatus,
};

fn process(id: &str, pid: Option<u32>, status: PtyStatus, can_kill: bool) -> PtyProcess {
    PtyProcess {
        muxbox_id: id.to_string(),
        process_id: pid,
        status,
        can_kill,
        stream_id: format!("pty-{}", id),
        buffer_lines: 0,
    }
}

fn manager_with(processes: Vec<PtyProcess>) -> PtyManager {
    let mut manager = PtyManager::new().unwrap();
    for p in processes {
        manager.add_pty_process(p);
    }
    manager
}

#[test]
fn pty_status_of_known_and_unknown_boxes() {
    let manager = manager_with(vec![process("a", Some(7), PtyStatus::Running, true)]);
    assert_eq!(manager.get_pty_status("a"), Some(PtyStatus::Running));
    assert_eq!(manager.get_pty_status("b"), None);
    assert!(manager.is_process_running("a"));
    assert!(!manager.is_process_running("b"));
}

#[test]
fn pty_process_info_needs_a_pid() {
    let manager = manager_with(vec![
        process("with_pid", Some(42), PtyStatus::Starting, true),
        process("no_pid", None, PtyStatus::Running, true),
    ]);
    assert_eq!(manager.get_process_info("with_pid"), Some((42, PtyStatus::Starting)));
    assert_eq!(manager.get_process_info("no_pid"), None);
    assert_eq!(manager.get_process_info("missing"), None);
}

#[test]
fn pty_cleanup_removes_finished_and_errored() {
    let mut manager = manager_with(vec![
        process("run", Some(1), PtyStatus::Running, true),
        process("done", Some(2), PtyStatus::Finished(0), true),
        process("err", Some(3), PtyStatus::Error("boom".to_string()), true),
        process("dead", Some(4), PtyStatus::Dead("gone".to_string()), true),
        process("fallback", Some(5), PtyStatus::FailedFallback, true),
    ]);
    manager.cleanup_finished();
    let mut active = manager.get_active_pty_muxboxes();
    active.sort();
    assert_eq!(active, vec!["dead".to_string(), "fallback".to_string(), "run".to_string()]);
}

#[test]
fn pty_failure_tracking() {
    let mut manager = PtyManager::new().unwrap();
    assert!(!manager.should_avoid_pty("box"));
    manager.record_pty_failure("box".to_string(), "first".to_string());
    manager.record_pty_failure("box".to_string(), "second".to_string());
    assert!(manager.has_recent_pty_failures("box", 2));
    assert!(!manager.should_avoid_pty("box"));
    manager.record_pty_failure("box".to_string(), "third".to_string());
    assert!(manager.should_avoid_pty("box"));
    assert_eq!(
        manager.get_pty_failure_history("box"),
        vec!["first".to_string(), "second".to_string(), "third".to_string()]
    );
    manager.clear_pty_failures("box");
    assert!(manager.get_pty_failure_history("box").is_empty());
    manager.record_pty_failure("other".to_string(), "x".to_string());
    manager.reset_failure_tracking();
    assert!(manager.get_pty_failure_history("other").is_empty());
}

#[test]
fn pty_status_summary_texts() {
    let manager = manager_with(vec![
        process("run", Some(10), PtyStatus::Running, true),
        process("start", Some(11), PtyStatus::Starting, true),
        process("ok", Some(12), PtyStatus::Finished(0), true),
        process("fail", Some(13), PtyStatus::Finished(-9), true),
        process("err_short", Some(14), PtyStatus::Error("bad".to_string()), true),
        process("err_long", Some(15), PtyStatus::Error("Connection refused".to_string()), true),
        process("fb", Some(16), PtyStatus::FailedFallback, true),
        process("dead", Some(17), PtyStatus::Dead("terminated".to_string()), true),
        process("no_pid", None, PtyStatus::Running, true),
    ]);
    assert_eq!(manager.get_process_status_summary("run"), Some("PID:10 Running".to_string()));
    assert_eq!(manager.get_process_status_summary("start"), Some("PID:11 Starting".to_string()));
    assert_eq!(manager.get_process_status_summary("ok"), Some("PID:12 Done".to_string()));
    assert_eq!(manager.get_process_status_summary("fail"), Some("PID:13 Exit:-9".to_string()));
    assert_eq!(manager.get_process_status_summary("err_short"), Some("PID:14 Error:bad".to_string()));
    assert_eq!(manager.get_process_status_summary("err_long"), Some("PID:15 Error:Connect".to_string()));
    assert_eq!(manager.get_process_status_summary("fb"), Some("PID:16 Fallback".to_string()));
    assert_eq!(manager.get_process_status_summary("dead"), Some("PID:17 Dead:termi".to_string()));
    assert_eq!(manager.get_process_status_summary("no_pid"), None);
}

#[test]
fn pty_error_states() {
    let manager = manager_with(vec![
        process("err", Some(1), PtyStatus::Error("oops".to_string()), true),
        process("dead", Some(2), PtyStatus::Dead("killed".to_string()), true),
        process("fb", Some(3), PtyStatus::FailedFallback, true),
        process("run", Some(4), PtyStatus::Running, true),
    ]);
    assert!(manager.is_pty_in_error_state("err"));
    assert!(manager.is_pty_in_error_state("dead"));
    assert!(manager.is_pty_in_error_state("fb"));
    assert!(!manager.is_pty_in_error_state("run"));
    assert!(manager.is_pty_dead("dead"));
    assert!(!manager.is_pty_dead("err"));

    let info = manager.get_error_state_info("err").unwrap();
    assert_eq!(info.error_type, ErrorType::ExecutionError);
    assert_eq!(info.message, "oops");
    assert_eq!(info.pid, Some(1));
    assert_eq!(info.suggested_action, "Retry PTY execution");

    let info = manager.get_error_state_info("dead").unwrap();
    assert_eq!(info.error_type, ErrorType::ProcessDied);
    assert_eq!(info.message, "killed");
    assert_eq!(info.suggested_action, "Restart PTY process");

    let info = manager.get_error_state_info("fb").unwrap();
    assert_eq!(info.error_type, ErrorType::FallbackUsed);
    assert_eq!(info.message, "PTY failed, using regular execution");
    assert_eq!(info.suggested_action, "Reset PTY and retry");
    assert!(info.can_retry);

    assert!(manager.get_error_state_info("run").is_none());
    assert!(manager.get_error_state_info("missing").is_none());
}

#[test]
fn pty_detailed_info() {
    let mut p = process("box", Some(99), PtyStatus::Running, false);
    p.buffer_lines = 12;
    let manager = manager_with(vec![p]);
    let info = manager.get_detailed_process_info("box").unwrap();
    assert_eq!(info.muxbox_id, "box");
    assert_eq!(info.process_id, Some(99));
    assert_eq!(info.status, PtyStatus::Running);
    assert!(!info.can_kill);
    assert_eq!(info.buffer_lines, 12);
    assert!(info.is_running);
    assert!(manager.get_detailed_process_info("none").is_none());
}

#[test]
fn pty_mark_dead_and_restart() {
    let mut manager = manager_with(vec![process("box", Some(5), PtyStatus::Running, true)]);
    assert!(manager.mark_pty_dead("box", "lost".to_string()).is_ok());
    assert_eq!(manager.get_pty_status("box"), Some(PtyStatus::Dead("lost".to_string())));
    assert_eq!(
        manager.mark_pty_dead("nobox", "x".to_string()).unwrap_err(),
        "PTY not found for muxbox: nobox"
    );

    manager.record_pty_failure("box".to_string(), "f".to_string());
    assert!(manager.restart_pty_process("box").is_ok());
    assert_eq!(manager.get_pty_status("box"), Some(PtyStatus::Starting));
    assert_eq!(manager.get_process_info("box"), None);
    assert!(manager.get_pty_failure_history("box").is_empty());
    assert_eq!(
        manager.restart_pty_process("nobox").unwrap_err(),
        "PTY not found for muxbox: nobox"
    );
}

#[test]
fn pty_kill_decisions() {
    let mut manager = manager_with(vec![
        process("killable", Some(321), PtyStatus::Running, true),
        process("protected", Some(654), PtyStatus::Running, false),
        process("no_pid", None, PtyStatus::Running, true),
    ]);
    assert_eq!(manager.pid_to_kill("killable"), Ok(321));
    assert_eq!(
        manager.pid_to_kill("protected").unwrap_err(),
        "Process 654 for muxbox protected cannot be killed"
    );
    assert_eq!(
        manager.pid_to_kill("no_pid").unwrap_err(),
        "No process ID available for muxbox no_pid"
    );
    assert_eq!(manager.pid_to_kill("none").unwrap_err(), "PTY not found for muxbox: none");

    assert!(manager.record_kill_outcome("killable", Ok(())).is_ok());
    assert_eq!(manager.get_pty_status("killable"), Some(PtyStatus::Finished(-9)));

    let failed = manager.record_kill_outcome("protected", Err("Kill command failed: no".to_string()));
    assert_eq!(failed.unwrap_err(), "Kill command failed: no");
    assert_eq!(
        manager.get_pty_status("protected"),
        Some(PtyStatus::Error("Kill command failed: no".to_string()))
    );
    assert_eq!(
        manager.record_kill_outcome("none", Ok(())).unwrap_err(),
        "PTY not found for muxbox: none"
    );
}

#[test]
fn pty_send_signal_is_accepted() {
    let mut manager = manager_with(vec![process("box", Some(1), PtyStatus::Running, true)]);
    assert!(manager.send_signal("box", 15).is_ok());
    assert_eq!(manager.get_pty_status("box"), Some(PtyStatus::Running));
}

#[test]
fn pty_keyboard_kill_flow() {
    let mut manager = manager_with(vec![
        process("k", Some(77), PtyStatus::Running, true),
        process("nopid", None, PtyStatus::Running, true),
        process("locked", Some(5), PtyStatus::Running, false),
    ]);
    assert_eq!(manager.kill_pty_target("k"), Some(77));
    manager.record_kill_pty_result("k", Ok(()));
    assert_eq!(manager.get_pty_status("k"), Some(PtyStatus::Finished(-9)));
    assert!(!manager.get_detailed_process_info("k").unwrap().can_kill);
    assert_eq!(manager.kill_pty_target("k"), None);

    assert_eq!(manager.kill_pty_target("nopid"), None);
    assert_eq!(manager.get_pty_status("nopid"), Some(PtyStatus::Error("No process ID".to_string())));

    assert_eq!(manager.kill_pty_target("locked"), None);
    assert_eq!(manager.get_pty_status("locked"), Some(PtyStatus::Running));
    manager.record_kill_pty_result("locked", Err("denied".to_string()));
    assert_eq!(manager.get_pty_status("locked"), Some(PtyStatus::Error("Kill failed: denied".to_string())));

    assert_eq!(manager.kill_pty_target("missing"), None);
}

#[test]
fn pty_exit_and_read_error_records() {
    let mut manager = manager_with(vec![process("a", Some(1), PtyStatus::Running, true)]);
    manager.record_exit("a", 3);
    assert_eq!(manager.get_pty_status("a"), Some(PtyStatus::Finished(3)));
    manager.record_exit("a", 4294967295);
    assert_eq!(manager.get_pty_status("a"), Some(PtyStatus::Finished(-1)));
    manager.record_read_error("a", "io".to_string());
    assert_eq!(manager.get_pty_status("a"), Some(PtyStatus::Error("io".to_string())));
    manager.record_exit("none", 0);
    assert_eq!(manager.get_pty_status("none"), None);
}

#[test]
fn pty_script_sources_libraries_first() {
    let libs = Some(vec!["lib/a.sh".to_string(), "lib/b.sh".to_string()]);
    let commands = vec!["echo hi".to_string(), "ls".to_string()];
    assert_eq!(
        pty_script_content(&libs, &commands),
        "source lib/a.sh\nsource lib/b.sh\necho hi\nls\n"
    );
    assert_eq!(pty_script_content(&None, &commands), "echo hi\nls\n");
    assert_eq!(pty_script_content(&None, &vec![]), "");
}

#[test]
fn pty_output_updates() {
    assert_eq!(pty_output_update("  \n\t", false), None);
    assert_eq!(pty_output_update("line", false), Some("line".to_string()));
    assert_eq!(pty_output_update("screen", true), Some("REPLACE:screen".to_string()));
    assert_eq!(pty_output_update(" x ", false), Some(" x ".to_string()));
}

#[test]
fn pty_notices() {
    assert_eq!(exit_notice(0), "\n[Process exited with code 0]\n");
    assert_eq!(exit_notice(127), "\n[Process exited with code 127]\n");
    assert_eq!(pty_error_notice("broken pipe"), "[PTY Error: broken pipe]");
}

#[test]
fn input_goes_only_to_live_processes() {
    let manager = manager_with(vec![
        process("run", Some(1), PtyStatus::Running, true),
        process("start", Some(2), PtyStatus::Starting, true),
        process("done", Some(3), PtyStatus::Finished(0), false),
        process("err", Some(4), PtyStatus::Error("boom".to_string()), true),
        process("fb", None, PtyStatus::FailedFallback, false),
        process("dead", Some(5), PtyStatus::Dead("gone".to_string()), false),
    ]);
    assert_eq!(manager.input_check("run"), Ok(()));
    assert_eq!(manager.input_check("start"), Ok(()));
    assert_eq!(manager.input_check("done"), Err("PTY process done has finished and cannot accept input".to_string()));
    assert_eq!(manager.input_check("err"), Err("PTY process err is in error state: boom".to_string()));
    assert_eq!(manager.input_check("fb"), Err("PTY process fb failed and fell back to regular execution".to_string()));
    assert_eq!(manager.input_check("dead"), Err("PTY process dead is dead: gone".to_string()));
    assert_eq!(manager.input_check("none"), Err("No PTY process found for muxbox: none".to_string()));
}

#[test]
fn stream_of_a_box_process() {
    let manager = manager_with(vec![process("a", Some(7), PtyStatus::Running, true)]);
    assert_eq!(manager.get_stream_id("a"), Some("pty-a".to_string()));
    assert_eq!(manager.get_stream_id("b"), None);
    let empty = PtyManager::default();
    assert_eq!(empty.get_stream_id("a"), None);
    assert!(empty.get_active_pty_muxboxes().is_empty());
}
