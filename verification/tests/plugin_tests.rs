use boxmux::plugin::{fallback_manifest, PluginError, PluginPermission, PluginSecurityManager};

#[test]
fn test_security_manager_path_validation() {
    let security_manager = PluginSecurityManager::new();

    assert!(security_manager.is_path_allowed("/tmp/test"));
    assert!(!security_manager.is_path_allowed("/etc/passwd"));
}

#[test]
fn test_plugin_error_display() {
    let error = PluginError::PermissionDenied("Test error".to_string());
    assert!(format!("{:?}", error).contains("Test error"));
}

#[test]
fn test_hosts_and_commands() {
    let m = PluginSecurityManager::new();
    assert!(m.is_host_allowed("localhost"));
    assert!(!m.is_host_allowed("localhost2"));
    assert!(m.is_command_allowed("date"));
    assert!(!m.is_command_allowed("rm"));
}

#[test]
fn test_validate_permissions_reports_first_refusal() {
    let m = PluginSecurityManager::new();
    let ok = vec![
        PluginPermission::FileSystem { paths: vec!["/tmp/x".to_string(), "/var/log/y".to_string()] },
        PluginPermission::Environment { variables: vec!["HOME".to_string()] },
        PluginPermission::Process { commands: vec!["echo".to_string()] },
    ];
    assert!(m.validate_permissions(&ok).is_ok());

    let bad = vec![
        PluginPermission::Network { hosts: vec!["localhost".to_string(), "example.com".to_string()] },
        PluginPermission::Process { commands: vec!["rm".to_string()] },
    ];
    match m.validate_permissions(&bad) {
        Err(PluginError::PermissionDenied(msg)) => {
            assert_eq!(msg, "Network access to 'example.com' not allowed")
        }
        other => panic!("unexpected {:?}", other),
    }

    let fs = vec![PluginPermission::FileSystem { paths: vec!["/etc".to_string()] }];
    match m.validate_permissions(&fs) {
        Err(PluginError::PermissionDenied(msg)) => {
            assert_eq!(msg, "File system access to '/etc' not allowed")
        }
        other => panic!("unexpected {:?}", other),
    }

    let cmd = vec![PluginPermission::Process { commands: vec!["date".to_string(), "ls".to_string()] }];
    match m.validate_permissions(&cmd) {
        Err(PluginError::PermissionDenied(msg)) => {
            assert_eq!(msg, "Process execution of 'ls' not allowed")
        }
        other => panic!("unexpected {:?}", other),
    }
}

#[test]
fn fallback_manifest_describes_the_test_plugin() {
    let m = fallback_manifest();
    assert_eq!(m.name, "test_plugin");
    assert_eq!(m.version, "1.0.0");
    assert_eq!(m.author, "BoxMux Team");
    assert_eq!(m.description, "Test plugin");
    assert_eq!(m.entry_point, "lib.so");
    assert_eq!(m.component_types, vec!["custom_chart".to_string()]);
    assert!(m.dependencies.is_empty());
    assert!(m.permissions.is_empty());
}
