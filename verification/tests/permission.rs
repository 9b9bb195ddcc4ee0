use acp_core::permission::{
    auto_approve_tools, require_confirmation_tools, HumanWait, PermissionDecision,
    PermissionManager, PermissionPolicy,
};

fn value(text: &str) -> serde_json::Value {
    serde_json::from_str(text).unwrap()
}

#[test]
fn test_new_manager() {
    let manager = PermissionManager::new();
    assert_eq!(manager.current_policy(), PermissionPolicy::Standard);
    assert!(manager.is_pre_approved("Read", &value("{}")));
}

#[test]
fn test_pre_approved_read() {
    let manager = PermissionManager::new();
    assert!(manager.is_pre_approved("Read", &value("{}")));
}

#[test]
fn test_pre_approved_bash_pattern() {
    let manager = PermissionManager::new();

    assert!(manager.is_pre_approved("Bash", &value(r#"{"command": "ls -la"}"#)));
    assert!(manager.is_pre_approved("Bash", &value(r#"{"command": "git status"}"#)));

    assert!(!manager.is_pre_approved("Bash", &value(r#"{"command": "rm -rf /"}"#)));
}

#[test]
fn test_auto_deny_dangerous_command() {
    let manager = PermissionManager::new();

    let decision = manager.auto_decide("Bash", &value(r#"{"command": "rm -rf /"}"#));

    assert!(matches!(decision, Some(PermissionDecision::Deny { .. })));
}

#[test]
fn test_permissive_policy() {
    let mut manager = PermissionManager::new();
    manager.set_policy(PermissionPolicy::Permissive);

    let input = value(r#"{"command": "rm -rf /"}"#);
    let decision = manager.check_permission("Bash", &input, "test-1");
    assert!(matches!(decision, PermissionDecision::Allow { always: false }));
}

#[test]
fn test_generate_cli_args() {
    let manager = PermissionManager::new();
    let args = manager.generate_allowed_tools_args();

    assert!(args.contains(&"--allowed-tools".to_string()));
    assert!(args.contains(&"Read".to_string()));
}

#[test]
fn allowed_tools_args_name_each_pattern_once() {
    let mut manager = PermissionManager::new();
    let before = manager.generate_allowed_tools_args();
    assert_eq!(before.len(), 28);
    manager.add_pre_approved("Read");
    assert_eq!(manager.generate_allowed_tools_args().len(), 28);
    manager.add_pre_approved("Bash(npm:*)");
    let args = manager.generate_allowed_tools_args();
    assert_eq!(args.len(), 30);
    assert_eq!(args[28], "--allowed-tools");
    assert_eq!(args[29], "Bash(npm:*)");
    for pair in args.chunks(2) {
        assert_eq!(pair[0], "--allowed-tools");
    }
}

#[test]
fn the_matcher_ignores_case_on_commands_but_not_on_tool_names() {
    let manager = PermissionManager::new();
    assert!(manager.is_pre_approved("Bash", &value(r#"{"command": "LS -la"}"#)));
    assert!(manager.is_pre_approved("Bash", &value(r#"{"command": "Git Status"}"#)));
    assert!(!manager.is_pre_approved("read", &value("{}")));
    assert!(!manager.is_pre_approved("READ", &value("{}")));
    assert!(!manager.is_pre_approved("bash", &value(r#"{"command": "ls -la"}"#)));
    assert!(!manager.is_pre_approved("Bash", &value(r#"{"other": "ls"}"#)));
    assert!(!manager.is_pre_approved("Bash", &value(r#"{"command": 3}"#)));
}

#[test]
fn strict_asks_a_human_for_everything() {
    let mut manager = PermissionManager::new();
    manager.set_policy(PermissionPolicy::Strict);
    let decision = manager.check_permission("Read", &value(r#"{"file_path":"/x"}"#), "r1");
    match decision {
        PermissionDecision::RequireHuman { request_id, tool_name, tool_input, options } => {
            assert_eq!(request_id, "r1");
            assert_eq!(tool_name, "Read");
            assert_eq!(tool_input["file_path"], "/x");
            assert_eq!(options, vec!["Yes", "Yes, always for this session", "No"]);
        }
        _ => panic!("expected RequireHuman"),
    }
}

#[test]
fn standard_decides_in_order() {
    let mut manager = PermissionManager::new();
    assert!(matches!(
        manager.check_permission("Read", &value("{}"), "a"),
        PermissionDecision::Allow { always: true }
    ));
    assert!(matches!(
        manager.check_permission("Bash", &value(r#"{"command":"ls -la"}"#), "b"),
        PermissionDecision::Allow { always: true }
    ));
    assert!(matches!(
        manager.check_permission("Bash", &value(r#"{"command":"  find . -name x"}"#), "c"),
        PermissionDecision::Allow { always: false }
    ));
    match manager.check_permission("Bash", &value(r#"{"command":"rm -rf /"}"#), "d") {
        PermissionDecision::Deny { reason } => assert_eq!(reason, "Dangerous command: rm -rf"),
        _ => panic!("expected Deny"),
    }
    assert!(matches!(
        manager.check_permission("Bash", &value(r#"{"command":"cargo build"}"#), "e"),
        PermissionDecision::RequireHuman { .. }
    ));
    assert!(matches!(
        manager.check_permission("Write", &value(r#"{"file_path":"/tmp/x"}"#), "f"),
        PermissionDecision::Allow { always: false }
    ));
    assert!(matches!(
        manager.check_permission("Write", &value(r#"{"file_path":"/etc/x"}"#), "g"),
        PermissionDecision::RequireHuman { .. }
    ));
    manager.set_policy(PermissionPolicy::ReadOnly);
    assert!(matches!(
        manager.check_permission("Read", &value("{}"), "h"),
        PermissionDecision::Allow { always: true }
    ));
}

#[test]
fn the_automatic_rules() {
    let manager = PermissionManager::new();
    let allow = |d: Option<PermissionDecision>| {
        matches!(d, Some(PermissionDecision::Allow { always: false }))
    };
    assert!(allow(manager.auto_decide("Edit", &value(r#"{"old_string":"a","new_string":"a"}"#))));
    assert!(allow(manager.auto_decide("Edit", &value(r#"{"old_string":"","new_string":"b"}"#))));
    assert!(manager
        .auto_decide("Edit", &value(r#"{"old_string":"a","new_string":"b"}"#))
        .is_none());
    assert!(manager.auto_decide("Edit", &value(r#"{"old_string":"a"}"#)).is_none());
    assert!(allow(manager.auto_decide("Write", &value(r#"{"file_path":"/var/folders/x"}"#))));
    assert!(manager.auto_decide("Write", &value(r#"{"file_path":"/tmpx"}"#)).is_none());
    for cmd in ["ls x", "cat x", "head x", "tail x", "find x", "grep x", "rg x"] {
        let input = serde_json::Value::Object(
            [("command".to_string(), serde_json::Value::String(cmd.to_string()))]
                .into_iter()
                .collect(),
        );
        assert!(allow(manager.auto_decide("Bash", &input)));
    }
    for (cmd, what) in [
        ("rm -rf /", "rm -rf"),
        ("rm -r dir", "rm -r"),
        ("mkfs.ext4 /dev/sda", "mkfs"),
        ("dd if=/dev/zero", "dd if="),
        ("> /dev/sda", "> /dev/"),
        ("chmod 777 x", "chmod 777"),
    ] {
        let input = serde_json::Value::Object(
            [("command".to_string(), serde_json::Value::String(cmd.to_string()))]
                .into_iter()
                .collect(),
        );
        match manager.auto_decide("Bash", &input) {
            Some(PermissionDecision::Deny { reason }) => {
                assert_eq!(reason, format!("Dangerous command: {}", what))
            }
            _ => panic!("expected Deny"),
        }
    }
    assert!(manager.auto_decide("Bash", &value(r#"{"command":"ls"}"#)).is_none());
    assert!(manager.auto_decide("Other", &value("{}")).is_none());
}

#[test]
fn a_standing_approval_by_a_human_lasts_for_the_session() {
    let mut manager = PermissionManager::new();
    let input = value(r#"{"command":"cargo build"}"#);
    assert!(matches!(
        manager.check_permission("Bash", &input, "r1"),
        PermissionDecision::RequireHuman { .. }
    ));
    assert!(matches!(manager.poll_human_response("r1", 0, 10), HumanWait::Sleep { millis: 200 }));
    manager.submit_human_response("r1", PermissionDecision::Allow { always: true }).unwrap();
    match manager.poll_human_response("r1", 1, 10) {
        HumanWait::Decided(PermissionDecision::Allow { always: true }) => {}
        _ => panic!("expected the decision"),
    }
    assert!(matches!(manager.poll_human_response("r1", 1, 10), HumanWait::Sleep { .. }));
    assert!(matches!(
        manager.check_permission("Bash", &input, "r2"),
        PermissionDecision::Allow { always: false }
    ));
    manager.clear_session_approvals();
    assert!(matches!(
        manager.check_permission("Bash", &input, "r3"),
        PermissionDecision::RequireHuman { .. }
    ));
    manager.submit_human_response("r3", PermissionDecision::Allow { always: false }).unwrap();
    assert!(matches!(
        manager.check_permission("Bash", &input, "r4"),
        PermissionDecision::RequireHuman { .. }
    ));
}

#[test]
fn waiting_for_a_human_times_out() {
    let mut manager = PermissionManager::new();
    match manager.poll_human_response("r9", 30, 30) {
        HumanWait::TimedOut(message) => {
            assert_eq!(message, "Timeout waiting for human response: r9")
        }
        _ => panic!("expected a timeout"),
    }
    assert!(matches!(manager.poll_human_response("r9", 29, 30), HumanWait::Sleep { .. }));
}

#[test]
fn the_tool_lists() {
    assert_eq!(
        auto_approve_tools(),
        vec![
            "Read",
            "Grep",
            "Glob",
            "Bash(ls:*)",
            "Bash(cat:*)",
            "Bash(git status:*)",
            "Bash(git log:*)"
        ]
    );
    assert_eq!(
        require_confirmation_tools(),
        vec![
            "Edit",
            "Write",
            "Bash(rm:*)",
            "Bash(mv:*)",
            "Bash(mkdir:*)",
            "Bash(npm:*)",
            "Bash(cargo:*)"
        ]
    );
    assert_eq!(PermissionPolicy::default(), PermissionPolicy::Standard);
}

#[test]
fn pending_requests_can_be_read_until_they_are_answered() {
    let mut manager = PermissionManager::new();
    assert!(manager.pending_request("r1").is_none());
    manager.check_permission("Deploy", &value(r#"{"to":"prod"}"#), "r1");
    let pending = manager.pending_request("r1").unwrap();
    assert_eq!(pending.request_id, "r1");
    assert_eq!(pending.tool_name, "Deploy");
    assert_eq!(pending.tool_input["to"], "prod");
    assert_eq!(pending.options.len(), 3);
    assert!(pending.timestamp.contains('T'));
    manager.submit_human_response("r1", PermissionDecision::Deny { reason: "no".into() }).unwrap();
    assert!(manager.pending_request("r1").is_none());
    match manager.poll_human_response("r1", 0, 1) {
        HumanWait::Decided(PermissionDecision::Deny { reason }) => assert_eq!(reason, "no"),
        _ => panic!("expected the denial"),
    }
}

#[test]
fn a_stored_request_carries_the_time_it_was_given() {
    let mut manager = PermissionManager::new();
    let input = value(r#"{"to":"prod"}"#);
    let decision =
        manager.check_permission_at("Deploy", &input, "r1", "2024-05-06T07:08:09+00:00".to_string());
    assert!(matches!(decision, PermissionDecision::RequireHuman { .. }));
    let stored = manager.pending_request("r1").unwrap();
    assert_eq!(stored.request_id, "r1");
    assert_eq!(stored.tool_name, "Deploy");
    assert_eq!(stored.tool_input, input);
    assert_eq!(stored.timestamp, "2024-05-06T07:08:09+00:00");
    let allowed = manager.check_permission_at("Read", &value("{}"), "r2", "later".to_string());
    assert!(matches!(allowed, PermissionDecision::Allow { always: true }));
    assert!(manager.pending_request("r2").is_none());
}
