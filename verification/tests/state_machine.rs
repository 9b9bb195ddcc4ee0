use acp_core::state_machine::{AgentState, StateEvent, StateMachine};

fn value(text: &str) -> serde_json::Value {
    serde_json::from_str(text).unwrap()
}

#[test]
fn test_initial_state() {
    let sm = StateMachine::new();
    assert!(matches!(sm.current_state(), AgentState::Initializing));
}

#[test]
fn test_transition_to_idle() {
    let mut sm = StateMachine::new();
    let new_state = sm.transition(StateEvent::Initialized);
    assert!(matches!(new_state, AgentState::Idle));
}

#[test]
fn test_transition_to_processing() {
    let mut sm = StateMachine::new();
    sm.transition(StateEvent::Initialized);

    let new_state = sm.transition(StateEvent::TaskStarted { prompt: "test".to_string() });
    assert!(matches!(new_state, AgentState::Processing { .. }));
}

#[test]
fn test_transition_to_completed() {
    let mut sm = StateMachine::new();
    sm.transition(StateEvent::Initialized);
    sm.transition(StateEvent::TaskStarted { prompt: "test".to_string() });

    let new_state = sm.transition(StateEvent::TaskCompleted { output: "done".to_string() });
    assert!(matches!(new_state, AgentState::Completed { .. }));
}

#[test]
fn test_state_is_processing() {
    let state = AgentState::processing(Some("Read".to_string()));
    assert!(state.is_processing());
    assert!(!state.is_ready());
    assert!(!state.is_waiting());
}

#[test]
fn test_state_is_ready() {
    let state = AgentState::idle();
    assert!(state.is_ready());

    let state = AgentState::completed("done".to_string());
    assert!(state.is_ready());
}

#[test]
fn test_transition_to_waiting_for_permission() {
    let mut sm = StateMachine::new();
    sm.transition(StateEvent::Initialized);
    sm.transition(StateEvent::TaskStarted { prompt: "test".to_string() });

    let new_state = sm.transition(StateEvent::PermissionRequired {
        tool_name: "Bash".to_string(),
        tool_input: value(r#"{"command": "rm -rf /"}"#),
        request_id: "req-1".to_string(),
    });

    match new_state {
        AgentState::WaitingForPermission { tool_name, .. } => {
            assert_eq!(tool_name, "Bash");
        }
        _ => panic!("Expected WaitingForPermission"),
    }
}

#[test]
fn initialized_is_ignored_outside_initializing_and_completed() {
    let mut sm = StateMachine::new();
    sm.transition(StateEvent::Initialized);
    assert!(matches!(sm.transition(StateEvent::Initialized), AgentState::Idle));
    sm.transition(StateEvent::TaskStarted { prompt: "p".to_string() });
    let state = sm.transition(StateEvent::Initialized);
    assert!(matches!(state, AgentState::Processing { current_tool: None, .. }));
    sm.transition(StateEvent::TaskCompleted { output: "o".to_string() });
    assert!(matches!(sm.transition(StateEvent::Initialized), AgentState::Idle));
}

#[test]
fn initializing_moves_only_on_initialized() {
    let mut sm = StateMachine::new();
    let state = sm.transition(StateEvent::TaskStarted { prompt: "p".to_string() });
    assert!(matches!(state, AgentState::Initializing));
    let state = sm.transition(StateEvent::TaskCompleted { output: "x".to_string() });
    assert!(matches!(state, AgentState::Initializing));
}

#[test]
fn tool_use_sets_and_keeps_the_current_tool() {
    let mut sm = StateMachine::new();
    sm.transition(StateEvent::Initialized);
    sm.transition(StateEvent::TaskStarted { prompt: "p".to_string() });
    let state = sm.transition(StateEvent::ToolUseStarted { tool_name: "Read".to_string() });
    match &state {
        AgentState::Processing { current_tool, .. } => {
            assert_eq!(current_tool.as_deref(), Some("Read"))
        }
        _ => panic!("expected Processing"),
    }
    let state = sm.transition(StateEvent::ToolUseCompleted {
        tool_name: "Read".to_string(),
        success: true,
    });
    match &state {
        AgentState::Processing { current_tool, .. } => {
            assert_eq!(current_tool.as_deref(), Some("Read"))
        }
        _ => panic!("expected Processing"),
    }
}

#[test]
fn permission_denied_gives_a_recoverable_error_with_the_reason() {
    let mut sm = StateMachine::new();
    sm.transition(StateEvent::Initialized);
    sm.transition(StateEvent::TaskStarted { prompt: "p".to_string() });
    sm.transition(StateEvent::PermissionRequired {
        tool_name: "Bash".to_string(),
        tool_input: value("{}"),
        request_id: "r".to_string(),
    });
    let state = sm.transition(StateEvent::PermissionDenied {
        request_id: "r".to_string(),
        reason: "no".to_string(),
    });
    match state {
        AgentState::Error { message, recoverable } => {
            assert_eq!(message, "Permission denied: no");
            assert!(recoverable);
        }
        _ => panic!("expected Error"),
    }
    let state = sm.transition(StateEvent::TaskStarted { prompt: "again".to_string() });
    assert!(matches!(state, AgentState::Processing { .. }));
}

#[test]
fn permission_granted_and_input_received_resume_processing() {
    let mut sm = StateMachine::new();
    sm.transition(StateEvent::Initialized);
    sm.transition(StateEvent::TaskStarted { prompt: "p".to_string() });
    sm.transition(StateEvent::PermissionRequired {
        tool_name: "Bash".to_string(),
        tool_input: value("{}"),
        request_id: "r".to_string(),
    });
    let state = sm.transition(StateEvent::PermissionGranted { request_id: "r".to_string() });
    assert!(matches!(state, AgentState::Processing { current_tool: None, .. }));
    let state = sm.transition(StateEvent::InputRequired {
        question: "which?".to_string(),
        options: vec!["a".to_string(), "b".to_string()],
    });
    match &state {
        AgentState::WaitingForInput { question, options } => {
            assert_eq!(question, "which?");
            assert_eq!(options.len(), 2);
        }
        _ => panic!("expected WaitingForInput"),
    }
    assert!(state.is_waiting());
    let state = sm.transition(StateEvent::InputReceived { answer: "a".to_string() });
    assert!(matches!(state, AgentState::Processing { current_tool: None, .. }));
}

#[test]
fn a_fatal_error_is_a_sink_until_forced() {
    let mut sm = StateMachine::new();
    sm.transition(StateEvent::Initialized);
    sm.transition(StateEvent::TaskStarted { prompt: "p".to_string() });
    sm.transition(StateEvent::ErrorOccurred { message: "boom".to_string(), recoverable: false });
    let state = sm.transition(StateEvent::TaskStarted { prompt: "p".to_string() });
    assert!(matches!(state, AgentState::Error { recoverable: false, .. }));
    let state = sm.transition(StateEvent::Initialized);
    assert!(matches!(state, AgentState::Error { recoverable: false, .. }));
    sm.force_state(AgentState::idle());
    assert!(matches!(sm.current_state(), AgentState::Idle));
}

#[test]
fn history_is_capped_at_one_hundred_entries() {
    let mut sm = StateMachine::new_at(0);
    assert_eq!(sm.history().len(), 1);
    for i in 0..250 {
        sm.transition_at(StateEvent::Initialized, i);
    }
    assert_eq!(sm.history().len(), 100);
    assert_eq!(sm.history().last().unwrap().at, 249);
    assert_eq!(sm.history().first().unwrap().at, 150);
    for i in 0..150 {
        sm.force_state_at(AgentState::idle(), 1000 + i);
    }
    assert_eq!(sm.history().len(), 100);
    assert_eq!(sm.history().first().unwrap().at, 1050);
}

#[test]
fn processing_is_stamped_with_the_given_time() {
    let mut sm = StateMachine::new_at(5);
    sm.transition_at(StateEvent::Initialized, 6);
    let state = sm.transition_at(StateEvent::TaskStarted { prompt: "p".to_string() }, 7);
    assert!(matches!(state, AgentState::Processing { current_tool: None, started_at: 7 }));
    assert_eq!(state.state_name(), "processing");
    assert_eq!(AgentState::default().state_name(), "initializing");
    assert_eq!(AgentState::error("e".to_string(), true).state_name(), "error");
}
