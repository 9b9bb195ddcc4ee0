use acp_core::executor::{
    ClaudeCodeExecutor, CompletionStep, ExecutorError, ExecutorEvent, ExecutorOptions,
    PermissionStep,
};
use acp_core::permission::{HumanWait, PermissionDecision};
use acp_core::state_machine::AgentState;

fn begin(ex: &mut ClaudeCodeExecutor, prompt: &str) -> Result<String, ExecutorError> {
    let text = ex.prompt_line(prompt)?;
    ex.prompt_sent(prompt);
    Ok(text)
}

fn running() -> ClaudeCodeExecutor {
    let mut ex = ClaudeCodeExecutor::new(ExecutorOptions::default());
    ex.mark_started();
    ex
}

#[test]
fn test_executor_options_default() {
    let options = ExecutorOptions::default();
    assert!(options.working_dir.is_none());
    assert!(options.allowed_tools.is_empty());
    assert_eq!(options.timeout_secs, 300);
}

#[test]
fn test_executor_new() {
    let executor = ClaudeCodeExecutor::new(ExecutorOptions::default());
    assert!(!executor.is_running());
    assert!(executor.session_id().is_none());
}

#[test]
fn test_current_state_initial() {
    let executor = ClaudeCodeExecutor::new(ExecutorOptions::default());
    let state = executor.current_state();
    assert!(matches!(state, AgentState::Initializing));
}

#[test]
fn the_launch_plan_lists_the_arguments() {
    let mut options = ExecutorOptions::default();
    options.session_id = Some("sess".to_string());
    options.allowed_tools = vec!["Bash(npm:*)".to_string()];
    options.working_dir = Some("/w".to_string());
    options.program = "agent-cli".to_string();
    let mut ex = ClaudeCodeExecutor::new(options);
    let plan = ex.launch_plan().unwrap();
    assert_eq!(plan.program, "agent-cli");
    assert_eq!(plan.working_dir.as_deref(), Some("/w"));
    assert_eq!(&plan.args[..5], ["--print", "--output-format", "stream-json", "--resume", "sess"]);
    assert_eq!(plan.args.len(), 5 + 2 * 15);
    assert_eq!(plan.args[5], "--allowed-tools");
    assert_eq!(plan.args[plan.args.len() - 1], "Bash(npm:*)");
    assert!(ex.permissions().is_pre_approved("Bash(npm:*)", &serde_json::Value::Null));
    ex.mark_started();
    assert!(ex.is_running());
    assert!(matches!(ex.launch_plan(), Err(ExecutorError::AlreadyRunning)));
    let plain = ClaudeCodeExecutor::new(ExecutorOptions::default()).launch_plan().unwrap();
    assert_eq!(&plain.args[..4], ["--print", "--output-format", "stream-json", "--allowed-tools"]);
}

#[test]
fn init_makes_the_agent_idle_and_fixes_the_session() {
    let mut ex = running();
    let events = ex.on_line(r#"{"type":"system","subtype":"init","session_id":"s1"}"#);
    assert_eq!(events.len(), 1);
    assert!(matches!(
        &events[0],
        ExecutorEvent::StateChanged { old_state: AgentState::Initializing, new_state: AgentState::Idle }
    ));
    assert!(matches!(ex.current_state(), AgentState::Idle));
    assert_eq!(ex.session_id().as_deref(), Some("s1"));

    let mut other = running();
    other.on_line_at(r#"{"type":"system","subtype":"init"}"#, 5, "fresh".to_string());
    assert_eq!(other.session_id().as_deref(), Some("fresh"));
    let mut third = running();
    third.on_line_at("garbage", 5, "fresh".to_string());
    assert!(third.session_id().is_none());
    assert!(matches!(third.current_state(), AgentState::Initializing));
}

#[test]
fn a_task_is_begun_polled_and_finished() {
    let mut ex = ClaudeCodeExecutor::new(ExecutorOptions::default());
    assert!(matches!(begin(&mut ex, "p"), Err(ExecutorError::NotRunning)));
    ex.mark_started();
    ex.on_line(r#"{"type":"system","subtype":"init","session_id":"s1"}"#);
    assert_eq!(begin(&mut ex, "do it").unwrap(), "do it\n");
    assert!(matches!(ex.current_state(), AgentState::Processing { .. }));
    assert!(matches!(ex.poll_completion(0), CompletionStep::Sleep { millis: 100 }));
    assert!(matches!(ex.poll_completion(299), CompletionStep::Sleep { .. }));
    match ex.poll_completion(300) {
        CompletionStep::Failed(ExecutorError::Timeout(m)) => {
            assert_eq!(m, "Task did not complete within 300 seconds")
        }
        _ => panic!("expected a timeout"),
    }
    ex.on_line(r#"{"type":"result","subtype":"success","result":"done"}"#);
    assert!(matches!(ex.poll_completion(500), CompletionStep::Finished(o) if o == "done"));
}

#[test]
fn recoverable_errors_are_waited_out_and_fatal_ones_fail() {
    let mut ex = running();
    ex.on_line(r#"{"type":"system","subtype":"init"}"#);
    begin(&mut ex, "p").unwrap();
    let events = ex.on_line(r#"{"type":"error","error":{"type":"overloaded","message":"busy"}}"#);
    assert!(events.iter().any(|e| matches!(
        e,
        ExecutorEvent::Error { message, recoverable: true } if message == "busy"
    )));
    assert!(matches!(ex.poll_completion(1), CompletionStep::Sleep { .. }));
    begin(&mut ex, "again").unwrap();
    ex.on_line(r#"{"type":"error","error":{"type":"fatal","message":"dead"}}"#);
    assert!(matches!(
        ex.poll_completion(1),
        CompletionStep::Failed(ExecutorError::Process(m)) if m == "dead"
    ));
}

#[test]
fn end_of_output_is_a_fatal_error() {
    let mut ex = running();
    let event = ex.on_eof();
    assert!(matches!(event, ExecutorEvent::Error { message, recoverable: false } if message == "EOF"));
    assert!(!ex.is_running());
    assert!(matches!(
        ex.current_state(),
        AgentState::Error { message, recoverable: false } if message == "EOF"
    ));
    assert!(matches!(begin(&mut ex, "p"), Err(ExecutorError::NotRunning)));
    assert!(matches!(
        ex.poll_completion(0),
        CompletionStep::Failed(ExecutorError::Process(m)) if m == "EOF"
    ));
}

#[test]
fn stopping_resets_a_running_executor_to_idle() {
    let mut ex = running();
    ex.on_line(r#"{"type":"system","subtype":"init"}"#);
    begin(&mut ex, "p").unwrap();
    assert!(ex.stop());
    assert!(!ex.is_running());
    assert!(matches!(ex.current_state(), AgentState::Idle));
    assert!(!ex.stop());
    let mut idle = ClaudeCodeExecutor::new(ExecutorOptions::default());
    assert!(!idle.stop());
    assert!(matches!(idle.current_state(), AgentState::Initializing));
}

#[test]
fn permission_requests_are_decided_by_the_manager() {
    let mut ex = running();
    ex.on_line(r#"{"type":"system","subtype":"init"}"#);
    assert!(matches!(ex.handle_permission_request(), PermissionStep::NotWaiting));
    begin(&mut ex, "p").unwrap();
    ex.on_line(r#"{"type":"tool_use","id":"t1","name":"Read","input":{"file_path":"/x"}}"#);
    let events = ex.on_line(
        r#"{"type":"tool_result","tool_use_id":"t1","content":"Read requires approval","is_error":true}"#,
    );
    assert!(events.iter().any(|e| matches!(
        e,
        ExecutorEvent::PermissionRequired { request_id, tool_name, options }
            if request_id == "t1" && tool_name == "Read" && options.len() == 2
    )));
    assert!(matches!(ex.poll_completion(0), CompletionStep::HandlePermission));
    match ex.handle_permission_request() {
        PermissionStep::Answer { text, denied } => {
            assert_eq!(text, "1\n");
            assert!(denied.is_none());
        }
        _ => panic!("expected an answer"),
    }
    assert!(matches!(ex.current_state(), AgentState::Processing { .. }));
}

#[test]
fn escalations_wait_for_a_human_unless_configured() {
    let mut ex = running();
    ex.on_line(r#"{"type":"system","subtype":"init"}"#);
    begin(&mut ex, "p").unwrap();
    ex.on_line(r#"{"type":"tool_use","id":"t7","name":"Deploy","input":{}}"#);
    ex.on_line(r#"{"type":"tool_result","tool_use_id":"t7","content":"not allowed","is_error":true}"#);
    match ex.handle_permission_request() {
        PermissionStep::AwaitHuman { request_id } => assert_eq!(request_id, "t7"),
        _ => panic!("expected to wait for a human"),
    }
    assert!(matches!(ex.current_state(), AgentState::WaitingForPermission { .. }));
    ex.submit_permission_response("t7", PermissionDecision::Allow { always: false }).unwrap();
    let step = ex.resolve_permission_at(&PermissionDecision::Allow { always: false }, 9);
    assert!(matches!(&step, PermissionStep::Answer { text, denied: None } if text == "1\n"));
    assert!(step.failure().is_none());

    let mut options = ExecutorOptions::default();
    options.auto_approve = true;
    let mut auto = ClaudeCodeExecutor::new(options);
    auto.mark_started();
    auto.on_line(r#"{"type":"system","subtype":"init"}"#);
    begin(&mut auto, "p").unwrap();
    auto.on_line(r#"{"type":"tool_use","id":"t7","name":"Deploy","input":{}}"#);
    auto.on_line(r#"{"type":"tool_result","tool_use_id":"t7","content":"not allowed","is_error":true}"#);
    assert!(matches!(
        auto.handle_permission_request(),
        PermissionStep::Answer { text, denied: None } if text == "1\n"
    ));
    assert!(matches!(auto.current_state(), AgentState::Processing { .. }));
}

#[test]
fn executor_error_messages() {
    assert_eq!(ExecutorError::Process("p".into()).message(), "Process error: p");
    assert_eq!(ExecutorError::Io("i".into()).message(), "IO error: i");
    assert_eq!(ExecutorError::Json("j".into()).message(), "JSON error: j");
    assert_eq!(ExecutorError::PermissionDenied("d".into()).message(), "Permission denied: d");
    assert_eq!(ExecutorError::Timeout("t".into()).message(), "Timeout: t");
    assert_eq!(ExecutorError::AlreadyRunning.message(), "Already running");
    assert_eq!(ExecutorError::NotRunning.message(), "Not running");
}

#[test]
fn the_launch_plan_carries_the_working_directory() {
    let mut options = ExecutorOptions::default();
    options.working_dir = Some("/work".to_string());
    options.session_id = Some("s9".to_string());
    let ex = ClaudeCodeExecutor::new(options);
    let plan = ex.launch_plan().unwrap();
    assert_eq!(plan.program, "agent");
    assert_eq!(plan.working_dir.as_deref(), Some("/work"));
    assert_eq!(plan.args[..5], ["--print", "--output-format", "stream-json", "--resume", "s9"]);
    let plain = ClaudeCodeExecutor::new(ExecutorOptions::default());
    assert!(plain.launch_plan().unwrap().working_dir.is_none());
}

#[test]
fn a_prompt_that_was_not_written_starts_no_task() {
    let mut ex = ClaudeCodeExecutor::new(ExecutorOptions::default());
    assert!(matches!(ex.prompt_line("p"), Err(ExecutorError::NotRunning)));
    ex.prompt_sent("p");
    assert!(matches!(ex.current_state(), AgentState::Initializing));
    ex.mark_started();
    ex.on_line(r#"{"type":"system","subtype":"init","session_id":"s1"}"#);
    assert_eq!(ex.prompt_line("p").unwrap(), "p\n");
    assert!(matches!(ex.current_state(), AgentState::Idle));
    ex.prompt_sent("p");
    assert!(matches!(ex.current_state(), AgentState::Processing { .. }));
}

#[test]
fn the_session_id_is_kept_across_lines_and_steps() {
    let mut ex = running();
    ex.on_line(r#"{"type":"system","subtype":"init","session_id":"s1"}"#);
    assert_eq!(ex.session_id().as_deref(), Some("s1"));
    ex.on_line(r#"{"type":"system","subtype":"init","session_id":"s2"}"#);
    assert_eq!(ex.session_id().as_deref(), Some("s1"));
    begin(&mut ex, "p").unwrap();
    ex.on_line("not json");
    assert_eq!(ex.session_id().as_deref(), Some("s1"));
    ex.on_eof();
    assert_eq!(ex.session_id().as_deref(), Some("s1"));
    ex.stop();
    assert_eq!(ex.session_id().as_deref(), Some("s1"));
    assert_eq!(ex.timeout(), 300);
}

#[test]
fn the_host_is_told_of_the_request_that_waits() {
    let mut ex = running();
    ex.on_line(r#"{"type":"system","subtype":"init"}"#);
    assert!(ex.waiting_request().is_none());
    begin(&mut ex, "p").unwrap();
    ex.on_line(r#"{"type":"tool_use","id":"t7","name":"Deploy","input":{"to":"prod"}}"#);
    ex.on_line(r#"{"type":"tool_result","tool_use_id":"t7","content":"not allowed","is_error":true}"#);
    let notice = ex.waiting_request().unwrap();
    assert_eq!(notice.request_id, "t7");
    assert_eq!(notice.tool_name, "Deploy");
    match ex.current_state() {
        AgentState::WaitingForPermission { tool_input, .. } => {
            assert_eq!(notice.tool_input, tool_input)
        }
        _ => panic!("expected WaitingForPermission"),
    }
}

#[test]
fn a_human_is_waited_for_as_long_as_a_task_may_take() {
    let mut options = ExecutorOptions::default();
    options.timeout_secs = 30;
    let mut ex = ClaudeCodeExecutor::new(options);
    ex.mark_started();
    ex.on_line(r#"{"type":"system","subtype":"init"}"#);
    begin(&mut ex, "p").unwrap();
    ex.on_line(r#"{"type":"tool_use","id":"t7","name":"Deploy","input":{}}"#);
    ex.on_line(r#"{"type":"tool_result","tool_use_id":"t7","content":"not allowed","is_error":true}"#);
    assert!(matches!(ex.handle_permission_request(), PermissionStep::AwaitHuman { .. }));
    let stored = ex.permissions().pending_request("t7").unwrap();
    assert_eq!(stored.tool_name, "Deploy");
    assert!(!stored.timestamp.is_empty());
    assert!(matches!(ex.poll_human_response("t7", 29), HumanWait::Sleep { millis: 200 }));
    match ex.poll_human_response("t7", 30) {
        HumanWait::TimedOut(m) => assert_eq!(m, "Timeout waiting for human response: t7"),
        _ => panic!("expected a timeout"),
    }
    ex.submit_permission_response("t7", PermissionDecision::Deny { reason: "no".into() }).unwrap();
    assert!(ex.permissions().pending_request("t7").is_none());
    let decision = match ex.poll_human_response("t7", 31) {
        HumanWait::Decided(d) => d,
        _ => panic!("expected a decision"),
    };
    let step = ex.resolve_permission(&decision);
    assert!(matches!(&step, PermissionStep::Answer { text, denied: Some(r) } if text == "3\n" && r == "no"));
    assert!(matches!(
        ex.current_state(),
        AgentState::Error { recoverable: true, message } if message == "Permission denied: no"
    ));
    assert!(matches!(step.failure(), Some(ExecutorError::PermissionDenied(r)) if r == "no"));
}

#[test]
fn starting_again_forgets_what_the_parser_remembered() {
    let mut ex = running();
    ex.on_line(r#"{"type":"system","subtype":"init"}"#);
    begin(&mut ex, "p").unwrap();
    ex.on_line(r#"{"type":"tool_use","id":"t1","name":"Deploy","input":{}}"#);
    ex.stop();
    ex.mark_started();
    assert!(matches!(ex.current_state(), AgentState::Initializing));
    ex.on_line(r#"{"type":"system","subtype":"init"}"#);
    begin(&mut ex, "p").unwrap();
    let events = ex.on_line(
        r#"{"type":"tool_result","tool_use_id":"t1","content":"requires approval","is_error":true}"#,
    );
    assert!(!events.iter().any(|e| matches!(
        e,
        ExecutorEvent::PermissionRequired { tool_name, .. } if tool_name == "Deploy"
    )));
}
