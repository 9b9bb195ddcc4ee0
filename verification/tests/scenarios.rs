use acp_core::executor::{
    ClaudeCodeExecutor, CompletionStep, ExecutorError, ExecutorEvent, ExecutorOptions,
    PermissionStep,
};
use acp_core::message::{AgentAddress, PipelineStage};
use acp_core::permission::{PermissionDecision, PermissionManager, PermissionPolicy};
use acp_core::pipeline::{PipelineDefinition, PipelineExecutor, PipelineStatus, StageStatus};
use acp_core::runner::{NextStep, PipelineRunner};
use acp_core::state_machine::{AgentState, StateEvent, StateMachine};
use acp_core::stream_parser::{ParsedEvent, StreamParser};

fn begin(ex: &mut ClaudeCodeExecutor, prompt: &str) -> Result<String, ExecutorError> {
    let text = ex.prompt_line(prompt)?;
    ex.prompt_sent(prompt);
    Ok(text)
}

fn value(text: &str) -> serde_json::Value {
    serde_json::from_str(text).unwrap()
}

#[test]
fn scenario_init_makes_the_machine_idle() {
    let mut parser = StreamParser::new();
    let mut machine = StateMachine::new();
    let events =
        parser.parse_line(r#"{"type":"system","subtype":"init","session_id":"s1"}"#).unwrap();
    assert_eq!(events.len(), 1);
    match events.into_iter().next().unwrap() {
        ParsedEvent::StateChange(e) => {
            assert!(matches!(e, StateEvent::Initialized));
            machine.transition(e);
        }
        _ => panic!("expected a state change"),
    }
    assert!(matches!(machine.current_state(), AgentState::Idle));
}

#[test]
fn scenario_tool_use_then_completion() {
    let mut ex = ClaudeCodeExecutor::new(ExecutorOptions::default());
    ex.mark_started();
    ex.on_line(r#"{"type":"system","subtype":"init","session_id":"s1"}"#);
    begin(&mut ex, "read it").unwrap();
    let mut surfaced = Vec::new();
    surfaced.extend(ex.on_line(r#"{"type":"tool_use","id":"t1","name":"Read","input":{"file_path":"/x"}}"#));
    surfaced.extend(ex.on_line(r#"{"type":"tool_result","tool_use_id":"t1","content":"ok","is_error":false}"#));
    surfaced.extend(ex.on_line(r#"{"type":"result","subtype":"success","result":"done","session_id":"s1"}"#));
    assert!(matches!(ex.current_state(), AgentState::Completed { output } if output == "done"));
    assert!(surfaced.iter().any(|e| matches!(
        e,
        ExecutorEvent::ToolExecution { name, result: Some(r), is_error: false, .. }
            if name == "Read" && r == "ok"
    )));
    assert!(surfaced.iter().any(|e| matches!(
        e,
        ExecutorEvent::Completed { output } if output == "done"
    )));
    assert!(matches!(ex.poll_completion(1), CompletionStep::Finished(o) if o == "done"));
}

#[test]
fn scenario_permission_escalation_is_denied() {
    let mut ex = ClaudeCodeExecutor::new(ExecutorOptions::default());
    ex.mark_started();
    ex.on_line(r#"{"type":"system","subtype":"init","session_id":"s1"}"#);
    begin(&mut ex, "clean up").unwrap();
    ex.on_line(r#"{"type":"tool_use","id":"t2","name":"Bash","input":{"command":"rm -rf /"}}"#);
    ex.on_line(r#"{"type":"tool_result","tool_use_id":"t2","content":"This command requires approval","is_error":true}"#);
    match ex.current_state() {
        AgentState::WaitingForPermission { tool_name, request_id, .. } => {
            assert_eq!(tool_name, "Bash");
            assert_eq!(request_id, "t2");
        }
        _ => panic!("expected WaitingForPermission"),
    }

    let mut manager = PermissionManager::new();
    assert_eq!(manager.current_policy(), PermissionPolicy::Standard);
    let decision = manager.check_permission("Bash", &value(r#"{"command":"rm -rf /"}"#), "t2");
    match &decision {
        PermissionDecision::Deny { reason } => assert_eq!(reason, "Dangerous command: rm -rf"),
        _ => panic!("expected Deny"),
    }

    let step = ex.resolve_permission_at(&decision, 1);
    match &step {
        PermissionStep::Answer { text, denied } => {
            assert_eq!(text, "3\n");
            assert_eq!(denied.as_deref(), Some("Dangerous command: rm -rf"));
        }
        _ => panic!("expected an answer"),
    }
    assert!(matches!(
        ex.current_state(),
        AgentState::Error { recoverable: true, message }
            if message == "Permission denied: Dangerous command: rm -rf"
    ));
    assert!(matches!(
        step.failure(),
        Some(ExecutorError::PermissionDenied(r)) if r == "Dangerous command: rm -rf"
    ));
}

#[test]
fn scenario_pipeline_with_deterministic_and_agent_stages() {
    let def = PipelineDefinition::new("mixed")
        .add_stage(
            PipelineStage::new("S1", AgentAddress::new("rust-direct"))
                .with_prompt_template(r#"RUST_DIRECT:{"stage":"echo"}"#),
        )
        .add_stage(
            PipelineStage::new("S2", AgentAddress::new("translator"))
                .with_prompt_template("Translate: {{S1}}"),
        );
    let mut runner = PipelineRunner::new(PipelineExecutor::new());
    let id = runner.register(def).unwrap();
    let mut percents = Vec::new();
    let mut turn = runner.start_run(&id, value("{}")).unwrap();
    let eid = turn.execution.execution_id.clone();
    loop {
        percents.extend(turn.events.iter().map(|e| e.progress_percent));
        let outcome = match &turn.next {
            NextStep::Direct { stage, .. } => {
                assert_eq!(stage, "echo");
                Ok("hello".to_string())
            }
            NextStep::Agent { prompt } => {
                assert_eq!(prompt, "Translate: hello");
                Ok("hola".to_string())
            }
            NextStep::Done | NextStep::Stopped => break,
        };
        turn = runner.stage_finished(&eid, outcome).unwrap();
    }
    assert!(matches!(turn.next, NextStep::Done));
    let execution = runner.get_execution(&eid).unwrap();
    assert_eq!(execution.status, PipelineStatus::Completed);
    assert_eq!(execution.context.len(), 2);
    assert_eq!(execution.context.get("S1").unwrap(), "hello");
    assert_eq!(execution.context.get("S2").unwrap(), "hola");
    percents.dedup();
    assert_eq!(percents, vec![0, 50, 100]);
}

#[test]
fn scenario_cancellation_skips_what_is_left() {
    let def = PipelineDefinition::new("three")
        .add_stage(PipelineStage::new("S1", AgentAddress::new("a")).with_prompt_template("one"))
        .add_stage(PipelineStage::new("S2", AgentAddress::new("a")).with_prompt_template("two"))
        .add_stage(PipelineStage::new("S3", AgentAddress::new("a")).with_prompt_template("three"));
    let mut runner = PipelineRunner::new(PipelineExecutor::new());
    let id = runner.register(def).unwrap();
    let turn = runner.start_run(&id, value("{}")).unwrap();
    let eid = turn.execution.execution_id.clone();
    runner.stage_finished(&eid, Ok("first".to_string())).unwrap();
    let (execution, report) = runner.cancel_execution(&eid).unwrap();
    assert_eq!(execution.status, PipelineStatus::Cancelled);
    let statuses: Vec<StageStatus> = execution.stage_results.iter().map(|r| r.status).collect();
    assert_eq!(statuses, vec![StageStatus::Completed, StageStatus::Skipped, StageStatus::Skipped]);
    assert_eq!(report.status, "cancelled");
    assert_eq!(report.execution_id, eid);
    assert_eq!(report.stage_index, 1);
    assert_eq!(runner.get_execution(&eid).unwrap().status, PipelineStatus::Cancelled);
}
