use acp_core::assoc::StrMap;
use acp_core::message::{AddressType, AgentAddress, MessageType, PipelineStage};
use acp_core::pipeline::{
    default_stop_on_failure, PipelineDefinition, PipelineError, PipelineExecution,
    PipelineExecutor, PipelineStatus, StageResult, StageStatus,
};

fn value(text: &str) -> serde_json::Value {
    serde_json::from_str(text).unwrap()
}

fn pipeline_of(names: &[&str]) -> PipelineDefinition {
    let mut p = PipelineDefinition::new("test");
    for n in names {
        p = p.add_stage(PipelineStage::new(n, AgentAddress::new("a")));
    }
    p
}

#[test]
fn test_pipeline_definition() {
    let pipeline = PipelineDefinition::new("test-pipeline")
        .add_stage(PipelineStage::new("stage1", AgentAddress::new("agent1")))
        .add_stage(PipelineStage::new("stage2", AgentAddress::new("agent2")));

    assert_eq!(pipeline.name, "test-pipeline");
    assert_eq!(pipeline.stage_count(), 2);
}

#[test]
fn test_pipeline_execution() {
    let pipeline = PipelineDefinition::new("test")
        .add_stage(PipelineStage::new("s1", AgentAddress::new("a1")))
        .add_stage(PipelineStage::new("s2", AgentAddress::new("a2")));

    let mut execution = PipelineExecution::new(&pipeline);
    assert_eq!(execution.status, PipelineStatus::Pending);

    execution.start();
    assert_eq!(execution.status, PipelineStatus::Running);
    assert_eq!(execution.current_stage, 0);

    execution.complete_stage(value(r#"{"result": "stage1"}"#));
    assert_eq!(execution.current_stage, 1);
    assert_eq!(execution.stage_results[0].status, StageStatus::Completed);

    execution.complete_stage(value(r#"{"result": "stage2"}"#));
    assert_eq!(execution.status, PipelineStatus::Completed);
    assert_eq!(execution.progress(), 100);
}

#[test]
fn test_pipeline_executor() {
    let mut executor = PipelineExecutor::new();

    let pipeline =
        PipelineDefinition::new("test").add_stage(PipelineStage::new("s1", AgentAddress::new("a1")));

    let pipeline_id = executor.register(pipeline).unwrap();
    assert!(!pipeline_id.is_empty());

    let execution = executor.start_execution(&pipeline_id).unwrap();
    assert_eq!(execution.status, PipelineStatus::Running);

    let updated =
        executor.complete_stage(&execution.execution_id, value(r#"{"ok": true}"#)).unwrap();
    assert_eq!(updated.status, PipelineStatus::Completed);
}

#[test]
fn test_pipeline_cancellation() {
    let pipeline = PipelineDefinition::new("test")
        .add_stage(PipelineStage::new("s1", AgentAddress::new("a1")))
        .add_stage(PipelineStage::new("s2", AgentAddress::new("a2")));

    let mut execution = PipelineExecution::new(&pipeline);
    execution.start();

    execution.cancel();
    assert_eq!(execution.status, PipelineStatus::Cancelled);
    assert_eq!(execution.stage_results[1].status, StageStatus::Skipped);
}

#[test]
fn stage_result_times_and_duration() {
    let running = StageResult::running_at("test".to_string(), 0, 1_000);
    assert_eq!(running.status, StageStatus::Running);
    assert!(running.duration_ms().is_none());
    let done = running.complete_at(value("{}"), 1_010);
    assert_eq!(done.status, StageStatus::Completed);
    assert_eq!(done.duration_ms(), Some(10));
    let failed = StageResult::pending_at("x".to_string(), 3, 5).fail_at("bad".to_string(), 2);
    assert_eq!(failed.status, StageStatus::Failed);
    assert_eq!(failed.error.as_deref(), Some("bad"));
    assert_eq!(failed.duration_ms(), Some(-3));
    let skipped = StageResult::pending("y".to_string(), 1).skip();
    assert_eq!(skipped.status, StageStatus::Skipped);
    assert!(skipped.end_time.is_some());
    let far = StageResult::running_at("z".to_string(), 0, i64::MIN).complete_at(value("1"), i64::MAX);
    assert_eq!(far.duration_ms(), Some(i64::MAX));
}

#[test]
fn k_completions_complete_a_pipeline_of_k_stages() {
    for k in 1..6usize {
        let names: Vec<String> = (0..k).map(|i| format!("s{}", i)).collect();
        let refs: Vec<&str> = names.iter().map(|s| s.as_str()).collect();
        let mut e = PipelineExecution::new_at(&pipeline_of(&refs), "e".to_string(), 0);
        e.start();
        for j in 0..k {
            assert_eq!(e.status, PipelineStatus::Running);
            assert_eq!(e.progress() as usize, (j * 100) / k);
            e.complete_stage_at(value("true"), 10 + j as i64);
        }
        assert_eq!(e.status, PipelineStatus::Completed);
        assert_eq!(e.progress(), 100);
        assert_eq!(e.end_time, Some(10 + k as i64 - 1));
        assert_eq!(e.duration_ms(), Some(10 + k as i64 - 1));
    }
}

#[test]
fn cancelling_after_j_of_k_stages_skips_the_rest() {
    for k in 1..5usize {
        for j in 0..=k {
            let names: Vec<String> = (0..k).map(|i| format!("s{}", i)).collect();
            let refs: Vec<&str> = names.iter().map(|s| s.as_str()).collect();
            let mut e = PipelineExecution::new_at(&pipeline_of(&refs), "e".to_string(), 0);
            e.start();
            for _ in 0..j {
                e.complete_stage_at(value("1"), 1);
            }
            e.cancel_at(2);
            assert_eq!(e.status, PipelineStatus::Cancelled);
            let skipped =
                e.stage_results.iter().filter(|r| r.status == StageStatus::Skipped).count();
            let completed =
                e.stage_results.iter().filter(|r| r.status == StageStatus::Completed).count();
            assert_eq!(skipped, k - j);
            assert_eq!(completed, j);
        }
    }
}

#[test]
fn completing_stores_the_output_under_the_stage_name() {
    let mut e = PipelineExecution::new_at(&pipeline_of(&["a", "b", "c"]), "e".to_string(), 0);
    e.start();
    assert_eq!(e.stage_results[0].status, StageStatus::Running);
    assert_eq!(e.stage_results[1].status, StageStatus::Pending);
    e.complete_stage_at(value(r#""one""#), 5);
    assert_eq!(e.context.get("a").unwrap(), "one");
    assert!(e.context.get("b").is_none());
    assert_eq!(e.stage_results[0].output.as_ref().unwrap(), "one");
    assert_eq!(e.stage_results[0].end_time, Some(5));
    assert_eq!(e.stage_results[1].status, StageStatus::Running);
    assert_eq!(e.stage_results[1].stage_index, 1);
    assert_eq!(e.progress(), 33);
    e.complete_stage_at(value("2"), 6);
    assert_eq!(e.progress(), 66);
    e.complete_stage_at(value("3"), 7);
    e.complete_stage_at(value("4"), 8);
    assert_eq!(e.current_stage, 3);
    assert_eq!(e.context.len(), 3);
}

#[test]
fn failing_a_stage_fails_the_pipeline_unless_it_goes_on() {
    let mut e = PipelineExecution::new_at(&pipeline_of(&["a", "b"]), "e".to_string(), 0);
    e.start();
    e.fail_stage_at("broken".to_string(), 3);
    assert_eq!(e.status, PipelineStatus::Failed);
    assert_eq!(e.error.as_deref(), Some("broken"));
    assert_eq!(e.stage_results[0].status, StageStatus::Failed);
    assert_eq!(e.stage_results[0].error.as_deref(), Some("broken"));
    assert_eq!(e.current_stage, 0);
    assert_eq!(e.end_time, Some(3));

    let mut g = PipelineExecution::new_at(&pipeline_of(&["a", "b"]), "g".to_string(), 0);
    g.start();
    g.fail_stage_continuing_at("broken".to_string(), 3);
    assert_eq!(g.status, PipelineStatus::Running);
    assert_eq!(g.stage_results[0].status, StageStatus::Failed);
    assert_eq!(g.stage_results[1].status, StageStatus::Running);
    assert_eq!(g.current_stage, 1);
    g.fail_stage_continuing_at("again".to_string(), 4);
    assert_eq!(g.status, PipelineStatus::Completed);
    assert_eq!(g.progress(), 0);
}

#[test]
fn an_execution_without_stages_has_full_progress() {
    let e = PipelineExecution::new_at(&PipelineDefinition::new("empty"), "e".to_string(), 0);
    assert_eq!(e.progress(), 100);
    assert_eq!(e.status, PipelineStatus::Pending);
}

#[test]
fn the_registry_rejects_what_it_does_not_know() {
    let mut executor = PipelineExecutor::new();
    assert!(matches!(
        executor.register(PipelineDefinition::new("empty")),
        Err(PipelineError::NoStages)
    ));
    assert!(matches!(executor.start_execution("nope"), Err(PipelineError::NotFound(id)) if id == "nope"));
    assert!(matches!(
        executor.complete_stage("nope", value("1")),
        Err(PipelineError::ExecutionNotFound(id)) if id == "nope"
    ));
    assert!(matches!(
        executor.fail_stage("nope", "x".to_string()),
        Err(PipelineError::ExecutionNotFound(_))
    ));
    assert!(matches!(executor.cancel_execution("nope"), Err(PipelineError::ExecutionNotFound(_))));
    assert!(matches!(executor.unregister("nope"), Err(PipelineError::NotFound(_))));
    assert!(executor.get_pipeline("nope").is_none());
    assert!(executor.get_execution("nope").is_none());
}

#[test]
fn the_registry_keeps_definitions_and_executions() {
    let mut executor = PipelineExecutor::new();
    let id_a = executor.register(pipeline_of(&["a"])).unwrap();
    let id_b = executor.register(pipeline_of(&["b", "c"])).unwrap();
    assert_eq!(executor.list_pipelines().len(), 2);
    assert_eq!(executor.get_pipeline(&id_b).unwrap().stage_count(), 2);
    let e1 = executor.start_execution_at(&id_a, "e1".to_string(), 100).unwrap();
    let e2 = executor.start_execution_at(&id_b, "e2".to_string(), 100).unwrap();
    assert_eq!(e1.pipeline_id, id_a);
    assert_eq!(executor.get_active_executions().len(), 2);
    let done = executor.complete_stage_at("e1", value("1"), 200).unwrap();
    assert_eq!(done.status, PipelineStatus::Completed);
    assert!(matches!(
        executor.complete_stage_at("e1", value("1"), 300),
        Err(PipelineError::AlreadyRunning(id)) if id == "e1"
    ));
    let active = executor.get_active_executions();
    assert_eq!(active.len(), 1);
    assert_eq!(active[0].execution_id, e2.execution_id);
    let cancelled = executor.cancel_execution_at("e2", 400).unwrap();
    assert_eq!(cancelled.status, PipelineStatus::Cancelled);
    assert_eq!(executor.get_execution("e2").unwrap().status, PipelineStatus::Cancelled);
    executor.unregister(&id_a).unwrap();
    assert!(executor.get_pipeline(&id_a).is_none());
    assert_eq!(executor.list_pipelines().len(), 1);
}

#[test]
fn cleanup_removes_only_old_executions_that_are_over() {
    let mut executor = PipelineExecutor::new();
    let id = executor.register(pipeline_of(&["a"])).unwrap();
    executor.start_execution_at(&id, "old".to_string(), 0).unwrap();
    executor.complete_stage_at("old", value("1"), 1_000).unwrap();
    executor.start_execution_at(&id, "new".to_string(), 0).unwrap();
    executor.complete_stage_at("new", value("1"), 9_500).unwrap();
    executor.start_execution_at(&id, "running".to_string(), 0).unwrap();
    executor.start_execution_at(&id, "edge".to_string(), 0).unwrap();
    executor.fail_stage_at("edge", "x".to_string(), 5_000).unwrap();

    let removed = executor.cleanup_stale_at(5, 10_999);
    assert_eq!(removed, vec!["old"]);
    assert!(executor.get_execution("old").is_none());
    assert!(executor.get_execution("new").is_some());
    assert!(executor.get_execution("running").is_some());
    assert!(executor.get_execution("edge").is_some());
    let removed = executor.cleanup_stale_at(5, 11_000);
    assert_eq!(removed, vec!["edge"]);
    let removed = executor.cleanup_stale_at(-1, 9_500);
    assert_eq!(removed, vec!["new"]);
    assert!(executor.cleanup_stale(0).is_empty());
    assert!(executor.get_execution("running").is_some());
}

#[test]
fn pipeline_error_messages() {
    assert_eq!(PipelineError::NotFound("p".into()).message(), "Pipeline not found: p");
    assert_eq!(PipelineError::ExecutionNotFound("e".into()).message(), "Execution not found: e");
    assert_eq!(PipelineError::NoStages.message(), "No stages defined in pipeline");
    assert_eq!(PipelineError::StageFailed("s".into()).message(), "Stage failed: s");
    assert_eq!(PipelineError::AgentNotAvailable("a".into()).message(), "Agent not available: a");
    assert_eq!(PipelineError::InvalidStageIndex(12).message(), "Invalid stage index: 12");
    assert_eq!(PipelineError::AlreadyRunning("e".into()).message(), "Pipeline already running: e");
    assert_eq!(PipelineError::JsonError("j".into()).message(), "JSON error: j");
    assert!(default_stop_on_failure());
}

#[test]
fn definition_builders() {
    let p = PipelineDefinition::with_id("id-1".to_string(), "n")
        .with_stages(vec![PipelineStage::new("x", AgentAddress::new("a"))])
        .with_default_input(value(r#"{"k":1}"#))
        .with_stop_on_failure(false);
    assert_eq!(p.id, "id-1");
    assert_eq!(p.stage_count(), 1);
    assert_eq!(p.default_input.as_ref().unwrap()["k"], 1);
    assert!(!p.stop_on_failure);
    let q = p.clone();
    assert_eq!(q.id, "id-1");
    assert_eq!(q.stages[0].name, "x");
    assert_ne!(PipelineDefinition::new("a").id, PipelineDefinition::new("a").id);
}

#[test]
fn a_stage_makes_its_prompt_message() {
    let mut context: StrMap<serde_json::Value> = StrMap::new();
    context.insert("first".to_string(), value(r#"{"n":1}"#));
    context.insert("second".to_string(), value(r#""two""#));
    let from = AgentAddress::new("runner").with_instance("main");
    let stage = PipelineStage::new("s", AgentAddress::new("worker"))
        .with_prompt_template("{{first}} {{second}} {{third}} {{input}}");
    let input = value("[1,2]");
    let message = stage.create_prompt(&from, &context, Some(&input));
    assert_eq!(message.message_type, MessageType::Prompt);
    assert_eq!(message.from.id, "runner/main");
    assert!(matches!(&message.to, AddressType::Single { address } if address.id == "worker"));
    assert_eq!(message.payload.content, r#"{"n":1} "two" {{third}} [1,2]"#);
    let kept = stage.create_prompt(&from, &context, None);
    assert_eq!(kept.payload.content, r#"{"n":1} "two" {{third}} {{input}}"#);
    let plain = PipelineStage::new("s", AgentAddress::new("worker"));
    let message = plain.create_prompt(&from, &context, Some(&input));
    assert_eq!(
        message.payload.content,
        "Context:\n{\n  \"first\": {\n    \"n\": 1\n  },\n  \"second\": \"two\"\n}\n\nPlease process this stage: s"
    );
}
