use acp_core::assoc::StrMap;
use acp_core::message::{AgentAddress, PipelineStage};
use acp_core::pipeline::{PipelineDefinition, PipelineError, PipelineExecutor, PipelineStatus, StageStatus};
use acp_core::runner::{
    audio_dir, audio_path, build_prompt, builtin_stage, classify_prompt, create_subtitle_pipeline,
    fallback_output, is_spoken, parse_stage, progress_report, segments_from_json, segments_path,
    segments_to_json, subtitle_input, translated_vtt_path, truncate_safe, voice_skipped,
    voice_stage, voice_summary, DirectStage, ExecutionContext, NextStep, PipelineRunner,
    ProgressPayload, RunnerError, DOWNLOAD_STAGE, TRANSLATE_STAGE,
};
use acp_core::subtitle_parser::SubtitleSegment;

fn value(text: &str) -> serde_json::Value {
    serde_json::from_str(text).unwrap()
}

fn stage(name: &str, template: Option<&str>) -> PipelineStage {
    let s = PipelineStage::new(name, AgentAddress::new("agent"));
    match template {
        Some(t) => s.with_prompt_template(t),
        None => s,
    }
}

fn runner_with(def: PipelineDefinition) -> (PipelineRunner, String) {
    let mut runner = PipelineRunner::new(PipelineExecutor::new());
    let id = runner.register(def).unwrap();
    (runner, id)
}

#[test]
fn test_execution_context() {
    let ctx = ExecutionContext::new("pipeline-1", "exec-1", value(r#"{ "test": "value" }"#));

    assert_eq!(ctx.pipeline_id, "pipeline-1");
    assert_eq!(ctx.execution_id, "exec-1");
    assert!(ctx.stage_outputs.is_empty());
}

#[test]
fn test_progress_payload() {
    let payload = ProgressPayload {
        execution_id: "exec-1".to_string(),
        stage_index: 0,
        stage_name: "test-stage".to_string(),
        status: "running".to_string(),
        progress_percent: 50,
        message: "Test message".to_string(),
    };

    let json = payload.to_json();
    assert!(json.contains("exec-1"));
    assert!(json.contains("test-stage"));
}

#[test]
fn test_truncate_safe() {
    let s = "日本語テスト";
    let truncated = truncate_safe(s, 10);
    assert!(truncated.len() <= 10);
    assert!(s.starts_with(truncated));
}

#[test]
fn truncate_cuts_at_the_last_boundary_that_fits() {
    assert_eq!(truncate_safe("日本語テスト", 10), "日本語");
    assert_eq!(truncate_safe("日本語", 9), "日本語");
    assert_eq!(truncate_safe("日本語", 2), "");
    assert_eq!(truncate_safe("abc", 0), "");
    assert_eq!(truncate_safe("abc", 2), "ab");
    assert_eq!(truncate_safe("", 5), "");
}

#[test]
fn progress_payload_json_holds_every_field() {
    let payload = ProgressPayload {
        execution_id: "e".to_string(),
        stage_index: 2,
        stage_name: "s".to_string(),
        status: "stage-started".to_string(),
        progress_percent: 66,
        message: "m".to_string(),
    };
    let v = value(&payload.to_json());
    assert_eq!(v["execution_id"], "e");
    assert_eq!(v["stage_index"], 2);
    assert_eq!(v["stage_name"], "s");
    assert_eq!(v["status"], "stage-started");
    assert_eq!(v["progress_percent"], 66);
    assert_eq!(v["message"], "m");
}

#[test]
fn templates_are_filled_from_outputs_input_keys_and_the_input() {
    let mut outputs: StrMap<String> = StrMap::new();
    outputs.insert("S1".to_string(), "hello".to_string());
    outputs.insert("S2".to_string(), "{{S1}}".to_string());
    let input = value(r#"{"lang":"ja","n":3,"flag":true}"#);
    let s = stage("x", Some("{{S1}} {{S2}} {{lang}} {{n}} {{flag}} {{missing}} {{input}}"));
    assert_eq!(
        build_prompt(&s, &outputs, &input),
        r#"hello {{S1}} ja 3 true {{missing}} {"flag":true,"lang":"ja","n":3}"#
    );
    let again = stage("x", Some("hello ja 3"));
    assert_eq!(build_prompt(&again, &outputs, &input), "hello ja 3");
    let scalar = value("7");
    assert_eq!(build_prompt(&stage("x", Some("{{S1}}:{{input}}")), &outputs, &scalar), "hello:7");
}

#[test]
fn a_stage_without_template_gets_the_default_prompt() {
    let mut outputs: StrMap<String> = StrMap::new();
    outputs.insert("b".to_string(), "2".to_string());
    outputs.insert("a".to_string(), "1".to_string());
    let prompt = build_prompt(&stage("final", None), &outputs, &value(r#"{"k":"v"}"#));
    assert_eq!(
        prompt,
        "Context: {\"a\":\"1\",\"b\":\"2\"}\n\nInput: {\"k\":\"v\"}\n\nExecute stage: final"
    );
}

#[test]
fn prompts_are_dispatched_by_their_marker() {
    match classify_prompt(r#"RUST_DIRECT:{"stage":"echo","x":1}"#.to_string()) {
        NextStep::Direct { stage, params } => {
            assert_eq!(stage, "echo");
            assert_eq!(params["x"], 1);
        }
        _ => panic!("expected Direct"),
    }
    for p in [
        "Translate this",
        "RUST_DIRECT:not json",
        r#"RUST_DIRECT:{"other":1}"#,
        r#"RUST_DIRECT:{"stage":5}"#,
        r#" RUST_DIRECT:{"stage":"echo"}"#,
    ] {
        assert!(matches!(classify_prompt(p.to_string()), NextStep::Agent { prompt } if prompt == p));
    }
}

#[test]
fn builtin_stages_read_their_parameters() {
    let d = builtin_stage("download", &value(r#"{"url":"u","lang":"en","output_dir":"/o"}"#)).unwrap();
    assert!(matches!(d, DirectStage::Download { url, lang, output_dir }
        if url == "u" && lang == "en" && output_dir == "/o"));
    assert!(matches!(
        builtin_stage("download", &value(r#"{"lang":"en","output_dir":"/o"}"#)),
        Err(RunnerError::StageFailed(m)) if m == "Missing url"
    ));
    assert!(matches!(
        builtin_stage("download", &value(r#"{"url":"u","output_dir":"/o"}"#)),
        Err(RunnerError::StageFailed(m)) if m == "Missing lang"
    ));
    assert!(matches!(
        builtin_stage("download", &value(r#"{"url":"u","lang":"en"}"#)),
        Err(RunnerError::StageFailed(m)) if m == "Missing output_dir"
    ));
    assert!(matches!(
        builtin_stage("parse", &value(r#"{"output_dir":"/o"}"#)),
        Ok(DirectStage::Parse { output_dir }) if output_dir == "/o"
    ));
    assert!(matches!(
        builtin_stage("parse", &value("{}")),
        Err(RunnerError::StageFailed(m)) if m == "Missing output_dir"
    ));
    assert!(matches!(
        builtin_stage("voicevox", &value(r#"{"output_dir":"/o","speaker":3}"#)),
        Ok(DirectStage::Voicevox { speaker: 3, .. })
    ));
    assert!(matches!(
        builtin_stage("voicevox", &value(r#"{"output_dir":"/o","speaker":"x"}"#)),
        Ok(DirectStage::Voicevox { speaker: 1, .. })
    ));
    assert!(matches!(
        builtin_stage("voicevox", &value(r#"{"output_dir":"/o"}"#)),
        Ok(DirectStage::Voicevox { speaker: 1, .. })
    ));
    assert!(matches!(
        builtin_stage("echo", &value("{}")),
        Err(RunnerError::StageFailed(m)) if m == "Unknown RUST_DIRECT stage: echo"
    ));
}

#[test]
fn the_subtitle_pipeline_has_four_stages() {
    let p = create_subtitle_pipeline("https://y/v", "en", "/out");
    assert_eq!(p.name, "subtitle-translation");
    assert!(p.stop_on_failure);
    let names: Vec<&str> = p.stages.iter().map(|s| s.name.as_str()).collect();
    assert_eq!(
        names,
        vec!["download-subtitles", "parse-subtitles", "translate-subtitles", "voice-synthesis"]
    );
    assert_eq!(
        p.stages[0].prompt_template.as_deref(),
        Some(r#"RUST_DIRECT:{"lang":"en","output_dir":"/out","stage":"download","url":"https://y/v"}"#)
    );
    assert_eq!(
        p.stages[1].prompt_template.as_deref(),
        Some(r#"RUST_DIRECT:{"output_dir":"/out","stage":"parse"}"#)
    );
    assert!(p.stages[2].prompt_template.as_ref().unwrap().contains("{{parse-subtitles}}"));
    assert_eq!(p.stages[2].agent.id, "coding-agent");
    assert_eq!(
        p.stages[3].prompt_template.as_deref(),
        Some(r#"RUST_DIRECT:{"output_dir":"/out","speaker":1,"stage":"voicevox"}"#)
    );
    assert_eq!(p.stages[0].agent.id, "rust-direct");
    let input = subtitle_input("u", "l", "d");
    assert_eq!(input, value(r#"{"youtube_url":"u","subtitle_lang":"l","output_dir":"d"}"#));
    match classify_prompt(p.stages[3].prompt_template.clone().unwrap()) {
        NextStep::Direct { stage, params } => {
            assert!(matches!(
                builtin_stage(&stage, &params),
                Ok(DirectStage::Voicevox { speaker: 1, output_dir }) if output_dir == "/out"
            ));
        }
        _ => panic!("expected Direct"),
    }
}

#[test]
fn a_run_goes_through_its_stages() {
    let def = PipelineDefinition::new("p")
        .add_stage(stage("S1", Some(r#"RUST_DIRECT:{"stage":"echo"}"#)))
        .add_stage(stage("S2", Some("Translate: {{S1}}")));
    let (mut runner, id) = runner_with(def);
    let first = runner.start_run_at(&id, value(r#"{"a":1}"#), "e1".to_string(), 10).unwrap();
    assert_eq!(first.execution.status, PipelineStatus::Running);
    let statuses: Vec<(&str, u8, usize)> = first
        .events
        .iter()
        .map(|e| (e.status.as_str(), e.progress_percent, e.stage_index))
        .collect();
    assert_eq!(statuses, vec![("pipeline-started", 0, 0), ("stage-started", 0, 0)]);
    assert_eq!(first.events[1].stage_name, "S1");
    assert_eq!(first.events[1].message, "ステージ開始: S1");
    assert!(matches!(&first.next, NextStep::Direct { stage, .. } if stage == "echo"));

    let second = runner.stage_finished_at("e1", Ok("hello".to_string()), 20).unwrap();
    let statuses: Vec<(&str, u8, usize)> = second
        .events
        .iter()
        .map(|e| (e.status.as_str(), e.progress_percent, e.stage_index))
        .collect();
    assert_eq!(statuses, vec![("stage-completed", 50, 0), ("stage-started", 50, 1)]);
    assert!(matches!(&second.next, NextStep::Agent { prompt } if prompt == "Translate: hello"));
    assert_eq!(runner.stage_output("e1", "S1").as_deref(), Some("hello"));

    let third = runner.stage_finished_at("e1", Ok("hola".to_string()), 30).unwrap();
    let statuses: Vec<(&str, u8, usize)> = third
        .events
        .iter()
        .map(|e| (e.status.as_str(), e.progress_percent, e.stage_index))
        .collect();
    assert_eq!(statuses, vec![("stage-completed", 100, 1), ("pipeline-completed", 100, 1)]);
    assert!(matches!(third.next, NextStep::Done));
    assert_eq!(third.execution.status, PipelineStatus::Completed);
    assert_eq!(third.execution.context.get("S1").unwrap(), "hello");
    assert_eq!(third.execution.context.get("S2").unwrap(), "hola");
    assert_eq!(third.execution.context.len(), 2);
    assert!(matches!(
        runner.stage_finished_at("e1", Ok("x".to_string()), 40),
        Err(RunnerError::Pipeline(PipelineError::AlreadyRunning(_)))
    ));
}

#[test]
fn a_failed_stage_stops_the_run_or_not() {
    let stages = vec![stage("a", Some("A")), stage("b", Some("B {{a}}"))];
    let (mut runner, id) = runner_with(PipelineDefinition::new("p").with_stages(stages));
    runner.start_run_at(&id, value("null"), "e".to_string(), 0).unwrap();
    let turn = runner.stage_finished_at("e", Err("boom".to_string()), 1).unwrap();
    assert!(matches!(turn.next, NextStep::Stopped));
    assert_eq!(turn.execution.status, PipelineStatus::Failed);
    assert_eq!(turn.execution.error.as_deref(), Some("boom"));
    assert_eq!(turn.events.len(), 1);
    assert_eq!(turn.events[0].status, "stage-failed");
    assert_eq!(turn.events[0].message, "ステージ失敗: a - boom");

    let stages = vec![stage("a", Some("A")), stage("b", Some("B {{a}}"))];
    let def = PipelineDefinition::new("q").with_stages(stages).with_stop_on_failure(false);
    let id2 = runner.register(def).unwrap();
    runner.start_run_at(&id2, value("null"), "f".to_string(), 0).unwrap();
    let turn = runner.stage_finished_at("f", Err("boom".to_string()), 1).unwrap();
    assert!(matches!(&turn.next, NextStep::Agent { prompt } if prompt == "B {{a}}"));
    assert_eq!(turn.execution.status, PipelineStatus::Running);
    assert_eq!(turn.execution.stage_results[0].status, StageStatus::Failed);
    let statuses: Vec<&str> = turn.events.iter().map(|e| e.status.as_str()).collect();
    assert_eq!(statuses, vec!["stage-failed", "stage-started"]);
    let turn = runner.stage_finished_at("f", Ok("fine".to_string()), 2).unwrap();
    assert!(matches!(turn.next, NextStep::Done));
    assert_eq!(turn.execution.status, PipelineStatus::Completed);
}

#[test]
fn runs_that_do_not_exist_are_reported() {
    let (mut runner, _) = runner_with(PipelineDefinition::new("p").add_stage(stage("a", None)));
    assert!(matches!(
        runner.start_run("unknown", value("{}")),
        Err(RunnerError::Pipeline(PipelineError::NotFound(id))) if id == "unknown"
    ));
    assert!(matches!(
        runner.stage_finished("nope", Ok("x".to_string())),
        Err(RunnerError::ExecutionNotFound(id)) if id == "nope"
    ));
    assert!(matches!(
        runner.cancel_execution("nope"),
        Err(RunnerError::Pipeline(PipelineError::ExecutionNotFound(_)))
    ));
    assert!(matches!(
        runner.required_output("nope", "a", "missing"),
        Err(RunnerError::ExecutionNotFound(_))
    ));
    assert!(runner.get_execution("nope").is_none());
    assert!(runner.stage_output("nope", "a").is_none());
}

#[test]
fn later_stages_find_the_outputs_they_need() {
    let (mut runner, id) =
        runner_with(PipelineDefinition::new("p").add_stage(stage("download-subtitles", None)).add_stage(stage("b", None)));
    let turn = runner.start_run(&id, value("{}")).unwrap();
    let eid = turn.execution.execution_id.clone();
    assert!(matches!(
        runner.required_output(&eid, "download-subtitles", "No subtitle file from stage1"),
        Err(RunnerError::StageFailed(m)) if m == "No subtitle file from stage1"
    ));
    runner.stage_finished(&eid, Ok("/tmp/x.vtt".to_string())).unwrap();
    assert_eq!(
        runner.required_output(&eid, "download-subtitles", "none").unwrap(),
        "/tmp/x.vtt"
    );
    assert_eq!(runner.get_active_executions().len(), 1);
}

#[test]
fn the_subtitle_stages_read_what_earlier_stages_gave() {
    assert_eq!(DOWNLOAD_STAGE, "download-subtitles");
    assert_eq!(TRANSLATE_STAGE, "translate-subtitles");
    let (mut runner, id) = runner_with(
        PipelineDefinition::new("p")
            .add_stage(stage(DOWNLOAD_STAGE, None))
            .add_stage(stage(TRANSLATE_STAGE, None))
            .add_stage(stage("c", None)),
    );
    assert!(matches!(
        runner.downloaded_file("nope"),
        Err(RunnerError::ExecutionNotFound(id)) if id == "nope"
    ));
    let turn = runner.start_run(&id, value("{}")).unwrap();
    let eid = turn.execution.execution_id.clone();
    assert!(matches!(
        runner.downloaded_file(&eid),
        Err(RunnerError::StageFailed(m)) if m == "No subtitle file from stage1"
    ));
    assert!(matches!(
        runner.translated_text(&eid),
        Err(RunnerError::StageFailed(m)) if m == "No translated text from stage3"
    ));
    runner.stage_finished(&eid, Ok("/tmp/x.vtt".to_string())).unwrap();
    assert_eq!(runner.downloaded_file(&eid).unwrap(), "/tmp/x.vtt");
    assert!(runner.translated_text(&eid).is_err());
    runner.stage_finished(&eid, Ok("[0] hallo".to_string())).unwrap();
    assert_eq!(runner.translated_text(&eid).unwrap(), "[0] hallo");
    assert_eq!(runner.downloaded_file(&eid).unwrap(), "/tmp/x.vtt");
}

#[test]
fn segments_are_stored_and_read_back() {
    let segments = vec![
        SubtitleSegment::new(0, 1000, 4000, "Hello".to_string()),
        SubtitleSegment::new(1, 5000, 8000, "Wor\"ld".to_string()),
    ];
    let json = segments_to_json(&segments);
    assert_eq!(
        json,
        r#"[{"end_ms":4000,"index":0,"start_ms":1000,"text":"Hello"},{"end_ms":8000,"index":1,"start_ms":5000,"text":"Wor\"ld"}]"#
    );
    let back = segments_from_json(&json).unwrap();
    assert_eq!(back.len(), 2);
    assert_eq!(back[1].text, "Wor\"ld");
    assert_eq!((back[1].index, back[1].start_ms, back[1].end_ms), (1, 5000, 8000));
    assert!(segments_from_json("[]").unwrap().is_empty());
    for bad in [
        "{",
        "{}",
        r#"[{"index":0,"start_ms":1,"end_ms":2}]"#,
        r#"[{"index":-1,"start_ms":1,"end_ms":2,"text":""}]"#,
        r#"[{"index":4294967296,"start_ms":1,"end_ms":2,"text":""}]"#,
        r#"[{"index":0,"start_ms":3,"end_ms":2,"text":""}]"#,
    ] {
        assert!(matches!(segments_from_json(bad), Err(RunnerError::Json(_))));
    }
}

#[test]
fn the_stages_compute_texts_and_paths() {
    let (segments, text) =
        parse_stage("WEBVTT\n\n00:00:01.000 --> 00:00:02.000\nHi\n").unwrap();
    assert_eq!(segments.len(), 1);
    assert_eq!(text, "[0] Hi");
    assert!(matches!(parse_stage("nope"), Err(RunnerError::VttParse(m))
        if m == "Invalid VTT format: Missing WEBVTT header"));
    let (translations, vtt) = voice_stage(&segments, "[0] やあ");
    assert_eq!(translations, vec!["やあ"]);
    assert_eq!(vtt, "WEBVTT\n\n00:00:01.000 --> 00:00:02.000\nやあ\n\n");
    assert!(is_spoken(" a "));
    assert!(!is_spoken("  \t"));
    assert_eq!(segments_path("/o"), "/o/segments.json");
    assert_eq!(translated_vtt_path("/o"), "/o/translated.ja.vtt");
    assert_eq!(audio_dir("/o"), "/o/audio");
    assert_eq!(audio_path("/o/audio", 7), "/o/audio/audio_0007.wav");
    assert_eq!(audio_path("/o/audio", 12345), "/o/audio/audio_12345.wav");
    assert_eq!(voice_skipped("/o/t.vtt"), "Translated VTT saved to /o/t.vtt (VOICEVOX not running)");
    assert_eq!(voice_summary(3, "/o/audio"), "Generated 3 audio files in /o/audio");
    assert_eq!(fallback_output("p"), "[FALLBACK - Manual execution required]\n\np");
}

#[test]
fn runner_error_messages() {
    let cases: Vec<(RunnerError, &str)> = vec![
        (RunnerError::Pipeline(PipelineError::NoStages), "Pipeline error: No stages defined in pipeline"),
        (RunnerError::AgentNotFound("a".into()), "Agent not found: a"),
        (RunnerError::Timeout("a".into()), "Timeout waiting for agent: a"),
        (RunnerError::StageFailed("s".into()), "Stage failed: s"),
        (RunnerError::ExecutionNotFound("e".into()), "Execution not found: e"),
        (RunnerError::Json("j".into()), "JSON error: j"),
        (RunnerError::Io("i".into()), "IO error: i"),
        (RunnerError::Youtube("y".into()), "YouTube download error: y"),
        (RunnerError::VttParse("v".into()), "VTT parse error: v"),
        (RunnerError::Voicevox("v".into()), "VOICEVOX error: v"),
        (RunnerError::Executor("x".into()), "Agent executor error: x"),
        (RunnerError::ExecutorNotAvailable, "Executor not available"),
    ];
    for (e, text) in cases {
        assert_eq!(e.message(), text);
    }
}

#[test]
fn progress_reports_name_the_stage() {
    let def = PipelineDefinition::new("p").add_stage(stage("only", None));
    let e = acp_core::pipeline::PipelineExecution::new_at(&def, "e".to_string(), 0);
    let r = progress_report(&e, 0, "s", "m".to_string());
    assert_eq!((r.stage_name.as_str(), r.progress_percent), ("only", 0));
    let r = progress_report(&e, 5, "s", "m".to_string());
    assert_eq!(r.stage_name, "");
    assert_eq!(r.execution_id, "e");
}

#[test]
fn the_keys_of_the_input_are_bound_in_ascending_order() {
    let outputs: StrMap<String> = StrMap::new();
    let input = value(r#"{"b":"x","a":"{{b}}","B":"{{a}}"}"#);
    assert_eq!(build_prompt(&stage("s", Some("{{B}}")), &outputs, &input), "x");
    assert_eq!(build_prompt(&stage("s", Some("{{a}}{{B}}")), &outputs, &input), "xx");
    let reversed = value(r#"{"a":"x","b":"{{a}}"}"#);
    assert_eq!(build_prompt(&stage("s", Some("{{b}}")), &outputs, &reversed), "{{a}}");
}
