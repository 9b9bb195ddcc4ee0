use acp_core::state_machine::StateEvent;
use acp_core::stream_parser::{
    decode_event, ContentBlock, ParseError, ParsedEvent, StreamEvent, StreamParser,
};

#[test]
fn test_parse_system_init() {
    let mut parser = StreamParser::new();
    let line = r#"{"type":"system","subtype":"init","session_id":"test-123"}"#;

    let events = parser.parse_line(line).unwrap();
    assert_eq!(events.len(), 1);

    match &events[0] {
        ParsedEvent::StateChange(StateEvent::Initialized) => {}
        _ => panic!("Expected Initialized event"),
    }
}

#[test]
fn test_parse_tool_use() {
    let mut parser = StreamParser::new();
    let line =
        r#"{"type":"tool_use","id":"tool-1","name":"Read","input":{"file_path":"/test.txt"}}"#;

    let events = parser.parse_line(line).unwrap();
    assert!(events.len() >= 1);

    let found = events.iter().any(|e| {
        matches!(
            e,
            ParsedEvent::StateChange(StateEvent::ToolUseStarted { tool_name }) if tool_name == "Read"
        )
    });
    assert!(found);
}

#[test]
fn test_parse_result() {
    let mut parser = StreamParser::new();
    let line = r#"{"type":"result","subtype":"success","result":"Done!","session_id":"test-123"}"#;

    let events = parser.parse_line(line).unwrap();

    let found = events.iter().any(|e| {
        matches!(
            e,
            ParsedEvent::StateChange(StateEvent::TaskCompleted { output }) if output == "Done!"
        )
    });
    assert!(found);
}

#[test]
fn blank_lines_give_no_events() {
    let mut parser = StreamParser::new();
    assert!(parser.parse_line("").unwrap().is_empty());
    assert!(parser.parse_line("   \t ").unwrap().is_empty());
}

#[test]
fn a_bad_line_is_an_error_and_leaves_the_parser_usable() {
    let mut parser = StreamParser::new();
    parser
        .parse_line(r#"{"type":"tool_use","id":"t1","name":"Read","input":{}}"#)
        .unwrap();
    assert!(matches!(parser.parse_line("{not json"), Err(ParseError::Json(_))));
    assert!(matches!(
        parser.parse_line(r#"{"type":"nonsense"}"#),
        Err(ParseError::InvalidFormat(_))
    ));
    assert!(matches!(
        parser.parse_line(r#"{"type":"tool_use","id":"t1"}"#),
        Err(ParseError::InvalidFormat(_))
    ));
    assert!(matches!(parser.parse_line(r#"[1,2]"#), Err(ParseError::InvalidFormat(_))));
    let events = parser
        .parse_line(r#"{"type":"tool_result","tool_use_id":"t1","content":"ok"}"#)
        .unwrap();
    match &events[0] {
        ParsedEvent::StateChange(StateEvent::ToolUseCompleted { tool_name, success }) => {
            assert_eq!(tool_name, "Read");
            assert!(*success);
        }
        _ => panic!("expected ToolUseCompleted"),
    }
}

#[test]
fn system_events_other_than_init_and_user_echoes_give_nothing() {
    let mut parser = StreamParser::new();
    assert!(parser.parse_line(r#"{"type":"system","subtype":"other"}"#).unwrap().is_empty());
    assert!(parser
        .parse_line(r#"{"type":"user","message":{"role":"user","content":"hi"}}"#)
        .unwrap()
        .is_empty());
}

#[test]
fn assistant_text_blocks_become_text_outputs() {
    let mut parser = StreamParser::new();
    let line = r#"{"type":"assistant","message":{"id":"m1","type":"message","role":"assistant","model":"x","content":[{"type":"text","text":"one"},{"type":"thinking","thinking":"hm"},{"type":"text","text":""},{"type":"tool_use","id":"t","name":"Read","input":{}},{"type":"tool_result","tool_use_id":"t","content":"ok"},{"type":"text","text":"two"}],"stop_reason":null,"usage":{"input_tokens":3,"output_tokens":4,"cache_read_input_tokens":5}}}"#;
    let events = parser.parse_line(line).unwrap();
    assert_eq!(events.len(), 3);
    assert!(matches!(
        &events[0],
        ParsedEvent::StateChange(StateEvent::TaskStarted { prompt }) if prompt.is_empty()
    ));
    assert!(matches!(&events[1], ParsedEvent::TextOutput(t) if t == "one"));
    assert!(matches!(&events[2], ParsedEvent::TextOutput(t) if t == "two"));
    let empty = parser
        .parse_line(r#"{"type":"assistant","message":{"id":"m1","type":"message","role":"assistant","model":"x","content":[]}}"#)
        .unwrap();
    assert!(empty.is_empty());
}

#[test]
fn tool_use_reports_the_call_with_its_input() {
    let mut parser = StreamParser::new();
    let events = parser
        .parse_line(r#"{"type":"tool_use","id":"t1","name":"Read","input":{"file_path":"/x"}}"#)
        .unwrap();
    assert_eq!(events.len(), 2);
    match &events[1] {
        ParsedEvent::ToolExecution { name, input, result, is_error } => {
            assert_eq!(name, "Read");
            assert_eq!(input["file_path"], "/x");
            assert!(result.is_none());
            assert!(!*is_error);
        }
        _ => panic!("expected ToolExecution"),
    }
}

#[test]
fn a_failed_tool_result_reports_completion_error_and_result() {
    let mut parser = StreamParser::new();
    parser
        .parse_line(r#"{"type":"tool_use","id":"t1","name":"Bash","input":{}}"#)
        .unwrap();
    let events = parser
        .parse_line(r#"{"type":"tool_result","tool_use_id":"t1","content":"exit 1","is_error":true}"#)
        .unwrap();
    assert_eq!(events.len(), 3);
    assert!(matches!(
        &events[0],
        ParsedEvent::StateChange(StateEvent::ToolUseCompleted { tool_name, success: false })
            if tool_name == "Bash"
    ));
    assert!(matches!(
        &events[1],
        ParsedEvent::StateChange(StateEvent::ErrorOccurred { message, recoverable: true })
            if message == "exit 1"
    ));
    match &events[2] {
        ParsedEvent::ToolExecution { name, result, is_error, .. } => {
            assert_eq!(name, "Bash");
            assert_eq!(result.as_deref(), Some("exit 1"));
            assert!(*is_error);
        }
        _ => panic!("expected ToolExecution"),
    }
    let later = parser
        .parse_line(r#"{"type":"tool_result","tool_use_id":"t9","content":"x"}"#)
        .unwrap();
    assert!(matches!(
        &later[0],
        ParsedEvent::StateChange(StateEvent::ToolUseCompleted { tool_name, .. })
            if tool_name == "unknown"
    ));
}

#[test]
fn each_permission_phrase_asks_for_permission() {
    for phrase in ["requires approval", "Do you want to proceed", "permission denied", "not allowed"]
    {
        let mut parser = StreamParser::new();
        assert!(parser.is_permission_error(phrase));
        parser
            .parse_line(r#"{"type":"tool_use","id":"t2","name":"Bash","input":{}}"#)
            .unwrap();
        let line = format!(
            r#"{{"type":"tool_result","tool_use_id":"t2","content":"x {} y","is_error":true}}"#,
            phrase
        );
        let events = parser.parse_line(&line).unwrap();
        assert_eq!(events.len(), 1);
        match &events[0] {
            ParsedEvent::StateChange(StateEvent::PermissionRequired {
                tool_name,
                tool_input,
                request_id,
            }) => {
                assert_eq!(tool_name, "Bash");
                assert_eq!(request_id, "t2");
                assert!(tool_input.as_object().unwrap().is_empty());
            }
            _ => panic!("expected PermissionRequired"),
        }
    }
    let parser = StreamParser::new();
    assert!(!parser.is_permission_error("all fine"));
}

#[test]
fn a_permission_phrase_without_error_is_a_plain_result() {
    let mut parser = StreamParser::new();
    let events = parser
        .parse_line(r#"{"type":"tool_result","tool_use_id":"t2","content":"not allowed","is_error":false}"#)
        .unwrap();
    assert_eq!(events.len(), 2);
}

#[test]
fn results_report_progress() {
    let mut parser = StreamParser::new();
    let ok = parser
        .parse_line(r#"{"type":"result","subtype":"success","result":"done","duration_ms":1234}"#)
        .unwrap();
    assert_eq!(ok.len(), 2);
    match &ok[1] {
        ParsedEvent::Progress { message, percentage } => {
            assert_eq!(message, "Completed in Some(1234)ms");
            assert_eq!(*percentage, Some(100));
        }
        _ => panic!("expected Progress"),
    }
    let failed = parser.parse_line(r#"{"type":"result","subtype":"error"}"#).unwrap();
    assert!(matches!(
        &failed[0],
        ParsedEvent::StateChange(StateEvent::ErrorOccurred { message, recoverable: true })
            if message.is_empty()
    ));
    match &failed[1] {
        ParsedEvent::Progress { message, percentage } => {
            assert_eq!(message, "Error after Nonems");
            assert_eq!(*percentage, Some(0));
        }
        _ => panic!("expected Progress"),
    }
    let flagged = parser.parse_line(r#"{"type":"result","result":"r","is_error":true}"#).unwrap();
    assert!(matches!(
        &flagged[0],
        ParsedEvent::StateChange(StateEvent::ErrorOccurred { message, .. }) if message == "r"
    ));
}

#[test]
fn errors_are_recoverable_unless_fatal() {
    let mut parser = StreamParser::new();
    let soft = parser
        .parse_line(r#"{"type":"error","error":{"type":"rate_limit","message":"slow down"}}"#)
        .unwrap();
    assert!(matches!(
        &soft[0],
        ParsedEvent::StateChange(StateEvent::ErrorOccurred { message, recoverable: true })
            if message == "slow down"
    ));
    let hard = parser
        .parse_line(r#"{"type":"error","error":{"type":"fatal_error","message":"dead"}}"#)
        .unwrap();
    assert!(matches!(
        &hard[0],
        ParsedEvent::StateChange(StateEvent::ErrorOccurred { recoverable: false, .. })
    ));
}

#[test]
fn the_first_session_id_is_remembered() {
    let mut parser = StreamParser::new();
    assert!(parser.session_id().is_none());
    parser.parse_line(r#"{"type":"system","subtype":"init","session_id":"s1"}"#).unwrap();
    assert_eq!(parser.session_id().as_deref(), Some("s1"));
    parser.parse_line(r#"{"type":"system","subtype":"init","session_id":"s2"}"#).unwrap();
    assert_eq!(parser.session_id().as_deref(), Some("s1"));
}

#[test]
fn parse_error_messages() {
    assert_eq!(ParseError::Json("x".to_string()).message(), "JSON parse error: x");
    assert_eq!(ParseError::Io("x".to_string()).message(), "IO error: x");
    assert_eq!(ParseError::InvalidFormat("x".to_string()).message(), "Invalid event format: x");
}

#[test]
fn optional_members_may_be_null_but_not_of_another_type() {
    let mut parser = StreamParser::new();
    let events = parser
        .parse_line(r#"{"type":"result","subtype":null,"result":"x","session_id":null,"duration_ms":null}"#)
        .unwrap();
    assert!(matches!(
        &events[0],
        ParsedEvent::StateChange(StateEvent::TaskCompleted { output }) if output == "x"
    ));
    assert!(matches!(
        &events[1],
        ParsedEvent::Progress { message, .. } if message == "Completed in Nonems"
    ));
    for bad in [
        r#"{"type":"system","subtype":"init","session_id":5}"#,
        r#"{"type":"result","is_error":null}"#,
        r#"{"type":"result","is_error":"yes"}"#,
        r#"{"type":"result","duration_ms":-3}"#,
        r#"{"type":"result","duration_ms":1.5}"#,
        r#"{"type":"tool_result","tool_use_id":"t","content":["x"]}"#,
        r#"{"type":"assistant","message":{"id":"m","type":"message","role":"a","model":"x","content":[{"type":"text"}]}}"#,
        r#"{"type":"assistant","message":{"id":"m","type":"message","role":"a","model":"x","content":[{"type":"image"}]}}"#,
        r#"{"type":"assistant","message":{"id":"m","type":"message","role":"a","model":"x","content":"text"}}"#,
        r#"{"type":"assistant","message":{"id":"m","type":"message","role":"a","content":[]}}"#,
        r#"{"type":"assistant","message":{"id":"m","type":"message","role":"a","model":"x","content":[],"usage":{"input_tokens":1}}}"#,
        r#"{"type":"assistant","message":{"id":"m","type":"message","role":"a","model":"x","content":[{"type":"thinking","thinking":"t","signature":1}]}}"#,
        r#"{"type":"assistant","message":{"id":"m","type":"message","role":"a","model":"x","content":[{"type":"tool_use","id":"t","name":"n"}]}}"#,
        r#"{"type":"user","message":{"role":"user"}}"#,
        r#"{"type":"user"}"#,
        r#"{"type":"system","subtype":"init","tools":["a",1]}"#,
        r#"{"type":"system","subtype":"init","tools":null}"#,
        r#"{"type":"result","num_turns":4294967296}"#,
        r#"{"type":"result","cost_usd":"free"}"#,
        r#"{"type":"result","permission_denials":{}}"#,
        r#"{"type":"error","error":{"type":"x"}}"#,
        r#"{"type":7}"#,
    ] {
        assert!(matches!(parser.parse_line(bad), Err(ParseError::InvalidFormat(_))), "{}", bad);
    }
    parser.parse_line(r#"{"type":"system","subtype":"init","session_id":null}"#).unwrap();
    assert!(parser.session_id().is_none());
}

#[test]
fn a_stream_is_parsed_up_to_its_first_bad_line() {
    let lines: Vec<String> = vec![
        r#"{"type":"system","subtype":"init"}"#.to_string(),
        "".to_string(),
        r#"{"type":"tool_use","id":"t1","name":"Read","input":{}}"#.to_string(),
        "oops".to_string(),
        r#"{"type":"result","result":"never seen"}"#.to_string(),
    ];
    let mut parser = StreamParser::new();
    let (events, error) = parser.parse_stream(&lines);
    assert_eq!(events.len(), 3);
    assert!(matches!(error, Some(ParseError::Json(_))));
    let mut parser = StreamParser::new();
    let (events, error) = parser.parse_stream(&lines[..3].to_vec());
    assert_eq!(events.len(), 3);
    assert!(error.is_none());
    let (events, error) = parser.parse_stream(&vec![]);
    assert!(events.is_empty() && error.is_none());
}

#[test]
fn members_that_the_mapping_does_not_read_are_still_decoded() {
    let v: serde_json::Value = serde_json::from_str(r#"{"type":"system","subtype":"init","session_id":"s","model":"m","cwd":"/w","tools":["Read","Bash"],"permission_mode":"default","extra":1}"#).unwrap();
    match decode_event(&v).unwrap() {
        StreamEvent::System { subtype, session_id, model, cwd, tools, permission_mode } => {
            assert_eq!(subtype, "init");
            assert_eq!(session_id.as_deref(), Some("s"));
            assert_eq!(model.as_deref(), Some("m"));
            assert_eq!(cwd.as_deref(), Some("/w"));
            assert_eq!(tools, vec!["Read", "Bash"]);
            assert_eq!(permission_mode.as_deref(), Some("default"));
        }
        _ => panic!("expected System"),
    }
    let v: serde_json::Value = serde_json::from_str(r#"{"type":"result","subtype":"success","result":"r","cost_usd":0.25,"total_cost_usd":1,"duration_ms":10,"duration_api_ms":7,"num_turns":2,"permission_denials":[{"tool":"Bash"}]}"#).unwrap();
    match decode_event(&v).unwrap() {
        StreamEvent::Result { duration_ms, duration_api_ms, num_turns, permission_denials, .. } => {
            assert_eq!(duration_ms, Some(10));
            assert_eq!(duration_api_ms, Some(7));
            assert_eq!(num_turns, Some(2));
            assert_eq!(permission_denials.len(), 1);
            assert_eq!(permission_denials[0]["tool"], "Bash");
        }
        _ => panic!("expected Result"),
    }
    let v: serde_json::Value = serde_json::from_str(r#"{"type":"assistant","message":{"id":"m1","type":"message","role":"assistant","model":"x","content":[{"type":"thinking","thinking":"t"},{"type":"tool_result","tool_use_id":"u","content":"c","is_error":true}],"stop_reason":"end_turn","usage":{"input_tokens":3,"output_tokens":4}}}"#).unwrap();
    match decode_event(&v).unwrap() {
        StreamEvent::Assistant { message } => {
            assert_eq!(message.id, "m1");
            assert_eq!(message.msg_type, "message");
            assert_eq!(message.role, "assistant");
            assert_eq!(message.model, "x");
            assert_eq!(message.stop_reason.as_deref(), Some("end_turn"));
            let usage = message.usage.unwrap();
            assert_eq!((usage.input_tokens, usage.output_tokens), (3, 4));
            assert_eq!(usage.cache_creation_input_tokens, None);
            assert!(matches!(&message.content[0], ContentBlock::Thinking { thinking, signature }
                if thinking == "t" && signature.is_empty()));
            assert!(matches!(&message.content[1], ContentBlock::ToolResult { is_error: true, .. }));
        }
        _ => panic!("expected Assistant"),
    }
    let v: serde_json::Value = serde_json::from_str(r#"{"type":"user","message":{"role":"user","content":"hi"}}"#).unwrap();
    assert!(matches!(decode_event(&v), Some(StreamEvent::User { message })
        if message.role == "user" && message.content == "hi"));
    assert!(decode_event(&serde_json::Value::Null).is_none());
}
