use acp_core::adapter::{
    AdapterError, AgentExecutionStatus, ClaudeCodeInputConverter, SharedContext, StreamChunk,
    TaskPayload, TaskRequest, TaskResult,
};
use acp_core::agent::{
    AgentCapabilities, AgentCard, Authentication, DiscoveryQuery, JSONSchema, Provider, Skill,
    Transport, A2A_PROTOCOL_VERSION,
};
use acp_core::message::CapabilityFilter;
use acp_core::parser::content_hash;

#[test]
fn test_task_request() {
    let request = TaskRequest::new("Translate this text");
    assert!(!request.task_id.is_empty());
    assert_eq!(request.payload.content, "Translate this text");
    assert!(request.context.is_none());
}

#[test]
fn test_shared_context() {
    let mut context = SharedContext::new();
    context.add_entry("agent-1".into(), "First message".into());

    assert_eq!(context.conversation_history.len(), 1);
    assert_eq!(context.conversation_history[0].agent_id, "agent-1");
}

#[test]
fn test_stream_chunk() {
    let chunk = StreamChunk::new("Hello");
    assert_eq!(chunk.text, "Hello");
    assert!(!chunk.is_final);

    let final_chunk = StreamChunk::final_chunk("Done");
    assert!(final_chunk.is_final);
}

#[test]
fn test_input_converter() {
    let converter = ClaudeCodeInputConverter;
    let task = TaskPayload::new("Hello, agent!");
    let result = converter.convert_input(&task).unwrap();
    assert_eq!(result, "Hello, agent!");
}

#[test]
fn test_context_embedding() {
    let converter = ClaudeCodeInputConverter;
    let mut context = SharedContext::new();
    context.add_entry("agent-1".into(), "Previous work".into());
    context.shared_files.push("file.rs".into());

    let prompt = "Do something";
    let result = converter.embed_context(prompt, &context);

    assert!(result.contains("Related Files"));
    assert!(result.contains("file.rs"));
    assert!(result.contains("Previous Context"));
    assert!(result.contains("Previous work"));
    assert!(result.contains(prompt));
}

#[test]
fn test_agent_card_a2a_compliant() {
    let card = AgentCard::claude_code("main");

    assert_eq!(card.protocol_version, A2A_PROTOCOL_VERSION);
    assert!(card.description.is_some());
    assert!(card.provider.is_some());
    assert!(card.capabilities.is_some());
    assert!(card.skills.is_some());
}

#[test]
fn test_skill_creation() {
    let skill = Skill::new("translation", "Translation")
        .with_description("Translate text between languages")
        .with_tags(vec!["multilingual".to_string()])
        .with_examples(vec!["Translate this to Japanese".to_string()]);

    assert_eq!(skill.id, "translation");
    assert!(skill.has_tag("multilingual"));
}

#[test]
fn test_agent_capabilities() {
    let caps = AgentCapabilities::new()
        .with_streaming(true)
        .with_push_notifications(false)
        .with_state_transition_history(true);

    assert!(caps.streaming);
    assert!(!caps.push_notifications);
    assert!(caps.state_transition_history);
}

#[test]
fn test_discovery_query() {
    let card = AgentCard::claude_code("test");

    let query = DiscoveryQuery::new().with_capabilities(vec!["translation".into()]);
    assert!(query.matches(&card));

    let query = DiscoveryQuery::new().with_streaming(true);
    assert!(query.matches(&card));

    let query = DiscoveryQuery::new().with_agent_type("code");
    assert!(query.matches(&card));
}

#[test]
fn test_matches_filter() {
    let card = AgentCard::claude_code("test");

    let filter = CapabilityFilter::new().with_capabilities(vec!["translation".into()]);
    assert!(card.matches_filter(&filter));

    let filter = CapabilityFilter::new().with_tags(vec!["multilingual".into()]);
    assert!(card.matches_filter(&filter));
}

#[test]
fn test_content_hash_different() {
    let hash1 = content_hash("content 1");
    let hash2 = content_hash("content 2");
    assert_ne!(hash1, hash2);
}

#[test]
fn test_content_hash_same() {
    let hash1 = content_hash("same content");
    let hash2 = content_hash("same content");
    assert_eq!(hash1, hash2);
}

#[test]
fn the_embedded_context_has_a_fixed_layout() {
    let converter = ClaudeCodeInputConverter;
    let mut context = SharedContext::new().with_files(vec!["a.rs".into(), "b.rs".into()]);
    assert_eq!(
        converter.embed_context("go", &context),
        "## Related Files\n\n- a.rs\n- b.rs\n\n---\n\ngo"
    );
    context.add_entry_at("x".into(), "did it".into(), 7);
    assert_eq!(context.conversation_history[0].timestamp, 7);
    assert_eq!(
        converter.embed_context("go", &context),
        "## Related Files\n\n- a.rs\n- b.rs\n\n## Previous Context\n\n> [x] did it\n\n---\n\ngo"
    );
    assert_eq!(converter.embed_context("go", &SharedContext::new()), "go");
}

#[test]
fn cards_of_the_built_in_agents() {
    let card = AgentCard::claude_code("main");
    assert_eq!(card.name, "Code Agent (main)");
    assert_eq!(card.id.as_deref(), Some("code-agent@localhost/main"));
    assert_eq!(card.url, "acp://code-agent@localhost/main");
    assert_eq!(card.transport, Some(Transport::Pty));
    assert_eq!(card.authentication.as_ref().unwrap().schemes, vec!["none"]);
    assert_eq!(card.skills.as_ref().unwrap().len(), 6);
    assert!(card.has_skill("summarization"));
    assert!(!card.has_skill("debugging"));
    assert!(card.has_skill_with_tag("code-generation", "coding"));
    assert!(!card.has_skill_with_tag("translation", "coding"));
    assert!(card.has_any_skill(&vec!["x".to_string(), "writing".to_string()]));
    assert!(!card.has_any_skill(&vec!["x".to_string()]));
    assert!(card.has_all_skills(&vec![]));
    assert!(card.has_all_skills(&vec!["analysis".to_string(), "writing".to_string()]));
    assert!(!card.has_all_skills(&vec!["analysis".to_string(), "x".to_string()]));
    let codex = AgentCard::codex("c1");
    assert_eq!(codex.name, "Codex (c1)");
    assert_eq!(codex.version, "1.0.0");
    assert_eq!(codex.skills.as_ref().unwrap().len(), 3);
    assert!(codex.has_skill("debugging"));
    assert_eq!(codex.provider.as_ref().unwrap().url.as_deref(), Some("https://openai.com"));
}

#[test]
fn queries_and_filters_reject_what_does_not_match() {
    let card = AgentCard::claude_code("test");
    assert!(!DiscoveryQuery::new().with_push_notifications(true).matches(&card));
    assert!(DiscoveryQuery::new().with_push_notifications(false).matches(&card));
    assert!(!DiscoveryQuery::new().with_capabilities(vec!["nope".into()]).matches(&card));
    assert!(!DiscoveryQuery::new().with_tags(vec!["nope".into()]).matches(&card));
    assert!(DiscoveryQuery::new().with_tags(vec!["nope".into(), "content".into()]).matches(&card));
    assert!(DiscoveryQuery::new().with_agent_type("CODE-AGENT@").matches(&card));
    assert!(!DiscoveryQuery::new().with_agent_type("codex").matches(&card));
    assert!(DiscoveryQuery::new().with_transport(Transport::Pty).matches(&card));
    assert!(!DiscoveryQuery::new().with_transport(Transport::Http).matches(&card));
    let bare = AgentCard::new("Bare", "u");
    assert!(DiscoveryQuery::new().matches(&bare));
    assert!(!DiscoveryQuery::new().with_streaming(true).matches(&bare));
    assert!(!bare.matches_filter(&CapabilityFilter::new().with_tags(vec!["t".into()])));
    assert!(bare.matches_filter(&CapabilityFilter::new().with_agent_type("bar")));
    let q = DiscoveryQuery::new()
        .with_capabilities(vec!["a".into()])
        .with_tags(vec!["t".into()])
        .with_agent_type("x");
    let f = q.to_capability_filter();
    assert_eq!(f.capabilities, Some(vec!["a".to_string()]));
    assert_eq!(f.tags, Some(vec!["t".to_string()]));
    assert_eq!(f.agent_type.as_deref(), Some("x"));
}

#[test]
fn small_builders() {
    assert_eq!(Authentication::api_key().schemes, vec!["apiKey"]);
    assert_eq!(Authentication::oauth2().schemes, vec!["OAuth2"]);
    assert_eq!(Authentication::new(vec!["a".into()]).schemes, vec!["a"]);
    let p = Provider::new("Org").with_url("https://o");
    assert_eq!(p.organization, "Org");
    assert_eq!(p.url.as_deref(), Some("https://o"));
    let s = JSONSchema::simple("string").with_description("d").with_required(vec!["r".into()]);
    assert_eq!(s.schema_type.as_deref(), Some("string"));
    assert_eq!(s.description.as_deref(), Some("d"));
    assert_eq!(s.required, Some(vec!["r".to_string()]));
    let o = JSONSchema::object(serde_json::Value::Object(Default::default()));
    assert_eq!(o.schema_type.as_deref(), Some("object"));
    let card = AgentCard::new("n", "u")
        .with_skill(Skill::new("a", "A").with_input_schema(s).with_output_schema(o))
        .with_skill(Skill::new("b", "B").with_input_modes(vec![]).with_output_modes(vec![]))
        .with_version("2");
    assert_eq!(card.skills.as_ref().unwrap().len(), 2);
    assert_eq!(card.version, "2");
    let t = TaskResult::new("out").with_metadata(serde_json::Value::Null);
    assert_eq!(t.output, "out");
    assert!(t.metadata.is_some());
    let r = TaskRequest::new("c").with_context(SharedContext::new());
    assert!(r.context.is_some());
    assert!(TaskPayload::new("c").with_data(serde_json::Value::Null).data.is_some());
    assert_eq!(AdapterError::NotReady.message(), "Agent not ready");
    assert_eq!(AdapterError::Cancelled.message(), "Task cancelled");
    assert_eq!(AdapterError::Timeout("t".into()).message(), "Timeout: t");
    assert_eq!(AdapterError::InvalidInput("i".into()).message(), "Invalid input: i");
    assert_eq!(
        AdapterError::InitializationFailed("x".into()).message(),
        "Initialization failed: x"
    );
    assert_eq!(
        AdapterError::CommunicationFailed("x".into()).message(),
        "Communication failed: x"
    );
    assert_eq!(
        AdapterError::TaskExecutionFailed("x".into()).message(),
        "Task execution failed: x"
    );
    assert_ne!(AgentExecutionStatus::Idle, AgentExecutionStatus::Shutdown);
}
