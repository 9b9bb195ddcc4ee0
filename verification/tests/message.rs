use acp_core::message::{
    ACPEnvelope, ACPFrame, ACPMessage, ACPMessageV3, Address, AddressType, AgentAddress,
    CapabilityFilter, EnvelopeMetadata, MessagePayload, MessageType, PipelineStage, Priority,
    ACP_VERSION,
};

#[test]
fn test_message_creation() {
    let msg = ACPMessage::prompt("agent-a", "agent-b", "Hello!");
    assert_eq!(msg.message_type, MessageType::Prompt);
    assert_eq!(msg.from, "agent-a");
    assert_eq!(msg.payload.content, "Hello!");
}

#[test]
fn test_message_v3_creation() {
    let msg = ACPMessageV3::prompt("agent-a", "agent-b", "Hello v3!");
    assert_eq!(msg.message_type, MessageType::Prompt);
    assert_eq!(msg.from.id, "agent-a");
    assert_eq!(msg.payload.content, "Hello v3!");
}

#[test]
fn test_agent_address() {
    let addr = AgentAddress::parse("code-agent@localhost/main").unwrap();
    assert_eq!(addr.id, "code-agent@localhost");
    assert_eq!(addr.instance, Some("main".to_string()));

    let simple = AgentAddress::parse("simple-agent").unwrap();
    assert_eq!(simple.id, "simple-agent");
    assert_eq!(simple.instance, None);
}

#[test]
fn test_address_type_single() {
    let addr = AddressType::single("agent-1");
    match addr {
        AddressType::Single { address } => assert_eq!(address.id, "agent-1"),
        _ => panic!("Expected Single address type"),
    }
}

#[test]
fn test_address_type_broadcast_with_filter() {
    let filter = CapabilityFilter::new()
        .with_capabilities(vec!["translation".into()])
        .with_tags(vec!["multilingual".into()]);
    let addr = AddressType::broadcast_with_filter(filter);
    match addr {
        AddressType::Broadcast { filter: Some(f) } => {
            assert_eq!(f.capabilities, Some(vec!["translation".to_string()]));
        }
        _ => panic!("Expected Broadcast address type"),
    }
}

#[test]
fn test_pipeline_stage() {
    let stage = PipelineStage::new("translate", AgentAddress::new("translator@local"))
        .with_prompt_template("Translate: {{input}}");
    assert_eq!(stage.name, "translate");
    assert_eq!(stage.prompt_template, Some("Translate: {{input}}".to_string()));
}

#[test]
fn test_envelope_creation() {
    let msg = ACPMessageV3::prompt("agent-a", "agent-b", "Test");
    let envelope = msg.into_envelope();
    assert_eq!(envelope.protocol, "ACP/3.0");
}

#[test]
fn test_frame_encoding_decoding() {
    let json = r#"{"from":"agent-a","to":"agent-b","content":"Test message"}"#;
    let encoded = ACPFrame::encode(json);
    assert!(encoded.starts_with("<ACP>"));
    assert!(encoded.ends_with("</ACP>"));

    let parsed = ACPFrame::parse(&encoded);
    assert_eq!(parsed.len(), 1);
    assert_eq!(parsed[0], json);
}

#[test]
fn test_message_type_v3_extended() {
    let msg = ACPMessageV3::stream("agent-a", "agent-b", "chunk", "corr-1");
    assert_eq!(msg.message_type, MessageType::Stream);

    let cancel = ACPMessageV3::cancel("agent-a", "agent-b", "task-123");
    assert_eq!(cancel.message_type, MessageType::Cancel);

    let question = ACPMessageV3::question("agent-a", "agent-b", "What is this?");
    assert_eq!(question.message_type, MessageType::Question);
}

#[test]
fn test_legacy_to_v3_conversion() {
    let legacy = ACPMessage::prompt("agent-a", "agent-b", "Convert me");
    let v3 = legacy.to_v3();

    assert_eq!(v3.id, legacy.id);
    assert_eq!(v3.from.id, "agent-a");
    assert_eq!(v3.message_type, MessageType::Prompt);
}

#[test]
fn frames_are_found_in_order_and_unclosed_frames_end_the_search() {
    let out = "noise<ACP>one</ACP>more<ACP>two</ACP><ACP>open";
    assert_eq!(ACPFrame::parse(out), vec!["one", "two"]);
    assert!(ACPFrame::parse("nothing here").is_empty());
    assert!(ACPFrame::parse("</ACP><ACP>").is_empty());
    assert_eq!(ACPFrame::parse("<ACP></ACP>"), vec![""]);
    assert_eq!(ACPFrame::encode(""), "<ACP></ACP>");
}

#[test]
fn addresses_read_and_write() {
    let a = AgentAddress::new("x@h").with_instance("i");
    assert_eq!(a.to_address_string(), "x@h/i");
    assert_eq!(AgentAddress::new("x").to_address_string(), "x");
    let b = AgentAddress::parse("a/b/c").unwrap();
    assert_eq!(b.id, "a");
    assert_eq!(b.instance.as_deref(), Some("b/c"));
    let c = AgentAddress::parse("a/").unwrap();
    assert_eq!(c.instance.as_deref(), Some(""));
    assert_eq!(AgentAddress::parse(&a.to_address_string()).unwrap(), a);
    assert_eq!(a.clone(), a);
}

#[test]
fn address_types_name_their_recipients() {
    let many = AddressType::multiple(vec!["a".into(), "b".into()]);
    let names: Vec<String> = many.recipients().iter().map(|r| r.id.clone()).collect();
    assert_eq!(names, vec!["a", "b"]);
    assert_eq!(AddressType::single("s").recipients().len(), 1);
    assert!(AddressType::broadcast().recipients().is_empty());
    assert!(AddressType::pipeline(vec![]).recipients().is_empty());
    let legacy = Address::multiple(vec!["x".into(), "y".into(), "z".into()]);
    assert_eq!(legacy.recipients().len(), 3);
    assert_eq!(legacy.to_v3().recipients().len(), 3);
    assert_eq!(Address::single("q").recipients(), vec!["q"]);
    assert!(matches!(Address::single("q").to_v3(), AddressType::Single { address } if address.id == "q"));
    assert_eq!(many.clone().recipients().len(), 2);
}

#[test]
fn message_builders_set_kind_route_and_metadata() {
    let r = ACPMessageV3::response("a", "b", "c", "corr");
    assert_eq!(r.message_type, MessageType::Response);
    assert_eq!(r.metadata.as_ref().unwrap().correlation_id.as_deref(), Some("corr"));
    let a = ACPMessageV3::answer("a", "b", "c", "q1");
    assert_eq!(a.message_type, MessageType::Answer);
    let d = ACPMessageV3::discover("a");
    assert_eq!(d.message_type, MessageType::Discover);
    assert!(matches!(d.to, AddressType::Broadcast { filter: None }));
    assert_eq!(d.payload.content, "");
    let e = ACPMessageV3::error("a", "b", "bad");
    assert_eq!(e.message_type, MessageType::Error);
    assert_eq!(e.payload.content, "bad");
    let c = ACPMessageV3::cancel("a", "b", "task-1");
    assert_eq!(c.payload.data.as_ref().unwrap()["task_id"], "task-1");
    let b = ACPMessageV3::broadcast("a", "all", Some(CapabilityFilter::new().with_agent_type("x")));
    assert!(matches!(&b.to, AddressType::Broadcast { filter: Some(f) } if f.agent_type.as_deref() == Some("x")));
    let adv = ACPMessageV3::advertise("a", serde_json::Value::Bool(true));
    assert_eq!(adv.message_type, MessageType::Advertise);
    assert_eq!(adv.payload.data, Some(serde_json::Value::Bool(true)));
    let ps = ACPMessageV3::pipeline_start("a", vec![PipelineStage::new("s", AgentAddress::new("x"))]);
    assert_eq!(ps.message_type, MessageType::PipelineStart);
    assert!(matches!(&ps.to, AddressType::Pipeline { stages } if stages.len() == 1));
    let st = ACPMessageV3::pipeline_stage("a", "s", serde_json::Value::from(3u64));
    assert_eq!(st.payload.data.as_ref().unwrap()["stage"], "s");
    assert_eq!(st.payload.data.as_ref().unwrap()["result"], 3);
    let m = ACPMessageV3::prompt("a", "b", "c")
        .with_priority(Priority::High)
        .with_ttl(30)
        .with_trace_id("t");
    let meta = m.metadata.unwrap();
    assert_eq!(meta.priority, Some(Priority::High));
    assert_eq!(meta.ttl, Some(30));
    assert_eq!(meta.trace_id.as_deref(), Some("t"));
    assert!(meta.correlation_id.is_none());
    assert_ne!(ACPMessageV3::prompt("a", "b", "c").id, ACPMessageV3::prompt("a", "b", "c").id);
}

#[test]
fn legacy_message_builders() {
    let r = ACPMessage::response("a", "b", "c", "corr").with_priority(Priority::Urgent);
    let meta = r.metadata.as_ref().unwrap();
    assert_eq!(meta.correlation_id.as_deref(), Some("corr"));
    assert_eq!(meta.priority, Some(Priority::Urgent));
    assert_eq!(ACPMessage::broadcast("a", "x").to.recipients().len(), 0);
    assert_eq!(ACPMessage::discover("a").message_type, MessageType::Discover);
    assert_eq!(ACPMessage::error("a", "b", "e").message_type, MessageType::Error);
    assert_eq!(
        ACPMessage::advertise("a", serde_json::Value::Null).message_type,
        MessageType::Advertise
    );
    let m = ACPMessage::prompt("x/i", "b", "c").with_ttl(5).with_trace_id("t");
    let v3 = m.to_v3();
    assert_eq!(v3.from.id, "x");
    assert_eq!(v3.from.instance.as_deref(), Some("i"));
    assert_eq!(v3.timestamp, m.timestamp);
    assert_eq!(v3.metadata.as_ref().unwrap().ttl, Some(5));
    let env = m.into_envelope();
    assert_eq!(env.protocol, ACP_VERSION);
    assert!(env.metadata.is_none());
}

#[test]
fn envelope_metadata_builders() {
    let meta = EnvelopeMetadata::new()
        .with_priority(Priority::Low)
        .with_ttl(9)
        .with_trace_id("t")
        .with_correlation_id("c");
    assert_eq!(meta.priority, Some(Priority::Low));
    assert_eq!(meta.ttl, Some(9));
    assert_eq!(meta.trace_id.as_deref(), Some("t"));
    assert_eq!(meta.correlation_id.as_deref(), Some("c"));
    let env = ACPEnvelope::new(ACPMessageV3::prompt("a", "b", "c")).with_metadata(meta);
    assert_eq!(env.metadata.unwrap().ttl, Some(9));
    assert_eq!(Priority::default(), Priority::Normal);
    let p = MessagePayload::new("c").with_data(serde_json::Value::Null);
    assert_eq!(p.content, "c");
    assert!(p.data.is_some());
}
