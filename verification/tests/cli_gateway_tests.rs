use m_claw::channels::{ChannelSource, MessageContent, Sender, WebhookResponse};
use m_claw::cli::{agent_dirs, resolve_agent_config, truncate, StreamCollector};
use m_claw::config::{
    AgentConfig, AppConfig, ChannelConfig, MemoryConfig, ProviderConfig, ProviderKind, SkillsConfig,
};
use m_claw::gateway::{
    channel_reply, chat_input, completion_response, error_json, health_json, incoming_text, route_webhook,
    status_json, webhook_reply, ChatCompletionRequest, ChatMessage,
};
use m_claw::json::Json;
use m_claw::llm::{FinishReason, StreamChunk, ToolCallDelta};
use m_claw::manager::UsageTracker;
use m_claw::message::ChannelKind;
use m_claw::registry::{check_provider_ids, provider_for_model, provider_index};
use m_claw::skills::{parse_skill_md, skill_name_from_path, SkillLoader, SkillMetadata};

fn agent(id: &str) -> AgentConfig {
    AgentConfig {
        id: id.to_string(),
        name: format!("Agent {id}"),
        model: "m".to_string(),
        provider: "p".to_string(),
        system_prompt: None,
        system_prompt_file: None,
        max_tokens: None,
        skills_dir: None,
        memory_dir: None,
    }
}

fn provider(id: &str, models: &[&str]) -> ProviderConfig {
    ProviderConfig {
        id: id.to_string(),
        kind: ProviderKind::OpenAI,
        base_url: "http://localhost".to_string(),
        api_key: "env:TEST_KEY".to_string(),
        models: models.iter().map(|m| m.to_string()).collect(),
    }
}

fn chunk(delta: &str, tc: Option<ToolCallDelta>, finish: Option<FinishReason>) -> StreamChunk {
    StreamChunk { delta: delta.to_string(), tool_call_delta: tc, finish_reason: finish }
}

fn delta(index: u32, id: Option<&str>, name: Option<&str>, args: Option<&str>) -> ToolCallDelta {
    ToolCallDelta {
        index,
        id: id.map(|s| s.to_string()),
        name: name.map(|s| s.to_string()),
        arguments_delta: args.map(|s| s.to_string()),
    }
}

#[test]
fn truncate_keeps_short_and_cuts_long() {
    assert_eq!(truncate("short", 10), "short");
    assert_eq!(truncate("abcdefghijkl", 8), "abcde...");
}

#[test]
fn resolve_agent_by_id_or_first() {
    let agents = vec![agent("a"), agent("b")];
    assert_eq!(resolve_agent_config(&agents, Some("b")).unwrap().id, "b");
    assert_eq!(resolve_agent_config(&agents, None).unwrap().id, "a");
    assert_eq!(resolve_agent_config(&agents, Some("z")).unwrap_err(), "Agent 'z' not found in configuration");
    assert_eq!(resolve_agent_config(&Vec::new(), None).unwrap_err(), "No agents defined in configuration");
}

#[test]
fn agent_dirs_prefer_the_agents_own() {
    let mut a = agent("a");
    a.skills_dir = Some("/own/skills".to_string());
    let dirs = agent_dirs(&a, &SkillsConfig::default(), &MemoryConfig::default());
    assert_eq!(dirs.skills_dir, "/own/skills");
    assert_eq!(dirs.memory_dir, MemoryConfig::default().path);
}

#[test]
fn stream_collector_gathers_text_and_tool_calls() {
    let mut c = StreamCollector::new();
    c.push(&chunk("Hello ", None, None));
    c.push(&chunk("world", Some(delta(1, Some("c2"), Some("grep"), Some("{\"p\":"))), None));
    c.push(&chunk("", Some(delta(0, Some("c1"), Some("bash"), Some("{}"))), None));
    c.push(&chunk("", Some(delta(1, None, None, Some("1}"))), None));
    c.push(&chunk("", Some(delta(2, None, None, Some("{}"))), Some(FinishReason::ToolCalls)));
    assert_eq!(c.char_count(), 11);
    assert_eq!(c.summary_line(), "  [11 chars, ~2 tokens]\n");
    let out = c.finish();
    assert_eq!(out.content, "Hello world");
    let calls = out.tool_calls.unwrap();
    assert_eq!(calls.len(), 2);
    assert_eq!(calls[0].id, "c1");
    assert_eq!(calls[1].function.name, "grep");
    assert_eq!(calls[1].function.arguments, "{\"p\":1}");
    assert!(matches!(out.finish_reason, Some(FinishReason::ToolCalls)));
}

#[test]
fn stream_collector_without_tool_calls() {
    let mut c = StreamCollector::new();
    c.push(&chunk("hi", None, Some(FinishReason::Stop)));
    let out = c.finish();
    assert!(out.tool_calls.is_none());
    assert_eq!(out.content, "hi");
}

#[test]
fn chat_input_is_last_message() {
    let req = ChatCompletionRequest {
        model: "gpt".to_string(),
        messages: vec![
            ChatMessage { role: "user".to_string(), content: "first".to_string() },
            ChatMessage { role: "user".to_string(), content: "second".to_string() },
        ],
        max_tokens: None,
        stream: None,
    };
    assert_eq!(chat_input(&req), "second");
    let empty = ChatCompletionRequest { model: "gpt".to_string(), messages: vec![], max_tokens: None, stream: None };
    assert_eq!(chat_input(&empty), "");
}

#[test]
fn completion_response_shape() {
    let r = completion_response("id-1".to_string(), 1700000000, "gpt".to_string(), "hello".to_string());
    assert_eq!(r.object, "chat.completion");
    assert_eq!(r.choices.len(), 1);
    assert_eq!(r.choices[0].message.role, "assistant");
    assert_eq!(r.choices[0].message.content, "hello");
    assert_eq!(r.choices[0].finish_reason, "stop");
    assert_eq!(r.usage.total_tokens, 0);
}

#[test]
fn webhook_case_insensitive() {
    let registered = vec![ChannelKind::Feishu];
    assert_eq!(route_webhook("FEISHU", &registered), Ok(ChannelKind::Feishu));
    assert_eq!(route_webhook("feishu", &registered), Ok(ChannelKind::Feishu));
}

#[test]
fn webhook_unknown_channel_returns_404() {
    let registered = vec![ChannelKind::Feishu];
    assert_eq!(route_webhook("slack", &registered), Err("Unknown channel: slack".to_string()));
}

#[test]
fn json_bodies() {
    match health_json() {
        Json::Object(e) => assert_eq!(e[0].0, "status"),
        _ => panic!("expected an object"),
    }
    match status_json(&vec!["feishu".to_string()], true) {
        Json::Object(e) => {
            assert_eq!(e.len(), 3);
            assert!(matches!(e[2].1, Json::Bool(true)));
        },
        _ => panic!("expected an object"),
    }
    match error_json("Chat API not configured") {
        Json::Object(e) => assert!(matches!(&e[0].1, Json::Str(s) if s == "Chat API not configured")),
        _ => panic!("expected an object"),
    }
    let challenge = WebhookResponse { status: "ok".into(), message_id: None, challenge: Some("c".into()) };
    match webhook_reply(&challenge) {
        Json::Object(e) => {
            assert_eq!(e.len(), 1);
            assert_eq!(e[0].0, "challenge");
        },
        _ => panic!("expected an object"),
    }
    let msg = WebhookResponse { status: "ok".into(), message_id: Some("m1".into()), challenge: None };
    match webhook_reply(&msg) {
        Json::Object(e) => assert_eq!(e.len(), 2),
        _ => panic!("expected an object"),
    }
}

#[test]
fn incoming_text_and_reply() {
    assert_eq!(incoming_text(&MessageContent::Text("hi".into())).as_deref(), Some("hi"));
    assert!(incoming_text(&MessageContent::Text("   ".into())).is_none());
    assert!(incoming_text(&MessageContent::File { url: "u".into(), name: "n".into() }).is_none());
    let source = ChannelSource {
        channel_kind: ChannelKind::Feishu,
        conversation_key: "oc_1".into(),
        sender: Sender { id: "ou_1".into(), name: String::new() },
    };
    assert!(channel_reply(Some(String::new()), &source, "om_1").is_none());
    let (target, out) = channel_reply(Some("answer".into()), &source, "om_1").unwrap();
    assert_eq!(target.conversation_key, "oc_1");
    assert_eq!(out.reply_to.as_deref(), Some("om_1"));
}

#[test]
fn registry_lookups() {
    let configs = vec![provider("openai", &["gpt-4o"]), provider("second", &["model-b"])];
    assert!(check_provider_ids(&configs).is_ok());
    assert_eq!(provider_index(&configs, "second").unwrap(), 1);
    assert_eq!(provider_index(&configs, "none").unwrap_err().message(), "Config error: Provider not found: none");
    assert_eq!(provider_for_model(&configs, "model-b").unwrap(), 1);
    assert!(provider_for_model(&configs, "llama").is_err());
    let dup = vec![provider("x", &[]), provider("x", &[])];
    assert_eq!(check_provider_ids(&dup).unwrap_err().message(), "Config error: Duplicate provider ID: x");
}

#[test]
fn config_env_resolution() {
    let mut cfg = AppConfig::default();
    cfg.providers.push(provider("openai", &["gpt-4o"]));
    cfg.channels.push(ChannelConfig {
        id: "feishu-main".into(),
        kind: ChannelKind::Feishu,
        agent_id: "default".into(),
        settings: vec![("app_secret".into(), "env:SECRET".into()), ("app_id".into(), "cli_1".into())],
    });
    let env = vec![
        ("TEST_KEY".to_string(), "sk-123".to_string()),
        ("SECRET".to_string(), "s3".to_string()),
        ("MAVIS_GATEWAY_BIND".to_string(), "0.0.0.0:8080".to_string()),
    ];
    cfg.apply_env_overrides(&env);
    cfg.resolve_env_refs(&env);
    assert_eq!(cfg.gateway.bind, "0.0.0.0:8080");
    assert_eq!(cfg.providers[0].api_key, "sk-123");
    assert_eq!(cfg.channels[0].settings[0].1, "s3");
    assert_eq!(cfg.channels[0].settings[1].1, "cli_1");
    let mut unset = AppConfig::default();
    unset.memory.path = "env:NOT_SET".into();
    unset.resolve_env_refs(&Vec::new());
    assert_eq!(unset.memory.path, "");
}

#[test]
fn skills_load_dir_names_skills_after_their_directory() {
    assert_eq!(skill_name_from_path("/skills/deploy/SKILL.md"), "deploy");
    assert_eq!(skill_name_from_path("SKILL.md"), "unknown");
    let mut loader = SkillLoader::new();
    let parts = parse_skill_md("---\nname: x\n---\n# Deploy things\nbody").unwrap();
    let files = vec![
        ("/skills/deploy/SKILL.md".to_string(), Ok((parts, SkillMetadata::empty()))),
        ("/skills/bad/SKILL.md".to_string(), Err("invalid YAML frontmatter: boom".to_string())),
    ];
    assert_eq!(loader.load_dir(files).unwrap_err(), "invalid YAML frontmatter: boom");
    assert_eq!(loader.len(), 1);
    assert_eq!(loader.get("deploy").unwrap().description, "Deploy things");
}

#[test]
fn usage_tracker_path() {
    let t = UsageTracker::new("/skills");
    assert_eq!(t.path(), "/skills/.usage-log.json");
}
