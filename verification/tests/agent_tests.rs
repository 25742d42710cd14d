use m_claw::agent::{
    Conversation, RoundStep, ToolRounds, apply_memory_updates, build_system_prompt, final_message, format_messages_for_summary, skill_actions, tool_args,
    Agent, ResponseStep, SkillAction,
};
use m_claw::config::{AgentConfig, EvolutionConfig};
use m_claw::error::McError;
use m_claw::json::Json;
use m_claw::memory::{MemoryFile, MemoryStore};
use m_claw::message::{FunctionCall, Message, Role, ToolCall, ToolDefinition};
use m_claw::reviewer::{MemoryUpdate, ReviewTrigger, SkillUpdate};
use m_claw::skills::{parse_skill_md, Skill, SkillLoader, SkillMetadata};

fn test_agent_config() -> AgentConfig {
    AgentConfig {
        id: "test-agent".to_string(),
        name: "Test Agent".to_string(),
        model: "test-model".to_string(),
        provider: "mock-provider".to_string(),
        system_prompt: None,
        system_prompt_file: None,
        max_tokens: None,
        skills_dir: None,
        memory_dir: None,
    }
}

fn sample_tool_call(id: &str, name: &str, args: &str) -> ToolCall {
    ToolCall { id: id.to_string(), function: FunctionCall { name: name.to_string(), arguments: args.to_string() } }
}

fn test_agent() -> Agent {
    Agent::new(test_agent_config(), None, None, false, None, None)
}

fn echo_tools() -> Option<Vec<ToolDefinition>> {
    Some(vec![ToolDefinition {
        name: "echo".to_string(),
        description: "Echo the input".to_string(),
        parameters: Json::Object(Vec::new()),
    }])
}

fn fill_conversation(agent: &mut Agent, n: usize) {
    for i in 0..n {
        agent.push_message(Message::user(&format!("User message {i}")));
        agent.push_message(Message::assistant(&format!("Assistant reply {i}")));
    }
}

#[test]
fn format_messages_for_summary_basic() {
    let messages = vec![Message::user("Hello"), Message::assistant("Hi there!")];
    let text = format_messages_for_summary(&messages);
    assert!(text.contains("[User]: Hello"));
    assert!(text.contains("[Assistant]: Hi there!"));
}

#[test]
fn format_messages_for_summary_truncates_long_content() {
    let long_text = "x".repeat(600);
    let messages = vec![Message::user(&long_text)];
    let text = format_messages_for_summary(&messages);
    assert!(text.contains("... (truncated)"));
    assert!(text.len() < long_text.len());
}

#[test]
fn format_messages_for_summary_includes_tool_calls() {
    let messages = vec![Message {
        role: Role::Assistant,
        content: Some("Let me check".to_string()),
        tool_calls: Some(vec![sample_tool_call("c1", "bash", "{}"), sample_tool_call("c2", "read_file", "{}")]),
        tool_call_id: None,
        name: None,
    }];
    let text = format_messages_for_summary(&messages);
    assert!(text.contains("[Assistant]: Let me check"));
    assert!(text.contains("bash"));
    assert!(text.contains("read_file"));
}

#[test]
fn format_messages_for_summary_handles_tool_result() {
    let messages = vec![Message::tool("call_1", "output of tool")];
    let text = format_messages_for_summary(&messages);
    assert!(text.contains("[Tool]: output of tool"));
}

#[test]
fn format_messages_for_summary_empty() {
    let text = format_messages_for_summary(&[]);
    assert!(text.is_empty());
}

#[test]
fn format_messages_for_summary_exact_text() {
    let messages = vec![
        Message::user("Hello"),
        Message {
            role: Role::Assistant,
            content: None,
            tool_calls: Some(vec![sample_tool_call("c1", "bash", "{}"), sample_tool_call("c2", "grep", "{}")]),
            tool_call_id: None,
            name: None,
        },
    ];
    let text = format_messages_for_summary(&messages);
    assert_eq!(text, "[User]: Hello\n[Assistant]: (tool calls: bash, grep)");
}

#[test]
fn format_messages_for_summary_cuts_at_500_bytes() {
    let long_text = "y".repeat(501);
    let text = format_messages_for_summary(&[Message::user(&long_text)]);
    assert_eq!(text, format!("[User]: {}... (truncated)", "y".repeat(500)));
    let exact = "z".repeat(500);
    let text = format_messages_for_summary(&[Message::user(&exact)]);
    assert_eq!(text, format!("[User]: {exact}"));
}

#[test]
fn build_system_prompt_default() {
    let config = test_agent_config();
    let prompt = build_system_prompt(&config, None);
    assert!(prompt.contains("Test Agent"));
    assert!(prompt.contains("helpful AI assistant"));
    assert_eq!(prompt, "You are Test Agent, a helpful AI assistant. Be concise, accurate, and helpful.");
}

#[test]
fn build_system_prompt_custom() {
    let mut config = test_agent_config();
    config.system_prompt = Some("You are a pirate.".to_string());
    let prompt = build_system_prompt(&config, None);
    assert!(prompt.contains("Test Agent"));
    assert!(prompt.contains("You are a pirate."));
    assert!(prompt.ends_with("helpful.\n\nYou are a pirate."));
}

#[test]
fn build_system_prompt_without_skills_has_no_heading() {
    let config = test_agent_config();
    let loader = SkillLoader::new();
    let prompt = build_system_prompt(&config, Some(&loader));
    assert!(!prompt.contains("Available Skills"));
}

#[test]
fn build_system_prompt_with_skills_injects_summary() {
    let config = test_agent_config();
    let mut loader = SkillLoader::new();
    let parts = parse_skill_md("---\nname: deploy\ndescription: Deploy the app\n---\n# Deploy\nSteps.\n").unwrap();
    let skill = Skill::from_parts("deploy", parts, SkillMetadata::empty(), "/skills/deploy/SKILL.md");
    loader.insert(skill);
    let prompt = build_system_prompt(&config, Some(&loader));
    assert!(prompt.contains("## Available Skills"));
    assert!(prompt.contains("deploy"));
}

#[test]
fn default_max_iterations() {
    let agent = test_agent();
    assert_eq!(agent.max_tool_iterations(), 10);
    assert_eq!(agent.compress_threshold(), 50);
}

#[test]
fn set_max_tool_iterations() {
    let mut agent = test_agent();
    agent.set_max_tool_iterations(5);
    assert_eq!(agent.max_tool_iterations(), 5);
}

#[test]
fn agent_accessors_return_none_without_skills_and_memory() {
    let agent = test_agent();
    assert!(agent.reviewer().is_none());
    assert!(agent.skill_manager().is_none());
    assert_eq!(agent.turn_counter(), 0);
    assert_eq!(agent.tool_iteration_counter(), 0);
    assert_eq!(agent.conversation().messages.len(), 0);
    assert_eq!(agent.conversation().metadata.agent_id.as_deref(), Some("test-agent"));
}

#[test]
fn evolution_reviewer_is_some_when_enabled() {
    let evo = EvolutionConfig::default();
    let agent = Agent::new(test_agent_config(), None, None, true, Some(&evo), Some("/skills"));
    let nudge = agent.reviewer().unwrap();
    assert_eq!(nudge.memory_interval, 10);
    assert_eq!(nudge.skill_interval, 10);
    assert_eq!(agent.skill_manager(), Some("/skills"));
}

#[test]
fn evolution_reviewer_is_none_when_disabled() {
    let mut evo = EvolutionConfig::default();
    evo.enabled = false;
    let agent = Agent::new(test_agent_config(), None, None, true, Some(&evo), Some("/skills"));
    assert!(agent.reviewer().is_none());
    assert!(agent.skill_manager().is_none());
}

#[test]
fn evolution_reviewer_is_none_without_memory() {
    let evo = EvolutionConfig::default();
    let agent = Agent::new(test_agent_config(), None, None, false, Some(&evo), None);
    assert!(agent.reviewer().is_none());
}

#[test]
fn finalize_stream_stores_content_only() {
    let mut agent = test_agent();
    agent.finalize_stream("Some content", None);
    let last = agent.conversation().messages.last().unwrap();
    assert_eq!(last.role, Role::Assistant);
    assert_eq!(last.content.as_deref(), Some("Some content"));
    assert!(last.tool_calls.is_none());
}

#[test]
fn finalize_stream_stores_tool_calls() {
    let mut agent = test_agent();
    let tc = vec![sample_tool_call("id1", "bash", "{\"command\":\"ls\"}")];
    agent.finalize_stream("Let me check", Some(tc));
    let last = agent.conversation().messages.last().unwrap();
    assert_eq!(last.role, Role::Assistant);
    assert_eq!(last.content.as_deref(), Some("Let me check"));
    assert!(last.tool_calls.is_some());
    assert_eq!(last.tool_calls.as_ref().unwrap().len(), 1);
}

#[test]
fn finalize_stream_empty_content_stores_none() {
    let mut agent = test_agent();
    agent.finalize_stream("", None);
    let last = agent.conversation().messages.last().unwrap();
    assert!(last.content.is_none());
}

#[test]
fn build_request_includes_tools() {
    let mut agent = Agent::new(test_agent_config(), None, echo_tools(), false, None, None);
    agent.push_user("test");
    let req = agent.build_request(false);
    let tools = req.tools.as_ref().unwrap();
    assert_eq!(tools.len(), 1);
    assert_eq!(tools[0].name, "echo");
    assert_eq!(req.messages.len(), 2);
    assert_eq!(req.messages[0].role, Role::System);
    assert_eq!(req.messages[1].content.as_deref(), Some("test"));
    assert_eq!(req.model, "test-model");
    assert!(!req.stream);
}

#[test]
fn build_request_no_tools_when_none() {
    let mut agent = test_agent();
    agent.push_user("test");
    let req = agent.build_request(true);
    assert!(req.tools.is_none());
    assert!(req.stream);
}

#[test]
fn text_reply_is_final() {
    let mut agent = test_agent();
    agent.push_user("hi");
    match agent.on_response(Message::assistant("Hello!")) {
        ResponseStep::Final(m) => assert_eq!(m.content.as_deref(), Some("Hello!")),
        ResponseStep::RunTools(_) => panic!("expected a final reply"),
    }
    assert_eq!(agent.conversation().messages.len(), 2);
}

#[test]
fn tool_reply_runs_tools_and_appends_results() {
    let mut agent = Agent::new(test_agent_config(), None, echo_tools(), false, None, None);
    agent.push_user("run");
    let reply = Message {
        role: Role::Assistant,
        content: None,
        tool_calls: Some(vec![sample_tool_call("a", "echo", "{}"), sample_tool_call("b", "fail", "{}")]),
        tool_call_id: None,
        name: None,
    };
    let calls = match agent.on_response(reply) {
        ResponseStep::RunTools(c) => c,
        ResponseStep::Final(_) => panic!("expected tool calls"),
    };
    assert!(agent.check_tools_registered().is_ok());
    agent.append_tool_results(&calls, vec![Ok("done".to_string()), Err(McError::Tool("boom".to_string()))]);
    agent.count_tool_iteration();
    let msgs = &agent.conversation().messages;
    assert_eq!(msgs.len(), 4);
    assert_eq!(msgs[2].role, Role::Tool);
    assert_eq!(msgs[2].tool_call_id.as_deref(), Some("a"));
    assert_eq!(msgs[2].content.as_deref(), Some("done"));
    assert_eq!(msgs[3].content.as_deref(), Some("Tool execution error: Tool error: boom"));
    assert_eq!(agent.tool_iteration_counter(), 1);
}

#[test]
fn no_tools_but_llm_requests_them() {
    let agent = test_agent();
    match agent.check_tools_registered() {
        Err(McError::Tool(m)) => assert_eq!(m, "LLM requested tool calls but no tools are registered"),
        _ => panic!("expected a tool error"),
    }
}

#[test]
fn max_iterations_error_message() {
    let mut agent = test_agent();
    agent.set_max_tool_iterations(3);
    match agent.loop_limit_error() {
        McError::Tool(m) => assert_eq!(m, "Tool call loop exceeded maximum iterations (3)"),
        _ => panic!("expected a tool error"),
    }
}

#[test]
fn pending_tool_calls_of_last_message() {
    let mut agent = test_agent();
    assert!(agent.pending_tool_calls().is_none());
    agent.finalize_stream("x", Some(vec![sample_tool_call("id1", "bash", "{}")]));
    let calls = agent.pending_tool_calls().unwrap();
    assert_eq!(calls[0].id, "id1");
    agent.finalize_stream("y", Some(vec![]));
    assert!(agent.pending_tool_calls().is_none());
    assert_eq!(agent.last_message().unwrap().content.as_deref(), Some("y"));
}

#[test]
fn compress_not_triggered_below_threshold() {
    let mut agent = test_agent();
    agent.set_compress_threshold(50);
    fill_conversation(&mut agent, 5);
    agent.push_user("new message");
    assert_eq!(agent.compression_split(), None);
}

#[test]
fn compress_triggered_at_threshold() {
    let mut agent = test_agent();
    agent.set_compress_threshold(20);
    fill_conversation(&mut agent, 11);
    agent.push_user("new message");
    let split = agent.compression_split().unwrap();
    assert_eq!(split, 13);
    let text = format_messages_for_summary(&agent.conversation().messages[..split]);
    let req = agent.summary_request(&text);
    assert_eq!(req.max_tokens, Some(500));
    assert!(req.messages[0].content.as_deref().unwrap().starts_with("Summarize the following conversation"));
    agent.apply_compression(split, "This is a summary of the conversation.");
    agent.on_response(Message::assistant("Final response"));
    assert_eq!(agent.conversation().messages.len(), 12);
    assert_eq!(agent.conversation().messages[0].role, Role::Assistant);
    assert!(agent.conversation().messages[0].content.as_deref().unwrap().contains("summary"));
}

#[test]
fn compress_preserves_recent_messages() {
    let mut agent = test_agent();
    agent.set_compress_threshold(20);
    fill_conversation(&mut agent, 11);
    agent.push_user("latest input");
    let split = agent.compression_split().unwrap();
    agent.apply_compression(split, "Summary of old messages.");
    agent.on_response(Message::assistant("New response"));
    let msgs = &agent.conversation().messages;
    let last = msgs.last().unwrap();
    assert_eq!(last.role, Role::Assistant);
    assert_eq!(last.content.as_deref(), Some("New response"));
    let second_last = &msgs[msgs.len() - 2];
    assert_eq!(second_last.role, Role::User);
    assert_eq!(second_last.content.as_deref(), Some("latest input"));
}

#[test]
fn compress_disabled_when_threshold_is_zero() {
    let mut agent = test_agent();
    agent.set_compress_threshold(0);
    fill_conversation(&mut agent, 30);
    agent.push_user("new");
    assert_eq!(agent.compression_split(), None);
}

#[test]
fn evolution_review_triggers_at_threshold() {
    let evo = EvolutionConfig { enabled: true, memory_nudge_interval: 2, skill_nudge_interval: 100, curator_interval_hours: 168 };
    let mut agent = Agent::new(test_agent_config(), None, None, true, Some(&evo), None);
    agent.count_turn();
    assert_eq!(agent.review_due(), None);
    agent.count_turn();
    assert_eq!(agent.review_due(), Some(ReviewTrigger::Memory));
    agent.set_review_pending(true);
    assert_eq!(agent.review_due(), None);
}

#[test]
fn evolution_self_improvement_message_prepended() {
    let m = final_message(Some("Learned X".to_string()), Message::assistant("Answer"));
    assert_eq!(m.content.as_deref(), Some("Self-improvement: Learned X\n\nAnswer"));
    let m = final_message(None, Message::assistant("Answer"));
    assert_eq!(m.content.as_deref(), Some("Answer"));
}

#[test]
fn evolution_review_applies_memory_update() {
    let mut store = MemoryStore::new("/tmp/mem");
    let updates = vec![
        MemoryUpdate {
            target: "agent".to_string(),
            section: "".to_string(),
            content: "new tool found".to_string(),
            action: "append".to_string(),
        },
        MemoryUpdate {
            target: "nobody".to_string(),
            section: "".to_string(),
            content: "ignored".to_string(),
            action: "append".to_string(),
        },
        MemoryUpdate {
            target: "user".to_string(),
            section: "Missing".to_string(),
            content: "nothing".to_string(),
            action: "update".to_string(),
        },
    ];
    apply_memory_updates(&mut store, &updates);
    assert_eq!(store.read_file(MemoryFile::Agent), "new tool found\n");
    assert_eq!(store.read_file(MemoryFile::User), "");
}

#[test]
fn evolution_review_applies_skill_update() {
    let updates = vec![
        SkillUpdate { name: "deploy".to_string(), action: "create".to_string(), content: Some("# Deploy".to_string()) },
        SkillUpdate { name: "edit-me".to_string(), action: "edit".to_string(), content: None },
        SkillUpdate { name: "old".to_string(), action: "delete".to_string(), content: None },
        SkillUpdate { name: "x".to_string(), action: "patch".to_string(), content: Some("y".to_string()) },
    ];
    let actions = skill_actions(&updates);
    assert_eq!(actions.len(), 2);
    assert!(matches!(&actions[0], SkillAction::Create { name, content } if name == "deploy" && content == "# Deploy"));
    assert!(matches!(&actions[1], SkillAction::Delete { name } if name == "old"));
}

#[test]
fn tool_args_parse_or_empty_object() {
    match tool_args("{\"command\":\"ls\"}") {
        Json::Object(entries) => {
            assert_eq!(entries.len(), 1);
            assert_eq!(entries[0].0, "command");
        },
        _ => panic!("expected an object"),
    }
    match tool_args("not json") {
        Json::Object(entries) => assert!(entries.is_empty()),
        _ => panic!("expected an object"),
    }
}

#[test]
fn new_conversations_get_distinct_uuids() {
    let a = Conversation::new();
    let b = Conversation::new();
    assert_eq!(a.id.len(), 36);
    for (i, ch) in a.id.chars().enumerate() {
        if i == 8 || i == 13 || i == 18 || i == 23 {
            assert_eq!(ch, '-');
        } else {
            assert!(ch.is_ascii_hexdigit());
        }
    }
    assert_ne!(a.id, b.id);
    assert!(a.messages.is_empty());
    assert!(a.metadata.created_at > 1_600_000_000_000);
    assert_eq!(a.metadata.created_at, a.metadata.updated_at);
}

#[test]
fn tool_rounds_stop_at_the_limit() {
    let mut r = ToolRounds::new(2);
    assert_eq!(r.next(), RoundStep::Ask);
    assert_eq!(r.next(), RoundStep::Ask);
    assert_eq!(r.next(), RoundStep::GiveUp);
    assert_eq!(r.next(), RoundStep::GiveUp);
    assert_eq!(r.done, 2);
    assert_eq!(ToolRounds::new(0).next(), RoundStep::GiveUp);
}

#[test]
fn load_file_returns_the_skill_just_loaded() {
    let mut loader = SkillLoader::new();
    let parts = parse_skill_md("---\nversion: \"1\"\n---\n# Deploy things\nSteps.").unwrap();
    let s = loader.load_file("/skills/deploy/SKILL.md", parts, SkillMetadata::empty());
    assert_eq!(s.name, "deploy");
    assert_eq!(s.path, "/skills/deploy/SKILL.md");
    assert_eq!(s.description, "Deploy things");
    assert_eq!(loader.len(), 1);
}

#[test]
fn skill_summary_ignores_load_order() {
    let load = |order: &[&str]| {
        let mut loader = SkillLoader::new();
        for name in order {
            let parts = parse_skill_md(&format!("---\nv: 1\n---\n# About {name}\n")).unwrap();
            loader.load_file(&format!("/skills/{name}/SKILL.md"), parts, SkillMetadata::empty());
        }
        loader.summary()
    };
    let a = load(&["beta", "alpha", "gamma"]);
    let b = load(&["gamma", "beta", "alpha"]);
    assert_eq!(a, b);
    assert!(a.starts_with("alpha — About alpha"));
}
