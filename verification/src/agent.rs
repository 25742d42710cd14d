//! The agent's conversation state and the decisions of a turn.
//!
//! A turn runs as a loop outside the library: it sends the request that
//! [`Agent::build_request`] builds, hands the reply to
//! [`Agent::on_response`], runs the tools that it asks for and hands their
//! outcomes to [`Agent::append_tool_results`], until a reply has no tool
//! calls or the iteration limit is reached.  Long conversations are
//! compressed first ([`Agent::compression_split`],
//! [`Agent::apply_compression`]); completed background reviews are applied
//! to memory ([`apply_memory_updates`]) and turned into skill actions
//! ([`skill_actions`]).
use vstd::prelude::*;
use crate::config::{AgentConfig, EvolutionConfig};
use crate::error::McError;
use crate::json::{Json, JsonV, jv, json_parsed, parse_json};
use crate::llm::{ChatRequest, req_msgs, req_tools, tooldef_view};
use crate::memory::{MemoryFile, MemoryStore, append_text_s, replace_section_s, other_file};
use crate::message::{Message, MessageV, Role, ToolCall, ToolDefinition, msgs_view, ostr, tc_view, tcs_view, plain_message};
use crate::reviewer::{
    MemoryUpdate, NudgeConfig, ReviewResult, ReviewTrigger, SkillUpdate, role_label, role_label_s, should_review,
    should_review_s,
};
use crate::skills::{Skill, SkillLoader, skill_summary_s};
use crate::text::{
    byte_prefix, byte_prefix_chars, chars_of, extend_chars, is_boundary, join_s, sorted_strs, str_byte_len, str_eq,
    string_of, strs_view, utf8_len,
};
use crate::tools::join_strings;

verus! {

/// Default maximum number of tool-call iterations before forcing a stop.
pub const DEFAULT_MAX_TOOL_ITERATIONS: usize = 10;

/// Default number of messages before triggering context compression.
pub const DEFAULT_COMPRESS_THRESHOLD: usize = 50;

/// Number of recent messages to keep when compressing context.
pub const COMPRESS_KEEP_RECENT: usize = 10;

/// Bytes of a message's content kept in a summarization transcript.
pub const SUMMARY_CONTENT_BYTES: usize = 500;

// ---------------------------------------------------------------------------
// Conversation
// ---------------------------------------------------------------------------

/// Metadata associated with a conversation.  Times are milliseconds since
/// the Unix epoch, in UTC.
#[derive(Debug, Clone)]
pub struct ConversationMeta {
    /// Optional human-readable title.
    pub title: Option<String>,
    /// When the conversation was created.
    pub created_at: i64,
    /// When the conversation was last updated.
    pub updated_at: i64,
    /// The agent ID handling this conversation.
    pub agent_id: Option<String>,
}

/// A conversation containing an ordered sequence of messages.
#[derive(Debug, Clone)]
pub struct Conversation {
    /// Unique conversation identifier.
    pub id: String,
    /// Ordered list of messages in this conversation.
    pub messages: Vec<Message>,
    /// Metadata about the conversation.
    pub metadata: ConversationMeta,
}

/// A fresh random identifier (`uuid::Uuid::new_v4`), in the hyphenated
/// form of 36 characters that its `Display` writes.
#[verifier::external_body]
fn new_conversation_id() -> (r: String)
    ensures
        r@.len() == 36,
{
    uuid::Uuid::new_v4().to_string()
}

/// The current time (`chrono::Utc::now`) in milliseconds since the epoch;
/// nothing is stated of its value.
#[verifier::external_body]
fn now_millis() -> i64 {
    chrono::Utc::now().timestamp_millis()
}

impl Conversation {
    /// Create a new empty conversation with a generated ID and the current
    /// time.
    pub fn new() -> (r: Self)
        ensures
            r.messages@.len() == 0,
            r.id@.len() == 36,
            r.metadata.title is None,
            r.metadata.agent_id is None,
            r.metadata.created_at == r.metadata.updated_at,
    {
        let id = new_conversation_id();
        let now = now_millis();
        Conversation {
            id,
            messages: Vec::new(),
            metadata: ConversationMeta { title: None, created_at: now, updated_at: now, agent_id: None },
        }
    }

    /// Append a message to the conversation and update the timestamp.
    pub fn push(&mut self, message: Message)
        ensures
            final(self).messages@ == old(self).messages@.push(message),
            final(self).id == old(self).id,
            final(self).metadata.title == old(self).metadata.title,
            final(self).metadata.agent_id == old(self).metadata.agent_id,
            final(self).metadata.created_at == old(self).metadata.created_at,
    {
        self.messages.push(message);
        self.metadata.updated_at = now_millis();
    }
}

// ---------------------------------------------------------------------------
// Summarization transcript
// ---------------------------------------------------------------------------

/// A content as it stands in a summarization transcript: its first 500
/// bytes and a marker when it is longer.
pub open spec fn truncated_content_s(c: Seq<char>) -> Seq<char> {
    if utf8_len(c) > SUMMARY_CONTENT_BYTES {
        byte_prefix(c, SUMMARY_CONTENT_BYTES as int) + "... (truncated)"@
    } else {
        c
    }
}

/// The names of a list of tool calls.
pub open spec fn call_names(tcs: Seq<(Seq<char>, Seq<char>, Seq<char>)>) -> Seq<Seq<char>> {
    tcs.map_values(|t: (Seq<char>, Seq<char>, Seq<char>)| t.1)
}

/// The transcript lines of one message: `[Role]: content` when it has
/// content, `[Role]: (tool calls: a, b)` when it has tool calls.
pub open spec fn summary_lines_of(m: MessageV) -> Seq<Seq<char>> {
    let head = "["@ + role_label_s(m.role) + "]: "@;
    let a = match m.content {
        Some(c) => seq![head + truncated_content_s(c)],
        None => Seq::empty(),
    };
    let b = match m.tool_calls {
        Some(tcs) => seq![head + "(tool calls: "@ + join_s(call_names(tcs), ", "@) + ")"@],
        None => Seq::empty(),
    };
    a + b
}

/// The transcript lines of a list of messages.
pub open spec fn summary_lines(ms: Seq<MessageV>) -> Seq<Seq<char>>
    decreases ms.len(),
{
    if ms.len() == 0 {
        Seq::empty()
    } else {
        summary_lines(ms.drop_last()) + summary_lines_of(ms.last())
    }
}

/// Every content longer than 500 bytes has a character boundary at 500.
pub open spec fn cuttable(ms: Seq<MessageV>) -> bool {
    forall|i: int|
        0 <= i < ms.len() ==> match #[trigger] ms[i].content {
            Some(c) => utf8_len(c) > SUMMARY_CONTENT_BYTES ==> is_boundary(c, SUMMARY_CONTENT_BYTES as int),
            None => true,
        }
}

/// A content cut to its first 500 bytes with a marker, when longer.
fn truncated_content(c: &str) -> (r: String)
    requires
        utf8_len(c@) > SUMMARY_CONTENT_BYTES ==> is_boundary(c@, SUMMARY_CONTENT_BYTES as int),
    ensures
        r@ == truncated_content_s(c@),
{
    if str_byte_len(c) > SUMMARY_CONTENT_BYTES {
        let cv = chars_of(c);
        let mut out = byte_prefix_chars(cv.as_slice(), SUMMARY_CONTENT_BYTES);
        extend_chars(&mut out, "... (truncated)");
        string_of(out.as_slice())
    } else {
        c.to_owned()
    }
}

/// The names of the tool calls, in order.
fn tool_call_names(tcs: &Vec<ToolCall>) -> (r: Vec<String>)
    ensures
        strs_view(r@) == call_names(tcs_view(tcs@)),
{
    let mut out: Vec<String> = Vec::new();
    let mut i: usize = 0;
    while i < tcs.len()
        invariant
            i <= tcs@.len(),
            strs_view(out@) == call_names(tcs_view(tcs@.take(i as int))),
        decreases tcs.len() - i,
    {
        let ghost before = out@;
        out.push(tcs[i].function.name.clone());
        proof {
            assert(tcs@.take(i + 1) =~= tcs@.take(i as int).push(tcs@[i as int]));
            assert(tcs_view(tcs@.take(i + 1)) =~= tcs_view(tcs@.take(i as int)).push(tc_view(tcs@[i as int])));
            assert(out@ =~= before.push(tcs@[i as int].function.name));
            assert(strs_view(out@) =~= strs_view(before).push(tcs@[i as int].function.name@));
            assert(strs_view(out@) =~= call_names(tcs_view(tcs@.take(i + 1))));
        }
        i = i + 1;
    }
    assert(tcs@.take(tcs@.len() as int) =~= tcs@);
    out
}

/// Format a slice of messages as readable text for summarization: one line
/// per content and per list of tool calls, joined by newlines.
pub fn format_messages_for_summary(messages: &[Message]) -> (r: String)
    requires
        cuttable(msgs_view(messages@)),
    ensures
        r@ == join_s(summary_lines(msgs_view(messages@)), "\n"@),
{
    let mut parts: Vec<String> = Vec::new();
    let mut i: usize = 0;
    while i < messages.len()
        invariant
            i <= messages@.len(),
            cuttable(msgs_view(messages@)),
            strs_view(parts@) == summary_lines(msgs_view(messages@.take(i as int))),
        decreases messages.len() - i,
    {
        let msg = &messages[i];
        let ghost before = strs_view(parts@);
        let role_str = role_label(msg.role);
        assert(msgs_view(messages@)[i as int] == msg@);
        assert(msgs_view(messages@)[i as int].content == ostr(msg.content));
        if let Some(content) = &msg.content {
            let truncated = truncated_content(content.as_str());
            let mut line: Vec<char> = Vec::new();
            extend_chars(&mut line, "[");
            extend_chars(&mut line, role_str);
            extend_chars(&mut line, "]: ");
            extend_chars(&mut line, truncated.as_str());
            let ghost pre = parts@;
            parts.push(string_of(line.as_slice()));
            assert(strs_view(parts@) =~= strs_view(pre).push(line@));
        }
        let ghost mid = strs_view(parts@);
        assert(mid =~= before + match msg@.content {
            Some(c) => seq!["["@ + role_label_s(msg.role) + "]: "@ + truncated_content_s(c)],
            None => Seq::<Seq<char>>::empty(),
        });
        if let Some(tool_calls) = &msg.tool_calls {
            let names = tool_call_names(tool_calls);
            let joined = join_strings(&names, ", ");
            let mut line: Vec<char> = Vec::new();
            extend_chars(&mut line, "[");
            extend_chars(&mut line, role_str);
            extend_chars(&mut line, "]: ");
            extend_chars(&mut line, "(tool calls: ");
            extend_chars(&mut line, joined.as_str());
            extend_chars(&mut line, ")");
            let ghost pre = parts@;
            parts.push(string_of(line.as_slice()));
            assert(strs_view(parts@) =~= strs_view(pre).push(line@));
        }
        assert(strs_view(parts@) =~= mid + match msg@.tool_calls {
            Some(tcs) => seq!["["@ + role_label_s(msg.role) + "]: "@ + "(tool calls: "@ + join_s(call_names(tcs), ", "@) + ")"@],
            None => Seq::<Seq<char>>::empty(),
        });
        proof {
            let ms = msgs_view(messages@.take(i + 1));
            assert(ms.drop_last() =~= msgs_view(messages@.take(i as int)));
            assert(ms.last() == msg@);
            assert(strs_view(parts@) =~= before + summary_lines_of(msg@));
        }
        i = i + 1;
    }
    assert(messages@.take(messages@.len() as int) =~= messages@);
    join_strings(&parts, "\n")
}

// ---------------------------------------------------------------------------
// System prompt
// ---------------------------------------------------------------------------

/// The system prompt: the base instructions naming the agent, then the
/// skills summary under a heading when it is not empty, then the
/// configured prompt when it is not empty.
pub open spec fn system_prompt_s(name: Seq<char>, skills: Option<Seq<char>>, custom: Option<Seq<char>>) -> Seq<char> {
    let base = "You are "@ + name + ", a helpful AI assistant. Be concise, accurate, and helpful."@;
    let with_skills = match skills {
        Some(s) => if s.len() > 0 {
            base + "\n\n## Available Skills\n"@ + s
        } else {
            base
        },
        None => base,
    };
    match custom {
        Some(c) => if c.len() > 0 {
            with_skills + "\n\n"@ + c
        } else {
            with_skills
        },
        None => with_skills,
    }
}

/// Compose the system prompt from the agent's name, a skills summary and
/// the configured prompt.
pub fn compose_system_prompt(name: &str, skills_summary: Option<&str>, custom: &Option<String>) -> (r: String)
    ensures
        r@ == system_prompt_s(
            name@,
            match skills_summary {
                Some(s) => Some(s@),
                None => None,
            },
            ostr(*custom),
        ),
{
    let mut prompt: Vec<char> = Vec::new();
    extend_chars(&mut prompt, "You are ");
    extend_chars(&mut prompt, name);
    extend_chars(&mut prompt, ", a helpful AI assistant. Be concise, accurate, and helpful.");
    if let Some(summary) = skills_summary {
        if !summary.is_empty() {
            extend_chars(&mut prompt, "\n\n## Available Skills\n");
            extend_chars(&mut prompt, summary);
        }
    }
    match custom {
        Some(c) => {
            if !c.as_str().is_empty() {
                extend_chars(&mut prompt, "\n\n");
                extend_chars(&mut prompt, c.as_str());
            }
        },
        None => {},
    }
    string_of(prompt.as_slice())
}

// ---------------------------------------------------------------------------
// Agent
// ---------------------------------------------------------------------------

/// The summary lines of a skill loader, sorted and joined by newlines.
pub open spec fn skills_summary_is(l: SkillLoader, t: Seq<char>) -> bool {
    exists|s: Seq<Seq<char>>|
        sorted_strs(s) && s.to_multiset() == l.skills_s().map_values(
            |k: Skill| skill_summary_s(k.name@, k.description@),
        ).to_multiset() && t == join_s(s, "\n"@)
}

/// Compose the system prompt from base instructions, the loaded skills and
/// the agent's configured prompt.
pub fn build_system_prompt(config: &AgentConfig, skill_loader: Option<&SkillLoader>) -> (r: String)
    ensures
        match skill_loader {
            None => r@ == system_prompt_s(config.name@, None, ostr(config.system_prompt)),
            Some(l) => exists|t: Seq<char>|
                skills_summary_is(*l, t) && r@ == system_prompt_s(config.name@, Some(t), ostr(config.system_prompt)),
        },
{
    match skill_loader {
        None => compose_system_prompt(config.name.as_str(), None, &config.system_prompt),
        Some(loader) => {
            let summary = loader.summary();
            let r = compose_system_prompt(config.name.as_str(), Some(summary.as_str()), &config.system_prompt);
            assert(skills_summary_is(*loader, summary@));
            r
        },
    }
}

/// The count of model rounds of one turn, against the turn's limit.
#[derive(Debug, Clone, Copy, PartialEq, Eq, Structural)]
pub struct ToolRounds {
    /// Rounds granted so far.
    pub done: usize,
    /// Rounds a turn may take.
    pub limit: usize,
}

/// Whether one more model round may run.
#[derive(Debug, Clone, Copy, PartialEq, Eq, Structural)]
pub enum RoundStep {
    /// Ask the model (again).
    Ask,
    /// The limit is reached: the turn fails with the loop-limit error.
    GiveUp,
}

/// The rounds granted by `n` requests from a fresh count under `limit`.
pub open spec fn rounds_granted(limit: usize, n: nat) -> nat {
    if n <= limit { n } else { limit as nat }
}

/// One request for a round: granted (and counted) while under the limit.
pub open spec fn round_step_s(r: ToolRounds) -> (RoundStep, ToolRounds) {
    if r.done < r.limit {
        (RoundStep::Ask, ToolRounds { done: (r.done + 1) as usize, ..r })
    } else {
        (RoundStep::GiveUp, r)
    }
}

/// The count after `n` requests.
pub open spec fn rounds_after(r: ToolRounds, n: nat) -> ToolRounds
    decreases n,
{
    if n == 0 {
        r
    } else {
        round_step_s(rounds_after(r, (n - 1) as nat)).1
    }
}

/// How many of `n` requests were granted.
pub open spec fn asks_in(r: ToolRounds, n: nat) -> nat
    decreases n,
{
    if n == 0 {
        0
    } else {
        asks_in(r, (n - 1) as nat) + if round_step_s(rounds_after(r, (n - 1) as nat)).0 == RoundStep::Ask {
            1nat
        } else {
            0nat
        }
    }
}

impl ToolRounds {
    /// No round granted yet.
    pub fn new(limit: usize) -> (r: Self)
        ensures
            r == (ToolRounds { done: 0, limit }),
    {
        ToolRounds { done: 0, limit }
    }

    /// Ask for one more round: granted while under the limit.
    pub fn next(&mut self) -> (a: RoundStep)
        ensures
            (a, *final(self)) == round_step_s(*old(self)),
    {
        if self.done < self.limit {
            self.done = self.done + 1;
            RoundStep::Ask
        } else {
            RoundStep::GiveUp
        }
    }
}

/// What the agent does with a model reply.
pub enum ResponseStep {
    /// Run these tool calls, append their results and ask the model again.
    RunTools(Vec<ToolCall>),
    /// The reply is the final answer of the turn.
    Final(Message),
}

/// A skill change requested by a review, ready to be carried out.
#[derive(Debug, Clone)]
pub enum SkillAction {
    /// Create a skill with this content.
    Create { name: String, content: String },
    /// Replace a skill's content.
    Edit { name: String, content: String },
    /// Delete a skill.
    Delete { name: String },
}

/// The conversation state of an agent: its configuration, the conversation,
/// the composed system prompt, the tools it may call, and the counters that
/// drive background reviews and context compression.
pub struct Agent {
    config: AgentConfig,
    conversation: Conversation,
    system_prompt: String,
    tools: Option<Vec<ToolDefinition>>,
    max_tool_iterations: usize,
    nudge: Option<NudgeConfig>,
    skills_dir: Option<String>,
    turn_counter: u32,
    tool_iteration_counter: u32,
    review_pending: bool,
    compress_threshold: usize,
}

/// The views of a list of tool definitions, when there is one.
pub open spec fn tools_view(t: Option<Vec<ToolDefinition>>) -> Option<Seq<(Seq<char>, Seq<char>, JsonV)>> {
    match t {
        Some(v) => Some(req_tools(v@)),
        None => None,
    }
}

/// The text of a tool's outcome as it goes back to the model.
pub open spec fn tool_result_text(o: Result<String, McError>) -> Seq<char> {
    match o {
        Ok(s) => s@,
        Err(e) => "Tool execution error: "@ + crate::error::error_message_s(e),
    }
}

/// The tool messages that answer a list of tool calls with their outcomes.
pub open spec fn tool_messages_s(calls: Seq<ToolCall>, outcomes: Seq<Result<String, McError>>) -> Seq<MessageV> {
    Seq::new(
        calls.len(),
        |i: int|
            MessageV {
                role: Role::Tool,
                content: Some(tool_result_text(outcomes[i])),
                tool_calls: None,
                tool_call_id: Some(calls[i].id@),
                name: None,
            },
    )
}

/// The prompt that asks the model to summarize older messages.
pub open spec fn summary_prompt_s(text: Seq<char>) -> Seq<char> {
    "Summarize the following conversation concisely in 3-5 sentences. Preserve key facts, decisions, user preferences, and any important context that would be needed for continuing the conversation.\n\nConversation:\n"@
        + text
}

/// Where a conversation of `len` messages is split for compression: `None`
/// when compression is off (`threshold == 0`) or not due
/// (`len <= threshold`); else all but the last ten messages are summarized.
pub open spec fn compression_split_s(len: int, threshold: int) -> Option<int> {
    if threshold == 0 || len <= threshold {
        None
    } else if len >= COMPRESS_KEEP_RECENT {
        Some(len - COMPRESS_KEEP_RECENT)
    } else {
        Some(0)
    }
}

/// The final message of a turn: the model's reply, prefixed with the
/// summary of a review that completed since the last turn.
pub open spec fn final_message_s(summary: Option<Seq<char>>, reply: MessageV) -> MessageV {
    match summary {
        None => reply,
        Some(s) => plain_message(
            Role::Assistant,
            match reply.content {
                Some(c) => "Self-improvement: "@ + s + "\n\n"@ + c,
                None => "Self-improvement: "@ + s,
            },
        ),
    }
}

/// A copy of a list of tool definitions.
fn copy_tool_definitions(v: &Vec<ToolDefinition>) -> (r: Vec<ToolDefinition>)
    ensures
        req_tools(r@) == req_tools(v@),
{
    let mut out: Vec<ToolDefinition> = Vec::new();
    let mut i: usize = 0;
    while i < v.len()
        invariant
            i <= v@.len(),
            out@.len() == i,
            forall|k: int| 0 <= k < i ==> tooldef_view(#[trigger] out@[k]) == tooldef_view(v@[k]),
        decreases v.len() - i,
    {
        let d = &v[i];
        out.push(ToolDefinition { name: d.name.clone(), description: d.description.clone(), parameters: d.parameters.copy() });
        i = i + 1;
    }
    assert(req_tools(out@) =~= req_tools(v@));
    out
}

impl Agent {
    /// The agent's configuration.
    pub closed spec fn config_s(&self) -> AgentConfig {
        self.config
    }

    /// The conversation.
    pub closed spec fn conversation_s(&self) -> Conversation {
        self.conversation
    }

    /// The messages of the conversation.
    pub open spec fn messages_s(&self) -> Seq<MessageV> {
        msgs_view(self.conversation_s().messages@)
    }

    /// The system prompt.
    pub closed spec fn prompt_s(&self) -> Seq<char> {
        self.system_prompt@
    }

    /// The tools the agent may call (`None`: no tool registry).
    pub closed spec fn tools_s(&self) -> Option<Seq<(Seq<char>, Seq<char>, JsonV)>> {
        tools_view(self.tools)
    }

    /// The maximum number of tool-call iterations per user message.
    pub closed spec fn max_iterations_s(&self) -> usize {
        self.max_tool_iterations
    }

    /// When background reviews run (`None`: evolution is off).
    pub closed spec fn nudge_s(&self) -> Option<NudgeConfig> {
        self.nudge
    }

    /// The skills directory of the skill manager, when there is one.
    pub closed spec fn skills_dir_s(&self) -> Option<Seq<char>> {
        ostr(self.skills_dir)
    }

    /// Completed conversation turns.
    pub closed spec fn turns_s(&self) -> u32 {
        self.turn_counter
    }

    /// Tool loop iterations across all turns.
    pub closed spec fn tool_iters_s(&self) -> u32 {
        self.tool_iteration_counter
    }

    /// Whether a background review is running.
    pub closed spec fn pending_s(&self) -> bool {
        self.review_pending
    }

    /// The number of messages above which the conversation is compressed.
    pub closed spec fn threshold_s(&self) -> usize {
        self.compress_threshold
    }

    /// Create an agent.  The system prompt is composed from the
    /// configuration and the loaded skills; background reviews are enabled
    /// when evolution is configured and enabled and a memory store exists,
    /// and then skill updates go to `skills_dir` when it is given.
    pub fn new(
        agent_config: AgentConfig,
        skill_loader: Option<&SkillLoader>,
        tools: Option<Vec<ToolDefinition>>,
        has_memory: bool,
        evolution_config: Option<&EvolutionConfig>,
        skills_dir: Option<&str>,
    ) -> (r: Self)
        ensures
            r.config_s() == agent_config,
            match skill_loader {
                None => r.prompt_s() == system_prompt_s(agent_config.name@, None, ostr(agent_config.system_prompt)),
                Some(l) => exists|t: Seq<char>|
                    skills_summary_is(*l, t) && r.prompt_s() == system_prompt_s(
                        agent_config.name@,
                        Some(t),
                        ostr(agent_config.system_prompt),
                    ),
            },
            r.messages_s().len() == 0,
            ostr(r.conversation_s().metadata.agent_id) == Some(agent_config.id@),
            r.conversation_s().metadata.title is None,
            r.tools_s() == tools_view(tools),
            r.max_iterations_s() == DEFAULT_MAX_TOOL_ITERATIONS,
            r.threshold_s() == DEFAULT_COMPRESS_THRESHOLD,
            r.turns_s() == 0,
            r.tool_iters_s() == 0,
            !r.pending_s(),
            r.nudge_s() == match evolution_config {
                Some(e) => if e.enabled && has_memory {
                    Some(NudgeConfig { memory_interval: e.memory_nudge_interval, skill_interval: e.skill_nudge_interval })
                } else {
                    None
                },
                None => None,
            },
            r.skills_dir_s() == match evolution_config {
                Some(e) => if e.enabled && has_memory {
                    match skills_dir {
                        Some(d) => Some(d@),
                        None => None,
                    }
                } else {
                    None
                },
                None => None,
            },
    {
        let system_prompt = build_system_prompt(&agent_config, skill_loader);
        let mut conversation = Conversation::new();
        conversation.metadata.agent_id = Some(agent_config.id.clone());
        let (nudge, dir) = match evolution_config {
            Some(e) => {
                if e.enabled && has_memory {
                    let d = match skills_dir {
                        Some(d) => Some(d.to_owned()),
                        None => None,
                    };
                    (Some(NudgeConfig::new(e.memory_nudge_interval, e.skill_nudge_interval)), d)
                } else {
                    (None, None)
                }
            },
            None => (None, None),
        };
        Agent {
            config: agent_config,
            conversation,
            system_prompt,
            tools,
            max_tool_iterations: DEFAULT_MAX_TOOL_ITERATIONS,
            nudge,
            skills_dir: dir,
            turn_counter: 0,
            tool_iteration_counter: 0,
            review_pending: false,
            compress_threshold: DEFAULT_COMPRESS_THRESHOLD,
        }
    }

    /// Set the maximum number of tool-call iterations.
    pub fn set_max_tool_iterations(&mut self, max: usize)
        ensures
            final(self).max_iterations_s() == max,
            final(self).messages_s() == old(self).messages_s(),
            final(self).threshold_s() == old(self).threshold_s(),
            final(self).turns_s() == old(self).turns_s(),
            final(self).tool_iters_s() == old(self).tool_iters_s(),
    {
        self.max_tool_iterations = max;
    }

    /// Set the context compression threshold (0 disables compression).
    pub fn set_compress_threshold(&mut self, threshold: usize)
        ensures
            final(self).threshold_s() == threshold,
            final(self).messages_s() == old(self).messages_s(),
            final(self).max_iterations_s() == old(self).max_iterations_s(),
            final(self).turns_s() == old(self).turns_s(),
            final(self).tool_iters_s() == old(self).tool_iters_s(),
    {
        self.compress_threshold = threshold;
    }

    /// Get a reference to the current conversation.
    pub fn conversation(&self) -> (r: &Conversation)
        ensures
            *r == self.conversation_s(),
    {
        &self.conversation
    }

    /// Get the agent configuration.
    pub fn config(&self) -> (r: &AgentConfig)
        ensures
            *r == self.config_s(),
    {
        &self.config
    }

    /// Get the system prompt.
    pub fn system_prompt(&self) -> (r: &str)
        ensures
            r@ == self.prompt_s(),
    {
        self.system_prompt.as_str()
    }

    /// Get the current turn counter.
    pub fn turn_counter(&self) -> (r: u32)
        ensures
            r == self.turns_s(),
    {
        self.turn_counter
    }

    /// Get the current tool iteration counter.
    pub fn tool_iteration_counter(&self) -> (r: u32)
        ensures
            r == self.tool_iters_s(),
    {
        self.tool_iteration_counter
    }

    /// The maximum number of tool-call iterations.
    pub fn max_tool_iterations(&self) -> (r: usize)
        ensures
            r == self.max_iterations_s(),
    {
        self.max_tool_iterations
    }

    /// The context compression threshold.
    pub fn compress_threshold(&self) -> (r: usize)
        ensures
            r == self.threshold_s(),
    {
        self.compress_threshold
    }

    /// When background reviews run, if they do.
    pub fn reviewer(&self) -> (r: Option<NudgeConfig>)
        ensures
            r == self.nudge_s(),
    {
        self.nudge
    }

    /// The skills directory that review results may change, if any.
    pub fn skill_manager(&self) -> (r: Option<&str>)
        ensures
            match r {
                Some(d) => self.skills_dir_s() == Some(d@),
                None => self.skills_dir_s() is None,
            },
    {
        match &self.skills_dir {
            Some(d) => Some(d.as_str()),
            None => None,
        }
    }

    /// Whether tools are registered.
    pub fn has_tools(&self) -> (r: bool)
        ensures
            r == (self.tools_s() is Some),
    {
        self.tools.is_some()
    }

    /// Replace the conversation with a loaded one.
    pub fn load_conversation(&mut self, conversation: Conversation)
        ensures
            final(self).conversation_s() == conversation,
            final(self).turns_s() == old(self).turns_s(),
            final(self).tool_iters_s() == old(self).tool_iters_s(),
            final(self).prompt_s() == old(self).prompt_s(),
    {
        self.conversation = conversation;
    }

    /// Append a message to the conversation.
    pub fn push_message(&mut self, message: Message)
        ensures
            final(self).messages_s() == old(self).messages_s().push(message@),
            final(self).turns_s() == old(self).turns_s(),
            final(self).tool_iters_s() == old(self).tool_iters_s(),
            final(self).threshold_s() == old(self).threshold_s(),
            final(self).max_iterations_s() == old(self).max_iterations_s(),
            final(self).tools_s() == old(self).tools_s(),
    {
        let ghost before = self.conversation.messages@;
        self.conversation.push(message);
        assert(msgs_view(self.conversation.messages@) =~= msgs_view(before).push(message@));
    }

    /// Append the user's message at the start of a turn.
    pub fn push_user(&mut self, user_input: &str)
        ensures
            final(self).messages_s() == old(self).messages_s().push(plain_message(Role::User, user_input@)),
            final(self).turns_s() == old(self).turns_s(),
            final(self).tool_iters_s() == old(self).tool_iters_s(),
            final(self).threshold_s() == old(self).threshold_s(),
            final(self).max_iterations_s() == old(self).max_iterations_s(),
            final(self).tools_s() == old(self).tools_s(),
    {
        self.push_message(Message::user(user_input));
    }

    /// Count a completed user turn.
    pub fn count_turn(&mut self)
        requires
            old(self).turns_s() < u32::MAX,
        ensures
            final(self).turns_s() == old(self).turns_s() + 1,
            final(self).messages_s() == old(self).messages_s(),
            final(self).tool_iters_s() == old(self).tool_iters_s(),
            final(self).max_iterations_s() == old(self).max_iterations_s(),
            final(self).tools_s() == old(self).tools_s(),
    {
        self.turn_counter = self.turn_counter + 1;
    }

    /// Count one iteration of the tool loop.
    pub fn count_tool_iteration(&mut self)
        requires
            old(self).tool_iters_s() < u32::MAX,
        ensures
            final(self).tool_iters_s() == old(self).tool_iters_s() + 1,
            final(self).messages_s() == old(self).messages_s(),
            final(self).turns_s() == old(self).turns_s(),
            final(self).max_iterations_s() == old(self).max_iterations_s(),
            final(self).tools_s() == old(self).tools_s(),
    {
        self.tool_iteration_counter = self.tool_iteration_counter + 1;
    }

    /// Where to split the conversation for compression, if it is due.
    pub fn compression_split(&self) -> (r: Option<usize>)
        ensures
            match r {
                Some(k) => compression_split_s(self.messages_s().len() as int, self.threshold_s() as int) == Some(
                    k as int,
                ),
                None => compression_split_s(self.messages_s().len() as int, self.threshold_s() as int) is None,
            },
    {
        if self.compress_threshold == 0 {
            return None;
        }
        let n = self.conversation.messages.len();
        if n <= self.compress_threshold {
            return None;
        }
        Some(n.saturating_sub(COMPRESS_KEEP_RECENT))
    }

    /// The request that asks the model to summarize a transcript.
    pub fn summary_request(&self, conversation_text: &str) -> (r: ChatRequest)
        ensures
            r.model@ == self.config_s().model@,
            req_msgs(r.messages@) == seq![plain_message(Role::User, summary_prompt_s(conversation_text@))],
            r.tools is None,
            r.max_tokens == Some(500u32),
            !r.stream,
    {
        let mut prompt: Vec<char> = Vec::new();
        extend_chars(
            &mut prompt,
            "Summarize the following conversation concisely in 3-5 sentences. Preserve key facts, decisions, user preferences, and any important context that would be needed for continuing the conversation.\n\nConversation:\n",
        );
        extend_chars(&mut prompt, conversation_text);
        let p = string_of(prompt.as_slice());
        let mut messages: Vec<Message> = Vec::new();
        messages.push(Message::user(p.as_str()));
        assert(req_msgs(messages@) =~= seq![plain_message(Role::User, summary_prompt_s(conversation_text@))]);
        ChatRequest { model: self.config.model.clone(), messages, tools: None, max_tokens: Some(500), stream: false }
    }

    /// Replace the messages before `split` with one assistant message
    /// holding their summary.
    pub fn apply_compression(&mut self, split: usize, summary: &str)
        requires
            split <= old(self).messages_s().len(),
        ensures
            final(self).messages_s() == seq![plain_message(Role::Assistant, summary@)] + old(self).messages_s().skip(
                split as int,
            ),
            final(self).turns_s() == old(self).turns_s(),
            final(self).tool_iters_s() == old(self).tool_iters_s(),
            final(self).max_iterations_s() == old(self).max_iterations_s(),
            final(self).threshold_s() == old(self).threshold_s(),
            final(self).tools_s() == old(self).tools_s(),
    {
        let n = self.conversation.messages.len();
        let recent = crate::message::copy_messages(&self.conversation.messages, split, n);
        let mut new_messages: Vec<Message> = Vec::new();
        new_messages.push(Message::assistant(summary));
        let mut i: usize = 0;
        let ghost first = new_messages@;
        while i < recent.len()
            invariant
                i <= recent@.len(),
                new_messages@.len() == 1 + i,
                msgs_view(new_messages@) == msgs_view(first) + msgs_view(recent@.take(i as int)),
            decreases recent.len() - i,
        {
            let ghost pre = new_messages@;
            let m = recent[i].copy();
            new_messages.push(m);
            assert(msgs_view(new_messages@) =~= msgs_view(pre).push(m@));
            assert(msgs_view(recent@.take(i + 1)) =~= msgs_view(recent@.take(i as int)).push(recent@[i as int]@));
            i = i + 1;
        }
        assert(recent@.take(recent@.len() as int) =~= recent@);
        assert(msgs_view(self.conversation.messages@).skip(split as int) =~= msgs_view(
            self.conversation.messages@.subrange(split as int, n as int),
        ));
        self.conversation.messages = new_messages;
    }

    /// Build the request for the current conversation: the system prompt,
    /// then every message, with the registered tools.
    pub fn build_request(&self, stream: bool) -> (r: ChatRequest)
        ensures
            r.model@ == self.config_s().model@,
            req_msgs(r.messages@) == seq![plain_message(Role::System, self.prompt_s())] + self.messages_s(),
            tools_view(r.tools) == self.tools_s(),
            r.max_tokens == self.config_s().max_tokens,
            r.stream == stream,
    {
        let mut messages: Vec<Message> = Vec::new();
        messages.push(Message::system(self.system_prompt.as_str()));
        let ghost first = messages@;
        let mut i: usize = 0;
        while i < self.conversation.messages.len()
            invariant
                i <= self.conversation.messages@.len(),
                msgs_view(messages@) == msgs_view(first) + msgs_view(self.conversation.messages@.take(i as int)),
            decreases self.conversation.messages.len() - i,
        {
            let ghost pre = messages@;
            let m = self.conversation.messages[i].copy();
            messages.push(m);
            assert(msgs_view(messages@) =~= msgs_view(pre).push(m@));
            assert(msgs_view(self.conversation.messages@.take(i + 1)) =~= msgs_view(
                self.conversation.messages@.take(i as int),
            ).push(self.conversation.messages@[i as int]@));
            i = i + 1;
        }
        assert(self.conversation.messages@.take(self.conversation.messages@.len() as int)
            =~= self.conversation.messages@);
        let tools = match &self.tools {
            Some(t) => Some(copy_tool_definitions(t)),
            None => None,
        };
        ChatRequest {
            model: self.config.model.clone(),
            messages,
            tools,
            max_tokens: self.config.max_tokens,
            stream,
        }
    }

    /// Take a model reply: it joins the conversation, and its tool calls,
    /// when it has any (even an empty list), are to be run; otherwise it is
    /// the final answer.
    pub fn on_response(&mut self, message: Message) -> (r: ResponseStep)
        ensures
            final(self).messages_s() == old(self).messages_s().push(message@),
            final(self).turns_s() == old(self).turns_s(),
            final(self).tool_iters_s() == old(self).tool_iters_s(),
            final(self).max_iterations_s() == old(self).max_iterations_s(),
            final(self).tools_s() == old(self).tools_s(),
            match r {
                ResponseStep::RunTools(calls) => message@.tool_calls == Some(tcs_view(calls@)),
                ResponseStep::Final(m) => message.tool_calls is None && m@ == message@,
            },
    {
        let step = match &message.tool_calls {
            Some(calls) => ResponseStep::RunTools(crate::message::copy_tool_calls(calls)),
            None => ResponseStep::Final(message.copy()),
        };
        self.push_message(message);
        step
    }

    /// The tool calls of the last message, when it has some.
    pub fn pending_tool_calls(&self) -> (r: Option<Vec<ToolCall>>)
        ensures
            match r {
                Some(calls) => self.messages_s().len() > 0 && self.messages_s().last().tool_calls == Some(
                    tcs_view(calls@),
                ) && calls@.len() > 0,
                None => self.messages_s().len() == 0 || match self.messages_s().last().tool_calls {
                    Some(t) => t.len() == 0,
                    None => true,
                },
            },
    {
        let n = self.conversation.messages.len();
        if n == 0 {
            return None;
        }
        assert(self.messages_s().last() == self.conversation.messages@[n - 1]@);
        match &self.conversation.messages[n - 1].tool_calls {
            Some(calls) => {
                if calls.len() == 0 {
                    None
                } else {
                    let c = crate::message::copy_tool_calls(calls);
                    assert(tcs_view(c@).len() == c@.len());
                    assert(tcs_view(calls@).len() == calls@.len());
                    Some(c)
                }
            },
            None => None,
        }
    }

    /// A copy of the last message, if there is one.
    pub fn last_message(&self) -> (r: Option<Message>)
        ensures
            match r {
                Some(m) => self.messages_s().len() > 0 && m@ == self.messages_s().last(),
                None => self.messages_s().len() == 0,
            },
    {
        let n = self.conversation.messages.len();
        if n == 0 {
            None
        } else {
            assert(self.messages_s().last() == self.conversation.messages@[n - 1]@);
            Some(self.conversation.messages[n - 1].copy())
        }
    }

    /// Fails when the model asked for tools and none are registered.
    pub fn check_tools_registered(&self) -> (r: Result<(), McError>)
        ensures
            r is Ok <==> self.tools_s() is Some,
            r matches Err(e) ==> e matches McError::Tool(m) && m@
                == "LLM requested tool calls but no tools are registered"@,
    {
        if self.tools.is_some() {
            Ok(())
        } else {
            Err(McError::Tool("LLM requested tool calls but no tools are registered".to_owned()))
        }
    }

    /// Append one tool message per call, carrying its outcome: the output,
    /// or `Tool execution error: ` and the error.
    pub fn append_tool_results(&mut self, calls: &Vec<ToolCall>, outcomes: Vec<Result<String, McError>>)
        requires
            outcomes@.len() == calls@.len(),
        ensures
            final(self).messages_s() == old(self).messages_s() + tool_messages_s(calls@, outcomes@),
            final(self).turns_s() == old(self).turns_s(),
            final(self).tool_iters_s() == old(self).tool_iters_s(),
            final(self).max_iterations_s() == old(self).max_iterations_s(),
            final(self).tools_s() == old(self).tools_s(),
    {
        let ghost start = self.messages_s();
        let mut i: usize = 0;
        while i < calls.len()
            invariant
                i <= calls@.len(),
                outcomes@.len() == calls@.len(),
                self.messages_s() == start + tool_messages_s(calls@, outcomes@).take(i as int),
                self.turns_s() == old(self).turns_s(),
                self.tool_iters_s() == old(self).tool_iters_s(),
                self.max_iterations_s() == old(self).max_iterations_s(),
                self.tools_s() == old(self).tools_s(),
            decreases calls.len() - i,
        {
            let text = match &outcomes[i] {
                Ok(output) => output.clone(),
                Err(e) => {
                    let mut v: Vec<char> = Vec::new();
                    extend_chars(&mut v, "Tool execution error: ");
                    let m = e.message();
                    extend_chars(&mut v, m.as_str());
                    string_of(v.as_slice())
                },
            };
            let msg = Message::tool(calls[i].id.as_str(), text.as_str());
            self.push_message(msg);
            assert(tool_messages_s(calls@, outcomes@).take(i + 1) =~= tool_messages_s(calls@, outcomes@).take(
                i as int,
            ).push(tool_messages_s(calls@, outcomes@)[i as int]));
            i = i + 1;
        }
        assert(tool_messages_s(calls@, outcomes@).take(calls@.len() as int) =~= tool_messages_s(calls@, outcomes@));
    }

    /// The error of a tool loop that did not finish within the limit.
    pub fn loop_limit_error(&self) -> (r: McError)
        ensures
            r matches McError::Tool(m) && m@ == "Tool call loop exceeded maximum iterations ("@ + crate::text::decimal_s(
                self.max_iterations_s() as nat,
            ) + ")"@,
    {
        let mut v: Vec<char> = Vec::new();
        extend_chars(&mut v, "Tool call loop exceeded maximum iterations (");
        crate::text::push_decimal(&mut v, self.max_tool_iterations as u64);
        extend_chars(&mut v, ")");
        McError::Tool(string_of(v.as_slice()))
    }

    /// Append the message assembled from a streamed reply: its text (none
    /// when empty) and its tool calls.
    pub fn finalize_stream(&mut self, full_content: &str, tool_calls: Option<Vec<ToolCall>>)
        ensures
            final(self).messages_s() == old(self).messages_s().push(
                MessageV {
                    role: Role::Assistant,
                    content: if full_content@.len() == 0 {
                        None
                    } else {
                        Some(full_content@)
                    },
                    tool_calls: match tool_calls {
                        Some(v) => Some(tcs_view(v@)),
                        None => None,
                    },
                    tool_call_id: None,
                    name: None,
                },
            ),
            final(self).turns_s() == old(self).turns_s(),
            final(self).tool_iters_s() == old(self).tool_iters_s(),
    {
        let content = if full_content.is_empty() {
            None
        } else {
            Some(full_content.to_owned())
        };
        let message = Message { role: Role::Assistant, content, tool_calls, tool_call_id: None, name: None };
        self.push_message(message);
    }

    /// The review to start after a final answer: none without evolution or
    /// while one is running; else the one the counters call for.
    pub fn review_due(&self) -> (r: Option<ReviewTrigger>)
        ensures
            r == match self.nudge_s() {
                None => None,
                Some(c) => if self.pending_s() {
                    None
                } else {
                    should_review_s(c, self.turns_s(), self.tool_iters_s())
                },
            },
    {
        match &self.nudge {
            None => None,
            Some(c) => {
                if self.review_pending {
                    None
                } else {
                    should_review(c, self.turn_counter, self.tool_iteration_counter)
                }
            },
        }
    }

    /// Record whether a background review is running.
    pub fn set_review_pending(&mut self, pending: bool)
        ensures
            final(self).pending_s() == pending,
            final(self).messages_s() == old(self).messages_s(),
            final(self).turns_s() == old(self).turns_s(),
            final(self).tool_iters_s() == old(self).tool_iters_s(),
            final(self).nudge_s() == old(self).nudge_s(),
    {
        self.review_pending = pending;
    }
}

/// The final message of a turn: with a review summary, an assistant message
/// `Self-improvement: {summary}` followed by a blank line and the reply's
/// content; without one, the reply itself.
pub fn final_message(review_summary: Option<String>, reply: Message) -> (r: Message)
    ensures
        r@ == final_message_s(ostr(review_summary), reply@),
{
    match review_summary {
        None => reply,
        Some(summary) => {
            let mut v: Vec<char> = Vec::new();
            extend_chars(&mut v, "Self-improvement: ");
            extend_chars(&mut v, summary.as_str());
            match &reply.content {
                Some(c) => {
                    extend_chars(&mut v, "\n\n");
                    extend_chars(&mut v, c.as_str());
                },
                None => {},
            }
            Message::assistant(string_of(v.as_slice()).as_str())
        },
    }
}

/// The arguments of a tool call as JSON: the parsed text, or an empty
/// object when it is not JSON.
pub fn tool_args(arguments: &str) -> (r: Json)
    ensures
        r@ == match json_parsed(arguments@) {
            Some(v) => v,
            None => JsonV::Object(Seq::empty()),
        },
{
    match parse_json(arguments) {
        Ok(j) => j,
        Err(_) => {
            let r = crate::json::make_object(Vec::new());
            assert(crate::json::entries_view(Seq::<(String, Json)>::empty()) =~= Seq::empty());
            r
        },
    }
}

// ---------------------------------------------------------------------------
// Applying review results
// ---------------------------------------------------------------------------

/// The memory file a review update targets: `agent` or `user`.
pub open spec fn target_file_s(t: Seq<char>) -> Option<MemoryFile> {
    if t == "agent"@ {
        Some(MemoryFile::Agent)
    } else if t == "user"@ {
        Some(MemoryFile::User)
    } else {
        None
    }
}

/// A memory file's text after one update: `append` appends the content,
/// `update` replaces the named section when it exists; anything else
/// leaves it as it is.
pub open spec fn updated_text_s(text: Seq<char>, u: MemoryUpdate) -> Seq<char> {
    if u.action@ == "append"@ {
        append_text_s(text, u.content@)
    } else if u.action@ == "update"@ {
        match replace_section_s(text, u.section@, u.content@) {
            Some(t) => t,
            None => text,
        }
    } else {
        text
    }
}

/// Both memory files, `(agent, user)`, after one update.
pub open spec fn memory_after(m: (Seq<char>, Seq<char>), u: MemoryUpdate) -> (Seq<char>, Seq<char>) {
    match target_file_s(u.target@) {
        Some(MemoryFile::Agent) => (updated_text_s(m.0, u), m.1),
        Some(MemoryFile::User) => (m.0, updated_text_s(m.1, u)),
        None => m,
    }
}

/// Both memory files after a list of updates, applied in order.
pub open spec fn memories_after(m: (Seq<char>, Seq<char>), us: Seq<MemoryUpdate>) -> (Seq<char>, Seq<char>)
    decreases us.len(),
{
    if us.len() == 0 {
        m
    } else {
        memory_after(memories_after(m, us.drop_last()), us.last())
    }
}

/// Both memory files of a store, `(agent, user)`.
pub open spec fn memories_of(s: MemoryStore) -> (Seq<char>, Seq<char>) {
    (s.contents(MemoryFile::Agent), s.contents(MemoryFile::User))
}

/// Apply a review's memory updates to a memory store, in order.  Updates
/// with an unknown target or action are skipped, and an `update` of a
/// section that does not exist changes nothing.
pub fn apply_memory_updates(store: &mut MemoryStore, updates: &Vec<MemoryUpdate>)
    ensures
        memories_of(*final(store)) == memories_after(memories_of(*old(store)), updates@),
        final(store).base_path_s() == old(store).base_path_s(),
{
    let mut i: usize = 0;
    while i < updates.len()
        invariant
            i <= updates@.len(),
            memories_of(*store) == memories_after(memories_of(*old(store)), updates@.take(i as int)),
            store.base_path_s() == old(store).base_path_s(),
        decreases updates.len() - i,
    {
        let u = &updates[i];
        proof {
            assert(updates@.take(i + 1).drop_last() =~= updates@.take(i as int));
            assert(updates@.take(i + 1).last() == *u);
        }
        let file = if str_eq(u.target.as_str(), "agent") {
            Some(MemoryFile::Agent)
        } else if str_eq(u.target.as_str(), "user") {
            Some(MemoryFile::User)
        } else {
            None
        };
        if let Some(f) = file {
            if str_eq(u.action.as_str(), "append") {
                store.append_file(f, u.content.as_str());
            } else if str_eq(u.action.as_str(), "update") {
                let _ = store.update_section(f, u.section.as_str(), u.content.as_str());
            }
        }
        proof {
            match file {
                Some(MemoryFile::Agent) => {},
                Some(MemoryFile::User) => {},
                None => {},
            }
        }
        i = i + 1;
    }
    assert(updates@.take(updates@.len() as int) =~= updates@);
}

/// A skill action as plain text.
pub enum SkillActionV {
    Create(Seq<char>, Seq<char>),
    Edit(Seq<char>, Seq<char>),
    Delete(Seq<char>),
}

/// The view of a skill action.
pub open spec fn skill_action_view(a: SkillAction) -> SkillActionV {
    match a {
        SkillAction::Create { name, content } => SkillActionV::Create(name@, content@),
        SkillAction::Edit { name, content } => SkillActionV::Edit(name@, content@),
        SkillAction::Delete { name } => SkillActionV::Delete(name@),
    }
}

/// The action a skill update asks for: `create` and `edit` with content,
/// `delete`; `None` for a create or edit without content and for any other
/// action (`patch` among them).
pub open spec fn skill_action_s(u: SkillUpdate) -> Option<SkillActionV> {
    if u.action@ == "create"@ {
        match u.content {
            Some(c) => Some(SkillActionV::Create(u.name@, c@)),
            None => None,
        }
    } else if u.action@ == "edit"@ {
        match u.content {
            Some(c) => Some(SkillActionV::Edit(u.name@, c@)),
            None => None,
        }
    } else if u.action@ == "delete"@ {
        Some(SkillActionV::Delete(u.name@))
    } else {
        None
    }
}

/// The actions of a list of skill updates, in order, skipping the ones
/// that ask for none.
pub open spec fn skill_actions_s(us: Seq<SkillUpdate>) -> Seq<SkillActionV>
    decreases us.len(),
{
    if us.len() == 0 {
        Seq::empty()
    } else {
        skill_actions_s(us.drop_last()) + match skill_action_s(us.last()) {
            Some(a) => seq![a],
            None => Seq::empty(),
        }
    }
}

/// The skill actions a review's updates ask for, in order.
pub fn skill_actions(updates: &Vec<SkillUpdate>) -> (r: Vec<SkillAction>)
    ensures
        r@.map_values(|a: SkillAction| skill_action_view(a)) == skill_actions_s(updates@),
{
    let mut out: Vec<SkillAction> = Vec::new();
    let mut i: usize = 0;
    while i < updates.len()
        invariant
            i <= updates@.len(),
            out@.map_values(|a: SkillAction| skill_action_view(a)) == skill_actions_s(updates@.take(i as int)),
        decreases updates.len() - i,
    {
        let u = &updates[i];
        proof {
            assert(updates@.take(i + 1).drop_last() =~= updates@.take(i as int));
            assert(updates@.take(i + 1).last() == *u);
        }
        let ghost pre = out@;
        let action: Option<SkillAction> = if str_eq(u.action.as_str(), "create") {
            match &u.content {
                Some(c) => Some(SkillAction::Create { name: u.name.clone(), content: c.clone() }),
                None => None,
            }
        } else if str_eq(u.action.as_str(), "edit") {
            match &u.content {
                Some(c) => Some(SkillAction::Edit { name: u.name.clone(), content: c.clone() }),
                None => None,
            }
        } else if str_eq(u.action.as_str(), "delete") {
            Some(SkillAction::Delete { name: u.name.clone() })
        } else {
            None
        };
        match action {
            Some(a) => {
                out.push(a);
                assert(out@.map_values(|a: SkillAction| skill_action_view(a)) =~= pre.map_values(
                    |a: SkillAction| skill_action_view(a),
                ).push(skill_action_view(a)));
            },
            None => {},
        }
        i = i + 1;
    }
    assert(updates@.take(updates@.len() as int) =~= updates@);
    out
}

} // verus!
