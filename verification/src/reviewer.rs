//! Background review: when to review a conversation, the review prompt and
//! transcript, extracting the JSON answer from the model's reply, and the
//! fallback when the answer is not JSON.  Running the model and decoding
//! the JSON happen outside the library.
use vstd::prelude::*;
use crate::llm::role_name_s;
use crate::message::{Message, Role, ostr, msgs_view, MessageV};
use crate::text::{
    chars_of, extend_chars, extend_range, string_of, trim_s, trim_chars, find_s, find_chars, starts_with_s,
    starts_with_chars, join_s, occurs_at,
};

verus! {

/// Configuration for when to trigger background reviews.
#[derive(Debug, Clone, Copy, PartialEq, Eq, Structural)]
pub struct NudgeConfig {
    /// Number of conversation turns between memory reviews. Default: 10.
    pub memory_interval: u32,
    /// Number of tool invocations between skill reviews. Default: 10.
    pub skill_interval: u32,
}

impl NudgeConfig {
    /// Reviews every 10 turns and every 10 tool invocations.
    pub fn default() -> (r: Self)
        ensures
            r == (NudgeConfig { memory_interval: 10, skill_interval: 10 }),
    {
        NudgeConfig { memory_interval: 10, skill_interval: 10 }
    }

    /// Create a new config with custom intervals.
    pub fn new(memory_interval: u32, skill_interval: u32) -> (r: Self)
        ensures
            r == (NudgeConfig { memory_interval, skill_interval }),
    {
        NudgeConfig { memory_interval, skill_interval }
    }
}

/// Which type of review was triggered.
#[derive(Debug, Clone, Copy, PartialEq, Eq, Structural)]
pub enum ReviewTrigger {
    /// Memory review — analyze the conversation for knowledge updates.
    Memory,
    /// Skill review — analyze tool usage for skill improvements.
    Skill,
}

/// A counter has reached a non-zero multiple of an enabled interval.
pub open spec fn due(count: u32, interval: u32) -> bool {
    interval > 0 && count > 0 && count % interval == 0
}

/// The review due at these counts: memory when the turn count reaches a
/// multiple of the memory interval, else skill when the tool count reaches
/// a multiple of the skill interval; a zero interval disables its review.
pub open spec fn should_review_s(c: NudgeConfig, turns: u32, tool_iters: u32) -> Option<ReviewTrigger> {
    if due(turns, c.memory_interval) {
        Some(ReviewTrigger::Memory)
    } else if due(tool_iters, c.skill_interval) {
        Some(ReviewTrigger::Skill)
    } else {
        None
    }
}

/// Check whether a review should be triggered based on current counters.
/// If both thresholds are met, memory takes priority.
pub fn should_review(config: &NudgeConfig, turns: u32, tool_iters: u32) -> (r: Option<ReviewTrigger>)
    ensures
        r == should_review_s(*config, turns, tool_iters),
{
    if config.memory_interval > 0 && turns > 0 && turns % config.memory_interval == 0 {
        return Some(ReviewTrigger::Memory);
    }
    if config.skill_interval > 0 && tool_iters > 0 && tool_iters % config.skill_interval == 0 {
        return Some(ReviewTrigger::Skill);
    }
    None
}

/// A single proposed update to agent memory.
#[derive(Debug, Clone, PartialEq, Eq)]
pub struct MemoryUpdate {
    /// Target file: "agent" (MEMORY.md) or "user" (USER.md).
    pub target: String,
    /// Section heading under which to append/update.
    pub section: String,
    /// Content to write.
    pub content: String,
    /// "append" or "update".
    pub action: String,
}

/// A proposed skill change.
#[derive(Debug, Clone, PartialEq, Eq)]
pub struct SkillUpdate {
    /// Skill name.
    pub name: String,
    /// "create", "edit", "patch", or "delete".
    pub action: String,
    /// New content (for create/edit/patch). None for delete.
    pub content: Option<String>,
}

/// Result of a background review.
#[derive(Debug, Clone)]
pub struct ReviewResult {
    /// Proposed memory file updates.
    pub memory_updates: Vec<MemoryUpdate>,
    /// Proposed skill changes.
    pub skill_updates: Vec<SkillUpdate>,
    /// Human-readable summary for the user.
    pub summary: String,
}

/// The focus line of a review prompt.
pub open spec fn focus_s(t: ReviewTrigger) -> Seq<char> {
    match t {
        ReviewTrigger::Memory => "Focus on memory updates: user corrections, technical discoveries, preference changes, and new domain knowledge learned during this conversation."@,
        ReviewTrigger::Skill => "Focus on skill updates: tool usage patterns, frequently needed but missing skills, skills that need patching, and opportunities for new skill creation."@,
    }
}

/// The lines of the review agent's system prompt.
pub open spec fn review_prompt_lines_s(t: ReviewTrigger) -> Seq<Seq<char>> {
    seq![
        "You are a background conversation analyst. Analyze the conversation and identify:"@,
        ""@,
        "1. **User corrections** \u{2014} moments where the user corrected the assistant's approach, output, or understanding."@,
        "2. **Technical discoveries** \u{2014} new tools, APIs, patterns, or domain knowledge revealed during the conversation."@,
        "3. **Preference changes** \u{2014} shifts in user communication style, output format, workflow, or tooling preferences."@,
        ""@,
        focus_s(t),
        ""@,
        "Respond with a JSON object in this exact format:"@,
        "{"@,
        "  \"memory_updates\": ["@,
        "    {\"target\": \"agent\"|\"user\", \"section\": \"...\", \"content\": \"...\", \"action\": \"append\"|\"update\"}"@,
        "  ],"@,
        "  \"skill_updates\": ["@,
        "    {\"name\": \"skill-name\", \"action\": \"create\"|\"edit\"|\"patch\"|\"delete\", \"content\": \"...\" or null}"@,
        "  ],"@,
        "  \"summary\": \"Brief human-readable summary of findings.\""@,
        "}"@,
        ""@,
        "If no updates are needed, return empty arrays and a summary explaining why."@,
    ]
}

/// The system prompt of the review agent.
pub fn build_review_prompt(trigger: ReviewTrigger) -> (r: String)
    ensures
        r@ == join_s(review_prompt_lines_s(trigger), "\n"@),
{
    let focus: &str = match trigger {
        ReviewTrigger::Memory => "Focus on memory updates: user corrections, technical discoveries, preference changes, and new domain knowledge learned during this conversation.",
        ReviewTrigger::Skill => "Focus on skill updates: tool usage patterns, frequently needed but missing skills, skills that need patching, and opportunities for new skill creation.",
    };
    let lines: [&str; 20] = [
        "You are a background conversation analyst. Analyze the conversation and identify:",
        "",
        "1. **User corrections** \u{2014} moments where the user corrected the assistant's approach, output, or understanding.",
        "2. **Technical discoveries** \u{2014} new tools, APIs, patterns, or domain knowledge revealed during the conversation.",
        "3. **Preference changes** \u{2014} shifts in user communication style, output format, workflow, or tooling preferences.",
        "",
        focus,
        "",
        "Respond with a JSON object in this exact format:",
        "{",
        "  \"memory_updates\": [",
        "    {\"target\": \"agent\"|\"user\", \"section\": \"...\", \"content\": \"...\", \"action\": \"append\"|\"update\"}",
        "  ],",
        "  \"skill_updates\": [",
        "    {\"name\": \"skill-name\", \"action\": \"create\"|\"edit\"|\"patch\"|\"delete\", \"content\": \"...\" or null}",
        "  ],",
        "  \"summary\": \"Brief human-readable summary of findings.\"",
        "}",
        "",
        "If no updates are needed, return empty arrays and a summary explaining why.",
    ];
    let mut out: Vec<char> = Vec::new();
    let mut i: usize = 0;
    let ghost ls = review_prompt_lines_s(trigger);
    assert(lines@.map_values(|s: &str| s@) =~= ls);
    while i < 20
        invariant
            i <= 20,
            lines@.len() == 20,
            ls == lines@.map_values(|s: &str| s@),
            out@ == join_s(ls.take(i as int), "\n"@),
        decreases 20 - i,
    {
        if i > 0 {
            extend_chars(&mut out, "\n");
        }
        extend_chars(&mut out, lines[i]);
        proof {
            if i > 0 {
                crate::text::lemma_join_push(ls.take(i as int), "\n"@, ls[i as int]);
                assert(ls.take(i as int).push(ls[i as int]) =~= ls.take(i + 1));
            } else {
                assert(ls.take(1) =~= seq![ls[0]]);
            }
        }
        i = i + 1;
    }
    assert(ls.take(20) =~= ls);
    string_of(out.as_slice())
}

/// The label of a role in a transcript.
pub open spec fn role_label_s(r: Role) -> Seq<char> {
    match r {
        Role::System => "System"@,
        Role::User => "User"@,
        Role::Assistant => "Assistant"@,
        Role::Tool => "Tool"@,
    }
}

/// The label of a role in a transcript.
pub fn role_label(r: Role) -> (s: &'static str)
    ensures
        s@ == role_label_s(r),
{
    match r {
        Role::System => "System",
        Role::User => "User",
        Role::Assistant => "Assistant",
        Role::Tool => "Tool",
    }
}

/// One transcript entry: `Role: content` and a blank line.
pub open spec fn transcript_entry_s(m: MessageV) -> Seq<char> {
    role_label_s(m.role) + ": "@ + match m.content {
        Some(c) => c,
        None => "(no content)"@,
    } + "\n\n"@
}

/// The transcript of a list of messages.
pub open spec fn transcript_s(ms: Seq<MessageV>) -> Seq<char>
    decreases ms.len(),
{
    if ms.len() == 0 {
        Seq::empty()
    } else {
        transcript_s(ms.drop_last()) + transcript_entry_s(ms.last())
    }
}

/// Format conversation messages into a readable transcript.
pub fn format_conversation(messages: &Vec<Message>) -> (r: String)
    ensures
        r@ == transcript_s(msgs_view(messages@)),
{
    let mut out: Vec<char> = Vec::new();
    let mut i: usize = 0;
    while i < messages.len()
        invariant
            i <= messages@.len(),
            out@ == transcript_s(msgs_view(messages@.take(i as int))),
        decreases messages.len() - i,
    {
        let m = &messages[i];
        extend_chars(&mut out, role_label(m.role));
        extend_chars(&mut out, ": ");
        match &m.content {
            Some(c) => extend_chars(&mut out, c.as_str()),
            None => extend_chars(&mut out, "(no content)"),
        }
        extend_chars(&mut out, "\n\n");
        proof {
            assert(msgs_view(messages@.take(i + 1)).drop_last() =~= msgs_view(messages@.take(i as int)));
            assert(msgs_view(messages@.take(i + 1)).last() == m@);
        }
        i = i + 1;
    }
    assert(messages@.take(messages@.len() as int) =~= messages@);
    string_of(out.as_slice())
}

/// The user message of a review: existing memories and the transcript.
pub open spec fn review_user_content_s(agent: Seq<char>, user: Seq<char>, transcript: Seq<char>) -> Seq<char> {
    "## Existing Agent Memory\n"@ + agent + "\n\n## Existing User Memory\n"@ + user + "\n\n## Conversation Transcript\n"@
        + transcript
}

/// The user message of a review.
pub fn review_user_content(agent_memory: &str, user_memory: &str, transcript: &str) -> (r: String)
    ensures
        r@ == review_user_content_s(agent_memory@, user_memory@, transcript@),
{
    let mut out: Vec<char> = Vec::new();
    extend_chars(&mut out, "## Existing Agent Memory\n");
    extend_chars(&mut out, agent_memory);
    extend_chars(&mut out, "\n\n## Existing User Memory\n");
    extend_chars(&mut out, user_memory);
    extend_chars(&mut out, "\n\n## Conversation Transcript\n");
    extend_chars(&mut out, transcript);
    string_of(out.as_slice())
}

/// The position of the first `c` in `s`.
pub open spec fn char_pos(s: Seq<char>, c: char) -> Option<int> {
    find_s(s, seq![c])
}

/// The JSON inside a reply that may wrap it in a Markdown code fence.
///
/// After the first ```` ``` ````, an optional `json` tag and the line break
/// are skipped and the text up to the next fence is returned, trimmed.
/// When the fence is not followed by a line break (with or without the
/// tag), or has no closing fence, the whole trimmed reply is returned.
pub open spec fn extract_json_s(raw: Seq<char>) -> Seq<char> {
    let t = trim_s(raw);
    match find_s(t, "```"@) {
        None => t,
        Some(start) => {
            let after = t.skip(start + 3);
            let tagged = starts_with_s(after, "json\n"@) || starts_with_s(after, "json\r\n"@);
            let bare = starts_with_s(after, "\n"@) || starts_with_s(after, "\r\n"@);
            if !tagged && !bare {
                t
            } else {
                let nl = match char_pos(after, '\n') {
                    Some(k) => k,
                    None => if tagged { 4 } else { 0 },
                };
                let body = after.skip(nl + 1);
                match find_s(body, "```"@) {
                    Some(end) => trim_s(body.take(end)),
                    None => t,
                }
            }
        },
    }
}

/// Extract JSON from a reply that might be wrapped in Markdown code fences.
pub fn extract_json(raw: &str) -> (r: String)
    ensures
        r@ == extract_json_s(raw@),
{
    let rv = chars_of(raw);
    let t = trim_chars(rv.as_slice());
    let fence = chars_of("```");
    proof {
        reveal_strlit("```");
    }
    assert(fence@.len() == 3);
    let start = match find_chars(t.as_slice(), fence.as_slice()) {
        Some(s) => s,
        None => {
            return string_of(t.as_slice());
        },
    };
    assert(occurs_at(t@, fence@, start as int));
    assert(start + 3 <= t@.len());
    assert(t@.len() == t.len());
    let mut after: Vec<char> = Vec::new();
    extend_range(&mut after, t.as_slice(), start + 3, t.len());
    assert(after@ =~= t@.skip(start + 3));
    let tagged = starts_with_chars(after.as_slice(), chars_of("json\n").as_slice()) || starts_with_chars(
        after.as_slice(),
        chars_of("json\r\n").as_slice(),
    );
    let bare = starts_with_chars(after.as_slice(), chars_of("\n").as_slice()) || starts_with_chars(
        after.as_slice(),
        chars_of("\r\n").as_slice(),
    );
    if !tagged && !bare {
        return string_of(t.as_slice());
    }
    let nlv = chars_of("\n");
    proof {
        reveal_strlit("\n");
        assert(nlv@ =~= seq!['\n']);
    }
    let nl: usize = match find_chars(after.as_slice(), nlv.as_slice()) {
        Some(k) => k,
        None => if tagged { 4 } else { 0 },
    };
    if nl + 1 > after.len() {
        proof {
            reveal_strlit("json\n");
            reveal_strlit("json\r\n");
            reveal_strlit("\r\n");
        }
        assert(false);
        return string_of(t.as_slice());
    }
    let mut body: Vec<char> = Vec::new();
    extend_range(&mut body, after.as_slice(), nl + 1, after.len());
    assert(body@ =~= after@.skip(nl + 1));
    match find_chars(body.as_slice(), fence.as_slice()) {
        Some(end) => {
            let mut inner: Vec<char> = Vec::new();
            extend_range(&mut inner, body.as_slice(), 0, end);
            assert(inner@ =~= body@.take(end as int));
            string_of(trim_chars(inner.as_slice()).as_slice())
        },
        None => string_of(t.as_slice()),
    }
}

/// A review result with only a summary.
pub fn summary_only(summary: &str) -> (r: ReviewResult)
    ensures
        r.memory_updates@.len() == 0,
        r.skill_updates@.len() == 0,
        r.summary@ == summary@,
{
    ReviewResult { memory_updates: Vec::new(), skill_updates: Vec::new(), summary: summary.to_owned() }
}

/// The review result of a reply: `parsed` is the reply's extracted JSON
/// decoded as a review result, when it is one; otherwise the trimmed reply
/// becomes the summary and no update is proposed.
pub fn parse_review_result(raw: &str, parsed: Option<ReviewResult>) -> (r: ReviewResult)
    ensures
        match parsed {
            Some(p) => r == p,
            None => r.memory_updates@.len() == 0 && r.skill_updates@.len() == 0 && r.summary@ == trim_s(raw@),
        },
{
    match parsed {
        Some(p) => p,
        None => {
            let t = trim_chars(chars_of(raw).as_slice());
            let s = string_of(t.as_slice());
            summary_only(s.as_str())
        },
    }
}

/// The text a review reply carries: its content, `{}` when it has none.
pub fn review_reply_text(message: &Message) -> (r: String)
    ensures
        r@ == match ostr(message.content) {
            Some(c) => c,
            None => "{}"@,
        },
{
    match &message.content {
        Some(c) => c.clone(),
        None => "{}".to_owned(),
    }
}


/// The request a review sends: to the default model, the review prompt as
/// the system message and the memories with the transcript as the user
/// message, no tools, at most 4096 tokens, not streamed (the sampling
/// temperature is set by the caller).
pub fn review_request(trigger: ReviewTrigger, agent_memory: &str, user_memory: &str, transcript: &str) -> (r:
    crate::llm::ChatRequest)
    ensures
        r.model@ == "default"@,
        crate::llm::req_msgs(r.messages@) == seq![
            crate::message::plain_message(Role::System, join_s(review_prompt_lines_s(trigger), "\n"@)),
            crate::message::plain_message(Role::User, review_user_content_s(agent_memory@, user_memory@, transcript@)),
        ],
        r.tools is None,
        r.max_tokens == Some(4096u32),
        !r.stream,
{
    let system = build_review_prompt(trigger);
    let user = review_user_content(agent_memory, user_memory, transcript);
    let mut messages: Vec<Message> = Vec::new();
    messages.push(Message::system(system.as_str()));
    messages.push(Message::user(user.as_str()));
    assert(crate::llm::req_msgs(messages@) =~= seq![
        crate::message::plain_message(Role::System, join_s(review_prompt_lines_s(trigger), "\n"@)),
        crate::message::plain_message(Role::User, review_user_content_s(agent_memory@, user_memory@, transcript@)),
    ]);
    crate::llm::ChatRequest {
        model: "default".to_owned(),
        messages,
        tools: None,
        max_tokens: Some(4096),
        stream: false,
    }
}

} // verus!
