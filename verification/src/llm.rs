//! LLM provider protocol: request bodies, response and stream parsing for
//! the OpenAI-compatible and the Anthropic wire formats, and the retry
//! policy.  The HTTP transport itself lives outside the library; these
//! functions turn messages into JSON bodies and JSON replies into messages.
use vstd::prelude::*;
use rand::Rng;
use crate::error::McError;
use crate::json::{
    Json, JsonV, jv, jget, jfield, jstr, jarr, ju64, jnum, opt_jv, field, str_of, u64_of,
    owned_str, entries_view, elems_view, make_object, make_array, push_entry, push_elem,
    str_json, json_parsed, parse_json, json_text, json_to_string,
};
use crate::message::{
    Message, MessageV, Role, ToolCall, FunctionCall, ToolCallV, ToolDefinition, ostr,
    tcs_view, tc_view,
};
use crate::text::{
    str_eq, push_str, chars_of, lines_of, lines_s, trim_chars, trim_s, starts_with_chars,
    starts_with_s, chars_eq, extend_range, string_of, contains_s, contains_chars,
};

verus! {

// ───────────────────────────── types ─────────────────────────────

/// Reason the model stopped generating tokens.
#[derive(Debug, Clone)]
pub enum FinishReason {
    /// The model reached a natural stopping point.
    Stop,
    /// The model hit the max_tokens limit.
    Length,
    /// The model requested a tool call.
    ToolCalls,
    /// Content was filtered by safety systems.
    ContentFilter,
    /// Other or unknown reason.
    Other(String),
}

/// A finish reason as plain values.
pub enum FinishV {
    Stop,
    Length,
    ToolCalls,
    ContentFilter,
    Other(Seq<char>),
}

/// The plain value of a finish reason.
pub open spec fn finish_view(f: FinishReason) -> FinishV {
    match f {
        FinishReason::Stop => FinishV::Stop,
        FinishReason::Length => FinishV::Length,
        FinishReason::ToolCalls => FinishV::ToolCalls,
        FinishReason::ContentFilter => FinishV::ContentFilter,
        FinishReason::Other(s) => FinishV::Other(s@),
    }
}

/// The plain value of an optional finish reason.
pub open spec fn opt_finish_view(f: Option<FinishReason>) -> Option<FinishV> {
    match f {
        Some(x) => Some(finish_view(x)),
        None => None,
    }
}

impl FinishReason {
    /// A copy of the finish reason.
    pub fn copy(&self) -> (r: FinishReason)
        ensures
            finish_view(r) == finish_view(*self),
    {
        match self {
            FinishReason::Stop => FinishReason::Stop,
            FinishReason::Length => FinishReason::Length,
            FinishReason::ToolCalls => FinishReason::ToolCalls,
            FinishReason::ContentFilter => FinishReason::ContentFilter,
            FinishReason::Other(s) => FinishReason::Other(s.clone()),
        }
    }
}

/// A copy of an optional finish reason.
pub fn copy_opt_finish(f: &Option<FinishReason>) -> (r: Option<FinishReason>)
    ensures
        opt_finish_view(r) == opt_finish_view(*f),
{
    match f {
        Some(x) => Some(x.copy()),
        None => None,
    }
}

/// Token usage statistics from an LLM call.
#[derive(Debug, Clone, Copy, PartialEq, Eq, Structural)]
pub struct Usage {
    /// Number of tokens in the prompt.
    pub prompt_tokens: u32,
    /// Number of tokens in the completion.
    pub completion_tokens: u32,
    /// Total tokens used (prompt + completion).
    pub total_tokens: u32,
}

impl Usage {
    /// All counts zero.
    pub fn zero() -> (r: Usage)
        ensures
            r == (Usage { prompt_tokens: 0, completion_tokens: 0, total_tokens: 0 }),
    {
        Usage { prompt_tokens: 0, completion_tokens: 0, total_tokens: 0 }
    }
}

/// A non-streaming chat completion response.
#[derive(Debug, Clone)]
pub struct ChatResponse {
    /// The assistant's response message.
    pub message: Message,
    /// Token usage statistics.
    pub usage: Usage,
    /// Why the model stopped generating.
    pub finish_reason: FinishReason,
}

/// Incremental tool call data in a stream chunk.
#[derive(Debug, Clone)]
pub struct ToolCallDelta {
    /// Index of the tool call in the array (may be omitted on continuation).
    pub index: u32,
    /// The tool call ID (sent on the first chunk for this call).
    pub id: Option<String>,
    /// The function name (sent on the first chunk for this call).
    pub name: Option<String>,
    /// Incremental function arguments JSON fragment.
    pub arguments_delta: Option<String>,
}

impl ToolCallDelta {
    /// A copy of the delta.
    pub fn copy(&self) -> (r: ToolCallDelta)
        ensures
            delta_view(r) == delta_view(*self),
    {
        ToolCallDelta {
            index: self.index,
            id: crate::message::copy_opt(&self.id),
            name: crate::message::copy_opt(&self.name),
            arguments_delta: crate::message::copy_opt(&self.arguments_delta),
        }
    }
}

/// A tool call delta as plain values: `(index, id, name, arguments fragment)`.
pub type DeltaV = (u32, Option<Seq<char>>, Option<Seq<char>>, Option<Seq<char>>);

/// The plain value of a tool call delta.
pub open spec fn delta_view(d: ToolCallDelta) -> DeltaV {
    (d.index, ostr(d.id), ostr(d.name), ostr(d.arguments_delta))
}

/// A single chunk in a streaming response.
#[derive(Debug, Clone)]
pub struct StreamChunk {
    /// Incremental text content delta.
    pub delta: String,
    /// Incremental tool call information (if the model is calling tools).
    pub tool_call_delta: Option<ToolCallDelta>,
    /// If present, the stream is ending with this reason.
    pub finish_reason: Option<FinishReason>,
}

/// A stream chunk as plain values.
pub type ChunkV = (Seq<char>, Option<DeltaV>, Option<FinishV>);

/// The plain value of a stream chunk.
pub open spec fn chunk_view(c: StreamChunk) -> ChunkV {
    (
        c.delta@,
        match c.tool_call_delta {
            Some(d) => Some(delta_view(d)),
            None => None,
        },
        opt_finish_view(c.finish_reason),
    )
}

/// The plain values of a list of stream chunks.
pub open spec fn chunks_view(v: Seq<StreamChunk>) -> Seq<ChunkV> {
    v.map_values(|c: StreamChunk| chunk_view(c))
}

/// The error of a failed LLM exchange with a message.
pub open spec fn is_llm_error(e: McError, m: Seq<char>) -> bool {
    e matches McError::Llm(s) && s@ == m
}

// ───────────────────────────── finish reasons ─────────────────────────────

/// The OpenAI `finish_reason` vocabulary.
pub open spec fn openai_finish_s(s: Seq<char>) -> FinishV {
    if s == "stop"@ {
        FinishV::Stop
    } else if s == "length"@ {
        FinishV::Length
    } else if s == "tool_calls"@ || s == "function_call"@ {
        FinishV::ToolCalls
    } else if s == "content_filter"@ {
        FinishV::ContentFilter
    } else {
        FinishV::Other(s)
    }
}

/// Parse an OpenAI `finish_reason` string.
pub fn parse_finish_reason(s: &str) -> (r: FinishReason)
    ensures
        finish_view(r) == openai_finish_s(s@),
{
    if str_eq(s, "stop") {
        FinishReason::Stop
    } else if str_eq(s, "length") {
        FinishReason::Length
    } else if str_eq(s, "tool_calls") || str_eq(s, "function_call") {
        FinishReason::ToolCalls
    } else if str_eq(s, "content_filter") {
        FinishReason::ContentFilter
    } else {
        FinishReason::Other(s.to_owned())
    }
}

/// The Anthropic `stop_reason` vocabulary.
pub open spec fn anthropic_stop_s(s: Seq<char>) -> FinishV {
    if s == "end_turn"@ || s == "stop_sequence"@ {
        FinishV::Stop
    } else if s == "max_tokens"@ {
        FinishV::Length
    } else if s == "tool_use"@ {
        FinishV::ToolCalls
    } else {
        FinishV::Other(s)
    }
}

/// Parse an Anthropic `stop_reason` string.
pub fn parse_stop_reason(s: &str) -> (r: FinishReason)
    ensures
        finish_view(r) == anthropic_stop_s(s@),
{
    if str_eq(s, "end_turn") || str_eq(s, "stop_sequence") {
        FinishReason::Stop
    } else if str_eq(s, "max_tokens") {
        FinishReason::Length
    } else if str_eq(s, "tool_use") {
        FinishReason::ToolCalls
    } else {
        FinishReason::Other(s.to_owned())
    }
}

// ───────────────────────────── OpenAI responses ─────────────────────────────

/// A token count field: the `u64` value, 0 when absent, truncated to `u32`.
pub open spec fn count_s(u: Option<JsonV>, k: Seq<char>) -> u32 {
    (match ju64(jfield(u, k)) {
        Some(n) => n,
        None => 0u64,
    }) as u32
}

/// The OpenAI `usage` object.
pub open spec fn openai_usage_s(u: JsonV) -> Usage {
    Usage {
        prompt_tokens: count_s(Some(u), "prompt_tokens"@),
        completion_tokens: count_s(Some(u), "completion_tokens"@),
        total_tokens: count_s(Some(u), "total_tokens"@),
    }
}

/// A token count field of an optional object, as the wire gives it.
fn count_of(u: Option<&Json>, k: &str) -> (r: u32)
    ensures
        r == count_s(opt_jv(u), k@),
{
    let n = match u64_of(field(u, k)) {
        Some(n) => n,
        None => 0u64,
    };
    n as u32
}

/// Parse the OpenAI `usage` JSON object.
pub fn parse_usage(val: &Json) -> (r: Usage)
    ensures
        r == openai_usage_s(val@),
{
    Usage {
        prompt_tokens: count_of(Some(val), "prompt_tokens"),
        completion_tokens: count_of(Some(val), "completion_tokens"),
        total_tokens: count_of(Some(val), "total_tokens"),
    }
}

/// One OpenAI tool call, when it has a string `id` and a `function` with
/// string `name` and `arguments`.
pub open spec fn openai_tool_call_s(tc: JsonV) -> Option<ToolCallV> {
    let f = jget(tc, "function"@);
    match (jstr(jget(tc, "id"@)), jstr(jfield(f, "name"@)), jstr(jfield(f, "arguments"@))) {
        (Some(id), Some(n), Some(a)) => Some((id, n, a)),
        _ => None,
    }
}

/// The well-formed tool calls of an OpenAI `tool_calls` array, in order.
pub open spec fn openai_tool_calls_s(a: Seq<JsonV>) -> Seq<ToolCallV>
    decreases a.len(),
{
    if a.len() == 0 {
        seq![]
    } else {
        openai_tool_calls_s(a.drop_last()) + match openai_tool_call_s(a.last()) {
            Some(t) => seq![t],
            None => seq![],
        }
    }
}

/// The first choice of an OpenAI response, if there is one.
pub open spec fn openai_choice_s(j: JsonV) -> Option<JsonV> {
    match jarr(jget(j, "choices"@)) {
        Some(a) => if a.len() > 0 { Some(a[0]) } else { None },
        None => None,
    }
}

/// The assistant message an OpenAI `message` object denotes.
pub open spec fn openai_message_s(m: JsonV) -> MessageV {
    MessageV {
        role: Role::Assistant,
        content: jstr(jget(m, "content"@)),
        tool_calls: match jarr(jget(m, "tool_calls"@)) {
            Some(a) => Some(openai_tool_calls_s(a)),
            None => None,
        },
        tool_call_id: None,
        name: None,
    }
}

/// The usage of a response, all zero when absent.
pub open spec fn usage_or_zero(u: Option<JsonV>, f: spec_fn(JsonV) -> Usage) -> Usage {
    match u {
        Some(v) => f(v),
        None => Usage { prompt_tokens: 0, completion_tokens: 0, total_tokens: 0 },
    }
}

/// The finish reason of an OpenAI choice (`Stop` when absent).
pub open spec fn openai_choice_finish_s(c: JsonV) -> FinishV {
    match jstr(jget(c, "finish_reason"@)) {
        Some(s) => openai_finish_s(s),
        None => FinishV::Stop,
    }
}

/// The tool calls of an OpenAI `tool_calls` array that are well formed.
fn openai_tool_calls(arr: &Vec<Json>) -> (r: Vec<ToolCall>)
    ensures
        tcs_view(r@) == openai_tool_calls_s(Seq::new(arr@.len(), |i: int| jv(arr@[i]))),
{
    let ghost a = Seq::new(arr@.len(), |i: int| jv(arr@[i]));
    let mut out: Vec<ToolCall> = Vec::new();
    let mut i: usize = 0;
    while i < arr.len()
        invariant
            i <= arr@.len(),
            a == Seq::new(arr@.len(), |i: int| jv(arr@[i])),
            tcs_view(out@) == openai_tool_calls_s(a.take(i as int)),
        decreases arr.len() - i,
    {
        let tc = &arr[i];
        let f = tc.get("function");
        let id = str_of(tc.get("id"));
        let name = str_of(field(f, "name"));
        let args = str_of(field(f, "arguments"));
        let ghost prev = out@;
        proof {
            assert(a.take(i + 1).drop_last() =~= a.take(i as int));
            assert(a.take(i + 1).last() == jv(*tc));
        }
        match (id, name, args) {
            (Some(id), Some(name), Some(args)) => {
                out.push(ToolCall {
                    id: id.to_owned(),
                    function: FunctionCall { name: name.to_owned(), arguments: args.to_owned() },
                });
                assert(tcs_view(out@) =~= tcs_view(prev) + seq![(id@, name@, args@)]);
            },
            _ => {
                assert(tcs_view(out@) =~= tcs_view(prev) + seq![]);
            },
        }
        i = i + 1;
    }
    assert(a.take(arr@.len() as int) =~= a);
    out
}

/// Parse an OpenAI non-streaming response JSON into a `ChatResponse`.
///
/// Fails when there is no first choice, or the first choice has no message.
pub fn openai_parse_response(json: &Json) -> (r: Result<ChatResponse, McError>)
    ensures
        match openai_choice_s(json@) {
            None => r matches Err(e) && is_llm_error(e, "No choices in response"@),
            Some(c) => match jget(c, "message"@) {
                None => r matches Err(e) && is_llm_error(e, "No message in choice"@),
                Some(m) => r matches Ok(resp) && resp.message@ == openai_message_s(m)
                    && resp.usage == usage_or_zero(jget(json@, "usage"@), |u: JsonV| openai_usage_s(u))
                    && finish_view(resp.finish_reason) == openai_choice_finish_s(c),
            },
        },
{
    let choices = match json.get("choices") {
        Some(c) => c.as_array(),
        None => None,
    };
    let choice = match choices {
        Some(a) => if a.len() > 0 { &a[0] } else {
            return Err(McError::Llm("No choices in response".to_owned()));
        },
        None => {
            return Err(McError::Llm("No choices in response".to_owned()));
        },
    };
    let message_obj = match choice.get("message") {
        Some(m) => m,
        None => {
            return Err(McError::Llm("No message in choice".to_owned()));
        },
    };
    let content = owned_str(str_of(message_obj.get("content")));
    let tool_calls = match message_obj.get("tool_calls") {
        Some(tc) => match tc.as_array() {
            Some(arr) => {
                let v = openai_tool_calls(arr);
                proof {
                    let a = Seq::new(arr@.len(), |i: int| jv(arr@[i]));
                    assert(a =~= jv(*tc)->Array_0);
                }
                Some(v)
            },
            None => None,
        },
        None => None,
    };
    let message = Message { role: Role::Assistant, content, tool_calls, tool_call_id: None, name: None };
    let usage = match json.get("usage") {
        Some(u) => parse_usage(u),
        None => Usage::zero(),
    };
    let finish_reason = match str_of(choice.get("finish_reason")) {
        Some(s) => parse_finish_reason(s),
        None => FinishReason::Stop,
    };
    Ok(ChatResponse { message, usage, finish_reason })
}

// ───────────────────────────── OpenAI streaming ─────────────────────────────

/// One OpenAI tool call delta.
pub open spec fn openai_delta_s(tc: JsonV) -> DeltaV {
    let f = jget(tc, "function"@);
    (
        (match ju64(jget(tc, "index"@)) {
            Some(n) => n,
            None => 0u64,
        }) as u32,
        jstr(jget(tc, "id"@)),
        jstr(jfield(f, "name"@)),
        jstr(jfield(f, "arguments"@)),
    )
}

/// The text of an optional string, empty when absent.
pub open spec fn str_or_empty(o: Option<Seq<char>>) -> Seq<char> {
    match o {
        Some(s) => s,
        None => Seq::empty(),
    }
}

/// The chunks one OpenAI SSE event yields: one per tool call delta, the
/// first of them carrying the text and the finish reason; or a single chunk
/// with text and finish reason when there is no tool call delta; or none
/// when the event carries nothing.
pub open spec fn openai_chunks_s(j: JsonV) -> Seq<ChunkV> {
    match openai_choice_s(j) {
        None => seq![],
        Some(c) => {
            let delta = jget(c, "delta"@);
            let text = str_or_empty(jstr(jfield(delta, "content"@)));
            let finish = match jstr(jget(c, "finish_reason"@)) {
                Some(s) => Some(openai_finish_s(s)),
                None => None,
            };
            let deltas = match jarr(jfield(delta, "tool_calls"@)) {
                Some(a) => a.map_values(|t: JsonV| openai_delta_s(t)),
                None => seq![],
            };
            if text.len() == 0 && deltas.len() == 0 && finish is None {
                seq![]
            } else if deltas.len() == 0 {
                seq![(text, None, finish)]
            } else {
                Seq::new(
                    deltas.len(),
                    |i: int|
                        if i == 0 {
                            (text, Some(deltas[i]), finish)
                        } else {
                            (Seq::<char>::empty(), Some(deltas[i]), None::<FinishV>)
                        },
                )
            }
        },
    }
}

/// One OpenAI tool call delta.
fn openai_delta(tc: &Json) -> (r: ToolCallDelta)
    ensures
        delta_view(r) == openai_delta_s(tc@),
{
    let f = tc.get("function");
    let index = match u64_of(tc.get("index")) {
        Some(n) => n,
        None => 0u64,
    };
    ToolCallDelta {
        index: index as u32,
        id: owned_str(str_of(tc.get("id"))),
        name: owned_str(str_of(field(f, "name"))),
        arguments_delta: owned_str(str_of(field(f, "arguments"))),
    }
}

/// Parse a single OpenAI SSE delta chunk JSON into zero or more `StreamChunk`s.
///
/// One SSE event can carry several tool call deltas; each becomes a chunk of
/// its own so that accumulators can process them by index.
pub fn openai_parse_stream_chunks(json: &Json) -> (r: Result<Vec<StreamChunk>, McError>)
    ensures
        r matches Ok(v) && chunks_view(v@) == openai_chunks_s(json@),
{
    let choices = match json.get("choices") {
        Some(c) => c.as_array(),
        None => None,
    };
    let choice = match choices {
        Some(a) => if a.len() > 0 { &a[0] } else {
            let v: Vec<StreamChunk> = Vec::new();
            assert(chunks_view(v@) =~= seq![]);
            return Ok(v);
        },
        None => {
            let v: Vec<StreamChunk> = Vec::new();
            assert(chunks_view(v@) =~= seq![]);
            return Ok(v);
        },
    };
    let delta = choice.get("delta");
    let text: String = match str_of(field(delta, "content")) {
        Some(t) => t.to_owned(),
        None => String::new(),
    };
    let finish = match str_of(choice.get("finish_reason")) {
        Some(s) => Some(parse_finish_reason(s)),
        None => None,
    };
    let mut deltas: Vec<ToolCallDelta> = Vec::new();
    let ghost mut dv: Seq<JsonV> = seq![];
    match field(delta, "tool_calls") {
        Some(tcs) => match tcs.as_array() {
            Some(arr) => {
                proof {
                    dv = jv(*tcs)->Array_0;
                }
                let mut i: usize = 0;
                while i < arr.len()
                    invariant
                        i <= arr@.len(),
                        dv.len() == arr@.len(),
                        forall|k: int| 0 <= k < arr@.len() ==> jv(#[trigger] arr@[k]) == dv[k],
                        deltas@.len() == i,
                        forall|k: int| 0 <= k < i ==> delta_view(#[trigger] deltas@[k]) == openai_delta_s(dv[k]),
                    decreases arr.len() - i,
                {
                    deltas.push(openai_delta(&arr[i]));
                    i = i + 1;
                }
            },
            None => {},
        },
        None => {},
    }
    let ghost ds = match jarr(jfield(opt_jv(delta), "tool_calls"@)) {
        Some(a) => a.map_values(|t: JsonV| openai_delta_s(t)),
        None => seq![],
    };
    assert(ds.len() == deltas@.len());
    assert(forall|k: int| 0 <= k < ds.len() ==> ds[k] == delta_view(#[trigger] deltas@[k]));
    let ghost fv = opt_finish_view(finish);
    let ghost tv = text@;
    let mut chunks: Vec<StreamChunk> = Vec::new();
    if text.as_str().is_empty() && deltas.len() == 0 && finish.is_none() {
        assert(chunks_view(chunks@) =~= seq![]);
        return Ok(chunks);
    }
    if deltas.len() == 0 {
        chunks.push(StreamChunk { delta: text, tool_call_delta: None, finish_reason: finish });
        assert(chunks_view(chunks@) =~= seq![(tv, None::<DeltaV>, fv)]);
        return Ok(chunks);
    }
    let n = deltas.len();
    let mut i: usize = 0;
    while i < n
        invariant
            n == ds.len(),
            deltas@.len() == n,
            forall|k: int| 0 <= k < n ==> ds[k] == delta_view(#[trigger] deltas@[k]),
            text@ == tv,
            opt_finish_view(finish) == fv,
            chunks@.len() == i,
            i <= n,
            forall|k: int| 0 <= k < i ==> chunk_view(#[trigger] chunks@[k]) == (if k == 0 {
                (tv, Some(ds[k]), fv)
            } else {
                (Seq::<char>::empty(), Some(ds[k]), None::<FinishV>)
            }),
        decreases n - i,
    {
        let d = deltas[i].copy();
        if i == 0 {
            chunks.push(StreamChunk { delta: text.clone(), tool_call_delta: Some(d), finish_reason: copy_opt_finish(&finish) });
        } else {
            chunks.push(StreamChunk { delta: String::new(), tool_call_delta: Some(d), finish_reason: None });
        }
        i = i + 1;
    }
    assert(chunks_view(chunks@) =~= openai_chunks_s(json@));
    Ok(chunks)
}

// ───────────────────────────── requests ─────────────────────────────

/// A chat completion request to an LLM provider.
///
/// The sampling temperature is a float and is added to the wire body by
/// the transport.
#[derive(Debug)]
pub struct ChatRequest {
    /// Model identifier.
    pub model: String,
    /// Conversation messages.
    pub messages: Vec<Message>,
    /// Optional tool definitions for function calling.
    pub tools: Option<Vec<ToolDefinition>>,
    /// Maximum tokens in the response.
    pub max_tokens: Option<u32>,
    /// Whether to stream the response.
    pub stream: bool,
}

/// The wire name of a role.
pub open spec fn role_name_s(r: Role) -> Seq<char> {
    match r {
        Role::System => "system"@,
        Role::User => "user"@,
        Role::Assistant => "assistant"@,
        Role::Tool => "tool"@,
    }
}

/// The wire name of a role.
pub fn role_name(r: Role) -> (s: &'static str)
    ensures
        s@ == role_name_s(r),
{
    match r {
        Role::System => "system",
        Role::User => "user",
        Role::Assistant => "assistant",
        Role::Tool => "tool",
    }
}

/// An entry `k: "v"` when `v` is present, nothing otherwise.
pub open spec fn opt_str_entry(k: Seq<char>, v: Option<Seq<char>>) -> Seq<(Seq<char>, JsonV)> {
    match v {
        Some(s) => seq![(k, JsonV::Str(s))],
        None => seq![],
    }
}

/// An OpenAI tool call object.
pub open spec fn openai_tool_call_json_s(t: ToolCallV) -> JsonV {
    JsonV::Object(
        seq![
            ("id"@, JsonV::Str(t.0)),
            ("type"@, JsonV::Str("function"@)),
            ("function"@, JsonV::Object(seq![("name"@, JsonV::Str(t.1)), ("arguments"@, JsonV::Str(t.2))])),
        ],
    )
}

/// A message in the OpenAI format.
pub open spec fn openai_message_json_s(m: MessageV) -> JsonV {
    JsonV::Object(
        seq![("role"@, JsonV::Str(role_name_s(m.role)))] + opt_str_entry("content"@, m.content)
            + match m.tool_calls {
            Some(v) => seq![
                ("tool_calls"@, JsonV::Array(v.map_values(|t: ToolCallV| openai_tool_call_json_s(t)))),
            ],
            None => seq![],
        } + opt_str_entry("tool_call_id"@, m.tool_call_id),
    )
}

/// The view of a tool definition: `(name, description, parameters)`.
pub open spec fn tooldef_view(t: ToolDefinition) -> (Seq<char>, Seq<char>, JsonV) {
    (t.name@, t.description@, jv(t.parameters))
}

/// A tool definition in the OpenAI format.
pub open spec fn openai_tool_json_s(t: (Seq<char>, Seq<char>, JsonV)) -> JsonV {
    JsonV::Object(
        seq![
            ("type"@, JsonV::Str("function"@)),
            ("function"@, JsonV::Object(
                seq![("name"@, JsonV::Str(t.0)), ("description"@, JsonV::Str(t.1)), ("parameters"@, t.2)],
            )),
        ],
    )
}

/// The views of a list of messages.
pub open spec fn req_msgs(v: Seq<Message>) -> Seq<MessageV> {
    v.map_values(|m: Message| m@)
}

/// The views of a list of tool definitions.
pub open spec fn req_tools(v: Seq<ToolDefinition>) -> Seq<(Seq<char>, Seq<char>, JsonV)> {
    v.map_values(|t: ToolDefinition| tooldef_view(t))
}

/// The OpenAI chat completions body of a request.
pub open spec fn openai_body_s(r: ChatRequest) -> JsonV {
    JsonV::Object(
        seq![
            ("model"@, JsonV::Str(r.model@)),
            ("messages"@, JsonV::Array(req_msgs(r.messages@).map_values(|m: MessageV| openai_message_json_s(m)))),
        ] + match r.tools {
            Some(t) => seq![("tools"@, JsonV::Array(req_tools(t@).map_values(|x: (Seq<char>, Seq<char>, JsonV)| openai_tool_json_s(x))))],
            None => seq![],
        } + match r.max_tokens {
            Some(n) => seq![("max_tokens"@, jnum(n as nat))],
            None => seq![],
        } + if r.stream {
            seq![("stream"@, JsonV::Bool(true))]
        } else {
            seq![]
        },
    )
}

/// An OpenAI tool call object.
fn openai_tool_call_json(t: &ToolCall) -> (r: Json)
    ensures
        r@ == openai_tool_call_json_s(tc_view(*t)),
{
    let mut f: Vec<(String, Json)> = Vec::new();
    assert(entries_view(f@) =~= seq![]);
    push_entry(&mut f, "name", str_json(t.function.name.as_str()));
    push_entry(&mut f, "arguments", str_json(t.function.arguments.as_str()));
    assert(entries_view(f@) =~= seq![("name"@, JsonV::Str(t.function.name@)), ("arguments"@, JsonV::Str(t.function.arguments@))]);
    let fj = make_object(f);
    let mut o: Vec<(String, Json)> = Vec::new();
    assert(entries_view(o@) =~= seq![]);
    push_entry(&mut o, "id", str_json(t.id.as_str()));
    push_entry(&mut o, "type", str_json("function"));
    push_entry(&mut o, "function", fj);
    assert(entries_view(o@) =~= openai_tool_call_json_s(tc_view(*t))->Object_0);
    make_object(o)
}

/// Serialize a message into the OpenAI JSON format.
pub fn openai_message_to_json(msg: &Message) -> (r: Json)
    ensures
        r@ == openai_message_json_s(msg@),
{
    let mut o: Vec<(String, Json)> = Vec::new();
    assert(entries_view(o@) =~= seq![]);
    push_entry(&mut o, "role", str_json(role_name(msg.role)));
    let ghost e1 = entries_view(o@);
    assert(e1 =~= seq![("role"@, JsonV::Str(role_name_s(msg.role)))]);
    match &msg.content {
        Some(c) => push_entry(&mut o, "content", str_json(c.as_str())),
        None => {},
    }
    let ghost e2 = entries_view(o@);
    assert(e2 =~= e1 + opt_str_entry("content"@, msg@.content));
    match &msg.tool_calls {
        Some(tcs) => {
            let mut calls: Vec<Json> = Vec::new();
            assert(elems_view(calls@) =~= seq![]);
            let mut i: usize = 0;
            while i < tcs.len()
                invariant
                    i <= tcs@.len(),
                    elems_view(calls@) =~= tcs_view(tcs@.take(i as int)).map_values(
                        |t: ToolCallV| openai_tool_call_json_s(t),
                    ),
                decreases tcs.len() - i,
            {
                let c = openai_tool_call_json(&tcs[i]);
                push_elem(&mut calls, c);
                assert(tcs_view(tcs@.take(i + 1)) =~= tcs_view(tcs@.take(i as int)).push(tc_view(tcs@[i as int])));
                i = i + 1;
            }
            assert(tcs@.take(tcs@.len() as int) =~= tcs@);
            push_entry(&mut o, "tool_calls", make_array(calls));
        },
        None => {},
    }
    let ghost e3 = entries_view(o@);
    assert(e3 =~= e2 + match msg@.tool_calls {
        Some(v) => seq![("tool_calls"@, JsonV::Array(v.map_values(|t: ToolCallV| openai_tool_call_json_s(t))))],
        None => seq![],
    });
    match &msg.tool_call_id {
        Some(id) => push_entry(&mut o, "tool_call_id", str_json(id.as_str())),
        None => {},
    }
    let ghost e4 = entries_view(o@);
    assert(e4 =~= e3 + opt_str_entry("tool_call_id"@, msg@.tool_call_id));
    assert(e4 =~= openai_message_json_s(msg@)->Object_0);
    make_object(o)
}

/// A tool definition in the OpenAI format.
pub fn openai_tool_to_json(tool: &ToolDefinition) -> (r: Json)
    ensures
        r@ == openai_tool_json_s(tooldef_view(*tool)),
{
    let mut f: Vec<(String, Json)> = Vec::new();
    assert(entries_view(f@) =~= seq![]);
    push_entry(&mut f, "name", str_json(tool.name.as_str()));
    push_entry(&mut f, "description", str_json(tool.description.as_str()));
    push_entry(&mut f, "parameters", tool.parameters.copy());
    assert(entries_view(f@) =~= seq![("name"@, JsonV::Str(tool.name@)), ("description"@, JsonV::Str(tool.description@)), ("parameters"@, jv(tool.parameters))]);
    let fj = make_object(f);
    let mut o: Vec<(String, Json)> = Vec::new();
    assert(entries_view(o@) =~= seq![]);
    push_entry(&mut o, "type", str_json("function"));
    push_entry(&mut o, "function", fj);
    assert(entries_view(o@) =~= openai_tool_json_s(tooldef_view(*tool))->Object_0);
    make_object(o)
}

/// Build the OpenAI chat completions request body.
pub fn openai_build_body(request: &ChatRequest) -> (r: Json)
    ensures
        r@ == openai_body_s(*request),
{
    let mut msgs: Vec<Json> = Vec::new();
    assert(elems_view(msgs@) =~= seq![]);
    let mut i: usize = 0;
    while i < request.messages.len()
        invariant
            i <= request.messages@.len(),
            elems_view(msgs@) =~= req_msgs(request.messages@.take(i as int)).map_values(
                |m: MessageV| openai_message_json_s(m),
            ),
        decreases request.messages.len() - i,
    {
        let m = openai_message_to_json(&request.messages[i]);
        push_elem(&mut msgs, m);
        assert(req_msgs(request.messages@.take(i + 1)) =~= req_msgs(request.messages@.take(i as int)).push(request.messages@[i as int]@));
        i = i + 1;
    }
    assert(request.messages@.take(request.messages@.len() as int) =~= request.messages@);
    let mut o: Vec<(String, Json)> = Vec::new();
    assert(entries_view(o@) =~= seq![]);
    push_entry(&mut o, "model", str_json(request.model.as_str()));
    push_entry(&mut o, "messages", make_array(msgs));
    let ghost e1 = entries_view(o@);
    assert(e1 =~= openai_body_s(*request)->Object_0.take(2));
    match &request.tools {
        Some(tools) => {
            let mut tj: Vec<Json> = Vec::new();
            assert(elems_view(tj@) =~= seq![]);
            let mut k: usize = 0;
            while k < tools.len()
                invariant
                    k <= tools@.len(),
                    elems_view(tj@) =~= req_tools(tools@.take(k as int)).map_values(
                        |x: (Seq<char>, Seq<char>, JsonV)| openai_tool_json_s(x),
                    ),
                decreases tools.len() - k,
            {
                let t = openai_tool_to_json(&tools[k]);
                push_elem(&mut tj, t);
                assert(req_tools(tools@.take(k + 1)) =~= req_tools(tools@.take(k as int)).push(tooldef_view(tools@[k as int])));
                k = k + 1;
            }
            assert(tools@.take(tools@.len() as int) =~= tools@);
            push_entry(&mut o, "tools", make_array(tj));
        },
        None => {},
    }
    let ghost e2 = entries_view(o@);
    assert(e2 =~= e1 + match request.tools {
        Some(t) => seq![("tools"@, JsonV::Array(req_tools(t@).map_values(|x: (Seq<char>, Seq<char>, JsonV)| openai_tool_json_s(x))))],
        None => seq![],
    });
    match request.max_tokens {
        Some(n) => push_entry(&mut o, "max_tokens", Json::from_u64(n as u64)),
        None => {},
    }
    let ghost e3 = entries_view(o@);
    assert(e3 =~= e2 + match request.max_tokens {
        Some(n) => seq![("max_tokens"@, jnum(n as nat))],
        None => seq![],
    });
    if request.stream {
        push_entry(&mut o, "stream", Json::Bool(true));
    }
    let ghost e4 = entries_view(o@);
    assert(e4 =~= e3 + if request.stream { seq![("stream"@, JsonV::Bool(true))] } else { seq![] });
    assert(e4 =~= openai_body_s(*request)->Object_0);
    make_object(o)
}

// ───────────────────────────── Anthropic requests ─────────────────────────────

/// The text of an optional string, empty when absent.
pub open spec fn content_or_empty(c: Option<Seq<char>>) -> Seq<char> {
    match c {
        Some(s) => s,
        None => Seq::empty(),
    }
}

/// The tool input of a call: its arguments parsed as JSON, or `{}` when
/// they are not JSON.
pub open spec fn tool_input_s(args: Seq<char>) -> JsonV {
    match json_parsed(args) {
        Some(v) => v,
        None => JsonV::Object(seq![]),
    }
}

/// A `tool_use` content block.
pub open spec fn tool_use_block_s(t: ToolCallV) -> JsonV {
    JsonV::Object(
        seq![
            ("type"@, JsonV::Str("tool_use"@)),
            ("id"@, JsonV::Str(t.0)),
            ("name"@, JsonV::Str(t.1)),
            ("input"@, tool_input_s(t.2)),
        ],
    )
}

/// A `text` content block when there is text.
pub open spec fn text_blocks_s(c: Option<Seq<char>>) -> Seq<JsonV> {
    match c {
        Some(t) => seq![JsonV::Object(seq![("type"@, JsonV::Str("text"@)), ("text"@, JsonV::Str(t))])],
        None => seq![],
    }
}

/// A `{role, content}` message object.
pub open spec fn role_content_s(role: Seq<char>, content: JsonV) -> JsonV {
    JsonV::Object(seq![("role"@, JsonV::Str(role)), ("content"@, content)])
}

/// The Anthropic form of one non-system message.
pub open spec fn anthropic_message_s(m: MessageV) -> JsonV {
    let content = content_or_empty(m.content);
    match m.role {
        Role::Assistant => match m.tool_calls {
            Some(tcs) => role_content_s(
                "assistant"@,
                JsonV::Array(text_blocks_s(m.content) + tcs.map_values(|t: ToolCallV| tool_use_block_s(t))),
            ),
            None => role_content_s("assistant"@, JsonV::Str(content)),
        },
        Role::Tool => role_content_s(
            "user"@,
            JsonV::Array(
                seq![
                    JsonV::Object(
                        seq![
                            ("type"@, JsonV::Str("tool_result"@)),
                            ("tool_use_id"@, JsonV::Str(content_or_empty(m.tool_call_id))),
                            ("content"@, JsonV::Str(content)),
                        ],
                    ),
                ],
            ),
        ),
        _ => role_content_s("user"@, JsonV::Str(content)),
    }
}

/// Messages in the Anthropic format: system contents joined by newlines
/// into the top-level system prompt, every other message converted in order.
pub open spec fn anthropic_convert_s(ms: Seq<MessageV>) -> (Option<Seq<char>>, Seq<JsonV>)
    decreases ms.len(),
{
    if ms.len() == 0 {
        (None, seq![])
    } else {
        let prev = anthropic_convert_s(ms.drop_last());
        let m = ms.last();
        if m.role == Role::System {
            let content = content_or_empty(m.content);
            (
                Some(
                    match prev.0 {
                        Some(e) => e + "\n"@ + content,
                        None => content,
                    },
                ),
                prev.1,
            )
        } else {
            (prev.0, prev.1.push(anthropic_message_s(m)))
        }
    }
}

/// The text of an optional string, or `""`.
fn content_str(c: &Option<String>) -> (r: &str)
    ensures
        r@ == content_or_empty(ostr(*c)),
{
    match c {
        Some(s) => s.as_str(),
        None => {
            proof {
                reveal_strlit("");
            }
            ""
        },
    }
}

/// A `{role, content}` message object.
fn role_content(role: &str, content: Json) -> (r: Json)
    ensures
        r@ == role_content_s(role@, content@),
{
    let mut o: Vec<(String, Json)> = Vec::new();
    assert(entries_view(o@) =~= seq![]);
    push_entry(&mut o, "role", str_json(role));
    push_entry(&mut o, "content", content);
    assert(entries_view(o@) =~= seq![("role"@, JsonV::Str(role@)), ("content"@, content@)]);
    make_object(o)
}

/// A `tool_use` block with the given input.
pub open spec fn tool_use_with_s(id: Seq<char>, name: Seq<char>, input: JsonV) -> JsonV {
    JsonV::Object(
        seq![
            ("type"@, JsonV::Str("tool_use"@)),
            ("id"@, JsonV::Str(id)),
            ("name"@, JsonV::Str(name)),
            ("input"@, input),
        ],
    )
}

/// The `tool_use` block of a call with id `id` and name `name` whose
/// arguments decoded to `input`.
pub fn tool_use_json(id: &str, name: &str, input: Json) -> (r: Json)
    ensures
        r@ == tool_use_with_s(id@, name@, input@),
{
    let mut o: Vec<(String, Json)> = Vec::new();
    assert(entries_view(o@) =~= seq![]);
    push_entry(&mut o, "type", str_json("tool_use"));
    push_entry(&mut o, "id", str_json(id));
    push_entry(&mut o, "name", str_json(name));
    push_entry(&mut o, "input", input);
    assert(entries_view(o@) =~= tool_use_with_s(id@, name@, input@)->Object_0);
    make_object(o)
}

/// A `tool_use` content block for a tool call: its arguments parsed, `{}`
/// when they are not JSON.
fn tool_use_block(t: &ToolCall) -> (r: Json)
    ensures
        r@ == tool_use_block_s(tc_view(*t)),
{
    let input = match parse_json(t.function.arguments.as_str()) {
        Ok(v) => v,
        Err(_) => {
            let e: Vec<(String, Json)> = Vec::new();
            assert(entries_view(e@) =~= seq![]);
            make_object(e)
        },
    };
    tool_use_json(t.id.as_str(), t.function.name.as_str(), input)
}

/// The Anthropic form of one non-system message.
fn anthropic_message(m: &Message) -> (r: Json)
    requires
        m.role != Role::System,
    ensures
        r@ == anthropic_message_s(m@),
{
    match m.role {
        Role::Assistant => match &m.tool_calls {
            Some(tcs) => {
                let mut blocks: Vec<Json> = Vec::new();
                assert(elems_view(blocks@) =~= seq![]);
                match &m.content {
                    Some(c) => {
                        let mut tb: Vec<(String, Json)> = Vec::new();
                        assert(entries_view(tb@) =~= seq![]);
                        push_entry(&mut tb, "type", str_json("text"));
                        push_entry(&mut tb, "text", str_json(c.as_str()));
                        assert(entries_view(tb@) =~= seq![("type"@, JsonV::Str("text"@)), ("text"@, JsonV::Str(c@))]);
                        push_elem(&mut blocks, make_object(tb));
                    },
                    None => {},
                }
                let ghost b0 = elems_view(blocks@);
                assert(b0 =~= text_blocks_s(m@.content));
                let mut i: usize = 0;
                while i < tcs.len()
                    invariant
                        i <= tcs@.len(),
                        elems_view(blocks@) =~= b0 + tcs_view(tcs@.take(i as int)).map_values(
                            |t: ToolCallV| tool_use_block_s(t),
                        ),
                    decreases tcs.len() - i,
                {
                    push_elem(&mut blocks, tool_use_block(&tcs[i]));
                    assert(tcs_view(tcs@.take(i + 1)) =~= tcs_view(tcs@.take(i as int)).push(tc_view(tcs@[i as int])));
                    i = i + 1;
                }
                assert(tcs@.take(tcs@.len() as int) =~= tcs@);
                role_content("assistant", make_array(blocks))
            },
            None => role_content("assistant", str_json(content_str(&m.content))),
        },
        Role::Tool => {
            let mut o: Vec<(String, Json)> = Vec::new();
            assert(entries_view(o@) =~= seq![]);
            push_entry(&mut o, "type", str_json("tool_result"));
            push_entry(&mut o, "tool_use_id", str_json(content_str(&m.tool_call_id)));
            push_entry(&mut o, "content", str_json(content_str(&m.content)));
            let ghost ov = entries_view(o@);
            let b = make_object(o);
            let mut arr: Vec<Json> = Vec::new();
            assert(elems_view(arr@) =~= seq![]);
            push_elem(&mut arr, b);
            let a = make_array(arr);
            assert(elems_view(arr@) =~= seq![JsonV::Object(ov)]);
            assert(ov =~= seq![
                ("type"@, JsonV::Str("tool_result"@)),
                ("tool_use_id"@, JsonV::Str(content_or_empty(m@.tool_call_id))),
                ("content"@, JsonV::Str(content_or_empty(m@.content))),
            ]);
            role_content("user", a)
        },
        _ => role_content("user", str_json(content_str(&m.content))),
    }
}

/// Convert messages to the Anthropic format, extracting the system prompt.
///
/// System messages become the top-level `system` text (joined by newlines);
/// tool results become user messages with a `tool_result` block; assistant
/// tool calls become `tool_use` blocks.
pub fn anthropic_convert_messages(messages: &[Message]) -> (r: (Option<String>, Vec<Json>))
    ensures
        ostr(r.0) == anthropic_convert_s(req_msgs(messages@)).0,
        elems_view(r.1@) == anthropic_convert_s(req_msgs(messages@)).1,
{
    let mut system: Option<String> = None;
    let mut out: Vec<Json> = Vec::new();
    assert(elems_view(out@) =~= seq![]);
    let mut i: usize = 0;
    while i < messages.len()
        invariant
            i <= messages@.len(),
            ostr(system) == anthropic_convert_s(req_msgs(messages@.take(i as int))).0,
            elems_view(out@) == anthropic_convert_s(req_msgs(messages@.take(i as int))).1,
        decreases messages.len() - i,
    {
        let m = &messages[i];
        proof {
            assert(req_msgs(messages@.take(i + 1)).drop_last() =~= req_msgs(messages@.take(i as int)));
            assert(req_msgs(messages@.take(i + 1)).last() == m@);
        }
        if m.role == Role::System {
            let content = content_str(&m.content);
            system = match system {
                Some(existing) => {
                    let mut e = existing;
                    push_str(&mut e, "\n");
                    push_str(&mut e, content);
                    Some(e)
                },
                None => Some(content.to_owned()),
            };
        } else {
            push_elem(&mut out, anthropic_message(m));
        }
        i = i + 1;
    }
    assert(messages@.take(messages@.len() as int) =~= messages@);
    (system, out)
}

/// A tool definition in the Anthropic format.
pub open spec fn anthropic_tool_json_s(t: (Seq<char>, Seq<char>, JsonV)) -> JsonV {
    JsonV::Object(seq![("name"@, JsonV::Str(t.0)), ("description"@, JsonV::Str(t.1)), ("input_schema"@, t.2)])
}

/// A tool definition in the Anthropic format.
pub fn anthropic_tool_to_json(tool: &ToolDefinition) -> (r: Json)
    ensures
        r@ == anthropic_tool_json_s(tooldef_view(*tool)),
{
    let mut o: Vec<(String, Json)> = Vec::new();
    assert(entries_view(o@) =~= seq![]);
    push_entry(&mut o, "name", str_json(tool.name.as_str()));
    push_entry(&mut o, "description", str_json(tool.description.as_str()));
    push_entry(&mut o, "input_schema", tool.parameters.copy());
    assert(entries_view(o@) =~= anthropic_tool_json_s(tooldef_view(*tool))->Object_0);
    make_object(o)
}

/// The Anthropic messages body of a request; `max_tokens` defaults to 4096.
pub open spec fn anthropic_body_s(r: ChatRequest) -> JsonV {
    let conv = anthropic_convert_s(req_msgs(r.messages@));
    JsonV::Object(
        seq![("model"@, JsonV::Str(r.model@)), ("messages"@, JsonV::Array(conv.1))] + opt_str_entry(
            "system"@,
            conv.0,
        ) + match r.tools {
            Some(t) => seq![("tools"@, JsonV::Array(req_tools(t@).map_values(|x: (Seq<char>, Seq<char>, JsonV)| anthropic_tool_json_s(x))))],
            None => seq![],
        } + seq![
            ("max_tokens"@, jnum(
                (match r.max_tokens {
                    Some(n) => n,
                    None => 4096u32,
                }) as nat,
            )),
        ] + if r.stream {
            seq![("stream"@, JsonV::Bool(true))]
        } else {
            seq![]
        },
    )
}

/// Build the Anthropic messages request body.
pub fn anthropic_build_body(request: &ChatRequest) -> (r: Json)
    ensures
        r@ == anthropic_body_s(*request),
{
    let (system, messages) = anthropic_convert_messages(request.messages.as_slice());
    let mut o: Vec<(String, Json)> = Vec::new();
    assert(entries_view(o@) =~= seq![]);
    push_entry(&mut o, "model", str_json(request.model.as_str()));
    push_entry(&mut o, "messages", make_array(messages));
    match &system {
        Some(t) => push_entry(&mut o, "system", str_json(t.as_str())),
        None => {},
    }
    let ghost e1 = entries_view(o@);
    match &request.tools {
        Some(tools) => {
            let mut tj: Vec<Json> = Vec::new();
            assert(elems_view(tj@) =~= seq![]);
            let mut k: usize = 0;
            while k < tools.len()
                invariant
                    k <= tools@.len(),
                    elems_view(tj@) =~= req_tools(tools@.take(k as int)).map_values(
                        |x: (Seq<char>, Seq<char>, JsonV)| anthropic_tool_json_s(x),
                    ),
                decreases tools.len() - k,
            {
                push_elem(&mut tj, anthropic_tool_to_json(&tools[k]));
                assert(req_tools(tools@.take(k + 1)) =~= req_tools(tools@.take(k as int)).push(tooldef_view(tools@[k as int])));
                k = k + 1;
            }
            assert(tools@.take(tools@.len() as int) =~= tools@);
            push_entry(&mut o, "tools", make_array(tj));
        },
        None => {},
    }
    let ghost e2 = entries_view(o@);
    assert(e2 =~= e1 + match request.tools {
        Some(t) => seq![("tools"@, JsonV::Array(req_tools(t@).map_values(|x: (Seq<char>, Seq<char>, JsonV)| anthropic_tool_json_s(x))))],
        None => seq![],
    });
    let max_tokens: u32 = match request.max_tokens {
        Some(n) => n,
        None => 4096,
    };
    push_entry(&mut o, "max_tokens", Json::from_u64(max_tokens as u64));
    if request.stream {
        push_entry(&mut o, "stream", Json::Bool(true));
    }
    let ghost e4 = entries_view(o@);
    assert(e4 =~= anthropic_body_s(*request)->Object_0);
    make_object(o)
}

// ───────────────────────────── Anthropic responses ─────────────────────────────

/// The concatenation of a list of texts.
pub open spec fn concat_all(ls: Seq<Seq<char>>) -> Seq<char>
    decreases ls.len(),
{
    if ls.len() == 0 {
        Seq::empty()
    } else {
        concat_all(ls.drop_last()) + ls.last()
    }
}

/// The `type` of a content block.
pub open spec fn block_type_s(b: JsonV) -> Option<Seq<char>> {
    jstr(jget(b, "type"@))
}

/// The texts of the `text` blocks that carry a string `text`, in order.
pub open spec fn anthropic_texts_s(bs: Seq<JsonV>) -> Seq<Seq<char>>
    decreases bs.len(),
{
    if bs.len() == 0 {
        seq![]
    } else {
        let b = bs.last();
        anthropic_texts_s(bs.drop_last()) + if block_type_s(b) == Some("text"@) {
            match jstr(jget(b, "text"@)) {
                Some(t) => seq![t],
                None => seq![],
            }
        } else {
            seq![]
        }
    }
}

/// The tool call a `tool_use` block denotes: missing id and name are
/// empty, the arguments are the JSON text of `input` (`{}` when absent).
pub open spec fn anthropic_tool_use_s(b: JsonV) -> ToolCallV {
    (
        str_or_empty(jstr(jget(b, "id"@))),
        str_or_empty(jstr(jget(b, "name"@))),
        json_text(
            match jget(b, "input"@) {
                Some(v) => v,
                None => JsonV::Object(seq![]),
            },
        ),
    )
}

/// The tool calls of the `tool_use` blocks, in order.
pub open spec fn anthropic_tool_calls_s(bs: Seq<JsonV>) -> Seq<ToolCallV>
    decreases bs.len(),
{
    if bs.len() == 0 {
        seq![]
    } else {
        let b = bs.last();
        anthropic_tool_calls_s(bs.drop_last()) + if block_type_s(b) == Some("tool_use"@) {
            seq![anthropic_tool_use_s(b)]
        } else {
            seq![]
        }
    }
}

/// The Anthropic `usage` object: input and output tokens and their sum.
pub open spec fn anthropic_usage_s(u: JsonV) -> Usage {
    let i = count_s(Some(u), "input_tokens"@);
    let o = count_s(Some(u), "output_tokens"@);
    Usage { prompt_tokens: i, completion_tokens: o, total_tokens: (i + o) as u32 }
}

/// The token counts of a response add up within `u32`.
pub open spec fn anthropic_usage_ok_s(j: JsonV) -> bool {
    match jget(j, "usage"@) {
        Some(u) => count_s(Some(u), "input_tokens"@) + count_s(Some(u), "output_tokens"@) <= u32::MAX,
        None => true,
    }
}

/// The assistant message of a response with the given content blocks.
pub open spec fn anthropic_message_of_s(bs: Seq<JsonV>) -> MessageV {
    let texts = anthropic_texts_s(bs);
    let calls = anthropic_tool_calls_s(bs);
    MessageV {
        role: Role::Assistant,
        content: if texts.len() == 0 { None } else { Some(concat_all(texts)) },
        tool_calls: if calls.len() == 0 { None } else { Some(calls) },
        tool_call_id: None,
        name: None,
    }
}

/// The finish reason of a response (`end_turn` when absent).
pub open spec fn anthropic_finish_of_s(j: JsonV) -> FinishV {
    anthropic_stop_s(
        match jstr(jget(j, "stop_reason"@)) {
            Some(s) => s,
            None => "end_turn"@,
        },
    )
}

/// Whether the token counts of a response add up within `u32`.
pub fn anthropic_usage_ok(json: &Json) -> (r: bool)
    ensures
        r == anthropic_usage_ok_s(json@),
{
    match json.get("usage") {
        Some(u) => {
            let i = count_of(Some(u), "input_tokens");
            let o = count_of(Some(u), "output_tokens");
            i as u64 + o as u64 <= u32::MAX as u64
        },
        None => true,
    }
}

/// Parse an Anthropic non-streaming response into a `ChatResponse`.
///
/// Fails when the response has no `content` array.
pub fn anthropic_parse_response(json: &Json) -> (r: Result<ChatResponse, McError>)
    requires
        anthropic_usage_ok_s(json@),
    ensures
        match jarr(jget(json@, "content"@)) {
            None => r matches Err(e) && is_llm_error(e, "No content in Anthropic response"@),
            Some(bs) => r matches Ok(resp) && resp.message@ == anthropic_message_of_s(bs)
                && resp.usage == usage_or_zero(jget(json@, "usage"@), |u: JsonV| anthropic_usage_s(u))
                && finish_view(resp.finish_reason) == anthropic_finish_of_s(json@),
        },
{
    let stop = match str_of(json.get("stop_reason")) {
        Some(s) => parse_stop_reason(s),
        None => {
            let r = parse_stop_reason("end_turn");
            r
        },
    };
    let blocks = match json.get("content") {
        Some(c) => match c.as_array() {
            Some(a) => a,
            None => {
                return Err(McError::Llm("No content in Anthropic response".to_owned()));
            },
        },
        None => {
            return Err(McError::Llm("No content in Anthropic response".to_owned()));
        },
    };
    let ghost bs = jarr(jget(json@, "content"@)).unwrap();
    let mut text = String::new();
    let mut n_texts: usize = 0;
    let mut calls: Vec<ToolCall> = Vec::new();
    let mut i: usize = 0;
    while i < blocks.len()
        invariant
            i <= blocks@.len(),
            bs.len() == blocks@.len(),
            forall|k: int| 0 <= k < blocks@.len() ==> jv(#[trigger] blocks@[k]) == bs[k],
            text@ == concat_all(anthropic_texts_s(bs.take(i as int))),
            n_texts == anthropic_texts_s(bs.take(i as int)).len(),
            n_texts <= i,
            tcs_view(calls@) == anthropic_tool_calls_s(bs.take(i as int)),
        decreases blocks.len() - i,
    {
        let b = &blocks[i];
        proof {
            assert(bs.take(i + 1).drop_last() =~= bs.take(i as int));
            assert(bs.take(i + 1).last() == jv(*b));
            reveal_strlit("text");
            reveal_strlit("tool_use");
        }
        let ghost prev_calls = calls@;
        let ghost prev_texts = anthropic_texts_s(bs.take(i as int));
        let ty = str_of(b.get("type"));
        let is_text = match ty {
            Some(t) => str_eq(t, "text"),
            None => false,
        };
        let is_tool = match ty {
            Some(t) => str_eq(t, "tool_use"),
            None => false,
        };
        if is_text {
            match str_of(b.get("text")) {
                Some(t) => {
                    push_str(&mut text, t);
                    n_texts = n_texts + 1;
                    assert(anthropic_texts_s(bs.take(i + 1)) =~= prev_texts.push(t@));
                    assert(prev_texts.push(t@).drop_last() =~= prev_texts);
                },
                None => {
                    assert(prev_texts + seq![] =~= prev_texts);
                },
            }
            assert(block_type_s(jv(*b)) == Some("text"@));
            assert("text"@.len() != "tool_use"@.len());
            assert(anthropic_tool_calls_s(bs.take(i + 1)) =~= anthropic_tool_calls_s(bs.take(i as int)) + seq![]);
            assert(tcs_view(calls@) =~= anthropic_tool_calls_s(bs.take(i + 1)));
        } else if is_tool {
            let id: String = match str_of(b.get("id")) {
                Some(s) => s.to_owned(),
                None => String::new(),
            };
            let name: String = match str_of(b.get("name")) {
                Some(s) => s.to_owned(),
                None => String::new(),
            };
            let arguments = match b.get("input") {
                Some(input) => json_to_string(input),
                None => {
                    let e: Vec<(String, Json)> = Vec::new();
                    assert(entries_view(e@) =~= seq![]);
                    let empty = make_object(e);
                    json_to_string(&empty)
                },
            };
            calls.push(ToolCall { id, function: FunctionCall { name, arguments } });
            assert(tcs_view(calls@) =~= tcs_view(prev_calls).push(anthropic_tool_use_s(jv(*b))));
            assert(prev_texts + seq![] =~= prev_texts);
        } else {
            assert(prev_texts + seq![] =~= prev_texts);
            assert(tcs_view(calls@) =~= anthropic_tool_calls_s(bs.take(i + 1)));
        }
        i = i + 1;
    }
    assert(bs.take(blocks@.len() as int) =~= bs);
    let content = if n_texts == 0 { None } else { Some(text) };
    let tool_calls = if calls.len() == 0 { None } else { Some(calls) };
    let message = Message { role: Role::Assistant, content, tool_calls, tool_call_id: None, name: None };
    let usage = match json.get("usage") {
        Some(u) => {
            let inp = count_of(Some(u), "input_tokens");
            let out = count_of(Some(u), "output_tokens");
            Usage { prompt_tokens: inp, completion_tokens: out, total_tokens: inp + out }
        },
        None => Usage::zero(),
    };
    Ok(ChatResponse { message, usage, finish_reason: stop })
}

/// The chunk an Anthropic SSE event yields, if any.
pub open spec fn anthropic_event_s(ev: Seq<char>, j: JsonV) -> Option<ChunkV> {
    let index = (match ju64(jget(j, "index"@)) {
        Some(n) => n,
        None => 0u64,
    }) as u32;
    if ev == "content_block_delta"@ {
        let delta = jget(j, "delta"@);
        let dt = jstr(jfield(delta, "type"@));
        if dt == Some("text_delta"@) {
            let text = str_or_empty(jstr(jfield(delta, "text"@)));
            if text.len() == 0 {
                None
            } else {
                Some((text, None, None))
            }
        } else if dt == Some("input_json_delta"@) {
            Some((
                Seq::empty(),
                Some((index, None, None, Some(str_or_empty(jstr(jfield(delta, "partial_json"@)))))),
                None,
            ))
        } else {
            None
        }
    } else if ev == "content_block_start"@ {
        let cb = jget(j, "content_block"@);
        if jstr(jfield(cb, "type"@)) == Some("tool_use"@) {
            Some((Seq::empty(), Some((index, jstr(jfield(cb, "id"@)), jstr(jfield(cb, "name"@)), None)), None))
        } else {
            None
        }
    } else if ev == "message_delta"@ {
        Some((
            Seq::empty(),
            None,
            match jstr(jfield(jget(j, "delta"@), "stop_reason"@)) {
                Some(s) => Some(anthropic_stop_s(s)),
                None => None,
            },
        ))
    } else {
        None
    }
}

/// Parse a single Anthropic SSE event into an optional `StreamChunk`.
pub fn parse_anthropic_stream_event(event_type: &str, json: &Json) -> (r: Result<Option<StreamChunk>, McError>)
    ensures
        r matches Ok(c) && match c {
            Some(ch) => anthropic_event_s(event_type@, json@) == Some(chunk_view(ch)),
            None => anthropic_event_s(event_type@, json@) is None,
        },
{
    let index: u32 = match u64_of(json.get("index")) {
        Some(n) => n as u32,
        None => 0,
    };
    if str_eq(event_type, "content_block_delta") {
        let delta = json.get("delta");
        let dt = str_of(field(delta, "type"));
        let is_text = match dt {
            Some(t) => str_eq(t, "text_delta"),
            None => false,
        };
        let is_json = match dt {
            Some(t) => str_eq(t, "input_json_delta"),
            None => false,
        };
        if is_text {
            let text: String = match str_of(field(delta, "text")) {
                Some(t) => t.to_owned(),
                None => String::new(),
            };
            if text.as_str().is_empty() {
                return Ok(None);
            }
            Ok(Some(StreamChunk { delta: text, tool_call_delta: None, finish_reason: None }))
        } else if is_json {
            let partial: String = match str_of(field(delta, "partial_json")) {
                Some(t) => t.to_owned(),
                None => String::new(),
            };
            Ok(Some(StreamChunk {
                delta: String::new(),
                tool_call_delta: Some(ToolCallDelta { index, id: None, name: None, arguments_delta: Some(partial) }),
                finish_reason: None,
            }))
        } else {
            Ok(None)
        }
    } else if str_eq(event_type, "content_block_start") {
        let cb = json.get("content_block");
        let is_tool = match str_of(field(cb, "type")) {
            Some(t) => str_eq(t, "tool_use"),
            None => false,
        };
        if is_tool {
            Ok(Some(StreamChunk {
                delta: String::new(),
                tool_call_delta: Some(ToolCallDelta {
                    index,
                    id: owned_str(str_of(field(cb, "id"))),
                    name: owned_str(str_of(field(cb, "name"))),
                    arguments_delta: None,
                }),
                finish_reason: None,
            }))
        } else {
            Ok(None)
        }
    } else if str_eq(event_type, "message_delta") {
        let finish_reason = match str_of(field(json.get("delta"), "stop_reason")) {
            Some(s) => Some(parse_stop_reason(s)),
            None => None,
        };
        Ok(Some(StreamChunk { delta: String::new(), tool_call_delta: None, finish_reason }))
    } else {
        Ok(None)
    }
}

// ───────────────────────────── server-sent events ─────────────────────────────

/// The data of an SSE `data: ` line (trimmed), if the trimmed line is one.
pub open spec fn sse_data_s(l: Seq<char>) -> Option<Seq<char>> {
    if starts_with_s(l, "data: "@) {
        Some(trim_s(l.skip(6)))
    } else {
        None
    }
}

/// The chunks one line of an OpenAI SSE body yields: blank lines, comments
/// (`:`), non-data lines, `[DONE]` and data that is not JSON yield none.
pub open spec fn openai_sse_line_s(line: Seq<char>) -> Seq<ChunkV> {
    let l = trim_s(line);
    if l.len() == 0 || l[0] == ':' {
        seq![]
    } else {
        match sse_data_s(l) {
            Some(d) => if d == "[DONE]"@ {
                seq![]
            } else {
                match json_parsed(d) {
                    Some(v) => openai_chunks_s(v),
                    None => seq![],
                }
            },
            None => seq![],
        }
    }
}

/// The chunks of a list of OpenAI SSE lines, in order.
pub open spec fn openai_sse_s(ls: Seq<Seq<char>>) -> Seq<ChunkV>
    decreases ls.len(),
{
    if ls.len() == 0 {
        seq![]
    } else {
        openai_sse_s(ls.drop_last()) + openai_sse_line_s(ls.last())
    }
}

/// The data of a trimmed SSE line, if it is a `data: ` line.
fn sse_data(l: &Vec<char>, data_prefix: &Vec<char>) -> (r: Option<Vec<char>>)
    requires
        data_prefix@ == "data: "@,
    ensures
        match r {
            Some(d) => sse_data_s(l@) == Some(d@),
            None => sse_data_s(l@) is None,
        },
{
    proof {
        reveal_strlit("data: ");
    }
    if starts_with_chars(l.as_slice(), data_prefix.as_slice()) {
        let mut rest: Vec<char> = Vec::new();
        extend_range(&mut rest, l.as_slice(), 6, l.len());
        assert(rest@ =~= l@.skip(6));
        Some(trim_chars(rest.as_slice()))
    } else {
        None
    }
}

/// The stream chunks carried by one piece of an OpenAI SSE body.
///
/// Each line is trimmed; blank lines and comments are skipped; `data: `
/// lines other than `[DONE]` are parsed as JSON (data that is not JSON is
/// skipped) and turned into chunks.
pub fn openai_sse_chunks(text: &str) -> (r: Vec<StreamChunk>)
    ensures
        chunks_view(r@) == openai_sse_s(lines_s(text@)),
{
    let tv = chars_of(text);
    let lines = lines_of(tv.as_slice());
    let ghost ls = lines_s(text@);
    let data_prefix = chars_of("data: ");
    let done = chars_of("[DONE]");
    let mut out: Vec<StreamChunk> = Vec::new();
    assert(chunks_view(out@) =~= openai_sse_s(ls.take(0)));
    let mut i: usize = 0;
    while i < lines.len()
        invariant
            i <= lines@.len(),
            lines@.len() == ls.len(),
            forall|k: int| 0 <= k < lines@.len() ==> #[trigger] lines@[k]@ == ls[k],
            data_prefix@ == "data: "@,
            done@ == "[DONE]"@,
            chunks_view(out@) == openai_sse_s(ls.take(i as int)),
        decreases lines.len() - i,
    {
        let ghost prev = out@;
        proof {
            assert(ls.take(i + 1).drop_last() =~= ls.take(i as int));
            assert(ls.take(i + 1).last() == lines@[i as int]@);
        }
        let l = trim_chars(lines[i].as_slice());
        if l.len() == 0 || l[0] == ':' {
            assert(chunks_view(out@) =~= openai_sse_s(ls.take(i as int)) + seq![]);
        } else {
            match sse_data(&l, &data_prefix) {
                Some(d) => {
                    if chars_eq(d.as_slice(), done.as_slice()) {
                        assert(chunks_view(out@) =~= openai_sse_s(ls.take(i as int)) + seq![]);
                    } else {
                        let ds = string_of(d.as_slice());
                        match parse_json(ds.as_str()) {
                            Ok(v) => {
                                let Ok(chunks) = openai_parse_stream_chunks(&v) else {
                                    proof {
                                        assert(false);
                                    }
                                    return out;
                                };
                                let ghost cv = chunks_view(chunks@);
                                let mut k: usize = 0;
                                while k < chunks.len()
                                    invariant
                                        k <= chunks@.len(),
                                        cv == chunks_view(chunks@),
                                        chunks_view(out@) =~= chunks_view(prev) + cv.take(k as int),
                                    decreases chunks.len() - k,
                                {
                                    let c = chunks[k].copy();
                                    let ghost before = out@;
                                    out.push(c);
                                    assert(chunks_view(out@) =~= chunks_view(before).push(cv[k as int]));
                                    assert(cv.take(k + 1) =~= cv.take(k as int).push(cv[k as int]));
                                    k = k + 1;
                                }
                                assert(cv.take(chunks@.len() as int) =~= cv);
                            },
                            Err(_) => {
                                assert(chunks_view(out@) =~= openai_sse_s(ls.take(i as int)) + seq![]);
                            },
                        }
                    }
                },
                None => {
                    assert(chunks_view(out@) =~= openai_sse_s(ls.take(i as int)) + seq![]);
                },
            }
        }
        i = i + 1;
    }
    assert(ls.take(lines@.len() as int) =~= ls);
    out
}

/// The state after one line of an Anthropic SSE body: the current event
/// type (set by `event: ` lines) and the chunks so far.
pub open spec fn anthropic_sse_line_s(st: (Seq<char>, Seq<ChunkV>), line: Seq<char>) -> (Seq<char>, Seq<ChunkV>) {
    let l = trim_s(line);
    if l.len() == 0 {
        st
    } else if starts_with_s(l, "event: "@) {
        (trim_s(l.skip(7)), st.1)
    } else {
        match sse_data_s(l) {
            Some(d) => match json_parsed(d) {
                Some(v) => match anthropic_event_s(st.0, v) {
                    Some(c) => (st.0, st.1.push(c)),
                    None => st,
                },
                None => st,
            },
            None => st,
        }
    }
}

/// The state after a list of Anthropic SSE lines, from no event type.
pub open spec fn anthropic_sse_s(ls: Seq<Seq<char>>) -> (Seq<char>, Seq<ChunkV>)
    decreases ls.len(),
{
    if ls.len() == 0 {
        (Seq::empty(), seq![])
    } else {
        anthropic_sse_line_s(anthropic_sse_s(ls.drop_last()), ls.last())
    }
}

/// The stream chunks carried by one piece of an Anthropic SSE body.
///
/// `event: ` lines set the current event type; each `data: ` line that is
/// JSON is parsed as an event of that type.
pub fn anthropic_sse_chunks(text: &str) -> (r: Vec<StreamChunk>)
    ensures
        chunks_view(r@) == anthropic_sse_s(lines_s(text@)).1,
{
    let tv = chars_of(text);
    let lines = lines_of(tv.as_slice());
    let ghost ls = lines_s(text@);
    let data_prefix = chars_of("data: ");
    let event_prefix = chars_of("event: ");
    let mut current: Vec<char> = Vec::new();
    let mut out: Vec<StreamChunk> = Vec::new();
    assert(chunks_view(out@) =~= seq![]);
    assert(current@ =~= Seq::<char>::empty());
    let mut i: usize = 0;
    while i < lines.len()
        invariant
            i <= lines@.len(),
            lines@.len() == ls.len(),
            forall|k: int| 0 <= k < lines@.len() ==> #[trigger] lines@[k]@ == ls[k],
            data_prefix@ == "data: "@,
            event_prefix@ == "event: "@,
            (current@, chunks_view(out@)) == anthropic_sse_s(ls.take(i as int)),
        decreases lines.len() - i,
    {
        proof {
            assert(ls.take(i + 1).drop_last() =~= ls.take(i as int));
            assert(ls.take(i + 1).last() == lines@[i as int]@);
            reveal_strlit("event: ");
        }
        let l = trim_chars(lines[i].as_slice());
        if l.len() == 0 {
        } else if starts_with_chars(l.as_slice(), event_prefix.as_slice()) {
            let mut rest: Vec<char> = Vec::new();
            extend_range(&mut rest, l.as_slice(), 7, l.len());
            assert(rest@ =~= l@.skip(7));
            current = trim_chars(rest.as_slice());
        } else {
            match sse_data(&l, &data_prefix) {
                Some(d) => {
                    let ds = string_of(d.as_slice());
                    match parse_json(ds.as_str()) {
                        Ok(v) => {
                            let ev = string_of(current.as_slice());
                            let Ok(c) = parse_anthropic_stream_event(ev.as_str(), &v) else {
                                proof {
                                    assert(false);
                                }
                                return out;
                            };
                            match c {
                                Some(ch) => {
                                    let ghost prev = chunks_view(out@);
                                    let ghost cc = chunk_view(ch);
                                    out.push(ch);
                                    assert(chunks_view(out@) =~= prev.push(cc));
                                },
                                None => {},
                            }
                        },
                        Err(_) => {},
                    }
                },
                None => {},
            }
        }
        i = i + 1;
    }
    assert(ls.take(lines@.len() as int) =~= ls);
    out
}

impl StreamChunk {
    /// A copy of the chunk.
    pub fn copy(&self) -> (r: StreamChunk)
        ensures
            chunk_view(r) == chunk_view(*self),
    {
        StreamChunk {
            delta: self.delta.clone(),
            tool_call_delta: match &self.tool_call_delta {
                Some(d) => Some(d.copy()),
                None => None,
            },
            finish_reason: copy_opt_finish(&self.finish_reason),
        }
    }
}

// ───────────────────────────── retry policy ─────────────────────────────

/// Error messages that mark a transient failure.
pub open spec fn transient_message_s(m: Seq<char>) -> bool {
    ||| contains_s(m, "HTTP request failed"@)
    ||| contains_s(m, "HTTP 429"@)
    ||| contains_s(m, "HTTP 500"@)
    ||| contains_s(m, "HTTP 502"@)
    ||| contains_s(m, "HTTP 503"@)
    ||| contains_s(m, "HTTP 504"@)
    ||| contains_s(m, "Stream read error"@)
}

/// Whether an error is transient: network failures, rate limits (429),
/// server errors (500, 502, 503, 504), stream read errors, and I/O errors.
pub open spec fn is_retryable_s(e: McError) -> bool {
    match e {
        McError::Llm(m) => transient_message_s(m@),
        McError::Io(_) => true,
        _ => false,
    }
}

/// Whether `m` contains the text `p`.
fn has(m: &Vec<char>, p: &str) -> (r: bool)
    ensures
        r == contains_s(m@, p@),
{
    let pv = chars_of(p);
    contains_chars(m.as_slice(), pv.as_slice())
}

/// Check if an error is retryable.
///
/// Retryable errors include network failures, rate limits (429), server
/// errors (5xx) and stream read errors; parse failures and client errors
/// (4xx) are not.
pub fn is_retryable(err: &McError) -> (r: bool)
    ensures
        r == is_retryable_s(*err),
{
    match err {
        McError::Llm(msg) => {
            let m = chars_of(msg.as_str());
            has(&m, "HTTP request failed") || has(&m, "HTTP 429") || has(&m, "HTTP 500") || has(
                &m,
                "HTTP 502",
            ) || has(&m, "HTTP 503") || has(&m, "HTTP 504") || has(&m, "Stream read error")
        },
        McError::Io(_) => true,
        _ => false,
    }
}

/// Configuration for the retry behavior (delays in milliseconds).
#[derive(Debug, Clone, Copy, PartialEq, Eq, Structural)]
pub struct RetryConfig {
    /// Maximum number of retry attempts (0 = no retries).
    pub max_retries: u32,
    /// Base delay between retries (doubled each attempt).
    pub base_delay_ms: u64,
    /// Maximum delay cap (prevents unbounded backoff).
    pub max_delay_ms: u64,
}

impl RetryConfig {
    /// 3 retries, 500 ms base delay, 30 s cap.
    pub fn default() -> (r: RetryConfig)
        ensures
            r == (RetryConfig { max_retries: 3, base_delay_ms: 500, max_delay_ms: 30000 }),
    {
        RetryConfig { max_retries: 3, base_delay_ms: 500, max_delay_ms: 30000 }
    }

    /// The backoff before jitter: `base * 2^min(attempt, 20)` (saturating),
    /// capped at the maximum delay.
    pub open spec fn backoff_s(self, attempt: u32) -> u64 {
        let e: int = if attempt < 20 { attempt as int } else { 20 };
        let exp: int = self.base_delay_ms * vstd::arithmetic::power2::pow2(e as nat);
        let sat: int = if exp > u64::MAX { u64::MAX as int } else { exp };
        (if sat < self.max_delay_ms { sat } else { self.max_delay_ms as int }) as u64
    }

    /// The backoff before jitter for an attempt.
    pub fn backoff(&self, attempt: u32) -> (r: u64)
        ensures
            r == self.backoff_s(attempt),
    {
        let e: u32 = if attempt < 20 { attempt } else { 20 };
        let mut factor: u64 = 1;
        let mut k: u32 = 0;
        proof {
            vstd::arithmetic::power2::lemma2_to64();
        }
        while k < e
            invariant
                k <= e <= 20,
                factor == vstd::arithmetic::power2::pow2(k as nat),
                vstd::arithmetic::power2::pow2(20) == 0x100000,
            decreases e - k,
        {
            proof {
                vstd::arithmetic::power2::lemma_pow2_unfold((k + 1) as nat);
                if k + 1 < 20 {
                    vstd::arithmetic::power2::lemma_pow2_strictly_increases((k + 1) as nat, 20);
                }
            }
            factor = factor * 2;
            k = k + 1;
        }
        let exp = match self.base_delay_ms.checked_mul(factor) {
            Some(x) => x,
            None => u64::MAX,
        };
        if exp < self.max_delay_ms { exp } else { self.max_delay_ms }
    }

    /// The delay for a backoff and a jitter drawn from `[0, 2 * (backoff / 4)]`:
    /// `backoff - backoff / 4 + jitter`, at least 1 ms.
    pub open spec fn jittered_s(capped: u64, jitter: u64) -> u64 {
        let jr = capped / 4;
        let d: int = capped - jr + jitter;
        (if d > u64::MAX { u64::MAX as int } else if d < 1 { 1 } else { d }) as u64
    }

    /// The delay for a backoff and a drawn jitter.
    pub fn jittered(capped: u64, jitter: u64) -> (r: u64)
        ensures
            r == Self::jittered_s(capped, jitter),
    {
        let jr = capped / 4;
        let d = capped.saturating_sub(jr).saturating_add(jitter);
        if d < 1 { 1 } else { d }
    }

    /// The delay before retry `attempt`: exponential backoff with ±25% jitter.
    pub fn delay_for_attempt(&self, attempt: u32) -> (r: u64)
        ensures
            exists|j: u64| j <= 2 * (self.backoff_s(attempt) / 4) && r == Self::jittered_s(self.backoff_s(attempt), j),
    {
        let capped = self.backoff(attempt);
        let jr = capped / 4;
        let jitter = random_up_to(jr * 2);
        Self::jittered(capped, jitter)
    }
}

/// A uniformly random integer in `0..=hi` (`rand::Rng::random_range` on the
/// thread-local generator). Only the range is promised.
#[verifier::external_body]
fn random_up_to(hi: u64) -> (r: u64)
    ensures
        r <= hi,
{
    rand::rng().random_range(0..=hi)
}

/// Whether a failed attempt is tried again: a transient error with retries left.
pub fn should_retry(err: &McError, attempt: u32, max_retries: u32) -> (r: bool)
    ensures
        r == (is_retryable_s(*err) && attempt < max_retries),
{
    is_retryable(err) && attempt < max_retries
}

/// The failed attempts of one request so far.
#[derive(Debug, Clone, Copy, PartialEq, Eq, Structural)]
pub struct RetryState {
    /// Failed attempts that were retried.
    pub attempt: u32,
}

/// What to do after a failed attempt.
#[derive(Debug, Clone, Copy, PartialEq, Eq, Structural)]
pub enum RetryStep {
    /// Wait this many milliseconds, then call again.
    RetryAfter(u64),
    /// Give up and return the error.
    Stop,
}

/// After a failure: whether it is retried, and the new attempt count.
pub open spec fn retry_step_s(attempt: u32, retryable: bool, max_retries: u32) -> (bool, u32) {
    if retryable && attempt < max_retries {
        (true, (attempt + 1) as u32)
    } else {
        (false, attempt)
    }
}

/// The attempt count after `n` retryable failures from a fresh state.
pub open spec fn attempts_after(max_retries: u32, n: nat) -> u32
    decreases n,
{
    if n == 0 {
        0
    } else {
        retry_step_s(attempts_after(max_retries, (n - 1) as nat), true, max_retries).1
    }
}

impl RetryState {
    /// No failure yet.
    pub fn new() -> (r: Self)
        ensures
            r.attempt == 0,
    {
        RetryState { attempt: 0 }
    }

    /// Decide after a failed attempt: a transient error with retries left is
    /// retried after the jittered backoff of this attempt; anything else stops.
    pub fn after_failure(&mut self, err: &McError, cfg: &RetryConfig) -> (a: RetryStep)
        ensures
            (a is RetryAfter, final(self).attempt) == retry_step_s(old(self).attempt, is_retryable_s(*err), cfg.max_retries),
            a matches RetryStep::RetryAfter(d) ==> exists|j: u64| j <= 2 * (cfg.backoff_s(old(self).attempt) / 4)
                && d == RetryConfig::jittered_s(cfg.backoff_s(old(self).attempt), j),
    {
        if should_retry(err, self.attempt, cfg.max_retries) {
            let d = cfg.delay_for_attempt(self.attempt);
            self.attempt = self.attempt + 1;
            RetryStep::RetryAfter(d)
        } else {
            RetryStep::Stop
        }
    }
}

} // verus!
