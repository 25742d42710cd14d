//! The HTTP gateway's decisions: which channel a webhook goes to, the JSON
//! bodies it answers with, the OpenAI-compatible chat exchange, and how an
//! incoming channel message becomes an agent turn and a reply.  Serving
//! HTTP happens outside the library.
use vstd::prelude::*;
use crate::channels::{ChannelSource, ChannelTarget, MessageContent, OutgoingMessage, WebhookResponse};
use crate::json::{Json, JsonV, make_object, make_array, push_entry, push_elem, str_json, entries_view, elems_view};
use crate::message::{ChannelKind, channel_kind_name, ostr};
use crate::text::{str_lower, to_lowercase, str_eq, trim_s, trim_chars, chars_of, extend_chars, string_of};

verus! {

/// A chat message in the OpenAI format.
#[derive(Debug, Clone)]
pub struct ChatMessage {
    pub role: String,
    pub content: String,
}

/// An OpenAI-compatible chat completion request (the sampling temperature
/// is kept by the caller).
#[derive(Debug, Clone)]
pub struct ChatCompletionRequest {
    pub model: String,
    pub messages: Vec<ChatMessage>,
    pub max_tokens: Option<u32>,
    pub stream: Option<bool>,
}

/// One choice of a chat completion.
#[derive(Debug, Clone)]
pub struct ChatChoice {
    pub index: u32,
    pub message: ChatMessage,
    pub finish_reason: String,
}

/// Token usage of a chat completion.
#[derive(Debug, Clone)]
pub struct ChatUsage {
    pub prompt_tokens: u32,
    pub completion_tokens: u32,
    pub total_tokens: u32,
}

/// An OpenAI-compatible chat completion response.
#[derive(Debug, Clone)]
pub struct ChatCompletionResponse {
    pub id: String,
    pub object: String,
    pub created: i64,
    pub model: String,
    pub choices: Vec<ChatChoice>,
    pub usage: ChatUsage,
}

/// What the agent is asked: the content of the request's last message,
/// empty when it has none.
pub fn chat_input(request: &ChatCompletionRequest) -> (r: &str)
    ensures
        r@ == if request.messages@.len() > 0 {
            request.messages@.last().content@
        } else {
            Seq::<char>::empty()
        },
{
    let n = request.messages.len();
    if n == 0 {
        proof {
            reveal_strlit("");
        }
        ""
    } else {
        request.messages[n - 1].content.as_str()
    }
}

/// The response to a chat request answered with `content`: one assistant
/// choice that stopped normally, and no usage counted.
pub fn completion_response(id: String, created: i64, model: String, content: String) -> (r: ChatCompletionResponse)
    ensures
        r.id == id,
        r.object@ == "chat.completion"@,
        r.created == created,
        r.model == model,
        r.choices@.len() == 1,
        r.choices@[0].index == 0,
        r.choices@[0].message.role@ == "assistant"@,
        r.choices@[0].message.content == content,
        r.choices@[0].finish_reason@ == "stop"@,
        r.usage.prompt_tokens == 0 && r.usage.completion_tokens == 0 && r.usage.total_tokens == 0,
{
    let mut choices: Vec<ChatChoice> = Vec::new();
    choices.push(
        ChatChoice {
            index: 0,
            message: ChatMessage { role: "assistant".to_owned(), content },
            finish_reason: "stop".to_owned(),
        },
    );
    ChatCompletionResponse {
        id,
        object: "chat.completion".to_owned(),
        created,
        model,
        choices,
        usage: ChatUsage { prompt_tokens: 0, completion_tokens: 0, total_tokens: 0 },
    }
}

/// `{"status": "ok"}`: the answer of the liveness probe.
pub fn health_json() -> (r: Json)
    ensures
        r@ == JsonV::Object(seq![("status"@, JsonV::Str("ok"@))]),
{
    let mut m: Vec<(String, Json)> = Vec::new();
    assert(entries_view(m@) =~= seq![]);
    push_entry(&mut m, "status", str_json("ok"));
    make_object(m)
}

/// The runtime status: `running`, the registered channels and whether the
/// chat API is available.
pub fn status_json(channels: &Vec<String>, chat_api: bool) -> (r: Json)
    ensures
        r@ == JsonV::Object(
            seq![
                ("status"@, JsonV::Str("running"@)),
                ("channels"@, JsonV::Array(channels@.map_values(|c: String| JsonV::Str(c@)))),
                ("chat_api"@, JsonV::Bool(chat_api)),
            ],
        ),
{
    let mut names: Vec<Json> = Vec::new();
    let mut i: usize = 0;
    while i < channels.len()
        invariant
            i <= channels@.len(),
            elems_view(names@) == channels@.take(i as int).map_values(|c: String| JsonV::Str(c@)),
        decreases channels.len() - i,
    {
        push_elem(&mut names, str_json(channels[i].as_str()));
        assert(channels@.take(i + 1).map_values(|c: String| JsonV::Str(c@)) =~= channels@.take(i as int).map_values(
            |c: String| JsonV::Str(c@),
        ).push(JsonV::Str(channels@[i as int]@)));
        i = i + 1;
    }
    assert(channels@.take(channels@.len() as int) =~= channels@);
    let arr = make_array(names);
    let mut m: Vec<(String, Json)> = Vec::new();
    assert(entries_view(m@) =~= seq![]);
    push_entry(&mut m, "status", str_json("running"));
    push_entry(&mut m, "channels", arr);
    push_entry(&mut m, "chat_api", Json::Bool(chat_api));
    assert(entries_view(m@) =~= seq![
        ("status"@, JsonV::Str("running"@)),
        ("channels"@, JsonV::Array(channels@.map_values(|c: String| JsonV::Str(c@)))),
        ("chat_api"@, JsonV::Bool(chat_api)),
    ]);
    make_object(m)
}

/// `{"error": message}`.
pub fn error_json(message: &str) -> (r: Json)
    ensures
        r@ == JsonV::Object(seq![("error"@, JsonV::Str(message@))]),
{
    let mut m: Vec<(String, Json)> = Vec::new();
    assert(entries_view(m@) =~= seq![]);
    push_entry(&mut m, "error", str_json(message));
    make_object(m)
}

/// The channel a webhook path names: the registered kind whose name is the
/// path segment in lower case.
pub open spec fn route_s(segment: Seq<char>, registered: Seq<ChannelKind>) -> Option<int> {
    if exists|k: int| 0 <= k < registered.len() && channel_kind_name(registered[k]) == str_lower(segment) {
        Some(
            choose|k: int|
                0 <= k < registered.len() && channel_kind_name(registered[k]) == str_lower(segment) && forall|j: int|
                    0 <= j < k ==> channel_kind_name(registered[j]) != str_lower(segment),
        )
    } else {
        None
    }
}

/// Route a webhook to a registered channel by its path segment (case
/// insensitively); an unknown one is answered `Unknown channel: {segment}`.
pub fn route_webhook(segment: &str, registered: &Vec<ChannelKind>) -> (r: Result<ChannelKind, String>)
    ensures
        match route_s(segment@, registered@) {
            Some(k) => r == Ok::<ChannelKind, String>(registered@[k]),
            None => r matches Err(m) && m@ == "Unknown channel: "@ + segment@,
        },
{
    let key = to_lowercase(segment);
    let mut i: usize = 0;
    while i < registered.len()
        invariant
            i <= registered@.len(),
            key@ == str_lower(segment@),
            forall|j: int| 0 <= j < i ==> channel_kind_name(registered@[j]) != str_lower(segment@),
        decreases registered.len() - i,
    {
        let k = registered[i];
        if str_eq(k.as_str(), key.as_str()) {
            proof {
                let w = choose|w: int|
                    0 <= w < registered@.len() && channel_kind_name(registered@[w]) == str_lower(segment@) && forall|
                        j: int,
                    | 0 <= j < w ==> channel_kind_name(registered@[j]) != str_lower(segment@);
                assert(0 <= i < registered@.len() && channel_kind_name(registered@[i as int]) == str_lower(segment@));
                assert(0 <= w < registered@.len() && channel_kind_name(registered@[w]) == str_lower(segment@)
                    && forall|j: int| 0 <= j < w ==> channel_kind_name(registered@[j]) != str_lower(segment@));
                if w < i {
                    assert(channel_kind_name(registered@[w]) != str_lower(segment@));
                }
                if w > i {
                    assert(channel_kind_name(registered@[i as int]) != str_lower(segment@));
                }
                assert(route_s(segment@, registered@) == Some(i as int));
            }
            return Ok(k);
        }
        i = i + 1;
    }
    let mut v: Vec<char> = Vec::new();
    extend_chars(&mut v, "Unknown channel: ");
    extend_chars(&mut v, segment);
    Err(string_of(v.as_slice()))
}

/// The body of a handled webhook: just the challenge for URL verification,
/// else the whole response with its optional fields left out when absent.
pub fn webhook_reply(resp: &WebhookResponse) -> (r: Json)
    ensures
        r@ == match resp.challenge {
            Some(c) => JsonV::Object(seq![("challenge"@, JsonV::Str(c@))]),
            None => JsonV::Object(
                seq![("status"@, JsonV::Str(resp.status@))] + match resp.message_id {
                    Some(id) => seq![("message_id"@, JsonV::Str(id@))],
                    None => Seq::empty(),
                },
            ),
        },
{
    let mut m: Vec<(String, Json)> = Vec::new();
    assert(entries_view(m@) =~= seq![]);
    match &resp.challenge {
        Some(c) => {
            push_entry(&mut m, "challenge", str_json(c.as_str()));
        },
        None => {
            push_entry(&mut m, "status", str_json(resp.status.as_str()));
            match &resp.message_id {
                Some(id) => {
                    push_entry(&mut m, "message_id", str_json(id.as_str()));
                    assert(entries_view(m@) =~= seq![("status"@, JsonV::Str(resp.status@))] + seq![
                        ("message_id"@, JsonV::Str(id@)),
                    ]);
                },
                None => {
                    assert(entries_view(m@) =~= seq![("status"@, JsonV::Str(resp.status@))] + Seq::empty());
                },
            }
        },
    }
    make_object(m)
}

/// The text an incoming message hands to the agent: its text, when it is a
/// text message that is not blank.
pub fn incoming_text(content: &MessageContent) -> (r: Option<String>)
    ensures
        match content {
            MessageContent::Text(t) => if trim_s(t@).len() > 0 {
                r matches Some(s) && s@ == t@
            } else {
                r is None
            },
            _ => r is None,
        },
{
    match content {
        MessageContent::Text(t) => {
            let trimmed = trim_chars(chars_of(t.as_str()).as_slice());
            if trimmed.len() == 0 {
                None
            } else {
                Some(t.clone())
            }
        },
        _ => None,
    }
}

/// The reply to send for an agent's answer: none when it is empty, else a
/// text message to the same conversation that replies to the incoming one.
pub fn channel_reply(answer: Option<String>, source: &ChannelSource, message_id: &str) -> (r: Option<
    (ChannelTarget, OutgoingMessage),
>)
    ensures
        match ostr(answer) {
            None => r is None,
            Some(a) => if a.len() == 0 {
                r is None
            } else {
                r matches Some((t, o)) && t.channel_kind == source.channel_kind && t.conversation_key
                    == source.conversation_key && (o.content matches MessageContent::Text(x) && x@ == a)
                    && (o.reply_to matches Some(y) && y@ == message_id@)
            },
        },
{
    let text = match answer {
        Some(a) => a,
        None => {
            return None;
        },
    };
    if text.as_str().is_empty() {
        return None;
    }
    let target = ChannelTarget { channel_kind: source.channel_kind, conversation_key: source.conversation_key.clone() };
    let outgoing = OutgoingMessage::text(text.as_str()).with_reply_to(message_id);
    Some((target, outgoing))
}

} // verus!
