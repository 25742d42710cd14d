//! Messaging channels: the platform-neutral message types and the Feishu
//! (Lark) adapter — webhook signature checking, event decoding, message
//! conversion, token lifetime and send-result handling.  HTTP and the
//! webhook server live outside the library.
use vstd::prelude::*;
use base64::Engine;
use hmac::Mac;
use crate::error::McError;
use crate::json::{
    Json, JsonV, jv, jget, jstr, json_parsed, json_parse_error, parse_json, json_text, json_to_string,
    entries_view, make_object, push_entry, str_json, opt_jv, field, str_of, owned_str, jfield,
};
use crate::message::{ChannelKind, ostr, copy_opt};
use crate::text::{
    chars_of, extend_chars, string_of, str_eq, push_decimal, decimal_s, push_i64, signed_decimal_s,
};

verus! {

// ───────────────────────────── message types ─────────────────────────────

/// Sender identity.
#[derive(Debug, Clone)]
pub struct Sender {
    /// Platform-specific user ID.
    pub id: String,
    /// Display name (may be empty if the platform doesn't provide it).
    pub name: String,
}

/// Message content variants.
#[derive(Debug, Clone)]
pub enum MessageContent {
    /// Plain text message.
    Text(String),
    /// Image message with URL and optional caption.
    Image { url: String, caption: Option<String> },
    /// File attachment with URL and filename.
    File { url: String, name: String },
}

/// An inbound message received from a channel.
#[derive(Debug, Clone)]
pub struct IncomingMessage {
    /// Platform message ID.
    pub channel_id: String,
    /// Conversation key for routing (chat_id, group_id, etc.).
    pub conversation_key: String,
    /// Who sent the message.
    pub sender: Sender,
    /// Message content.
    pub content: MessageContent,
    /// If this message is a reply, the ID of the message being replied to.
    pub reply_to: Option<String>,
}

/// An outbound message to send via a channel.
#[derive(Debug, Clone)]
pub struct OutgoingMessage {
    /// Message content.
    pub content: MessageContent,
    /// Optional message ID to reply to (creates a threaded reply).
    pub reply_to: Option<String>,
}

impl OutgoingMessage {
    /// Create a plain text outgoing message.
    pub fn text(text: &str) -> (r: Self)
        ensures
            r.content matches MessageContent::Text(t) && t@ == text@,
            r.reply_to is None,
    {
        OutgoingMessage { content: MessageContent::Text(text.to_owned()), reply_to: None }
    }

    /// Set the reply-to target.
    pub fn with_reply_to(self, target: &str) -> (r: Self)
        ensures
            r.content == self.content,
            r.reply_to matches Some(t) && t@ == target@,
    {
        OutgoingMessage { content: self.content, reply_to: Some(target.to_owned()) }
    }
}

/// Where to send an outgoing message.
#[derive(Debug, Clone)]
pub struct ChannelTarget {
    /// Which channel type.
    pub channel_kind: ChannelKind,
    /// Conversation key (chat_id, group_id, etc.).
    pub conversation_key: String,
}

/// Where an incoming message came from.
#[derive(Debug, Clone)]
pub struct ChannelSource {
    /// Which channel type.
    pub channel_kind: ChannelKind,
    /// Conversation key for routing replies.
    pub conversation_key: String,
    /// Who sent the message.
    pub sender: Sender,
}

/// The answer to a webhook request.
#[derive(Debug, Clone)]
pub struct WebhookResponse {
    /// `"ok"` on success.
    pub status: String,
    /// The message ID of a received message.
    pub message_id: Option<String>,
    /// The challenge echoed back for URL verification.
    pub challenge: Option<String>,
}

// ───────────────────────────── Feishu config ─────────────────────────────

/// Feishu channel configuration.
#[derive(Debug, Clone)]
pub struct FeishuConfig {
    /// Feishu App ID (e.g., `cli_xxx`).
    pub app_id: String,
    /// Feishu App Secret (used for token and webhook signature).
    pub app_secret: String,
    /// Verification token from the event subscription config.
    pub verification_token: String,
    /// API base URL. Default: `https://open.feishu.cn`.
    pub base_url: String,
}

/// The value of the first entry named `key`.
pub open spec fn lookup_s(table: Seq<(Seq<char>, Seq<char>)>, key: Seq<char>) -> Option<Seq<char>>
    decreases table.len(),
{
    if table.len() == 0 {
        None
    } else if table[0].0 == key {
        Some(table[0].1)
    } else {
        lookup_s(table.drop_first(), key)
    }
}

/// A table of string entries as plain values.
pub open spec fn table_view(t: Seq<(String, String)>) -> Seq<(Seq<char>, Seq<char>)> {
    t.map_values(|e: (String, String)| (e.0@, e.1@))
}

/// A setting with an `env:NAME` value replaced by variable `NAME` when it is set.
pub open spec fn resolve_setting_s(value: Seq<char>, env: Seq<(Seq<char>, Seq<char>)>) -> Seq<char> {
    if value.len() >= 4 && value.take(4) == "env:"@ {
        match lookup_s(env, value.skip(4)) {
            Some(v) => v,
            None => value,
        }
    } else {
        value
    }
}

/// The value of the first entry named `key` in a table.
pub fn lookup<'a>(table: &'a Vec<(String, String)>, key: &str) -> (r: Option<&'a String>)
    ensures
        ostr(match r {
            Some(s) => Some(*s),
            None => None,
        }) == lookup_s(table_view(table@), key@),
{
    let k = key.to_owned();
    let ghost tv = table_view(table@);
    assert(tv.skip(0) =~= tv);
    let mut i: usize = 0;
    while i < table.len()
        invariant
            i <= table@.len(),
            tv == table_view(table@),
            k@ == key@,
            lookup_s(tv.skip(i as int), key@) == lookup_s(tv, key@),
        decreases table.len() - i,
    {
        assert(tv.skip(i as int).drop_first() =~= tv.skip(i + 1));
        if table[i].0 == k {
            return Some(&table[i].1);
        }
        i = i + 1;
    }
    None
}

/// Resolve an `env:NAME` setting against a table of environment variables;
/// an unset variable leaves the value as it is.
pub fn resolve_setting(value: &str, env: &Vec<(String, String)>) -> (r: String)
    ensures
        r@ == resolve_setting_s(value@, table_view(env@)),
{
    let v = chars_of(value);
    let p = chars_of("env:");
    proof {
        reveal_strlit("env:");
    }
    if v.len() >= 4 && crate::text::starts_with_chars(v.as_slice(), p.as_slice()) {
        let mut name: Vec<char> = Vec::new();
        crate::text::extend_range(&mut name, v.as_slice(), 4, v.len());
        assert(v@.subrange(0, 4) =~= v@.take(4));
        assert(name@ =~= value@.skip(4));
        let n = string_of(name.as_slice());
        match lookup(env, n.as_str()) {
            Some(x) => x.clone(),
            None => value.to_owned(),
        }
    } else {
        assert(v@.len() >= 4 ==> v@.subrange(0, 4) =~= v@.take(4));
        value.to_owned()
    }
}

/// The outcome of building a Feishu config from its settings.
pub open spec fn feishu_config_s(
    settings: Seq<(Seq<char>, Seq<char>)>,
    env: Seq<(Seq<char>, Seq<char>)>,
) -> Result<(Seq<char>, Seq<char>, Seq<char>, Seq<char>), Seq<char>> {
    match (lookup_s(settings, "app_id"@), lookup_s(settings, "app_secret"@), lookup_s(settings, "verification_token"@)) {
        (None, _, _) => Err("app_id"@),
        (Some(_), None, _) => Err("app_secret"@),
        (Some(_), Some(_), None) => Err("verification_token"@),
        (Some(a), Some(s), Some(t)) => Ok((
            resolve_setting_s(a, env),
            resolve_setting_s(s, env),
            resolve_setting_s(t, env),
            match lookup_s(settings, "base_url"@) {
                Some(b) => resolve_setting_s(b, env),
                None => "https://open.feishu.cn"@,
            },
        )),
    }
}

/// The error for a missing required setting.
pub open spec fn missing_setting_s(key: Seq<char>) -> Seq<char> {
    "feishu setting '"@ + key + "' is required"@
}

/// A required setting, resolved.
fn get_setting(settings: &Vec<(String, String)>, env: &Vec<(String, String)>, key: &str) -> (r: Result<String, McError>)
    ensures
        match lookup_s(table_view(settings@), key@) {
            Some(v) => r matches Ok(s) && s@ == resolve_setting_s(v, table_view(env@)),
            None => r matches Err(McError::Channel(m)) && m@ == missing_setting_s(key@),
        },
{
    match lookup(settings, key) {
        Some(v) => Ok(resolve_setting(v.as_str(), env)),
        None => {
            let mut m: Vec<char> = Vec::new();
            extend_chars(&mut m, "feishu setting '");
            extend_chars(&mut m, key);
            extend_chars(&mut m, "' is required");
            Err(McError::Channel(string_of(m.as_slice())))
        },
    }
}

impl FeishuConfig {
    /// Build from the channel's string settings (`app_id`, `app_secret`,
    /// `verification_token` required; `base_url` optional), resolving
    /// `env:NAME` values against `env`.
    pub fn from_settings(settings: &Vec<(String, String)>, env: &Vec<(String, String)>) -> (r: Result<Self, McError>)
        ensures
            match feishu_config_s(table_view(settings@), table_view(env@)) {
                Ok((a, s, t, b)) => r matches Ok(c) && c.app_id@ == a && c.app_secret@ == s
                    && c.verification_token@ == t && c.base_url@ == b,
                Err(k) => r matches Err(McError::Channel(m)) && m@ == missing_setting_s(k),
            },
    {
        let app_id = get_setting(settings, env, "app_id")?;
        let app_secret = get_setting(settings, env, "app_secret")?;
        let verification_token = get_setting(settings, env, "verification_token")?;
        let base_url = match lookup(settings, "base_url") {
            Some(b) => resolve_setting(b.as_str(), env),
            None => "https://open.feishu.cn".to_owned(),
        };
        Ok(FeishuConfig { app_id, app_secret, verification_token, base_url })
    }
}

// ───────────────────────────── signatures ─────────────────────────────

/// The base64 alphabet.
pub open spec fn b64_char(i: int) -> char {
    if i < 26 {
        (65 + i) as char
    } else if i < 52 {
        (97 + i - 26) as char
    } else if i < 62 {
        (48 + i - 52) as char
    } else if i == 62 {
        '+'
    } else {
        '/'
    }
}

/// Standard base64 with padding.
pub open spec fn base64_s(b: Seq<u8>) -> Seq<char>
    decreases b.len(),
{
    if b.len() == 0 {
        seq![]
    } else {
        let b0 = b[0] as int;
        let b1: int = if b.len() > 1 { b[1] as int } else { 0 };
        let b2: int = if b.len() > 2 { b[2] as int } else { 0 };
        let c0 = b64_char(b0 / 4);
        let c1 = b64_char((b0 % 4) * 16 + b1 / 16);
        let c2 = b64_char((b1 % 16) * 4 + b2 / 64);
        let c3 = b64_char(b2 % 64);
        if b.len() == 1 {
            seq![c0, c1, '=', '=']
        } else if b.len() == 2 {
            seq![c0, c1, c2, '=']
        } else {
            seq![c0, c1, c2, c3] + base64_s(b.skip(3))
        }
    }
}

/// HMAC-SHA256 of `msg` under `key`.
pub uninterp spec fn hmac_sha256_s(key: Seq<u8>, msg: Seq<u8>) -> Seq<u8>;

/// HMAC-SHA256 (`hmac::Hmac<sha2::Sha256>`: `new_from_slice`, `update`,
/// `finalize`). HMAC takes keys of any length; the tag has 32 bytes.
#[verifier::external_body]
fn hmac_sha256(key: &[u8], msg: &[u8]) -> (r: Vec<u8>)
    ensures
        r@ == hmac_sha256_s(key@, msg@),
        r@.len() == 32,
{
    let mut mac = <hmac::Hmac<sha2::Sha256> as Mac>::new_from_slice(key).expect("HMAC accepts any key length");
    mac.update(msg);
    mac.finalize().into_bytes().to_vec()
}

/// Standard base64 with padding (`base64::engine::general_purpose::STANDARD.encode`).
#[verifier::external_body]
fn base64_encode(bytes: &[u8]) -> (r: String)
    ensures
        r@ == base64_s(bytes@),
{
    base64::engine::general_purpose::STANDARD.encode(bytes)
}

/// The bytes a Feishu signature covers: `timestamp`, a newline, the body.
pub open spec fn signed_payload_s(timestamp: Seq<char>, body: Seq<u8>) -> Seq<u8> {
    vstd::utf8::encode_utf8(timestamp) + seq![10u8] + body
}

/// The signature Feishu sends: `base64(hmac_sha256(secret, timestamp + "\n" + body))`.
pub open spec fn feishu_signature_s(timestamp: Seq<char>, body: Seq<u8>, secret: Seq<char>) -> Seq<char> {
    base64_s(hmac_sha256_s(vstd::utf8::encode_utf8(secret), signed_payload_s(timestamp, body)))
}

/// Compare two byte strings without an early exit on the first difference.
pub fn constant_time_eq(a: &[u8], b: &[u8]) -> (r: bool)
    ensures
        r == (a@ == b@),
{
    if a.len() != b.len() {
        return false;
    }
    let mut diff: u8 = 0;
    let mut i: usize = 0;
    while i < a.len()
        invariant
            i <= a@.len(),
            a@.len() == b@.len(),
            (diff == 0) == (forall|k: int| 0 <= k < i ==> a@[k] == b@[k]),
        decreases a.len() - i,
    {
        let x = a[i];
        let y = b[i];
        let d = diff;
        let nd = d | (x ^ y);
        assert((nd == 0) == (d == 0 && x == y)) by (bit_vector)
            requires
                nd == d | (x ^ y),
        ;
        diff = nd;
        i = i + 1;
    }
    assert(a@ =~= b@ <==> forall|k: int| 0 <= k < a@.len() ==> a@[k] == b@[k]);
    diff == 0
}

/// Verify a Feishu webhook signature: the `X-Lark-Signature` header must be
/// `base64(hmac_sha256(app_secret, timestamp + "\n" + body))`.
pub fn verify_signature(timestamp: &str, signature: &str, body: &[u8], app_secret: &str) -> (r: bool)
    ensures
        r == (signature@ == feishu_signature_s(timestamp@, body@, app_secret@)),
{
    let mut payload: Vec<u8> = Vec::new();
    let ts = timestamp.as_bytes();
    let mut i: usize = 0;
    while i < ts.len()
        invariant
            i <= ts@.len(),
            payload@ == ts@.take(i as int),
        decreases ts.len() - i,
    {
        payload.push(ts[i]);
        assert(ts@.take(i + 1) =~= ts@.take(i as int).push(ts@[i as int]));
        i = i + 1;
    }
    assert(ts@.take(ts@.len() as int) =~= ts@);
    payload.push(10u8);
    let mut j: usize = 0;
    let ghost head = payload@;
    while j < body.len()
        invariant
            j <= body@.len(),
            payload@ == head + body@.take(j as int),
        decreases body.len() - j,
    {
        payload.push(body[j]);
        assert(body@.take(j + 1) =~= body@.take(j as int).push(body@[j as int]));
        j = j + 1;
    }
    assert(body@.take(body@.len() as int) =~= body@);
    assert(payload@ =~= signed_payload_s(timestamp@, body@));
    let tag = hmac_sha256(app_secret.as_bytes(), payload.as_slice());
    let expected = base64_encode(tag.as_slice());
    let eb = expected.as_str().as_bytes();
    let sb = signature.as_bytes();
    let r = constant_time_eq(eb, sb);
    proof {
        vstd::utf8::encode_utf8_decode_utf8(expected@);
        vstd::utf8::encode_utf8_decode_utf8(signature@);
    }
    r
}

// ───────────────────────────── Feishu events ─────────────────────────────

/// Event header.
#[derive(Debug, Clone)]
pub struct EventHeader {
    /// Event type, e.g. `"im.message.receive_v1"`.
    pub event_type: String,
    /// Verification token for validation.
    pub token: Option<String>,
}

/// Top-level webhook event payload.
#[derive(Debug)]
pub struct FeishuWebhookEvent {
    /// Schema version (`"2.0"` for v2 events).
    pub schema: Option<String>,
    /// Event type: `"url_verification"` or `"event_callback"`.
    pub event_type: String,
    /// Challenge string for URL verification.
    pub challenge: Option<String>,
    /// Event header (v2 schema).
    pub header: Option<EventHeader>,
    /// Event body.
    pub event: Option<Json>,
}

/// Message receive event data extracted from the webhook payload.
#[derive(Debug, Clone)]
pub struct MessageEvent {
    /// Feishu message ID.
    pub message_id: String,
    /// Chat (conversation) ID.
    pub chat_id: String,
    /// Message type: `"text"`, `"image"`, `"file"`, etc.
    pub msg_type: String,
    /// JSON-encoded content string.
    pub content: String,
    /// Sender's open_id.
    pub sender_open_id: String,
    /// Sender's union_id.
    pub sender_union_id: Option<String>,
}

/// The fields of a message event as plain values.
pub type MessageEventV = (Seq<char>, Seq<char>, Seq<char>, Seq<char>, Seq<char>, Option<Seq<char>>);

/// The plain value of a message event.
pub open spec fn message_event_view(e: MessageEvent) -> MessageEventV {
    (e.message_id@, e.chat_id@, e.msg_type@, e.content@, e.sender_open_id@, ostr(e.sender_union_id))
}

/// The result of parsing and verifying a Feishu webhook request.
#[derive(Debug)]
pub enum WebhookResult {
    /// URL verification challenge — respond with the challenge string.
    Challenge(String),
    /// A message event that should be dispatched to the handler.
    Message(MessageEvent),
    /// An event we don't handle — acknowledge and ignore.
    Ignored,
}

/// The error of a Feishu exchange with a message.
pub open spec fn is_channel_error(e: McError, m: Seq<char>) -> bool {
    e matches McError::Channel(s) && s@ == m
}

/// The sender's `open_id` under `sender.sender_id` of a value.
pub open spec fn open_id_at(v: Option<JsonV>) -> Option<Seq<char>> {
    jstr(jfield(jfield(jfield(v, "sender"@), "sender_id"@), "open_id"@))
}

/// The message event an event body denotes, or the first missing piece.
pub open spec fn message_event_s(data: JsonV) -> Result<MessageEventV, Seq<char>> {
    let message = jget(data, "message"@);
    match message {
        None => Err("event missing 'message' field"@),
        Some(m) => match jstr(jget(m, "message_id"@)) {
            None => Err("message missing 'message_id'"@),
            Some(id) => match jstr(jget(m, "chat_id"@)) {
                None => Err("message missing 'chat_id'"@),
                Some(chat) => match jstr(jget(m, "message_type"@)) {
                    None => Err("message missing 'message_type'"@),
                    Some(ty) => match jstr(jget(m, "content"@)) {
                        None => Err("message missing 'content'"@),
                        Some(content) => {
                            let open_id = match open_id_at(Some(data)) {
                                Some(o) => Some(o),
                                None => open_id_at(Some(m)),
                            };
                            match open_id {
                                None => Err("sender open_id not found"@),
                                Some(o) => Ok((
                                    id,
                                    chat,
                                    ty,
                                    content,
                                    o,
                                    jstr(jfield(jfield(jfield(Some(data), "sender"@), "sender_id"@), "union_id"@)),
                                )),
                            }
                        },
                    },
                },
            },
        },
    }
}

/// Extract a message event from an `im.message.receive_v1` event body.
pub fn parse_message_event(event_data: &Json) -> (r: Result<MessageEvent, McError>)
    ensures
        match message_event_s(event_data@) {
            Ok(v) => r matches Ok(e) && message_event_view(e) == v,
            Err(m) => r matches Err(e) && is_channel_error(e, m),
        },
{
    let message = match event_data.get("message") {
        Some(m) => m,
        None => {
            return Err(McError::Channel("event missing 'message' field".to_owned()));
        },
    };
    let message_id = match str_of(message.get("message_id")) {
        Some(s) => s.to_owned(),
        None => {
            return Err(McError::Channel("message missing 'message_id'".to_owned()));
        },
    };
    let chat_id = match str_of(message.get("chat_id")) {
        Some(s) => s.to_owned(),
        None => {
            return Err(McError::Channel("message missing 'chat_id'".to_owned()));
        },
    };
    let msg_type = match str_of(message.get("message_type")) {
        Some(s) => s.to_owned(),
        None => {
            return Err(McError::Channel("message missing 'message_type'".to_owned()));
        },
    };
    let content = match str_of(message.get("content")) {
        Some(s) => s.to_owned(),
        None => {
            return Err(McError::Channel("message missing 'content'".to_owned()));
        },
    };
    let sender_id = field(field(Some(event_data), "sender"), "sender_id");
    let from_event = str_of(field(sender_id, "open_id"));
    let open_id = match from_event {
        Some(o) => Some(o),
        None => str_of(field(field(field(Some(message), "sender"), "sender_id"), "open_id")),
    };
    let sender_open_id = match open_id {
        Some(o) => o.to_owned(),
        None => {
            return Err(McError::Channel("sender open_id not found".to_owned()));
        },
    };
    let sender_union_id = owned_str(str_of(field(sender_id, "union_id")));
    Ok(MessageEvent { message_id, chat_id, msg_type, content, sender_open_id, sender_union_id })
}

/// The outcome of a verified webhook event, by its type.
pub open spec fn webhook_outcome_s(
    ev: (Seq<char>, Option<Seq<char>>, Option<(Seq<char>, Option<Seq<char>>)>, Option<JsonV>),
    verification_token: Seq<char>,
) -> Result<Option<Result<Seq<char>, MessageEventV>>, Seq<char>> {
    let (ty, challenge, header, event) = ev;
    if ty == "url_verification"@ {
        match challenge {
            Some(c) => Ok(Some(Ok(c))),
            None => Err("url_verification missing challenge"@),
        }
    } else if ty == "event_callback"@ {
        match header {
            None => Err("event_callback missing header"@),
            Some((et, token)) => if token is Some && token != Some(verification_token) {
                Err("verification token mismatch"@)
            } else if et != "im.message.receive_v1"@ {
                Ok(None)
            } else {
                match event {
                    None => Err("event_callback missing event data"@),
                    Some(d) => match message_event_s(d) {
                        Ok(m) => Ok(Some(Err(m))),
                        Err(e) => Err(e),
                    },
                }
            },
        }
    } else {
        Ok(None)
    }
}

/// The plain values of a decoded webhook event.
pub open spec fn webhook_event_view(e: FeishuWebhookEvent) -> (
    Seq<char>,
    Option<Seq<char>>,
    Option<(Seq<char>, Option<Seq<char>>)>,
    Option<JsonV>,
) {
    (
        e.event_type@,
        ostr(e.challenge),
        match e.header {
            Some(h) => Some((h.event_type@, ostr(h.token))),
            None => None,
        },
        match e.event {
            Some(j) => Some(jv(j)),
            None => None,
        },
    )
}

/// `r` is the webhook result an outcome denotes.
pub open spec fn webhook_result_is(
    r: Result<WebhookResult, McError>,
    o: Result<Option<Result<Seq<char>, MessageEventV>>, Seq<char>>,
) -> bool {
    match o {
        Err(m) => r matches Err(e) && is_channel_error(e, m),
        Ok(None) => r matches Ok(WebhookResult::Ignored),
        Ok(Some(Ok(c))) => r matches Ok(WebhookResult::Challenge(s)) && s@ == c,
        Ok(Some(Err(m))) => r matches Ok(WebhookResult::Message(e)) && message_event_view(e) == m,
    }
}

/// The error for a body that is not a webhook event.
pub open spec fn event_parse_error_s(e: Seq<char>) -> Seq<char> {
    "webhook event parse failed: "@ + e
}

impl FeishuConfig {
    /// Verify and decode a webhook request.
    ///
    /// `parsed` is the request body decoded as a webhook event (or the
    /// decoder's error message). The signature is checked first; then
    /// URL verification returns the challenge, `event_callback` requests
    /// are checked against the verification token and
    /// `im.message.receive_v1` events are turned into a [`MessageEvent`];
    /// everything else is ignored.
    pub fn verify_and_parse(
        &self,
        timestamp: &str,
        signature: &str,
        body: &[u8],
        parsed: Result<FeishuWebhookEvent, String>,
    ) -> (r: Result<WebhookResult, McError>)
        ensures
            signature@ != feishu_signature_s(timestamp@, body@, self.app_secret@) ==> (r matches Err(e)
                && is_channel_error(e, "webhook signature verification failed"@)),
            signature@ == feishu_signature_s(timestamp@, body@, self.app_secret@) ==> match parsed {
                Err(m) => r matches Err(e) && is_channel_error(e, event_parse_error_s(m@)),
                Ok(ev) => webhook_result_is(r, webhook_outcome_s(webhook_event_view(ev), self.verification_token@)),
            },
    {
        if !verify_signature(timestamp, signature, body, self.app_secret.as_str()) {
            return Err(McError::Channel("webhook signature verification failed".to_owned()));
        }
        let event = match parsed {
            Ok(e) => e,
            Err(m) => {
                let mut v: Vec<char> = Vec::new();
                extend_chars(&mut v, "webhook event parse failed: ");
                extend_chars(&mut v, m.as_str());
                return Err(McError::Channel(string_of(v.as_slice())));
            },
        };
        let ghost ev = webhook_event_view(event);
        if str_eq(event.event_type.as_str(), "url_verification") {
            match event.challenge {
                Some(c) => Ok(WebhookResult::Challenge(c)),
                None => Err(McError::Channel("url_verification missing challenge".to_owned())),
            }
        } else if str_eq(event.event_type.as_str(), "event_callback") {
            let header = match &event.header {
                Some(h) => h,
                None => {
                    return Err(McError::Channel("event_callback missing header".to_owned()));
                },
            };
            match &header.token {
                Some(t) => {
                    if !(*t == self.verification_token) {
                        return Err(McError::Channel("verification token mismatch".to_owned()));
                    }
                },
                None => {},
            }
            if !str_eq(header.event_type.as_str(), "im.message.receive_v1") {
                return Ok(WebhookResult::Ignored);
            }
            let data = match &event.event {
                Some(d) => d,
                None => {
                    return Err(McError::Channel("event_callback missing event data".to_owned()));
                },
            };
            match parse_message_event(data) {
                Ok(m) => Ok(WebhookResult::Message(m)),
                Err(e) => Err(e),
            }
        } else {
            Ok(WebhookResult::Ignored)
        }
    }
}

/// The answer to a handled webhook request: `"ok"`, with the challenge for
/// URL verification and the message ID for a message.
pub fn webhook_response(result: &WebhookResult) -> (r: WebhookResponse)
    ensures
        r.status@ == "ok"@,
        match result {
            WebhookResult::Challenge(c) => ostr(r.challenge) == Some(c@) && r.message_id is None,
            WebhookResult::Message(e) => ostr(r.message_id) == Some(e.message_id@) && r.challenge is None,
            WebhookResult::Ignored => r.message_id is None && r.challenge is None,
        },
{
    match result {
        WebhookResult::Challenge(c) => WebhookResponse { status: "ok".to_owned(), message_id: None, challenge: Some(c.clone()) },
        WebhookResult::Message(e) => WebhookResponse {
            status: "ok".to_owned(),
            message_id: Some(e.message_id.clone()),
            challenge: None,
        },
        WebhookResult::Ignored => WebhookResponse { status: "ok".to_owned(), message_id: None, challenge: None },
    }
}

// ───────────────────────────── conversion ─────────────────────────────

/// The text of a Feishu text message's content JSON: its `text` field, or
/// empty when there is none.
pub open spec fn text_content_s(raw: Seq<char>) -> Result<Seq<char>, Seq<char>> {
    match json_parsed(raw) {
        Some(v) => Ok(
            match jstr(jget(v, "text"@)) {
                Some(t) => t,
                None => Seq::empty(),
            },
        ),
        None => Err("failed to parse feishu text content: "@ + json_parse_error(raw)),
    }
}

/// The text of a Feishu text message's decoded content: its `text`
/// string, empty when there is none.
pub fn text_of_content(inner: &Json) -> (r: MessageContent)
    ensures
        r matches MessageContent::Text(s) && s@ == match jstr(jget(inner@, "text"@)) {
            Some(t) => t,
            None => Seq::empty(),
        },
{
    let text: String = match str_of(inner.get("text")) {
        Some(t) => t.to_owned(),
        None => String::new(),
    };
    MessageContent::Text(text)
}

/// Parse the content JSON of a Feishu text message.
pub fn parse_text_content(raw: &str) -> (r: Result<MessageContent, McError>)
    ensures
        match text_content_s(raw@) {
            Ok(t) => r matches Ok(MessageContent::Text(s)) && s@ == t,
            Err(m) => r matches Err(e) && is_channel_error(e, m),
        },
{
    match parse_json(raw) {
        Ok(inner) => Ok(text_of_content(&inner)),
        Err(e) => {
            let mut v: Vec<char> = Vec::new();
            extend_chars(&mut v, "failed to parse feishu text content: ");
            extend_chars(&mut v, e.as_str());
            Err(McError::Channel(string_of(v.as_slice())))
        },
    }
}

/// The content of an incoming message: the parsed text of a text message,
/// `[type]` for any other type.
pub open spec fn incoming_content_s(ty: Seq<char>, raw: Seq<char>) -> Result<Seq<char>, Seq<char>> {
    if ty == "text"@ {
        text_content_s(raw)
    } else {
        Ok("["@ + ty + "]"@)
    }
}

/// Convert a Feishu message event to an [`IncomingMessage`].
pub fn feishu_to_incoming(event: &MessageEvent) -> (r: Result<IncomingMessage, McError>)
    ensures
        match incoming_content_s(event.msg_type@, event.content@) {
            Ok(t) => r matches Ok(m) && m.content matches MessageContent::Text(s) && s@ == t
                && m.channel_id@ == event.message_id@ && m.conversation_key@ == event.chat_id@
                && m.sender.id@ == event.sender_open_id@ && m.sender.name@ == Seq::<char>::empty()
                && m.reply_to is None,
            Err(e) => r matches Err(x) && is_channel_error(x, e),
        },
{
    let content = if str_eq(event.msg_type.as_str(), "text") {
        parse_text_content(event.content.as_str())?
    } else {
        let mut v: Vec<char> = Vec::new();
        extend_chars(&mut v, "[");
        extend_chars(&mut v, event.msg_type.as_str());
        extend_chars(&mut v, "]");
        MessageContent::Text(string_of(v.as_slice()))
    };
    Ok(IncomingMessage {
        channel_id: event.message_id.clone(),
        conversation_key: event.chat_id.clone(),
        sender: Sender { id: event.sender_open_id.clone(), name: String::new() },
        content,
        reply_to: None,
    })
}

/// The source of a Feishu message event.
pub fn feishu_source(event: &MessageEvent) -> (r: ChannelSource)
    ensures
        r.channel_kind == ChannelKind::Feishu,
        r.conversation_key@ == event.chat_id@,
        r.sender.id@ == event.sender_open_id@,
        r.sender.name@ == Seq::<char>::empty(),
{
    ChannelSource {
        channel_kind: ChannelKind::Feishu,
        conversation_key: event.chat_id.clone(),
        sender: Sender { id: event.sender_open_id.clone(), name: String::new() },
    }
}

/// The Feishu `content` JSON of an outgoing message: `{"text": ...}` for
/// text; images and files are not supported yet.
pub fn outgoing_to_content(msg: &OutgoingMessage) -> (r: Result<String, McError>)
    ensures
        match msg.content {
            MessageContent::Text(t) => r matches Ok(s) && s@ == json_text(JsonV::Object(seq![("text"@, JsonV::Str(t@))])),
            MessageContent::Image { .. } => r matches Err(e) && is_channel_error(e, "image messages not yet supported for Feishu send"@),
            MessageContent::File { .. } => r matches Err(e) && is_channel_error(e, "file messages not yet supported for Feishu send"@),
        },
{
    match &msg.content {
        MessageContent::Text(text) => {
            let mut o: Vec<(String, Json)> = Vec::new();
            assert(entries_view(o@) =~= seq![]);
            push_entry(&mut o, "text", str_json(text.as_str()));
            assert(entries_view(o@) =~= seq![("text"@, JsonV::Str(text@))]);
            let j = make_object(o);
            Ok(json_to_string(&j))
        },
        MessageContent::Image { .. } => Err(McError::Channel("image messages not yet supported for Feishu send".to_owned())),
        MessageContent::File { .. } => Err(McError::Channel("file messages not yet supported for Feishu send".to_owned())),
    }
}

/// The Feishu message type of an outgoing message.
pub fn outgoing_msg_type(msg: &OutgoingMessage) -> (r: &'static str)
    ensures
        r@ == match msg.content {
            MessageContent::Text(_) => "text"@,
            MessageContent::Image { .. } => "image"@,
            MessageContent::File { .. } => "file"@,
        },
{
    match &msg.content {
        MessageContent::Text(_) => "text",
        MessageContent::Image { .. } => "image",
        MessageContent::File { .. } => "file",
    }
}

// ───────────────────────────── Feishu API ─────────────────────────────

/// Feishu error codes that mean the token (or app secret) is bad.
pub open spec fn is_auth_error_s(code: i64) -> bool {
    code == 99991663 || code == 99991664 || code == 99991668
}

/// Whether a Feishu error code is an authentication error (token invalid,
/// token expired, app secret invalid).
pub fn is_auth_error(code: i64) -> (r: bool)
    ensures
        r == is_auth_error_s(code),
{
    code == 99991663 || code == 99991664 || code == 99991668
}

/// Tenant access token response.
#[derive(Debug, Clone)]
pub struct TokenResponse {
    /// 0 on success.
    pub code: i64,
    /// Human-readable result.
    pub msg: String,
    /// The token.
    pub tenant_access_token: Option<String>,
    /// Lifetime in seconds.
    pub expire: Option<u64>,
}

/// A token is refreshed this many seconds before it expires.
pub const REFRESH_MARGIN_SECS: u64 = 60;

/// How long a fetched token is used: its lifetime (7200 s when not given)
/// less the refresh margin, not below zero.
pub open spec fn token_lifetime_s(expire: Option<u64>) -> u64 {
    let e = match expire {
        Some(x) => x,
        None => 7200u64,
    };
    if e >= 60 { (e - 60) as u64 } else { 0 }
}

/// The token and how long to use it, or the error the response denotes.
pub fn token_from_response(resp: &TokenResponse) -> (r: Result<(String, u64), McError>)
    ensures
        resp.code != 0 ==> (r matches Err(e) && is_channel_error(
            e,
            "Feishu token error (code "@ + signed_decimal_s(resp.code as int) + "): "@ + resp.msg@,
        )),
        resp.code == 0 && resp.tenant_access_token is None ==> (r matches Err(e) && is_channel_error(
            e,
            "token response missing token"@,
        )),
        resp.code == 0 && resp.tenant_access_token is Some ==> (r matches Ok((t, secs)) && Some(t@)
            == ostr(resp.tenant_access_token) && secs == token_lifetime_s(resp.expire)),
{
    if resp.code != 0 {
        let mut v: Vec<char> = Vec::new();
        extend_chars(&mut v, "Feishu token error (code ");
        push_i64(&mut v, resp.code);
        extend_chars(&mut v, "): ");
        extend_chars(&mut v, resp.msg.as_str());
        return Err(McError::Channel(string_of(v.as_slice())));
    }
    let token = match &resp.tenant_access_token {
        Some(t) => t.clone(),
        None => {
            return Err(McError::Channel("token response missing token".to_owned()));
        },
    };
    let expire = match resp.expire {
        Some(x) => x,
        None => 7200,
    };
    let secs = if expire >= REFRESH_MARGIN_SECS { expire - REFRESH_MARGIN_SECS } else { 0 };
    Ok((token, secs))
}

/// A cached token and the instant it expires, in milliseconds of a
/// monotonic clock.
#[derive(Debug, Clone)]
pub struct CachedToken {
    /// The token.
    pub token: String,
    /// When the token stops being used.
    pub expires_at: u64,
}

impl CachedToken {
    /// Cache a token fetched at `now` that may be used for `secs` seconds
    /// (the expiry saturates at the clock's limit).
    pub fn new(token: String, now: u64, secs: u64) -> (r: Self)
        ensures
            r.token == token,
            r.expires_at == if now + secs * 1000 > u64::MAX {
                u64::MAX as int
            } else {
                now + secs * 1000
            },
    {
        let ms = match secs.checked_mul(1000) {
            Some(x) => x,
            None => u64::MAX,
        };
        CachedToken { token, expires_at: now.saturating_add(ms) }
    }

    /// The token may still be used at `now`: `now` is before its expiry.
    pub fn is_valid_at(&self, now: u64) -> (r: bool)
        ensures
            r == (now < self.expires_at),
    {
        now < self.expires_at
    }
}

/// Send message response.
#[derive(Debug, Clone)]
pub struct SendMessageResponse {
    /// 0 on success.
    pub code: i64,
    /// Human-readable result.
    pub msg: String,
    /// Response data.
    pub data: Option<SendMessageData>,
}

/// Send message response data.
#[derive(Debug, Clone)]
pub struct SendMessageData {
    /// The ID of the sent message.
    pub message_id: Option<String>,
}

/// Send message request body.
#[derive(Debug, Clone)]
pub struct SendMessageRequest {
    /// Chat ID.
    pub receive_id: String,
    /// Message type.
    pub msg_type: String,
    /// JSON-encoded content.
    pub content: String,
}

/// The URL a message is posted to: the reply endpoint of the message
/// replied to, or the chat message endpoint.
pub open spec fn send_url_s(base: Seq<char>, reply_to: Option<Seq<char>>) -> Seq<char> {
    match reply_to {
        Some(id) => base + "/open-apis/im/v1/messages/"@ + id + "/reply"@,
        None => base + "/open-apis/im/v1/messages?receive_id_type=chat_id"@,
    }
}

/// The URL a message is posted to.
pub fn send_url(base_url: &str, reply_to: Option<&str>) -> (r: String)
    ensures
        r@ == send_url_s(base_url@, match reply_to {
            Some(s) => Some(s@),
            None => None,
        }),
{
    let mut v: Vec<char> = Vec::new();
    extend_chars(&mut v, base_url);
    match reply_to {
        Some(id) => {
            extend_chars(&mut v, "/open-apis/im/v1/messages/");
            extend_chars(&mut v, id);
            extend_chars(&mut v, "/reply");
        },
        None => {
            extend_chars(&mut v, "/open-apis/im/v1/messages?receive_id_type=chat_id");
        },
    }
    string_of(v.as_slice())
}

/// The outcome of a send: the message ID (empty when not returned), or the
/// error and whether the cached token must be dropped.
pub open spec fn send_outcome_s(code: i64, msg: Seq<char>, status: Seq<char>, id: Option<Seq<char>>) -> Result<Seq<char>, (Seq<char>, bool)> {
    if code == 0 {
        Ok(
            match id {
                Some(i) => i,
                None => Seq::empty(),
            },
        )
    } else if is_auth_error_s(code) {
        Err(("Feishu auth error (code "@ + signed_decimal_s(code as int) + ", HTTP "@ + status + "): "@ + msg, true))
    } else {
        Err(("Feishu send error (code "@ + signed_decimal_s(code as int) + "): "@ + msg, false))
    }
}

/// The message ID of a send response, if any.
pub open spec fn sent_id_s(resp: SendMessageResponse) -> Option<Seq<char>> {
    match resp.data {
        Some(d) => ostr(d.message_id),
        None => None,
    }
}

/// Interpret a send response (`status` is the HTTP status as text).
///
/// Returns the message ID, or the error and whether the token must be
/// invalidated (authentication errors).
pub fn send_outcome(resp: &SendMessageResponse, status: &str) -> (r: Result<String, (McError, bool)>)
    ensures
        match send_outcome_s(resp.code, resp.msg@, status@, sent_id_s(*resp)) {
            Ok(id) => r matches Ok(s) && s@ == id,
            Err((m, inv)) => r matches Err((e, b)) && is_channel_error(e, m) && b == inv,
        },
{
    if resp.code != 0 {
        let mut v: Vec<char> = Vec::new();
        if is_auth_error(resp.code) {
            extend_chars(&mut v, "Feishu auth error (code ");
            push_i64(&mut v, resp.code);
            extend_chars(&mut v, ", HTTP ");
            extend_chars(&mut v, status);
            extend_chars(&mut v, "): ");
            extend_chars(&mut v, resp.msg.as_str());
            return Err((McError::Channel(string_of(v.as_slice())), true));
        }
        extend_chars(&mut v, "Feishu send error (code ");
        push_i64(&mut v, resp.code);
        extend_chars(&mut v, "): ");
        extend_chars(&mut v, resp.msg.as_str());
        return Err((McError::Channel(string_of(v.as_slice())), false));
    }
    match &resp.data {
        Some(d) => match &d.message_id {
            Some(id) => Ok(id.clone()),
            None => Ok(String::new()),
        },
        None => Ok(String::new()),
    }
}

} // verus!
