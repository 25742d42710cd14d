use std::collections::HashSet;

use base64::Engine;
use hmac::{Hmac, Mac};
use sha2::Sha256;

use m_claw::channels::{
    feishu_to_incoming, is_auth_error, outgoing_msg_type, outgoing_to_content, parse_text_content, verify_signature,
    webhook_response, CachedToken, EventHeader, FeishuConfig, FeishuWebhookEvent, MessageContent, MessageEvent,
    OutgoingMessage, WebhookResult,
};
use m_claw::json::Json;
use m_claw::message::ChannelKind;

fn compute_test_sig(timestamp: &str, body: &[u8], secret: &str) -> String {
    let mut mac = Hmac::<Sha256>::new_from_slice(secret.as_bytes()).unwrap();
    mac.update(timestamp.as_bytes());
    mac.update(b"\n");
    mac.update(body);
    base64::engine::general_purpose::STANDARD.encode(mac.finalize().into_bytes())
}

fn test_config() -> FeishuConfig {
    FeishuConfig {
        app_id: "cli_test_app".into(),
        app_secret: "test_secret".into(),
        verification_token: "test_verification_token".into(),
        base_url: "https://open.feishu.cn".into(),
    }
}

fn s(t: &str) -> Json {
    Json::Str(t.to_string())
}

fn obj(entries: Vec<(&str, Json)>) -> Json {
    Json::Object(entries.into_iter().map(|(k, v)| (k.to_string(), v)).collect())
}

fn sample_text_event() -> MessageEvent {
    MessageEvent {
        message_id: "om_abc123".into(),
        chat_id: "oc_chat456".into(),
        msg_type: "text".into(),
        content: r#"{"text":"Hello, world!"}"#.into(),
        sender_open_id: "ou_user789".into(),
        sender_union_id: Some("on_union".into()),
    }
}

#[test]
fn is_auth_error_codes() {
    assert!(is_auth_error(99991663));
    assert!(is_auth_error(99991664));
    assert!(is_auth_error(99991668));
    assert!(!is_auth_error(0));
    assert!(!is_auth_error(400));
}

#[test]
fn webhook_result_debug() {
    let r = WebhookResult::Challenge("abc".into());
    let dbg = format!("{:?}", r);
    assert!(dbg.contains("Challenge"));
}

#[test]
fn convert_text_event_to_incoming() {
    let event = sample_text_event();
    let msg = feishu_to_incoming(&event).unwrap();
    assert_eq!(msg.channel_id, "om_abc123");
    assert_eq!(msg.conversation_key, "oc_chat456");
    assert_eq!(msg.sender.id, "ou_user789");
    assert!(matches!(&msg.content, MessageContent::Text(t) if t == "Hello, world!"));
    assert!(msg.reply_to.is_none());
}

#[test]
fn convert_unknown_msg_type() {
    let mut event = sample_text_event();
    event.msg_type = "image".into();
    let msg = feishu_to_incoming(&event).unwrap();
    assert!(matches!(&msg.content, MessageContent::Text(t) if t == "[image]"));
}

#[test]
fn text_content_with_mentions() {
    let event = MessageEvent {
        message_id: "om_1".into(),
        chat_id: "oc_1".into(),
        msg_type: "text".into(),
        content: r#"{"text":"@_user_1 hello"}"#.into(),
        sender_open_id: "ou_1".into(),
        sender_union_id: None,
    };
    let msg = feishu_to_incoming(&event).unwrap();
    assert!(matches!(&msg.content, MessageContent::Text(t) if t == "@_user_1 hello"));
}

#[test]
fn outgoing_text_to_content() {
    let msg = OutgoingMessage::text("hi there");
    let content = outgoing_to_content(&msg).unwrap();
    let parsed: serde_json::Value = serde_json::from_str(&content).unwrap();
    assert_eq!(parsed["text"], "hi there");
}

#[test]
fn outgoing_msg_type_text() {
    let msg = OutgoingMessage::text("x");
    assert_eq!(outgoing_msg_type(&msg), "text");
}

#[test]
fn outgoing_image_not_supported() {
    let msg = OutgoingMessage {
        content: MessageContent::Image { url: "http://example.com/img.png".into(), caption: None },
        reply_to: None,
    };
    assert!(outgoing_to_content(&msg).is_err());
}

#[test]
fn outgoing_file_not_supported() {
    let msg = OutgoingMessage {
        content: MessageContent::File { url: "http://example.com/f.pdf".into(), name: "f.pdf".into() },
        reply_to: None,
    };
    assert!(outgoing_to_content(&msg).is_err());
}

#[test]
fn parse_text_content_malformed_json() {
    assert!(parse_text_content("not json").is_err());
}

#[test]
fn parse_text_content_missing_text_field() {
    let result = parse_text_content(r#"{"other":"value"}"#).unwrap();
    assert!(matches!(&result, MessageContent::Text(t) if t.is_empty()));
}

#[test]
fn cached_token_not_expired() {
    let now: u64 = 1_000_000;
    let cached = CachedToken::new("tok".into(), now, 3600);
    assert!(now < cached.expires_at);
    assert!(cached.is_valid_at(now));
}

#[test]
fn cached_token_expired() {
    let now: u64 = 1_000_000;
    let cached = CachedToken::new("tok".into(), now, 0);
    assert!(now >= cached.expires_at);
    assert!(!cached.is_valid_at(now));
}

#[test]
fn channel_kind_display() {
    assert_eq!(ChannelKind::Feishu.to_string(), "feishu");
    assert_eq!(ChannelKind::WeChat.to_string(), "wechat");
    assert_eq!(ChannelKind::QQ.to_string(), "qq");
}

#[test]
fn display_lowercase() {
    assert_eq!(ChannelKind::Feishu.as_str(), "feishu");
    assert_eq!(ChannelKind::WeChat.as_str(), "wechat");
    assert_eq!(ChannelKind::QQ.as_str(), "qq");
}

#[test]
fn outgoing_message_builder() {
    let msg = OutgoingMessage::text("hi").with_reply_to("msg_001");
    assert!(matches!(msg.content, MessageContent::Text(ref t) if t == "hi"));
    assert_eq!(msg.reply_to.as_deref(), Some("msg_001"));
}

#[test]
fn channel_kind_equality_and_hash() {
    let mut set = HashSet::new();
    set.insert(ChannelKind::Feishu);
    set.insert(ChannelKind::Feishu);
    set.insert(ChannelKind::WeChat);
    assert_eq!(set.len(), 2);
    assert!(set.contains(&ChannelKind::Feishu));
}

#[test]
fn equality_and_hash() {
    let mut set = HashSet::new();
    set.insert(ChannelKind::Feishu);
    set.insert(ChannelKind::Feishu);
    set.insert(ChannelKind::WeChat);
    assert_eq!(set.len(), 2);
    assert!(set.contains(&ChannelKind::Feishu));
}

#[test]
fn valid_signature() {
    let sig = compute_test_sig("1234567890", b"hello world", "my_app_secret");
    assert!(verify_signature("1234567890", &sig, b"hello world", "my_app_secret"));
}

#[test]
fn invalid_signature() {
    assert!(!verify_signature("123", "badsig", b"body", "secret"));
}

#[test]
fn wrong_secret() {
    let sig = compute_test_sig("999", b"data", "correct_secret");
    assert!(!verify_signature("999", &sig, b"data", "wrong_secret"));
}

#[test]
fn empty_body() {
    let sig = compute_test_sig("0", b"", "s");
    assert!(verify_signature("0", &sig, b"", "s"));
}

#[test]
fn verify_and_parse_challenge() {
    let cfg = test_config();
    let body = br#"{"type":"url_verification","challenge":"abc123challenge","token":"test_verification_token"}"#;
    let timestamp = "1234567890";
    let sig = compute_test_sig(timestamp, body, &cfg.app_secret);
    let event = FeishuWebhookEvent {
        schema: None,
        event_type: "url_verification".into(),
        challenge: Some("abc123challenge".into()),
        header: None,
        event: None,
    };
    match cfg.verify_and_parse(timestamp, &sig, body, Ok(event)).unwrap() {
        WebhookResult::Challenge(c) => assert_eq!(c, "abc123challenge"),
        _ => panic!("expected Challenge"),
    }
}

fn message_event_data(open_id: &str, union_id: Option<&str>) -> Json {
    let mut sender_id = vec![("open_id", s(open_id))];
    if let Some(u) = union_id {
        sender_id.push(("union_id", s(u)));
    }
    obj(vec![
        ("sender", obj(vec![("sender_id", obj(sender_id)), ("sender_type", s("user"))])),
        (
            "message",
            obj(vec![
                ("message_id", s("om_msg789")),
                ("chat_id", s("oc_chat012")),
                ("chat_type", s("p2p")),
                ("message_type", s("text")),
                ("content", s("{\"text\":\"Hello from Feishu!\"}")),
            ]),
        ),
    ])
}

#[test]
fn verify_and_parse_message_event() {
    let cfg = test_config();
    let body = b"{\"type\":\"event_callback\"}";
    let timestamp = "9999999999";
    let sig = compute_test_sig(timestamp, body, &cfg.app_secret);
    let event = FeishuWebhookEvent {
        schema: Some("2.0".into()),
        event_type: "event_callback".into(),
        challenge: None,
        header: Some(EventHeader {
            event_type: "im.message.receive_v1".into(),
            token: Some("test_verification_token".into()),
        }),
        event: Some(message_event_data("ou_user123", Some("on_union456"))),
    };
    match cfg.verify_and_parse(timestamp, &sig, body, Ok(event)).unwrap() {
        WebhookResult::Message(msg) => {
            assert_eq!(msg.message_id, "om_msg789");
            assert_eq!(msg.chat_id, "oc_chat012");
            assert_eq!(msg.msg_type, "text");
            assert_eq!(msg.content, "{\"text\":\"Hello from Feishu!\"}");
            assert_eq!(msg.sender_open_id, "ou_user123");
            assert_eq!(msg.sender_union_id.as_deref(), Some("on_union456"));
        },
        _ => panic!("expected Message"),
    }
}

#[test]
fn verify_and_parse_bad_signature() {
    let cfg = test_config();
    let body = br#"{"type":"url_verification","challenge":"x"}"#;
    let event = FeishuWebhookEvent {
        schema: None,
        event_type: "url_verification".into(),
        challenge: Some("x".into()),
        header: None,
        event: None,
    };
    assert!(cfg.verify_and_parse("123", "badsig", body, Ok(event)).is_err());
}

#[test]
fn verify_and_parse_token_mismatch() {
    let cfg = test_config();
    let body = b"{}";
    let timestamp = "100";
    let sig = compute_test_sig(timestamp, body, &cfg.app_secret);
    let event = FeishuWebhookEvent {
        schema: Some("2.0".into()),
        event_type: "event_callback".into(),
        challenge: None,
        header: Some(EventHeader { event_type: "im.message.receive_v1".into(), token: Some("wrong_token".into()) }),
        event: Some(message_event_data("ou_1", None)),
    };
    let result = cfg.verify_and_parse(timestamp, &sig, body, Ok(event));
    assert!(result.is_err());
    assert!(result.unwrap_err().message().contains("token mismatch"));
}

#[test]
fn verify_and_parse_ignored_event() {
    let cfg = test_config();
    let body = b"{}";
    let timestamp = "200";
    let sig = compute_test_sig(timestamp, body, &cfg.app_secret);
    let event = FeishuWebhookEvent {
        schema: None,
        event_type: "event_callback".into(),
        challenge: None,
        header: Some(EventHeader {
            event_type: "chat_member_user_added".into(),
            token: Some("test_verification_token".into()),
        }),
        event: Some(obj(vec![])),
    };
    let result = cfg.verify_and_parse(timestamp, &sig, body, Ok(event)).unwrap();
    assert!(matches!(result, WebhookResult::Ignored));
}

#[test]
fn verify_and_parse_malformed_json() {
    let cfg = test_config();
    let body = b"not json at all";
    let timestamp = "300";
    let sig = compute_test_sig(timestamp, body, &cfg.app_secret);
    let result = cfg.verify_and_parse(timestamp, &sig, body, Err("expected value".into()));
    assert!(result.is_err());
}

#[test]
fn webhook_response_carries_challenge() {
    let r = webhook_response(&WebhookResult::Challenge("c1".into()));
    assert_eq!(r.status, "ok");
    assert_eq!(r.challenge.as_deref(), Some("c1"));
    assert!(r.message_id.is_none());
}
