use im_channel_gateway::agent::http_sse::convert::{
    agent_event_from_runtime_json, build_process_request_body, status_from_str,
};
use im_channel_gateway::agent::http_sse::sse::{parse_sse_line, SseBuffer};
use im_channel_gateway::agent::http_sse::HttpSseBackend;
use im_channel_gateway::config::AgentConfig;
use im_channel_gateway::json::{Json, Number};
use im_channel_gateway::types::{ChannelPart, ChannelRequest, EventKind, EventStatus, PartKind};

fn convert(v: &serde_json::Value) -> Json {
    match v {
        serde_json::Value::Null => Json::Null,
        serde_json::Value::Bool(b) => Json::Bool(*b),
        serde_json::Value::Number(n) => {
            if let Some(u) = n.as_u64() {
                Json::Number(Number::Unsigned(u))
            } else if let Some(i) = n.as_i64() {
                Json::Number(Number::Negative(i))
            } else {
                Json::Number(Number::Float(n.to_string()))
            }
        }
        serde_json::Value::String(s) => Json::Str(s.clone()),
        serde_json::Value::Array(a) => Json::Array(a.iter().map(convert).collect()),
        serde_json::Value::Object(m) => {
            Json::Object(m.iter().map(|(k, v)| (k.clone(), convert(v))).collect())
        }
    }
}

fn json(text: &str) -> Json {
    let v: serde_json::Value = serde_json::from_str(text).unwrap();
    convert(&v)
}

fn holds_text(v: &Json, needle: &str) -> bool {
    match v {
        Json::Str(s) => s.contains(needle),
        Json::Array(a) => a.iter().any(|x| holds_text(x, needle)),
        Json::Object(m) => m.iter().any(|(k, x)| k.contains(needle) || holds_text(x, needle)),
        _ => false,
    }
}

#[test]
fn forwards_identity_without_reply_tokens_or_media_keys() {
    let request = ChannelRequest {
        channel: "wechat:bot".to_string(),
        session_id: "session".to_string(),
        user_id: "sender".to_string(),
        content: vec![ChannelPart::text_part("hello")],
        meta: vec![
            ("message_id".to_string(), Json::text("id")),
            ("account_id".to_string(), Json::text("bot")),
            ("is_group".to_string(), Json::Bool(false)),
            ("context_token".to_string(), Json::text("secret")),
            ("aes_key".to_string(), Json::text("secret")),
        ],
    };
    let body = build_process_request_body(&request);
    assert_eq!(
        body.get2("meta", "message_id").and_then(|v| v.as_str()),
        Some("id")
    );
    assert_eq!(
        body.get2("meta", "is_group").and_then(|v| v.as_bool()),
        Some(false)
    );
    assert!(!holds_text(&body, "secret"));
    let event = agent_event_from_runtime_json(&json(
        r#"{"object":"message","status":"completed","message":{"content":[{"type":"text","text":"已添加"}]}}"#,
    ))
    .unwrap();
    assert_eq!(event.text, "已添加");
}

#[test]
fn parts_are_forwarded_by_kind() {
    let request = ChannelRequest {
        channel: "telegram".to_string(),
        session_id: "s".to_string(),
        user_id: "u".to_string(),
        content: vec![
            ChannelPart {
                kind: PartKind::Image,
                url: "data:image/png;base64,AA==".to_string(),
                ..Default::default()
            },
            ChannelPart {
                kind: PartKind::File,
                url: "file:///tmp/a.pdf".to_string(),
                extra: vec![("file_id".to_string(), Json::text("f1"))],
                ..Default::default()
            },
        ],
        meta: vec![],
    };
    let body = build_process_request_body(&request);
    assert!(holds_text(&body, "data:image/png;base64,AA=="));
    assert!(holds_text(&body, "f1"));
}

#[test]
fn statuses_are_read_in_any_case() {
    assert_eq!(status_from_str("COMPLETED"), EventStatus::Completed);
    assert_eq!(status_from_str("failed"), EventStatus::Failed);
    assert_eq!(status_from_str("In_Progress"), EventStatus::InProgress);
    assert_eq!(status_from_str("whatever"), EventStatus::Completed);
}

#[test]
fn errors_of_the_backend_are_events() {
    let e = agent_event_from_runtime_json(&json(
        r#"{"object":"response","status":"failed","error":{"message":"boom"}}"#,
    ))
    .unwrap();
    assert_eq!(e.kind, EventKind::Response);
    assert_eq!(e.error_message, "boom");
    assert!(agent_event_from_runtime_json(&json(r#"{"object":"strange"}"#)).is_none());
}

#[test]
fn sse_lines_carry_data() {
    assert_eq!(parse_sse_line("data: {\"a\":1}"), Some("{\"a\":1}".to_string()));
    assert_eq!(parse_sse_line(": comment"), None);
    assert_eq!(parse_sse_line(""), None);
}

#[test]
fn chunks_may_be_cut_anywhere() {
    let text = "data: one\n\ndata: two\n\n";
    let mut whole = SseBuffer::new();
    let all = whole.push_text(text);
    assert_eq!(all, vec!["one".to_string(), "two".to_string()]);
    for cut in 0..text.len() {
        let mut b = SseBuffer::new();
        let mut got = b.push_chunk(&text.as_bytes()[..cut]);
        got.extend(b.push_chunk(&text.as_bytes()[cut..]));
        assert_eq!(got, all);
    }
}

#[test]
fn last_line_without_an_end_counts() {
    let mut b = SseBuffer::new();
    assert!(b.push_text("data: tail").is_empty());
    assert_eq!(b.finish(), vec!["tail".to_string()]);
}

#[test]
fn bytes_that_are_no_text_are_replaced() {
    let mut b = SseBuffer::new();
    let got = b.push_chunk(b"data: a\xffb\n\n");
    assert_eq!(got, vec!["a\u{fffd}b".to_string()]);
}

#[test]
fn url_and_headers_of_the_backend() {
    let cfg = AgentConfig {
        base_url: "http://127.0.0.1:8080/".to_string(),
        path: "/process".to_string(),
        agent_id: "agent-1".to_string(),
        bearer_token: "tok".to_string(),
        ..Default::default()
    };
    let b = HttpSseBackend::from_config(&cfg);
    assert_eq!(b.process_url(), "http://127.0.0.1:8080/process");
    let headers = b.headers();
    assert!(headers.iter().any(|(_, v)| v == "Bearer tok"));
    assert!(headers.iter().any(|(_, v)| v == "agent-1"));
}

#[test]
fn refusal_of_the_backend_is_an_error() {
    let b = HttpSseBackend::from_config(&AgentConfig::default());
    match b.refused(500, "down") {
        Err(e) => assert_eq!(e.message(), "Agent API error (500): down"),
        Ok(events) => assert!(!events.is_empty()),
    }
}
