use im_channel_gateway::acl::{AccessControl, ChannelAcl};
use im_channel_gateway::config::AppConfig;
use im_channel_gateway::context::GatewayContext;
use im_channel_gateway::error::GatewayError;
use im_channel_gateway::json::{Json, Number};
use im_channel_gateway::pipeline::streaming::{
    process_with_sink, SinkAction, SinkSession, StreamState,
};
use im_channel_gateway::pipeline::{
    extract_query, message_priority, native_from_json, process_native, NativeMessage,
};
use im_channel_gateway::table::Table;
use im_channel_gateway::types::{AgentEvent, ChannelPart, EventKind, EventStatus, PartKind};

fn convert(v: &serde_json::Value) -> Json {
    match v {
        serde_json::Value::Null => Json::Null,
        serde_json::Value::Bool(b) => Json::Bool(*b),
        serde_json::Value::Number(n) => {
            if let Some(u) = n.as_u64() {
                Json::Number(Number::Unsigned(u))
            } else if let Some(i) = n.as_i64() {
                Json::Number(Number::Negative(i))
            } else {
                Json::Number(Number::Float(n.to_string()))
            }
        }
        serde_json::Value::String(s) => Json::Str(s.clone()),
        serde_json::Value::Array(a) => Json::Array(a.iter().map(convert).collect()),
        serde_json::Value::Object(m) => {
            Json::Object(m.iter().map(|(k, v)| (k.clone(), convert(v))).collect())
        }
    }
}

fn json(text: &str) -> Json {
    let v: serde_json::Value = serde_json::from_str(text).unwrap();
    convert(&v)
}

#[test]
fn native_from_json_preserves_non_text_part_text_and_metadata() {
    let native = native_from_json(
        "wechat",
        &json(
            r#"{
                "sender_id": "wx_user",
                "session_id": "wechat:wx_user",
                "content_parts": [{
                    "type": "image",
                    "text": "[WeChat image message]",
                    "data": {"type": 2},
                    "extra": {"wechat_item_label": "image"}
                }],
                "meta": {}
            }"#,
        ),
    )
    .unwrap();

    assert_eq!(native.content_parts[0].kind, PartKind::Image);
    assert_eq!(native.content_parts[0].text, "[WeChat image message]");
    assert_eq!(
        native.content_parts[0]
            .extra
            .iter()
            .find(|(k, _)| k == "wechat_item_label")
            .and_then(|(_, v)| v.as_str()),
        Some("image")
    );
}

#[test]
fn payload_must_be_an_object() {
    assert_eq!(
        native_from_json("wechat", &json("[]")).unwrap_err().message(),
        "native payload must be a JSON object"
    );
    let n = native_from_json("wechat", &json("{}")).unwrap();
    assert_eq!(n.sender_id, "unknown");
    assert!(n.session_id.is_none());
    assert!(n.content_parts.is_empty());
}

fn show(a: &SinkAction) -> String {
    match a {
        SinkAction::Start { stream_type } => format!("start:{stream_type}"),
        SinkAction::Delta {
            stream_type,
            accumulated,
        } => format!("delta:{stream_type}:{accumulated}"),
        SinkAction::End {
            stream_type,
            accumulated,
        } => format!("end:{stream_type}:{accumulated}"),
    }
}

fn event(kind: EventKind, status: EventStatus, text: &str, id: &str) -> AgentEvent {
    AgentEvent {
        kind,
        status,
        text: text.to_string(),
        message_id: id.to_string(),
        ..Default::default()
    }
}

fn delta(text: &str, id: &str) -> AgentEvent {
    AgentEvent {
        kind: EventKind::Content,
        status: EventStatus::InProgress,
        text: text.to_string(),
        msg_id: id.to_string(),
        delta: true,
        ..Default::default()
    }
}

#[test]
fn dispatches_multiple_message_buffers_by_id() {
    let mut state = StreamState::new();
    let mut events: Vec<String> = Vec::new();
    for e in [
        event(EventKind::Message, EventStatus::InProgress, "", "item_1"),
        delta("first", "item_1"),
        event(EventKind::Message, EventStatus::Completed, "first", "item_1"),
        event(EventKind::Message, EventStatus::InProgress, "", "item_2"),
        delta("second", "item_2"),
        event(EventKind::Message, EventStatus::Completed, "second", "item_2"),
    ] {
        let (handled, action) = state.dispatch_streaming_event(&e, false);
        assert!(handled);
        events.extend(action.iter().map(show));
    }

    assert_eq!(events.iter().filter(|e| e.starts_with("start:")).count(), 2);
    assert_eq!(events.iter().filter(|e| e.starts_with("end:")).count(), 2);
    assert!(events.contains(&"end:message:first".to_string()));
    assert!(events.contains(&"end:message:second".to_string()));
}

#[test]
fn completed_message_without_active_buffer_still_streams_end() {
    let mut state = StreamState::new();
    let completed = event(EventKind::Message, EventStatus::Completed, "done", "item_1");

    let (handled, action) = state.dispatch_streaming_event(&completed, false);
    assert!(handled);
    assert_eq!(show(&action.unwrap()), "end:message:done");
}

fn prompt(channel: &str, sender: &str) -> NativeMessage {
    NativeMessage {
        channel_id: channel.to_string(),
        sender_id: sender.to_string(),
        session_id: Some(format!("{channel}:{sender}")),
        content_parts: vec![ChannelPart::text_part("prompt")],
        meta: vec![],
    }
}

#[test]
fn process_with_sink_preserves_non_text_completed_parts() {
    let image = ChannelPart {
        kind: PartKind::Image,
        url: "file:///tmp/image.png".to_string(),
        ..Default::default()
    };
    let events = vec![AgentEvent {
        kind: EventKind::Message,
        status: EventStatus::Completed,
        text: "caption".to_string(),
        content: vec![ChannelPart::text_part("caption"), image.dup()],
        message_id: "item_1".to_string(),
        ..Default::default()
    }];
    let native = prompt("telegram", "user_1");
    let run = process_with_sink(
        &AccessControl::new(),
        "en",
        false,
        false,
        true,
        false,
        false,
        &native,
        &events,
        None,
    );

    let reply = run.reply.unwrap();
    assert_eq!(reply.text, "caption");
    assert!(reply
        .parts
        .iter()
        .any(|part| part.kind == PartKind::Image && part.url == image.url));
    assert_eq!(show(&run.actions[0]), "end:message:caption");
}

#[test]
fn growing_message_ends_with_its_pieces() {
    let native = prompt("telegram", "u");
    let events = vec![
        event(EventKind::Message, EventStatus::InProgress, "", "m"),
        delta("Hel", "m"),
        delta("lo", "m"),
        event(EventKind::Message, EventStatus::Completed, "ignored", "m"),
        event(EventKind::Message, EventStatus::Completed, "again", "n"),
    ];
    let run = process_with_sink(
        &AccessControl::new(),
        "en",
        false,
        false,
        true,
        false,
        false,
        &native,
        &events,
        None,
    );
    let shown: Vec<String> = run.actions.iter().map(show).collect();
    assert_eq!(
        shown,
        vec![
            "start:message".to_string(),
            "delta:message:Hel".to_string(),
            "delta:message:Hello".to_string(),
            "end:message:Hello".to_string(),
            "end:message:again".to_string(),
        ]
    );
    assert_eq!(run.reply.unwrap().text, "ignored\n\nagain");
}

#[test]
fn tools_and_thoughts_can_be_kept_back() {
    let mut s = SinkSession::new();
    let mut tool = event(EventKind::Message, EventStatus::Completed, "out", "t");
    tool.tool_name = "shell".to_string();
    assert!(s.on_event(&tool, true, true, false).unwrap().is_none());
    let reply = s.finish(&prompt("telegram", "u"));
    assert_eq!(reply.text, "(no response)");
}

#[test]
fn error_of_the_backend_ends_the_turn() {
    let mut e = event(EventKind::Response, EventStatus::Failed, "", "");
    e.error_message = "boom".to_string();
    let native = prompt("telegram", "u");
    let acl = AccessControl::new();
    let after = event(EventKind::Message, EventStatus::Completed, "late", "m");
    let events = vec![e, after];
    let r = process_native(&acl, "en", false, false, &native, &events, None);
    assert_eq!(r.unwrap_err().message(), "boom");
    let run = process_with_sink(
        &acl, "en", false, false, true, false, false, &native, &events, None,
    );
    assert_eq!(run.reply.unwrap_err().message(), "boom");
    assert!(run.actions.is_empty());
}

#[test]
fn answer_that_breaks_off_is_an_error() {
    let native = prompt("telegram", "u");
    let acl = AccessControl::new();
    let events = vec![event(EventKind::Message, EventStatus::Completed, "part", "m")];
    let r = process_native(
        &acl,
        "en",
        false,
        false,
        &native,
        &events,
        Some(GatewayError::other("broken")),
    );
    assert_eq!(r.unwrap_err().message(), "broken");
}

#[test]
fn last_message_is_the_reply() {
    let native = prompt("telegram", "u");
    let acl = AccessControl::new();
    let events = vec![
        event(EventKind::Message, EventStatus::Completed, "one", "a"),
        event(EventKind::Message, EventStatus::Failed, "two", "b"),
        AgentEvent::response_completed(),
    ];
    let reply = process_native(&acl, "en", false, false, &native, &events, None).unwrap();
    assert_eq!(reply.text, "two");
    assert_eq!(reply.session_id, "telegram:u");
    assert_eq!(reply.parts.len(), 1);
}

#[test]
fn silence_is_an_error_on_wechat_only() {
    let acl = AccessControl::new();
    let r = process_native(&acl, "en", false, false, &prompt("telegram", "u"), &vec![], None);
    assert_eq!(r.unwrap().text, "(no response)");
    let w = process_native(&acl, "en", false, false, &prompt("wechat:acc", "u"), &vec![], None);
    assert_eq!(w.unwrap_err().message(), "incomplete backend response");
}

#[test]
fn access_control_is_what_the_channel_configures() {
    let mut config = AppConfig::default();
    config.channels.telegram.base.access_control_dm = true;
    config.agent.language = "en".to_string();
    let mut acl = AccessControl::new();
    for name in ["telegram", "wechat"] {
        acl.channels.insert(
            name.to_string(),
            ChannelAcl {
                whitelist: Table::new_texts(),
                blacklist: Table::new_texts(),
            },
        );
    }
    let context = GatewayContext::new(config, acl);
    let events = vec![event(EventKind::Message, EventStatus::Completed, "hello", "a")];
    let denied = context.handle_native(&prompt("telegram:tg_1", "u"), &events, None);
    assert_eq!(denied.unwrap().text, context.acl.deny_message("en", "u"));
    let served = context.handle_native(&prompt("wechat:acc", "u"), &events, None);
    assert_eq!(served.unwrap().text, "hello");
    let broken = context.handle_native(
        &prompt("wechat:acc", "u"),
        &events,
        Some(GatewayError::other("broken")),
    );
    assert_eq!(broken.unwrap_err().message(), "broken");
}

#[test]
fn sender_who_is_turned_away_is_told_so() {
    let mut acl = AccessControl::new();
    acl.channels.insert(
        "telegram".to_string(),
        ChannelAcl {
            whitelist: Table::new_texts(),
            blacklist: Table::new_texts(),
        },
    );
    let events = vec![event(EventKind::Message, EventStatus::Completed, "secret", "a")];
    let native = prompt("telegram", "u");
    let r = process_native(&acl, "en", true, false, &native, &events, None).unwrap();
    assert_eq!(r.text, acl.deny_message("en", "u"));
    let run = process_with_sink(
        &acl, "en", true, false, true, false, false, &native, &events, None,
    );
    assert!(run.actions.is_empty());
    assert_eq!(run.reply.unwrap().text, acl.deny_message("en", "u"));
}

#[test]
fn query_is_the_first_text() {
    let mut n = prompt("telegram", "u");
    n.content_parts.insert(
        0,
        ChannelPart {
            kind: PartKind::Image,
            text: "[image]".to_string(),
            ..Default::default()
        },
    );
    n.content_parts[1].text = "/approve x".to_string();
    assert_eq!(extract_query(&n), "/approve x");
    assert_eq!(message_priority(&n), 10);
}
