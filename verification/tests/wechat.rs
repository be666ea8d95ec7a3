use im_channel_gateway::config::WeChatConfig;
use im_channel_gateway::error::GatewayError;
use im_channel_gateway::json::{Json, Number};
use im_channel_gateway::pipeline::{native_from_json, NativeMessage, ProcessedReply};
use im_channel_gateway::platforms::wechat::adapter::{
    cleanup_ticket, getupdates_cursor, getupdates_messages, native_reply_target, parse_inbound,
    remember_context_token, resolve_context_token, resolve_token, send_reply, stable_message_id,
    DedupIds, SentEchoes, TicketStep, TypingTickets, DEDUP_MAX, SENT_ECHO_TTL_MS,
};
use im_channel_gateway::platforms::wechat::channel::WeChatChannel;
use im_channel_gateway::platforms::wechat::client::{
    check_ilink_ret, download_url, getconfig_body, getupdates_body, ilink_ret_code,
    is_getupdates_path, is_ilink_auth_error, login_timeout, preview_response_body, preview_str,
    qrcode_params, read_response, redacted_value, response_has_messages, send_text,
    sendmessage_body, sendtyping_body, Download, ILinkClient, LoginStep, LoginWait, CHANNEL_VERSION,
    MEDIA_LIMIT, WECHAT_TYPING_STATUS_CLEANUP, WECHAT_TYPING_STATUS_TYPING,
};
use im_channel_gateway::platforms::wechat::crypto::{
    aes_ecb_decrypt, aes_ecb_encrypt, generate_aes_key_b64, generate_aes_key_hex, make_headers,
    parse_aes_key,
};
use im_channel_gateway::platforms::wechat::images::{
    inline_image, inline_images, size_fits, too_many_images, ImageStep,
};
use im_channel_gateway::platforms::wechat::login::{
    cli_login, parse_qr_response, qr_login_status_from_response,
};
use im_channel_gateway::platforms::wechat::poll::{
    poll_step, took, PollAction, PollEvent, PollState, Took,
};
use im_channel_gateway::platforms::wechat::qr_terminal::{
    decode_payload_from_png_b64, decode_payload_from_png_bytes, login_qr_png, png_for_scan_url,
    print_from_png_b64, print_login_qr, print_payload_to_stdout, resolve_scan_url,
};
use im_channel_gateway::platforms::wechat::registry::{
    channel_id_for, cursor_file_path, AccountStatus, WeChatAccountRegistry, LEGACY_ACCOUNT_ID,
};
use im_channel_gateway::platforms::wechat::runner::{
    delivery_result, native_to_json, poll_backoff, queue_message, Intake, WeChatAccountRunner,
};
use im_channel_gateway::platforms::wechat::stream::{
    take_full_chunks, wechat_streaming_enabled, WeChatStreamSink,
};
use im_channel_gateway::table::Table;
use im_channel_gateway::types::{ChannelPart, PartKind};

fn convert(v: &serde_json::Value) -> Json {
    match v {
        serde_json::Value::Null => Json::Null,
        serde_json::Value::Bool(b) => Json::Bool(*b),
        serde_json::Value::Number(n) => {
            if let Some(u) = n.as_u64() {
                Json::Number(Number::Unsigned(u))
            } else if let Some(i) = n.as_i64() {
                Json::Number(Number::Negative(i))
            } else {
                Json::Number(Number::Float(n.to_string()))
            }
        }
        serde_json::Value::String(s) => Json::Str(s.clone()),
        serde_json::Value::Array(a) => Json::Array(a.iter().map(convert).collect()),
        serde_json::Value::Object(m) => {
            Json::Object(m.iter().map(|(k, v)| (k.clone(), convert(v))).collect())
        }
    }
}

fn json(text: &str) -> Json {
    let v: serde_json::Value = serde_json::from_str(text).unwrap();
    convert(&v)
}


const TEST_ACCOUNT: &str = "acc_test";
const TEST_CHANNEL: &str = "wechat:acc_test";

fn value(text: &str) -> serde_json::Value {
    serde_json::from_str(text).unwrap()
}

fn text_value(s: &str) -> serde_json::Value {
    serde_json::Value::String(s.to_string())
}

fn parsed(msg: &serde_json::Value) -> Option<NativeMessage> {
    parse_inbound(&convert(msg), &msg.to_string(), TEST_ACCOUNT, TEST_CHANNEL)
}

fn parse(msg: &serde_json::Value) -> NativeMessage {
    parsed(msg).expect("native message")
}

fn message_id(msg: &serde_json::Value) -> String {
    stable_message_id(&convert(msg), &msg.to_string())
}

fn meta<'a>(native: &'a NativeMessage, key: &str) -> Option<&'a str> {
    native
        .meta
        .iter()
        .find(|(k, _)| k == key)
        .and_then(|(_, v)| v.as_str())
}

fn text_msg(message_state: i64, text: &str) -> serde_json::Value {
    let mut v = value(
        r#"{
            "message_type": 1,
            "from_user_id": "wx_user",
            "to_user_id": "wx_bot",
            "context_token": "ctx_1",
            "item_list": [
                { "type": 1, "text_item": { "text": "" } }
            ]
        }"#,
    );
    v["message_state"] = serde_json::Value::from(message_state);
    v["item_list"][0]["text_item"]["text"] = text_value(text);
    v
}

fn registry(max: usize) -> WeChatAccountRegistry {
    WeChatAccountRegistry::load("/data".to_string(), max, Table::new(), Table::new_texts())
}

fn runner(registry: &mut WeChatAccountRegistry, cfg: &WeChatConfig) -> WeChatAccountRunner {
    let id = registry.register_from_login("token", "", 1).unwrap();
    let entry = registry.get(&id).unwrap().unwrap();
    WeChatAccountRunner::new(&id, &channel_id_for(&id), cfg, &entry, "")
}

// -- Messages ------------------------------------------------------------------------------------

#[test]
fn identical_text_and_images_keep_distinct_platform_ids() {
    let mut first = value(r#"{"message_id":1,"text":"确认","context_token":"same"}"#);
    let second = value(r#"{"message_id":2,"text":"确认","context_token":"same"}"#);
    assert_ne!(message_id(&first), message_id(&second));
    first = value(r#"{"image_item":{"media":"first"},"create_time":1}"#);
    let mut next = first.clone();
    next["create_time"] = serde_json::Value::from(2);
    assert_eq!(message_id(&first), message_id(&first.clone()));
    assert_ne!(message_id(&first), message_id(&next));
}

#[test]
fn digest_stands_for_a_missing_id() {
    assert_eq!(
        stable_message_id(&json("{}"), "abc"),
        "sha256:ba7816bf8f01cfea414140de5dae2223b00361a396177a9cb410ff61f20015ad"
    );
    assert_eq!(stable_message_id(&json(r#"{"message_id":""}"#), "abc").len(), 71);
    assert_eq!(stable_message_id(&json(r#"{"msgid":-4}"#), "abc"), "-4");
}

#[test]
fn parse_inbound_accepts_user_text() {
    let native = parse(&text_msg(1, "hello"));

    assert_eq!(native.channel_id, TEST_CHANNEL);
    assert_eq!(native.sender_id, "wx_user");
    assert_eq!(
        native.session_id.as_deref(),
        Some("wechat:acc_test:dm:wx_user")
    );
    assert_eq!(native.content_parts[0].text, "hello");
    assert_eq!(meta(&native, "reply_to_user_id"), Some("wx_user"));
}

#[test]
fn parse_inbound_group_uses_group_reply_target() {
    let mut msg = text_msg(1, "hello group");
    msg["group_id"] = text_value("group_1");
    let native = parse(&msg);

    assert_eq!(
        native.session_id.as_deref(),
        Some("wechat:acc_test:group:group_1")
    );
    assert_eq!(native.sender_id, "wx_user");
    assert_eq!(meta(&native, "reply_to_user_id"), Some("group_1"));
    assert_eq!(meta(&native, "from_user_id"), Some("wx_user"));
}

#[test]
fn parse_inbound_accepts_state_two_user_text() {
    let native = parse(&text_msg(2, "hello from wechat"));

    assert_eq!(native.sender_id, "wx_user");
    assert_eq!(native.content_parts[0].text, "hello from wechat");
}

#[test]
fn parse_inbound_normalizes_null_to_user_id() {
    let mut msg = text_msg(1, "hello");
    msg["to_user_id"] = serde_json::Value::Null;
    let native = parse(&msg);

    assert_eq!(meta(&native, "to_user_id"), Some(""));
}

#[test]
fn parse_inbound_uses_bot_user_id_when_to_user_id_is_null() {
    let mut msg = text_msg(1, "hello");
    msg["to_user_id"] = serde_json::Value::Null;
    msg["bot_user_id"] = text_value(" wx_bot ");
    let native = parse(&msg);

    assert_eq!(meta(&native, "to_user_id"), Some("wx_bot"));
}

#[test]
fn parse_inbound_accepts_image_item() {
    let msg = value(
        r#"{
            "message_type": 1,
            "from_user_id": "wx_user",
            "to_user_id": "wx_bot",
            "context_token": "ctx_media",
            "item_list": [{
                "type": 2,
                "image_item": {
                    "media": {
                        "encrypt_query_param": "enc",
                        "aes_key": "key",
                        "encrypt_type": 1
                    },
                    "mid_size": 128
                }
            }]
        }"#,
    );

    let native = parse(&msg);

    assert_eq!(native.content_parts[0].kind, PartKind::Image);
    assert_eq!(native.content_parts[0].text, "[WeChat image message]");
    assert!(native.content_parts[0].data.is_some());
}

#[test]
fn parse_inbound_accepts_voice_text_item() {
    let msg = value(
        r#"{
            "message_type": 1,
            "from_user_id": "wx_user",
            "to_user_id": "wx_bot",
            "context_token": "ctx_voice",
            "item_list": [{
                "type": 3,
                "voice_item": {
                    "text": "下午三点到",
                    "playtime": 1200
                }
            }]
        }"#,
    );

    let native = parse(&msg);

    assert_eq!(native.content_parts[0].kind, PartKind::Audio);
    assert!(native.content_parts[0].text.contains("下午三点到"));
}

#[test]
fn parse_inbound_accepts_file_item() {
    let msg = value(
        r#"{
            "message_type": 1,
            "from_user_id": "wx_user",
            "to_user_id": "wx_bot",
            "context_token": "ctx_file",
            "item_list": [{
                "type": 4,
                "file_item": {
                    "file_name": "report.pdf",
                    "len": "42"
                }
            }]
        }"#,
    );

    let native = parse(&msg);

    assert_eq!(native.content_parts[0].kind, PartKind::File);
    assert!(native.content_parts[0].text.contains("report.pdf"));
}

#[test]
fn parse_inbound_accepts_video_item() {
    let msg = value(
        r#"{
            "message_type": 1,
            "from_user_id": "wx_user",
            "to_user_id": "wx_bot",
            "context_token": "ctx_video",
            "item_list": [{
                "type": 5,
                "video_item": {
                    "video_size": 2048,
                    "play_length": 3000
                }
            }]
        }"#,
    );

    let native = parse(&msg);

    assert_eq!(native.content_parts[0].kind, PartKind::Video);
    assert_eq!(native.content_parts[0].text, "[WeChat video message]");
}

#[test]
fn parse_inbound_rejects_empty_sender_send_echo() {
    let mut msg = text_msg(2, "generated reply");
    msg["from_user_id"] = text_value("");

    assert!(parsed(&msg).is_none());
}

#[test]
fn sent_echo_store_matches_recent_sent_text_within_ttl() {
    let mut store = SentEchoes::new();
    store.remember("wx_user", "generated reply", 1000);
    let native = parse(&text_msg(2, "generated reply"));
    let target = native_reply_target(&native);

    assert!(store.is_sent_echo(&target, "generated reply", 1000));
    assert!(store.is_sent_echo(&target, "generated reply", 1000 + SENT_ECHO_TTL_MS - 1));
    assert!(!store.is_sent_echo(&target, "generated reply", 1000 + SENT_ECHO_TTL_MS));
    assert!(!store.is_sent_echo(&target, "   ", 1000));
}

#[test]
fn resolve_token_loads_from_registry() {
    let mut registry = registry(20);
    let id = registry.register_from_login("file_token", "", 1).unwrap();
    let token = resolve_token(&registry, &id).unwrap();
    assert_eq!(token, "file_token");
    assert_eq!(
        resolve_token(&registry, "acc_none").unwrap_err().message(),
        "config error: wechat account acc_none missing bot_token; run `im-channel-gateway login wechat`"
    );
}

#[test]
fn user_message_context_token_replaces_cached_token() {
    let mut store = Table::new_texts();
    remember_context_token(&mut store, "wx_user", "ctx_old");
    remember_context_token(&mut store, "wx_user", "ctx_new");

    assert_eq!(
        resolve_context_token(&store, "wx_user", "fallback"),
        "ctx_new"
    );
    assert_eq!(resolve_context_token(&store, "other", "fallback"), "fallback");
}

// -- Typing --------------------------------------------------------------------------------------

#[test]
fn send_typing_start_and_cleanup_use_getconfig_ticket() {
    let mut tickets = TypingTickets::new();
    assert!(matches!(tickets.resolve("wx_user", 0), TicketStep::Ask));
    let ticket = tickets.answered(
        "wx_user",
        Some(&json(r#"{"ret": 0, "typing_ticket": "ticket_1"}"#)),
        0,
    );
    assert_eq!(ticket.as_deref(), Some("ticket_1"));

    let getconfig = getconfig_body("wx_user", "ctx_1");
    assert_eq!(getconfig.get_str("ilink_user_id"), Some("wx_user"));
    assert_eq!(getconfig.get_str("context_token"), Some("ctx_1"));

    let start = sendtyping_body("wx_user", "ticket_1", WECHAT_TYPING_STATUS_TYPING);
    assert_eq!(start.get_str("typing_ticket"), Some("ticket_1"));
    assert_eq!(
        start.get("status").and_then(|v| v.as_i64()),
        Some(WECHAT_TYPING_STATUS_TYPING)
    );

    let end = cleanup_ticket("wx_user", ticket.as_deref()).unwrap();
    let cleanup = sendtyping_body("wx_user", &end, WECHAT_TYPING_STATUS_CLEANUP);
    assert_eq!(cleanup.get_str("typing_ticket"), Some("ticket_1"));
    assert_eq!(
        cleanup.get("status").and_then(|v| v.as_i64()),
        Some(WECHAT_TYPING_STATUS_CLEANUP)
    );
}

#[test]
fn send_typing_start_reuses_cached_ticket() {
    let mut tickets = TypingTickets::new();
    tickets.answered("wx_user", Some(&json(r#"{"typing_ticket": "ticket_1"}"#)), 0);
    match tickets.resolve("wx_user", 1) {
        TicketStep::Have(t) => assert_eq!(t, "ticket_1"),
        _ => panic!("the ticket is good"),
    }
    assert!(matches!(
        tickets.resolve("wx_user", 86_400_000),
        TicketStep::Ask
    ));
}

#[test]
fn start_typing_session_registers_keepalive_until_finish() {
    let mut reg = registry(20);
    let mut r = runner(&mut reg, &WeChatConfig::default());
    let started = r
        .typing_shown("wx_user", "ctx_1", "ticket_1", true, 0)
        .expect("typing session");
    assert_eq!(started.ticket, "ticket_1");
    assert!(!started.replaced);
    assert!(r.typing_sessions.contains_key(&started.session_key));
    let end = r.finish_typing_session(Some(&started.session_key), "other", None);
    assert!(end.stop_keepalive);
    assert_eq!(
        end.cleanup,
        Some(("wx_user".to_string(), "ticket_1".to_string()))
    );
    assert!(!r.typing_sessions.contains_key(&started.session_key));
    let again = r.finish_typing_session(Some(&started.session_key), "wx_user", Some("t2"));
    assert!(!again.stop_keepalive);
    assert_eq!(
        again.cleanup,
        Some(("wx_user".to_string(), "t2".to_string()))
    );
}

#[test]
fn sendtyping_cleanup_failure_invalidates_cached_ticket() {
    let mut tickets = TypingTickets::new();
    tickets.remember("wx_user", "ticket_1", 0);
    tickets.remember_failure("wx_user", 10);

    assert!(matches!(tickets.resolve("wx_user", 11), TicketStep::Skip));
    assert!(matches!(
        tickets.resolve("wx_user", 60_010),
        TicketStep::Ask
    ));
}

// -- Replies -------------------------------------------------------------------------------------

fn test_reply(text: &str, context_token: &str) -> ProcessedReply {
    ProcessedReply {
        text: text.to_string(),
        parts: vec![],
        meta: vec![
            ("from_user_id".to_string(), Json::text("wx_user")),
            ("context_token".to_string(), Json::text(context_token)),
        ],
        session_id: "wechat:wx_user".to_string(),
        user_id: "wx_user".to_string(),
    }
}

#[test]
fn send_reply_uses_reply_target_for_group() {
    let mut store = Table::new_texts();
    remember_context_token(&mut store, "group_1", "group_token");
    let mut reply = test_reply("group response", "fallback_token");
    reply
        .meta
        .push(("reply_to_user_id".to_string(), Json::text("group_1")));

    let plan = send_reply(&reply, "", &store).expect("send_reply");

    let body = sendmessage_body(send_text(&plan.to_user, &plan.chunks[0], &plan.context_token));
    assert_eq!(
        body.get2("msg", "to_user_id").and_then(|v| v.as_str()),
        Some("group_1")
    );
    assert_eq!(
        body.get2("msg", "context_token").and_then(|v| v.as_str()),
        Some("group_token")
    );
}

#[test]
fn send_reply_never_calls_getupdates() {
    let mut store = Table::new_texts();
    remember_context_token(&mut store, "wx_user", "token_a");
    let plan = send_reply(&test_reply("segment A", "token_a"), "", &store).expect("send_reply");
    remember_context_token(&mut store, "wx_user", "token_b");
    assert_eq!(plan.to_user, "wx_user");
    assert_eq!(plan.context_token, "token_a");
    assert_eq!(plan.chunks, vec!["segment A".to_string()]);
}

#[test]
fn send_reply_does_not_retry_or_replace_token_on_send_error() {
    let mut store = Table::new_texts();
    remember_context_token(&mut store, "wx_user", "token_cached");
    let reply = test_reply("segment A", "token_fallback");
    let plan = send_reply(&reply, "", &store).expect("send_reply");
    let err = ret(r#"{"ret": -2, "errmsg": "bad params"}"#).unwrap_err();
    assert!(err.message().contains("-2"));
    let mut client = ILinkClient::new("token", "https://b.test");
    assert!(!client.retries(&err, Some("other")));
    assert_eq!(
        resolve_context_token(&store, "wx_user", "fallback"),
        "token_cached"
    );
    assert_eq!(plan.chunks.len(), 1);
    assert_eq!(plan.context_token, "token_cached");
}

#[test]
fn qrcode_status_sends_client_version_header() {
    let client = ILinkClient::new("", "https://b.test");
    let headers = client.qrcode_status_headers();
    let raw: Vec<String> = headers
        .iter()
        .map(|(k, v)| format!("{k}: {v}").to_ascii_lowercase())
        .collect();
    assert!(raw.contains(&"ilink-app-clientversion: 1".to_string()));
    assert_eq!(headers.len(), client.headers().len() + 1);
    let data = read_response(
        200,
        r#"{"status": "wait"}"#.to_string(),
        Ok((json(r#"{"status": "wait"}"#), String::new())),
    );
    assert_eq!(data.unwrap().get_str("status"), Some("wait"));
}

#[test]
fn consecutive_send_reply_uses_token_refreshed_by_user_message() {
    let mut store = Table::new_texts();
    remember_context_token(&mut store, "wx_user", "token_a");
    let a = send_reply(&test_reply("segment A", "token_a"), "", &store).expect("send A");
    remember_context_token(&mut store, "wx_user", "token_b");
    let b = send_reply(&test_reply("segment B", "token_a"), "", &store).expect("send B");
    assert_eq!(a.context_token, "token_a");
    assert_eq!(b.context_token, "token_b");
}

#[test]
fn reply_needs_a_receiver_and_a_token() {
    let store = Table::new_texts();
    let mut lost = test_reply("x", "t");
    lost.meta = vec![];
    assert_eq!(
        send_reply(&lost, "", &store).unwrap_err().message(),
        "wechat: missing from_user_id"
    );
    assert_eq!(
        send_reply(&test_reply("x", ""), "", &store)
            .unwrap_err()
            .message(),
        "channel error [wechat]: missing context_token for outbound reply"
    );
    let plan = send_reply(&test_reply(&"y".repeat(2500), "t"), "[bot]", &store).unwrap();
    assert_eq!(plan.chunks.len(), 2);
    assert!(plan.chunks[0].starts_with("[bot]  y"));
}

// -- Polls ---------------------------------------------------------------------------------------

#[test]
fn apply_getupdates_batch_leaves_user_messages_enqueueable() {
    let mut reg = registry(20);
    let mut r = runner(&mut reg, &WeChatConfig::default());
    let data = value(
        r#"{
            "get_updates_buf": "cursor_next",
            "msgs": [
                {
                    "message_type": 2,
                    "to_user_id": "wx_user",
                    "context_token": "token_b",
                    "item_list": [{ "type": 1, "text_item": { "text": "bot echo" } }]
                },
                {
                    "message_type": 1,
                    "message_state": 2,
                    "from_user_id": "wx_user",
                    "to_user_id": "wx_bot",
                    "context_token": "token_user",
                    "item_list": [{ "type": 1, "text_item": { "text": "user follow-up" } }]
                }
            ]
        }"#,
    );

    let saved = r.apply_getupdates_response(&convert(&data));

    assert_eq!(saved.as_deref(), Some("cursor_next"));
    assert_eq!(r.cursor, "cursor_next");
    let native = parse(&data["msgs"][1]);
    assert_eq!(native.content_parts[0].text, "user follow-up");
    assert_eq!(meta(&native, "context_token"), Some("token_user"));
}

#[test]
fn getupdates_accepts_nested_message_list_aliases() {
    let data = value(
        r#"{
            "data": {
                "next_get_updates_buf": "cursor_next",
                "msg_list": [{
                    "message_type": 1,
                    "message_state": 2,
                    "from_user_id": "wx_user",
                    "bot_user_id": "wx_bot",
                    "context_token": "token_user",
                    "item_list": [{ "type": 1, "text_item": { "text": "nested user msg" } }]
                }]
            }
        }"#,
    );

    let msgs = getupdates_messages(&convert(&data));

    assert_eq!(
        getupdates_cursor(&convert(&data)).as_deref(),
        Some("cursor_next")
    );
    assert_eq!(msgs.len(), 1);
    let native = parse_inbound(&msgs[0], "", TEST_ACCOUNT, TEST_CHANNEL).unwrap();
    assert_eq!(native.content_parts[0].text, "nested user msg");
    assert_eq!(meta(&native, "to_user_id"), Some("wx_bot"));
}

#[test]
fn message_is_taken_once_and_echoes_are_not() {
    let mut reg = registry(20);
    let mut r = runner(&mut reg, &WeChatConfig::default());
    let mut msg = text_msg(1, "hello");
    msg["message_id"] = serde_json::Value::from(7);
    let taken = match r.take_message(&mut reg, &convert(&msg), "", 10) {
        Intake::Taken(n) => n,
        _ => panic!("a new message"),
    };
    assert_eq!(
        resolve_context_token(&r.context_tokens, "wx_user", ""),
        "ctx_1"
    );
    assert!(matches!(
        r.take_message(&mut reg, &convert(&msg), "", 11),
        Intake::Duplicate
    ));
    r.sent_echoes.remember("wx_user", "hello", 12);
    msg["message_id"] = serde_json::Value::from(8);
    assert!(matches!(
        r.take_message(&mut reg, &convert(&msg), "", 13),
        Intake::Echo
    ));
    assert!(matches!(
        r.take_message(&mut reg, &json("{}"), "", 14),
        Intake::Ignored
    ));
    let typing = r.typing_shown("wx_user", "ctx_1", "ticket", true, 15);
    let session = taken.session_id.clone().unwrap();
    let q = queue_message(taken, typing.as_ref());
    assert_eq!(q.session_id, session);
    let back = native_from_json(r.channel_id(), &q.payload).unwrap();
    assert_eq!(back.content_parts[0].text, "hello");
    assert_eq!(meta(&back, "typing_ticket"), Some("ticket"));
}

#[test]
fn bot_of_another_account_ends_the_runner() {
    let mut reg = registry(20);
    let mut a = runner(&mut reg, &WeChatConfig::default());
    let mut b = runner(&mut reg, &WeChatConfig::default());
    let msg = convert(&text_msg(1, "hello"));
    assert!(matches!(a.take_message(&mut reg, &msg, "x", 1), Intake::Taken(_)));
    match b.take_message(&mut reg, &msg, "x", 1) {
        Intake::Merged(id) => assert_eq!(id, a.account_id()),
        _ => panic!("the bot runs in the first account"),
    }
}

#[test]
fn pictures_are_read_at_once_where_asked() {
    let mut reg = registry(20);
    let cfg = WeChatConfig {
        inline_images: true,
        ..Default::default()
    };
    let mut r = runner(&mut reg, &cfg);
    match r.take_message(&mut reg, &convert(&text_msg(1, "hello")), "x", 1) {
        Intake::Inline(_, read) => assert!(read),
        _ => panic!("worked on at once"),
    }
}

#[test]
fn only_the_last_ids_are_kept() {
    let mut d = DedupIds::new();
    for i in 0..(DEDUP_MAX + 5) {
        assert!(!d.seen_before(&format!("m{i}")));
    }
    assert_eq!(d.ids.len(), DEDUP_MAX);
    assert!(d.seen_before(&format!("m{}", DEDUP_MAX + 4)));
    assert!(!d.seen_before("m0"));
    assert!(!d.seen_before(""));
}

#[test]
fn message_with_media_comes_back_whole() {
    let msg = value(
        r#"{"message_type": 1, "from_user_id": "u", "item_list": [
            {"type": 2, "image_item": {"media": {"aes_key": "k"}}},
            {"type": 1, "text_item": {"text": "look"}}
        ]}"#,
    );
    let native = parse(&msg);
    let payload = native_to_json(&native, "s");
    let back = native_from_json(TEST_CHANNEL, &payload).unwrap();
    assert_eq!(back.content_parts[0].data, native.content_parts[0].data);
    assert_eq!(back.content_parts[0].extra, native.content_parts[0].extra);
    assert_eq!(back.content_parts[1].text, "look");
    assert_eq!(back.meta, native.meta);
}

#[test]
fn waits_after_failed_polls_grow_to_two_minutes() {
    let waits: Vec<u64> = (1..=8).map(poll_backoff).collect();
    assert_eq!(waits, vec![5, 10, 20, 40, 80, 120, 120, 120]);
    assert_eq!(poll_backoff(62), 120);
    assert_eq!(poll_backoff(0), 5);
    assert_eq!(poll_backoff(u32::MAX), 120);
}

/// Where a runner stands once a poll brought so many messages and then this happened.
fn after(total: usize, events: &[PollEvent]) -> (PollState, PollAction) {
    let mut registry = registry(20);
    let runner = runner(&mut registry, &WeChatConfig::default());
    let begun = runner.start();
    assert_eq!(begun.1, PollAction::Ask);
    let mut now = poll_step(begun.0, PollEvent::Got(total));
    for event in events {
        now = poll_step(now.0, *event);
    }
    now
}

#[test]
fn cursor_waits_for_all_messages() {
    let done = PollEvent::Delivered { ok: true, stop: false };
    let failed = PollEvent::Delivered { ok: false, stop: false };
    let inline = PollEvent::Took(Took::Inline(false));
    let images = PollEvent::Took(Took::Inline(true));
    assert_eq!(after(0, &[]).1, PollAction::Rest);
    assert_eq!(after(0, &[PollEvent::Rested]).1, PollAction::KeepCursor);
    assert_eq!(after(3, &[]).1, PollAction::Take(0));
    assert_eq!(after(3, &[PollEvent::Took(Took::Nothing)]).1, PollAction::Take(1));
    assert_eq!(after(1, &[inline, done]).1, PollAction::KeepCursor);
    assert_eq!(after(1, &[inline, failed]).1, PollAction::Wait);
    assert_eq!(after(1, &[inline, failed, PollEvent::Waited]).1, PollAction::Deliver);
    assert_eq!(
        after(1, &[inline, failed, PollEvent::Waited, done]).1,
        PollAction::KeepCursor
    );
    assert_eq!(after(1, &[images]).1, PollAction::ReadImages);
    assert_eq!(after(1, &[images, PollEvent::ImagesRead(true)]).1, PollAction::Deliver);
    let refused = [images, PollEvent::ImagesRead(false), PollEvent::Refused];
    assert_eq!(after(1, &refused[..2]).1, PollAction::Refuse);
    assert_eq!(after(2, &refused).1, PollAction::Take(1));
    let queue = [PollEvent::Took(Took::Queue), PollEvent::Enqueued];
    assert_eq!(after(1, &queue[..1]).1, PollAction::Enqueue);
    assert_eq!(after(1, &queue).1, PollAction::KeepCursor);
}

#[test]
fn failed_polls_are_tried_again() {
    let mut registry = registry(20);
    let runner = runner(&mut registry, &WeChatConfig::default());
    let (mut state, mut action) = runner.start();
    let mut pauses = vec![];
    for _ in 0..7 {
        assert_eq!(action, PollAction::Ask);
        (state, action) = poll_step(state, PollEvent::Failed);
        match action {
            PollAction::Pause(secs) => pauses.push(secs),
            _ => panic!("no pause after a failed poll"),
        }
        (state, action) = poll_step(state, PollEvent::Paused);
    }
    assert_eq!(pauses, vec![5, 10, 20, 40, 80, 120, 120]);
    (state, action) = poll_step(state, PollEvent::Got(1));
    assert_eq!(action, PollAction::Take(0));
    (state, action) = poll_step(state, PollEvent::Took(Took::Nothing));
    assert_eq!(action, PollAction::KeepCursor);
    (state, action) = poll_step(state, PollEvent::Kept);
    assert_eq!(action, PollAction::Ask);
    (state, action) = poll_step(state, PollEvent::Failed);
    assert_eq!(action, PollAction::Pause(5));
    assert_eq!(poll_step(state, PollEvent::Stopped).1, PollAction::Stop);
    assert_eq!(poll_step(runner.start().0, PollEvent::Stopped).1, PollAction::Stop);
}

#[test]
fn stop_leaves_the_cursor() {
    let inline = PollEvent::Took(Took::Inline(false));
    let stopped = PollEvent::Delivered { ok: false, stop: true };
    let late = PollEvent::Delivered { ok: true, stop: true };
    assert_eq!(after(1, &[inline, stopped]).1, PollAction::Stop);
    assert_eq!(after(1, &[inline, late]).1, PollAction::KeepCursor);
    assert_eq!(after(2, &[PollEvent::Took(Took::Merged)]).1, PollAction::Stop);
    assert_eq!(after(1, &[PollEvent::Waited]).1, PollAction::Stop);

    let mut registry = registry(20);
    let mut runner = runner(&mut registry, &WeChatConfig::default());
    let data = json(r#"{"get_updates_buf": "next"}"#);
    assert!(runner.end_poll(PollAction::Stop, &data).is_none());
    assert_eq!(runner.cursor, "");
    assert_eq!(runner.end_poll(PollAction::KeepCursor, &data).as_deref(), Some("next"));
    assert_eq!(runner.cursor, "next");
}

#[test]
fn intake_says_what_comes_next() {
    assert_eq!(took(&Intake::Ignored), Took::Nothing);
    assert_eq!(took(&Intake::Echo), Took::Nothing);
    assert_eq!(took(&Intake::Duplicate), Took::Nothing);
    assert_eq!(took(&Intake::Merged("a".to_string())), Took::Merged);
}

#[test]
fn lost_pieces_are_an_error() {
    assert!(delivery_result(Ok(()), None).is_ok());
    assert_eq!(
        delivery_result(Ok(()), Some("1 lost".to_string()))
            .unwrap_err()
            .message(),
        "channel error [wechat]: 1 lost"
    );
    assert_eq!(
        delivery_result(Err(GatewayError::other("x")), Some("1 lost".to_string()))
            .unwrap_err()
            .message(),
        "x"
    );
}

// -- Pictures ------------------------------------------------------------------------------------

fn image_part(data: &str) -> ChannelPart {
    ChannelPart {
        kind: PartKind::Image,
        text: "[WeChat image message]".to_string(),
        data: Some(json(data)),
        ..Default::default()
    }
}

#[test]
fn picture_is_put_into_its_part() {
    let png = png_for_scan_url("https://example.com").unwrap();
    let mut part = image_part(r#"{"image_item": {"media": {"aes_key": "k"}}}"#);
    inline_image(&mut part, &png).unwrap();
    assert!(part.url.starts_with("data:image/png;base64,iVBORw0KGgo"));
    assert!(part.text.is_empty());
    assert!(part.data.is_none());
    assert!(part.extra.is_empty());
    let mut bad = image_part("{}");
    assert_eq!(
        inline_image(&mut bad, &b"GIF89a.....".to_vec())
            .unwrap_err()
            .message(),
        "invalid or oversized image"
    );
    assert_eq!(bad.text, "[WeChat image message]");
    let mut cut = png.clone();
    cut.truncate(60);
    assert!(inline_image(&mut bad, &cut).is_err());
    cut.truncate(10);
    assert!(inline_image(&mut bad, &cut).is_err());
}

#[test]
fn pictures_are_fetched_one_after_another() {
    let source = r#"{"image_item": {"media": {"aes_key": "k", "url": "u", "encrypt_query_param": "q"}}}"#;
    let parts = vec![ChannelPart::text_part("a"), image_part(source)];
    match inline_images(&parts, 0).unwrap() {
        ImageStep::Fetch(i, s) => {
            assert_eq!(i, 1);
            assert_eq!(
                (s.url.as_str(), s.aes_key.as_str(), s.encrypt_query_param.as_str()),
                ("u", "k", "q")
            );
        }
        ImageStep::Done => panic!("one picture is left"),
    }
    assert!(matches!(inline_images(&parts, 2), Ok(ImageStep::Done)));
    let old = vec![image_part(r#"{"image_item": {"aeskey": "k2"}}"#)];
    match inline_images(&old, 0).unwrap() {
        ImageStep::Fetch(_, s) => assert_eq!(s.aes_key, "k2"),
        ImageStep::Done => panic!("one picture is left"),
    }
    assert!(inline_images(&vec![image_part("{}")], 0).is_err());
    let many = vec![image_part(source), image_part(source), image_part(source), image_part(source)];
    assert!(too_many_images(&many));
    assert!(inline_images(&many, 0).is_err());
    assert!(size_fits(4000, 4000));
    assert!(!size_fits(4001, 4000));
    assert!(!size_fits(8193, 1));
    assert!(!size_fits(u32::MAX, u32::MAX));
}

// -- The platform --------------------------------------------------------------------------------

fn ret(text: &str) -> Result<(), GatewayError> {
    check_ilink_ret(&json(text), &value(text).to_string())
}

#[test]
fn check_ilink_ret_accepts_success_and_empty() {
    assert!(ret("{}").is_ok());
    assert!(ret(r#"{"ret": 0}"#).is_ok());
}

#[test]
fn check_ilink_ret_rejects_nonzero() {
    let err = ret(r#"{"ret": -2, "errmsg": "bad params"}"#).unwrap_err();
    assert!(err.message().contains("-2"));
    assert!(err.message().contains("bad params"));
}

#[test]
fn check_ilink_ret_includes_response_when_errmsg_missing() {
    let err = ret(r#"{"ret": -2, "detail": "stale token"}"#).unwrap_err();
    let msg = err.message();
    assert!(msg.contains("-2"));
    assert!(msg.contains("response="));
    assert!(msg.contains("stale token"));
}

#[test]
fn ilink_ret_code_parses_channel_error() {
    let err = ret(r#"{"ret": -2}"#).unwrap_err();
    assert_eq!(ilink_ret_code(&err), Some(-2));
}

fn to_value(v: &Json) -> serde_json::Value {
    match v {
        Json::Null => serde_json::Value::Null,
        Json::Bool(b) => serde_json::Value::Bool(*b),
        Json::Number(Number::Unsigned(u)) => serde_json::Value::from(*u),
        Json::Number(Number::Negative(i)) => serde_json::Value::from(*i),
        Json::Number(Number::Float(s)) => serde_json::from_str(s).unwrap(),
        Json::Str(s) => serde_json::Value::String(s.clone()),
        Json::Array(a) => serde_json::Value::Array(a.iter().map(to_value).collect()),
        Json::Object(m) => serde_json::Value::Object(
            m.iter().map(|(k, v)| (k.clone(), to_value(v))).collect(),
        ),
    }
}

#[test]
fn response_preview_redacts_sensitive_fields() {
    let body = json(
        r#"{"ret":0,"bot_token":"bot_secret","typing_ticket":"ticket_secret","context_token":"ctx_secret"}"#,
    );
    let shown = to_value(&redacted_value(&body)).to_string();
    let preview = preview_response_body(Some(&shown));

    assert!(preview.contains("***"));
    assert!(!preview.contains("bot_secret"));
    assert!(!preview.contains("ticket_secret"));
    assert!(!preview.contains("ctx_secret"));
}

#[test]
fn response_has_messages_accepts_empty_and_nested_batches() {
    assert!(!response_has_messages(&json(r#"{"msgs": []}"#)));
    assert!(!response_has_messages(&json(r#"{"data": {"msg_list": []}}"#)));
    assert!(response_has_messages(&json(
        r#"{"msgs": [{"message_type": 1}]}"#
    )));
    assert!(response_has_messages(&json(
        r#"{"data": {"msg_list": [{"message_type": 1}]}}"#
    )));
    assert!(response_has_messages(&json(
        r#"{"data": {"msg": {"message_type": 1}}}"#
    )));
}

#[test]
fn get_rejects_nonzero_ret() {
    let text = r#"{"ret": -2, "errmsg": "bad params"}"#;
    let err = read_response(
        200,
        text.to_string(),
        Ok((json(text), value(text).to_string())),
    )
    .unwrap_err();
    assert!(err.message().contains("-2"));
    assert!(read_response(500, "down".to_string(), Err("not json".to_string())).is_err());
    assert!(read_response(200, "<html>".to_string(), Err("not json".to_string())).is_err());
    assert!(read_response(200, "{}".to_string(), Ok((json("{}"), "{}".to_string()))).is_ok());
}

#[test]
fn wait_for_login_returns_bot_user_id() {
    let client = ILinkClient::new("", "https://base.test");
    let login = match client.login_step(&json(
        r#"{
            "status": "confirmed",
            "bot_token": "token_1",
            "base_url": "https://example.test",
            "botUserId": " wx_bot "
        }"#,
    )) {
        LoginStep::Done(l) => l,
        _ => panic!("the login is done"),
    };

    assert_eq!(login.bot_token, "token_1");
    assert_eq!(login.base_url, "https://example.test");
    assert_eq!(login.bot_user_id.as_deref(), Some("wx_bot"));
    assert!(matches!(
        client.login_step(&json(r#"{"status": "wait"}"#)),
        LoginStep::Wait
    ));
    assert!(matches!(
        client.login_step(&json(r#"{"status": "expired"}"#)),
        LoginStep::Fail(_)
    ));
    assert!(login_timeout(300).message().contains("300"));
}

#[test]
fn post_reloads_token_file_once_on_auth_error() {
    let mut client = ILinkClient::new_with_token_file("old_token", "https://b", "/f".to_string());
    let err = ret(r#"{"ret": -1, "errmsg": "invalid token"}"#).unwrap_err();
    assert!(is_ilink_auth_error(&err));
    assert!(client.reload_bot_token(Some("new_token\n")));
    assert_eq!(client.bot_token, "new_token");
    assert!(!client.reload_bot_token(Some("new_token")));
    assert!(!client.reload_bot_token(None));
}

#[test]
fn failed_request_is_sent_again_with_a_new_token_only() {
    let mut client = ILinkClient::new_with_token_file("old", "https://b", "/f".to_string());
    let refused = ret(r#"{"ret": -1, "errmsg": "invalid token"}"#).unwrap_err();
    let down = GatewayError::other("down");
    assert!(!client.retries(&down, Some("new")));
    assert_eq!(client.bot_token, "old");
    assert!(!client.retries(&refused, Some(" old ")));
    assert!(!client.retries(&refused, None));
    assert!(client.retries(&refused, Some("new")));
    assert_eq!(client.bot_token, "new");
    let mut without_file = ILinkClient::new("old", "https://b");
    assert!(!without_file.retries(&refused, Some("new")));
}

#[test]
fn open_login_is_given_up_after_the_wait() {
    let client = ILinkClient::new("", "https://base.test");
    let mut wait = LoginWait::new(2_000, 5_000);
    let mut asked = 0;
    let err = loop {
        if let Err(e) = wait.goes_on() {
            break e;
        }
        asked += 1;
        assert!(matches!(
            wait.answered(&client, &json(r#"{"status": "wait"}"#)),
            LoginStep::Wait
        ));
    };
    assert_eq!(asked, 3);
    assert_eq!(wait.waited_ms, 6_000);
    assert_eq!(err.message(), "WeChat QR not confirmed within 5s");
    let mut done = LoginWait::new(2_000, 5_000);
    assert!(matches!(
        done.answered(&client, &json(r#"{"status": "confirmed"}"#)),
        LoginStep::Fail(_)
    ));
    assert_eq!(done.waited_ms, 0);
}

#[test]
fn getconfig_sends_typing_config_body() {
    let client = ILinkClient::new("token", "https://b.test");
    assert_eq!(
        client.url("ilink/bot/getconfig"),
        "https://b.test/ilink/bot/getconfig"
    );
    let body = getconfig_body("wx_user", "ctx_1");
    assert_eq!(body.get_str("ilink_user_id"), Some("wx_user"));
    assert_eq!(body.get_str("context_token"), Some("ctx_1"));
    assert_eq!(
        body.get2("base_info", "channel_version").and_then(|v| v.as_str()),
        Some(CHANNEL_VERSION)
    );
}

#[test]
fn sendtyping_sends_status_body() {
    let body = sendtyping_body("wx_user", "ticket_1", WECHAT_TYPING_STATUS_TYPING);
    assert_eq!(body.get_str("ilink_user_id"), Some("wx_user"));
    assert_eq!(body.get_str("typing_ticket"), Some("ticket_1"));
    assert_eq!(
        body.get("status").and_then(|v| v.as_i64()),
        Some(WECHAT_TYPING_STATUS_TYPING)
    );
    assert_eq!(
        body.get2("base_info", "channel_version").and_then(|v| v.as_str()),
        Some(CHANNEL_VERSION)
    );
    assert_eq!(getupdates_body("c").get_str("get_updates_buf"), Some("c"));
    assert!(is_getupdates_path("ilink/bot/getupdates"));
    assert!(qrcode_params("").iter().any(|(_, v)| v == "3"));
    assert_eq!(preview_str("abc", 10), "abc");
}

#[test]
fn headers_carry_the_token_and_a_fresh_mark() {
    let has = |token: &str| make_headers(token).iter().any(|(_, v)| v == "Bearer tok");
    assert!(has("tok"));
    assert!(!has(""));
    let a = ILinkClient::new("tok", "https://b").headers();
    let b = ILinkClient::new("tok", "https://b").headers();
    assert_eq!(a.len(), b.len());
    assert_ne!(a, b);
}

#[test]
fn media_comes_from_the_platform_only() {
    assert!(download_url("https://novac2c.cdn.weixin.qq.com/c2c/x", "").is_ok());
    assert!(download_url("https://evil.test/x", "").is_err());
    assert!(download_url("http://novac2c.cdn.weixin.qq.com/x", "").is_err());
    assert!(download_url("", "").is_err());
    let made = download_url("", "a b&c").unwrap();
    assert!(made.contains("a%20b%26c"));
}

#[test]
fn download_is_bounded_and_opened() {
    let key = generate_aes_key_b64();
    let sealed = aes_ecb_encrypt(b"picture", &key).unwrap();
    assert_eq!(sealed.len(), 16);
    assert_ne!(&sealed[..7], b"picture");
    let mut d = Download::begin(200, Some(16)).unwrap();
    d.push(&sealed[..5]).unwrap();
    d.push(&sealed[5..]).unwrap();
    assert_eq!(d.finish(&key).unwrap(), b"picture".to_vec());
    assert!(Download::begin(404, None).is_err());
    assert!(Download::begin(200, Some((MEDIA_LIMIT + 17) as u64)).is_err());
    let mut big = Download::begin(200, None).unwrap();
    let block = vec![0u8; MEDIA_LIMIT];
    big.push(&block).unwrap();
    assert!(big.push(&block).is_err());
}

#[test]
fn keys_are_read_in_both_forms() {
    assert_eq!(
        parse_aes_key("MDAxMTIyMzM0NDU1NjY3Nzg4OTlhYWJiY2NkZGVlZmY=").unwrap(),
        vec![
            0x00, 0x11, 0x22, 0x33, 0x44, 0x55, 0x66, 0x77, 0x88, 0x99, 0xaa, 0xbb, 0xcc, 0xdd,
            0xee, 0xff
        ]
    );
    assert_eq!(parse_aes_key("00112233445566778899aabbccddeeff").unwrap().len(), 16);
    assert!(parse_aes_key("!!").is_err());
    let key = generate_aes_key_hex();
    assert_eq!(key.len(), 32);
    let sealed = aes_ecb_encrypt(b"0123456789abcdef", &key).unwrap();
    assert_eq!(sealed.len(), 32);
    assert_eq!(
        aes_ecb_decrypt(&sealed, &key).unwrap(),
        b"0123456789abcdef".to_vec()
    );
    assert!(aes_ecb_decrypt(b"short", &key).is_err());
    assert_ne!(generate_aes_key_hex(), key);
}

#[test]
fn spellings_of_a_key_open_each_other() {
    let hex = "00112233445566778899aabbccddeeff";
    let base64 = "ABEiM0RVZneImaq7zN3u/w==";
    assert_eq!(parse_aes_key(hex).unwrap(), parse_aes_key(base64).unwrap());
    let sealed = aes_ecb_encrypt(b"picture", hex).unwrap();
    assert_eq!(aes_ecb_decrypt(&sealed, base64).unwrap(), b"picture".to_vec());
    let sealed = aes_ecb_encrypt(b"picture", base64).unwrap();
    assert_eq!(aes_ecb_decrypt(&sealed, hex).unwrap(), b"picture".to_vec());
    let capital = " 00112233445566778899AABBCCDDEEFF ";
    assert_eq!(parse_aes_key(capital).unwrap(), parse_aes_key(hex).unwrap());
    let empty = aes_ecb_encrypt(b"", base64).unwrap();
    assert_eq!(empty.len(), 16);
    assert_eq!(aes_ecb_decrypt(&empty, hex).unwrap(), Vec::<u8>::new());
    let drawn = generate_aes_key_b64();
    assert_eq!(drawn.len(), 24);
    assert_eq!(parse_aes_key(&drawn).unwrap().len(), 16);
}

// -- Logins --------------------------------------------------------------------------------------

#[test]
fn qr_login_status_extracts_confirmed_token() {
    let status = qr_login_status_from_response(&json(
        r#"{
            "status": "confirmed",
            "bot_token": " token_1 ",
            "baseurl": "https://example.test"
        }"#,
    ))
    .unwrap();

    assert_eq!(status.status, "confirmed");
    assert_eq!(status.bot_token.as_deref(), Some("token_1"));
    assert_eq!(status.base_url.as_deref(), Some("https://example.test"));
    assert_eq!(status.bot_user_id, None);
}

#[test]
fn qr_login_keeps_scanner_separate_from_bot() {
    let status = qr_login_status_from_response(&json(r#"{"status":"confirmed","bot_token":"token","bot_user_id":"bot","user_id":"scanner"}"#)).unwrap();
    assert_eq!(status.user_id.as_deref(), Some("scanner"));
    assert_eq!(status.bot_user_id.as_deref(), Some("bot"));
    let missing = qr_login_status_from_response(&json(
        r#"{"status":"confirmed","bot_token":"token","bot_user_id":"bot"}"#,
    ))
    .unwrap();
    assert_eq!(missing.user_id, None);
}

#[test]
fn qr_login_accepts_ilink_identities_without_confusing_scanner_and_bot() {
    let status = qr_login_status_from_response(&json(r#"{"status":"confirmed","bot_token":"fresh-token","ilink_bot_id":" bot@im.bot ","ilink_user_id":" scanner@im.wechat ","user_id":"legacy-scanner"}"#)).unwrap();
    assert_eq!(status.bot_user_id.as_deref(), Some("bot@im.bot"));
    assert_eq!(status.user_id.as_deref(), Some("scanner@im.wechat"));
    let scanner_only = qr_login_status_from_response(&json(
        r#"{"status":"confirmed","bot_token":"token","user_id":"scanner"}"#,
    ))
    .unwrap();
    assert_eq!(scanner_only.bot_user_id, None);
}

#[test]
fn qr_login_status_extracts_bot_user_id_aliases() {
    let status = qr_login_status_from_response(&json(
        r#"{
            "status": "confirmed",
            "bot_token": "token_1",
            "base_url": "https://example.test",
            "botUserId": " wx_bot "
        }"#,
    ))
    .unwrap();

    assert_eq!(status.base_url.as_deref(), Some("https://example.test"));
    assert_eq!(status.bot_user_id.as_deref(), Some("wx_bot"));
}

#[test]
fn qr_login_status_rejects_confirmed_without_token() {
    let err = qr_login_status_from_response(&json(r#"{"status": "confirmed"}"#)).unwrap_err();
    assert!(err.message().contains("bot_token"));
}

#[test]
fn login_begins_with_a_code() {
    let qr = parse_qr_response(&json(r#"{"qrcode": "q", "qrcode_img_content": "i"}"#)).unwrap();
    assert_eq!(qr.qrcode, "q");
    assert!(cli_login(&json("{}")).is_err());
}

#[test]
fn resolves_http_img_content() {
    let url = "https://liteapp.weixin.qq.com/q/test?qrcode=abc&bot_type=3";
    assert_eq!(resolve_scan_url("token", url, "8"), url);
}

#[test]
fn resolves_liteapp_url_from_token() {
    let url = resolve_scan_url("mytoken", "", "8");
    assert!(url.contains("qrcode=mytoken"));
    assert!(url.contains("bot_type=8"));
}

#[test]
fn resolves_liteapp_url_with_default_bot_type() {
    let url = resolve_scan_url("mytoken", "", "");
    assert!(url.contains("bot_type=3"));
}

#[test]
fn print_login_qr_accepts_http_url() {
    let url = "https://example.com/wechat-login-test";
    let shown = print_login_qr("", url, "8").unwrap();
    assert_eq!(shown.payload, url);
}

#[test]
fn renders_terminal_qr_art() {
    let art = print_payload_to_stdout("https://example.com/wechat-login-test")
        .unwrap()
        .art;
    assert!(art.lines().count() > 10);
    assert!(art.contains('█'));
}

#[test]
fn roundtrip_png_decode() {
    let payload = "https://example.com/wechat-login-test";
    let png = png_for_scan_url(payload).unwrap();
    let decoded = decode_payload_from_png_bytes(&png).unwrap();
    assert_eq!(decoded, payload);
}

fn png_of(picture: image::GrayImage) -> Vec<u8> {
    let mut png = std::io::Cursor::new(Vec::new());
    image::DynamicImage::ImageLuma8(picture)
        .write_to(&mut png, image::ImageFormat::Png)
        .unwrap();
    png.into_inner()
}

/// Draws a corner of a QR code, with modules `w` wide and `h` high.
fn draw_corner(picture: &mut image::GrayImage, x: u32, y: u32, w: u32, h: u32) {
    for dy in 0..7 * h {
        for dx in 0..7 * w {
            let (u, v) = (dx / w, dy / h);
            let ring = u == 0 || u == 6 || v == 0 || v == 6;
            let core = (2..=4).contains(&u) && (2..=4).contains(&v);
            let dark = if ring || core { 0u8 } else { 255u8 };
            picture.put_pixel(x + dx, y + dy, image::Luma([dark]));
        }
    }
}

#[test]
fn picture_without_a_code_has_no_payload() {
    let blank = image::GrayImage::from_pixel(64, 48, image::Luma([255u8]));
    let none = decode_payload_from_png_bytes(&png_of(blank)).unwrap_err();
    assert!(none.message().contains("no QR code"));
}

#[test]
fn picture_that_the_decoder_gives_up_on_has_no_payload() {
    let mut odd = image::GrayImage::from_pixel(93, 93, image::Luma([255u8]));
    for (x, y, w, h) in [(35, 16, 3, 4), (40, 49, 1, 2), (24, 46, 2, 4)] {
        draw_corner(&mut odd, x, y, w, h);
    }
    let none = decode_payload_from_png_bytes(&png_of(odd)).unwrap_err();
    assert!(none.message().contains("no QR code"));
}

#[test]
fn printed_code_has_two_columns_and_one_line_for_a_module() {
    let art = print_payload_to_stdout("hello").unwrap().art;
    let lines: Vec<&str> = art.lines().collect();
    assert_eq!(lines.len(), 29);
    assert!(lines.iter().all(|l| l.chars().count() == 58));
}

#[test]
fn picture_of_a_code_is_kept_or_made() {
    assert!(decode_payload_from_png_bytes(b"no picture").is_err());
    assert!(decode_payload_from_png_b64("%%%").is_err());
    assert!(login_qr_png("", "").unwrap().is_none());
    let made = login_qr_png("", "https://example.com").unwrap().unwrap();
    assert_eq!(
        decode_payload_from_png_bytes(&made).unwrap(),
        "https://example.com"
    );
    assert_eq!(
        login_qr_png("data:image/png;base64,QUJD", "").unwrap(),
        Some(b"ABC".to_vec())
    );
}

// -- Accounts ------------------------------------------------------------------------------------

#[test]
fn register_creates_account_with_token_file() {
    let mut registry = registry(20);
    let id = registry
        .register_from_login("token_a", "https://example.test", 1)
        .unwrap();
    assert!(id.starts_with("acc_"));
    let token = registry.load_token(&id).unwrap();
    assert_eq!(token, "token_a");
    let entry = registry.get(&id).unwrap().unwrap();
    assert_eq!(entry.base_url, "https://example.test");
    assert_eq!(entry.status, AccountStatus::Active);
}

#[test]
fn upsert_bot_user_id_merges_duplicate_account() {
    let mut registry = registry(20);
    let id_a = registry.register_from_login("token_a", "", 1).unwrap();
    registry.upsert_bot_user_id(&id_a, "wx_bot_1").unwrap();
    let id_b = registry.register_from_login("token_b", "", 1).unwrap();
    let merged = registry.upsert_bot_user_id(&id_b, "wx_bot_1").unwrap();
    assert_eq!(merged.as_deref(), Some(id_a.as_str()));
    assert_eq!(registry.load_token(&id_a).unwrap(), "token_b");
    assert_eq!(
        registry.get(&id_b).unwrap().unwrap().status,
        AccountStatus::Disabled
    );
}

#[test]
fn register_from_login_stores_bot_user_id() {
    let mut registry = registry(20);
    let id = registry
        .register_from_login_with_bot_user_id("token_a", "", Some(" wx_bot_1 "), 1)
        .unwrap();

    let entry = registry.get(&id).unwrap().unwrap();
    assert_eq!(entry.bot_user_id.as_deref(), Some("wx_bot_1"));
}

#[test]
fn register_from_login_reuses_existing_bot_user_id() {
    let mut registry = registry(20);
    let id_a = registry
        .register_from_login_with_bot_user_id("token_a", "https://old.test", Some("wx_bot_1"), 1)
        .unwrap();
    let id_b = registry
        .register_from_login_with_bot_user_id("token_b", "https://new.test", Some("wx_bot_1"), 2)
        .unwrap();

    assert_eq!(id_a, id_b);
    assert_eq!(registry.list_active().unwrap().len(), 1);
    assert_eq!(registry.load_token(&id_a).unwrap(), "token_b");
    assert_eq!(
        registry.get(&id_a).unwrap().unwrap().base_url,
        "https://new.test"
    );
}

#[test]
fn tokens_are_trimmed_from_the_start() {
    let mut tokens = Table::new_texts();
    tokens.put_text("acc_1", " token\n");
    let mut registry =
        WeChatAccountRegistry::load("/data".to_string(), 20, Table::new(), tokens);
    assert_eq!(registry.load_token("acc_1").unwrap(), "token");
    registry.update_token("acc_1", "\tnext ").unwrap();
    assert_eq!(registry.load_token("acc_1").unwrap(), "next");
    assert_eq!(registry.load_token("acc_2").unwrap(), "");
}

#[test]
fn accounts_in_use_are_each_listed_once() {
    let mut registry = registry(2);
    let a = registry
        .register_from_login_with_bot_user_id("t1", "", Some("b1"), 1)
        .unwrap();
    let b = registry
        .register_from_login_with_bot_user_id("t2", "", Some("b2"), 1)
        .unwrap();
    let again = registry
        .register_from_login_with_bot_user_id("t3", "", Some("b1"), 2)
        .unwrap();
    assert_eq!(a, again);
    let ids = |r: &WeChatAccountRegistry| -> Vec<String> {
        r.list_active().unwrap().into_iter().map(|e| e.0).collect()
    };
    assert_eq!(ids(&registry), vec![a.clone(), b.clone()]);
    assert!(registry
        .register_from_login_with_bot_user_id("t4", "", Some("b3"), 3)
        .is_err());
    registry.disable_account(&a).unwrap();
    assert_eq!(ids(&registry), vec![b]);
    assert_eq!(registry.list_all().unwrap().len(), 2);
}

#[test]
fn migrate_legacy_token_imports_single_account() {
    let mut registry = registry(20);
    assert!(registry.migrate_legacy_token("legacy_token", 1));
    let accounts = registry.list_active().unwrap();
    assert_eq!(accounts.len(), 1);
    assert_eq!(accounts[0].0, LEGACY_ACCOUNT_ID);
    assert_eq!(
        registry.load_token(LEGACY_ACCOUNT_ID).unwrap(),
        "legacy_token"
    );
    assert!(!registry.migrate_legacy_token("other", 1));
    assert!(cursor_file_path("/data", LEGACY_ACCOUNT_ID).contains(LEGACY_ACCOUNT_ID));
}

#[test]
fn channel_id_for_formats_account_channel() {
    assert_eq!(channel_id_for("acc_abc"), "wechat:acc_abc");
}

#[test]
fn save_survives_reload_round_trip() {
    let mut first = registry(20);
    let id = first.register_from_login("token_a", "", 1).unwrap();
    let reloaded =
        WeChatAccountRegistry::load("/data".to_string(), 20, first.accounts, first.tokens);
    assert!(reloaded.get(&id).unwrap().is_some());
    assert_eq!(reloaded.load_token(&id).unwrap(), "token_a");
}

#[test]
fn relogin_replaces_runner_and_preserves_account_identity() {
    let cfg = WeChatConfig::default();
    let mut channel = WeChatChannel::new(&cfg, registry(20), "", 1);
    channel.start();
    let first = channel
        .register_and_start("old-token", "http://127.0.0.1:1", Some("bot-id"), 2)
        .unwrap();
    assert!(!first.stop);
    assert_eq!(first.start, Some(channel_id_for(&first.account_id)));
    channel.runner_started(&first.account_id);
    let refreshed = channel
        .register_and_start("fresh-token", "http://127.0.0.1:2", Some("bot-id"), 3)
        .unwrap();
    let id = &first.account_id;
    assert_eq!(&refreshed.account_id, id);
    assert!(refreshed.stop);
    assert_eq!(refreshed.start, Some(channel_id_for(id)));
    assert_eq!(channel.registry().load_token(id).unwrap(), "fresh-token");
    assert_eq!(
        channel.registry().get(id).unwrap().unwrap().base_url,
        "http://127.0.0.1:2"
    );
    channel.runner_started(id);
    let listing = channel.list_accounts().unwrap();
    assert_eq!(
        listing.accounts[0].get_str("base_url"),
        Some("http://127.0.0.1:2")
    );
    assert_eq!(
        channel.health_check().body.get_str("detail"),
        Some("1 active wechat account runner(s)")
    );
    assert!(channel.remove_account(id).unwrap());
    assert!(channel.start_runner(id).is_err());
    assert!(channel.stop().is_empty());
}

#[test]
fn token_of_the_configuration_makes_an_account() {
    let mut cfg = WeChatConfig::default();
    cfg.bot_token = "inline".to_string();
    let c = WeChatChannel::new(&cfg, registry(20), "file", 1);
    assert_eq!(c.registry().load_token(LEGACY_ACCOUNT_ID).unwrap(), "inline");
    cfg.bot_token = String::new();
    let d = WeChatChannel::new(&cfg, registry(20), " file \n", 1);
    assert_eq!(d.registry().load_token(LEGACY_ACCOUNT_ID).unwrap(), "file");
    let e = WeChatChannel::new(&cfg, registry(20), " ", 1);
    assert!(e.registry().list_all().unwrap().is_empty());
}

// -- Streams -------------------------------------------------------------------------------------

#[test]
fn take_full_chunks_drains_only_when_at_limit() {
    let mut buffer = "a".repeat(1999);
    assert!(take_full_chunks(&mut buffer, 2000).is_empty());
    assert_eq!(buffer.chars().count(), 1999);

    buffer.push('b');
    let chunks = take_full_chunks(&mut buffer, 2000);
    assert_eq!(chunks.len(), 1);
    assert_eq!(chunks[0].chars().count(), 2000);
    assert!(buffer.is_empty());
}

#[test]
fn take_full_chunks_leaves_remainder_under_limit() {
    let mut buffer = "x".repeat(2500);
    let chunks = take_full_chunks(&mut buffer, 2000);
    assert_eq!(chunks.len(), 1);
    assert_eq!(chunks[0].chars().count(), 2000);
    assert_eq!(buffer.chars().count(), 500);
}

#[test]
fn take_full_chunks_drains_multiple_full_slices() {
    let mut buffer = "y".repeat(4500);
    let chunks = take_full_chunks(&mut buffer, 2000);
    assert_eq!(chunks.len(), 2);
    assert_eq!(chunks[0].chars().count(), 2000);
    assert_eq!(chunks[1].chars().count(), 2000);
    assert_eq!(buffer.chars().count(), 500);
}

#[test]
fn segment_is_sent_once_with_the_prefix_before_the_first() {
    let mut sink = WeChatStreamSink::new("[bot]");
    assert!(sink.on_stream_end("hello").is_empty());
    let chunks = sink.on_completed("hello");
    assert_eq!(chunks, vec!["hello".to_string()]);
    let first = sink.dispatch_send(&chunks[0]).unwrap();
    assert_eq!(first.prefix, "[bot]");
    sink.sent();
    assert!(sink.send_failure_summary().is_none());
    sink.failed(&GatewayError::other("lost"));
    assert!(sink.send_failure_summary().unwrap().contains("lost"));
    assert!(wechat_streaming_enabled("codex_app_server", false));
    assert!(!wechat_streaming_enabled("echo", false));
}

#[test]
fn token_can_be_renewed() {
    let mut client = ILinkClient::new("old", "https://b");
    client.set_bot_token("new");
    assert_eq!(client.bot_token, "new");
    let mut accounts = registry(5);
    let id = accounts
        .register_from_login_with_bot_user_id("old", "https://b", Some("bot"), 7)
        .unwrap();
    accounts.update_token(&id, " new\n").unwrap();
    assert_eq!(accounts.load_token(&id).unwrap(), "new");
    assert_eq!(accounts.get(&id).unwrap().unwrap().created_at, 7);
}

#[test]
fn media_url_must_be_plain() {
    let host = "https://novac2c.cdn.weixin.qq.com";
    assert!(download_url(&format!("{host}:444/x"), "").is_err());
    assert!(download_url("https://a@novac2c.cdn.weixin.qq.com/x", "").is_err());
    assert!(download_url("https://a:b@novac2c.cdn.weixin.qq.com/x", "").is_err());
    assert!(download_url(&format!("{host}:443/x"), "").is_ok());
    let err = download_url("https://", "").unwrap_err();
    assert_eq!(err.message(), "invalid media URL");
    assert!(download_url("ignored", "\t@:/?#").is_ok());
}

#[test]
fn picture_of_a_code_is_shown_as_text() {
    let png = png_for_scan_url("https://example.com/q").unwrap();
    let text = base64::Engine::encode(&base64::engine::general_purpose::STANDARD, &png);
    let shown = print_from_png_b64(&text).unwrap();
    assert_eq!(shown.payload, "https://example.com/q");
    assert_eq!(
        shown.art,
        print_payload_to_stdout("https://example.com/q").unwrap().art
    );
    assert!(print_from_png_b64("%%%").is_err());
}
