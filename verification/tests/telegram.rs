use im_channel_gateway::config::TelegramConfig;
use im_channel_gateway::error::GatewayError;
use im_channel_gateway::json::Json;
use im_channel_gateway::pipeline::{native_from_json, NativeMessage, ProcessedReply};
use im_channel_gateway::platforms::telegram::adapter::{
    bot_token, identify, native_to_json, take_message, TelegramRunnerStart,
};
use im_channel_gateway::platforms::telegram::channel::{acl_flags, config_tokens, TelegramChannel};
use im_channel_gateway::platforms::telegram::debounce::{apply_debounce, MediaDebounce};
use im_channel_gateway::platforms::telegram::format_html::{
    escape_html, markdown_to_telegram_html, strip_markdown,
};
use im_channel_gateway::platforms::telegram::inbound::{
    build_native_from_message, check_group_mention, entities_fit, extract_text_and_mentions,
    files_wanted, Attachment, BotIdentity, Entity, EntityKind, FetchedFile, Sender,
    TelegramMessage,
};
use im_channel_gateway::platforms::telegram::media::{
    check_file_size, file_uri, local_path_from_url, media_suffix, plan_download,
};
use im_channel_gateway::platforms::telegram::polling::{
    end_round, looks_like_network_error, looks_like_polling_conflict, plan_reconnect_delay,
    reset_reconnect_counters, ListenerErrorHandler, PollingReconnectState, ReconnectCounters,
};
use im_channel_gateway::platforms::telegram::registry::{
    channel_id_for, token_file_path, AccountStatus, TelegramAccountRegistry,
};
use im_channel_gateway::platforms::telegram::send::{
    after_edit, after_send, check_present, input_file, message_body, placeholder_text, send_reply,
    send_media_part, stream_text, AfterEdit, AfterSend, MediaMethod, MediaSource, Outcome, SendStep,
    TelegramSender,
};
use im_channel_gateway::platforms::telegram::stream::{can_show_delta, EndAction, TelegramStreamSink};
use im_channel_gateway::table::Table;
use im_channel_gateway::types::{ChannelPart, PartKind};

fn registry(max: usize) -> TelegramAccountRegistry {
    TelegramAccountRegistry::load("/data".to_string(), max, Table::new(), Table::new_texts())
}

#[test]
fn image_triggers_immediate_merge() {
    let mut d = MediaDebounce::default();
    let sid = "telegram:1";
    let img = ChannelPart {
        kind: PartKind::Image,
        url: "file:///tmp/a.jpg".to_string(),
        ..Default::default()
    };
    let merged = apply_debounce(&mut d, sid, &vec![img]).unwrap();
    assert_eq!(merged.len(), 1);
    let merged2 = apply_debounce(&mut d, sid, &vec![ChannelPart::text_part("hi")]).unwrap();
    assert_eq!(merged2.len(), 1);
}

#[test]
fn message_without_words_waits_for_more() {
    let mut d = MediaDebounce::default();
    assert!(apply_debounce(&mut d, "s", &vec![ChannelPart::text_part("  ")]).is_none());
    assert!(apply_debounce(&mut d, "s", &vec![]).is_none());
    let all = apply_debounce(&mut d, "s", &vec![ChannelPart::text_part("read this")]).unwrap();
    assert_eq!(all.len(), 2);
    assert_eq!(all[1].text, "read this");
    let later = apply_debounce(&mut d, "s", &vec![ChannelPart::text_part("more")]).unwrap();
    assert_eq!(later.len(), 1);
}

#[test]
fn bold_and_code() {
    let html = markdown_to_telegram_html("**hi** and `x`");
    assert!(html.contains("<b>hi</b>"));
    assert!(html.contains("<code>x</code>"));
}

#[test]
fn marks_inside_code_stay() {
    let html = markdown_to_telegram_html("```rust\nlet a = *b < c;\n```");
    assert!(html.contains("let a = *b &lt; c;"));
    assert!(!html.contains("<i>"));
    assert_eq!(escape_html("<a & b>"), "&lt;a &amp; b&gt;");
}

#[test]
fn links_become_anchors() {
    let html = markdown_to_telegram_html("see [docs](https://example.com/a)");
    assert!(html.contains("<a href=\"https://example.com/a\">docs</a>"));
}

#[test]
fn marks_can_be_dropped() {
    let text = strip_markdown("**hi** and `x`");
    assert!(text.contains("hi"));
    assert!(!text.contains("**"));
}

#[test]
fn registry_register_creates_account_with_token_file() {
    let mut registry = registry(20);
    let id = registry.register_from_token("token_a", 1).unwrap();
    assert!(id.starts_with("tg_"));
    assert_eq!(registry.load_token(&id).unwrap(), "token_a");
    assert_eq!(
        registry.get(&id).unwrap().unwrap().status,
        AccountStatus::Active
    );
    assert!(token_file_path("/data", &id).contains(&id));
}

#[test]
fn duplicate_token_reuses_existing_account() {
    let mut registry = registry(20);
    let first = registry.register_from_token("token_a", 1).unwrap();
    let second = registry.register_from_token("token_a", 2).unwrap();
    assert_eq!(first, second);
    assert_eq!(registry.list_active().unwrap().len(), 1);
}

#[test]
fn upsert_bot_identity_merges_duplicate_account() {
    let mut registry = registry(20);
    let id_a = registry.register_from_token("token_a", 1).unwrap();
    registry.upsert_bot_identity(&id_a, "123", "bot_a").unwrap();
    let id_b = registry.register_from_token("token_b", 2).unwrap();
    let merged = registry.upsert_bot_identity(&id_b, "123", "bot_a").unwrap();
    assert_eq!(merged.as_deref(), Some(id_a.as_str()));
    assert_eq!(registry.load_token(&id_a).unwrap(), "token_b");
    assert_eq!(
        registry.get(&id_b).unwrap().unwrap().status,
        AccountStatus::Disabled
    );
}

#[test]
fn registry_channel_id_for_formats_account_channel() {
    assert_eq!(channel_id_for("tg_abc"), "telegram:tg_abc");
}

#[test]
fn accounts_are_limited() {
    let mut registry = registry(1);
    let id = registry.register_from_token("a", 1).unwrap();
    assert!(registry
        .register_from_token("b", 1)
        .unwrap_err()
        .message()
        .contains("limit reached"));
    registry.disable_account(&id).unwrap();
    assert!(registry.list_active().unwrap().is_empty());
    assert!(registry.register_from_token("b", 1).is_ok());
    assert!(registry.register_from_token("  ", 1).is_err());
}

#[test]
fn account_out_of_use_counts_against_the_limit() {
    let mut registry = registry(1);
    let a = registry.register_from_token("a", 1).unwrap();
    registry.disable_account(&a).unwrap();
    let b = registry.register_from_token("b", 2).unwrap();
    let refused = registry.register_from_token("a", 3).unwrap_err();
    assert!(refused.message().contains("telegram account limit reached (1)"));
    assert_eq!(
        registry.get(&a).unwrap().unwrap().status,
        AccountStatus::Disabled
    );
    assert_eq!(registry.register_from_token("b", 4).unwrap(), b);
    assert_eq!(registry.list_active().unwrap().len(), 1);
    registry.disable_account(&b).unwrap();
    assert_eq!(registry.register_from_token("a", 5).unwrap(), a);
    assert_eq!(registry.list_active().unwrap().len(), 1);
}

#[test]
fn loaded_tokens_are_trimmed() {
    let mut tokens = Table::new_texts();
    tokens.put_text("tg_1", "  one\n");
    let mut first = registry(20);
    let id = first.register_from_token("one", 1).unwrap();
    let entry = first.get(&id).unwrap().unwrap();
    let mut accounts = Table::new();
    accounts.insert("tg_1".to_string(), entry);
    let mut loaded = TelegramAccountRegistry::load("/data".to_string(), 20, accounts, tokens);
    assert_eq!(loaded.load_token("tg_1").unwrap(), "one");
    assert_eq!(loaded.register_from_token(" one ", 2).unwrap(), "tg_1");
}

#[test]
fn config_tokens_keep_their_accounts() {
    let mut registry = registry(2);
    let tokens = vec![
        " one ".to_string(),
        "".to_string(),
        "two".to_string(),
        "one".to_string(),
    ];
    let ids = registry.register_config_tokens(&tokens, 1).unwrap();
    assert_eq!(ids.len(), 3);
    assert_eq!(ids[0], ids[2]);
    assert_ne!(ids[0], ids[1]);
    assert_eq!(registry.load_token(&ids[0]).unwrap(), "one");
    assert_eq!(registry.load_token(&ids[1]).unwrap(), "two");
    let all: Vec<String> = registry
        .list_all()
        .unwrap()
        .into_iter()
        .map(|e| e.0)
        .collect();
    assert_eq!(all, vec![ids[0].clone(), ids[1].clone()]);
    assert_eq!(registry.register_config_tokens(&tokens, 9).unwrap(), ids);
    assert_eq!(registry.list_all().unwrap().len(), 2);
}

#[test]
fn config_tokens_are_registered_once() {
    let mut cfg = TelegramConfig::default();
    cfg.bot_token = "one".to_string();
    cfg.bot_tokens = vec!["two".to_string(), " ".to_string(), "one".to_string()];
    assert_eq!(config_tokens(&cfg).len(), 4);
    let c = TelegramChannel::new(&cfg, registry(20), 5).unwrap();
    assert_eq!(c.registry.list_active().unwrap().len(), 2);
    assert_eq!(c.media_base_dir, "media/telegram");
    assert_eq!(acl_flags(&cfg, "wechat"), (false, false));
}

#[test]
fn accounts_start_and_stop_with_the_channel() {
    let mut c = TelegramChannel::new(&TelegramConfig::default(), registry(20), 5).unwrap();
    let first = c.register_and_start("one", 6).unwrap();
    assert!(first.start.is_none());
    assert_eq!(c.start(), vec![first.account_id.clone()]);
    let channel = c.start_runner(&first.account_id).unwrap().unwrap();
    assert_eq!(channel, channel_id_for(&first.account_id));
    c.runner_started(&first.account_id);
    assert!(c.start_runner(&first.account_id).unwrap().is_none());
    let second = c.register_and_start("two", 7).unwrap();
    assert_eq!(second.start, Some(channel_id_for(&second.account_id)));
    c.runner_started(&second.account_id);
    assert!(c.remove_account(&second.account_id).unwrap());
    assert_eq!(
        c.start_runner(&second.account_id).unwrap_err().message(),
        format!("telegram account {} not found or disabled", second.account_id)
    );
    let listing = c.list_accounts().unwrap();
    assert_eq!(listing.accounts.len(), 2);
    assert_eq!(listing.accounts[0].get("running"), Some(&Json::Bool(true)));
    assert_eq!(listing.accounts[1].get_str("status"), Some("disabled"));
    let health = c.health_check();
    assert_eq!(
        health.body.get_str("detail"),
        Some("1 active telegram account runner(s)")
    );
    c.registry.disable_account(&first.account_id).unwrap();
    assert_eq!(
        c.prune_inactive_runners().unwrap(),
        vec![first.account_id.clone()]
    );
    assert!(c.stop().is_empty());
}

#[test]
fn bot_that_runs_already_is_merged() {
    let mut reg = registry(20);
    let a = reg.register_from_token("a", 1).unwrap();
    let b = reg.register_from_token("b", 1).unwrap();
    let bot = BotIdentity {
        id: 77,
        username: "bot".to_string(),
    };
    match identify(&mut reg, &a, &bot).unwrap() {
        TelegramRunnerStart::Started => {}
        TelegramRunnerStart::Merged(_) => panic!("the first account of the bot"),
    }
    match identify(&mut reg, &b, &bot).unwrap() {
        TelegramRunnerStart::Merged(id) => assert_eq!(id, a),
        TelegramRunnerStart::Started => panic!("the bot runs already"),
    }
    assert_eq!(
        bot_token("  ").unwrap_err().message(),
        "config error: telegram account bot_token is required"
    );
    assert_eq!(bot_token(" t ").unwrap(), "t");
}

fn message(text: &str) -> TelegramMessage {
    TelegramMessage {
        chat_id: 5,
        is_group: false,
        from: Some(Sender {
            id: 9,
            username: Some("ann".to_string()),
        }),
        message_id: 31,
        thread_id: None,
        text: Some(text.to_string()),
        caption: None,
        entities: None,
        caption_entities: None,
        photo: None,
        document: None,
        video: None,
        voice: None,
        audio: None,
    }
}

fn bot() -> BotIdentity {
    BotIdentity {
        id: 77,
        username: "Helper".to_string(),
    }
}

#[test]
fn message_becomes_native() {
    let n =
        build_native_from_message(&message("hello"), &vec![], &bot(), "tg_1", "telegram:tg_1").unwrap();
    assert_eq!(n.channel_id, "telegram:tg_1");
    assert_eq!(n.content_parts[0].text, "hello");
    assert!(!n.sender_id.is_empty());
}

#[test]
fn mention_of_the_bot_is_seen_and_dropped() {
    let mut m = message("@helper do it");
    m.is_group = true;
    m.entities = Some(vec![Entity {
        kind: EntityKind::Mention,
        offset: 0,
        length: 7,
    }]);
    assert!(entities_fit(&m, &bot()));
    let (text, command, mentioned) = extract_text_and_mentions(&m, &bot());
    assert!(mentioned && !command);
    assert_eq!(text, "@helper do it");
    let n = build_native_from_message(&m, &vec![], &bot(), "tg_1", "telegram:tg_1").unwrap();
    assert_eq!(n.content_parts[0].text, "do it");
    assert!(check_group_mention(true, true, &n.meta));
    let mut plain = message("do it");
    plain.is_group = true;
    let p = build_native_from_message(&plain, &vec![], &bot(), "tg_1", "telegram:tg_1").unwrap();
    assert!(!check_group_mention(true, true, &p.meta));
    assert!(check_group_mention(false, true, &p.meta));
}

#[test]
fn name_of_the_bot_is_no_pattern() {
    let bot = BotIdentity {
        id: 77,
        username: "a.b+c".to_string(),
    };
    let mut m = message("@a.b+c say @aXb");
    m.is_group = true;
    m.entities = Some(vec![Entity {
        kind: EntityKind::Mention,
        offset: 0,
        length: 6,
    }]);
    let n = build_native_from_message(&m, &vec![], &bot, "tg_1", "telegram:tg_1").unwrap();
    assert_eq!(n.content_parts[0].text, "say @aXb");
}

#[test]
fn files_of_a_message_are_fetched() {
    let mut m = message("");
    m.text = None;
    m.caption = Some("look".to_string());
    m.photo = Some(vec!["small".to_string(), "large".to_string()]);
    m.document = Some(Attachment {
        file_id: "doc".to_string(),
        file_name: Some("a.pdf".to_string()),
    });
    let wishes = files_wanted(&m);
    assert_eq!(wishes[0].file_id, "large");
    assert!(wishes.iter().any(|w| w.file_id == "doc" && w.kind == PartKind::File));
    let files = vec![FetchedFile {
        kind: PartKind::Image,
        uri: "file:///m/large.jpg".to_string(),
    }];
    let n = build_native_from_message(&m, &files, &bot(), "tg_1", "telegram:tg_1").unwrap();
    assert!(n.content_parts.iter().any(|p| p.url == "file:///m/large.jpg"));
    assert!(n.content_parts.iter().any(|p| p.text == "look"));
}

#[test]
fn waiting_message_comes_back() {
    let n =
        build_native_from_message(&message("hello"), &vec![], &bot(), "tg_1", "telegram:tg_1").unwrap();
    let payload = native_to_json(&n, "s1");
    let back = native_from_json("telegram:tg_1", &payload).unwrap();
    assert_eq!(back.session_id.as_deref(), Some("s1"));
    assert_eq!(back.sender_id, n.sender_id);
    assert_eq!(back.content_parts[0].text, "hello");
    assert_eq!(back.meta, n.meta);
}

#[test]
fn message_for_others_is_not_taken() {
    let mut m = message("hi");
    m.is_group = true;
    let take = |require: bool| -> Option<String> {
        let n: NativeMessage =
            build_native_from_message(&m, &vec![], &bot(), "tg_1", "telegram:tg_1").unwrap();
        take_message(&mut MediaDebounce::default(), require, n).map(|q| q.session_id)
    };
    assert!(take(true).is_none());
    assert!(take(false).is_some());
}

#[test]
fn files_keep_their_endings() {
    assert_eq!(media_suffix("photos/file_1.jpg", ""), ".jpg");
    assert_eq!(media_suffix("photos/file_1", "name.pdf"), ".pdf");
    assert_eq!(file_uri("/tmp/a.jpg"), "file:///tmp/a.jpg");
    assert_eq!(
        local_path_from_url("file:///tmp/a.jpg").as_deref(),
        Some("/tmp/a.jpg")
    );
    assert!(local_path_from_url("https://example.com/a").is_none());
    assert!(plan_download("", "x").is_none());
    assert!(plan_download("photos/file_1.jpg", "").is_some());
    assert!(check_file_size(10, "0.0").is_ok());
    assert!(check_file_size(52_428_801, "50.0").is_err());
}

#[test]
fn waits_grow_with_network_errors() {
    assert!(looks_like_network_error("Connection reset by peer"));
    assert!(looks_like_polling_conflict(
        "Conflict: terminated by other getUpdates request"
    ));
    let mut c = ReconnectCounters::default();
    let first = plan_reconnect_delay(&mut c, "network is unreachable");
    let second = plan_reconnect_delay(&mut c, "network is unreachable");
    assert_eq!(first, 5);
    assert_eq!(second, 10);
    for _ in 0..10 {
        assert!(plan_reconnect_delay(&mut c, "network is unreachable") <= 60);
    }
    reset_reconnect_counters(&mut c);
    assert_eq!(c, ReconnectCounters::default());
    assert_eq!(plan_reconnect_delay(&mut c, "strange"), 2);
}

#[test]
fn round_without_errors_starts_anew() {
    let mut s = PollingReconnectState::new(ReconnectCounters::default());
    assert!(end_round(&mut s).delay.is_none());
    let mut h = ListenerErrorHandler::new(PollingReconnectState::new(ReconnectCounters::default()));
    assert_eq!(h.handle_error("network is unreachable".to_string()), 5);
    assert!(end_round(&mut h.state).backs_off || h.state.last_error.is_none());
}

fn reply(text: &str, parts: Vec<ChannelPart>) -> ProcessedReply {
    ProcessedReply {
        text: text.to_string(),
        parts,
        meta: vec![("chat_id".to_string(), Json::text("42"))],
        session_id: "s".to_string(),
        user_id: "u".to_string(),
    }
}

#[test]
fn reply_goes_to_its_chat() {
    let s = TelegramSender::from_reply(&reply("hi", vec![]), "[bot]").unwrap();
    assert_eq!(s.chat_id, 42);
    assert!(s.can_send_text("hi"));
    assert_eq!(s.send_text("hi"), vec!["[bot]  hi".to_string()]);
    let mut lost = reply("hi", vec![]);
    lost.meta = vec![];
    assert!(TelegramSender::from_reply(&lost, "").is_err());
}

#[test]
fn refused_marks_are_sent_plain() {
    assert_eq!(message_body("**a**", true), "<b>a</b>");
    match after_send("**a**", true, Outcome::Refused("can't parse entities".to_string())) {
        AfterSend::SendPlain(t) => assert!(t.contains('a') && !t.contains('*')),
        _ => panic!("sent again without marks"),
    }
    match after_send("a", true, Outcome::Taken) {
        AfterSend::Done => {}
        _ => panic!("done"),
    }
    match after_send("a", true, Outcome::Failed("down".to_string())) {
        AfterSend::Fail(e) => assert!(e.message().contains("down")),
        _ => panic!("lost"),
    }
    match after_edit("a", false, &Outcome::Refused("message is not modified".to_string())) {
        AfterEdit::Done(b) => assert!(b),
        _ => panic!("it reads so already"),
    }
}

#[test]
fn media_is_sent_by_kind() {
    match input_file("https://example.com/a.png").unwrap() {
        MediaSource::Remote(u) => assert_eq!(u, "https://example.com/a.png"),
        MediaSource::Local(_) => panic!("not here"),
    }
    match input_file("file:///tmp/a.png").unwrap() {
        MediaSource::Local(p) => assert_eq!(p, "/tmp/a.png"),
        MediaSource::Remote(_) => panic!("here"),
    }
    assert!(input_file("https://exa mple").is_err());
    let part = ChannelPart {
        kind: PartKind::Image,
        url: "file:///tmp/a.png".to_string(),
        ..Default::default()
    };
    assert_eq!(
        send_media_part(&part).unwrap().unwrap().method,
        Some(MediaMethod::Photo)
    );
    assert!(check_present("/tmp/a.png", false).is_err());
    assert!(check_present("/tmp/a.png", true).is_ok());
    let steps = send_reply(&reply("hi", vec![ChannelPart::text_part("hi"), part]));
    assert!(matches!(&steps[0], SendStep::Text(t) if t == "hi"));
    assert!(steps.iter().any(|s| matches!(s, SendStep::Media(_))));
}

#[test]
fn stream_is_shown_in_one_message() {
    let r = reply("", vec![]);
    let mut sink = TelegramStreamSink::new(&r, "", true).unwrap();
    let first = sink.on_stream_start("message").unwrap();
    assert_eq!(first, placeholder_text("message"));
    sink.placeholder_sent("message", 8, 0);
    assert!(can_show_delta("message", "Hel"));
    assert!(sink.on_stream_delta("message", "Hel", 100).is_none());
    let edit = sink.on_stream_delta("message", "Hello", 2000).unwrap();
    assert_eq!(edit.message_id, 8);
    assert_eq!(edit.text, stream_text("message", "Hello"));
    sink.edited("message", 2000);
    match sink.on_stream_end("message", "Hello") {
        EndAction::EditFinal(e) => assert_eq!(e.message_id, 8),
        _ => panic!("the message is changed for good"),
    }
    let steps = sink.on_completed(&reply("Hello", vec![ChannelPart::text_part("Hello")]));
    assert!(!steps.iter().any(|s| matches!(s, SendStep::Text(_))));
}

#[test]
fn errors_have_their_texts() {
    assert_eq!(
        GatewayError::Channel {
            channel: "telegram".to_string(),
            message: "x".to_string()
        }
        .message(),
        "channel error [telegram]: x"
    );
    assert_eq!(GatewayError::Http("h".to_string()).message(), "HTTP error: h");
    assert_eq!(GatewayError::Json("j".to_string()).message(), "JSON error: j");
    assert_eq!(GatewayError::Io("i".to_string()).message(), "IO error: i");
    assert_eq!(
        GatewayError::NoCompletedMessage.message(),
        "SSE stream ended without a completed message"
    );
}
