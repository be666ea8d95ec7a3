use im_channel_gateway::agent::codex_app_server::backend::{
    after_bound_turn, after_clear, bind_events, is_missing_rollout_error, new_thread_error_message,
    plan_prompt, rename_events, rename_target, replacement_cwd_for_stale_binding,
    stale_recovery_error_message, submitted_events, thread_list_failed_events, BoundTurn,
    CodexAppServerBackend, PromptPlan,
};
use im_channel_gateway::agent::codex_app_server::bindings::{BindingStore, ThreadBinding};
use im_channel_gateway::agent::codex_app_server::client::{
    extract_thread_id, extract_turn_agent_text, initialize_params, is_jsonrpc_response_for,
    notification_frame, parse_loaded_thread_list_response, parse_thread_list_response, reply_frame,
    request_frame, rpc_error, server_request_accept_result, server_request_answer_result,
    server_request_deny_result, server_request_from_msg, thread_list_params, thread_set_name_params,
    thread_start_params, turn_start_error, turn_start_params, wait_step, CodexAppServerClient,
    CodexThreadSummary, ServerRequest, TurnCollector, TurnStep, WaitStep,
};
use im_channel_gateway::agent::codex_app_server::events::TurnEventMapper;
use im_channel_gateway::agent::codex_app_server::pending::{
    new_request_id, PendingResponse, PendingServerRequest, PendingServerRequests,
};
use im_channel_gateway::agent::codex_app_server::router::{parse_command, ParsedCommand};
use im_channel_gateway::agent::codex_app_server::{
    format_server_request_prompt, format_session_info, format_thread_list, format_updated_at,
    merge_loaded_threads, preview_text,
};
use im_channel_gateway::config::{CliSecurityConfig, CodexAppServerConfig};
use im_channel_gateway::error::GatewayError;
use im_channel_gateway::json::{Json, Number};
use im_channel_gateway::types::{AgentEvent, ChannelPart, ChannelRequest, EventKind, EventStatus};

fn convert(v: &serde_json::Value) -> Json {
    match v {
        serde_json::Value::Null => Json::Null,
        serde_json::Value::Bool(b) => Json::Bool(*b),
        serde_json::Value::Number(n) => {
            if let Some(u) = n.as_u64() {
                Json::Number(Number::Unsigned(u))
            } else if let Some(i) = n.as_i64() {
                Json::Number(Number::Negative(i))
            } else {
                Json::Number(Number::Float(n.to_string()))
            }
        }
        serde_json::Value::String(s) => Json::Str(s.clone()),
        serde_json::Value::Array(a) => Json::Array(a.iter().map(convert).collect()),
        serde_json::Value::Object(m) => {
            Json::Object(m.iter().map(|(k, v)| (k.clone(), convert(v))).collect())
        }
    }
}

fn json(text: &str) -> Json {
    let v: serde_json::Value = serde_json::from_str(text).unwrap();
    convert(&v)
}

fn summary(id: &str) -> CodexThreadSummary {
    CodexThreadSummary {
        thread_id: id.to_string(),
        session_id: String::new(),
        name: String::new(),
        preview: String::new(),
        cwd: String::new(),
        status: String::new(),
        source: String::new(),
        updated_at: 0,
    }
}

fn backend() -> CodexAppServerBackend {
    CodexAppServerBackend::with_bindings(
        CodexAppServerConfig::default(),
        CliSecurityConfig::default(),
        BindingStore::new(),
    )
}

fn request(text: &str) -> ChannelRequest {
    ChannelRequest {
        channel: "wechat".to_string(),
        session_id: "im_session".to_string(),
        user_id: "wx_user".to_string(),
        content: vec![ChannelPart::text_part(text)],
        meta: vec![],
    }
}

// -- Commands ------------------------------------------------------------------------------------

#[test]
fn parses_bind() {
    let cmd = parse_command("/bind thr_abc", "/").unwrap();
    assert_eq!(
        cmd,
        ParsedCommand::Bind {
            thread_id: "thr_abc".to_string()
        }
    );
}

#[test]
fn parses_rename() {
    let cmd = parse_command("/rename rust-agent wechat", "/").unwrap();
    assert_eq!(
        cmd,
        ParsedCommand::Rename {
            name: "rust-agent wechat".to_string()
        }
    );
}

#[test]
fn rejects_empty_rename() {
    let err = parse_command("/rename   ", "/").unwrap_err();
    assert_eq!(err, "usage: /rename <name>");
}

#[test]
fn parses_approval_commands() {
    assert_eq!(
        parse_command("/approve appr_1", "/").unwrap(),
        ParsedCommand::Approve {
            request_id: Some("appr_1".to_string())
        }
    );
    assert_eq!(
        parse_command("/deny", "/").unwrap(),
        ParsedCommand::Deny { request_id: None }
    );
    assert_eq!(
        parse_command("/answer appr_1 yes", "/").unwrap(),
        ParsedCommand::Answer {
            request_id: Some("appr_1".to_string()),
            text: "yes".to_string()
        }
    );
    assert_eq!(
        parse_command("/answer use option A", "/").unwrap(),
        ParsedCommand::Answer {
            request_id: None,
            text: "use option A".to_string()
        }
    );
}

#[test]
fn parses_session() {
    let cmd = parse_command("/session", "/").unwrap();
    assert_eq!(cmd, ParsedCommand::Session);
}

#[test]
fn parses_sessions_alias() {
    let cmd = parse_command("/sessions", "/").unwrap();
    assert_eq!(cmd, ParsedCommand::Session);
}

#[test]
fn rejects_unknown_slash_command_instead_of_forwarding_as_prompt() {
    let err = parse_command("/sessionsx", "/").unwrap_err();
    assert!(err.contains("unknown command"));
}

#[test]
fn parses_threads() {
    let cmd = parse_command("/threads 5", "/").unwrap();
    assert_eq!(
        cmd,
        ParsedCommand::Threads {
            loaded_only: false,
            limit: 5
        }
    );
}

#[test]
fn parses_loaded_threads() {
    let cmd = parse_command("/threads loaded 3", "/").unwrap();
    assert_eq!(
        cmd,
        ParsedCommand::Threads {
            loaded_only: true,
            limit: 3
        }
    );
}

#[test]
fn parses_prompt() {
    let cmd = parse_command("continue fixing tests", "/").unwrap();
    assert_eq!(
        cmd,
        ParsedCommand::Prompt {
            text: "continue fixing tests".to_string()
        }
    );
}

// -- Frames --------------------------------------------------------------------------------------

#[test]
fn matches_numeric_and_string_rpc_ids() {
    assert!(is_jsonrpc_response_for(&json(r#"{"id": 2, "result": {}}"#), 2));
    assert!(is_jsonrpc_response_for(
        &json(r#"{"id": "2", "result": {}}"#),
        2
    ));
    assert!(!is_jsonrpc_response_for(
        &json(r#"{"method": "turn/completed", "params": {}}"#),
        2
    ));
}

#[test]
fn initialize_opts_out_of_noisy_status_notifications() {
    let params = initialize_params();
    let methods = params
        .get2("capabilities", "optOutNotificationMethods")
        .and_then(|v| v.as_array())
        .expect("optOutNotificationMethods");

    for expected in [
        "remoteControl/status/changed",
        "thread/tokenUsage/updated",
        "hook/started",
        "hook/completed",
        "thread/status/changed",
    ] {
        assert!(methods.iter().any(|m| m.as_str() == Some(expected)));
    }
}

#[test]
fn thread_start_params_normalize_legacy_sandbox_spelling() {
    let cfg = CodexAppServerConfig {
        sandbox: "workspaceWrite".to_string(),
        ..Default::default()
    };

    let params = thread_start_params(&cfg, "/tmp/project");

    assert_eq!(params.get_str("sandbox"), Some("workspace-write"));
    assert_eq!(params.get_str("cwd"), Some("/tmp/project"));
}

#[test]
fn thread_set_name_params_use_protocol_field_names() {
    let params = thread_set_name_params("thr_1", "rust-agent wechat");

    assert_eq!(params.get_str("threadId"), Some("thr_1"));
    assert_eq!(params.get_str("name"), Some("rust-agent wechat"));
}

#[test]
fn parses_thread_list_response() {
    let threads = parse_thread_list_response(&json(
        r#"{
            "data": [{
                "id": "thr_1",
                "sessionId": "sess_1",
                "name": "Fix bug",
                "preview": "hello",
                "cwd": "/work/repo",
                "updatedAt": 123,
                "status": { "type": "idle" },
                "source": { "kind": "cli" }
            }],
            "nextCursor": null,
            "backwardsCursor": null
        }"#,
    ))
    .expect("thread list");

    assert_eq!(
        threads,
        vec![CodexThreadSummary {
            thread_id: "thr_1".to_string(),
            session_id: "sess_1".to_string(),
            name: "Fix bug".to_string(),
            preview: "hello".to_string(),
            cwd: "/work/repo".to_string(),
            status: "idle".to_string(),
            source: "cli".to_string(),
            updated_at: 123,
        }]
    );
}

#[test]
fn parses_loaded_thread_list_response() {
    let threads = parse_loaded_thread_list_response(&json(
        r#"{
            "data": ["thr_1", "thr_2"],
            "nextCursor": null
        }"#,
    ))
    .expect("loaded thread list");

    assert_eq!(threads.len(), 2);
    assert_eq!(threads[0].thread_id, "thr_1");
    assert_eq!(threads[0].status, "loaded");
}

#[test]
fn builds_server_request_results() {
    assert_eq!(
        server_request_accept_result("execCommandApproval"),
        Some(json(r#"{ "decision": "acceptForSession" }"#))
    );
    assert_eq!(
        server_request_deny_result("applyPatchApproval"),
        Some(json(r#"{ "decision": "reject" }"#))
    );
    assert_eq!(
        server_request_answer_result(
            "item/tool/requestUserInput",
            &json(r#"{ "questions": [{ "id": "choice" }] }"#),
            "A"
        ),
        Some(json(r#"{ "answers": { "choice": "A" } }"#))
    );
    assert_eq!(
        server_request_answer_result(
            "item/tool/requestUserInput",
            &json(r#"{ "questions": [{ "id": "first" }, { "id": "second" }] }"#),
            "first=yes; second=no"
        ),
        Some(json(r#"{ "answers": { "first": "yes", "second": "no" } }"#))
    );
}

#[test]
fn frames_have_their_members() {
    let f = request_frame("thread/list", 7, thread_list_params(5));
    assert_eq!(f.get_str("method"), Some("thread/list"));
    assert!(is_jsonrpc_response_for(
        &json(r#"{"id": 7, "error": {}}"#),
        7
    ));
    assert_eq!(
        notification_frame("initialized", json("{}")).get_str("method"),
        Some("initialized")
    );
    let r = reply_frame(&json("\"abc\""), json(r#"{"ok": true}"#));
    assert_eq!(r.get_str("id"), Some("abc"));
}

#[test]
fn waits_for_the_answer_to_its_request() {
    match wait_step(&json(r#"{"id": 3, "result": {"x": 1}}"#), 3) {
        WaitStep::Done(v) => assert_eq!(v.get("x").and_then(|v| v.as_i64()), Some(1)),
        _ => panic!("an answer"),
    }
    match wait_step(&json(r#"{"id": 3, "error": {"code": 1}}"#), 3) {
        WaitStep::Failed(_) => {}
        _ => panic!("a failure"),
    }
    match wait_step(&json(r#"{"method": "hook/started", "params": {}}"#), 3) {
        WaitStep::Ignored => {}
        _ => panic!("nothing to do"),
    }
    match wait_step(
        &json(r#"{"id": 9, "method": "execCommandApproval", "params": {"command": "ls"}}"#),
        3,
    ) {
        WaitStep::Request(r) => assert_eq!(r.method, "execCommandApproval"),
        _ => panic!("a request of the server"),
    }
}

#[test]
fn errors_of_the_server_keep_their_text() {
    assert_eq!(rpc_error("{\"code\":1}").message(), "codex rpc error: {\"code\":1}");
    assert!(turn_start_error("x").message().contains("x"));
}

#[test]
fn thread_id_is_found_or_missed() {
    assert_eq!(
        extract_thread_id(&json(r#"{"thread": {"id": "thr_9"}}"#)).unwrap(),
        "thr_9"
    );
    assert!(extract_thread_id(&json("{}")).is_err());
}

#[test]
fn last_agent_text_of_a_turn_counts() {
    let text = extract_turn_agent_text(&json(
        r#"{"turn": {"items": [
            {"type": "agentMessage", "text": "one"},
            {"type": "agentMessage", "text": "two"},
            {"type": "agentMessage", "text": ""}
        ]}}"#,
    ));
    assert_eq!(text, "two");
}

#[test]
fn bearer_token_is_trimmed_and_may_be_missing() {
    let c = CodexAppServerClient::with_token(CodexAppServerConfig::default(), Some(" tok \n"));
    assert_eq!(c.bearer_token.as_deref(), Some("tok"));
    let none = CodexAppServerClient::with_token(CodexAppServerConfig::default(), None);
    assert!(none.bearer_token.is_none());
}

#[test]
fn turn_start_params_carry_the_prompt() {
    let p = turn_start_params(&CodexAppServerConfig::default(), "thr_1", "do it");
    assert_eq!(p.get_str("threadId"), Some("thr_1"));
    let input = p.get_array("input").unwrap();
    assert_eq!(input[0].get_str("text"), Some("do it"));
}

// -- Events --------------------------------------------------------------------------------------

#[test]
fn ignores_deltas_and_emits_on_item_completed() {
    let mut mapper = TurnEventMapper::new();

    assert!(mapper
        .push(&json(
            r#"{
                "method": "item/started",
                "params": { "item": { "id": "item_1", "type": "agentMessage", "text": "" } }
            }"#
        ))
        .is_empty());

    assert!(mapper
        .push(&json(
            r#"{
                "method": "item/agentMessage/delta",
                "params": { "delta": "hello", "itemId": "item_1" }
            }"#
        ))
        .is_empty());

    let completed = mapper.push(&json(
        r#"{
            "method": "item/completed",
            "params": {
                "item": {
                    "id": "item_1",
                    "type": "agentMessage",
                    "text": "hello world"
                }
            }
        }"#,
    ));
    assert_eq!(completed.len(), 1);
    assert_eq!(completed[0].status, EventStatus::Completed);
    assert_eq!(completed[0].text, "hello world");

    let done = mapper.push(&json(
        r#"{
            "method": "turn/completed",
            "params": { "threadId": "t", "turn": {} }
        }"#,
    ));
    assert!(mapper.is_turn_done());
    assert!(done.iter().any(|e| e.kind == EventKind::Response));
    assert_eq!(mapper.accumulated, "hello world");
}

#[test]
fn maps_multiple_agent_messages_on_completed_only() {
    let mut mapper = TurnEventMapper::new();
    let mut events: Vec<AgentEvent> = Vec::new();

    for note in [
        r#"{"method": "item/started", "params": {"item": {"id": "item_1", "type": "agentMessage", "text": ""}}}"#,
        r#"{"method": "item/agentMessage/delta", "params": {"delta": "first", "itemId": "item_1"}}"#,
        r#"{"method": "item/completed", "params": {"item": {"id": "item_1", "type": "agentMessage", "text": "first part"}}}"#,
        r#"{"method": "item/started", "params": {"item": {"id": "item_2", "type": "agentMessage", "text": ""}}}"#,
        r#"{"method": "item/agentMessage/delta", "params": {"delta": "second", "itemId": "item_2"}}"#,
        r#"{"method": "item/completed", "params": {"item": {"id": "item_2", "type": "agentMessage", "text": "second part"}}}"#,
    ] {
        events.extend(mapper.push(&json(note)));
    }

    let completed: Vec<_> = events
        .iter()
        .filter(|e| e.kind == EventKind::Message && e.status == EventStatus::Completed)
        .collect();
    assert_eq!(completed.len(), 2);
    assert_eq!(completed[0].text, "first part");
    assert_eq!(completed[1].text, "second part");
    assert_eq!(mapper.accumulated, "first part\n\nsecond part");

    assert!(events
        .iter()
        .all(|e| e.kind != EventKind::Content && e.status != EventStatus::InProgress));
}

#[test]
fn turn_event_counts_for_completed_only_mode() {
    let mut mapper = TurnEventMapper::new();
    let mut all_events: Vec<AgentEvent> = Vec::new();

    for note in [
        r#"{"method": "item/started", "params": {"item": {"id": "m1", "type": "agentMessage", "text": ""}}}"#,
        r#"{"method": "item/agentMessage/delta", "params": {"delta": "Checking…", "itemId": "m1"}}"#,
        r#"{"method": "item/completed", "params": {"item": {"id": "m1", "type": "agentMessage", "text": "Checking…"}}}"#,
        r#"{"method": "item/started", "params": {"item": {"id": "m2", "type": "agentMessage", "text": ""}}}"#,
        r#"{"method": "item/completed", "params": {"item": {"id": "m2", "type": "agentMessage", "text": "Done: all good"}}}"#,
        r#"{"method": "turn/completed", "params": {"threadId": "t", "turn": {}}}"#,
    ] {
        all_events.extend(mapper.push(&json(note)));
    }

    let completed = all_events
        .iter()
        .filter(|e| e.kind == EventKind::Message && e.status == EventStatus::Completed)
        .count();
    assert_eq!(completed, 2);
    assert_eq!(mapper.accumulated, "Checking…\n\nDone: all good");
}

#[test]
fn turn_collector_takes_the_answer_and_the_events() {
    let mut c = TurnCollector::new();
    match c.on_frame(&json(r#"{"id": 4, "result": {}}"#), 4) {
        TurnStep::Acknowledged => {}
        _ => panic!("the answer to the request"),
    }
    match c.on_frame(
        &json(r#"{"method": "item/completed", "params": {"item": {"id": "i", "type": "agentMessage", "text": "hi"}}}"#),
        4,
    ) {
        TurnStep::Events { events, done } => {
            assert_eq!(events[0].text, "hi");
            assert!(!done);
        }
        _ => panic!("an event"),
    }
    match c.on_frame(
        &json(r#"{"method": "turn/completed", "params": {"turn": {}}}"#),
        4,
    ) {
        TurnStep::Events { done, .. } => assert!(done),
        _ => panic!("the end"),
    }
    let (text, _) = c.finish().unwrap();
    assert_eq!(text, "hi");
    match TurnCollector::new().on_frame(&json(r#"{"id": 4, "error": {"code": 2}}"#), 4) {
        TurnStep::Failed(_) => {}
        _ => panic!("a failure"),
    }
}

// -- Texts ---------------------------------------------------------------------------------------

#[test]
fn formats_wechat_session_info_for_binding() {
    let request = ChannelRequest {
        channel: "wechat".to_string(),
        session_id: "wechat:group:group_1".to_string(),
        user_id: "wx_user".to_string(),
        content: Vec::new(),
        meta: vec![
            ("is_group".to_string(), Json::Bool(true)),
            ("group_id".to_string(), Json::text("group_1")),
            ("from_user_id".to_string(), Json::text("wx_user")),
        ],
    };
    let binding = ThreadBinding {
        thread_id: "thr_123".to_string(),
        cwd: "/work".to_string(),
    };

    let text = format_session_info("/", Some(binding), &request);

    assert!(text.contains("channel: wechat"));
    assert!(text.contains("session_id: wechat:group:group_1"));
    assert!(text.contains("group_id: group_1"));
    assert!(text.contains("thread_id: thr_123"));
    assert!(text.contains("/bind <threadId|number>"));
}

#[test]
fn formats_thread_list_with_bind_hint() {
    let text = format_thread_list(
        "/",
        &vec![CodexThreadSummary {
            thread_id: "thr_1".to_string(),
            session_id: "sess_1".to_string(),
            name: "Review code".to_string(),
            preview: String::new(),
            cwd: "/repo".to_string(),
            status: "idle".to_string(),
            source: "cli".to_string(),
            updated_at: 123,
        }],
        false,
    );

    assert!(text.contains("1. thr_1"));
    assert!(text.contains("title: Review code"));
    assert!(text.contains("session_id: sess_1"));
    assert!(text.contains("status: idle"));
    assert!(text.contains("source: cli"));
    assert!(text.contains("updated_at: 1970-01-01 08:02:03"));
    assert!(!text.contains("session_id=sess_1 status=idle"));
    assert!(text.contains("/bind 1"));
}

#[test]
fn formats_multiple_threads_with_blank_line_between_items() {
    let text = format_thread_list(
        "/",
        &vec![
            CodexThreadSummary {
                name: "One".to_string(),
                ..summary("thr_1")
            },
            CodexThreadSummary {
                name: "Two".to_string(),
                ..summary("thr_2")
            },
        ],
        false,
    );

    assert!(text.contains("   title: One\n\n2. thr_2"));
}

#[test]
fn time_is_shown_eight_hours_ahead() {
    assert_eq!(format_updated_at(123), "1970-01-01 08:02:03");
    assert_eq!(format_updated_at(1_700_000_000), "2023-11-15 06:13:20");
    assert_eq!(format_updated_at(i64::MAX), i64::MAX.to_string());
}

#[test]
fn long_text_is_previewed() {
    assert_eq!(preview_text("short", 10), "short");
    assert!(preview_text(&"x".repeat(50), 10).chars().count() <= 13);
}

#[test]
fn server_request_is_shown_with_its_id() {
    let r = ServerRequest {
        method: "execCommandApproval".to_string(),
        id: json("1"),
        params: json(r#"{"command": "cargo test"}"#),
    };
    let text = format_server_request_prompt("appr_1", &r, "{\"command\":\"cargo test\"}");
    assert!(text.contains("appr_1"));
    assert!(text.contains("cargo test"));
    assert!(server_request_from_msg(&json(r#"{"method": "other", "id": 1}"#)).is_none());
}

// -- Threads of a session ------------------------------------------------------------------------

#[test]
fn resolves_numeric_bind_selector_from_cached_threads() {
    let mut backend = backend();
    backend.thread_list_cache.insert(
        "im_session".to_string(),
        vec![CodexThreadSummary {
            cwd: "/repo".to_string(),
            ..summary("thr_1")
        }],
    );

    let resolved = backend
        .resolve_bind_selector("im_session", "1")
        .expect("selector");
    assert_eq!(resolved.thread_id, "thr_1");
    assert_eq!(resolved.cwd, "/repo");
    assert!(backend.resolve_bind_selector("im_session", "2").is_err());
    assert!(backend.resolve_bind_selector("other", "1").is_err());
    assert_eq!(
        backend
            .resolve_bind_selector("other", "thr_x")
            .unwrap()
            .thread_id,
        "thr_x"
    );
}

#[test]
fn update_cached_thread_name_updates_all_cached_lists() {
    let mut backend = backend();
    for session in ["im_session_1", "im_session_2"] {
        backend.thread_list_cache.insert(
            session.to_string(),
            vec![CodexThreadSummary {
                name: "Old".to_string(),
                ..summary("thr_1")
            }],
        );
    }

    backend.update_cached_thread_name("thr_1", "New title");

    let cache = &backend.thread_list_cache;
    assert_eq!(cache.get("im_session_1").unwrap()[0].name, "New title");
    assert_eq!(cache.get("im_session_2").unwrap()[0].name, "New title");
}

#[test]
fn merge_loaded_threads_appends_missing_loaded_threads() {
    let mut threads = vec![CodexThreadSummary {
        thread_id: "thr_recent".to_string(),
        session_id: "sess_1".to_string(),
        name: "recent".to_string(),
        preview: String::new(),
        cwd: "/repo".to_string(),
        status: "active".to_string(),
        source: "cli".to_string(),
        updated_at: 1,
    }];
    let loaded = vec![
        CodexThreadSummary {
            status: "loaded".to_string(),
            ..summary("thr_recent")
        },
        CodexThreadSummary {
            status: "loaded".to_string(),
            ..summary("thr_remote_loaded")
        },
    ];

    merge_loaded_threads(&mut threads, &loaded, 10);

    assert_eq!(
        threads
            .iter()
            .map(|thread| thread.thread_id.as_str())
            .collect::<Vec<_>>(),
        vec!["thr_recent", "thr_remote_loaded"]
    );
}

#[test]
fn merging_stops_at_the_limit() {
    let mut threads = vec![summary("a")];
    merge_loaded_threads(&mut threads, &vec![summary("b"), summary("c")], 2);
    assert_eq!(threads.len(), 2);
    assert_eq!(threads[0].thread_id, "a");
}

#[test]
fn bindings_are_kept_by_session() {
    let mut b = BindingStore::new();
    assert!(b.get("s").is_none());
    b.set(
        "s",
        ThreadBinding {
            thread_id: "t".to_string(),
            cwd: "/w".to_string(),
        },
    );
    assert_eq!(b.get("s").unwrap().thread_id, "t");
    b.clear("s");
    assert!(b.get("s").is_none());
}

#[test]
fn bindings_are_the_same_after_loading() {
    let mut b = BindingStore::new();
    for (session, thread, cwd) in [("s", "t", "/w"), ("r", "u", ""), ("s", "v", "/x")] {
        b.set(
            session,
            ThreadBinding {
                thread_id: thread.to_string(),
                cwd: cwd.to_string(),
            },
        );
    }
    let stored = b.to_json();
    let bound = stored.get("sessions").unwrap().get("s").unwrap();
    assert_eq!(bound.get_str("thread_id"), Some("v"));
    assert_eq!(bound.get_str("cwd"), Some("/x"));
    let loaded = BindingStore::from_json(&stored);
    assert_eq!(loaded.get("s").unwrap().thread_id, "v");
    assert_eq!(loaded.get("s").unwrap().cwd, "/x");
    assert_eq!(loaded.get("r").unwrap().thread_id, "u");
    assert!(loaded.get("q").is_none());
    assert_eq!(loaded.sessions.len(), 2);
}

#[test]
fn bindings_that_are_not_whole_are_none() {
    let none = |text: &str| BindingStore::from_json(&json(text)).sessions.len() == 0;
    assert!(none("{}"));
    assert!(none("[]"));
    assert!(none(r#"{"sessions": null}"#));
    assert!(none(r#"{"sessions": {"s": {"cwd": "/w"}}}"#));
    assert!(none(
        r#"{"sessions": {"r": {"thread_id": "t"}, "s": {"thread_id": 1}}}"#
    ));
    let one = BindingStore::from_json(&json(r#"{"sessions": {"s": {"thread_id": "t"}}, "x": 1}"#));
    assert_eq!(one.get("s").unwrap().cwd, "");
}

#[test]
fn commands_answer_in_the_session() {
    let mut b = backend();
    assert!(b.cmd_help()[0].text.contains("/bind"));
    assert!(!b.cmd_thread("im_session")[0].text.is_empty());
    assert!(b.cmd_session(&request("x"))[0].text.contains("im_session"));
    b.bindings.set(
        "im_session",
        ThreadBinding {
            thread_id: "t".to_string(),
            cwd: String::new(),
        },
    );
    b.cmd_new("im_session", Ok(()));
    assert!(b.bindings.get("im_session").is_none());
    let events = b.cmd_threads("im_session", false, vec![summary("thr_5")]);
    assert!(events[0].text.contains("thr_5"));
    assert_eq!(
        b.resolve_bind_selector("im_session", "1").unwrap().thread_id,
        "thr_5"
    );
    assert_eq!(
        b.parse_request(&request("/help")).unwrap(),
        ParsedCommand::Help
    );
    assert!(b.parse_request(&request("/nonsense")).is_err());
}

// -- Requests of the server ----------------------------------------------------------------------

#[test]
fn pending_request_with_explicit_id_keeps_session_isolation() {
    let mut pending = PendingServerRequests::new();
    pending.insert(
        "req_1".to_string(),
        PendingServerRequest {
            im_session_id: "im_session_1".to_string(),
            method: "execCommandApproval".to_string(),
            params: Json::Null,
        },
    );

    let err = match pending.take_for_session("im_session_2", Some("req_1")) {
        Ok(_) => panic!("other session must not resolve request"),
        Err(err) => err,
    };

    assert!(err.message().contains("another IM session"));
    let (request_id, request) = pending
        .take_for_session("im_session_1", Some("req_1"))
        .expect("original session can still resolve request");
    assert_eq!(request_id, "req_1");
    assert_eq!(request.im_session_id, "im_session_1");
}

#[test]
fn invalid_pending_response_keeps_request_pending() {
    let mut backend = backend();
    backend.pending_server_requests.insert(
        "req_1".to_string(),
        PendingServerRequest {
            im_session_id: "im_session_1".to_string(),
            method: "execCommandApproval".to_string(),
            params: json(r#"{ "command": "cargo test" }"#),
        },
    );

    let events = backend
        .cmd_pending_response(
            "im_session_1",
            Some("req_1"),
            &PendingResponse::Answer("yes".to_string()),
        )
        .unwrap_err();

    assert!(events
        .iter()
        .any(|event| event.text.contains("does not accept this response")));
    let (request_id, request) = backend
        .pending_server_requests
        .take_for_session("im_session_1", Some("req_1"))
        .expect("invalid response must not drop pending request");
    assert_eq!(request_id, "req_1");
    assert_eq!(request.method, "execCommandApproval");
}

#[test]
fn approval_answers_the_server_and_is_done() {
    let mut backend = backend();
    backend.pending_server_requests.insert(
        "req_1".to_string(),
        PendingServerRequest {
            im_session_id: "s".to_string(),
            method: "execCommandApproval".to_string(),
            params: Json::Null,
        },
    );
    let (id, reply) = backend
        .cmd_pending_response("s", None, &PendingResponse::Approve)
        .unwrap();
    assert_eq!(id, "req_1");
    assert_eq!(reply.get_str("decision"), Some("acceptForSession"));
    assert!(backend
        .cmd_pending_response("s", None, &PendingResponse::Deny)
        .is_err());
    assert!(submitted_events("req_1", true)[0].text.contains("req_1"));
    assert_ne!(
        submitted_events("req_1", true)[0].text,
        submitted_events("req_1", false)[0].text
    );
}

#[test]
fn request_ids_are_marked_and_differ() {
    let a = new_request_id();
    let b = new_request_id();
    assert!(a.starts_with("req_"));
    assert_eq!(a.len(), 36);
    assert_ne!(a, b);
}

// -- Prompts -------------------------------------------------------------------------------------

#[test]
fn detects_missing_rollout_rpc_error() {
    let error = GatewayError::Other(
        r#"codex rpc error: {"code":-32600,"message":"no rollout found for thread id 019ecefa-b8b0-7213-a809-5efbdcf7471a"}"#
            .to_string(),
    );

    assert!(is_missing_rollout_error(&error));
}

#[test]
fn stale_binding_replacement_cwd_prefers_binding_cwd() {
    let stale = ThreadBinding {
        thread_id: "thr_stale".to_string(),
        cwd: "/bound/repo".to_string(),
    };

    assert_eq!(
        replacement_cwd_for_stale_binding(&stale, "/default/repo").as_deref(),
        Some("/bound/repo")
    );
}

#[test]
fn stale_binding_replacement_cwd_falls_back_to_default_cwd() {
    let stale = ThreadBinding {
        thread_id: "thr_stale".to_string(),
        cwd: String::new(),
    };

    assert_eq!(
        replacement_cwd_for_stale_binding(&stale, "/default/repo").as_deref(),
        Some("/default/repo")
    );
}

#[test]
fn prompt_goes_to_its_thread_or_a_new_one() {
    let bound = ThreadBinding {
        thread_id: "t".to_string(),
        cwd: String::new(),
    };
    match plan_prompt(Some(bound), "") {
        PromptPlan::OnThread(b) => assert_eq!(b.thread_id, "t"),
        _ => panic!("the session is bound"),
    }
    match plan_prompt(None, "/repo") {
        PromptPlan::NewThread { cwd } => assert_eq!(cwd, "/repo"),
        _ => panic!("a new thread"),
    }
    match plan_prompt(None, "") {
        PromptPlan::Refuse(events) => assert!(!events[0].text.is_empty()),
        _ => panic!("nowhere to start"),
    }
}

#[test]
fn lost_thread_is_replaced() {
    let lost: Result<String, GatewayError> =
        Err(GatewayError::other("no rollout found for thread id x"));
    match after_bound_turn(&lost) {
        BoundTurn::ClearBinding => {}
        _ => panic!("the thread is gone"),
    }
    match after_bound_turn(&Ok("text".to_string())) {
        BoundTurn::Done => {}
        _ => panic!("all is well"),
    }
    match after_bound_turn(&Err(GatewayError::other("other"))) {
        BoundTurn::Reply(events) => assert!(events[0].text.contains("other")),
        _ => panic!("a reply"),
    }
    let stale = ThreadBinding {
        thread_id: "t".to_string(),
        cwd: "/w".to_string(),
    };
    let e = GatewayError::other("no rollout found for thread id x");
    assert_eq!(after_clear(&e, Ok(()), &stale, "").unwrap(), "/w");
    assert!(after_clear(&e, Err(GatewayError::other("disk")), &stale, "").is_err());
    assert!(new_thread_error_message(&GatewayError::other("why")).contains("why"));
    assert!(stale_recovery_error_message(&GatewayError::other("why")).contains("why"));
}

#[test]
fn binding_and_naming_answer() {
    assert!(bind_events("thr_1", Ok(()), Ok(()))[0].text.contains("thr_1"));
    assert!(
        bind_events("thr_1", Err(GatewayError::other("gone")), Ok(()))[0]
            .text
            .contains("gone")
    );
    assert!(rename_target(None, "n").is_err());
    let bound = ThreadBinding {
        thread_id: "t".to_string(),
        cwd: String::new(),
    };
    assert_eq!(
        rename_target(Some(bound), " n ").unwrap().0,
        "t".to_string()
    );
    assert!(rename_events("t", "n", Ok(()))[0].text.contains("n"));
    assert!(thread_list_failed_events(&GatewayError::other("down"))[0]
        .text
        .contains("down"));
}

#[test]
fn request_that_was_taken_can_be_put_back() {
    let mut pending = PendingServerRequests::new();
    pending.insert(
        "req_1".to_string(),
        PendingServerRequest {
            im_session_id: "s".to_string(),
            method: "execCommandApproval".to_string(),
            params: Json::Null,
        },
    );
    let (id, request) = pending.take_for_session("s", None).unwrap();
    assert!(pending.take_for_session("s", Some("req_1")).is_err());
    pending.put_back(id, request);
    let (id, request) = pending.take_for_session("s", Some("req_1")).unwrap();
    assert_eq!(id, "req_1");
    assert_eq!(request.method, "execCommandApproval");
}

#[test]
fn series_of_frames_gives_its_messages_in_order() {
    let frames = [
        r#"{"method": "item/started", "params": {"item": {"type": "agentMessage", "id": "m1"}}}"#,
        r#"{"method": "item/completed", "params": {"item": {"type": "agentMessage", "id": "m1", "text": "one"}}}"#,
        r#"{"id": 7, "result": {}}"#,
        r#"{"method": "item/completed", "params": {"item": {"type": "agentMessage", "id": "m2", "text": "two"}}}"#,
        r#"{"method": "turn/completed", "params": {}}"#,
    ];
    let mut mapper = TurnEventMapper::new();
    let mut events = vec![];
    for (i, frame) in frames.iter().enumerate() {
        assert_eq!(mapper.is_turn_done(), false);
        assert_eq!(mapper.emitted_any(), i > 1);
        events.extend(mapper.push(&json(frame)));
    }
    assert!(mapper.is_turn_done());
    assert_eq!(mapper.accumulated, "one\n\ntwo");
    let texts: Vec<&str> = events.iter().map(|e| e.text.as_str()).collect();
    assert_eq!(texts, vec!["one", "two", ""]);
    assert_eq!(events[2].kind, EventKind::Response);
}
