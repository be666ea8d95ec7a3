use im_channel_gateway::agent::backend_kind;
use im_channel_gateway::agent::cli::output_filter::{filter_codex, filter_for_im};
use im_channel_gateway::agent::cli::router::{
    check_sender_allowed, enabled_runner_names, format_agents_list, format_help, parse_command,
    ParsedCommand,
};
use im_channel_gateway::agent::cli::runner::{
    check_runner, chomp, output_cuts_fall_on_chars, process_args, process_events, process_stdin,
    resolve_cwd, run_limits, session_workspace, timeout_events,
};
use im_channel_gateway::agent::cli::{
    route_request, route_single, runner_reply, single_runner_config, Routed,
};
use im_channel_gateway::agent::echo::EchoBackend;
use im_channel_gateway::config::{AgentConfig, CliPromptVia, CliRunnerConfig, CliSecurityConfig};
use im_channel_gateway::error::GatewayError;
use im_channel_gateway::table::Table;
use im_channel_gateway::types::{AgentEvent, ChannelPart, ChannelRequest, EventKind, EventStatus};

const SAMPLE: &str = "可以。你把需求、现有代码位置、期望行为或报错贴给我，我可以直接在当前工作区里读代码、修改文件、运行测试并给你结果。
Reading prompt from stdin...
OpenAI Codex v0.135.0
--------
workdir: /tmp/ws
model: gpt-5.5
--------
user
你可以写代码么？
hook: SessionStart
hook: SessionStart Completed
codex
可以。你把需求、现有代码位置、期望行为或报错贴给我，我可以直接在当前工作区里读代码、修改文件、运行测试并给你结果。
hook: Stop
tokens used
3,353";

#[test]
fn keeps_text_before_stdin_marker() {
    let im = filter_codex(SAMPLE);
    assert!(im.starts_with("可以。你把需求"));
    assert!(!im.contains("Reading prompt from stdin"));
    assert!(!im.contains("hook:"));
    assert!(!im.contains("tokens used"));
}

#[test]
fn extracts_codex_block_when_no_preamble() {
    let raw = "Reading prompt from stdin...
--------
user
hello
codex
这是回复。
hook: Stop
tokens used 1";
    let im = filter_codex(raw);
    assert_eq!(im, "这是回复。");
}

fn sample_runners() -> Table<CliRunnerConfig> {
    let mut m = Table::new();
    m.insert(
        "codex".to_string(),
        CliRunnerConfig {
            enabled: true,
            command: "codex".to_string(),
            ..Default::default()
        },
    );
    m.insert(
        "echo".to_string(),
        CliRunnerConfig {
            enabled: true,
            command: "echo".to_string(),
            ..Default::default()
        },
    );
    m
}

#[test]
fn parses_prefixed_runner() {
    let runners = sample_runners();
    let cmd = parse_command("/codex fix login", "/", false, "codex", &runners).unwrap();
    assert_eq!(
        cmd,
        ParsedCommand::Run {
            runner: "codex".to_string(),
            prompt: "fix login".to_string(),
        }
    );
}

#[test]
fn parses_help() {
    let runners = sample_runners();
    assert_eq!(
        parse_command("/help", "/", false, "codex", &runners).unwrap(),
        ParsedCommand::Help
    );
}

#[test]
fn rejects_unknown_runner() {
    let runners = sample_runners();
    assert!(parse_command("/unknown x", "/", false, "codex", &runners).is_err());
}

#[test]
fn default_runner_without_prefix() {
    let runners = sample_runners();
    let cmd = parse_command("hello world", "/", false, "echo", &runners).unwrap();
    assert_eq!(
        cmd,
        ParsedCommand::Run {
            runner: "echo".to_string(),
            prompt: "hello world".to_string(),
        }
    );
}

#[test]
fn require_prefix_blocks_plain_text() {
    let runners = sample_runners();
    assert!(parse_command("hello", "/", true, "echo", &runners).is_err());
}

fn echo_runner_config() -> AgentConfig {
    let mut runners = Table::new();
    runners.insert(
        "echo".to_string(),
        CliRunnerConfig {
            enabled: true,
            command: "echo".to_string(),
            args: vec![],
            prompt_via: CliPromptVia::LastArg,
            ..Default::default()
        },
    );
    AgentConfig {
        backend: "cli_router".to_string(),
        default_runner: "echo".to_string(),
        command_prefix: "/".to_string(),
        require_command_prefix: false,
        runners,
        security: CliSecurityConfig {
            max_run_secs: 30,
            max_output_kb: 64,
            workspace_root: "/tmp/im-channel-gateway-test".to_string(),
            ..Default::default()
        },
        ..Default::default()
    }
}

fn test_request(text: &str) -> ChannelRequest {
    ChannelRequest {
        channel: "wechat".to_string(),
        session_id: "wechat:testuser".to_string(),
        user_id: "testuser".to_string(),
        content: vec![ChannelPart::text_part(text)],
        meta: Vec::new(),
    }
}

#[test]
fn parse_echo_prefixed_command() {
    let cfg = echo_runner_config();
    let cmd = parse_command(
        "/echo ping",
        &cfg.command_prefix,
        cfg.require_command_prefix,
        &cfg.default_runner,
        &cfg.runners,
    )
    .unwrap();
    assert_eq!(
        cmd,
        ParsedCommand::Run {
            runner: "echo".to_string(),
            prompt: "ping".to_string(),
        }
    );
}

/// What `echo` prints, from the request to the events.
#[test]
fn cli_router_runs_echo_runner() {
    let cfg = echo_runner_config();
    let (runner, prompt) = match route_request(&cfg, &test_request("hello from im")) {
        Routed::Run { runner, prompt } => (runner, prompt),
        Routed::Reply(_) => panic!("the request is for a runner"),
    };
    assert_eq!(runner, "echo");
    let entry = cfg.runners.get(&runner).unwrap();
    assert!(check_runner(&runner, entry).is_ok());
    let args = process_args(entry, &prompt);
    assert_eq!(args, vec!["hello from im".to_string()]);
    assert!(process_stdin(entry, &prompt).is_none());
    let (max_bytes, secs) = run_limits(&cfg.security);
    assert_eq!((max_bytes, secs), (64 * 1024, 30));
    let events = process_events(
        &runner,
        entry,
        &vec![chomp("hello from im\n")],
        &vec![],
        true,
        Some(0),
        max_bytes,
    );
    let last_text = &events.iter().rev().find(|e| !e.text.is_empty()).unwrap().text;
    assert!(last_text.contains("hello from im"));
    assert_eq!(events.last().unwrap().kind, EventKind::Response);
}

#[test]
fn sender_must_be_on_the_list_where_there_is_one() {
    let mut security = CliSecurityConfig::default();
    assert!(check_sender_allowed(&security, "anyone").is_ok());
    security.allowed_senders = vec!["alice".to_string()];
    assert!(check_sender_allowed(&security, "alice").is_ok());
    assert!(check_sender_allowed(&security, "bob").is_err());
    let mut cfg = echo_runner_config();
    cfg.security.allowed_senders = vec!["alice".to_string()];
    match route_request(&cfg, &test_request("hello")) {
        Routed::Reply(events) => assert!(!events.is_empty()),
        Routed::Run { .. } => panic!("the sender is not on the list"),
    }
}

#[test]
fn runners_are_listed_by_name() {
    let mut runners = sample_runners();
    runners.insert("off".to_string(), CliRunnerConfig::default());
    runners.insert(
        "aider".to_string(),
        CliRunnerConfig {
            enabled: true,
            command: "aider".to_string(),
            ..Default::default()
        },
    );
    let names = enabled_runner_names(&runners);
    assert_eq!(names[0], "aider");
    assert_eq!(names[1], "codex");
    assert_eq!(names[2], "echo");
    assert!(format_help("/", "echo", &runners).contains("/help"));
    assert!(format_agents_list(&runners).contains("aider"));
}

#[test]
fn workspace_keeps_to_its_root() {
    let security = CliSecurityConfig {
        workspace_root: "/srv/work".to_string(),
        ..Default::default()
    };
    assert_eq!(
        session_workspace(&security, "wechat:acc", "../../etc"),
        "/srv/work/wechat_acc/______etc"
    );
    assert_eq!(session_workspace(&security, "", "s-1"), "/srv/work/_/s-1");
    let own = CliRunnerConfig {
        cwd: "/repo".to_string(),
        ..Default::default()
    };
    assert_eq!(resolve_cwd(&own, &security, "c", "s").unwrap(), "/repo");
    assert_eq!(
        resolve_cwd(&CliRunnerConfig::default(), &security, "c", "s").unwrap(),
        "/srv/work/c/s"
    );
}

#[test]
fn runner_must_be_enabled_and_have_a_command() {
    let off = CliRunnerConfig {
        enabled: false,
        command: "x".to_string(),
        ..Default::default()
    };
    assert_eq!(
        check_runner("r", &off).unwrap_err().message(),
        "runner 'r' is disabled"
    );
    let empty = CliRunnerConfig {
        enabled: true,
        command: String::new(),
        ..Default::default()
    };
    assert_eq!(
        check_runner("r", &empty).unwrap_err().message(),
        "runner 'r' has empty command"
    );
}

#[test]
fn prompt_goes_to_stdin_where_asked() {
    let r = CliRunnerConfig {
        args: vec!["-q".to_string()],
        prompt_via: CliPromptVia::Stdin,
        ..Default::default()
    };
    assert_eq!(process_args(&r, "hi"), vec!["-q".to_string()]);
    assert_eq!(process_stdin(&r, "hi"), Some("hi".to_string()));
}

#[test]
fn output_is_cut_at_the_limit() {
    let r = CliRunnerConfig::default();
    let out = vec!["abcdefgh".to_string(), "ijkl".to_string()];
    assert!(output_cuts_fall_on_chars(&out, &vec![], 6));
    let events = process_events("x", &r, &out, &vec![], true, Some(0), 6);
    assert_eq!(events[0].text, "abcdef\n\n(output truncated)");
    assert!(!output_cuts_fall_on_chars(&vec!["短句".to_string()], &vec![], 4));
}

#[test]
fn failed_process_says_so() {
    let r = CliRunnerConfig::default();
    let events = process_events("x", &r, &vec![], &vec![], false, Some(3), 1024);
    assert_eq!(events[0].text, "process exited with 3");
    assert_eq!(events[0].status, EventStatus::Failed);
    let none = process_events("x", &r, &vec![], &vec![], false, None, 1024);
    assert_eq!(none[0].text, "process exited with -1");
    let quiet = process_events("x", &r, &vec![], &vec![], true, Some(0), 1024);
    assert_eq!(quiet.len(), 1);
}

#[test]
fn timeout_names_the_runner() {
    let events = timeout_events("codex", 30);
    assert_eq!(events[0].text, "CLI runner 'codex' timed out after 30s");
    assert_eq!(events[0].status, EventStatus::Failed);
    assert_eq!(events[1].kind, EventKind::Response);
}

#[test]
fn lines_lose_their_ends() {
    assert_eq!(chomp("a\r\n"), "a");
    assert_eq!(chomp("a\n"), "a");
    assert_eq!(chomp("a\r"), "a\r");
    assert_eq!(chomp("\n"), "");
}

#[test]
fn failed_runner_is_a_reply() {
    let events = runner_reply(Err(GatewayError::other("spawn x: gone")));
    assert!(events[0].text.contains("spawn x: gone"));
    let ok = runner_reply(Ok(vec![]));
    assert!(ok.is_empty());
}

#[test]
fn single_runner_needs_no_prefix() {
    let mut cfg = echo_runner_config();
    cfg.require_command_prefix = true;
    let one = single_runner_config(cfg);
    assert_eq!(one.default_runner, "echo");
}

#[test]
fn single_runner_takes_no_commands() {
    let mut cfg = echo_runner_config();
    cfg.command_prefix = "/".to_string();
    let codex = CliRunnerConfig {
        enabled: true,
        command: "codex".to_string(),
        ..Default::default()
    };
    cfg.runners.insert("codex".to_string(), codex);
    let one = single_runner_config(cfg);
    for text in ["/codex fix login", "/help", "/agents", "plain"] {
        match route_single(&one, &test_request(text)) {
            Routed::Run { runner, prompt } => {
                assert_eq!(runner, "echo");
                assert_eq!(prompt, text);
            }
            Routed::Reply(_) => panic!("no runner for {text}"),
        }
    }
    match route_single(&one, &test_request("  ")) {
        Routed::Reply(events) => assert!(events[0].text.starts_with("empty message")),
        Routed::Run { .. } => panic!("a runner for a blank text"),
    }
    match route_request(&one, &test_request("/codex fix login")) {
        Routed::Run { runner, prompt } => {
            assert_eq!(runner, "codex");
            assert_eq!(prompt, "fix login");
        }
        Routed::Reply(_) => panic!("no runner"),
    }
}

#[test]
fn marker_ends_the_text_of_other_runners() {
    let r = CliRunnerConfig {
        output_strip_from: "-- log --".to_string(),
        ..Default::default()
    };
    let (im, full) = filter_for_im("answer\n-- log --\nnoise", "x", &r);
    assert_eq!(im, "answer");
    assert!(full.contains("noise"));
}

#[test]
fn echo_repeats_the_request() {
    let said = |events: &Vec<AgentEvent>| {
        let e = events.iter().find(|e| !e.text.is_empty()).unwrap();
        assert_eq!(e.status, EventStatus::Completed);
        e.text.clone()
    };
    assert_eq!(said(&EchoBackend.reply(&test_request("ping"))), "[echo] ping");
    let mut empty = test_request("");
    empty.content = vec![];
    assert_eq!(said(&EchoBackend.reply(&empty)), "(echo: empty message)");
}

#[test]
fn backends_go_by_name() {
    assert!(backend_kind("cli_router").is_ok());
    assert!(backend_kind("http_sse").is_ok());
    assert!(backend_kind("nonsense").is_err());
}

#[test]
fn keys_of_a_table_stand_once() {
    let mut t: Table<u32> = Table::new();
    t.insert("a".to_string(), 1);
    t.insert("b".to_string(), 2);
    t.insert("a".to_string(), 3);
    t.insert("c".to_string(), 4);
    let keys: Vec<&str> = t.entries().iter().map(|e| e.0.as_str()).collect();
    assert_eq!(keys, vec!["a", "b", "c"]);
    assert_eq!(t.get("a"), Some(&3));
    t.keep(&vec![true, false, true]);
    assert_eq!(t.len(), 2);
    assert!(!t.contains_key("b"));
    assert_eq!(t.remove("a"), Some(3));
    assert_eq!(t.remove("a"), None);
    assert_eq!(t.into_entries(), vec![("c".to_string(), 4)]);
}
