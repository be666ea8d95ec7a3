use im_channel_gateway::config::{
    belongs, default_config, expand_tilde, expand_tilde_in, normalize_codex_sandbox,
    resolve_config_path, AppConfig, CodexAppServerConfig, TelegramConfig, WeChatConfig,
    DEFAULT_WECHAT_BOT_TYPE,
};

#[test]
fn codex_app_server_default_sandbox_uses_cli_spelling() {
    assert_eq!(CodexAppServerConfig::default().sandbox, "workspace-write");
}

#[test]
fn wechat_default_bot_type_matches_ilink_default() {
    assert_eq!(WeChatConfig::default().bot_type, DEFAULT_WECHAT_BOT_TYPE);
}

#[test]
fn telegram_default_max_accounts_is_20() {
    assert_eq!(TelegramConfig::default().max_accounts, 20);
}

#[test]
fn legacy_sandbox_spelling_is_normalized() {
    assert_eq!(normalize_codex_sandbox("workspaceWrite"), "workspace-write");
    assert_eq!(normalize_codex_sandbox("workspace-write"), "workspace-write");
}

#[test]
fn tilde_stands_for_the_home_directory() {
    assert_eq!(expand_tilde_in("~/x", Some("/home/u")).unwrap(), "/home/u/x");
    assert_eq!(expand_tilde_in("~", Some("/home/u")).unwrap(), "/home/u");
    assert_eq!(expand_tilde_in("/abs/x", None).unwrap(), "/abs/x");
    assert_eq!(
        expand_tilde_in("~/x", None).unwrap_err().message(),
        "config error: cannot resolve home directory"
    );
    assert_eq!(expand_tilde("/abs/x").unwrap(), "/abs/x");
}

#[test]
fn home_of_this_machine_is_used() {
    match expand_tilde("~/x") {
        Ok(p) => {
            assert!(p.ends_with("/x"));
            assert!(!p.starts_with('~'));
        }
        Err(e) => assert_eq!(e.message(), "config error: cannot resolve home directory"),
    }
}

#[test]
fn all_paths_are_resolved() {
    let mut cfg = default_config();
    cfg.data.dir = "~/data".to_string();
    cfg.agent.security.workspace_root = "~/work".to_string();
    cfg.resolve_paths_in(Some("/home/u")).unwrap();
    assert_eq!(cfg.data_path(), "/home/u/data");
    assert_eq!(cfg.agent.security.workspace_root, "/home/u/work");
    let mut plain = AppConfig::default();
    plain.data.dir = "/d".to_string();
    assert!(plain.resolve_paths_in(Some("/home/u")).is_ok());
    assert_eq!(plain.data_path(), "/d");
    let mut cfg = default_config();
    cfg.data.dir = "~/data".to_string();
    assert!(cfg.resolve_paths_in(None).is_err());
}

#[test]
fn accounts_belong_to_their_channel() {
    assert!(belongs("telegram", "telegram"));
    assert!(belongs("telegram:tg_1", "telegram"));
    assert!(!belongs("telegramx", "telegram"));
    let mut cfg = default_config();
    cfg.channels.wechat.base.access_control_dm = true;
    cfg.channels.telegram.base.access_control_group = true;
    assert_eq!(cfg.channels.acl_flags("wechat:acc_1"), (true, cfg.channels.wechat.base.access_control_group));
    assert_eq!(cfg.channels.acl_flags("telegram").1, true);
    assert_eq!(cfg.channels.acl_flags("other"), (false, false));
}

#[test]
fn configuration_is_looked_for_in_order() {
    assert_eq!(
        resolve_config_path(Some("a.toml"), Some("b.toml"), true, Some("c.toml")).unwrap(),
        "a.toml"
    );
    assert_eq!(
        resolve_config_path(None, Some("b.toml"), true, Some("c.toml")).unwrap(),
        "b.toml"
    );
    assert_eq!(
        resolve_config_path(None, Some(""), true, Some("c.toml")).unwrap(),
        "config.toml"
    );
    assert_eq!(
        resolve_config_path(None, None, false, Some("c.toml")).unwrap(),
        "c.toml"
    );
    assert!(resolve_config_path(None, None, false, None)
        .unwrap_err()
        .message()
        .contains("no config.toml found"));
}
