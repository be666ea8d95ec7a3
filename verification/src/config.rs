//! The configuration of the gateway.

use vstd::prelude::*;

use crate::error::{ErrorV, GatewayError};
use crate::paths::{path_join, path_of};
use crate::strs::{after_prefix, same, strip_prefix, trim, trimmed};
use crate::table::{keys_differ, pairs, Table};

verus! {

/// The bot type that WeChat accounts are registered under unless another is set.
pub const DEFAULT_WECHAT_BOT_TYPE: &'static str = "3";

/// Everything that is configured.
pub struct AppConfig {
    pub data: DataConfig,
    pub admin: AdminConfig,
    pub agent: AgentConfig,
    pub channels: ChannelsConfig,
}

/// Where the gateway keeps its files.
pub struct DataConfig {
    pub dir: String,
}

/// Where the admin interface listens.
pub struct AdminConfig {
    pub listen: String,
}

/// How a command-line agent is given its prompt.
#[derive(Debug, Clone, Copy, PartialEq, Eq, Structural)]
pub enum CliPromptVia {
    Stdin,
    LastArg,
}

impl Default for CliPromptVia {
    fn default() -> (r: Self)
        ensures
            r == CliPromptVia::Stdin,
    {
        CliPromptVia::Stdin
    }
}

/// A command-line agent.
pub struct CliRunnerConfig {
    pub enabled: bool,
    pub command: String,
    pub args: Vec<String>,
    pub env: Vec<(String, String)>,
    pub prompt_via: CliPromptVia,
    pub cwd: String,
    /// `codex` keeps banners and hooks of that agent out of replies.
    pub output_profile: String,
    /// Only the text before this marker is sent; not used where the profile is `codex`.
    pub output_strip_from: String,
}

/// Limits on command-line agents.
pub struct CliSecurityConfig {
    pub allowed_senders: Vec<String>,
    pub max_run_secs: u64,
    pub max_output_kb: usize,
    pub workspace_root: String,
}

/// The Codex app server.
pub struct CodexAppServerConfig {
    /// The WebSocket URL, such as `ws://127.0.0.1:4500`.
    pub listen: String,
    /// The file with the bearer token, where the server asks for one.
    pub token_file: String,
    pub model: String,
    /// Where a thread starts in a session that is not bound to one yet.
    pub default_cwd: String,
    pub command_prefix: String,
    pub sandbox: String,
    pub approval_policy: String,
}

/// The agent backend.
pub struct AgentConfig {
    pub backend: String,
    pub base_url: String,
    pub path: String,
    pub agent_id: String,
    pub bearer_token: String,
    pub language: String,
    pub default_runner: String,
    pub command_prefix: String,
    pub require_command_prefix: bool,
    pub runners: Table<CliRunnerConfig>,
    pub security: CliSecurityConfig,
    pub codex_app_server: CodexAppServerConfig,
}

/// The chat platforms.
pub struct ChannelsConfig {
    pub telegram: TelegramConfig,
    pub wechat: WeChatConfig,
}

/// What every chat platform has.
pub struct BaseChannelConfig {
    pub enabled: bool,
    pub bot_prefix: String,
    pub filter_tool_messages: bool,
    pub filter_thinking: bool,
    pub access_control_dm: bool,
    pub access_control_group: bool,
    pub media_dir: String,
}

/// The Telegram platform.
pub struct TelegramConfig {
    pub base: BaseChannelConfig,
    pub bot_token: String,
    pub bot_tokens: Vec<String>,
    pub http_proxy: String,
    pub http_proxy_auth: String,
    pub show_typing: bool,
    pub streaming_enabled: bool,
    pub require_mention: bool,
    /// How many bot accounts may be active at a time.
    pub max_accounts: usize,
}

/// The WeChat platform.
pub struct WeChatConfig {
    /// Verified images are forwarded as data URLs and not written to disk.
    pub inline_images: bool,
    pub base: BaseChannelConfig,
    pub bot_token: String,
    pub bot_token_file: String,
    pub base_url: String,
    /// The application marker shown while a QR code is scanned.
    pub bot_type: String,
    /// Replies are streamed; always so with the `codex_app_server` backend.
    pub streaming_enabled: bool,
    pub message_merge_enabled: bool,
    pub message_merge_delay_ms: i64,
    /// How many bot accounts may be active at a time.
    pub max_accounts: usize,
}

// ---------------------------------------------------------------------------------------------
// Defaults
// ---------------------------------------------------------------------------------------------

impl Default for DataConfig {
    fn default() -> (r: Self)
        ensures
            r.dir@ == "~/.local/share/im-channel-gateway"@,
    {
        DataConfig { dir: "~/.local/share/im-channel-gateway".to_owned() }
    }
}

impl Default for AdminConfig {
    fn default() -> (r: Self)
        ensures
            r.listen@ == "127.0.0.1:18765"@,
    {
        AdminConfig { listen: "127.0.0.1:18765".to_owned() }
    }
}

/// A runner that is not set up.
pub open spec fn blank_runner(r: CliRunnerConfig) -> bool {
    &&& !r.enabled
    &&& r.command@.len() == 0
    &&& r.args@.len() == 0
    &&& r.env@.len() == 0
    &&& r.prompt_via == CliPromptVia::Stdin
    &&& r.cwd@.len() == 0
    &&& r.output_profile@.len() == 0
    &&& r.output_strip_from@.len() == 0
}

impl Default for CliRunnerConfig {
    fn default() -> (r: Self)
        ensures
            blank_runner(r),
    {
        CliRunnerConfig {
            enabled: false,
            command: String::new(),
            args: Vec::new(),
            env: Vec::new(),
            prompt_via: CliPromptVia::Stdin,
            cwd: String::new(),
            output_profile: String::new(),
            output_strip_from: String::new(),
        }
    }
}

pub open spec fn default_security(r: CliSecurityConfig) -> bool {
    &&& r.allowed_senders@.len() == 0
    &&& r.max_run_secs == 600
    &&& r.max_output_kb == 512
    &&& r.workspace_root@.len() == 0
}

impl Default for CliSecurityConfig {
    fn default() -> (r: Self)
        ensures
            default_security(r),
    {
        CliSecurityConfig {
            allowed_senders: Vec::new(),
            max_run_secs: 600,
            max_output_kb: 512,
            workspace_root: String::new(),
        }
    }
}

pub open spec fn default_codex(r: CodexAppServerConfig) -> bool {
    &&& r.listen@ == "ws://127.0.0.1:4500"@
    &&& r.token_file@.len() == 0
    &&& r.model@ == "gpt-5.4"@
    &&& r.default_cwd@.len() == 0
    &&& r.command_prefix@ == "/"@
    &&& r.sandbox@ == "workspace-write"@
    &&& r.approval_policy@ == "never"@
}

impl Default for CodexAppServerConfig {
    fn default() -> (r: Self)
        ensures
            default_codex(r),
    {
        CodexAppServerConfig {
            listen: "ws://127.0.0.1:4500".to_owned(),
            token_file: String::new(),
            model: "gpt-5.4".to_owned(),
            default_cwd: String::new(),
            command_prefix: "/".to_owned(),
            sandbox: "workspace-write".to_owned(),
            approval_policy: "never".to_owned(),
        }
    }
}

pub open spec fn default_agent(r: AgentConfig) -> bool {
    &&& r.backend@ == "echo"@
    &&& r.base_url@ == "http://127.0.0.1:8088"@
    &&& r.path@ == "/api/agent/process"@
    &&& r.agent_id@ == "default"@
    &&& r.bearer_token@.len() == 0
    &&& r.language@ == "zh"@
    &&& r.default_runner@.len() == 0
    &&& r.command_prefix@ == "/"@
    &&& !r.require_command_prefix
    &&& r.runners@.len() == 0
    &&& default_security(r.security)
    &&& default_codex(r.codex_app_server)
}

impl Default for AgentConfig {
    fn default() -> (r: Self)
        ensures
            default_agent(r),
    {
        AgentConfig {
            backend: "echo".to_owned(),
            base_url: "http://127.0.0.1:8088".to_owned(),
            path: "/api/agent/process".to_owned(),
            agent_id: "default".to_owned(),
            bearer_token: String::new(),
            language: "zh".to_owned(),
            default_runner: String::new(),
            command_prefix: "/".to_owned(),
            require_command_prefix: false,
            runners: Table::new(),
            security: CliSecurityConfig::default(),
            codex_app_server: CodexAppServerConfig::default(),
        }
    }
}

pub open spec fn default_base(r: BaseChannelConfig) -> bool {
    &&& !r.enabled
    &&& r.bot_prefix@.len() == 0
    &&& !r.filter_tool_messages
    &&& !r.filter_thinking
    &&& !r.access_control_dm
    &&& !r.access_control_group
    &&& r.media_dir@.len() == 0
}

impl Default for BaseChannelConfig {
    fn default() -> (r: Self)
        ensures
            default_base(r),
    {
        BaseChannelConfig {
            enabled: false,
            bot_prefix: String::new(),
            filter_tool_messages: false,
            filter_thinking: false,
            access_control_dm: false,
            access_control_group: false,
            media_dir: String::new(),
        }
    }
}

pub open spec fn default_telegram(r: TelegramConfig) -> bool {
    &&& default_base(r.base)
    &&& r.bot_token@.len() == 0
    &&& r.bot_tokens@.len() == 0
    &&& r.http_proxy@.len() == 0
    &&& r.http_proxy_auth@.len() == 0
    &&& r.show_typing
    &&& !r.streaming_enabled
    &&& !r.require_mention
    &&& r.max_accounts == 20
}

impl Default for TelegramConfig {
    fn default() -> (r: Self)
        ensures
            default_telegram(r),
    {
        TelegramConfig {
            base: BaseChannelConfig::default(),
            bot_token: String::new(),
            bot_tokens: Vec::new(),
            http_proxy: String::new(),
            http_proxy_auth: String::new(),
            show_typing: true,
            streaming_enabled: false,
            require_mention: false,
            max_accounts: 20,
        }
    }
}

pub open spec fn default_wechat(r: WeChatConfig) -> bool {
    &&& !r.inline_images
    &&& default_base(r.base)
    &&& r.bot_token@.len() == 0
    &&& r.bot_token_file@.len() == 0
    &&& r.base_url@.len() == 0
    &&& r.bot_type@ == DEFAULT_WECHAT_BOT_TYPE@
    &&& !r.streaming_enabled
    &&& !r.message_merge_enabled
    &&& r.message_merge_delay_ms == 0
    &&& r.max_accounts == 20
}

impl Default for WeChatConfig {
    fn default() -> (r: Self)
        ensures
            default_wechat(r),
    {
        WeChatConfig {
            inline_images: false,
            base: BaseChannelConfig::default(),
            bot_token: String::new(),
            bot_token_file: String::new(),
            base_url: String::new(),
            bot_type: DEFAULT_WECHAT_BOT_TYPE.to_owned(),
            streaming_enabled: false,
            message_merge_enabled: false,
            message_merge_delay_ms: 0,
            max_accounts: 20,
        }
    }
}

impl Default for ChannelsConfig {
    fn default() -> (r: Self)
        ensures
            default_telegram(r.telegram),
            default_wechat(r.wechat),
    {
        ChannelsConfig { telegram: TelegramConfig::default(), wechat: WeChatConfig::default() }
    }
}

pub open spec fn default_app(r: AppConfig) -> bool {
    &&& r.data.dir@ == "~/.local/share/im-channel-gateway"@
    &&& r.admin.listen@ == "127.0.0.1:18765"@
    &&& default_agent(r.agent)
    &&& default_telegram(r.channels.telegram)
    &&& default_wechat(r.channels.wechat)
}

impl Default for AppConfig {
    fn default() -> (r: Self)
        ensures
            default_app(r),
    {
        AppConfig {
            data: DataConfig::default(),
            admin: AdminConfig::default(),
            agent: AgentConfig::default(),
            channels: ChannelsConfig::default(),
        }
    }
}

/// The configuration that counts where nothing is set.
pub fn default_config() -> (r: AppConfig)
    ensures
        default_app(r),
{
    AppConfig::default()
}

// ---------------------------------------------------------------------------------------------
// Sandbox names
// ---------------------------------------------------------------------------------------------

/// The spelling of a sandbox mode that the command line uses.
pub open spec fn sandbox_name(s: Seq<char>) -> Seq<char> {
    let t = trimmed(s);
    if t == "readOnly"@ {
        "read-only"@
    } else if t == "workspaceWrite"@ {
        "workspace-write"@
    } else if t == "dangerFullAccess"@ {
        "danger-full-access"@
    } else {
        t
    }
}

/// The spelling of a sandbox mode that the command line uses.
pub fn normalize_codex_sandbox(sandbox: &str) -> (r: String)
    ensures
        r@ == sandbox_name(sandbox@),
{
    let t: &str = trim(sandbox);
    if same(t, "readOnly") {
        "read-only".to_owned()
    } else if same(t, "workspaceWrite") {
        "workspace-write".to_owned()
    } else if same(t, "dangerFullAccess") {
        "danger-full-access".to_owned()
    } else {
        t.to_owned()
    }
}

// ---------------------------------------------------------------------------------------------
// Paths
// ---------------------------------------------------------------------------------------------

/// `dirs::home_dir`: the home directory of the user, as text, where there is one. It depends on
/// the environment of the process, so nothing is claimed of it.
#[verifier::external_body]
fn home_dir() -> (r: Option<String>) {
    dirs::home_dir().map(|p| p.to_string_lossy().into_owned())
}

/// Whether a path names the home directory or something in it.
pub open spec fn in_home(path: Seq<char>) -> bool {
    after_prefix(path, "~/"@) is Some || path == "~"@
}

/// A path with the home directory in the place of a leading tilde; `None` where the path needs
/// a home directory and there is none.
#[verifier::opaque]
pub open spec fn expanded(path: Seq<char>, home: Option<Seq<char>>) -> Option<Seq<char>> {
    match after_prefix(path, "~/"@) {
        Some(rest) => match home {
            Some(h) => Some(path_of(h, rest)),
            None => None,
        },
        None => if path == "~"@ {
            home
        } else {
            Some(path)
        },
    }
}

/// The error where a path needs a home directory and there is none.
pub open spec fn no_home() -> ErrorV {
    ErrorV::Config("cannot resolve home directory"@)
}

/// A path with `home` in the place of a leading tilde.
pub fn expand_tilde_in(path: &str, home: Option<&str>) -> (r: Result<String, GatewayError>)
    ensures
        match r {
            Ok(p) => expanded(path@, home.deep_view()) == Some(p@),
            Err(e) => expanded(path@, home.deep_view()) is None && e@ == no_home(),
        },
{
    reveal(expanded);
    match strip_prefix(path, "~/") {
        Some(rest) => match home {
            Some(h) => Ok(path_join(h, rest)),
            None => Err(GatewayError::Config("cannot resolve home directory".to_owned())),
        },
        None => if same(path, "~") {
            match home {
                Some(h) => Ok(h.to_owned()),
                None => Err(GatewayError::Config("cannot resolve home directory".to_owned())),
            }
        } else {
            Ok(path.to_owned())
        },
    }
}

/// A path with the home directory in the place of a leading tilde. Other paths are handed back
/// as they are; only a path that needs the home directory can fail.
pub fn expand_tilde(path: &str) -> (r: Result<String, GatewayError>)
    ensures
        !in_home(path@) ==> r is Ok,
        match r {
            Ok(p) => exists|h: Option<Seq<char>>| #[trigger] expanded(path@, h) == Some(p@),
            Err(e) => in_home(path@) && e@ == no_home(),
        },
{
    let home: Option<String> = home_dir();
    let h: Option<&str> = match &home {
        Some(s) => Some(s.as_str()),
        None => None,
    };
    reveal(expanded);
    expand_tilde_in(path, h)
}

/// A path that is set, expanded; one that is not set, `d`.
pub open spec fn path_or(path: Seq<char>, d: Seq<char>, home: Option<Seq<char>>) -> Option<
    Seq<char>,
> {
    if path.len() == 0 {
        Some(d)
    } else {
        expanded(path, home)
    }
}

/// A path that is set, expanded; one that is not set, nothing.
pub open spec fn path_or_none(path: Seq<char>, home: Option<Seq<char>>) -> Option<Seq<char>> {
    path_or(path, Seq::empty(), home)
}

fn expand_or(path: &str, d: &str, home: Option<&str>) -> (r: Result<String, GatewayError>)
    ensures
        match r {
            Ok(p) => path_or(path@, d@, home.deep_view()) == Some(p@),
            Err(e) => path_or(path@, d@, home.deep_view()) is None && e@ == no_home(),
        },
{
    if path.is_empty() {
        Ok(d.to_owned())
    } else {
        expand_tilde_in(path, home)
    }
}

fn expand_set(path: &str, home: Option<&str>) -> (r: Result<String, GatewayError>)
    ensures
        match r {
            Ok(p) => path_or_none(path@, home.deep_view()) == Some(p@),
            Err(e) => path_or_none(path@, home.deep_view()) is None && e@ == no_home(),
        },
{
    if path.is_empty() {
        Ok(String::new())
    } else {
        expand_tilde_in(path, home)
    }
}

/// The paths of the channels, in the order in which they are resolved.
#[verifier::ext_equal]
pub struct ChannelPathsV {
    pub token_file: Seq<char>,
    pub telegram_media: Seq<char>,
    pub wechat_media: Seq<char>,
}

/// The paths of the agent, in the order in which they are resolved.
#[verifier::ext_equal]
pub struct AgentPathsV {
    pub workspace: Seq<char>,
    pub runner_cwds: Seq<Seq<char>>,
    pub codex_token_file: Seq<char>,
    pub codex_cwd: Seq<char>,
}

/// The paths of a configuration.
#[verifier::ext_equal]
pub struct PathsV {
    pub data_dir: Seq<char>,
    pub channels: ChannelPathsV,
    pub agent: AgentPathsV,
}

/// The working directories of the runners.
pub open spec fn runner_cwds(t: Seq<(Seq<char>, CliRunnerConfig)>) -> Seq<Seq<char>> {
    t.map_values(|e: (Seq<char>, CliRunnerConfig)| e.1.cwd@)
}

/// The paths of the channels.
pub open spec fn channel_paths(c: ChannelsConfig) -> ChannelPathsV {
    ChannelPathsV {
        token_file: c.wechat.bot_token_file@,
        telegram_media: c.telegram.base.media_dir@,
        wechat_media: c.wechat.base.media_dir@,
    }
}

/// The paths of the agent.
pub open spec fn agent_paths(a: AgentConfig) -> AgentPathsV {
    AgentPathsV {
        workspace: a.security.workspace_root@,
        runner_cwds: runner_cwds(a.runners@),
        codex_token_file: a.codex_app_server.token_file@,
        codex_cwd: a.codex_app_server.default_cwd@,
    }
}

/// The paths of a configuration.
pub open spec fn paths_of(c: AppConfig) -> PathsV {
    PathsV {
        data_dir: c.data.dir@,
        channels: channel_paths(c.channels),
        agent: agent_paths(c.agent),
    }
}

/// Whether each working directory can be expanded.
pub open spec fn cwds_expand(cwds: Seq<Seq<char>>, home: Option<Seq<char>>) -> bool {
    forall|i: int| 0 <= i < cwds.len() ==> path_or_none(#[trigger] cwds[i], home) is Some
}

/// The working directories, expanded.
pub open spec fn cwds_expanded(cwds: Seq<Seq<char>>, home: Option<Seq<char>>) -> Seq<Seq<char>> {
    cwds.map_values(|c: Seq<char>| path_or_none(c, home)->0)
}

/// The paths once they are resolved, and whether all could be: at the first that cannot, those
/// before it are resolved and the rest are left as they were.
pub open spec fn resolved(p: PathsV, home: Option<Seq<char>>) -> (PathsV, bool) {
    match expanded(p.data_dir, home) {
        None => (p, false),
        Some(dir) => {
            let c = resolved_channels(p.channels, dir, home);
            let q = PathsV { data_dir: dir, channels: c.0, agent: p.agent };
            if c.1 {
                let a = resolved_agent(p.agent, dir, home);
                (PathsV { agent: a.0, ..q }, a.1)
            } else {
                (q, false)
            }
        },
    }
}

/// The paths of the channels once they are resolved, and whether all could be.
pub open spec fn resolved_channels(
    p: ChannelPathsV,
    dir: Seq<char>,
    home: Option<Seq<char>>,
) -> (ChannelPathsV, bool) {
    let media = path_of(dir, "media"@);
    match path_or(p.token_file, path_of(dir, "wechat_bot_token"@), home) {
        None => (p, false),
        Some(token_file) => {
            let p1 = ChannelPathsV { token_file: token_file, ..p };
            match path_or(p.telegram_media, path_of(media, "telegram"@), home) {
                None => (p1, false),
                Some(tg) => {
                    let p2 = ChannelPathsV { telegram_media: tg, ..p1 };
                    match path_or(p.wechat_media, path_of(media, "wechat"@), home) {
                        None => (p2, false),
                        Some(wx) => (ChannelPathsV { wechat_media: wx, ..p2 }, true),
                    }
                },
            }
        },
    }
}

/// The paths of the agent once they are resolved, and whether all could be.
pub open spec fn resolved_agent(
    p: AgentPathsV,
    dir: Seq<char>,
    home: Option<Seq<char>>,
) -> (AgentPathsV, bool) {
    match path_or(p.workspace, path_of(dir, "workspaces"@), home) {
        None => (p, false),
        Some(ws) => {
            let p1 = AgentPathsV { workspace: ws, ..p };
            if !cwds_expand(p.runner_cwds, home) {
                (p1, false)
            } else {
                let p2 = AgentPathsV { runner_cwds: cwds_expanded(p.runner_cwds, home), ..p1 };
                match path_or_none(p.codex_token_file, home) {
                    None => (p2, false),
                    Some(t) => {
                        let p3 = AgentPathsV { codex_token_file: t, ..p2 };
                        match path_or_none(p.codex_cwd, home) {
                            None => (p3, false),
                            Some(c) => (AgentPathsV { codex_cwd: c, ..p3 }, true),
                        }
                    },
                }
            }
        },
    }
}

/// Two runners that differ at most in their working directories.
pub open spec fn same_runner_but_cwd(a: CliRunnerConfig, b: CliRunnerConfig) -> bool {
    &&& a.enabled == b.enabled
    &&& a.command == b.command
    &&& a.args == b.args
    &&& a.env == b.env
    &&& a.prompt_via == b.prompt_via
    &&& a.output_profile == b.output_profile
    &&& a.output_strip_from == b.output_strip_from
}

/// Two lists of runners that differ at most in their working directories.
pub open spec fn same_runners_but_cwd(
    a: Seq<(Seq<char>, CliRunnerConfig)>,
    b: Seq<(Seq<char>, CliRunnerConfig)>,
) -> bool {
    &&& a.len() == b.len()
    &&& forall|i: int|
        0 <= i < a.len() ==> (#[trigger] a[i]).0 == b[i].0 && same_runner_but_cwd(a[i].1, b[i].1)
}

pub open spec fn same_base_but_media(a: BaseChannelConfig, b: BaseChannelConfig) -> bool {
    &&& a.enabled == b.enabled
    &&& a.bot_prefix == b.bot_prefix
    &&& a.filter_tool_messages == b.filter_tool_messages
    &&& a.filter_thinking == b.filter_thinking
    &&& a.access_control_dm == b.access_control_dm
    &&& a.access_control_group == b.access_control_group
}

/// Two agent configurations that differ at most in their paths.
pub open spec fn same_agent_but_paths(a: AgentConfig, b: AgentConfig) -> bool {
    &&& a.backend == b.backend
    &&& a.base_url == b.base_url
    &&& a.path == b.path
    &&& a.agent_id == b.agent_id
    &&& a.bearer_token == b.bearer_token
    &&& a.language == b.language
    &&& a.default_runner == b.default_runner
    &&& a.command_prefix == b.command_prefix
    &&& a.require_command_prefix == b.require_command_prefix
    &&& same_runners_but_cwd(a.runners@, b.runners@)
    &&& a.security.allowed_senders == b.security.allowed_senders
    &&& a.security.max_run_secs == b.security.max_run_secs
    &&& a.security.max_output_kb == b.security.max_output_kb
    &&& a.codex_app_server.listen == b.codex_app_server.listen
    &&& a.codex_app_server.model == b.codex_app_server.model
    &&& a.codex_app_server.command_prefix == b.codex_app_server.command_prefix
    &&& a.codex_app_server.sandbox == b.codex_app_server.sandbox
    &&& a.codex_app_server.approval_policy == b.codex_app_server.approval_policy
}

/// Two channel configurations that differ at most in their paths.
pub open spec fn same_channels_but_paths(a: ChannelsConfig, b: ChannelsConfig) -> bool {
    &&& same_base_but_media(a.telegram.base, b.telegram.base)
    &&& a.telegram.bot_token == b.telegram.bot_token
    &&& a.telegram.bot_tokens == b.telegram.bot_tokens
    &&& a.telegram.http_proxy == b.telegram.http_proxy
    &&& a.telegram.http_proxy_auth == b.telegram.http_proxy_auth
    &&& a.telegram.show_typing == b.telegram.show_typing
    &&& a.telegram.streaming_enabled == b.telegram.streaming_enabled
    &&& a.telegram.require_mention == b.telegram.require_mention
    &&& a.telegram.max_accounts == b.telegram.max_accounts
    &&& a.wechat.inline_images == b.wechat.inline_images
    &&& same_base_but_media(a.wechat.base, b.wechat.base)
    &&& a.wechat.bot_token == b.wechat.bot_token
    &&& a.wechat.base_url == b.wechat.base_url
    &&& a.wechat.bot_type == b.wechat.bot_type
    &&& a.wechat.streaming_enabled == b.wechat.streaming_enabled
    &&& a.wechat.message_merge_enabled == b.wechat.message_merge_enabled
    &&& a.wechat.message_merge_delay_ms == b.wechat.message_merge_delay_ms
    &&& a.wechat.max_accounts == b.wechat.max_accounts
}

/// Two configurations that differ at most in their paths.
pub open spec fn same_but_paths(a: AppConfig, b: AppConfig) -> bool {
    &&& a.admin == b.admin
    &&& same_agent_but_paths(a.agent, b.agent)
    &&& same_channels_but_paths(a.channels, b.channels)
}

fn resolve_channel_paths(c: &mut ChannelsConfig, dir: &str, home: Option<&str>) -> (r: Result<
    (),
    GatewayError,
>)
    ensures
        same_channels_but_paths(*old(c), *final(c)),
        (channel_paths(*final(c)), r is Ok) == resolved_channels(
            channel_paths(*old(c)),
            dir@,
            home.deep_view(),
        ),
        r matches Err(e) ==> e@ == no_home(),
{
    let token: String = path_join(dir, "wechat_bot_token");
    let media: String = path_join(dir, "media");
    let tg: String = path_join(media.as_str(), "telegram");
    let wx: String = path_join(media.as_str(), "wechat");
    let t: String = match expand_or(c.wechat.bot_token_file.as_str(), token.as_str(), home) {
        Ok(p) => p,
        Err(e) => {
            return Err(e);
        },
    };
    c.wechat.bot_token_file = t;
    assert(same_channels_but_paths(*old(c), *c));
    let m: String = match expand_or(c.telegram.base.media_dir.as_str(), tg.as_str(), home) {
        Ok(p) => p,
        Err(e) => {
            return Err(e);
        },
    };
    c.telegram.base.media_dir = m;
    assert(same_channels_but_paths(*old(c), *c));
    let w: String = match expand_or(c.wechat.base.media_dir.as_str(), wx.as_str(), home) {
        Ok(p) => p,
        Err(e) => {
            return Err(e);
        },
    };
    c.wechat.base.media_dir = w;
    assert(same_channels_but_paths(*old(c), *c));
    Ok(())
}

fn resolve_agent_paths(a: &mut AgentConfig, dir: &str, home: Option<&str>) -> (r: Result<
    (),
    GatewayError,
>)
    ensures
        same_agent_but_paths(*old(a), *final(a)),
        (agent_paths(*final(a)), r is Ok) == resolved_agent(
            agent_paths(*old(a)),
            dir@,
            home.deep_view(),
        ),
        r matches Err(e) ==> e@ == no_home(),
{
    let ws: String = path_join(dir, "workspaces");
    match expand_or(a.security.workspace_root.as_str(), ws.as_str(), home) {
        Ok(p) => {
            a.security.workspace_root = p;
        },
        Err(e) => {
            return Err(e);
        },
    }
    match resolve_cwds(&mut a.runners, home) {
        Ok(_) => {},
        Err(e) => {
            return Err(e);
        },
    }
    match expand_set(a.codex_app_server.token_file.as_str(), home) {
        Ok(p) => {
            a.codex_app_server.token_file = p;
        },
        Err(e) => {
            return Err(e);
        },
    }
    match expand_set(a.codex_app_server.default_cwd.as_str(), home) {
        Ok(p) => {
            a.codex_app_server.default_cwd = p;
            Ok(())
        },
        Err(e) => Err(e),
    }
}

fn resolve_entry_cwds(es: &mut Vec<(String, CliRunnerConfig)>, home: Option<&str>) -> (r: Result<
    (),
    GatewayError,
>)
    ensures
        same_runners_but_cwd(pairs(old(es)@), pairs(final(es)@)),
        match r {
            Ok(_) => {
                &&& cwds_expand(runner_cwds(pairs(old(es)@)), home.deep_view())
                &&& runner_cwds(pairs(final(es)@)) == cwds_expanded(
                    runner_cwds(pairs(old(es)@)),
                    home.deep_view(),
                )
            },
            Err(e) => {
                &&& !cwds_expand(runner_cwds(pairs(old(es)@)), home.deep_view())
                &&& runner_cwds(pairs(final(es)@)) == runner_cwds(pairs(old(es)@))
                &&& e@ == no_home()
            },
        },
{
    let ghost before = pairs(es@);
    let ghost h = home.deep_view();
    let mut i: usize = 0;
    while i < es.len()
        invariant
            i <= es@.len(),
            h == home.deep_view(),
            before == pairs(old(es)@),
            before.len() == pairs(es@).len(),
            same_runners_but_cwd(before, pairs(es@)),
            forall|k: int|
                0 <= k < i ==> path_or_none(#[trigger] runner_cwds(before)[k], h) == Some(
                    runner_cwds(pairs(es@))[k],
                ),
            forall|k: int|
                i <= k < before.len() ==> #[trigger] runner_cwds(pairs(es@))[k] == runner_cwds(
                    before,
                )[k],
        decreases es@.len() - i,
    {
        let ghost now = pairs(es@);
        assert(runner_cwds(now)[i as int] == es@[i as int].1.cwd@);
        assert(runner_cwds(before)[i as int] == runner_cwds(now)[i as int]);
        match expand_set(es[i].1.cwd.as_str(), home) {
            Ok(p) => {
                es[i].1.cwd = p;
                proof {
                    assert forall|k: int| 0 <= k < now.len() implies (#[trigger] pairs(es@)[k]).0
                        == now[k].0 && same_runner_but_cwd(now[k].1, pairs(es@)[k].1) && (k != i
                        ==> pairs(es@)[k].1.cwd == now[k].1.cwd) by {}
                    assert forall|k: int| 0 <= k < i + 1 implies path_or_none(
                        #[trigger] runner_cwds(before)[k],
                        h,
                    ) == Some(runner_cwds(pairs(es@))[k]) by {
                        if k < i {
                            assert(runner_cwds(pairs(es@))[k] == runner_cwds(now)[k]);
                        }
                    }
                    assert forall|k: int| i + 1 <= k < before.len() implies #[trigger] runner_cwds(
                        pairs(es@),
                    )[k] == runner_cwds(before)[k] by {
                        assert(runner_cwds(pairs(es@))[k] == runner_cwds(now)[k]);
                    }
                    assert forall|k: int| 0 <= k < before.len() implies (#[trigger] before[k]).0
                        == pairs(es@)[k].0 && same_runner_but_cwd(before[k].1, pairs(es@)[k].1) by {
                        assert(now[k].0 == pairs(es@)[k].0);
                    }
                }
            },
            Err(e) => {
                proof {
                    reveal(expanded);
                    assert(h is None);
                    assert(!cwds_expand(runner_cwds(before), h));
                    assert forall|k: int| 0 <= k < before.len() implies #[trigger] runner_cwds(
                        pairs(es@),
                    )[k] == runner_cwds(before)[k] by {
                        if k < i {
                            assert(path_or_none(runner_cwds(before)[k], h) == Some(
                                runner_cwds(pairs(es@))[k],
                            ));
                        }
                    }
                    assert(runner_cwds(pairs(es@)) =~= runner_cwds(before));
                }
                return Err(e);
            },
        }
        i = i + 1;
    }
    assert(runner_cwds(pairs(es@)) =~= cwds_expanded(runner_cwds(before), h));
    Ok(())
}

fn resolve_cwds(runners: &mut Table<CliRunnerConfig>, home: Option<&str>) -> (r: Result<
    (),
    GatewayError,
>)
    ensures
        same_runners_but_cwd(old(runners)@, final(runners)@),
        match r {
            Ok(_) => {
                &&& cwds_expand(runner_cwds(old(runners)@), home.deep_view())
                &&& runner_cwds(final(runners)@) == cwds_expanded(
                    runner_cwds(old(runners)@),
                    home.deep_view(),
                )
            },
            Err(e) => {
                &&& !cwds_expand(runner_cwds(old(runners)@), home.deep_view())
                &&& runner_cwds(final(runners)@) == runner_cwds(old(runners)@)
                &&& e@ == no_home()
            },
        },
{
    let mut taken: Table<CliRunnerConfig> = Table::new();
    std::mem::swap(&mut taken, runners);
    let mut es: Vec<(String, CliRunnerConfig)> = taken.into_entries();
    let ghost before = pairs(es@);
    let r: Result<(), GatewayError> = resolve_entry_cwds(&mut es, home);
    assert(keys_differ(pairs(es@))) by {
        assert forall|a: int, b: int| 0 <= a < b < before.len() implies (#[trigger] pairs(es@)[a]).0
            != (#[trigger] pairs(es@)[b]).0 by {
            assert(before[a].0 != before[b].0);
        }
    }
    *runners = Table::from_entries(es);
    r
}

impl AppConfig {
    /// Resolves every path: a leading tilde stands for `home`, and paths that are not set are
    /// placed under the data directory.
    pub fn resolve_paths_in(&mut self, home: Option<&str>) -> (r: Result<(), GatewayError>)
        ensures
            same_but_paths(*old(self), *final(self)),
            paths_of(*final(self)) == resolved(paths_of(*old(self)), home.deep_view()).0,
            match r {
                Ok(_) => resolved(paths_of(*old(self)), home.deep_view()).1,
                Err(e) => !resolved(paths_of(*old(self)), home.deep_view()).1 && e@ == no_home(),
            },
    {
        match expand_tilde_in(self.data.dir.as_str(), home) {
            Ok(p) => {
                self.data.dir = p;
            },
            Err(e) => {
                return Err(e);
            },
        }
        match resolve_channel_paths(&mut self.channels, self.data.dir.as_str(), home) {
            Ok(_) => {},
            Err(e) => {
                return Err(e);
            },
        }
        resolve_agent_paths(&mut self.agent, self.data.dir.as_str(), home)
    }

    /// Resolves every path, with the home directory of the user.
    pub fn resolve_paths(&mut self) -> (r: Result<(), GatewayError>)
        ensures
            same_but_paths(*old(self), *final(self)),
            exists|home: Option<Seq<char>>|
                {
                    &&& paths_of(*final(self)) == (#[trigger] resolved(
                        paths_of(*old(self)),
                        home,
                    )).0
                    &&& match r {
                        Ok(_) => resolved(paths_of(*old(self)), home).1,
                        Err(e) => !resolved(paths_of(*old(self)), home).1 && e@ == no_home(),
                    }
                },
    {
        let home: Option<String> = home_dir();
        let h: Option<&str> = match &home {
            Some(s) => Some(s.as_str()),
            None => None,
        };
        self.resolve_paths_in(h)
    }

    /// The directory in which the gateway keeps its files.
    pub fn data_path(&self) -> (r: String)
        ensures
            r@ == self.data.dir@,
    {
        self.data.dir.clone()
    }
}

/// With a home directory, every path can be resolved.
pub proof fn resolving_succeeds_at_home(p: PathsV, home: Seq<char>)
    ensures
        resolved(p, Some(home)).1,
{
    reveal(expanded);
}

// ---------------------------------------------------------------------------------------------
// Access control of a channel
// ---------------------------------------------------------------------------------------------

/// Whether `id` is the channel `base` or one of its accounts.
pub open spec fn belongs_to(id: Seq<char>, base: Seq<char>) -> bool {
    id == base || crate::strs::begins(id, base + ":"@)
}

/// Whether access control is on for direct messages and for groups of a channel.
pub open spec fn acl_flags_of(c: ChannelsConfig, channel_id: Seq<char>) -> (bool, bool) {
    if belongs_to(channel_id, "telegram"@) {
        (c.telegram.base.access_control_dm, c.telegram.base.access_control_group)
    } else if belongs_to(channel_id, "wechat"@) {
        (c.wechat.base.access_control_dm, c.wechat.base.access_control_group)
    } else {
        (false, false)
    }
}

/// Whether `id` is the channel `base` or one of its accounts.
pub fn belongs(id: &str, base: &str) -> (r: bool)
    ensures
        r == belongs_to(id@, base@),
{
    let p: String = crate::strs::concat2(base, ":");
    same(id, base) || crate::strs::starts_with(id, p.as_str())
}

impl ChannelsConfig {
    /// Whether access control is on for direct messages and for groups of a channel.
    pub fn acl_flags(&self, channel_id: &str) -> (r: (bool, bool))
        ensures
            r == acl_flags_of(*self, channel_id@),
    {
        if belongs(channel_id, "telegram") {
            (self.telegram.base.access_control_dm, self.telegram.base.access_control_group)
        } else if belongs(channel_id, "wechat") {
            (self.wechat.base.access_control_dm, self.wechat.base.access_control_group)
        } else {
            (false, false)
        }
    }
}

// ---------------------------------------------------------------------------------------------
// Where the configuration is
// ---------------------------------------------------------------------------------------------

/// Where the configuration is: where the caller says, else where the environment says, else in the
/// working directory, else in the directory of the user's configuration. `user_path` is the file in
/// that directory, where there is one.
pub open spec fn config_path(
    path: Option<Seq<char>>,
    env_path: Option<Seq<char>>,
    local_is_file: bool,
    user_path: Option<Seq<char>>,
) -> Result<Seq<char>, ErrorV> {
    match path {
        Some(p) => Ok(p),
        None => if env_path is Some && env_path->0.len() > 0 {
            Ok(env_path->0)
        } else if local_is_file {
            Ok("config.toml"@)
        } else {
            match user_path {
                Some(p) => Ok(p),
                None => Err(
                    ErrorV::Config(
                        "no config.toml found; run `im-channel-gateway init` or set IM_GATEWAY_CONFIG"@,
                    ),
                ),
            }
        },
    }
}

/// Where the configuration is.
pub fn resolve_config_path(
    path: Option<&str>,
    env_path: Option<&str>,
    local_is_file: bool,
    user_path: Option<&str>,
) -> (r: Result<String, GatewayError>)
    ensures
        config_path(
            path.deep_view(),
            env_path.deep_view(),
            local_is_file,
            user_path.deep_view(),
        ) == (match r {
            Ok(p) => Ok::<Seq<char>, ErrorV>(p@),
            Err(e) => Err::<Seq<char>, ErrorV>(e@),
        }),
{
    if let Some(p) = path {
        return Ok(p.to_owned());
    }
    if let Some(p) = env_path {
        if !p.is_empty() {
            return Ok(p.to_owned());
        }
    }
    if local_is_file {
        return Ok("config.toml".to_owned());
    }
    match user_path {
        Some(p) => Ok(p.to_owned()),
        None => Err(
            GatewayError::Config(
                "no config.toml found; run `im-channel-gateway init` or set IM_GATEWAY_CONFIG".to_owned(),
            ),
        ),
    }
}

} // verus!
