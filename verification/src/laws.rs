//! Laws of what all parts of the gateway share: its configuration, its texts and addresses, and what its
//! admin interface lets pass and tells.

use vstd::prelude::*;

use crate::admin_api::{
    changed, code_body, code_image, code_payload, failed_status, is_open, login_next, may_pass,
    new_session, open_sessions, plain_status, requested, status_body, status_step, supplied_token, with_login,
    LoginNextV, SessionV, StatusStepV,
};
use crate::codec::{base64_text, padded_len, query_byte, query_bytes, query_text};
use crate::config::{
    acl_flags_of, blank_runner, config_path, default_app, expanded, in_home, paths_of, resolved,
    same_but_paths, sandbox_name, AgentPathsV, AppConfig, ChannelPathsV, ChannelsConfig,
    CliPromptVia, CliRunnerConfig, PathsV,
};
use crate::error::ErrorV;
use crate::ids::is_small_hex;
use crate::json::{field, text_field, JsonV};
use crate::paths::{
    bare, extension_of, file_name_of, joined_paths_lead_into_the_directory, path_of,
};
use crate::platforms::telegram::inbound::mention_pattern;
use crate::platforms::telegram::media::{is_local_name, suffix_of};
use crate::platforms::wechat::login::{login_status, qr_of, QrV, StatusV};
use crate::platforms::wechat::qr_terminal::{base64_payload, bot_type_or_default, scan_url};
use crate::regexes::escaped_pattern;
use crate::strs::{
    ascii_lowered, begins, byte_len, first_chars, free_of, is_ws, last_at, last_at_to_is_last,
    occurs_at, stripped_end, stripped_start, trimmed, words_of, ws_from,
};
use crate::table::{first_entry, lookup, with_entry_lookup};
use crate::text::{fitting, line_end, preview_of, sentence_end, window_cut};
use crate::urls::{leads_to_media, UrlV};

verus! {

/// A text without white space at its ends.
pub open spec fn is_tight(t: Seq<char>) -> bool {
    t.len() > 0 && !is_ws(t[0]) && !is_ws(t.last())
}

proof fn tight_stays(t: Seq<char>)
    requires
        is_tight(t),
    ensures
        trimmed(t) == t,
{
}

// ---------------------------------------------------------------------------------------------
// Configuration
// ---------------------------------------------------------------------------------------------

/// Without a configuration nothing is open to anyone but this machine: no channel is enabled, the
/// agent repeats what it hears, commands run in a sandbox, and both interfaces listen here only.
pub proof fn defaults_are_modest(r: AppConfig)
    requires
        default_app(r),
    ensures
        r.agent.backend@ == "echo"@,
        r.agent.base_url@ == "http://127.0.0.1:8088"@,
        r.agent.path@ == "/api/agent/process"@,
        r.agent.agent_id@ == "default"@,
        r.agent.bearer_token@.len() == 0,
        r.agent.language@ == "zh"@,
        r.agent.runners@.len() == 0,
        r.agent.command_prefix@ == "/"@,
        r.agent.security.allowed_senders@.len() == 0,
        r.agent.security.max_run_secs == 600,
        r.agent.security.max_output_kb == 512,
        r.agent.codex_app_server.listen@ == "ws://127.0.0.1:4500"@,
        r.agent.codex_app_server.sandbox@ == "workspace-write"@,
        r.agent.codex_app_server.approval_policy@ == "never"@,
        r.agent.codex_app_server.command_prefix@ == "/"@,
        r.admin.listen@ == "127.0.0.1:18765"@,
        r.data.dir@ == "~/.local/share/im-channel-gateway"@,
        !r.channels.telegram.base.enabled,
        !r.channels.wechat.base.enabled,
        !r.channels.telegram.base.access_control_dm,
        !r.channels.wechat.base.access_control_dm,
        !r.channels.telegram.base.access_control_group,
        !r.channels.wechat.base.access_control_group,
        r.channels.telegram.show_typing,
        !r.channels.telegram.require_mention,
        !r.channels.telegram.streaming_enabled,
        !r.channels.wechat.streaming_enabled,
        r.channels.telegram.max_accounts == 20,
        r.channels.wechat.max_accounts == 20,
        r.channels.wechat.bot_type@ == "3"@,
        !r.channels.wechat.inline_images,
{
}

/// Resolving paths changes paths and nothing else.
pub proof fn resolving_changes_paths_only(a: AppConfig, b: AppConfig)
    requires
        same_but_paths(a, b),
    ensures
        a.admin.listen == b.admin.listen,
        a.agent.backend == b.agent.backend,
        a.agent.base_url == b.agent.base_url,
        a.agent.path == b.agent.path,
        a.agent.agent_id == b.agent.agent_id,
        a.agent.bearer_token == b.agent.bearer_token,
        a.agent.language == b.agent.language,
        a.agent.default_runner == b.agent.default_runner,
        a.agent.command_prefix == b.agent.command_prefix,
        a.agent.require_command_prefix == b.agent.require_command_prefix,
        a.agent.runners@.len() == b.agent.runners@.len(),
        forall|i: int|
            0 <= i < a.agent.runners@.len() ==> (#[trigger] a.agent.runners@[i]).0
                == b.agent.runners@[i].0 && a.agent.runners@[i].1.enabled
                == b.agent.runners@[i].1.enabled && a.agent.runners@[i].1.command
                == b.agent.runners@[i].1.command && a.agent.runners@[i].1.args
                == b.agent.runners@[i].1.args && a.agent.runners@[i].1.env
                == b.agent.runners@[i].1.env && a.agent.runners@[i].1.prompt_via
                == b.agent.runners@[i].1.prompt_via,
        a.agent.security.allowed_senders == b.agent.security.allowed_senders,
        a.agent.security.max_run_secs == b.agent.security.max_run_secs,
        a.agent.security.max_output_kb == b.agent.security.max_output_kb,
        a.agent.codex_app_server.listen == b.agent.codex_app_server.listen,
        a.agent.codex_app_server.model == b.agent.codex_app_server.model,
        a.agent.codex_app_server.command_prefix == b.agent.codex_app_server.command_prefix,
        a.agent.codex_app_server.sandbox == b.agent.codex_app_server.sandbox,
        a.agent.codex_app_server.approval_policy == b.agent.codex_app_server.approval_policy,
        a.channels.telegram.base.enabled == b.channels.telegram.base.enabled,
        a.channels.telegram.base.bot_prefix == b.channels.telegram.base.bot_prefix,
        a.channels.telegram.base.access_control_dm == b.channels.telegram.base.access_control_dm,
        a.channels.telegram.base.access_control_group
            == b.channels.telegram.base.access_control_group,
        a.channels.telegram.bot_token == b.channels.telegram.bot_token,
        a.channels.telegram.bot_tokens == b.channels.telegram.bot_tokens,
        a.channels.telegram.http_proxy == b.channels.telegram.http_proxy,
        a.channels.telegram.require_mention == b.channels.telegram.require_mention,
        a.channels.telegram.max_accounts == b.channels.telegram.max_accounts,
        a.channels.wechat.base.enabled == b.channels.wechat.base.enabled,
        a.channels.wechat.base.bot_prefix == b.channels.wechat.base.bot_prefix,
        a.channels.wechat.base.access_control_dm == b.channels.wechat.base.access_control_dm,
        a.channels.wechat.base.access_control_group == b.channels.wechat.base.access_control_group,
        a.channels.wechat.bot_token == b.channels.wechat.bot_token,
        a.channels.wechat.base_url == b.channels.wechat.base_url,
        a.channels.wechat.bot_type == b.channels.wechat.bot_type,
        a.channels.wechat.max_accounts == b.channels.wechat.max_accounts,
        a.channels.wechat.inline_images == b.channels.wechat.inline_images,
{
}

/// A path that begins at home leads below the home directory, and any other stays as it is; without
/// a home directory the first kind leads nowhere.
pub proof fn paths_begin_at_home(rest: Seq<char>, path: Seq<char>, home: Seq<char>)
    ensures
        expanded("~/"@ + rest, Some(home)) == Some(path_of(home, rest)),
        expanded("~/"@ + rest, None) is None,
        expanded("~"@, Some(home)) == Some(home),
        path.len() > 0 && path[0] != '~' ==> expanded(path, Some(home)) == Some(path) && expanded(
            path,
            None,
        ) == Some(path),
        in_home("~/"@ + rest),
        path.len() > 0 && path[0] != '~' ==> !in_home(path),
{
    reveal(expanded);
    reveal_strlit("~/");
    reveal_strlit("~");
    let a = "~/"@ + rest;
    assert(a.take(2) =~= "~/"@);
    assert(a.skip(2) =~= rest);
    assert(!begins("~"@, "~/"@));
    if path.len() > 0 && path[0] != '~' {
        assert(path.len() >= 2 ==> path.take(2)[0] == path[0]);
        assert(path != "~"@) by {
            assert("~"@[0] == '~');
        }
    }
}

/// Paths that are not set lie below the directory of the gateway, and paths that are set are kept.
pub proof fn unset_paths_lie_below_the_directory(p: PathsV, dir: Seq<char>, set: Seq<char>)
    requires
        p.data_dir == dir,
        dir.len() > 0,
        dir[0] == '/',
        dir.last() != '/',
        set.len() > 0,
        set[0] == '/',
        p.agent.runner_cwds.len() == 0,
        p.agent.codex_token_file.len() == 0,
        p.agent.codex_cwd.len() == 0,
        p.channels.token_file.len() == 0,
        p.channels.wechat_media.len() == 0,
    ensures
        ({
            let r = resolved(p, None);
            &&& p.channels.telegram_media.len() == 0 && p.agent.workspace.len() == 0 ==> r.1 && r.0
                == (PathsV {
                data_dir: dir,
                channels: ChannelPathsV {
                    token_file: dir.push('/') + "wechat_bot_token"@,
                    telegram_media: dir.push('/') + "media"@.push('/') + "telegram"@,
                    wechat_media: dir.push('/') + "media"@.push('/') + "wechat"@,
                },
                agent: AgentPathsV {
                    workspace: dir.push('/') + "workspaces"@,
                    runner_cwds: Seq::empty(),
                    codex_token_file: Seq::empty(),
                    codex_cwd: Seq::empty(),
                },
            })
            &&& p.channels.telegram_media == set && p.agent.workspace == set ==> r.1
                && r.0.channels.telegram_media == set && r.0.agent.workspace == set && r.0.data_dir
                == dir
        }),
{
    reveal_strlit("media");
    reveal_strlit("telegram");
    reveal_strlit("wechat");
    reveal_strlit("workspaces");
    reveal_strlit("wechat_bot_token");
    let home: Seq<char> = Seq::empty();
    paths_begin_at_home(home, dir, home);
    paths_begin_at_home(home, set, home);
    let media = path_of(dir, "media"@);
    joined_paths_lead_into_the_directory(dir, "media"@);
    joined_paths_lead_into_the_directory(dir, "wechat_bot_token"@);
    joined_paths_lead_into_the_directory(dir, "workspaces"@);
    assert(media == dir.push('/') + "media"@);
    assert(media.last() == 'a');
    joined_paths_lead_into_the_directory(media, "telegram"@);
    joined_paths_lead_into_the_directory(media, "wechat"@);
    assert(media.push('/') + "telegram"@ =~= dir.push('/') + "media"@.push('/') + "telegram"@);
    assert(media.push('/') + "wechat"@ =~= dir.push('/') + "media"@.push('/') + "wechat"@);
    assert(p.agent.runner_cwds =~= Seq::<Seq<char>>::empty());
    assert(crate::config::cwds_expanded(p.agent.runner_cwds, None) =~= Seq::<Seq<char>>::empty());
    assert(p.agent.codex_token_file =~= Seq::<char>::empty());
    assert(p.agent.codex_cwd =~= Seq::<char>::empty());
}

/// A sandbox goes by either of its names.
pub proof fn sandboxes_go_by_either_name()
    ensures
        sandbox_name("readOnly"@) == "read-only"@,
        sandbox_name("read-only"@) == "read-only"@,
        sandbox_name("workspaceWrite"@) == "workspace-write"@,
        sandbox_name("workspace-write"@) == "workspace-write"@,
        sandbox_name("dangerFullAccess"@) == "danger-full-access"@,
        sandbox_name("danger-full-access"@) == "danger-full-access"@,
{
    reveal_strlit("readOnly");
    reveal_strlit("read-only");
    reveal_strlit("workspaceWrite");
    reveal_strlit("workspace-write");
    reveal_strlit("dangerFullAccess");
    reveal_strlit("danger-full-access");
    assert("readOnly"@.len() != "read-only"@.len());
    assert("readOnly"@.len() != "workspaceWrite"@.len());
    assert("readOnly"@.len() != "workspace-write"@.len());
    assert("readOnly"@.len() != "dangerFullAccess"@.len());
    assert("readOnly"@.len() != "danger-full-access"@.len());
    assert("read-only"@.len() != "workspaceWrite"@.len());
    assert("read-only"@.len() != "workspace-write"@.len());
    assert("read-only"@.len() != "dangerFullAccess"@.len());
    assert("read-only"@.len() != "danger-full-access"@.len());
    assert("workspaceWrite"@.len() != "workspace-write"@.len());
    assert("workspaceWrite"@.len() != "dangerFullAccess"@.len());
    assert("workspaceWrite"@.len() != "danger-full-access"@.len());
    assert("workspace-write"@.len() != "dangerFullAccess"@.len());
    assert("workspace-write"@.len() != "danger-full-access"@.len());
    assert("dangerFullAccess"@.len() != "danger-full-access"@.len());
    tight_stays("readOnly"@);
    tight_stays("read-only"@);
    tight_stays("workspaceWrite"@);
    tight_stays("workspace-write"@);
    tight_stays("dangerFullAccess"@);
    tight_stays("danger-full-access"@);
}

/// Access control is that of the platform, for each of its accounts and for no other channel.
pub proof fn access_control_is_that_of_the_platform(c: ChannelsConfig, id: Seq<char>)
    ensures
        acl_flags_of(c, "telegram"@) == (
            c.telegram.base.access_control_dm,
            c.telegram.base.access_control_group,
        ),
        acl_flags_of(c, "telegram:"@ + id) == (
            c.telegram.base.access_control_dm,
            c.telegram.base.access_control_group,
        ),
        acl_flags_of(c, "wechat"@) == (
            c.wechat.base.access_control_dm,
            c.wechat.base.access_control_group,
        ),
        acl_flags_of(c, "wechat:"@ + id) == (
            c.wechat.base.access_control_dm,
            c.wechat.base.access_control_group,
        ),
        id.len() > 0 && id[0] != 't' && id[0] != 'w' ==> acl_flags_of(c, id) == (false, false),
{
    reveal_strlit("telegram");
    reveal_strlit("wechat");
    reveal_strlit("telegram:");
    reveal_strlit("wechat:");
    reveal_strlit(":");
    let t = "telegram"@ + ":"@;
    let w = "wechat"@ + ":"@;
    assert(t =~= "telegram:"@);
    assert(w =~= "wechat:"@);
    let a = "telegram:"@ + id;
    let b = "wechat:"@ + id;
    assert(a.take(9) =~= t);
    assert(b.take(7) =~= w);
    assert(b[0] == 'w' && t[0] == 't' && "telegram"@[0] == 't' && "wechat"@[0] == 'w' && w[0] == 'w');
    assert(b.len() >= 9 ==> b.take(9)[0] == 'w');
    assert(b != "telegram"@);
    assert("wechat"@ != "telegram"@);
    assert(!begins("wechat"@, t));
    if id.len() > 0 && id[0] != 't' && id[0] != 'w' {
        assert(id.len() >= 9 ==> id.take(9)[0] == id[0]);
        assert(id.len() >= 7 ==> id.take(7)[0] == id[0]);
    }
}

/// The configuration is looked for where one was told to, then where the environment says, then
/// here, and then with the user.
pub proof fn configuration_is_looked_for_in_order(p: Seq<char>, e: Option<Seq<char>>, local: bool, u: Option<Seq<char>>)
    requires
        p.len() > 0,
    ensures
        config_path(Some(p), e, local, u) == Ok::<Seq<char>, ErrorV>(p),
        config_path(None, Some(p), local, u) == Ok::<Seq<char>, ErrorV>(p),
        config_path(None, None, true, u) == Ok::<Seq<char>, ErrorV>("config.toml"@),
        config_path(None, None, false, Some(p)) == Ok::<Seq<char>, ErrorV>(p),
        config_path(None, None, false, None) is Err,
{
}

// ---------------------------------------------------------------------------------------------
// Texts
// ---------------------------------------------------------------------------------------------

/// A text is cut behind the last paragraph that fits, or else behind the last line, so that a chunk
/// ends where something ends.
pub proof fn texts_are_cut_where_something_ends(w: Seq<char>, max: nat, i: int)
    ensures
        occurs_at(w, seq!['\n', '\n'], i) ==> {
            let e = window_cut(w, max);
            i + 2 <= e <= w.len() && e >= 2 && w[e - 1] == '\n' && w[e - 2] == '\n'
        },
        last_at(w, seq!['\n', '\n']) is None && occurs_at(w, seq!['\n'], i) ==> {
            let e = window_cut(w, max);
            i + 1 <= e <= w.len() && w[e - 1] == '\n'
        },
        occurs_at(w, seq!['\n'], i) ==> i + 1 <= line_end(w) <= w.len() && w[line_end(w) - 1] == '\n',
        last_at(w, seq!['\n']) is None ==> line_end(w) == w.len(),
{
    let two = seq!['\n', '\n'];
    let one = seq!['\n'];
    last_at_to_is_last(w, two, w.len() - 2);
    last_at_to_is_last(w, one, w.len() - 1);
    match last_at(w, two) {
        Some(k) => {
            assert(w.subrange(k, k + 2)[0] == w[k]);
            assert(w.subrange(k, k + 2)[1] == w[k + 1]);
        },
        None => {},
    }
    match last_at(w, one) {
        Some(k) => {
            assert(w.subrange(k, k + 1)[0] == w[k]);
        },
        None => {},
    }
}

/// A sentence ends behind a mark that ends one.
pub proof fn sentences_end_behind_their_mark(w: Seq<char>, i: int)
    ensures
        0 <= i < w.len() && (w[i] == '.' || w[i] == '!' || w[i] == '?' || w[i] == ';' || w[i] == '。' || w[i]
            == '！' || w[i] == '？') ==> sentence_end(w) >= i + 1,
        0 <= sentence_end(w) <= w.len(),
        sentence_end(w) > 0 ==> ({
            let c = w[sentence_end(w) - 1];
            c == '.' || c == '!' || c == '?' || c == ';' || c == '。' || c == '！' || c == '？' || c == '…' || c
                == '．' || c == '；'
        }),
    decreases w.len(),
{
    if w.len() > 0 {
        sentences_end_behind_their_mark(w.drop_last(), i);
    }
}

/// A short text is shown whole.
pub proof fn short_texts_are_shown_whole(s: Seq<char>, max: nat)
    ensures
        s.len() <= max ==> preview_of(s, max) == s,
        s.len() > max ==> preview_of(s, max).last() == '…' && begins(s, preview_of(s, max).drop_last()),
{
    reveal_strlit("…");
    if s.len() > max {
        crate::text::fitting_is_longest(s, max as int);
        let n = fitting(s, max as int);
        assert(preview_of(s, max).drop_last() =~= s.take(n));
    }
}

/// In an address plain letters and digits stand for themselves, and any other byte is written in
/// hexadecimal digits.
pub proof fn addresses_are_written_in_plain_bytes(bytes: Seq<u8>, b: u8)
    ensures
        query_bytes(bytes.push(b)) == query_bytes(bytes) + query_byte(b),
        query_bytes(Seq::empty()).len() == 0,
        0x30 <= b <= 0x39 || 0x41 <= b <= 0x5a || 0x61 <= b <= 0x7a ==> query_byte(b) == seq![b as char],
        b == 0x20 ==> query_byte(b) == seq!['%', '2', '0'],
        b == 0x2f ==> query_byte(b) == seq!['%', '2', 'F'],
        b == 0x26 ==> query_byte(b) == seq!['%', '2', '6'],
        b >= 0x80 ==> query_byte(b).len() == 3 && query_byte(b)[0] == '%',
{
    assert(bytes.push(b).drop_last() =~= bytes);
    assert(bytes.push(b).last() == b);
    if b == 0x20 {
        assert(query_byte(b) =~= seq!['%', '2', '0']);
    }
    if b == 0x2f {
        assert(query_byte(b) =~= seq!['%', '2', 'F']);
    }
    if b == 0x26 {
        assert(query_byte(b) =~= seq!['%', '2', '6']);
    }
}

/// Media is fetched from its host alone, over an encrypted connection and without a password.
pub proof fn media_has_one_host(u: UrlV)
    ensures
        leads_to_media(u) ==> u.scheme == "https"@ && u.host == Some("novac2c.cdn.weixin.qq.com"@)
            && u.port is None && u.username.len() == 0 && u.password is None,
        u.scheme == "https"@ && u.host == Some("novac2c.cdn.weixin.qq.com"@) && u.port is None
            && u.username.len() == 0 && u.password is None ==> leads_to_media(u),
{
}

// ---------------------------------------------------------------------------------------------
// The admin interface
// ---------------------------------------------------------------------------------------------

/// Whoever presents the token passes, where it is long enough; where it is not, nobody does.
pub proof fn bearers_of_the_token_pass(token: Seq<char>, header: Option<Seq<char>>, h: Seq<char>)
    ensures
        supplied_token(Some("Bearer "@ + token)) == token,
        byte_len(token) >= 32 ==> may_pass(token, Some("Bearer "@ + token)),
        byte_len(token) < 32 ==> !may_pass(token, header),
        h.len() > 0 && h[0] != 'B' ==> supplied_token(Some(h)).len() == 0,
        supplied_token(None).len() == 0,
{
    reveal_strlit("Bearer ");
    let b = "Bearer "@ + token;
    assert(b.take(7) =~= "Bearer "@);
    assert(b.skip(7) =~= token);
    if h.len() > 0 && h[0] != 'B' && begins(h, "Bearer "@) {
        assert(h.take(7)[0] == 'B');
    }
}

/// A login is open for five minutes.
pub proof fn logins_are_open_for_five_minutes(s: SessionV, now: u64)
    ensures
        is_open(s, now) <==> now < s.created_at + 300_000,
{
}

/// What the interface answers names the account, the session and the state.
pub proof fn answers_name_the_account(
    status: Seq<char>,
    id: Seq<char>,
    user: Option<Seq<char>>,
    account: Option<Seq<char>>,
    base: Option<Seq<char>>,
    bot: Option<Seq<char>>,
)
    ensures
        text_field(changed(status, id), "status"@) == Some(status),
        text_field(changed(status, id), "account_id"@) == Some(id),
        text_field(plain_status(status), "status"@) == Some(status),
        text_field(failed_status(status), "status"@) == Some("error"@),
        text_field(failed_status(status), "error"@) == Some(status),
        ({
            let v = status_body(user, status, id, account, base, bot);
            &&& text_field(v, "status"@) == Some(status)
            &&& text_field(v, "qr_session_id"@) == Some(id)
            &&& text_field(v, "user_id"@) == user
            &&& text_field(v, "account_id"@) == account
            &&& text_field(v, "base_url"@) == base
            &&& text_field(v, "bot_user_id"@) == bot
            &&& v->Object_0.len() == 6
        }),
{
    reveal_strlit("user_id");
    reveal_strlit("status");
    reveal_strlit("qr_session_id");
    reveal_strlit("account_id");
    reveal_strlit("base_url");
    reveal_strlit("bot_user_id");
    reveal_strlit("error");
    assert("user_id"@.len() != "status"@.len());
    assert("user_id"@.len() != "qr_session_id"@.len());
    assert("user_id"@.len() != "account_id"@.len());
    assert("user_id"@.len() != "base_url"@.len());
    assert("user_id"@.len() != "bot_user_id"@.len());
    assert("user_id"@.len() != "error"@.len());
    assert("status"@.len() != "qr_session_id"@.len());
    assert("status"@.len() != "account_id"@.len());
    assert("status"@.len() != "base_url"@.len());
    assert("status"@.len() != "bot_user_id"@.len());
    assert("status"@.len() != "error"@.len());
    assert("qr_session_id"@.len() != "account_id"@.len());
    assert("qr_session_id"@.len() != "base_url"@.len());
    assert("qr_session_id"@.len() != "bot_user_id"@.len());
    assert("qr_session_id"@.len() != "error"@.len());
    assert("account_id"@.len() != "base_url"@.len());
    assert("account_id"@.len() != "bot_user_id"@.len());
    assert("account_id"@.len() != "error"@.len());
    assert("base_url"@.len() != "bot_user_id"@.len());
    assert("base_url"@.len() != "error"@.len());
    assert("bot_user_id"@.len() != "error"@.len());
    let c = changed(status, id)->Object_0;
    assert(c[0].0 == "status"@ && c[1].0 == "account_id"@);
    first_entry(c, "status"@, 0);
    first_entry(c, "account_id"@, 1);
    first_entry(plain_status(status)->Object_0, "status"@, 0);
    let f = failed_status(status)->Object_0;
    assert(f[0].0 == "status"@ && f[1].0 == "error"@);
    first_entry(f, "status"@, 0);
    first_entry(f, "error"@, 1);
    let m = status_body(user, status, id, account, base, bot)->Object_0;
    assert(m[0].0 == "user_id"@);
    assert(m[1].0 == "status"@);
    assert(m[2].0 == "qr_session_id"@);
    assert(m[3].0 == "account_id"@);
    assert(m[4].0 == "base_url"@);
    assert(m[5].0 == "bot_user_id"@);
    first_entry(m, "user_id"@, 0);
    first_entry(m, "status"@, 1);
    first_entry(m, "qr_session_id"@, 2);
    first_entry(m, "account_id"@, 3);
    first_entry(m, "base_url"@, 4);
    first_entry(m, "bot_user_id"@, 5);
}

/// A login is asked after under its id; alone it needs none. One that is open and not done yet is
/// asked about with its own code, and one that is done names its account.
pub proof fn logins_are_asked_after(
    m: Seq<(Seq<char>, SessionV)>,
    id: Seq<char>,
    s: SessionV,
    now: u64,
    account: Seq<char>,
)
    requires
        is_tight(id),
    ensures
        lookup(m, id) == Some(s) ==> requested(m, Some(id), None) == Ok::<Option<Seq<char>>, Seq<char>>(
            Some(id),
        ) && requested(m, None, Some(id)) == Ok::<Option<Seq<char>>, Seq<char>>(Some(id)),
        lookup(m, id) is None ==> requested(m, Some(id), None) is Err,
        requested(seq![(id, s)], None, None) == Ok::<Option<Seq<char>>, Seq<char>>(Some(id)),
        requested(Seq::empty(), None, None) == Ok::<Option<Seq<char>>, Seq<char>>(None),
        lookup(m, id) == Some(s) && now < s.created_at + 300_000 && s.account_id is None
            ==> status_step(m, Some(id), None, now) == (StatusStepV::Poll {
            qr_session_id: id,
            qrcode: s.qr.qrcode,
        }),
        lookup(m, id) == Some(s) && now < s.created_at + 300_000 && s.account_id == Some(account)
            ==> (status_step(m, Some(id), None, now) matches StatusStepV::Answer(v) && text_field(
            v,
            "status"@,
        ) == Some("confirmed"@) && text_field(v, "account_id"@) == Some(account)),
        lookup(m, id) == Some(s) && now >= s.created_at + 300_000 ==> (status_step(
            m,
            Some(id),
            None,
            now,
        ) matches StatusStepV::Answer(v) && text_field(v, "status"@) == Some("expired"@)),
{
    tight_stays(id);
    answers_name_the_account("confirmed"@, id, s.user_id, s.account_id, s.base_url, s.bot_user_id);
    answers_name_the_account("expired"@, id, None, None, None, None);
}

/// A confirmed login registers the bot with the token that it brought, once; any other only tells
/// its state. What it registered is kept with it.
pub proof fn confirmed_logins_register_the_bot(
    m: Seq<(Seq<char>, SessionV)>,
    id: Seq<char>,
    s: SessionV,
    st: StatusV,
    token: Seq<char>,
    account: Seq<char>,
    other: Seq<char>,
)
    requires
        lookup(m, id) == Some(s),
    ensures
        st.status == "confirmed"@ && s.account_id is None && st.bot_token == Some(token) ==> (
        login_next(m, id, s.qr.qrcode, st, true) matches LoginNextV::Register {
            token: t,
            base_url,
            bot_user_id,
        } && t == token && bot_user_id == st.bot_user_id && (st.base_url matches Some(u) ==> base_url
            == u)),
        st.status != "confirmed"@ ==> (login_next(m, id, s.qr.qrcode, st, true)
            matches LoginNextV::Answer(v) && text_field(v, "status"@) == Some(st.status)
            && text_field(v, "account_id"@) is None),
        st.status == "confirmed"@ ==> login_next(m, id, s.qr.qrcode, st, false) is Answer,
        st.status == "confirmed"@ && other != s.qr.qrcode ==> login_next(m, id, other, st, true)
            is Answer,
        lookup(with_login(m, id, s.qr.qrcode, st, account), id) matches Some(x) && x.account_id == Some(
            account,
        ) && x.qr == s.qr && x.created_at == s.created_at && x.bot_user_id == st.bot_user_id,
        other != s.qr.qrcode ==> with_login(m, id, other, st, account) == m,
{
    answers_name_the_account(st.status, id, st.user_id, None, st.base_url, st.bot_user_id);
    with_entry_lookup(
        m,
        id,
        SessionV {
            account_id: Some(account),
            user_id: st.user_id,
            base_url: st.base_url,
            bot_user_id: st.bot_user_id,
            ..s
        },
        id,
    );
}

/// A new login has a code and nothing else yet, and is shown with it.
pub proof fn new_logins_are_shown(id: Seq<char>, qr: QrV, image: Seq<char>, now: u64)
    ensures
        new_session(qr, now).qr == qr,
        new_session(qr, now).created_at == now,
        new_session(qr, now).account_id is None,
        text_field(code_body(id, qr, image), "qr_session_id"@) == Some(id),
        text_field(code_body(id, qr, image), "qrcode"@) == Some(qr.qrcode),
        text_field(code_body(id, qr, image), "image"@) == Some(image),
{
    let m = code_body(id, qr, image)->Object_0;
    reveal_strlit("qr_session_id");
    reveal_strlit("qrcode");
    reveal_strlit("qrcode_img_content");
    reveal_strlit("image");
    assert("qr_session_id"@.len() != "qrcode"@.len());
    assert("qr_session_id"@.len() != "qrcode_img_content"@.len());
    assert("qr_session_id"@.len() != "image"@.len());
    assert("qrcode"@.len() != "qrcode_img_content"@.len());
    assert("qrcode"@.len() != "image"@.len());
    assert("qrcode_img_content"@.len() != "image"@.len());
    assert(m[0].0 == "qr_session_id"@);
    assert(m[1].0 == "qrcode"@);
    assert(m[2].0 == "qrcode_img_content"@);
    assert(m[3].0 == "image"@);
    first_entry(m, "qr_session_id"@, 0);
    first_entry(m, "qrcode"@, 1);
    first_entry(m, "qrcode_img_content"@, 2);
    first_entry(m, "image"@, 3);
}

/// A login tells its state, the token, the address and the bot, as the server names them; a state
/// that is not named is that of waiting.
pub proof fn login_states_are_read(v: JsonV, token: Seq<char>, bot: Seq<char>, user: Seq<char>)
    requires
        is_tight(token),
        is_tight(bot),
        is_tight(user),
    ensures
        text_field(v, "status"@) == Some("confirmed"@) && text_field(v, "bot_token"@) == Some(token)
            ==> (login_status(v) matches Ok(s) && s.status == "confirmed"@ && s.bot_token == Some(token)
            && (text_field(v, "ilink_bot_id"@) == Some(bot) ==> s.bot_user_id == Some(bot)) && (
        text_field(v, "ilink_user_id"@) == Some(user) ==> s.user_id == Some(user)) && (field(
            v,
            "baseurl"@,
        ) == Some(JsonV::Str(bot)) ==> s.base_url == Some(bot))),
        text_field(v, "status"@) == Some("confirmed"@) && text_field(v, "bot_token"@) is None
            ==> login_status(v) is Err,
        text_field(v, "status"@) is None ==> (login_status(v) matches Ok(s) && s.status == "waiting"@),
        text_field(v, "status"@) == Some("scaned"@) ==> (login_status(v) matches Ok(s) && s.status
            == "scaned"@),
        text_field(v, "qrcode"@) == Some(token) ==> (qr_of(v) matches Some(q) && q.qrcode == token && (
        text_field(v, "qrcode_img_content"@) == Some(bot) ==> q.qrcode_img_content == bot)),
        text_field(v, "qrcode"@) is None ==> qr_of(v) is None,
{
    reveal_strlit("confirmed");
    reveal_strlit("waiting");
    reveal_strlit("scaned");
    assert("confirmed"@.len() != "waiting"@.len());
    assert("confirmed"@.len() != "scaned"@.len());
    assert("waiting"@.len() != "scaned"@.len());
    tight_stays(token);
    tight_stays(bot);
    tight_stays(user);
}

/// A code leads to the address that it comes with, or else to one made of the code itself.
pub proof fn codes_lead_to_their_address(token: Seq<char>, rest: Seq<char>, bot_type: Seq<char>)
    requires
        is_tight(bot_type),
        rest.len() > 0,
        !is_ws(rest.last()),
    ensures
        scan_url(token, "https://"@ + rest, bot_type) == "https://"@ + rest,
        scan_url(Seq::empty(), Seq::empty(), bot_type).len() == 0,
        bot_type_or_default(bot_type) == bot_type,
        bot_type_or_default(Seq::empty()) == "3"@,
{
    reveal_strlit("https://");
    reveal_strlit("http://");
    tight_stays(bot_type);
    let u = "https://"@ + rest;
    tight_stays(u);
    assert(u.take(8) =~= "https://"@);
    assert(trimmed(Seq::<char>::empty()) == Seq::<char>::empty());
}

/// Logins that are open are kept, in order, and others are dropped.
pub proof fn open_logins_are_kept(m: Seq<(Seq<char>, SessionV)>, id: Seq<char>, s: SessionV, now: u64)
    ensures
        now < s.created_at + 300_000 ==> open_sessions(m.push((id, s)), now) == open_sessions(
            m,
            now,
        ).push((id, s)),
        now >= s.created_at + 300_000 ==> open_sessions(m.push((id, s)), now) == open_sessions(m, now),
        open_sessions(Seq::empty(), now).len() == 0,
{
    assert(m.push((id, s)).drop_last() =~= m);
    assert(m.push((id, s)).last() == (id, s));
}

/// The image of a code is its picture, where one could be painted.
pub proof fn code_images_are_pictures(png: Seq<u8>, e: (bool, Seq<char>))
    ensures
        code_image(Ok(png)) == Some("data:image/png;base64,"@ + base64_text(png)),
        code_image(Err(e)) is None,
{
}

// ---------------------------------------------------------------------------------------------
// Paths
// ---------------------------------------------------------------------------------------------

/// The paths of a configuration are those that it sets.
pub proof fn paths_are_those_of_the_configuration(c: AppConfig, i: int)
    ensures
        paths_of(c).data_dir == c.data.dir@,
        paths_of(c).channels.token_file == c.channels.wechat.bot_token_file@,
        paths_of(c).channels.telegram_media == c.channels.telegram.base.media_dir@,
        paths_of(c).channels.wechat_media == c.channels.wechat.base.media_dir@,
        paths_of(c).agent.workspace == c.agent.security.workspace_root@,
        paths_of(c).agent.codex_token_file == c.agent.codex_app_server.token_file@,
        paths_of(c).agent.codex_cwd == c.agent.codex_app_server.default_cwd@,
        paths_of(c).agent.runner_cwds.len() == c.agent.runners@.len(),
        0 <= i < c.agent.runners@.len() ==> paths_of(c).agent.runner_cwds[i]
            == c.agent.runners@[i].1.cwd@,
{
}

/// A runner that says nothing of itself is not used.
pub proof fn blank_runners_do_nothing(r: CliRunnerConfig)
    requires
        blank_runner(r),
    ensures
        !r.enabled,
        r.command@.len() == 0,
        r.args@.len() == 0,
        r.env@.len() == 0,
        r.prompt_via == CliPromptVia::Stdin,
        r.cwd@.len() == 0,
{
}

/// The name of a file is what stands behind the last slash of its path, and its extension what
/// stands behind the last dot of its name.
pub proof fn files_have_names(dir: Seq<char>, stem: Seq<char>, ext: Seq<char>)
    requires
        stem.len() > 0,
        ext.len() > 0,
        free_of(stem, '/'),
        free_of(ext, '/'),
        free_of(ext, '.'),
    ensures
        file_name_of(dir.push('/') + (stem.push('.') + ext)) == Some(stem.push('.') + ext),
        file_name_of(stem.push('.') + ext) == Some(stem.push('.') + ext),
        extension_of(dir.push('/') + (stem.push('.') + ext)) == Some(ext),
        suffix_of(dir.push('/') + (stem.push('.') + ext), dir) == seq!['.'] + ext,
{
    reveal_strlit("/");
    reveal_strlit(".");
    reveal_strlit("..");
    let n = stem.push('.') + ext;
    let p = dir.push('/') + n;
    assert(n.last() == ext.last());
    assert(ext.last() == ext[ext.len() - 1]);
    assert(n.last() != '/' && n.last() != '.');
    assert(p.last() == n.last());
    assert(bare(p) == p);
    assert(bare(n) == n);
    let slash = "/"@;
    assert forall|i: int| 0 <= i < n.len() implies #[trigger] n[i] != '/' by {
        if i < stem.len() {
            assert(n[i] == stem[i]);
        } else if i > stem.len() {
            assert(n[i] == ext[i - stem.len() - 1]);
        }
    }
    last_at_to_is_last(p, slash, p.len() - 1);
    last_at_to_is_last(n, slash, n.len() - 1);
    let d = dir.len() as int;
    assert(p.subrange(d, d + 1) =~= slash);
    assert(occurs_at(p, slash, d));
    match last_at(p, slash) {
        Some(i) => {
            assert(p.subrange(i, i + 1)[0] == p[i]);
            if i > d {
                assert(p[i] == n[i - d - 1]);
            }
            assert(i == d);
            assert(p.skip(d + 1) =~= n);
        },
        None => {},
    }
    match last_at(n, slash) {
        Some(i) => {
            assert(n.subrange(i, i + 1)[0] == n[i]);
        },
        None => {},
    }
    assert(n != "."@ && n != ".."@) by {
        assert(n.last() != '.');
        assert("."@.last() == '.' && ".."@.last() == '.');
    }
    let dot = "."@;
    last_at_to_is_last(n, dot, n.len() - 1);
    let k = stem.len() as int;
    assert(n.subrange(k, k + 1) =~= dot);
    assert(occurs_at(n, dot, k));
    match last_at(n, dot) {
        Some(i) => {
            assert(n.subrange(i, i + 1)[0] == n[i]);
            if i > k {
                assert(n[i] == ext[i - k - 1]);
            }
            assert(i == k);
            assert(n.skip(k + 1) =~= ext);
        },
        None => {},
    }
    assert("."@ + ext =~= seq!['.'] + ext);
}

/// A file that is kept has a name of twelve digits of its own, and the extension of what it was.
pub proof fn kept_files_have_names_of_their_own(name: Seq<char>, suffix: Seq<char>)
    requires
        is_local_name(name, suffix),
    ensures
        name.len() == 12 + suffix.len(),
        name.skip(12) == suffix,
        forall|i: int| 0 <= i < 12 ==> #[trigger] name[i] != '/' && name[i] != '.',
{
    let d = choose|d: Seq<char>|
        name == d + suffix && d.len() == 12 && forall|i: int| 0 <= i < 12 ==> is_small_hex(
            #[trigger] d[i],
        );
    assert(name.skip(12) =~= suffix);
    assert forall|i: int| 0 <= i < 12 implies #[trigger] name[i] != '/' && name[i] != '.' by {
        assert(is_small_hex(d[i]));
        assert(name[i] == d[i]);
    }
}

// ---------------------------------------------------------------------------------------------
// Characters
// ---------------------------------------------------------------------------------------------

/// A character that means something in a pattern has a backslash before it, and any other stands
/// for itself.
pub proof fn patterns_are_escaped(t: Seq<char>, c: char)
    ensures
        c == '.' || c == '*' || c == '(' || c == '[' || c == '\\' || c == '+' || c == '?' || c == '|' || c
            == '$' || c == '^' ==> escaped_pattern(t.push(c)) == escaped_pattern(t).push('\\').push(c),
        ('a' <= c <= 'z') || ('A' <= c <= 'Z') || ('0' <= c <= '9') || c == '_' ==> escaped_pattern(
            t.push(c),
        ) == escaped_pattern(t).push(c),
        escaped_pattern(Seq::empty()).len() == 0,
        mention_pattern(t) == "(?i)@"@ + escaped_pattern(t),
{
    assert(t.push(c).drop_last() =~= t);
    assert(t.push(c).last() == c);
}

/// What is stripped from the ends of a text is the character, and nothing else.
pub proof fn only_the_character_is_stripped(t: Seq<char>, c: char)
    ensures
        stripped_start(seq![c] + t, c) == stripped_start(t, c),
        stripped_end(t.push(c), c) == stripped_end(t, c),
        t.len() > 0 && t[0] != c ==> stripped_start(t, c) == t,
        t.len() > 0 && t.last() != c ==> stripped_end(t, c) == t,
        first_chars(t, t.len()) == t,
{
    assert((seq![c] + t).drop_first() =~= t);
    assert(t.push(c).drop_last() =~= t);
    assert(t.push(c).last() == c);
}

/// The words of a text are what white space is between.
pub proof fn words_stand_between_white_space(w: Seq<char>, rest: Seq<char>)
    requires
        w.len() > 0,
        forall|i: int| 0 <= i < w.len() ==> !is_ws(#[trigger] w[i]),
    ensures
        words_of(w + (seq![' '] + rest)) == seq![w] + words_of(rest),
        words_of(w) == seq![w],
        words_of(seq![' '] + rest) == words_of(rest),
        words_of(Seq::empty()).len() == 0,
{
    let s = w + (seq![' '] + rest);
    let n = w.len() as int;
    assert(s[0] == w[0]);
    assert(s[n] == ' ');
    assert forall|j: int| 0 <= j < n implies !is_ws(#[trigger] s[j]) by {
        assert(s[j] == w[j]);
    }
    word_ends(s, n, 0);
    assert(s.take(n) =~= w);
    assert(s.skip(n) =~= seq![' '] + rest);
    assert((seq![' '] + rest).drop_first() =~= rest);
    no_word_end(w, 0);
    assert(w.take(n) =~= w);
    assert(w.skip(n) =~= Seq::<char>::empty());
    assert(!is_ws(w[0]));
    assert(words_of(Seq::<char>::empty()) =~= Seq::<Seq<char>>::empty());
    assert(words_of(w) =~= seq![w]);
    assert(words_of(seq![' '] + rest) == words_of(rest));
    assert(words_of(s) == seq![w] + words_of(s.skip(n)));
}

proof fn word_ends(s: Seq<char>, i: int, from: int)
    requires
        0 <= from <= i < s.len(),
        is_ws(s[i]),
        forall|j: int| from <= j < i ==> !is_ws(#[trigger] s[j]),
    ensures
        ws_from(s, from) == i,
    decreases i - from,
{
    if from < i {
        assert(!is_ws(s[from]));
        word_ends(s, i, from + 1);
    }
}

proof fn no_word_end(s: Seq<char>, from: int)
    requires
        0 <= from <= s.len(),
        forall|j: int| 0 <= j < s.len() ==> !is_ws(#[trigger] s[j]),
    ensures
        ws_from(s, from) == s.len(),
    decreases s.len() - from,
{
    if from < s.len() {
        assert(!is_ws(s[from]));
        no_word_end(s, from + 1);
    }
}

/// Small letters stand for capitals, and all else for itself.
pub proof fn capitals_become_small(t: Seq<char>, i: int)
    requires
        0 <= i < t.len(),
    ensures
        ascii_lowered(t).len() == t.len(),
        'A' <= t[i] <= 'Z' ==> ascii_lowered(t)[i] as int == t[i] as int + 32,
        !('A' <= t[i] <= 'Z') ==> ascii_lowered(t)[i] == t[i],
{
}

/// What is sealed is padded to whole blocks.
pub proof fn sealed_text_is_whole_blocks(n: nat)
    ensures
        padded_len(n) % 16 == 0,
        n < padded_len(n) <= n + 16,
{
}

/// A file whose path has no extension is kept with that of the name it came under, else as `.bin`.
pub proof fn files_without_extension_are_kept(path: Seq<char>, hint: Seq<char>)
    requires
        extension_of(path) is None,
    ensures
        extension_of(hint) matches Some(x) ==> suffix_of(path, hint) == "."@ + x,
        extension_of(hint) is None ==> suffix_of(path, hint) == ".bin"@,
{
}

/// A window without a line feed is cut behind its last sentence, or else behind its last space, where
/// that leaves a piece of at least two thirds of the limit that misses the limit by 150 characters at
/// most; otherwise all of it is taken.
pub proof fn long_lines_are_cut_near_the_limit(w: Seq<char>, max: nat, i: int)
    requires
        last_at(w, seq!['\n', '\n']) is None,
        last_at(w, seq!['\n']) is None,
    ensures
        ({
            let e = sentence_end(w);
            let near = |n: int| n >= 2 * max / 3 && n >= max - 150;
            &&& e > 0 && near(e) ==> window_cut(w, max) == e
            &&& !(e > 0 && near(e)) && 0 <= i < w.len() && w[i] == ' ' && near(i + 1) ==> {
                let c = window_cut(w, max);
                i + 1 <= c <= w.len() && w[c - 1] == ' '
            }
            &&& !(e > 0 && near(e)) && (forall|k: int|
                0 <= k < w.len() && near(k + 1) ==> #[trigger] w[k] != ' ') ==> window_cut(w, max)
                == w.len()
        }),
{
    let one = seq![' '];
    last_at_to_is_last(w, one, w.len() - 1);
    if 0 <= i < w.len() && w[i] == ' ' {
        assert(w.subrange(i, i + 1) =~= one);
        assert(occurs_at(w, one, i));
    }
    match last_at(w, one) {
        Some(k) => {
            assert(w.subrange(k, k + 1)[0] == w[k]);
        },
        None => {},
    }
}

/// The address made of a code names the code and the kind of bot, both written as parts of an address.
pub proof fn codes_are_written_into_their_address(token: Seq<char>, bot_type: Seq<char>)
    requires
        token.len() > 0,
        is_tight(bot_type),
    ensures
        scan_url(token, Seq::empty(), bot_type) == "https://liteapp.weixin.qq.com/q/7GiQu1"@
            + "?qrcode="@ + query_text(token) + "&bot_type="@ + query_text(bot_type),
        scan_url(token, Seq::empty(), Seq::empty()) == "https://liteapp.weixin.qq.com/q/7GiQu1"@
            + "?qrcode="@ + query_text(token) + "&bot_type="@ + query_text("3"@),
{
    reveal_strlit("https://");
    reveal_strlit("http://");
    tight_stays(bot_type);
    assert(trimmed(Seq::<char>::empty()) == Seq::<char>::empty());
}

/// The admin interface shows the code that the image of a login holds, or else the address made for it.
pub proof fn shown_codes_are_those_of_the_login(qr: QrV, bot_type: Seq<char>, said: Seq<char>, e: ErrorV)
    ensures
        base64_payload(qr.qrcode_img_content) == Ok::<Seq<char>, ErrorV>(said) ==> code_payload(
            qr,
            bot_type,
        ) == said,
        base64_payload(qr.qrcode_img_content) == Err::<Seq<char>, ErrorV>(e) ==> code_payload(qr, bot_type)
            == scan_url(qr.qrcode, qr.qrcode_img_content, bot_type),
{
}

} // verus!
