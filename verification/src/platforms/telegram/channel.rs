//! All Telegram accounts together.

use vstd::prelude::*;

use crate::config::{belongs, belongs_to, TelegramConfig};
use crate::error::{ErrorV, GatewayError};
use crate::json::{push_field, text_array, texts_to_json, Json, JsonV, NumberV};
use crate::platforms::runners::{in_use, keys, prune, running, stale, text_or_null, text_to_json};
use crate::platforms::telegram::registry::{
    active, channel_id_for, channel_of, is_account_id, registered, registered_all, with_status,
    AccountStatus, EntryV, RegistryV, TelegramAccountEntry, TelegramAccountRegistry,
};
use crate::strs::{concat2, concat3, decimal, texts, texts_push, trim, trimmed, u64_string};
use crate::table::{lookup, pairs, with_entry, without_entry, Table};

verus! {

/// The tokens that the configuration names.
pub open spec fn configured_tokens(bot_token: Seq<char>, bot_tokens: Seq<Seq<char>>) -> Seq<
    Seq<char>,
> {
    (if trimmed(bot_token).len() > 0 {
        seq![bot_token]
    } else {
        Seq::empty()
    }) + bot_tokens
}

/// The tokens that the configuration names.
pub fn config_tokens(cfg: &TelegramConfig) -> (r: Vec<String>)
    ensures
        texts(r@) == configured_tokens(cfg.bot_token@, texts(cfg.bot_tokens@)),
{
    let mut r: Vec<String> = Vec::new();
    assert(texts(r@) =~= Seq::<Seq<char>>::empty());
    if !trim(cfg.bot_token.as_str()).is_empty() {
        let t: String = cfg.bot_token.clone();
        r.push(t);
        assert(texts(r@) =~= seq![t@]);
    }
    let ghost first = texts(r@);
    let ghost all = texts(cfg.bot_tokens@);
    let mut i: usize = 0;
    assert(texts(r@) =~= first + all.take(0));
    while i < cfg.bot_tokens.len()
        invariant
            i <= cfg.bot_tokens@.len(),
            all == texts(cfg.bot_tokens@),
            texts(r@) == first + all.take(i as int),
        decreases cfg.bot_tokens@.len() - i,
    {
        let ghost before = r@;
        let t: String = cfg.bot_tokens[i].clone();
        r.push(t);
        proof {
            texts_push(before, t);
            assert(first + all.take(i + 1) =~= (first + all.take(i as int)).push(all[i as int]));
        }
        i = i + 1;
    }
    assert(all.take(all.len() as int) == all);
    r
}

/// Where the files of the channel are kept.
pub open spec fn media_dir_of(media_dir: Seq<char>) -> Seq<char> {
    if media_dir.len() == 0 {
        "media/telegram"@
    } else {
        media_dir
    }
}

/// Where the files of the channel are kept.
pub fn media_base_dir(cfg: &TelegramConfig) -> (r: String)
    ensures
        r@ == media_dir_of(cfg.base.media_dir@),
{
    if cfg.base.media_dir.as_str().is_empty() {
        "media/telegram".to_owned()
    } else {
        cfg.base.media_dir.clone()
    }
}

/// Whether access control is on for direct messages and for groups.
pub fn acl_flags(cfg: &TelegramConfig, channel_id: &str) -> (r: (bool, bool))
    ensures
        r == if belongs_to(channel_id@, "telegram"@) {
            (cfg.base.access_control_dm, cfg.base.access_control_group)
        } else {
            (false, false)
        },
{
    if belongs(channel_id, "telegram") {
        (cfg.base.access_control_dm, cfg.base.access_control_group)
    } else {
        (false, false)
    }
}

/// The ids of the accounts that are in use.
pub open spec fn active_ids(accounts: Seq<(Seq<char>, EntryV)>) -> Seq<Seq<char>> {
    keys(active(accounts))
}

/// All Telegram accounts together: which there are, and which of them run.
pub struct TelegramChannel {
    pub media_base_dir: String,
    pub streaming_enabled: bool,
    pub registry: TelegramAccountRegistry,
    /// The channel of each account that runs.
    pub runners: Table<String>,
    pub started: bool,
}

/// What a channel holds.
#[verifier::ext_equal]
pub struct ChannelV {
    pub media_base_dir: Seq<char>,
    pub streaming_enabled: bool,
    pub registry: RegistryV,
    pub runners: Seq<(Seq<char>, Seq<char>)>,
    pub started: bool,
}

impl View for TelegramChannel {
    type V = ChannelV;

    open spec fn view(&self) -> ChannelV {
        ChannelV {
            media_base_dir: self.media_base_dir@,
            streaming_enabled: self.streaming_enabled,
            registry: self.registry@,
            runners: self.runners.texts(),
            started: self.started,
        }
    }
}

/// The channel after the runners without an account in use are forgotten.
pub open spec fn pruned(c: ChannelV) -> ChannelV {
    ChannelV { runners: in_use(c.runners, active_ids(c.registry.accounts)), ..c }
}

/// The channel of an account that is to be started; `None` where it runs.
pub open spec fn start_plan(c: ChannelV, id: Seq<char>) -> Result<Option<Seq<char>>, ErrorV> {
    if lookup(c.runners, id) is Some {
        Ok(None)
    } else {
        match lookup(c.registry.accounts, id) {
            Some(e) => if e.status == AccountStatus::Active {
                Ok(Some(channel_of(id)))
            } else {
                Err(ErrorV::Other("telegram account "@ + id + " not found or disabled"@))
            },
            None => Err(ErrorV::Other("telegram account "@ + id + " not found or disabled"@)),
        }
    }
}

/// What registering an account came to.
#[derive(Debug)]
pub struct Registered {
    pub account_id: String,
    /// Whether the account ran, and its runner is to be stopped.
    pub stop: bool,
    /// The channel of the account, where it is to be started.
    pub start: Option<String>,
}

/// The accounts as they are listed.
#[derive(Debug)]
pub struct Listing {
    pub accounts: Vec<Json>,
    /// The accounts whose runners are to be stopped.
    pub stopped: Vec<String>,
}

/// How the channel does.
#[derive(Debug)]
pub struct Health {
    pub body: Json,
    /// The accounts whose runners are to be stopped.
    pub stopped: Vec<String>,
}

fn opt(t: &Option<String>) -> (r: Option<&str>)
    ensures
        r.deep_view() == t.deep_view(),
{
    match t {
        Some(s) => Some(s.as_str()),
        None => None,
    }
}

/// An account as it is listed.
pub open spec fn listed(id: Seq<char>, e: EntryV, running: bool) -> JsonV {
    JsonV::Object(
        seq![
            ("account_id"@, JsonV::Str(id)),
            ("channel_id"@, JsonV::Str(channel_of(id))),
            ("bot_user_id"@, text_or_null(e.bot_user_id)),
            ("username"@, text_or_null(e.username)),
            (
                "status"@,
                JsonV::Str(
                    match e.status {
                        AccountStatus::Active => "active"@,
                        AccountStatus::Disabled => "disabled"@,
                    },
                ),
            ),
            ("running"@, JsonV::Bool(running)),
            ("created_at"@, JsonV::Number(NumberV::Unsigned(e.created_at))),
        ],
    )
}

fn list_account(id: &str, e: &TelegramAccountEntry, running: bool) -> (r: Json)
    ensures
        r@ == listed(id@, e@, running),
{
    let channel: String = channel_id_for(id);
    let mut m: Vec<(String, Json)> = Vec::new();
    assert(m.deep_view() =~= Seq::<(Seq<char>, JsonV)>::empty());
    push_field(&mut m, "account_id", Json::text(id));
    push_field(&mut m, "channel_id", Json::text(channel.as_str()));
    push_field(&mut m, "bot_user_id", text_to_json(opt(&e.bot_user_id)));
    push_field(&mut m, "username", text_to_json(opt(&e.username)));
    push_field(
        &mut m,
        "status",
        Json::text(
            match e.status {
                AccountStatus::Active => "active",
                AccountStatus::Disabled => "disabled",
            },
        ),
    );
    push_field(&mut m, "running", Json::Bool(running));
    push_field(&mut m, "created_at", Json::unsigned(e.created_at));
    assert(m.deep_view() =~= listed(id@, e@, running)->Object_0);
    Json::object(m)
}

/// All accounts as they are listed, with those that run.
pub open spec fn listing(c: ChannelV) -> Seq<JsonV> {
    c.registry.accounts.map_values(
        |e: (Seq<char>, EntryV)| listed(e.0, e.1, lookup(c.runners, e.0) is Some),
    )
}

/// How the channel does.
pub open spec fn health(count: nat, streaming_enabled: bool, media_dir: Seq<char>) -> JsonV {
    JsonV::Object(
        seq![
            ("channel"@, JsonV::Str("telegram"@)),
            ("status"@, JsonV::Str("healthy"@)),
            ("detail"@, JsonV::Str(decimal(count) + " active telegram account runner(s)"@)),
            ("account_count"@, JsonV::Number(NumberV::Unsigned(count as u64))),
            ("streaming_enabled"@, JsonV::Bool(streaming_enabled)),
            ("media_dir"@, JsonV::Str(media_dir)),
            (
                "features"@,
                text_array(seq!["html"@, "streaming"@, "media_debounce"@, "polling_reconnect"@]),
            ),
        ],
    )
}

fn describe_health(count: usize, streaming_enabled: bool, media_dir: &str) -> (r: Json)
    ensures
        r@ == health(count as nat, streaming_enabled, media_dir@),
{
    let n: String = u64_string(count as u64);
    let detail: String = concat2(n.as_str(), " active telegram account runner(s)");
    let mut features: Vec<String> = Vec::new();
    features.push("html".to_owned());
    features.push("streaming".to_owned());
    features.push("media_debounce".to_owned());
    features.push("polling_reconnect".to_owned());
    assert(texts(features@) =~= seq![
        "html"@,
        "streaming"@,
        "media_debounce"@,
        "polling_reconnect"@,
    ]);
    let mut m: Vec<(String, Json)> = Vec::new();
    assert(m.deep_view() =~= Seq::<(Seq<char>, JsonV)>::empty());
    push_field(&mut m, "channel", Json::text("telegram"));
    push_field(&mut m, "status", Json::text("healthy"));
    push_field(&mut m, "detail", Json::text(detail.as_str()));
    push_field(&mut m, "account_count", Json::unsigned(count as u64));
    push_field(&mut m, "streaming_enabled", Json::Bool(streaming_enabled));
    push_field(&mut m, "media_dir", Json::text(media_dir));
    push_field(&mut m, "features", texts_to_json(&features));
    assert(m.deep_view() =~= health(count as nat, streaming_enabled, media_dir@)->Object_0);
    Json::object(m)
}

/// The channel that the configuration asks for, where `fresh` are the ids of new accounts.
pub open spec fn opened(cfg: TelegramConfig, v: RegistryV, fresh: Seq<Seq<char>>, now: u64) -> Result<
    ChannelV,
    ErrorV,
> {
    let tokens = configured_tokens(cfg.bot_token@, texts(cfg.bot_tokens@));
    let (registry, ids) = registered_all(v, tokens, fresh, now);
    match ids {
        Ok(_) => Ok(
            ChannelV {
                media_base_dir: media_dir_of(cfg.base.media_dir@),
                streaming_enabled: cfg.streaming_enabled,
                registry: registry,
                runners: Seq::empty(),
                started: false,
            },
        ),
        Err(e) => Err(e),
    }
}

impl TelegramChannel {
    /// A channel that has not started, with the accounts that the configuration names.
    pub fn new(cfg: &TelegramConfig, registry: TelegramAccountRegistry, now: u64) -> (r: Result<
        TelegramChannel,
        GatewayError,
    >)
        ensures
            exists|fresh: Seq<Seq<char>>|
                fresh.len() == configured_tokens(cfg.bot_token@, texts(cfg.bot_tokens@)).len() && (
                forall|i: int| 0 <= i < fresh.len() ==> is_account_id(#[trigger] fresh[i])) && (
                #[trigger] opened(*cfg, registry@, fresh, now)) == match r {
                    Ok(c) => Ok::<ChannelV, ErrorV>(c@),
                    Err(e) => Err::<ChannelV, ErrorV>(e@),
                },
    {
        let mut registry: TelegramAccountRegistry = registry;
        let ghost before = registry@;
        let tokens: Vec<String> = config_tokens(cfg);
        let result: Result<Vec<String>, GatewayError> = registry.register_config_tokens(&tokens, now);
        let ghost fresh = choose|fresh: Seq<Seq<char>>|
            fresh.len() == tokens@.len() && (forall|i: int|
                0 <= i < fresh.len() ==> is_account_id(#[trigger] fresh[i])) && match result {
                Ok(ids) => (#[trigger] registered_all(before, texts(tokens@), fresh, now)) == (
                    registry@,
                    Ok::<Seq<Seq<char>>, ErrorV>(texts(ids@)),
                ),
                Err(e) => registered_all(before, texts(tokens@), fresh, now) == (
                    registry@,
                    Err::<Seq<Seq<char>>, ErrorV>(e@),
                ),
            };
        assert(texts(tokens@).len() == tokens@.len());
        let ghost made = opened(*cfg, before, fresh, now);
        match result {
            Ok(_) => Ok(
                TelegramChannel {
                    media_base_dir: media_base_dir(cfg),
                    streaming_enabled: cfg.streaming_enabled,
                    registry: registry,
                    runners: Table::new_texts(),
                    started: false,
                },
            ),
            Err(e) => Err(e),
        }
    }

    fn active_accounts(&self) -> (r: Vec<String>)
        ensures
            texts(r@) == active_ids(self@.registry.accounts),
    {
        let mut out: Vec<String> = Vec::new();
        let ghost all = active_ids(self@.registry.accounts);
        assert(texts(out@) =~= all.take(0));
        if let Ok(list) = self.registry.list_active() {
            let mut i: usize = 0;
            while i < list.len()
                invariant
                    i <= list@.len(),
                    list.deep_view() == active(self@.registry.accounts),
                    all == active_ids(self@.registry.accounts),
                    texts(out@) == all.take(i as int),
                decreases list@.len() - i,
            {
                let ghost before = out@;
                let own: String = list[i].0.clone();
                out.push(own);
                proof {
                    texts_push(before, own);
                    assert(list.deep_view()[i as int].0 == own@);
                    assert(all[i as int] == own@);
                    assert(all.take(i + 1) =~= all.take(i as int).push(all[i as int]));
                }
                i = i + 1;
            }
            assert(list.deep_view().len() == list@.len());
            assert(all.take(all.len() as int) == all);
        }
        out
    }

    /// Forgets the runners whose account is not in use: those that are to be stopped.
    pub fn prune_inactive_runners(&mut self) -> (r: Result<Vec<String>, GatewayError>)
        ensures
            r matches Ok(ids) && texts(ids@) == stale(
                old(self)@.runners,
                active_ids(old(self)@.registry.accounts),
            ),
            final(self)@ == pruned(old(self)@),
    {
        let on: Vec<String> = self.active_accounts();
        let gone: Vec<String> = prune(&mut self.runners, &on);
        assert(self@ =~= pruned(old(self)@));
        Ok(gone)
    }

    /// The channel of an account that is to be started; `None` where it runs.
    pub fn start_runner(&self, account_id: &str) -> (r: Result<Option<String>, GatewayError>)
        ensures
            match start_plan(self@, account_id@) {
                Ok(c) => r matches Ok(x) && x.deep_view() == c,
                Err(e) => r matches Err(x) && x@ == e,
            },
    {
        if self.runners.get_text(account_id).is_some() {
            return Ok(None);
        }
        if let Ok(Some(e)) = self.registry.get(account_id) {
            if e.status == AccountStatus::Active {
                return Ok(Some(channel_id_for(account_id)));
            }
        }
        Err(GatewayError::Other(concat3("telegram account ", account_id, " not found or disabled")))
    }

    /// Takes note of an account that runs now.
    pub fn runner_started(&mut self, account_id: &str)
        ensures
            final(self)@ == (ChannelV {
                runners: with_entry(old(self)@.runners, account_id@, channel_of(account_id@)),
                ..old(self)@
            }),
    {
        let channel: String = channel_id_for(account_id);
        self.runners.put_text(account_id, channel.as_str());
        assert(self@ =~= ChannelV {
            runners: with_entry(old(self)@.runners, account_id@, channel_of(account_id@)),
            ..old(self)@
        });
    }

    /// Registers an account, and starts it where the channel has started.
    pub fn register_and_start(&mut self, token: &str, now: u64) -> (r: Result<
        Registered,
        GatewayError,
    >)
        ensures
            exists|fresh: Seq<char>| #[trigger]
                is_account_id(fresh) && ({
                    let (v, id) = registered(old(self)@.registry, token@, fresh, now);
                    let c = ChannelV { registry: v, ..old(self)@ };
                    &&& final(self)@ == c
                    &&& match id {
                        Err(e) => r matches Err(x) && x@ == e,
                        Ok(id) => if !c.started {
                            r matches Ok(x) && x.account_id@ == id && !x.stop && x.start is None
                        } else {
                            match start_plan(c, id) {
                                Ok(channel) => r matches Ok(x) && x.account_id@ == id && !x.stop
                                    && x.start.deep_view() == channel,
                                Err(e) => r matches Err(x) && x@ == e,
                            }
                        },
                    }
                }),
    {
        let ghost before = self@;
        let result: Result<String, GatewayError> = self.registry.register_from_token(token, now);
        proof {
            let fresh = choose|fresh: Seq<char>| #[trigger]
                is_account_id(fresh) && match result {
                    Ok(id) => registered(before.registry, token@, fresh, now) == (
                        self.registry@,
                        Ok::<Seq<char>, ErrorV>(id@),
                    ),
                    Err(e) => registered(before.registry, token@, fresh, now) == (
                        self.registry@,
                        Err::<Seq<char>, ErrorV>(e@),
                    ),
                };
            assert(is_account_id(fresh));
        }
        let id: String = match result {
            Ok(id) => id,
            Err(e) => {
                return Err(e);
            },
        };
        if !self.started {
            return Ok(Registered { account_id: id, stop: false, start: None });
        }
        match self.start_runner(id.as_str()) {
            Ok(start) => Ok(Registered { account_id: id, stop: false, start: start }),
            Err(e) => Err(e),
        }
    }

    /// Takes an account out of use: whether it ran, and its runner is to be stopped.
    pub fn remove_account(&mut self, account_id: &str) -> (r: Result<bool, GatewayError>)
        ensures
            r matches Ok(ran) && ran == (lookup(old(self)@.runners, account_id@) is Some),
            final(self)@ == (ChannelV {
                runners: without_entry(old(self)@.runners, account_id@),
                registry: RegistryV {
                    accounts: with_status(
                        old(self)@.registry.accounts,
                        account_id@,
                        AccountStatus::Disabled,
                    ),
                    ..old(self)@.registry
                },
                ..old(self)@
            }),
    {
        let ran: bool = self.runners.take_text(account_id).is_some();
        match self.registry.disable_account(account_id) {
            Ok(()) => Ok(ran),
            Err(e) => Err(e),
        }
    }

    /// All accounts as they are listed, after the runners without an account in use are forgotten.
    pub fn list_accounts(&mut self) -> (r: Result<Listing, GatewayError>)
        ensures
            final(self)@ == pruned(old(self)@),
            r matches Ok(l) && texts(l.stopped@) == stale(
                old(self)@.runners,
                active_ids(old(self)@.registry.accounts),
            ) && l.accounts.deep_view() == listing(pruned(old(self)@)),
    {
        let stopped: Vec<String> = match self.prune_inactive_runners() {
            Ok(ids) => ids,
            Err(e) => {
                return Err(e);
            },
        };
        let accounts: Vec<Json> = self.describe_accounts();
        Ok(Listing { accounts: accounts, stopped: stopped })
    }

    fn describe_accounts(&self) -> (r: Vec<Json>)
        ensures
            r.deep_view() == listing(self@),
    {
        let ghost c = self@;
        let ghost all = c.registry.accounts;
        let ghost f = |e: (Seq<char>, EntryV)| listed(e.0, e.1, lookup(c.runners, e.0) is Some);
        let mut out: Vec<Json> = Vec::new();
        let mut i: usize = 0;
        assert(out.deep_view() =~= all.take(0).map_values(f));
        let es: &Vec<(String, TelegramAccountEntry)> = self.registry.accounts.entries();
        while i < es.len()
            invariant
                i <= es@.len(),
                pairs(es@) == self.registry.accounts@,
                c == self@,
                all == c.registry.accounts,
                f == |e: (Seq<char>, EntryV)| listed(e.0, e.1, lookup(c.runners, e.0) is Some),
                out.deep_view() == all.take(i as int).map_values(f),
            decreases es@.len() - i,
        {
            let e: &(String, TelegramAccountEntry) = &es[i];
            let on: bool = self.runners.get_text(e.0.as_str()).is_some();
            let ghost before = out.deep_view();
            out.push(list_account(e.0.as_str(), &e.1, on));
            proof {
                assert(all[i as int] == (e.0@, e.1@));
                assert(out.deep_view() =~= before.push(f(all[i as int])));
                assert(all.take(i + 1).map_values(f) =~= all.take(i as int).map_values(f).push(
                    f(all[i as int]),
                ));
            }
            i = i + 1;
        }
        assert(all.take(all.len() as int) == all);
        out
    }

    /// Starts the channel: the accounts that are to be started.
    pub fn start(&mut self) -> (r: Vec<String>)
        ensures
            texts(r@) == active_ids(old(self)@.registry.accounts),
            final(self)@ == (ChannelV { started: true, ..old(self)@ }),
    {
        self.started = true;
        self.active_accounts()
    }

    /// Stops the channel: the accounts whose runners are to be stopped.
    pub fn stop(&mut self) -> (r: Vec<String>)
        ensures
            texts(r@) == keys(old(self)@.runners),
            final(self)@ == (ChannelV { started: false, runners: Seq::empty(), ..old(self)@ }),
    {
        let ids: Vec<String> = running(&self.runners);
        self.runners = Table::new_texts();
        self.started = false;
        ids
    }

    /// How the channel does, after the runners without an account in use are forgotten.
    pub fn health_check(&mut self) -> (r: Health)
        ensures
            final(self)@ == pruned(old(self)@),
            texts(r.stopped@) == stale(
                old(self)@.runners,
                active_ids(old(self)@.registry.accounts),
            ),
            r.body@ == health(
                pruned(old(self)@).runners.len(),
                old(self)@.streaming_enabled,
                old(self)@.media_base_dir,
            ),
    {
        let stopped: Vec<String> = match self.prune_inactive_runners() {
            Ok(ids) => ids,
            Err(_) => Vec::new(),
        };
        let n: usize = self.runners.len();
        assert(n == self@.runners.len());
        Health { body: describe_health(n, self.streaming_enabled, self.media_base_dir.as_str()), stopped: stopped }
    }
}

} // verus!
