//! All WeChat accounts together.

use vstd::prelude::*;

use crate::config::WeChatConfig;
use crate::error::{ErrorV, GatewayError};
use crate::json::{push_field, Json, JsonV, NumberV};
use crate::platforms::runners::{in_use, keys, prune, running, stale, text_or_null, text_to_json};
use crate::platforms::wechat::registry::{
    active, channel_id_for, channel_of, is_account_id, migrated, registered,
    registered_account_is_in_use, sound, with_status, AccountStatus, EntryV, RegistryV,
    WeChatAccountEntry, WeChatAccountRegistry,
};
use crate::strs::{concat2, concat3, decimal, texts, texts_push, trimmed, u64_string};
use crate::table::{lookup, pairs, with_entry, without_entry, without_entry_lookup, Table};

verus! {

/// The ids of the accounts that are in use.
pub open spec fn active_ids(accounts: Seq<(Seq<char>, EntryV)>) -> Seq<Seq<char>> {
    keys(active(accounts))
}

/// All WeChat accounts together: which there are, and which of them run.
pub struct WeChatChannel {
    pub registry: WeChatAccountRegistry,
    /// The channel of each account that runs.
    pub runners: Table<String>,
    pub started: bool,
}

/// What a channel holds.
#[verifier::ext_equal]
pub struct ChannelV {
    pub registry: RegistryV,
    pub runners: Seq<(Seq<char>, Seq<char>)>,
    pub started: bool,
}

impl View for WeChatChannel {
    type V = ChannelV;

    open spec fn view(&self) -> ChannelV {
        ChannelV {
            registry: self.registry@,
            runners: self.runners.texts(),
            started: self.started,
        }
    }
}

/// The channel after the runners without an account in use are forgotten.
pub open spec fn pruned(c: ChannelV) -> ChannelV {
    ChannelV { runners: in_use(c.runners, active_ids(c.registry.accounts)), ..c }
}

/// The channel of an account that is to be started; `None` where it runs.
pub open spec fn start_plan(c: ChannelV, id: Seq<char>) -> Result<Option<Seq<char>>, ErrorV> {
    if lookup(c.runners, id) is Some {
        Ok(None)
    } else {
        match lookup(c.registry.accounts, id) {
            Some(e) => if e.status == AccountStatus::Active {
                Ok(Some(channel_of(id)))
            } else {
                Err(ErrorV::Other("wechat account "@ + id + " not found or disabled"@))
            },
            None => Err(ErrorV::Other("wechat account "@ + id + " not found or disabled"@)),
        }
    }
}

/// What registering an account came to.
#[derive(Debug)]
pub struct Registered {
    pub account_id: String,
    /// Whether the account ran, and its runner is to be stopped.
    pub stop: bool,
    /// The channel of the account, where it is to be started.
    pub start: Option<String>,
}

/// The accounts as they are listed.
#[derive(Debug)]
pub struct Listing {
    pub accounts: Vec<Json>,
    /// The accounts whose runners are to be stopped.
    pub stopped: Vec<String>,
}

/// How the channel does.
#[derive(Debug)]
pub struct Health {
    pub body: Json,
    /// The accounts whose runners are to be stopped.
    pub stopped: Vec<String>,
}

fn opt(t: &Option<String>) -> (r: Option<&str>)
    ensures
        r.deep_view() == t.deep_view(),
{
    match t {
        Some(s) => Some(s.as_str()),
        None => None,
    }
}

/// An account as it is listed.
pub open spec fn listed(id: Seq<char>, e: EntryV, running: bool) -> JsonV {
    JsonV::Object(
        seq![
            ("account_id"@, JsonV::Str(id)),
            ("channel_id"@, JsonV::Str(channel_of(id))),
            ("bot_user_id"@, text_or_null(e.bot_user_id)),
            (
                "status"@,
                JsonV::Str(
                    match e.status {
                        AccountStatus::Active => "active"@,
                        AccountStatus::Disabled => "disabled"@,
                    },
                ),
            ),
            ("base_url"@, JsonV::Str(e.base_url)),
            ("running"@, JsonV::Bool(running)),
            ("created_at"@, JsonV::Number(NumberV::Unsigned(e.created_at))),
        ],
    )
}

fn list_account(id: &str, e: &WeChatAccountEntry, running: bool) -> (r: Json)
    ensures
        r@ == listed(id@, e@, running),
{
    let channel: String = channel_id_for(id);
    let mut m: Vec<(String, Json)> = Vec::new();
    assert(m.deep_view() =~= Seq::<(Seq<char>, JsonV)>::empty());
    push_field(&mut m, "account_id", Json::text(id));
    push_field(&mut m, "channel_id", Json::text(channel.as_str()));
    push_field(&mut m, "bot_user_id", text_to_json(opt(&e.bot_user_id)));
    push_field(
        &mut m,
        "status",
        Json::text(
            match e.status {
                AccountStatus::Active => "active",
                AccountStatus::Disabled => "disabled",
            },
        ),
    );
    push_field(&mut m, "base_url", Json::text(e.base_url.as_str()));
    push_field(&mut m, "running", Json::Bool(running));
    push_field(&mut m, "created_at", Json::unsigned(e.created_at));
    assert(m.deep_view() =~= listed(id@, e@, running)->Object_0);
    Json::object(m)
}

/// All accounts as they are listed, with those that run.
pub open spec fn listing(c: ChannelV) -> Seq<JsonV> {
    c.registry.accounts.map_values(
        |e: (Seq<char>, EntryV)| listed(e.0, e.1, lookup(c.runners, e.0) is Some),
    )
}

/// How the channel does.
pub open spec fn health(count: nat) -> JsonV {
    JsonV::Object(
        seq![
            ("channel"@, JsonV::Str("wechat"@)),
            ("status"@, JsonV::Str("healthy"@)),
            ("detail"@, JsonV::Str(decimal(count) + " active wechat account runner(s)"@)),
            ("account_count"@, JsonV::Number(NumberV::Unsigned(count as u64))),
        ],
    )
}

fn describe_health(count: usize) -> (r: Json)
    ensures
        r@ == health(count as nat),
{
    let n: String = u64_string(count as u64);
    let detail: String = concat2(n.as_str(), " active wechat account runner(s)");
    let mut m: Vec<(String, Json)> = Vec::new();
    assert(m.deep_view() =~= Seq::<(Seq<char>, JsonV)>::empty());
    push_field(&mut m, "channel", Json::text("wechat"));
    push_field(&mut m, "status", Json::text("healthy"));
    push_field(&mut m, "detail", Json::text(detail.as_str()));
    push_field(&mut m, "account_count", Json::unsigned(count as u64));
    assert(m.deep_view() =~= health(count as nat)->Object_0);
    Json::object(m)
}

impl WeChatChannel {
    /// A channel that has not started, with the account of a token in the configuration.
    /// `file_token` is what the token file of the configuration holds.
    pub fn new(
        cfg: &WeChatConfig,
        registry: WeChatAccountRegistry,
        file_token: &str,
        now: u64,
    ) -> (r: WeChatChannel)
        ensures
            ({
                let token = if cfg.bot_token@.len() > 0 {
                    cfg.bot_token@
                } else {
                    trimmed(file_token@)
                };
                r@ == (ChannelV {
                    registry: migrated(registry@, token, cfg.base_url@, now),
                    runners: Seq::empty(),
                    started: false,
                })
            }),
    {
        let mut registry: WeChatAccountRegistry = registry;
        let _ = registry.migrate_inline_config_token(
            cfg.bot_token.as_str(),
            file_token,
            cfg.base_url.as_str(),
            now,
        );
        WeChatChannel { registry: registry, runners: Table::new_texts(), started: false }
    }

    /// The accounts.
    pub fn registry(&self) -> (r: &WeChatAccountRegistry)
        ensures
            r@ == self@.registry,
    {
        &self.registry
    }

    fn active_accounts(&self) -> (r: Vec<String>)
        ensures
            texts(r@) == active_ids(self@.registry.accounts),
    {
        let mut out: Vec<String> = Vec::new();
        let ghost all = active_ids(self@.registry.accounts);
        assert(texts(out@) =~= all.take(0));
        if let Ok(list) = self.registry.list_active() {
            let mut i: usize = 0;
            while i < list.len()
                invariant
                    i <= list@.len(),
                    list.deep_view() == active(self@.registry.accounts),
                    all == active_ids(self@.registry.accounts),
                    texts(out@) == all.take(i as int),
                decreases list@.len() - i,
            {
                let ghost before = out@;
                let own: String = list[i].0.clone();
                out.push(own);
                proof {
                    texts_push(before, own);
                    assert(list.deep_view()[i as int].0 == own@);
                    assert(all[i as int] == own@);
                    assert(all.take(i + 1) =~= all.take(i as int).push(all[i as int]));
                }
                i = i + 1;
            }
            assert(list.deep_view().len() == list@.len());
            assert(all.take(all.len() as int) == all);
        }
        out
    }

    /// Forgets the runners whose account is not in use: those that are to be stopped.
    pub fn prune_inactive_runners(&mut self) -> (r: Result<Vec<String>, GatewayError>)
        ensures
            r matches Ok(ids) && texts(ids@) == stale(
                old(self)@.runners,
                active_ids(old(self)@.registry.accounts),
            ),
            final(self)@ == pruned(old(self)@),
    {
        let on: Vec<String> = self.active_accounts();
        let gone: Vec<String> = prune(&mut self.runners, &on);
        assert(self@ =~= pruned(old(self)@));
        Ok(gone)
    }

    /// The channel of an account that is to be started; `None` where it runs.
    pub fn start_runner(&self, account_id: &str) -> (r: Result<Option<String>, GatewayError>)
        ensures
            match start_plan(self@, account_id@) {
                Ok(c) => r matches Ok(x) && x.deep_view() == c,
                Err(e) => r matches Err(x) && x@ == e,
            },
    {
        if self.runners.get_text(account_id).is_some() {
            return Ok(None);
        }
        if let Ok(Some(e)) = self.registry.get(account_id) {
            if e.status == AccountStatus::Active {
                return Ok(Some(channel_id_for(account_id)));
            }
        }
        Err(GatewayError::Other(concat3("wechat account ", account_id, " not found or disabled")))
    }

    /// Takes note of an account that runs now.
    pub fn runner_started(&mut self, account_id: &str)
        ensures
            final(self)@ == (ChannelV {
                runners: with_entry(old(self)@.runners, account_id@, channel_of(account_id@)),
                ..old(self)@
            }),
    {
        let channel: String = channel_id_for(account_id);
        self.runners.put_text(account_id, channel.as_str());
        assert(self@ =~= ChannelV {
            runners: with_entry(old(self)@.runners, account_id@, channel_of(account_id@)),
            ..old(self)@
        });
    }

    /// Registers the account of a login. Where it ran, its runner is to be stopped; where the
    /// channel has started, a new one is to be started, with what the login brought.
    pub fn register_and_start(
        &mut self,
        token: &str,
        base_url: &str,
        bot_user_id: Option<&str>,
        now: u64,
    ) -> (r: Result<Registered, GatewayError>)
        ensures
            exists|fresh: Seq<char>| #[trigger]
                is_account_id(fresh) && ({
                    let (v, id) = registered(
                        old(self)@.registry,
                        token@,
                        base_url@,
                        bot_user_id.deep_view(),
                        fresh,
                        now,
                    );
                    match id {
                        Err(e) => {
                            &&& r matches Err(x) && x@ == e
                            &&& final(self)@ == (ChannelV { registry: v, ..old(self)@ })
                        },
                        Ok(id) => {
                            let c = ChannelV {
                                registry: v,
                                runners: without_entry(old(self)@.runners, id),
                                ..old(self)@
                            };
                            let ran = lookup(old(self)@.runners, id) is Some;
                            &&& final(self)@ == c
                            &&& if !c.started {
                                r matches Ok(x) && x.account_id@ == id && x.stop == ran
                                    && x.start is None
                            } else {
                                match start_plan(c, id) {
                                    Ok(channel) => r matches Ok(x) && x.account_id@ == id && x.stop
                                        == ran && x.start.deep_view() == channel,
                                    Err(e) => r matches Err(x) && x@ == e,
                                }
                            }
                        },
                    }
                }),
    {
        let ghost before = self@;
        let result: Result<String, GatewayError> =
            self.registry.register_from_login_with_bot_user_id(token, base_url, bot_user_id, now);
        proof {
            let fresh = choose|fresh: Seq<char>| #[trigger]
                is_account_id(fresh) && registered(
                    before.registry,
                    token@,
                    base_url@,
                    bot_user_id.deep_view(),
                    fresh,
                    now,
                ) == (self.registry@, (match result {
                    Ok(id) => Ok::<Seq<char>, ErrorV>(id@),
                    Err(e) => Err::<Seq<char>, ErrorV>(e@),
                }));
            assert(is_account_id(fresh));
        }
        let id: String = match result {
            Ok(id) => id,
            Err(e) => {
                return Err(e);
            },
        };
        let ran: bool = self.runners.take_text(id.as_str()).is_some();
        if !self.started {
            return Ok(Registered { account_id: id, stop: ran, start: None });
        }
        match self.start_runner(id.as_str()) {
            Ok(start) => Ok(Registered { account_id: id, stop: ran, start: start }),
            Err(e) => Err(e),
        }
    }

    /// Takes an account out of use: whether it ran, and its runner is to be stopped.
    pub fn remove_account(&mut self, account_id: &str) -> (r: Result<bool, GatewayError>)
        ensures
            r matches Ok(ran) && ran == (lookup(old(self)@.runners, account_id@) is Some),
            final(self)@ == (ChannelV {
                runners: without_entry(old(self)@.runners, account_id@),
                registry: RegistryV {
                    accounts: with_status(
                        old(self)@.registry.accounts,
                        account_id@,
                        AccountStatus::Disabled,
                    ),
                    ..old(self)@.registry
                },
                ..old(self)@
            }),
    {
        let ran: bool = self.runners.take_text(account_id).is_some();
        match self.registry.disable_account(account_id) {
            Ok(()) => Ok(ran),
            Err(e) => Err(e),
        }
    }

    /// All accounts as they are listed, after the runners without an account in use are forgotten.
    pub fn list_accounts(&mut self) -> (r: Result<Listing, GatewayError>)
        ensures
            final(self)@ == pruned(old(self)@),
            r matches Ok(l) && texts(l.stopped@) == stale(
                old(self)@.runners,
                active_ids(old(self)@.registry.accounts),
            ) && l.accounts.deep_view() == listing(pruned(old(self)@)),
    {
        let stopped: Vec<String> = match self.prune_inactive_runners() {
            Ok(ids) => ids,
            Err(e) => {
                return Err(e);
            },
        };
        let accounts: Vec<Json> = self.describe_accounts();
        Ok(Listing { accounts: accounts, stopped: stopped })
    }

    fn describe_accounts(&self) -> (r: Vec<Json>)
        ensures
            r.deep_view() == listing(self@),
    {
        let ghost c = self@;
        let ghost all = c.registry.accounts;
        let ghost f = |e: (Seq<char>, EntryV)| listed(e.0, e.1, lookup(c.runners, e.0) is Some);
        let mut out: Vec<Json> = Vec::new();
        let mut i: usize = 0;
        assert(out.deep_view() =~= all.take(0).map_values(f));
        let es: &Vec<(String, WeChatAccountEntry)> = self.registry.accounts.entries();
        while i < es.len()
            invariant
                i <= es@.len(),
                pairs(es@) == self.registry.accounts@,
                c == self@,
                all == c.registry.accounts,
                f == |e: (Seq<char>, EntryV)| listed(e.0, e.1, lookup(c.runners, e.0) is Some),
                out.deep_view() == all.take(i as int).map_values(f),
            decreases es@.len() - i,
        {
            let e: &(String, WeChatAccountEntry) = &es[i];
            let on: bool = self.runners.get_text(e.0.as_str()).is_some();
            let ghost before = out.deep_view();
            out.push(list_account(e.0.as_str(), &e.1, on));
            proof {
                assert(all[i as int] == (e.0@, e.1@));
                assert(out.deep_view() =~= before.push(f(all[i as int])));
                assert(all.take(i + 1).map_values(f) =~= all.take(i as int).map_values(f).push(
                    f(all[i as int]),
                ));
            }
            i = i + 1;
        }
        assert(all.take(all.len() as int) == all);
        out
    }

    /// Starts the channel: the accounts that are to be started.
    pub fn start(&mut self) -> (r: Vec<String>)
        ensures
            texts(r@) == active_ids(old(self)@.registry.accounts),
            final(self)@ == (ChannelV { started: true, ..old(self)@ }),
    {
        self.started = true;
        self.active_accounts()
    }

    /// Stops the channel: the accounts whose runners are to be stopped.
    pub fn stop(&mut self) -> (r: Vec<String>)
        ensures
            texts(r@) == keys(old(self)@.runners),
            final(self)@ == (ChannelV { started: false, runners: Seq::empty(), ..old(self)@ }),
    {
        let ids: Vec<String> = running(&self.runners);
        self.runners = Table::new_texts();
        self.started = false;
        ids
    }

    /// How the channel does, after the runners without an account in use are forgotten.
    pub fn health_check(&mut self) -> (r: Health)
        ensures
            final(self)@ == pruned(old(self)@),
            texts(r.stopped@) == stale(
                old(self)@.runners,
                active_ids(old(self)@.registry.accounts),
            ),
            r.body@ == health(pruned(old(self)@).runners.len()),
    {
        let stopped: Vec<String> = match self.prune_inactive_runners() {
            Ok(ids) => ids,
            Err(_) => Vec::new(),
        };
        let n: usize = self.runners.len();
        assert(n == self@.runners.len());
        Health { body: describe_health(n), stopped: stopped }
    }
}

/// After a login, the account runs with a new runner and never with the one from before: where the
/// channel has started, the account is to be started, whether it ran or not.
pub proof fn login_replaces_the_runner(
    c: ChannelV,
    token: Seq<char>,
    base_url: Seq<char>,
    bot: Option<Seq<char>>,
    fresh: Seq<char>,
    now: u64,
)
    requires
        sound(c.registry.accounts),
        registered(c.registry, token, base_url, bot, fresh, now).1 is Ok,
    ensures
        ({
            let (v, id) = registered(c.registry, token, base_url, bot, fresh, now);
            let id = id->Ok_0;
            start_plan(
                ChannelV { registry: v, runners: without_entry(c.runners, id), ..c },
                id,
            ) == Ok::<Option<Seq<char>>, ErrorV>(Some(channel_of(id)))
        }),
{
    let id = registered(c.registry, token, base_url, bot, fresh, now).1->Ok_0;
    registered_account_is_in_use(c.registry, token, base_url, bot, fresh, now);
    without_entry_lookup(c.runners, id, id);
}

} // verus!
