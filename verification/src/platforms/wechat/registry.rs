//! The accounts of WeChat bots.

use vstd::prelude::*;

use crate::error::{ErrorV, GatewayError};
use crate::ids::{is_small_hex, new_simple_uuid};
use crate::paths::{path_join, path_of};
use crate::platforms::tokens::{
    are_trimmed, putting_keeps_tokens_trimmed, token_of, trim_tokens, trimmed_tokens,
};
use crate::platforms::wechat::client::DEFAULT_BASE_URL;
use crate::platforms::wechat::login::{trim_unless_blank, unless_blank};
use crate::strs::{concat2, concat3, decimal, same, take_chars, trim, trimmed, u64_string};
use crate::table::{
    first_entry, held, held_keys_differ, held_lookup, held_with, keys_differ, lookup,
    lookup_is_an_entry, no_entry, pairs, with_entry, with_entry_keys_differ, with_entry_lookup,
    Table,
};

verus! {

/// The file, in the data directory, that lists the accounts.
pub const REGISTRY_FILE: &'static str = "wechat_accounts.json";

/// The account of a token that was kept before there were accounts.
pub const LEGACY_ACCOUNT_ID: &'static str = "acc_legacy";

/// The file, in the data directory, that held a token before there were accounts.
pub const LEGACY_TOKEN_FILE: &'static str = "wechat_bot_token";

/// The file, in the data directory, that held a cursor before there were accounts.
pub const LEGACY_CURSOR_FILE: &'static str = "wechat_cursor";

/// Whether an account is in use.
#[derive(Debug, Clone, Copy, PartialEq, Eq, Structural)]
pub enum AccountStatus {
    Active,
    Disabled,
}

impl Default for AccountStatus {
    fn default() -> (r: Self)
        ensures
            r == AccountStatus::Active,
    {
        AccountStatus::Active
    }
}

/// An account.
#[derive(Debug)]
pub struct WeChatAccountEntry {
    pub bot_user_id: Option<String>,
    pub base_url: String,
    pub status: AccountStatus,
    pub created_at: u64,
}

/// What an account holds.
#[verifier::ext_equal]
pub struct EntryV {
    pub bot_user_id: Option<Seq<char>>,
    pub base_url: Seq<char>,
    pub status: AccountStatus,
    pub created_at: u64,
}

impl View for WeChatAccountEntry {
    type V = EntryV;

    open spec fn view(&self) -> EntryV {
        EntryV {
            bot_user_id: self.bot_user_id.deep_view(),
            base_url: self.base_url@,
            status: self.status,
            created_at: self.created_at,
        }
    }
}

impl DeepView for WeChatAccountEntry {
    type V = EntryV;

    open spec fn deep_view(&self) -> EntryV {
        self@
    }
}

impl WeChatAccountEntry {
    /// A copy of the account.
    pub fn dup(&self) -> (r: WeChatAccountEntry)
        ensures
            r@ == self@,
    {
        WeChatAccountEntry {
            bot_user_id: match &self.bot_user_id {
                Some(s) => Some(s.clone()),
                None => None,
            },
            base_url: self.base_url.clone(),
            status: self.status,
            created_at: self.created_at,
        }
    }
}

/// The channel of an account.
pub open spec fn channel_of(account_id: Seq<char>) -> Seq<char> {
    "wechat:"@ + account_id
}

/// The channel of an account.
pub fn channel_id_for(account_id: &str) -> (r: String)
    ensures
        r@ == channel_of(account_id@),
{
    concat2("wechat:", account_id)
}

/// Different accounts have different channels.
pub proof fn channels_differ(a: Seq<char>, b: Seq<char>)
    requires
        channel_of(a) == channel_of(b),
    ensures
        a == b,
{
    let n = "wechat:"@.len() as int;
    assert(channel_of(a).skip(n) == a);
    assert(channel_of(b).skip(n) == b);
}

/// The directory of an account.
pub open spec fn dir_of(data_dir: Seq<char>, account_id: Seq<char>) -> Seq<char> {
    path_of(path_of(data_dir, "wechat"@), account_id)
}

/// The directory of an account.
pub fn account_dir(data_dir: &str, account_id: &str) -> (r: String)
    ensures
        r@ == dir_of(data_dir@, account_id@),
{
    let d: String = path_join(data_dir, "wechat");
    path_join(d.as_str(), account_id)
}

/// The file that holds the token of an account.
pub fn token_file_path(data_dir: &str, account_id: &str) -> (r: String)
    ensures
        r@ == path_of(dir_of(data_dir@, account_id@), "bot_token"@),
{
    let d: String = account_dir(data_dir, account_id);
    path_join(d.as_str(), "bot_token")
}

/// The file that holds the cursor of an account.
pub fn cursor_file_path(data_dir: &str, account_id: &str) -> (r: String)
    ensures
        r@ == path_of(dir_of(data_dir@, account_id@), "cursor"@),
{
    let d: String = account_dir(data_dir, account_id);
    path_join(d.as_str(), "cursor")
}

/// The accounts, and what their token files hold.
pub struct WeChatAccountRegistry {
    pub data_dir: String,
    pub max_accounts: usize,
    pub accounts: Table<WeChatAccountEntry>,
    pub tokens: Table<String>,
}

/// What a registry holds.
#[verifier::ext_equal]
pub struct RegistryV {
    pub data_dir: Seq<char>,
    pub max_accounts: usize,
    pub accounts: Seq<(Seq<char>, EntryV)>,
    pub tokens: Seq<(Seq<char>, Seq<char>)>,
}

impl View for WeChatAccountRegistry {
    type V = RegistryV;

    open spec fn view(&self) -> RegistryV {
        RegistryV {
            data_dir: self.data_dir@,
            max_accounts: self.max_accounts,
            accounts: held(self.accounts@),
            tokens: self.tokens.texts(),
        }
    }
}

/// The accounts in use.
pub open spec fn active(accounts: Seq<(Seq<char>, EntryV)>) -> Seq<(Seq<char>, EntryV)>
    decreases accounts.len(),
{
    if accounts.len() == 0 {
        Seq::empty()
    } else if accounts.last().1.status == AccountStatus::Active {
        active(accounts.drop_last()).push(accounts.last())
    } else {
        active(accounts.drop_last())
    }
}

/// The list holds exactly the accounts in use, each once, as they are found under their ids.
pub open spec fn lists_those_in_use(
    list: Seq<(Seq<char>, EntryV)>,
    accounts: Seq<(Seq<char>, EntryV)>,
) -> bool {
    &&& keys_differ(list)
    &&& forall|i: int|
        0 <= i < list.len() ==> lookup(accounts, (#[trigger] list[i]).0) == Some(list[i].1)
            && list[i].1.status == AccountStatus::Active
    &&& forall|id: Seq<char>|
        (#[trigger] lookup(accounts, id) matches Some(e) && e.status == AccountStatus::Active) ==> (
        exists|i: int| 0 <= i < list.len() && #[trigger] list[i] == (id, lookup(accounts, id)->0))
}

/// Whether an account is in use for the bot.
pub open spec fn runs_bot(e: EntryV, bot: Seq<char>) -> bool {
    e.status == AccountStatus::Active && e.bot_user_id == Some(bot)
}

/// The first account that is in use for the bot.
pub open spec fn account_of(accounts: Seq<(Seq<char>, EntryV)>, bot: Seq<char>) -> Option<Seq<char>>
    decreases accounts.len(),
{
    if accounts.len() == 0 {
        None
    } else if runs_bot(accounts[0].1, bot) {
        Some(accounts[0].0)
    } else {
        account_of(accounts.drop_first(), bot)
    }
}

/// The accounts with another status for `id`, where there is such an account.
pub open spec fn with_status(
    accounts: Seq<(Seq<char>, EntryV)>,
    id: Seq<char>,
    status: AccountStatus,
) -> Seq<(Seq<char>, EntryV)> {
    match lookup(accounts, id) {
        Some(e) => with_entry(accounts, id, EntryV { status: status, ..e }),
        None => accounts,
    }
}

/// A URL, or the usual one where it is empty.
pub open spec fn url_or_default(base_url: Seq<char>) -> Seq<char> {
    if base_url.len() == 0 {
        DEFAULT_BASE_URL@
    } else {
        base_url
    }
}

fn usual_url(base_url: &str) -> (r: String)
    ensures
        r@ == url_or_default(base_url@),
{
    if base_url.is_empty() {
        DEFAULT_BASE_URL.to_owned()
    } else {
        base_url.to_owned()
    }
}

/// A new account.
pub open spec fn new_entry(base_url: Seq<char>, bot: Option<Seq<char>>, now: u64) -> EntryV {
    EntryV {
        bot_user_id: bot,
        base_url: url_or_default(base_url),
        status: AccountStatus::Active,
        created_at: now,
    }
}

/// What registering a login comes to: the account that is in use for the bot, or `None` for a new
/// one.
pub open spec fn registration(v: RegistryV, bot: Option<Seq<char>>) -> Result<
    Option<Seq<char>>,
    ErrorV,
> {
    let existing = match bot {
        Some(b) => account_of(v.accounts, b),
        None => None,
    };
    match existing {
        Some(id) => Ok(Some(id)),
        None => if active(v.accounts).len() >= v.max_accounts {
            Err(
                ErrorV::Config(
                    "wechat account limit reached ("@ + decimal(v.max_accounts as nat) + ")"@,
                ),
            )
        } else {
            Ok(None)
        },
    }
}

/// The registry after a login to an account that it has.
pub open spec fn renewed(v: RegistryV, id: Seq<char>, token: Seq<char>, base_url: Seq<char>) -> RegistryV {
    RegistryV {
        tokens: with_entry(v.tokens, id, trimmed(token)),
        accounts: match lookup(v.accounts, id) {
            Some(e) => if base_url.len() > 0 && e.base_url != base_url {
                with_entry(v.accounts, id, EntryV { base_url: base_url, ..e })
            } else {
                v.accounts
            },
            None => v.accounts,
        },
        ..v
    }
}

/// The registry with a new account.
pub open spec fn with_account(
    v: RegistryV,
    id: Seq<char>,
    token: Seq<char>,
    base_url: Seq<char>,
    bot: Option<Seq<char>>,
    now: u64,
) -> RegistryV {
    RegistryV {
        accounts: with_entry(v.accounts, id, new_entry(base_url, bot, now)),
        tokens: with_entry(v.tokens, id, trimmed(token)),
        ..v
    }
}

/// The registry after a login, and its account. A new account gets the id `fresh`.
pub open spec fn registered(
    v: RegistryV,
    token: Seq<char>,
    base_url: Seq<char>,
    bot_user_id: Option<Seq<char>>,
    fresh: Seq<char>,
    now: u64,
) -> (RegistryV, Result<Seq<char>, ErrorV>) {
    let bot = unless_blank(bot_user_id);
    match registration(v, bot) {
        Err(e) => (v, Err(e)),
        Ok(Some(id)) => (renewed(v, id, token, base_url), Ok(id)),
        Ok(None) => (with_account(v, fresh, token, base_url, bot, now), Ok(fresh)),
    }
}

/// The registry after two accounts turned out to be one: `existing` goes on with the newer token
/// of `id`, and `id` is out of use.
pub open spec fn merged(v: RegistryV, id: Seq<char>, existing: Seq<char>) -> RegistryV {
    let t = token_of(v.tokens, id);
    RegistryV {
        accounts: with_status(v.accounts, id, AccountStatus::Disabled),
        tokens: if t.len() > 0 {
            with_entry(v.tokens, existing, trimmed(t))
        } else {
            v.tokens
        },
        ..v
    }
}

/// The accounts once the bot of an account is known.
pub open spec fn with_bot(accounts: Seq<(Seq<char>, EntryV)>, id: Seq<char>, bot: Seq<char>) -> Seq<
    (Seq<char>, EntryV),
> {
    match lookup(accounts, id) {
        Some(e) => if e.bot_user_id == Some(bot) {
            accounts
        } else {
            with_entry(accounts, id, EntryV { bot_user_id: Some(bot), ..e })
        },
        None => accounts,
    }
}

/// The registry once the bot of an account is known, and the account that it was merged into.
pub open spec fn identified(v: RegistryV, id: Seq<char>, bot: Seq<char>) -> (
    RegistryV,
    Option<Seq<char>>,
) {
    if bot.len() == 0 {
        (v, None)
    } else {
        match account_of(v.accounts, bot) {
            Some(existing) => if existing != id {
                (merged(v, id, existing), Some(existing))
            } else {
                (RegistryV { accounts: with_bot(v.accounts, id, bot), ..v }, None)
            },
            None => (RegistryV { accounts: with_bot(v.accounts, id, bot), ..v }, None),
        }
    }
}

/// The registry with the account of a token that was kept elsewhere, where it has no account yet and
/// there is a token.
pub open spec fn migrated(v: RegistryV, token: Seq<char>, base_url: Seq<char>, now: u64) -> RegistryV {
    if v.accounts.len() == 0 && token.len() > 0 {
        with_account(v, LEGACY_ACCOUNT_ID@, token, base_url, None, now)
    } else {
        v
    }
}

/// The id of an account: `acc_` and eight hexadecimal digits.
pub open spec fn is_account_id(s: Seq<char>) -> bool {
    exists|d: Seq<char>|
        s == "acc_"@ + d && d.len() == 8 && forall|i: int|
            0 <= i < 8 ==> is_small_hex(#[trigger] d[i])
}

/// An id for a new account.
pub fn new_account_id() -> (r: String)
    ensures
        is_account_id(r@),
{
    let u: String = new_simple_uuid();
    let d: &str = take_chars(u.as_str(), 8);
    assert forall|i: int| 0 <= i < 8 implies is_small_hex(#[trigger] d@[i]) by {
        assert(d@[i] == u@[i]);
    }
    concat2("acc_", d)
}

impl WeChatAccountRegistry {
    /// The registry of the accounts and tokens that were read. The tokens are trimmed.
    pub fn load(
        data_dir: String,
        max_accounts: usize,
        accounts: Table<WeChatAccountEntry>,
        tokens: Table<String>,
    ) -> (r: WeChatAccountRegistry)
        ensures
            r@ == (RegistryV {
                data_dir: data_dir@,
                max_accounts: max_accounts,
                accounts: held(accounts@),
                tokens: trimmed_tokens(tokens.texts()),
            }),
            are_trimmed(r@.tokens),
    {
        WeChatAccountRegistry {
            data_dir: data_dir,
            max_accounts: max_accounts,
            accounts: accounts,
            tokens: trim_tokens(tokens),
        }
    }

    /// The directory of the data.
    pub fn data_dir(&self) -> (r: &str)
        ensures
            r@ == self@.data_dir,
    {
        self.data_dir.as_str()
    }

    /// Takes note of what a token file holds.
    pub fn note_token_file(&mut self, account_id: &str, contents: &str)
        ensures
            final(self)@ == (RegistryV {
                tokens: with_entry(old(self)@.tokens, account_id@, trimmed(contents@)),
                ..old(self)@
            }),
    {
        self.tokens.put_text(account_id, trim(contents));
    }

    /// The accounts in use, each of them once.
    pub fn list_active(&self) -> (r: Result<Vec<(String, WeChatAccountEntry)>, GatewayError>)
        ensures
            r matches Ok(list) && list.deep_view() == active(self@.accounts),
            keys_differ(self@.accounts),
            lists_those_in_use(active(self@.accounts), self@.accounts),
    {
        let ghost all = self@.accounts;
        let mut out: Vec<(String, WeChatAccountEntry)> = Vec::new();
        let mut i: usize = 0;
        assert(all.take(0) == Seq::<(Seq<char>, EntryV)>::empty());
        assert(out.deep_view() =~= Seq::<(Seq<char>, EntryV)>::empty());
        let es: &Vec<(String, WeChatAccountEntry)> = self.accounts.entries();
        while i < es.len()
            invariant
                i <= es@.len(),
                pairs(es@) == self.accounts@,
                all == self@.accounts,
                out.deep_view() == active(all.take(i as int)),
            decreases es@.len() - i,
        {
            let e: &(String, WeChatAccountEntry) = &es[i];
            proof {
                assert(all.take(i + 1).drop_last() == all.take(i as int));
                assert(all.take(i + 1).last() == (e.0@, e.1@));
            }
            if e.1.status == AccountStatus::Active {
                let ghost before = out.deep_view();
                out.push((e.0.clone(), e.1.dup()));
                assert(out.deep_view() =~= before.push((e.0@, e.1@)));
            }
            i = i + 1;
        }
        proof {
            assert(all.take(all.len() as int) == all);
            held_keys_differ(self.accounts@);
            accounts_in_use_are_listed_once(all);
        }
        Ok(out)
    }

    /// All accounts, each of them once.
    pub fn list_all(&self) -> (r: Result<Vec<(String, WeChatAccountEntry)>, GatewayError>)
        ensures
            r matches Ok(list) && list.deep_view() == self@.accounts,
            keys_differ(self@.accounts),
    {
        let ghost all = self@.accounts;
        let mut out: Vec<(String, WeChatAccountEntry)> = Vec::new();
        let mut i: usize = 0;
        assert(out.deep_view() =~= all.take(0));
        let es: &Vec<(String, WeChatAccountEntry)> = self.accounts.entries();
        while i < es.len()
            invariant
                i <= es@.len(),
                pairs(es@) == self.accounts@,
                all == self@.accounts,
                out.deep_view() == all.take(i as int),
            decreases es@.len() - i,
        {
            let e: &(String, WeChatAccountEntry) = &es[i];
            let ghost before = out.deep_view();
            out.push((e.0.clone(), e.1.dup()));
            proof {
                assert(out.deep_view() =~= before.push((e.0@, e.1@)));
                assert(all.take(i + 1) =~= all.take(i as int).push(all[i as int]));
            }
            i = i + 1;
        }
        proof {
            assert(all.take(all.len() as int) == all);
            held_keys_differ(self.accounts@);
        }
        Ok(out)
    }

    /// The account `account_id`.
    pub fn get(&self, account_id: &str) -> (r: Result<Option<WeChatAccountEntry>, GatewayError>)
        ensures
            r matches Ok(e) && e.deep_view() == lookup(self@.accounts, account_id@),
    {
        proof {
            held_lookup(self.accounts@, account_id@);
        }
        match self.accounts.get(account_id) {
            Some(e) => Ok(Some(e.dup())),
            None => Ok(None),
        }
    }

    /// The token of an account; empty where it has no token file.
    pub fn load_token(&self, account_id: &str) -> (r: Result<String, GatewayError>)
        ensures
            r matches Ok(t) && t@ == token_of(self@.tokens, account_id@),
    {
        match self.tokens.get_text(account_id) {
            Some(t) => Ok(t.to_owned()),
            None => Ok(String::new()),
        }
    }

    /// The first account that is in use for the bot; none for an empty id.
    pub fn find_by_bot_user_id(&self, bot_user_id: &str) -> (r: Result<
        Option<String>,
        GatewayError,
    >)
        ensures
            r matches Ok(id) && id.deep_view() == if bot_user_id@.len() == 0 {
                None
            } else {
                account_of(self@.accounts, bot_user_id@)
            },
    {
        if bot_user_id.is_empty() {
            return Ok(None);
        }
        let ghost all = self@.accounts;
        let mut i: usize = 0;
        assert(all.skip(0) == all);
        let es: &Vec<(String, WeChatAccountEntry)> = self.accounts.entries();
        while i < es.len()
            invariant
                i <= es@.len(),
                pairs(es@) == self.accounts@,
                all == self@.accounts,
                bot_user_id@.len() > 0,
                account_of(all, bot_user_id@) == account_of(all.skip(i as int), bot_user_id@),
            decreases es@.len() - i,
        {
            let e: &(String, WeChatAccountEntry) = &es[i];
            assert(all.skip(i as int)[0] == (e.0@, e.1@));
            let same_bot: bool = match &e.1.bot_user_id {
                Some(b) => same(b.as_str(), bot_user_id),
                None => false,
            };
            if same_bot && e.1.status == AccountStatus::Active {
                return Ok(Some(e.0.clone()));
            }
            assert(all.skip(i as int).drop_first() == all.skip(i + 1));
            i = i + 1;
        }
        Ok(None)
    }

    /// What registering a login of the bot comes to: the account that is in use for it, or `None` for
    /// a new one.
    pub fn plan_registration(&self, bot_user_id: Option<&str>) -> (r: Result<
        Option<String>,
        GatewayError,
    >)
        requires
            bot_user_id matches Some(b) ==> b@.len() > 0,
        ensures
            match r {
                Ok(id) => registration(self@, bot_user_id.deep_view()) == Ok::<
                    Option<Seq<char>>,
                    ErrorV,
                >(id.deep_view()),
                Err(e) => registration(self@, bot_user_id.deep_view()) == Err::<
                    Option<Seq<char>>,
                    ErrorV,
                >(e@),
            },
    {
        if let Some(b) = bot_user_id {
            if let Ok(Some(id)) = self.find_by_bot_user_id(b) {
                return Ok(Some(id));
            }
        }
        let count: usize = match self.list_active() {
            Ok(list) => list.len(),
            Err(e) => {
                return Err(e);
            },
        };
        if count >= self.max_accounts {
            let n: String = u64_string(self.max_accounts as u64);
            return Err(
                GatewayError::Config(concat3("wechat account limit reached (", n.as_str(), ")")),
            );
        }
        Ok(None)
    }

    /// Renews the login of an account. Whether the list of accounts changed.
    pub fn renew_login(&mut self, account_id: &str, token: &str, base_url: &str) -> (r: bool)
        ensures
            final(self)@ == renewed(old(self)@, account_id@, token@, base_url@),
            r == (lookup(old(self)@.accounts, account_id@) matches Some(e) && base_url@.len() > 0
                && e.base_url != base_url@),
    {
        self.tokens.put_text(account_id, trim(token));
        proof {
            held_lookup(self.accounts@, account_id@);
        }
        let changed: Option<WeChatAccountEntry> = match self.accounts.get(account_id) {
            Some(e) => {
                if base_url.is_empty() || same(e.base_url.as_str(), base_url) {
                    None
                } else {
                    let mut c: WeChatAccountEntry = e.dup();
                    c.base_url = base_url.to_owned();
                    Some(c)
                }
            },
            None => None,
        };
        match changed {
            Some(c) => {
                proof {
                    held_with(self.accounts@, account_id@, c);
                }
                self.accounts.insert(account_id.to_owned(), c);
                true
            },
            None => false,
        }
    }

    /// Adds an account with its token.
    fn add_account(
        &mut self,
        account_id: &str,
        token: &str,
        base_url: &str,
        bot_user_id: Option<String>,
        now: u64,
    )
        ensures
            final(self)@ == with_account(
                old(self)@,
                account_id@,
                token@,
                base_url@,
                bot_user_id.deep_view(),
                now,
            ),
    {
        self.tokens.put_text(account_id, trim(token));
        let entry: WeChatAccountEntry = WeChatAccountEntry {
            bot_user_id: bot_user_id,
            base_url: usual_url(base_url),
            status: AccountStatus::Active,
            created_at: now,
        };
        proof {
            held_with(self.accounts@, account_id@, entry);
        }
        self.accounts.insert(account_id.to_owned(), entry);
    }

    /// Registers a login. A new account gets the id `fresh`.
    pub fn register_with_id(
        &mut self,
        token: &str,
        base_url: &str,
        bot_user_id: Option<&str>,
        fresh: String,
        now: u64,
    ) -> (r: Result<String, GatewayError>)
        ensures
            registered(
                old(self)@,
                token@,
                base_url@,
                bot_user_id.deep_view(),
                fresh@,
                now,
            ) == (final(self)@, (match r {
                Ok(id) => Ok::<Seq<char>, ErrorV>(id@),
                Err(e) => Err::<Seq<char>, ErrorV>(e@),
            })),
    {
        let bot: Option<String> = trim_unless_blank(bot_user_id);
        let named: Option<&str> = match &bot {
            Some(b) => Some(b.as_str()),
            None => None,
        };
        match self.plan_registration(named) {
            Err(e) => Err(e),
            Ok(Some(id)) => {
                let _ = self.renew_login(id.as_str(), token, base_url);
                Ok(id)
            },
            Ok(None) => {
                self.add_account(fresh.as_str(), token, base_url, bot, now);
                Ok(fresh)
            },
        }
    }

    /// Registers a login. A new account gets a fresh id.
    pub fn register_from_login_with_bot_user_id(
        &mut self,
        token: &str,
        base_url: &str,
        bot_user_id: Option<&str>,
        now: u64,
    ) -> (r: Result<String, GatewayError>)
        ensures
            exists|fresh: Seq<char>| #[trigger]
                is_account_id(fresh) && registered(
                    old(self)@,
                    token@,
                    base_url@,
                    bot_user_id.deep_view(),
                    fresh,
                    now,
                ) == (final(self)@, (match r {
                    Ok(id) => Ok::<Seq<char>, ErrorV>(id@),
                    Err(e) => Err::<Seq<char>, ErrorV>(e@),
                })),
    {
        let fresh: String = new_account_id();
        self.register_with_id(token, base_url, bot_user_id, fresh, now)
    }

    /// Registers a login of which the bot is not known.
    pub fn register_from_login(&mut self, token: &str, base_url: &str, now: u64) -> (r: Result<
        String,
        GatewayError,
    >)
        ensures
            exists|fresh: Seq<char>| #[trigger]
                is_account_id(fresh) && registered(
                    old(self)@,
                    token@,
                    base_url@,
                    None,
                    fresh,
                    now,
                ) == (final(self)@, (match r {
                    Ok(id) => Ok::<Seq<char>, ErrorV>(id@),
                    Err(e) => Err::<Seq<char>, ErrorV>(e@),
                })),
    {
        let fresh: String = new_account_id();
        self.register_with_id(token, base_url, None, fresh, now)
    }

    /// Gives an account another token.
    pub fn update_token(&mut self, account_id: &str, token: &str) -> (r: Result<(), GatewayError>)
        ensures
            r is Ok,
            final(self)@ == (RegistryV {
                tokens: with_entry(old(self)@.tokens, account_id@, trimmed(token@)),
                ..old(self)@
            }),
    {
        self.tokens.put_text(account_id, trim(token));
        Ok(())
    }

    fn set_status(&mut self, account_id: &str, status: AccountStatus)
        ensures
            final(self)@ == (RegistryV {
                accounts: with_status(old(self)@.accounts, account_id@, status),
                ..old(self)@
            }),
    {
        proof {
            held_lookup(self.accounts@, account_id@);
        }
        let changed: Option<WeChatAccountEntry> = match self.accounts.get(account_id) {
            Some(e) => {
                let mut c: WeChatAccountEntry = e.dup();
                c.status = status;
                Some(c)
            },
            None => None,
        };
        if let Some(c) = changed {
            proof {
                held_with(self.accounts@, account_id@, c);
            }
            self.accounts.insert(account_id.to_owned(), c);
        }
    }

    /// Puts an account out of use.
    pub fn disable_account(&mut self, account_id: &str) -> (r: Result<(), GatewayError>)
        ensures
            r is Ok,
            final(self)@ == (RegistryV {
                accounts: with_status(old(self)@.accounts, account_id@, AccountStatus::Disabled),
                ..old(self)@
            }),
    {
        self.set_status(account_id, AccountStatus::Disabled);
        Ok(())
    }

    /// Lets `existing_id` go on with the token of `account_id`, which is then out of use.
    pub fn merge_account(&mut self, account_id: &str, existing_id: &str)
        ensures
            final(self)@ == merged(old(self)@, account_id@, existing_id@),
    {
        let token: Option<String> = match self.tokens.get_text(account_id) {
            Some(t) => Some(t.to_owned()),
            None => None,
        };
        if let Some(t) = token {
            if !t.as_str().is_empty() {
                self.tokens.put_text(existing_id, trim(t.as_str()));
            }
        }
        self.set_status(account_id, AccountStatus::Disabled);
    }

    /// Takes note of the bot of an account. Whether that was news.
    pub fn set_bot(&mut self, account_id: &str, bot_user_id: &str) -> (r: bool)
        ensures
            final(self)@ == (RegistryV {
                accounts: with_bot(old(self)@.accounts, account_id@, bot_user_id@),
                ..old(self)@
            }),
            r == (lookup(old(self)@.accounts, account_id@) matches Some(e) && e.bot_user_id != Some(
                bot_user_id@,
            )),
    {
        proof {
            held_lookup(self.accounts@, account_id@);
        }
        let changed: Option<WeChatAccountEntry> = match self.accounts.get(account_id) {
            Some(e) => {
                let same_bot: bool = match &e.bot_user_id {
                    Some(b) => same(b.as_str(), bot_user_id),
                    None => false,
                };
                if same_bot {
                    None
                } else {
                    let mut c: WeChatAccountEntry = e.dup();
                    c.bot_user_id = Some(bot_user_id.to_owned());
                    Some(c)
                }
            },
            None => None,
        };
        match changed {
            Some(c) => {
                proof {
                    held_with(self.accounts@, account_id@, c);
                }
                self.accounts.insert(account_id.to_owned(), c);
                true
            },
            None => false,
        }
    }

    /// Takes note of the bot of an account. Where another account is in use for that bot, the two
    /// are merged into that one, which is returned.
    pub fn upsert_bot_user_id(&mut self, account_id: &str, bot_user_id: &str) -> (r: Result<
        Option<String>,
        GatewayError,
    >)
        ensures
            r matches Ok(m) && identified(old(self)@, account_id@, bot_user_id@) == (
                final(self)@,
                m.deep_view(),
            ),
    {
        if bot_user_id.is_empty() {
            return Ok(None);
        }
        if let Ok(Some(existing)) = self.find_by_bot_user_id(bot_user_id) {
            if !same(existing.as_str(), account_id) {
                self.merge_account(account_id, existing.as_str());
                return Ok(Some(existing));
            }
        }
        let _ = self.set_bot(account_id, bot_user_id);
        Ok(None)
    }

    /// Takes over the token that was kept before there were accounts. Whether it did.
    pub fn migrate_legacy_token(&mut self, legacy_token: &str, now: u64) -> (r: bool)
        ensures
            final(self)@ == migrated(old(self)@, trimmed(legacy_token@), Seq::empty(), now),
            r == (old(self)@.accounts.len() == 0 && trimmed(legacy_token@).len() > 0),
    {
        let t: &str = trim(legacy_token);
        assert(self@.accounts.len() == self.accounts@.len());
        if self.accounts.len() > 0 || t.is_empty() {
            return false;
        }
        proof {
            reveal_strlit("");
            assert(""@ =~= Seq::<char>::empty());
        }
        self.add_account(LEGACY_ACCOUNT_ID, t, "", None, now);
        true
    }

    /// Takes over the token that the configuration holds, or else that of the file it names. Whether
    /// it did.
    pub fn migrate_inline_config_token(
        &mut self,
        inline_token: &str,
        file_token: &str,
        base_url: &str,
        now: u64,
    ) -> (r: bool)
        ensures
            ({
                let token = if inline_token@.len() > 0 {
                    inline_token@
                } else {
                    trimmed(file_token@)
                };
                &&& final(self)@ == migrated(old(self)@, token, base_url@, now)
                &&& r == (old(self)@.accounts.len() == 0 && token.len() > 0)
            }),
    {
        let token: &str = if inline_token.is_empty() {
            trim(file_token)
        } else {
            inline_token
        };
        assert(self@.accounts.len() == self.accounts@.len());
        if self.accounts.len() > 0 || token.is_empty() {
            return false;
        }
        self.add_account(LEGACY_ACCOUNT_ID, token, base_url, None, now);
        true
    }
}

// ---------------------------------------------------------------------------------------------
// Laws
// ---------------------------------------------------------------------------------------------

/// No two accounts are in use for the same bot.
pub open spec fn bots_differ(accounts: Seq<(Seq<char>, EntryV)>) -> bool {
    forall|i: int, j: int|
        0 <= i < j < accounts.len() && (#[trigger] accounts[i]).1.status == AccountStatus::Active
            && (#[trigger] accounts[j]).1.status == AccountStatus::Active
            && accounts[i].1.bot_user_id is Some ==> accounts[i].1.bot_user_id
            != accounts[j].1.bot_user_id
}

/// The accounts are as they should be: each id stands once, and no two are in use for the same bot.
pub open spec fn sound(accounts: Seq<(Seq<char>, EntryV)>) -> bool {
    keys_differ(accounts) && bots_differ(accounts)
}

proof fn account_of_runs(accounts: Seq<(Seq<char>, EntryV)>, bot: Seq<char>)
    ensures
        match account_of(accounts, bot) {
            Some(id) => exists|i: int|
                0 <= i < accounts.len() && (#[trigger] accounts[i]).0 == id && runs_bot(
                    accounts[i].1,
                    bot,
                ),
            None => forall|i: int|
                0 <= i < accounts.len() ==> !runs_bot((#[trigger] accounts[i]).1, bot),
        },
    decreases accounts.len(),
{
    if accounts.len() > 0 && !runs_bot(accounts[0].1, bot) {
        let rest = accounts.drop_first();
        account_of_runs(rest, bot);
        match account_of(accounts, bot) {
            Some(id) => {
                let i = choose|i: int|
                    0 <= i < rest.len() && (#[trigger] rest[i]).0 == id && runs_bot(rest[i].1, bot);
                assert(accounts[i + 1] == rest[i]);
            },
            None => {
                assert forall|i: int| 0 <= i < accounts.len() implies !runs_bot(
                    (#[trigger] accounts[i]).1,
                    bot,
                ) by {
                    if i > 0 {
                        assert(rest[i - 1] == accounts[i]);
                    }
                }
            },
        }
    } else if accounts.len() > 0 {
        assert(accounts[0].0 == accounts[0].0);
    }
}

/// Putting an entry keeps the accounts sound, where no other account is in use for its bot.
proof fn putting_keeps_sound(accounts: Seq<(Seq<char>, EntryV)>, id: Seq<char>, e: EntryV)
    requires
        sound(accounts),
        e.status == AccountStatus::Active && e.bot_user_id is Some ==> forall|i: int|
            0 <= i < accounts.len() && (#[trigger] accounts[i]).0 != id ==> !runs_bot(
                accounts[i].1,
                e.bot_user_id->0,
            ),
    ensures
        sound(with_entry(accounts, id, e)),
{
    let m = with_entry(accounts, id, e);
    with_entry_keys_differ(accounts, id, e);
    lookup_is_an_entry(accounts, id);
    match lookup(accounts, id) {
        Some(x) => {
            let k = choose|k: int|
                0 <= k < accounts.len() && #[trigger] accounts[k] == (id, x) && forall|j: int|
                    0 <= j < k ==> (#[trigger] accounts[j]).0 != id;
            first_entry(accounts, id, k);
            assert(m == accounts.update(k, (id, e)));
            assert forall|i: int, j: int|
                0 <= i < j < m.len() && (#[trigger] m[i]).1.status == AccountStatus::Active && (
                #[trigger] m[j]).1.status == AccountStatus::Active
                    && m[i].1.bot_user_id is Some implies m[i].1.bot_user_id
                != m[j].1.bot_user_id by {
                assert(accounts[i].0 != accounts[j].0);
                if i != k && j != k {
                    assert(m[i] == accounts[i] && m[j] == accounts[j]);
                }
            }
        },
        None => {
            no_entry(accounts, id);
            assert(m == accounts.push((id, e)));
            assert forall|i: int, j: int|
                0 <= i < j < m.len() && (#[trigger] m[i]).1.status == AccountStatus::Active && (
                #[trigger] m[j]).1.status == AccountStatus::Active
                    && m[i].1.bot_user_id is Some implies m[i].1.bot_user_id
                != m[j].1.bot_user_id by {
                assert(m[i] == accounts[i]);
                if j < accounts.len() {
                    assert(m[j] == accounts[j]);
                }
            }
        },
    }
}

/// What stands under a key runs a bot only where no other account does.
proof fn own_bot_is_ones_own(accounts: Seq<(Seq<char>, EntryV)>, id: Seq<char>, e: EntryV)
    requires
        sound(accounts),
        lookup(accounts, id) == Some(e),
        e.status == AccountStatus::Active,
        e.bot_user_id is Some,
    ensures
        forall|i: int|
            0 <= i < accounts.len() && (#[trigger] accounts[i]).0 != id ==> !runs_bot(
                accounts[i].1,
                e.bot_user_id->0,
            ),
{
    lookup_is_an_entry(accounts, id);
    let k = choose|k: int| 0 <= k < accounts.len() && #[trigger] accounts[k] == (id, e);
    assert forall|i: int| 0 <= i < accounts.len() && (#[trigger] accounts[i]).0 != id implies !runs_bot(
        accounts[i].1,
        e.bot_user_id->0,
    ) by {
        if i < k {
            assert(accounts[k].1 == e);
        } else if i > k {
            assert(accounts[k].1 == e);
        }
    }
}

/// Registering a login never leaves two accounts in use for the same bot.
pub proof fn registering_keeps_accounts_sound(
    v: RegistryV,
    token: Seq<char>,
    base_url: Seq<char>,
    bot_user_id: Option<Seq<char>>,
    fresh: Seq<char>,
    now: u64,
)
    requires
        sound(v.accounts),
    ensures
        sound(registered(v, token, base_url, bot_user_id, fresh, now).0.accounts),
{
    let bot = unless_blank(bot_user_id);
    match registration(v, bot) {
        Ok(Some(id)) => {
            if let Some(e) = lookup(v.accounts, id) {
                if base_url.len() > 0 && e.base_url != base_url {
                    let x = EntryV { base_url: base_url, ..e };
                    if e.status == AccountStatus::Active && e.bot_user_id is Some {
                        own_bot_is_ones_own(v.accounts, id, e);
                    }
                    putting_keeps_sound(v.accounts, id, x);
                }
            }
        },
        Ok(None) => {
            if let Some(b) = bot {
                account_of_runs(v.accounts, b);
            }
            putting_keeps_sound(v.accounts, fresh, new_entry(base_url, bot, now));
        },
        Err(_) => {},
    }
}

/// Taking note of the bots of accounts never leaves two accounts in use for the same bot.
pub proof fn identifying_keeps_accounts_sound(v: RegistryV, id: Seq<char>, bot: Seq<char>)
    requires
        sound(v.accounts),
    ensures
        sound(identified(v, id, bot).0.accounts),
{
    account_of_runs(v.accounts, bot);
    if bot.len() > 0 {
        match lookup(v.accounts, id) {
            Some(e) => match account_of(v.accounts, bot) {
                Some(existing) => {
                    if existing != id {
                        disabling_keeps_accounts_sound(v.accounts, id);
                    } else {
                        let k = choose|k: int|
                            0 <= k < v.accounts.len() && (#[trigger] v.accounts[k]).0 == existing
                                && runs_bot(v.accounts[k].1, bot);
                        lookup_is_an_entry(v.accounts, id);
                        let n = choose|n: int|
                            0 <= n < v.accounts.len() && #[trigger] v.accounts[n] == (id, e);
                        assert(n == k) by {
                            if n < k {
                                assert(v.accounts[n].0 != v.accounts[k].0);
                            } else if k < n {
                                assert(v.accounts[k].0 != v.accounts[n].0);
                            }
                        }
                    }
                },
                None => {
                    putting_keeps_sound(v.accounts, id, EntryV { bot_user_id: Some(bot), ..e });
                },
            },
            None => {},
        }
    }
}

/// Putting an account out of use keeps the accounts sound.
pub proof fn disabling_keeps_accounts_sound(accounts: Seq<(Seq<char>, EntryV)>, id: Seq<char>)
    requires
        sound(accounts),
    ensures
        sound(with_status(accounts, id, AccountStatus::Disabled)),
{
    if let Some(e) = lookup(accounts, id) {
        putting_keeps_sound(accounts, id, EntryV { status: AccountStatus::Disabled, ..e });
    }
}

/// An account that a login registered is in use, for the bot that the login named.
pub proof fn registered_account_is_in_use(
    v: RegistryV,
    token: Seq<char>,
    base_url: Seq<char>,
    bot: Option<Seq<char>>,
    fresh: Seq<char>,
    now: u64,
)
    requires
        sound(v.accounts),
        registered(v, token, base_url, bot, fresh, now).1 is Ok,
    ensures
        ({
            let (v1, id) = registered(v, token, base_url, bot, fresh, now);
            &&& lookup(v1.accounts, id->Ok_0) matches Some(e)
            &&& e.status == AccountStatus::Active
            &&& unless_blank(bot) is Some ==> e.bot_user_id == unless_blank(bot)
        }),
{
    let found = match unless_blank(bot) {
        Some(b) => account_of(v.accounts, b),
        None => None,
    };
    match found {
        Some(existing) => {
            let b = unless_blank(bot)->0;
            account_of_runs(v.accounts, b);
            let k = choose|k: int|
                0 <= k < v.accounts.len() && (#[trigger] v.accounts[k]).0 == existing && runs_bot(
                    v.accounts[k].1,
                    b,
                );
            lookup_is_an_entry(v.accounts, existing);
            let e = lookup(v.accounts, existing)->0;
            assert(lookup(v.accounts, existing) is Some);
            let n = choose|n: int|
                0 <= n < v.accounts.len() && #[trigger] v.accounts[n] == (existing, e);
            assert(n == k) by {
                if n < k {
                    assert(v.accounts[n].0 != v.accounts[k].0);
                } else if k < n {
                    assert(v.accounts[k].0 != v.accounts[n].0);
                }
            }
            with_entry_lookup(v.accounts, existing, EntryV { base_url: base_url, ..e }, existing);
        },
        None => {
            with_entry_lookup(
                v.accounts,
                fresh,
                new_entry(base_url, unless_blank(bot), now),
                fresh,
            );
        },
    }
}

/// Whoever logs in again as the same bot gets the same account, with the newer token.
pub proof fn relogin_keeps_the_account(
    v: RegistryV,
    token: Seq<char>,
    base_url: Seq<char>,
    bot: Seq<char>,
    fresh: Seq<char>,
    now: u64,
    later_token: Seq<char>,
    later_url: Seq<char>,
    later_fresh: Seq<char>,
    later: u64,
)
    requires
        sound(v.accounts),
        trimmed(bot).len() > 0,
        registered(v, token, base_url, Some(bot), fresh, now).1 is Ok,
    ensures
        ({
            let (v1, id) = registered(v, token, base_url, Some(bot), fresh, now);
            let (v2, id2) = registered(v1, later_token, later_url, Some(bot), later_fresh, later);
            id2 == id && token_of(v2.tokens, id->Ok_0) == trimmed(later_token)
        }),
{
    let b = trimmed(bot);
    let (v1, r) = registered(v, token, base_url, Some(bot), fresh, now);
    let id = r->Ok_0;
    account_of_runs(v.accounts, b);
    registering_keeps_accounts_sound(v, token, base_url, Some(bot), fresh, now);
    account_of_runs(v1.accounts, b);
    registered_account_is_in_use(v, token, base_url, Some(bot), fresh, now);
    let x = lookup(v1.accounts, id);
    // It is the only one, so it is found again.
    lookup_is_an_entry(v1.accounts, id);
    let p = choose|p: int| 0 <= p < v1.accounts.len() && #[trigger] v1.accounts[p] == (id, x->0);
    assert(runs_bot(v1.accounts[p].1, b));
    assert(account_of(v1.accounts, b) == Some(id)) by {
        let found = account_of(v1.accounts, b)->0;
        let q = choose|q: int|
            0 <= q < v1.accounts.len() && (#[trigger] v1.accounts[q]).0 == found && runs_bot(
                v1.accounts[q].1,
                b,
            );
        if q < p {
            assert(v1.accounts[q].1.bot_user_id != v1.accounts[p].1.bot_user_id);
        } else if p < q {
            assert(v1.accounts[p].1.bot_user_id != v1.accounts[q].1.bot_user_id);
        }
    }
    with_entry_lookup(v1.tokens, id, trimmed(later_token), id);
}

proof fn active_after_update(accounts: Seq<(Seq<char>, EntryV)>, i: int, e: (Seq<char>, EntryV))
    requires
        0 <= i < accounts.len(),
    ensures
        active(accounts.update(i, e)).len() <= active(accounts).len() + 1,
        e.1.status == AccountStatus::Disabled || accounts[i].1.status == AccountStatus::Active
            ==> active(accounts.update(i, e)).len() <= active(accounts).len(),
    decreases accounts.len(),
{
    let m = accounts.update(i, e);
    if i == accounts.len() - 1 {
        assert(m.drop_last() == accounts.drop_last());
    } else {
        assert(m.drop_last() == accounts.drop_last().update(i, e));
        active_after_update(accounts.drop_last(), i, e);
    }
}

/// Putting an account adds at most one to those in use, and none where it is out of use or was in
/// use before.
proof fn active_after_put(accounts: Seq<(Seq<char>, EntryV)>, id: Seq<char>, e: EntryV)
    ensures
        active(with_entry(accounts, id, e)).len() <= active(accounts).len() + 1,
        e.status == AccountStatus::Disabled || (lookup(accounts, id) matches Some(x) && x.status
            == AccountStatus::Active) ==> active(with_entry(accounts, id, e)).len() <= active(
            accounts,
        ).len(),
{
    lookup_is_an_entry(accounts, id);
    match lookup(accounts, id) {
        Some(x) => {
            let i = choose|i: int|
                0 <= i < accounts.len() && #[trigger] accounts[i] == (id, x) && forall|j: int|
                    0 <= j < i ==> (#[trigger] accounts[j]).0 != id;
            first_entry(accounts, id, i);
            assert(with_entry(accounts, id, e) == accounts.update(i, (id, e)));
            active_after_update(accounts, i, (id, e));
        },
        None => {
            no_entry(accounts, id);
            let more = accounts.push((id, e));
            assert(with_entry(accounts, id, e) == more);
            assert(more.drop_last() == accounts);
        },
    }
}

/// A login, whether an account is in use for its bot or not, never puts more accounts to use than
/// the limit allows.
pub proof fn new_accounts_stay_within_the_limit(
    v: RegistryV,
    token: Seq<char>,
    base_url: Seq<char>,
    bot_user_id: Option<Seq<char>>,
    fresh: Seq<char>,
    now: u64,
)
    requires
        active(v.accounts).len() <= v.max_accounts,
    ensures
        registered(v, token, base_url, bot_user_id, fresh, now).0.max_accounts == v.max_accounts,
        active(registered(v, token, base_url, bot_user_id, fresh, now).0.accounts).len()
            <= v.max_accounts,
{
    let bot = unless_blank(bot_user_id);
    match registration(v, bot) {
        Err(_) => {},
        Ok(Some(id)) => {
            if let Some(e) = lookup(v.accounts, id) {
                active_after_put(v.accounts, id, EntryV { base_url: base_url, ..e });
            }
        },
        Ok(None) => {
            active_after_put(v.accounts, fresh, new_entry(base_url, bot, now));
        },
    }
}

/// The accounts in use are listed once each, as they are found under their ids, and no others are.
pub proof fn accounts_in_use_are_listed_once(accounts: Seq<(Seq<char>, EntryV)>)
    requires
        keys_differ(accounts),
    ensures
        lists_those_in_use(active(accounts), accounts),
{
    let list = active(accounts);
    active_are_entries(accounts);
    assert forall|i: int| 0 <= i < list.len() implies lookup(accounts, (#[trigger] list[i]).0)
        == Some(list[i].1) && list[i].1.status == AccountStatus::Active by {
        let k = choose|k: int| 0 <= k < accounts.len() && accounts[k] == list[i];
        assert forall|j: int| 0 <= j < k implies (#[trigger] accounts[j]).0 != list[i].0 by {
            assert(accounts[j].0 != accounts[k].0);
        }
        first_entry(accounts, list[i].0, k);
    }
    active_are_all(accounts);
    assert forall|id: Seq<char>| (#[trigger] lookup(accounts, id) matches Some(e) && e.status
        == AccountStatus::Active) implies exists|i: int|
        0 <= i < list.len() && #[trigger] list[i] == (id, lookup(accounts, id)->0) by {
        lookup_is_an_entry(accounts, id);
        let e = lookup(accounts, id)->0;
        let k = choose|k: int| 0 <= k < accounts.len() && #[trigger] accounts[k] == (id, e);
        assert(list.contains(accounts[k]));
    }
}

/// The accounts in use are all listed, and the keys of the list differ where those of the accounts
/// do.
proof fn active_are_all(m: Seq<(Seq<char>, EntryV)>)
    ensures
        forall|k: int|
            0 <= k < m.len() && (#[trigger] m[k]).1.status == AccountStatus::Active ==> active(
                m,
            ).contains(m[k]),
        keys_differ(m) ==> keys_differ(active(m)),
    decreases m.len(),
{
    if m.len() > 0 {
        let d = active(m.drop_last());
        active_are_all(m.drop_last());
        active_are_entries(m.drop_last());
        assert forall|k: int|
            0 <= k < m.len() && (#[trigger] m[k]).1.status == AccountStatus::Active implies active(
            m,
        ).contains(m[k]) by {
            if k < m.len() - 1 {
                assert(m.drop_last()[k] == m[k]);
                let i = choose|i: int| 0 <= i < d.len() && d[i] == m[k];
                assert(active(m)[i] == m[k]);
            } else {
                assert(active(m)[d.len() as int] == m[k]);
            }
        }
        if keys_differ(m) {
            assert forall|a: int, b: int| 0 <= a < b < m.drop_last().len() implies (
            #[trigger] m.drop_last()[a]).0 != (#[trigger] m.drop_last()[b]).0 by {
                assert(m[a].0 != m[b].0);
            }
            assert forall|i: int| 0 <= i < d.len() implies (#[trigger] d[i]).0 != m.last().0 by {
                let k = choose|k: int| 0 <= k < m.drop_last().len() && m.drop_last()[k] == d[i];
                assert(m[k] == d[i]);
                assert(m[k].0 != m[m.len() - 1].0);
            }
        }
    }
}

proof fn active_are_entries(m: Seq<(Seq<char>, EntryV)>)
    ensures
        forall|i: int|
            0 <= i < active(m).len() ==> (#[trigger] active(m)[i]).1.status == AccountStatus::Active
                && m.contains(active(m)[i]),
    decreases m.len(),
{
    if m.len() > 0 {
        active_are_entries(m.drop_last());
        assert forall|i: int| 0 <= i < active(m).len() implies (#[trigger] active(m)[i]).1.status
            == AccountStatus::Active && m.contains(active(m)[i]) by {
            if i < active(m.drop_last()).len() {
                let x = active(m.drop_last())[i];
                assert(active(m)[i] == x);
                let k = choose|k: int| 0 <= k < m.drop_last().len() && m.drop_last()[k] == x;
                assert(m[k] == x);
            } else {
                assert(active(m)[i] == m[m.len() - 1]);
            }
        }
    }
}

/// What happens to a registry.
#[verifier::ext_equal]
pub enum ChangeV {
    Register {
        token: Seq<char>,
        base_url: Seq<char>,
        bot_user_id: Option<Seq<char>>,
        fresh: Seq<char>,
        now: u64,
    },
    Identify { id: Seq<char>, bot: Seq<char> },
    Disable { id: Seq<char> },
    Migrate { token: Seq<char>, base_url: Seq<char>, now: u64 },
    PutToken { id: Seq<char>, token: Seq<char> },
}

/// The registry after a change.
pub open spec fn changed(v: RegistryV, c: ChangeV) -> RegistryV {
    match c {
        ChangeV::Register { token, base_url, bot_user_id, fresh, now } => registered(
            v,
            token,
            base_url,
            bot_user_id,
            fresh,
            now,
        ).0,
        ChangeV::Identify { id, bot } => identified(v, id, bot).0,
        ChangeV::Disable { id } => RegistryV {
            accounts: with_status(v.accounts, id, AccountStatus::Disabled),
            ..v
        },
        ChangeV::Migrate { token, base_url, now } => migrated(v, token, base_url, now),
        ChangeV::PutToken { id, token } => RegistryV {
            tokens: with_entry(v.tokens, id, trimmed(token)),
            ..v
        },
    }
}

/// The registry after changes, one after another.
pub open spec fn changed_by_all(v: RegistryV, changes: Seq<ChangeV>) -> RegistryV
    decreases changes.len(),
{
    if changes.len() == 0 {
        v
    } else {
        changed(changed_by_all(v, changes.drop_last()), changes.last())
    }
}

/// No change puts white space around a token.
pub proof fn tokens_stay_trimmed(v: RegistryV, c: ChangeV)
    requires
        are_trimmed(v.tokens),
    ensures
        are_trimmed(changed(v, c).tokens),
{
    match c {
        ChangeV::Register { token, bot_user_id, fresh, .. } => {
            putting_keeps_tokens_trimmed(v.tokens, fresh, token);
            if let Ok(Some(id)) = registration(v, unless_blank(bot_user_id)) {
                putting_keeps_tokens_trimmed(v.tokens, id, token);
            }
        },
        ChangeV::Identify { id, bot } => {
            if let Some(existing) = account_of(v.accounts, bot) {
                putting_keeps_tokens_trimmed(v.tokens, existing, token_of(v.tokens, id));
            }
        },
        ChangeV::Disable { .. } => {},
        ChangeV::Migrate { token, .. } => {
            putting_keeps_tokens_trimmed(v.tokens, LEGACY_ACCOUNT_ID@, token);
        },
        ChangeV::PutToken { id, token } => {
            putting_keeps_tokens_trimmed(v.tokens, id, token);
        },
    }
}

/// In a registry whose tokens began trimmed, every token is trimmed whatever changes.
pub proof fn tokens_are_trimmed_throughout(v: RegistryV, changes: Seq<ChangeV>)
    requires
        are_trimmed(v.tokens),
    ensures
        are_trimmed(changed_by_all(v, changes).tokens),
    decreases changes.len(),
{
    if changes.len() > 0 {
        tokens_are_trimmed_throughout(v, changes.drop_last());
        tokens_stay_trimmed(changed_by_all(v, changes.drop_last()), changes.last());
    }
}

} // verus!
