//! The accounts of Telegram bots.

use vstd::prelude::*;

use crate::error::{ErrorV, GatewayError};
use crate::ids::{is_small_hex, new_simple_uuid};
use crate::paths::{path_join, path_of};
use crate::platforms::tokens::{
    are_trimmed, putting_keeps_tokens_trimmed, token_of, trim_tokens, trimmed_tokens,
};
use crate::strs::{
    concat2, concat3, decimal, same, take_chars, texts, texts_push, trim, trimmed,
    trimmed_idempotent, u64_string,
};
use crate::table::{
    first_entry, held, held_keys_differ, held_lookup, held_with, keys_differ, lookup,
    lookup_is_an_entry, no_entry, pairs, with_entry, with_entry_keys_differ, with_entry_lookup,
    Table,
};

verus! {

/// The file, in the data directory, that lists the accounts.
pub const REGISTRY_FILE: &'static str = "telegram_accounts.json";

/// Whether an account is in use.
#[derive(Debug, Clone, Copy, PartialEq, Eq, Structural)]
pub enum AccountStatus {
    Active,
    Disabled,
}

impl Default for AccountStatus {
    fn default() -> (r: Self)
        ensures
            r == AccountStatus::Active,
    {
        AccountStatus::Active
    }
}

/// An account.
#[derive(Debug)]
pub struct TelegramAccountEntry {
    pub bot_user_id: Option<String>,
    pub username: Option<String>,
    pub status: AccountStatus,
    pub created_at: u64,
}

/// What an account holds.
#[verifier::ext_equal]
pub struct EntryV {
    pub bot_user_id: Option<Seq<char>>,
    pub username: Option<Seq<char>>,
    pub status: AccountStatus,
    pub created_at: u64,
}

impl View for TelegramAccountEntry {
    type V = EntryV;

    open spec fn view(&self) -> EntryV {
        EntryV {
            bot_user_id: self.bot_user_id.deep_view(),
            username: self.username.deep_view(),
            status: self.status,
            created_at: self.created_at,
        }
    }
}

impl DeepView for TelegramAccountEntry {
    type V = EntryV;

    open spec fn deep_view(&self) -> EntryV {
        self@
    }
}

fn dup_text(v: &Option<String>) -> (r: Option<String>)
    ensures
        r.deep_view() == v.deep_view(),
{
    match v {
        Some(s) => Some(s.clone()),
        None => None,
    }
}

impl TelegramAccountEntry {
    /// A copy of the account.
    pub fn dup(&self) -> (r: TelegramAccountEntry)
        ensures
            r@ == self@,
    {
        TelegramAccountEntry {
            bot_user_id: dup_text(&self.bot_user_id),
            username: dup_text(&self.username),
            status: self.status,
            created_at: self.created_at,
        }
    }
}

/// The channel of an account.
pub open spec fn channel_of(account_id: Seq<char>) -> Seq<char> {
    "telegram:"@ + account_id
}

/// The channel of an account.
pub fn channel_id_for(account_id: &str) -> (r: String)
    ensures
        r@ == channel_of(account_id@),
{
    concat2("telegram:", account_id)
}

/// Different accounts have different channels.
pub proof fn channels_differ(a: Seq<char>, b: Seq<char>)
    requires
        channel_of(a) == channel_of(b),
    ensures
        a == b,
{
    let n = "telegram:"@.len() as int;
    assert(channel_of(a).skip(n) == a);
    assert(channel_of(b).skip(n) == b);
}

/// The directory of an account.
pub open spec fn dir_of(data_dir: Seq<char>, account_id: Seq<char>) -> Seq<char> {
    path_of(path_of(data_dir, "telegram"@), account_id)
}

/// The directory of an account.
pub fn account_dir(data_dir: &str, account_id: &str) -> (r: String)
    ensures
        r@ == dir_of(data_dir@, account_id@),
{
    let d: String = path_join(data_dir, "telegram");
    path_join(d.as_str(), account_id)
}

/// The file that holds the token of an account.
pub fn token_file_path(data_dir: &str, account_id: &str) -> (r: String)
    ensures
        r@ == path_of(dir_of(data_dir@, account_id@), "bot_token"@),
{
    let d: String = account_dir(data_dir, account_id);
    path_join(d.as_str(), "bot_token")
}

/// The accounts, and what their token files hold.
pub struct TelegramAccountRegistry {
    pub data_dir: String,
    pub max_accounts: usize,
    pub accounts: Table<TelegramAccountEntry>,
    pub tokens: Table<String>,
}

/// What a registry holds.
#[verifier::ext_equal]
pub struct RegistryV {
    pub data_dir: Seq<char>,
    pub max_accounts: usize,
    pub accounts: Seq<(Seq<char>, EntryV)>,
    pub tokens: Seq<(Seq<char>, Seq<char>)>,
}

impl View for TelegramAccountRegistry {
    type V = RegistryV;

    open spec fn view(&self) -> RegistryV {
        RegistryV {
            data_dir: self.data_dir@,
            max_accounts: self.max_accounts,
            accounts: held(self.accounts@),
            tokens: self.tokens.texts(),
        }
    }
}

/// The accounts in use.
pub open spec fn active(accounts: Seq<(Seq<char>, EntryV)>) -> Seq<(Seq<char>, EntryV)>
    decreases accounts.len(),
{
    if accounts.len() == 0 {
        Seq::empty()
    } else if accounts.last().1.status == AccountStatus::Active {
        active(accounts.drop_last()).push(accounts.last())
    } else {
        active(accounts.drop_last())
    }
}

/// The list holds exactly the accounts in use, each once, as they are found under their ids.
pub open spec fn lists_those_in_use(
    list: Seq<(Seq<char>, EntryV)>,
    accounts: Seq<(Seq<char>, EntryV)>,
) -> bool {
    &&& keys_differ(list)
    &&& forall|i: int|
        0 <= i < list.len() ==> lookup(accounts, (#[trigger] list[i]).0) == Some(list[i].1)
            && list[i].1.status == AccountStatus::Active
    &&& forall|id: Seq<char>|
        (#[trigger] lookup(accounts, id) matches Some(e) && e.status == AccountStatus::Active) ==> (
        exists|i: int| 0 <= i < list.len() && #[trigger] list[i] == (id, lookup(accounts, id)->0))
}

/// The first account with this token.
pub open spec fn holder(
    accounts: Seq<(Seq<char>, EntryV)>,
    tokens: Seq<(Seq<char>, Seq<char>)>,
    token: Seq<char>,
) -> Option<Seq<char>>
    decreases accounts.len(),
{
    if accounts.len() == 0 {
        None
    } else if token_of(tokens, accounts[0].0) == token {
        Some(accounts[0].0)
    } else {
        holder(accounts.drop_first(), tokens, token)
    }
}

/// Whether an account other than `id` is in use for the bot.
pub open spec fn is_twin(e: (Seq<char>, EntryV), id: Seq<char>, bot: Seq<char>) -> bool {
    e.0 != id && e.1.status == AccountStatus::Active && e.1.bot_user_id == Some(bot)
}

/// The first account other than `id` that is in use for the bot.
pub open spec fn twin(
    accounts: Seq<(Seq<char>, EntryV)>,
    id: Seq<char>,
    bot: Seq<char>,
) -> Option<Seq<char>>
    decreases accounts.len(),
{
    if accounts.len() == 0 {
        None
    } else if is_twin(accounts[0], id, bot) {
        Some(accounts[0].0)
    } else {
        twin(accounts.drop_first(), id, bot)
    }
}

/// The accounts with another status for `id`, where there is such an account.
pub open spec fn with_status(
    accounts: Seq<(Seq<char>, EntryV)>,
    id: Seq<char>,
    status: AccountStatus,
) -> Seq<(Seq<char>, EntryV)> {
    match lookup(accounts, id) {
        Some(e) => with_entry(accounts, id, EntryV { status: status, ..e }),
        None => accounts,
    }
}

/// A new account.
pub open spec fn new_entry(now: u64) -> EntryV {
    EntryV { bot_user_id: None, username: None, status: AccountStatus::Active, created_at: now }
}

/// What registering a token comes to.
#[derive(Debug)]
pub enum Registration {
    /// The account has the token already.
    Existing(String),
    /// The token, trimmed, is for a new account.
    New(String),
}

/// What registering a token comes to, as texts.
#[verifier::ext_equal]
pub enum RegistrationV {
    Existing(Seq<char>),
    New(Seq<char>),
}

impl View for Registration {
    type V = RegistrationV;

    open spec fn view(&self) -> RegistrationV {
        match self {
            Registration::Existing(id) => RegistrationV::Existing(id@),
            Registration::New(token) => RegistrationV::New(token@),
        }
    }
}

/// Whether no further account may be put to use.
pub open spec fn is_full(v: RegistryV) -> bool {
    active(v.accounts).len() >= v.max_accounts
}

/// No further account may be put to use.
pub open spec fn limit_error(max_accounts: usize) -> ErrorV {
    ErrorV::Config(
        "telegram account limit reached ("@ + decimal(max_accounts as nat) + ")"@,
    )
}

/// Whether there is such an account, and it is out of use.
pub open spec fn is_disabled(accounts: Seq<(Seq<char>, EntryV)>, id: Seq<char>) -> bool {
    lookup(accounts, id) matches Some(e) && e.status == AccountStatus::Disabled
}

/// What registering a token comes to. The limit holds for new accounts and for those that would be
/// put to use again.
pub open spec fn registration(v: RegistryV, token: Seq<char>) -> Result<RegistrationV, ErrorV> {
    let t = trimmed(token);
    if t.len() == 0 {
        Err(ErrorV::Config("telegram bot_token must not be empty"@))
    } else {
        match holder(v.accounts, v.tokens, t) {
            Some(id) => if is_disabled(v.accounts, id) && is_full(v) {
                Err(limit_error(v.max_accounts))
            } else {
                Ok(RegistrationV::Existing(id))
            },
            None => if is_full(v) {
                Err(limit_error(v.max_accounts))
            } else {
                Ok(RegistrationV::New(t))
            },
        }
    }
}

/// The registry with a new account.
pub open spec fn with_account(v: RegistryV, id: Seq<char>, token: Seq<char>, now: u64) -> RegistryV {
    RegistryV {
        accounts: with_entry(v.accounts, id, new_entry(now)),
        tokens: with_entry(v.tokens, id, trimmed(token)),
        ..v
    }
}

/// The registry after registering a token, and the account that has it. A new account gets the
/// id `fresh`.
pub open spec fn registered(v: RegistryV, token: Seq<char>, fresh: Seq<char>, now: u64) -> (
    RegistryV,
    Result<Seq<char>, ErrorV>,
) {
    match registration(v, token) {
        Err(e) => (v, Err(e)),
        Ok(RegistrationV::Existing(id)) => (
            RegistryV { accounts: with_status(v.accounts, id, AccountStatus::Active), ..v },
            Ok(id),
        ),
        Ok(RegistrationV::New(t)) => (with_account(v, fresh, t, now), Ok(fresh)),
    }
}

/// The registry after registering those of the tokens that are not blank, and the accounts that
/// have them. The first that fails ends it; what came before stays.
pub open spec fn registered_all(
    v: RegistryV,
    tokens: Seq<Seq<char>>,
    fresh: Seq<Seq<char>>,
    now: u64,
) -> (RegistryV, Result<Seq<Seq<char>>, ErrorV>)
    decreases tokens.len(),
{
    if tokens.len() == 0 {
        (v, Ok(Seq::empty()))
    } else {
        let (v1, ids) = registered_all(v, tokens.drop_last(), fresh, now);
        match ids {
            Err(e) => (v1, Err(e)),
            Ok(ids) => if trimmed(tokens.last()).len() == 0 {
                (v1, Ok(ids))
            } else {
                match registered(v1, tokens.last(), fresh[tokens.len() - 1], now) {
                    (v2, Ok(id)) => (v2, Ok(ids.push(id))),
                    (v2, Err(e)) => (v2, Err(e)),
                }
            },
        }
    }
}

/// The registry after two accounts turned out to be one: `existing` goes on with the newer token
/// of `id`, and `id` is out of use.
pub open spec fn merged(v: RegistryV, id: Seq<char>, existing: Seq<char>) -> RegistryV {
    let t = token_of(v.tokens, id);
    RegistryV {
        accounts: with_status(v.accounts, id, AccountStatus::Disabled),
        tokens: if t.len() > 0 {
            with_entry(v.tokens, existing, trimmed(t))
        } else {
            v.tokens
        },
        ..v
    }
}

/// The accounts once the bot of an account is known.
pub open spec fn with_identity(
    accounts: Seq<(Seq<char>, EntryV)>,
    id: Seq<char>,
    bot: Seq<char>,
    username: Seq<char>,
) -> Seq<(Seq<char>, EntryV)> {
    match lookup(accounts, id) {
        Some(e) => if e.bot_user_id == Some(bot) && e.username == Some(username) {
            accounts
        } else {
            with_entry(
                accounts,
                id,
                EntryV {
                    bot_user_id: Some(bot),
                    username: if username.len() == 0 {
                        None
                    } else {
                        Some(username)
                    },
                    ..e
                },
            )
        },
        None => accounts,
    }
}

/// The registry once the bot of an account is known, and the account that it was merged into.
pub open spec fn identified(v: RegistryV, id: Seq<char>, bot: Seq<char>, username: Seq<char>) -> (
    RegistryV,
    Option<Seq<char>>,
) {
    if bot.len() == 0 {
        (v, None)
    } else {
        match twin(v.accounts, id, bot) {
            Some(existing) => (merged(v, id, existing), Some(existing)),
            None => (
                RegistryV { accounts: with_identity(v.accounts, id, bot, username), ..v },
                None,
            ),
        }
    }
}

/// The id of an account: `tg_` and eight hexadecimal digits.
pub open spec fn is_account_id(s: Seq<char>) -> bool {
    exists|d: Seq<char>|
        s == "tg_"@ + d && d.len() == 8 && forall|i: int|
            0 <= i < 8 ==> is_small_hex(#[trigger] d[i])
}

/// An id for a new account.
pub fn new_account_id() -> (r: String)
    ensures
        is_account_id(r@),
{
    let u: String = new_simple_uuid();
    let d: &str = take_chars(u.as_str(), 8);
    assert forall|i: int| 0 <= i < 8 implies is_small_hex(#[trigger] d@[i]) by {
        assert(d@[i] == u@[i]);
    }
    concat2("tg_", d)
}

impl TelegramAccountRegistry {
    /// The registry of the accounts and tokens that were read. The tokens are trimmed.
    pub fn load(
        data_dir: String,
        max_accounts: usize,
        accounts: Table<TelegramAccountEntry>,
        tokens: Table<String>,
    ) -> (r: TelegramAccountRegistry)
        ensures
            r@ == (RegistryV {
                data_dir: data_dir@,
                max_accounts: max_accounts,
                accounts: held(accounts@),
                tokens: trimmed_tokens(tokens.texts()),
            }),
            are_trimmed(r@.tokens),
    {
        TelegramAccountRegistry {
            data_dir: data_dir,
            max_accounts: max_accounts,
            accounts: accounts,
            tokens: trim_tokens(tokens),
        }
    }

    /// Takes note of what a token file holds.
    pub fn note_token_file(&mut self, account_id: &str, contents: &str)
        ensures
            final(self)@ == (RegistryV {
                tokens: with_entry(old(self)@.tokens, account_id@, trimmed(contents@)),
                ..old(self)@
            }),
    {
        self.tokens.put_text(account_id, trim(contents));
    }

    /// The accounts in use, each of them once.
    pub fn list_active(&self) -> (r: Result<Vec<(String, TelegramAccountEntry)>, GatewayError>)
        ensures
            r matches Ok(list) && list.deep_view() == active(self@.accounts),
            keys_differ(self@.accounts),
            lists_those_in_use(active(self@.accounts), self@.accounts),
    {
        let ghost all = self@.accounts;
        let mut out: Vec<(String, TelegramAccountEntry)> = Vec::new();
        let mut i: usize = 0;
        assert(all.take(0) == Seq::<(Seq<char>, EntryV)>::empty());
        assert(out.deep_view() =~= Seq::<(Seq<char>, EntryV)>::empty());
        let es: &Vec<(String, TelegramAccountEntry)> = self.accounts.entries();
        while i < es.len()
            invariant
                i <= es@.len(),
                pairs(es@) == self.accounts@,
                all == self@.accounts,
                out.deep_view() == active(all.take(i as int)),
            decreases es@.len() - i,
        {
            let e: &(String, TelegramAccountEntry) = &es[i];
            proof {
                assert(all.take(i + 1).drop_last() == all.take(i as int));
                assert(all.take(i + 1).last() == (e.0@, e.1@));
            }
            if e.1.status == AccountStatus::Active {
                let ghost before = out.deep_view();
                out.push((e.0.clone(), e.1.dup()));
                assert(out.deep_view() =~= before.push((e.0@, e.1@)));
            }
            i = i + 1;
        }
        proof {
            assert(all.take(all.len() as int) == all);
            held_keys_differ(self.accounts@);
            accounts_in_use_are_listed_once(all);
        }
        Ok(out)
    }

    /// All accounts, each of them once.
    pub fn list_all(&self) -> (r: Result<Vec<(String, TelegramAccountEntry)>, GatewayError>)
        ensures
            r matches Ok(list) && list.deep_view() == self@.accounts,
            keys_differ(self@.accounts),
    {
        let ghost all = self@.accounts;
        let mut out: Vec<(String, TelegramAccountEntry)> = Vec::new();
        let mut i: usize = 0;
        assert(out.deep_view() =~= all.take(0));
        let es: &Vec<(String, TelegramAccountEntry)> = self.accounts.entries();
        while i < es.len()
            invariant
                i <= es@.len(),
                pairs(es@) == self.accounts@,
                all == self@.accounts,
                out.deep_view() == all.take(i as int),
            decreases es@.len() - i,
        {
            let e: &(String, TelegramAccountEntry) = &es[i];
            let ghost before = out.deep_view();
            out.push((e.0.clone(), e.1.dup()));
            proof {
                assert(out.deep_view() =~= before.push((e.0@, e.1@)));
                assert(all.take(i + 1) =~= all.take(i as int).push(all[i as int]));
            }
            i = i + 1;
        }
        proof {
            assert(all.take(all.len() as int) == all);
            held_keys_differ(self.accounts@);
        }
        Ok(out)
    }

    /// The account `account_id`.
    pub fn get(&self, account_id: &str) -> (r: Result<Option<TelegramAccountEntry>, GatewayError>)
        ensures
            r matches Ok(e) && e.deep_view() == lookup(self@.accounts, account_id@),
    {
        proof {
            held_lookup(self.accounts@, account_id@);
        }
        match self.accounts.get(account_id) {
            Some(e) => Ok(Some(e.dup())),
            None => Ok(None),
        }
    }

    /// The token of an account; empty where it has no token file.
    pub fn load_token(&self, account_id: &str) -> (r: Result<String, GatewayError>)
        ensures
            r matches Ok(t) && t@ == token_of(self@.tokens, account_id@),
    {
        match self.tokens.get_text(account_id) {
            Some(t) => Ok(t.to_owned()),
            None => Ok(String::new()),
        }
    }

    fn holds_token(&self, account_id: &str, token: &str) -> (r: bool)
        ensures
            r == (token_of(self@.tokens, account_id@) == token@),
    {
        match self.tokens.get_text(account_id) {
            Some(t) => same(t, token),
            None => {
                if token.is_empty() {
                    assert(token@ == Seq::<char>::empty());
                    true
                } else {
                    false
                }
            },
        }
    }

    /// The first account with the token, which is trimmed first; none where it is blank.
    pub fn find_by_token(&self, token: &str) -> (r: Option<String>)
        ensures
            trimmed(token@).len() == 0 ==> r is None,
            trimmed(token@).len() > 0 ==> r.deep_view() == holder(
                self@.accounts,
                self@.tokens,
                trimmed(token@),
            ),
    {
        let t: &str = trim(token);
        if t.is_empty() {
            return None;
        }
        let ghost all = self@.accounts;
        let mut i: usize = 0;
        assert(all.skip(0) == all);
        let es: &Vec<(String, TelegramAccountEntry)> = self.accounts.entries();
        while i < es.len()
            invariant
                i <= es@.len(),
                pairs(es@) == self.accounts@,
                all == self@.accounts,
                t@ == trimmed(token@),
                trimmed(token@).len() > 0,
                holder(all, self@.tokens, t@) == holder(all.skip(i as int), self@.tokens, t@),
            decreases es@.len() - i,
        {
            let id: &String = &es[i].0;
            assert(all.skip(i as int)[0].0 == id@);
            if self.holds_token(id.as_str(), t) {
                return Some(id.clone());
            }
            assert(all.skip(i as int).drop_first() == all.skip(i + 1));
            i = i + 1;
        }
        None
    }

    /// What registering a token comes to.
    pub fn plan_registration(&self, token: &str) -> (r: Result<Registration, GatewayError>)
        ensures
            match r {
                Ok(p) => registration(self@, token@) == Ok::<RegistrationV, ErrorV>(p@),
                Err(e) => registration(self@, token@) == Err::<RegistrationV, ErrorV>(e@),
            },
    {
        let t: &str = trim(token);
        if t.is_empty() {
            return Err(GatewayError::Config("telegram bot_token must not be empty".to_owned()));
        }
        proof {
            trimmed_idempotent(token@);
        }
        let found: Option<String> = self.find_by_token(t);
        let adds: bool = match &found {
            Some(id) => self.is_out_of_use(id.as_str()),
            None => true,
        };
        if adds {
            let count: usize = match self.list_active() {
                Ok(list) => list.len(),
                Err(e) => {
                    return Err(e);
                },
            };
            if count >= self.max_accounts {
                let n: String = u64_string(self.max_accounts as u64);
                return Err(
                    GatewayError::Config(
                        concat3("telegram account limit reached (", n.as_str(), ")"),
                    ),
                );
            }
        }
        match found {
            Some(id) => Ok(Registration::Existing(id)),
            None => Ok(Registration::New(t.to_owned())),
        }
    }

    fn is_out_of_use(&self, account_id: &str) -> (r: bool)
        ensures
            r == is_disabled(self@.accounts, account_id@),
    {
        proof {
            held_lookup(self.accounts@, account_id@);
        }
        match self.accounts.get(account_id) {
            Some(e) => e.status == AccountStatus::Disabled,
            None => false,
        }
    }

    fn set_status(&mut self, account_id: &str, status: AccountStatus)
        ensures
            final(self)@ == (RegistryV {
                accounts: with_status(old(self)@.accounts, account_id@, status),
                ..old(self)@
            }),
    {
        proof {
            held_lookup(self.accounts@, account_id@);
        }
        let changed: Option<TelegramAccountEntry> = match self.accounts.get(account_id) {
            Some(e) => {
                let mut c: TelegramAccountEntry = e.dup();
                c.status = status;
                Some(c)
            },
            None => None,
        };
        if let Some(c) = changed {
            proof {
                held_with(self.accounts@, account_id@, c);
            }
            self.accounts.insert(account_id.to_owned(), c);
        }
    }

    /// Puts an account to use.
    fn enable_account(&mut self, account_id: &str)
        ensures
            final(self)@ == (RegistryV {
                accounts: with_status(old(self)@.accounts, account_id@, AccountStatus::Active),
                ..old(self)@
            }),
    {
        self.set_status(account_id, AccountStatus::Active);
    }

    /// Puts an account out of use.
    pub fn disable_account(&mut self, account_id: &str) -> (r: Result<(), GatewayError>)
        ensures
            r is Ok,
            final(self)@ == (RegistryV {
                accounts: with_status(old(self)@.accounts, account_id@, AccountStatus::Disabled),
                ..old(self)@
            }),
    {
        self.set_status(account_id, AccountStatus::Disabled);
        Ok(())
    }

    /// Adds an account with its token.
    fn add_account(&mut self, account_id: &str, token: &str, now: u64)
        ensures
            final(self)@ == with_account(old(self)@, account_id@, token@, now),
    {
        self.tokens.put_text(account_id, trim(token));
        let entry: TelegramAccountEntry = TelegramAccountEntry {
            bot_user_id: None,
            username: None,
            status: AccountStatus::Active,
            created_at: now,
        };
        proof {
            held_with(self.accounts@, account_id@, entry);
        }
        self.accounts.insert(account_id.to_owned(), entry);
    }

    /// Registers a token. A new account gets the id `fresh`.
    pub fn register_with_id(&mut self, token: &str, fresh: String, now: u64) -> (r: Result<
        String,
        GatewayError,
    >)
        ensures
            match r {
                Ok(id) => registered(old(self)@, token@, fresh@, now) == (
                    final(self)@,
                    Ok::<Seq<char>, ErrorV>(id@),
                ),
                Err(e) => registered(old(self)@, token@, fresh@, now) == (
                    final(self)@,
                    Err::<Seq<char>, ErrorV>(e@),
                ),
            },
    {
        match self.plan_registration(token) {
            Err(e) => Err(e),
            Ok(Registration::Existing(id)) => {
                self.enable_account(id.as_str());
                Ok(id)
            },
            Ok(Registration::New(t)) => {
                self.add_account(fresh.as_str(), t.as_str(), now);
                Ok(fresh)
            },
        }
    }

    /// Registers a token. A new account gets a fresh id.
    pub fn register_from_token(&mut self, token: &str, now: u64) -> (r: Result<
        String,
        GatewayError,
    >)
        ensures
            exists|fresh: Seq<char>| #[trigger]
                is_account_id(fresh) && match r {
                    Ok(id) => registered(old(self)@, token@, fresh, now) == (
                        final(self)@,
                        Ok::<Seq<char>, ErrorV>(id@),
                    ),
                    Err(e) => registered(old(self)@, token@, fresh, now) == (
                        final(self)@,
                        Err::<Seq<char>, ErrorV>(e@),
                    ),
                },
    {
        let fresh: String = new_account_id();
        self.register_with_id(token, fresh, now)
    }

    /// Registers those of the tokens that are not blank. The first that fails ends it; what came
    /// before stays.
    pub fn register_config_tokens(&mut self, tokens: &Vec<String>, now: u64) -> (r: Result<
        Vec<String>,
        GatewayError,
    >)
        ensures
            exists|fresh: Seq<Seq<char>>|
                fresh.len() == tokens@.len() && (forall|i: int|
                    0 <= i < fresh.len() ==> is_account_id(#[trigger] fresh[i])) && match r {
                    Ok(ids) => (#[trigger] registered_all(
                        old(self)@,
                        texts(tokens@),
                        fresh,
                        now,
                    )) == (final(self)@, Ok::<Seq<Seq<char>>, ErrorV>(texts(ids@))),
                    Err(e) => registered_all(old(self)@, texts(tokens@), fresh, now) == (
                        final(self)@,
                        Err::<Seq<Seq<char>>, ErrorV>(e@),
                    ),
                },
    {
        let mut ids: Vec<String> = Vec::new();
        let mut all_fresh: Vec<String> = Vec::new();
        let ghost all = texts(tokens@);
        let mut i: usize = 0;
        let n: usize = tokens.len();
        while i < n
            invariant
                i <= n,
                n == tokens@.len(),
                all_fresh@.len() == i,
                forall|k: int| 0 <= k < i ==> is_account_id(#[trigger] all_fresh@[k]@),
            decreases n - i,
        {
            all_fresh.push(new_account_id());
            i = i + 1;
        }
        let ghost fresh = texts(all_fresh@);
        assert forall|k: int| 0 <= k < fresh.len() implies is_account_id(#[trigger] fresh[k]) by {
            assert(fresh[k] == all_fresh@[k]@);
        }
        i = 0;
        assert(all.take(0) == Seq::<Seq<char>>::empty());
        assert(texts(ids@) =~= Seq::<Seq<char>>::empty());
        while i < n
            invariant
                i <= n,
                n == tokens@.len(),
                all == texts(tokens@),
                all_fresh@.len() == n,
                fresh == texts(all_fresh@),
                forall|k: int| 0 <= k < fresh.len() ==> is_account_id(#[trigger] fresh[k]),
                registered_all(old(self)@, all.take(i as int), fresh, now) == (
                    self@,
                    Ok::<Seq<Seq<char>>, ErrorV>(texts(ids@)),
                ),
            decreases n - i,
        {
            let token: &String = &tokens[i];
            proof {
                assert(all.take(i + 1).drop_last() == all.take(i as int));
                assert(all.take(i + 1).last() == token@);
                assert(fresh[i as int] == all_fresh@[i as int]@);
            }
            if !trim(token.as_str()).is_empty() {
                let own: String = all_fresh[i].clone();
                match self.register_with_id(token.as_str(), own, now) {
                    Ok(id) => {
                        let ghost before = ids@;
                        ids.push(id);
                        proof {
                            texts_push(before, id);
                        }
                    },
                    Err(e) => {
                        proof {
                            failed_stays_failed(old(self)@, all, fresh, now, i + 1);
                        }
                        return Err(e);
                    },
                }
            }
            i = i + 1;
        }
        assert(all.take(all.len() as int) == all);
        Ok(ids)
    }

    /// The first account other than `account_id` that is in use for the bot.
    pub fn find_twin(&self, account_id: &str, bot_user_id: &str) -> (r: Option<String>)
        ensures
            r.deep_view() == twin(self@.accounts, account_id@, bot_user_id@),
    {
        let ghost all = self@.accounts;
        let mut i: usize = 0;
        assert(all.skip(0) == all);
        let es: &Vec<(String, TelegramAccountEntry)> = self.accounts.entries();
        while i < es.len()
            invariant
                i <= es@.len(),
                pairs(es@) == self.accounts@,
                all == self@.accounts,
                twin(all, account_id@, bot_user_id@) == twin(
                    all.skip(i as int),
                    account_id@,
                    bot_user_id@,
                ),
            decreases es@.len() - i,
        {
            let e: &(String, TelegramAccountEntry) = &es[i];
            assert(all.skip(i as int)[0] == (e.0@, e.1@));
            let same_bot: bool = match &e.1.bot_user_id {
                Some(b) => same(b.as_str(), bot_user_id),
                None => false,
            };
            if same_bot && e.1.status == AccountStatus::Active && !same(e.0.as_str(), account_id) {
                return Some(e.0.clone());
            }
            assert(all.skip(i as int).drop_first() == all.skip(i + 1));
            i = i + 1;
        }
        None
    }

    /// Lets `existing_id` go on with the token of `account_id`, which is then out of use.
    pub fn merge_account(&mut self, account_id: &str, existing_id: &str)
        ensures
            final(self)@ == merged(old(self)@, account_id@, existing_id@),
    {
        let token: Option<String> = match self.tokens.get_text(account_id) {
            Some(t) => Some(t.to_owned()),
            None => None,
        };
        if let Some(t) = token {
            if !t.as_str().is_empty() {
                self.tokens.put_text(existing_id, trim(t.as_str()));
            }
        }
        self.set_status(account_id, AccountStatus::Disabled);
    }

    /// Takes note of the bot of an account. Whether that was news.
    pub fn set_identity(&mut self, account_id: &str, bot_user_id: &str, username: &str) -> (r: bool)
        ensures
            final(self)@ == (RegistryV {
                accounts: with_identity(
                    old(self)@.accounts,
                    account_id@,
                    bot_user_id@,
                    username@,
                ),
                ..old(self)@
            }),
            r == match lookup(old(self)@.accounts, account_id@) {
                Some(e) => e.bot_user_id != Some(bot_user_id@) || e.username != Some(username@),
                None => false,
            },
    {
        proof {
            held_lookup(self.accounts@, account_id@);
        }
        let changed: Option<TelegramAccountEntry> = match self.accounts.get(account_id) {
            Some(e) => {
                let same_bot: bool = match &e.bot_user_id {
                    Some(b) => same(b.as_str(), bot_user_id),
                    None => false,
                };
                let same_name: bool = match &e.username {
                    Some(u) => same(u.as_str(), username),
                    None => false,
                };
                if same_bot && same_name {
                    None
                } else {
                    let mut c: TelegramAccountEntry = e.dup();
                    c.bot_user_id = Some(bot_user_id.to_owned());
                    c.username = if username.is_empty() {
                        None
                    } else {
                        Some(username.to_owned())
                    };
                    Some(c)
                }
            },
            None => None,
        };
        match changed {
            Some(c) => {
                proof {
                    held_with(self.accounts@, account_id@, c);
                }
                self.accounts.insert(account_id.to_owned(), c);
                true
            },
            None => false,
        }
    }

    /// Takes note of the bot of an account. Where another account is in use for that bot, the two
    /// are merged into that one, which is returned.
    pub fn upsert_bot_identity(
        &mut self,
        account_id: &str,
        bot_user_id: &str,
        username: &str,
    ) -> (r: Result<Option<String>, GatewayError>)
        ensures
            r matches Ok(m) && identified(old(self)@, account_id@, bot_user_id@, username@) == (
                final(self)@,
                m.deep_view(),
            ),
    {
        if bot_user_id.is_empty() {
            return Ok(None);
        }
        match self.find_twin(account_id, bot_user_id) {
            Some(existing) => {
                self.merge_account(account_id, existing.as_str());
                Ok(Some(existing))
            },
            None => {
                let _ = self.set_identity(account_id, bot_user_id, username);
                Ok(None)
            },
        }
    }
}

proof fn failed_stays_failed(
    v: RegistryV,
    tokens: Seq<Seq<char>>,
    fresh: Seq<Seq<char>>,
    now: u64,
    i: int,
)
    requires
        0 <= i <= tokens.len(),
        registered_all(v, tokens.take(i), fresh, now).1 is Err,
    ensures
        registered_all(v, tokens, fresh, now) == registered_all(v, tokens.take(i), fresh, now),
    decreases tokens.len() - i,
{
    if i == tokens.len() {
        assert(tokens.take(i) == tokens);
    } else {
        assert(tokens.take(i + 1).drop_last() == tokens.take(i));
        failed_stays_failed(v, tokens, fresh, now, i + 1);
    }
}

// ---------------------------------------------------------------------------------------------
// Laws
// ---------------------------------------------------------------------------------------------

proof fn holder_is_first(
    accounts: Seq<(Seq<char>, EntryV)>,
    tokens: Seq<(Seq<char>, Seq<char>)>,
    token: Seq<char>,
)
    ensures
        match holder(accounts, tokens, token) {
            Some(id) => lookup(accounts, id) is Some && token_of(tokens, id) == token,
            None => forall|i: int|
                0 <= i < accounts.len() ==> token_of(tokens, (#[trigger] accounts[i]).0) != token,
        },
    decreases accounts.len(),
{
    if accounts.len() > 0 && token_of(tokens, accounts[0].0) != token {
        holder_is_first(accounts.drop_first(), tokens, token);
        match holder(accounts, tokens, token) {
            Some(id) => {},
            None => {
                assert forall|i: int| 0 <= i < accounts.len() implies token_of(
                    tokens,
                    (#[trigger] accounts[i]).0,
                ) != token by {
                    if i > 0 {
                        assert(accounts.drop_first()[i - 1] == accounts[i]);
                    }
                }
            },
        }
    }
}

proof fn holder_goes_by_keys(
    accounts: Seq<(Seq<char>, EntryV)>,
    tokens: Seq<(Seq<char>, Seq<char>)>,
    token: Seq<char>,
    id: Seq<char>,
    e: EntryV,
)
    requires
        lookup(accounts, id) is Some,
    ensures
        holder(with_entry(accounts, id, e), tokens, token) == holder(accounts, tokens, token),
    decreases accounts.len(),
{
    let m = with_entry(accounts, id, e);
    assert(m[0].0 == accounts[0].0);
    if accounts[0].0 == id {
        assert(m.drop_first() == accounts.drop_first());
    } else {
        assert(m.drop_first() == with_entry(accounts.drop_first(), id, e));
        holder_goes_by_keys(accounts.drop_first(), tokens, token, id, e);
    }
}

proof fn active_after_update(accounts: Seq<(Seq<char>, EntryV)>, i: int, e: (Seq<char>, EntryV))
    requires
        0 <= i < accounts.len(),
    ensures
        active(accounts.update(i, e)).len() <= active(accounts).len() + 1,
        e.1.status == AccountStatus::Disabled || accounts[i].1.status == AccountStatus::Active
            ==> active(accounts.update(i, e)).len() <= active(accounts).len(),
    decreases accounts.len(),
{
    let m = accounts.update(i, e);
    if i == accounts.len() - 1 {
        assert(m.drop_last() == accounts.drop_last());
    } else {
        assert(m.drop_last() == accounts.drop_last().update(i, e));
        active_after_update(accounts.drop_last(), i, e);
    }
}

/// Putting an account adds at most one to those in use, and none where it is out of use or was in
/// use before.
proof fn active_after_put(accounts: Seq<(Seq<char>, EntryV)>, id: Seq<char>, e: EntryV)
    ensures
        active(with_entry(accounts, id, e)).len() <= active(accounts).len() + 1,
        e.status == AccountStatus::Disabled || (lookup(accounts, id) matches Some(x) && x.status
            == AccountStatus::Active) ==> active(with_entry(accounts, id, e)).len() <= active(
            accounts,
        ).len(),
{
    lookup_is_an_entry(accounts, id);
    match lookup(accounts, id) {
        Some(x) => {
            let i = choose|i: int|
                0 <= i < accounts.len() && #[trigger] accounts[i] == (id, x) && forall|j: int|
                    0 <= j < i ==> (#[trigger] accounts[j]).0 != id;
            first_entry(accounts, id, i);
            assert(with_entry(accounts, id, e) == accounts.update(i, (id, e)));
            active_after_update(accounts, i, (id, e));
        },
        None => {
            no_entry(accounts, id);
            let more = accounts.push((id, e));
            assert(with_entry(accounts, id, e) == more);
            assert(more.drop_last() == accounts);
        },
    }
}

/// A token that was registered is found: registering it again gives the same account and changes
/// nothing.
pub proof fn registering_again_changes_nothing(
    v: RegistryV,
    token: Seq<char>,
    fresh: Seq<char>,
    now: u64,
    later_fresh: Seq<char>,
    later: u64,
)
    requires
        registered(v, token, fresh, now).1 is Ok,
    ensures
        registered(registered(v, token, fresh, now).0, token, later_fresh, later) == registered(
            v,
            token,
            fresh,
            now,
        ),
{
    let t = trimmed(token);
    let (v1, r) = registered(v, token, fresh, now);
    trimmed_idempotent(token);
    holder_is_first(v.accounts, v.tokens, t);
    match holder(v.accounts, v.tokens, t) {
        Some(id) => {
            let e = lookup(v.accounts, id)->0;
            let a = EntryV { status: AccountStatus::Active, ..e };
            holder_goes_by_keys(v.accounts, v.tokens, t, id, a);
            with_entry_lookup(v.accounts, id, a, id);
            putting_again(v1.accounts, id, a);
        },
        None => {
            let m = with_entry(v.accounts, fresh, new_entry(now));
            let tokens = with_entry(v.tokens, fresh, t);
            assert(v1.accounts == m && v1.tokens == tokens);
            holder_is_first(m, tokens, t);
            with_entry_lookup(v.tokens, fresh, t, fresh);
            with_entry_lookup(v.accounts, fresh, new_entry(now), fresh);
            lookup_is_an_entry(m, fresh);
            assert(token_of(tokens, fresh) == t);
            let i = choose|i: int| 0 <= i < m.len() && #[trigger] m[i] == (fresh, new_entry(now));
            assert(token_of(tokens, m[i].0) == t);
            match holder(m, tokens, t) {
                Some(id) => {
                    if id != fresh {
                        with_entry_lookup(v.accounts, fresh, new_entry(now), id);
                        with_entry_lookup(v.tokens, fresh, t, id);
                        lookup_is_an_entry(v.accounts, id);
                        let x = lookup(v.accounts, id)->0;
                        let j = choose|j: int|
                            0 <= j < v.accounts.len() && #[trigger] v.accounts[j] == (id, x);
                        assert(token_of(v.tokens, v.accounts[j].0) != t);
                        assert(false);
                    }
                },
                None => {
                    assert(false);
                },
            }
            putting_again(m, fresh, new_entry(now));
        },
    }
}

/// Putting what is found there changes nothing.
proof fn putting_again(m: Seq<(Seq<char>, EntryV)>, id: Seq<char>, e: EntryV)
    requires
        lookup(m, id) == Some(e),
    ensures
        with_entry(m, id, e) == m,
{
    lookup_is_an_entry(m, id);
    let i = choose|i: int|
        0 <= i < m.len() && #[trigger] m[i] == (id, e) && forall|j: int|
            0 <= j < i ==> (#[trigger] m[j]).0 != id;
    first_entry(m, id, i);
    assert(m.update(i, (id, e)) =~= m);
}

/// Registering a token, whether an account has it or not, never puts more accounts to use than the
/// limit allows.
pub proof fn new_accounts_stay_within_the_limit(
    v: RegistryV,
    token: Seq<char>,
    fresh: Seq<char>,
    now: u64,
)
    requires
        active(v.accounts).len() <= v.max_accounts,
    ensures
        registered(v, token, fresh, now).0.max_accounts == v.max_accounts,
        active(registered(v, token, fresh, now).0.accounts).len() <= v.max_accounts,
{
    match registration(v, token) {
        Err(_) => {},
        Ok(RegistrationV::Existing(id)) => {
            if let Some(e) = lookup(v.accounts, id) {
                active_after_put(v.accounts, id, EntryV { status: AccountStatus::Active, ..e });
            }
        },
        Ok(RegistrationV::New(_)) => {
            active_after_put(v.accounts, fresh, new_entry(now));
        },
    }
}

/// What happens to a registry.
#[verifier::ext_equal]
pub enum ChangeV {
    Register { token: Seq<char>, fresh: Seq<char>, now: u64 },
    Identify { id: Seq<char>, bot: Seq<char>, username: Seq<char> },
    Disable { id: Seq<char> },
    NoteToken { id: Seq<char>, contents: Seq<char> },
}

/// The registry after a change.
pub open spec fn changed(v: RegistryV, c: ChangeV) -> RegistryV {
    match c {
        ChangeV::Register { token, fresh, now } => registered(v, token, fresh, now).0,
        ChangeV::Identify { id, bot, username } => identified(v, id, bot, username).0,
        ChangeV::Disable { id } => RegistryV {
            accounts: with_status(v.accounts, id, AccountStatus::Disabled),
            ..v
        },
        ChangeV::NoteToken { id, contents } => RegistryV {
            tokens: with_entry(v.tokens, id, trimmed(contents)),
            ..v
        },
    }
}

/// The registry after changes, one after another.
pub open spec fn changed_by_all(v: RegistryV, changes: Seq<ChangeV>) -> RegistryV
    decreases changes.len(),
{
    if changes.len() == 0 {
        v
    } else {
        changed(changed_by_all(v, changes.drop_last()), changes.last())
    }
}

/// Whatever is registered, identified, put out of use and noted, in whatever order, a registry that
/// began without accounts never has more of them in use than its limit.
pub proof fn limit_holds_throughout(v: RegistryV, changes: Seq<ChangeV>)
    requires
        v.accounts.len() == 0,
    ensures
        changed_by_all(v, changes).max_accounts == v.max_accounts,
        active(changed_by_all(v, changes).accounts).len() <= v.max_accounts,
    decreases changes.len(),
{
    if changes.len() > 0 {
        let w = changed_by_all(v, changes.drop_last());
        limit_holds_throughout(v, changes.drop_last());
        match changes.last() {
            ChangeV::Register { token, fresh, now } => {
                new_accounts_stay_within_the_limit(w, token, fresh, now);
            },
            ChangeV::Identify { id, bot, username } => {
                if let Some(e) = lookup(w.accounts, id) {
                    let off = EntryV { status: AccountStatus::Disabled, ..e };
                    let name = if username.len() == 0 {
                        None
                    } else {
                        Some(username)
                    };
                    let known = EntryV { bot_user_id: Some(bot), username: name, ..e };
                    active_after_put(w.accounts, id, off);
                    active_after_put(w.accounts, id, known);
                }
            },
            ChangeV::Disable { id } => {
                if let Some(e) = lookup(w.accounts, id) {
                    active_after_put(
                        w.accounts,
                        id,
                        EntryV { status: AccountStatus::Disabled, ..e },
                    );
                }
            },
            ChangeV::NoteToken { .. } => {},
        }
    }
}

/// No change puts white space around a token.
pub proof fn tokens_stay_trimmed(v: RegistryV, c: ChangeV)
    requires
        are_trimmed(v.tokens),
    ensures
        are_trimmed(changed(v, c).tokens),
{
    match c {
        ChangeV::Register { token, fresh, .. } => {
            putting_keeps_tokens_trimmed(v.tokens, fresh, trimmed(token));
        },
        ChangeV::Identify { id, bot, .. } => {
            if let Some(existing) = twin(v.accounts, id, bot) {
                putting_keeps_tokens_trimmed(v.tokens, existing, token_of(v.tokens, id));
            }
        },
        ChangeV::Disable { .. } => {},
        ChangeV::NoteToken { id, contents } => {
            putting_keeps_tokens_trimmed(v.tokens, id, contents);
        },
    }
}

/// In a registry whose tokens began trimmed, every token is trimmed whatever changes.
pub proof fn tokens_are_trimmed_throughout(v: RegistryV, changes: Seq<ChangeV>)
    requires
        are_trimmed(v.tokens),
    ensures
        are_trimmed(changed_by_all(v, changes).tokens),
    decreases changes.len(),
{
    if changes.len() > 0 {
        tokens_are_trimmed_throughout(v, changes.drop_last());
        tokens_stay_trimmed(changed_by_all(v, changes.drop_last()), changes.last());
    }
}

/// The accounts in use are listed once each, as they are found under their ids, and no others are.
pub proof fn accounts_in_use_are_listed_once(accounts: Seq<(Seq<char>, EntryV)>)
    requires
        keys_differ(accounts),
    ensures
        lists_those_in_use(active(accounts), accounts),
{
    let list = active(accounts);
    active_are_entries(accounts);
    assert forall|i: int| 0 <= i < list.len() implies lookup(accounts, (#[trigger] list[i]).0)
        == Some(list[i].1) && list[i].1.status == AccountStatus::Active by {
        let k = choose|k: int| 0 <= k < accounts.len() && accounts[k] == list[i];
        assert forall|j: int| 0 <= j < k implies (#[trigger] accounts[j]).0 != list[i].0 by {
            assert(accounts[j].0 != accounts[k].0);
        }
        first_entry(accounts, list[i].0, k);
    }
    active_are_all(accounts);
    assert forall|id: Seq<char>| (#[trigger] lookup(accounts, id) matches Some(e) && e.status
        == AccountStatus::Active) implies exists|i: int|
        0 <= i < list.len() && #[trigger] list[i] == (id, lookup(accounts, id)->0) by {
        lookup_is_an_entry(accounts, id);
        let e = lookup(accounts, id)->0;
        let k = choose|k: int| 0 <= k < accounts.len() && #[trigger] accounts[k] == (id, e);
        assert(list.contains(accounts[k]));
    }
}

/// The accounts in use are all listed, and the keys of the list differ where those of the accounts
/// do.
proof fn active_are_all(m: Seq<(Seq<char>, EntryV)>)
    ensures
        forall|k: int|
            0 <= k < m.len() && (#[trigger] m[k]).1.status == AccountStatus::Active ==> active(
                m,
            ).contains(m[k]),
        keys_differ(m) ==> keys_differ(active(m)),
    decreases m.len(),
{
    if m.len() > 0 {
        let d = active(m.drop_last());
        active_are_all(m.drop_last());
        active_are_entries(m.drop_last());
        assert forall|k: int|
            0 <= k < m.len() && (#[trigger] m[k]).1.status == AccountStatus::Active implies active(
            m,
        ).contains(m[k]) by {
            if k < m.len() - 1 {
                assert(m.drop_last()[k] == m[k]);
                let i = choose|i: int| 0 <= i < d.len() && d[i] == m[k];
                assert(active(m)[i] == m[k]);
            } else {
                assert(active(m)[d.len() as int] == m[k]);
            }
        }
        if keys_differ(m) {
            assert forall|a: int, b: int| 0 <= a < b < m.drop_last().len() implies (
            #[trigger] m.drop_last()[a]).0 != (#[trigger] m.drop_last()[b]).0 by {
                assert(m[a].0 != m[b].0);
            }
            assert forall|i: int| 0 <= i < d.len() implies (#[trigger] d[i]).0 != m.last().0 by {
                let k = choose|k: int| 0 <= k < m.drop_last().len() && m.drop_last()[k] == d[i];
                assert(m[k] == d[i]);
                assert(m[k].0 != m[m.len() - 1].0);
            }
        }
    }
}

/// Those of the tokens that are not blank, trimmed.
pub open spec fn given(tokens: Seq<Seq<char>>) -> Seq<Seq<char>>
    decreases tokens.len(),
{
    if tokens.len() == 0 {
        Seq::empty()
    } else if trimmed(tokens.last()).len() == 0 {
        given(tokens.drop_last())
    } else {
        given(tokens.drop_last()).push(trimmed(tokens.last()))
    }
}

/// Those of the ids drawn that accounts get, where there are none yet: one for each token that is
/// not blank and was not there before.
pub open spec fn ids_used(tokens: Seq<Seq<char>>, fresh: Seq<Seq<char>>) -> Seq<Seq<char>>
    decreases tokens.len(),
{
    if tokens.len() == 0 {
        Seq::empty()
    } else {
        let before = ids_used(tokens.drop_last(), fresh);
        let t = trimmed(tokens.last());
        if t.len() == 0 || given(tokens.drop_last()).contains(t) {
            before
        } else {
            before.push(fresh[tokens.len() - 1])
        }
    }
}

/// The registry has exactly these accounts, one for each token, and all of them are in use.
pub open spec fn has_accounts_for(v: RegistryV, ids: Seq<Seq<char>>, tokens: Seq<Seq<char>>) -> bool {
    &&& ids.len() == tokens.len()
    &&& forall|i: int, j: int|
        0 <= i < ids.len() && 0 <= j < ids.len() ==> (#[trigger] ids[i] == #[trigger] ids[j]
            <==> tokens[i] == tokens[j])
    &&& forall|i: int|
        0 <= i < ids.len() ==> token_of(v.tokens, #[trigger] ids[i]) == tokens[i] && (lookup(
            v.accounts,
            ids[i],
        ) matches Some(e) && e.status == AccountStatus::Active)
    &&& forall|k: int| 0 <= k < v.accounts.len() ==> ids.contains((#[trigger] v.accounts[k]).0)
}

/// What holds while the tokens of a configuration are registered.
spec fn halfway(
    v: RegistryV,
    ids: Seq<Seq<char>>,
    tokens: Seq<Seq<char>>,
    used: Seq<Seq<char>>,
) -> bool {
    &&& has_accounts_for(v, ids, tokens)
    &&& v.accounts.len() == tokens.to_set().len()
    &&& forall|k: int| 0 <= k < v.accounts.len() ==> used.contains((#[trigger] v.accounts[k]).0)
}

proof fn active_are_at_most_all(accounts: Seq<(Seq<char>, EntryV)>)
    ensures
        active(accounts).len() <= accounts.len(),
    decreases accounts.len(),
{
    if accounts.len() > 0 {
        active_are_at_most_all(accounts.drop_last());
    }
}

/// A token that is there again goes to its account, and nothing changes.
proof fn token_is_known(
    v: RegistryV,
    ids: Seq<Seq<char>>,
    tokens: Seq<Seq<char>>,
    token: Seq<char>,
    i: int,
    fresh: Seq<char>,
    now: u64,
)
    requires
        has_accounts_for(v, ids, tokens),
        0 <= i < ids.len(),
        tokens[i] == trimmed(token),
        trimmed(token).len() > 0,
    ensures
        registered(v, token, fresh, now) == (v, Ok::<Seq<char>, ErrorV>(ids[i])),
{
    let t = trimmed(token);
    let id = ids[i];
    holder_is_first(v.accounts, v.tokens, t);
    lookup_is_an_entry(v.accounts, id);
    let e = lookup(v.accounts, id)->0;
    let k = choose|k: int| 0 <= k < v.accounts.len() && #[trigger] v.accounts[k] == (id, e);
    assert(token_of(v.tokens, v.accounts[k].0) == t);
    let found = holder(v.accounts, v.tokens, t)->0;
    lookup_is_an_entry(v.accounts, found);
    let x = lookup(v.accounts, found)->0;
    let f = choose|f: int| 0 <= f < v.accounts.len() && #[trigger] v.accounts[f] == (found, x);
    assert(ids.contains(v.accounts[f].0));
    let j = choose|j: int| 0 <= j < ids.len() && ids[j] == found;
    assert(ids[j] == ids[i]);
    putting_again(v.accounts, id, e);
}

/// A token that no account has gets an account of its own.
proof fn token_is_new(
    v: RegistryV,
    ids: Seq<Seq<char>>,
    tokens: Seq<Seq<char>>,
    used: Seq<Seq<char>>,
    token: Seq<char>,
    fresh: Seq<char>,
    now: u64,
)
    requires
        halfway(v, ids, tokens, used),
        !tokens.contains(trimmed(token)),
        !used.contains(fresh),
        trimmed(token).len() > 0,
        tokens.push(trimmed(token)).to_set().len() <= v.max_accounts,
    ensures
        registered(v, token, fresh, now) == (
            with_account(v, fresh, trimmed(token), now),
            Ok::<Seq<char>, ErrorV>(fresh),
        ),
        halfway(
            with_account(v, fresh, trimmed(token), now),
            ids.push(fresh),
            tokens.push(trimmed(token)),
            used.push(fresh),
        ),
{
    let t = trimmed(token);
    let after = with_account(v, fresh, t, now);
    trimmed_idempotent(token);
    holder_is_first(v.accounts, v.tokens, t);
    if let Some(id) = holder(v.accounts, v.tokens, t) {
        lookup_is_an_entry(v.accounts, id);
        let x = lookup(v.accounts, id)->0;
        let f = choose|f: int| 0 <= f < v.accounts.len() && #[trigger] v.accounts[f] == (id, x);
        assert(ids.contains(v.accounts[f].0));
        let j = choose|j: int| 0 <= j < ids.len() && ids[j] == id;
        assert(token_of(v.tokens, ids[j]) == tokens[j]);
        assert(tokens.contains(t));
    }
    tokens.lemma_push_to_set_commute(t);
    assert(tokens.to_set().finite()) by {
        vstd::seq_lib::seq_to_set_is_finite(tokens);
    }
    assert(!tokens.to_set().contains(t));
    assert(tokens.push(t).to_set().len() == tokens.to_set().len() + 1);
    active_are_at_most_all(v.accounts);
    assert forall|j: int| 0 <= j < v.accounts.len() implies (#[trigger] v.accounts[j]).0
        != fresh by {
        assert(used.contains(v.accounts[j].0));
    }
    no_entry(v.accounts, fresh);
    assert(after.accounts == v.accounts.push((fresh, new_entry(now))));
    let ids2 = ids.push(fresh);
    let tokens2 = tokens.push(t);
    assert forall|i: int| 0 <= i < ids.len() implies #[trigger] ids[i] != fresh by {
        lookup_is_an_entry(v.accounts, ids[i]);
        let x = lookup(v.accounts, ids[i])->0;
        let f = choose|f: int|
            0 <= f < v.accounts.len() && #[trigger] v.accounts[f] == (ids[i], x);
        assert(v.accounts[f].0 != fresh);
    }
    assert forall|i: int| 0 <= i < ids2.len() implies token_of(after.tokens, #[trigger] ids2[i])
        == tokens2[i] && (lookup(after.accounts, ids2[i]) matches Some(e) && e.status
        == AccountStatus::Active) by {
        with_entry_lookup(v.accounts, fresh, new_entry(now), ids2[i]);
        with_entry_lookup(v.tokens, fresh, t, ids2[i]);
        if i < ids.len() {
            assert(ids2[i] == ids[i]);
        }
    }
    assert forall|i: int, j: int|
        0 <= i < ids2.len() && 0 <= j < ids2.len() implies (#[trigger] ids2[i] == #[trigger] ids2[j]
        <==> tokens2[i] == tokens2[j]) by {
        if i < ids.len() {
            assert(ids2[i] == ids[i]);
            assert(tokens.contains(tokens[i]));
        }
        if j < ids.len() {
            assert(ids2[j] == ids[j]);
            assert(tokens.contains(tokens[j]));
        }
    }
    assert forall|k: int| 0 <= k < after.accounts.len() implies ids2.contains(
        (#[trigger] after.accounts[k]).0,
    ) && used.push(fresh).contains(after.accounts[k].0) by {
        if k < v.accounts.len() {
            let own = v.accounts[k].0;
            assert(after.accounts[k].0 == own);
            let i = choose|i: int| 0 <= i < ids.len() && ids[i] == own;
            assert(ids2[i] == own);
            let u = choose|u: int| 0 <= u < used.len() && used[u] == own;
            assert(used.push(fresh)[u] == own);
        } else {
            assert(ids2[ids.len() as int] == fresh);
            assert(used.push(fresh)[used.len() as int] == fresh);
        }
    }
}

proof fn tokens_get_accounts(
    v: RegistryV,
    tokens: Seq<Seq<char>>,
    fresh: Seq<Seq<char>>,
    now: u64,
    n: int,
)
    requires
        v.accounts.len() == 0,
        ids_used(tokens, fresh).no_duplicates(),
        given(tokens).to_set().len() <= v.max_accounts,
        0 <= n <= tokens.len(),
    ensures
        registered_all(v, tokens.take(n), fresh, now) matches (after, Ok(ids)) && halfway(
            after,
            ids,
            given(tokens.take(n)),
            ids_used(tokens.take(n), fresh),
        ) && after.max_accounts == v.max_accounts,
    decreases n,
{
    let part = tokens.take(n);
    if n == 0 {
        assert(given(part).to_set() =~= Set::<Seq<char>>::empty());
    } else {
        tokens_get_accounts(v, tokens, fresh, now, n - 1);
        assert(part.drop_last() == tokens.take(n - 1));
        let (before, r) = registered_all(v, tokens.take(n - 1), fresh, now);
        let ids = r->Ok_0;
        let known = given(tokens.take(n - 1));
        let used = ids_used(tokens.take(n - 1), fresh);
        let t = trimmed(part.last());
        if t.len() > 0 && known.contains(t) {
            let i = choose|i: int| 0 <= i < known.len() && known[i] == t;
            token_is_known(before, ids, known, part.last(), i, fresh[n - 1], now);
            known.lemma_push_to_set_commute(t);
            assert(known.to_set().insert(t) =~= known.to_set());
            let ids2 = ids.push(ids[i]);
            let known2 = known.push(t);
            assert forall|a: int, b: int|
                0 <= a < ids2.len() && 0 <= b < ids2.len() implies (#[trigger] ids2[a]
                == #[trigger] ids2[b] <==> known2[a] == known2[b]) by {
                let x = if a < ids.len() {
                    a
                } else {
                    i
                };
                let y = if b < ids.len() {
                    b
                } else {
                    i
                };
                assert(ids2[a] == ids[x] && ids2[b] == ids[y]);
            }
            assert forall|a: int| 0 <= a < ids2.len() implies token_of(
                before.tokens,
                #[trigger] ids2[a],
            ) == known2[a] && (lookup(before.accounts, ids2[a]) matches Some(e) && e.status
                == AccountStatus::Active) by {
                let x = if a < ids.len() {
                    a
                } else {
                    i
                };
                assert(ids2[a] == ids[x]);
            }
            assert forall|k: int| 0 <= k < before.accounts.len() implies ids2.contains(
                (#[trigger] before.accounts[k]).0,
            ) by {
                let own = before.accounts[k].0;
                let a = choose|a: int| 0 <= a < ids.len() && ids[a] == own;
                assert(ids2[a] == own);
            }
        } else if t.len() > 0 {
            let own = fresh[n - 1];
            let more = ids_used(part, fresh);
            let all = ids_used(tokens, fresh);
            ids_used_grow(tokens, fresh, n);
            assert(more == used.push(own));
            assert forall|u: int| 0 <= u < used.len() implies #[trigger] used[u] != own by {
                assert(all[u] == more[u] && all[used.len() as int] == more[used.len() as int]);
            }
            given_grows(tokens, n);
            assert(known.push(t) == given(part));
            token_is_new(before, ids, known, used, part.last(), own, now);
            trimmed_idempotent(part.last());
        }
    }
}

/// The ids that the first tokens use are the first of all that are used.
proof fn ids_used_grow(tokens: Seq<Seq<char>>, fresh: Seq<Seq<char>>, n: int)
    requires
        0 <= n <= tokens.len(),
    ensures
        ids_used(tokens.take(n), fresh).len() <= ids_used(tokens, fresh).len(),
        forall|u: int|
            0 <= u < ids_used(tokens.take(n), fresh).len() ==> #[trigger] ids_used(
                tokens.take(n),
                fresh,
            )[u] == ids_used(tokens, fresh)[u],
    decreases tokens.len() - n,
{
    if n == tokens.len() {
        assert(tokens.take(n) == tokens);
    } else {
        ids_used_grow(tokens, fresh, n + 1);
        let less = ids_used(tokens.take(n), fresh);
        let more = ids_used(tokens.take(n + 1), fresh);
        assert(tokens.take(n + 1).drop_last() == tokens.take(n));
        assert forall|u: int| 0 <= u < less.len() implies #[trigger] less[u] == ids_used(
            tokens,
            fresh,
        )[u] by {
            assert(less[u] == more[u]);
        }
    }
}

/// The first tokens are among all of them.
proof fn given_grows(tokens: Seq<Seq<char>>, n: int)
    requires
        0 <= n <= tokens.len(),
    ensures
        given(tokens.take(n)).len() <= given(tokens).len(),
        given(tokens.take(n)) == given(tokens).take(given(tokens.take(n)).len() as int),
        given(tokens.take(n)).to_set().len() <= given(tokens).to_set().len(),
    decreases tokens.len() - n,
{
    if n == tokens.len() {
        assert(tokens.take(n) == tokens);
        assert(given(tokens).take(given(tokens).len() as int) == given(tokens));
    } else {
        given_grows(tokens, n + 1);
        let less = given(tokens.take(n));
        let more = given(tokens.take(n + 1));
        assert(tokens.take(n + 1).drop_last() == tokens.take(n));
        assert(more.take(less.len() as int) =~= less);
        assert(given(tokens).take(less.len() as int) =~= more.take(less.len() as int));
        let all = given(tokens);
        vstd::seq_lib::seq_to_set_is_finite(all);
        assert(less.to_set().subset_of(all.to_set())) by {
            assert forall|x: Seq<char>| less.to_set().contains(x) implies all.to_set().contains(
                x,
            ) by {
                let i = choose|i: int| 0 <= i < less.len() && less[i] == x;
                assert(all[i] == x);
            }
        }
        vstd::set_lib::lemma_len_subset(less.to_set(), all.to_set());
    }
}

/// The tokens of a configuration that are not blank get one account each, where the limit allows as
/// many and the ids of the accounts differ: the same token the same account, different tokens different ones.
/// The accounts hold their tokens and are in use, and there are no others.
pub proof fn configured_tokens_get_accounts(
    v: RegistryV,
    tokens: Seq<Seq<char>>,
    fresh: Seq<Seq<char>>,
    now: u64,
)
    requires
        v.accounts.len() == 0,
        ids_used(tokens, fresh).no_duplicates(),
        given(tokens).to_set().len() <= v.max_accounts,
    ensures
        registered_all(v, tokens, fresh, now) matches (after, Ok(ids)) && has_accounts_for(
            after,
            ids,
            given(tokens),
        ),
{
    tokens_get_accounts(v, tokens, fresh, now, tokens.len() as int);
    assert(tokens.take(tokens.len() as int) == tokens);
}

proof fn known_tokens_change_nothing(
    v: RegistryV,
    ids: Seq<Seq<char>>,
    tokens: Seq<Seq<char>>,
    fresh: Seq<Seq<char>>,
    now: u64,
    n: int,
)
    requires
        has_accounts_for(v, ids, given(tokens)),
        0 <= n <= tokens.len(),
    ensures
        registered_all(v, tokens.take(n), fresh, now) == (
            v,
            Ok::<Seq<Seq<char>>, ErrorV>(ids.take(given(tokens.take(n)).len() as int)),
        ),
    decreases n,
{
    let part = tokens.take(n);
    if n == 0 {
        assert(ids.take(0) =~= Seq::<Seq<char>>::empty());
    } else {
        known_tokens_change_nothing(v, ids, tokens, fresh, now, n - 1);
        assert(part.drop_last() == tokens.take(n - 1));
        if trimmed(part.last()).len() > 0 {
            let i = given(tokens.take(n - 1)).len() as int;
            given_grows(tokens, n);
            assert(given(part)[i] == trimmed(part.last()));
            assert(given(tokens)[i] == given(part)[i]);
            token_is_known(v, ids, given(tokens), part.last(), i, fresh[n - 1], now);
            assert(ids.take(i + 1) =~= ids.take(i).push(ids[i]));
        }
    }
}

/// Registering the tokens of a configuration again gives the same accounts and changes nothing.
pub proof fn configured_tokens_keep_their_accounts(
    v: RegistryV,
    ids: Seq<Seq<char>>,
    tokens: Seq<Seq<char>>,
    fresh: Seq<Seq<char>>,
    now: u64,
)
    requires
        has_accounts_for(v, ids, given(tokens)),
    ensures
        registered_all(v, tokens, fresh, now) == (v, Ok::<Seq<Seq<char>>, ErrorV>(ids)),
{
    known_tokens_change_nothing(v, ids, tokens, fresh, now, tokens.len() as int);
    assert(tokens.take(tokens.len() as int) == tokens);
    assert(ids.take(ids.len() as int) == ids);
}

/// An account that was put out of use is not among those in use.
pub proof fn disabled_is_not_active(accounts: Seq<(Seq<char>, EntryV)>, id: Seq<char>)
    requires
        keys_differ(accounts),
    ensures
        forall|i: int|
            0 <= i < active(with_status(accounts, id, AccountStatus::Disabled)).len() ==> (
            #[trigger] active(with_status(accounts, id, AccountStatus::Disabled))[i]).0 != id,
{
    let m = with_status(accounts, id, AccountStatus::Disabled);
    lookup_is_an_entry(accounts, id);
    match lookup(accounts, id) {
        Some(e) => {
            let d = EntryV { status: AccountStatus::Disabled, ..e };
            with_entry_keys_differ(accounts, id, d);
            with_entry_lookup(accounts, id, d, id);
            lookup_is_an_entry(m, id);
            let k = choose|k: int| 0 <= k < m.len() && #[trigger] m[k] == (id, d);
            assert forall|i: int| 0 <= i < m.len() && (#[trigger] m[i]).0 == id implies m[i].1.status
                == AccountStatus::Disabled by {
                if i != k {
                    assert(m[i].0 != m[k].0);
                }
            }
        },
        None => {},
    }
    active_are_entries(m);
}

proof fn active_are_entries(m: Seq<(Seq<char>, EntryV)>)
    ensures
        forall|i: int|
            0 <= i < active(m).len() ==> (#[trigger] active(m)[i]).1.status == AccountStatus::Active
                && m.contains(active(m)[i]),
    decreases m.len(),
{
    if m.len() > 0 {
        active_are_entries(m.drop_last());
        assert forall|i: int| 0 <= i < active(m).len() implies (#[trigger] active(m)[i]).1.status
            == AccountStatus::Active && m.contains(active(m)[i]) by {
            if i < active(m.drop_last()).len() {
                let x = active(m.drop_last())[i];
                assert(active(m)[i] == x);
                let k = choose|k: int| 0 <= k < m.drop_last().len() && m.drop_last()[k] == x;
                assert(m[k] == x);
            } else {
                assert(active(m)[i] == m[m.len() - 1]);
            }
        }
    }
}

/// No two accounts are in use for the same bot.
pub open spec fn bots_differ(accounts: Seq<(Seq<char>, EntryV)>) -> bool {
    forall|i: int, j: int|
        0 <= i < j < accounts.len() && (#[trigger] accounts[i]).1.status == AccountStatus::Active
            && (#[trigger] accounts[j]).1.status == AccountStatus::Active
            && accounts[i].1.bot_user_id is Some ==> accounts[i].1.bot_user_id
            != accounts[j].1.bot_user_id
}

proof fn twin_is_found(accounts: Seq<(Seq<char>, EntryV)>, id: Seq<char>, bot: Seq<char>)
    ensures
        twin(accounts, id, bot) is None ==> forall|i: int|
            0 <= i < accounts.len() ==> !is_twin(#[trigger] accounts[i], id, bot),
    decreases accounts.len(),
{
    if accounts.len() > 0 && !is_twin(accounts[0], id, bot) {
        twin_is_found(accounts.drop_first(), id, bot);
        if twin(accounts, id, bot) is None {
            assert forall|i: int| 0 <= i < accounts.len() implies !is_twin(
                #[trigger] accounts[i],
                id,
                bot,
            ) by {
                if i > 0 {
                    assert(accounts.drop_first()[i - 1] == accounts[i]);
                }
            }
        }
    }
}

/// Taking note of the bots of accounts never leaves two accounts in use for the same bot.
pub proof fn one_account_per_bot(v: RegistryV, id: Seq<char>, bot: Seq<char>, username: Seq<char>)
    requires
        keys_differ(v.accounts),
        bots_differ(v.accounts),
    ensures
        keys_differ(identified(v, id, bot, username).0.accounts),
        bots_differ(identified(v, id, bot, username).0.accounts),
{
    let m = v.accounts;
    let (after, _) = identified(v, id, bot, username);
    lookup_is_an_entry(m, id);
    twin_is_found(m, id, bot);
    match lookup(m, id) {
        Some(e) => {
            let k = choose|k: int|
                0 <= k < m.len() && #[trigger] m[k] == (id, e) && forall|j: int|
                    0 <= j < k ==> (#[trigger] m[j]).0 != id;
            first_entry(m, id, k);
            assert forall|i: int, j: int|
                0 <= i < j < after.accounts.len() && (#[trigger] after.accounts[i]).1.status
                    == AccountStatus::Active && (#[trigger] after.accounts[j]).1.status
                    == AccountStatus::Active
                    && after.accounts[i].1.bot_user_id is Some implies after.accounts[i].1.bot_user_id
                != after.accounts[j].1.bot_user_id by {
                assert(m[i].0 != m[j].0);
                if i != k && j != k {
                    assert(after.accounts[i] == m[i]);
                    assert(after.accounts[j] == m[j]);
                }
                if twin(m, id, bot) is None {
                    assert(!is_twin(m[i], id, bot));
                    assert(!is_twin(m[j], id, bot));
                }
            }
            if after.accounts != m {
                assert forall|e2: EntryV| keys_differ(#[trigger] with_entry(m, id, e2)) by {
                    with_entry_keys_differ(m, id, e2);
                }
            }
        },
        None => {},
    }
}

} // verus!
