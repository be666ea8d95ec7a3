//! Laws of the registries of bot accounts: an account is found again with what was registered for it, and
//! what concerns one account leaves the others alone.

use vstd::prelude::*;

use crate::error::ErrorV;
use crate::paths::{joined_paths_lead_into_the_directory, path_of};
use crate::platforms::telegram::registry as telegram;
use crate::platforms::tokens::token_of;
use crate::platforms::wechat::registry as wechat;
use crate::strs::{is_ws, trimmed};
use crate::table::{lookup, with_entry_lookup};

verus! {

/// A text without white space at its ends.
pub open spec fn is_tight(t: Seq<char>) -> bool {
    t.len() > 0 && !is_ws(t[0]) && !is_ws(t.last())
}

proof fn tight_stays(t: Seq<char>)
    requires
        is_tight(t),
    ensures
        trimmed(t) == t,
{
}

// ---------------------------------------------------------------------------------------------
// WeChat
// ---------------------------------------------------------------------------------------------

/// The account of a bot is one that is in use and runs it, and there is none exactly where no
/// account does.
pub proof fn wechat_accounts_are_found_by_their_bot(accounts: Seq<(Seq<char>, wechat::EntryV)>, bot: Seq<char>)
    ensures
        wechat::account_of(accounts, bot) matches Some(id) ==> exists|i: int|
            0 <= i < accounts.len() && (#[trigger] accounts[i]).0 == id && accounts[i].1.status
                == wechat::AccountStatus::Active && accounts[i].1.bot_user_id == Some(bot),
        wechat::account_of(accounts, bot) is None ==> forall|i: int|
            0 <= i < accounts.len() && (#[trigger] accounts[i]).1.status
                == wechat::AccountStatus::Active ==> accounts[i].1.bot_user_id != Some(bot),
    decreases accounts.len(),
{
    if accounts.len() > 0 {
        let rest = accounts.drop_first();
        wechat_accounts_are_found_by_their_bot(rest, bot);
        if wechat::runs_bot(accounts[0].1, bot) {
            assert(accounts[0].0 == wechat::account_of(accounts, bot)->0);
        } else {
            match wechat::account_of(rest, bot) {
                Some(id) => {
                    let k = choose|k: int|
                        0 <= k < rest.len() && (#[trigger] rest[k]).0 == id && rest[k].1.status
                            == wechat::AccountStatus::Active && rest[k].1.bot_user_id == Some(bot);
                    assert(accounts[k + 1] == rest[k]);
                },
                None => {
                    assert forall|i: int|
                        0 <= i < accounts.len() && (#[trigger] accounts[i]).1.status
                            == wechat::AccountStatus::Active implies accounts[i].1.bot_user_id
                        != Some(bot) by {
                        if i > 0 {
                            assert(rest[i - 1] == accounts[i]);
                        }
                    }
                },
            }
        }
    }
}

/// A login of a bot that no account runs makes an account in use: with the bot, the address, the
/// token and the time of the login, where there is room for it. Other accounts stay as they are.
pub proof fn wechat_logins_make_accounts(
    v: wechat::RegistryV,
    token: Seq<char>,
    url: Seq<char>,
    bot: Seq<char>,
    fresh: Seq<char>,
    now: u64,
    other: Seq<char>,
)
    requires
        is_tight(token),
        is_tight(bot),
        url.len() > 0,
        wechat::account_of(v.accounts, bot) is None,
        other != fresh,
    ensures
        ({
            let (w, r) = wechat::registered(v, token, url, Some(bot), fresh, now);
            &&& wechat::active(v.accounts).len() < v.max_accounts ==> {
                &&& r == Ok::<Seq<char>, ErrorV>(fresh)
                &&& lookup(w.accounts, fresh) == Some(
                    wechat::EntryV {
                        bot_user_id: Some(bot),
                        base_url: url,
                        status: wechat::AccountStatus::Active,
                        created_at: now,
                    },
                )
                &&& token_of(w.tokens, fresh) == token
                &&& lookup(w.accounts, other) == lookup(v.accounts, other)
                &&& token_of(w.tokens, other) == token_of(v.tokens, other)
                &&& w.max_accounts == v.max_accounts
                &&& w.data_dir == v.data_dir
            }
            &&& wechat::active(v.accounts).len() >= v.max_accounts ==> r is Err && w == v
        }),
        wechat::url_or_default(Seq::empty()) == "https://ilinkai.weixin.qq.com"@,
{
    tight_stays(token);
    tight_stays(bot);
    let e = wechat::EntryV {
        bot_user_id: Some(bot),
        base_url: url,
        status: wechat::AccountStatus::Active,
        created_at: now,
    };
    with_entry_lookup(v.accounts, fresh, e, fresh);
    with_entry_lookup(v.accounts, fresh, e, other);
    with_entry_lookup(v.tokens, fresh, token, fresh);
    with_entry_lookup(v.tokens, fresh, token, other);
}

/// A login of a bot that an account runs is one to that account, which gets the new token and
/// address; it makes no other account.
pub proof fn wechat_logins_renew_accounts(
    v: wechat::RegistryV,
    token: Seq<char>,
    url: Seq<char>,
    bot: Seq<char>,
    id: Seq<char>,
    fresh: Seq<char>,
    now: u64,
    other: Seq<char>,
    e: wechat::EntryV,
)
    requires
        is_tight(token),
        is_tight(bot),
        url.len() > 0,
        wechat::account_of(v.accounts, bot) == Some(id),
        lookup(v.accounts, id) == Some(e),
        other != id,
    ensures
        ({
            let (w, r) = wechat::registered(v, token, url, Some(bot), fresh, now);
            &&& r == Ok::<Seq<char>, ErrorV>(id)
            &&& token_of(w.tokens, id) == token
            &&& lookup(w.accounts, id) == Some(wechat::EntryV { base_url: url, ..e })
            &&& lookup(w.accounts, other) == lookup(v.accounts, other)
            &&& token_of(w.tokens, other) == token_of(v.tokens, other)
        }),
{
    tight_stays(token);
    tight_stays(bot);
    with_entry_lookup(v.accounts, id, wechat::EntryV { base_url: url, ..e }, id);
    with_entry_lookup(v.accounts, id, wechat::EntryV { base_url: url, ..e }, other);
    with_entry_lookup(v.tokens, id, token, id);
    with_entry_lookup(v.tokens, id, token, other);
}

/// Disabling an account changes its state, and nothing else of it or of another.
pub proof fn wechat_states_are_changed_alone(
    accounts: Seq<(Seq<char>, wechat::EntryV)>,
    id: Seq<char>,
    other: Seq<char>,
    e: wechat::EntryV,
    status: wechat::AccountStatus,
)
    requires
        lookup(accounts, id) == Some(e),
        other != id,
    ensures
        lookup(wechat::with_status(accounts, id, status), id) == Some(
            wechat::EntryV { status: status, ..e },
        ),
        lookup(wechat::with_status(accounts, id, status), other) == lookup(accounts, other),
{
    with_entry_lookup(accounts, id, wechat::EntryV { status: status, ..e }, id);
    with_entry_lookup(accounts, id, wechat::EntryV { status: status, ..e }, other);
}

/// An account that is found to run a bot is known by it; where another account runs the bot already,
/// that one gets its token and it is disabled. Nothing is known by a blank name.
pub proof fn wechat_bots_are_run_once(
    v: wechat::RegistryV,
    id: Seq<char>,
    bot: Seq<char>,
    existing: Seq<char>,
    token: Seq<char>,
    e: wechat::EntryV,
)
    requires
        bot.len() > 0,
        lookup(v.accounts, id) == Some(e),
        existing != id,
        is_tight(token),
    ensures
        wechat::account_of(v.accounts, bot) is None ==> wechat::identified(v, id, bot).1 is None
            && lookup(wechat::identified(v, id, bot).0.accounts, id) == Some(
            wechat::EntryV { bot_user_id: Some(bot), ..e },
        ) && wechat::identified(v, id, bot).0.tokens == v.tokens,
        wechat::account_of(v.accounts, bot) == Some(existing) && token_of(v.tokens, id) == token ==> ({
            let (w, m) = wechat::identified(v, id, bot);
            &&& m == Some(existing)
            &&& token_of(w.tokens, existing) == token
            &&& lookup(w.accounts, id) == Some(
                wechat::EntryV { status: wechat::AccountStatus::Disabled, ..e },
            )
            &&& lookup(w.accounts, existing) == lookup(v.accounts, existing)
        }),
        wechat::identified(v, id, Seq::empty()) == (v, None::<Seq<char>>),
{
    tight_stays(token);
    let d = wechat::EntryV { status: wechat::AccountStatus::Disabled, ..e };
    with_entry_lookup(v.accounts, id, wechat::EntryV { bot_user_id: Some(bot), ..e }, id);
    with_entry_lookup(v.accounts, id, d, id);
    with_entry_lookup(v.accounts, id, d, existing);
    with_entry_lookup(v.tokens, existing, token, existing);
}

/// A token from before there were accounts becomes the first one, and only where there is none.
pub proof fn wechat_old_tokens_become_accounts(
    v: wechat::RegistryV,
    token: Seq<char>,
    url: Seq<char>,
    now: u64,
)
    requires
        is_tight(token),
        url.len() > 0,
    ensures
        v.accounts.len() == 0 ==> ({
            let w = wechat::migrated(v, token, url, now);
            &&& token_of(w.tokens, "acc_legacy"@) == token
            &&& lookup(w.accounts, "acc_legacy"@) == Some(
                wechat::EntryV {
                    bot_user_id: None,
                    base_url: url,
                    status: wechat::AccountStatus::Active,
                    created_at: now,
                },
            )
        }),
        v.accounts.len() > 0 ==> wechat::migrated(v, token, url, now) == v,
        wechat::migrated(v, Seq::empty(), url, now) == v,
{
    tight_stays(token);
    with_entry_lookup(v.tokens, "acc_legacy"@, token, "acc_legacy"@);
    with_entry_lookup(
        v.accounts,
        "acc_legacy"@,
        wechat::EntryV {
            bot_user_id: None,
            base_url: url,
            status: wechat::AccountStatus::Active,
            created_at: now,
        },
        "acc_legacy"@,
    );
}

/// Each account has a directory of its own below that of the gateway.
pub proof fn accounts_have_directories(dir: Seq<char>, id: Seq<char>)
    requires
        dir.len() > 0,
        dir.last() != '/',
        id.len() > 0,
        id[0] != '/',
    ensures
        wechat::dir_of(dir, id) == dir.push('/') + "wechat"@.push('/') + id,
        telegram::dir_of(dir, id) == dir.push('/') + "telegram"@.push('/') + id,
        wechat::channel_of(id) == "wechat:"@ + id,
        telegram::channel_of(id) == "telegram:"@ + id,
{
    reveal_strlit("wechat");
    reveal_strlit("telegram");
    joined_paths_lead_into_the_directory(dir, "wechat"@);
    joined_paths_lead_into_the_directory(dir, "telegram"@);
    let w = path_of(dir, "wechat"@);
    let t = path_of(dir, "telegram"@);
    assert(w.last() == 't');
    assert(t.last() == 'm');
    joined_paths_lead_into_the_directory(w, id);
    joined_paths_lead_into_the_directory(t, id);
    assert(w.push('/') + id =~= dir.push('/') + "wechat"@.push('/') + id);
    assert(t.push('/') + id =~= dir.push('/') + "telegram"@.push('/') + id);
}

// ---------------------------------------------------------------------------------------------
// Telegram
// ---------------------------------------------------------------------------------------------

/// A token that no account has makes an account in use, with the token and the time, where there is
/// room for it; a blank one makes none. Other accounts stay as they are.
pub proof fn telegram_tokens_make_accounts(
    v: telegram::RegistryV,
    token: Seq<char>,
    fresh: Seq<char>,
    now: u64,
    other: Seq<char>,
)
    requires
        is_tight(token),
        telegram::holder(v.accounts, v.tokens, token) is None,
        other != fresh,
    ensures
        ({
            let (w, r) = telegram::registered(v, token, fresh, now);
            &&& telegram::active(v.accounts).len() < v.max_accounts ==> {
                &&& r == Ok::<Seq<char>, ErrorV>(fresh)
                &&& lookup(w.accounts, fresh) == Some(
                    telegram::EntryV {
                        bot_user_id: None,
                        username: None,
                        status: telegram::AccountStatus::Active,
                        created_at: now,
                    },
                )
                &&& token_of(w.tokens, fresh) == token
                &&& lookup(w.accounts, other) == lookup(v.accounts, other)
                &&& token_of(w.tokens, other) == token_of(v.tokens, other)
                &&& w.max_accounts == v.max_accounts
                &&& w.data_dir == v.data_dir
            }
            &&& telegram::active(v.accounts).len() >= v.max_accounts ==> r is Err && w == v
        }),
        telegram::registered(v, Seq::empty(), fresh, now).1 is Err,
        telegram::registered(v, Seq::empty(), fresh, now).0 == v,
{
    tight_stays(token);
    assert(trimmed(Seq::<char>::empty()) == Seq::<char>::empty());
    let e = telegram::EntryV {
        bot_user_id: None,
        username: None,
        status: telegram::AccountStatus::Active,
        created_at: now,
    };
    with_entry_lookup(v.accounts, fresh, e, fresh);
    with_entry_lookup(v.accounts, fresh, e, other);
    with_entry_lookup(v.tokens, fresh, token, fresh);
    with_entry_lookup(v.tokens, fresh, token, other);
}

/// A token that an account has is that account, which is in use again.
pub proof fn telegram_tokens_find_their_account(
    v: telegram::RegistryV,
    token: Seq<char>,
    id: Seq<char>,
    fresh: Seq<char>,
    now: u64,
    e: telegram::EntryV,
)
    requires
        is_tight(token),
        telegram::holder(v.accounts, v.tokens, token) == Some(id),
        lookup(v.accounts, id) == Some(e),
        telegram::active(v.accounts).len() < v.max_accounts,
    ensures
        telegram::registered(v, token, fresh, now).1 == Ok::<Seq<char>, ErrorV>(id),
        lookup(telegram::registered(v, token, fresh, now).0.accounts, id) == Some(
            telegram::EntryV { status: telegram::AccountStatus::Active, ..e },
        ),
        telegram::registered(v, token, fresh, now).0.tokens == v.tokens,
{
    tight_stays(token);
    with_entry_lookup(
        v.accounts,
        id,
        telegram::EntryV { status: telegram::AccountStatus::Active, ..e },
        id,
    );
}

/// The account with a token is one that has it, and there is none exactly where no account does.
pub proof fn telegram_accounts_are_found_by_their_token(
    accounts: Seq<(Seq<char>, telegram::EntryV)>,
    tokens: Seq<(Seq<char>, Seq<char>)>,
    token: Seq<char>,
)
    ensures
        telegram::holder(accounts, tokens, token) matches Some(id) ==> token_of(tokens, id) == token
            && exists|i: int| 0 <= i < accounts.len() && (#[trigger] accounts[i]).0 == id,
        telegram::holder(accounts, tokens, token) is None ==> forall|i: int|
            0 <= i < accounts.len() ==> token_of(tokens, (#[trigger] accounts[i]).0) != token,
    decreases accounts.len(),
{
    if accounts.len() > 0 {
        let rest = accounts.drop_first();
        telegram_accounts_are_found_by_their_token(rest, tokens, token);
        if token_of(tokens, accounts[0].0) == token {
            assert(accounts[0].0 == telegram::holder(accounts, tokens, token)->0);
        } else {
            match telegram::holder(rest, tokens, token) {
                Some(id) => {
                    let k = choose|k: int| 0 <= k < rest.len() && (#[trigger] rest[k]).0 == id;
                    assert(accounts[k + 1] == rest[k]);
                },
                None => {
                    assert forall|i: int| 0 <= i < accounts.len() implies token_of(
                        tokens,
                        (#[trigger] accounts[i]).0,
                    ) != token by {
                        if i > 0 {
                            assert(rest[i - 1] == accounts[i]);
                        }
                    }
                },
            }
        }
    }
}

/// Disabling an account changes its state, and nothing else of it or of another.
pub proof fn telegram_states_are_changed_alone(
    accounts: Seq<(Seq<char>, telegram::EntryV)>,
    id: Seq<char>,
    other: Seq<char>,
    e: telegram::EntryV,
    status: telegram::AccountStatus,
)
    requires
        lookup(accounts, id) == Some(e),
        other != id,
    ensures
        lookup(telegram::with_status(accounts, id, status), id) == Some(
            telegram::EntryV { status: status, ..e },
        ),
        lookup(telegram::with_status(accounts, id, status), other) == lookup(accounts, other),
{
    with_entry_lookup(accounts, id, telegram::EntryV { status: status, ..e }, id);
    with_entry_lookup(accounts, id, telegram::EntryV { status: status, ..e }, other);
}

/// An account that is found to run a bot is known by it and by its name; where another account runs
/// the bot already, that one gets its token and it is disabled.
pub proof fn telegram_bots_are_run_once(
    v: telegram::RegistryV,
    id: Seq<char>,
    bot: Seq<char>,
    name: Seq<char>,
    existing: Seq<char>,
    token: Seq<char>,
    e: telegram::EntryV,
)
    requires
        bot.len() > 0,
        name.len() > 0,
        lookup(v.accounts, id) == Some(e),
        existing != id,
        is_tight(token),
    ensures
        telegram::twin(v.accounts, id, bot) is None ==> telegram::identified(v, id, bot, name).1 is None
            && lookup(telegram::identified(v, id, bot, name).0.accounts, id) == Some(
            telegram::EntryV { bot_user_id: Some(bot), username: Some(name), ..e },
        ) && telegram::identified(v, id, bot, name).0.tokens == v.tokens,
        telegram::twin(v.accounts, id, bot) == Some(existing) && token_of(v.tokens, id) == token ==> ({
            let (w, m) = telegram::identified(v, id, bot, name);
            &&& m == Some(existing)
            &&& token_of(w.tokens, existing) == token
            &&& lookup(w.accounts, id) == Some(
                telegram::EntryV { status: telegram::AccountStatus::Disabled, ..e },
            )
            &&& lookup(w.accounts, existing) == lookup(v.accounts, existing)
        }),
        telegram::identified(v, id, Seq::empty(), name) == (v, None::<Seq<char>>),
        e.status == telegram::AccountStatus::Active && e.bot_user_id
            == Some(bot) ==> telegram::twin(seq![(existing, e)], id, bot) == Some(existing),
        telegram::twin(seq![(id, e)], id, bot) is None,
{
    tight_stays(token);
    let d = telegram::EntryV { status: telegram::AccountStatus::Disabled, ..e };
    let n = telegram::EntryV { bot_user_id: Some(bot), username: Some(name), ..e };
    with_entry_lookup(v.accounts, id, n, id);
    with_entry_lookup(v.accounts, id, d, id);
    with_entry_lookup(v.accounts, id, d, existing);
    with_entry_lookup(v.tokens, existing, token, existing);
    reveal_with_fuel(telegram::twin, 2);
    assert(seq![(id, e)].drop_first() =~= Seq::<(Seq<char>, telegram::EntryV)>::empty());
}

} // verus!
