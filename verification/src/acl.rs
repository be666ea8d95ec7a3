//! Who may talk to the agent.

use vstd::prelude::*;

use crate::strs::{
    begins, concat2, first_at_from_is_first, occurs_at, split_at_first, split_once, starts_with,
};
use crate::table::{lookup, Table};

verus! {

/// The lists of one channel: each sender with a note.
pub struct ChannelAcl {
    pub whitelist: Table<String>,
    pub blacklist: Table<String>,
}

/// Who may talk to the agent, channel by channel.
pub struct AccessControl {
    pub channels: Table<ChannelAcl>,
}

impl View for AccessControl {
    type V = Seq<(Seq<char>, ChannelAcl)>;

    open spec fn view(&self) -> Seq<(Seq<char>, ChannelAcl)> {
        self.channels@
    }
}

/// The lists that count for a channel: its own, or those of the channel named before the first
/// colon.
pub open spec fn lists_for(
    m: Seq<(Seq<char>, ChannelAcl)>,
    channel: Seq<char>,
) -> Option<ChannelAcl> {
    match lookup(m, channel) {
        Some(c) => Some(c),
        None => match split_at_first(channel, ":"@) {
            Some((base, _)) => lookup(m, base),
            None => None,
        },
    }
}

/// Whether a sender is turned away: access control is on for this kind of chat, lists count for the
/// channel, and the sender is on the blacklist or not on the whitelist.
pub open spec fn blocked(
    m: Seq<(Seq<char>, ChannelAcl)>,
    channel: Seq<char>,
    sender_id: Seq<char>,
    dm_acl: bool,
    group_acl: bool,
    is_group: bool,
) -> bool {
    &&& if is_group {
        group_acl
    } else {
        dm_acl
    }
    &&& match lists_for(m, channel) {
        Some(c) => lookup(c.blacklist@, sender_id) is Some || lookup(c.whitelist@, sender_id) is None,
        None => false,
    }
}

/// What a sender who is turned away is told.
pub open spec fn deny_text(language: Seq<char>, sender_id: Seq<char>) -> Seq<char> {
    if begins(language, "zh"@) {
        "您目前没有访问此智能体的权限，需要审批。\nID: "@ + sender_id
    } else {
        "You do not have access to this agent. Approval required.\nID: "@ + sender_id
    }
}

impl AccessControl {
    /// Access control without lists.
    pub fn new() -> (r: AccessControl)
        ensures
            r@ == Seq::<(Seq<char>, ChannelAcl)>::empty(),
    {
        AccessControl { channels: Table::new() }
    }

    /// Whether a sender is turned away.
    pub fn check_blocked_with_flags(
        &self,
        channel: &str,
        sender_id: &str,
        dm_acl: bool,
        group_acl: bool,
        is_group: bool,
    ) -> (r: bool)
        ensures
            r == blocked(self@, channel@, sender_id@, dm_acl, group_acl, is_group),
    {
        if is_group && !group_acl {
            return false;
        }
        if !is_group && !dm_acl {
            return false;
        }
        let lists: Option<&ChannelAcl> = match self.channels.get(channel) {
            Some(c) => Some(c),
            None => match split_once(channel, ":") {
                Some((base, _)) => self.channels.get(base),
                None => None,
            },
        };
        match lists {
            Some(c) => {
                if c.blacklist.contains_key(sender_id) {
                    true
                } else {
                    !c.whitelist.contains_key(sender_id)
                }
            },
            None => false,
        }
    }

    /// What a sender who is turned away is told.
    pub fn deny_message(&self, language: &str, sender_id: &str) -> (r: String)
        ensures
            r@ == deny_text(language@, sender_id@),
    {
        if starts_with(language, "zh") {
            concat2("您目前没有访问此智能体的权限，需要审批。\nID: ", sender_id)
        } else {
            concat2(
                "You do not have access to this agent. Approval required.\nID: ",
                sender_id,
            )
        }
    }
}

/// Where access control is off, nobody is turned away.
pub proof fn open_when_disabled(
    m: Seq<(Seq<char>, ChannelAcl)>,
    channel: Seq<char>,
    sender_id: Seq<char>,
    is_group: bool,
)
    ensures
        !blocked(m, channel, sender_id, false, false, is_group),
{
}

/// Where access control is on, the blacklist wins over the whitelist.
pub proof fn blacklist_wins(
    m: Seq<(Seq<char>, ChannelAcl)>,
    channel: Seq<char>,
    sender_id: Seq<char>,
    is_group: bool,
)
    requires
        lists_for(m, channel) matches Some(c) && lookup(c.blacklist@, sender_id) is Some,
    ensures
        blocked(m, channel, sender_id, true, true, is_group),
{
}

/// An account channel without lists of its own is treated as the channel it belongs to.
pub proof fn account_channel_falls_back(
    m: Seq<(Seq<char>, ChannelAcl)>,
    base: Seq<char>,
    account: Seq<char>,
    sender_id: Seq<char>,
    dm_acl: bool,
    group_acl: bool,
    is_group: bool,
)
    requires
        !base.contains(':'),
        lookup(m, base + ":"@ + account) is None,
    ensures
        blocked(m, base + ":"@ + account, sender_id, dm_acl, group_acl, is_group) == blocked(
            m,
            base,
            sender_id,
            dm_acl,
            group_acl,
            is_group,
        ),
{
    reveal_strlit(":");
    let colon = ":"@;
    let s = base + colon + account;
    first_at_from_is_first(s, colon, 0);
    first_at_from_is_first(base, colon, 0);
    assert(s.subrange(base.len() as int, base.len() as int + 1) == colon);
    assert(occurs_at(s, colon, base.len() as int));
    assert forall|k: int| 0 <= k < base.len() implies !occurs_at(s, colon, k) by {
        if occurs_at(s, colon, k) {
            assert(s.subrange(k, k + 1)[0] == colon[0]);
            assert(base[k] == ':');
        }
    }
    assert forall|k: int| 0 <= k implies !occurs_at(base, colon, k) by {
        if occurs_at(base, colon, k) {
            assert(base.subrange(k, k + 1)[0] == colon[0]);
            assert(base[k] == ':');
        }
    }
    assert(s.take(base.len() as int) == base);
}

/// Who is served where lists count for the channel: exactly those on the whitelist that are not on
/// the blacklist. Only the flag of the kind of chat decides whether the lists are asked; the flag of
/// the other kind does not matter.
pub proof fn served_senders_are_whitelisted(
    m: Seq<(Seq<char>, ChannelAcl)>,
    channel: Seq<char>,
    sender_id: Seq<char>,
    on: bool,
    other: bool,
    is_group: bool,
    lists: ChannelAcl,
)
    requires
        lookup(m, channel) == Some(lists),
    ensures
        ({
            let served = if is_group {
                !blocked(m, channel, sender_id, other, on, true)
            } else {
                !blocked(m, channel, sender_id, on, other, false)
            };
            served <==> (!on || lookup(lists.whitelist@, sender_id) is Some && lookup(
                lists.blacklist@,
                sender_id,
            ) is None)
        }),
{
}

/// On the channel of an account that has no lists of its own, exactly those are served that the lists
/// of the channel before the colon let in, in groups as in direct chats.
pub proof fn account_channels_serve_the_whitelisted(
    m: Seq<(Seq<char>, ChannelAcl)>,
    base: Seq<char>,
    account: Seq<char>,
    sender_id: Seq<char>,
    on: bool,
    other: bool,
    is_group: bool,
    lists: ChannelAcl,
)
    requires
        !base.contains(':'),
        lookup(m, base + ":"@ + account) is None,
        lookup(m, base) == Some(lists),
    ensures
        ({
            let served = if is_group {
                !blocked(m, base + ":"@ + account, sender_id, other, on, true)
            } else {
                !blocked(m, base + ":"@ + account, sender_id, on, other, false)
            };
            served <==> (!on || lookup(lists.whitelist@, sender_id) is Some && lookup(
                lists.blacklist@,
                sender_id,
            ) is None)
        }),
{
    if is_group {
        account_channel_falls_back(m, base, account, sender_id, other, on, true);
    } else {
        account_channel_falls_back(m, base, account, sender_id, on, other, false);
    }
    served_senders_are_whitelisted(m, base, sender_id, on, other, is_group, lists);
}

/// Where no lists are kept for any channel that counts, nobody is turned away, whatever is switched
/// on.
pub proof fn channels_without_lists_are_open(
    m: Seq<(Seq<char>, ChannelAcl)>,
    base: Seq<char>,
    account: Seq<char>,
    sender_id: Seq<char>,
    dm_acl: bool,
    group_acl: bool,
    is_group: bool,
)
    requires
        !base.contains(':'),
        lookup(m, base) is None,
        lookup(m, base + ":"@ + account) is None,
    ensures
        !blocked(m, base, sender_id, dm_acl, group_acl, is_group),
        !blocked(m, base + ":"@ + account, sender_id, dm_acl, group_acl, is_group),
{
    account_channel_falls_back(m, base, account, sender_id, dm_acl, group_acl, is_group);
    reveal_strlit(":");
    first_at_from_is_first(base, ":"@, 0);
    assert forall|k: int| 0 <= k implies !occurs_at(base, ":"@, k) by {
        if occurs_at(base, ":"@, k) {
            assert(base.subrange(k, k + 1)[0] == ":"@[0]);
            assert(base[k] == ':');
        }
    }
}

/// Who is turned away is told so, in Chinese where the language is a form of it, and is told the own
/// id, on a line of its own.
pub proof fn turned_away_senders_are_told_their_id(language: Seq<char>, sender_id: Seq<char>)
    ensures
        ({
            let told = deny_text(language, sender_id);
            let n = told.len() - sender_id.len();
            &&& n > 5
            &&& told.skip(n) == sender_id
            &&& told.subrange(n - 5, n) == "\nID: "@
            &&& begins(language, "zh"@) ==> told.take(5) == "您目前没有"@
            &&& !begins(language, "zh"@) ==> told.take(27) == "You do not have access to t"@
                && told.subrange(37, 56) == " Approval required."@
        }),
{
    reveal_strlit("您目前没有访问此智能体的权限，需要审批。\nID: ");
    reveal_strlit("You do not have access to this agent. Approval required.\nID: ");
    reveal_strlit("\nID: ");
    reveal_strlit("您目前没有");
    reveal_strlit("You do not have access to t");
    reveal_strlit(" Approval required.");
    let told = deny_text(language, sender_id);
    let n = told.len() - sender_id.len();
    assert(told.skip(n) =~= sender_id);
    assert(told.subrange(n - 5, n) =~= "\nID: "@);
}

} // verus!
