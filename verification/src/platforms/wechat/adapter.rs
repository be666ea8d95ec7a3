//! The runner of one WeChat account: what it makes of the messages that come in, and what it keeps
//! in mind for the replies.

use vstd::prelude::*;

use crate::codec::{hex_encode, hex_text, md5_digest, md5_of, sha256_digest, sha256_of};
use crate::error::{ErrorV, GatewayError};
use crate::json::{
    elements_field, field, field2, get_entry, get_entry_str, one_value, push_field, scalar,
    scalar_text, text, text_field, text_field_or, text_of, Json, JsonV, Members, Number, NumberV,
};
use crate::pipeline::{NativeMessage, NativeV, ProcessedReply};
use crate::platforms::tokens::token_of;
use crate::platforms::wechat::client::{signed_field, DEFAULT_BASE_URL, WECHAT_TEXT_CHUNK_CHARS};
use crate::platforms::wechat::login::{as_text, text_in, trim_unless_blank, unless_blank};
use crate::platforms::wechat::registry::WeChatAccountRegistry;
use crate::strs::{
    concat2, concat3, decimal, decimal_reads_back, digits_value, same, texts, texts_push, trim,
    trimmed,
};
use crate::table::{held, held_lookup, held_with, kept, lookup, pairs, with_entry, Table};
use crate::text::{char_chunks, split_text_chars};
use crate::types::{text_part_view, ChannelPart, PartKind, PartV};

verus! {

/// How many message ids are kept in mind.
pub const DEDUP_MAX: usize = 2000;

/// Milliseconds for which a text that was sent is kept in mind.
pub const SENT_ECHO_TTL_MS: u64 = 120_000;

/// Milliseconds to wait after a poll that brought nothing.
pub const EMPTY_POLL_SLEEP_MS: u64 = 250;

/// Milliseconds for which a typing ticket is good.
pub const TYPING_TICKET_TTL_MS: u64 = 86_400_000;

/// Milliseconds to wait before a typing ticket is asked for again.
pub const TYPING_TICKET_REFRESH_BACKOFF_MS: u64 = 60_000;

/// Milliseconds between two signs that something is being written.
pub const TYPING_KEEPALIVE_INTERVAL_MS: u64 = 5_000;

// ---------------------------------------------------------------------------------------------
// Context tokens
// ---------------------------------------------------------------------------------------------

/// The tokens of conversations after one came in.
pub open spec fn with_context_token(
    m: Seq<(Seq<char>, Seq<char>)>,
    user: Seq<char>,
    token: Seq<char>,
) -> Seq<(Seq<char>, Seq<char>)> {
    if user.len() == 0 || trimmed(token).len() == 0 {
        m
    } else {
        with_entry(m, user, trimmed(token))
    }
}

/// Keeps the token of a conversation in mind.
pub fn remember_context_token(store: &mut Table<String>, user_id: &str, token: &str)
    ensures
        final(store).texts() == with_context_token(old(store).texts(), user_id@, token@),
{
    let t: &str = trim(token);
    if user_id.is_empty() || t.is_empty() {
        return ;
    }
    store.put_text(user_id, t);
}

/// The token to reply with: the latest of the conversation, or `fallback`.
pub open spec fn context_token(
    m: Seq<(Seq<char>, Seq<char>)>,
    user: Seq<char>,
    fallback: Seq<char>,
) -> Seq<char> {
    match lookup(m, user) {
        Some(t) => t,
        None => fallback,
    }
}

/// The token to reply with.
pub fn resolve_context_token(store: &Table<String>, to_user: &str, fallback: &str) -> (r: String)
    ensures
        r@ == context_token(store.texts(), to_user@, fallback@),
{
    match store.get_text(to_user) {
        Some(t) => t.to_owned(),
        None => fallback.to_owned(),
    }
}

/// The token that came last is the one to reply with.
pub proof fn latest_token_is_used(
    m: Seq<(Seq<char>, Seq<char>)>,
    user: Seq<char>,
    token: Seq<char>,
    fallback: Seq<char>,
)
    requires
        user.len() > 0,
        trimmed(token).len() > 0,
    ensures
        context_token(with_context_token(m, user, token), user, fallback) == trimmed(token),
{
    crate::table::with_entry_lookup(m, user, trimmed(token), user);
}

// ---------------------------------------------------------------------------------------------
// What a poll brings
// ---------------------------------------------------------------------------------------------

/// The text of the first of the members with these names that is one.
pub open spec fn first_text(v: JsonV, keys: Seq<Seq<char>>) -> Option<Seq<char>>
    decreases keys.len(),
{
    if keys.len() == 0 {
        None
    } else {
        match text_field(v, keys[0]) {
            Some(t) => Some(t),
            None => first_text(v, keys.drop_first()),
        }
    }
}

/// The text of the first of the members with these names that is one.
pub fn find_text(v: &Json, keys: &Vec<String>) -> (r: Option<String>)
    ensures
        r.deep_view() == first_text(v@, texts(keys@)),
{
    let ghost all = texts(keys@);
    let mut i: usize = 0;
    assert(all.skip(0) == all);
    while i < keys.len()
        invariant
            i <= keys@.len(),
            all == texts(keys@),
            first_text(v@, all) == first_text(v@, all.skip(i as int)),
        decreases keys@.len() - i,
    {
        assert(all.skip(i as int)[0] == keys@[i as int]@);
        if let Some(t) = v.get_str(keys[i].as_str()) {
            return Some(t.to_owned());
        }
        assert(all.skip(i as int).drop_first() == all.skip(i + 1));
        i = i + 1;
    }
    None
}

/// The names of the cursor.
pub open spec fn cursor_names() -> Seq<Seq<char>> {
    seq![
        "get_updates_buf"@,
        "getUpdatesBuf"@,
        "next_get_updates_buf"@,
        "nextGetUpdatesBuf"@,
    ]
}

/// The cursor that a response brings, itself or in its data.
pub open spec fn cursor_in(v: JsonV) -> Option<Seq<char>> {
    match unless_blank(first_text(v, cursor_names())) {
        Some(c) => Some(c),
        None => match field(v, "data"@) {
            Some(d) => unless_blank(first_text(d, cursor_names())),
            None => None,
        },
    }
}

fn blank_to_none(t: Option<String>) -> (r: Option<String>)
    ensures
        r.deep_view() == unless_blank(t.deep_view()),
{
    match &t {
        Some(s) => trim_unless_blank(Some(s.as_str())),
        None => None,
    }
}

/// The cursor that a response brings.
pub fn getupdates_cursor(data: &Json) -> (r: Option<String>)
    ensures
        r.deep_view() == cursor_in(data@),
{
    let mut names: Vec<String> = Vec::new();
    names.push("get_updates_buf".to_owned());
    names.push("getUpdatesBuf".to_owned());
    names.push("next_get_updates_buf".to_owned());
    names.push("nextGetUpdatesBuf".to_owned());
    assert(texts(names@) =~= cursor_names());
    match blank_to_none(find_text(data, &names)) {
        Some(c) => Some(c),
        None => match data.get("data") {
            Some(d) => blank_to_none(find_text(d, &names)),
            None => None,
        },
    }
}

/// The messages that a value holds; `None` where it says nothing of messages.
pub open spec fn messages_in(v: JsonV) -> Option<Seq<JsonV>> {
    match elements_field(v, "msgs"@) {
        Some(s) => Some(s),
        None => match elements_field(v, "msg_list"@) {
            Some(s) => Some(s),
            None => match elements_field(v, "message_list"@) {
                Some(s) => Some(s),
                None => match elements_field(v, "messages"@) {
                    Some(s) => Some(s),
                    None => match elements_field(v, "updates"@) {
                        Some(s) => Some(s),
                        None => match field(v, "msg"@) {
                            Some(JsonV::Object(m)) => Some(seq![JsonV::Object(m)]),
                            _ => None,
                        },
                    },
                },
            },
        },
    }
}

/// The messages that a response brings, itself or in its data.
pub open spec fn messages_of(v: JsonV) -> Seq<JsonV> {
    match messages_in(v) {
        Some(s) => s,
        None => match field(v, "data"@) {
            Some(d) => match messages_in(d) {
                Some(s) => s,
                None => Seq::empty(),
            },
            None => Seq::empty(),
        },
    }
}

fn dup_values(v: &Vec<Json>) -> (r: Vec<Json>)
    ensures
        r.deep_view() == v.deep_view(),
{
    let mut out: Vec<Json> = Vec::new();
    let mut i: usize = 0;
    while i < v.len()
        invariant
            i <= v@.len(),
            out@.len() == i,
            forall|k: int| 0 <= k < i ==> (#[trigger] out@[k])@ == v@[k]@,
        decreases v@.len() - i,
    {
        out.push(v[i].dup());
        i = i + 1;
    }
    assert(out.deep_view() =~= v.deep_view());
    out
}

fn find_messages(v: &Json) -> (r: Option<Vec<Json>>)
    ensures
        r.deep_view() == messages_in(v@),
{
    if let Some(s) = v.get_array("msgs") {
        return Some(dup_values(s));
    }
    if let Some(s) = v.get_array("msg_list") {
        return Some(dup_values(s));
    }
    if let Some(s) = v.get_array("message_list") {
        return Some(dup_values(s));
    }
    if let Some(s) = v.get_array("messages") {
        return Some(dup_values(s));
    }
    if let Some(s) = v.get_array("updates") {
        return Some(dup_values(s));
    }
    match v.get("msg") {
        Some(x) => {
            if x.as_object().is_some() {
                Some(one_value(x.dup()))
            } else {
                None
            }
        },
        None => None,
    }
}

/// The messages that a response brings.
pub fn getupdates_messages(data: &Json) -> (r: Vec<Json>)
    ensures
        r.deep_view() == messages_of(data@),
{
    if let Some(s) = find_messages(data) {
        return s;
    }
    if let Some(d) = data.get("data") {
        if let Some(s) = find_messages(d) {
            return s;
        }
    }
    let none: Vec<Json> = Vec::new();
    assert(none.deep_view() =~= Seq::<JsonV>::empty());
    none
}

// ---------------------------------------------------------------------------------------------
// Typing
// ---------------------------------------------------------------------------------------------

/// A ticket to show that something is being written; empty where none could be had.
#[derive(Debug)]
pub struct TypingTicketEntry {
    pub ticket: String,
    /// Until when the ticket is good, in milliseconds.
    pub expires_at: u64,
    /// From when on a ticket is asked for again, in milliseconds.
    pub refresh_after: u64,
}

/// What a ticket holds.
#[verifier::ext_equal]
pub struct TicketV {
    pub ticket: Seq<char>,
    pub expires_at: u64,
    pub refresh_after: u64,
}

impl View for TypingTicketEntry {
    type V = TicketV;

    open spec fn view(&self) -> TicketV {
        TicketV {
            ticket: self.ticket@,
            expires_at: self.expires_at,
            refresh_after: self.refresh_after,
        }
    }
}

impl DeepView for TypingTicketEntry {
    type V = TicketV;

    open spec fn deep_view(&self) -> TicketV {
        self@
    }
}

/// The ticket that the settings of a conversation hold.
pub open spec fn ticket_in(v: JsonV) -> Option<Seq<char>> {
    unless_blank(
        text_in(
            match field(v, "typing_ticket"@) {
                Some(x) => Some(x),
                None => field2(v, "data"@, "typing_ticket"@),
            },
        ),
    )
}

/// The ticket that the settings of a conversation hold.
pub fn typing_ticket_from_config(data: &Json) -> (r: Option<String>)
    ensures
        r.deep_view() == ticket_in(data@),
{
    let x: Option<&Json> = match data.get("typing_ticket") {
        Some(x) => Some(x),
        None => data.get2("data", "typing_ticket"),
    };
    trim_unless_blank(as_text(x))
}

/// The tickets, by user.
pub struct TypingTickets {
    pub tickets: Table<TypingTicketEntry>,
}

impl View for TypingTickets {
    type V = Seq<(Seq<char>, TicketV)>;

    open spec fn view(&self) -> Seq<(Seq<char>, TicketV)> {
        held(self.tickets@)
    }
}

/// What to do for a ticket.
#[derive(Debug)]
pub enum TicketStep {
    /// This one is good.
    Have(String),
    /// None could be had a moment ago.
    Skip,
    /// Ask for one.
    Ask,
}

/// What to do for a ticket, with the ticket as a text.
#[verifier::ext_equal]
pub enum TicketStepV {
    Have(Seq<char>),
    Skip,
    Ask,
}

impl View for TicketStep {
    type V = TicketStepV;

    open spec fn view(&self) -> TicketStepV {
        match self {
            TicketStep::Have(t) => TicketStepV::Have(t@),
            TicketStep::Skip => TicketStepV::Skip,
            TicketStep::Ask => TicketStepV::Ask,
        }
    }
}

/// What to do for a ticket of a user.
pub open spec fn ticket_step(m: Seq<(Seq<char>, TicketV)>, user: Seq<char>, now: u64) -> TicketStepV {
    match lookup(m, user) {
        Some(e) => if e.ticket.len() > 0 && e.expires_at > now {
            TicketStepV::Have(e.ticket)
        } else if e.refresh_after > now {
            TicketStepV::Skip
        } else {
            TicketStepV::Ask
        },
        None => TicketStepV::Ask,
    }
}

/// The tickets after one came in.
pub open spec fn with_ticket(
    m: Seq<(Seq<char>, TicketV)>,
    user: Seq<char>,
    ticket: Seq<char>,
    now: u64,
) -> Seq<(Seq<char>, TicketV)> {
    if user.len() == 0 || trimmed(ticket).len() == 0 {
        m
    } else {
        with_entry(
            m,
            user,
            TicketV {
                ticket: trimmed(ticket),
                expires_at: (now + TYPING_TICKET_TTL_MS) as u64,
                refresh_after: now,
            },
        )
    }
}

/// The tickets after one could not be had, or was refused.
pub open spec fn with_ticket_failure(m: Seq<(Seq<char>, TicketV)>, user: Seq<char>, now: u64) -> Seq<
    (Seq<char>, TicketV),
> {
    if user.len() == 0 {
        m
    } else {
        with_entry(
            m,
            user,
            TicketV {
                ticket: Seq::empty(),
                expires_at: now,
                refresh_after: (now + TYPING_TICKET_REFRESH_BACKOFF_MS) as u64,
            },
        )
    }
}

impl TypingTickets {
    /// No ticket is known.
    pub fn new() -> (r: TypingTickets)
        ensures
            r@ == Seq::<(Seq<char>, TicketV)>::empty(),
    {
        let r: TypingTickets = TypingTickets { tickets: Table::new() };
        assert(r@ =~= Seq::<(Seq<char>, TicketV)>::empty());
        r
    }

    /// What to do for a ticket of a user.
    pub fn resolve(&self, user_id: &str, now: u64) -> (r: TicketStep)
        ensures
            r@ == ticket_step(self@, user_id@, now),
    {
        proof {
            held_lookup(self.tickets@, user_id@);
        }
        match self.tickets.get(user_id) {
            Some(e) => {
                if !e.ticket.as_str().is_empty() && e.expires_at > now {
                    TicketStep::Have(e.ticket.clone())
                } else if e.refresh_after > now {
                    TicketStep::Skip
                } else {
                    TicketStep::Ask
                }
            },
            None => TicketStep::Ask,
        }
    }

    /// Keeps a ticket in mind.
    pub fn remember(&mut self, user_id: &str, ticket: &str, now: u64)
        requires
            now + TYPING_TICKET_TTL_MS <= u64::MAX,
        ensures
            final(self)@ == with_ticket(old(self)@, user_id@, ticket@, now),
    {
        let t: &str = trim(ticket);
        if user_id.is_empty() || t.is_empty() {
            return ;
        }
        let e: TypingTicketEntry = TypingTicketEntry {
            ticket: t.to_owned(),
            expires_at: now + TYPING_TICKET_TTL_MS,
            refresh_after: now,
        };
        proof {
            held_with(self.tickets@, user_id@, e);
        }
        self.tickets.insert(user_id.to_owned(), e);
    }

    /// Keeps in mind that no ticket could be had, or that one was refused.
    pub fn remember_failure(&mut self, user_id: &str, now: u64)
        requires
            now + TYPING_TICKET_REFRESH_BACKOFF_MS <= u64::MAX,
        ensures
            final(self)@ == with_ticket_failure(old(self)@, user_id@, now),
    {
        if user_id.is_empty() {
            return ;
        }
        let e: TypingTicketEntry = TypingTicketEntry {
            ticket: String::new(),
            expires_at: now,
            refresh_after: now + TYPING_TICKET_REFRESH_BACKOFF_MS,
        };
        assert(e.ticket@ =~= Seq::<char>::empty());
        proof {
            held_with(self.tickets@, user_id@, e);
        }
        self.tickets.insert(user_id.to_owned(), e);
    }

    /// Takes in the settings of a conversation, where they could be had: the ticket that they hold.
    pub fn answered(&mut self, user_id: &str, config: Option<&Json>, now: u64) -> (r: Option<String>)
        requires
            now + TYPING_TICKET_TTL_MS <= u64::MAX,
        ensures
            ({
                let ticket = match config {
                    Some(v) => ticket_in(v@),
                    None => None,
                };
                &&& r.deep_view() == ticket
                &&& final(self)@ == match ticket {
                    Some(t) => with_ticket(old(self)@, user_id@, t, now),
                    None => with_ticket_failure(old(self)@, user_id@, now),
                }
            }),
    {
        let ticket: Option<String> = match config {
            Some(v) => typing_ticket_from_config(v),
            None => None,
        };
        match ticket {
            Some(t) => {
                self.remember(user_id, t.as_str(), now);
                Some(t)
            },
            None => {
                self.remember_failure(user_id, now);
                None
            },
        }
    }
}

/// A ticket that was refused is not used again, and for a while none is asked for.
pub proof fn refused_ticket_is_dropped(
    m: Seq<(Seq<char>, TicketV)>,
    user: Seq<char>,
    now: u64,
    later: u64,
)
    requires
        user.len() > 0,
        now <= later < now + TYPING_TICKET_REFRESH_BACKOFF_MS <= u64::MAX,
    ensures
        ticket_step(with_ticket_failure(m, user, now), user, later) == TicketStepV::Skip,
{
    let e = TicketV {
        ticket: Seq::empty(),
        expires_at: now,
        refresh_after: (now + TYPING_TICKET_REFRESH_BACKOFF_MS) as u64,
    };
    crate::table::with_entry_lookup(m, user, e, user);
}

/// A ticket is used again as long as it is good.
pub proof fn good_ticket_is_used_again(
    m: Seq<(Seq<char>, TicketV)>,
    user: Seq<char>,
    ticket: Seq<char>,
    now: u64,
    later: u64,
)
    requires
        user.len() > 0,
        trimmed(ticket).len() > 0,
        now <= later < now + TYPING_TICKET_TTL_MS <= u64::MAX,
    ensures
        ticket_step(with_ticket(m, user, ticket, now), user, later) == TicketStepV::Have(
            trimmed(ticket),
        ),
{
    let e = TicketV {
        ticket: trimmed(ticket),
        expires_at: (now + TYPING_TICKET_TTL_MS) as u64,
        refresh_after: now,
    };
    crate::table::with_entry_lookup(m, user, e, user);
}

/// Whether it can be shown to a user that something is being written.
pub fn can_show_typing(user_id: &str, context_token: &str) -> (r: bool)
    ensures
        r == (user_id@.len() > 0 && context_token@.len() > 0),
{
    !user_id.is_empty() && !context_token.is_empty()
}

/// The ticket to stop showing a user that something is being written; `None` where there is none, or
/// no user.
pub fn cleanup_ticket(user_id: &str, typing_ticket: Option<&str>) -> (r: Option<String>)
    ensures
        r.deep_view() == if user_id@.len() == 0 {
            None
        } else {
            unless_blank(typing_ticket.deep_view())
        },
{
    if user_id.is_empty() {
        return None;
    }
    trim_unless_blank(typing_ticket)
}

/// A user and the digest of a text.
pub open spec fn digest_key(user: Seq<char>, digest: Seq<u8>) -> Seq<char> {
    user + ":"@ + hex_text(digest)
}

fn keyed(user_id: &str, text: &str) -> (r: String)
    ensures
        r@ == digest_key(user_id@, md5_of(text@)),
{
    let d: Vec<u8> = md5_digest(text);
    let h: String = hex_encode(d.as_slice());
    concat3(user_id, ":", h.as_str())
}

/// Under what it is kept in mind that something is being written.
pub fn typing_session_key(user_id: &str, context_token: &str) -> (r: String)
    ensures
        r@ == digest_key(user_id@, md5_of(context_token@)),
{
    keyed(user_id, context_token)
}

// ---------------------------------------------------------------------------------------------
// Where a reply goes
// ---------------------------------------------------------------------------------------------

/// Where a reply goes: to whom the message says, else to whom it came from, else to `fallback`.
pub open spec fn target_of(meta: Members, fallback: Seq<char>) -> Seq<char> {
    match unless_blank(text_of(meta, "reply_to_user_id"@)) {
        Some(t) => t,
        None => match unless_blank(text_of(meta, "from_user_id"@)) {
            Some(t) => t,
            None => fallback,
        },
    }
}

/// Where a reply goes.
pub fn reply_target_from_meta(meta: &Vec<(String, Json)>, fallback_user_id: &str) -> (r: String)
    ensures
        r@ == target_of(meta.deep_view(), fallback_user_id@),
{
    match trim_unless_blank(get_entry_str(meta, "reply_to_user_id")) {
        Some(t) => t,
        None => match trim_unless_blank(get_entry_str(meta, "from_user_id")) {
            Some(t) => t,
            None => fallback_user_id.to_owned(),
        },
    }
}

/// Where the reply to a message goes.
pub fn native_reply_target(native: &NativeMessage) -> (r: String)
    ensures
        r@ == target_of(native@.meta, native@.sender_id),
{
    reply_target_from_meta(&native.meta, native.sender_id.as_str())
}

/// Whom it is shown to that something is being written, while a message is worked on.
pub fn typing_user(native: &NativeMessage) -> (r: String)
    ensures
        r@ == match text_of(native@.meta, "reply_to_user_id"@) {
            Some(t) => t,
            None => match text_of(native@.meta, "from_user_id"@) {
                Some(t) => t,
                None => native@.sender_id,
            },
        },
{
    match get_entry_str(&native.meta, "reply_to_user_id") {
        Some(t) => t.to_owned(),
        None => match get_entry_str(&native.meta, "from_user_id") {
            Some(t) => t.to_owned(),
            None => native.sender_id.clone(),
        },
    }
}

/// The URL that an account polls: its own, else the configured one, else the usual one.
pub fn account_base_url(entry_url: &str, configured: &str) -> (r: String)
    ensures
        r@ == if entry_url@.len() > 0 {
            entry_url@
        } else if configured@.len() == 0 {
            DEFAULT_BASE_URL@
        } else {
            configured@
        },
{
    if !entry_url.is_empty() {
        entry_url.to_owned()
    } else if configured.is_empty() {
        DEFAULT_BASE_URL.to_owned()
    } else {
        configured.to_owned()
    }
}

/// The token of an account; without one it cannot run.
pub fn resolve_token(registry: &WeChatAccountRegistry, account_id: &str) -> (r: Result<
    String,
    GatewayError,
>)
    ensures
        ({
            let token = token_of(registry@.tokens, account_id@);
            if token.len() > 0 {
                r matches Ok(t) && t@ == token
            } else {
                r matches Err(e) && e@ == ErrorV::Config(
                    "wechat account "@ + account_id@
                        + " missing bot_token; run `im-channel-gateway login wechat`"@,
                )
            }
        }),
{
    if let Ok(t) = registry.load_token(account_id) {
        if !t.as_str().is_empty() {
            return Ok(t);
        }
    }
    Err(
        GatewayError::Config(
            concat3(
                "wechat account ",
                account_id,
                " missing bot_token; run `im-channel-gateway login wechat`",
            ),
        ),
    )
}

/// What is sent for a reply.
#[derive(Debug)]
pub struct ReplyPlan {
    pub to_user: String,
    pub context_token: String,
    pub chunks: Vec<String>,
}

/// To whom a reply is sent.
pub open spec fn recipient(meta: Members) -> Option<Seq<char>> {
    text_in(
        match lookup(meta, "reply_to_user_id"@) {
            Some(v) => Some(v),
            None => lookup(meta, "from_user_id"@),
        },
    )
}

/// The text of a reply with the prefix before it.
pub open spec fn reply_body(prefix: Seq<char>, text: Seq<char>) -> Seq<char> {
    if prefix.len() > 0 {
        prefix + "  "@ + text
    } else {
        text
    }
}

/// The token that a reply is sent with.
pub open spec fn reply_token(tokens: Seq<(Seq<char>, Seq<char>)>, meta: Members, to: Seq<char>) -> Seq<
    char,
> {
    context_token(
        tokens,
        to,
        match text_of(meta, "context_token"@) {
            Some(t) => t,
            None => Seq::empty(),
        },
    )
}

/// What is sent for a reply. The token is the latest of the conversation.
pub fn send_reply(reply: &ProcessedReply, prefix: &str, context_tokens: &Table<String>) -> (r: Result<
    ReplyPlan,
    GatewayError,
>)
    ensures
        match recipient(reply@.meta) {
            None => r matches Err(e) && e@ == ErrorV::Other("wechat: missing from_user_id"@),
            Some(to) => {
                let token = reply_token(context_tokens.texts(), reply@.meta, to);
                if token.len() == 0 {
                    r matches Err(e) && e@ == (ErrorV::Channel {
                        channel: "wechat"@,
                        message: "missing context_token for outbound reply"@,
                    })
                } else {
                    r matches Ok(p) && p.to_user@ == to && p.context_token@ == token && texts(
                        p.chunks@,
                    ) == char_chunks(
                        reply_body(prefix@, reply@.text),
                        WECHAT_TEXT_CHUNK_CHARS as nat,
                    )
                }
            },
        },
{
    let to: &str = match as_text(
        match get_entry(&reply.meta, "reply_to_user_id") {
            Some(v) => Some(v),
            None => get_entry(&reply.meta, "from_user_id"),
        },
    ) {
        Some(t) => t,
        None => {
            return Err(GatewayError::other("wechat: missing from_user_id"));
        },
    };
    let fallback: &str = match get_entry_str(&reply.meta, "context_token") {
        Some(t) => t,
        None => {
            proof {
                reveal_strlit("");
                assert(""@ =~= Seq::<char>::empty());
            }
            ""
        },
    };
    let token: String = resolve_context_token(context_tokens, to, fallback);
    if token.as_str().is_empty() {
        return Err(
            GatewayError::Channel {
                channel: "wechat".to_owned(),
                message: "missing context_token for outbound reply".to_owned(),
            },
        );
    }
    let body: String = if prefix.is_empty() {
        reply.text.clone()
    } else {
        concat3(prefix, "  ", reply.text.as_str())
    };
    let chunks: Vec<String> = split_text_chars(body.as_str(), WECHAT_TEXT_CHUNK_CHARS);
    Ok(ReplyPlan { to_user: to.to_owned(), context_token: token, chunks: chunks })
}

// ---------------------------------------------------------------------------------------------
// Echoes
// ---------------------------------------------------------------------------------------------

/// Whether what was sent at `t` is still kept in mind.
pub open spec fn is_recent(t: u64, now: u64) -> bool {
    now - t < SENT_ECHO_TTL_MS
}

/// Those of the texts that are still kept in mind.
pub open spec fn recent(m: Seq<(Seq<char>, u64)>, now: u64) -> Seq<(Seq<char>, u64)>
    decreases m.len(),
{
    if m.len() == 0 {
        m
    } else if is_recent(m.last().1, now) {
        recent(m.drop_last(), now).push(m.last())
    } else {
        recent(m.drop_last(), now)
    }
}

/// Under what a text that was sent is kept in mind.
pub open spec fn echo_key(user: Seq<char>, text: Seq<char>) -> Seq<char> {
    digest_key(user, md5_of(trimmed(text)))
}

/// Under what a text that was sent is kept in mind.
pub fn sent_echo_key(user_id: &str, text: &str) -> (r: String)
    ensures
        r@ == echo_key(user_id@, text@),
{
    keyed(user_id, trim(text))
}

/// The texts that were sent, each with when.
pub struct SentEchoes {
    pub echoes: Table<u64>,
}

impl View for SentEchoes {
    type V = Seq<(Seq<char>, u64)>;

    open spec fn view(&self) -> Seq<(Seq<char>, u64)> {
        self.echoes@
    }
}

/// The texts after one was sent.
pub open spec fn with_echo(
    m: Seq<(Seq<char>, u64)>,
    user: Seq<char>,
    text: Seq<char>,
    now: u64,
) -> Seq<(Seq<char>, u64)> {
    if user.len() == 0 || trimmed(text).len() == 0 {
        m
    } else {
        with_entry(recent(m, now), echo_key(user, trimmed(text)), now)
    }
}

impl SentEchoes {
    /// Nothing was sent.
    pub fn new() -> (r: SentEchoes)
        ensures
            r@ == Seq::<(Seq<char>, u64)>::empty(),
    {
        SentEchoes { echoes: Table::new() }
    }

    fn forget_old(&mut self, now: u64)
        ensures
            final(self)@ == recent(old(self)@, now),
    {
        let ghost all = self@;
        let mut fresh: Vec<bool> = Vec::new();
        let mut i: usize = 0;
        let es: &Vec<(String, u64)> = self.echoes.entries();
        while i < es.len()
            invariant
                i <= es@.len(),
                pairs(es@) == self.echoes@,
                all == self.echoes@,
                fresh@.len() == i,
                kept(all.take(i as int), fresh@) == recent(all.take(i as int), now),
            decreases es@.len() - i,
        {
            let e: &(String, u64) = &es[i];
            let ghost before = fresh@;
            fresh.push(now < e.1 || now - e.1 < SENT_ECHO_TTL_MS);
            proof {
                assert(all.take(i + 1).drop_last() == all.take(i as int));
                assert(all.take(i + 1).last() == (e.0@, e.1));
                assert(fresh@.drop_last() == before);
            }
            i = i + 1;
        }
        assert(all.take(all.len() as int) == all);
        self.echoes.keep(&fresh);
    }

    /// Keeps a text that was sent in mind.
    pub fn remember(&mut self, user_id: &str, text: &str, now: u64)
        ensures
            final(self)@ == with_echo(old(self)@, user_id@, text@, now),
    {
        let t: &str = trim(text);
        if user_id.is_empty() || t.is_empty() {
            return ;
        }
        self.forget_old(now);
        let key: String = sent_echo_key(user_id, t);
        self.echoes.insert(key, now);
    }

    /// Whether a text was sent to this user a moment ago.
    pub fn is_sent_echo(&mut self, target: &str, text: &str, now: u64) -> (r: bool)
        ensures
            if trimmed(text@).len() == 0 {
                !r && final(self)@ == old(self)@
            } else {
                &&& final(self)@ == recent(old(self)@, now)
                &&& r == (lookup(recent(old(self)@, now), echo_key(target@, trimmed(text@))) is Some)
            },
    {
        let t: &str = trim(text);
        if t.is_empty() {
            return false;
        }
        self.forget_old(now);
        let key: String = sent_echo_key(target, t);
        self.echoes.contains_key(key.as_str())
    }
}

/// A text that was sent is known as an echo for as long as it is kept in mind.
pub proof fn sent_text_is_an_echo(
    m: Seq<(Seq<char>, u64)>,
    user: Seq<char>,
    text: Seq<char>,
    now: u64,
    later: u64,
)
    requires
        user.len() > 0,
        trimmed(text).len() > 0,
        now <= later < now + SENT_ECHO_TTL_MS,
    ensures
        lookup(
            recent(with_echo(m, user, text, now), later),
            echo_key(user, trimmed(text)),
        ) is Some,
{
    let k = echo_key(user, trimmed(text));
    let r = with_echo(m, user, text, now);
    crate::table::with_entry_lookup(recent(m, now), k, now, k);
    crate::table::lookup_is_an_entry(r, k);
    let i = choose|i: int| 0 <= i < r.len() && #[trigger] r[i] == (k, now);
    recent_keeps(r, later, i);
    crate::table::lookup_is_an_entry(recent(r, later), k);
}

proof fn recent_keeps(m: Seq<(Seq<char>, u64)>, now: u64, i: int)
    requires
        0 <= i < m.len(),
        is_recent(m[i].1, now),
    ensures
        exists|j: int| 0 <= j < recent(m, now).len() && #[trigger] recent(m, now)[j] == m[i],
    decreases m.len(),
{
    if i == m.len() - 1 {
        let n = recent(m.drop_last(), now).len();
        assert(recent(m, now)[n as int] == m[i]);
    } else {
        recent_keeps(m.drop_last(), now, i);
        let j = choose|j: int|
            0 <= j < recent(m.drop_last(), now).len() && #[trigger] recent(m.drop_last(), now)[j]
                == m.drop_last()[i];
        assert(recent(m, now)[j] == m[i]);
    }
}

// ---------------------------------------------------------------------------------------------
// Messages that came before
// ---------------------------------------------------------------------------------------------

/// The ids of the last messages, the latest last.
pub struct DedupIds {
    pub ids: Vec<String>,
}

impl View for DedupIds {
    type V = Seq<Seq<char>>;

    open spec fn view(&self) -> Seq<Seq<char>> {
        texts(self.ids@)
    }
}

/// The last ids of a list, at most as many as are kept in mind.
pub open spec fn last_ids(ids: Seq<Seq<char>>) -> Seq<Seq<char>> {
    if ids.len() > DEDUP_MAX {
        ids.skip(ids.len() - DEDUP_MAX)
    } else {
        ids
    }
}

impl DedupIds {
    /// No message came yet.
    pub fn new() -> (r: DedupIds)
        ensures
            r@ == Seq::<Seq<char>>::empty(),
    {
        let r: DedupIds = DedupIds { ids: Vec::new() };
        assert(r@ =~= Seq::<Seq<char>>::empty());
        r
    }

    /// Takes in the id of a message: whether it is known. An empty id is not kept in mind.
    pub fn seen_before(&mut self, id: &str) -> (r: bool)
        ensures
            r == (id@.len() > 0 && old(self)@.contains(id@)),
            final(self)@ == if id@.len() == 0 || r {
                old(self)@
            } else {
                last_ids(old(self)@.push(id@))
            },
    {
        if id.is_empty() {
            return false;
        }
        let ghost all = self@;
        let mut i: usize = 0;
        while i < self.ids.len()
            invariant
                i <= self.ids@.len(),
                all == self@,
                all == old(self)@,
                id@.len() > 0,
                forall|k: int| 0 <= k < i ==> #[trigger] all[k] != id@,
            decreases self.ids@.len() - i,
        {
            assert(all[i as int] == self.ids@[i as int]@);
            if same(self.ids[i].as_str(), id) {
                assert(all.contains(id@));
                return true;
            }
            i = i + 1;
        }
        let ghost before = self.ids@;
        let own: String = id.to_owned();
        self.ids.push(own);
        proof {
            texts_push(before, own);
        }
        let ghost full = self@;
        assert(full.skip(0) == full);
        let ghost mut gone: int = 0;
        while self.ids.len() > DEDUP_MAX
            invariant
                0 <= gone <= full.len(),
                self@ == full.skip(gone),
                full == old(self)@.push(id@),
                gone > 0 ==> self@.len() >= DEDUP_MAX,
            decreases self.ids@.len(),
        {
            let ghost cur = self.ids@;
            assert(self@.len() == self.ids@.len());
            let _ = self.ids.remove(0);
            proof {
                assert(self@ =~= full.skip(gone).skip(1));
                assert(full.skip(gone).skip(1) =~= full.skip(gone + 1));
                gone = gone + 1;
            }
        }
        assert(self@.len() == self.ids@.len());
        assert(self@ =~= last_ids(full));
        false
    }
}

/// At most so many ids are kept in mind, and the latest is among them.
pub proof fn last_ids_hold_the_latest(ids: Seq<Seq<char>>, id: Seq<char>)
    ensures
        last_ids(ids.push(id)).len() <= DEDUP_MAX,
        last_ids(ids.push(id)).contains(id),
{
    let l = last_ids(ids.push(id));
    assert(l.len() > 0);
    assert(l[l.len() - 1] == id);
}

// ---------------------------------------------------------------------------------------------
// Messages that come in
// ---------------------------------------------------------------------------------------------

/// A part that is no text. All that came is kept with it.
pub open spec fn media_part(kind: PartKind, label: Seq<char>, said: Seq<char>, item: JsonV) -> PartV {
    PartV {
        kind: kind,
        text: said,
        url: Seq::empty(),
        data: Some(item),
        extra: seq![("wechat_item"@, item), ("wechat_item_label"@, JsonV::Str(label))],
    }
}

/// What is said of a part that says nothing of itself.
pub open spec fn plain_label(label: Seq<char>) -> Seq<char> {
    "[WeChat "@ + label + " message]"@
}

/// The part that an item becomes.
pub open spec fn item_part(item: JsonV) -> Option<PartV> {
    match signed_field(item, "type"@) {
        Some(1) => {
            let t = trimmed(
                match text_in(field2(item, "text_item"@, "text"@)) {
                    Some(t) => t,
                    None => Seq::empty(),
                },
            );
            if t.len() == 0 {
                None
            } else {
                Some(text_part_view(t))
            }
        },
        Some(2) => Some(media_part(PartKind::Image, "image"@, plain_label("image"@), item)),
        Some(3) => Some(
            media_part(
                PartKind::Audio,
                "voice"@,
                match unless_blank(text_in(field2(item, "voice_item"@, "text"@))) {
                    Some(t) => "[WeChat voice message]\n"@ + t,
                    None => plain_label("voice"@),
                },
                item,
            ),
        ),
        Some(4) => Some(
            media_part(
                PartKind::File,
                "file"@,
                match unless_blank(text_in(field2(item, "file_item"@, "file_name"@))) {
                    Some(n) => "[WeChat file message: "@ + n + "]"@,
                    None => plain_label("file"@),
                },
                item,
            ),
        ),
        Some(5) => Some(media_part(PartKind::Video, "video"@, plain_label("video"@), item)),
        _ => None,
    }
}

fn make_media(kind: PartKind, label: &str, said: String, item: &Json) -> (r: ChannelPart)
    ensures
        r@ == media_part(kind, label@, said@, item@),
{
    let mut extra: Vec<(String, Json)> = Vec::new();
    assert(extra.deep_view() =~= Seq::<(Seq<char>, JsonV)>::empty());
    push_field(&mut extra, "wechat_item", item.dup());
    push_field(&mut extra, "wechat_item_label", Json::text(label));
    let r: ChannelPart = ChannelPart {
        kind: kind,
        text: said,
        url: String::new(),
        data: Some(item.dup()),
        extra: extra,
    };
    assert(r@ =~= media_part(kind, label@, said@, item@));
    r
}

fn label_text(label: &str) -> (r: String)
    ensures
        r@ == plain_label(label@),
{
    concat3("[WeChat ", label, " message]")
}

/// The part that an item becomes; `None` where it becomes none.
pub fn parse_item(item: &Json) -> (r: Option<ChannelPart>)
    ensures
        match r {
            Some(p) => item_part(item@) == Some(p@),
            None => item_part(item@) is None,
        },
{
    let kind: i64 = match item.get("type") {
        Some(t) => match t.as_i64() {
            Some(n) => n,
            None => {
                return None;
            },
        },
        None => {
            return None;
        },
    };
    if kind == 1 {
        let t: &str = match as_text(item.get2("text_item", "text")) {
            Some(t) => trim(t),
            None => {
                assert(trimmed(Seq::<char>::empty()).len() == 0);
                return None;
            },
        };
        if t.is_empty() {
            return None;
        }
        return Some(ChannelPart::text_part(t));
    }
    if kind == 2 {
        return Some(make_media(PartKind::Image, "image", label_text("image"), item));
    }
    if kind == 3 {
        let said: String = match trim_unless_blank(as_text(item.get2("voice_item", "text"))) {
            Some(t) => concat2("[WeChat voice message]\n", t.as_str()),
            None => label_text("voice"),
        };
        return Some(make_media(PartKind::Audio, "voice", said, item));
    }
    if kind == 4 {
        let said: String = match trim_unless_blank(as_text(item.get2("file_item", "file_name"))) {
            Some(n) => concat3("[WeChat file message: ", n.as_str(), "]"),
            None => label_text("file"),
        };
        return Some(make_media(PartKind::File, "file", said, item));
    }
    if kind == 5 {
        return Some(make_media(PartKind::Video, "video", label_text("video"), item));
    }
    None
}

/// The parts that items become, in order.
pub open spec fn item_parts(items: Seq<JsonV>) -> Seq<PartV>
    decreases items.len(),
{
    if items.len() == 0 {
        Seq::empty()
    } else {
        match item_part(items.last()) {
            Some(p) => item_parts(items.drop_last()).push(p),
            None => item_parts(items.drop_last()),
        }
    }
}

fn parse_items(items: &Vec<Json>) -> (r: Vec<ChannelPart>)
    ensures
        r.deep_view() == item_parts(items.deep_view()),
{
    let ghost all = items.deep_view();
    let mut out: Vec<ChannelPart> = Vec::new();
    let mut i: usize = 0;
    assert(all.take(0) == Seq::<JsonV>::empty());
    assert(out.deep_view() =~= Seq::<PartV>::empty());
    while i < items.len()
        invariant
            i <= items@.len(),
            all == items.deep_view(),
            out.deep_view() == item_parts(all.take(i as int)),
        decreases items@.len() - i,
    {
        proof {
            assert(all.take(i + 1).drop_last() == all.take(i as int));
            assert(all.take(i + 1).last() == items@[i as int]@);
        }
        if let Some(p) = parse_item(&items[i]) {
            let ghost before = out.deep_view();
            out.push(p);
            assert(out.deep_view() =~= before.push(p@));
        }
        i = i + 1;
    }
    assert(all.take(all.len() as int) == all);
    out
}

/// The id that the member named `k` gives a message: its text, or its number.
pub open spec fn id_in(v: JsonV, k: Seq<char>) -> Option<Seq<char>> {
    match field(v, k) {
        Some(JsonV::Str(s)) => if s.len() > 0 {
            Some(s)
        } else {
            None
        },
        Some(JsonV::Number(n)) => scalar(JsonV::Number(n)),
        _ => None,
    }
}

fn get_id(v: &Json, key: &str) -> (r: Option<String>)
    ensures
        r.deep_view() == id_in(v@, key@),
{
    match v.get(key) {
        Some(x) => match x {
            Json::Str(s) => {
                if s.as_str().is_empty() {
                    None
                } else {
                    Some(s.clone())
                }
            },
            Json::Number(_) => scalar_text(x),
            _ => None,
        },
        None => None,
    }
}

/// The id of a message: what the platform calls it, else a digest of all of it, where `shown` is the
/// message as text.
pub open spec fn message_id_of(v: JsonV, shown: Seq<char>) -> Seq<char> {
    match id_in(v, "message_id"@) {
        Some(id) => id,
        None => match id_in(v, "msg_id"@) {
            Some(id) => id,
            None => match id_in(v, "msgid"@) {
                Some(id) => id,
                None => match id_in(v, "client_id"@) {
                    Some(id) => id,
                    None => "sha256:"@ + hex_text(sha256_of(shown)),
                },
            },
        },
    }
}

/// The id of a message, where `shown` is the message as text.
pub fn stable_message_id(message: &Json, shown: &str) -> (r: String)
    ensures
        r@ == message_id_of(message@, shown@),
{
    if let Some(id) = get_id(message, "message_id") {
        return id;
    }
    if let Some(id) = get_id(message, "msg_id") {
        return id;
    }
    if let Some(id) = get_id(message, "msgid") {
        return id;
    }
    if let Some(id) = get_id(message, "client_id") {
        return id;
    }
    let d: Vec<u8> = sha256_digest(shown);
    let h: String = hex_encode(d.as_slice());
    concat2("sha256:", h.as_str())
}

/// Messages to which the platform gave different numbers have different ids, whatever else they
/// have in common.
pub proof fn numbered_messages_stay_apart(
    a: JsonV,
    b: JsonV,
    m: u64,
    n: u64,
    shown_a: Seq<char>,
    shown_b: Seq<char>,
)
    requires
        field(a, "message_id"@) == Some(JsonV::Number(NumberV::Unsigned(m))),
        field(b, "message_id"@) == Some(JsonV::Number(NumberV::Unsigned(n))),
        m != n,
    ensures
        message_id_of(a, shown_a) != message_id_of(b, shown_b),
{
    decimal_reads_back(m as nat);
    decimal_reads_back(n as nat);
    assert(message_id_of(a, shown_a) == decimal(m as nat));
    assert(message_id_of(b, shown_b) == decimal(n as nat));
    if decimal(m as nat) == decimal(n as nat) {
        assert(digits_value(decimal(m as nat)) == digits_value(decimal(n as nat)));
    }
}

/// The names under which the bot stands in a message.
pub open spec fn receiver_names() -> Seq<Seq<char>> {
    seq![
        "to_user_id"@,
        "bot_user_id"@,
        "botUserId"@,
        "receiver_user_id"@,
        "receiverUserId"@,
    ]
}

/// The bot that a message came to; empty where the message does not say.
pub open spec fn receiver_of(v: JsonV) -> Seq<char> {
    match unless_blank(first_text(v, receiver_names())) {
        Some(t) => t,
        None => Seq::empty(),
    }
}

fn receiver(v: &Json) -> (r: String)
    ensures
        r@ == receiver_of(v@),
{
    let mut names: Vec<String> = Vec::new();
    names.push("to_user_id".to_owned());
    names.push("bot_user_id".to_owned());
    names.push("botUserId".to_owned());
    names.push("receiver_user_id".to_owned());
    names.push("receiverUserId".to_owned());
    assert(texts(names@) =~= receiver_names());
    match blank_to_none(find_text(v, &names)) {
        Some(t) => t,
        None => String::new(),
    }
}

/// What is known of a message besides its parts.
pub open spec fn inbound_meta(v: JsonV, shown: Seq<char>, account_id: Seq<char>) -> Members {
    let from = text_field_or(v, "from_user_id"@, Seq::empty());
    let group = text_field_or(v, "group_id"@, Seq::empty());
    let is_group = group.len() > 0;
    let base = seq![
        ("message_id"@, JsonV::Str(message_id_of(v, shown))),
        ("account_id"@, JsonV::Str(account_id)),
        ("from_user_id"@, JsonV::Str(from)),
        (
            "reply_to_user_id"@,
            JsonV::Str(
                if is_group {
                    group
                } else {
                    from
                },
            ),
        ),
        ("to_user_id"@, JsonV::Str(receiver_of(v))),
        ("context_token"@, JsonV::Str(text_field_or(v, "context_token"@, Seq::empty()))),
        ("is_group"@, JsonV::Bool(is_group)),
    ];
    if is_group {
        base.push(("group_id"@, JsonV::Str(group)))
    } else {
        base
    }
}

/// The session of a message: its group, or its sender.
pub open spec fn inbound_session(v: JsonV, account_id: Seq<char>) -> Seq<char> {
    let group = text_field_or(v, "group_id"@, Seq::empty());
    if group.len() > 0 {
        "wechat:"@ + account_id + ":group:"@ + group
    } else {
        "wechat:"@ + account_id + ":dm:"@ + text_field_or(v, "from_user_id"@, Seq::empty())
    }
}

/// A message of WeChat as a message of the gateway, where `shown` is the message as text. Only what
/// a user sent, and what has parts, is one.
pub open spec fn inbound(
    v: JsonV,
    shown: Seq<char>,
    account_id: Seq<char>,
    channel_id: Seq<char>,
) -> Option<NativeV> {
    let from = text_field_or(v, "from_user_id"@, Seq::empty());
    let parts = match elements_field(v, "item_list"@) {
        Some(items) => item_parts(items),
        None => Seq::empty(),
    };
    if signed_field(v, "message_type"@) != Some(1i64) || from.len() == 0 || parts.len() == 0 {
        None
    } else {
        Some(
            NativeV {
                channel_id: channel_id,
                sender_id: from,
                session_id: Some(inbound_session(v, account_id)),
                content_parts: parts,
                meta: inbound_meta(v, shown, account_id),
            },
        )
    }
}

fn build_inbound_meta(
    msg: &Json,
    shown: &str,
    account_id: &str,
    from: &str,
    group: &str,
) -> (r: Vec<(String, Json)>)
    requires
        from@ == text_field_or(msg@, "from_user_id"@, Seq::empty()),
        group@ == text_field_or(msg@, "group_id"@, Seq::empty()),
    ensures
        r.deep_view() == inbound_meta(msg@, shown@, account_id@),
{
    let is_group: bool = !group.is_empty();
    let id: String = stable_message_id(msg, shown);
    let to: String = receiver(msg);
    let token: String = msg.get_string("context_token");
    let mut m: Vec<(String, Json)> = Vec::new();
    assert(m.deep_view() =~= Seq::<(Seq<char>, JsonV)>::empty());
    push_field(&mut m, "message_id", Json::text(id.as_str()));
    push_field(&mut m, "account_id", Json::text(account_id));
    push_field(&mut m, "from_user_id", Json::text(from));
    push_field(
        &mut m,
        "reply_to_user_id",
        Json::text(
            if is_group {
                group
            } else {
                from
            },
        ),
    );
    push_field(&mut m, "to_user_id", Json::text(to.as_str()));
    push_field(&mut m, "context_token", Json::text(token.as_str()));
    push_field(&mut m, "is_group", Json::Bool(is_group));
    if is_group {
        push_field(&mut m, "group_id", Json::text(group));
    }
    assert(m.deep_view() =~= inbound_meta(msg@, shown@, account_id@));
    m
}

/// A message of WeChat as a message of the gateway, where `shown` is the message as text.
pub fn parse_inbound(msg: &Json, shown: &str, account_id: &str, channel_id: &str) -> (r: Option<
    NativeMessage,
>)
    ensures
        match r {
            Some(n) => inbound(msg@, shown@, account_id@, channel_id@) == Some(n@),
            None => inbound(msg@, shown@, account_id@, channel_id@) is None,
        },
{
    let kind: Option<i64> = match msg.get("message_type") {
        Some(t) => t.as_i64(),
        None => None,
    };
    match kind {
        Some(n) => {
            if n != 1 {
                return None;
            }
        },
        None => {
            return None;
        },
    }
    let from: String = msg.get_string("from_user_id");
    if from.as_str().is_empty() {
        return None;
    }
    let group: String = msg.get_string("group_id");
    let mut session: String = "wechat:".to_owned();
    session.append(account_id);
    if group.as_str().is_empty() {
        session.append(":dm:");
        session.append(from.as_str());
    } else {
        session.append(":group:");
        session.append(group.as_str());
    }
    let parts: Vec<ChannelPart> = match msg.get_array("item_list") {
        Some(items) => parse_items(items),
        None => {
            let none: Vec<ChannelPart> = Vec::new();
            assert(none.deep_view() =~= Seq::<PartV>::empty());
            none
        },
    };
    assert(parts.deep_view().len() == parts@.len());
    if parts.len() == 0 {
        return None;
    }
    let meta: Vec<(String, Json)> = build_inbound_meta(
        msg,
        shown,
        account_id,
        from.as_str(),
        group.as_str(),
    );
    Some(
        NativeMessage {
            channel_id: channel_id.to_owned(),
            sender_id: from,
            session_id: Some(session),
            content_parts: parts,
            meta: meta,
        },
    )
}

} // verus!
