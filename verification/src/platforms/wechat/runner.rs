//! The runner of one WeChat account: which messages it takes, how they wait their turn, and when it
//! is shown that something is being written.

use vstd::arithmetic::power2::{lemma2_to64, lemma_pow2_strictly_increases, pow2};
use vstd::prelude::*;

use crate::config::WeChatConfig;
use crate::error::{ErrorV, GatewayError};
use crate::json::{
    dup_entries, get_entry_bool_or, get_entry_str, push_field, put_field, text_of, truth_of_or,
    Json, JsonV, Members,
};
use crate::pipeline::{
    message_priority, native_from, part_from, query_of, session_id_of, session_of, NativeMessage,
    NativeV,
};
use crate::platforms::telegram::adapter::{kind_name, url_name, Queued};
use crate::platforms::wechat::adapter::{
    account_base_url, can_show_typing, cleanup_ticket, context_token, cursor_in, digest_key,
    echo_key, getupdates_cursor, inbound, inbound_meta, item_part, item_parts, last_ids,
    last_ids_hold_the_latest, message_id_of, native_reply_target, parse_inbound, recent,
    remember_context_token, target_of, ticket_step, typing_session_key, with_context_token,
    with_ticket_failure, DedupIds, SentEchoes, TicketStep, TicketStepV, TicketV, TypingTickets,
    TYPING_TICKET_REFRESH_BACKOFF_MS,
};
use crate::platforms::wechat::client::DEFAULT_BASE_URL;
use crate::platforms::wechat::login::unless_blank;
use crate::platforms::wechat::poll::{
    after, cursor_is_kept_once_all_is_worked_off, finishes, first_step, in_order, PollAction,
    PollEvent, PollPhase, PollState,
};
use crate::platforms::wechat::registry::{
    identified, RegistryV, WeChatAccountEntry, WeChatAccountRegistry,
};
use crate::codec::md5_of;
use crate::queue::priority_of;
use crate::strs::{lowered, trimmed};
use crate::table::{
    held, held_lookup, held_with, held_without, lookup, with_entry, without_entry, Table,
};
use crate::types::{text_part_view, ChannelPart, PartKind, PartV};

verus! {

/// What is said where the pictures of a message could not be read.
pub const IMAGE_FAILURE_TEXT: &'static str = "图片处理失败，请重新发送 JPEG、PNG 或 WebP；每条最多 3 张、每张 8 MB、1600 万像素。";

/// Something that is being written, as it is shown to a user.
#[derive(Debug)]
pub struct TypingSession {
    pub user_id: String,
    pub ticket: String,
}

impl DeepView for TypingSession {
    type V = (Seq<char>, Seq<char>);

    open spec fn deep_view(&self) -> (Seq<char>, Seq<char>) {
        (self.user_id@, self.ticket@)
    }
}

/// A runner of an account, and all that it keeps in mind.
pub struct WeChatAccountRunner {
    pub account_id: String,
    pub channel_id: String,
    pub base_url: String,
    pub inline_images: bool,
    pub cursor: String,
    pub dedup_ids: DedupIds,
    pub sent_echoes: SentEchoes,
    pub context_tokens: Table<String>,
    pub typing_tickets: TypingTickets,
    pub typing_sessions: Table<TypingSession>,
}

/// What a runner keeps in mind.
#[verifier::ext_equal]
pub struct RunnerV {
    pub account_id: Seq<char>,
    pub channel_id: Seq<char>,
    pub base_url: Seq<char>,
    pub inline_images: bool,
    pub cursor: Seq<char>,
    pub dedup_ids: Seq<Seq<char>>,
    pub sent_echoes: Seq<(Seq<char>, u64)>,
    pub context_tokens: Seq<(Seq<char>, Seq<char>)>,
    pub typing_tickets: Seq<(Seq<char>, TicketV)>,
    pub typing_sessions: Seq<(Seq<char>, (Seq<char>, Seq<char>))>,
}

impl View for WeChatAccountRunner {
    type V = RunnerV;

    open spec fn view(&self) -> RunnerV {
        RunnerV {
            account_id: self.account_id@,
            channel_id: self.channel_id@,
            base_url: self.base_url@,
            inline_images: self.inline_images,
            cursor: self.cursor@,
            dedup_ids: self.dedup_ids@,
            sent_echoes: self.sent_echoes@,
            context_tokens: self.context_tokens.texts(),
            typing_tickets: self.typing_tickets@,
            typing_sessions: held(self.typing_sessions@),
        }
    }
}

/// What a runner does with a message that came in.
#[derive(Debug)]
pub enum Intake {
    /// Nobody said anything.
    Ignored,
    /// Another account runs the same bot: this runner ends.
    Merged(String),
    /// To be worked on at once; its pictures are read first where the flag says so.
    Inline(NativeMessage, bool),
    /// The bot said this itself.
    Echo,
    /// The message came before.
    Duplicate,
    /// To wait its turn.
    Taken(NativeMessage),
}

/// What a runner does with a message, with the message as a value.
#[verifier::ext_equal]
pub enum IntakeV {
    Ignored,
    Merged(Seq<char>),
    Inline(NativeV, bool),
    Echo,
    Duplicate,
    Taken(NativeV),
}

impl View for Intake {
    type V = IntakeV;

    open spec fn view(&self) -> IntakeV {
        match self {
            Intake::Ignored => IntakeV::Ignored,
            Intake::Merged(id) => IntakeV::Merged(id@),
            Intake::Inline(n, b) => IntakeV::Inline(n@, *b),
            Intake::Echo => IntakeV::Echo,
            Intake::Duplicate => IntakeV::Duplicate,
            Intake::Taken(n) => IntakeV::Taken(n@),
        }
    }
}

/// The text of a member, empty where there is none.
pub open spec fn text_or_empty(m: Members, k: Seq<char>) -> Seq<char> {
    match text_of(m, k) {
        Some(t) => t,
        None => Seq::empty(),
    }
}

/// The text of the first part.
pub open spec fn first_part_text(parts: Seq<PartV>) -> Seq<char> {
    if parts.len() == 0 {
        Seq::empty()
    } else {
        parts[0].text
    }
}

/// What a runner keeps in mind after a message with its token came in.
pub open spec fn with_token_of(s: RunnerV, n: NativeV) -> RunnerV {
    RunnerV {
        context_tokens: with_context_token(
            s.context_tokens,
            target_of(n.meta, n.sender_id),
            text_or_empty(n.meta, "context_token"@),
        ),
        ..s
    }
}

/// What a runner does with a message that is to wait its turn: unless the bot said it itself, or it
/// came before, it is taken.
pub open spec fn sift(s: RunnerV, n: NativeV, now: u64) -> (RunnerV, IntakeV) {
    let said = trimmed(first_part_text(n.content_parts));
    let s2 = if said.len() == 0 {
        s
    } else {
        RunnerV { sent_echoes: recent(s.sent_echoes, now), ..s }
    };
    let id = text_or_empty(n.meta, "message_id"@);
    if said.len() > 0 && lookup(
        s2.sent_echoes,
        echo_key(target_of(n.meta, n.sender_id), said),
    ) is Some {
        (s2, IntakeV::Echo)
    } else if id.len() == 0 {
        (s2, IntakeV::Taken(n))
    } else if s2.dedup_ids.contains(id) {
        (s2, IntakeV::Duplicate)
    } else {
        (RunnerV { dedup_ids: last_ids(s2.dedup_ids.push(id)), ..s2 }, IntakeV::Taken(n))
    }
}

/// What a runner does with a message that came in, where `shown` is the message as text.
pub open spec fn intake(s: RunnerV, reg: RegistryV, msg: JsonV, shown: Seq<char>, now: u64) -> (
    RunnerV,
    RegistryV,
    IntakeV,
) {
    match inbound(msg, shown, s.account_id, s.channel_id) {
        None => (s, reg, IntakeV::Ignored),
        Some(n) => {
            let (reg2, merged) = identified(
                reg,
                s.account_id,
                text_or_empty(n.meta, "to_user_id"@),
            );
            let s2 = with_token_of(s, n);
            match merged {
                Some(id) => (s, reg2, IntakeV::Merged(id)),
                None => if s.inline_images {
                    (s2, reg2, IntakeV::Inline(n, !truth_of_or(n.meta, "is_group"@, true)))
                } else {
                    let (s3, out) = sift(s2, n, now);
                    (s3, reg2, out)
                },
            }
        },
    }
}

/// The cursor to keep at the end of a poll, given what it ends with.
pub open spec fn cursor_to_keep(end: PollAction, data: JsonV) -> Option<Seq<char>> {
    if end == PollAction::KeepCursor {
        cursor_in(data)
    } else {
        None
    }
}

/// A runner after a poll, given what it ends with.
pub open spec fn moved_on(s: RunnerV, end: PollAction, data: JsonV) -> RunnerV {
    match cursor_to_keep(end, data) {
        Some(c) => RunnerV { cursor: c, ..s },
        None => s,
    }
}

/// What starting to show that something is being written came to.
#[derive(Debug)]
pub struct TypingStarted {
    pub session_key: String,
    pub ticket: String,
    /// Whether it was shown already: what keeps that up is to end.
    pub replaced: bool,
}

/// What is to be done to stop showing that something is being written.
#[derive(Debug)]
pub struct TypingEnd {
    /// Whether something keeps it up that is to end.
    pub stop_keepalive: bool,
    /// The user and the ticket to tell the platform.
    pub cleanup: Option<(String, String)>,
}

/// The user and the ticket to tell the platform.
pub open spec fn cleanup_of(user: Seq<char>, ticket: Option<Seq<char>>) -> Option<(Seq<char>, Seq<char>)> {
    if user.len() == 0 {
        None
    } else {
        match unless_blank(ticket) {
            Some(t) => Some((user, t)),
            None => None,
        }
    }
}

fn plan_cleanup(user_id: &str, ticket: Option<&str>) -> (r: Option<(String, String)>)
    ensures
        r.deep_view() == cleanup_of(user_id@, ticket.deep_view()),
{
    match cleanup_ticket(user_id, ticket) {
        Some(t) => Some((user_id.to_owned(), t)),
        None => None,
    }
}

fn text_or_nothing(m: &Vec<(String, Json)>, key: &str) -> (r: String)
    ensures
        r@ == text_or_empty(m.deep_view(), key@),
{
    match get_entry_str(m, key) {
        Some(t) => t.to_owned(),
        None => {
            let e: String = String::new();
            assert(e@ =~= Seq::<char>::empty());
            e
        },
    }
}

impl WeChatAccountRunner {
    /// A runner that has seen nothing yet but the cursor.
    pub fn new(
        account_id: &str,
        channel_id: &str,
        cfg: &WeChatConfig,
        entry: &WeChatAccountEntry,
        cursor: &str,
    ) -> (r: WeChatAccountRunner)
        ensures
            r@ == (RunnerV {
                account_id: account_id@,
                channel_id: channel_id@,
                base_url: if entry@.base_url.len() > 0 {
                    entry@.base_url
                } else if cfg.base_url@.len() == 0 {
                    DEFAULT_BASE_URL@
                } else {
                    cfg.base_url@
                },
                inline_images: cfg.inline_images,
                cursor: cursor@,
                dedup_ids: Seq::empty(),
                sent_echoes: Seq::empty(),
                context_tokens: Seq::empty(),
                typing_tickets: Seq::empty(),
                typing_sessions: Seq::empty(),
            }),
    {
        let r: WeChatAccountRunner = WeChatAccountRunner {
            account_id: account_id.to_owned(),
            channel_id: channel_id.to_owned(),
            base_url: account_base_url(entry.base_url.as_str(), cfg.base_url.as_str()),
            inline_images: cfg.inline_images,
            cursor: cursor.to_owned(),
            dedup_ids: DedupIds::new(),
            sent_echoes: SentEchoes::new(),
            context_tokens: Table::new_texts(),
            typing_tickets: TypingTickets::new(),
            typing_sessions: Table::new(),
        };
        assert(held(r.typing_sessions@) =~= Seq::empty());
        r
    }

    /// The id of the account.
    pub fn account_id(&self) -> (r: &str)
        ensures
            r@ == self@.account_id,
    {
        self.account_id.as_str()
    }

    /// The id of the channel.
    pub fn channel_id(&self) -> (r: &str)
        ensures
            r@ == self@.channel_id,
    {
        self.channel_id.as_str()
    }

    /// Moves on to where a response says to go on reading: the cursor to save, where it says so.
    pub fn apply_getupdates_response(&mut self, data: &Json) -> (r: Option<String>)
        ensures
            r.deep_view() == cursor_in(data@),
            final(self)@ == match cursor_in(data@) {
                Some(c) => RunnerV { cursor: c, ..old(self)@ },
                None => old(self)@,
            },
    {
        match getupdates_cursor(data) {
            Some(c) => {
                self.cursor = c.clone();
                assert(self@ =~= RunnerV { cursor: c@, ..old(self)@ });
                Some(c)
            },
            None => None,
        }
    }

    /// Begins to run: what comes first.
    pub fn start(&self) -> (r: (PollState, PollAction))
        ensures
            r == first_step(),
    {
        (PollState { failures: 0, total: 0, done: 0, phase: PollPhase::Ask }, PollAction::Ask)
    }

    /// Ends the work on a poll. Only where all of its messages were worked off does the runner move on
    /// to where the response says to go on reading: the cursor to save, where it says so.
    pub fn end_poll(&mut self, end: PollAction, data: &Json) -> (r: Option<String>)
        ensures
            r.deep_view() == cursor_to_keep(end, data@),
            final(self)@ == moved_on(old(self)@, end, data@),
    {
        if end == PollAction::KeepCursor {
            self.apply_getupdates_response(data)
        } else {
            None
        }
    }

    /// Takes in a message, where `shown` is the message as text.
    pub fn take_message(
        &mut self,
        registry: &mut WeChatAccountRegistry,
        msg: &Json,
        shown: &str,
        now: u64,
    ) -> (r: Intake)
        ensures
            intake(old(self)@, old(registry)@, msg@, shown@, now) == (
                final(self)@,
                final(registry)@,
                r@,
            ),
    {
        let native: NativeMessage = match parse_inbound(
            msg,
            shown,
            self.account_id.as_str(),
            self.channel_id.as_str(),
        ) {
            Some(n) => n,
            None => {
                return Intake::Ignored;
            },
        };
        let bot: String = text_or_nothing(&native.meta, "to_user_id");
        if let Ok(Some(id)) = registry.upsert_bot_user_id(self.account_id.as_str(), bot.as_str()) {
            return Intake::Merged(id);
        }
        let token: String = text_or_nothing(&native.meta, "context_token");
        let target: String = native_reply_target(&native);
        remember_context_token(&mut self.context_tokens, target.as_str(), token.as_str());
        assert(self@ =~= with_token_of(old(self)@, native@));
        if self.inline_images {
            let read: bool = !get_entry_bool_or(&native.meta, "is_group", true);
            return Intake::Inline(native, read);
        }
        self.sift_message(native, target.as_str(), now)
    }

    fn sift_message(&mut self, native: NativeMessage, target: &str, now: u64) -> (r: Intake)
        requires
            target@ == target_of(native@.meta, native@.sender_id),
        ensures
            sift(old(self)@, native@, now) == (final(self)@, r@),
    {
        let ghost s = self@;
        assert(native.content_parts.deep_view().len() == native.content_parts@.len());
        let said: String = if native.content_parts.len() > 0 {
            assert(native.content_parts.deep_view()[0] == native.content_parts@[0]@);
            native.content_parts[0].text.clone()
        } else {
            String::new()
        };
        assert(said@ =~= first_part_text(native@.content_parts));
        let echo: bool = self.sent_echoes.is_sent_echo(target, said.as_str(), now);
        if echo {
            return Intake::Echo;
        }
        let id: String = text_or_nothing(&native.meta, "message_id");
        if self.dedup_ids.seen_before(id.as_str()) {
            return Intake::Duplicate;
        }
        Intake::Taken(native)
    }

    /// What to do for a ticket, to show the sender of a message that something is being written.
    pub fn typing_step(&self, native: &NativeMessage, now: u64) -> (r: TicketStep)
        ensures
            ({
                let user = target_of(native@.meta, native@.sender_id);
                let token = text_or_empty(native@.meta, "context_token"@);
                r@ == if user.len() == 0 || token.len() == 0 {
                    TicketStepV::Skip
                } else {
                    ticket_step(self@.typing_tickets, user, now)
                }
            }),
    {
        let user: String = native_reply_target(native);
        let token: String = text_or_nothing(&native.meta, "context_token");
        if !can_show_typing(user.as_str(), token.as_str()) {
            return TicketStep::Skip;
        }
        self.typing_tickets.resolve(user.as_str(), now)
    }

    /// Takes in whether the platform showed that something is being written: what to go on with,
    /// where it did. A ticket that was refused is not used again.
    pub fn typing_shown(
        &mut self,
        user_id: &str,
        context_token: &str,
        ticket: &str,
        shown: bool,
        now: u64,
    ) -> (r: Option<TypingStarted>)
        requires
            now + TYPING_TICKET_REFRESH_BACKOFF_MS <= u64::MAX,
        ensures
            ({
                let key = digest_key(user_id@, md5_of(context_token@));
                if shown {
                    &&& r matches Some(t)
                    &&& t.session_key@ == key
                    &&& t.ticket@ == ticket@
                    &&& t.replaced == (lookup(old(self)@.typing_sessions, key) is Some)
                    &&& final(self)@ == (RunnerV {
                        typing_sessions: with_entry(
                            old(self)@.typing_sessions,
                            key,
                            (user_id@, ticket@),
                        ),
                        ..old(self)@
                    })
                } else {
                    &&& r is None
                    &&& final(self)@ == (RunnerV {
                        typing_tickets: with_ticket_failure(
                            old(self)@.typing_tickets,
                            user_id@,
                            now,
                        ),
                        ..old(self)@
                    })
                }
            }),
    {
        if !shown {
            self.typing_tickets.remember_failure(user_id, now);
            assert(self@ =~= RunnerV {
                typing_tickets: with_ticket_failure(old(self)@.typing_tickets, user_id@, now),
                ..old(self)@
            });
            return None;
        }
        let key: String = typing_session_key(user_id, context_token);
        let replaced: bool = self.typing_sessions.contains_key(key.as_str());
        let s: TypingSession = TypingSession {
            user_id: user_id.to_owned(),
            ticket: ticket.to_owned(),
        };
        proof {
            held_lookup(self.typing_sessions@, key@);
            held_with(self.typing_sessions@, key@, s);
        }
        self.typing_sessions.insert(key.clone(), s);
        assert(self@ =~= RunnerV {
            typing_sessions: with_entry(old(self)@.typing_sessions, key@, (user_id@, ticket@)),
            ..old(self)@
        });
        Some(TypingStarted { session_key: key, ticket: ticket.to_owned(), replaced: replaced })
    }

    /// Stops showing that something is being written: what was shown under this key, else to this
    /// user with this ticket.
    pub fn finish_typing_session(
        &mut self,
        session_key: Option<&str>,
        fallback_user_id: &str,
        fallback_ticket: Option<&str>,
    ) -> (r: TypingEnd)
        ensures
            ({
                let shown = match session_key {
                    Some(k) => lookup(old(self)@.typing_sessions, k@),
                    None => None,
                };
                match shown {
                    Some((user, ticket)) => {
                        &&& r.stop_keepalive
                        &&& r.cleanup.deep_view() == cleanup_of(user, Some(ticket))
                        &&& final(self)@ == (RunnerV {
                            typing_sessions: without_entry(
                                old(self)@.typing_sessions,
                                session_key->0@,
                            ),
                            ..old(self)@
                        })
                    },
                    None => {
                        &&& !r.stop_keepalive
                        &&& r.cleanup.deep_view() == cleanup_of(
                            fallback_user_id@,
                            fallback_ticket.deep_view(),
                        )
                        &&& final(self)@ == old(self)@
                    },
                }
            }),
    {
        if let Some(key) = session_key {
            proof {
                held_lookup(self.typing_sessions@, key@);
                held_without(self.typing_sessions@, key@);
            }
            if self.typing_sessions.contains_key(key) {
                if let Some(s) = self.typing_sessions.remove(key) {
                    assert(self@ =~= RunnerV {
                        typing_sessions: without_entry(old(self)@.typing_sessions, key@),
                        ..old(self)@
                    });
                    let ticket: Option<&str> = Some(s.ticket.as_str());
                    return TypingEnd {
                        stop_keepalive: true,
                        cleanup: plan_cleanup(s.user_id.as_str(), ticket),
                    };
                }
            }
        }
        TypingEnd {
            stop_keepalive: false,
            cleanup: plan_cleanup(fallback_user_id, fallback_ticket),
        }
    }
}

/// Seconds to wait after so many polls in a row have failed: longer each time, two minutes at most.
pub open spec fn backoff(failures: nat) -> nat {
    let doublings = if failures == 0 {
        0
    } else {
        (failures - 1) as nat
    };
    if 5 * pow2(doublings) < 120 {
        5 * pow2(doublings)
    } else {
        120
    }
}

/// Seconds to wait after so many polls in a row have failed: longer each time, two minutes at most.
pub fn poll_backoff(failures: u32) -> (r: u64)
    ensures
        r == backoff(failures as nat),
{
    proof {
        lemma2_to64();
        if failures > 6 {
            lemma_pow2_strictly_increases(5, (failures - 1) as nat);
        }
    }
    if failures <= 1 {
        5
    } else if failures == 2 {
        10
    } else if failures == 3 {
        20
    } else if failures == 4 {
        40
    } else if failures == 5 {
        80
    } else {
        120
    }
}

/// What becomes of a message whose reply was sent piece by piece: where a piece was lost, that is
/// the error.
pub fn delivery_result(processed: Result<(), GatewayError>, lost: Option<String>) -> (r: Result<
    (),
    GatewayError,
>)
    ensures
        match processed {
            Err(e) => r matches Err(f) && f@ == e@,
            Ok(()) => match lost {
                Some(s) => r matches Err(f) && f@ == (ErrorV::Channel {
                    channel: "wechat"@,
                    message: s@,
                }),
                None => r is Ok,
            },
        },
{
    match processed {
        Err(e) => Err(e),
        Ok(()) => match lost {
            Some(s) => Err(GatewayError::Channel { channel: "wechat".to_owned(), message: s }),
            None => Ok(()),
        },
    }
}

// ---------------------------------------------------------------------------------------------
// Messages that wait
// ---------------------------------------------------------------------------------------------

/// The members of a part as it waits that say what it is and holds.
pub open spec fn part_head(p: PartV) -> Members {
    let base = seq![("type"@, JsonV::Str(kind_name(p.kind))), ("text"@, JsonV::Str(p.text))];
    match url_name(p.kind) {
        Some(k) => if p.url.len() > 0 {
            base.push((k, JsonV::Str(p.url)))
        } else {
            base
        },
        None => base,
    }
}

/// The members of a part as it waits that say what the platform said of it.
pub open spec fn part_tail(p: PartV) -> Members {
    (match p.data {
        Some(d) => seq![("data"@, d)],
        None => Seq::empty(),
    }) + (if p.extra.len() > 0 {
        seq![("extra"@, JsonV::Object(p.extra))]
    } else {
        Seq::empty()
    })
}

/// A part as it waits.
pub open spec fn part_payload(p: PartV) -> JsonV {
    JsonV::Object(part_head(p) + part_tail(p))
}

/// A message as it waits.
pub open spec fn native_payload(n: NativeV, session: Seq<char>) -> JsonV {
    JsonV::Object(
        seq![
            ("channel_id"@, JsonV::Str(n.channel_id)),
            ("sender_id"@, JsonV::Str(n.sender_id)),
            ("session_id"@, JsonV::Str(session)),
            (
                "content_parts"@,
                JsonV::Array(n.content_parts.map_values(|p: PartV| part_payload(p))),
            ),
            ("meta"@, JsonV::Object(n.meta)),
        ],
    )
}

fn part_to_json(p: &ChannelPart) -> (r: Json)
    ensures
        r@ == part_payload(p@),
{
    let (kind, url): (&str, Option<&str>) = match p.kind {
        PartKind::Image => ("image", Some("image_url")),
        PartKind::Video => ("video", Some("video_url")),
        PartKind::File => ("file", Some("file_url")),
        PartKind::Audio => ("audio", Some("audio_url")),
        _ => ("text", None),
    };
    let mut m: Vec<(String, Json)> = Vec::new();
    assert(m.deep_view() =~= Seq::<(Seq<char>, JsonV)>::empty());
    push_field(&mut m, "type", Json::text(kind));
    push_field(&mut m, "text", Json::text(p.text.as_str()));
    if let Some(k) = url {
        if !p.url.as_str().is_empty() {
            push_field(&mut m, k, Json::text(p.url.as_str()));
        }
    }
    assert(m.deep_view() =~= part_head(p@));
    if let Some(d) = &p.data {
        push_field(&mut m, "data", d.dup());
    }
    assert(p.extra.deep_view().len() == p.extra@.len());
    if p.extra.len() > 0 {
        push_field(&mut m, "extra", Json::object(dup_entries(&p.extra)));
    }
    assert(m.deep_view() =~= part_head(p@) + part_tail(p@));
    Json::object(m)
}

/// A message as it waits.
pub fn native_to_json(native: &NativeMessage, session_id: &str) -> (r: Json)
    ensures
        r@ == native_payload(native@, session_id@),
{
    let ghost f = |p: PartV| part_payload(p);
    let ghost all = native.content_parts.deep_view();
    let mut parts: Vec<Json> = Vec::new();
    let mut i: usize = 0;
    assert(parts.deep_view() =~= all.take(0).map_values(f));
    while i < native.content_parts.len()
        invariant
            i <= native.content_parts@.len(),
            all == native.content_parts.deep_view(),
            f == |p: PartV| part_payload(p),
            parts.deep_view() == all.take(i as int).map_values(f),
        decreases native.content_parts@.len() - i,
    {
        let ghost before = parts.deep_view();
        parts.push(part_to_json(&native.content_parts[i]));
        proof {
            assert(parts.deep_view() =~= before.push(part_payload(all[i as int])));
            assert(all.take(i + 1).map_values(f) =~= all.take(i as int).map_values(f).push(
                part_payload(all[i as int]),
            ));
        }
        i = i + 1;
    }
    assert(all.take(all.len() as int) == all);
    let mut m: Vec<(String, Json)> = Vec::new();
    assert(m.deep_view() =~= Seq::<(Seq<char>, JsonV)>::empty());
    push_field(&mut m, "channel_id", Json::text(native.channel_id.as_str()));
    push_field(&mut m, "sender_id", Json::text(native.sender_id.as_str()));
    push_field(&mut m, "session_id", Json::text(session_id));
    push_field(&mut m, "content_parts", Json::array(parts));
    push_field(&mut m, "meta", Json::object(dup_entries(&native.meta)));
    assert(m.deep_view() =~= native_payload(native@, session_id@)->Object_0);
    Json::object(m)
}

/// A message with what is needed to stop showing that something is being written.
pub open spec fn with_typing(n: NativeV, typing: Option<(Seq<char>, Seq<char>)>) -> NativeV {
    match typing {
        Some((key, ticket)) => NativeV {
            meta: with_entry(
                with_entry(n.meta, "typing_ticket"@, JsonV::Str(ticket)),
                "typing_session_key"@,
                JsonV::Str(key),
            ),
            ..n
        },
        None => n,
    }
}

/// A message that was taken, to wait its turn in its session; with the key and the ticket, where it
/// is shown that something is being written.
pub fn queue_message(native: NativeMessage, typing: Option<&TypingStarted>) -> (r: Queued)
    ensures
        ({
            let n = with_typing(
                native@,
                match typing {
                    Some(t) => Some((t.session_key@, t.ticket@)),
                    None => None,
                },
            );
            &&& r.session_id@ == session_of(native@)
            &&& r.priority == priority_of(lowered(trimmed(query_of(native@.content_parts))))
            &&& r.payload@ == native_payload(n, session_of(native@))
        }),
{
    let mut native: NativeMessage = native;
    let ghost n = native@;
    let session_id: String = session_id_of(&native);
    let priority: i32 = message_priority(&native);
    if let Some(t) = typing {
        let meta: Vec<(String, Json)> = put_field(
            native.meta,
            "typing_ticket",
            Json::text(t.ticket.as_str()),
        );
        native.meta = put_field(meta, "typing_session_key", Json::text(t.session_key.as_str()));
        assert(native@ =~= with_typing(n, Some((t.session_key@, t.ticket@))));
    }
    let payload: Json = native_to_json(&native, session_id.as_str());
    Queued { session_id: session_id, priority: priority, payload: payload }
}

// ---------------------------------------------------------------------------------------------
// Laws
// ---------------------------------------------------------------------------------------------

/// Whether a part comes back from waiting as it was: a text with nothing else to it, or a picture, a
/// video, a file or a voice message.
pub open spec fn is_whole(p: PartV) -> bool {
    url_name(p.kind) is Some || p == text_part_view(p.text)
}

proof fn part_reads_back(p: PartV)
    requires
        is_whole(p),
    ensures
        part_from(part_payload(p)) == p,
{
    reveal_strlit("type");
    reveal_strlit("text");
    reveal_strlit("image");
    reveal_strlit("video");
    reveal_strlit("file");
    reveal_strlit("audio");
    reveal_strlit("image_url");
    reveal_strlit("video_url");
    reveal_strlit("file_url");
    reveal_strlit("audio_url");
    reveal_strlit("data");
    reveal_strlit("extra");
    assert("type"@[1] != "text"@[1]);
    assert("image"@[0] != "video"@[0]);
    assert("image"@[0] != "audio"@[0]);
    assert("video"@[0] != "audio"@[0]);
    assert("data"@[0] != "type"@[0]);
    assert("data"@[0] != "text"@[0]);
    assert("text"@[0] != "file"@[0]);
    assert("data"@.len() == 4 && "extra"@.len() == 5 && "type"@.len() == 4 && "text"@.len() == 4);
    let m = part_payload(p)->Object_0;
    let h = part_head(p);
    let t = part_tail(p);
    assert(m[0] == h[0] && m[1] == h[1]);
    crate::table::first_entry(m, "type"@, 0);
    crate::table::first_entry(m, "text"@, 1);
    match p.data {
        Some(d) => {
            assert(m[h.len() as int] == t[0]);
            crate::table::first_entry(m, "data"@, h.len() as int);
        },
        None => {
            crate::table::no_entry(m, "data"@);
        },
    }
    if p.extra.len() > 0 {
        assert(m[m.len() - 1] == t[t.len() - 1]);
        crate::table::first_entry(m, "extra"@, m.len() - 1);
    } else {
        crate::table::no_entry(m, "extra"@);
        assert(p.extra =~= Seq::empty());
    }
    match url_name(p.kind) {
        Some(k) => {
            assert(k.len() >= 8);
            if p.url.len() > 0 {
                assert(m[2] == h[2]);
                crate::table::first_entry(m, k, 2);
            } else {
                crate::table::no_entry(m, k);
                assert(p.url =~= Seq::empty());
            }
        },
        None => {},
    }
    assert(part_from(part_payload(p)) =~= p);
}

/// A message that waited comes back as it was.
pub proof fn waiting_message_reads_back(n: NativeV, session: Seq<char>)
    requires
        forall|i: int| 0 <= i < n.content_parts.len() ==> is_whole(#[trigger] n.content_parts[i]),
    ensures
        native_from(n.channel_id, native_payload(n, session)) == Ok::<NativeV, ErrorV>(
            NativeV { session_id: Some(session), ..n },
        ),
{
    reveal_strlit("channel_id");
    reveal_strlit("sender_id");
    reveal_strlit("session_id");
    reveal_strlit("content_parts");
    reveal_strlit("meta");
    assert("channel_id"@[0] != "session_id"@[0]);
    assert("channel_id"@.len() == 10 && "sender_id"@.len() == 9 && "session_id"@.len() == 10);
    assert("content_parts"@.len() == 13 && "meta"@.len() == 4);
    let v = native_payload(n, session);
    let m = v->Object_0;
    let f = |p: PartV| part_payload(p);
    let g = |p: JsonV| part_from(p);
    crate::table::first_entry(m, "sender_id"@, 1);
    crate::table::first_entry(m, "session_id"@, 2);
    crate::table::first_entry(m, "content_parts"@, 3);
    crate::table::first_entry(m, "meta"@, 4);
    let parts = n.content_parts.map_values(f).map_values(g);
    assert(parts =~= n.content_parts) by {
        assert forall|i: int| 0 <= i < n.content_parts.len() implies #[trigger] parts[i]
            == n.content_parts[i] by {
            part_reads_back(n.content_parts[i]);
        }
    }
    assert(native_from(n.channel_id, v)->Ok_0 =~= NativeV { session_id: Some(session), ..n });
}

proof fn item_parts_are_whole(items: Seq<JsonV>)
    ensures
        forall|i: int| 0 <= i < item_parts(items).len() ==> is_whole(#[trigger] item_parts(items)[i]),
    decreases items.len(),
{
    if items.len() > 0 {
        item_parts_are_whole(items.drop_last());
        let rest = item_parts(items.drop_last());
        assert forall|i: int| 0 <= i < item_parts(items).len() implies is_whole(
            #[trigger] item_parts(items)[i],
        ) by {
            if i < rest.len() {
                assert(item_parts(items)[i] == rest[i]);
            } else {
                assert(Some(item_parts(items)[i]) == item_part(items.last()));
            }
        }
    }
}

/// What a user sent is not changed by waiting its turn.
pub proof fn inbound_message_reads_back(
    msg: JsonV,
    shown: Seq<char>,
    account_id: Seq<char>,
    channel_id: Seq<char>,
)
    requires
        inbound(msg, shown, account_id, channel_id) is Some,
    ensures
        ({
            let n = inbound(msg, shown, account_id, channel_id)->0;
            native_from(channel_id, native_payload(n, session_of(n))) == Ok::<NativeV, ErrorV>(n)
        }),
{
    let n = inbound(msg, shown, account_id, channel_id)->0;
    let items = crate::json::elements_field(msg, "item_list"@)->0;
    item_parts_are_whole(items);
    waiting_message_reads_back(n, session_of(n));
    assert(NativeV { session_id: Some(session_of(n)), ..n } =~= n);
}

/// A message that was taken is not taken a second time.
pub proof fn message_is_taken_once(
    s: RunnerV,
    reg: RegistryV,
    msg: JsonV,
    shown: Seq<char>,
    now: u64,
    later: u64,
)
    requires
        intake(s, reg, msg, shown, now).2 is Taken,
        message_id_of(msg, shown).len() > 0,
    ensures
        ({
            let (s2, reg2, _) = intake(s, reg, msg, shown, now);
            !(intake(s2, reg2, msg, shown, later).2 is Taken)
        }),
{
    let n = inbound(msg, shown, s.account_id, s.channel_id)->0;
    let id = message_id_of(msg, shown);
    let meta = inbound_meta(msg, shown, s.account_id);
    assert(meta[0] == ("message_id"@, JsonV::Str(id)));
    crate::table::first_entry(meta, "message_id"@, 0);
    assert(text_or_empty(n.meta, "message_id"@) == id);
    let t = with_token_of(s, n);
    last_ids_hold_the_latest(t.dedup_ids, id);
}

/// A message that comes to a runner that answers at once is no message of a user, ends the runner
/// because another account runs the same bot, or is answered at once. None waits its turn, and none
/// is passed over because something like it came before.
pub proof fn inline_messages_are_answered_at_once(
    s: RunnerV,
    reg: RegistryV,
    msg: JsonV,
    shown: Seq<char>,
    now: u64,
)
    requires
        s.inline_images,
    ensures
        match intake(s, reg, msg, shown, now).2 {
            IntakeV::Ignored => inbound(msg, shown, s.account_id, s.channel_id) is None,
            IntakeV::Merged(_) => true,
            IntakeV::Inline(n, _) => inbound(msg, shown, s.account_id, s.channel_id) == Some(n),
            _ => false,
        },
        intake(s, reg, msg, shown, now).0.inline_images,
{
}

/// Taking in a message leaves the cursor where it was.
pub proof fn taking_in_leaves_the_cursor(
    s: RunnerV,
    reg: RegistryV,
    msg: JsonV,
    shown: Seq<char>,
    now: u64,
)
    ensures
        intake(s, reg, msg, shown, now).0.cursor == s.cursor,
{
}

/// The cursor of a poll is kept, by the runner and to be saved, exactly when all messages of the poll
/// are worked off. Until then, and where the runner stops before, the old cursor stays.
pub proof fn cursor_moves_once_all_is_worked_off(
    s: RunnerV,
    data: JsonV,
    events: Seq<PollEvent>,
)
    requires
        in_order(events),
    ensures
        cursor_to_keep(after(events).1, data) == if finishes(events) {
            cursor_in(data)
        } else {
            None
        },
        moved_on(s, after(events).1, data).cursor == match cursor_in(data) {
            Some(c) => if finishes(events) {
                c
            } else {
                s.cursor
            },
            None => s.cursor,
        },
{
    cursor_is_kept_once_all_is_worked_off(events);
}

} // verus!
