//! From a message of Telegram to a message of the gateway.

use vstd::prelude::*;

use crate::json::{get_entry_bool_or, push_field, integer_view, truth_of_or, Json, JsonV, Members};
use crate::pipeline::{NativeMessage, NativeV};
use crate::regexes::{escape_pattern, escaped_pattern, pattern_replaced, replace_matches};
use crate::strs::{
    ascii_lowered, byte_slice, concat2, decimal, eq_ignore_ascii_case, get_bytes, i64_string,
    signed_decimal, trim, trimmed, u64_string,
};
use crate::types::{text_part_view, ChannelPart, PartKind, PartV};

verus! {

/// Who a bot is.
#[derive(Debug)]
pub struct BotIdentity {
    pub id: u64,
    pub username: String,
}

/// What an entity of a text is.
#[derive(Debug, Clone, Copy, PartialEq, Eq, Structural)]
pub enum EntityKind {
    BotCommand,
    Mention,
    /// A user without a name that can be mentioned.
    TextMention(u64),
    Other,
}

/// A stretch of a text, in bytes.
#[derive(Debug, Clone, Copy, PartialEq, Eq, Structural)]
pub struct Entity {
    pub kind: EntityKind,
    pub offset: usize,
    pub length: usize,
}

/// Who sent a message.
#[derive(Debug)]
pub struct Sender {
    pub id: u64,
    pub username: Option<String>,
}

/// A file that came with a message.
#[derive(Debug)]
pub struct Attachment {
    pub file_id: String,
    pub file_name: Option<String>,
}

/// A message of Telegram.
#[derive(Debug)]
pub struct TelegramMessage {
    pub chat_id: i64,
    /// Whether the chat is a group, a supergroup or a channel.
    pub is_group: bool,
    pub from: Option<Sender>,
    pub message_id: i32,
    pub thread_id: Option<i32>,
    pub text: Option<String>,
    pub caption: Option<String>,
    pub entities: Option<Vec<Entity>>,
    pub caption_entities: Option<Vec<Entity>>,
    /// The sizes of a photo, the largest last.
    pub photo: Option<Vec<String>>,
    pub document: Option<Attachment>,
    pub video: Option<Attachment>,
    pub voice: Option<Attachment>,
    pub audio: Option<Attachment>,
}

/// Whether a message is for the bot: it came to the bot alone, or nothing asks for a mention, or
/// it mentions the bot or commands it.
pub open spec fn addresses_bot(require_mention: bool, is_group: bool, meta: Members) -> bool {
    ||| !is_group
    ||| !require_mention
    ||| truth_of_or(meta, "bot_mentioned"@, false)
    ||| truth_of_or(meta, "has_bot_command"@, false)
}

/// Whether a message is for the bot.
pub fn check_group_mention(
    require_mention: bool,
    is_group: bool,
    meta: &Vec<(String, Json)>,
) -> (r: bool)
    ensures
        r == addresses_bot(require_mention, is_group, meta.deep_view()),
{
    if !is_group || !require_mention {
        return true;
    }
    get_entry_bool_or(meta, "bot_mentioned", false) || get_entry_bool_or(
        meta,
        "has_bot_command",
        false,
    )
}

// ---------------------------------------------------------------------------------------------
// Text and mentions
// ---------------------------------------------------------------------------------------------

/// The text of a message, or what is written under its picture.
pub open spec fn said(m: TelegramMessage) -> Seq<char> {
    match m.text {
        Some(t) => t@,
        None => match m.caption {
            Some(c) => c@,
            None => Seq::empty(),
        },
    }
}

/// The entities of a message.
pub open spec fn entities_of(m: TelegramMessage) -> Seq<Entity> {
    match m.entities {
        Some(e) => e@,
        None => match m.caption_entities {
            Some(e) => e@,
            None => Seq::empty(),
        },
    }
}

/// The end of an entity that may mention the bot is a number that a `usize` holds.
pub open spec fn entity_ends(e: Entity, username: Seq<char>) -> bool {
    e.kind == EntityKind::Mention && username.len() > 0 ==> e.offset + e.length <= usize::MAX
}

/// The ends of the entities that may mention the bot are numbers that a `usize` holds.
pub open spec fn entities_end(es: Seq<Entity>, username: Seq<char>) -> bool {
    forall|i: int| 0 <= i < es.len() ==> entity_ends(#[trigger] es[i], username)
}

/// Whether an entity mentions the bot.
pub open spec fn mentions(text: Seq<char>, e: Entity, id: u64, username: Seq<char>) -> bool {
    match e.kind {
        EntityKind::Mention => username.len() > 0 && match byte_slice(
            text,
            e.offset as nat,
            (e.offset + e.length) as nat,
        ) {
            Some(m) => ascii_lowered(m) == ascii_lowered("@"@ + username),
            None => false,
        },
        EntityKind::TextMention(user) => user == id,
        _ => false,
    }
}

/// Whether some entity commands the bot.
pub open spec fn commanded(es: Seq<Entity>) -> bool {
    exists|i: int| 0 <= i < es.len() && (#[trigger] es[i]).kind == EntityKind::BotCommand
}

/// Whether some entity mentions the bot.
pub open spec fn mentioned(text: Seq<char>, es: Seq<Entity>, id: u64, username: Seq<char>) -> bool {
    exists|i: int| 0 <= i < es.len() && mentions(text, #[trigger] es[i], id, username)
}

fn entity_mentions(text: &str, e: Entity, identity: &BotIdentity) -> (r: bool)
    requires
        entity_ends(e, identity.username@),
    ensures
        r == mentions(text@, e, identity.id, identity.username@),
{
    match e.kind {
        EntityKind::Mention => {
            if identity.username.as_str().is_empty() {
                return false;
            }
            let name: String = concat2("@", identity.username.as_str());
            match get_bytes(text, e.offset, e.offset + e.length) {
                Some(m) => eq_ignore_ascii_case(m.as_str(), name.as_str()),
                None => false,
            }
        },
        EntityKind::TextMention(user) => user == identity.id,
        _ => false,
    }
}

fn scan_entities(text: &str, es: &Vec<Entity>, identity: &BotIdentity) -> (r: (bool, bool))
    requires
        entities_end(es@, identity.username@),
    ensures
        r.0 == commanded(es@),
        r.1 == mentioned(text@, es@, identity.id, identity.username@),
{
    let mut command: bool = false;
    let mut mention: bool = false;
    let mut i: usize = 0;
    while i < es.len()
        invariant
            i <= es@.len(),
            entities_end(es@, identity.username@),
            command == exists|k: int|
                0 <= k < i && (#[trigger] es@[k]).kind == EntityKind::BotCommand,
            mention == exists|k: int|
                0 <= k < i && mentions(
                    text@,
                    #[trigger] es@[k],
                    identity.id,
                    identity.username@,
                ),
        decreases es@.len() - i,
    {
        let e: Entity = es[i];
        assert(e == es@[i as int]);
        if e.kind == EntityKind::BotCommand {
            command = true;
        }
        if entity_mentions(text, e, identity) {
            mention = true;
        }
        i = i + 1;
    }
    (command, mention)
}

/// The text of a message, trimmed, whether it commands a bot, and whether it mentions this one.
pub fn extract_text_and_mentions(msg: &TelegramMessage, identity: &BotIdentity) -> (r: (
    String,
    bool,
    bool,
))
    requires
        entities_end(entities_of(*msg), identity.username@),
    ensures
        r.0@ == trimmed(said(*msg)),
        r.1 == commanded(entities_of(*msg)),
        r.2 == mentioned(said(*msg), entities_of(*msg), identity.id, identity.username@),
{
    let text: String = match &msg.text {
        Some(t) => t.clone(),
        None => match &msg.caption {
            Some(c) => c.clone(),
            None => String::new(),
        },
    };
    let none: Vec<Entity> = Vec::new();
    let es: &Vec<Entity> = match &msg.entities {
        Some(e) => e,
        None => match &msg.caption_entities {
            Some(e) => e,
            None => &none,
        },
    };
    assert(es@ == entities_of(*msg));
    let flags: (bool, bool) = scan_entities(text.as_str(), es, identity);
    (trim(text.as_str()).to_owned(), flags.0, flags.1)
}

/// Whether the entities of a message can be read: the ends of those that may mention the bot are
/// numbers that a `usize` holds.
pub fn entities_fit(msg: &TelegramMessage, identity: &BotIdentity) -> (r: bool)
    ensures
        r == entities_end(entities_of(*msg), identity.username@),
{
    let none: Vec<Entity> = Vec::new();
    let es: &Vec<Entity> = match &msg.entities {
        Some(e) => e,
        None => match &msg.caption_entities {
            Some(e) => e,
            None => &none,
        },
    };
    assert(es@ == entities_of(*msg));
    if identity.username.as_str().is_empty() {
        return true;
    }
    let mut i: usize = 0;
    while i < es.len()
        invariant
            i <= es@.len(),
            forall|k: int| 0 <= k < i ==> entity_ends(#[trigger] es@[k], identity.username@),
            es@ == entities_of(*msg),
            identity.username@.len() > 0,
        decreases es@.len() - i,
    {
        if es[i].kind == EntityKind::Mention && es[i].offset > usize::MAX - es[i].length {
            assert(!entity_ends(es@[i as int], identity.username@));
            return false;
        }
        i = i + 1;
    }
    true
}

/// The pattern that matches a mention of the bot.
pub open spec fn mention_pattern(username: Seq<char>) -> Seq<char> {
    "(?i)@"@ + escaped_pattern(username)
}

/// The text of a message without the mentions of the bot, where `removed` is what is left of it
/// without them.
pub open spec fn without_mentions(
    text: Seq<char>,
    is_mentioned: bool,
    username: Seq<char>,
    removed: Option<Seq<char>>,
) -> Seq<char> {
    if is_mentioned && username.len() > 0 && text.len() > 0 {
        match removed {
            Some(t) => trimmed(t),
            None => text,
        }
    } else {
        text
    }
}

/// The text of a message without the mentions of the bot, where `removed` is what is left of it
/// without them.
pub fn drop_mentions(text: String, is_mentioned: bool, username: &str, removed: Option<String>) -> (r:
    String)
    ensures
        r@ == without_mentions(text@, is_mentioned, username@, removed.deep_view()),
{
    if is_mentioned && !username.is_empty() && !text.as_str().is_empty() {
        if let Some(t) = removed {
            return trim(t.as_str()).to_owned();
        }
    }
    text
}

fn remove_mentions(text: &str, username: &str) -> (r: Option<String>)
    ensures
        r.deep_view() == pattern_replaced(mention_pattern(username@), text@, ""@),
{
    let name: String = escape_pattern(username);
    let pattern: String = concat2("(?i)@", name.as_str());
    replace_matches(pattern.as_str(), text, "")
}

// ---------------------------------------------------------------------------------------------
// Files
// ---------------------------------------------------------------------------------------------

/// A file to be fetched.
#[derive(Debug)]
pub struct FileWish {
    pub file_id: String,
    pub hint: String,
    pub kind: PartKind,
}

/// What a wish holds.
#[verifier::ext_equal]
pub struct WishV {
    pub file_id: Seq<char>,
    pub hint: Seq<char>,
    pub kind: PartKind,
}

impl View for FileWish {
    type V = WishV;

    open spec fn view(&self) -> WishV {
        WishV { file_id: self.file_id@, hint: self.hint@, kind: self.kind }
    }
}

impl DeepView for FileWish {
    type V = WishV;

    open spec fn deep_view(&self) -> WishV {
        self@
    }
}

/// The wish for a file, where there is one. Its own name is the hint, where `named`.
pub open spec fn wish(a: Option<Attachment>, named: bool, hint: Seq<char>, kind: PartKind) -> Seq<
    WishV,
> {
    match a {
        Some(a) => seq![
            WishV {
                file_id: a.file_id@,
                hint: match a.file_name {
                    Some(n) => if named {
                        n@
                    } else {
                        hint
                    },
                    None => hint,
                },
                kind: kind,
            },
        ],
        None => Seq::empty(),
    }
}

/// The wish for the largest size of a photo.
pub open spec fn photo_wish(p: Option<Vec<String>>) -> Seq<WishV> {
    match p {
        Some(sizes) => if sizes@.len() > 0 {
            seq![WishV { file_id: sizes@.last()@, hint: "photo.jpg"@, kind: PartKind::Image }]
        } else {
            Seq::empty()
        },
        None => Seq::empty(),
    }
}

/// The files of a message, in the order in which they become parts.
pub open spec fn wishes(m: TelegramMessage) -> Seq<WishV> {
    photo_wish(m.photo) + wish(m.document, true, "document"@, PartKind::File) + wish(
        m.video,
        false,
        "video.mp4"@,
        PartKind::Video,
    ) + wish(m.voice, false, "voice.ogg"@, PartKind::Audio) + wish(
        m.audio,
        true,
        "audio.mp3"@,
        PartKind::Audio,
    )
}

fn push_wish(
    out: &mut Vec<FileWish>,
    a: &Option<Attachment>,
    named: bool,
    hint: &str,
    kind: PartKind,
)
    ensures
        final(out).deep_view() == old(out).deep_view() + wish(*a, named, hint@, kind),
{
    let ghost before = out.deep_view();
    match a {
        Some(x) => {
            let own: String = match &x.file_name {
                Some(n) => {
                    if named {
                        n.clone()
                    } else {
                        hint.to_owned()
                    }
                },
                None => hint.to_owned(),
            };
            let w: FileWish = FileWish { file_id: x.file_id.clone(), hint: own, kind: kind };
            out.push(w);
            assert(out.deep_view() =~= before + seq![w@]);
        },
        None => {
            assert(before + Seq::<WishV>::empty() =~= before);
        },
    }
}

/// The files of a message, in the order in which they become parts.
pub fn files_wanted(msg: &TelegramMessage) -> (r: Vec<FileWish>)
    ensures
        r.deep_view() == wishes(*msg),
{
    let mut out: Vec<FileWish> = Vec::new();
    assert(out.deep_view() =~= Seq::<WishV>::empty());
    if let Some(sizes) = &msg.photo {
        if sizes.len() > 0 {
            let w: FileWish = FileWish {
                file_id: sizes[sizes.len() - 1].clone(),
                hint: "photo.jpg".to_owned(),
                kind: PartKind::Image,
            };
            out.push(w);
            assert(out.deep_view() =~= seq![w@]);
        }
    }
    push_wish(&mut out, &msg.document, true, "document", PartKind::File);
    push_wish(&mut out, &msg.video, false, "video.mp4", PartKind::Video);
    push_wish(&mut out, &msg.voice, false, "voice.ogg", PartKind::Audio);
    push_wish(&mut out, &msg.audio, true, "audio.mp3", PartKind::Audio);
    out
}

/// A file that was fetched: what it is, and its URL here.
#[derive(Debug)]
pub struct FetchedFile {
    pub kind: PartKind,
    pub uri: String,
}

/// The part for a file.
pub open spec fn file_part(kind: PartKind, uri: Seq<char>) -> PartV {
    PartV { kind: kind, url: uri, ..text_part_view(Seq::empty()) }
}

/// The parts for the files that were fetched.
pub open spec fn file_parts(files: Seq<FetchedFile>) -> Seq<PartV> {
    files.map_values(|f: FetchedFile| file_part(f.kind, f.uri@))
}

// ---------------------------------------------------------------------------------------------
// The message
// ---------------------------------------------------------------------------------------------

/// The sender of a message; the chat where there is none.
pub open spec fn sender_of(m: TelegramMessage) -> Seq<char> {
    match m.from {
        Some(s) => decimal(s.id as nat),
        None => signed_decimal(m.chat_id as int),
    }
}

/// The name of the sender of a message.
pub open spec fn sender_name(m: TelegramMessage) -> Seq<char> {
    match m.from {
        Some(s) => match s.username {
            Some(n) => n@,
            None => Seq::empty(),
        },
        None => Seq::empty(),
    }
}

/// What is known of a message besides its parts.
pub open spec fn meta_of(
    m: TelegramMessage,
    id: u64,
    username: Seq<char>,
    account_id: Seq<char>,
) -> Members {
    let base = seq![
        ("account_id"@, JsonV::Str(account_id)),
        ("bot_user_id"@, JsonV::Str(decimal(id as nat))),
        ("bot_username"@, JsonV::Str(username)),
        ("chat_id"@, JsonV::Str(signed_decimal(m.chat_id as int))),
        ("user_id"@, JsonV::Str(sender_of(m))),
        ("username"@, JsonV::Str(sender_name(m))),
        ("is_group"@, JsonV::Bool(m.is_group)),
        ("message_id"@, integer_view(m.message_id as i64)),
        ("has_bot_command"@, JsonV::Bool(commanded(entities_of(m)))),
        ("bot_mentioned"@, JsonV::Bool(mentioned(said(m), entities_of(m), id, username))),
    ];
    match m.thread_id {
        Some(t) => base.push(("message_thread_id"@, integer_view(t as i64))),
        None => base,
    }
}

/// A message of Telegram as a message of the gateway, where `text` is its text without mentions;
/// `None` where nothing is in it.
pub open spec fn native_of(
    m: TelegramMessage,
    text: Seq<char>,
    files: Seq<FetchedFile>,
    id: u64,
    username: Seq<char>,
    account_id: Seq<char>,
    channel_id: Seq<char>,
) -> Option<NativeV> {
    let parts = (if text.len() > 0 {
        seq![text_part_view(text)]
    } else {
        Seq::empty()
    }) + file_parts(files);
    if parts.len() == 0 {
        None
    } else {
        Some(
            NativeV {
                channel_id: channel_id,
                sender_id: sender_of(m),
                session_id: Some(
                    "telegram:"@ + account_id + ":chat:"@ + signed_decimal(m.chat_id as int),
                ),
                content_parts: parts,
                meta: meta_of(m, id, username, account_id),
            },
        )
    }
}

fn sender_text(msg: &TelegramMessage) -> (r: String)
    ensures
        r@ == sender_of(*msg),
{
    match &msg.from {
        Some(s) => u64_string(s.id),
        None => i64_string(msg.chat_id),
    }
}

fn build_meta(
    msg: &TelegramMessage,
    identity: &BotIdentity,
    account_id: &str,
    has_bot_command: bool,
    bot_mentioned: bool,
) -> (r: Vec<(String, Json)>)
    requires
        has_bot_command == commanded(entities_of(*msg)),
        bot_mentioned == mentioned(said(*msg), entities_of(*msg), identity.id, identity.username@),
    ensures
        r.deep_view() == meta_of(*msg, identity.id, identity.username@, account_id@),
{
    let bot: String = u64_string(identity.id);
    let chat: String = i64_string(msg.chat_id);
    let user: String = sender_text(msg);
    let name: String = match &msg.from {
        Some(s) => match &s.username {
            Some(n) => n.clone(),
            None => String::new(),
        },
        None => String::new(),
    };
    let mut m: Vec<(String, Json)> = Vec::new();
    assert(m.deep_view() =~= Seq::<(Seq<char>, JsonV)>::empty());
    push_field(&mut m, "account_id", Json::text(account_id));
    push_field(&mut m, "bot_user_id", Json::text(bot.as_str()));
    push_field(&mut m, "bot_username", Json::text(identity.username.as_str()));
    push_field(&mut m, "chat_id", Json::text(chat.as_str()));
    push_field(&mut m, "user_id", Json::text(user.as_str()));
    push_field(&mut m, "username", Json::text(name.as_str()));
    push_field(&mut m, "is_group", Json::Bool(msg.is_group));
    push_field(&mut m, "message_id", Json::integer(msg.message_id as i64));
    push_field(&mut m, "has_bot_command", Json::Bool(has_bot_command));
    push_field(&mut m, "bot_mentioned", Json::Bool(bot_mentioned));
    if let Some(t) = msg.thread_id {
        push_field(&mut m, "message_thread_id", Json::integer(t as i64));
    }
    assert(m.deep_view() =~= meta_of(*msg, identity.id, identity.username@, account_id@));
    m
}

/// A message of Telegram as a message of the gateway, where `text` is its text without mentions.
pub fn build_native(
    msg: &TelegramMessage,
    text: String,
    files: &Vec<FetchedFile>,
    identity: &BotIdentity,
    account_id: &str,
    channel_id: &str,
) -> (r: Option<NativeMessage>)
    requires
        entities_end(entities_of(*msg), identity.username@),
    ensures
        match r {
            Some(n) => native_of(
                *msg,
                text@,
                files@,
                identity.id,
                identity.username@,
                account_id@,
                channel_id@,
            ) == Some(n@),
            None => native_of(
                *msg,
                text@,
                files@,
                identity.id,
                identity.username@,
                account_id@,
                channel_id@,
            ) is None,
        },
{
    let mut parts: Vec<ChannelPart> = Vec::new();
    assert(parts.deep_view() =~= Seq::<PartV>::empty());
    if !text.as_str().is_empty() {
        let p: ChannelPart = ChannelPart::text_part(text.as_str());
        parts.push(p);
        assert(parts.deep_view() =~= seq![text_part_view(text@)]);
    }
    let ghost first = parts.deep_view();
    let ghost f = |f: FetchedFile| file_part(f.kind, f.uri@);
    let mut i: usize = 0;
    assert(parts.deep_view() =~= first + files@.take(0).map_values(f));
    while i < files.len()
        invariant
            i <= files@.len(),
            f == |f: FetchedFile| file_part(f.kind, f.uri@),
            parts.deep_view() == first + files@.take(i as int).map_values(f),
        decreases files@.len() - i,
    {
        let ghost before = parts.deep_view();
        let mut p: ChannelPart = ChannelPart::default();
        p.kind = files[i].kind;
        p.url = files[i].uri.clone();
        parts.push(p);
        proof {
            assert(parts.deep_view() =~= before.push(p@));
            assert(files@.take(i + 1) =~= files@.take(i as int).push(files@[i as int]));
            assert(first + files@.take(i + 1).map_values(f) =~= (first + files@.take(
                i as int,
            ).map_values(f)).push(f(files@[i as int])));
        }
        i = i + 1;
    }
    assert(files@.take(files@.len() as int) == files@);
    assert(parts.deep_view().len() == parts@.len());
    if parts.len() == 0 {
        return None;
    }
    let (_, has_bot_command, bot_mentioned): (String, bool, bool) = extract_text_and_mentions(
        msg,
        identity,
    );
    let meta: Vec<(String, Json)> = build_meta(
        msg,
        identity,
        account_id,
        has_bot_command,
        bot_mentioned,
    );
    let chat: String = i64_string(msg.chat_id);
    let mut session: String = "telegram:".to_owned();
    session.append(account_id);
    session.append(":chat:");
    session.append(chat.as_str());
    Some(
        NativeMessage {
            channel_id: channel_id.to_owned(),
            sender_id: sender_text(msg),
            session_id: Some(session),
            content_parts: parts,
            meta: meta,
        },
    )
}

/// A message of Telegram as a message of the gateway, with the files that were fetched for it;
/// `None` where nothing is in it.
pub fn build_native_from_message(
    msg: &TelegramMessage,
    files: &Vec<FetchedFile>,
    identity: &BotIdentity,
    account_id: &str,
    channel_id: &str,
) -> (r: Option<NativeMessage>)
    requires
        entities_end(entities_of(*msg), identity.username@),
    ensures
        ({
            let whole = trimmed(said(*msg));
            let text = without_mentions(
                whole,
                mentioned(said(*msg), entities_of(*msg), identity.id, identity.username@),
                identity.username@,
                pattern_replaced(mention_pattern(identity.username@), whole, ""@),
            );
            native_of(
                *msg,
                text,
                files@,
                identity.id,
                identity.username@,
                account_id@,
                channel_id@,
            ) == (match r {
                Some(n) => Some(n@),
                None => None,
            })
        }),
{
    let (text, _, bot_mentioned): (String, bool, bool) = extract_text_and_mentions(msg, identity);
    let removed: Option<String> = remove_mentions(text.as_str(), identity.username.as_str());
    let text: String = drop_mentions(text, bot_mentioned, identity.username.as_str(), removed);
    build_native(msg, text, files, identity, account_id, channel_id)
}

} // verus!
