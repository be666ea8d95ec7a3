//! Laws of the Telegram channel: what comes in is handed on with the chat that it came from, answers
//! go back there whole, and a lost connection is taken up again in good time.

use vstd::prelude::*;

use crate::error::ErrorV;
use crate::json::{field, signed, text_field, text_of, truth_of_or, JsonV, Members, NumberV};
use crate::pipeline::ReplyV;
use crate::platforms::runners::pruned_runners_are_in_use;
use crate::platforms::telegram::channel::{
    active_ids, configured_tokens, health, listed, listing, media_dir_of, pruned, start_plan,
    ChannelV,
};
use crate::platforms::telegram::debounce::{debounced, is_media, is_said, speaks};
use crate::platforms::telegram::format_html::{plain_text, telegram_html};
use crate::platforms::telegram::inbound::{
    addresses_bot, commanded, entities_of, file_parts, mentioned, mentions, meta_of, native_of,
    said, wishes, without_mentions, Entity, EntityKind, FetchedFile, TelegramMessage,
};
use crate::platforms::telegram::polling::{planned, ReconnectCounters};
use crate::platforms::telegram::registry::{AccountStatus, EntryV};
use crate::platforms::telegram::send::{
    chat_of, edited, edited_plain, media_steps, method_of, prefixed, reply_steps, source_of,
    stream_prefix, text_steps, thread_of, MediaMethod, SourceV, StepV,
};
use crate::platforms::telegram::stream::{completed_steps, edit_due, shown, SinkV};
use crate::strs::{
    byte_len, byte_slice, decimal, occurs_at, signed_decimal, signed_reads_back, trimmed,
};
use crate::table::{first_entry, lookup, no_entry, without_entry_lookup};
use crate::types::{PartKind, PartV};
use crate::urls::UrlV;
use vstd::arithmetic::power2::{lemma2_to64, lemma_pow2_strictly_increases, pow2};

verus! {

// ---------------------------------------------------------------------------------------------
// What comes in
// ---------------------------------------------------------------------------------------------

/// What is kept beside a message names its chat, thread and sender, the account and the bot, and
/// whether it was written in a group and to the bot; the sender of answers finds the chat and the
/// thread in it.
pub proof fn messages_name_their_chat(
    m: TelegramMessage,
    id: u64,
    username: Seq<char>,
    account: Seq<char>,
)
    ensures
        ({
            let meta = meta_of(m, id, username, account);
            &&& text_of(meta, "account_id"@) == Some(account)
            &&& text_of(meta, "bot_user_id"@) == Some(decimal(id as nat))
            &&& text_of(meta, "bot_username"@) == Some(username)
            &&& text_of(meta, "chat_id"@) == Some(signed_decimal(m.chat_id as int))
            &&& chat_of(meta) == Some(m.chat_id as int)
            &&& m.thread_id is None ==> thread_of(meta) is None
            &&& m.thread_id matches Some(t) ==> thread_of(meta) == Some(t)
            &&& m.from matches Some(s) ==> text_of(meta, "user_id"@) == Some(decimal(s.id as nat))
            &&& truth_of_or(meta, "is_group"@, !m.is_group) == m.is_group
            &&& truth_of_or(meta, "bot_mentioned"@, false) == mentioned(
                said(m),
                entities_of(m),
                id,
                username,
            )
            &&& truth_of_or(meta, "has_bot_command"@, false) == commanded(entities_of(m))
            &&& lookup(meta, "message_id"@) matches Some(v) && signed(v) == Some(m.message_id as i64)
        }),
{
    let meta = meta_of(m, id, username, account);
    reveal_strlit("account_id");
    reveal_strlit("bot_user_id");
    reveal_strlit("bot_username");
    reveal_strlit("chat_id");
    reveal_strlit("user_id");
    reveal_strlit("username");
    reveal_strlit("is_group");
    reveal_strlit("message_id");
    reveal_strlit("has_bot_command");
    reveal_strlit("bot_mentioned");
    reveal_strlit("message_thread_id");
    assert("account_id"@.len() != "bot_user_id"@.len());
    assert("account_id"@.len() != "bot_username"@.len());
    assert("account_id"@.len() != "chat_id"@.len());
    assert("account_id"@.len() != "user_id"@.len());
    assert("account_id"@.len() != "username"@.len());
    assert("account_id"@.len() != "is_group"@.len());
    assert("account_id"@[0] != "message_id"@[0]);
    assert("account_id"@.len() != "has_bot_command"@.len());
    assert("account_id"@.len() != "bot_mentioned"@.len());
    assert("account_id"@.len() != "message_thread_id"@.len());
    assert("bot_user_id"@.len() != "bot_username"@.len());
    assert("bot_user_id"@.len() != "chat_id"@.len());
    assert("bot_user_id"@.len() != "user_id"@.len());
    assert("bot_user_id"@.len() != "username"@.len());
    assert("bot_user_id"@.len() != "is_group"@.len());
    assert("bot_user_id"@.len() != "message_id"@.len());
    assert("bot_user_id"@.len() != "has_bot_command"@.len());
    assert("bot_user_id"@.len() != "bot_mentioned"@.len());
    assert("bot_user_id"@.len() != "message_thread_id"@.len());
    assert("bot_username"@.len() != "chat_id"@.len());
    assert("bot_username"@.len() != "user_id"@.len());
    assert("bot_username"@.len() != "username"@.len());
    assert("bot_username"@.len() != "is_group"@.len());
    assert("bot_username"@.len() != "message_id"@.len());
    assert("bot_username"@.len() != "has_bot_command"@.len());
    assert("bot_username"@.len() != "bot_mentioned"@.len());
    assert("bot_username"@.len() != "message_thread_id"@.len());
    assert("chat_id"@[0] != "user_id"@[0]);
    assert("chat_id"@.len() != "username"@.len());
    assert("chat_id"@.len() != "is_group"@.len());
    assert("chat_id"@.len() != "message_id"@.len());
    assert("chat_id"@.len() != "has_bot_command"@.len());
    assert("chat_id"@.len() != "bot_mentioned"@.len());
    assert("chat_id"@.len() != "message_thread_id"@.len());
    assert("user_id"@.len() != "username"@.len());
    assert("user_id"@.len() != "is_group"@.len());
    assert("user_id"@.len() != "message_id"@.len());
    assert("user_id"@.len() != "has_bot_command"@.len());
    assert("user_id"@.len() != "bot_mentioned"@.len());
    assert("user_id"@.len() != "message_thread_id"@.len());
    assert("username"@[0] != "is_group"@[0]);
    assert("username"@.len() != "message_id"@.len());
    assert("username"@.len() != "has_bot_command"@.len());
    assert("username"@.len() != "bot_mentioned"@.len());
    assert("username"@.len() != "message_thread_id"@.len());
    assert("is_group"@.len() != "message_id"@.len());
    assert("is_group"@.len() != "has_bot_command"@.len());
    assert("is_group"@.len() != "bot_mentioned"@.len());
    assert("is_group"@.len() != "message_thread_id"@.len());
    assert("message_id"@.len() != "has_bot_command"@.len());
    assert("message_id"@.len() != "bot_mentioned"@.len());
    assert("message_id"@.len() != "message_thread_id"@.len());
    assert("has_bot_command"@.len() != "bot_mentioned"@.len());
    assert("has_bot_command"@.len() != "message_thread_id"@.len());
    assert("bot_mentioned"@.len() != "message_thread_id"@.len());
    assert(meta[0].0 == "account_id"@);
    assert(meta[1].0 == "bot_user_id"@);
    assert(meta[2].0 == "bot_username"@);
    assert(meta[3].0 == "chat_id"@);
    assert(meta[4].0 == "user_id"@);
    assert(meta[5].0 == "username"@);
    assert(meta[6].0 == "is_group"@);
    assert(meta[7].0 == "message_id"@);
    assert(meta[8].0 == "has_bot_command"@);
    assert(meta[9].0 == "bot_mentioned"@);
    first_entry(meta, "account_id"@, 0);
    first_entry(meta, "bot_user_id"@, 1);
    first_entry(meta, "bot_username"@, 2);
    first_entry(meta, "chat_id"@, 3);
    first_entry(meta, "user_id"@, 4);
    first_entry(meta, "username"@, 5);
    first_entry(meta, "is_group"@, 6);
    first_entry(meta, "message_id"@, 7);
    first_entry(meta, "has_bot_command"@, 8);
    first_entry(meta, "bot_mentioned"@, 9);
    signed_reads_back(m.chat_id);
    match m.thread_id {
        Some(t) => {
            assert(meta[10].0 == "message_thread_id"@);
            first_entry(meta, "message_thread_id"@, 10);
        },
        None => {
            no_entry(meta, "message_thread_id"@);
        },
    }
}

/// What a user writes is handed on: from the user, in the chat, the text first and then each file.
pub proof fn inbound_text_is_handed_on(
    m: TelegramMessage,
    text: Seq<char>,
    files: Seq<FetchedFile>,
    id: u64,
    username: Seq<char>,
    account: Seq<char>,
    channel: Seq<char>,
    i: int,
)
    ensures
        text.len() == 0 && files.len() == 0 ==> native_of(
            m,
            text,
            files,
            id,
            username,
            account,
            channel,
        ) is None,
        text.len() > 0 || files.len() > 0 ==> (native_of(
            m,
            text,
            files,
            id,
            username,
            account,
            channel,
        ) matches Some(n) && {
            let k: int = if text.len() > 0 {
                1
            } else {
                0
            };
            &&& n.channel_id == channel
            &&& m.from matches Some(s) ==> n.sender_id == decimal(s.id as nat)
            &&& m.from is None ==> n.sender_id == signed_decimal(m.chat_id as int)
            &&& n.session_id == Some(
                "telegram:"@ + account + ":chat:"@ + signed_decimal(m.chat_id as int),
            )
            &&& n.content_parts.len() == k + files.len()
            &&& text.len() > 0 ==> n.content_parts[0].kind == PartKind::Text
                && n.content_parts[0].text == text
            &&& 0 <= i < files.len() ==> n.content_parts[k + i].kind == files[i].kind
                && n.content_parts[k + i].url == files[i].uri@
            &&& n.meta == meta_of(m, id, username, account)
        }),
{
    assert(file_parts(files).len() == files.len());
}

/// A text is the text of the message, or else that under its picture.
pub proof fn text_comes_before_caption(m: TelegramMessage)
    ensures
        m.text matches Some(t) ==> said(m) == t@,
        m.text is None ==> (m.caption matches Some(c) ==> said(m) == c@),
        m.text is None && m.caption is None ==> said(m).len() == 0,
        m.entities matches Some(e) ==> entities_of(m) == e@,
{
}

/// The bot is mentioned by its name, in whatever case, or by its id; a command is a command.
pub proof fn bots_are_mentioned_by_name_or_id(
    text: Seq<char>,
    es: Seq<Entity>,
    i: int,
    id: u64,
    username: Seq<char>,
)
    requires
        0 <= i < es.len(),
    ensures
        es[i].kind == EntityKind::Mention && username.len() > 0 && byte_slice(
            text,
            es[i].offset as nat,
            (es[i].offset + es[i].length) as nat,
        ) == Some("@"@ + username) ==> mentioned(text, es, id, username),
        es[i].kind == EntityKind::TextMention(id) ==> mentioned(text, es, id, username),
        es.len() == 1 && es[i].kind == EntityKind::BotCommand ==> !mentioned(text, es, id, username),
        es.len() == 1 && es[i].kind == EntityKind::Other ==> !mentioned(text, es, id, username)
            && !commanded(es),
        es[i].kind == EntityKind::BotCommand ==> commanded(es),
        forall|other: u64|
            other != id && es.len() == 1 && es[i].kind == EntityKind::TextMention(other)
                ==> !mentioned(text, es, id, username),
{
    assert(es[i].kind == EntityKind::TextMention(id) ==> mentions(text, es[i], id, username));
    if es[i].kind == EntityKind::Mention && username.len() > 0 && byte_slice(
        text,
        es[i].offset as nat,
        (es[i].offset + es[i].length) as nat,
    ) == Some("@"@ + username) {
        assert(mentions(text, es[i], id, username));
    }
    if mentioned(text, es, id, username) {
        let k = choose|k: int| 0 <= k < es.len() && mentions(text, #[trigger] es[k], id, username);
        assert(es.len() == 1 ==> k == i);
    }
    if commanded(es) {
        let k = choose|k: int|
            0 <= k < es.len() && (#[trigger] es[k]).kind == EntityKind::BotCommand;
        assert(es.len() == 1 ==> k == i);
    }
}

/// In a group where the bot is to be mentioned, only messages that mention it or give it a command
/// are for it; every other message is.
pub proof fn groups_call_the_bot(meta: Members, require_mention: bool, is_group: bool)
    ensures
        !is_group ==> addresses_bot(require_mention, is_group, meta),
        !require_mention ==> addresses_bot(require_mention, is_group, meta),
        lookup(meta, "bot_mentioned"@) == Some(JsonV::Bool(true)) ==> addresses_bot(
            require_mention,
            is_group,
            meta,
        ),
        lookup(meta, "has_bot_command"@) == Some(JsonV::Bool(true)) ==> addresses_bot(
            require_mention,
            is_group,
            meta,
        ),
        is_group && require_mention && lookup(meta, "bot_mentioned"@) == Some(JsonV::Bool(false))
            && lookup(meta, "has_bot_command"@) == Some(JsonV::Bool(false)) ==> !addresses_bot(
            require_mention,
            is_group,
            meta,
        ),
{
}

/// A text that does not mention the bot stays as it is; one that does loses the mention and nothing
/// else.
pub proof fn only_mentions_are_dropped(
    text: Seq<char>,
    username: Seq<char>,
    left: Seq<char>,
    removed: Option<Seq<char>>,
)
    ensures
        without_mentions(text, false, username, removed) == text,
        text.len() > 0 && username.len() > 0 ==> without_mentions(text, true, username, Some(left))
            == trimmed(left),
        without_mentions(text, true, username, None) == text,
        without_mentions(text, true, Seq::empty(), removed) == text,
{
}

/// Every file of a message is asked for, by its id: a picture in its largest size, and the others as
/// they are.
pub proof fn files_are_asked_for(m: TelegramMessage)
    ensures
        m.photo is None && m.document is None && m.video is None && m.voice is None && m.audio is None
            ==> wishes(m).len() == 0,
        m.photo matches Some(sizes) && sizes@.len() > 0 && m.document is None && m.video is None
            && m.voice is None && m.audio is None ==> wishes(m).len() == 1 && wishes(m)[0].file_id
            == m.photo->0@.last()@ && wishes(m)[0].kind == PartKind::Image,
        m.photo is None && m.document is Some && m.video is None && m.voice is None && m.audio is None
            ==> wishes(m).len() == 1 && wishes(m)[0].file_id == (m.document->0).file_id@
            && wishes(m)[0].kind == PartKind::File,
        m.photo is None && m.document is None && m.video is Some && m.voice is None && m.audio is None
            ==> wishes(m).len() == 1 && wishes(m)[0].file_id == (m.video->0).file_id@
            && wishes(m)[0].kind == PartKind::Video,
        m.photo is None && m.document is None && m.video is None && m.voice is Some && m.audio is None
            ==> wishes(m).len() == 1 && wishes(m)[0].file_id == (m.voice->0).file_id@
            && wishes(m)[0].kind == PartKind::Audio,
        m.photo is None && m.document is None && m.video is None && m.voice is None && m.audio is Some
            ==> wishes(m).len() == 1 && wishes(m)[0].file_id == (m.audio->0).file_id@
            && wishes(m)[0].kind == PartKind::Audio,
{
}

/// A file without words waits for the words that follow it; words, pictures and other media do not
/// wait.
pub proof fn words_do_not_wait(parts: Seq<PartV>, i: int)
    requires
        0 <= i < parts.len(),
    ensures
        parts[i].kind == PartKind::Text && trimmed(parts[i].text).len() > 0 ==> speaks(parts),
        parts[i].kind == PartKind::Image || parts[i].kind == PartKind::Video || parts[i].kind
            == PartKind::File || parts[i].kind == PartKind::Audio ==> speaks(parts),
        parts.len() == 1 && parts[i].kind == PartKind::Text && trimmed(parts[i].text).len() == 0
            ==> !speaks(parts),
{
    assert(is_said(parts[i]) || is_media(parts[i]) ==> speaks(parts));
}

// ---------------------------------------------------------------------------------------------
// Answers
// ---------------------------------------------------------------------------------------------

/// An answer is sent whole, behind the prefix of the bot where there is one.
pub proof fn answers_are_sent_whole(prefix: Seq<char>, text: Seq<char>)
    ensures
        prefix.len() == 0 ==> prefixed(prefix, text) == text,
        prefix.len() > 0 ==> prefixed(prefix, text) == prefix + "  "@ + text,
        prefixed(prefix, text).skip(prefixed(prefix, text).len() - text.len()) == text,
        stream_prefix("message"@) + text == text,
        stream_prefix("reasoning"@) + text == "💭 "@ + text,
{
    reveal_strlit("message");
    reveal_strlit("reasoning");
    assert("message"@.len() != "reasoning"@.len());
    reveal_strlit("");
    let b = prefixed(prefix, text);
    assert(b.skip(b.len() - text.len()) =~= text);
    assert(stream_prefix("message"@) + text =~= text);
}

/// Every text and then every other part of an answer is sent, in order; an answer without parts is
/// its text.
pub proof fn every_part_is_sent(reply: ReplyV, p: PartV, more: Seq<PartV>)
    ensures
        p.kind == PartKind::Text && p.text.len() > 0 ==> text_steps(more.push(p)) == text_steps(
            more,
        ).push(StepV::Text(p.text)) && media_steps(more.push(p)) == media_steps(more),
        p.kind != PartKind::Text ==> media_steps(more.push(p)) == media_steps(more).push(
            StepV::Media(p),
        ) && text_steps(more.push(p)) == text_steps(more),
        text_steps(Seq::empty()).len() == 0,
        media_steps(Seq::empty()).len() == 0,
        text_steps(reply.parts).len() > 0 ==> reply_steps(reply) == text_steps(reply.parts)
            + media_steps(reply.parts),
        text_steps(reply.parts).len() == 0 && reply.text.len() > 0 ==> reply_steps(reply) == seq![
            StepV::Text(reply.text),
        ] + media_steps(reply.parts),
{
    assert(more.push(p).drop_last() =~= more);
    assert(more.push(p).last() == p);
    let t = text_steps(reply.parts);
    if t.len() > 0 {
        assert(t + Seq::<StepV>::empty() + media_steps(reply.parts) =~= t + media_steps(
            reply.parts,
        ));
    } else {
        assert(t =~= Seq::<StepV>::empty());
        assert(t + seq![StepV::Text(reply.text)] + media_steps(reply.parts) =~= seq![
            StepV::Text(reply.text),
        ] + media_steps(reply.parts));
    }
}

/// A text that was not shown as it grew is sent at the end, before all else.
pub proof fn unseen_text_is_sent(s: SinkV, reply: ReplyV)
    ensures
        !s.message_streamed && reply.text.len() > 0 ==> completed_steps(s, reply).len() > 0
            && completed_steps(s, reply)[0] == StepV::Text(reply.text) && completed_steps(
            s,
            reply,
        ).skip(1) == media_steps(reply.parts),
        reply.text.len() == 0 ==> completed_steps(s, reply) == media_steps(reply.parts),
{
    let m = media_steps(reply.parts);
    if !s.message_streamed && reply.text.len() > 0 {
        assert(completed_steps(s, reply).skip(1) =~= m);
    } else {
        assert(Seq::<StepV>::empty() + m =~= m);
    }
}

/// A message that is changed reads as its text, with its marks as HTML once it is whole; only a
/// blank one shows an hourglass.
pub proof fn changed_messages_read_as_their_text(text: Seq<char>)
    ensures
        trimmed(text).len() > 0 ==> edited(text, false) == text && edited(text, true)
            == telegram_html(text) && edited_plain(text) == plain_text(text),
        trimmed(text).len() == 0 ==> edited(text, true) == "⏳"@ && edited(text, false) == "⏳"@
            && edited_plain(text) == "⏳"@,
{
}

/// What is shown of a text as it grows is the text, or its end where it is too long for one message.
pub proof fn shown_text_is_the_end(text: Seq<char>)
    ensures
        byte_len(text) <= 4096 ==> shown(text) == text,
        byte_len(text) > 4096 && byte_slice(
            text,
            (byte_len(text) - 4092) as nat,
            byte_len(text),
        ) is Some ==> shown(text) == "..."@ + byte_slice(
            text,
            (byte_len(text) - 4092) as nat,
            byte_len(text),
        )->0,
{
}

/// A message is changed no sooner than a second and a half after the last change, and only while it
/// is shown.
pub proof fn changes_keep_their_distance(s: SinkV, st: Seq<char>, last: u64, now: u64)
    ensures
        lookup(s.last_edit, st) == Some(last) && now < last + 1500 ==> !edit_due(s, st, now),
        lookup(s.last_edit, st) == Some(last) && now >= last + 1500 && s.stream_enabled && lookup(
            s.message_ids,
            st,
        ) is Some ==> edit_due(s, st, now),
        lookup(s.last_edit, st) is None && s.stream_enabled && lookup(s.message_ids, st) is Some
            ==> edit_due(s, st, now),
        !s.stream_enabled ==> !edit_due(s, st, now),
        lookup(s.message_ids, st) is None ==> !edit_due(s, st, now),
{
}

/// A part is sent as what it is, from where it lies: a file from here, or an address that Telegram
/// fetches. Nothing else is sent.
pub proof fn media_is_sent_as_such(p: PartV, path: Seq<char>, u: UrlV, url: Seq<char>, e: Seq<char>)
    ensures
        p.url.len() > 0 ==> (p.kind == PartKind::Image ==> method_of(p) == Some(MediaMethod::Photo))
            && (p.kind == PartKind::Video ==> method_of(p) == Some(MediaMethod::Video)) && (p.kind
            == PartKind::Audio ==> method_of(p) == Some(MediaMethod::Audio)) && (p.kind
            == PartKind::File ==> method_of(p) == Some(MediaMethod::Document)) && (p.kind
            == PartKind::Text ==> method_of(p) is None),
        p.url.len() == 0 ==> method_of(p) is None,
        source_of("file://"@ + path, Err(e)) == Ok::<SourceV, ErrorV>(SourceV::Local(path)),
        url.len() > 0 && url[0] != 'f' && url[0] != 'h' ==> source_of(url, Ok(u)) is Err,
        source_of("https://"@ + path, Ok(u)) == Ok::<SourceV, ErrorV>(SourceV::Remote(u.text)),
        source_of("http://"@ + path, Ok(u)) == Ok::<SourceV, ErrorV>(SourceV::Remote(u.text)),
        source_of("https://"@ + path, Err(e)) == Err::<SourceV, ErrorV>(ErrorV::Other(e)),
{
    reveal_strlit("file://");
    reveal_strlit("https://");
    reveal_strlit("http://");
    let f = "file://"@;
    let a = "https://"@;
    let b = "http://"@;
    assert((f + path).take(7) =~= f);
    assert((f + path).skip(7) =~= path);
    assert((a + path).take(8) =~= a);
    assert((b + path).take(7) =~= b);
    assert((a + path)[0] == 'h' && (b + path)[0] == 'h');
    assert((a + path).take(7)[0] == 'h');
    assert((b + path).take(7)[0] == 'h');
    assert(f[0] == 'f');
    if url.len() > 0 && url[0] != 'f' && url[0] != 'h' {
        assert(url.len() >= 7 ==> url.take(7)[0] == url[0]);
        assert(url.len() >= 8 ==> url.take(8)[0] == url[0]);
    }
}

// ---------------------------------------------------------------------------------------------
// Lost connections
// ---------------------------------------------------------------------------------------------

/// After a conflict with another poller ten seconds pass; after failures of the network five, ten,
/// twenty, forty and then sixty; after anything else two. Each is counted by itself.
pub proof fn waits_after_failures(c: ReconnectCounters, t: Seq<char>, i: int)
    requires
        c.conflict_count < 0xffff_ffff,
        c.network_count < 0x7fff_ffff,
    ensures
        occurs_at(t, "conflict"@, i) || occurs_at(t, "terminated by other getupdates request"@, i)
            || occurs_at(t, "another bot instance is running"@, i) ==> planned(c, t) == (
            ReconnectCounters {
                conflict_count: (c.conflict_count + 1) as u32,
                network_count: 0,
            },
            10nat,
        ),
        t == "timeout"@ ==> planned(c, t).0.network_count == c.network_count + 1 && planned(
            c,
            t,
        ).0.conflict_count == 0,
        t == "timeout"@ && c.network_count == 0 ==> planned(c, t).1 == 5,
        t == "timeout"@ && c.network_count == 1 ==> planned(c, t).1 == 10,
        t == "timeout"@ && c.network_count == 2 ==> planned(c, t).1 == 20,
        t == "timeout"@ && c.network_count == 3 ==> planned(c, t).1 == 40,
        t == "timeout"@ && c.network_count == 4 ==> planned(c, t).1 == 60,
        t.len() == 0 ==> planned(c, t) == (c, 2nat),
{
    lemma2_to64();
    reveal_strlit("conflict");
    reveal_strlit("terminated by other getupdates request");
    reveal_strlit("another bot instance is running");
    reveal_strlit("network");
    reveal_strlit("timed out");
    reveal_strlit("timeout");
    reveal_strlit("connection");
    reveal_strlit("dns");
    if t == "timeout"@ {
        assert forall|k: int| !occurs_at(t, "conflict"@, k) by {}
        assert forall|k: int| !occurs_at(t, "terminated by other getupdates request"@, k) by {}
        assert forall|k: int| !occurs_at(t, "another bot instance is running"@, k) by {}
        assert(t.subrange(0, 7) =~= "timeout"@);
        assert(occurs_at(t, "timeout"@, 0));
    }
    if t.len() == 0 {
        assert forall|k: int, p: Seq<char>| p.len() > 0 implies !#[trigger] occurs_at(t, p, k) by {}
    }
}

// ---------------------------------------------------------------------------------------------
// Accounts
// ---------------------------------------------------------------------------------------------

/// Every token of the configuration counts, the single one first where it is not blank.
pub proof fn every_token_counts(token: Seq<char>, tokens: Seq<Seq<char>>)
    ensures
        trimmed(token).len() == 0 ==> configured_tokens(token, tokens) == tokens,
        trimmed(token).len() > 0 ==> configured_tokens(token, tokens) == seq![token] + tokens,
        media_dir_of(Seq::empty()) == "media/telegram"@,
        token.len() > 0 ==> media_dir_of(token) == token,
{
    assert(Seq::<Seq<char>>::empty() + tokens =~= tokens);
}

/// An account is started once, and only while it is in use.
pub proof fn accounts_are_started_once(c: ChannelV, id: Seq<char>, e: EntryV)
    ensures
        lookup(c.runners, id) is Some ==> start_plan(c, id) == Ok::<Option<Seq<char>>, ErrorV>(None),
        lookup(c.runners, id) is None && lookup(c.registry.accounts, id) == Some(e) && e.status
            == AccountStatus::Active ==> start_plan(c, id) == Ok::<Option<Seq<char>>, ErrorV>(
            Some("telegram:"@ + id),
        ),
        lookup(c.runners, id) is None && lookup(c.registry.accounts, id) == Some(e) && e.status
            == AccountStatus::Disabled ==> start_plan(c, id) is Err,
        lookup(c.runners, id) is None && lookup(c.registry.accounts, id) is None ==> start_plan(c, id)
            is Err,
{
}

/// An account is listed with its id, channel, bot and state; no token is told.
pub proof fn accounts_are_listed(id: Seq<char>, e: EntryV, running: bool)
    ensures
        ({
            let v = listed(id, e, running);
            &&& text_field(v, "account_id"@) == Some(id)
            &&& text_field(v, "channel_id"@) == Some("telegram:"@ + id)
            &&& text_field(v, "bot_user_id"@) == e.bot_user_id
            &&& text_field(v, "username"@) == e.username
            &&& e.status == AccountStatus::Active ==> text_field(v, "status"@) == Some("active"@)
            &&& e.status == AccountStatus::Disabled ==> text_field(v, "status"@) == Some("disabled"@)
            &&& field(v, "running"@) == Some(JsonV::Bool(running))
            &&& field(v, "created_at"@) == Some(JsonV::Number(NumberV::Unsigned(e.created_at)))
            &&& v->Object_0.len() == 7
        }),
{
    let m = listed(id, e, running)->Object_0;
    reveal_strlit("account_id");
    reveal_strlit("channel_id");
    reveal_strlit("bot_user_id");
    reveal_strlit("username");
    reveal_strlit("status");
    reveal_strlit("running");
    reveal_strlit("created_at");
    assert("account_id"@[0] != "channel_id"@[0]);
    assert("account_id"@.len() != "bot_user_id"@.len());
    assert("account_id"@.len() != "username"@.len());
    assert("account_id"@.len() != "status"@.len());
    assert("account_id"@.len() != "running"@.len());
    assert("account_id"@[0] != "created_at"@[0]);
    assert("channel_id"@.len() != "bot_user_id"@.len());
    assert("channel_id"@.len() != "username"@.len());
    assert("channel_id"@.len() != "status"@.len());
    assert("channel_id"@.len() != "running"@.len());
    assert("channel_id"@[1] != "created_at"@[1]);
    assert("bot_user_id"@.len() != "username"@.len());
    assert("bot_user_id"@.len() != "status"@.len());
    assert("bot_user_id"@.len() != "running"@.len());
    assert("bot_user_id"@.len() != "created_at"@.len());
    assert("username"@.len() != "status"@.len());
    assert("username"@.len() != "running"@.len());
    assert("username"@.len() != "created_at"@.len());
    assert("status"@.len() != "running"@.len());
    assert("status"@.len() != "created_at"@.len());
    assert("running"@.len() != "created_at"@.len());
    assert(m[0].0 == "account_id"@);
    assert(m[1].0 == "channel_id"@);
    assert(m[2].0 == "bot_user_id"@);
    assert(m[3].0 == "username"@);
    assert(m[4].0 == "status"@);
    assert(m[5].0 == "running"@);
    assert(m[6].0 == "created_at"@);
    first_entry(m, "account_id"@, 0);
    first_entry(m, "channel_id"@, 1);
    first_entry(m, "bot_user_id"@, 2);
    first_entry(m, "username"@, 3);
    first_entry(m, "status"@, 4);
    first_entry(m, "running"@, 5);
    first_entry(m, "created_at"@, 6);
}

/// The state of the channel tells how many accounts run, and how it is set up.
pub proof fn health_tells_the_runners(count: nat, streaming: bool, dir: Seq<char>)
    requires
        count <= u64::MAX,
    ensures
        ({
            let v = health(count, streaming, dir);
            &&& text_field(v, "channel"@) == Some("telegram"@)
            &&& text_field(v, "status"@) == Some("healthy"@)
            &&& field(v, "account_count"@) == Some(JsonV::Number(NumberV::Unsigned(count as u64)))
            &&& field(v, "streaming_enabled"@) == Some(JsonV::Bool(streaming))
            &&& text_field(v, "media_dir"@) == Some(dir)
        }),
{
    let m = health(count, streaming, dir)->Object_0;
    reveal_strlit("channel");
    reveal_strlit("status");
    reveal_strlit("detail");
    reveal_strlit("account_count");
    reveal_strlit("streaming_enabled");
    reveal_strlit("media_dir");
    reveal_strlit("features");
    assert("channel"@.len() != "status"@.len());
    assert("channel"@.len() != "detail"@.len());
    assert("channel"@.len() != "account_count"@.len());
    assert("channel"@.len() != "streaming_enabled"@.len());
    assert("channel"@.len() != "media_dir"@.len());
    assert("channel"@.len() != "features"@.len());
    assert("status"@[0] != "detail"@[0]);
    assert("status"@.len() != "account_count"@.len());
    assert("status"@.len() != "streaming_enabled"@.len());
    assert("status"@.len() != "media_dir"@.len());
    assert("status"@.len() != "features"@.len());
    assert("detail"@.len() != "account_count"@.len());
    assert("detail"@.len() != "streaming_enabled"@.len());
    assert("detail"@.len() != "media_dir"@.len());
    assert("detail"@.len() != "features"@.len());
    assert("account_count"@.len() != "streaming_enabled"@.len());
    assert("account_count"@.len() != "media_dir"@.len());
    assert("account_count"@.len() != "features"@.len());
    assert("streaming_enabled"@.len() != "media_dir"@.len());
    assert("streaming_enabled"@.len() != "features"@.len());
    assert("media_dir"@.len() != "features"@.len());
    assert(m[0].0 == "channel"@);
    assert(m[1].0 == "status"@);
    assert(m[2].0 == "detail"@);
    assert(m[3].0 == "account_count"@);
    assert(m[4].0 == "streaming_enabled"@);
    assert(m[5].0 == "media_dir"@);
    assert(m[6].0 == "features"@);
    first_entry(m, "channel"@, 0);
    first_entry(m, "status"@, 1);
    first_entry(m, "detail"@, 2);
    first_entry(m, "account_count"@, 3);
    first_entry(m, "streaming_enabled"@, 4);
    first_entry(m, "media_dir"@, 5);
    first_entry(m, "features"@, 6);
}

/// Runners of accounts that are no longer in use are dropped, and nothing else of the channel; every
/// account is listed, with whether it runs.
pub proof fn channels_run_what_is_in_use(c: ChannelV, id: Seq<char>, i: int)
    ensures
        pruned(c).registry == c.registry,
        pruned(c).started == c.started,
        pruned(c).media_base_dir == c.media_base_dir,
        pruned(c).streaming_enabled == c.streaming_enabled,
        lookup(pruned(c).runners, id) is Some ==> lookup(c.runners, id) is Some,
        active_ids(c.registry.accounts).contains(id) && lookup(c.runners, id) is Some ==> lookup(
            pruned(c).runners,
            id,
        ) is Some,
        listing(c).len() == c.registry.accounts.len(),
        0 <= i < c.registry.accounts.len() ==> listing(c)[i] == listed(
            c.registry.accounts[i].0,
            c.registry.accounts[i].1,
            lookup(c.runners, c.registry.accounts[i].0) is Some,
        ),
{
    pruned_runners_are_in_use(c.runners, active_ids(c.registry.accounts), id);
}

/// Words that follow in the same chat are joined with what waits there, and leave nothing waiting;
/// words alone do not wait.
pub proof fn waiting_parts_go_with_the_words(
    m: Seq<(Seq<char>, Seq<PartV>)>,
    session: Seq<char>,
    kept: Seq<PartV>,
    p: PartV,
)
    requires
        p.kind == PartKind::Text,
        trimmed(p.text).len() > 0,
    ensures
        lookup(m, session) == Some(kept) ==> debounced(m, session, seq![p]).1 == Some(kept.push(p)),
        lookup(m, session) is None ==> debounced(m, session, seq![p]).1 == Some(seq![p]),
        lookup(debounced(m, session, seq![p]).0, session) is None,
{
    let parts = seq![p];
    assert(is_said(parts[0]));
    assert(speaks(parts));
    assert(kept + parts =~= kept.push(p));
    assert(Seq::<PartV>::empty() + parts =~= parts);
    without_entry_lookup(m, session, session);
}

/// Errors that speak of the network are waited out, twice as long each time and a minute at most. What
/// speaks neither of the network nor of another poller changes no count.
pub proof fn network_errors_are_waited_out(c: ReconnectCounters, t: Seq<char>, i: int)
    requires
        c.conflict_count < 0xffff_ffff,
        c.network_count < 0x7fff_ffff,
        forall|k: int| !#[trigger] occurs_at(t, "conflict"@, k),
        forall|k: int| !#[trigger] occurs_at(t, "terminated by other getupdates request"@, k),
        forall|k: int| !#[trigger] occurs_at(t, "another bot instance is running"@, k),
    ensures
        occurs_at(t, "network"@, i) || occurs_at(t, "timed out"@, i) || occurs_at(t, "timeout"@, i)
            || occurs_at(t, "connection"@, i) || occurs_at(t, "dns"@, i) ==> {
            &&& planned(c, t).0.conflict_count == 0
            &&& planned(c, t).0.network_count == c.network_count + 1
            &&& c.network_count == 0 ==> planned(c, t).1 == 5
            &&& c.network_count == 1 ==> planned(c, t).1 == 10
            &&& c.network_count == 2 ==> planned(c, t).1 == 20
            &&& c.network_count == 3 ==> planned(c, t).1 == 40
            &&& c.network_count >= 4 ==> planned(c, t).1 == 60
        },
        (forall|k: int| !#[trigger] occurs_at(t, "network"@, k)) && (forall|k: int|
            !#[trigger] occurs_at(t, "timed out"@, k)) && (forall|k: int|
            !#[trigger] occurs_at(t, "timeout"@, k)) && (forall|k: int|
            !#[trigger] occurs_at(t, "connection"@, k)) && (forall|k: int|
            !#[trigger] occurs_at(t, "dns"@, k)) ==> planned(c, t) == (c, 2nat),
{
    lemma2_to64();
    if c.network_count > 4 {
        lemma_pow2_strictly_increases(4, c.network_count as nat);
    }
}

} // verus!
