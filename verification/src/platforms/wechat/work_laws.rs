//! Laws of the work on WeChat messages: which are taken, what becomes of their pictures, and what is sent
//! as an answer grows.

use vstd::prelude::*;

use crate::codec::base64_text;
use crate::error::ErrorV;
use crate::json::{field, text_field, text_of, JsonV, Members, NumberV};
use crate::pipeline::NativeV;
use crate::platforms::wechat::adapter::{echo_key, inbound, recent, target_of};
use crate::platforms::wechat::channel::{
    active_ids, health, listed, listing, pruned, start_plan, ChannelV,
};
use crate::platforms::wechat::client::{brings_messages, MEDIA_LIMIT, WECHAT_TEXT_CHUNK_CHARS};
use crate::platforms::wechat::images::{
    fits, format_of, images_in, inlined, mime_of, picture_is_readable, picture_size, picture_url,
    source_of, PictureFormat, MAX_IMAGES,
};
use crate::platforms::wechat::poll::PollAction;
use crate::platforms::wechat::qr_terminal::{
    image_base64, image_bytes, login_payload, painted_qr, printed_qr, qr_art, qr_payload, qr_png,
    shown, QrLevel,
};
use crate::platforms::wechat::registry::{AccountStatus, EntryV, RegistryV};
use crate::platforms::wechat::runner::{
    backoff, cleanup_of, cursor_to_keep, first_part_text, intake, moved_on, sift, with_token_of,
    with_typing, IntakeV, RunnerV,
};
use crate::platforms::wechat::stream::{appended, completed, full_chunks_lose_nothing, grown, SinkV};
use crate::strs::{chained, first_at, first_at_from_is_first, free_of, is_ws, occurs_at, trimmed};
use crate::table::{first_entry, lookup, with_entry_lookup};
use crate::types::{PartKind, PartV};
use vstd::arithmetic::power2::{lemma2_to64, pow2};
use crate::platforms::runners::pruned_runners_are_in_use;

verus! {

/// A text without white space at its ends.
pub open spec fn is_tight(t: Seq<char>) -> bool {
    t.len() > 0 && !is_ws(t[0]) && !is_ws(t.last())
}

proof fn tight_stays(t: Seq<char>)
    requires
        is_tight(t),
    ensures
        trimmed(t) == t,
{
}

// ---------------------------------------------------------------------------------------------
// Which messages are taken
// ---------------------------------------------------------------------------------------------

/// A message is taken once, as it came; what the bot sent itself and what came before is not.
pub proof fn new_messages_are_taken(s: RunnerV, n: NativeV, now: u64, id: Seq<char>)
    requires
        text_of(n.meta, "message_id"@) == Some(id),
        id.len() > 0,
        first_part_text(n.content_parts).len() == 0,
    ensures
        !s.dedup_ids.contains(id) ==> sift(s, n, now).1 == IntakeV::Taken(n) && sift(
            s,
            n,
            now,
        ).0.dedup_ids.contains(id),
        s.dedup_ids.contains(id) ==> sift(s, n, now).1 is Duplicate && sift(s, n, now).0 == s,
        sift(s, n, now).0.cursor == s.cursor,
        sift(s, n, now).0.context_tokens == s.context_tokens,
{
    assert(trimmed(Seq::<char>::empty()) == Seq::<char>::empty());
    assert(first_part_text(n.content_parts) =~= Seq::<char>::empty());
    let ids = s.dedup_ids.push(id);
    if ids.len() > 2000 {
        let l = ids.skip(ids.len() - 2000);
        assert(l.last() == id);
        assert(l[l.len() - 1] == id);
    } else {
        assert(ids[ids.len() - 1] == id);
    }
}

/// What the bot sent to a chat a moment ago is not taken from there.
pub proof fn own_words_are_not_taken(s: RunnerV, n: NativeV, now: u64, said: Seq<char>)
    requires
        is_tight(said),
        n.content_parts.len() > 0,
        n.content_parts[0].text == said,
        lookup(recent(s.sent_echoes, now), echo_key(target_of(n.meta, n.sender_id), said)) is Some,
    ensures
        sift(s, n, now).1 is Echo,
        sift(s, n, now).0.dedup_ids == s.dedup_ids,
{
    tight_stays(said);
}

/// What says nothing is not taken in, and leaves all as it was.
pub proof fn silence_is_not_taken_in(
    s: RunnerV,
    reg: RegistryV,
    msg: JsonV,
    shown_text: Seq<char>,
    now: u64,
)
    requires
        inbound(msg, shown_text, s.account_id, s.channel_id) is None,
    ensures
        intake(s, reg, msg, shown_text, now).2 is Ignored,
        intake(s, reg, msg, shown_text, now).0 == s,
        intake(s, reg, msg, shown_text, now).1 == reg,
{
}

/// The token of a message is kept for the chat that it is answered in.
pub proof fn tokens_come_with_messages(s: RunnerV, n: NativeV, to: Seq<char>, token: Seq<char>)
    requires
        is_tight(to),
        is_tight(token),
        text_of(n.meta, "reply_to_user_id"@) == Some(to),
        text_of(n.meta, "context_token"@) == Some(token),
    ensures
        lookup(with_token_of(s, n).context_tokens, to) == Some(token),
        with_token_of(s, n).dedup_ids == s.dedup_ids,
        with_token_of(s, n).cursor == s.cursor,
{
    tight_stays(to);
    tight_stays(token);
    with_entry_lookup(s.context_tokens, to, token, to);
}

/// The cursor moves to what the answer names, and only at an end that keeps it.
pub proof fn cursor_moves_at_its_end(s: RunnerV, end: PollAction, data: JsonV, c: Seq<char>)
    requires
        is_tight(c),
        text_field(data, "get_updates_buf"@) == Some(c),
    ensures
        cursor_to_keep(PollAction::KeepCursor, data) == Some(c),
        moved_on(s, PollAction::KeepCursor, data).cursor == c,
        end != PollAction::KeepCursor ==> moved_on(s, end, data) == s,
        moved_on(s, end, data).dedup_ids == s.dedup_ids,
{
    crate::platforms::wechat::laws::named_cursor_is_found(data, c);
}

/// Failed polls are tried again after five seconds, and then after twice as long each time, up to
/// two minutes.
pub proof fn failed_polls_wait_longer()
    ensures
        backoff(0) == 5,
        backoff(1) == 5,
        backoff(2) == 10,
        backoff(3) == 20,
        backoff(4) == 40,
        backoff(5) == 80,
        backoff(6) == 120,
        forall|n: nat| #[trigger] backoff(n) <= 120,
{
    lemma2_to64();
}

/// The ticket of the sign that the bot is typing goes with the message, and is cleaned up with the
/// user that it was for.
pub proof fn tickets_go_with_messages(n: NativeV, key: Seq<char>, ticket: Seq<char>, user: Seq<char>)
    requires
        is_tight(ticket),
    ensures
        text_of(with_typing(n, Some((key, ticket))).meta, "typing_ticket"@) == Some(ticket),
        text_of(with_typing(n, Some((key, ticket))).meta, "typing_session_key"@) == Some(key),
        text_of(with_typing(n, Some((key, ticket))).meta, "chat_id"@) == text_of(n.meta, "chat_id"@),
        text_of(with_typing(n, Some((key, ticket))).meta, "reply_to_user_id"@) == text_of(
            n.meta,
            "reply_to_user_id"@,
        ),
        with_typing(n, Some((key, ticket))).content_parts == n.content_parts,
        with_typing(n, Some((key, ticket))).sender_id == n.sender_id,
        with_typing(n, None) == n,
        user.len() > 0 ==> cleanup_of(user, Some(ticket)) == Some((user, ticket)),
        cleanup_of(Seq::empty(), Some(ticket)) is None,
        cleanup_of(user, None) is None,
{
    reveal_strlit("typing_ticket");
    reveal_strlit("typing_session_key");
    reveal_strlit("chat_id");
    reveal_strlit("reply_to_user_id");
    assert("typing_ticket"@.len() != "typing_session_key"@.len());
    assert("typing_ticket"@.len() != "chat_id"@.len());
    assert("typing_ticket"@.len() != "reply_to_user_id"@.len());
    assert("typing_session_key"@.len() != "chat_id"@.len());
    assert("typing_session_key"@.len() != "reply_to_user_id"@.len());
    assert("chat_id"@.len() != "reply_to_user_id"@.len());
    tight_stays(ticket);
    let a = crate::table::with_entry(n.meta, "typing_ticket"@, JsonV::Str(ticket));
    with_entry_lookup(n.meta, "typing_ticket"@, JsonV::Str(ticket), "typing_ticket"@);
    with_entry_lookup(n.meta, "typing_ticket"@, JsonV::Str(ticket), "chat_id"@);
    with_entry_lookup(n.meta, "typing_ticket"@, JsonV::Str(ticket), "reply_to_user_id"@);
    with_entry_lookup(a, "typing_session_key"@, JsonV::Str(key), "typing_session_key"@);
    with_entry_lookup(a, "typing_session_key"@, JsonV::Str(key), "typing_ticket"@);
    with_entry_lookup(a, "typing_session_key"@, JsonV::Str(key), "chat_id"@);
    with_entry_lookup(a, "typing_session_key"@, JsonV::Str(key), "reply_to_user_id"@);
}

// ---------------------------------------------------------------------------------------------
// Pictures
// ---------------------------------------------------------------------------------------------

/// A picture is known by its first bytes, and goes by the type of its format.
pub proof fn pictures_are_known_by_their_bytes(rest: Seq<u8>, four: Seq<u8>, b: u8)
    requires
        four.len() == 4,
    ensures
        format_of(seq![0x89u8, 0x50, 0x4e, 0x47, 0x0d, 0x0a, 0x1a, 0x0a] + rest) == Some(
            PictureFormat::Png,
        ),
        format_of(seq![0xffu8, 0xd8, 0xff] + rest) == Some(PictureFormat::Jpeg),
        format_of(seq![0x52u8, 0x49, 0x46, 0x46] + four + seq![0x57u8, 0x45, 0x42, 0x50] + rest) == Some(
            PictureFormat::WebP,
        ),
        b != 0x89 && b != 0xff && b != 0x52 ==> format_of(seq![b] + rest) is None,
        mime_of(PictureFormat::Png) == "image/png"@,
        mime_of(PictureFormat::Jpeg) == "image/jpeg"@,
        mime_of(PictureFormat::WebP) == "image/webp"@,
{
    let png = seq![0x89u8, 0x50, 0x4e, 0x47, 0x0d, 0x0a, 0x1a, 0x0a];
    let jpg = seq![0xffu8, 0xd8, 0xff];
    let riff = seq![0x52u8, 0x49, 0x46, 0x46];
    let webp = seq![0x57u8, 0x45, 0x42, 0x50];
    assert((png + rest).take(8) =~= png);
    let j = jpg + rest;
    assert(j.take(3) =~= jpg);
    assert(j[0] == 0xff);
    assert(j.len() >= 8 ==> j.take(8)[0] == 0xff);
    let w = riff + four + webp + rest;
    assert(w.take(4) =~= riff);
    assert(w.subrange(8, 12) =~= webp);
    assert(w[0] == 0x52);
    assert(w.take(8)[0] == 0x52);
    assert(w.take(3)[0] == 0x52);
    let x = seq![b] + rest;
    assert(x[0] == b);
    assert(x.len() >= 8 ==> x.take(8)[0] == b);
    assert(x.len() >= 3 ==> x.take(3)[0] == b);
    assert(x.len() >= 4 ==> x.take(4)[0] == b);
}

/// A picture is handed on where it is no larger than it may be and can be read, with its bytes in
/// the address and nothing else changed; any other is not.
pub proof fn good_pictures_are_handed_on(bytes: Seq<u8>, f: PictureFormat, w: u32, h: u32, p: PartV, url: Seq<char>)
    requires
        format_of(bytes) == Some(f),
    ensures
        fits(w, h) <==> w <= 8192 && h <= 8192 && w * h <= 16_000_000,
        picture_size(bytes, f) == Some((w, h)) && w <= 8192 && h <= 8192 && w * h <= 16_000_000
            && picture_is_readable(bytes, f, 83_886_080) ==> picture_url(bytes) == Some(
            "data:"@ + mime_of(f) + ";base64,"@ + base64_text(bytes),
        ),
        picture_size(bytes, f) == Some((w, h)) && (w > 8192 || h > 8192 || w * h > 16_000_000)
            ==> picture_url(bytes) is None,
        !picture_is_readable(bytes, f, 83_886_080) ==> picture_url(bytes) is None,
        picture_size(bytes, f) is None ==> picture_url(bytes) is None,
        inlined(p, url).url == url,
        inlined(p, url).kind == p.kind,
        inlined(p, url).data is None,
        MAX_IMAGES == 3,
        MEDIA_LIMIT == 8_388_608,
{
}

/// A picture comes from where the message says, with the key that it gives.
pub proof fn pictures_come_from_the_message(d: JsonV, item: JsonV, m: JsonV, key: Seq<char>, param: Seq<char>)
    requires
        field(d, "image_item"@) == Some(item),
        field(item, "media"@) == Some(m),
    ensures
        text_field(m, "aes_key"@) == Some(key) ==> (source_of(Some(d)) matches Some(s) && s.aes_key == key
            && (text_field(m, "encrypt_query_param"@) == Some(param) ==> s.encrypt_query_param == param)
            && (text_field(m, "url"@) == Some(param) ==> s.url == param)),
        field(m, "aes_key"@) is None && text_field(item, "aeskey"@) == Some(key) ==> (source_of(Some(d))
            matches Some(s) && s.aes_key == key),
        field(m, "aes_key"@) is None && field(item, "aeskey"@) is None ==> source_of(Some(d)) is None,
        source_of(None) is None,
{
}

/// Every picture of a message counts, and the next one is the first from there on.
pub proof fn pictures_are_counted(parts: Seq<PartV>, p: PartV)
    ensures
        p.kind == PartKind::Image ==> images_in(parts.push(p)) == images_in(parts) + 1,
        p.kind != PartKind::Image ==> images_in(parts.push(p)) == images_in(parts),
        images_in(Seq::empty()) == 0,
{
    assert(parts.push(p).drop_last() =~= parts);
    assert(parts.push(p).last() == p);
}

// ---------------------------------------------------------------------------------------------
// Answers as they grow
// ---------------------------------------------------------------------------------------------

/// What is said is sent or kept for later, behind a blank line where something is kept already; and
/// what was said before is not said again.
pub proof fn what_is_said_is_sent_or_kept(s: SinkV, text: Seq<char>)
    requires
        is_tight(text),
    ensures
        !s.seen.contains(text) && s.pending.len() == 0 ==> chained(appended(s, text).1) + appended(
            s,
            text,
        ).0.pending == text,
        !s.seen.contains(text) && s.pending.len() > 0 ==> chained(appended(s, text).1) + appended(
            s,
            text,
        ).0.pending == s.pending + "\n\n"@ + text,
        !s.seen.contains(text) ==> appended(s, text).0.seen == s.seen.push(text),
        s.seen.contains(text) ==> appended(s, text).1.len() == 0 && appended(s, text).0 == s,
        appended(s, text).0.prefix == s.prefix,
        WECHAT_TEXT_CHUNK_CHARS == 2000,
{
    tight_stays(text);
    full_chunks_lose_nothing(grown(s.pending, text), 2000);
}

/// At the end of an answer what is kept is sent; and an answer that was not shown as it grew is sent
/// whole.
pub proof fn answers_are_sent_to_the_end(s: SinkV, text: Seq<char>)
    requires
        is_tight(text),
    ensures
        s.pending.len() > 0 ==> completed(s, text).1 == seq![s.pending] && completed(
            s,
            text,
        ).0.pending.len() == 0,
        s.pending.len() == 0 && !s.message_streamed && !s.seen.contains(text) ==> chained(
            completed(s, text).1,
        ) == text && completed(s, text).0.pending.len() == 0,
        s.pending.len() == 0 && s.message_streamed ==> completed(s, text).1.len() == 0,
{
    what_is_said_is_sent_or_kept(s, text);
    if s.pending.len() > 0 {
        assert(Seq::<Seq<char>>::empty().push(s.pending) =~= seq![s.pending]);
    } else if !s.message_streamed && !s.seen.contains(text) {
        let (s1, chunks) = appended(s, text);
        if s1.pending.len() > 0 {
            assert(chunks.push(s1.pending).drop_last() =~= chunks);
        } else {
            assert(s1.pending =~= Seq::<char>::empty());
            assert(chained(chunks) + s1.pending =~= chained(chunks));
        }
    }
}

// ---------------------------------------------------------------------------------------------
// Codes to log in with
// ---------------------------------------------------------------------------------------------

/// An image is read from behind the mark of its encoding, or from its start where there is none.
pub proof fn images_are_read_behind_their_mark(data: Seq<char>)
    requires
        is_tight(data),
        free_of(data, ','),
    ensures
        image_base64(data) == data,
        image_base64("data:image/png;base64,"@ + data) == data,
        forall|decoded: Seq<u8>| #[trigger]
            image_bytes(data, Ok(decoded)) == Ok::<Seq<u8>, ErrorV>(decoded),
        image_bytes(Seq::empty(), Ok(Seq::empty())) is Err,
        forall|e: Seq<char>| #[trigger] image_bytes(data, Err(e)) is Err,
{
    reveal_strlit("base64,");
    reveal_strlit("data:image/png;base64,");
    let m = "base64,"@;
    tight_stays(data);
    first_at_from_is_first(data, m, 0);
    match first_at(data, m) {
        Some(i) => {
            assert(data.subrange(i, i + 7)[6] == data[i + 6]);
        },
        None => {},
    }
    let p = "data:image/png;base64,"@;
    let s = p + data;
    assert(is_tight(s)) by {
        assert(s[0] == 'd');
        assert(s.last() == data.last());
    }
    tight_stays(s);
    first_at_from_is_first(s, m, 0);
    assert(s.subrange(15, 22) =~= m);
    assert(occurs_at(s, m, 15));
    match first_at(s, m) {
        Some(i) => {
            assert(s.subrange(i, i + 7)[6] == ',');
            assert(s.subrange(i, i + 7)[6] == s[i + 6]);
            if i < 15 {
                assert(s[i + 6] == p[i + 6]);
            }
            assert(i == 15);
            assert(s.skip(22) =~= data);
        },
        None => {},
    }
    assert(trimmed(Seq::<char>::empty()) == Seq::<char>::empty());
    first_at_from_is_first(Seq::<char>::empty(), m, 0);
}

/// What a code leads to is what it says: the address that it is, or what its image says, or else the
/// address made for it. A code that was found and read is what it reads.
pub proof fn codes_say_where_they_lead(
    token: Seq<char>,
    rest: Seq<char>,
    img: Seq<char>,
    said: Seq<char>,
    bot_type: Seq<char>,
    e: Seq<char>,
    art: Seq<char>,
)
    requires
        rest.len() > 0,
        !is_ws(rest.last()),
        is_tight(img),
        img[0] != 'h',
        said.len() > 0,
    ensures
        login_payload(token, "https://"@ + rest, bot_type, None) == Ok::<Seq<char>, ErrorV>(
            "https://"@ + rest,
        ),
        login_payload(token, img, bot_type, Some(said)) == Ok::<Seq<char>, ErrorV>(said),
        login_payload(Seq::empty(), img, bot_type, None) is Err,
        qr_payload(Some(Ok(said))) == Ok::<Seq<char>, ErrorV>(said),
        qr_payload(Some(Ok(Seq::empty()))) is Err,
        qr_payload(Some(Err(e))) is Err,
        qr_payload(None) is Err,
        shown(said, Ok(art)) == Ok::<(Seq<char>, Seq<char>), ErrorV>((said, art)),
        shown(said, Err(e)) is Err,
{
    reveal_strlit("https://");
    reveal_strlit("http://");
    let u = "https://"@ + rest;
    tight_stays(u);
    tight_stays(img);
    assert(u.take(8) =~= "https://"@);
    assert(img.len() >= 7 ==> img.take(7)[0] == img[0]);
    assert(img.len() >= 8 ==> img.take(8)[0] == img[0]);
}

// ---------------------------------------------------------------------------------------------
// Accounts
// ---------------------------------------------------------------------------------------------

/// An account is started once, and only while it is in use.
pub proof fn accounts_are_started_once(c: ChannelV, id: Seq<char>, e: EntryV)
    ensures
        lookup(c.runners, id) is Some ==> start_plan(c, id) == Ok::<Option<Seq<char>>, ErrorV>(None),
        lookup(c.runners, id) is None && lookup(c.registry.accounts, id) == Some(e) && e.status
            == AccountStatus::Active ==> start_plan(c, id) == Ok::<Option<Seq<char>>, ErrorV>(
            Some("wechat:"@ + id),
        ),
        lookup(c.runners, id) is None && lookup(c.registry.accounts, id) == Some(e) && e.status
            == AccountStatus::Disabled ==> start_plan(c, id) is Err,
        lookup(c.runners, id) is None && lookup(c.registry.accounts, id) is None ==> start_plan(c, id)
            is Err,
{
}

/// An account is listed with its id, channel, bot and state; no token is told.
pub proof fn accounts_are_listed(id: Seq<char>, e: EntryV, running: bool, count: nat)
    requires
        count <= u64::MAX,
    ensures
        ({
            let v = listed(id, e, running);
            &&& text_field(v, "account_id"@) == Some(id)
            &&& text_field(v, "channel_id"@) == Some("wechat:"@ + id)
            &&& text_field(v, "bot_user_id"@) == e.bot_user_id
            &&& text_field(v, "base_url"@) == Some(e.base_url)
            &&& e.status == AccountStatus::Active ==> text_field(v, "status"@) == Some("active"@)
            &&& e.status == AccountStatus::Disabled ==> text_field(v, "status"@) == Some("disabled"@)
            &&& field(v, "running"@) == Some(JsonV::Bool(running))
            &&& v->Object_0.len() == 7
        }),
        text_field(health(count), "channel"@) == Some("wechat"@),
        text_field(health(count), "status"@) == Some("healthy"@),
        field(health(count), "account_count"@) == Some(
            JsonV::Number(NumberV::Unsigned(count as u64)),
        ),
{
    let m = listed(id, e, running)->Object_0;
    reveal_strlit("account_id");
    reveal_strlit("channel_id");
    reveal_strlit("bot_user_id");
    reveal_strlit("status");
    reveal_strlit("base_url");
    reveal_strlit("running");
    reveal_strlit("created_at");
    assert("account_id"@[0] != "channel_id"@[0]);
    assert("account_id"@.len() != "bot_user_id"@.len());
    assert("account_id"@.len() != "status"@.len());
    assert("account_id"@.len() != "base_url"@.len());
    assert("account_id"@.len() != "running"@.len());
    assert("account_id"@[0] != "created_at"@[0]);
    assert("channel_id"@.len() != "bot_user_id"@.len());
    assert("channel_id"@.len() != "status"@.len());
    assert("channel_id"@.len() != "base_url"@.len());
    assert("channel_id"@.len() != "running"@.len());
    assert("channel_id"@[1] != "created_at"@[1]);
    assert("bot_user_id"@.len() != "status"@.len());
    assert("bot_user_id"@.len() != "base_url"@.len());
    assert("bot_user_id"@.len() != "running"@.len());
    assert("bot_user_id"@.len() != "created_at"@.len());
    assert("status"@.len() != "base_url"@.len());
    assert("status"@.len() != "running"@.len());
    assert("status"@.len() != "created_at"@.len());
    assert("base_url"@.len() != "running"@.len());
    assert("base_url"@.len() != "created_at"@.len());
    assert("running"@.len() != "created_at"@.len());
    assert(m[0].0 == "account_id"@);
    assert(m[1].0 == "channel_id"@);
    assert(m[2].0 == "bot_user_id"@);
    assert(m[3].0 == "status"@);
    assert(m[4].0 == "base_url"@);
    assert(m[5].0 == "running"@);
    assert(m[6].0 == "created_at"@);
    first_entry(m, "account_id"@, 0);
    first_entry(m, "channel_id"@, 1);
    first_entry(m, "bot_user_id"@, 2);
    first_entry(m, "status"@, 3);
    first_entry(m, "base_url"@, 4);
    first_entry(m, "running"@, 5);
    first_entry(m, "created_at"@, 6);
    let h = health(count)->Object_0;
    reveal_strlit("channel");
    reveal_strlit("status");
    reveal_strlit("detail");
    reveal_strlit("account_count");
    assert("channel"@.len() != "status"@.len());
    assert("channel"@.len() != "detail"@.len());
    assert("channel"@.len() != "account_count"@.len());
    assert("status"@[0] != "detail"@[0]);
    assert("status"@.len() != "account_count"@.len());
    assert("detail"@.len() != "account_count"@.len());
    assert(h[0].0 == "channel"@);
    assert(h[1].0 == "status"@);
    assert(h[2].0 == "detail"@);
    assert(h[3].0 == "account_count"@);
    first_entry(h, "channel"@, 0);
    first_entry(h, "status"@, 1);
    first_entry(h, "detail"@, 2);
    first_entry(h, "account_count"@, 3);
}

/// Runners of accounts that are no longer in use are dropped, and nothing else of the channel; every
/// account is listed, with whether it runs.
pub proof fn channels_run_what_is_in_use(c: ChannelV, id: Seq<char>, i: int)
    ensures
        pruned(c).registry == c.registry,
        pruned(c).started == c.started,
        lookup(pruned(c).runners, id) is Some ==> lookup(c.runners, id) is Some,
        active_ids(c.registry.accounts).contains(id) && lookup(c.runners, id) is Some ==> lookup(
            pruned(c).runners,
            id,
        ) is Some,
        listing(c).len() == c.registry.accounts.len(),
        0 <= i < c.registry.accounts.len() ==> listing(c)[i] == listed(
            c.registry.accounts[i].0,
            c.registry.accounts[i].1,
            lookup(c.runners, c.registry.accounts[i].0) is Some,
        ),
{
    pruned_runners_are_in_use(c.runners, active_ids(c.registry.accounts), id);
}

/// An answer brings messages where it lists some under any of their names or holds a single one, itself
/// or in its data.
pub proof fn answers_with_messages_are_known(v: JsonV, d: JsonV, m: Seq<JsonV>, one: Members)
    requires
        m.len() > 0,
    ensures
        field(v, "msgs"@) == Some(JsonV::Array(m)) || field(v, "msg_list"@) == Some(JsonV::Array(m))
            || field(v, "message_list"@) == Some(JsonV::Array(m)) || field(v, "messages"@) == Some(
            JsonV::Array(m),
        ) || field(v, "updates"@) == Some(JsonV::Array(m)) || field(v, "msg"@) == Some(
            JsonV::Object(one),
        ) ==> brings_messages(v),
        field(v, "data"@) == Some(d) && (field(d, "msgs"@) == Some(JsonV::Array(m)) || field(d, "msg"@)
            == Some(JsonV::Object(one))) ==> brings_messages(v),
{
}

/// A code is drawn and painted of what it says; on a terminal it has a margin and is as wide as it is
/// high.
pub proof fn codes_are_drawn_of_what_they_say(payload: Seq<char>)
    ensures
        printed_qr(payload) == qr_art(payload, QrLevel::Medium, true, 2, 1),
        painted_qr(payload) == qr_png(payload, QrLevel::Medium),
{
}

} // verus!
