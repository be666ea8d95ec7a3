//! Laws of the way from a message to its answer.

use vstd::prelude::*;

use crate::acl::{served_senders_are_whitelisted, AccessControl, ChannelAcl};
use crate::error::ErrorV;
use crate::json::{field, text_field, text_of, JsonV, Members};
use crate::pipeline::streaming::{
    dispatched, session_reply, session_step, sink_run, stream_type, ActionV, SessionV, StreamV,
};
use crate::pipeline::{
    collected_all, collected_reply, native_from, nothing_collected, part_from, processed, query_of,
    request_of, turned_away, CollectedV, NativeV, ReplyV,
};
use crate::platforms::telegram::send::{chat_of, thread_of};
use crate::platforms::wechat::adapter::{recipient, target_of};
use crate::table::{lookup, with_entry_lookup};
use crate::types::{EventKind, EventStatus, EventV, PartKind, PartV};

verus! {

// ---------------------------------------------------------------------------------------------
// Where an answer goes
// ---------------------------------------------------------------------------------------------

/// Whether an answer is one to a message: to its sender, in its conversation, with all that was kept
/// beside it.
pub open spec fn answers(r: ReplyV, n: NativeV) -> bool {
    &&& r.meta == n.meta
    &&& r.user_id == n.sender_id
    &&& n.session_id matches Some(s) ==> r.session_id == s
    &&& n.session_id is None ==> r.session_id == n.channel_id + ":"@ + n.sender_id
}

/// Every answer carries exactly what was kept beside the message that it answers, so the sender of
/// a channel finds in it the chat that the message came from.
pub proof fn answers_carry_the_chat(
    acl: AccessControl,
    language: Seq<char>,
    dm_acl: bool,
    group_acl: bool,
    n: NativeV,
    events: Seq<EventV>,
    broken: Option<ErrorV>,
)
    ensures
        processed(acl, language, dm_acl, group_acl, n, events, broken) matches Ok(r) ==> {
            &&& answers(r, n)
            &&& chat_of(r.meta) == chat_of(n.meta)
            &&& thread_of(r.meta) == thread_of(n.meta)
            &&& text_of(r.meta, "chat_id"@) == text_of(n.meta, "chat_id"@)
            &&& text_of(r.meta, "reply_to_user_id"@) == text_of(n.meta, "reply_to_user_id"@)
            &&& text_of(r.meta, "from_user_id"@) == text_of(n.meta, "from_user_id"@)
            &&& text_of(r.meta, "context_token"@) == text_of(n.meta, "context_token"@)
            &&& recipient(r.meta) == recipient(n.meta)
            &&& target_of(r.meta, r.user_id) == target_of(n.meta, n.sender_id)
        },
{
    reveal_strlit(":");
}

/// The same holds of answers that are shown as they grow.
pub proof fn shown_answers_carry_the_chat(
    acl: AccessControl,
    language: Seq<char>,
    dm_acl: bool,
    group_acl: bool,
    streaming: bool,
    filter_tool: bool,
    filter_thinking: bool,
    n: NativeV,
    events: Seq<EventV>,
    broken: Option<ErrorV>,
)
    ensures
        sink_run(
            acl,
            language,
            dm_acl,
            group_acl,
            streaming,
            filter_tool,
            filter_thinking,
            n,
            events,
            broken,
        ).1 matches Ok(r) ==> {
            &&& answers(r, n)
            &&& chat_of(r.meta) == chat_of(n.meta)
            &&& thread_of(r.meta) == thread_of(n.meta)
            &&& text_of(r.meta, "chat_id"@) == text_of(n.meta, "chat_id"@)
            &&& text_of(r.meta, "reply_to_user_id"@) == text_of(n.meta, "reply_to_user_id"@)
            &&& text_of(r.meta, "from_user_id"@) == text_of(n.meta, "from_user_id"@)
            &&& text_of(r.meta, "context_token"@) == text_of(n.meta, "context_token"@)
            &&& recipient(r.meta) == recipient(n.meta)
            &&& target_of(r.meta, r.user_id) == target_of(n.meta, n.sender_id)
        },
{
    reveal_strlit(":");
}

// ---------------------------------------------------------------------------------------------
// What an agent is asked
// ---------------------------------------------------------------------------------------------

/// The agent is asked for the sender, in the conversation, with the whole message.
pub proof fn requests_carry_the_message(n: NativeV)
    ensures
        request_of(n).channel == n.channel_id,
        request_of(n).user_id == n.sender_id,
        request_of(n).content == n.content_parts,
        request_of(n).meta == n.meta,
        n.session_id matches Some(s) ==> request_of(n).session_id == s,
        n.session_id is None ==> request_of(n).session_id == n.channel_id + ":"@ + n.sender_id,
{
    reveal_strlit(":");
}

/// The text of a message is that of its first part with a text.
pub proof fn first_text_is_the_query(parts: Seq<PartV>, i: int)
    requires
        0 <= i < parts.len(),
        parts[i].kind == PartKind::Text,
        forall|j: int| 0 <= j < i ==> (#[trigger] parts[j]).kind != PartKind::Text,
    ensures
        query_of(parts) == parts[i].text,
    decreases i,
{
    if i > 0 {
        assert(parts[0].kind != PartKind::Text);
        assert forall|j: int| 0 <= j < i - 1 implies (#[trigger] parts.drop_first()[j]).kind
            != PartKind::Text by {
            assert(parts.drop_first()[j] == parts[j + 1]);
        }
        first_text_is_the_query(parts.drop_first(), i - 1);
    }
}

// ---------------------------------------------------------------------------------------------
// What an agent answers
// ---------------------------------------------------------------------------------------------

/// A message that has come to its end.
pub open spec fn finished_message(e: EventV) -> bool {
    &&& e.kind == EventKind::Message
    &&& e.status == EventStatus::Completed || e.status == EventStatus::Failed
}

/// What an agent said last is the answer: a finished message with a text and parts, behind which
/// there is no other, and no error before or behind it.
pub proof fn last_message_is_the_answer(
    acl: AccessControl,
    language: Seq<char>,
    dm_acl: bool,
    group_acl: bool,
    n: NativeV,
    events: Seq<EventV>,
    i: int,
)
    requires
        !turned_away(acl, dm_acl, group_acl, n),
        0 <= i < events.len(),
        forall|j: int| 0 <= j < events.len() ==> (#[trigger] events[j]).error_message.len() == 0,
        finished_message(events[i]),
        events[i].text.len() > 0,
        events[i].content.len() > 0,
        forall|j: int| i < j < events.len() ==> !finished_message(#[trigger] events[j]),
    ensures
        processed(acl, language, dm_acl, group_acl, n, events, None) matches Ok(r) && r.text
            == events[i].text && r.parts == events[i].content,
{
    collected_last(events, i);
}

proof fn collected_last(events: Seq<EventV>, i: int)
    requires
        0 <= i < events.len(),
        forall|j: int| 0 <= j < events.len() ==> (#[trigger] events[j]).error_message.len() == 0,
        finished_message(events[i]),
        events[i].text.len() > 0,
        events[i].content.len() > 0,
        forall|j: int| i < j < events.len() ==> !finished_message(#[trigger] events[j]),
    ensures
        collected_all(events) == Ok::<CollectedV, ErrorV>(
            CollectedV { last_text: events[i].text, parts: events[i].content },
        ),
    decreases events.len(),
{
    let init = events.drop_last();
    assert forall|j: int| 0 <= j < init.len() implies (#[trigger] init[j]).error_message.len() == 0 by {
        assert(init[j] == events[j]);
    }
    assert(events.last() == events[events.len() - 1]);
    no_error_no_failure(init);
    if i < events.len() - 1 {
        assert forall|j: int| i < j < init.len() implies !finished_message(#[trigger] init[j]) by {
            assert(init[j] == events[j]);
        }
        assert(init[i] == events[i]);
        collected_last(init, i);
    }
}

proof fn no_error_no_failure(events: Seq<EventV>)
    requires
        forall|j: int| 0 <= j < events.len() ==> (#[trigger] events[j]).error_message.len() == 0,
    ensures
        collected_all(events) is Ok,
    decreases events.len(),
{
    if events.len() > 0 {
        let init = events.drop_last();
        assert forall|j: int| 0 <= j < init.len() implies (#[trigger] init[j]).error_message.len()
            == 0 by {
            assert(init[j] == events[j]);
        }
        assert(events.last() == events[events.len() - 1]);
        no_error_no_failure(init);
    }
}

/// An error that an agent reports is what the answer fails with, whatever comes behind it; and an
/// answer that broke off is no answer.
pub proof fn reported_errors_end_the_answer(
    acl: AccessControl,
    language: Seq<char>,
    dm_acl: bool,
    group_acl: bool,
    n: NativeV,
    events: Seq<EventV>,
    i: int,
    broken: Option<ErrorV>,
    e: ErrorV,
)
    requires
        !turned_away(acl, dm_acl, group_acl, n),
    ensures
        0 <= i < events.len() && events[i].error_message.len() > 0 && (forall|j: int|
            0 <= j < i ==> (#[trigger] events[j]).error_message.len() == 0) ==> processed(
            acl,
            language,
            dm_acl,
            group_acl,
            n,
            events,
            broken,
        ) == Err::<ReplyV, ErrorV>(ErrorV::Other(events[i].error_message)),
        (forall|j: int| 0 <= j < events.len() ==> (#[trigger] events[j]).error_message.len() == 0)
            ==> processed(acl, language, dm_acl, group_acl, n, events, Some(e)) == Err::<ReplyV, ErrorV>(
            e,
        ),
{
    if 0 <= i < events.len() && events[i].error_message.len() > 0 && (forall|j: int|
        0 <= j < i ==> (#[trigger] events[j]).error_message.len() == 0) {
        first_error_is_kept(events, i);
    }
    if forall|j: int| 0 <= j < events.len() ==> (#[trigger] events[j]).error_message.len() == 0 {
        no_error_no_failure(events);
    }
}

proof fn first_error_is_kept(events: Seq<EventV>, i: int)
    requires
        0 <= i < events.len(),
        events[i].error_message.len() > 0,
        forall|j: int| 0 <= j < i ==> (#[trigger] events[j]).error_message.len() == 0,
    ensures
        collected_all(events) == Err::<CollectedV, ErrorV>(ErrorV::Other(events[i].error_message)),
    decreases events.len(),
{
    let init = events.drop_last();
    if i < init.len() {
        assert(init[i] == events[i]);
        assert forall|j: int| 0 <= j < i implies (#[trigger] init[j]).error_message.len() == 0 by {
            assert(init[j] == events[j]);
        }
        first_error_is_kept(init, i);
    } else {
        assert forall|j: int| 0 <= j < init.len() implies (#[trigger] init[j]).error_message.len()
            == 0 by {
            assert(init[j] == events[j]);
        }
        no_error_no_failure(init);
        assert(events.last() == events[i]);
    }
}

/// Where an agent says nothing, a WeChat user gets no answer, and any other is told so.
pub proof fn silence_is_told(
    acl: AccessControl,
    language: Seq<char>,
    dm_acl: bool,
    group_acl: bool,
    n: NativeV,
    events: Seq<EventV>,
)
    requires
        !turned_away(acl, dm_acl, group_acl, n),
        forall|j: int|
            0 <= j < events.len() ==> (#[trigger] events[j]).error_message.len() == 0
                && !finished_message(events[j]),
    ensures
        ({
            let r = processed(acl, language, dm_acl, group_acl, n, events, None);
            &&& n.channel_id.len() >= 7 && n.channel_id.take(7) == "wechat:"@ ==> r == Err::<
                ReplyV,
                ErrorV,
            >(ErrorV::Other("incomplete backend response"@))
            &&& n.channel_id.len() >= 7 ==> n.channel_id.take(7) != "wechat:"@ ==> (r matches Ok(x)
                && x.text == "(no response)"@ && x.parts.len() == 1 && x.parts[0].text
                == "(no response)"@ && x.parts[0].kind == PartKind::Text)
        }),
{
    reveal_strlit("wechat:");
    nothing_said(events);
}

proof fn nothing_said(events: Seq<EventV>)
    requires
        forall|j: int|
            0 <= j < events.len() ==> (#[trigger] events[j]).error_message.len() == 0
                && !finished_message(events[j]),
    ensures
        collected_all(events) == Ok::<CollectedV, ErrorV>(nothing_collected()),
    decreases events.len(),
{
    if events.len() > 0 {
        let init = events.drop_last();
        assert forall|j: int| 0 <= j < init.len() implies (#[trigger] init[j]).error_message.len()
            == 0 && !finished_message(init[j]) by {
            assert(init[j] == events[j]);
        }
        nothing_said(init);
        assert(events.last() == events[events.len() - 1]);
    }
}

/// A finished message without parts is its text.
pub proof fn text_alone_is_one_part(n: NativeV, text: Seq<char>)
    requires
        text.len() > 0,
    ensures
        collected_reply(CollectedV { last_text: text, parts: Seq::empty() }, n) matches Ok(r) && r.text
            == text && r.parts.len() == 1 && r.parts[0].kind == PartKind::Text && r.parts[0].text
            == text,
{
}

// ---------------------------------------------------------------------------------------------
// What is shown as it grows
// ---------------------------------------------------------------------------------------------

/// Each finished message adds its text to the answer, behind a blank line where there are others.
pub proof fn messages_add_up(
    v: SessionV,
    e: EventV,
    n: NativeV,
    streaming: bool,
    filter_tool: bool,
    filter_thinking: bool,
)
    requires
        e.kind == EventKind::Message,
        e.status == EventStatus::Completed,
        e.error_message.len() == 0,
        e.tool_name.len() == 0,
        e.text.len() > 0,
    ensures
        session_step(v, e, streaming, filter_tool, filter_thinking) matches Ok((w, _)) && {
            let before = session_reply(v, n);
            let after = session_reply(w, n);
            &&& w.segments.len() == v.segments.len() + 1
            &&& v.segments.len() == 0 ==> after.text == e.text
            &&& v.segments.len() > 0 ==> after.text == before.text + "\n\n"@ + e.text
            &&& e.content.len() > 0 ==> w.parts == v.parts + e.content
            &&& e.content.len() == 0 ==> w.parts.len() == v.parts.len() + 1
                && w.parts.last().text == e.text && w.parts.last().kind == PartKind::Text
                && w.parts.drop_last() == v.parts
            &&& after.parts == w.parts
        },
{
    match session_step(v, e, streaming, filter_tool, filter_thinking) {
        Ok((w, _)) => {
            assert(w.segments == v.segments.push(e.text));
            assert(w.segments.drop_last() =~= v.segments);
            assert(w.segments.last() == e.text);
            assert(w.parts.len() > 0);
            if e.content.len() == 0 {
                assert(w.parts.drop_last() =~= v.parts);
            }
        },
        Err(_) => {},
    }
}

/// An error ends the answer. What a tool does is not shown where that is not wanted, and nothing
/// but finished messages adds to the answer.
pub proof fn other_events_add_nothing(
    v: SessionV,
    e: EventV,
    streaming: bool,
    filter_tool: bool,
    filter_thinking: bool,
)
    ensures
        e.error_message.len() > 0 ==> session_step(v, e, streaming, filter_tool, filter_thinking)
            == Err::<(SessionV, Option<ActionV>), ErrorV>(ErrorV::Other(e.error_message)),
        e.error_message.len() == 0 && filter_tool && e.tool_name.len() > 0 ==> session_step(
            v,
            e,
            streaming,
            filter_tool,
            filter_thinking,
        ) == Ok::<(SessionV, Option<ActionV>), ErrorV>((v, None)),
        e.error_message.len() == 0 && !(e.kind == EventKind::Message && e.status
            == EventStatus::Completed) ==> (session_step(
            v,
            e,
            streaming,
            filter_tool,
            filter_thinking,
        ) matches Ok((w, _)) && w.segments == v.segments && w.parts == v.parts),
        e.error_message.len() == 0 && !streaming ==> (session_step(
            v,
            e,
            streaming,
            filter_tool,
            filter_thinking,
        ) matches Ok((_, a)) && a is None),
{
}

/// A message is shown from its start, as it grows and at its end: what is shown grows by what comes,
/// and ends as all of it, or as the whole text where nothing came before.
pub proof fn shown_text_grows(
    v: SessionV,
    e: EventV,
    filter_tool: bool,
    acc: Seq<char>,
    id: Seq<char>,
)
    requires
        e.error_message.len() == 0,
        e.tool_name.len() == 0,
        id.len() > 0,
    ensures
        e.kind == EventKind::Message && e.status == EventStatus::InProgress && e.message_id == id
            ==> (session_step(v, e, true, filter_tool, true) matches Ok((w, a)) && a == Some(
            ActionV::Start { stream_type: "message"@ },
        ) && lookup(w.stream.buffers, id) == Some(Seq::<char>::empty()) && lookup(w.stream.types, id)
            == Some("message"@)),
        e.kind == EventKind::Content && e.status == EventStatus::InProgress && e.delta && e.msg_id
            == id && lookup(v.stream.types, id) == Some("message"@) && lookup(v.stream.buffers, id)
            == Some(acc) ==> (session_step(v, e, true, filter_tool, true) matches Ok((w, a)) && a
            == Some(ActionV::Delta { stream_type: "message"@, accumulated: acc + e.text }) && lookup(
            w.stream.buffers,
            id,
        ) == Some(acc + e.text)),
        e.kind == EventKind::Message && e.status == EventStatus::Completed && e.message_id == id
            && acc.len() > 0 && lookup(v.stream.buffers, id) == Some(acc) ==> (session_step(
            v,
            e,
            true,
            filter_tool,
            true,
        ) matches Ok((w, a)) && a == Some(
            ActionV::End { stream_type: "message"@, accumulated: acc },
        )),
        e.kind == EventKind::Message && e.status == EventStatus::Completed && e.message_id == id
            && e.text.len() > 0 && lookup(v.stream.buffers, id) is None ==> (session_step(
            v,
            e,
            true,
            filter_tool,
            true,
        ) matches Ok((w, a)) && a == Some(
            ActionV::End { stream_type: "message"@, accumulated: e.text },
        )),
{
    reveal_strlit("message");
    reveal_strlit("reasoning");
    assert("message"@.len() != "reasoning"@.len());
    let s = v.stream;
    if e.kind == EventKind::Message && e.status == EventStatus::InProgress && e.message_id == id {
        with_entry_lookup(s.buffers, id, Seq::<char>::empty(), id);
        with_entry_lookup(s.types, id, "message"@, id);
    }
    if e.kind == EventKind::Content {
        with_entry_lookup(s.buffers, id, acc + e.text, id);
    }
}

/// Answers without an event are told as such; an answer is that of the session where nothing broke
/// off, and what broke it off where something did.
pub proof fn shown_answer_is_that_of_the_session(
    acl: AccessControl,
    language: Seq<char>,
    dm_acl: bool,
    group_acl: bool,
    streaming: bool,
    filter_tool: bool,
    filter_thinking: bool,
    n: NativeV,
    e: ErrorV,
)
    requires
        !turned_away(acl, dm_acl, group_acl, n),
    ensures
        sink_run(
            acl,
            language,
            dm_acl,
            group_acl,
            streaming,
            filter_tool,
            filter_thinking,
            n,
            Seq::empty(),
            None,
        ).1 matches Ok(r) && r.text == "(no response)"@ && r.parts.len() == 1 && r.parts[0].text
            == "(no response)"@,
        sink_run(
            acl,
            language,
            dm_acl,
            group_acl,
            streaming,
            filter_tool,
            filter_thinking,
            n,
            Seq::empty(),
            Some(e),
        ).1 == Err::<ReplyV, ErrorV>(e),
{
}

// ---------------------------------------------------------------------------------------------
// Messages as JSON
// ---------------------------------------------------------------------------------------------

/// A message is read as it is written down: its sender, conversation and what is kept beside it, and
/// each of its parts with its text.
pub proof fn written_message_is_read(channel: Seq<char>, v: JsonV, s: Seq<char>, m: Members, parts: Seq<
    JsonV,
>, i: int)
    requires
        v is Object,
    ensures
        native_from(channel, v) matches Ok(n) && {
            &&& n.channel_id == channel
            &&& text_field(v, "sender_id"@) == Some(s) ==> n.sender_id == s
            &&& text_field(v, "sender_id"@) is None ==> n.sender_id == "unknown"@
            &&& n.session_id == text_field(v, "session_id"@)
            &&& field(v, "meta"@) == Some(JsonV::Object(m)) ==> n.meta == m
            &&& field(v, "meta"@) is None ==> n.meta.len() == 0
            &&& field(v, "content_parts"@) == Some(JsonV::Array(parts)) ==> n.content_parts.len()
                == parts.len() && (0 <= i < parts.len() && text_field(parts[i], "text"@) == Some(s)
                ==> n.content_parts[i].text == s)
            &&& field(v, "content_parts"@) is None ==> n.content_parts.len() == 0
        },
{
}

/// A part is read as the kind that it names, with its text, address and data.
pub proof fn written_part_is_read(v: JsonV, s: Seq<char>, u: Seq<char>)
    requires
        text_field(v, "text"@) == Some(s),
    ensures
        part_from(v).text == s,
        text_field(v, "type"@) is None ==> part_from(v).kind == PartKind::Text,
        text_field(v, "type"@) == Some("text"@) ==> part_from(v).kind == PartKind::Text,
        text_field(v, "type"@) == Some("image"@) ==> part_from(v).kind == PartKind::Image
            && part_from(v).data == field(v, "data"@) && (text_field(v, "image_url"@) == Some(u)
            ==> part_from(v).url == u),
        text_field(v, "type"@) == Some("video"@) ==> part_from(v).kind == PartKind::Video
            && part_from(v).data == field(v, "data"@) && (text_field(v, "video_url"@) == Some(u)
            ==> part_from(v).url == u),
        text_field(v, "type"@) == Some("file"@) ==> part_from(v).kind == PartKind::File && part_from(
            v,
        ).data == field(v, "data"@) && (text_field(v, "file_url"@) == Some(u) ==> part_from(v).url
            == u),
        text_field(v, "type"@) == Some("audio"@) ==> part_from(v).kind == PartKind::Audio
            && part_from(v).data == field(v, "data"@) && (text_field(v, "audio_url"@) == Some(u)
            ==> part_from(v).url == u),
{
    reveal_strlit("text");
    reveal_strlit("image");
    reveal_strlit("video");
    reveal_strlit("file");
    reveal_strlit("audio");
    assert("text"@.len() != "image"@.len());
    assert("text"@.len() != "video"@.len());
    assert("text"@[0] != "file"@[0]);
    assert("text"@.len() != "audio"@.len());
    assert("image"@[0] != "video"@[0]);
    assert("image"@.len() != "file"@.len());
    assert("image"@[0] != "audio"@[0]);
    assert("video"@.len() != "file"@.len());
    assert("video"@[0] != "audio"@[0]);
    assert("file"@.len() != "audio"@.len());
}

// ---------------------------------------------------------------------------------------------
// Who is served
// ---------------------------------------------------------------------------------------------

/// In a group the flag for groups counts, and in a direct chat that for direct chats; a chat that
/// does not say what it is is a direct one. With the flag off everyone is served; with it on only
/// those who are on the whitelist and not on the blacklist, where there are lists.
pub proof fn each_kind_of_chat_goes_by_its_flag(
    acl: AccessControl,
    on: bool,
    other: bool,
    n: NativeV,
    lists: ChannelAcl,
)
    requires
        lookup(acl@, n.channel_id) == Some(lists),
    ensures
        ({
            let welcome = !on || lookup(lists.whitelist@, n.sender_id) is Some && lookup(
                lists.blacklist@,
                n.sender_id,
            ) is None;
            &&& lookup(n.meta, "is_group"@) == Some(JsonV::Bool(true)) ==> (!turned_away(
                acl,
                other,
                on,
                n,
            ) <==> welcome)
            &&& lookup(n.meta, "is_group"@) == Some(JsonV::Bool(false)) ==> (!turned_away(
                acl,
                on,
                other,
                n,
            ) <==> welcome)
            &&& lookup(n.meta, "is_group"@) is None ==> (!turned_away(acl, on, other, n) <==> welcome)
        }),
{
    served_senders_are_whitelisted(acl@, n.channel_id, n.sender_id, on, other, true, lists);
    served_senders_are_whitelisted(acl@, n.channel_id, n.sender_id, on, other, false, lists);
}

/// Thoughts are told from messages.
pub proof fn thoughts_are_told_from_messages(e: EventV)
    ensures
        e.kind == EventKind::Reasoning ==> stream_type(e) == "reasoning"@,
        e.kind != EventKind::Reasoning ==> stream_type(e) == "message"@,
{
}

/// At the end of a message all of it is shown: what came in pieces, or else the text that it ends with.
pub proof fn whole_messages_are_shown_at_their_end(s: StreamV, e: EventV, filter_thinking: bool)
    requires
        e.kind == EventKind::Message,
        e.status == EventStatus::Completed,
        e.message_id.len() > 0,
    ensures
        ({
            let came = match lookup(s.buffers, e.message_id) {
                Some(t) => t,
                None => Seq::empty(),
            };
            let d = dispatched(s, e, filter_thinking);
            &&& came.len() > 0 ==> d.action == Some(
                ActionV::End { stream_type: "message"@, accumulated: came },
            )
            &&& came.len() == 0 && e.text.len() > 0 ==> d.action == Some(
                ActionV::End { stream_type: "message"@, accumulated: e.text },
            )
            &&& came.len() == 0 && e.text.len() == 0 ==> d.action is None
        }),
{
    reveal_strlit("reasoning");
    reveal_strlit("message");
    assert("reasoning"@.len() != "message"@.len());
}

/// What tools say belongs to the answer, unless it is filtered; then it leaves no trace.
pub proof fn tools_are_heard_unless_filtered(
    v: SessionV,
    e: EventV,
    streaming: bool,
    filter_thinking: bool,
)
    requires
        e.error_message.len() == 0,
        e.kind == EventKind::Message,
        e.status == EventStatus::Completed,
        e.text.len() > 0,
    ensures
        ({
            let heard = session_step(v, e, streaming, false, filter_thinking);
            &&& heard is Ok
            &&& heard->Ok_0.0.segments == v.segments.push(e.text)
        }),
        e.tool_name.len() > 0 ==> session_step(v, e, streaming, true, filter_thinking) == Ok::<
            (SessionV, Option<ActionV>),
            ErrorV,
        >((v, None)),
        e.tool_name.len() == 0 ==> session_step(v, e, streaming, true, filter_thinking) == session_step(
            v,
            e,
            streaming,
            false,
            filter_thinking,
        ),
{
}

} // verus!
