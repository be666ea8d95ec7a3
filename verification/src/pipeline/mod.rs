//! From a message of a channel to a request for an agent, and from the agent's events to a reply.

use vstd::prelude::*;

use crate::acl::{blocked, deny_text, AccessControl};
use crate::error::{ErrorV, GatewayError};
use crate::json::{
    dup_entries, dup_option, field, get_entry_bool_or, members, text_field, text_field_or,
    truth_of_or, Json, JsonV, Members,
};
use crate::queue::{priority_for_query, priority_of, session_key, session_key_of};
use crate::strs::{begins, lowered, same, starts_with, trimmed};
use crate::types::{
    dup_parts, one_part, text_part_view, AgentEvent, ChannelPart, ChannelRequest, EventKind,
    EventStatus, EventV, PartKind, PartV, RequestV,
};

pub mod laws;
pub mod streaming;

verus! {

/// A message as a channel received it.
#[derive(Debug)]
pub struct NativeMessage {
    pub channel_id: String,
    pub sender_id: String,
    pub session_id: Option<String>,
    pub content_parts: Vec<ChannelPart>,
    pub meta: Vec<(String, Json)>,
}

/// What a message holds.
#[verifier::ext_equal]
pub struct NativeV {
    pub channel_id: Seq<char>,
    pub sender_id: Seq<char>,
    pub session_id: Option<Seq<char>>,
    pub content_parts: Seq<PartV>,
    pub meta: Members,
}

impl View for NativeMessage {
    type V = NativeV;

    open spec fn view(&self) -> NativeV {
        NativeV {
            channel_id: self.channel_id@,
            sender_id: self.sender_id@,
            session_id: self.session_id.deep_view(),
            content_parts: self.content_parts.deep_view(),
            meta: self.meta.deep_view(),
        }
    }
}

/// A reply to a message.
#[derive(Debug)]
pub struct ProcessedReply {
    pub text: String,
    pub parts: Vec<ChannelPart>,
    pub meta: Vec<(String, Json)>,
    pub session_id: String,
    pub user_id: String,
}

/// What a reply holds.
#[verifier::ext_equal]
pub struct ReplyV {
    pub text: Seq<char>,
    pub parts: Seq<PartV>,
    pub meta: Members,
    pub session_id: Seq<char>,
    pub user_id: Seq<char>,
}

impl View for ProcessedReply {
    type V = ReplyV;

    open spec fn view(&self) -> ReplyV {
        ReplyV {
            text: self.text@,
            parts: self.parts.deep_view(),
            meta: self.meta.deep_view(),
            session_id: self.session_id@,
            user_id: self.user_id@,
        }
    }
}

/// The session of a message: its own, or that of its sender on its channel.
pub open spec fn session_of(n: NativeV) -> Seq<char> {
    match n.session_id {
        Some(s) => s,
        None => session_key_of(n.channel_id, n.sender_id),
    }
}

/// The session of a message.
pub fn session_id_of(native: &NativeMessage) -> (r: String)
    ensures
        r@ == session_of(native@),
{
    match &native.session_id {
        Some(s) => s.clone(),
        None => session_key(native.channel_id.as_str(), native.sender_id.as_str()),
    }
}

/// The reply to a message with this text and these parts.
pub open spec fn reply_to(n: NativeV, text: Seq<char>, parts: Seq<PartV>) -> ReplyV {
    ReplyV { text: text, parts: parts, meta: n.meta, session_id: session_of(n), user_id: n.sender_id }
}

/// The reply to a message with this text and these parts.
pub fn make_reply(native: &NativeMessage, text: String, parts: Vec<ChannelPart>) -> (r:
    ProcessedReply)
    ensures
        r@ == reply_to(native@, text@, parts.deep_view()),
{
    ProcessedReply {
        text: text,
        parts: parts,
        meta: dup_entries(&native.meta),
        session_id: session_id_of(native),
        user_id: native.sender_id.clone(),
    }
}

/// A message as a request.
pub open spec fn request_of(n: NativeV) -> RequestV {
    RequestV {
        channel: n.channel_id,
        session_id: session_of(n),
        user_id: n.sender_id,
        content: n.content_parts,
        meta: n.meta,
    }
}

/// A message as a request.
pub fn native_to_request(native: &NativeMessage) -> (r: ChannelRequest)
    ensures
        r@ == request_of(native@),
{
    ChannelRequest {
        channel: native.channel_id.clone(),
        session_id: session_id_of(native),
        user_id: native.sender_id.clone(),
        content: dup_parts(&native.content_parts),
        meta: dup_entries(&native.meta),
    }
}

// ---------------------------------------------------------------------------------------------
// Access control
// ---------------------------------------------------------------------------------------------

/// Whether the sender of a message is turned away.
pub open spec fn turned_away(acl: AccessControl, dm_acl: bool, group_acl: bool, n: NativeV) -> bool {
    blocked(
        acl@,
        n.channel_id,
        n.sender_id,
        dm_acl,
        group_acl,
        truth_of_or(n.meta, "is_group"@, false),
    )
}

/// What access control makes of a message.
pub enum Admission {
    Denied(ProcessedReply),
    Request(ChannelRequest),
}

/// Turns a message away with a reply, or into a request.
pub fn pass_gate(
    acl: &AccessControl,
    language: &str,
    dm_acl: bool,
    group_acl: bool,
    native: &NativeMessage,
) -> (r: Admission)
    ensures
        match r {
            Admission::Denied(reply) => turned_away(*acl, dm_acl, group_acl, native@) && reply@
                == reply_to(
                native@,
                deny_text(language@, native.sender_id@),
                seq![text_part_view(deny_text(language@, native.sender_id@))],
            ),
            Admission::Request(request) => !turned_away(*acl, dm_acl, group_acl, native@)
                && request@ == request_of(native@),
        },
{
    let is_group: bool = get_entry_bool_or(&native.meta, "is_group", false);
    if acl.check_blocked_with_flags(
        native.channel_id.as_str(),
        native.sender_id.as_str(),
        dm_acl,
        group_acl,
        is_group,
    ) {
        let msg: String = acl.deny_message(language, native.sender_id.as_str());
        let parts: Vec<ChannelPart> = one_part(ChannelPart::text_part(msg.as_str()));
        return Admission::Denied(make_reply(native, msg, parts));
    }
    Admission::Request(native_to_request(native))
}

// ---------------------------------------------------------------------------------------------
// One reply from all events
// ---------------------------------------------------------------------------------------------

/// What the events so far make of the reply.
pub struct ReplyCollector {
    pub last_text: String,
    pub parts: Vec<ChannelPart>,
}

/// What a collector holds.
#[verifier::ext_equal]
pub struct CollectedV {
    pub last_text: Seq<char>,
    pub parts: Seq<PartV>,
}

impl View for ReplyCollector {
    type V = CollectedV;

    open spec fn view(&self) -> CollectedV {
        CollectedV { last_text: self.last_text@, parts: self.parts.deep_view() }
    }
}

/// Whether an event ends a message.
pub open spec fn ends_message(e: EventV) -> bool {
    e.kind == EventKind::Message && (e.status == EventStatus::Completed || e.status
        == EventStatus::Failed)
}

/// The collector after an event: the last message that has a text gives the text, and the last
/// that has parts gives the parts. An event with an error ends it all.
pub open spec fn collected(c: CollectedV, e: EventV) -> Result<CollectedV, ErrorV> {
    if e.error_message.len() > 0 {
        Err(ErrorV::Other(e.error_message))
    } else if ends_message(e) {
        Ok(
            CollectedV {
                last_text: if e.text.len() > 0 {
                    e.text
                } else {
                    c.last_text
                },
                parts: if e.content.len() > 0 {
                    e.content
                } else {
                    c.parts
                },
            },
        )
    } else {
        Ok(c)
    }
}

/// The reply once the events have ended. WeChat is not answered where nothing came; elsewhere
/// the reply then says so.
pub open spec fn collected_reply(c: CollectedV, n: NativeV) -> Result<ReplyV, ErrorV> {
    if c.last_text.len() == 0 && c.parts.len() == 0 {
        if begins(n.channel_id, "wechat:"@) {
            Err(ErrorV::Other("incomplete backend response"@))
        } else {
            Ok(reply_to(n, "(no response)"@, seq![text_part_view("(no response)"@)]))
        }
    } else if c.parts.len() == 0 {
        Ok(reply_to(n, c.last_text, seq![text_part_view(c.last_text)]))
    } else {
        Ok(reply_to(n, c.last_text, c.parts))
    }
}

impl ReplyCollector {
    /// The collector before any event.
    pub fn new() -> (r: ReplyCollector)
        ensures
            r@ == (CollectedV { last_text: Seq::empty(), parts: Seq::empty() }),
    {
        let r: ReplyCollector = ReplyCollector { last_text: String::new(), parts: Vec::new() };
        assert(r.parts.deep_view() =~= Seq::<PartV>::empty());
        r
    }

    /// Takes in an event.
    pub fn on_event(&mut self, event: AgentEvent) -> (r: Result<(), GatewayError>)
        ensures
            match r {
                Ok(_) => collected(old(self)@, event@) == Ok::<CollectedV, ErrorV>(final(self)@),
                Err(e) => collected(old(self)@, event@) == Err::<CollectedV, ErrorV>(e@)
                    && final(self)@ == old(self)@,
            },
    {
        let event: AgentEvent = event;
        if !event.error_message.as_str().is_empty() {
            return Err(GatewayError::Other(event.error_message));
        }
        if event.kind == EventKind::Message && (event.status == EventStatus::Completed
            || event.status == EventStatus::Failed) {
            if !event.text.as_str().is_empty() {
                self.last_text = event.text;
            }
            if event.content.len() > 0 {
                self.parts = event.content;
            }
        }
        Ok(())
    }

    /// The reply once the events have ended.
    pub fn finish(self, native: &NativeMessage) -> (r: Result<ProcessedReply, GatewayError>)
        ensures
            match r {
                Ok(reply) => collected_reply(self@, native@) == Ok::<ReplyV, ErrorV>(reply@),
                Err(e) => collected_reply(self@, native@) == Err::<ReplyV, ErrorV>(e@),
            },
    {
        if self.parts.len() > 0 {
            return Ok(make_reply(native, self.last_text, self.parts));
        }
        if self.last_text.as_str().is_empty() {
            if starts_with(native.channel_id.as_str(), "wechat:") {
                return Err(GatewayError::other("incomplete backend response"));
            }
            let parts: Vec<ChannelPart> = one_part(ChannelPart::text_part("(no response)"));
            return Ok(make_reply(native, "(no response)".to_owned(), parts));
        }
        let parts: Vec<ChannelPart> = one_part(ChannelPart::text_part(self.last_text.as_str()));
        Ok(make_reply(native, self.last_text, parts))
    }
}

/// The collector before any event.
pub open spec fn nothing_collected() -> CollectedV {
    CollectedV { last_text: Seq::empty(), parts: Seq::empty() }
}

/// The collector after all these events; the first error ends it.
pub open spec fn collected_all(events: Seq<EventV>) -> Result<CollectedV, ErrorV>
    decreases events.len(),
{
    if events.len() == 0 {
        Ok(nothing_collected())
    } else {
        match collected_all(events.drop_last()) {
            Ok(c) => collected(c, events.last()),
            Err(e) => Err(e),
        }
    }
}

/// The reply to a message that the backend answers with these events, and with an error at the end
/// where its answer broke off.
pub open spec fn processed(
    acl: AccessControl,
    language: Seq<char>,
    dm_acl: bool,
    group_acl: bool,
    n: NativeV,
    events: Seq<EventV>,
    broken: Option<ErrorV>,
) -> Result<ReplyV, ErrorV> {
    if turned_away(acl, dm_acl, group_acl, n) {
        let msg = deny_text(language, n.sender_id);
        Ok(reply_to(n, msg, seq![text_part_view(msg)]))
    } else {
        match collected_all(events) {
            Err(e) => Err(e),
            Ok(c) => match broken {
                Some(e) => Err(e),
                None => collected_reply(c, n),
            },
        }
    }
}

proof fn collected_error_stays(events: Seq<EventV>, i: int)
    requires
        0 <= i <= events.len(),
        collected_all(events.take(i)) is Err,
    ensures
        collected_all(events) == collected_all(events.take(i)),
    decreases events.len(),
{
    if i == events.len() {
        assert(events.take(i) == events);
    } else {
        assert(events.drop_last().take(i) == events.take(i));
        collected_error_stays(events.drop_last(), i);
    }
}

/// The reply to a message: one that turns its sender away, or what the backend said. `events` is
/// what the backend answered, and `broken` the error with which its answer broke off, if it did.
pub fn process_native(
    acl: &AccessControl,
    language: &str,
    dm_acl: bool,
    group_acl: bool,
    native: &NativeMessage,
    events: &Vec<AgentEvent>,
    broken: Option<GatewayError>,
) -> (r: Result<ProcessedReply, GatewayError>)
    ensures
        processed(
            *acl,
            language@,
            dm_acl,
            group_acl,
            native@,
            events.deep_view(),
            match broken {
                Some(e) => Some(e@),
                None => None,
            },
        ) == (match r {
            Ok(reply) => Ok::<ReplyV, ErrorV>(reply@),
            Err(e) => Err::<ReplyV, ErrorV>(e@),
        }),
{
    if let Admission::Denied(reply) = pass_gate(acl, language, dm_acl, group_acl, native) {
        return Ok(reply);
    }
    let ghost all = events.deep_view();
    let mut c: ReplyCollector = ReplyCollector::new();
    let mut i: usize = 0;
    assert(all.take(0) == Seq::<EventV>::empty());
    while i < events.len()
        invariant
            i <= events@.len(),
            all == events.deep_view(),
            !turned_away(*acl, dm_acl, group_acl, native@),
            collected_all(all.take(i as int)) == Ok::<CollectedV, ErrorV>(c@),
        decreases events@.len() - i,
    {
        proof {
            assert(all.take(i + 1).drop_last() == all.take(i as int));
            assert(all.take(i + 1).last() == events@[i as int]@);
        }
        if let Err(e) = c.on_event(events[i].dup()) {
            proof {
                collected_error_stays(all, i + 1);
            }
            return Err(e);
        }
        i = i + 1;
    }
    assert(all.take(all.len() as int) == all);
    if let Some(e) = broken {
        return Err(e);
    }
    c.finish(native)
}

/// A message from a sender who is turned away never reaches the backend: whatever the backend
/// would say, the reply is the same.
pub proof fn denied_sender_is_not_served(
    acl: AccessControl,
    language: Seq<char>,
    dm_acl: bool,
    group_acl: bool,
    n: NativeV,
    events: Seq<EventV>,
    broken: Option<ErrorV>,
)
    requires
        turned_away(acl, dm_acl, group_acl, n),
    ensures
        processed(acl, language, dm_acl, group_acl, n, events, broken) == Ok::<ReplyV, ErrorV>(
            reply_to(
                n,
                deny_text(language, n.sender_id),
                seq![text_part_view(deny_text(language, n.sender_id))],
            ),
        ),
{
}

// ---------------------------------------------------------------------------------------------
// The text of a message
// ---------------------------------------------------------------------------------------------

/// The text of the first text part.
pub open spec fn query_of(parts: Seq<PartV>) -> Seq<char>
    decreases parts.len(),
{
    if parts.len() == 0 {
        Seq::empty()
    } else if parts[0].kind == PartKind::Text {
        parts[0].text
    } else {
        query_of(parts.drop_first())
    }
}

/// The text of the first text part.
pub fn extract_query(native: &NativeMessage) -> (r: String)
    ensures
        r@ == query_of(native@.content_parts),
{
    let ghost all = native.content_parts.deep_view();
    let mut i: usize = 0;
    assert(all.skip(0) == all);
    while i < native.content_parts.len()
        invariant
            i <= native.content_parts@.len(),
            all == native.content_parts.deep_view(),
            query_of(all) == query_of(all.skip(i as int)),
        decreases native.content_parts@.len() - i,
    {
        let p: &ChannelPart = &native.content_parts[i];
        assert(all.skip(i as int)[0] == p@);
        if p.kind == PartKind::Text {
            return p.text.clone();
        }
        assert(all.skip(i as int).drop_first() == all.skip(i + 1));
        i = i + 1;
    }
    String::new()
}

/// How urgent a message is.
pub fn message_priority(native: &NativeMessage) -> (r: i32)
    ensures
        r == priority_of(lowered(trimmed(query_of(native@.content_parts)))),
{
    let q: String = extract_query(native);
    priority_for_query(q.as_str())
}

// ---------------------------------------------------------------------------------------------
// Messages as JSON
// ---------------------------------------------------------------------------------------------

/// The members of the object under `k`; none where there is no object.
pub open spec fn members_field(v: JsonV, k: Seq<char>) -> Members {
    match field(v, k) {
        Some(JsonV::Object(m)) => m,
        _ => Seq::empty(),
    }
}

/// The kind of a part and the name of its URL, by the name of its type. Other types are text.
pub open spec fn part_type(t: Seq<char>) -> Option<(PartKind, Seq<char>)> {
    if t == "image"@ {
        Some((PartKind::Image, "image_url"@))
    } else if t == "video"@ {
        Some((PartKind::Video, "video_url"@))
    } else if t == "file"@ {
        Some((PartKind::File, "file_url"@))
    } else if t == "audio"@ {
        Some((PartKind::Audio, "audio_url"@))
    } else {
        None
    }
}

/// A part as JSON describes it.
pub open spec fn part_from(v: JsonV) -> PartV {
    let text = text_field_or(v, "text"@, Seq::empty());
    match part_type(text_field_or(v, "type"@, "text"@)) {
        Some((kind, url)) => PartV {
            kind: kind,
            text: text,
            url: text_field_or(v, url, Seq::empty()),
            data: field(v, "data"@),
            extra: members_field(v, "extra"@),
        },
        None => text_part_view(text),
    }
}

/// A message as JSON describes it.
pub open spec fn native_from(channel_id: Seq<char>, payload: JsonV) -> Result<NativeV, ErrorV> {
    match payload {
        JsonV::Object(_) => Ok(
            NativeV {
                channel_id: channel_id,
                sender_id: text_field_or(payload, "sender_id"@, "unknown"@),
                session_id: text_field(payload, "session_id"@),
                content_parts: match field(payload, "content_parts"@) {
                    Some(JsonV::Array(parts)) => parts.map_values(|p: JsonV| part_from(p)),
                    _ => Seq::empty(),
                },
                meta: members_field(payload, "meta"@),
            },
        ),
        _ => Err(ErrorV::Other("native payload must be a JSON object"@)),
    }
}

fn copy_members(v: &Json, key: &str) -> (r: Vec<(String, Json)>)
    ensures
        r.deep_view() == members_field(v@, key@),
{
    match v.get(key) {
        Some(x) => match x.as_object() {
            Some(m) => dup_entries(m),
            None => {
                let r: Vec<(String, Json)> = Vec::new();
                assert(r.deep_view() =~= Seq::<(Seq<char>, JsonV)>::empty());
                r
            },
        },
        None => {
            let r: Vec<(String, Json)> = Vec::new();
            assert(r.deep_view() =~= Seq::<(Seq<char>, JsonV)>::empty());
            r
        },
    }
}

fn copy_text(v: &Json, key: &str) -> (r: String)
    ensures
        r@ == text_field_or(v@, key@, Seq::empty()),
{
    match v.get_str(key) {
        Some(t) => t.to_owned(),
        None => String::new(),
    }
}

fn part_from_json(p: &Json) -> (r: ChannelPart)
    ensures
        r@ == part_from(p@),
{
    let t: String = p.get_string_or("type", "text");
    let text: String = copy_text(p, "text");
    let (kind, url): (PartKind, &str) = if same(t.as_str(), "image") {
        (PartKind::Image, "image_url")
    } else if same(t.as_str(), "video") {
        (PartKind::Video, "video_url")
    } else if same(t.as_str(), "file") {
        (PartKind::File, "file_url")
    } else if same(t.as_str(), "audio") {
        (PartKind::Audio, "audio_url")
    } else {
        return ChannelPart::text_part(text.as_str());
    };
    ChannelPart {
        kind: kind,
        text: text,
        url: copy_text(p, url),
        data: dup_option(p.get("data")),
        extra: copy_members(p, "extra"),
    }
}

/// A message as JSON describes it.
pub fn native_from_json(channel_id: &str, payload: &Json) -> (r: Result<NativeMessage, GatewayError>)
    ensures
        match r {
            Ok(n) => native_from(channel_id@, payload@) == Ok::<NativeV, ErrorV>(n@),
            Err(e) => native_from(channel_id@, payload@) == Err::<NativeV, ErrorV>(e@),
        },
{
    if payload.as_object().is_none() {
        return Err(GatewayError::other("native payload must be a JSON object"));
    }
    let sender_id: String = payload.get_string_or("sender_id", "unknown");
    let session_id: Option<String> = match payload.get_str("session_id") {
        Some(s) => Some(s.to_owned()),
        None => None,
    };
    let meta: Vec<(String, Json)> = copy_members(payload, "meta");
    let mut content_parts: Vec<ChannelPart> = Vec::new();
    let ghost f = |p: JsonV| part_from(p);
    assert(content_parts.deep_view() =~= Seq::<PartV>::empty());
    if let Some(parts) = payload.get_array("content_parts") {
        let ghost all = parts.deep_view();
        let mut i: usize = 0;
        assert(content_parts.deep_view() =~= all.take(0).map_values(f));
        while i < parts.len()
            invariant
                i <= parts@.len(),
                all == parts.deep_view(),
                f == |p: JsonV| part_from(p),
                content_parts.deep_view() == all.take(i as int).map_values(f),
            decreases parts@.len() - i,
        {
            let ghost before = content_parts.deep_view();
            content_parts.push(part_from_json(&parts[i]));
            proof {
                assert(content_parts.deep_view() =~= before.push(part_from(all[i as int])));
                assert(content_parts.deep_view() =~= all.take(i + 1).map_values(f));
            }
            i = i + 1;
        }
        assert(all.take(all.len() as int) == all);
    }
    Ok(
        NativeMessage {
            channel_id: channel_id.to_owned(),
            sender_id: sender_id,
            session_id: session_id,
            content_parts: content_parts,
            meta: meta,
        },
    )
}

} // verus!
