//! Requests to the runtime, and the runtime's events.

use vstd::prelude::*;

use crate::agent::cli::stream::{part_texts, texts_of_parts};
use crate::json::{
    dup_or_null, elements, elements_field, field, get_entry, object2, object3, one_value, or_null,
    push_field, text, text_field, text_field_or, Json, JsonV, Members,
};
use crate::strs::{chained, concat_all, contains, holds, lowered, same, texts, to_lowercase};
use crate::table::lookup;
use crate::types::{
    blank_event, text_part_view, AgentEvent, ChannelPart, ChannelRequest, EventKind, EventStatus,
    EventV, PartKind, PartV, RequestV,
};

verus! {

// ---------------------------------------------------------------------------------------------
// Requests
// ---------------------------------------------------------------------------------------------

/// A text block.
pub open spec fn text_block(t: Seq<char>) -> JsonV {
    JsonV::Object(seq![("type"@, JsonV::Str("text"@)), ("text"@, JsonV::Str(t))])
}

/// A part of a request as the runtime reads it.
pub open spec fn part_body(p: PartV) -> JsonV {
    match p.kind {
        PartKind::Text | PartKind::Refusal => text_block(p.text),
        PartKind::Image => JsonV::Object(
            seq![("type"@, JsonV::Str("image"@)), ("image_url"@, JsonV::Str(p.url))],
        ),
        PartKind::Video => JsonV::Object(
            seq![("type"@, JsonV::Str("video"@)), ("video_url"@, JsonV::Str(p.url))],
        ),
        PartKind::Audio => JsonV::Object(
            seq![("type"@, JsonV::Str("audio"@)), ("data"@, or_null(p.data))],
        ),
        PartKind::File => JsonV::Object(
            seq![
                ("type"@, JsonV::Str("file"@)),
                ("file_url"@, JsonV::Str(p.url)),
                ("file_id"@, or_null(lookup(p.extra, "file_id"@))),
            ],
        ),
        PartKind::Data => JsonV::Object(
            seq![("type"@, JsonV::Str("data"@)), ("data"@, or_null(p.data))],
        ),
    }
}

/// The parts of a request as the runtime reads them; a blank text where there are none.
pub open spec fn content_body(parts: Seq<PartV>) -> Seq<JsonV> {
    if parts.len() == 0 {
        seq![text_block(" "@)]
    } else {
        parts.map_values(|p: PartV| part_body(p))
    }
}

/// The members of a request's meta data that are forwarded.
pub open spec fn meta_body(meta: Members) -> JsonV {
    JsonV::Object(
        seq![
            ("message_id"@, or_null(lookup(meta, "message_id"@))),
            ("account_id"@, or_null(lookup(meta, "account_id"@))),
            ("is_group"@, or_null(lookup(meta, "is_group"@))),
        ],
    )
}

/// A request as the runtime reads it.
pub open spec fn request_body(r: RequestV) -> JsonV {
    JsonV::Object(
        seq![
            (
                "input"@,
                JsonV::Array(
                    seq![
                        JsonV::Object(
                            seq![
                                ("role"@, JsonV::Str("user"@)),
                                ("content"@, JsonV::Array(content_body(r.content))),
                            ],
                        ),
                    ],
                ),
            ),
            ("session_id"@, JsonV::Str(r.session_id)),
            ("user_id"@, JsonV::Str(r.user_id)),
            ("channel"@, JsonV::Str(r.channel)),
            ("meta"@, meta_body(r.meta)),
        ],
    )
}

/// What is forwarded of a request depends on its meta data only through the message id, the
/// account id and whether it came from a group: other members, such as reply tokens and media
/// keys, stay behind.
pub proof fn other_meta_stays_behind(a: RequestV, b: RequestV)
    requires
        a.channel == b.channel,
        a.session_id == b.session_id,
        a.user_id == b.user_id,
        a.content == b.content,
        lookup(a.meta, "message_id"@) == lookup(b.meta, "message_id"@),
        lookup(a.meta, "account_id"@) == lookup(b.meta, "account_id"@),
        lookup(a.meta, "is_group"@) == lookup(b.meta, "is_group"@),
    ensures
        request_body(a) == request_body(b),
{
}

fn part_to_json(p: &ChannelPart) -> (r: Json)
    ensures
        r@ == part_body(p@),
{
    match p.kind {
        PartKind::Text | PartKind::Refusal => object2(
            "type",
            Json::text("text"),
            "text",
            Json::text(p.text.as_str()),
        ),
        PartKind::Image => object2(
            "type",
            Json::text("image"),
            "image_url",
            Json::text(p.url.as_str()),
        ),
        PartKind::Video => object2(
            "type",
            Json::text("video"),
            "video_url",
            Json::text(p.url.as_str()),
        ),
        PartKind::Audio => object2(
            "type",
            Json::text("audio"),
            "data",
            dup_or_null(p.data.as_ref()),
        ),
        PartKind::File => object3(
            "type",
            Json::text("file"),
            "file_url",
            Json::text(p.url.as_str()),
            "file_id",
            dup_or_null(get_entry(&p.extra, "file_id")),
        ),
        PartKind::Data => object2("type", Json::text("data"), "data", dup_or_null(p.data.as_ref())),
    }
}

/// A request as the runtime reads it.
pub fn build_process_request_body(request: &ChannelRequest) -> (r: Json)
    ensures
        r@ == request_body(request@),
{
    let ghost parts = request@.content;
    let ghost f = |p: PartV| part_body(p);
    let content: Vec<Json> = if request.content.len() == 0 {
        one_value(object2("type", Json::text("text"), "text", Json::text(" ")))
    } else {
        let mut out: Vec<Json> = Vec::new();
        let mut i: usize = 0;
        assert(out.deep_view() =~= parts.take(0).map_values(f));
        while i < request.content.len()
            invariant
                i <= request.content@.len(),
                parts == request.content.deep_view(),
                f == |p: PartV| part_body(p),
                out.deep_view() == parts.take(i as int).map_values(f),
            decreases request.content@.len() - i,
        {
            let ghost before = out.deep_view();
            out.push(part_to_json(&request.content[i]));
            proof {
                assert(out.deep_view() =~= before.push(part_body(parts[i as int])));
                assert(out.deep_view() =~= parts.take(i + 1).map_values(f));
            }
            i = i + 1;
        }
        assert(parts.take(parts.len() as int) == parts);
        out
    };
    assert(content.deep_view() == content_body(parts));
    let user: Json = object2("role", Json::text("user"), "content", Json::array(content));
    let input: Json = Json::array(one_value(user));
    let meta: Json = object3(
        "message_id",
        dup_or_null(get_entry(&request.meta, "message_id")),
        "account_id",
        dup_or_null(get_entry(&request.meta, "account_id")),
        "is_group",
        dup_or_null(get_entry(&request.meta, "is_group")),
    );
    let mut m: Vec<(String, Json)> = Vec::new();
    push_field(&mut m, "input", input);
    push_field(&mut m, "session_id", Json::text(request.session_id.as_str()));
    push_field(&mut m, "user_id", Json::text(request.user_id.as_str()));
    push_field(&mut m, "channel", Json::text(request.channel.as_str()));
    push_field(&mut m, "meta", meta);
    assert(m.deep_view() =~= request_body(request@)->Object_0);
    Json::object(m)
}

// ---------------------------------------------------------------------------------------------
// Events
// ---------------------------------------------------------------------------------------------

/// The status that a name, in lower case, stands for.
pub open spec fn status_named(lower: Seq<char>) -> EventStatus {
    if holds(lower, "in_progress"@) || lower == "inprogress"@ {
        EventStatus::InProgress
    } else if holds(lower, "fail"@) {
        EventStatus::Failed
    } else {
        EventStatus::Completed
    }
}

/// The status that a name, in lower case, stands for.
pub fn status_of_lowered(lower: &str) -> (r: EventStatus)
    ensures
        r == status_named(lower@),
{
    if contains(lower, "in_progress") || same(lower, "inprogress") {
        EventStatus::InProgress
    } else if contains(lower, "fail") {
        EventStatus::Failed
    } else {
        EventStatus::Completed
    }
}

/// The status that a name stands for.
pub fn status_from_str(s: &str) -> (r: EventStatus)
    ensures
        r == status_named(lowered(s@)),
{
    let lower: String = to_lowercase(s);
    status_of_lowered(lower.as_str())
}

/// The text parts among blocks. Where `keep_empty` does not hold, those without a text are left
/// out.
pub open spec fn text_blocks(blocks: Seq<JsonV>, keep_empty: bool) -> Seq<PartV>
    decreases blocks.len(),
{
    if blocks.len() == 0 {
        Seq::empty()
    } else {
        let b = blocks.last();
        let t = text_field_or(b, "text"@, Seq::empty());
        if text_field(b, "type"@) == Some("text"@) && (keep_empty || t.len() > 0) {
            text_blocks(blocks.drop_last(), keep_empty).push(text_part_view(t))
        } else {
            text_blocks(blocks.drop_last(), keep_empty)
        }
    }
}

/// The text parts among the contents of messages.
pub open spec fn message_blocks(messages: Seq<JsonV>) -> Seq<PartV>
    decreases messages.len(),
{
    if messages.len() == 0 {
        Seq::empty()
    } else {
        match elements_field(messages.last(), "content"@) {
            Some(blocks) => message_blocks(messages.drop_last()) + text_blocks(blocks, false),
            None => message_blocks(messages.drop_last()),
        }
    }
}

/// The text parts of an output.
pub open spec fn output_parts(output: JsonV) -> Seq<PartV> {
    match elements(output) {
        Some(messages) => message_blocks(messages),
        None => Seq::empty(),
    }
}

fn push_text_blocks(parts: &mut Vec<ChannelPart>, blocks: &Vec<Json>, keep_empty: bool)
    ensures
        final(parts).deep_view() == old(parts).deep_view() + text_blocks(
            blocks.deep_view(),
            keep_empty,
        ),
{
    let ghost before = parts.deep_view();
    let ghost all = blocks.deep_view();
    let mut i: usize = 0;
    assert(all.take(0) == Seq::<JsonV>::empty());
    assert(before + text_blocks(all.take(0), keep_empty) == before);
    while i < blocks.len()
        invariant
            i <= blocks@.len(),
            all == blocks.deep_view(),
            parts.deep_view() == before + text_blocks(all.take(i as int), keep_empty),
        decreases blocks@.len() - i,
    {
        let b: &Json = &blocks[i];
        let ghost now = parts.deep_view();
        proof {
            assert(all.take(i + 1).drop_last() == all.take(i as int));
            assert(all.take(i + 1).last() == b@);
        }
        let is_text: bool = match b.get_str("type") {
            Some(t) => same(t, "text"),
            None => false,
        };
        let t: String = match b.get_str("text") {
            Some(t) => t.to_owned(),
            None => String::new(),
        };
        if is_text && (keep_empty || !t.as_str().is_empty()) {
            parts.push(ChannelPart::text_part(t.as_str()));
            assert(parts.deep_view() =~= now.push(text_part_view(t@)));
            assert(parts.deep_view() =~= before + text_blocks(all.take(i + 1), keep_empty));
        }
        i = i + 1;
    }
    assert(all.take(all.len() as int) == all);
}

fn parts_from_output(output: &Json) -> (r: Vec<ChannelPart>)
    ensures
        r.deep_view() == output_parts(output@),
{
    let mut parts: Vec<ChannelPart> = Vec::new();
    match output.as_array() {
        Some(messages) => {
            let ghost all = messages.deep_view();
            let mut i: usize = 0;
            assert(all.take(0) == Seq::<JsonV>::empty());
            assert(parts.deep_view() =~= Seq::<PartV>::empty());
            while i < messages.len()
                invariant
                    i <= messages@.len(),
                    all == messages.deep_view(),
                    parts.deep_view() == message_blocks(all.take(i as int)),
                decreases messages@.len() - i,
            {
                proof {
                    assert(all.take(i + 1).drop_last() == all.take(i as int));
                    assert(all.take(i + 1).last() == messages@[i as int]@);
                }
                if let Some(blocks) = messages[i].get_array("content") {
                    push_text_blocks(&mut parts, blocks, false);
                }
                i = i + 1;
            }
            assert(all.take(all.len() as int) == all);
        },
        None => {
            assert(parts.deep_view() =~= Seq::<PartV>::empty());
        },
    }
    parts
}

/// The texts of all parts, one after another.
pub open spec fn chained_texts(parts: Seq<PartV>) -> Seq<char> {
    chained(part_texts(parts))
}

/// An event of the runtime that carries part of a message.
pub open spec fn content_event(v: JsonV, status: EventStatus) -> EventV {
    EventV {
        kind: EventKind::Content,
        status: status,
        text: match text_field(v, "text"@) {
            Some(t) => t,
            None => match field(v, "content"@) {
                Some(c) => text_field_or(c, "text"@, Seq::empty()),
                None => Seq::empty(),
            },
        },
        msg_id: text_field_or(v, "msg_id"@, Seq::empty()),
        delta: match field(v, "delta"@) {
            Some(JsonV::Bool(b)) => b,
            _ => true,
        },
        raw: Some(v),
        ..blank_event()
    }
}

/// The error of a response that failed.
pub open spec fn response_error(v: JsonV) -> Seq<char> {
    match field(v, "error"@) {
        Some(e) => match text_field(e, "message"@) {
            Some(m) => m,
            None => match text(e) {
                Some(m) => m,
                None => "unknown error"@,
            },
        },
        None => "unknown error"@,
    }
}

/// An event of the runtime about the whole response.
pub open spec fn response_event(v: JsonV, status: EventStatus) -> Option<EventV> {
    if status == EventStatus::Failed {
        Some(
            EventV {
                kind: EventKind::Response,
                status: EventStatus::Failed,
                error_message: response_error(v),
                raw: Some(v),
                ..blank_event()
            },
        )
    } else {
        let bare = if status == EventStatus::Completed {
            Some(
                EventV {
                    kind: EventKind::Response,
                    status: EventStatus::Completed,
                    raw: Some(v),
                    ..blank_event()
                },
            )
        } else {
            None
        };
        match field(v, "output"@) {
            Some(output) => {
                let parts = output_parts(output);
                let text = chained_texts(parts);
                if text.len() > 0 || status == EventStatus::Completed {
                    Some(
                        EventV {
                            kind: EventKind::Message,
                            status: status,
                            text: text,
                            content: parts,
                            message_id: text_field_or(v, "id"@, Seq::empty()),
                            raw: Some(v),
                            ..blank_event()
                        },
                    )
                } else {
                    bare
                }
            },
            None => bare,
        }
    }
}

/// An event of the runtime that carries a whole message.
pub open spec fn message_event(v: JsonV, status: EventStatus) -> Option<EventV> {
    match field(v, "message"@) {
        None => None,
        Some(msg) => {
            let parts = match elements_field(msg, "content"@) {
                Some(blocks) => text_blocks(blocks, true),
                None => Seq::empty(),
            };
            Some(
                EventV {
                    kind: if text_field(v, "type"@) == Some("reasoning"@) {
                        EventKind::Reasoning
                    } else {
                        EventKind::Message
                    },
                    status: status,
                    text: chained_texts(parts),
                    content: parts,
                    message_id: text_field_or(v, "id"@, Seq::empty()),
                    delta: match field(v, "delta"@) {
                        Some(JsonV::Bool(b)) => b,
                        _ => false,
                    },
                    raw: Some(v),
                    ..blank_event()
                },
            )
        },
    }
}

/// What an event of the runtime means, given its status.
pub open spec fn runtime_event(v: JsonV, status: EventStatus) -> Option<EventV> {
    let object = text_field(v, "object"@);
    if object == Some("content"@) {
        Some(content_event(v, status))
    } else if object == Some("response"@) {
        response_event(v, status)
    } else if object == Some("message"@) {
        message_event(v, status)
    } else {
        None
    }
}

fn read_flag(value: &Json, key: &str, d: bool) -> (r: bool)
    ensures
        r == match field(value@, key@) {
            Some(JsonV::Bool(b)) => b,
            _ => d,
        },
{
    match value.get(key) {
        Some(x) => match x.as_bool() {
            Some(b) => b,
            None => d,
        },
        None => d,
    }
}

fn read_text(value: &Json, key: &str) -> (r: String)
    ensures
        r@ == text_field_or(value@, key@, Seq::empty()),
{
    match value.get_str(key) {
        Some(t) => t.to_owned(),
        None => String::new(),
    }
}

fn content_event_from(value: &Json, status: EventStatus) -> (r: AgentEvent)
    ensures
        r@ == content_event(value@, status),
{
    let text: String = match value.get_str("text") {
        Some(t) => t.to_owned(),
        None => match value.get("content") {
            Some(c) => read_text(c, "text"),
            None => String::new(),
        },
    };
    let mut e: AgentEvent = AgentEvent::default();
    e.kind = EventKind::Content;
    e.status = status;
    e.text = text;
    e.msg_id = read_text(value, "msg_id");
    e.delta = read_flag(value, "delta", true);
    e.raw = Some(value.dup());
    e
}

fn response_event_from(value: &Json, status: EventStatus) -> (r: Option<AgentEvent>)
    ensures
        r.deep_view() == response_event(value@, status),
{
    if status == EventStatus::Failed {
        let err: String = match value.get("error") {
            Some(e) => match e.get_str("message") {
                Some(m) => m.to_owned(),
                None => match e.as_str() {
                    Some(m) => m.to_owned(),
                    None => "unknown error".to_owned(),
                },
            },
            None => "unknown error".to_owned(),
        };
        let mut e: AgentEvent = AgentEvent::default();
        e.kind = EventKind::Response;
        e.status = EventStatus::Failed;
        e.error_message = err;
        e.raw = Some(value.dup());
        return Some(e);
    }
    if let Some(output) = value.get("output") {
        let parts: Vec<ChannelPart> = parts_from_output(output);
        let ts: Vec<String> = texts_of_parts(&parts);
        let text: String = concat_all(&ts);
        if !text.as_str().is_empty() || status == EventStatus::Completed {
            let mut e: AgentEvent = AgentEvent::default();
            e.status = status;
            e.text = text;
            e.content = parts;
            e.message_id = read_text(value, "id");
            e.raw = Some(value.dup());
            return Some(e);
        }
    }
    if status == EventStatus::Completed {
        let mut e: AgentEvent = AgentEvent::default();
        e.kind = EventKind::Response;
        e.status = EventStatus::Completed;
        e.raw = Some(value.dup());
        return Some(e);
    }
    None
}

fn message_event_from(value: &Json, status: EventStatus) -> (r: Option<AgentEvent>)
    ensures
        r.deep_view() == message_event(value@, status),
{
    let msg: &Json = match value.get("message") {
        Some(m) => m,
        None => {
            return None;
        },
    };
    let mut parts: Vec<ChannelPart> = Vec::new();
    assert(parts.deep_view() =~= Seq::<PartV>::empty());
    if let Some(blocks) = msg.get_array("content") {
        push_text_blocks(&mut parts, blocks, true);
        assert(parts.deep_view() =~= text_blocks(blocks.deep_view(), true));
    }
    let ts: Vec<String> = texts_of_parts(&parts);
    let text: String = concat_all(&ts);
    let is_reasoning: bool = match value.get_str("type") {
        Some(t) => same(t, "reasoning"),
        None => false,
    };
    let mut e: AgentEvent = AgentEvent::default();
    e.kind = if is_reasoning {
        EventKind::Reasoning
    } else {
        EventKind::Message
    };
    e.status = status;
    e.text = text;
    e.content = parts;
    e.message_id = read_text(value, "id");
    e.delta = read_flag(value, "delta", false);
    e.raw = Some(value.dup());
    Some(e)
}

/// What an event of the runtime means, given its status.
pub fn agent_event_with_status(value: &Json, status: EventStatus) -> (r: Option<AgentEvent>)
    ensures
        r.deep_view() == runtime_event(value@, status),
{
    match value.get_str("object") {
        Some(object) => {
            if same(object, "content") {
                return Some(content_event_from(value, status));
            }
            if same(object, "response") {
                return response_event_from(value, status);
            }
            if same(object, "message") {
                return message_event_from(value, status);
            }
            None
        },
        None => None,
    }
}

/// What an event of the runtime means. An event without a status is complete.
pub fn agent_event_from_runtime_json(value: &Json) -> (r: Option<AgentEvent>)
    ensures
        r.deep_view() == runtime_event(
            value@,
            status_named(lowered(text_field_or(value@, "status"@, "completed"@))),
        ),
{
    let name: String = value.get_string_or("status", "completed");
    let status: EventStatus = status_from_str(name.as_str());
    agent_event_with_status(value, status)
}

} // verus!
