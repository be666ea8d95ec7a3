//! What channels and agent backends exchange.

use vstd::prelude::*;

use crate::ids::{is_uuid_text, new_uuid};
use crate::json::{dup_entries, dup_option, Json, JsonV, Members};

verus! {

/// The kind of a part of a message.
#[derive(Debug, Clone, Copy, PartialEq, Eq, Structural)]
pub enum PartKind {
    Text,
    Image,
    Video,
    Audio,
    File,
    Refusal,
    Data,
}

impl Default for PartKind {
    fn default() -> (r: Self)
        ensures
            r == PartKind::Text,
    {
        PartKind::Text
    }
}

/// The kind of an event of an agent.
#[derive(Debug, Clone, Copy, PartialEq, Eq, Structural)]
pub enum EventKind {
    Message,
    Content,
    Response,
    Reasoning,
}

impl Default for EventKind {
    fn default() -> (r: Self)
        ensures
            r == EventKind::Message,
    {
        EventKind::Message
    }
}

/// How far the thing an event speaks of has come.
#[derive(Debug, Clone, Copy, PartialEq, Eq, Structural)]
pub enum EventStatus {
    InProgress,
    Completed,
    Failed,
}

impl Default for EventStatus {
    fn default() -> (r: Self)
        ensures
            r == EventStatus::InProgress,
    {
        EventStatus::InProgress
    }
}

/// A part of a message.
#[derive(Debug)]
pub struct ChannelPart {
    pub kind: PartKind,
    pub text: String,
    pub url: String,
    pub data: Option<Json>,
    pub extra: Vec<(String, Json)>,
}

/// What a part holds.
#[verifier::ext_equal]
pub struct PartV {
    pub kind: PartKind,
    pub text: Seq<char>,
    pub url: Seq<char>,
    pub data: Option<JsonV>,
    pub extra: Members,
}

impl View for ChannelPart {
    type V = PartV;

    open spec fn view(&self) -> PartV {
        PartV {
            kind: self.kind,
            text: self.text@,
            url: self.url@,
            data: self.data.deep_view(),
            extra: self.extra.deep_view(),
        }
    }
}

impl DeepView for ChannelPart {
    type V = PartV;

    open spec fn deep_view(&self) -> PartV {
        self@
    }
}

/// A part that is only text.
pub open spec fn text_part_view(text: Seq<char>) -> PartV {
    PartV {
        kind: PartKind::Text,
        text: text,
        url: Seq::empty(),
        data: None,
        extra: Seq::empty(),
    }
}

impl Default for ChannelPart {
    fn default() -> (r: Self)
        ensures
            r@ == text_part_view(Seq::empty()),
    {
        let r: ChannelPart = ChannelPart {
            kind: PartKind::Text,
            text: String::new(),
            url: String::new(),
            data: None,
            extra: Vec::new(),
        };
        assert(r.extra.deep_view() =~= Seq::empty());
        r
    }
}

impl ChannelPart {
    /// A part that is only text.
    pub fn text_part(text: &str) -> (r: ChannelPart)
        ensures
            r@ == text_part_view(text@),
    {
        let r: ChannelPart = ChannelPart {
            kind: PartKind::Text,
            text: text.to_owned(),
            url: String::new(),
            data: None,
            extra: Vec::new(),
        };
        assert(r.extra.deep_view() =~= Seq::empty());
        r
    }

    /// A copy of the part.
    pub fn dup(&self) -> (r: ChannelPart)
        ensures
            r@ == self@,
    {
        ChannelPart {
            kind: self.kind,
            text: self.text.clone(),
            url: self.url.clone(),
            data: dup_option(self.data.as_ref()),
            extra: dup_entries(&self.extra),
        }
    }
}

/// Copies of the parts.
pub fn dup_parts(parts: &Vec<ChannelPart>) -> (r: Vec<ChannelPart>)
    ensures
        r.deep_view() == parts.deep_view(),
{
    let mut out: Vec<ChannelPart> = Vec::new();
    let mut i: usize = 0;
    while i < parts.len()
        invariant
            i <= parts@.len(),
            out@.len() == i,
            forall|k: int| 0 <= k < i ==> (#[trigger] out@[k])@ == parts@[k]@,
        decreases parts@.len() - i,
    {
        out.push(parts[i].dup());
        i = i + 1;
    }
    assert(out.deep_view() =~= parts.deep_view());
    out
}

/// The list of one part.
pub fn one_part(p: ChannelPart) -> (r: Vec<ChannelPart>)
    ensures
        r.deep_view() == seq![p@],
{
    let mut r: Vec<ChannelPart> = Vec::new();
    r.push(p);
    assert(r.deep_view() =~= seq![p@]);
    r
}

/// What a channel asks of an agent backend.
#[derive(Debug)]
pub struct ChannelRequest {
    pub channel: String,
    pub session_id: String,
    pub user_id: String,
    pub content: Vec<ChannelPart>,
    pub meta: Vec<(String, Json)>,
}

/// What a request holds.
#[verifier::ext_equal]
pub struct RequestV {
    pub channel: Seq<char>,
    pub session_id: Seq<char>,
    pub user_id: Seq<char>,
    pub content: Seq<PartV>,
    pub meta: Members,
}

impl View for ChannelRequest {
    type V = RequestV;

    open spec fn view(&self) -> RequestV {
        RequestV {
            channel: self.channel@,
            session_id: self.session_id@,
            user_id: self.user_id@,
            content: self.content.deep_view(),
            meta: self.meta.deep_view(),
        }
    }
}

/// An event that an agent backend hands to a channel.
#[derive(Debug)]
pub struct AgentEvent {
    pub kind: EventKind,
    pub status: EventStatus,
    pub text: String,
    pub content: Vec<ChannelPart>,
    pub message_id: String,
    pub msg_id: String,
    pub delta: bool,
    pub tool_name: String,
    pub tool_output: Option<Json>,
    pub error_message: String,
    pub meta: Vec<(String, Json)>,
    pub raw: Option<Json>,
}

/// What an event holds.
#[verifier::ext_equal]
pub struct EventV {
    pub kind: EventKind,
    pub status: EventStatus,
    pub text: Seq<char>,
    pub content: Seq<PartV>,
    pub message_id: Seq<char>,
    pub msg_id: Seq<char>,
    pub delta: bool,
    pub tool_name: Seq<char>,
    pub tool_output: Option<JsonV>,
    pub error_message: Seq<char>,
    pub meta: Members,
    pub raw: Option<JsonV>,
}

impl View for AgentEvent {
    type V = EventV;

    open spec fn view(&self) -> EventV {
        EventV {
            kind: self.kind,
            status: self.status,
            text: self.text@,
            content: self.content.deep_view(),
            message_id: self.message_id@,
            msg_id: self.msg_id@,
            delta: self.delta,
            tool_name: self.tool_name@,
            tool_output: self.tool_output.deep_view(),
            error_message: self.error_message@,
            meta: self.meta.deep_view(),
            raw: self.raw.deep_view(),
        }
    }
}

impl DeepView for AgentEvent {
    type V = EventV;

    open spec fn deep_view(&self) -> EventV {
        self@
    }
}

/// The event without contents.
pub open spec fn blank_event() -> EventV {
    EventV {
        kind: EventKind::Message,
        status: EventStatus::InProgress,
        text: Seq::empty(),
        content: Seq::empty(),
        message_id: Seq::empty(),
        msg_id: Seq::empty(),
        delta: false,
        tool_name: Seq::empty(),
        tool_output: None,
        error_message: Seq::empty(),
        meta: Seq::empty(),
        raw: None,
    }
}

/// The event that a response is complete.
pub open spec fn response_completed_view() -> EventV {
    EventV { kind: EventKind::Response, status: EventStatus::Completed, ..blank_event() }
}

/// A complete message of the assistant, under the message id `id`.
pub open spec fn assistant_text_view(text: Seq<char>, id: Seq<char>) -> EventV {
    EventV {
        kind: EventKind::Message,
        status: EventStatus::Completed,
        text: text,
        content: seq![text_part_view(text)],
        message_id: id,
        ..blank_event()
    }
}

/// Whether `e` is a complete message of the assistant with this text, under some fresh id.
pub open spec fn is_assistant_text(e: EventV, text: Seq<char>) -> bool {
    &&& is_uuid_text(e.message_id)
    &&& e == assistant_text_view(text, e.message_id)
}

impl Default for AgentEvent {
    fn default() -> (r: Self)
        ensures
            r@ == blank_event(),
    {
        let r: AgentEvent = AgentEvent {
            kind: EventKind::Message,
            status: EventStatus::InProgress,
            text: String::new(),
            content: Vec::new(),
            message_id: String::new(),
            msg_id: String::new(),
            delta: false,
            tool_name: String::new(),
            tool_output: None,
            error_message: String::new(),
            meta: Vec::new(),
            raw: None,
        };
        assert(r.content.deep_view() =~= Seq::empty());
        assert(r.meta.deep_view() =~= Seq::empty());
        r
    }
}

impl AgentEvent {
    /// A complete message of the assistant.
    pub fn assistant_text(text: &str) -> (r: AgentEvent)
        ensures
            is_assistant_text(r@, text@),
    {
        let mut r: AgentEvent = AgentEvent::default();
        r.status = EventStatus::Completed;
        r.text = text.to_owned();
        r.content = one_part(ChannelPart::text_part(text));
        r.message_id = new_uuid();
        r
    }

    /// The event that a response is complete.
    pub fn response_completed() -> (r: AgentEvent)
        ensures
            r@ == response_completed_view(),
    {
        let mut r: AgentEvent = AgentEvent::default();
        r.kind = EventKind::Response;
        r.status = EventStatus::Completed;
        r
    }

    /// A copy of the event.
    pub fn dup(&self) -> (r: AgentEvent)
        ensures
            r@ == self@,
    {
        AgentEvent {
            kind: self.kind,
            status: self.status,
            text: self.text.clone(),
            content: dup_parts(&self.content),
            message_id: self.message_id.clone(),
            msg_id: self.msg_id.clone(),
            delta: self.delta,
            tool_name: self.tool_name.clone(),
            tool_output: dup_option(self.tool_output.as_ref()),
            error_message: self.error_message.clone(),
            meta: dup_entries(&self.meta),
            raw: dup_option(self.raw.as_ref()),
        }
    }
}

// ---------------------------------------------------------------------------------------------
// Laws
// ---------------------------------------------------------------------------------------------

/// A text that an agent says is one complete message with that text, once as such and once as its
/// only part, with no error and no tool to it; so different texts are different messages.
pub proof fn assistant_text_says_the_text(e: EventV, text: Seq<char>, other: Seq<char>)
    requires
        is_assistant_text(e, text),
    ensures
        e.kind == EventKind::Message,
        e.status == EventStatus::Completed,
        e.text == text,
        e.content.len() == 1,
        e.content[0].kind == PartKind::Text,
        e.content[0].text == text,
        e.message_id.len() == 36,
        e.msg_id.len() == 0,
        e.error_message.len() == 0,
        e.tool_name.len() == 0,
        e.tool_output is None,
        !e.delta,
        e.raw is None,
        e.meta.len() == 0,
        other != text ==> !is_assistant_text(e, other),
{
}

/// The end of a response is no message: it says nothing, reports no error, and is complete.
pub proof fn completed_response_says_nothing()
    ensures
        response_completed_view().kind == EventKind::Response,
        response_completed_view().status == EventStatus::Completed,
        response_completed_view().text.len() == 0,
        response_completed_view().content.len() == 0,
        response_completed_view().message_id.len() == 0,
        response_completed_view().error_message.len() == 0,
        response_completed_view().tool_name.len() == 0,
        !response_completed_view().delta,
        blank_event().kind == EventKind::Message,
        blank_event().status == EventStatus::InProgress,
        blank_event().text.len() == 0,
        blank_event().content.len() == 0,
        blank_event().error_message.len() == 0,
        blank_event().tool_name.len() == 0,
        !blank_event().delta,
{
}

/// A part with a text is that text and nothing else.
pub proof fn text_part_is_its_text(text: Seq<char>)
    ensures
        text_part_view(text).kind == PartKind::Text,
        text_part_view(text).text == text,
        text_part_view(text).url.len() == 0,
        text_part_view(text).data is None,
        text_part_view(text).extra.len() == 0,
{
}

} // verus!
