//! Events as they come in: what a channel shows while an agent is still at work.

use vstd::prelude::*;

use crate::acl::{deny_text, AccessControl};
use crate::agent::cli::stream::{part_texts, texts_of_parts};
use crate::error::{ErrorV, GatewayError};
use crate::pipeline::{
    make_reply, pass_gate, reply_to, turned_away, Admission, NativeMessage, NativeV, ProcessedReply,
    ReplyV,
};
use crate::strs::{chained, chained_push, concat_all, join, joined, same, texts, texts_push};
use crate::table::{lookup, with_entry, with_entry_lookup, without_entry, Table};
use crate::types::{
    dup_parts, one_part, text_part_view, AgentEvent, ChannelPart, EventKind, EventStatus, EventV,
    PartV,
};

verus! {

/// The name of the stream that an event belongs to.
pub open spec fn stream_type(e: EventV) -> Seq<char> {
    if e.kind == EventKind::Reasoning {
        "reasoning"@
    } else {
        "message"@
    }
}

/// Whether a stream is shown while it grows.
pub open spec fn streamable(st: Seq<char>) -> bool {
    st == "message"@ || st == "reasoning"@
}

/// Under what an event's text is collected: its message id, else the id of the message it
/// belongs to, else the name of its stream.
pub open spec fn buffer_key(e: EventV) -> Seq<char> {
    if e.message_id.len() > 0 {
        e.message_id
    } else if e.msg_id.len() > 0 {
        e.msg_id
    } else {
        stream_type(e)
    }
}

/// The messages that have begun: their streams, and their texts so far.
pub struct StreamState {
    pub msg_id_to_type: Table<String>,
    pub buffers: Table<String>,
}

/// What a state holds.
#[verifier::ext_equal]
pub struct StreamV {
    pub types: Seq<(Seq<char>, Seq<char>)>,
    pub buffers: Seq<(Seq<char>, Seq<char>)>,
}

impl View for StreamState {
    type V = StreamV;

    open spec fn view(&self) -> StreamV {
        StreamV { types: self.msg_id_to_type.texts(), buffers: self.buffers.texts() }
    }
}

/// What a channel is to show.
pub enum SinkAction {
    Start { stream_type: String },
    Delta { stream_type: String, accumulated: String },
    End { stream_type: String, accumulated: String },
}

/// What an action holds.
#[verifier::ext_equal]
pub enum ActionV {
    Start { stream_type: Seq<char> },
    Delta { stream_type: Seq<char>, accumulated: Seq<char> },
    End { stream_type: Seq<char>, accumulated: Seq<char> },
}

impl View for SinkAction {
    type V = ActionV;

    open spec fn view(&self) -> ActionV {
        match self {
            SinkAction::Start { stream_type } => ActionV::Start { stream_type: stream_type@ },
            SinkAction::Delta { stream_type, accumulated } => ActionV::Delta {
                stream_type: stream_type@,
                accumulated: accumulated@,
            },
            SinkAction::End { stream_type, accumulated } => ActionV::End {
                stream_type: stream_type@,
                accumulated: accumulated@,
            },
        }
    }
}

impl DeepView for SinkAction {
    type V = ActionV;

    open spec fn deep_view(&self) -> ActionV {
        self@
    }
}

/// A state after an event, whether the event had a place in it, and what to show.
#[verifier::ext_equal]
pub struct DispatchV {
    pub state: StreamV,
    pub handled: bool,
    pub action: Option<ActionV>,
}

/// What becomes of an event that says a message begins.
pub open spec fn on_start(s: StreamV, e: EventV, filter_thinking: bool) -> DispatchV {
    let st = stream_type(e);
    let types = if e.message_id.len() > 0 {
        with_entry(s.types, e.message_id, st)
    } else {
        s.types
    };
    if st == "reasoning"@ && filter_thinking {
        DispatchV { state: StreamV { types: types, ..s }, handled: true, action: None }
    } else {
        DispatchV {
            state: StreamV {
                types: types,
                buffers: with_entry(s.buffers, buffer_key(e), Seq::empty()),
            },
            handled: true,
            action: Some(ActionV::Start { stream_type: st }),
        }
    }
}

/// What becomes of an event that carries more of a message.
pub open spec fn on_delta(s: StreamV, e: EventV, filter_thinking: bool) -> DispatchV {
    let ignored = DispatchV { state: s, handled: false, action: None };
    match (if e.msg_id.len() > 0 {
        lookup(s.types, e.msg_id)
    } else {
        None
    }) {
        None => ignored,
        Some(st) => if !streamable(st) {
            ignored
        } else if st == "reasoning"@ && filter_thinking {
            DispatchV { state: s, handled: true, action: None }
        } else {
            match lookup(s.buffers, e.msg_id) {
                None => ignored,
                Some(acc) => DispatchV {
                    state: StreamV { buffers: with_entry(s.buffers, e.msg_id, acc + e.text), ..s },
                    handled: true,
                    action: Some(ActionV::Delta { stream_type: st, accumulated: acc + e.text }),
                },
            }
        },
    }
}

/// What becomes of an event that says a message is complete.
pub open spec fn on_end(s: StreamV, e: EventV, filter_thinking: bool) -> DispatchV {
    let st = stream_type(e);
    let key = buffer_key(e);
    let after = StreamV {
        types: if e.message_id.len() > 0 {
            without_entry(s.types, e.message_id)
        } else {
            s.types
        },
        buffers: without_entry(s.buffers, key),
    };
    let text = match lookup(s.buffers, key) {
        Some(acc) => if acc.len() > 0 {
            acc
        } else {
            e.text
        },
        None => e.text,
    };
    if text.len() == 0 {
        DispatchV { state: after, handled: false, action: None }
    } else if st == "reasoning"@ && filter_thinking {
        DispatchV { state: after, handled: true, action: None }
    } else {
        DispatchV {
            state: after,
            handled: true,
            action: Some(ActionV::End { stream_type: st, accumulated: text }),
        }
    }
}

/// What becomes of an event.
pub open spec fn dispatched(s: StreamV, e: EventV, filter_thinking: bool) -> DispatchV {
    if e.kind == EventKind::Message && e.status == EventStatus::InProgress {
        on_start(s, e, filter_thinking)
    } else if e.kind == EventKind::Content && e.status == EventStatus::InProgress && e.delta {
        on_delta(s, e, filter_thinking)
    } else if e.kind == EventKind::Message && e.status == EventStatus::Completed {
        on_end(s, e, filter_thinking)
    } else {
        DispatchV { state: s, handled: false, action: None }
    }
}

fn resolve_stream_type(event: &AgentEvent) -> (r: &'static str)
    ensures
        r@ == stream_type(event@),
{
    match event.kind {
        EventKind::Reasoning => "reasoning",
        _ => "message",
    }
}

fn buffer_key_for_event(event: &AgentEvent, stream_type: &str) -> (r: String)
    requires
        stream_type@ == self::stream_type(event@),
    ensures
        r@ == buffer_key(event@),
{
    if !event.message_id.as_str().is_empty() {
        event.message_id.clone()
    } else if !event.msg_id.as_str().is_empty() {
        event.msg_id.clone()
    } else {
        stream_type.to_owned()
    }
}

impl StreamState {
    /// The state before any message has begun.
    pub fn new() -> (r: StreamState)
        ensures
            r@ == (StreamV { types: Seq::empty(), buffers: Seq::empty() }),
    {
        StreamState { msg_id_to_type: Table::new_texts(), buffers: Table::new_texts() }
    }

    fn start(&mut self, event: &AgentEvent, filter_thinking: bool) -> (r: (bool, Option<SinkAction>))
        ensures
            on_start(old(self)@, event@, filter_thinking) == (DispatchV {
                state: final(self)@,
                handled: r.0,
                action: r.1.deep_view(),
            }),
    {
        let st: &str = resolve_stream_type(event);
        let key: String = buffer_key_for_event(event, st);
        if !event.message_id.as_str().is_empty() {
            self.msg_id_to_type.put_text(event.message_id.as_str(), st);
        }
        if same(st, "reasoning") && filter_thinking {
            return (true, None);
        }
        let empty: String = String::new();
        self.buffers.put_text(key.as_str(), empty.as_str());
        (true, Some(SinkAction::Start { stream_type: st.to_owned() }))
    }

    fn delta(&mut self, event: &AgentEvent, filter_thinking: bool) -> (r: (bool, Option<SinkAction>))
        ensures
            on_delta(old(self)@, event@, filter_thinking) == (DispatchV {
                state: final(self)@,
                handled: r.0,
                action: r.1.deep_view(),
            }),
    {
        if event.msg_id.as_str().is_empty() {
            return (false, None);
        }
        let st: String = match self.msg_id_to_type.get_text(event.msg_id.as_str()) {
            Some(t) => t.to_owned(),
            None => {
                return (false, None);
            },
        };
        if !(same(st.as_str(), "message") || same(st.as_str(), "reasoning")) {
            return (false, None);
        }
        if same(st.as_str(), "reasoning") && filter_thinking {
            return (true, None);
        }
        let mut acc: String = match self.buffers.get_text(event.msg_id.as_str()) {
            Some(t) => t.to_owned(),
            None => {
                return (false, None);
            },
        };
        acc.append(event.text.as_str());
        self.buffers.put_text(event.msg_id.as_str(), acc.as_str());
        (true, Some(SinkAction::Delta { stream_type: st, accumulated: acc }))
    }

    fn end(&mut self, event: &AgentEvent, filter_thinking: bool) -> (r: (bool, Option<SinkAction>))
        ensures
            on_end(old(self)@, event@, filter_thinking) == (DispatchV {
                state: final(self)@,
                handled: r.0,
                action: r.1.deep_view(),
            }),
    {
        let st: &str = resolve_stream_type(event);
        let key: String = buffer_key_for_event(event, st);
        if !event.message_id.as_str().is_empty() {
            let _ = self.msg_id_to_type.take_text(event.message_id.as_str());
        }
        let text: String = match self.buffers.take_text(key.as_str()) {
            Some(acc) => if acc.as_str().is_empty() {
                event.text.clone()
            } else {
                acc
            },
            None => event.text.clone(),
        };
        if text.as_str().is_empty() {
            return (false, None);
        }
        if same(st, "reasoning") && filter_thinking {
            return (true, None);
        }
        (true, Some(SinkAction::End { stream_type: st.to_owned(), accumulated: text }))
    }

    /// Takes in an event; says whether it had a place, and what to show.
    pub fn dispatch_streaming_event(&mut self, event: &AgentEvent, filter_thinking: bool) -> (r: (
        bool,
        Option<SinkAction>,
    ))
        ensures
            dispatched(old(self)@, event@, filter_thinking) == (DispatchV {
                state: final(self)@,
                handled: r.0,
                action: r.1.deep_view(),
            }),
    {
        if event.kind == EventKind::Message && event.status == EventStatus::InProgress {
            self.start(event, filter_thinking)
        } else if event.kind == EventKind::Content && event.status == EventStatus::InProgress
            && event.delta {
            self.delta(event, filter_thinking)
        } else if event.kind == EventKind::Message && event.status == EventStatus::Completed {
            self.end(event, filter_thinking)
        } else {
            (false, None)
        }
    }
}

// ---------------------------------------------------------------------------------------------
// A whole conversation turn
// ---------------------------------------------------------------------------------------------

/// A turn in progress: the messages that have begun, and what is complete.
pub struct SinkSession {
    pub stream: StreamState,
    pub pending_segments: Vec<String>,
    pub pending_parts: Vec<ChannelPart>,
}

/// What a turn holds.
#[verifier::ext_equal]
pub struct SessionV {
    pub stream: StreamV,
    pub segments: Seq<Seq<char>>,
    pub parts: Seq<PartV>,
}

impl View for SinkSession {
    type V = SessionV;

    open spec fn view(&self) -> SessionV {
        SessionV {
            stream: self.stream@,
            segments: texts(self.pending_segments@),
            parts: self.pending_parts.deep_view(),
        }
    }
}

/// The text of a complete message: its own, or that of its parts.
pub open spec fn message_text(e: EventV) -> Seq<char> {
    if e.text.len() > 0 {
        e.text
    } else {
        chained(part_texts(e.content))
    }
}

/// The turn with a complete message.
pub open spec fn with_message(v: SessionV, e: EventV) -> SessionV {
    let text = message_text(e);
    SessionV {
        segments: if text.len() > 0 {
            v.segments.push(text)
        } else {
            v.segments
        },
        parts: if e.content.len() > 0 {
            v.parts + e.content
        } else if text.len() > 0 {
            v.parts.push(text_part_view(text))
        } else {
            v.parts
        },
        ..v
    }
}

/// A turn after an event, and what to show. An event with an error ends the turn; events of
/// tools are passed over where they are filtered.
pub open spec fn session_step(
    v: SessionV,
    e: EventV,
    streaming: bool,
    filter_tool: bool,
    filter_thinking: bool,
) -> Result<(SessionV, Option<ActionV>), ErrorV> {
    if e.error_message.len() > 0 {
        Err(ErrorV::Other(e.error_message))
    } else if filter_tool && e.tool_name.len() > 0 {
        Ok((v, None))
    } else {
        let d = dispatched(v.stream, e, filter_thinking);
        let shown = if streaming {
            (SessionV { stream: d.state, ..v }, d.action)
        } else {
            (v, None)
        };
        if e.kind == EventKind::Message && e.status == EventStatus::Completed {
            Ok((with_message(shown.0, e), shown.1))
        } else {
            Ok(shown)
        }
    }
}

/// The reply at the end of a turn.
pub open spec fn session_reply(v: SessionV, n: NativeV) -> ReplyV {
    let text = joined(v.segments, "\n\n"@);
    if v.segments.len() == 0 && v.parts.len() == 0 {
        reply_to(n, "(no response)"@, seq![text_part_view("(no response)"@)])
    } else if v.parts.len() == 0 {
        reply_to(n, text, seq![text_part_view(text)])
    } else {
        reply_to(n, text, v.parts)
    }
}

impl SinkSession {
    /// The turn before any event.
    pub fn new() -> (r: SinkSession)
        ensures
            r@ == (SessionV {
                stream: StreamV { types: Seq::empty(), buffers: Seq::empty() },
                segments: Seq::empty(),
                parts: Seq::empty(),
            }),
    {
        let r: SinkSession = SinkSession {
            stream: StreamState::new(),
            pending_segments: Vec::new(),
            pending_parts: Vec::new(),
        };
        assert(texts(r.pending_segments@) =~= Seq::<Seq<char>>::empty());
        assert(r.pending_parts.deep_view() =~= Seq::<PartV>::empty());
        r
    }

    fn add_message(&mut self, event: &AgentEvent)
        ensures
            final(self)@ == with_message(old(self)@, event@),
    {
        let text: String = if event.text.as_str().is_empty() {
            let ts: Vec<String> = texts_of_parts(&event.content);
            concat_all(&ts)
        } else {
            event.text.clone()
        };
        let has_text: bool = !text.as_str().is_empty();
        if event.content.len() == 0 {
            if has_text {
                let ghost before = self.pending_parts.deep_view();
                self.pending_parts.push(ChannelPart::text_part(text.as_str()));
                assert(self.pending_parts.deep_view() =~= before.push(text_part_view(text@)));
            }
        } else {
            let ghost before = self.pending_parts.deep_view();
            let mut more: Vec<ChannelPart> = dup_parts(&event.content);
            self.pending_parts.append(&mut more);
            assert(self.pending_parts.deep_view() =~= before + event.content.deep_view());
        }
        if has_text {
            let ghost before = self.pending_segments@;
            self.pending_segments.push(text);
            proof {
                texts_push(before, text);
            }
        }
    }

    /// Takes in an event; says what to show.
    pub fn on_event(
        &mut self,
        event: &AgentEvent,
        streaming: bool,
        filter_tool: bool,
        filter_thinking: bool,
    ) -> (r: Result<Option<SinkAction>, GatewayError>)
        ensures
            match r {
                Ok(action) => session_step(
                    old(self)@,
                    event@,
                    streaming,
                    filter_tool,
                    filter_thinking,
                ) == Ok::<(SessionV, Option<ActionV>), ErrorV>(
                    (final(self)@, action.deep_view()),
                ),
                Err(e) => session_step(
                    old(self)@,
                    event@,
                    streaming,
                    filter_tool,
                    filter_thinking,
                ) == Err::<(SessionV, Option<ActionV>), ErrorV>(e@) && final(self)@ == old(self)@,
            },
    {
        if !event.error_message.as_str().is_empty() {
            return Err(GatewayError::Other(event.error_message.clone()));
        }
        if filter_tool && !event.tool_name.as_str().is_empty() {
            return Ok(None);
        }
        let action: Option<SinkAction> = if streaming {
            let d: (bool, Option<SinkAction>) = self.stream.dispatch_streaming_event(
                event,
                filter_thinking,
            );
            d.1
        } else {
            None
        };
        if event.kind == EventKind::Message && event.status == EventStatus::Completed {
            self.add_message(event);
        }
        Ok(action)
    }

    /// The reply at the end of the turn.
    pub fn finish(self, native: &NativeMessage) -> (r: ProcessedReply)
        ensures
            r@ == session_reply(self@, native@),
    {
        assert(texts(self.pending_segments@).len() == self.pending_segments@.len());
        if self.pending_segments.len() == 0 && self.pending_parts.len() == 0 {
            let parts: Vec<ChannelPart> = one_part(ChannelPart::text_part("(no response)"));
            return make_reply(native, "(no response)".to_owned(), parts);
        }
        let text: String = join(&self.pending_segments, "\n\n");
        if self.pending_parts.len() == 0 {
            let parts: Vec<ChannelPart> = one_part(ChannelPart::text_part(text.as_str()));
            return make_reply(native, text, parts);
        }
        make_reply(native, text, self.pending_parts)
    }
}

/// The turn before any event.
pub open spec fn new_session() -> SessionV {
    SessionV {
        stream: StreamV { types: Seq::empty(), buffers: Seq::empty() },
        segments: Seq::empty(),
        parts: Seq::empty(),
    }
}

/// What all these events make of a turn: what to show, in order, and the turn, or the error that
/// ended it.
pub open spec fn session_run(
    events: Seq<EventV>,
    streaming: bool,
    filter_tool: bool,
    filter_thinking: bool,
) -> (Seq<ActionV>, Result<SessionV, ErrorV>)
    decreases events.len(),
{
    if events.len() == 0 {
        (Seq::empty(), Ok(new_session()))
    } else {
        let (actions, v) = session_run(
            events.drop_last(),
            streaming,
            filter_tool,
            filter_thinking,
        );
        match v {
            Err(e) => (actions, Err(e)),
            Ok(v) => match session_step(v, events.last(), streaming, filter_tool, filter_thinking) {
                Err(e) => (actions, Err(e)),
                Ok((v2, Some(a))) => (actions.push(a), Ok(v2)),
                Ok((v2, None)) => (actions, Ok(v2)),
            },
        }
    }
}

/// What a turn came to: what to show, in order, and the reply, or the error that ended it.
pub struct SinkRun {
    pub actions: Vec<SinkAction>,
    pub reply: Result<ProcessedReply, GatewayError>,
}

/// What a whole turn comes to.
pub open spec fn sink_run(
    acl: AccessControl,
    language: Seq<char>,
    dm_acl: bool,
    group_acl: bool,
    streaming: bool,
    filter_tool: bool,
    filter_thinking: bool,
    n: NativeV,
    events: Seq<EventV>,
    broken: Option<ErrorV>,
) -> (Seq<ActionV>, Result<ReplyV, ErrorV>) {
    if turned_away(acl, dm_acl, group_acl, n) {
        let msg = deny_text(language, n.sender_id);
        (Seq::empty(), Ok(reply_to(n, msg, seq![text_part_view(msg)])))
    } else {
        let (actions, v) = session_run(events, streaming, filter_tool, filter_thinking);
        match v {
            Err(e) => (actions, Err(e)),
            Ok(v) => match broken {
                Some(e) => (actions, Err(e)),
                None => (actions, Ok(session_reply(v, n))),
            },
        }
    }
}

proof fn session_error_stays(
    events: Seq<EventV>,
    i: int,
    streaming: bool,
    filter_tool: bool,
    filter_thinking: bool,
)
    requires
        0 <= i <= events.len(),
        session_run(events.take(i), streaming, filter_tool, filter_thinking).1 is Err,
    ensures
        session_run(events, streaming, filter_tool, filter_thinking) == session_run(
            events.take(i),
            streaming,
            filter_tool,
            filter_thinking,
        ),
    decreases events.len(),
{
    if i == events.len() {
        assert(events.take(i) == events);
    } else {
        assert(events.drop_last().take(i) == events.take(i));
        session_error_stays(events.drop_last(), i, streaming, filter_tool, filter_thinking);
    }
}

/// A whole turn on a channel that shows what comes in: what to show while it comes, and the reply.
/// `events` is what the backend answered, and `broken` the error with which its answer broke off, if
/// it did.
pub fn process_with_sink(
    acl: &AccessControl,
    language: &str,
    dm_acl: bool,
    group_acl: bool,
    streaming: bool,
    filter_tool: bool,
    filter_thinking: bool,
    native: &NativeMessage,
    events: &Vec<AgentEvent>,
    broken: Option<GatewayError>,
) -> (r: SinkRun)
    ensures
        sink_run(
            *acl,
            language@,
            dm_acl,
            group_acl,
            streaming,
            filter_tool,
            filter_thinking,
            native@,
            events.deep_view(),
            match broken {
                Some(e) => Some(e@),
                None => None,
            },
        ) == (r.actions.deep_view(), (match r.reply {
            Ok(reply) => Ok::<ReplyV, ErrorV>(reply@),
            Err(e) => Err::<ReplyV, ErrorV>(e@),
        })),
{
    let mut actions: Vec<SinkAction> = Vec::new();
    assert(actions.deep_view() =~= Seq::<ActionV>::empty());
    if let Admission::Denied(reply) = pass_gate(acl, language, dm_acl, group_acl, native) {
        return SinkRun { actions: actions, reply: Ok(reply) };
    }
    let ghost all = events.deep_view();
    let mut session: SinkSession = SinkSession::new();
    let mut i: usize = 0;
    assert(all.take(0) == Seq::<EventV>::empty());
    while i < events.len()
        invariant
            i <= events@.len(),
            all == events.deep_view(),
            !turned_away(*acl, dm_acl, group_acl, native@),
            session_run(all.take(i as int), streaming, filter_tool, filter_thinking) == (
                actions.deep_view(),
                Ok::<SessionV, ErrorV>(session@),
            ),
        decreases events@.len() - i,
    {
        proof {
            assert(all.take(i + 1).drop_last() == all.take(i as int));
            assert(all.take(i + 1).last() == events@[i as int]@);
        }
        match session.on_event(&events[i], streaming, filter_tool, filter_thinking) {
            Err(e) => {
                proof {
                    session_error_stays(all, i + 1, streaming, filter_tool, filter_thinking);
                }
                return SinkRun { actions: actions, reply: Err(e) };
            },
            Ok(Some(a)) => {
                let ghost before = actions.deep_view();
                actions.push(a);
                assert(actions.deep_view() =~= before.push(a@));
            },
            Ok(None) => {},
        }
        i = i + 1;
    }
    assert(all.take(all.len() as int) == all);
    if let Some(e) = broken {
        return SinkRun { actions: actions, reply: Err(e) };
    }
    SinkRun { actions: actions, reply: Ok(session.finish(native)) }
}

// ---------------------------------------------------------------------------------------------
// Laws
// ---------------------------------------------------------------------------------------------

/// The state after more and more of the message `id` has come in.
pub open spec fn after_deltas(
    s: StreamV,
    id: Seq<char>,
    e: EventV,
    pieces: Seq<Seq<char>>,
    filter_thinking: bool,
) -> StreamV
    decreases pieces.len(),
{
    if pieces.len() == 0 {
        s
    } else {
        dispatched(
            after_deltas(s, id, e, pieces.drop_last(), filter_thinking),
            EventV {
                kind: EventKind::Content,
                status: EventStatus::InProgress,
                delta: true,
                msg_id: id,
                text: pieces.last(),
                ..e
            },
            filter_thinking,
        ).state
    }
}

proof fn deltas_accumulate(
    s: StreamV,
    id: Seq<char>,
    e: EventV,
    pieces: Seq<Seq<char>>,
    filter_thinking: bool,
)
    requires
        id.len() > 0,
        lookup(s.types, id) == Some("message"@),
        lookup(s.buffers, id) == Some(Seq::<char>::empty()),
    ensures
        ({
            let t = after_deltas(s, id, e, pieces, filter_thinking);
            lookup(t.types, id) == Some("message"@) && lookup(t.buffers, id) == Some(
                chained(pieces),
            )
        }),
    decreases pieces.len(),
{
    if pieces.len() > 0 {
        deltas_accumulate(s, id, e, pieces.drop_last(), filter_thinking);
        let t = after_deltas(s, id, e, pieces.drop_last(), filter_thinking);
        reveal_strlit("message");
        reveal_strlit("reasoning");
        assert("message"@.len() != "reasoning"@.len());
        with_entry_lookup(t.buffers, id, chained(pieces.drop_last()) + pieces.last(), id);
        chained_push(pieces.drop_last(), pieces.last());
        assert(pieces.drop_last().push(pieces.last()) == pieces);
    }
}

/// A message that began and grew piece by piece ends with the pieces one after another; the
/// text of the last event counts only where no piece had any.
pub proof fn streamed_message_is_its_pieces(
    s: StreamV,
    begin: EventV,
    end: EventV,
    pieces: Seq<Seq<char>>,
    filter_thinking: bool,
)
    requires
        begin.kind == EventKind::Message,
        begin.status == EventStatus::InProgress,
        begin.message_id.len() > 0,
        end.kind == EventKind::Message,
        end.status == EventStatus::Completed,
        end.message_id == begin.message_id,
        chained(pieces).len() > 0,
    ensures
        ({
            let started = dispatched(s, begin, filter_thinking).state;
            let grown = after_deltas(started, begin.message_id, begin, pieces, filter_thinking);
            dispatched(grown, end, filter_thinking).action == Some(
                ActionV::End { stream_type: "message"@, accumulated: chained(pieces) },
            )
        }),
{
    let id = begin.message_id;
    let started = dispatched(s, begin, filter_thinking).state;
    reveal_strlit("message");
    reveal_strlit("reasoning");
    assert("message"@.len() != "reasoning"@.len());
    with_entry_lookup(s.types, id, "message"@, id);
    with_entry_lookup(s.buffers, id, Seq::empty(), id);
    deltas_accumulate(started, id, begin, pieces, filter_thinking);
}

} // verus!
