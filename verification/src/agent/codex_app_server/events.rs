//! From notifications of the Codex app server to events.
//!
//! Only complete messages of the agent are delivered; what comes in piece by piece is passed
//! over.

use vstd::prelude::*;

use crate::json::{field, text_field, text_field_or, Json, JsonV};
use crate::strs::{joined, same};
use crate::table::{lookup, with_entry, with_entry_lookup, Table};
use crate::types::{
    blank_event, is_assistant_text, response_completed_view, AgentEvent, EventStatus, EventV,
};

verus! {

/// What the notifications of a turn have brought so far.
pub struct TurnEventMapper {
    pub item_text: Table<String>,
    /// The texts of all complete messages, with blank lines between them.
    pub accumulated: String,
    pub turn_done: bool,
    pub any_delivered: bool,
}

/// What a mapper holds.
#[verifier::ext_equal]
pub struct MapperV {
    pub items: Seq<(Seq<char>, Seq<char>)>,
    pub accumulated: Seq<char>,
    pub turn_done: bool,
    pub any_delivered: bool,
}

impl View for TurnEventMapper {
    type V = MapperV;

    open spec fn view(&self) -> MapperV {
        MapperV {
            items: self.item_text.texts(),
            accumulated: self.accumulated@,
            turn_done: self.turn_done,
            any_delivered: self.any_delivered,
        }
    }
}

/// The mapper before any notification.
pub open spec fn fresh_mapper() -> MapperV {
    MapperV {
        items: Seq::empty(),
        accumulated: Seq::empty(),
        turn_done: false,
        any_delivered: false,
    }
}

/// The method of a notification. A reply is none.
pub open spec fn notification_method(msg: JsonV) -> Option<Seq<char>> {
    if field(msg, "id"@) is Some {
        None
    } else {
        text_field(msg, "method"@)
    }
}

/// The item that a notification speaks of.
pub open spec fn notification_item(msg: JsonV) -> Option<JsonV> {
    match field(msg, "params"@) {
        Some(params) => field(params, "item"@),
        None => None,
    }
}

/// The id of the agent message that a notification speaks of.
pub open spec fn agent_message_id(msg: JsonV) -> Option<Seq<char>> {
    match notification_item(msg) {
        Some(item) => if text_field(item, "type"@) == Some("agentMessage"@) && text_field_or(
            item,
            "id"@,
            Seq::empty(),
        ).len() > 0 {
            Some(text_field_or(item, "id"@, Seq::empty()))
        } else {
            None
        },
        None => None,
    }
}

/// The id and the text of the agent message that a notification reports complete. A message
/// without a text is none.
pub open spec fn completed_message(msg: JsonV) -> Option<(Seq<char>, Seq<char>)> {
    if notification_method(msg) == Some("item/completed"@) {
        match agent_message_id(msg) {
            Some(id) => {
                let text = text_field_or(notification_item(msg)->0, "text"@, Seq::empty());
                if text.len() > 0 {
                    Some((id, text))
                } else {
                    None
                }
            },
            None => None,
        }
    } else {
        None
    }
}

/// A text with one more after a blank line.
pub open spec fn with_paragraph(s: Seq<char>, t: Seq<char>) -> Seq<char> {
    if s.len() == 0 {
        t
    } else {
        s + "\n\n"@ + t
    }
}

/// The mapper after a frame.
pub open spec fn mapped(m: MapperV, msg: JsonV) -> MapperV {
    let method = notification_method(msg);
    match completed_message(msg) {
        Some((id, text)) => MapperV {
            items: with_entry(m.items, id, text),
            accumulated: with_paragraph(m.accumulated, text),
            any_delivered: true,
            ..m
        },
        None => if method == Some("item/started"@) && agent_message_id(msg) is Some {
            MapperV { items: with_entry(m.items, agent_message_id(msg)->0, Seq::empty()), ..m }
        } else if method == Some("turn/completed"@) {
            MapperV { turn_done: true, ..m }
        } else {
            m
        },
    }
}

/// A complete message of the agent.
pub open spec fn agent_message_event(id: Seq<char>, text: Seq<char>) -> EventV {
    EventV { status: EventStatus::Completed, text: text, message_id: id, ..blank_event() }
}

/// Whether these are the events of a frame: a complete message, or the end of the turn. Text that
/// was collected and not delivered comes before the end.
pub open spec fn are_events_of(m: MapperV, msg: JsonV, events: Seq<EventV>) -> bool {
    match completed_message(msg) {
        Some((id, text)) => events == seq![agent_message_event(id, text)],
        None => if notification_method(msg) == Some("turn/completed"@) {
            if m.accumulated.len() > 0 && !m.any_delivered {
                &&& events.len() == 2
                &&& is_assistant_text(events[0], m.accumulated)
                &&& events[1] == response_completed_view()
            } else {
                events == seq![response_completed_view()]
            }
        } else {
            events == Seq::<EventV>::empty()
        },
    }
}

impl TurnEventMapper {
    /// The mapper before any notification.
    pub fn new() -> (r: TurnEventMapper)
        ensures
            r@ == fresh_mapper(),
    {
        TurnEventMapper {
            item_text: Table::new_texts(),
            accumulated: String::new(),
            turn_done: false,
            any_delivered: false,
        }
    }

    /// Whether the turn is complete.
    pub fn is_turn_done(&self) -> (r: bool)
        ensures
            r == self@.turn_done,
    {
        self.turn_done
    }

    /// Whether a message was delivered.
    pub fn emitted_any(&self) -> (r: bool)
        ensures
            r == (self@.any_delivered || self@.accumulated.len() > 0),
    {
        self.any_delivered || !self.accumulated.as_str().is_empty()
    }

    /// Takes in a frame and returns its events.
    pub fn push(&mut self, msg: &Json) -> (r: Vec<AgentEvent>)
        ensures
            final(self)@ == mapped(old(self)@, msg@),
            are_events_of(old(self)@, msg@, r.deep_view()),
    {
        let mut out: Vec<AgentEvent> = Vec::new();
        assert(out.deep_view() =~= Seq::<EventV>::empty());
        proof {
            methods_differ();
        }
        if msg.get("id").is_some() {
            return out;
        }
        let method: &str = match msg.get_str("method") {
            Some(m) => m,
            None => {
                return out;
            },
        };
        if same(method, "turn/completed") {
            return self.on_turn_completed();
        }
        let started: bool = same(method, "item/started");
        let completed: bool = same(method, "item/completed");
        if !started && !completed {
            return out;
        }
        let item: &Json = match msg.get("params") {
            Some(params) => match params.get("item") {
                Some(item) => item,
                None => {
                    return out;
                },
            },
            None => {
                return out;
            },
        };
        let is_message: bool = match item.get_str("type") {
            Some(t) => same(t, "agentMessage"),
            None => false,
        };
        if !is_message {
            return out;
        }
        let id: String = match item.get_str("id") {
            Some(s) => s.to_owned(),
            None => String::new(),
        };
        if id.as_str().is_empty() {
            return out;
        }
        if started {
            let empty: String = String::new();
            self.item_text.put_text(id.as_str(), empty.as_str());
            return out;
        }
        let text: String = match item.get_str("text") {
            Some(s) => s.to_owned(),
            None => String::new(),
        };
        if text.as_str().is_empty() {
            return out;
        }
        self.item_text.put_text(id.as_str(), text.as_str());
        if !self.accumulated.as_str().is_empty() {
            self.accumulated.append("\n\n");
        }
        self.accumulated.append(text.as_str());
        self.any_delivered = true;
        let mut e: AgentEvent = AgentEvent::default();
        e.status = EventStatus::Completed;
        e.text = text;
        e.message_id = id;
        out.push(e);
        assert(out.deep_view() =~= seq![agent_message_event(id@, text@)]);
        out
    }

    fn on_turn_completed(&mut self) -> (r: Vec<AgentEvent>)
        ensures
            final(self)@ == (MapperV { turn_done: true, ..old(self)@ }),
            if old(self)@.accumulated.len() > 0 && !old(self)@.any_delivered {
                &&& r.deep_view().len() == 2
                &&& is_assistant_text(r.deep_view()[0], old(self)@.accumulated)
                &&& r.deep_view()[1] == response_completed_view()
            } else {
                r.deep_view() == seq![response_completed_view()]
            },
    {
        self.turn_done = true;
        let mut out: Vec<AgentEvent> = Vec::new();
        if !self.accumulated.as_str().is_empty() && !self.any_delivered {
            out.push(AgentEvent::assistant_text(self.accumulated.as_str()));
            out.push(AgentEvent::response_completed());
        } else {
            out.push(AgentEvent::response_completed());
            assert(out.deep_view() =~= seq![response_completed_view()]);
        }
        out
    }
}

proof fn methods_differ()
    ensures
        "item/started"@ != "item/completed"@,
        "item/started"@ != "turn/completed"@,
        "item/completed"@ != "turn/completed"@,
{
    reveal_strlit("item/started");
    reveal_strlit("item/completed");
    reveal_strlit("turn/completed");
    assert("item/started"@.len() != "item/completed"@.len());
    assert("item/started"@.len() != "turn/completed"@.len());
    assert("item/completed"@[0] != "turn/completed"@[0]);
}

// ---------------------------------------------------------------------------------------------
// Laws
// ---------------------------------------------------------------------------------------------

/// A mapper after a series of frames.
pub open spec fn mapped_all(m: MapperV, msgs: Seq<JsonV>) -> MapperV
    decreases msgs.len(),
{
    if msgs.len() == 0 {
        m
    } else {
        mapped(mapped_all(m, msgs.drop_last()), msgs.last())
    }
}

/// The texts of the messages that a series of frames reports complete.
pub open spec fn delivered(msgs: Seq<JsonV>) -> Seq<Seq<char>>
    decreases msgs.len(),
{
    if msgs.len() == 0 {
        Seq::empty()
    } else {
        match completed_message(msgs.last()) {
            Some((_, text)) => delivered(msgs.drop_last()).push(text),
            None => delivered(msgs.drop_last()),
        }
    }
}

/// The collected text is the texts that were delivered, with blank lines between them, whatever
/// else came in.
pub proof fn accumulated_is_what_was_delivered(msgs: Seq<JsonV>)
    ensures
        mapped_all(fresh_mapper(), msgs).accumulated == joined(delivered(msgs), "\n\n"@),
        delivered(msgs).len() > 0 ==> joined(delivered(msgs), "\n\n"@).len() > 0,
    decreases msgs.len(),
{
    if msgs.len() > 0 {
        accumulated_is_what_was_delivered(msgs.drop_last());
        let before = delivered(msgs.drop_last());
        match completed_message(msgs.last()) {
            Some((_, text)) => {
                let now = before.push(text);
                assert(now.drop_last() == before);
                assert(now.last() == text);
            },
            None => {},
        }
    }
}

/// Whether a frame reports the turn complete.
pub open spec fn ends_turn(msg: JsonV) -> bool {
    notification_method(msg) == Some("turn/completed"@)
}

/// The events of a series of frames: each complete message where it came in, and the end of the turn
/// where it was reported.
pub open spec fn emitted(msgs: Seq<JsonV>) -> Seq<EventV>
    decreases msgs.len(),
{
    if msgs.len() == 0 {
        Seq::empty()
    } else {
        let before = emitted(msgs.drop_last());
        match completed_message(msgs.last()) {
            Some((id, text)) => before.push(agent_message_event(id, text)),
            None => if ends_turn(msgs.last()) {
                before.push(response_completed_view())
            } else {
                before
            },
        }
    }
}

/// The text that the frames last reported of a message: empty where it has only begun.
pub open spec fn last_text(msgs: Seq<JsonV>, id: Seq<char>) -> Option<Seq<char>>
    decreases msgs.len(),
{
    if msgs.len() == 0 {
        None
    } else {
        let msg = msgs.last();
        match completed_message(msg) {
            Some((i, text)) if i == id => Some(text),
            _ => if notification_method(msg) == Some("item/started"@) && agent_message_id(msg)
                == Some(id) {
                Some(Seq::empty())
            } else {
                last_text(msgs.drop_last(), id)
            },
        }
    }
}

/// Whether these are the events of each of the frames, taken in one after another.
pub open spec fn are_events_of_each(msgs: Seq<JsonV>, events: Seq<Seq<EventV>>) -> bool {
    &&& events.len() == msgs.len()
    &&& forall|i: int|
        0 <= i < msgs.len() ==> are_events_of(
            mapped_all(fresh_mapper(), msgs.take(i)),
            msgs[i],
            #[trigger] events[i],
        )
}

/// What a mapper holds after a series of frames: the turn is done exactly once a frame reported it
/// complete, and something was delivered exactly where a frame reported a message complete.
pub proof fn mapper_after_a_series(msgs: Seq<JsonV>, id: Seq<char>)
    ensures
        mapped_all(fresh_mapper(), msgs).turn_done <==> exists|i: int|
            0 <= i < msgs.len() && ends_turn(#[trigger] msgs[i]),
        mapped_all(fresh_mapper(), msgs).any_delivered <==> delivered(msgs).len() > 0,
        mapped_all(fresh_mapper(), msgs).accumulated.len() > 0 <==> delivered(msgs).len() > 0,
        lookup(mapped_all(fresh_mapper(), msgs).items, id) == last_text(msgs, id),
    decreases msgs.len(),
{
    accumulated_is_what_was_delivered(msgs);
    if msgs.len() > 0 {
        let less = msgs.drop_last();
        let m = mapped_all(fresh_mapper(), less);
        let msg = msgs.last();
        mapper_after_a_series(less, id);
        methods_differ();
        if ends_turn(msg) {
            assert(ends_turn(msgs[msgs.len() - 1]));
        }
        assert((exists|i: int| 0 <= i < msgs.len() && ends_turn(#[trigger] msgs[i])) <==> (
        exists|i: int| 0 <= i < less.len() && ends_turn(#[trigger] less[i])) || ends_turn(msg)) by {
            if exists|i: int| 0 <= i < less.len() && ends_turn(#[trigger] less[i]) {
                let i = choose|i: int| 0 <= i < less.len() && ends_turn(#[trigger] less[i]);
                assert(ends_turn(msgs[i]));
            }
            if exists|i: int| 0 <= i < msgs.len() && ends_turn(#[trigger] msgs[i]) {
                let i = choose|i: int| 0 <= i < msgs.len() && ends_turn(#[trigger] msgs[i]);
                if i < less.len() {
                    assert(less[i] == msgs[i]);
                }
            }
        }
        match completed_message(msg) {
            Some((i, text)) => {
                with_entry_lookup(m.items, i, text, id);
            },
            None => {
                if let Some(i) = agent_message_id(msg) {
                    with_entry_lookup(m.items, i, Seq::empty(), id);
                }
            },
        }
    }
}

/// Of a series of frames come, in their order, the messages that they report complete, each once, and
/// an end for each report that the turn is complete; nothing else.
pub proof fn events_of_a_series(msgs: Seq<JsonV>, events: Seq<Seq<EventV>>)
    requires
        are_events_of_each(msgs, events),
    ensures
        events.flatten() == emitted(msgs),
    decreases msgs.len(),
{
    events.lemma_flatten_and_flatten_alt_are_equivalent();
    if msgs.len() > 0 {
        let less = msgs.drop_last();
        let before = events.drop_last();
        let m = mapped_all(fresh_mapper(), less);
        assert forall|i: int| 0 <= i < less.len() implies are_events_of(
            mapped_all(fresh_mapper(), less.take(i)),
            less[i],
            #[trigger] before[i],
        ) by {
            assert(less.take(i) == msgs.take(i));
            assert(before[i] == events[i]);
        }
        events_of_a_series(less, before);
        before.lemma_flatten_and_flatten_alt_are_equivalent();
        mapper_after_a_series(less, Seq::empty());
        assert(msgs.take(msgs.len() - 1) == less);
        assert(are_events_of(m, msgs.last(), events[msgs.len() - 1]));
        assert(events.flatten() =~= emitted(msgs));
    } else {
        assert(events.flatten() =~= emitted(msgs));
    }
}

} // verus!
