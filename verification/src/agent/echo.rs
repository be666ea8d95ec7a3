//! A backend that repeats what it is told.

use vstd::prelude::*;

use crate::agent::cli::stream::{part_texts, texts_of_parts};
use crate::strs::{concat2, join, joined};
use crate::types::{
    blank_event, is_assistant_text, response_completed_view, AgentEvent, ChannelRequest, EventV,
    PartV,
};

verus! {

/// A backend that repeats what it is told.
pub struct EchoBackend;

/// What is repeated of a request.
pub open spec fn echo_text(parts: Seq<PartV>) -> Seq<char> {
    let text = joined(part_texts(parts), " "@);
    if text.len() == 0 {
        "(echo: empty message)"@
    } else {
        "[echo] "@ + text
    }
}

/// Whether `events` is the start of a message, the message and the end of the response.
pub open spec fn is_echo(events: Seq<EventV>, text: Seq<char>) -> bool {
    &&& events.len() == 3
    &&& events[0] == blank_event()
    &&& is_assistant_text(events[1], text)
    &&& events[2] == response_completed_view()
}

impl EchoBackend {
    /// The events with which a request is answered.
    pub fn reply(&self, request: &ChannelRequest) -> (r: Vec<AgentEvent>)
        ensures
            is_echo(r.deep_view(), echo_text(request@.content)),
    {
        let ts: Vec<String> = texts_of_parts(&request.content);
        let text: String = join(&ts, " ");
        let reply: String = if text.as_str().is_empty() {
            "(echo: empty message)".to_owned()
        } else {
            concat2("[echo] ", text.as_str())
        };
        let mut r: Vec<AgentEvent> = Vec::new();
        r.push(AgentEvent::default());
        r.push(AgentEvent::assistant_text(reply.as_str()));
        r.push(AgentEvent::response_completed());
        r
    }
}

} // verus!
