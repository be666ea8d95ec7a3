//! Requests as text, and texts as events.

use vstd::prelude::*;

use crate::strs::{join, joined, texts, texts_push};
use crate::types::{
    is_assistant_text, response_completed_view, AgentEvent, ChannelPart, ChannelRequest, EventV,
    PartV,
};

verus! {

/// The texts of the parts that have one, in order.
pub open spec fn part_texts(parts: Seq<PartV>) -> Seq<Seq<char>>
    decreases parts.len(),
{
    if parts.len() == 0 {
        Seq::empty()
    } else if parts.last().text.len() > 0 {
        part_texts(parts.drop_last()).push(parts.last().text)
    } else {
        part_texts(parts.drop_last())
    }
}

/// The texts of the parts that have one.
pub fn texts_of_parts(parts: &Vec<ChannelPart>) -> (r: Vec<String>)
    ensures
        texts(r@) == part_texts(parts.deep_view()),
{
    let mut out: Vec<String> = Vec::new();
    let ghost all = parts.deep_view();
    let mut i: usize = 0;
    assert(all.take(0) == Seq::<PartV>::empty());
    assert(texts(out@) == Seq::<Seq<char>>::empty());
    while i < parts.len()
        invariant
            i <= parts@.len(),
            all == parts.deep_view(),
            texts(out@) == part_texts(all.take(i as int)),
        decreases parts@.len() - i,
    {
        proof {
            assert(all.take(i + 1).drop_last() == all.take(i as int));
            assert(all.take(i + 1).last() == parts@[i as int]@);
        }
        if !parts[i].text.as_str().is_empty() {
            let ghost before = out@;
            let t: String = parts[i].text.clone();
            out.push(t);
            proof {
                texts_push(before, t);
            }
        }
        i = i + 1;
    }
    assert(all.take(all.len() as int) == all);
    out
}

/// The text of a request: the texts of its parts on lines of their own.
pub open spec fn request_text_of(parts: Seq<PartV>) -> Seq<char> {
    joined(part_texts(parts), "\n"@)
}

/// The text of a request.
pub fn request_text(request: &ChannelRequest) -> (r: String)
    ensures
        r@ == request_text_of(request@.content),
{
    let ts: Vec<String> = texts_of_parts(&request.content);
    join(&ts, "\n")
}

/// Whether `events` is a message of the assistant and the end of the response.
pub open spec fn is_answer(events: Seq<EventV>, text: Seq<char>) -> bool {
    &&& events.len() == 2
    &&& is_assistant_text(events[0], text)
    &&& events[1] == response_completed_view()
}

/// A message of the assistant and the end of the response.
pub fn help_events(text: &str) -> (r: Vec<AgentEvent>)
    ensures
        is_answer(r.deep_view(), text@),
{
    let mut r: Vec<AgentEvent> = Vec::new();
    r.push(AgentEvent::assistant_text(text));
    r.push(AgentEvent::response_completed());
    r
}

/// A message that says what went wrong, and the end of the response.
pub fn error_events(message: &str) -> (r: Vec<AgentEvent>)
    ensures
        is_answer(r.deep_view(), message@),
{
    help_events(message)
}

} // verus!
