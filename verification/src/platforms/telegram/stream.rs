//! A reply that is shown while it grows: one message per stream, changed now and then.

use vstd::prelude::*;

use crate::error::{ErrorV, GatewayError};
use crate::pipeline::{ProcessedReply, ReplyV};
use crate::platforms::telegram::send::{
    chat_of, media_steps, placeholder_text, push_media_steps, stream_prefix, stream_text, thread_of,
    SendStep, StepV, TelegramSender, MAX_MESSAGE_LENGTH, SEND_CHUNK_SIZE, STREAM_PLACEHOLDER,
};
use crate::strs::{byte_len, byte_len_within, byte_slice, chars_of, concat2, get_bytes, same};
use crate::table::{lookup, with_entry, without_entry, Table};

verus! {

/// Milliseconds between two changes of a message.
pub const STREAM_EDIT_INTERVAL_MS: u64 = 1500;

/// The streams that are shown.
pub struct TelegramStreamSink {
    pub sender: TelegramSender,
    pub stream_enabled: bool,
    /// The message of each stream.
    pub message_ids: Table<i32>,
    /// When the message of each stream was last changed, in milliseconds.
    pub last_edit: Table<u64>,
    /// Whether a message was shown to its end.
    pub message_streamed: bool,
}

/// What a sink holds, but for where it sends.
#[verifier::ext_equal]
pub struct SinkV {
    pub stream_enabled: bool,
    pub message_ids: Seq<(Seq<char>, i32)>,
    pub last_edit: Seq<(Seq<char>, u64)>,
    pub message_streamed: bool,
}

impl View for TelegramStreamSink {
    type V = SinkV;

    open spec fn view(&self) -> SinkV {
        SinkV {
            stream_enabled: self.stream_enabled,
            message_ids: self.message_ids@,
            last_edit: self.last_edit@,
            message_streamed: self.message_streamed,
        }
    }
}

/// A text cut to what a message can hold: its end, where it is too long.
pub open spec fn shown(text: Seq<char>) -> Seq<char> {
    if byte_len(text) > MAX_MESSAGE_LENGTH {
        "..."@ + byte_slice(
            text,
            (byte_len(text) - (MAX_MESSAGE_LENGTH - 4)) as nat,
            byte_len(text),
        )->0
    } else {
        text
    }
}

/// The text can be cut: the cut falls between two characters, and a `usize` counts its bytes.
pub open spec fn can_show(text: Seq<char>) -> bool {
    &&& byte_len(text) <= usize::MAX
    &&& byte_len(text) > MAX_MESSAGE_LENGTH ==> byte_slice(
        text,
        (byte_len(text) - (MAX_MESSAGE_LENGTH - 4)) as nat,
        byte_len(text),
    ) is Some
}

fn cut_tail(text: &str) -> (r: Option<String>)
    ensures
        r is Some == can_show(text@),
        r matches Some(t) ==> t@ == shown(text@),
{
    let v: Vec<char> = chars_of(text);
    match byte_len_within(&v, usize::MAX) {
        Some(n) => {
            if n <= MAX_MESSAGE_LENGTH {
                return Some(text.to_owned());
            }
            match get_bytes(text, n - (MAX_MESSAGE_LENGTH - 4), n) {
                Some(tail) => Some(concat2("...", tail.as_str())),
                None => None,
            }
        },
        None => None,
    }
}

/// Whether a text of a stream can be cut to what a message can hold.
pub fn can_show_delta(stream_type: &str, accumulated: &str) -> (r: bool)
    ensures
        r == can_show(stream_prefix(stream_type@) + accumulated@),
{
    let text: String = stream_text(stream_type, accumulated);
    cut_tail(text.as_str()).is_some()
}

/// Whether it is too early to change a message again.
pub open spec fn too_early(last: Option<u64>, now: u64) -> bool {
    match last {
        Some(t) => now - t < STREAM_EDIT_INTERVAL_MS,
        None => false,
    }
}

/// Whether a message is edited now: it is there, and its last edit is long enough ago.
pub open spec fn edit_due(s: SinkV, stream_type: Seq<char>, now: u64) -> bool {
    &&& s.stream_enabled
    &&& lookup(s.message_ids, stream_type) is Some
    &&& !too_early(lookup(s.last_edit, stream_type), now)
}

/// How a complete reply is sent: its text, unless it was shown, and the parts that are no text.
pub open spec fn completed_steps(s: SinkV, reply: ReplyV) -> Seq<StepV> {
    (if !s.message_streamed && reply.text.len() > 0 {
        seq![StepV::Text(reply.text)]
    } else {
        Seq::empty()
    }) + media_steps(reply.parts)
}

/// A change to a message.
#[derive(Debug)]
pub struct Edit {
    pub message_id: i32,
    pub text: String,
}

/// What to do when a stream has ended.
#[derive(Debug)]
pub enum EndAction {
    Nothing,
    /// Send the text, in as many messages as it takes.
    Send(String),
    /// Change the message to the text, for good.
    EditFinal(Edit),
    /// Delete the message, and send the text.
    DeleteAndSend(Edit),
}

impl TelegramStreamSink {
    /// A sink for a reply.
    pub fn new(reply: &ProcessedReply, prefix: &str, stream_enabled: bool) -> (r: Result<
        TelegramStreamSink,
        GatewayError,
    >)
        ensures
            match r {
                Ok(s) => {
                    &&& chat_of(reply@.meta) == Some(s.sender.chat_id as int)
                    &&& s.sender.thread_id == thread_of(reply@.meta)
                    &&& s.sender.prefix@ == prefix@
                    &&& s@ == (SinkV {
                        stream_enabled: stream_enabled,
                        message_ids: Seq::empty(),
                        last_edit: Seq::empty(),
                        message_streamed: false,
                    })
                },
                Err(e) => chat_of(reply@.meta) is None && e@ == ErrorV::Other(
                    "telegram: missing chat_id"@,
                ),
            },
    {
        match TelegramSender::from_reply(reply, prefix) {
            Ok(sender) => Ok(
                TelegramStreamSink {
                    sender: sender,
                    stream_enabled: stream_enabled,
                    message_ids: Table::new(),
                    last_edit: Table::new(),
                    message_streamed: false,
                },
            ),
            Err(e) => Err(e),
        }
    }

    /// A stream begins: the message to send, if any.
    pub fn on_stream_start(&self, stream_type: &str) -> (r: Option<String>)
        ensures
            r.deep_view() == if self@.stream_enabled {
                Some(stream_prefix(stream_type@) + STREAM_PLACEHOLDER@)
            } else {
                None
            },
    {
        if !self.stream_enabled {
            return None;
        }
        Some(placeholder_text(stream_type))
    }

    /// The message of a stream was sent.
    pub fn placeholder_sent(&mut self, stream_type: &str, message_id: i32, now: u64)
        ensures
            final(self)@ == (SinkV {
                message_ids: with_entry(old(self)@.message_ids, stream_type@, message_id),
                last_edit: with_entry(old(self)@.last_edit, stream_type@, now),
                ..old(self)@
            }),
            final(self).sender == old(self).sender,
    {
        self.message_ids.insert(stream_type.to_owned(), message_id);
        self.last_edit.insert(stream_type.to_owned(), now);
    }

    /// Whether the message of a stream is edited now.
    pub fn is_edit_due(&self, stream_type: &str, now: u64) -> (r: bool)
        ensures
            r == edit_due(self@, stream_type@, now),
    {
        if !self.stream_enabled || self.message_ids.get(stream_type).is_none() {
            return false;
        }
        match self.last_edit.get(stream_type) {
            Some(last) => now >= *last && now - *last >= STREAM_EDIT_INTERVAL_MS,
            None => true,
        }
    }

    /// A stream has grown: the change to its message, unless it has none or was changed just now.
    pub fn on_stream_delta(&self, stream_type: &str, accumulated: &str, now: u64) -> (r: Option<
        Edit,
    >)
        requires
            edit_due(self@, stream_type@, now) ==> can_show(
                stream_prefix(stream_type@) + accumulated@,
            ),
        ensures
            match r {
                Some(e) => {
                    &&& edit_due(self@, stream_type@, now)
                    &&& lookup(self@.message_ids, stream_type@) == Some(e.message_id)
                    &&& e.text@ == shown(stream_prefix(stream_type@) + accumulated@)
                },
                None => !edit_due(self@, stream_type@, now),
            },
    {
        if !self.is_edit_due(stream_type, now) {
            return None;
        }
        let id: i32 = match self.message_ids.get(stream_type) {
            Some(id) => *id,
            None => {
                return None;
            },
        };
        let text: String = stream_text(stream_type, accumulated);
        match cut_tail(text.as_str()) {
            Some(t) => Some(Edit { message_id: id, text: t }),
            None => None,
        }
    }

    /// The message of a stream was changed.
    pub fn edited(&mut self, stream_type: &str, now: u64)
        ensures
            final(self)@ == (SinkV {
                last_edit: with_entry(old(self)@.last_edit, stream_type@, now),
                ..old(self)@
            }),
            final(self).sender == old(self).sender,
    {
        self.last_edit.insert(stream_type.to_owned(), now);
    }

    /// A stream has ended: what to do with its message.
    pub fn on_stream_end(&mut self, stream_type: &str, accumulated: &str) -> (r: EndAction)
        ensures
            final(self).sender == old(self).sender,
            if !old(self)@.stream_enabled {
                r is Nothing && final(self)@ == old(self)@
            } else {
                let text = stream_prefix(stream_type@) + accumulated@;
                let id = lookup(old(self)@.message_ids, stream_type@);
                &&& final(self)@ == (SinkV {
                    message_ids: without_entry(old(self)@.message_ids, stream_type@),
                    last_edit: without_entry(old(self)@.last_edit, stream_type@),
                    message_streamed: old(self)@.message_streamed || (id is Some && stream_type@
                        == "message"@),
                    ..old(self)@
                })
                &&& match id {
                    None => r matches EndAction::Send(t) && t@ == text,
                    Some(m) => if byte_len(text) <= SEND_CHUNK_SIZE {
                        r matches EndAction::EditFinal(e) && e.message_id == m && e.text@ == text
                    } else {
                        r matches EndAction::DeleteAndSend(e) && e.message_id == m && e.text@
                            == text
                    },
                }
            },
    {
        if !self.stream_enabled {
            return EndAction::Nothing;
        }
        let id: Option<i32> = self.message_ids.remove(stream_type);
        let _ = self.last_edit.remove(stream_type);
        let text: String = stream_text(stream_type, accumulated);
        match id {
            None => EndAction::Send(text),
            Some(m) => {
                if same(stream_type, "message") {
                    self.message_streamed = true;
                }
                let v: Vec<char> = chars_of(text.as_str());
                match byte_len_within(&v, SEND_CHUNK_SIZE) {
                    Some(_) => EndAction::EditFinal(Edit { message_id: m, text: text }),
                    None => EndAction::DeleteAndSend(Edit { message_id: m, text: text }),
                }
            },
        }
    }

    /// The reply is complete: its text, unless it was shown, and the parts that are no text.
    pub fn on_completed(&self, reply: &ProcessedReply) -> (r: Vec<SendStep>)
        ensures
            r.deep_view() == completed_steps(self@, reply@),
    {
        let mut steps: Vec<SendStep> = Vec::new();
        assert(steps.deep_view() =~= Seq::<StepV>::empty());
        if !self.message_streamed && !reply.text.as_str().is_empty() {
            steps.push(SendStep::Text(reply.text.clone()));
            assert(steps.deep_view() =~= seq![StepV::Text(reply.text@)]);
        }
        push_media_steps(&mut steps, &reply.parts);
        steps
    }
}

/// A message that was shown to its end is not sent again with the reply, whatever the reply says.
pub proof fn streamed_text_is_not_sent_again(s: SinkV, reply: ReplyV)
    requires
        s.message_streamed,
    ensures
        completed_steps(s, reply) == media_steps(reply.parts),
{
    assert(Seq::<StepV>::empty() + media_steps(reply.parts) =~= media_steps(reply.parts));
}

} // verus!
