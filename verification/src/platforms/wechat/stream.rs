//! A reply that is sent in pieces while an agent is still at work.

use vstd::prelude::*;

use crate::error::GatewayError;
use crate::platforms::wechat::client::WECHAT_TEXT_CHUNK_CHARS;
use crate::strs::{
    chained, chained_push, chars_of, concat2, concat3, decimal, same, slice_string, texts,
    texts_push, trim, trimmed, u64_string,
};
use crate::text::{char_chunks, split_text_chars, window_cut, window_cut_bounds};

verus! {

/// Whether replies are sent in pieces: as configured, and always with the Codex app server.
pub fn wechat_streaming_enabled(backend: &str, cfg_enabled: bool) -> (r: bool)
    ensures
        r == (cfg_enabled || backend@ == "codex_app_server"@),
{
    cfg_enabled || same(backend, "codex_app_server")
}

// ---------------------------------------------------------------------------------------------
// Chunks
// ---------------------------------------------------------------------------------------------

/// How many characters the first chunk of a text takes.
pub open spec fn first_cut(s: Seq<char>, max: nat) -> int {
    if s.len() <= max {
        s.len() as int
    } else {
        window_cut(s.take(max as int), max)
    }
}

/// The chunks that can be sent of a text that may still grow: while it has as many characters as a
/// message, its first chunk.
pub open spec fn full_chunks(s: Seq<char>, max: nat) -> Seq<Seq<char>>
    decreases s.len(),
{
    let n = first_cut(s, max);
    if s.len() < max || !(0 < n <= s.len()) {
        Seq::empty()
    } else {
        seq![s.take(n)] + full_chunks(s.skip(n), max)
    }
}

/// What is left of a text that may still grow.
pub open spec fn left_over(s: Seq<char>, max: nat) -> Seq<char>
    decreases s.len(),
{
    let n = first_cut(s, max);
    if s.len() < max || !(0 < n <= s.len()) {
        s
    } else {
        left_over(s.skip(n), max)
    }
}

proof fn first_cut_bounds(s: Seq<char>, max: nat)
    requires
        max > 0,
        s.len() >= max,
    ensures
        0 < first_cut(s, max) <= s.len(),
        first_cut(s, max) <= max,
        char_chunks(s, max).len() > 0,
        char_chunks(s, max)[0] == s.take(first_cut(s, max)),
{
    if s.len() > max {
        window_cut_bounds(s.take(max as int), max);
    } else {
        assert(s.take(s.len() as int) == s);
    }
}

/// Takes from a text that may still grow the chunks that can be sent.
pub fn take_full_chunks(buffer: &mut String, max_chars: usize) -> (r: Vec<String>)
    requires
        max_chars > 0,
    ensures
        texts(r@) == full_chunks(old(buffer)@, max_chars as nat),
        final(buffer)@ == left_over(old(buffer)@, max_chars as nat),
{
    let mut out: Vec<String> = Vec::new();
    let ghost start = buffer@;
    let ghost max = max_chars as nat;
    assert(texts(out@) =~= Seq::<Seq<char>>::empty());
    assert(Seq::<Seq<char>>::empty() + full_chunks(start, max) =~= full_chunks(start, max));
    loop
        invariant
            max_chars > 0,
            max == max_chars,
            start == old(buffer)@,
            full_chunks(start, max) == texts(out@) + full_chunks(buffer@, max),
            left_over(start, max) == left_over(buffer@, max),
        decreases buffer@.len(),
    {
        let v: Vec<char> = chars_of(buffer.as_str());
        if v.len() < max_chars {
            assert(texts(out@) + Seq::<Seq<char>>::empty() =~= texts(out@));
            return out;
        }
        let ghost s = buffer@;
        proof {
            first_cut_bounds(s, max);
        }
        let chunks: Vec<String> = split_text_chars(buffer.as_str(), max_chars);
        assert(texts(chunks@).len() == chunks@.len());
        let first: String = chunks[0].clone();
        assert(texts(chunks@)[0] == chunks@[0]@);
        let n: usize = chars_of(first.as_str()).len();
        let rest: String = slice_string(&v, n, v.len());
        let ghost before = out@;
        out.push(first);
        proof {
            texts_push(before, first);
            assert(n == first_cut(s, max));
            assert(rest@ == s.skip(n as int));
            assert(texts(before) + (seq![s.take(n as int)] + full_chunks(s.skip(n as int), max))
                =~= texts(out@) + full_chunks(rest@, max));
        }
        *buffer = rest;
    }
}

/// The chunks and what is left, one after another, are the text; every chunk fits into a message, and
/// what is left is shorter than one.
pub proof fn full_chunks_lose_nothing(s: Seq<char>, max: nat)
    requires
        max > 0,
    ensures
        chained(full_chunks(s, max)) + left_over(s, max) == s,
        left_over(s, max).len() < max,
        forall|i: int|
            0 <= i < full_chunks(s, max).len() ==> 0 < (#[trigger] full_chunks(s, max)[i]).len()
                <= max,
    decreases s.len(),
{
    if s.len() >= max {
        first_cut_bounds(s, max);
        let n = first_cut(s, max);
        let tail = full_chunks(s.skip(n), max);
        full_chunks_lose_nothing(s.skip(n), max);
        chained_front(s.take(n), tail);
        assert(s.take(n) + chained(tail) + left_over(s, max) =~= s.take(n) + (chained(tail)
            + left_over(s, max)));
        assert(s.take(n) + s.skip(n) =~= s);
        assert forall|i: int| 0 <= i < full_chunks(s, max).len() implies 0 < (
        #[trigger] full_chunks(s, max)[i]).len() <= max by {
            if i > 0 {
                assert(full_chunks(s, max)[i] == tail[i - 1]);
            }
        }
    } else {
        assert(Seq::<char>::empty() + s =~= s);
    }
}

proof fn chained_front(x: Seq<char>, parts: Seq<Seq<char>>)
    ensures
        chained(seq![x] + parts) == x + chained(parts),
    decreases parts.len(),
{
    if parts.len() == 0 {
        assert(seq![x] + parts =~= Seq::<Seq<char>>::empty().push(x));
        chained_push(Seq::empty(), x);
        assert(Seq::<char>::empty() + x =~= x + Seq::<char>::empty());
    } else {
        let front = parts.drop_last();
        chained_front(x, front);
        chained_push(seq![x] + front, parts.last());
        chained_push(front, parts.last());
        assert(front.push(parts.last()) =~= parts);
        assert((seq![x] + front).push(parts.last()) =~= seq![x] + parts);
        assert(x + chained(front) + parts.last() =~= x + (chained(front) + parts.last()));
    }
}

// ---------------------------------------------------------------------------------------------
// The sink
// ---------------------------------------------------------------------------------------------

/// What is to be sent, and what came of what was sent.
pub struct WeChatStreamSink {
    pub prefix: String,
    pub seen_segments: Vec<String>,
    pub pending_buffer: String,
    pub prefix_sent: bool,
    pub message_streamed: bool,
    pub failed_sends: u32,
    pub last_error: Option<String>,
}

/// What a sink holds.
#[verifier::ext_equal]
pub struct SinkV {
    pub prefix: Seq<char>,
    pub seen: Seq<Seq<char>>,
    pub pending: Seq<char>,
    pub prefix_sent: bool,
    pub message_streamed: bool,
    pub failed_sends: u32,
    pub last_error: Option<Seq<char>>,
}

impl View for WeChatStreamSink {
    type V = SinkV;

    open spec fn view(&self) -> SinkV {
        SinkV {
            prefix: self.prefix@,
            seen: texts(self.seen_segments@),
            pending: self.pending_buffer@,
            prefix_sent: self.prefix_sent,
            message_streamed: self.message_streamed,
            failed_sends: self.failed_sends,
            last_error: self.last_error.deep_view(),
        }
    }
}

/// A message to be sent.
#[derive(Debug)]
pub struct Outgoing {
    pub text: String,
    pub prefix: String,
    /// Whether to wait before it is sent.
    pub wait: bool,
}

/// The text so far with one more segment.
pub open spec fn grown(pending: Seq<char>, segment: Seq<char>) -> Seq<char> {
    if pending.len() > 0 {
        pending + "\n\n"@ + segment
    } else {
        segment
    }
}

/// Whether a segment adds something: it is not blank, and did not come before.
pub open spec fn is_news(s: SinkV, text: Seq<char>) -> bool {
    trimmed(text).len() > 0 && !s.seen.contains(trimmed(text))
}

/// The sink after a segment, and the chunks to be sent.
pub open spec fn appended(s: SinkV, text: Seq<char>) -> (SinkV, Seq<Seq<char>>) {
    if is_news(s, text) {
        let all = grown(s.pending, trimmed(text));
        (
            SinkV {
                seen: s.seen.push(trimmed(text)),
                pending: left_over(all, WECHAT_TEXT_CHUNK_CHARS as nat),
                ..s
            },
            full_chunks(all, WECHAT_TEXT_CHUNK_CHARS as nat),
        )
    } else {
        (s, Seq::empty())
    }
}

/// The sink once the reply is complete, and the chunks to be sent: its text, where nothing came of it
/// before, and all that is left.
pub open spec fn completed(s: SinkV, text: Seq<char>) -> (SinkV, Seq<Seq<char>>) {
    let (s1, chunks) = if !s.message_streamed && s.pending.len() == 0 {
        appended(s, text)
    } else {
        (s, Seq::empty())
    };
    if s1.pending.len() > 0 {
        (SinkV { pending: Seq::empty(), ..s1 }, chunks.push(s1.pending))
    } else {
        (s1, chunks)
    }
}

impl WeChatStreamSink {
    /// Nothing was sent yet.
    pub fn new(prefix: &str) -> (r: WeChatStreamSink)
        ensures
            r@ == (SinkV {
                prefix: prefix@,
                seen: Seq::empty(),
                pending: Seq::empty(),
                prefix_sent: false,
                message_streamed: false,
                failed_sends: 0,
                last_error: None,
            }),
    {
        let r: WeChatStreamSink = WeChatStreamSink {
            prefix: prefix.to_owned(),
            seen_segments: Vec::new(),
            pending_buffer: String::new(),
            prefix_sent: false,
            message_streamed: false,
            failed_sends: 0,
            last_error: None,
        };
        assert(texts(r.seen_segments@) =~= Seq::<Seq<char>>::empty());
        r
    }

    /// What is said where some messages could not be sent; `None` where all could.
    pub fn send_failure_summary(&self) -> (r: Option<String>)
        ensures
            r.deep_view() == if self@.failed_sends == 0 {
                None
            } else {
                Some(
                    decimal(self@.failed_sends as nat) + " wechat segment(s) failed to send"@ + (
                    match self@.last_error {
                        Some(e) => "; last error: "@ + e,
                        None => Seq::empty(),
                    }),
                )
            },
    {
        if self.failed_sends == 0 {
            return None;
        }
        let detail: String = match &self.last_error {
            Some(e) => concat2("; last error: ", e.as_str()),
            None => String::new(),
        };
        let n: String = u64_string(self.failed_sends as u64);
        Some(concat3(n.as_str(), " wechat segment(s) failed to send", detail.as_str()))
    }

    fn was_seen(&self, text: &str) -> (r: bool)
        ensures
            r == self@.seen.contains(text@),
    {
        let ghost all = self@.seen;
        let mut i: usize = 0;
        while i < self.seen_segments.len()
            invariant
                i <= self.seen_segments@.len(),
                all == texts(self.seen_segments@),
                forall|k: int| 0 <= k < i ==> #[trigger] all[k] != text@,
            decreases self.seen_segments@.len() - i,
        {
            assert(all[i as int] == self.seen_segments@[i as int]@);
            if same(self.seen_segments[i].as_str(), text) {
                assert(all.contains(text@));
                return true;
            }
            i = i + 1;
        }
        false
    }

    /// Takes in a segment: the chunks to be sent.
    pub fn append_segment(&mut self, text: &str) -> (r: Vec<String>)
        ensures
            appended(old(self)@, text@) == (final(self)@, texts(r@)),
    {
        let t: &str = trim(text);
        if t.is_empty() || self.was_seen(t) {
            let none: Vec<String> = Vec::new();
            assert(texts(none@) =~= Seq::<Seq<char>>::empty());
            return none;
        }
        let ghost before = self.seen_segments@;
        let own: String = t.to_owned();
        self.seen_segments.push(own);
        proof {
            texts_push(before, own);
        }
        let mut all: String = if self.pending_buffer.as_str().is_empty() {
            t.to_owned()
        } else {
            concat3(self.pending_buffer.as_str(), "\n\n", t)
        };
        let chunks: Vec<String> = take_full_chunks(&mut all, WECHAT_TEXT_CHUNK_CHARS);
        self.pending_buffer = all;
        chunks
    }

    /// A stream has ended with this text: the chunks to be sent.
    pub fn on_stream_end(&mut self, accumulated: &str) -> (r: Vec<String>)
        ensures
            appended(old(self)@, accumulated@) == (final(self)@, texts(r@)),
    {
        self.append_segment(accumulated)
    }

    /// The reply is complete with this text: the chunks to be sent.
    pub fn on_completed(&mut self, text: &str) -> (r: Vec<String>)
        ensures
            completed(old(self)@, text@) == (final(self)@, texts(r@)),
    {
        let mut chunks: Vec<String> = Vec::new();
        assert(texts(chunks@) =~= Seq::<Seq<char>>::empty());
        if !self.message_streamed && self.pending_buffer.as_str().is_empty() {
            chunks = self.append_segment(text);
        }
        if !self.pending_buffer.as_str().is_empty() {
            let rest: String = self.pending_buffer.clone();
            let ghost before = chunks@;
            chunks.push(rest);
            proof {
                texts_push(before, rest);
            }
            self.pending_buffer = String::new();
            assert(self.pending_buffer@ =~= Seq::<char>::empty());
        }
        chunks
    }

    /// A chunk as it is sent: without the white space round it, with the prefix where that was not
    /// sent yet. `None` where it is blank.
    pub fn dispatch_send(&self, chunk: &str) -> (r: Option<Outgoing>)
        ensures
            match r {
                Some(o) => {
                    &&& trimmed(chunk@).len() > 0
                    &&& o.text@ == trimmed(chunk@)
                    &&& o.prefix@ == if self@.prefix_sent {
                        Seq::empty()
                    } else {
                        self@.prefix
                    }
                    &&& o.wait == self@.message_streamed
                },
                None => trimmed(chunk@).len() == 0,
            },
    {
        let t: &str = trim(chunk);
        if t.is_empty() {
            return None;
        }
        let prefix: String = if self.prefix_sent {
            String::new()
        } else {
            self.prefix.clone()
        };
        Some(Outgoing { text: t.to_owned(), prefix: prefix, wait: self.message_streamed })
    }

    /// A message was sent.
    pub fn sent(&mut self)
        ensures
            final(self)@ == (SinkV { prefix_sent: true, message_streamed: true, ..old(self)@ }),
    {
        self.prefix_sent = true;
        self.message_streamed = true;
    }

    /// A message could not be sent. The rest of the reply goes on.
    pub fn failed(&mut self, error: &GatewayError)
        requires
            old(self)@.failed_sends < u32::MAX,
        ensures
            final(self)@ == (SinkV {
                failed_sends: (old(self)@.failed_sends + 1) as u32,
                last_error: Some(crate::error::error_text(error@)),
                ..old(self)@
            }),
    {
        self.failed_sends = self.failed_sends + 1;
        self.last_error = Some(error.message());
    }
}

/// A segment that came once is not sent a second time.
pub proof fn segments_are_sent_once(s: SinkV, text: Seq<char>, again: Seq<char>)
    requires
        trimmed(text) == trimmed(again),
    ensures
        appended(appended(s, text).0, again) == (appended(s, text).0, Seq::<Seq<char>>::empty()),
{
    let t = trimmed(text);
    if is_news(s, text) {
        assert(s.seen.push(t)[s.seen.len() as int] == t);
        assert(s.seen.push(t).contains(t));
    }
}

/// Once a reply is complete, nothing of it is left to be sent.
pub proof fn completion_leaves_nothing(s: SinkV, text: Seq<char>)
    ensures
        completed(s, text).0.pending.len() == 0,
{
}

} // verus!
