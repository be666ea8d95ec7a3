//! Server-sent events: bytes in, payloads out.

use vstd::prelude::*;

use crate::strs::{
    after_prefix, first_at, first_at_from_is_first, from_utf8_lossy, lines, lines_of, lossy_text,
    occurs_at, pieces_of, same, split_char, strip_prefix, texts, texts_push, trim, trimmed,
};

verus! {

/// The payload of a line: what follows `data:`, trimmed. A line without a payload, and the end
/// marker, have none.
pub open spec fn payload_of(line: Seq<char>) -> Option<Seq<char>> {
    match after_prefix(trimmed(line), "data:"@) {
        Some(rest) => {
            let p = trimmed(rest);
            if p.len() == 0 || p == "[DONE]"@ {
                None
            } else {
                Some(p)
            }
        },
        None => None,
    }
}

/// The payload of a line.
pub fn parse_sse_line(line: &str) -> (r: Option<String>)
    ensures
        r.deep_view() == payload_of(line@),
{
    match strip_prefix(trim(line), "data:") {
        Some(rest) => {
            let p: &str = trim(rest);
            if p.is_empty() || same(p, "[DONE]") {
                None
            } else {
                Some(p.to_owned())
            }
        },
        None => None,
    }
}

/// The payloads of lines, in order.
pub open spec fn payloads_of(ls: Seq<Seq<char>>) -> Seq<Seq<char>>
    decreases ls.len(),
{
    if ls.len() == 0 {
        Seq::empty()
    } else {
        match payload_of(ls.last()) {
            Some(p) => payloads_of(ls.drop_last()).push(p),
            None => payloads_of(ls.drop_last()),
        }
    }
}

fn payloads(ls: &Vec<String>, n: usize) -> (r: Vec<String>)
    requires
        n <= ls@.len(),
    ensures
        texts(r@) == payloads_of(texts(ls@).take(n as int)),
{
    let ghost all = texts(ls@);
    let mut r: Vec<String> = Vec::new();
    let mut i: usize = 0;
    assert(all.take(0) == Seq::<Seq<char>>::empty());
    assert(texts(r@) == Seq::<Seq<char>>::empty());
    while i < n
        invariant
            i <= n <= ls@.len(),
            all == texts(ls@),
            texts(r@) == payloads_of(all.take(i as int)),
        decreases n - i,
    {
        proof {
            assert(all.take(i + 1).drop_last() == all.take(i as int));
            assert(all.take(i + 1).last() == ls@[i as int]@);
        }
        if let Some(p) = parse_sse_line(ls[i].as_str()) {
            let ghost before = r@;
            r.push(p);
            proof {
                texts_push(before, p);
            }
        }
        i = i + 1;
    }
    r
}

/// A stream of events of which some bytes have come in: the line that is not complete yet.
pub struct SseBuffer {
    pub buffer: String,
}

/// What comes out when text is added to an incomplete line: the payloads of the lines that are
/// now complete, and the new incomplete line.
pub open spec fn fed(buffer: Seq<char>, text: Seq<char>) -> (Seq<Seq<char>>, Seq<char>) {
    let ps = pieces_of(buffer + text, '\n');
    (payloads_of(ps.drop_last()), ps.last())
}

proof fn pieces_nonempty(s: Seq<char>, c: char)
    ensures
        pieces_of(s, c).len() > 0,
    decreases s.len(),
{
    match first_at(s, seq![c]) {
        Some(i) => {
            if 0 <= i < s.len() {
                pieces_nonempty(s.skip(i + 1), c);
            }
        },
        None => {},
    }
}

impl SseBuffer {
    /// The stream before any byte has come in.
    pub fn new() -> (r: SseBuffer)
        ensures
            r.buffer@ == Seq::<char>::empty(),
    {
        SseBuffer { buffer: String::new() }
    }

    /// Takes in text and returns the payloads that are complete with it.
    pub fn push_text(&mut self, text: &str) -> (r: Vec<String>)
        ensures
            (texts(r@), final(self).buffer@) == fed(old(self).buffer@, text@),
    {
        let ghost before = self.buffer@;
        self.buffer.append(text);
        let ps: Vec<String> = split_char(self.buffer.as_str(), '\n');
        proof {
            pieces_nonempty(before + text@, '\n');
            assert(texts(ps@).len() == ps@.len());
        }
        let n: usize = ps.len() - 1;
        let r: Vec<String> = payloads(&ps, n);
        self.buffer = ps[n].clone();
        proof {
            assert(texts(ps@).drop_last() == texts(ps@).take(n as int));
            assert(texts(ps@).last() == ps@[n as int]@);
        }
        r
    }

    /// Takes in bytes and returns the payloads that are complete with them.
    pub fn push_chunk(&mut self, chunk: &[u8]) -> (r: Vec<String>)
        ensures
            (texts(r@), final(self).buffer@) == fed(old(self).buffer@, lossy_text(chunk@)),
    {
        let text: String = from_utf8_lossy(chunk);
        self.push_text(text.as_str())
    }

    /// The payloads of what is left when the stream has ended.
    pub fn finish(&self) -> (r: Vec<String>)
        ensures
            texts(r@) == payloads_of(lines_of(self.buffer@)),
    {
        let ls: Vec<String> = lines(self.buffer.as_str());
        let r: Vec<String> = payloads(&ls, ls.len());
        assert(texts(ls@).take(ls@.len() as int) == texts(ls@));
        r
    }
}

proof fn find_char_before(a: Seq<char>, b: Seq<char>, c: char)
    ensures
        match first_at(a, seq![c]) {
            Some(i) => 0 <= i < a.len() && first_at(a + b, seq![c]) == Some(i),
            None => true,
        },
{
    let p = seq![c];
    first_at_from_is_first(a, p, 0);
    first_at_from_is_first(a + b, p, 0);
    match first_at(a, p) {
        Some(i) => {
            assert((a + b).subrange(i, i + 1) == a.subrange(i, i + 1));
            assert(occurs_at(a + b, p, i));
            assert forall|k: int| 0 <= k < i implies !occurs_at(a + b, p, k) by {
                assert((a + b).subrange(k, k + 1) == a.subrange(k, k + 1));
                assert(!occurs_at(a, p, k));
            }
        },
        None => {},
    }
}

proof fn pieces_of_added(a: Seq<char>, b: Seq<char>, c: char)
    ensures
        pieces_of(a, c).len() > 0,
        pieces_of(a + b, c) == pieces_of(a, c).drop_last() + pieces_of(
            pieces_of(a, c).last() + b,
            c,
        ),
    decreases a.len(),
{
    pieces_nonempty(a, c);
    find_char_before(a, b, c);
    match first_at(a, seq![c]) {
        Some(i) => {
            let rest = a.skip(i + 1);
            pieces_of_added(rest, b, c);
            assert((a + b).skip(i + 1) == rest + b);
            assert((a + b).take(i) == a.take(i));
            let head = seq![a.take(i)];
            assert((head + pieces_of(rest, c)).drop_last() == head + pieces_of(
                rest,
                c,
            ).drop_last());
            assert((head + pieces_of(rest, c)).last() == pieces_of(rest, c).last());
            assert(pieces_of(a + b, c) =~= pieces_of(a, c).drop_last() + pieces_of(
                pieces_of(a, c).last() + b,
                c,
            ));
        },
        None => {
            assert(seq![a].drop_last() + pieces_of(a + b, c) =~= pieces_of(a + b, c));
        },
    }
}

proof fn payloads_of_added(a: Seq<Seq<char>>, b: Seq<Seq<char>>)
    ensures
        payloads_of(a + b) == payloads_of(a) + payloads_of(b),
    decreases b.len(),
{
    if b.len() == 0 {
        assert(a + b == a);
        assert(payloads_of(a) + payloads_of(b) == payloads_of(a));
    } else {
        payloads_of_added(a, b.drop_last());
        assert((a + b).drop_last() == a + b.drop_last());
        assert((a + b).last() == b.last());
    }
}

/// How a text is cut into chunks does not matter: the payloads and the line that is left are
/// the same as if it came in at once.
pub proof fn chunking_does_not_matter(buffer: Seq<char>, x: Seq<char>, y: Seq<char>)
    ensures
        ({
            let first = fed(buffer, x);
            let second = fed(first.1, y);
            fed(buffer, x + y) == (first.0 + second.0, second.1)
        }),
{
    let a = buffer + x;
    pieces_of_added(a, y, '\n');
    assert(buffer + (x + y) == a + y);
    let ps = pieces_of(a, '\n');
    let qs = pieces_of(ps.last() + y, '\n');
    pieces_nonempty(ps.last() + y, '\n');
    assert((ps.drop_last() + qs).drop_last() == ps.drop_last() + qs.drop_last());
    assert((ps.drop_last() + qs).last() == qs.last());
    payloads_of_added(ps.drop_last(), qs.drop_last());
}

} // verus!
