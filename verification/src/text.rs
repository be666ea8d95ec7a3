//! Splitting long texts into messages that a chat platform accepts.

use vstd::prelude::*;

use crate::strs::{
    byte_len, byte_len_add, byte_len_bounds, byte_len_push, chained, char_len, chars_of, last_at,
    last_at_to_is_last, rfind_in, slice_string, texts, texts_push, utf8_len,
};

verus! {

// ---------------------------------------------------------------------------------------------
// By bytes, at line ends
// ---------------------------------------------------------------------------------------------

/// How many characters of `s` fit into `bytes` bytes, counted from its start.
pub open spec fn fitting(s: Seq<char>, bytes: int) -> int
    decreases s.len(),
{
    if s.len() == 0 || utf8_len(s[0]) > bytes {
        0
    } else {
        1 + fitting(s.drop_first(), bytes - utf8_len(s[0]))
    }
}

/// What `fitting` counts is the longest prefix that takes at most `bytes` bytes.
pub proof fn fitting_is_longest(s: Seq<char>, bytes: int)
    requires
        bytes >= 0,
    ensures
        0 <= fitting(s, bytes) <= s.len(),
        byte_len(s.take(fitting(s, bytes))) <= bytes,
        fitting(s, bytes) < s.len() ==> byte_len(s.take(fitting(s, bytes) + 1)) > bytes,
        fitting(s, bytes) == s.len() <==> byte_len(s) <= bytes,
    decreases s.len(),
{
    if s.len() > 0 {
        let n = fitting(s, bytes);
        assert(s == seq![s[0]] + s.drop_first());
        byte_len_bounds(s.drop_first());
        if utf8_len(s[0]) <= bytes {
            let t = s.drop_first();
            fitting_is_longest(t, bytes - utf8_len(s[0]));
            assert(s.take(n).drop_first() == t.take(n - 1));
            if n < s.len() {
                assert(s.take(n + 1).drop_first() == t.take(n));
            }
        } else {
            assert(s.take(1).drop_first() == Seq::<char>::empty());
            assert(s.take(0) == Seq::<char>::empty());
            assert(byte_len(s.take(1)) == utf8_len(s[0]) + byte_len(Seq::<char>::empty()));
        }
    } else {
        assert(s.take(0) == s);
    }
}

/// The end of the last full line of `w`, or the end of `w` where it holds no line feed.
pub open spec fn line_end(w: Seq<char>) -> int {
    match last_at(w, seq!['\n']) {
        Some(i) => i + 1,
        None => w.len() as int,
    }
}

/// How many characters of `rest` the next chunk takes.
pub open spec fn line_chunk(rest: Seq<char>, max_len: nat) -> int {
    if byte_len(rest) <= max_len {
        rest.len() as int
    } else {
        line_end(rest.take(fitting(rest, max_len as int)))
    }
}

/// Whether every cut at `max_len` bytes falls between two characters, and moves on.
pub open spec fn cuts_fall_on_chars(rest: Seq<char>, max_len: nat) -> bool
    decreases rest.len(),
{
    byte_len(rest) <= max_len || {
        let n = fitting(rest, max_len as int);
        let e = line_chunk(rest, max_len);
        &&& 0 < n <= rest.len()
        &&& byte_len(rest.take(n)) == max_len
        &&& 0 < e <= rest.len()
        &&& cuts_fall_on_chars(rest.skip(e), max_len)
    }
}

/// The chunks of `rest`.
pub open spec fn line_chunks(rest: Seq<char>, max_len: nat) -> Seq<Seq<char>>
    decreases rest.len(),
{
    let e = line_chunk(rest, max_len);
    if byte_len(rest) <= max_len || !(0 < e <= rest.len()) {
        seq![rest]
    } else {
        seq![rest.take(e)] + line_chunks(rest.skip(e), max_len)
    }
}

proof fn line_chunk_bounds(rest: Seq<char>, max_len: nat)
    requires
        byte_len(rest) > max_len,
        fitting(rest, max_len as int) > 0,
    ensures
        0 < line_chunk(rest, max_len) <= fitting(rest, max_len as int) < rest.len(),
{
    fitting_is_longest(rest, max_len as int);
    let w = rest.take(fitting(rest, max_len as int));
    last_at_to_is_last(w, seq!['\n'], w.len() - 1);
}

/// Texts of ASCII characters can be cut anywhere.
pub proof fn ascii_cuts_fall_on_chars(t: Seq<char>, max_len: nat)
    requires
        max_len > 0,
        forall|i: int| 0 <= i < t.len() ==> utf8_len(#[trigger] t[i]) == 1,
    ensures
        cuts_fall_on_chars(t, max_len),
    decreases t.len(),
{
    ascii_len(t);
    if byte_len(t) > max_len {
        let n = fitting(t, max_len as int);
        fitting_is_longest(t, max_len as int);
        ascii_len(t.take(n));
        ascii_len(t.take(n + 1));
        line_chunk_bounds(t, max_len);
        ascii_cuts_fall_on_chars(t.skip(line_chunk(t, max_len)), max_len);
    }
}

proof fn ascii_len(t: Seq<char>)
    requires
        forall|i: int| 0 <= i < t.len() ==> utf8_len(#[trigger] t[i]) == 1,
    ensures
        byte_len(t) == t.len(),
    decreases t.len(),
{
    if t.len() > 0 {
        assert forall|i: int| 0 <= i < t.len() - 1 implies utf8_len(#[trigger] t.drop_first()[i])
            == 1 by {
            assert(t.drop_first()[i] == t[i + 1]);
        }
        ascii_len(t.drop_first());
    }
}

proof fn chained_cons(x: Seq<char>, rest: Seq<Seq<char>>)
    ensures
        chained(seq![x] + rest) == x + chained(rest),
    decreases rest.len(),
{
    if rest.len() == 0 {
        assert(seq![x] + rest == seq![x]);
        assert(seq![x].drop_last() == Seq::<Seq<char>>::empty());
        reveal_with_fuel(chained, 2);
        assert(x + chained(rest) == x);
    } else {
        chained_cons(x, rest.drop_last());
        assert((seq![x] + rest).drop_last() == seq![x] + rest.drop_last());
        assert(x + chained(rest.drop_last()) + rest.last() == x + (chained(rest.drop_last())
            + rest.last()));
    }
}

/// The chunks of a text, one after another, are the text.
pub proof fn line_chunks_lose_nothing(t: Seq<char>, max_len: nat)
    ensures
        chained(line_chunks(t, max_len)) == t,
    decreases t.len(),
{
    let e = line_chunk(t, max_len);
    if byte_len(t) <= max_len || !(0 < e <= t.len()) {
        chained_cons(t, Seq::empty());
        assert(seq![t] + Seq::<Seq<char>>::empty() == seq![t]);
        assert(t + chained(Seq::empty()) == t);
    } else {
        line_chunks_lose_nothing(t.skip(e), max_len);
        chained_cons(t.take(e), line_chunks(t.skip(e), max_len));
        assert(t.take(e) + t.skip(e) == t);
    }
}

/// Every chunk takes at most `max_len` bytes, and only an empty text has an empty chunk.
pub proof fn line_chunks_fit(t: Seq<char>, max_len: nat)
    requires
        cuts_fall_on_chars(t, max_len),
    ensures
        forall|i: int|
            0 <= i < line_chunks(t, max_len).len() ==> {
                &&& byte_len(#[trigger] line_chunks(t, max_len)[i]) <= max_len
                &&& t.len() > 0 ==> line_chunks(t, max_len)[i].len() > 0
            },
    decreases t.len(),
{
    if byte_len(t) > max_len {
        let e = line_chunk(t, max_len);
        let n = fitting(t, max_len as int);
        line_chunk_bounds(t, max_len);
        line_chunks_fit(t.skip(e), max_len);
        let tail = line_chunks(t.skip(e), max_len);
        assert(t.take(n) == t.take(e) + t.subrange(e, n));
        byte_len_add(t.take(e), t.subrange(e, n));
        assert forall|i: int| 0 <= i < line_chunks(t, max_len).len() implies {
            &&& byte_len(#[trigger] line_chunks(t, max_len)[i]) <= max_len
            &&& t.len() > 0 ==> line_chunks(t, max_len)[i].len() > 0
        } by {
            if i > 0 {
                assert(line_chunks(t, max_len)[i] == tail[i - 1]);
            }
        }
    }
}

/// The end of the longest stretch of `v` from `from` on that takes at most `max_len` bytes.
pub fn fitting_end(v: &Vec<char>, from: usize, max_len: usize) -> (r: (usize, usize))
    requires
        from <= v@.len(),
    ensures
        from <= r.0 <= v@.len(),
        r.0 - from == fitting(v@.skip(from as int), max_len as int),
        r.1 == byte_len(v@.subrange(from as int, r.0 as int)),
{
    let mut j: usize = from;
    let mut n: usize = 0;
    assert(v@.subrange(from as int, from as int) == Seq::<char>::empty());
    while j < v.len()
        invariant
            from <= j <= v@.len(),
            n == byte_len(v@.subrange(from as int, j as int)),
            n <= max_len,
            fitting(v@.skip(from as int), max_len as int) == j - from + fitting(
                v@.skip(j as int),
                max_len - n,
            ),
        decreases v@.len() - j,
    {
        let l: usize = char_len(v[j]);
        if l > max_len - n {
            return (j, n);
        }
        proof {
            assert(v@.subrange(from as int, j + 1) == v@.subrange(from as int, j as int).push(
                v@[j as int],
            ));
            byte_len_push(v@.subrange(from as int, j as int), v@[j as int]);
            assert(v@.skip(j as int).drop_first() == v@.skip(j + 1));
        }
        n = n + l;
        j = j + 1;
    }
    (j, n)
}

/// Whether `text` can be split into chunks of at most `max_len` bytes: no cut falls inside a
/// character.
pub fn can_split_text(text: &str, max_len: usize) -> (r: bool)
    ensures
        r == cuts_fall_on_chars(text@, max_len as nat),
{
    let v: Vec<char> = chars_of(text);
    let mut nl: Vec<char> = Vec::new();
    nl.push('\n');
    assert(nl@ == seq!['\n']);
    let mut i: usize = 0;
    assert(v@.skip(0) == v@);
    loop
        invariant
            i <= v@.len(),
            nl@ == seq!['\n'],
            cuts_fall_on_chars(text@, max_len as nat) == cuts_fall_on_chars(
                v@.skip(i as int),
                max_len as nat,
            ),
        decreases v@.len() - i,
    {
        let ghost rest = v@.skip(i as int);
        let cut: (usize, usize) = fitting_end(&v, i, max_len);
        proof {
            fitting_is_longest(rest, max_len as int);
            assert(rest.take(cut.0 - i) == v@.subrange(i as int, cut.0 as int));
        }
        if cut.0 == v.len() {
            return true;
        }
        if cut.0 == i || cut.1 != max_len {
            return false;
        }
        let mut window: Vec<char> = Vec::new();
        let mut k: usize = i;
        while k < cut.0
            invariant
                i <= k <= cut.0 <= v@.len(),
                window@ == v@.subrange(i as int, k as int),
            decreases cut.0 - k,
        {
            window.push(v[k]);
            k = k + 1;
        }
        proof {
            assert(window@ == rest.take(fitting(rest, max_len as int)));
            line_chunk_bounds(rest, max_len as nat);
        }
        let end: usize = match rfind_in(&window, &nl) {
            Some(p) => i + p + 1,
            None => cut.0,
        };
        assert(end - i == line_chunk(rest, max_len as nat));
        assert(rest.skip(end - i) == v@.skip(end as int));
        i = end;
    }
}

/// Splits `text` into chunks of at most `max_len` bytes, each ending with the last line feed
/// within the limit where there is one.
pub fn split_text(text: &str, max_len: usize) -> (r: Vec<String>)
    requires
        cuts_fall_on_chars(text@, max_len as nat),
    ensures
        texts(r@) == line_chunks(text@, max_len as nat),
{
    let v: Vec<char> = chars_of(text);
    let mut nl: Vec<char> = Vec::new();
    nl.push('\n');
    assert(nl@ == seq!['\n']);
    let mut r: Vec<String> = Vec::new();
    let mut i: usize = 0;
    assert(v@.skip(0) == v@);
    assert(texts(r@) == Seq::<Seq<char>>::empty());
    loop
        invariant
            i <= v@.len(),
            nl@ == seq!['\n'],
            cuts_fall_on_chars(v@.skip(i as int), max_len as nat),
            line_chunks(text@, max_len as nat) == texts(r@) + line_chunks(
                v@.skip(i as int),
                max_len as nat,
            ),
        decreases v@.len() - i,
    {
        let ghost rest = v@.skip(i as int);
        let ghost before = r@;
        let cut: (usize, usize) = fitting_end(&v, i, max_len);
        proof {
            fitting_is_longest(rest, max_len as int);
        }
        if cut.0 == v.len() {
            let w: String = slice_string(&v, i, v.len());
            r.push(w);
            proof {
                texts_push(before, w);
                assert(rest == v@.subrange(i as int, v@.len() as int));
                assert(texts(before) + seq![rest] == texts(before).push(w@));
            }
            return r;
        }
        let mut window: Vec<char> = Vec::new();
        let mut k: usize = i;
        while k < cut.0
            invariant
                i <= k <= cut.0 <= v@.len(),
                window@ == v@.subrange(i as int, k as int),
            decreases cut.0 - k,
        {
            window.push(v[k]);
            k = k + 1;
        }
        proof {
            assert(window@ == rest.take(fitting(rest, max_len as int)));
            line_chunk_bounds(rest, max_len as nat);
        }
        let end: usize = match rfind_in(&window, &nl) {
            Some(p) => i + p + 1,
            None => cut.0,
        };
        let w: String = slice_string(&v, i, end);
        r.push(w);
        proof {
            texts_push(before, w);
            assert(end - i == line_chunk(rest, max_len as nat));
            assert(rest.take(end - i) == v@.subrange(i as int, end as int));
            assert(rest.skip(end - i) == v@.skip(end as int));
            assert(texts(before) + (seq![rest.take(end - i)] + line_chunks(
                rest.skip(end - i),
                max_len as nat,
            )) == texts(before).push(w@) + line_chunks(v@.skip(end as int), max_len as nat));
        }
        i = end;
    }
}

// ---------------------------------------------------------------------------------------------
// By characters, at logical boundaries
// ---------------------------------------------------------------------------------------------

/// A character that ends a sentence.
pub open spec fn ends_sentence(c: char) -> bool {
    c == '。' || c == '．' || c == '.' || c == '！' || c == '!' || c == '？' || c == '?' || c == '；' || c
        == ';' || c == '…'
}

fn is_sentence_end(c: char) -> (r: bool)
    ensures
        r == ends_sentence(c),
{
    c == '。' || c == '．' || c == '.' || c == '！' || c == '!' || c == '？' || c == '?' || c == '；' || c
        == ';' || c == '…'
}

/// The end of the last sentence in `w`, or 0 where no sentence ends in it.
pub open spec fn sentence_end(w: Seq<char>) -> int
    decreases w.len(),
{
    if w.len() == 0 {
        0
    } else if ends_sentence(w.last()) {
        w.len() as int
    } else {
        sentence_end(w.drop_last())
    }
}

/// How long a chunk has to be for a sentence end or a space to be preferred to a hard cut.
pub open spec fn near_limit(max_chars: nat) -> int {
    let a = if max_chars >= 150 {
        max_chars - 150
    } else {
        0
    };
    let b = (2 * max_chars / 3) as int;
    if a >= b {
        a
    } else {
        b
    }
}

/// How many characters of the window `w` the next chunk takes: up to the last blank line, else
/// the last line feed, else the last sentence end near the limit, else the last space near the
/// limit, else all of it.
pub open spec fn window_cut(w: Seq<char>, max_chars: nat) -> int {
    match last_at(w, seq!['\n', '\n']) {
        Some(i) => i + 2,
        None => match last_at(w, seq!['\n']) {
            Some(i) => i + 1,
            None => {
                let e = sentence_end(w);
                if e > 0 && e >= near_limit(max_chars) {
                    e
                } else {
                    match last_at(w, seq![' ']) {
                        Some(i) => if i + 1 >= near_limit(max_chars) {
                            i + 1
                        } else {
                            w.len() as int
                        },
                        None => w.len() as int,
                    }
                }
            },
        },
    }
}

proof fn sentence_end_bounds(w: Seq<char>)
    ensures
        0 <= sentence_end(w) <= w.len(),
    decreases w.len(),
{
    if w.len() > 0 {
        sentence_end_bounds(w.drop_last());
    }
}

/// A window that is not empty gives a chunk that is not empty.
pub proof fn window_cut_bounds(w: Seq<char>, max_chars: nat)
    requires
        w.len() > 0,
    ensures
        0 < window_cut(w, max_chars) <= w.len(),
{
    last_at_to_is_last(w, seq!['\n', '\n'], w.len() - 2);
    last_at_to_is_last(w, seq!['\n'], w.len() - 1);
    last_at_to_is_last(w, seq![' '], w.len() - 1);
    sentence_end_bounds(w);
}

/// The chunks of `rest`.
pub open spec fn char_chunks(rest: Seq<char>, max_chars: nat) -> Seq<Seq<char>>
    decreases rest.len(),
{
    let e = window_cut(rest.take(max_chars as int), max_chars);
    if max_chars == 0 || rest.len() <= max_chars || !(0 < e <= rest.len()) {
        seq![rest]
    } else {
        seq![rest.take(e)] + char_chunks(rest.skip(e), max_chars)
    }
}

/// The chunks of a text, one after another, are the text.
pub proof fn char_chunks_lose_nothing(t: Seq<char>, max_chars: nat)
    ensures
        chained(char_chunks(t, max_chars)) == t,
    decreases t.len(),
{
    let e = window_cut(t.take(max_chars as int), max_chars);
    if max_chars == 0 || t.len() <= max_chars || !(0 < e <= t.len()) {
        chained_cons(t, Seq::empty());
        assert(seq![t] + Seq::<Seq<char>>::empty() == seq![t]);
        assert(t + chained(Seq::empty()) == t);
    } else {
        char_chunks_lose_nothing(t.skip(e), max_chars);
        chained_cons(t.take(e), char_chunks(t.skip(e), max_chars));
        assert(t.take(e) + t.skip(e) == t);
    }
}

/// Where a limit is set, every chunk has at most that many characters, and only an empty text
/// has an empty chunk.
pub proof fn char_chunks_fit(t: Seq<char>, max_chars: nat)
    requires
        max_chars > 0,
    ensures
        forall|i: int|
            0 <= i < char_chunks(t, max_chars).len() ==> {
                &&& (#[trigger] char_chunks(t, max_chars)[i]).len() <= max_chars
                &&& t.len() > 0 ==> char_chunks(t, max_chars)[i].len() > 0
            },
    decreases t.len(),
{
    if t.len() > max_chars {
        let w = t.take(max_chars as int);
        let e = window_cut(w, max_chars);
        window_cut_bounds(w, max_chars);
        char_chunks_fit(t.skip(e), max_chars);
        let tail = char_chunks(t.skip(e), max_chars);
        assert forall|i: int| 0 <= i < char_chunks(t, max_chars).len() implies {
            &&& (#[trigger] char_chunks(t, max_chars)[i]).len() <= max_chars
            &&& t.len() > 0 ==> char_chunks(t, max_chars)[i].len() > 0
        } by {
            if i > 0 {
                assert(char_chunks(t, max_chars)[i] == tail[i - 1]);
            }
        }
    }
}

fn last_sentence_break_end(window: &Vec<char>) -> (r: usize)
    ensures
        r == sentence_end(window@),
        r <= window@.len(),
{
    let mut j: usize = window.len();
    assert(window@.take(j as int) == window@);
    while j > 0
        invariant
            j <= window@.len(),
            sentence_end(window@) == sentence_end(window@.take(j as int)),
        decreases j,
    {
        if is_sentence_end(window[j - 1]) {
            return j;
        }
        assert(window@.take(j as int).drop_last() == window@.take(j - 1));
        j = j - 1;
    }
    0
}

fn find_split_end(window: &Vec<char>, max_chars: usize) -> (r: usize)
    requires
        window@.len() > 0,
    ensures
        r == window_cut(window@, max_chars as nat),
        0 < r <= window@.len(),
{
    proof {
        window_cut_bounds(window@, max_chars as nat);
    }
    let mut nl: Vec<char> = Vec::new();
    nl.push('\n');
    assert(nl@ == seq!['\n']);
    let mut blank: Vec<char> = Vec::new();
    blank.push('\n');
    blank.push('\n');
    assert(blank@ == seq!['\n', '\n']);
    let mut space: Vec<char> = Vec::new();
    space.push(' ');
    assert(space@ == seq![' ']);
    let len: usize = window.len();
    if let Some(pos) = rfind_in(window, &blank) {
        return pos + 2;
    }
    if let Some(pos) = rfind_in(window, &nl) {
        return pos + 1;
    }
    let a: usize = if max_chars >= 150 {
        max_chars - 150
    } else {
        0
    };
    let b: usize = max_chars / 3 * 2 + max_chars % 3 * 2 / 3;
    let min_chars: usize = if a >= b {
        a
    } else {
        b
    };
    assert(min_chars == near_limit(max_chars as nat));
    let end: usize = last_sentence_break_end(window);
    if end > 0 && end >= min_chars {
        return end;
    }
    if let Some(pos) = rfind_in(window, &space) {
        if pos + 1 >= min_chars {
            return pos + 1;
        }
    }
    len
}

/// Splits `text` into chunks of at most `max_chars` characters, at logical boundaries near the
/// limit. A limit of 0 is no limit.
pub fn split_text_chars(text: &str, max_chars: usize) -> (r: Vec<String>)
    ensures
        texts(r@) == char_chunks(text@, max_chars as nat),
{
    let v: Vec<char> = chars_of(text);
    let mut r: Vec<String> = Vec::new();
    let mut i: usize = 0;
    assert(v@.skip(0) == v@);
    assert(texts(r@) == Seq::<Seq<char>>::empty());
    loop
        invariant
            i <= v@.len(),
            char_chunks(text@, max_chars as nat) == texts(r@) + char_chunks(
                v@.skip(i as int),
                max_chars as nat,
            ),
        decreases v@.len() - i,
    {
        let ghost rest = v@.skip(i as int);
        let ghost before = r@;
        if max_chars == 0 || v.len() - i <= max_chars {
            let w: String = slice_string(&v, i, v.len());
            r.push(w);
            proof {
                texts_push(before, w);
                assert(rest == v@.subrange(i as int, v@.len() as int));
                assert(texts(before) + seq![rest] == texts(before).push(w@));
            }
            return r;
        }
        let mut window: Vec<char> = Vec::new();
        let mut k: usize = 0;
        while k < max_chars
            invariant
                k <= max_chars,
                i + max_chars < v@.len(),
                v@.len() <= usize::MAX,
                window@ == v@.subrange(i as int, i + k),
            decreases max_chars - k,
        {
            window.push(v[i + k]);
            k = k + 1;
        }
        assert(window@ == rest.take(max_chars as int));
        let n: usize = find_split_end(&window, max_chars);
        let end: usize = i + n;
        let w: String = slice_string(&v, i, end);
        r.push(w);
        proof {
            texts_push(before, w);
            assert(rest.take(n as int) == v@.subrange(i as int, end as int));
            assert(rest.skip(n as int) == v@.skip(end as int));
            assert(texts(before) + (seq![rest.take(n as int)] + char_chunks(
                rest.skip(n as int),
                max_chars as nat,
            )) == texts(before).push(w@) + char_chunks(v@.skip(end as int), max_chars as nat));
        }
        i = end;
    }
}

// ---------------------------------------------------------------------------------------------
// Previews
// ---------------------------------------------------------------------------------------------

/// A text for a log: whole where it has at most `max` characters, otherwise as much of its start
/// as fits into `max` bytes, with an ellipsis.
pub open spec fn preview_of(s: Seq<char>, max: nat) -> Seq<char> {
    if s.len() <= max {
        s
    } else {
        s.take(fitting(s, max as int)) + "…"@
    }
}

/// A text for a log.
pub fn preview(s: &str, max: usize) -> (r: String)
    ensures
        r@ == preview_of(s@, max as nat),
{
    let v: Vec<char> = chars_of(s);
    if v.len() <= max {
        return s.to_owned();
    }
    let cut: (usize, usize) = fitting_end(&v, 0, max);
    assert(v@.skip(0) == v@);
    let mut r: String = slice_string(&v, 0, cut.0);
    assert(v@.subrange(0, cut.0 as int) == v@.take(cut.0 as int));
    r.append("…");
    r
}

/// Apart from the ellipsis, a preview has at most `max` characters and begins the text.
pub proof fn previews_are_short(s: Seq<char>, max: nat)
    ensures
        preview_of(s, max).len() <= max + "…"@.len(),
        exists|n: int|
            0 <= n <= s.len() && n <= max && (preview_of(s, max) == #[trigger] s.take(n)
                || preview_of(s, max) == s.take(n) + "…"@),
{
    fitting_is_longest(s, max as int);
    if s.len() <= max {
        assert(s.take(s.len() as int) == s);
    } else {
        let n = fitting(s, max as int);
        byte_len_bounds(s.take(n));
        assert(preview_of(s, max) == s.take(n) + "…"@);
    }
}

} // verus!
