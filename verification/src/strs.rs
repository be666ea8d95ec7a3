//! Characters and strings: the vocabulary in which the rest of the library is stated.
//!
//! A text is the sequence of its characters. Positions count characters, not bytes; where a
//! limit is given in bytes, `byte_len` says how many bytes the UTF-8 form of a text takes.

use vstd::prelude::*;
use vstd::utf8::*;

verus! {

/// `String::push` appends one character.
pub assume_specification[ String::push ](s: &mut String, c: char)
    ensures
        final(s)@ == old(s)@.push(c),
;

/// `str::eq` compares the two texts character by character.
pub assume_specification[ <str as PartialEq<str>>::eq ](a: &str, b: &str) -> (r: bool)
    ensures
        r == (a@ == b@),
;

// ---------------------------------------------------------------------------------------------
// Characters
// ---------------------------------------------------------------------------------------------

/// The Unicode property `White_Space`.
pub open spec fn is_ws(c: char) -> bool {
    ||| 0x9 <= c as u32 <= 0xd
    ||| c as u32 == 0x20
    ||| c as u32 == 0x85
    ||| c as u32 == 0xa0
    ||| c as u32 == 0x1680
    ||| 0x2000 <= c as u32 <= 0x200a
    ||| c as u32 == 0x2028
    ||| c as u32 == 0x2029
    ||| c as u32 == 0x202f
    ||| c as u32 == 0x205f
    ||| c as u32 == 0x3000
}

/// Whether `c` is white space.
pub fn is_whitespace(c: char) -> (r: bool)
    ensures
        r == is_ws(c),
{
    let n: u32 = c as u32;
    (0x9 <= n && n <= 0xd) || n == 0x20 || n == 0x85 || n == 0xa0 || n == 0x1680 || (0x2000 <= n
        && n <= 0x200a) || n == 0x2028 || n == 0x2029 || n == 0x202f || n == 0x205f || n == 0x3000
}

/// An ASCII letter or digit.
pub open spec fn is_alnum(c: char) -> bool {
    ('a' <= c <= 'z') || ('A' <= c <= 'Z') || ('0' <= c <= '9')
}

/// Whether `c` is an ASCII letter or digit.
pub fn is_ascii_alnum(c: char) -> (r: bool)
    ensures
        r == is_alnum(c),
{
    ('a' <= c && c <= 'z') || ('A' <= c && c <= 'Z') || ('0' <= c && c <= '9')
}

/// How many bytes the UTF-8 form of `c` takes.
pub open spec fn utf8_len(c: char) -> nat {
    if c as u32 <= 0x7f {
        1
    } else if c as u32 <= 0x7ff {
        2
    } else if c as u32 <= 0xffff {
        3
    } else {
        4
    }
}

/// How many bytes the UTF-8 form of `c` takes.
pub fn char_len(c: char) -> (r: usize)
    ensures
        r == utf8_len(c),
        1 <= r <= 4,
{
    let n: u32 = c as u32;
    if n <= 0x7f {
        1
    } else if n <= 0x7ff {
        2
    } else if n <= 0xffff {
        3
    } else {
        4
    }
}

/// How many bytes the UTF-8 form of `s` takes.
pub open spec fn byte_len(s: Seq<char>) -> nat
    decreases s.len(),
{
    if s.len() == 0 {
        0
    } else {
        utf8_len(s[0]) + byte_len(s.drop_first())
    }
}

/// `byte_len` is the length of the UTF-8 encoding.
pub proof fn byte_len_is_encoded_length(s: Seq<char>)
    ensures
        byte_len(s) == encode_utf8(s).len(),
    decreases s.len(),
{
    if s.len() > 0 {
        byte_len_is_encoded_length(s.drop_first());
        char_is_scalar(s[0]);
        assert(encode_scalar(s[0] as u32).len() == utf8_len(s[0]));
        assert(encode_utf8(s) == encode_scalar(s[0] as u32) + encode_utf8(s.drop_first()));
    }
}

/// Byte lengths add up.
pub proof fn byte_len_add(a: Seq<char>, b: Seq<char>)
    ensures
        byte_len(a + b) == byte_len(a) + byte_len(b),
    decreases a.len(),
{
    if a.len() == 0 {
        assert(a + b == b);
    } else {
        byte_len_add(a.drop_first(), b);
        assert((a + b).drop_first() == a.drop_first() + b);
    }
}

/// Appending one character adds its bytes.
pub proof fn byte_len_push(a: Seq<char>, c: char)
    ensures
        byte_len(a.push(c)) == byte_len(a) + utf8_len(c),
{
    byte_len_add(a, seq![c]);
    assert(a.push(c) == a + seq![c]);
    assert(seq![c].drop_first() == Seq::<char>::empty());
    reveal_with_fuel(byte_len, 2);
}

/// A text takes at least one byte and at most four bytes per character.
pub proof fn byte_len_bounds(s: Seq<char>)
    ensures
        s.len() <= byte_len(s) <= 4 * s.len(),
    decreases s.len(),
{
    if s.len() > 0 {
        byte_len_bounds(s.drop_first());
    }
}

/// A longer prefix takes more bytes.
pub proof fn byte_len_take_mono(s: Seq<char>, i: int, j: int)
    requires
        0 <= i <= j <= s.len(),
    ensures
        byte_len(s.take(i)) <= byte_len(s.take(j)),
        i < j ==> byte_len(s.take(i)) < byte_len(s.take(j)),
{
    assert(s.take(j) == s.take(i) + s.subrange(i, j));
    byte_len_add(s.take(i), s.subrange(i, j));
    byte_len_bounds(s.subrange(i, j));
}

/// The byte length of `s` where it is at most `limit`, otherwise `None`.
pub fn byte_len_within(s: &Vec<char>, limit: usize) -> (r: Option<usize>)
    ensures
        match r {
            Some(n) => n == byte_len(s@) && n <= limit,
            None => byte_len(s@) > limit,
        },
{
    let mut n: usize = 0;
    let mut i: usize = 0;
    while i < s.len()
        invariant
            i <= s@.len(),
            n == byte_len(s@.take(i as int)),
            n <= limit,
        decreases s@.len() - i,
    {
        let l: usize = char_len(s[i]);
        proof {
            assert(s@.take(i + 1) == s@.take(i as int).push(s@[i as int]));
            byte_len_push(s@.take(i as int), s@[i as int]);
            byte_len_take_mono(s@, i + 1, s@.len() as int);
            assert(s@.take(s@.len() as int) == s@);
        }
        if l > limit - n {
            return None;
        }
        n = n + l;
        i = i + 1;
    }
    assert(s@.take(s@.len() as int) == s@);
    Some(n)
}

/// `c`, or the small letter where it is an ASCII capital.
pub open spec fn small(c: char) -> char {
    if 'A' <= c <= 'Z' {
        (c as u32 + 32) as char
    } else {
        c
    }
}

/// `s` with small letters in place of the ASCII capitals.
pub open spec fn ascii_lowered(s: Seq<char>) -> Seq<char> {
    s.map_values(|c: char| small(c))
}

fn small_char(c: char) -> (r: char)
    ensures
        r == small(c),
{
    if 'A' <= c && c <= 'Z' {
        ((c as u32 as u8) + 32) as char
    } else {
        c
    }
}

/// `s` with small letters in place of the ASCII capitals.
pub fn to_ascii_lowercase(s: &str) -> (r: String)
    ensures
        r@ == ascii_lowered(s@),
{
    let v: Vec<char> = chars_of(s);
    let mut r: String = String::new();
    let mut i: usize = 0;
    while i < v.len()
        invariant
            i <= v@.len(),
            r@ == ascii_lowered(v@.take(i as int)),
        decreases v@.len() - i,
    {
        r.push(small_char(v[i]));
        assert(r@ == ascii_lowered(v@.take(i + 1)));
        i = i + 1;
    }
    assert(v@.take(v@.len() as int) == v@);
    r
}

/// What `str::to_lowercase` makes of a text.
pub uninterp spec fn lowered(s: Seq<char>) -> Seq<char>;

/// `str::to_lowercase`: the lower-case equivalent of a text by the rules of Unicode. Of a text of
/// ASCII characters, that is the text with small letters in place of the capitals.
#[verifier::external_body]
pub(crate) fn to_lowercase(s: &str) -> (r: String)
    ensures
        r@ == lowered(s@),
        is_ascii_chars(s@) ==> r@ == ascii_lowered(s@),
{
    s.to_lowercase()
}

// ---------------------------------------------------------------------------------------------
// Conversions
// ---------------------------------------------------------------------------------------------

/// The characters of `s`.
pub fn chars_of(s: &str) -> (r: Vec<char>)
    ensures
        r@ == s@,
{
    let mut r: Vec<char> = Vec::new();
    for c in it: s.chars()
        invariant
            r@ == s@.take(it.index()),
            it.seq() == s@,
    {
        r.push(c);
    }
    r
}

/// The characters `v[from..to]` as a string.
pub fn slice_string(v: &Vec<char>, from: usize, to: usize) -> (r: String)
    requires
        from <= to <= v@.len(),
    ensures
        r@ == v@.subrange(from as int, to as int),
{
    let mut r: String = String::new();
    let mut i: usize = from;
    while i < to
        invariant
            from <= i <= to <= v@.len(),
            r@ == v@.subrange(from as int, i as int),
        decreases to - i,
    {
        r.push(v[i]);
        i = i + 1;
    }
    r
}

/// All characters of `v` as a string.
pub fn string_of(v: &Vec<char>) -> (r: String)
    ensures
        r@ == v@,
{
    let r: String = slice_string(v, 0, v.len());
    assert(v@.subrange(0, v@.len() as int) == v@);
    r
}

/// Whether the two texts are the same.
pub fn same(a: &str, b: &str) -> (r: bool)
    ensures
        r == (a@ == b@),
{
    a.eq(b)
}

/// `a` followed by `b`.
pub fn concat2(a: &str, b: &str) -> (r: String)
    ensures
        r@ == a@ + b@,
{
    let mut r: String = a.to_owned();
    r.append(b);
    r
}

/// `a` followed by `b` and `c`.
pub fn concat3(a: &str, b: &str, c: &str) -> (r: String)
    ensures
        r@ == a@ + b@ + c@,
{
    let mut r: String = a.to_owned();
    r.append(b);
    r.append(c);
    r
}

/// The first `n` characters of `s`, or all of them where there are fewer.
pub open spec fn first_chars(s: Seq<char>, n: nat) -> Seq<char> {
    if s.len() <= n {
        s
    } else {
        s.take(n as int)
    }
}

/// The first `n` characters of `s`, or all of them where there are fewer.
pub fn take_chars<'a>(s: &'a str, n: usize) -> (r: &'a str)
    ensures
        r@ == first_chars(s@, n as nat),
{
    let len: usize = s.unicode_len();
    if len <= n {
        s
    } else {
        s.substring_char(0, n)
    }
}

// ---------------------------------------------------------------------------------------------
// Trimming
// ---------------------------------------------------------------------------------------------

/// `s` without the white space at its start.
pub open spec fn trimmed_start(s: Seq<char>) -> Seq<char>
    decreases s.len(),
{
    if s.len() > 0 && is_ws(s[0]) {
        trimmed_start(s.drop_first())
    } else {
        s
    }
}

/// `s` without the white space at its end.
pub open spec fn trimmed_end(s: Seq<char>) -> Seq<char>
    decreases s.len(),
{
    if s.len() > 0 && is_ws(s.last()) {
        trimmed_end(s.drop_last())
    } else {
        s
    }
}

/// `s` without the white space at its start and at its end.
pub open spec fn trimmed(s: Seq<char>) -> Seq<char> {
    trimmed_end(trimmed_start(s))
}

/// A trimmed text neither starts nor ends with white space, and is a stretch of `s` around
/// which there is only white space.
pub proof fn trimmed_is_tight(s: Seq<char>)
    ensures
        trimmed(s).len() > 0 ==> !is_ws(trimmed(s)[0]) && !is_ws(trimmed(s).last()),
        exists|i: int, j: int|
            0 <= i <= j <= s.len() && trimmed(s) == #[trigger] s.subrange(i, j) && (forall|k: int|
                (0 <= k < i || j <= k < s.len()) ==> is_ws(#[trigger] s[k])),
{
    let i = trimmed_start_cut(s);
    let t = s.skip(i);
    let j = trimmed_end_cut(t);
    assert(t.take(j) == s.subrange(i, i + j));
    assert forall|k: int| (0 <= k < i || i + j <= k < s.len()) implies is_ws(#[trigger] s[k]) by {
        if k >= i + j {
            assert(t[k - i] == s[k]);
        }
    }
    if trimmed(s).len() > 0 {
        assert(t.take(j)[0] == t[0]);
    }
}

proof fn trimmed_start_cut(s: Seq<char>) -> (i: int)
    ensures
        0 <= i <= s.len(),
        trimmed_start(s) == s.skip(i),
        forall|k: int| 0 <= k < i ==> is_ws(#[trigger] s[k]),
        i < s.len() ==> !is_ws(s[i]),
    decreases s.len(),
{
    if s.len() > 0 && is_ws(s[0]) {
        let i = trimmed_start_cut(s.drop_first());
        assert(s.drop_first().skip(i) == s.skip(i + 1));
        assert forall|k: int| 0 <= k < i + 1 implies is_ws(#[trigger] s[k]) by {
            if k > 0 {
                assert(s.drop_first()[k - 1] == s[k]);
            }
        }
        i + 1
    } else {
        assert(s.skip(0) == s);
        0
    }
}

proof fn trimmed_end_cut(s: Seq<char>) -> (j: int)
    ensures
        0 <= j <= s.len(),
        trimmed_end(s) == s.take(j),
        forall|k: int| j <= k < s.len() ==> is_ws(#[trigger] s[k]),
        j > 0 ==> !is_ws(s[j - 1]),
    decreases s.len(),
{
    if s.len() > 0 && is_ws(s.last()) {
        let j = trimmed_end_cut(s.drop_last());
        assert(s.drop_last().take(j) == s.take(j));
        assert forall|k: int| j <= k < s.len() implies is_ws(#[trigger] s[k]) by {
            if k < s.len() - 1 {
                assert(s.drop_last()[k] == s[k]);
            }
        }
        j
    } else {
        assert(s.take(s.len() as int) == s);
        s.len() as int
    }
}

/// Trimming a trimmed text changes nothing.
pub proof fn trimmed_idempotent(s: Seq<char>)
    ensures
        trimmed(trimmed(s)) == trimmed(s),
{
    trimmed_is_tight(s);
}

/// `s` without the white space at its start.
pub fn trim_start<'a>(s: &'a str) -> (r: &'a str)
    ensures
        r@ == trimmed_start(s@),
{
    let v: Vec<char> = chars_of(s);
    let mut i: usize = 0;
    assert(v@.skip(0) == v@);
    while i < v.len() && is_whitespace(v[i])
        invariant
            i <= v@.len(),
            trimmed_start(v@) == trimmed_start(v@.skip(i as int)),
        decreases v@.len() - i,
    {
        assert(v@.skip(i as int).drop_first() == v@.skip(i + 1));
        i = i + 1;
    }
    assert(v@.skip(i as int) == v@.subrange(i as int, v@.len() as int));
    s.substring_char(i, v.len())
}

/// `s` without the white space at its end.
pub fn trim_end<'a>(s: &'a str) -> (r: &'a str)
    ensures
        r@ == trimmed_end(s@),
{
    let v: Vec<char> = chars_of(s);
    let mut j: usize = v.len();
    assert(v@.take(v@.len() as int) == v@);
    while j > 0 && is_whitespace(v[j - 1])
        invariant
            j <= v@.len(),
            trimmed_end(v@) == trimmed_end(v@.take(j as int)),
        decreases j,
    {
        assert(v@.take(j as int).drop_last() == v@.take(j - 1));
        j = j - 1;
    }
    assert(v@.take(j as int) == v@.subrange(0, j as int));
    s.substring_char(0, j)
}

/// `s` without the white space at its start and at its end.
pub fn trim<'a>(s: &'a str) -> (r: &'a str)
    ensures
        r@ == trimmed(s@),
{
    trim_end(trim_start(s))
}

/// `s` without the characters `c` at its start.
pub open spec fn stripped_start(s: Seq<char>, c: char) -> Seq<char>
    decreases s.len(),
{
    if s.len() > 0 && s[0] == c {
        stripped_start(s.drop_first(), c)
    } else {
        s
    }
}

/// `s` without the characters `c` at its end.
pub open spec fn stripped_end(s: Seq<char>, c: char) -> Seq<char>
    decreases s.len(),
{
    if s.len() > 0 && s.last() == c {
        stripped_end(s.drop_last(), c)
    } else {
        s
    }
}

/// `s` without the characters `c` at its start.
pub fn trim_start_char<'a>(s: &'a str, c: char) -> (r: &'a str)
    ensures
        r@ == stripped_start(s@, c),
{
    let v: Vec<char> = chars_of(s);
    let mut i: usize = 0;
    assert(v@.skip(0) == v@);
    while i < v.len() && v[i] == c
        invariant
            i <= v@.len(),
            stripped_start(v@, c) == stripped_start(v@.skip(i as int), c),
        decreases v@.len() - i,
    {
        assert(v@.skip(i as int).drop_first() == v@.skip(i + 1));
        i = i + 1;
    }
    assert(v@.skip(i as int) == v@.subrange(i as int, v@.len() as int));
    s.substring_char(i, v.len())
}

/// `s` without the characters `c` at its end.
pub fn trim_end_char<'a>(s: &'a str, c: char) -> (r: &'a str)
    ensures
        r@ == stripped_end(s@, c),
{
    let v: Vec<char> = chars_of(s);
    let mut j: usize = v.len();
    assert(v@.take(v@.len() as int) == v@);
    while j > 0 && v[j - 1] == c
        invariant
            j <= v@.len(),
            stripped_end(v@, c) == stripped_end(v@.take(j as int), c),
        decreases j,
    {
        assert(v@.take(j as int).drop_last() == v@.take(j - 1));
        j = j - 1;
    }
    assert(v@.take(j as int) == v@.subrange(0, j as int));
    s.substring_char(0, j)
}

// ---------------------------------------------------------------------------------------------
// Searching
// ---------------------------------------------------------------------------------------------

/// Whether `s` starts with `p`.
pub open spec fn begins(s: Seq<char>, p: Seq<char>) -> bool {
    p.len() <= s.len() && s.take(p.len() as int) == p
}

/// Whether `s` ends with `p`.
pub open spec fn finishes(s: Seq<char>, p: Seq<char>) -> bool {
    p.len() <= s.len() && s.skip(s.len() - p.len()) == p
}

/// Whether `p` stands in `s` at position `i`.
pub open spec fn occurs_at(s: Seq<char>, p: Seq<char>, i: int) -> bool {
    0 <= i && i + p.len() <= s.len() && s.subrange(i, i + p.len()) == p
}

/// The first position from `from` on at which `p` stands in `s`.
pub open spec fn first_at_from(s: Seq<char>, p: Seq<char>, from: int) -> Option<int>
    decreases s.len() - from + 1,
{
    if from < 0 || from + p.len() > s.len() {
        None
    } else if occurs_at(s, p, from) {
        Some(from)
    } else {
        first_at_from(s, p, from + 1)
    }
}

/// The first position at which `p` stands in `s`.
pub open spec fn first_at(s: Seq<char>, p: Seq<char>) -> Option<int> {
    first_at_from(s, p, 0)
}

/// The last position, at most `to`, at which `p` stands in `s`.
pub open spec fn last_at_to(s: Seq<char>, p: Seq<char>, to: int) -> Option<int>
    decreases to + 1,
{
    if to < 0 {
        None
    } else if occurs_at(s, p, to) {
        Some(to)
    } else {
        last_at_to(s, p, to - 1)
    }
}

/// The last position at which `p` stands in `s`.
pub open spec fn last_at(s: Seq<char>, p: Seq<char>) -> Option<int> {
    last_at_to(s, p, s.len() - p.len())
}

/// Whether `p` stands somewhere in `s`.
pub open spec fn holds(s: Seq<char>, p: Seq<char>) -> bool {
    exists|i: int| occurs_at(s, p, i)
}

/// `first_at_from` is the least occurrence.
pub proof fn first_at_from_is_first(s: Seq<char>, p: Seq<char>, from: int)
    requires
        from >= 0,
    ensures
        match first_at_from(s, p, from) {
            Some(i) => from <= i && occurs_at(s, p, i) && forall|k: int|
                from <= k < i ==> !occurs_at(s, p, k),
            None => forall|k: int| from <= k ==> !occurs_at(s, p, k),
        },
    decreases s.len() - from + 1,
{
    if from + p.len() <= s.len() && !occurs_at(s, p, from) {
        first_at_from_is_first(s, p, from + 1);
    }
}

/// `last_at_to` is the greatest occurrence.
pub proof fn last_at_to_is_last(s: Seq<char>, p: Seq<char>, to: int)
    ensures
        match last_at_to(s, p, to) {
            Some(i) => i <= to && occurs_at(s, p, i) && forall|k: int|
                i < k <= to ==> !occurs_at(s, p, k),
            None => forall|k: int| k <= to ==> !occurs_at(s, p, k),
        },
    decreases to + 1,
{
    if to >= 0 && !occurs_at(s, p, to) {
        last_at_to_is_last(s, p, to - 1);
    }
}

/// A text holds another exactly where searching finds it.
pub proof fn holds_iff_found(s: Seq<char>, p: Seq<char>)
    ensures
        holds(s, p) <==> first_at(s, p) is Some,
{
    first_at_from_is_first(s, p, 0);
}

/// Whether `p` stands in `v` at position `i`.
pub fn matches_at(v: &Vec<char>, p: &Vec<char>, i: usize) -> (r: bool)
    requires
        i <= v@.len(),
    ensures
        r == occurs_at(v@, p@, i as int),
{
    if p.len() > v.len() - i {
        return false;
    }
    let n: usize = v.len();
    let mut k: usize = 0;
    while k < p.len()
        invariant
            n == v@.len(),
            i + p@.len() <= v@.len(),
            k <= p@.len(),
            forall|m: int| 0 <= m < k ==> v@[i + m] == p@[m],
        decreases p@.len() - k,
    {
        if v[i + k] != p[k] {
            assert(v@.subrange(i as int, i + p@.len())[k as int] != p@[k as int]);
            return false;
        }
        k = k + 1;
    }
    assert(v@.subrange(i as int, i + p@.len()) == p@);
    true
}

/// The first position from `from` on at which `p` stands in `v`.
pub fn find_from(v: &Vec<char>, p: &Vec<char>, from: usize) -> (r: Option<usize>)
    requires
        from <= v@.len(),
    ensures
        match r {
            Some(i) => first_at_from(v@, p@, from as int) == Some(i as int) && from <= i && i
                + p@.len() <= v@.len(),
            None => first_at_from(v@, p@, from as int) is None,
        },
{
    let mut i: usize = from;
    while i < v.len()
        invariant
            from <= i <= v@.len(),
            first_at_from(v@, p@, from as int) == first_at_from(v@, p@, i as int),
        decreases v@.len() - i,
    {
        if matches_at(v, p, i) {
            return Some(i);
        }
        if p.len() > v.len() - i {
            return None;
        }
        i = i + 1;
    }
    if matches_at(v, p, i) {
        Some(i)
    } else {
        assert(p@.len() == 0 ==> v@.subrange(i as int, i as int) == p@);
        None
    }
}

/// The position, in characters, at which `p` first stands in `s`.
pub fn find(s: &str, p: &str) -> (r: Option<usize>)
    ensures
        match r {
            Some(i) => first_at(s@, p@) == Some(i as int) && i + p@.len() <= s@.len(),
            None => first_at(s@, p@) is None,
        },
{
    let v: Vec<char> = chars_of(s);
    let q: Vec<char> = chars_of(p);
    find_from(&v, &q, 0)
}

/// The last position at which `p` stands in `v`.
pub fn rfind_in(v: &Vec<char>, p: &Vec<char>) -> (r: Option<usize>)
    ensures
        match r {
            Some(i) => last_at(v@, p@) == Some(i as int) && i + p@.len() <= v@.len(),
            None => last_at(v@, p@) is None,
        },
{
    if p.len() > v.len() {
        return None;
    }
    let mut i: usize = v.len() - p.len();
    loop
        invariant
            i + p@.len() <= v@.len(),
            last_at(v@, p@) == last_at_to(v@, p@, i as int),
        decreases i,
    {
        if matches_at(v, p, i) {
            return Some(i);
        }
        if i == 0 {
            assert(last_at_to(v@, p@, -1) is None);
            return None;
        }
        i = i - 1;
    }
}

/// The position, in characters, at which `p` last stands in `s`.
pub fn rfind(s: &str, p: &str) -> (r: Option<usize>)
    ensures
        match r {
            Some(i) => last_at(s@, p@) == Some(i as int) && i + p@.len() <= s@.len(),
            None => last_at(s@, p@) is None,
        },
{
    let v: Vec<char> = chars_of(s);
    let q: Vec<char> = chars_of(p);
    rfind_in(&v, &q)
}

/// Whether `p` stands somewhere in `s`.
pub fn contains(s: &str, p: &str) -> (r: bool)
    ensures
        r == holds(s@, p@),
{
    proof {
        holds_iff_found(s@, p@);
    }
    find(s, p).is_some()
}

/// Whether `s` starts with `p`.
pub fn starts_with(s: &str, p: &str) -> (r: bool)
    ensures
        r == begins(s@, p@),
{
    let v: Vec<char> = chars_of(s);
    let q: Vec<char> = chars_of(p);
    assert(q@.len() <= v@.len() ==> v@.subrange(0, q@.len() as int) == v@.take(q@.len() as int));
    matches_at(&v, &q, 0)
}

/// Whether `s` ends with `p`.
pub fn ends_with(s: &str, p: &str) -> (r: bool)
    ensures
        r == finishes(s@, p@),
{
    let v: Vec<char> = chars_of(s);
    let q: Vec<char> = chars_of(p);
    if q.len() > v.len() {
        return false;
    }
    let i: usize = v.len() - q.len();
    assert(v@.subrange(i as int, i + q@.len()) == v@.skip(i as int));
    matches_at(&v, &q, i)
}

/// What follows `p` in `s`, where `s` starts with `p`.
pub open spec fn after_prefix(s: Seq<char>, p: Seq<char>) -> Option<Seq<char>> {
    if begins(s, p) {
        Some(s.skip(p.len() as int))
    } else {
        None
    }
}

/// What follows `p` in `s`, where `s` starts with `p`.
pub fn strip_prefix<'a>(s: &'a str, p: &str) -> (r: Option<&'a str>)
    ensures
        match r {
            Some(t) => after_prefix(s@, p@) == Some(t@),
            None => after_prefix(s@, p@) is None,
        },
{
    if starts_with(s, p) {
        let n: usize = p.unicode_len();
        let m: usize = s.unicode_len();
        assert(s@.skip(n as int) == s@.subrange(n as int, m as int));
        Some(s.substring_char(n, m))
    } else {
        None
    }
}

// ---------------------------------------------------------------------------------------------
// Splitting
// ---------------------------------------------------------------------------------------------

/// What stands before and after the first `p` in `s`.
pub open spec fn split_at_first(s: Seq<char>, p: Seq<char>) -> Option<(Seq<char>, Seq<char>)> {
    match first_at(s, p) {
        Some(i) => Some((s.take(i), s.skip(i + p.len()))),
        None => None,
    }
}

/// What stands before and after the first `p` in `s`.
pub fn split_once<'a>(s: &'a str, p: &str) -> (r: Option<(&'a str, &'a str)>)
    ensures
        match r {
            Some((a, b)) => split_at_first(s@, p@) == Some((a@, b@)),
            None => split_at_first(s@, p@) is None,
        },
{
    match find(s, p) {
        Some(i) => {
            let n: usize = p.unicode_len();
            let m: usize = s.unicode_len();
            assert(s@.take(i as int) == s@.subrange(0, i as int));
            assert(s@.skip(i + n) == s@.subrange(i + n, m as int));
            Some((s.substring_char(0, i), s.substring_char(i + n, m)))
        },
        None => None,
    }
}

/// The position of the first white space in `s` from `from` on, or the length of `s`.
pub open spec fn ws_from(s: Seq<char>, from: int) -> int
    decreases s.len() - from,
{
    if from < 0 || from >= s.len() {
        s.len() as int
    } else if is_ws(s[from]) {
        from
    } else {
        ws_from(s, from + 1)
    }
}

/// What stands before and after the first white space in `s`.
pub open spec fn split_at_ws(s: Seq<char>) -> Option<(Seq<char>, Seq<char>)> {
    let i = ws_from(s, 0);
    if i < s.len() {
        Some((s.take(i), s.skip(i + 1)))
    } else {
        None
    }
}

/// The position of the first white space in `v` from `from` on, or the length of `v`.
pub fn find_ws(v: &Vec<char>, from: usize) -> (r: usize)
    requires
        from <= v@.len(),
    ensures
        r == ws_from(v@, from as int),
        from <= r <= v@.len(),
        r < v@.len() ==> is_ws(v@[r as int]),
        forall|k: int| from <= k < r ==> !is_ws(#[trigger] v@[k]),
{
    let mut i: usize = from;
    while i < v.len()
        invariant
            from <= i <= v@.len(),
            ws_from(v@, from as int) == ws_from(v@, i as int),
            forall|k: int| from <= k < i ==> !is_ws(#[trigger] v@[k]),
        decreases v@.len() - i,
    {
        if is_whitespace(v[i]) {
            return i;
        }
        i = i + 1;
    }
    i
}

/// What stands before and after the first white space in `s`.
pub fn split_once_ws<'a>(s: &'a str) -> (r: Option<(&'a str, &'a str)>)
    ensures
        match r {
            Some((a, b)) => split_at_ws(s@) == Some((a@, b@)),
            None => split_at_ws(s@) is None,
        },
{
    let v: Vec<char> = chars_of(s);
    let i: usize = find_ws(&v, 0);
    if i < v.len() {
        assert(s@.take(i as int) == s@.subrange(0, i as int));
        assert(s@.skip(i + 1) == s@.subrange(i + 1, s@.len() as int));
        Some((s.substring_char(0, i), s.substring_char(i + 1, v.len())))
    } else {
        None
    }
}

/// The stretches of `s` between white space, in order, none of them empty.
pub open spec fn words_of(s: Seq<char>) -> Seq<Seq<char>>
    decreases s.len(),
{
    if s.len() == 0 {
        Seq::empty()
    } else if is_ws(s[0]) {
        words_of(s.drop_first())
    } else {
        let i = ws_from(s, 0);
        if 0 < i <= s.len() {
            seq![s.take(i)] + words_of(s.skip(i))
        } else {
            Seq::empty()
        }
    }
}

/// The contents of a list of strings.
pub open spec fn texts(v: Seq<String>) -> Seq<Seq<char>> {
    v.map_values(|x: String| x@)
}

/// The contents of a list with one more string.
pub broadcast proof fn texts_push(v: Seq<String>, x: String)
    ensures
        #[trigger] texts(v.push(x)) == texts(v).push(x@),
{
    assert(texts(v.push(x)) =~= texts(v).push(x@));
}

proof fn ws_from_shift(s: Seq<char>, k: int, from: int)
    requires
        0 <= k <= from <= s.len(),
    ensures
        ws_from(s.skip(k), from - k) == ws_from(s, from) - k,
    decreases s.len() - from,
{
    if from < s.len() && !is_ws(s[from]) {
        assert(s.skip(k)[from - k] == s[from]);
        ws_from_shift(s, k, from + 1);
    } else if from < s.len() {
        assert(s.skip(k)[from - k] == s[from]);
    }
}

/// The stretches of `s` between white space.
pub fn split_whitespace(s: &str) -> (r: Vec<String>)
    ensures
        texts(r@) == words_of(s@),
{
    let v: Vec<char> = chars_of(s);
    let mut r: Vec<String> = Vec::new();
    let mut i: usize = 0;
    assert(v@.skip(0) == v@);
    assert(texts(r@) == Seq::<Seq<char>>::empty());
    while i < v.len()
        invariant
            i <= v@.len(),
            v@ == s@,
            words_of(s@) == texts(r@) + words_of(v@.skip(i as int)),
        decreases v@.len() - i,
    {
        let ghost rest = v@.skip(i as int);
        if is_whitespace(v[i]) {
            assert(rest.drop_first() == v@.skip(i + 1));
            i = i + 1;
        } else {
            let j: usize = find_ws(&v, i);
            proof {
                ws_from_shift(v@, i as int, i as int);
                assert(rest.take(j - i) == v@.subrange(i as int, j as int));
                assert(rest.skip(j - i) == v@.skip(j as int));
            }
            let w: String = slice_string(&v, i, j);
            let ghost before = r@;
            r.push(w);
            proof {
                texts_push(before, w);
                assert(texts(before) + (seq![rest.take(j - i)] + words_of(rest.skip(j - i)))
                    == texts(before).push(w@) + words_of(v@.skip(j as int)));
            }
            i = j;
        }
    }
    assert(texts(r@) + words_of(v@.skip(i as int)) == texts(r@));
    r
}

/// The pieces of `s` between the characters `c`, in order: one more than there are `c`.
pub open spec fn pieces_of(s: Seq<char>, c: char) -> Seq<Seq<char>>
    decreases s.len(),
{
    match first_at(s, seq![c]) {
        Some(i) => if 0 <= i < s.len() {
            seq![s.take(i)] + pieces_of(s.skip(i + 1), c)
        } else {
            seq![s]
        },
        None => seq![s],
    }
}

/// Searching from a position on is searching what follows.
pub proof fn first_at_from_shift(s: Seq<char>, p: Seq<char>, k: int, from: int)
    requires
        0 <= k <= from,
        k <= s.len(),
    ensures
        first_at_from(s, p, from) == match first_at_from(s.skip(k), p, from - k) {
            Some(i) => Some(i + k),
            None => None::<int>,
        },
    decreases s.len() - from + 1,
{
    if from + p.len() <= s.len() {
        assert(s.skip(k).subrange(from - k, from - k + p.len()) == s.subrange(
            from,
            from + p.len(),
        ));
        if !occurs_at(s, p, from) {
            first_at_from_shift(s, p, k, from + 1);
        }
    }
}

/// The pieces of `s` between the characters `c`.
pub fn split_char(s: &str, c: char) -> (r: Vec<String>)
    ensures
        texts(r@) == pieces_of(s@, c),
{
    let v: Vec<char> = chars_of(s);
    let mut p: Vec<char> = Vec::new();
    p.push(c);
    assert(p@ == seq![c]);
    let mut r: Vec<String> = Vec::new();
    let mut i: usize = 0;
    let n: usize = v.len();
    assert(v@.skip(0) == v@);
    assert(texts(r@) == Seq::<Seq<char>>::empty());
    loop
        invariant
            n == v@.len(),
            i <= v@.len(),
            v@ == s@,
            p@ == seq![c],
            pieces_of(s@, c) == texts(r@) + pieces_of(v@.skip(i as int), c),
        decreases v@.len() - i,
    {
        let ghost rest = v@.skip(i as int);
        let ghost before = r@;
        proof {
            first_at_from_shift(v@, seq![c], i as int, i as int);
        }
        match find_from(&v, &p, i) {
            Some(j) => {
                let w: String = slice_string(&v, i, j);
                r.push(w);
                proof {
                    texts_push(before, w);
                    assert(rest.take(j - i) == v@.subrange(i as int, j as int));
                    assert(rest.skip(j - i + 1) == v@.skip(j + 1));
                    assert(texts(before) + (seq![rest.take(j - i)] + pieces_of(
                        rest.skip(j - i + 1),
                        c,
                    )) == texts(before).push(w@) + pieces_of(v@.skip(j + 1), c));
                }
                i = j + 1;
            },
            None => {
                let w: String = slice_string(&v, i, v.len());
                r.push(w);
                proof {
                    texts_push(before, w);
                    assert(rest == v@.subrange(i as int, v@.len() as int));
                    assert(texts(before) + seq![rest] == texts(before).push(w@));
                }
                return r;
            },
        }
    }
}

/// A line without the carriage return at its end.
pub open spec fn without_cr(s: Seq<char>) -> Seq<char> {
    if s.len() > 0 && s.last() == '\r' {
        s.drop_last()
    } else {
        s
    }
}

/// The lines of `s`: each ends with a line feed, which may follow a carriage return and is not
/// part of the line. The last line need not end with one.
pub open spec fn lines_of(s: Seq<char>) -> Seq<Seq<char>>
    decreases s.len(),
{
    if s.len() == 0 {
        Seq::empty()
    } else {
        match first_at(s, seq!['\n']) {
            Some(i) => if 0 <= i < s.len() {
                seq![without_cr(s.take(i))] + lines_of(s.skip(i + 1))
            } else {
                seq![s]
            },
            None => seq![s],
        }
    }
}

/// The lines of `s`.
pub fn lines(s: &str) -> (r: Vec<String>)
    ensures
        texts(r@) == lines_of(s@),
{
    let v: Vec<char> = chars_of(s);
    let mut p: Vec<char> = Vec::new();
    p.push('\n');
    assert(p@ == seq!['\n']);
    let mut r: Vec<String> = Vec::new();
    let mut i: usize = 0;
    assert(v@.skip(0) == v@);
    assert(texts(r@) == Seq::<Seq<char>>::empty());
    while i < v.len()
        invariant
            i <= v@.len(),
            v@ == s@,
            p@ == seq!['\n'],
            lines_of(s@) == texts(r@) + lines_of(v@.skip(i as int)),
        decreases v@.len() - i,
    {
        let ghost rest = v@.skip(i as int);
        let ghost before = r@;
        proof {
            first_at_from_shift(v@, seq!['\n'], i as int, i as int);
        }
        match find_from(&v, &p, i) {
            Some(j) => {
                let end: usize = if j > i && v[j - 1] == '\r' {
                    j - 1
                } else {
                    j
                };
                let w: String = slice_string(&v, i, end);
                r.push(w);
                proof {
                    texts_push(before, w);
                    assert(rest.take(j - i) == v@.subrange(i as int, j as int));
                    assert(without_cr(rest.take(j - i)) == v@.subrange(i as int, end as int));
                    assert(rest.skip(j - i + 1) == v@.skip(j + 1));
                    assert(texts(before) + (seq![without_cr(rest.take(j - i))] + lines_of(
                        rest.skip(j - i + 1),
                    )) == texts(before).push(w@) + lines_of(v@.skip(j + 1)));
                }
                i = j + 1;
            },
            None => {
                let w: String = slice_string(&v, i, v.len());
                r.push(w);
                proof {
                    texts_push(before, w);
                    assert(rest == v@.subrange(i as int, v@.len() as int));
                    assert(texts(before) + seq![rest] == texts(before).push(w@));
                }
                return r;
            },
        }
    }
    assert(texts(r@) + lines_of(v@.skip(i as int)) == texts(r@));
    r
}

// ---------------------------------------------------------------------------------------------
// Joining
// ---------------------------------------------------------------------------------------------

/// The texts one after another, with `sep` between any two.
pub open spec fn joined(parts: Seq<Seq<char>>, sep: Seq<char>) -> Seq<char>
    decreases parts.len(),
{
    if parts.len() == 0 {
        Seq::empty()
    } else if parts.len() == 1 {
        parts[0]
    } else {
        joined(parts.drop_last(), sep) + sep + parts.last()
    }
}

/// The texts one after another, with `sep` between any two.
pub fn join(parts: &Vec<String>, sep: &str) -> (r: String)
    ensures
        r@ == joined(texts(parts@), sep@),
{
    let mut r: String = String::new();
    let mut i: usize = 0;
    assert(texts(parts@).take(0) == Seq::<Seq<char>>::empty());
    while i < parts.len()
        invariant
            i <= parts@.len(),
            r@ == joined(texts(parts@).take(i as int), sep@),
        decreases parts@.len() - i,
    {
        let ghost done = texts(parts@).take(i as int);
        let ghost next = texts(parts@).take(i + 1);
        proof {
            assert(next.drop_last() == done);
            assert(next.last() == parts@[i as int]@);
        }
        if i > 0 {
            r.append(sep);
        }
        r.append(parts[i].as_str());
        proof {
            if i == 0 {
                assert(next[0] == parts@[0]@);
                assert(r@ == parts@[0]@);
            }
        }
        i = i + 1;
    }
    assert(texts(parts@).take(parts@.len() as int) == texts(parts@));
    r
}

/// All texts one after another.
pub open spec fn chained(parts: Seq<Seq<char>>) -> Seq<char>
    decreases parts.len(),
{
    if parts.len() == 0 {
        Seq::empty()
    } else {
        chained(parts.drop_last()) + parts.last()
    }
}

/// Chaining one more text appends it.
pub proof fn chained_push(parts: Seq<Seq<char>>, x: Seq<char>)
    ensures
        chained(parts.push(x)) == chained(parts) + x,
{
    assert(parts.push(x).drop_last() == parts);
}

/// All texts one after another.
pub fn concat_all(parts: &Vec<String>) -> (r: String)
    ensures
        r@ == chained(texts(parts@)),
{
    let mut r: String = String::new();
    let mut i: usize = 0;
    let ghost all = texts(parts@);
    assert(all.take(0) == Seq::<Seq<char>>::empty());
    while i < parts.len()
        invariant
            i <= parts@.len(),
            all == texts(parts@),
            r@ == chained(all.take(i as int)),
        decreases parts@.len() - i,
    {
        proof {
            assert(all.take(i + 1).drop_last() == all.take(i as int));
            assert(all.take(i + 1).last() == parts@[i as int]@);
        }
        r.append(parts[i].as_str());
        i = i + 1;
    }
    assert(all.take(all.len() as int) == all);
    r
}

/// What `String::from_utf8_lossy` makes of bytes.
pub uninterp spec fn lossy_text(bytes: Seq<u8>) -> Seq<char>;

/// `String::from_utf8_lossy`: the text that the bytes encode, where they are valid UTF-8, and
/// otherwise that text with replacement characters for what is not.
#[verifier::external_body]
pub(crate) fn from_utf8_lossy(bytes: &[u8]) -> (r: String)
    ensures
        r@ == lossy_text(bytes@),
        valid_utf8(bytes@) ==> r@ == decode_utf8(bytes@),
{
    String::from_utf8_lossy(bytes).into_owned()
}

// ---------------------------------------------------------------------------------------------
// Numbers
// ---------------------------------------------------------------------------------------------

/// The decimal digit `d`.
pub open spec fn digit(d: nat) -> char {
    (48 + d) as char
}

/// The decimal form of `n`.
pub open spec fn decimal(n: nat) -> Seq<char>
    decreases n,
{
    if n < 10 {
        seq![digit(n)]
    } else {
        decimal(n / 10).push(digit(n % 10))
    }
}

/// The decimal form of `n`, with a minus sign where it is negative.
pub open spec fn signed_decimal(n: int) -> Seq<char> {
    if n < 0 {
        seq!['-'] + decimal((-n) as nat)
    } else {
        decimal(n as nat)
    }
}

fn digit_char(d: u64) -> (r: char)
    requires
        d < 10,
    ensures
        r == digit(d as nat),
{
    (48 + d as u8) as char
}

/// The decimal form of `n`.
pub fn u64_string(n: u64) -> (r: String)
    ensures
        r@ == decimal(n as nat),
    decreases n,
{
    if n < 10 {
        let mut r: String = String::new();
        r.push(digit_char(n));
        r
    } else {
        let mut r: String = u64_string(n / 10);
        r.push(digit_char(n % 10));
        r
    }
}

/// The decimal form of `n`.
pub fn i64_string(n: i64) -> (r: String)
    ensures
        r@ == signed_decimal(n as int),
{
    if n < 0 {
        let m: u64 = (-(n as i128)) as u64;
        let mut r: String = String::new();
        r.push('-');
        r.append(u64_string(m).as_str());
        assert(r@ == seq!['-'] + decimal(m as nat));
        r
    } else {
        u64_string(n as u64)
    }
}

/// Whether every character is a decimal digit.
pub open spec fn all_digits(s: Seq<char>) -> bool {
    forall|i: int| 0 <= i < s.len() ==> '0' <= #[trigger] s[i] <= '9'
}

/// The number that decimal digits stand for.
pub open spec fn digits_value(s: Seq<char>) -> nat
    decreases s.len(),
{
    if s.len() == 0 {
        0
    } else {
        (10 * digits_value(s.drop_last()) + (s.last() as int - 48)) as nat
    }
}

/// The number that a text stands for: decimal digits, with or without a plus sign, for a number
/// of at most `max`.
pub open spec fn number_in(s: Seq<char>, max: nat) -> Option<nat> {
    let d = if s.len() > 0 && s[0] == '+' {
        s.drop_first()
    } else {
        s
    };
    if d.len() > 0 && all_digits(d) && digits_value(d) <= max {
        Some(digits_value(d))
    } else {
        None
    }
}

proof fn digits_value_grows(s: Seq<char>, i: int)
    requires
        all_digits(s),
        0 <= i <= s.len(),
    ensures
        digits_value(s.take(i)) <= digits_value(s),
    decreases s.len() - i,
{
    if i < s.len() {
        digits_value_grows(s, i + 1);
        assert(s.take(i + 1).drop_last() == s.take(i));
        assert(s.take(i + 1).last() == s[i]);
        assert('0' <= s[i] <= '9');
    } else {
        assert(s.take(i) == s);
    }
}

/// The number of at most `max` that a text stands for.
pub fn parse_number(s: &str, max: u64) -> (r: Option<u64>)
    ensures
        match r {
            Some(n) => number_in(s@, max as nat) == Some(n as nat),
            None => number_in(s@, max as nat) is None,
        },
{
    let all: Vec<char> = chars_of(s);
    let start: usize = if all.len() > 0 && all[0] == '+' {
        1
    } else {
        0
    };
    let ghost d = all@.skip(start as int);
    assert(start == 1 ==> d == s@.drop_first());
    assert(start == 0 ==> d == s@);
    if start == all.len() {
        return None;
    }
    let mut n: u64 = 0;
    let mut i: usize = start;
    assert(d.take(0) == Seq::<char>::empty());
    while i < all.len()
        invariant
            start <= i <= all@.len(),
            d == all@.skip(start as int),
            n == digits_value(d.take(i - start)),
            n <= max,
            forall|k: int| 0 <= k < i - start ==> '0' <= #[trigger] d[k] <= '9',
            d.len() > 0,
            number_in(s@, max as nat) == (if all_digits(d) && digits_value(d) <= max {
                Some(digits_value(d))
            } else {
                None
            }),
        decreases all@.len() - i,
    {
        let c: char = all[i];
        assert(d[i - start] == c);
        if !('0' <= c && c <= '9') {
            return None;
        }
        let v: u64 = (c as u32 - 48) as u64;
        proof {
            assert(d.take(i - start + 1).drop_last() == d.take(i - start));
            assert(d.take(i - start + 1).last() == c);
            if all_digits(d) {
                digits_value_grows(d, i - start + 1);
            }
        }
        if n > max / 10 || v > max - n * 10 {
            return None;
        }
        n = n * 10 + v;
        i = i + 1;
    }
    assert(d.take(d.len() as int) == d);
    Some(n)
}

/// The `usize` that a text stands for.
pub fn parse_usize(s: &str) -> (r: Option<usize>)
    ensures
        match r {
            Some(n) => number_in(s@, usize::MAX as nat) == Some(n as nat),
            None => number_in(s@, usize::MAX as nat) is None,
        },
{
    match parse_number(s, usize::MAX as u64) {
        Some(n) => Some(n as usize),
        None => None,
    }
}

// ---------------------------------------------------------------------------------------------
// Order
// ---------------------------------------------------------------------------------------------

/// Whether `a` comes before `b` or is the same: the first characters that differ decide, and a
/// text comes before those that it begins.
pub open spec fn text_le(a: Seq<char>, b: Seq<char>) -> bool
    decreases a.len(),
{
    if a.len() == 0 {
        true
    } else if b.len() == 0 {
        false
    } else if a[0] != b[0] {
        a[0] < b[0]
    } else {
        text_le(a.drop_first(), b.drop_first())
    }
}

/// Of two texts, one comes before the other or they are the same.
pub proof fn text_le_total(a: Seq<char>, b: Seq<char>)
    ensures
        text_le(a, b) || text_le(b, a),
    decreases a.len(),
{
    if a.len() > 0 && b.len() > 0 && a[0] == b[0] {
        text_le_total(a.drop_first(), b.drop_first());
    }
}

/// Two texts that each come before the other are the same.
pub proof fn text_le_antisymmetric(a: Seq<char>, b: Seq<char>)
    requires
        text_le(a, b),
        text_le(b, a),
    ensures
        a == b,
    decreases a.len(),
{
    if a.len() > 0 && b.len() > 0 {
        text_le_antisymmetric(a.drop_first(), b.drop_first());
        assert(a == seq![a[0]] + a.drop_first());
        assert(b == seq![b[0]] + b.drop_first());
    } else {
        assert(a == b);
    }
}

/// The order is transitive.
pub proof fn text_le_transitive(a: Seq<char>, b: Seq<char>, c: Seq<char>)
    requires
        text_le(a, b),
        text_le(b, c),
    ensures
        text_le(a, c),
    decreases a.len(),
{
    if a.len() > 0 && b.len() > 0 && c.len() > 0 && a[0] == b[0] && b[0] == c[0] {
        text_le_transitive(a.drop_first(), b.drop_first(), c.drop_first());
    }
}

/// Whether `a` comes before `b` or is the same.
pub fn in_order(a: &str, b: &str) -> (r: bool)
    ensures
        r == text_le(a@, b@),
{
    let v: Vec<char> = chars_of(a);
    let w: Vec<char> = chars_of(b);
    let mut i: usize = 0;
    assert(v@.skip(0) == v@);
    assert(w@.skip(0) == w@);
    while i < v.len()
        invariant
            i <= v@.len(),
            i <= w@.len(),
            v@ == a@,
            w@ == b@,
            text_le(a@, b@) == text_le(v@.skip(i as int), w@.skip(i as int)),
        decreases v@.len() - i,
    {
        if i >= w.len() {
            return false;
        }
        if v[i] != w[i] {
            return v[i] < w[i];
        }
        assert(v@.skip(i as int).drop_first() == v@.skip(i + 1));
        assert(w@.skip(i as int).drop_first() == w@.skip(i + 1));
        i = i + 1;
    }
    true
}

/// `x` put into an ordered list: before the first text that does not come before it.
pub open spec fn inserted(s: Seq<Seq<char>>, x: Seq<char>) -> Seq<Seq<char>>
    decreases s.len(),
{
    if s.len() == 0 {
        seq![x]
    } else if text_le(x, s[0]) {
        seq![x] + s
    } else {
        seq![s[0]] + inserted(s.drop_first(), x)
    }
}

/// The texts in order.
pub open spec fn ordered(s: Seq<Seq<char>>) -> Seq<Seq<char>>
    decreases s.len(),
{
    if s.len() == 0 {
        Seq::empty()
    } else {
        inserted(ordered(s.drop_last()), s.last())
    }
}

/// Whether each text comes before those that follow it.
pub open spec fn ascending(s: Seq<Seq<char>>) -> bool {
    forall|i: int, j: int|
        0 <= i <= j < s.len() ==> text_le(#[trigger] s[i], #[trigger] s[j])
}

proof fn inserted_ascends(s: Seq<Seq<char>>, x: Seq<char>)
    requires
        ascending(s),
    ensures
        ascending(inserted(s, x)),
        inserted(s, x).to_multiset() == s.to_multiset().insert(x),
        inserted(s, x).len() == s.len() + 1,
        forall|i: int|
            0 <= i < inserted(s, x).len() ==> #[trigger] inserted(s, x)[i] == x || s.contains(
                inserted(s, x)[i],
            ),
    decreases s.len(),
{
    broadcast use vstd::seq_lib::group_to_multiset_ensures;

    text_le_total(x, x);
    if s.len() == 0 {
        assert(seq![x] == s.push(x));
    } else if text_le(x, s[0]) {
        let r = seq![x] + s;
        assert(r == s.insert(0, x));
        s.insert_ensures(0, x);
        vstd::seq_lib::to_multiset_insert(s, 0, x);
        assert forall|i: int, j: int| 0 <= i <= j < r.len() implies text_le(
            #[trigger] r[i],
            #[trigger] r[j],
        ) by {
            if i == 0 && j > 0 {
                assert(r[j] == s[j - 1]);
                text_le_transitive(x, s[0], s[j - 1]);
            } else if i > 0 {
                assert(r[i] == s[i - 1] && r[j] == s[j - 1]);
            }
        }
        assert forall|i: int| 0 <= i < r.len() implies #[trigger] r[i] == x || s.contains(
            r[i],
        ) by {
            if i > 0 {
                assert(r[i] == s[i - 1]);
            }
        }
    } else {
        let t = s.drop_first();
        assert forall|i: int, j: int| 0 <= i <= j < t.len() implies text_le(
            #[trigger] t[i],
            #[trigger] t[j],
        ) by {
            assert(t[i] == s[i + 1] && t[j] == s[j + 1]);
        }
        inserted_ascends(t, x);
        text_le_total(x, s[0]);
        let q = inserted(t, x);
        let r = seq![s[0]] + q;
        assert forall|i: int, j: int| 0 <= i <= j < r.len() implies text_le(
            #[trigger] r[i],
            #[trigger] r[j],
        ) by {
            text_le_total(r[i], r[i]);
            if i == 0 && j > 0 {
                assert(r[j] == q[j - 1]);
                if q[j - 1] != x {
                    let k = choose|k: int| 0 <= k < t.len() && t[k] == q[j - 1];
                    assert(s[k + 1] == q[j - 1]);
                }
            } else if i > 0 {
                assert(r[i] == q[i - 1] && r[j] == q[j - 1]);
            }
        }
        assert forall|i: int| 0 <= i < r.len() implies #[trigger] r[i] == x || s.contains(
            r[i],
        ) by {
            if i == 0 {
                assert(s[0] == r[0]);
            } else {
                assert(r[i] == q[i - 1]);
                if q[i - 1] != x {
                    let k = choose|k: int| 0 <= k < t.len() && t[k] == q[i - 1];
                    assert(s[k + 1] == r[i]);
                }
            }
        }
        assert(r == q.insert(0, s[0]));
        vstd::seq_lib::to_multiset_insert(q, 0, s[0]);
        assert(s == t.insert(0, s[0]));
        vstd::seq_lib::to_multiset_insert(t, 0, s[0]);
        assert(t.to_multiset().insert(x).insert(s[0]) =~= t.to_multiset().insert(s[0]).insert(x));
    }
}

/// The texts in order are the same texts, and in order.
pub proof fn ordered_sorts(s: Seq<Seq<char>>)
    ensures
        ascending(ordered(s)),
        ordered(s).to_multiset() == s.to_multiset(),
        ordered(s).len() == s.len(),
    decreases s.len(),
{
    broadcast use vstd::seq_lib::group_to_multiset_ensures;

    if s.len() > 0 {
        ordered_sorts(s.drop_last());
        inserted_ascends(ordered(s.drop_last()), s.last());
        assert(s == s.drop_last().push(s.last()));
    } else {
        assert(s == Seq::<Seq<char>>::empty());
    }
}

fn insert_in_order(v: &mut Vec<String>, x: String)
    ensures
        texts(final(v)@) == inserted(texts(old(v)@), x@),
{
    let ghost before = texts(v@);
    let mut i: usize = 0;
    assert(before.skip(0) == before);
    assert(before.take(0) + inserted(before, x@) == inserted(before, x@));
    while i < v.len() && !in_order(x.as_str(), v[i].as_str())
        invariant
            i <= v@.len(),
            before == texts(v@),
            inserted(before, x@) == before.take(i as int) + inserted(before.skip(i as int), x@),
        decreases v@.len() - i,
    {
        proof {
            let rest = before.skip(i as int);
            assert(rest[0] == v@[i as int]@);
            assert(rest.drop_first() == before.skip(i + 1));
            assert(before.take(i as int) + (seq![rest[0]] + inserted(rest.drop_first(), x@))
                == before.take(i + 1) + inserted(before.skip(i + 1), x@));
        }
        i = i + 1;
    }
    let ghost rest = before.skip(i as int);
    let ghost old_v = v@;
    v.insert(i, x);
    proof {
        if i < old_v.len() {
            assert(rest[0] == old_v[i as int]@);
            assert(inserted(rest, x@) == seq![x@] + rest);
        } else {
            assert(inserted(rest, x@) == seq![x@]);
        }
        assert(texts(v@) =~= before.take(i as int) + inserted(rest, x@));
    }
}

/// The texts in order.
pub fn sort_texts(v: &Vec<String>) -> (r: Vec<String>)
    ensures
        texts(r@) == ordered(texts(v@)),
{
    let mut r: Vec<String> = Vec::new();
    let mut i: usize = 0;
    assert(texts(v@).take(0) == Seq::<Seq<char>>::empty());
    assert(texts(r@) == Seq::<Seq<char>>::empty());
    while i < v.len()
        invariant
            i <= v@.len(),
            texts(r@) == ordered(texts(v@).take(i as int)),
        decreases v@.len() - i,
    {
        proof {
            let next = texts(v@).take(i + 1);
            assert(next.drop_last() == texts(v@).take(i as int));
            assert(next.last() == v@[i as int]@);
        }
        insert_in_order(&mut r, v[i].clone());
        i = i + 1;
    }
    assert(texts(v@).take(v@.len() as int) == texts(v@));
    r
}

// ---------------------------------------------------------------------------------------------
// Replacing
// ---------------------------------------------------------------------------------------------

/// `s` with `w` in place of every `p`, from left to right.
pub open spec fn replaced(s: Seq<char>, p: Seq<char>, w: Seq<char>) -> Seq<char>
    decreases s.len(),
{
    match first_at(s, p) {
        Some(i) => if 0 <= i && 0 < p.len() && i + p.len() <= s.len() {
            s.take(i) + w + replaced(s.skip(i + p.len()), p, w)
        } else {
            s
        },
        None => s,
    }
}

/// `s` with `w` in place of every `p`, from left to right. An empty `p` is not looked for.
pub fn replace(s: &str, p: &str, w: &str) -> (r: String)
    ensures
        r@ == replaced(s@, p@, w@),
{
    if p.is_empty() {
        return s.to_owned();
    }
    let v: Vec<char> = chars_of(s);
    let q: Vec<char> = chars_of(p);
    let mut r: String = String::new();
    let mut i: usize = 0;
    let n: usize = v.len();
    assert(v@.skip(0) == v@);
    loop
        invariant
            n == v@.len(),
            i <= v@.len(),
            v@ == s@,
            q@ == p@,
            q@.len() > 0,
            replaced(s@, p@, w@) == r@ + replaced(v@.skip(i as int), p@, w@),
        decreases v@.len() - i,
    {
        let ghost rest = v@.skip(i as int);
        let ghost before = r@;
        proof {
            first_at_from_shift(v@, p@, i as int, i as int);
        }
        match find_from(&v, &q, i) {
            Some(j) => {
                let a: String = slice_string(&v, i, j);
                r.append(a.as_str());
                r.append(w);
                proof {
                    assert(first_at(rest, p@) == Some(j - i));
                    assert(rest.take(j - i) == v@.subrange(i as int, j as int));
                    assert(rest.skip(j - i + q@.len()) == v@.skip(j + q@.len()));
                    assert(before + (rest.take(j - i) + w@ + replaced(
                        v@.skip(j + q@.len()),
                        p@,
                        w@,
                    )) == r@ + replaced(v@.skip(j + q@.len()), p@, w@));
                }
                i = j + q.len();
            },
            None => {
                let a: String = slice_string(&v, i, n);
                r.append(a.as_str());
                assert(rest == v@.subrange(i as int, v@.len() as int));
                return r;
            },
        }
    }
}

// ---------------------------------------------------------------------------------------------
// Signed numbers
// ---------------------------------------------------------------------------------------------

/// The `i64` that a text stands for: decimal digits, with or without a sign.
pub open spec fn signed_number_in(s: Seq<char>) -> Option<int> {
    if s.len() > 0 && s[0] == '-' {
        if s.len() > 1 && s[1] == '+' {
            None
        } else {
            match number_in(s.drop_first(), 0x8000_0000_0000_0000) {
                Some(n) => Some(-(n as int)),
                None => None,
            }
        }
    } else {
        match number_in(s, 0x7fff_ffff_ffff_ffff) {
            Some(n) => Some(n as int),
            None => None,
        }
    }
}

/// The `i64` that a text stands for.
pub fn parse_i64(s: &str) -> (r: Option<i64>)
    ensures
        match r {
            Some(n) => signed_number_in(s@) == Some(n as int),
            None => signed_number_in(s@) is None,
        },
{
    let v: Vec<char> = chars_of(s);
    if v.len() > 0 && v[0] == '-' {
        if v.len() > 1 && v[1] == '+' {
            return None;
        }
        let d: String = slice_string(&v, 1, v.len());
        assert(d@ == s@.drop_first());
        match parse_number(d.as_str(), 0x8000_0000_0000_0000) {
            Some(n) => {
                if n == 0x8000_0000_0000_0000 {
                    Some(-0x8000_0000_0000_0000i64)
                } else {
                    Some(-(n as i64))
                }
            },
            None => None,
        }
    } else {
        match parse_number(s, 0x7fff_ffff_ffff_ffff) {
            Some(n) => Some(n as i64),
            None => None,
        }
    }
}

// ---------------------------------------------------------------------------------------------
// Byte positions
// ---------------------------------------------------------------------------------------------

/// How many characters of `s` start before its byte `off`.
pub open spec fn char_index(s: Seq<char>, off: int) -> int
    decreases s.len(),
{
    if off <= 0 || s.len() == 0 {
        0
    } else {
        1 + char_index(s.drop_first(), off - utf8_len(s[0]))
    }
}

/// A later byte is not in an earlier character.
pub proof fn char_index_mono(s: Seq<char>, a: int, b: int)
    requires
        a <= b,
    ensures
        0 <= char_index(s, a) <= char_index(s, b) <= s.len(),
    decreases s.len(),
{
    if s.len() > 0 {
        char_index_mono(s.drop_first(), a - utf8_len(s[0]), b - utf8_len(s[0]));
        char_index_mono(s.drop_first(), b - utf8_len(s[0]), b - utf8_len(s[0]));
    }
}

/// The byte at which character `i` starts is where `char_index` finds it.
pub proof fn char_index_of_start(s: Seq<char>, i: int)
    requires
        0 <= i <= s.len(),
    ensures
        char_index(s, byte_len(s.take(i)) as int) == i,
    decreases s.len(),
{
    if i > 0 {
        assert(s.take(i).drop_first() == s.drop_first().take(i - 1));
        char_index_of_start(s.drop_first(), i - 1);
        assert(s.take(i)[0] == s[0]);
    }
}

/// How many characters of `v` start before the byte `off`.
pub fn char_index_of(v: &Vec<char>, off: usize) -> (r: usize)
    ensures
        r == char_index(v@, off as int),
        r <= v@.len(),
{
    let mut i: usize = 0;
    let mut left: usize = off;
    assert(v@.skip(0) == v@);
    while i < v.len() && left > 0
        invariant
            i <= v@.len(),
            left <= off,
            char_index(v@, off as int) == i + char_index(v@.skip(i as int), left as int),
        decreases v@.len() - i,
    {
        proof {
            assert(v@.skip(i as int)[0] == v@[i as int]);
            assert(v@.skip(i as int).drop_first() == v@.skip(i + 1));
        }
        let n: usize = char_len(v[i]);
        if n >= left {
            proof {
                assert(char_index(v@.skip(i + 1), left - n) == 0);
            }
            return i + 1;
        }
        left = left - n;
        i = i + 1;
    }
    i
}

/// The characters of `s` from byte `a` to byte `b`, where both are the start of a character or
/// the end, in this order.
pub open spec fn byte_slice(s: Seq<char>, a: nat, b: nat) -> Option<Seq<char>> {
    let i = char_index(s, a as int);
    let j = char_index(s, b as int);
    if a <= b && byte_len(s.take(i)) == a && byte_len(s.take(j)) == b {
        Some(s.subrange(i, j))
    } else {
        None
    }
}

/// How many bytes the first `i` characters of `v` take, where that is at most `limit`.
fn bytes_before(v: &Vec<char>, i: usize, limit: usize) -> (r: Option<usize>)
    requires
        i <= v@.len(),
    ensures
        match r {
            Some(n) => n == byte_len(v@.take(i as int)) && n <= limit,
            None => byte_len(v@.take(i as int)) > limit,
        },
{
    let mut w: Vec<char> = Vec::new();
    let mut k: usize = 0;
    while k < i
        invariant
            k <= i <= v@.len(),
            w@ == v@.take(k as int),
        decreases i - k,
    {
        w.push(v[k]);
        assert(v@.take(k as int).push(v@[k as int]) =~= v@.take(k + 1));
        k = k + 1;
    }
    byte_len_within(&w, limit)
}

/// The characters of `s` from byte `a` to byte `b`, where both are the start of a character or
/// the end, in this order.
pub fn get_bytes(s: &str, a: usize, b: usize) -> (r: Option<String>)
    ensures
        r.deep_view() == byte_slice(s@, a as nat, b as nat),
{
    if a > b {
        return None;
    }
    let v: Vec<char> = chars_of(s);
    let i: usize = char_index_of(&v, a);
    let j: usize = char_index_of(&v, b);
    proof {
        char_index_mono(v@, a as int, b as int);
    }
    match bytes_before(&v, i, a) {
        Some(x) => {
            if x != a {
                return None;
            }
        },
        None => {
            return None;
        },
    }
    match bytes_before(&v, j, b) {
        Some(x) => {
            if x != b {
                return None;
            }
        },
        None => {
            return None;
        },
    }
    Some(slice_string(&v, i, j))
}

/// Whether the two texts are the same but for the case of ASCII letters.
pub fn eq_ignore_ascii_case(a: &str, b: &str) -> (r: bool)
    ensures
        r == (ascii_lowered(a@) == ascii_lowered(b@)),
{
    let x: String = to_ascii_lowercase(a);
    let y: String = to_ascii_lowercase(b);
    same(x.as_str(), y.as_str())
}

/// The decimal form of a number stands for it.
pub proof fn decimal_reads_back(n: nat)
    ensures
        all_digits(decimal(n)),
        decimal(n).len() > 0,
        digits_value(decimal(n)) == n,
    decreases n,
{
    let s = decimal(n);
    if n < 10 {
        assert(s =~= seq![digit(n)]);
        assert(s.drop_last() =~= Seq::<char>::empty());
        assert(digits_value(s.drop_last()) == 0);
        assert(s.last() == digit(n));
    } else {
        decimal_reads_back(n / 10);
        assert(s.drop_last() =~= decimal(n / 10));
        assert(s.last() == digit(n % 10));
    }
}

/// The decimal form of a number with a sign stands for it, and holds no colon.
pub proof fn signed_reads_back(n: i64)
    ensures
        signed_number_in(signed_decimal(n as int)) == Some(n as int),
        forall|i: int|
            0 <= i < signed_decimal(n as int).len() ==> #[trigger] signed_decimal(n as int)[i]
                != ':',
{
    let s = signed_decimal(n as int);
    if n < 0 {
        let d = decimal((-(n as int)) as nat);
        decimal_reads_back((-(n as int)) as nat);
        assert(s.drop_first() =~= d);
        assert(d[0] != '+');
        assert forall|i: int| 0 <= i < s.len() implies #[trigger] s[i] != ':' by {
            if i > 0 {
                assert(s[i] == d[i - 1]);
            }
        }
    } else {
        decimal_reads_back(n as nat);
        assert(s[0] != '+' && s[0] != '-');
    }
}

// ---------------------------------------------------------------------------------------------
// Splitting, joining and replacing
// ---------------------------------------------------------------------------------------------

/// No character of the text is this one.
pub open spec fn free_of(s: Seq<char>, c: char) -> bool {
    forall|i: int| 0 <= i < s.len() ==> #[trigger] s[i] != c
}

/// A text that is put in front of others comes first.
pub proof fn joined_first(parts: Seq<Seq<char>>, sep: Seq<char>)
    requires
        parts.len() >= 2,
    ensures
        joined(parts, sep) == parts[0] + sep + joined(parts.skip(1), sep),
    decreases parts.len(),
{
    let rest = parts.skip(1);
    if parts.len() == 2 {
        assert(parts.drop_last().len() == 1);
        assert(joined(parts.drop_last(), sep) == parts[0]);
        assert(rest[0] == parts.last());
    } else {
        joined_first(parts.drop_last(), sep);
        assert(parts.drop_last().skip(1) =~= rest.drop_last());
        assert(joined(rest, sep) == joined(rest.drop_last(), sep) + sep + rest.last());
        assert(joined(parts, sep) =~= parts[0] + sep + joined(rest, sep));
    }
}

/// A text can be put together again from its pieces.
pub proof fn pieces_join_back(s: Seq<char>, c: char)
    ensures
        pieces_of(s, c).len() >= 1,
        joined(pieces_of(s, c), seq![c]) == s,
    decreases s.len(),
{
    let sep = seq![c];
    first_at_from_is_first(s, sep, 0);
    match first_at(s, sep) {
        Some(i) => {
            if 0 <= i < s.len() {
                let rest = s.skip(i + 1);
                pieces_join_back(rest, c);
                let p = pieces_of(s, c);
                assert(p == seq![s.take(i)] + pieces_of(rest, c));
                joined_first(p, sep);
                assert(p.skip(1) =~= pieces_of(rest, c));
                assert(s.subrange(i, i + 1)[0] == c);
                assert(s =~= s.take(i) + sep + rest);
            }
        },
        None => {},
    }
}

/// A piece of a text lies in it, and does not hold what the text was cut at.
pub proof fn pieces_lie_within(s: Seq<char>, c: char, k: int) -> (i: int)
    requires
        0 <= k < pieces_of(s, c).len(),
    ensures
        0 <= i,
        i + pieces_of(s, c)[k].len() <= s.len(),
        pieces_of(s, c)[k] == s.subrange(i, i + pieces_of(s, c)[k].len()),
        free_of(pieces_of(s, c)[k], c),
    decreases s.len(),
{
    let sep = seq![c];
    first_at_from_is_first(s, sep, 0);
    match first_at(s, sep) {
        Some(i) => {
            if 0 <= i < s.len() {
                let rest = s.skip(i + 1);
                let p = pieces_of(s, c);
                assert(p == seq![s.take(i)] + pieces_of(rest, c));
                if k == 0 {
                    assert(p[0] == s.take(i));
                    assert(s.take(i) =~= s.subrange(0, i));
                    assert forall|j: int| 0 <= j < i implies #[trigger] s.take(i)[j] != c by {
                        assert(!occurs_at(s, sep, j));
                        assert(s.subrange(j, j + 1) =~= seq![s[j]]);
                    }
                    0
                } else {
                    let j = pieces_lie_within(rest, c, k - 1);
                    let q = pieces_of(rest, c)[k - 1];
                    assert(p[k] == q);
                    assert(rest.subrange(j, j + q.len()) =~= s.subrange(
                        i + 1 + j,
                        i + 1 + j + q.len(),
                    ));
                    i + 1 + j
                }
            } else {
                assert(s =~= s.subrange(0, s.len() as int));
                0
            }
        },
        None => {
            assert(s =~= s.subrange(0, s.len() as int));
            assert forall|j: int| 0 <= j < s.len() implies #[trigger] s[j] != c by {
                assert(!occurs_at(s, sep, j));
                assert(s.subrange(j, j + 1) =~= seq![s[j]]);
            }
            0
        },
    }
}

/// A text in which nothing is to be replaced stays as it is.
pub proof fn replaced_nothing(s: Seq<char>, p: Seq<char>, w: Seq<char>)
    requires
        p.len() > 0,
        free_of(s, p[0]),
    ensures
        replaced(s, p, w) == s,
{
    first_at_from_is_first(s, p, 0);
    match first_at(s, p) {
        Some(i) => {
            assert(s.subrange(i, i + p.len())[0] == s[i]);
        },
        None => {},
    }
}

/// What occurs once is replaced, and what is around it stays as it is.
pub proof fn replaced_once(a: Seq<char>, p: Seq<char>, b: Seq<char>, w: Seq<char>)
    requires
        p.len() > 0,
        free_of(a, p[0]),
        free_of(b, p[0]),
    ensures
        replaced(a + p + b, p, w) == a + w + b,
{
    let s = a + p + b;
    let n = a.len() as int;
    first_at_from_is_first(s, p, 0);
    assert(s.subrange(n, n + p.len()) =~= p);
    assert(occurs_at(s, p, n));
    match first_at(s, p) {
        Some(i) => {
            if i < n {
                assert(s.subrange(i, i + p.len())[0] == a[i]);
            }
            assert(i == n);
            assert(s.take(n) =~= a);
            assert(s.skip(n + p.len()) =~= b);
            replaced_nothing(b, p, w);
        },
        None => {},
    }
}

} // verus!
