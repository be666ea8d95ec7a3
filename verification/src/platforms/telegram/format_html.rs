//! Markdown as the HTML that Telegram takes, and as plain text.

use vstd::prelude::*;

use crate::regexes::{
    around_group, broken_run, enclosed, find_matches, found_right, heads, in_text, is_fixed_pattern,
    is_rule_mark, is_span, lacks, list_item, no_bullet, no_rule, no_run, pattern_matches,
    pattern_replaced, replace_matches, replaced_right, sole_block, sole_link, sole_mark, sole_match,
    title_line, with_block, with_link, Ranges, ANY_INLINE_CODE, ANY_STARS, ANY_UNDERSCORES, BOLD,
    BOLD_ITALIC, BOLD_UNDERSCORE, BULLET, CODE_BLOCK, CODE_FENCE, HEADER, HEADER_MARK, INLINE_CODE,
    ITALIC, ITALIC_UNDERSCORE, LINK, QUOTE_MARK, RULE_LINE, SPOILER, STRIKE,
};
use crate::strs::{
    after_prefix, begins, byte_len, char_index, char_index_mono, char_index_of,
    char_index_of_start, chars_of, concat3, decimal, first_at, first_at_from_is_first, free_of,
    is_alnum, is_ws, join, joined, occurs_at, pieces_join_back, pieces_lie_within, pieces_of, replace,
    replaced, replaced_nothing, replaced_once, same, slice_string, split_char, strip_prefix, texts,
    texts_push, trim, trim_start, trimmed, trimmed_start, u64_string,
};

verus! {

// ---------------------------------------------------------------------------------------------
// Escaping
// ---------------------------------------------------------------------------------------------

/// What stands for a character in HTML.
pub open spec fn escape_of(c: char) -> Seq<char> {
    if c == '&' {
        "&amp;"@
    } else if c == '<' {
        "&lt;"@
    } else if c == '>' {
        "&gt;"@
    } else {
        seq![c]
    }
}

/// A text as HTML shows it.
pub open spec fn escaped(s: Seq<char>) -> Seq<char>
    decreases s.len(),
{
    if s.len() == 0 {
        Seq::empty()
    } else {
        escaped(s.drop_last()) + escape_of(s.last())
    }
}

/// A text as HTML shows it.
pub fn escape_html(text: &str) -> (r: String)
    ensures
        r@ == escaped(text@),
{
    let v: Vec<char> = chars_of(text);
    let mut r: String = String::new();
    let mut i: usize = 0;
    assert(v@.take(0) == Seq::<char>::empty());
    while i < v.len()
        invariant
            i <= v@.len(),
            r@ == escaped(v@.take(i as int)),
        decreases v@.len() - i,
    {
        let c: char = v[i];
        proof {
            assert(v@.take(i + 1).drop_last() == v@.take(i as int));
            assert(v@.take(i + 1).last() == c);
        }
        let ghost before = r@;
        if c == '&' {
            r.append("&amp;");
        } else if c == '<' {
            r.append("&lt;");
        } else if c == '>' {
            r.append("&gt;");
        } else {
            r.push(c);
            assert(r@ == before + seq![c]);
        }
        i = i + 1;
    }
    assert(v@.take(v@.len() as int) == v@);
    r
}

/// An escaped text opens and closes no element.
pub proof fn escaped_holds_no_brackets(s: Seq<char>)
    ensures
        forall|i: int|
            0 <= i < escaped(s).len() ==> #[trigger] escaped(s)[i] != '<' && escaped(s)[i] != '>',
    decreases s.len(),
{
    if s.len() > 0 {
        escaped_holds_no_brackets(s.drop_last());
        reveal_strlit("&amp;");
        reveal_strlit("&lt;");
        reveal_strlit("&gt;");
        let a = escaped(s.drop_last());
        let b = escape_of(s.last());
        assert forall|i: int| 0 <= i < escaped(s).len() implies #[trigger] escaped(s)[i] != '<'
            && escaped(s)[i] != '>' by {
            if i < a.len() {
                assert(escaped(s)[i] == a[i]);
            } else {
                assert(escaped(s)[i] == b[i - a.len()]);
            }
        }
    }
}

/// A URL that can stand in an attribute.
pub open spec fn escaped_url(s: Seq<char>) -> Seq<char> {
    replaced(replaced(s, "<"@, "%3C"@), ">"@, "%3E"@)
}

fn escape_url(url: &str) -> (r: String)
    ensures
        r@ == escaped_url(url@),
{
    let a: String = replace(url, "<", "%3C");
    replace(a.as_str(), ">", "%3E")
}

// ---------------------------------------------------------------------------------------------
// Code and links
// ---------------------------------------------------------------------------------------------

/// What is kept out of the way of the other rules.
#[derive(Debug, Clone, Copy, PartialEq, Eq, Structural)]
pub enum Mark {
    Block,
    Inline,
    Link,
}

/// What is put in the place of the `n`th thing that is kept out of the way.
pub open spec fn placeholder(n: nat) -> Seq<char> {
    "\0PH"@ + decimal(n) + "\0"@
}

fn placeholder_text(n: usize) -> (r: String)
    ensures
        r@ == placeholder(n as nat),
{
    let d: String = u64_string(n as u64);
    concat3("\0PH", d.as_str(), "\0")
}

/// The text of a group of a match; empty where it took no part.
pub open spec fn group(s: Seq<char>, m: Seq<Option<(usize, usize)>>, g: int) -> Seq<char> {
    if 0 <= g < m.len() && m[g] is Some {
        s.subrange(char_index(s, (m[g]->0).0 as int), char_index(s, (m[g]->0).1 as int))
    } else {
        Seq::empty()
    }
}

/// The HTML for a match.
pub open spec fn mark_html(mark: Mark, a: Seq<char>, b: Seq<char>) -> Seq<char> {
    match mark {
        Mark::Block => if trimmed(a).len() > 0 {
            "<pre><code class=\"language-"@ + escaped(trimmed(a)) + "\">"@ + escaped(b)
                + "</code></pre>"@
        } else {
            "<pre>"@ + escaped(b) + "</pre>"@
        },
        Mark::Inline => "<code>"@ + escaped(a) + "</code>"@,
        Mark::Link => "<a href=\""@ + escaped_url(b) + "\">"@ + escaped(a) + "</a>"@,
    }
}

/// The HTML for what the two groups of a match hold.
pub fn render_mark(mark: Mark, a: &str, b: &str) -> (r: String)
    ensures
        r@ == mark_html(mark, a@, b@),
{
    let mut r: String = String::new();
    match mark {
        Mark::Block => {
            let lang: &str = trim(a);
            let code: String = escape_html(b);
            if !lang.is_empty() {
                let l: String = escape_html(lang);
                r.append("<pre><code class=\"language-");
                r.append(l.as_str());
                r.append("\">");
                r.append(code.as_str());
                r.append("</code></pre>");
            } else {
                r.append("<pre>");
                r.append(code.as_str());
                r.append("</pre>");
            }
        },
        Mark::Inline => {
            let code: String = escape_html(a);
            r.append("<code>");
            r.append(code.as_str());
            r.append("</code>");
        },
        Mark::Link => {
            let label: String = escape_html(a);
            let url: String = escape_url(b);
            r.append("<a href=\"");
            r.append(url.as_str());
            r.append("\">");
            r.append(label.as_str());
            r.append("</a>");
        },
    }
    r
}

/// The HTML for a match.
pub open spec fn match_html(mark: Mark, s: Seq<char>, m: Seq<Option<(usize, usize)>>) -> Seq<char> {
    mark_html(mark, group(s, m, 1), group(s, m, 2))
}

/// The HTML for all matches.
pub open spec fn match_htmls(
    mark: Mark,
    s: Seq<char>,
    ms: Seq<Seq<Option<(usize, usize)>>>,
) -> Seq<Seq<char>> {
    ms.map_values(|m: Seq<Option<(usize, usize)>>| match_html(mark, s, m))
}

/// Where the `k`th match of a text ends, in bytes.
pub open spec fn end_before(ms: Seq<Seq<Option<(usize, usize)>>>, k: int) -> int {
    if k <= 0 {
        0
    } else {
        (ms[k - 1][0]->0).1 as int
    }
}

/// The text up to the end of its `k`th match, with placeholders from `n` on in place of the
/// matches.
pub open spec fn marked_to(
    s: Seq<char>,
    ms: Seq<Seq<Option<(usize, usize)>>>,
    k: int,
    n: nat,
) -> Seq<char>
    decreases k,
{
    if k <= 0 {
        Seq::empty()
    } else {
        marked_to(s, ms, k - 1, n) + s.subrange(
            char_index(s, end_before(ms, k - 1)),
            char_index(s, (ms[k - 1][0]->0).0 as int),
        ) + placeholder((n + k - 1) as nat)
    }
}

/// The text with placeholders from `n` on in place of the matches.
pub open spec fn marked(s: Seq<char>, ms: Seq<Seq<Option<(usize, usize)>>>, n: nat) -> Seq<char> {
    marked_to(s, ms, ms.len() as int, n) + s.skip(char_index(s, end_before(ms, ms.len() as int)))
}

fn group_text(v: &Vec<char>, m: &Ranges, g: usize) -> (r: String)
    requires
        g < m@.len() ==> (m@[g as int] matches Some((a, b)) ==> a <= b),
    ensures
        r@ == group(v@, m.deep_view(), g as int),
{
    assert(m.deep_view().len() == m@.len());
    if g < m.len() {
        assert(m.deep_view()[g as int] == m@[g as int].deep_view());
        match m[g] {
            Some((a, b)) => {
                let i: usize = char_index_of(v, a);
                let j: usize = char_index_of(v, b);
                proof {
                    char_index_mono(v@, a as int, b as int);
                }
                slice_string(v, i, j)
            },
            None => String::new(),
        }
    } else {
        String::new()
    }
}

/// Puts placeholders in place of the matches, and their HTML at the end of the list.
pub fn mark_matches(
    mark: Mark,
    text: &str,
    ms: &Vec<Ranges>,
    placeholders: &mut Vec<String>,
) -> (r: String)
    requires
        in_text(ms.deep_view(), text@),
    ensures
        r@ == marked(text@, ms.deep_view(), old(placeholders)@.len()),
        texts(final(placeholders)@) == texts(old(placeholders)@) + match_htmls(
            mark,
            text@,
            ms.deep_view(),
        ),
{
    let v: Vec<char> = chars_of(text);
    let ghost all = ms.deep_view();
    let ghost n = placeholders@.len();
    let ghost kept = texts(placeholders@);
    let ghost f = |m: Seq<Option<(usize, usize)>>| match_html(mark, text@, m);
    let mut r: String = String::new();
    let mut from: usize = 0;
    let mut k: usize = 0;
    assert(texts(placeholders@) =~= kept + all.take(0).map_values(f));
    while k < ms.len()
        invariant
            k <= ms@.len(),
            v@ == text@,
            all == ms.deep_view(),
            in_text(all, text@),
            f == |m: Seq<Option<(usize, usize)>>| match_html(mark, text@, m),
            n + k == placeholders@.len(),
            texts(placeholders@) == kept + all.take(k as int).map_values(f),
            r@ == marked_to(text@, all, k as int, n),
            from == char_index(text@, end_before(all, k as int)),
            from <= v@.len(),
        decreases ms@.len() - k,
    {
        let m: &Ranges = &ms[k];
        proof {
            assert(all[k as int] == m.deep_view());
            assert(all[k as int].len() == m@.len());
            assert forall|g: int| 0 <= g < m@.len() implies (#[trigger] m@[g] matches Some((a, b))
                ==> a <= b) by {
                assert(all[k as int][g] == m@[g].deep_view());
            }
            assert(all[k as int][0] == m@[0].deep_view());
            if k > 0 {
                assert((all[k - 1][0]->0).1 <= (all[k as int][0]->0).0);
            }
        }
        let whole: (usize, usize) = m[0].unwrap();
        let start: usize = char_index_of(&v, whole.0);
        let end: usize = char_index_of(&v, whole.1);
        proof {
            char_index_mono(v@, end_before(all, k as int), whole.0 as int);
            char_index_mono(v@, whole.0 as int, whole.1 as int);
        }
        let gap: String = slice_string(&v, from, start);
        r.append(gap.as_str());
        let p: String = placeholder_text(placeholders.len());
        r.append(p.as_str());
        let a: String = group_text(&v, m, 1);
        let b: String = group_text(&v, m, 2);
        let html: String = render_mark(mark, a.as_str(), b.as_str());
        let ghost before = placeholders@;
        placeholders.push(html);
        proof {
            texts_push(before, html);
            assert(all.take(k + 1) =~= all.take(k as int).push(all[k as int]));
            assert(kept + all.take(k + 1).map_values(f) =~= (kept + all.take(k as int).map_values(
                f,
            )).push(html@));
        }
        from = end;
        k = k + 1;
    }
    proof {
        assert(all.take(all.len() as int) == all);
        assert(v@.subrange(from as int, v@.len() as int) == v@.skip(from as int));
    }
    let tail: String = slice_string(&v, from, v.len());
    r.append(tail.as_str());
    r
}

/// A text with its marks out of the way: the text with placeholders, and the HTML they stand for.
#[verifier::ext_equal]
pub struct MarkedV {
    pub text: Seq<char>,
    pub htmls: Seq<Seq<char>>,
}

/// The text once the matches of a pattern are out of the way, too.
pub open spec fn put_aside(m: MarkedV, mark: Mark, pattern: Seq<char>) -> MarkedV {
    let ms = pattern_matches(pattern, m.text)->0;
    MarkedV {
        text: marked(m.text, ms, m.htmls.len()),
        htmls: m.htmls + match_htmls(mark, m.text, ms),
    }
}

fn set_aside(text: &str, htmls: &mut Vec<String>, mark: Mark, pattern: &str) -> (r: String)
    requires
        is_fixed_pattern(pattern@),
    ensures
        put_aside(
            MarkedV { text: text@, htmls: texts(old(htmls)@) },
            mark,
            pattern@,
        ) == (MarkedV { text: r@, htmls: texts(final(htmls)@) }),
        found_right(pattern@, text@, pattern_matches(pattern@, text@)),
{
    let ms: Vec<Ranges> = find_matches(pattern, text).unwrap();
    mark_matches(mark, text, &ms, htmls)
}

// ---------------------------------------------------------------------------------------------
// Quotes
// ---------------------------------------------------------------------------------------------

/// Lines, and the quote that may still grow.
#[verifier::ext_equal]
pub struct QuotingV {
    pub done: Seq<Seq<char>>,
    pub quote: Seq<Seq<char>>,
}

/// The lines with the quote as one of them.
pub open spec fn closed(q: QuotingV) -> Seq<Seq<char>> {
    if q.quote.len() > 0 {
        q.done.push("<blockquote>"@ + joined(q.quote, "\n"@) + "</blockquote>"@)
    } else {
        q.done
    }
}

/// What a line quotes; `None` where it quotes nothing.
pub open spec fn quoted_in(line: Seq<char>) -> Option<Seq<char>> {
    let t = trimmed_start(line);
    match after_prefix(t, "&gt; "@) {
        Some(rest) => Some(rest),
        None => if t == "&gt;"@ {
            Some(Seq::empty())
        } else {
            None
        },
    }
}

/// The lines after one more. Lines that quote one after another make one quote.
pub open spec fn quoting(lines: Seq<Seq<char>>) -> QuotingV
    decreases lines.len(),
{
    if lines.len() == 0 {
        QuotingV { done: Seq::empty(), quote: Seq::empty() }
    } else {
        let q = quoting(lines.drop_last());
        match quoted_in(lines.last()) {
            Some(t) => QuotingV { done: q.done, quote: q.quote.push(t) },
            None => QuotingV { done: closed(q).push(lines.last()), quote: Seq::empty() },
        }
    }
}

/// The text with its quotes as elements.
pub open spec fn with_quotes(text: Seq<char>) -> Seq<char> {
    joined(closed(quoting(pieces_of(text, '\n'))), "\n"@)
}

fn close_quote(done: &mut Vec<String>, quote: &mut Vec<String>)
    ensures
        texts(final(done)@) == closed(
            QuotingV { done: texts(old(done)@), quote: texts(old(quote)@) },
        ),
        final(quote)@.len() == 0,
{
    assert(texts(quote@).len() == quote@.len());
    if quote.len() > 0 {
        let inner: String = join(quote, "\n");
        let b: String = concat3("<blockquote>", inner.as_str(), "</blockquote>");
        let ghost before = done@;
        done.push(b);
        proof {
            texts_push(before, b);
        }
        quote.clear();
    }
}

/// The text with its quotes as elements.
pub fn merge_quotes(text: &str) -> (r: String)
    ensures
        r@ == with_quotes(text@),
{
    let lines: Vec<String> = split_char(text, '\n');
    let ghost all = texts(lines@);
    let mut done: Vec<String> = Vec::new();
    let mut quote: Vec<String> = Vec::new();
    let mut i: usize = 0;
    assert(all.take(0) == Seq::<Seq<char>>::empty());
    assert(texts(done@) =~= Seq::<Seq<char>>::empty());
    while i < lines.len()
        invariant
            i <= lines@.len(),
            all == texts(lines@),
            quoting(all.take(i as int)) == (QuotingV { done: texts(done@), quote: texts(quote@) }),
        decreases lines@.len() - i,
    {
        let line: &String = &lines[i];
        proof {
            assert(all.take(i + 1).drop_last() == all.take(i as int));
            assert(all.take(i + 1).last() == line@);
        }
        let t: &str = trim_start(line.as_str());
        let rest: Option<String> = match strip_prefix(t, "&gt; ") {
            Some(x) => Some(x.to_owned()),
            None => {
                if same(t, "&gt;") {
                    Some(String::new())
                } else {
                    None
                }
            },
        };
        match rest {
            Some(x) => {
                let ghost before = quote@;
                quote.push(x);
                proof {
                    texts_push(before, x);
                }
            },
            None => {
                close_quote(&mut done, &mut quote);
                let ghost before = done@;
                let own: String = line.clone();
                done.push(own);
                proof {
                    texts_push(before, own);
                    assert(texts(quote@) =~= Seq::<Seq<char>>::empty());
                }
            },
        }
        i = i + 1;
    }
    assert(all.take(all.len() as int) == all);
    close_quote(&mut done, &mut quote);
    join(&done, "\n")
}

// ---------------------------------------------------------------------------------------------
// What the rules leave as it is
// ---------------------------------------------------------------------------------------------

/// The characters that the rules go by.
pub open spec fn is_mark(c: char) -> bool {
    c == '`' || c == '[' || c == '*' || c == '-' || c == '_' || c == '#' || c == '|' || c == '~' || c
        == '>' || c == '\0'
}

/// A text without marks.
pub open spec fn plain(s: Seq<char>) -> bool {
    forall|i: int| 0 <= i < s.len() ==> !is_mark(#[trigger] s[i])
}

/// A text in which no `>` is escaped.
pub open spec fn quoteless(s: Seq<char>) -> bool {
    forall|i: int| 0 <= i < s.len() && #[trigger] s[i] == '&' ==> i + 1 < s.len() && s[i + 1] != 'g'
}

/// Texts are escaped one after another.
pub proof fn escaped_add(a: Seq<char>, b: Seq<char>)
    ensures
        escaped(a + b) == escaped(a) + escaped(b),
    decreases b.len(),
{
    if b.len() == 0 {
        assert(a + b =~= a);
        assert(escaped(a) + escaped(b) =~= escaped(a));
    } else {
        escaped_add(a, b.drop_last());
        assert((a + b).drop_last() =~= a + b.drop_last());
        assert((a + b).last() == b.last());
        assert(escaped(a) + (escaped(b.drop_last()) + escape_of(b.last())) =~= escaped(a) + escaped(
            b.drop_last(),
        ) + escape_of(b.last()));
    }
}

/// A text that holds nothing to escape stays as it is.
pub proof fn escaped_nothing(s: Seq<char>)
    requires
        free_of(s, '&'),
        free_of(s, '<'),
        free_of(s, '>'),
    ensures
        escaped(s) == s,
    decreases s.len(),
{
    if s.len() > 0 {
        assert forall|i: int| 0 <= i < s.drop_last().len() implies #[trigger] s.drop_last()[i]
            == s[i] by {}
        escaped_nothing(s.drop_last());
        assert(s =~= s.drop_last() + seq![s.last()]);
    }
}

/// Escaping brings in no marks, no line ends and no white space, and quotes nothing.
proof fn escaped_is_calm(s: Seq<char>)
    ensures
        plain(s) ==> plain(escaped(s)) && quoteless(escaped(s)),
        free_of(s, '\n') ==> free_of(escaped(s), '\n'),
        s.len() <= escaped(s).len(),
        s.len() > 0 && !is_ws(s[0]) ==> !is_ws(escaped(s)[0]),
        s.len() > 0 && s[0] == '\n' ==> escaped(s)[0] == '\n',
        s.len() > 0 && !is_ws(s.last()) ==> !is_ws(escaped(s).last()),
        s.len() > 0 && s.last() == '\n' ==> escaped(s).last() == '\n',
    decreases s.len(),
{
    if s.len() > 0 {
        let a = escaped(s.drop_last());
        let b = escape_of(s.last());
        escaped_is_calm(s.drop_last());
        reveal_strlit("&amp;");
        reveal_strlit("&lt;");
        reveal_strlit("&gt;");
        let e = escaped(s);
        assert(e == a + b);
        assert(b.len() > 0);
        assert(e.last() == b.last());
        assert(s.len() > 1 ==> s[0] == s.drop_last()[0] && e[0] == a[0]);
        assert(s.len() == 1 ==> a.len() == 0 && e[0] == b[0]);
        if plain(s) {
            assert(!is_mark(s[s.len() - 1]));
            assert forall|i: int| 0 <= i < s.drop_last().len() implies !is_mark(
                #[trigger] s.drop_last()[i],
            ) by {
                assert(s.drop_last()[i] == s[i]);
            }
            assert forall|i: int| 0 <= i < e.len() implies !is_mark(#[trigger] e[i]) by {
                if i < a.len() {
                    assert(e[i] == a[i]);
                } else {
                    assert(e[i] == b[i - a.len()]);
                }
            }
            assert forall|i: int| 0 <= i < e.len() && #[trigger] e[i] == '&' implies i + 1 < e.len()
                && e[i + 1] != 'g' by {
                if i < a.len() {
                    assert(e[i] == a[i]);
                    assert(e[i + 1] == a[i + 1]);
                } else {
                    assert(e[i] == b[i - a.len()]);
                    assert(b[0] == '&');
                    assert(e[i + 1] == b[1]);
                }
            }
        }
        if free_of(s, '\n') {
            assert(s[s.len() - 1] != '\n');
            assert forall|i: int| 0 <= i < s.drop_last().len() implies #[trigger] s.drop_last()[i]
                != '\n' by {
                assert(s.drop_last()[i] == s[i]);
            }
            assert forall|i: int| 0 <= i < e.len() implies #[trigger] e[i] != '\n' by {
                if i < a.len() {
                    assert(e[i] == a[i]);
                } else {
                    assert(e[i] == b[i - a.len()]);
                }
            }
        }
    }
}

/// What is left of a line without the white space at its start is its end.
proof fn trimmed_start_is_the_end(s: Seq<char>) -> (i: int)
    ensures
        0 <= i <= s.len(),
        trimmed_start(s) == s.skip(i),
    decreases s.len(),
{
    if s.len() > 0 && is_ws(s[0]) {
        let i = trimmed_start_is_the_end(s.drop_first());
        assert(s.drop_first().skip(i) =~= s.skip(i + 1));
        i + 1
    } else {
        assert(s.skip(0) =~= s);
        0
    }
}

/// A line that holds no escaped `>` quotes nothing.
proof fn quoteless_line(s: Seq<char>, i: int, n: int)
    requires
        quoteless(s),
        0 <= i <= i + n <= s.len(),
    ensures
        quoted_in(s.subrange(i, i + n)) is None,
{
    reveal_strlit("&gt; ");
    reveal_strlit("&gt;");
    let line = s.subrange(i, i + n);
    let k = trimmed_start_is_the_end(line);
    let t = trimmed_start(line);
    if begins(t, "&gt; "@) {
        assert(t.take(5)[0] == '&');
        assert(t.take(5)[1] == 'g');
        assert(s[i + k] == t[0]);
        assert(s[i + k + 1] == t[1]);
    }
    if t == "&gt;"@ {
        assert(t[0] == '&');
        assert(t[1] == 'g');
        assert(s[i + k] == t[0]);
        assert(s[i + k + 1] == t[1]);
    }
}

proof fn quoting_nothing(lines: Seq<Seq<char>>)
    requires
        forall|k: int| 0 <= k < lines.len() ==> quoted_in(#[trigger] lines[k]) is None,
    ensures
        quoting(lines) == (QuotingV { done: lines, quote: Seq::empty() }),
    decreases lines.len(),
{
    if lines.len() > 0 {
        assert forall|k: int| 0 <= k < lines.drop_last().len() implies quoted_in(
            #[trigger] lines.drop_last()[k],
        ) is None by {
            assert(lines.drop_last()[k] == lines[k]);
        }
        quoting_nothing(lines.drop_last());
        assert(quoted_in(lines[lines.len() - 1]) is None);
        assert(lines.drop_last().push(lines.last()) =~= lines);
    }
}

/// A text that quotes nothing stays as it is.
pub proof fn no_quotes_to_merge(s: Seq<char>)
    requires
        quoteless(s),
    ensures
        with_quotes(s) == s,
{
    reveal_strlit("\n");
    let lines = pieces_of(s, '\n');
    assert forall|k: int| 0 <= k < lines.len() implies quoted_in(#[trigger] lines[k]) is None by {
        let i = pieces_lie_within(s, '\n', k);
        quoteless_line(s, i, lines[k].len() as int);
    }
    quoting_nothing(lines);
    pieces_join_back(s, '\n');
    assert("\n"@ =~= seq!['\n']);
}

/// A line that begins with an escaped `>` is a quote of the rest of it.
pub proof fn quoted_line_is_a_quote(t: Seq<char>)
    requires
        free_of(t, '\n'),
    ensures
        with_quotes(escaped("> "@ + t)) == "<blockquote>"@ + escaped(t) + "</blockquote>"@,
{
    reveal_strlit("&gt; ");
    reveal_strlit("&gt;");
    reveal_strlit("> ");
    reveal_strlit("\n");
    escaped_add("> "@, t);
    escaped_is_calm(t);
    let lead = escaped("> "@);
    assert("> "@.drop_last() =~= seq!['>']);
    assert(seq!['>'].drop_last() =~= Seq::<char>::empty());
    reveal_with_fuel(escaped, 3);
    assert(lead =~= "&gt; "@);
    let s = lead + escaped(t);
    assert(escaped("> "@ + t) == s);
    assert forall|i: int| 0 <= i < s.len() implies #[trigger] s[i] != '\n' by {
        if i >= lead.len() {
            assert(s[i] == escaped(t)[i - lead.len()]);
        }
    }
    first_at_from_is_first(s, seq!['\n'], 0);
    match first_at(s, seq!['\n']) {
        Some(i) => {
            assert(s.subrange(i, i + 1)[0] == s[i]);
        },
        None => {},
    }
    let lines = pieces_of(s, '\n');
    assert(lines == seq![s]);
    assert(!is_ws(s[0]));
    assert(trimmed_start(s) == s);
    assert(s.take(5) =~= "&gt; "@);
    assert(s.skip(5) =~= escaped(t));
    assert(quoted_in(s) == Some(escaped(t)));
    assert(lines.drop_last() =~= Seq::<Seq<char>>::empty());
    assert(quoting(lines.drop_last()) == (QuotingV { done: Seq::empty(), quote: Seq::empty() }));
    let q = quoting(lines);
    assert(q.quote =~= seq![escaped(t)]);
    assert(joined(q.quote, "\n"@) == escaped(t));
    let c = closed(q);
    assert(c =~= seq!["<blockquote>"@ + escaped(t) + "</blockquote>"@]);
}

/// Marks around words, and what they stand for.
pub enum Style {
    Spoiler,
    BoldItalic,
    Bold,
    BoldUnderscore,
    Italic,
    ItalicUnderscore,
    Strike,
}

/// What words in a style have before and after them.
pub open spec fn style_mark(style: Style) -> Seq<char> {
    match style {
        Style::Spoiler => "||"@,
        Style::BoldItalic => "***"@,
        Style::Bold => "**"@,
        Style::BoldUnderscore => "__"@,
        Style::Italic => "*"@,
        Style::ItalicUnderscore => "_"@,
        Style::Strike => "~~"@,
    }
}

/// What words in a style are in HTML.
pub open spec fn styled(style: Style, words: Seq<char>) -> Seq<char> {
    match style {
        Style::Spoiler => "<tg-spoiler>"@ + words + "</tg-spoiler>"@,
        Style::BoldItalic => "<b><i>"@ + words + "</i></b>"@,
        Style::Bold => "<b>"@ + words + "</b>"@,
        Style::BoldUnderscore => "<b>"@ + words + "</b>"@,
        Style::Italic => "<i>"@ + words + "</i>"@,
        Style::ItalicUnderscore => "<i>"@ + words + "</i>"@,
        Style::Strike => "<s>"@ + words + "</s>"@,
    }
}

/// Words that marks can be put around: on one line, without marks, and without white space at
/// either end.
pub open spec fn wordy(words: Seq<char>) -> bool {
    &&& words.len() > 0
    &&& plain(words)
    &&& free_of(words, '\n')
    &&& !is_ws(words[0])
    &&& !is_ws(words.last())
}

/// A text with words in a style.
pub open spec fn with_style(
    style: Style,
    before: Seq<char>,
    words: Seq<char>,
    after: Seq<char>,
) -> Seq<char> {
    before + style_mark(style) + words + style_mark(style) + after
}

/// A mark is one character, once, twice or three times.
proof fn style_mark_is_a_run(style: Style) -> (c: char)
    ensures
        is_mark(c),
        c != '-' && c != '>' && c != '#' && c != '[' && c != '`' && c != '\0',
        1 <= style_mark(style).len() <= 3,
        forall|i: int| 0 <= i < style_mark(style).len() ==> #[trigger] style_mark(style)[i] == c,
        match style {
            Style::Spoiler => c == '|' && style_mark(style).len() == 2,
            Style::BoldItalic => c == '*' && style_mark(style).len() == 3,
            Style::Bold => c == '*' && style_mark(style).len() == 2,
            Style::BoldUnderscore => c == '_' && style_mark(style).len() == 2,
            Style::Italic => c == '*' && style_mark(style).len() == 1,
            Style::ItalicUnderscore => c == '_' && style_mark(style).len() == 1,
            Style::Strike => c == '~' && style_mark(style).len() == 2,
        },
{
    reveal_strlit("||");
    reveal_strlit("***");
    reveal_strlit("**");
    reveal_strlit("__");
    reveal_strlit("*");
    reveal_strlit("_");
    reveal_strlit("~~");
    match style {
        Style::Spoiler => '|',
        Style::BoldItalic => '*',
        Style::Bold => '*',
        Style::BoldUnderscore => '_',
        Style::Italic => '*',
        Style::ItalicUnderscore => '_',
        Style::Strike => '~',
    }
}

/// Where the character of a text with words in a style comes from.
proof fn with_style_at(style: Style, c: char, before: Seq<char>, words: Seq<char>, after: Seq<char>, i: int)
    requires
        0 <= i < with_style(style, before, words, after).len(),
        forall|k: int| 0 <= k < style_mark(style).len() ==> #[trigger] style_mark(style)[k] == c,
    ensures
        ({
            let s = with_style(style, before, words, after);
            let n = before.len();
            let m = style_mark(style).len();
            let w = words.len();
            &&& s.len() == n + m + w + m + after.len()
            &&& i < n ==> s[i] == before[i]
            &&& n <= i < n + m ==> s[i] == c
            &&& n + m <= i < n + m + w ==> s[i] == words[i - n - m]
            &&& n + m + w <= i < n + m + w + m ==> s[i] == c
            &&& n + m + w + m <= i ==> s[i] == after[i - n - m - w - m]
        }),
{
    let s = with_style(style, before, words, after);
    let n = before.len();
    let m = style_mark(style).len();
    let w = words.len();
    if n <= i < n + m {
        assert(s[i] == style_mark(style)[i - n]);
    }
    if n + m + w <= i < n + m + w + m {
        assert(s[i] == style_mark(style)[i - n - m - w]);
    }
}

/// Marks around words make no line, no heading, no quote and no item of a list.
#[verifier::rlimit(40)]
proof fn styled_words_stay_on_their_line(
    style: Style,
    before: Seq<char>,
    words: Seq<char>,
    after: Seq<char>,
)
    requires
        plain(before),
        wordy(words),
        plain(after),
    ensures
        ({
            let s = with_style(style, before, words, after);
            &&& no_rule(s)
            &&& no_bullet(s)
            &&& free_of(s, '#')
            &&& free_of(s, '[')
            &&& free_of(s, '`')
            &&& free_of(s, '\0')
        }),
        quoteless(before) && quoteless(words) && quoteless(after) ==> quoteless(
            with_style(style, before, words, after),
        ),
{
    let c = style_mark_is_a_run(style);
    let s = with_style(style, before, words, after);
    let n = before.len() as int;
    let m = style_mark(style).len() as int;
    let w = words.len() as int;
    assert forall|i: int| 0 <= i < s.len() implies #[trigger] s[i] == c || !is_mark(s[i]) by {
        with_style_at(style, c, before, words, after, i);
    }
    assert forall|i: int|
        0 <= i < s.len() && is_rule_mark(#[trigger] s[i]) && (i == 0 || s[i - 1] == '\n') implies exists|
        j: int,
    |
        #![trigger s[j]]
        i < j < s.len() && !is_rule_mark(s[j]) && !is_ws(s[j]) && free_of(s.subrange(i, j), '\n') by {
        with_style_at(style, c, before, words, after, i);
        if i > 0 {
            with_style_at(style, c, before, words, after, i - 1);
        }
        assert(i == n);
        let j = n + m;
        with_style_at(style, c, before, words, after, j);
        assert(s[j] == words[0]);
        assert forall|k: int| 0 <= k < s.subrange(i, j).len() implies #[trigger] s.subrange(i, j)[k]
            != '\n' by {
            with_style_at(style, c, before, words, after, i + k);
        }
    }
    assert forall|i: int| 0 <= i < s.len() && (#[trigger] s[i] == '*' || s[i] == '-') implies ({
        ||| i + 1 == s.len()
        ||| !is_ws(s[i + 1])
        ||| i > 0 && !is_ws(s[i - 1])
    }) by {
        with_style_at(style, c, before, words, after, i);
        if i + 1 < s.len() {
            with_style_at(style, c, before, words, after, i + 1);
        }
        if i > 0 {
            with_style_at(style, c, before, words, after, i - 1);
        }
        if n <= i < n + m {
            assert(i + 1 == n + m ==> s[i + 1] == words[0]);
        } else {
            assert(i == n + m + w ==> s[i - 1] == words[w - 1]);
        }
    }
    if quoteless(before) && quoteless(words) && quoteless(after) {
        assert forall|i: int| 0 <= i < s.len() && #[trigger] s[i] == '&' implies i + 1 < s.len() && s[i
            + 1] != 'g' by {
            with_style_at(style, c, before, words, after, i);
            if i < n {
                assert(before[i] == '&');
            } else if n + m <= i < n + m + w {
                assert(words[i - n - m] == '&');
            } else {
                assert(after[i - n - m - w - m] == '&');
            }
            with_style_at(style, c, before, words, after, i + 1);
        }
    }
}

// ---------------------------------------------------------------------------------------------
// All rules
// ---------------------------------------------------------------------------------------------

/// The text with the first `k` placeholders replaced by their HTML, in order.
pub open spec fn restored(text: Seq<char>, htmls: Seq<Seq<char>>, k: int) -> Seq<char>
    decreases k,
{
    if k <= 0 {
        text
    } else {
        replaced(restored(text, htmls, k - 1), placeholder((k - 1) as nat), htmls[k - 1])
    }
}

/// The text with the placeholders replaced by their HTML, in order.
pub fn restore_marks(text: String, htmls: &Vec<String>) -> (r: String)
    ensures
        r@ == restored(text@, texts(htmls@), htmls@.len() as int),
{
    let ghost all = texts(htmls@);
    let ghost start = text@;
    let mut r: String = text;
    let mut k: usize = 0;
    while k < htmls.len()
        invariant
            k <= htmls@.len(),
            all == texts(htmls@),
            r@ == restored(start, all, k as int),
        decreases htmls@.len() - k,
    {
        assert(all[k as int] == htmls@[k as int]@);
        let p: String = placeholder_text(k);
        r = replace(r.as_str(), p.as_str(), htmls[k].as_str());
        k = k + 1;
    }
    r
}

/// What is left of the text after a pattern is replaced.
pub open spec fn swapped(pattern: Seq<char>, text: Seq<char>, template: Seq<char>) -> Seq<char> {
    pattern_replaced(pattern, text, template)->0
}

fn swap(pattern: &str, text: &str, template: &str) -> (r: String)
    requires
        is_fixed_pattern(pattern@),
    ensures
        r@ == swapped(pattern@, text@, template@),
        replaced_right(pattern@, text@, template@, Some(r@)),
{
    replace_matches(pattern, text, template).unwrap()
}

/// The text with code and links out of the way, in this order: blocks of code, code within a
/// line, links.
pub open spec fn aside(text: Seq<char>) -> MarkedV {
    let a = MarkedV { text: text, htmls: Seq::empty() };
    let b = put_aside(a, Mark::Block, CODE_BLOCK@);
    let c = put_aside(b, Mark::Inline, INLINE_CODE@);
    put_aside(c, Mark::Link, LINK@)
}

/// The rules on lines.
pub open spec fn line_styled(text: Seq<char>) -> Seq<char> {
    let a = swapped(RULE_LINE@, text, "———"@);
    let b = swapped(HEADER@, a, "<b>$1</b>"@);
    let c = with_quotes(b);
    swapped(BULLET@, c, "$1• "@)
}

/// The rules on words.
pub open spec fn word_styled(text: Seq<char>) -> Seq<char> {
    let a = swapped(SPOILER@, text, "<tg-spoiler>$1</tg-spoiler>"@);
    let b = swapped(BOLD_ITALIC@, a, "<b><i>$1</i></b>"@);
    let c = swapped(BOLD@, b, "<b>$1</b>"@);
    let d = swapped(BOLD_UNDERSCORE@, c, "<b>$1</b>"@);
    let e = swapped(ITALIC@, d, "<i>$1</i>"@);
    let f = swapped(ITALIC_UNDERSCORE@, e, "<i>$1</i>"@);
    swapped(STRIKE@, f, "<s>$1</s>"@)
}

/// Markdown as the HTML that Telegram takes.
pub open spec fn telegram_html(text: Seq<char>) -> Seq<char> {
    if text.len() == 0 {
        text
    } else {
        let m = aside(text);
        restored(word_styled(line_styled(escaped(m.text))), m.htmls, m.htmls.len() as int)
    }
}

proof fn free_means_no_run(s: Seq<char>, c: char, n: nat)
    requires
        free_of(s, c),
        n > 0,
    ensures
        no_run(s, c, n),
{
    assert forall|i: int| 0 <= i && i + n <= s.len() implies #[trigger] broken_run(s, c, i, n) by {
        assert(s[i] != c);
    }
}

/// What the rules on lines make of a text, step by step.
pub open spec fn line_steps(
    text: Seq<char>,
    a: Seq<char>,
    b: Seq<char>,
    c: Seq<char>,
    d: Seq<char>,
) -> bool {
    &&& replaced_right(RULE_LINE@, text, "———"@, Some(a))
    &&& replaced_right(HEADER@, a, "<b>$1</b>"@, Some(b))
    &&& c == with_quotes(b)
    &&& replaced_right(BULLET@, c, "$1• "@, Some(d))
}

/// A text that has nothing for the rules on lines stays as it is.
proof fn lines_stay(text: Seq<char>, a: Seq<char>, b: Seq<char>, c: Seq<char>, d: Seq<char>)
    requires
        line_steps(text, a, b, c, d),
        no_rule(text),
        free_of(text, '#'),
        quoteless(text),
        no_bullet(text),
    ensures
        d == text,
{
    no_quotes_to_merge(text);
}

proof fn plain_has_no_lines(s: Seq<char>)
    requires
        forall|i: int| 0 <= i < s.len() ==> !is_rule_mark(#[trigger] s[i]),
    ensures
        no_rule(s),
        no_bullet(s),
{
}

proof fn quoteless_add(a: Seq<char>, b: Seq<char>)
    requires
        quoteless(a),
        quoteless(b),
    ensures
        quoteless(a + b),
{
    let s = a + b;
    assert forall|i: int| 0 <= i < s.len() && #[trigger] s[i] == '&' implies i + 1 < s.len() && s[i
        + 1] != 'g' by {
        if i < a.len() {
            assert(a[i] == '&');
            assert(s[i + 1] == a[i + 1]);
        } else {
            assert(b[i - a.len()] == '&');
            assert(s[i + 1] == b[i + 1 - a.len()]);
        }
    }
}

/// A heading becomes bold.
#[verifier::rlimit(40)]
proof fn heading_steps(
    before: Seq<char>,
    found: Seq<char>,
    title: Seq<char>,
    after: Seq<char>,
    a: Seq<char>,
    b: Seq<char>,
    c: Seq<char>,
    d: Seq<char>,
)
    requires
        line_steps(before + found + after, a, b, c, d),
        title_line(before, found, title, after),
        plain(before) && plain(title) && plain(after),
        quoteless(before) && quoteless(title) && quoteless(after),
    ensures
        d == before + "<b>"@ + title + "</b>"@ + after,
{
    reveal_strlit("<b>$1</b>");
    reveal_strlit("<b>");
    reveal_strlit("</b>");
    reveal_strlit("$1");
    let text = before + found + after;
    let lead = choose|lead: Seq<char>| #[trigger] heads(lead) && found == lead + title;
    assert forall|i: int| 0 <= i < lead.len() implies !is_rule_mark(#[trigger] lead[i]) by {}
    assert forall|i: int| 0 <= i < text.len() implies !is_rule_mark(#[trigger] text[i]) by {
        if i < before.len() {
            assert(text[i] == before[i]);
        } else if i < before.len() + lead.len() {
            assert(text[i] == lead[i - before.len()]);
        } else if i < before.len() + found.len() {
            assert(text[i] == title[i - before.len() - lead.len()]);
        } else {
            assert(text[i] == after[i - before.len() - found.len()]);
        }
    }
    plain_has_no_lines(text);
    assert(lacks(RULE_LINE@, text));
    assert(a == text);
    assert("<b>$1</b>"@ =~= "<b>"@ + "$1"@ + "</b>"@);
    assert(around_group("<b>$1</b>"@, "<b>"@, "</b>"@));
    assert(sole_match(HEADER@, before, found, title, after));
    let x = before + "<b>"@ + title + "</b>"@ + after;
    assert(b == x);
    assert(quoteless("<b>"@) && quoteless("</b>"@));
    quoteless_add(before, "<b>"@);
    quoteless_add(before + "<b>"@, title);
    quoteless_add(before + "<b>"@ + title, "</b>"@);
    quoteless_add(before + "<b>"@ + title + "</b>"@, after);
    no_quotes_to_merge(x);
    assert forall|i: int| 0 <= i < x.len() implies !is_rule_mark(#[trigger] x[i]) by {
        let n = before.len();
        if i < n {
            assert(x[i] == before[i]);
        } else if i < n + 3 {
            assert(x[i] == "<b>"@[i - n]);
        } else if i < n + 3 + title.len() {
            assert(x[i] == title[i - n - 3]);
        } else if i < n + 7 + title.len() {
            assert(x[i] == "</b>"@[i - n - 3 - title.len()]);
        } else {
            assert(x[i] == after[i - n - 7 - title.len()]);
        }
    }
    plain_has_no_lines(x);
    assert(lacks(BULLET@, x));
}

/// A line of marks becomes a line of dashes.
proof fn rule_steps(
    before: Seq<char>,
    found: Seq<char>,
    after: Seq<char>,
    a: Seq<char>,
    b: Seq<char>,
    c: Seq<char>,
    d: Seq<char>,
)
    requires
        line_steps(before + found + after, a, b, c, d),
        sole_mark(RULE_LINE@, before, found, after),
        plain(before) && plain(after),
        quoteless(before) && quoteless(after),
    ensures
        d == before + "———"@ + after,
{
    reveal_strlit("———");
    let x = before + "———"@ + after;
    assert(a == x);
    assert forall|i: int| 0 <= i < x.len() implies !is_mark(#[trigger] x[i]) by {
        if i < before.len() {
            assert(x[i] == before[i]);
        } else if i >= before.len() + 3 {
            assert(x[i] == after[i - before.len() - 3]);
        }
    }
    assert(quoteless("———"@));
    quoteless_add(before, "———"@);
    quoteless_add(before + "———"@, after);
    plain_has_no_lines(x);
    no_quotes_to_merge(x);
    assert(lacks(HEADER@, x));
    assert(lacks(BULLET@, x));
}

/// The mark of a list becomes a bullet.
#[verifier::rlimit(40)]
proof fn item_steps(
    before: Seq<char>,
    found: Seq<char>,
    indent: Seq<char>,
    after: Seq<char>,
    a: Seq<char>,
    b: Seq<char>,
    c: Seq<char>,
    d: Seq<char>,
)
    requires
        line_steps(before + found + after, a, b, c, d),
        list_item(before, found, indent, after),
        plain(before) && plain(after),
        quoteless(before) && quoteless(after),
    ensures
        d == before + indent + "• "@ + after,
{
    reveal_strlit("$1• ");
    reveal_strlit("• ");
    reveal_strlit("$1");
    reveal_strlit("* ");
    reveal_strlit("- ");
    let text = before + found + after;
    let n = before.len() as int;
    let m = indent.len() as int;
    assert(found.len() == m + 2);
    assert(found[m] == '*' || found[m] == '-');
    assert(found[m + 1] == ' ');
    assert forall|i: int| 0 <= i < m implies #[trigger] found[i] == ' ' by {
        assert(found[i] == indent[i]);
    }
    assert forall|i: int| 0 <= i < text.len() implies (i == n + m || !is_mark(#[trigger] text[i])) by {
        if i < n {
            assert(text[i] == before[i]);
        } else if i < n + m + 2 {
            assert(text[i] == found[i - n]);
        } else {
            assert(text[i] == after[i - n - m - 2]);
        }
    }
    assert(text[n + m] == found[m]);
    assert(text[n + m + 1] == ' ');
    assert(text[n + m + 2] == after[0]);
    assert(no_rule(text)) by {
        assert forall|i: int|
            0 <= i < text.len() && is_rule_mark(#[trigger] text[i]) && (i == 0 || text[i - 1] == '\n') implies exists|
            j: int,
        |
            #![trigger text[j]]
            i < j < text.len() && !is_rule_mark(text[j]) && !is_ws(text[j]) && free_of(
                text.subrange(i, j),
                '\n',
            ) by {
            assert(i == n + m);
            let j = n + m + 2;
            assert(!is_rule_mark(text[j]) && !is_ws(text[j]));
            assert forall|k: int| 0 <= k < 2 implies #[trigger] text.subrange(i, j)[k] != '\n' by {
                assert(text.subrange(i, j)[k] == text[i + k]);
            }
        }
    }
    assert(lacks(RULE_LINE@, text));
    assert forall|i: int| 0 <= i < text.len() implies #[trigger] text[i] != '#' by {}
    assert(lacks(HEADER@, text));
    assert(quoteless(found)) by {
        assert forall|i: int| 0 <= i < found.len() implies #[trigger] found[i] != '&' by {}
    }
    quoteless_add(before, found);
    quoteless_add(before + found, after);
    no_quotes_to_merge(text);
    assert("$1• "@ =~= Seq::<char>::empty() + "$1"@ + "• "@);
    assert(around_group("$1• "@, Seq::<char>::empty(), "• "@));
    assert(sole_match(BULLET@, before, found, indent, after));
    assert(before + Seq::<char>::empty() + indent + "• "@ + after =~= before + indent + "• "@ + after);
}

/// What the rules on words make of a text, step by step.
pub open spec fn word_steps(
    text: Seq<char>,
    a: Seq<char>,
    b: Seq<char>,
    c: Seq<char>,
    d: Seq<char>,
    e: Seq<char>,
    f: Seq<char>,
    g: Seq<char>,
) -> bool {
    &&& replaced_right(SPOILER@, text, "<tg-spoiler>$1</tg-spoiler>"@, Some(a))
    &&& replaced_right(BOLD_ITALIC@, a, "<b><i>$1</i></b>"@, Some(b))
    &&& replaced_right(BOLD@, b, "<b>$1</b>"@, Some(c))
    &&& replaced_right(BOLD_UNDERSCORE@, c, "<b>$1</b>"@, Some(d))
    &&& replaced_right(ITALIC@, d, "<i>$1</i>"@, Some(e))
    &&& replaced_right(ITALIC_UNDERSCORE@, e, "<i>$1</i>"@, Some(f))
    &&& replaced_right(STRIKE@, f, "<s>$1</s>"@, Some(g))
}

/// Whether a text has nothing for the rules on words.
pub open spec fn wordless(s: Seq<char>) -> bool {
    free_of(s, '|') && free_of(s, '*') && free_of(s, '_') && free_of(s, '~')
}

proof fn wordless_lacks(s: Seq<char>)
    requires
        wordless(s),
    ensures
        lacks(SPOILER@, s),
        lacks(BOLD_ITALIC@, s),
        lacks(BOLD@, s),
        lacks(BOLD_UNDERSCORE@, s),
        lacks(ITALIC@, s),
        lacks(ITALIC_UNDERSCORE@, s),
        lacks(STRIKE@, s),
{
    free_means_no_run(s, '|', 2);
    free_means_no_run(s, '*', 2);
    free_means_no_run(s, '*', 3);
    free_means_no_run(s, '_', 2);
    free_means_no_run(s, '~', 2);
}

/// A text that has nothing for the rules on words stays as it is.
proof fn words_stay(
    text: Seq<char>,
    a: Seq<char>,
    b: Seq<char>,
    c: Seq<char>,
    d: Seq<char>,
    e: Seq<char>,
    f: Seq<char>,
    g: Seq<char>,
)
    requires
        word_steps(text, a, b, c, d, e, f, g),
        wordless(text),
    ensures
        g == text,
{
    wordless_lacks(text);
}

/// Which of the rules on words find nothing in a text with words in a style.
#[verifier::rlimit(40)]
proof fn other_styles_find_nothing(
    style: Style,
    before: Seq<char>,
    words: Seq<char>,
    after: Seq<char>,
)
    requires
        plain(before),
        wordy(words),
        plain(after),
    ensures
        ({
            let s = with_style(style, before, words, after);
            &&& style != Style::Spoiler ==> lacks(SPOILER@, s)
            &&& style != Style::BoldItalic ==> lacks(BOLD_ITALIC@, s)
            &&& style != Style::BoldItalic && style != Style::Bold ==> lacks(BOLD@, s)
            &&& style != Style::BoldUnderscore ==> lacks(BOLD_UNDERSCORE@, s)
            &&& style != Style::BoldItalic && style != Style::Bold && style != Style::Italic ==> lacks(
                ITALIC@,
                s,
            )
            &&& style != Style::BoldUnderscore && style != Style::ItalicUnderscore ==> lacks(
                ITALIC_UNDERSCORE@,
                s,
            )
            &&& style != Style::Strike ==> lacks(STRIKE@, s)
        }),
{
    let c = style_mark_is_a_run(style);
    let s = with_style(style, before, words, after);
    let m = style_mark(style).len() as int;
    assert forall|i: int| 0 <= i < s.len() implies #[trigger] s[i] == c || !is_mark(s[i]) by {
        with_style_at(style, c, before, words, after, i);
    }
    assert forall|o: char| is_mark(o) && o != c implies #[trigger] free_of(s, o) by {}
    if c != '|' {
        free_means_no_run(s, '|', 2);
    }
    if c != '*' {
        free_means_no_run(s, '*', 2);
        free_means_no_run(s, '*', 3);
    }
    if c != '_' {
        free_means_no_run(s, '_', 2);
    }
    if c != '~' {
        free_means_no_run(s, '~', 2);
    }
    let k = (m + 1) as nat;
    assert forall|i: int| 0 <= i && i + k <= s.len() implies #[trigger] broken_run(s, c, i, k) by {
        let n = before.len() as int;
        let w = words.len() as int;
        with_style_at(style, c, before, words, after, i);
        with_style_at(style, c, before, words, after, i + m);
        if s[i] == c && s[i + m] == c {
            assert(n <= i < n + m || n + m + w <= i < n + m + w + m);
            assert(n <= i < n + m);
            with_style_at(style, c, before, words, after, n + m);
            assert(!is_mark(words[0]));
            assert(s[n + m] != c);
        }
    }
    assert(no_run(s, c, k));
    if m == 1 && c == '*' {
        assert forall|i: int| 0 <= i && i + 3 <= s.len() implies #[trigger] broken_run(s, c, i, 3) by {
            assert(broken_run(s, c, i, 2));
            let j = choose|j: int| i <= j < i + 2 && #[trigger] s[j] != c;
            assert(s[j] != c);
        }
    }
}

proof fn styled_is_wordless(style: Style, before: Seq<char>, words: Seq<char>, after: Seq<char>)
    requires
        plain(before),
        plain(words),
        plain(after),
    ensures
        wordless(before + styled(style, words) + after),
{
    reveal_strlit("<b>");
    reveal_strlit("</b>");
    reveal_strlit("<tg-spoiler>");
    reveal_strlit("</tg-spoiler>");
    reveal_strlit("<b><i>");
    reveal_strlit("</i></b>");
    reveal_strlit("<i>");
    reveal_strlit("</i>");
    reveal_strlit("<s>");
    reveal_strlit("</s>");
    let h = styled(style, words);
    assert forall|i: int| 0 <= i < h.len() implies (#[trigger] h[i] != '|' && h[i] != '*' && h[i] != '_'
        && h[i] != '~') by {
        let (o, c) = match style {
            Style::Spoiler => ("<tg-spoiler>"@, "</tg-spoiler>"@),
            Style::BoldItalic => ("<b><i>"@, "</i></b>"@),
            Style::Bold => ("<b>"@, "</b>"@),
            Style::BoldUnderscore => ("<b>"@, "</b>"@),
            Style::Italic => ("<i>"@, "</i>"@),
            Style::ItalicUnderscore => ("<i>"@, "</i>"@),
            Style::Strike => ("<s>"@, "</s>"@),
        };
        assert(h == o + words + c);
        if i < o.len() {
            assert(h[i] == o[i]);
        } else if i < o.len() + words.len() {
            assert(h[i] == words[i - o.len()]);
        } else {
            assert(h[i] == c[i - o.len() - words.len()]);
        }
    }
    let x = before + h + after;
    assert forall|i: int| 0 <= i < x.len() implies (#[trigger] x[i] != '|' && x[i] != '*' && x[i] != '_'
        && x[i] != '~') by {
        if i < before.len() {
            assert(x[i] == before[i]);
        } else if i < before.len() + h.len() {
            assert(x[i] == h[i - before.len()]);
        } else {
            assert(x[i] == after[i - before.len() - h.len()]);
        }
    }
}

/// Words in a style are put into its element.
#[verifier::rlimit(40)]
proof fn style_steps(
    style: Style,
    before: Seq<char>,
    words: Seq<char>,
    after: Seq<char>,
    a: Seq<char>,
    b: Seq<char>,
    c: Seq<char>,
    d: Seq<char>,
    e: Seq<char>,
    f: Seq<char>,
    g: Seq<char>,
)
    requires
        word_steps(with_style(style, before, words, after), a, b, c, d, e, f, g),
        plain(before),
        wordy(words),
        plain(after),
    ensures
        g == before + styled(style, words) + after,
{
    let s = with_style(style, before, words, after);
    let x = before + styled(style, words) + after;
    let found = style_mark(style) + words + style_mark(style);
    let m = style_mark_is_a_run(style);
    assert(s =~= before + found + after);
    assert(enclosed(style_mark(style), m, before, found, words, after)) by {
        assert forall|i: int| 0 <= i < words.len() implies #[trigger] words[i] != m by {}
    }
    other_styles_find_nothing(style, before, words, after);
    styled_is_wordless(style, before, words, after);
    wordless_lacks(x);
    reveal_strlit("<b>$1</b>");
    reveal_strlit("<b>");
    reveal_strlit("</b>");
    reveal_strlit("$1");
    reveal_strlit("<tg-spoiler>$1</tg-spoiler>");
    reveal_strlit("<tg-spoiler>");
    reveal_strlit("</tg-spoiler>");
    reveal_strlit("<b><i>$1</i></b>");
    reveal_strlit("<b><i>");
    reveal_strlit("</i></b>");
    reveal_strlit("<i>$1</i>");
    reveal_strlit("<i>");
    reveal_strlit("</i>");
    reveal_strlit("<s>$1</s>");
    reveal_strlit("<s>");
    reveal_strlit("</s>");
    match style {
        Style::Spoiler => {
            assert("<tg-spoiler>$1</tg-spoiler>"@ =~= "<tg-spoiler>"@ + "$1"@ + "</tg-spoiler>"@);
            assert(around_group("<tg-spoiler>$1</tg-spoiler>"@, "<tg-spoiler>"@, "</tg-spoiler>"@));
            assert(sole_match(SPOILER@, before, found, words, after));
            assert(before + "<tg-spoiler>"@ + words + "</tg-spoiler>"@ + after =~= x);
        },
        Style::BoldItalic => {
            assert("<b><i>$1</i></b>"@ =~= "<b><i>"@ + "$1"@ + "</i></b>"@);
            assert(around_group("<b><i>$1</i></b>"@, "<b><i>"@, "</i></b>"@));
            assert(sole_match(BOLD_ITALIC@, before, found, words, after));
            assert(before + "<b><i>"@ + words + "</i></b>"@ + after =~= x);
        },
        Style::Bold => {
            assert("<b>$1</b>"@ =~= "<b>"@ + "$1"@ + "</b>"@);
            assert(around_group("<b>$1</b>"@, "<b>"@, "</b>"@));
            assert(sole_match(BOLD@, before, found, words, after));
            assert(before + "<b>"@ + words + "</b>"@ + after =~= x);
        },
        Style::BoldUnderscore => {
            assert("<b>$1</b>"@ =~= "<b>"@ + "$1"@ + "</b>"@);
            assert(around_group("<b>$1</b>"@, "<b>"@, "</b>"@));
            assert(sole_match(BOLD_UNDERSCORE@, before, found, words, after));
            assert(before + "<b>"@ + words + "</b>"@ + after =~= x);
        },
        Style::Italic => {
            assert("<i>$1</i>"@ =~= "<i>"@ + "$1"@ + "</i>"@);
            assert(around_group("<i>$1</i>"@, "<i>"@, "</i>"@));
            assert(sole_match(ITALIC@, before, found, words, after));
            assert(before + "<i>"@ + words + "</i>"@ + after =~= x);
        },
        Style::ItalicUnderscore => {
            assert("<i>$1</i>"@ =~= "<i>"@ + "$1"@ + "</i>"@);
            assert(around_group("<i>$1</i>"@, "<i>"@, "</i>"@));
            assert(sole_match(ITALIC_UNDERSCORE@, before, found, words, after));
            assert(before + "<i>"@ + words + "</i>"@ + after =~= x);
        },
        Style::Strike => {
            assert("<s>$1</s>"@ =~= "<s>"@ + "$1"@ + "</s>"@);
            assert(around_group("<s>$1</s>"@, "<s>"@, "</s>"@));
            assert(sole_match(STRIKE@, before, found, words, after));
            assert(before + "<s>"@ + words + "</s>"@ + after =~= x);
        },
    }
}

// ---------------------------------------------------------------------------------------------
// What becomes of a text
// ---------------------------------------------------------------------------------------------

/// Where a pattern finds nothing, nothing is put aside.
proof fn put_aside_nothing(m: MarkedV, mark: Mark, pattern: Seq<char>)
    requires
        found_right(pattern, m.text, pattern_matches(pattern, m.text)),
        lacks(pattern, m.text),
    ensures
        put_aside(m, mark, pattern) == m,
{
    let ms = pattern_matches(pattern, m.text)->0;
    assert(ms.len() == 0);
    assert(marked_to(m.text, ms, 0, m.htmls.len()) =~= Seq::<char>::empty());
    assert(char_index(m.text, 0) == 0);
    assert(m.text.skip(0) =~= m.text);
    assert(marked(m.text, ms, m.htmls.len()) =~= m.text);
    assert(m.htmls + match_htmls(mark, m.text, ms) =~= m.htmls);
}

proof fn index_behind(before: Seq<char>, rest: Seq<char>)
    ensures
        char_index(before + rest, byte_len(before) as int) == before.len(),
{
    let s = before + rest;
    assert(s.take(before.len() as int) =~= before);
    char_index_of_start(s, before.len() as int);
}

/// The one thing that a pattern finds is put aside.
proof fn put_aside_one(
    m: MarkedV,
    mark: Mark,
    pattern: Seq<char>,
    before: Seq<char>,
    found: Seq<char>,
    after: Seq<char>,
)
    requires
        m.text == before + found + after,
        ({
            let ms = pattern_matches(pattern, m.text)->0;
            &&& ms.len() == 1
            &&& ms[0].len() > 0
            &&& is_span(ms[0][0], before, found)
        }),
    ensures
        put_aside(m, mark, pattern) == (MarkedV {
            text: before + placeholder(m.htmls.len()) + after,
            htmls: m.htmls.push(
                match_html(mark, m.text, (pattern_matches(pattern, m.text)->0)[0]),
            ),
        }),
{
    let ms = pattern_matches(pattern, m.text)->0;
    let s = m.text;
    let n = m.htmls.len();
    index_behind(before, found + after);
    assert(before + (found + after) =~= s);
    index_behind(before + found, after);
    reveal_with_fuel(marked_to, 2);
    assert(char_index(s, 0) == 0);
    assert(s.subrange(0, before.len() as int) =~= before);
    assert(marked_to(s, ms, 1, n) =~= before + placeholder(n));
    assert(s.skip((before + found).len() as int) =~= after);
    assert(marked(s, ms, n) =~= before + placeholder(n) + after);
    assert(m.htmls + match_htmls(mark, s, ms) =~= m.htmls.push(match_html(mark, s, ms[0])));
}

/// A group of a match is what stands where it is found.
proof fn group_is(
    s: Seq<char>,
    g: Seq<Option<(usize, usize)>>,
    k: int,
    before: Seq<char>,
    words: Seq<char>,
    rest: Seq<char>,
)
    requires
        s == before + words + rest,
        0 <= k < g.len(),
        is_span(g[k], before, words),
    ensures
        group(s, g, k) == words,
{
    index_behind(before, words + rest);
    assert(before + (words + rest) =~= s);
    index_behind(before + words, rest);
    assert(s.subrange(before.len() as int, (before + words).len() as int) =~= words);
}

proof fn first_placeholder()
    ensures
        placeholder(0) == seq!['\0', 'P', 'H', '0', '\0'],
{
    reveal_strlit("\0PH");
    reveal_strlit("\0");
    reveal_with_fuel(decimal, 2);
    assert(decimal(0) =~= seq!['0']);
    assert(placeholder(0) =~= seq!['\0', 'P', 'H', '0', '\0']);
}

/// What the marks around words, code, links and titles become, and that all else is kept: `r` is
/// the HTML for a text that is not empty.
pub open spec fn html_right(text: Seq<char>, r: Seq<char>) -> bool {
    &&& plain(text) ==> r == escaped(text)
    &&& forall|before: Seq<char>, found: Seq<char>, title: Seq<char>, after: Seq<char>|
        #[trigger] title_line(before, found, title, after) && text == before + found + after && plain(
            before,
        ) && plain(title) && plain(after) ==> r == escaped(before) + "<b>"@ + escaped(title)
            + "</b>"@ + escaped(after)
    &&& forall|before: Seq<char>, found: Seq<char>, after: Seq<char>|
        #[trigger] sole_mark(RULE_LINE@, before, found, after) && text == before + found + after
            && plain(before) && plain(after) ==> r == escaped(before) + "———"@ + escaped(after)
    &&& forall|before: Seq<char>, found: Seq<char>, indent: Seq<char>, after: Seq<char>|
        #[trigger] list_item(before, found, indent, after) && text == before + found + after && plain(
            before,
        ) && plain(after) ==> r == escaped(before) + indent + "• "@ + escaped(after)
    &&& forall|t: Seq<char>|
        text == "> "@ + t && #[trigger] plain(t) && free_of(t, '\n') ==> r == "<blockquote>"@
            + escaped(t) + "</blockquote>"@
    &&& forall|style: Style, before: Seq<char>, words: Seq<char>, after: Seq<char>|
        text == #[trigger] with_style(style, before, words, after) && plain(before) && wordy(words)
            && plain(after) ==> r == escaped(before) + styled(style, escaped(words)) + escaped(
            after,
        )
    &&& forall|before: Seq<char>, found: Seq<char>, code: Seq<char>, after: Seq<char>|
        #[trigger] enclosed("`"@, '`', before, found, code, after) && text == before + found + after
            && plain(before) && plain(after) ==> r == escaped(before) + "<code>"@ + escaped(code)
            + "</code>"@ + escaped(after)
    &&& forall|before: Seq<char>, label: Seq<char>, url: Seq<char>, after: Seq<char>|
        #[trigger] sole_link(before, label, url, after) && text == with_link(
            before,
            label,
            url,
            after,
        ) && plain(before) && plain(after) && free_of(label, '`') && free_of(url, '`') && free_of(
            url,
            '<',
        ) && free_of(url, '>') ==> r == escaped(before) + "<a href=\""@ + url + "\">"@ + escaped(
            label,
        ) + "</a>"@ + escaped(after)
    &&& forall|before: Seq<char>, lang: Seq<char>, code: Seq<char>, after: Seq<char>|
        #[trigger] sole_block(before, lang, code, after) && text == with_block(
            before,
            lang,
            code,
            after,
        ) && plain(before) && plain(after) ==> {
            &&& lang.len() == 0 ==> r == escaped(before) + "<pre>"@ + escaped(code) + "</pre>"@
                + escaped(after)
            &&& lang.len() > 0 ==> r == escaped(before) + "<pre><code class=\"language-"@ + lang
                + "\">"@ + escaped(code) + "</code></pre>"@ + escaped(after)
        }
}

/// The steps from a text to its HTML: `a`, `b` and `c` are what is left of it once blocks of code,
/// code within a line and links are put aside, `x` and `y` what the rules on lines and on words
/// make of that.
pub open spec fn html_steps(text: Seq<char>, x: Seq<char>, y: Seq<char>) -> bool {
    let a = MarkedV { text: text, htmls: Seq::empty() };
    let b = put_aside(a, Mark::Block, CODE_BLOCK@);
    let c = put_aside(b, Mark::Inline, INLINE_CODE@);
    let m = put_aside(c, Mark::Link, LINK@);
    &&& found_right(CODE_BLOCK@, a.text, pattern_matches(CODE_BLOCK@, a.text))
    &&& found_right(INLINE_CODE@, b.text, pattern_matches(INLINE_CODE@, b.text))
    &&& found_right(LINK@, c.text, pattern_matches(LINK@, c.text))
    &&& exists|p: Seq<char>, q: Seq<char>, r: Seq<char>| #[trigger]
        line_steps(escaped(m.text), p, q, r, x)
    &&& exists|
        p: Seq<char>,
        q: Seq<char>,
        r: Seq<char>,
        s: Seq<char>,
        t: Seq<char>,
        u: Seq<char>,
    | #[trigger] word_steps(x, p, q, r, s, t, u, y)
}

/// Where nothing is put aside, the HTML is what the rules on lines and on words make of the text.
proof fn nothing_aside(text: Seq<char>, x: Seq<char>, y: Seq<char>)
    requires
        html_steps(text, x, y),
        free_of(text, '`'),
        free_of(text, '['),
    ensures
        aside(text) == (MarkedV { text: text, htmls: Seq::empty() }),
        restored(y, aside(text).htmls, aside(text).htmls.len() as int) == y,
{
    let a = MarkedV { text: text, htmls: Seq::empty() };
    free_means_no_run(text, '`', 3);
    put_aside_nothing(a, Mark::Block, CODE_BLOCK@);
    put_aside_nothing(a, Mark::Inline, INLINE_CODE@);
    put_aside_nothing(a, Mark::Link, LINK@);
}

/// What the rules make of a text with one thing put aside: that thing, in its place.
#[verifier::rlimit(40)]
proof fn one_aside(
    before: Seq<char>,
    after: Seq<char>,
    html: Seq<char>,
    text: Seq<char>,
    x: Seq<char>,
    y: Seq<char>,
)
    requires
        html_steps(text, x, y),
        plain(before),
        plain(after),
        aside(text) == (MarkedV {
            text: before + placeholder(0) + after,
            htmls: seq![html],
        }),
    ensures
        restored(y, aside(text).htmls, aside(text).htmls.len() as int) == escaped(before) + html
            + escaped(after),
{
    first_placeholder();
    let h = placeholder(0);
    let s = before + h + after;
    escaped_add(before + h, after);
    escaped_add(before, h);
    escaped_nothing(h);
    let eb = escaped(before);
    let ea = escaped(after);
    let e = eb + h + ea;
    assert(escaped(s) == e);
    escaped_is_calm(before);
    escaped_is_calm(after);
    assert forall|i: int| 0 <= i < e.len() implies (#[trigger] e[i] == '\0' || !is_mark(e[i])) by {
        if i < eb.len() {
            assert(e[i] == eb[i]);
        } else if i < eb.len() + 5 {
            assert(e[i] == h[i - eb.len()]);
        } else {
            assert(e[i] == ea[i - eb.len() - 5]);
        }
    }
    assert(quoteless(h));
    quoteless_add(eb, h);
    quoteless_add(eb + h, ea);
    plain_has_no_lines(e);
    let (p, q, r) = choose|p: Seq<char>, q: Seq<char>, r: Seq<char>| #[trigger]
        line_steps(e, p, q, r, x);
    lines_stay(e, p, q, r, x);
    let (p2, q2, r2, s2, t2, u2) = choose|
        p: Seq<char>,
        q: Seq<char>,
        r: Seq<char>,
        s: Seq<char>,
        t: Seq<char>,
        u: Seq<char>,
    | #[trigger] word_steps(e, p, q, r, s, t, u, y);
    words_stay(e, p2, q2, r2, s2, t2, u2, y);
    assert(free_of(eb, '\0'));
    assert(free_of(ea, '\0'));
    replaced_once(eb, h, ea, html);
    reveal_with_fuel(restored, 2);
}

proof fn plain_html(text: Seq<char>, x: Seq<char>, y: Seq<char>)
    requires
        html_steps(text, x, y),
        plain(text),
    ensures
        restored(y, aside(text).htmls, aside(text).htmls.len() as int) == escaped(text),
{
    nothing_aside(text, x, y);
    let e = escaped(text);
    escaped_is_calm(text);
    plain_has_no_lines(e);
    let (p, q, r) = choose|p: Seq<char>, q: Seq<char>, r: Seq<char>| #[trigger]
        line_steps(e, p, q, r, x);
    lines_stay(e, p, q, r, x);
    let (p2, q2, r2, s2, t2, u2) = choose|
        p: Seq<char>,
        q: Seq<char>,
        r: Seq<char>,
        s: Seq<char>,
        t: Seq<char>,
        u: Seq<char>,
    | #[trigger] word_steps(x, p, q, r, s, t, u, y);
    words_stay(x, p2, q2, r2, s2, t2, u2, y);
}

/// A heading stays one when the text is escaped.
proof fn escaped_heading(before: Seq<char>, found: Seq<char>, title: Seq<char>, after: Seq<char>) -> (lead:
    Seq<char>)
    requires
        title_line(before, found, title, after),
        plain(before) && plain(title) && plain(after),
    ensures
        escaped(before + found + after) == escaped(before) + (lead + escaped(title)) + escaped(after),
        title_line(escaped(before), lead + escaped(title), escaped(title), escaped(after)),
        free_of(before + found + after, '`'),
        free_of(before + found + after, '['),
{
    let text = before + found + after;
    let lead = choose|lead: Seq<char>| #[trigger] heads(lead) && found == lead + title;
    assert forall|i: int| 0 <= i < lead.len() implies (#[trigger] lead[i] == '#' || is_ws(lead[i])) by {}
    assert forall|i: int| 0 <= i < text.len() implies (#[trigger] text[i] != '`' && text[i] != '[') by {
        if i < before.len() {
            assert(text[i] == before[i]);
        } else if i < before.len() + lead.len() {
            assert(text[i] == lead[i - before.len()]);
        } else if i < before.len() + found.len() {
            assert(text[i] == title[i - before.len() - lead.len()]);
        } else {
            assert(text[i] == after[i - before.len() - found.len()]);
        }
    }
    escaped_add(before + found, after);
    escaped_add(before, found);
    escaped_add(lead, title);
    escaped_nothing(lead);
    escaped_is_calm(before);
    escaped_is_calm(title);
    escaped_is_calm(after);
    assert(free_of(escaped(before), '#') && free_of(escaped(after), '#'));
    lead
}

#[verifier::rlimit(40)]
proof fn heading_html(
    before: Seq<char>,
    found: Seq<char>,
    title: Seq<char>,
    after: Seq<char>,
    text: Seq<char>,
    x: Seq<char>,
    y: Seq<char>,
)
    requires
        html_steps(text, x, y),
        text == before + found + after,
        title_line(before, found, title, after),
        plain(before) && plain(title) && plain(after),
    ensures
        restored(y, aside(text).htmls, aside(text).htmls.len() as int) == escaped(before) + "<b>"@ + escaped(title) + "</b>"@ + escaped(after),
{
    let lead = escaped_heading(before, found, title, after);
    nothing_aside(text, x, y);
    let e = escaped(text);
    let eb = escaped(before);
    let et = escaped(title);
    let ea = escaped(after);
    escaped_is_calm(before);
    escaped_is_calm(title);
    escaped_is_calm(after);
    let (p, q, r) = choose|p: Seq<char>, q: Seq<char>, r: Seq<char>| #[trigger]
        line_steps(e, p, q, r, x);
    heading_steps(eb, lead + et, et, ea, p, q, r, x);
    styled_is_wordless(Style::Bold, eb, et, ea);
    assert(eb + styled(Style::Bold, et) + ea =~= x);
    let (p2, q2, r2, s2, t2, u2) = choose|
        p: Seq<char>,
        q: Seq<char>,
        r: Seq<char>,
        s: Seq<char>,
        t: Seq<char>,
        u: Seq<char>,
    | #[trigger] word_steps(x, p, q, r, s, t, u, y);
    words_stay(x, p2, q2, r2, s2, t2, u2, y);
}

proof fn rule_line_is_no_other_pattern()
    ensures
        RULE_LINE@ != HEADER_MARK@,
        RULE_LINE@ != QUOTE_MARK@,
{
    reveal_strlit("(?m)^[\\*\\-_]{3,}\\s*$");
    reveal_strlit("(?m)^#{1,6}\\s+");
    reveal_strlit("(?m)^>\\s?");
    assert(RULE_LINE@.len() != HEADER_MARK@.len());
    assert(RULE_LINE@.len() != QUOTE_MARK@.len());
}

/// A line of marks stays one when the text around it is escaped.
proof fn escaped_rule(before: Seq<char>, found: Seq<char>, after: Seq<char>)
    requires
        sole_mark(RULE_LINE@, before, found, after),
        plain(before) && plain(after),
    ensures
        escaped(before + found + after) == escaped(before) + found + escaped(after),
        sole_mark(RULE_LINE@, escaped(before), found, escaped(after)),
        free_of(found, '`'),
        free_of(found, '['),
{
    rule_line_is_no_other_pattern();
    let eb = escaped(before);
    let ea = escaped(after);
    assert forall|i: int| 0 <= i < found.len() implies (#[trigger] found[i] != '`' && found[i] != '['
        && found[i] != '&' && found[i] != '<' && found[i] != '>') by {
        assert(is_rule_mark(found[i]));
    }
    escaped_add(before + found, after);
    escaped_add(before, found);
    escaped_nothing(found);
    escaped_is_calm(before);
    escaped_is_calm(after);
    if after.len() > 0 {
        let rest = after.skip(1);
        assert(after =~= seq!['\n'] + rest);
        escaped_add(seq!['\n'], rest);
        escaped_nothing(seq!['\n']);
        escaped_is_calm(rest);
        assert(rest[0] == after[1]);
        assert(ea[1] == escaped(rest)[0]);
    }
    assert forall|i: int| 0 <= i < eb.len() implies !is_rule_mark(#[trigger] eb[i]) by {
        assert(!is_mark(eb[i]));
    }
    assert forall|i: int| 0 <= i < ea.len() implies !is_rule_mark(#[trigger] ea[i]) by {
        assert(!is_mark(ea[i]));
    }
}

#[verifier::rlimit(40)]
proof fn rule_html(
    before: Seq<char>,
    found: Seq<char>,
    after: Seq<char>,
    text: Seq<char>,
    x: Seq<char>,
    y: Seq<char>,
)
    requires
        html_steps(text, x, y),
        text == before + found + after,
        sole_mark(RULE_LINE@, before, found, after),
        plain(before) && plain(after),
    ensures
        restored(y, aside(text).htmls, aside(text).htmls.len() as int) == escaped(before) + "———"@ + escaped(after),
{
    let eb = escaped(before);
    let ea = escaped(after);
    escaped_rule(before, found, after);
    assert forall|i: int| 0 <= i < text.len() implies (#[trigger] text[i] != '`' && text[i] != '[') by {
        if i < before.len() {
            assert(text[i] == before[i]);
        } else if i < before.len() + found.len() {
            assert(text[i] == found[i - before.len()]);
        } else {
            assert(text[i] == after[i - before.len() - found.len()]);
        }
    }
    nothing_aside(text, x, y);
    let e = escaped(text);
    escaped_is_calm(before);
    escaped_is_calm(after);
    let (p, q, r) = choose|p: Seq<char>, q: Seq<char>, r: Seq<char>| #[trigger]
        line_steps(e, p, q, r, x);
    rule_steps(eb, found, ea, p, q, r, x);
    dashes_are_plain(eb, ea);
    let (p2, q2, r2, s2, t2, u2) = choose|
        p: Seq<char>,
        q: Seq<char>,
        r: Seq<char>,
        s: Seq<char>,
        t: Seq<char>,
        u: Seq<char>,
    | #[trigger] word_steps(x, p, q, r, s, t, u, y);
    words_stay(x, p2, q2, r2, s2, t2, u2, y);
}

proof fn dashes_are_plain(before: Seq<char>, after: Seq<char>)
    requires
        plain(before) && plain(after),
    ensures
        wordless(before + "———"@ + after),
{
    reveal_strlit("———");
    let x = before + "———"@ + after;
    assert forall|i: int| 0 <= i < x.len() implies !is_mark(#[trigger] x[i]) by {
        if i < before.len() {
            assert(x[i] == before[i]);
        } else if i >= before.len() + 3 {
            assert(x[i] == after[i - before.len() - 3]);
        }
    }
}

#[verifier::rlimit(40)]
proof fn item_html(
    before: Seq<char>,
    found: Seq<char>,
    indent: Seq<char>,
    after: Seq<char>,
    text: Seq<char>,
    x: Seq<char>,
    y: Seq<char>,
)
    requires
        html_steps(text, x, y),
        text == before + found + after,
        list_item(before, found, indent, after),
        plain(before) && plain(after),
    ensures
        restored(y, aside(text).htmls, aside(text).htmls.len() as int) == escaped(before) + indent + "• "@ + escaped(after),
{
    reveal_strlit("* ");
    reveal_strlit("- ");
    reveal_strlit("• ");
    assert forall|i: int| 0 <= i < found.len() implies (#[trigger] found[i] == ' ' || found[i] == '*'
        || found[i] == '-') by {
        if i < indent.len() {
            assert(found[i] == indent[i]);
        }
    }
    assert forall|i: int| 0 <= i < text.len() implies (#[trigger] text[i] != '`' && text[i] != '[') by {
        if i < before.len() {
            assert(text[i] == before[i]);
        } else if i < before.len() + found.len() {
            assert(text[i] == found[i - before.len()]);
        } else {
            assert(text[i] == after[i - before.len() - found.len()]);
        }
    }
    nothing_aside(text, x, y);
    let e = escaped(text);
    let eb = escaped(before);
    let ea = escaped(after);
    escaped_add(before + found, after);
    escaped_add(before, found);
    escaped_nothing(found);
    assert(e == eb + found + ea);
    escaped_is_calm(before);
    escaped_is_calm(after);
    if before.len() > 0 {
        let head = before.drop_last();
        assert(before =~= head + seq!['\n']);
        escaped_add(head, seq!['\n']);
        escaped_nothing(seq!['\n']);
        escaped_is_calm(head);
        assert(head.last() == before[before.len() - 2]);
        assert(eb[eb.len() - 2] == escaped(head).last());
    }
    assert(free_of(eb, '*') && free_of(eb, '-') && free_of(ea, '*') && free_of(ea, '-'));
    assert(list_item(eb, found, indent, ea));
    let (p, q, r) = choose|p: Seq<char>, q: Seq<char>, r: Seq<char>| #[trigger]
        line_steps(e, p, q, r, x);
    item_steps(eb, found, indent, ea, p, q, r, x);
    assert forall|i: int| 0 <= i < x.len() implies !is_mark(#[trigger] x[i]) by {
        let n = eb.len();
        let m = indent.len();
        if i < n {
            assert(x[i] == eb[i]);
        } else if i < n + m {
            assert(x[i] == indent[i - n]);
        } else if i < n + m + 2 {
            assert(x[i] == "• "@[i - n - m]);
        } else {
            assert(x[i] == ea[i - n - m - 2]);
        }
    }
    let (p2, q2, r2, s2, t2, u2) = choose|
        p: Seq<char>,
        q: Seq<char>,
        r: Seq<char>,
        s: Seq<char>,
        t: Seq<char>,
        u: Seq<char>,
    | #[trigger] word_steps(x, p, q, r, s, t, u, y);
    words_stay(x, p2, q2, r2, s2, t2, u2, y);
}

#[verifier::rlimit(40)]
proof fn quote_html(t: Seq<char>, text: Seq<char>, x: Seq<char>, y: Seq<char>)
    requires
        html_steps(text, x, y),
        text == "> "@ + t,
        plain(t),
        free_of(t, '\n'),
    ensures
        restored(y, aside(text).htmls, aside(text).htmls.len() as int) == "<blockquote>"@ + escaped(t) + "</blockquote>"@,
{
    reveal_strlit("> ");
    reveal_strlit("&gt;");
    reveal_strlit("<blockquote>");
    reveal_strlit("</blockquote>");
    assert forall|i: int| 0 <= i < text.len() implies (#[trigger] text[i] != '`' && text[i] != '[') by {
        if i >= 2 {
            assert(text[i] == t[i - 2]);
        }
    }
    nothing_aside(text, x, y);
    let e = escaped(text);
    let et = escaped(t);
    escaped_add("> "@, t);
    escaped_is_calm(t);
    let lead = escaped("> "@);
    assert("> "@.drop_last() =~= seq!['>']);
    assert(seq!['>'].drop_last() =~= Seq::<char>::empty());
    reveal_with_fuel(escaped, 3);
    assert(lead =~= seq!['&', 'g', 't', ';', ' ']);
    assert(e == lead + et);
    assert forall|i: int| 0 <= i < e.len() implies !is_mark(#[trigger] e[i]) by {
        if i >= 5 {
            assert(e[i] == et[i - 5]);
        }
    }
    plain_has_no_lines(e);
    let (p, q, r) = choose|p: Seq<char>, q: Seq<char>, r: Seq<char>| #[trigger]
        line_steps(e, p, q, r, x);
    assert(p == e);
    assert(q == e);
    quoted_line_is_a_quote(t);
    let z = "<blockquote>"@ + et + "</blockquote>"@;
    assert(r == z);
    assert forall|i: int| 0 <= i < z.len() implies (#[trigger] z[i] == '>' || !is_mark(z[i])) by {
        if i < 12 {
            assert(z[i] == "<blockquote>"@[i]);
        } else if i < 12 + et.len() {
            assert(z[i] == et[i - 12]);
        } else {
            assert(z[i] == "</blockquote>"@[i - 12 - et.len()]);
        }
    }
    plain_has_no_lines(z);
    assert(lacks(BULLET@, z));
    assert(x == z);
    let (p2, q2, r2, s2, t2, u2) = choose|
        p: Seq<char>,
        q: Seq<char>,
        r: Seq<char>,
        s: Seq<char>,
        t: Seq<char>,
        u: Seq<char>,
    | #[trigger] word_steps(x, p, q, r, s, t, u, y);
    words_stay(x, p2, q2, r2, s2, t2, u2, y);
}

#[verifier::rlimit(40)]
proof fn style_html(
    style: Style,
    before: Seq<char>,
    words: Seq<char>,
    after: Seq<char>,
    text: Seq<char>,
    x: Seq<char>,
    y: Seq<char>,
)
    requires
        html_steps(text, x, y),
        text == with_style(style, before, words, after),
        plain(before),
        wordy(words),
        plain(after),
    ensures
        restored(y, aside(text).htmls, aside(text).htmls.len() as int) == escaped(before) + styled(style, escaped(words)) + escaped(after),
{
    styled_words_stay_on_their_line(style, before, words, after);
    nothing_aside(text, x, y);
    let c = style_mark_is_a_run(style);
    let m = style_mark(style);
    let e = escaped(text);
    let eb = escaped(before);
    let ew = escaped(words);
    let ea = escaped(after);
    escaped_add(before + m + words + m, after);
    escaped_add(before + m + words, m);
    escaped_add(before + m, words);
    escaped_add(before, m);
    escaped_nothing(m);
    assert(e == with_style(style, eb, ew, ea));
    escaped_is_calm(before);
    escaped_is_calm(words);
    escaped_is_calm(after);
    styled_words_stay_on_their_line(style, eb, ew, ea);
    let (p, q, r) = choose|p: Seq<char>, q: Seq<char>, r: Seq<char>| #[trigger]
        line_steps(e, p, q, r, x);
    lines_stay(e, p, q, r, x);
    let (p2, q2, r2, s2, t2, u2) = choose|
        p: Seq<char>,
        q: Seq<char>,
        r: Seq<char>,
        s: Seq<char>,
        t: Seq<char>,
        u: Seq<char>,
    | #[trigger] word_steps(x, p, q, r, s, t, u, y);
    style_steps(style, eb, ew, ea, p2, q2, r2, s2, t2, u2, y);
}

#[verifier::rlimit(40)]
proof fn code_html(
    before: Seq<char>,
    found: Seq<char>,
    code: Seq<char>,
    after: Seq<char>,
    text: Seq<char>,
    x: Seq<char>,
    y: Seq<char>,
)
    requires
        html_steps(text, x, y),
        text == before + found + after,
        enclosed("`"@, '`', before, found, code, after),
        plain(before),
        plain(after),
    ensures
        restored(y, aside(text).htmls, aside(text).htmls.len() as int) == escaped(before) + "<code>"@ + escaped(code) + "</code>"@ + escaped(after),
{
    reveal_strlit("`");
    let a = MarkedV { text: text, htmls: Seq::empty() };
    let n = before.len() as int;
    let w = code.len() as int;
    assert(found.len() == w + 2);
    assert forall|i: int| 0 <= i < text.len() && i != n && i != n + w + 1 implies #[trigger] text[i]
        != '`' by {
        if i < n {
            assert(text[i] == before[i]);
        } else if i < n + w + 2 {
            assert(text[i] == code[i - n - 1]);
        } else {
            assert(text[i] == after[i - n - w - 2]);
        }
    }
    assert(no_run(text, '`', 3)) by {
        assert forall|i: int| 0 <= i && i + 3 <= text.len() implies #[trigger] broken_run(
            text,
            '`',
            i,
            3,
        ) by {
            if i == n || i == n + w + 1 {
                assert(text[i + 1] != '`');
            } else {
                assert(text[i] != '`');
            }
        }
    }
    put_aside_nothing(a, Mark::Block, CODE_BLOCK@);
    assert(sole_match(INLINE_CODE@, before, found, code, after));
    put_aside_one(a, Mark::Inline, INLINE_CODE@, before, found, after);
    let g = (pattern_matches(INLINE_CODE@, text)->0)[0];
    assert(text =~= (before + "`"@) + code + ("`"@ + after));
    group_is(text, g, 1, before + "`"@, code, "`"@ + after);
    let html = "<code>"@ + escaped(code) + "</code>"@;
    assert(match_html(Mark::Inline, text, g) == html);
    first_placeholder();
    let s = before + placeholder(0) + after;
    assert(put_aside(a, Mark::Inline, INLINE_CODE@).htmls =~= seq![html]);
    let c = MarkedV { text: s, htmls: seq![html] };
    assert(put_aside(a, Mark::Inline, INLINE_CODE@) =~= c);
    assert forall|i: int| 0 <= i < s.len() implies #[trigger] s[i] != '[' by {
        if i < n {
            assert(s[i] == before[i]);
        } else if i >= n + 5 {
            assert(s[i] == after[i - n - 5]);
        }
    }
    put_aside_nothing(c, Mark::Link, LINK@);
    one_aside(before, after, html, text, x, y);
    assert(escaped(before) + html + escaped(after) =~= escaped(before) + "<code>"@ + escaped(code)
        + "</code>"@ + escaped(after));
}

#[verifier::rlimit(40)]
proof fn link_html(
    before: Seq<char>,
    label: Seq<char>,
    url: Seq<char>,
    after: Seq<char>,
    text: Seq<char>,
    x: Seq<char>,
    y: Seq<char>,
)
    requires
        html_steps(text, x, y),
        text == with_link(before, label, url, after),
        sole_link(before, label, url, after),
        plain(before),
        plain(after),
        free_of(label, '`'),
        free_of(url, '`'),
        free_of(url, '<'),
        free_of(url, '>'),
    ensures
        restored(y, aside(text).htmls, aside(text).htmls.len() as int) == escaped(before) + "<a href=\""@ + url + "\">"@ + escaped(label) + "</a>"@ + escaped(after),
{
    reveal_strlit("[");
    reveal_strlit("](");
    reveal_strlit(")");
    reveal_strlit("<");
    reveal_strlit(">");
    let a = MarkedV { text: text, htmls: Seq::empty() };
    let found = "["@ + label + "]("@ + url + ")"@;
    let n = before.len() as int;
    let l = label.len() as int;
    let u = url.len() as int;
    assert forall|i: int| 0 <= i < text.len() implies #[trigger] text[i] != '`' by {
        if i < n {
            assert(text[i] == before[i]);
        } else if n + 1 <= i < n + 1 + l {
            assert(text[i] == label[i - n - 1]);
        } else if n + 3 + l <= i < n + 3 + l + u {
            assert(text[i] == url[i - n - 3 - l]);
        } else if n + 4 + l + u <= i {
            assert(text[i] == after[i - n - 4 - l - u]);
        }
    }
    free_means_no_run(text, '`', 3);
    put_aside_nothing(a, Mark::Block, CODE_BLOCK@);
    put_aside_nothing(a, Mark::Inline, INLINE_CODE@);
    assert(text =~= before + found + after);
    put_aside_one(a, Mark::Link, LINK@, before, found, after);
    let g = (pattern_matches(LINK@, text)->0)[0];
    assert(text =~= (before + "["@) + label + ("]("@ + url + ")"@ + after));
    group_is(text, g, 1, before + "["@, label, "]("@ + url + ")"@ + after);
    assert(text =~= (before + "["@ + label + "]("@) + url + (")"@ + after));
    group_is(text, g, 2, before + "["@ + label + "]("@, url, ")"@ + after);
    replaced_nothing(url, "<"@, "%3C"@);
    replaced_nothing(url, ">"@, "%3E"@);
    let html = "<a href=\""@ + url + "\">"@ + escaped(label) + "</a>"@;
    assert(match_html(Mark::Link, text, g) == html);
    assert(put_aside(a, Mark::Link, LINK@).htmls =~= seq![html]);
    one_aside(before, after, html, text, x, y);
    assert(escaped(before) + html + escaped(after) =~= escaped(before) + "<a href=\""@ + url + "\">"@
        + escaped(label) + "</a>"@ + escaped(after));
}

/// The HTML for a block of code.
pub open spec fn block_of(lang: Seq<char>, code: Seq<char>) -> Seq<char> {
    if lang.len() > 0 {
        "<pre><code class=\"language-"@ + lang + "\">"@ + escaped(code) + "</code></pre>"@
    } else {
        "<pre>"@ + escaped(code) + "</pre>"@
    }
}

proof fn block_parts(before: Seq<char>, lang: Seq<char>, code: Seq<char>, after: Seq<char>)
    ensures
        ({
            let text = with_block(before, lang, code, after);
            &&& text == before + ("```"@ + lang + "\n"@ + code + "```"@) + after
            &&& text == (before + "```"@) + lang + ("\n"@ + code + "```"@ + after)
            &&& text == (before + "```"@ + lang + "\n"@) + code + ("```"@ + after)
        }),
{
    let text = with_block(before, lang, code, after);
    assert(text =~= before + ("```"@ + lang + "\n"@ + code + "```"@) + after);
    assert(text =~= (before + "```"@) + lang + ("\n"@ + code + "```"@ + after));
    assert(text =~= (before + "```"@ + lang + "\n"@) + code + ("```"@ + after));
}

#[verifier::rlimit(40)]
proof fn block_put_aside(
    before: Seq<char>,
    lang: Seq<char>,
    code: Seq<char>,
    after: Seq<char>,
    text: Seq<char>,
)
    requires
        found_right(CODE_BLOCK@, text, pattern_matches(CODE_BLOCK@, text)),
        text == with_block(before, lang, code, after),
        sole_block(before, lang, code, after),
    ensures
        put_aside(
            MarkedV { text: text, htmls: Seq::empty() },
            Mark::Block,
            CODE_BLOCK@,
        ) == (MarkedV {
            text: before + placeholder(0) + after,
            htmls: seq![block_of(lang, code)],
        }),
{
    let a = MarkedV { text: text, htmls: Seq::empty() };
    let found = "```"@ + lang + "\n"@ + code + "```"@;
    let ms = pattern_matches(CODE_BLOCK@, text)->0;
    let g = ms[0];
    assert(ms.len() == 1 && g.len() == 3 && is_span(g[0], before, found) && is_span(
        g[1],
        before + "```"@,
        lang,
    ) && is_span(g[2], before + "```"@ + lang + "\n"@, code));
    block_parts(before, lang, code, after);
    put_aside_one(a, Mark::Block, CODE_BLOCK@, before, found, after);
    group_is(text, g, 1, before + "```"@, lang, "\n"@ + code + "```"@ + after);
    group_is(text, g, 2, before + "```"@ + lang + "\n"@, code, "```"@ + after);
    assert forall|i: int| 0 <= i < lang.len() implies (!is_ws(#[trigger] lang[i]) && lang[i] != '&'
        && lang[i] != '<' && lang[i] != '>') by {
        assert(is_alnum(lang[i]));
    }
    tight_is_trimmed(lang);
    escaped_nothing(lang);
    assert(match_html(Mark::Block, text, g) == block_of(lang, code));
    assert(Seq::<Seq<char>>::empty().push(block_of(lang, code)) =~= seq![block_of(lang, code)]);
}

#[verifier::rlimit(40)]
proof fn block_html(
    before: Seq<char>,
    lang: Seq<char>,
    code: Seq<char>,
    after: Seq<char>,
    text: Seq<char>,
    x: Seq<char>,
    y: Seq<char>,
)
    requires
        html_steps(text, x, y),
        text == with_block(before, lang, code, after),
        sole_block(before, lang, code, after),
        plain(before),
        plain(after),
    ensures
        lang.len() == 0 ==> restored(y, aside(text).htmls, aside(text).htmls.len() as int) == escaped(before) + "<pre>"@ + escaped(code) + "</pre>"@ + escaped(after),
        lang.len() > 0 ==> restored(y, aside(text).htmls, aside(text).htmls.len() as int) == escaped(before) + "<pre><code class=\"language-"@ + lang + "\">"@ + escaped(code) + "</code></pre>"@ + escaped(after),
{
    block_put_aside(before, lang, code, after, text);
    first_placeholder();
    let n = before.len();
    let html = block_of(lang, code);
    let s = before + placeholder(0) + after;
    let b = MarkedV { text: s, htmls: seq![html] };
    assert forall|i: int| 0 <= i < s.len() implies (#[trigger] s[i] != '[' && s[i] != '`') by {
        if i < n {
            assert(s[i] == before[i]);
        } else if i >= n + 5 {
            assert(s[i] == after[i - n - 5]);
        }
    }
    put_aside_nothing(b, Mark::Inline, INLINE_CODE@);
    put_aside_nothing(b, Mark::Link, LINK@);
    one_aside(before, after, html, text, x, y);
    let z = escaped(before) + html + escaped(after);
    if lang.len() == 0 {
        assert(z =~= escaped(before) + "<pre>"@ + escaped(code) + "</pre>"@ + escaped(after));
    } else {
        assert(z =~= escaped(before) + "<pre><code class=\"language-"@ + lang + "\">"@ + escaped(
            code,
        ) + "</code></pre>"@ + escaped(after));
    }
}

proof fn tight_is_trimmed(s: Seq<char>)
    requires
        forall|i: int| 0 <= i < s.len() ==> !is_ws(#[trigger] s[i]),
    ensures
        trimmed(s) == s,
{
    if s.len() > 0 {
        assert(!is_ws(s[0]));
        assert(!is_ws(s[s.len() - 1]));
    }
}

proof fn html_is_right(text: Seq<char>, x: Seq<char>, y: Seq<char>)
    requires
        html_steps(text, x, y),
    ensures
        html_right(text, restored(y, aside(text).htmls, aside(text).htmls.len() as int)),
{
    let h = restored(y, aside(text).htmls, aside(text).htmls.len() as int);
    if plain(text) {
        plain_html(text, x, y);
    }
    assert forall|before: Seq<char>, found: Seq<char>, title: Seq<char>, after: Seq<char>|
        #[trigger] title_line(before, found, title, after) && text == before + found + after && plain(
            before,
        ) && plain(title) && plain(after) implies h == escaped(before) + "<b>"@ + escaped(title)
        + "</b>"@ + escaped(after) by {
        heading_html(before, found, title, after, text, x, y);
    }
    assert forall|before: Seq<char>, found: Seq<char>, after: Seq<char>|
        #[trigger] sole_mark(RULE_LINE@, before, found, after) && text == before + found + after
            && plain(before) && plain(after) implies h == escaped(before) + "———"@ + escaped(after) by {
        rule_html(before, found, after, text, x, y);
    }
    assert forall|before: Seq<char>, found: Seq<char>, indent: Seq<char>, after: Seq<char>|
        #[trigger] list_item(before, found, indent, after) && text == before + found + after && plain(
            before,
        ) && plain(after) implies h == escaped(before) + indent + "• "@ + escaped(after) by {
        item_html(before, found, indent, after, text, x, y);
    }
    assert forall|t: Seq<char>|
        text == "> "@ + t && #[trigger] plain(t) && free_of(t, '\n') implies h == "<blockquote>"@
        + escaped(t) + "</blockquote>"@ by {
        quote_html(t, text, x, y);
    }
    assert forall|style: Style, before: Seq<char>, words: Seq<char>, after: Seq<char>|
        text == #[trigger] with_style(style, before, words, after) && plain(before) && wordy(words)
            && plain(after) implies h == escaped(before) + styled(style, escaped(words)) + escaped(
        after,
    ) by {
        style_html(style, before, words, after, text, x, y);
    }
    assert forall|before: Seq<char>, found: Seq<char>, code: Seq<char>, after: Seq<char>|
        #[trigger] enclosed("`"@, '`', before, found, code, after) && text == before + found + after
            && plain(before) && plain(after) implies h == escaped(before) + "<code>"@ + escaped(code)
        + "</code>"@ + escaped(after) by {
        code_html(before, found, code, after, text, x, y);
    }
    assert forall|before: Seq<char>, label: Seq<char>, url: Seq<char>, after: Seq<char>|
        #[trigger] sole_link(before, label, url, after) && text == with_link(
            before,
            label,
            url,
            after,
        ) && plain(before) && plain(after) && free_of(label, '`') && free_of(url, '`') && free_of(
            url,
            '<',
        ) && free_of(url, '>') implies h == escaped(before) + "<a href=\""@ + url + "\">"@ + escaped(
        label,
    ) + "</a>"@ + escaped(after) by {
        link_html(before, label, url, after, text, x, y);
    }
    assert forall|before: Seq<char>, lang: Seq<char>, code: Seq<char>, after: Seq<char>|
        #[trigger] sole_block(before, lang, code, after) && text == with_block(
            before,
            lang,
            code,
            after,
        ) && plain(before) && plain(after) implies ({
        &&& lang.len() == 0 ==> h == escaped(before) + "<pre>"@ + escaped(code) + "</pre>"@
            + escaped(after)
        &&& lang.len() > 0 ==> h == escaped(before) + "<pre><code class=\"language-"@ + lang
            + "\">"@ + escaped(code) + "</code></pre>"@ + escaped(after)
    }) by {
        block_html(before, lang, code, after, text, x, y);
    }
}

fn style_lines(text: &str) -> (r: String)
    ensures
        r@ == line_styled(text@),
        exists|a: Seq<char>, b: Seq<char>, c: Seq<char>| #[trigger] line_steps(text@, a, b, c, r@),
{
    let a: String = swap(RULE_LINE, text, "———");
    let b: String = swap(HEADER, a.as_str(), "<b>$1</b>");
    let c: String = merge_quotes(b.as_str());
    let d: String = swap(BULLET, c.as_str(), "$1• ");
    assert(line_steps(text@, a@, b@, c@, d@));
    d
}

fn style_words(text: &str) -> (r: String)
    ensures
        r@ == word_styled(text@),
        exists|
            a: Seq<char>,
            b: Seq<char>,
            c: Seq<char>,
            d: Seq<char>,
            e: Seq<char>,
            f: Seq<char>,
        | #[trigger] word_steps(text@, a, b, c, d, e, f, r@),
{
    let a: String = swap(SPOILER, text, "<tg-spoiler>$1</tg-spoiler>");
    let b: String = swap(BOLD_ITALIC, a.as_str(), "<b><i>$1</i></b>");
    let c: String = swap(BOLD, b.as_str(), "<b>$1</b>");
    let d: String = swap(BOLD_UNDERSCORE, c.as_str(), "<b>$1</b>");
    let e: String = swap(ITALIC, d.as_str(), "<i>$1</i>");
    let f: String = swap(ITALIC_UNDERSCORE, e.as_str(), "<i>$1</i>");
    let g: String = swap(STRIKE, f.as_str(), "<s>$1</s>");
    assert(word_steps(text@, a@, b@, c@, d@, e@, f@, g@));
    g
}

/// Markdown as the HTML that Telegram takes.
pub fn markdown_to_telegram_html(text: &str) -> (r: String)
    ensures
        r@ == telegram_html(text@),
        text@.len() > 0 ==> html_right(text@, r@),
{
    if text.is_empty() {
        return text.to_owned();
    }
    let mut htmls: Vec<String> = Vec::new();
    assert(texts(htmls@) =~= Seq::<Seq<char>>::empty());
    let ghost m0 = MarkedV { text: text@, htmls: texts(htmls@) };
    let a: String = set_aside(text, &mut htmls, Mark::Block, CODE_BLOCK);
    let ghost m1 = MarkedV { text: a@, htmls: texts(htmls@) };
    let b: String = set_aside(a.as_str(), &mut htmls, Mark::Inline, INLINE_CODE);
    let ghost m2 = MarkedV { text: b@, htmls: texts(htmls@) };
    let c: String = set_aside(b.as_str(), &mut htmls, Mark::Link, LINK);
    let ghost m3 = MarkedV { text: c@, htmls: texts(htmls@) };
    let d: String = escape_html(c.as_str());
    let e: String = style_lines(d.as_str());
    let f: String = style_words(e.as_str());
    assert(texts(htmls@).len() == htmls@.len());
    proof {
        assert(m0 == (MarkedV { text: text@, htmls: Seq::empty() }));
        assert(put_aside(m0, Mark::Block, CODE_BLOCK@) == m1);
        assert(put_aside(m1, Mark::Inline, INLINE_CODE@) == m2);
        assert(put_aside(m2, Mark::Link, LINK@) == m3);
        assert(found_right(CODE_BLOCK@, m0.text, pattern_matches(CODE_BLOCK@, m0.text)));
        assert(found_right(INLINE_CODE@, m1.text, pattern_matches(INLINE_CODE@, m1.text)));
        assert(found_right(LINK@, m2.text, pattern_matches(LINK@, m2.text)));
        assert(d@ == escaped(m3.text));
        assert(exists|p: Seq<char>, q: Seq<char>, r: Seq<char>| #[trigger]
            line_steps(escaped(m3.text), p, q, r, e@));
        assert(html_steps(text@, e@, f@));
        html_is_right(text@, e@, f@);
    }
    restore_marks(f, &htmls)
}

/// Markdown without its marks.
pub open spec fn plain_text(text: Seq<char>) -> Seq<char> {
    if text.len() == 0 {
        text
    } else {
        let a = swapped(CODE_FENCE@, text, ""@);
        let b = swapped(ANY_INLINE_CODE@, a, "$1"@);
        let c = swapped(HEADER_MARK@, b, ""@);
        let d = swapped(RULE_LINE@, c, "———"@);
        let e = swapped(ANY_STARS@, d, "$1"@);
        let f = swapped(ANY_UNDERSCORES@, e, "$1"@);
        let g = swapped(STRIKE@, f, "$1"@);
        let h = swapped(SPOILER@, g, "$1"@);
        let i = swapped(LINK@, h, "$1 ($2)"@);
        let j = swapped(QUOTE_MARK@, i, ""@);
        swapped(BULLET@, j, "$1• "@)
    }
}

/// What becomes of a text without its marks, step by step.
pub open spec fn strip_steps(text: Seq<char>, t: Seq<Seq<char>>) -> bool {
    &&& t.len() == 11
    &&& replaced_right(CODE_FENCE@, text, ""@, Some(t[0]))
    &&& replaced_right(ANY_INLINE_CODE@, t[0], "$1"@, Some(t[1]))
    &&& replaced_right(HEADER_MARK@, t[1], ""@, Some(t[2]))
    &&& replaced_right(RULE_LINE@, t[2], "———"@, Some(t[3]))
    &&& replaced_right(ANY_STARS@, t[3], "$1"@, Some(t[4]))
    &&& replaced_right(ANY_UNDERSCORES@, t[4], "$1"@, Some(t[5]))
    &&& replaced_right(STRIKE@, t[5], "$1"@, Some(t[6]))
    &&& replaced_right(SPOILER@, t[6], "$1"@, Some(t[7]))
    &&& replaced_right(LINK@, t[7], "$1 ($2)"@, Some(t[8]))
    &&& replaced_right(QUOTE_MARK@, t[8], ""@, Some(t[9]))
    &&& replaced_right(BULLET@, t[9], "$1• "@, Some(t[10]))
}

/// What the marks around words, links and titles become, and that all else is kept: `r` is a text
/// without its marks.
pub open spec fn strip_right(text: Seq<char>, r: Seq<char>) -> bool {
    &&& plain(text) ==> r == text
    &&& forall|style: Style, before: Seq<char>, words: Seq<char>, after: Seq<char>|
        text == #[trigger] with_style(style, before, words, after) && plain(before) && wordy(words)
            && plain(after) ==> r == before + words + after
    &&& forall|before: Seq<char>, code: Seq<char>, after: Seq<char>|
        #[trigger] enclosed("`"@, '`', before, "`"@ + code + "`"@, code, after) && text == before + (
        "`"@ + code + "`"@) + after && plain(before) && plain(code) && plain(after) ==> r == before
            + code + after
    &&& forall|before: Seq<char>, lead: Seq<char>, title: Seq<char>|
        #[trigger] sole_mark(HEADER_MARK@, before, lead, title) && text == before + lead + title
            && plain(before) && plain(title) ==> r == before + title
    &&& forall|before: Seq<char>, label: Seq<char>, url: Seq<char>, after: Seq<char>|
        #[trigger] sole_link(before, label, url, after) && text == with_link(
            before,
            label,
            url,
            after,
        ) && plain(before) && plain(label) && plain(url) && plain(after) ==> r == before + label
            + " ("@ + url + ")"@ + after
}

proof fn plain_lacks(s: Seq<char>)
    requires
        plain(s),
    ensures
        lacks(CODE_FENCE@, s),
        lacks(ANY_INLINE_CODE@, s),
        lacks(HEADER_MARK@, s),
        lacks(RULE_LINE@, s),
        lacks(ANY_STARS@, s),
        lacks(ANY_UNDERSCORES@, s),
        lacks(STRIKE@, s),
        lacks(SPOILER@, s),
        lacks(LINK@, s),
        lacks(QUOTE_MARK@, s),
        lacks(BULLET@, s),
{
    free_means_no_run(s, '`', 3);
    free_means_no_run(s, '|', 2);
    free_means_no_run(s, '~', 2);
    plain_has_no_lines(s);
}

proof fn plain_add(a: Seq<char>, b: Seq<char>)
    requires
        plain(a),
        plain(b),
    ensures
        plain(a + b),
{
    let s = a + b;
    assert forall|i: int| 0 <= i < s.len() implies !is_mark(#[trigger] s[i]) by {
        if i < a.len() {
            assert(s[i] == a[i]);
        } else {
            assert(s[i] == b[i - a.len()]);
        }
    }
}

proof fn first_group_alone()
    ensures
        around_group("$1"@, Seq::empty(), Seq::empty()),
{
    assert("$1"@ =~= Seq::<char>::empty() + "$1"@ + Seq::<char>::empty());
}

#[verifier::rlimit(40)]
proof fn strip_style(
    style: Style,
    before: Seq<char>,
    words: Seq<char>,
    after: Seq<char>,
    t: Seq<Seq<char>>,
)
    requires
        strip_steps(with_style(style, before, words, after), t),
        plain(before),
        wordy(words),
        plain(after),
    ensures
        t[10] == before + words + after,
{
    let s = with_style(style, before, words, after);
    let x = before + words + after;
    let found = style_mark(style) + words + style_mark(style);
    let m = style_mark_is_a_run(style);
    assert(s =~= before + found + after);
    assert(enclosed(style_mark(style), m, before, found, words, after)) by {
        assert forall|i: int| 0 <= i < words.len() implies #[trigger] words[i] != m by {}
    }
    other_styles_find_nothing(style, before, words, after);
    styled_words_stay_on_their_line(style, before, words, after);
    free_means_no_run(s, '`', 3);
    plain_add(before, words);
    plain_add(before + words, after);
    plain_lacks(x);
    first_group_alone();
    assert(before + Seq::<char>::empty() + words + Seq::<char>::empty() + after =~= x);
    assert(t[3] == s);
    assert forall|i: int| 0 <= i < s.len() implies #[trigger] s[i] == m || !is_mark(s[i]) by {
        with_style_at(style, m, before, words, after, i);
    }
    match style {
        Style::Spoiler => {
            assert(lacks(ANY_STARS@, s) && lacks(ANY_UNDERSCORES@, s));
            assert(sole_match(SPOILER@, before, found, words, after));
        },
        Style::Strike => {
            assert(lacks(ANY_STARS@, s) && lacks(ANY_UNDERSCORES@, s));
            assert(sole_match(STRIKE@, before, found, words, after));
        },
        Style::BoldUnderscore => {
            assert(lacks(ANY_STARS@, s));
            assert(sole_match(ANY_UNDERSCORES@, before, found, words, after));
        },
        Style::ItalicUnderscore => {
            assert(lacks(ANY_STARS@, s));
            assert(sole_match(ANY_UNDERSCORES@, before, found, words, after));
        },
        Style::BoldItalic => {
            assert(sole_match(ANY_STARS@, before, found, words, after));
        },
        Style::Bold => {
            assert(sole_match(ANY_STARS@, before, found, words, after));
        },
        Style::Italic => {
            assert(sole_match(ANY_STARS@, before, found, words, after));
        },
    }
}

#[verifier::rlimit(40)]
proof fn strip_code(before: Seq<char>, code: Seq<char>, after: Seq<char>, t: Seq<Seq<char>>)
    requires
        strip_steps(before + ("`"@ + code + "`"@) + after, t),
        enclosed("`"@, '`', before, "`"@ + code + "`"@, code, after),
        plain(before),
        plain(code),
        plain(after),
    ensures
        t[10] == before + code + after,
{
    reveal_strlit("`");
    let found = "`"@ + code + "`"@;
    let text = before + found + after;
    let n = before.len() as int;
    let w = code.len() as int;
    assert forall|i: int| 0 <= i < text.len() && i != n && i != n + w + 1 implies #[trigger] text[i]
        != '`' by {
        if i < n {
            assert(text[i] == before[i]);
        } else if i < n + w + 2 {
            assert(text[i] == code[i - n - 1]);
        } else {
            assert(text[i] == after[i - n - w - 2]);
        }
    }
    assert(no_run(text, '`', 3)) by {
        assert forall|i: int| 0 <= i && i + 3 <= text.len() implies #[trigger] broken_run(
            text,
            '`',
            i,
            3,
        ) by {
            if i == n || i == n + w + 1 {
                assert(text[i + 1] != '`');
            } else {
                assert(text[i] != '`');
            }
        }
    }
    let x = before + code + after;
    plain_add(before, code);
    plain_add(before + code, after);
    plain_lacks(x);
    first_group_alone();
    assert(sole_match(ANY_INLINE_CODE@, before, found, code, after));
    assert(before + Seq::<char>::empty() + code + Seq::<char>::empty() + after =~= x);
    assert(t[1] == x);
}

#[verifier::rlimit(40)]
proof fn strip_heading(before: Seq<char>, lead: Seq<char>, title: Seq<char>, t: Seq<Seq<char>>)
    requires
        strip_steps(before + lead + title, t),
        sole_mark(HEADER_MARK@, before, lead, title),
        plain(before),
        plain(title),
    ensures
        t[10] == before + title,
{
    rule_line_is_no_other_pattern();
    header_mark_is_no_quote_mark();
    reveal_strlit("");
    let text = before + lead + title;
    assert(heads(lead));
    assert forall|i: int| 0 <= i < lead.len() implies (#[trigger] lead[i] == '#' || is_ws(lead[i])) by {}
    assert forall|i: int| 0 <= i < text.len() implies #[trigger] text[i] != '`' by {
        if i < before.len() {
            assert(text[i] == before[i]);
        } else if i < before.len() + lead.len() {
            assert(text[i] == lead[i - before.len()]);
        } else {
            assert(text[i] == title[i - before.len() - lead.len()]);
        }
    }
    free_means_no_run(text, '`', 3);
    let x = before + title;
    plain_add(before, title);
    plain_lacks(x);
    assert(t[1] == text);
    assert(free_of(""@, '$'));
    assert(before + ""@ + title =~= x);
    assert(t[2] == x);
}

proof fn header_mark_is_no_quote_mark()
    ensures
        HEADER_MARK@ != QUOTE_MARK@,
{
    reveal_strlit("(?m)^#{1,6}\\s+");
    reveal_strlit("(?m)^>\\s?");
    assert(HEADER_MARK@.len() != QUOTE_MARK@.len());
}

#[verifier::rlimit(40)]
proof fn strip_link(
    before: Seq<char>,
    label: Seq<char>,
    url: Seq<char>,
    after: Seq<char>,
    t: Seq<Seq<char>>,
)
    requires
        strip_steps(with_link(before, label, url, after), t),
        sole_link(before, label, url, after),
        plain(before),
        plain(label),
        plain(url),
        plain(after),
    ensures
        t[10] == before + label + " ("@ + url + ")"@ + after,
{
    reveal_strlit("[");
    reveal_strlit("](");
    reveal_strlit(")");
    reveal_strlit(" (");
    let text = with_link(before, label, url, after);
    let n = before.len() as int;
    let l = label.len() as int;
    let u = url.len() as int;
    assert forall|i: int| 0 <= i < text.len() implies (#[trigger] text[i] == '[' || !is_mark(text[i])) by {
        if i < n {
            assert(text[i] == before[i]);
        } else if n + 1 <= i < n + 1 + l {
            assert(text[i] == label[i - n - 1]);
        } else if n + 3 + l <= i < n + 3 + l + u {
            assert(text[i] == url[i - n - 3 - l]);
        } else if n + 4 + l + u <= i {
            assert(text[i] == after[i - n - 4 - l - u]);
        }
    }
    free_means_no_run(text, '`', 3);
    free_means_no_run(text, '|', 2);
    free_means_no_run(text, '~', 2);
    plain_has_no_lines(text);
    assert(t[7] == text);
    let x = before + label + " ("@ + url + ")"@ + after;
    plain_add(before, label);
    plain_add(before + label, " ("@);
    plain_add(before + label + " ("@, url);
    plain_add(before + label + " ("@ + url, ")"@);
    plain_add(before + label + " ("@ + url + ")"@, after);
    plain_lacks(x);
    assert(t[8] == x);
}

proof fn strip_is_right(text: Seq<char>, t: Seq<Seq<char>>)
    requires
        strip_steps(text, t),
    ensures
        strip_right(text, t[10]),
{
    let r = t[10];
    if plain(text) {
        plain_lacks(text);
    }
    assert forall|style: Style, before: Seq<char>, words: Seq<char>, after: Seq<char>|
        text == #[trigger] with_style(style, before, words, after) && plain(before) && wordy(words)
            && plain(after) implies r == before + words + after by {
        strip_style(style, before, words, after, t);
    }
    assert forall|before: Seq<char>, code: Seq<char>, after: Seq<char>|
        #[trigger] enclosed("`"@, '`', before, "`"@ + code + "`"@, code, after) && text == before + (
        "`"@ + code + "`"@) + after && plain(before) && plain(code) && plain(after) implies r
        == before + code + after by {
        strip_code(before, code, after, t);
    }
    assert forall|before: Seq<char>, lead: Seq<char>, title: Seq<char>|
        #[trigger] sole_mark(HEADER_MARK@, before, lead, title) && text == before + lead + title
            && plain(before) && plain(title) implies r == before + title by {
        strip_heading(before, lead, title, t);
    }
    assert forall|before: Seq<char>, label: Seq<char>, url: Seq<char>, after: Seq<char>|
        #[trigger] sole_link(before, label, url, after) && text == with_link(
            before,
            label,
            url,
            after,
        ) && plain(before) && plain(label) && plain(url) && plain(after) implies r == before + label
        + " ("@ + url + ")"@ + after by {
        strip_link(before, label, url, after, t);
    }
}

/// What an escaped text shows: each entity as the character that it stands for.
pub open spec fn shown(h: Seq<char>) -> Seq<char>
    decreases h.len(),
{
    if h.len() == 0 {
        Seq::empty()
    } else if h.len() >= 5 && begins(h, "&amp;"@) {
        seq!['&'] + shown(h.skip(5))
    } else if h.len() >= 4 && begins(h, "&lt;"@) {
        seq!['<'] + shown(h.skip(4))
    } else if h.len() >= 4 && begins(h, "&gt;"@) {
        seq!['>'] + shown(h.skip(4))
    } else {
        seq![h[0]] + shown(h.skip(1))
    }
}

/// An escaped text shows the text; so different texts are shown differently.
pub proof fn escaped_text_is_shown(s: Seq<char>)
    ensures
        shown(escaped(s)) == s,
    decreases s.len(),
{
    if s.len() > 0 {
        reveal_strlit("&amp;");
        reveal_strlit("&lt;");
        reveal_strlit("&gt;");
        let first = seq![s[0]];
        let rest = s.skip(1);
        assert(s =~= first + rest);
        escaped_add(first, rest);
        assert(first.drop_last() =~= Seq::<char>::empty());
        assert(escaped(first.drop_last()) =~= Seq::<char>::empty());
        assert(escaped(first) =~= escape_of(s[0]));
        escaped_text_is_shown(rest);
        let h = escaped(s);
        let e = escape_of(s[0]);
        assert(h == e + escaped(rest));
        assert(h.skip(e.len() as int) =~= escaped(rest));
        if s[0] == '&' {
            assert(h.take(5) =~= "&amp;"@);
        } else if s[0] == '<' {
            assert(h[1] == 'l');
            assert(h.len() >= 5 ==> h.take(5)[1] == 'l');
            assert(h.take(4) =~= "&lt;"@);
        } else if s[0] == '>' {
            assert(h[1] == 'g');
            assert(h.len() >= 5 ==> h.take(5)[1] == 'g');
            assert(h.take(4)[1] == 'g');
            assert(h.take(4) =~= "&gt;"@);
        } else {
            assert(h[0] == s[0]);
            assert(begins(h, "&amp;"@) ==> h.take(5)[0] == '&');
            assert(begins(h, "&lt;"@) ==> h.take(4)[0] == '&');
            assert(begins(h, "&gt;"@) ==> h.take(4)[0] == '&');
        }
        assert(shown(h) =~= s);
    }
}

/// Markdown without its marks.
pub fn strip_markdown(text: &str) -> (r: String)
    ensures
        r@ == plain_text(text@),
        text@.len() > 0 ==> strip_right(text@, r@),
{
    if text.is_empty() {
        return text.to_owned();
    }
    let a: String = swap(CODE_FENCE, text, "");
    let b: String = swap(ANY_INLINE_CODE, a.as_str(), "$1");
    let c: String = swap(HEADER_MARK, b.as_str(), "");
    let d: String = swap(RULE_LINE, c.as_str(), "———");
    let e: String = swap(ANY_STARS, d.as_str(), "$1");
    let f: String = swap(ANY_UNDERSCORES, e.as_str(), "$1");
    let g: String = swap(STRIKE, f.as_str(), "$1");
    let h: String = swap(SPOILER, g.as_str(), "$1");
    let i: String = swap(LINK, h.as_str(), "$1 ($2)");
    let j: String = swap(QUOTE_MARK, i.as_str(), "");
    let k: String = swap(BULLET, j.as_str(), "$1• ");
    proof {
        let t = seq![a@, b@, c@, d@, e@, f@, g@, h@, i@, j@, k@];
        assert(strip_steps(text@, t));
        strip_is_right(text@, t);
    }
    k
}

/// Lines that quote one after another make one quote of all that they quote, in order; a line that
/// quotes nothing stands by itself behind it, as it is.
pub proof fn quotes_are_merged_line_by_line(lines: Seq<Seq<char>>, line: Seq<char>, t: Seq<char>)
    ensures
        quoted_in(line) == Some(t) && quoting(lines).quote.len() == 0 ==> closed(
            quoting(lines.push(line)),
        ) == closed(quoting(lines)).push("<blockquote>"@ + t + "</blockquote>"@),
        quoted_in(line) == Some(t) && quoting(lines).quote.len() > 0 ==> closed(
            quoting(lines.push(line)),
        ) == quoting(lines).done.push(
            "<blockquote>"@ + (joined(quoting(lines).quote, "\n"@) + "\n"@ + t) + "</blockquote>"@,
        ),
        quoted_in(line) is None ==> closed(quoting(lines.push(line))) == closed(quoting(lines)).push(
            line,
        ),
        closed(quoting(Seq::empty())).len() == 0,
        quoted_in("&gt; "@ + t) == Some(t),
        quoted_in("&gt;"@) == Some(Seq::<char>::empty()),
        t.len() > 0 && !is_ws(t[0]) && t[0] != '&' ==> quoted_in(t) is None,
{
    reveal_strlit("&gt; ");
    reveal_strlit("&gt;");
    assert(lines.push(line).drop_last() =~= lines);
    assert(lines.push(line).last() == line);
    let q = quoting(lines);
    if quoted_in(line) == Some(t) {
        let now = q.quote.push(t);
        assert(now.drop_last() =~= q.quote);
        assert(now.last() == t);
    }
    let a = "&gt; "@ + t;
    assert(a[0] == '&');
    assert(a.take(5) =~= "&gt; "@);
    assert(a.skip(5) =~= t);
    assert(trimmed_start("&gt;"@) == "&gt;"@);
    if t.len() > 0 && !is_ws(t[0]) && t[0] != '&' {
        assert(t.len() >= 5 ==> t.take(5)[0] == t[0]);
        assert("&gt;"@[0] == '&');
    }
}

/// What code, links and blocks of code show is what they hold, and an address without brackets is
/// linked to as it is.
pub proof fn marks_show_what_they_hold(a: Seq<char>, b: Seq<char>)
    ensures
        mark_html(Mark::Inline, a, b) == "<code>"@ + escaped(a) + "</code>"@,
        free_of(b, '<') && free_of(b, '>') ==> mark_html(Mark::Link, a, b) == "<a href=\""@ + b + "\">"@
            + escaped(a) + "</a>"@,
        a.len() == 0 ==> mark_html(Mark::Block, a, b) == "<pre>"@ + escaped(b) + "</pre>"@,
        a.len() > 0 && !is_ws(a[0]) && !is_ws(a.last()) ==> mark_html(Mark::Block, a, b)
            == "<pre><code class=\"language-"@ + escaped(a) + "\">"@ + escaped(b) + "</code></pre>"@,
        shown(escaped(a)) == a,
        shown(escaped(b)) == b,
{
    reveal_strlit("<");
    reveal_strlit(">");
    if free_of(b, '<') && free_of(b, '>') {
        replaced_nothing(b, "<"@, "%3C"@);
        replaced_nothing(b, ">"@, "%3E"@);
    }
    if a.len() == 0 {
        assert(a =~= Seq::<char>::empty());
    }
    escaped_text_is_shown(a);
    escaped_text_is_shown(b);
}

// ---------------------------------------------------------------------------------------------
// What a reader sees
// ---------------------------------------------------------------------------------------------

/// What a reader sees of HTML: elements leave no trace, and entities stand for their characters.
pub open spec fn visible(h: Seq<char>) -> Seq<char>
    decreases h.len(),
{
    if h.len() == 0 {
        Seq::empty()
    } else if h[0] == '<' {
        match first_at(h, seq!['>']) {
            Some(i) => if 0 <= i < h.len() {
                visible(h.skip(i + 1))
            } else {
                Seq::empty()
            },
            None => Seq::empty(),
        }
    } else if h.len() >= 5 && begins(h, "&amp;"@) {
        seq!['&'] + visible(h.skip(5))
    } else if h.len() >= 4 && begins(h, "&lt;"@) {
        seq!['<'] + visible(h.skip(4))
    } else if h.len() >= 4 && begins(h, "&gt;"@) {
        seq!['>'] + visible(h.skip(4))
    } else {
        seq![h[0]] + visible(h.skip(1))
    }
}

/// A tag: a bracket, what stands in it, and the bracket that closes it.
pub open spec fn is_tag(t: Seq<char>) -> bool {
    &&& t.len() >= 2
    &&& t[0] == '<'
    &&& t.last() == '>'
    &&& forall|i: int| 0 <= i < t.len() - 1 ==> #[trigger] t[i] != '>'
}

/// A tag leaves no trace.
pub proof fn tags_are_not_seen(t: Seq<char>, rest: Seq<char>)
    requires
        is_tag(t),
    ensures
        visible(t + rest) == visible(rest),
{
    let h = t + rest;
    let gt = seq!['>'];
    let n = t.len() - 1;
    assert(h[0] == '<');
    first_at_from_is_first(h, gt, 0);
    assert(h.subrange(n, n + 1) =~= gt) by {
        assert(h[n] == t.last());
    }
    assert(occurs_at(h, gt, n));
    match first_at(h, gt) {
        Some(i) => {
            if i < n {
                assert(h.subrange(i, i + 1)[0] == t[i]);
            }
            assert(i == n);
            assert(h.skip(n + 1) =~= rest);
        },
        None => {},
    }
}

/// An escaped text is seen as the text.
pub proof fn escaped_text_is_seen(a: Seq<char>, rest: Seq<char>)
    ensures
        visible(escaped(a) + rest) == a + visible(rest),
    decreases a.len(),
{
    if a.len() == 0 {
        assert(escaped(a) + rest =~= rest);
        assert(a + visible(rest) =~= visible(rest));
    } else {
        reveal_strlit("&amp;");
        reveal_strlit("&lt;");
        reveal_strlit("&gt;");
        let first = seq![a[0]];
        let more = a.skip(1);
        assert(a =~= first + more);
        escaped_add(first, more);
        assert(first.drop_last() =~= Seq::<char>::empty());
        assert(escaped(first.drop_last()) =~= Seq::<char>::empty());
        assert(escaped(first) =~= escape_of(a[0]));
        escaped_text_is_seen(more, rest);
        let e = escape_of(a[0]);
        let tail = escaped(more) + rest;
        let h = escaped(a) + rest;
        assert(h =~= e + tail);
        assert(h.skip(e.len() as int) =~= tail);
        if a[0] == '&' {
            assert(h.take(5) =~= "&amp;"@);
        } else if a[0] == '<' {
            assert(h[0] == '&' && h[1] == 'l');
            assert(h.len() >= 5 ==> h.take(5)[1] == 'l');
            assert(h.take(4) =~= "&lt;"@);
        } else if a[0] == '>' {
            assert(h[0] == '&' && h[1] == 'g');
            assert(h.len() >= 5 ==> h.take(5)[1] == 'g');
            assert(h.take(4)[1] == 'g');
            assert(h.take(4) =~= "&gt;"@);
        } else {
            assert(h[0] == a[0]);
            assert(h.len() >= 5 ==> h.take(5)[0] == a[0]);
            assert(h.len() >= 4 ==> h.take(4)[0] == a[0]);
        }
        assert(visible(h) =~= a + visible(rest));
    }
}

/// What stands before, within and behind an element is seen, and the element is not.
pub proof fn elements_are_not_seen(
    before: Seq<char>,
    open: Seq<char>,
    words: Seq<char>,
    close: Seq<char>,
    after: Seq<char>,
)
    requires
        is_tag(open),
        is_tag(close),
    ensures
        visible(escaped(before) + open + escaped(words) + close + escaped(after)) == before + words
            + after,
{
    let e = Seq::<char>::empty();
    assert(visible(e) =~= e);
    let ea = escaped(after);
    escaped_text_is_seen(after, e);
    assert(ea + e =~= ea);
    assert(after + visible(e) =~= after);
    tags_are_not_seen(close, ea);
    escaped_text_is_seen(words, close + ea);
    tags_are_not_seen(open, escaped(words) + (close + ea));
    escaped_text_is_seen(before, open + (escaped(words) + (close + ea)));
    assert(escaped(before) + open + escaped(words) + close + ea =~= escaped(before) + (open + (escaped(
        words,
    ) + (close + ea))));
    assert(before + (words + after) =~= before + words + after);
}

proof fn tags()
    ensures
        is_tag("<tg-spoiler>"@),
        is_tag("</tg-spoiler>"@),
        is_tag("<b>"@),
        is_tag("</b>"@),
        is_tag("<i>"@),
        is_tag("</i>"@),
        is_tag("<s>"@),
        is_tag("</s>"@),
        is_tag("<code>"@),
        is_tag("</code>"@),
        is_tag("<blockquote>"@),
        is_tag("</blockquote>"@),
        is_tag("</a>"@),
        is_tag("<pre>"@),
        is_tag("</pre>"@),
{
    reveal_strlit("<tg-spoiler>");
    reveal_strlit("</tg-spoiler>");
    reveal_strlit("<b>");
    reveal_strlit("</b>");
    reveal_strlit("<i>");
    reveal_strlit("</i>");
    reveal_strlit("<s>");
    reveal_strlit("</s>");
    reveal_strlit("<code>");
    reveal_strlit("</code>");
    reveal_strlit("<blockquote>");
    reveal_strlit("</blockquote>");
    reveal_strlit("</a>");
    reveal_strlit("<pre>");
    reveal_strlit("</pre>");
}

/// Every word outside the marks can be seen: of words in a style, of titles, of code and of quotes,
/// and of all that stands around them.
pub proof fn every_word_is_seen(
    style: Style,
    before: Seq<char>,
    words: Seq<char>,
    after: Seq<char>,
)
    ensures
        visible(escaped(before) + styled(style, escaped(words)) + escaped(after)) == before + words
            + after,
        visible(escaped(before) + "<b>"@ + escaped(words) + "</b>"@ + escaped(after)) == before + words
            + after,
        visible(escaped(before) + "<code>"@ + escaped(words) + "</code>"@ + escaped(after)) == before
            + words + after,
        visible(escaped(before) + "<pre>"@ + escaped(words) + "</pre>"@ + escaped(after)) == before
            + words + after,
        visible(escaped(words)) == words,
        visible("<blockquote>"@ + escaped(words) + "</blockquote>"@) == words,
        shown(escaped(words)) == visible(escaped(words)),
{
    tags();
    let e = Seq::<char>::empty();
    let eb = escaped(before);
    let ew = escaped(words);
    let ea = escaped(after);
    elements_are_not_seen(before, "<b>"@, words, "</b>"@, after);
    elements_are_not_seen(before, "<code>"@, words, "</code>"@, after);
    elements_are_not_seen(before, "<pre>"@, words, "</pre>"@, after);
    elements_are_not_seen(before, "<i>"@, words, "</i>"@, after);
    elements_are_not_seen(before, "<s>"@, words, "</s>"@, after);
    elements_are_not_seen(before, "<tg-spoiler>"@, words, "</tg-spoiler>"@, after);
    elements_are_not_seen(e, "<blockquote>"@, words, "</blockquote>"@, e);
    assert(escaped(e) =~= e);
    assert(e + "<blockquote>"@ + ew + "</blockquote>"@ + e =~= "<blockquote>"@ + ew
        + "</blockquote>"@);
    assert(e + words + e =~= words);
    escaped_text_is_seen(words, e);
    assert(ew + e =~= ew);
    assert(visible(e) =~= e);
    assert(words + visible(e) =~= words);
    escaped_text_is_shown(words);
    match style {
        Style::BoldItalic => {
            two_elements_are_not_seen(before, words, after);
        },
        Style::Spoiler => {
            assert(eb + styled(style, ew) + ea =~= eb + "<tg-spoiler>"@ + ew + "</tg-spoiler>"@ + ea);
        },
        Style::Bold => {
            assert(eb + styled(style, ew) + ea =~= eb + "<b>"@ + ew + "</b>"@ + ea);
        },
        Style::BoldUnderscore => {
            assert(eb + styled(style, ew) + ea =~= eb + "<b>"@ + ew + "</b>"@ + ea);
        },
        Style::Italic => {
            assert(eb + styled(style, ew) + ea =~= eb + "<i>"@ + ew + "</i>"@ + ea);
        },
        Style::ItalicUnderscore => {
            assert(eb + styled(style, ew) + ea =~= eb + "<i>"@ + ew + "</i>"@ + ea);
        },
        Style::Strike => {
            assert(eb + styled(style, ew) + ea =~= eb + "<s>"@ + ew + "</s>"@ + ea);
        },
    }
}

proof fn two_elements_are_not_seen(before: Seq<char>, words: Seq<char>, after: Seq<char>)
    ensures
        visible(escaped(before) + styled(Style::BoldItalic, escaped(words)) + escaped(after)) == before
            + words + after,
{
    tags();
    reveal_strlit("<b><i>");
    reveal_strlit("</i></b>");
    reveal_strlit("<b>");
    reveal_strlit("<i>");
    reveal_strlit("</b>");
    reveal_strlit("</i>");
    let e = Seq::<char>::empty();
    let ew = escaped(words);
    let ea = escaped(after);
    assert("<b><i>"@ =~= "<b>"@ + "<i>"@);
    assert("</i></b>"@ =~= "</i>"@ + "</b>"@);
    assert(visible(e) =~= e);
    escaped_text_is_seen(after, e);
    assert(ea + e =~= ea);
    assert(after + visible(e) =~= after);
    tags_are_not_seen("</b>"@, ea);
    tags_are_not_seen("</i>"@, "</b>"@ + ea);
    let tail = "</i>"@ + ("</b>"@ + ea);
    escaped_text_is_seen(words, tail);
    tags_are_not_seen("<i>"@, ew + tail);
    tags_are_not_seen("<b>"@, "<i>"@ + (ew + tail));
    let mid = "<b>"@ + ("<i>"@ + (ew + tail));
    escaped_text_is_seen(before, mid);
    assert(escaped(before) + styled(Style::BoldItalic, ew) + ea =~= escaped(before) + mid);
    assert(before + (words + after) =~= before + words + after);
}

} // verus!
