//! Regular expressions.

use vstd::prelude::*;

use crate::strs::{byte_len, free_of, is_alnum, is_ws};

verus! {

pub const CODE_BLOCK: &'static str = "```(\\w*)\\n?(.*?)```";

pub const INLINE_CODE: &'static str = "`([^`\\n]+)`";

pub const LINK: &'static str = "\\[([^\\]]+)\\]\\(([^)]+)\\)";

pub const RULE_LINE: &'static str = "(?m)^[\\*\\-_]{3,}\\s*$";

pub const HEADER: &'static str = "(?m)^#{1,6}\\s+(.+?)$";

pub const BULLET: &'static str = "(?m)^(\\s*)[\\*\\-]\\s+";

pub const SPOILER: &'static str = "\\|\\|(.+?)\\|\\|";

pub const BOLD_ITALIC: &'static str = "\\*{3}(.+?)\\*{3}";

pub const BOLD: &'static str = "\\*{2}(.+?)\\*{2}";

pub const BOLD_UNDERSCORE: &'static str = "__(.+?)__";

pub const ITALIC: &'static str = "\\*([^*\\n]+)\\*";

pub const ITALIC_UNDERSCORE: &'static str = "_([^_\\n]+)_";

pub const STRIKE: &'static str = "~~(.+?)~~";

pub const CODE_FENCE: &'static str = "```\\w*\\n?";

pub const ANY_INLINE_CODE: &'static str = "`([^`]+)`";

pub const HEADER_MARK: &'static str = "(?m)^#{1,6}\\s+";

pub const ANY_STARS: &'static str = "\\*{1,3}(.+?)\\*{1,3}";

pub const ANY_UNDERSCORES: &'static str = "_{1,2}(.+?)_{1,2}";

pub const QUOTE_MARK: &'static str = "(?m)^>\\s?";

/// The patterns above.
pub open spec fn is_fixed_pattern(p: Seq<char>) -> bool {
    ||| p == CODE_BLOCK@
    ||| p == INLINE_CODE@
    ||| p == LINK@
    ||| p == RULE_LINE@
    ||| p == HEADER@
    ||| p == BULLET@
    ||| p == SPOILER@
    ||| p == BOLD_ITALIC@
    ||| p == BOLD@
    ||| p == BOLD_UNDERSCORE@
    ||| p == ITALIC@
    ||| p == ITALIC_UNDERSCORE@
    ||| p == STRIKE@
    ||| p == CODE_FENCE@
    ||| p == ANY_INLINE_CODE@
    ||| p == HEADER_MARK@
    ||| p == ANY_STARS@
    ||| p == ANY_UNDERSCORES@
    ||| p == QUOTE_MARK@
}

/// Whether a line begins right after this text.
pub open spec fn ends_line(before: Seq<char>) -> bool {
    before.len() == 0 || before.last() == '\n'
}

/// The characters that make a line between two parts of a text.
pub open spec fn is_rule_mark(c: char) -> bool {
    c == '*' || c == '-' || c == '_'
}

/// Whether no `n` characters of the text, one after another, are this one.
pub open spec fn no_run(s: Seq<char>, c: char, n: nat) -> bool {
    forall|i: int| 0 <= i && i + n <= s.len() ==> #[trigger] broken_run(s, c, i, n)
}

/// Whether one of `n` characters of the text, from the `i`th on, is another one.
pub open spec fn broken_run(s: Seq<char>, c: char, i: int, n: nat) -> bool {
    exists|j: int| i <= j < i + n && #[trigger] s[j] != c
}

/// Whether every line that begins with such a mark holds a letter, or something else that is
/// neither a mark nor white space.
pub open spec fn no_rule(s: Seq<char>) -> bool {
    forall|i: int|
        0 <= i < s.len() && is_rule_mark(#[trigger] s[i]) && (i == 0 || s[i - 1] == '\n') ==> exists|
            j: int,
        |
            #![trigger s[j]]
            i < j < s.len() && !is_rule_mark(s[j]) && !is_ws(s[j]) && free_of(s.subrange(i, j), '\n')
}

/// Whether no mark of a list has white space, or the start of the text, before it and white space
/// after it.
pub open spec fn no_bullet(s: Seq<char>) -> bool {
    forall|i: int|
        0 <= i < s.len() && (#[trigger] s[i] == '*' || s[i] == '-') ==> {
            ||| i + 1 == s.len()
            ||| !is_ws(s[i + 1])
            ||| i > 0 && !is_ws(s[i - 1])
        }
}

/// Whether a text lacks what every match of a fixed pattern holds.
pub open spec fn lacks(pattern: Seq<char>, s: Seq<char>) -> bool {
    ||| (pattern == CODE_BLOCK@ || pattern == CODE_FENCE@) && no_run(s, '`', 3)
    ||| (pattern == INLINE_CODE@ || pattern == ANY_INLINE_CODE@) && free_of(s, '`')
    ||| pattern == LINK@ && free_of(s, '[')
    ||| pattern == RULE_LINE@ && no_rule(s)
    ||| (pattern == HEADER@ || pattern == HEADER_MARK@) && free_of(s, '#')
    ||| pattern == BULLET@ && no_bullet(s)
    ||| pattern == SPOILER@ && no_run(s, '|', 2)
    ||| pattern == BOLD_ITALIC@ && no_run(s, '*', 3)
    ||| pattern == BOLD@ && no_run(s, '*', 2)
    ||| pattern == BOLD_UNDERSCORE@ && no_run(s, '_', 2)
    ||| (pattern == ITALIC@ || pattern == ANY_STARS@) && free_of(s, '*')
    ||| (pattern == ITALIC_UNDERSCORE@ || pattern == ANY_UNDERSCORES@) && free_of(s, '_')
    ||| pattern == STRIKE@ && no_run(s, '~', 2)
    ||| pattern == QUOTE_MARK@ && free_of(s, '>')
}

/// Whether what a pattern finds is these words between two such marks, the marks being nowhere
/// else.
pub open spec fn enclosed(
    mark: Seq<char>,
    c: char,
    before: Seq<char>,
    found: Seq<char>,
    words: Seq<char>,
    after: Seq<char>,
) -> bool {
    &&& found == mark + words + mark
    &&& words.len() > 0
    &&& free_of(words, '\n')
    &&& free_of(words, c)
    &&& free_of(before, c)
    &&& free_of(after, c)
}

/// One to six `#` and white space after them.
pub open spec fn heads(lead: Seq<char>) -> bool {
    exists|n: int|
        1 <= n <= 6 && n < lead.len() && #[trigger] hashes_to(lead, n) && forall|i: int|
            n <= i < lead.len() ==> is_ws(#[trigger] lead[i])
}

/// Whether the first `n` characters are `#`.
pub open spec fn hashes_to(lead: Seq<char>, n: int) -> bool {
    forall|i: int| 0 <= i < n ==> #[trigger] lead[i] == '#'
}

/// Whether the one match of a fixed pattern in the three parts put together is the second, with
/// `words` for its first group.
pub open spec fn sole_match(
    pattern: Seq<char>,
    before: Seq<char>,
    found: Seq<char>,
    words: Seq<char>,
    after: Seq<char>,
) -> bool {
    ||| (pattern == INLINE_CODE@ || pattern == ANY_INLINE_CODE@) && enclosed(
        "`"@,
        '`',
        before,
        found,
        words,
        after,
    )
    ||| pattern == SPOILER@ && enclosed("||"@, '|', before, found, words, after)
    ||| pattern == BOLD_ITALIC@ && enclosed("***"@, '*', before, found, words, after)
    ||| pattern == BOLD@ && enclosed("**"@, '*', before, found, words, after)
    ||| pattern == ITALIC@ && enclosed("*"@, '*', before, found, words, after)
    ||| pattern == BOLD_UNDERSCORE@ && enclosed("__"@, '_', before, found, words, after)
    ||| pattern == ITALIC_UNDERSCORE@ && enclosed("_"@, '_', before, found, words, after)
    ||| pattern == STRIKE@ && enclosed("~~"@, '~', before, found, words, after)
    ||| pattern == ANY_STARS@ && exists|mark: Seq<char>|
        #[trigger] enclosed(mark, '*', before, found, words, after) && (mark == "*"@ || mark
            == "**"@ || mark == "***"@)
    ||| pattern == ANY_UNDERSCORES@ && exists|mark: Seq<char>|
        #[trigger] enclosed(mark, '_', before, found, words, after) && (mark == "_"@ || mark
            == "__"@)
    ||| pattern == HEADER@ && title_line(before, found, words, after)
    ||| pattern == BULLET@ && list_item(before, found, words, after)
}

/// A line of one to six `#`, white space and a title.
pub open spec fn title_line(
    before: Seq<char>,
    found: Seq<char>,
    title: Seq<char>,
    after: Seq<char>,
) -> bool {
    &&& exists|lead: Seq<char>| #[trigger] heads(lead) && found == lead + title
    &&& title.len() > 0
    &&& !is_ws(title[0])
    &&& free_of(title, '\n')
    &&& ends_line(before)
    &&& after.len() == 0 || after[0] == '\n'
    &&& free_of(before, '#')
    &&& free_of(after, '#')
}

/// The start of a line of a list: spaces, a mark and one space.
pub open spec fn list_item(
    before: Seq<char>,
    found: Seq<char>,
    indent: Seq<char>,
    after: Seq<char>,
) -> bool {
    &&& found == indent + "* "@ || found == indent + "- "@
    &&& forall|i: int| 0 <= i < indent.len() ==> #[trigger] indent[i] == ' '
    &&& before.len() == 0 || before.len() >= 2 && before.last() == '\n' && !is_ws(
        before[before.len() - 2],
    )
    &&& after.len() > 0 && !is_ws(after[0])
    &&& free_of(before, '*') && free_of(before, '-')
    &&& free_of(after, '*') && free_of(after, '-')
}

/// A template that puts two texts around the first group.
pub open spec fn around_group(template: Seq<char>, open: Seq<char>, close: Seq<char>) -> bool {
    &&& template == open + "$1"@ + close
    &&& free_of(open, '$')
    &&& free_of(close, '$')
    &&& close.len() == 0 || !is_alnum(close[0]) && close[0] != '_'
}

/// Whether the one match of a fixed pattern in the three parts put together is the second.
pub open spec fn sole_mark(
    pattern: Seq<char>,
    before: Seq<char>,
    found: Seq<char>,
    after: Seq<char>,
) -> bool {
    ||| {
        &&& pattern == HEADER_MARK@
        &&& heads(found)
        &&& ends_line(before)
        &&& after.len() == 0 || !is_ws(after[0])
        &&& free_of(before, '#')
        &&& free_of(after, '#')
    }
    ||| {
        &&& pattern == QUOTE_MARK@
        &&& found == "> "@
        &&& ends_line(before)
        &&& free_of(before, '>')
        &&& free_of(after, '>')
    }
    ||| {
        &&& pattern == RULE_LINE@
        &&& found.len() >= 3
        &&& forall|i: int| 0 <= i < found.len() ==> is_rule_mark(#[trigger] found[i])
        &&& ends_line(before)
        &&& after.len() == 0 || after.len() >= 2 && after[0] == '\n' && !is_ws(after[1])
        &&& forall|i: int| 0 <= i < before.len() ==> !is_rule_mark(#[trigger] before[i])
        &&& forall|i: int| 0 <= i < after.len() ==> !is_rule_mark(#[trigger] after[i])
    }
}

/// Whether the one link in the parts put together is this label with this address.
pub open spec fn sole_link(
    before: Seq<char>,
    label: Seq<char>,
    url: Seq<char>,
    after: Seq<char>,
) -> bool {
    &&& label.len() > 0 && free_of(label, '[') && free_of(label, ']')
    &&& url.len() > 0 && free_of(url, ')')
    &&& free_of(before, '[')
    &&& free_of(after, '[')
}

/// A text with a link in it.
pub open spec fn with_link(
    before: Seq<char>,
    label: Seq<char>,
    url: Seq<char>,
    after: Seq<char>,
) -> Seq<char> {
    before + "["@ + label + "]("@ + url + ")"@ + after
}

/// Whether the one block of code in the parts put together is this code with this language.
pub open spec fn sole_block(
    before: Seq<char>,
    lang: Seq<char>,
    code: Seq<char>,
    after: Seq<char>,
) -> bool {
    &&& forall|i: int| 0 <= i < lang.len() ==> is_alnum(#[trigger] lang[i])
    &&& free_of(code, '`') && free_of(code, '\n')
    &&& free_of(before, '`')
    &&& free_of(after, '`')
}

/// A text with a block of code in it.
pub open spec fn with_block(
    before: Seq<char>,
    lang: Seq<char>,
    code: Seq<char>,
    after: Seq<char>,
) -> Seq<char> {
    before + "```"@ + lang + "\n"@ + code + "```"@ + after
}

/// What becomes of a text by a fixed pattern and a template, where it lacks what the pattern finds
/// or holds it once.
pub open spec fn replaced_right(
    pattern: Seq<char>,
    text: Seq<char>,
    template: Seq<char>,
    r: Option<Seq<char>>,
) -> bool {
    &&& lacks(pattern, text) ==> r == Some(text)
    &&& forall|
        before: Seq<char>,
        found: Seq<char>,
        words: Seq<char>,
        after: Seq<char>,
        open: Seq<char>,
        close: Seq<char>,
    |
        #![trigger sole_match(pattern, before, found, words, after), around_group(template, open, close)]
        sole_match(pattern, before, found, words, after) && around_group(template, open, close)
            && text == before + found + after ==> r == Some(before + open + words + close + after)
    &&& forall|before: Seq<char>, found: Seq<char>, after: Seq<char>|
        #[trigger] sole_mark(pattern, before, found, after) && text == before + found + after
            && free_of(template, '$') ==> r == Some(before + template + after)
    &&& forall|before: Seq<char>, label: Seq<char>, url: Seq<char>, after: Seq<char>|
        #[trigger] sole_link(before, label, url, after) && pattern == LINK@ && text == with_link(
            before,
            label,
            url,
            after,
        ) && template == "$1 ($2)"@ ==> r == Some(before + label + " ("@ + url + ")"@ + after)
}

/// Whether a range is where a text stands behind another, in bytes.
pub open spec fn is_span(r: Option<(usize, usize)>, before: Seq<char>, text: Seq<char>) -> bool {
    r matches Some((i, j)) && i == byte_len(before) && j == byte_len(before + text)
}

/// What a fixed pattern finds in a text that lacks it or holds it once.
pub open spec fn found_right(
    pattern: Seq<char>,
    text: Seq<char>,
    r: Option<Seq<Seq<Option<(usize, usize)>>>>,
) -> bool {
    &&& lacks(pattern, text) ==> r == Some(Seq::<Seq<Option<(usize, usize)>>>::empty())
    &&& forall|before: Seq<char>, found: Seq<char>, words: Seq<char>, after: Seq<char>|
        pattern == INLINE_CODE@ && #[trigger] sole_match(pattern, before, found, words, after)
            && text == before + found + after ==> {
            &&& r matches Some(ms) && ms.len() == 1 && ms[0].len() == 2
            &&& is_span((r->0)[0][0], before, found)
            &&& is_span((r->0)[0][1], before + "`"@, words)
        }
    &&& forall|before: Seq<char>, label: Seq<char>, url: Seq<char>, after: Seq<char>|
        #[trigger] sole_link(before, label, url, after) && pattern == LINK@ && text == with_link(
            before,
            label,
            url,
            after,
        ) ==> {
            &&& r matches Some(ms) && ms.len() == 1 && ms[0].len() == 3
            &&& is_span((r->0)[0][0], before, "["@ + label + "]("@ + url + ")"@)
            &&& is_span((r->0)[0][1], before + "["@, label)
            &&& is_span((r->0)[0][2], before + "["@ + label + "]("@, url)
        }
    &&& forall|before: Seq<char>, lang: Seq<char>, code: Seq<char>, after: Seq<char>|
        #[trigger] sole_block(before, lang, code, after) && pattern == CODE_BLOCK@ && text
            == with_block(before, lang, code, after) ==> {
            &&& r matches Some(ms) && ms.len() == 1 && ms[0].len() == 3
            &&& is_span((r->0)[0][0], before, "```"@ + lang + "\n"@ + code + "```"@)
            &&& is_span((r->0)[0][1], before + "```"@, lang)
            &&& is_span((r->0)[0][2], before + "```"@ + lang + "\n"@, code)
        }
}

/// What `regex::Regex::replace_all` makes of a text, with a pattern and a template; `None` where
/// the pattern is not valid.
pub uninterp spec fn pattern_replaced(
    pattern: Seq<char>,
    text: Seq<char>,
    template: Seq<char>,
) -> Option<Seq<char>>;

/// `regex::Regex::new` and `regex::Regex::replace_all`: the text with the template, expanded, in
/// place of every match of the pattern. `None` where the pattern is not valid, which none of the
/// fixed patterns is. A text that lacks a mark that every match of the pattern holds stays as it
/// is; where there is one match, what is around it stays as it is, and `$1` in the template gives
/// what the first group holds.
#[verifier::external_body]
pub(crate) fn replace_matches(pattern: &str, text: &str, template: &str) -> (r: Option<String>)
    ensures
        r.deep_view() == pattern_replaced(pattern@, text@, template@),
        is_fixed_pattern(pattern@) ==> r is Some,
        replaced_right(pattern@, text@, template@, r.deep_view()),
{
    let re = regex::Regex::new(pattern).ok()?;
    Some(re.replace_all(text, template).into_owned())
}

/// A match: from which byte of the text to which it goes, and then the same of each group that
/// took part in it.
pub type Ranges = Vec<Option<(usize, usize)>>;

/// The matches lie within the text, one after another.
pub open spec fn in_text(ms: Seq<Seq<Option<(usize, usize)>>>, text: Seq<char>) -> bool {
    &&& forall|k: int| 0 <= k < ms.len() ==> (#[trigger] ms[k]).len() > 0 && ms[k][0] is Some
    &&& forall|k: int, g: int|
        0 <= k < ms.len() && 0 <= g < ms[k].len() ==> (#[trigger] ms[k][g] matches Some((a, b))
            ==> a <= b <= byte_len(text))
    &&& forall|j: int, k: int|
        0 <= j < k < ms.len() ==> ((#[trigger] ms[j])[0]->0).1 <= ((#[trigger] ms[k])[0]->0).0
}

/// Where `regex::Regex::captures_iter` finds a pattern in a text; `None` where the pattern is not
/// valid.
pub uninterp spec fn pattern_matches(pattern: Seq<char>, text: Seq<char>) -> Option<
    Seq<Seq<Option<(usize, usize)>>>,
>;

/// `regex::Regex::new` and `regex::Regex::captures_iter`: the matches of the pattern, which do not
/// overlap and come in order, with the byte ranges of their groups. `None` where the pattern is
/// not valid, which none of the fixed patterns is. A text that lacks a mark that every match of the
/// pattern holds has no match; where there is one piece of code, one link or one block of code, it
/// is the one match, and its groups are what is between its marks.
#[verifier::external_body]
pub(crate) fn find_matches(pattern: &str, text: &str) -> (r: Option<Vec<Ranges>>)
    ensures
        r.deep_view() == pattern_matches(pattern@, text@),
        r matches Some(ms) ==> in_text(ms.deep_view(), text@),
        is_fixed_pattern(pattern@) ==> r is Some,
        found_right(pattern@, text@, r.deep_view()),
{
    let re = regex::Regex::new(pattern).ok()?;
    let all = re.captures_iter(text);
    Some(all.map(|c| c.iter().map(|m| m.map(|m| (m.start(), m.end()))).collect()).collect())
}

/// The characters that mean something in a pattern.
pub open spec fn is_meta(c: char) -> bool {
    c == '\\' || c == '.' || c == '+' || c == '*' || c == '?' || c == '(' || c == ')' || c == '|' || c
        == '[' || c == ']' || c == '{' || c == '}' || c == '^' || c == '$' || c == '#' || c == '&'
        || c == '-' || c == '~'
}

/// A text with a backslash before each character that means something in a pattern.
pub open spec fn escaped_pattern(text: Seq<char>) -> Seq<char>
    decreases text.len(),
{
    if text.len() == 0 {
        Seq::empty()
    } else if is_meta(text.last()) {
        escaped_pattern(text.drop_last()).push('\\').push(text.last())
    } else {
        escaped_pattern(text.drop_last()).push(text.last())
    }
}

/// `regex::escape`: a pattern that stands for the text itself, with a backslash before each
/// character that means something in a pattern.
#[verifier::external_body]
pub(crate) fn escape_pattern(text: &str) -> (r: String)
    ensures
        r@ == escaped_pattern(text@),
{
    regex::escape(text)
}

} // verus!
