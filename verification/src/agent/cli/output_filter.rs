//! What of a command-line agent's output is sent to the chat.

use vstd::prelude::*;

use crate::config::CliRunnerConfig;
use crate::strs::{
    begins, first_at, find, join, joined, lines, lines_of, same, starts_with, texts, texts_push,
    trim, trimmed,
};

verus! {

/// The line after which the agent echoes its prompt.
pub const CODEX_STDIN_MARKER: &'static str = "Reading prompt from stdin...";

/// What stands before the first `marker`, trimmed; nothing where that is empty.
pub open spec fn text_before(raw: Seq<char>, marker: Seq<char>) -> Option<Seq<char>> {
    match first_at(raw, marker) {
        Some(i) => {
            let before = trimmed(raw.take(i));
            if before.len() == 0 {
                None
            } else {
                Some(before)
            }
        },
        None => None,
    }
}

/// A line that ends a reply.
pub open spec fn is_footer(line: Seq<char>) -> bool {
    begins(line, "hook:"@) || begins(line, "tokens used"@) || line == "--------"@ || line
        == CODEX_STDIN_MARKER@
}

/// A line of the banner.
pub open spec fn is_metadata(line: Seq<char>) -> bool {
    begins(line, "OpenAI Codex"@) || begins(line, "workdir:"@) || begins(line, "model:"@)
        || begins(line, "provider:"@) || begins(line, "approval:"@) || begins(line, "sandbox:"@)
        || begins(line, "reasoning "@) || begins(line, "session id:"@) || line == "user"@ || line
        == "codex"@
}

/// Whether every line is blank or a warning.
pub open spec fn only_noise(text: Seq<char>) -> bool {
    forall|i: int|
        0 <= i < lines_of(text).len() ==> {
            let t = trimmed(#[trigger] lines_of(text)[i]);
            t.len() == 0 || begins(t, "warning:"@)
        }
}

/// The position after the last line `codex`, or 0 where there is none.
pub open spec fn after_codex_label(ls: Seq<Seq<char>>) -> int
    decreases ls.len(),
{
    if ls.len() == 0 {
        0
    } else if trimmed(ls.last()) == "codex"@ {
        ls.len() as int
    } else {
        after_codex_label(ls.drop_last())
    }
}

/// The lines of a reply from line `from` on, up to the first footer, without the banner.
pub open spec fn reply_lines(ls: Seq<Seq<char>>, from: int) -> Seq<Seq<char>>
    decreases ls.len() - from,
{
    if from < 0 || from >= ls.len() || is_footer(trimmed(ls[from])) {
        Seq::empty()
    } else if is_metadata(trimmed(ls[from])) {
        reply_lines(ls, from + 1)
    } else {
        seq![ls[from]] + reply_lines(ls, from + 1)
    }
}

/// The reply that follows the last line `codex`; nothing where that is empty.
pub open spec fn reply_block(raw: Seq<char>) -> Option<Seq<char>> {
    let ls = lines_of(raw);
    let start = after_codex_label(ls);
    let block = trimmed(joined(reply_lines(ls, start), "\n"@));
    if start == 0 || block.len() == 0 {
        None
    } else {
        Some(block)
    }
}

/// A line that is neither blank nor part of the banner or the footer.
pub open spec fn is_content(line: Seq<char>) -> bool {
    let t = trimmed(line);
    t.len() > 0 && !is_metadata(t) && !is_footer(t) && t != CODEX_STDIN_MARKER@
}

/// The output without blank lines, banner and footers.
pub open spec fn without_noise(raw: Seq<char>) -> Seq<char> {
    trimmed(joined(lines_of(raw).filter(|l: Seq<char>| is_content(l)), "\n"@))
}

/// What of the output of a Codex agent is sent.
pub open spec fn codex_text(raw: Seq<char>) -> Seq<char> {
    match text_before(raw, CODEX_STDIN_MARKER@) {
        Some(before) => if !only_noise(before) {
            before
        } else {
            codex_reply(raw)
        },
        None => codex_reply(raw),
    }
}

/// The reply block, or the output without noise.
pub open spec fn codex_reply(raw: Seq<char>) -> Seq<char> {
    match reply_block(raw) {
        Some(block) => block,
        None => without_noise(raw),
    }
}

/// What of the output of an agent is sent: by the profile of the runner, by its marker, or all.
pub open spec fn im_text(raw: Seq<char>, runner_name: Seq<char>, cfg: CliRunnerConfig) -> Seq<
    char,
> {
    let profile = trimmed(cfg.output_profile@);
    if profile == "codex"@ || (profile.len() == 0 && runner_name == "codex"@) {
        codex_text(raw)
    } else if cfg.output_strip_from@.len() > 0 {
        match text_before(raw, cfg.output_strip_from@) {
            Some(before) => before,
            None => trimmed(raw),
        }
    } else {
        trimmed(raw)
    }
}

/// The text to send, and the full text for the logs.
pub fn filter_for_im(raw: &str, runner_name: &str, cfg: &CliRunnerConfig) -> (r: (String, String))
    ensures
        r.0@ == im_text(raw@, runner_name@, *cfg),
        r.1@ == raw@,
{
    let full: String = raw.to_owned();
    let profile: &str = trim(cfg.output_profile.as_str());
    let im: String = if same(profile, "codex") || (profile.is_empty() && same(
        runner_name,
        "codex",
    )) {
        filter_codex(raw)
    } else if !cfg.output_strip_from.as_str().is_empty() {
        match extract_before_marker(raw, cfg.output_strip_from.as_str()) {
            Some(before) => before,
            None => trim(raw).to_owned(),
        }
    } else {
        trim(raw).to_owned()
    };
    (im, full)
}

/// What of the output of a Codex agent is sent.
pub fn filter_codex(raw: &str) -> (r: String)
    ensures
        r@ == codex_text(raw@),
{
    if let Some(before) = extract_before_marker(raw, CODEX_STDIN_MARKER) {
        if !is_noise_only(before.as_str()) {
            return before;
        }
    }
    if let Some(block) = extract_codex_reply_block(raw) {
        return block;
    }
    strip_codex_noise_lines(raw)
}

fn extract_before_marker(raw: &str, marker: &str) -> (r: Option<String>)
    ensures
        r.deep_view() == text_before(raw@, marker@),
{
    match find(raw, marker) {
        Some(i) => {
            assert(raw@.take(i as int) == raw@.subrange(0, i as int));
            let before: &str = trim(raw.substring_char(0, i));
            if before.is_empty() {
                None
            } else {
                Some(before.to_owned())
            }
        },
        None => None,
    }
}

fn extract_codex_reply_block(raw: &str) -> (r: Option<String>)
    ensures
        r.deep_view() == reply_block(raw@),
{
    let ls: Vec<String> = lines(raw);
    let ghost all = texts(ls@);
    let mut start: usize = ls.len();
    assert(all.take(all.len() as int) == all);
    while start > 0 && !same(trim(ls[start - 1].as_str()), "codex")
        invariant
            start <= ls@.len(),
            all == texts(ls@),
            after_codex_label(all) == after_codex_label(all.take(start as int)),
        decreases start,
    {
        assert(all.take(start as int).last() == ls@[start - 1]@);
        assert(all.take(start as int).drop_last() == all.take(start - 1));
        start = start - 1;
    }
    if start == 0 {
        return None;
    }
    assert(all.take(start as int).last() == ls@[start - 1]@);
    let mut out: Vec<String> = Vec::new();
    let mut i: usize = start;
    assert(texts(out@) + reply_lines(all, start as int) == reply_lines(all, start as int));
    while i < ls.len()
        invariant
            start <= i <= ls@.len(),
            all == texts(ls@),
            reply_lines(all, start as int) == texts(out@) + reply_lines(all, i as int),
        decreases ls@.len() - i,
    {
        let t: &str = trim(ls[i].as_str());
        assert(all[i as int] == ls@[i as int]@);
        if is_codex_footer_line(t) {
            assert(reply_lines(all, i as int) == Seq::<Seq<char>>::empty());
            i = ls.len();
        } else {
            if !is_codex_metadata_line(t) {
                let ghost before = out@;
                let line: String = ls[i].clone();
                out.push(line);
                proof {
                    texts_push(before, line);
                    assert(texts(before) + (seq![all[i as int]] + reply_lines(all, i + 1))
                        == texts(out@) + reply_lines(all, i + 1));
                }
            }
            i = i + 1;
        }
    }
    assert(texts(out@) + reply_lines(all, i as int) == texts(out@));
    let whole: String = join(&out, "\n");
    let text: &str = trim(whole.as_str());
    if text.is_empty() {
        None
    } else {
        Some(text.to_owned())
    }
}

fn strip_codex_noise_lines(raw: &str) -> (r: String)
    ensures
        r@ == without_noise(raw@),
{
    let ls: Vec<String> = lines(raw);
    let ghost all = texts(ls@);
    let ghost keep = |l: Seq<char>| is_content(l);
    let mut kept: Vec<String> = Vec::new();
    let mut i: usize = 0;
    assert(all.take(0).filter(keep) == Seq::<Seq<char>>::empty());
    assert(texts(kept@) == Seq::<Seq<char>>::empty());
    while i < ls.len()
        invariant
            i <= ls@.len(),
            all == texts(ls@),
            keep == |l: Seq<char>| is_content(l),
            texts(kept@) == all.take(i as int).filter(keep),
        decreases ls@.len() - i,
    {
        let t: &str = trim(ls[i].as_str());
        proof {
            assert(all[i as int] == ls@[i as int]@);
            assert(all.take(i + 1).drop_last() == all.take(i as int));
            assert(all.take(i + 1).last() == all[i as int]);
            reveal(Seq::filter);
        }
        if !t.is_empty() && !is_codex_metadata_line(t) && !is_codex_footer_line(t) && !same(
            t,
            CODEX_STDIN_MARKER,
        ) {
            let ghost before = kept@;
            let line: String = ls[i].clone();
            kept.push(line);
            proof {
                texts_push(before, line);
            }
        }
        i = i + 1;
    }
    assert(all.take(all.len() as int) == all);
    let whole: String = join(&kept, "\n");
    trim(whole.as_str()).to_owned()
}

fn is_noise_only(text: &str) -> (r: bool)
    ensures
        r == only_noise(text@),
{
    let ls: Vec<String> = lines(text);
    let ghost all = texts(ls@);
    let mut i: usize = 0;
    while i < ls.len()
        invariant
            i <= ls@.len(),
            all == texts(ls@),
            all == lines_of(text@),
            forall|k: int|
                0 <= k < i ==> {
                    let t = trimmed(#[trigger] all[k]);
                    t.len() == 0 || begins(t, "warning:"@)
                },
        decreases ls@.len() - i,
    {
        let t: &str = trim(ls[i].as_str());
        assert(all[i as int] == ls@[i as int]@);
        if !(t.is_empty() || starts_with(t, "warning:")) {
            return false;
        }
        i = i + 1;
    }
    true
}

fn is_codex_footer_line(line: &str) -> (r: bool)
    ensures
        r == is_footer(line@),
{
    starts_with(line, "hook:") || starts_with(line, "tokens used") || same(line, "--------")
        || same(line, CODEX_STDIN_MARKER)
}

fn is_codex_metadata_line(line: &str) -> (r: bool)
    ensures
        r == is_metadata(line@),
{
    starts_with(line, "OpenAI Codex") || starts_with(line, "workdir:") || starts_with(
        line,
        "model:",
    ) || starts_with(line, "provider:") || starts_with(line, "approval:") || starts_with(
        line,
        "sandbox:",
    ) || starts_with(line, "reasoning ") || starts_with(line, "session id:") || same(line, "user")
        || same(line, "codex")
}

} // verus!
