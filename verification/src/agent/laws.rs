//! Laws of the agent backends: what an agent is asked is what the user wrote, and what it says is what
//! the user gets.

use vstd::prelude::*;

use crate::agent::cli::output_filter::{
    after_codex_label, codex_text, im_text, is_content, is_footer, is_metadata, reply_block,
    reply_lines, without_noise,
};
use crate::agent::cli::router::{
    agents_text, enabled_names, help_lines, parsed, runner_line, usable, usable_names, CommandV,
    Runners,
};
use crate::agent::cli::runner::{
    appended, chomped, collected, cwd_of, exit_text, failed_message, final_text, on_new_line,
    process_args_of, process_events_of, runner_problem, safe_segment, with_stderr, with_stdout,
    workspace_of, OutputV,
};
use crate::agent::cli::stream::{is_answer, part_texts, request_text_of};
use crate::agent::cli::{route_of, routed_as, single_route_of, RouteV, Routed};
use crate::agent::echo::{echo_text, is_echo};
use crate::agent::http_sse::convert::{
    content_body, message_blocks, part_body, request_body, response_error, runtime_event,
    status_named, text_blocks,
};
use crate::agent::http_sse::process_url_of;
use crate::agent::http_sse::sse::{payload_of, payloads_of};
use crate::config::{AgentConfig, CliPromptVia, CliRunnerConfig, CliSecurityConfig};
use crate::json::{elements_field, field, field2, text_field, JsonV};
use crate::strs::{
    begins, byte_len, chained, first_at, first_at_from_is_first, free_of, is_ws, joined, lines_of,
    occurs_at, ordered, ordered_sorts, signed_decimal, text_le, texts, trimmed, trimmed_start, ws_from,
};
use crate::table::{first_entry, lookup};
use crate::types::{EventKind, EventStatus, EventV, PartKind, PartV, RequestV};

verus! {

/// A text without white space at its ends.
pub open spec fn is_tight(t: Seq<char>) -> bool {
    t.len() > 0 && !is_ws(t[0]) && !is_ws(t.last())
}

/// A text without white space.
pub open spec fn is_one_word(s: Seq<char>) -> bool {
    s.len() > 0 && forall|i: int| 0 <= i < s.len() ==> !is_ws(#[trigger] s[i])
}

proof fn tight_stays(t: Seq<char>)
    requires
        is_tight(t),
    ensures
        trimmed(t) == t,
        trimmed_start(t) == t,
{
}

// ---------------------------------------------------------------------------------------------
// The text of a request
// ---------------------------------------------------------------------------------------------

/// The text of a request is what its parts say: one part with a text adds it, behind a line end
/// where there are others, and a part without one adds nothing.
pub proof fn every_text_is_in_the_request(parts: Seq<PartV>, p: PartV)
    ensures
        p.text.len() > 0 && part_texts(parts).len() == 0 ==> request_text_of(parts.push(p)) == p.text,
        p.text.len() > 0 && part_texts(parts).len() > 0 ==> request_text_of(parts.push(p))
            == request_text_of(parts) + "\n"@ + p.text,
        p.text.len() == 0 ==> request_text_of(parts.push(p)) == request_text_of(parts),
        part_texts(Seq::empty()).len() == 0,
        request_text_of(Seq::empty()).len() == 0,
{
    assert(parts.push(p).drop_last() =~= parts);
    assert(parts.push(p).last() == p);
    let a = part_texts(parts);
    if p.text.len() > 0 {
        assert(a.push(p.text).drop_last() =~= a);
    }
}

/// What is repeated is all that was said.
pub proof fn echo_repeats_what_was_said(p: PartV, q: PartV)
    ensures
        p.text.len() > 0 ==> echo_text(seq![p]) == "[echo] "@ + p.text,
        p.text.len() > 0 && q.text.len() > 0 ==> echo_text(seq![p, q]) == "[echo] "@ + (p.text + " "@
            + q.text),
        echo_text(Seq::empty()) == "(echo: empty message)"@,
        forall|events: Seq<EventV>, t: Seq<char>| #[trigger] is_echo(events, t) ==> events.len() == 3
            && events[1].text == t && events[1].kind == EventKind::Message && events[1].status
            == EventStatus::Completed && events[2].kind == EventKind::Response && events[2].status
            == EventStatus::Completed && events[0].text.len() == 0,
{
    reveal_with_fuel(part_texts, 3);
    reveal_with_fuel(joined, 3);
    assert(seq![p].drop_last() =~= Seq::<PartV>::empty());
    assert(seq![p, q].drop_last() =~= seq![p]);
    if p.text.len() > 0 {
        assert(part_texts(seq![p]) =~= seq![p.text]);
        if q.text.len() > 0 {
            assert(part_texts(seq![p, q]) =~= seq![p.text, q.text]);
            assert(seq![p.text, q.text].drop_last() =~= seq![p.text]);
        }
    }
}

/// An answer is one message with its text, and the end of the response.
pub proof fn answers_say_their_text(events: Seq<EventV>, text: Seq<char>)
    requires
        is_answer(events, text),
    ensures
        events.len() == 2,
        events[0].text == text,
        events[0].kind == EventKind::Message,
        events[0].status == EventStatus::Completed,
        events[0].error_message.len() == 0,
        events[1].kind == EventKind::Response,
        events[1].status == EventStatus::Completed,
        events[1].text.len() == 0,
        events[1].error_message.len() == 0,
{
}

// ---------------------------------------------------------------------------------------------
// Command-line agents: which one is asked
// ---------------------------------------------------------------------------------------------

/// A message to a runner by its name is run by it, with the rest of the message as the prompt.
pub proof fn named_runner_gets_the_prompt(
    p: Seq<char>,
    name: Seq<char>,
    prompt: Seq<char>,
    require_prefix: bool,
    default_runner: Seq<char>,
    runners: Runners,
)
    requires
        is_tight(p),
        is_one_word(name),
        is_tight(prompt),
        lookup(runners, name) is Some,
    ensures
        parsed(p + (name + seq![' '] + prompt), p, require_prefix, default_runner, runners) == Ok::<
            CommandV,
            Seq<char>,
        >(CommandV::Run { runner: name, prompt: prompt }),
{
    let rest = name + seq![' '] + prompt;
    let t = p + rest;
    assert(is_tight(t));
    tight_stays(t);
    tight_stays(name);
    tight_stays(prompt);
    assert(t.take(p.len() as int) =~= p);
    assert(t.skip(p.len() as int) =~= rest);
    assert(!is_ws(rest[0])) by {
        assert(rest[0] == name[0]);
    }
    assert(trimmed_start(rest) == rest);
    word_ends(rest, name.len() as int, 0);
    assert(rest.take(name.len() as int) =~= name);
    assert(rest.skip((name.len() + 1) as int) =~= prompt);
    reveal_strlit("help");
    reveal_strlit("agents");
    assert(t != p + "help"@) by {
        assert(t[(p.len() + name.len()) as int] == ' ');
        if t == p + "help"@ {
            assert("help"@[name.len() as int] == ' ');
        }
    }
    assert(t != p + "agents"@) by {
        assert(t[(p.len() + name.len()) as int] == ' ');
        if t == p + "agents"@ {
            assert("agents"@[name.len() as int] == ' ');
        }
    }
}

/// The first white space of a text is where it first is.
proof fn word_ends(s: Seq<char>, i: int, from: int)
    requires
        0 <= from <= i < s.len(),
        is_ws(s[i]),
        forall|j: int| from <= j < i ==> !is_ws(#[trigger] s[j]),
    ensures
        ws_from(s, from) == i,
    decreases i - from,
{
    if from < i {
        assert(!is_ws(s[from]));
        word_ends(s, i, from + 1);
    }
}

/// A message without a command is run by the usual runner, word for word, unless commands are asked
/// for; help and the list of runners are commands of their own.
pub proof fn plain_messages_go_to_the_usual_runner(
    p: Seq<char>,
    t: Seq<char>,
    default_runner: Seq<char>,
    runners: Runners,
    require_prefix: bool,
)
    requires
        is_tight(p),
        is_tight(t),
        !begins(t, p),
    ensures
        default_runner.len() > 0 && lookup(runners, default_runner) is Some ==> parsed(
            t,
            p,
            false,
            default_runner,
            runners,
        ) == Ok::<CommandV, Seq<char>>(CommandV::Run { runner: default_runner, prompt: t }),
        default_runner.len() > 0 && lookup(runners, default_runner) is None ==> parsed(
            t,
            p,
            false,
            default_runner,
            runners,
        ) is Err,
        parsed(t, p, true, default_runner, runners) is Err,
        parsed(p + "help"@, p, require_prefix, default_runner, runners) == Ok::<CommandV, Seq<char>>(
            CommandV::Help,
        ),
        parsed(p + "agents"@, p, require_prefix, default_runner, runners) == Ok::<CommandV, Seq<char>>(
            CommandV::ListAgents,
        ),
        parsed(Seq::empty(), p, require_prefix, default_runner, runners) is Err,
{
    tight_stays(t);
    reveal_strlit("help");
    reveal_strlit("agents");
    let h = p + "help"@;
    let a = p + "agents"@;
    tight_stays(h);
    tight_stays(a);
    assert(a.skip(a.len() - 6) =~= "agents"@);
    if h.len() >= 6 {
        assert(h.skip(h.len() - 6)[5] == 'p');
        assert("agents"@[5] == 's');
    }
    assert(trimmed(Seq::<char>::empty()) == Seq::<char>::empty());
    if t == p + "help"@ || t == p + "agents"@ {
        assert(t.take(p.len() as int) =~= p);
    }
}

/// Whoever is not on the list of senders, where there is one, is told so, and nothing is run.
pub proof fn strangers_run_nothing(cfg: AgentConfig, r: RequestV)
    ensures
        cfg.security.allowed_senders@.len() > 0 && !texts(cfg.security.allowed_senders@).contains(
            r.user_id,
        ) ==> route_of(cfg, r) is Reply && single_route_of(cfg, r) is Reply,
        route_of(cfg, r) is Run ==> cfg.security.allowed_senders@.len() == 0 || texts(
            cfg.security.allowed_senders@,
        ).contains(r.user_id),
        route_of(cfg, r) matches RouteV::Run { runner, prompt } ==> lookup(cfg.runners@, runner) is Some,
{
}

/// A runner can be used where it is enabled and has a command; one that cannot is not run.
pub proof fn unusable_runners_are_refused(name: Seq<char>, r: CliRunnerConfig, m: Runners)
    ensures
        usable(r) <==> runner_problem(name, r) is None,
        !r.enabled ==> !usable(r),
        r.command@.len() == 0 ==> !usable(r),
        r.enabled && r.command@.len() > 0 ==> usable(r),
        usable(r) ==> usable_names(m.push((name, r))) == usable_names(m).push(name),
        !usable(r) ==> usable_names(m.push((name, r))) == usable_names(m),
        usable_names(Seq::empty()).len() == 0,
{
    assert(m.push((name, r)).drop_last() =~= m);
    assert(m.push((name, r)).last() == (name, r));
}

/// The list of runners and the help name every runner that can be used, with its command.
pub proof fn usable_runners_are_told(
    p: Seq<char>,
    default_runner: Seq<char>,
    runners: Runners,
    name: Seq<char>,
    cfg: CliRunnerConfig,
)
    ensures
        lookup(runners, name) == Some(cfg) ==> runner_line(name, runners) == "  "@ + name + ": "@
            + cfg.command@ + " "@ + joined(texts(cfg.args@), " "@),
        enabled_names(runners) == seq![name] ==> agents_text(runners) == "Enabled CLI runners:"@ + "\n"@
            + runner_line(name, runners) && help_lines(p, default_runner, runners).last()
            == "Enabled runners: "@ + name,
        default_runner.len() > 0 ==> help_lines(p, default_runner, runners).contains(
            "  (no prefix) — use default runner '"@ + default_runner + "'"@,
        ),
{
    if default_runner.len() > 0 {
        assert(help_lines(p, default_runner, runners)[4]
            == "  (no prefix) — use default runner '"@ + default_runner + "'"@);
    }
    if enabled_names(runners) == seq![name] {
        let ls = seq!["Enabled CLI runners:"@] + seq![name].map_values(
            |n: Seq<char>| runner_line(n, runners),
        );
        assert(ls =~= seq!["Enabled CLI runners:"@, runner_line(name, runners)]);
        assert(ls.drop_last() =~= seq!["Enabled CLI runners:"@]);
        reveal_with_fuel(joined, 3);
    }
}

// ---------------------------------------------------------------------------------------------
// Command-line agents: how it is run
// ---------------------------------------------------------------------------------------------

/// The prompt is handed over word for word: as the last argument where that is asked for, and the
/// arguments of the configuration are kept.
pub proof fn prompts_are_handed_over(r: CliRunnerConfig, prompt: Seq<char>)
    ensures
        r.prompt_via == CliPromptVia::LastArg ==> process_args_of(r, prompt).len() == texts(
            r.args@,
        ).len() + 1 && process_args_of(r, prompt).last() == prompt && process_args_of(
            r,
            prompt,
        ).drop_last() == texts(r.args@),
        r.prompt_via == CliPromptVia::Stdin ==> process_args_of(r, prompt) == texts(r.args@),
{
    if r.prompt_via == CliPromptVia::LastArg {
        assert(process_args_of(r, prompt).drop_last() =~= texts(r.args@));
    }
}

/// A runner works in its own directory, or else in one of the session below the root of all.
pub proof fn runners_work_in_their_place(
    r: CliRunnerConfig,
    s: CliSecurityConfig,
    channel: Seq<char>,
    session: Seq<char>,
)
    ensures
        r.cwd@.len() > 0 ==> cwd_of(r, s, channel, session) == r.cwd@,
        r.cwd@.len() == 0 ==> cwd_of(r, s, channel, session) == workspace_of(
            s.workspace_root@,
            channel,
            session,
        ),
        s.workspace_root@.len() > 0 && s.workspace_root@.last() != '/' ==> workspace_of(
            s.workspace_root@,
            channel,
            session,
        ) == s.workspace_root@.push('/') + safe_segment(channel).push('/') + safe_segment(session),
        forall|i: int|
            0 <= i < session.len() && (('a' <= session[i] <= 'z') || session[i] == '-')
                ==> #[trigger] safe_segment(session)[i] == session[i],
        session.len() > 0 ==> safe_segment(session).len() == session.len(),
{
    let root = s.workspace_root@;
    let c = safe_segment(channel);
    let e = safe_segment(session);
    crate::agent::cli::runner::safe_segments_are_names(channel);
    crate::agent::cli::runner::safe_segments_are_names(session);
    crate::paths::joined_paths_lead_into_the_directory(root, c);
    let a = crate::paths::path_of(root, c);
    crate::paths::joined_paths_lead_into_the_directory(a, e);
    assert(crate::agent::cli::runner::is_safe(c[0]));
    assert(crate::agent::cli::runner::is_safe(e[0]));
    assert(crate::agent::cli::runner::is_safe(c[c.len() - 1]));
    if root.len() > 0 && root.last() != '/' {
        assert(a.last() == c.last());
        assert(a.push('/') + e =~= root.push('/') + c.push('/') + e);
    }
}

/// What a process says is kept line by line, as long as there is room for it.
pub proof fn output_is_kept(o: OutputV, line: Seq<char>, max: nat)
    requires
        !o.truncated,
    ensures
        byte_len(o.text) + byte_len(line + "\n"@) <= max ==> appended(o, line, max).text == o.text + (
        line + "\n"@) && !appended(o, line, max).truncated,
        byte_len(o.text) + byte_len(line + "\n"@) > max ==> appended(o, line, max).truncated,
        begins(appended(o, line, max).text, o.text),
        forall|s: Seq<Seq<char>>|
            #![trigger with_stdout(o, s.push(line), max)]
            with_stdout(o, s.push(line), max) == appended(with_stdout(o, s, max), line, max),
{
    assert(appended(o, line, max).text.take(o.text.len() as int) =~= o.text);
    assert forall|s: Seq<Seq<char>>|
        #![trigger with_stdout(o, s.push(line), max)]
        with_stdout(o, s.push(line), max) == appended(with_stdout(o, s, max), line, max) by {
        assert(s.push(line).drop_last() =~= s);
        assert(s.push(line).last() == line);
    }
}

/// Lines come without what ends them.
pub proof fn line_ends_are_dropped(line: Seq<char>)
    ensures
        line.len() > 0 && line.last() != '\r' ==> chomped(line.push('\n')) == line,
        line.len() == 0 || line.last() != '\n' ==> chomped(line) == line,
        chomped(line.push('\r').push('\n')) == line,
{
    assert(line.push('\n').drop_last() =~= line);
    assert(line.push('\r').push('\n').drop_last() =~= line.push('\r'));
    assert(line.push('\r').drop_last() =~= line);
}

/// What a process said is what the user gets, without the white space around it; where it failed
/// without a word, the user is told its code, and where its output was cut, that too.
pub proof fn output_is_told(t: Seq<char>, code: i32)
    requires
        is_tight(t),
    ensures
        final_text(OutputV { text: t, truncated: false, clean: true }, true, Some(code)) == t,
        final_text(OutputV { text: t, truncated: false, clean: true }, false, Some(code)) == t,
        final_text(OutputV { text: t, truncated: true, clean: true }, true, Some(code)) == t
            + "\n\n(output truncated)"@,
        final_text(OutputV { text: Seq::empty(), truncated: false, clean: true }, false, Some(code))
            == "process exited with "@ + signed_decimal(code as int),
        final_text(OutputV { text: Seq::empty(), truncated: false, clean: true }, true, Some(code)).len()
            == 0,
        exit_text(None) == "process exited with "@ + signed_decimal(-1),
{
    tight_stays(t);
    assert(trimmed(Seq::<char>::empty()) == Seq::<char>::empty());
}

/// What the user gets is one message, complete where the process succeeded and failed where it did
/// not, and then the end of the response.
pub proof fn process_events_tell_the_output(
    name: Seq<char>,
    r: CliRunnerConfig,
    t: Seq<char>,
    success: bool,
    code: Option<i32>,
)
    requires
        is_tight(t),
        r.output_profile@.len() == 0,
        name != "codex"@,
        r.output_strip_from@.len() == 0,
    ensures
        ({
            let events = process_events_of(
                name,
                r,
                OutputV { text: t, truncated: false, clean: true },
                success,
                code,
            );
            &&& events.len() == 2
            &&& events[0].text == t
            &&& events[0].kind == EventKind::Message
            &&& events[0].error_message.len() == 0
            &&& success ==> events[0].status == EventStatus::Completed
            &&& !success ==> events[0].status == EventStatus::Failed
            &&& events[1].kind == EventKind::Response
            &&& events[1].status == EventStatus::Completed
        }),
        failed_message(t).text == t,
        failed_message(t).status == EventStatus::Failed,
        failed_message(t).kind == EventKind::Message,
{
    tight_stays(t);
    reveal_strlit("codex");
    assert(trimmed(Seq::<char>::empty()) == Seq::<char>::empty());
    assert(r.output_profile@ =~= Seq::<char>::empty());
    assert("codex"@.len() != trimmed(r.output_profile@).len());
}

/// What stands before a marker is what is sent, where something does; without the marker it is all.
pub proof fn text_before_the_marker_is_sent(
    name: Seq<char>,
    r: CliRunnerConfig,
    before: Seq<char>,
    after: Seq<char>,
)
    requires
        is_tight(before),
        r.output_profile@.len() == 0,
        name != "codex"@,
        r.output_strip_from@.len() > 0,
        forall|i: int| 0 <= i < before.len() ==> !occurs_at(
            before + r.output_strip_from@ + after,
            r.output_strip_from@,
            i,
        ),
    ensures
        im_text(before + r.output_strip_from@ + after, name, r) == before,
        first_at(before, r.output_strip_from@) is None ==> im_text(before, name, r) == before,
{
    reveal_strlit("codex");
    tight_stays(before);
    assert(trimmed(Seq::<char>::empty()) == Seq::<char>::empty());
    assert(r.output_profile@ =~= Seq::<char>::empty());
    assert("codex"@.len() != trimmed(r.output_profile@).len());
    let m = r.output_strip_from@;
    let s = before + m + after;
    first_at_from_is_first(s, m, 0);
    assert(s.subrange(before.len() as int, (before.len() + m.len()) as int) =~= m);
    assert(occurs_at(s, m, before.len() as int));
    assert(s.take(before.len() as int) =~= before);
}

/// The lines of an answer are kept up to where its footer begins: a line that is neither banner nor
/// footer is kept.
pub proof fn answer_lines_are_kept(ls: Seq<Seq<char>>, from: int)
    requires
        0 <= from < ls.len(),
    ensures
        !is_footer(trimmed(ls[from])) && !is_metadata(trimmed(ls[from])) ==> reply_lines(ls, from)
            == seq![ls[from]] + reply_lines(ls, from + 1),
        is_footer(trimmed(ls[from])) ==> reply_lines(ls, from).len() == 0,
        !is_footer(trimmed(ls[from])) && is_metadata(trimmed(ls[from])) ==> reply_lines(ls, from)
            == reply_lines(ls, from + 1),
{
}

/// The banners and footers of Codex are known as such, and ordinary lines are not.
pub proof fn banners_are_told_from_answers(x: Seq<char>, line: Seq<char>)
    ensures
        is_footer("hook:"@ + x),
        is_footer("tokens used"@ + x),
        is_footer("--------"@),
        is_footer("Reading prompt from stdin..."@),
        is_metadata("OpenAI Codex"@ + x),
        is_metadata("workdir:"@ + x),
        is_metadata("model:"@ + x),
        is_metadata("provider:"@ + x),
        is_metadata("approval:"@ + x),
        is_metadata("sandbox:"@ + x),
        is_metadata("reasoning "@ + x),
        is_metadata("session id:"@ + x),
        is_metadata("user"@),
        is_metadata("codex"@),
        is_tight(line) && line[0] != 'h' && line[0] != 't' && line[0] != '-' && line[0] != 'R' && line[0]
            != 'O' && line[0] != 'w' && line[0] != 'm' && line[0] != 'p' && line[0] != 'a' && line[0]
            != 's' && line[0] != 'r' && line[0] != 'u' && line[0] != 'c' ==> is_content(line),
{
    reveal_strlit("hook:");
    reveal_strlit("tokens used");
    reveal_strlit("--------");
    reveal_strlit("Reading prompt from stdin...");
    reveal_strlit("OpenAI Codex");
    reveal_strlit("workdir:");
    reveal_strlit("model:");
    reveal_strlit("provider:");
    reveal_strlit("approval:");
    reveal_strlit("sandbox:");
    reveal_strlit("reasoning ");
    reveal_strlit("session id:");
    reveal_strlit("user");
    reveal_strlit("codex");
    assert(("hook:"@ + x).take(5) =~= "hook:"@);
    assert(("tokens used"@ + x).take(11) =~= "tokens used"@);
    assert(("OpenAI Codex"@ + x).take(12) =~= "OpenAI Codex"@);
    assert(("workdir:"@ + x).take(8) =~= "workdir:"@);
    assert(("model:"@ + x).take(6) =~= "model:"@);
    assert(("provider:"@ + x).take(9) =~= "provider:"@);
    assert(("approval:"@ + x).take(9) =~= "approval:"@);
    assert(("sandbox:"@ + x).take(8) =~= "sandbox:"@);
    assert(("reasoning "@ + x).take(10) =~= "reasoning "@);
    assert(("session id:"@ + x).take(11) =~= "session id:"@);
    if is_tight(line) {
        tight_stays(line);
        assert(begins(line, "hook:"@) ==> line.take(5)[0] == "hook:"@[0]);
        assert(begins(line, "tokens used"@) ==> line.take(11)[0] == "tokens used"@[0]);
        assert(begins(line, "OpenAI Codex"@) ==> line.take(12)[0] == "OpenAI Codex"@[0]);
        assert(begins(line, "workdir:"@) ==> line.take(8)[0] == "workdir:"@[0]);
        assert(begins(line, "model:"@) ==> line.take(6)[0] == "model:"@[0]);
        assert(begins(line, "provider:"@) ==> line.take(9)[0] == "provider:"@[0]);
        assert(begins(line, "approval:"@) ==> line.take(9)[0] == "approval:"@[0]);
        assert(begins(line, "sandbox:"@) ==> line.take(8)[0] == "sandbox:"@[0]);
        assert(begins(line, "reasoning "@) ==> line.take(10)[0] == "reasoning "@[0]);
        assert(begins(line, "session id:"@) ==> line.take(11)[0] == "session id:"@[0]);
        assert(line == "--------"@ ==> line[0] == '-');
        assert(line == "Reading prompt from stdin..."@ ==> line[0] == 'R');
        assert(line == "user"@ ==> line[0] == 'u');
        assert(line == "codex"@ ==> line[0] == 'c');
    }
}

// ---------------------------------------------------------------------------------------------
// Agents behind HTTP: what they are asked
// ---------------------------------------------------------------------------------------------

/// The agent is asked as the user, in the session and with each part of the message.
pub proof fn requests_carry_the_message(r: RequestV, i: int)
    ensures
        ({
            let v = request_body(r);
            &&& text_field(v, "session_id"@) == Some(r.session_id)
            &&& text_field(v, "user_id"@) == Some(r.user_id)
            &&& text_field(v, "channel"@) == Some(r.channel)
            &&& elements_field(v, "input"@) matches Some(s) && s.len() == 1 && text_field(s[0], "role"@)
                == Some("user"@) && (elements_field(s[0], "content"@) matches Some(c) && (
            r.content.len() > 0 ==> c.len() == r.content.len() && (0 <= i < c.len() ==> c[i]
                == part_body(r.content[i]))))
            &&& lookup(r.meta, "message_id"@) is Some ==> field2(v, "meta"@, "message_id"@) == lookup(
                r.meta,
                "message_id"@,
            )
            &&& lookup(r.meta, "account_id"@) is Some ==> field2(v, "meta"@, "account_id"@) == lookup(
                r.meta,
                "account_id"@,
            )
            &&& lookup(r.meta, "is_group"@) is Some ==> field2(v, "meta"@, "is_group"@) == lookup(
                r.meta,
                "is_group"@,
            )
        }),
{
    let m = request_body(r)->Object_0;
    reveal_strlit("input");
    reveal_strlit("session_id");
    reveal_strlit("user_id");
    reveal_strlit("channel");
    reveal_strlit("meta");
    assert("input"@.len() != "session_id"@.len());
    assert("input"@.len() != "user_id"@.len());
    assert("input"@.len() != "channel"@.len());
    assert("input"@.len() != "meta"@.len());
    assert("session_id"@.len() != "user_id"@.len());
    assert("session_id"@.len() != "channel"@.len());
    assert("session_id"@.len() != "meta"@.len());
    assert("user_id"@[0] != "channel"@[0]);
    assert("user_id"@.len() != "meta"@.len());
    assert("channel"@.len() != "meta"@.len());
    assert(m[0].0 == "input"@);
    assert(m[1].0 == "session_id"@);
    assert(m[2].0 == "user_id"@);
    assert(m[3].0 == "channel"@);
    assert(m[4].0 == "meta"@);
    first_entry(m, "input"@, 0);
    first_entry(m, "session_id"@, 1);
    first_entry(m, "user_id"@, 2);
    first_entry(m, "channel"@, 3);
    first_entry(m, "meta"@, 4);
    let item = m[0].1->Array_0[0]->Object_0;
    reveal_strlit("role");
    reveal_strlit("content");
    assert("role"@.len() != "content"@.len());
    assert(item[0].0 == "role"@);
    assert(item[1].0 == "content"@);
    first_entry(item, "role"@, 0);
    first_entry(item, "content"@, 1);
    let b = m[4].1->Object_0;
    reveal_strlit("message_id");
    reveal_strlit("account_id");
    reveal_strlit("is_group");
    assert("message_id"@[0] != "account_id"@[0]);
    assert("message_id"@.len() != "is_group"@.len());
    assert("account_id"@.len() != "is_group"@.len());
    assert(b[0].0 == "message_id"@);
    assert(b[1].0 == "account_id"@);
    assert(b[2].0 == "is_group"@);
    first_entry(b, "message_id"@, 0);
    first_entry(b, "account_id"@, 1);
    first_entry(b, "is_group"@, 2);
}

/// A part is written as what it is, with its text, its address or its data.
pub proof fn parts_are_written_as_they_are(p: PartV, d: JsonV)
    ensures
        p.kind == PartKind::Text ==> text_field(part_body(p), "type"@) == Some("text"@) && text_field(
            part_body(p),
            "text"@,
        ) == Some(p.text),
        p.kind == PartKind::Image ==> text_field(part_body(p), "type"@) == Some("image"@)
            && text_field(part_body(p), "image_url"@) == Some(p.url),
        p.kind == PartKind::Video ==> text_field(part_body(p), "type"@) == Some("video"@)
            && text_field(part_body(p), "video_url"@) == Some(p.url),
        p.kind == PartKind::File ==> text_field(part_body(p), "type"@) == Some("file"@) && text_field(
            part_body(p),
            "file_url"@,
        ) == Some(p.url),
        p.kind == PartKind::Audio && p.data == Some(d) ==> text_field(part_body(p), "type"@) == Some(
            "audio"@,
        ) && field(part_body(p), "data"@) == Some(d),
        p.kind == PartKind::Data && p.data == Some(d) ==> text_field(part_body(p), "type"@) == Some(
            "data"@,
        ) && field(part_body(p), "data"@) == Some(d),
{
    reveal_strlit("type");
    reveal_strlit("text");
    reveal_strlit("image_url");
    reveal_strlit("video_url");
    reveal_strlit("file_url");
    reveal_strlit("file_id");
    reveal_strlit("data");
    assert("type"@[1] != "text"@[1]);
    assert("type"@.len() != "image_url"@.len());
    assert("type"@.len() != "video_url"@.len());
    assert("type"@.len() != "file_url"@.len());
    assert("type"@.len() != "file_id"@.len());
    assert("type"@[0] != "data"@[0]);
    let m = part_body(p)->Object_0;
    assert(m[0].0 == "type"@);
    first_entry(m, "type"@, 0);
    first_entry(m, m[1].0, 1);
}

/// The address of a request is the path below the address of the agent, with one slash between.
pub proof fn requests_go_below_the_address(base: Seq<char>, path: Seq<char>)
    ensures
        path.len() > 0 && path[0] == '/' ==> process_url_of(base, path) == base + path,
        path.len() > 0 && path[0] != '/' ==> process_url_of(base, path) == base.push('/') + path,
{
    reveal_strlit("/");
    if path.len() > 0 {
        assert(path.take(1)[0] == path[0]);
        assert(path[0] == '/' ==> path.take(1) =~= "/"@);
        assert(base + "/"@ + path =~= base.push('/') + path);
    }
}

// ---------------------------------------------------------------------------------------------
// Agents behind HTTP: what they say
// ---------------------------------------------------------------------------------------------

/// Every line with data is a payload, in order; other lines, and the mark of the end, are none.
pub proof fn data_lines_are_payloads(x: Seq<char>, ls: Seq<Seq<char>>, line: Seq<char>)
    requires
        is_tight(x),
    ensures
        x != "[DONE]"@ ==> payload_of("data:"@ + x) == Some(x),
        x != "[DONE]"@ ==> payload_of("data: "@ + x) == Some(x),
        payload_of("data: [DONE]"@) is None,
        x[0] != 'd' ==> payload_of(x) is None,
        payload_of(line) matches Some(p) ==> payloads_of(ls.push(line)) == payloads_of(ls).push(p),
        payload_of(line) is None ==> payloads_of(ls.push(line)) == payloads_of(ls),
        payloads_of(Seq::empty()).len() == 0,
{
    reveal_strlit("data:");
    reveal_strlit("data: ");
    reveal_strlit("[DONE]");
    reveal_strlit("data: [DONE]");
    tight_stays(x);
    let a = "data:"@ + x;
    let b = "data: "@ + x;
    let c = "data: [DONE]"@;
    tight_stays(a);
    tight_stays(b);
    tight_stays(c);
    assert(a.take(5) =~= "data:"@);
    assert(b.take(5) =~= "data:"@);
    assert(c.take(5) =~= "data:"@);
    assert(a.skip(5) =~= x);
    let y = b.skip(5);
    assert(y =~= seq![' '] + x);
    assert(y.drop_first() =~= x);
    assert(trimmed_start(y) == trimmed_start(x));
    let z = c.skip(5);
    assert(z.drop_first() =~= "[DONE]"@);
    tight_stays("[DONE]"@);
    assert(trimmed_start(z) == trimmed_start("[DONE]"@));
    if x[0] != 'd' && begins(x, "data:"@) {
        assert(x.take(5)[0] == 'd');
    }
    assert(ls.push(line).drop_last() =~= ls);
    assert(ls.push(line).last() == line);
}

/// A status is known by its name.
pub proof fn statuses_go_by_their_names()
    ensures
        status_named("in_progress"@) == EventStatus::InProgress,
        status_named("inprogress"@) == EventStatus::InProgress,
        status_named("failed"@) == EventStatus::Failed,
        status_named("completed"@) == EventStatus::Completed,
{
    reveal_strlit("in_progress");
    reveal_strlit("inprogress");
    reveal_strlit("failed");
    reveal_strlit("completed");
    reveal_strlit("fail");
    let a = "in_progress"@;
    assert(a.subrange(0, 11) =~= a);
    assert(occurs_at(a, "in_progress"@, 0));
    let f = "failed"@;
    assert(f.subrange(0, 4) =~= "fail"@);
    assert(occurs_at(f, "fail"@, 0));
    assert(f.len() != "inprogress"@.len());
    assert forall|i: int| !occurs_at(f, "in_progress"@, i) by {}
    let c = "completed"@;
    assert(c.len() != "inprogress"@.len());
    assert forall|i: int| !occurs_at(c, "in_progress"@, i) by {}
    assert forall|i: int| !occurs_at(c, "fail"@, i) by {
        if occurs_at(c, "fail"@, i) {
            assert(c.subrange(i, i + 4)[0] == c[i]);
        }
    }
}

/// The texts of a message are its text and its parts, in order.
pub proof fn text_blocks_are_read(blocks: Seq<JsonV>, b: JsonV, t: Seq<char>)
    requires
        t.len() > 0,
    ensures
        text_field(b, "type"@) == Some("text"@) && text_field(b, "text"@) == Some(t) ==> ({
            let before = text_blocks(blocks, true);
            let after = text_blocks(blocks.push(b), true);
            &&& after.len() == before.len() + 1
            &&& after.last().text == t
            &&& after.last().kind == PartKind::Text
            &&& after.drop_last() == before
        }),
        text_field(b, "type"@) != Some("text"@) ==> text_blocks(blocks.push(b), true) == text_blocks(
            blocks,
            true,
        ),
        text_blocks(Seq::empty(), true).len() == 0,
{
    assert(blocks.push(b).drop_last() =~= blocks);
    assert(blocks.push(b).last() == b);
    if text_field(b, "type"@) == Some("text"@) {
        assert(text_blocks(blocks.push(b), true).drop_last() =~= text_blocks(blocks, true));
    }
}

/// What an agent says arrives as it was said: pieces of a text under the id of their message, whole
/// messages with theirs, and errors with what went wrong.
pub proof fn agent_events_are_read(v: JsonV, status: EventStatus, t: Seq<char>, id: Seq<char>, msg: JsonV, b: JsonV)
    requires
        t.len() > 0,
        text_field(b, "type"@) == Some("text"@),
        text_field(b, "text"@) == Some(t),
    ensures
        text_field(v, "object"@) == Some("content"@) && text_field(v, "text"@) == Some(t) && text_field(
            v,
            "msg_id"@,
        ) == Some(id) ==> (runtime_event(v, status) matches Some(e) && e.kind == EventKind::Content
            && e.status == status && e.text == t && e.msg_id == id && (field(v, "delta"@) is None
            ==> e.delta) && (field(v, "delta"@) == Some(JsonV::Bool(false)) ==> !e.delta)),
        text_field(v, "object"@) == Some("message"@) && field(v, "message"@) == Some(msg)
            && elements_field(msg, "content"@) == Some(seq![b]) && text_field(v, "id"@) == Some(id)
            ==> (runtime_event(v, status) matches Some(e) && e.status == status && e.text == t
            && e.message_id == id && e.content.len() == 1 && e.content[0].text == t && (text_field(
            v,
            "type"@,
        ) == Some("reasoning"@) ==> e.kind == EventKind::Reasoning) && (text_field(v, "type"@) is None
            ==> e.kind == EventKind::Message)),
        text_field(v, "object"@) == Some("response"@) && (field(v, "error"@) matches Some(x)
            && text_field(x, "message"@) == Some(t)) ==> (runtime_event(v, EventStatus::Failed)
            matches Some(e) && e.error_message == t && e.status == EventStatus::Failed),
        text_field(v, "object"@) == Some("response"@) && field(v, "output"@) is None
            ==> (runtime_event(v, EventStatus::Completed) matches Some(e) && e.kind
            == EventKind::Response && e.status == EventStatus::Completed && e.text.len() == 0
            && e.error_message.len() == 0),
        text_field(v, "object"@) is None ==> runtime_event(v, status) is None,
{
    reveal_strlit("content");
    reveal_strlit("response");
    reveal_strlit("message");
    assert("content"@.len() != "response"@.len());
    assert("content"@[0] != "message"@[0]);
    assert("response"@.len() != "message"@.len());
    let blocks = seq![b];
    assert(blocks.drop_last() =~= Seq::<JsonV>::empty());
    assert(blocks.last() == b);
    reveal_with_fuel(text_blocks, 2);
    reveal_with_fuel(part_texts, 2);
    let parts = text_blocks(blocks, true);
    assert(parts.len() == 1 && parts[0].text == t);
    assert(parts.drop_last() =~= Seq::<PartV>::empty());
    assert(part_texts(parts) =~= seq![t]);
    reveal_with_fuel(chained, 2);
    assert(chained(seq![t]) =~= t) by {
        assert(seq![t].drop_last() =~= Seq::<Seq<char>>::empty());
    }
}

/// What stands before the mark of the prompt is the answer of Codex, where it says something.
pub proof fn codex_answers_stand_before_the_mark(before: Seq<char>, after: Seq<char>)
    requires
        is_tight(before),
        free_of(before, '\n'),
        free_of(before, 'R'),
        before[0] != 'w',
    ensures
        codex_text(before + "Reading prompt from stdin..."@ + after) == before,
{
    reveal_strlit("Reading prompt from stdin...");
    reveal_strlit("warning:");
    let m = "Reading prompt from stdin..."@;
    let s = before + m + after;
    tight_stays(before);
    first_at_from_is_first(s, m, 0);
    assert(s.subrange(before.len() as int, (before.len() + m.len()) as int) =~= m);
    assert(occurs_at(s, m, before.len() as int));
    match first_at(s, m) {
        Some(i) => {
            if i < before.len() {
                assert(s.subrange(i, i + m.len())[0] == before[i]);
            }
            assert(s.take(before.len() as int) =~= before);
        },
        None => {},
    }
    one_line(before);
    assert(lines_of(before)[0] == before);
    if begins(before, "warning:"@) {
        assert(before.take(8)[0] == 'w');
    }
}

proof fn one_line(s: Seq<char>)
    requires
        s.len() > 0,
        free_of(s, '\n'),
    ensures
        lines_of(s) == seq![s],
{
    first_at_from_is_first(s, seq!['\n'], 0);
    match first_at(s, seq!['\n']) {
        Some(i) => {
            assert(s.subrange(i, i + 1)[0] == s[i]);
        },
        None => {},
    }
}

/// The answer of Codex stands behind the last line that names it, and where no line does it is what
/// is neither banner nor footer.
pub proof fn codex_answers_stand_behind_their_label(line: Seq<char>, ls: Seq<Seq<char>>, raw: Seq<char>)
    requires
        is_tight(line),
        free_of(line, '\n'),
        is_content(line),
        first_at(line, "Reading prompt from stdin..."@) is None,
    ensures
        codex_text(line) == line,
        trimmed(line) == "codex"@ ==> after_codex_label(ls.push(line)) == ls.len() + 1,
        trimmed(line) != "codex"@ ==> after_codex_label(ls.push(line)) == after_codex_label(ls),
        reply_block(raw) is Some && first_at(raw, "Reading prompt from stdin..."@) is None
            ==> codex_text(raw) == reply_block(raw)->0,
{
    tight_stays(line);
    one_line(line);
    assert(ls.push(line).drop_last() =~= ls);
    assert(ls.push(line).last() == line);
    reveal_strlit("codex");
    reveal_with_fuel(after_codex_label, 2);
    let one = seq![line];
    assert(one.drop_last() =~= Seq::<Seq<char>>::empty());
    assert(line != "codex"@) by {
        if line == "codex"@ {
            assert(is_metadata(line));
        }
    }
    assert(after_codex_label(one) == 0);
    let f = |l: Seq<char>| is_content(l);
    reveal(Seq::filter);
    assert(one.last() == line);
    assert(Seq::<Seq<char>>::empty().filter(f) =~= Seq::<Seq<char>>::empty());
    assert(one.filter(f) =~= one);
    assert(joined(one, "\n"@) == line);
}

/// What a process complains about is kept behind what it says, on lines of its own.
pub proof fn complaints_come_behind(o: OutputV, line: Seq<char>, ls: Seq<Seq<char>>, max: nat, t: Seq<char>)
    ensures
        with_stderr(o, ls.push(line), max) == appended(
            on_new_line(with_stderr(o, ls, max)),
            line,
            max,
        ),
        with_stderr(o, Seq::empty(), max) == o,
        on_new_line(OutputV { text: t.push('\n'), ..o }).text == t.push('\n'),
        t.len() > 0 && t.last() != '\n' ==> on_new_line(OutputV { text: t, ..o }).text == t.push('\n'),
        collected(Seq::empty(), Seq::empty(), max).text.len() == 0,
        byte_len(line + "\n"@) <= max ==> collected(seq![line], Seq::empty(), max).text == line
            + "\n"@ && collected(Seq::empty(), seq![line], max).text == line + "\n"@,
{
    assert(ls.push(line).drop_last() =~= ls);
    assert(ls.push(line).last() == line);
    reveal_strlit("\n");
    let a = t.push('\n');
    assert(a.skip(a.len() - 1) =~= "\n"@);
    if t.len() > 0 && t.last() != '\n' {
        assert(t.skip(t.len() - 1)[0] == t.last());
        assert(t + "\n"@ =~= t.push('\n'));
    }
    reveal_with_fuel(with_stdout, 2);
    reveal_with_fuel(with_stderr, 2);
    assert(seq![line].drop_last() =~= Seq::<Seq<char>>::empty());
    assert(Seq::<char>::empty() + (line + "\n"@) =~= line + "\n"@);
}

/// A request that is routed to a reply is answered with it, and one that is routed to a runner is run
/// by that one with that prompt.
pub proof fn routes_are_followed(r: Routed, text: Seq<char>, name: Seq<char>, said: Seq<char>)
    ensures
        routed_as(r, RouteV::Reply(text)) ==> (r matches Routed::Reply(events) && is_answer(
            events.deep_view(),
            text,
        )),
        routed_as(r, RouteV::Run { runner: name, prompt: said }) ==> (r matches Routed::Run {
            runner,
            prompt,
        } && runner@ == name && prompt@ == said),
{
}

/// A response that is complete says what its output says, with each of its texts as a part.
pub proof fn responses_say_their_output(v: JsonV, msg: JsonV, b: JsonV, t: Seq<char>, id: Seq<char>)
    requires
        t.len() > 0,
        text_field(v, "object"@) == Some("response"@),
        field(v, "output"@) == Some(JsonV::Array(seq![msg])),
        elements_field(msg, "content"@) == Some(seq![b]),
        text_field(b, "type"@) == Some("text"@),
        text_field(b, "text"@) == Some(t),
        text_field(v, "id"@) == Some(id),
    ensures
        runtime_event(v, EventStatus::Completed) matches Some(e) && e.kind == EventKind::Message
            && e.status == EventStatus::Completed && e.text == t && e.content.len() == 1
            && e.content[0].text == t && e.message_id == id && e.error_message.len() == 0,
{
    reveal_strlit("content");
    reveal_strlit("response");
    reveal_strlit("message");
    assert("content"@.len() != "response"@.len());
    assert("content"@[0] != "message"@[0]);
    assert("response"@.len() != "message"@.len());
    let blocks = seq![b];
    assert(blocks.drop_last() =~= Seq::<JsonV>::empty());
    reveal_with_fuel(text_blocks, 2);
    reveal_with_fuel(part_texts, 2);
    reveal_with_fuel(message_blocks, 2);
    let parts = text_blocks(blocks, false);
    assert(parts.len() == 1 && parts[0].text == t);
    assert(seq![msg].drop_last() =~= Seq::<JsonV>::empty());
    assert(message_blocks(seq![msg]) =~= parts);
    assert(parts.drop_last() =~= Seq::<PartV>::empty());
    assert(part_texts(parts) =~= seq![t]);
    reveal_with_fuel(chained, 2);
    assert(seq![t].drop_last() =~= Seq::<Seq<char>>::empty());
    assert(chained(seq![t]) =~= t);
}

/// An error is told as the agent tells it, and an empty message is sent as a blank one.
pub proof fn errors_of_agents_are_told(v: JsonV, e: JsonV, t: Seq<char>)
    ensures
        field(v, "error"@) == Some(e) && text_field(e, "message"@) == Some(t) ==> response_error(v) == t,
        field(v, "error"@) == Some(JsonV::Str(t)) ==> response_error(v) == t,
        field(v, "error"@) is None ==> response_error(v) == "unknown error"@,
        content_body(Seq::empty()).len() == 1,
        text_field(content_body(Seq::empty())[0], "text"@) == Some(" "@),
        text_field(content_body(Seq::empty())[0], "type"@) == Some("text"@),
{
    let m = content_body(Seq::empty())[0]->Object_0;
    reveal_strlit("type");
    reveal_strlit("text");
    assert("type"@[1] != "text"@[1]);
    assert(m[0].0 == "type"@ && m[1].0 == "text"@);
    first_entry(m, "type"@, 0);
    first_entry(m, "text"@, 1);
}

// ---------------------------------------------------------------------------------------------
// Commands that lack something, and where agents work
// ---------------------------------------------------------------------------------------------

/// A runner that is named without a prompt, or that there is not, is asked nothing: the sender is told
/// what is missing.
pub proof fn incomplete_commands_are_refused(
    p: Seq<char>,
    name: Seq<char>,
    prompt: Seq<char>,
    require_prefix: bool,
    default_runner: Seq<char>,
    runners: Runners,
)
    requires
        is_tight(p),
        is_one_word(name),
        is_tight(prompt),
        name != "help"@,
        name != "agents"@,
    ensures
        lookup(runners, name) is Some ==> parsed(
            p + name,
            p,
            require_prefix,
            default_runner,
            runners,
        ) == Err::<CommandV, Seq<char>>("missing prompt for runner '"@ + name + "'"@),
        lookup(runners, name) is None ==> parsed(
            p + name,
            p,
            require_prefix,
            default_runner,
            runners,
        ) == Err::<CommandV, Seq<char>>("unknown runner '"@ + name + "'"@) && parsed(
            p + (name + seq![' '] + prompt),
            p,
            require_prefix,
            default_runner,
            runners,
        ) == Err::<CommandV, Seq<char>>("unknown runner '"@ + name + "'"@),
{
    let t = p + name;
    assert(is_tight(t)) by {
        assert(t.last() == name.last());
        assert(t[0] == p[0]);
    }
    tight_stays(t);
    tight_stays(name);
    tight_stays(prompt);
    assert(t.take(p.len() as int) =~= p);
    assert(t.skip(p.len() as int) =~= name);
    no_word_ends(name, 0);
    assert(t != p + "help"@) by {
        if t == p + "help"@ {
            assert((p + "help"@).skip(p.len() as int) =~= "help"@);
        }
    }
    assert(t != p + "agents"@) by {
        if t == p + "agents"@ {
            assert((p + "agents"@).skip(p.len() as int) =~= "agents"@);
        }
    }
    let rest = name + seq![' '] + prompt;
    let u = p + rest;
    assert(is_tight(u)) by {
        assert(u.last() == prompt.last());
        assert(u[0] == p[0]);
    }
    tight_stays(u);
    assert(u.take(p.len() as int) =~= p);
    assert(u.skip(p.len() as int) =~= rest);
    assert(rest[0] == name[0]);
    assert(trimmed_start(rest) == rest);
    word_ends(rest, name.len() as int, 0);
    assert(rest.take(name.len() as int) =~= name);
    assert(rest.skip((name.len() + 1) as int) =~= prompt);
    reveal_strlit("help");
    reveal_strlit("agents");
    assert(u != p + "help"@) by {
        assert(u[(p.len() + name.len()) as int] == ' ');
        if u == p + "help"@ {
            assert("help"@[name.len() as int] == ' ');
        }
    }
    assert(u != p + "agents"@) by {
        assert(u[(p.len() + name.len()) as int] == ' ');
        if u == p + "agents"@ {
            assert("agents"@[name.len() as int] == ' ');
        }
    }
}

proof fn no_word_ends(s: Seq<char>, from: int)
    requires
        0 <= from <= s.len(),
        forall|j: int| from <= j < s.len() ==> !is_ws(#[trigger] s[j]),
    ensures
        ws_from(s, from) == s.len(),
    decreases s.len() - from,
{
    if from < s.len() {
        no_word_ends(s, from + 1);
    }
}

proof fn usable_runner_has_a_name(m: Runners, i: int)
    requires
        0 <= i < m.len(),
        m[i].1.enabled,
        m[i].1.command@.len() > 0,
    ensures
        usable_names(m).contains(m[i].0),
    decreases m.len(),
{
    if i == m.len() - 1 {
        assert(usable_names(m).last() == m[i].0);
    } else {
        usable_runner_has_a_name(m.drop_last(), i);
        let n = usable_names(m.drop_last());
        let k = n.index_of(m[i].0);
        assert(usable_names(m)[k] == m[i].0);
    }
}

proof fn named_runner_is_usable(m: Runners, name: Seq<char>)
    requires
        usable_names(m).contains(name),
    ensures
        exists|k: int|
            0 <= k < m.len() && (#[trigger] m[k]).0 == name && m[k].1.enabled && m[k].1.command@.len()
                > 0,
    decreases m.len(),
{
    if m.len() > 0 {
        if m.last().0 == name && m.last().1.enabled && m.last().1.command@.len() > 0 {
            assert(m[m.len() - 1].0 == name);
        } else {
            let n = usable_names(m);
            let i = n.index_of(name);
            assert(usable_names(m.drop_last())[i] == name);
            named_runner_is_usable(m.drop_last(), name);
            let k = choose|k: int|
                0 <= k < m.drop_last().len() && (#[trigger] m.drop_last()[k]).0 == name
                    && m.drop_last()[k].1.enabled && m.drop_last()[k].1.command@.len() > 0;
            assert(m[k].0 == name);
        }
    }
}

/// Where no runner is the usual one, a plain message goes to the first in the alphabet of those that
/// can be used; where none can, it is refused.
pub proof fn first_usable_runner_gets_plain_messages(p: Seq<char>, t: Seq<char>, runners: Runners, i: int)
    requires
        is_tight(p),
        is_tight(t),
        !begins(t, p),
    ensures
        ({
            let r = parsed(t, p, false, Seq::empty(), runners);
            &&& 0 <= i < runners.len() && runners[i].1.enabled && runners[i].1.command@.len() > 0 ==> {
                &&& r is Ok
                &&& r->Ok_0 is Run
                &&& r->Ok_0->prompt == t
                &&& text_le(r->Ok_0->runner, runners[i].0)
            }
            &&& r matches Ok(c) ==> c is Run && exists|k: int|
                0 <= k < runners.len() && (#[trigger] runners[k]).0 == c->runner
                    && runners[k].1.enabled && runners[k].1.command@.len() > 0
        }),
{
    broadcast use vstd::seq_lib::group_to_multiset_ensures;

    tight_stays(t);
    let all = usable_names(runners);
    let o = ordered(all);
    ordered_sorts(all);
    assert(!begins(t, p));
    assert(t != p + "help"@) by {
        assert((p + "help"@).take(p.len() as int) =~= p);
    }
    assert(t != p + "agents"@) by {
        assert((p + "agents"@).take(p.len() as int) =~= p);
    }
    if 0 <= i < runners.len() && runners[i].1.enabled && runners[i].1.command@.len() > 0 {
        usable_runner_has_a_name(runners, i);
        let name = runners[i].0;
        assert(all.to_multiset().count(name) > 0);
        assert(o.contains(name));
        let j = o.index_of(name);
        assert(text_le(o[0], o[j]));
    }
    if o.len() > 0 {
        assert(o.contains(o[0]));
        assert(o.to_multiset().count(o[0]) > 0);
        assert(all.contains(o[0]));
        named_runner_is_usable(runners, o[0]);
    }
}

/// The name of the directory of a session holds letters, digits, dashes and underscores only, so that
/// it leads nowhere else.
pub proof fn workspaces_have_plain_names(s: Seq<char>, i: int)
    ensures
        safe_segment(s).len() > 0,
        0 <= i < safe_segment(s).len() ==> {
            let c = safe_segment(s)[i];
            ('a' <= c <= 'z') || ('A' <= c <= 'Z') || ('0' <= c <= '9') || c == '-' || c == '_'
        },
{
}

/// Where nothing but warnings stands before the mark, the answer is looked for elsewhere.
pub proof fn warnings_are_no_answer(warned: Seq<char>, after: Seq<char>)
    requires
        free_of(warned, '\n'),
        free_of(warned, 'R'),
        is_tight("warning:"@ + warned),
    ensures
        ({
            let raw = "warning:"@ + warned + "Reading prompt from stdin..."@ + after;
            codex_text(raw) == match reply_block(raw) {
                Some(block) => block,
                None => without_noise(raw),
            }
        }),
{
    reveal_strlit("Reading prompt from stdin...");
    reveal_strlit("warning:");
    let before = "warning:"@ + warned;
    let m = "Reading prompt from stdin..."@;
    let s = before + m + after;
    tight_stays(before);
    first_at_from_is_first(s, m, 0);
    assert(s.subrange(before.len() as int, (before.len() + m.len()) as int) =~= m);
    assert(occurs_at(s, m, before.len() as int));
    assert forall|k: int| 0 <= k < before.len() implies #[trigger] before[k] != 'R' && before[k] != '\n' by {
        if k >= 8 {
            assert(before[k] == warned[k - 8]);
        }
    }
    match first_at(s, m) {
        Some(i) => {
            if i < before.len() {
                assert(s.subrange(i, i + m.len())[0] == before[i]);
            }
            assert(s.take(before.len() as int) =~= before);
        },
        None => {},
    }
    one_line(before);
    assert(lines_of(before)[0] == before);
    assert(before.take(8) =~= "warning:"@);
}

} // verus!
