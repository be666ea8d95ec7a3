//! Running a command-line agent: where it runs, what it is given, and what becomes of its output.

use vstd::prelude::*;

use crate::agent::cli::output_filter::{filter_for_im, im_text};
use crate::config::{CliPromptVia, CliRunnerConfig, CliSecurityConfig};
use crate::error::{ErrorV, GatewayError};
use crate::paths::{path_join, path_of};
use crate::strs::{
    byte_len, byte_len_within, chars_of, concat2, concat3, decimal, ends_with, finishes, i64_string,
    is_alnum, is_ascii_alnum, signed_decimal, slice_string, texts, texts_push, trim, trimmed,
    u64_string,
};
use crate::text::{fitting, fitting_end, fitting_is_longest};
use crate::types::{blank_event, response_completed_view, AgentEvent, EventStatus, EventV};

verus! {

// ---------------------------------------------------------------------------------------------
// Where an agent runs
// ---------------------------------------------------------------------------------------------

/// A character that a directory name may hold.
pub open spec fn is_safe(c: char) -> bool {
    is_alnum(c) || c == '-' || c == '_'
}

/// A text as the name of a directory: an underscore in the place of every other character, and
/// for the empty text.
pub open spec fn safe_segment(s: Seq<char>) -> Seq<char> {
    if s.len() == 0 {
        seq!['_']
    } else {
        s.map_values(
            |c: char|
                if is_safe(c) {
                    c
                } else {
                    '_'
                },
        )
    }
}

/// The name of a directory is never empty and holds neither separators nor dots.
pub proof fn safe_segments_are_names(s: Seq<char>)
    ensures
        safe_segment(s).len() > 0,
        forall|i: int| 0 <= i < safe_segment(s).len() ==> is_safe(#[trigger] safe_segment(s)[i]),
{
}

fn sanitize_path_segment(s: &str) -> (r: String)
    ensures
        r@ == safe_segment(s@),
{
    let v: Vec<char> = chars_of(s);
    let mut out: String = String::new();
    if v.len() == 0 {
        out.push('_');
        assert(out@ == seq!['_']);
        return out;
    }
    let mut i: usize = 0;
    let ghost f = |c: char|
        if is_safe(c) {
            c
        } else {
            '_'
        };
    assert(out@ == v@.take(0).map_values(f));
    while i < v.len()
        invariant
            i <= v@.len(),
            f == |c: char|
                if is_safe(c) {
                    c
                } else {
                    '_'
                },
            out@ == v@.take(i as int).map_values(f),
        decreases v@.len() - i,
    {
        let c: char = v[i];
        if is_ascii_alnum(c) || c == '-' || c == '_' {
            out.push(c);
        } else {
            out.push('_');
        }
        assert(out@ == v@.take(i + 1).map_values(f));
        i = i + 1;
    }
    assert(v@.take(v@.len() as int) == v@);
    out
}

/// The directory of a session: under the workspace root, by channel and session.
pub open spec fn workspace_of(root: Seq<char>, channel: Seq<char>, session_id: Seq<char>) -> Seq<
    char,
> {
    path_of(path_of(root, safe_segment(channel)), safe_segment(session_id))
}

/// The directory of a session.
pub fn session_workspace(security: &CliSecurityConfig, channel: &str, session_id: &str) -> (r:
    String)
    ensures
        r@ == workspace_of(security.workspace_root@, channel@, session_id@),
{
    let safe_session: String = sanitize_path_segment(session_id);
    let safe_channel: String = sanitize_path_segment(channel);
    let base: String = path_join(security.workspace_root.as_str(), safe_channel.as_str());
    path_join(base.as_str(), safe_session.as_str())
}

/// The directory in which a runner works: its own, or that of the session.
pub open spec fn cwd_of(
    runner: CliRunnerConfig,
    security: CliSecurityConfig,
    channel: Seq<char>,
    session_id: Seq<char>,
) -> Seq<char> {
    if runner.cwd@.len() > 0 {
        runner.cwd@
    } else {
        workspace_of(security.workspace_root@, channel, session_id)
    }
}

/// The directory in which a runner works.
pub fn resolve_cwd(
    runner: &CliRunnerConfig,
    security: &CliSecurityConfig,
    channel: &str,
    session_id: &str,
) -> (r: Result<String, GatewayError>)
    ensures
        r matches Ok(p) && p@ == cwd_of(*runner, *security, channel@, session_id@),
{
    if !runner.cwd.as_str().is_empty() {
        return Ok(runner.cwd.clone());
    }
    Ok(session_workspace(security, channel, session_id))
}

// ---------------------------------------------------------------------------------------------
// Whether and how an agent runs
// ---------------------------------------------------------------------------------------------

/// Why a runner cannot be run.
pub open spec fn runner_problem(name: Seq<char>, runner: CliRunnerConfig) -> Option<ErrorV> {
    if !runner.enabled {
        Some(ErrorV::Other("runner '"@ + name + "' is disabled"@))
    } else if runner.command@.len() == 0 {
        Some(ErrorV::Other("runner '"@ + name + "' has empty command"@))
    } else {
        None
    }
}

/// Whether a runner can be run.
pub fn check_runner(runner_name: &str, runner: &CliRunnerConfig) -> (r: Result<(), GatewayError>)
    ensures
        match r {
            Ok(_) => runner_problem(runner_name@, *runner) is None,
            Err(e) => runner_problem(runner_name@, *runner) == Some(e@),
        },
{
    if !runner.enabled {
        return Err(GatewayError::Other(concat3("runner '", runner_name, "' is disabled")));
    }
    if runner.command.as_str().is_empty() {
        return Err(GatewayError::Other(concat3("runner '", runner_name, "' has empty command")));
    }
    Ok(())
}

/// How many bytes of output are kept, and for how many seconds a runner may run.
pub fn run_limits(security: &CliSecurityConfig) -> (r: (usize, u64))
    ensures
        r.0 == if security.max_output_kb * 1024 <= usize::MAX {
            security.max_output_kb * 1024
        } else {
            usize::MAX as int
        },
        r.1 == if security.max_run_secs == 0 {
            1
        } else {
            security.max_run_secs
        },
{
    let bytes: usize = match security.max_output_kb.checked_mul(1024) {
        Some(n) => n,
        None => usize::MAX,
    };
    let secs: u64 = if security.max_run_secs == 0 {
        1
    } else {
        security.max_run_secs
    };
    (bytes, secs)
}

/// The arguments of a process: those of the runner, and the prompt where it is an argument.
pub open spec fn process_args_of(runner: CliRunnerConfig, prompt: Seq<char>) -> Seq<Seq<char>> {
    if runner.prompt_via == CliPromptVia::LastArg {
        texts(runner.args@).push(prompt)
    } else {
        texts(runner.args@)
    }
}

/// The arguments of a process.
pub fn process_args(runner: &CliRunnerConfig, prompt: &str) -> (r: Vec<String>)
    ensures
        texts(r@) == process_args_of(*runner, prompt@),
{
    let mut args: Vec<String> = Vec::new();
    let mut i: usize = 0;
    while i < runner.args.len()
        invariant
            i <= runner.args@.len(),
            texts(args@) == texts(runner.args@).take(i as int),
        decreases runner.args@.len() - i,
    {
        let ghost before = args@;
        let a: String = runner.args[i].clone();
        args.push(a);
        proof {
            texts_push(before, a);
            assert(texts(args@) == texts(runner.args@).take(i + 1));
        }
        i = i + 1;
    }
    assert(texts(runner.args@).take(runner.args@.len() as int) == texts(runner.args@));
    if runner.prompt_via == CliPromptVia::LastArg {
        let ghost before = args@;
        let p: String = prompt.to_owned();
        args.push(p);
        proof {
            texts_push(before, p);
        }
    }
    args
}

/// What a process reads from its standard input.
pub fn process_stdin(runner: &CliRunnerConfig, prompt: &str) -> (r: Option<String>)
    ensures
        r.deep_view() == if runner.prompt_via == CliPromptVia::Stdin {
            Some(prompt@)
        } else {
            None
        },
{
    if runner.prompt_via == CliPromptVia::Stdin {
        Some(prompt.to_owned())
    } else {
        None
    }
}

/// A message that failed, with a text of its own.
pub open spec fn failed_message(text: Seq<char>) -> EventV {
    EventV { status: EventStatus::Failed, text: text, ..blank_event() }
}

/// What is sent where a runner took too long.
pub fn timeout_events(runner_name: &str, max_secs: u64) -> (r: Vec<AgentEvent>)
    ensures
        r.deep_view() == seq![
            failed_message(
                "CLI runner '"@ + runner_name@ + "' timed out after "@ + decimal(max_secs as nat)
                    + "s"@,
            ),
            response_completed_view(),
        ],
{
    let secs: String = u64_string(max_secs);
    let mut text: String = concat3("CLI runner '", runner_name, "' timed out after ");
    text.append(secs.as_str());
    text.append("s");
    let mut e: AgentEvent = AgentEvent::default();
    e.status = EventStatus::Failed;
    e.text = text;
    let mut r: Vec<AgentEvent> = Vec::new();
    r.push(e);
    r.push(AgentEvent::response_completed());
    assert(r.deep_view() =~= seq![
        failed_message(
            "CLI runner '"@ + runner_name@ + "' timed out after "@ + decimal(max_secs as nat)
                + "s"@,
        ),
        response_completed_view(),
    ]);
    r
}

// ---------------------------------------------------------------------------------------------
// Output
// ---------------------------------------------------------------------------------------------

/// A line as it was read, without its line end.
pub open spec fn chomped(line: Seq<char>) -> Seq<char> {
    if line.len() > 0 && line.last() == '\n' {
        let l = line.drop_last();
        if l.len() > 0 && l.last() == '\r' {
            l.drop_last()
        } else {
            l
        }
    } else {
        line
    }
}

/// A line as it was read, without its line end.
pub fn chomp(line: &str) -> (r: String)
    ensures
        r@ == chomped(line@),
{
    let v: Vec<char> = chars_of(line);
    let mut end: usize = v.len();
    if end > 0 && v[end - 1] == '\n' {
        end = end - 1;
        if end > 0 && v[end - 1] == '\r' {
            end = end - 1;
        }
    }
    let r: String = slice_string(&v, 0, end);
    assert(r@ == chomped(line@));
    r
}

/// The output collected so far, whether it was cut off, and whether every cut fell between two
/// characters.
#[verifier::ext_equal]
pub struct OutputV {
    pub text: Seq<char>,
    pub truncated: bool,
    pub clean: bool,
}

/// The output with one more line, as far as it fits into `max_bytes` bytes.
pub open spec fn appended(o: OutputV, line: Seq<char>, max_bytes: nat) -> OutputV {
    let l = line + "\n"@;
    if o.truncated {
        o
    } else if byte_len(o.text) + byte_len(l) <= max_bytes {
        OutputV { text: o.text + l, ..o }
    } else if byte_len(o.text) >= max_bytes {
        OutputV { truncated: true, ..o }
    } else {
        let room = max_bytes - byte_len(o.text);
        let n = fitting(l, room);
        OutputV {
            text: o.text + l.take(n),
            truncated: true,
            clean: o.clean && byte_len(l.take(n)) == room,
        }
    }
}

/// The output with the lines of the standard output.
pub open spec fn with_stdout(o: OutputV, lines: Seq<Seq<char>>, max_bytes: nat) -> OutputV
    decreases lines.len(),
{
    if lines.len() == 0 {
        o
    } else {
        appended(with_stdout(o, lines.drop_last(), max_bytes), lines.last(), max_bytes)
    }
}

/// The output on a line of its own.
pub open spec fn on_new_line(o: OutputV) -> OutputV {
    if o.text.len() > 0 && !finishes(o.text, "\n"@) {
        OutputV { text: o.text + "\n"@, ..o }
    } else {
        o
    }
}

/// The output with the lines of the standard error, each on a line of its own.
pub open spec fn with_stderr(o: OutputV, lines: Seq<Seq<char>>, max_bytes: nat) -> OutputV
    decreases lines.len(),
{
    if lines.len() == 0 {
        o
    } else {
        appended(
            on_new_line(with_stderr(o, lines.drop_last(), max_bytes)),
            lines.last(),
            max_bytes,
        )
    }
}

/// The output of a process.
pub open spec fn collected(stdout: Seq<Seq<char>>, stderr: Seq<Seq<char>>, max_bytes: nat) -> OutputV {
    let start = OutputV { text: Seq::empty(), truncated: false, clean: true };
    with_stderr(with_stdout(start, stdout, max_bytes), stderr, max_bytes)
}

/// Appends a line to the output and says whether a cut fell inside a character.
fn append_output(buf: &mut String, truncated: &mut bool, line: &str, max_bytes: usize) -> (r: bool)
    ensures
        forall|clean: bool|
            (#[trigger] appended(
                OutputV { text: old(buf)@, truncated: *old(truncated), clean: clean },
                line@,
                max_bytes as nat,
            )) == (OutputV { text: final(buf)@, truncated: *final(truncated), clean: clean && r }),
{
    if *truncated {
        return true;
    }
    let l: String = concat2(line, "\n");
    let v: Vec<char> = chars_of(l.as_str());
    let b: Vec<char> = chars_of(buf.as_str());
    match byte_len_within(&b, max_bytes) {
        Some(used) => {
            let room: usize = max_bytes - used;
            match byte_len_within(&v, room) {
                Some(_) => {
                    buf.append(l.as_str());
                    true
                },
                None => {
                    *truncated = true;
                    if room == 0 {
                        return true;
                    }
                    let cut: (usize, usize) = fitting_end(&v, 0, room);
                    let part: String = slice_string(&v, 0, cut.0);
                    proof {
                        assert(v@.skip(0) == v@);
                        assert(v@.subrange(0, cut.0 as int) == v@.take(cut.0 as int));
                    }
                    buf.append(part.as_str());
                    cut.1 == room
                },
            }
        },
        None => {
            *truncated = true;
            true
        },
    }
}

/// The output of a process, whether it was cut off, and whether every cut fell between two
/// characters.
fn collect_output(stdout: &Vec<String>, stderr: &Vec<String>, max_bytes: usize) -> (r: (
    String,
    bool,
    bool,
))
    ensures
        collected(texts(stdout@), texts(stderr@), max_bytes as nat) == (OutputV {
            text: r.0@,
            truncated: r.1,
            clean: r.2,
        }),
{
    let mut buf: String = String::new();
    let mut truncated: bool = false;
    let mut clean: bool = true;
    let ghost start = OutputV { text: Seq::empty(), truncated: false, clean: true };
    let ghost outs = texts(stdout@);
    let ghost errs = texts(stderr@);
    let mut i: usize = 0;
    assert(outs.take(0) == Seq::<Seq<char>>::empty());
    while i < stdout.len()
        invariant
            i <= stdout@.len(),
            outs == texts(stdout@),
            with_stdout(start, outs.take(i as int), max_bytes as nat) == (OutputV {
                text: buf@,
                truncated: truncated,
                clean: clean,
            }),
        decreases stdout@.len() - i,
    {
        proof {
            assert(outs.take(i + 1).drop_last() == outs.take(i as int));
            assert(outs.take(i + 1).last() == stdout@[i as int]@);
        }
        let ok: bool = append_output(&mut buf, &mut truncated, stdout[i].as_str(), max_bytes);
        clean = clean && ok;
        i = i + 1;
    }
    assert(outs.take(outs.len() as int) == outs);
    let ghost mid = with_stdout(start, outs, max_bytes as nat);
    let mut j: usize = 0;
    assert(errs.take(0) == Seq::<Seq<char>>::empty());
    while j < stderr.len()
        invariant
            j <= stderr@.len(),
            errs == texts(stderr@),
            with_stderr(mid, errs.take(j as int), max_bytes as nat) == (OutputV {
                text: buf@,
                truncated: truncated,
                clean: clean,
            }),
        decreases stderr@.len() - j,
    {
        proof {
            assert(errs.take(j + 1).drop_last() == errs.take(j as int));
            assert(errs.take(j + 1).last() == stderr@[j as int]@);
        }
        if !buf.as_str().is_empty() && !ends_with(buf.as_str(), "\n") {
            buf.append("\n");
        }
        let ok: bool = append_output(&mut buf, &mut truncated, stderr[j].as_str(), max_bytes);
        clean = clean && ok;
        j = j + 1;
    }
    assert(errs.take(errs.len() as int) == errs);
    (buf, truncated, clean)
}

/// Whether the output of a process can be cut to `max_bytes` bytes without cutting a character.
pub fn output_cuts_fall_on_chars(stdout: &Vec<String>, stderr: &Vec<String>, max_bytes: usize) -> (r:
    bool)
    ensures
        r == collected(texts(stdout@), texts(stderr@), max_bytes as nat).clean,
{
    collect_output(stdout, stderr, max_bytes).2
}

/// The text that says how a process ended.
pub open spec fn exit_text(code: Option<i32>) -> Seq<char> {
    "process exited with "@ + signed_decimal(
        match code {
            Some(c) => c as int,
            None => -1,
        },
    )
}

fn describe_exit(code: Option<i32>) -> (r: String)
    ensures
        r@ == exit_text(code),
{
    let n: i64 = match code {
        Some(c) => c as i64,
        None => -1,
    };
    concat2("process exited with ", i64_string(n).as_str())
}

/// The whole text of a process: its output, trimmed, with a note where it was cut off, or how
/// the process ended where it failed without output.
pub open spec fn final_text(o: OutputV, success: bool, code: Option<i32>) -> Seq<char> {
    let text = if o.truncated {
        trimmed(o.text) + "\n\n(output truncated)"@
    } else {
        trimmed(o.text)
    };
    if text.len() == 0 && !success {
        exit_text(code)
    } else {
        text
    }
}

/// The events of a process that ended: its text, filtered for the chat unless nothing is left
/// of it, and the end of the response.
pub open spec fn process_events_of(
    runner_name: Seq<char>,
    runner: CliRunnerConfig,
    o: OutputV,
    success: bool,
    code: Option<i32>,
) -> Seq<EventV> {
    let text = final_text(o, success, code);
    let filtered = im_text(text, runner_name, runner);
    let im = if filtered.len() == 0 {
        text
    } else {
        filtered
    };
    if im.len() > 0 {
        seq![
            EventV {
                status: if success {
                    EventStatus::Completed
                } else {
                    EventStatus::Failed
                },
                text: im,
                ..blank_event()
            },
            response_completed_view(),
        ]
    } else {
        seq![response_completed_view()]
    }
}

/// The events of a process that ended.
pub fn process_events(
    runner_name: &str,
    runner: &CliRunnerConfig,
    stdout: &Vec<String>,
    stderr: &Vec<String>,
    success: bool,
    code: Option<i32>,
    max_bytes: usize,
) -> (r: Vec<AgentEvent>)
    requires
        collected(texts(stdout@), texts(stderr@), max_bytes as nat).clean,
    ensures
        r.deep_view() == process_events_of(
            runner_name@,
            *runner,
            collected(texts(stdout@), texts(stderr@), max_bytes as nat),
            success,
            code,
        ),
{
    let out: (String, bool, bool) = collect_output(stdout, stderr, max_bytes);
    let ghost o = collected(texts(stdout@), texts(stderr@), max_bytes as nat);
    let mut text: String = trim(out.0.as_str()).to_owned();
    if out.1 {
        text.append("\n\n(output truncated)");
    }
    if text.as_str().is_empty() && !success {
        text = describe_exit(code);
    }
    assert(text@ == final_text(o, success, code));
    let filtered: (String, String) = filter_for_im(text.as_str(), runner_name, runner);
    let im: String = if filtered.0.as_str().is_empty() {
        text
    } else {
        filtered.0
    };
    let mut events: Vec<AgentEvent> = Vec::new();
    if !im.as_str().is_empty() {
        let mut e: AgentEvent = AgentEvent::default();
        e.status = if success {
            EventStatus::Completed
        } else {
            EventStatus::Failed
        };
        e.text = im;
        events.push(e);
    }
    events.push(AgentEvent::response_completed());
    assert(events.deep_view() =~= process_events_of(runner_name@, *runner, o, success, code));
    events
}

proof fn appended_fits(o: OutputV, line: Seq<char>, max_bytes: nat)
    requires
        byte_len(o.text) <= max_bytes,
    ensures
        byte_len(appended(o, line, max_bytes).text) <= max_bytes,
{
    let l = line + "\n"@;
    crate::strs::byte_len_add(o.text, l);
    if !o.truncated && byte_len(o.text) + byte_len(l) > max_bytes {
        let room = max_bytes - byte_len(o.text);
        fitting_is_longest(l, room);
        crate::strs::byte_len_add(o.text, l.take(fitting(l, room)));
    }
}

/// The collected standard output never takes more than `max_bytes` bytes.
pub proof fn stdout_stays_within_limit(o: OutputV, lines: Seq<Seq<char>>, max_bytes: nat)
    requires
        byte_len(o.text) <= max_bytes,
    ensures
        byte_len(with_stdout(o, lines, max_bytes).text) <= max_bytes,
    decreases lines.len(),
{
    if lines.len() > 0 {
        stdout_stays_within_limit(o, lines.drop_last(), max_bytes);
        appended_fits(
            with_stdout(o, lines.drop_last(), max_bytes),
            lines.last(),
            max_bytes,
        );
    }
}

} // verus!
