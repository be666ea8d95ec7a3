//! What a message to the Codex app server asks for.

use vstd::prelude::*;

use crate::strs::{
    after_prefix, begins, concat2, concat3, is_ws, is_whitespace, join, joined, number_in,
    parse_usize, same, split_at_ws, split_once_ws, split_whitespace, starts_with, strip_prefix,
    texts, trim, trimmed, words_of,
};

verus! {

/// What a message asks for.
#[derive(Debug, PartialEq, Eq)]
pub enum ParsedCommand {
    Help,
    Session,
    Thread,
    Threads { loaded_only: bool, limit: usize },
    New,
    Bind { thread_id: String },
    Rename { name: String },
    Approve { request_id: Option<String> },
    Deny { request_id: Option<String> },
    Answer { request_id: Option<String>, text: String },
    Prompt { text: String },
}

/// What a command holds.
#[verifier::ext_equal]
pub enum CommandV {
    Help,
    Session,
    Thread,
    Threads { loaded_only: bool, limit: usize },
    New,
    Bind { thread_id: Seq<char> },
    Rename { name: Seq<char> },
    Approve { request_id: Option<Seq<char>> },
    Deny { request_id: Option<Seq<char>> },
    Answer { request_id: Option<Seq<char>>, text: Seq<char> },
    Prompt { text: Seq<char> },
}

impl View for ParsedCommand {
    type V = CommandV;

    open spec fn view(&self) -> CommandV {
        match self {
            ParsedCommand::Help => CommandV::Help,
            ParsedCommand::Session => CommandV::Session,
            ParsedCommand::Thread => CommandV::Thread,
            ParsedCommand::Threads { loaded_only, limit } => CommandV::Threads {
                loaded_only: *loaded_only,
                limit: *limit,
            },
            ParsedCommand::New => CommandV::New,
            ParsedCommand::Bind { thread_id } => CommandV::Bind { thread_id: thread_id@ },
            ParsedCommand::Rename { name } => CommandV::Rename { name: name@ },
            ParsedCommand::Approve { request_id } => CommandV::Approve {
                request_id: request_id.deep_view(),
            },
            ParsedCommand::Deny { request_id } => CommandV::Deny {
                request_id: request_id.deep_view(),
            },
            ParsedCommand::Answer { request_id, text } => CommandV::Answer {
                request_id: request_id.deep_view(),
                text: text@,
            },
            ParsedCommand::Prompt { text } => CommandV::Prompt { text: text@ },
        }
    }
}

/// The prefix that counts: `/` where none is set.
pub open spec fn prefix_or_slash(p: Seq<char>) -> Seq<char> {
    if p.len() == 0 {
        "/"@
    } else {
        p
    }
}

/// What follows the command `name`, where a text is that command.
pub open spec fn args_of(t: Seq<char>, prefix: Seq<char>, name: Seq<char>) -> Option<Seq<char>> {
    match after_prefix(t, prefix + name) {
        Some(rest) => if rest.len() == 0 || is_ws(rest[0]) {
            Some(rest)
        } else {
            None
        },
        None => None,
    }
}

/// Whether a text is the command `name` and nothing else.
pub open spec fn is_bare(t: Seq<char>, prefix: Seq<char>, name: Seq<char>) -> bool {
    args_of(t, prefix, name) matches Some(rest) && trimmed(rest).len() == 0
}

/// A number brought into the range from 1 to 20.
pub open spec fn list_limit(n: nat) -> usize {
    if n < 1 {
        1
    } else if n > 20 {
        20
    } else {
        n as usize
    }
}

/// What the words after `threads` ask for; `None` where one of them makes no sense.
pub open spec fn threads_args(words: Seq<Seq<char>>, loaded_only: bool, limit: usize) -> Option<
    (bool, usize),
>
    decreases words.len(),
{
    if words.len() == 0 {
        Some((loaded_only, limit))
    } else if words[0] == "loaded"@ {
        threads_args(words.drop_first(), true, limit)
    } else {
        match number_in(words[0], usize::MAX as nat) {
            Some(n) => threads_args(words.drop_first(), loaded_only, list_limit(n)),
            None => None,
        }
    }
}

/// An argument, trimmed; none where it is empty.
pub open spec fn optional_arg(rest: Seq<char>) -> Option<Seq<char>> {
    if trimmed(rest).len() == 0 {
        None
    } else {
        Some(trimmed(rest))
    }
}

/// The id of a request at the start of an answer, and the answer. Only a first word of the form
/// of such an id is one.
pub open spec fn id_and_answer(rest: Seq<char>) -> (Option<Seq<char>>, Seq<char>) {
    match split_at_ws(rest) {
        None => (None, trimmed(rest)),
        Some((first, tail)) => if begins(first, "req_"@) || begins(first, "appr_"@) {
            (Some(first), trimmed(tail))
        } else {
            (None, trimmed(rest))
        },
    }
}

/// The result of a command that lists threads.
pub open spec fn threads_command(rest: Seq<char>, prefix: Seq<char>) -> Result<
    CommandV,
    Seq<char>,
> {
    match threads_args(words_of(rest), false, 10) {
        Some((loaded_only, limit)) => Ok(
            CommandV::Threads { loaded_only: loaded_only, limit: limit },
        ),
        None => Err("usage: "@ + prefix + "threads [loaded] [limit]"@),
    }
}

/// The result of a command that answers a request.
pub open spec fn answer_command(rest: Seq<char>, prefix: Seq<char>) -> Result<CommandV, Seq<char>> {
    let rest = trimmed(rest);
    let (id, text) = id_and_answer(rest);
    if rest.len() == 0 || text.len() == 0 {
        Err("usage: "@ + prefix + "answer [requestId] <answer>"@)
    } else {
        Ok(CommandV::Answer { request_id: id, text: text })
    }
}

/// The first word of a text.
pub open spec fn first_word(t: Seq<char>) -> Seq<char> {
    if words_of(t).len() > 0 {
        words_of(t)[0]
    } else {
        t
    }
}

/// What a message asks for, or what is wrong with it.
pub open spec fn parsed(text: Seq<char>, command_prefix: Seq<char>) -> Result<CommandV, Seq<char>> {
    let t = trimmed(text);
    let p = prefix_or_slash(command_prefix);
    if t.len() == 0 {
        Err("empty message"@)
    } else if is_bare(t, p, "help"@) {
        Ok(CommandV::Help)
    } else if is_bare(t, p, "session"@) || is_bare(t, p, "sessions"@) {
        Ok(CommandV::Session)
    } else if is_bare(t, p, "thread"@) {
        Ok(CommandV::Thread)
    } else if args_of(t, p, "threads"@) is Some {
        threads_command(args_of(t, p, "threads"@)->0, p)
    } else if args_of(t, p, "list"@) is Some {
        threads_command(args_of(t, p, "list"@)->0, p)
    } else if is_bare(t, p, "new"@) {
        Ok(CommandV::New)
    } else if args_of(t, p, "bind"@) is Some {
        let id = trimmed(args_of(t, p, "bind"@)->0);
        if id.len() == 0 {
            Err("usage: "@ + p + "bind <threadId>"@)
        } else {
            Ok(CommandV::Bind { thread_id: id })
        }
    } else if args_of(t, p, "rename"@) is Some {
        let name = trimmed(args_of(t, p, "rename"@)->0);
        if name.len() == 0 {
            Err("usage: "@ + p + "rename <name>"@)
        } else {
            Ok(CommandV::Rename { name: name })
        }
    } else if args_of(t, p, "approve"@) is Some {
        Ok(CommandV::Approve { request_id: optional_arg(args_of(t, p, "approve"@)->0) })
    } else if args_of(t, p, "deny"@) is Some {
        Ok(CommandV::Deny { request_id: optional_arg(args_of(t, p, "deny"@)->0) })
    } else if args_of(t, p, "answer"@) is Some {
        answer_command(args_of(t, p, "answer"@)->0, p)
    } else if begins(t, p) {
        Err("unknown command: "@ + first_word(t))
    } else {
        Ok(CommandV::Prompt { text: t })
    }
}

/// A message that starts with the prefix is never forwarded to the agent as a prompt.
pub proof fn commands_are_never_prompts(text: Seq<char>, command_prefix: Seq<char>)
    requires
        begins(trimmed(text), prefix_or_slash(command_prefix)),
    ensures
        !(parsed(text, command_prefix) matches Ok(CommandV::Prompt { .. })),
{
}

fn command_args<'a>(text: &'a str, prefix: &str, name: &str) -> (r: Option<&'a str>)
    ensures
        r.deep_view() == args_of(text@, prefix@, name@),
{
    let command: String = concat2(prefix, name);
    match strip_prefix(text, command.as_str()) {
        Some(rest) => if rest.is_empty() || is_whitespace(rest.get_char(0)) {
            Some(rest)
        } else {
            None
        },
        None => None,
    }
}

fn is_no_arg_command(text: &str, prefix: &str, name: &str) -> (r: bool)
    ensures
        r == is_bare(text@, prefix@, name@),
{
    match command_args(text, prefix, name) {
        Some(rest) => trim(rest).is_empty(),
        None => false,
    }
}

fn optional_single_arg(rest: &str) -> (r: Option<String>)
    ensures
        r.deep_view() == optional_arg(rest@),
{
    let t: &str = trim(rest);
    if t.is_empty() {
        None
    } else {
        Some(t.to_owned())
    }
}

fn split_optional_request_id(rest: &str) -> (r: (Option<String>, String))
    ensures
        (r.0.deep_view(), r.1@) == id_and_answer(rest@),
{
    match split_once_ws(rest) {
        None => (None, trim(rest).to_owned()),
        Some((first, tail)) => if starts_with(first, "req_") || starts_with(first, "appr_") {
            (Some(first.to_owned()), trim(tail).to_owned())
        } else {
            (None, trim(rest).to_owned())
        },
    }
}

fn parse_threads(rest: &str, prefix: &str) -> (r: Result<ParsedCommand, String>)
    ensures
        match r {
            Ok(c) => threads_command(rest@, prefix@) == Ok::<CommandV, Seq<char>>(c@),
            Err(e) => threads_command(rest@, prefix@) == Err::<CommandV, Seq<char>>(e@),
        },
{
    let words: Vec<String> = split_whitespace(rest);
    let ghost all = texts(words@);
    let mut loaded_only: bool = false;
    let mut limit: usize = 10;
    let mut i: usize = 0;
    assert(all.skip(0) == all);
    while i < words.len()
        invariant
            i <= words@.len(),
            all == texts(words@),
            all == words_of(rest@),
            threads_args(all, false, 10) == threads_args(all.skip(i as int), loaded_only, limit),
        decreases words@.len() - i,
    {
        proof {
            assert(all.skip(i as int)[0] == words@[i as int]@);
            assert(all.skip(i as int).drop_first() == all.skip(i + 1));
        }
        if same(words[i].as_str(), "loaded") {
            loaded_only = true;
        } else {
            match parse_usize(words[i].as_str()) {
                Some(n) => {
                    limit = if n < 1 {
                        1
                    } else if n > 20 {
                        20
                    } else {
                        n
                    };
                },
                None => {
                    return Err(concat3("usage: ", prefix, "threads [loaded] [limit]"));
                },
            }
        }
        i = i + 1;
    }
    Ok(ParsedCommand::Threads { loaded_only: loaded_only, limit: limit })
}

fn parse_answer(rest: &str, prefix: &str) -> (r: Result<ParsedCommand, String>)
    ensures
        match r {
            Ok(c) => answer_command(rest@, prefix@) == Ok::<CommandV, Seq<char>>(c@),
            Err(e) => answer_command(rest@, prefix@) == Err::<CommandV, Seq<char>>(e@),
        },
{
    let rest: &str = trim(rest);
    if rest.is_empty() {
        return Err(concat3("usage: ", prefix, "answer [requestId] <answer>"));
    }
    let (request_id, text): (Option<String>, String) = split_optional_request_id(rest);
    if text.as_str().is_empty() {
        return Err(concat3("usage: ", prefix, "answer [requestId] <answer>"));
    }
    Ok(ParsedCommand::Answer { request_id: request_id, text: text })
}

/// What a message asks for, or what is wrong with it.
pub fn parse_command(text: &str, command_prefix: &str) -> (r: Result<ParsedCommand, String>)
    ensures
        match r {
            Ok(c) => parsed(text@, command_prefix@) == Ok::<CommandV, Seq<char>>(c@),
            Err(e) => parsed(text@, command_prefix@) == Err::<CommandV, Seq<char>>(e@),
        },
{
    let t: &str = trim(text);
    if t.is_empty() {
        return Err("empty message".to_owned());
    }
    let prefix: &str = if command_prefix.is_empty() {
        "/"
    } else {
        command_prefix
    };
    if is_no_arg_command(t, prefix, "help") {
        return Ok(ParsedCommand::Help);
    }
    if is_no_arg_command(t, prefix, "session") || is_no_arg_command(t, prefix, "sessions") {
        return Ok(ParsedCommand::Session);
    }
    if is_no_arg_command(t, prefix, "thread") {
        return Ok(ParsedCommand::Thread);
    }
    if let Some(rest) = command_args(t, prefix, "threads") {
        return parse_threads(rest, prefix);
    }
    if let Some(rest) = command_args(t, prefix, "list") {
        return parse_threads(rest, prefix);
    }
    if is_no_arg_command(t, prefix, "new") {
        return Ok(ParsedCommand::New);
    }
    if let Some(rest) = command_args(t, prefix, "bind") {
        let thread_id: &str = trim(rest);
        if thread_id.is_empty() {
            return Err(concat3("usage: ", prefix, "bind <threadId>"));
        }
        return Ok(ParsedCommand::Bind { thread_id: thread_id.to_owned() });
    }
    if let Some(rest) = command_args(t, prefix, "rename") {
        let name: &str = trim(rest);
        if name.is_empty() {
            return Err(concat3("usage: ", prefix, "rename <name>"));
        }
        return Ok(ParsedCommand::Rename { name: name.to_owned() });
    }
    if let Some(rest) = command_args(t, prefix, "approve") {
        return Ok(ParsedCommand::Approve { request_id: optional_single_arg(rest) });
    }
    if let Some(rest) = command_args(t, prefix, "deny") {
        return Ok(ParsedCommand::Deny { request_id: optional_single_arg(rest) });
    }
    if let Some(rest) = command_args(t, prefix, "answer") {
        return parse_answer(rest, prefix);
    }
    if starts_with(t, prefix) {
        let words: Vec<String> = split_whitespace(t);
        assert(texts(words@).len() == words@.len());
        let command: String = if words.len() > 0 {
            assert(texts(words@)[0] == words@[0]@);
            words[0].clone()
        } else {
            t.to_owned()
        };
        return Err(concat2("unknown command: ", command.as_str()));
    }
    Ok(ParsedCommand::Prompt { text: t.to_owned() })
}

/// The lines of the help text.
pub open spec fn help_lines(command_prefix: Seq<char>) -> Seq<Seq<char>> {
    let p = prefix_or_slash(command_prefix);
    seq![
        "Codex app-server commands:"@,
        "  "@ + p + "help — show this message"@,
        "  "@ + p + "session — show current IM session id and binding info"@,
        "  "@ + p + "thread — show bound Codex thread id for this IM session"@,
        "  "@ + p + "threads [limit] — list recent Codex threads plus loaded remote threads"@,
        "  "@ + p + "threads loaded [limit] — list currently loaded app-server thread ids"@,
        "  "@ + p + "bind <threadId|number> — bind to a thread id or a number from "@ + (p
            + "threads"@),
        "  "@ + p + "rename <name> — rename the bound Codex thread"@,
        "  "@ + p + "approve [requestId] — approve a pending Codex request"@,
        "  "@ + p + "deny [requestId] — deny a pending Codex request"@,
        "  "@ + p + "answer [requestId] <answer> — answer a pending Codex input request"@,
        "  "@ + p + "new — clear binding; next message starts a new thread"@,
        "  <text> — send prompt to bound (or new) thread via turn/start"@,
        Seq::empty(),
        "Prerequisite: run `codex app-server --listen ws://127.0.0.1:4500` on this Mac."@,
        "Optional TUI: `codex --remote ws://127.0.0.1:4500`"@,
    ]
}

/// The help text.
pub fn format_help(command_prefix: &str) -> (r: String)
    ensures
        r@ == joined(help_lines(command_prefix@), "\n"@),
{
    let p: &str = if command_prefix.is_empty() {
        "/"
    } else {
        command_prefix
    };
    let threads: String = concat2(p, "threads");
    let mut ls: Vec<String> = Vec::new();
    ls.push("Codex app-server commands:".to_owned());
    ls.push(concat3("  ", p, "help — show this message"));
    ls.push(concat3("  ", p, "session — show current IM session id and binding info"));
    ls.push(concat3("  ", p, "thread — show bound Codex thread id for this IM session"));
    ls.push(
        concat3(
            "  ",
            p,
            "threads [limit] — list recent Codex threads plus loaded remote threads",
        ),
    );
    ls.push(
        concat3(
            "  ",
            p,
            "threads loaded [limit] — list currently loaded app-server thread ids",
        ),
    );
    let bind: String = concat3(
        "  ",
        p,
        "bind <threadId|number> — bind to a thread id or a number from ",
    );
    ls.push(concat2(bind.as_str(), threads.as_str()));
    ls.push(concat3("  ", p, "rename <name> — rename the bound Codex thread"));
    ls.push(concat3("  ", p, "approve [requestId] — approve a pending Codex request"));
    ls.push(concat3("  ", p, "deny [requestId] — deny a pending Codex request"));
    ls.push(
        concat3("  ", p, "answer [requestId] <answer> — answer a pending Codex input request"),
    );
    ls.push(concat3("  ", p, "new — clear binding; next message starts a new thread"));
    ls.push("  <text> — send prompt to bound (or new) thread via turn/start".to_owned());
    ls.push(String::new());
    ls.push(
        "Prerequisite: run `codex app-server --listen ws://127.0.0.1:4500` on this Mac.".to_owned(),
    );
    ls.push("Optional TUI: `codex --remote ws://127.0.0.1:4500`".to_owned());
    assert(texts(ls@) =~= help_lines(command_prefix@));
    join(&ls, "\n")
}

} // verus!
