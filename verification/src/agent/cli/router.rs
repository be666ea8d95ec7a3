//! Which command-line agent a message is for.

use vstd::prelude::*;

use crate::config::{CliRunnerConfig, CliSecurityConfig};
use crate::strs::{
    after_prefix, concat2, concat3, ends_with, finishes, join, joined, ordered, same, sort_texts,
    split_at_ws, split_once_ws, strip_prefix, texts, texts_push, trim, trim_start, trimmed,
    trimmed_start,
};
use crate::table::{lookup, pairs, Table};

verus! {

/// What a message asks for.
#[derive(Debug, PartialEq, Eq)]
pub enum ParsedCommand {
    Run { runner: String, prompt: String },
    Help,
    ListAgents,
}

/// What a command holds.
#[verifier::ext_equal]
pub enum CommandV {
    Run { runner: Seq<char>, prompt: Seq<char> },
    Help,
    ListAgents,
}

impl View for ParsedCommand {
    type V = CommandV;

    open spec fn view(&self) -> CommandV {
        match self {
            ParsedCommand::Run { runner, prompt } => CommandV::Run {
                runner: runner@,
                prompt: prompt@,
            },
            ParsedCommand::Help => CommandV::Help,
            ParsedCommand::ListAgents => CommandV::ListAgents,
        }
    }
}

/// The runners by name.
pub type Runners = Seq<(Seq<char>, CliRunnerConfig)>;

/// A runner that can be used.
pub open spec fn usable(r: CliRunnerConfig) -> bool {
    r.enabled && r.command@.len() > 0
}

/// The names of the runners that can be used, in the order in which they are configured.
pub open spec fn usable_names(m: Runners) -> Seq<Seq<char>>
    decreases m.len(),
{
    if m.len() == 0 {
        Seq::empty()
    } else if usable(m.last().1) {
        usable_names(m.drop_last()).push(m.last().0)
    } else {
        usable_names(m.drop_last())
    }
}

/// The names of the runners that can be used, in alphabetical order.
pub open spec fn enabled_names(m: Runners) -> Seq<Seq<char>> {
    ordered(usable_names(m))
}

/// The prefix that counts: `/` where none is set.
pub open spec fn prefix_or_slash(p: Seq<char>) -> Seq<char> {
    if p.len() == 0 {
        "/"@
    } else {
        p
    }
}

/// What the text after the prefix asks for.
pub open spec fn command_in(rest: Seq<char>, runners: Runners) -> Result<CommandV, Seq<char>> {
    let rest = trimmed_start(rest);
    let (name, prompt) = match split_at_ws(rest) {
        Some((r, p)) => (trimmed(r), trimmed(p)),
        None => (rest, Seq::empty()),
    };
    if rest.len() == 0 || name.len() == 0 {
        Ok(CommandV::Help)
    } else if lookup(runners, name) is None {
        Err("unknown runner '"@ + name + "'"@)
    } else if prompt.len() == 0 {
        Err("missing prompt for runner '"@ + name + "'"@)
    } else {
        Ok(CommandV::Run { runner: name, prompt: prompt })
    }
}

/// The runner of a message without a prefix.
pub open spec fn runner_for_plain(default_runner: Seq<char>, runners: Runners) -> Result<
    Seq<char>,
    Seq<char>,
> {
    if default_runner.len() == 0 {
        if enabled_names(runners).len() == 0 {
            Err("no default_runner and no enabled runners"@)
        } else {
            Ok(enabled_names(runners)[0])
        }
    } else if lookup(runners, default_runner) is None {
        Err("default_runner '"@ + default_runner + "' is not configured"@)
    } else {
        Ok(default_runner)
    }
}

/// What a message asks for, or what is wrong with it.
pub open spec fn parsed(
    text: Seq<char>,
    command_prefix: Seq<char>,
    require_command_prefix: bool,
    default_runner: Seq<char>,
    runners: Runners,
) -> Result<CommandV, Seq<char>> {
    let t = trimmed(text);
    let prefix = prefix_or_slash(command_prefix);
    if t.len() == 0 {
        Err("empty message"@)
    } else if t == prefix + "help"@ || t == prefix + "agents"@ {
        if finishes(t, "agents"@) {
            Ok(CommandV::ListAgents)
        } else {
            Ok(CommandV::Help)
        }
    } else {
        match after_prefix(t, prefix) {
            Some(rest) => command_in(rest, runners),
            None => if require_command_prefix {
                Err(
                    "messages must start with '"@ + prefix + "<runner> <prompt>' (see "@ + prefix
                        + "help)"@,
                )
            } else {
                match runner_for_plain(default_runner, runners) {
                    Ok(runner) => Ok(CommandV::Run { runner: runner, prompt: t }),
                    Err(e) => Err(e),
                }
            },
        }
    }
}

fn parse_prefixed(rest: &str, runners: &Table<CliRunnerConfig>) -> (r: Result<
    ParsedCommand,
    String,
>)
    ensures
        match r {
            Ok(c) => command_in(rest@, runners@) == Ok::<CommandV, Seq<char>>(c@),
            Err(e) => command_in(rest@, runners@) == Err::<CommandV, Seq<char>>(e@),
        },
{
    let rest: &str = trim_start(rest);
    if rest.is_empty() {
        return Ok(ParsedCommand::Help);
    }
    let (name, prompt): (&str, String) = match split_once_ws(rest) {
        Some((a, b)) => (trim(a), trim(b).to_owned()),
        None => (rest, String::new()),
    };
    if name.is_empty() {
        return Ok(ParsedCommand::Help);
    }
    if !runners.contains_key(name) {
        return Err(concat3("unknown runner '", name, "'"));
    }
    if prompt.as_str().is_empty() {
        return Err(concat3("missing prompt for runner '", name, "'"));
    }
    Ok(ParsedCommand::Run { runner: name.to_owned(), prompt: prompt })
}

/// The runner of a message without a prefix.
pub fn runner_without_prefix(default_runner: &str, runners: &Table<CliRunnerConfig>) -> (r: Result<
    String,
    String,
>)
    ensures
        match r {
            Ok(n) => runner_for_plain(default_runner@, runners@) == Ok::<Seq<char>, Seq<char>>(n@),
            Err(e) => runner_for_plain(default_runner@, runners@) == Err::<Seq<char>, Seq<char>>(
                e@,
            ),
        },
{
    if default_runner.is_empty() {
        let names: Vec<String> = enabled_runner_names(runners);
        assert(texts(names@).len() == names@.len());
        if names.len() == 0 {
            return Err("no default_runner and no enabled runners".to_owned());
        }
        assert(texts(names@)[0] == names@[0]@);
        return Ok(names[0].clone());
    }
    if !runners.contains_key(default_runner) {
        return Err(concat3("default_runner '", default_runner, "' is not configured"));
    }
    Ok(default_runner.to_owned())
}

/// What a message asks for, or what is wrong with it.
pub fn parse_command(
    text: &str,
    command_prefix: &str,
    require_command_prefix: bool,
    default_runner: &str,
    runners: &Table<CliRunnerConfig>,
) -> (r: Result<ParsedCommand, String>)
    ensures
        match r {
            Ok(c) => parsed(
                text@,
                command_prefix@,
                require_command_prefix,
                default_runner@,
                runners@,
            ) == Ok::<CommandV, Seq<char>>(c@),
            Err(e) => parsed(
                text@,
                command_prefix@,
                require_command_prefix,
                default_runner@,
                runners@,
            ) == Err::<CommandV, Seq<char>>(e@),
        },
{
    let trimmed_text: &str = trim(text);
    if trimmed_text.is_empty() {
        return Err("empty message".to_owned());
    }
    let prefix: &str = if command_prefix.is_empty() {
        "/"
    } else {
        command_prefix
    };
    let help: String = concat2(prefix, "help");
    let agents: String = concat2(prefix, "agents");
    if same(trimmed_text, help.as_str()) || same(trimmed_text, agents.as_str()) {
        if ends_with(trimmed_text, "agents") {
            return Ok(ParsedCommand::ListAgents);
        }
        return Ok(ParsedCommand::Help);
    }
    if let Some(rest) = strip_prefix(trimmed_text, prefix) {
        return parse_prefixed(rest, runners);
    }
    if require_command_prefix {
        let mut e: String = "messages must start with '".to_owned();
        e.append(prefix);
        e.append("<runner> <prompt>' (see ");
        e.append(prefix);
        e.append("help)");
        return Err(e);
    }
    match runner_without_prefix(default_runner, runners) {
        Ok(runner) => Ok(ParsedCommand::Run { runner: runner, prompt: trimmed_text.to_owned() }),
        Err(e) => Err(e),
    }
}

/// The names of the runners that can be used, in alphabetical order.
pub fn enabled_runner_names(runners: &Table<CliRunnerConfig>) -> (r: Vec<String>)
    ensures
        texts(r@) == enabled_names(runners@),
{
    let mut names: Vec<String> = Vec::new();
    let mut i: usize = 0;
    assert(texts(names@) == Seq::<Seq<char>>::empty());
    assert(runners@.take(0) == Seq::<(Seq<char>, CliRunnerConfig)>::empty());
    let es: &Vec<(String, CliRunnerConfig)> = runners.entries();
    while i < es.len()
        invariant
            i <= es@.len(),
            pairs(es@) == runners@,
            texts(names@) == usable_names(runners@.take(i as int)),
        decreases es@.len() - i,
    {
        proof {
            let next = runners@.take(i + 1);
            assert(next.drop_last() == runners@.take(i as int));
            assert(next.last() == (es@[i as int].0@, es@[i as int].1));
        }
        let e: &(String, CliRunnerConfig) = &es[i];
        if e.1.enabled && !e.1.command.as_str().is_empty() {
            let ghost before = names@;
            let name: String = e.0.clone();
            names.push(name);
            proof {
                texts_push(before, name);
            }
        }
        i = i + 1;
    }
    assert(runners@.take(runners@.len() as int) == runners@);
    sort_texts(&names)
}

/// The lines of the help text.
pub open spec fn help_lines(
    command_prefix: Seq<char>,
    default_runner: Seq<char>,
    runners: Runners,
) -> Seq<Seq<char>> {
    let prefix = prefix_or_slash(command_prefix);
    let head = seq![
        "CLI agent commands:"@,
        "  "@ + prefix + "help — show this message"@,
        "  "@ + prefix + "agents — list enabled runners"@,
        "  "@ + prefix + "<runner> <prompt> — run a CLI agent"@,
    ];
    let default_line = if default_runner.len() > 0 {
        seq!["  (no prefix) — use default runner '"@ + default_runner + "'"@]
    } else {
        Seq::empty()
    };
    let names = enabled_names(runners);
    head + default_line + seq![
        if names.len() == 0 {
            "Enabled runners: (none)"@
        } else {
            "Enabled runners: "@ + joined(names, ", "@)
        },
    ]
}

/// The help text.
pub fn format_help(
    command_prefix: &str,
    default_runner: &str,
    runners: &Table<CliRunnerConfig>,
) -> (r: String)
    ensures
        r@ == joined(help_lines(command_prefix@, default_runner@, runners@), "\n"@),
{
    let prefix: &str = if command_prefix.is_empty() {
        "/"
    } else {
        command_prefix
    };
    let enabled: Vec<String> = enabled_runner_names(runners);
    let mut ls: Vec<String> = Vec::new();
    ls.push("CLI agent commands:".to_owned());
    ls.push(concat3("  ", prefix, "help — show this message"));
    ls.push(concat3("  ", prefix, "agents — list enabled runners"));
    ls.push(concat3("  ", prefix, "<runner> <prompt> — run a CLI agent"));
    if !default_runner.is_empty() {
        ls.push(concat3("  (no prefix) — use default runner '", default_runner, "'"));
    }
    assert(texts(enabled@).len() == enabled@.len());
    if enabled.len() == 0 {
        ls.push("Enabled runners: (none)".to_owned());
    } else {
        let names: String = join(&enabled, ", ");
        ls.push(concat2("Enabled runners: ", names.as_str()));
    }
    assert(texts(ls@) =~= help_lines(command_prefix@, default_runner@, runners@));
    join(&ls, "\n")
}

/// The line that describes a runner.
pub open spec fn runner_line(name: Seq<char>, runners: Runners) -> Seq<char> {
    match lookup(runners, name) {
        Some(cfg) => "  "@ + name + ": "@ + cfg.command@ + " "@ + joined(texts(cfg.args@), " "@),
        None => Seq::empty(),
    }
}

/// The list of runners that can be used.
pub open spec fn agents_text(runners: Runners) -> Seq<char> {
    let names = enabled_names(runners);
    if names.len() == 0 {
        "No enabled CLI runners. Enable one under [agent.runners.<name>] in config."@
    } else {
        joined(
            seq!["Enabled CLI runners:"@] + names.map_values(
                |n: Seq<char>| runner_line(n, runners),
            ),
            "\n"@,
        )
    }
}

fn describe_runner(name: &str, runners: &Table<CliRunnerConfig>) -> (r: String)
    ensures
        r@ == runner_line(name@, runners@),
{
    match runners.get(name) {
        Some(cfg) => {
            let args: String = join(&cfg.args, " ");
            let mut s: String = "  ".to_owned();
            s.append(name);
            s.append(": ");
            s.append(cfg.command.as_str());
            s.append(" ");
            s.append(args.as_str());
            s
        },
        None => String::new(),
    }
}

/// The list of runners that can be used.
pub fn format_agents_list(runners: &Table<CliRunnerConfig>) -> (r: String)
    ensures
        r@ == agents_text(runners@),
{
    let enabled: Vec<String> = enabled_runner_names(runners);
    assert(texts(enabled@).len() == enabled@.len());
    if enabled.len() == 0 {
        return "No enabled CLI runners. Enable one under [agent.runners.<name>] in config.".to_owned();
    }
    let ghost names = enabled_names(runners@);
    let ghost line = |n: Seq<char>| runner_line(n, runners@);
    let mut ls: Vec<String> = Vec::new();
    ls.push("Enabled CLI runners:".to_owned());
    let mut i: usize = 0;
    assert(texts(ls@) =~= seq!["Enabled CLI runners:"@] + names.take(0).map_values(line));
    while i < enabled.len()
        invariant
            i <= enabled@.len(),
            names == texts(enabled@),
            line == |n: Seq<char>| runner_line(n, runners@),
            texts(ls@) == seq!["Enabled CLI runners:"@] + names.take(i as int).map_values(line),
        decreases enabled@.len() - i,
    {
        let ghost before = ls@;
        assert(names[i as int] == enabled@[i as int]@);
        let s: String = describe_runner(enabled[i].as_str(), runners);
        ls.push(s);
        proof {
            texts_push(before, s);
            assert(texts(ls@) =~= seq!["Enabled CLI runners:"@] + names.take(i + 1).map_values(
                line,
            ));
        }
        i = i + 1;
    }
    assert(names.take(names.len() as int) == names);
    join(&ls, "\n")
}

/// Whether a sender may use command-line agents: everybody, where no list is set.
pub open spec fn sender_allowed(security: CliSecurityConfig, user_id: Seq<char>) -> bool {
    security.allowed_senders@.len() == 0 || texts(security.allowed_senders@).contains(user_id)
}

/// Whether a sender may use command-line agents.
pub fn check_sender_allowed(security: &CliSecurityConfig, user_id: &str) -> (r: Result<(), String>)
    ensures
        match r {
            Ok(_) => sender_allowed(*security, user_id@),
            Err(e) => !sender_allowed(*security, user_id@) && e@ == "sender '"@ + user_id@
                + "' is not in allowed_senders"@,
        },
{
    if security.allowed_senders.len() == 0 {
        return Ok(());
    }
    let ghost all = texts(security.allowed_senders@);
    let mut i: usize = 0;
    while i < security.allowed_senders.len()
        invariant
            i <= security.allowed_senders@.len(),
            all == texts(security.allowed_senders@),
            forall|k: int| 0 <= k < i ==> #[trigger] all[k] != user_id@,
        decreases security.allowed_senders@.len() - i,
    {
        assert(all[i as int] == security.allowed_senders@[i as int]@);
        if same(security.allowed_senders[i].as_str(), user_id) {
            return Ok(());
        }
        i = i + 1;
    }
    Err(concat3("sender '", user_id, "' is not in allowed_senders"))
}

} // verus!
