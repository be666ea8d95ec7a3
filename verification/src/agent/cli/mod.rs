//! Command-line agents.

use vstd::prelude::*;

use crate::agent::cli::router::{
    agents_text, check_sender_allowed, enabled_names, enabled_runner_names, format_agents_list,
    format_help, help_lines, parse_command, parsed, runner_for_plain, runner_without_prefix,
    sender_allowed, CommandV, ParsedCommand,
};
use crate::agent::cli::stream::{
    error_events, help_events, is_answer, request_text, request_text_of,
};
use crate::config::AgentConfig;
use crate::error::{error_text, GatewayError};
use crate::strs::{concat3, joined, texts, trim, trimmed};
use crate::table::lookup;
use crate::types::{AgentEvent, ChannelRequest, RequestV};

pub mod output_filter;
pub mod router;
pub mod runner;
pub mod stream;

verus! {

/// What becomes of a request: it is answered at once, or a runner is run.
pub enum Routed {
    Reply(Vec<AgentEvent>),
    Run { runner: String, prompt: String },
}

/// A request's way: an answer's text, or a runner and its prompt.
#[verifier::ext_equal]
pub enum RouteV {
    Reply(Seq<char>),
    Run { runner: Seq<char>, prompt: Seq<char> },
}

/// Where a request goes.
pub open spec fn route_of(cfg: AgentConfig, request: RequestV) -> RouteV {
    let help = joined(help_lines(cfg.command_prefix@, cfg.default_runner@, cfg.runners@), "\n"@);
    if !sender_allowed(cfg.security, request.user_id) {
        RouteV::Reply("sender '"@ + request.user_id + "' is not in allowed_senders"@)
    } else {
        match parsed(
            request_text_of(request.content),
            cfg.command_prefix@,
            cfg.require_command_prefix,
            cfg.default_runner@,
            cfg.runners@,
        ) {
            Err(e) => RouteV::Reply(e + "\n\n"@ + help),
            Ok(CommandV::Help) => RouteV::Reply(help),
            Ok(CommandV::ListAgents) => RouteV::Reply(agents_text(cfg.runners@)),
            Ok(CommandV::Run { runner, prompt }) => if lookup(cfg.runners@, runner) is None {
                RouteV::Reply("runner '"@ + runner + "' is not configured"@)
            } else {
                RouteV::Run { runner: runner, prompt: prompt }
            },
        }
    }
}

/// Whether `r` does what `v` says.
pub open spec fn routed_as(r: Routed, v: RouteV) -> bool {
    match (r, v) {
        (Routed::Reply(events), RouteV::Reply(text)) => is_answer(events.deep_view(), text),
        (Routed::Run { runner, prompt }, RouteV::Run { runner: n, prompt: p }) => runner@ == n
            && prompt@ == p,
        _ => false,
    }
}

/// Where a request goes.
pub fn route_request(cfg: &AgentConfig, request: &ChannelRequest) -> (r: Routed)
    ensures
        routed_as(r, route_of(*cfg, request@)),
{
    if let Err(msg) = check_sender_allowed(&cfg.security, request.user_id.as_str()) {
        return Routed::Reply(error_events(msg.as_str()));
    }
    let text: String = request_text(request);
    match parse_command(
        text.as_str(),
        cfg.command_prefix.as_str(),
        cfg.require_command_prefix,
        cfg.default_runner.as_str(),
        &cfg.runners,
    ) {
        Err(e) => {
            let hint: String = format_help(
                cfg.command_prefix.as_str(),
                cfg.default_runner.as_str(),
                &cfg.runners,
            );
            let msg: String = concat3(e.as_str(), "\n\n", hint.as_str());
            Routed::Reply(error_events(msg.as_str()))
        },
        Ok(ParsedCommand::Help) => {
            let help: String = format_help(
                cfg.command_prefix.as_str(),
                cfg.default_runner.as_str(),
                &cfg.runners,
            );
            Routed::Reply(help_events(help.as_str()))
        },
        Ok(ParsedCommand::ListAgents) => {
            let list: String = format_agents_list(&cfg.runners);
            Routed::Reply(help_events(list.as_str()))
        },
        Ok(ParsedCommand::Run { runner, prompt }) => {
            if !cfg.runners.contains_key(runner.as_str()) {
                let msg: String = concat3("runner '", runner.as_str(), "' is not configured");
                return Routed::Reply(error_events(msg.as_str()));
            }
            Routed::Run { runner: runner, prompt: prompt }
        },
    }
}

/// Where a request goes in a backend that has only one runner: to the default runner, with all that
/// was said as the prompt, whatever it begins with.
pub open spec fn single_route_of(cfg: AgentConfig, request: RequestV) -> RouteV {
    let help = joined(help_lines(cfg.command_prefix@, cfg.default_runner@, cfg.runners@), "\n"@);
    let said = trimmed(request_text_of(request.content));
    if !sender_allowed(cfg.security, request.user_id) {
        RouteV::Reply("sender '"@ + request.user_id + "' is not in allowed_senders"@)
    } else if said.len() == 0 {
        RouteV::Reply("empty message"@ + "\n\n"@ + help)
    } else {
        match runner_for_plain(cfg.default_runner@, cfg.runners@) {
            Err(e) => RouteV::Reply(e + "\n\n"@ + help),
            Ok(runner) => RouteV::Run { runner: runner, prompt: said },
        }
    }
}

/// Where a request goes in a backend that has only one runner: to the default runner, with all that
/// was said as the prompt, whatever it begins with.
pub fn route_single(cfg: &AgentConfig, request: &ChannelRequest) -> (r: Routed)
    ensures
        routed_as(r, single_route_of(*cfg, request@)),
{
    if let Err(msg) = check_sender_allowed(&cfg.security, request.user_id.as_str()) {
        return Routed::Reply(error_events(msg.as_str()));
    }
    let text: String = request_text(request);
    let said: &str = trim(text.as_str());
    let runner: Result<String, String> = if said.is_empty() {
        Err("empty message".to_owned())
    } else {
        runner_without_prefix(cfg.default_runner.as_str(), &cfg.runners)
    };
    match runner {
        Err(e) => {
            let hint: String = format_help(
                cfg.command_prefix.as_str(),
                cfg.default_runner.as_str(),
                &cfg.runners,
            );
            let msg: String = concat3(e.as_str(), "\n\n", hint.as_str());
            Routed::Reply(error_events(msg.as_str()))
        },
        Ok(runner) => Routed::Run { runner: runner, prompt: said.to_owned() },
    }
}

/// Nothing that is said chooses a runner: with the default runner set up, every text that is not
/// blank is its prompt, whatever the prefix and the other runners are.
pub proof fn single_runner_gets_every_text(cfg: AgentConfig, request: RequestV)
    requires
        sender_allowed(cfg.security, request.user_id),
        trimmed(request_text_of(request.content)).len() > 0,
        cfg.default_runner@.len() > 0,
        lookup(cfg.runners@, cfg.default_runner@) is Some,
    ensures
        single_route_of(cfg, request) == (RouteV::Run {
            runner: cfg.default_runner@,
            prompt: trimmed(request_text_of(request.content)),
        }),
{
}

/// What a request is answered once its runner has ended: the events of the process, or what
/// went wrong.
pub fn runner_reply(result: Result<Vec<AgentEvent>, GatewayError>) -> (r: Vec<AgentEvent>)
    ensures
        match result {
            Ok(events) => r == events,
            Err(e) => is_answer(r.deep_view(), error_text(e@)),
        },
{
    match result {
        Ok(events) => events,
        Err(e) => {
            let msg: String = e.message();
            error_events(msg.as_str())
        },
    }
}

/// The configuration of a backend that has only one runner: no prefix is asked for, and where no
/// default runner is set, it is the first that can be used.
pub fn single_runner_config(cfg: AgentConfig) -> (r: AgentConfig)
    ensures
        !r.require_command_prefix,
        r.default_runner@ == if cfg.default_runner@.len() == 0 && enabled_names(cfg.runners@).len()
            > 0 {
            enabled_names(cfg.runners@)[0]
        } else {
            cfg.default_runner@
        },
        r == (AgentConfig {
            require_command_prefix: false,
            default_runner: r.default_runner,
            ..cfg
        }),
{
    let mut cfg: AgentConfig = cfg;
    cfg.require_command_prefix = false;
    if cfg.default_runner.as_str().is_empty() {
        let names: Vec<String> = enabled_runner_names(&cfg.runners);
        assert(texts(names@).len() == names@.len());
        if names.len() > 0 {
            assert(texts(names@)[0] == names@[0]@);
            cfg.default_runner = names[0].clone();
        }
    }
    cfg
}

} // verus!
