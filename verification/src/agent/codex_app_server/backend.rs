//! The backend of the Codex app server: what it remembers, and how it answers.

use vstd::prelude::*;

use crate::agent::cli::router::{check_sender_allowed, sender_allowed};
use crate::agent::cli::stream::{
    error_events, help_events, is_answer, request_text, request_text_of,
};
use crate::agent::codex_app_server::bindings::{BindingStore, BindingV, ThreadBinding};
use crate::agent::codex_app_server::client::{CodexThreadSummary, SummaryV};
use crate::agent::codex_app_server::pending::{
    meant, response_body, PendingResponse, PendingServerRequests, PendingV,
};
use crate::agent::codex_app_server::router::{
    format_help, help_lines, parse_command, parsed, CommandV, ParsedCommand,
};
use crate::agent::codex_app_server::{
    cwd_shown, format_session_info, format_thread_list, session_lines, thread_list_text,
};
use crate::config::{CliSecurityConfig, CodexAppServerConfig};
use crate::error::{error_text, ErrorV, GatewayError};
use crate::json::Json;
use crate::strs::{
    concat2, concat3, contains, decimal, holds, joined, number_in, parse_usize, same, trim, trimmed,
    u64_string,
};
use crate::table::{
    held, held_lookup, held_with, keys_differ, lookup, pairs, with_entry, without_entry, Table,
};
use crate::types::{AgentEvent, ChannelRequest, RequestV};

verus! {

/// What the backend is configured with and remembers.
pub struct CodexAppServerBackend {
    pub cfg: CodexAppServerConfig,
    pub security: CliSecurityConfig,
    pub bindings: BindingStore,
    /// The list of threads that each session was last shown.
    pub thread_list_cache: Table<Vec<CodexThreadSummary>>,
    pub pending_server_requests: PendingServerRequests,
}

/// The lists of threads that sessions were last shown.
pub type Lists = Seq<(Seq<char>, Seq<SummaryV>)>;

// ---------------------------------------------------------------------------------------------
// What a request asks for
// ---------------------------------------------------------------------------------------------

/// What a request asks for, or the text with which it is turned down.
pub open spec fn asked(
    cfg: CodexAppServerConfig,
    security: CliSecurityConfig,
    r: RequestV,
) -> Result<CommandV, Seq<char>> {
    if !sender_allowed(security, r.user_id) {
        Err("sender '"@ + r.user_id + "' is not in allowed_senders"@)
    } else {
        match parsed(request_text_of(r.content), cfg.command_prefix@) {
            Ok(c) => Ok(c),
            Err(e) => Err(e + "\n\n"@ + joined(help_lines(cfg.command_prefix@), "\n"@)),
        }
    }
}

/// The text of the answer to the command `thread`.
pub open spec fn thread_text(binding: Option<BindingV>) -> Seq<char> {
    match binding {
        Some(b) => "Bound Codex thread:\n  thread_id: "@ + b.thread_id + "\n  cwd: "@ + cwd_shown(
            b.cwd,
        ),
        None => {
            "No Codex thread bound for this IM session. Send /threads, then /bind <number>, or use /bind <threadId>."@
        },
    }
}

/// The thread that a session means: the number of a thread in the list that it was last shown,
/// or the id of a thread.
pub open spec fn selected(
    lists: Lists,
    default_cwd: Seq<char>,
    session: Seq<char>,
    selector: Seq<char>,
) -> Result<BindingV, ErrorV> {
    let s = trimmed(selector);
    match number_in(s, usize::MAX as nat) {
        None => Ok(BindingV { thread_id: s, cwd: default_cwd }),
        Some(n) => if n == 0 {
            Err(ErrorV::Other("bind number must start at 1"@))
        } else {
            match lookup(lists, session) {
                None => Err(ErrorV::Other("no cached thread list; send /threads first"@)),
                Some(list) => if n > list.len() {
                    Err(
                        ErrorV::Other(
                            "thread number "@ + decimal(n)
                                + " is out of range; send /threads again"@,
                        ),
                    )
                } else {
                    Ok(
                        BindingV {
                            thread_id: list[n - 1].thread_id,
                            cwd: list[n - 1].cwd,
                        },
                    )
                },
            }
        },
    }
}

/// A list in which a thread has a new name.
pub open spec fn renamed(list: Seq<SummaryV>, id: Seq<char>, name: Seq<char>) -> Seq<SummaryV> {
    list.map_values(
        |t: SummaryV|
            if t.thread_id == id {
                SummaryV { name: name, ..t }
            } else {
                t
            },
    )
}

/// The lists in which a thread has a new name.
pub open spec fn renamed_everywhere(lists: Lists, id: Seq<char>, name: Seq<char>) -> Lists {
    lists.map_values(|e: (Seq<char>, Seq<SummaryV>)| (e.0, renamed(e.1, id, name)))
}

impl CodexAppServerBackend {
    /// The lists of threads that sessions were last shown.
    pub open spec fn lists(&self) -> Lists {
        held(self.thread_list_cache@)
    }

    /// A backend that remembers these bindings and nothing else.
    pub fn with_bindings(
        cfg: CodexAppServerConfig,
        security: CliSecurityConfig,
        bindings: BindingStore,
    ) -> (r: CodexAppServerBackend)
        ensures
            r.cfg == cfg,
            r.security == security,
            r.bindings == bindings,
            r.lists() == Seq::<(Seq<char>, Seq<SummaryV>)>::empty(),
            r.pending_server_requests@ == Seq::<(Seq<char>, PendingV)>::empty(),
    {
        let r: CodexAppServerBackend = CodexAppServerBackend {
            cfg: cfg,
            security: security,
            bindings: bindings,
            thread_list_cache: Table::new(),
            pending_server_requests: PendingServerRequests::new(),
        };
        assert(r.lists() =~= Seq::<(Seq<char>, Seq<SummaryV>)>::empty());
        r
    }

    /// What a request asks for, or the events with which it is turned down.
    pub fn parse_request(&self, request: &ChannelRequest) -> (r: Result<
        ParsedCommand,
        Vec<AgentEvent>,
    >)
        ensures
            match asked(self.cfg, self.security, request@) {
                Ok(c) => r matches Ok(x) && x@ == c,
                Err(text) => r matches Err(events) && is_answer(events.deep_view(), text),
            },
    {
        if let Err(msg) = check_sender_allowed(&self.security, request.user_id.as_str()) {
            return Err(error_events(msg.as_str()));
        }
        let text: String = request_text(request);
        match parse_command(text.as_str(), self.cfg.command_prefix.as_str()) {
            Ok(c) => Ok(c),
            Err(e) => {
                let help: String = format_help(self.cfg.command_prefix.as_str());
                let msg: String = concat3(e.as_str(), "\n\n", help.as_str());
                Err(error_events(msg.as_str()))
            },
        }
    }

    /// Answers the command `help`.
    pub fn cmd_help(&self) -> (r: Vec<AgentEvent>)
        ensures
            is_answer(r.deep_view(), joined(help_lines(self.cfg.command_prefix@), "\n"@)),
    {
        let help: String = format_help(self.cfg.command_prefix.as_str());
        help_events(help.as_str())
    }

    /// Answers the command `thread`.
    pub fn cmd_thread(&self, im_session_id: &str) -> (r: Vec<AgentEvent>)
        ensures
            is_answer(r.deep_view(), thread_text(lookup(self.bindings@, im_session_id@))),
    {
        match self.bindings.get(im_session_id) {
            Some(b) => {
                let cwd: &str = if b.cwd.as_str().is_empty() {
                    "(default)"
                } else {
                    b.cwd.as_str()
                };
                let mut text: String = concat3(
                    "Bound Codex thread:\n  thread_id: ",
                    b.thread_id.as_str(),
                    "\n  cwd: ",
                );
                text.append(cwd);
                help_events(text.as_str())
            },
            None => help_events(
                "No Codex thread bound for this IM session. Send /threads, then /bind <number>, or use /bind <threadId>.",
            ),
        }
    }

    /// Answers the command `session`.
    pub fn cmd_session(&self, request: &ChannelRequest) -> (r: Vec<AgentEvent>)
        ensures
            is_answer(
                r.deep_view(),
                joined(
                    session_lines(
                        self.cfg.command_prefix@,
                        lookup(self.bindings@, request@.session_id),
                        request@,
                    ),
                    "\n"@,
                ),
            ),
    {
        let binding: Option<ThreadBinding> = self.bindings.get(request.session_id.as_str());
        let text: String = format_session_info(self.cfg.command_prefix.as_str(), binding, request);
        help_events(text.as_str())
    }

    /// Answers the command `new`, given whether the bindings could be written.
    pub fn cmd_new(&mut self, im_session_id: &str, written: Result<(), GatewayError>) -> (r: Vec<
        AgentEvent,
    >)
        ensures
            final(self).bindings@ == without_entry(old(self).bindings@, im_session_id@),
            final(self).cfg == old(self).cfg,
            final(self).security == old(self).security,
            final(self).thread_list_cache == old(self).thread_list_cache,
            final(self).pending_server_requests == old(self).pending_server_requests,
            is_answer(
                r.deep_view(),
                match written {
                    Ok(_) => "Cleared binding. Next message will start a new Codex thread."@,
                    Err(e) => error_text(e@),
                },
            ),
    {
        self.bindings.clear(im_session_id);
        match written {
            Ok(_) => help_events("Cleared binding. Next message will start a new Codex thread."),
            Err(e) => {
                let msg: String = e.message();
                error_events(msg.as_str())
            },
        }
    }

    /// Answers a command that lists threads with the list that came in, and remembers it.
    pub fn cmd_threads(
        &mut self,
        im_session_id: &str,
        loaded_only: bool,
        threads: Vec<CodexThreadSummary>,
    ) -> (r: Vec<AgentEvent>)
        ensures
            is_answer(
                r.deep_view(),
                thread_list_text(old(self).cfg.command_prefix@, threads.deep_view(), loaded_only),
            ),
            final(self).lists() == with_entry(
                old(self).lists(),
                im_session_id@,
                threads.deep_view(),
            ),
            final(self).cfg == old(self).cfg,
            final(self).security == old(self).security,
            final(self).bindings == old(self).bindings,
            final(self).pending_server_requests == old(self).pending_server_requests,
    {
        let text: String = format_thread_list(
            self.cfg.command_prefix.as_str(),
            &threads,
            loaded_only,
        );
        proof {
            held_with(self.thread_list_cache@, im_session_id@, threads);
        }
        self.thread_list_cache.insert(im_session_id.to_owned(), threads);
        help_events(text.as_str())
    }

    /// The thread that a session means.
    pub fn resolve_bind_selector(&self, im_session_id: &str, selector: &str) -> (r: Result<
        ThreadBinding,
        GatewayError,
    >)
        ensures
            match r {
                Ok(b) => selected(
                    self.lists(),
                    self.cfg.default_cwd@,
                    im_session_id@,
                    selector@,
                ) == Ok::<BindingV, ErrorV>(b@),
                Err(e) => selected(
                    self.lists(),
                    self.cfg.default_cwd@,
                    im_session_id@,
                    selector@,
                ) == Err::<BindingV, ErrorV>(e@),
            },
    {
        let s: &str = trim(selector);
        match parse_usize(s) {
            None => Ok(
                ThreadBinding { thread_id: s.to_owned(), cwd: self.cfg.default_cwd.clone() },
            ),
            Some(n) => {
                if n == 0 {
                    return Err(GatewayError::other("bind number must start at 1"));
                }
                proof {
                    held_lookup(self.thread_list_cache@, im_session_id@);
                }
                match self.thread_list_cache.get(im_session_id) {
                    None => Err(
                        GatewayError::other("no cached thread list; send /threads first"),
                    ),
                    Some(list) => {
                        if n > list.len() {
                            let number: String = u64_string(n as u64);
                            return Err(
                                GatewayError::Other(
                                    concat3(
                                        "thread number ",
                                        number.as_str(),
                                        " is out of range; send /threads again",
                                    ),
                                ),
                            );
                        }
                        let t: &CodexThreadSummary = &list[n - 1];
                        assert(list.deep_view()[n - 1] == t@);
                        Ok(ThreadBinding { thread_id: t.thread_id.clone(), cwd: t.cwd.clone() })
                    },
                }
            },
        }
    }

    /// Gives a thread a new name in every list that a session was shown.
    pub fn update_cached_thread_name(&mut self, thread_id: &str, name: &str)
        ensures
            final(self).lists() == renamed_everywhere(old(self).lists(), thread_id@, name@),
            final(self).cfg == old(self).cfg,
            final(self).security == old(self).security,
            final(self).bindings == old(self).bindings,
            final(self).pending_server_requests == old(self).pending_server_requests,
    {
        let ghost before = self.thread_list_cache@;
        let mut cache: Table<Vec<CodexThreadSummary>> = Table::new();
        std::mem::swap(&mut cache, &mut self.thread_list_cache);
        let mut es: Vec<(String, Vec<CodexThreadSummary>)> = cache.into_entries();
        assert(es@.len() == pairs(es@).len());
        let mut i: usize = 0;
        while i < es.len()
            invariant
                i <= es@.len(),
                es@.len() == before.len(),
                forall|k: int|
                    0 <= k < before.len() ==> (#[trigger] pairs(es@)[k]).0 == before[k].0
                        && pairs(es@)[k].1.deep_view() == if k < i {
                        renamed(before[k].1.deep_view(), thread_id@, name@)
                    } else {
                        before[k].1.deep_view()
                    },
            decreases es@.len() - i,
        {
            let ghost now = es@;
            assert(pairs(now)[i as int].1 == now[i as int].1);
            rename_in(&mut es[i].1, thread_id, name);
            proof {
                assert forall|k: int| 0 <= k < before.len() implies (#[trigger] pairs(es@)[k]).0
                    == before[k].0 && pairs(es@)[k].1.deep_view() == if k < i + 1 {
                    renamed(before[k].1.deep_view(), thread_id@, name@)
                } else {
                    before[k].1.deep_view()
                } by {
                    assert(pairs(now)[k].0 == before[k].0);
                }
            }
            i = i + 1;
        }
        assert(keys_differ(pairs(es@))) by {
            assert forall|a: int, b: int| 0 <= a < b < before.len() implies (#[trigger] pairs(
                es@,
            )[a]).0 != (#[trigger] pairs(es@)[b]).0 by {
                assert(before[a].0 != before[b].0);
            }
        }
        self.thread_list_cache = Table::from_entries(es);
        assert(self.lists() =~= renamed_everywhere(old(self).lists(), thread_id@, name@));
    }

    /// Responds to a request that waits: what to hand over, or the events that say why not.
    pub fn cmd_pending_response(
        &mut self,
        im_session_id: &str,
        request_id: Option<&str>,
        response: &PendingResponse,
    ) -> (r: Result<(String, Json), Vec<AgentEvent>>)
        ensures
            final(self).cfg == old(self).cfg,
            final(self).security == old(self).security,
            final(self).bindings == old(self).bindings,
            final(self).thread_list_cache == old(self).thread_list_cache,
            match meant(
                old(self).pending_server_requests@,
                im_session_id@,
                request_id.deep_view(),
            ) {
                Err(e) => r matches Err(events) && is_answer(events.deep_view(), error_text(e))
                    && final(self).pending_server_requests@ == old(self).pending_server_requests@,
                Ok(id) => lookup(old(self).pending_server_requests@, id) matches Some(p)
                    && match response_body(p, *response) {
                    Some(body) => r matches Ok((i, b)) && i@ == id && b@ == body
                        && final(self).pending_server_requests@ == without_entry(
                        old(self).pending_server_requests@,
                        id,
                    ),
                    None => r matches Err(events) && is_answer(
                        events.deep_view(),
                        "pending Codex request `"@ + id + "` does not accept this response"@,
                    ) && final(self).pending_server_requests@
                        == old(self).pending_server_requests@,
                },
            },
    {
        match self.pending_server_requests.respond(im_session_id, request_id, response) {
            Ok(x) => Ok(x),
            Err(text) => Err(error_events(text.as_str())),
        }
    }
}

fn rename_in(list: &mut Vec<CodexThreadSummary>, thread_id: &str, name: &str)
    ensures
        final(list).deep_view() == renamed(old(list).deep_view(), thread_id@, name@),
{
    let ghost before = list.deep_view();
    let mut i: usize = 0;
    while i < list.len()
        invariant
            i <= list@.len(),
            list@.len() == before.len(),
            forall|k: int|
                0 <= k < i ==> #[trigger] list.deep_view()[k] == renamed(
                    before,
                    thread_id@,
                    name@,
                )[k],
            forall|k: int| i <= k < list@.len() ==> #[trigger] list.deep_view()[k] == before[k],
        decreases list@.len() - i,
    {
        let ghost now = list.deep_view();
        assert(now[i as int] == before[i as int]);
        if same(list[i].thread_id.as_str(), thread_id) {
            list[i].name = name.to_owned();
        }
        proof {
            assert forall|k: int| 0 <= k < before.len() && k != i implies #[trigger] list.deep_view()[k]
                == now[k] by {}
            assert(list.deep_view()[i as int] == renamed(before, thread_id@, name@)[i as int]);
        }
        i = i + 1;
    }
    assert(list.deep_view() =~= renamed(before, thread_id@, name@));
}

/// What is said once a reply was handed over, or could not be.
pub fn submitted_events(request_id: &str, delivered: bool) -> (r: Vec<AgentEvent>)
    ensures
        is_answer(
            r.deep_view(),
            if delivered {
                "Submitted response for Codex request `"@ + request_id@ + "`; continuing turn."@
            } else {
                "pending Codex request `"@ + request_id@ + "` is no longer waiting"@
            },
        ),
{
    if delivered {
        let text: String = concat3(
            "Submitted response for Codex request `",
            request_id,
            "`; continuing turn.",
        );
        help_events(text.as_str())
    } else {
        let text: String = concat3("pending Codex request `", request_id, "` is no longer waiting");
        error_events(text.as_str())
    }
}

/// What is said once a session is bound, or could not be: the thread could not be resumed, or the
/// binding could not be written.
pub fn bind_events(
    thread_id: &str,
    resumed: Result<(), GatewayError>,
    written: Result<(), GatewayError>,
) -> (r: Vec<AgentEvent>)
    ensures
        is_answer(
            r.deep_view(),
            match resumed {
                Err(e) => "thread/resume failed: "@ + error_text(e@),
                Ok(_) => match written {
                    Err(e) => error_text(e@),
                    Ok(_) => "Bound to Codex thread `"@ + thread_id@ + "`."@,
                },
            },
        ),
{
    match resumed {
        Err(e) => {
            let text: String = concat2("thread/resume failed: ", e.message().as_str());
            error_events(text.as_str())
        },
        Ok(_) => match written {
            Err(e) => {
                let text: String = e.message();
                error_events(text.as_str())
            },
            Ok(_) => {
                let text: String = concat3("Bound to Codex thread `", thread_id, "`.");
                help_events(text.as_str())
            },
        },
    }
}

/// Which thread is renamed, and to what; or what is said where that makes no sense.
pub fn rename_target(binding: Option<ThreadBinding>, name: &str) -> (r: Result<
    (String, String),
    Vec<AgentEvent>,
>)
    ensures
        match binding.deep_view() {
            None => r matches Err(events) && is_answer(
                events.deep_view(),
                "No Codex thread bound for this IM session. Send /threads, then /bind <number>, or send a prompt to start a new thread."@,
            ),
            Some(b) => if trimmed(name@).len() == 0 {
                r matches Err(events) && is_answer(events.deep_view(), "usage: /rename <name>"@)
            } else {
                r matches Ok((id, n)) && id@ == b.thread_id && n@ == trimmed(name@)
            },
        },
{
    match binding {
        None => Err(
            error_events(
                "No Codex thread bound for this IM session. Send /threads, then /bind <number>, or send a prompt to start a new thread.",
            ),
        ),
        Some(b) => {
            let n: &str = trim(name);
            if n.is_empty() {
                return Err(error_events("usage: /rename <name>"));
            }
            Ok((b.thread_id, n.to_owned()))
        },
    }
}

/// What is said once a thread was renamed, or could not be.
pub fn rename_events(thread_id: &str, name: &str, result: Result<(), GatewayError>) -> (r: Vec<
    AgentEvent,
>)
    ensures
        is_answer(
            r.deep_view(),
            match result {
                Ok(_) => "Renamed Codex thread `"@ + thread_id@ + "` to `"@ + name@ + "`."@,
                Err(e) => "thread/name/set failed: "@ + error_text(e@),
            },
        ),
{
    match result {
        Ok(_) => {
            let mut text: String = concat3("Renamed Codex thread `", thread_id, "` to `");
            text.append(name);
            text.append("`.");
            help_events(text.as_str())
        },
        Err(e) => {
            let text: String = concat2("thread/name/set failed: ", e.message().as_str());
            error_events(text.as_str())
        },
    }
}

/// What is said where threads could not be listed.
pub fn thread_list_failed_events(e: &GatewayError) -> (r: Vec<AgentEvent>)
    ensures
        is_answer(r.deep_view(), "thread/list failed: "@ + error_text(e@)),
{
    let text: String = concat2("thread/list failed: ", e.message().as_str());
    error_events(text.as_str())
}

// ---------------------------------------------------------------------------------------------
// Prompts
// ---------------------------------------------------------------------------------------------

/// What becomes of a prompt: it goes to the thread of its session, a thread is started for it in
/// a directory, or it is turned down.
pub enum PromptPlan {
    OnThread(ThreadBinding),
    NewThread { cwd: String },
    Refuse(Vec<AgentEvent>),
}

/// What a prompt is told that has no place to go.
pub const NO_PLACE_FOR_PROMPT: &'static str = "no thread bound and codex_app_server.default_cwd is empty; set default_cwd or use /bind";

/// What becomes of a prompt.
pub fn plan_prompt(binding: Option<ThreadBinding>, default_cwd: &str) -> (r: PromptPlan)
    ensures
        match binding.deep_view() {
            Some(b) => r matches PromptPlan::OnThread(x) && x@ == b,
            None => if default_cwd@.len() > 0 {
                r matches PromptPlan::NewThread { cwd } && cwd@ == default_cwd@
            } else {
                r matches PromptPlan::Refuse(events) && is_answer(
                    events.deep_view(),
                    error_text(ErrorV::Config(NO_PLACE_FOR_PROMPT@)),
                )
            },
        },
{
    match binding {
        Some(b) => PromptPlan::OnThread(b),
        None => {
            if default_cwd.is_empty() {
                let e: GatewayError = GatewayError::Config(NO_PLACE_FOR_PROMPT.to_owned());
                let msg: String = e.message();
                return PromptPlan::Refuse(error_events(msg.as_str()));
            }
            PromptPlan::NewThread { cwd: default_cwd.to_owned() }
        },
    }
}

/// Whether an error says that the server does not know a thread any more.
pub open spec fn is_missing_rollout(e: ErrorV) -> bool {
    holds(error_text(e), "no rollout found for thread id"@)
}

/// Whether an error says that the server does not know a thread any more.
pub fn is_missing_rollout_error(error: &GatewayError) -> (r: bool)
    ensures
        r == is_missing_rollout(error@),
{
    let text: String = error.message();
    contains(text.as_str(), "no rollout found for thread id")
}

/// Where a thread is started in place of one that is gone.
pub open spec fn replacement_cwd(stale: BindingV, default_cwd: Seq<char>) -> Option<Seq<char>> {
    if stale.cwd.len() > 0 {
        Some(stale.cwd)
    } else if default_cwd.len() > 0 {
        Some(default_cwd)
    } else {
        None
    }
}

/// Where a thread is started in place of one that is gone.
pub fn replacement_cwd_for_stale_binding(stale: &ThreadBinding, default_cwd: &str) -> (r: Option<
    String,
>)
    ensures
        r.deep_view() == replacement_cwd(stale@, default_cwd@),
{
    if !stale.cwd.as_str().is_empty() {
        Some(stale.cwd.clone())
    } else if !default_cwd.is_empty() {
        Some(default_cwd.to_owned())
    } else {
        None
    }
}

/// What is said where a turn failed on a new thread.
pub open spec fn new_thread_error(e: ErrorV) -> Seq<char> {
    if is_missing_rollout(e) {
        "Codex app-server created a thread but could not load its rollout. Restart codex app-server and try again. Details: "@
            + error_text(e)
    } else {
        error_text(e)
    }
}

/// What is said where a turn failed on a new thread.
pub fn new_thread_error_message(error: &GatewayError) -> (r: String)
    ensures
        r@ == new_thread_error(error@),
{
    let text: String = error.message();
    if is_missing_rollout_error(error) {
        concat2(
            "Codex app-server created a thread but could not load its rollout. Restart codex app-server and try again. Details: ",
            text.as_str(),
        )
    } else {
        text
    }
}

/// What is said where a turn failed on a thread that replaced one that is gone.
pub open spec fn stale_recovery_error(e: ErrorV) -> Seq<char> {
    if is_missing_rollout(e) {
        "The bound Codex thread was stale, and the replacement thread also could not load its rollout. The stale binding was cleared; restart codex app-server and send the message again. Details: "@
            + error_text(e)
    } else {
        error_text(e)
    }
}

/// What is said where a turn failed on a thread that replaced one that is gone.
pub fn stale_recovery_error_message(error: &GatewayError) -> (r: String)
    ensures
        r@ == stale_recovery_error(error@),
{
    let text: String = error.message();
    if is_missing_rollout_error(error) {
        concat2(
            "The bound Codex thread was stale, and the replacement thread also could not load its rollout. The stale binding was cleared; restart codex app-server and send the message again. Details: ",
            text.as_str(),
        )
    } else {
        text
    }
}

/// What to do once a turn on the thread of a session has ended.
pub enum BoundTurn {
    Done,
    ClearBinding,
    Reply(Vec<AgentEvent>),
}

/// What to do once a turn on the thread of a session has ended: nothing more, forget a thread
/// that is gone, or say what went wrong.
pub fn after_bound_turn(result: &Result<String, GatewayError>) -> (r: BoundTurn)
    ensures
        match *result {
            Ok(_) => r is Done,
            Err(e) => if is_missing_rollout(e@) {
                r is ClearBinding
            } else {
                r matches BoundTurn::Reply(events) && is_answer(
                    events.deep_view(),
                    error_text(e@),
                )
            },
        },
{
    match result {
        Ok(_) => BoundTurn::Done,
        Err(e) => {
            if is_missing_rollout_error(e) {
                return BoundTurn::ClearBinding;
            }
            let text: String = e.message();
            BoundTurn::Reply(error_events(text.as_str()))
        },
    }
}

/// What is said where a thread is gone and no directory is known in which to start another.
pub const NO_REPLACEMENT: &'static str = "bound Codex thread is unavailable on app-server and no cwd is available to start a replacement; set codex_app_server.default_cwd or use /bind <threadId>";

/// Where to start a thread in place of one that is gone, given whether the binding could be
/// cleared; or what is said where that is not possible.
pub fn after_clear(
    turn_error: &GatewayError,
    cleared: Result<(), GatewayError>,
    stale: &ThreadBinding,
    default_cwd: &str,
) -> (r: Result<String, Vec<AgentEvent>>)
    ensures
        match cleared {
            Err(c) => r matches Err(events) && is_answer(
                events.deep_view(),
                "Bound Codex thread is unavailable on app-server: "@ + error_text(turn_error@)
                    + "\nRecovery failed while clearing stale binding: "@ + error_text(c@),
            ),
            Ok(_) => match replacement_cwd(stale@, default_cwd@) {
                Some(cwd) => r matches Ok(x) && x@ == cwd,
                None => r matches Err(events) && is_answer(
                    events.deep_view(),
                    "Bound Codex thread is unavailable on app-server: "@ + error_text(turn_error@)
                        + "\nRecovery failed: "@ + error_text(ErrorV::Config(NO_REPLACEMENT@)),
                ),
            },
        },
{
    let problem: String = concat2(
        "Bound Codex thread is unavailable on app-server: ",
        turn_error.message().as_str(),
    );
    match cleared {
        Err(c) => {
            let text: String = concat3(
                problem.as_str(),
                "\nRecovery failed while clearing stale binding: ",
                c.message().as_str(),
            );
            Err(error_events(text.as_str()))
        },
        Ok(_) => match replacement_cwd_for_stale_binding(stale, default_cwd) {
            Some(cwd) => Ok(cwd),
            None => {
                let e: GatewayError = GatewayError::Config(NO_REPLACEMENT.to_owned());
                let text: String = concat3(
                    problem.as_str(),
                    "\nRecovery failed: ",
                    e.message().as_str(),
                );
                Err(error_events(text.as_str()))
            },
        },
    }
}

} // verus!
