//! What the exchange with a Codex app server is for: what is granted and refused, what is asked for,
//! and what is read.

use vstd::prelude::*;

use crate::agent::codex_app_server::backend::{
    asked, is_missing_rollout, new_thread_error, renamed, renamed_everywhere, replacement_cwd,
    selected, stale_recovery_error, thread_text, Lists,
};
use crate::agent::codex_app_server::bindings::{binding_of, BindingV};
use crate::agent::codex_app_server::client::{
    accept_body, answer_pairs, deny_body, initialize_body, is_reply_to, is_turn_step,
    last_agent_text, loaded_from, questions_of, summaries_from, summary_from, text_object,
    thread_list_body, thread_start_body, turn_agent_text, turn_start_body, turn_text,
    unwanted_notifications, user_answers, waited, ServerRequestV, SummaryV, TurnStep, WaitV,
};
use crate::agent::codex_app_server::events::{
    agent_message_event, are_events_of, completed_message, ends_turn, mapped, MapperV,
};
use crate::agent::codex_app_server::pending::{
    ids_for, meant, response_body, PendingResponse, PendingV,
};
use crate::agent::codex_app_server::router::{args_of, help_lines, parsed, threads_args, CommandV};
use crate::agent::codex_app_server::{
    all_thread_lines, clipped, cwd_shown, how_to_reply, labelled, merged, param_lines, param_shown,
    param_text, request_prompt_lines, session_lines, strings_in, thread_lines, thread_list_text,
    time_or_number,
};
use crate::config::{CliSecurityConfig, CodexAppServerConfig};
use crate::error::ErrorV;
use crate::json::{elements_field, field, field2, text_field, JsonV, Members, NumberV};
use crate::strs::{
    begins, decimal, decimal_reads_back, first_at, first_at_from_is_first, free_of, is_ws, joined,
    number_in, occurs_at, pieces_of, signed_decimal, texts, trimmed, trimmed_end, trimmed_start,
    ws_from,
};
use crate::table::{first_entry, lookup, no_entry, with_entry};
use crate::types::{EventKind, EventStatus, EventV, RequestV};

verus! {

// ---------------------------------------------------------------------------------------------
// Grants and refusals
// ---------------------------------------------------------------------------------------------

/// Whether a method asks for an approval: of a command, of a change to files, or of permissions.
pub open spec fn asks_for_approval(method: Seq<char>) -> bool {
    ||| method == "item/commandExecution/requestApproval"@
    ||| method == "execCommandApproval"@
    ||| method == "item/fileChange/requestApproval"@
    ||| method == "applyPatchApproval"@
    ||| method == "item/permissions/requestApproval"@
}

proof fn methods_differ()
    ensures
        !asks_for_approval("item/tool/requestUserInput"@),
        "item/permissions/requestApproval"@ != "item/commandExecution/requestApproval"@,
        "item/permissions/requestApproval"@ != "execCommandApproval"@,
        "item/permissions/requestApproval"@ != "item/fileChange/requestApproval"@,
        "item/permissions/requestApproval"@ != "applyPatchApproval"@,
{
    reveal_strlit("item/commandExecution/requestApproval");
    reveal_strlit("execCommandApproval");
    reveal_strlit("item/fileChange/requestApproval");
    reveal_strlit("applyPatchApproval");
    reveal_strlit("item/permissions/requestApproval");
    reveal_strlit("item/tool/requestUserInput");
    assert("item/commandExecution/requestApproval"@.len() != "execCommandApproval"@.len());
    assert("item/commandExecution/requestApproval"@.len() != "item/fileChange/requestApproval"@.len());
    assert("item/commandExecution/requestApproval"@.len() != "applyPatchApproval"@.len());
    assert("item/commandExecution/requestApproval"@.len() != "item/permissions/requestApproval"@.len());
    assert("item/commandExecution/requestApproval"@.len() != "item/tool/requestUserInput"@.len());
    assert("execCommandApproval"@.len() != "item/fileChange/requestApproval"@.len());
    assert("execCommandApproval"@.len() != "applyPatchApproval"@.len());
    assert("execCommandApproval"@.len() != "item/permissions/requestApproval"@.len());
    assert("execCommandApproval"@.len() != "item/tool/requestUserInput"@.len());
    assert("item/fileChange/requestApproval"@.len() != "applyPatchApproval"@.len());
    assert("item/fileChange/requestApproval"@.len() != "item/permissions/requestApproval"@.len());
    assert("item/fileChange/requestApproval"@.len() != "item/tool/requestUserInput"@.len());
    assert("applyPatchApproval"@.len() != "item/permissions/requestApproval"@.len());
    assert("applyPatchApproval"@.len() != "item/tool/requestUserInput"@.len());
    assert("item/permissions/requestApproval"@.len() != "item/tool/requestUserInput"@.len());
}

/// Whether a reply lets the server go ahead.
pub open spec fn lets_go_ahead(reply: JsonV) -> bool {
    match text_field(reply, "decision"@) {
        Some(d) => begins(d, "accept"@) || begins(d, "approve"@) || begins(d, "allow"@),
        None => false,
    }
}

proof fn decision_is_found(d: Seq<char>)
    ensures
        text_field(JsonV::Object(seq![("decision"@, JsonV::Str(d))]), "decision"@) == Some(d),
{
    first_entry(seq![("decision"@, JsonV::Str(d))], "decision"@, 0);
}

/// Refusing an approval sends back the decision to reject and nothing else; granting it sends back
/// one that lets the server go ahead: for the session where a command or a change to files is
/// approved, once where permissions are.
pub proof fn approvals_are_granted_and_refused(method: Seq<char>)
    requires
        asks_for_approval(method),
    ensures
        deny_body(method) == Some(JsonV::Object(seq![("decision"@, JsonV::Str("reject"@))])),
        !lets_go_ahead(deny_body(method)->0),
        accept_body(method) matches Some(reply) && lets_go_ahead(reply),
        method == "item/permissions/requestApproval"@ ==> accept_body(method) == Some(
            JsonV::Object(seq![("decision"@, JsonV::Str("accept"@))]),
        ),
        method != "item/permissions/requestApproval"@ ==> accept_body(method) == Some(
            JsonV::Object(seq![("decision"@, JsonV::Str("acceptForSession"@))]),
        ),
        accept_body(method) != deny_body(method),
{
    methods_differ();
    reveal_strlit("reject");
    reveal_strlit("accept");
    reveal_strlit("approve");
    reveal_strlit("allow");
    reveal_strlit("acceptForSession");
    decision_is_found("reject"@);
    decision_is_found("accept"@);
    decision_is_found("acceptForSession"@);
    assert("acceptForSession"@.take(6) =~= "accept"@);
    assert("accept"@.take(6) =~= "accept"@);
    assert("reject"@.take(6)[0] == 'r');
    assert("reject"@.take(5)[0] == 'r');
    assert(!begins("reject"@, "accept"@));
    assert(!begins("reject"@, "allow"@));
    assert(text_field(accept_body(method)->0, "decision"@) != text_field(
        deny_body(method)->0,
        "decision"@,
    ));
}

/// Whatever the server asks for, a refusal never lets it go ahead. A method that asks for nothing
/// that is known has no reply of either kind, and a question can be left without answers.
pub proof fn refusals_never_let_go_ahead(method: Seq<char>)
    ensures
        deny_body(method) matches Some(reply) ==> !lets_go_ahead(reply),
        deny_body(method) is Some <==> accept_body(method) is Some,
        deny_body(method) is Some <==> asks_for_approval(method) || method
            == "item/tool/requestUserInput"@,
        method == "item/tool/requestUserInput"@ ==> deny_body(method) == Some(
            JsonV::Object(seq![("answers"@, JsonV::Object(Seq::empty()))]),
        ) && accept_body(method) == deny_body(method),
{
    methods_differ();
    reveal_strlit("decision");
    reveal_strlit("answers");
    if asks_for_approval(method) {
        approvals_are_granted_and_refused(method);
    } else if deny_body(method) is Some {
        let m: Members = seq![("answers"@, JsonV::Object(Seq::empty()))];
        assert("answers"@.len() != "decision"@.len());
        assert(m[0].0 == "answers"@);
        no_entry(m, "decision"@);
        assert(deny_body(method)->0 == JsonV::Object(m));
    }
}

/// What the chat says reaches the server as it was meant: a request that is denied is not let go
/// ahead, one that is approved is, and an approval is no question that could be answered.
pub proof fn chat_decides_over_requests(p: PendingV, answer: String)
    requires
        asks_for_approval(p.method),
    ensures
        response_body(p, PendingResponse::Deny) == Some(
            JsonV::Object(seq![("decision"@, JsonV::Str("reject"@))]),
        ),
        response_body(p, PendingResponse::Approve) matches Some(reply) && lets_go_ahead(reply),
        response_body(p, PendingResponse::Answer(answer)) is None,
{
    approvals_are_granted_and_refused(p.method);
    methods_differ();
}

/// The answer to a request with one question is the whole text, under the id of the question.
pub proof fn single_question_gets_the_whole_answer(
    p: PendingV,
    id: Seq<char>,
    answer: String,
)
    requires
        p.method == "item/tool/requestUserInput"@,
        p.params == JsonV::Object(
            seq![
                (
                    "questions"@,
                    JsonV::Array(seq![JsonV::Object(seq![("id"@, JsonV::Str(id))])]),
                ),
            ],
        ),
        id.len() > 0,
        !is_ws(id[0]),
        !is_ws(id.last()),
    ensures
        response_body(p, PendingResponse::Answer(answer)) == Some(
            JsonV::Object(
                seq![
                    (
                        "answers"@,
                        JsonV::Object(seq![(id, JsonV::Str(trimmed(answer@)))]),
                    ),
                ],
            ),
        ),
{
    methods_differ();
    let q = JsonV::Object(seq![("id"@, JsonV::Str(id))]);
    let qs = seq![q];
    first_entry(seq![("questions"@, JsonV::Array(qs))], "questions"@, 0);
    first_entry(seq![("id"@, JsonV::Str(id))], "id"@, 0);
    assert(trimmed_start(id) == id);
    assert(trimmed_end(id) == id);
    assert(qs.drop_last() =~= Seq::<JsonV>::empty());
    reveal_with_fuel(crate::agent::codex_app_server::client::ids_of, 2);
    assert(crate::agent::codex_app_server::client::ids_of(qs) =~= seq![id]);
    let a = user_answers(p.params, answer@);
    assert(a == JsonV::Object(seq![(id, JsonV::Str(trimmed(answer@)))]));
}

// ---------------------------------------------------------------------------------------------
// Commands
// ---------------------------------------------------------------------------------------------

/// The names of the commands.
pub open spec fn command_names() -> Seq<Seq<char>> {
    seq![
        "help"@,
        "session"@,
        "sessions"@,
        "thread"@,
        "threads"@,
        "list"@,
        "new"@,
        "bind"@,
        "rename"@,
        "approve"@,
        "deny"@,
        "answer"@,
    ]
}

/// A text without white space.
pub open spec fn is_one_word(s: Seq<char>) -> bool {
    forall|i: int| 0 <= i < s.len() ==> !is_ws(#[trigger] s[i])
}

proof fn command_names_differ()
    ensures
        forall|i: int| 0 <= i < 12 ==> is_one_word(#[trigger] command_names()[i]),
        forall|i: int, j: int|
            0 <= i < j < 12 ==> #[trigger] command_names()[i] != #[trigger] command_names()[j],
{
    let n = command_names();
    reveal_strlit("help");
    reveal_strlit("session");
    reveal_strlit("sessions");
    reveal_strlit("thread");
    reveal_strlit("threads");
    reveal_strlit("list");
    reveal_strlit("new");
    reveal_strlit("bind");
    reveal_strlit("rename");
    reveal_strlit("approve");
    reveal_strlit("deny");
    reveal_strlit("answer");
    assert("help"@.len() != "session"@.len());
    assert("help"@.len() != "sessions"@.len());
    assert("help"@.len() != "thread"@.len());
    assert("help"@.len() != "threads"@.len());
    assert("help"@[0] != "list"@[0]);
    assert("help"@.len() != "new"@.len());
    assert("help"@[0] != "bind"@[0]);
    assert("help"@.len() != "rename"@.len());
    assert("help"@.len() != "approve"@.len());
    assert("help"@[0] != "deny"@[0]);
    assert("help"@.len() != "answer"@.len());
    assert("session"@.len() != "sessions"@.len());
    assert("session"@.len() != "thread"@.len());
    assert("session"@[0] != "threads"@[0]);
    assert("session"@.len() != "list"@.len());
    assert("session"@.len() != "new"@.len());
    assert("session"@.len() != "bind"@.len());
    assert("session"@.len() != "rename"@.len());
    assert("session"@[0] != "approve"@[0]);
    assert("session"@.len() != "deny"@.len());
    assert("session"@.len() != "answer"@.len());
    assert("sessions"@.len() != "thread"@.len());
    assert("sessions"@.len() != "threads"@.len());
    assert("sessions"@.len() != "list"@.len());
    assert("sessions"@.len() != "new"@.len());
    assert("sessions"@.len() != "bind"@.len());
    assert("sessions"@.len() != "rename"@.len());
    assert("sessions"@.len() != "approve"@.len());
    assert("sessions"@.len() != "deny"@.len());
    assert("sessions"@.len() != "answer"@.len());
    assert("thread"@.len() != "threads"@.len());
    assert("thread"@.len() != "list"@.len());
    assert("thread"@.len() != "new"@.len());
    assert("thread"@.len() != "bind"@.len());
    assert("thread"@[0] != "rename"@[0]);
    assert("thread"@.len() != "approve"@.len());
    assert("thread"@.len() != "deny"@.len());
    assert("thread"@[0] != "answer"@[0]);
    assert("threads"@.len() != "list"@.len());
    assert("threads"@.len() != "new"@.len());
    assert("threads"@.len() != "bind"@.len());
    assert("threads"@.len() != "rename"@.len());
    assert("threads"@[0] != "approve"@[0]);
    assert("threads"@.len() != "deny"@.len());
    assert("threads"@.len() != "answer"@.len());
    assert("list"@.len() != "new"@.len());
    assert("list"@[0] != "bind"@[0]);
    assert("list"@.len() != "rename"@.len());
    assert("list"@.len() != "approve"@.len());
    assert("list"@[0] != "deny"@[0]);
    assert("list"@.len() != "answer"@.len());
    assert("new"@.len() != "bind"@.len());
    assert("new"@.len() != "rename"@.len());
    assert("new"@.len() != "approve"@.len());
    assert("new"@.len() != "deny"@.len());
    assert("new"@.len() != "answer"@.len());
    assert("bind"@.len() != "rename"@.len());
    assert("bind"@.len() != "approve"@.len());
    assert("bind"@[0] != "deny"@[0]);
    assert("bind"@.len() != "answer"@.len());
    assert("rename"@.len() != "approve"@.len());
    assert("rename"@.len() != "deny"@.len());
    assert("rename"@[0] != "answer"@[0]);
    assert("approve"@.len() != "deny"@.len());
    assert("approve"@.len() != "answer"@.len());
    assert("deny"@.len() != "answer"@.len());
    assert(n[0] == "help"@ && is_one_word("help"@));
    assert(n[1] == "session"@ && is_one_word("session"@));
    assert(n[2] == "sessions"@ && is_one_word("sessions"@));
    assert(n[3] == "thread"@ && is_one_word("thread"@));
    assert(n[4] == "threads"@ && is_one_word("threads"@));
    assert(n[5] == "list"@ && is_one_word("list"@));
    assert(n[6] == "new"@ && is_one_word("new"@));
    assert(n[7] == "bind"@ && is_one_word("bind"@));
    assert(n[8] == "rename"@ && is_one_word("rename"@));
    assert(n[9] == "approve"@ && is_one_word("approve"@));
    assert(n[10] == "deny"@ && is_one_word("deny"@));
    assert(n[11] == "answer"@ && is_one_word("answer"@));
    assert forall|i: int| 0 <= i < 12 implies is_one_word(#[trigger] n[i]) by {
        assert(i == 0 || i == 1 || i == 2 || i == 3 || i == 4 || i == 5 || i == 6 || i == 7 || i == 8
            || i == 9 || i == 10 || i == 11);
    }
    assert forall|i: int, j: int| 0 <= i < j < 12 implies #[trigger] n[i] != #[trigger] n[j] by {
        assert(i == 0 || i == 1 || i == 2 || i == 3 || i == 4 || i == 5 || i == 6 || i == 7 || i == 8
            || i == 9 || i == 10);
        assert(j == 1 || j == 2 || j == 3 || j == 4 || j == 5 || j == 6 || j == 7 || j == 8 || j == 9
            || j == 10 || j == 11);
    }
}

/// A command is no other command, and what follows its name are its arguments.
proof fn one_command_alone(p: Seq<char>, k: int, rest: Seq<char>)
    requires
        0 <= k < 12,
        rest.len() == 0 || is_ws(rest[0]),
    ensures
        args_of(p + command_names()[k] + rest, p, command_names()[k]) == Some(rest),
        forall|j: int|
            0 <= j < 12 && j != k ==> args_of(
                p + command_names()[k] + rest,
                p,
                #[trigger] command_names()[j],
            ) is None,
{
    command_names_differ();
    let name = command_names()[k];
    let t = p + name + rest;
    assert(t.take((p + name).len() as int) =~= p + name);
    assert(t.skip((p + name).len() as int) =~= rest);
    assert forall|j: int| 0 <= j < 12 && j != k implies args_of(
        t,
        p,
        #[trigger] command_names()[j],
    ) is None by {
        let other = command_names()[j];
        assert(other != name);
        assert(is_one_word(other) && is_one_word(name));
        let q = p + other;
        if begins(t, q) {
            assert forall|i: int| 0 <= i < other.len() implies #[trigger] t[p.len() + i]
                == other[i] by {
                assert(t.take(q.len() as int)[p.len() + i] == q[p.len() + i]);
            }
            if other.len() < name.len() {
                assert(t.skip(q.len() as int)[0] == name[other.len() as int]);
            } else if other.len() == name.len() {
                assert forall|i: int| 0 <= i < name.len() implies #[trigger] name[i] == other[i] by {
                    assert(t[p.len() + i] == name[i]);
                }
                assert(name =~= other);
            } else {
                assert(t[(p.len() + name.len()) as int] == rest[0]);
                assert(t[(p.len() + name.len()) as int] == other[name.len() as int]);
            }
        }
    }
}

/// A text without white space at its ends.
pub open spec fn is_tight(t: Seq<char>) -> bool {
    t.len() > 0 && !is_ws(t[0]) && !is_ws(t.last())
}

proof fn tight_stays(t: Seq<char>)
    requires
        is_tight(t),
    ensures
        trimmed(t) == t,
{
}

proof fn argument_is_tight(a: Seq<char>)
    requires
        is_tight(a),
    ensures
        trimmed(seq![' '] + a) == a,
{
    let s = seq![' '] + a;
    assert(s.drop_first() =~= a);
    assert(trimmed_start(s) == trimmed_start(a));
    tight_stays(a);
}

/// How a command with one argument is written.
pub open spec fn written(p: Seq<char>, name: Seq<char>, a: Seq<char>) -> Seq<char> {
    p + name + (seq![' '] + a)
}

proof fn written_is_tight(p: Seq<char>, name: Seq<char>, a: Seq<char>)
    requires
        is_tight(p),
        is_tight(a) || a.len() == 0 && is_tight(name),
    ensures
        is_tight(a) ==> is_tight(written(p, name, a)),
        is_tight(name) ==> is_tight(p + name),
{
}

/// Each command is understood as what it is named after, and with the argument that follows it:
/// what is approved or denied is the request that is named, what is bound or renamed is so to what
/// follows.
pub proof fn commands_mean_what_they_say(p: Seq<char>, a: Seq<char>)
    requires
        is_tight(p),
        is_tight(a),
    ensures
        parsed(written(p, "approve"@, a), p) == Ok::<CommandV, Seq<char>>(
            CommandV::Approve { request_id: Some(a) },
        ),
        parsed(written(p, "deny"@, a), p) == Ok::<CommandV, Seq<char>>(
            CommandV::Deny { request_id: Some(a) },
        ),
        parsed(written(p, "bind"@, a), p) == Ok::<CommandV, Seq<char>>(
            CommandV::Bind { thread_id: a },
        ),
        parsed(written(p, "rename"@, a), p) == Ok::<CommandV, Seq<char>>(
            CommandV::Rename { name: a },
        ),
{
    reveal_strlit("help");
    reveal_strlit("session");
    reveal_strlit("sessions");
    reveal_strlit("thread");
    reveal_strlit("threads");
    reveal_strlit("list");
    reveal_strlit("new");
    reveal_strlit("bind");
    reveal_strlit("rename");
    reveal_strlit("approve");
    reveal_strlit("deny");
    reveal_strlit("answer");
    argument_is_tight(a);
    let n = command_names();
    assert(n[0] == "help"@ && n[1] == "session"@ && n[2] == "sessions"@ && n[3] == "thread"@ && n[4]
        == "threads"@ && n[5] == "list"@ && n[6] == "new"@ && n[7] == "bind"@ && n[8] == "rename"@
        && n[9] == "approve"@ && n[10] == "deny"@ && n[11] == "answer"@);
    let rest = seq![' '] + a;
    one_command_alone(p, 7, rest);
    one_command_alone(p, 8, rest);
    one_command_alone(p, 9, rest);
    one_command_alone(p, 10, rest);
    written_is_tight(p, "approve"@, a);
    written_is_tight(p, "deny"@, a);
    written_is_tight(p, "bind"@, a);
    written_is_tight(p, "rename"@, a);
    tight_stays(written(p, "approve"@, a));
    tight_stays(written(p, "deny"@, a));
    tight_stays(written(p, "bind"@, a));
    tight_stays(written(p, "rename"@, a));
}

/// Commands without an argument: those that need none are understood, and those that need one are
/// not.
pub proof fn bare_commands_mean_what_they_say(p: Seq<char>)
    requires
        is_tight(p),
    ensures
        parsed(p + "help"@, p) == Ok::<CommandV, Seq<char>>(CommandV::Help),
        parsed(p + "session"@, p) == Ok::<CommandV, Seq<char>>(CommandV::Session),
        parsed(p + "thread"@, p) == Ok::<CommandV, Seq<char>>(CommandV::Thread),
        parsed(p + "new"@, p) == Ok::<CommandV, Seq<char>>(CommandV::New),
        parsed(p + "approve"@, p) == Ok::<CommandV, Seq<char>>(
            CommandV::Approve { request_id: None },
        ),
        parsed(p + "deny"@, p) == Ok::<CommandV, Seq<char>>(CommandV::Deny { request_id: None }),
        parsed(p + "bind"@, p) is Err,
        parsed(p + "rename"@, p) is Err,
        parsed(p + "answer"@, p) is Err,
{
    reveal_strlit("help");
    reveal_strlit("session");
    reveal_strlit("sessions");
    reveal_strlit("thread");
    reveal_strlit("threads");
    reveal_strlit("list");
    reveal_strlit("new");
    reveal_strlit("bind");
    reveal_strlit("rename");
    reveal_strlit("approve");
    reveal_strlit("deny");
    reveal_strlit("answer");
    let n = command_names();
    assert(n[0] == "help"@ && n[1] == "session"@ && n[2] == "sessions"@ && n[3] == "thread"@ && n[4]
        == "threads"@ && n[5] == "list"@ && n[6] == "new"@ && n[7] == "bind"@ && n[8] == "rename"@
        && n[9] == "approve"@ && n[10] == "deny"@ && n[11] == "answer"@);
    let e = Seq::<char>::empty();
    assert(trimmed(e) == e);
    assert forall|k: int| 0 <= k < 12 implies p + #[trigger] n[k] + e == p + n[k] by {
        assert(p + n[k] + e =~= p + n[k]);
    }
    one_command_alone(p, 0, e);
    tight_stays(p + "help"@);
    one_command_alone(p, 1, e);
    tight_stays(p + "session"@);
    one_command_alone(p, 3, e);
    tight_stays(p + "thread"@);
    one_command_alone(p, 6, e);
    tight_stays(p + "new"@);
    one_command_alone(p, 9, e);
    tight_stays(p + "approve"@);
    one_command_alone(p, 10, e);
    tight_stays(p + "deny"@);
    one_command_alone(p, 7, e);
    tight_stays(p + "bind"@);
    one_command_alone(p, 8, e);
    tight_stays(p + "rename"@);
    one_command_alone(p, 11, e);
    tight_stays(p + "answer"@);
}

/// What is no command is a prompt, word for word; a prefix without a command is none.
pub proof fn other_texts_are_prompts(p: Seq<char>, t: Seq<char>)
    requires
        is_tight(p),
        is_tight(t),
    ensures
        !begins(t, p) ==> parsed(t, p) == Ok::<CommandV, Seq<char>>(CommandV::Prompt { text: t }),
        parsed(Seq::empty(), p) == Err::<CommandV, Seq<char>>("empty message"@),
{
    tight_stays(t);
    assert(trimmed(Seq::<char>::empty()) == Seq::<char>::empty());
    if !begins(t, p) {
        assert forall|name: Seq<char>| args_of(t, p, name) is None by {
            if begins(t, p + name) {
                assert(t.take((p + name).len() as int).take(p.len() as int) =~= p);
                assert(t.take(p.len() as int) =~= t.take((p + name).len() as int).take(
                    p.len() as int,
                ));
            }
        }
    }
}

/// Whoever is not on the list of senders, where there is one, is refused before anything is read.
pub proof fn strangers_are_refused(
    cfg: CodexAppServerConfig,
    security: CliSecurityConfig,
    r: RequestV,
)
    ensures
        security.allowed_senders@.len() > 0 && !texts(security.allowed_senders@).contains(r.user_id)
            ==> asked(cfg, security, r) is Err,
        asked(cfg, security, r) is Ok ==> security.allowed_senders@.len() == 0 || texts(
            security.allowed_senders@,
        ).contains(r.user_id),
{
}

// ---------------------------------------------------------------------------------------------
// What is asked for
// ---------------------------------------------------------------------------------------------

/// A turn is started on the thread, with the prompt as it was written, and with the policy of the
/// configuration.
pub proof fn turns_carry_the_prompt(cfg: CodexAppServerConfig, thread: Seq<char>, prompt: Seq<char>)
    ensures
        ({
            let v = turn_start_body(cfg, thread, prompt);
            &&& text_field(v, "threadId"@) == Some(thread)
            &&& elements_field(v, "input"@) matches Some(s) && s.len() == 1 && text_field(s[0], "type"@)
                == Some("text"@) && text_field(s[0], "text"@) == Some(prompt)
            &&& cfg.approval_policy@.len() > 0 ==> text_field(v, "approvalPolicy"@) == Some(
                cfg.approval_policy@,
            )
            &&& cfg.approval_policy@.len() == 0 ==> field(v, "approvalPolicy"@) is None
        }),
{
    let m = turn_start_body(cfg, thread, prompt)->Object_0;
    reveal_strlit("threadId");
    reveal_strlit("input");
    reveal_strlit("approvalPolicy");
    assert("threadId"@.len() != "input"@.len());
    assert("threadId"@.len() != "approvalPolicy"@.len());
    assert("input"@.len() != "approvalPolicy"@.len());
    assert(m[0].0 == "threadId"@);
    assert(m[1].0 == "input"@);
    first_entry(m, "threadId"@, 0);
    first_entry(m, "input"@, 1);
    if cfg.approval_policy@.len() > 0 {
        assert(m[2].0 == "approvalPolicy"@);
        first_entry(m, "approvalPolicy"@, 2);
    } else {
        no_entry(m, "approvalPolicy"@);
    }
    let item = m[1].1->Array_0[0]->Object_0;
    reveal_strlit("type");
    reveal_strlit("text");
    assert("type"@[1] != "text"@[1]);
    assert(item[0].0 == "type"@);
    assert(item[1].0 == "text"@);
    first_entry(item, "type"@, 0);
    first_entry(item, "text"@, 1);
}

/// A thread is started with the model, the policy and the sandbox of the configuration, in the
/// directory that was asked for.
pub proof fn threads_start_as_configured(cfg: CodexAppServerConfig, cwd: Seq<char>)
    ensures
        ({
            let v = thread_start_body(cfg, cwd);
            &&& text_field(v, "model"@) == Some(cfg.model@)
            &&& text_field(v, "approvalPolicy"@) == Some(cfg.approval_policy@)
            &&& cfg.sandbox@ == "readOnly"@ ==> text_field(v, "sandbox"@) == Some("read-only"@)
            &&& cfg.sandbox@ == "workspaceWrite"@ ==> text_field(v, "sandbox"@) == Some(
                "workspace-write"@,
            )
            &&& cfg.sandbox@ == "dangerFullAccess"@ ==> text_field(v, "sandbox"@) == Some(
                "danger-full-access"@,
            )
            &&& cfg.sandbox@ == "read-only"@ ==> text_field(v, "sandbox"@) == Some("read-only"@)
            &&& cwd.len() > 0 ==> text_field(v, "cwd"@) == Some(cwd)
            &&& cwd.len() == 0 ==> field(v, "cwd"@) is None
        }),
{
    let m = thread_start_body(cfg, cwd)->Object_0;
    reveal_strlit("model");
    reveal_strlit("approvalPolicy");
    reveal_strlit("sandbox");
    reveal_strlit("serviceName");
    reveal_strlit("cwd");
    assert("model"@.len() != "approvalPolicy"@.len());
    assert("model"@.len() != "sandbox"@.len());
    assert("model"@.len() != "serviceName"@.len());
    assert("model"@.len() != "cwd"@.len());
    assert("approvalPolicy"@.len() != "sandbox"@.len());
    assert("approvalPolicy"@.len() != "serviceName"@.len());
    assert("approvalPolicy"@.len() != "cwd"@.len());
    assert("sandbox"@.len() != "serviceName"@.len());
    assert("sandbox"@.len() != "cwd"@.len());
    assert("serviceName"@.len() != "cwd"@.len());
    assert(m[0].0 == "model"@);
    assert(m[1].0 == "approvalPolicy"@);
    assert(m[2].0 == "sandbox"@);
    assert(m[3].0 == "serviceName"@);
    first_entry(m, "model"@, 0);
    first_entry(m, "approvalPolicy"@, 1);
    first_entry(m, "sandbox"@, 2);
    if cwd.len() > 0 {
        assert(m[4].0 == "cwd"@);
        first_entry(m, "cwd"@, 4);
    } else {
        no_entry(m, "cwd"@);
    }
    reveal_strlit("readOnly");
    reveal_strlit("workspaceWrite");
    reveal_strlit("dangerFullAccess");
    reveal_strlit("read-only");
    assert("readOnly"@.len() != "workspaceWrite"@.len());
    assert("readOnly"@.len() != "dangerFullAccess"@.len());
    assert("readOnly"@.len() != "read-only"@.len());
    assert("workspaceWrite"@.len() != "dangerFullAccess"@.len());
    assert("workspaceWrite"@.len() != "read-only"@.len());
    assert("dangerFullAccess"@.len() != "read-only"@.len());
    tight_stays("readOnly"@);
    tight_stays("workspaceWrite"@);
    tight_stays("dangerFullAccess"@);
    tight_stays("read-only"@);
}

/// The threads that were used last are asked for, as many as are wanted, but at least one and at
/// most twenty; archived ones are not.
pub proof fn latest_threads_are_listed(limit: usize)
    ensures
        ({
            let v = thread_list_body(limit);
            &&& 1 <= limit <= 20 ==> field(v, "limit"@) == Some(
                JsonV::Number(NumberV::Unsigned(limit as u64)),
            )
            &&& limit == 0 ==> field(v, "limit"@) == Some(JsonV::Number(NumberV::Unsigned(1)))
            &&& limit > 20 ==> field(v, "limit"@) == Some(JsonV::Number(NumberV::Unsigned(20)))
            &&& text_field(v, "sortKey"@) == Some("updated_at"@)
            &&& text_field(v, "sortDirection"@) == Some("desc"@)
            &&& field(v, "archived"@) == Some(JsonV::Bool(false))
        }),
{
    let m = thread_list_body(limit)->Object_0;
    reveal_strlit("limit");
    reveal_strlit("sortKey");
    reveal_strlit("sortDirection");
    reveal_strlit("archived");
    reveal_strlit("sourceKinds");
    assert("limit"@.len() != "sortKey"@.len());
    assert("limit"@.len() != "sortDirection"@.len());
    assert("limit"@.len() != "archived"@.len());
    assert("limit"@.len() != "sourceKinds"@.len());
    assert("sortKey"@.len() != "sortDirection"@.len());
    assert("sortKey"@.len() != "archived"@.len());
    assert("sortKey"@.len() != "sourceKinds"@.len());
    assert("sortDirection"@.len() != "archived"@.len());
    assert("sortDirection"@.len() != "sourceKinds"@.len());
    assert("archived"@.len() != "sourceKinds"@.len());
    assert(m[0].0 == "limit"@);
    assert(m[1].0 == "sortKey"@);
    assert(m[2].0 == "sortDirection"@);
    assert(m[3].0 == "archived"@);
    assert(m[4].0 == "sourceKinds"@);
    first_entry(m, "limit"@, 0);
    first_entry(m, "sortKey"@, 1);
    first_entry(m, "sortDirection"@, 2);
    first_entry(m, "archived"@, 3);
    first_entry(m, "sourceKinds"@, 4);
}

// ---------------------------------------------------------------------------------------------
// What is read
// ---------------------------------------------------------------------------------------------

/// A reply under the id of a request ends the wait for it, with its result or its error; one under
/// another id does not.
pub proof fn replies_go_by_their_id(msg: JsonV, id: u64, other: u64, v: JsonV)
    requires
        field(msg, "id"@) == Some(JsonV::Number(NumberV::Unsigned(id))),
    ensures
        field(msg, "error"@) is None && field(msg, "result"@) == Some(v) ==> waited(msg, id)
            == WaitV::Done(v),
        field(msg, "error"@) == Some(v) ==> waited(msg, id) == WaitV::Failed(v),
        other != id ==> !(waited(msg, other) is Done) && !(waited(msg, other) is Failed),
        field(msg, "error"@) is None && field(msg, "result"@) is None ==> !is_reply_to(msg, id),
{
}

/// What the server asks of the user is handed on with its method, its id and all that it says;
/// other requests of the server are not.
pub proof fn requests_are_handed_on(msg: JsonV, method: Seq<char>, id: JsonV, params: JsonV, n: u64)
    requires
        text_field(msg, "method"@) == Some(method),
        field(msg, "id"@) == Some(id),
        field(msg, "params"@) == Some(params),
        field(msg, "result"@) is None,
        field(msg, "error"@) is None,
    ensures
        asks_for_approval(method) || method == "item/tool/requestUserInput"@ ==> waited(msg, n)
            == WaitV::Request(ServerRequestV { method: method, id: id, params: params }),
        !asks_for_approval(method) && method != "item/tool/requestUserInput"@ ==> waited(msg, n)
            is Ignored,
{
}

/// A message of the agent is known from the notification that it is complete, with its id and its
/// text; nothing else is one.
pub proof fn complete_messages_are_read(msg: JsonV, item: JsonV, id: Seq<char>, text: Seq<char>)
    requires
        id.len() > 0,
        text.len() > 0,
    ensures
        field(msg, "id"@) is None && text_field(msg, "method"@) == Some("item/completed"@) && field2(
            msg,
            "params"@,
            "item"@,
        ) == Some(item) && text_field(item, "type"@) == Some("agentMessage"@) && text_field(item, "id"@)
            == Some(id) && text_field(item, "text"@) == Some(text) ==> completed_message(msg) == Some(
            (id, text),
        ),
        text_field(msg, "method"@) != Some("item/completed"@) ==> completed_message(msg) is None,
        field(msg, "id"@) is Some ==> completed_message(msg) is None && !ends_turn(msg),
        field2(msg, "params"@, "item"@) is None ==> completed_message(msg) is None,
        field2(msg, "params"@, "item"@) == Some(item) && text_field(item, "type"@) != Some(
            "agentMessage"@,
        ) ==> completed_message(msg) is None,
        field(msg, "id"@) is None && text_field(msg, "method"@) == Some("turn/completed"@) ==> ends_turn(
            msg,
        ) && completed_message(msg) is None,
{
    reveal_strlit("item/completed");
    reveal_strlit("turn/completed");
    assert("item/completed"@[0] != "turn/completed"@[0]);
}

/// A message of the agent is shown as complete, under its id and with its text.
pub proof fn complete_messages_are_shown(id: Seq<char>, text: Seq<char>)
    ensures
        agent_message_event(id, text).kind == EventKind::Message,
        agent_message_event(id, text).status == EventStatus::Completed,
        agent_message_event(id, text).text == text,
        agent_message_event(id, text).message_id == id,
        agent_message_event(id, text).error_message.len() == 0,
        agent_message_event(id, text).tool_name.len() == 0,
        agent_message_event(id, text).content.len() == 0,
        !agent_message_event(id, text).delta,
{
}

/// The text of a turn is that of the last message of the agent in it.
pub proof fn last_agent_message_counts(items: Seq<JsonV>, item: JsonV, t: Seq<char>)
    ensures
        text_field(item, "type"@) == Some("agentMessage"@) && text_field(item, "text"@) == Some(t)
            && t.len() > 0 ==> last_agent_text(items.push(item)) == t,
        text_field(item, "type"@) != Some("agentMessage"@) ==> last_agent_text(items.push(item))
            == last_agent_text(items),
        last_agent_text(Seq::empty()).len() == 0,
        forall|v: JsonV|
            #![trigger turn_agent_text(v)]
            field2(v, "turn"@, "items"@) == Some(JsonV::Array(items)) ==> turn_agent_text(v)
                == last_agent_text(items),
{
    assert(items.push(item).drop_last() =~= items);
    assert(items.push(item).last() == item);
}

/// A thread is known by its id, name, preview, directory and state, as the server tells them; one
/// without an id is none.
pub proof fn threads_are_read(v: JsonV, id: Seq<char>, name: Seq<char>)
    requires
        is_tight(id),
        is_tight(name),
    ensures
        text_field(v, "id"@) == Some(id) ==> (summary_from(v) matches Some(s) && s.thread_id == id
            && (text_field(v, "name"@) == Some(name) ==> s.name == name) && (text_field(v, "preview"@)
            == Some(name) ==> s.preview == name) && (text_field(v, "cwd"@) == Some(name) ==> s.cwd
            == name) && (text_field(v, "sessionId"@) == Some(name) ==> s.session_id == name) && (
        field2(v, "status"@, "type"@) == Some(JsonV::Str(name)) ==> s.status == name) && (field2(
            v,
            "source"@,
            "kind"@,
        ) == Some(JsonV::Str(name)) ==> s.source == name) && (forall|n: u64|
            n <= i64::MAX && field(v, "updatedAt"@) == Some(JsonV::Number(NumberV::Unsigned(n)))
                ==> s.updated_at == n)),
        text_field(v, "id"@) is None ==> summary_from(v) is None,
        text_field(v, "id"@) == Some(Seq::<char>::empty()) ==> summary_from(v) is None,
{
    tight_stays(id);
    tight_stays(name);
}

/// All threads that the server lists are there, in its order.
pub proof fn threads_are_read_in_order(data: Seq<JsonV>, v: JsonV)
    ensures
        summary_from(v) matches Some(s) ==> summaries_from(data.push(v)) == summaries_from(data).push(s),
        summary_from(v) is None ==> summaries_from(data.push(v)) == summaries_from(data),
        summaries_from(Seq::empty()).len() == 0,
        forall|id: Seq<char>|
            is_tight(id) && v == JsonV::Str(id) ==> #[trigger] loaded_ids(data.push(v)) == loaded_ids(
                data,
            ).push(id),
{
    assert(data.push(v).drop_last() =~= data);
    assert(data.push(v).last() == v);
    assert forall|id: Seq<char>|
        is_tight(id) && v == JsonV::Str(id) implies #[trigger] loaded_ids(data.push(v)) == loaded_ids(
        data,
    ).push(id) by {
        tight_stays(id);
        assert(loaded_ids(data.push(v)) =~= loaded_ids(data).push(id));
    }
}

/// The ids of the threads that are loaded.
pub open spec fn loaded_ids(data: Seq<JsonV>) -> Seq<Seq<char>> {
    loaded_from(data).map_values(|s: SummaryV| s.thread_id)
}

// ---------------------------------------------------------------------------------------------
// Threads and sessions
// ---------------------------------------------------------------------------------------------

/// A number picks the thread at that place of the list that was shown last, with its directory;
/// anything else is the id of a thread itself.
pub proof fn numbers_pick_from_the_list(
    lists: Lists,
    default_cwd: Seq<char>,
    session: Seq<char>,
    n: usize,
    id: Seq<char>,
    list: Seq<SummaryV>,
)
    requires
        is_tight(id),
        number_in(id, usize::MAX as nat) is None,
        lookup(lists, session) == Some(list),
    ensures
        1 <= n <= list.len() ==> selected(lists, default_cwd, session, decimal(n as nat)) == Ok::<
            BindingV,
            ErrorV,
        >(BindingV { thread_id: list[n - 1].thread_id, cwd: list[n - 1].cwd }),
        n == 0 || n > list.len() ==> selected(lists, default_cwd, session, decimal(n as nat)) is Err,
        selected(lists, default_cwd, session, id) == Ok::<BindingV, ErrorV>(
            BindingV { thread_id: id, cwd: default_cwd },
        ),
{
    tight_stays(id);
    decimal_reads_back(n as nat);
    decimal_is_tight(n as nat);
    tight_stays(decimal(n as nat));
}

proof fn decimal_is_tight(n: nat)
    ensures
        is_tight(decimal(n)),
    decreases n,
{
    if n >= 10 {
        decimal_is_tight(n / 10);
    }
}

/// A thread that is renamed has the new name wherever it is listed, and no other thread does by it.
pub proof fn renaming_concerns_one_thread(list: Seq<SummaryV>, id: Seq<char>, name: Seq<char>, i: int)
    requires
        0 <= i < list.len(),
    ensures
        renamed(list, id, name).len() == list.len(),
        list[i].thread_id == id ==> renamed(list, id, name)[i].name == name && renamed(
            list,
            id,
            name,
        )[i].thread_id == id,
        list[i].thread_id != id ==> renamed(list, id, name)[i] == list[i],
{
}

/// A request that waits is found by its id, by the session that it belongs to and by no other; one
/// that waits alone needs no id.
pub proof fn waiting_requests_are_found(
    m: Seq<(Seq<char>, PendingV)>,
    session: Seq<char>,
    id: Seq<char>,
    p: PendingV,
)
    ensures
        lookup(m, id) == Some(p) && p.im_session_id == session ==> meant(m, session, Some(id)) == Ok::<
            Seq<char>,
            ErrorV,
        >(id),
        lookup(m, id) == Some(p) && p.im_session_id != session ==> meant(m, session, Some(id)) is Err,
        lookup(m, id) is None ==> meant(m, session, Some(id)) is Err,
        p.im_session_id == session ==> meant(seq![(id, p)], session, None) == Ok::<Seq<char>, ErrorV>(
            id,
        ),
        p.im_session_id != session ==> meant(seq![(id, p)], session, None) is Err,
        meant(Seq::empty(), session, None) is Err,
{
    reveal_with_fuel(ids_for, 2);
    assert(seq![(id, p)].drop_last() =~= Seq::<(Seq<char>, PendingV)>::empty());
    if p.im_session_id == session {
        assert(ids_for(seq![(id, p)], session) =~= seq![id]);
    }
}

/// What is cut is cut behind its start, and what is short is not cut.
pub proof fn clipped_text_is_a_start(t: Seq<char>, max: nat)
    requires
        is_tight(t),
    ensures
        t.len() <= max ==> clipped(t, max) == t,
        t.len() > max ==> clipped(t, max) == t.take(max as int) + "..."@,
{
    tight_stays(t);
}

/// The user is told what is waited for: which request, of what kind, the command and its directory,
/// and how to decide.
pub proof fn waiting_requests_are_told(
    request_id: Seq<char>,
    r: ServerRequestV,
    params_text: Seq<char>,
    command: Seq<char>,
)
    ensures
        ({
            let lines = request_prompt_lines(request_id, r, params_text);
            &&& lines.contains("  request_id: "@ + request_id)
            &&& lines.contains("  method: "@ + r.method)
            &&& is_tight(command) && command.len() <= 300 && field(r.params, "command"@) == Some(
                JsonV::Str(command),
            ) ==> lines.contains("  command: "@ + command)
            &&& asks_for_approval(r.method) ==> lines.contains(
                "Reply with `/approve "@ + request_id + "` to allow, or `/deny "@ + request_id
                    + "` to reject."@,
            )
            &&& r.method == "item/tool/requestUserInput"@ ==> lines.contains(
                "Reply with `/answer "@ + request_id + " <answer>` to continue."@,
            )
            &&& r.method == "execCommandApproval"@ || r.method
                == "item/commandExecution/requestApproval"@ ==> lines[0]
                == "Codex is waiting for IM confirmation: "@ + "command execution"@
            &&& r.method == "applyPatchApproval"@ || r.method == "item/fileChange/requestApproval"@
                ==> lines[0] == "Codex is waiting for IM confirmation: "@ + "file change"@
        }),
{
    methods_differ();
    approval_methods_differ();
    let lines = request_prompt_lines(request_id, r, params_text);
    assert(lines[1] == "  request_id: "@ + request_id);
    assert(lines[2] == "  method: "@ + r.method);
    if is_tight(command) && command.len() <= 300 && field(r.params, "command"@) == Some(
        JsonV::Str(command),
    ) {
        tight_stays(command);
        assert(lines[3] == "  command: "@ + command);
    }
    let h = how_to_reply(request_id, r.method);
    let n = lines.len() - h.len();
    assert(lines[n] == h[0]);
}

proof fn approval_methods_differ()
    ensures
        "execCommandApproval"@ != "applyPatchApproval"@,
        "execCommandApproval"@ != "item/fileChange/requestApproval"@,
        "item/commandExecution/requestApproval"@ != "applyPatchApproval"@,
        "item/commandExecution/requestApproval"@ != "item/fileChange/requestApproval"@,
        "item/tool/requestUserInput"@ != "applyPatchApproval"@,
        "item/tool/requestUserInput"@ != "item/fileChange/requestApproval"@,
        "item/tool/requestUserInput"@ != "execCommandApproval"@,
        "item/tool/requestUserInput"@ != "item/commandExecution/requestApproval"@,
        "item/tool/requestUserInput"@ != "item/permissions/requestApproval"@,
{
    reveal_strlit("item/commandExecution/requestApproval");
    reveal_strlit("execCommandApproval");
    reveal_strlit("item/fileChange/requestApproval");
    reveal_strlit("applyPatchApproval");
    reveal_strlit("item/permissions/requestApproval");
    reveal_strlit("item/tool/requestUserInput");
    assert("item/commandExecution/requestApproval"@.len() != "execCommandApproval"@.len());
    assert("item/commandExecution/requestApproval"@.len() != "item/fileChange/requestApproval"@.len());
    assert("item/commandExecution/requestApproval"@.len() != "applyPatchApproval"@.len());
    assert("item/commandExecution/requestApproval"@.len() != "item/permissions/requestApproval"@.len());
    assert("item/commandExecution/requestApproval"@.len() != "item/tool/requestUserInput"@.len());
    assert("execCommandApproval"@.len() != "item/fileChange/requestApproval"@.len());
    assert("execCommandApproval"@.len() != "applyPatchApproval"@.len());
    assert("execCommandApproval"@.len() != "item/permissions/requestApproval"@.len());
    assert("execCommandApproval"@.len() != "item/tool/requestUserInput"@.len());
    assert("item/fileChange/requestApproval"@.len() != "applyPatchApproval"@.len());
    assert("item/fileChange/requestApproval"@.len() != "item/permissions/requestApproval"@.len());
    assert("item/fileChange/requestApproval"@.len() != "item/tool/requestUserInput"@.len());
    assert("applyPatchApproval"@.len() != "item/permissions/requestApproval"@.len());
    assert("applyPatchApproval"@.len() != "item/tool/requestUserInput"@.len());
    assert("item/permissions/requestApproval"@.len() != "item/tool/requestUserInput"@.len());
}

/// A thread in a list is told by its number in it, its id, its title and its directory.
pub proof fn listed_threads_are_told(idx: int, t: SummaryV)
    requires
        idx >= 0,
    ensures
        thread_lines(idx, t).contains(decimal((idx + 1) as nat) + ". "@ + t.thread_id),
        t.cwd.len() > 0 ==> thread_lines(idx, t).contains("   cwd: "@ + t.cwd),
        is_tight(t.name) && t.name.len() <= 80 ==> thread_lines(idx, t).contains(
            "   title: "@ + t.name,
        ),
        t.name.len() == 0 && is_tight(t.preview) && t.preview.len() <= 80 ==> thread_lines(
            idx,
            t,
        ).contains("   title: "@ + t.preview),
{
    let l = thread_lines(idx, t);
    let g: int = if idx > 0 {
        1
    } else {
        0
    };
    assert(l[g] == decimal((idx + 1) as nat) + ". "@ + t.thread_id);
    let title = clipped(
        if t.name.len() == 0 {
            t.preview
        } else {
            t.name
        },
        80,
    );
    let k: int = if title.len() > 0 {
        g + 2
    } else {
        g + 1
    };
    if t.cwd.len() > 0 {
        assert(l[k] == "   cwd: "@ + t.cwd);
    }
    if is_tight(t.name) && t.name.len() <= 80 {
        tight_stays(t.name);
        assert(l[g + 1] == "   title: "@ + t.name);
    }
    if t.name.len() == 0 && is_tight(t.preview) && t.preview.len() <= 80 {
        tight_stays(t.preview);
        assert(l[g + 1] == "   title: "@ + t.preview);
    }
}

/// A session is told with its channel, its id and its user, and with the thread that it is bound to.
pub proof fn sessions_are_told(prefix: Seq<char>, b: BindingV, r: RequestV)
    ensures
        session_lines(prefix, Some(b), r).contains("  channel: "@ + r.channel),
        session_lines(prefix, Some(b), r).contains("  session_id: "@ + r.session_id),
        session_lines(prefix, Some(b), r).contains("  user_id: "@ + r.user_id),
        session_lines(prefix, Some(b), r).contains("  thread_id: "@ + b.thread_id),
        session_lines(prefix, None, r).contains("  thread_id: (none)"@),
        b.cwd.len() > 0 ==> session_lines(prefix, Some(b), r).contains("  cwd: "@ + b.cwd)
            && thread_text(Some(b)) == "Bound Codex thread:\n  thread_id: "@ + b.thread_id
            + "\n  cwd: "@ + b.cwd,
{
    let l = session_lines(prefix, Some(b), r);
    let m = session_lines(prefix, None, r);
    assert(l[1] == "  channel: "@ + r.channel);
    assert(l[2] == "  session_id: "@ + r.session_id);
    assert(l[3] == "  user_id: "@ + r.user_id);
    assert(l[l.len() - 7] == "  thread_id: "@ + b.thread_id);
    assert(l[l.len() - 6] == "  cwd: "@ + if b.cwd.len() == 0 {
        "(default)"@
    } else {
        b.cwd
    });
    assert(m[m.len() - 7] == "  thread_id: (none)"@);
}

/// A thread that is gone is replaced in the directory that it had, or else in the usual one.
pub proof fn lost_threads_are_replaced(b: BindingV, default_cwd: Seq<char>)
    ensures
        b.cwd.len() > 0 ==> replacement_cwd(b, default_cwd) == Some(b.cwd),
        b.cwd.len() == 0 && default_cwd.len() > 0 ==> replacement_cwd(b, default_cwd) == Some(
            default_cwd,
        ),
        b.cwd.len() == 0 && default_cwd.len() == 0 ==> replacement_cwd(b, default_cwd) is None,
{
}

/// An answer is for the request that it names first, where it names one, and is what follows.
pub proof fn answers_go_to_the_named_request(p: Seq<char>, id: Seq<char>, text: Seq<char>)
    requires
        is_tight(p),
        is_one_word(id),
        is_tight(text),
        id.len() > 0,
    ensures
        begins(id, "req_"@) || begins(id, "appr_"@) ==> parsed(
            written(p, "answer"@, id + (seq![' '] + text)),
            p,
        ) == Ok::<CommandV, Seq<char>>(CommandV::Answer { request_id: Some(id), text: text }),
        !begins(id, "req_"@) && !begins(id, "appr_"@) ==> parsed(
            written(p, "answer"@, id + (seq![' '] + text)),
            p,
        ) == Ok::<CommandV, Seq<char>>(
            CommandV::Answer { request_id: None, text: id + (seq![' '] + text) },
        ),
{
    reveal_strlit("help");
    reveal_strlit("session");
    reveal_strlit("sessions");
    reveal_strlit("thread");
    reveal_strlit("threads");
    reveal_strlit("list");
    reveal_strlit("new");
    reveal_strlit("bind");
    reveal_strlit("rename");
    reveal_strlit("approve");
    reveal_strlit("deny");
    reveal_strlit("answer");
    let a = id + (seq![' '] + text);
    assert(is_tight(a)) by {
        assert(a[0] == id[0]);
        assert(a.last() == text.last());
    }
    argument_is_tight(a);
    argument_is_tight(text);
    let n = command_names();
    assert(n[0] == "help"@ && n[1] == "session"@ && n[2] == "sessions"@ && n[3] == "thread"@ && n[4]
        == "threads"@ && n[5] == "list"@ && n[6] == "new"@ && n[7] == "bind"@ && n[8] == "rename"@
        && n[9] == "approve"@ && n[10] == "deny"@ && n[11] == "answer"@);
    one_command_alone(p, 11, seq![' '] + a);
    written_is_tight(p, "answer"@, a);
    tight_stays(written(p, "answer"@, a));
    tight_stays(a);
    tight_stays(text);
    word_ends(a, id.len() as int, 0);
    assert(a.take(id.len() as int) =~= id);
    assert(a.skip((id.len() + 1) as int) =~= text);
}

/// The first white space of a text is where it first is.
proof fn word_ends(s: Seq<char>, i: int, from: int)
    requires
        0 <= from <= i < s.len(),
        is_ws(s[i]),
        forall|j: int| from <= j < i ==> !is_ws(#[trigger] s[j]),
    ensures
        ws_from(s, from) == i,
    decreases i - from,
{
    if from < i {
        assert(!is_ws(s[from]));
        word_ends(s, i, from + 1);
    }
}

/// As many threads are listed as are asked for, ten where nothing is said, but at least one and at
/// most twenty; and only those that are loaded where that is asked for.
pub proof fn lists_are_as_long_as_asked_for(p: Seq<char>, n: nat)
    requires
        is_tight(p),
    ensures
        threads_args(Seq::empty(), false, 10) == Some((false, 10usize)),
        threads_args(seq!["loaded"@], false, 10) == Some((true, 10usize)),
        1 <= n <= 20 ==> threads_args(seq![decimal(n)], false, 10) == Some((false, n as usize)),
        n == 0 ==> threads_args(seq![decimal(n)], false, 10) == Some((false, 1usize)),
        20 < n <= 1000 ==> threads_args(seq![decimal(n)], false, 10) == Some((false, 20usize)),
        parsed(p + "threads"@, p) == Ok::<CommandV, Seq<char>>(
            CommandV::Threads { loaded_only: false, limit: 10 },
        ),
{
    reveal_strlit("help");
    reveal_strlit("session");
    reveal_strlit("sessions");
    reveal_strlit("thread");
    reveal_strlit("threads");
    reveal_strlit("list");
    reveal_strlit("new");
    reveal_strlit("bind");
    reveal_strlit("rename");
    reveal_strlit("approve");
    reveal_strlit("deny");
    reveal_strlit("answer");
    reveal_strlit("loaded");
    reveal_with_fuel(threads_args, 3);
    decimal_reads_back(n);
    decimal_begins_with_a_digit(n);
    assert(decimal(n) != "loaded"@) by {
        assert("loaded"@[0] == 'l');
    }
    assert(seq![decimal(n)].drop_first() =~= Seq::<Seq<char>>::empty());
    assert(seq!["loaded"@].drop_first() =~= Seq::<Seq<char>>::empty());
    let names = command_names();
    assert(names[0] == "help"@ && names[1] == "session"@ && names[2] == "sessions"@ && names[3]
        == "thread"@ && names[4] == "threads"@);
    let e = Seq::<char>::empty();
    assert(p + names[4] + e =~= p + "threads"@);
    one_command_alone(p, 4, e);
    tight_stays(p + "threads"@);
}

proof fn decimal_begins_with_a_digit(n: nat)
    ensures
        decimal(n).len() > 0,
        '0' <= decimal(n)[0] <= '9',
    decreases n,
{
    if n >= 10 {
        decimal_begins_with_a_digit(n / 10);
    }
}

/// Answers that name their questions are given under those names; an answer to several questions
/// that names none is given as a whole.
pub proof fn answers_are_given_by_name(params: JsonV, k: Seq<char>, v: Seq<char>, t: Seq<char>)
    requires
        field(params, "questions"@) is None,
        field(params, "input"@) is None,
        field(params, "request"@) is None,
        is_tight(k),
        is_tight(v),
        free_of(k, '='),
        free_of(k, ';'),
        free_of(v, ';'),
        is_tight(t),
        free_of(t, '='),
        free_of(t, ';'),
    ensures
        user_answers(params, k + seq!['='] + v) == JsonV::Object(seq![(k, JsonV::Str(v))]),
        user_answers(params, t) == JsonV::Object(seq![("response"@, JsonV::Str(t))]),
{
    reveal_strlit("=");
    let s = k + seq!['='] + v;
    let eq = "="@;
    assert(eq =~= seq!['=']);
    assert forall|i: int| 0 <= i < s.len() implies #[trigger] s[i] != ';' by {
        if i < k.len() {
            assert(s[i] == k[i]);
        } else if i > k.len() {
            assert(s[i] == v[i - k.len() - 1]);
        }
    }
    one_piece(s, ';');
    one_piece(t, ';');
    tight_stays(k);
    tight_stays(v);
    tight_stays(t);
    first_at_from_is_first(s, eq, 0);
    assert(s.subrange(k.len() as int, (k.len() + 1) as int) =~= eq);
    assert(occurs_at(s, eq, k.len() as int));
    match first_at(s, eq) {
        Some(i) => {
            if i < k.len() {
                assert(s.subrange(i, i + 1)[0] == k[i]);
            }
            assert(i == k.len());
            assert(s.take(i) =~= k);
            assert(s.skip(i + 1) =~= v);
        },
        None => {},
    }
    first_at_from_is_first(t, eq, 0);
    match first_at(t, eq) {
        Some(i) => {
            assert(t.subrange(i, i + 1)[0] == t[i]);
        },
        None => {},
    }
    reveal_with_fuel(answer_pairs, 2);
    assert(seq![s].drop_last() =~= Seq::<Seq<char>>::empty());
    assert(seq![t].drop_last() =~= Seq::<Seq<char>>::empty());
    let e = Seq::<(Seq<char>, Seq<char>)>::empty();
    assert(with_entry(e, k, v) =~= seq![(k, v)]);
    assert(answer_pairs(seq![s]) =~= seq![(k, v)]);
    assert(answer_pairs(seq![t]) =~= e);
    assert(text_object(seq![(k, v)])->Object_0 =~= seq![(k, JsonV::Str(v))]);
}

proof fn one_piece(s: Seq<char>, c: char)
    requires
        free_of(s, c),
    ensures
        pieces_of(s, c) == seq![s],
{
    first_at_from_is_first(s, seq![c], 0);
    match first_at(s, seq![c]) {
        Some(i) => {
            assert(s.subrange(i, i + 1)[0] == s[i]);
        },
        None => {},
    }
}

/// Each complete message is added to what the turn says, behind a blank line where there is more;
/// the end of the turn ends it, and nothing else changes it.
pub proof fn turns_add_up(m: MapperV, msg: JsonV, id: Seq<char>, text: Seq<char>, response: JsonV)
    ensures
        completed_message(msg) == Some((id, text)) && m.accumulated.len() == 0 ==> mapped(
            m,
            msg,
        ).accumulated == text && mapped(m, msg).any_delivered && mapped(m, msg).turn_done == m.turn_done,
        completed_message(msg) == Some((id, text)) && m.accumulated.len() > 0 ==> mapped(
            m,
            msg,
        ).accumulated == m.accumulated + "\n\n"@ + text,
        completed_message(msg) is None && ends_turn(msg) ==> mapped(m, msg).turn_done && mapped(
            m,
            msg,
        ).accumulated == m.accumulated,
        completed_message(msg) is None && !ends_turn(msg) ==> mapped(m, msg).turn_done == m.turn_done
            && mapped(m, msg).accumulated == m.accumulated,
        is_tight(m.accumulated) ==> turn_text(m, Some(response)) == m.accumulated,
        m.accumulated.len() == 0 ==> turn_text(m, Some(response)) == turn_agent_text(response),
        m.accumulated.len() == 0 ==> turn_text(m, None).len() == 0,
{
    reveal_strlit("item/started");
    reveal_strlit("turn/completed");
    assert("item/started"@.len() != "turn/completed"@.len());
    assert(trimmed(Seq::<char>::empty()) == Seq::<char>::empty());
    if is_tight(m.accumulated) {
        tight_stays(m.accumulated);
    }
    if m.accumulated.len() == 0 {
        assert(m.accumulated =~= Seq::<char>::empty());
    }
}

/// A complete message is shown at once; the end of a turn ends the response, after what was said and
/// not shown yet.
pub proof fn turns_are_shown(m: MapperV, msg: JsonV, id: Seq<char>, text: Seq<char>, events: Seq<EventV>)
    requires
        are_events_of(m, msg, events),
    ensures
        completed_message(msg) == Some((id, text)) ==> events.len() == 1 && events[0].text == text
            && events[0].message_id == id && events[0].kind == EventKind::Message && events[0].status
            == EventStatus::Completed,
        completed_message(msg) is None && ends_turn(msg) ==> events.len() > 0 && events.last().kind
            == EventKind::Response && events.last().status == EventStatus::Completed
            && events.last().error_message.len() == 0,
        completed_message(msg) is None && ends_turn(msg) && m.accumulated.len() > 0 && !m.any_delivered
            ==> events.len() == 2 && events[0].text == m.accumulated,
        completed_message(msg) is None && !ends_turn(msg) ==> events.len() == 0,
{
}

/// A frame of a turn is an answer to it, a request to the user or part of what is said.
pub proof fn frames_of_turns_are_told_apart(m: MapperV, msg: JsonV, id: u64, step: TurnStep, e: JsonV)
    requires
        is_turn_step(m, msg, id, step),
    ensures
        field(msg, "id"@) == Some(JsonV::Number(NumberV::Unsigned(id))) && field(msg, "error"@) == Some(e)
            ==> (step matches TurnStep::Failed(x) && x@ == e),
        field(msg, "id"@) == Some(JsonV::Number(NumberV::Unsigned(id))) && field(msg, "error"@) is None
            && field(msg, "result"@) is Some ==> step is Acknowledged,
        field(msg, "id"@) is None ==> (step matches TurnStep::Events { events, done } && are_events_of(
            m,
            msg,
            events.deep_view(),
        ) && (ends_turn(msg) ==> done || completed_message(msg) is Some)),
{
    reveal_strlit("item/started");
    reveal_strlit("turn/completed");
    assert("item/started"@.len() != "turn/completed"@.len());
}

/// The server is told who asks.
pub proof fn the_gateway_introduces_itself()
    ensures
        field2(initialize_body(), "clientInfo"@, "name"@) == Some(JsonV::Str("im_channel_gateway"@)),
        field2(initialize_body(), "clientInfo"@, "version"@) == Some(JsonV::Str("0.1.0"@)),
        field2(initialize_body(), "capabilities"@, "optOutNotificationMethods"@) is Some,
        !unwanted_notifications().contains("item/completed"@),
        !unwanted_notifications().contains("turn/completed"@),
        !unwanted_notifications().contains("item/started"@),
{
    let m = initialize_body()->Object_0;
    reveal_strlit("clientInfo");
    reveal_strlit("capabilities");
    assert("clientInfo"@.len() != "capabilities"@.len());
    assert(m[0].0 == "clientInfo"@);
    assert(m[1].0 == "capabilities"@);
    first_entry(m, "clientInfo"@, 0);
    first_entry(m, "capabilities"@, 1);
    let c = m[0].1->Object_0;
    reveal_strlit("name");
    reveal_strlit("title");
    reveal_strlit("version");
    assert("name"@.len() != "title"@.len());
    assert("name"@.len() != "version"@.len());
    assert("title"@.len() != "version"@.len());
    assert(c[0].0 == "name"@);
    assert(c[1].0 == "title"@);
    assert(c[2].0 == "version"@);
    first_entry(c, "name"@, 0);
    first_entry(c, "version"@, 2);
    first_entry(m[1].1->Object_0, "optOutNotificationMethods"@, 0);
    let u = unwanted_notifications();
    reveal_strlit("remoteControl/status/changed");
    reveal_strlit("thread/tokenUsage/updated");
    reveal_strlit("hook/started");
    reveal_strlit("hook/completed");
    reveal_strlit("thread/status/changed");
    reveal_strlit("item/completed");
    reveal_strlit("turn/completed");
    reveal_strlit("item/started");
    assert(u[0].len() == 28 && u[1].len() == 25 && u[2].len() == 12 && u[3].len() == 14 && u[4].len()
        == 21);
    assert(u[2][0] == 'h' && u[3][0] == 'h' && "item/completed"@[0] == 'i' && "turn/completed"@[0]
        == 't' && "item/started"@[0] == 'i');
}

/// A list of threads shows each of them, and says so where there is none.
pub proof fn thread_lists_show_every_thread(
    threads: Seq<SummaryV>,
    t: SummaryV,
    p: Seq<char>,
    loaded: bool,
)
    ensures
        all_thread_lines(threads.push(t)) == all_thread_lines(threads) + thread_lines(
            threads.len() as int,
            t,
        ),
        all_thread_lines(Seq::empty()).len() == 0,
        thread_list_text(p, Seq::empty(), false) == "No Codex threads found on app-server."@,
        thread_list_text(p, Seq::empty(), true) == "No loaded Codex threads found on app-server."@,
        p.len() > 0 ==> thread_list_text(p, seq![t], false) == joined(
            seq!["Recent Codex threads:"@] + thread_lines(0, t) + seq![
                Seq::<char>::empty(),
                "Bind one with `"@ + p + "bind <number>`, for example `"@ + p + "bind 1`."@,
                "You can still bind an explicit id with `"@ + p + "bind <threadId>`."@,
            ],
            "\n"@,
        ),
{
    assert(threads.push(t).drop_last() =~= threads);
    assert(threads.push(t).last() == t);
    reveal_with_fuel(all_thread_lines, 2);
    assert(seq![t].drop_last() =~= Seq::<SummaryV>::empty());
    assert(all_thread_lines(seq![t]) =~= thread_lines(0, t));
}

/// A thread is renamed in every list that it was shown in.
pub proof fn renaming_concerns_every_list(lists: Lists, id: Seq<char>, name: Seq<char>, i: int)
    requires
        0 <= i < lists.len(),
    ensures
        renamed_everywhere(lists, id, name).len() == lists.len(),
        renamed_everywhere(lists, id, name)[i].0 == lists[i].0,
        renamed_everywhere(lists, id, name)[i].1 == renamed(lists[i].1, id, name),
{
}

/// A thread whose record is gone is told from other errors, and every error is told with what went
/// wrong.
pub proof fn missing_records_are_told(e: Seq<char>, i: int)
    ensures
        occurs_at(e, "no rollout found for thread id"@, i) ==> is_missing_rollout(ErrorV::Other(e)),
        !is_missing_rollout(ErrorV::Other(e)) ==> new_thread_error(ErrorV::Other(e)) == e
            && stale_recovery_error(ErrorV::Other(e)) == e,
        new_thread_error(ErrorV::Other(e)).len() >= e.len(),
        new_thread_error(ErrorV::Other(e)).skip(
            new_thread_error(ErrorV::Other(e)).len() - e.len(),
        ) == e,
        stale_recovery_error(ErrorV::Other(e)).len() >= e.len(),
        stale_recovery_error(ErrorV::Other(e)).skip(
            stale_recovery_error(ErrorV::Other(e)).len() - e.len(),
        ) == e,
        e.len() == 0 ==> !is_missing_rollout(ErrorV::Other(e)),
{
    reveal_strlit("no rollout found for thread id");
    let a = new_thread_error(ErrorV::Other(e));
    let b = stale_recovery_error(ErrorV::Other(e));
    assert(a.skip(a.len() - e.len()) =~= e);
    assert(b.skip(b.len() - e.len()) =~= e);
}

/// The help names the commands, with the prefix that they have.
pub proof fn help_names_the_commands(p: Seq<char>)
    requires
        p.len() > 0,
    ensures
        help_lines(p).contains("  "@ + p + "help — show this message"@),
        help_lines(p).contains("  "@ + p + "approve [requestId] — approve a pending Codex request"@),
        help_lines(p).contains("  "@ + p + "deny [requestId] — deny a pending Codex request"@),
        help_lines(p).contains(
            "  "@ + p + "answer [requestId] <answer> — answer a pending Codex input request"@,
        ),
        help_lines(p).contains("  "@ + p + "rename <name> — rename the bound Codex thread"@),
        help_lines(p).contains(
            "  "@ + p + "new — clear binding; next message starts a new thread"@,
        ),
        help_lines(p).len() == 16,
        help_lines(Seq::empty()) == help_lines("/"@),
{
    let h = help_lines(p);
    assert(h[1] == "  "@ + p + "help — show this message"@);
    assert(h[7] == "  "@ + p + "rename <name> — rename the bound Codex thread"@);
    assert(h[8] == "  "@ + p + "approve [requestId] — approve a pending Codex request"@);
    assert(h[9] == "  "@ + p + "deny [requestId] — deny a pending Codex request"@);
    assert(h[10] == "  "@ + p + "answer [requestId] <answer> — answer a pending Codex input request"@);
    assert(h[11] == "  "@ + p + "new — clear binding; next message starts a new thread"@);
    reveal_strlit("/");
}

/// What a request says is shown: words as they are, a list of words with blanks between them, and
/// each under its name.
pub proof fn requests_are_shown(params: JsonV, t: Seq<char>, u: Seq<char>)
    requires
        is_tight(t),
        t.len() <= 300,
        is_tight(u),
    ensures
        field(params, "cwd"@) == Some(JsonV::Str(t)) ==> param_lines(params).contains("  cwd: "@ + t),
        field(params, "reason"@) == Some(JsonV::Str(t)) ==> param_lines(params).contains(
            "  reason: "@ + t,
        ),
        field(params, "toolName"@) == Some(JsonV::Str(t)) ==> param_lines(params).contains(
            "  toolName: "@ + t,
        ),
        param_text(JsonV::Array(seq![JsonV::Str(t), JsonV::Str(u)])) == Some(t + " "@ + u),
        param_text(JsonV::Str(t)) == Some(t),
        cwd_shown(t) == t,
        cwd_shown(Seq::empty()) == "(default)"@,
        time_or_number(Some(t), 5) == t,
        time_or_number(None, 5) == signed_decimal(5),
{
    tight_stays(t);
    let l = param_lines(params);
    let a = labelled("  command: "@, param_shown(params, "command"@));
    let b = labelled("  cwd: "@, param_shown(params, "cwd"@));
    let c = labelled("  reason: "@, param_shown(params, "reason"@));
    let d = labelled("  description: "@, param_shown(params, "description"@));
    if field(params, "cwd"@) == Some(JsonV::Str(t)) {
        assert(l[a.len() as int] == "  cwd: "@ + t);
    }
    if field(params, "reason"@) == Some(JsonV::Str(t)) {
        assert(l[(a.len() + b.len()) as int] == "  reason: "@ + t);
    }
    if field(params, "toolName"@) == Some(JsonV::Str(t)) {
        assert(l[(a.len() + b.len() + c.len() + d.len()) as int] == "  toolName: "@ + t);
    }
    let items = seq![JsonV::Str(t), JsonV::Str(u)];
    reveal_with_fuel(strings_in, 3);
    reveal_with_fuel(joined, 3);
    assert(items.drop_last() =~= seq![JsonV::Str(t)]);
    assert(items.drop_last().drop_last() =~= Seq::<JsonV>::empty());
    assert(strings_in(items) =~= seq![t, u]);
    assert(seq![t, u].drop_last() =~= seq![t]);
}

/// A thread that is loaded is listed, too, where there is room and it is not listed yet.
pub proof fn loaded_threads_are_listed(threads: Seq<SummaryV>, t: SummaryV, limit: nat)
    ensures
        threads.len() < limit && (forall|i: int|
            0 <= i < threads.len() ==> (#[trigger] threads[i]).thread_id != t.thread_id) ==> merged(
            threads,
            seq![t],
            limit,
        ) == threads.push(t),
        threads.len() >= limit ==> merged(threads, seq![t], limit) == threads,
        merged(threads, Seq::empty(), limit) == threads,
{
    reveal_with_fuel(merged, 2);
    assert(seq![t].drop_first() =~= Seq::<SummaryV>::empty());
}

/// Questions are found wherever a request keeps them.
pub proof fn questions_are_found(params: JsonV, q: JsonV)
    ensures
        field(params, "questions"@) == Some(q) ==> questions_of(params) == Some(q),
        field(params, "questions"@) is None && field2(params, "input"@, "questions"@) == Some(q)
            ==> questions_of(params) == Some(q),
        field(params, "questions"@) is None && field2(params, "input"@, "questions"@) is None && field2(
            params,
            "request"@,
            "questions"@,
        ) == Some(q) ==> questions_of(params) == Some(q),
{
}

/// A thread tells where it came from and how it fares.
pub proof fn threads_tell_their_source(v: JsonV, s: Seq<char>)
    requires
        summary_from(v) is Some,
    ensures
        field2(v, "source"@, "kind"@) == Some(JsonV::Str(s)) ==> summary_from(v)->0.source == s,
        field2(v, "source"@, "kind"@) is None && field2(v, "threadSource"@, "kind"@) == Some(
            JsonV::Str(s),
        ) ==> summary_from(v)->0.source == s,
        field2(v, "status"@, "type"@) == Some(JsonV::Str(s)) ==> summary_from(v)->0.status == s,
        text_field(v, "sessionId"@) == Some(s) ==> summary_from(v)->0.session_id == s,
        text_field(v, "cwd"@) == Some(s) ==> summary_from(v)->0.cwd == s,
{
}

/// The id of a reply may be written as a text.
pub proof fn written_ids_count(msg: JsonV, id: u64, other: u64)
    requires
        field(msg, "id"@) == Some(JsonV::Str(decimal(other as nat))),
        field(msg, "result"@) is Some || field(msg, "error"@) is Some,
    ensures
        is_reply_to(msg, id) == (id == other),
{
    decimal_reads_back(other as nat);
    let s = decimal(other as nat);
    assert(s[0] != '+');
}

/// A kept binding names its thread, and its directory where it has one of its own.
pub proof fn kept_bindings_are_read(m: Members, t: Seq<char>, c: Seq<char>)
    ensures
        lookup(m, "thread_id"@) == Some(JsonV::Str(t)) && lookup(m, "cwd"@) is None ==> binding_of(
            JsonV::Object(m),
        ) == Some(BindingV { thread_id: t, cwd: Seq::empty() }),
        lookup(m, "thread_id"@) == Some(JsonV::Str(t)) && lookup(m, "cwd"@) == Some(JsonV::Str(c))
            ==> binding_of(JsonV::Object(m)) == Some(BindingV { thread_id: t, cwd: c }),
        lookup(m, "thread_id"@) is None ==> binding_of(JsonV::Object(m)) is None,
{
}

} // verus!
