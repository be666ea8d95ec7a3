//! The protocol of the Codex app server: what is sent, and what the replies mean.

use vstd::prelude::*;

use crate::agent::codex_app_server::events::{
    accumulated_is_what_was_delivered, are_events_of, delivered, ends_turn, fresh_mapper, mapped,
    mapped_all, mapper_after_a_series, MapperV, TurnEventMapper,
};
use crate::config::{normalize_codex_sandbox, sandbox_name, CodexAppServerConfig};
use crate::error::{ErrorV, GatewayError};
use crate::json::{
    dup_option, dup_or_null, elements_field, field, field2, object1, object2, object3, one_value,
    or_null, push_field, signed, text, text_array, text_field, text_field_or, texts_to_json,
    unsigned, Json, JsonV, NumberV,
};
use crate::strs::{
    concat2, joined, number_in, parse_number, pieces_of, same, split_at_first, split_char,
    split_once, texts, texts_push, trim, trimmed,
};
use crate::table::{pairs, with_entry, Table};
use crate::types::{is_assistant_text, response_completed_view, AgentEvent, EventV};

verus! {

/// The name under which the gateway introduces itself.
pub const CLIENT_NAME: &'static str = "im_channel_gateway";

/// The version that the gateway gives.
pub const CLIENT_VERSION: &'static str = "0.1.0";

/// A client of the app server.
pub struct CodexAppServerClient {
    pub cfg: CodexAppServerConfig,
    pub bearer_token: Option<String>,
}

impl CodexAppServerClient {
    /// A client with the token that its token file holds, where there is such a file and it is
    /// not blank.
    pub fn with_token(cfg: CodexAppServerConfig, token_text: Option<&str>) -> (r:
        CodexAppServerClient)
        ensures
            r.cfg == cfg,
            r.bearer_token.deep_view() == match token_text.deep_view() {
                Some(t) => if trimmed(t).len() == 0 {
                    None
                } else {
                    Some(trimmed(t))
                },
                None => None,
            },
    {
        let bearer_token: Option<String> = match token_text {
            Some(t) => {
                let t: &str = trim(t);
                if t.is_empty() {
                    None
                } else {
                    Some(t.to_owned())
                }
            },
            None => None,
        };
        CodexAppServerClient { cfg: cfg, bearer_token: bearer_token }
    }
}

// ---------------------------------------------------------------------------------------------
// Threads
// ---------------------------------------------------------------------------------------------

/// What the app server says of a thread.
#[derive(Debug, PartialEq, Eq)]
pub struct CodexThreadSummary {
    pub thread_id: String,
    pub session_id: String,
    pub name: String,
    pub preview: String,
    pub cwd: String,
    pub status: String,
    pub source: String,
    pub updated_at: i64,
}

/// What a summary holds.
#[verifier::ext_equal]
pub struct SummaryV {
    pub thread_id: Seq<char>,
    pub session_id: Seq<char>,
    pub name: Seq<char>,
    pub preview: Seq<char>,
    pub cwd: Seq<char>,
    pub status: Seq<char>,
    pub source: Seq<char>,
    pub updated_at: i64,
}

impl View for CodexThreadSummary {
    type V = SummaryV;

    open spec fn view(&self) -> SummaryV {
        SummaryV {
            thread_id: self.thread_id@,
            session_id: self.session_id@,
            name: self.name@,
            preview: self.preview@,
            cwd: self.cwd@,
            status: self.status@,
            source: self.source@,
            updated_at: self.updated_at,
        }
    }
}

impl DeepView for CodexThreadSummary {
    type V = SummaryV;

    open spec fn deep_view(&self) -> SummaryV {
        self@
    }
}

impl CodexThreadSummary {
    /// A copy of the summary.
    pub fn dup(&self) -> (r: CodexThreadSummary)
        ensures
            r@ == self@,
    {
        CodexThreadSummary {
            thread_id: self.thread_id.clone(),
            session_id: self.session_id.clone(),
            name: self.name.clone(),
            preview: self.preview.clone(),
            cwd: self.cwd.clone(),
            status: self.status.clone(),
            source: self.source.clone(),
            updated_at: self.updated_at,
        }
    }
}

/// What a value of a thread list says of a thread. A value without an id says nothing.
pub open spec fn summary_from(v: JsonV) -> Option<SummaryV> {
    match text_field(v, "id"@) {
        Some(id) => if trimmed(id).len() == 0 {
            None
        } else {
            Some(
                SummaryV {
                    thread_id: trimmed(id),
                    session_id: text_field_or(v, "sessionId"@, Seq::empty()),
                    name: trimmed(text_field_or(v, "name"@, Seq::empty())),
                    preview: trimmed(text_field_or(v, "preview"@, Seq::empty())),
                    cwd: text_field_or(v, "cwd"@, Seq::empty()),
                    status: match field2(v, "status"@, "type"@) {
                        Some(JsonV::Str(s)) => s,
                        _ => Seq::empty(),
                    },
                    source: source_of(v),
                    updated_at: match field(v, "updatedAt"@) {
                        Some(n) => match signed(n) {
                            Some(i) => i,
                            None => 0,
                        },
                        None => 0,
                    },
                },
            )
        },
        None => None,
    }
}

/// Where a thread came from.
pub open spec fn source_of(v: JsonV) -> Seq<char> {
    let kind = match field2(v, "source"@, "kind"@) {
        Some(k) => Some(k),
        None => field2(v, "threadSource"@, "kind"@),
    };
    match kind {
        Some(JsonV::Str(s)) => s,
        _ => Seq::empty(),
    }
}

fn text_or_empty(v: Option<&Json>) -> (r: String)
    ensures
        r@ == match v.deep_view() {
            Some(JsonV::Str(s)) => s,
            _ => Seq::empty(),
        },
{
    match v {
        Some(x) => match x.as_str() {
            Some(s) => s.to_owned(),
            None => String::new(),
        },
        None => String::new(),
    }
}

fn thread_summary_from_value(value: &Json) -> (r: Option<CodexThreadSummary>)
    ensures
        r.deep_view() == summary_from(value@),
{
    let id: &str = match value.get_str("id") {
        Some(id) => trim(id),
        None => {
            return None;
        },
    };
    if id.is_empty() {
        return None;
    }
    let name: String = value.get_string("name");
    let preview: String = value.get_string("preview");
    let kind: Option<&Json> = match value.get2("source", "kind") {
        Some(k) => Some(k),
        None => value.get2("threadSource", "kind"),
    };
    let updated_at: i64 = match value.get("updatedAt") {
        Some(n) => match n.as_i64() {
            Some(i) => i,
            None => 0,
        },
        None => 0,
    };
    Some(
        CodexThreadSummary {
            thread_id: id.to_owned(),
            session_id: value.get_string("sessionId"),
            name: trim(name.as_str()).to_owned(),
            preview: trim(preview.as_str()).to_owned(),
            cwd: value.get_string("cwd"),
            status: text_or_empty(value.get2("status", "type")),
            source: text_or_empty(kind),
            updated_at: updated_at,
        },
    )
}

/// What the values of a thread list say of threads.
pub open spec fn summaries_from(data: Seq<JsonV>) -> Seq<SummaryV>
    decreases data.len(),
{
    if data.len() == 0 {
        Seq::empty()
    } else {
        match summary_from(data.last()) {
            Some(s) => summaries_from(data.drop_last()).push(s),
            None => summaries_from(data.drop_last()),
        }
    }
}

/// The threads of a thread list.
pub fn parse_thread_list_response(result: &Json) -> (r: Result<
    Vec<CodexThreadSummary>,
    GatewayError,
>)
    ensures
        match r {
            Ok(threads) => elements_field(result@, "data"@) matches Some(data)
                && threads.deep_view() == summaries_from(data),
            Err(e) => elements_field(result@, "data"@) is None && e@ == ErrorV::Other(
                "thread/list missing data array"@,
            ),
        },
{
    let data: &Vec<Json> = match result.get_array("data") {
        Some(d) => d,
        None => {
            return Err(GatewayError::other("thread/list missing data array"));
        },
    };
    let ghost all = data.deep_view();
    let mut out: Vec<CodexThreadSummary> = Vec::new();
    let mut i: usize = 0;
    assert(all.take(0) == Seq::<JsonV>::empty());
    assert(out.deep_view() =~= Seq::<SummaryV>::empty());
    while i < data.len()
        invariant
            i <= data@.len(),
            all == data.deep_view(),
            out.deep_view() == summaries_from(all.take(i as int)),
        decreases data@.len() - i,
    {
        proof {
            assert(all.take(i + 1).drop_last() == all.take(i as int));
            assert(all.take(i + 1).last() == data@[i as int]@);
        }
        if let Some(s) = thread_summary_from_value(&data[i]) {
            let ghost before = out.deep_view();
            out.push(s);
            assert(out.deep_view() =~= before.push(s@));
        }
        i = i + 1;
    }
    assert(all.take(all.len() as int) == all);
    Ok(out)
}

/// A thread of which only the id is known: it is loaded.
pub open spec fn loaded_summary(id: Seq<char>) -> SummaryV {
    SummaryV {
        thread_id: id,
        session_id: Seq::empty(),
        name: Seq::empty(),
        preview: Seq::empty(),
        cwd: Seq::empty(),
        status: "loaded"@,
        source: Seq::empty(),
        updated_at: 0,
    }
}

/// The threads that a list of ids names.
pub open spec fn loaded_from(data: Seq<JsonV>) -> Seq<SummaryV>
    decreases data.len(),
{
    if data.len() == 0 {
        Seq::empty()
    } else {
        match text(data.last()) {
            Some(id) => if trimmed(id).len() > 0 {
                loaded_from(data.drop_last()).push(loaded_summary(trimmed(id)))
            } else {
                loaded_from(data.drop_last())
            },
            None => loaded_from(data.drop_last()),
        }
    }
}

/// The threads of a list of loaded threads.
pub fn parse_loaded_thread_list_response(result: &Json) -> (r: Result<
    Vec<CodexThreadSummary>,
    GatewayError,
>)
    ensures
        match r {
            Ok(threads) => elements_field(result@, "data"@) matches Some(data)
                && threads.deep_view() == loaded_from(data),
            Err(e) => elements_field(result@, "data"@) is None && e@ == ErrorV::Other(
                "thread/loaded/list missing data array"@,
            ),
        },
{
    let data: &Vec<Json> = match result.get_array("data") {
        Some(d) => d,
        None => {
            return Err(GatewayError::other("thread/loaded/list missing data array"));
        },
    };
    let ghost all = data.deep_view();
    let mut out: Vec<CodexThreadSummary> = Vec::new();
    let mut i: usize = 0;
    assert(all.take(0) == Seq::<JsonV>::empty());
    assert(out.deep_view() =~= Seq::<SummaryV>::empty());
    while i < data.len()
        invariant
            i <= data@.len(),
            all == data.deep_view(),
            out.deep_view() == loaded_from(all.take(i as int)),
        decreases data@.len() - i,
    {
        proof {
            assert(all.take(i + 1).drop_last() == all.take(i as int));
            assert(all.take(i + 1).last() == data@[i as int]@);
        }
        if let Some(id) = data[i].as_str() {
            let id: &str = trim(id);
            if !id.is_empty() {
                let ghost before = out.deep_view();
                out.push(
                    CodexThreadSummary {
                        thread_id: id.to_owned(),
                        session_id: String::new(),
                        name: String::new(),
                        preview: String::new(),
                        cwd: String::new(),
                        status: "loaded".to_owned(),
                        source: String::new(),
                        updated_at: 0,
                    },
                );
                assert(out.deep_view() =~= before.push(loaded_summary(id@)));
            }
        }
        i = i + 1;
    }
    assert(all.take(all.len() as int) == all);
    Ok(out)
}

/// The id of the thread that was started.
pub fn extract_thread_id(result: &Json) -> (r: Result<String, GatewayError>)
    ensures
        match r {
            Ok(id) => field2(result@, "thread"@, "id"@) == Some(JsonV::Str(id@)),
            Err(e) => !(field2(result@, "thread"@, "id"@) matches Some(JsonV::Str(_))) && e@
                == ErrorV::Other("thread/start missing thread.id"@),
        },
{
    match result.get2("thread", "id") {
        Some(v) => match v.as_str() {
            Some(s) => Ok(s.to_owned()),
            None => Err(GatewayError::other("thread/start missing thread.id")),
        },
        None => Err(GatewayError::other("thread/start missing thread.id")),
    }
}

/// The text of the last agent message among the items of a turn.
pub open spec fn last_agent_text(items: Seq<JsonV>) -> Seq<char>
    decreases items.len(),
{
    if items.len() == 0 {
        Seq::empty()
    } else {
        let t = text_field_or(items.last(), "text"@, Seq::empty());
        if text_field(items.last(), "type"@) == Some("agentMessage"@) && t.len() > 0 {
            t
        } else {
            last_agent_text(items.drop_last())
        }
    }
}

/// The text of the agent in the reply to `turn/start`.
pub open spec fn turn_agent_text(result: JsonV) -> Seq<char> {
    match field2(result, "turn"@, "items"@) {
        Some(JsonV::Array(items)) => last_agent_text(items),
        _ => Seq::empty(),
    }
}

/// The text of the agent in the reply to `turn/start`.
pub fn extract_turn_agent_text(result: &Json) -> (r: String)
    ensures
        r@ == turn_agent_text(result@),
{
    let items: &Vec<Json> = match result.get2("turn", "items") {
        Some(v) => match v.as_array() {
            Some(items) => items,
            None => {
                return String::new();
            },
        },
        None => {
            return String::new();
        },
    };
    let ghost all = items.deep_view();
    let mut j: usize = items.len();
    assert(all.take(j as int) == all);
    while j > 0
        invariant
            j <= items@.len(),
            all == items.deep_view(),
            turn_agent_text(result@) == last_agent_text(all),
            last_agent_text(all) == last_agent_text(all.take(j as int)),
        decreases j,
    {
        let item: &Json = &items[j - 1];
        proof {
            assert(all.take(j as int).last() == item@);
            assert(all.take(j as int).drop_last() == all.take(j - 1));
        }
        let is_message: bool = match item.get_str("type") {
            Some(t) => same(t, "agentMessage"),
            None => false,
        };
        let t: String = item.get_string("text");
        if is_message && !t.as_str().is_empty() {
            return t;
        }
        j = j - 1;
    }
    String::new()
}

// ---------------------------------------------------------------------------------------------
// What is sent
// ---------------------------------------------------------------------------------------------

/// The notifications that the gateway does not want.
pub open spec fn unwanted_notifications() -> Seq<Seq<char>> {
    seq![
        "remoteControl/status/changed"@,
        "thread/tokenUsage/updated"@,
        "hook/started"@,
        "hook/completed"@,
        "thread/status/changed"@,
    ]
}

/// The parameters with which a connection is opened.
pub open spec fn initialize_body() -> JsonV {
    JsonV::Object(
        seq![
            (
                "clientInfo"@,
                JsonV::Object(
                    seq![
                        ("name"@, JsonV::Str(CLIENT_NAME@)),
                        ("title"@, JsonV::Str("IM Channel Gateway"@)),
                        ("version"@, JsonV::Str(CLIENT_VERSION@)),
                    ],
                ),
            ),
            (
                "capabilities"@,
                JsonV::Object(
                    seq![("optOutNotificationMethods"@, text_array(unwanted_notifications()))],
                ),
            ),
        ],
    )
}

/// The parameters with which a connection is opened.
pub fn initialize_params() -> (r: Json)
    ensures
        r@ == initialize_body(),
{
    let info: Json = object3(
        "name",
        Json::text(CLIENT_NAME),
        "title",
        Json::text("IM Channel Gateway"),
        "version",
        Json::text(CLIENT_VERSION),
    );
    let mut unwanted: Vec<String> = Vec::new();
    unwanted.push("remoteControl/status/changed".to_owned());
    unwanted.push("thread/tokenUsage/updated".to_owned());
    unwanted.push("hook/started".to_owned());
    unwanted.push("hook/completed".to_owned());
    unwanted.push("thread/status/changed".to_owned());
    assert(texts(unwanted@) =~= unwanted_notifications());
    let caps: Json = object1("optOutNotificationMethods", texts_to_json(&unwanted));
    object2("clientInfo", info, "capabilities", caps)
}

/// The parameters with which a thread is started.
pub open spec fn thread_start_body(cfg: CodexAppServerConfig, cwd: Seq<char>) -> JsonV {
    let base = seq![
        ("model"@, JsonV::Str(cfg.model@)),
        ("approvalPolicy"@, JsonV::Str(cfg.approval_policy@)),
        ("sandbox"@, JsonV::Str(sandbox_name(cfg.sandbox@))),
        ("serviceName"@, JsonV::Str(CLIENT_NAME@)),
    ];
    JsonV::Object(
        if cwd.len() > 0 {
            base.push(("cwd"@, JsonV::Str(cwd)))
        } else {
            base
        },
    )
}

/// The parameters with which a thread is started.
pub fn thread_start_params(cfg: &CodexAppServerConfig, cwd: &str) -> (r: Json)
    ensures
        r@ == thread_start_body(*cfg, cwd@),
{
    let sandbox: String = normalize_codex_sandbox(cfg.sandbox.as_str());
    let mut m: Vec<(String, Json)> = Vec::new();
    push_field(&mut m, "model", Json::text(cfg.model.as_str()));
    push_field(&mut m, "approvalPolicy", Json::text(cfg.approval_policy.as_str()));
    push_field(&mut m, "sandbox", Json::text(sandbox.as_str()));
    push_field(&mut m, "serviceName", Json::text(CLIENT_NAME));
    if !cwd.is_empty() {
        push_field(&mut m, "cwd", Json::text(cwd));
    }
    assert(m.deep_view() =~= thread_start_body(*cfg, cwd@)->Object_0);
    Json::object(m)
}

/// The parameters with which a thread is named.
pub fn thread_set_name_params(thread_id: &str, name: &str) -> (r: Json)
    ensures
        r@ == JsonV::Object(
            seq![("threadId"@, JsonV::Str(thread_id@)), ("name"@, JsonV::Str(name@))],
        ),
{
    object2("threadId", Json::text(thread_id), "name", Json::text(name))
}

/// The parameters with which a thread is resumed.
pub fn thread_resume_params(thread_id: &str) -> (r: Json)
    ensures
        r@ == JsonV::Object(seq![("threadId"@, JsonV::Str(thread_id@))]),
{
    object1("threadId", Json::text(thread_id))
}

/// A limit brought into the range from 1 to 20.
pub open spec fn list_limit_of(limit: usize) -> u64 {
    if limit < 1 {
        1
    } else if limit > 20 {
        20
    } else {
        limit as u64
    }
}

fn clamp_limit(limit: usize) -> (r: u64)
    ensures
        r == list_limit_of(limit),
{
    if limit < 1 {
        1
    } else if limit > 20 {
        20
    } else {
        limit as u64
    }
}

/// The kinds of threads that are listed.
pub open spec fn listed_kinds() -> Seq<Seq<char>> {
    seq![
        "cli"@,
        "vscode"@,
        "exec"@,
        "appServer"@,
        "subAgent"@,
        "subAgentReview"@,
        "subAgentCompact"@,
        "subAgentThreadSpawn"@,
        "subAgentOther"@,
        "unknown"@,
    ]
}

/// The parameters with which threads are listed, the latest first.
pub open spec fn thread_list_body(limit: usize) -> JsonV {
    JsonV::Object(
        seq![
            ("limit"@, JsonV::Number(NumberV::Unsigned(list_limit_of(limit)))),
            ("sortKey"@, JsonV::Str("updated_at"@)),
            ("sortDirection"@, JsonV::Str("desc"@)),
            ("archived"@, JsonV::Bool(false)),
            ("sourceKinds"@, text_array(listed_kinds())),
        ],
    )
}

/// The parameters with which threads are listed.
pub fn thread_list_params(limit: usize) -> (r: Json)
    ensures
        r@ == thread_list_body(limit),
{
    let mut kinds: Vec<String> = Vec::new();
    kinds.push("cli".to_owned());
    kinds.push("vscode".to_owned());
    kinds.push("exec".to_owned());
    kinds.push("appServer".to_owned());
    kinds.push("subAgent".to_owned());
    kinds.push("subAgentReview".to_owned());
    kinds.push("subAgentCompact".to_owned());
    kinds.push("subAgentThreadSpawn".to_owned());
    kinds.push("subAgentOther".to_owned());
    kinds.push("unknown".to_owned());
    assert(texts(kinds@) =~= listed_kinds());
    let mut m: Vec<(String, Json)> = Vec::new();
    push_field(&mut m, "limit", Json::unsigned(clamp_limit(limit)));
    push_field(&mut m, "sortKey", Json::text("updated_at"));
    push_field(&mut m, "sortDirection", Json::text("desc"));
    push_field(&mut m, "archived", Json::Bool(false));
    push_field(&mut m, "sourceKinds", texts_to_json(&kinds));
    assert(m.deep_view() =~= thread_list_body(limit)->Object_0);
    Json::object(m)
}

/// The parameters with which loaded threads are listed.
pub fn thread_loaded_list_params(limit: usize) -> (r: Json)
    ensures
        r@ == JsonV::Object(
            seq![("limit"@, JsonV::Number(NumberV::Unsigned(list_limit_of(limit))))],
        ),
{
    object1("limit", Json::unsigned(clamp_limit(limit)))
}

/// The parameters with which a turn is started.
pub open spec fn turn_start_body(
    cfg: CodexAppServerConfig,
    thread_id: Seq<char>,
    prompt: Seq<char>,
) -> JsonV {
    let base = seq![
        ("threadId"@, JsonV::Str(thread_id)),
        (
            "input"@,
            JsonV::Array(
                seq![
                    JsonV::Object(
                        seq![("type"@, JsonV::Str("text"@)), ("text"@, JsonV::Str(prompt))],
                    ),
                ],
            ),
        ),
    ];
    JsonV::Object(
        if cfg.approval_policy@.len() > 0 {
            base.push(("approvalPolicy"@, JsonV::Str(cfg.approval_policy@)))
        } else {
            base
        },
    )
}

/// The parameters with which a turn is started.
pub fn turn_start_params(cfg: &CodexAppServerConfig, thread_id: &str, prompt: &str) -> (r: Json)
    ensures
        r@ == turn_start_body(*cfg, thread_id@, prompt@),
{
    let block: Json = object2("type", Json::text("text"), "text", Json::text(prompt));
    let mut m: Vec<(String, Json)> = Vec::new();
    push_field(&mut m, "threadId", Json::text(thread_id));
    push_field(&mut m, "input", Json::array(one_value(block)));
    if !cfg.approval_policy.as_str().is_empty() {
        push_field(&mut m, "approvalPolicy", Json::text(cfg.approval_policy.as_str()));
    }
    assert(m.deep_view() =~= turn_start_body(*cfg, thread_id@, prompt@)->Object_0);
    Json::object(m)
}

/// A request.
pub fn request_frame(method: &str, id: u64, params: Json) -> (r: Json)
    ensures
        r@ == JsonV::Object(
            seq![
                ("method"@, JsonV::Str(method@)),
                ("id"@, JsonV::Number(NumberV::Unsigned(id))),
                ("params"@, params@),
            ],
        ),
{
    object3("method", Json::text(method), "id", Json::unsigned(id), "params", params)
}

/// A notification.
pub fn notification_frame(method: &str, params: Json) -> (r: Json)
    ensures
        r@ == JsonV::Object(seq![("method"@, JsonV::Str(method@)), ("params"@, params@)]),
{
    object2("method", Json::text(method), "params", params)
}

/// The reply to a request of the server.
pub fn reply_frame(id: &Json, result: Json) -> (r: Json)
    ensures
        r@ == JsonV::Object(seq![("id"@, id@), ("result"@, result@)]),
{
    object2("id", id.dup(), "result", result)
}

// ---------------------------------------------------------------------------------------------
// What comes in
// ---------------------------------------------------------------------------------------------

/// Whether an id is the number `expected`, as a number or as its digits.
pub open spec fn id_is(id: JsonV, expected: u64) -> bool {
    match id {
        JsonV::Number(_) => unsigned(id) == Some(expected),
        JsonV::Str(s) => number_in(s, u64::MAX as nat) == Some(expected as nat),
        _ => false,
    }
}

fn json_id_matches(id_val: &Json, expected_id: u64) -> (r: bool)
    ensures
        r == id_is(id_val@, expected_id),
{
    match id_val {
        Json::Number(_) => match id_val.as_u64() {
            Some(n) => n == expected_id,
            None => false,
        },
        Json::Str(s) => match parse_number(s.as_str(), u64::MAX) {
            Some(n) => n == expected_id,
            None => false,
        },
        _ => false,
    }
}

/// Whether a frame is the reply to the request `id`.
pub open spec fn is_reply_to(msg: JsonV, id: u64) -> bool {
    match field(msg, "id"@) {
        Some(v) => (field(msg, "result"@) is Some || field(msg, "error"@) is Some) && id_is(v, id),
        None => false,
    }
}

/// Whether a frame is the reply to the request `expected_id`.
pub fn is_jsonrpc_response_for(msg: &Json, expected_id: u64) -> (r: bool)
    ensures
        r == is_reply_to(msg@, expected_id),
{
    match msg.get("id") {
        Some(v) => {
            if msg.get("result").is_none() && msg.get("error").is_none() {
                return false;
            }
            json_id_matches(v, expected_id)
        },
        None => false,
    }
}

/// A request of the server.
#[derive(Debug)]
pub struct ServerRequest {
    pub method: String,
    pub id: Json,
    pub params: Json,
}

/// What a request of the server holds.
#[verifier::ext_equal]
pub struct ServerRequestV {
    pub method: Seq<char>,
    pub id: JsonV,
    pub params: JsonV,
}

impl View for ServerRequest {
    type V = ServerRequestV;

    open spec fn view(&self) -> ServerRequestV {
        ServerRequestV { method: self.method@, id: self.id@, params: self.params@ }
    }
}

impl DeepView for ServerRequest {
    type V = ServerRequestV;

    open spec fn deep_view(&self) -> ServerRequestV {
        self@
    }
}

/// The kinds of requests that the server makes.
#[derive(Debug, Clone, Copy, PartialEq, Eq, Structural)]
pub enum RequestKind {
    Command,
    FileChange,
    Permissions,
    UserInput,
}

/// The kind of request that a method stands for.
pub open spec fn kind_of(method: Seq<char>) -> Option<RequestKind> {
    if method == "item/commandExecution/requestApproval"@ || method == "execCommandApproval"@ {
        Some(RequestKind::Command)
    } else if method == "item/fileChange/requestApproval"@ || method == "applyPatchApproval"@ {
        Some(RequestKind::FileChange)
    } else if method == "item/permissions/requestApproval"@ {
        Some(RequestKind::Permissions)
    } else if method == "item/tool/requestUserInput"@ {
        Some(RequestKind::UserInput)
    } else {
        None
    }
}

/// The kind of request that a method stands for.
pub fn request_kind(method: &str) -> (r: Option<RequestKind>)
    ensures
        r == kind_of(method@),
{
    if same(method, "item/commandExecution/requestApproval") || same(
        method,
        "execCommandApproval",
    ) {
        Some(RequestKind::Command)
    } else if same(method, "item/fileChange/requestApproval") || same(
        method,
        "applyPatchApproval",
    ) {
        Some(RequestKind::FileChange)
    } else if same(method, "item/permissions/requestApproval") {
        Some(RequestKind::Permissions)
    } else if same(method, "item/tool/requestUserInput") {
        Some(RequestKind::UserInput)
    } else {
        None
    }
}

/// The request that a frame is: it has a known method, an id and parameters, and is no reply.
pub open spec fn request_in(msg: JsonV) -> Option<ServerRequestV> {
    match (text_field(msg, "method"@), field(msg, "id"@), field(msg, "params"@)) {
        (Some(method), Some(id), Some(params)) => if field(msg, "result"@) is Some || field(
            msg,
            "error"@,
        ) is Some || kind_of(method) is None {
            None
        } else {
            Some(ServerRequestV { method: method, id: id, params: params })
        },
        _ => None,
    }
}

/// The request that a frame is.
pub fn server_request_from_msg(msg: &Json) -> (r: Option<ServerRequest>)
    ensures
        r.deep_view() == request_in(msg@),
{
    let method: &str = match msg.get_str("method") {
        Some(m) => m,
        None => {
            return None;
        },
    };
    match (msg.get("id"), msg.get("params")) {
        (Some(id), Some(params)) => {
            if msg.get("result").is_some() || msg.get("error").is_some() || request_kind(
                method,
            ).is_none() {
                return None;
            }
            Some(
                ServerRequest { method: method.to_owned(), id: id.dup(), params: params.dup() },
            )
        },
        _ => None,
    }
}

/// A decision.
pub open spec fn decision(d: Seq<char>) -> JsonV {
    JsonV::Object(seq![("decision"@, JsonV::Str(d))])
}

/// Answers.
pub open spec fn answers_body(a: JsonV) -> JsonV {
    JsonV::Object(seq![("answers"@, a)])
}

/// The reply that grants a request.
pub open spec fn accept_body(method: Seq<char>) -> Option<JsonV> {
    match kind_of(method) {
        Some(RequestKind::Command) | Some(RequestKind::FileChange) => Some(
            decision("acceptForSession"@),
        ),
        Some(RequestKind::Permissions) => Some(decision("accept"@)),
        Some(RequestKind::UserInput) => Some(answers_body(JsonV::Object(Seq::empty()))),
        None => None,
    }
}

/// The reply that refuses a request.
pub open spec fn deny_body(method: Seq<char>) -> Option<JsonV> {
    match kind_of(method) {
        Some(RequestKind::UserInput) => Some(answers_body(JsonV::Object(Seq::empty()))),
        Some(_) => Some(decision("reject"@)),
        None => None,
    }
}

fn empty_object() -> (r: Json)
    ensures
        r@ == JsonV::Object(Seq::empty()),
{
    let m: Vec<(String, Json)> = Vec::new();
    assert(m.deep_view() =~= Seq::<(Seq<char>, JsonV)>::empty());
    Json::object(m)
}

/// The reply that grants a request.
pub fn server_request_accept_result(method: &str) -> (r: Option<Json>)
    ensures
        r.deep_view() == accept_body(method@),
{
    match request_kind(method) {
        Some(RequestKind::Command) | Some(RequestKind::FileChange) => Some(
            object1("decision", Json::text("acceptForSession")),
        ),
        Some(RequestKind::Permissions) => Some(object1("decision", Json::text("accept"))),
        Some(RequestKind::UserInput) => Some(object1("answers", empty_object())),
        None => None,
    }
}

/// The reply that refuses a request.
pub fn server_request_deny_result(method: &str) -> (r: Option<Json>)
    ensures
        r.deep_view() == deny_body(method@),
{
    match request_kind(method) {
        Some(RequestKind::UserInput) => Some(object1("answers", empty_object())),
        Some(_) => Some(object1("decision", Json::text("reject"))),
        None => None,
    }
}

/// The questions of a request: under its own name, under its input or under its request.
pub open spec fn questions_of(params: JsonV) -> Option<JsonV> {
    match field(params, "questions"@) {
        Some(q) => Some(q),
        None => match field2(params, "input"@, "questions"@) {
            Some(q) => Some(q),
            None => field2(params, "request"@, "questions"@),
        },
    }
}

/// The ids of questions that have one.
pub open spec fn ids_of(questions: Seq<JsonV>) -> Seq<Seq<char>>
    decreases questions.len(),
{
    if questions.len() == 0 {
        Seq::empty()
    } else {
        let id = trimmed(text_field_or(questions.last(), "id"@, Seq::empty()));
        if text_field(questions.last(), "id"@) is Some && id.len() > 0 {
            ids_of(questions.drop_last()).push(id)
        } else {
            ids_of(questions.drop_last())
        }
    }
}

/// The ids of the questions of a request.
pub open spec fn question_ids(params: JsonV) -> Seq<Seq<char>> {
    match questions_of(params) {
        Some(JsonV::Array(qs)) => ids_of(qs),
        _ => Seq::empty(),
    }
}

/// The ids of the questions of a request.
pub fn server_request_question_ids(params: &Json) -> (r: Vec<String>)
    ensures
        texts(r@) == question_ids(params@),
{
    let mut out: Vec<String> = Vec::new();
    assert(texts(out@) =~= Seq::<Seq<char>>::empty());
    let found: Option<&Json> = match params.get("questions") {
        Some(q) => Some(q),
        None => match params.get2("input", "questions") {
            Some(q) => Some(q),
            None => params.get2("request", "questions"),
        },
    };
    let questions: &Vec<Json> = match found {
        Some(q) => match q.as_array() {
            Some(qs) => qs,
            None => {
                return out;
            },
        },
        None => {
            return out;
        },
    };
    let ghost all = questions.deep_view();
    let mut i: usize = 0;
    assert(all.take(0) == Seq::<JsonV>::empty());
    while i < questions.len()
        invariant
            i <= questions@.len(),
            all == questions.deep_view(),
            texts(out@) == ids_of(all.take(i as int)),
        decreases questions@.len() - i,
    {
        proof {
            assert(all.take(i + 1).drop_last() == all.take(i as int));
            assert(all.take(i + 1).last() == questions@[i as int]@);
        }
        if let Some(id) = questions[i].get_str("id") {
            let id: &str = trim(id);
            if !id.is_empty() {
                let ghost before = out@;
                let s: String = id.to_owned();
                out.push(s);
                proof {
                    texts_push(before, s);
                }
            }
        }
        i = i + 1;
    }
    assert(all.take(all.len() as int) == all);
    out
}

/// The answers that a text gives by name, as in `first=yes; second=no`. Where a name comes
/// twice, the last answer counts.
pub open spec fn answer_pairs(pieces: Seq<Seq<char>>) -> Seq<(Seq<char>, Seq<char>)>
    decreases pieces.len(),
{
    if pieces.len() == 0 {
        Seq::empty()
    } else {
        let before = answer_pairs(pieces.drop_last());
        match split_at_first(pieces.last(), "="@) {
            Some((k, v)) => if trimmed(k).len() > 0 {
                with_entry(before, trimmed(k), trimmed(v))
            } else {
                before
            },
            None => before,
        }
    }
}

fn parse_answer_pairs(text: &str) -> (r: Table<String>)
    ensures
        r.texts() == answer_pairs(pieces_of(text@, ';')),
{
    let parts: Vec<String> = split_char(text, ';');
    let ghost all = texts(parts@);
    let mut out: Table<String> = Table::new_texts();
    let mut i: usize = 0;
    assert(all.take(0) == Seq::<Seq<char>>::empty());
    while i < parts.len()
        invariant
            i <= parts@.len(),
            all == texts(parts@),
            out.texts() == answer_pairs(all.take(i as int)),
        decreases parts@.len() - i,
    {
        proof {
            assert(all.take(i + 1).drop_last() == all.take(i as int));
            assert(all.take(i + 1).last() == parts@[i as int]@);
        }
        if let Some((k, v)) = split_once(parts[i].as_str(), "=") {
            let k: &str = trim(k);
            if !k.is_empty() {
                out.put_text(k, trim(v));
            }
        }
        i = i + 1;
    }
    assert(all.take(all.len() as int) == all);
    out
}

/// An object of texts.
pub open spec fn text_object(m: Seq<(Seq<char>, Seq<char>)>) -> JsonV {
    JsonV::Object(m.map_values(|e: (Seq<char>, Seq<char>)| (e.0, JsonV::Str(e.1))))
}

fn table_to_json(t: &Table<String>) -> (r: Json)
    ensures
        r@ == text_object(t.texts()),
{
    let ghost all = t.texts();
    let ghost f = |e: (Seq<char>, Seq<char>)| (e.0, JsonV::Str(e.1));
    let mut m: Vec<(String, Json)> = Vec::new();
    let mut i: usize = 0;
    assert(m.deep_view() =~= all.take(0).map_values(f));
    let es: &Vec<(String, String)> = t.entries();
    while i < es.len()
        invariant
            i <= es@.len(),
            pairs(es@) == t@,
            all == t.texts(),
            f == |e: (Seq<char>, Seq<char>)| (e.0, JsonV::Str(e.1)),
            m.deep_view() == all.take(i as int).map_values(f),
        decreases es@.len() - i,
    {
        let e: &(String, String) = &es[i];
        assert(all[i as int] == (e.0@, e.1@));
        push_field(&mut m, e.0.as_str(), Json::text(e.1.as_str()));
        assert(m.deep_view() =~= all.take(i + 1).map_values(f));
        i = i + 1;
    }
    assert(all.take(all.len() as int) == all);
    Json::object(m)
}

/// The answers that a text gives to the questions of a request: the whole text to a single
/// question, else the answers by name, else the whole text as the response.
pub open spec fn user_answers(params: JsonV, t: Seq<char>) -> JsonV {
    let ids = question_ids(params);
    let pairs = answer_pairs(pieces_of(t, ';'));
    if ids.len() == 1 {
        JsonV::Object(seq![(ids[0], JsonV::Str(trimmed(t)))])
    } else if pairs.len() > 0 {
        text_object(pairs)
    } else {
        JsonV::Object(seq![("response"@, JsonV::Str(trimmed(t)))])
    }
}

/// The reply that answers a request with a text. Only a request for user input can be answered.
pub fn server_request_answer_result(method: &str, params: &Json, text: &str) -> (r: Option<Json>)
    ensures
        r.deep_view() == if kind_of(method@) == Some(RequestKind::UserInput) {
            Some(answers_body(user_answers(params@, text@)))
        } else {
            None
        },
{
    match request_kind(method) {
        Some(RequestKind::UserInput) => {},
        _ => {
            return None;
        },
    }
    let ids: Vec<String> = server_request_question_ids(params);
    assert(texts(ids@).len() == ids@.len());
    if ids.len() == 1 {
        assert(texts(ids@)[0] == ids@[0]@);
        let a: Json = object1(ids[0].as_str(), Json::text(trim(text)));
        return Some(object1("answers", a));
    }
    let pairs: Table<String> = parse_answer_pairs(text);
    if pairs.len() > 0 {
        return Some(object1("answers", table_to_json(&pairs)));
    }
    Some(object1("answers", object1("response", Json::text(trim(text)))))
}

// ---------------------------------------------------------------------------------------------
// Waiting for a reply
// ---------------------------------------------------------------------------------------------

/// What a frame means to a client that waits for a reply.
pub enum WaitStep {
    Failed(Json),
    Done(Json),
    Request(ServerRequest),
    Ignored,
}

/// What such a step holds.
#[verifier::ext_equal]
pub enum WaitV {
    Failed(JsonV),
    Done(JsonV),
    Request(ServerRequestV),
    Ignored,
}

impl View for WaitStep {
    type V = WaitV;

    open spec fn view(&self) -> WaitV {
        match self {
            WaitStep::Failed(e) => WaitV::Failed(e@),
            WaitStep::Done(v) => WaitV::Done(v@),
            WaitStep::Request(r) => WaitV::Request(r@),
            WaitStep::Ignored => WaitV::Ignored,
        }
    }
}

/// What a frame means to a client that waits for the reply to the request `id`.
pub open spec fn waited(msg: JsonV, id: u64) -> WaitV {
    if is_reply_to(msg, id) {
        match field(msg, "error"@) {
            Some(e) => WaitV::Failed(e),
            None => WaitV::Done(or_null(field(msg, "result"@))),
        }
    } else {
        match request_in(msg) {
            Some(r) => WaitV::Request(r),
            None => WaitV::Ignored,
        }
    }
}

/// What a frame means to a client that waits for the reply to the request `id`.
pub fn wait_step(msg: &Json, id: u64) -> (r: WaitStep)
    ensures
        r@ == waited(msg@, id),
{
    if is_jsonrpc_response_for(msg, id) {
        return match msg.get("error") {
            Some(e) => WaitStep::Failed(e.dup()),
            None => WaitStep::Done(dup_or_null(msg.get("result"))),
        };
    }
    match server_request_from_msg(msg) {
        Some(r) => WaitStep::Request(r),
        None => WaitStep::Ignored,
    }
}

/// The error of a request that failed, given the text form of what the server said.
pub fn rpc_error(err_text: &str) -> (r: GatewayError)
    ensures
        r@ == ErrorV::Other("codex rpc error: "@ + err_text@),
{
    GatewayError::Other(concat2("codex rpc error: ", err_text))
}

/// The error of a turn that could not start, given the text form of what the server said.
pub fn turn_start_error(err_text: &str) -> (r: GatewayError)
    ensures
        r@ == ErrorV::Other("codex turn/start error: "@ + err_text@),
{
    GatewayError::Other(concat2("codex turn/start error: ", err_text))
}

// ---------------------------------------------------------------------------------------------
// Collecting a turn
// ---------------------------------------------------------------------------------------------

/// A turn in progress.
pub struct TurnCollector {
    pub mapper: TurnEventMapper,
    pub turn_response: Option<Json>,
}

/// What a frame means to a turn.
pub enum TurnStep {
    Failed(Json),
    Acknowledged,
    Request(ServerRequest),
    Events { events: Vec<AgentEvent>, done: bool },
}

/// Whether a step is what a frame means to a turn with this mapper.
pub open spec fn is_turn_step(m: MapperV, msg: JsonV, turn_id: u64, step: TurnStep) -> bool {
    if is_reply_to(msg, turn_id) {
        match field(msg, "error"@) {
            Some(e) => step matches TurnStep::Failed(x) && x@ == e,
            None => step is Acknowledged,
        }
    } else {
        match request_in(msg) {
            Some(r) => step matches TurnStep::Request(x) && x@ == r,
            None => step matches TurnStep::Events { events, done } && are_events_of(
                m,
                msg,
                events.deep_view(),
            ) && done == mapped(m, msg).turn_done,
        }
    }
}

/// The mapper of a turn after a frame: replies and requests pass it by.
pub open spec fn turn_mapper_after(m: MapperV, msg: JsonV, turn_id: u64) -> MapperV {
    if is_reply_to(msg, turn_id) || request_in(msg) is Some {
        m
    } else {
        mapped(m, msg)
    }
}

/// The text of a turn: what was delivered, trimmed, or the text in the first reply.
pub open spec fn turn_text(m: MapperV, response: Option<JsonV>) -> Seq<char> {
    let t = trimmed(m.accumulated);
    if t.len() > 0 {
        t
    } else {
        match response {
            Some(r) => turn_agent_text(r),
            None => Seq::empty(),
        }
    }
}

impl TurnCollector {
    /// The turn before any frame.
    pub fn new() -> (r: TurnCollector)
        ensures
            r.mapper@ == fresh_mapper(),
            r.turn_response is None,
    {
        TurnCollector { mapper: TurnEventMapper::new(), turn_response: None }
    }

    /// Takes in a frame. The reply to the request that started the turn is not the end of it.
    pub fn on_frame(&mut self, msg: &Json, turn_id: u64) -> (r: TurnStep)
        ensures
            is_turn_step(old(self).mapper@, msg@, turn_id, r),
            final(self).mapper@ == turn_mapper_after(old(self).mapper@, msg@, turn_id),
            final(self).turn_response.deep_view() == if is_reply_to(msg@, turn_id) && field(
                msg@,
                "error"@,
            ) is None {
                field(msg@, "result"@)
            } else {
                old(self).turn_response.deep_view()
            },
    {
        if is_jsonrpc_response_for(msg, turn_id) {
            if let Some(e) = msg.get("error") {
                return TurnStep::Failed(e.dup());
            }
            self.turn_response = dup_option(msg.get("result"));
            return TurnStep::Acknowledged;
        }
        if let Some(r) = server_request_from_msg(msg) {
            return TurnStep::Request(r);
        }
        let events: Vec<AgentEvent> = self.mapper.push(msg);
        let done: bool = self.mapper.is_turn_done();
        TurnStep::Events { events: events, done: done }
    }

    /// The text of the turn, and the events that have to follow where none were delivered.
    pub fn finish(&self) -> (r: Result<(String, Vec<AgentEvent>), GatewayError>)
        ensures
            match r {
                Ok((text, events)) => {
                    &&& text@ == turn_text(self.mapper@, self.turn_response.deep_view())
                    &&& text@.len() > 0
                    &&& if self.mapper@.any_delivered || self.mapper@.accumulated.len() > 0 {
                        events.deep_view() == Seq::<EventV>::empty()
                    } else {
                        &&& events.deep_view().len() == 2
                        &&& is_assistant_text(events.deep_view()[0], text@)
                        &&& events.deep_view()[1] == response_completed_view()
                    }
                },
                Err(e) => turn_text(self.mapper@, self.turn_response.deep_view()).len() == 0 && e@
                    == ErrorV::Other("codex turn completed without agent text"@),
            },
    {
        let mut text: String = trim(self.mapper.accumulated.as_str()).to_owned();
        if text.as_str().is_empty() {
            if let Some(resp) = &self.turn_response {
                text = extract_turn_agent_text(resp);
            }
        }
        if text.as_str().is_empty() {
            return Err(GatewayError::other("codex turn completed without agent text"));
        }
        let mut events: Vec<AgentEvent> = Vec::new();
        if !self.mapper.emitted_any() {
            events.push(AgentEvent::assistant_text(text.as_str()));
            events.push(AgentEvent::response_completed());
        } else {
            assert(events.deep_view() =~= Seq::<EventV>::empty());
        }
        Ok((text, events))
    }
}

// ---------------------------------------------------------------------------------------------
// Laws
// ---------------------------------------------------------------------------------------------

/// The mapper of a turn after a series of frames.
pub open spec fn turn_mapper_after_all(msgs: Seq<JsonV>, turn_id: u64) -> MapperV
    decreases msgs.len(),
{
    if msgs.len() == 0 {
        fresh_mapper()
    } else {
        turn_mapper_after(turn_mapper_after_all(msgs.drop_last(), turn_id), msgs.last(), turn_id)
    }
}

/// Whatever replies and requests come between them, a turn goes by its notifications alone: it has
/// delivered the messages that they report complete, and it is done exactly once one of them reports
/// the turn complete. No reply ends it.
pub proof fn turn_goes_by_its_notifications(msgs: Seq<JsonV>, turn_id: u64)
    ensures
        turn_mapper_after_all(msgs, turn_id) == mapped_all(fresh_mapper(), msgs),
        turn_mapper_after_all(msgs, turn_id).accumulated == joined(delivered(msgs), "\n\n"@),
        turn_mapper_after_all(msgs, turn_id).any_delivered <==> delivered(msgs).len() > 0,
        turn_mapper_after_all(msgs, turn_id).turn_done <==> exists|i: int|
            0 <= i < msgs.len() && ends_turn(#[trigger] msgs[i]),
    decreases msgs.len(),
{
    if msgs.len() > 0 {
        turn_goes_by_its_notifications(msgs.drop_last(), turn_id);
    }
    accumulated_is_what_was_delivered(msgs);
    mapper_after_a_series(msgs, Seq::empty());
}

} // verus!
