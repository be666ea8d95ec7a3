//! Agents behind the Codex app server.

use vstd::prelude::*;

use crate::agent::codex_app_server::bindings::{BindingV, ThreadBinding};
use crate::agent::codex_app_server::client::{
    kind_of, list_limit_of, question_ids, request_kind, server_request_question_ids,
    CodexThreadSummary, RequestKind, ServerRequest, ServerRequestV, SummaryV,
};
use crate::agent::codex_app_server::router::prefix_or_slash;
use crate::json::{
    field, get_entry_bool_or, get_entry_str, scalar, scalar_text, text, text_of, truth_of_or, Json,
    JsonV,
};
use crate::strs::{
    concat2, concat3, decimal, i64_string, join, joined, same, signed_decimal, texts, texts_push,
    trim, trimmed, u64_string,
};
use crate::types::{ChannelRequest, RequestV};

pub mod backend;
pub mod bindings;
pub mod client;
pub mod events;
pub mod laws;
pub mod pending;
pub mod router;

verus! {

// ---------------------------------------------------------------------------------------------
// Texts
// ---------------------------------------------------------------------------------------------

/// A text, trimmed and cut to `max_chars` characters, with dots where it was cut.
pub open spec fn clipped(s: Seq<char>, max_chars: nat) -> Seq<char> {
    let t = trimmed(s);
    if t.len() <= max_chars {
        t
    } else {
        t.take(max_chars as int) + "..."@
    }
}

/// A text, trimmed and cut to `max_chars` characters.
pub fn preview_text(text: &str, max_chars: usize) -> (r: String)
    ensures
        r@ == clipped(text@, max_chars as nat),
{
    let t: &str = trim(text);
    if t.unicode_len() <= max_chars {
        return t.to_owned();
    }
    assert(t@.take(max_chars as int) == t@.subrange(0, max_chars as int));
    concat2(t.substring_char(0, max_chars), "...")
}

/// The form in which times are shown.
pub const TIME_FORMAT: &'static str = "%Y-%m-%d %H:%M:%S";

/// The offset from UTC, in seconds, of the times that are shown.
pub const TIME_OFFSET: i32 = 28800;

/// What `chrono` shows for a number of seconds since the epoch, at an offset from UTC and in a
/// form; `None` for a time that it cannot represent.
pub uninterp spec fn time_text(epoch_secs: int, offset_secs: int, format: Seq<char>) -> Option<
    Seq<char>,
>;

/// `chrono::DateTime::from_timestamp`, moved to a fixed offset from UTC and formatted. The
/// calendar is left to that library: the result is only named.
#[verifier::external_body]
fn format_time(epoch_secs: i64, offset_secs: i32, format: &str) -> (r: Option<String>)
    requires
        -86_400 < offset_secs < 86_400,
        format@ == TIME_FORMAT@,
    ensures
        r.deep_view() == time_text(epoch_secs as int, offset_secs as int, format@),
{
    let utc = chrono::DateTime::from_timestamp(epoch_secs, 0)?;
    let offset = chrono::FixedOffset::east_opt(offset_secs)?;
    Some(utc.with_timezone(&offset).format(format).to_string())
}

/// A time as it is shown, given what the calendar says of it: the bare number where the calendar
/// says nothing.
pub open spec fn time_or_number(shown: Option<Seq<char>>, epoch_secs: i64) -> Seq<char> {
    match shown {
        Some(t) => t,
        None => signed_decimal(epoch_secs as int),
    }
}

/// A time as it is shown, given what the calendar says of it.
pub fn shown_time(shown: Option<String>, epoch_secs: i64) -> (r: String)
    ensures
        r@ == time_or_number(shown.deep_view(), epoch_secs),
{
    match shown {
        Some(t) => t,
        None => i64_string(epoch_secs),
    }
}

/// A time as it is shown.
pub open spec fn updated_at_text(epoch_secs: i64) -> Seq<char> {
    time_or_number(
        time_text(epoch_secs as int, TIME_OFFSET as int, TIME_FORMAT@),
        epoch_secs,
    )
}

/// A time as it is shown.
pub fn format_updated_at(epoch_secs: i64) -> (r: String)
    ensures
        r@ == updated_at_text(epoch_secs),
{
    let shown: Option<String> = format_time(epoch_secs, TIME_OFFSET, TIME_FORMAT);
    shown_time(shown, epoch_secs)
}

/// A line with a label, where there is something to say.
pub open spec fn labelled(label: Seq<char>, value: Seq<char>) -> Seq<Seq<char>> {
    if value.len() > 0 {
        seq![label + value]
    } else {
        Seq::empty()
    }
}

fn push_line(ls: &mut Vec<String>, line: String)
    ensures
        texts(final(ls)@) == texts(old(ls)@) + seq![line@],
{
    ls.push(line);
    assert(texts(ls@) =~= texts(old(ls)@) + seq![line@]);
}

fn push_lines(ls: &mut Vec<String>, more: Vec<String>)
    ensures
        texts(final(ls)@) == texts(old(ls)@) + texts(more@),
{
    let mut more: Vec<String> = more;
    let ghost added = more@;
    ls.append(&mut more);
    assert(texts(ls@) =~= texts(old(ls)@) + texts(added));
}

fn push_labelled(ls: &mut Vec<String>, label: &str, value: &str)
    ensures
        texts(final(ls)@) == texts(old(ls)@) + labelled(label@, value@),
{
    if !value.is_empty() {
        push_line(ls, concat2(label, value));
    } else {
        assert(texts(ls@) + labelled(label@, value@) =~= texts(ls@));
    }
}

// ---------------------------------------------------------------------------------------------
// Lists of threads
// ---------------------------------------------------------------------------------------------

/// The lines about the thread at position `idx`.
pub open spec fn thread_lines(idx: int, t: SummaryV) -> Seq<Seq<char>> {
    let gap = if idx > 0 {
        seq![Seq::<char>::empty()]
    } else {
        Seq::empty()
    };
    let title = clipped(
        if t.name.len() == 0 {
            t.preview
        } else {
            t.name
        },
        80,
    );
    let updated = if t.updated_at > 0 {
        seq!["   updated_at: "@ + updated_at_text(t.updated_at)]
    } else {
        Seq::empty()
    };
    gap + seq![decimal((idx + 1) as nat) + ". "@ + t.thread_id] + labelled("   title: "@, title)
        + labelled("   cwd: "@, t.cwd) + labelled("   session_id: "@, t.session_id) + labelled(
        "   status: "@,
        t.status,
    ) + labelled("   source: "@, t.source) + updated
}

/// The lines about all threads.
pub open spec fn all_thread_lines(threads: Seq<SummaryV>) -> Seq<Seq<char>>
    decreases threads.len(),
{
    if threads.len() == 0 {
        Seq::empty()
    } else {
        all_thread_lines(threads.drop_last()) + thread_lines(threads.len() - 1, threads.last())
    }
}

/// The list of threads as it is shown.
pub open spec fn thread_list_text(
    command_prefix: Seq<char>,
    threads: Seq<SummaryV>,
    loaded_only: bool,
) -> Seq<char> {
    let p = prefix_or_slash(command_prefix);
    if threads.len() == 0 {
        if loaded_only {
            "No loaded Codex threads found on app-server."@
        } else {
            "No Codex threads found on app-server."@
        }
    } else {
        let head = seq![
            if loaded_only {
                "Loaded Codex threads:"@
            } else {
                "Recent Codex threads:"@
            },
        ];
        let tail = seq![
            Seq::<char>::empty(),
            "Bind one with `"@ + p + "bind <number>`, for example `"@ + p + "bind 1`."@,
            "You can still bind an explicit id with `"@ + p + "bind <threadId>`."@,
        ];
        joined(head + all_thread_lines(threads) + tail, "\n"@)
    }
}

fn lines_of_thread(idx: usize, t: &CodexThreadSummary) -> (r: Vec<String>)
    requires
        idx < usize::MAX,
    ensures
        texts(r@) == thread_lines(idx as int, t@),
{
    let mut ls: Vec<String> = Vec::new();
    if idx > 0 {
        ls.push(String::new());
        assert(texts(ls@) =~= seq![Seq::<char>::empty()]);
    } else {
        assert(texts(ls@) =~= Seq::<Seq<char>>::empty());
    }
    let number: String = u64_string((idx + 1) as u64);
    push_line(&mut ls, concat3(number.as_str(), ". ", t.thread_id.as_str()));
    let title: String = if t.name.as_str().is_empty() {
        preview_text(t.preview.as_str(), 80)
    } else {
        preview_text(t.name.as_str(), 80)
    };
    push_labelled(&mut ls, "   title: ", title.as_str());
    push_labelled(&mut ls, "   cwd: ", t.cwd.as_str());
    push_labelled(&mut ls, "   session_id: ", t.session_id.as_str());
    push_labelled(&mut ls, "   status: ", t.status.as_str());
    push_labelled(&mut ls, "   source: ", t.source.as_str());
    if t.updated_at > 0 {
        let time: String = format_updated_at(t.updated_at);
        push_line(&mut ls, concat2("   updated_at: ", time.as_str()));
    } else {
        assert(texts(ls@) + Seq::<Seq<char>>::empty() =~= texts(ls@));
    }
    ls
}

/// The list of threads as it is shown.
pub fn format_thread_list(
    command_prefix: &str,
    threads: &Vec<CodexThreadSummary>,
    loaded_only: bool,
) -> (r: String)
    ensures
        r@ == thread_list_text(command_prefix@, threads.deep_view(), loaded_only),
{
    let p: &str = if command_prefix.is_empty() {
        "/"
    } else {
        command_prefix
    };
    if threads.len() == 0 {
        return if loaded_only {
            "No loaded Codex threads found on app-server.".to_owned()
        } else {
            "No Codex threads found on app-server.".to_owned()
        };
    }
    let ghost all = threads.deep_view();
    let mut ls: Vec<String> = Vec::new();
    let head: String = if loaded_only {
        "Loaded Codex threads:".to_owned()
    } else {
        "Recent Codex threads:".to_owned()
    };
    let ghost first = seq![head@];
    ls.push(head);
    assert(all.take(0) == Seq::<SummaryV>::empty());
    assert(texts(ls@) =~= first + all_thread_lines(all.take(0)));
    let mut i: usize = 0;
    while i < threads.len()
        invariant
            i <= threads@.len(),
            all == threads.deep_view(),
            texts(ls@) == first + all_thread_lines(all.take(i as int)),
        decreases threads@.len() - i,
    {
        proof {
            assert(all.take(i + 1).drop_last() == all.take(i as int));
            assert(all.take(i + 1).last() == threads@[i as int]@);
        }
        push_lines(&mut ls, lines_of_thread(i, &threads[i]));
        assert(texts(ls@) =~= first + all_thread_lines(all.take(i + 1)));
        i = i + 1;
    }
    assert(all.take(all.len() as int) == all);
    let mut tail: Vec<String> = Vec::new();
    tail.push(String::new());
    let mut bind: String = concat3("Bind one with `", p, "bind <number>`, for example `");
    bind.append(p);
    bind.append("bind 1`.");
    tail.push(bind);
    tail.push(concat3("You can still bind an explicit id with `", p, "bind <threadId>`."));
    assert(texts(tail@) =~= seq![
        Seq::<char>::empty(),
        "Bind one with `"@ + p@ + "bind <number>`, for example `"@ + p@ + "bind 1`."@,
        "You can still bind an explicit id with `"@ + p@ + "bind <threadId>`."@,
    ]);
    push_lines(&mut ls, tail);
    join(&ls, "\n")
}

/// Whether a list holds a thread with this id.
pub open spec fn lists_thread(threads: Seq<SummaryV>, id: Seq<char>) -> bool {
    exists|i: int| 0 <= i < threads.len() && (#[trigger] threads[i]).thread_id == id
}

/// The list with the loaded threads that it lacks, in order, up to `limit` threads.
pub open spec fn merged(threads: Seq<SummaryV>, loaded: Seq<SummaryV>, limit: nat) -> Seq<SummaryV>
    decreases loaded.len(),
{
    if loaded.len() == 0 || threads.len() >= limit {
        threads
    } else if lists_thread(threads, loaded[0].thread_id) {
        merged(threads, loaded.drop_first(), limit)
    } else {
        merged(threads.push(loaded[0]), loaded.drop_first(), limit)
    }
}

fn has_thread(threads: &Vec<CodexThreadSummary>, id: &str) -> (r: bool)
    ensures
        r == lists_thread(threads.deep_view(), id@),
{
    let ghost all = threads.deep_view();
    let mut i: usize = 0;
    while i < threads.len()
        invariant
            i <= threads@.len(),
            all == threads.deep_view(),
            forall|k: int| 0 <= k < i ==> (#[trigger] all[k]).thread_id != id@,
        decreases threads@.len() - i,
    {
        assert(all[i as int] == threads@[i as int]@);
        if same(threads[i].thread_id.as_str(), id) {
            return true;
        }
        i = i + 1;
    }
    false
}

/// Adds the loaded threads that a list lacks, up to `limit` threads.
pub fn merge_loaded_threads(
    threads: &mut Vec<CodexThreadSummary>,
    loaded: &Vec<CodexThreadSummary>,
    limit: usize,
)
    ensures
        final(threads).deep_view() == merged(
            old(threads).deep_view(),
            loaded.deep_view(),
            list_limit_of(limit) as nat,
        ),
{
    let most: usize = if limit < 1 {
        1
    } else if limit > 20 {
        20
    } else {
        limit
    };
    let ghost all = loaded.deep_view();
    let ghost start = threads.deep_view();
    let mut i: usize = 0;
    assert(all.skip(0) == all);
    while i < loaded.len()
        invariant
            i <= loaded@.len(),
            all == loaded.deep_view(),
            start == old(threads).deep_view(),
            most == list_limit_of(limit),
            merged(start, all, most as nat) == merged(
                threads.deep_view(),
                all.skip(i as int),
                most as nat,
            ),
        decreases loaded@.len() - i,
    {
        if threads.len() >= most {
            return;
        }
        let ghost now = threads.deep_view();
        proof {
            assert(all.skip(i as int)[0] == loaded@[i as int]@);
            assert(all.skip(i as int).drop_first() == all.skip(i + 1));
        }
        if !has_thread(threads, loaded[i].thread_id.as_str()) {
            threads.push(loaded[i].dup());
            assert(threads.deep_view() =~= now.push(loaded@[i as int]@));
        }
        i = i + 1;
    }
}

/// Merging keeps what is listed, lists no thread twice that was not, and keeps to the limit.
pub proof fn merging_extends(threads: Seq<SummaryV>, loaded: Seq<SummaryV>, limit: nat)
    ensures
        threads.len() <= merged(threads, loaded, limit).len(),
        merged(threads, loaded, limit).take(threads.len() as int) == threads,
        threads.len() <= limit ==> merged(threads, loaded, limit).len() <= limit,
        (forall|i: int, j: int|
            0 <= i < j < threads.len() ==> (#[trigger] threads[i]).thread_id != (
            #[trigger] threads[j]).thread_id) ==> (forall|i: int, j: int|
            0 <= i < j < merged(threads, loaded, limit).len() ==> (#[trigger] merged(
                threads,
                loaded,
                limit,
            )[i]).thread_id != (#[trigger] merged(threads, loaded, limit)[j]).thread_id),
    decreases loaded.len(),
{
    if loaded.len() == 0 || threads.len() >= limit {
        assert(threads.take(threads.len() as int) == threads);
    } else if lists_thread(threads, loaded[0].thread_id) {
        merging_extends(threads, loaded.drop_first(), limit);
    } else {
        let more = threads.push(loaded[0]);
        merging_extends(more, loaded.drop_first(), limit);
        let m = merged(threads, loaded, limit);
        assert(m.take(threads.len() as int) =~= m.take(more.len() as int).take(
            threads.len() as int,
        ));
        assert(more.take(threads.len() as int) == threads);
        if forall|i: int, j: int|
            0 <= i < j < threads.len() ==> (#[trigger] threads[i]).thread_id != (
            #[trigger] threads[j]).thread_id {
            assert forall|i: int, j: int| 0 <= i < j < more.len() implies (
            #[trigger] more[i]).thread_id != (#[trigger] more[j]).thread_id by {
                assert(more[i] == threads[i]);
                if j < threads.len() {
                    assert(more[j] == threads[j]);
                }
            }
        }
    }
}

// ---------------------------------------------------------------------------------------------
// Questions to the chat
// ---------------------------------------------------------------------------------------------

/// What a request of the server is about.
pub open spec fn request_title(method: Seq<char>) -> Seq<char> {
    match kind_of(method) {
        Some(RequestKind::Command) => "command execution"@,
        Some(RequestKind::FileChange) => "file change"@,
        Some(RequestKind::Permissions) => "permission request"@,
        Some(RequestKind::UserInput) => "user input"@,
        None => "server request"@,
    }
}

fn server_request_title(method: &str) -> (r: &'static str)
    ensures
        r@ == request_title(method@),
{
    match request_kind(method) {
        Some(RequestKind::Command) => "command execution",
        Some(RequestKind::FileChange) => "file change",
        Some(RequestKind::Permissions) => "permission request",
        Some(RequestKind::UserInput) => "user input",
        None => "server request",
    }
}

/// The strings among values.
pub open spec fn strings_in(items: Seq<JsonV>) -> Seq<Seq<char>>
    decreases items.len(),
{
    if items.len() == 0 {
        Seq::empty()
    } else {
        match text(items.last()) {
            Some(s) => strings_in(items.drop_last()).push(s),
            None => strings_in(items.drop_last()),
        }
    }
}

/// A parameter as text: a string, the strings of an array, a number or a boolean.
pub open spec fn param_text(v: JsonV) -> Option<Seq<char>> {
    match v {
        JsonV::Str(s) => Some(s),
        JsonV::Array(items) => Some(joined(strings_in(items), " "@)),
        _ => scalar(v),
    }
}

/// A parameter as it is shown; the empty text where there is nothing to show.
pub open spec fn param_shown(params: JsonV, key: Seq<char>) -> Seq<char> {
    match field(params, key) {
        Some(v) => match param_text(v) {
            Some(t) => if trimmed(t).len() == 0 {
                Seq::empty()
            } else {
                clipped(trimmed(t), 300)
            },
            None => Seq::empty(),
        },
        None => Seq::empty(),
    }
}

fn collect_strings(items: &Vec<Json>) -> (r: Vec<String>)
    ensures
        texts(r@) == strings_in(items.deep_view()),
{
    let ghost all = items.deep_view();
    let mut out: Vec<String> = Vec::new();
    let mut i: usize = 0;
    assert(all.take(0) == Seq::<JsonV>::empty());
    assert(texts(out@) =~= Seq::<Seq<char>>::empty());
    while i < items.len()
        invariant
            i <= items@.len(),
            all == items.deep_view(),
            texts(out@) == strings_in(all.take(i as int)),
        decreases items@.len() - i,
    {
        proof {
            assert(all.take(i + 1).drop_last() == all.take(i as int));
            assert(all.take(i + 1).last() == items@[i as int]@);
        }
        if let Some(s) = items[i].as_str() {
            let ghost before = out@;
            let owned: String = s.to_owned();
            out.push(owned);
            proof {
                texts_push(before, owned);
            }
        }
        i = i + 1;
    }
    assert(all.take(all.len() as int) == all);
    out
}

fn request_param_preview(params: &Json, key: &str) -> (r: String)
    ensures
        r@ == param_shown(params@, key@),
{
    let v: &Json = match params.get(key) {
        Some(v) => v,
        None => {
            return String::new();
        },
    };
    let t: Option<String> = match v.as_str() {
        Some(s) => Some(s.to_owned()),
        None => match v.as_array() {
            Some(items) => {
                let ss: Vec<String> = collect_strings(items);
                Some(join(&ss, " "))
            },
            None => scalar_text(v),
        },
    };
    match t {
        Some(t) => {
            let t: &str = trim(t.as_str());
            if t.is_empty() {
                String::new()
            } else {
                preview_text(t, 300)
            }
        },
        None => String::new(),
    }
}

/// The lines about the parameters that are worth showing.
pub open spec fn param_lines(params: JsonV) -> Seq<Seq<char>> {
    labelled("  command: "@, param_shown(params, "command"@)) + labelled(
        "  cwd: "@,
        param_shown(params, "cwd"@),
    ) + labelled("  reason: "@, param_shown(params, "reason"@)) + labelled(
        "  description: "@,
        param_shown(params, "description"@),
    ) + labelled("  toolName: "@, param_shown(params, "toolName"@)) + labelled(
        "  tool_name: "@,
        param_shown(params, "tool_name"@),
    )
}

/// The question that a request of the server puts to the chat, given the text form of its
/// parameters.
pub open spec fn request_prompt_lines(
    request_id: Seq<char>,
    request: ServerRequestV,
    params_text: Seq<char>,
) -> Seq<Seq<char>> {
    let head = seq![
        "Codex is waiting for IM confirmation: "@ + request_title(request.method),
        "  request_id: "@ + request_id,
        "  method: "@ + request.method,
    ];
    let ids = question_ids(request.params);
    let questions = if ids.len() > 0 {
        seq!["  question_ids: "@ + joined(ids, ", "@)]
    } else {
        Seq::empty()
    };
    let rest = seq!["  params: "@ + clipped(params_text, 600), Seq::empty()];
    head + param_lines(request.params) + questions + rest + how_to_reply(
        request_id,
        request.method,
    )
}

fn param_line_list(params: &Json) -> (r: Vec<String>)
    ensures
        texts(r@) == param_lines(params@),
{
    let mut ls: Vec<String> = Vec::new();
    assert(texts(ls@) + labelled("  command: "@, param_shown(params@, "command"@)) =~= labelled(
        "  command: "@,
        param_shown(params@, "command"@),
    ));
    push_labelled(&mut ls, "  command: ", request_param_preview(params, "command").as_str());
    push_labelled(&mut ls, "  cwd: ", request_param_preview(params, "cwd").as_str());
    push_labelled(&mut ls, "  reason: ", request_param_preview(params, "reason").as_str());
    push_labelled(
        &mut ls,
        "  description: ",
        request_param_preview(params, "description").as_str(),
    );
    push_labelled(&mut ls, "  toolName: ", request_param_preview(params, "toolName").as_str());
    push_labelled(&mut ls, "  tool_name: ", request_param_preview(params, "tool_name").as_str());
    ls
}

/// How to reply to a request.
pub open spec fn how_to_reply(request_id: Seq<char>, method: Seq<char>) -> Seq<Seq<char>> {
    if kind_of(method) == Some(RequestKind::UserInput) {
        seq![
            "Reply with `/answer "@ + request_id + " <answer>` to continue."@,
            "For multiple questions: `/answer "@ + request_id + " id1=value; id2=value`."@,
            "Use `/approve "@ + request_id + "` to submit empty/default answers, or `/deny "@
                + request_id + "` to skip."@,
        ]
    } else {
        seq![
            "Reply with `/approve "@ + request_id + "` to allow, or `/deny "@ + request_id
                + "` to reject."@,
        ]
    }
}

fn reply_instructions(request_id: &str, method: &str) -> (r: Vec<String>)
    ensures
        texts(r@) == how_to_reply(request_id@, method@),
{
    let mut ls: Vec<String> = Vec::new();
    let is_input: bool = match request_kind(method) {
        Some(RequestKind::UserInput) => true,
        _ => false,
    };
    if is_input {
        ls.push(concat3("Reply with `/answer ", request_id, " <answer>` to continue."));
        ls.push(
            concat3(
                "For multiple questions: `/answer ",
                request_id,
                " id1=value; id2=value`.",
            ),
        );
        let mut line: String = concat3(
            "Use `/approve ",
            request_id,
            "` to submit empty/default answers, or `/deny ",
        );
        line.append(request_id);
        line.append("` to skip.");
        ls.push(line);
    } else {
        let mut line: String = concat3("Reply with `/approve ", request_id, "` to allow, or `/deny ");
        line.append(request_id);
        line.append("` to reject.");
        ls.push(line);
    }
    assert(texts(ls@) =~= how_to_reply(request_id@, method@));
    ls
}

/// The question that a request of the server puts to the chat, given the text form of its
/// parameters.
pub fn format_server_request_prompt(request_id: &str, request: &ServerRequest, params_text: &str)
    -> (r: String)
    ensures
        r@ == joined(request_prompt_lines(request_id@, request@, params_text@), "\n"@),
{
    let mut ls: Vec<String> = Vec::new();
    ls.push(
        concat2(
            "Codex is waiting for IM confirmation: ",
            server_request_title(request.method.as_str()),
        ),
    );
    ls.push(concat2("  request_id: ", request_id));
    ls.push(concat2("  method: ", request.method.as_str()));
    assert(texts(ls@) =~= seq![
        "Codex is waiting for IM confirmation: "@ + request_title(request@.method),
        "  request_id: "@ + request_id@,
        "  method: "@ + request@.method,
    ]);
    push_lines(&mut ls, param_line_list(&request.params));
    let ids: Vec<String> = server_request_question_ids(&request.params);
    assert(texts(ids@).len() == ids@.len());
    if ids.len() > 0 {
        let names: String = join(&ids, ", ");
        push_line(&mut ls, concat2("  question_ids: ", names.as_str()));
    } else {
        assert(texts(ls@) + Seq::<Seq<char>>::empty() =~= texts(ls@));
    }
    let shown: String = preview_text(params_text, 600);
    let mut rest: Vec<String> = Vec::new();
    rest.push(concat2("  params: ", shown.as_str()));
    rest.push(String::new());
    assert(texts(rest@) =~= seq!["  params: "@ + clipped(params_text@, 600), Seq::empty()]);
    push_lines(&mut ls, rest);
    push_lines(&mut ls, reply_instructions(request_id, request.method.as_str()));
    join(&ls, "\n")
}

// ---------------------------------------------------------------------------------------------
// Sessions
// ---------------------------------------------------------------------------------------------

/// A directory as it is shown.
pub open spec fn cwd_shown(cwd: Seq<char>) -> Seq<char> {
    if cwd.len() == 0 {
        "(default)"@
    } else {
        cwd
    }
}

fn show_cwd<'a>(cwd: &'a str) -> (r: &'a str)
    ensures
        r@ == cwd_shown(cwd@),
{
    if cwd.is_empty() {
        "(default)"
    } else {
        cwd
    }
}

/// The lines that describe a session and its binding.
pub open spec fn session_lines(
    command_prefix: Seq<char>,
    binding: Option<BindingV>,
    r: RequestV,
) -> Seq<Seq<char>> {
    let p = prefix_or_slash(command_prefix);
    let group_id = match text_of(r.meta, "group_id"@) {
        Some(g) => g,
        None => Seq::empty(),
    };
    let from = match text_of(r.meta, "from_user_id"@) {
        Some(f) => if f == r.user_id {
            Seq::empty()
        } else {
            f
        },
        None => Seq::empty(),
    };
    let head = seq![
        "IM session:"@,
        "  channel: "@ + r.channel,
        "  session_id: "@ + r.session_id,
        "  user_id: "@ + r.user_id,
        "  is_group: "@ + if truth_of_or(r.meta, "is_group"@, false) {
            "true"@
        } else {
            "false"@
        },
    ];
    let bound = match binding {
        Some(b) => seq!["  thread_id: "@ + b.thread_id, "  cwd: "@ + cwd_shown(b.cwd)],
        None => seq!["  thread_id: (none)"@, "  cwd: (none)"@],
    };
    head + labelled("  group_id: "@, group_id) + labelled("  from_user_id: "@, from) + seq![
        "Codex binding:"@,
    ] + bound + seq![
        "Binding key:"@,
        "  "@ + r.session_id,
        "Bind command:"@,
        "  "@ + p + "threads"@,
        "  "@ + p + "bind <threadId|number>"@,
    ]
}

/// What is shown of a session and its binding.
pub fn format_session_info(
    command_prefix: &str,
    binding: Option<ThreadBinding>,
    request: &ChannelRequest,
) -> (r: String)
    ensures
        r@ == joined(session_lines(command_prefix@, binding.deep_view(), request@), "\n"@),
{
    let p: &str = if command_prefix.is_empty() {
        "/"
    } else {
        command_prefix
    };
    let is_group: &str = if get_entry_bool_or(&request.meta, "is_group", false) {
        "true"
    } else {
        "false"
    };
    let group_id: String = match get_entry_str(&request.meta, "group_id") {
        Some(g) => g.to_owned(),
        None => String::new(),
    };
    let from: String = match get_entry_str(&request.meta, "from_user_id") {
        Some(f) => if same(f, request.user_id.as_str()) {
            String::new()
        } else {
            f.to_owned()
        },
        None => String::new(),
    };
    let mut ls: Vec<String> = Vec::new();
    ls.push("IM session:".to_owned());
    ls.push(concat2("  channel: ", request.channel.as_str()));
    ls.push(concat2("  session_id: ", request.session_id.as_str()));
    ls.push(concat2("  user_id: ", request.user_id.as_str()));
    ls.push(concat2("  is_group: ", is_group));
    assert(texts(ls@) =~= seq![
        "IM session:"@,
        "  channel: "@ + request@.channel,
        "  session_id: "@ + request@.session_id,
        "  user_id: "@ + request@.user_id,
        "  is_group: "@ + is_group@,
    ]);
    push_labelled(&mut ls, "  group_id: ", group_id.as_str());
    push_labelled(&mut ls, "  from_user_id: ", from.as_str());
    push_line(&mut ls, "Codex binding:".to_owned());
    let mut bound: Vec<String> = Vec::new();
    match &binding {
        Some(b) => {
            bound.push(concat2("  thread_id: ", b.thread_id.as_str()));
            bound.push(concat2("  cwd: ", show_cwd(b.cwd.as_str())));
            assert(texts(bound@) =~= seq![
                "  thread_id: "@ + b@.thread_id,
                "  cwd: "@ + cwd_shown(b@.cwd),
            ]);
        },
        None => {
            bound.push("  thread_id: (none)".to_owned());
            bound.push("  cwd: (none)".to_owned());
            assert(texts(bound@) =~= seq!["  thread_id: (none)"@, "  cwd: (none)"@]);
        },
    }
    push_lines(&mut ls, bound);
    let mut tail: Vec<String> = Vec::new();
    tail.push("Binding key:".to_owned());
    tail.push(concat2("  ", request.session_id.as_str()));
    tail.push("Bind command:".to_owned());
    tail.push(concat3("  ", p, "threads"));
    tail.push(concat3("  ", p, "bind <threadId|number>"));
    assert(texts(tail@) =~= seq![
        "Binding key:"@,
        "  "@ + request@.session_id,
        "Bind command:"@,
        "  "@ + p@ + "threads"@,
        "  "@ + p@ + "bind <threadId|number>"@,
    ]);
    push_lines(&mut ls, tail);
    join(&ls, "\n")
}

} // verus!
