//! What is sent to Telegram, and what follows from how it was taken.

use vstd::prelude::*;

use crate::error::{ErrorV, GatewayError};
use crate::json::{get_entry, get_entry_str, signed, text_of, Members};
use crate::pipeline::{ProcessedReply, ReplyV};
use crate::platforms::telegram::format_html::{
    markdown_to_telegram_html, plain_text, strip_markdown, telegram_html,
};
use crate::platforms::telegram::media::local_path_from_url;
use crate::strs::{
    after_prefix, begins, concat2, concat3, contains, holds, lowered, parse_i64, same,
    signed_number_in, starts_with, texts, to_lowercase, trim, trimmed,
};
use crate::table::lookup;
use crate::text::{can_split_text, cuts_fall_on_chars, line_chunks, split_text};
use crate::types::{ChannelPart, PartKind, PartV};
use crate::urls::{parse_url, parsed_url, UrlParts, UrlV};

verus! {

/// How many bytes of text go into one message.
pub const SEND_CHUNK_SIZE: usize = 4000;

/// How many bytes of text a message can hold.
pub const MAX_MESSAGE_LENGTH: usize = 4096;

/// What stands in a message whose text is still to come.
pub const STREAM_PLACEHOLDER: &'static str = "⏳";

/// Where to send, and what to put before each text.
#[derive(Debug)]
pub struct TelegramSender {
    pub chat_id: i64,
    pub thread_id: Option<i32>,
    pub prefix: String,
}

/// The chat that a reply goes to.
pub open spec fn chat_of(meta: Members) -> Option<int> {
    match text_of(meta, "chat_id"@) {
        Some(s) => signed_number_in(s),
        None => None,
    }
}

/// The thread of the chat that a reply goes to.
pub open spec fn thread_of(meta: Members) -> Option<i32> {
    match lookup(meta, "message_thread_id"@) {
        Some(v) => match signed(v) {
            Some(n) => Some(n as i32),
            None => None,
        },
        None => None,
    }
}

/// The text with the prefix before it.
pub open spec fn prefixed(prefix: Seq<char>, text: Seq<char>) -> Seq<char> {
    if prefix.len() > 0 {
        prefix + "  "@ + text
    } else {
        text
    }
}

fn with_prefix(prefix: &str, text: &str) -> (r: String)
    ensures
        r@ == prefixed(prefix@, text@),
{
    if prefix.is_empty() {
        text.to_owned()
    } else {
        concat3(prefix, "  ", text)
    }
}

impl TelegramSender {
    /// The sender for a reply.
    pub fn from_reply(reply: &ProcessedReply, prefix: &str) -> (r: Result<
        TelegramSender,
        GatewayError,
    >)
        ensures
            match r {
                Ok(s) => {
                    &&& chat_of(reply@.meta) == Some(s.chat_id as int)
                    &&& s.thread_id == thread_of(reply@.meta)
                    &&& s.prefix@ == prefix@
                },
                Err(e) => chat_of(reply@.meta) is None && e@ == ErrorV::Other(
                    "telegram: missing chat_id"@,
                ),
            },
    {
        let chat: Option<i64> = match get_entry_str(&reply.meta, "chat_id") {
            Some(s) => parse_i64(s),
            None => None,
        };
        let thread: Option<i32> = match get_entry(&reply.meta, "message_thread_id") {
            Some(v) => match v.as_i64() {
                Some(n) => Some(#[verifier::truncate] (n as i32)),
                None => None,
            },
            None => None,
        };
        match chat {
            Some(id) => Ok(
                TelegramSender { chat_id: id, thread_id: thread, prefix: prefix.to_owned() },
            ),
            None => Err(GatewayError::other("telegram: missing chat_id")),
        }
    }

    /// Whether a text can be cut into messages: no cut falls within a character.
    pub fn can_send_text(&self, text: &str) -> (r: bool)
        ensures
            r == cuts_fall_on_chars(prefixed(self.prefix@, text@), SEND_CHUNK_SIZE as nat),
    {
        let body: String = with_prefix(self.prefix.as_str(), text);
        can_split_text(body.as_str(), SEND_CHUNK_SIZE)
    }

    /// The messages that a text goes out in.
    pub fn send_text(&self, text: &str) -> (r: Vec<String>)
        requires
            cuts_fall_on_chars(prefixed(self.prefix@, text@), SEND_CHUNK_SIZE as nat),
        ensures
            texts(r@) == line_chunks(prefixed(self.prefix@, text@), SEND_CHUNK_SIZE as nat),
    {
        let body: String = with_prefix(self.prefix.as_str(), text);
        split_text(body.as_str(), SEND_CHUNK_SIZE)
    }
}

// ---------------------------------------------------------------------------------------------
// One message
// ---------------------------------------------------------------------------------------------

/// How Telegram took a request.
#[derive(Debug)]
pub enum Outcome {
    Taken,
    /// Telegram refused it.
    Refused(String),
    /// It did not get through.
    Failed(String),
}

/// What follows a message that was sent.
#[derive(Debug)]
pub enum AfterSend {
    Done,
    /// Send this, without marks.
    SendPlain(String),
    Fail(GatewayError),
}

/// A request that went wrong, as an error.
pub fn map_req_err(message: String) -> (r: GatewayError)
    ensures
        r@ == (ErrorV::Channel { channel: "telegram"@, message: message@ }),
{
    GatewayError::Channel { channel: "telegram".to_owned(), message: message }
}

/// The body of a message.
pub fn message_body(text: &str, use_html: bool) -> (r: String)
    ensures
        r@ == if use_html {
            telegram_html(text@)
        } else {
            text@
        },
{
    if use_html {
        markdown_to_telegram_html(text)
    } else {
        text.to_owned()
    }
}

/// What follows a message that was sent. HTML that Telegram refuses is sent again without marks.
pub fn after_send(text: &str, use_html: bool, outcome: Outcome) -> (r: AfterSend)
    ensures
        match outcome {
            Outcome::Taken => r is Done,
            Outcome::Refused(m) => if use_html {
                r matches AfterSend::SendPlain(p) && p@ == plain_text(text@)
            } else {
                r matches AfterSend::Fail(e) && e@ == (ErrorV::Channel {
                    channel: "telegram"@,
                    message: m@,
                })
            },
            Outcome::Failed(m) => r matches AfterSend::Fail(e) && e@ == (ErrorV::Channel {
                channel: "telegram"@,
                message: m@,
            }),
        },
{
    match outcome {
        Outcome::Taken => AfterSend::Done,
        Outcome::Refused(m) => {
            if use_html {
                AfterSend::SendPlain(strip_markdown(text))
            } else {
                AfterSend::Fail(map_req_err(m))
            }
        },
        Outcome::Failed(m) => AfterSend::Fail(map_req_err(m)),
    }
}

/// What is put before the text of a stream.
pub open spec fn stream_prefix(st: Seq<char>) -> Seq<char> {
    if st == "reasoning"@ {
        "💭 "@
    } else {
        ""@
    }
}

/// The text of a stream with what is put before it.
pub fn stream_text(stream_type: &str, text: &str) -> (r: String)
    ensures
        r@ == stream_prefix(stream_type@) + text@,
{
    if same(stream_type, "reasoning") {
        concat2("💭 ", text)
    } else {
        concat2("", text)
    }
}

/// The message that a stream begins with.
pub fn placeholder_text(stream_type: &str) -> (r: String)
    ensures
        r@ == stream_prefix(stream_type@) + STREAM_PLACEHOLDER@,
{
    stream_text(stream_type, STREAM_PLACEHOLDER)
}

// ---------------------------------------------------------------------------------------------
// Changing a message
// ---------------------------------------------------------------------------------------------

/// The new body of a message.
pub open spec fn edited(text: Seq<char>, final_html: bool) -> Seq<char> {
    if trimmed(text).len() == 0 {
        STREAM_PLACEHOLDER@
    } else if final_html {
        telegram_html(text)
    } else {
        text
    }
}

/// The new body of a message.
pub fn edit_body(text: &str, final_html: bool) -> (r: String)
    ensures
        r@ == edited(text@, final_html),
{
    if trim(text).is_empty() {
        STREAM_PLACEHOLDER.to_owned()
    } else if final_html {
        markdown_to_telegram_html(text)
    } else {
        text.to_owned()
    }
}

/// What follows a message that was changed.
#[derive(Debug)]
pub enum AfterEdit {
    /// Whether the message now reads as it should.
    Done(bool),
    /// Change it to this, without marks.
    EditPlain(String),
}

/// The body without marks.
pub open spec fn edited_plain(text: Seq<char>) -> Seq<char> {
    if trimmed(text).len() == 0 {
        STREAM_PLACEHOLDER@
    } else {
        plain_text(text)
    }
}

/// What follows a change that was refused, where the refusal reads `lower` in lower case. That
/// nothing was to be changed is as good as a change. HTML that Telegram refuses is tried without
/// marks.
pub fn after_refused_edit(text: &str, final_html: bool, lower: &str) -> (r: AfterEdit)
    ensures
        if holds(lower@, "not modified"@) {
            r == AfterEdit::Done(true)
        } else if !final_html {
            r == AfterEdit::Done(false)
        } else {
            r matches AfterEdit::EditPlain(p) && p@ == edited_plain(text@)
        },
{
    if contains(lower, "not modified") {
        return AfterEdit::Done(true);
    }
    if !final_html {
        return AfterEdit::Done(false);
    }
    if trim(text).is_empty() {
        AfterEdit::EditPlain(STREAM_PLACEHOLDER.to_owned())
    } else {
        AfterEdit::EditPlain(strip_markdown(text))
    }
}

/// What follows a message that was changed.
pub fn after_edit(text: &str, final_html: bool, outcome: &Outcome) -> (r: AfterEdit)
    ensures
        match outcome {
            Outcome::Taken => r == AfterEdit::Done(true),
            Outcome::Failed(_) => r == AfterEdit::Done(false),
            Outcome::Refused(m) => if holds(lowered(m@), "not modified"@) {
                r == AfterEdit::Done(true)
            } else if !final_html {
                r == AfterEdit::Done(false)
            } else {
                r matches AfterEdit::EditPlain(p) && p@ == edited_plain(text@)
            },
        },
{
    match outcome {
        Outcome::Taken => AfterEdit::Done(true),
        Outcome::Failed(_) => AfterEdit::Done(false),
        Outcome::Refused(m) => {
            let lower: String = to_lowercase(m.as_str());
            after_refused_edit(text, final_html, lower.as_str())
        },
    }
}

// ---------------------------------------------------------------------------------------------
// Media
// ---------------------------------------------------------------------------------------------

/// Where a file to be sent is.
#[derive(Debug)]
pub enum MediaSource {
    /// A file that is kept here.
    Local(String),
    /// A file that Telegram fetches.
    Remote(String),
}

/// Where a file is, as texts.
#[verifier::ext_equal]
pub enum SourceV {
    Local(Seq<char>),
    Remote(Seq<char>),
}

impl View for MediaSource {
    type V = SourceV;

    open spec fn view(&self) -> SourceV {
        match self {
            MediaSource::Local(p) => SourceV::Local(p@),
            MediaSource::Remote(u) => SourceV::Remote(u@),
        }
    }
}

/// Where the file that a URL names is, where `parsed` is what the URL parses to.
pub open spec fn source_of(url: Seq<char>, parsed: Result<UrlV, Seq<char>>) -> Result<
    SourceV,
    ErrorV,
> {
    match after_prefix(url, "file://"@) {
        Some(p) => Ok(SourceV::Local(p)),
        None => if begins(url, "http://"@) || begins(url, "https://"@) {
            match parsed {
                Ok(u) => Ok(SourceV::Remote(u.text)),
                Err(e) => Err(ErrorV::Other(e)),
            }
        } else {
            Err(
                ErrorV::Channel {
                    channel: "telegram"@,
                    message: "unsupported media url: "@ + url,
                },
            )
        },
    }
}

/// Where the file that a URL names is, where `parsed` is what the URL parses to.
pub fn source_with(url: &str, parsed: Result<UrlParts, String>) -> (r: Result<
    MediaSource,
    GatewayError,
>)
    ensures
        source_of(url@, (match parsed {
            Ok(u) => Ok::<UrlV, Seq<char>>(u@),
            Err(e) => Err::<UrlV, Seq<char>>(e@),
        })) == (match r {
            Ok(s) => Ok::<SourceV, ErrorV>(s@),
            Err(e) => Err::<SourceV, ErrorV>(e@),
        }),
{
    if let Some(path) = local_path_from_url(url) {
        return Ok(MediaSource::Local(path));
    }
    if starts_with(url, "http://") || starts_with(url, "https://") {
        return match parsed {
            Ok(u) => Ok(MediaSource::Remote(u.text)),
            Err(e) => Err(GatewayError::Other(e)),
        };
    }
    Err(
        GatewayError::Channel {
            channel: "telegram".to_owned(),
            message: concat2("unsupported media url: ", url),
        },
    )
}

/// Where the file that a URL names is.
pub fn input_file(url: &str) -> (r: Result<MediaSource, GatewayError>)
    ensures
        source_of(url@, parsed_url(url@)) == (match r {
            Ok(s) => Ok::<SourceV, ErrorV>(s@),
            Err(e) => Err::<SourceV, ErrorV>(e@),
        }),
{
    let parsed: Result<UrlParts, String> = parse_url(url);
    source_with(url, parsed)
}

/// A file that is kept here must be there.
pub fn check_present(path: &str, exists: bool) -> (r: Result<(), GatewayError>)
    ensures
        match r {
            Ok(_) => exists,
            Err(e) => !exists && e@ == (ErrorV::Channel {
                channel: "telegram"@,
                message: "media not found: "@ + path@,
            }),
        },
{
    if exists {
        return Ok(());
    }
    Err(
        GatewayError::Channel {
            channel: "telegram".to_owned(),
            message: concat2("media not found: ", path),
        },
    )
}

/// How a file is sent.
#[derive(Debug, Clone, Copy, PartialEq, Eq, Structural)]
pub enum MediaMethod {
    Photo,
    Video,
    Audio,
    Document,
}

/// How a part is sent; `None` where it names no file, or is none.
pub open spec fn method_of(p: PartV) -> Option<MediaMethod> {
    if p.url.len() == 0 {
        None
    } else {
        match p.kind {
            PartKind::Image => Some(MediaMethod::Photo),
            PartKind::Video => Some(MediaMethod::Video),
            PartKind::Audio => Some(MediaMethod::Audio),
            PartKind::File => Some(MediaMethod::Document),
            _ => None,
        }
    }
}

/// What to do with a part that is no text.
#[derive(Debug)]
pub struct MediaPlan {
    pub source: MediaSource,
    /// `None` where the file is looked for but not sent.
    pub method: Option<MediaMethod>,
}

/// What to do with a part that is no text: nothing where it names no file.
pub fn send_media_part(part: &ChannelPart) -> (r: Result<Option<MediaPlan>, GatewayError>)
    ensures
        if part@.url.len() == 0 {
            r matches Ok(None)
        } else {
            match source_of(part@.url, parsed_url(part@.url)) {
                Ok(s) => r matches Ok(Some(p)) && p.source@ == s && p.method == method_of(part@),
                Err(e) => r matches Err(x) && x@ == e,
            }
        },
{
    if part.url.as_str().is_empty() {
        return Ok(None);
    }
    let source: MediaSource = match input_file(part.url.as_str()) {
        Ok(s) => s,
        Err(e) => {
            return Err(e);
        },
    };
    let method: Option<MediaMethod> = match part.kind {
        PartKind::Image => Some(MediaMethod::Photo),
        PartKind::Video => Some(MediaMethod::Video),
        PartKind::Audio => Some(MediaMethod::Audio),
        PartKind::File => Some(MediaMethod::Document),
        _ => None,
    };
    Ok(Some(MediaPlan { source: source, method: method }))
}

// ---------------------------------------------------------------------------------------------
// A reply
// ---------------------------------------------------------------------------------------------

/// A step of sending a reply.
#[derive(Debug)]
pub enum SendStep {
    Text(String),
    Media(ChannelPart),
}

/// What a step holds.
#[verifier::ext_equal]
pub enum StepV {
    Text(Seq<char>),
    Media(PartV),
}

impl View for SendStep {
    type V = StepV;

    open spec fn view(&self) -> StepV {
        match self {
            SendStep::Text(t) => StepV::Text(t@),
            SendStep::Media(p) => StepV::Media(p@),
        }
    }
}

impl DeepView for SendStep {
    type V = StepV;

    open spec fn deep_view(&self) -> StepV {
        self@
    }
}

/// The texts among the parts.
pub open spec fn text_steps(parts: Seq<PartV>) -> Seq<StepV>
    decreases parts.len(),
{
    if parts.len() == 0 {
        Seq::empty()
    } else if parts.last().kind == PartKind::Text && parts.last().text.len() > 0 {
        text_steps(parts.drop_last()).push(StepV::Text(parts.last().text))
    } else {
        text_steps(parts.drop_last())
    }
}

/// The parts that are no text.
pub open spec fn media_steps(parts: Seq<PartV>) -> Seq<StepV>
    decreases parts.len(),
{
    if parts.len() == 0 {
        Seq::empty()
    } else if parts.last().kind != PartKind::Text {
        media_steps(parts.drop_last()).push(StepV::Media(parts.last()))
    } else {
        media_steps(parts.drop_last())
    }
}

/// How a reply is sent: the texts of its parts, or its own text where they have none, and then the
/// other parts.
pub open spec fn reply_steps(reply: ReplyV) -> Seq<StepV> {
    let t = text_steps(reply.parts);
    let own = if t.len() == 0 && reply.text.len() > 0 {
        seq![StepV::Text(reply.text)]
    } else {
        Seq::empty()
    };
    t + own + media_steps(reply.parts)
}

/// Appends a step for each part that is no text.
pub fn push_media_steps(steps: &mut Vec<SendStep>, parts: &Vec<ChannelPart>)
    ensures
        final(steps).deep_view() == old(steps).deep_view() + media_steps(parts.deep_view()),
{
    let ghost all = parts.deep_view();
    let ghost first = steps.deep_view();
    let mut i: usize = 0;
    assert(all.take(0) == Seq::<PartV>::empty());
    assert(first + Seq::<StepV>::empty() =~= first);
    while i < parts.len()
        invariant
            i <= parts@.len(),
            all == parts.deep_view(),
            steps.deep_view() == first + media_steps(all.take(i as int)),
        decreases parts@.len() - i,
    {
        let p: &ChannelPart = &parts[i];
        proof {
            assert(all.take(i + 1).drop_last() == all.take(i as int));
            assert(all.take(i + 1).last() == p@);
        }
        if p.kind != PartKind::Text {
            let ghost before = steps.deep_view();
            steps.push(SendStep::Media(p.dup()));
            proof {
                assert(steps.deep_view() =~= before.push(StepV::Media(p@)));
                assert(steps.deep_view() =~= first + media_steps(all.take(i + 1)));
            }
        }
        i = i + 1;
    }
    assert(all.take(all.len() as int) == all);
}

/// How a reply is sent.
pub fn send_reply(reply: &ProcessedReply) -> (r: Vec<SendStep>)
    ensures
        r.deep_view() == reply_steps(reply@),
{
    let ghost all = reply.parts.deep_view();
    let mut steps: Vec<SendStep> = Vec::new();
    let mut i: usize = 0;
    assert(all.take(0) == Seq::<PartV>::empty());
    assert(steps.deep_view() =~= Seq::<StepV>::empty());
    while i < reply.parts.len()
        invariant
            i <= reply.parts@.len(),
            all == reply.parts.deep_view(),
            steps.deep_view() == text_steps(all.take(i as int)),
        decreases reply.parts@.len() - i,
    {
        let p: &ChannelPart = &reply.parts[i];
        proof {
            assert(all.take(i + 1).drop_last() == all.take(i as int));
            assert(all.take(i + 1).last() == p@);
        }
        if p.kind == PartKind::Text && !p.text.as_str().is_empty() {
            let ghost before = steps.deep_view();
            steps.push(SendStep::Text(p.text.clone()));
            assert(steps.deep_view() =~= before.push(StepV::Text(p.text@)));
        }
        i = i + 1;
    }
    assert(all.take(all.len() as int) == all);
    let ghost t = steps.deep_view();
    assert(t.len() == steps@.len());
    if steps.len() == 0 && !reply.text.as_str().is_empty() {
        steps.push(SendStep::Text(reply.text.clone()));
        assert(steps.deep_view() =~= t + seq![StepV::Text(reply.text@)]);
    } else {
        assert(steps.deep_view() =~= t + Seq::<StepV>::empty());
    }
    push_media_steps(&mut steps, &reply.parts);
    steps
}

} // verus!
