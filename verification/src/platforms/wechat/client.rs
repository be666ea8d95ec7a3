//! Requests of the iLink protocol, and what their responses mean.

use vstd::prelude::*;
use vstd::utf8::encode_utf8;

use crate::codec::{base64_text, query_text, url_encode};
use crate::error::{ErrorV, GatewayError};
use crate::ids::{is_uuid_text, new_uuid};
use crate::json::{
    array_parts, field, object1, object2, object_parts, one_value, push_field, signed, text_field,
    text_field_or, integer_view, Json, JsonV, Number, NumberV,
};
use crate::platforms::wechat::crypto::{
    aes_ecb_decrypt, headers_of, make_headers, opened_under, Header,
};
use crate::platforms::wechat::login::{
    as_text, either_field, get_either, text_in, trim_unless_blank, unless_blank,
};
use crate::platforms::wechat::qr_terminal::{bot_type_or_default, usual_bot_type};
use crate::strs::{
    after_prefix, ascii_lowered, begins, chars_of, concat2, concat3, contains, decimal, find,
    first_at, first_at_from_is_first, holds, i64_string, occurs_at, parse_i64, same, signed_decimal,
    signed_number_in, signed_reads_back, slice_string, starts_with, strip_prefix, stripped_end,
    stripped_start, to_ascii_lowercase, trim, trim_end_char, trim_start_char, trimmed,
};
use crate::text::{fitting, fitting_end};
use crate::urls::{leads_to_media, parse_url, parsed_url, UrlParts, MEDIA_HOST};

verus! {

pub const DEFAULT_BASE_URL: &'static str = "https://ilinkai.weixin.qq.com";

pub const CHANNEL_VERSION: &'static str = "2.0.1";

/// Seconds to wait for new messages.
pub const GETUPDATES_TIMEOUT_S: u64 = 45;

/// Seconds to wait for a response.
pub const DEFAULT_TIMEOUT_S: u64 = 15;

/// Seconds to wait for a scan.
pub const QRCODE_STATUS_TIMEOUT_S: u64 = 60;

/// How many characters of text go into one message.
pub const WECHAT_TEXT_CHUNK_CHARS: usize = 2000;

/// Milliseconds between two messages.
pub const WECHAT_SEND_INTERVAL_MS: u64 = 300;

pub const WECHAT_TYPING_STATUS_TYPING: i64 = 1;

pub const WECHAT_TYPING_STATUS_CLEANUP: i64 = 2;

// ---------------------------------------------------------------------------------------------
// Whether a request succeeded
// ---------------------------------------------------------------------------------------------

/// An integer member.
pub open spec fn signed_field(v: JsonV, k: Seq<char>) -> Option<i64> {
    match field(v, k) {
        Some(x) => signed(x),
        None => None,
    }
}

fn get_signed(v: &Json, key: &str) -> (r: Option<i64>)
    ensures
        r == signed_field(v@, key@),
{
    match v.get(key) {
        Some(x) => x.as_i64(),
        None => None,
    }
}

/// The code that a response brings.
pub open spec fn ret_of(v: JsonV) -> Option<i64> {
    match signed_field(v, "ret"@) {
        Some(c) => Some(c),
        None => signed_field(v, "errcode"@),
    }
}

/// What is said of a response with a code other than zero, where `shown` is the response as text.
pub open spec fn ret_message(v: JsonV, code: i64, shown: Seq<char>) -> Seq<char> {
    let start = "ret="@ + signed_decimal(code as int) + ": "@;
    match unless_blank(text_in(either_field(v, "errmsg"@, "message"@))) {
        Some(m) => start + m,
        None => start + ("ilink api error; response="@ + shown),
    }
}

/// Lets a response pass that brings no code, or zero. `shown` is the response as text.
pub fn check_ilink_ret(response: &Json, shown: &str) -> (r: Result<(), GatewayError>)
    ensures
        match ret_of(response@) {
            None => r is Ok,
            Some(code) => if code == 0 {
                r is Ok
            } else {
                r matches Err(e) && e@ == (ErrorV::Channel {
                    channel: "wechat"@,
                    message: ret_message(response@, code, shown@),
                })
            },
        },
{
    let ret: Option<i64> = match get_signed(response, "ret") {
        Some(c) => Some(c),
        None => get_signed(response, "errcode"),
    };
    match ret {
        None => Ok(()),
        Some(code) => {
            if code == 0 {
                return Ok(());
            }
            let n: String = i64_string(code);
            let start: String = concat3("ret=", n.as_str(), ": ");
            let said: Option<String> = trim_unless_blank(
                as_text(get_either(response, "errmsg", "message")),
            );
            let message: String = match said {
                Some(m) => concat2(start.as_str(), m.as_str()),
                None => {
                    let rest: String = concat2("ilink api error; response=", shown);
                    concat2(start.as_str(), rest.as_str())
                },
            };
            Err(GatewayError::Channel { channel: "wechat".to_owned(), message: message })
        },
    }
}

/// The text up to the first `p`.
pub open spec fn up_to(s: Seq<char>, p: Seq<char>) -> Seq<char> {
    match first_at(s, p) {
        Some(i) => s.take(i),
        None => s,
    }
}

/// The code in an error of a channel.
pub open spec fn code_in(e: ErrorV) -> Option<int> {
    match e {
        ErrorV::Channel { message, .. } => match after_prefix(message, "ret="@) {
            Some(rest) => signed_number_in(up_to(rest, ":"@)),
            None => None,
        },
        _ => None,
    }
}

/// The code in an error of a channel.
pub fn ilink_ret_code(error: &GatewayError) -> (r: Option<i64>)
    ensures
        match r {
            Some(c) => code_in(error@) == Some(c as int),
            None => code_in(error@) is None,
        },
{
    match error {
        GatewayError::Channel { channel: _, message } => match strip_prefix(
            message.as_str(),
            "ret=",
        ) {
            Some(rest) => {
                let v: Vec<char> = chars_of(rest);
                let end: usize = match find(rest, ":") {
                    Some(i) => i,
                    None => v.len(),
                };
                assert(v@.subrange(0, end as int) == v@.take(end as int));
                assert(v@.take(v@.len() as int) == v@);
                let code: String = slice_string(&v, 0, end);
                parse_i64(code.as_str())
            },
            None => None,
        },
        _ => None,
    }
}

/// Whether an error, in lower case, speaks of who may do what.
pub open spec fn tells_auth(t: Seq<char>) -> bool {
    ||| holds(t, "token"@)
    ||| holds(t, "auth"@)
    ||| holds(t, "credential"@)
    ||| holds(t, "unauthorized"@)
    ||| holds(t, "forbidden"@)
    ||| holds(t, "expired"@)
    ||| holds(t, "invalid"@)
}

/// Whether an error may go away with a newer token.
pub open spec fn is_auth_error(e: ErrorV) -> bool {
    match e {
        ErrorV::Api { status, .. } => status == 401 || status == 403,
        ErrorV::Channel { channel, message } => channel == "wechat"@ && tells_auth(
            ascii_lowered(message),
        ),
        _ => false,
    }
}

/// Whether an error may go away with a newer token.
pub fn is_ilink_auth_error(error: &GatewayError) -> (r: bool)
    ensures
        r == is_auth_error(error@),
{
    match error {
        GatewayError::Api { status, body: _ } => *status == 401 || *status == 403,
        GatewayError::Channel { channel, message } => {
            if !same(channel.as_str(), "wechat") {
                return false;
            }
            let t: String = to_ascii_lowercase(message.as_str());
            let m: &str = t.as_str();
            contains(m, "token") || contains(m, "auth") || contains(m, "credential") || contains(
                m,
                "unauthorized",
            ) || contains(m, "forbidden") || contains(m, "expired") || contains(m, "invalid")
        },
        _ => false,
    }
}

// ---------------------------------------------------------------------------------------------
// What is written down of requests and responses
// ---------------------------------------------------------------------------------------------

/// A text cut to at most `max` bytes where it has more than `max` characters.
pub open spec fn previewed(text: Seq<char>, max: nat) -> Seq<char> {
    if text.len() <= max {
        text
    } else {
        text.take(fitting(text, max as int)) + "..."@
    }
}

/// A text cut to at most `max_chars` bytes where it has more than that many characters.
pub fn preview_str(text: &str, max_chars: usize) -> (r: String)
    ensures
        r@ == previewed(text@, max_chars as nat),
{
    let v: Vec<char> = chars_of(text);
    if v.len() <= max_chars {
        return text.to_owned();
    }
    let cut: (usize, usize) = fitting_end(&v, 0, max_chars);
    assert(v@.skip(0) == v@);
    let start: String = slice_string(&v, 0, cut.0);
    assert(start@ == v@.take(cut.0 as int));
    concat2(start.as_str(), "...")
}

/// Whether a member of this name, in lower case, is not written down.
pub open spec fn is_secret_name(k: Seq<char>) -> bool {
    ||| k == "context_token"@
    ||| k == "typing_ticket"@
    ||| k == "bot_token"@
    ||| k == "aes_key"@
    ||| k == "encrypt_query_param"@
    ||| k == "qrcode"@
    ||| k == "text"@
    ||| k == "item_list"@
    ||| k == "aeskey"@
}

fn secret_name(k: &str) -> (r: bool)
    ensures
        r == is_secret_name(k@),
{
    same(k, "context_token") || same(k, "typing_ticket") || same(k, "bot_token") || same(
        k,
        "aes_key",
    ) || same(k, "encrypt_query_param") || same(k, "qrcode") || same(k, "text") || same(
        k,
        "item_list",
    ) || same(k, "aeskey")
}

/// A value with stars in place of what is not written down.
pub open spec fn redacted(v: JsonV) -> JsonV
    decreases v,
{
    match v {
        JsonV::Object(m) => JsonV::Object(
            Seq::new(
                m.len(),
                |i: int|
                    if 0 <= i < m.len() {
                        (
                            m[i].0,
                            if is_secret_name(ascii_lowered(m[i].0)) {
                                JsonV::Str("***"@)
                            } else {
                                redacted(m[i].1)
                            },
                        )
                    } else {
                        (Seq::empty(), JsonV::Null)
                    },
            ),
        ),
        JsonV::Array(s) => JsonV::Array(
            Seq::new(
                s.len(),
                |i: int|
                    if 0 <= i < s.len() {
                        redacted(s[i])
                    } else {
                        JsonV::Null
                    },
            ),
        ),
        x => x,
    }
}

/// A value with stars in place of what is not written down.
pub fn redacted_value(value: &Json) -> (r: Json)
    ensures
        r@ == redacted(value@),
    decreases value,
{
    match value {
        Json::Array(v) => {
            let mut out: Vec<Json> = Vec::new();
            let mut i: usize = 0;
            while i < v.len()
                invariant
                    i <= v@.len(),
                    out@.len() == i,
                    *value == Json::Array(*v),
                    forall|k: int| 0 <= k < i ==> (#[trigger] out@[k])@ == redacted(v@[k]@),
                decreases v@.len() - i,
            {
                assert(decreases_to!(*value => value->Array_0@[i as int]));
                out.push(redacted_value(&v[i]));
                i = i + 1;
            }
            proof {
                array_parts(*v);
                array_parts(out);
                assert(redacted(value@)->Array_0 =~= out.deep_view());
            }
            Json::Array(out)
        },
        Json::Object(m) => {
            let mut out: Vec<(String, Json)> = Vec::new();
            let mut i: usize = 0;
            while i < m.len()
                invariant
                    i <= m@.len(),
                    out@.len() == i,
                    *value == Json::Object(*m),
                    forall|k: int|
                        0 <= k < i ==> (#[trigger] out@[k]).0@ == m@[k].0@ && out@[k].1@ == (
                        if is_secret_name(ascii_lowered(m@[k].0@)) {
                            JsonV::Str("***"@)
                        } else {
                            redacted(m@[k].1@)
                        }),
                decreases m@.len() - i,
            {
                let entry: &(String, Json) = &m[i];
                assert(decreases_to!(*value => value->Object_0@[i as int].1));
                let lower: String = to_ascii_lowercase(entry.0.as_str());
                let x: Json = if secret_name(lower.as_str()) {
                    Json::text("***")
                } else {
                    redacted_value(&entry.1)
                };
                out.push((entry.0.clone(), x));
                i = i + 1;
            }
            proof {
                object_parts(*m);
                object_parts(out);
                assert(redacted(value@)->Object_0 =~= out.deep_view());
            }
            Json::Object(out)
        },
        _ => value.dup(),
    }
}

/// Whether all that is not to be written down is stars, at any depth.
pub open spec fn tells_no_secret(v: JsonV) -> bool
    decreases v,
{
    match v {
        JsonV::Object(m) => forall|i: int|
            0 <= i < m.len() ==> if is_secret_name(ascii_lowered((#[trigger] m[i]).0)) {
                m[i].1 == JsonV::Str("***"@)
            } else {
                tells_no_secret(m[i].1)
            },
        JsonV::Array(s) => forall|i: int|
            0 <= i < s.len() ==> tells_no_secret(#[trigger] s[i]),
        _ => true,
    }
}

/// Of what is written down, nothing is secret.
pub proof fn redacted_tells_no_secret(v: JsonV)
    ensures
        tells_no_secret(redacted(v)),
    decreases v,
{
    match v {
        JsonV::Object(m) => {
            let out = redacted(v)->Object_0;
            assert forall|i: int| 0 <= i < out.len() implies if is_secret_name(
                ascii_lowered((#[trigger] out[i]).0),
            ) {
                out[i].1 == JsonV::Str("***"@)
            } else {
                tells_no_secret(out[i].1)
            } by {
                assert(decreases_to!(v => v->Object_0[i].1));
                redacted_tells_no_secret(m[i].1);
            }
        },
        JsonV::Array(s) => {
            let out = redacted(v)->Array_0;
            assert forall|i: int| 0 <= i < out.len() implies tells_no_secret(
                #[trigger] out[i],
            ) by {
                assert(decreases_to!(v => v->Array_0[i]));
                redacted_tells_no_secret(s[i]);
            }
        },
        _ => {},
    }
}

/// What is written down of a value whose redacted form reads `shown`.
pub fn preview_json(shown: &str) -> (r: String)
    ensures
        r@ == previewed(shown@, 500),
{
    preview_str(shown, 500)
}

/// What is written down of the body of a response, whose redacted form reads `shown` where it is
/// JSON.
pub fn preview_response_body(shown: Option<&str>) -> (r: String)
    ensures
        r@ == match shown {
            Some(s) => previewed(s@, 500),
            None => "[non-JSON response redacted]"@,
        },
{
    match shown {
        Some(s) => preview_json(s),
        None => "[non-JSON response redacted]".to_owned(),
    }
}

/// Whether a path is that of the request for new messages.
pub fn is_getupdates_path(path: &str) -> (r: bool)
    ensures
        r == (stripped_start(path@, '/') == "ilink/bot/getupdates"@),
{
    same(trim_start_char(path, '/'), "ilink/bot/getupdates")
}

/// Whether the member named `k` is a list with something in it.
pub open spec fn lists_something(v: JsonV, k: Seq<char>) -> bool {
    match field(v, k) {
        Some(JsonV::Array(s)) => s.len() > 0,
        _ => false,
    }
}

/// Whether a value holds messages.
pub open spec fn holds_messages(v: JsonV) -> bool {
    ||| lists_something(v, "msgs"@)
    ||| lists_something(v, "msg_list"@)
    ||| lists_something(v, "message_list"@)
    ||| lists_something(v, "messages"@)
    ||| lists_something(v, "updates"@)
    ||| field(v, "msg"@) matches Some(JsonV::Object(_))
}

/// Whether a response holds messages, itself or in its data.
pub open spec fn brings_messages(v: JsonV) -> bool {
    ||| holds_messages(v)
    ||| match field(v, "data"@) {
        Some(d) => holds_messages(d),
        None => false,
    }
}

fn has_list(v: &Json, key: &str) -> (r: bool)
    ensures
        r == lists_something(v@, key@),
{
    match v.get_array(key) {
        Some(s) => s.len() > 0,
        None => false,
    }
}

fn has_messages(v: &Json) -> (r: bool)
    ensures
        r == holds_messages(v@),
{
    let msg: bool = match v.get("msg") {
        Some(x) => x.as_object().is_some(),
        None => false,
    };
    has_list(v, "msgs") || has_list(v, "msg_list") || has_list(v, "message_list") || has_list(
        v,
        "messages",
    ) || has_list(v, "updates") || msg
}

/// Whether a response holds messages, itself or in its data.
pub fn response_has_messages(value: &Json) -> (r: bool)
    ensures
        r == brings_messages(value@),
{
    has_messages(value) || match value.get("data") {
        Some(d) => has_messages(d),
        None => false,
    }
}

// ---------------------------------------------------------------------------------------------
// The client
// ---------------------------------------------------------------------------------------------

/// Where requests go, and with which token.
#[derive(Debug)]
pub struct ILinkClient {
    pub bot_token: String,
    /// The file that may hold a newer token.
    pub token_file: Option<String>,
    pub base_url: String,
}

/// What a client holds.
#[verifier::ext_equal]
pub struct ClientV {
    pub bot_token: Seq<char>,
    pub token_file: Option<Seq<char>>,
    pub base_url: Seq<char>,
}

impl View for ILinkClient {
    type V = ClientV;

    open spec fn view(&self) -> ClientV {
        ClientV {
            bot_token: self.bot_token@,
            token_file: self.token_file.deep_view(),
            base_url: self.base_url@,
        }
    }
}

/// What came of a login.
#[derive(Debug, PartialEq, Eq)]
pub struct WeChatLoginResult {
    pub bot_token: String,
    pub base_url: String,
    pub bot_user_id: Option<String>,
}

/// What came of a login, as texts.
#[verifier::ext_equal]
pub struct LoginV {
    pub bot_token: Seq<char>,
    pub base_url: Seq<char>,
    pub bot_user_id: Option<Seq<char>>,
}

impl View for WeChatLoginResult {
    type V = LoginV;

    open spec fn view(&self) -> LoginV {
        LoginV {
            bot_token: self.bot_token@,
            base_url: self.base_url@,
            bot_user_id: self.bot_user_id.deep_view(),
        }
    }
}

/// What waiting for a login comes to.
#[derive(Debug)]
pub enum LoginStep {
    /// The code was not scanned yet.
    Wait,
    Done(WeChatLoginResult),
    Fail(GatewayError),
}

/// What waiting for a login comes to, as texts.
#[verifier::ext_equal]
pub enum LoginStepV {
    Wait,
    Done(LoginV),
    Fail(ErrorV),
}

impl View for LoginStep {
    type V = LoginStepV;

    open spec fn view(&self) -> LoginStepV {
        match self {
            LoginStep::Wait => LoginStepV::Wait,
            LoginStep::Done(r) => LoginStepV::Done(r@),
            LoginStep::Fail(e) => LoginStepV::Fail(e@),
        }
    }
}

/// What a response on a login comes to. The URL of the client is the usual one.
pub open spec fn login_step(v: JsonV, base_url: Seq<char>) -> LoginStepV {
    let status = text_field_or(v, "status"@, Seq::empty());
    if status == "confirmed"@ {
        match text_field(v, "bot_token"@) {
            Some(t) => if trimmed(t).len() > 0 {
                LoginStepV::Done(
                    LoginV {
                        bot_token: t,
                        base_url: match text_in(either_field(v, "baseurl"@, "base_url"@)) {
                            Some(b) => b,
                            None => base_url,
                        },
                        bot_user_id: unless_blank(
                            text_in(
                                match field(v, "ilink_bot_id"@) {
                                    Some(x) => Some(x),
                                    None => either_field(v, "bot_user_id"@, "botUserId"@),
                                },
                            ),
                        ),
                    },
                )
            } else {
                LoginStepV::Fail(
                    ErrorV::Channel {
                        channel: "wechat"@,
                        message: "QR confirmed without bot_token"@,
                    },
                )
            },
            None => LoginStepV::Fail(
                ErrorV::Channel {
                    channel: "wechat"@,
                    message: "QR confirmed without bot_token"@,
                },
            ),
        }
    } else if status == "expired"@ {
        LoginStepV::Fail(ErrorV::Channel { channel: "wechat"@, message: "QR code expired"@ })
    } else {
        LoginStepV::Wait
    }
}

fn wechat_error(message: &str) -> (r: GatewayError)
    ensures
        r@ == (ErrorV::Channel { channel: "wechat"@, message: message@ }),
{
    GatewayError::Channel { channel: "wechat".to_owned(), message: message.to_owned() }
}

/// The token that a client takes over from its file: one that is new to it.
pub open spec fn token_in_file(c: ClientV, contents: Option<Seq<char>>) -> Option<Seq<char>> {
    match contents {
        Some(t) => if c.token_file is Some && trimmed(t).len() > 0 && trimmed(t) != c.bot_token {
            Some(trimmed(t))
        } else {
            None
        },
        None => None,
    }
}

impl ILinkClient {
    /// A client with this token.
    pub fn new(bot_token: &str, base_url: &str) -> (r: ILinkClient)
        ensures
            r@ == (ClientV {
                bot_token: bot_token@,
                token_file: None,
                base_url: stripped_end(base_url@, '/'),
            }),
    {
        ILinkClient {
            bot_token: bot_token.to_owned(),
            token_file: None,
            base_url: trim_end_char(base_url, '/').to_owned(),
        }
    }

    /// A client with this token, and a file that may hold a newer one.
    pub fn new_with_token_file(bot_token: &str, base_url: &str, token_file: String) -> (r:
        ILinkClient)
        ensures
            r@ == (ClientV {
                bot_token: bot_token@,
                token_file: Some(token_file@),
                base_url: stripped_end(base_url@, '/'),
            }),
    {
        ILinkClient {
            bot_token: bot_token.to_owned(),
            token_file: Some(token_file),
            base_url: trim_end_char(base_url, '/').to_owned(),
        }
    }

    /// The URL of a request.
    pub fn url(&self, path: &str) -> (r: String)
        ensures
            r@ == self@.base_url + "/"@ + stripped_start(path@, '/'),
    {
        concat3(self.base_url.as_str(), "/", trim_start_char(path, '/'))
    }

    /// The headers of a request.
    pub fn headers(&self) -> (r: Vec<Header>)
        ensures
            exists|uin: u32|
                r.deep_view() == headers_of(
                    self@.bot_token,
                    base64_text(encode_utf8(#[trigger] decimal(uin as nat))),
                ),
    {
        make_headers(self.bot_token.as_str())
    }

    /// The headers of a request that asks how far a login has come: those of any request, and the
    /// version of the client.
    pub fn qrcode_status_headers(&self) -> (r: Vec<Header>)
        ensures
            exists|uin: u32|
                r.deep_view() == headers_of(
                    self@.bot_token,
                    base64_text(encode_utf8(#[trigger] decimal(uin as nat))),
                ).push(("iLink-App-ClientVersion"@, "1"@)),
    {
        let mut r: Vec<Header> = self.headers();
        let ghost before = r.deep_view();
        r.push(("iLink-App-ClientVersion".to_owned(), "1".to_owned()));
        assert(r.deep_view() =~= before.push(("iLink-App-ClientVersion"@, "1"@)));
        r
    }

    /// Goes on with another token.
    pub fn set_bot_token(&mut self, token: &str)
        ensures
            final(self)@ == (ClientV { bot_token: token@, ..old(self)@ }),
    {
        self.bot_token = token.to_owned();
    }

    /// Goes on with the token that the token file holds, where there is one and it is another.
    /// Whether that was so.
    pub fn reload_bot_token(&mut self, contents: Option<&str>) -> (r: bool)
        ensures
            match token_in_file(old(self)@, contents.deep_view()) {
                Some(token) => r && final(self)@ == (ClientV { bot_token: token, ..old(self)@ }),
                None => !r && final(self)@ == old(self)@,
            },
    {
        if self.token_file.is_none() {
            return false;
        }
        match contents {
            Some(c) => {
                let t: &str = trim(c);
                if t.is_empty() || same(t, self.bot_token.as_str()) {
                    return false;
                }
                self.bot_token = t.to_owned();
                true
            },
            None => false,
        }
    }

    /// Whether a request that failed is sent once more: the service did not accept the token, and
    /// the file holds a new one, which the client takes over.
    pub fn retries(&mut self, error: &GatewayError, contents: Option<&str>) -> (r: bool)
        ensures
            match token_in_file(old(self)@, contents.deep_view()) {
                Some(token) if is_auth_error(error@) => {
                    r && final(self)@ == (ClientV { bot_token: token, ..old(self)@ })
                },
                _ => !r && final(self)@ == old(self)@,
            },
    {
        is_ilink_auth_error(error) && self.reload_bot_token(contents)
    }

    /// What a response on a login comes to.
    pub fn login_step(&self, data: &Json) -> (r: LoginStep)
        ensures
            r@ == login_step(data@, self@.base_url),
    {
        let status: String = data.get_string("status");
        if same(status.as_str(), "confirmed") {
            let token: &str = match data.get_str("bot_token") {
                Some(t) => t,
                None => {
                    return LoginStep::Fail(wechat_error("QR confirmed without bot_token"));
                },
            };
            if trim(token).is_empty() {
                return LoginStep::Fail(wechat_error("QR confirmed without bot_token"));
            }
            let base: String = match as_text(get_either(data, "baseurl", "base_url")) {
                Some(b) => b.to_owned(),
                None => self.base_url.clone(),
            };
            let bot: Option<&Json> = match data.get("ilink_bot_id") {
                Some(x) => Some(x),
                None => get_either(data, "bot_user_id", "botUserId"),
            };
            return LoginStep::Done(
                WeChatLoginResult {
                    bot_token: token.to_owned(),
                    base_url: base,
                    bot_user_id: trim_unless_blank(as_text(bot)),
                },
            );
        }
        if same(status.as_str(), "expired") {
            return LoginStep::Fail(wechat_error("QR code expired"));
        }
        LoginStep::Wait
    }
}

/// What is said where a code was not scanned in time.
pub fn login_timeout(max_wait_s: u64) -> (r: GatewayError)
    ensures
        r@ == ErrorV::Other(
            "WeChat QR not confirmed within "@ + decimal(max_wait_s as nat) + "s"@,
        ),
{
    let n: String = crate::strs::u64_string(max_wait_s);
    GatewayError::Other(concat3("WeChat QR not confirmed within ", n.as_str(), "s"))
}

/// The wait for a login to be confirmed.
#[derive(Debug, Clone, Copy, PartialEq, Eq, Structural)]
pub struct LoginWait {
    /// Milliseconds waited so far.
    pub waited_ms: u64,
    /// Milliseconds between two questions.
    pub interval_ms: u64,
    /// Milliseconds after which the login is given up.
    pub max_wait_ms: u64,
}

impl LoginWait {
    /// A wait that begins.
    pub fn new(interval_ms: u64, max_wait_ms: u64) -> (r: LoginWait)
        ensures
            r == (LoginWait { waited_ms: 0, interval_ms: interval_ms, max_wait_ms: max_wait_ms }),
    {
        LoginWait { waited_ms: 0, interval_ms: interval_ms, max_wait_ms: max_wait_ms }
    }

    /// Whether to ask again; an error once the login is given up.
    pub fn goes_on(&self) -> (r: Result<(), GatewayError>)
        ensures
            match r {
                Ok(_) => self.waited_ms < self.max_wait_ms,
                Err(e) => self.waited_ms >= self.max_wait_ms && e@ == ErrorV::Other(
                    "WeChat QR not confirmed within "@ + decimal((self.max_wait_ms / 1000) as nat)
                        + "s"@,
                ),
            },
    {
        if self.waited_ms < self.max_wait_ms {
            Ok(())
        } else {
            Err(login_timeout(self.max_wait_ms / 1000))
        }
    }

    /// Takes in an answer of the service: the login, why there is none, or that another interval
    /// is waited.
    pub fn answered(&mut self, client: &ILinkClient, data: &Json) -> (r: LoginStep)
        requires
            old(self).waited_ms + old(self).interval_ms <= u64::MAX,
        ensures
            r@ == login_step(data@, client@.base_url),
            *final(self) == if r@ is Wait {
                waited(*old(self))
            } else {
                *old(self)
            },
    {
        let r: LoginStep = client.login_step(data);
        if let LoginStep::Wait = r {
            self.waited_ms = self.waited_ms + self.interval_ms;
        }
        r
    }
}

/// A wait after an answer that leaves the login open.
pub open spec fn waited(w: LoginWait) -> LoginWait {
    LoginWait { waited_ms: (w.waited_ms + w.interval_ms) as u64, ..w }
}

/// A wait after some answers that leave the login open; once it is given up, none is asked for.
pub open spec fn waited_on(w: LoginWait, answers: nat) -> LoginWait
    decreases answers,
{
    if answers == 0 || w.waited_ms >= w.max_wait_ms {
        w
    } else {
        waited_on(waited(w), (answers - 1) as nat)
    }
}

/// A login that nobody confirms is given up: after enough answers that leave it open, the wait has
/// reached its limit.
pub proof fn open_login_is_given_up(w: LoginWait, answers: nat)
    requires
        w.max_wait_ms + w.interval_ms <= u64::MAX,
        answers * w.interval_ms >= w.max_wait_ms,
    ensures
        waited_on(w, answers).waited_ms >= w.max_wait_ms,
        waited_on(w, answers).max_wait_ms == w.max_wait_ms,
{
    open_answers_add_up(w, answers);
}

/// The wait grows by an interval with each answer, until it is given up.
proof fn open_answers_add_up(w: LoginWait, answers: nat)
    requires
        w.max_wait_ms + w.interval_ms <= u64::MAX,
    ensures
        ({
            let v = waited_on(w, answers);
            &&& v.max_wait_ms == w.max_wait_ms
            &&& v.waited_ms >= w.max_wait_ms || v.waited_ms == w.waited_ms + answers * w.interval_ms
        }),
    decreases answers,
{
    if answers > 0 && w.waited_ms < w.max_wait_ms {
        let k = (answers - 1) as nat;
        open_answers_add_up(waited(w), k);
        assert(answers * w.interval_ms == w.interval_ms + k * w.interval_ms) by (nonlinear_arith)
            requires
                answers == k + 1,
        ;
    } else if answers == 0 {
        assert(answers * w.interval_ms == 0) by (nonlinear_arith)
            requires
                answers == 0,
        ;
    }
}

// ---------------------------------------------------------------------------------------------
// Responses
// ---------------------------------------------------------------------------------------------

/// A status that says that a request succeeded.
pub open spec fn is_success(status: u16) -> bool {
    200 <= status < 300
}

/// What a response comes to. `parsed` is its body as JSON, with that as text, or what is wrong with
/// the body.
pub fn read_response(status: u16, body: String, parsed: Result<(Json, String), String>) -> (r: Result<
    Json,
    GatewayError,
>)
    ensures
        if !is_success(status) {
            r matches Err(e) && e@ == (ErrorV::Api { status: status, body: body@ })
        } else {
            match parsed {
                Err(x) => r matches Err(e) && e@ == ErrorV::Json(x@),
                Ok((v, shown)) => match ret_of(v@) {
                    Some(code) => if code != 0 {
                        r matches Err(e) && e@ == (ErrorV::Channel {
                            channel: "wechat"@,
                            message: ret_message(v@, code, shown@),
                        })
                    } else {
                        r matches Ok(x) && x@ == v@
                    },
                    None => r matches Ok(x) && x@ == v@,
                },
            }
        },
{
    if !(200 <= status && status < 300) {
        return Err(GatewayError::Api { status: status, body: body });
    }
    match parsed {
        Err(x) => Err(GatewayError::Json(x)),
        Ok((v, shown)) => match check_ilink_ret(&v, shown.as_str()) {
            Ok(_) => Ok(v),
            Err(e) => Err(e),
        },
    }
}

// ---------------------------------------------------------------------------------------------
// Requests
// ---------------------------------------------------------------------------------------------

/// The parameters of the request for a QR code.
pub fn qrcode_params(bot_type: &str) -> (r: Vec<(String, String)>)
    ensures
        r.deep_view() == seq![("bot_type"@, bot_type_or_default(bot_type@))],
{
    let mut r: Vec<(String, String)> = Vec::new();
    r.push(("bot_type".to_owned(), usual_bot_type(bot_type)));
    assert(r.deep_view() =~= seq![("bot_type"@, bot_type_or_default(bot_type@))]);
    r
}

/// What every request says of the client.
pub open spec fn base_info() -> JsonV {
    JsonV::Object(seq![("channel_version"@, JsonV::Str(CHANNEL_VERSION@))])
}

fn base_info_json() -> (r: Json)
    ensures
        r@ == base_info(),
{
    object1("channel_version", Json::text(CHANNEL_VERSION))
}

/// The body of the request for new messages.
pub fn getupdates_body(cursor: &str) -> (r: Json)
    ensures
        r@ == JsonV::Object(
            seq![("get_updates_buf"@, JsonV::Str(cursor@)), ("base_info"@, base_info())],
        ),
{
    object2("get_updates_buf", Json::text(cursor), "base_info", base_info_json())
}

/// The body of the request for the settings of a conversation.
pub fn getconfig_body(ilink_user_id: &str, context_token: &str) -> (r: Json)
    ensures
        r@ == JsonV::Object(
            seq![
                ("ilink_user_id"@, JsonV::Str(ilink_user_id@)),
                ("context_token"@, JsonV::Str(context_token@)),
                ("base_info"@, base_info()),
            ],
        ),
{
    crate::json::object3(
        "ilink_user_id",
        Json::text(ilink_user_id),
        "context_token",
        Json::text(context_token),
        "base_info",
        base_info_json(),
    )
}

/// The body of the request to show that something is being written.
pub open spec fn typing_body(user: Seq<char>, ticket: Seq<char>, status: i64) -> JsonV {
    JsonV::Object(
        seq![
            ("ilink_user_id"@, JsonV::Str(user)),
            ("typing_ticket"@, JsonV::Str(ticket)),
            ("status"@, integer_view(status)),
            ("base_info"@, base_info()),
        ],
    )
}

/// The body of the request to show that something is being written.
pub fn sendtyping_body(ilink_user_id: &str, typing_ticket: &str, status: i64) -> (r: Json)
    ensures
        r@ == typing_body(ilink_user_id@, typing_ticket@, status),
{
    let mut m: Vec<(String, Json)> = Vec::new();
    assert(m.deep_view() =~= Seq::<(Seq<char>, JsonV)>::empty());
    push_field(&mut m, "ilink_user_id", Json::text(ilink_user_id));
    push_field(&mut m, "typing_ticket", Json::text(typing_ticket));
    push_field(&mut m, "status", Json::integer(status));
    push_field(&mut m, "base_info", base_info_json());
    assert(m.deep_view() =~= typing_body(ilink_user_id@, typing_ticket@, status)->Object_0);
    Json::object(m)
}

/// The body of the request to send a message.
pub fn sendmessage_body(msg: Json) -> (r: Json)
    ensures
        r@ == JsonV::Object(seq![("msg"@, msg@), ("base_info"@, base_info())]),
{
    object2("msg", msg, "base_info", base_info_json())
}

/// A message with a text.
pub open spec fn text_message(
    to: Seq<char>,
    text: Seq<char>,
    context_token: Seq<char>,
    client_id: Seq<char>,
) -> JsonV {
    JsonV::Object(
        seq![
            ("from_user_id"@, JsonV::Str(Seq::empty())),
            ("to_user_id"@, JsonV::Str(to)),
            ("client_id"@, JsonV::Str(client_id)),
            ("message_type"@, JsonV::Number(NumberV::Unsigned(2))),
            ("message_state"@, JsonV::Number(NumberV::Unsigned(2))),
            ("context_token"@, JsonV::Str(context_token)),
            (
                "item_list"@,
                JsonV::Array(
                    seq![
                        JsonV::Object(
                            seq![
                                ("type"@, JsonV::Number(NumberV::Unsigned(1))),
                                (
                                    "text_item"@,
                                    JsonV::Object(seq![("text"@, JsonV::Str(text))]),
                                ),
                            ],
                        ),
                    ],
                ),
            ),
        ],
    )
}

/// A message with a text, under the id `client_id`.
pub fn text_message_with_id(to_user_id: &str, text: &str, context_token: &str, client_id: &str) -> (r:
    Json)
    ensures
        r@ == text_message(to_user_id@, text@, context_token@, client_id@),
{
    let item: Json = object2(
        "type",
        Json::unsigned(1),
        "text_item",
        object1("text", Json::text(text)),
    );
    let mut m: Vec<(String, Json)> = Vec::new();
    assert(m.deep_view() =~= Seq::<(Seq<char>, JsonV)>::empty());
    proof {
        reveal_strlit("");
        assert(""@ =~= Seq::<char>::empty());
    }
    push_field(&mut m, "from_user_id", Json::text(""));
    push_field(&mut m, "to_user_id", Json::text(to_user_id));
    push_field(&mut m, "client_id", Json::text(client_id));
    push_field(&mut m, "message_type", Json::unsigned(2));
    push_field(&mut m, "message_state", Json::unsigned(2));
    push_field(&mut m, "context_token", Json::text(context_token));
    push_field(&mut m, "item_list", Json::array(one_value(item)));
    assert(m.deep_view() =~= text_message(
        to_user_id@,
        text@,
        context_token@,
        client_id@,
    )->Object_0);
    Json::object(m)
}

/// A message with a text, under a fresh id.
pub fn send_text(to_user_id: &str, text: &str, context_token: &str) -> (r: Json)
    ensures
        exists|id: Seq<char>| #[trigger]
            is_uuid_text(id) && r@ == text_message(to_user_id@, text@, context_token@, id),
{
    let id: String = new_uuid();
    text_message_with_id(to_user_id, text, context_token, id.as_str())
}

// ---------------------------------------------------------------------------------------------
// Media
// ---------------------------------------------------------------------------------------------

/// How many bytes an image may have.
pub const MEDIA_LIMIT: usize = 8_388_608;

/// Where a file is fetched from: where the parameter leads to, else its URL.
pub open spec fn media_url(url: Seq<char>, param: Seq<char>) -> Result<Seq<char>, ErrorV> {
    if param.len() > 0 {
        Ok(
            "https://novac2c.cdn.weixin.qq.com/c2c/download?encrypted_query_param="@ + query_text(
                param,
            ),
        )
    } else if begins(url, "http"@) {
        Ok(url)
    } else {
        Err(ErrorV::Channel { channel: "wechat"@, message: "invalid media url: "@ + url })
    }
}

/// Lets a URL pass that leads to the host that media come from. `parsed` is what it parses to.
pub fn check_media_url(parsed: Result<UrlParts, String>) -> (r: Result<(), GatewayError>)
    ensures
        match parsed {
            Err(_) => r matches Err(e) && e@ == ErrorV::Other("invalid media URL"@),
            Ok(u) => if leads_to_media(u@) {
                r is Ok
            } else {
                r matches Err(e) && e@ == ErrorV::Other("untrusted media URL"@)
            },
        },
{
    match parsed {
        Err(_) => Err(GatewayError::other("invalid media URL")),
        Ok(u) => {
            let host: bool = match &u.host {
                Some(h) => same(h.as_str(), MEDIA_HOST),
                None => false,
            };
            if same(u.scheme.as_str(), "https") && host && u.port.is_none()
                && u.username.as_str().is_empty() && u.password.is_none() {
                Ok(())
            } else {
                Err(GatewayError::other("untrusted media URL"))
            }
        },
    }
}

/// Where a file is fetched from; an error where that is not the host that media come from. A
/// parameter always leads there, unless it is too long for a URL.
pub fn download_url(url: &str, encrypt_query_param: &str) -> (r: Result<String, GatewayError>)
    ensures
        match media_url(url@, encrypt_query_param@) {
            Err(x) => r matches Err(e) && e@ == x,
            Ok(u) => match parsed_url(u) {
                Err(_) => r matches Err(e) && e@ == ErrorV::Other("invalid media URL"@),
                Ok(p) => if leads_to_media(p) {
                    r matches Ok(x) && x@ == u
                } else {
                    r matches Err(e) && e@ == ErrorV::Other("untrusted media URL"@)
                },
            },
        },
        encrypt_query_param@.len() > 0 && media_url(url@, encrypt_query_param@)->Ok_0.len()
            < 0x1000_0000 ==> r is Ok,
{
    let u: String = if !encrypt_query_param.is_empty() {
        let p: String = url_encode(encrypt_query_param);
        concat2(
            "https://novac2c.cdn.weixin.qq.com/c2c/download?encrypted_query_param=",
            p.as_str(),
        )
    } else if starts_with(url, "http") {
        url.to_owned()
    } else {
        let m: String = concat2("invalid media url: ", url);
        return Err(wechat_error(m.as_str()));
    };
    proof {
        if encrypt_query_param@.len() > 0 {
            reveal_strlit("https://novac2c.cdn.weixin.qq.com/");
            reveal_strlit("https://novac2c.cdn.weixin.qq.com/c2c/download?encrypted_query_param=");
            let head = "https://novac2c.cdn.weixin.qq.com/"@;
            assert(u@.take(head.len() as int) =~= head);
        }
    }
    match check_media_url(parse_url(u.as_str())) {
        Ok(_) => Ok(u),
        Err(e) => Err(e),
    }
}

/// A file that is being fetched.
#[derive(Debug)]
pub struct Download {
    pub bytes: Vec<u8>,
}

impl Download {
    /// Nothing was fetched yet. `announced` is the size that the response gives.
    pub fn begin(status: u16, announced: Option<u64>) -> (r: Result<Download, GatewayError>)
        ensures
            if !is_success(status) {
                r matches Err(e) && e@ == ErrorV::Other("media download failed"@)
            } else if announced matches Some(n) && n > MEDIA_LIMIT + 16 {
                r matches Err(e) && e@ == ErrorV::Other("image too large"@)
            } else {
                r matches Ok(d) && d.bytes@.len() == 0
            },
    {
        if !(200 <= status && status < 300) {
            return Err(GatewayError::other("media download failed"));
        }
        if let Some(n) = announced {
            if n > 8_388_624 {
                return Err(GatewayError::other("image too large"));
            }
        }
        Ok(Download { bytes: Vec::new() })
    }

    /// Takes in a part of the file, where it is not too large.
    pub fn push(&mut self, chunk: &[u8]) -> (r: Result<(), GatewayError>)
        ensures
            if old(self).bytes@.len() + chunk@.len() > MEDIA_LIMIT + 16 {
                r matches Err(e) && e@ == ErrorV::Other("image too large"@)
                    && final(self).bytes@ == old(self).bytes@
            } else {
                r is Ok && final(self).bytes@ == old(self).bytes@ + chunk@
            },
    {
        let have: usize = self.bytes.len();
        let limit: usize = 8_388_624;
        if have > limit || chunk.len() > limit - have {
            return Err(GatewayError::other("image too large"));
        }
        let ghost before = self.bytes@;
        let mut i: usize = 0;
        assert(before + chunk@.take(0) =~= before);
        while i < chunk.len()
            invariant
                i <= chunk@.len(),
                self.bytes@ == before + chunk@.take(i as int),
            decreases chunk@.len() - i,
        {
            self.bytes.push(chunk[i]);
            assert(before + chunk@.take(i + 1) =~= (before + chunk@.take(i as int)).push(
                chunk@[i as int],
            ));
            i = i + 1;
        }
        assert(chunk@.take(chunk@.len() as int) == chunk@);
        Ok(())
    }

    /// The file, once all of it was fetched: opened with the key, where there is one, and not too
    /// large.
    pub fn finish(self, aes_key_b64: &str) -> (r: Result<Vec<u8>, GatewayError>)
        ensures
            ({
                let opened: Result<Seq<u8>, ErrorV> = if aes_key_b64@.len() == 0 {
                    Ok(self.bytes@)
                } else {
                    opened_under(aes_key_b64@, self.bytes@)
                };
                match opened {
                    Err(x) => r matches Err(e) && e@ == x,
                    Ok(b) => if b.len() > MEDIA_LIMIT {
                        r matches Err(e) && e@ == ErrorV::Other("image too large"@)
                    } else {
                        r matches Ok(x) && x@ == b
                    },
                }
            }),
    {
        let bytes: Vec<u8> = if aes_key_b64.is_empty() {
            self.bytes
        } else {
            match aes_ecb_decrypt(self.bytes.as_slice(), aes_key_b64) {
                Ok(b) => b,
                Err(e) => {
                    return Err(e);
                },
            }
        };
        if bytes.len() > MEDIA_LIMIT {
            return Err(GatewayError::other("image too large"));
        }
        Ok(bytes)
    }
}

// ---------------------------------------------------------------------------------------------
// Laws
// ---------------------------------------------------------------------------------------------

/// The code of a response that is refused can be read from the error.
pub proof fn refused_code_reads_back(v: JsonV, code: i64, shown: Seq<char>)
    ensures
        code_in(
            ErrorV::Channel { channel: "wechat"@, message: ret_message(v, code, shown) },
        ) == Some(code as int),
{
    let n = signed_decimal(code as int);
    let m = ret_message(v, code, shown);
    signed_reads_back(code);
    reveal_strlit("ret=");
    reveal_strlit(": ");
    reveal_strlit(":");
    let p = "ret="@;
    assert(m.take(4) =~= p);
    let rest = m.skip(4);
    assert(rest.len() > n.len());
    assert(rest.take(n.len() as int) =~= n);
    assert(rest[n.len() as int] == ':');
    first_at_from_is_first(rest, ":"@, 0);
    assert(rest.subrange(n.len() as int, n.len() as int + 1) =~= ":"@);
    assert(occurs_at(rest, ":"@, n.len() as int));
    let i = first_at(rest, ":"@)->0;
    assert(rest.subrange(i, i + 1) == ":"@);
    assert(rest.subrange(i, i + 1)[0] == ':');
    if i < n.len() {
        assert(rest.take(n.len() as int)[i] == ':');
    }
}

} // verus!
