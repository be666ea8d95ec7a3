//! What a login by QR code says of itself.

use vstd::prelude::*;

use crate::error::{ErrorV, GatewayError};
use crate::json::{field, text, text_field, text_field_or, Json, JsonV};
use crate::strs::{same, trim, trimmed};

verus! {

/// A QR code to be scanned.
#[derive(Debug)]
pub struct QrLoginState {
    pub qrcode: String,
    pub qrcode_img_content: String,
}

/// What a QR code holds.
#[verifier::ext_equal]
pub struct QrV {
    pub qrcode: Seq<char>,
    pub qrcode_img_content: Seq<char>,
}

impl View for QrLoginState {
    type V = QrV;

    open spec fn view(&self) -> QrV {
        QrV { qrcode: self.qrcode@, qrcode_img_content: self.qrcode_img_content@ }
    }
}

/// How far a login has come.
#[derive(Debug)]
pub struct QrLoginStatus {
    /// Who scanned the code.
    pub user_id: Option<String>,
    pub status: String,
    pub bot_token: Option<String>,
    pub base_url: Option<String>,
    pub bot_user_id: Option<String>,
}

/// What a status holds.
#[verifier::ext_equal]
pub struct StatusV {
    pub user_id: Option<Seq<char>>,
    pub status: Seq<char>,
    pub bot_token: Option<Seq<char>>,
    pub base_url: Option<Seq<char>>,
    pub bot_user_id: Option<Seq<char>>,
}

impl View for QrLoginStatus {
    type V = StatusV;

    open spec fn view(&self) -> StatusV {
        StatusV {
            user_id: self.user_id.deep_view(),
            status: self.status@,
            bot_token: self.bot_token.deep_view(),
            base_url: self.base_url.deep_view(),
            bot_user_id: self.bot_user_id.deep_view(),
        }
    }
}

/// A text, trimmed, where it is not blank.
pub open spec fn unless_blank(t: Option<Seq<char>>) -> Option<Seq<char>> {
    match t {
        Some(s) => if trimmed(s).len() > 0 {
            Some(trimmed(s))
        } else {
            None
        },
        None => None,
    }
}

/// A text, trimmed, where it is not blank.
pub fn trim_unless_blank(t: Option<&str>) -> (r: Option<String>)
    ensures
        r.deep_view() == unless_blank(t.deep_view()),
{
    match t {
        Some(s) => {
            let x: &str = trim(s);
            if x.is_empty() {
                None
            } else {
                Some(x.to_owned())
            }
        },
        None => None,
    }
}

/// The text of the member named `k`, trimmed, where it is not blank.
pub open spec fn said_field(v: JsonV, k: Seq<char>) -> Option<Seq<char>> {
    unless_blank(text_field(v, k))
}

/// The text of the member named `key`, trimmed, where it is not blank.
pub fn get_said(v: &Json, key: &str) -> (r: Option<String>)
    ensures
        r.deep_view() == said_field(v@, key@),
{
    trim_unless_blank(v.get_str(key))
}

/// The member named `a`, or that named `b` where there is none.
pub open spec fn either_field(v: JsonV, a: Seq<char>, b: Seq<char>) -> Option<JsonV> {
    match field(v, a) {
        Some(x) => Some(x),
        None => field(v, b),
    }
}

/// The member named `a`, or that named `b` where there is none.
pub fn get_either<'a>(v: &'a Json, a: &str, b: &str) -> (r: Option<&'a Json>)
    ensures
        r.deep_view() == either_field(v@, a@, b@),
{
    match v.get(a) {
        Some(x) => Some(x),
        None => v.get(b),
    }
}

/// The text of a value that is one.
pub open spec fn text_in(v: Option<JsonV>) -> Option<Seq<char>> {
    match v {
        Some(x) => text(x),
        None => None,
    }
}

/// The text of a value that is one.
pub fn as_text<'a>(v: Option<&'a Json>) -> (r: Option<&'a str>)
    ensures
        r.deep_view() == text_in(v.deep_view()),
{
    match v {
        Some(x) => x.as_str(),
        None => None,
    }
}

/// The first of the texts that there is.
pub open spec fn first_of(a: Option<Seq<char>>, b: Option<Seq<char>>) -> Option<Seq<char>> {
    match a {
        Some(x) => Some(x),
        None => b,
    }
}

/// What a response says of a login. A confirmed login must bring a token.
pub open spec fn login_status(v: JsonV) -> Result<StatusV, ErrorV> {
    let status = text_field_or(v, "status"@, "waiting"@);
    let token = said_field(v, "bot_token"@);
    if status == "confirmed"@ && token is None {
        Err(ErrorV::Channel { channel: "wechat"@, message: "QR confirmed without bot_token"@ })
    } else {
        Ok(
            StatusV {
                user_id: first_of(said_field(v, "ilink_user_id"@), said_field(v, "user_id"@)),
                status: status,
                bot_token: token,
                base_url: unless_blank(text_in(either_field(v, "baseurl"@, "base_url"@))),
                bot_user_id: first_of(
                    said_field(v, "ilink_bot_id"@),
                    first_of(said_field(v, "bot_user_id"@), said_field(v, "botUserId"@)),
                ),
            },
        )
    }
}

/// The text of the first of two members that says something.
pub fn get_first_said(v: &Json, a: &str, b: &str) -> (r: Option<String>)
    ensures
        r.deep_view() == first_of(said_field(v@, a@), said_field(v@, b@)),
{
    match get_said(v, a) {
        Some(x) => Some(x),
        None => get_said(v, b),
    }
}

/// What a response says of a login.
pub fn qr_login_status_from_response(data: &Json) -> (r: Result<QrLoginStatus, GatewayError>)
    ensures
        match r {
            Ok(s) => login_status(data@) == Ok::<StatusV, ErrorV>(s@),
            Err(e) => login_status(data@) == Err::<StatusV, ErrorV>(e@),
        },
{
    let status: String = data.get_string_or("status", "waiting");
    let bot_token: Option<String> = get_said(data, "bot_token");
    if same(status.as_str(), "confirmed") && bot_token.is_none() {
        return Err(
            GatewayError::Channel {
                channel: "wechat".to_owned(),
                message: "QR confirmed without bot_token".to_owned(),
            },
        );
    }
    let base_url: Option<String> = trim_unless_blank(
        as_text(get_either(data, "baseurl", "base_url")),
    );
    let bot_user_id: Option<String> = match get_said(data, "ilink_bot_id") {
        Some(x) => Some(x),
        None => get_first_said(data, "bot_user_id", "botUserId"),
    };
    Ok(
        QrLoginStatus {
            user_id: get_first_said(data, "ilink_user_id", "user_id"),
            status: status,
            bot_token: bot_token,
            base_url: base_url,
            bot_user_id: bot_user_id,
        },
    )
}

/// Who scanned a code is never taken for the bot.
pub proof fn scanner_is_not_the_bot(v: JsonV, status: StatusV)
    requires
        login_status(v) == Ok::<StatusV, ErrorV>(status),
        said_field(v, "ilink_bot_id"@) is None,
        said_field(v, "bot_user_id"@) is None,
        said_field(v, "botUserId"@) is None,
    ensures
        status.bot_user_id is None,
{
}

/// The QR code that a response brings.
pub open spec fn qr_of(v: JsonV) -> Option<QrV> {
    match text_field(v, "qrcode"@) {
        Some(q) => Some(
            QrV {
                qrcode: q,
                qrcode_img_content: text_field_or(v, "qrcode_img_content"@, Seq::empty()),
            },
        ),
        None => None,
    }
}

/// The QR code that a response brings; `None` where it brings none.
pub fn parse_qr_response(data: &Json) -> (r: Option<QrLoginState>)
    ensures
        match r {
            Some(q) => qr_of(data@) == Some(q@),
            None => qr_of(data@) is None,
        },
{
    match data.get_str("qrcode") {
        Some(q) => Some(
            QrLoginState {
                qrcode: q.to_owned(),
                qrcode_img_content: data.get_string("qrcode_img_content"),
            },
        ),
        None => None,
    }
}

/// The QR code to start a login with; empty where the response brings none.
pub fn started_login(data: &Json) -> (r: QrLoginState)
    ensures
        r@ == (QrV {
            qrcode: text_field_or(data@, "qrcode"@, Seq::empty()),
            qrcode_img_content: text_field_or(data@, "qrcode_img_content"@, Seq::empty()),
        }),
{
    QrLoginState {
        qrcode: data.get_string("qrcode"),
        qrcode_img_content: data.get_string("qrcode_img_content"),
    }
}

/// The QR code to log in with at a terminal; without one there is no login.
pub fn cli_login(data: &Json) -> (r: Result<QrLoginState, GatewayError>)
    ensures
        match r {
            Ok(q) => qr_of(data@) == Some(q@),
            Err(e) => qr_of(data@) is None && e@ == ErrorV::Other("missing qrcode"@),
        },
{
    match parse_qr_response(data) {
        Some(q) => Ok(q),
        None => Err(GatewayError::other("missing qrcode")),
    }
}

} // verus!
