//! The interface to manage the gateway: who may use it, what it answers, and the logins by QR code
//! that it has begun.

use vstd::prelude::*;

use crate::codec::{base64_encode, base64_text, sha256_digest, sha256_of};
use crate::error::{error_text, GatewayError};
use crate::ids::{is_uuid_text, new_uuid};
use crate::json::{object1, object2, push_field, Json, JsonV};
use crate::platforms::runners::{text_or_null, text_to_json};
use crate::platforms::wechat::login::{unless_blank, QrLoginState, QrLoginStatus, QrV, StatusV};
use crate::platforms::wechat::qr_terminal::{
    base64_payload, decode_payload_from_png_b64, paint_qr, painted_qr, resolve_scan_url, scan_url,
    QrLevel,
};
use crate::platforms::wechat::login::trim_unless_blank;
use crate::strs::{begins, byte_len, byte_len_within, chars_of, concat2, same, strip_prefix};
use crate::table::{
    held, held_kept, held_lookup, held_with, kept, lookup, pairs, with_entry, with_entry_lookup,
    Table,
};

verus! {

/// How long the token of the interface has to be at least, in bytes.
pub const MIN_TOKEN_BYTES: usize = 32;

/// Milliseconds for which a login by QR code stays open.
pub const QR_SESSION_TTL_MS: u64 = 300_000;

// ---------------------------------------------------------------------------------------------
// Who may use the interface
// ---------------------------------------------------------------------------------------------

/// The token that a request brings.
pub open spec fn supplied_token(authorization: Option<Seq<char>>) -> Seq<char> {
    match authorization {
        Some(h) => if begins(h, "Bearer "@) {
            h.skip("Bearer "@.len() as int)
        } else {
            Seq::empty()
        },
        None => Seq::empty(),
    }
}

/// Whether a request may pass: the token is long enough, and the request brings one with the same
/// digest.
pub open spec fn may_pass(expected: Seq<char>, authorization: Option<Seq<char>>) -> bool {
    byte_len(expected) >= MIN_TOKEN_BYTES && sha256_of(expected) == sha256_of(
        supplied_token(authorization),
    )
}

fn equal_digests(a: &Vec<u8>, b: &Vec<u8>) -> (r: bool)
    requires
        a@.len() == b@.len(),
    ensures
        r == (a@ == b@),
{
    let mut mismatch: u8 = 0;
    let mut i: usize = 0;
    assert(a@.take(0) == b@.take(0));
    while i < a.len()
        invariant
            i <= a@.len(),
            a@.len() == b@.len(),
            (mismatch == 0) == (a@.take(i as int) == b@.take(i as int)),
        decreases a@.len() - i,
    {
        let x: u8 = a[i];
        let y: u8 = b[i];
        let m: u8 = mismatch;
        assert(((m | (x ^ y)) == 0) == (m == 0 && x == y)) by (bit_vector);
        proof {
            assert(a@.take(i + 1) =~= a@.take(i as int).push(x));
            assert(b@.take(i + 1) =~= b@.take(i as int).push(y));
            if a@.take(i + 1) == b@.take(i + 1) {
                assert(a@.take(i + 1)[i as int] == b@.take(i + 1)[i as int]);
                assert(a@.take(i as int) =~= a@.take(i + 1).take(i as int));
                assert(b@.take(i as int) =~= b@.take(i + 1).take(i as int));
            }
        }
        mismatch = m | (x ^ y);
        i = i + 1;
    }
    assert(a@.take(a@.len() as int) == a@);
    assert(b@.take(b@.len() as int) == b@);
    mismatch == 0
}

/// Whether a request may pass.
pub fn admin_auth(expected: &str, authorization: Option<&str>) -> (r: bool)
    ensures
        r == may_pass(expected@, authorization.deep_view()),
{
    let supplied: &str = match authorization {
        Some(h) => match strip_prefix(h, "Bearer ") {
            Some(t) => t,
            None => "",
        },
        None => "",
    };
    proof {
        reveal_strlit("");
        assert(""@ =~= Seq::<char>::empty());
        assert(supplied@ =~= supplied_token(authorization.deep_view()));
    }
    let a: Vec<u8> = sha256_digest(expected);
    let b: Vec<u8> = sha256_digest(supplied);
    let alike: bool = equal_digests(&a, &b);
    let chars: Vec<char> = chars_of(expected);
    let short: bool = byte_len_within(&chars, MIN_TOKEN_BYTES - 1).is_some();
    !short && alike
}

// ---------------------------------------------------------------------------------------------
// Short answers
// ---------------------------------------------------------------------------------------------

/// The answer that all is well.
pub fn health() -> (r: Json)
    ensures
        r@ == JsonV::Object(seq![("status"@, JsonV::Str("ok"@))]),
{
    object1("status", Json::text("ok"))
}

/// The answer that something failed.
pub fn error_body(message: &str) -> (r: Json)
    ensures
        r@ == JsonV::Object(seq![("error"@, JsonV::Str(message@))]),
{
    object1("error", Json::text(message))
}

/// The answer that a channel is off.
pub fn not_enabled(channel: &str) -> (r: Json)
    ensures
        r@ == JsonV::Object(seq![("error"@, JsonV::Str(channel@ + " channel not enabled"@))]),
{
    let m: String = concat2(channel, " channel not enabled");
    error_body(m.as_str())
}

/// The answer with the accounts of a channel.
pub fn accounts_body(listed: Result<Vec<Json>, GatewayError>) -> (r: Json)
    ensures
        r@ == JsonV::Object(
            seq![
                match listed {
                    Ok(v) => ("accounts"@, JsonV::Array(v.deep_view())),
                    Err(e) => ("error"@, JsonV::Str(error_text(e@))),
                },
            ],
        ),
{
    match listed {
        Ok(v) => object1("accounts", Json::array(v)),
        Err(e) => {
            let m: String = e.message();
            error_body(m.as_str())
        },
    }
}

/// The answer to a change of an account.
pub open spec fn changed(status: Seq<char>, id: Seq<char>) -> JsonV {
    JsonV::Object(seq![("status"@, JsonV::Str(status)), ("account_id"@, JsonV::Str(id))])
}

/// The answer to the registration of a Telegram account.
pub fn telegram_register_account(result: Result<String, GatewayError>) -> (r: Json)
    ensures
        r@ == match result {
            Ok(id) => changed("registered"@, id@),
            Err(e) => JsonV::Object(seq![("error"@, JsonV::Str(error_text(e@)))]),
        },
{
    match result {
        Ok(id) => object2(
            "status",
            Json::text("registered"),
            "account_id",
            Json::text(id.as_str()),
        ),
        Err(e) => {
            let m: String = e.message();
            error_body(m.as_str())
        },
    }
}

/// The answer to the removal of an account.
pub fn removed_body(account_id: &str, result: Result<(), GatewayError>) -> (r: Json)
    ensures
        r@ == match result {
            Ok(()) => changed("removed"@, account_id@),
            Err(e) => JsonV::Object(seq![("error"@, JsonV::Str(error_text(e@)))]),
        },
{
    match result {
        Ok(()) => object2(
            "status",
            Json::text("removed"),
            "account_id",
            Json::text(account_id),
        ),
        Err(e) => {
            let m: String = e.message();
            error_body(m.as_str())
        },
    }
}

// ---------------------------------------------------------------------------------------------
// Logins by QR code
// ---------------------------------------------------------------------------------------------

/// A login by QR code, and what it came to.
#[derive(Debug)]
pub struct WeChatQrSession {
    pub created_at: u64,
    pub user_id: Option<String>,
    pub qr: QrLoginState,
    pub account_id: Option<String>,
    pub base_url: Option<String>,
    pub bot_user_id: Option<String>,
}

/// What a login holds.
#[verifier::ext_equal]
pub struct SessionV {
    pub created_at: u64,
    pub user_id: Option<Seq<char>>,
    pub qr: QrV,
    pub account_id: Option<Seq<char>>,
    pub base_url: Option<Seq<char>>,
    pub bot_user_id: Option<Seq<char>>,
}

impl View for WeChatQrSession {
    type V = SessionV;

    open spec fn view(&self) -> SessionV {
        SessionV {
            created_at: self.created_at,
            user_id: self.user_id.deep_view(),
            qr: self.qr@,
            account_id: self.account_id.deep_view(),
            base_url: self.base_url.deep_view(),
            bot_user_id: self.bot_user_id.deep_view(),
        }
    }
}

impl DeepView for WeChatQrSession {
    type V = SessionV;

    open spec fn deep_view(&self) -> SessionV {
        self@
    }
}

fn dup_text(t: &Option<String>) -> (r: Option<String>)
    ensures
        r.deep_view() == t.deep_view(),
{
    match t {
        Some(s) => Some(s.clone()),
        None => None,
    }
}

fn text_ref(t: &Option<String>) -> (r: Option<&str>)
    ensures
        r.deep_view() == t.deep_view(),
{
    match t {
        Some(s) => Some(s.as_str()),
        None => None,
    }
}

impl WeChatQrSession {
    /// A copy of the login.
    pub fn dup(&self) -> (r: WeChatQrSession)
        ensures
            r@ == self@,
    {
        WeChatQrSession {
            created_at: self.created_at,
            user_id: dup_text(&self.user_id),
            qr: QrLoginState {
                qrcode: self.qr.qrcode.clone(),
                qrcode_img_content: self.qr.qrcode_img_content.clone(),
            },
            account_id: dup_text(&self.account_id),
            base_url: dup_text(&self.base_url),
            bot_user_id: dup_text(&self.bot_user_id),
        }
    }
}

/// The logins by QR code that the interface has begun.
pub struct AdminState {
    pub qr: Table<WeChatQrSession>,
    pub bot_type: String,
}

/// What the interface keeps in mind.
#[verifier::ext_equal]
pub struct AdminV {
    pub qr: Seq<(Seq<char>, SessionV)>,
    pub bot_type: Seq<char>,
}

impl View for AdminState {
    type V = AdminV;

    open spec fn view(&self) -> AdminV {
        AdminV { qr: held(self.qr@), bot_type: self.bot_type@ }
    }
}

/// Whether a login is still open.
pub open spec fn is_open(s: SessionV, now: u64) -> bool {
    now - s.created_at < QR_SESSION_TTL_MS
}

/// Those of the logins that are still open.
pub open spec fn open_sessions(m: Seq<(Seq<char>, SessionV)>, now: u64) -> Seq<(Seq<char>, SessionV)>
    decreases m.len(),
{
    if m.len() == 0 {
        m
    } else if is_open(m.last().1, now) {
        open_sessions(m.drop_last(), now).push(m.last())
    } else {
        open_sessions(m.drop_last(), now)
    }
}

/// The login that a request asks about.
pub open spec fn requested(
    m: Seq<(Seq<char>, SessionV)>,
    qr_session_id: Option<Seq<char>>,
    session_id: Option<Seq<char>>,
) -> Result<Option<Seq<char>>, Seq<char>> {
    let asked = unless_blank(
        match qr_session_id {
            Some(id) => Some(id),
            None => session_id,
        },
    );
    match asked {
        Some(id) => if lookup(m, id) is Some {
            Ok(Some(id))
        } else {
            Err("qr_session_id not found: "@ + id)
        },
        None => if m.len() == 0 {
            Ok(None)
        } else if m.len() == 1 {
            Ok(Some(m[0].0))
        } else {
            Err("multiple QR sessions exist; pass qr_session_id from /api/channels/wechat/qrcode"@)
        },
    }
}

/// The answer to how far a login has come.
pub open spec fn status_body(
    user_id: Option<Seq<char>>,
    status: Seq<char>,
    session: Seq<char>,
    account_id: Option<Seq<char>>,
    base_url: Option<Seq<char>>,
    bot_user_id: Option<Seq<char>>,
) -> JsonV {
    JsonV::Object(
        seq![
            ("user_id"@, text_or_null(user_id)),
            ("status"@, JsonV::Str(status)),
            ("qr_session_id"@, JsonV::Str(session)),
            ("account_id"@, text_or_null(account_id)),
            ("base_url"@, text_or_null(base_url)),
            ("bot_user_id"@, text_or_null(bot_user_id)),
        ],
    )
}

fn make_status(
    user_id: &Option<String>,
    status: &str,
    session: &str,
    account_id: Option<&str>,
    base_url: &Option<String>,
    bot_user_id: &Option<String>,
) -> (r: Json)
    ensures
        r@ == status_body(
            user_id.deep_view(),
            status@,
            session@,
            account_id.deep_view(),
            base_url.deep_view(),
            bot_user_id.deep_view(),
        ),
{
    let mut m: Vec<(String, Json)> = Vec::new();
    assert(m.deep_view() =~= Seq::<(Seq<char>, JsonV)>::empty());
    push_field(&mut m, "user_id", text_to_json(text_ref(user_id)));
    push_field(&mut m, "status", Json::text(status));
    push_field(&mut m, "qr_session_id", Json::text(session));
    push_field(&mut m, "account_id", text_to_json(account_id));
    push_field(&mut m, "base_url", text_to_json(text_ref(base_url)));
    push_field(&mut m, "bot_user_id", text_to_json(text_ref(bot_user_id)));
    assert(m.deep_view() =~= status_body(
        user_id.deep_view(),
        status@,
        session@,
        account_id.deep_view(),
        base_url.deep_view(),
        bot_user_id.deep_view(),
    )->Object_0);
    Json::object(m)
}

/// An answer with a status alone.
pub open spec fn plain_status(status: Seq<char>) -> JsonV {
    JsonV::Object(seq![("status"@, JsonV::Str(status))])
}

/// The answer that a login failed.
pub open spec fn failed_status(message: Seq<char>) -> JsonV {
    JsonV::Object(seq![("status"@, JsonV::Str("error"@)), ("error"@, JsonV::Str(message))])
}

/// The answer that a login failed.
pub fn status_error(message: &str) -> (r: Json)
    ensures
        r@ == failed_status(message@),
{
    object2("status", Json::text("error"), "error", Json::text(message))
}

/// The answer where a login is done.
pub open spec fn confirmed(id: Seq<char>, s: SessionV) -> JsonV {
    status_body(s.user_id, "confirmed"@, id, s.account_id, s.base_url, s.bot_user_id)
}

/// What comes next when a request asks how far a login has come.
#[derive(Debug)]
pub enum StatusStep {
    Answer(Json),
    /// Ask the platform how far the code has come.
    Poll { qr_session_id: String, qrcode: String },
}

/// What comes next, with the answer as a value.
#[verifier::ext_equal]
pub enum StatusStepV {
    Answer(JsonV),
    Poll { qr_session_id: Seq<char>, qrcode: Seq<char> },
}

impl View for StatusStep {
    type V = StatusStepV;

    open spec fn view(&self) -> StatusStepV {
        match self {
            StatusStep::Answer(j) => StatusStepV::Answer(j@),
            StatusStep::Poll { qr_session_id, qrcode } => StatusStepV::Poll {
                qr_session_id: qr_session_id@,
                qrcode: qrcode@,
            },
        }
    }
}

/// What comes next when a request asks how far a login has come.
pub open spec fn status_step(
    m: Seq<(Seq<char>, SessionV)>,
    qr_session_id: Option<Seq<char>>,
    session_id: Option<Seq<char>>,
    now: u64,
) -> StatusStepV {
    match requested(m, qr_session_id, session_id) {
        Err(e) => StatusStepV::Answer(failed_status(e)),
        Ok(None) => StatusStepV::Answer(plain_status("idle"@)),
        Ok(Some(id)) => match lookup(m, id) {
            None => StatusStepV::Answer(plain_status("idle"@)),
            Some(s) => if !is_open(s, now) {
                StatusStepV::Answer(plain_status("expired"@))
            } else if s.account_id is Some {
                StatusStepV::Answer(confirmed(id, s))
            } else {
                StatusStepV::Poll { qr_session_id: id, qrcode: s.qr.qrcode }
            },
        },
    }
}

/// What comes next when the platform has told how far a code has come.
#[derive(Debug)]
pub enum LoginNext {
    Answer(Json),
    /// Register the account that the login brought.
    Register { token: String, base_url: String, bot_user_id: Option<String> },
}

/// What comes next, with the answer as a value.
#[verifier::ext_equal]
pub enum LoginNextV {
    Answer(JsonV),
    Register { token: Seq<char>, base_url: Seq<char>, bot_user_id: Option<Seq<char>> },
}

impl View for LoginNext {
    type V = LoginNextV;

    open spec fn view(&self) -> LoginNextV {
        match self {
            LoginNext::Answer(j) => LoginNextV::Answer(j@),
            LoginNext::Register { token, base_url, bot_user_id } => LoginNextV::Register {
                token: token@,
                base_url: base_url@,
                bot_user_id: bot_user_id.deep_view(),
            },
        }
    }
}

/// What comes next when the platform has told how far a code has come.
pub open spec fn login_next(
    m: Seq<(Seq<char>, SessionV)>,
    id: Seq<char>,
    qrcode: Seq<char>,
    s: StatusV,
    has_channel: bool,
) -> LoginNextV {
    let told = LoginNextV::Answer(
        status_body(s.user_id, s.status, id, None, s.base_url, s.bot_user_id),
    );
    if s.status != "confirmed"@ {
        told
    } else {
        match lookup(m, id) {
            None => LoginNextV::Answer(plain_status("idle"@)),
            Some(session) => if session.qr.qrcode != qrcode {
                LoginNextV::Answer(plain_status("stale"@))
            } else if session.account_id is Some {
                LoginNextV::Answer(confirmed(id, session))
            } else if !has_channel {
                LoginNextV::Answer(
                    failed_status(
                        "wechat channel not enabled; start gateway with channels.wechat.enabled = true"@,
                    ),
                )
            } else {
                match s.bot_token {
                    Some(token) => LoginNextV::Register {
                        token: token,
                        base_url: match s.base_url {
                            Some(u) => u,
                            None => Seq::empty(),
                        },
                        bot_user_id: s.bot_user_id,
                    },
                    None => told,
                }
            },
        }
    }
}

/// The logins after the account of one was registered.
pub open spec fn with_login(
    m: Seq<(Seq<char>, SessionV)>,
    id: Seq<char>,
    qrcode: Seq<char>,
    s: StatusV,
    account_id: Seq<char>,
) -> Seq<(Seq<char>, SessionV)> {
    match lookup(m, id) {
        Some(session) => if session.qr.qrcode == qrcode {
            with_entry(
                m,
                id,
                SessionV {
                    account_id: Some(account_id),
                    user_id: s.user_id,
                    base_url: s.base_url,
                    bot_user_id: s.bot_user_id,
                    ..session
                },
            )
        } else {
            m
        },
        None => m,
    }
}

/// What the code of a login says: what the image that came with it holds, else the URL to scan.
pub open spec fn code_payload(qr: QrV, bot_type: Seq<char>) -> Seq<char> {
    match base64_payload(qr.qrcode_img_content) {
        Ok(p) => p,
        Err(_) => scan_url(qr.qrcode, qr.qrcode_img_content, bot_type),
    }
}

/// An image of a login as a URL, where `png` is what the code is as an image.
pub open spec fn code_image(png: Result<Seq<u8>, (bool, Seq<char>)>) -> Option<Seq<char>> {
    match png {
        Ok(b) => Some("data:image/png;base64,"@ + base64_text(b)),
        Err(_) => None,
    }
}

/// The answer with the code of a login.
pub open spec fn code_body(id: Seq<char>, qr: QrV, image: Seq<char>) -> JsonV {
    JsonV::Object(
        seq![
            ("qr_session_id"@, JsonV::Str(id)),
            ("qrcode"@, JsonV::Str(qr.qrcode)),
            ("qrcode_img_content"@, JsonV::Str(qr.qrcode_img_content)),
            ("image"@, JsonV::Str(image)),
        ],
    )
}

/// A login that has just begun.
pub open spec fn new_session(qr: QrV, now: u64) -> SessionV {
    SessionV {
        created_at: now,
        user_id: None,
        qr: qr,
        account_id: None,
        base_url: None,
        bot_user_id: None,
    }
}

fn qr_image(qr: &QrLoginState, bot_type: &str) -> (r: Option<String>)
    ensures
        r.deep_view() == code_image(painted_qr(code_payload(qr@, bot_type@))),
{
    let payload: String = match decode_payload_from_png_b64(qr.qrcode_img_content.as_str()) {
        Ok(p) => p,
        Err(_) => resolve_scan_url(
            qr.qrcode.as_str(),
            qr.qrcode_img_content.as_str(),
            bot_type,
        ),
    };
    match paint_qr(payload.as_str(), QrLevel::Medium) {
        Ok(b) => {
            let encoded: String = base64_encode(b.as_slice());
            Some(concat2("data:image/png;base64,", encoded.as_str()))
        },
        Err(_) => None,
    }
}

impl AdminState {
    /// No login has begun.
    pub fn new(bot_type: &str) -> (r: AdminState)
        ensures
            r@ == (AdminV { qr: Seq::empty(), bot_type: bot_type@ }),
    {
        let r: AdminState = AdminState { qr: Table::new(), bot_type: bot_type.to_owned() };
        assert(held(r.qr@) =~= Seq::<(Seq<char>, SessionV)>::empty());
        r
    }

    /// Forgets the logins that are no longer open.
    pub fn forget_old(&mut self, now: u64)
        ensures
            final(self)@ == (AdminV { qr: open_sessions(old(self)@.qr, now), ..old(self)@ }),
    {
        let ghost all = self@.qr;
        let mut open: Vec<bool> = Vec::new();
        let mut i: usize = 0;
        let es: &Vec<(String, WeChatQrSession)> = self.qr.entries();
        while i < es.len()
            invariant
                i <= es@.len(),
                pairs(es@) == self.qr@,
                all == held(self.qr@),
                open@.len() == i,
                kept(all.take(i as int), open@) == open_sessions(all.take(i as int), now),
            decreases es@.len() - i,
        {
            let e: &(String, WeChatQrSession) = &es[i];
            let ghost before = open@;
            open.push(now < e.1.created_at || now - e.1.created_at < QR_SESSION_TTL_MS);
            proof {
                assert(all.take(i + 1).drop_last() == all.take(i as int));
                assert(all.take(i + 1).last() == (e.0@, e.1@));
                assert(open@.drop_last() == before);
            }
            i = i + 1;
        }
        proof {
            assert(all.take(all.len() as int) == all);
            held_kept(self.qr@, open@);
        }
        self.qr.keep(&open);
    }

    /// Opens a login with the code that the platform gave, or answers why there is none.
    pub fn wechat_qrcode(&mut self, begun: Result<QrLoginState, GatewayError>, now: u64) -> (r: Json)
        ensures
            match begun {
                Err(e) => r@ == JsonV::Object(seq![("error"@, JsonV::Str(error_text(e@)))])
                    && final(self)@ == old(self)@,
                Ok(qr) => match code_image(painted_qr(code_payload(qr@, old(self)@.bot_type))) {
                    None => r@ == JsonV::Object(
                        seq![("error"@, JsonV::Str("QR image generation failed"@))],
                    ) && final(self)@ == old(self)@,
                    Some(image) => exists|id: Seq<char>| #[trigger]
                        is_uuid_text(id) && r@ == code_body(id, qr@, image) && final(self)@ == (
                        AdminV {
                            qr: with_entry(old(self)@.qr, id, new_session(qr@, now)),
                            ..old(self)@
                        }),
                },
            },
    {
        let qr: QrLoginState = match begun {
            Ok(qr) => qr,
            Err(e) => {
                let m: String = e.message();
                return error_body(m.as_str());
            },
        };
        let image: String = match qr_image(&qr, self.bot_type.as_str()) {
            Some(i) => i,
            None => {
                return error_body("QR image generation failed");
            },
        };
        let id: String = new_uuid();
        let mut m: Vec<(String, Json)> = Vec::new();
        assert(m.deep_view() =~= Seq::<(Seq<char>, JsonV)>::empty());
        push_field(&mut m, "qr_session_id", Json::text(id.as_str()));
        push_field(&mut m, "qrcode", Json::text(qr.qrcode.as_str()));
        push_field(&mut m, "qrcode_img_content", Json::text(qr.qrcode_img_content.as_str()));
        push_field(&mut m, "image", Json::text(image.as_str()));
        assert(m.deep_view() =~= code_body(id@, qr@, image@)->Object_0);
        let ghost q = qr@;
        let s: WeChatQrSession = WeChatQrSession {
            created_at: now,
            user_id: None,
            qr: qr,
            account_id: None,
            base_url: None,
            bot_user_id: None,
        };
        proof {
            held_with(self.qr@, id@, s);
            assert(s@ =~= new_session(q, now));
        }
        self.qr.insert(id.clone(), s);
        assert(is_uuid_text(id@));
        assert(self@ =~= AdminV {
            qr: with_entry(old(self)@.qr, id@, new_session(q, now)),
            ..old(self)@
        });
        Json::object(m)
    }

    /// The login that a request asks about.
    pub fn resolve_qr_session_id(&self, qr_session_id: Option<&str>, session_id: Option<&str>) -> (r:
        Result<Option<String>, String>)
        ensures
            requested(self@.qr, qr_session_id.deep_view(), session_id.deep_view()) == (match r {
                Ok(id) => Ok::<Option<Seq<char>>, Seq<char>>(id.deep_view()),
                Err(e) => Err::<Option<Seq<char>>, Seq<char>>(e@),
            }),
    {
        let asked: Option<String> = trim_unless_blank(
            match qr_session_id {
                Some(id) => Some(id),
                None => session_id,
            },
        );
        if let Some(id) = asked {
            proof {
                held_lookup(self.qr@, id@);
            }
            if self.qr.contains_key(id.as_str()) {
                return Ok(Some(id));
            }
            return Err(concat2("qr_session_id not found: ", id.as_str()));
        }
        let es: &Vec<(String, WeChatQrSession)> = self.qr.entries();
        assert(self@.qr.len() == es@.len());
        if es.len() == 0 {
            Ok(None)
        } else if es.len() == 1 {
            assert(self@.qr[0].0 == es@[0].0@);
            Ok(Some(es[0].0.clone()))
        } else {
            Err(
                "multiple QR sessions exist; pass qr_session_id from /api/channels/wechat/qrcode".to_owned(),
            )
        }
    }

    /// What comes next when a request asks how far a login has come.
    pub fn wechat_qrcode_status(
        &self,
        qr_session_id: Option<&str>,
        session_id: Option<&str>,
        now: u64,
    ) -> (r: StatusStep)
        ensures
            r@ == status_step(
                self@.qr,
                qr_session_id.deep_view(),
                session_id.deep_view(),
                now,
            ),
    {
        let id: String = match self.resolve_qr_session_id(qr_session_id, session_id) {
            Ok(Some(id)) => id,
            Ok(None) => {
                return StatusStep::Answer(object1("status", Json::text("idle")));
            },
            Err(e) => {
                return StatusStep::Answer(status_error(e.as_str()));
            },
        };
        proof {
            held_lookup(self.qr@, id@);
        }
        match self.qr.get(id.as_str()) {
            None => StatusStep::Answer(object1("status", Json::text("idle"))),
            Some(s) => {
                if now >= s.created_at && now - s.created_at >= QR_SESSION_TTL_MS {
                    return StatusStep::Answer(object1("status", Json::text("expired")));
                }
                match &s.account_id {
                    Some(account) => {
                        StatusStep::Answer(
                            make_status(
                                &s.user_id,
                                "confirmed",
                                id.as_str(),
                                Some(account.as_str()),
                                &s.base_url,
                                &s.bot_user_id,
                            ),
                        )
                    },
                    None => StatusStep::Poll { qr_session_id: id, qrcode: s.qr.qrcode.clone() },
                }
            },
        }
    }

    /// What comes next when the platform has told how far a code has come.
    pub fn login_status(
        &self,
        qr_session_id: &str,
        qrcode: &str,
        status: &QrLoginStatus,
        has_channel: bool,
    ) -> (r: LoginNext)
        ensures
            r@ == login_next(self@.qr, qr_session_id@, qrcode@, status@, has_channel),
    {
        if same(status.status.as_str(), "confirmed") {
            proof {
                held_lookup(self.qr@, qr_session_id@);
            }
            match self.qr.get(qr_session_id) {
                None => {
                    return LoginNext::Answer(object1("status", Json::text("idle")));
                },
                Some(s) => {
                    if !same(s.qr.qrcode.as_str(), qrcode) {
                        return LoginNext::Answer(object1("status", Json::text("stale")));
                    }
                    if let Some(account) = &s.account_id {
                        return LoginNext::Answer(
                            make_status(
                                &s.user_id,
                                "confirmed",
                                qr_session_id,
                                Some(account.as_str()),
                                &s.base_url,
                                &s.bot_user_id,
                            ),
                        );
                    }
                },
            }
            if !has_channel {
                return LoginNext::Answer(
                    status_error(
                        "wechat channel not enabled; start gateway with channels.wechat.enabled = true",
                    ),
                );
            }
            if let Some(token) = &status.bot_token {
                let base_url: String = match &status.base_url {
                    Some(u) => u.clone(),
                    None => {
                        let e: String = String::new();
                        assert(e@ =~= Seq::<char>::empty());
                        e
                    },
                };
                return LoginNext::Register {
                    token: token.clone(),
                    base_url: base_url,
                    bot_user_id: dup_text(&status.bot_user_id),
                };
            }
        }
        LoginNext::Answer(
            make_status(
                &status.user_id,
                status.status.as_str(),
                qr_session_id,
                None,
                &status.base_url,
                &status.bot_user_id,
            ),
        )
    }

    /// Takes note of the account that a login brought, and answers.
    pub fn login_registered(
        &mut self,
        qr_session_id: &str,
        qrcode: &str,
        status: &QrLoginStatus,
        registered: Result<String, GatewayError>,
    ) -> (r: Json)
        ensures
            match registered {
                Ok(id) => {
                    &&& final(self)@ == (AdminV {
                        qr: with_login(old(self)@.qr, qr_session_id@, qrcode@, status@, id@),
                        ..old(self)@
                    })
                    &&& r@ == status_body(
                        status@.user_id,
                        status@.status,
                        qr_session_id@,
                        Some(id@),
                        status@.base_url,
                        status@.bot_user_id,
                    )
                },
                Err(e) => r@ == failed_status(error_text(e@)) && final(self)@ == old(self)@,
            },
    {
        let id: String = match registered {
            Ok(id) => id,
            Err(e) => {
                let m: String = e.message();
                return status_error(m.as_str());
            },
        };
        proof {
            held_lookup(self.qr@, qr_session_id@);
        }
        let mut changed: Option<WeChatQrSession> = None;
        if let Some(s) = self.qr.get(qr_session_id) {
            if same(s.qr.qrcode.as_str(), qrcode) {
                let mut n: WeChatQrSession = s.dup();
                n.account_id = Some(id.clone());
                n.user_id = dup_text(&status.user_id);
                n.base_url = dup_text(&status.base_url);
                n.bot_user_id = dup_text(&status.bot_user_id);
                assert(n@ =~= SessionV {
                    account_id: Some(id@),
                    user_id: status@.user_id,
                    base_url: status@.base_url,
                    bot_user_id: status@.bot_user_id,
                    ..s@
                });
                changed = Some(n);
            }
        }
        if let Some(n) = changed {
            proof {
                held_with(self.qr@, qr_session_id@, n);
            }
            self.qr.insert(qr_session_id.to_owned(), n);
        }
        assert(self@ =~= AdminV {
            qr: with_login(old(self)@.qr, qr_session_id@, qrcode@, status@, id@),
            ..old(self)@
        });
        make_status(
            &status.user_id,
            status.status.as_str(),
            qr_session_id,
            Some(id.as_str()),
            &status.base_url,
            &status.bot_user_id,
        )
    }
}

// ---------------------------------------------------------------------------------------------
// Laws
// ---------------------------------------------------------------------------------------------

/// A login registers its account once: from then on the answer is that account, and the platform
/// is not asked again.
pub proof fn login_registers_once(
    m: Seq<(Seq<char>, SessionV)>,
    id: Seq<char>,
    session: SessionV,
    s: StatusV,
    account_id: Seq<char>,
    now: u64,
    has_channel: bool,
)
    requires
        lookup(m, id) == Some(session),
        unless_blank(Some(id)) == Some(id),
        is_open(session, now),
    ensures
        ({
            let m2 = with_login(m, id, session.qr.qrcode, s, account_id);
            let answer = StatusStepV::Answer(
                status_body(
                    s.user_id,
                    "confirmed"@,
                    id,
                    Some(account_id),
                    s.base_url,
                    s.bot_user_id,
                ),
            );
            &&& status_step(m2, Some(id), None, now) == answer
            &&& !(login_next(m2, id, session.qr.qrcode, s, has_channel) is Register)
        }),
{
    let n = SessionV {
        account_id: Some(account_id),
        user_id: s.user_id,
        base_url: s.base_url,
        bot_user_id: s.bot_user_id,
        ..session
    };
    with_entry_lookup(m, id, n, id);
}

/// A login that is no longer open is not brought to an end: the platform is not asked.
pub proof fn expired_login_is_not_polled(
    m: Seq<(Seq<char>, SessionV)>,
    id: Seq<char>,
    session: SessionV,
    now: u64,
)
    requires
        lookup(m, id) == Some(session),
        unless_blank(Some(id)) == Some(id),
        !is_open(session, now),
    ensures
        status_step(m, Some(id), None, now) == StatusStepV::Answer(plain_status("expired"@)),
{
}

} // verus!
