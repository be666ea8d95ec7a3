use im_channel_gateway::admin_api::{
    accounts_body, admin_auth, error_body, health, not_enabled, removed_body,
    telegram_register_account, AdminState, LoginNext, StatusStep, WeChatQrSession,
};
use im_channel_gateway::error::GatewayError;
use im_channel_gateway::json::Json;
use im_channel_gateway::platforms::wechat::login::{QrLoginState, QrLoginStatus};

fn qr(code: &str) -> QrLoginState {
    QrLoginState {
        qrcode: code.to_string(),
        qrcode_img_content: String::new(),
    }
}

fn test_qr_session(code: &str) -> WeChatQrSession {
    WeChatQrSession {
        created_at: 0,
        user_id: None,
        qr: qr(code),
        account_id: None,
        base_url: None,
        bot_user_id: None,
    }
}

fn two_sessions() -> AdminState {
    let mut state = AdminState::new("3");
    state.qr.insert("qr_a".to_string(), test_qr_session("a"));
    state.qr.insert("qr_b".to_string(), test_qr_session("b"));
    state
}

#[test]
fn resolve_qr_session_requires_id_when_multiple_sessions_exist() {
    let state = two_sessions();
    let err = state.resolve_qr_session_id(None, None).unwrap_err();

    assert!(err.contains("multiple QR sessions"));
}

#[test]
fn resolve_qr_session_uses_requested_id() {
    let state = two_sessions();
    let id = state.resolve_qr_session_id(Some("qr_b"), None).unwrap();

    assert_eq!(id.as_deref(), Some("qr_b"));
    assert_eq!(
        state.resolve_qr_session_id(None, Some(" qr_a ")).unwrap().as_deref(),
        Some("qr_a")
    );
    assert_eq!(
        state.resolve_qr_session_id(Some("none"), None).unwrap_err(),
        "qr_session_id not found: none"
    );
    assert!(AdminState::new("3").resolve_qr_session_id(None, None).unwrap().is_none());
}

#[test]
fn token_must_be_long_and_the_same() {
    let token = "0123456789abcdef0123456789abcdef";
    assert!(admin_auth(token, Some("Bearer 0123456789abcdef0123456789abcdef")));
    assert!(!admin_auth(token, Some("Bearer 0123456789abcdef0123456789abcdee")));
    assert!(!admin_auth(token, Some("0123456789abcdef0123456789abcdef")));
    assert!(!admin_auth(token, None));
    assert!(!admin_auth("short", Some("Bearer short")));
    assert!(!admin_auth("", None));
}

fn answer(step: StatusStep) -> Json {
    match step {
        StatusStep::Answer(j) => j,
        StatusStep::Poll { .. } => panic!("an answer"),
    }
}

fn confirmed() -> QrLoginStatus {
    QrLoginStatus {
        user_id: Some("scanner".to_string()),
        status: "confirmed".to_string(),
        bot_token: Some("tok".to_string()),
        base_url: None,
        bot_user_id: Some("bot".to_string()),
    }
}

#[test]
fn login_goes_from_code_to_account() {
    let mut state = AdminState::new("3");
    assert_eq!(
        answer(state.wechat_qrcode_status(None, None, 0)).get_str("status"),
        Some("idle")
    );
    let body = state.wechat_qrcode(Ok(qr("code")), 1000);
    assert!(body.get_str("image").unwrap().starts_with("data:image/png;base64,"));
    let id = body.get_str("qr_session_id").unwrap().to_string();
    assert_eq!(id.len(), 36);
    match state.wechat_qrcode_status(Some(&id), None, 1000) {
        StatusStep::Poll { qr_session_id, qrcode } => {
            assert_eq!(qr_session_id, id);
            assert_eq!(qrcode, "code");
        }
        StatusStep::Answer(_) => panic!("the platform is asked"),
    }
    let waiting = QrLoginStatus {
        status: "wait".to_string(),
        bot_token: None,
        ..confirmed()
    };
    match state.login_status(&id, "code", &waiting, true) {
        LoginNext::Answer(j) => assert_eq!(j.get_str("status"), Some("wait")),
        LoginNext::Register { .. } => panic!("not yet"),
    }
    match state.login_status(&id, "code", &confirmed(), false) {
        LoginNext::Answer(j) => assert!(j.get_str("error").unwrap().contains("not enabled")),
        LoginNext::Register { .. } => panic!("the channel is off"),
    }
    match state.login_status(&id, "old", &confirmed(), true) {
        LoginNext::Answer(j) => assert_eq!(j.get_str("status"), Some("stale")),
        LoginNext::Register { .. } => panic!("another code"),
    }
    match state.login_status(&id, "code", &confirmed(), true) {
        LoginNext::Register { token, base_url, bot_user_id } => {
            assert_eq!((token.as_str(), base_url.as_str()), ("tok", ""));
            assert_eq!(bot_user_id.as_deref(), Some("bot"));
        }
        LoginNext::Answer(_) => panic!("the account is registered"),
    }
    let done = state.login_registered(&id, "code", &confirmed(), Ok("acc_1".to_string()));
    assert_eq!(done.get_str("account_id"), Some("acc_1"));
    let again = answer(state.wechat_qrcode_status(Some(&id), None, 2000));
    assert_eq!(again.get_str("status"), Some("confirmed"));
    assert_eq!(again.get_str("account_id"), Some("acc_1"));
    assert_eq!(again.get_str("user_id"), Some("scanner"));
    match state.login_status(&id, "code", &confirmed(), true) {
        LoginNext::Answer(j) => assert_eq!(j.get_str("account_id"), Some("acc_1")),
        LoginNext::Register { .. } => panic!("registered once"),
    }
    assert_eq!(
        answer(state.wechat_qrcode_status(Some(&id), None, 301_000)).get_str("status"),
        Some("expired")
    );
    state.forget_old(301_000);
    assert!(state.qr.get(&id).is_none());
}

#[test]
fn failures_are_answered() {
    let mut state = AdminState::new("3");
    let e = state.wechat_qrcode(Err(GatewayError::other("no net")), 0);
    assert_eq!(e.get_str("error"), Some("no net"));
    let too_long = QrLoginState {
        qrcode: "x".repeat(8000),
        qrcode_img_content: String::new(),
    };
    assert_eq!(
        state.wechat_qrcode(Ok(too_long), 0).get_str("error"),
        Some("QR image generation failed")
    );
    assert_eq!(
        answer(state.wechat_qrcode_status(Some("gone"), None, 0)).get_str("status"),
        Some("error")
    );
    let r = state.login_registered("s", "c", &confirmed(), Err(GatewayError::other("full")));
    assert_eq!(r.get_str("error"), Some("full"));
    assert_eq!(health().get_str("status"), Some("ok"));
    assert_eq!(error_body("x").get_str("error"), Some("x"));
    assert_eq!(
        not_enabled("wechat").get_str("error"),
        Some("wechat channel not enabled")
    );
    assert!(accounts_body(Ok(vec![])).get_array("accounts").unwrap().is_empty());
    assert_eq!(
        accounts_body(Err(GatewayError::other("e"))).get_str("error"),
        Some("e")
    );
    assert_eq!(
        telegram_register_account(Ok("tg_1".to_string())).get_str("status"),
        Some("registered")
    );
    assert_eq!(
        removed_body("tg_1", Ok(())).get_str("account_id"),
        Some("tg_1")
    );
    assert_eq!(
        removed_body("tg_1", Err(GatewayError::other("e"))).get_str("error"),
        Some("e")
    );
}
