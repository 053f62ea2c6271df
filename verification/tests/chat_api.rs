use openframe_console::chat_api::{
    active_session, approval_of, error_from, error_message, outcome_of, reply_error, session_at,
    ApiReply, ApprovalOutcome, Session, MAX_ERROR_CHARS,
};
use openframe_console::tokens::NativeAuthTokens;

#[test]
fn error_message_prefers_the_gateways_text() {
    assert_eq!(
        error_message(r#"{"message":"Approval request already resolved"}"#).as_deref(),
        Some("Approval request already resolved")
    );
    assert_eq!(
        error_message(r#"{"error":"Forbidden"}"#).as_deref(),
        Some("Forbidden")
    );
    assert_eq!(error_message(r#"{"message":"  "}"#), None);
    assert_eq!(error_message("<html>502</html>"), None);
}

#[test]
fn error_message_is_bounded() {
    let long = format!(r#"{{"message":"{}"}}"#, "x".repeat(4096));
    let message = error_message(&long).unwrap();
    assert_eq!(message.chars().count(), MAX_ERROR_CHARS);
    assert!(message.ends_with('…'));
}

#[test]
fn a_blank_message_does_not_give_way_to_the_error() {
    assert_eq!(
        error_message(r#"{"message":" ","error":"Forbidden"}"#),
        None
    );
    // One that is no text does.
    assert_eq!(
        error_message(r#"{"message":7,"error":" Forbidden "}"#).as_deref(),
        Some("Forbidden")
    );
    assert_eq!(error_from(None), None);
}

fn answered(code: u16, body: Option<&str>) -> ApiReply {
    ApiReply::Answered {
        code,
        status: format!("{code} Words"),
        body: body.map(str::to_string),
    }
}

fn post_outcome(reply: ApiReply) -> Result<(), String> {
    let said = reply_error(&reply);
    outcome_of(reply, said)
}

fn approval_outcome(reply: ApiReply) -> Result<ApprovalOutcome, String> {
    let said = reply_error(&reply);
    approval_of(reply, said)
}

#[test]
fn every_reply_has_its_result() {
    assert_eq!(post_outcome(answered(201, None)), Ok(()));
    assert_eq!(
        post_outcome(answered(500, Some("{\"error\":\"Broken\"}"))),
        Err("Broken".to_string())
    );
    assert_eq!(
        post_outcome(answered(500, Some("<html>"))),
        Err("HTTP 500 Words".to_string())
    );
    assert_eq!(
        post_outcome(ApiReply::Unreachable),
        Err("the gateway could not be reached".to_string())
    );
    assert_eq!(
        post_outcome(ApiReply::NotSent("builder".to_string())),
        Err("builder".to_string())
    );
    assert_eq!(
        approval_outcome(answered(409, Some("{\"message\":\"late\"}"))),
        Ok(ApprovalOutcome::AlreadyResolved)
    );
    assert_eq!(
        approval_outcome(answered(200, None)),
        Ok(ApprovalOutcome::Resolved)
    );
    assert_eq!(
        approval_outcome(answered(404, None)),
        Err("HTTP 404 Words".to_string())
    );
}

#[test]
fn a_session_needs_a_live_token_with_a_user() {
    let text = |s: &str| Some(s.to_string());
    assert_eq!(
        session_at(text("t"), Some(100), text("u"), 99),
        Some(Session {
            access_token: "t".to_string(),
            user_id: "u".to_string(),
        })
    );
    assert_eq!(session_at(text("t"), Some(100), text("u"), 100), None);
    assert_eq!(session_at(text("t"), None, None, 0), None);
    assert_eq!(session_at(None, None, text("u"), 0), None);
    assert!(session_at(text("t"), None, text("u"), u64::MAX).is_some());
}

fn token_with(payload: &str) -> String {
    let payload =
        base64::Engine::encode(&base64::engine::general_purpose::URL_SAFE_NO_PAD, payload);
    format!("header.{payload}.signature")
}

#[test]
fn the_active_session_is_read_off_the_token() {
    let fresh = |token: Option<String>| NativeAuthTokens {
        access_token: token,
        refresh_token: None,
    };
    let token = token_with(r#"{"userId":"u-1"}"#);
    assert_eq!(
        active_session(fresh(Some(token.clone()))),
        Some(Session {
            access_token: token,
            user_id: "u-1".to_string(),
        })
    );
    assert_eq!(
        active_session(fresh(Some(token_with(r#"{"userId":"u-1","exp":1}"#)))),
        None
    );
    assert_eq!(active_session(fresh(Some(token_with("{}")))), None);
    assert_eq!(active_session(fresh(None)), None);
}
