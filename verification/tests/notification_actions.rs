use std::collections::VecDeque;

use openframe_console::chat_api::{ApiReply, ApiRequest, Session};
use openframe_console::json::{Json, Member};
use openframe_console::notification_actions::{
    announce_dialog_change, approval_request_id, begin_action, context_str, dialog_id,
    finish_action, forget_resolved, is_resolved, kind_for, live_kind_for, note_resolution,
    remember, remember_resolved, report, Action, ActionContext, ActionKind, ActionStep, Outcome,
    Post, RESOLVED_MEMORY,
};
use openframe_console::notifications::Delivery;

fn text(s: &str) -> Json {
    Json::Text(s.to_string())
}

fn object(members: Vec<(&str, Json)>) -> Json {
    Json::Object(
        members
            .into_iter()
            .map(|(key, value)| Member {
                key: key.to_string(),
                value,
            })
            .collect(),
    )
}

fn click(context: Json) -> Json {
    object(vec![("context", context)])
}

#[test]
fn actionable_contexts_get_their_buttons() {
    assert_eq!(
        kind_for(Some(&click(object(vec![
            ("type", text("ADMIN_APPROVAL_REQUEST")),
            ("approvalRequestId", text("req-1")),
        ])))),
        ActionKind::Approval
    );
    assert_eq!(
        kind_for(Some(&click(object(vec![
            ("type", text("ADMIN_AI_MESSAGE")),
            ("dialogId", text("dlg-1")),
        ])))),
        ActionKind::Message
    );
}

#[test]
fn contexts_without_the_id_the_action_needs_stay_default() {
    assert_eq!(
        kind_for(Some(&click(object(vec![
            ("type", text("ADMIN_APPROVAL_REQUEST")),
            ("ticketId", text("t-1")),
        ])))),
        ActionKind::Default
    );
    assert_eq!(
        kind_for(Some(&click(object(vec![
            ("type", text("ADMIN_AI_MESSAGE")),
            ("dialogId", text("")),
        ])))),
        ActionKind::Default
    );
    assert_eq!(
        kind_for(Some(&click(object(vec![
            ("type", text("TICKET_ASSIGNED")),
            ("ticketId", text("t-1")),
        ])))),
        ActionKind::Default
    );
    assert_eq!(kind_for(None), ActionKind::Default);
}

fn approval(request_id: &str) -> Json {
    click(object(vec![
        ("type", text("ADMIN_APPROVAL_REQUEST")),
        ("approvalRequestId", text(request_id)),
    ]))
}

#[test]
fn only_a_terminal_resolution_settles_a_request() {
    let mut ring = VecDeque::new();
    let pending = object(vec![
        ("type", text("ADMIN_APPROVAL_REQUEST")),
        ("approvalRequestId", text("wire-pending")),
        ("resolution", text("PENDING")),
    ]);
    note_resolution(&mut ring, Some(&pending));
    assert!(!is_resolved(&ring, "wire-pending"));

    for (i, resolution) in ["APPROVED", "rejected", "CANCELLED"].iter().enumerate() {
        let id = format!("wire-settled-{i}");
        note_resolution(
            &mut ring,
            Some(&object(vec![
                ("type", text("ADMIN_APPROVAL_REQUEST")),
                ("approvalRequestId", text(&id)),
                ("resolution", text(resolution)),
            ])),
        );
        assert!(
            is_resolved(&ring, &id),
            "{resolution} should settle the request"
        );
    }

    // Nothing to record: no verdict, no id, no context at all.
    note_resolution(
        &mut ring,
        Some(&object(vec![("approvalRequestId", text("wire-bare"))])),
    );
    assert!(!is_resolved(&ring, "wire-bare"));
    note_resolution(&mut ring, None);
    assert_eq!(ring.len(), 3);
}

#[test]
fn a_resolved_request_loses_its_buttons() {
    let mut ring = VecDeque::new();
    let payload = approval("resolved-req-1");
    assert_eq!(live_kind_for(&ring, Some(&payload)), ActionKind::Approval);
    remember_resolved(&mut ring, "resolved-req-1");
    assert_eq!(live_kind_for(&ring, Some(&payload)), ActionKind::Default);
    // Only that request: a decision still open keeps its buttons.
    assert_eq!(
        live_kind_for(&ring, Some(&approval("resolved-req-2"))),
        ActionKind::Approval
    );
    // And what the payload could earn is unchanged.
    assert_eq!(kind_for(Some(&payload)), ActionKind::Approval);
}

#[test]
fn the_resolved_window_forgets_oldest_first() {
    let mut ring = VecDeque::new();
    for i in 0..RESOLVED_MEMORY + 8 {
        remember(&mut ring, &format!("evicted-{i}"));
    }
    assert_eq!(ring.len(), RESOLVED_MEMORY);
    assert!(!ring.iter().any(|id| id == "evicted-0"));
    assert!(ring
        .iter()
        .any(|id| *id == format!("evicted-{}", RESOLVED_MEMORY + 7)));
    // Repeats do not consume the window.
    remember(&mut ring, "evicted-70");
    assert_eq!(ring.len(), RESOLVED_MEMORY);
}

#[test]
fn only_approvals_have_an_identity_to_supersede() {
    assert_eq!(
        approval_request_id(Some(&approval("req-1"))).as_deref(),
        Some("req-1")
    );
    assert!(approval_request_id(Some(&click(object(vec![
        ("type", text("ADMIN_AI_MESSAGE")),
        ("dialogId", text("dlg-1")),
    ]))))
    .is_none());
    assert!(approval_request_id(Some(&click(object(vec![
        ("type", text("TICKET_ASSIGNED")),
        ("ticketId", text("t-1")),
    ]))))
    .is_none());
    assert!(approval_request_id(None).is_none());
    // The id an approval carries is the id a press resolves: a payload whose id did not
    // survive the projection has neither.
    assert!(approval_request_id(Some(&click(object(vec![
        ("type", text("ADMIN_APPROVAL_REQUEST")),
        ("ticketId", text("t-1")),
    ]))))
    .is_none());
}

#[test]
fn a_failed_reply_carries_the_text_back() {
    let failed = Action::Reply("ship it".into()).failed("the gateway could not be reached");
    assert!(failed.contains("ship it"));
    assert!(!Action::Approve.failed("nope").contains("Your reply"));
}

#[test]
fn banners_are_worded_exactly() {
    assert_eq!(
        Action::Reply("ship it".into()).failed("HTTP 500"),
        "Could not send the reply — HTTP 500. Your reply: ship it"
    );
    assert_eq!(Action::Reject.failed("no"), "Could not reject — no.");
    assert_eq!(Action::Approve.done(), "Approved");
    assert_eq!(Action::Reject.done(), "Rejected");
    assert_eq!(Action::Reply(String::new()).done(), "Reply sent");
    assert_eq!(Action::Approve.verb(), "approve");
}

#[test]
fn a_sign_out_forgets_every_decision() {
    let mut ring = VecDeque::new();
    remember_resolved(&mut ring, "a");
    assert!(is_resolved(&ring, "a"));
    forget_resolved(&mut ring);
    assert!(!is_resolved(&ring, "a"));
    assert!(ring.is_empty());
}

fn message(dialog: &str) -> Json {
    click(object(vec![
        ("type", text("ADMIN_AI_MESSAGE")),
        ("dialogId", text(dialog)),
    ]))
}

fn context(payload: Option<Json>, user: Option<&str>) -> ActionContext {
    ActionContext {
        title: "Mingo".to_string(),
        payload,
        user_id: user.map(str::to_string),
    }
}

fn session() -> Session {
    Session {
        access_token: "bearer".to_string(),
        user_id: "u-1".to_string(),
    }
}

fn base() -> Option<String> {
    Some("https://tenant".to_string())
}

#[test]
fn only_the_user_it_was_delivered_to_may_act() {
    let ring = VecDeque::new();
    let delivered = context(Some(approval("r/1")), Some("u-1"));
    assert_eq!(
        begin_action(&ring, None, base(), &delivered, &Action::Approve),
        Err("no one is signed in — open OpenFrame and sign in, then try again".to_string())
    );
    for user in [None, Some("u-2")] {
        assert_eq!(
            begin_action(
                &ring,
                Some(&session()),
                base(),
                &context(Some(approval("r/1")), user),
                &Action::Approve
            ),
            Err("this notification belongs to a different account".to_string())
        );
    }
    assert_eq!(
        begin_action(&ring, Some(&session()), base(), &delivered, &Action::Approve),
        Ok(ActionStep::Call(ApiRequest {
            url: "https://tenant/chat/api/v1/approval-requests/r%2F1/approve".to_string(),
            bearer: "bearer".to_string(),
            body: "{\"approve\":true}".to_string(),
        }))
    );
    assert_eq!(
        begin_action(&ring, Some(&session()), base(), &delivered, &Action::Reject),
        Ok(ActionStep::Call(ApiRequest {
            url: "https://tenant/chat/api/v1/approval-requests/r%2F1/approve".to_string(),
            bearer: "bearer".to_string(),
            body: "{\"approve\":false}".to_string(),
        }))
    );
}

#[test]
fn a_press_without_what_it_needs_is_refused() {
    let ring = VecDeque::new();
    let bare = context(None, Some("u-1"));
    assert_eq!(
        begin_action(&ring, Some(&session()), base(), &bare, &Action::Reject),
        Err("this notification carries no approval request".to_string())
    );
    assert_eq!(
        begin_action(
            &ring,
            Some(&session()),
            base(),
            &bare,
            &Action::Reply("x".to_string())
        ),
        Err("this notification carries no conversation".to_string())
    );
    assert_eq!(
        begin_action(
            &ring,
            Some(&session()),
            None,
            &context(Some(approval("r")), Some("u-1")),
            &Action::Approve
        ),
        Err("this install has not learned a tenant host yet".to_string())
    );
}

#[test]
fn a_reply_goes_to_its_conversation() {
    let ring = VecDeque::new();
    assert_eq!(
        begin_action(
            &ring,
            Some(&session()),
            base(),
            &context(Some(message("dlg-1")), Some("u-1")),
            &Action::Reply("ship \"it\"".to_string())
        ),
        Ok(ActionStep::Call(ApiRequest {
            url: "https://tenant/chat/api/v1/messages".to_string(),
            bearer: "bearer".to_string(),
            body: "{\"chatType\":\"ADMIN_AI_CHAT\",\"content\":\"ship \\\"it\\\"\",\"dialogId\":\"dlg-1\"}"
                .to_string(),
        }))
    );
    assert_eq!(dialog_id(Some(&message("dlg-1"))), Some("dlg-1".to_string()));
    assert_eq!(dialog_id(Some(&approval("r"))), None);
    assert_eq!(context_str(Some(&approval("r")), "approvalRequestId"), Some("r".to_string()));
}

fn answered(code: u16, status: &str, body: Option<&str>) -> ApiReply {
    ApiReply::Answered {
        code,
        status: status.to_string(),
        body: body.map(str::to_string),
    }
}

#[test]
fn a_conflict_means_already_resolved() {
    let mut ring = VecDeque::new();
    let delivered = context(Some(approval("r")), Some("u-1"));
    assert_eq!(
        finish_action(
            &mut ring,
            &delivered,
            &Action::Approve,
            answered(409, "409 Conflict", None)
        ),
        Ok(Outcome::AlreadyResolved)
    );
    assert!(is_resolved(&ring, "r"));
    // From now on nothing is sent for it.
    assert_eq!(
        begin_action(&ring, Some(&session()), base(), &delivered, &Action::Reject),
        Ok(ActionStep::AlreadyResolved)
    );
    // A reply's conflict is a failure like any other.
    assert_eq!(
        finish_action(
            &mut ring,
            &context(Some(message("d")), Some("u-1")),
            &Action::Reply("x".to_string()),
            answered(409, "409 Conflict", None)
        ),
        Err("HTTP 409 Conflict".to_string())
    );
}

#[test]
fn a_completed_press_is_remembered_and_a_failed_one_is_not() {
    let mut ring = VecDeque::new();
    let delivered = context(Some(approval("r")), Some("u-1"));
    assert_eq!(
        finish_action(
            &mut ring,
            &delivered,
            &Action::Approve,
            answered(403, "403 Forbidden", Some("{\"message\":\" nope \"}"))
        ),
        Err("nope".to_string())
    );
    assert!(!is_resolved(&ring, "r"));
    assert_eq!(
        finish_action(
            &mut ring,
            &delivered,
            &Action::Approve,
            answered(204, "204 No Content", None)
        ),
        Ok(Outcome::Done)
    );
    assert!(is_resolved(&ring, "r"));
    assert_eq!(
        finish_action(
            &mut ring,
            &context(Some(message("d")), Some("u-1")),
            &Action::Reply("x".to_string()),
            answered(200, "200 OK", None)
        ),
        Ok(Outcome::Done)
    );
    assert_eq!(ring.len(), 1);
}

#[test]
fn a_success_is_confirmed_over_the_original() {
    let ring = VecDeque::new();
    let delivered = context(Some(approval("r")), Some("u-1"));
    assert_eq!(
        report(&ring, &delivered, &Action::Approve, Ok(Outcome::Done)),
        Post {
            title: "Approved".to_string(),
            body: "Mingo".to_string(),
            click: Some(approval("r")),
            user_id: None,
            kind: ActionKind::Default,
            delivery: Delivery::New,
        }
    );
    assert_eq!(
        report(&ring, &delivered, &Action::Reject, Ok(Outcome::AlreadyResolved)).title,
        "Already resolved"
    );
}

#[test]
fn a_failure_gives_the_decision_back() {
    let mut ring = VecDeque::new();
    let delivered = context(Some(approval("r")), Some("u-1"));
    assert_eq!(
        report(&ring, &delivered, &Action::Approve, Err("HTTP 500".to_string())),
        Post {
            title: "Mingo".to_string(),
            body: "Could not approve — HTTP 500.".to_string(),
            click: Some(approval("r")),
            user_id: Some("u-1".to_string()),
            kind: ActionKind::Approval,
            delivery: Delivery::New,
        }
    );
    remember_resolved(&mut ring, "r");
    assert_eq!(
        report(&ring, &delivered, &Action::Approve, Err("HTTP 500".to_string())).kind,
        ActionKind::Default
    );
}

#[test]
fn only_a_press_that_wrote_is_announced() {
    let in_dialog = context(
        Some(click(object(vec![
            ("type", text("ADMIN_APPROVAL_REQUEST")),
            ("approvalRequestId", text("r")),
            ("dialogId", text("d")),
        ]))),
        Some("u-1"),
    );
    assert_eq!(
        announce_dialog_change(&in_dialog, &Ok(Outcome::Done)),
        Some(object(vec![("dialogId", text("d"))]))
    );
    assert_eq!(
        announce_dialog_change(&in_dialog, &Ok(Outcome::AlreadyResolved)),
        None
    );
    assert_eq!(
        announce_dialog_change(&in_dialog, &Err("no".to_string())),
        None
    );
    assert_eq!(
        announce_dialog_change(&context(Some(approval("r")), None), &Ok(Outcome::Done)),
        None
    );
}
