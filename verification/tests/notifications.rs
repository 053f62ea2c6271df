use std::collections::VecDeque;

use openframe_console::json::{Json, Member};
use openframe_console::notification_actions::{ActionKind, Post};
use openframe_console::notifications::{
    badge, click_context, click_payload, click_uri, click_uri_with, delivery_of,
    ensure_subscription, handle_notification_uri, maybe_notify, parse_click_uri,
    payload_from_context, payload_from_context_json, receive, router_ended, should_notify,
    string_field, truncate_for_notification, Delivery, Notice, NotificationsPlane,
    SubscriptionStep, BODY_CHARS, CLICK_URI_PREFIX, URI_SCHEME,
};

fn text(s: &str) -> Json {
    Json::Text(s.to_string())
}

fn object(members: Vec<(&str, Json)>) -> Json {
    Json::Object(
        members
            .into_iter()
            .map(|(key, value)| Member {
                key: key.to_string(),
                value,
            })
            .collect(),
    )
}

#[test]
fn click_uri_roundtrip() {
    let envelope = object(vec![
        ("title", text("Ticket updated")),
        (
            "context",
            object(vec![
                ("type", text("TICKET_STATUS_CHANGED")),
                ("ticketId", text("6a4fda9ba8b65c28c4dbf6ba")),
            ]),
        ),
    ]);
    let payload = click_payload(&envelope).unwrap();
    assert_eq!(
        parse_click_uri(&click_uri(Some(&payload))).unwrap(),
        payload
    );
}

#[test]
fn click_uri_roundtrip_survives_reserved_chars() {
    let envelope = object(vec![(
        "context",
        object(vec![
            ("type", text("CLIENT_AI_MESSAGE")),
            ("dialogId", text("abc/д ф&x=1")),
        ]),
    )]);
    let payload = click_payload(&envelope).unwrap();
    assert_eq!(
        parse_click_uri(&click_uri(Some(&payload))).unwrap(),
        payload
    );
}

#[test]
fn envelopes_without_context_have_no_payload() {
    assert!(click_payload(&object(vec![("title", text("Hi"))])).is_none());
    assert!(click_payload(&object(vec![("context", text("not-an-object"))])).is_none());
    assert!(click_payload(&object(vec![(
        "context",
        object(vec![("ticketId", text(""))])
    )]))
    .is_some());
    assert_eq!(click_uri(None), CLICK_URI_PREFIX);
}

#[test]
fn click_payload_keeps_only_routing_fields() {
    let envelope = object(vec![(
        "context",
        object(vec![
            ("type", text("ADMIN_APPROVAL_REQUEST")),
            ("ticketId", text("abc")),
            (
                "approvalRequestId",
                text("0a2a0b3c-9d1e-4f5a-8b7c-6d5e4f3a2b1c"),
            ),
            (
                "toolCalls",
                Json::Array(vec![object(vec![(
                    "toolExplanation",
                    text(&"x".repeat(4096)),
                )])]),
            ),
        ]),
    )]);
    let payload = click_payload(&envelope).unwrap();
    assert_eq!(
        payload,
        object(vec![(
            "context",
            object(vec![
                (
                    "approvalRequestId",
                    text("0a2a0b3c-9d1e-4f5a-8b7c-6d5e4f3a2b1c"),
                ),
                ("ticketId", text("abc")),
                ("type", text("ADMIN_APPROVAL_REQUEST")),
            ]),
        )])
    );
    assert!(click_uri(Some(&payload)).len() < 2048);
}

#[test]
fn click_uri_prefix_uses_the_registered_scheme() {
    assert_eq!(CLICK_URI_PREFIX.split_once("://").unwrap().0, URI_SCHEME);
}

#[test]
fn only_an_updated_envelope_supersedes() {
    let updated = object(vec![
        ("title", text("Approval")),
        ("eventType", text("UPDATED")),
    ]);
    assert_eq!(delivery_of(&updated), Delivery::Update);
    for envelope in [
        object(vec![
            ("title", text("Approval")),
            ("eventType", text("CREATED")),
        ]),
        object(vec![("title", text("Approval"))]),
        object(vec![("title", text("Approval")), ("eventType", text(""))]),
        object(vec![
            ("title", text("Approval")),
            ("eventType", Json::Unsigned(7)),
        ]),
    ] {
        assert_eq!(delivery_of(&envelope), Delivery::New, "{envelope:?}");
    }
}

#[test]
fn malformed_uris_have_no_payload() {
    assert!(parse_click_uri(CLICK_URI_PREFIX).is_none());
    assert!(parse_click_uri("openframe-desktop://notify?context=%7B%7D").is_some());
    assert!(parse_click_uri("openframe-desktop://notify?context=not-json").is_none());
    assert!(parse_click_uri("openframe-desktop://notify?id=x").is_none());
    assert!(parse_click_uri("openframe-chat://notify?context=%7B%7D").is_none());
}

#[test]
fn a_click_uri_is_written_out_exactly() {
    let click = object(vec![("context", object(vec![("ticketId", text("a b"))]))]);
    assert_eq!(
        click_uri(Some(&click)),
        "openframe-desktop://notify?context=%7B%22ticketId%22%3A%22a%20b%22%7D"
    );
    assert_eq!(
        click_uri_with(Some("-_.~")),
        "openframe-desktop://notify?context=%2D%5F%2E%7E"
    );
}

#[test]
fn a_click_carries_what_is_not_text_too() {
    let envelope = object(vec![(
        "context",
        object(vec![
            ("ticketId", Json::Unsigned(7)),
            ("dialogId", Json::Signed(-3)),
            ("type", Json::Null),
        ]),
    )]);
    let payload = click_payload(&envelope).unwrap();
    assert_eq!(
        payload,
        object(vec![(
            "context",
            object(vec![
                ("dialogId", Json::Signed(-3)),
                ("ticketId", Json::Unsigned(7)),
                ("type", Json::Null),
            ])
        )])
    );
    assert_eq!(parse_click_uri(&click_uri(Some(&payload))), Some(payload));
}

#[test]
fn a_uri_is_read_with_a_slash_and_after_other_parameters() {
    assert_eq!(
        click_context("openframe-desktop://notify/?id=1&context=%7B%7D&context=x"),
        Some("{}".to_string())
    );
    assert_eq!(
        click_context("openframe-desktop://notify?context=a%zz%41"),
        Some("a%zzA".to_string())
    );
    // Bytes that are no text.
    assert_eq!(click_context("openframe-desktop://notify?context=%ff"), None);
    assert_eq!(
        click_context("openframe-desktop://notify?context=%D0%B4"),
        Some("д".to_string())
    );
    assert_eq!(payload_from_context_json("[1]"), None);
    assert_eq!(payload_from_context(Some(text("x"))), None);
    assert_eq!(payload_from_context(None), None);
    assert_eq!(
        payload_from_context_json("{\"a\":true}"),
        Some(object(vec![(
            "context",
            object(vec![("a", Json::Bool(true))])
        )]))
    );
}

#[test]
fn a_foreign_uri_is_not_a_click() {
    assert_eq!(handle_notification_uri("https://example.com"), None);
    assert_eq!(handle_notification_uri(CLICK_URI_PREFIX), Some(None));
    assert!(
        handle_notification_uri("openframe-desktop://notify?context=%7B%7D")
            .unwrap()
            .is_some()
    );
}

#[test]
fn a_field_that_is_empty_or_no_text_is_missing() {
    let value = object(vec![
        ("a", text("x")),
        ("b", text("")),
        ("c", Json::Bool(true)),
    ]);
    assert_eq!(string_field(&value, "a"), Some("x".to_string()));
    assert_eq!(string_field(&value, "b"), None);
    assert_eq!(string_field(&value, "c"), None);
    assert_eq!(string_field(&value, "d"), None);
    assert_eq!(string_field(&text("x"), "a"), None);
}

#[test]
fn long_text_is_cut_with_an_ellipsis() {
    assert_eq!(truncate_for_notification("abc", 3), "abc");
    assert_eq!(truncate_for_notification("abcd", 3), "ab…");
    assert_eq!(truncate_for_notification("дфжя", 3), "дф…");
    assert_eq!(truncate_for_notification("abcd", 0), "…");
    assert_eq!(truncate_for_notification("", 0), "");
}

#[test]
fn an_early_click_arrives_once() {
    let mut plane = NotificationsPlane::new();
    assert_eq!(plane.emit_or_stash(text("first")), None);
    assert_eq!(plane.emit_or_stash(text("second")), None);
    assert_eq!(plane.take_startup_click(), Some(text("second")));
    assert_eq!(plane.take_startup_click(), None);
    assert_eq!(plane.emit_or_stash(text("third")), Some(text("third")));
    assert_eq!(plane.stashed_click, None);
}

#[test]
fn a_reload_parks_clicks_again() {
    let mut plane = NotificationsPlane::new();
    assert_eq!(plane.take_startup_click(), None);
    plane.reset_click_gate();
    assert_eq!(plane.emit_or_stash(text("a")), None);
    plane.reset_click_gate();
    assert_eq!(plane.take_startup_click(), Some(text("a")));
}

#[test]
fn a_session_ends_without_its_clicks() {
    let mut plane = NotificationsPlane::new();
    plane.unread = 3;
    plane.emit_or_stash(text("a"));
    plane.end_session();
    assert_eq!(plane.unread, 0);
    assert_eq!(plane.take_startup_click(), None);
    plane.end_session();
    // The page goes on listening.
    assert!(plane.webview_click_ready);
    plane.unread = 2;
    plane.on_main_focused();
    assert_eq!(plane.unread, 0);
}

#[test]
fn a_badge_shows_nothing_for_zero() {
    assert_eq!(badge(0), None);
    assert_eq!(badge(7), Some(7));
    assert!(should_notify(None));
    assert!(should_notify(Some((true, false))));
    assert!(!should_notify(Some((true, true))));
}

fn approval_envelope(event: &str, resolution: Option<&str>) -> Json {
    let mut context = vec![
        ("approvalRequestId", text("req-1")),
        ("type", text("ADMIN_APPROVAL_REQUEST")),
    ];
    if let Some(resolution) = resolution {
        context.push(("resolution", text(resolution)));
    }
    object(vec![
        ("title", text("Approval")),
        ("description", text(&"d".repeat(200))),
        ("eventType", text(event)),
        ("context", object(context)),
    ])
}

fn approval_click() -> Json {
    object(vec![(
        "context",
        object(vec![
            ("approvalRequestId", text("req-1")),
            ("type", text("ADMIN_APPROVAL_REQUEST")),
        ]),
    )])
}

#[test]
fn an_envelope_is_shown_with_its_buttons() {
    let mut ring = VecDeque::new();
    let mut plane = NotificationsPlane::new();
    let notice = maybe_notify(
        &mut ring,
        &mut plane,
        &approval_envelope("CREATED", None),
        "u-1",
        true,
        false,
    );
    assert_eq!(
        notice,
        Notice::Shown {
            badge: Some(1),
            post: Post {
                title: "Approval".to_string(),
                body: format!("{}…", "d".repeat(BODY_CHARS - 1)),
                click: Some(approval_click()),
                user_id: Some("u-1".to_string()),
                kind: ActionKind::Approval,
                delivery: Delivery::New,
            }
        }
    );
    assert_eq!(plane.unread, 1);
}

#[test]
fn an_update_is_not_counted_and_comes_without_buttons() {
    let mut ring = VecDeque::new();
    let mut plane = NotificationsPlane::new();
    let update = approval_envelope("UPDATED", Some("APPROVED"));
    // Nobody is interrupted for it, but on Windows it lands on the banner it supersedes.
    assert_eq!(
        maybe_notify(&mut ring, &mut plane, &update, "u-1", false, false),
        Notice::Unneeded
    );
    assert_eq!(ring.len(), 1);
    match maybe_notify(&mut ring, &mut plane, &update, "u-1", false, true) {
        Notice::Shown { badge, post } => {
            assert_eq!(badge, None);
            assert_eq!(post.kind, ActionKind::Default);
            assert_eq!(post.delivery, Delivery::Update);
        }
        other => panic!("an update must land on its banner, not {other:?}"),
    }
    assert_eq!(plane.unread, 0);
    assert_eq!(ring.len(), 1);
}

#[test]
fn a_verdict_is_read_from_the_attributes_too() {
    let mut ring = VecDeque::new();
    let mut plane = NotificationsPlane::new();
    let envelope = object(vec![(
        "attributes",
        object(vec![
            ("approvalRequestId", text("req-2")),
            ("resolution", text("cancelled")),
        ]),
    )]);
    assert_eq!(
        maybe_notify(&mut ring, &mut plane, &envelope, "u-1", true, true),
        Notice::Untitled
    );
    assert_eq!(ring, VecDeque::from(vec!["req-2".to_string()]));
}

#[test]
fn a_verdict_in_the_attributes_takes_the_buttons_off() {
    let mut ring = VecDeque::new();
    let mut plane = NotificationsPlane::new();
    let envelope = object(vec![
        ("title", text("Approval")),
        (
            "attributes",
            object(vec![
                ("approvalRequestId", text("req-1")),
                ("resolution", text("REJECTED")),
            ]),
        ),
        (
            "context",
            object(vec![
                ("approvalRequestId", text("req-1")),
                ("type", text("ADMIN_APPROVAL_REQUEST")),
            ]),
        ),
    ]);
    match maybe_notify(&mut ring, &mut plane, &envelope, "u-1", true, false) {
        Notice::Shown { post, .. } => assert_eq!(post.kind, ActionKind::Default),
        other => panic!("the envelope must be shown, not {other:?}"),
    }
}

#[test]
fn the_unread_count_stays_at_its_end() {
    let mut ring = VecDeque::new();
    let mut plane = NotificationsPlane::new();
    plane.unread = u32::MAX;
    let envelope = object(vec![("title", text("Hi"))]);
    maybe_notify(&mut ring, &mut plane, &envelope, "u-1", true, false);
    assert_eq!(plane.unread, u32::MAX);
}

#[test]
fn a_message_off_the_wire_is_read() {
    let mut ring = VecDeque::new();
    let mut plane = NotificationsPlane::new();
    assert_eq!(
        receive(&mut ring, &mut plane, b"not json", "u", true, false),
        None
    );
    assert_eq!(
        receive(&mut ring, &mut plane, b"{\"title\":\"Hi\"}", "u", true, false),
        Some(Notice::Shown {
            badge: Some(1),
            post: Post {
                title: "Hi".to_string(),
                body: String::new(),
                click: None,
                user_id: Some("u".to_string()),
                kind: ActionKind::Default,
                delivery: Delivery::New,
            }
        })
    );
}

#[test]
fn a_subscription_follows_the_user() {
    assert_eq!(
        ensure_subscription(Some("user.a.notification"), None),
        SubscriptionStep::Leave
    );
    assert_eq!(
        ensure_subscription(Some("user.a.notification"), Some("a")),
        SubscriptionStep::Keep
    );
    assert_eq!(
        ensure_subscription(Some("user.a.notification"), Some("b")),
        SubscriptionStep::Subscribe {
            subject: "user.b.notification".to_string(),
            replaces: true
        }
    );
    assert_eq!(
        ensure_subscription(None, Some("a")),
        SubscriptionStep::Subscribe {
            subject: "user.a.notification".to_string(),
            replaces: false
        }
    );
    assert!(router_ended(Some("s"), "s"));
    assert!(!router_ended(Some("t"), "s"));
    assert!(!router_ended(None, "s"));
}
