use openframe_console::json::{Json, Member};
use openframe_console::notification_actions::{Action, ActionKind, Post};
use openframe_console::notifications::Delivery;
use openframe_console::windows_toast::{
    encode_action_args, encode_args_with, escape_xml, handle_activation, parse_action_args, post,
    press_for, suppress_popup, toast_tag, toast_xml, Activation, Press, APPROVE_ACTION,
    REJECT_ACTION, REPLY_ACTION, REPLY_INPUT_ID, TAG_LIMIT, TEXT_BUDGET,
};

fn text(s: &str) -> Json {
    Json::Text(s.to_string())
}

fn object(members: Vec<(&str, Json)>) -> Json {
    Json::Object(
        members
            .into_iter()
            .map(|(key, value)| Member {
                key: key.to_string(),
                value,
            })
            .collect(),
    )
}

fn approval_click() -> Json {
    object(vec![(
        "context",
        object(vec![
            (
                "approvalRequestId",
                text("0a2a0b3c-9d1e-4f5a-8b7c-6d5e4f3a2b1c"),
            ),
            ("type", text("ADMIN_APPROVAL_REQUEST")),
        ]),
    )])
}

fn message_click(dialog: &str) -> Json {
    object(vec![(
        "context",
        object(vec![
            ("dialogId", text(dialog)),
            ("type", text("ADMIN_AI_MESSAGE")),
        ]),
    )])
}

#[test]
fn action_args_roundtrip() {
    let click = approval_click();
    let args = encode_action_args(APPROVE_ACTION, "Mingo", Some("user-1"), Some(&click));
    let parsed = parse_action_args(&args).unwrap();
    assert_eq!(parsed.action, APPROVE_ACTION);
    assert_eq!(parsed.context.title, "Mingo");
    assert_eq!(parsed.context.user_id.as_deref(), Some("user-1"));
    assert_eq!(parsed.context.payload.as_ref(), Some(&click));
}

#[test]
fn action_args_survive_reserved_chars() {
    let click = message_click("abc/д ф&x=1");
    let args = encode_action_args(REPLY_ACTION, "a&b=c д", Some("u&1"), Some(&click));
    let parsed = parse_action_args(&args).unwrap();
    assert_eq!(parsed.context.title, "a&b=c д");
    assert_eq!(parsed.context.user_id.as_deref(), Some("u&1"));
    assert_eq!(parsed.context.payload.as_ref(), Some(&click));
}

#[test]
fn action_args_without_a_user_or_context_still_parse() {
    let parsed = parse_action_args(&encode_action_args(REJECT_ACTION, "Mingo", None, None));
    let parsed = parsed.unwrap();
    assert_eq!(parsed.context.user_id, None);
    assert_eq!(parsed.context.payload, None);
}

#[test]
fn strings_that_name_no_action_are_rejected() {
    assert!(parse_action_args("").is_none());
    assert!(parse_action_args("title=Mingo&user=u1").is_none());
    assert!(parse_action_args("openframe-console://notify?context=%7B%7D").is_none());
    // A malformed pair is skipped, not fatal.
    assert_eq!(
        parse_action_args("garbage&action=approve").unwrap().action,
        APPROVE_ACTION
    );
}

#[test]
fn a_toast_stays_well_inside_the_payload_cap() {
    for filler in ["'", "🔒", "д", "x"] {
        let xml = toast_xml(
            &filler.repeat(4096),
            &filler.repeat(64 * 1024),
            Some(&approval_click()),
            Some("0a2a0b3c-9d1e-4f5a-8b7c-6d5e4f3a2b1c"),
            ActionKind::Approval,
        );
        assert!(
            xml.len() < 4096,
            "toast xml of {filler} was {} bytes",
            xml.len()
        );
    }
}

#[test]
fn actionable_toasts_activate_the_com_activator() {
    let approval = toast_xml(
        "t",
        "b",
        Some(&approval_click()),
        Some("u1"),
        ActionKind::Approval,
    );
    assert_eq!(
        approval.matches(r#"activationType="background""#).count(),
        2
    );
    assert!(approval.contains(r#"hint-buttonStyle="Critical""#));
    assert!(!approval.contains(r#"content="Open""#));

    let message = toast_xml(
        "t",
        "b",
        Some(&message_click("d1")),
        Some("u1"),
        ActionKind::Message,
    );
    assert!(message.contains(&format!(r#"<input id="{REPLY_INPUT_ID}""#)));
    assert!(message.contains(&format!(r#"hint-inputId="{REPLY_INPUT_ID}""#)));
    assert!(message.contains(r#"content="Open""#));
}

fn press(action: &str, inputs: &[(&str, &str)]) -> Press {
    let activation = parse_action_args(&encode_action_args(action, "t", None, None)).unwrap();
    press_for(&activation, &owned(inputs))
}

fn owned(inputs: &[(&str, &str)]) -> Vec<(String, String)> {
    inputs
        .iter()
        .map(|(key, value)| (key.to_string(), value.to_string()))
        .collect()
}

#[test]
fn each_button_runs_its_own_action() {
    assert!(matches!(
        press(APPROVE_ACTION, &[]),
        Press::Run(Action::Approve)
    ));
    assert!(matches!(
        press(REJECT_ACTION, &[]),
        Press::Run(Action::Reject)
    ));
    match press(REPLY_ACTION, &[(REPLY_INPUT_ID, "  ship it  ")]) {
        Press::Run(Action::Reply(text)) => assert_eq!(text, "ship it"),
        _ => panic!("a typed reply must run"),
    }
}

#[test]
fn a_reply_with_nothing_in_it_does_nothing() {
    assert!(matches!(
        press(REPLY_ACTION, &[(REPLY_INPUT_ID, "   ")]),
        Press::Ignore
    ));
    assert!(matches!(
        press(REPLY_ACTION, &[("other-field", "ship it")]),
        Press::Ignore
    ));
}

#[test]
fn control_characters_cannot_reject_the_document() {
    let xml = toast_xml(
        "Tool output\x1b[0m",
        "ran \x07alert\x0b",
        None,
        Some("u1"),
        ActionKind::Default,
    );
    assert!(!xml.contains('\x1b') && !xml.contains('\x07') && !xml.contains('\x0b'));
    // The three XML 1.0 allows are left alone.
    assert!(escape_xml("a\tb\nc\rd").contains("a\tb\nc\rd"));
}

#[test]
fn a_tag_is_always_something_windows_accepts() {
    assert_eq!(
        toast_tag("6a706b66d453f877ae41f42c"),
        "6a706b66d453f877ae41f42c"
    );
    assert_eq!(toast_tag("a/b c&д"), "a-b-c--");
    let long = toast_tag(&"x".repeat(4096));
    assert_eq!(long.chars().count(), TAG_LIMIT);
}

#[test]
fn the_toast_carries_no_image_of_its_own() {
    for kind in [
        ActionKind::Default,
        ActionKind::Approval,
        ActionKind::Message,
    ] {
        let xml = toast_xml("t", "b", Some(&approval_click()), Some("u1"), kind);
        assert!(!xml.contains("<image"), "{kind:?} toast carried an image");
    }
}

#[test]
fn an_unrecognized_action_falls_back_to_the_window() {
    assert!(matches!(press("detonate", &[]), Press::Unknown));
}

#[test]
fn plain_toasts_keep_protocol_activation_only() {
    let xml = toast_xml("Ticket updated", "", None, Some("u1"), ActionKind::Default);
    assert!(!xml.contains("background"));
    assert_eq!(xml.matches(r#"activationType="protocol""#).count(), 2);
}

#[test]
fn markup_is_escaped_exactly() {
    assert_eq!(
        escape_xml("<a href=\"x\">&'\u{1}"),
        "&lt;a href=&quot;x&quot;&gt;&amp;&apos; "
    );
}

#[test]
fn arguments_are_written_out_exactly() {
    assert_eq!(
        encode_args_with("approve", "a&b", Some("u-1"), Some("{\"k\":\"v.~_-\"}")),
        "action=approve&title=a%26b&user=u-1&context=%7B%22k%22%3A%22v.~_-%22%7D"
    );
    assert_eq!(
        encode_args_with("reject", "д", None, None),
        "action=reject&title=%D0%B4"
    );
    // A user that is empty is none.
    let parsed = parse_action_args("action=a&user=&context=x").unwrap();
    assert_eq!(parsed.context.user_id, None);
    assert_eq!(parsed.context.payload, None);
    // A value that is not text is passed over.
    assert!(parse_action_args("action=%ff").is_none());
}

#[test]
fn a_toast_is_written_out_exactly() {
    assert_eq!(
        toast_xml("T<", "", None, None, ActionKind::Default),
        "<toast duration=\"short\" activationType=\"protocol\" \
         launch=\"openframe-desktop://notify\" useButtonStyle=\"true\">\n    \
         <visual><binding template=\"ToastGeneric\"><text>T&lt;</text></binding></visual>\n    \
         <audio silent=\"true\"/>\n    \
         <actions><action content=\"Open\" activationType=\"protocol\" \
         arguments=\"openframe-desktop://notify\"/></actions>\n</toast>"
    );
    assert_eq!(
        toast_xml("T", "b", None, Some("u"), ActionKind::Message),
        "<toast duration=\"short\" activationType=\"protocol\" \
         launch=\"openframe-desktop://notify\" useButtonStyle=\"true\">\n    \
         <visual><binding template=\"ToastGeneric\"><text>T</text><text>b</text></binding></visual>\n    \
         <audio silent=\"true\"/>\n    \
         <actions><input id=\"reply\" type=\"text\" placeHolderContent=\"Reply to Mingo\"/>\
         <action content=\"Send\" activationType=\"background\" \
         arguments=\"action=reply&amp;title=T&amp;user=u\" hint-inputId=\"reply\"/>\
         <action content=\"Open\" activationType=\"protocol\" \
         arguments=\"openframe-desktop://notify\"/></actions>\n</toast>"
    );
}

#[test]
fn an_activation_runs_what_was_pressed() {
    let args = encode_action_args(APPROVE_ACTION, "Mingo", Some("u"), Some(&approval_click()));
    match handle_activation(&args, &vec![]) {
        Activation::Run { context, action } => {
            assert_eq!(action, Action::Approve);
            assert_eq!(context.title, "Mingo");
            assert_eq!(context.user_id.as_deref(), Some("u"));
            assert_eq!(context.payload, Some(approval_click()));
        }
        other => panic!("an approval must run, not {other:?}"),
    }
    let reply = encode_action_args(REPLY_ACTION, "Mingo", None, None);
    assert_eq!(handle_activation(&reply, &vec![]), Activation::Nothing);
    assert_eq!(
        handle_activation(&encode_action_args("open", "t", None, None), &vec![]),
        Activation::OpenWindow
    );
    assert_eq!(handle_activation("", &vec![]), Activation::OpenWindow);
    match handle_activation(&reply, &owned(&[("x", "no"), (REPLY_INPUT_ID, " yes ")])) {
        Activation::Run { action, .. } => assert_eq!(action, Action::Reply("yes".to_string())),
        other => panic!("a reply must run, not {other:?}"),
    }
}

#[test]
fn only_an_approval_has_a_tag() {
    let notification = |click: Option<Json>, kind| Post {
        title: "T".to_string(),
        body: String::new(),
        click,
        user_id: Some("u".to_string()),
        kind,
        delivery: Delivery::New,
    };
    let approval = post(&notification(Some(approval_click()), ActionKind::Approval));
    assert_eq!(
        approval.tag.as_deref(),
        Some("0a2a0b3c-9d1e-4f5a-8b7c-6d5e4f3a2b1c")
    );
    assert_eq!(
        approval.xml,
        toast_xml(
            "T",
            "",
            Some(&approval_click()),
            Some("u"),
            ActionKind::Approval
        )
    );
    assert_eq!(
        post(&notification(Some(message_click("d")), ActionKind::Message)).tag,
        None
    );
    assert!(suppress_popup(Delivery::Update, true));
    assert!(!suppress_popup(Delivery::Update, false));
    assert!(!suppress_popup(Delivery::New, true));
}

#[test]
fn a_title_and_a_body_keep_to_their_budget() {
    let bare = |kind| toast_xml("", "", Some(&approval_click()), Some("u"), kind).len();
    for kind in [
        ActionKind::Default,
        ActionKind::Approval,
        ActionKind::Message,
    ] {
        for (title, body) in [("🔒", "'"), ("'", "🔒"), ("\"", "\""), ("x", "")] {
            let xml = toast_xml(
                &title.repeat(100),
                &body.repeat(1000),
                Some(&approval_click()),
                Some("u"),
                kind,
            );
            assert!(xml.len() <= bare(kind) + TEXT_BUDGET as usize, "{title}{body}");
        }
    }
}
