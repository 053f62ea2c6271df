use openframe_console::json::{Json, Member};
use openframe_console::macos_un::{
    action_context, activate, active, buttons_for, category_for, ensure_authorized,
    handle_response, post, register_categories, Backend, Button, ButtonStyle, Request, Response,
};
use openframe_console::notification_actions::{Action, ActionContext, ActionKind, Post};
use openframe_console::notifications::Delivery;
use openframe_console::windows_activator::{
    clsid_string, is_activation_launch, registration, Registration,
};

#[test]
fn the_class_identifier_is_written_as_the_registry_has_it() {
    assert_eq!(clsid_string(), "{912D80E7-8DC8-4D6A-B9E8-83F8325024A4}");
    assert_eq!(
        registration(r"C:\a b\x.exe", "com.openframe.console"),
        Registration {
            server_key:
                r"Software\Classes\CLSID\{912D80E7-8DC8-4D6A-B9E8-83F8325024A4}\LocalServer32"
                    .to_string(),
            command: r#""C:\a b\x.exe" -ToastActivated"#.to_string(),
            identity_key: r"Software\Classes\AppUserModelId\com.openframe.console".to_string(),
            activator: "{912D80E7-8DC8-4D6A-B9E8-83F8325024A4}".to_string(),
        }
    );
}

#[test]
fn an_activation_launch_is_told_by_its_argument() {
    let argv = |args: &[&str]| -> Vec<String> { args.iter().map(|a| a.to_string()).collect() };
    assert!(is_activation_launch(&argv(&["x", "-ToastActivated"])));
    assert!(!is_activation_launch(&argv(&["x", "-toastactivated"])));
    assert!(!is_activation_launch(&[]));
}

#[test]
fn the_backend_is_installed_and_asked_for_once() {
    let mut backend = Backend::default();
    assert!(!ensure_authorized(&mut backend));
    assert!(!activate(&mut backend, true, true));
    assert!(!activate(&mut backend, false, false));
    assert!(!active(&backend));
    assert!(activate(&mut backend, false, true));
    assert!(active(&backend));
    assert!(!activate(&mut backend, false, true));
    assert!(ensure_authorized(&mut backend));
    assert!(!ensure_authorized(&mut backend));
}

#[test]
fn every_kind_has_its_category_and_buttons() {
    let all: Vec<(&str, Vec<Button>)> = register_categories()
        .into_iter()
        .map(|kind| (category_for(kind), buttons_for(kind)))
        .collect();
    assert_eq!(
        all,
        vec![
            ("openframe-console-notification", vec![Button::Open]),
            (
                "openframe-console-approval",
                vec![Button::Approve, Button::Reject]
            ),
            (
                "openframe-console-message",
                vec![Button::Reply, Button::Open]
            ),
        ]
    );
    assert_eq!(Button::Approve.style(), ButtonStyle::AuthenticationRequired);
    assert_eq!(Button::Reject.style(), ButtonStyle::Destructive);
    assert_eq!(Button::Reply.style(), ButtonStyle::TextInput);
    assert_eq!(Button::Open.style(), ButtonStyle::Foreground);
    assert_eq!(Button::Reply.id(), "reply");
    assert_eq!(Button::Reject.title(), "Reject");
}

fn click() -> Json {
    let member = |key: &str, value: Json| Member {
        key: key.to_string(),
        value,
    };
    Json::Object(vec![member(
        "context",
        Json::Object(vec![member("ticketId", Json::Text("t-1".to_string()))]),
    )])
}

#[test]
fn a_request_carries_what_a_response_reads_back() {
    let request = post(Post {
        title: "T".to_string(),
        body: String::new(),
        click: Some(click()),
        user_id: Some("u".to_string()),
        kind: ActionKind::Default,
        delivery: Delivery::New,
    });
    assert_eq!(
        request,
        Request {
            title: "T".to_string(),
            body: None,
            category: "openframe-console-notification",
            payload: Some("{\"context\":{\"ticketId\":\"t-1\"}}".to_string()),
            user_id: Some("u".to_string()),
        }
    );
    assert_eq!(
        action_context(request.title, request.payload, request.user_id),
        ActionContext {
            title: "T".to_string(),
            payload: Some(click()),
            user_id: Some("u".to_string()),
        }
    );
    assert_eq!(
        action_context(String::new(), Some("odd".to_string()), None).payload,
        None
    );
}

#[test]
fn a_response_means_its_button() {
    let typed = |s: &str| Some(s.to_string());
    assert_eq!(
        handle_response("approve", None),
        Response::Run(Action::Approve)
    );
    assert_eq!(
        handle_response("reject", None),
        Response::Run(Action::Reject)
    );
    assert_eq!(
        handle_response("reply", typed("  ship it ")),
        Response::Run(Action::Reply("ship it".to_string()))
    );
    assert_eq!(handle_response("reply", typed("  ")), Response::Nothing);
    assert_eq!(handle_response("reply", None), Response::Nothing);
    for id in ["open", "", "com.apple.UNNotificationDefaultActionIdentifier"] {
        assert_eq!(handle_response(id, None), Response::Click);
    }
}
