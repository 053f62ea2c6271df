use openframe_console::link::{
    is_auth_callback, is_web, parse_url, same_origin, scheme_registration, url_carries_ticket,
    UrlParts,
};
use openframe_console::login::{
    browser_failed, callback_from, handle_scheme_url, login_from, login_result, native_auth_start,
    native_auth_exchange_ticket, LoginEnd, PendingLogin, TicketReply,
};
use openframe_console::tokens::NativeAuthTokens;

fn parse(url: &str) -> UrlParts {
    parse_url(url).unwrap()
}

// The callback the gateway sends when it honours the requested redirect: a non-special URL
// still parses, the host is `auth`, and the ticket is in its query.
#[test]
fn scheme_callback_is_recognised_and_carries_the_ticket() {
    let url = parse("openframe-console://auth?devTicket=abc123");
    assert!(is_auth_callback(&url));
    assert!(url_carries_ticket(&url));
}

#[test]
fn ticket_is_found_after_an_existing_query() {
    assert!(url_carries_ticket(&parse(
        "openframe-console://auth?state=x&devTicket=abc123"
    )));
}

#[test]
fn scheme_callback_without_a_ticket_is_still_a_callback() {
    let url = parse("openframe-console://auth");
    assert!(is_auth_callback(&url));
    assert!(!url_carries_ticket(&url));
}

#[test]
fn https_tenant_landing_is_not_a_callback() {
    assert!(!is_auth_callback(&parse(
        "https://acme.openframe.example/?devTicket=abc123"
    )));
}

#[test]
fn other_hosts_on_our_scheme_are_not_callbacks() {
    assert!(!is_auth_callback(&parse(
        "openframe-console://notify?context=%7B%7D"
    )));
}

#[test]
fn the_callback_host_is_matched_regardless_of_case() {
    assert!(is_auth_callback(&parse(
        "openframe-console://AUTH?devTicket=abc123"
    )));
}

#[test]
fn a_url_is_taken_apart() {
    let url = parse("HTTPS://Acme.Example:8443/a?x=1&y%20z=2");
    assert_eq!(url.scheme, "https");
    assert_eq!(url.host.as_deref(), Some("acme.example"));
    assert_eq!(url.port, Some(8443));
    assert_eq!(url.query_keys, vec!["x".to_string(), "y z".to_string()]);
    assert_eq!(url.href, "https://acme.example:8443/a?x=1&y%20z=2");
    assert_eq!(
        parse_url("not a url"),
        Err("relative URL without a base".to_string())
    );
}

#[test]
fn an_origin_is_scheme_host_and_port() {
    let app = parse("tauri://localhost/index.html");
    assert!(same_origin(&app, &parse("tauri://localhost/other")));
    assert!(!same_origin(&app, &parse("tauri://elsewhere/other")));
    assert!(!same_origin(&app, &parse("https://localhost/")));
    assert!(!same_origin(
        &parse("http://a:1/"),
        &parse("http://a:2/")
    ));
    assert!(same_origin(&parse("http://a:80/"), &parse("http://a/")));
    assert!(is_web(&parse("http://a/")));
    assert!(!is_web(&app));
}

#[test]
fn a_login_needs_a_web_page_and_our_scheme() {
    let scheme = Some("openframe-console");
    assert_eq!(
        native_auth_start("https://auth.example/login?a=b", scheme),
        Ok("https://auth.example/login?a=b".to_string())
    );
    assert_eq!(
        native_auth_start("nonsense", scheme),
        Err("Invalid login URL: relative URL without a base".to_string())
    );
    assert_eq!(
        native_auth_start("file:///etc/passwd", scheme),
        Err("Login URL must be http(s)".to_string())
    );
    assert_eq!(
        native_auth_start("https://auth.example", None),
        Err("Login started without a callback scheme".to_string())
    );
    assert_eq!(
        native_auth_start("https://auth.example", Some("com.openframe.app")),
        Err(
            "Login callback scheme com.openframe.app is not the registered openframe-console"
                .to_string()
        )
    );
    assert_eq!(
        login_from(Err("odd".to_string()), scheme),
        Err("Invalid login URL: odd".to_string())
    );
    assert_eq!(
        browser_failed("no such file"),
        "Could not open the browser: no such file"
    );
}

#[test]
fn a_login_ends_one_way() {
    assert_eq!(
        login_result(LoginEnd::Callback(Ok("u".to_string()))),
        Ok("u".to_string())
    );
    assert_eq!(
        login_result(LoginEnd::Dropped),
        Err("USER_CANCELED".to_string())
    );
    assert_eq!(
        login_result(LoginEnd::TimedOut),
        Err("LOGIN_TIMEOUT".to_string())
    );
    let mut pending = PendingLogin::new();
    assert_eq!(pending.take(), None);
    assert_eq!(pending.replace(1), None);
    assert_eq!(pending.replace(2), Some(1));
    assert_eq!(pending.take(), Some(2));
    assert_eq!(pending.take(), None);
}

#[test]
fn a_scheme_url_resolves_a_login_only_as_our_callback() {
    let with_ticket = "openframe-console://auth?devTicket=abc123";
    assert_eq!(
        handle_scheme_url(with_ticket),
        Some(Ok(with_ticket.to_string()))
    );
    assert_eq!(
        handle_scheme_url("openframe-console://auth"),
        Some(Err("callback carried no ticket".to_string()))
    );
    assert_eq!(handle_scheme_url("openframe-console://notify"), None);
    assert_eq!(handle_scheme_url("--autostart"), None);
    assert_eq!(callback_from("x", Err("odd".to_string())), None);
}

#[test]
fn a_ticket_is_exchanged_for_tokens() {
    let tokens = NativeAuthTokens {
        access_token: Some("a".to_string()),
        refresh_token: None,
    };
    assert_eq!(
        native_auth_exchange_ticket(TicketReply::Answered {
            code: 200,
            status: "200 OK".to_string(),
            tokens: tokens.clone(),
        }),
        Ok(tokens.clone())
    );
    assert_eq!(
        native_auth_exchange_ticket(TicketReply::Answered {
            code: 404,
            status: "404 Not Found".to_string(),
            tokens,
        }),
        Err("Ticket exchange failed: HTTP 404 Not Found".to_string())
    );
    assert_eq!(
        native_auth_exchange_ticket(TicketReply::Failed("dns".to_string())),
        Err("Ticket exchange failed: dns".to_string())
    );
}

#[test]
fn the_scheme_is_registered_for_the_executable() {
    assert_eq!(
        scheme_registration("openframe-console", r"C:\a b\x.exe"),
        (
            r"Software\Classes\openframe-console".to_string(),
            r#""C:\a b\x.exe" "%1""#.to_string()
        )
    );
}
