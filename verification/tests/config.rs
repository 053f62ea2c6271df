use openframe_console::config::{
    env_init_script, forget_host, host_from, learn_host, normalize_host, shared_host, tenant_host,
    AppConfig,
};

fn text(s: &str) -> Option<String> {
    Some(s.to_string())
}

#[test]
fn an_empty_host_counts_as_none() {
    let mut cfg = AppConfig::default();
    assert_eq!(shared_host(&cfg, None), None);
    assert_eq!(shared_host(&cfg, Some("")), None);
    assert_eq!(shared_host(&cfg, Some("https://b")), text("https://b"));
    cfg.shared_host = text("");
    assert_eq!(shared_host(&cfg, Some("https://b")), text("https://b"));
    cfg.shared_host = text("https://a");
    assert_eq!(shared_host(&cfg, Some("https://b")), text("https://a"));
    assert_eq!(tenant_host(&cfg), None);
    cfg.learned_host = text("");
    assert_eq!(tenant_host(&cfg), None);
    cfg.learned_host = text("https://t");
    assert_eq!(tenant_host(&cfg), text("https://t"));
}

#[test]
fn a_host_is_normalized() {
    for input in [
        "acme.openframe.ai",
        "https://acme.openframe.ai",
        " https://acme.openframe.ai/ ",
        "acme.openframe.ai//",
    ] {
        assert_eq!(
            normalize_host(input),
            Ok("https://acme.openframe.ai".to_string())
        );
    }
    assert_eq!(
        normalize_host("http://localhost:8080/"),
        Ok("http://localhost:8080".to_string())
    );
    assert_eq!(normalize_host("  "), Err("Host is empty".to_string()));
    assert_eq!(
        normalize_host("https://"),
        Err("Invalid URL: empty host".to_string())
    );
    assert_eq!(
        host_from("a", Err("odd".to_string())),
        Err("Invalid URL: odd".to_string())
    );
}

#[test]
fn a_learned_host_is_news_once() {
    let mut cfg = AppConfig::default();
    assert!(learn_host(&mut cfg, "https://t".to_string()));
    assert!(!learn_host(&mut cfg, "https://t".to_string()));
    assert!(learn_host(&mut cfg, "https://u".to_string()));
    forget_host(&mut cfg);
    assert_eq!(cfg.learned_host, None);
}

#[test]
fn the_page_is_given_its_environment_and_the_bridge() {
    let script = env_init_script(text("https://auth.example"));
    assert!(script.starts_with(
        "window.__ENV = {\"NEXT_PUBLIC_APP_MODE\":\"saas-tenant\",\
         \"NEXT_PUBLIC_ENABLE_DEV_TICKET_OBSERVER\":\"true\",\
         \"NEXT_PUBLIC_MOBILE_APP_SCHEME\":\"openframe-console\",\
         \"NEXT_PUBLIC_SHARED_HOST_URL\":\"https://auth.example\"};\n\
         window.__OPENFRAME_SHELL__ = {\n  nativeAuth: {\n"
    ));
    assert!(script.ends_with("})();"));
    assert!(!script.contains("{{") && !script.contains("NEXT_PUBLIC_TENANT_HOST_URL"));
    for command in [
        "native_auth_start",
        "native_auth_exchange_ticket",
        "native_auth_get_tokens",
        "native_auth_set_tokens",
        "native_auth_clear_tokens",
        "native_auth_refresh_tokens",
        "native_auth_set_tenant_host",
        "webview_log",
    ] {
        assert!(script.contains(&format!("invoke('{command}'")), "{command}");
    }
    assert!(env_init_script(None).contains("\"NEXT_PUBLIC_SHARED_HOST_URL\":\"\""));
}
