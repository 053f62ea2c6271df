use openframe_console::nats::{
    backoff_ms, build_connect_url, dial, mask_connect_url, mask_token, reconnect_base_ms, Connector,
};

#[test]
fn the_backoff_doubles_up_to_its_cap() {
    let waits: Vec<u64> = (0..7).map(backoff_ms).collect();
    assert_eq!(waits, vec![1000, 2000, 4000, 8000, 16000, 30000, 30000]);
    assert_eq!(backoff_ms(u32::MAX), 30000);
}

#[test]
fn the_first_dials_are_fast() {
    let waits: Vec<u64> = (0..7).map(reconnect_base_ms).collect();
    assert_eq!(waits, vec![200, 200, 200, 200, 1000, 2000, 4000]);
    assert_eq!(reconnect_base_ms(usize::MAX), 30000);
    // The wait stays at its cap however often it fails.
    for attempt in [9, 10, 1 << 32, (1 << 32) + 4] {
        assert_eq!(reconnect_base_ms(attempt), 30000);
    }
}

#[test]
fn the_bearer_rides_on_the_url() {
    assert_eq!(
        build_connect_url("https://acme.example/", "a.b-c"),
        "wss://acme.example/ws/nats-api?authorization=a.b-c"
    );
    assert_eq!(
        build_connect_url("http://localhost:8080", "a&b"),
        "ws://localhost:8080/ws/nats-api?authorization=a%26b"
    );
    assert_eq!(
        build_connect_url("acme.example//", "t"),
        "wss://acme.example/ws/nats-api?authorization=t"
    );
    assert_eq!(dial(Some("https://a"), None), None);
    assert_eq!(dial(None, Some("t")), None);
    assert_eq!(
        dial(Some("https://a"), Some("t")).as_deref(),
        Some("wss://a/ws/nats-api?authorization=t")
    );
}

#[test]
fn a_token_is_masked() {
    assert_eq!(mask_token("12345678"), "****");
    assert_eq!(mask_token("abc"), mask_token("12345678"));
    assert_eq!(mask_token("1234xy6789"), mask_token("1234zz6789"));
    assert_eq!(mask_token("123456789"), "1234...6789 (len 9)");
    assert_eq!(mask_token("дфжя12345"), "дфжя...2345 (len 9)");
    assert_eq!(
        mask_connect_url("wss://a/ws/nats-api?authorization=abcdefghij"),
        "wss://a/ws/nats-api?authorization=abcd...ghij (len 10)"
    );
    assert_eq!(mask_connect_url("wss://a/"), "wss://a/");
    assert_eq!(mask_connect_url("authorization="), "authorization=****");
    assert_eq!(mask_connect_url("auth"), "auth");
}

#[test]
fn rejections_in_a_row_back_off() {
    let mut connector = Connector::default();
    assert_eq!(connector.auth_rejected(), None);
    assert_eq!(connector.auth_rejected(), Some(2000));
    assert_eq!(connector.auth_rejected(), Some(4000));
    connector.auth_failures = u32::MAX;
    assert_eq!(connector.auth_rejected(), Some(30000));
    assert_eq!(connector.auth_rejected(), Some(30000));
    connector.auth_settled();
    assert_eq!(connector.auth_rejected(), None);
}

#[test]
fn only_one_dial_is_under_way() {
    let mut connector = Connector::default();
    assert!(connector.begin_dial());
    assert!(!connector.begin_dial());
    // The tenant changed in between: the same dial goes on.
    assert!(!connector.dialled("https://a", Some("https://b")));
    assert!(!connector.begin_dial());
    assert!(connector.dialled("https://b", Some("https://b")));
    assert!(connector.begin_dial());
    assert!(!connector.dialled("https://b", None));
}
