use openframe_console::json::{
    copy_of, get, get_text, get_whole, parse, parse_bytes, print, put, text, Json, Member,
};

fn member(key: &str, value: Json) -> Member {
    Member {
        key: key.to_string(),
        value,
    }
}

#[test]
fn every_kind_of_value_is_read() {
    assert_eq!(parse("null"), Some(Json::Null));
    assert_eq!(parse(" true "), Some(Json::Bool(true)));
    assert_eq!(
        parse("18446744073709551615"),
        Some(Json::Unsigned(u64::MAX))
    );
    assert_eq!(parse("-5"), Some(Json::Signed(-5)));
    assert!(matches!(parse("1.5"), Some(Json::Decimal(_))));
    assert!(matches!(
        parse("18446744073709551616"),
        Some(Json::Decimal(_))
    ));
    assert_eq!(parse("\"a\\u0434\""), Some(text("aд")));
    assert_eq!(
        parse("[1,[]]"),
        Some(Json::Array(vec![
            Json::Unsigned(1),
            Json::Array(Vec::new())
        ]))
    );
    assert_eq!(
        parse("{\"b\":1,\"a\":2,\"b\":3}"),
        Some(Json::Object(vec![
            member("a", Json::Unsigned(2)),
            member("b", Json::Unsigned(3)),
        ]))
    );
    assert_eq!(parse("{"), None);
    assert_eq!(parse("1 2"), None);
    assert_eq!(parse_bytes(&[b'"', 0xff, b'"']), None);
    assert_eq!(parse_bytes(b"[]"), Some(Json::Array(Vec::new())));
}

#[test]
fn a_value_is_printed_compactly_and_reads_back() {
    let value = Json::Object(vec![
        member(
            "z",
            Json::Array(vec![Json::Null, Json::Bool(false), Json::Signed(-1)]),
        ),
        member("a", text("q\"\n")),
    ]);
    assert_eq!(print(&value), "{\"a\":\"q\\\"\\n\",\"z\":[null,false,-1]}");
    assert_eq!(print(&Json::Signed(i64::MIN)), "-9223372036854775808");
    assert_eq!(print(&Json::Unsigned(7)), "7");
    for whole in [
        Json::Unsigned(u64::MAX),
        Json::Signed(i64::MIN),
        Json::Unsigned(0),
        text("\0\u{1f}\u{7f}\u{2028}\u{10ffff}\\\"/"),
    ] {
        assert_eq!(parse(&print(&whole)), Some(whole));
    }
    let sorted = parse(&print(&value)).unwrap();
    assert_eq!(parse(&print(&sorted)), Some(sorted));
    assert_eq!(print(&parse("[1.5,1e300]").unwrap()), "[1.5,1e+300]");
}

#[test]
fn nesting_is_read_to_its_limit() {
    let nested = |depth: usize| {
        let mut value = Json::Null;
        for _ in 0..depth {
            value = Json::Array(vec![value]);
        }
        value
    };
    assert_eq!(parse(&print(&nested(127))), Some(nested(127)));
    assert_eq!(parse(&print(&nested(128))), None);
}

#[test]
fn the_first_of_two_members_counts() {
    let value = Json::Object(vec![
        member("k", text("first")),
        member("k", text("second")),
        member("n", Json::Signed(4)),
        member("m", Json::Signed(-4)),
        member("u", Json::Unsigned(9)),
    ]);
    assert_eq!(get_text(&value, "k"), Some("first".to_string()));
    assert!(print(&value).contains("\"k\":\"first\""));
    assert_eq!(get_whole(&value, "n"), Some(4));
    assert_eq!(get_whole(&value, "m"), None);
    assert_eq!(get_whole(&value, "u"), Some(9));
    assert_eq!(get_whole(&value, "k"), None);
    assert_eq!(get(&value, "missing"), None);
    assert_eq!(get(&Json::Null, "k"), None);
    assert_eq!(get_text(&value, "n"), None);
}

#[test]
fn a_copy_is_equal() {
    let value = parse("{\"a\":[1,-2,3.5,\"x\",null,true,{}],\"b\":{\"c\":[]}}").unwrap();
    assert_eq!(copy_of(&value), value);
}

#[test]
fn members_are_put_in_order() {
    let mut members = Vec::new();
    put(&mut members, "b", Json::Null);
    put(&mut members, "a", text("x"));
    assert_eq!(
        members,
        vec![member("b", Json::Null), member("a", text("x"))]
    );
}
