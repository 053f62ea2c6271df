use openframe_console::percent::encode;

#[test]
fn the_unreserved_set_stays() {
    assert_eq!(encode("abcXYZ019-_.~"), "abcXYZ019-_.~");
    assert_eq!(encode(""), "");
    assert_eq!(encode("-"), "-");
    assert_eq!(encode("a b"), "a%20b");
    assert_eq!(encode("/?#[]@!$&'()*+,;=%"), "%2F%3F%23%5B%5D%40%21%24%26%27%28%29%2A%2B%2C%3B%3D%25");
}

#[test]
fn other_characters_are_escaped_by_byte() {
    assert_eq!(encode("д.🔒~"), "%D0%B4.%F0%9F%94%92~");
    assert_eq!(encode("\0\u{7f}"), "%00%7F");
}

#[test]
fn what_was_encoded_decodes_to_itself() {
    for s in ["", "a&b=c д", "100%", "%41", "\u{10FFFF}", "-_.~/"] {
        let decoded = percent_encoding::percent_decode_str(&encode(s))
            .decode_utf8()
            .unwrap()
            .into_owned();
        assert_eq!(decoded, s);
    }
}
