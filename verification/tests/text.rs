use openframe_console::text::{
    chars_of, decimal_text, hex_text, is_ascii_alphanumeric, is_control, is_white_space,
    lines_of, lower_char, lower_text, piece_of, same_ignoring_case, same_text, shorten, split_on,
    split_once, starts_with, strip_prefix, trim, truncate,
};

const SAMPLES: [&str; 12] = [
    "",
    " ",
    "abc",
    " \t abc \r\n ",
    "\u{2003}д ф\u{3000}",
    "a=b=c",
    "a\nb\r\nc\r\r\n\nlast\r",
    "\n",
    "\r\n",
    "ÀÉ Straße",
    "k&&v&",
    "🔒\u{85}",
];

#[test]
fn character_classes_are_those_of_unicode() {
    for c in '\0'..=char::MAX {
        assert_eq!(is_white_space(c), c.is_whitespace(), "{c:?}");
        assert_eq!(is_control(c), c.is_control(), "{c:?}");
        assert_eq!(is_ascii_alphanumeric(c), c.is_ascii_alphanumeric(), "{c:?}");
        assert_eq!(lower_char(c), c.to_ascii_lowercase(), "{c:?}");
    }
}

#[test]
fn texts_are_trimmed_and_split_as_strings_are() {
    for s in SAMPLES {
        assert_eq!(trim(s), s.trim());
        assert_eq!(lines_of(s), s.lines().collect::<Vec<_>>());
        assert_eq!(lower_text(s), s.to_ascii_lowercase());
        for c in ['=', '&', '\n', 'д'] {
            assert_eq!(split_on(s, c), s.split(c).collect::<Vec<_>>());
            assert_eq!(
                split_once(s, c),
                s.split_once(c)
                    .map(|(a, b)| (a.to_string(), b.to_string()))
            );
        }
        for t in SAMPLES {
            assert_eq!(same_text(s, t), s == t);
            assert_eq!(same_ignoring_case(s, t), s.eq_ignore_ascii_case(t));
            assert_eq!(starts_with(s, t), s.starts_with(t));
            assert_eq!(strip_prefix(s, t).as_deref(), s.strip_prefix(t));
        }
    }
}

#[test]
fn a_text_goes_through_its_characters() {
    for s in SAMPLES {
        let chars = chars_of(s);
        assert_eq!(piece_of(&chars, 0, chars.len()), s);
    }
    assert_eq!(piece_of(&chars_of("дфж"), 1, 2), "ф");
    assert!(same_ignoring_case("TRUE", "true"));
    assert!(!same_ignoring_case("É", "é"));
}

#[test]
fn a_text_is_cut_by_characters() {
    assert_eq!(truncate("дфж", 2), "дф");
    assert_eq!(truncate("дф", 5), "дф");
    assert_eq!(shorten("дфж", 2), "д…");
    assert_eq!(shorten("дф", 2), "дф");
}

#[test]
fn numbers_are_written_as_format_writes_them() {
    for n in [0, 9, 10, 160, 12345, u64::MAX] {
        assert_eq!(decimal_text(n), format!("{n}"));
        for width in [0, 1, 4, 8, 20] {
            assert_eq!(hex_text(n, width), format!("{n:0width$X}"));
        }
    }
}
