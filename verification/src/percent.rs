//! Percent-encoding of values that travel inside a URL or an argument string.
use vstd::prelude::*;
use vstd::string::*;
use vstd::utf8::*;

use crate::text::{ascii_alphanumeric, chars_of, digit, piece_of};

verus! {

/// The ASCII letters and digits.
pub open spec fn alphanumeric_byte(b: u8) -> bool {
    (0x30 <= b && b <= 0x39) || (0x41 <= b && b <= 0x5a) || (0x61 <= b && b <= 0x7a)
}

/// The unreserved set of RFC 3986. Anything interpolated into a URL is escaped against it,
/// so that a value can never bring in a path or a parameter of its own.
pub open spec fn unreserved_byte(b: u8) -> bool {
    // '-', '.', '_' and '~'
    alphanumeric_byte(b) || b == 0x2d || b == 0x2e || b == 0x5f || b == 0x7e
}

/// One byte as it is written: itself where it is kept, else `%` and two upper-case digits.
pub open spec fn percent_escape(b: u8, kept: spec_fn(u8) -> bool) -> Seq<char> {
    if kept(b) {
        seq![b as char]
    } else {
        seq!['%', digit(b as int / 16), digit(b as int % 16)]
    }
}

/// The text in which only the bytes of `kept` stand for themselves.
pub open spec fn percent_text(bytes: Seq<u8>, kept: spec_fn(u8) -> bool) -> Seq<char>
    decreases bytes.len(),
{
    if bytes.len() == 0 {
        Seq::empty()
    } else {
        percent_escape(bytes[0], kept) + percent_text(bytes.skip(1), kept)
    }
}

/// The encoding that keeps letters and digits only.
pub open spec fn encoded_strict(s: Seq<char>) -> Seq<char> {
    percent_text(encode_utf8(s), |b: u8| alphanumeric_byte(b))
}

/// The encoding that keeps the unreserved set.
pub open spec fn encoded(s: Seq<char>) -> Seq<char> {
    percent_text(encode_utf8(s), |b: u8| unreserved_byte(b))
}

/// The value of a hexadecimal digit in either case.
pub open spec fn hex_value(b: u8) -> Option<u8> {
    if 0x30 <= b && b <= 0x39 {
        Some((b - 0x30) as u8)
    } else if 0x41 <= b && b <= 0x46 {
        Some((b - 0x37) as u8)
    } else if 0x61 <= b && b <= 0x66 {
        Some((b - 0x57) as u8)
    } else {
        None
    }
}

/// The bytes with every `%` that two hexadecimal digits follow replaced by the byte they
/// name. Any other `%` stands for itself.
pub open spec fn percent_bytes(s: Seq<u8>) -> Seq<u8>
    decreases s.len(),
{
    if s.len() == 0 {
        s
    } else if s[0] == 0x25 && s.len() >= 3 && hex_value(s[1]) is Some && hex_value(s[2]) is Some {
        seq![(hex_value(s[1])->0 * 16 + hex_value(s[2])->0) as u8] + percent_bytes(s.skip(3))
    } else {
        seq![s[0]] + percent_bytes(s.skip(1))
    }
}

/// The text that `s` decodes to, where the decoded bytes are text.
pub open spec fn decoded(s: Seq<char>) -> Option<Seq<char>> {
    let bytes = percent_bytes(encode_utf8(s));
    if valid_utf8(bytes) {
        Some(decode_utf8(bytes))
    } else {
        None
    }
}

/// `percent_encoding::utf8_percent_encode` with the set `NON_ALPHANUMERIC`: of the bytes of
/// the text's UTF-8 form, letters and digits stay, every other one becomes `%` and two
/// upper-case hexadecimal digits.
#[verifier::external_body]
pub(crate) fn encode_strict(text: &str) -> (r: String)
    ensures
        r@ == encoded_strict(text@),
{
    percent_encoding::utf8_percent_encode(text, percent_encoding::NON_ALPHANUMERIC).to_string()
}

/// The punctuation of the unreserved set.
pub open spec fn mark(c: char) -> bool {
    c == '-' || c == '_' || c == '.' || c == '~'
}

/// A text escaped against the unreserved set: its marks stand as they are, and what lies
/// between them is encoded.
pub fn encode(text: &str) -> (r: String)
    ensures
        r@ == encoded(text@),
{
    let v = chars_of(text);
    let mut out = String::new();
    let mut from: usize = 0;
    let mut i: usize = 0;
    assert(text@.take(0) =~= Seq::<char>::empty());
    while i < v.len()
        invariant
            v@ == text@,
            from <= i <= v@.len(),
            out@ == encoded(text@.take(from as int)),
            forall|j: int| from <= j < i ==> !mark(#[trigger] text@[j]),
        decreases v@.len() - i,
    {
        let c = v[i];
        if c == '-' || c == '_' || c == '.' || c == '~' {
            let run = piece_of(&v, from, i);
            let ghost before = out@;
            out.append(encode_strict(run.as_str()).as_str());
            out.push(c);
            proof {
                lemma_encoded_run(run@);
                lemma_encoded_mark(c);
                lemma_encoded_both(text@.take(from as int), run@);
                lemma_encoded_both(text@.take(i as int), seq![c]);
                assert(text@.take(from as int) + run@ =~= text@.take(i as int));
                assert(text@.take(i as int) + seq![c] =~= text@.take(i + 1));
                assert(out@ =~= before + encoded(run@) + seq![c]);
            }
            from = i + 1;
        }
        i += 1;
    }
    let run = piece_of(&v, from, i);
    out.append(encode_strict(run.as_str()).as_str());
    proof {
        lemma_encoded_run(run@);
        lemma_encoded_both(text@.take(from as int), run@);
        assert(text@.take(from as int) + run@ =~= text@);
    }
    out
}

/// The bytes of two texts, one after the other.
pub proof fn lemma_encode_utf8_both(a: Seq<char>, b: Seq<char>)
    ensures
        encode_utf8(a + b) == encode_utf8(a) + encode_utf8(b),
    decreases a.len(),
{
    if a.len() == 0 {
        assert(a + b =~= b);
        assert(encode_utf8(a) + encode_utf8(b) =~= encode_utf8(b));
    } else {
        assert((a + b).drop_first() =~= a.drop_first() + b);
        lemma_encode_utf8_both(a.drop_first(), b);
        assert(encode_scalar(a[0] as u32) + (encode_utf8(a.drop_first()) + encode_utf8(b))
            =~= encode_scalar(a[0] as u32) + encode_utf8(a.drop_first()) + encode_utf8(b));
    }
}

proof fn lemma_percent_text_both(a: Seq<u8>, b: Seq<u8>, kept: spec_fn(u8) -> bool)
    ensures
        percent_text(a + b, kept) == percent_text(a, kept) + percent_text(b, kept),
    decreases a.len(),
{
    if a.len() == 0 {
        assert(a + b =~= b);
        assert(percent_text(a, kept) + percent_text(b, kept) =~= percent_text(b, kept));
    } else {
        assert((a + b).skip(1) =~= a.skip(1) + b);
        lemma_percent_text_both(a.skip(1), b, kept);
        assert(percent_escape(a[0], kept) + (percent_text(a.skip(1), kept) + percent_text(b, kept))
            =~= percent_escape(a[0], kept) + percent_text(a.skip(1), kept) + percent_text(b, kept));
    }
}

proof fn lemma_encoded_both(a: Seq<char>, b: Seq<char>)
    ensures
        encoded(a + b) == encoded(a) + encoded(b),
{
    lemma_encode_utf8_both(a, b);
    lemma_percent_text_both(encode_utf8(a), encode_utf8(b), |b: u8| unreserved_byte(b));
}

/// The bytes of a character are the character itself where it is ASCII, and none of them is
/// ASCII where it is not.
proof fn lemma_scalar_bytes(c: char)
    ensures
        (c as u32) < 0x80 ==> encode_scalar(c as u32) == seq![c as u8],
        (c as u32) >= 0x80 ==> forall|i: int|
            0 <= i < encode_scalar(c as u32).len() ==> #[trigger] encode_scalar(c as u32)[i] >= 0x80,
        !mark(c) ==> forall|i: int|
            0 <= i < encode_scalar(c as u32).len() ==> alphanumeric_byte(
                #[trigger] encode_scalar(c as u32)[i],
            ) == unreserved_byte(encode_scalar(c as u32)[i]),
{
    let n = c as u32;
    char_is_scalar(c);
    assert(n < 0x80 ==> (n & 0x7f) as u8 == n as u8) by (bit_vector);
    assert(forall|x: u8| (0xC0u8 | x) >= 0x80) by (bit_vector);
    assert(forall|x: u8| (0xE0u8 | x) >= 0x80) by (bit_vector);
    assert(forall|x: u8| (0xF0u8 | x) >= 0x80) by (bit_vector);
    assert(forall|x: u8| (0x80u8 | x) >= 0x80) by (bit_vector);
}

proof fn lemma_encoded_mark(c: char)
    requires
        mark(c),
    ensures
        encoded(seq![c]) == seq![c],
{
    lemma_scalar_bytes(c);
    assert(seq![c].drop_first() =~= Seq::<char>::empty());
    assert(encode_utf8(Seq::<char>::empty()) =~= Seq::<u8>::empty());
    assert(encode_utf8(seq![c]) =~= seq![c as u8]);
    assert(seq![c as u8].skip(1) =~= Seq::<u8>::empty());
    let kept = |b: u8| unreserved_byte(b);
    assert(percent_text(Seq::<u8>::empty(), kept) =~= Seq::<char>::empty());
    assert(percent_escape(c as u8, kept) =~= seq![c]);
    assert(encoded(seq![c]) =~= seq![c]);
}

proof fn lemma_percent_text_same(
    bytes: Seq<u8>,
    kept: spec_fn(u8) -> bool,
    also: spec_fn(u8) -> bool,
)
    requires
        forall|i: int| 0 <= i < bytes.len() ==> kept(#[trigger] bytes[i]) == also(bytes[i]),
    ensures
        percent_text(bytes, kept) == percent_text(bytes, also),
    decreases bytes.len(),
{
    if bytes.len() > 0 {
        assert(kept(bytes[0]) == also(bytes[0]));
        assert forall|i: int| 0 <= i < bytes.skip(1).len() implies kept(#[trigger] bytes.skip(1)[i])
            == also(bytes.skip(1)[i]) by {
            assert(kept(bytes[i + 1]) == also(bytes[i + 1]));
        }
        lemma_percent_text_same(bytes.skip(1), kept, also);
    }
}

proof fn lemma_run_bytes(run: Seq<char>)
    requires
        forall|j: int| 0 <= j < run.len() ==> !mark(#[trigger] run[j]),
    ensures
        forall|i: int|
            0 <= i < encode_utf8(run).len() ==> alphanumeric_byte(#[trigger] encode_utf8(run)[i])
                == unreserved_byte(encode_utf8(run)[i]),
    decreases run.len(),
{
    if run.len() > 0 {
        let rest = run.drop_first();
        assert forall|j: int| 0 <= j < rest.len() implies !mark(#[trigger] rest[j]) by {
            assert(!mark(run[j + 1]));
        }
        lemma_run_bytes(rest);
        let c = run[0];
        assert(!mark(c));
        lemma_scalar_bytes(c);
        let head = encode_scalar(c as u32);
        assert(encode_utf8(run) == head + encode_utf8(rest));
        assert forall|i: int| 0 <= i < encode_utf8(run).len() implies alphanumeric_byte(
            #[trigger] encode_utf8(run)[i],
        ) == unreserved_byte(encode_utf8(run)[i]) by {
            if i < head.len() {
                assert(encode_utf8(run)[i] == head[i]);
            } else {
                assert(encode_utf8(run)[i] == encode_utf8(rest)[i - head.len()]);
            }
        }
    }
}

/// Where a text has no mark, keeping the marks makes no difference.
proof fn lemma_encoded_run(run: Seq<char>)
    requires
        forall|j: int| 0 <= j < run.len() ==> !mark(#[trigger] run[j]),
    ensures
        encoded_strict(run) == encoded(run),
{
    lemma_run_bytes(run);
    lemma_percent_text_same(
        encode_utf8(run),
        |b: u8| alphanumeric_byte(b),
        |b: u8| unreserved_byte(b),
    );
}

/// `percent_encoding::percent_decode_str` followed by `decode_utf8`: every `%` with two
/// hexadecimal digits behind it becomes the byte they name, and the bytes are read as UTF-8,
/// where they are.
#[verifier::external_body]
pub(crate) fn decode(text: &str) -> (r: Option<String>)
    ensures
        match r {
            Some(s) => decoded(text@) == Some(s@),
            None => decoded(text@) is None,
        },
{
    percent_encoding::percent_decode_str(text).decode_utf8().ok().map(|s| s.into_owned())
}

// ---------------------------------------------------------------------------------------
// What survives.

/// A set of ASCII bytes without the percent sign.
pub open spec fn keepable(kept: spec_fn(u8) -> bool) -> bool {
    forall|b: u8| #[trigger] kept(b) ==> b < 0x80 && b != 0x25
}

proof fn lemma_digits(b: u8)
    ensures
        hex_value(digit(b as int / 16) as u8) == Some((b / 16) as u8),
        hex_value(digit(b as int % 16) as u8) == Some((b % 16) as u8),
        digit(b as int / 16) as u32 <= 0x46,
        digit(b as int % 16) as u32 <= 0x46,
{
}

/// The characters of an encoded text are ASCII.
proof fn lemma_percent_text_is_ascii(bytes: Seq<u8>, kept: spec_fn(u8) -> bool)
    requires
        keepable(kept),
    ensures
        is_ascii_chars(percent_text(bytes, kept)),
    decreases bytes.len(),
{
    if bytes.len() > 0 {
        lemma_percent_text_is_ascii(bytes.skip(1), kept);
        lemma_digits(bytes[0]);
        let head = percent_escape(bytes[0], kept);
        let tail = percent_text(bytes.skip(1), kept);
        assert forall|i: int| 0 <= i < (head + tail).len() implies 0 <= (head + tail)[i] as nat && (head
            + tail)[i] as nat <= 127 by {
            if i < head.len() {
                assert((head + tail)[i] == head[i]);
            } else {
                assert((head + tail)[i] == tail[i - head.len()]);
            }
        }
    }
}

proof fn lemma_percent_bytes_of_text(bytes: Seq<u8>, kept: spec_fn(u8) -> bool)
    requires
        keepable(kept),
    ensures
        percent_bytes(encode_utf8(percent_text(bytes, kept))) == bytes,
    decreases bytes.len(),
{
    let text = percent_text(bytes, kept);
    lemma_percent_text_is_ascii(bytes, kept);
    is_ascii_chars_encode_utf8(text);
    let raw = encode_utf8(text);
    if bytes.len() > 0 {
        let rest = percent_text(bytes.skip(1), kept);
        lemma_percent_bytes_of_text(bytes.skip(1), kept);
        lemma_percent_text_is_ascii(bytes.skip(1), kept);
        is_ascii_chars_encode_utf8(rest);
        lemma_digits(bytes[0]);
        let head = percent_escape(bytes[0], kept);
        assert forall|i: int| 0 <= i < rest.len() implies #[trigger] encode_utf8(rest)[i]
            == raw[head.len() + i] by {
            assert(text[head.len() + i] == rest[i]);
        }
        assert(raw.skip(head.len() as int) =~= encode_utf8(rest));
        assert(text[0] == head[0]);
        if kept(bytes[0]) {
            assert(raw[0] == bytes[0]);
        } else {
            assert(text[1] == head[1] && text[2] == head[2]);
            let b = bytes[0];
            assert((b / 16) * 16 + b % 16 == b);
        }
        assert(percent_bytes(raw) =~= seq![bytes[0]] + bytes.skip(1));
        assert(seq![bytes[0]] + bytes.skip(1) =~= bytes);
    } else {
        assert(raw =~= bytes);
    }
}

/// A text that was encoded, against either set, decodes to itself.
pub proof fn encoded_text_decodes_to_itself(s: Seq<char>)
    ensures
        decoded(encoded(s)) == Some(s),
        decoded(encoded_strict(s)) == Some(s),
{
    lemma_percent_bytes_of_text(encode_utf8(s), |b: u8| unreserved_byte(b));
    lemma_percent_bytes_of_text(encode_utf8(s), |b: u8| alphanumeric_byte(b));
    encode_utf8_valid_utf8(s);
    encode_utf8_decode_utf8(s);
}

proof fn lemma_percent_text_is_printable(bytes: Seq<u8>, kept: spec_fn(u8) -> bool)
    requires
        forall|b: u8| #[trigger] kept(b) ==> unreserved_byte(b),
    ensures
        forall|i: int|
            0 <= i < percent_text(bytes, kept).len() ==> ' ' < #[trigger] percent_text(
                bytes,
                kept,
            )[i],
    decreases bytes.len(),
{
    if bytes.len() > 0 {
        lemma_percent_text_is_printable(bytes.skip(1), kept);
        let head = percent_escape(bytes[0], kept);
        let tail = percent_text(bytes.skip(1), kept);
        assert forall|i: int| 0 <= i < (head + tail).len() implies ' ' < #[trigger] (head
            + tail)[i] by {
            if i < head.len() {
                assert((head + tail)[i] == head[i]);
            } else {
                assert((head + tail)[i] == tail[i - head.len()]);
            }
        }
    }
}

/// An encoded value holds no control character.
pub proof fn encoded_text_is_printable(s: Seq<char>)
    ensures
        forall|i: int| 0 <= i < encoded(s).len() ==> ' ' < #[trigger] encoded(s)[i],
        forall|i: int| 0 <= i < encoded_strict(s).len() ==> ' ' < #[trigger] encoded_strict(s)[i],
{
    lemma_percent_text_is_printable(encode_utf8(s), |b: u8| unreserved_byte(b));
    lemma_percent_text_is_printable(encode_utf8(s), |b: u8| alphanumeric_byte(b));
}

/// The characters that carry meaning in a URL or in a list of parameters.
pub open spec fn structural(c: char) -> bool {
    c == '&' || c == '=' || c == '?' || c == '/' || c == '#' || c == ':' || c == '@' || c == '"'
        || c == '\'' || c == '<' || c == '>' || c == '+' || c == ' '
}

proof fn lemma_percent_text_is_plain(bytes: Seq<u8>, kept: spec_fn(u8) -> bool)
    requires
        forall|b: u8| #[trigger] kept(b) ==> unreserved_byte(b),
    ensures
        forall|i: int|
            0 <= i < percent_text(bytes, kept).len() ==> !structural(
                #[trigger] percent_text(bytes, kept)[i],
            ),
    decreases bytes.len(),
{
    if bytes.len() > 0 {
        lemma_percent_text_is_plain(bytes.skip(1), kept);
        let head = percent_escape(bytes[0], kept);
        let tail = percent_text(bytes.skip(1), kept);
        assert forall|i: int| 0 <= i < (head + tail).len() implies !structural(
            #[trigger] (head + tail)[i],
        ) by {
            if i < head.len() {
                assert((head + tail)[i] == head[i]);
            } else {
                assert((head + tail)[i] == tail[i - head.len()]);
            }
        }
    }
}

/// An encoded value holds no character that could end it or start another one.
pub proof fn encoded_text_is_plain(s: Seq<char>)
    ensures
        forall|i: int| 0 <= i < encoded(s).len() ==> !structural(#[trigger] encoded(s)[i]),
        forall|i: int|
            0 <= i < encoded_strict(s).len() ==> !structural(#[trigger] encoded_strict(s)[i]),
{
    lemma_percent_text_is_plain(encode_utf8(s), |b: u8| unreserved_byte(b));
    lemma_percent_text_is_plain(encode_utf8(s), |b: u8| alphanumeric_byte(b));
}

proof fn lemma_percent_text_kept(bytes: Seq<u8>, kept: spec_fn(u8) -> bool)
    requires
        forall|i: int| 0 <= i < bytes.len() ==> kept(#[trigger] bytes[i]),
    ensures
        percent_text(bytes, kept) == bytes.map_values(|b: u8| b as char),
    decreases bytes.len(),
{
    if bytes.len() > 0 {
        assert(kept(bytes[0]));
        assert forall|i: int| 0 <= i < bytes.skip(1).len() implies kept(
            #[trigger] bytes.skip(1)[i],
        ) by {
            assert(kept(bytes[i + 1]));
        }
        lemma_percent_text_kept(bytes.skip(1), kept);
    }
    assert(percent_text(bytes, kept) =~= bytes.map_values(|b: u8| b as char));
}

/// A text of letters and digits is its own encoding, and decodes to itself.
pub proof fn word_is_its_own_encoding(s: Seq<char>)
    requires
        forall|i: int| 0 <= i < s.len() ==> ascii_alphanumeric(#[trigger] s[i]),
    ensures
        encoded(s) == s,
        decoded(s) == Some(s),
{
    assert(is_ascii_chars(s)) by {
        assert forall|i: int| 0 <= i < s.len() implies 0 <= s[i] as nat && s[i] as nat <= 127 by {
            assert(ascii_alphanumeric(s[i]));
        }
    }
    is_ascii_chars_encode_utf8(s);
    let bytes = encode_utf8(s);
    let kept = |b: u8| unreserved_byte(b);
    assert forall|i: int| 0 <= i < bytes.len() implies kept(#[trigger] bytes[i]) by {
        assert(ascii_alphanumeric(s[i]));
    }
    lemma_percent_text_kept(bytes, kept);
    assert(encoded(s) =~= s) by {
        assert forall|i: int| 0 <= i < s.len() implies encoded(s)[i] == s[i] by {
            assert(ascii_alphanumeric(s[i]));
        }
    }
    encoded_text_decodes_to_itself(s);
}

/// A character takes at most four bytes.
proof fn lemma_bytes_of_char(c: char)
    ensures
        1 <= encode_utf8(seq![c]).len() <= 4,
        (c as u32) < 0x80 ==> encode_utf8(seq![c]).len() == 1,
{
    assert(seq![c].drop_first() =~= Seq::<char>::empty());
    assert(encode_utf8(Seq::<char>::empty()) =~= Seq::<u8>::empty());
}

/// A text takes at most four bytes for every character.
pub proof fn lemma_bytes_of_text(s: Seq<char>)
    ensures
        encode_utf8(s).len() <= 4 * s.len(),
    decreases s.len(),
{
    if s.len() > 0 {
        let front = s.drop_last();
        lemma_bytes_of_text(front);
        lemma_bytes_of_char(s.last());
        lemma_encode_utf8_both(front, seq![s.last()]);
        assert(front + seq![s.last()] =~= s);
    }
}

proof fn lemma_percent_text_length(bytes: Seq<u8>, kept: spec_fn(u8) -> bool)
    ensures
        percent_text(bytes, kept).len() <= 3 * bytes.len(),
    decreases bytes.len(),
{
    if bytes.len() > 0 {
        lemma_percent_text_length(bytes.skip(1), kept);
    }
}

/// An encoded text takes at most twelve bytes for every character of the text.
pub proof fn lemma_bytes_of_encoded(s: Seq<char>)
    ensures
        encode_utf8(encoded(s)).len() <= 12 * s.len(),
{
    let kept = |b: u8| unreserved_byte(b);
    lemma_bytes_of_text(s);
    lemma_percent_text_length(encode_utf8(s), kept);
    lemma_percent_text_is_ascii(encode_utf8(s), kept);
    is_ascii_chars_encode_utf8(encoded(s));
}

/// Which characters stand for themselves in a URL: letters, digits and the four marks of the
/// unreserved set. A text of those is its own encoding. The strict encoding leaves letters and
/// digits only, so that even a mark is escaped there.
pub proof fn unreserved_text_is_its_own_encoding(s: Seq<char>)
    requires
        forall|i: int| 0 <= i < s.len() ==> ascii_alphanumeric(#[trigger] s[i]) || mark(s[i]),
    ensures
        encoded(s) == s,
        decoded(s) == Some(s),
        (forall|i: int| 0 <= i < s.len() ==> !mark(#[trigger] s[i])) ==> encoded_strict(s) == s,
{
    assert(is_ascii_chars(s)) by {
        assert forall|i: int| 0 <= i < s.len() implies 0 <= s[i] as nat && s[i] as nat <= 127 by {
            assert(ascii_alphanumeric(s[i]) || mark(s[i]));
        }
    }
    is_ascii_chars_encode_utf8(s);
    let bytes = encode_utf8(s);
    let kept = |b: u8| unreserved_byte(b);
    assert forall|i: int| 0 <= i < bytes.len() implies kept(#[trigger] bytes[i]) by {
        assert(ascii_alphanumeric(s[i]) || mark(s[i]));
    }
    lemma_percent_text_kept(bytes, kept);
    assert(encoded(s) =~= s) by {
        assert forall|i: int| 0 <= i < s.len() implies encoded(s)[i] == s[i] by {
            assert(ascii_alphanumeric(s[i]) || mark(s[i]));
        }
    }
    encoded_text_decodes_to_itself(s);
    if forall|i: int| 0 <= i < s.len() ==> !mark(#[trigger] s[i]) {
        let strict = |b: u8| alphanumeric_byte(b);
        assert forall|i: int| 0 <= i < bytes.len() implies strict(#[trigger] bytes[i]) by {
            assert(ascii_alphanumeric(s[i]) || mark(s[i]));
            assert(!mark(s[i]));
        }
        lemma_percent_text_kept(bytes, strict);
        assert(encoded_strict(s) =~= s) by {
            assert forall|i: int| 0 <= i < s.len() implies encoded_strict(s)[i] == s[i] by {
                assert(ascii_alphanumeric(s[i]) || mark(s[i]));
            }
        }
    }
}

proof fn lemma_percent_text_is_in(bytes: Seq<u8>, kept: spec_fn(u8) -> bool, marks: bool)
    requires
        forall|b: u8|
            #[trigger] kept(b) ==> alphanumeric_byte(b) || (marks && unreserved_byte(b)),
    ensures
        forall|i: int|
            0 <= i < percent_text(bytes, kept).len() ==> ({
                let c = #[trigger] percent_text(bytes, kept)[i];
                c == '%' || ascii_alphanumeric(c) || (marks && mark(c))
            }),
    decreases bytes.len(),
{
    if bytes.len() > 0 {
        lemma_percent_text_is_in(bytes.skip(1), kept, marks);
        let head = percent_escape(bytes[0], kept);
        let tail = percent_text(bytes.skip(1), kept);
        lemma_digits(bytes[0]);
        assert forall|i: int| 0 <= i < (head + tail).len() implies ({
            let c = #[trigger] (head + tail)[i];
            c == '%' || ascii_alphanumeric(c) || (marks && mark(c))
        }) by {
            if i < head.len() {
                assert((head + tail)[i] == head[i]);
            } else {
                assert((head + tail)[i] == tail[i - head.len()]);
            }
        }
    }
}

/// An encoded text holds percent signs, letters and digits, and against the unreserved set the
/// four marks; nothing else.
pub proof fn encoded_text_stays_in_its_set(s: Seq<char>)
    ensures
        forall|i: int|
            0 <= i < encoded(s).len() ==> ({
                let c = #[trigger] encoded(s)[i];
                c == '%' || ascii_alphanumeric(c) || c == '-' || c == '_' || c == '.' || c == '~'
            }),
        forall|i: int|
            0 <= i < encoded_strict(s).len() ==> ({
                let c = #[trigger] encoded_strict(s)[i];
                c == '%' || ascii_alphanumeric(c)
            }),
{
    lemma_percent_text_is_in(encode_utf8(s), |b: u8| unreserved_byte(b), true);
    lemma_percent_text_is_in(encode_utf8(s), |b: u8| alphanumeric_byte(b), false);
}

/// Digits count in either case when a text is decoded.
pub proof fn either_case_of_a_digit_counts(n: u8)
    requires
        n < 16,
    ensures
        n < 10 ==> hex_value((0x30 + n) as u8) == Some(n),
        n >= 10 ==> hex_value((0x41 + n - 10) as u8) == Some(n),
        n >= 10 ==> hex_value((0x61 + n - 10) as u8) == Some(n),
{
}

/// How bytes are decoded: a percent sign and two digits are the byte they name, and everything
/// else, a percent sign that no two digits follow among it, stands for itself.
pub proof fn decoding_replaces_escapes_only(first: u8, second: u8, third: u8, rest: Seq<u8>)
    ensures
        first != 0x25 ==> percent_bytes(seq![first] + rest) == seq![first] + percent_bytes(rest),
        hex_value(second) is Some && hex_value(third) is Some ==> percent_bytes(
            seq![0x25u8, second, third] + rest,
        ) == seq![(hex_value(second)->0 * 16 + hex_value(third)->0) as u8] + percent_bytes(rest),
        hex_value(second) is None ==> percent_bytes(seq![0x25u8, second] + rest) == seq![0x25u8]
            + percent_bytes(seq![second] + rest),
        percent_bytes(seq![0x25u8]) == seq![0x25u8],
        percent_bytes(Seq::empty()) == Seq::<u8>::empty(),
{
    assert((seq![first] + rest).skip(1) =~= rest);
    assert((seq![0x25u8, second, third] + rest).skip(3) =~= rest);
    assert((seq![0x25u8, second] + rest).skip(1) =~= seq![second] + rest);
    assert(seq![0x25u8].skip(1) =~= Seq::<u8>::empty());
    assert(percent_bytes(Seq::<u8>::empty()) =~= Seq::<u8>::empty());
    assert(percent_bytes(seq![0x25u8]) =~= seq![0x25u8]);
}

} // verus!
