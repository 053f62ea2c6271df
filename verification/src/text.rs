//! Text handling over sequences of characters: the string operations the rest of the
//! library is written in, each stated over the characters it reads.
use vstd::prelude::*;
use vstd::string::*;
use vstd::utf8::*;

verus! {

/// `String::push`: the character is appended at the end, the rest stays.
pub assume_specification[ String::push ](s: &mut String, c: char)
    ensures
        final(s)@ == old(s)@.push(c),
;

/// The characters of `s`, in order.
pub fn chars_of(s: &str) -> (r: Vec<char>)
    ensures
        r@ == s@,
{
    let mut r: Vec<char> = Vec::new();
    for c in it: s.chars()
        invariant
            it.seq() == s@,
            r@ == s@.take(it.index()),
    {
        r.push(c);
    }
    assert(s@.take(s@.len() as int) == s@);
    r
}

/// The characters `from..to` of `v`, as a string.
pub fn piece_of(v: &Vec<char>, from: usize, to: usize) -> (r: String)
    requires
        from <= to <= v@.len(),
    ensures
        r@ == v@.subrange(from as int, to as int),
{
    let mut r = String::new();
    let mut i: usize = from;
    while i < to
        invariant
            from <= i <= to <= v@.len(),
            r@ == v@.subrange(from as int, i as int),
        decreases to - i,
    {
        r.push(v[i]);
        i += 1;
        assert(v@.subrange(from as int, i as int) =~= v@.subrange(from as int, i - 1).push(v@[i - 1]));
    }
    r
}

/// Whether two texts hold the same characters.
pub fn same_text(a: &str, b: &str) -> (r: bool)
    ensures
        r == (a@ == b@),
{
    let x = a.as_bytes();
    let y = b.as_bytes();
    proof {
        encode_utf8_decode_utf8(a@);
        encode_utf8_decode_utf8(b@);
    }
    if x.len() != y.len() {
        return false;
    }
    let mut i: usize = 0;
    while i < x.len()
        invariant
            x@ == encode_utf8(a@),
            y@ == encode_utf8(b@),
            x@.len() == y@.len(),
            i <= x@.len(),
            forall|j: int| 0 <= j < i ==> x@[j] == y@[j],
        decreases x@.len() - i,
    {
        if x[i] != y[i] {
            return false;
        }
        i += 1;
    }
    assert(x@ =~= y@);
    true
}

// ---------------------------------------------------------------------------------------
// Character classes.

/// The characters of Unicode's `White_Space` property.
pub open spec fn white_space(c: char) -> bool {
    ||| 0x9 <= c as u32 <= 0xd
    ||| c as u32 == 0x20
    ||| c as u32 == 0x85
    ||| c as u32 == 0xa0
    ||| c as u32 == 0x1680
    ||| 0x2000 <= c as u32 <= 0x200a
    ||| c as u32 == 0x2028
    ||| c as u32 == 0x2029
    ||| c as u32 == 0x202f
    ||| c as u32 == 0x205f
    ||| c as u32 == 0x3000
}

pub fn is_white_space(c: char) -> (r: bool)
    ensures
        r == white_space(c),
{
    let n: u32 = c as u32;
    (0x9 <= n && n <= 0xd) || n == 0x20 || n == 0x85 || n == 0xa0 || n == 0x1680 || (0x2000 <= n && n
        <= 0x200a) || n == 0x2028 || n == 0x2029 || n == 0x202f || n == 0x205f || n == 0x3000
}

/// The control characters, Unicode's general category `Cc`.
pub open spec fn control(c: char) -> bool {
    c as u32 <= 0x1f || 0x7f <= c as u32 <= 0x9f
}

pub fn is_control(c: char) -> (r: bool)
    ensures
        r == control(c),
{
    let n: u32 = c as u32;
    n <= 0x1f || (0x7f <= n && n <= 0x9f)
}

pub open spec fn ascii_alphanumeric(c: char) -> bool {
    ('0' <= c && c <= '9') || ('A' <= c && c <= 'Z') || ('a' <= c && c <= 'z')
}

pub fn is_ascii_alphanumeric(c: char) -> (r: bool)
    ensures
        r == ascii_alphanumeric(c),
{
    ('0' <= c && c <= '9') || ('A' <= c && c <= 'Z') || ('a' <= c && c <= 'z')
}

/// `c` in lower case where it is an ASCII letter, itself otherwise.
pub open spec fn lower(c: char) -> char {
    if 'A' <= c && c <= 'Z' {
        ((c as u8) + 32) as u8 as char
    } else {
        c
    }
}

pub fn lower_char(c: char) -> (r: char)
    ensures
        r == lower(c),
{
    if 'A' <= c && c <= 'Z' {
        ((c as u8) + 32) as char
    } else {
        c
    }
}

/// A text with every ASCII letter in lower case.
pub open spec fn lowered(s: Seq<char>) -> Seq<char> {
    s.map_values(|c: char| lower(c))
}

pub fn lower_text(s: &str) -> (r: String)
    ensures
        r@ == lowered(s@),
{
    let v = chars_of(s);
    let mut r = String::new();
    let mut i: usize = 0;
    assert(lowered(s@.take(0)) =~= Seq::<char>::empty());
    while i < v.len()
        invariant
            v@ == s@,
            i <= v@.len(),
            r@ == lowered(s@.take(i as int)),
        decreases v@.len() - i,
    {
        r.push(lower_char(v[i]));
        i += 1;
        assert(lowered(s@.take(i as int)) =~= lowered(s@.take(i - 1)).push(lower(s@[i - 1])));
    }
    assert(s@.take(i as int) =~= s@);
    r
}

/// Whether two texts are equal once ASCII letters are folded to lower case.
pub fn same_ignoring_case(a: &str, b: &str) -> (r: bool)
    ensures
        r == (lowered(a@) == lowered(b@)),
{
    let x = chars_of(a);
    let y = chars_of(b);
    if x.len() != y.len() {
        assert(lowered(a@).len() != lowered(b@).len());
        return false;
    }
    let mut i: usize = 0;
    while i < x.len()
        invariant
            x@ == a@,
            y@ == b@,
            x@.len() == y@.len(),
            i <= x@.len(),
            forall|j: int| 0 <= j < i ==> lower(x@[j]) == lower(y@[j]),
        decreases x@.len() - i,
    {
        if lower_char(x[i]) != lower_char(y[i]) {
            assert(lowered(a@)[i as int] != lowered(b@)[i as int]);
            return false;
        }
        i += 1;
    }
    assert(lowered(a@) =~= lowered(b@));
    true
}

// ---------------------------------------------------------------------------------------
// Trimming and cutting.

/// `s` without the white space it starts with.
pub open spec fn without_leading(s: Seq<char>) -> Seq<char>
    decreases s.len(),
{
    if s.len() > 0 && white_space(s[0]) {
        without_leading(s.skip(1))
    } else {
        s
    }
}

/// `s` without the white space it ends with.
pub open spec fn without_trailing(s: Seq<char>) -> Seq<char>
    decreases s.len(),
{
    if s.len() > 0 && white_space(s.last()) {
        without_trailing(s.drop_last())
    } else {
        s
    }
}

/// `s` without the white space at either end.
pub open spec fn trimmed(s: Seq<char>) -> Seq<char> {
    without_trailing(without_leading(s))
}

pub fn trim(s: &str) -> (r: String)
    ensures
        r@ == trimmed(s@),
{
    let v = chars_of(s);
    let mut from: usize = 0;
    assert(s@.skip(0) =~= s@);
    while from < v.len() && is_white_space(v[from])
        invariant
            v@ == s@,
            from <= v@.len(),
            without_leading(s@.skip(from as int)) == without_leading(s@),
        decreases v@.len() - from,
    {
        assert(s@.skip(from as int).skip(1) =~= s@.skip(from + 1));
        from += 1;
    }
    let mut to: usize = v.len();
    assert(s@.skip(from as int) =~= s@.subrange(from as int, to as int));
    while to > from && is_white_space(v[to - 1])
        invariant
            v@ == s@,
            from <= to <= v@.len(),
            without_trailing(s@.subrange(from as int, to as int)) == trimmed(s@),
        decreases to,
    {
        assert(s@.subrange(from as int, to as int).drop_last() =~= s@.subrange(from as int, to - 1));
        to -= 1;
    }
    piece_of(&v, from, to)
}

/// The first `limit` characters of `s`, or all of it where it has no more.
pub open spec fn cut(s: Seq<char>, limit: int) -> Seq<char> {
    if s.len() <= limit {
        s
    } else {
        s.take(limit)
    }
}

pub fn truncate(s: &str, limit: usize) -> (r: String)
    ensures
        r@ == cut(s@, limit as int),
{
    let v = chars_of(s);
    let to: usize = if v.len() <= limit {
        v.len()
    } else {
        limit
    };
    assert(s@.subrange(0, to as int) =~= cut(s@, limit as int));
    piece_of(&v, 0, to)
}

/// A text of at most `max` characters: `s` where it is no longer, else its start with an
/// ellipsis in place of the rest.
pub open spec fn shortened(s: Seq<char>, max: nat) -> Seq<char> {
    if s.len() <= max {
        s
    } else {
        s.take(
            if max == 0 {
                0
            } else {
                max - 1
            },
        ).push('\u{2026}')
    }
}

pub fn shorten(s: &str, max: usize) -> (r: String)
    ensures
        r@ == shortened(s@, max as nat),
{
    let v = chars_of(s);
    if v.len() <= max {
        return s.to_string();
    }
    let to: usize = if max == 0 {
        0
    } else {
        max - 1
    };
    let mut r = piece_of(&v, 0, to);
    assert(r@ =~= s@.take(to as int));
    r.push('\u{2026}');
    r
}

/// A shortened text keeps to its limit and is a start of the text where it was cut.
pub proof fn shortened_text_keeps_its_limit(s: Seq<char>, max: nat)
    requires
        max > 0,
    ensures
        shortened(s, max).len() <= max,
        s.len() <= max ==> shortened(s, max) == s,
        s.len() > max ==> shortened(s, max).len() == max && shortened(s, max).drop_last() == s.take(
            max - 1,
        ),
        s.len() > max ==> shortened(s, max).last() == '\u{2026}',
{
    if s.len() > max {
        assert(shortened(s, max).drop_last() =~= s.take(max - 1));
    }
}

pub fn starts_with(s: &str, prefix: &str) -> (r: bool)
    ensures
        r == prefix@.is_prefix_of(s@),
{
    match strip_prefix(s, prefix) {
        Some(_) => true,
        None => false,
    }
}

/// What follows `prefix` in `s`, where `s` starts with it.
pub fn strip_prefix(s: &str, prefix: &str) -> (r: Option<String>)
    ensures
        r is Some == prefix@.is_prefix_of(s@),
        r is Some ==> r->0@ == s@.skip(prefix@.len() as int),
{
    let v = chars_of(s);
    let p = chars_of(prefix);
    if p.len() > v.len() {
        return None;
    }
    let mut i: usize = 0;
    while i < p.len()
        invariant
            v@ == s@,
            p@ == prefix@,
            i <= p@.len() <= v@.len(),
            forall|j: int| 0 <= j < i ==> p@[j] == v@[j],
        decreases p@.len() - i,
    {
        if p[i] != v[i] {
            assert(s@.subrange(0, prefix@.len() as int)[i as int] != prefix@[i as int]);
            return None;
        }
        i += 1;
    }
    assert(s@.subrange(0, prefix@.len() as int) =~= prefix@);
    assert(s@.subrange(p@.len() as int, v@.len() as int) =~= s@.skip(prefix@.len() as int));
    Some(piece_of(&v, p.len(), v.len()))
}

// ---------------------------------------------------------------------------------------
// Splitting and joining.

/// Where `c` first stands in `s`; the length of `s` where it is not there.
pub open spec fn first_at(s: Seq<char>, c: char) -> int
    decreases s.len(),
{
    if s.len() == 0 {
        0
    } else if s[0] == c {
        0
    } else {
        1 + first_at(s.skip(1), c)
    }
}

pub proof fn lemma_first_at(s: Seq<char>, c: char)
    ensures
        0 <= first_at(s, c) <= s.len(),
        first_at(s, c) < s.len() ==> s[first_at(s, c)] == c,
        forall|j: int| 0 <= j < first_at(s, c) ==> s[j] != c,
        first_at(s, c) < s.len() <==> s.contains(c),
    decreases s.len(),
{
    if s.len() > 0 && s[0] != c {
        let rest = s.skip(1);
        lemma_first_at(rest, c);
        assert forall|j: int| 0 <= j < first_at(s, c) implies s[j] != c by {
            if j > 0 {
                assert(rest[j - 1] == s[j]);
            }
        }
    }
    if s.contains(c) {
        let k = choose|k: int| 0 <= k < s.len() && s[k] == c;
        assert(s[k] == c);
    }
}

/// The index is the first one exactly where nothing before it is `c`.
pub proof fn lemma_first_at_is(s: Seq<char>, c: char, k: int)
    requires
        0 <= k <= s.len(),
        k < s.len() ==> s[k] == c,
        forall|j: int| 0 <= j < k ==> s[j] != c,
    ensures
        first_at(s, c) == k,
{
    lemma_first_at(s, c);
    let f = first_at(s, c);
    if f < k {
        assert(s[f] != c);
    } else if k < f {
        assert(s[k] != c);
    }
}

/// Where `c` first stands in `v`, counted from the start of `v`, at or after `from`.
pub fn find_from(v: &Vec<char>, from: usize, c: char) -> (r: usize)
    requires
        from <= v@.len(),
    ensures
        r == from + first_at(v@.skip(from as int), c),
        from <= r <= v@.len(),
        r < v@.len() ==> v@[r as int] == c,
        forall|j: int| from <= j < r ==> v@[j] != c,
{
    let mut i: usize = from;
    while i < v.len() && v[i] != c
        invariant
            from <= i <= v@.len(),
            forall|j: int| from <= j < i ==> v@[j] != c,
        decreases v@.len() - i,
    {
        i += 1;
    }
    proof {
        let t = v@.skip(from as int);
        assert forall|j: int| 0 <= j < i - from implies t[j] != c by {
            assert(t[j] == v@[from + j]);
        }
        lemma_first_at_is(t, c, i - from);
    }
    i
}

/// What stands before and after the first `c` in `s`.
pub open spec fn parted(s: Seq<char>, c: char) -> Option<(Seq<char>, Seq<char>)> {
    let i = first_at(s, c);
    if i < s.len() {
        Some((s.take(i), s.skip(i + 1)))
    } else {
        None
    }
}

pub fn split_once(s: &str, c: char) -> (r: Option<(String, String)>)
    ensures
        match r {
            Some(p) => parted(s@, c) == Some((p.0@, p.1@)),
            None => parted(s@, c) is None,
        },
{
    let v = chars_of(s);
    let i: usize = find_from(&v, 0, c);
    assert(s@.skip(0) =~= s@);
    if i < v.len() {
        let head = piece_of(&v, 0, i);
        let tail = piece_of(&v, i + 1, v.len());
        assert(s@.subrange(0, i as int) =~= s@.take(i as int));
        assert(s@.subrange(i + 1, s@.len() as int) =~= s@.skip(i + 1));
        Some((head, tail))
    } else {
        None
    }
}

/// The characters of each string of a list.
pub open spec fn texts(v: Seq<String>) -> Seq<Seq<char>> {
    v.map_values(|s: String| s@)
}

/// The characters of either side of a result.
pub open spec fn result_text(r: Result<String, String>) -> Result<Seq<char>, Seq<char>> {
    match r {
        Ok(s) => Ok(s@),
        Err(s) => Err(s@),
    }
}

/// Nothing, or the words of an error, by their characters.
pub open spec fn unit_result(r: Result<(), String>) -> Result<(), Seq<char>> {
    match r {
        Ok(_) => Ok(()),
        Err(why) => Err(why@),
    }
}

/// The characters of a text that may be missing.
pub open spec fn option_text(o: Option<String>) -> Option<Seq<char>> {
    match o {
        Some(s) => Some(s@),
        None => None,
    }
}

/// The characters of a borrowed text that may be missing.
pub open spec fn option_str(o: Option<&str>) -> Option<Seq<char>> {
    match o {
        Some(s) => Some(s@),
        None => None,
    }
}

/// The pieces of `s` between the occurrences of `c`; `s` itself where there is none.
pub open spec fn pieces(s: Seq<char>, c: char) -> Seq<Seq<char>>
    decreases s.len(),
    via pieces_decreases
{
    match parted(s, c) {
        None => seq![s],
        Some(p) => seq![p.0] + pieces(p.1, c),
    }
}

#[via_fn]
proof fn pieces_decreases(s: Seq<char>, c: char) {
    lemma_first_at(s, c);
}

pub fn split_on(s: &str, c: char) -> (r: Vec<String>)
    ensures
        texts(r@) == pieces(s@, c),
{
    let v = chars_of(s);
    let mut r: Vec<String> = Vec::new();
    let mut from: usize = 0;
    assert(s@.skip(0) =~= s@);
    assert(texts(r@) =~= Seq::<Seq<char>>::empty());
    loop
        invariant
            v@ == s@,
            from <= v@.len(),
            texts(r@) + pieces(s@.skip(from as int), c) == pieces(s@, c),
        decreases v@.len() - from,
    {
        let i: usize = find_from(&v, from, c);
        let part = piece_of(&v, from, i);
        let ghost rest = s@.skip(from as int);
        let ghost before = r@;
        assert(part@ =~= rest.take(i - from));
        r.push(part);
        assert(texts(r@) =~= texts(before).push(part@));
        if i == v.len() {
            assert(rest.take(i - from) =~= rest);
            assert(texts(before) + seq![rest] =~= texts(r@));
            return r;
        }
        assert(rest.skip(i - from + 1) =~= s@.skip(i + 1));
        assert(texts(before) + (seq![part@] + pieces(s@.skip(i + 1), c)) =~= texts(r@) + pieces(
            s@.skip(i + 1),
            c,
        ));
        from = i + 1;
    }
}

/// `line` without one carriage return at its end.
pub open spec fn without_return(line: Seq<char>) -> Seq<char> {
    if line.len() > 0 && line.last() == '\r' {
        line.drop_last()
    } else {
        line
    }
}

/// The lines of `s`. A line ends at a line feed, with or without a carriage return before
/// it; the last line needs no ending.
pub open spec fn lines(s: Seq<char>) -> Seq<Seq<char>>
    decreases s.len(),
    via lines_decreases
{
    match parted(s, '\n') {
        Some(p) => seq![without_return(p.0)] + lines(p.1),
        None => if s.len() == 0 {
            Seq::empty()
        } else {
            seq![s]
        },
    }
}

#[via_fn]
proof fn lines_decreases(s: Seq<char>) {
    lemma_first_at(s, '\n');
}

pub fn lines_of(s: &str) -> (r: Vec<String>)
    ensures
        texts(r@) == lines(s@),
{
    let v = chars_of(s);
    let mut r: Vec<String> = Vec::new();
    let mut from: usize = 0;
    assert(s@.skip(0) =~= s@);
    assert(texts(r@) =~= Seq::<Seq<char>>::empty());
    loop
        invariant
            v@ == s@,
            from <= v@.len(),
            texts(r@) + lines(s@.skip(from as int)) == lines(s@),
        decreases v@.len() - from,
    {
        let i: usize = find_from(&v, from, '\n');
        let ghost rest = s@.skip(from as int);
        let ghost before = r@;
        if i == v.len() {
            if from < v.len() {
                let part = piece_of(&v, from, i);
                assert(part@ =~= rest);
                r.push(part);
                assert(texts(r@) =~= texts(before) + seq![rest]);
            } else {
                assert(texts(before) + Seq::<Seq<char>>::empty() =~= texts(r@));
            }
            return r;
        }
        let to: usize = if i > from && v[i - 1] == '\r' {
            i - 1
        } else {
            i
        };
        let part = piece_of(&v, from, to);
        assert(part@ =~= without_return(rest.take(i - from)));
        r.push(part);
        assert(texts(r@) =~= texts(before).push(part@));
        assert(rest.skip(i - from + 1) =~= s@.skip(i + 1));
        assert(texts(before) + (seq![part@] + lines(s@.skip(i + 1))) =~= texts(r@) + lines(
            s@.skip(i + 1),
        ));
        from = i + 1;
    }
}

/// The parts one after the other, with `sep` between neighbours.
pub open spec fn joined(parts: Seq<Seq<char>>, sep: Seq<char>) -> Seq<char>
    decreases parts.len(),
{
    if parts.len() == 0 {
        Seq::empty()
    } else if parts.len() == 1 {
        parts[0]
    } else {
        joined(parts.drop_last(), sep) + sep + parts.last()
    }
}

/// Every part followed by a line feed.
pub open spec fn lined(parts: Seq<Seq<char>>) -> Seq<char>
    decreases parts.len(),
{
    if parts.len() == 0 {
        Seq::empty()
    } else {
        lined(parts.drop_last()) + parts.last().push('\n')
    }
}

/// Every character of `s` replaced by what `f` makes of it.
pub open spec fn spread(s: Seq<char>, f: spec_fn(char) -> Seq<char>) -> Seq<char>
    decreases s.len(),
{
    if s.len() == 0 {
        Seq::empty()
    } else {
        f(s[0]) + spread(s.skip(1), f)
    }
}

pub proof fn lemma_spread_push(s: Seq<char>, c: char, f: spec_fn(char) -> Seq<char>)
    ensures
        spread(s.push(c), f) == spread(s, f) + f(c),
    decreases s.len(),
{
    if s.len() == 0 {
        assert(s.push(c).skip(1) =~= s);
        assert(f(c) + Seq::<char>::empty() =~= Seq::<char>::empty() + f(c));
    } else {
        assert(s.push(c).skip(1) =~= s.skip(1).push(c));
        lemma_spread_push(s.skip(1), c, f);
        assert(f(s[0]) + (spread(s.skip(1), f) + f(c)) =~= f(s[0]) + spread(s.skip(1), f) + f(c));
    }
}

pub proof fn lemma_spread_both(a: Seq<char>, b: Seq<char>, f: spec_fn(char) -> Seq<char>)
    ensures
        spread(a + b, f) == spread(a, f) + spread(b, f),
    decreases a.len(),
{
    if a.len() == 0 {
        assert(a + b =~= b);
        assert(spread(a, f) + spread(b, f) =~= spread(b, f));
    } else {
        assert((a + b).skip(1) =~= a.skip(1) + b);
        lemma_spread_both(a.skip(1), b, f);
        assert(f(a[0]) + (spread(a.skip(1), f) + spread(b, f)) =~= f(a[0]) + spread(a.skip(1), f)
            + spread(b, f));
    }
}

/// Where every character stands for itself, nothing changes.
pub proof fn lemma_spread_same(s: Seq<char>, f: spec_fn(char) -> Seq<char>)
    requires
        forall|i: int| 0 <= i < s.len() ==> f(#[trigger] s[i]) == seq![s[i]],
    ensures
        spread(s, f) == s,
    decreases s.len(),
{
    if s.len() > 0 {
        assert(f(s[0]) == seq![s[0]]);
        assert forall|i: int| 0 <= i < s.skip(1).len() implies f(#[trigger] s.skip(1)[i]) == seq![
            s.skip(1)[i],
        ] by {
            assert(f(s[i + 1]) == seq![s[i + 1]]);
        }
        lemma_spread_same(s.skip(1), f);
        assert(seq![s[0]] + s.skip(1) =~= s);
    } else {
        assert(spread(s, f) =~= s);
    }
}

/// Where every character is replaced by characters of one class, only that class is left.
pub proof fn lemma_spread_stays_in(
    s: Seq<char>,
    f: spec_fn(char) -> Seq<char>,
    class: spec_fn(char) -> bool,
)
    requires
        forall|c: char, i: int| s.contains(c) && 0 <= i < f(c).len() ==> class(#[trigger] f(c)[i]),
    ensures
        forall|i: int| 0 <= i < spread(s, f).len() ==> class(#[trigger] spread(s, f)[i]),
    decreases s.len(),
{
    if s.len() > 0 {
        let rest = s.skip(1);
        assert forall|c: char, i: int| rest.contains(c) && 0 <= i < f(c).len() implies class(
            #[trigger] f(c)[i],
        ) by {
            let k = choose|k: int| 0 <= k < rest.len() && rest[k] == c;
            assert(s[k + 1] == c);
        }
        lemma_spread_stays_in(rest, f, class);
        assert(s.contains(s[0]));
        assert forall|i: int| 0 <= i < spread(s, f).len() implies class(
            #[trigger] spread(s, f)[i],
        ) by {
            if i < f(s[0]).len() {
                assert(spread(s, f)[i] == f(s[0])[i]);
            } else {
                assert(spread(s, f)[i] == spread(rest, f)[i - f(s[0]).len()]);
            }
        }
    }
}

// ---------------------------------------------------------------------------------------
// Numbers.

/// The digit of value `n` in upper-case hexadecimal; the decimal digit where `n` is below ten.
pub open spec fn digit(n: int) -> char {
    if n < 10 {
        (0x30 + n) as u8 as char
    } else {
        (0x37 + n) as u8 as char
    }
}

pub fn digit_char(n: u8) -> (r: char)
    requires
        n < 16,
    ensures
        r == digit(n as int),
{
    if n < 10 {
        (0x30 + n) as char
    } else {
        (0x37 + n) as char
    }
}

/// `n` in decimal, without leading zeros.
pub open spec fn decimal(n: nat) -> Seq<char>
    decreases n,
{
    if n < 10 {
        seq![digit(n as int)]
    } else {
        decimal(n / 10).push(digit((n % 10) as int))
    }
}

pub fn decimal_text(n: u64) -> (r: String)
    ensures
        r@ == decimal(n as nat),
    decreases n,
{
    if n < 10 {
        let mut r = String::new();
        r.push(digit_char(n as u8));
        assert(r@ =~= seq![digit(n as int)]);
        r
    } else {
        let mut r = decimal_text(n / 10);
        r.push(digit_char((n % 10) as u8));
        r
    }
}

/// `n` in upper-case hexadecimal, padded with zeros to at least `width` digits.
pub open spec fn hex(n: nat, width: nat) -> Seq<char>
    decreases n + width,
{
    if n < 16 && width <= 1 {
        seq![digit(n as int)]
    } else {
        hex(
            n / 16,
            if width == 0 {
                0
            } else {
                (width - 1) as nat
            },
        ).push(digit((n % 16) as int))
    }
}

pub fn hex_text(n: u64, width: usize) -> (r: String)
    ensures
        r@ == hex(n as nat, width as nat),
    decreases n + width,
{
    if n < 16 && width <= 1 {
        let mut r = String::new();
        r.push(digit_char(n as u8));
        assert(r@ =~= seq![digit(n as int)]);
        r
    } else {
        let narrower: usize = if width == 0 {
            0
        } else {
            width - 1
        };
        let mut r = hex_text(n / 16, narrower);
        r.push(digit_char((n % 16) as u8));
        r
    }
}

// ---------------------------------------------------------------------------------------
// How the operations above act on longer texts.

pub proof fn lemma_first_at_in_front(a: Seq<char>, b: Seq<char>, c: char)
    requires
        first_at(a, c) < a.len(),
    ensures
        first_at(a + b, c) == first_at(a, c),
{
    lemma_first_at(a, c);
    lemma_first_at_is(a + b, c, first_at(a, c));
}

/// A text that ends where a line ends has the lines of what follows it as its own further
/// lines.
pub proof fn lemma_lines_of_both(a: Seq<char>, b: Seq<char>)
    requires
        a.len() == 0 || a.last() == '\n',
    ensures
        lines(a + b) == lines(a) + lines(b),
    decreases a.len(),
{
    if a.len() == 0 {
        assert(a + b =~= b);
        assert(lines(a) + lines(b) =~= lines(b));
    } else {
        assert(a.contains(a.last()));
        lemma_first_at(a, '\n');
        lemma_first_at_in_front(a, b, '\n');
        let i = first_at(a, '\n');
        let rest = a.skip(i + 1);
        assert((a + b).take(i) =~= a.take(i));
        assert((a + b).skip(i + 1) =~= rest + b);
        if rest.len() > 0 {
            assert(rest.last() == a.last());
        }
        lemma_lines_of_both(rest, b);
        assert(seq![without_return(a.take(i))] + (lines(rest) + lines(b)) =~= seq![
            without_return(a.take(i)),
        ] + lines(rest) + lines(b));
    }
}

/// A line followed by its ending is that one line.
pub proof fn lemma_one_line(line: Seq<char>)
    requires
        !line.contains('\n'),
        line.len() == 0 || line.last() != '\r',
    ensures
        lines(line.push('\n')) == seq![line],
{
    let s = line.push('\n');
    assert forall|j: int| 0 <= j < line.len() implies s[j] != '\n' by {
        assert(line.contains(line[j]));
    }
    lemma_first_at_is(s, '\n', line.len() as int);
    assert(s.take(line.len() as int) =~= line);
    assert(s.skip((line.len() + 1) as int) =~= Seq::<char>::empty());
    lemma_first_at(Seq::<char>::empty(), '\n');
    assert(lines(Seq::<char>::empty()) =~= Seq::<Seq<char>>::empty());
    assert(seq![line] + Seq::<Seq<char>>::empty() =~= seq![line]);
}

/// No line holds a line feed.
pub proof fn lemma_lines_hold_no_line_feed(s: Seq<char>)
    ensures
        forall|i: int| 0 <= i < lines(s).len() ==> !(#[trigger] lines(s)[i]).contains('\n'),
    decreases s.len(),
{
    lemma_first_at(s, '\n');
    match parted(s, '\n') {
        Some(p) => {
            lemma_lines_hold_no_line_feed(p.1);
            let first = without_return(p.0);
            assert(!first.contains('\n')) by {
                if first.contains('\n') {
                    let j = choose|j: int| 0 <= j < first.len() && first[j] == '\n';
                    assert(s[j] == '\n');
                }
            }
            assert forall|i: int| 0 <= i < lines(s).len() implies !(#[trigger] lines(s)[i]).contains(
                '\n',
            ) by {
                if i > 0 {
                    assert(lines(s)[i] == lines(p.1)[i - 1]);
                }
            }
        },
        None => {},
    }
}

pub open spec fn all_white(s: Seq<char>) -> bool {
    forall|i: int| 0 <= i < s.len() ==> white_space(#[trigger] s[i])
}

pub proof fn lemma_leading(s: Seq<char>)
    ensures
        ({
            let n = s.len() - without_leading(s).len();
            &&& 0 <= n <= s.len()
            &&& without_leading(s) == s.skip(n)
            &&& all_white(s.take(n))
            &&& n < s.len() ==> !white_space(s[n])
        }),
    decreases s.len(),
{
    if s.len() > 0 && white_space(s[0]) {
        lemma_leading(s.skip(1));
        let n = s.len() - without_leading(s).len();
        assert(s.skip(1).skip(n - 1) =~= s.skip(n));
        assert forall|i: int| 0 <= i < n implies white_space(#[trigger] s.take(n)[i]) by {
            if i > 0 {
                assert(s.skip(1).take(n - 1)[i - 1] == s[i]);
            }
        }
        if n < s.len() {
            assert(s.skip(1)[n - 1] == s[n]);
        }
    } else {
        assert(s.skip(0) =~= s);
    }
}

pub proof fn lemma_trailing(s: Seq<char>)
    ensures
        ({
            let n = without_trailing(s).len() as int;
            &&& 0 <= n <= s.len()
            &&& without_trailing(s) == s.take(n)
            &&& all_white(s.skip(n))
            &&& n > 0 ==> !white_space(s[n - 1])
        }),
    decreases s.len(),
{
    if s.len() > 0 && white_space(s.last()) {
        lemma_trailing(s.drop_last());
        let n = without_trailing(s).len() as int;
        assert(s.drop_last().take(n) =~= s.take(n));
        assert forall|i: int| 0 <= i < s.len() - n implies white_space(#[trigger] s.skip(n)[i]) by {
            if i < s.len() - n - 1 {
                assert(s.drop_last().skip(n)[i] == s.skip(n)[i]);
            }
        }
    } else {
        assert(s.take(s.len() as int) =~= s);
    }
}

/// What is trimmed off one end leaves the rest in place: a text is its trimmed core between
/// two runs of white space, and any such split with a core that is bare at both ends is it.
pub proof fn lemma_trimmed_is(s: Seq<char>, from: int, to: int)
    requires
        0 <= from <= to <= s.len(),
        all_white(s.take(from)),
        all_white(s.skip(to)),
        from < to ==> !white_space(s[from]) && !white_space(s[to - 1]),
    ensures
        trimmed(s) == s.subrange(from, to),
{
    lemma_leading(s);
    let n = s.len() - without_leading(s).len();
    let t = without_leading(s);
    lemma_trailing(t);
    let m = without_trailing(t).len() as int;
    assert forall|i: int| 0 <= i < n implies white_space(s[i]) by {
        assert(s.take(n)[i] == s[i]);
    }
    assert forall|i: int| n + m <= i < s.len() implies white_space(s[i]) by {
        assert(t.skip(m)[i - n - m] == s[i]);
    }
    assert forall|i: int| 0 <= i < from implies white_space(s[i]) by {
        assert(s.take(from)[i] == s[i]);
    }
    assert forall|i: int| to <= i < s.len() implies white_space(s[i]) by {
        assert(s.skip(to)[i - to] == s[i]);
    }
    if m > 0 {
        assert(t[m - 1] == s[n + m - 1]);
        assert(t[0] == s[n]);
        assert(from < to);
        assert(n == from);
        assert(n + m == to);
    } else {
        assert(from == to) by {
            if from < to {
                assert(white_space(s[from]));
            }
        }
    }
    assert(trimmed(s) =~= s.subrange(from, to));
}

/// The bounds of the trimmed core of a text.
pub proof fn lemma_trimmed(s: Seq<char>) -> (bounds: (int, int))
    ensures
        0 <= bounds.0 <= bounds.1 <= s.len(),
        trimmed(s) == s.subrange(bounds.0, bounds.1),
        all_white(s.take(bounds.0)),
        all_white(s.skip(bounds.1)),
        bounds.0 < bounds.1 ==> !white_space(s[bounds.0]) && !white_space(s[bounds.1 - 1]),
{
    lemma_leading(s);
    let n = s.len() - without_leading(s).len();
    let t = without_leading(s);
    lemma_trailing(t);
    let m = without_trailing(t).len() as int;
    assert forall|i: int| 0 <= i < s.len() - (n + m) implies white_space(
        #[trigger] s.skip(n + m)[i],
    ) by {
        assert(t.skip(m)[i] == s[n + m + i]);
    }
    assert(trimmed(s) =~= s.subrange(n, n + m));
    if m > 0 {
        assert(t[m - 1] == s[n + m - 1]);
        assert(t[0] == s[n]);
    }
    (n, n + m)
}

pub proof fn lemma_trimmed_is_no_longer(s: Seq<char>)
    ensures
        trimmed(s).len() <= s.len(),
{
    let b = lemma_trimmed(s);
}

/// White space in front of a text does not show in its trimmed form.
pub proof fn lemma_trim_ignores_front(s: Seq<char>, n: int)
    requires
        0 <= n <= s.len(),
        all_white(s.take(n)),
    ensures
        trimmed(s.skip(n)) == trimmed(s),
{
    let t = s.skip(n);
    let b = lemma_trimmed(t);
    assert forall|i: int| 0 <= i < n + b.0 implies white_space(#[trigger] s.take(n + b.0)[i]) by {
        if i < n {
            assert(s.take(n)[i] == s[i]);
        } else {
            assert(t.take(b.0)[i - n] == s[i]);
        }
    }
    assert(s.skip(n + b.1) =~= t.skip(b.1));
    if b.0 < b.1 {
        assert(t[b.0] == s[n + b.0]);
        assert(t[b.1 - 1] == s[n + b.1 - 1]);
    }
    lemma_trimmed_is(s, n + b.0, n + b.1);
    assert(t.subrange(b.0, b.1) =~= s.subrange(n + b.0, n + b.1));
}

/// White space behind a text does not show in its trimmed form.
pub proof fn lemma_trim_ignores_back(s: Seq<char>, n: int)
    requires
        0 <= n <= s.len(),
        all_white(s.skip(n)),
    ensures
        trimmed(s.take(n)) == trimmed(s),
{
    let t = s.take(n);
    let b = lemma_trimmed(t);
    assert(s.take(b.0) =~= t.take(b.0));
    assert forall|i: int| 0 <= i < s.len() - b.1 implies white_space(#[trigger] s.skip(b.1)[i]) by {
        if b.1 + i < n {
            assert(t.skip(b.1)[i] == s[b.1 + i]);
        } else {
            assert(s.skip(n)[b.1 + i - n] == s[b.1 + i]);
        }
    }
    if b.0 < b.1 {
        assert(t[b.0] == s[b.0]);
        assert(t[b.1 - 1] == s[b.1 - 1]);
    }
    lemma_trimmed_is(s, b.0, b.1);
    assert(t.subrange(b.0, b.1) =~= s.subrange(b.0, b.1));
}

/// What a filter keeps is what satisfies it, and nothing else.
pub proof fn lemma_filter<A>(s: Seq<A>, pred: spec_fn(A) -> bool)
    ensures
        forall|i: int|
            0 <= i < s.filter(pred).len() ==> pred(#[trigger] s.filter(pred)[i]) && s.contains(
                s.filter(pred)[i],
            ),
        forall|i: int|
            0 <= i < s.len() && pred(#[trigger] s[i]) ==> s.filter(pred).contains(s[i]),
    decreases s.len(),
{
    reveal(Seq::filter);
    let kept = s.filter(pred);
    if s.len() > 0 {
        let front = s.drop_last();
        lemma_filter(front, pred);
        assert forall|i: int| 0 <= i < kept.len() implies pred(#[trigger] kept[i]) && s.contains(
            kept[i],
        ) by {
            if i < front.filter(pred).len() {
                assert(kept[i] == front.filter(pred)[i]);
                let k = choose|k: int| 0 <= k < front.len() && front[k] == kept[i];
                assert(s[k] == kept[i]);
            } else {
                assert(s[s.len() - 1] == kept[i]);
            }
        }
        assert forall|i: int| 0 <= i < s.len() && pred(#[trigger] s[i]) implies kept.contains(
            s[i],
        ) by {
            if i < s.len() - 1 {
                assert(front[i] == s[i]);
                let k = choose|k: int|
                    0 <= k < front.filter(pred).len() && front.filter(pred)[k] == s[i];
                assert(kept[k] == s[i]);
            } else {
                assert(kept[kept.len() - 1] == s[i]);
            }
        }
    }
}

/// Where nothing satisfies a filter, it keeps nothing.
pub proof fn lemma_filter_none<A>(s: Seq<A>, pred: spec_fn(A) -> bool)
    requires
        forall|i: int| 0 <= i < s.len() ==> !pred(#[trigger] s[i]),
    ensures
        s.filter(pred) == Seq::<A>::empty(),
    decreases s.len(),
{
    reveal(Seq::filter);
    if s.len() > 0 {
        assert(!pred(s[s.len() - 1]));
        assert forall|i: int| 0 <= i < s.drop_last().len() implies !pred(
            #[trigger] s.drop_last()[i],
        ) by {
            assert(!pred(s[i]));
        }
        lemma_filter_none(s.drop_last(), pred);
    }
    assert(s.filter(pred) =~= Seq::<A>::empty());
}

/// The lines of a text made of lines are those lines.
pub proof fn lemma_lines_of_lined(parts: Seq<Seq<char>>)
    requires
        forall|i: int|
            0 <= i < parts.len() ==> !(#[trigger] parts[i]).contains('\n') && (parts[i].len() == 0
                || parts[i].last() != '\r'),
    ensures
        lines(lined(parts)) == parts,
        lined(parts).len() == 0 || lined(parts).last() == '\n',
    decreases parts.len(),
{
    if parts.len() == 0 {
        lemma_first_at(Seq::<char>::empty(), '\n');
        assert(lines(Seq::<char>::empty()) =~= parts);
    } else {
        let front = parts.drop_last();
        assert forall|i: int| 0 <= i < front.len() implies !(#[trigger] front[i]).contains('\n') && (
        front[i].len() == 0 || front[i].last() != '\r') by {
            assert(front[i] == parts[i]);
        }
        lemma_lines_of_lined(front);
        assert(parts.last() == parts[parts.len() - 1]);
        lemma_one_line(parts.last());
        lemma_lines_of_both(lined(front), parts.last().push('\n'));
        assert(front + seq![parts.last()] =~= parts);
    }
}

/// Two texts with the separator between them have the pieces of the one and then those of the
/// other.
pub proof fn lemma_pieces_both(a: Seq<char>, b: Seq<char>, c: char)
    ensures
        pieces(a.push(c) + b, c) == pieces(a, c) + pieces(b, c),
    decreases a.len(),
{
    let whole = a.push(c) + b;
    lemma_first_at(a, c);
    if a.contains(c) {
        let i = first_at(a, c);
        assert forall|j: int| 0 <= j < i implies whole[j] != c by {
            assert(whole[j] == a[j]);
        }
        assert(whole[i] == c);
        lemma_first_at_is(whole, c, i);
        let rest = a.skip(i + 1);
        assert(whole.take(i) =~= a.take(i));
        assert(whole.skip(i + 1) =~= rest.push(c) + b);
        lemma_pieces_both(rest, b, c);
        assert(seq![a.take(i)] + (pieces(rest, c) + pieces(b, c)) =~= seq![a.take(i)] + pieces(
            rest,
            c,
        ) + pieces(b, c));
    } else {
        assert forall|j: int| 0 <= j < a.len() implies whole[j] != c by {
            assert(whole[j] == a[j]);
            assert(a.contains(a[j]));
        }
        assert(whole[a.len() as int] == c);
        lemma_first_at_is(whole, c, a.len() as int);
        assert(whole.take(a.len() as int) =~= a);
        assert(whole.skip((a.len() + 1) as int) =~= b);
    }
}

/// The pieces of parts joined with a separator that none of them holds are those parts.
pub proof fn lemma_pieces_of_joined(parts: Seq<Seq<char>>, c: char)
    requires
        parts.len() > 0,
        forall|i: int| 0 <= i < parts.len() ==> !(#[trigger] parts[i]).contains(c),
    ensures
        pieces(joined(parts, seq![c]), c) == parts,
    decreases parts.len(),
{
    let last = parts.last();
    assert(last == parts[parts.len() - 1]);
    lemma_first_at(last, c);
    assert(pieces(last, c) == seq![last]);
    if parts.len() == 1 {
        assert(seq![last] =~= parts);
    } else {
        let front = parts.drop_last();
        assert forall|i: int| 0 <= i < front.len() implies !(#[trigger] front[i]).contains(c) by {
            assert(front[i] == parts[i]);
        }
        lemma_pieces_of_joined(front, c);
        lemma_pieces_both(joined(front, seq![c]), last, c);
        assert(joined(parts, seq![c]) =~= joined(front, seq![c]).push(c) + last);
        assert(front + seq![last] =~= parts);
    }
}

// ---------------------------------------------------------------------------------------
// What the operations promise of every text.

/// Trimming takes the blanks off both ends and nothing else: a text between blanks that neither
/// starts nor ends with one is what is left. Of blanks alone nothing is left.
pub proof fn trimming_leaves_what_stands_between_blanks(
    front: Seq<char>,
    core: Seq<char>,
    back: Seq<char>,
)
    requires
        all_white(front),
        all_white(back),
        core.len() > 0 ==> !white_space(core[0]) && !white_space(core.last()),
    ensures
        trimmed(front + core + back) == core,
{
    let s = front + core + back;
    let from = front.len() as int;
    let to = from + core.len();
    assert(s.take(from) =~= front);
    assert(s.skip(to) =~= back);
    if core.len() > 0 {
        assert(s[from] == core[0]);
        assert(s[to - 1] == core.last());
    }
    lemma_trimmed_is(s, from, to);
    assert(s.subrange(from, to) =~= core);
}

/// What counts as a blank and what as a control character, among the characters of ASCII: a
/// space, a tab and the line ends are blanks, nothing that shows is either, and of the blanks all
/// but the space are control characters too.
pub proof fn blanks_and_controls_do_not_show(c: char)
    ensures
        c == ' ' || c == '\t' || c == '\n' || c == '\r' ==> white_space(c),
        ' ' < c && c < '\x7f' ==> !white_space(c) && !control(c),
        c < ' ' ==> control(c),
        c == '\x7f' ==> control(c) && !white_space(c),
        !control(' '),
        control(c) <==> (c as u32) < 0x20 || 0x7f <= c as u32 <= 0x9f,
        '\x7f' < c ==> (white_space(c) <==> c == '\u{85}' || c == '\u{a0}' || c == '\u{1680}' || (
        '\u{2000}' <= c && c <= '\u{200a}') || c == '\u{2028}' || c == '\u{2029}' || c
            == '\u{202f}' || c == '\u{205f}' || c == '\u{3000}'),
        c <= ' ' && white_space(c) ==> c == ' ' || ('\t' <= c && c <= '\r'),
{
}

/// Folding to lower case moves the twenty-six letters of ASCII and nothing else; it keeps a
/// text's length, and doing it twice is doing it once.
pub proof fn folding_moves_letters_only(s: Seq<char>, c: char)
    ensures
        'A' <= c && c <= 'Z' ==> lower(c) as u32 == c as u32 + 32,
        !('A' <= c && c <= 'Z') ==> lower(c) == c,
        lowered(s).len() == s.len(),
        forall|i: int| 0 <= i < s.len() ==> #[trigger] lowered(s)[i] == lower(s[i]),
        lowered(lowered(s)) == lowered(s),
{
    assert forall|i: int| 0 <= i < s.len() implies lower(lower(s[i])) == lower(s[i]) by {
        lemma_lower_twice(s[i]);
    }
    assert(lowered(lowered(s)) =~= lowered(s));
}

/// A letter or a digit of ASCII is one that folds to a small letter of ASCII, or a digit.
pub proof fn letters_and_digits_fold_to_themselves(c: char)
    ensures
        ascii_alphanumeric(c) <==> ('0' <= c && c <= '9') || ('a' <= lower(c) && lower(c) <= 'z'),
        ascii_alphanumeric(c) ==> ascii_alphanumeric(lower(c)),
        ascii_alphanumeric(c) ==> !white_space(c) && !control(c),
{
}

proof fn lemma_lower_twice(c: char)
    ensures
        lower(lower(c)) == lower(c),
{
}

/// A cut text is the start of the text, as long as the limit where the text is longer.
pub proof fn cut_keeps_the_start(s: Seq<char>, limit: nat)
    ensures
        cut(s, limit as int).is_prefix_of(s),
        cut(s, limit as int).len() == if s.len() < limit {
            s.len()
        } else {
            limit
        },
{
    assert(cut(s, limit as int) =~= s.subrange(0, cut(s, limit as int).len() as int));
}

/// A text is parted at the first separator: what stands before it holds none, and nothing is
/// lost. Without a separator it is not parted.
pub proof fn parting_takes_out_one_separator(a: Seq<char>, b: Seq<char>, c: char)
    requires
        !a.contains(c),
    ensures
        parted(a.push(c) + b, c) == Some((a, b)),
        parted(a, c) is None,
{
    let s = a.push(c) + b;
    lemma_first_at(a, c);
    assert(s[a.len() as int] == c);
    assert forall|j: int| 0 <= j < a.len() implies s[j] != c by {
        assert(a.contains(a[j]));
        assert(s[j] == a[j]);
    }
    lemma_first_at_is(s, c, a.len() as int);
    assert(s.take(a.len() as int) =~= a);
    assert(s.skip(a.len() as int + 1) =~= b);
}

proof fn lemma_joined_front(first: Seq<char>, rest: Seq<Seq<char>>, sep: Seq<char>)
    requires
        rest.len() > 0,
    ensures
        joined(seq![first] + rest, sep) == first + sep + joined(rest, sep),
    decreases rest.len(),
{
    let all = seq![first] + rest;
    let front = rest.drop_last();
    assert(all.drop_last() =~= seq![first] + front);
    if rest.len() == 1 {
        assert(all.drop_last() =~= seq![first]);
        assert(joined(seq![first], sep) == first);
        assert(joined(rest, sep) == rest[0]);
        assert(all.last() == rest[0]);
    } else {
        lemma_joined_front(first, front, sep);
        assert(all.last() == rest.last());
        assert(joined(all, sep) == first + sep + joined(front, sep) + sep + rest.last());
        assert(joined(rest, sep) == joined(front, sep) + sep + rest.last());
        assert(joined(all, sep) =~= first + sep + joined(rest, sep));
    }
}

/// The pieces of a text hold no separator, and put together with it again they are the text.
pub proof fn pieces_put_together_are_the_text(s: Seq<char>, c: char)
    ensures
        pieces(s, c).len() > 0,
        joined(pieces(s, c), seq![c]) == s,
        forall|i: int| 0 <= i < pieces(s, c).len() ==> !(#[trigger] pieces(s, c)[i]).contains(c),
    decreases s.len(),
{
    lemma_first_at(s, c);
    let all = pieces(s, c);
    let i = first_at(s, c);
    if i < s.len() {
        let head = s.take(i);
        let rest = s.skip(i + 1);
        pieces_put_together_are_the_text(rest, c);
        lemma_joined_front(head, pieces(rest, c), seq![c]);
        assert(head + seq![c] + rest =~= s);
        assert forall|j: int| 0 <= j < all.len() implies !(#[trigger] all[j]).contains(c) by {
            if j == 0 {
                if head.contains(c) {
                    let k = choose|k: int| 0 <= k < head.len() && head[k] == c;
                    assert(s[k] == c);
                }
            } else {
                assert(all[j] == pieces(rest, c)[j - 1]);
            }
        }
    }
}

/// A line ends the same way with a carriage return before its line feed and without.
pub proof fn carriage_return_belongs_to_the_line_end(line: Seq<char>, rest: Seq<char>)
    requires
        !line.contains('\n'),
        line.len() == 0 || line.last() != '\r',
    ensures
        lines(line.push('\n') + rest) == seq![line] + lines(rest),
        lines(line.push('\r').push('\n') + rest) == seq![line] + lines(rest),
        lines(line) == if line.len() == 0 {
            Seq::empty()
        } else {
            seq![line]
        },
{
    let long = line.push('\r');
    assert forall|j: int| 0 <= j < long.len() implies long[j] != '\n' by {
        if j < line.len() {
            assert(line.contains(line[j]));
        }
    }
    parting_takes_out_one_separator(line, rest, '\n');
    parting_takes_out_one_separator(long, rest, '\n');
    assert(long.drop_last() =~= line);
}

/// The value of a hexadecimal digit in upper case.
pub open spec fn digit_value(c: char) -> int {
    if c <= '9' {
        c as int - 0x30
    } else {
        c as int - 0x37
    }
}

/// The number that digits stand for, to the base of ten.
pub open spec fn decimal_read(s: Seq<char>) -> int
    decreases s.len(),
{
    if s.len() == 0 {
        0
    } else {
        10 * decimal_read(s.drop_last()) + digit_value(s.last())
    }
}

/// The number that digits stand for, to the base of sixteen.
pub open spec fn hex_read(s: Seq<char>) -> int
    decreases s.len(),
{
    if s.len() == 0 {
        0
    } else {
        16 * hex_read(s.drop_last()) + digit_value(s.last())
    }
}

pub proof fn lemma_digit(n: int)
    requires
        0 <= n < 16,
    ensures
        digit_value(digit(n)) == n,
        n < 10 ==> '0' <= digit(n) && digit(n) <= '9',
        n >= 10 ==> 'A' <= digit(n) && digit(n) <= 'F',
{
}

/// A number written in decimal reads as that number. It starts with a zero only where it is zero.
pub proof fn decimal_reads_back(n: nat)
    ensures
        decimal_read(decimal(n)) == n,
        decimal(n).len() > 0,
        n > 0 ==> decimal(n)[0] != '0',
    decreases n,
{
    lemma_digit((n % 10) as int);
    let none = Seq::<char>::empty();
    if n < 10 {
        lemma_digit(n as int);
        let s = decimal(n);
        assert(s.drop_last() =~= none);
        assert(decimal_read(none) == 0);
        if n > 0 {
            assert(digit_value('0') == 0);
        }
    } else {
        decimal_reads_back(n / 10);
        assert(decimal(n).drop_last() =~= decimal(n / 10));
    }
}

/// Sixteen to the power of `width`.
pub open spec fn hex_span(width: nat) -> nat
    decreases width,
{
    if width == 0 {
        1
    } else {
        16 * hex_span((width - 1) as nat)
    }
}

/// A number written in hexadecimal reads as that number, and has as many digits as it was padded
/// to where it has no more of its own.
pub proof fn hex_reads_back(n: nat, width: nat)
    ensures
        hex_read(hex(n, width)) == n,
        width > 0 && n < hex_span(width) ==> hex(n, width).len() == width,
        hex(n, width).len() >= width,
        hex(n, width).len() > 0,
    decreases n + width,
{
    let none = Seq::<char>::empty();
    if n < 16 && width <= 1 {
        lemma_digit(n as int);
        assert(hex(n, width).drop_last() =~= none);
        assert(hex_read(none) == 0);
    } else {
        let narrower: nat = if width == 0 {
            0
        } else {
            (width - 1) as nat
        };
        lemma_digit((n % 16) as int);
        hex_reads_back(n / 16, narrower);
        assert(hex(n, width).drop_last() =~= hex(n / 16, narrower));
        if width > 0 && n < hex_span(width) {
            assert(hex_span(width) == 16 * hex_span(narrower));
            assert(n / 16 < hex_span(narrower)) by (nonlinear_arith)
                requires
                    n < 16 * hex_span(narrower),
            ;
            if narrower == 0 {
                assert(hex_span(0) == 1);
                assert(false);
            }
        }
    }
}

} // verus!
