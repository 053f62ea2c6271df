//! How a reader takes a marked-up document apart: its tags, the attributes of a tag, and the
//! text that entities stand for. What is written for others to read is stated through these.
use vstd::prelude::*;

use crate::text::{
    joined, lemma_first_at, lemma_pieces_both, lemma_pieces_of_joined, pieces, spread,
};

verus! {

/// The tags of a document, each with the text that follows it: what stands behind every `<`.
pub open spec fn tags(doc: Seq<char>) -> Seq<Seq<char>> {
    pieces(doc, '<').skip(1)
}

/// A document made of tags.
pub open spec fn doc_of(tags: Seq<Seq<char>>) -> Seq<char>
    decreases tags.len(),
{
    if tags.len() == 0 {
        Seq::empty()
    } else {
        doc_of(tags.drop_last()).push('<') + tags.last()
    }
}

/// Whether no tag of some holds another one's start.
pub open spec fn separate(tags: Seq<Seq<char>>) -> bool {
    forall|i: int| 0 <= i < tags.len() ==> !(#[trigger] tags[i]).contains('<')
}

proof fn lemma_pieces_of_doc(parts: Seq<Seq<char>>)
    requires
        separate(parts),
    ensures
        pieces(doc_of(parts), '<') == seq![Seq::<char>::empty()] + parts,
    decreases parts.len(),
{
    if parts.len() == 0 {
        lemma_first_at(Seq::<char>::empty(), '<');
        assert(seq![Seq::<char>::empty()] + parts =~= seq![Seq::<char>::empty()]);
        assert(pieces(doc_of(parts), '<') =~= seq![Seq::<char>::empty()]);
    } else {
        let front = parts.drop_last();
        let last = parts.last();
        assert forall|i: int| 0 <= i < front.len() implies !(#[trigger] front[i]).contains('<') by {
            assert(front[i] == parts[i]);
        }
        lemma_pieces_of_doc(front);
        lemma_pieces_both(doc_of(front), last, '<');
        assert(last == parts[parts.len() - 1]);
        lemma_first_at(last, '<');
        assert(pieces(last, '<') == seq![last]);
        assert(seq![Seq::<char>::empty()] + front + seq![last] =~= seq![Seq::<char>::empty()]
            + parts);
    }
}

/// The tags of a document made of tags are those tags.
pub proof fn lemma_tags_of_doc(parts: Seq<Seq<char>>)
    requires
        separate(parts),
    ensures
        tags(doc_of(parts)) == parts,
{
    lemma_pieces_of_doc(parts);
    assert((seq![Seq::<char>::empty()] + parts).skip(1) =~= parts);
}

pub proof fn lemma_doc_of_both(a: Seq<Seq<char>>, b: Seq<Seq<char>>)
    ensures
        doc_of(a + b) == doc_of(a) + doc_of(b),
    decreases b.len(),
{
    if b.len() == 0 {
        assert(a + b =~= a);
        assert(doc_of(a) + doc_of(b) =~= doc_of(a));
    } else {
        assert((a + b).drop_last() =~= a + b.drop_last());
        lemma_doc_of_both(a, b.drop_last());
        assert((doc_of(a) + doc_of(b.drop_last())).push('<') + b.last() =~= doc_of(a) + (doc_of(
            b.drop_last(),
        ).push('<') + b.last()));
    }
}

/// The value of an attribute, in the parts of a tag between its quotes.
pub open spec fn attribute_in(parts: Seq<Seq<char>>, name: Seq<char>) -> Option<Seq<char>>
    decreases parts.len(),
{
    if parts.len() < 2 {
        None
    } else if names_attribute(parts[0], name) {
        Some(parts[1])
    } else {
        attribute_in(parts.skip(2), name)
    }
}

/// Whether what stands before a quote is the name of an attribute, with the space before it and
/// the equals sign behind.
pub open spec fn names_attribute(before: Seq<char>, name: Seq<char>) -> bool {
    let ending = seq![' '] + name + seq!['='];
    before.len() >= ending.len() && before.skip(before.len() - ending.len()) == ending
}

/// The value of an attribute of a tag, as it is written.
pub open spec fn attribute(tag: Seq<char>, name: Seq<char>) -> Option<Seq<char>> {
    attribute_in(pieces(tag, '"'), name)
}

/// The text that a reader takes `s` for: each of the five entities is the character it stands
/// for, and everything else is itself.
pub open spec fn unescaped(s: Seq<char>) -> Seq<char>
    decreases s.len(),
{
    if s.len() == 0 {
        s
    } else if s.len() >= 5 && s.take(5) == "&amp;"@ {
        seq!['&'] + unescaped(s.skip(5))
    } else if s.len() >= 4 && s.take(4) == "&lt;"@ {
        seq!['<'] + unescaped(s.skip(4))
    } else if s.len() >= 4 && s.take(4) == "&gt;"@ {
        seq!['>'] + unescaped(s.skip(4))
    } else if s.len() >= 6 && s.take(6) == "&quot;"@ {
        seq!['"'] + unescaped(s.skip(6))
    } else if s.len() >= 6 && s.take(6) == "&apos;"@ {
        seq!['\''] + unescaped(s.skip(6))
    } else {
        seq![s[0]] + unescaped(s.skip(1))
    }
}

/// What stands for a character in a document, if it is read as that character.
pub open spec fn stands_for(text: Seq<char>, c: char) -> bool {
    ||| c == '&' && text == "&amp;"@
    ||| c == '<' && text == "&lt;"@
    ||| c == '>' && text == "&gt;"@
    ||| c == '"' && text == "&quot;"@
    ||| c == '\'' && text == "&apos;"@
    ||| c != '&' && text == seq![c]
}

/// Where every character is written as something that stands for it, the text reads back.
pub proof fn lemma_unescaped(s: Seq<char>, f: spec_fn(char) -> Seq<char>)
    requires
        forall|i: int| 0 <= i < s.len() ==> stands_for(f(#[trigger] s[i]), s[i]),
    ensures
        unescaped(spread(s, f)) == s,
    decreases s.len(),
{
    let whole = spread(s, f);
    if s.len() == 0 {
        assert(whole =~= s);
    } else {
        let c = s[0];
        let rest = spread(s.skip(1), f);
        assert(stands_for(f(s[0]), s[0]));
        assert forall|i: int| 0 <= i < s.skip(1).len() implies stands_for(
            f(#[trigger] s.skip(1)[i]),
            s.skip(1)[i],
        ) by {
            assert(stands_for(f(s[i + 1]), s[i + 1]));
        }
        lemma_unescaped(s.skip(1), f);
        reveal_strlit("&amp;");
        reveal_strlit("&lt;");
        reveal_strlit("&gt;");
        reveal_strlit("&quot;");
        reveal_strlit("&apos;");
        let n = f(c).len() as int;
        assert(whole.skip(n) =~= rest);
        assert(whole.take(n) =~= f(c));
        assert(whole[0] == f(c)[0]);
        if c == '&' || n > 1 {
            assert(whole[1] == f(c)[1]);
            assert(whole[2] == f(c)[2]);
        }
        if whole.len() >= 5 {
            assert(whole.take(5)[0] == whole[0]);
            assert(whole.take(5)[1] == whole[1]);
            assert(whole.take(5)[2] == whole[2]);
        }
        if whole.len() >= 4 {
            assert(whole.take(4)[0] == whole[0]);
            assert(whole.take(4)[1] == whole[1]);
        }
        if whole.len() >= 6 {
            assert(whole.take(6)[0] == whole[0]);
            assert(whole.take(6)[1] == whole[1]);
            assert(whole.take(6)[2] == whole[2]);
        }
        assert(unescaped(whole) =~= seq![c] + unescaped(rest));
        assert(seq![c] + s.skip(1) =~= s);
    }
}

/// The parts between the quotes of a tag that is made of them.
pub proof fn lemma_quoted_parts(parts: Seq<Seq<char>>)
    requires
        parts.len() > 0,
        forall|i: int| 0 <= i < parts.len() ==> !(#[trigger] parts[i]).contains('"'),
    ensures
        pieces(joined(parts, seq!['"']), '"') == parts,
{
    lemma_pieces_of_joined(parts, '"');
}

proof fn lemma_joined_push(parts: Seq<Seq<char>>, last: Seq<char>, sep: Seq<char>)
    requires
        parts.len() > 0,
    ensures
        joined(parts.push(last), sep) == joined(parts, sep) + sep + last,
{
    assert(parts.push(last).drop_last() =~= parts);
}

/// A tag with three attributes, written out.
pub proof fn lemma_joined_seven(
    a: Seq<char>,
    b: Seq<char>,
    c: Seq<char>,
    d: Seq<char>,
    e: Seq<char>,
    f: Seq<char>,
    g: Seq<char>,
    q: Seq<char>,
)
    ensures
        joined(seq![a, b, c, d, e, f, g], q) == a + q + b + q + c + q + d + q + e + q + f + q + g,
{
    let p1 = seq![a];
    let p2 = p1.push(b);
    let p3 = p2.push(c);
    let p4 = p3.push(d);
    let p5 = p4.push(e);
    let p6 = p5.push(f);
    lemma_joined_push(p1, b, q);
    lemma_joined_push(p2, c, q);
    lemma_joined_push(p3, d, q);
    lemma_joined_push(p4, e, q);
    lemma_joined_push(p5, f, q);
    lemma_joined_push(p6, g, q);
    assert(seq![a, b, c, d, e, f, g] =~= p6.push(g));
}

/// A tag with four attributes, written out.
pub proof fn lemma_joined_nine(
    a: Seq<char>,
    b: Seq<char>,
    c: Seq<char>,
    d: Seq<char>,
    e: Seq<char>,
    f: Seq<char>,
    g: Seq<char>,
    h: Seq<char>,
    i: Seq<char>,
    q: Seq<char>,
)
    ensures
        joined(seq![a, b, c, d, e, f, g, h, i], q) == a + q + b + q + c + q + d + q + e + q + f + q
            + g + q + h + q + i,
{
    lemma_joined_seven(a, b, c, d, e, f, g, q);
    let p7 = seq![a, b, c, d, e, f, g];
    let p8 = p7.push(h);
    lemma_joined_push(p7, h, q);
    lemma_joined_push(p8, i, q);
    assert(seq![a, b, c, d, e, f, g, h, i] =~= p8.push(i));
}

} // verus!
