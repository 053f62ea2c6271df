//! What a toast's document says to whoever reads it: the texts that are shown, the buttons with
//! their labels, and what a press of each comes to.
use vstd::prelude::*;
use vstd::string::*;

use crate::json::json_of_text;
use crate::markup::{
    attribute, attribute_in, doc_of, lemma_doc_of_both, lemma_joined_nine, lemma_joined_seven,
    lemma_quoted_parts, lemma_tags_of_doc, lemma_unescaped, names_attribute, separate, stands_for,
    tags, unescaped,
};
use crate::notification_actions::{ActionKind, ActionView, ContextView};
use crate::notifications::{payload_with, uri_around, CLICK_URI_PREFIX};
use crate::percent::{encoded_strict, encoded_text_is_printable};
use crate::text::{joined, lemma_filter_none, shortened, trimmed};
use crate::windows_toast::{
    activated, args_text, arguments_are_printable, background_button, body_element, breaks_markup,
    decision_buttons_decide, escaped, escaped_value_keeps_the_document, markup, open_button,
    reply_button_sends_what_was_typed, toast_actions, toast_text, word, ActivationView,
    APPROVE_ACTION, APPROVE_STYLE, BODY_LIMIT, REJECT_ACTION, REJECT_STYLE, REPLY_ACTION,
    REPLY_FIELD, REPLY_STYLE, TITLE_LIMIT, TOAST_ACTIONS, TOAST_HEAD, TOAST_TAIL, TOAST_VISUAL,
};

verus! {

// ---------------------------------------------------------------------------------------
// What a value is read as.

/// A character that XML has no way to carry.
pub open spec fn lost(c: char) -> bool {
    c < '\x20' && c != '\t' && c != '\n' && c != '\r'
}

/// A text with a space in place of every character that is lost.
pub open spec fn legible(s: Seq<char>) -> Seq<char> {
    s.map_values(
        |c: char|
            if lost(c) {
                ' '
            } else {
                c
            },
    )
}

proof fn lemma_escaped_legible(s: Seq<char>)
    ensures
        escaped(s) == escaped(legible(s)),
    decreases s.len(),
{
    let f = |c: char| markup(c);
    if s.len() > 0 {
        lemma_escaped_legible(s.skip(1));
        assert(legible(s).skip(1) =~= legible(s.skip(1)));
        assert(f(legible(s)[0]) =~= f(s[0]));
    } else {
        assert(legible(s) =~= s);
    }
}

/// A value put into a document is read as it was, but for characters that no document can
/// carry.
pub proof fn value_is_read_as_it_was(s: Seq<char>)
    ensures
        unescaped(escaped(s)) == legible(s),
        (forall|i: int| 0 <= i < s.len() ==> !lost(#[trigger] s[i])) ==> unescaped(escaped(s)) == s,
{
    let f = |c: char| markup(c);
    let t = legible(s);
    lemma_escaped_legible(s);
    assert forall|i: int| 0 <= i < t.len() implies stands_for(f(#[trigger] t[i]), t[i]) by {}
    lemma_unescaped(t, f);
    if forall|i: int| 0 <= i < s.len() ==> !lost(#[trigger] s[i]) {
        assert(t =~= s);
    }
}

proof fn lemma_printable_is_read_as_it_was(s: Seq<char>)
    requires
        forall|i: int| 0 <= i < s.len() ==> ' ' < #[trigger] s[i],
    ensures
        unescaped(escaped(s)) == s,
{
    assert forall|i: int| 0 <= i < s.len() implies !lost(#[trigger] s[i]) by {
        assert(' ' < s[i]);
    }
    value_is_read_as_it_was(s);
}

proof fn lemma_escaped_is_separate(s: Seq<char>)
    ensures
        !escaped(s).contains('<'),
        !escaped(s).contains('"'),
{
    escaped_value_keeps_the_document(s);
    assert forall|i: int| 0 <= i < escaped(s).len() implies escaped(s)[i] != '<' && escaped(s)[i]
        != '"' by {
        assert(!breaks_markup(escaped(s)[i]));
    }
}

// ---------------------------------------------------------------------------------------
// The tags of a document.

/// The buttons of a document: its `action` tags.
pub open spec fn buttons(doc: Seq<char>) -> Seq<Seq<char>> {
    tags(doc).filter(|tag: Seq<char>| "action "@.is_prefix_of(tag))
}

/// The input fields of a document.
pub open spec fn fields(doc: Seq<char>) -> Seq<Seq<char>> {
    tags(doc).filter(|tag: Seq<char>| "input "@.is_prefix_of(tag))
}

/// The texts that a document shows, as they are read.
pub open spec fn shown_texts(doc: Seq<char>) -> Seq<Seq<char>> {
    tags(doc).filter(|tag: Seq<char>| "text>"@.is_prefix_of(tag)).map_values(
        |tag: Seq<char>| unescaped(tag.skip(5)),
    )
}

/// What a press of a button hands over.
pub open spec fn arguments(button: Seq<char>) -> Seq<char> {
    unescaped(attribute(button, "arguments"@)->0)
}

spec fn quote() -> Seq<char> {
    seq!['"']
}

spec fn toast_parts(uri: Seq<char>) -> Seq<Seq<char>> {
    seq![
        "toast duration="@,
        "short"@,
        " activationType="@,
        "protocol"@,
        " launch="@,
        uri,
        " useButtonStyle="@,
        "true"@,
        ">\n    "@,
    ]
}

spec fn background_parts(
    content: Seq<char>,
    args: Seq<char>,
    hint: Seq<char>,
    value: Seq<char>,
) -> Seq<Seq<char>> {
    seq![
        "action content="@,
        content,
        " activationType="@,
        "background"@,
        " arguments="@,
        escaped(args),
        hint,
        value,
        "/>"@,
    ]
}

spec fn open_parts(uri: Seq<char>) -> Seq<Seq<char>> {
    seq![
        "action content="@,
        "Open"@,
        " activationType="@,
        "protocol"@,
        " arguments="@,
        uri,
        "/>"@,
    ]
}

spec fn field_parts() -> Seq<Seq<char>> {
    seq![
        "input id="@,
        "reply"@,
        " type="@,
        "text"@,
        " placeHolderContent="@,
        "Reply to Mingo"@,
        "/>"@,
    ]
}

spec fn head_tags(uri: Seq<char>, title: Seq<char>) -> Seq<Seq<char>> {
    seq![
        joined(toast_parts(uri), quote()),
        "visual>"@,
        "binding template=\"ToastGeneric\">"@,
        "text>"@ + escaped(title),
        "/text>"@,
    ]
}

spec fn body_tags(body: Seq<char>) -> Seq<Seq<char>> {
    if body.len() == 0 {
        Seq::empty()
    } else {
        seq!["text>"@ + escaped(shortened(body, BODY_LIMIT as nat)), "/text>"@]
    }
}

spec fn middle_tags() -> Seq<Seq<char>> {
    seq!["/binding>"@, "/visual>\n    "@, "audio silent=\"true\"/>\n    "@, "actions>"@]
}

spec fn tail_tags() -> Seq<Seq<char>> {
    seq!["/actions>\n"@, "/toast>"@]
}

spec fn action_tags(
    title: Seq<char>,
    uri: Seq<char>,
    user_id: Option<Seq<char>>,
    context: Option<Seq<char>>,
    kind: ActionKind,
) -> Seq<Seq<char>> {
    match kind {
        ActionKind::Default => seq![joined(open_parts(uri), quote())],
        ActionKind::Approval => seq![
            joined(
                background_parts(
                    "Approve"@,
                    args_text("approve"@, title, user_id, context),
                    " hint-buttonStyle="@,
                    "Success"@,
                ),
                quote(),
            ),
            joined(
                background_parts(
                    "Reject"@,
                    args_text("reject"@, title, user_id, context),
                    " hint-buttonStyle="@,
                    "Critical"@,
                ),
                quote(),
            ),
        ],
        ActionKind::Message => seq![
            joined(field_parts(), quote()),
            joined(
                background_parts(
                    "Send"@,
                    args_text("reply"@, title, user_id, context),
                    " hint-inputId="@,
                    "reply"@,
                ),
                quote(),
            ),
            joined(open_parts(uri), quote()),
        ],
    }
}

#[verifier::rlimit(40)]
proof fn lemma_background_button(
    content: Seq<char>,
    args: Seq<char>,
    style: Seq<char>,
    hint: Seq<char>,
    value: Seq<char>,
)
    requires
        " "@ + style == hint + quote() + value + quote(),
    ensures
        background_button(content, args, style) == seq!['<'] + joined(
            background_parts(content, args, hint, value),
            quote(),
        ),
{
    let q = quote();
    reveal_strlit("<action content=\"");
    reveal_strlit("action content=");
    reveal_strlit("\" activationType=\"background\" arguments=\"");
    reveal_strlit(" activationType=");
    reveal_strlit("background");
    reveal_strlit(" arguments=");
    reveal_strlit("\" ");
    reveal_strlit(" ");
    reveal_strlit("/>");
    assert("<action content=\""@ =~= seq!['<'] + "action content="@ + q);
    assert("\" activationType=\"background\" arguments=\""@ =~= q + " activationType="@ + q
        + "background"@ + q + " arguments="@ + q);
    assert("\" "@ =~= q + " "@);
    lemma_joined_nine(
        "action content="@,
        content,
        " activationType="@,
        "background"@,
        " arguments="@,
        escaped(args),
        hint,
        value,
        "/>"@,
        q,
    );
    let head = seq!['<'] + "action content="@ + q + content + q + " activationType="@ + q
        + "background"@ + q + " arguments="@ + q + escaped(args) + q;
    assert("<action content=\""@ + content + "\" activationType=\"background\" arguments=\""@
        + escaped(args) + "\" "@ =~= head + " "@);
    assert(head + " "@ + style =~= head + (" "@ + style));
    assert(head + (hint + q + value + q) + "/>"@ =~= seq!['<'] + joined(
        background_parts(content, args, hint, value),
        q,
    ));
}

proof fn lemma_open_button(uri: Seq<char>)
    ensures
        open_button(uri) == seq!['<'] + joined(open_parts(uri), quote()),
{
    let q = quote();
    reveal_strlit("<action content=\"Open\" activationType=\"protocol\" arguments=\"");
    reveal_strlit("action content=");
    reveal_strlit("Open");
    reveal_strlit(" activationType=");
    reveal_strlit("protocol");
    reveal_strlit(" arguments=");
    reveal_strlit("\"/>");
    reveal_strlit("/>");
    assert("<action content=\"Open\" activationType=\"protocol\" arguments=\""@ =~= seq!['<']
        + "action content="@ + q + "Open"@ + q + " activationType="@ + q + "protocol"@ + q
        + " arguments="@ + q);
    assert("\"/>"@ =~= q + "/>"@);
    lemma_joined_seven(
        "action content="@,
        "Open"@,
        " activationType="@,
        "protocol"@,
        " arguments="@,
        uri,
        "/>"@,
        q,
    );
    assert(open_button(uri) =~= seq!['<'] + joined(open_parts(uri), q));
}

proof fn lemma_field()
    ensures
        REPLY_FIELD@ == seq!['<'] + joined(field_parts(), quote()),
{
    let q = quote();
    reveal_strlit("<input id=\"reply\" type=\"text\" placeHolderContent=\"Reply to Mingo\"/>");
    reveal_strlit("input id=");
    reveal_strlit("reply");
    reveal_strlit(" type=");
    reveal_strlit("text");
    reveal_strlit(" placeHolderContent=");
    reveal_strlit("Reply to Mingo");
    reveal_strlit("/>");
    lemma_joined_seven(
        "input id="@,
        "reply"@,
        " type="@,
        "text"@,
        " placeHolderContent="@,
        "Reply to Mingo"@,
        "/>"@,
        q,
    );
    assert(REPLY_FIELD@ =~= seq!['<'] + joined(field_parts(), q));
}

#[verifier::rlimit(40)]
proof fn lemma_head(uri: Seq<char>, title: Seq<char>)
    ensures
        TOAST_HEAD@ + uri + TOAST_VISUAL@ + escaped(title) + "</text>"@ == doc_of(
            head_tags(uri, title),
        ),
{
    let q = quote();
    let lt = seq!['<'];
    reveal_strlit("<toast duration=\"short\" activationType=\"protocol\" launch=\"");
    reveal_strlit(
        "\" useButtonStyle=\"true\">\n    <visual><binding template=\"ToastGeneric\"><text>",
    );
    reveal_strlit("toast duration=");
    reveal_strlit("short");
    reveal_strlit(" activationType=");
    reveal_strlit("protocol");
    reveal_strlit(" launch=");
    reveal_strlit(" useButtonStyle=");
    reveal_strlit("true");
    reveal_strlit(">\n    ");
    reveal_strlit("visual>");
    reveal_strlit("binding template=\"ToastGeneric\">");
    reveal_strlit("text>");
    reveal_strlit("/text>");
    reveal_strlit("</text>");
    lemma_joined_nine(
        "toast duration="@,
        "short"@,
        " activationType="@,
        "protocol"@,
        " launch="@,
        uri,
        " useButtonStyle="@,
        "true"@,
        ">\n    "@,
        q,
    );
    let first = joined(toast_parts(uri), q);
    assert(TOAST_HEAD@ =~= lt + "toast duration="@ + q + "short"@ + q + " activationType="@ + q
        + "protocol"@ + q + " launch="@ + q);
    let rest = q + " useButtonStyle="@ + q + "true"@ + q + ">\n    "@;
    let inner = lt + "visual>"@ + lt + "binding template=\"ToastGeneric\">"@ + lt + "text>"@;
    assert(TOAST_VISUAL@ =~= rest + inner);
    assert(TOAST_HEAD@ + uri + rest =~= lt + first);
    assert(TOAST_HEAD@ + uri + TOAST_VISUAL@ =~= lt + first + inner);
    assert("</text>"@ =~= lt + "/text>"@);
    let t = head_tags(uri, title);
    let t4 = t.drop_last();
    let t3 = t4.drop_last();
    let t2 = t3.drop_last();
    let t1 = t2.drop_last();
    assert(t1.drop_last() =~= Seq::<Seq<char>>::empty());
    assert(doc_of(t1.drop_last()) =~= Seq::<char>::empty());
    assert(doc_of(t1) =~= lt + first);
    assert(doc_of(t2) =~= lt + first + (lt + "visual>"@));
    assert(doc_of(t3) =~= lt + first + (lt + "visual>"@ + lt
        + "binding template=\"ToastGeneric\">"@));
    assert(doc_of(t4) =~= lt + first + inner + escaped(title));
    assert(doc_of(t) =~= lt + first + inner + escaped(title) + (lt + "/text>"@));
}

proof fn lemma_body(body: Seq<char>)
    ensures
        body_element(body) == doc_of(body_tags(body)),
{
    if body.len() > 0 {
        let lt = seq!['<'];
        let shown = escaped(shortened(body, BODY_LIMIT as nat));
        reveal_strlit("<text>");
        reveal_strlit("text>");
        reveal_strlit("</text>");
        reveal_strlit("/text>");
        assert("<text>"@ =~= lt + "text>"@);
        assert("</text>"@ =~= lt + "/text>"@);
        let t = body_tags(body);
        let t1 = t.drop_last();
        assert(t1.drop_last() =~= Seq::<Seq<char>>::empty());
        assert(doc_of(t1.drop_last()) =~= Seq::<char>::empty());
        assert(doc_of(t1) =~= "<text>"@ + shown);
        assert(doc_of(t) =~= body_element(body));
    }
}

proof fn lemma_middle_and_tail()
    ensures
        TOAST_ACTIONS@ == doc_of(middle_tags()),
        TOAST_TAIL@ == doc_of(tail_tags()),
{
    reveal_strlit("</binding></visual>\n    <audio silent=\"true\"/>\n    <actions>");
    reveal_strlit("</actions>\n</toast>");
    reveal_strlit("/binding>");
    reveal_strlit("/visual>\n    ");
    reveal_strlit("audio silent=\"true\"/>\n    ");
    reveal_strlit("actions>");
    reveal_strlit("/actions>\n");
    reveal_strlit("/toast>");
    let m = middle_tags();
    let m3 = m.drop_last();
    let m2 = m3.drop_last();
    let m1 = m2.drop_last();
    assert(m1.drop_last() =~= Seq::<Seq<char>>::empty());
    assert(doc_of(m1.drop_last()) =~= Seq::<char>::empty());
    assert(doc_of(m1) =~= seq!['<'] + "/binding>"@);
    assert(doc_of(m2) =~= doc_of(m1) + seq!['<'] + "/visual>\n    "@);
    assert(doc_of(m3) =~= doc_of(m2) + seq!['<'] + "audio silent=\"true\"/>\n    "@);
    assert(doc_of(m) =~= TOAST_ACTIONS@);
    let t = tail_tags();
    let t1 = t.drop_last();
    assert(t1.drop_last() =~= Seq::<Seq<char>>::empty());
    assert(doc_of(t1.drop_last()) =~= Seq::<char>::empty());
    assert(doc_of(t1) =~= seq!['<'] + "/actions>\n"@);
    assert(doc_of(t) =~= TOAST_TAIL@);
}

#[verifier::rlimit(40)]
proof fn lemma_actions(
    title: Seq<char>,
    uri: Seq<char>,
    user_id: Option<Seq<char>>,
    context: Option<Seq<char>>,
    kind: ActionKind,
)
    ensures
        toast_actions(title, uri, user_id, context, kind) == doc_of(
            action_tags(title, uri, user_id, context, kind),
        ),
{
    let q = quote();
    let t = action_tags(title, uri, user_id, context, kind);
    let none = Seq::<Seq<char>>::empty();
    assert(doc_of(none) =~= Seq::<char>::empty());
    reveal_strlit(" ");
    match kind {
        ActionKind::Default => {
            lemma_open_button(uri);
            assert(t.drop_last() =~= none);
            assert(doc_of(t) =~= open_button(uri));
        },
        ActionKind::Approval => {
            reveal_strlit("hint-buttonStyle=\"Success\"");
            reveal_strlit("hint-buttonStyle=\"Critical\"");
            reveal_strlit(" hint-buttonStyle=");
            reveal_strlit("Success");
            reveal_strlit("Critical");
            assert(" "@ + APPROVE_STYLE@ =~= " hint-buttonStyle="@ + q + "Success"@ + q);
            assert(" "@ + REJECT_STYLE@ =~= " hint-buttonStyle="@ + q + "Critical"@ + q);
            let a = args_text("approve"@, title, user_id, context);
            let r = args_text("reject"@, title, user_id, context);
            lemma_background_button(
                "Approve"@,
                a,
                APPROVE_STYLE@,
                " hint-buttonStyle="@,
                "Success"@,
            );
            lemma_background_button(
                "Reject"@,
                r,
                REJECT_STYLE@,
                " hint-buttonStyle="@,
                "Critical"@,
            );
            let t1 = t.drop_last();
            assert(t1.drop_last() =~= none);
            assert(doc_of(t1) =~= background_button("Approve"@, a, APPROVE_STYLE@));
            assert(doc_of(t) =~= background_button("Approve"@, a, APPROVE_STYLE@)
                + background_button("Reject"@, r, REJECT_STYLE@));
        },
        ActionKind::Message => {
            reveal_strlit("hint-inputId=\"reply\"");
            reveal_strlit(" hint-inputId=");
            reveal_strlit("reply");
            assert(" "@ + REPLY_STYLE@ =~= " hint-inputId="@ + q + "reply"@ + q);
            let a = args_text("reply"@, title, user_id, context);
            lemma_field();
            lemma_background_button("Send"@, a, REPLY_STYLE@, " hint-inputId="@, "reply"@);
            lemma_open_button(uri);
            let t2 = t.drop_last();
            let t1 = t2.drop_last();
            assert(t1.drop_last() =~= none);
            assert(doc_of(t1) =~= REPLY_FIELD@);
            assert(doc_of(t2) =~= REPLY_FIELD@ + background_button("Send"@, a, REPLY_STYLE@));
            assert(doc_of(t) =~= REPLY_FIELD@ + background_button("Send"@, a, REPLY_STYLE@)
                + open_button(uri));
        },
    }
}

// ---------------------------------------------------------------------------------------
// Reading a document.

proof fn lemma_joined_without(parts: Seq<Seq<char>>, sep: Seq<char>, c: char)
    requires
        !sep.contains(c),
        forall|i: int| 0 <= i < parts.len() ==> !(#[trigger] parts[i]).contains(c),
    ensures
        !joined(parts, sep).contains(c),
    decreases parts.len(),
{
    let out = joined(parts, sep);
    if parts.len() > 0 {
        let last = parts.last();
        assert(last == parts[parts.len() - 1]);
        if parts.len() > 1 {
            let front = parts.drop_last();
            assert forall|i: int| 0 <= i < front.len() implies !(#[trigger] front[i]).contains(
                c,
            ) by {
                assert(front[i] == parts[i]);
            }
            lemma_joined_without(front, sep, c);
            let before = joined(front, sep);
            assert forall|i: int| 0 <= i < out.len() implies out[i] != c by {
                if i < before.len() {
                    assert(out[i] == before[i]);
                } else if i < before.len() + sep.len() {
                    assert(out[i] == sep[i - before.len()]);
                } else {
                    assert(out[i] == last[i - before.len() - sep.len()]);
                }
            }
        }
    }
}

spec fn plain(s: Seq<char>) -> bool {
    !s.contains('<') && !s.contains('"')
}

proof fn lemma_plain_words()
    ensures
        plain("action content="@) && plain(" activationType="@) && plain("background"@) && plain(
            "protocol"@,
        ) && plain(" arguments="@) && plain("/>"@),
        plain("Approve"@) && plain("Reject"@) && plain("Send"@) && plain("Open"@),
        plain(" hint-buttonStyle="@) && plain("Success"@) && plain("Critical"@) && plain(
            " hint-inputId="@,
        ) && plain("reply"@),
{
    reveal_strlit("action content=");
    reveal_strlit(" activationType=");
    reveal_strlit("background");
    reveal_strlit("protocol");
    reveal_strlit(" arguments=");
    reveal_strlit("/>");
    reveal_strlit("Approve");
    reveal_strlit("Reject");
    reveal_strlit("Send");
    reveal_strlit("Open");
    reveal_strlit(" hint-buttonStyle=");
    reveal_strlit("Success");
    reveal_strlit("Critical");
    reveal_strlit(" hint-inputId=");
    reveal_strlit("reply");
}

proof fn lemma_plain_rest()
    ensures
        plain("input id="@) && plain("reply"@) && plain(" type="@) && plain("text"@) && plain(
            " placeHolderContent="@,
        ) && plain("Reply to Mingo"@) && plain("/>"@),
        plain("toast duration="@) && plain("short"@) && plain(" activationType="@) && plain(
            "protocol"@,
        ) && plain(" launch="@) && plain(" useButtonStyle="@) && plain("true"@) && plain(
            ">\n    "@,
        ),
{
    reveal_strlit("input id=");
    reveal_strlit("reply");
    reveal_strlit(" type=");
    reveal_strlit("text");
    reveal_strlit(" placeHolderContent=");
    reveal_strlit("Reply to Mingo");
    reveal_strlit("/>");
    reveal_strlit("toast duration=");
    reveal_strlit("short");
    reveal_strlit(" activationType=");
    reveal_strlit("protocol");
    reveal_strlit(" launch=");
    reveal_strlit(" useButtonStyle=");
    reveal_strlit("true");
    reveal_strlit(">\n    ");
}

/// A tag of plain parts: no other tag starts in it, and its parts are found again.
proof fn lemma_tag_of_plain_parts(parts: Seq<Seq<char>>)
    requires
        parts.len() > 0,
        forall|i: int| 0 <= i < parts.len() ==> plain(#[trigger] parts[i]),
    ensures
        !joined(parts, quote()).contains('<'),
        forall|name: Seq<char>|
            #[trigger] attribute(joined(parts, quote()), name) == attribute_in(parts, name),
{
    assert forall|i: int| 0 <= i < parts.len() implies !(#[trigger] parts[i]).contains('<')
        && !parts[i].contains('"') by {
        assert(plain(parts[i]));
    }
    assert(quote()[0] == '"');
    assert(!quote().contains('<'));
    lemma_joined_without(parts, quote(), '<');
    lemma_quoted_parts(parts);
}

/// What the tag of a button holds, by name.
#[verifier::rlimit(40)]
proof fn lemma_button_attributes(parts: Seq<Seq<char>>)
    requires
        parts.len() >= 7,
        parts[0] == "action content="@,
        parts[2] == " activationType="@,
        parts[4] == " arguments="@,
    ensures
        parts.len() >= 8 && parts[6] == " hint-buttonStyle="@ ==> attribute_in(
            parts,
            "hint-buttonStyle"@,
        ) == Some(parts[7]),
        attribute_in(parts, "content"@) == Some(parts[1]),
        attribute_in(parts, "activationType"@) == Some(parts[3]),
        attribute_in(parts, "arguments"@) == Some(parts[5]),
        parts.len() >= 8 && parts[6] == " hint-inputId="@ ==> attribute_in(
            parts,
            "hint-inputId"@,
        ) == Some(parts[7]),
{
    reveal_strlit("action content=");
    reveal_strlit(" activationType=");
    reveal_strlit(" arguments=");
    reveal_strlit(" hint-inputId=");
    reveal_strlit("content");
    reveal_strlit("activationType");
    reveal_strlit("arguments");
    reveal_strlit("hint-inputId");
    let a = "action content="@;
    let b = " activationType="@;
    let c = " arguments="@;
    let d = " hint-inputId="@;
    assert(a.skip(a.len() - 9) =~= seq![' '] + "content"@ + seq!['=']);
    assert(b.skip(0) =~= seq![' '] + "activationType"@ + seq!['=']);
    assert(c.skip(0) =~= seq![' '] + "arguments"@ + seq!['=']);
    assert(d.skip(0) =~= seq![' '] + "hint-inputId"@ + seq!['=']);
    assert(names_attribute(a, "content"@));
    let e = seq![' '] + "arguments"@ + seq!['='];
    assert(e[0] == ' ' && e.len() == 11);
    assert(a.skip(a.len() - 11)[0] == 'o');
    assert(b.skip(b.len() - 11)[0] == 'a' || b.skip(b.len() - 11)[0] != ' ');
    assert(!names_attribute(a, "arguments"@));
    assert(!names_attribute(b, "arguments"@));
    assert(!names_attribute(a, "activationType"@));
    let f = seq![' '] + "hint-inputId"@ + seq!['='];
    assert(f[0] == ' ' && f.len() == 14);
    assert(a.skip(a.len() - 14)[0] == 'c');
    assert(b.skip(b.len() - 14)[0] == 'c');
    assert(!names_attribute(a, "hint-inputId"@));
    assert(!names_attribute(b, "hint-inputId"@));
    assert(!names_attribute(c, "hint-inputId"@));
    reveal_strlit(" hint-buttonStyle=");
    reveal_strlit("hint-buttonStyle");
    let g = " hint-buttonStyle="@;
    assert(g.skip(0) =~= seq![' '] + "hint-buttonStyle"@ + seq!['=']);
    assert(!names_attribute(a, "hint-buttonStyle"@));
    assert(!names_attribute(b, "hint-buttonStyle"@));
    assert(!names_attribute(c, "hint-buttonStyle"@));
    let p2 = parts.skip(2);
    let p4 = p2.skip(2);
    let p6 = p4.skip(2);
    if parts.len() >= 8 && parts[6] == g {
        assert(p6[0] == g && p6[1] == parts[7]);
        assert(names_attribute(g, "hint-buttonStyle"@));
        assert(attribute_in(p6, "hint-buttonStyle"@) == Some(parts[7]));
        assert(attribute_in(p4, "hint-buttonStyle"@) == Some(parts[7]));
        assert(attribute_in(p2, "hint-buttonStyle"@) == Some(parts[7]));
    }
    assert(p2[0] == b && p2[1] == parts[3]);
    assert(p4[0] == c && p4[1] == parts[5]);
    assert(attribute_in(p4, "arguments"@) == Some(parts[5]));
    assert(attribute_in(p2, "arguments"@) == Some(parts[5]));
    assert(names_attribute(b, "activationType"@));
    assert(attribute_in(p2, "activationType"@) == Some(parts[3]));
    if parts.len() >= 8 && parts[6] == d {
        assert(p6[0] == d && p6[1] == parts[7]);
        assert(names_attribute(d, "hint-inputId"@));
        assert(attribute_in(p6, "hint-inputId"@) == Some(parts[7]));
        assert(attribute_in(p4, "hint-inputId"@) == Some(parts[7]));
        assert(attribute_in(p2, "hint-inputId"@) == Some(parts[7]));
    }
}

/// The tag of a background button, read back.
proof fn lemma_background_tag(
    content: Seq<char>,
    args: Seq<char>,
    hint: Seq<char>,
    value: Seq<char>,
)
    requires
        plain(content),
        plain(hint),
        plain(value),
    ensures
        ({
            let tag = joined(background_parts(content, args, hint, value), quote());
            &&& !tag.contains('<')
            &&& "action "@.is_prefix_of(tag)
            &&& attribute(tag, "content"@) == Some(content)
            &&& attribute(tag, "activationType"@) == Some("background"@)
            &&& attribute(tag, "arguments"@) == Some(escaped(args))
            &&& hint == " hint-inputId="@ ==> attribute(tag, "hint-inputId"@) == Some(value)
            &&& hint == " hint-buttonStyle="@ ==> attribute(tag, "hint-buttonStyle"@) == Some(
                value,
            )
        }),
{
    let parts = background_parts(content, args, hint, value);
    lemma_plain_words();
    lemma_escaped_is_separate(args);
    assert(plain(escaped(args)));
    assert forall|i: int| 0 <= i < parts.len() implies plain(#[trigger] parts[i]) by {}
    lemma_tag_of_plain_parts(parts);
    lemma_button_attributes(parts);
    lemma_joined_starts(parts, quote());
    lemma_action_prefix(joined(parts, quote()));
}

proof fn lemma_joined_starts(parts: Seq<Seq<char>>, sep: Seq<char>)
    requires
        parts.len() > 0,
    ensures
        parts[0].is_prefix_of(joined(parts, sep)),
    decreases parts.len(),
{
    let out = joined(parts, sep);
    if parts.len() > 1 {
        let front = parts.drop_last();
        lemma_joined_starts(front, sep);
        assert(front[0] == parts[0]);
        let before = joined(front, sep);
        assert(parts[0] =~= before.subrange(0, parts[0].len() as int));
        assert(parts[0] =~= out.subrange(0, parts[0].len() as int));
    } else {
        assert(parts[0] =~= out.subrange(0, parts[0].len() as int));
    }
}

proof fn lemma_action_prefix(tag: Seq<char>)
    requires
        "action content="@.is_prefix_of(tag),
    ensures
        "action "@.is_prefix_of(tag),
{
    reveal_strlit("action ");
    reveal_strlit("action content=");
    assert forall|i: int| 0 <= i < 7 implies "action "@[i] == tag[i] by {
        assert(tag.subrange(0, 15)[i] == tag[i]);
    }
    assert("action "@ =~= tag.subrange(0, 7));
}

/// The tag of the button that opens, read back.
proof fn lemma_open_tag(uri: Seq<char>)
    requires
        plain(uri),
    ensures
        ({
            let tag = joined(open_parts(uri), quote());
            &&& !tag.contains('<')
            &&& "action "@.is_prefix_of(tag)
            &&& attribute(tag, "content"@) == Some("Open"@)
            &&& attribute(tag, "activationType"@) == Some("protocol"@)
            &&& attribute(tag, "arguments"@) == Some(uri)
        }),
{
    let parts = open_parts(uri);
    lemma_plain_words();
    assert forall|i: int| 0 <= i < parts.len() implies plain(#[trigger] parts[i]) by {}
    lemma_tag_of_plain_parts(parts);
    lemma_button_attributes(parts);
    lemma_joined_starts(parts, quote());
    lemma_action_prefix(joined(parts, quote()));
}

/// The tag of the field that takes a reply, read back.
proof fn lemma_field_tag()
    ensures
        ({
            let tag = joined(field_parts(), quote());
            &&& !tag.contains('<')
            &&& "input "@.is_prefix_of(tag)
            &&& attribute(tag, "id"@) == Some("reply"@)
            &&& attribute(tag, "type"@) == Some("text"@)
            &&& attribute(tag, "placeHolderContent"@) == Some("Reply to Mingo"@)
        }),
{
    let parts = field_parts();
    lemma_plain_rest();
    assert forall|i: int| 0 <= i < parts.len() implies plain(#[trigger] parts[i]) by {}
    lemma_tag_of_plain_parts(parts);
    lemma_joined_starts(parts, quote());
    let tag = joined(parts, quote());
    reveal_strlit("input ");
    reveal_strlit("input id=");
    reveal_strlit(" type=");
    reveal_strlit("id");
    reveal_strlit("type");
    assert forall|i: int| 0 <= i < 6 implies "input "@[i] == tag[i] by {
        assert(tag.subrange(0, 9)[i] == tag[i]);
    }
    assert("input "@ =~= tag.subrange(0, 6));
    let a = "input id="@;
    assert(a.skip(5) =~= seq![' '] + "id"@ + seq!['=']);
    assert(names_attribute(a, "id"@));
    assert(a.skip(3)[0] == 'u');
    assert((seq![' '] + "type"@ + seq!['='])[0] == ' ');
    assert(!names_attribute(a, "type"@));
    let b = " type="@;
    assert(b.skip(0) =~= seq![' '] + "type"@ + seq!['=']);
    assert(names_attribute(b, "type"@));
    reveal_strlit(" placeHolderContent=");
    reveal_strlit("placeHolderContent");
    let c = " placeHolderContent="@;
    assert(c.skip(0) =~= seq![' '] + "placeHolderContent"@ + seq!['=']);
    assert(names_attribute(c, "placeHolderContent"@));
    assert(!names_attribute(a, "placeHolderContent"@));
    assert(!names_attribute(b, "placeHolderContent"@));
    let p4 = parts.skip(2).skip(2);
    assert(p4[0] == c && p4[1] == "Reply to Mingo"@);
    assert(attribute_in(p4, "placeHolderContent"@) == Some("Reply to Mingo"@));
    assert(parts.skip(2)[0] == b && parts.skip(2)[1] == "text"@);
    assert(attribute_in(parts.skip(2), "placeHolderContent"@) == Some("Reply to Mingo"@));
    assert(attribute_in(parts.skip(2), "type"@) == Some("text"@));
}

proof fn lemma_toast_start(uri: Seq<char>)
    ensures
        "toast duration=\"short\""@.is_prefix_of(joined(toast_parts(uri), quote())),
{
    let q = quote();
    let tag = joined(toast_parts(uri), q);
    lemma_joined_nine(
        "toast duration="@,
        "short"@,
        " activationType="@,
        "protocol"@,
        " launch="@,
        uri,
        " useButtonStyle="@,
        "true"@,
        ">\n    "@,
        q,
    );
    reveal_strlit("toast duration=\"short\"");
    reveal_strlit("toast duration=");
    reveal_strlit("short");
    let start = "toast duration="@ + q + "short"@ + q;
    assert("toast duration=\"short\""@ =~= start);
    let rest = " activationType="@ + q + "protocol"@ + q + " launch="@ + q + uri + q
        + " useButtonStyle="@ + q + "true"@ + q + ">\n    "@;
    assert(tag =~= start + rest);
    assert(tag.subrange(0, start.len() as int) =~= start);
}

/// The tag of the toast itself, read back.
#[verifier::rlimit(40)]
proof fn lemma_toast_tag(uri: Seq<char>)
    requires
        plain(uri),
    ensures
        ({
            let tag = joined(toast_parts(uri), quote());
            &&& !tag.contains('<')
            &&& tag.len() > 0 && tag[0] == 't' && tag[1] == 'o'
            &&& attribute(tag, "activationType"@) == Some("protocol"@)
            &&& attribute(tag, "launch"@) == Some(uri)
            &&& attribute(tag, "useButtonStyle"@) == Some("true"@)
            &&& "toast duration=\"short\""@.is_prefix_of(tag)
        }),
{
    let parts = toast_parts(uri);
    lemma_plain_rest();
    assert forall|i: int| 0 <= i < parts.len() implies plain(#[trigger] parts[i]) by {}
    lemma_tag_of_plain_parts(parts);
    lemma_joined_starts(parts, quote());
    let tag = joined(parts, quote());
    reveal_strlit("toast duration=");
    reveal_strlit(" activationType=");
    reveal_strlit(" launch=");
    reveal_strlit("activationType");
    reveal_strlit("launch");
    assert(tag.subrange(0, 15)[0] == tag[0] && tag.subrange(0, 15)[1] == tag[1]);
    let a = "toast duration="@;
    let b = " activationType="@;
    let c = " launch="@;
    let e = seq![' '] + "launch"@ + seq!['='];
    assert(e[0] == ' ' && e.len() == 8);
    assert(a.skip(7)[0] == 'u');
    assert(b.skip(8)[0] == 'i' || b.skip(8)[0] != ' ');
    assert(!names_attribute(a, "launch"@));
    assert(!names_attribute(b, "launch"@));
    assert(c.skip(0) =~= e);
    assert(names_attribute(c, "launch"@));
    assert(!names_attribute(a, "activationType"@));
    assert(b.skip(0) =~= seq![' '] + "activationType"@ + seq!['=']);
    assert(names_attribute(b, "activationType"@));
    let p2 = parts.skip(2);
    let p4 = p2.skip(2);
    assert(p2[0] == b && p2[1] == "protocol"@);
    assert(p4[0] == c && p4[1] == uri);
    reveal_strlit(" useButtonStyle=");
    reveal_strlit("useButtonStyle");
    let d = " useButtonStyle="@;
    let f = seq![' '] + "useButtonStyle"@ + seq!['='];
    assert(f[0] == ' ' && f[1] == 'u' && f.len() == 16);
    assert(d.skip(0) =~= f);
    assert(b.skip(0)[1] == 'a');
    assert(!names_attribute(a, "useButtonStyle"@));
    assert(!names_attribute(b, "useButtonStyle"@));
    assert(!names_attribute(c, "useButtonStyle"@));
    assert(names_attribute(d, "useButtonStyle"@));
    let p6 = p4.skip(2);
    assert(p6[0] == d && p6[1] == "true"@);
    assert(attribute_in(p6, "useButtonStyle"@) == Some("true"@));
    assert(attribute_in(p4, "useButtonStyle"@) == Some("true"@));
    assert(attribute_in(p2, "useButtonStyle"@) == Some("true"@));
    lemma_toast_start(uri);
    assert(attribute_in(p4, "launch"@) == Some(uri));
    assert(attribute_in(p2, "launch"@) == Some(uri));
    assert(attribute_in(p2, "activationType"@) == Some("protocol"@));
}

spec fn kept(group: Seq<Seq<char>>, start: Seq<char>) -> Seq<Seq<char>> {
    group.filter(|tag: Seq<char>| start.is_prefix_of(tag))
}

proof fn lemma_none_kept(group: Seq<Seq<char>>, start: Seq<char>)
    requires
        forall|i: int| 0 <= i < group.len() ==> !start.is_prefix_of(#[trigger] group[i]),
    ensures
        kept(group, start) == Seq::<Seq<char>>::empty(),
{
    lemma_filter_none(group, |tag: Seq<char>| start.is_prefix_of(tag));
}

proof fn lemma_kept_push(group: Seq<Seq<char>>, tag: Seq<char>, start: Seq<char>)
    ensures
        kept(group.push(tag), start) == if start.is_prefix_of(tag) {
            kept(group, start).push(tag)
        } else {
            kept(group, start)
        },
{
    reveal(Seq::filter);
    assert(group.push(tag).drop_last() =~= group);
}

proof fn lemma_kept_both(a: Seq<Seq<char>>, b: Seq<Seq<char>>, start: Seq<char>)
    ensures
        kept(a + b, start) == kept(a, start) + kept(b, start),
{
    Seq::filter_distributes_over_add(a, b, |tag: Seq<char>| start.is_prefix_of(tag));
}

proof fn lemma_not_prefix(start: Seq<char>, tag: Seq<char>, at: int)
    requires
        0 <= at < start.len(),
        at < tag.len() ==> start[at] != tag[at],
    ensures
        !start.is_prefix_of(tag),
{
    if start.is_prefix_of(tag) {
        assert(tag.subrange(0, start.len() as int)[at] == tag[at]);
    }
}

spec fn starts() -> Seq<Seq<char>> {
    seq!["action "@, "input "@, "text>"@]
}

/// A tag whose first character none of the kinds of tag that are looked for starts with.
proof fn lemma_other_tag(tag: Seq<char>)
    requires
        tag.len() > 0 ==> tag[0] != 'a' && tag[0] != 'i' && (tag[0] == 't' ==> tag.len() > 1
            && tag[1] != 'e'),
    ensures
        !"action "@.is_prefix_of(tag),
        !"input "@.is_prefix_of(tag),
        !"text>"@.is_prefix_of(tag),
{
    reveal_strlit("action ");
    reveal_strlit("input ");
    reveal_strlit("text>");
    lemma_not_prefix("action "@, tag, 0);
    lemma_not_prefix("input "@, tag, 0);
    if tag.len() > 0 && tag[0] == 't' {
        lemma_not_prefix("text>"@, tag, 1);
    } else {
        lemma_not_prefix("text>"@, tag, 0);
    }
}

proof fn lemma_text_tag(value: Seq<char>)
    requires
        plain(value),
    ensures
        ({
            let tag = "text>"@ + value;
            &&& !tag.contains('<')
            &&& !"action "@.is_prefix_of(tag)
            &&& !"input "@.is_prefix_of(tag)
            &&& "text>"@.is_prefix_of(tag)
            &&& tag.skip(5) == value
        }),
{
    let tag = "text>"@ + value;
    reveal_strlit("action ");
    reveal_strlit("input ");
    reveal_strlit("text>");
    lemma_not_prefix("action "@, tag, 0);
    lemma_not_prefix("input "@, tag, 0);
    assert("text>"@ =~= tag.subrange(0, 5));
    assert(tag.skip(5) =~= value);
    assert forall|i: int| 0 <= i < tag.len() implies tag[i] != '<' by {
        if i >= 5 {
            assert(tag[i] == value[i - 5]);
            assert(value.contains(tag[i]));
        }
    }
}

proof fn lemma_head_tags(uri: Seq<char>, title: Seq<char>)
    requires
        plain(uri),
    ensures
        separate(head_tags(uri, title)),
        kept(head_tags(uri, title), "action "@) == Seq::<Seq<char>>::empty(),
        kept(head_tags(uri, title), "input "@) == Seq::<Seq<char>>::empty(),
        kept(head_tags(uri, title), "text>"@) == seq!["text>"@ + escaped(title)],
{
    let none = Seq::<Seq<char>>::empty();
    let a = joined(toast_parts(uri), quote());
    let t = "text>"@ + escaped(title);
    lemma_toast_tag(uri);
    lemma_escaped_is_separate(title);
    lemma_text_tag(escaped(title));
    reveal_strlit("visual>");
    reveal_strlit("binding template=\"ToastGeneric\">");
    reveal_strlit("/text>");
    lemma_other_tag(a);
    lemma_other_tag("visual>"@);
    lemma_other_tag("binding template=\"ToastGeneric\">"@);
    lemma_other_tag("/text>"@);
    let g0 = seq![a, "visual>"@, "binding template=\"ToastGeneric\">"@];
    let g1 = g0.push(t);
    assert(head_tags(uri, title) =~= g1.push("/text>"@));
    lemma_none_kept(g0, "action "@);
    lemma_none_kept(g0, "input "@);
    lemma_none_kept(g0, "text>"@);
    lemma_kept_push(g0, t, "action "@);
    lemma_kept_push(g0, t, "input "@);
    lemma_kept_push(g0, t, "text>"@);
    lemma_kept_push(g1, "/text>"@, "action "@);
    lemma_kept_push(g1, "/text>"@, "input "@);
    lemma_kept_push(g1, "/text>"@, "text>"@);
    assert(none.push(t) =~= seq![t]);
}

proof fn lemma_body_tags(body: Seq<char>)
    ensures
        separate(body_tags(body)),
        kept(body_tags(body), "action "@) == Seq::<Seq<char>>::empty(),
        kept(body_tags(body), "input "@) == Seq::<Seq<char>>::empty(),
        kept(body_tags(body), "text>"@) == if body.len() == 0 {
            Seq::empty()
        } else {
            seq!["text>"@ + escaped(shortened(body, BODY_LIMIT as nat))]
        },
{
    let none = Seq::<Seq<char>>::empty();
    lemma_none_kept(none, "action "@);
    lemma_none_kept(none, "input "@);
    lemma_none_kept(none, "text>"@);
    if body.len() > 0 {
        let shown = shortened(body, BODY_LIMIT as nat);
        let t = "text>"@ + escaped(shown);
        lemma_escaped_is_separate(shown);
        lemma_text_tag(escaped(shown));
        reveal_strlit("/text>");
        lemma_other_tag("/text>"@);
        let g1 = none.push(t);
        assert(body_tags(body) =~= g1.push("/text>"@));
        lemma_kept_push(none, t, "action "@);
        lemma_kept_push(none, t, "input "@);
        lemma_kept_push(none, t, "text>"@);
        lemma_kept_push(g1, "/text>"@, "action "@);
        lemma_kept_push(g1, "/text>"@, "input "@);
        lemma_kept_push(g1, "/text>"@, "text>"@);
        assert(none.push(t) =~= seq![t]);
    }
}

proof fn lemma_middle_and_tail_tags()
    ensures
        separate(middle_tags()),
        separate(tail_tags()),
        forall|i: int|
            0 <= i < 3 ==> kept(middle_tags(), #[trigger] starts()[i]) == Seq::<
                Seq<char>,
            >::empty(),
        forall|i: int|
            0 <= i < 3 ==> kept(tail_tags(), #[trigger] starts()[i]) == Seq::<Seq<char>>::empty(),
{
    reveal_strlit("/binding>");
    reveal_strlit("/visual>\n    ");
    reveal_strlit("audio silent=\"true\"/>\n    ");
    reveal_strlit("actions>");
    reveal_strlit("/actions>\n");
    reveal_strlit("/toast>");
    reveal_strlit("action ");
    reveal_strlit("input ");
    reveal_strlit("text>");
    lemma_other_tag("/binding>"@);
    lemma_other_tag("/visual>\n    "@);
    lemma_other_tag("/actions>\n"@);
    lemma_other_tag("/toast>"@);
    lemma_not_prefix("action "@, "audio silent=\"true\"/>\n    "@, 1);
    lemma_not_prefix("input "@, "audio silent=\"true\"/>\n    "@, 0);
    lemma_not_prefix("text>"@, "audio silent=\"true\"/>\n    "@, 0);
    lemma_not_prefix("action "@, "actions>"@, 6);
    lemma_not_prefix("input "@, "actions>"@, 0);
    lemma_not_prefix("text>"@, "actions>"@, 0);
    assert forall|i: int| 0 <= i < 3 implies kept(middle_tags(), #[trigger] starts()[i]) == Seq::<
        Seq<char>,
    >::empty() && kept(tail_tags(), starts()[i]) == Seq::<Seq<char>>::empty() by {
        assert(starts()[i] == "action "@ || starts()[i] == "input "@ || starts()[i] == "text>"@);
        lemma_none_kept(middle_tags(), starts()[i]);
        lemma_none_kept(tail_tags(), starts()[i]);
    }
}

/// The tags of the buttons, and of the field that takes a reply.
#[verifier::rlimit(40)]
proof fn lemma_action_tags(
    title: Seq<char>,
    uri: Seq<char>,
    user_id: Option<Seq<char>>,
    context: Option<Seq<char>>,
    kind: ActionKind,
)
    requires
        plain(uri),
    ensures
        ({
            let t = action_tags(title, uri, user_id, context, kind);
            &&& separate(t)
            &&& kept(t, "action "@) == if kind is Message {
                t.skip(1)
            } else {
                t
            }
            &&& kept(t, "input "@) == if kind is Message {
                t.take(1)
            } else {
                Seq::empty()
            }
            &&& kept(t, "text>"@) == Seq::<Seq<char>>::empty()
        }),
{
    let none = Seq::<Seq<char>>::empty();
    let t = action_tags(title, uri, user_id, context, kind);
    lemma_none_kept(none, "action "@);
    lemma_none_kept(none, "input "@);
    lemma_none_kept(none, "text>"@);
    reveal_strlit("action ");
    reveal_strlit("input ");
    reveal_strlit("text>");
    lemma_plain_words();
    assert forall|tag: Seq<char>| #[trigger] "action "@.is_prefix_of(tag) implies !"input "@.is_prefix_of(
        tag,
    ) && !"text>"@.is_prefix_of(tag) by {
        assert(tag.subrange(0, 7)[0] == tag[0]);
        lemma_not_prefix("input "@, tag, 0);
        lemma_not_prefix("text>"@, tag, 0);
    }
    match kind {
        ActionKind::Default => {
            lemma_open_tag(uri);
            assert(t =~= none.push(t[0]));
            lemma_kept_push(none, t[0], "action "@);
            lemma_kept_push(none, t[0], "input "@);
            lemma_kept_push(none, t[0], "text>"@);
        },
        ActionKind::Approval => {
            lemma_background_tag(
                "Approve"@,
                args_text("approve"@, title, user_id, context),
                " hint-buttonStyle="@,
                "Success"@,
            );
            lemma_background_tag(
                "Reject"@,
                args_text("reject"@, title, user_id, context),
                " hint-buttonStyle="@,
                "Critical"@,
            );
            let g = none.push(t[0]);
            assert(t =~= g.push(t[1]));
            lemma_kept_push(none, t[0], "action "@);
            lemma_kept_push(none, t[0], "input "@);
            lemma_kept_push(none, t[0], "text>"@);
            lemma_kept_push(g, t[1], "action "@);
            lemma_kept_push(g, t[1], "input "@);
            lemma_kept_push(g, t[1], "text>"@);
        },
        ActionKind::Message => {
            lemma_field_tag();
            lemma_background_tag(
                "Send"@,
                args_text("reply"@, title, user_id, context),
                " hint-inputId="@,
                "reply"@,
            );
            lemma_open_tag(uri);
            let g = none.push(t[0]);
            let h = g.push(t[1]);
            assert(t =~= h.push(t[2]));
            assert(t[0].subrange(0, 6)[0] == t[0][0]);
            lemma_not_prefix("action "@, t[0], 0);
            lemma_not_prefix("text>"@, t[0], 0);
            lemma_kept_push(none, t[0], "action "@);
            lemma_kept_push(none, t[0], "input "@);
            lemma_kept_push(none, t[0], "text>"@);
            lemma_kept_push(g, t[1], "action "@);
            lemma_kept_push(g, t[1], "input "@);
            lemma_kept_push(g, t[1], "text>"@);
            lemma_kept_push(h, t[2], "action "@);
            lemma_kept_push(h, t[2], "input "@);
            lemma_kept_push(h, t[2], "text>"@);
            assert(none.push(t[1]).push(t[2]) =~= t.skip(1));
            assert(none.push(t[0]) =~= t.take(1));
        },
    }
}

/// All the tags of a toast's document, in order.
spec fn all_tags(
    title: Seq<char>,
    body: Seq<char>,
    context: Option<Seq<char>>,
    user_id: Option<Seq<char>>,
    kind: ActionKind,
) -> Seq<Seq<char>> {
    let uri = escaped(uri_around(context));
    let shown = shortened(title, TITLE_LIMIT as nat);
    head_tags(uri, shown) + body_tags(body) + middle_tags() + action_tags(
        shown,
        uri,
        user_id,
        context,
        kind,
    ) + tail_tags()
}

proof fn lemma_separate_both(a: Seq<Seq<char>>, b: Seq<Seq<char>>)
    requires
        separate(a),
        separate(b),
    ensures
        separate(a + b),
{
    assert forall|i: int| 0 <= i < (a + b).len() implies !(#[trigger] (a + b)[i]).contains('<') by {
        if i < a.len() {
            assert((a + b)[i] == a[i]);
        } else {
            assert((a + b)[i] == b[i - a.len()]);
        }
    }
}

/// The tags of a toast's document are those it was made of.
#[verifier::rlimit(40)]
proof fn lemma_all_tags(
    title: Seq<char>,
    body: Seq<char>,
    context: Option<Seq<char>>,
    user_id: Option<Seq<char>>,
    kind: ActionKind,
)
    ensures
        plain(escaped(uri_around(context))),
        tags(toast_text(title, body, context, user_id, kind)) == all_tags(
            title,
            body,
            context,
            user_id,
            kind,
        ),
{
    let uri = escaped(uri_around(context));
    let shown = shortened(title, TITLE_LIMIT as nat);
    let a = head_tags(uri, shown);
    let b = body_tags(body);
    let c = middle_tags();
    let d = action_tags(shown, uri, user_id, context, kind);
    let e = tail_tags();
    lemma_escaped_is_separate(uri_around(context));
    lemma_head(uri, shown);
    lemma_body(body);
    lemma_middle_and_tail();
    lemma_actions(shown, uri, user_id, context, kind);
    lemma_doc_of_both(a, b);
    lemma_doc_of_both(a + b, c);
    lemma_doc_of_both(a + b + c, d);
    lemma_doc_of_both(a + b + c + d, e);
    assert(toast_text(title, body, context, user_id, kind) == doc_of(a + b + c + d + e));
    lemma_head_tags(uri, shown);
    lemma_body_tags(body);
    lemma_middle_and_tail_tags();
    lemma_action_tags(shown, uri, user_id, context, kind);
    lemma_separate_both(a, b);
    lemma_separate_both(a + b, c);
    lemma_separate_both(a + b + c, d);
    lemma_separate_both(a + b + c + d, e);
    lemma_tags_of_doc(a + b + c + d + e);
}

/// What is found among five groups of tags, the third and the last of which hold none of it.
proof fn lemma_kept_groups(
    a: Seq<Seq<char>>,
    b: Seq<Seq<char>>,
    c: Seq<Seq<char>>,
    d: Seq<Seq<char>>,
    e: Seq<Seq<char>>,
    start: Seq<char>,
)
    requires
        kept(c, start) == Seq::<Seq<char>>::empty(),
        kept(e, start) == Seq::<Seq<char>>::empty(),
    ensures
        kept(a + b + c + d + e, start) == kept(a, start) + kept(b, start) + kept(d, start),
{
    lemma_kept_both(a, b, start);
    lemma_kept_both(a + b, c, start);
    lemma_kept_both(a + b + c, d, start);
    lemma_kept_both(a + b + c + d, e, start);
    assert(kept(a + b + c + d + e, start) =~= kept(a, start) + kept(b, start) + kept(d, start));
}

/// What a reader finds in a document of five groups of tags.
#[verifier::rlimit(40)]
proof fn lemma_found(
    doc: Seq<char>,
    a: Seq<Seq<char>>,
    b: Seq<Seq<char>>,
    c: Seq<Seq<char>>,
    d: Seq<Seq<char>>,
    e: Seq<Seq<char>>,
)
    requires
        tags(doc) == a + b + c + d + e,
        a.len() == 5,
        c.len() == 4,
        kept(a, "action "@) == Seq::<Seq<char>>::empty(),
        kept(a, "input "@) == Seq::<Seq<char>>::empty(),
        kept(b, "action "@) == Seq::<Seq<char>>::empty(),
        kept(b, "input "@) == Seq::<Seq<char>>::empty(),
        kept(c, "action "@) == Seq::<Seq<char>>::empty(),
        kept(c, "input "@) == Seq::<Seq<char>>::empty(),
        kept(c, "text>"@) == Seq::<Seq<char>>::empty(),
        kept(d, "text>"@) == Seq::<Seq<char>>::empty(),
        kept(e, "action "@) == Seq::<Seq<char>>::empty(),
        kept(e, "input "@) == Seq::<Seq<char>>::empty(),
        kept(e, "text>"@) == Seq::<Seq<char>>::empty(),
    ensures
        tags(doc).len() > 0,
        tags(doc)[0] == a[0],
        tags(doc).contains(a[2]),
        tags(doc).contains(c[2]),
        buttons(doc) == kept(d, "action "@),
        fields(doc) == kept(d, "input "@),
        kept(tags(doc), "text>"@) == kept(a, "text>"@) + kept(b, "text>"@),
{
    let all = tags(doc);
    lemma_kept_groups(a, b, c, d, e, "action "@);
    lemma_kept_groups(a, b, c, d, e, "input "@);
    lemma_kept_groups(a, b, c, d, e, "text>"@);
    assert(buttons(doc) == kept(all, "action "@));
    assert(fields(doc) == kept(all, "input "@));
    assert(kept(all, "action "@) =~= kept(d, "action "@));
    assert(kept(all, "input "@) =~= kept(d, "input "@));
    assert(kept(all, "text>"@) =~= kept(a, "text>"@) + kept(b, "text>"@));
    assert(all[0] == a[0]);
    assert(all[2] == a[2]);
    assert(all[a.len() as int + b.len() as int + 2] == c[2]);
}

/// The tags of a toast's document, found by kind.
#[verifier::rlimit(40)]
proof fn lemma_document(
    title: Seq<char>,
    body: Seq<char>,
    context: Option<Seq<char>>,
    user_id: Option<Seq<char>>,
    kind: ActionKind,
)
    ensures
        ({
            let doc = toast_text(title, body, context, user_id, kind);
            let uri = escaped(uri_around(context));
            let shown = shortened(title, TITLE_LIMIT as nat);
            let t = action_tags(shown, uri, user_id, context, kind);
            &&& plain(uri)
            &&& tags(doc).len() > 0
            &&& tags(doc)[0] == joined(toast_parts(uri), quote())
            &&& tags(doc).contains("audio silent=\"true\"/>\n    "@)
            &&& tags(doc).contains("binding template=\"ToastGeneric\">"@)
            &&& buttons(doc) == if kind is Message {
                t.skip(1)
            } else {
                t
            }
            &&& fields(doc) == if kind is Message {
                t.take(1)
            } else {
                Seq::empty()
            }
            &&& kept(tags(doc), "text>"@) == seq!["text>"@ + escaped(shown)] + if body.len() == 0 {
                Seq::empty()
            } else {
                seq!["text>"@ + escaped(shortened(body, BODY_LIMIT as nat))]
            }
        }),
{
    let uri = escaped(uri_around(context));
    let shown = shortened(title, TITLE_LIMIT as nat);
    let a = head_tags(uri, shown);
    let b = body_tags(body);
    let c = middle_tags();
    let d = action_tags(shown, uri, user_id, context, kind);
    let e = tail_tags();
    let doc = toast_text(title, body, context, user_id, kind);
    let none = Seq::<Seq<char>>::empty();
    lemma_all_tags(title, body, context, user_id, kind);
    assert(kept(a, "action "@) == none && kept(a, "input "@) == none) by {
        lemma_head_tags(uri, shown);
    }
    assert(kept(a, "text>"@) == seq!["text>"@ + escaped(shown)]) by {
        lemma_head_tags(uri, shown);
    }
    assert(kept(b, "action "@) == none && kept(b, "input "@) == none) by {
        lemma_body_tags(body);
    }
    assert(kept(b, "text>"@) == if body.len() == 0 {
        none
    } else {
        seq!["text>"@ + escaped(shortened(body, BODY_LIMIT as nat))]
    }) by {
        lemma_body_tags(body);
    }
    assert(kept(c, "action "@) == none && kept(c, "input "@) == none && kept(c, "text>"@) == none
        && kept(e, "action "@) == none && kept(e, "input "@) == none && kept(e, "text>"@) == none)
        by {
        lemma_middle_and_tail_tags();
        assert(starts()[0] == "action "@ && starts()[1] == "input "@ && starts()[2] == "text>"@);
    }
    assert(kept(d, "text>"@) == none) by {
        lemma_action_tags(shown, uri, user_id, context, kind);
    }
    assert(kept(d, "action "@) == if kind is Message {
        d.skip(1)
    } else {
        d
    }) by {
        lemma_action_tags(shown, uri, user_id, context, kind);
    }
    assert(kept(d, "input "@) == if kind is Message {
        d.take(1)
    } else {
        none
    }) by {
        lemma_action_tags(shown, uri, user_id, context, kind);
    }
    lemma_found(doc, a, b, c, d, e);
}

// ---------------------------------------------------------------------------------------
// What the document says.

/// What a button is labelled.
pub open spec fn label(button: Seq<char>) -> Option<Seq<char>> {
    attribute(button, "content"@)
}

/// Whether a press of a button stays in the background, so that its arguments are acted on.
pub open spec fn acts(button: Seq<char>) -> bool {
    attribute(button, "activationType"@) == Some("background"@)
}

/// Whether a press of a button opens its arguments as a URI.
pub open spec fn opens(button: Seq<char>) -> bool {
    attribute(button, "activationType"@) == Some("protocol"@)
}

/// Whether a document's buttons are an Approve that approves and a Reject that rejects, in that
/// order, whatever stands in its fields.
pub open spec fn decides_as_labelled(
    doc: Seq<char>,
    inputs: Seq<(Seq<char>, Seq<char>)>,
) -> bool {
    let all = buttons(doc);
    let approve = activated(arguments(all[0]), inputs);
    let reject = activated(arguments(all[1]), inputs);
    &&& all.len() == 2
    &&& label(all[0]) == Some("Approve"@)
    &&& approve is Run && approve->action == ActionView::Approve
    &&& label(all[1]) == Some("Reject"@)
    &&& reject is Run && reject->action == ActionView::Reject
}

/// Who a toast is for and what it is about, as a press of its buttons gives it back.
pub open spec fn pressed_about(
    context: ContextView,
    title: Seq<char>,
    user_id: Option<Seq<char>>,
    json: Option<Seq<char>>,
) -> bool {
    &&& title.len() <= 50 ==> context.title == title
    &&& title.len() > 50 ==> context.title == title.take(49).push('\u{2026}')
    &&& context.user_id == (match user_id {
        Some(user_id) if user_id.len() > 0 => Some(user_id),
        _ => None,
    })
    &&& context.payload == (match json {
        Some(json) => payload_with(json_of_text(json)),
        None => None,
    })
}

proof fn lemma_args_read(
    action: Seq<char>,
    title: Seq<char>,
    user_id: Option<Seq<char>>,
    context: Option<Seq<char>>,
)
    requires
        action == APPROVE_ACTION@ || action == REJECT_ACTION@ || action == REPLY_ACTION@,
    ensures
        unescaped(escaped(args_text(action, title, user_id, context))) == args_text(
            action,
            title,
            user_id,
            context,
        ),
{
    reveal_strlit("approve");
    reveal_strlit("reject");
    reveal_strlit("reply");
    assert("approve"@.len() == 7 && "reject"@.len() == 6 && "reply"@.len() == 5);
    assert(word(action));
    arguments_are_printable(action, title, user_id, context);
    lemma_printable_is_read_as_it_was(args_text(action, title, user_id, context));
}

/// The buttons of an approval toast do what they are labelled: there are two, the one that reads
/// Approve approves and the one that reads Reject rejects, each on the request that the toast is
/// about, for the user it was shown to.
#[verifier::rlimit(40)]
pub proof fn approval_labels_are_true(
    title: Seq<char>,
    body: Seq<char>,
    context: Option<Seq<char>>,
    user_id: Option<Seq<char>>,
    inputs: Seq<(Seq<char>, Seq<char>)>,
)
    ensures
        ({
            let all = buttons(toast_text(title, body, context, user_id, ActionKind::Approval));
            &&& all.len() == 2
            &&& label(all[0]) == Some("Approve"@)
            &&& label(all[1]) == Some("Reject"@)
            &&& attribute(all[0], "hint-buttonStyle"@) == Some("Success"@)
            &&& attribute(all[1], "hint-buttonStyle"@) == Some("Critical"@)
            &&& forall|i: int|
                0 <= i < all.len() ==> acts(#[trigger] all[i]) && ({
                    let press = activated(arguments(all[i]), inputs);
                    &&& press is Run
                    &&& pressed_about(press->context, title, user_id, context)
                    &&& label(all[i]) == Some("Approve"@) <==> press->action
                        == ActionView::Approve
                    &&& label(all[i]) == Some("Reject"@) <==> press->action == ActionView::Reject
                })
        }),
{
    let kind = ActionKind::Approval;
    let shown = shortened(title, TITLE_LIMIT as nat);
    lemma_document(title, body, context, user_id, kind);
    lemma_plain_words();
    let a = args_text("approve"@, shown, user_id, context);
    let r = args_text("reject"@, shown, user_id, context);
    lemma_background_tag("Approve"@, a, " hint-buttonStyle="@, "Success"@);
    lemma_background_tag("Reject"@, r, " hint-buttonStyle="@, "Critical"@);
    lemma_args_read("approve"@, shown, user_id, context);
    lemma_args_read("reject"@, shown, user_id, context);
    decision_buttons_decide(shown, user_id, context, inputs);
    reveal_strlit("Approve");
    reveal_strlit("Reject");
    assert("Approve"@.len() == 7 && "Reject"@.len() == 6);
    let all = buttons(toast_text(title, body, context, user_id, kind));
    assert(all[0] == joined(
        background_parts("Approve"@, a, " hint-buttonStyle="@, "Success"@),
        quote(),
    ));
    assert(all[1] == joined(
        background_parts("Reject"@, r, " hint-buttonStyle="@, "Critical"@),
        quote(),
    ));
    assert(arguments(all[0]) == a);
    assert(arguments(all[1]) == r);
}

/// A message toast takes a reply: it has one field, the button that reads Send is tied to that
/// field, and a press of it sends what the field holds, for the user the toast was shown to. The
/// button that reads Open opens what the toast is about.
#[verifier::rlimit(40)]
pub proof fn message_labels_are_true(
    title: Seq<char>,
    body: Seq<char>,
    context: Option<Seq<char>>,
    user_id: Option<Seq<char>>,
    text: Seq<char>,
)
    ensures
        ({
            let doc = toast_text(title, body, context, user_id, ActionKind::Message);
            let all = buttons(doc);
            let field = attribute(fields(doc)[0], "id"@)->0;
            let press = activated(arguments(all[0]), seq![(field, text)]);
            &&& fields(doc).len() == 1
            &&& attribute(fields(doc)[0], "id"@) is Some
            &&& attribute(fields(doc)[0], "type"@) == Some("text"@)
            &&& attribute(fields(doc)[0], "placeHolderContent"@) == Some("Reply to Mingo"@)
            &&& all.len() == 2
            &&& label(all[0]) == Some("Send"@)
            &&& acts(all[0])
            &&& attribute(all[0], "hint-inputId"@) == Some(field)
            &&& trimmed(text).len() == 0 ==> press == ActivationView::Nothing
            &&& trimmed(text).len() > 0 ==> press is Run && press->action == ActionView::Reply(
                trimmed(text),
            ) && pressed_about(press->context, title, user_id, context)
            &&& label(all[1]) == Some("Open"@)
            &&& opens(all[1])
            &&& arguments(all[1]) == uri_around(context)
        }),
{
    let kind = ActionKind::Message;
    let shown = shortened(title, TITLE_LIMIT as nat);
    let uri = escaped(uri_around(context));
    lemma_document(title, body, context, user_id, kind);
    lemma_plain_words();
    let a = args_text("reply"@, shown, user_id, context);
    lemma_field_tag();
    lemma_background_tag("Send"@, a, " hint-inputId="@, "reply"@);
    lemma_open_tag(uri);
    lemma_args_read("reply"@, shown, user_id, context);
    lemma_uri_read(context);
    reply_button_sends_what_was_typed(shown, user_id, context, text);
    let doc = toast_text(title, body, context, user_id, kind);
    let all = buttons(doc);
    let t = action_tags(shown, uri, user_id, context, kind);
    assert(all[0] == t[1]);
    assert(all[1] == t[2]);
    assert(fields(doc)[0] == t[0]);
    assert(arguments(all[0]) == a);
}

proof fn lemma_uri_read(context: Option<Seq<char>>)
    ensures
        unescaped(escaped(uri_around(context))) == uri_around(context),
{
    let uri = uri_around(context);
    reveal_strlit("openframe-desktop://notify");
    reveal_strlit("?context=");
    if let Some(json) = context {
        encoded_text_is_printable(json);
        let head = CLICK_URI_PREFIX@ + "?context="@;
        assert forall|i: int| 0 <= i < uri.len() implies ' ' < #[trigger] uri[i] by {
            if i >= head.len() {
                assert(uri[i] == encoded_strict(json)[i - head.len()]);
            } else {
                assert(uri[i] == head[i]);
            }
        }
    }
    lemma_printable_is_read_as_it_was(uri);
}

/// A toast without decisions has one button, and it opens what the toast is about.
pub proof fn plain_toast_opens_its_subject(
    title: Seq<char>,
    body: Seq<char>,
    context: Option<Seq<char>>,
    user_id: Option<Seq<char>>,
)
    ensures
        ({
            let doc = toast_text(title, body, context, user_id, ActionKind::Default);
            &&& fields(doc).len() == 0
            &&& buttons(doc).len() == 1
            &&& label(buttons(doc)[0]) == Some("Open"@)
            &&& opens(buttons(doc)[0])
            &&& arguments(buttons(doc)[0]) == uri_around(context)
        }),
{
    lemma_document(title, body, context, user_id, ActionKind::Default);
    lemma_open_tag(escaped(uri_around(context)));
    lemma_uri_read(context);
}

/// Whatever its buttons, a toast shows its title and then its body, each cut to its limit, and a
/// click on it opens what it is about. An empty body takes no line. It makes no sound, and stays
/// no longer than the system's short time.
#[verifier::rlimit(40)]
pub proof fn toast_shows_its_title_and_body(
    title: Seq<char>,
    body: Seq<char>,
    context: Option<Seq<char>>,
    user_id: Option<Seq<char>>,
    kind: ActionKind,
)
    ensures
        ({
            let doc = toast_text(title, body, context, user_id, kind);
            let texts = shown_texts(doc);
            let toast = tags(doc)[0];
            &&& texts.len() == if body.len() == 0 {
                1int
            } else {
                2int
            }
            &&& title.len() <= 50 ==> texts[0] == legible(title)
            &&& title.len() > 50 ==> texts[0] == legible(title.take(49)).push('\u{2026}')
            &&& 0 < body.len() <= 300 ==> texts[1] == legible(body)
            &&& body.len() > 300 ==> texts[1] == legible(body.take(299)).push('\u{2026}')
            &&& tags(doc).len() > 0
            &&& attribute(toast, "activationType"@) == Some("protocol"@)
            &&& unescaped(attribute(toast, "launch"@)->0) == uri_around(context)
            &&& attribute(toast, "useButtonStyle"@) == Some("true"@)
            &&& "toast duration=\"short\""@.is_prefix_of(toast)
            &&& tags(doc).contains("audio silent=\"true\"/>\n    "@)
            &&& tags(doc).contains("binding template=\"ToastGeneric\">"@)
        }),
{
    let doc = toast_text(title, body, context, user_id, kind);
    let shown = shortened(title, TITLE_LIMIT as nat);
    let second = shortened(body, BODY_LIMIT as nat);
    lemma_document(title, body, context, user_id, kind);
    lemma_toast_tag(escaped(uri_around(context)));
    lemma_uri_read(context);
    lemma_escaped_is_separate(shown);
    lemma_text_tag(escaped(shown));
    value_is_read_as_it_was(shown);
    lemma_escaped_is_separate(second);
    lemma_text_tag(escaped(second));
    value_is_read_as_it_was(second);
    let found = kept(tags(doc), "text>"@);
    let texts = shown_texts(doc);
    assert(texts =~= found.map_values(|tag: Seq<char>| unescaped(tag.skip(5))));
    assert(found[0] == "text>"@ + escaped(shown));
    if title.len() > 50 {
        assert(legible(shown) =~= legible(title.take(49)).push('\u{2026}'));
    }
    if body.len() > 0 {
        assert(found[1] == "text>"@ + escaped(second));
        if body.len() > 300 {
            assert(legible(second) =~= legible(body.take(299)).push('\u{2026}'));
        }
    }
}

} // verus!
