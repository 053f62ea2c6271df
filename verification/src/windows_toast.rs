//! Windows toasts: the document a toast is shown from, and the arguments its buttons carry
//! back.
//!
//! The body and "Open" activate a URI. Approve, Reject and the inline Reply activate a COM
//! server instead, which can run in the process that is already running and is handed what
//! the user typed.
use vstd::prelude::*;
use vstd::string::*;
use vstd::utf8::*;

use crate::chat_api::{approval_body, approval_path, RequestView, SessionView};
use crate::config::filled;
use crate::json::{get, json_of_text, json_printed, plain, print, Json, JsonView, DEPTH_LIMIT};
use crate::notification_actions::{
    action_view, approval_id, approval_request_id, first_step, option_json, Action, ActionContext,
    ActionKind, ActionView, ContextView, Post, StepView,
};
use crate::notifications::{
    click_of, click_uri, context_json, context_of, payload_from_context_json, payload_with,
    truncate_for_notification, uri_around, Delivery,
};
use crate::percent::{
    decode, decoded, encode, encoded, encoded_text_decodes_to_itself, encoded_text_is_plain,
    encoded_text_is_printable, lemma_bytes_of_encoded, lemma_bytes_of_text, lemma_encode_utf8_both,
    structural, word_is_its_own_encoding,
};
use crate::text::{
    ascii_alphanumeric, chars_of, cut, is_ascii_alphanumeric, joined, lemma_first_at_is,
    lemma_pieces_of_joined, lemma_spread_both, lemma_spread_push, lemma_spread_same,
    lemma_spread_stays_in, option_str, option_text, parted, parting_takes_out_one_separator, pieces, same_text, shortened,
    shortened_text_keeps_its_limit, split_on, split_once, spread, texts, trim, trimmed, truncate,
};
use crate::toast_document::{approval_labels_are_true, decides_as_labelled};

verus! {

/// The inline reply field's id, by which Windows keys the typed text.
pub const REPLY_INPUT_ID: &'static str = "reply";

pub const APPROVE_ACTION: &'static str = "approve";

pub const REJECT_ACTION: &'static str = "reject";

pub const REPLY_ACTION: &'static str = "reply";

/// Character budgets for the title and the body. A toast over the platform's cap is not
/// rejected loudly, it simply never appears; and the title is repeated in every button.
pub const TITLE_LIMIT: usize = 50;

pub const BODY_LIMIT: usize = 300;

/// Groups every toast of the application, so that a tag has to be unique within it only.
pub const TOAST_GROUP: &'static str = "openframe";

/// Windows caps a tag at this many characters.
pub const TAG_LIMIT: usize = 64;

// ---------------------------------------------------------------------------------------
// Tags.

/// A character that Windows accepts in a tag, in place of `c`.
pub open spec fn tag_char(c: char) -> char {
    if ascii_alphanumeric(c) || c == '-' || c == '_' {
        c
    } else {
        '-'
    }
}

/// A tag for a key: its start, folded to what Windows accepts.
pub open spec fn tag_of(key: Seq<char>) -> Seq<char> {
    cut(key, TAG_LIMIT as int).map_values(|c: char| tag_char(c))
}

/// Windows rejects a toast whole for a tag it does not accept, so that an id is folded to fit
/// rather than passed through.
pub fn toast_tag(key: &str) -> (r: String)
    ensures
        r@ == tag_of(key@),
{
    let v = chars_of(truncate(key, TAG_LIMIT).as_str());
    let ghost start = cut(key@, TAG_LIMIT as int);
    let mut r = String::new();
    let mut i: usize = 0;
    assert(start.take(0).map_values(|c: char| tag_char(c)) =~= Seq::<char>::empty());
    while i < v.len()
        invariant
            v@ == start,
            i <= v@.len(),
            r@ == start.take(i as int).map_values(|c: char| tag_char(c)),
        decreases v@.len() - i,
    {
        let c = v[i];
        if is_ascii_alphanumeric(c) || c == '-' || c == '_' {
            r.push(c);
        } else {
            r.push('-');
        }
        i += 1;
        assert(start.take(i as int).map_values(|c: char| tag_char(c)) =~= start.take(
            i - 1,
        ).map_values(|c: char| tag_char(c)).push(tag_char(start[i - 1])));
    }
    assert(start.take(i as int) =~= start);
    r
}

/// A tag is always something Windows accepts: short enough, and of letters, digits, hyphens
/// and underscores only.
pub proof fn tag_is_acceptable(key: Seq<char>)
    ensures
        tag_of(key).len() <= TAG_LIMIT,
        forall|i: int|
            0 <= i < tag_of(key).len() ==> {
                let c = #[trigger] tag_of(key)[i];
                ascii_alphanumeric(c) || c == '-' || c == '_'
            },
{
}

/// An id that Windows accepts as it is, is its own tag, so that two such ids never share one. Of
/// a longer one the first sixty-four characters count, and a character that is not accepted
/// becomes a hyphen in its place.
pub proof fn accepted_id_is_its_own_tag(key: Seq<char>)
    ensures
        tag_of(key).len() == if key.len() < 64 {
            key.len()
        } else {
            64
        },
        forall|i: int|
            0 <= i < tag_of(key).len() ==> #[trigger] tag_of(key)[i] == (if ascii_alphanumeric(
                key[i],
            ) || key[i] == '-' || key[i] == '_' {
                key[i]
            } else {
                '-'
            }),
        key.len() <= 64 && (forall|i: int|
            0 <= i < key.len() ==> ascii_alphanumeric(#[trigger] key[i]) || key[i] == '-' || key[i]
                == '_') ==> tag_of(key) == key,
{
    if key.len() <= 64 && (forall|i: int|
        0 <= i < key.len() ==> ascii_alphanumeric(#[trigger] key[i]) || key[i] == '-' || key[i]
            == '_') {
        assert(tag_of(key) =~= key);
    }
}

// ---------------------------------------------------------------------------------------
// Escaping.

/// A character inside an attribute or between tags. The control characters that XML cannot
/// represent become spaces, so that a document is never rejected for one.
pub open spec fn markup(c: char) -> Seq<char> {
    if c == '&' {
        "&amp;"@
    } else if c == '<' {
        "&lt;"@
    } else if c == '>' {
        "&gt;"@
    } else if c == '"' {
        "&quot;"@
    } else if c == '\'' {
        "&apos;"@
    } else if c < '\x20' && c != '\t' && c != '\n' && c != '\r' {
        seq![' ']
    } else {
        seq![c]
    }
}

pub open spec fn escaped(value: Seq<char>) -> Seq<char> {
    spread(value, |c: char| markup(c))
}

pub fn escape_xml(value: &str) -> (r: String)
    ensures
        r@ == escaped(value@),
{
    let v = chars_of(value);
    let ghost f = |c: char| markup(c);
    let mut out = String::new();
    let mut i: usize = 0;
    assert(value@.take(0) =~= Seq::<char>::empty());
    while i < v.len()
        invariant
            v@ == value@,
            i <= v@.len(),
            f == |c: char| markup(c),
            out@ == spread(value@.take(i as int), f),
        decreases v@.len() - i,
    {
        let c = v[i];
        let ghost before = out@;
        if c == '&' {
            out.append("&amp;");
        } else if c == '<' {
            out.append("&lt;");
        } else if c == '>' {
            out.append("&gt;");
        } else if c == '"' {
            out.append("&quot;");
        } else if c == '\'' {
            out.append("&apos;");
        } else if c < '\x20' && c != '\t' && c != '\n' && c != '\r' {
            out.push(' ');
        } else {
            out.push(c);
        }
        proof {
            assert(out@ =~= before + f(c));
            lemma_spread_push(value@.take(i as int), c, f);
            assert(value@.take(i as int).push(c) =~= value@.take(i + 1));
        }
        i += 1;
    }
    assert(value@.take(i as int) =~= value@);
    out
}

/// A character that would end the attribute or the text it stands in, or have the document
/// rejected.
pub open spec fn breaks_markup(c: char) -> bool {
    c == '<' || c == '>' || c == '"' || c == '\'' || (c < '\x20' && c != '\t' && c != '\n' && c
        != '\r')
}

/// No value can break the document it is put into.
pub proof fn escaped_value_keeps_the_document(value: Seq<char>)
    ensures
        forall|i: int| 0 <= i < escaped(value).len() ==> !breaks_markup(#[trigger] escaped(value)[i]),
{
    reveal_strlit("&amp;");
    reveal_strlit("&lt;");
    reveal_strlit("&gt;");
    reveal_strlit("&quot;");
    reveal_strlit("&apos;");
    lemma_spread_stays_in(value, |c: char| markup(c), |c: char| !breaks_markup(c));
}

// ---------------------------------------------------------------------------------------
// Button arguments.

/// What a pressed button carries back: which button it was, and what its action runs under.
#[derive(Debug, PartialEq)]
pub struct ToastAction {
    pub action: String,
    pub context: ActionContext,
}

pub struct ToastView {
    pub action: Seq<char>,
    pub context: ContextView,
}

impl View for ToastAction {
    type V = ToastView;

    open spec fn view(&self) -> ToastView {
        ToastView { action: self.action@, context: self.context@ }
    }
}

/// The parameters of a button: its action, the title, and the user and the context where
/// there are any.
pub open spec fn arg_parts(
    action: Seq<char>,
    title: Seq<char>,
    user_id: Option<Seq<char>>,
    context: Option<Seq<char>>,
) -> Seq<Seq<char>> {
    let first = seq!["action="@ + action, "title="@ + encoded(title)];
    let second = match user_id {
        Some(user_id) => first.push("user="@ + encoded(user_id)),
        None => first,
    };
    match context {
        Some(json) => second.push("context="@ + encoded(json)),
        None => second,
    }
}

/// A button's arguments, with the context already written out.
pub open spec fn args_text(
    action: Seq<char>,
    title: Seq<char>,
    user_id: Option<Seq<char>>,
    context: Option<Seq<char>>,
) -> Seq<char> {
    joined(arg_parts(action, title, user_id, context), "&"@)
}

/// The arguments of a button, with the context already written out.
pub fn encode_args_with(
    action: &str,
    title: &str,
    user_id: Option<&str>,
    context: Option<&str>,
) -> (r: String)
    ensures
        r@ == args_text(action@, title@, option_str(user_id), option_str(context)),
{
    let mut args = "action=".to_string();
    args.append(action);
    args.append("&title=");
    args.append(encode(title).as_str());
    let ghost first = seq!["action="@ + action@, "title="@ + encoded(title@)];
    proof {
        reveal_strlit("&title=");
        reveal_strlit("title=");
        reveal_strlit("&user=");
        reveal_strlit("user=");
        reveal_strlit("&context=");
        reveal_strlit("context=");
        reveal_strlit("&");
        assert("&title="@ =~= "&"@ + "title="@);
        assert("&user="@ =~= "&"@ + "user="@);
        assert("&context="@ =~= "&"@ + "context="@);
        assert(first.drop_last() =~= seq!["action="@ + action@]);
        assert(joined(first.drop_last(), "&"@) == "action="@ + action@);
        assert(args@ =~= joined(first, "&"@));
    }
    let ghost mut parts = first;
    if let Some(user_id) = user_id {
        args.append("&user=");
        args.append(encode(user_id).as_str());
        proof {
            let next = parts.push("user="@ + encoded(user_id@));
            assert(next.drop_last() =~= parts);
            assert(args@ =~= joined(next, "&"@));
            parts = next;
        }
    }
    if let Some(json) = context {
        args.append("&context=");
        args.append(encode(json).as_str());
        proof {
            let next = parts.push("context="@ + encoded(json@));
            assert(next.drop_last() =~= parts);
            assert(args@ =~= joined(next, "&"@));
            parts = next;
        }
    }
    args
}

/// Nothing read yet.
pub open spec fn nothing_read() -> ToastView {
    ToastView {
        action: Seq::empty(),
        context: ContextView { title: Seq::empty(), payload: None, user_id: None },
    }
}

/// What is known once one more parameter has been read. One that has no `=`, whose value is
/// not text or whose name means nothing here is passed over.
pub open spec fn with_part(read: ToastView, part: Seq<char>) -> ToastView {
    match parted(part, '=') {
        Some(pair) => match decoded(pair.1) {
            Some(value) => if pair.0 == "action"@ {
                ToastView { action: value, ..read }
            } else if pair.0 == "title"@ {
                ToastView { context: ContextView { title: value, ..read.context }, ..read }
            } else if pair.0 == "user"@ {
                ToastView {
                    context: ContextView { user_id: filled(Some(value)), ..read.context },
                    ..read
                }
            } else if pair.0 == "context"@ {
                ToastView {
                    context: ContextView {
                        payload: payload_with(json_of_text(value)),
                        ..read.context
                    },
                    ..read
                }
            } else {
                read
            },
            None => read,
        },
        None => read,
    }
}

/// What is known once some parameters have been read in order.
pub open spec fn read_parts(parts: Seq<Seq<char>>) -> ToastView
    decreases parts.len(),
{
    if parts.len() == 0 {
        nothing_read()
    } else {
        with_part(read_parts(parts.drop_last()), parts.last())
    }
}

/// What a button's arguments carry: nothing where they name no action.
pub open spec fn args_read(args: Seq<char>) -> Option<ToastView> {
    let read = read_parts(pieces(args, '&'));
    if read.action.len() == 0 {
        None
    } else {
        Some(read)
    }
}

/// Read one parameter of a button's arguments.
fn read_part(read: &mut ToastAction, part: &str)
    ensures
        final(read)@ == with_part(old(read)@, part@),
{
    if let Some((key, raw)) = split_once(part, '=') {
        if let Some(value) = decode(raw.as_str()) {
            proof {
                reveal_strlit("action");
                reveal_strlit("title");
                reveal_strlit("user");
                reveal_strlit("context");
            }
            if same_text(key.as_str(), "action") {
                read.action = value;
            } else if same_text(key.as_str(), "title") {
                read.context.title = value;
            } else if same_text(key.as_str(), "user") {
                read.context.user_id = if value.as_str().is_empty() {
                    None
                } else {
                    Some(value)
                };
            } else if same_text(key.as_str(), "context") {
                read.context.payload = payload_from_context_json(value.as_str());
            }
        }
    }
}

/// What a button's arguments carry. None where they name no action. A parameter that cannot
/// be read is passed over: losing the title costs a worse report, losing the action costs
/// the press.
pub fn parse_action_args(args: &str) -> (r: Option<ToastAction>)
    ensures
        match r {
            Some(action) => args_read(args@) == Some(action@),
            None => args_read(args@) is None,
        },
{
    let parts = split_on(args, '&');
    let ghost all = pieces(args@, '&');
    let mut read = ToastAction {
        action: String::new(),
        context: ActionContext { title: String::new(), payload: None, user_id: None },
    };
    let mut i: usize = 0;
    assert(read@.context =~= nothing_read().context);
    assert(read_parts(all.take(0)) == nothing_read());
    while i < parts.len()
        invariant
            texts(parts@) == all,
            i <= parts@.len(),
            read@ == read_parts(all.take(i as int)),
        decreases parts@.len() - i,
    {
        assert(all[i as int] == parts@[i as int]@);
        read_part(&mut read, parts[i].as_str());
        assert(all.take(i + 1).drop_last() =~= all.take(i as int));
        assert(all.take(i + 1).last() == all[i as int]);
        i += 1;
    }
    assert(all.take(i as int) =~= all);
    if read.action.as_str().is_empty() {
        None
    } else {
        Some(read)
    }
}

/// A word of letters and digits.
pub open spec fn word(s: Seq<char>) -> bool {
    s.len() > 0 && forall|i: int| 0 <= i < s.len() ==> ascii_alphanumeric(#[trigger] s[i])
}

/// A parameter splits at its own `=`, and its value reads as it was.
proof fn lemma_part(name: Seq<char>, head: Seq<char>, text: Seq<char>, value: Seq<char>)
    requires
        head == name.push('='),
        !name.contains('='),
        decoded(text) == Some(value),
    ensures
        parted(head + text, '=') == Some((name, text)),
{
    let part = head + text;
    assert forall|j: int| 0 <= j < name.len() implies part[j] != '=' by {
        assert(part[j] == name[j]);
        assert(name.contains(name[j]));
    }
    lemma_first_at_is(part, '=', name.len() as int);
    assert(part.take(name.len() as int) =~= name);
    assert(part.skip((name.len() + 1) as int) =~= text);
}

/// A plain value behind a name without an ampersand leaves the parameter without one.
proof fn lemma_part_is_one_piece(head: Seq<char>, text: Seq<char>)
    requires
        !head.contains('&'),
        !text.contains('&'),
    ensures
        !(head + text).contains('&'),
{
    let part = head + text;
    if part.contains('&') {
        let k = choose|k: int| 0 <= k < part.len() && part[k] == '&';
        if k < head.len() {
            assert(head[k] == '&');
        } else {
            assert(text[k - head.len()] == '&');
        }
    }
}

proof fn lemma_encoded_part(head: Seq<char>, value: Seq<char>)
    requires
        !head.contains('&'),
    ensures
        !(head + encoded(value)).contains('&'),
{
    encoded_text_is_plain(value);
    if encoded(value).contains('&') {
        let k = choose|k: int| 0 <= k < encoded(value).len() && encoded(value)[k] == '&';
        assert(!structural(encoded(value)[k]));
    }
    lemma_part_is_one_piece(head, encoded(value));
}

/// The names of the parameters are four different ones, and each is its prefix less the `=`.
proof fn lemma_names()
    ensures
        "action="@ == "action"@.push('='),
        "title="@ == "title"@.push('='),
        "user="@ == "user"@.push('='),
        "context="@ == "context"@.push('='),
        !"action"@.contains('='),
        !"title"@.contains('='),
        !"user"@.contains('='),
        !"context"@.contains('='),
        !"action="@.contains('&'),
        !"title="@.contains('&'),
        !"user="@.contains('&'),
        !"context="@.contains('&'),
        "action"@.len() == 6,
        "title"@.len() == 5,
        "user"@.len() == 4,
        "context"@.len() == 7,
        "&"@ == seq!['&'],
{
    reveal_strlit("action=");
    reveal_strlit("title=");
    reveal_strlit("user=");
    reveal_strlit("context=");
    reveal_strlit("action");
    reveal_strlit("title");
    reveal_strlit("user");
    reveal_strlit("context");
    reveal_strlit("&");
    assert("&"@ =~= seq!['&']);
    assert("action="@ =~= "action"@.push('='));
    assert("title="@ =~= "title"@.push('='));
    assert("user="@ =~= "user"@.push('='));
    assert("context="@ =~= "context"@.push('='));
}

/// The arguments of a button split into the parameters they were made of.
proof fn lemma_args_pieces(
    action: Seq<char>,
    title: Seq<char>,
    user_id: Option<Seq<char>>,
    context: Option<Seq<char>>,
)
    requires
        word(action),
    ensures
        pieces(args_text(action, title, user_id, context), '&') == arg_parts(
            action,
            title,
            user_id,
            context,
        ),
{
    lemma_names();
    assert(!action.contains('&')) by {
        if action.contains('&') {
            let k = choose|k: int| 0 <= k < action.len() && action[k] == '&';
            assert(ascii_alphanumeric(action[k]));
        }
    }
    lemma_part_is_one_piece("action="@, action);
    lemma_encoded_part("title="@, title);
    if let Some(user_id) = user_id {
        lemma_encoded_part("user="@, user_id);
    }
    if let Some(json) = context {
        lemma_encoded_part("context="@, json);
    }
    lemma_pieces_of_joined(arg_parts(action, title, user_id, context), '&');
}

/// What the action and the title of a button are read as.
proof fn lemma_first_parts_read(action: Seq<char>, title: Seq<char>)
    requires
        word(action),
    ensures
        read_parts(seq!["action="@ + action, "title="@ + encoded(title)]) == (ToastView {
            action,
            context: ContextView { title, payload: None, user_id: None },
        }),
{
    lemma_names();
    word_is_its_own_encoding(action);
    lemma_part("action"@, "action="@, action, action);
    encoded_text_decodes_to_itself(title);
    lemma_part("title"@, "title="@, encoded(title), title);
    let first = seq!["action="@ + action, "title="@ + encoded(title)];
    let zero = first.drop_last();
    assert(zero.drop_last() =~= Seq::<Seq<char>>::empty());
    assert(read_parts(zero.drop_last()) == nothing_read());
    assert(read_parts(zero) == with_part(nothing_read(), "action="@ + action));
    assert(read_parts(first) == with_part(read_parts(zero), "title="@ + encoded(title)));
}

/// What a button carries reads back as what was put into it, whatever separators the title,
/// the user or the context hold: the action, the title, the user where one was named, and
/// the context where its text is that of an object.
pub proof fn button_arguments_read_back(
    action: Seq<char>,
    title: Seq<char>,
    user_id: Option<Seq<char>>,
    context: Option<Seq<char>>,
)
    requires
        word(action),
    ensures
        args_read(args_text(action, title, user_id, context)) == Some(
            ToastView {
                action,
                context: ContextView {
                    title,
                    payload: match context {
                        Some(json) => payload_with(json_of_text(json)),
                        None => None,
                    },
                    user_id: filled(user_id),
                },
            },
        ),
{
    lemma_args_pieces(action, title, user_id, context);
    lemma_first_parts_read(action, title);
    lemma_names();
    let parts = arg_parts(action, title, user_id, context);
    let first = seq!["action="@ + action, "title="@ + encoded(title)];
    let second = match user_id {
        Some(user_id) => first.push("user="@ + encoded(user_id)),
        None => first,
    };
    if let Some(user_id) = user_id {
        encoded_text_decodes_to_itself(user_id);
        lemma_part("user"@, "user="@, encoded(user_id), user_id);
        assert(second.drop_last() =~= first);
        assert(read_parts(second) == with_part(read_parts(first), "user="@ + encoded(user_id)));
    }
    if let Some(json) = context {
        encoded_text_decodes_to_itself(json);
        lemma_part("context"@, "context="@, encoded(json), json);
        assert(parts.drop_last() =~= second);
        assert(read_parts(parts) == with_part(read_parts(second), "context="@ + encoded(json)));
    } else {
        assert(parts == second);
    }
}

/// How one more parameter is read. A title, a user, a context and an action are each taken under
/// their own name, in place of what was read before; an empty user is none. A parameter of
/// another name, one without a value and one that does not decode to text are passed over.
pub proof fn parameters_are_read_by_name(parts: Seq<Seq<char>>, name: Seq<char>, text: Seq<char>)
    requires
        !name.contains('='),
    ensures
        ({
            let before = read_parts(parts);
            let after = read_parts(parts.push(name.push('=') + text));
            let known = name == "action"@ || name == "title"@ || name == "user"@ || name
                == "context"@;
            &&& !known || decoded(text) is None ==> after == before
            &&& read_parts(parts.push(name)) == before
            &&& decoded(text) is Some ==> {
                let value = decoded(text)->0;
                &&& after.action == (if name == "action"@ {
                    value
                } else {
                    before.action
                })
                &&& after.context.title == (if name == "title"@ {
                    value
                } else {
                    before.context.title
                })
                &&& after.context.user_id == (if name == "user"@ {
                    if value.len() > 0 {
                        Some(value)
                    } else {
                        None
                    }
                } else {
                    before.context.user_id
                })
                &&& after.context.payload == (if name == "context"@ {
                    payload_with(json_of_text(value))
                } else {
                    before.context.payload
                })
            }
        }),
{
    let part = name.push('=') + text;
    parting_takes_out_one_separator(name, text, '=');
    assert(parts.push(part).drop_last() =~= parts);
    assert(parts.push(name).drop_last() =~= parts);
    assert(parts.push(part).last() == part);
    assert(parts.push(name).last() == name);
    reveal_strlit("action");
    reveal_strlit("title");
    reveal_strlit("user");
    reveal_strlit("context");
    assert("action"@.len() == 6 && "title"@.len() == 5 && "user"@.len() == 4 && "context"@.len()
        == 7);
}

/// Arguments are parameters with an ampersand between them, and are nothing where they name no
/// action.
pub proof fn arguments_without_an_action_are_nothing(args: Seq<char>)
    ensures
        args_read(args) is Some <==> read_parts(pieces(args, '&')).action.len() > 0,
        args_read(args) is Some ==> args_read(args)->0 == read_parts(pieces(args, '&')),
{
}

/// The arguments of a button. What [`parse_action_args`] reads back of them is what was put
/// in; so is the context, where it is an object without decimals in it.
pub fn encode_action_args(
    action: &str,
    title: &str,
    user_id: Option<&str>,
    click: Option<&Json>,
) -> (r: String)
    ensures
        r@ == args_text(
            action@,
            title@,
            option_str(user_id),
            context_json(option_json(click)),
        ),
        word(action@) ==> args_read(r@) is Some && args_read(r@)->0.action == action@ && args_read(
            r@,
        )->0.context.title == title@ && args_read(r@)->0.context.user_id == filled(
            option_str(user_id),
        ),
        word(action@) && context_of(option_json(click)) is None ==> args_read(
            r@,
        )->0.context.payload is None,
        word(action@) ==> match context_of(option_json(click)) {
            Some(context) => plain(context, DEPTH_LIMIT as nat) ==> args_read(r@)->0.context.payload
                == payload_with(Some(context)),
            None => true,
        },
{
    let context = match click {
        Some(click) => get(click, "context"),
        None => None,
    };
    match context {
        Some(context) => {
            let json = print(context);
            proof {
                if word(action@) {
                    button_arguments_read_back(
                        action@,
                        title@,
                        option_str(user_id),
                        Some(json@),
                    );
                }
            }
            encode_args_with(action, title, user_id, Some(json.as_str()))
        },
        None => {
            proof {
                if word(action@) {
                    button_arguments_read_back(action@, title@, option_str(user_id), None);
                }
            }
            encode_args_with(action, title, user_id, None)
        },
    }
}

// ---------------------------------------------------------------------------------------
// A press.

/// What a press means.
#[derive(Debug, PartialEq)]
pub enum Press {
    Run(Action),
    /// Nothing typed in the reply field, which is no failure worth a notification.
    Ignore,
    /// An action this build does not know. The safe answer is the window, not a guess.
    Unknown,
}

/// The texts of the input fields of a toast.
pub open spec fn input_texts(inputs: Seq<(String, String)>) -> Seq<(Seq<char>, Seq<char>)> {
    inputs.map_values(|input: (String, String)| (input.0@, input.1@))
}

/// What was typed into a field: the first one of that id.
pub open spec fn typed(inputs: Seq<(Seq<char>, Seq<char>)>, id: Seq<char>) -> Option<Seq<char>>
    decreases inputs.len(),
{
    if inputs.len() == 0 {
        None
    } else if inputs[0].0 == id {
        Some(inputs[0].1)
    } else {
        typed(inputs.skip(1), id)
    }
}

pub enum PressView {
    Run(ActionView),
    Ignore,
    Unknown,
}

impl View for Press {
    type V = PressView;

    open spec fn view(&self) -> PressView {
        match *self {
            Press::Run(action) => PressView::Run(action_view(action)),
            Press::Ignore => PressView::Ignore,
            Press::Unknown => PressView::Unknown,
        }
    }
}

/// What a press of the button `action` means, with what the user typed.
pub open spec fn press_of(action: Seq<char>, inputs: Seq<(Seq<char>, Seq<char>)>) -> PressView {
    if action == APPROVE_ACTION@ {
        PressView::Run(ActionView::Approve)
    } else if action == REJECT_ACTION@ {
        PressView::Run(ActionView::Reject)
    } else if action == REPLY_ACTION@ {
        match typed(inputs, REPLY_INPUT_ID@) {
            Some(text) => if trimmed(text).len() == 0 {
                PressView::Ignore
            } else {
                PressView::Run(ActionView::Reply(trimmed(text)))
            },
            None => PressView::Ignore,
        }
    } else {
        PressView::Unknown
    }
}

fn find_input(inputs: &Vec<(String, String)>, id: &str) -> (r: Option<String>)
    ensures
        option_text(r) == typed(input_texts(inputs@), id@),
{
    let ghost all = input_texts(inputs@);
    let mut i: usize = 0;
    assert(all.skip(0) =~= all);
    while i < inputs.len()
        invariant
            all == input_texts(inputs@),
            i <= inputs@.len(),
            typed(all.skip(i as int), id@) == typed(all, id@),
        decreases inputs@.len() - i,
    {
        assert(all.skip(i as int)[0] == (inputs@[i as int].0@, inputs@[i as int].1@));
        if same_text(inputs[i].0.as_str(), id) {
            return Some(inputs[i].1.clone());
        }
        assert(all.skip(i as int).skip(1) =~= all.skip(i + 1));
        i += 1;
    }
    None
}

/// What a press means. The system hands over an argument string and the input fields; these
/// are the only things they can add up to.
pub fn press_for(activation: &ToastAction, inputs: &Vec<(String, String)>) -> (r: Press)
    ensures
        r@ == press_of(activation@.action, input_texts(inputs@)),
{
    let action = activation.action.as_str();
    if same_text(action, APPROVE_ACTION) {
        Press::Run(Action::Approve)
    } else if same_text(action, REJECT_ACTION) {
        Press::Run(Action::Reject)
    } else if same_text(action, REPLY_ACTION) {
        match find_input(inputs, REPLY_INPUT_ID) {
            Some(text) => {
                let bare = trim(text.as_str());
                if bare.as_str().is_empty() {
                    Press::Ignore
                } else {
                    Press::Run(Action::Reply(bare))
                }
            },
            None => Press::Ignore,
        }
    } else {
        Press::Unknown
    }
}

/// What an activation comes to.
#[derive(Debug, PartialEq)]
pub enum Activation {
    OpenWindow,
    Nothing,
    Run { context: ActionContext, action: Action },
}

pub enum ActivationView {
    OpenWindow,
    Nothing,
    Run { context: ContextView, action: ActionView },
}

impl View for Activation {
    type V = ActivationView;

    open spec fn view(&self) -> ActivationView {
        match *self {
            Activation::OpenWindow => ActivationView::OpenWindow,
            Activation::Nothing => ActivationView::Nothing,
            Activation::Run { context, action } => ActivationView::Run {
                context: context@,
                action: action_view(action),
            },
        }
    }
}

/// What an activation comes to: a press that names no known action opens the window, so that
/// it does not do nothing at all.
pub open spec fn activated(args: Seq<char>, inputs: Seq<(Seq<char>, Seq<char>)>) -> ActivationView {
    match args_read(args) {
        None => ActivationView::OpenWindow,
        Some(read) => match press_of(read.action, inputs) {
            PressView::Run(action) => ActivationView::Run { context: read.context, action },
            PressView::Ignore => ActivationView::Nothing,
            PressView::Unknown => ActivationView::OpenWindow,
        },
    }
}

/// Decide what an activation of the COM server comes to.
pub fn handle_activation(args: &str, inputs: &Vec<(String, String)>) -> (r: Activation)
    ensures
        r@ == activated(args@, input_texts(inputs@)),
{
    match parse_action_args(args) {
        None => Activation::OpenWindow,
        Some(activation) => match press_for(&activation, inputs) {
            Press::Run(action) => Activation::Run { context: activation.context, action },
            Press::Ignore => Activation::Nothing,
            Press::Unknown => Activation::OpenWindow,
        },
    }
}

/// Whatever the title, the user and the context hold, the button that was shown as Approve
/// approves and the one shown as Reject rejects, under the user and on the request that the
/// notification was made with.
pub proof fn decision_buttons_decide(
    title: Seq<char>,
    user_id: Option<Seq<char>>,
    context: Option<Seq<char>>,
    inputs: Seq<(Seq<char>, Seq<char>)>,
)
    ensures
        ({
            let carried = ContextView {
                title,
                payload: match context {
                    Some(json) => payload_with(json_of_text(json)),
                    None => None,
                },
                user_id: filled(user_id),
            };
            &&& activated(args_text(APPROVE_ACTION@, title, user_id, context), inputs)
                == ActivationView::Run { context: carried, action: ActionView::Approve }
            &&& activated(args_text(REJECT_ACTION@, title, user_id, context), inputs)
                == ActivationView::Run { context: carried, action: ActionView::Reject }
        }),
{
    lemma_actions_are_words();
    reveal_strlit("approve");
    reveal_strlit("reject");
    assert("approve"@.len() == 7 && "reject"@.len() == 6);
    button_arguments_read_back(APPROVE_ACTION@, title, user_id, context);
    button_arguments_read_back(REJECT_ACTION@, title, user_id, context);
}

/// From the banner to the wire: a press of Approve or Reject on the toast of an approval
/// request sends that decision on that very request, under the bearer of the user the toast
/// was posted for. `json` is the context written out, as the toast carries it.
pub proof fn press_resolves_its_own_request(
    title: Seq<char>,
    user_id: Seq<char>,
    context: JsonView,
    json: Seq<char>,
    inputs: Seq<(Seq<char>, Seq<char>)>,
    known: Seq<Seq<char>>,
    session: SessionView,
    base: Seq<char>,
)
    requires
        context is Object,
        approval_id(Some(click_of(context))) is Some,
        !known.contains(approval_id(Some(click_of(context)))->0),
        user_id.len() > 0,
        session.user_id == user_id,
    ensures
        json_of_text(json) == Some(context) ==> ({
            let id = approval_id(Some(click_of(context)))->0;
            let approve = activated(
                args_text(APPROVE_ACTION@, title, Some(user_id), Some(json)),
                inputs,
            );
            let reject = activated(
                args_text(REJECT_ACTION@, title, Some(user_id), Some(json)),
                inputs,
            );
            &&& approve is Run && approve->action == ActionView::Approve
            &&& first_step(known, Some(session), Some(base), approve->context, Action::Approve)
                == Ok::<StepView, Seq<char>>(
                StepView::Call(
                    RequestView {
                        url: base + approval_path(id),
                        bearer: session.access_token,
                        body: json_printed(approval_body(true)),
                    },
                ),
            )
            &&& reject is Run && reject->action == ActionView::Reject
            &&& first_step(known, Some(session), Some(base), reject->context, Action::Reject)
                == Ok::<StepView, Seq<char>>(
                StepView::Call(
                    RequestView {
                        url: base + approval_path(id),
                        bearer: session.access_token,
                        body: json_printed(approval_body(false)),
                    },
                ),
            )
        }),
{
    decision_buttons_decide(title, Some(user_id), Some(json), inputs);
    if json_of_text(json) == Some(context) {
        assert(payload_with(Some(context)) == Some(click_of(context)));
    }
}

/// A reply is what was typed into the reply field, trimmed; nothing is sent for a blank one.
pub proof fn reply_button_sends_what_was_typed(
    title: Seq<char>,
    user_id: Option<Seq<char>>,
    context: Option<Seq<char>>,
    text: Seq<char>,
)
    ensures
        ({
            let inputs = seq![(REPLY_INPUT_ID@, text)];
            let press = activated(args_text(REPLY_ACTION@, title, user_id, context), inputs);
            if trimmed(text).len() == 0 {
                press == ActivationView::Nothing
            } else {
                press is Run && press->action == ActionView::Reply(trimmed(text))
                    && press->context.user_id == filled(user_id) && press->context.title == title
                    && press->context.payload == (match context {
                    Some(json) => payload_with(json_of_text(json)),
                    None => None,
                })
            }
        }),
{
    lemma_actions_are_words();
    reveal_strlit("approve");
    reveal_strlit("reject");
    reveal_strlit("reply");
    assert("approve"@.len() == 7 && "reject"@.len() == 6 && "reply"@.len() == 5);
    let inputs = seq![(REPLY_INPUT_ID@, text)];
    assert(inputs[0].0 == REPLY_INPUT_ID@);
    assert(typed(inputs, REPLY_INPUT_ID@) == Some(text));
    button_arguments_read_back(REPLY_ACTION@, title, user_id, context);
}

proof fn lemma_actions_are_words()
    ensures
        word(APPROVE_ACTION@),
        word(REJECT_ACTION@),
        word(REPLY_ACTION@),
{
    reveal_strlit("approve");
    reveal_strlit("reject");
    reveal_strlit("reply");
    assert("approve"@.len() == 7 && "reject"@.len() == 6 && "reply"@.len() == 5);
}

/// What a press means, by the word its button carries. Approving and rejecting do not ask what was
/// typed; a reply is what stands in its own field, without the blanks around it, and is dropped
/// where nothing does. A word that no button carries opens the window.
pub proof fn press_means_its_word(
    word: Seq<char>,
    before: Seq<(Seq<char>, Seq<char>)>,
    text: Seq<char>,
    after: Seq<(Seq<char>, Seq<char>)>,
)
    requires
        forall|i: int| 0 <= i < before.len() ==> (#[trigger] before[i]).0 != "reply"@,
    ensures
        ({
            let inputs = before.push(("reply"@, text)) + after;
            &&& press_of("approve"@, inputs) == PressView::Run(ActionView::Approve)
            &&& press_of("reject"@, inputs) == PressView::Run(ActionView::Reject)
            &&& trimmed(text).len() > 0 ==> press_of("reply"@, inputs) == PressView::Run(
                ActionView::Reply(trimmed(text)),
            )
            &&& trimmed(text).len() == 0 ==> press_of("reply"@, inputs) == PressView::Ignore
            &&& press_of("reply"@, before) == PressView::Ignore
            &&& word != "approve"@ && word != "reject"@ && word != "reply"@ ==> press_of(
                word,
                inputs,
            ) == PressView::Unknown
        }),
{
    reveal_strlit("approve");
    reveal_strlit("reject");
    reveal_strlit("reply");
    assert("approve"@.len() == 7 && "reject"@.len() == 6 && "reply"@.len() == 5);
    lemma_typed(before, text, after);
}

proof fn lemma_typed(
    before: Seq<(Seq<char>, Seq<char>)>,
    text: Seq<char>,
    after: Seq<(Seq<char>, Seq<char>)>,
)
    requires
        forall|i: int| 0 <= i < before.len() ==> (#[trigger] before[i]).0 != "reply"@,
    ensures
        typed(before.push(("reply"@, text)) + after, "reply"@) == Some(text),
        typed(before, "reply"@) is None,
    decreases before.len(),
{
    let inputs = before.push(("reply"@, text)) + after;
    if before.len() == 0 {
        assert(inputs[0] == ("reply"@, text));
    } else {
        assert(inputs[0] == before[0]);
        assert(inputs.skip(1) =~= before.skip(1).push(("reply"@, text)) + after);
        lemma_typed(before.skip(1), text, after);
    }
}

/// A press never comes to nothing by mistake: arguments that name no action, and those of an
/// action that no button carries, open the window.
pub proof fn unknown_press_opens_the_window(
    action: Seq<char>,
    title: Seq<char>,
    user_id: Option<Seq<char>>,
    context: Option<Seq<char>>,
    inputs: Seq<(Seq<char>, Seq<char>)>,
)
    requires
        word(action),
        action != "approve"@,
        action != "reject"@,
        action != "reply"@,
    ensures
        activated(args_text(action, title, user_id, context), inputs) == ActivationView::OpenWindow,
        activated(Seq::empty(), inputs) == ActivationView::OpenWindow,
{
    button_arguments_read_back(action, title, user_id, context);
    let none = Seq::<char>::empty();
    assert(parted(none, '&') is None);
    assert(pieces(none, '&') == seq![none]);
    let parts = seq![none];
    assert(parts.drop_last() =~= Seq::<Seq<char>>::empty());
    assert(read_parts(Seq::<Seq<char>>::empty()) == nothing_read());
    assert(parts.last() == none);
    assert(parted(none, '=') is None);
    assert(read_parts(parts) == with_part(read_parts(parts.drop_last()), parts.last()));
}

// ---------------------------------------------------------------------------------------
// The document.

/// The button that opens what a notification is about.
pub open spec fn open_button(uri: Seq<char>) -> Seq<char> {
    "<action content=\"Open\" activationType=\"protocol\" arguments=\""@ + uri + "\"/>"@
}

/// A button that activates the COM server.
pub open spec fn background_button(content: Seq<char>, args: Seq<char>, style: Seq<char>) -> Seq<
    char,
> {
    "<action content=\""@ + content + "\" activationType=\"background\" arguments=\""@ + escaped(args)
        + "\" "@ + style + "/>"@
}

pub const APPROVE_STYLE: &'static str = "hint-buttonStyle=\"Success\"";

pub const REJECT_STYLE: &'static str = "hint-buttonStyle=\"Critical\"";

pub const REPLY_STYLE: &'static str = "hint-inputId=\"reply\"";

pub const REPLY_FIELD: &'static str = "<input id=\"reply\" type=\"text\" placeHolderContent=\"Reply to Mingo\"/>";

/// The buttons of a toast. An approval's carry the decision and nothing else: a click on the
/// body opens the application already.
pub open spec fn toast_actions(
    title: Seq<char>,
    uri: Seq<char>,
    user_id: Option<Seq<char>>,
    context: Option<Seq<char>>,
    kind: ActionKind,
) -> Seq<char> {
    match kind {
        ActionKind::Default => open_button(uri),
        ActionKind::Approval => background_button(
            "Approve"@,
            args_text(APPROVE_ACTION@, title, user_id, context),
            APPROVE_STYLE@,
        ) + background_button(
            "Reject"@,
            args_text(REJECT_ACTION@, title, user_id, context),
            REJECT_STYLE@,
        ),
        ActionKind::Message => REPLY_FIELD@ + background_button(
            "Send"@,
            args_text(REPLY_ACTION@, title, user_id, context),
            REPLY_STYLE@,
        ) + open_button(uri),
    }
}

/// The second line of a toast, where there is one.
pub open spec fn body_element(body: Seq<char>) -> Seq<char> {
    if body.len() == 0 {
        Seq::empty()
    } else {
        "<text>"@ + escaped(shortened(body, BODY_LIMIT as nat)) + "</text>"@
    }
}

pub const TOAST_HEAD: &'static str = "<toast duration=\"short\" activationType=\"protocol\" launch=\"";

pub const TOAST_VISUAL: &'static str = "\" useButtonStyle=\"true\">\n    <visual><binding template=\"ToastGeneric\"><text>";

pub const TOAST_ACTIONS: &'static str = "</binding></visual>\n    <audio silent=\"true\"/>\n    <actions>";

pub const TOAST_TAIL: &'static str = "</actions>\n</toast>";

/// The document of a toast, with the context of its click already written out.
pub open spec fn toast_text(
    title: Seq<char>,
    body: Seq<char>,
    context: Option<Seq<char>>,
    user_id: Option<Seq<char>>,
    kind: ActionKind,
) -> Seq<char> {
    let uri = escaped(uri_around(context));
    let shown = shortened(title, TITLE_LIMIT as nat);
    TOAST_HEAD@ + uri + TOAST_VISUAL@ + escaped(shown) + "</text>"@ + body_element(body)
        + TOAST_ACTIONS@ + toast_actions(shown, uri, user_id, context, kind) + TOAST_TAIL@
}

fn append_open(out: &mut String, uri: &str)
    ensures
        final(out)@ == old(out)@ + open_button(uri@),
{
    let ghost before = out@;
    out.append("<action content=\"Open\" activationType=\"protocol\" arguments=\"");
    out.append(uri);
    out.append("\"/>");
    assert(out@ =~= before + open_button(uri@));
}

fn append_button(out: &mut String, content: &str, args: &str, style: &str)
    ensures
        final(out)@ == old(out)@ + background_button(content@, args@, style@),
{
    let ghost before = out@;
    out.append("<action content=\"");
    out.append(content);
    out.append("\" activationType=\"background\" arguments=\"");
    out.append(escape_xml(args).as_str());
    out.append("\" ");
    out.append(style);
    out.append("/>");
    assert(out@ =~= before + background_button(content@, args@, style@));
}

/// The document of a toast. It makes no sound of its own, and its title and body are cut to
/// their budgets before anything copies them.
pub fn toast_xml(
    title: &str,
    body: &str,
    click: Option<&Json>,
    user_id: Option<&str>,
    kind: ActionKind,
) -> (r: String)
    ensures
        r@ == toast_text(
            title@,
            body@,
            context_json(option_json(click)),
            option_str(user_id),
            kind,
        ),
        kind is Approval ==> forall|inputs: Seq<(Seq<char>, Seq<char>)>|
            #[trigger] decides_as_labelled(r@, inputs),
{
    let uri = escape_xml(click_uri(click).as_str());
    let shown = truncate_for_notification(title, TITLE_LIMIT);
    let mut out = TOAST_HEAD.to_string();
    out.append(uri.as_str());
    out.append(TOAST_VISUAL);
    out.append(escape_xml(shown.as_str()).as_str());
    out.append("</text>");
    let ghost head = out@;
    if !body.is_empty() {
        out.append("<text>");
        out.append(escape_xml(truncate_for_notification(body, BODY_LIMIT).as_str()).as_str());
        out.append("</text>");
    }
    assert(out@ =~= head + body_element(body@));
    out.append(TOAST_ACTIONS);
    let ghost head = out@;
    let ghost context = context_json(option_json(click));
    match kind {
        ActionKind::Default => append_open(&mut out, uri.as_str()),
        ActionKind::Approval => {
            let approve = encode_action_args(APPROVE_ACTION, shown.as_str(), user_id, click);
            append_button(&mut out, "Approve", approve.as_str(), APPROVE_STYLE);
            let reject = encode_action_args(REJECT_ACTION, shown.as_str(), user_id, click);
            append_button(&mut out, "Reject", reject.as_str(), REJECT_STYLE);
        },
        ActionKind::Message => {
            let reply = encode_action_args(REPLY_ACTION, shown.as_str(), user_id, click);
            out.append(REPLY_FIELD);
            append_button(&mut out, "Send", reply.as_str(), REPLY_STYLE);
            append_open(&mut out, uri.as_str());
        },
    }
    assert(out@ =~= head + toast_actions(shown@, uri@, option_str(user_id), context, kind));
    out.append(TOAST_TAIL);
    proof {
        if kind is Approval {
            assert forall|inputs: Seq<(Seq<char>, Seq<char>)>|
                #[trigger] decides_as_labelled(out@, inputs) by {
                approval_labels_are_true(title@, body@, context, option_str(user_id), inputs);
            }
        }
    }
    out
}

/// A toast on its way to the notification platform.
#[derive(Debug, PartialEq)]
pub struct Toast {
    pub xml: String,
    /// What a later toast with the same tag takes the place of.
    pub tag: Option<String>,
}

/// The toast for a notification. Only approval requests have a tag: they are the only kind
/// whose second copy corrects the first rather than saying something new.
pub fn post(notification: &Post) -> (r: Toast)
    ensures
        r.xml@ == toast_text(
            notification@.title,
            notification@.body,
            context_json(notification@.click),
            notification@.user_id,
            notification@.kind,
        ),
        option_text(r.tag) == match approval_id(notification@.click) {
            Some(id) => Some(tag_of(id)),
            None => None,
        },
{
    let click = match &notification.click {
        Some(json) => Some(json),
        None => None,
    };
    let user_id = match &notification.user_id {
        Some(user_id) => Some(user_id.as_str()),
        None => None,
    };
    let xml = toast_xml(notification.title.as_str(), notification.body.as_str(), click, user_id, notification.kind);
    let tag = match approval_request_id(click) {
        Some(id) => Some(toast_tag(id.as_str())),
        None => None,
    };
    Toast { xml, tag }
}

/// Whether a toast goes to the Action Center without a banner: an update, once its tag has
/// been taken. One that can take no other's place is better shown than hidden.
pub fn suppress_popup(delivery: Delivery, tagged: bool) -> (r: bool)
    ensures
        r == (delivery == Delivery::Update && tagged),
{
    delivery == Delivery::Update && tagged
}

// ---------------------------------------------------------------------------------------
// How large a document gets.

/// The bytes of a text.
pub open spec fn size(s: Seq<char>) -> nat {
    encode_utf8(s).len()
}

/// What a title and a body add to a document at most: the title once as text, at six bytes
/// for a character, and once in each of two buttons, at twelve; the body between its tags.
pub const TEXT_BUDGET: u64 = 3313;

proof fn lemma_size_of_markup(c: char)
    ensures
        size(markup(c)) <= 6,
{
    reveal_strlit("&amp;");
    reveal_strlit("&lt;");
    reveal_strlit("&gt;");
    reveal_strlit("&quot;");
    reveal_strlit("&apos;");
    if markup(c).len() == 1 {
        lemma_bytes_of_text(markup(c));
    } else {
        is_ascii_chars_encode_utf8(markup(c));
    }
}

proof fn lemma_size_of_escaped(s: Seq<char>)
    ensures
        size(escaped(s)) <= 6 * s.len(),
    decreases s.len(),
{
    let f = |c: char| markup(c);
    if s.len() > 0 {
        lemma_size_of_escaped(s.skip(1));
        lemma_size_of_markup(s[0]);
        lemma_encode_utf8_both(f(s[0]), spread(s.skip(1), f));
    }
}

/// An encoded value stands in a document as it is.
proof fn lemma_escaped_encoded(s: Seq<char>)
    ensures
        escaped(encoded(s)) == encoded(s),
{
    let f = |c: char| markup(c);
    encoded_text_is_plain(s);
    encoded_text_is_printable(s);
    assert forall|i: int| 0 <= i < encoded(s).len() implies f(#[trigger] encoded(s)[i]) == seq![
        encoded(s)[i],
    ] by {
        assert(!structural(encoded(s)[i]));
        assert(' ' < encoded(s)[i]);
    }
    lemma_spread_same(encoded(s), f);
}

/// What follows the title in a button's arguments.
spec fn args_tail(user_id: Option<Seq<char>>, context: Option<Seq<char>>) -> Seq<char> {
    (match user_id {
        Some(user_id) => "&"@ + ("user="@ + encoded(user_id)),
        None => Seq::empty(),
    }) + (match context {
        Some(json) => "&"@ + ("context="@ + encoded(json)),
        None => Seq::empty(),
    })
}

proof fn lemma_args_around_title(
    action: Seq<char>,
    title: Seq<char>,
    user_id: Option<Seq<char>>,
    context: Option<Seq<char>>,
)
    ensures
        args_text(action, title, user_id, context) == ("action="@ + action + "&"@ + "title="@)
            + encoded(title) + args_tail(user_id, context),
{
    let sep = "&"@;
    let first = seq!["action="@ + action, "title="@ + encoded(title)];
    let second = match user_id {
        Some(user_id) => first.push("user="@ + encoded(user_id)),
        None => first,
    };
    let parts = arg_parts(action, title, user_id, context);
    assert(first.drop_last() =~= seq!["action="@ + action]);
    assert(joined(first.drop_last(), sep) == "action="@ + action);
    assert(joined(first, sep) == "action="@ + action + sep + ("title="@ + encoded(title)));
    if let Some(user_id) = user_id {
        assert(second.drop_last() =~= first);
        assert(joined(second, sep) == joined(first, sep) + sep + ("user="@ + encoded(user_id)));
    }
    if let Some(json) = context {
        assert(parts.drop_last() =~= second);
        assert(joined(parts, sep) == joined(second, sep) + sep + ("context="@ + encoded(json)));
    }
    assert(joined(parts, sep) =~= ("action="@ + action + sep + "title="@) + encoded(title)
        + args_tail(user_id, context));
}

/// A button's arguments are one printable text.
pub proof fn arguments_are_printable(
    action: Seq<char>,
    title: Seq<char>,
    user_id: Option<Seq<char>>,
    context: Option<Seq<char>>,
)
    requires
        word(action),
    ensures
        forall|i: int|
            0 <= i < args_text(action, title, user_id, context).len() ==> ' '
                < #[trigger] args_text(action, title, user_id, context)[i],
{
    lemma_args_around_title(action, title, user_id, context);
    encoded_text_is_printable(title);
    reveal_strlit("action=");
    reveal_strlit("&");
    reveal_strlit("title=");
    reveal_strlit("user=");
    reveal_strlit("context=");
    if let Some(user_id) = user_id {
        encoded_text_is_printable(user_id);
    }
    if let Some(json) = context {
        encoded_text_is_printable(json);
    }
    let head = "action="@ + action + "&"@ + "title="@;
    assert forall|i: int| 0 <= i < head.len() implies ' ' < #[trigger] head[i] by {
        if 7 <= i < 7 + action.len() {
            assert(ascii_alphanumeric(action[i - 7]));
        }
    }
    let tail = args_tail(user_id, context);
    assert forall|i: int| 0 <= i < tail.len() implies ' ' < #[trigger] tail[i] by {
        if let Some(user_id) = user_id {
            let first = "&"@ + ("user="@ + encoded(user_id));
            if i < first.len() {
                assert(tail[i] == first[i]);
            }
        }
    }
}

/// A title adds to a button's arguments what its encoding takes, and nothing else.
proof fn lemma_size_of_args(
    action: Seq<char>,
    title: Seq<char>,
    user_id: Option<Seq<char>>,
    context: Option<Seq<char>>,
)
    ensures
        size(escaped(args_text(action, title, user_id, context))) <= size(
            escaped(args_text(action, Seq::empty(), user_id, context)),
        ) + 12 * title.len(),
{
    let f = |c: char| markup(c);
    let none = Seq::<char>::empty();
    let head = "action="@ + action + "&"@ + "title="@;
    let tail = args_tail(user_id, context);
    lemma_args_around_title(action, title, user_id, context);
    lemma_args_around_title(action, none, user_id, context);
    lemma_bytes_of_encoded(title);
    lemma_bytes_of_encoded(none);
    lemma_escaped_encoded(title);
    lemma_escaped_encoded(none);
    lemma_spread_both(head + encoded(title), tail, f);
    lemma_spread_both(head, encoded(title), f);
    lemma_spread_both(head + encoded(none), tail, f);
    lemma_spread_both(head, encoded(none), f);
    lemma_encode_utf8_both(escaped(head) + encoded(title), escaped(tail));
    lemma_encode_utf8_both(escaped(head), encoded(title));
    lemma_encode_utf8_both(escaped(head) + encoded(none), escaped(tail));
    lemma_encode_utf8_both(escaped(head), encoded(none));
}

proof fn lemma_size_of_button(
    content: Seq<char>,
    args: Seq<char>,
    bare: Seq<char>,
    style: Seq<char>,
    more: nat,
)
    requires
        size(escaped(args)) <= size(escaped(bare)) + more,
    ensures
        size(background_button(content, args, style)) <= size(
            background_button(content, bare, style),
        ) + more,
{
    let head = "<action content=\""@ + content + "\" activationType=\"background\" arguments=\""@;
    let tail = "\" "@ + style + "/>"@;
    assert(background_button(content, args, style) =~= head + escaped(args) + tail);
    assert(background_button(content, bare, style) =~= head + escaped(bare) + tail);
    lemma_encode_utf8_both(head + escaped(args), tail);
    lemma_encode_utf8_both(head, escaped(args));
    lemma_encode_utf8_both(head + escaped(bare), tail);
    lemma_encode_utf8_both(head, escaped(bare));
}

proof fn lemma_size_of_actions(
    title: Seq<char>,
    uri: Seq<char>,
    user_id: Option<Seq<char>>,
    context: Option<Seq<char>>,
    kind: ActionKind,
)
    ensures
        size(toast_actions(title, uri, user_id, context, kind)) <= size(
            toast_actions(Seq::empty(), uri, user_id, context, kind),
        ) + 24 * title.len(),
{
    let none = Seq::<char>::empty();
    let more = 12 * title.len();
    match kind {
        ActionKind::Default => {},
        ActionKind::Approval => {
            let a1 = args_text(APPROVE_ACTION@, title, user_id, context);
            let b1 = args_text(APPROVE_ACTION@, none, user_id, context);
            let a2 = args_text(REJECT_ACTION@, title, user_id, context);
            let b2 = args_text(REJECT_ACTION@, none, user_id, context);
            lemma_size_of_args(APPROVE_ACTION@, title, user_id, context);
            lemma_size_of_args(REJECT_ACTION@, title, user_id, context);
            lemma_size_of_button("Approve"@, a1, b1, APPROVE_STYLE@, more);
            lemma_size_of_button("Reject"@, a2, b2, REJECT_STYLE@, more);
            lemma_encode_utf8_both(
                background_button("Approve"@, a1, APPROVE_STYLE@),
                background_button("Reject"@, a2, REJECT_STYLE@),
            );
            lemma_encode_utf8_both(
                background_button("Approve"@, b1, APPROVE_STYLE@),
                background_button("Reject"@, b2, REJECT_STYLE@),
            );
        },
        ActionKind::Message => {
            let a = background_button(
                "Send"@,
                args_text(REPLY_ACTION@, title, user_id, context),
                REPLY_STYLE@,
            );
            let b = background_button(
                "Send"@,
                args_text(REPLY_ACTION@, none, user_id, context),
                REPLY_STYLE@,
            );
            lemma_size_of_args(REPLY_ACTION@, title, user_id, context);
            lemma_size_of_button(
                "Send"@,
                args_text(REPLY_ACTION@, title, user_id, context),
                args_text(REPLY_ACTION@, none, user_id, context),
                REPLY_STYLE@,
                more,
            );
            lemma_encode_utf8_both(REPLY_FIELD@ + a, open_button(uri));
            lemma_encode_utf8_both(REPLY_FIELD@, a);
            lemma_encode_utf8_both(REPLY_FIELD@ + b, open_button(uri));
            lemma_encode_utf8_both(REPLY_FIELD@, b);
        },
    }
}

proof fn lemma_size_of_body(body: Seq<char>)
    ensures
        size(body_element(body)) <= 13 + 6 * BODY_LIMIT,
{
    let shown = shortened(body, BODY_LIMIT as nat);
    reveal_strlit("<text>");
    reveal_strlit("</text>");
    shortened_text_keeps_its_limit(body, BODY_LIMIT as nat);
    lemma_size_of_escaped(shown);
    is_ascii_chars_encode_utf8("<text>"@);
    is_ascii_chars_encode_utf8("</text>"@);
    lemma_encode_utf8_both("<text>"@ + escaped(shown), "</text>"@);
    lemma_encode_utf8_both("<text>"@, escaped(shown));
}

/// Whatever a title and a body hold and however long they are, they add no more than
/// [`TEXT_BUDGET`] bytes to a toast; the rest of it is its own frame, its click and its user.
pub proof fn title_and_body_keep_to_their_budget(
    title: Seq<char>,
    body: Seq<char>,
    context: Option<Seq<char>>,
    user_id: Option<Seq<char>>,
    kind: ActionKind,
)
    ensures
        size(toast_text(title, body, context, user_id, kind)) <= size(
            toast_text(Seq::empty(), Seq::empty(), context, user_id, kind),
        ) + TEXT_BUDGET,
{
    let none = Seq::<char>::empty();
    let uri = escaped(uri_around(context));
    let shown = shortened(title, TITLE_LIMIT as nat);
    shortened_text_keeps_its_limit(title, TITLE_LIMIT as nat);
    lemma_size_of_escaped(shown);
    lemma_size_of_body(body);
    lemma_size_of_actions(shown, uri, user_id, context, kind);
    let actions = toast_actions(shown, uri, user_id, context, kind);
    let bare = toast_actions(none, uri, user_id, context, kind);
    let head = TOAST_HEAD@ + uri + TOAST_VISUAL@;
    lemma_size_of_document(head, escaped(shown), body_element(body), actions);
    lemma_size_of_document(head, escaped(none), body_element(none), bare);
    assert(escaped(none) =~= none);
    assert(size(none) == 0);
    assert(body_element(none) == none);
    assert(shortened(none, TITLE_LIMIT as nat) == none);
}

proof fn lemma_size_of_document(
    head: Seq<char>,
    title: Seq<char>,
    body: Seq<char>,
    actions: Seq<char>,
)
    ensures
        size(
            head + title + "</text>"@ + body + TOAST_ACTIONS@ + actions + TOAST_TAIL@,
        ) == size(head) + size(title) + size("</text>"@) + size(body) + size(TOAST_ACTIONS@) + size(
            actions,
        ) + size(TOAST_TAIL@),
{
    let a = head + title;
    let b = a + "</text>"@;
    let c = b + body;
    let d = c + TOAST_ACTIONS@;
    let e = d + actions;
    lemma_encode_utf8_both(e, TOAST_TAIL@);
    lemma_encode_utf8_both(d, actions);
    lemma_encode_utf8_both(c, TOAST_ACTIONS@);
    lemma_encode_utf8_both(b, body);
    lemma_encode_utf8_both(a, "</text>"@);
    lemma_encode_utf8_both(head, title);
}

} // verus!
