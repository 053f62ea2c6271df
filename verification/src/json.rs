//! JSON values as the library reads and builds them, and their text form.
use vstd::prelude::*;
use vstd::string::*;
use vstd::utf8::*;

use crate::text::same_text;

verus! {

#[verifier::external_type_specification]
#[verifier::external_body]
pub struct ExJsonNumber(serde_json::Number);

#[verifier::external_type_specification]
#[verifier::external_body]
pub struct ExJsonValue(serde_json::Value);

/// `serde_json::Number::clone`: the copy is the number.
pub assume_specification[ <serde_json::Number as Clone>::clone ](number: &serde_json::Number) -> (r:
    serde_json::Number)
    ensures
        r == *number,
;

/// A number with a fraction or an exponent, carried as it was read.
#[derive(Debug, PartialEq)]
pub struct Decimal {
    raw: serde_json::Number,
}

/// A JSON value.
#[derive(Debug, PartialEq)]
pub enum Json {
    Null,
    Bool(bool),
    /// A whole number that is not negative.
    Unsigned(u64),
    /// A whole number below zero.
    Signed(i64),
    Decimal(Decimal),
    Text(String),
    Array(Vec<Json>),
    /// The members of an object. Where a key comes twice, the first member counts.
    Object(Vec<Member>),
}

#[derive(Debug, PartialEq)]
pub struct Member {
    pub key: String,
    pub value: Json,
}

/// What a JSON value is, without the way it is stored: whole numbers are integers, and an
/// object maps keys to values.
pub enum JsonView {
    Null,
    Bool(bool),
    Integer(int),
    Decimal(Decimal),
    Text(Seq<char>),
    Array(Seq<JsonView>),
    Object(Map<Seq<char>, JsonView>),
}

pub open spec fn items_view(items: Seq<Json>) -> Seq<JsonView>
    decreases items,
{
    if items.len() == 0 {
        Seq::empty()
    } else {
        items_view(items.drop_last()).push(json_view(items.last()))
    }
}

pub open spec fn members_view(members: Seq<Member>) -> Map<Seq<char>, JsonView>
    decreases members,
{
    if members.len() == 0 {
        Map::empty()
    } else {
        members_view(members.drop_first()).insert(members[0].key@, json_view(members[0].value))
    }
}

pub open spec fn json_view(json: Json) -> JsonView
    decreases json,
{
    match json {
        Json::Null => JsonView::Null,
        Json::Bool(b) => JsonView::Bool(b),
        Json::Unsigned(n) => JsonView::Integer(n as int),
        Json::Signed(n) => JsonView::Integer(n as int),
        Json::Decimal(d) => JsonView::Decimal(d),
        Json::Text(s) => JsonView::Text(s@),
        Json::Array(items) => JsonView::Array(items_view(items@)),
        Json::Object(members) => JsonView::Object(members_view(members@)),
    }
}

impl View for Json {
    type V = JsonView;

    open spec fn view(&self) -> JsonView {
        json_view(*self)
    }
}

// ---------------------------------------------------------------------------------------
// Text.

/// What `serde_json::from_slice` makes of some bytes, where they are one JSON value.
pub uninterp spec fn json_parsed(bytes: Seq<u8>) -> Option<JsonView>;

/// The compact text that `serde_json::Value` writes for a value.
pub uninterp spec fn json_printed(json: JsonView) -> Seq<char>;

/// What a `serde_json::Value` holds.
pub uninterp spec fn value_tree(value: serde_json::Value) -> JsonView;

/// The value that a text is the JSON of, where it is.
pub open spec fn json_of_text(text: Seq<char>) -> Option<JsonView> {
    json_parsed(encode_utf8(text))
}

/// Whether a value has no decimal in it and is nested at most `depth` deep.
pub open spec fn plain(json: JsonView, depth: nat) -> bool
    decreases depth,
{
    match json {
        JsonView::Decimal(_) => false,
        JsonView::Array(items) => depth > 0 && forall|i: int|
            0 <= i < items.len() ==> plain(#[trigger] items[i], (depth - 1) as nat),
        JsonView::Object(members) => depth > 0 && forall|key: Seq<char>|
            members.contains_key(key) ==> plain(#[trigger] members[key], (depth - 1) as nat),
        _ => true,
    }
}

/// How deep the arrays and objects of a text may be nested for it to be read.
pub const DEPTH_LIMIT: u64 = 127;

/// `serde_json::from_slice` for a `Value`: what it reads is a function of the bytes.
#[verifier::external_body]
fn value_from_slice(bytes: &[u8]) -> (r: Option<serde_json::Value>)
    ensures
        match r {
            Some(value) => json_parsed(bytes@) == Some(value_tree(value)),
            None => json_parsed(bytes@) is None,
        },
{
    serde_json::from_slice::<serde_json::Value>(bytes).ok()
}

/// The variants of `serde_json::Value` one for one. Its numbers are told apart by
/// `Number::as_u64` and `Number::as_i64`, and its map gives each key once.
#[verifier::external_body]
fn tree_of(value: serde_json::Value) -> (r: Json)
    ensures
        r@ == value_tree(value),
{
    match value {
        serde_json::Value::Null => Json::Null,
        serde_json::Value::Bool(b) => Json::Bool(b),
        serde_json::Value::Number(n) => match (n.as_u64(), n.as_i64()) {
            (Some(whole), _) => Json::Unsigned(whole),
            (None, Some(below)) => Json::Signed(below),
            (None, None) => Json::Decimal(Decimal { raw: n }),
        },
        serde_json::Value::String(s) => Json::Text(s),
        serde_json::Value::Array(items) => Json::Array(items.into_iter().map(tree_of).collect()),
        serde_json::Value::Object(map) => Json::Object(
            map.into_iter().map(|(key, value)| Member { key, value: tree_of(value) }).collect()),
    }
}

/// The `serde_json::Value` that holds a value. Members go into its map last first, so that
/// of two with one key the first stays.
#[verifier::external_body]
fn value_of(json: &Json) -> (r: serde_json::Value)
    ensures
        value_tree(r) == json@,
{
    match json {
        Json::Null => serde_json::Value::Null,
        Json::Bool(b) => serde_json::Value::Bool(*b),
        Json::Unsigned(n) => serde_json::Value::from(*n),
        Json::Signed(n) => serde_json::Value::from(*n),
        Json::Decimal(d) => serde_json::Value::Number(d.raw.clone()),
        Json::Text(s) => serde_json::Value::String(s.clone()),
        Json::Array(items) => serde_json::Value::Array(items.iter().map(value_of).collect()),
        Json::Object(members) => serde_json::Value::Object(
            members.iter().rev().map(|m| (m.key.clone(), value_of(&m.value))).collect()),
    }
}

/// `serde_json::Value::to_string`: the text is a function of what the value holds. Where the
/// value has no decimal and is nested no deeper than the parser reads, the text reads back
/// as that value; of the others nothing is said.
#[verifier::external_body]
fn value_to_string(value: &serde_json::Value) -> (r: String)
    ensures
        r@ == json_printed(value_tree(*value)),
        plain(value_tree(*value), DEPTH_LIMIT as nat) ==> json_of_text(r@) == Some(value_tree(*value)),
{
    value.to_string()
}

/// The value that some bytes are the JSON of, where they are.
pub fn parse_bytes(bytes: &[u8]) -> (r: Option<Json>)
    ensures
        match r {
            Some(json) => json_parsed(bytes@) == Some(json@),
            None => json_parsed(bytes@) is None,
        },
{
    match value_from_slice(bytes) {
        Some(value) => Some(tree_of(value)),
        None => None,
    }
}

/// The value that a text is the JSON of, where it is.
pub fn parse(text: &str) -> (r: Option<Json>)
    ensures
        match r {
            Some(json) => json_of_text(text@) == Some(json@),
            None => json_of_text(text@) is None,
        },
{
    parse_bytes(text.as_bytes())
}

/// The compact text of a value. A value without decimals reads back from it.
pub fn print(json: &Json) -> (r: String)
    ensures
        r@ == json_printed(json@),
        plain(json@, DEPTH_LIMIT as nat) ==> json_of_text(r@) == Some(json@),
{
    value_to_string(&value_of(json))
}

// ---------------------------------------------------------------------------------------
// Reading.

/// The member of an object under a key.
pub open spec fn field(json: JsonView, key: Seq<char>) -> Option<JsonView> {
    match json {
        JsonView::Object(members) => if members.contains_key(key) {
            Some(members[key])
        } else {
            None
        },
        _ => None,
    }
}

/// The text that a value is.
pub open spec fn text_in(json: JsonView) -> Option<Seq<char>> {
    match json {
        JsonView::Text(s) => Some(s),
        _ => None,
    }
}

/// The text under a key of an object.
pub open spec fn text_field(json: JsonView, key: Seq<char>) -> Option<Seq<char>> {
    match field(json, key) {
        Some(value) => text_in(value),
        None => None,
    }
}

/// The number under a key of an object, where it is whole and fits 64 bits without a sign.
pub open spec fn whole_field(json: JsonView, key: Seq<char>) -> Option<u64> {
    match field(json, key) {
        Some(JsonView::Integer(n)) => if 0 <= n <= u64::MAX {
            Some(n as u64)
        } else {
            None
        },
        _ => None,
    }
}

proof fn lemma_members_first(members: Seq<Member>, key: Seq<char>, i: int)
    requires
        0 <= i <= members.len(),
        forall|j: int| 0 <= j < i ==> (#[trigger] members[j]).key@ != key,
        i < members.len() ==> members[i].key@ == key,
    ensures
        members_view(members).contains_key(key) == (i < members.len()),
        i < members.len() ==> members_view(members)[key] == json_view(members[i].value),
    decreases i,
{
    if i > 0 {
        let rest = members.drop_first();
        assert(members[0].key@ != key);
        assert forall|j: int| 0 <= j < i - 1 implies (#[trigger] rest[j]).key@ != key by {
            assert(members[j + 1].key@ != key);
        }
        lemma_members_first(rest, key, i - 1);
    }
}

/// The member of an object under `key`.
pub fn get<'a>(json: &'a Json, key: &str) -> (r: Option<&'a Json>)
    ensures
        match r {
            Some(value) => field(json@, key@) == Some(value@),
            None => field(json@, key@) is None,
        },
{
    match json {
        Json::Object(members) => {
            let mut i: usize = 0;
            while i < members.len()
                invariant
                    *json == Json::Object(*members),
                    i <= members@.len(),
                    forall|j: int| 0 <= j < i ==> (#[trigger] members@[j]).key@ != key@,
                decreases members@.len() - i,
            {
                if same_text(members[i].key.as_str(), key) {
                    proof {
                        lemma_members_first(members@, key@, i as int);
                    }
                    return Some(&members[i].value);
                }
                i += 1;
            }
            proof {
                lemma_members_first(members@, key@, i as int);
            }
            None
        },
        _ => None,
    }
}

/// The text under `key`.
pub fn get_text(json: &Json, key: &str) -> (r: Option<String>)
    ensures
        match r {
            Some(text) => text_field(json@, key@) == Some(text@),
            None => text_field(json@, key@) is None,
        },
{
    match get(json, key) {
        Some(Json::Text(text)) => Some(text.clone()),
        _ => None,
    }
}

/// The number under `key`.
pub fn get_whole(json: &Json, key: &str) -> (r: Option<u64>)
    ensures
        r == whole_field(json@, key@),
{
    match get(json, key) {
        Some(Json::Unsigned(n)) => Some(*n),
        Some(Json::Signed(n)) => if *n >= 0 {
            Some(*n as u64)
        } else {
            None
        },
        _ => None,
    }
}

// ---------------------------------------------------------------------------------------
// Copying and building.

/// A value equal to `json`.
pub fn copy_of(json: &Json) -> (r: Json)
    ensures
        r@ == json@,
    decreases *json,
{
    match json {
        Json::Null => Json::Null,
        Json::Bool(b) => Json::Bool(*b),
        Json::Unsigned(n) => Json::Unsigned(*n),
        Json::Signed(n) => Json::Signed(*n),
        Json::Decimal(d) => Json::Decimal(Decimal { raw: d.raw.clone() }),
        Json::Text(s) => Json::Text(s.clone()),
        Json::Array(items) => {
            let mut copies: Vec<Json> = Vec::new();
            let mut i: usize = 0;
            assert(items@.take(0) =~= Seq::<Json>::empty());
            while i < items.len()
                invariant
                    *json == Json::Array(*items),
                    i <= items@.len(),
                    items_view(copies@) == items_view(items@.take(i as int)),
                decreases items@.len() - i,
            {
                assert(decreases_to!(*json => json->Array_0));
                assert(decreases_to!(*items => items@[i as int]));
                let copy = copy_of(&items[i]);
                let ghost before = copies@;
                copies.push(copy);
                proof {
                    assert(copies@.drop_last() =~= before);
                    assert(items@.take(i + 1).drop_last() =~= items@.take(i as int));
                }
                i += 1;
            }
            assert(items@.take(i as int) =~= items@);
            Json::Array(copies)
        },
        Json::Object(members) => {
            let mut copies: Vec<Member> = Vec::new();
            let mut i: usize = 0;
            while i < members.len()
                invariant
                    *json == Json::Object(*members),
                    i <= members@.len(),
                    copies@.len() == i,
                    forall|j: int|
                        0 <= j < i ==> (#[trigger] copies@[j]).key@ == members@[j].key@ && json_view(
                            copies@[j].value,
                        ) == json_view(members@[j].value),
                decreases members@.len() - i,
            {
                assert(decreases_to!(*json => json->Object_0));
                assert(decreases_to!(*members => members@[i as int]));
                assert(decreases_to!(members@[i as int] => members@[i as int].value));
                let copy = copy_of(&members[i].value);
                copies.push(Member { key: members[i].key.clone(), value: copy });
                i += 1;
            }
            proof {
                lemma_members_same(copies@, members@);
            }
            Json::Object(copies)
        },
    }
}

/// Members that are alike one by one make the same object.
proof fn lemma_members_same(a: Seq<Member>, b: Seq<Member>)
    requires
        a.len() == b.len(),
        forall|j: int|
            0 <= j < a.len() ==> (#[trigger] a[j]).key@ == b[j].key@ && json_view(a[j].value)
                == json_view(b[j].value),
    ensures
        members_view(a) == members_view(b),
    decreases a.len(),
{
    if a.len() > 0 {
        let x = a.drop_first();
        let y = b.drop_first();
        assert(a[0].key@ == b[0].key@);
        assert forall|j: int| 0 <= j < x.len() implies (#[trigger] x[j]).key@ == y[j].key@
            && json_view(x[j].value) == json_view(y[j].value) by {
            assert(a[j + 1].key@ == b[j + 1].key@);
        }
        lemma_members_same(x, y);
    }
}

/// A text as a value.
pub fn text(s: &str) -> (r: Json)
    ensures
        r@ == JsonView::Text(s@),
{
    Json::Text(s.to_string())
}

proof fn lemma_members_push(members: Seq<Member>, last: Member)
    requires
        !members_view(members).contains_key(last.key@),
    ensures
        members_view(members.push(last)) == members_view(members).insert(
            last.key@,
            json_view(last.value),
        ),
    decreases members.len(),
{
    let all = members.push(last);
    if members.len() == 0 {
        assert(all.drop_first() =~= members);
    } else {
        assert(all.drop_first() =~= members.drop_first().push(last));
        lemma_members_push(members.drop_first(), last);
        assert(members_view(all) =~= members_view(members).insert(last.key@, json_view(last.value)));
    }
}

/// Add a member under a key that no other has.
pub fn put(members: &mut Vec<Member>, key: &str, value: Json)
    requires
        !members_view(old(members)@).contains_key(key@),
    ensures
        members_view(final(members)@) == members_view(old(members)@).insert(key@, value@),
{
    let last = Member { key: key.to_string(), value };
    proof {
        lemma_members_push(members@, last);
    }
    members.push(last);
}

/// What stands under a key of an object: a text is read as it stands where it is one, a number
/// where it is whole and fits, and under a key that is not there, and of a value that is no
/// object, there is nothing.
pub proof fn members_are_read_as_they_stand(
    members: Map<Seq<char>, JsonView>,
    key: Seq<char>,
    text: Seq<char>,
    n: int,
)
    ensures
        ({
            let json = JsonView::Object(members);
            &&& members.contains_key(key) ==> field(json, key) == Some(members[key])
            &&& !members.contains_key(key) ==> field(json, key) is None
            &&& text_field(json, key) == Some(text) <==> members.contains_key(key) && members[key]
                == JsonView::Text(text)
            &&& 0 <= n <= u64::MAX ==> (whole_field(json, key) == Some(n as u64)
                <==> members.contains_key(key) && members[key] == JsonView::Integer(n))
        }),
{
}

} // verus!
