//! Notifications as they arrive: what the user is told, what a click on one carries, and how
//! that click reaches a page that may not be listening yet.
use std::collections::VecDeque;

use vstd::prelude::*;
use vstd::string::*;

use crate::config::filled;
use crate::json::{
    copy_of, field, get, get_text, json_of_text, json_parsed, json_printed, members_view, parse,
    parse_bytes, plain, print, put, text_field, Json, JsonView, Member, DEPTH_LIMIT,
};
use crate::notification_actions::{
    approval_id, approval_request_id, ids, live_kind, live_kind_for, note_resolution, noted,
    oldest_is_forgotten_first, option_json, owned_json, remembered, remembering_keeps_the_ring,
    ring_ok, settled_id, ActionKind, Post, PostView, RESOLVED_MEMORY,
};
use crate::percent::{
    decode, decoded, encode_strict, encoded_strict, encoded_text_decodes_to_itself,
    encoded_text_is_plain, structural,
};
use crate::text::{
    joined, lemma_first_at, lemma_pieces_of_joined, option_str, option_text, pieces, same_text, shorten, shortened, split_on,
    starts_with, strip_prefix, texts,
};

verus! {

/// Event the page is sent for a click.
pub const CLICK_EVENT: &'static str = "notification:click";

/// Length limit for text of an incoming notification.
pub const BODY_CHARS: usize = 140;

/// The `eventType` that supersedes an earlier notification rather than being a new thing to
/// tell the user about.
pub const UPDATED_EVENT: &'static str = "UPDATED";

/// Custom URI scheme that Windows toasts activate through.
pub const URI_SCHEME: &'static str = "openframe-desktop";

pub const CLICK_URI_PREFIX: &'static str = "openframe-desktop://notify";

/// Whether a notification is the first the user hears of something, or supersedes one they
/// were already told about. An update must not interrupt again.
#[derive(Clone, Copy, PartialEq, Eq, Debug, Structural)]
pub enum Delivery {
    New,
    Update,
}

/// The text under a key, where there is one and it is not empty.
pub open spec fn named_text(json: JsonView, key: Seq<char>) -> Option<Seq<char>> {
    filled(text_field(json, key))
}

pub fn string_field(value: &Json, key: &str) -> (r: Option<String>)
    ensures
        option_text(r) == named_text(value@, key@),
{
    match get_text(value, key) {
        Some(text) => if text.as_str().is_empty() {
            None
        } else {
            Some(text)
        },
        None => None,
    }
}

pub open spec fn delivery_in(envelope: JsonView) -> Delivery {
    if named_text(envelope, "eventType"@) == Some(UPDATED_EVENT@) {
        Delivery::Update
    } else {
        Delivery::New
    }
}

/// `eventType` of an envelope: only `UPDATED`, spelled so, supersedes.
pub fn delivery_of(envelope: &Json) -> (r: Delivery)
    ensures
        r == delivery_in(envelope@),
{
    match string_field(envelope, "eventType") {
        Some(event) => if same_text(event.as_str(), UPDATED_EVENT) {
            Delivery::Update
        } else {
            Delivery::New
        },
        None => Delivery::New,
    }
}

/// Text cut to a notification's limit.
pub fn truncate_for_notification(text: &str, max: usize) -> (r: String)
    ensures
        r@ == shortened(text@, max as nat),
{
    shorten(text, max)
}

// ---------------------------------------------------------------------------------------
// What a click carries.

/// The fields of a context that a click carries: those that say what to open, and the request
/// that the buttons resolve.
pub open spec fn routing_key(key: Seq<char>) -> bool {
    key == "type"@ || key == "ticketId"@ || key == "dialogId"@ || key == "approvalRequestId"@
}

/// The routing fields of a context.
pub open spec fn routing(context: JsonView) -> Map<Seq<char>, JsonView> {
    Map::new(
        |key: Seq<char>| routing_key(key) && field(context, key) is Some,
        |key: Seq<char>| field(context, key)->0,
    )
}

/// A context in the shape every click carries it in.
pub open spec fn click_of(context: JsonView) -> JsonView {
    JsonView::Object(map!["context"@ => context])
}

/// What a click on an envelope's notification carries: the routing fields of its context, or
/// nothing where there are none.
pub open spec fn payload_of(envelope: JsonView) -> Option<JsonView> {
    match field(envelope, "context"@) {
        Some(context) => if routing(context) == Map::<Seq<char>, JsonView>::empty() {
            None
        } else {
            Some(click_of(JsonView::Object(routing(context))))
        },
        None => None,
    }
}

/// Carry one field of a context over, where it is there.
fn carry(members: &mut Vec<Member>, context: &Json, key: &str)
    requires
        !members_view(old(members)@).contains_key(key@),
    ensures
        members_view(final(members)@) == match field(context@, key@) {
            Some(value) => members_view(old(members)@).insert(key@, value),
            None => members_view(old(members)@),
        },
{
    if let Some(value) = get(context, key) {
        put(members, key, copy_of(value));
    }
}

/// A context in the shape every click carries it in.
fn wrap_context(context: Json) -> (r: Json)
    ensures
        r@ == click_of(context@),
{
    let mut members: Vec<Member> = Vec::new();
    put(&mut members, "context", context);
    Json::Object(members)
}

/// What a click carries. The rest of a context can be arbitrarily large, and what a click
/// carries has to fit an activation URI and every button of a toast.
pub fn click_payload(envelope: &Json) -> (r: Option<Json>)
    ensures
        owned_json(r) == payload_of(envelope@),
{
    match get(envelope, "context") {
        Some(context) => {
            proof {
                reveal_strlit("type");
                reveal_strlit("ticketId");
                reveal_strlit("dialogId");
                reveal_strlit("approvalRequestId");
                assert("type"@.len() == 4 && "approvalRequestId"@.len() == 17);
                assert("ticketId"@.len() == 8 && "dialogId"@.len() == 8);
                assert("ticketId"@[0] == 't' && "dialogId"@[0] == 'd');
            }
            let mut members: Vec<Member> = Vec::new();
            carry(&mut members, context, "approvalRequestId");
            carry(&mut members, context, "dialogId");
            carry(&mut members, context, "ticketId");
            carry(&mut members, context, "type");
            assert(members_view(members@) =~= routing(context@));
            if members.len() == 0 {
                assert(routing(context@) =~= Map::<Seq<char>, JsonView>::empty());
                None
            } else {
                proof {
                    assert(members_view(members@).contains_key(members@[0].key@));
                }
                Some(wrap_context(Json::Object(members)))
            }
        },
        None => None,
    }
}

/// The URI that a toast activates, around a context that is already written out.
pub open spec fn uri_around(context: Option<Seq<char>>) -> Seq<char> {
    match context {
        Some(json) => CLICK_URI_PREFIX@ + "?context="@ + encoded_strict(json),
        None => CLICK_URI_PREFIX@,
    }
}

/// The context of a click.
pub open spec fn context_of(click: Option<JsonView>) -> Option<JsonView> {
    match click {
        Some(click) => field(click, "context"@),
        None => None,
    }
}

/// The context of a click, written out.
pub open spec fn context_json(click: Option<JsonView>) -> Option<Seq<char>> {
    match context_of(click) {
        Some(context) => Some(json_printed(context)),
        None => None,
    }
}

/// What stands behind the question mark of an activation URI.
pub open spec fn click_query(uri: Seq<char>) -> Option<Seq<char>> {
    if CLICK_URI_PREFIX@.is_prefix_of(uri) {
        let rest = uri.skip(CLICK_URI_PREFIX@.len() as int);
        let bare = if "/"@.is_prefix_of(rest) {
            rest.skip(1)
        } else {
            rest
        };
        if "?"@.is_prefix_of(bare) {
            Some(bare.skip(1))
        } else {
            None
        }
    } else {
        None
    }
}

/// What follows `name` in the first of some parameters that starts with it.
pub open spec fn parameter(pairs: Seq<Seq<char>>, name: Seq<char>) -> Option<Seq<char>>
    decreases pairs.len(),
{
    if pairs.len() == 0 {
        None
    } else if name.is_prefix_of(pairs[0]) {
        Some(pairs[0].skip(name.len() as int))
    } else {
        parameter(pairs.skip(1), name)
    }
}

/// The context text that an activation URI carries.
pub open spec fn uri_context(uri: Seq<char>) -> Option<Seq<char>> {
    match click_query(uri) {
        Some(query) => match parameter(pieces(query, '&'), "context="@) {
            Some(text) => decoded(text),
            None => None,
        },
        None => None,
    }
}

/// What a click carries whose context reads as `context`: only an object is one.
pub open spec fn payload_with(context: Option<JsonView>) -> Option<JsonView> {
    match context {
        Some(JsonView::Object(members)) => Some(click_of(JsonView::Object(members))),
        _ => None,
    }
}

/// What an activation URI carries.
pub open spec fn uri_payload(uri: Seq<char>) -> Option<JsonView> {
    match uri_context(uri) {
        Some(text) => payload_with(json_of_text(text)),
        None => None,
    }
}

/// The URI around a context that is already written out.
pub fn click_uri_with(context: Option<&str>) -> (r: String)
    ensures
        r@ == uri_around(option_str(context)),
{
    let mut r = CLICK_URI_PREFIX.to_string();
    if let Some(json) = context {
        r.append("?context=");
        r.append(encode_strict(json).as_str());
    }
    r
}

/// `openframe-desktop://notify?context=<percent-encoded JSON>`. What it carries is what
/// [`parse_click_uri`] reads back, for a context that is an object without decimals in it.
pub fn click_uri(click: Option<&Json>) -> (r: String)
    ensures
        r@ == uri_around(context_json(option_json(click))),
        match context_of(option_json(click)) {
            Some(context) => context is Object && plain(context, DEPTH_LIMIT as nat) ==> uri_payload(r@)
                == Some(click_of(context)),
            None => uri_payload(r@) is None,
        },
{
    let context = match click {
        Some(click) => get(click, "context"),
        None => None,
    };
    match context {
        Some(context) => {
            let json = print(context);
            let r = click_uri_with(Some(json.as_str()));
            proof {
                click_uri_carries_its_context(json@);
            }
            r
        },
        None => {
            let r = click_uri_with(None);
            proof {
                bare_uri_carries_nothing();
            }
            r
        },
    }
}

/// The first of the parameters that starts with `name`, without it.
pub fn find_parameter(pairs: &Vec<String>, name: &str) -> (r: Option<String>)
    ensures
        option_text(r) == parameter(texts(pairs@), name@),
{
    let ghost all = texts(pairs@);
    let mut i: usize = 0;
    assert(all.skip(0) =~= all);
    while i < pairs.len()
        invariant
            all == texts(pairs@),
            i <= pairs@.len(),
            parameter(all.skip(i as int), name@) == parameter(all, name@),
        decreases pairs@.len() - i,
    {
        assert(all.skip(i as int)[0] == pairs@[i as int]@);
        if let Some(rest) = strip_prefix(pairs[i].as_str(), name) {
            return Some(rest);
        }
        assert(all.skip(i as int).skip(1) =~= all.skip(i + 1));
        i += 1;
    }
    None
}

fn query_of(uri: &str) -> (r: Option<String>)
    ensures
        option_text(r) == click_query(uri@),
{
    match strip_prefix(uri, CLICK_URI_PREFIX) {
        Some(rest) => {
            proof {
                reveal_strlit("/");
                reveal_strlit("?");
            }
            let bare = match strip_prefix(rest.as_str(), "/") {
                Some(bare) => bare,
                None => rest,
            };
            strip_prefix(bare.as_str(), "?")
        },
        None => None,
    }
}

/// The context text that an activation URI carries.
pub fn click_context(uri: &str) -> (r: Option<String>)
    ensures
        option_text(r) == uri_context(uri@),
{
    match query_of(uri) {
        Some(query) => {
            let pairs = split_on(query.as_str(), '&');
            match find_parameter(&pairs, "context=") {
                Some(text) => decode(text.as_str()),
                None => None,
            }
        },
        None => None,
    }
}

/// What a click carries once its context has been parsed.
pub fn payload_from_context(context: Option<Json>) -> (r: Option<Json>)
    ensures
        owned_json(r) == payload_with(owned_json(context)),
{
    match context {
        Some(context) => {
            let is_object = match &context {
                Json::Object(_) => true,
                _ => false,
            };
            if is_object {
                Some(wrap_context(context))
            } else {
                None
            }
        },
        None => None,
    }
}

/// Put a decoded context back into the shape every click carries it in.
pub fn payload_from_context_json(json: &str) -> (r: Option<Json>)
    ensures
        owned_json(r) == payload_with(json_of_text(json@)),
{
    payload_from_context(parse(json))
}

/// What an activation URI carries. Nothing for a bare or malformed one: the click still
/// raises the window, it just opens nothing.
pub fn parse_click_uri(uri: &str) -> (r: Option<Json>)
    ensures
        owned_json(r) == uri_payload(uri@),
{
    match click_context(uri) {
        Some(json) => payload_from_context_json(json.as_str()),
        None => None,
    }
}

/// A text without the separator is one piece.
proof fn lemma_one_piece(s: Seq<char>, c: char)
    requires
        !s.contains(c),
    ensures
        pieces(s, c) == seq![s],
{
    lemma_first_at(s, c);
}

/// Whatever a context's text holds, the URI made around it carries that text and nothing else.
pub proof fn click_uri_carries_its_context(json: Seq<char>)
    ensures
        uri_context(uri_around(Some(json))) == Some(json),
{
    let uri = uri_around(Some(json));
    let text = encoded_strict(json);
    let rest = "?context="@ + text;
    reveal_strlit("?context=");
    reveal_strlit("context=");
    reveal_strlit("/");
    reveal_strlit("?");
    assert(uri =~= CLICK_URI_PREFIX@ + rest);
    assert(uri.subrange(0, CLICK_URI_PREFIX@.len() as int) =~= CLICK_URI_PREFIX@);
    assert(uri.skip(CLICK_URI_PREFIX@.len() as int) =~= rest);
    assert(rest[0] == '?');
    assert(!"/"@.is_prefix_of(rest)) by {
        if "/"@.is_prefix_of(rest) {
            assert(rest.subrange(0, 1)[0] == '/');
        }
    }
    assert(rest.subrange(0, 1) =~= "?"@);
    let query = rest.skip(1);
    assert(query =~= "context="@ + text);
    encoded_text_is_plain(json);
    assert(!query.contains('&')) by {
        if query.contains('&') {
            let k = choose|k: int| 0 <= k < query.len() && query[k] == '&';
            if k < 8 {
                assert(query[k] == "context="@[k]);
            } else {
                assert(query[k] == text[k - 8]);
                assert(!structural(text[k - 8]));
            }
        }
    }
    lemma_one_piece(query, '&');
    assert(query.subrange(0, 8) =~= "context="@);
    assert(query.skip(8) =~= text);
    assert(pieces(query, '&')[0] == query);
    encoded_text_decodes_to_itself(json);
}

proof fn bare_uri_carries_nothing()
    ensures
        uri_payload(CLICK_URI_PREFIX@) is None,
{
    let rest = CLICK_URI_PREFIX@.skip(CLICK_URI_PREFIX@.len() as int);
    reveal_strlit("/");
    reveal_strlit("?");
    assert(rest.len() == 0);
    assert("/"@.len() == 1 && "?"@.len() == 1);
    assert(!"/"@.is_prefix_of(rest));
    assert(!"?"@.is_prefix_of(rest));
}

/// What a URI from a toast click carries; `None` for a URI that is not one of ours.
pub fn handle_notification_uri(uri: &str) -> (r: Option<Option<Json>>)
    ensures
        match r {
            Some(payload) => CLICK_URI_PREFIX@.is_prefix_of(uri@) && owned_json(payload)
                == uri_payload(uri@),
            None => !CLICK_URI_PREFIX@.is_prefix_of(uri@),
        },
{
    if !starts_with(uri, CLICK_URI_PREFIX) {
        return None;
    }
    Some(parse_click_uri(uri))
}

// ---------------------------------------------------------------------------------------
// How a click reaches the page.

/// What is kept between notifications.
#[derive(Debug, PartialEq)]
pub struct NotificationsPlane {
    pub unread: u32,
    /// Whether the page listens for clicks. Until it does they are parked.
    pub webview_click_ready: bool,
    pub stashed_click: Option<Json>,
}

pub struct PlaneView {
    pub unread: u32,
    pub ready: bool,
    pub stashed: Option<JsonView>,
}

impl View for NotificationsPlane {
    type V = PlaneView;

    open spec fn view(&self) -> PlaneView {
        PlaneView {
            unread: self.unread,
            ready: self.webview_click_ready,
            stashed: owned_json(self.stashed_click),
        }
    }
}

/// The click that is sent to the page at once.
pub open spec fn sent_now(plane: PlaneView, click: JsonView) -> Option<JsonView> {
    if plane.ready {
        Some(click)
    } else {
        None
    }
}

pub open spec fn after_click(plane: PlaneView, click: JsonView) -> PlaneView {
    if plane.ready {
        plane
    } else {
        PlaneView { stashed: Some(click), ..plane }
    }
}

pub open spec fn after_take(plane: PlaneView) -> PlaneView {
    PlaneView { ready: true, stashed: None, ..plane }
}

pub open spec fn after_reset(plane: PlaneView) -> PlaneView {
    PlaneView { ready: false, ..plane }
}

pub open spec fn after_session(plane: PlaneView) -> PlaneView {
    PlaneView { unread: 0, stashed: None, ..plane }
}

impl NotificationsPlane {
    /// Nothing unread, and no page that listens yet.
    pub fn new() -> (r: Self)
        ensures
            r@ == (PlaneView { unread: 0, ready: false, stashed: None }),
    {
        NotificationsPlane { unread: 0, webview_click_ready: false, stashed_click: None }
    }

    /// A click to pass on: handed back to be sent where the page listens, parked otherwise.
    pub fn emit_or_stash(&mut self, payload: Json) -> (r: Option<Json>)
        ensures
            owned_json(r) == sent_now(old(self)@, payload@),
            final(self)@ == after_click(old(self)@, payload@),
    {
        if self.webview_click_ready {
            Some(payload)
        } else {
            self.stashed_click = Some(payload);
            None
        }
    }

    /// The page has started to listen: clicks go straight to it from now on, and one that
    /// came before is handed over.
    pub fn take_startup_click(&mut self) -> (r: Option<Json>)
        ensures
            owned_json(r) == old(self)@.stashed,
            final(self)@ == after_take(old(self)@),
    {
        self.webview_click_ready = true;
        let mut taken: Option<Json> = None;
        std::mem::swap(&mut taken, &mut self.stashed_click);
        taken
    }

    /// A new document has started to load: what listened before is gone.
    pub fn reset_click_gate(&mut self)
        ensures
            final(self)@ == after_reset(old(self)@),
    {
        self.webview_click_ready = false;
    }

    /// The session is over: nothing of it is unread, and no click of it is passed on. Whether
    /// the page listens is not the session's to say: it says so once, when it loads.
    pub fn end_session(&mut self)
        ensures
            final(self)@ == after_session(old(self)@),
    {
        self.unread = 0;
        self.stashed_click = None;
    }

    /// The user is looking at the application.
    pub fn on_main_focused(&mut self)
        ensures
            final(self)@ == (PlaneView { unread: 0, ..old(self)@ }),
    {
        self.unread = 0;
    }
}

/// A click that comes before the page listens is handed over when it does, once; and from
/// then on clicks are sent at once.
pub proof fn early_click_arrives_once(plane: PlaneView, click: JsonView, next: JsonView)
    requires
        !plane.ready,
    ensures
        sent_now(plane, click) is None,
        after_click(plane, click).stashed == Some(click),
        after_take(after_click(plane, click)).stashed is None,
        sent_now(after_take(after_click(plane, click)), next) == Some(next),
        after_click(after_take(after_click(plane, click)), next).stashed is None,
{
}

/// A click is parked again from the moment a new document loads, and a parked one survives
/// the load.
pub proof fn reload_keeps_a_parked_click(plane: PlaneView, click: JsonView)
    ensures
        sent_now(after_reset(plane), click) is None,
        after_reset(after_click(after_reset(plane), click)).stashed == Some(click),
        after_reset(plane).stashed == plane.stashed,
{
}

/// The end of a session hands none of its clicks to the next, and a page that listens goes on
/// listening.
pub proof fn session_end_keeps_the_listener(plane: PlaneView)
    ensures
        after_session(plane).stashed is None,
        after_session(plane).unread == 0,
        after_session(plane).ready == plane.ready,
{
}

/// The badge for a number of unread notifications.
pub open spec fn badge_for(count: u32) -> Option<i64> {
    if count == 0 {
        None
    } else {
        Some(count as i64)
    }
}

/// A badge shows the number it is for, and there is none where nothing is unread.
pub proof fn badge_shows_the_count(count: u32)
    ensures
        count > 0 ==> badge_for(count) is Some && badge_for(count)->0 == count,
        badge_for(0) is None,
{
}

/// The badge for a number of unread notifications: none for zero.
pub fn badge(count: u32) -> (r: Option<i64>)
    ensures
        r == badge_for(count),
        r == if count == 0 {
            None
        } else {
            Some(count as i64)
        },
{
    if count == 0 {
        None
    } else {
        Some(count as i64)
    }
}

// ---------------------------------------------------------------------------------------
// What the user is told.

/// Whether the user is away from the main window, which is visible and focused or not.
pub open spec fn looks_away(window: Option<(bool, bool)>) -> bool {
    match window {
        Some((visible, focused)) => !(visible && focused),
        None => true,
    }
}

/// The user is spared a notification only while the main window is both visible and focused.
pub proof fn only_a_looked_at_window_spares_the_user(visible: bool, focused: bool)
    ensures
        !looks_away(Some((true, true))),
        !visible ==> looks_away(Some((visible, focused))),
        !focused ==> looks_away(Some((visible, focused))),
        looks_away(None),
{
}

/// Whether the user is to be interrupted: not while they look at the main window. Without a
/// window they cannot be.
pub fn should_notify(window: Option<(bool, bool)>) -> (r: bool)
    ensures
        r == looks_away(window),
        r == match window {
            Some((visible, focused)) => !(visible && focused),
            None => true,
        },
{
    match window {
        Some((visible, focused)) => !(visible && focused),
        None => true,
    }
}

/// What an envelope comes to.
#[derive(Debug, PartialEq)]
pub enum Notice {
    /// It has no title, so there is nothing to show.
    Untitled,
    /// The user is looking at the application.
    Unneeded,
    /// It is shown; `badge` is the new number of unread ones where it counts as one.
    Shown { badge: Option<u32>, post: Post },
}

pub enum NoticeView {
    Untitled,
    Unneeded,
    Shown { badge: Option<u32>, post: PostView },
}

impl View for Notice {
    type V = NoticeView;

    open spec fn view(&self) -> NoticeView {
        match *self {
            Notice::Untitled => NoticeView::Untitled,
            Notice::Unneeded => NoticeView::Unneeded,
            Notice::Shown { badge, post } => NoticeView::Shown { badge, post: post@ },
        }
    }
}

/// The settled requests once an envelope has been read: a verdict counts whether or not the
/// envelope is shown, and both places it may stand in are read.
pub open spec fn ids_after(ids: Seq<Seq<char>>, envelope: JsonView) -> Seq<Seq<char>> {
    noted(noted(ids, field(envelope, "attributes"@)), field(envelope, "context"@))
}

/// Whether an envelope is an update that lands on the banner it supersedes without alerting,
/// which only Windows can do.
pub open spec fn silent_update(envelope: JsonView, windows: bool) -> bool {
    delivery_in(envelope) == Delivery::Update && windows && approval_id(payload_of(envelope)) is Some
}

/// One more, as far as the counter goes.
pub open spec fn next_unread(unread: u32) -> u32 {
    if unread == u32::MAX {
        unread
    } else {
        (unread + 1) as u32
    }
}

/// What an envelope comes to, with `ids` the settled requests once it has been read.
pub open spec fn notice_of(
    ids: Seq<Seq<char>>,
    unread: u32,
    envelope: JsonView,
    user_id: Seq<char>,
    interrupt: bool,
    windows: bool,
) -> NoticeView {
    match named_text(envelope, "title"@) {
        None => NoticeView::Untitled,
        Some(title) => if !interrupt && !silent_update(envelope, windows) {
            NoticeView::Unneeded
        } else {
            NoticeView::Shown {
                badge: if delivery_in(envelope) == Delivery::New {
                    Some(next_unread(unread))
                } else {
                    None
                },
                post: PostView {
                    title,
                    body: match named_text(envelope, "description"@) {
                        Some(description) => shortened(description, BODY_CHARS as nat),
                        None => Seq::empty(),
                    },
                    click: payload_of(envelope),
                    user_id: Some(user_id),
                    kind: live_kind(ids, payload_of(envelope)),
                    delivery: delivery_in(envelope),
                },
            }
        },
    }
}

/// The number of unread notifications after one.
pub open spec fn unread_after(unread: u32, notice: NoticeView) -> u32 {
    match notice {
        NoticeView::Shown { badge: Some(count), .. } => count,
        _ => unread,
    }
}

/// Read an envelope. Everything with a title is shown, unless the user is already looking at
/// the application. `user_id` is whom it was delivered to; it rides along so that an action
/// taken much later can refuse to run under another session.
pub fn maybe_notify(
    resolved: &mut VecDeque<String>,
    plane: &mut NotificationsPlane,
    envelope: &Json,
    user_id: &str,
    interrupt: bool,
    windows: bool,
) -> (r: Notice)
    ensures
        ids(*final(resolved)) == ids_after(ids(*old(resolved)), envelope@),
        r@ == notice_of(
            ids(*final(resolved)),
            old(plane)@.unread,
            envelope@,
            user_id@,
            interrupt,
            windows,
        ),
        match r {
            Notice::Shown { badge, post } => {
                &&& field(envelope@, "title"@) == Some(JsonView::Text(post.title@))
                &&& match field(envelope@, "description"@) {
                    Some(JsonView::Text(text)) => post.body@ == if text.len() <= BODY_CHARS {
                        text
                    } else {
                        text.take(BODY_CHARS - 1).push('\u{2026}')
                    },
                    _ => post.body@ == Seq::<char>::empty(),
                }
                &&& option_text(post.user_id) == Some(user_id@)
            },
            _ => true,
        },
        final(plane)@ == (PlaneView {
            unread: unread_after(old(plane)@.unread, r@),
            ..old(plane)@
        }),
{
    note_resolution(resolved, get(envelope, "attributes"));
    note_resolution(resolved, get(envelope, "context"));
    let title = match string_field(envelope, "title") {
        Some(title) => title,
        None => {
            return Notice::Untitled;
        },
    };
    let delivery = delivery_of(envelope);
    let click = click_payload(envelope);
    let click_ref = match &click {
        Some(json) => Some(json),
        None => None,
    };
    let silent = delivery == Delivery::Update && windows && approval_request_id(click_ref).is_some();
    if !silent && !interrupt {
        return Notice::Unneeded;
    }
    let body = match string_field(envelope, "description") {
        Some(description) => truncate_for_notification(description.as_str(), BODY_CHARS),
        None => String::new(),
    };
    let badge = if delivery == Delivery::New {
        plane.unread = plane.unread.saturating_add(1);
        Some(plane.unread)
    } else {
        None
    };
    let kind = live_kind_for(resolved, click_ref);
    proof {
        notice_says_what_the_envelope_says(
            ids(*resolved),
            old(plane)@.unread,
            envelope@,
            user_id@,
            interrupt,
            windows,
            title@,
        );
    }
    Notice::Shown {
        badge,
        post: Post { title, body, click, user_id: Some(user_id.to_string()), kind, delivery },
    }
}

/// Read a message off the wire. One that is not JSON is dropped.
pub fn receive(
    resolved: &mut VecDeque<String>,
    plane: &mut NotificationsPlane,
    message: &[u8],
    user_id: &str,
    interrupt: bool,
    windows: bool,
) -> (r: Option<Notice>)
    ensures
        match json_parsed(message@) {
            Some(envelope) => {
                &&& r is Some
                &&& ids(*final(resolved)) == ids_after(ids(*old(resolved)), envelope)
                &&& r->0@ == notice_of(
                    ids(*final(resolved)),
                    old(plane)@.unread,
                    envelope,
                    user_id@,
                    interrupt,
                    windows,
                )
                &&& final(plane)@ == (PlaneView {
                    unread: unread_after(old(plane)@.unread, r->0@),
                    ..old(plane)@
                })
            },
            None => {
                &&& r is None
                &&& ids(*final(resolved)) == ids(*old(resolved))
                &&& final(plane)@ == old(plane)@
            },
        },
{
    match parse_bytes(message) {
        Some(envelope) => Some(
            maybe_notify(resolved, plane, &envelope, user_id, interrupt, windows),
        ),
        None => None,
    }
}

/// An update is never counted as another unread notification, and interrupts nobody who is
/// looking: it is shown then only where it lands silently on the banner it supersedes.
pub proof fn update_does_not_count_or_interrupt(
    ids: Seq<Seq<char>>,
    unread: u32,
    envelope: JsonView,
    user_id: Seq<char>,
    interrupt: bool,
    windows: bool,
)
    requires
        delivery_in(envelope) == Delivery::Update,
    ensures
        ({
            let notice = notice_of(ids, unread, envelope, user_id, interrupt, windows);
            &&& unread_after(unread, notice) == unread
            &&& notice is Shown && !interrupt ==> windows && approval_id(payload_of(envelope)) is Some
        }),
{
}

/// Whether an envelope says, in a source object of its own, that its request is settled.
pub open spec fn settles_itself(envelope: JsonView, source: Seq<char>) -> bool {
    settled_id(field(envelope, source)) is Some && approval_id(payload_of(envelope)) == settled_id(
        field(envelope, source),
    )
}

/// The id of the request that an envelope's click is about is the one its context names.
proof fn lemma_click_names_its_request(envelope: JsonView)
    requires
        approval_id(payload_of(envelope)) is Some,
    ensures
        field(envelope, "context"@) is Some,
        approval_id(payload_of(envelope)) == named_text(
            field(envelope, "context"@)->0,
            "approvalRequestId"@,
        ),
{
    let context = field(envelope, "context"@)->0;
    let carried = JsonView::Object(routing(context));
    assert(field(click_of(carried), "context"@) == Some(carried));
    assert(routing_key("approvalRequestId"@));
    assert(field(carried, "approvalRequestId"@) == field(context, "approvalRequestId"@));
}

/// An envelope that carries its own verdict, under its attributes or under its context, is
/// never shown with the decision it closes.
pub proof fn verdict_comes_without_buttons(
    known: Seq<Seq<char>>,
    unread: u32,
    envelope: JsonView,
    user_id: Seq<char>,
    interrupt: bool,
    windows: bool,
)
    requires
        ring_ok(known),
        settles_itself(envelope, "attributes"@) || settles_itself(envelope, "context"@),
    ensures
        match notice_of(ids_after(known, envelope), unread, envelope, user_id, interrupt, windows) {
            NoticeView::Shown { badge, post } => post.kind == ActionKind::Default,
            _ => true,
        },
{
    let source = field(envelope, "attributes"@);
    let context = field(envelope, "context"@);
    let first = noted(known, source);
    if let Some(id) = settled_id(source) {
        remembering_keeps_the_ring(known, id);
    }
    if let Some(id) = settled_id(context) {
        remembering_keeps_the_ring(first, id);
        // A verdict in the context is one on the request that the context names.
        lemma_click_names_its_request(envelope);
    }
}

// ---------------------------------------------------------------------------------------
// The subscription.

/// The subject that a user's notifications come on.
pub open spec fn subject_of(user_id: Seq<char>) -> Seq<char> {
    "user."@ + user_id + ".notification"@
}

/// What is to become of the subscription.
#[derive(Debug, PartialEq)]
pub enum SubscriptionStep {
    /// Nobody is signed in: drop what there is.
    Leave,
    /// The subscription is the right one.
    Keep,
    /// Subscribe, in place of another user's subscription where `replaces` says so.
    Subscribe { subject: String, replaces: bool },
}

pub enum SubscriptionView {
    Leave,
    Keep,
    Subscribe { subject: Seq<char>, replaces: bool },
}

impl View for SubscriptionStep {
    type V = SubscriptionView;

    open spec fn view(&self) -> SubscriptionView {
        match *self {
            SubscriptionStep::Leave => SubscriptionView::Leave,
            SubscriptionStep::Keep => SubscriptionView::Keep,
            SubscriptionStep::Subscribe { subject, replaces } => SubscriptionView::Subscribe {
                subject: subject@,
                replaces,
            },
        }
    }
}

/// What is to become of a subscription to `current` when `user_id` is signed in.
pub open spec fn subscription_for(current: Option<Seq<char>>, user_id: Option<Seq<char>>) -> SubscriptionView {
    match user_id {
        None => SubscriptionView::Leave,
        Some(user_id) => if current == Some(subject_of(user_id)) {
            SubscriptionView::Keep
        } else {
            SubscriptionView::Subscribe {
                subject: subject_of(user_id),
                replaces: current is Some,
            }
        },
    }
}

/// Decide on the subscription, on every connection: it survives a reconnect, and is replaced
/// only where the signed-in user changed.
pub fn ensure_subscription(current: Option<&str>, user_id: Option<&str>) -> (r: SubscriptionStep)
    ensures
        r@ == subscription_for(option_str(current), option_str(user_id)),
{
    let user_id = match user_id {
        Some(user_id) => user_id,
        None => {
            return SubscriptionStep::Leave;
        },
    };
    let mut subject = "user.".to_string();
    subject.append(user_id);
    subject.append(".notification");
    match current {
        Some(existing) => if same_text(existing, subject.as_str()) {
            SubscriptionStep::Keep
        } else {
            SubscriptionStep::Subscribe { subject, replaces: true }
        },
        None => SubscriptionStep::Subscribe { subject, replaces: false },
    }
}

/// Whether the slot is to be vacated once the router of `subject` has ended: only while it is
/// still that router's.
pub fn router_ended(current: Option<&str>, subject: &str) -> (r: bool)
    ensures
        r == (option_str(current) == Some(subject@)),
{
    match current {
        Some(current) => same_text(current, subject),
        None => false,
    }
}

/// Two users have two subjects, so that a subscription kept is the signed-in user's own.
pub proof fn kept_subscription_is_the_users(
    current: Option<Seq<char>>,
    user_id: Seq<char>,
    other: Seq<char>,
)
    requires
        subscription_for(current, Some(user_id)) is Keep,
        current == Some(subject_of(other)),
    ensures
        user_id == other,
{
    let a = subject_of(user_id);
    let n = "user."@.len() as int;
    let m = a.len() - ".notification"@.len();
    assert(subject_of(user_id).subrange(n, m) =~= user_id);
    assert(subject_of(other).subrange(n, m) =~= other);
}

/// What a shown notification says: the envelope's title as it stands, and its description, as it
/// stands where it has up to a hundred and forty characters, and otherwise its first hundred and
/// thirty-nine and an ellipsis. Without a description there is no body. It carries the user it
/// was delivered to and what a click on it opens.
pub proof fn notice_says_what_the_envelope_says(
    ids: Seq<Seq<char>>,
    unread: u32,
    envelope: JsonView,
    user_id: Seq<char>,
    interrupt: bool,
    windows: bool,
    title: Seq<char>,
)
    requires
        title.len() > 0,
        field(envelope, "title"@) == Some(JsonView::Text(title)),
        interrupt || silent_update(envelope, windows),
    ensures
        ({
            let notice = notice_of(ids, unread, envelope, user_id, interrupt, windows);
            &&& notice is Shown
            &&& notice->post.title == title
            &&& match field(envelope, "description"@) {
                Some(JsonView::Text(text)) => {
                    &&& text.len() <= 140 ==> notice->post.body == text
                    &&& text.len() > 140 ==> notice->post.body == text.take(139).push('\u{2026}')
                },
                _ => notice->post.body.len() == 0,
            }
            &&& notice->post.user_id == Some(user_id)
            &&& notice->post.click == payload_of(envelope)
            &&& notice->post.kind == live_kind(ids, payload_of(envelope))
        }),
{
}

/// Whether an envelope is shown. One without a title never is. One with a title is shown where
/// the user may be interrupted; where not, only an update of a decision is, on Windows.
pub proof fn only_a_titled_envelope_is_shown(
    ids: Seq<Seq<char>>,
    unread: u32,
    envelope: JsonView,
    user_id: Seq<char>,
    windows: bool,
    title: Seq<char>,
)
    ensures
        ({
            let calm = notice_of(ids, unread, envelope, user_id, true, windows);
            let busy = notice_of(ids, unread, envelope, user_id, false, windows);
            &&& !(field(envelope, "title"@) matches Some(JsonView::Text(_))) ==> calm is Untitled
                && busy is Untitled
            &&& field(envelope, "title"@) == Some(JsonView::Text(Seq::<char>::empty()))
                ==> calm is Untitled && busy is Untitled
            &&& title.len() > 0 && field(envelope, "title"@) == Some(JsonView::Text(title)) ==> {
                &&& calm is Shown
                &&& busy is Shown <==> windows && approval_id(payload_of(envelope)) is Some
                    && field(envelope, "eventType"@) == Some(JsonView::Text("UPDATED"@))
                &&& busy is Shown || busy is Unneeded
            }
        }),
{
    reveal_strlit("UPDATED");
}

/// A new notification that is shown counts as one more unread; an update does not count, and
/// neither does what is not shown. Only an `eventType` of `UPDATED`, spelled so, is an update.
pub proof fn new_notices_count_once(
    ids: Seq<Seq<char>>,
    unread: u32,
    envelope: JsonView,
    user_id: Seq<char>,
    interrupt: bool,
    windows: bool,
)
    ensures
        ({
            let notice = notice_of(ids, unread, envelope, user_id, interrupt, windows);
            let update = field(envelope, "eventType"@) == Some(JsonView::Text("UPDATED"@));
            &&& delivery_in(envelope) == (if update {
                Delivery::Update
            } else {
                Delivery::New
            })
            &&& notice is Shown ==> notice->post.delivery == delivery_in(envelope)
            &&& notice is Shown && !update && unread < u32::MAX ==> notice->badge == Some(
                (unread + 1) as u32,
            ) && unread_after(unread, notice) == unread + 1
            &&& notice is Shown && update ==> notice->badge is None && unread_after(unread, notice)
                == unread
            &&& !(notice is Shown) ==> unread_after(unread, notice) == unread
            &&& unread == u32::MAX ==> unread_after(unread, notice) == unread
        }),
{
    reveal_strlit("UPDATED");
}

/// What a click carries: of the envelope's context the type, the ticket, the conversation and the
/// request, each as it stands there, and nothing else. Where the context has none of them, and
/// where there is no context, a click carries nothing.
pub proof fn click_carries_the_routing_fields(
    envelope: JsonView,
    context: JsonView,
    key: Seq<char>,
)
    requires
        field(envelope, "context"@) == Some(context),
    ensures
        ({
            let routes = key == "type"@ || key == "ticketId"@ || key == "dialogId"@ || key
                == "approvalRequestId"@;
            let click = payload_of(envelope);
            &&& routes && field(context, key) is Some ==> click is Some
            &&& click is Some ==> field(click->0, "context"@) is Some && field(
                field(click->0, "context"@)->0,
                key,
            ) == (if routes {
                field(context, key)
            } else {
                None
            })
            &&& click is Some ==> field(context, "type"@) is Some || field(context, "ticketId"@)
                is Some || field(context, "dialogId"@) is Some || field(
                context,
                "approvalRequestId"@,
            ) is Some
        }),
{
    let kept = routing(context);
    if routing_key(key) && field(context, key) is Some {
        assert(kept.contains_key(key));
    }
    if field(context, "type"@) is None && field(context, "ticketId"@) is None && field(
        context,
        "dialogId"@,
    ) is None && field(context, "approvalRequestId"@) is None {
        assert(kept =~= Map::<Seq<char>, JsonView>::empty());
    }
}

/// An envelope without a context gives a click nothing to carry.
pub proof fn no_context_is_carried(envelope: JsonView)
    requires
        field(envelope, "context"@) is None,
    ensures
        payload_of(envelope) is None,
{
}

/// A context comes back in the shape every click carries it in, and only an object does.
pub proof fn only_an_object_is_a_context(context: JsonView)
    ensures
        payload_with(None) is None,
        payload_with(Some(context)) is Some <==> context is Object,
        context is Object ==> field(payload_with(Some(context))->0, "context"@) == Some(context)
            && context_of(payload_with(Some(context))) == Some(context),
        context_of(None) is None,
{
}

/// A URI that does not start as ours carries nothing.
pub proof fn foreign_uri_carries_nothing(uri: Seq<char>)
    requires
        !"openframe-desktop://notify"@.is_prefix_of(uri),
    ensures
        uri_context(uri) is None,
        uri_payload(uri) is None,
{
}

/// A URI of ours carries what its `context` parameter decodes to, wherever that stands among the
/// parameters, and also where the system put a slash before them.
#[verifier::rlimit(40)]
pub proof fn context_is_found_among_the_parameters(
    before: Seq<Seq<char>>,
    text: Seq<char>,
    after: Seq<Seq<char>>,
    slash: bool,
)
    requires
        !text.contains('&'),
        forall|i: int|
            0 <= i < before.len() ==> !(#[trigger] before[i]).contains('&')
                && !"context="@.is_prefix_of(before[i]),
        forall|i: int| 0 <= i < after.len() ==> !(#[trigger] after[i]).contains('&'),
    ensures
        ({
            let pairs = before.push("context="@ + text) + after;
            let uri = "openframe-desktop://notify"@ + (if slash {
                "/?"@
            } else {
                "?"@
            }) + joined(pairs, "&"@);
            uri_context(uri) == decoded(text)
        }),
{
    reveal_strlit("context=");
    reveal_strlit("/?");
    reveal_strlit("/");
    reveal_strlit("?");
    reveal_strlit("&");
    let own = "context="@ + text;
    let pairs = before.push(own) + after;
    let query = joined(pairs, "&"@);
    let lead = if slash {
        "/?"@
    } else {
        "?"@
    };
    let prefix = "openframe-desktop://notify"@;
    let uri = prefix + lead + query;
    let rest = lead + query;
    assert(uri =~= prefix + rest);
    assert(uri.subrange(0, prefix.len() as int) =~= prefix);
    assert(uri.skip(prefix.len() as int) =~= rest);
    if slash {
        assert(rest.subrange(0, 1) =~= "/"@);
        assert(rest.skip(1) =~= "?"@ + query);
    } else {
        assert(!"/"@.is_prefix_of(rest)) by {
            if "/"@.is_prefix_of(rest) {
                assert(rest.subrange(0, 1)[0] == '/');
            }
        }
    }
    let bare = "?"@ + query;
    assert(bare.subrange(0, 1) =~= "?"@);
    assert(bare.skip(1) =~= query);
    assert(click_query(uri) == Some(query));
    assert(!own.contains('&')) by {
        if own.contains('&') {
            let k = choose|k: int| 0 <= k < own.len() && own[k] == '&';
            if k >= 8 {
                assert(text[k - 8] == '&');
            } else {
                assert(own[k] == "context="@[k]);
            }
        }
    }
    assert forall|i: int| 0 <= i < pairs.len() implies !(#[trigger] pairs[i]).contains('&') by {
        if i < before.len() {
            assert(pairs[i] == before[i]);
        } else if i == before.len() {
            assert(pairs[i] == own);
        } else {
            assert(pairs[i] == after[i - before.len() - 1]);
        }
    }
    assert("&"@ =~= seq!['&']);
    lemma_pieces_of_joined(pairs, '&');
    lemma_parameter_found(before, own, after, "context="@);
    assert(own.subrange(0, 8) =~= "context="@);
    assert(own.skip(8) =~= text);
}

proof fn lemma_parameter_found(
    before: Seq<Seq<char>>,
    own: Seq<char>,
    after: Seq<Seq<char>>,
    name: Seq<char>,
)
    requires
        forall|i: int| 0 <= i < before.len() ==> !name.is_prefix_of(#[trigger] before[i]),
        name.is_prefix_of(own),
    ensures
        parameter(before.push(own) + after, name) == Some(own.skip(name.len() as int)),
    decreases before.len(),
{
    let pairs = before.push(own) + after;
    if before.len() == 0 {
        assert(pairs[0] == own);
    } else {
        assert(pairs[0] == before[0]);
        assert(pairs.skip(1) =~= before.skip(1).push(own) + after);
        lemma_parameter_found(before.skip(1), own, after, name);
    }
}

/// What is unread is the user's to clear: a click, a page that starts to listen and a page that
/// reloads leave the count alone, and only the end of a session clears it among them. A page that
/// has started to listen listens until it reloads.
pub proof fn clicks_leave_the_count_alone(plane: PlaneView, click: JsonView)
    ensures
        after_click(plane, click).unread == plane.unread,
        after_take(plane).unread == plane.unread,
        after_reset(plane).unread == plane.unread,
        after_click(plane, click).ready == plane.ready,
        after_take(plane).ready,
        !after_reset(plane).ready,
        plane.ready ==> sent_now(plane, click) == Some(click) && after_click(plane, click)
            == plane,
{
}

/// Which subscription a user needs: their own subject. A subscription to it is kept, any other is
/// replaced by it, and where nobody is signed in there is none.
pub proof fn users_subscribe_to_their_own_subject(
    current: Option<Seq<char>>,
    user_id: Seq<char>,
)
    ensures
        ({
            let subject = "user."@ + user_id + ".notification"@;
            let step = subscription_for(current, Some(user_id));
            &&& current == Some(subject) ==> step is Keep
            &&& current != Some(subject) ==> step == (SubscriptionView::Subscribe {
                subject,
                replaces: current is Some,
            })
            &&& subscription_for(current, None) is Leave
        }),
{
}

/// The URI of a notification without a context is the bare one, and with one it starts as that
/// and carries the context behind it.
pub proof fn uri_starts_as_ours(json: Seq<char>)
    ensures
        uri_around(None) == "openframe-desktop://notify"@,
        "openframe-desktop://notify"@.is_prefix_of(uri_around(Some(json))),
{
    let uri = uri_around(Some(json));
    let prefix = "openframe-desktop://notify"@;
    assert(prefix =~= uri.subrange(0, prefix.len() as int));
}

/// What is written out of a click is its context, where it has one.
pub proof fn only_the_context_is_written_out(click: JsonView)
    ensures
        context_json(None) is None,
        match field(click, "context"@) {
            Some(context) => context_json(Some(click)) == Some(json_printed(context)),
            None => context_json(Some(click)) is None,
        },
{
}

/// An envelope settles the requests whose verdicts it carries, under its attributes and under its
/// context, and no other: one that is news is known from then on, and whatever else is known was
/// before.
pub proof fn both_places_of_a_verdict_are_read(
    known: Seq<Seq<char>>,
    envelope: JsonView,
    id: Seq<char>,
)
    requires
        ring_ok(known),
    ensures
        settled_id(field(envelope, "attributes"@)) == Some(id) && !known.contains(id) ==> ids_after(
            known,
            envelope,
        ).contains(id),
        settled_id(field(envelope, "context"@)) == Some(id) ==> ids_after(known, envelope).contains(
            id,
        ),
        ids_after(known, envelope).contains(id) ==> known.contains(id) || settled_id(
            field(envelope, "attributes"@),
        ) == Some(id) || settled_id(field(envelope, "context"@)) == Some(id),
        settled_id(field(envelope, "attributes"@)) is None && settled_id(
            field(envelope, "context"@),
        ) is None ==> ids_after(known, envelope) == known,
{
    let a = settled_id(field(envelope, "attributes"@));
    let b = settled_id(field(envelope, "context"@));
    let first = noted(known, field(envelope, "attributes"@));
    if let Some(x) = a {
        remembering_keeps_the_ring(known, x);
        lemma_remembered_only(known, x, id);
        if let Some(y) = b {
            oldest_is_forgotten_first(first, y, x);
            if !known.contains(x) && first.len() == RESOLVED_MEMORY {
                // What was remembered last stands last, and a full ring is longer than one.
                assert(first[first.len() - 1] == x);
                assert(first[0] != x);
            }
        }
    }
    if let Some(y) = b {
        remembering_keeps_the_ring(first, y);
        lemma_remembered_only(first, y, id);
    }
}

proof fn lemma_remembered_only(known: Seq<Seq<char>>, added: Seq<char>, id: Seq<char>)
    ensures
        remembered(known, added).contains(id) ==> known.contains(id) || id == added,
{
    let after = remembered(known, added);
    if after.contains(id) && !known.contains(added) {
        let k = choose|k: int| 0 <= k < after.len() && after[k] == id;
        if k < after.len() - 1 {
            let shift: int = if known.len() >= RESOLVED_MEMORY {
                1
            } else {
                0
            };
            assert(after[k] == known[k + shift]);
        }
    }
}

} // verus!
