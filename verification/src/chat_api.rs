//! The chat service calls behind a notification's buttons: who may make them, what they
//! send, and what their answer means.
//!
//! Their base is the tenant host learned at login, not the shared auth host.
use vstd::prelude::*;
use vstd::string::*;

use crate::json::{
    field, get_text, json_of_text, json_printed, parse, print, put, text, text_field, Json, JsonView,
    Member,
};
use crate::percent::{
    decoded, encode, encoded, encoded_text_decodes_to_itself, encoded_text_is_plain, structural,
};
use crate::text::{option_text, shorten, shortened, trim, trimmed, unit_result};
use crate::tokens::{
    access_exp, access_exp_secs, expired_at, is_success, jwt_claim, jwt_claim_str, now_secs, past,
    success, NativeAuthTokens,
};

verus! {

/// Seconds a call may take.
pub const HTTP_TIMEOUT: u64 = 15;

/// An error's text ends up in a notification banner, which shows a few lines.
pub const MAX_ERROR_CHARS: usize = 160;

/// The claim of an access token that names its user.
pub const USER_CLAIM: &'static str = "userId";

/// A live signed-in session: a usable bearer and the user it belongs to.
#[derive(Debug, PartialEq)]
pub struct Session {
    pub access_token: String,
    pub user_id: String,
}

pub struct SessionView {
    pub access_token: Seq<char>,
    pub user_id: Seq<char>,
}

impl View for Session {
    type V = SessionView;

    open spec fn view(&self) -> SessionView {
        SessionView { access_token: self.access_token@, user_id: self.user_id@ }
    }
}

pub open spec fn session_option(session: Option<Session>) -> Option<SessionView> {
    match session {
        Some(session) => Some(session@),
        None => None,
    }
}

/// The session that an access token stands for: none without a token, with one past its
/// expiry, or with one that names no user.
pub open spec fn session_with(
    access: Option<Seq<char>>,
    expired: bool,
    user_id: Option<Seq<char>>,
) -> Option<SessionView> {
    match (access, user_id) {
        (Some(access_token), Some(user_id)) => if expired {
            None
        } else {
            Some(SessionView { access_token, user_id })
        },
        _ => None,
    }
}

/// The session behind an access token that expires at `exp` and names `user_id`, at `now`.
pub fn session_at(access: Option<String>, exp: Option<u64>, user_id: Option<String>, now: u64) -> (r:
    Option<Session>)
    ensures
        session_option(r) == session_with(option_text(access), past(exp, now), option_text(user_id)),
{
    if expired_at(exp, now) {
        return None;
    }
    match (access, user_id) {
        (Some(access_token), Some(user_id)) => Some(Session { access_token, user_id }),
        _ => None,
    }
}

/// The user that an access token names.
pub open spec fn user_of(access: Option<Seq<char>>) -> Option<Seq<char>> {
    match access {
        Some(token) => jwt_claim(token, USER_CLAIM@),
        None => None,
    }
}

/// The session the application can act as right now, or none where nobody is signed in. A
/// notification is no authority to act; the session behind it is. Where the token's expiry
/// can be read, the clock decides whether it is live.
pub fn active_session(fresh: NativeAuthTokens) -> (r: Option<Session>)
    ensures
        exists|now: u64|
            session_option(r) == session_with(
                fresh@.access,
                #[trigger] past(access_exp(fresh@), now),
                user_of(fresh@.access),
            ),
        access_exp(fresh@) is None ==> session_option(r) == session_with(
            fresh@.access,
            false,
            user_of(fresh@.access),
        ),
{
    let exp = access_exp_secs(&fresh);
    let user_id = match &fresh.access_token {
        Some(token) => jwt_claim_str(token.as_str(), USER_CLAIM),
        None => None,
    };
    let now: u64 = now_secs();
    let ghost user = option_text(user_id);
    let r = session_at(fresh.access_token, exp, user_id, now);
    assert(session_option(r) == session_with(fresh@.access, past(access_exp(fresh@), now), user));
    r
}

// ---------------------------------------------------------------------------------------
// What is sent.

/// A call to make: a POST of a JSON body under a bearer.
#[derive(Debug, PartialEq)]
pub struct ApiRequest {
    pub url: String,
    pub bearer: String,
    pub body: String,
}

pub struct RequestView {
    pub url: Seq<char>,
    pub bearer: Seq<char>,
    pub body: Seq<char>,
}

impl View for ApiRequest {
    type V = RequestView;

    open spec fn view(&self) -> RequestView {
        RequestView { url: self.url@, bearer: self.bearer@, body: self.body@ }
    }
}

/// A request, or why none can be made.
pub open spec fn request_result(r: Result<ApiRequest, String>) -> Result<RequestView, Seq<char>> {
    match r {
        Ok(request) => Ok(request@),
        Err(why) => Err(why@),
    }
}

/// The call to a path of the tenant host.
pub open spec fn request_to(
    base: Option<Seq<char>>,
    session: SessionView,
    path: Seq<char>,
    body: Seq<char>,
) -> Result<RequestView, Seq<char>> {
    match base {
        Some(base) => Ok(
            RequestView { url: base + path, bearer: session.access_token, body },
        ),
        None => Err("this install has not learned a tenant host yet"@),
    }
}

/// A call with a body that is already written out.
pub fn post_json(base: Option<String>, session: &Session, path: &str, body: String) -> (r: Result<
    ApiRequest,
    String,
>)
    ensures
        request_result(r) == request_to(option_text(base), session@, path@, body@),
{
    match base {
        Some(base) => {
            let mut url = base;
            url.append(path);
            Ok(ApiRequest { url, bearer: session.access_token.clone(), body })
        },
        None => Err("this install has not learned a tenant host yet".to_string()),
    }
}

/// Where an approval request is resolved. The id is escaped rather than trusted.
pub open spec fn approval_path(request_id: Seq<char>) -> Seq<char> {
    "/chat/api/v1/approval-requests/"@ + encoded(request_id) + "/approve"@
}

/// What resolving an approval request sends.
pub open spec fn approval_body(approve: bool) -> JsonView {
    JsonView::Object(map!["approve"@ => JsonView::Bool(approve)])
}

/// The call that resolves an approval request, either way.
pub fn resolve_approval(
    base: Option<String>,
    session: &Session,
    request_id: &str,
    approve: bool,
) -> (r: Result<ApiRequest, String>)
    ensures
        request_result(r) == request_to(
            option_text(base),
            session@,
            approval_path(request_id@),
            json_printed(approval_body(approve)),
        ),
{
    let mut path = "/chat/api/v1/approval-requests/".to_string();
    path.append(encode(request_id).as_str());
    path.append("/approve");
    let mut members: Vec<Member> = Vec::new();
    put(&mut members, "approve", Json::Bool(approve));
    let body = Json::Object(members);
    assert(body@ == approval_body(approve));
    post_json(base, session, path.as_str(), print(&body))
}

/// Where a message to a conversation is sent.
pub const MESSAGES_PATH: &'static str = "/chat/api/v1/messages";

/// What a message to a conversation of the admin assistant sends.
pub open spec fn message_body(dialog_id: Seq<char>, content: Seq<char>) -> JsonView {
    JsonView::Object(
        map![
            "dialogId"@ => JsonView::Text(dialog_id),
            "content"@ => JsonView::Text(content),
            "chatType"@ => JsonView::Text("ADMIN_AI_CHAT"@),
        ],
    )
}

/// The call that sends a message to a conversation.
pub fn send_message(base: Option<String>, session: &Session, dialog_id: &str, content: &str) -> (r:
    Result<ApiRequest, String>)
    ensures
        request_result(r) == request_to(
            option_text(base),
            session@,
            MESSAGES_PATH@,
            json_printed(message_body(dialog_id@, content@)),
        ),
{
    let mut members: Vec<Member> = Vec::new();
    proof {
        reveal_strlit("dialogId");
        reveal_strlit("content");
        reveal_strlit("chatType");
        assert("dialogId"@[0] == 'd' && "content"@[0] == 'c' && "content"@[1] == 'o');
        assert("chatType"@[0] == 'c' && "chatType"@[1] == 'h');
    }
    put(&mut members, "dialogId", text(dialog_id));
    put(&mut members, "content", text(content));
    put(&mut members, "chatType", text("ADMIN_AI_CHAT"));
    let body = Json::Object(members);
    assert(body@ == message_body(dialog_id@, content@));
    post_json(base, session, MESSAGES_PATH, print(&body))
}

// ---------------------------------------------------------------------------------------
// What comes back.

/// The error text of a parsed body: `message`, else `error`, trimmed and shortened. A blank
/// one says nothing.
pub open spec fn error_in(parsed: Option<JsonView>) -> Option<Seq<char>> {
    match parsed {
        Some(json) => {
            let said = match text_field(json, "message"@) {
                Some(message) => Some(message),
                None => text_field(json, "error"@),
            };
            match said {
                Some(said) => if trimmed(said).len() == 0 {
                    None
                } else {
                    Some(shortened(trimmed(said), MAX_ERROR_CHARS as nat))
                },
                None => None,
            }
        },
        None => None,
    }
}

/// The error text of a body once it has been parsed.
pub fn error_from(parsed: Option<Json>) -> (r: Option<String>)
    ensures
        option_text(r) == error_in(
            match parsed {
                Some(json) => Some(json@),
                None => None,
            },
        ),
{
    match parsed {
        Some(json) => {
            let said = match get_text(&json, "message") {
                Some(message) => Some(message),
                None => get_text(&json, "error"),
            };
            match said {
                Some(said) => {
                    let bare = trim(said.as_str());
                    if bare.as_str().is_empty() {
                        None
                    } else {
                        Some(shorten(bare.as_str(), MAX_ERROR_CHARS))
                    }
                },
                None => None,
            }
        },
        None => None,
    }
}

/// The gateway's error text: `message`, else `error`.
pub fn error_message(body: &str) -> (r: Option<String>)
    ensures
        option_text(r) == error_in(json_of_text(body@)),
{
    error_from(parse(body))
}

/// What came back of a call.
#[derive(Debug, PartialEq)]
pub enum ApiReply {
    /// The call could not be prepared.
    NotSent(String),
    /// The gateway could not be reached.
    Unreachable,
    /// The gateway answered: the status as a number and in words, and the body where it could
    /// be read.
    Answered { code: u16, status: String, body: Option<String> },
}

/// What a call comes to, given the error text of its body.
pub open spec fn call_result(reply: ApiReply, said: Option<Seq<char>>) -> Result<(), Seq<char>> {
    match reply {
        ApiReply::NotSent(why) => Err(why@),
        ApiReply::Unreachable => Err("the gateway could not be reached"@),
        ApiReply::Answered { code, status, body } => if success(code) {
            Ok(())
        } else {
            match said {
                Some(said) => Err(said),
                None => Err("HTTP "@ + status@),
            }
        },
    }
}

/// The error text in the body of a reply.
pub open spec fn said_in(reply: ApiReply) -> Option<Seq<char>> {
    match reply {
        ApiReply::Answered { code, status, body } => match body {
            Some(body) => error_in(json_of_text(body@)),
            None => None,
        },
        _ => None,
    }
}

/// The error text in the body of a reply, where there is one.
pub fn reply_error(reply: &ApiReply) -> (r: Option<String>)
    ensures
        option_text(r) == said_in(*reply),
{
    match reply {
        ApiReply::Answered { code: _, status: _, body: Some(body) } => error_message(body.as_str()),
        _ => None,
    }
}

/// What a call comes to once the error text of its body has been read. Errors reach the
/// user, so they carry the gateway's own words where there are any.
pub fn outcome_of(reply: ApiReply, said: Option<String>) -> (r: Result<(), String>)
    ensures
        unit_result(r) == call_result(reply, option_text(said)),
{
    match reply {
        ApiReply::NotSent(why) => Err(why),
        ApiReply::Unreachable => Err("the gateway could not be reached".to_string()),
        ApiReply::Answered { code, status, body: _ } => if is_success(code) {
            Ok(())
        } else {
            match said {
                Some(said) => Err(said),
                None => {
                    let mut why = "HTTP ".to_string();
                    why.append(status.as_str());
                    Err(why)
                },
            }
        },
    }
}

/// What resolving an approval request amounted to.
#[derive(Clone, Copy, Debug, PartialEq, Eq, Structural)]
pub enum ApprovalOutcome {
    Resolved,
    /// Somebody else decided it first.
    AlreadyResolved,
}

/// What an approval's call comes to. A conflict is no failure: it says that the request is
/// already resolved.
pub open spec fn approval_result(reply: ApiReply, said: Option<Seq<char>>) -> Result<
    ApprovalOutcome,
    Seq<char>,
> {
    match reply {
        ApiReply::Answered { code: 409, .. } => Ok(ApprovalOutcome::AlreadyResolved),
        _ => match call_result(reply, said) {
            Ok(_) => Ok(ApprovalOutcome::Resolved),
            Err(why) => Err(why),
        },
    }
}

/// An outcome, or the words of an error, by their characters.
pub open spec fn approval_view(r: Result<ApprovalOutcome, String>) -> Result<
    ApprovalOutcome,
    Seq<char>,
> {
    match r {
        Ok(outcome) => Ok(outcome),
        Err(why) => Err(why@),
    }
}

/// What an approval's call comes to once the error text of its body has been read.
pub fn approval_of(reply: ApiReply, said: Option<String>) -> (r: Result<ApprovalOutcome, String>)
    ensures
        approval_view(r) == approval_result(reply, option_text(said)),
{
    let conflict = match &reply {
        ApiReply::Answered { code, status: _, body: _ } => *code == 409,
        _ => false,
    };
    if conflict {
        return Ok(ApprovalOutcome::AlreadyResolved);
    }
    match outcome_of(reply, said) {
        Ok(_) => Ok(ApprovalOutcome::Resolved),
        Err(why) => Err(why),
    }
}

/// An id cannot bring a path or a parameter of its own into the URL it stands in, and two
/// ids have two paths.
pub proof fn approval_path_holds_one_id(a: Seq<char>, b: Seq<char>)
    ensures
        approval_path(a) == approval_path(b) ==> a == b,
        forall|i: int| 0 <= i < encoded(a).len() ==> !structural(#[trigger] encoded(a)[i]),
{
    encoded_text_is_plain(a);
    encoded_text_decodes_to_itself(a);
    encoded_text_decodes_to_itself(b);
    if approval_path(a) == approval_path(b) {
        let head = "/chat/api/v1/approval-requests/"@;
        let tail = "/approve"@;
        let n = head.len() as int;
        let m = approval_path(a).len() - tail.len();
        assert(approval_path(a).subrange(n, m) =~= encoded(a));
        assert(approval_path(b).subrange(n, m) =~= encoded(b));
    }
}

/// A session is live where there is an access token, it has not expired and it names a user: it
/// then acts as that user under that token. Nothing less is a session.
pub proof fn session_is_the_tokens_own(
    access: Option<Seq<char>>,
    exp: Option<u64>,
    user_id: Option<Seq<char>>,
    now: u64,
)
    ensures
        ({
            let session = session_with(access, past(exp, now), user_id);
            &&& session is Some <==> access is Some && user_id is Some && (exp is None || now
                < exp->0)
            &&& session is Some ==> session->0.access_token == access->0 && session->0.user_id
                == user_id->0
        }),
{
}

/// A call goes to its path on the tenant host, under the session's own token, with its body as
/// it stands. Without a tenant host there is no call.
pub proof fn calls_go_to_the_tenant(
    base: Option<Seq<char>>,
    session: SessionView,
    path: Seq<char>,
    body: Seq<char>,
)
    ensures
        ({
            let call = request_to(base, session, path, body);
            &&& base is Some ==> call is Ok && call->Ok_0.url == base->0 + path
                && call->Ok_0.bearer == session.access_token && call->Ok_0.body == body
            &&& base is None ==> call == Err::<RequestView, Seq<char>>(
                "this install has not learned a tenant host yet"@,
            )
        }),
{
}

/// What the two calls say: a decision says which way it went, and a message says what it is, to
/// which conversation it goes, and that the assistant of the administrators is meant.
pub proof fn bodies_say_what_was_decided(
    approve: bool,
    dialog: Seq<char>,
    content: Seq<char>,
    key: Seq<char>,
)
    ensures
        field(approval_body(approve), "approve"@) == Some(JsonView::Bool(approve)),
        field(approval_body(approve), key) is Some ==> key == "approve"@,
        field(message_body(dialog, content), "dialogId"@) == Some(JsonView::Text(dialog)),
        field(message_body(dialog, content), "content"@) == Some(JsonView::Text(content)),
        field(message_body(dialog, content), "chatType"@) == Some(JsonView::Text("ADMIN_AI_CHAT"@)),
        field(message_body(dialog, content), key) is Some ==> key == "dialogId"@ || key
            == "content"@ || key == "chatType"@,
{
    reveal_strlit("dialogId");
    reveal_strlit("content");
    reveal_strlit("chatType");
    assert("dialogId"@[0] == 'd' && "content"@[0] == 'c' && "content"@[1] == 'o');
    assert("chatType"@[0] == 'c' && "chatType"@[1] == 'h');
}

/// A request is resolved under its own id: the path decodes to it.
pub proof fn approval_path_names_its_request(request_id: Seq<char>)
    ensures
        ({
            let path = approval_path(request_id);
            let head = "/chat/api/v1/approval-requests/"@;
            let tail = "/approve"@;
            &&& head.is_prefix_of(path)
            &&& tail.is_suffix_of(path)
            &&& decoded(path.subrange(head.len() as int, path.len() - tail.len())) == Some(
                request_id,
            )
        }),
{
    let path = approval_path(request_id);
    let head = "/chat/api/v1/approval-requests/"@;
    let tail = "/approve"@;
    encoded_text_decodes_to_itself(request_id);
    assert(path.subrange(head.len() as int, path.len() - tail.len()) =~= encoded(request_id));
    assert(head =~= path.subrange(0, head.len() as int));
    assert(tail =~= path.subrange(path.len() - tail.len(), path.len() as int));
}

/// What the user is told of a failed call are the gateway's own words: its message, or its error
/// where it has no message, without the blanks around it and cut to what a banner holds. A blank
/// text says nothing.
pub proof fn gateway_speaks_in_its_own_words(body: JsonView, said: Seq<char>)
    requires
        field(body, "message"@) == Some(JsonView::Text(said)) || (!(field(body, "message"@)
            matches Some(JsonView::Text(_))) && field(body, "error"@) == Some(
            JsonView::Text(said),
        )),
    ensures
        trimmed(said).len() == 0 ==> error_in(Some(body)) is None,
        0 < trimmed(said).len() <= 160 ==> error_in(Some(body)) == Some(trimmed(said)),
        trimmed(said).len() > 160 ==> error_in(Some(body)) == Some(
            trimmed(said).take(159).push('\u{2026}'),
        ),
{
}

/// A body that is no JSON, or holds neither a message nor an error in text, says nothing.
pub proof fn other_bodies_say_nothing(body: JsonView)
    ensures
        error_in(None) is None,
        !(field(body, "message"@) matches Some(JsonView::Text(_))) && !(field(body, "error"@)
            matches Some(JsonView::Text(_))) ==> error_in(Some(body)) is None,
{
}

/// What a reply comes to, by its status. A call succeeds where the gateway answered in the two
/// hundreds and nowhere else; a failed one tells the gateway's words where there are any, and
/// the status otherwise. Of a decision, a conflict is no failure: another press came first.
pub proof fn replies_are_read_by_their_status(reply: ApiReply, said: Option<Seq<char>>)
    ensures
        match reply {
            ApiReply::NotSent(why) => call_result(reply, said) == Err::<(), Seq<char>>(why@)
                && approval_result(reply, said) == Err::<ApprovalOutcome, Seq<char>>(why@),
            ApiReply::Unreachable => call_result(reply, said) == Err::<(), Seq<char>>(
                "the gateway could not be reached"@,
            ) && approval_result(reply, said) == Err::<ApprovalOutcome, Seq<char>>(
                "the gateway could not be reached"@,
            ),
            ApiReply::Answered { code, status, body } => {
                let why = if said is Some {
                    said->0
                } else {
                    "HTTP "@ + status@
                };
                &&& 200 <= code < 300 ==> call_result(reply, said) is Ok && approval_result(
                    reply,
                    said,
                ) == Ok::<ApprovalOutcome, Seq<char>>(ApprovalOutcome::Resolved)
                &&& code < 200 || code >= 300 ==> call_result(reply, said) == Err::<
                    (),
                    Seq<char>,
                >(why)
                &&& code == 409 ==> approval_result(reply, said) == Ok::<
                    ApprovalOutcome,
                    Seq<char>,
                >(ApprovalOutcome::AlreadyResolved)
                &&& (code < 200 || code >= 300) && code != 409 ==> approval_result(reply, said)
                    == Err::<ApprovalOutcome, Seq<char>>(why)
                &&& body is None ==> said_in(reply) is None
                &&& body is Some ==> said_in(reply) == error_in(json_of_text(body->0@))
            },
        },
        !(reply is Answered) ==> said_in(reply) is None,
{
}

/// A session acts as the user that its access token names under `userId`, and as nobody where
/// there is no token.
pub proof fn token_names_its_user(token: Seq<char>)
    ensures
        user_of(Some(token)) == jwt_claim(token, "userId"@),
        user_of(None) is None,
{
}

} // verus!
