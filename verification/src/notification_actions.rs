//! The buttons of a notification: which ones it earns, what a pressed one does, and how the
//! outcome comes back.
use std::collections::VecDeque;

use vstd::prelude::*;
use vstd::string::*;

use crate::chat_api::{
    approval_body, approval_of, approval_path, approval_result, call_result, message_body,
    outcome_of, reply_error, request_to, resolve_approval, said_in, send_message, ApiReply,
    ApiRequest, ApprovalOutcome, RequestView, Session, SessionView, MESSAGES_PATH,
};
use crate::json::{copy_of, field, get, json_printed, put, Json, JsonView, Member};
use crate::notifications::{named_text, string_field, Delivery};
use crate::text::{lowered, option_text, same_ignoring_case, same_text};

verus! {

/// Event that names the conversation a completed press changed.
pub const DIALOG_CHANGED_EVENT: &'static str = "chat:dialog-changed";

/// The `context.type` values that earn buttons.
pub const APPROVAL_CONTEXT_TYPE: &'static str = "ADMIN_APPROVAL_REQUEST";

pub const MESSAGE_CONTEXT_TYPE: &'static str = "ADMIN_AI_MESSAGE";

/// Which button set a notification gets.
#[derive(Clone, Copy, PartialEq, Eq, Debug, Structural)]
pub enum ActionKind {
    /// Nothing to complete from the banner: open the application, that is all.
    Default,
    Approval,
    Message,
}

/// A value that may be missing.
pub open spec fn option_json(json: Option<&Json>) -> Option<JsonView> {
    match json {
        Some(json) => Some(json@),
        None => None,
    }
}

/// A text of a click's context, where there is one and it is not empty.
pub open spec fn context_text(click: Option<JsonView>, key: Seq<char>) -> Option<Seq<char>> {
    match click {
        Some(click) => match field(click, "context"@) {
            Some(context) => named_text(context, key),
            None => None,
        },
        None => None,
    }
}

pub fn context_str(click: Option<&Json>, key: &str) -> (r: Option<String>)
    ensures
        option_text(r) == context_text(option_json(click), key@),
{
    match click {
        Some(click) => match get(click, "context") {
            Some(context) => string_field(context, key),
            None => None,
        },
        None => None,
    }
}

/// The approval request a click is about: none unless the context says that it is an approval
/// and the request's id is there. Which buttons to offer, which toast is replaced and which
/// request a press resolves are all this one question.
pub open spec fn approval_id(click: Option<JsonView>) -> Option<Seq<char>> {
    if context_text(click, "type"@) == Some(APPROVAL_CONTEXT_TYPE@) {
        context_text(click, "approvalRequestId"@)
    } else {
        None
    }
}

/// The conversation a click is about, on the same terms.
pub open spec fn message_id(click: Option<JsonView>) -> Option<Seq<char>> {
    if context_text(click, "type"@) == Some(MESSAGE_CONTEXT_TYPE@) {
        context_text(click, "dialogId"@)
    } else {
        None
    }
}

fn context_is(click: Option<&Json>, kind: &str) -> (r: bool)
    ensures
        r == (context_text(option_json(click), "type"@) == Some(kind@)),
{
    match context_str(click, "type") {
        Some(text) => same_text(text.as_str(), kind),
        None => false,
    }
}

pub fn approval_request_id(click: Option<&Json>) -> (r: Option<String>)
    ensures
        option_text(r) == approval_id(option_json(click)),
{
    if context_is(click, APPROVAL_CONTEXT_TYPE) {
        context_str(click, "approvalRequestId")
    } else {
        None
    }
}

pub fn dialog_id(click: Option<&Json>) -> (r: Option<String>)
    ensures
        option_text(r) == message_id(option_json(click)),
{
    if context_is(click, MESSAGE_CONTEXT_TYPE) {
        context_str(click, "dialogId")
    } else {
        None
    }
}

/// The buttons that a click's payload could earn.
pub open spec fn kind_of(click: Option<JsonView>) -> ActionKind {
    if approval_id(click) is Some {
        ActionKind::Approval
    } else if message_id(click) is Some {
        ActionKind::Message
    } else {
        ActionKind::Default
    }
}

/// Buttons are offered only where the id that the action needs is there: an Approve that can
/// resolve nothing is worse than none.
pub fn kind_for(click: Option<&Json>) -> (r: ActionKind)
    ensures
        r == kind_of(option_json(click)),
{
    if approval_request_id(click).is_some() {
        return ActionKind::Approval;
    }
    if dialog_id(click).is_some() {
        return ActionKind::Message;
    }
    ActionKind::Default
}

// ---------------------------------------------------------------------------------------
// The requests known to be settled.

/// How many settled requests are remembered. The authority on whether a request is still
/// open is the gateway; what is forgotten here only costs a press that ends there.
pub const RESOLVED_MEMORY: usize = 64;

/// The ids of a ring, oldest first.
pub open spec fn ids(ring: VecDeque<String>) -> Seq<Seq<char>> {
    ring@.map_values(|s: String| s@)
}

/// A ring holds no id twice and no more than it may.
pub open spec fn ring_ok(ids: Seq<Seq<char>>) -> bool {
    ids.len() <= RESOLVED_MEMORY && ids.no_duplicates()
}

/// A ring with an id remembered: unchanged where the id is in it already, else with the id
/// at the end, and without the oldest where it was full.
pub open spec fn remembered(ids: Seq<Seq<char>>, id: Seq<char>) -> Seq<Seq<char>> {
    if ids.contains(id) {
        ids
    } else if ids.len() >= RESOLVED_MEMORY {
        ids.drop_first().push(id)
    } else {
        ids.push(id)
    }
}

/// Whether a request is known to be settled.
pub fn is_resolved(resolved: &VecDeque<String>, request_id: &str) -> (r: bool)
    ensures
        r == ids(*resolved).contains(request_id@),
{
    let ghost all = ids(*resolved);
    let mut i: usize = 0;
    while i < resolved.len()
        invariant
            all == ids(*resolved),
            i <= resolved@.len(),
            forall|j: int| 0 <= j < i ==> #[trigger] all[j] != request_id@,
        decreases resolved@.len() - i,
    {
        assert(all[i as int] == resolved@[i as int]@);
        if same_text(resolved[i].as_str(), request_id) {
            assert(all.contains(all[i as int]));
            return true;
        }
        i += 1;
    }
    false
}

pub fn remember(resolved: &mut VecDeque<String>, request_id: &str)
    ensures
        ids(*final(resolved)) == remembered(ids(*old(resolved)), request_id@),
{
    if is_resolved(resolved, request_id) {
        return;
    }
    let ghost before = ids(*resolved);
    if resolved.len() >= RESOLVED_MEMORY {
        let _ = resolved.pop_front();
        assert(ids(*resolved) =~= before.drop_first());
    }
    let ghost kept = ids(*resolved);
    resolved.push_back(request_id.to_string());
    assert(ids(*resolved) =~= kept.push(request_id@));
}

/// Record that a request is settled, whoever settled it.
pub fn remember_resolved(resolved: &mut VecDeque<String>, request_id: &str)
    ensures
        ids(*final(resolved)) == remembered(ids(*old(resolved)), request_id@),
{
    remember(resolved, request_id);
}

/// Forget every settled request: the decisions belong to the session that made them.
pub fn forget_resolved(resolved: &mut VecDeque<String>)
    ensures
        ids(*final(resolved)) == Seq::<Seq<char>>::empty(),
{
    resolved.clear();
    assert(ids(*resolved) =~= Seq::<Seq<char>>::empty());
}

/// Remembering keeps a ring in bounds and without repeats, and what was remembered last is
/// there.
pub proof fn remembering_keeps_the_ring(ids: Seq<Seq<char>>, id: Seq<char>)
    requires
        ring_ok(ids),
    ensures
        ring_ok(remembered(ids, id)),
        remembered(ids, id).contains(id),
        remembered(remembered(ids, id), id) == remembered(ids, id),
{
    let after = remembered(ids, id);
    if !ids.contains(id) {
        assert(after[after.len() - 1] == id);
        let kept = after.drop_last();
        assert forall|i: int, j: int| 0 <= i < after.len() && 0 <= j < after.len() && i != j implies
            after[i] != after[j] by {
            let shift: int = if ids.len() >= RESOLVED_MEMORY {
                1
            } else {
                0
            };
            if i < after.len() - 1 && j < after.len() - 1 {
                assert(after[i] == ids[i + shift]);
                assert(after[j] == ids[j + shift]);
            } else if i < after.len() - 1 {
                assert(after[i] == ids[i + shift]);
                assert(ids.contains(ids[i + shift]));
            } else {
                assert(after[j] == ids[j + shift]);
                assert(ids.contains(ids[j + shift]));
            }
        }
    }
}

/// The oldest is forgotten first: everything else that was in the ring stays in it, and the
/// oldest too while there is room.
pub proof fn oldest_is_forgotten_first(ids: Seq<Seq<char>>, id: Seq<char>, known: Seq<char>)
    requires
        ring_ok(ids),
        ids.contains(known),
    ensures
        known != ids[0] || ids.len() < RESOLVED_MEMORY || ids.contains(id) ==> remembered(
            ids,
            id,
        ).contains(known),
        known == ids[0] && ids.len() == RESOLVED_MEMORY && !ids.contains(id) ==> !remembered(
            ids,
            id,
        ).contains(known),
{
    let after = remembered(ids, id);
    let k = choose|k: int| 0 <= k < ids.len() && ids[k] == known;
    if !ids.contains(id) {
        if ids.len() < RESOLVED_MEMORY {
            assert(after[k] == known);
        } else {
            if k > 0 {
                assert(after[k - 1] == known);
            }
            if known == ids[0] {
                assert forall|j: int| 0 <= j < after.len() implies after[j] != known by {
                    if j < after.len() - 1 {
                        assert(after[j] == ids[j + 1]);
                        assert(ids[j + 1] != ids[0]);
                    }
                }
            }
        }
    }
}

/// Whether a resolution on the wire settles a request. `PENDING` does not: it is still a
/// decision to make.
pub open spec fn settles(resolution: Seq<char>) -> bool {
    lowered(resolution) == lowered("APPROVED"@) || lowered(resolution) == lowered("REJECTED"@)
        || lowered(resolution) == lowered("CANCELLED"@)
}

/// The request that a source object says is settled.
pub open spec fn settled_id(source: Option<JsonView>) -> Option<Seq<char>> {
    match source {
        Some(source) => match named_text(source, "resolution"@) {
            Some(resolution) => if settles(resolution) {
                named_text(source, "approvalRequestId"@)
            } else {
                None
            },
            None => None,
        },
        None => None,
    }
}

/// A ring once the verdict that a source carries has been recorded.
pub open spec fn noted(ids: Seq<Seq<char>>, source: Option<JsonView>) -> Seq<Seq<char>> {
    match settled_id(source) {
        Some(id) => remembered(ids, id),
        None => ids,
    }
}

/// Record the verdict that an envelope's `attributes` or `context` carries, if it carries
/// one. Taking it at face value is what lets a decision made anywhere reach the banner on
/// this machine.
pub fn note_resolution(resolved: &mut VecDeque<String>, source: Option<&Json>)
    ensures
        ids(*final(resolved)) == noted(ids(*old(resolved)), option_json(source)),
{
    if let Some(source) = source {
        if let Some(resolution) = string_field(source, "resolution") {
            let settled = same_ignoring_case(resolution.as_str(), "APPROVED") || same_ignoring_case(
                resolution.as_str(),
                "REJECTED",
            ) || same_ignoring_case(resolution.as_str(), "CANCELLED");
            if settled {
                if let Some(request_id) = string_field(source, "approvalRequestId") {
                    remember_resolved(resolved, request_id.as_str());
                }
            }
        }
    }
}

/// The buttons a click may still be offered: those it could earn, less a decision that is
/// already settled.
pub open spec fn live_kind(ids: Seq<Seq<char>>, click: Option<JsonView>) -> ActionKind {
    match approval_id(click) {
        Some(id) => if ids.contains(id) {
            ActionKind::Default
        } else {
            ActionKind::Approval
        },
        None => kind_of(click),
    }
}

pub fn live_kind_for(resolved: &VecDeque<String>, click: Option<&Json>) -> (r: ActionKind)
    ensures
        r == live_kind(ids(*resolved), option_json(click)),
{
    match approval_request_id(click) {
        Some(id) => if is_resolved(resolved, id.as_str()) {
            ActionKind::Default
        } else {
            kind_for(click)
        },
        None => kind_for(click),
    }
}

/// A verdict off the wire takes the buttons off its own request and off no other.
pub proof fn settled_request_loses_its_buttons(
    ids: Seq<Seq<char>>,
    source: JsonView,
    click: JsonView,
)
    requires
        ring_ok(ids),
        settled_id(Some(source)) is Some,
        approval_id(Some(click)) is Some,
    ensures
        approval_id(Some(click)) == settled_id(Some(source)) ==> live_kind(
            noted(ids, Some(source)),
            Some(click),
        ) == ActionKind::Default,
        approval_id(Some(click)) != settled_id(Some(source)) && live_kind(ids, Some(click))
            == ActionKind::Approval ==> live_kind(noted(ids, Some(source)), Some(click))
            == ActionKind::Approval,
{
    let id = settled_id(Some(source))->0;
    let other = approval_id(Some(click))->0;
    remembering_keeps_the_ring(ids, id);
    let after = remembered(ids, id);
    if other != id && !ids.contains(other) && after.contains(other) {
        let k = choose|k: int| 0 <= k < after.len() && after[k] == other;
        if k < after.len() - 1 || ids.contains(id) {
            let shift: int = if !ids.contains(id) && ids.len() >= RESOLVED_MEMORY {
                1
            } else {
                0
            };
            assert(after[k] == ids[k + shift]);
            assert(ids.contains(ids[k + shift]));
        }
    }
}

// ---------------------------------------------------------------------------------------
// A pressed button.

#[derive(Debug, PartialEq)]
pub enum Action {
    Approve,
    Reject,
    Reply(String),
}

pub enum ActionView {
    Approve,
    Reject,
    Reply(Seq<char>),
}

/// An action, with its text by its characters.
pub open spec fn action_view(action: Action) -> ActionView {
    match action {
        Action::Approve => ActionView::Approve,
        Action::Reject => ActionView::Reject,
        Action::Reply(text) => ActionView::Reply(text@),
    }
}

impl Action {
    pub open spec fn done_title(self) -> Seq<char> {
        match self {
            Action::Approve => "Approved"@,
            Action::Reject => "Rejected"@,
            Action::Reply(_) => "Reply sent"@,
        }
    }

    /// Title of the banner that reports success.
    pub fn done(&self) -> (r: &'static str)
        ensures
            r@ == self.done_title(),
    {
        match self {
            Action::Approve => "Approved",
            Action::Reject => "Rejected",
            Action::Reply(_) => "Reply sent",
        }
    }

    pub open spec fn verb_text(self) -> Seq<char> {
        match self {
            Action::Approve => "approve"@,
            Action::Reject => "reject"@,
            Action::Reply(_) => "send the reply"@,
        }
    }

    pub fn verb(&self) -> (r: &'static str)
        ensures
            r@ == self.verb_text(),
    {
        match self {
            Action::Approve => "approve",
            Action::Reject => "reject",
            Action::Reply(_) => "send the reply",
        }
    }

    pub open spec fn failure_text(self, reason: Seq<char>) -> Seq<char> {
        let line = "Could not "@ + self.verb_text() + " — "@ + reason + "."@;
        match self {
            Action::Reply(text) => line + " Your reply: "@ + text@,
            _ => line,
        }
    }

    /// Body of the banner that reports a failure. A failed reply carries its text back:
    /// responding cleared the field it was typed into, so this is the only copy left.
    pub fn failed(&self, reason: &str) -> (r: String)
        ensures
            r@ == self.failure_text(reason@),
    {
        let mut line = "Could not ".to_string();
        line.append(self.verb());
        line.append(" — ");
        line.append(reason);
        line.append(".");
        if let Action::Reply(text) = self {
            line.append(" Your reply: ");
            line.append(text.as_str());
        }
        line
    }
}

/// What a background action needs of the notification it was pressed on. Its title lets a
/// failure post the notification again, still actionable.
#[derive(Debug, PartialEq)]
pub struct ActionContext {
    pub title: String,
    pub payload: Option<Json>,
    /// The user the notification was delivered to.
    pub user_id: Option<String>,
}

pub struct ContextView {
    pub title: Seq<char>,
    pub payload: Option<JsonView>,
    pub user_id: Option<Seq<char>>,
}

/// A value that may be missing, as it is.
pub open spec fn owned_json(json: Option<Json>) -> Option<JsonView> {
    match json {
        Some(json) => Some(json@),
        None => None,
    }
}

impl View for ActionContext {
    type V = ContextView;

    open spec fn view(&self) -> ContextView {
        ContextView {
            title: self.title@,
            payload: owned_json(self.payload),
            user_id: option_text(self.user_id),
        }
    }
}

fn payload_of(context: &ActionContext) -> (r: Option<&Json>)
    ensures
        option_json(r) == context@.payload,
{
    match &context.payload {
        Some(json) => Some(json),
        None => None,
    }
}

/// What a pressed button asks for.
#[derive(Debug, PartialEq)]
pub enum ActionStep {
    /// Nothing is left to decide.
    AlreadyResolved,
    /// The call that carries the press out.
    Call(ApiRequest),
}

pub enum StepView {
    AlreadyResolved,
    Call(RequestView),
}

/// A step, or the words of an error, by their characters.
pub open spec fn step_result(r: Result<ActionStep, String>) -> Result<StepView, Seq<char>> {
    match r {
        Ok(ActionStep::AlreadyResolved) => Ok(StepView::AlreadyResolved),
        Ok(ActionStep::Call(request)) => Ok(StepView::Call(request@)),
        Err(why) => Err(why@),
    }
}

/// A request as a step.
pub open spec fn call_step(request: Result<RequestView, Seq<char>>) -> Result<StepView, Seq<char>> {
    match request {
        Ok(request) => Ok(StepView::Call(request)),
        Err(why) => Err(why),
    }
}

/// What a press comes to before anything is sent. A notification is no authority to act on
/// anything: it is acted on only while the user it was delivered to is signed in.
pub open spec fn first_step(
    ids: Seq<Seq<char>>,
    session: Option<SessionView>,
    base: Option<Seq<char>>,
    context: ContextView,
    action: Action,
) -> Result<StepView, Seq<char>> {
    match session {
        None => Err("no one is signed in — open OpenFrame and sign in, then try again"@),
        Some(session) => if context.user_id != Some(session.user_id) {
            Err("this notification belongs to a different account"@)
        } else {
            match action {
                Action::Reply(text) => match message_id(context.payload) {
                    None => Err("this notification carries no conversation"@),
                    Some(dialog) => call_step(
                        request_to(
                            base,
                            session,
                            MESSAGES_PATH@,
                            json_printed(message_body(dialog, text@)),
                        ),
                    ),
                },
                _ => match approval_id(context.payload) {
                    None => Err("this notification carries no approval request"@),
                    Some(id) => if ids.contains(id) {
                        Ok(StepView::AlreadyResolved)
                    } else {
                        call_step(
                            request_to(
                                base,
                                session,
                                approval_path(id),
                                json_printed(approval_body(action is Approve)),
                            ),
                        )
                    },
                },
            }
        },
    }
}

/// The session gate, and the call behind it. A banner that was on screen when its request was
/// settled keeps its buttons, so that a press on one is caught here, before anything is sent.
pub fn begin_action(
    resolved: &VecDeque<String>,
    session: Option<&Session>,
    base: Option<String>,
    context: &ActionContext,
    action: &Action,
) -> (r: Result<ActionStep, String>)
    ensures
        step_result(r) == first_step(
            ids(*resolved),
            match session {
                Some(session) => Some(session@),
                None => None,
            },
            option_text(base),
            context@,
            *action,
        ),
{
    let session = match session {
        Some(session) => session,
        None => {
            return Err(
                "no one is signed in — open OpenFrame and sign in, then try again".to_string(),
            );
        },
    };
    let same_user = match &context.user_id {
        Some(user_id) => same_text(user_id.as_str(), session.user_id.as_str()),
        None => false,
    };
    if !same_user {
        return Err("this notification belongs to a different account".to_string());
    }
    let request = match action {
        Action::Reply(text) => match dialog_id(payload_of(context)) {
            None => {
                return Err("this notification carries no conversation".to_string());
            },
            Some(dialog) => send_message(base, session, dialog.as_str(), text.as_str()),
        },
        _ => match approval_request_id(payload_of(context)) {
            None => {
                return Err("this notification carries no approval request".to_string());
            },
            Some(id) => {
                if is_resolved(resolved, id.as_str()) {
                    return Ok(ActionStep::AlreadyResolved);
                }
                let approve = match action {
                    Action::Approve => true,
                    _ => false,
                };
                resolve_approval(base, session, id.as_str(), approve)
            },
        },
    };
    match request {
        Ok(request) => Ok(ActionStep::Call(request)),
        Err(why) => Err(why),
    }
}

/// What a press amounted to.
#[derive(Clone, Copy, PartialEq, Eq, Debug, Structural)]
pub enum Outcome {
    Done,
    /// The request is settled, just not by this press.
    AlreadyResolved,
}

/// An outcome, or the words of an error, by their characters.
pub open spec fn outcome_view(r: Result<Outcome, String>) -> Result<Outcome, Seq<char>> {
    match r {
        Ok(outcome) => Ok(outcome),
        Err(why) => Err(why@),
    }
}

/// What a press amounted to once its call has come back.
pub open spec fn outcome_after(action: Action, reply: ApiReply, said: Option<Seq<char>>) -> Result<
    Outcome,
    Seq<char>,
> {
    match action {
        Action::Reply(_) => match call_result(reply, said) {
            Ok(_) => Ok(Outcome::Done),
            Err(why) => Err(why),
        },
        _ => match approval_result(reply, said) {
            Ok(ApprovalOutcome::Resolved) => Ok(Outcome::Done),
            Ok(ApprovalOutcome::AlreadyResolved) => Ok(Outcome::AlreadyResolved),
            Err(why) => Err(why),
        },
    }
}

/// The settled requests once a press has come back: whoever resolved it, an approval request
/// that came to an outcome is settled.
pub open spec fn settled_after(
    ids: Seq<Seq<char>>,
    context: ContextView,
    action: Action,
    outcome: Result<Outcome, Seq<char>>,
) -> Seq<Seq<char>> {
    match (action, approval_id(context.payload)) {
        (Action::Reply(_), _) => ids,
        (_, Some(id)) => if outcome is Ok {
            remembered(ids, id)
        } else {
            ids
        },
        _ => ids,
    }
}

/// What a press amounted to, given the error text of the answer's body.
pub fn action_outcome(
    resolved: &mut VecDeque<String>,
    context: &ActionContext,
    action: &Action,
    reply: ApiReply,
    said: Option<String>,
) -> (r: Result<Outcome, String>)
    ensures
        outcome_view(r) == outcome_after(*action, reply, option_text(said)),
        ids(*final(resolved)) == settled_after(
            ids(*old(resolved)),
            context@,
            *action,
            outcome_view(r),
        ),
{
    match action {
        Action::Reply(_) => match outcome_of(reply, said) {
            Ok(_) => Ok(Outcome::Done),
            Err(why) => Err(why),
        },
        _ => match approval_of(reply, said) {
            Ok(outcome) => {
                if let Some(id) = approval_request_id(payload_of(context)) {
                    remember_resolved(resolved, id.as_str());
                }
                match outcome {
                    ApprovalOutcome::Resolved => Ok(Outcome::Done),
                    ApprovalOutcome::AlreadyResolved => Ok(Outcome::AlreadyResolved),
                }
            },
            Err(why) => Err(why),
        },
    }
}

/// What a press amounted to once its call has come back.
pub fn finish_action(
    resolved: &mut VecDeque<String>,
    context: &ActionContext,
    action: &Action,
    reply: ApiReply,
) -> (r: Result<Outcome, String>)
    ensures
        outcome_view(r) == outcome_after(*action, reply, said_in(reply)),
        ids(*final(resolved)) == settled_after(
            ids(*old(resolved)),
            context@,
            *action,
            outcome_view(r),
        ),
{
    let said = reply_error(&reply);
    action_outcome(resolved, context, action, reply, said)
}

// ---------------------------------------------------------------------------------------
// What the user is told.

/// A notification on its way to the system.
#[derive(Debug, PartialEq)]
pub struct Post {
    pub title: String,
    pub body: String,
    pub click: Option<Json>,
    /// The user it is delivered to. A follow-up carries none, so that its buttons cannot act
    /// again.
    pub user_id: Option<String>,
    pub kind: ActionKind,
    pub delivery: Delivery,
}

pub struct PostView {
    pub title: Seq<char>,
    pub body: Seq<char>,
    pub click: Option<JsonView>,
    pub user_id: Option<Seq<char>>,
    pub kind: ActionKind,
    pub delivery: Delivery,
}

impl View for Post {
    type V = PostView;

    open spec fn view(&self) -> PostView {
        PostView {
            title: self.title@,
            body: self.body@,
            click: owned_json(self.click),
            user_id: option_text(self.user_id),
            kind: self.kind,
            delivery: self.delivery,
        }
    }
}

/// The notification that reports a press. Success is a plain confirmation over the pressed one's
/// title. A failure is the pressed one again, with the buttons it may still have, so that the
/// decision is there to be tried again.
pub open spec fn report_of(
    ids: Seq<Seq<char>>,
    context: ContextView,
    action: Action,
    outcome: Result<Outcome, Seq<char>>,
) -> PostView {
    match outcome {
        Ok(outcome) => PostView {
            title: match outcome {
                Outcome::Done => action.done_title(),
                Outcome::AlreadyResolved => "Already resolved"@,
            },
            body: context.title,
            click: context.payload,
            user_id: None,
            kind: ActionKind::Default,
            delivery: Delivery::New,
        },
        Err(reason) => PostView {
            title: context.title,
            body: action.failure_text(reason),
            click: context.payload,
            user_id: context.user_id,
            kind: live_kind(ids, context.payload),
            delivery: Delivery::New,
        },
    }
}

fn copy_payload(payload: &Option<Json>) -> (r: Option<Json>)
    ensures
        owned_json(r) == owned_json(*payload),
{
    match payload {
        Some(json) => Some(copy_of(json)),
        None => None,
    }
}

/// A background action has no window to report into, so its outcome comes back as another
/// notification.
pub fn report(
    resolved: &VecDeque<String>,
    context: &ActionContext,
    action: &Action,
    outcome: Result<Outcome, String>,
) -> (r: Post)
    ensures
        r@ == report_of(ids(*resolved), context@, *action, outcome_view(outcome)),
{
    match outcome {
        Ok(outcome) => {
            let title = match outcome {
                Outcome::Done => action.done().to_string(),
                Outcome::AlreadyResolved => "Already resolved".to_string(),
            };
            Post {
                title,
                body: context.title.clone(),
                click: copy_payload(&context.payload),
                user_id: None,
                kind: ActionKind::Default,
                delivery: Delivery::New,
            }
        },
        Err(reason) => {
            let user_id = match &context.user_id {
                Some(user_id) => Some(user_id.clone()),
                None => None,
            };
            Post {
                title: context.title.clone(),
                body: action.failed(reason.as_str()),
                click: copy_payload(&context.payload),
                user_id,
                kind: live_kind_for(resolved, payload_of(context)),
                delivery: Delivery::New,
            }
        },
    }
}

/// What an open window is told of a press: the conversation it changed, where it changed
/// anything and there is one. An approval's conversation counts as much as a message's.
pub open spec fn changed_dialog(
    context: ContextView,
    outcome: Result<Outcome, Seq<char>>,
) -> Option<JsonView> {
    match (outcome, context_text(context.payload, "dialogId"@)) {
        (Ok(Outcome::Done), Some(dialog)) => Some(
            JsonView::Object(map!["dialogId"@ => JsonView::Text(dialog)]),
        ),
        _ => None,
    }
}

pub fn announce_dialog_change(context: &ActionContext, outcome: &Result<Outcome, String>) -> (r: Option<
    Json,
>)
    ensures
        owned_json(r) == changed_dialog(context@, outcome_view(*outcome)),
{
    match outcome {
        Ok(Outcome::Done) => match context_str(payload_of(context), "dialogId") {
            Some(dialog) => {
                let mut members: Vec<Member> = Vec::new();
                put(&mut members, "dialogId", Json::Text(dialog));
                Some(Json::Object(members))
            },
            None => None,
        },
        _ => None,
    }
}

// ---------------------------------------------------------------------------------------
// What holds of every press.

/// The session is the authority, not the notification: a call goes out only while the user
/// the notification was delivered to is signed in, and under that user's own bearer.
pub proof fn only_the_addressed_user_acts(
    ids: Seq<Seq<char>>,
    session: Option<SessionView>,
    base: Option<Seq<char>>,
    context: ContextView,
    action: Action,
)
    requires
        first_step(ids, session, base, context, action) is Ok,
    ensures
        session is Some,
        context.user_id == Some(session->0.user_id),
        match first_step(ids, session, base, context, action)->Ok_0 {
            StepView::Call(request) => request.bearer == session->0.access_token,
            StepView::AlreadyResolved => true,
        },
{
}

/// Nothing is sent for a request that is known to be settled: the press is answered with
/// "already resolved", whatever it asked for.
pub proof fn settled_request_is_not_sent(
    ids: Seq<Seq<char>>,
    session: SessionView,
    base: Option<Seq<char>>,
    context: ContextView,
    action: Action,
)
    requires
        context.user_id == Some(session.user_id),
        approval_id(context.payload) is Some,
        ids.contains(approval_id(context.payload)->0),
        !(action is Reply),
    ensures
        first_step(ids, Some(session), base, context, action) == Ok::<StepView, Seq<char>>(
            StepView::AlreadyResolved,
        ),
{
}

/// A decision that came to an outcome, by this press or by another's, is not offered again:
/// neither by the report nor by a copy that arrives later.
pub proof fn decided_request_is_not_offered_again(
    ids: Seq<Seq<char>>,
    context: ContextView,
    action: Action,
    reply: ApiReply,
    said: Option<Seq<char>>,
)
    requires
        ring_ok(ids),
        !(action is Reply),
        outcome_after(action, reply, said) is Ok,
        approval_id(context.payload) is Some,
    ensures
        ({
            let outcome = outcome_after(action, reply, said);
            let after = settled_after(ids, context, action, outcome);
            &&& report_of(after, context, action, outcome).kind == ActionKind::Default
            &&& live_kind(after, context.payload) == ActionKind::Default
        }),
{
    remembering_keeps_the_ring(ids, approval_id(context.payload)->0);
}

/// A failure gives the decision back: the same title, payload and user, and the same buttons
/// while the request is open. A failed reply's text is in the body.
pub proof fn failure_gives_the_decision_back(
    ids: Seq<Seq<char>>,
    context: ContextView,
    action: Action,
    reason: Seq<char>,
)
    ensures
        ({
            let post = report_of(ids, context, action, Err(reason));
            &&& post.title == context.title
            &&& post.click == context.payload
            &&& post.user_id == context.user_id
            &&& approval_id(context.payload) is None || !ids.contains(
                approval_id(context.payload)->0,
            ) ==> post.kind == kind_of(context.payload)
            &&& action is Reply ==> post.body.skip(post.body.len() - action->Reply_0@.len())
                == action->Reply_0@
        }),
{
    if let Action::Reply(text) = action {
        let body = action.failure_text(reason);
        assert(body.skip(body.len() - text@.len()) =~= text@);
    }
}

/// Which buttons a click earns, by what its context says. A decision needs a context of the type
/// `ADMIN_APPROVAL_REQUEST` with the request's id in it, a reply one of the type
/// `ADMIN_AI_MESSAGE` with the conversation's; each id is read as it stands there.
pub proof fn buttons_follow_the_context(click: JsonView, context: JsonView, id: Seq<char>)
    requires
        field(click, "context"@) == Some(context),
    ensures
        ({
            let approval = field(context, "type"@) == Some(
                JsonView::Text("ADMIN_APPROVAL_REQUEST"@),
            );
            let message = field(context, "type"@) == Some(JsonView::Text("ADMIN_AI_MESSAGE"@));
            &&& approval_id(Some(click)) == Some(id) <==> approval && id.len() > 0 && field(
                context,
                "approvalRequestId"@,
            ) == Some(JsonView::Text(id))
            &&& message_id(Some(click)) == Some(id) <==> message && id.len() > 0 && field(
                context,
                "dialogId"@,
            ) == Some(JsonView::Text(id))
            &&& kind_of(Some(click)) is Approval <==> approval_id(Some(click)) is Some
            &&& kind_of(Some(click)) is Message <==> message_id(Some(click)) is Some
        }),
{
    reveal_strlit("ADMIN_APPROVAL_REQUEST");
    reveal_strlit("ADMIN_AI_MESSAGE");
    assert("ADMIN_APPROVAL_REQUEST"@.len() == 22 && "ADMIN_AI_MESSAGE"@.len() == 16);
}

/// A click without a context earns no buttons.
pub proof fn no_context_earns_no_buttons(click: JsonView)
    ensures
        approval_id(None) is None && message_id(None) is None && kind_of(None) is Default,
        field(click, "context"@) is None ==> approval_id(Some(click)) is None && message_id(
            Some(click),
        ) is None && kind_of(Some(click)) is Default,
{
}

/// A decision is offered while its request is not known to be settled, and only then; a reply is
/// offered whatever is settled.
pub proof fn open_decisions_are_offered(ids: Seq<Seq<char>>, click: JsonView, context: JsonView)
    requires
        field(click, "context"@) == Some(context),
    ensures
        live_kind(ids, Some(click)) is Approval <==> approval_id(Some(click)) is Some
            && !ids.contains(approval_id(Some(click))->0),
        live_kind(ids, Some(click)) is Message <==> message_id(Some(click)) is Some,
{
    reveal_strlit("ADMIN_APPROVAL_REQUEST");
    reveal_strlit("ADMIN_AI_MESSAGE");
    assert("ADMIN_APPROVAL_REQUEST"@.len() == 22 && "ADMIN_AI_MESSAGE"@.len() == 16);
}

/// Which verdicts settle a request: approved, rejected and cancelled, in any case, and no other.
/// The request they settle is the one they name.
pub proof fn three_verdicts_settle(source: JsonView, resolution: Seq<char>, id: Seq<char>)
    requires
        field(source, "resolution"@) == Some(JsonView::Text(resolution)),
    ensures
        ({
            let verdict = lowered(resolution);
            let settled = verdict == "approved"@ || verdict == "rejected"@ || verdict
                == "cancelled"@;
            &&& settles(resolution) <==> settled
            &&& settled_id(Some(source)) == Some(id) <==> settled && id.len() > 0 && field(
                source,
                "approvalRequestId"@,
            ) == Some(JsonView::Text(id))
        }),
{
    reveal_strlit("APPROVED");
    reveal_strlit("approved");
    reveal_strlit("REJECTED");
    reveal_strlit("rejected");
    reveal_strlit("CANCELLED");
    reveal_strlit("cancelled");
    assert(lowered("APPROVED"@) =~= "approved"@);
    assert(lowered("REJECTED"@) =~= "rejected"@);
    assert(lowered("CANCELLED"@) =~= "cancelled"@);
    assert(lowered(resolution).len() == resolution.len());
    assert("approved"@.len() == 8 && "rejected"@.len() == 8 && "cancelled"@.len() == 9);
}

/// A source without a verdict settles nothing, and what it leaves is what was known before.
pub proof fn no_verdict_settles_nothing(ids: Seq<Seq<char>>, source: JsonView)
    ensures
        noted(ids, None) == ids,
        !(field(source, "resolution"@) matches Some(JsonView::Text(_))) ==> noted(ids, Some(source))
            == ids,
        settled_id(Some(source)) is Some ==> noted(ids, Some(source)) == remembered(
            ids,
            settled_id(Some(source))->0,
        ),
{
}

/// Remembering an id adds that id and nothing else, behind what was known, and keeps what stays
/// in its order. Up to sixty-four ids are kept.
pub proof fn remembering_adds_one_id(ids: Seq<Seq<char>>, id: Seq<char>)
    ensures
        ids.contains(id) ==> remembered(ids, id) == ids,
        !ids.contains(id) ==> remembered(ids, id).len() > 0 && remembered(ids, id).last() == id
            && remembered(ids, id).drop_last().is_suffix_of(ids),
        !ids.contains(id) && ids.len() < 64 ==> remembered(ids, id).drop_last() == ids,
        !ids.contains(id) && ids.len() >= 64 ==> remembered(ids, id).len() == ids.len(),
{
    let after = remembered(ids, id);
    if !ids.contains(id) {
        assert(after.last() == id);
        let kept = after.drop_last();
        assert(kept =~= ids.subrange(ids.len() - kept.len(), ids.len() as int));
        if ids.len() < 64 {
            assert(kept =~= ids);
        }
    }
}

/// What a press sends. While the user the notification was delivered to is signed in and a tenant
/// host is known, a decision that is not known to be settled goes to its own request with the
/// way it went, and a reply goes to its own conversation with its text; both under the session's
/// token.
pub proof fn press_sends_its_own_call(
    ids: Seq<Seq<char>>,
    session: SessionView,
    base: Seq<char>,
    context: ContextView,
    text: String,
)
    requires
        context.user_id == Some(session.user_id),
    ensures
        approval_id(context.payload) is Some && !ids.contains(approval_id(context.payload)->0) ==> {
            let id = approval_id(context.payload)->0;
            let approve = first_step(ids, Some(session), Some(base), context, Action::Approve);
            let reject = first_step(ids, Some(session), Some(base), context, Action::Reject);
            &&& approve is Ok && approve->Ok_0 is Call
            &&& reject is Ok && reject->Ok_0 is Call
            &&& approve->Ok_0->Call_0 == (RequestView {
                url: base + approval_path(id),
                bearer: session.access_token,
                body: json_printed(
                    JsonView::Object(map!["approve"@ => JsonView::Bool(true)]),
                ),
            })
            &&& reject->Ok_0->Call_0 == (RequestView {
                url: base + approval_path(id),
                bearer: session.access_token,
                body: json_printed(
                    JsonView::Object(map!["approve"@ => JsonView::Bool(false)]),
                ),
            })
        },
        message_id(context.payload) is Some ==> {
            let reply = first_step(
                ids,
                Some(session),
                Some(base),
                context,
                Action::Reply(text),
            );
            &&& reply is Ok && reply->Ok_0 is Call
            &&& reply->Ok_0->Call_0 == (RequestView {
                url: base + "/chat/api/v1/messages"@,
                bearer: session.access_token,
                body: json_printed(message_body(message_id(context.payload)->0, text@)),
            })
        },
{
}

/// Why a press sends nothing, in the order in which it is asked: nobody is signed in, another
/// user is, the notification does not carry what the button needs, or no tenant host is known.
pub proof fn press_that_cannot_be_sent_says_why(
    ids: Seq<Seq<char>>,
    session: Option<SessionView>,
    base: Option<Seq<char>>,
    context: ContextView,
    action: Action,
)
    ensures
        ({
            let step = first_step(ids, session, base, context, action);
            let addressed = session is Some && context.user_id == Some(session->0.user_id);
            let missing = if action is Reply {
                message_id(context.payload) is None
            } else {
                approval_id(context.payload) is None
            };
            &&& session is None ==> step == Err::<StepView, Seq<char>>(
                "no one is signed in — open OpenFrame and sign in, then try again"@,
            )
            &&& session is Some && !addressed ==> step == Err::<StepView, Seq<char>>(
                "this notification belongs to a different account"@,
            )
            &&& addressed && missing && action is Reply ==> step == Err::<StepView, Seq<char>>(
                "this notification carries no conversation"@,
            )
            &&& addressed && missing && !(action is Reply) ==> step == Err::<StepView, Seq<char>>(
                "this notification carries no approval request"@,
            )
            &&& addressed && !missing && base is None && (action is Reply || !ids.contains(
                approval_id(context.payload)->0,
            )) ==> step == Err::<StepView, Seq<char>>(
                "this install has not learned a tenant host yet"@,
            )
            &&& addressed && !missing && base is Some ==> step is Ok
        }),
{
}

/// What a press amounts to is what its call came to: done where the gateway took it, settled by
/// another where it reports a conflict on a decision, and the error otherwise.
pub proof fn press_amounts_to_its_reply(
    action: Action,
    code: u16,
    status: String,
    body: Option<String>,
    said: Option<Seq<char>>,
)
    ensures
        ({
            let outcome = outcome_after(action, ApiReply::Answered { code, status, body }, said);
            let why = if said is Some {
                said->0
            } else {
                "HTTP "@ + status@
            };
            &&& 200 <= code < 300 ==> outcome == Ok::<Outcome, Seq<char>>(Outcome::Done)
            &&& code == 409 && !(action is Reply) ==> outcome == Ok::<Outcome, Seq<char>>(
                Outcome::AlreadyResolved,
            )
            &&& (code < 200 || code >= 300) && (code != 409 || action is Reply) ==> outcome
                == Err::<Outcome, Seq<char>>(why)
            &&& outcome_after(action, ApiReply::Unreachable, said) == Err::<Outcome, Seq<char>>(
                "the gateway could not be reached"@,
            )
            &&& outcome_after(action, ApiReply::NotSent(status), said) == Err::<
                Outcome,
                Seq<char>,
            >(status@)
        }),
{
}

/// A press settles the request it decided, and nothing else: a reply settles none, and neither
/// does a press that failed.
pub proof fn only_a_decision_settles(
    ids: Seq<Seq<char>>,
    context: ContextView,
    action: Action,
    outcome: Result<Outcome, Seq<char>>,
)
    ensures
        ({
            let after = settled_after(ids, context, action, outcome);
            let decided = outcome is Ok && !(action is Reply) && approval_id(
                context.payload,
            ) is Some;
            &&& decided ==> after == remembered(ids, approval_id(context.payload)->0)
            &&& !decided ==> after == ids
        }),
{
}

/// What the user is told of a press that came to an end: what was done, or that another did it,
/// over the title of the notification that was pressed. Nothing can be pressed on it again, and
/// a click on it opens what the pressed one would have opened.
pub proof fn success_is_reported_over_the_title(
    ids: Seq<Seq<char>>,
    context: ContextView,
    text: String,
    outcome: Outcome,
)
    ensures
        ({
            let done: Result<Outcome, Seq<char>> = Ok(Outcome::Done);
            &&& report_of(ids, context, Action::Approve, done).title == "Approved"@
            &&& report_of(ids, context, Action::Reject, done).title == "Rejected"@
            &&& report_of(ids, context, Action::Reply(text), done).title == "Reply sent"@
        }),
        forall|action: Action|
            ({
                let post = #[trigger] report_of(ids, context, action, Ok(outcome));
                &&& outcome == Outcome::AlreadyResolved ==> post.title == "Already resolved"@
                &&& post.body == context.title
                &&& post.click == context.payload
                &&& post.user_id is None
                &&& post.kind == ActionKind::Default
                &&& post.delivery == Delivery::New
            }),
{
}

/// What the user is told of a press that failed: what could not be done and why, and of a reply
/// the text that was not sent.
pub proof fn failure_says_what_and_why(
    ids: Seq<Seq<char>>,
    context: ContextView,
    text: String,
    reason: Seq<char>,
)
    ensures
        ({
            let failed: Result<Outcome, Seq<char>> = Err(reason);
            &&& report_of(ids, context, Action::Approve, failed).body == "Could not approve — "@
                + reason + "."@
            &&& report_of(ids, context, Action::Reject, failed).body == "Could not reject — "@
                + reason + "."@
            &&& report_of(ids, context, Action::Reply(text), failed).body
                == "Could not send the reply — "@ + reason + ". Your reply: "@ + text@
            &&& report_of(ids, context, Action::Approve, failed).delivery == Delivery::New
        }),
{
    reveal_strlit("Could not ");
    reveal_strlit("approve");
    reveal_strlit("reject");
    reveal_strlit("send the reply");
    reveal_strlit(" — ");
    reveal_strlit(".");
    reveal_strlit(" Your reply: ");
    reveal_strlit(". Your reply: ");
    reveal_strlit("Could not approve — ");
    reveal_strlit("Could not reject — ");
    reveal_strlit("Could not send the reply — ");
    assert("Could not "@ + "approve"@ + " — "@ =~= "Could not approve — "@);
    assert("Could not "@ + "reject"@ + " — "@ =~= "Could not reject — "@);
    assert("Could not "@ + "send the reply"@ + " — "@ =~= "Could not send the reply — "@);
    let head = "Could not send the reply — "@ + reason;
    assert(head + "."@ + " Your reply: "@ =~= head + ". Your reply: "@);
}

/// An open window is told which conversation a press changed, where it changed anything: a press
/// that came to nothing, or that another had made before, changes none.
pub proof fn only_a_change_is_announced(
    context: ContextView,
    outcome: Result<Outcome, Seq<char>>,
    payload: JsonView,
    about: JsonView,
    dialog: Seq<char>,
)
    requires
        context.payload == Some(payload),
        field(payload, "context"@) == Some(about),
        dialog.len() > 0,
        field(about, "dialogId"@) == Some(JsonView::Text(dialog)),
    ensures
        outcome == Ok::<Outcome, Seq<char>>(Outcome::Done) ==> changed_dialog(context, outcome)
            is Some && field(changed_dialog(context, outcome)->0, "dialogId"@) == Some(
            JsonView::Text(dialog),
        ),
        outcome != Ok::<Outcome, Seq<char>>(Outcome::Done) ==> changed_dialog(context, outcome)
            is None,
{
}

/// Where there is no conversation, no change is announced.
pub proof fn no_conversation_is_announced(
    context: ContextView,
    outcome: Result<Outcome, Seq<char>>,
)
    requires
        context_text(context.payload, "dialogId"@) is None,
    ensures
        changed_dialog(context, outcome) is None,
{
}

} // verus!
