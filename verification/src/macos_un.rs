//! macOS notifications: the request that is posted, the categories of buttons, and what a
//! response to one means.
use vstd::prelude::*;
use vstd::string::*;

use crate::json::{json_of_text, json_printed, parse, plain, print, JsonView, DEPTH_LIMIT};
use crate::notification_actions::{
    action_view, Action, ActionContext, ActionKind, ActionView, ContextView, Post,
};
use crate::text::{option_text, same_text, trim, trimmed};

verus! {

pub const CATEGORY_DEFAULT: &'static str = "openframe-console-notification";

pub const CATEGORY_APPROVAL: &'static str = "openframe-console-approval";

pub const CATEGORY_MESSAGE: &'static str = "openframe-console-message";

pub const OPEN_ACTION_ID: &'static str = "open";

pub const APPROVE_ACTION_ID: &'static str = "approve";

pub const REJECT_ACTION_ID: &'static str = "reject";

pub const REPLY_ACTION_ID: &'static str = "reply";

/// Where a request carries what a click on it opens.
pub const PAYLOAD_KEY: &'static str = "of-click-payload";

/// Where a request carries the user it is delivered to.
pub const USER_KEY: &'static str = "of-user-id";

// ---------------------------------------------------------------------------------------
// Whether there is a backend at all.

/// The state of the backend.
#[derive(Clone, Copy, Debug, PartialEq, Eq, Structural)]
pub struct Backend {
    /// Whether the delegate is installed.
    pub active: bool,
    /// Whether the user has been asked for permission.
    pub asked: bool,
}

impl Default for Backend {
    fn default() -> (r: Self)
        ensures
            r == (Backend { active: false, asked: false }),
    {
        Backend { active: false, asked: false }
    }
}

/// Whether notifications can be posted.
pub fn active(backend: &Backend) -> (r: bool)
    ensures
        r == backend.active,
{
    backend.active
}

/// Whether to install the delegate, once: not in a development build, and not in a process
/// without a bundle, where the platform's calls abort.
pub fn activate(backend: &mut Backend, development: bool, bundled: bool) -> (r: bool)
    ensures
        r == (!development && bundled && !old(backend).active),
        *final(backend) == (Backend { active: old(backend).active || r, ..*old(backend) }),
{
    if development || !bundled || backend.active {
        return false;
    }
    backend.active = true;
    true
}

/// Whether to ask for permission now: once, and only where notifications can be posted.
pub fn ensure_authorized(backend: &mut Backend) -> (r: bool)
    ensures
        r == (old(backend).active && !old(backend).asked),
        *final(backend) == (Backend { asked: old(backend).asked || r, ..*old(backend) }),
{
    if !backend.active || backend.asked {
        return false;
    }
    backend.asked = true;
    true
}

// ---------------------------------------------------------------------------------------
// Categories.

pub open spec fn category_of(kind: ActionKind) -> Seq<char> {
    match kind {
        ActionKind::Approval => CATEGORY_APPROVAL@,
        ActionKind::Message => CATEGORY_MESSAGE@,
        ActionKind::Default => CATEGORY_DEFAULT@,
    }
}

/// The category whose buttons a notification gets.
pub fn category_for(kind: ActionKind) -> (r: &'static str)
    ensures
        r@ == category_of(kind),
{
    match kind {
        ActionKind::Approval => CATEGORY_APPROVAL,
        ActionKind::Message => CATEGORY_MESSAGE,
        ActionKind::Default => CATEGORY_DEFAULT,
    }
}

/// How a button behaves.
#[derive(Clone, Copy, Debug, PartialEq, Eq, Structural)]
pub enum ButtonStyle {
    /// Activates the application.
    Foreground,
    /// Asks for the device to be unlocked.
    AuthenticationRequired,
    /// Shown as the destructive choice.
    Destructive,
    /// Opens a field to type into.
    TextInput,
}

#[derive(Clone, Copy, Debug, PartialEq, Eq, Structural)]
pub enum Button {
    Open,
    Approve,
    Reject,
    Reply,
}

impl Button {
    pub open spec fn id_text(self) -> Seq<char> {
        match self {
            Button::Open => OPEN_ACTION_ID@,
            Button::Approve => APPROVE_ACTION_ID@,
            Button::Reject => REJECT_ACTION_ID@,
            Button::Reply => REPLY_ACTION_ID@,
        }
    }

    pub fn id(&self) -> (r: &'static str)
        ensures
            r@ == self.id_text(),
    {
        match self {
            Button::Open => OPEN_ACTION_ID,
            Button::Approve => APPROVE_ACTION_ID,
            Button::Reject => REJECT_ACTION_ID,
            Button::Reply => REPLY_ACTION_ID,
        }
    }

    /// What a button is labelled.
    pub open spec fn title_text(self) -> Seq<char> {
        match self {
            Button::Open => "Open"@,
            Button::Approve => "Approve"@,
            Button::Reject => "Reject"@,
            Button::Reply => "Reply"@,
        }
    }

    pub fn title(&self) -> (r: &'static str)
        ensures
            r@ == self.title_text(),
            r@ == match *self {
                Button::Open => "Open"@,
                Button::Approve => "Approve"@,
                Button::Reject => "Reject"@,
                Button::Reply => "Reply"@,
            },
    {
        match self {
            Button::Open => "Open",
            Button::Approve => "Approve",
            Button::Reject => "Reject",
            Button::Reply => "Reply",
        }
    }

    /// How a button behaves.
    pub open spec fn style_of(self) -> ButtonStyle {
        match self {
            Button::Open => ButtonStyle::Foreground,
            Button::Approve => ButtonStyle::AuthenticationRequired,
            Button::Reject => ButtonStyle::Destructive,
            Button::Reply => ButtonStyle::TextInput,
        }
    }

    /// Approving asks for an unlocked device. Rejecting is one click: it is the safe
    /// direction, and must not be harder.
    pub fn style(&self) -> (r: ButtonStyle)
        ensures
            r == self.style_of(),
            r == match *self {
                Button::Open => ButtonStyle::Foreground,
                Button::Approve => ButtonStyle::AuthenticationRequired,
                Button::Reject => ButtonStyle::Destructive,
                Button::Reply => ButtonStyle::TextInput,
            },
    {
        match self {
            Button::Open => ButtonStyle::Foreground,
            Button::Approve => ButtonStyle::AuthenticationRequired,
            Button::Reject => ButtonStyle::Destructive,
            Button::Reply => ButtonStyle::TextInput,
        }
    }
}

/// The label and the placeholder of the reply field.
pub const REPLY_SEND: &'static str = "Send";

pub const REPLY_PLACEHOLDER: &'static str = "Reply to Mingo";

/// The buttons of a category. An approval's carry the decision and nothing else, since a
/// click on the notification opens the application already.
pub open spec fn buttons_of(kind: ActionKind) -> Seq<Button> {
    match kind {
        ActionKind::Default => seq![Button::Open],
        ActionKind::Approval => seq![Button::Approve, Button::Reject],
        ActionKind::Message => seq![Button::Reply, Button::Open],
    }
}

pub fn buttons_for(kind: ActionKind) -> (r: Vec<Button>)
    ensures
        r@ == buttons_of(kind),
{
    let r: Vec<Button> = match kind {
        ActionKind::Default => vec![Button::Open],
        ActionKind::Approval => vec![Button::Approve, Button::Reject],
        ActionKind::Message => vec![Button::Reply, Button::Open],
    };
    assert(r@ =~= buttons_of(kind));
    r
}

/// The button sets to register, all in one call: registering replaces the whole set.
pub fn register_categories() -> (r: Vec<ActionKind>)
    ensures
        r@ == seq![ActionKind::Default, ActionKind::Approval, ActionKind::Message],
{
    let r: Vec<ActionKind> = vec![ActionKind::Default, ActionKind::Approval, ActionKind::Message];
    assert(r@ =~= seq![ActionKind::Default, ActionKind::Approval, ActionKind::Message]);
    r
}

// ---------------------------------------------------------------------------------------
// Posting.

/// A notification request.
#[derive(Debug, PartialEq)]
pub struct Request {
    pub title: String,
    /// The body, where there is one.
    pub body: Option<String>,
    pub category: &'static str,
    /// What a click opens, written out, under [`PAYLOAD_KEY`].
    pub payload: Option<String>,
    /// The user it is delivered to, under [`USER_KEY`].
    pub user_id: Option<String>,
}

/// The request for a notification. What a click opens reads back from it where it has no
/// decimals in it.
pub fn post(notification: Post) -> (r: Request)
    ensures
        r.title@ == notification@.title,
        option_text(r.body) == if notification@.body.len() == 0 {
            None
        } else {
            Some(notification@.body)
        },
        r.category@ == category_of(notification@.kind),
        option_text(r.payload) == match notification@.click {
            Some(click) => Some(json_printed(click)),
            None => None,
        },
        match notification@.click {
            Some(click) => plain(click, DEPTH_LIMIT as nat) ==> payload_in(option_text(r.payload))
                == Some(click),
            None => true,
        },
        option_text(r.user_id) == notification@.user_id,
{
    let category = category_for(notification.kind);
    let body = if notification.body.as_str().is_empty() {
        None
    } else {
        Some(notification.body)
    };
    let payload = match &notification.click {
        Some(click) => Some(print(click)),
        None => None,
    };
    Request { title: notification.title, body, category, payload, user_id: notification.user_id }
}

// ---------------------------------------------------------------------------------------
// Responses.

/// What a request's payload reads as.
pub open spec fn payload_in(text: Option<Seq<char>>) -> Option<JsonView> {
    match text {
        Some(text) => json_of_text(text),
        None => None,
    }
}

/// What an action needs of the notification that was responded to.
pub fn action_context(title: String, payload: Option<String>, user_id: Option<String>) -> (r:
    ActionContext)
    ensures
        r@ == (ContextView {
            title: title@,
            payload: payload_in(option_text(payload)),
            user_id: option_text(user_id),
        }),
{
    let payload = match payload {
        Some(text) => parse(text.as_str()),
        None => None,
    };
    ActionContext { title, payload, user_id }
}

/// What a response means.
#[derive(Debug, PartialEq)]
pub enum Response {
    Run(Action),
    /// The body or "Open" was clicked, or a button that this build does not know: open what
    /// the notification is about.
    Click,
    /// Nothing was typed.
    Nothing,
}

pub enum ResponseView {
    Run(ActionView),
    Click,
    Nothing,
}

impl View for Response {
    type V = ResponseView;

    open spec fn view(&self) -> ResponseView {
        match *self {
            Response::Run(action) => ResponseView::Run(action_view(action)),
            Response::Click => ResponseView::Click,
            Response::Nothing => ResponseView::Nothing,
        }
    }
}

/// What a response means, with what was typed where it came with a field.
pub open spec fn response_of(action_id: Seq<char>, typed: Option<Seq<char>>) -> ResponseView {
    if action_id == APPROVE_ACTION_ID@ {
        ResponseView::Run(ActionView::Approve)
    } else if action_id == REJECT_ACTION_ID@ {
        ResponseView::Run(ActionView::Reject)
    } else if action_id == REPLY_ACTION_ID@ {
        match typed {
            Some(text) => if trimmed(text).len() == 0 {
                ResponseView::Nothing
            } else {
                ResponseView::Run(ActionView::Reply(trimmed(text)))
            },
            None => ResponseView::Nothing,
        }
    } else {
        ResponseView::Click
    }
}

pub fn handle_response(action_id: &str, typed: Option<String>) -> (r: Response)
    ensures
        r@ == response_of(action_id@, option_text(typed)),
{
    if same_text(action_id, APPROVE_ACTION_ID) {
        Response::Run(Action::Approve)
    } else if same_text(action_id, REJECT_ACTION_ID) {
        Response::Run(Action::Reject)
    } else if same_text(action_id, REPLY_ACTION_ID) {
        match typed {
            Some(text) => {
                let bare = trim(text.as_str());
                if bare.as_str().is_empty() {
                    Response::Nothing
                } else {
                    Response::Run(Action::Reply(bare))
                }
            },
            None => Response::Nothing,
        }
    } else {
        Response::Click
    }
}

/// A button of a category means what it says, and the one that opens the application takes
/// no decision.
pub proof fn buttons_mean_what_they_say(button: Button, typed: Option<Seq<char>>)
    ensures
        match button {
            Button::Open => response_of(button.id_text(), typed) == ResponseView::Click,
            Button::Approve => response_of(button.id_text(), typed) == ResponseView::Run(
                ActionView::Approve,
            ),
            Button::Reject => response_of(button.id_text(), typed) == ResponseView::Run(
                ActionView::Reject,
            ),
            Button::Reply => response_of(button.id_text(), typed) != ResponseView::Click,
        },
{
    reveal_strlit("open");
    reveal_strlit("approve");
    reveal_strlit("reject");
    reveal_strlit("reply");
    assert("open"@.len() == 4 && "approve"@.len() == 7 && "reject"@.len() == 6 && "reply"@.len()
        == 5);
}

/// The buttons do what they are labelled: a press of the one that reads Approve approves, of the
/// one that reads Reject rejects, and of the one that reads Reply sends what was typed, without
/// the blanks around it, or nothing where nothing was. No other button decides or sends.
pub proof fn labels_are_true(button: Button, typed: Option<Seq<char>>)
    ensures
        ({
            let response = response_of(button.id_text(), typed);
            let label = button.title_text();
            &&& label == "Approve"@ <==> response == ResponseView::Run(ActionView::Approve)
            &&& label == "Reject"@ <==> response == ResponseView::Run(ActionView::Reject)
            &&& label == "Open"@ <==> response == ResponseView::Click
            &&& label == "Reply"@ && typed is Some && trimmed(typed->0).len() > 0 ==> response
                == ResponseView::Run(ActionView::Reply(trimmed(typed->0)))
            &&& label == "Reply"@ && (typed is None || trimmed(typed->0).len() == 0) ==> response
                == ResponseView::Nothing
            &&& label == "Approve"@ || label == "Reject"@ || label == "Open"@ || label == "Reply"@
        }),
{
    reveal_strlit("open");
    reveal_strlit("approve");
    reveal_strlit("reject");
    reveal_strlit("reply");
    assert("open"@.len() == 4 && "approve"@.len() == 7 && "reject"@.len() == 6 && "reply"@.len()
        == 5);
    reveal_strlit("Open");
    reveal_strlit("Approve");
    reveal_strlit("Reject");
    reveal_strlit("Reply");
    assert("Open"@.len() == 4 && "Approve"@.len() == 7 && "Reject"@.len() == 6 && "Reply"@.len()
        == 5);
}

/// What a response of another id comes to, that of a click on the body among them: what the
/// notification is about is opened, and nothing is decided.
pub proof fn other_responses_open_the_subject(action_id: Seq<char>, typed: Option<Seq<char>>)
    requires
        action_id != "approve"@,
        action_id != "reject"@,
        action_id != "reply"@,
    ensures
        response_of(action_id, typed) == ResponseView::Click,
{
}

/// Which buttons a notification gets: a decision is offered both ways and nothing beside it, a
/// message can be answered or opened, and anything else can only be opened. Every kind has a
/// category of its own.
pub proof fn kinds_have_their_own_buttons(kind: ActionKind, other: ActionKind)
    ensures
        buttons_of(kind).contains(Button::Approve) <==> kind == ActionKind::Approval,
        buttons_of(kind).contains(Button::Reject) <==> kind == ActionKind::Approval,
        buttons_of(kind).contains(Button::Reply) <==> kind == ActionKind::Message,
        buttons_of(kind).contains(Button::Open) <==> kind != ActionKind::Approval,
        buttons_of(kind).no_duplicates(),
        kind != ActionKind::Default ==> buttons_of(kind).len() == 2 && (buttons_of(kind)[0]
            == Button::Approve || buttons_of(kind)[0] == Button::Reply),
        category_of(kind) == category_of(other) <==> kind == other,
{
    let all = buttons_of(kind);
    match kind {
        ActionKind::Default => {
            assert(all[0] == Button::Open);
        },
        ActionKind::Approval => {
            assert(all[0] == Button::Approve && all[1] == Button::Reject);
        },
        ActionKind::Message => {
            assert(all[0] == Button::Reply && all[1] == Button::Open);
        },
    }
    reveal_strlit("openframe-console-notification");
    reveal_strlit("openframe-console-approval");
    reveal_strlit("openframe-console-message");
    assert("openframe-console-notification"@.len() == 30);
    assert("openframe-console-approval"@.len() == 26);
    assert("openframe-console-message"@.len() == 25);
}

/// What a request carries is read as it was written, and one that carries nothing gives nothing.
pub proof fn carried_payload_is_read(text: Seq<char>)
    ensures
        payload_in(Some(text)) == json_of_text(text),
        payload_in(None) is None,
{
}

/// The categories go by the names that notifications already delivered carry.
pub proof fn categories_keep_their_names()
    ensures
        category_of(ActionKind::Default) == "openframe-console-notification"@,
        category_of(ActionKind::Approval) == "openframe-console-approval"@,
        category_of(ActionKind::Message) == "openframe-console-message"@,
{
}

/// How the buttons behave, by what a press of them does: what approves asks for an unlocked device
/// and nothing else does, what rejects is shown as destructive, what opens brings the application
/// to the front, and what takes a text has a field for it.
pub proof fn only_approving_asks_to_unlock(button: Button, text: Seq<char>)
    requires
        trimmed(text).len() > 0,
    ensures
        ({
            let response = response_of(button.id_text(), Some(text));
            &&& button.style_of() == ButtonStyle::AuthenticationRequired <==> response
                == ResponseView::Run(ActionView::Approve)
            &&& button.style_of() == ButtonStyle::Destructive <==> response == ResponseView::Run(
                ActionView::Reject,
            )
            &&& button.style_of() == ButtonStyle::Foreground <==> response == ResponseView::Click
            &&& button.style_of() == ButtonStyle::TextInput <==> response == ResponseView::Run(
                ActionView::Reply(trimmed(text)),
            )
        }),
{
    reveal_strlit("open");
    reveal_strlit("approve");
    reveal_strlit("reject");
    reveal_strlit("reply");
    assert("open"@.len() == 4 && "approve"@.len() == 7 && "reject"@.len() == 6 && "reply"@.len()
        == 5);
}

} // verus!
