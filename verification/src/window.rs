//! Windows, the tray and the life of the process: what each event comes to.
use vstd::prelude::*;
use vstd::string::*;

use crate::json::{put, Json, JsonView, Member};
use crate::link::{is_web, same_origin, same_place, web, UrlParts, UrlView};
use crate::text::{
    cut, decimal, decimal_reads_back, decimal_text, option_text, same_text, starts_with, trim, trimmed, truncate,
};
use crate::windows_activator::{is_activation_launch, TOAST_ACTIVATED_ARG};

verus! {

/// Label of the main window.
pub const MAIN_LABEL: &'static str = "main";

/// What the labels of further windows start with.
pub const CHILD_PREFIX: &'static str = "child-";

/// Title every window opens with, before its page has one.
pub const WINDOW_TITLE: &'static str = "OpenFrame";

/// Cap on a title taken over from a page, in characters.
pub const MAX_WINDOW_TITLE_CHARS: usize = 200;

/// Event that tells the page it is back in front of the user.
pub const RESUME_EVENT: &'static str = "shell:resumed";

/// Whether a label is that of a window that shows the bundled pages.
pub open spec fn bundle_label(label: Seq<char>) -> bool {
    label == MAIN_LABEL@ || CHILD_PREFIX@.is_prefix_of(label)
}

pub fn is_bundle_window(label: &str) -> (r: bool)
    ensures
        r == bundle_label(label@),
{
    same_text(label, MAIN_LABEL) || starts_with(label, CHILD_PREFIX)
}

// ---------------------------------------------------------------------------------------
// Titles.

/// The window's title for a document's: trimmed and cut, and none where nothing is left.
pub open spec fn title_of(title: Seq<char>) -> Option<Seq<char>> {
    let shown = cut(trimmed(title), MAX_WINDOW_TITLE_CHARS as int);
    if shown.len() == 0 {
        None
    } else {
        Some(shown)
    }
}

/// The title a window takes over from its page. A document without one must not blank the
/// window's.
pub fn mirror_document_title(title: &str) -> (r: Option<String>)
    ensures
        option_text(r) == title_of(title@),
{
    let shown = truncate(trim(title).as_str(), MAX_WINDOW_TITLE_CHARS);
    if shown.as_str().is_empty() {
        None
    } else {
        Some(shown)
    }
}

// ---------------------------------------------------------------------------------------
// New windows.

/// A window that is open, and where its page is.
#[derive(Debug, PartialEq)]
pub struct LiveWindow {
    pub label: String,
    pub url: Option<UrlParts>,
}

/// Whether a window shows a page of the place that `url` is in.
pub open spec fn hosts(window: LiveWindow, url: UrlView) -> bool {
    bundle_label(window.label@) && window.url is Some && same_place(window.url->0@, url)
}

/// Where a request for a new window goes.
#[derive(Debug, PartialEq)]
pub enum NewWindow {
    Deny,
    /// A further window of the application, set off from the last one by so many points.
    Child { label: String, offset: u64 },
    /// The user's own browser.
    Browser(String),
}

pub enum NewWindowView {
    Deny,
    Child { label: Seq<char>, offset: u64 },
    Browser(Seq<char>),
}

impl View for NewWindow {
    type V = NewWindowView;

    open spec fn view(&self) -> NewWindowView {
        match *self {
            NewWindow::Deny => NewWindowView::Deny,
            NewWindow::Child { label, offset } => NewWindowView::Child { label: label@, offset },
            NewWindow::Browser(url) => NewWindowView::Browser(url@),
        }
    }
}

/// Whether some window shows a page of the place that `url` is in.
pub open spec fn in_app(windows: Seq<LiveWindow>, url: UrlView) -> bool {
    exists|i: int| 0 <= i < windows.len() && hosts(#[trigger] windows[i], url)
}

/// Where a request for a new window goes: pages of the bundle into a window of the
/// application, web pages into the browser, anything else nowhere.
pub open spec fn route_window(url: UrlView, windows: Seq<LiveWindow>, count: usize) -> NewWindowView {
    if !web(url) && url.scheme != "tauri"@ {
        NewWindowView::Deny
    } else if in_app(windows, url) {
        NewWindowView::Child {
            label: CHILD_PREFIX@ + decimal(count as nat),
            offset: ((count % 6) * 36) as u64,
        }
    } else if web(url) {
        NewWindowView::Browser(url.href)
    } else {
        NewWindowView::Deny
    }
}

fn is_in_app(windows: &Vec<LiveWindow>, url: &UrlParts) -> (r: bool)
    ensures
        r == in_app(windows@, url@),
{
    let mut i: usize = 0;
    while i < windows.len()
        invariant
            i <= windows@.len(),
            forall|j: int| 0 <= j < i ==> !hosts(#[trigger] windows@[j], url@),
        decreases windows@.len() - i,
    {
        if is_bundle_window(windows[i].label.as_str()) {
            if let Some(page) = &windows[i].url {
                if same_origin(page, url) {
                    assert(hosts(windows@[i as int], url@));
                    return true;
                }
            }
        }
        i += 1;
    }
    false
}

/// Route a request for a new window. `count` numbers the windows opened so; it starts over
/// when it is full.
pub fn handle_new_window(url: &UrlParts, windows: &Vec<LiveWindow>, count: &mut usize) -> (r:
    NewWindow)
    ensures
        r@ == route_window(url@, windows@, *old(count)),
        *final(count) == if r@ is Child {
            if *old(count) == usize::MAX {
                0
            } else {
                (*old(count) + 1) as usize
            }
        } else {
            *old(count)
        },
{
    let is_web_url = is_web(url);
    if !is_web_url && !same_text(url.scheme.as_str(), "tauri") {
        return NewWindow::Deny;
    }
    if is_in_app(windows, url) {
        let n: usize = *count;
        *count = n.wrapping_add(1);
        let mut label = CHILD_PREFIX.to_string();
        label.append(decimal_text(n as u64).as_str());
        return NewWindow::Child { label, offset: ((n % 6) * 36) as u64 };
    }
    if is_web_url {
        NewWindow::Browser(url.href.clone())
    } else {
        NewWindow::Deny
    }
}

/// Nothing but a web page is ever handed to the browser, and no window is opened for a page
/// that is not the bundle's; a window opened so counts as one of the bundle's in turn.
pub proof fn new_windows_stay_in_bounds(url: UrlView, windows: Seq<LiveWindow>, count: usize)
    ensures
        match route_window(url, windows, count) {
            NewWindowView::Browser(href) => web(url) && href == url.href && !in_app(windows, url),
            NewWindowView::Child { label, offset } => in_app(windows, url) && bundle_label(label)
                && offset <= 180,
            NewWindowView::Deny => true,
        },
{
    let label = CHILD_PREFIX@ + decimal(count as nat);
    assert(label.subrange(0, CHILD_PREFIX@.len() as int) =~= CHILD_PREFIX@);
}

// ---------------------------------------------------------------------------------------
// Whether the main window is in front of the user.

/// Whether the main window is in front of the user, since when it has not been, and what its
/// page was last told of that.
#[derive(Clone, Copy, Debug, PartialEq, Eq, Structural)]
pub struct MainPresence {
    pub present: bool,
    /// Wall clock, in milliseconds: a clock that stops while the machine sleeps would report
    /// only the time it was awake.
    pub hidden_since: Option<u64>,
    pub webview_visible: Option<bool>,
}

impl Default for MainPresence {
    fn default() -> (r: Self)
        ensures
            r == (MainPresence { present: false, hidden_since: None, webview_visible: None }),
    {
        MainPresence { present: false, hidden_since: None, webview_visible: None }
    }
}

pub open spec fn after_presence(presence: MainPresence, present: bool, now: u64) -> MainPresence {
    if presence.present == present {
        presence
    } else {
        MainPresence {
            present,
            hidden_since: if present {
                None
            } else {
                Some(now)
            },
            ..presence
        }
    }
}

/// How long the window was away, in milliseconds, where it has just come back. Nothing for
/// the first reveal, and nothing where the clock was set back in between.
pub open spec fn away(presence: MainPresence, present: bool, now: u64) -> Option<u64> {
    match presence.hidden_since {
        Some(since) => if present && !presence.present && now >= since {
            Some((now - since) as u64)
        } else {
            None
        },
        None => None,
    }
}

/// Record whether the main window is in front of the user and say, on the way back, how long
/// it was away. Events are not edges: what changes nothing is passed over.
pub fn set_main_presence(presence: &mut MainPresence, present: bool, now: u64) -> (r: Option<u64>)
    ensures
        *final(presence) == after_presence(*old(presence), present, now),
        r == away(*old(presence), present, now),
{
    if presence.present == present {
        return None;
    }
    presence.present = present;
    if present {
        let since = presence.hidden_since;
        presence.hidden_since = None;
        match since {
            Some(since) => if now >= since {
                Some(now - since)
            } else {
                None
            },
            None => None,
        }
    } else {
        presence.hidden_since = Some(now);
        None
    }
}

/// What the page is told of an absence.
pub fn resume_payload(hidden_ms: u64) -> (r: Json)
    ensures
        r@ == JsonView::Object(map!["hiddenMs"@ => JsonView::Integer(hidden_ms as int)]),
{
    let mut members: Vec<Member> = Vec::new();
    put(&mut members, "hiddenMs", Json::Unsigned(hidden_ms));
    Json::Object(members)
}

/// Forget the main window: it is gone, and the one that replaces it starts from nothing.
pub fn clear_main_presence(presence: &mut MainPresence)
    ensures
        *final(presence) == (MainPresence {
            present: false,
            hidden_since: None,
            webview_visible: None,
        }),
{
    presence.present = false;
    presence.hidden_since = None;
    presence.webview_visible = None;
}

/// What the page is to be told, where it has not been told already.
pub open spec fn page_wants(presence: MainPresence) -> Option<bool> {
    if presence.webview_visible == Some(presence.present) {
        None
    } else {
        Some(presence.present)
    }
}

/// What the page is to be told of the window's presence, whatever that has become by now.
pub fn mirror_webview(presence: &MainPresence) -> (r: Option<bool>)
    ensures
        r == page_wants(*presence),
{
    match presence.webview_visible {
        Some(told) => if told == presence.present {
            None
        } else {
            Some(presence.present)
        },
        None => Some(presence.present),
    }
}

/// The page has been told.
pub fn webview_told(presence: &mut MainPresence, visible: bool)
    ensures
        *final(presence) == (MainPresence { webview_visible: Some(visible), ..*old(presence) }),
{
    presence.webview_visible = Some(visible);
}

/// The first reveal of a window announces no absence; nor does that of a window that replaces
/// one that was away.
pub proof fn first_reveal_announces_nothing(presence: MainPresence, now: u64)
    requires
        presence == (MainPresence { present: false, hidden_since: None, webview_visible: None }),
    ensures
        away(presence, true, now) is None,
        after_presence(presence, true, now).present,
{
}

/// Going away and coming back is announced once, with the time in between; while nothing
/// changes nothing is announced.
pub proof fn absence_is_announced_once(presence: MainPresence, left: u64, back: u64, later: u64)
    requires
        presence.present,
        presence.hidden_since is None,
        left <= back,
    ensures
        ({
            let gone = after_presence(presence, false, left);
            let here = after_presence(gone, true, back);
            &&& away(presence, false, left) is None
            &&& after_presence(gone, false, back) == gone
            &&& away(gone, true, back) == Some((back - left) as u64)
            &&& here.hidden_since is None
            &&& away(here, true, later) is None
            &&& after_presence(here, true, later) == here
        }),
{
}

/// Once the page has been told what is so, it is not told again until that changes.
pub proof fn page_is_told_once(presence: MainPresence)
    ensures
        page_wants(MainPresence { webview_visible: Some(presence.present), ..presence }) is None,
        page_wants(
            MainPresence {
                present: !presence.present,
                webview_visible: Some(presence.present),
                ..presence
            },
        ) == Some(!presence.present),
{
}

// ---------------------------------------------------------------------------------------
// Showing a window.

/// What showing the main window comes to.
#[derive(Clone, Copy, Debug, PartialEq, Eq, Structural)]
pub enum ShowStep {
    /// Bring the window that is there to the front.
    Raise,
    /// Build one.
    Build,
    /// Leave it to setup, which is about to build one.
    Wait,
}

/// What showing the main window comes to, for a notification and at the user's own request.
pub open spec fn show_step(is_open: bool, headless: bool, asked: bool) -> ShowStep {
    if is_open {
        ShowStep::Raise
    } else if headless || asked {
        ShowStep::Build
    } else {
        ShowStep::Wait
    }
}

/// A window that is there is raised and never built again. Where there is none, the user's own
/// request always builds one; a notification builds one only in a session that starts without,
/// and otherwise leaves it to setup.
pub proof fn a_window_is_built_once(headless: bool, asked: bool)
    ensures
        show_step(true, headless, asked) == ShowStep::Raise,
        show_step(false, headless, true) == ShowStep::Build,
        show_step(false, true, asked) == ShowStep::Build,
        show_step(false, false, false) == ShowStep::Wait,
{
}

/// What showing the main window for a notification comes to. Without a window nothing is
/// built under setup's hands, except in a session that never builds one.
pub fn show_primary_window(is_open: bool, headless: bool) -> (r: ShowStep)
    ensures
        r == show_step(is_open, headless, false),
        r == if is_open {
            ShowStep::Raise
        } else if headless {
            ShowStep::Build
        } else {
            ShowStep::Wait
        },
{
    if is_open {
        ShowStep::Raise
    } else if headless {
        ShowStep::Build
    } else {
        ShowStep::Wait
    }
}

/// What the user's own request for the application comes to: a window in any case.
pub fn raise_or_open_main_window(is_open: bool) -> (r: ShowStep)
    ensures
        r == show_step(is_open, false, true),
        r == if is_open {
            ShowStep::Raise
        } else {
            ShowStep::Build
        },
{
    if is_open {
        ShowStep::Raise
    } else {
        ShowStep::Build
    }
}

/// What follows a look at whether the destroyed window has released its label.
#[derive(Clone, Copy, Debug, PartialEq, Eq, Structural)]
pub enum ReopenStep {
    Open,
    /// Look again after so many milliseconds.
    LookAgain(u64),
    GiveUp,
}

/// How many times to look.
pub const REOPEN_LOOKS: u32 = 50;

/// What follows a look, counted from zero.
pub open spec fn reopen_step(look: u32, label_taken: bool) -> ReopenStep {
    if look >= REOPEN_LOOKS {
        ReopenStep::GiveUp
    } else if label_taken {
        ReopenStep::LookAgain(50)
    } else {
        ReopenStep::Open
    }
}

/// A window is opened again as soon as its label is free, which is looked at fifty times, every
/// fifty milliseconds.
pub proof fn freed_label_opens_the_window(look: u32)
    ensures
        look < 50 ==> reopen_step(look, false) == ReopenStep::Open,
        look < 50 ==> reopen_step(look, true) == ReopenStep::LookAgain(50),
        look >= 50 ==> reopen_step(look, false) == ReopenStep::GiveUp && reopen_step(look, true)
            == ReopenStep::GiveUp,
{
}

/// What follows the look number `look`, counted from zero.
pub fn reopen_main_window(look: u32, label_taken: bool) -> (r: ReopenStep)
    ensures
        r == reopen_step(look, label_taken),
        r == if look >= REOPEN_LOOKS {
            ReopenStep::GiveUp
        } else if label_taken {
            ReopenStep::LookAgain(50)
        } else {
            ReopenStep::Open
        },
{
    if look >= REOPEN_LOOKS {
        ReopenStep::GiveUp
    } else if label_taken {
        ReopenStep::LookAgain(50)
    } else {
        ReopenStep::Open
    }
}

/// Whether the application stays in the dock while a window leaves: as long as some other one
/// is on screen.
pub fn stays_in_dock(windows: &Vec<(String, bool)>, leaving: &str) -> (r: bool)
    ensures
        r == exists|i: int|
            0 <= i < windows@.len() && (#[trigger] windows@[i]).0@ != leaving@ && windows@[i].1,
{
    let mut i: usize = 0;
    while i < windows.len()
        invariant
            i <= windows@.len(),
            forall|j: int|
                0 <= j < i ==> !((#[trigger] windows@[j]).0@ != leaving@ && windows@[j].1),
        decreases windows@.len() - i,
    {
        if windows[i].1 && !same_text(windows[i].0.as_str(), leaving) {
            return true;
        }
        i += 1;
    }
    false
}

/// What the load of a page comes to.
#[derive(Clone, Copy, Debug, PartialEq, Eq, Structural)]
pub struct PagePlan {
    /// Park clicks again: what listened for them is gone.
    pub reset_click_gate: bool,
    /// Show the window, now that its page has been painted.
    pub reveal: bool,
    /// The main window is in front of the user.
    pub present: bool,
}

/// What a step of a page's load comes to, in the main window or another.
pub open spec fn page_plan(main: bool, finished: bool) -> PagePlan {
    PagePlan {
        reset_click_gate: !finished && main,
        reveal: finished,
        present: finished && main,
    }
}

/// Every window is revealed once its page has loaded and none before. Of the main window alone,
/// clicks are parked while its page loads and it is in front of the user once it has.
pub proof fn loaded_page_reveals_its_window(main: bool)
    ensures
        page_plan(main, true).reveal && !page_plan(main, false).reveal,
        page_plan(true, true).present && !page_plan(true, true).reset_click_gate,
        page_plan(true, false).reset_click_gate && !page_plan(true, false).present,
        !page_plan(false, true).present && !page_plan(false, true).reset_click_gate,
        !page_plan(false, false).present && !page_plan(false, false).reset_click_gate,
{
}

/// What the start (`finished` false) or the end of a page's load comes to.
pub fn handle_page_load(label: &str, finished: bool) -> (r: PagePlan)
    ensures
        r == page_plan(label@ == MAIN_LABEL@, finished),
        r == (PagePlan {
            reset_click_gate: !finished && label@ == MAIN_LABEL@,
            reveal: finished,
            present: finished && label@ == MAIN_LABEL@,
        }),
{
    let main = same_text(label, MAIN_LABEL);
    PagePlan { reset_click_gate: !finished && main, reveal: finished, present: finished && main }
}

// ---------------------------------------------------------------------------------------
// Window events.

/// Something that happened to a window.
#[derive(Clone, Copy, Debug, PartialEq, Eq, Structural)]
pub enum WindowChange {
    CloseRequested,
    /// It was resized, minimized or restored, with what it says of itself where it can.
    Resized { minimized: Option<bool>, visible: Option<bool> },
    Destroyed,
    Focused(bool),
    Other,
}

/// What is to be done about it.
#[derive(Clone, Copy, Debug, PartialEq, Eq, Structural)]
pub struct WindowPlan {
    /// Hide the window instead of closing it.
    pub hide: bool,
    /// Record whether the main window is in front of the user.
    pub presence: Option<bool>,
    /// Forget the main window.
    pub forget: bool,
    /// Park clicks until a page listens again.
    pub reset_click_gate: bool,
    /// Nothing is unread any more.
    pub clear_unread: bool,
    /// Look whether the application stays in the dock without this window.
    pub sync_dock: bool,
}

pub open spec fn idle_plan() -> WindowPlan {
    WindowPlan {
        hide: false,
        presence: None,
        forget: false,
        reset_click_gate: false,
        clear_unread: false,
        sync_dock: false,
    }
}

/// What a change of a window asks for. The main window closes to the tray; any other closes.
pub open spec fn window_plan(main: bool, change: WindowChange) -> WindowPlan {
    match change {
        WindowChange::CloseRequested => if main {
            WindowPlan { hide: true, presence: Some(false), sync_dock: true, ..idle_plan() }
        } else {
            idle_plan()
        },
        WindowChange::Resized { minimized, visible } => if main {
            WindowPlan {
                presence: Some(minimized != Some(true) && visible != Some(false)),
                ..idle_plan()
            }
        } else {
            idle_plan()
        },
        WindowChange::Destroyed => if main {
            WindowPlan { forget: true, reset_click_gate: true, ..idle_plan() }
        } else {
            WindowPlan { sync_dock: true, ..idle_plan() }
        },
        WindowChange::Focused(focused) => WindowPlan {
            clear_unread: main && focused,
            ..idle_plan()
        },
        WindowChange::Other => idle_plan(),
    }
}

pub fn on_window_event(label: &str, change: WindowChange) -> (r: WindowPlan)
    ensures
        r == window_plan(label@ == MAIN_LABEL@, change),
{
    let main = same_text(label, MAIN_LABEL);
    let mut plan = WindowPlan {
        hide: false,
        presence: None,
        forget: false,
        reset_click_gate: false,
        clear_unread: false,
        sync_dock: false,
    };
    match change {
        WindowChange::CloseRequested => if main {
            plan.hide = true;
            plan.presence = Some(false);
            plan.sync_dock = true;
        },
        WindowChange::Resized { minimized, visible } => if main {
            let is_minimized = match minimized {
                Some(minimized) => minimized,
                None => false,
            };
            let is_visible = match visible {
                Some(visible) => visible,
                None => true,
            };
            plan.presence = Some(!is_minimized && is_visible);
        },
        WindowChange::Destroyed => if main {
            plan.forget = true;
            plan.reset_click_gate = true;
        } else {
            plan.sync_dock = true;
        },
        WindowChange::Focused(focused) => {
            plan.clear_unread = main && focused;
        },
        WindowChange::Other => {},
    }
    plan
}

// ---------------------------------------------------------------------------------------
// The life of the process.

/// Whether a request to exit is turned down. One without a code only says that the last
/// window is gone, which an application in the tray outlives.
pub fn outlives_its_windows(code: Option<i32>) -> (r: bool)
    ensures
        r == (code is None),
{
    match code {
        Some(_) => false,
        None => true,
    }
}

/// What a process starts up as.
#[derive(Clone, Copy, Debug, PartialEq, Eq, Structural)]
pub enum StartUp {
    /// It was started to serve a press of a toast's button: no window, and nothing touched of
    /// the registration at login.
    ServeActivation,
    /// The system started it at login: it stays in the tray.
    Headless,
    /// The user started it, or an update asked for its window back.
    Windowed,
}

pub open spec fn start_up_as(activation: bool, at_login: bool, asked_for_window: bool) -> StartUp {
    if activation {
        StartUp::ServeActivation
    } else if at_login && !asked_for_window {
        StartUp::Headless
    } else {
        StartUp::Windowed
    }
}

/// Decide what a process starts up as. Serving an activation is a Windows affair.
pub fn start_up(argv: &[String], windows: bool, at_login: bool, asked_for_window: bool) -> (r:
    StartUp)
    ensures
        r == start_up_as(windows && activation_argv(argv@), at_login, asked_for_window),
{
    if windows && is_activation_launch(argv) {
        StartUp::ServeActivation
    } else if at_login && !asked_for_window {
        StartUp::Headless
    } else {
        StartUp::Windowed
    }
}

/// Whether some argument marks a launch that serves an activation.
pub open spec fn activation_argv(argv: Seq<String>) -> bool {
    exists|i: int| 0 <= i < argv.len() && (#[trigger] argv[i])@ == TOAST_ACTIVATED_ARG@
}

/// Whether a second launch raises the window: any but one that serves an activation.
pub fn raises_on_relaunch(argv: &[String], windows: bool) -> (r: bool)
    ensures
        r == !(windows && activation_argv(argv@)),
{
    !(windows && is_activation_launch(argv))
}

/// A launch that serves an activation opens no window, whether it is the first or a second
/// one; every launch of the user's own does.
pub proof fn activation_launch_opens_no_window(at_login: bool, asked_for_window: bool)
    ensures
        start_up_as(true, at_login, asked_for_window) == StartUp::ServeActivation,
        start_up_as(false, false, asked_for_window) == StartUp::Windowed,
        start_up_as(false, true, true) == StartUp::Windowed,
        start_up_as(false, true, false) == StartUp::Headless,
{
}

// ---------------------------------------------------------------------------------------
// The tray.

/// What an item of the tray's menu does.
#[derive(Clone, Copy, Debug, PartialEq, Eq, Structural)]
pub enum TrayAction {
    Show,
    ToggleAutostart,
    SignOut,
    Quit,
}

impl TrayAction {
    pub open spec fn id_text(self) -> Seq<char> {
        match self {
            TrayAction::Show => "show"@,
            TrayAction::ToggleAutostart => "autostart"@,
            TrayAction::SignOut => "signout"@,
            TrayAction::Quit => "quit"@,
        }
    }

    pub fn id(&self) -> (r: &'static str)
        ensures
            r@ == self.id_text(),
    {
        match self {
            TrayAction::Show => "show",
            TrayAction::ToggleAutostart => "autostart",
            TrayAction::SignOut => "signout",
            TrayAction::Quit => "quit",
        }
    }

    /// What an item is labelled.
    pub open spec fn title_text(self) -> Seq<char> {
        match self {
            TrayAction::Show => "Show"@,
            TrayAction::ToggleAutostart => "Start at Login"@,
            TrayAction::SignOut => "Sign Out"@,
            TrayAction::Quit => "Quit"@,
        }
    }

    pub fn title(&self) -> (r: &'static str)
        ensures
            r@ == self.title_text(),
            r@ == match *self {
                TrayAction::Show => "Show"@,
                TrayAction::ToggleAutostart => "Start at Login"@,
                TrayAction::SignOut => "Sign Out"@,
                TrayAction::Quit => "Quit"@,
            },
    {
        match self {
            TrayAction::Show => "Show",
            TrayAction::ToggleAutostart => "Start at Login",
            TrayAction::SignOut => "Sign Out",
            TrayAction::Quit => "Quit",
        }
    }
}

/// The items of the tray's menu, from the top.
pub fn tray_menu() -> (r: Vec<TrayAction>)
    ensures
        r@ == seq![
            TrayAction::Show,
            TrayAction::ToggleAutostart,
            TrayAction::SignOut,
            TrayAction::Quit,
        ],
{
    let r: Vec<TrayAction> = vec![
        TrayAction::Show,
        TrayAction::ToggleAutostart,
        TrayAction::SignOut,
        TrayAction::Quit,
    ];
    assert(r@ =~= seq![
        TrayAction::Show,
        TrayAction::ToggleAutostart,
        TrayAction::SignOut,
        TrayAction::Quit,
    ]);
    r
}

/// What the item of an id does; nothing for an id that no item has.
pub open spec fn tray_action_of(id: Seq<char>) -> Option<TrayAction> {
    if id == "show"@ {
        Some(TrayAction::Show)
    } else if id == "autostart"@ {
        Some(TrayAction::ToggleAutostart)
    } else if id == "signout"@ {
        Some(TrayAction::SignOut)
    } else if id == "quit"@ {
        Some(TrayAction::Quit)
    } else {
        None
    }
}

pub fn tray_action(id: &str) -> (r: Option<TrayAction>)
    ensures
        r == tray_action_of(id@),
{
    if same_text(id, "show") {
        Some(TrayAction::Show)
    } else if same_text(id, "autostart") {
        Some(TrayAction::ToggleAutostart)
    } else if same_text(id, "signout") {
        Some(TrayAction::SignOut)
    } else if same_text(id, "quit") {
        Some(TrayAction::Quit)
    } else {
        None
    }
}

/// Every item of the menu does what it is listed as.
pub proof fn tray_items_do_what_they_say(action: TrayAction)
    ensures
        tray_action_of(action.id_text()) == Some(action),
{
    reveal_strlit("show");
    reveal_strlit("autostart");
    reveal_strlit("signout");
    reveal_strlit("quit");
    assert("show"@.len() == 4 && "autostart"@.len() == 9 && "signout"@.len() == 7 && "quit"@.len()
        == 4);
    assert("show"@[0] == 's' && "quit"@[0] == 'q');
}

/// How a message of the page's is logged.
#[derive(Clone, Copy, Debug, PartialEq, Eq, Structural)]
pub enum LogLevel {
    Error,
    Warn,
    Info,
}

/// The level that a word names.
pub open spec fn level_of(level: Seq<char>) -> LogLevel {
    if level == "error"@ {
        LogLevel::Error
    } else if level == "warn"@ {
        LogLevel::Warn
    } else {
        LogLevel::Info
    }
}

/// Two words raise the level of a page's message, and no other does.
pub proof fn two_words_raise_the_level(level: Seq<char>)
    ensures
        level_of("error"@) == LogLevel::Error,
        level_of("warn"@) == LogLevel::Warn,
        level != "error"@ && level != "warn"@ ==> level_of(level) == LogLevel::Info,
{
    reveal_strlit("error");
    reveal_strlit("warn");
    assert("error"@.len() == 5 && "warn"@.len() == 4);
}

/// The level that a page names; anything it does not know is plain information.
pub fn webview_log(level: &str) -> (r: LogLevel)
    ensures
        r == level_of(level@),
        r == if level@ == "error"@ {
            LogLevel::Error
        } else if level@ == "warn"@ {
            LogLevel::Warn
        } else {
            LogLevel::Info
        },
{
    if same_text(level, "error") {
        LogLevel::Error
    } else if same_text(level, "warn") {
        LogLevel::Warn
    } else {
        LogLevel::Info
    }
}

/// Which windows show the bundled pages: the main window and those whose label starts as a
/// further window's does.
pub proof fn bundle_windows_are_known_by_label(label: Seq<char>, rest: Seq<char>)
    ensures
        bundle_label("main"@),
        bundle_label("child-"@ + rest),
        label != "main"@ && !"child-"@.is_prefix_of(label) ==> !bundle_label(label),
{
    assert(("child-"@ + rest).subrange(0, "child-"@.len() as int) =~= "child-"@);
}

/// A window takes over its page's title without the blanks around it, and its first two hundred
/// characters where it is longer. A blank title is not taken over.
pub proof fn window_takes_over_the_title(title: Seq<char>)
    ensures
        trimmed(title).len() == 0 ==> title_of(title) is None,
        0 < trimmed(title).len() <= 200 ==> title_of(title) == Some(trimmed(title)),
        trimmed(title).len() > 200 ==> title_of(title) == Some(trimmed(title).take(200)),
{
}

/// Where a request for a new window goes. A page that some window of the bundle is at the place
/// of gets a window of its own; any other web page goes to the browser as it is; and nothing else
/// goes anywhere.
pub proof fn new_windows_are_routed_by_place(
    url: UrlView,
    windows: Seq<LiveWindow>,
    count: usize,
    at: int,
)
    ensures
        ({
            let routed = route_window(url, windows, count);
            let from_the_web = url.scheme == "http"@ || url.scheme == "https"@;
            let ours = 0 <= at < windows.len() && bundle_label(windows[at].label@)
                && windows[at].url is Some && windows[at].url->0@.scheme == url.scheme
                && windows[at].url->0@.host == url.host && windows[at].url->0@.port == url.port;
            &&& (from_the_web || url.scheme == "tauri"@) && ours ==> routed == (
            NewWindowView::Child {
                label: "child-"@ + decimal(count as nat),
                offset: ((count % 6) * 36) as u64,
            })
            &&& from_the_web && !in_app(windows, url) ==> routed == NewWindowView::Browser(
                url.href,
            )
            &&& !from_the_web && !in_app(windows, url) ==> routed == NewWindowView::Deny
            &&& !from_the_web && url.scheme != "tauri"@ ==> routed == NewWindowView::Deny
            &&& in_app(windows, url) ==> exists|i: int|
                #![trigger windows[i]]
                0 <= i < windows.len() && bundle_label(windows[i].label@) && windows[i].url is Some
                    && windows[i].url->0@.scheme == url.scheme && windows[i].url->0@.host
                    == url.host && windows[i].url->0@.port == url.port
        }),
{
    if 0 <= at < windows.len() && bundle_label(windows[at].label@) && windows[at].url is Some
        && windows[at].url->0@.scheme == url.scheme && windows[at].url->0@.host == url.host
        && windows[at].url->0@.port == url.port {
        assert(hosts(windows[at], url));
    }
    if in_app(windows, url) {
        let i = choose|i: int| 0 <= i < windows.len() && hosts(#[trigger] windows[i], url);
        assert(bundle_label(windows[i].label@) && windows[i].url is Some && same_place(
            windows[i].url->0@,
            url,
        ));
    }
}

/// Two windows that are opened under two numbers have two labels, and neither is the main
/// window's.
pub proof fn further_windows_have_their_own_labels(a: nat, b: nat)
    ensures
        "child-"@ + decimal(a) == "child-"@ + decimal(b) ==> a == b,
        "child-"@ + decimal(a) != "main"@,
{
    reveal_strlit("child-");
    reveal_strlit("main");
    decimal_reads_back(a);
    decimal_reads_back(b);
    if "child-"@ + decimal(a) == "child-"@ + decimal(b) {
        assert(("child-"@ + decimal(a)).skip(6) =~= decimal(a));
        assert(("child-"@ + decimal(b)).skip(6) =~= decimal(b));
    }
    assert(("child-"@ + decimal(a))[0] == 'c');
    assert("main"@[0] == 'm');
}

/// A change of presence is recorded with its time on the way out and cleared on the way back. It
/// does not touch what the page was told.
pub proof fn presence_remembers_since_when(presence: MainPresence, present: bool, now: u64)
    ensures
        ({
            let after = after_presence(presence, present, now);
            &&& after.present == present
            &&& after.webview_visible == presence.webview_visible
            &&& presence.present && !present ==> after.hidden_since == Some(now)
            &&& !presence.present && present ==> after.hidden_since is None
            &&& presence.present == present ==> after == presence && away(presence, present, now)
                is None
            &&& !present ==> away(presence, present, now) is None
            &&& presence.hidden_since is None ==> away(presence, present, now) is None
            &&& presence.hidden_since is Some && !presence.present && present ==> (if now
                >= presence.hidden_since->0 {
                away(presence, present, now) == Some((now - presence.hidden_since->0) as u64)
            } else {
                away(presence, present, now) is None
            })
        }),
{
}

/// The page is told what is so, and only where it was told otherwise or not at all.
pub proof fn page_is_told_what_is_so(presence: MainPresence)
    ensures
        page_wants(presence) is Some ==> page_wants(presence) == Some(presence.present)
            && presence.webview_visible != Some(presence.present),
        presence.webview_visible is None ==> page_wants(presence) == Some(presence.present),
        presence.webview_visible == Some(!presence.present) ==> page_wants(presence) == Some(
            presence.present,
        ),
{
}

/// What becomes of the main window. A request to close it hides it instead, and it is then away.
/// It is away while it is minimized or not visible and present otherwise; what cannot be asked of
/// it counts for present. Once it is destroyed it is forgotten and clicks are parked. Looking at
/// it leaves nothing unread.
pub proof fn main_window_closes_to_the_tray(
    minimized: Option<bool>,
    visible: Option<bool>,
    focused: bool,
)
    ensures
        ({
            let close = window_plan(true, WindowChange::CloseRequested);
            let resized = window_plan(true, WindowChange::Resized { minimized, visible });
            let gone = window_plan(true, WindowChange::Destroyed);
            let focus = window_plan(true, WindowChange::Focused(focused));
            &&& close.hide && close.presence == Some(false) && close.sync_dock && !close.forget
                && !close.clear_unread && !close.reset_click_gate
            &&& resized.presence is Some && (resized.presence->0 <==> !(minimized == Some(true)
                || visible == Some(false)))
            &&& !resized.hide && !resized.forget && !resized.clear_unread
                && !resized.reset_click_gate && !resized.sync_dock
            &&& gone.forget && gone.reset_click_gate && !gone.hide && gone.presence is None
                && !gone.clear_unread && !gone.sync_dock
            &&& focus.clear_unread == focused && !focus.hide && !focus.forget && focus.presence
                is None && !focus.reset_click_gate && !focus.sync_dock
            &&& window_plan(true, WindowChange::Other) == window_plan(false, WindowChange::Other)
        }),
{
}

/// No other window is hidden instead of closed, and none has a say in whether the user is there,
/// what is unread or where clicks go. What its end leaves to look at is the dock.
pub proof fn other_windows_only_touch_the_dock(change: WindowChange)
    ensures
        ({
            let plan = window_plan(false, change);
            &&& !plan.hide && plan.presence is None && !plan.forget && !plan.reset_click_gate
                && !plan.clear_unread
            &&& plan.sync_dock <==> change == WindowChange::Destroyed
        }),
{
}

/// The items of the tray do what they are labelled, and no other id does anything.
pub proof fn tray_labels_are_true(action: TrayAction, id: Seq<char>)
    ensures
        ({
            let done = tray_action_of(action.id_text());
            &&& action.title_text() == "Show"@ <==> done == Some(TrayAction::Show)
            &&& action.title_text() == "Start at Login"@ <==> done == Some(
                TrayAction::ToggleAutostart,
            )
            &&& action.title_text() == "Sign Out"@ <==> done == Some(TrayAction::SignOut)
            &&& action.title_text() == "Quit"@ <==> done == Some(TrayAction::Quit)
        }),
        id != "show"@ && id != "autostart"@ && id != "signout"@ && id != "quit"@ ==> tray_action_of(
            id,
        ) is None,
{
    tray_items_do_what_they_say(action);
    reveal_strlit("Show");
    reveal_strlit("Start at Login");
    reveal_strlit("Sign Out");
    reveal_strlit("Quit");
    assert("Show"@.len() == 4 && "Start at Login"@.len() == 14 && "Sign Out"@.len() == 8);
    assert("Quit"@.len() == 4 && "Show"@[0] == 'S' && "Quit"@[0] == 'Q');
}

/// A launch serves an activation exactly where one of its arguments says so.
pub proof fn activation_is_told_by_its_argument(argv: Seq<String>, at: int)
    ensures
        0 <= at < argv.len() && argv[at]@ == "-ToastActivated"@ ==> activation_argv(argv),
        activation_argv(argv) ==> exists|i: int|
            0 <= i < argv.len() && (#[trigger] argv[i])@ == "-ToastActivated"@,
{
}

} // verus!
