//! Signing in: the login that runs in the user's browser, the callback that comes back of it,
//! and the exchange of its ticket.
use vstd::prelude::*;
use vstd::string::*;

use crate::link::{
    auth_callback, carries_ticket, is_auth_callback, is_web, parse_url, parsed_view,
    url_carries_ticket, url_parsed, web, UrlParts, UrlView, URI_SCHEME,
};
use crate::text::{lowered, option_str, option_text, result_text, same_text};
use crate::tokens::{is_success, success, tokens_result, NativeAuthTokens, TokensView};

verus! {

/// Seconds a login in the browser may take. Nothing else ends one that the user walked away
/// from.
pub const LOGIN_TIMEOUT: u64 = 300;

// ---------------------------------------------------------------------------------------
// Starting.

/// Why a login cannot be started, or the URL to open for it.
pub open spec fn login_start(
    parsed: Result<UrlView, Seq<char>>,
    callback_scheme: Option<Seq<char>>,
) -> Result<Seq<char>, Seq<char>> {
    match parsed {
        Err(why) => Err("Invalid login URL: "@ + why),
        Ok(url) => if !web(url) {
            Err("Login URL must be http(s)"@)
        } else {
            match callback_scheme {
                None => Err("Login started without a callback scheme"@),
                Some(scheme) => if scheme == URI_SCHEME@ {
                    Ok(url.href)
                } else {
                    Err(
                        "Login callback scheme "@ + scheme + " is not the registered "@
                            + URI_SCHEME@,
                    )
                },
            }
        },
    }
}

/// A login starts where its URL is a page of the web and its callback comes back on the scheme
/// that is claimed with the system, and only there; what is opened is that URL. Otherwise the
/// page is told which of the two is wrong.
pub proof fn login_starts_on_the_web_and_comes_back_here(
    parsed: Result<UrlView, Seq<char>>,
    callback_scheme: Option<Seq<char>>,
)
    ensures
        ({
            let start = login_start(parsed, callback_scheme);
            let on_the_web = parsed is Ok && (parsed->Ok_0.scheme == "http"@
                || parsed->Ok_0.scheme == "https"@);
            &&& start is Ok <==> on_the_web && callback_scheme == Some("openframe-console"@)
            &&& start is Ok ==> start->Ok_0 == parsed->Ok_0.href
            &&& parsed is Err ==> start == Err::<Seq<char>, Seq<char>>(
                "Invalid login URL: "@ + parsed->Err_0,
            )
            &&& parsed is Ok && !on_the_web ==> start == Err::<Seq<char>, Seq<char>>(
                "Login URL must be http(s)"@,
            )
            &&& on_the_web && callback_scheme is None ==> start == Err::<Seq<char>, Seq<char>>(
                "Login started without a callback scheme"@,
            )
            &&& on_the_web && callback_scheme is Some && callback_scheme->0
                != "openframe-console"@ ==> start == Err::<Seq<char>, Seq<char>>(
                "Login callback scheme "@ + callback_scheme->0 + " is not the registered "@
                    + "openframe-console"@,
            )
        }),
{
}

/// Whether a login can be started, once its URL has been parsed.
pub fn login_from(parsed: Result<UrlParts, String>, callback_scheme: Option<&str>) -> (r: Result<
    String,
    String,
>)
    ensures
        result_text(r) == login_start(parsed_view(parsed), option_str(callback_scheme)),
{
    let url = match parsed {
        Ok(url) => url,
        Err(why) => {
            let mut r = "Invalid login URL: ".to_string();
            r.append(why.as_str());
            return Err(r);
        },
    };
    if !is_web(&url) {
        return Err("Login URL must be http(s)".to_string());
    }
    match callback_scheme {
        None => Err("Login started without a callback scheme".to_string()),
        Some(scheme) => if same_text(scheme, URI_SCHEME) {
            Ok(url.href)
        } else {
            let mut r = "Login callback scheme ".to_string();
            r.append(scheme);
            r.append(" is not the registered ");
            r.append(URI_SCHEME);
            Err(r)
        },
    }
}

/// Whether a login can be started, and the URL to open for it. The URL is about to be handed
/// to the system's launcher, which opens whatever it names, so it has to be a web page; and
/// the callback must come back on the scheme this application claims, or never.
pub fn native_auth_start(url: &str, callback_scheme: Option<&str>) -> (r: Result<String, String>)
    ensures
        result_text(r) == login_start(url_parsed(url@), option_str(callback_scheme)),
{
    login_from(parse_url(url), callback_scheme)
}

/// What the page is told where the browser could not be opened.
pub fn browser_failed(why: &str) -> (r: String)
    ensures
        r@ == "Could not open the browser: "@ + why@,
{
    let mut r = "Could not open the browser: ".to_string();
    r.append(why);
    r
}

/// What a login was ended by.
#[derive(Debug, PartialEq)]
pub enum LoginEnd {
    /// The callback, or why it came to nothing.
    Callback(Result<String, String>),
    /// Another login took its place, or the process ends.
    Dropped,
    TimedOut,
}

/// What the page is told of the end of a login.
pub open spec fn login_said(end: LoginEnd) -> Result<Seq<char>, Seq<char>> {
    match end {
        LoginEnd::Callback(result) => result_text(result),
        LoginEnd::Dropped => Err("USER_CANCELED"@),
        LoginEnd::TimedOut => Err("LOGIN_TIMEOUT"@),
    }
}

/// A login ends well only with a callback that did, and then with the callback's own URL. One
/// that was dropped and one that ran out of time are told apart.
pub proof fn login_ends_with_its_callback(end: LoginEnd, url: String, why: String)
    ensures
        login_said(LoginEnd::Callback(Ok(url))) == Ok::<Seq<char>, Seq<char>>(url@),
        login_said(LoginEnd::Callback(Err(why))) == Err::<Seq<char>, Seq<char>>(why@),
        login_said(LoginEnd::Dropped) == Err::<Seq<char>, Seq<char>>("USER_CANCELED"@),
        login_said(LoginEnd::TimedOut) == Err::<Seq<char>, Seq<char>>("LOGIN_TIMEOUT"@),
        login_said(end) is Ok ==> end is Callback,
{
}

/// What the page is told of a login.
pub fn login_result(end: LoginEnd) -> (r: Result<String, String>)
    ensures
        result_text(r) == login_said(end),
        result_text(r) == match end {
            LoginEnd::Callback(result) => result_text(result),
            LoginEnd::Dropped => Err("USER_CANCELED"@),
            LoginEnd::TimedOut => Err("LOGIN_TIMEOUT"@),
        },
{
    match end {
        LoginEnd::Callback(result) => result,
        LoginEnd::Dropped => Err("USER_CANCELED".to_string()),
        LoginEnd::TimedOut => Err("LOGIN_TIMEOUT".to_string()),
    }
}

// ---------------------------------------------------------------------------------------
// Waiting.

/// The login that is waited for, if any, by what resolves it.
pub struct PendingLogin<T> {
    pub waiting: Option<T>,
}

impl<T> PendingLogin<T> {
    pub fn new() -> (r: Self)
        ensures
            r.waiting is None,
    {
        PendingLogin { waiting: None }
    }

    /// Wait for a login. The one that was waited for is handed back, to be canceled.
    pub fn replace(&mut self, login: T) -> (r: Option<T>)
        ensures
            r == old(self).waiting,
            final(self).waiting == Some(login),
    {
        let mut slot: Option<T> = Some(login);
        std::mem::swap(&mut slot, &mut self.waiting);
        slot
    }

    /// The login that a callback resolves. It resolves one only, and only one that is waited
    /// for.
    pub fn take(&mut self) -> (r: Option<T>)
        ensures
            r == old(self).waiting,
            final(self).waiting is None,
    {
        let mut slot: Option<T> = None;
        std::mem::swap(&mut slot, &mut self.waiting);
        slot
    }
}

// ---------------------------------------------------------------------------------------
// Coming back.

/// What a URL on our scheme resolves a login with; none where it is no callback. A callback
/// without a ticket fails the login, because waiting any longer would tell the user nothing.
pub open spec fn callback_in(text: Seq<char>, parsed: Result<UrlView, Seq<char>>) -> Option<
    Result<Seq<char>, Seq<char>>,
> {
    match parsed {
        Ok(url) => if !auth_callback(url) {
            None
        } else if carries_ticket(url) {
            Some(Ok(text))
        } else {
            Some(Err("callback carried no ticket"@))
        },
        Err(_) => None,
    }
}

/// A callback's result, by its characters.
pub open spec fn callback_view(r: Option<Result<String, String>>) -> Option<
    Result<Seq<char>, Seq<char>>,
> {
    match r {
        Some(result) => Some(result_text(result)),
        None => None,
    }
}

/// What a URL resolves a login with, once it has been parsed.
pub fn callback_from(text: &str, parsed: Result<UrlParts, String>) -> (r: Option<
    Result<String, String>,
>)
    ensures
        callback_view(r) == callback_in(text@, parsed_view(parsed)),
{
    match parsed {
        Ok(url) => if !is_auth_callback(&url) {
            None
        } else if url_carries_ticket(&url) {
            Some(Ok(text.to_string()))
        } else {
            Some(Err("callback carried no ticket".to_string()))
        },
        Err(_) => None,
    }
}

/// What a URL that the system delivered on our scheme resolves a login with.
pub fn handle_scheme_url(text: &str) -> (r: Option<Result<String, String>>)
    ensures
        callback_view(r) == callback_in(text@, url_parsed(text@)),
{
    callback_from(text, parse_url(text))
}

/// Whatever else a URL is, it resolves a login with itself or not at all, and successfully
/// only where it is our callback and carries a ticket.
pub proof fn only_our_callback_resolves_a_login(
    text: Seq<char>,
    parsed: Result<UrlView, Seq<char>>,
)
    ensures
        match callback_in(text, parsed) {
            Some(Ok(url)) => url == text && parsed is Ok && auth_callback(parsed->Ok_0)
                && carries_ticket(parsed->Ok_0),
            Some(Err(_)) => parsed is Ok && auth_callback(parsed->Ok_0) && !carries_ticket(
                parsed->Ok_0,
            ),
            None => parsed is Err || !auth_callback(parsed->Ok_0),
        },
{
}

/// What the callback of a login looks like: `openframe-console://auth`, the host in any case,
/// with a `devTicket` among its parameters. It resolves the login with the URL as it came. One
/// without a ticket fails the login, and no other URL touches it.
pub proof fn callback_with_a_ticket_resolves_the_login(
    text: Seq<char>,
    parsed: Result<UrlView, Seq<char>>,
)
    ensures
        ({
            let ours = parsed is Ok && parsed->Ok_0.scheme == "openframe-console"@
                && parsed->Ok_0.host is Some && lowered(parsed->Ok_0.host->0) == "auth"@;
            let ticket = ours && parsed->Ok_0.query_keys.contains("devTicket"@);
            &&& callback_in(text, parsed) is None <==> !ours
            &&& ticket ==> callback_in(text, parsed) == Some(Ok::<Seq<char>, Seq<char>>(text))
            &&& ours && !ticket ==> callback_in(text, parsed) == Some(
                Err::<Seq<char>, Seq<char>>("callback carried no ticket"@),
            )
        }),
{
    reveal_strlit("auth");
    assert(lowered("auth"@) =~= "auth"@);
}

// ---------------------------------------------------------------------------------------
// The exchange of the ticket.

/// What came back of the exchange.
#[derive(Debug, PartialEq)]
pub enum TicketReply {
    Failed(String),
    /// The gateway answered: the status as a number and in words, and the tokens that the
    /// answer's headers carried.
    Answered { code: u16, status: String, tokens: NativeAuthTokens },
}

/// What the exchange comes to.
pub open spec fn exchanged(reply: TicketReply) -> Result<TokensView, Seq<char>> {
    match reply {
        TicketReply::Failed(why) => Err("Ticket exchange failed: "@ + why@),
        TicketReply::Answered { code, status, tokens } => if success(code) {
            Ok(tokens@)
        } else {
            Err("Ticket exchange failed: HTTP "@ + status@)
        },
    }
}

/// An answer that succeeded hands over exactly the tokens it carried, both of them; any other
/// answer, and none at all, is an error that says so.
pub proof fn exchange_hands_over_both_tokens(
    code: u16,
    status: String,
    tokens: NativeAuthTokens,
    why: String,
)
    ensures
        ({
            let result = exchanged(TicketReply::Answered { code, status, tokens });
            &&& result is Ok <==> 200 <= code < 300
            &&& result is Ok ==> result->Ok_0.access == option_text(tokens.access_token)
                && result->Ok_0.refresh == option_text(tokens.refresh_token)
            &&& result is Err ==> result->Err_0 == "Ticket exchange failed: HTTP "@ + status@
        }),
        exchanged(TicketReply::Failed(why)) == Err::<TokensView, Seq<char>>(
            "Ticket exchange failed: "@ + why@,
        ),
{
}

/// What the page is handed of the exchange. The tokens ride on the answer's headers, which
/// the page itself could not read.
pub fn native_auth_exchange_ticket(reply: TicketReply) -> (r: Result<NativeAuthTokens, String>)
    ensures
        tokens_result(r) == exchanged(reply),
        match reply {
            TicketReply::Failed(why) => r is Err && r->Err_0@ == "Ticket exchange failed: "@ + why@,
            TicketReply::Answered { code, status, tokens } => if 200 <= code <= 299 {
                &&& r is Ok
                &&& option_text(r->Ok_0.access_token) == option_text(tokens.access_token)
                &&& option_text(r->Ok_0.refresh_token) == option_text(tokens.refresh_token)
            } else {
                r is Err && r->Err_0@ == "Ticket exchange failed: HTTP "@ + status@
            },
        },
{
    match reply {
        TicketReply::Failed(why) => {
            let mut r = "Ticket exchange failed: ".to_string();
            r.append(why.as_str());
            Err(r)
        },
        TicketReply::Answered { code, status, tokens } => if is_success(code) {
            Ok(tokens)
        } else {
            let mut r = "Ticket exchange failed: HTTP ".to_string();
            r.append(status.as_str());
            Err(r)
        },
    }
}

} // verus!
