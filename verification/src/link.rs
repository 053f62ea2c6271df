//! URLs: their parts as the library reads them, and the hosts that ride on the scheme this
//! application claims with the system.
use vstd::prelude::*;
use vstd::string::*;

use crate::text::{lowered, option_text, same_ignoring_case, same_text, texts};

verus! {

/// The one URI scheme this application claims with the system. The OAuth callback comes
/// back on it, and it is handed to the frontend as the scheme to name that callback by.
pub const URI_SCHEME: &'static str = "openframe-console";

/// Host that marks a URL on [`URI_SCHEME`] as the OAuth callback.
pub const AUTH_CALLBACK_HOST: &'static str = "auth";

/// The parameter of the callback that carries the ticket.
pub const TICKET_PARAMETER: &'static str = "devTicket";

/// A parsed URL.
#[derive(Debug, PartialEq)]
pub struct UrlParts {
    pub scheme: String,
    pub host: Option<String>,
    /// The port where it is given and is not the scheme's own.
    pub port: Option<u16>,
    /// The names of the query's parameters, decoded, in order.
    pub query_keys: Vec<String>,
    /// The whole URL, as it is written once parsed.
    pub href: String,
}

pub struct UrlView {
    pub scheme: Seq<char>,
    pub host: Option<Seq<char>>,
    pub port: Option<u16>,
    pub query_keys: Seq<Seq<char>>,
    pub href: Seq<char>,
}

impl View for UrlParts {
    type V = UrlView;

    open spec fn view(&self) -> UrlView {
        UrlView {
            scheme: self.scheme@,
            host: option_text(self.host),
            port: self.port,
            query_keys: texts(self.query_keys@),
            href: self.href@,
        }
    }
}

/// What `url::Url::parse` makes of a text: the parts of the URL, or the words of its error.
pub uninterp spec fn url_parsed(text: Seq<char>) -> Result<UrlView, Seq<char>>;

/// The parts, or the words of the error, as sequences of characters.
pub open spec fn parsed_view(parsed: Result<UrlParts, String>) -> Result<UrlView, Seq<char>> {
    match parsed {
        Ok(parts) => Ok(parts@),
        Err(why) => Err(why@),
    }
}

/// `url::Url::parse`: what it makes of a text is a function of the text. The parts are those
/// that `scheme`, `host_str`, `port`, `query_pairs` and the conversion to `String` give.
#[verifier::external_body]
fn url_parse(text: &str) -> (r: Result<UrlParts, String>)
    ensures
        parsed_view(r) == url_parsed(text@),
{
    match url::Url::parse(text) {
        Ok(url) => Ok(
            UrlParts {
                scheme: url.scheme().to_string(),
                host: url.host_str().map(str::to_string),
                port: url.port(),
                query_keys: url.query_pairs().map(|pair| pair.0.into_owned()).collect(),
                href: String::from(url),
            },
        ),
        Err(why) => Err(why.to_string()),
    }
}

/// The parts of a URL, or why it is none.
pub fn parse_url(text: &str) -> (r: Result<UrlParts, String>)
    ensures
        parsed_view(r) == url_parsed(text@),
{
    url_parse(text)
}

/// Whether a URL is the OAuth callback: our scheme and the `auth` host, in any case.
pub open spec fn auth_callback(url: UrlView) -> bool {
    url.scheme == URI_SCHEME@ && url.host is Some && lowered(url.host->0) == lowered(
        AUTH_CALLBACK_HOST@,
    )
}

/// Whether a URL the system handed over is the OAuth callback. Anything else on the scheme
/// is not a login's result and must not resolve one. The host is compared without regard to
/// case because parsing leaves the host of such a scheme as it was written.
pub fn is_auth_callback(url: &UrlParts) -> (r: bool)
    ensures
        r == auth_callback(url@),
{
    match &url.host {
        Some(host) => same_text(url.scheme.as_str(), URI_SCHEME) && same_ignoring_case(
            host.as_str(),
            AUTH_CALLBACK_HOST,
        ),
        None => false,
    }
}

/// Whether a URL's query names a ticket.
pub open spec fn carries_ticket(url: UrlView) -> bool {
    url.query_keys.contains(TICKET_PARAMETER@)
}

pub fn url_carries_ticket(url: &UrlParts) -> (r: bool)
    ensures
        r == carries_ticket(url@),
{
    let ghost keys = texts(url.query_keys@);
    let mut i: usize = 0;
    while i < url.query_keys.len()
        invariant
            keys == texts(url.query_keys@),
            i <= keys.len(),
            forall|j: int| 0 <= j < i ==> #[trigger] keys[j] != TICKET_PARAMETER@,
        decreases keys.len() - i,
    {
        assert(keys[i as int] == url.query_keys@[i as int]@);
        if same_text(url.query_keys[i].as_str(), TICKET_PARAMETER) {
            assert(keys.contains(keys[i as int]));
            return true;
        }
        i += 1;
    }
    false
}

/// Whether two URLs share scheme, host and port. The origin that URLs define of themselves
/// is not used: that of an application scheme equals no other, not even its own.
pub open spec fn same_place(a: UrlView, b: UrlView) -> bool {
    a.scheme == b.scheme && a.host == b.host && a.port == b.port
}

pub fn same_origin(a: &UrlParts, b: &UrlParts) -> (r: bool)
    ensures
        r == same_place(a@, b@),
{
    let same_host = match (&a.host, &b.host) {
        (Some(x), Some(y)) => same_text(x.as_str(), y.as_str()),
        (None, None) => true,
        _ => false,
    };
    let same_port = match (a.port, b.port) {
        (Some(x), Some(y)) => x == y,
        (None, None) => true,
        _ => false,
    };
    same_text(a.scheme.as_str(), b.scheme.as_str()) && same_host && same_port
}

/// Whether a URL is one the system's browser opens.
pub open spec fn web(url: UrlView) -> bool {
    url.scheme == "http"@ || url.scheme == "https"@
}

pub fn is_web(url: &UrlParts) -> (r: bool)
    ensures
        r == web(url@),
{
    same_text(url.scheme.as_str(), "http") || same_text(url.scheme.as_str(), "https")
}

/// The key and the command that register a scheme on Windows for an executable.
pub fn scheme_registration(scheme: &str, exe: &str) -> (r: (String, String))
    ensures
        r.0@ == "Software\\Classes\\"@ + scheme@,
        r.1@ == "\""@ + exe@ + "\" \"%1\""@,
{
    let mut key = "Software\\Classes\\".to_string();
    key.append(scheme);
    let mut command = "\"".to_string();
    command.append(exe);
    command.append("\" \"%1\"");
    (key, command)
}

/// Two URLs are of one place exactly where scheme, host and port all agree: a URL is of its own
/// place, and a change of any of the three leaves it. What follows the host does not matter.
pub proof fn place_is_scheme_host_and_port(a: UrlView, b: UrlView)
    ensures
        same_place(a, a),
        same_place(a, b) ==> same_place(b, a),
        a.scheme != b.scheme ==> !same_place(a, b),
        a.host != b.host ==> !same_place(a, b),
        a.port != b.port ==> !same_place(a, b),
        same_place(a, UrlView { query_keys: b.query_keys, href: b.href, ..a }),
{
}

/// A callback is known by its scheme and its host alone, and the host is read in any case.
pub proof fn callback_is_known_by_scheme_and_host(url: UrlView)
    ensures
        auth_callback(url) <==> url.scheme == "openframe-console"@ && url.host is Some && lowered(
            url.host->0,
        ) == "auth"@,
        carries_ticket(url) <==> url.query_keys.contains("devTicket"@),
        web(url) <==> url.scheme == "http"@ || url.scheme == "https"@,
{
    reveal_strlit("auth");
    assert(lowered("auth"@) =~= "auth"@);
}

} // verus!
