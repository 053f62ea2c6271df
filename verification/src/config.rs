//! The stored configuration, and the hosts it names.
use vstd::prelude::*;
use vstd::string::*;

use crate::json::{field, json_printed, members_view, print, put, text, Json, JsonView, Member};
use crate::link::{parse_url, parsed_view, url_parsed, UrlParts, UrlView, URI_SCHEME};
use crate::text::{
    chars_of, option_str, option_text, piece_of, result_text, same_text, starts_with, trim, trimmed,
};

verus! {

/// The stored configuration. The one URL configured is the shared auth host; the tenant's
/// origin is learned at login.
#[derive(Debug)]
pub struct AppConfig {
    /// Shared auth host. Empty or absent falls back to the build's own. Read through
    /// [`shared_host`].
    pub shared_host: Option<String>,
    /// Tenant origin learned at login. Read through [`tenant_host`].
    pub learned_host: Option<String>,
    pub self_update_enabled: Option<bool>,
    pub update_manifest_url: Option<String>,
    /// Managed-install policy for start at login: `Some` pins it in that direction and takes
    /// the toggle away from the user.
    pub autostart_enforced: Option<bool>,
    /// Whether the start-at-login default has already been applied on this machine.
    pub autostart_configured: Option<bool>,
    /// Set by an update that restarts while the user has a window open, so that the process
    /// that comes back opens one even in a login session.
    pub autostart_show_window_next_start: Option<bool>,
}

impl Default for AppConfig {
    fn default() -> (r: Self)
        ensures
            r == (AppConfig {
                shared_host: None,
                learned_host: None,
                self_update_enabled: None,
                update_manifest_url: None,
                autostart_enforced: None,
                autostart_configured: None,
                autostart_show_window_next_start: None,
            }),
    {
        AppConfig {
            shared_host: None,
            learned_host: None,
            self_update_enabled: None,
            update_manifest_url: None,
            autostart_enforced: None,
            autostart_configured: None,
            autostart_show_window_next_start: None,
        }
    }
}

/// A text, where there is one and it is not empty.
pub open spec fn filled(text: Option<Seq<char>>) -> Option<Seq<char>> {
    match text {
        Some(s) => if s.len() > 0 {
            Some(s)
        } else {
            None
        },
        None => None,
    }
}

/// An empty text counts as none, and any other stands as it is.
pub proof fn only_an_empty_text_is_dropped(text: Seq<char>)
    ensures
        text.len() > 0 ==> filled(Some(text)) == Some(text),
        filled(Some(Seq::empty())) is None,
        filled(None) is None,
{
}

/// The shared auth host in effect: that of the configuration, else the build's own; an empty
/// text counts as none.
pub fn shared_host(cfg: &AppConfig, built_in: Option<&str>) -> (r: Option<String>)
    ensures
        option_text(r) == match filled(option_text(cfg.shared_host)) {
            Some(host) => Some(host),
            None => filled(option_str(built_in)),
        },
{
    if let Some(host) = &cfg.shared_host {
        if !host.as_str().is_empty() {
            return Some(host.clone());
        }
    }
    match built_in {
        Some(host) => if !host.is_empty() {
            Some(host.to_string())
        } else {
            None
        },
        None => None,
    }
}

/// The tenant origin that login learned, if there is one. Unset and empty mean the same.
pub fn tenant_host(cfg: &AppConfig) -> (r: Option<String>)
    ensures
        option_text(r) == filled(option_text(cfg.learned_host)),
{
    match &cfg.learned_host {
        Some(host) => if !host.as_str().is_empty() {
            Some(host.clone())
        } else {
            None
        },
        None => None,
    }
}

// ---------------------------------------------------------------------------------------
// The tenant's host.

/// A host with a scheme in front: the one it has, else `https`.
pub open spec fn qualified(host: Seq<char>) -> Seq<char> {
    if "http://"@.is_prefix_of(host) || "https://"@.is_prefix_of(host) {
        host
    } else {
        "https://"@ + host
    }
}

/// `s` without the slashes at its end.
pub open spec fn without_slashes(s: Seq<char>) -> Seq<char>
    decreases s.len(),
{
    if s.len() > 0 && s.last() == '/' {
        without_slashes(s.drop_last())
    } else {
        s
    }
}

/// The host that a text stands for, given what parsing its qualified form came to.
pub open spec fn host_in(text: Seq<char>, parsed: Result<UrlView, Seq<char>>) -> Result<
    Seq<char>,
    Seq<char>,
> {
    if trimmed(text).len() == 0 {
        Err("Host is empty"@)
    } else {
        match parsed {
            Err(why) => Err("Invalid URL: "@ + why),
            Ok(_) => Ok(without_slashes(qualified(trimmed(text)))),
        }
    }
}

pub fn trim_slashes(s: &str) -> (r: String)
    ensures
        r@ == without_slashes(s@),
{
    let v = chars_of(s);
    let mut to: usize = v.len();
    assert(s@.take(s@.len() as int) =~= s@);
    while to > 0 && v[to - 1] == '/'
        invariant
            v@ == s@,
            to <= v@.len(),
            without_slashes(s@.take(to as int)) == without_slashes(s@),
        decreases to,
    {
        assert(s@.take(to as int).drop_last() =~= s@.take(to - 1));
        to -= 1;
    }
    assert(s@.subrange(0, to as int) =~= s@.take(to as int));
    piece_of(&v, 0, to)
}

fn qualify(host: &str) -> (r: String)
    ensures
        r@ == qualified(host@),
{
    if starts_with(host, "http://") || starts_with(host, "https://") {
        host.to_string()
    } else {
        let mut r = "https://".to_string();
        r.append(host);
        r
    }
}

/// The origin a host stands for once its qualified form has been parsed.
pub fn host_from(input: &str, parsed: Result<UrlParts, String>) -> (r: Result<String, String>)
    ensures
        result_text(r) == host_in(input@, parsed_view(parsed)),
{
    let bare = trim(input);
    if bare.as_str().is_empty() {
        return Err("Host is empty".to_string());
    }
    match parsed {
        Err(why) => {
            let mut r = "Invalid URL: ".to_string();
            r.append(why.as_str());
            Err(r)
        },
        Ok(_) => Ok(trim_slashes(qualify(bare.as_str()).as_str())),
    }
}

/// Accept `acme.openframe.ai`, `https://acme.openframe.ai`, or either with slashes behind,
/// and make it an origin with a scheme and no trailing slash.
pub fn normalize_host(input: &str) -> (r: Result<String, String>)
    ensures
        result_text(r) == host_in(input@, url_parsed(qualified(trimmed(input@)))),
{
    let bare = trim(input);
    let parsed = parse_url(qualify(bare.as_str()).as_str());
    host_from(input, parsed)
}

/// Record the tenant host that login learned. Says whether it was news: then the
/// configuration is to be stored, and the connection to the tenant being left is to go.
pub fn learn_host(cfg: &mut AppConfig, host: String) -> (r: bool)
    ensures
        r == (option_text(old(cfg).learned_host) != Some(host@)),
        option_text(final(cfg).learned_host) == Some(host@),
        *final(cfg) == (AppConfig { learned_host: final(cfg).learned_host, ..*old(cfg) }),
{
    let known = match &cfg.learned_host {
        Some(learned) => same_text(learned.as_str(), host.as_str()),
        None => false,
    };
    if known {
        return false;
    }
    cfg.learned_host = Some(host);
    true
}

/// Forget the tenant, as signing out does.
pub fn forget_host(cfg: &mut AppConfig)
    ensures
        *final(cfg) == (AppConfig { learned_host: None, ..*old(cfg) }),
{
    cfg.learned_host = None;
}

/// A normalized host has no slash at its end.
pub proof fn normalized_host_is_bare(text: Seq<char>, parsed: Result<UrlView, Seq<char>>)
    requires
        host_in(text, parsed) is Ok,
    ensures
        host_in(text, parsed)->Ok_0.len() == 0 || host_in(text, parsed)->Ok_0.last() != '/',
{
    lemma_without_slashes(qualified(trimmed(text)));
}

/// Nothing of a host is lost but the blanks around it and the slashes behind it: what was typed,
/// with `https` in front where no web scheme stands there, is the normalized host and slashes.
/// It is refused only where it is blank or is no URL.
pub proof fn normalizing_keeps_the_host(text: Seq<char>, parsed: Result<UrlView, Seq<char>>)
    ensures
        ({
            let typed = trimmed(text);
            let whole = if "http://"@.is_prefix_of(typed) || "https://"@.is_prefix_of(typed) {
                typed
            } else {
                "https://"@ + typed
            };
            let host = host_in(text, parsed);
            &&& host is Ok <==> typed.len() > 0 && parsed is Ok
            &&& host is Ok ==> {
                &&& host->Ok_0.is_prefix_of(whole)
                &&& forall|i: int|
                    host->Ok_0.len() <= i < whole.len() ==> #[trigger] whole[i] == '/'
            }
            &&& typed.len() == 0 ==> host == Err::<Seq<char>, Seq<char>>("Host is empty"@)
            &&& typed.len() > 0 && parsed is Err ==> host == Err::<Seq<char>, Seq<char>>(
                "Invalid URL: "@ + parsed->Err_0,
            )
        }),
{
    lemma_without_slashes(qualified(trimmed(text)));
}

proof fn lemma_without_slashes(s: Seq<char>)
    ensures
        without_slashes(s).is_prefix_of(s),
        forall|i: int| without_slashes(s).len() <= i < s.len() ==> #[trigger] s[i] == '/',
        without_slashes(s).len() == 0 || without_slashes(s).last() != '/',
    decreases s.len(),
{
    if s.len() > 0 && s.last() == '/' {
        let front = s.drop_last();
        lemma_without_slashes(front);
        let r = without_slashes(s);
        assert(r =~= front.subrange(0, r.len() as int));
        assert(r =~= s.subrange(0, r.len() as int));
        assert forall|i: int| r.len() <= i < s.len() implies #[trigger] s[i] == '/' by {
            if i < front.len() {
                assert(front[i] == '/');
            }
        }
    } else {
        assert(s =~= s.subrange(0, s.len() as int));
    }
}

// ---------------------------------------------------------------------------------------
// What a page of the bundle is given before any of its scripts runs.

/// The bridge to the native side: login and the custody of tokens under
/// `window.__OPENFRAME_SHELL__`, and the page's errors forwarded to the log.
pub const BRIDGE_SCRIPT: &'static str = ";
window.__OPENFRAME_SHELL__ = {
  nativeAuth: {
    start: function (o) {
      return window.__TAURI_INTERNALS__.invoke('native_auth_start', {
        url: o.url, callbackScheme: o.callbackScheme
      });
    },
    exchangeTicket: function (o) {
      return window.__TAURI_INTERNALS__.invoke('native_auth_exchange_ticket', { url: o.url });
    },
    getTokens: function () {
      return window.__TAURI_INTERNALS__.invoke('native_auth_get_tokens');
    },
    setTokens: function (o) {
      return window.__TAURI_INTERNALS__.invoke('native_auth_set_tokens', {
        accessToken: o.accessToken || null, refreshToken: o.refreshToken || null
      });
    },
    clearTokens: function () {
      return window.__TAURI_INTERNALS__.invoke('native_auth_clear_tokens');
    },
    refreshTokens: function () {
      return window.__TAURI_INTERNALS__.invoke('native_auth_refresh_tokens');
    },
    setTenantHost: function (o) {
      return window.__TAURI_INTERNALS__.invoke('native_auth_set_tenant_host', { origin: o.origin });
    }
  }
};
(function () {
  var forward = function (level, message) {
    try {
      window.__TAURI_INTERNALS__.invoke('webview_log', { level: level, message: String(message).slice(0, 2000) });
    } catch (e) {}
  };
  window.addEventListener('error', function (e) {
    forward('error', e.message + ' @ ' + e.filename + ':' + e.lineno);
  });
  window.addEventListener('unhandledrejection', function (e) {
    var r = e.reason;
    forward('error', 'unhandledrejection: ' + ((r && (r.stack || r.message)) || r));
  });
  var origError = console.error.bind(console);
  console.error = function () {
    var parts = Array.prototype.slice.call(arguments).map(function (a) {
      if (typeof a === 'string') return a;
      try { return JSON.stringify(a); } catch (_) { return String(a); }
    });
    forward('error', parts.join(' '));
    origError.apply(null, arguments);
  };
  forward('info', 'bundle booting; origin=' + location.origin + ' __ENV=' + JSON.stringify(window.__ENV));
})();";

/// The runtime environment of the frontend. The tenant's host is left out on purpose, so
/// that one build serves any tenant; the scheme is the one the callback comes back on.
pub open spec fn page_env(host: Seq<char>) -> JsonView {
    JsonView::Object(
        map![
            "NEXT_PUBLIC_SHARED_HOST_URL"@ => JsonView::Text(host),
            "NEXT_PUBLIC_APP_MODE"@ => JsonView::Text("saas-tenant"@),
            "NEXT_PUBLIC_ENABLE_DEV_TICKET_OBSERVER"@ => JsonView::Text("true"@),
            "NEXT_PUBLIC_MOBILE_APP_SCHEME"@ => JsonView::Text(URI_SCHEME@),
        ],
    )
}

/// What the frontend finds in its environment: the shared host it was given, the mode of a hosted
/// tenant, the ticket observer, and the scheme its callback comes back on. Nothing else is there.
pub proof fn page_finds_its_environment(host: Seq<char>, key: Seq<char>)
    ensures
        field(page_env(host), "NEXT_PUBLIC_SHARED_HOST_URL"@) == Some(JsonView::Text(host)),
        field(page_env(host), "NEXT_PUBLIC_APP_MODE"@) == Some(JsonView::Text("saas-tenant"@)),
        field(page_env(host), "NEXT_PUBLIC_ENABLE_DEV_TICKET_OBSERVER"@) == Some(
            JsonView::Text("true"@),
        ),
        field(page_env(host), "NEXT_PUBLIC_MOBILE_APP_SCHEME"@) == Some(
            JsonView::Text("openframe-console"@),
        ),
        field(page_env(host), key) is Some ==> key == "NEXT_PUBLIC_SHARED_HOST_URL"@ || key
            == "NEXT_PUBLIC_APP_MODE"@ || key == "NEXT_PUBLIC_ENABLE_DEV_TICKET_OBSERVER"@ || key
            == "NEXT_PUBLIC_MOBILE_APP_SCHEME"@,
{
    reveal_strlit("NEXT_PUBLIC_SHARED_HOST_URL");
    reveal_strlit("NEXT_PUBLIC_APP_MODE");
    reveal_strlit("NEXT_PUBLIC_ENABLE_DEV_TICKET_OBSERVER");
    reveal_strlit("NEXT_PUBLIC_MOBILE_APP_SCHEME");
    assert("NEXT_PUBLIC_SHARED_HOST_URL"@.len() == 27);
    assert("NEXT_PUBLIC_APP_MODE"@.len() == 20);
    assert("NEXT_PUBLIC_ENABLE_DEV_TICKET_OBSERVER"@.len() == 38);
    assert("NEXT_PUBLIC_MOBILE_APP_SCHEME"@.len() == 29);
}

/// The script around an environment that is already written out.
pub open spec fn init_script(env: Seq<char>) -> Seq<char> {
    "window.__ENV = "@ + env + BRIDGE_SCRIPT@
}

/// The environment stands in the script as it was written out, behind its name and before the
/// bridge, and two environments that differ give scripts that differ.
pub proof fn script_assigns_the_environment(env: Seq<char>, other: Seq<char>)
    ensures
        init_script(env).skip(15).take(env.len() as int) == env,
        "window.__ENV = "@.is_prefix_of(init_script(env)),
        init_script(env).skip(15 + env.len() as int) == BRIDGE_SCRIPT@,
        init_script(env) == init_script(other) ==> env == other,
{
    reveal_strlit("window.__ENV = ");
    assert("window.__ENV = "@.len() == 15);
    assert(init_script(env).skip(15).take(env.len() as int) =~= env);
    assert("window.__ENV = "@ =~= init_script(env).subrange(0, 15));
    assert(init_script(env).skip(15 + env.len() as int) =~= BRIDGE_SCRIPT@);
    if init_script(env) == init_script(other) {
        assert(env.len() == other.len());
        assert(init_script(other).skip(15).take(other.len() as int) =~= other);
    }
}

/// The script injected into every window that shows the bundled frontend. Without a shared
/// host the frontend is given an empty one.
pub fn env_init_script(shared_host: Option<String>) -> (r: String)
    ensures
        r@ == init_script(
            json_printed(
                page_env(
                    match shared_host {
                        Some(host) => host@,
                        None => Seq::empty(),
                    },
                ),
            ),
        ),
{
    let host = match shared_host {
        Some(host) => host,
        None => String::new(),
    };
    let ghost h = host@;
    let mut members: Vec<Member> = Vec::new();
    proof {
        reveal_strlit("NEXT_PUBLIC_SHARED_HOST_URL");
        reveal_strlit("NEXT_PUBLIC_APP_MODE");
        reveal_strlit("NEXT_PUBLIC_ENABLE_DEV_TICKET_OBSERVER");
        reveal_strlit("NEXT_PUBLIC_MOBILE_APP_SCHEME");
        assert("NEXT_PUBLIC_SHARED_HOST_URL"@.len() == 27);
        assert("NEXT_PUBLIC_APP_MODE"@.len() == 20);
        assert("NEXT_PUBLIC_ENABLE_DEV_TICKET_OBSERVER"@.len() == 38);
        assert("NEXT_PUBLIC_MOBILE_APP_SCHEME"@.len() == 29);
    }
    put(&mut members, "NEXT_PUBLIC_SHARED_HOST_URL", Json::Text(host));
    put(&mut members, "NEXT_PUBLIC_APP_MODE", text("saas-tenant"));
    put(&mut members, "NEXT_PUBLIC_ENABLE_DEV_TICKET_OBSERVER", text("true"));
    put(&mut members, "NEXT_PUBLIC_MOBILE_APP_SCHEME", text(URI_SCHEME));
    assert(members_view(members@) =~= page_env(h)->Object_0);
    let env = Json::Object(members);
    let mut r = "window.__ENV = ".to_string();
    r.append(print(&env).as_str());
    r.append(BRIDGE_SCRIPT);
    r
}

} // verus!
