//! The connection that notifications come over: where it is dialled, how often, and when.
use vstd::prelude::*;
use vstd::string::*;

use crate::config::{trim_slashes, without_slashes};
use crate::percent::{
    decoded, encode, encoded, encoded_text_decodes_to_itself, encoded_text_is_plain, structural,
};
use crate::text::{
    chars_of, decimal, decimal_read, decimal_reads_back, decimal_text, option_str, option_text,
    piece_of, same_text, strip_prefix,
};

verus! {

/// Name of the client, as the server sees it.
pub const CLIENT_NAME: &'static str = "openframe-desktop";

pub const WS_PATH: &'static str = "/ws/nats-api";

/// Credentials of the protocol itself. The bearer on the URL is what counts.
pub const NATS_USER: &'static str = "machine";

pub const NATS_PASS: &'static str = "";

pub const FAST_RETRIES: usize = 3;

pub const FAST_DELAY_MS: u64 = 200;

pub const BASE_DELAY_MS: u64 = 1000;

pub const MAX_DELAY_MS: u64 = 30000;

/// Seconds between two pings.
pub const PING_INTERVAL: u64 = 10;

/// Seconds until a dial that failed outright is tried again.
pub const REDIAL_DELAY: u64 = 10;

/// Seconds between two looks for credentials.
pub const PARK_POLL: u64 = 5;

// ---------------------------------------------------------------------------------------
// How long to wait.

/// [`BASE_DELAY_MS`] doubled `exp` times, at most [`MAX_DELAY_MS`].
pub open spec fn backoff(exp: nat) -> nat
    decreases exp,
{
    if exp == 0 {
        BASE_DELAY_MS as nat
    } else {
        let doubled = 2 * backoff((exp - 1) as nat);
        if doubled < MAX_DELAY_MS {
            doubled
        } else {
            MAX_DELAY_MS as nat
        }
    }
}

pub fn backoff_ms(exp: u32) -> (r: u64)
    ensures
        r == backoff(exp as nat),
{
    let mut r: u64 = BASE_DELAY_MS;
    let mut i: u32 = 0;
    while i < exp && r < MAX_DELAY_MS
        invariant
            i <= exp,
            r == backoff(i as nat),
            r <= MAX_DELAY_MS,
        decreases exp - i,
    {
        r = if 2 * r < MAX_DELAY_MS {
            2 * r
        } else {
            MAX_DELAY_MS
        };
        i += 1;
    }
    proof {
        if i < exp {
            backoff_grows(i as nat, exp as nat);
            backoff_is_bounded(exp as nat);
        }
    }
    r
}

/// The wait is never shorter than the base, nor longer than the cap.
pub proof fn backoff_is_bounded(exp: nat)
    ensures
        BASE_DELAY_MS <= backoff(exp) <= MAX_DELAY_MS,
    decreases exp,
{
    if exp > 0 {
        backoff_is_bounded((exp - 1) as nat);
    }
}

/// More failures never make the wait shorter.
pub proof fn backoff_grows(fewer: nat, more: nat)
    requires
        fewer <= more,
    ensures
        backoff(fewer) <= backoff(more),
    decreases more,
{
    backoff_is_bounded(fewer);
    if fewer < more {
        backoff_grows(fewer, (more - 1) as nat);
        backoff_is_bounded((more - 1) as nat);
    }
}

/// After so many doublings the wait is at its cap.
pub const BACKOFF_STEPS: usize = 5;

/// From there on the wait stays at its cap, however many failures there are.
pub proof fn backoff_reaches_its_cap(exp: nat)
    requires
        exp >= BACKOFF_STEPS,
    ensures
        backoff(exp) == MAX_DELAY_MS,
    decreases exp,
{
    if exp > BACKOFF_STEPS {
        backoff_reaches_its_cap((exp - 1) as nat);
    } else {
        reveal_with_fuel(backoff, 6);
    }
}

/// The wait before a dial, before it is spread: short for the first few, then backing off.
pub open spec fn reconnect_base(attempt: nat) -> nat {
    if attempt <= FAST_RETRIES {
        FAST_DELAY_MS as nat
    } else {
        backoff((attempt - FAST_RETRIES - 1) as nat)
    }
}

/// The wait before the dial number `attempt`, counted from one, in milliseconds. The caller
/// spreads it over its upper half.
pub fn reconnect_base_ms(attempt: usize) -> (r: u64)
    ensures
        r == reconnect_base(attempt as nat),
{
    if attempt <= FAST_RETRIES {
        FAST_DELAY_MS
    } else {
        let count: usize = attempt - FAST_RETRIES - 1;
        if count < BACKOFF_STEPS {
            backoff_ms(count as u32)
        } else {
            proof {
                backoff_reaches_its_cap(count as nat);
            }
            MAX_DELAY_MS
        }
    }
}

// ---------------------------------------------------------------------------------------
// Where to dial.

/// The websocket scheme for a server, and the server without its own.
pub open spec fn scheme_and_host(server_url: Seq<char>) -> (Seq<char>, Seq<char>) {
    if "http://"@.is_prefix_of(server_url) {
        ("ws"@, server_url.skip("http://"@.len() as int))
    } else if "https://"@.is_prefix_of(server_url) {
        ("wss"@, server_url.skip("https://"@.len() as int))
    } else {
        ("wss"@, server_url)
    }
}

/// The URL up to where the bearer's parameter starts.
pub open spec fn connect_base(server_url: Seq<char>) -> Seq<char> {
    let (scheme, host) = scheme_and_host(server_url);
    scheme + "://"@ + without_slashes(host) + WS_PATH@ + "?"@
}

/// The URL to dial: the bearer rides on it, escaped.
pub open spec fn connect_url(server_url: Seq<char>, token: Seq<char>) -> Seq<char> {
    connect_base(server_url) + "authorization="@ + encoded(token)
}

pub fn build_connect_url(server_url: &str, token: &str) -> (r: String)
    ensures
        r@ == connect_url(server_url@, token@),
{
    let (scheme, host) = match strip_prefix(server_url, "http://") {
        Some(host) => ("ws", host),
        None => match strip_prefix(server_url, "https://") {
            Some(host) => ("wss", host),
            None => ("wss", server_url.to_string()),
        },
    };
    let mut r = scheme.to_string();
    r.append("://");
    r.append(trim_slashes(host.as_str()).as_str());
    r.append(WS_PATH);
    r.append("?");
    r.append("authorization=");
    r.append(encode(token).as_str());
    r
}

/// The URL to dial, where both halves of the credentials are there.
pub open spec fn dial_url(server_url: Option<Seq<char>>, token: Option<Seq<char>>) -> Option<
    Seq<char>,
> {
    match (server_url, token) {
        (Some(server_url), Some(token)) => Some(connect_url(server_url, token)),
        _ => None,
    }
}

/// The URL to dial. None while nobody is signed in: then the connection waits.
pub fn dial(server_url: Option<&str>, token: Option<&str>) -> (r: Option<String>)
    ensures
        option_text(r) == dial_url(option_str(server_url), option_str(token)),
{
    match (server_url, token) {
        (Some(server_url), Some(token)) => Some(build_connect_url(server_url, token)),
        _ => None,
    }
}

// ---------------------------------------------------------------------------------------
// What is logged.

/// A token as it may be logged: its first and last four characters and its length, and
/// nothing of one that is shorter than nine.
pub open spec fn masked(token: Seq<char>) -> Seq<char> {
    if token.len() <= 8 {
        "****"@
    } else {
        token.take(4) + "..."@ + token.skip(token.len() - 4) + " (len "@ + decimal(token.len()) + ")"@
    }
}

pub fn mask_token(token: &str) -> (r: String)
    ensures
        r@ == masked(token@),
{
    let v = chars_of(token);
    let n: usize = v.len();
    if n <= 8 {
        return "****".to_string();
    }
    let mut r = piece_of(&v, 0, 4);
    assert(r@ =~= token@.take(4));
    r.append("...");
    let tail = piece_of(&v, n - 4, n);
    assert(tail@ =~= token@.skip(n - 4));
    r.append(tail.as_str());
    r.append(" (len ");
    r.append(decimal_text(n as u64).as_str());
    r.append(")");
    r
}

/// Where `pattern` first stands in `s`; none where it does not.
pub open spec fn text_at(s: Seq<char>, pattern: Seq<char>) -> Option<int>
    decreases s.len(),
{
    if pattern.is_prefix_of(s) {
        Some(0)
    } else if s.len() == 0 {
        None
    } else {
        match text_at(s.skip(1), pattern) {
            Some(i) => Some(i + 1),
            None => None,
        }
    }
}

/// A URL with the value of its `authorization=` parameter masked.
pub open spec fn masked_url(url: Seq<char>) -> Seq<char> {
    match text_at(url, "authorization="@) {
        Some(i) => url.take(i) + "authorization="@ + masked(
            url.skip(i + "authorization="@.len()),
        ),
        None => url,
    }
}

/// Whether `pattern` stands in `s` at `i`.
pub open spec fn stands_at(s: Seq<char>, pattern: Seq<char>, i: int) -> bool {
    0 <= i && i + pattern.len() <= s.len() && s.subrange(i, i + pattern.len()) == pattern
}

pub proof fn lemma_text_at(s: Seq<char>, pattern: Seq<char>)
    ensures
        match text_at(s, pattern) {
            Some(i) => stands_at(s, pattern, i) && forall|j: int| 0 <= j < i ==> !stands_at(s, pattern, j),
            None => forall|j: int| !stands_at(s, pattern, j),
        },
    decreases s.len(),
{
    if pattern.is_prefix_of(s) {
        assert(s.subrange(0, pattern.len() as int) == pattern);
    } else {
        assert(!stands_at(s, pattern, 0));
        if s.len() > 0 {
            let rest = s.skip(1);
            lemma_text_at(rest, pattern);
            assert forall|j: int| j > 0 implies stands_at(s, pattern, j) == stands_at(
                rest,
                pattern,
                j - 1,
            ) by {
                if j + pattern.len() <= s.len() {
                    assert(s.subrange(j, j + pattern.len()) =~= rest.subrange(
                        j - 1,
                        j - 1 + pattern.len(),
                    ));
                }
            }
            match text_at(rest, pattern) {
                Some(i) => {
                    assert forall|j: int| 0 <= j < i + 1 implies !stands_at(s, pattern, j) by {
                        if j > 0 {
                            assert(!stands_at(rest, pattern, j - 1));
                        }
                    }
                },
                None => {
                    assert forall|j: int| !stands_at(s, pattern, j) by {
                        if j > 0 {
                            assert(!stands_at(rest, pattern, j - 1));
                        }
                    }
                },
            }
        } else {
            assert forall|j: int| !stands_at(s, pattern, j) by {
                if j == 0 {
                } else if stands_at(s, pattern, j) {
                    assert(false);
                }
            }
        }
    }
}

pub proof fn lemma_text_at_is(s: Seq<char>, pattern: Seq<char>, i: int)
    requires
        stands_at(s, pattern, i),
        forall|j: int| 0 <= j < i ==> !stands_at(s, pattern, j),
    ensures
        text_at(s, pattern) == Some(i),
{
    lemma_text_at(s, pattern);
    match text_at(s, pattern) {
        Some(k) => {
            if k < i {
                assert(!stands_at(s, pattern, k));
            } else if i < k {
                assert(!stands_at(s, pattern, i));
            }
        },
        None => {
            assert(!stands_at(s, pattern, i));
        },
    }
}

fn find_text(v: &Vec<char>, pattern: &Vec<char>) -> (r: Option<usize>)
    ensures
        match r {
            Some(i) => text_at(v@, pattern@) == Some(i as int) && i + pattern.len() <= v.len(),
            None => text_at(v@, pattern@) is None,
        },
{
    let mut i: usize = 0;
    while i <= v.len() && pattern.len() <= v.len() - i
        invariant
            i <= v@.len() + 1,
            forall|j: int| 0 <= j < i ==> !stands_at(v@, pattern@, j),
        decreases v@.len() + 1 - i,
    {
        let mut k: usize = 0;
        while k < pattern.len() && v[i + k] == pattern[k]
            invariant
                i + pattern.len() <= v.len(),
                k <= pattern@.len(),
                forall|j: int| 0 <= j < k ==> v@[i + j] == pattern@[j],
            decreases pattern@.len() - k,
        {
            k += 1;
        }
        if k == pattern.len() {
            proof {
                assert(v@.subrange(i as int, i + pattern@.len()) =~= pattern@);
                lemma_text_at_is(v@, pattern@, i as int);
            }
            return Some(i);
        }
        proof {
            if stands_at(v@, pattern@, i as int) {
                assert(v@.subrange(i as int, i + pattern@.len())[k as int] == pattern@[k as int]);
            }
        }
        i += 1;
    }
    proof {
        assert forall|j: int| !stands_at(v@, pattern@, j) by {
            if 0 <= j < i {
                assert(!stands_at(v@, pattern@, j));
            }
        }
        lemma_text_at(v@, pattern@);
    }
    None
}

/// The URL with its bearer masked, so that it can be logged.
pub fn mask_connect_url(url: &str) -> (r: String)
    ensures
        r@ == masked_url(url@),
{
    let v = chars_of(url);
    let pattern = chars_of("authorization=");
    match find_text(&v, &pattern) {
        Some(i) => {
            let from: usize = i + pattern.len();
            let mut r = piece_of(&v, 0, i);
            assert(r@ =~= url@.take(i as int));
            r.append("authorization=");
            let token = piece_of(&v, from, v.len());
            assert(token@ =~= url@.skip(from as int));
            r.append(mask_token(token.as_str()).as_str());
            r
        },
        None => url.to_string(),
    }
}

/// Of a token nothing is logged but its length, its first four and its last four characters,
/// and of one that is shorter than nine nothing at all: two tokens that agree in what is logged
/// are masked alike.
pub proof fn mask_tells_only_the_ends(a: Seq<char>, b: Seq<char>)
    requires
        (a.len() <= 8 && b.len() <= 8) || (a.len() == b.len() && a.take(4) == b.take(4) && a.skip(
            a.len() - 4,
        ) == b.skip(b.len() - 4)),
    ensures
        masked(a) == masked(b),
{
}

/// A host that does not itself name the parameter. Every host that login learns is an origin
/// and has no parameters at all.
pub open spec fn without_parameter(server_url: Seq<char>) -> bool {
    text_at(without_slashes(scheme_and_host(server_url).1), "authorization="@) is None
}

/// Of the URL that is dialled, everything up to the bearer is logged and of the bearer only
/// what its mask tells.
pub proof fn dialled_url_is_logged_without_its_bearer(server_url: Seq<char>, token: Seq<char>)
    requires
        without_parameter(server_url),
    ensures
        masked_url(connect_url(server_url, token)) == connect_base(server_url) + "authorization="@
            + masked(encoded(token)),
{
    let pattern = "authorization="@;
    let (scheme, host) = scheme_and_host(server_url);
    let bare = without_slashes(host);
    let base = connect_base(server_url);
    let url = connect_url(server_url, token);
    reveal_strlit("authorization=");
    reveal_strlit("ws");
    reveal_strlit("wss");
    reveal_strlit("://");
    reveal_strlit("/ws/nats-api");
    reveal_strlit("?");
    let from = (scheme + "://"@).len() as int;
    let to = from + bare.len();
    lemma_text_at(bare, pattern);
    assert(pattern.len() == 14);
    assert forall|c: char| pattern.contains(c) implies c != '/' && c != '?' && c != ':' by {
        let k = choose|k: int| 0 <= k < pattern.len() && pattern[k] == c;
        assert(pattern[k] == c);
    }
    assert(url.subrange(base.len() as int, base.len() as int + 14) =~= pattern);
    assert forall|j: int| 0 <= j < base.len() implies !stands_at(url, pattern, j) by {
        if stands_at(url, pattern, j) {
            let seen = url.subrange(j, j + 14);
            // What stands around the host is not in the pattern, so that it would have to
            // stand within the host.
            if j < from {
                let slash = from - 1;
                if j + 14 > slash {
                    assert(url[slash] == "://"@[2]);
                    assert(seen[slash - j] == '/');
                    assert(pattern.contains(seen[slash - j]));
                } else {
                    assert(false);
                }
            } else if j + 14 > to {
                let edge: int = if j <= to {
                    to
                } else {
                    base.len() - 1
                };
                if j <= to {
                    assert(url[to] == WS_PATH@[0]);
                    assert(seen[to - j] == '/');
                    assert(pattern.contains(seen[to - j]));
                } else {
                    assert(url[edge] == "?"@[0]);
                    assert(base.len() == to + 13);
                    assert(seen[edge - j] == '?');
                    assert(pattern.contains(seen[edge - j]));
                }
            } else {
                assert(bare.subrange(j - from, j - from + 14) =~= seen);
                assert(stands_at(bare, pattern, j - from));
            }
        }
    }
    lemma_text_at_is(url, pattern, base.len() as int);
    assert(url.take(base.len() as int) =~= base);
    assert(url.skip(base.len() as int + 14) =~= encoded(token));
}

/// A bearer cannot bring a parameter of its own into the URL it rides on.
pub proof fn bearer_stays_one_parameter(token: Seq<char>)
    ensures
        forall|i: int| 0 <= i < encoded(token).len() ==> !structural(#[trigger] encoded(token)[i]),
{
    encoded_text_is_plain(token);
}

// ---------------------------------------------------------------------------------------
// The connection's own state.

/// What is kept between dials.
#[derive(Clone, Copy, Debug, PartialEq, Eq, Structural)]
pub struct Connector {
    /// Rejected bearers in a row, without a connection in between.
    pub auth_failures: u32,
    /// Whether a dial is under way, so that overlapping tenant switches start no second one.
    pub dialing: bool,
}

impl Default for Connector {
    fn default() -> (r: Self)
        ensures
            r == (Connector { auth_failures: 0, dialing: false }),
    {
        Connector { auth_failures: 0, dialing: false }
    }
}

/// Milliseconds to wait before the bearer is asked for again after `failures` rejections: not
/// at all after the first.
pub open spec fn auth_wait(failures: u32) -> Option<nat> {
    if failures == 0 {
        None
    } else {
        Some(backoff(failures as nat))
    }
}

impl Connector {
    /// The server rejected the bearer. From the second time in a row on, wait before another
    /// is tried: a revoked token must not be dialled with over and over.
    pub fn auth_rejected(&mut self) -> (r: Option<u64>)
        ensures
            match r {
                Some(ms) => auth_wait(old(self).auth_failures) == Some(ms as nat),
                None => auth_wait(old(self).auth_failures) is None,
            },
            *final(self) == (Connector {
                auth_failures: if old(self).auth_failures == u32::MAX {
                    u32::MAX
                } else {
                    (old(self).auth_failures + 1) as u32
                },
                ..*old(self)
            }),
    {
        let failures: u32 = self.auth_failures;
        self.auth_failures = failures.saturating_add(1);
        if failures > 0 {
            Some(backoff_ms(failures))
        } else {
            None
        }
    }

    /// A connection stands, or credentials are back, or the tenant changed: nothing is left
    /// to back off from.
    pub fn auth_settled(&mut self)
        ensures
            *final(self) == (Connector { auth_failures: 0, ..*old(self) }),
    {
        self.auth_failures = 0;
    }

    /// Whether to start a dial: not while another is under way.
    pub fn begin_dial(&mut self) -> (r: bool)
        ensures
            r == !old(self).dialing,
            *final(self) == (Connector { dialing: true, ..*old(self) }),
    {
        let free = !self.dialing;
        self.dialing = true;
        free
    }

    /// A dial at `dialled` came to a connection. Whether it is the right one: a tenant switch
    /// that came in between found the dial under way, so that it is up to this one to dial
    /// again.
    pub fn dialled(&mut self, dialled: &str, tenant: Option<&str>) -> (r: bool)
        ensures
            r == (option_str(tenant) == Some(dialled@)),
            *final(self) == (Connector { dialing: old(self).dialing && !r, ..*old(self) }),
    {
        let right = match tenant {
            Some(tenant) => same_text(tenant, dialled),
            None => false,
        };
        if right {
            self.dialing = false;
        }
        right
    }
}

/// After a connection the first rejection waits for nothing, and every further one in a row
/// waits, longer or as long as the one before.
pub proof fn rejections_back_off(failures: u32, more: u32)
    requires
        0 < failures <= more,
    ensures
        auth_wait(0) is None,
        auth_wait(failures) is Some,
        auth_wait(failures)->0 <= auth_wait(more)->0,
{
    backoff_grows(failures as nat, more as nat);
}

/// The wait starts at a second and doubles with every failure, up to half a minute.
pub proof fn backoff_doubles_up_to_half_a_minute(exp: nat)
    ensures
        backoff(0) == 1000,
        exp < 4 ==> backoff(exp + 1) == 2 * backoff(exp),
        exp >= 5 ==> backoff(exp) == 30000,
{
    reveal_with_fuel(backoff, 6);
    if exp >= 5 {
        backoff_reaches_its_cap(exp);
    }
}

/// The first three dials follow on each other after a fifth of a second; the fourth waits for a
/// second, and from there on the wait doubles up to half a minute.
pub proof fn dials_start_fast_and_back_off(attempt: nat)
    ensures
        attempt <= 3 ==> reconnect_base(attempt) == 200,
        reconnect_base(4) == 1000,
        4 <= attempt < 8 ==> reconnect_base(attempt + 1) == 2 * reconnect_base(attempt),
        attempt >= 9 ==> reconnect_base(attempt) == 30000,
{
    reveal_with_fuel(backoff, 6);
    if attempt >= 9 {
        backoff_reaches_its_cap((attempt - 4) as nat);
    }
}

/// How long a rejected bearer holds the next dial back: not at all the first time, two seconds
/// the second, and from there on double that up to half a minute.
pub proof fn rejected_bearer_waits_longer_each_time(failures: u32)
    ensures
        auth_wait(0) is None,
        auth_wait(1) == Some(2000nat),
        1 <= failures < 4 ==> auth_wait((failures + 1) as u32) == Some(
            2 * auth_wait(failures)->0,
        ),
        failures >= 5 ==> auth_wait(failures) == Some(30000nat),
{
    reveal_with_fuel(backoff, 6);
    if failures >= 5 {
        backoff_reaches_its_cap(failures as nat);
    }
}

/// Where a dial goes: to the server's own host, over a plain socket where the server is plain
/// and over an encrypted one otherwise, to the path of the message service, with the bearer as
/// its one parameter. Slashes behind the host do not show.
pub proof fn dial_goes_to_the_servers_host(host: Seq<char>, slashes: nat, token: Seq<char>)
    requires
        host.len() > 0 && host.last() != '/',
        !"http://"@.is_prefix_of(host),
        !"https://"@.is_prefix_of(host),
    ensures
        ({
            let written = host + Seq::new(slashes, |i: int| '/');
            let rest = "://"@ + host + "/ws/nats-api"@ + "?"@ + "authorization="@ + encoded(token);
            &&& connect_url("http://"@ + written, token) == "ws"@ + rest
            &&& connect_url("https://"@ + written, token) == "wss"@ + rest
            &&& slashes == 0 ==> connect_url(written, token) == "wss"@ + rest
        }),
{
    let tail = Seq::new(slashes, |i: int| '/');
    let written = host + tail;
    lemma_slashes_go(host, slashes);
    reveal_strlit("http://");
    reveal_strlit("https://");
    let a = "http://"@ + written;
    let b = "https://"@ + written;
    assert(a.subrange(0, 7) =~= "http://"@);
    assert(a.skip(7) =~= written);
    assert(!"http://"@.is_prefix_of(b)) by {
        if "http://"@.is_prefix_of(b) {
            assert(b.subrange(0, 7)[4] == b[4]);
        }
    }
    assert(b.subrange(0, 8) =~= "https://"@);
    assert(b.skip(8) =~= written);
    if slashes == 0 {
        assert(written =~= host);
    }
    let rest = "://"@ + host + "/ws/nats-api"@ + "?"@ + "authorization="@ + encoded(token);
    assert(connect_url(a, token) =~= "ws"@ + rest);
    assert(connect_url(b, token) =~= "wss"@ + rest);
    if slashes == 0 {
        assert(connect_url(written, token) =~= "wss"@ + rest);
    }
}

proof fn lemma_slashes_go(host: Seq<char>, slashes: nat)
    requires
        host.len() > 0 && host.last() != '/',
    ensures
        without_slashes(host + Seq::new(slashes, |i: int| '/')) == host,
    decreases slashes,
{
    let tail = Seq::new(slashes, |i: int| '/');
    if slashes == 0 {
        assert(host + tail =~= host);
    } else {
        let less = (slashes - 1) as nat;
        lemma_slashes_go(host, less);
        assert((host + tail).last() == '/');
        assert((host + tail).drop_last() =~= host + Seq::new(less, |i: int| '/'));
    }
}

/// The bearer that a server reads off the URL is the one that was put on it, whatever characters
/// it has; and there is a URL exactly where there is both a server and a bearer.
pub proof fn bearer_arrives_as_it_was(
    server_url: Option<Seq<char>>,
    token: Option<Seq<char>>,
    server: Seq<char>,
    bearer: Seq<char>,
)
    ensures
        dial_url(server_url, token) is Some <==> server_url is Some && token is Some,
        dial_url(Some(server), Some(bearer)) == Some(connect_url(server, bearer)),
        ({
            let url = connect_url(server, bearer);
            let from = (connect_base(server) + "authorization="@).len() as int;
            decoded(url.skip(from)) == Some(bearer)
        }),
{
    let url = connect_url(server, bearer);
    let lead = connect_base(server) + "authorization="@;
    assert(url =~= lead + encoded(bearer));
    assert(url.skip(lead.len() as int) =~= encoded(bearer));
    encoded_text_decodes_to_itself(bearer);
}

/// What is logged of a token that is long enough: its first four characters, its last four, and
/// how long it is. Of a shorter one four stars are.
pub proof fn mask_shows_the_ends_and_the_length(token: Seq<char>)
    ensures
        token.len() <= 8 ==> masked(token) == "****"@,
        token.len() > 8 ==> ({
            let shown = masked(token);
            &&& shown.take(4) == token.take(4)
            &&& shown.subrange(4, 7) == "..."@
            &&& shown.subrange(7, 11) == token.skip(token.len() - 4)
            &&& shown.subrange(11, 17) == " (len "@
            &&& decimal_read(shown.subrange(17, shown.len() - 1)) == token.len()
            &&& shown.last() == ')'
        }),
{
    if token.len() > 8 {
        reveal_strlit("...");
        reveal_strlit(" (len ");
        reveal_strlit(")");
        let shown = masked(token);
        let n = decimal(token.len());
        decimal_reads_back(token.len());
        assert(shown.take(4) =~= token.take(4));
        assert(shown.subrange(4, 7) =~= "..."@);
        assert(shown.subrange(7, 11) =~= token.skip(token.len() - 4));
        assert(shown.subrange(11, 17) =~= " (len "@);
        assert(shown.subrange(17, shown.len() - 1) =~= n);
    }
}

/// A URL without the parameter is logged as it is.
pub proof fn url_without_a_bearer_is_logged_whole(url: Seq<char>)
    requires
        forall|i: int| !stands_at(url, "authorization="@, i),
    ensures
        masked_url(url) == url,
{
    lemma_text_at(url, "authorization="@);
}

} // verus!
