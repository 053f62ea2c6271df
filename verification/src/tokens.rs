//! The token lifecycle: when a session is refreshed, what an attempt to refresh it settled
//! as, and what becomes of the stored tokens.
//!
//! A refresh is not idempotent. The gateway retires the presented refresh token the moment
//! it issues the next one, so "the request failed" and "the answer never arrived" are kept
//! apart: the first may be tried again, the second may not.
use vstd::prelude::*;
use vstd::string::*;

use crate::config::{filled, shared_host, tenant_host, AppConfig};
use crate::json::{
    field, get_text, get_whole, json_parsed, parse_bytes, text_field, whole_field, Json, JsonView,
};
use crate::text::{
    lemma_first_at, lemma_pieces_both, option_str, option_text, pieces, same_text, split_on, texts,
};

verus! {

/// Refresh when the access token is within this many seconds of its `exp`.
pub const REFRESH_MARGIN_SECS: u64 = 120;

/// Seconds between two looks of the background poll.
pub const POLL_INTERVAL: u64 = 30;

/// Cap on the poll's failure backoff, as a multiple of [`POLL_INTERVAL`].
pub const MAX_POLL_BACKOFF: u64 = 16;

/// Seconds a refresh request may take.
pub const REFRESH_HTTP_TIMEOUT: u64 = 10;

/// Seconds the machine must have been awake before a rotation goes out.
pub const WAKE_SETTLE_SECS: u64 = 15;

/// Milliseconds by which the wall clock must run ahead of the monotonic one, between two
/// readings, for the machine to have slept.
pub const WAKE_SLACK_MS: u64 = 2000;

/// Seconds for which a refresh token is held back after a request with it went unanswered.
pub const LOST_ROTATION_COOLDOWN_SECS: u64 = 60;

/// Path of the refresh endpoint on its host.
pub const REFRESH_PATH: &'static str = "/oauth/refresh";

#[derive(Debug, PartialEq)]
pub struct NativeAuthTokens {
    pub access_token: Option<String>,
    pub refresh_token: Option<String>,
}

pub struct TokensView {
    pub access: Option<Seq<char>>,
    pub refresh: Option<Seq<char>>,
}

impl View for NativeAuthTokens {
    type V = TokensView;

    open spec fn view(&self) -> TokensView {
        TokensView {
            access: option_text(self.access_token),
            refresh: option_text(self.refresh_token),
        }
    }
}

/// No tokens at all: nobody is signed in.
pub open spec fn no_tokens() -> TokensView {
    TokensView { access: None, refresh: None }
}

impl Default for NativeAuthTokens {
    fn default() -> (r: Self)
        ensures
            r@ == no_tokens(),
    {
        NativeAuthTokens { access_token: None, refresh_token: None }
    }
}

fn copy_text(text: &Option<String>) -> (r: Option<String>)
    ensures
        option_text(r) == option_text(*text),
{
    match text {
        Some(s) => Some(s.clone()),
        None => None,
    }
}

impl Clone for NativeAuthTokens {
    fn clone(&self) -> (r: Self)
        ensures
            r@ == self@,
    {
        NativeAuthTokens {
            access_token: copy_text(&self.access_token),
            refresh_token: copy_text(&self.refresh_token),
        }
    }
}

/// A stored set with the fields that arrived written over it.
pub open spec fn merged(stored: TokensView, arrived: TokensView) -> TokensView {
    TokensView {
        access: if arrived.access is Some {
            arrived.access
        } else {
            stored.access
        },
        refresh: if arrived.refresh is Some {
            arrived.refresh
        } else {
            stored.refresh
        },
    }
}

/// Merge tokens into a stored set: only fields that arrive are overwritten, because a
/// rotation may carry one token or both.
pub fn merge(stored: NativeAuthTokens, arrived: NativeAuthTokens) -> (r: NativeAuthTokens)
    ensures
        r@ == merged(stored@, arrived@),
{
    let mut r = stored;
    if arrived.access_token.is_some() {
        r.access_token = arrived.access_token;
    }
    if arrived.refresh_token.is_some() {
        r.refresh_token = arrived.refresh_token;
    }
    r
}

// ---------------------------------------------------------------------------------------
// What a token says of itself.

/// What the base64 engine `URL_SAFE_NO_PAD` decodes a text to, where it is one.
pub uninterp spec fn base64_decoded(text: Seq<char>) -> Option<Seq<u8>>;

/// `base64::engine::general_purpose::URL_SAFE_NO_PAD.decode`: the bytes are a function of the
/// text.
#[verifier::external_body]
fn base64_decode(text: &str) -> (r: Option<Vec<u8>>)
    ensures
        match r {
            Some(bytes) => base64_decoded(text@) == Some(bytes@),
            None => base64_decoded(text@) is None,
        },
{
    base64::Engine::decode(&base64::engine::general_purpose::URL_SAFE_NO_PAD, text).ok()
}

/// The payload of a token: what stands between its first two dots.
pub open spec fn jwt_segment(token: Seq<char>) -> Option<Seq<char>> {
    let parts = pieces(token, '.');
    if parts.len() > 1 {
        Some(parts[1])
    } else {
        None
    }
}

/// The payload of a token is its middle part, whatever stands around it; a text without a dot
/// has none.
pub proof fn payload_is_the_middle_part(head: Seq<char>, payload: Seq<char>, rest: Seq<char>)
    requires
        !head.contains('.'),
        !payload.contains('.'),
    ensures
        jwt_segment(head) is None,
        jwt_segment(head.push('.') + payload) == Some(payload),
        jwt_segment((head.push('.') + payload).push('.') + rest) == Some(payload),
{
    let both = head.push('.') + payload;
    lemma_first_at(head, '.');
    lemma_first_at(payload, '.');
    lemma_pieces_both(head, payload, '.');
    assert(pieces(head, '.') == seq![head]);
    assert(pieces(payload, '.') == seq![payload]);
    assert(pieces(both, '.') =~= seq![head, payload]);
    lemma_pieces_both(both, rest, '.');
    assert((pieces(both, '.') + pieces(rest, '.'))[1] == payload);
}

pub fn payload_segment(token: &str) -> (r: Option<String>)
    ensures
        option_text(r) == jwt_segment(token@),
{
    let parts = split_on(token, '.');
    assert(texts(parts@).len() == parts@.len());
    if parts.len() > 1 {
        assert(texts(parts@)[1] == parts@[1]@);
        Some(parts[1].clone())
    } else {
        None
    }
}

/// The decoded payload of a token.
pub open spec fn jwt_tree(token: Seq<char>) -> Option<JsonView> {
    match jwt_segment(token) {
        Some(segment) => match base64_decoded(segment) {
            Some(bytes) => json_parsed(bytes),
            None => None,
        },
        None => None,
    }
}

/// The decoded payload of a token. The signature is not looked at: only scheduling hints and
/// identity claims are read, from tokens of our own.
pub fn jwt_payload(token: &str) -> (r: Option<Json>)
    ensures
        match r {
            Some(json) => jwt_tree(token@) == Some(json@),
            None => jwt_tree(token@) is None,
        },
{
    match payload_segment(token) {
        Some(segment) => match base64_decode(segment.as_str()) {
            Some(bytes) => parse_bytes(bytes.as_slice()),
            None => None,
        },
        None => None,
    }
}

/// When a payload says its token expires, in seconds.
pub open spec fn exp_in(payload: JsonView) -> Option<u64> {
    whole_field(payload, "exp"@)
}

/// When a token expires, where it says so.
pub open spec fn jwt_exp(token: Seq<char>) -> Option<u64> {
    match jwt_tree(token) {
        Some(payload) => exp_in(payload),
        None => None,
    }
}

/// The `exp` of a payload.
pub fn payload_exp(payload: &Json) -> (r: Option<u64>)
    ensures
        r == exp_in(payload@),
{
    get_whole(payload, "exp")
}

pub fn jwt_exp_secs(token: &str) -> (r: Option<u64>)
    ensures
        r == jwt_exp(token@),
{
    match jwt_payload(token) {
        Some(payload) => payload_exp(&payload),
        None => None,
    }
}

/// A text claim of a payload, where it is not empty.
pub open spec fn claim_in(payload: JsonView, claim: Seq<char>) -> Option<Seq<char>> {
    filled(text_field(payload, claim))
}

/// A claim is read as it stands, where the payload holds it as a text that is not empty, and
/// the expiry where it is a whole number that is not negative.
pub proof fn claims_are_read_as_they_stand(
    payload: JsonView,
    claim: Seq<char>,
    text: Seq<char>,
    exp: u64,
)
    ensures
        claim_in(payload, claim) == Some(text) <==> text.len() > 0 && field(payload, claim) == Some(
            JsonView::Text(text),
        ),
        exp_in(payload) == Some(exp) <==> field(payload, "exp"@) == Some(
            JsonView::Integer(exp as int),
        ),
{
}

/// A text claim of a token.
pub open spec fn jwt_claim(token: Seq<char>, claim: Seq<char>) -> Option<Seq<char>> {
    match jwt_tree(token) {
        Some(payload) => claim_in(payload, claim),
        None => None,
    }
}

/// A text claim of a payload.
pub fn payload_claim(payload: &Json, claim: &str) -> (r: Option<String>)
    ensures
        option_text(r) == claim_in(payload@, claim@),
{
    match get_text(payload, claim) {
        Some(text) => if text.as_str().is_empty() {
            None
        } else {
            Some(text)
        },
        None => None,
    }
}

/// A text claim of a token, such as `userId`.
pub fn jwt_claim_str(token: &str, claim: &str) -> (r: Option<String>)
    ensures
        option_text(r) == jwt_claim(token@, claim@),
{
    match jwt_payload(token) {
        Some(payload) => payload_claim(&payload, claim),
        None => None,
    }
}

/// What a token says of itself is what its payload says: its middle part, decoded and parsed. A
/// token without a middle part, and one whose middle part is not the encoding of JSON, says
/// nothing.
pub proof fn token_speaks_through_its_payload(token: Seq<char>, claim: Seq<char>)
    ensures
        match jwt_segment(token) {
            Some(segment) => match base64_decoded(segment) {
                Some(bytes) => match json_parsed(bytes) {
                    Some(payload) => jwt_tree(token) == Some(payload) && jwt_exp(token) == exp_in(
                        payload,
                    ) && jwt_claim(token, claim) == claim_in(payload, claim),
                    None => jwt_tree(token) is None,
                },
                None => jwt_tree(token) is None,
            },
            None => jwt_tree(token) is None,
        },
        jwt_tree(token) is None ==> jwt_exp(token) is None && jwt_claim(token, claim) is None,
{
}

/// A set of tokens expires when its access token does; without one it has no expiry.
pub proof fn set_expires_with_its_access_token(tokens: TokensView, token: Seq<char>)
    ensures
        tokens.access == Some(token) ==> access_exp(tokens) == jwt_exp(token),
        tokens.access is None ==> access_exp(tokens) is None,
{
}

// ---------------------------------------------------------------------------------------
// The clock.

/// `std::time::SystemTime::elapsed` of the Unix epoch: the time since then, where the clock
/// is not set before it. Nothing is said of the reading.
#[verifier::external_body]
fn since_epoch() -> (r: Option<std::time::Duration>) {
    std::time::UNIX_EPOCH.elapsed().ok()
}

/// The whole seconds that a duration holds, as `std::time::Duration::as_secs` gives them.
pub uninterp spec fn whole_seconds(d: std::time::Duration) -> u64;

/// `std::time::Duration::as_secs`: the whole seconds are a function of the duration.
pub assume_specification[ std::time::Duration::as_secs ](d: &std::time::Duration) -> (r: u64)
    ensures
        r == whole_seconds(*d),
;

/// The time of a reading, in whole seconds: zero where the clock is set before the epoch.
pub open spec fn reading_secs(elapsed: Option<std::time::Duration>) -> u64 {
    match elapsed {
        Some(d) => whole_seconds(d),
        None => 0,
    }
}

/// The time of a reading of the clock: `elapsed` since the epoch, or none where the clock is
/// set before it.
pub fn elapsed_secs(elapsed: Option<std::time::Duration>) -> (r: u64)
    ensures
        r == reading_secs(elapsed),
{
    match elapsed {
        Some(d) => d.as_secs(),
        None => 0,
    }
}

/// A clock that is set after the epoch is read in whole seconds, and one that is set before it
/// reads as zero.
pub proof fn clock_reads_whole_seconds(d: std::time::Duration)
    ensures
        reading_secs(Some(d)) == whole_seconds(d),
        reading_secs(None) == 0,
{
}

/// Seconds since the Unix epoch by the wall clock; zero where the clock is set before it. It
/// is the time of some reading, and which one is the machine's own.
pub fn now_secs() -> (r: u64)
    ensures
        exists|elapsed: Option<std::time::Duration>| r == #[trigger] reading_secs(elapsed),
{
    let elapsed = since_epoch();
    elapsed_secs(elapsed)
}

// ---------------------------------------------------------------------------------------
// When a refresh is due.

/// Whether an expiry has passed. One that cannot be read counts as live.
pub open spec fn past(exp: Option<u64>, now: u64) -> bool {
    exp is Some && now >= exp->0
}

/// Whether a token that expires at `exp` is over at `now`.
pub fn expired_at(exp: Option<u64>, now: u64) -> (r: bool)
    ensures
        r == past(exp, now),
{
    match exp {
        Some(exp) => now >= exp,
        None => false,
    }
}

/// Whether the access token's `exp` has passed. Of a token without a readable one it has
/// not; of any other the answer is the clock's.
pub fn is_expired(token: &str) -> (r: bool)
    ensures
        exists|now: u64| r == past(jwt_exp(token@), now),
        jwt_exp(token@) is None ==> !r,
        jwt_exp(token@) == Some(0u64) ==> r,
{
    let exp = jwt_exp_secs(token);
    let now: u64 = now_secs();
    let r = expired_at(exp, now);
    assert(r == past(jwt_exp(token@), now));
    r
}

/// Whether a set of tokens, whose access token expires at `exp`, is to be refreshed at `now`.
/// Without a refresh token nothing can be; without an access token it is due; an expiry that
/// cannot be read is no schedule.
pub open spec fn due(tokens: TokensView, exp: Option<u64>, now: u64) -> bool {
    tokens.refresh is Some && (tokens.access is None || (exp is Some && now + REFRESH_MARGIN_SECS
        >= exp->0))
}

pub fn refresh_due(tokens: &NativeAuthTokens, exp: Option<u64>, now: u64) -> (r: bool)
    ensures
        r == due(tokens@, exp, now),
{
    if tokens.refresh_token.is_none() {
        return false;
    }
    if tokens.access_token.is_none() {
        return true;
    }
    match exp {
        None => false,
        Some(exp) => exp <= REFRESH_MARGIN_SECS || now >= exp - REFRESH_MARGIN_SECS,
    }
}

/// A token is over from its expiry on, and due for a refresh from two minutes before that on;
/// both stay so. A token that does not say when it expires is neither.
pub proof fn tokens_are_due_before_they_expire(
    tokens: TokensView,
    exp: u64,
    now: u64,
    later: u64,
)
    requires
        tokens.access is Some,
        tokens.refresh is Some,
        now <= later,
    ensures
        past(Some(exp), now) <==> exp - now <= 0,
        due(tokens, Some(exp), now) <==> exp - now <= 120,
        past(Some(exp), now) ==> due(tokens, Some(exp), now),
        past(Some(exp), now) ==> past(Some(exp), later),
        due(tokens, Some(exp), now) ==> due(tokens, Some(exp), later),
        !past(None, now),
        !due(tokens, None, now),
{
}

/// What is stored decides before the clock does: without a refresh token nothing is ever due,
/// and a refresh token alone always is.
pub proof fn missing_tokens_decide_before_the_clock(
    tokens: TokensView,
    exp: Option<u64>,
    now: u64,
)
    ensures
        tokens.refresh is None ==> !due(tokens, exp, now),
        tokens.refresh is Some && tokens.access is None ==> due(tokens, exp, now),
{
}

/// The expiry of a set's access token.
pub open spec fn access_exp(tokens: TokensView) -> Option<u64> {
    match tokens.access {
        Some(token) => jwt_exp(token),
        None => None,
    }
}

pub fn access_exp_secs(tokens: &NativeAuthTokens) -> (r: Option<u64>)
    ensures
        r == access_exp(tokens@),
{
    match &tokens.access_token {
        Some(token) => jwt_exp_secs(token.as_str()),
        None => None,
    }
}

/// Whether a set of tokens is to be refreshed by now. Where the clock decides, the answer is
/// the one for some reading of it.
pub fn needs_refresh(tokens: &NativeAuthTokens) -> (r: bool)
    ensures
        exists|now: u64| r == due(tokens@, access_exp(tokens@), now),
        tokens@.refresh is None ==> !r,
        tokens@.refresh is Some && tokens@.access is None ==> r,
        tokens@.access is Some && access_exp(tokens@) is None ==> !r,
{
    let exp = access_exp_secs(tokens);
    let now: u64 = now_secs();
    let r = refresh_due(tokens, exp, now);
    assert(r == due(tokens@, access_exp(tokens@), now));
    r
}

/// Where the refresh endpoint lives: on the shared auth host, else on the tenant's.
pub open spec fn base_of(shared: Option<Seq<char>>, tenant: Option<Seq<char>>) -> Option<Seq<char>> {
    if shared is Some {
        shared
    } else {
        tenant
    }
}

pub fn refresh_base(cfg: &AppConfig, built_in: Option<&str>) -> (r: Option<String>)
    ensures
        option_text(r) == base_of(
            base_of(filled(option_text(cfg.shared_host)), filled(option_str(built_in))),
            filled(option_text(cfg.learned_host)),
        ),
{
    match shared_host(cfg, built_in) {
        Some(host) => Some(host),
        None => tenant_host(cfg),
    }
}

/// Tokens are refreshed on the shared host where one is known, whatever the tenant's is; on the
/// tenant's otherwise; and nowhere only where neither is known.
pub proof fn shared_host_refreshes_first(shared: Option<Seq<char>>, tenant: Option<Seq<char>>)
    ensures
        shared is Some ==> base_of(shared, tenant) == shared,
        shared is None ==> base_of(shared, tenant) == tenant,
{
}

// ---------------------------------------------------------------------------------------
// Waking up.

/// What has been seen of the two clocks. The wall clock runs on while the machine sleeps and
/// the monotonic one does not, so that the wall clock running ahead of it is how a resume
/// shows. Readings are in milliseconds.
#[derive(Clone, Copy, Debug, PartialEq, Eq, Structural)]
pub struct WakeWatch {
    pub wall_ms: u64,
    pub mono_ms: u64,
    /// The monotonic reading at which the machine was last seen to have resumed.
    pub resumed_ms: Option<u64>,
}

/// Whether, between two readings, the wall clock ran ahead of the monotonic one by more than
/// [`WAKE_SLACK_MS`].
pub open spec fn ran_ahead(seen: WakeWatch, wall_ms: u64, mono_ms: u64) -> bool {
    wall_ms - seen.wall_ms > mono_ms - seen.mono_ms + WAKE_SLACK_MS
}

/// Whether the machine has been awake long enough for an answer to come back.
pub open spec fn awake_long_enough(seen: WakeWatch, mono_ms: u64) -> bool {
    match seen.resumed_ms {
        Some(at) => mono_ms - at >= WAKE_SETTLE_SECS * 1000,
        None => true,
    }
}

impl WakeWatch {
    /// A watch that has taken its first reading and seen no resume.
    pub fn new(wall_ms: u64, mono_ms: u64) -> (r: Self)
        ensures
            r == (WakeWatch { wall_ms, mono_ms, resumed_ms: None }),
    {
        WakeWatch { wall_ms, mono_ms, resumed_ms: None }
    }

    /// Take another reading, and say whether the machine slept in between.
    pub fn observe(&mut self, wall_ms: u64, mono_ms: u64) -> (r: bool)
        ensures
            r == ran_ahead(*old(self), wall_ms, mono_ms),
            *final(self) == (WakeWatch {
                wall_ms,
                mono_ms,
                resumed_ms: if r {
                    Some(mono_ms)
                } else {
                    old(self).resumed_ms
                },
            }),
    {
        let ahead = wall_ms as u128 + self.mono_ms as u128 > mono_ms as u128 + self.wall_ms as u128
            + WAKE_SLACK_MS as u128;
        self.wall_ms = wall_ms;
        self.mono_ms = mono_ms;
        if ahead {
            self.resumed_ms = Some(mono_ms);
        }
        ahead
    }

    /// Whether a rotation may go out.
    pub fn settled(&self, mono_ms: u64) -> (r: bool)
        ensures
            r == awake_long_enough(*self, mono_ms),
    {
        match self.resumed_ms {
            Some(at) => mono_ms >= at && mono_ms - at >= WAKE_SETTLE_SECS * 1000,
            None => true,
        }
    }
}

/// Once a resume has been seen, nothing is settled before the machine has been awake for the
/// whole settling time.
pub proof fn resume_holds_rotations_back(
    seen: WakeWatch,
    wall_ms: u64,
    mono_ms: u64,
    later_ms: u64,
)
    requires
        ran_ahead(seen, wall_ms, mono_ms),
        later_ms - mono_ms < WAKE_SETTLE_SECS * 1000,
    ensures
        !awake_long_enough(WakeWatch { wall_ms, mono_ms, resumed_ms: Some(mono_ms) }, later_ms),
{
}

/// How a resume shows: the wall clock moved by more than the monotonic one did, by over two
/// seconds. Clocks that move together show none, however far they move.
pub proof fn sleep_shows_as_a_gap_between_the_clocks(seen: WakeWatch, awake: int, asleep: int)
    requires
        0 <= seen.wall_ms + awake + asleep <= u64::MAX,
        0 <= seen.mono_ms + awake <= u64::MAX,
    ensures
        ran_ahead(
            seen,
            (seen.wall_ms + awake + asleep) as u64,
            (seen.mono_ms + awake) as u64,
        ) <==> asleep > 2000,
{
}

/// A rotation waits for fifteen seconds after a resume and no longer; a machine that was never
/// seen to resume does not wait.
pub proof fn settling_takes_fifteen_seconds(seen: WakeWatch, mono_ms: u64)
    ensures
        seen.resumed_ms is None ==> awake_long_enough(seen, mono_ms),
        seen.resumed_ms is Some ==> (awake_long_enough(seen, mono_ms) <==> mono_ms
            >= seen.resumed_ms->0 + 15_000),
{
}

// ---------------------------------------------------------------------------------------
// Backing off.

/// The state that outlives one refresh.
#[derive(Debug, PartialEq)]
pub struct TokenLifecycle {
    /// A refresh request went out and no answer came back, so that whether the server rotated
    /// is unknown. The next rejection is then most likely that lost rotation.
    pub lost_rotation: bool,
    /// The refresh token that request presented.
    pub lost_token: Option<String>,
    /// When that happened last, in seconds.
    pub lost_at: u64,
    /// Refreshes that settled without an answer, in a row.
    pub consecutive_failures: u32,
    /// When a nudge was last let through, in seconds.
    pub last_nudge: u64,
}

pub struct LifecycleView {
    pub lost_rotation: bool,
    pub lost_token: Option<Seq<char>>,
    pub lost_at: u64,
    pub consecutive_failures: u32,
    pub last_nudge: u64,
}

impl View for TokenLifecycle {
    type V = LifecycleView;

    open spec fn view(&self) -> LifecycleView {
        LifecycleView {
            lost_rotation: self.lost_rotation,
            lost_token: option_text(self.lost_token),
            lost_at: self.lost_at,
            consecutive_failures: self.consecutive_failures,
            last_nudge: self.last_nudge,
        }
    }
}

impl Default for TokenLifecycle {
    fn default() -> (r: Self)
        ensures
            r@ == (LifecycleView {
                lost_rotation: false,
                lost_token: None,
                lost_at: 0,
                consecutive_failures: 0,
                last_nudge: 0,
            }),
    {
        TokenLifecycle {
            lost_rotation: false,
            lost_token: None,
            lost_at: 0,
            consecutive_failures: 0,
            last_nudge: 0,
        }
    }
}

/// Seconds until the poll looks again: [`POLL_INTERVAL`], doubled for every failure in a row
/// up to [`MAX_POLL_BACKOFF`] times it.
pub open spec fn poll_gap(failures: nat) -> nat
    decreases failures,
{
    if failures == 0 {
        POLL_INTERVAL as nat
    } else {
        let doubled = 2 * poll_gap((failures - 1) as nat);
        if doubled < POLL_INTERVAL * MAX_POLL_BACKOFF {
            doubled
        } else {
            (POLL_INTERVAL * MAX_POLL_BACKOFF) as nat
        }
    }
}

pub fn poll_delay(failures: u32) -> (r: u64)
    ensures
        r == poll_gap(failures as nat),
{
    let limit: u64 = POLL_INTERVAL * MAX_POLL_BACKOFF;
    let mut r: u64 = POLL_INTERVAL;
    let mut i: u32 = 0;
    while i < failures && r < limit
        invariant
            limit == POLL_INTERVAL * MAX_POLL_BACKOFF,
            i <= failures,
            r == poll_gap(i as nat),
            r <= limit,
        decreases failures - i,
    {
        r = if 2 * r < limit {
            2 * r
        } else {
            limit
        };
        i += 1;
    }
    proof {
        if i < failures {
            lemma_poll_gap_stays(i as nat, failures as nat);
        }
    }
    r
}

proof fn lemma_poll_gap_stays(at: nat, later: nat)
    requires
        at <= later,
        poll_gap(at) == POLL_INTERVAL * MAX_POLL_BACKOFF,
    ensures
        poll_gap(later) == POLL_INTERVAL * MAX_POLL_BACKOFF,
    decreases later,
{
    if at < later {
        lemma_poll_gap_stays(at, (later - 1) as nat);
    }
}

/// The poll never looks more often than its interval, nor less often than the cap.
pub proof fn poll_gap_is_bounded(failures: nat)
    ensures
        POLL_INTERVAL <= poll_gap(failures) <= POLL_INTERVAL * MAX_POLL_BACKOFF,
    decreases failures,
{
    if failures > 0 {
        poll_gap_is_bounded((failures - 1) as nat);
    }
}

/// More failures in a row never make the poll look more often.
pub proof fn poll_gap_grows_with_failures(fewer: nat, more: nat)
    requires
        fewer <= more,
    ensures
        poll_gap(fewer) <= poll_gap(more),
    decreases more,
{
    poll_gap_is_bounded(fewer);
    if fewer < more {
        poll_gap_grows_with_failures(fewer, (more - 1) as nat);
        poll_gap_is_bounded((more - 1) as nat);
    }
}

/// The poll looks every thirty seconds; each failure in a row doubles that, and from the fourth
/// on it is eight minutes.
pub proof fn poll_gap_doubles_up_to_eight_minutes(failures: nat)
    ensures
        failures == 0 ==> poll_gap(failures) == 30,
        failures < 4 ==> poll_gap(failures + 1) == 2 * poll_gap(failures),
        failures >= 4 ==> poll_gap(failures) == 480,
{
    reveal_with_fuel(poll_gap, 6);
    if failures >= 4 {
        lemma_poll_gap_stays(4, failures);
    }
}

/// Seconds from `then` to `now`; none where the clock was set back.
pub open spec fn since(now: u64, then: u64) -> nat {
    if now >= then {
        (now - then) as nat
    } else {
        0
    }
}

/// Whether a request that started at `started` has taken too long by `now`.
pub open spec fn overdue(started: u64, now: u64) -> bool {
    since(now, started) >= REFRESH_HTTP_TIMEOUT
}

/// A request is given ten seconds of the wall clock, and none of a clock that was set back.
pub proof fn request_has_ten_seconds(started: u64, now: u64)
    ensures
        overdue(started, now) <==> now >= started + 10,
{
}

/// Whether a request has taken too long by the wall clock, which runs on while the machine
/// sleeps: one that it sleeps through must not hold up every later refresh.
pub fn request_overdue(started: u64, now: u64) -> (r: bool)
    ensures
        r == (since(now, started) >= REFRESH_HTTP_TIMEOUT),
        r == overdue(started, now),
{
    now >= started && now - started >= REFRESH_HTTP_TIMEOUT
}

/// Whether a nudge is let through: a refresh is due, and the last one let through lies at
/// least the poll's own gap back.
pub open spec fn nudge_passes(lifecycle: LifecycleView, is_due: bool, now: u64) -> bool {
    is_due && since(now, lifecycle.last_nudge) >= poll_gap(lifecycle.consecutive_failures as nat)
}

/// Whether to refresh now because something told that the poll's assumptions no longer hold.
/// Held to the poll's own cadence, since some callers ask every few seconds.
pub fn refresh_soon(lifecycle: &mut TokenLifecycle, is_due: bool, now: u64) -> (r: bool)
    ensures
        r == nudge_passes(old(lifecycle)@, is_due, now),
        final(lifecycle)@ == (LifecycleView {
            last_nudge: if r {
                now
            } else {
                old(lifecycle)@.last_nudge
            },
            ..old(lifecycle)@
        }),
{
    if !is_due {
        return false;
    }
    let gap: u64 = poll_delay(lifecycle.consecutive_failures);
    let elapsed: u64 = if now >= lifecycle.last_nudge {
        now - lifecycle.last_nudge
    } else {
        0
    };
    if elapsed < gap {
        return false;
    }
    lifecycle.last_nudge = now;
    true
}

/// Two nudges that both pass, the second right after the first, are at least the poll's
/// interval apart, and further the more refreshes have failed.
pub proof fn nudges_keep_the_polls_cadence(
    first: LifecycleView,
    then: u64,
    second: LifecycleView,
    now: u64,
)
    requires
        nudge_passes(first, true, then),
        second.last_nudge == then,
        nudge_passes(second, true, now),
    ensures
        now >= then + POLL_INTERVAL,
        now >= then + poll_gap(second.consecutive_failures as nat),
{
    poll_gap_is_bounded(second.consecutive_failures as nat);
}

/// A nudge is not swallowed: where a refresh is due and the last nudge let through lies as far
/// back as the poll's own gap, it passes. Where nothing is due none does.
pub proof fn due_nudge_passes_after_the_gap(lifecycle: LifecycleView, elapsed: nat)
    requires
        lifecycle.last_nudge + elapsed <= u64::MAX,
    ensures
        nudge_passes(lifecycle, true, (lifecycle.last_nudge + elapsed) as u64) <==> elapsed
            >= poll_gap(lifecycle.consecutive_failures as nat),
        !nudge_passes(lifecycle, false, (lifecycle.last_nudge + elapsed) as u64),
{
}

// ---------------------------------------------------------------------------------------
// One refresh.

/// How a refresh starts.
#[derive(Debug, PartialEq)]
pub enum RefreshStart {
    /// Nothing to do: the stored tokens are the answer.
    Fresh,
    Refused(String),
    Post { url: String, refresh_token: String },
}

pub enum StartView {
    Fresh,
    Refused(Seq<char>),
    Post { url: Seq<char>, token: Seq<char> },
}

impl View for RefreshStart {
    type V = StartView;

    open spec fn view(&self) -> StartView {
        match *self {
            RefreshStart::Fresh => StartView::Fresh,
            RefreshStart::Refused(why) => StartView::Refused(why@),
            RefreshStart::Post { url, refresh_token } => StartView::Post {
                url: url@,
                token: refresh_token@,
            },
        }
    }
}

/// Whether the stored refresh token is held back: a request with that very token went
/// unanswered, and not long enough ago.
pub open spec fn held_back(lifecycle: LifecycleView, stored: TokensView, now: u64) -> bool {
    &&& lifecycle.lost_rotation
    &&& lifecycle.lost_token is Some
    &&& lifecycle.lost_token == stored.refresh
    &&& since(now, lifecycle.lost_at) < LOST_ROTATION_COOLDOWN_SECS
}

pub fn is_held_back(lifecycle: &TokenLifecycle, stored: &NativeAuthTokens, now: u64) -> (r: bool)
    ensures
        r == held_back(lifecycle@, stored@, now),
{
    let elapsed: u64 = if now >= lifecycle.lost_at {
        now - lifecycle.lost_at
    } else {
        0
    };
    let same_token = match (&lifecycle.lost_token, &stored.refresh_token) {
        (Some(lost), Some(token)) => same_text(lost.as_str(), token.as_str()),
        _ => false,
    };
    lifecycle.lost_rotation && same_token && elapsed < LOST_ROTATION_COOLDOWN_SECS
}

/// Why no request goes out right after the machine woke.
pub const NOT_AWAKE_LONG_ENOUGH: &'static str = "the machine has not been awake long enough to refresh";

/// What a refresh needs of its surroundings.
pub struct Surroundings {
    /// Whether the stored tokens are due.
    pub is_due: bool,
    /// Where the refresh endpoint lives.
    pub base: Option<String>,
    /// Whether the machine has been awake long enough.
    pub settled: bool,
    /// Whether the refresh token is held back.
    pub held: bool,
}

impl Surroundings {
    /// What a refresh of `current` at `now` finds around it.
    pub fn gather(
        current: &NativeAuthTokens,
        lifecycle: &TokenLifecycle,
        base: Option<String>,
        settled: bool,
        now: u64,
    ) -> (r: Surroundings)
        ensures
            r.is_due == due(current@, access_exp(current@), now),
            r.base == base,
            r.settled == settled,
            r.held == held_back(lifecycle@, current@, now),
    {
        Surroundings {
            is_due: refresh_due(current, access_exp_secs(current), now),
            base,
            settled,
            held: is_held_back(lifecycle, current, now),
        }
    }
}

/// How a refresh of `current` starts. A forced one is over where the access token is no
/// longer the one its caller saw: a parallel refresh already rotated it.
pub open spec fn start_of(
    current: TokensView,
    force: bool,
    prev_access: Option<Seq<char>>,
    around: Surroundings,
) -> StartView {
    if (force && current.access != prev_access) || (!force && !around.is_due) {
        StartView::Fresh
    } else if current.refresh is None {
        StartView::Refused("no refresh token stored"@)
    } else if around.base is None {
        StartView::Refused("no host configured for token refresh"@)
    } else if !around.settled {
        StartView::Refused(NOT_AWAKE_LONG_ENOUGH@)
    } else if around.held {
        StartView::Refused("the refresh token is held back after an unanswered refresh"@)
    } else {
        StartView::Post { url: around.base->0@ + REFRESH_PATH@, token: current.refresh->0 }
    }
}

fn same_option(a: &Option<String>, b: Option<&str>) -> (r: bool)
    ensures
        r == (option_text(*a) == option_str(b)),
{
    match (a, b) {
        (Some(x), Some(y)) => same_text(x.as_str(), y),
        (None, None) => true,
        _ => false,
    }
}

/// Decide how a refresh starts, under the lock that makes refreshes follow one another.
pub fn start_refresh(
    current: &NativeAuthTokens,
    force: bool,
    prev_access: Option<&str>,
    around: &Surroundings,
) -> (r: RefreshStart)
    ensures
        r@ == start_of(current@, force, option_str(prev_access), *around),
        r is Fresh <==> if force {
            option_text(current.access_token) != option_str(prev_access)
        } else {
            !around.is_due
        },
        !(r is Fresh) && current.refresh_token is Some && around.base is Some && around.settled
            && !around.held ==> r is Post && r->url@ == around.base->0@ + "/oauth/refresh"@
            && r->refresh_token@ == current.refresh_token->0@,
{
    if force {
        if !same_option(&current.access_token, prev_access) {
            return RefreshStart::Fresh;
        }
    } else if !around.is_due {
        return RefreshStart::Fresh;
    }
    match (&current.refresh_token, &around.base) {
        (None, _) => RefreshStart::Refused("no refresh token stored".to_string()),
        (_, None) => RefreshStart::Refused("no host configured for token refresh".to_string()),
        (Some(token), Some(base)) => {
            if !around.settled {
                RefreshStart::Refused(NOT_AWAKE_LONG_ENOUGH.to_string())
            } else if around.held {
                RefreshStart::Refused(
                    "the refresh token is held back after an unanswered refresh".to_string(),
                )
            } else {
                let mut url = base.clone();
                url.append(REFRESH_PATH);
                RefreshStart::Post { url, refresh_token: token.clone() }
            }
        },
    }
}

/// When a refresh sends its request. One that is forced, by a caller that saw the access token
/// that is still stored, and one that is due where none is forced, always does, with the stored
/// refresh token, as long as there is such a token, a host is known, the machine has settled and
/// the token is not held back. It goes to the refresh endpoint of that host. A forced refresh
/// does not ask whether the tokens are due, and one that is not forced does not ask which access
/// token its caller saw.
pub proof fn wanted_refresh_is_sent(
    current: TokensView,
    prev_access: Option<Seq<char>>,
    around: Surroundings,
)
    requires
        current.refresh is Some,
        around.base is Some,
        around.settled,
        !around.held,
    ensures
        ({
            let post = StartView::Post {
                url: around.base->0@ + "/oauth/refresh"@,
                token: current.refresh->0,
            };
            &&& start_of(current, true, current.access, around) == post
            &&& prev_access != current.access ==> start_of(current, true, prev_access, around)
                == StartView::Fresh
            &&& around.is_due ==> start_of(current, false, prev_access, around) == post
            &&& !around.is_due ==> start_of(current, false, prev_access, around)
                == StartView::Fresh
        }),
{
}

/// A refresh that is wanted and cannot be sent says why, the first of these that holds: there is
/// no refresh token, no host is known, the machine has only just resumed, or the token is held
/// back. None of these is said of one that is not wanted.
pub proof fn refresh_that_cannot_be_sent_says_why(
    current: TokensView,
    force: bool,
    prev_access: Option<Seq<char>>,
    around: Surroundings,
)
    ensures
        ({
            let wanted = if force {
                current.access == prev_access
            } else {
                around.is_due
            };
            let start = start_of(current, force, prev_access, around);
            &&& start is Fresh <==> !wanted
            &&& start == StartView::Refused("no refresh token stored"@) <== wanted
                && current.refresh is None
            &&& start == StartView::Refused("no host configured for token refresh"@) <== wanted
                && current.refresh is Some && around.base is None
            &&& start == StartView::Refused(
                "the machine has not been awake long enough to refresh"@,
            ) <== wanted && current.refresh is Some && around.base is Some && !around.settled
            &&& start == StartView::Refused(
                "the refresh token is held back after an unanswered refresh"@,
            ) <== wanted && current.refresh is Some && around.base is Some && around.settled
                && around.held
        }),
{
}

/// What came back of one refresh request.
#[derive(Debug, PartialEq)]
pub enum RefreshReply {
    /// The request never went out: DNS, connect or TLS failed.
    ConnectFailed(String),
    /// The request went out and was not answered.
    NoAnswer(String),
    /// The gateway answered: the status as a number and in words, and the tokens that the
    /// answer's headers carried.
    Answered { code: u16, status: String, tokens: NativeAuthTokens },
}

/// What one refresh request settled as.
#[derive(Debug, PartialEq)]
pub enum Outcome {
    /// What the answer's headers carried; at least one of the two is set.
    Rotated(NativeAuthTokens),
    /// The gateway refused the refresh token.
    Rejected,
    /// The gateway never saw it. May be tried again.
    Unreached(String),
    /// The request went out and what came of it is unknown. Not tried again.
    Unknown(String),
}

pub enum OutcomeView {
    Rotated(TokensView),
    Rejected,
    Unreached(Seq<char>),
    Unknown(Seq<char>),
}

impl View for Outcome {
    type V = OutcomeView;

    open spec fn view(&self) -> OutcomeView {
        match *self {
            Outcome::Rotated(tokens) => OutcomeView::Rotated(tokens@),
            Outcome::Rejected => OutcomeView::Rejected,
            Outcome::Unreached(why) => OutcomeView::Unreached(why@),
            Outcome::Unknown(why) => OutcomeView::Unknown(why@),
        }
    }
}

/// Whether a status code says that the request succeeded.
pub open spec fn success(code: u16) -> bool {
    200 <= code <= 299
}

pub fn is_success(code: u16) -> (r: bool)
    ensures
        r == success(code),
{
    200 <= code && code <= 299
}

/// What a reply settles as. An answer other than a refusal does not rule a rotation out, so
/// that without tokens in it the outcome is unknown.
pub open spec fn settled_as(reply: RefreshReply) -> OutcomeView {
    match reply {
        RefreshReply::ConnectFailed(e) => OutcomeView::Unreached(
            "refresh could not reach the gateway: "@ + e@,
        ),
        RefreshReply::NoAnswer(e) => OutcomeView::Unknown("refresh got no answer: "@ + e@),
        RefreshReply::Answered { code, status, tokens } => if code == 401 || code == 403 {
            OutcomeView::Rejected
        } else if !success(code) {
            OutcomeView::Unknown("refresh failed: HTTP "@ + status@)
        } else if tokens@ == no_tokens() {
            OutcomeView::Unknown(
                "refresh returned no tokens — is dev-ticket enabled on the gateway?"@,
            )
        } else {
            OutcomeView::Rotated(tokens@)
        },
    }
}

pub fn classify(reply: RefreshReply) -> (r: Outcome)
    ensures
        r@ == settled_as(reply),
{
    match reply {
        RefreshReply::ConnectFailed(e) => {
            let mut why = "refresh could not reach the gateway: ".to_string();
            why.append(e.as_str());
            Outcome::Unreached(why)
        },
        RefreshReply::NoAnswer(e) => {
            let mut why = "refresh got no answer: ".to_string();
            why.append(e.as_str());
            Outcome::Unknown(why)
        },
        RefreshReply::Answered { code, status, tokens } => {
            if code == 401 || code == 403 {
                return Outcome::Rejected;
            }
            if !is_success(code) {
                let mut why = "refresh failed: HTTP ".to_string();
                why.append(status.as_str());
                return Outcome::Unknown(why);
            }
            if tokens.access_token.is_none() && tokens.refresh_token.is_none() {
                return Outcome::Unknown(
                    "refresh returned no tokens — is dev-ticket enabled on the gateway?".to_string(),
                );
            }
            Outcome::Rotated(tokens)
        },
    }
}

/// What an answer settles as, by what it holds. Only a refusal of the token itself rejects it.
/// An answer that succeeded with a token in it rotates, to exactly the tokens it carried. Any
/// other answer, and one that never came, leaves the rotation unknown; only a request that never
/// went out left the gateway alone.
pub proof fn answers_settle_by_what_they_hold(reply: RefreshReply)
    ensures
        match reply {
            RefreshReply::ConnectFailed(e) => settled_as(reply) == OutcomeView::Unreached(
                "refresh could not reach the gateway: "@ + e@,
            ),
            RefreshReply::NoAnswer(e) => settled_as(reply) == OutcomeView::Unknown(
                "refresh got no answer: "@ + e@,
            ),
            RefreshReply::Answered { code, status, tokens } => {
                let carried = tokens.access_token is Some || tokens.refresh_token is Some;
                &&& settled_as(reply) is Rejected <==> code == 401 || code == 403
                &&& settled_as(reply) is Rotated <==> 200 <= code < 300 && carried
                &&& settled_as(reply) is Rotated ==> settled_as(reply)->Rotated_0.access
                    == option_text(tokens.access_token) && settled_as(
                    reply,
                )->Rotated_0.refresh == option_text(tokens.refresh_token)
                &&& !(settled_as(reply) is Unreached)
                &&& (code < 200 || code >= 300) && code != 401 && code != 403 ==> settled_as(reply)
                    == OutcomeView::Unknown("refresh failed: HTTP "@ + status@)
                &&& 200 <= code < 300 && !carried ==> settled_as(reply) == OutcomeView::Unknown(
                    "refresh returned no tokens — is dev-ticket enabled on the gateway?"@,
                )
            },
        },
{
    if let RefreshReply::Answered { code, status, tokens } = reply {
        assert(tokens@ == no_tokens() <==> tokens.access_token is None && tokens.refresh_token
            is None);
    }
}

/// Seconds to wait before the request is sent again, after `retries` of them; none where the
/// refresh is over. Only a request that never reached the gateway is sent again.
pub open spec fn retry_after(outcome: OutcomeView, retries: nat) -> Option<u64> {
    match outcome {
        OutcomeView::Unreached(_) => if retries == 0 {
            Some(1u64)
        } else if retries == 1 {
            Some(3u64)
        } else {
            None
        },
        _ => None,
    }
}

pub fn retry_delay(outcome: &Outcome, retries: usize) -> (r: Option<u64>)
    ensures
        r == retry_after(outcome@, retries as nat),
{
    match outcome {
        Outcome::Unreached(_) => if retries == 0 {
            Some(1)
        } else if retries == 1 {
            Some(3)
        } else {
            None
        },
        _ => None,
    }
}

/// The number of the attempt, counted from zero, that ends a refresh whose attempts come to
/// `outcomes` one after the other.
pub open spec fn last_attempt(outcomes: spec_fn(nat) -> OutcomeView, retries: nat) -> nat
    decreases 2 - retries,
{
    if retries < 2 && retry_after(outcomes(retries), retries) is Some {
        last_attempt(outcomes, retries + 1)
    } else {
        retries
    }
}

/// Whatever its attempts come to, a refresh sends at most three requests, and every one but
/// the last never reached the gateway.
pub proof fn only_unreached_requests_are_sent_again(outcomes: spec_fn(nat) -> OutcomeView)
    ensures
        last_attempt(outcomes, 0) <= 2,
        forall|i: nat| i < last_attempt(outcomes, 0) ==> #[trigger] outcomes(i) is Unreached,
        retry_after(
            outcomes(last_attempt(outcomes, 0)),
            last_attempt(outcomes, 0),
        ) is None,
{
    reveal_with_fuel(last_attempt, 4);
    assert forall|i: nat| i < last_attempt(outcomes, 0) implies #[trigger] outcomes(
        i,
    ) is Unreached by {
        assert(i == 0 || i == 1);
    }
}

/// A request that never reached the gateway is sent again twice, a second later and then three
/// seconds later. Nothing else is ever sent again.
pub proof fn unreached_request_is_sent_again_twice(outcome: OutcomeView, retries: nat)
    ensures
        outcome is Unreached ==> retry_after(outcome, 0) == Some(1u64) && retry_after(outcome, 1)
            == Some(3u64),
        retries >= 2 ==> retry_after(outcome, retries) is None,
        !(outcome is Unreached) ==> retry_after(outcome, retries) is None,
{
}

// ---------------------------------------------------------------------------------------
// What becomes of the stored tokens.

/// What is to be done once a refresh has settled.
#[derive(Debug, PartialEq)]
pub enum Settlement {
    /// Store these, tell the windows, and hand them back.
    Store(NativeAuthTokens),
    /// Clear the stored tokens, tear down notifications, tell the windows, and hand back the
    /// empty set.
    EndSession(&'static str),
    /// Keep what is stored and report this.
    Failed(String),
}

pub enum SettlementView {
    Store(TokensView),
    EndSession(Seq<char>),
    Failed(Seq<char>),
}

impl View for Settlement {
    type V = SettlementView;

    open spec fn view(&self) -> SettlementView {
        match *self {
            Settlement::Store(tokens) => SettlementView::Store(tokens@),
            Settlement::EndSession(why) => SettlementView::EndSession(why@),
            Settlement::Failed(why) => SettlementView::Failed(why@),
        }
    }
}

/// What a settled refresh asks for.
pub open spec fn settlement(
    lifecycle: LifecycleView,
    current: TokensView,
    outcome: OutcomeView,
) -> SettlementView {
    match outcome {
        OutcomeView::Rotated(tokens) => SettlementView::Store(merged(current, tokens)),
        OutcomeView::Rejected => SettlementView::EndSession(
            if lifecycle.lost_rotation {
                "a refresh whose response was lost had already rotated it"@
            } else {
                "the gateway rejected the refresh token"@
            },
        ),
        OutcomeView::Unreached(why) => SettlementView::Failed(why),
        OutcomeView::Unknown(why) => SettlementView::Failed(why),
    }
}

/// The state once a refresh of `current` has settled. An answer either way leaves nothing to
/// back off from; a rejection answers for a lost rotation; an unknown outcome is one, of the
/// token that was presented.
pub open spec fn after_refresh(
    lifecycle: LifecycleView,
    current: TokensView,
    outcome: OutcomeView,
    now: u64,
) -> LifecycleView {
    match outcome {
        OutcomeView::Rotated(_) => LifecycleView { consecutive_failures: 0, ..lifecycle },
        OutcomeView::Rejected => LifecycleView {
            consecutive_failures: 0,
            lost_rotation: false,
            ..lifecycle
        },
        OutcomeView::Unreached(_) => LifecycleView {
            consecutive_failures: one_more(lifecycle.consecutive_failures),
            ..lifecycle
        },
        OutcomeView::Unknown(_) => LifecycleView {
            consecutive_failures: one_more(lifecycle.consecutive_failures),
            lost_rotation: true,
            lost_token: current.refresh,
            lost_at: now,
            ..lifecycle
        },
    }
}

/// One more, as far as the counter goes.
pub open spec fn one_more(n: u32) -> u32 {
    if n == u32::MAX {
        n
    } else {
        (n + 1) as u32
    }
}

/// Take in what a refresh of `current` settled as.
pub fn settle(
    lifecycle: &mut TokenLifecycle,
    current: NativeAuthTokens,
    outcome: Outcome,
    now: u64,
) -> (r: Settlement)
    ensures
        r@ == settlement(old(lifecycle)@, current@, outcome@),
        final(lifecycle)@ == after_refresh(old(lifecycle)@, current@, outcome@, now),
{
    match outcome {
        Outcome::Rotated(tokens) => {
            lifecycle.consecutive_failures = 0;
            Settlement::Store(merge(current, tokens))
        },
        Outcome::Rejected => {
            lifecycle.consecutive_failures = 0;
            let lost = lifecycle.lost_rotation;
            lifecycle.lost_rotation = false;
            if lost {
                Settlement::EndSession("a refresh whose response was lost had already rotated it")
            } else {
                Settlement::EndSession("the gateway rejected the refresh token")
            }
        },
        Outcome::Unreached(why) => {
            lifecycle.consecutive_failures = lifecycle.consecutive_failures.saturating_add(1);
            Settlement::Failed(why)
        },
        Outcome::Unknown(why) => {
            lifecycle.consecutive_failures = lifecycle.consecutive_failures.saturating_add(1);
            lifecycle.lost_rotation = true;
            lifecycle.lost_token = current.refresh_token;
            lifecycle.lost_at = now;
            Settlement::Failed(why)
        },
    }
}

/// What a rotation that was to be stored comes to.
pub open spec fn store_settlement(rotated: TokensView, written: bool) -> SettlementView {
    if written {
        SettlementView::Store(rotated)
    } else {
        SettlementView::EndSession("rotation could not be persisted"@)
    }
}

/// Rotated tokens that were written down are handed on as they are, and ones that were not end
/// the session: what is stored afterwards is either all of them or nothing.
pub proof fn rotation_is_stored_whole_or_ends_the_session(
    stored: TokensView,
    rotated: TokensView,
    written: bool,
)
    ensures
        ({
            let after = stored_after(stored, store_settlement(rotated, written));
            &&& written ==> after == rotated && handed_back(store_settlement(rotated, written))
                == Ok::<TokensView, Seq<char>>(rotated)
            &&& !written ==> after.access is None && after.refresh is None
            &&& !written ==> store_settlement(rotated, written) == SettlementView::EndSession(
                "rotation could not be persisted"@,
            )
        }),
{
}

/// What a rotation that was to be stored comes to. One that could not be written down ends
/// the session: the refresh token still stored is spent.
pub fn after_store(rotated: NativeAuthTokens, written: bool) -> (r: Settlement)
    ensures
        r@ == store_settlement(rotated@, written),
        r@ == if written {
            SettlementView::Store(rotated@)
        } else {
            SettlementView::EndSession("rotation could not be persisted"@)
        },
{
    if written {
        Settlement::Store(rotated)
    } else {
        Settlement::EndSession("rotation could not be persisted")
    }
}

/// What the caller of a refresh is handed: rotated tokens, the empty set of a session that is
/// over, or the error of one that is not.
pub open spec fn handed_back(settlement: SettlementView) -> Result<TokensView, Seq<char>> {
    match settlement {
        SettlementView::Store(tokens) => Ok(tokens),
        SettlementView::EndSession(_) => Ok(no_tokens()),
        SettlementView::Failed(why) => Err(why),
    }
}

/// Tokens or the words of an error, by their characters.
pub open spec fn tokens_result(r: Result<NativeAuthTokens, String>) -> Result<TokensView, Seq<char>> {
    match r {
        Ok(tokens) => Ok(tokens@),
        Err(why) => Err(why@),
    }
}

/// What the webview is handed of a refresh it asked for. A failure that leaves a refresh token
/// stored resolves with what is stored: the webview would take a rejection for the end of the
/// session and delete a refresh token that is still good. It is refused only where there is
/// nothing to refresh with.
pub open spec fn delegated_result(
    result: Result<TokensView, Seq<char>>,
    stored: TokensView,
) -> Result<TokensView, Seq<char>> {
    match result {
        Ok(tokens) => Ok(tokens),
        Err(why) => if stored.refresh is Some {
            Ok(stored)
        } else {
            Err(why)
        },
    }
}

pub fn delegated(result: Result<NativeAuthTokens, String>, stored: NativeAuthTokens) -> (r: Result<
    NativeAuthTokens,
    String,
>)
    ensures
        tokens_result(r) == delegated_result(tokens_result(result), stored@),
{
    match result {
        Ok(tokens) => Ok(tokens),
        Err(why) => if stored.refresh_token.is_some() {
            Ok(stored)
        } else {
            Err(why)
        },
    }
}

/// A session ends only where the gateway refused the refresh token; a request that was not
/// answered leaves what is stored alone and marks the rotation as lost.
pub proof fn only_a_refusal_ends_a_session(
    lifecycle: LifecycleView,
    current: TokensView,
    outcome: OutcomeView,
    now: u64,
)
    ensures
        settlement(lifecycle, current, outcome) is EndSession <==> outcome is Rejected,
        settlement(lifecycle, current, outcome) is Failed <==> (outcome is Unreached
            || outcome is Unknown),
        outcome is Unknown ==> after_refresh(lifecycle, current, outcome, now).lost_rotation,
        outcome is Unreached ==> after_refresh(lifecycle, current, outcome, now).lost_rotation
            == lifecycle.lost_rotation,
{
}

/// What a settled refresh asks for and leaves behind, outcome by outcome. A rotation is merged
/// into what is stored; a failure is told in its own words; an answer ends the run of failures
/// and anything else adds one to it. When a nudge last passed is never touched, and which token
/// went unanswered, and when, only by a request that went unanswered.
pub proof fn settling_keeps_count(
    lifecycle: LifecycleView,
    current: TokensView,
    outcome: OutcomeView,
    now: u64,
)
    ensures
        ({
            let after = after_refresh(lifecycle, current, outcome, now);
            let asked = settlement(lifecycle, current, outcome);
            &&& after.last_nudge == lifecycle.last_nudge
            &&& outcome is Rotated || outcome is Rejected ==> after.consecutive_failures == 0
            &&& (outcome is Unreached || outcome is Unknown) && lifecycle.consecutive_failures
                < u32::MAX ==> after.consecutive_failures == lifecycle.consecutive_failures + 1
            &&& lifecycle.consecutive_failures == u32::MAX && (outcome is Unreached
                || outcome is Unknown) ==> after.consecutive_failures == u32::MAX
            &&& outcome is Rotated || outcome is Unreached ==> after.lost_rotation
                == lifecycle.lost_rotation
            &&& outcome is Unknown ==> after.lost_token == current.refresh && after.lost_at == now
                && after.lost_rotation
            &&& !(outcome is Unknown) ==> after.lost_token == lifecycle.lost_token
                && after.lost_at == lifecycle.lost_at
            &&& outcome is Rotated ==> asked is Store && asked->Store_0 == merged(
                current,
                outcome->Rotated_0,
            )
            &&& outcome is Unreached ==> asked == SettlementView::Failed(outcome->Unreached_0)
            &&& outcome is Unknown ==> asked == SettlementView::Failed(outcome->Unknown_0)
            &&& outcome is Rejected && !lifecycle.lost_rotation ==> asked
                == SettlementView::EndSession("the gateway rejected the refresh token"@)
        }),
{
}

/// A rejection that follows an unanswered refresh is told apart from a revoked session.
pub proof fn lost_rotation_is_named(
    lifecycle: LifecycleView,
    current: TokensView,
    why: Seq<char>,
    now: u64,
)
    ensures
        ({
            let later = after_refresh(lifecycle, current, OutcomeView::Unknown(why), now);
            &&& settlement(later, current, OutcomeView::Rejected) == SettlementView::EndSession(
                "a refresh whose response was lost had already rotated it"@,
            )
            &&& !after_refresh(later, current, OutcomeView::Rejected, now).lost_rotation
        }),
{
}

/// A token whose rotation is unknown is held back for the whole cooldown, and no other token
/// is: a session signed in meanwhile is refreshed as any other.
pub proof fn only_the_unanswered_token_is_held_back(
    lifecycle: LifecycleView,
    current: TokensView,
    why: Seq<char>,
    then: u64,
    stored: TokensView,
    now: u64,
)
    requires
        current.refresh is Some,
    ensures
        ({
            let later = after_refresh(lifecycle, current, OutcomeView::Unknown(why), then);
            &&& stored.refresh == current.refresh ==> held_back(later, stored, now) == (since(
                now,
                then,
            ) < LOST_ROTATION_COOLDOWN_SECS)
            &&& stored.refresh == current.refresh ==> (held_back(later, stored, now) <==> now < then
                + 60)
            &&& stored.refresh != current.refresh ==> !held_back(later, stored, now)
        }),
        LOST_ROTATION_COOLDOWN_SECS > 0,
{
}

/// A token is held back only after a request with it went unanswered, and no longer once the
/// gateway has answered for it.
pub proof fn only_a_lost_rotation_holds_back(
    lifecycle: LifecycleView,
    current: TokensView,
    stored: TokensView,
    then: u64,
    now: u64,
)
    ensures
        !lifecycle.lost_rotation ==> !held_back(lifecycle, stored, now),
        lifecycle.lost_token is None ==> !held_back(lifecycle, stored, now),
        !held_back(
            after_refresh(lifecycle, current, OutcomeView::Rejected, then),
            stored,
            now,
        ),
{
}

/// After a merge, a field that arrived is the one that arrived and a field that did not is
/// the one that was stored, so that a set with a refresh token never loses it to a rotation.
pub proof fn merge_keeps_what_did_not_arrive(stored: TokensView, arrived: TokensView)
    ensures
        arrived.access is Some ==> merged(stored, arrived).access == arrived.access,
        arrived.refresh is Some ==> merged(stored, arrived).refresh == arrived.refresh,
        arrived.access is None ==> merged(stored, arrived).access == stored.access,
        arrived.refresh is None ==> merged(stored, arrived).refresh == stored.refresh,
        stored.refresh is Some ==> merged(stored, arrived).refresh is Some,
        merged(merged(stored, arrived), arrived) == merged(stored, arrived),
{
}

/// What is stored once a settlement has been carried out.
pub open spec fn stored_after(stored: TokensView, settlement: SettlementView) -> TokensView {
    match settlement {
        SettlementView::Store(tokens) => tokens,
        SettlementView::EndSession(_) => no_tokens(),
        SettlementView::Failed(_) => stored,
    }
}

/// What a refresh comes to once its outcome has settled: a rotation that was to be stored is
/// either written down or the end of the session.
pub open spec fn carried_out(
    lifecycle: LifecycleView,
    stored: TokensView,
    outcome: OutcomeView,
    written: bool,
) -> SettlementView {
    match settlement(lifecycle, stored, outcome) {
        SettlementView::Store(tokens) => if written {
            SettlementView::Store(tokens)
        } else {
            SettlementView::EndSession("rotation could not be persisted"@)
        },
        other => other,
    }
}

/// The outcome contract of a refresh. What its caller is handed is what is stored from then
/// on: the merged tokens of a rotation, or nothing where the session is over. Where its caller
/// is handed an error, what was stored still is. A stored refresh token is given up only to a
/// newer one, to a refusal, or to a rotation that could not be written down.
pub proof fn refresh_hands_back_what_is_stored(
    lifecycle: LifecycleView,
    stored: TokensView,
    outcome: OutcomeView,
    written: bool,
)
    ensures
        ({
            let settled = carried_out(lifecycle, stored, outcome, written);
            let after = stored_after(stored, settled);
            &&& match handed_back(settled) {
                Ok(tokens) => after == tokens,
                Err(_) => after == stored,
            }
            &&& handed_back(settled) is Err <==> (outcome is Unreached || outcome is Unknown)
            &&& stored.refresh is Some && after.refresh is None ==> outcome is Rejected || (
            outcome is Rotated && !written)
            &&& outcome is Rotated && written ==> after == merged(stored, outcome->Rotated_0)
        }),
{
}

/// The webview is refused only where there is nothing to refresh with; a failure that leaves
/// a refresh token stored hands it what is stored.
pub proof fn webview_is_refused_only_without_a_refresh_token(
    result: Result<TokensView, Seq<char>>,
    stored: TokensView,
)
    ensures
        delegated_result(result, stored) is Err ==> stored.refresh is None,
        result is Err && stored.refresh is Some ==> delegated_result(result, stored) == Ok::<
            TokensView,
            Seq<char>,
        >(stored),
        result is Err && stored.refresh is None ==> delegated_result(result, stored) == result,
        result is Ok ==> delegated_result(result, stored) == result,
{
}

// ---------------------------------------------------------------------------------------
// A refresh from its start to its end.

/// What a refresh under way asks for next.
#[derive(Debug, PartialEq)]
pub enum RefreshAction {
    /// Send the request, and hand in what came back.
    Post { url: String, refresh_token: String },
    /// Wait so many seconds, and say so.
    Wait(u64),
    /// Write these down and say whether that worked; tell the windows where it did.
    Store(NativeAuthTokens),
    /// End the stored session, for this reason, and say so.
    EndSession(&'static str),
    /// The refresh is over, with this for its caller.
    Finish(Result<NativeAuthTokens, String>),
}

pub enum RefreshActionView {
    Post { url: Seq<char>, token: Seq<char> },
    Wait(u64),
    Store(TokensView),
    EndSession(Seq<char>),
    Finish(Result<TokensView, Seq<char>>),
}

impl View for RefreshAction {
    type V = RefreshActionView;

    open spec fn view(&self) -> RefreshActionView {
        match *self {
            RefreshAction::Post { url, refresh_token } => RefreshActionView::Post {
                url: url@,
                token: refresh_token@,
            },
            RefreshAction::Wait(secs) => RefreshActionView::Wait(secs),
            RefreshAction::Store(tokens) => RefreshActionView::Store(tokens@),
            RefreshAction::EndSession(why) => RefreshActionView::EndSession(why@),
            RefreshAction::Finish(result) => RefreshActionView::Finish(tokens_result(result)),
        }
    }
}

/// A refresh under way.
#[derive(Debug, PartialEq)]
pub struct RefreshRun {
    /// What was stored when it started.
    pub current: NativeAuthTokens,
    pub url: String,
    pub refresh_token: String,
    /// How often the request has been sent again.
    pub retries: usize,
}

pub struct RunView {
    pub current: TokensView,
    pub url: Seq<char>,
    pub token: Seq<char>,
    pub retries: nat,
}

impl View for RefreshRun {
    type V = RunView;

    open spec fn view(&self) -> RunView {
        RunView {
            current: self.current@,
            url: self.url@,
            token: self.refresh_token@,
            retries: self.retries as nat,
        }
    }
}

/// What is to be done about a settlement.
pub open spec fn settling_action(settlement: SettlementView) -> RefreshActionView {
    match settlement {
        SettlementView::Store(tokens) => RefreshActionView::Store(tokens),
        SettlementView::EndSession(why) => RefreshActionView::EndSession(why),
        SettlementView::Failed(why) => RefreshActionView::Finish(Err(why)),
    }
}

/// The first thing a refresh asks for.
pub open spec fn first_action(current: TokensView, start: StartView) -> RefreshActionView {
    match start {
        StartView::Fresh => RefreshActionView::Finish(Ok(current)),
        StartView::Refused(why) => RefreshActionView::Finish(Err(why)),
        StartView::Post { url, token } => RefreshActionView::Post { url, token },
    }
}

/// What follows once rotated tokens were to be written down.
pub open spec fn stored_action(tokens: TokensView, written: bool) -> RefreshActionView {
    if written {
        RefreshActionView::Finish(Ok(tokens))
    } else {
        RefreshActionView::EndSession("rotation could not be persisted"@)
    }
}

/// What happens to a refresh under way.
pub enum RefreshEvent {
    Begun { force: bool, prev_access: Option<Seq<char>>, around: Surroundings },
    Replied(OutcomeView),
    Waited { settled: bool },
    Stored { tokens: TokensView, written: bool },
    Ended,
}

/// What a refresh that ended in a wait comes to where the machine slept through it: the request
/// never reached the gateway, and is not sent again.
pub open spec fn slept_through() -> OutcomeView {
    OutcomeView::Unreached(NOT_AWAKE_LONG_ENOUGH@)
}

/// What a refresh asks for after an event.
pub open spec fn action_after(
    lifecycle: LifecycleView,
    run: RunView,
    event: RefreshEvent,
) -> RefreshActionView {
    match event {
        RefreshEvent::Begun { force, prev_access, around } => first_action(
            run.current,
            start_of(run.current, force, prev_access, around),
        ),
        RefreshEvent::Replied(outcome) => match retry_after(outcome, run.retries) {
            Some(secs) => RefreshActionView::Wait(secs),
            None => settling_action(settlement(lifecycle, run.current, outcome)),
        },
        RefreshEvent::Waited { settled } => if settled {
            RefreshActionView::Post { url: run.url, token: run.token }
        } else {
            settling_action(settlement(lifecycle, run.current, slept_through()))
        },
        RefreshEvent::Stored { tokens, written } => stored_action(tokens, written),
        RefreshEvent::Ended => RefreshActionView::Finish(Ok(no_tokens())),
    }
}

impl RefreshRun {
    /// Start a refresh, under the lock that makes refreshes follow one another.
    pub fn begin(
        current: NativeAuthTokens,
        force: bool,
        prev_access: Option<&str>,
        around: &Surroundings,
    ) -> (r: (RefreshRun, RefreshAction))
        ensures
            r.0@.current == current@,
            r.0@.retries == 0,
            r.1@ == first_action(
                current@,
                start_of(current@, force, option_str(prev_access), *around),
            ),
            match r.1@ {
                RefreshActionView::Post { url, token } => r.0@.url == url && r.0@.token == token,
                _ => true,
            },
    {
        let action;
        let mut run = RefreshRun {
            current: current.clone(),
            url: String::new(),
            refresh_token: String::new(),
            retries: 0,
        };
        match start_refresh(&current, force, prev_access, around) {
            RefreshStart::Fresh => {
                action = RefreshAction::Finish(Ok(current));
            },
            RefreshStart::Refused(why) => {
                action = RefreshAction::Finish(Err(why));
            },
            RefreshStart::Post { url, refresh_token } => {
                run.url = url.clone();
                run.refresh_token = refresh_token.clone();
                action = RefreshAction::Post { url, refresh_token };
            },
        }
        (run, action)
    }

    /// The request came to `reply`. It is sent again where it never reached the gateway and
    /// has not been too often; otherwise the refresh settles.
    pub fn on_reply(&mut self, lifecycle: &mut TokenLifecycle, reply: RefreshReply, now: u64) -> (r:
        RefreshAction)
        ensures
            r@ == action_after(
                old(lifecycle)@,
                old(self)@,
                RefreshEvent::Replied(settled_as(reply)),
            ),
            match retry_after(settled_as(reply), old(self)@.retries) {
                Some(_) => {
                    &&& final(self)@ == (RunView {
                        retries: old(self)@.retries + 1,
                        ..old(self)@
                    })
                    &&& final(lifecycle)@ == old(lifecycle)@
                },
                None => {
                    &&& final(self)@ == old(self)@
                    &&& final(lifecycle)@ == after_refresh(
                        old(lifecycle)@,
                        old(self)@.current,
                        settled_as(reply),
                        now,
                    )
                },
            },
    {
        let outcome = classify(reply);
        if let Some(secs) = retry_delay(&outcome, self.retries) {
            self.retries = self.retries + 1;
            return RefreshAction::Wait(secs);
        }
        match settle(lifecycle, self.current.clone(), outcome, now) {
            Settlement::Store(tokens) => RefreshAction::Store(tokens),
            Settlement::EndSession(why) => RefreshAction::EndSession(why),
            Settlement::Failed(why) => RefreshAction::Finish(Err(why)),
        }
    }

    /// The wait is over: the same request again, where the machine has been awake long enough.
    /// One that slept in between must not send it right at its resume, and the refresh settles
    /// as never having reached the gateway.
    pub fn on_waited(&self, lifecycle: &mut TokenLifecycle, settled: bool, now: u64) -> (r:
        RefreshAction)
        ensures
            r@ == action_after(old(lifecycle)@, self@, RefreshEvent::Waited { settled }),
            final(lifecycle)@ == if settled {
                old(lifecycle)@
            } else {
                after_refresh(old(lifecycle)@, self@.current, slept_through(), now)
            },
    {
        if settled {
            return RefreshAction::Post {
                url: self.url.clone(),
                refresh_token: self.refresh_token.clone(),
            };
        }
        let outcome = Outcome::Unreached(NOT_AWAKE_LONG_ENOUGH.to_string());
        match settle(lifecycle, self.current.clone(), outcome, now) {
            Settlement::Store(tokens) => RefreshAction::Store(tokens),
            Settlement::EndSession(why) => RefreshAction::EndSession(why),
            Settlement::Failed(why) => RefreshAction::Finish(Err(why)),
        }
    }

    /// The rotated tokens were written down, or could not be.
    pub fn on_stored(&self, tokens: NativeAuthTokens, written: bool) -> (r: RefreshAction)
        ensures
            r@ == stored_action(tokens@, written),
    {
        match after_store(tokens, written) {
            Settlement::Store(tokens) => RefreshAction::Finish(Ok(tokens)),
            Settlement::EndSession(why) => RefreshAction::EndSession(why),
            Settlement::Failed(why) => RefreshAction::Finish(Err(why)),
        }
    }

    /// The stored session has been ended.
    pub fn on_ended(&self) -> (r: RefreshAction)
        ensures
            r@ == RefreshActionView::Finish(Ok(no_tokens())),
    {
        RefreshAction::Finish(Ok(NativeAuthTokens::default()))
    }
}

/// No request of a refresh, the first or a later one, goes out before the machine has been
/// awake long enough. The first goes out with the stored refresh token, to the refresh endpoint,
/// where the refresh is due or forced, and never with a token that is held back; every later one
/// is the same request again.
pub proof fn requests_go_out_only_when_settled(
    lifecycle: LifecycleView,
    run: RunView,
    event: RefreshEvent,
)
    requires
        action_after(lifecycle, run, event) is Post,
    ensures
        ({
            let post = action_after(lifecycle, run, event);
            match event {
                RefreshEvent::Begun { force, prev_access, around } => {
                    &&& around.settled
                    &&& !around.held
                    &&& run.current.refresh == Some(post->Post_token)
                    &&& around.base is Some
                    &&& post->Post_url == around.base->0@ + REFRESH_PATH@
                    &&& force ==> run.current.access == prev_access
                    &&& !force ==> around.is_due
                },
                RefreshEvent::Waited { settled } => {
                    &&& settled
                    &&& post->Post_url == run.url
                    &&& post->Post_token == run.token
                },
                _ => false,
            }
        }),
{
}

/// From the answer to the caller: the tokens of an answer that succeeded are what is written
/// down, merged into what was stored, and once they are written down they are what the caller
/// gets. Where they could not be written down, or the gateway refused, the session is ended and
/// the caller gets the empty set; where nothing came of it, the caller gets the error.
pub proof fn rotation_reaches_its_caller(lifecycle: LifecycleView, run: RunView, reply: RefreshReply)
    requires
        reply is Answered || reply is NoAnswer,
    ensures
        ({
            let outcome = settled_as(reply);
            let next = action_after(lifecycle, run, RefreshEvent::Replied(outcome));
            match reply {
                RefreshReply::Answered { code, status, tokens } => {
                    let carried = tokens.access_token is Some || tokens.refresh_token is Some;
                    &&& 200 <= code < 300 && carried ==> {
                        &&& next is Store
                        &&& next->Store_0.access == (if tokens.access_token is Some {
                            Some(tokens.access_token->0@)
                        } else {
                            run.current.access
                        })
                        &&& next->Store_0.refresh == (if tokens.refresh_token is Some {
                            Some(tokens.refresh_token->0@)
                        } else {
                            run.current.refresh
                        })
                        &&& action_after(
                            lifecycle,
                            run,
                            RefreshEvent::Stored { tokens: next->Store_0, written: true },
                        ) == RefreshActionView::Finish(Ok(next->Store_0))
                        &&& action_after(
                            lifecycle,
                            run,
                            RefreshEvent::Stored { tokens: next->Store_0, written: false },
                        ) == RefreshActionView::EndSession("rotation could not be persisted"@)
                    }
                    &&& code == 401 || code == 403 ==> next is EndSession
                    &&& (code < 200 || code >= 300) && code != 401 && code != 403 ==> next
                        == RefreshActionView::Finish(Err("refresh failed: HTTP "@ + status@))
                },
                RefreshReply::NoAnswer(e) => next == RefreshActionView::Finish(
                    Err("refresh got no answer: "@ + e@),
                ),
                _ => true,
            }
        }),
        action_after(lifecycle, run, RefreshEvent::Ended) == RefreshActionView::Finish(
            Ok(TokensView { access: None, refresh: None }),
        ),
{
    if let RefreshReply::Answered { code, status, tokens } = reply {
        answers_settle_by_what_they_hold(reply);
    }
}

/// How a refresh opens: one that is not wanted hands back what is stored and sends nothing, one
/// that cannot be sent hands back why, and one that can be sends exactly the request it was
/// started with. A wait is followed by the same request, or by the end of the refresh where the
/// machine slept through it.
pub proof fn refresh_opens_as_it_started(
    lifecycle: LifecycleView,
    run: RunView,
    force: bool,
    prev_access: Option<Seq<char>>,
    around: Surroundings,
)
    ensures
        ({
            let next = action_after(
                lifecycle,
                run,
                RefreshEvent::Begun { force, prev_access, around },
            );
            match start_of(run.current, force, prev_access, around) {
                StartView::Fresh => next == RefreshActionView::Finish(Ok(run.current)),
                StartView::Refused(why) => next == RefreshActionView::Finish(Err(why)),
                StartView::Post { url, token } => next == (RefreshActionView::Post { url, token }),
            }
        }),
        action_after(lifecycle, run, RefreshEvent::Waited { settled: true }) == (
        RefreshActionView::Post { url: run.url, token: run.token }),
        action_after(lifecycle, run, RefreshEvent::Waited { settled: false })
            == RefreshActionView::Finish(
            Err("the machine has not been awake long enough to refresh"@),
        ),
{
}

} // verus!
