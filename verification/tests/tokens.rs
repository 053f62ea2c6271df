use std::time::Duration;

use openframe_console::config::AppConfig;
use openframe_console::tokens::{
    access_exp_secs, after_store, classify, delegated, elapsed_secs, expired_at, is_expired, is_held_back,
    jwt_claim_str, jwt_exp_secs, merge, needs_refresh, now_secs, payload_segment, poll_delay,
    refresh_base, refresh_due, refresh_soon, request_overdue, retry_delay, settle, start_refresh, NativeAuthTokens,
    Outcome, RefreshAction, RefreshReply, RefreshRun, RefreshStart, Settlement, Surroundings,
    TokenLifecycle, WakeWatch, MAX_POLL_BACKOFF, POLL_INTERVAL, REFRESH_MARGIN_SECS,
};

/// A token shaped like the gateway's: only the payload is ever read, and only for `exp` and
/// `userId`.
fn token_expiring_in(secs: i64) -> String {
    let exp = now_secs() as i64 + secs;
    token_with(&format!(r#"{{"exp":{exp},"userId":"u-1"}}"#))
}

fn token_with(payload: &str) -> String {
    let payload = base64::Engine::encode(
        &base64::engine::general_purpose::URL_SAFE_NO_PAD,
        payload,
    );
    format!("header.{payload}.signature")
}

fn tokens(access: Option<String>, refresh: Option<&str>) -> NativeAuthTokens {
    NativeAuthTokens {
        access_token: access,
        refresh_token: refresh.map(str::to_string),
    }
}

#[test]
fn nothing_to_refresh_without_a_refresh_token() {
    assert!(!needs_refresh(&tokens(
        Some(token_expiring_in(-3600)),
        None
    )));
}

#[test]
fn a_missing_access_token_is_refreshable() {
    assert!(needs_refresh(&tokens(None, Some("r"))));
}

#[test]
fn refresh_is_due_inside_the_margin_and_not_before() {
    let outside = REFRESH_MARGIN_SECS as i64 + 60;
    assert!(!needs_refresh(&tokens(
        Some(token_expiring_in(outside)),
        Some("r")
    )));
    let inside = REFRESH_MARGIN_SECS as i64 - 60;
    assert!(needs_refresh(&tokens(
        Some(token_expiring_in(inside)),
        Some("r")
    )));
}

#[test]
fn the_margin_stays_between_its_two_bounds() {
    /// What the gateway issues access tokens with
    /// (`security.oauth2.token.access.expiration-seconds`).
    const ACCESS_TOKEN_LIFE: Duration = Duration::from_secs(900);
    let margin = Duration::from_secs(REFRESH_MARGIN_SECS);
    assert!(margin >= Duration::from_secs(POLL_INTERVAL) * 4);
    assert!(margin <= ACCESS_TOKEN_LIFE / 4);
}

#[test]
fn only_unreached_attempts_are_retryable() {
    let retryable = |outcome: &Outcome| matches!(outcome, Outcome::Unreached(_));
    assert!(retryable(&Outcome::Unreached("connect refused".into())));
    assert!(!retryable(&Outcome::Unknown("connection closed".into())));
    assert!(!retryable(&Outcome::Rejected));
    assert!(!retryable(&Outcome::Rotated(NativeAuthTokens::default())));
    // And so the delays say.
    assert_eq!(
        retry_delay(&Outcome::Unreached("connect refused".into()), 0),
        Some(1)
    );
    assert_eq!(
        retry_delay(&Outcome::Unreached("connect refused".into()), 1),
        Some(3)
    );
    assert_eq!(
        retry_delay(&Outcome::Unreached("connect refused".into()), 2),
        None
    );
    assert_eq!(
        retry_delay(&Outcome::Unknown("connection closed".into()), 0),
        None
    );
    assert_eq!(retry_delay(&Outcome::Rejected, 0), None);
    assert_eq!(
        retry_delay(&Outcome::Rotated(NativeAuthTokens::default()), 0),
        None
    );
}

#[test]
fn an_expired_token_is_expired_and_a_live_one_is_not() {
    assert!(is_expired(&token_expiring_in(-1)));
    assert!(!is_expired(&token_expiring_in(60)));
    // An `exp` we can't read counts as live, same convention as needs_refresh.
    assert!(!is_expired("not-a-jwt"));
}

#[test]
fn an_unparseable_token_is_left_alone() {
    assert!(!needs_refresh(&tokens(Some("not-a-jwt".into()), Some("r"))));
}

#[test]
fn the_poll_backs_off_while_failing_and_stays_bounded() {
    assert_eq!(poll_delay(0), POLL_INTERVAL);
    assert_eq!(poll_delay(1), POLL_INTERVAL * 2);
    assert_eq!(poll_delay(u32::MAX), POLL_INTERVAL * MAX_POLL_BACKOFF);
}

#[test]
fn the_poll_doubles_up_to_the_cap() {
    let delays: Vec<u64> = (0..6).map(poll_delay).collect();
    assert_eq!(delays, vec![30, 60, 120, 240, 480, 480]);
}

#[test]
fn claims_are_read_from_the_payload() {
    let token = token_with(r#"{"exp":1700000000,"userId":"u-1","empty":"","n":7,"neg":-1}"#);
    assert_eq!(jwt_exp_secs(&token), Some(1700000000));
    assert_eq!(jwt_claim_str(&token, "userId"), Some("u-1".to_string()));
    assert_eq!(jwt_claim_str(&token, "empty"), None);
    assert_eq!(jwt_claim_str(&token, "n"), None);
    assert_eq!(jwt_claim_str(&token, "missing"), None);
    assert_eq!(jwt_exp_secs(&token_with(r#"{"exp":-5}"#)), None);
    assert_eq!(jwt_exp_secs(&token_with(r#"{"exp":1.5}"#)), None);
    assert_eq!(jwt_exp_secs("a.!!!.c"), None);
    assert_eq!(payload_segment("a.b.c"), Some("b".to_string()));
    assert_eq!(payload_segment("abc"), None);
    assert_eq!(
        access_exp_secs(&tokens(Some(token), None)),
        Some(1700000000)
    );
    assert_eq!(access_exp_secs(&tokens(None, None)), None);
}

#[test]
fn an_expiry_is_compared_to_the_second() {
    assert!(!expired_at(Some(100), 99));
    assert!(expired_at(Some(100), 100));
    assert!(!expired_at(None, 100));
    let held = tokens(Some("a".into()), Some("r"));
    assert!(!refresh_due(&held, Some(1000), 879));
    assert!(refresh_due(&held, Some(1000), 880));
    assert!(refresh_due(&held, Some(u64::MAX), u64::MAX));
    assert!(refresh_due(&held, Some(60), 0));
    assert!(!refresh_due(&held, None, u64::MAX));
}

#[test]
fn a_merge_keeps_what_did_not_arrive() {
    let stored = tokens(Some("a".into()), Some("r"));
    assert_eq!(
        merge(stored.clone(), tokens(Some("b".into()), None)),
        tokens(Some("b".into()), Some("r"))
    );
    assert_eq!(
        merge(stored.clone(), tokens(None, Some("s"))),
        tokens(Some("a".into()), Some("s"))
    );
    assert_eq!(merge(stored.clone(), NativeAuthTokens::default()), stored);
}

#[test]
fn the_shared_host_comes_before_the_tenants() {
    let mut cfg = AppConfig::default();
    assert_eq!(refresh_base(&cfg, None), None);
    cfg.learned_host = Some("https://tenant".to_string());
    assert_eq!(refresh_base(&cfg, None), Some("https://tenant".to_string()));
    assert_eq!(
        refresh_base(&cfg, Some("https://built-in")),
        Some("https://built-in".to_string())
    );
    cfg.shared_host = Some("https://shared".to_string());
    assert_eq!(
        refresh_base(&cfg, Some("https://built-in")),
        Some("https://shared".to_string())
    );
}

fn around(is_due: bool) -> Surroundings {
    Surroundings {
        is_due,
        base: Some("https://auth".to_string()),
        settled: true,
        held: false,
    }
}

fn post() -> RefreshStart {
    RefreshStart::Post {
        url: "https://auth/oauth/refresh".to_string(),
        refresh_token: "r".to_string(),
    }
}

#[test]
fn a_refresh_starts_only_where_it_is_needed() {
    let current = tokens(Some("a".into()), Some("r"));
    assert_eq!(
        start_refresh(&current, false, None, &around(false)),
        RefreshStart::Fresh
    );
    assert_eq!(start_refresh(&current, false, None, &around(true)), post());
    // A parallel refresh has rotated it in the meantime.
    assert_eq!(
        start_refresh(&current, true, Some("before"), &around(true)),
        RefreshStart::Fresh
    );
    assert_eq!(
        start_refresh(&current, true, Some("a"), &around(false)),
        post()
    );
}

#[test]
fn a_refresh_that_cannot_start_says_why() {
    let current = tokens(Some("a".into()), Some("r"));
    let refused = |why: &str| RefreshStart::Refused(why.to_string());
    assert_eq!(
        start_refresh(&tokens(None, None), false, None, &around(true)),
        refused("no refresh token stored")
    );
    let no_host = Surroundings {
        base: None,
        ..around(true)
    };
    assert_eq!(
        start_refresh(&current, false, None, &no_host),
        refused("no host configured for token refresh")
    );
    let just_awake = Surroundings {
        settled: false,
        ..around(true)
    };
    assert_eq!(
        start_refresh(&current, false, None, &just_awake),
        refused("the machine has not been awake long enough to refresh")
    );
    let held = Surroundings {
        held: true,
        ..around(true)
    };
    assert_eq!(
        start_refresh(&current, true, Some("a"), &held),
        refused("the refresh token is held back after an unanswered refresh")
    );
}

fn answered(code: u16, status: &str, tokens: NativeAuthTokens) -> RefreshReply {
    RefreshReply::Answered {
        code,
        status: status.to_string(),
        tokens,
    }
}

#[test]
fn every_reply_has_its_outcome() {
    let none = NativeAuthTokens::default;
    assert_eq!(
        classify(RefreshReply::ConnectFailed("dns".into())),
        Outcome::Unreached("refresh could not reach the gateway: dns".into())
    );
    assert_eq!(
        classify(RefreshReply::NoAnswer("timed out".into())),
        Outcome::Unknown("refresh got no answer: timed out".into())
    );
    for code in [401, 403] {
        assert_eq!(
            classify(answered(code, "", tokens(Some("b".into()), None))),
            Outcome::Rejected
        );
    }
    assert_eq!(
        classify(answered(502, "502 Bad Gateway", none())),
        Outcome::Unknown("refresh failed: HTTP 502 Bad Gateway".into())
    );
    assert_eq!(
        classify(answered(200, "200 OK", none())),
        Outcome::Unknown(
            "refresh returned no tokens — is dev-ticket enabled on the gateway?".into()
        )
    );
    assert_eq!(
        classify(answered(204, "204 No Content", tokens(None, Some("s")))),
        Outcome::Rotated(tokens(None, Some("s")))
    );
}

#[test]
fn a_rotation_is_merged_and_stored() {
    let mut lifecycle = TokenLifecycle {
        consecutive_failures: 4,
        ..TokenLifecycle::default()
    };
    let settled = settle(
        &mut lifecycle,
        tokens(Some("a".into()), Some("r")),
        Outcome::Rotated(tokens(Some("b".into()), None)),
        7,
    );
    assert_eq!(
        settled,
        Settlement::Store(tokens(Some("b".into()), Some("r")))
    );
    assert_eq!(lifecycle.consecutive_failures, 0);
    assert_eq!(
        after_store(tokens(Some("b".into()), None), false),
        Settlement::EndSession("rotation could not be persisted")
    );
    assert_eq!(
        after_store(tokens(Some("b".into()), None), true),
        Settlement::Store(tokens(Some("b".into()), None))
    );
}

#[test]
fn a_lost_rotation_is_told_from_a_revoked_session() {
    let stored = || tokens(Some("a".into()), Some("r"));
    let mut lifecycle = TokenLifecycle::default();
    assert_eq!(
        settle(&mut lifecycle, stored(), Outcome::Rejected, 1),
        Settlement::EndSession("the gateway rejected the refresh token")
    );
    assert_eq!(
        settle(
            &mut lifecycle,
            stored(),
            Outcome::Unknown("gone".into()),
            100
        ),
        Settlement::Failed("gone".into())
    );
    assert!(lifecycle.lost_rotation);
    assert_eq!(lifecycle.lost_at, 100);
    assert_eq!(lifecycle.consecutive_failures, 1);
    assert_eq!(lifecycle.lost_token.as_deref(), Some("r"));
    assert!(is_held_back(&lifecycle, &stored(), 100));
    assert!(is_held_back(&lifecycle, &stored(), 159));
    assert!(!is_held_back(&lifecycle, &stored(), 160));
    // A session signed in meanwhile is not the one that was lost.
    let other = tokens(Some("b".into()), Some("s"));
    assert!(!is_held_back(&lifecycle, &other, 100));
    assert!(!is_held_back(&lifecycle, &tokens(None, None), 100));
    assert_eq!(
        settle(
            &mut lifecycle,
            stored(),
            Outcome::Unreached("dns".into()),
            101
        ),
        Settlement::Failed("dns".into())
    );
    assert_eq!(lifecycle.consecutive_failures, 2);
    assert_eq!(
        settle(&mut lifecycle, stored(), Outcome::Rejected, 102),
        Settlement::EndSession("a refresh whose response was lost had already rotated it")
    );
    assert!(!lifecycle.lost_rotation);
    assert_eq!(lifecycle.consecutive_failures, 0);
    assert!(!is_held_back(&lifecycle, &stored(), 103));
}

#[test]
fn failures_stay_counted_when_the_counter_is_full() {
    let mut lifecycle = TokenLifecycle {
        consecutive_failures: u32::MAX,
        ..TokenLifecycle::default()
    };
    settle(
        &mut lifecycle,
        NativeAuthTokens::default(),
        Outcome::Unreached("dns".into()),
        0,
    );
    assert_eq!(lifecycle.consecutive_failures, u32::MAX);
    assert_eq!(poll_delay(lifecycle.consecutive_failures), 480);
}

#[test]
fn a_nudge_keeps_to_the_polls_cadence() {
    let mut lifecycle = TokenLifecycle::default();
    assert!(!refresh_soon(&mut lifecycle, false, 1000));
    assert_eq!(lifecycle.last_nudge, 0);
    assert!(refresh_soon(&mut lifecycle, true, 1000));
    assert!(!refresh_soon(&mut lifecycle, true, 1029));
    assert!(refresh_soon(&mut lifecycle, true, 1030));
    lifecycle.consecutive_failures = 1;
    assert!(!refresh_soon(&mut lifecycle, true, 1089));
    // A clock that was set back counts as no time at all.
    assert!(!refresh_soon(&mut lifecycle, true, 5));
    assert!(refresh_soon(&mut lifecycle, true, 1090));
}

#[test]
fn a_resume_holds_rotations_back_for_fifteen_seconds() {
    let mut watch = WakeWatch::new(1_000_000, 50_000);
    assert!(watch.settled(50_000));
    assert!(!watch.observe(1_005_000, 55_000));
    assert!(watch.settled(55_000));
    // Ten minutes passed on the wall, five seconds of them awake.
    assert!(watch.observe(1_605_000, 60_000));
    assert!(!watch.settled(74_999));
    assert!(watch.settled(75_000));
}

#[test]
fn a_delegated_failure_keeps_the_session() {
    let whole = tokens(Some("a".into()), Some("r"));
    let half = tokens(None, Some("r"));
    assert_eq!(delegated(Err("no".into()), whole.clone()), Ok(whole.clone()));
    // A refresh token alone is still something to refresh with.
    assert_eq!(delegated(Err("no".into()), half.clone()), Ok(half));
    let spent = tokens(Some("a".into()), None);
    assert_eq!(delegated(Err("no".into()), spent), Err("no".into()));
    assert_eq!(
        delegated(Err("no".into()), NativeAuthTokens::default()),
        Err("no".into())
    );
    assert_eq!(
        delegated(Ok(NativeAuthTokens::default()), whole),
        Ok(NativeAuthTokens::default())
    );
}

#[test]
fn a_refresh_runs_from_start_to_end() {
    let mut lifecycle = TokenLifecycle::default();
    let stored = tokens(Some("a".into()), Some("r"));
    let request = || RefreshAction::Post {
        url: "https://auth/oauth/refresh".to_string(),
        refresh_token: "r".to_string(),
    };
    let (mut run, action) = RefreshRun::begin(stored.clone(), false, None, &around(true));
    assert_eq!(action, request());
    // Twice unreached, then rotated.
    for secs in [1, 3] {
        let reply = RefreshReply::ConnectFailed("dns".into());
        assert_eq!(
            run.on_reply(&mut lifecycle, reply, 0),
            RefreshAction::Wait(secs)
        );
        assert_eq!(run.on_waited(&mut lifecycle, true, 0), request());
        assert_eq!(lifecycle, TokenLifecycle::default());
    }
    let rotated = tokens(Some("b".into()), Some("s"));
    assert_eq!(
        run.on_reply(&mut lifecycle, answered(200, "200 OK", rotated.clone()), 0),
        RefreshAction::Store(rotated.clone())
    );
    assert_eq!(
        run.on_stored(rotated.clone(), true),
        RefreshAction::Finish(Ok(rotated.clone()))
    );
    assert_eq!(
        run.on_stored(rotated, false),
        RefreshAction::EndSession("rotation could not be persisted")
    );
    assert_eq!(
        run.on_ended(),
        RefreshAction::Finish(Ok(NativeAuthTokens::default()))
    );
}

#[test]
fn a_refresh_ends_at_the_first_answer() {
    let mut lifecycle = TokenLifecycle::default();
    let stored = tokens(Some("a".into()), Some("r"));
    let begin = || RefreshRun::begin(stored.clone(), true, Some("a"), &around(false)).0;
    assert_eq!(
        begin().on_reply(
            &mut lifecycle,
            answered(401, "401 Unauthorized", NativeAuthTokens::default()),
            0
        ),
        RefreshAction::EndSession("the gateway rejected the refresh token")
    );
    assert_eq!(
        begin().on_reply(&mut lifecycle, RefreshReply::NoAnswer("reset".into()), 9),
        RefreshAction::Finish(Err("refresh got no answer: reset".into()))
    );
    assert_eq!(lifecycle.lost_at, 9);
    // The third time unreached is the last.
    let mut run = begin();
    for _ in 0..2 {
        run.on_reply(&mut lifecycle, RefreshReply::ConnectFailed("dns".into()), 9);
    }
    assert_eq!(
        run.on_reply(&mut lifecycle, RefreshReply::ConnectFailed("dns".into()), 9),
        RefreshAction::Finish(Err("refresh could not reach the gateway: dns".into()))
    );
    assert_eq!(lifecycle.consecutive_failures, 2);
    let (_, action) = RefreshRun::begin(stored.clone(), false, None, &around(false));
    assert_eq!(action, RefreshAction::Finish(Ok(stored.clone())));
    let (_, action) = RefreshRun::begin(tokens(None, None), false, None, &around(true));
    assert_eq!(
        action,
        RefreshAction::Finish(Err("no refresh token stored".into()))
    );
}

#[test]
fn the_clock_reads_seconds_since_the_epoch() {
    let by_std = std::time::SystemTime::now()
        .duration_since(std::time::UNIX_EPOCH)
        .unwrap()
        .as_secs();
    assert!(now_secs().abs_diff(by_std) <= 1);
}

#[test]
fn a_reading_is_taken_in_whole_seconds() {
    assert_eq!(elapsed_secs(Some(Duration::from_millis(2_999))), 2);
    assert_eq!(elapsed_secs(Some(Duration::ZERO)), 0);
    assert_eq!(elapsed_secs(Some(Duration::MAX)), u64::MAX);
    // A clock set before the epoch.
    assert_eq!(elapsed_secs(None), 0);
}

#[test]
fn a_machine_that_slept_through_the_wait_sends_nothing() {
    let mut lifecycle = TokenLifecycle::default();
    let stored = tokens(Some("a".into()), Some("r"));
    let (mut run, _) = RefreshRun::begin(stored, false, None, &around(true));
    assert_eq!(
        run.on_reply(&mut lifecycle, RefreshReply::ConnectFailed("dns".into()), 0),
        RefreshAction::Wait(1)
    );
    assert_eq!(
        run.on_waited(&mut lifecycle, false, 0),
        RefreshAction::Finish(Err(
            "the machine has not been awake long enough to refresh".into()
        ))
    );
    // The gateway was not reached, and nothing was lost.
    assert_eq!(lifecycle.consecutive_failures, 1);
    assert!(!lifecycle.lost_rotation);
}

#[test]
fn a_session_signed_in_after_a_lost_rotation_is_refreshed() {
    let mut lifecycle = TokenLifecycle::default();
    settle(
        &mut lifecycle,
        tokens(Some("a".into()), Some("r")),
        Outcome::Unknown("gone".into()),
        100,
    );
    let gather = |stored: &NativeAuthTokens| {
        let base = Some("https://auth".to_string());
        Surroundings::gather(stored, &lifecycle, base, true, 110)
    };
    let lost = tokens(None, Some("r"));
    let around = gather(&lost);
    assert!(around.is_due && around.held && around.settled);
    assert_eq!(
        RefreshRun::begin(lost, true, None, &around).1,
        RefreshAction::Finish(Err(
            "the refresh token is held back after an unanswered refresh".into()
        ))
    );
    let fresh = tokens(Some("b".into()), Some("s"));
    let around = gather(&fresh);
    // An expiry that cannot be read is no schedule, but a forced refresh goes out.
    assert!(!around.is_due && !around.held);
    assert_eq!(
        RefreshRun::begin(fresh, true, Some("b"), &around).1,
        RefreshAction::Post {
            url: "https://auth/oauth/refresh".to_string(),
            refresh_token: "s".to_string(),
        }
    );
}

#[test]
fn a_request_is_overdue_by_the_wall_clock() {
    assert!(!request_overdue(100, 109));
    assert!(request_overdue(100, 110));
    assert!(!request_overdue(100, 90));
}
