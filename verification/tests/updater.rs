use openframe_console::config::AppConfig;
use openframe_console::json::{parse, Json};
use openframe_console::updater::{
    after_download, after_install, begin_apply, classify, endpoint_from, may_apply, may_check, report_step, resolve_manifest_url,
    self_update_enabled, update_endpoint, version_report, Download, Fault, Progress, ReportStep,
    UpdateAvailability, UpdateError, DEFAULT_MANIFEST_URL,
};

#[test]
fn updates_are_on_unless_switched_off() {
    let mut cfg = AppConfig::default();
    assert!(self_update_enabled(&cfg));
    cfg.self_update_enabled = Some(true);
    assert!(self_update_enabled(&cfg));
    cfg.self_update_enabled = Some(false);
    assert!(!self_update_enabled(&cfg));
}

#[test]
fn the_manifest_is_where_the_configuration_says() {
    let mut cfg = AppConfig::default();
    assert_eq!(resolve_manifest_url(&cfg, None), DEFAULT_MANIFEST_URL);
    assert_eq!(resolve_manifest_url(&cfg, Some("")), DEFAULT_MANIFEST_URL);
    assert_eq!(resolve_manifest_url(&cfg, Some("https://b")), "https://b");
    cfg.update_manifest_url = Some(String::new());
    assert_eq!(resolve_manifest_url(&cfg, Some("https://b")), "https://b");
    cfg.update_manifest_url = Some("https://c/m.json".to_string());
    assert_eq!(
        update_endpoint(&cfg, Some("https://b")),
        Ok("https://c/m.json".to_string())
    );
    cfg.update_manifest_url = Some("odd".to_string());
    assert_eq!(
        update_endpoint(&cfg, None),
        Err(UpdateError {
            kind: "unavailable",
            message: "invalid manifest URL 'odd': relative URL without a base".to_string(),
        })
    );
    assert_eq!(
        endpoint_from("x", Err("why".to_string())),
        Err(UpdateError::unavailable(
            "invalid manifest URL 'x': why".to_string()
        ))
    );
}

#[test]
fn an_update_is_described_from_its_manifest() {
    let manifest = parse("{\"releaseNotesUrl\":\"https://notes\"}").unwrap();
    assert_eq!(
        UpdateAvailability::from_update("1.2.3", Some("notes"), &manifest),
        UpdateAvailability {
            available: true,
            version: Some("1.2.3".to_string()),
            notes: Some("notes".to_string()),
            release_notes_url: Some("https://notes".to_string()),
        }
    );
    let empty = parse("{\"releaseNotesUrl\":\"\"}").unwrap();
    for manifest in [empty, Json::Null] {
        assert_eq!(
            UpdateAvailability::from_update("1", None, &manifest).release_notes_url,
            None
        );
    }
    assert_eq!(
        UpdateAvailability::none(),
        UpdateAvailability {
            available: false,
            version: None,
            notes: None,
            release_notes_url: None,
        }
    );
}

#[test]
fn every_fault_has_its_kind() {
    for (fault, kind) in [
        (Fault::Reqwest, "network"),
        (Fault::Network, "network"),
        (Fault::ReleaseNotFound, "network"),
        (Fault::Minisign, "signature"),
        (Fault::Base64, "signature"),
        (Fault::SignatureUtf8, "signature"),
        (Fault::Io, "io"),
        (Fault::TempDirNotFound, "io"),
        (Fault::FailedToDetermineExtractPath, "io"),
        (Fault::UnsupportedArch, "unavailable"),
        (Fault::UnsupportedOs, "unavailable"),
        (Fault::TargetNotFound, "unavailable"),
        (Fault::TargetsNotFound, "unavailable"),
        (Fault::EmptyEndpoints, "unavailable"),
        (Fault::UrlParse, "unavailable"),
        (Fault::InsecureTransportProtocol, "unavailable"),
        (Fault::InvalidUpdaterFormat, "unavailable"),
        (Fault::Semver, "unavailable"),
        (Fault::Serialization, "unavailable"),
        (Fault::Other, "unknown"),
    ] {
        assert_eq!(classify(fault), kind);
        assert_eq!(
            UpdateError::from_fault(fault, "m".to_string()),
            UpdateError {
                kind,
                message: "m".to_string()
            }
        );
    }
}

#[test]
fn only_the_main_window_updates() {
    assert!(may_check("main"));
    assert!(!may_check("child-1"));
    assert_eq!(may_apply("main"), Ok(()));
    assert_eq!(
        may_apply("child-1"),
        Err(UpdateError {
            kind: "unavailable",
            message: "updates can only be applied from the main window".to_string(),
        })
    );
    assert_eq!(begin_apply(true, true), Ok(()));
    assert_eq!(begin_apply(true, false), Err(UpdateError::busy()));
    assert_eq!(begin_apply(false, false), Err(UpdateError::gone()));
    assert_eq!(
        UpdateError::busy().message,
        "an update is already being applied"
    );
    assert_eq!(UpdateError::gone().message, "no update is available anymore");
}

#[test]
fn progress_is_counted_always_and_reported_now_and_then() {
    let mut download = Download::default();
    let total = Some(100);
    assert_eq!(
        download.on_chunk(10, total, 1000),
        Some(Progress {
            downloaded: 10,
            total
        })
    );
    assert_eq!(download.on_chunk(10, total, 1199), None);
    assert_eq!(download.on_chunk(10, total, 900), None);
    assert_eq!(
        download.on_chunk(10, None, 1200),
        Some(Progress {
            downloaded: 40,
            total: None
        })
    );
}

#[test]
fn the_installed_version_is_reported() {
    assert_eq!(
        version_report("u-1", "1.2.3"),
        (
            "user.u-1.installed-agent".to_string(),
            "{\"agentType\":\"openframe-desktop\",\"version\":\"1.2.3\"}".to_string()
        )
    );
    assert_eq!(report_step(1, true), ReportStep::Done);
    assert_eq!(report_step(1, false), ReportStep::RetryAfter(1));
    assert_eq!(report_step(4, false), ReportStep::RetryAfter(1));
    assert_eq!(report_step(5, false), ReportStep::GiveUp);
}

#[test]
fn a_window_is_asked_for_only_by_an_update_that_lands() {
    let mut cfg = AppConfig::default();
    assert!(!after_download(&mut cfg, &vec![]));
    assert!(!after_download(&mut cfg, &vec![false, false]));
    assert_eq!(cfg.autostart_show_window_next_start, None);
    assert!(after_download(&mut cfg, &vec![false, true]));
    assert_eq!(cfg.autostart_show_window_next_start, Some(true));
    assert_eq!(after_install(&mut cfg, Ok(())), (false, Ok(())));
    assert_eq!(cfg.autostart_show_window_next_start, Some(true));
    let failed = || Err((Fault::Minisign, "bad signature".to_string()));
    assert_eq!(
        after_install(&mut cfg, failed()),
        (
            true,
            Err(UpdateError {
                kind: "signature",
                message: "bad signature".to_string(),
            })
        )
    );
    assert_eq!(cfg.autostart_show_window_next_start, None);
    assert!(!after_install(&mut cfg, failed()).0);
    cfg.autostart_show_window_next_start = Some(false);
    assert!(after_download(&mut cfg, &vec![false]));
}
