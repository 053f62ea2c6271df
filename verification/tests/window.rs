use openframe_console::json::{Json, Member};
use openframe_console::link::parse_url;
use openframe_console::window::{
    clear_main_presence, handle_new_window, handle_page_load, is_bundle_window,
    mirror_document_title, mirror_webview, on_window_event, outlives_its_windows,
    raise_or_open_main_window, raises_on_relaunch, reopen_main_window, resume_payload,
    set_main_presence, show_primary_window, start_up, stays_in_dock, tray_action, tray_menu,
    webview_log, webview_told, LiveWindow, LogLevel, MainPresence, NewWindow, PagePlan, ReopenStep,
    ShowStep, StartUp, TrayAction, WindowChange, WindowPlan,
};

#[test]
fn a_title_is_trimmed_and_cut() {
    assert_eq!(mirror_document_title("  Home \n"), Some("Home".to_string()));
    assert_eq!(mirror_document_title(" \t "), None);
    assert_eq!(
        mirror_document_title(&"x".repeat(300)),
        Some("x".repeat(200))
    );
}

fn live(label: &str, url: &str) -> LiveWindow {
    LiveWindow {
        label: label.to_string(),
        url: parse_url(url).ok(),
    }
}

#[test]
fn new_windows_go_where_they_belong() {
    let windows = vec![
        live("login", "https://acme.example/"),
        live("main", "tauri://localhost/index.html"),
        live("child-0", "http://tauri.localhost/x"),
        LiveWindow {
            label: "child-1".to_string(),
            url: None,
        },
    ];
    let mut count = 7;
    let url = |text: &str| parse_url(text).unwrap();
    assert_eq!(
        handle_new_window(&url("tauri://localhost/tickets"), &windows, &mut count),
        NewWindow::Child {
            label: "child-7".to_string(),
            offset: 36
        }
    );
    assert_eq!(count, 8);
    assert_eq!(
        handle_new_window(&url("http://tauri.localhost/y"), &windows, &mut count),
        NewWindow::Child {
            label: "child-8".to_string(),
            offset: 72
        }
    );
    // A window that does not show the bundle does not count.
    assert_eq!(
        handle_new_window(&url("https://acme.example/a?b"), &windows, &mut count),
        NewWindow::Browser("https://acme.example/a?b".to_string())
    );
    assert_eq!(
        handle_new_window(&url("tauri://elsewhere/"), &windows, &mut count),
        NewWindow::Deny
    );
    assert_eq!(
        handle_new_window(&url("file:///etc/passwd"), &windows, &mut count),
        NewWindow::Deny
    );
    assert_eq!(count, 9);
    count = usize::MAX;
    handle_new_window(&url("tauri://localhost/"), &windows, &mut count);
    assert_eq!(count, 0);
    assert!(is_bundle_window("child-9") && is_bundle_window("main"));
    assert!(!is_bundle_window("child"));
}

#[test]
fn an_absence_is_announced_once() {
    let mut presence = MainPresence::default();
    // The first reveal announces nothing.
    assert_eq!(set_main_presence(&mut presence, true, 1000), None);
    assert_eq!(set_main_presence(&mut presence, false, 2000), None);
    assert_eq!(set_main_presence(&mut presence, false, 2500), None);
    assert_eq!(set_main_presence(&mut presence, true, 5000), Some(3000));
    assert_eq!(set_main_presence(&mut presence, true, 6000), None);
    // A clock that was set back announces nothing.
    assert_eq!(set_main_presence(&mut presence, false, 9000), None);
    assert_eq!(set_main_presence(&mut presence, true, 8000), None);
    // Nor does a window that replaces another.
    assert_eq!(set_main_presence(&mut presence, false, 9000), None);
    clear_main_presence(&mut presence);
    assert_eq!(presence, MainPresence::default());
    assert_eq!(set_main_presence(&mut presence, true, 9500), None);
    assert_eq!(
        resume_payload(3000),
        Json::Object(vec![Member {
            key: "hiddenMs".to_string(),
            value: Json::Unsigned(3000),
        }])
    );
}

#[test]
fn the_page_is_told_what_is_so() {
    let mut presence = MainPresence::default();
    assert_eq!(mirror_webview(&presence), Some(false));
    webview_told(&mut presence, false);
    assert_eq!(mirror_webview(&presence), None);
    set_main_presence(&mut presence, true, 0);
    assert_eq!(mirror_webview(&presence), Some(true));
    webview_told(&mut presence, true);
    assert_eq!(mirror_webview(&presence), None);
}

#[test]
fn a_window_is_raised_or_built() {
    assert_eq!(show_primary_window(true, true), ShowStep::Raise);
    assert_eq!(show_primary_window(false, true), ShowStep::Build);
    assert_eq!(show_primary_window(false, false), ShowStep::Wait);
    assert_eq!(raise_or_open_main_window(true), ShowStep::Raise);
    assert_eq!(raise_or_open_main_window(false), ShowStep::Build);
    assert_eq!(reopen_main_window(0, false), ReopenStep::Open);
    assert_eq!(reopen_main_window(49, true), ReopenStep::LookAgain(50));
    assert_eq!(reopen_main_window(50, false), ReopenStep::GiveUp);
}

#[test]
fn the_dock_shows_the_application_while_a_window_is_on_screen() {
    let windows = vec![("main".to_string(), true), ("child-0".to_string(), false)];
    assert!(!stays_in_dock(&windows, "main"));
    assert!(stays_in_dock(&windows, "child-0"));
    assert!(!stays_in_dock(&vec![], "main"));
}

#[test]
fn a_page_is_revealed_once_it_is_painted() {
    assert_eq!(
        handle_page_load("main", false),
        PagePlan {
            reset_click_gate: true,
            reveal: false,
            present: false
        }
    );
    assert_eq!(
        handle_page_load("main", true),
        PagePlan {
            reset_click_gate: false,
            reveal: true,
            present: true
        }
    );
    assert_eq!(
        handle_page_load("child-1", true),
        PagePlan {
            reset_click_gate: false,
            reveal: true,
            present: false
        }
    );
}

fn idle() -> WindowPlan {
    WindowPlan {
        hide: false,
        presence: None,
        forget: false,
        reset_click_gate: false,
        clear_unread: false,
        sync_dock: false,
    }
}

#[test]
fn window_events_come_to_what_they_ask_for() {
    assert_eq!(
        on_window_event("main", WindowChange::CloseRequested),
        WindowPlan {
            hide: true,
            presence: Some(false),
            sync_dock: true,
            ..idle()
        }
    );
    assert_eq!(
        on_window_event("child-0", WindowChange::CloseRequested),
        idle()
    );
    for (minimized, visible, present) in [
        (Some(false), Some(true), true),
        (Some(true), Some(true), false),
        (Some(false), Some(false), false),
        (None, None, true),
    ] {
        assert_eq!(
            on_window_event("main", WindowChange::Resized { minimized, visible }).presence,
            Some(present)
        );
    }
    assert_eq!(
        on_window_event("main", WindowChange::Destroyed),
        WindowPlan {
            forget: true,
            reset_click_gate: true,
            ..idle()
        }
    );
    assert_eq!(
        on_window_event("child-0", WindowChange::Destroyed),
        WindowPlan {
            sync_dock: true,
            ..idle()
        }
    );
    assert!(on_window_event("main", WindowChange::Focused(true)).clear_unread);
    assert_eq!(
        on_window_event("main", WindowChange::Focused(false)),
        idle()
    );
    assert_eq!(on_window_event("main", WindowChange::Other), idle());
}

#[test]
fn a_process_starts_up_as_what_it_was_started_for() {
    let argv = |args: &[&str]| -> Vec<String> { args.iter().map(|a| a.to_string()).collect() };
    let served = argv(&["x", "-ToastActivated"]);
    let plain = argv(&["x"]);
    assert_eq!(start_up(&served, true, true, true), StartUp::ServeActivation);
    assert_eq!(start_up(&served, false, false, false), StartUp::Windowed);
    assert_eq!(start_up(&plain, true, true, false), StartUp::Headless);
    assert_eq!(start_up(&plain, true, true, true), StartUp::Windowed);
    assert_eq!(start_up(&plain, true, false, false), StartUp::Windowed);
    assert!(!raises_on_relaunch(&served, true));
    assert!(raises_on_relaunch(&served, false));
    assert!(raises_on_relaunch(&plain, true));
    assert!(outlives_its_windows(None));
    assert!(!outlives_its_windows(Some(0)));
}

#[test]
fn the_tray_does_what_it_says() {
    for action in tray_menu() {
        assert_eq!(tray_action(action.id()), Some(action));
    }
    assert_eq!(tray_action("other"), None);
    let titles: Vec<&str> = tray_menu().iter().map(|action| action.title()).collect();
    assert_eq!(titles, vec!["Show", "Start at Login", "Sign Out", "Quit"]);
    assert_eq!(TrayAction::Quit.id(), "quit");
    assert_eq!(webview_log("error"), LogLevel::Error);
    assert_eq!(webview_log("warn"), LogLevel::Warn);
    assert_eq!(webview_log("debug"), LogLevel::Info);
}
