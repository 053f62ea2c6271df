use openframe_console::autostart::{
    autostart_set, autostart_status, decide, desktop_exec_arg, desktop_pair, escape_xml, facts_of,
    has_flag, linux_desktop_entry, linux_enabled, linux_matches, linux_os_disabled, linux_ours,
    linux_preserved, macos_matches, macos_plist, mark_configured, policy_conflict, preserve,
    reconciled, set_autostart, show_window_after_restart, startup_approved, status, take_show_window_request,
    toggle_from_tray, toggled, tray_check, windows_enabled, windows_matches, windows_run_command, Action,
    AutostartError, Decision, Facts, Status, ToggleStep, Toggled, FLAG,
};
use openframe_console::config::AppConfig;

fn argv(args: &[&str]) -> Vec<Option<String>> {
    args.iter().map(|arg| Some(arg.to_string())).collect()
}

#[test]
fn flag_is_found_among_the_other_argv_consumers() {
    let mut args = argv(&[
        "/Applications/OpenFrame Desktop.app/Contents/MacOS/OpenFrame Desktop",
        "-ToastActivated",
        "openframe-desktop://notification?id=1",
    ]);
    assert!(!has_flag(&args));
    args.push(Some(FLAG.to_string()));
    assert!(has_flag(&args));
}

#[test]
fn a_non_utf8_argument_does_not_stop_the_search() {
    let not_text = String::from_utf8(vec![0xff, 0xfe]).ok();
    assert_eq!(not_text, None);
    assert!(has_flag(&vec![not_text, Some(FLAG.to_string())]));
}

#[test]
fn first_launch_applies_the_default_once() {
    let d = decide(Facts::default());
    assert_eq!(d.action, Action::Register);
    assert!(d.mark_configured);
}

#[test]
fn a_removed_registration_is_not_resurrected() {
    let d = decide(Facts {
        configured: true,
        ..Facts::default()
    });
    assert_eq!(d.action, Action::Nothing);
    assert!(!d.mark_configured);
}

#[test]
fn a_stale_registration_is_repaired_without_remarking() {
    let d = decide(Facts {
        configured: true,
        registered: true,
        ..Facts::default()
    });
    assert_eq!(d.action, Action::Register);
    assert!(!d.mark_configured);
}

#[test]
fn a_current_registration_is_left_alone() {
    let d = decide(Facts {
        configured: true,
        registered: true,
        current: true,
        ..Facts::default()
    });
    assert_eq!(d.action, Action::Nothing);
}

#[test]
fn policy_registers_when_absent_and_repairs_when_stale() {
    for registered in [false, true] {
        let d = decide(Facts {
            policy: Some(true),
            configured: true,
            registered,
            ..Facts::default()
        });
        assert_eq!(d.action, Action::Register);
    }
}

#[test]
fn policy_does_not_fight_a_user_disable() {
    let d = decide(Facts {
        policy: Some(true),
        configured: true,
        registered: true,
        current: true,
    });
    assert_eq!(d.action, Action::Nothing);
}

#[test]
fn policy_can_pin_it_off() {
    let d = decide(Facts {
        policy: Some(false),
        configured: true,
        registered: true,
        current: true,
    });
    assert_eq!(d.action, Action::Unregister);
    let d = decide(Facts {
        policy: Some(false),
        configured: true,
        ..Facts::default()
    });
    assert_eq!(d.action, Action::Nothing);
}

#[test]
fn policy_never_marks_the_default_applied() {
    for policy in [true, false] {
        for registered in [true, false] {
            let d = decide(Facts {
                policy: Some(policy),
                registered,
                current: registered,
                ..Facts::default()
            });
            assert!(!d.mark_configured);
        }
    }
}

#[test]
fn every_decision_reaches_a_fixpoint() {
    for policy in [None, Some(true), Some(false)] {
        for configured in [false, true] {
            for registered in [false, true] {
                for current in [false, true] {
                    // Nothing registered cannot also be up to date.
                    if !registered && current {
                        continue;
                    }
                    let first = decide(Facts {
                        policy,
                        configured,
                        registered,
                        current,
                    });
                    let settled = Facts {
                        policy,
                        configured: configured || first.mark_configured,
                        registered: match first.action {
                            Action::Register => true,
                            Action::Unregister => false,
                            Action::Nothing => registered,
                        },
                        current: match first.action {
                            Action::Register => true,
                            Action::Unregister => false,
                            Action::Nothing => current,
                        },
                    };
                    let second = decide(settled);
                    assert_eq!(
                        second.action,
                        Action::Nothing,
                        "did not settle from {policy:?}/{configured}/{registered}/{current}"
                    );
                    assert!(
                        !second.mark_configured,
                        "kept re-marking from {policy:?}/{configured}/{registered}/{current}"
                    );
                }
            }
        }
    }
}

#[test]
fn the_windows_command_quotes_a_path_containing_spaces() {
    let exe = r"C:\Users\x\AppData\Local\OpenFrame Desktop\OpenFrame Desktop.exe";
    assert_eq!(
        windows_run_command(exe),
        r#""C:\Users\x\AppData\Local\OpenFrame Desktop\OpenFrame Desktop.exe" --autostart"#
    );
}

#[test]
fn the_plist_is_attributed_and_does_not_keep_the_app_alive() {
    let plist = macos_plist(
        "/Applications/OpenFrame Desktop.app/Contents/MacOS/OpenFrame Desktop",
        "com.openframe.desktop",
    )
    .expect("a plain path renders");
    assert!(plist.contains("<key>AssociatedBundleIdentifiers</key>"));
    assert!(plist.contains("<string>com.openframe.desktop</string>"));
    assert!(plist.contains("<key>RunAtLoad</key>"));
    assert!(plist.contains("<string>--autostart</string>"));
    // Quit must mean quit.
    assert!(!plist.contains("KeepAlive"));
}

#[test]
fn a_path_with_xml_syntax_in_it_stays_parseable() {
    let plist = macos_plist("/Users/a & b/<x>/OpenFrame.app/x", "com.openframe.desktop")
        .expect("escapable characters render");
    assert!(plist.contains("/Users/a &amp; b/&lt;x&gt;/OpenFrame.app/x"));
}

#[test]
fn a_path_with_a_control_character_is_refused() {
    assert!(macos_plist("/Users/a\u{1}b/OpenFrame.app/x", "com.openframe.desktop").is_err());
}

#[test]
fn the_desktop_entry_carries_the_flag() {
    let entry =
        linux_desktop_entry("/opt/openframe/openframe-desktop").expect("a plain path renders");
    assert!(entry.contains("Exec=\"/opt/openframe/openframe-desktop\" --autostart"));
}

#[test]
fn a_desktop_switch_is_read_however_it_is_written() {
    assert!(linux_os_disabled("Hidden=true"));
    assert!(linux_os_disabled("Hidden = true"));
    assert!(linux_os_disabled("hidden=TRUE"));
    assert!(linux_os_disabled("X-GNOME-Autostart-enabled=false"));
    assert!(linux_os_disabled("X-GNOME-Autostart-enabled = False"));
    assert!(!linux_os_disabled("Hidden=false"));
    assert!(!linux_os_disabled("X-GNOME-Autostart-enabled=true"));
    assert!(!linux_os_disabled(&linux_desktop_entry("/opt/x").unwrap()));
}

#[test]
fn a_desktop_environments_additions_do_not_read_as_staleness() {
    let ours = linux_desktop_entry("/opt/openframe/openframe-desktop").unwrap();
    for addition in [
        "Hidden=true",
        "X-GNOME-Autostart-enabled=false",
        "X-GNOME-Autostart-Delay=10",
        "Icon=openframe",
        "Comment=added by the desktop",
    ] {
        let theirs = format!("{ours}{addition}\n");
        assert_eq!(
            linux_ours(&theirs),
            linux_ours(&ours),
            "{addition} read as staleness"
        );
    }
    // A genuinely different binary must still read as stale.
    let moved = linux_desktop_entry("/opt/elsewhere/openframe-desktop").unwrap();
    assert_ne!(linux_ours(&moved), linux_ours(&ours));
}

#[test]
fn a_rewrite_carries_the_users_switch_across() {
    let existing = format!(
        "{}Hidden=true\nIcon=openframe\n",
        linux_desktop_entry("/old/openframe-desktop").unwrap()
    );
    let preserved = linux_preserved(&existing);
    assert!(preserved.contains("Hidden=true"));
    // Only the switch, not everything the desktop added.
    assert!(!preserved.contains("Icon"));
}

#[test]
fn the_desktop_entry_escapes_field_codes_and_reserved_characters() {
    let arg = |value| desktop_exec_arg(value).expect("no control characters");
    assert_eq!(arg("/home/u/100%/app"), "/home/u/100%%/app");
    assert_eq!(arg(r#"/home/u/a"b"#), r#"/home/u/a\\"b"#);
    assert_eq!(arg("/home/u/a$b"), r"/home/u/a\\$b");
    // Four, not two: the escape survives the string decode and then the quoted argument's own
    // unquoting.
    assert_eq!(arg(r"/home/u/a\b"), r"/home/u/a\\\\b");
    // A newline would end the Exec line and break the entry structurally.
    assert!(desktop_exec_arg("/home/u/a\nb").is_err());
}

#[test]
fn the_whole_plist_is_what_launchd_reads() {
    assert_eq!(
        macos_plist("/a/b", "id").unwrap(),
        "<?xml version=\"1.0\" encoding=\"UTF-8\"?>\n\
         <!DOCTYPE plist PUBLIC \"-//Apple//DTD PLIST 1.0//EN\" \
         \"http://www.apple.com/DTDs/PropertyList-1.0.dtd\">\n\
         <plist version=\"1.0\">\n<dict>\n\t<key>Label</key>\n\t<string>id</string>\n\
         \t<key>AssociatedBundleIdentifiers</key>\n\t<array>\n\t\t<string>id</string>\n\
         \t</array>\n\t<key>ProgramArguments</key>\n\t<array>\n\t\t<string>/a/b</string>\n\
         \t\t<string>--autostart</string>\n\t</array>\n\t<key>RunAtLoad</key>\n\t<true/>\n\
         </dict>\n</plist>\n"
    );
}

#[test]
fn the_whole_entry_is_what_a_desktop_reads() {
    assert_eq!(
        linux_desktop_entry("/opt/x").unwrap(),
        "[Desktop Entry]\nType=Application\nName=OpenFrame\nExec=\"/opt/x\" --autostart\n"
    );
}

#[test]
fn refusals_name_the_first_character_at_fault() {
    assert_eq!(
        escape_xml("a\u{1}b\u{2}"),
        Err("value contains U+0001, which XML cannot represent".to_string())
    );
    assert_eq!(
        escape_xml("a\u{FFFF}"),
        Err("value contains U+FFFF, which XML cannot represent".to_string())
    );
    assert_eq!(
        escape_xml("\r"),
        Err("value contains U+000D, which XML cannot represent".to_string())
    );
    assert_eq!(escape_xml("a\tb\nc"), Ok("a\tb\nc".to_string()));
    assert_eq!(
        desktop_exec_arg("a\u{7f}b"),
        Err("path contains U+007F, which a desktop entry cannot carry".to_string())
    );
    assert_eq!(
        macos_plist("/a", "i\u{b}d"),
        Err("value contains U+000B, which XML cannot represent".to_string())
    );
    assert!(linux_desktop_entry("/a\nb").is_err());
}

#[test]
fn a_pair_is_read_without_the_space_around_it() {
    assert_eq!(
        desktop_pair("  Hidden =  true \t"),
        Some(("hidden".to_string(), "true".to_string()))
    );
    assert_eq!(
        desktop_pair("a=b=c"),
        Some(("a".to_string(), "b=c".to_string()))
    );
    assert_eq!(desktop_pair("[Desktop Entry]"), None);
}

#[test]
fn a_rewritten_entry_is_current_and_still_switched_off() {
    let existing = format!(
        "{}  X-GNOME-Autostart-enabled = false \r\nIcon=x\n",
        linux_desktop_entry("/old/app").unwrap()
    );
    let fresh = linux_desktop_entry("/new/app").unwrap();
    let written = preserve(Some(&existing), fresh.clone());
    assert_eq!(
        written,
        format!("{fresh}X-GNOME-Autostart-enabled = false\n")
    );
    assert!(linux_os_disabled(&written));
    assert!(linux_matches(Some(&written), "/new/app"));
    assert!(!linux_matches(Some(&existing), "/new/app"));
    assert!(!linux_enabled(Some(&written)));
    assert!(linux_enabled(Some(&fresh)));
    assert!(!linux_enabled(None));
    assert_eq!(preserve(None, fresh.clone()), fresh);
}

#[test]
fn an_escaped_value_has_no_markup_of_its_own() {
    assert_eq!(
        escape_xml("a & <b>").unwrap(),
        "a &amp; &lt;b&gt;"
    );
}

#[test]
fn the_startup_record_is_read_both_ways() {
    assert!(startup_approved(None));
    assert!(startup_approved(Some(&[])));
    assert!(startup_approved(Some(&[2, 0, 0, 0, 0, 0, 0, 0, 0, 0, 0, 0])));
    assert!(!startup_approved(Some(&[3, 0, 0, 0, 0, 0, 0, 0, 0, 0, 0, 0])));
    assert!(!startup_approved(Some(&[2, 0, 0, 0, 0, 0, 0, 0, 0, 0, 9, 0])));
    // Eight bytes hold no time behind the state.
    assert!(startup_approved(Some(&[2, 0, 0, 0, 0, 0, 0, 9])));
    assert!(windows_enabled(Some("x"), None));
    assert!(!windows_enabled(None, None));
    assert!(!windows_enabled(Some("x"), Some(&[7])));
    assert!(windows_matches(Some("\"a b\" --autostart"), "a b"));
    assert!(!windows_matches(Some("a b --autostart"), "a b"));
    assert!(!windows_matches(None, "a b"));
}

#[test]
fn an_agent_is_current_only_where_it_is_the_same() {
    let agent = macos_plist("/a", "id").unwrap();
    assert!(macos_matches(Some(&agent), "/a", "id"));
    assert!(!macos_matches(Some(&agent), "/b", "id"));
    assert!(!macos_matches(None, "/a", "id"));
    assert!(!macos_matches(Some(&agent), "/a\u{1}", "id"));
}

#[test]
fn a_failed_registration_is_not_recorded() {
    let decision = Decision {
        action: Action::Register,
        mark_configured: true,
    };
    let mut cfg = AppConfig::default();
    assert!(!reconciled(&mut cfg, &decision, false));
    assert_eq!(cfg.autostart_configured, None);
    assert!(reconciled(&mut cfg, &decision, true));
    assert_eq!(cfg.autostart_configured, Some(true));
    assert!(!mark_configured(&mut cfg));
}

#[test]
fn the_facts_come_from_the_configuration() {
    let mut cfg = AppConfig::default();
    assert_eq!(
        facts_of(&cfg, true, false),
        Facts {
            registered: true,
            ..Facts::default()
        }
    );
    cfg.autostart_configured = Some(false);
    cfg.autostart_enforced = Some(true);
    let facts = facts_of(&cfg, true, true);
    assert!(!facts.configured);
    assert!(policy_conflict(&facts, false));
    assert!(!policy_conflict(&facts, true));
}

#[test]
fn a_policy_takes_the_toggle_away() {
    let mut cfg = AppConfig::default();
    assert_eq!(set_autostart(&cfg, true), Ok(ToggleStep::TurnOn));
    assert_eq!(toggle_from_tray(&cfg, true), Ok(ToggleStep::TurnOff));
    assert_eq!(
        autostart_set("child-1", &cfg, true),
        Err(AutostartError {
            kind: "unavailable",
            message: "start at login can only be changed from the main window".to_string(),
        })
    );
    cfg.autostart_enforced = Some(false);
    assert_eq!(
        autostart_set("main", &cfg, true),
        Err(AutostartError {
            kind: "enforced",
            message: "start at login is managed by your organization".to_string(),
        })
    );
    assert_eq!(AutostartError::io("disk".to_string()).kind, "io");
    assert_eq!(
        status(&cfg, true),
        Status {
            enabled: true,
            enforced: true
        }
    );
    assert_eq!(tray_check(&status(&cfg, true)), (true, false));
    assert_eq!(
        autostart_status("child-1", &cfg, true),
        Status {
            enabled: false,
            enforced: false
        }
    );
    assert!(autostart_status("main", &cfg, true).enabled);
}

#[test]
fn a_window_request_is_taken_once() {
    let mut cfg = AppConfig::default();
    assert!(!show_window_after_restart(&mut cfg, false));
    assert!(show_window_after_restart(&mut cfg, true));
    assert!(!show_window_after_restart(&mut cfg, true));
    assert_eq!(take_show_window_request(&mut cfg), (true, true));
    assert_eq!(take_show_window_request(&mut cfg), (false, false));
    cfg.autostart_show_window_next_start = Some(false);
    assert_eq!(take_show_window_request(&mut cfg), (false, true));
    assert_eq!(cfg.autostart_show_window_next_start, None);
}

#[test]
fn a_toggle_is_recorded_once_it_is_written() {
    let mut cfg = AppConfig::default();
    assert_eq!(
        toggled(&mut cfg, ToggleStep::TurnOn, Err("disk full".to_string())),
        Err(AutostartError {
            kind: "io",
            message: "disk full".to_string(),
        })
    );
    assert_eq!(cfg.autostart_configured, None);
    assert_eq!(
        toggled(&mut cfg, ToggleStep::TurnOff, Ok(())),
        Ok(Toggled {
            clear_os_switch: false,
            store: true
        })
    );
    assert_eq!(cfg.autostart_configured, Some(true));
    // What was turned off stays off.
    assert_eq!(
        decide(facts_of(&cfg, false, false)).action,
        Action::Nothing
    );
    assert_eq!(
        toggled(&mut cfg, ToggleStep::TurnOn, Ok(())),
        Ok(Toggled {
            clear_os_switch: true,
            store: false
        })
    );
}
