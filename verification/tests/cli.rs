use autolon::cli::{
    check, checked_response, in_input_group, parse_backend, set_slot, starts_daemon, status_report,
    udev_rule_matches, verification_result, verify_config, verify_slot, Args, CliError, Command,
    SlotSet, UDEV_RULE,
};
use autolon::clicker::{ClickerState, Status};
use autolon::config::{BackendPreference, Config};
use autolon::ipc::{Request, Response};

#[test]
fn no_subcommand_opens_the_window() {
    assert!(matches!(Args { command: None }.into_command(), Command::Gui));
    assert!(matches!(Args { command: Some(Command::Cycle) }.into_command(), Command::Cycle));
}

#[test]
fn slot_set_sends_interval_then_enabled() {
    let reqs = set_slot(&SlotSet { slot_id: 2, interval_ms: Some(40), enabled: Some(false) }).unwrap();
    assert_eq!(
        reqs,
        vec![
            Request::SetSlotInterval { slot_id: 2, interval_ms: 40 },
            Request::SetSlotEnabled { slot_id: 2, enabled: false },
        ]
    );
    let only = set_slot(&SlotSet { slot_id: 3, interval_ms: None, enabled: Some(true) }).unwrap();
    assert_eq!(only, vec![Request::SetSlotEnabled { slot_id: 3, enabled: true }]);
}

#[test]
fn slot_set_refusals() {
    let e = set_slot(&SlotSet { slot_id: 0, interval_ms: Some(40), enabled: None }).unwrap_err();
    assert_eq!(e, CliError::InvalidSlotId);
    assert_eq!(e.message(), "slot id must be 1, 2, or 3");
    let e = set_slot(&SlotSet { slot_id: 1, interval_ms: None, enabled: None }).unwrap_err();
    assert_eq!(e, CliError::NothingToSet);
    assert_eq!(e.message(), "nothing to set; pass --interval-ms or --enabled");
}

#[test]
fn only_quit_skips_starting_the_daemon() {
    assert!(!starts_daemon(&Request::Quit));
    assert!(starts_daemon(&Request::Status));
    assert!(starts_daemon(&Request::SetSlotEnabled { slot_id: 1, enabled: true }));
}

#[test]
fn failed_responses_become_errors() {
    let ok = Response { ok: true, status: None, error: None };
    assert!(checked_response(ok).is_ok());
    let with_text = Response { ok: false, status: None, error: Some("bad slot".to_string()) };
    assert_eq!(checked_response(with_text).unwrap_err(), "bad slot");
    let bare = Response { ok: false, status: None, error: None };
    assert_eq!(checked_response(bare).unwrap_err(), "daemon command failed");
}

#[test]
fn status_lines() {
    let response = Response {
        ok: true,
        status: Some(Status {
            state: ClickerState::Running { slot_id: 2, interval_ms: 10, started_at_unix_ms: 1 },
            backend: "x11".to_string(),
            wayland: false,
            hotkeys: "ready".to_string(),
            config_path: "/home/u/.config/autolon/config.toml".to_string(),
        }),
        error: None,
    };
    assert_eq!(
        status_report(&response).unwrap(),
        vec![
            "state: running slot 2 (10 ms)",
            "backend: x11",
            "session: x11/other",
            "hotkeys: ready",
            "config: /home/u/.config/autolon/config.toml",
        ]
    );
    let stopped = Response {
        ok: true,
        status: Some(Status {
            state: ClickerState::Stopped,
            backend: "uinput".to_string(),
            wayland: true,
            hotkeys: "h".to_string(),
            config_path: "p".to_string(),
        }),
        error: None,
    };
    let lines = status_report(&stopped).unwrap();
    assert_eq!(lines[0], "state: stopped");
    assert_eq!(lines[2], "session: wayland");
    let empty = Response { ok: true, status: None, error: None };
    assert_eq!(status_report(&empty).unwrap_err(), "daemon returned no status");
}

#[test]
fn checks_count_failures() {
    let mut failures = 0u32;
    assert_eq!(check("a thing", true, &mut failures), "PASS a thing");
    assert_eq!(failures, 0);
    assert_eq!(check("b thing", false, &mut failures), "FAIL b thing");
    assert_eq!(failures, 1);
}

#[test]
fn default_config_passes_verification() {
    let mut failures = 0u32;
    let lines = verify_config(&Config::default(), &mut failures);
    assert_eq!(failures, 0);
    assert_eq!(lines.len(), 13);
    assert_eq!(lines[0], "PASS global autoclicker defaults enabled");
    assert_eq!(lines[3], "PASS cycle order is Slow -> Fast -> User");
    assert_eq!(lines[4], "PASS slot 1 name is Slow");
    assert_eq!(lines[11], "PASS slot 3 enabled is false");
    assert_eq!(lines[12], "PASS slot 3 interval is 1000ms");
    assert_eq!(verification_result(failures), Ok(()));
}

#[test]
fn changed_config_fails_verification() {
    let mut c = Config::default();
    c.hotkeys.cycle = "f6".to_string();
    c.slots.two.interval_ms = 20;
    c.global_autoclicker_enabled = false;
    let mut failures = 0u32;
    let lines = verify_config(&c, &mut failures);
    assert_eq!(lines[0], "FAIL global autoclicker defaults enabled");
    assert_eq!(lines[1], "PASS cycle hotkey is F6");
    assert_eq!(lines[9], "FAIL slot 2 interval is 10ms");
    assert_eq!(failures, 2);
    assert_eq!(
        verification_result(failures),
        Err("autolon verification failed with 2 failing check(s)".to_string())
    );
}

#[test]
fn verify_unknown_slot() {
    let mut lines = Vec::new();
    let mut failures = 0u32;
    verify_slot(&Config::default(), 5, "X", true, 1, &mut lines, &mut failures);
    assert_eq!(lines, vec!["FAIL slot 5 exists".to_string()]);
    assert_eq!(failures, 1);
}

#[test]
fn backends_by_name() {
    assert_eq!(parse_backend("auto"), Ok(BackendPreference::Auto));
    assert_eq!(parse_backend("uinput"), Ok(BackendPreference::Uinput));
    assert_eq!(parse_backend("x11"), Ok(BackendPreference::X11));
    let e = parse_backend("X11").unwrap_err();
    assert_eq!(e, CliError::UnknownBackend);
    assert_eq!(e.message(), "unknown backend");
}

#[test]
fn udev_rule_and_groups() {
    assert!(udev_rule_matches(UDEV_RULE));
    let padded = format!("\n  {}\n\n", UDEV_RULE.trim());
    assert!(udev_rule_matches(&padded));
    assert!(!udev_rule_matches("SUBSYSTEM==\"misc\""));
    assert!(in_input_group("wheel autolon-input audio"));
    assert!(!in_input_group("wheel audio"));
}
