use autolon::config::{
    default_fast_slot, default_slow_slot, default_user_slot, BackendPreference, Config, ConfigError,
    MouseButton, SlotConfig, APP_ID, DEFAULT_GLOBAL_HOTKEY_DEBOUNCE_MS,
};

#[test]
fn default_config_matches_first_start() {
    let c = Config::default();
    assert_eq!(c.version, 1);
    assert_eq!(c.hotkeys.cycle, "F6");
    assert_eq!(c.hotkeys.stop, "F7");
    assert_eq!(c.clicker.cycle_order, vec![1, 2, 3]);
    assert_eq!(c.clicker.min_interval_ms, 2);
    assert!(c.global_autoclicker_enabled);
    assert!(!c.display_global_mouse_overlay);
    assert_eq!(c.global_hotkey_debounce_ms, DEFAULT_GLOBAL_HOTKEY_DEBOUNCE_MS);
    assert_eq!(c.backend, BackendPreference::Auto);
    assert_eq!(c.slots.one.name, "Slow");
    assert_eq!(c.slots.two.name, "Fast");
    assert_eq!(c.slots.three.name, "User");
    assert_eq!(APP_ID, "io.github.autolon.Autolon");
}

#[test]
fn default_config_is_valid() {
    assert_eq!(Config::default().validate(), Ok(()));
}

#[test]
fn built_in_slots() {
    let slow = default_slow_slot();
    assert_eq!((slow.name.as_str(), slow.enabled, slow.button, slow.interval_ms, slow.press_duration_ms), ("Slow", true, MouseButton::Left, 500, 25));
    let fast = default_fast_slot();
    assert_eq!((fast.name.as_str(), fast.enabled, fast.button, fast.interval_ms, fast.press_duration_ms), ("Fast", true, MouseButton::Left, 10, 1));
    let user = default_user_slot();
    assert_eq!((user.name.as_str(), user.enabled, user.button, user.interval_ms, user.press_duration_ms), ("User", false, MouseButton::Left, 1000, 25));
    let d = SlotConfig::default();
    assert_eq!(d.name, "User");
    assert!(!d.enabled);
    assert_eq!(BackendPreference::default(), BackendPreference::Auto);
}

#[test]
fn unsupported_version_is_rejected() {
    let mut c = Config::default();
    c.version = 2;
    let e = c.validate().unwrap_err();
    assert_eq!(e, ConfigError::UnsupportedVersion { version: 2 });
    assert_eq!(e.message(), "unsupported config version 2; expected 1");
}

#[test]
fn zero_minimum_interval_is_rejected() {
    let mut c = Config::default();
    c.clicker.min_interval_ms = 0;
    let e = c.validate().unwrap_err();
    assert_eq!(e, ConfigError::MinIntervalTooSmall);
    assert_eq!(e.message(), "clicker.min_interval_ms must be at least 1");
}

#[test]
fn interval_below_minimum_is_rejected() {
    let mut c = Config::default();
    c.slots.two.interval_ms = 1;
    let e = c.validate().unwrap_err();
    assert_eq!(e, ConfigError::IntervalBelowMinimum { slot_id: 2, interval_ms: 1, min_interval_ms: 2 });
    assert_eq!(e.message(), "slot 2 interval 1ms is below minimum 2ms");
}

#[test]
fn zero_press_duration_is_rejected() {
    let mut c = Config::default();
    c.slots.three.press_duration_ms = 0;
    let e = c.validate().unwrap_err();
    assert_eq!(e, ConfigError::PressDurationZero { slot_id: 3 });
    assert_eq!(e.message(), "slot 3 press_duration_ms must be at least 1");
}

#[test]
fn press_not_below_interval_is_rejected() {
    let mut c = Config::default();
    c.slots.one.press_duration_ms = 500;
    let e = c.validate().unwrap_err();
    assert_eq!(e, ConfigError::PressDurationNotBelowInterval { slot_id: 1 });
    assert_eq!(e.message(), "slot 1 press_duration_ms must be less than interval_ms");
}

#[test]
fn first_broken_rule_is_reported() {
    let mut c = Config::default();
    c.slots.one.press_duration_ms = 0;
    c.slots.two.interval_ms = 1;
    assert_eq!(c.validate(), Err(ConfigError::PressDurationZero { slot_id: 1 }));
    c.version = 7;
    assert_eq!(c.validate(), Err(ConfigError::UnsupportedVersion { version: 7 }));
}

#[test]
fn slot_lookup() {
    let c = Config::default();
    assert_eq!(c.slot(3).unwrap().name, "User");
    let e = c.slot(0).unwrap_err();
    assert_eq!(e, ConfigError::InvalidSlotId);
    assert_eq!(e.message(), "slot id must be 1, 2, or 3");
    assert!(c.slot(4).is_err());
}

#[test]
fn slot_mut_changes_only_that_slot() {
    let mut c = Config::default();
    c.slot_mut(2).unwrap().interval_ms = 40;
    assert_eq!(c.slots.two.interval_ms, 40);
    assert_eq!(c.slots.one.interval_ms, 500);
    assert_eq!(c.slot_mut(9).unwrap_err(), ConfigError::InvalidSlotId);
}

#[test]
fn normalize_swaps_old_two_slot_layout() {
    let mut c = Config::default();
    c.slots.one = default_fast_slot();
    c.slots.two = default_slow_slot();
    c.clicker.cycle_order = vec![2, 1];
    c.clicker.min_interval_ms = 5;
    assert!(c.normalize_v1());
    assert_eq!(c.slots.one.name, "Slow");
    assert_eq!(c.slots.two.name, "Fast");
    assert_eq!(c.clicker.cycle_order, vec![1, 2, 3]);
    assert_eq!(c.clicker.min_interval_ms, 2);
}

#[test]
fn normalize_resets_unknown_names() {
    let mut c = Config::default();
    c.slots.three.name = "Custom".to_string();
    c.slots.one.interval_ms = 800;
    assert!(c.normalize_v1());
    assert_eq!(c.slots.three.name, "User");
    assert_eq!(c.slots.one.interval_ms, 500);
}

#[test]
fn normalize_keeps_current_layout() {
    let mut c = Config::default();
    c.slots.one.interval_ms = 800;
    assert!(!c.normalize_v1());
    assert_eq!(c.slots.one.interval_ms, 800);
}

#[test]
fn old_stop_hotkey_is_migrated() {
    let mut c = Config::default();
    c.hotkeys.stop = "shift+f6".to_string();
    assert!(c.migrate_stop_hotkey());
    assert_eq!(c.hotkeys.stop, "F7");
    let mut d = Config::default();
    d.hotkeys.stop = "F9".to_string();
    assert!(!d.migrate_stop_hotkey());
    assert_eq!(d.hotkeys.stop, "F9");
}

#[test]
fn normalizing_twice_changes_nothing_more() {
    let mut c = Config::default();
    c.slots.one = default_fast_slot();
    c.slots.two = default_slow_slot();
    assert!(c.normalize_v1());
    let once = c.clone();
    assert!(!c.normalize_v1());
    assert_eq!(c.slots.one.name, once.slots.one.name);
    assert_eq!(c.slots.two.interval_ms, once.slots.two.interval_ms);
    assert_eq!(c.slots.three.name, once.slots.three.name);
}

#[test]
fn old_layout_with_a_custom_third_slot_settles_on_the_second_pass() {
    let mut c = Config::default();
    c.slots.one = default_fast_slot();
    c.slots.two = default_slow_slot();
    c.slots.three.name = "Custom".to_string();
    c.slots.one.interval_ms = 30;
    assert!(c.normalize_v1());
    assert_eq!(c.slots.one.name, "Slow");
    assert_eq!(c.slots.three.name, "Custom");
    assert!(c.normalize_v1());
    assert_eq!(c.slots.three.name, "User");
    assert!(!c.normalize_v1());
}
