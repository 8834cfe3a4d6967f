use autolon::clicker::ClickerState;
use autolon::config::{default_fast_slot, Config, MouseButton};
use autolon::gui::{
    active_indicator, debounce_help, dot_color, function_key_label, hotkeys_title,
    local_after_toggle, local_click_due, local_hotkey, next_local_slot, push_capped, set_slot_speed,
    test_canvas_notice, update_global_slot, DotColor, GlobalSlot, HotkeysTitle, LocalStep,
};
use autolon::hotkeys::CommandKind;

#[test]
fn local_cycle_steps() {
    let c = Config::default();
    assert_eq!(next_local_slot(&c, None), LocalStep::Run(Some(1)));
    assert_eq!(next_local_slot(&c, Some(1)), LocalStep::Run(Some(2)));
    assert_eq!(next_local_slot(&c, Some(2)), LocalStep::Run(None));
    assert_eq!(next_local_slot(&c, Some(3)), LocalStep::Unchanged);
    let mut none = Config::default();
    none.slots.one.enabled = false;
    none.slots.two.enabled = false;
    assert_eq!(next_local_slot(&none, Some(1)), LocalStep::Run(None));
}

#[test]
fn global_slot_follows_status() {
    let mut current = None;
    let running = ClickerState::Running { slot_id: 2, interval_ms: 10, started_at_unix_ms: 5 };
    assert!(update_global_slot(&mut current, &running));
    assert_eq!(current, Some(GlobalSlot { slot_id: 2, interval_ms: 10 }));
    let later = ClickerState::Running { slot_id: 2, interval_ms: 10, started_at_unix_ms: 99 };
    assert!(!update_global_slot(&mut current, &later));
    assert!(update_global_slot(&mut current, &ClickerState::Stopped));
    assert_eq!(current, None);
}

#[test]
fn notices_name_the_hotkeys() {
    let mut c = Config::default();
    c.hotkeys.stop = "F9".to_string();
    assert_eq!(
        test_canvas_notice(&c),
        "Try playing with your autoclicker settings here before using it outside.\nRemember you can use F9 to Emergency Stop."
    );
    assert_eq!(
        debounce_help(&c),
        "Minimum time between accepted global F6/F9 presses; lower cycles faster but risks double-presses."
    );
}

#[test]
fn hotkeys_title_variants() {
    let c = Config::default();
    match hotkeys_title(&c, Some(GlobalSlot { slot_id: 1, interval_ms: 500 }), None) {
        HotkeysTitle::Enabled { running: Some((name, ms)) } => {
            assert_eq!(name, "slow");
            assert_eq!(ms, 500);
        }
        other => panic!("unexpected {:?}", other),
    }
    assert!(matches!(hotkeys_title(&c, None, Some(1)), HotkeysTitle::Enabled { running: None }));
    let mut off = Config::default();
    off.global_autoclicker_enabled = false;
    match hotkeys_title(&off, None, Some(2)) {
        HotkeysTitle::Disabled { testing: Some((name, ms)) } => {
            assert_eq!(name, "Fast");
            assert_eq!(ms, 10);
        }
        other => panic!("unexpected {:?}", other),
    }
    assert!(matches!(hotkeys_title(&off, None, Some(7)), HotkeysTitle::Disabled { testing: None }));
}

#[test]
fn indicator_on_the_canvas() {
    let c = Config::default();
    let g = Some(GlobalSlot { slot_id: 3, interval_ms: 77 });
    assert_eq!(active_indicator(&c, false, g, None), None);
    assert_eq!(active_indicator(&c, true, g, Some(1)), Some((3, 77)));
    let mut off = Config::default();
    off.global_autoclicker_enabled = false;
    assert_eq!(active_indicator(&off, true, g, Some(1)), Some((1, 500)));
    assert_eq!(active_indicator(&off, true, g, None), None);
}

#[test]
fn function_keys() {
    assert_eq!(function_key_label(1).as_deref(), Some("F1"));
    assert_eq!(function_key_label(12).as_deref(), Some("F12"));
    assert_eq!(function_key_label(0), None);
    assert_eq!(function_key_label(13), None);
}

#[test]
fn canvas_hotkeys() {
    let mut c = Config::default();
    assert_eq!(local_hotkey(&c, "F6"), Some(CommandKind::Cycle));
    assert_eq!(local_hotkey(&c, "F7"), Some(CommandKind::Stop));
    assert_eq!(local_hotkey(&c, "F8"), None);
    c.hotkeys.stop = "F6".to_string();
    assert_eq!(local_hotkey(&c, "F6"), Some(CommandKind::Cycle));
}

#[test]
fn speed_changes_keep_press_shorter() {
    let mut s = default_fast_slot();
    set_slot_speed(&mut s, 40);
    assert_eq!((s.interval_ms, s.press_duration_ms), (40, 1));
    s.press_duration_ms = 30;
    set_slot_speed(&mut s, 20);
    assert_eq!((s.interval_ms, s.press_duration_ms), (20, 19));
    set_slot_speed(&mut s, 1);
    assert_eq!((s.interval_ms, s.press_duration_ms), (1, 1));
    assert_eq!(s.name, "Fast");
    assert_eq!(s.button, MouseButton::Left);
}

#[test]
fn unchecking_the_running_slot_stops_the_canvas() {
    assert_eq!(local_after_toggle(Some(2), 2, false), None);
    assert_eq!(local_after_toggle(Some(2), 1, false), Some(2));
    assert_eq!(local_after_toggle(Some(2), 2, true), Some(2));
}

#[test]
fn canvas_click_timing() {
    let c = Config::default();
    assert!(local_click_due(&c, Some(1), true, 500));
    assert!(!local_click_due(&c, Some(1), true, 499));
    assert!(!local_click_due(&c, Some(1), false, 10_000));
    assert!(!local_click_due(&c, None, true, 10_000));
    assert!(!local_click_due(&c, Some(4), true, 10_000));
}

#[test]
fn dots_cycle_colours_and_are_capped() {
    assert_eq!(dot_color(0), DotColor::Red);
    assert_eq!(dot_color(1), DotColor::Yellow);
    assert_eq!(dot_color(5), DotColor::Blue);
    let mut v = vec![1, 2, 3];
    push_capped(&mut v, 4, 3);
    assert_eq!(v, vec![2, 3, 4]);
    push_capped(&mut v, 5, 5);
    assert_eq!(v, vec![2, 3, 4, 5]);
    let mut w = vec![1, 2, 3, 4, 5];
    push_capped(&mut w, 6, 2);
    assert_eq!(w, vec![5, 6]);
}
