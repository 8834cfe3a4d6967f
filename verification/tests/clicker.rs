use autolon::clicker::{
    after_click, cycle_state, cycle_state_at, due_click, finish_save, handle_command, status,
    wait_timeout_ms, ClickerState, Command, Effect,
};
use autolon::config::{Config, ConfigError, MouseButton};

#[test]
fn cycles_off_slow_fast_off_when_user_disabled() {
    let config = Config::default();
    let s0 = ClickerState::Stopped;
    let s1 = cycle_state(&config, &s0);
    assert!(matches!(s1, ClickerState::Running { slot_id: 1, .. }));
    assert_eq!(config.slot(1).unwrap().name, "Slow");
    let s2 = cycle_state(&config, &s1);
    assert!(matches!(s2, ClickerState::Running { slot_id: 2, .. }));
    assert_eq!(config.slot(2).unwrap().name, "Fast");
    let s3 = cycle_state(&config, &s2);
    assert!(matches!(s3, ClickerState::Stopped));
}

#[test]
fn cycles_through_user_when_enabled() {
    let mut config = Config::default();
    config.slots.three.enabled = true;
    let s0 = ClickerState::Stopped;
    let s1 = cycle_state(&config, &s0);
    let s2 = cycle_state(&config, &s1);
    let s3 = cycle_state(&config, &s2);
    assert!(matches!(s3, ClickerState::Running { slot_id: 3, .. }));
}

#[test]
fn disabled_slots_are_skipped() {
    let mut config = Config::default();
    config.slots.one.enabled = false;
    let s1 = cycle_state(&config, &ClickerState::Stopped);
    assert!(matches!(s1, ClickerState::Running { slot_id: 2, .. }));
    let s2 = cycle_state(&config, &s1);
    assert!(matches!(s2, ClickerState::Stopped));
}

#[test]
fn cycle_state_at_records_interval_and_start_time() {
    let config = Config::default();
    let s1 = cycle_state_at(&config, &ClickerState::Stopped, 1234);
    assert_eq!(
        s1,
        ClickerState::Running { slot_id: 1, interval_ms: 500, started_at_unix_ms: 1234 }
    );
    let s2 = cycle_state_at(&config, &s1, 99);
    assert_eq!(
        s2,
        ClickerState::Running { slot_id: 2, interval_ms: 10, started_at_unix_ms: 99 }
    );
}

#[test]
fn cycle_state_stamps_the_current_time() {
    let config = Config::default();
    match cycle_state(&config, &ClickerState::Stopped) {
        ClickerState::Running { started_at_unix_ms, .. } => assert!(started_at_unix_ms > 1_600_000_000_000),
        ClickerState::Stopped => panic!("expected a running state"),
    }
}

#[test]
fn cycle_with_no_enabled_slot_stops() {
    let mut config = Config::default();
    config.slots.one.enabled = false;
    config.slots.two.enabled = false;
    let s = cycle_state_at(&config, &ClickerState::Stopped, 5);
    assert_eq!(s, ClickerState::Stopped);
}

#[test]
fn cycle_from_a_slot_no_longer_enabled_stops() {
    let mut config = Config::default();
    let running = cycle_state_at(&config, &ClickerState::Stopped, 5);
    config.slots.one.enabled = false;
    assert_eq!(cycle_state_at(&config, &running, 6), ClickerState::Stopped);
}

#[test]
fn cycle_follows_a_custom_order() {
    let mut config = Config::default();
    config.slots.three.enabled = true;
    config.clicker.cycle_order = vec![3, 1];
    let s1 = cycle_state_at(&config, &ClickerState::Stopped, 0);
    assert!(matches!(s1, ClickerState::Running { slot_id: 3, interval_ms: 1000, .. }));
    let s2 = cycle_state_at(&config, &s1, 0);
    assert!(matches!(s2, ClickerState::Running { slot_id: 1, .. }));
    assert_eq!(cycle_state_at(&config, &s2, 0), ClickerState::Stopped);
}

#[test]
fn stop_command_always_stops() {
    let mut config = Config::default();
    let mut state = ClickerState::Running { slot_id: 2, interval_ms: 10, started_at_unix_ms: 1 };
    let mut quit = false;
    let effect = handle_command(Command::Stop, &mut config, &mut state, &mut quit);
    assert_eq!(effect, Effect::ReplyStatus);
    assert_eq!(state, ClickerState::Stopped);
    assert!(!quit);
}

#[test]
fn quit_command_stops_and_quits() {
    let mut config = Config::default();
    let mut state = ClickerState::Running { slot_id: 1, interval_ms: 500, started_at_unix_ms: 1 };
    let mut quit = false;
    let effect = handle_command(Command::Quit, &mut config, &mut state, &mut quit);
    assert_eq!(effect, Effect::Quit);
    assert_eq!(state, ClickerState::Stopped);
    assert!(quit);
}

#[test]
fn cycle_command_moves_to_the_first_slot() {
    let mut config = Config::default();
    let mut state = ClickerState::Stopped;
    let mut quit = false;
    let effect = handle_command(Command::Cycle, &mut config, &mut state, &mut quit);
    assert_eq!(effect, Effect::ReplyStatus);
    assert!(matches!(state, ClickerState::Running { slot_id: 1, interval_ms: 500, .. }));
}

#[test]
fn simple_commands_have_their_effects() {
    let mut config = Config::default();
    let mut state = ClickerState::Stopped;
    let mut quit = false;
    assert_eq!(handle_command(Command::SubscribeStatus, &mut config, &mut state, &mut quit), Effect::Subscribe);
    assert_eq!(handle_command(Command::Reload, &mut config, &mut state, &mut quit), Effect::Reload);
    assert_eq!(handle_command(Command::Status, &mut config, &mut state, &mut quit), Effect::ReplyStatus);
    assert_eq!(state, ClickerState::Stopped);
    assert!(!quit);
}

#[test]
fn set_interval_saves_a_valid_change() {
    let mut config = Config::default();
    let mut state = ClickerState::Stopped;
    let mut quit = false;
    let effect = handle_command(
        Command::SetSlotInterval { slot_id: 1, interval_ms: 750 },
        &mut config,
        &mut state,
        &mut quit,
    );
    assert_eq!(effect, Effect::SaveConfig { stop_slot: None });
    assert_eq!(config.slots.one.interval_ms, 750);
}

#[test]
fn set_interval_below_minimum_is_refused() {
    let mut config = Config::default();
    let mut state = ClickerState::Stopped;
    let mut quit = false;
    let effect = handle_command(
        Command::SetSlotInterval { slot_id: 2, interval_ms: 1 },
        &mut config,
        &mut state,
        &mut quit,
    );
    assert_eq!(
        effect,
        Effect::ReplyError(ConfigError::IntervalBelowMinimum { slot_id: 2, interval_ms: 1, min_interval_ms: 2 })
    );
}

#[test]
fn set_interval_on_unknown_slot_is_refused() {
    let mut config = Config::default();
    let mut state = ClickerState::Stopped;
    let mut quit = false;
    let effect = handle_command(
        Command::SetSlotInterval { slot_id: 4, interval_ms: 100 },
        &mut config,
        &mut state,
        &mut quit,
    );
    assert_eq!(effect, Effect::ReplyError(ConfigError::InvalidSlotId));
    assert_eq!(config.slots.one.interval_ms, 500);
}

#[test]
fn disabling_the_running_slot_stops_it_after_save() {
    let mut config = Config::default();
    let mut state = ClickerState::Running { slot_id: 2, interval_ms: 10, started_at_unix_ms: 3 };
    let mut quit = false;
    let effect = handle_command(
        Command::SetSlotEnabled { slot_id: 2, enabled: false },
        &mut config,
        &mut state,
        &mut quit,
    );
    assert_eq!(effect, Effect::SaveConfig { stop_slot: Some(2) });
    assert!(!config.slots.two.enabled);
    finish_save(&mut state, Some(2));
    assert_eq!(state, ClickerState::Stopped);
}

#[test]
fn finish_save_keeps_another_running_slot() {
    let mut state = ClickerState::Running { slot_id: 1, interval_ms: 500, started_at_unix_ms: 3 };
    finish_save(&mut state, Some(2));
    assert_eq!(state, ClickerState::Running { slot_id: 1, interval_ms: 500, started_at_unix_ms: 3 });
    finish_save(&mut state, None);
    assert!(matches!(state, ClickerState::Running { slot_id: 1, .. }));
}

#[test]
fn wait_and_due_click_follow_the_running_slot() {
    let config = Config::default();
    assert_eq!(wait_timeout_ms(&ClickerState::Stopped), None);
    let running = ClickerState::Running { slot_id: 2, interval_ms: 10, started_at_unix_ms: 0 };
    assert_eq!(wait_timeout_ms(&running), Some(10));
    assert_eq!(due_click(&config, &running), Some((MouseButton::Left, 1)));
    assert_eq!(due_click(&config, &ClickerState::Stopped), None);
    let bogus = ClickerState::Running { slot_id: 9, interval_ms: 10, started_at_unix_ms: 0 };
    assert_eq!(due_click(&config, &bogus), None);
}

#[test]
fn failed_click_stops_the_clicker() {
    let running = ClickerState::Running { slot_id: 1, interval_ms: 500, started_at_unix_ms: 0 };
    let mut state = running;
    after_click(&mut state, true);
    assert_eq!(state, running);
    after_click(&mut state, false);
    assert_eq!(state, ClickerState::Stopped);
}

#[test]
fn status_carries_its_parts() {
    let s = status(&ClickerState::Stopped, "uinput", true, "ready", "/tmp/config.toml");
    assert_eq!(s.state, ClickerState::Stopped);
    assert_eq!(s.backend, "uinput");
    assert!(s.wayland);
    assert_eq!(s.hotkeys, "ready");
    assert_eq!(s.config_path, "/tmp/config.toml");
}

#[test]
fn status_requests_change_nothing() {
    let mut config = Config::default();
    let running = ClickerState::Running { slot_id: 2, interval_ms: 10, started_at_unix_ms: 8 };
    let mut state = running;
    let mut quit = false;
    assert_eq!(handle_command(Command::Status, &mut config, &mut state, &mut quit), Effect::ReplyStatus);
    assert_eq!(state, running);
    assert_eq!(config.slots.two.interval_ms, 10);
    assert!(!quit);
}

#[test]
fn refused_enable_changes_nothing() {
    let mut config = Config::default();
    let mut state = ClickerState::Running { slot_id: 1, interval_ms: 500, started_at_unix_ms: 8 };
    let mut quit = false;
    let effect = handle_command(Command::SetSlotEnabled { slot_id: 0, enabled: false }, &mut config, &mut state, &mut quit);
    assert_eq!(effect, Effect::ReplyError(ConfigError::InvalidSlotId));
    assert!(config.slots.one.enabled);
    assert!(matches!(state, ClickerState::Running { slot_id: 1, .. }));
}

#[test]
fn repeated_cycling_returns_to_off() {
    let mut config = Config::default();
    config.slots.three.enabled = true;
    let mut state = ClickerState::Stopped;
    let mut seen = Vec::new();
    for _ in 0..4 {
        state = cycle_state_at(&config, &state, 0);
        seen.push(match state {
            ClickerState::Running { slot_id, .. } => slot_id,
            ClickerState::Stopped => 0,
        });
    }
    assert_eq!(seen, vec![1, 2, 3, 0]);
}

#[test]
fn cycling_at_different_times_stamps_each_press() {
    let config = Config::default();
    let s1 = cycle_state_at(&config, &ClickerState::Stopped, 100);
    let s2 = cycle_state_at(&config, &s1, 250);
    let s3 = cycle_state_at(&config, &s2, 900);
    assert_eq!(s1, ClickerState::Running { slot_id: 1, interval_ms: 500, started_at_unix_ms: 100 });
    assert_eq!(s2, ClickerState::Running { slot_id: 2, interval_ms: 10, started_at_unix_ms: 250 });
    assert_eq!(s3, ClickerState::Stopped);
}
