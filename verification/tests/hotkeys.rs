use autolon::clicker::Command;
use autolon::hotkeys::{
    direct_keyboard_device_count, dispatch, eviocgbit, has_key, io, ioc, iow,
    kde_shortcut_action, keyboard_candidates_from, linux_dev_major_minor,
    logind_keyboard_device_count, looks_like_keyboard, portal_shortcut_action,
    readable_event_device_count, route_key_event, support_summary, CommandKind, KeyAction, Probe,
    Summary, EV_KEY, EV_SYN, KEY_A, KEY_F6, KEY_F7, KEY_MAX, SYN_REPORT,
};

fn keyboard_bits() -> Vec<u8> {
    let mut bits = vec![0u8; (KEY_MAX as usize) / 8 + 1];
    for key in [30u16, 28, 57, 64] {
        bits[(key / 8) as usize] |= 1 << (key % 8);
    }
    bits
}

fn text(s: Summary) -> String {
    match s {
        Summary::Text(t) => t,
        Summary::Needs(p) => panic!("still needs {:?}", p),
    }
}

#[test]
fn shortcut_names() {
    assert_eq!(kde_shortcut_action("cycle"), Some(CommandKind::Cycle));
    assert_eq!(kde_shortcut_action("emergency-stop"), Some(CommandKind::Stop));
    assert_eq!(kde_shortcut_action("stop"), Some(CommandKind::Stop));
    assert_eq!(kde_shortcut_action("other"), None);
    assert_eq!(portal_shortcut_action("cycle"), Some(CommandKind::Cycle));
    assert_eq!(portal_shortcut_action("stop"), Some(CommandKind::Stop));
    assert_eq!(portal_shortcut_action("emergency-stop"), None);
    assert_eq!(dispatch(CommandKind::Cycle), Command::Cycle);
    assert_eq!(dispatch(CommandKind::Stop), Command::Stop);
}

#[test]
fn hotkeys_respect_the_debounce() {
    assert_eq!(route_key_event(EV_KEY, KEY_F6, 1, 160_000_001, 0, 160), KeyAction::Cycle);
    assert_eq!(route_key_event(EV_KEY, KEY_F6, 1, 160_000_000, 0, 160), KeyAction::Ignore);
    assert_eq!(route_key_event(EV_KEY, KEY_F7, 1, 0, 200_000_000, 160), KeyAction::Stop);
    assert_eq!(route_key_event(EV_KEY, KEY_F7, 1, 0, 20_000_000, 160), KeyAction::Ignore);
    assert_eq!(route_key_event(EV_KEY, KEY_F7, 1, 0, 20_000_000, 10), KeyAction::Stop);
}

#[test]
fn hotkey_releases_and_repeats_are_swallowed() {
    assert_eq!(route_key_event(EV_KEY, KEY_F6, 0, u128::MAX, u128::MAX, 160), KeyAction::Ignore);
    assert_eq!(route_key_event(EV_KEY, KEY_F7, 2, u128::MAX, u128::MAX, 160), KeyAction::Ignore);
}

#[test]
fn other_keys_pass_through() {
    assert_eq!(route_key_event(EV_KEY, KEY_A, 1, 0, 0, 160), KeyAction::Forward { code: KEY_A, value: 1 });
    assert_eq!(route_key_event(EV_KEY, 28, 0, 0, 0, 160), KeyAction::Forward { code: 28, value: 0 });
    assert_eq!(route_key_event(EV_SYN, SYN_REPORT, 0, 0, 0, 160), KeyAction::Sync);
    assert_eq!(route_key_event(EV_SYN, 3, 0, 0, 0, 160), KeyAction::Ignore);
    assert_eq!(route_key_event(4, 4, 7, 0, 0, 160), KeyAction::Ignore);
}

#[test]
fn key_bitmaps() {
    let bits = keyboard_bits();
    assert!(has_key(&bits, KEY_A));
    assert!(has_key(&bits, KEY_F6));
    assert!(!has_key(&bits, KEY_F7));
    assert!(!has_key(&[0xff], 30));
    assert!(looks_like_keyboard(&bits));
    let mut mouse = bits.clone();
    mouse[8] = 0;
    assert!(!looks_like_keyboard(&mouse));
    assert!(!looks_like_keyboard(&[]));
}

#[test]
fn keyboard_counts() {
    let kbd = keyboard_bits();
    let devices = vec![Some(kbd.clone()), None, Some(vec![0u8; 96]), Some(kbd.clone())];
    assert_eq!(direct_keyboard_device_count(&devices), 2);
    let leased = vec![Some((false, kbd.clone())), Some((true, kbd.clone())), None, Some((false, vec![0u8; 4]))];
    assert_eq!(logind_keyboard_device_count(&leased), 1);
    assert_eq!(readable_event_device_count(Some(2), Some(5)), Some(2));
    assert_eq!(readable_event_device_count(Some(0), Some(5)), Some(5));
    assert_eq!(readable_event_device_count(Some(0), None), Some(0));
    assert_eq!(readable_event_device_count(None, Some(1)), None);
}

#[test]
fn device_numbers() {
    assert_eq!(linux_dev_major_minor(0xd40), (13, 64));
    assert_eq!(linux_dev_major_minor(0x1000_5672_3489), (0x1234, 0x5_6789));
}

#[test]
fn ioctl_numbers() {
    assert_eq!(eviocgbit(EV_KEY as u64, 96), 0x8060_4521);
    assert_eq!(io(0x55, 1), 0x5501);
    assert_eq!(iow(0x55, 100, 4), 0x4004_5564);
    assert_eq!(iow(0x45, 0x90, 4), 0x4004_4590);
    assert_eq!(ioc(3, 0x55, 3, 1116), 0xc45c_5503);
}

#[test]
fn summary_asks_only_what_decides_it() {
    assert_eq!(text(support_summary(None, None, None, None)), "Hotkey status unavailable");
    assert_eq!(
        text(support_summary(Some(false), None, None, None)),
        "Global autoclicker disabled: F6/F7 only affect the Autolon test canvas"
    );
    assert!(matches!(support_summary(Some(true), None, None, None), Summary::Needs(Probe::ReadableDevices)));
    assert_eq!(
        text(support_summary(Some(true), Some(Some(2)), None, None)),
        "Global autoclicker enabled: direct F6/F7 override is ready"
    );
    assert!(matches!(support_summary(Some(true), Some(Some(0)), None, None), Summary::Needs(Probe::KdeShortcuts)));
    assert_eq!(
        text(support_summary(Some(true), Some(Some(0)), Some(true), None)),
        "Global hotkeys enabled through KDE; direct Chrome override permission is missing"
    );
    assert!(matches!(support_summary(Some(true), Some(Some(0)), Some(false), None), Summary::Needs(Probe::PortalShortcuts)));
    assert_eq!(
        text(support_summary(Some(true), Some(Some(0)), Some(false), Some(true))),
        "Global hotkeys enabled through portal; direct Chrome override permission is missing"
    );
    assert_eq!(
        text(support_summary(Some(true), Some(Some(0)), Some(false), Some(false))),
        "Global hotkeys enabled, but input permission is missing"
    );
    assert_eq!(
        text(support_summary(Some(true), Some(None), None, None)),
        "Global hotkeys enabled, but input status is unavailable"
    );
}

#[test]
fn keyboard_candidates_from_proc_listing() {
    let listing = "I: Bus=0011 Vendor=0001\nN: Name=\"AT Translated Set 2 keyboard\"\nH: Handlers=sysrq kbd event3 leds \nB: EV=120013\n\nI: Bus=0003\nN: Name=\"Mouse\"\nH: Handlers=mouse0 event5\n\nN: Name=\"Tail kbd\"\nH: Handlers=kbd event9";
    let found = keyboard_candidates_from(listing);
    assert_eq!(
        found,
        vec![
            "\"AT Translated Set 2 keyboard\" sysrq kbd event3 leds ".to_string(),
            "\"Tail kbd\" kbd event9".to_string(),
        ]
    );
    assert!(keyboard_candidates_from("").is_empty());
}
