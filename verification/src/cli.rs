//! The command-line interface: its commands, and what each command decides
//! before or after it talks to the daemon.

use vstd::prelude::*;
use crate::clicker::{ClickerState, Status};
use crate::config::{BackendPreference, Config, is_slot_id};
use crate::ipc::{Request, Response};
use crate::text::{decimal, decimal_string, eq_ignore_ascii_case, eq_ignore_ascii_case_spec, ascii_lower_code, has_word, is_word_of, trim, trim_spec, str_eq};

verus! {

/// Where the udev rule that grants input access is installed.
pub const UDEV_RULE_PATH: &'static str = "/usr/lib/udev/rules.d/70-autolon-uinput.rules";

/// The udev rule that grants input access.
pub const UDEV_RULE: &'static str = "# Autolon needs to read/grab physical keyboard events and emit virtual mouse/keyboard\n# events for compositor-independent Wayland hotkeys and clicking.\nSUBSYSTEM==\"misc\", KERNEL==\"uinput\", TAG+=\"uaccess\", GROUP=\"autolon-input\", MODE=\"0660\", OPTIONS+=\"static_node=uinput\"\nSUBSYSTEM==\"input\", KERNEL==\"event*\", ENV{ID_INPUT_KEYBOARD}==\"1\", TAG+=\"uaccess\", GROUP=\"autolon-input\", MODE=\"0660\"\n";

/// The group that the udev rule grants input access to.
pub const INPUT_GROUP: &'static str = "autolon-input";

#[derive(Debug)]
pub struct Args {
    pub command: Option<Command>,
}

#[derive(Debug)]
#[allow(inconsistent_fields)]
pub enum Command {
    Daemon,
    Gui,
    Status,
    DiagnoseHotkeys,
    Verify,
    Permissions { command: PermissionsCommand },
    Cycle,
    Stop,
    Quit,
    TestClick { backend: String },
    TestGlobalHotkey { seconds: u64 },
    Config { command: ConfigCommand },
    Slot { command: SlotCommand },
    Autostart { command: ToggleCommand },
    DesktopIcon { command: DesktopIconCommand },
    Launcher { command: ToggleCommand },
    InstallDesktopFiles { prefix: String },
}

#[derive(Debug, Clone, Copy, PartialEq, Eq, Structural)]
pub enum ConfigCommand {
    Print,
    Path,
}

#[derive(Debug, Clone, Copy, PartialEq, Eq, Structural)]
pub enum SlotCommand {
    Update(SlotSet),
}

#[derive(Debug, Clone, Copy, PartialEq, Eq, Structural)]
pub enum PermissionsCommand {
    Status,
    Install,
}

#[derive(Debug, Clone, Copy, PartialEq, Eq, Structural)]
pub struct SlotSet {
    pub slot_id: u8,
    pub interval_ms: Option<u64>,
    pub enabled: Option<bool>,
}

#[derive(Debug, Clone, Copy, PartialEq, Eq, Structural)]
pub enum ToggleCommand {
    Enable,
    Disable,
}

#[derive(Debug, Clone, Copy, PartialEq, Eq, Structural)]
pub enum DesktopIconCommand {
    Install,
    Remove,
}

impl Args {
    /// The command to run: the one given, or the settings window when none is.
    pub fn into_command(self) -> (c: Command)
        ensures
            match self.command {
                Some(cmd) => c == cmd,
                None => c is Gui,
            },
    {
        match self.command {
            Some(c) => c,
            None => Command::Gui,
        }
    }
}

/// A command-line request that is refused before anything is sent.
#[derive(Debug, Clone, Copy, PartialEq, Eq, Structural)]
pub enum CliError {
    InvalidSlotId,
    NothingToSet,
    UnknownBackend,
}

pub open spec fn cli_error_text(e: CliError) -> Seq<char> {
    match e {
        CliError::InvalidSlotId => "slot id must be 1, 2, or 3"@,
        CliError::NothingToSet => "nothing to set; pass --interval-ms or --enabled"@,
        CliError::UnknownBackend => "unknown backend"@,
    }
}

impl CliError {
    pub fn message(&self) -> (s: String)
        ensures
            s@ == cli_error_text(*self),
    {
        match self {
            CliError::InvalidSlotId => String::from_str("slot id must be 1, 2, or 3"),
            CliError::NothingToSet => String::from_str("nothing to set; pass --interval-ms or --enabled"),
            CliError::UnknownBackend => String::from_str("unknown backend"),
        }
    }
}

/// The requests that `slot set` sends, in order: the interval change, then
/// the enabled change, each only when given. An id other than 1, 2, 3, or a
/// call that changes nothing, is refused.
pub fn set_slot(set: &SlotSet) -> (r: Result<Vec<Request>, CliError>)
    ensures
        !is_slot_id(set.slot_id) ==> r == Err::<Vec<Request>, CliError>(CliError::InvalidSlotId),
        is_slot_id(set.slot_id) && set.interval_ms is None && set.enabled is None
            ==> r == Err::<Vec<Request>, CliError>(CliError::NothingToSet),
        r matches Ok(v) ==> v@ == (match set.interval_ms {
            Some(ms) => seq![Request::SetSlotInterval { slot_id: set.slot_id, interval_ms: ms }],
            None => Seq::<Request>::empty(),
        }) + (match set.enabled {
            Some(en) => seq![Request::SetSlotEnabled { slot_id: set.slot_id, enabled: en }],
            None => Seq::<Request>::empty(),
        }),
        r is Ok <==> is_slot_id(set.slot_id) && (set.interval_ms is Some || set.enabled is Some),
{
    if !(1 <= set.slot_id && set.slot_id <= 3) {
        return Err(CliError::InvalidSlotId);
    }
    let mut requests: Vec<Request> = Vec::new();
    if let Some(interval_ms) = set.interval_ms {
        requests.push(Request::SetSlotInterval { slot_id: set.slot_id, interval_ms });
    }
    if let Some(enabled) = set.enabled {
        requests.push(Request::SetSlotEnabled { slot_id: set.slot_id, enabled });
    }
    if set.interval_ms.is_none() && set.enabled.is_none() {
        return Err(CliError::NothingToSet);
    }
    proof {
        let a = match set.interval_ms {
            Some(ms) => seq![Request::SetSlotInterval { slot_id: set.slot_id, interval_ms: ms }],
            None => Seq::<Request>::empty(),
        };
        let b = match set.enabled {
            Some(en) => seq![Request::SetSlotEnabled { slot_id: set.slot_id, enabled: en }],
            None => Seq::<Request>::empty(),
        };
        assert(requests@ =~= a + b);
    }
    Ok(requests)
}

/// Every request but quitting starts the daemon first when it is not running.
pub fn starts_daemon(request: &Request) -> (r: bool)
    ensures
        r == (*request != Request::Quit),
{
    match request {
        Request::Quit => false,
        _ => true,
    }
}

/// A daemon response that reports a failure becomes an error carrying its
/// text (or "daemon command failed" when it has none).
pub fn checked_response(response: Response) -> (r: Result<Response, String>)
    ensures
        response.ok ==> r == Ok::<Response, String>(response),
        !response.ok ==> (r matches Err(e) && e@ == (match response.error {
            Some(t) => t@,
            None => "daemon command failed"@,
        })),
{
    if !response.ok {
        return match response.error {
            Some(e) => Err(e),
            None => Err(String::from_str("daemon command failed")),
        };
    }
    Ok(response)
}

/// The text that describes a clicker state.
pub open spec fn state_text(s: ClickerState) -> Seq<char> {
    match s {
        ClickerState::Stopped => "stopped"@,
        ClickerState::Running { slot_id, interval_ms, .. } =>
            "running slot "@ + decimal(slot_id as nat) + " ("@ + decimal(interval_ms as nat) + " ms)"@,
    }
}

/// The lines that `status` prints for a daemon status.
pub open spec fn status_lines(st: Status) -> Seq<Seq<char>> {
    seq![
        "state: "@ + state_text(st.state),
        "backend: "@ + st.backend@,
        "session: "@ + (if st.wayland { "wayland"@ } else { "x11/other"@ }),
        "hotkeys: "@ + st.hotkeys@,
        "config: "@ + st.config_path@,
    ]
}

/// The views of a sequence of strings.
pub open spec fn views(v: Seq<String>) -> Seq<Seq<char>> {
    v.map_values(|s: String| s@)
}

fn state_string(s: &ClickerState) -> (r: String)
    ensures
        r@ == state_text(*s),
{
    match s {
        ClickerState::Stopped => String::from_str("stopped"),
        ClickerState::Running { slot_id, interval_ms, .. } => {
            let mut r = String::from_str("running slot ");
            r.append(decimal_string(*slot_id as u64).as_str());
            r.append(" (");
            r.append(decimal_string(*interval_ms).as_str());
            r.append(" ms)");
            r
        },
    }
}

fn prefixed(prefix: &str, text: &str) -> (r: String)
    ensures
        r@ == prefix@ + text@,
{
    let mut r = String::from_str(prefix);
    r.append(text);
    r
}

/// The lines that `status` prints for a daemon response, or "daemon returned
/// no status" when the response carries none.
pub fn status_report(response: &Response) -> (r: Result<Vec<String>, String>)
    ensures
        match response.status {
            Some(st) => r matches Ok(lines) && views(lines@) == status_lines(st),
            None => r matches Err(e) && e@ == "daemon returned no status"@,
        },
{
    let status = match &response.status {
        Some(s) => s,
        None => return Err(String::from_str("daemon returned no status")),
    };
    let mut lines: Vec<String> = Vec::new();
    lines.push(prefixed("state: ", state_string(&status.state).as_str()));
    lines.push(prefixed("backend: ", status.backend.as_str()));
    lines.push(prefixed("session: ", if status.wayland { "wayland" } else { "x11/other" }));
    lines.push(prefixed("hotkeys: ", status.hotkeys.as_str()));
    lines.push(prefixed("config: ", status.config_path.as_str()));
    assert(views(lines@) =~= status_lines(*status));
    Ok(lines)
}

/// The line that a check prints.
pub open spec fn check_line(name: Seq<char>, passed: bool) -> Seq<char> {
    (if passed { "PASS "@ } else { "FAIL "@ }) + name
}

/// One named check of `verify`: the line to print, and a failure counted
/// when it did not pass.
pub fn check(name: &str, passed: bool, failures: &mut u32) -> (line: String)
    requires
        *old(failures) < u32::MAX,
    ensures
        line@ == check_line(name@, passed),
        *final(failures) == *old(failures) + if passed { 0u32 } else { 1u32 },
{
    if passed {
        prefixed("PASS ", name)
    } else {
        *failures = *failures + 1;
        prefixed("FAIL ", name)
    }
}

/// The text of a boolean (`bool`'s `Display`).
pub open spec fn bool_text(b: bool) -> Seq<char> {
    if b { "true"@ } else { "false"@ }
}

/// The checks that `verify` makes of one slot: its name, whether it is
/// enabled, and its interval; or a failed "exists" check for an id that
/// names no slot.
pub open spec fn slot_checks(c: Config, slot_id: u8, name: Seq<char>, enabled: bool, interval_ms: u64) -> Seq<(Seq<char>, bool)> {
    let id = decimal(slot_id as nat);
    if is_slot_id(slot_id) {
        let s = c.spec_slot(slot_id);
        seq![
            ("slot "@ + id + " name is "@ + name, s.name@ == name),
            ("slot "@ + id + " enabled is "@ + bool_text(enabled), s.enabled == enabled),
            ("slot "@ + id + " interval is "@ + decimal(interval_ms as nat) + "ms"@, s.interval_ms == interval_ms),
        ]
    } else {
        seq![("slot "@ + id + " exists"@, false)]
    }
}

/// The number of failed checks among `checks`.
pub open spec fn failed_count(checks: Seq<(Seq<char>, bool)>) -> nat
    decreases checks.len(),
{
    if checks.len() == 0 {
        0
    } else {
        failed_count(checks.drop_last()) + if checks.last().1 { 0nat } else { 1nat }
    }
}

/// The lines printed for a list of checks.
pub open spec fn check_lines(checks: Seq<(Seq<char>, bool)>) -> Seq<Seq<char>> {
    checks.map_values(|c: (Seq<char>, bool)| check_line(c.0, c.1))
}

fn run_check(lines: &mut Vec<String>, failures: &mut u32, name: String, passed: bool, Ghost(checks): Ghost<Seq<(Seq<char>, bool)>>)
    requires
        *old(failures) < u32::MAX,
        views(old(lines)@) == check_lines(checks),
        *old(failures) as nat == failed_count(checks),
    ensures
        views(final(lines)@) == check_lines(checks.push((name@, passed))),
        *final(failures) as nat == failed_count(checks.push((name@, passed))),
        *final(failures) <= *old(failures) + 1,
{
    let line = check(name.as_str(), passed, failures);
    lines.push(line);
    proof {
        let c2 = checks.push((name@, passed));
        assert(c2.drop_last() =~= checks);
        assert(views(lines@) =~= views(old(lines)@).push(line@));
        assert(check_lines(c2) =~= check_lines(checks).push(check_line(name@, passed)));
    }
}

fn bool_string(b: bool) -> (s: String)
    ensures
        s@ == bool_text(b),
{
    if b { String::from_str("true") } else { String::from_str("false") }
}

fn slot_label(slot_id: u8, rest: &str) -> (s: String)
    ensures
        s@ == "slot "@ + decimal(slot_id as nat) + rest@,
{
    let mut s = String::from_str("slot ");
    s.append(decimal_string(slot_id as u64).as_str());
    s.append(rest);
    s
}

/// Checks one slot against its expected name, enabled flag and interval;
/// appends the printed lines to `lines` and counts the failures.
pub fn verify_slot(
    config: &Config,
    slot_id: u8,
    name: &str,
    enabled: bool,
    interval_ms: u64,
    lines: &mut Vec<String>,
    failures: &mut u32,
)
    requires
        *old(failures) as int + 3 <= u32::MAX,
    ensures
        views(final(lines)@) == views(old(lines)@) + check_lines(slot_checks(*config, slot_id, name@, enabled, interval_ms)),
        *final(failures) as nat == *old(failures) as nat + failed_count(slot_checks(*config, slot_id, name@, enabled, interval_ms)),
        *final(failures) <= *old(failures) + 3,
{
    let ghost start = views(lines@);
    let ghost f0 = *failures as nat;
    let mut local: Vec<String> = Vec::new();
    let mut count: u32 = 0;
    let ghost expected = slot_checks(*config, slot_id, name@, enabled, interval_ms);
    match config.slot(slot_id) {
        Ok(slot) => {
            let mut l1 = slot_label(slot_id, " name is ");
            l1.append(name);
            let ghost none = Seq::<(Seq<char>, bool)>::empty();
            assert(views(local@) =~= check_lines(none));
            run_check(&mut local, &mut count, l1, str_eq(slot.name.as_str(), name), Ghost(none));
            let mut l2 = slot_label(slot_id, " enabled is ");
            l2.append(bool_string(enabled).as_str());
            let ghost first = expected.take(1);
            proof {
                assert(Seq::<(Seq<char>, bool)>::empty().push((expected[0].0, expected[0].1)) =~= first);
            }
            run_check(&mut local, &mut count, l2, slot.enabled == enabled, Ghost(first));
            let mut l3 = slot_label(slot_id, " interval is ");
            l3.append(decimal_string(interval_ms).as_str());
            l3.append("ms");
            let ghost second = expected.take(2);
            proof {
                assert(first.push((expected[1].0, expected[1].1)) =~= second);
            }
            run_check(&mut local, &mut count, l3, slot.interval_ms == interval_ms, Ghost(second));
            proof {
                assert(expected.take(2).push((expected[2].0, expected[2].1)) =~= expected);
            }
        },
        Err(_) => {
            let l = slot_label(slot_id, " exists");
            let ghost none = Seq::<(Seq<char>, bool)>::empty();
            assert(views(local@) =~= check_lines(none));
            run_check(&mut local, &mut count, l, false, Ghost(none));
            proof {
                assert(Seq::<(Seq<char>, bool)>::empty().push((expected[0].0, expected[0].1)) =~= expected);
            }
        },
    }
    lines.append(&mut local);
    *failures = *failures + count;
    assert(views(lines@) =~= start + check_lines(expected));
}

/// The checks that `verify` makes of the configuration: global hotkeys on,
/// F6 and F7 as hotkeys, the order Slow -> Fast -> User, and the three
/// built-in slots.
pub open spec fn config_checks(c: Config) -> Seq<(Seq<char>, bool)> {
    seq![
        ("global autoclicker defaults enabled"@, c.global_autoclicker_enabled),
        ("cycle hotkey is F6"@, eq_ignore_ascii_case_spec(c.hotkeys.cycle@, "F6"@)),
        ("emergency stop hotkey is F7"@, eq_ignore_ascii_case_spec(c.hotkeys.stop@, "F7"@)),
        ("cycle order is Slow -> Fast -> User"@, c.clicker.cycle_order@ == seq![1u8, 2u8, 3u8]),
    ] + slot_checks(c, 1, "Slow"@, true, 500) + slot_checks(c, 2, "Fast"@, true, 10)
        + slot_checks(c, 3, "User"@, false, 1000)
}

fn is_default_order(order: &Vec<u8>) -> (r: bool)
    ensures
        r == (order@ == seq![1u8, 2u8, 3u8]),
{
    let r = order.len() == 3 && order[0] == 1 && order[1] == 2 && order[2] == 3;
    if r {
        assert(order@ =~= seq![1u8, 2u8, 3u8]);
    }
    r
}

/// Runs the configuration checks of `verify`: returns the printed lines and
/// counts the failures.
pub fn verify_config(config: &Config, failures: &mut u32) -> (lines: Vec<String>)
    requires
        *old(failures) as int + 13 <= u32::MAX,
    ensures
        views(lines@) == check_lines(config_checks(*config)),
        *final(failures) as nat == *old(failures) as nat + failed_count(config_checks(*config)),
{
    let ghost f0 = *failures as nat;
    let mut lines: Vec<String> = Vec::new();
    let mut count: u32 = 0;
    let ghost head = seq![
        ("global autoclicker defaults enabled"@, config.global_autoclicker_enabled),
        ("cycle hotkey is F6"@, eq_ignore_ascii_case_spec(config.hotkeys.cycle@, "F6"@)),
        ("emergency stop hotkey is F7"@, eq_ignore_ascii_case_spec(config.hotkeys.stop@, "F7"@)),
        ("cycle order is Slow -> Fast -> User"@, config.clicker.cycle_order@ == seq![1u8, 2u8, 3u8]),
    ];
    let ghost h0 = Seq::<(Seq<char>, bool)>::empty();
    let ghost h1 = head.take(1);
    let ghost h2 = head.take(2);
    let ghost h3 = head.take(3);
    assert(views(lines@) =~= check_lines(h0));
    run_check(&mut lines, &mut count, String::from_str("global autoclicker defaults enabled"),
        config.global_autoclicker_enabled, Ghost(h0));
    assert(h0.push(head[0]) =~= h1);
    run_check(&mut lines, &mut count, String::from_str("cycle hotkey is F6"),
        eq_ignore_ascii_case(config.hotkeys.cycle.as_str(), "F6"), Ghost(h1));
    assert(h1.push(head[1]) =~= h2);
    run_check(&mut lines, &mut count, String::from_str("emergency stop hotkey is F7"),
        eq_ignore_ascii_case(config.hotkeys.stop.as_str(), "F7"), Ghost(h2));
    assert(h2.push(head[2]) =~= h3);
    run_check(&mut lines, &mut count, String::from_str("cycle order is Slow -> Fast -> User"),
        is_default_order(&config.clicker.cycle_order), Ghost(h3));
    assert(head.take(3).push(head[3]) =~= head);
    verify_slot(config, 1, "Slow", true, 500, &mut lines, &mut count);
    verify_slot(config, 2, "Fast", true, 10, &mut lines, &mut count);
    verify_slot(config, 3, "User", false, 1000, &mut lines, &mut count);
    proof {
        lemma_failed_count_append(head, slot_checks(*config, 1, "Slow"@, true, 500));
        lemma_failed_count_append(head + slot_checks(*config, 1, "Slow"@, true, 500), slot_checks(*config, 2, "Fast"@, true, 10));
        lemma_failed_count_append(
            head + slot_checks(*config, 1, "Slow"@, true, 500) + slot_checks(*config, 2, "Fast"@, true, 10),
            slot_checks(*config, 3, "User"@, false, 1000));
        assert(views(lines@) =~= check_lines(config_checks(*config)));
    }
    *failures = *failures + count;
    lines
}

proof fn lemma_failed_count_append(a: Seq<(Seq<char>, bool)>, b: Seq<(Seq<char>, bool)>)
    ensures
        failed_count(a + b) == failed_count(a) + failed_count(b),
    decreases b.len(),
{
    if b.len() > 0 {
        assert((a + b).drop_last() =~= a + b.drop_last());
        lemma_failed_count_append(a, b.drop_last());
    } else {
        assert(a + b =~= a);
    }
}

proof fn lemma_case_insensitive_same_verdict(a: Seq<char>, b: Seq<char>, target: Seq<char>)
    requires
        eq_ignore_ascii_case_spec(a, b),
    ensures
        eq_ignore_ascii_case_spec(a, target) == eq_ignore_ascii_case_spec(b, target),
{
    if eq_ignore_ascii_case_spec(a, target) {
        assert forall|i: int| 0 <= i < b.len() implies ascii_lower_code(#[trigger] b[i]) == ascii_lower_code(target[i]) by {
            assert(ascii_lower_code(a[i]) == ascii_lower_code(b[i]));
        }
    }
    if eq_ignore_ascii_case_spec(b, target) {
        assert forall|i: int| 0 <= i < a.len() implies ascii_lower_code(#[trigger] a[i]) == ascii_lower_code(target[i]) by {
            assert(ascii_lower_code(a[i]) == ascii_lower_code(b[i]));
        }
    }
}

/// The hotkey checks of `verify` ignore ASCII case: two configurations that
/// agree in the global flag, the cycle order and the slots, and whose cycle
/// and stop hotkeys differ at most in ASCII case, get the same checks with
/// the same verdicts, hence the same failure count. In particular "f7"
/// passes the emergency-stop check exactly as "F7" does.
pub proof fn law_verify_ignores_hotkey_case(a: Config, b: Config)
    requires
        eq_ignore_ascii_case_spec(a.hotkeys.cycle@, b.hotkeys.cycle@),
        eq_ignore_ascii_case_spec(a.hotkeys.stop@, b.hotkeys.stop@),
        a.global_autoclicker_enabled == b.global_autoclicker_enabled,
        a.clicker.cycle_order@ == b.clicker.cycle_order@,
        a.slots == b.slots,
    ensures
        config_checks(a) == config_checks(b),
        failed_count(config_checks(a)) == failed_count(config_checks(b)),
        eq_ignore_ascii_case_spec(a.hotkeys.stop@, "F7"@) ==> config_checks(a)[2] == ("emergency stop hotkey is F7"@, true),
        eq_ignore_ascii_case_spec(a.hotkeys.cycle@, "F6"@) ==> config_checks(a)[1] == ("cycle hotkey is F6"@, true),
{
    lemma_case_insensitive_same_verdict(a.hotkeys.cycle@, b.hotkeys.cycle@, "F6"@);
    lemma_case_insensitive_same_verdict(a.hotkeys.stop@, b.hotkeys.stop@, "F7"@);
    assert(a.spec_slot(1) == b.spec_slot(1));
    assert(a.spec_slot(2) == b.spec_slot(2));
    assert(a.spec_slot(3) == b.spec_slot(3));
    assert(config_checks(a) =~= config_checks(b));
}

/// The outcome of `verify` after all checks: an error counting the failures,
/// if any.
pub fn verification_result(failures: u32) -> (r: Result<(), String>)
    ensures
        failures == 0 <==> r is Ok,
        r matches Err(e) ==> e@ == "autolon verification failed with "@ + decimal(failures as nat) + " failing check(s)"@,
{
    if failures > 0 {
        let mut s = String::from_str("autolon verification failed with ");
        s.append(decimal_string(failures as u64).as_str());
        s.append(" failing check(s)");
        return Err(s);
    }
    Ok(())
}

/// The backend that `test-click --backend` names.
pub fn parse_backend(name: &str) -> (r: Result<BackendPreference, CliError>)
    ensures
        name@ == "auto"@ ==> r == Ok::<BackendPreference, CliError>(BackendPreference::Auto),
        name@ == "uinput"@ ==> r == Ok::<BackendPreference, CliError>(BackendPreference::Uinput),
        name@ == "x11"@ ==> r == Ok::<BackendPreference, CliError>(BackendPreference::X11),
        name@ != "auto"@ && name@ != "uinput"@ && name@ != "x11"@
            ==> r == Err::<BackendPreference, CliError>(CliError::UnknownBackend),
{
    proof {
        reveal_strlit("auto");
        reveal_strlit("uinput");
        reveal_strlit("x11");
        assert("auto"@.len() == 4 && "uinput"@.len() == 6 && "x11"@.len() == 3);
        assert("auto"@ != "uinput"@ && "auto"@ != "x11"@ && "uinput"@ != "x11"@);
    }
    if str_eq(name, "auto") {
        Ok(BackendPreference::Auto)
    } else if str_eq(name, "uinput") {
        Ok(BackendPreference::Uinput)
    } else if str_eq(name, "x11") {
        Ok(BackendPreference::X11)
    } else {
        Err(CliError::UnknownBackend)
    }
}

/// Whether the installed udev rule file holds the expected rule, ignoring
/// white space at either end.
pub fn udev_rule_matches(content: &str) -> (r: bool)
    ensures
        r == (trim_spec(content@) == trim_spec(UDEV_RULE@)),
{
    let a = trim(content);
    let b = trim(UDEV_RULE);
    str_eq(a.as_str(), b.as_str())
}

/// Whether the input group is among the groups that `id -nG` printed.
pub fn in_input_group(groups: &str) -> (r: bool)
    ensures
        r == is_word_of(groups@, INPUT_GROUP@),
{
    has_word(groups, INPUT_GROUP)
}

} // verus!
