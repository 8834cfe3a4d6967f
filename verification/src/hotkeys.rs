//! Global hotkeys: the status summary, recognising keyboards among input
//! devices, and what the keyboard proxy does with each key event.

use vstd::prelude::*;
use crate::clicker::Command;
use crate::text::{chars_of, string_from_chars, str_eq};

verus! {

pub const EV_SYN: u16 = 0x00;
pub const EV_KEY: u16 = 0x01;
pub const SYN_REPORT: u16 = 0;
pub const KEY_ENTER: u16 = 28;
pub const KEY_A: u16 = 30;
pub const KEY_SPACE: u16 = 57;
pub const KEY_F6: u16 = 64;
pub const KEY_F7: u16 = 65;
pub const KEY_MAX: u16 = 0x2ff;

/// The two actions that global hotkeys trigger.
#[derive(Debug, Clone, Copy, PartialEq, Eq, Structural)]
pub enum CommandKind {
    Cycle,
    Stop,
}

/// The clicker command for a hotkey action.
pub fn dispatch(kind: CommandKind) -> (c: Command)
    ensures
        c == (match kind {
            CommandKind::Cycle => Command::Cycle,
            CommandKind::Stop => Command::Stop,
        }),
{
    match kind {
        CommandKind::Cycle => Command::Cycle,
        CommandKind::Stop => Command::Stop,
    }
}

/// The action of a KDE global shortcut: "cycle", or "emergency-stop"/"stop".
pub fn kde_shortcut_action(shortcut: &str) -> (r: Option<CommandKind>)
    ensures
        r == (if shortcut@ == "cycle"@ {
            Some(CommandKind::Cycle)
        } else if shortcut@ == "emergency-stop"@ || shortcut@ == "stop"@ {
            Some(CommandKind::Stop)
        } else {
            None
        }),
{
    if str_eq(shortcut, "cycle") {
        Some(CommandKind::Cycle)
    } else if str_eq(shortcut, "emergency-stop") || str_eq(shortcut, "stop") {
        Some(CommandKind::Stop)
    } else {
        None
    }
}

/// The action of a desktop-portal shortcut: "cycle" or "stop".
pub fn portal_shortcut_action(shortcut: &str) -> (r: Option<CommandKind>)
    ensures
        r == (if shortcut@ == "cycle"@ {
            Some(CommandKind::Cycle)
        } else if shortcut@ == "stop"@ {
            Some(CommandKind::Stop)
        } else {
            None
        }),
{
    if str_eq(shortcut, "cycle") {
        Some(CommandKind::Cycle)
    } else if str_eq(shortcut, "stop") {
        Some(CommandKind::Stop)
    } else {
        None
    }
}

/// What the keyboard proxy does with one event read from a grabbed keyboard.
#[derive(Debug, Clone, Copy, PartialEq, Eq, Structural)]
pub enum KeyAction {
    /// Send the cycle command and restart the cycle debounce.
    Cycle,
    /// Send the stop command and restart the stop debounce.
    Stop,
    /// Pass the key event on to the virtual keyboard.
    Forward { code: u16, value: i32 },
    /// Pass a synchronisation report on to the virtual keyboard.
    Sync,
    /// Drop the event.
    Ignore,
}

/// The debounce window in nanoseconds.
pub open spec fn debounce_nanos(debounce_ms: u64) -> int {
    debounce_ms * 1_000_000
}

/// The action for an input event of type `event_type`, given the time since
/// the last accepted cycle and stop presses and the configured debounce. F6
/// and F7 presses are taken as hotkeys when more than the debounce time has
/// passed; F6 and F7 never reach the virtual keyboard; every other key event
/// does, unchanged.
pub fn route_key_event(event_type: u16, code: u16, value: i32, since_cycle_nanos: u128, since_stop_nanos: u128, debounce_ms: u64) -> (a: KeyAction)
    ensures
        a == (if event_type == EV_KEY {
            if code == KEY_F6 && value == 1 && since_cycle_nanos > debounce_nanos(debounce_ms) {
                KeyAction::Cycle
            } else if code == KEY_F7 && value == 1 && since_stop_nanos > debounce_nanos(debounce_ms) {
                KeyAction::Stop
            } else if code == KEY_F6 || code == KEY_F7 {
                KeyAction::Ignore
            } else {
                KeyAction::Forward { code, value }
            }
        } else if event_type == EV_SYN && code == SYN_REPORT {
            KeyAction::Sync
        } else {
            KeyAction::Ignore
        }),
        a is Forward ==> event_type == EV_KEY && code != KEY_F6 && code != KEY_F7
            && a == (KeyAction::Forward { code, value }),
{
    let window: u128 = debounce_ms as u128 * 1_000_000;
    if event_type == EV_KEY {
        if code == KEY_F6 && value == 1 && since_cycle_nanos > window {
            KeyAction::Cycle
        } else if code == KEY_F7 && value == 1 && since_stop_nanos > window {
            KeyAction::Stop
        } else if code == KEY_F6 || code == KEY_F7 {
            KeyAction::Ignore
        } else {
            KeyAction::Forward { code, value }
        }
    } else if event_type == EV_SYN && code == SYN_REPORT {
        KeyAction::Sync
    } else {
        KeyAction::Ignore
    }
}

/// Whether bit `key` is set in the key bitmap that `EVIOCGBIT(EV_KEY)` filled.
pub open spec fn key_bit_set(bits: Seq<u8>, key: u16) -> bool {
    (key / 8) < bits.len() && (bits[(key / 8) as int] & (1u8 << (key % 8) as u8)) != 0
}

/// Whether the key bitmap reports `key`.
pub fn has_key(bits: &[u8], key: u16) -> (r: bool)
    ensures
        r == key_bit_set(bits@, key),
{
    let byte = (key / 8) as usize;
    let bit = (key % 8) as u8;
    if byte < bits.len() {
        (bits[byte] & (1u8 << bit)) != 0
    } else {
        false
    }
}

/// A device counts as a keyboard when it has the A, Enter, Space and F6 keys.
pub open spec fn is_keyboard_bitmap(bits: Seq<u8>) -> bool {
    key_bit_set(bits, KEY_A) && key_bit_set(bits, KEY_ENTER) && key_bit_set(bits, KEY_SPACE) && key_bit_set(bits, KEY_F6)
}

/// Whether the key bitmap of a device looks like a keyboard's.
pub fn looks_like_keyboard(bits: &[u8]) -> (r: bool)
    ensures
        r == is_keyboard_bitmap(bits@),
{
    has_key(bits, KEY_A) && has_key(bits, KEY_ENTER) && has_key(bits, KEY_SPACE) && has_key(bits, KEY_F6)
}

/// How many of the opened devices (`None` for one that could not be opened,
/// else its key bitmap) are keyboards.
pub open spec fn keyboard_count(devices: Seq<Option<Vec<u8>>>) -> nat
    decreases devices.len(),
{
    if devices.len() == 0 {
        0
    } else {
        keyboard_count(devices.drop_last()) + match devices.last() {
            Some(bits) => if is_keyboard_bitmap(bits@) { 1nat } else { 0nat },
            None => 0nat,
        }
    }
}

/// The number of keyboards among the event devices that could be opened
/// directly, given each device's key bitmap (`None` when it could not be opened).
pub fn direct_keyboard_device_count(devices: &[Option<Vec<u8>>]) -> (n: usize)
    ensures
        n == keyboard_count(devices@),
{
    let mut n: usize = 0;
    let mut i: usize = 0;
    while i < devices.len()
        invariant
            0 <= i <= devices.len(),
            n == keyboard_count(devices@.take(i as int)),
            n <= i,
        decreases devices.len() - i,
    {
        assert(devices@.take(i + 1).drop_last() =~= devices@.take(i as int));
        match &devices[i] {
            Some(bits) => {
                if looks_like_keyboard(bits.as_slice()) {
                    n = n + 1;
                }
            },
            None => {},
        }
        i = i + 1;
    }
    assert(devices@.take(devices.len() as int) =~= devices@);
    n
}

/// How many of the devices that logind handed over (`None` for one it
/// refused, else whether it came paused and its key bitmap) are usable
/// keyboards: not paused, with a keyboard's keys.
pub open spec fn logind_keyboard_count(devices: Seq<Option<(bool, Vec<u8>)>>) -> nat
    decreases devices.len(),
{
    if devices.len() == 0 {
        0
    } else {
        logind_keyboard_count(devices.drop_last()) + match devices.last() {
            Some((paused, bits)) => if !paused && is_keyboard_bitmap(bits@) { 1nat } else { 0nat },
            None => 0nat,
        }
    }
}

/// The number of usable keyboards among the devices taken through logind.
pub fn logind_keyboard_device_count(devices: &[Option<(bool, Vec<u8>)>]) -> (n: usize)
    ensures
        n == logind_keyboard_count(devices@),
{
    let mut n: usize = 0;
    let mut i: usize = 0;
    while i < devices.len()
        invariant
            0 <= i <= devices.len(),
            n == logind_keyboard_count(devices@.take(i as int)),
            n <= i,
        decreases devices.len() - i,
    {
        assert(devices@.take(i + 1).drop_last() =~= devices@.take(i as int));
        match &devices[i] {
            Some((paused, bits)) => {
                if !*paused && looks_like_keyboard(bits.as_slice()) {
                    n = n + 1;
                }
            },
            None => {},
        }
        i = i + 1;
    }
    assert(devices@.take(devices.len() as int) =~= devices@);
    n
}

/// How many keyboards the hotkeys can read: the directly opened ones, or,
/// when there are none, those taken through logind (none if that failed).
/// `None` when the event devices could not be listed.
pub fn readable_event_device_count(direct: Option<usize>, logind: Option<usize>) -> (r: Option<usize>)
    ensures
        r == (match direct {
            None => None,
            Some(d) => if d > 0 {
                Some(d)
            } else {
                match logind {
                    Some(l) => Some(l),
                    None => Some(0usize),
                }
            },
        }),
{
    match direct {
        None => None,
        Some(d) => {
            if d > 0 {
                Some(d)
            } else {
                match logind {
                    Some(l) => Some(l),
                    None => Some(0),
                }
            }
        },
    }
}

/// The major and minor numbers of a Linux device number (glibc's `major` and
/// `minor`).
pub open spec fn dev_major(dev: u64) -> u32 {
    (((dev >> 8u64) & 0x0fffu64) | ((dev >> 32u64) & !0x0fffu64)) as u32
}

pub open spec fn dev_minor(dev: u64) -> u32 {
    ((dev & 0x00ffu64) | ((dev >> 12u64) & !0x00ffu64)) as u32
}

/// A Linux device number from its major and minor numbers (glibc's `makedev`).
pub open spec fn makedev(major: u32, minor: u32) -> u64 {
    (((major as u64) & 0x0fffu64) << 8u64) | (((major as u64) & !0x0fffu64) << 32u64)
        | ((minor as u64) & 0x00ffu64) | (((minor as u64) & !0x00ffu64) << 12u64)
}

/// Splits a device number into its major and minor numbers.
pub fn linux_dev_major_minor(dev: u64) -> (r: (u32, u32))
    ensures
        r == (dev_major(dev), dev_minor(dev)),
{
    let major = ((dev >> 8) & 0x0fff) | ((dev >> 32) & !0x0fff);
    let minor = (dev & 0x00ff) | ((dev >> 12) & !0x00ff);
    (major as u32, minor as u32)
}

/// Splitting a device number made from a major and a minor number gives
/// them back.
pub proof fn law_major_minor_round_trip(major: u32, minor: u32)
    ensures
        dev_major(makedev(major, minor)) == major,
        dev_minor(makedev(major, minor)) == minor,
{
    assert(((((((major as u64) & 0x0fffu64) << 8u64) | (((major as u64) & !0x0fffu64) << 32u64)
        | ((minor as u64) & 0x00ffu64) | (((minor as u64) & !0x00ffu64) << 12u64)) >> 8u64) & 0x0fffu64
        | (((((major as u64) & 0x0fffu64) << 8u64) | (((major as u64) & !0x0fffu64) << 32u64)
        | ((minor as u64) & 0x00ffu64) | (((minor as u64) & !0x00ffu64) << 12u64)) >> 32u64) & !0x0fffu64) as u32 == major)
        by (bit_vector);
    assert((((((major as u64) & 0x0fffu64) << 8u64) | (((major as u64) & !0x0fffu64) << 32u64)
        | ((minor as u64) & 0x00ffu64) | (((minor as u64) & !0x00ffu64) << 12u64)) & 0x00ffu64
        | ((((((major as u64) & 0x0fffu64) << 8u64) | (((major as u64) & !0x0fffu64) << 32u64)
        | ((minor as u64) & 0x00ffu64) | (((minor as u64) & !0x00ffu64) << 12u64)) >> 12u64) & !0x00ffu64)) as u32 == minor)
        by (bit_vector);
}

/// An ioctl request number from its direction, type, number and argument
/// size (the kernel's `_IOC`).
pub open spec fn ioc_spec(dir: u64, kind: u64, nr: u64, size: u64) -> u64 {
    (dir << 30u64) | (kind << 8u64) | nr | (size << 16u64)
}

pub fn ioc(dir: u64, kind: u64, nr: u64, size: u64) -> (r: u64)
    ensures
        r == ioc_spec(dir, kind, nr, size),
{
    (dir << 30) | (kind << 8) | nr | (size << 16)
}

/// `_IO(kind, nr)`: a request without an argument.
pub fn io(kind: u64, nr: u64) -> (r: u64)
    ensures
        r == ioc_spec(0, kind, nr, 0),
{
    ioc(0, kind, nr, 0)
}

/// `_IOW(kind, nr, T)` for an argument of `size` bytes.
pub fn iow(kind: u64, nr: u64, size: u64) -> (r: u64)
    ensures
        r == ioc_spec(1, kind, nr, size),
{
    ioc(1, kind, nr, size)
}

/// `EVIOCGBIT(ev, len)`: read the bitmap of event codes of type `ev`.
pub fn eviocgbit(ev: u64, len: u64) -> (r: u64)
    requires
        ev <= u64::MAX - 0x20,
    ensures
        r == ioc_spec(2, 0x45, (0x20 + ev) as u64, len),
{
    ioc(2, 0x45, 0x20 + ev, len)
}

/// With every field in its range (direction 2 bits, type and number 8 bits,
/// size 14 bits), a request number holds the fields side by side and gives
/// each back.
pub proof fn law_ioc_fields(dir: u64, kind: u64, nr: u64, size: u64)
    requires
        dir < 4,
        kind < 256,
        nr < 256,
        size < 0x4000,
    ensures
        ioc_spec(dir, kind, nr, size) >> 30u64 == dir,
        (ioc_spec(dir, kind, nr, size) >> 16u64) & 0x3fffu64 == size,
        (ioc_spec(dir, kind, nr, size) >> 8u64) & 0xffu64 == kind,
        ioc_spec(dir, kind, nr, size) & 0xffu64 == nr,
{
    assert(dir < 4 && kind < 256 && nr < 256 && size < 0x4000 ==>
        ((dir << 30u64) | (kind << 8u64) | nr | (size << 16u64)) >> 30u64 == dir) by (bit_vector);
    assert(dir < 4 && kind < 256 && nr < 256 && size < 0x4000 ==>
        (((dir << 30u64) | (kind << 8u64) | nr | (size << 16u64)) >> 16u64) & 0x3fffu64 == size) by (bit_vector);
    assert(dir < 4 && kind < 256 && nr < 256 && size < 0x4000 ==>
        (((dir << 30u64) | (kind << 8u64) | nr | (size << 16u64)) >> 8u64) & 0xffu64 == kind) by (bit_vector);
    assert(dir < 4 && kind < 256 && nr < 256 && size < 0x4000 ==>
        ((dir << 30u64) | (kind << 8u64) | nr | (size << 16u64)) & 0xffu64 == nr) by (bit_vector);
}

/// A fact about the system that the status summary may need next.
#[derive(Debug, Clone, Copy, PartialEq, Eq, Structural)]
pub enum Probe {
    /// How many keyboard event devices can be read (or that they cannot be listed).
    ReadableDevices,
    /// Whether KDE's global shortcut service has F6 bound for Autolon.
    KdeShortcuts,
    /// Whether the desktop portal offers global shortcuts.
    PortalShortcuts,
}

/// The status summary, or the next fact it needs.
#[derive(Debug, Clone)]
pub enum Summary {
    Text(String),
    Needs(Probe),
}

/// The next fact that the summary needs, given the facts known so far: the
/// configuration's global flag (`None` when it could not be loaded), the
/// number of readable keyboards (`Some(None)` when they could not be listed),
/// and whether KDE and the portal offer global shortcuts.
pub open spec fn needed_probe(global_enabled: Option<bool>, readable: Option<Option<usize>>, kde: Option<bool>, portal: Option<bool>) -> Option<Probe> {
    match global_enabled {
        Some(true) => match readable {
            None => Some(Probe::ReadableDevices),
            Some(Some(n)) => if n > 0 {
                None
            } else {
                match kde {
                    None => Some(Probe::KdeShortcuts),
                    Some(true) => None,
                    Some(false) => if portal is None { Some(Probe::PortalShortcuts) } else { None },
                }
            },
            Some(None) => None,
        },
        _ => None,
    }
}

/// The summary once every needed fact is known.
pub open spec fn summary_text(global_enabled: Option<bool>, readable: Option<Option<usize>>, kde: Option<bool>, portal: Option<bool>) -> Seq<char> {
    match global_enabled {
        None => "Hotkey status unavailable"@,
        Some(false) => "Global autoclicker disabled: F6/F7 only affect the Autolon test canvas"@,
        Some(true) => match readable {
            Some(Some(n)) => if n > 0 {
                "Global autoclicker enabled: direct F6/F7 override is ready"@
            } else if kde == Some(true) {
                "Global hotkeys enabled through KDE; direct Chrome override permission is missing"@
            } else if portal == Some(true) {
                "Global hotkeys enabled through portal; direct Chrome override permission is missing"@
            } else {
                "Global hotkeys enabled, but input permission is missing"@
            },
            _ => "Global hotkeys enabled, but input status is unavailable"@,
        },
    }
}

/// How global hotkeys stand, as shown in the status: computed from the facts
/// known so far, or the next fact to find out. Only the facts that decide the
/// summary are asked for, in order: readable keyboards, then KDE shortcuts,
/// then the portal.
pub fn support_summary(global_enabled: Option<bool>, readable: Option<Option<usize>>, kde: Option<bool>, portal: Option<bool>) -> (r: Summary)
    ensures
        r is Needs <==> needed_probe(global_enabled, readable, kde, portal) is Some,
        r matches Summary::Needs(p) ==> needed_probe(global_enabled, readable, kde, portal) == Some(p),
        r matches Summary::Text(t) ==> t@ == summary_text(global_enabled, readable, kde, portal),
{
    match global_enabled {
        None => Summary::Text(String::from_str("Hotkey status unavailable")),
        Some(false) => Summary::Text(String::from_str("Global autoclicker disabled: F6/F7 only affect the Autolon test canvas")),
        Some(true) => match readable {
            None => Summary::Needs(Probe::ReadableDevices),
            Some(None) => Summary::Text(String::from_str("Global hotkeys enabled, but input status is unavailable")),
            Some(Some(n)) => {
                if n > 0 {
                    Summary::Text(String::from_str("Global autoclicker enabled: direct F6/F7 override is ready"))
                } else {
                    match kde {
                        None => Summary::Needs(Probe::KdeShortcuts),
                        Some(true) => Summary::Text(String::from_str(
                            "Global hotkeys enabled through KDE; direct Chrome override permission is missing")),
                        Some(false) => match portal {
                            None => Summary::Needs(Probe::PortalShortcuts),
                            Some(true) => Summary::Text(String::from_str(
                                "Global hotkeys enabled through portal; direct Chrome override permission is missing")),
                            Some(false) => Summary::Text(String::from_str(
                                "Global hotkeys enabled, but input permission is missing")),
                        },
                    }
                }
            },
        },
    }
}

/// `line` without one trailing carriage return.
pub open spec fn strip_cr(line: Seq<char>) -> Seq<char> {
    if line.len() > 0 && line.last() == '\r' { line.drop_last() } else { line }
}

/// The lines completed so far in `s`, and the unfinished last line.
pub open spec fn split_state(s: Seq<char>) -> (Seq<Seq<char>>, Seq<char>)
    decreases s.len(),
{
    if s.len() == 0 {
        (Seq::empty(), Seq::empty())
    } else {
        let (done, cur) = split_state(s.drop_last());
        if s.last() == '\n' {
            (done.push(strip_cr(cur)), Seq::empty())
        } else {
            (done, cur.push(s.last()))
        }
    }
}

/// The lines of `s` (`str::lines`): split at "\n" or "\r\n", with the last
/// line ending optional.
pub open spec fn lines_of(s: Seq<char>) -> Seq<Seq<char>> {
    let (done, cur) = split_state(s);
    if cur.len() > 0 { done.push(cur) } else { done }
}

/// Whether `pat` occurs in `s`.
pub open spec fn contains_seq(s: Seq<char>, pat: Seq<char>) -> bool {
    exists|i: int| 0 <= i && i + pat.len() <= s.len() && #[trigger] s.subrange(i, i + pat.len()) == pat
}

/// Whether `s` starts with `p`.
pub open spec fn starts_with(s: Seq<char>, p: Seq<char>) -> bool {
    p.len() <= s.len() && s.take(p.len() as int) == p
}

/// What the device list scan has gathered: the current device's name and
/// handlers, and the keyboards found.
pub struct ScanState {
    pub name: Seq<char>,
    pub handlers: Seq<char>,
    pub found: Seq<Seq<char>>,
}

/// One line of `/proc/bus/input/devices`: a blank line ends a device, which
/// counts as a keyboard candidate ("name handlers") when its handlers include
/// "kbd" and "event"; "N: Name=" and "H: Handlers=" lines set the name and
/// handlers.
pub open spec fn scan_line(st: ScanState, line: Seq<char>) -> ScanState {
    if line.len() == 0 {
        ScanState {
            name: Seq::empty(),
            handlers: Seq::empty(),
            found: if contains_seq(st.handlers, "kbd"@) && contains_seq(st.handlers, "event"@) {
                st.found.push(st.name + " "@ + st.handlers)
            } else {
                st.found
            },
        }
    } else if starts_with(line, "N: Name="@) {
        ScanState { name: line.skip(8), ..st }
    } else if starts_with(line, "H: Handlers="@) {
        ScanState { handlers: line.skip(12), ..st }
    } else {
        st
    }
}

/// The scan after the given lines, from an empty start.
pub open spec fn scan_lines(lines: Seq<Seq<char>>) -> ScanState
    decreases lines.len(),
{
    if lines.len() == 0 {
        ScanState { name: Seq::empty(), handlers: Seq::empty(), found: Seq::empty() }
    } else {
        scan_line(scan_lines(lines.drop_last()), lines.last())
    }
}

/// The keyboard candidates in the text of `/proc/bus/input/devices`: each
/// device block, ended by a blank line or the end of the text, whose
/// handlers include "kbd" and "event".
pub open spec fn keyboard_candidates_spec(text: Seq<char>) -> Seq<Seq<char>> {
    scan_lines(lines_of(text).push(Seq::empty())).found
}

fn seq_contains(s: &Vec<char>, pat: &str) -> (r: bool)
    ensures
        r == contains_seq(s@, pat@),
{
    let p = chars_of(pat);
    let n = s.len();
    let m = p.len();
    if m > n {
        proof {
            assert forall|i: int| 0 <= i && i + m <= n implies #[trigger] s@.subrange(i, i + m) != p@ by {}
        }
        return false;
    }
    let mut i: usize = 0;
    while i <= n - m
        invariant
            m <= n,
            n == s@.len(),
            m == p@.len(),
            p@ == pat@,
            0 <= i <= n - m + 1,
            forall|q: int| 0 <= q < i ==> #[trigger] s@.subrange(q, q + m) != p@,
        decreases n - i,
    {
        let mut k: usize = 0;
        let mut ok = true;
        while ok && k < m
            invariant
                0 <= k <= m,
                i + m <= n,
                n == s@.len(),
                m == p@.len(),
                ok ==> forall|t: int| 0 <= t < k ==> s@[i + t] == p@[t],
                !ok ==> exists|t: int| 0 <= t < m && s@[i + t] != p@[t],
            decreases (m - k) as int + (if ok { 1int } else { 0int }),
        {
            if s[i + k] != p[k] {
                ok = false;
            } else {
                k = k + 1;
            }
        }
        if ok {
            assert(s@.subrange(i as int, i + m) =~= p@);
            return true;
        }
        proof {
            let t = choose|t: int| 0 <= t < m && s@[i + t] != p@[t];
            assert(s@.subrange(i as int, i + m)[t] != p@[t]);
        }
        i = i + 1;
    }
    false
}

fn seq_starts_with(s: &Vec<char>, p: &str) -> (r: bool)
    ensures
        r == starts_with(s@, p@),
{
    let pv = chars_of(p);
    if pv.len() > s.len() {
        return false;
    }
    let mut k: usize = 0;
    while k < pv.len()
        invariant
            0 <= k <= pv.len(),
            pv.len() <= s.len(),
            pv@ == p@,
            forall|t: int| 0 <= t < k ==> s@[t] == pv@[t],
        decreases pv.len() - k,
    {
        if s[k] != pv[k] {
            assert(s@.take(pv.len() as int)[k as int] != p@[k as int]);
            return false;
        }
        k = k + 1;
    }
    assert(s@.take(pv.len() as int) =~= p@);
    true
}

fn tail_from(s: &Vec<char>, from: usize) -> (r: Vec<char>)
    requires
        from <= s.len(),
    ensures
        r@ == s@.skip(from as int),
{
    let mut r: Vec<char> = Vec::new();
    let mut k = from;
    while k < s.len()
        invariant
            from <= k <= s.len(),
            r@ == s@.subrange(from as int, k as int),
        decreases s.len() - k,
    {
        r.push(s[k]);
        k = k + 1;
        assert(r@ =~= s@.subrange(from as int, k as int));
    }
    assert(r@ =~= s@.skip(from as int));
    r
}

/// Applies one line to the scan (the executable counterpart of `scan_line`).
fn scan_one(name: &mut Vec<char>, handlers: &mut Vec<char>, found: &mut Vec<String>, line: &Vec<char>)
    ensures
        ({
            let st = scan_line(ScanState { name: old(name)@, handlers: old(handlers)@, found: old(found)@.map_values(|x: String| x@) }, line@);
            &&& final(name)@ == st.name
            &&& final(handlers)@ == st.handlers
            &&& final(found)@.map_values(|x: String| x@) == st.found
        }),
{
    proof {
        reveal_strlit("N: Name=");
        reveal_strlit("H: Handlers=");
    }
    if line.len() == 0 {
        if seq_contains(handlers, "kbd") && seq_contains(handlers, "event") {
            let mut entry = name.clone();
            entry.push(' ');
            let mut k: usize = 0;
            let ghost base = entry@;
            while k < handlers.len()
                invariant
                    0 <= k <= handlers.len(),
                    entry@ == base + handlers@.take(k as int),
                decreases handlers.len() - k,
            {
                entry.push(handlers[k]);
                k = k + 1;
                assert(entry@ =~= base + handlers@.take(k as int));
            }
            assert(handlers@.take(handlers.len() as int) =~= handlers@);
            assert(entry@ =~= name@ + " "@ + handlers@) by {
                reveal_strlit(" ");
            }
            let ghost before = found@;
            found.push(string_from_chars(entry.as_slice()));
            assert(found@.map_values(|x: String| x@) =~= before.map_values(|x: String| x@).push(entry@));
        }
        *name = Vec::new();
        *handlers = Vec::new();
        assert(name@ =~= Seq::<char>::empty());
        assert(handlers@ =~= Seq::<char>::empty());
    } else if seq_starts_with(line, "N: Name=") {
        *name = tail_from(line, 8);
    } else if seq_starts_with(line, "H: Handlers=") {
        *handlers = tail_from(line, 12);
    }
}

/// The keyboard candidates listed in the text of `/proc/bus/input/devices`.
pub fn keyboard_candidates_from(text: &str) -> (r: Vec<String>)
    ensures
        r@.map_values(|x: String| x@) == keyboard_candidates_spec(text@),
{
    let chars = chars_of(text);
    let mut name: Vec<char> = Vec::new();
    let mut handlers: Vec<char> = Vec::new();
    let mut found: Vec<String> = Vec::new();
    let mut cur: Vec<char> = Vec::new();
    let mut i: usize = 0;
    assert(found@.map_values(|x: String| x@) =~= Seq::<Seq<char>>::empty());
    while i < chars.len()
        invariant
            0 <= i <= chars.len(),
            chars@ == text@,
            split_state(chars@.take(i as int)).1 == cur@,
            ({
                let st = scan_lines(split_state(chars@.take(i as int)).0);
                &&& st.name == name@
                &&& st.handlers == handlers@
                &&& st.found == found@.map_values(|x: String| x@)
            }),
        decreases chars.len() - i,
    {
        let c = chars[i];
        proof {
            assert(chars@.take(i + 1).drop_last() =~= chars@.take(i as int));
        }
        if c == '\n' {
            let mut line = cur;
            if line.len() > 0 && line[line.len() - 1] == '\r' {
                line.pop();
            }
            proof {
                assert(line@ == strip_cr(split_state(chars@.take(i as int)).1));
                let done = split_state(chars@.take(i as int)).0;
                assert(done.push(line@).drop_last() =~= done);
            }
            scan_one(&mut name, &mut handlers, &mut found, &line);
            cur = Vec::new();
            assert(cur@ =~= Seq::<char>::empty());
        } else {
            cur.push(c);
        }
        i = i + 1;
    }
    assert(chars@.take(chars.len() as int) =~= chars@);
    let ghost done = split_state(text@).0;
    let ghost ls = lines_of(text@);
    assert(split_state(text@).1 == cur@);
    if cur.len() > 0 {
        proof {
            assert(done.push(cur@).drop_last() =~= done);
        }
        scan_one(&mut name, &mut handlers, &mut found, &cur);
    }
    assert(scan_lines(ls).name == name@ && scan_lines(ls).handlers == handlers@
        && scan_lines(ls).found == found@.map_values(|x: String| x@));
    let empty: Vec<char> = Vec::new();
    proof {
        assert(ls.push(Seq::empty()).drop_last() =~= ls);
        assert(empty@ =~= Seq::<char>::empty());
    }
    scan_one(&mut name, &mut handlers, &mut found, &empty);
    found
}

} // verus!
