//! The settings window's own logic: its local test clicker, the texts it
//! shows, and how it follows the daemon's status.

use vstd::prelude::*;
use crate::clicker::{
    ClickerState, collect_cycle_slots, cycle_slots, position_of, next_slot,
    lemma_position_found, lemma_position_absent,
};
use crate::config::{Config, SlotConfig, is_slot_id};
use crate::hotkeys::CommandKind;
use crate::text::{decimal, str_eq, string_from_chars, push_str, push_decimal, ascii_lower, to_ascii_lowercase};

verus! {

/// The slot that the daemon reports as running.
#[derive(Debug, Clone, Copy, PartialEq, Eq, Structural)]
pub struct GlobalSlot {
    pub slot_id: u8,
    pub interval_ms: u64,
}

/// The running slot of a daemon state, if any.
pub open spec fn global_slot_spec(s: ClickerState) -> Option<GlobalSlot> {
    match s {
        ClickerState::Running { slot_id, interval_ms, .. } => Some(GlobalSlot { slot_id, interval_ms }),
        ClickerState::Stopped => None,
    }
}

/// Takes in a status reported by the daemon; returns whether the running
/// slot changed (and the window is to be redrawn).
pub fn update_global_slot(current: &mut Option<GlobalSlot>, state: &ClickerState) -> (changed: bool)
    ensures
        *final(current) == global_slot_spec(*state),
        changed == (*old(current) != global_slot_spec(*state)),
{
    let next = match *state {
        ClickerState::Running { slot_id, interval_ms, .. } => Some(GlobalSlot { slot_id, interval_ms }),
        ClickerState::Stopped => None,
    };
    if *current == next {
        return false;
    }
    *current = next;
    true
}

/// What one press of the cycle key does to the test canvas's clicker.
#[derive(Debug, Clone, Copy, PartialEq, Eq, Structural)]
pub enum LocalStep {
    /// The clicker is left as it is (and its click timer is not restarted).
    Unchanged,
    /// The clicker now runs this slot, or stops.
    Run(Option<u8>),
}

/// The local cycle: like the daemon's, the first enabled slot from stopped,
/// the next one after the running slot, and stop after the last or when no
/// slot is enabled; but a running slot that is no longer enabled is kept.
pub open spec fn local_step(c: Config, current: Option<u8>) -> LocalStep {
    let e = cycle_slots(c);
    if e.len() == 0 {
        LocalStep::Run(None)
    } else {
        match current {
            None => LocalStep::Run(Some(e[0])),
            Some(x) => match position_of(e, x) {
                None => LocalStep::Unchanged,
                Some(i) => LocalStep::Run(if i + 1 >= e.len() { None } else { Some(e[i + 1 as int]) }),
            },
        }
    }
}

/// The step of the test canvas's clicker for one press of the cycle key.
pub fn next_local_slot(config: &Config, current: Option<u8>) -> (r: LocalStep)
    ensures
        r == local_step(*config, current),
{
    let enabled = collect_cycle_slots(config);
    if enabled.len() == 0 {
        return LocalStep::Run(None);
    }
    match current {
        None => LocalStep::Run(Some(enabled[0])),
        Some(x) => {
            let mut j: usize = 0;
            while j < enabled.len() && enabled[j] != x
                invariant
                    0 <= j <= enabled.len(),
                    forall|k: int| 0 <= k < j ==> enabled@[k] != x,
                decreases enabled.len() - j,
            {
                j = j + 1;
            }
            if j == enabled.len() {
                proof {
                    lemma_position_absent(enabled@, x);
                }
                return LocalStep::Unchanged;
            }
            proof {
                lemma_position_found(enabled@, x, j as int);
            }
            if j + 1 >= enabled.len() {
                LocalStep::Run(None)
            } else {
                LocalStep::Run(Some(enabled[j + 1]))
            }
        },
    }
}

/// The daemon state that runs `slot` (any interval and start time), or the
/// stopped state.
pub open spec fn running_state(slot: Option<u8>, interval_ms: u64, started: u64) -> ClickerState {
    match slot {
        None => ClickerState::Stopped,
        Some(id) => ClickerState::Running { slot_id: id, interval_ms, started_at_unix_ms: started },
    }
}

/// Wherever the test canvas's cycle moves, it moves to the slot that the
/// daemon's cycle hotkey would run from the same slot.
pub proof fn law_local_cycle_matches_daemon(c: Config, current: Option<u8>, interval_ms: u64, started: u64)
    ensures
        local_step(c, current) matches LocalStep::Run(n) ==> n == next_slot(c, running_state(current, interval_ms, started)),
{
}

/// The notice above the test canvas, naming the stop hotkey.
pub open spec fn canvas_notice_text(c: Config) -> Seq<char> {
    "Try playing with your autoclicker settings here before using it outside.\nRemember you can use "@
        + c.hotkeys.stop@ + " to Emergency Stop."@
}

pub fn test_canvas_notice(config: &Config) -> (s: String)
    ensures
        s@ == canvas_notice_text(*config),
{
    let mut v: Vec<char> = Vec::new();
    push_str(&mut v, "Try playing with your autoclicker settings here before using it outside.\nRemember you can use ");
    push_str(&mut v, config.hotkeys.stop.as_str());
    push_str(&mut v, " to Emergency Stop.");
    string_from_chars(v.as_slice())
}

/// The help text under the debounce setting, naming both hotkeys.
pub open spec fn debounce_help_text(c: Config) -> Seq<char> {
    "Minimum time between accepted global "@ + c.hotkeys.cycle@ + "/"@ + c.hotkeys.stop@
        + " presses; lower cycles faster but risks double-presses."@
}

pub fn debounce_help(config: &Config) -> (s: String)
    ensures
        s@ == debounce_help_text(*config),
{
    let mut v: Vec<char> = Vec::new();
    push_str(&mut v, "Minimum time between accepted global ");
    push_str(&mut v, config.hotkeys.cycle.as_str());
    push_str(&mut v, "/");
    push_str(&mut v, config.hotkeys.stop.as_str());
    push_str(&mut v, " presses; lower cycles faster but risks double-presses.");
    string_from_chars(v.as_slice())
}

/// What the window's hotkey line says.
#[derive(Debug, Clone)]
pub enum HotkeysTitle {
    /// Global hotkeys are on; the daemon runs the named slot (name in lower
    /// case) at the interval, or runs nothing.
    Enabled { running: Option<(String, u64)> },
    /// Global hotkeys are off; the test canvas runs the named slot at its
    /// interval, or nothing.
    Disabled { testing: Option<(String, u64)> },
}

/// The hotkey line: with global hotkeys on, the daemon's running slot if it
/// names a slot; otherwise the test canvas's slot if it names one.
pub open spec fn title_matches(t: HotkeysTitle, c: Config, global: Option<GlobalSlot>, local: Option<u8>) -> bool {
    if c.global_autoclicker_enabled {
        t matches HotkeysTitle::Enabled { running } && match global {
            Some(g) if is_slot_id(g.slot_id) => running matches Some((name, interval))
                && name@ == c.spec_slot(g.slot_id).name@.map_values(|ch: char| ascii_lower(ch))
                && interval == g.interval_ms,
            _ => running is None,
        }
    } else {
        t matches HotkeysTitle::Disabled { testing } && match local {
            Some(id) if is_slot_id(id) => testing matches Some((name, interval))
                && name@ == c.spec_slot(id).name@
                && interval == c.spec_slot(id).interval_ms,
            _ => testing is None,
        }
    }
}

pub fn hotkeys_title(config: &Config, global: Option<GlobalSlot>, local: Option<u8>) -> (t: HotkeysTitle)
    ensures
        title_matches(t, *config, global, local),
{
    if config.global_autoclicker_enabled {
        let running = match global {
            Some(g) => match config.slot(g.slot_id) {
                Ok(slot) => Some((to_ascii_lowercase(slot.name.as_str()), g.interval_ms)),
                Err(_) => None,
            },
            None => None,
        };
        HotkeysTitle::Enabled { running }
    } else {
        let testing = match local {
            Some(id) => match config.slot(id) {
                Ok(slot) => Some((slot.name.clone(), slot.interval_ms)),
                Err(_) => None,
            },
            None => None,
        };
        HotkeysTitle::Disabled { testing }
    }
}

/// The slot and interval that the test canvas marks at the pointer: none
/// while the pointer is outside it; with global hotkeys on, the daemon's
/// running slot; otherwise the canvas's own slot, if it names one.
pub open spec fn active_indicator_spec(c: Config, pointer_inside: bool, global: Option<GlobalSlot>, local: Option<u8>) -> Option<(u8, u64)> {
    if !pointer_inside {
        None
    } else if c.global_autoclicker_enabled {
        match global {
            Some(g) => Some((g.slot_id, g.interval_ms)),
            None => None,
        }
    } else {
        match local {
            Some(id) if is_slot_id(id) => Some((id, c.spec_slot(id).interval_ms)),
            _ => None,
        }
    }
}

pub fn active_indicator(config: &Config, pointer_inside: bool, global: Option<GlobalSlot>, local: Option<u8>) -> (r: Option<(u8, u64)>)
    ensures
        r == active_indicator_spec(*config, pointer_inside, global, local),
{
    if !pointer_inside {
        return None;
    }
    if config.global_autoclicker_enabled {
        return match global {
            Some(g) => Some((g.slot_id, g.interval_ms)),
            None => None,
        };
    }
    match local {
        Some(id) => match config.slot(id) {
            Ok(slot) => Some((id, slot.interval_ms)),
            Err(_) => None,
        },
        None => None,
    }
}

/// The label of function key `n`: "F1" to "F12"; other keys have none.
pub fn function_key_label(n: u8) -> (r: Option<String>)
    ensures
        r matches Some(s) ==> 1 <= n <= 12 && s@ == "F"@ + decimal(n as nat),
        r is None ==> !(1 <= n <= 12),
{
    if n < 1 || n > 12 {
        return None;
    }
    let mut v: Vec<char> = Vec::new();
    v.push('F');
    push_decimal(n as u64, &mut v);
    assert(v@ =~= "F"@ + decimal(n as nat)) by {
        reveal_strlit("F");
    }
    Some(string_from_chars(v.as_slice()))
}

/// What a key labelled `label` does to the test canvas's clicker: the cycle
/// hotkey cycles, the stop hotkey stops (the cycle hotkey wins if both are
/// the same key).
pub fn local_hotkey(config: &Config, label: &str) -> (r: Option<CommandKind>)
    ensures
        r == (if label@ == config.hotkeys.cycle@ {
            Some(CommandKind::Cycle)
        } else if label@ == config.hotkeys.stop@ {
            Some(CommandKind::Stop)
        } else {
            None
        }),
{
    if str_eq(label, config.hotkeys.cycle.as_str()) {
        Some(CommandKind::Cycle)
    } else if str_eq(label, config.hotkeys.stop.as_str()) {
        Some(CommandKind::Stop)
    } else {
        None
    }
}

/// Sets a slot's interval from the speed control; a press duration that
/// would no longer be shorter than the interval becomes one less than the
/// interval, but at least 1 ms.
pub fn set_slot_speed(slot: &mut SlotConfig, interval_ms: u64)
    ensures
        final(slot).name == old(slot).name,
        final(slot).enabled == old(slot).enabled,
        final(slot).button == old(slot).button,
        final(slot).interval_ms == interval_ms,
        final(slot).press_duration_ms == (if old(slot).press_duration_ms >= interval_ms {
            if interval_ms <= 1 { 1 } else { (interval_ms - 1) as u64 }
        } else {
            old(slot).press_duration_ms
        }),
{
    slot.interval_ms = interval_ms;
    if slot.press_duration_ms >= interval_ms {
        let shorter = interval_ms.saturating_sub(1);
        slot.press_duration_ms = if shorter < 1 { 1 } else { shorter };
    }
}

/// The test canvas's slot after a slot's checkbox changes: unchecking the
/// slot that runs there stops it.
pub fn local_after_toggle(local: Option<u8>, slot_id: u8, enabled: bool) -> (r: Option<u8>)
    ensures
        r == (if !enabled && local == Some(slot_id) { None } else { local }),
{
    if !enabled && local == Some(slot_id) {
        None
    } else {
        local
    }
}

/// Whether the test canvas's clicker clicks now: it runs a slot that exists,
/// the pointer is over the canvas, and at least that slot's interval has
/// passed since its last click.
pub fn local_click_due(config: &Config, local: Option<u8>, pointer_inside: bool, elapsed_ms: u64) -> (r: bool)
    ensures
        r == (match local {
            Some(id) => pointer_inside && is_slot_id(id) && elapsed_ms >= config.spec_slot(id).interval_ms,
            None => false,
        }),
{
    match local {
        Some(id) => {
            if !pointer_inside {
                return false;
            }
            match config.slot(id) {
                Ok(slot) => elapsed_ms >= slot.interval_ms,
                Err(_) => false,
            }
        },
        None => false,
    }
}

/// The colours that the test canvas's dots take in turn.
#[derive(Debug, Clone, Copy, PartialEq, Eq, Structural)]
pub enum DotColor {
    Red,
    Yellow,
    Blue,
}

/// The colour of the `n`-th dot: red, yellow, blue, red, ...
pub fn dot_color(n: usize) -> (c: DotColor)
    ensures
        c == (if n % 3 == 0 { DotColor::Red } else if n % 3 == 1 { DotColor::Yellow } else { DotColor::Blue }),
{
    match n % 3 {
        0 => DotColor::Red,
        1 => DotColor::Yellow,
        _ => DotColor::Blue,
    }
}

/// Appends `item`, first dropping the oldest items so that at most `cap`
/// remain.
pub fn push_capped<T>(items: &mut Vec<T>, item: T, cap: usize)
    requires
        cap > 0,
    ensures
        final(items)@ == (if old(items)@.len() >= cap {
            old(items)@.skip(old(items)@.len() - cap + 1)
        } else {
            old(items)@
        }).push(item),
        final(items)@.len() <= cap,
{
    if items.len() >= cap {
        let drop = items.len() - cap + 1;
        let rest = items.split_off(drop);
        *items = rest;
    }
    items.push(item);
}

} // verus!
