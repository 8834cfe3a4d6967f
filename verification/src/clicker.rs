//! The clicker state machine: which slot runs, how the cycle hotkey moves
//! between slots, and what the daemon does for each command it receives.

use vstd::prelude::*;
use crate::config::{Config, ConfigError, MouseButton, is_slot_id, is_valid, validation_error};

verus! {

#[derive(Debug, Clone, Copy, PartialEq, Eq, Structural)]
pub enum ClickerState {
    Stopped,
    Running { slot_id: u8, interval_ms: u64, started_at_unix_ms: u64 },
}

/// What the daemon reports about itself.
#[derive(Debug, Clone)]
pub struct Status {
    pub state: ClickerState,
    pub backend: String,
    pub wayland: bool,
    pub hotkeys: String,
    pub config_path: String,
}

/// The status report for `state`: the clicker state, the input backend in
/// use, whether the session is Wayland, the hotkey summary and the
/// configuration file's path.
pub fn status(state: &ClickerState, backend: &str, wayland: bool, hotkeys: &str, config_path: &str) -> (s: Status)
    ensures
        s.state == *state,
        s.backend@ == backend@,
        s.wayland == wayland,
        s.hotkeys@ == hotkeys@,
        s.config_path@ == config_path@,
{
    Status {
        state: *state,
        backend: backend.to_string(),
        wayland,
        hotkeys: hotkeys.to_string(),
        config_path: config_path.to_string(),
    }
}

/// A request to the clicker's command loop. Commands that expect an answer
/// are answered by the loop's owner, which keeps the reply channel.
#[derive(Debug, Clone, Copy, PartialEq, Eq, Structural)]
pub enum Command {
    Cycle,
    Stop,
    SubscribeStatus,
    SetSlotInterval { slot_id: u8, interval_ms: u64 },
    SetSlotEnabled { slot_id: u8, enabled: bool },
    Reload,
    Status,
    Quit,
}

/// The slots of `order` that exist and are enabled, in order.
pub open spec fn enabled_slots(c: Config, order: Seq<u8>) -> Seq<u8>
    decreases order.len(),
{
    if order.len() == 0 {
        Seq::empty()
    } else {
        let rest = enabled_slots(c, order.drop_last());
        let id = order.last();
        if is_slot_id(id) && c.spec_slot(id).enabled {
            rest.push(id)
        } else {
            rest
        }
    }
}

/// The slots that the cycle hotkey steps through, in order.
pub open spec fn cycle_slots(c: Config) -> Seq<u8> {
    enabled_slots(c, c.clicker.cycle_order@)
}

/// The index of the first occurrence of `x` in `s`.
pub open spec fn position_of(s: Seq<u8>, x: u8) -> Option<nat>
    decreases s.len(),
{
    if s.len() == 0 {
        None
    } else if s[0] == x {
        Some(0)
    } else {
        match position_of(s.drop_first(), x) {
            Some(i) => Some(i + 1),
            None => None,
        }
    }
}

/// The slot that the cycle hotkey moves to from `state`: the first enabled
/// slot when stopped, the next enabled slot after the running one, and none
/// (stop) after the last one, when the running slot is no longer enabled, or
/// when no slot is enabled.
pub open spec fn next_slot(c: Config, state: ClickerState) -> Option<u8> {
    let e = cycle_slots(c);
    if e.len() == 0 {
        None
    } else {
        match state {
            ClickerState::Stopped => Some(e[0]),
            ClickerState::Running { slot_id, .. } => match position_of(e, slot_id) {
                None => None,
                Some(i) => if i + 1 >= e.len() { None } else { Some(e[i + 1 as int]) },
            },
        }
    }
}

/// The state after one press of the cycle hotkey at time `now`.
pub open spec fn next_state(c: Config, state: ClickerState, now: u64) -> ClickerState {
    match next_slot(c, state) {
        None => ClickerState::Stopped,
        Some(id) => ClickerState::Running {
            slot_id: id,
            interval_ms: c.spec_slot(id).interval_ms,
            started_at_unix_ms: now,
        },
    }
}

/// The start time that a state records (0 when stopped).
pub open spec fn started_at(s: ClickerState) -> u64 {
    match s {
        ClickerState::Stopped => 0,
        ClickerState::Running { started_at_unix_ms, .. } => started_at_unix_ms,
    }
}

proof fn lemma_enabled_slots_valid(c: Config, order: Seq<u8>)
    ensures
        forall|i: int| 0 <= i < enabled_slots(c, order).len() ==> {
            &&& is_slot_id(#[trigger] enabled_slots(c, order)[i])
            &&& c.spec_slot(enabled_slots(c, order)[i]).enabled
        },
    decreases order.len(),
{
    if order.len() > 0 {
        lemma_enabled_slots_valid(c, order.drop_last());
    }
}

pub(crate) proof fn lemma_position_found(s: Seq<u8>, x: u8, j: int)
    requires
        0 <= j < s.len(),
        s[j] == x,
        forall|k: int| 0 <= k < j ==> s[k] != x,
    ensures
        position_of(s, x) == Some(j as nat),
    decreases s.len(),
{
    if j > 0 {
        assert(s[0] != x);
        lemma_position_found(s.drop_first(), x, j - 1);
    }
}

pub(crate) proof fn lemma_position_absent(s: Seq<u8>, x: u8)
    requires
        forall|k: int| 0 <= k < s.len() ==> s[k] != x,
    ensures
        position_of(s, x) is None,
    decreases s.len(),
{
    if s.len() > 0 {
        lemma_position_absent(s.drop_first(), x);
    }
}

/// The milliseconds since the Unix epoch on the system clock (std's
/// `SystemTime::now`, measured from `UNIX_EPOCH`; 0 for a clock set before
/// the epoch). Nothing is promised of the value: it comes from the clock.
#[verifier::external_body]
fn clock_millis() -> u128 {
    std::time::SystemTime::now()
        .duration_since(std::time::SystemTime::UNIX_EPOCH)
        .unwrap_or_default()
        .as_millis()
}

/// The current time in milliseconds since the Unix epoch, saturating at
/// `u64::MAX`.
fn now_unix_ms() -> u64 {
    let ms = clock_millis();
    if ms > u64::MAX as u128 {
        u64::MAX
    } else {
        ms as u64
    }
}

/// The enabled slots of the cycle order.
pub(crate) fn collect_cycle_slots(config: &Config) -> (e: Vec<u8>)
    ensures
        e@ == cycle_slots(*config),
{
    let order = &config.clicker.cycle_order;
    let mut e: Vec<u8> = Vec::new();
    let mut i: usize = 0;
    while i < order.len()
        invariant
            0 <= i <= order.len(),
            order == config.clicker.cycle_order,
            e@ == enabled_slots(*config, order@.take(i as int)),
        decreases order.len() - i,
    {
        let id = order[i];
        proof {
            assert(order@.take(i + 1).drop_last() =~= order@.take(i as int));
        }
        match config.slot(id) {
            Ok(slot) => {
                if slot.enabled {
                    e.push(id);
                }
            },
            Err(_) => {},
        }
        i = i + 1;
    }
    assert(order@.take(order.len() as int) =~= order@);
    e
}

/// The state after one press of the cycle hotkey, started at `now_unix_ms`.
pub fn cycle_state_at(config: &Config, state: &ClickerState, now_unix_ms: u64) -> (r: ClickerState)
    ensures
        r == next_state(*config, *state, now_unix_ms),
{
    let enabled = collect_cycle_slots(config);
    proof {
        lemma_enabled_slots_valid(*config, config.clicker.cycle_order@);
    }
    if enabled.len() == 0 {
        return ClickerState::Stopped;
    }
    let next: u8 = match state {
        ClickerState::Stopped => enabled[0],
        ClickerState::Running { slot_id, .. } => {
            let mut j: usize = 0;
            while j < enabled.len() && enabled[j] != *slot_id
                invariant
                    0 <= j <= enabled.len(),
                    forall|k: int| 0 <= k < j ==> enabled@[k] != *slot_id,
                decreases enabled.len() - j,
            {
                j = j + 1;
            }
            if j == enabled.len() {
                proof {
                    lemma_position_absent(enabled@, *slot_id);
                }
                return ClickerState::Stopped;
            }
            proof {
                lemma_position_found(enabled@, *slot_id, j as int);
            }
            if j + 1 >= enabled.len() {
                return ClickerState::Stopped;
            }
            enabled[j + 1]
        },
    };
    let interval_ms = match config.slot(next) {
        Ok(slot) => slot.interval_ms,
        Err(_) => config.clicker.min_interval_ms,
    };
    ClickerState::Running { slot_id: next, interval_ms, started_at_unix_ms: now_unix_ms }
}

/// The state after one press of the cycle hotkey, stamped with the current time.
pub fn cycle_state(config: &Config, state: &ClickerState) -> (r: ClickerState)
    ensures
        r == next_state(*config, *state, started_at(r)),
{
    cycle_state_at(config, state, now_unix_ms())
}

/// The state after one press of the cycle hotkey at each of `times`, in
/// order, from `state`.
pub open spec fn cycle_presses(c: Config, state: ClickerState, times: Seq<u64>) -> ClickerState
    decreases times.len(),
{
    if times.len() == 0 {
        state
    } else {
        next_state(c, cycle_presses(c, state, times.drop_last()), times.last())
    }
}

proof fn lemma_enabled_slots_subset_no_dup(c: Config, order: Seq<u8>)
    requires
        order.no_duplicates(),
    ensures
        enabled_slots(c, order).no_duplicates(),
        forall|x: u8| enabled_slots(c, order).contains(x) ==> order.contains(x),
    decreases order.len(),
{
    if order.len() > 0 {
        let rest = order.drop_last();
        assert(rest.no_duplicates());
        lemma_enabled_slots_subset_no_dup(c, rest);
        let id = order.last();
        assert forall|x: u8| rest.contains(x) implies order.contains(x) by {
            let k = choose|k: int| 0 <= k < rest.len() && rest[k] == x;
            assert(order[k] == x);
        }
        if is_slot_id(id) && c.spec_slot(id).enabled {
            let e = enabled_slots(c, rest);
            assert(!rest.contains(id)) by {
                if rest.contains(id) {
                    let k = choose|k: int| 0 <= k < rest.len() && rest[k] == id;
                    assert(order[k] == order[order.len() - 1]);
                }
            }
            assert(!e.contains(id));
            assert forall|x: u8| e.push(id).contains(x) implies order.contains(x) by {
                if x != id {
                    let k = choose|k: int| 0 <= k < e.push(id).len() && e.push(id)[k] == x;
                    assert(e[k] == x);
                }
            }
        }
    }
}

/// With a cycle order that names no slot twice, pressing the cycle hotkey
/// from the stopped state, at any times, runs the enabled slots one after
/// another in the cycle order, each started at the time of its press, and
/// the press after the last of them stops the clicker ("Off -> Slow -> Fast
/// -> User -> Off").
pub proof fn law_cycle_visits_enabled_slots_in_order(c: Config, times: Seq<u64>)
    requires
        c.clicker.cycle_order@.no_duplicates(),
        times.len() == cycle_slots(c).len() + 1,
    ensures
        forall|i: int| 0 <= i < cycle_slots(c).len() ==>
            #[trigger] cycle_presses(c, ClickerState::Stopped, times.take(i + 1)) == (ClickerState::Running {
                slot_id: cycle_slots(c)[i],
                interval_ms: c.spec_slot(cycle_slots(c)[i]).interval_ms,
                started_at_unix_ms: times[i],
            }),
        cycle_presses(c, ClickerState::Stopped, times) == ClickerState::Stopped,
{
    let e = cycle_slots(c);
    lemma_enabled_slots_subset_no_dup(c, c.clicker.cycle_order@);
    assert forall|i: int| 0 <= i < e.len() implies
        #[trigger] cycle_presses(c, ClickerState::Stopped, times.take(i + 1)) == (ClickerState::Running {
            slot_id: e[i],
            interval_ms: c.spec_slot(e[i]).interval_ms,
            started_at_unix_ms: times[i],
        }) by {
        lemma_cycle_prefix(c, times, i);
    }
    assert(times.take(times.len() as int) =~= times);
    assert(times.drop_last() =~= times.take(e.len() as int));
    if e.len() == 0 {
        assert(times.drop_last() =~= Seq::<u64>::empty());
    } else {
        let last = e.len() - 1;
        lemma_cycle_prefix(c, times, last);
        assert(times.take(last + 1) =~= times.take(e.len() as int));
        assert forall|k: int| 0 <= k < last implies #[trigger] e[k] != e[last] by {}
        lemma_position_found(e, e[last], last);
    }
}

proof fn lemma_cycle_prefix(c: Config, times: Seq<u64>, i: int)
    requires
        cycle_slots(c).no_duplicates(),
        0 <= i < cycle_slots(c).len(),
        i < times.len(),
    ensures
        cycle_presses(c, ClickerState::Stopped, times.take(i + 1)) == (ClickerState::Running {
            slot_id: cycle_slots(c)[i],
            interval_ms: c.spec_slot(cycle_slots(c)[i]).interval_ms,
            started_at_unix_ms: times[i],
        }),
    decreases i,
{
    let e = cycle_slots(c);
    let t = times.take(i + 1);
    assert(t.last() == times[i]);
    assert(t.drop_last() =~= times.take(i));
    if i == 0 {
        assert(times.take(0) =~= Seq::<u64>::empty());
        assert(cycle_presses(c, ClickerState::Stopped, times.take(0)) == ClickerState::Stopped);
    } else {
        lemma_cycle_prefix(c, times, i - 1);
        assert(times.take(i - 1 + 1) =~= times.take(i));
        assert forall|k: int| 0 <= k < i - 1 implies #[trigger] e[k] != e[i - 1] by {}
        lemma_position_found(e, e[i - 1], i - 1);
    }
}

/// What the owner of the command loop does once a command has been decided.
#[derive(Debug, Clone, Copy, PartialEq, Eq, Structural)]
pub enum Effect {
    /// Reply with the current status.
    ReplyStatus,
    /// Keep the sender as a status subscriber; no reply.
    Subscribe,
    /// Reply with this error; the state is as the command left it.
    ReplyError(ConfigError),
    /// Write the configuration to its file. When the write succeeds, pass
    /// `stop_slot` to `finish_save` and reply with the status; when it fails,
    /// reply with the write error.
    SaveConfig { stop_slot: Option<u8> },
    /// Load the configuration file again and select the input backend anew,
    /// then reply with the status or the failure.
    Reload,
    /// Reply with the status, then end the process.
    Quit,
}

/// `c` with the interval of slot `slot_id` set to `interval_ms`.
pub open spec fn with_slot_interval(c: Config, slot_id: u8, interval_ms: u64) -> Config {
    c.with_slot(slot_id, crate::config::SlotConfig { interval_ms: interval_ms, ..c.spec_slot(slot_id) })
}

/// `c` with slot `slot_id` enabled or disabled.
pub open spec fn with_slot_enabled(c: Config, slot_id: u8, enabled: bool) -> Config {
    c.with_slot(slot_id, crate::config::SlotConfig { enabled: enabled, ..c.spec_slot(slot_id) })
}

/// The outcome of a configuration change that has been applied in memory:
/// the save is refused with the first rule it breaks, or the file is written.
pub open spec fn save_effect(c: Config, stop_slot: Option<u8>) -> Effect {
    match validation_error(c) {
        Some(e) => Effect::ReplyError(e),
        None => Effect::SaveConfig { stop_slot },
    }
}

/// What one command does: the configuration, clicker state and quit flag it
/// leaves, and what is left to do outside. `now` is the start time recorded
/// when the cycle hotkey starts a slot.
pub open spec fn decide(command: Command, c: Config, s: ClickerState, q: bool, now: u64) -> (Config, ClickerState, bool, Effect) {
    match command {
        Command::Cycle => (c, next_state(c, s, now), q, Effect::ReplyStatus),
        Command::Stop => (c, ClickerState::Stopped, q, Effect::ReplyStatus),
        Command::Status => (c, s, q, Effect::ReplyStatus),
        Command::SubscribeStatus => (c, s, q, Effect::Subscribe),
        Command::Reload => (c, s, q, Effect::Reload),
        Command::Quit => (c, ClickerState::Stopped, true, Effect::Quit),
        Command::SetSlotInterval { slot_id, interval_ms } => if is_slot_id(slot_id) {
            let c2 = with_slot_interval(c, slot_id, interval_ms);
            (c2, s, q, save_effect(c2, None))
        } else {
            (c, s, q, Effect::ReplyError(ConfigError::InvalidSlotId))
        },
        Command::SetSlotEnabled { slot_id, enabled } => if is_slot_id(slot_id) {
            let c2 = with_slot_enabled(c, slot_id, enabled);
            (c2, s, q, save_effect(c2, if enabled { None } else { Some(slot_id) }))
        } else {
            (c, s, q, Effect::ReplyError(ConfigError::InvalidSlotId))
        },
    }
}

/// Decides one command of the clicker loop: updates the configuration, the
/// clicker state and the quit flag, and says what is left to do outside.
pub fn handle_command(command: Command, config: &mut Config, state: &mut ClickerState, quit: &mut bool) -> (effect: Effect)
    ensures
        (*final(config), *final(state), *final(quit), effect)
            == decide(command, *old(config), *old(state), *old(quit), started_at(*final(state))),
{
    match command {
        Command::Cycle => {
            *state = cycle_state(config, state);
            Effect::ReplyStatus
        },
        Command::Stop => {
            *state = ClickerState::Stopped;
            Effect::ReplyStatus
        },
        Command::SubscribeStatus => Effect::Subscribe,
        Command::SetSlotInterval { slot_id, interval_ms } => {
            match config.slot_mut(slot_id) {
                Ok(slot) => {
                    slot.interval_ms = interval_ms;
                },
                Err(e) => {
                    return Effect::ReplyError(e);
                },
            }
            match config.validate() {
                Ok(()) => Effect::SaveConfig { stop_slot: None },
                Err(e) => Effect::ReplyError(e),
            }
        },
        Command::SetSlotEnabled { slot_id, enabled } => {
            match config.slot_mut(slot_id) {
                Ok(slot) => {
                    slot.enabled = enabled;
                },
                Err(e) => {
                    return Effect::ReplyError(e);
                },
            }
            match config.validate() {
                Ok(()) => Effect::SaveConfig { stop_slot: if enabled { None } else { Some(slot_id) } },
                Err(e) => Effect::ReplyError(e),
            }
        },
        Command::Reload => Effect::Reload,
        Command::Status => Effect::ReplyStatus,
        Command::Quit => {
            *state = ClickerState::Stopped;
            *quit = true;
            Effect::Quit
        },
    }
}

/// The state after a successful save that stops `stop_slot` if it runs.
pub open spec fn after_save(s: ClickerState, stop_slot: Option<u8>) -> ClickerState {
    match (stop_slot, s) {
        (Some(id), ClickerState::Running { slot_id, .. }) => if slot_id == id { ClickerState::Stopped } else { s },
        _ => s,
    }
}

/// After a successful save: a slot that was just disabled stops the clicker
/// if it is the one running; any other state is kept.
pub fn finish_save(state: &mut ClickerState, stop_slot: Option<u8>)
    ensures
        *final(state) == after_save(*old(state), stop_slot),
{
    if let Some(id) = stop_slot {
        if let ClickerState::Running { slot_id, .. } = *state {
            if slot_id == id {
                *state = ClickerState::Stopped;
            }
        }
    }
}

/// How long the loop waits for a command before the next click: the running
/// slot's interval, or without limit when stopped.
pub fn wait_timeout_ms(state: &ClickerState) -> (r: Option<u64>)
    ensures
        r == (match *state {
            ClickerState::Stopped => None,
            ClickerState::Running { interval_ms, .. } => Some(interval_ms),
        }),
{
    match state {
        ClickerState::Stopped => None,
        ClickerState::Running { interval_ms, .. } => Some(*interval_ms),
    }
}

/// The click that is due when the wait ends without a command: the running
/// slot's button and press duration, or none when stopped (or when the
/// running slot id names no slot).
pub fn due_click(config: &Config, state: &ClickerState) -> (r: Option<(MouseButton, u64)>)
    ensures
        r == (match *state {
            ClickerState::Stopped => None,
            ClickerState::Running { slot_id, .. } => if is_slot_id(slot_id) {
                Some((config.spec_slot(slot_id).button, config.spec_slot(slot_id).press_duration_ms))
            } else {
                None
            },
        }),
{
    match state {
        ClickerState::Stopped => None,
        ClickerState::Running { slot_id, .. } => match config.slot(*slot_id) {
            Ok(slot) => Some((slot.button, slot.press_duration_ms)),
            Err(_) => None,
        },
    }
}

/// A click that failed stops the clicker; a click that succeeded keeps it running.
pub fn after_click(state: &mut ClickerState, succeeded: bool)
    ensures
        *final(state) == if succeeded { *old(state) } else { ClickerState::Stopped },
{
    if !succeeded {
        *state = ClickerState::Stopped;
    }
}

proof fn lemma_enabled_slots_from_order(c: Config, order: Seq<u8>)
    ensures
        forall|x: u8| enabled_slots(c, order).contains(x) ==> order.contains(x),
    decreases order.len(),
{
    if order.len() > 0 {
        let rest = order.drop_last();
        lemma_enabled_slots_from_order(c, rest);
        let e = enabled_slots(c, rest);
        assert forall|x: u8| enabled_slots(c, order).contains(x) implies order.contains(x) by {
            if e.contains(x) {
                assert(rest.contains(x));
                let k = choose|k: int| 0 <= k < rest.len() && rest[k] == x;
                assert(order[k] == x);
            } else {
                assert(x == order.last());
                assert(order[order.len() - 1] == x);
            }
        }
    }
}

/// The cycle hotkey only ever starts a slot that exists, is enabled and is
/// named in the cycle order, and runs it at that slot's interval.
pub proof fn law_cycle_runs_only_enabled_slots(c: Config, s: ClickerState, now: u64)
    ensures
        next_state(c, s, now) matches ClickerState::Running { slot_id, interval_ms, started_at_unix_ms } ==> {
            &&& is_slot_id(slot_id)
            &&& c.spec_slot(slot_id).enabled
            &&& c.clicker.cycle_order@.contains(slot_id)
            &&& interval_ms == c.spec_slot(slot_id).interval_ms
            &&& started_at_unix_ms == now
        },
{
    let e = cycle_slots(c);
    lemma_enabled_slots_valid(c, c.clicker.cycle_order@);
    lemma_enabled_slots_from_order(c, c.clicker.cycle_order@);
    if let Some(id) = next_slot(c, s) {
        match s {
            ClickerState::Stopped => {
                assert(e.contains(e[0]));
            },
            ClickerState::Running { slot_id, .. } => {
                let i = position_of(e, slot_id)->Some_0;
                assert(e.contains(e[i + 1 as int]));
            },
        }
    }
}

/// The emergency stop always leaves the clicker stopped.
pub proof fn law_stop_always_stops(c: Config, s: ClickerState, q: bool, now: u64)
    ensures
        decide(Command::Stop, c, s, q, now).1 == ClickerState::Stopped,
        decide(Command::Quit, c, s, q, now).1 == ClickerState::Stopped,
{
}

/// A configuration change is only ever written to disk when the changed
/// configuration passes validation.
pub proof fn law_only_valid_config_is_saved(command: Command, c: Config, s: ClickerState, q: bool, now: u64)
    ensures
        decide(command, c, s, q, now).3 is SaveConfig ==> is_valid(decide(command, c, s, q, now).0),
{
}

/// Once disabling a slot has been saved, that slot is not running.
pub proof fn law_disabled_slot_stops_running(slot_id: u8, c: Config, s: ClickerState, q: bool, now: u64)
    ensures
        ({
            let d = decide(Command::SetSlotEnabled { slot_id, enabled: false }, c, s, q, now);
            d.3 matches Effect::SaveConfig { stop_slot } ==>
                !(after_save(d.1, stop_slot) matches ClickerState::Running { slot_id: running, .. } && running == slot_id)
        }),
{
}

/// `after` differs from `before` at most in slot `slot_id`.
pub open spec fn only_slot_changed(before: Config, after: Config, slot_id: u8) -> bool {
    &&& after.version == before.version
    &&& after.hotkeys == before.hotkeys
    &&& after.clicker == before.clicker
    &&& after.global_autoclicker_enabled == before.global_autoclicker_enabled
    &&& after.display_global_mouse_overlay == before.display_global_mouse_overlay
    &&& after.global_hotkey_debounce_ms == before.global_hotkey_debounce_ms
    &&& after.backend == before.backend
    &&& forall|j: u8| is_slot_id(j) && j != slot_id ==> #[trigger] after.spec_slot(j) == before.spec_slot(j)
}

/// `slot set` on a slot that exists sets exactly what was asked: after an
/// enabled change the slot's flag is the requested one, whatever it was
/// before; after an interval change its interval is the requested one; the
/// slot's other fields, the other slots, every other setting, the clicker
/// state and the quit flag stay as they were.
pub proof fn law_slot_set_sets_what_was_asked(slot_id: u8, enabled: bool, interval_ms: u64, c: Config, s: ClickerState, q: bool, now: u64)
    requires
        is_slot_id(slot_id),
    ensures
        ({
            let d = decide(Command::SetSlotEnabled { slot_id, enabled }, c, s, q, now);
            let after = d.0.spec_slot(slot_id);
            let before = c.spec_slot(slot_id);
            &&& after.enabled == enabled
            &&& after.name == before.name
            &&& after.button == before.button
            &&& after.interval_ms == before.interval_ms
            &&& after.press_duration_ms == before.press_duration_ms
            &&& only_slot_changed(c, d.0, slot_id)
            &&& d.1 == s
            &&& d.2 == q
        }),
        ({
            let d = decide(Command::SetSlotInterval { slot_id, interval_ms }, c, s, q, now);
            let after = d.0.spec_slot(slot_id);
            let before = c.spec_slot(slot_id);
            &&& after.interval_ms == interval_ms
            &&& after.name == before.name
            &&& after.enabled == before.enabled
            &&& after.button == before.button
            &&& after.press_duration_ms == before.press_duration_ms
            &&& only_slot_changed(c, d.0, slot_id)
            &&& d.1 == s
            &&& d.2 == q
        }),
{
}

/// Asking for the status, or subscribing to it, changes nothing: not the
/// configuration, not the clicker state, not the quit flag.
pub proof fn law_status_is_read_only(c: Config, s: ClickerState, q: bool, now: u64)
    ensures
        decide(Command::Status, c, s, q, now) == (c, s, q, Effect::ReplyStatus),
        decide(Command::SubscribeStatus, c, s, q, now) == (c, s, q, Effect::Subscribe),
{
}

/// A slot change for an id that names no slot is answered with
/// `InvalidSlotId` and changes nothing.
pub proof fn law_refused_slot_change_changes_nothing(slot_id: u8, interval_ms: u64, enabled: bool, c: Config, s: ClickerState, q: bool, now: u64)
    requires
        !is_slot_id(slot_id),
    ensures
        decide(Command::SetSlotInterval { slot_id, interval_ms }, c, s, q, now)
            == (c, s, q, Effect::ReplyError(ConfigError::InvalidSlotId)),
        decide(Command::SetSlotEnabled { slot_id, enabled }, c, s, q, now)
            == (c, s, q, Effect::ReplyError(ConfigError::InvalidSlotId)),
{
}

/// The backend used while no real one can be opened: it has the name
/// "unavailable" and every click fails with the reason.
pub struct NoopBackend {
    pub reason: String,
}

impl crate::input::InputBackend for NoopBackend {
    fn name(&self) -> (n: &'static str)
        ensures
            n@ == "unavailable"@,
    {
        "unavailable"
    }

    fn click(&mut self, button: MouseButton, press_duration_ms: u64) -> (r: Result<(), String>)
        ensures
            r matches Err(e) && e@ == old(self).reason@,
            *final(self) == *old(self),
    {
        Err(self.reason.clone())
    }
}

} // verus!
