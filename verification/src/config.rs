//! The persisted configuration: its types, its validation rules, the three
//! built-in slots, and the upgrade steps applied to a freshly loaded file.

use vstd::prelude::*;
use crate::text::{decimal, decimal_string, str_eq, eq_ignore_ascii_case, eq_ignore_ascii_case_spec};

verus! {

/// The application id used for desktop files, icons and the tray.
pub const APP_ID: &'static str = "io.github.autolon.Autolon";

/// The hotkey debounce of a new configuration, in milliseconds.
pub const DEFAULT_GLOBAL_HOTKEY_DEBOUNCE_MS: u64 = 160;

/// The smallest hotkey debounce that the settings window offers, in milliseconds.
pub const MIN_GLOBAL_HOTKEY_DEBOUNCE_MS: u64 = 1;

#[derive(Debug, Clone)]
pub struct Config {
    pub version: u32,
    pub hotkeys: Hotkeys,
    pub clicker: ClickerConfig,
    pub global_autoclicker_enabled: bool,
    pub display_global_mouse_overlay: bool,
    pub global_hotkey_debounce_ms: u64,
    pub backend: BackendPreference,
    pub slots: Slots,
}

#[derive(Debug, Clone)]
pub struct Hotkeys {
    pub cycle: String,
    pub stop: String,
}

#[derive(Debug, Clone)]
pub struct ClickerConfig {
    pub cycle_order: Vec<u8>,
    pub min_interval_ms: u64,
}

#[derive(Debug, Clone, Copy, PartialEq, Eq, Structural)]
pub enum BackendPreference {
    Auto,
    Uinput,
    X11,
}

#[derive(Debug, Clone)]
pub struct Slots {
    pub one: SlotConfig,
    pub two: SlotConfig,
    pub three: SlotConfig,
}

#[derive(Debug, Clone)]
pub struct SlotConfig {
    pub name: String,
    pub enabled: bool,
    pub button: MouseButton,
    pub interval_ms: u64,
    pub press_duration_ms: u64,
}

#[derive(Debug, Copy, Clone, PartialEq, Eq, Structural)]
pub enum MouseButton {
    Left,
    Middle,
    Right,
}

/// Why a configuration is rejected.
#[derive(Debug, Clone, Copy, PartialEq, Eq, Structural)]
pub enum ConfigError {
    UnsupportedVersion { version: u32 },
    MinIntervalTooSmall,
    IntervalBelowMinimum { slot_id: u8, interval_ms: u64, min_interval_ms: u64 },
    PressDurationZero { slot_id: u8 },
    PressDurationNotBelowInterval { slot_id: u8 },
    InvalidSlotId,
}

impl Default for BackendPreference {
    fn default() -> (b: Self)
        ensures
            b == BackendPreference::Auto,
    {
        BackendPreference::Auto
    }
}

/// A slot with the given fields and the left mouse button.
pub open spec fn is_left_slot(s: SlotConfig, name: Seq<char>, enabled: bool, interval_ms: u64, press_duration_ms: u64) -> bool {
    &&& s.name@ == name
    &&& s.enabled == enabled
    &&& s.button == MouseButton::Left
    &&& s.interval_ms == interval_ms
    &&& s.press_duration_ms == press_duration_ms
}

/// The built-in "Slow" slot: enabled, 500 ms interval, 25 ms press.
pub open spec fn is_default_slow_slot(s: SlotConfig) -> bool {
    is_left_slot(s, "Slow"@, true, 500, 25)
}

/// The built-in "Fast" slot: enabled, 10 ms interval, 1 ms press.
pub open spec fn is_default_fast_slot(s: SlotConfig) -> bool {
    is_left_slot(s, "Fast"@, true, 10, 1)
}

/// The built-in "User" slot: disabled, 1000 ms interval, 25 ms press.
pub open spec fn is_default_user_slot(s: SlotConfig) -> bool {
    is_left_slot(s, "User"@, false, 1000, 25)
}

/// The configuration written on first start.
pub open spec fn is_default_config(c: Config) -> bool {
    &&& c.version == 1
    &&& c.hotkeys.cycle@ == "F6"@
    &&& c.hotkeys.stop@ == "F7"@
    &&& c.clicker.cycle_order@ == seq![1u8, 2u8, 3u8]
    &&& c.clicker.min_interval_ms == 2
    &&& c.global_autoclicker_enabled
    &&& !c.display_global_mouse_overlay
    &&& c.global_hotkey_debounce_ms == DEFAULT_GLOBAL_HOTKEY_DEBOUNCE_MS
    &&& c.backend == BackendPreference::Auto
    &&& is_default_slow_slot(c.slots.one)
    &&& is_default_fast_slot(c.slots.two)
    &&& is_default_user_slot(c.slots.three)
}

pub fn default_fast_slot() -> (s: SlotConfig)
    ensures
        is_default_fast_slot(s),
{
    SlotConfig {
        name: String::from_str("Fast"),
        enabled: true,
        button: MouseButton::Left,
        interval_ms: 10,
        press_duration_ms: 1,
    }
}

pub fn default_slow_slot() -> (s: SlotConfig)
    ensures
        is_default_slow_slot(s),
{
    SlotConfig {
        name: String::from_str("Slow"),
        enabled: true,
        button: MouseButton::Left,
        interval_ms: 500,
        press_duration_ms: 25,
    }
}

pub fn default_user_slot() -> (s: SlotConfig)
    ensures
        is_default_user_slot(s),
{
    SlotConfig {
        name: String::from_str("User"),
        enabled: false,
        button: MouseButton::Left,
        interval_ms: 1000,
        press_duration_ms: 25,
    }
}

impl Default for SlotConfig {
    fn default() -> (s: Self)
        ensures
            is_default_user_slot(s),
    {
        default_user_slot()
    }
}

impl Default for Config {
    fn default() -> (c: Self)
        ensures
            is_default_config(c),
    {
        let mut order: Vec<u8> = Vec::new();
        order.push(1);
        order.push(2);
        order.push(3);
        let c = Config {
            version: 1,
            hotkeys: Hotkeys { cycle: String::from_str("F6"), stop: String::from_str("F7") },
            clicker: ClickerConfig { cycle_order: order, min_interval_ms: 2 },
            global_autoclicker_enabled: true,
            display_global_mouse_overlay: false,
            global_hotkey_debounce_ms: DEFAULT_GLOBAL_HOTKEY_DEBOUNCE_MS,
            backend: BackendPreference::Auto,
            slots: Slots { one: default_slow_slot(), two: default_fast_slot(), three: default_user_slot() },
        };
        assert(c.clicker.cycle_order@ =~= seq![1u8, 2u8, 3u8]);
        c
    }
}

/// Whether `slot_id` names one of the three slots.
pub open spec fn is_slot_id(slot_id: u8) -> bool {
    1 <= slot_id <= 3
}

/// The error that validation reports for one slot, if any.
pub open spec fn slot_error(c: Config, slot_id: u8) -> Option<ConfigError> {
    let s = c.spec_slot(slot_id);
    if s.interval_ms < c.clicker.min_interval_ms {
        Some(ConfigError::IntervalBelowMinimum {
            slot_id,
            interval_ms: s.interval_ms,
            min_interval_ms: c.clicker.min_interval_ms,
        })
    } else if s.press_duration_ms == 0 {
        Some(ConfigError::PressDurationZero { slot_id })
    } else if s.press_duration_ms >= s.interval_ms {
        Some(ConfigError::PressDurationNotBelowInterval { slot_id })
    } else {
        None
    }
}

/// The first rule that `c` breaks, checked in order: the version, the minimum
/// interval, then slots 1, 2 and 3.
pub open spec fn validation_error(c: Config) -> Option<ConfigError> {
    if c.version != 1 {
        Some(ConfigError::UnsupportedVersion { version: c.version })
    } else if c.clicker.min_interval_ms < 1 {
        Some(ConfigError::MinIntervalTooSmall)
    } else if slot_error(c, 1) is Some {
        slot_error(c, 1)
    } else if slot_error(c, 2) is Some {
        slot_error(c, 2)
    } else {
        slot_error(c, 3)
    }
}

/// A configuration that every rule accepts.
pub open spec fn is_valid(c: Config) -> bool {
    validation_error(c) is None
}

/// The text of a configuration error.
pub open spec fn config_error_text(e: ConfigError) -> Seq<char> {
    match e {
        ConfigError::UnsupportedVersion { version } =>
            "unsupported config version "@ + decimal(version as nat) + "; expected 1"@,
        ConfigError::MinIntervalTooSmall => "clicker.min_interval_ms must be at least 1"@,
        ConfigError::IntervalBelowMinimum { slot_id, interval_ms, min_interval_ms } =>
            "slot "@ + decimal(slot_id as nat) + " interval "@ + decimal(interval_ms as nat)
                + "ms is below minimum "@ + decimal(min_interval_ms as nat) + "ms"@,
        ConfigError::PressDurationZero { slot_id } =>
            "slot "@ + decimal(slot_id as nat) + " press_duration_ms must be at least 1"@,
        ConfigError::PressDurationNotBelowInterval { slot_id } =>
            "slot "@ + decimal(slot_id as nat) + " press_duration_ms must be less than interval_ms"@,
        ConfigError::InvalidSlotId => "slot id must be 1, 2, or 3"@,
    }
}

impl ConfigError {
    /// The message shown for this error.
    pub fn message(&self) -> (s: String)
        ensures
            s@ == config_error_text(*self),
    {
        match *self {
            ConfigError::UnsupportedVersion { version } => {
                let mut s = String::from_str("unsupported config version ");
                s.append(decimal_string(version as u64).as_str());
                s.append("; expected 1");
                s
            },
            ConfigError::MinIntervalTooSmall => String::from_str("clicker.min_interval_ms must be at least 1"),
            ConfigError::IntervalBelowMinimum { slot_id, interval_ms, min_interval_ms } => {
                let mut s = String::from_str("slot ");
                s.append(decimal_string(slot_id as u64).as_str());
                s.append(" interval ");
                s.append(decimal_string(interval_ms).as_str());
                s.append("ms is below minimum ");
                s.append(decimal_string(min_interval_ms).as_str());
                s.append("ms");
                s
            },
            ConfigError::PressDurationZero { slot_id } => {
                let mut s = String::from_str("slot ");
                s.append(decimal_string(slot_id as u64).as_str());
                s.append(" press_duration_ms must be at least 1");
                s
            },
            ConfigError::PressDurationNotBelowInterval { slot_id } => {
                let mut s = String::from_str("slot ");
                s.append(decimal_string(slot_id as u64).as_str());
                s.append(" press_duration_ms must be less than interval_ms");
                s
            },
            ConfigError::InvalidSlotId => String::from_str("slot id must be 1, 2, or 3"),
        }
    }
}

impl Config {
    /// The slot that `slot_id` names (slot 3 for any id other than 1 and 2).
    pub open spec fn spec_slot(self, slot_id: u8) -> SlotConfig {
        if slot_id == 1 {
            self.slots.one
        } else if slot_id == 2 {
            self.slots.two
        } else {
            self.slots.three
        }
    }

    /// Checks every rule of a loadable configuration and reports the first
    /// one broken.
    pub fn validate(&self) -> (r: Result<(), ConfigError>)
        ensures
            r is Ok <==> is_valid(*self),
            r matches Err(e) ==> validation_error(*self) == Some(e),
    {
        if self.version != 1 {
            return Err(ConfigError::UnsupportedVersion { version: self.version });
        }
        if self.clicker.min_interval_ms < 1 {
            return Err(ConfigError::MinIntervalTooSmall);
        }
        let mut slot_id: u8 = 1;
        while slot_id <= 3
            invariant
                1 <= slot_id <= 4,
                self.version == 1,
                self.clicker.min_interval_ms >= 1,
                forall|k: u8| 1 <= k < slot_id ==> slot_error(*self, k) is None,
            decreases 4 - slot_id,
        {
            let slot = match self.slot(slot_id) {
                Ok(s) => s,
                Err(e) => return Err(e),
            };
            if slot.interval_ms < self.clicker.min_interval_ms {
                return Err(ConfigError::IntervalBelowMinimum {
                    slot_id,
                    interval_ms: slot.interval_ms,
                    min_interval_ms: self.clicker.min_interval_ms,
                });
            }
            if slot.press_duration_ms == 0 {
                return Err(ConfigError::PressDurationZero { slot_id });
            }
            if slot.press_duration_ms >= slot.interval_ms {
                return Err(ConfigError::PressDurationNotBelowInterval { slot_id });
            }
            slot_id = slot_id + 1;
        }
        assert(slot_error(*self, 1) is None);
        assert(slot_error(*self, 2) is None);
        assert(slot_error(*self, 3) is None);
        Ok(())
    }

    /// The slot that `slot_id` names, or `InvalidSlotId` for ids other than 1, 2, 3.
    pub fn slot(&self, slot_id: u8) -> (r: Result<&SlotConfig, ConfigError>)
        ensures
            r is Ok <==> is_slot_id(slot_id),
            r matches Ok(s) ==> *s == self.spec_slot(slot_id),
            r matches Err(e) ==> e == ConfigError::InvalidSlotId,
    {
        match slot_id {
            1 => Ok(&self.slots.one),
            2 => Ok(&self.slots.two),
            3 => Ok(&self.slots.three),
            _ => Err(ConfigError::InvalidSlotId),
        }
    }
    /// `self` with the slot that `slot_id` names replaced by `s`.
    pub open spec fn with_slot(self, slot_id: u8, s: SlotConfig) -> Config {
        if slot_id == 1 {
            Config { slots: Slots { one: s, ..self.slots }, ..self }
        } else if slot_id == 2 {
            Config { slots: Slots { two: s, ..self.slots }, ..self }
        } else {
            Config { slots: Slots { three: s, ..self.slots }, ..self }
        }
    }

    /// Mutable access to the slot that `slot_id` names, or `InvalidSlotId`
    /// (leaving the configuration as it was) for ids other than 1, 2, 3.
    pub fn slot_mut(&mut self, slot_id: u8) -> (r: Result<&mut SlotConfig, ConfigError>)
        ensures
            r is Ok <==> is_slot_id(slot_id),
            r matches Ok(s) ==> *s == old(self).spec_slot(slot_id)
                && *final(self) == old(self).with_slot(slot_id, *final(s)),
            r matches Err(e) ==> e == ConfigError::InvalidSlotId && *final(self) == *old(self),
    {
        match slot_id {
            1 => Ok(&mut self.slots.one),
            2 => Ok(&mut self.slots.two),
            3 => Ok(&mut self.slots.three),
            _ => Err(ConfigError::InvalidSlotId),
        }
    }
    /// Brings a loaded version-1 file up to date: the cycle order becomes
    /// 1, 2, 3 and the minimum interval 2 ms; slots saved in the old two-slot
    /// layout ("Fast" first, "Slow" second) are swapped into place, and any
    /// other naming that is not "Slow", "Fast", "User" resets all three slots
    /// to their built-in settings. Returns whether the slots changed, in which
    /// case the file is to be written back.
    pub fn normalize_v1(&mut self) -> (save_needed: bool)
        ensures
            normalizes_to(*old(self), *final(self), save_needed),
    {
        let mut order: Vec<u8> = Vec::new();
        order.push(1);
        order.push(2);
        order.push(3);
        self.clicker.cycle_order = order;
        self.clicker.min_interval_ms = 2;
        assert(self.clicker.cycle_order@ =~= seq![1u8, 2u8, 3u8]);

        let old_two_slot_defaults = str_eq(self.slots.one.name.as_str(), "Fast")
            && str_eq(self.slots.two.name.as_str(), "Slow");
        let missing_new_names = !str_eq(self.slots.one.name.as_str(), "Slow")
            || !str_eq(self.slots.two.name.as_str(), "Fast")
            || !str_eq(self.slots.three.name.as_str(), "User");
        if old_two_slot_defaults {
            std::mem::swap(&mut self.slots.one, &mut self.slots.two);
            true
        } else if missing_new_names {
            self.slots.one = default_slow_slot();
            self.slots.two = default_fast_slot();
            self.slots.three = default_user_slot();
            true
        } else {
            false
        }
    }

    /// Replaces a stop hotkey of "Shift+F6" (in any ASCII case), the default of
    /// earlier releases, with "F7". Returns whether it did, in which case the
    /// file is to be written back.
    pub fn migrate_stop_hotkey(&mut self) -> (changed: bool)
        ensures
            changed == eq_ignore_ascii_case_spec(old(self).hotkeys.stop@, "Shift+F6"@),
            changed ==> final(self).hotkeys.stop@ == "F7"@,
            !changed ==> final(self).hotkeys.stop == old(self).hotkeys.stop,
            final(self).hotkeys.cycle == old(self).hotkeys.cycle,
            final(self).version == old(self).version,
            final(self).clicker == old(self).clicker,
            final(self).global_autoclicker_enabled == old(self).global_autoclicker_enabled,
            final(self).display_global_mouse_overlay == old(self).display_global_mouse_overlay,
            final(self).global_hotkey_debounce_ms == old(self).global_hotkey_debounce_ms,
            final(self).backend == old(self).backend,
            final(self).slots == old(self).slots,
    {
        if eq_ignore_ascii_case(self.hotkeys.stop.as_str(), "Shift+F6") {
            self.hotkeys.stop = String::from_str("F7");
            true
        } else {
            false
        }
    }
}

/// What `normalize_v1` makes of `old`: `new` keeps every field but the
/// cycle order (now 1, 2, 3), the minimum interval (now 2 ms) and the slots;
/// the slots of an old two-slot layout are swapped, a layout without the
/// current names is replaced by the built-in slots, and any other is kept;
/// `save_needed` tells whether the slots changed.
pub open spec fn normalizes_to(old: Config, new: Config, save_needed: bool) -> bool {
    &&& new.version == old.version
    &&& new.hotkeys == old.hotkeys
    &&& new.global_autoclicker_enabled == old.global_autoclicker_enabled
    &&& new.display_global_mouse_overlay == old.display_global_mouse_overlay
    &&& new.global_hotkey_debounce_ms == old.global_hotkey_debounce_ms
    &&& new.backend == old.backend
    &&& new.clicker.cycle_order@ == seq![1u8, 2u8, 3u8]
    &&& new.clicker.min_interval_ms == 2
    &&& save_needed == (has_old_two_slot_names(old) || !has_current_slot_names(old))
    &&& has_old_two_slot_names(old) ==> {
        &&& new.slots.one == old.slots.two
        &&& new.slots.two == old.slots.one
        &&& new.slots.three == old.slots.three
    }
    &&& !has_old_two_slot_names(old) && !has_current_slot_names(old) ==> {
        &&& is_default_slow_slot(new.slots.one)
        &&& is_default_fast_slot(new.slots.two)
        &&& is_default_user_slot(new.slots.three)
    }
    &&& !save_needed ==> new.slots == old.slots
}

/// Normalising a configuration that normalisation produced changes nothing
/// more: no second save, the same slots. (An old two-slot layout whose third
/// slot is not named "User" is the exception: its first pass swaps the
/// slots, and the second resets them.)
pub proof fn law_normalize_settles(a: Config, b: Config, c: Config, first: bool, second: bool)
    requires
        normalizes_to(a, b, first),
        normalizes_to(b, c, second),
        has_old_two_slot_names(a) ==> a.slots.three.name@ == "User"@,
    ensures
        !second,
        c.slots == b.slots,
        c.clicker.min_interval_ms == b.clicker.min_interval_ms,
        c.clicker.cycle_order@ == b.clicker.cycle_order@,
{
    reveal_strlit("Slow");
    reveal_strlit("Fast");
    assert("Slow"@ != "Fast"@) by {
        assert("Slow"@[0] != "Fast"@[0]);
    }
    assert(has_current_slot_names(b));
}

/// Normalising a loaded configuration keeps every setting other than the
/// cycle order, the minimum interval and the slots exactly as loaded (the
/// version, both hotkeys, the global-autoclicker flag, the overlay switch,
/// the debounce and the backend), and it never changes the slots of a file
/// that already has the current names and is not in the old layout.
pub proof fn law_normalize_keeps_other_settings(loaded: Config, normalized: Config, save_needed: bool)
    requires
        normalizes_to(loaded, normalized, save_needed),
    ensures
        normalized.version == loaded.version,
        normalized.hotkeys.cycle@ == loaded.hotkeys.cycle@,
        normalized.hotkeys.stop@ == loaded.hotkeys.stop@,
        normalized.global_autoclicker_enabled == loaded.global_autoclicker_enabled,
        normalized.display_global_mouse_overlay == loaded.display_global_mouse_overlay,
        normalized.global_hotkey_debounce_ms == loaded.global_hotkey_debounce_ms,
        normalized.backend == loaded.backend,
        has_current_slot_names(loaded) ==> !save_needed && normalized.slots == loaded.slots,
{
    reveal_strlit("Slow");
    reveal_strlit("Fast");
    assert("Slow"@ != "Fast"@) by {
        assert("Slow"@[0] != "Fast"@[0]);
    }
}

/// Slot names as the old two-slot layout saved them: "Fast" first, "Slow" second.
pub open spec fn has_old_two_slot_names(c: Config) -> bool {
    c.slots.one.name@ == "Fast"@ && c.slots.two.name@ == "Slow"@
}

/// Slot names as the current layout has them: "Slow", "Fast", "User".
pub open spec fn has_current_slot_names(c: Config) -> bool {
    &&& c.slots.one.name@ == "Slow"@
    &&& c.slots.two.name@ == "Fast"@
    &&& c.slots.three.name@ == "User"@
}

/// The configuration written on first start passes validation.
pub proof fn law_default_config_is_valid(c: Config)
    requires
        is_default_config(c),
    ensures
        is_valid(c),
{
}

} // verus!
