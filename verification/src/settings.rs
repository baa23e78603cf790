//! Values of the settings file, as far as the app reads them, and what holds
//! where one is missing.

use vstd::prelude::*;

use crate::hotkey_binding::{dictation_error, repaste_error};
use crate::hotkey_binding::{DictationBinding, HotkeyModifier, RepasteBinding};
use crate::text::{same_text, trimmed, white_space};

verus! {

/// Name of the setting for the pause before a paste, in milliseconds.
pub const KEY_PASTE_DELAY_MS: &'static str = "paste.delay_ms";

/// Name of the setting for starting the app at login.
pub const KEY_GENERAL_LAUNCH_AT_LOGIN: &'static str = "general.launch_at_login";

/// Name of the setting for how long the history is kept, in days.
pub const KEY_HISTORY_RETENTION_DAYS: &'static str = "history.retention_days";

/// The pause before a paste, unless it is set, in milliseconds.
pub const DEFAULT_PASTE_DELAY_MS: u64 = 50;

/// How long the history is kept, unless it is set, in days.
pub const DEFAULT_RETENTION_DAYS: u32 = 30;

/// A stored value.
#[derive(Debug, Clone, Copy, PartialEq, Eq, Structural)]
pub enum SettingValue {
    Null,
    Bool(bool),
    /// A whole number from zero up.
    Number(u64),
    /// Anything else.
    Other,
}

impl SettingValue {
    /// The truth value, if it is one.
    pub fn as_bool(&self) -> (value: Option<bool>)
        ensures
            value == match self {
                SettingValue::Bool(b) => Some(*b),
                _ => None,
            },
    {
        match self {
            SettingValue::Bool(b) => Some(*b),
            _ => None,
        }
    }

    /// The number, if it is one.
    pub fn as_u64(&self) -> (value: Option<u64>)
        ensures
            value == match self {
                SettingValue::Number(n) => Some(*n),
                _ => None,
            },
    {
        match self {
            SettingValue::Number(n) => Some(*n),
            _ => None,
        }
    }
}

/// The stored truth value, or `default` where none is stored.
pub open spec fn flag_or(stored: Option<SettingValue>, default: bool) -> bool {
    match stored {
        Some(SettingValue::Bool(b)) => b,
        _ => default,
    }
}

/// The stored number, or `default` where none is stored.
pub open spec fn number_or(stored: Option<SettingValue>, default: int) -> int {
    match stored {
        Some(SettingValue::Number(n)) => n as int,
        _ => default,
    }
}

/// The stored truth value, or `default` where none is stored.
pub fn read_flag(stored: Option<SettingValue>, default: bool) -> (value: bool)
    ensures
        value == flag_or(stored, default),
{
    match stored {
        Some(value) => match value.as_bool() {
            Some(b) => b,
            None => default,
        },
        None => default,
    }
}

/// What a setting is before the user changes it.
pub fn default_for(key: &str) -> (value: Option<SettingValue>)
    ensures
        value == if key@ == KEY_PASTE_DELAY_MS@ {
            Some(SettingValue::Number(DEFAULT_PASTE_DELAY_MS))
        } else if key@ == KEY_GENERAL_LAUNCH_AT_LOGIN@ {
            Some(SettingValue::Bool(false))
        } else {
            None
        },
{
    if same_text(key, KEY_PASTE_DELAY_MS) {
        Some(SettingValue::Number(DEFAULT_PASTE_DELAY_MS))
    } else if same_text(key, KEY_GENERAL_LAUNCH_AT_LOGIN) {
        Some(SettingValue::Bool(false))
    } else {
        None
    }
}

/// The pause before a paste.
pub fn resolve_paste_delay_ms(stored: Option<SettingValue>) -> (ms: u64)
    ensures
        ms == number_or(stored, DEFAULT_PASTE_DELAY_MS as int),
{
    let default: u64 = match default_for(KEY_PASTE_DELAY_MS) {
        Some(value) => match value.as_u64() {
            Some(n) => n,
            None => DEFAULT_PASTE_DELAY_MS,
        },
        None => DEFAULT_PASTE_DELAY_MS,
    };
    match stored {
        Some(value) => match value.as_u64() {
            Some(n) => n,
            None => default,
        },
        None => default,
    }
}

/// Whether the app is to start at login. Where nothing usable is stored it is
/// not, so that a damaged file never switches it on.
pub fn resolve_launch_at_login_pref(stored: Option<SettingValue>) -> (enabled: bool)
    ensures
        enabled == flag_or(stored, false),
{
    let default = match default_for(KEY_GENERAL_LAUNCH_AT_LOGIN) {
        Some(value) => match value.as_bool() {
            Some(b) => b,
            None => false,
        },
        None => false,
    };
    proof {
        reveal_strlit("paste.delay_ms");
        reveal_strlit("general.launch_at_login");
        assert(KEY_PASTE_DELAY_MS@.len() != KEY_GENERAL_LAUNCH_AT_LOGIN@.len());
    }
    read_flag(stored, default)
}

/// How many days the history is kept. Of a number beyond 32 bits the low ones
/// count.
pub fn read_retention_days(stored: Option<SettingValue>) -> (days: u32)
    ensures
        days == number_or(stored, DEFAULT_RETENTION_DAYS as int) % 0x1_0000_0000,
{
    match stored {
        Some(value) => match value.as_u64() {
            Some(n) => {
                assert(n as u32 == n % 0x1_0000_0000) by (bit_vector);
                #[verifier::truncate] (n as u32)
            },
            None => DEFAULT_RETENTION_DAYS,
        },
        None => DEFAULT_RETENTION_DAYS,
    }
}

/// A stored value that should have a shape of its own.
#[derive(Debug, Clone, PartialEq, Eq)]
pub enum Stored<T> {
    /// Nothing was ever stored.
    Absent,
    /// It was cleared.
    Null,
    /// What is stored does not have the shape.
    Malformed,
    /// It has the shape.
    Value(T),
}

/// The re-paste binding to use: the one that the app ships with if none was
/// ever stored, and none at all if it was cleared or cannot be used.
pub fn resolve_repaste_binding(stored: Stored<RepasteBinding>) -> (binding: Option<RepasteBinding>)
    ensures
        match stored {
            Stored::Absent => binding matches Some(binding) && binding.mods@ == seq![
                HotkeyModifier::Control,
                HotkeyModifier::Command,
            ] && binding.key@ == "KeyV"@ && binding.display_key is None,
            Stored::Value(value) => binding == if repaste_error(
                value.mods@.to_set(),
                value.key@,
            ) is None {
                Some(value)
            } else {
                None
            },
            _ => binding is None,
        },
        binding matches Some(binding) ==> repaste_error(binding.mods@.to_set(), binding.key@)
            is None,
{
    match stored {
        Stored::Absent => {
            let binding = RepasteBinding::default_repaste();
            proof {
                default_repaste_is_accepted(binding);
            }
            Some(binding)
        },
        Stored::Null => None,
        Stored::Malformed => None,
        Stored::Value(value) => {
            if value.validate().is_ok() {
                Some(value)
            } else {
                None
            }
        },
    }
}

/// Whether a stored re-paste binding is there, but cannot be used.
pub open spec fn repaste_heals(stored: Stored<RepasteBinding>) -> bool {
    match stored {
        Stored::Absent => false,
        Stored::Null => false,
        Stored::Malformed => true,
        Stored::Value(value) => repaste_error(value.mods@.to_set(), value.key@) is Some,
    }
}

/// Whether the stored re-paste binding is to be cleared, so that what is shown
/// is what is used: it is there, but cannot be used.
pub fn repaste_needs_heal(stored: &Stored<RepasteBinding>) -> (heal: bool)
    ensures
        heal == repaste_heals(*stored),
{
    match stored {
        Stored::Absent => false,
        Stored::Null => false,
        Stored::Malformed => true,
        Stored::Value(value) => value.validate().is_err(),
    }
}

/// Whether `binding` is the dictation binding to use, and `heal` tells whether it
/// is to be stored in place of what is there.
pub open spec fn dictation_resolves(
    stored: Stored<DictationBinding>,
    binding: DictationBinding,
    heal: bool,
) -> bool {
    match stored {
        Stored::Value(value) => if dictation_error(
            value.modifiers().to_set(),
            value.key_code(),
        ) is None {
            binding == value && !heal
        } else {
            is_default_dictation(binding) && heal
        },
        _ => is_default_dictation(binding) && !heal,
    }
}

/// The dictation binding to use, and whether it is to be stored in place of
/// what is there. Anything unusable gives way to the binding that the app
/// ships with; one that has the shape but breaks a rule is also replaced.
pub fn resolve_dictation_binding(stored: Stored<DictationBinding>) -> (resolved: (
    DictationBinding,
    bool,
))
    ensures
        dictation_resolves(stored, resolved.0, resolved.1),
        dictation_error(resolved.0.modifiers().to_set(), resolved.0.key_code()) is None,
{
    let default = DictationBinding::default_dictation();
    proof {
        default_dictation_is_accepted(default);
    }
    match stored {
        Stored::Value(value) => {
            if value.validate().is_ok() {
                (value, false)
            } else {
                (default, true)
            }
        },
        _ => (default, false),
    }
}

/// Whether `binding` is the one that the app ships with: Control+Option.
pub open spec fn is_default_dictation(binding: DictationBinding) -> bool {
    &&& binding.modifiers() == seq![HotkeyModifier::Control, HotkeyModifier::Option]
    &&& binding.key_code() is None
    &&& binding.typed_key() is None
}

/// The dictation binding that the app ships with breaks no rule.
pub proof fn default_dictation_is_accepted(binding: DictationBinding)
    requires
        is_default_dictation(binding),
    ensures
        dictation_error(binding.modifiers().to_set(), binding.key_code()) is None,
{
    let mods = binding.modifiers();
    assert(mods.no_duplicates());
    mods.unique_seq_to_set();
}

/// The dictation binding that is in use, once stored, is the one that is used
/// from then on, and is not replaced again.
pub proof fn healing_dictation_once_is_enough(
    stored: Stored<DictationBinding>,
    binding: DictationBinding,
    heal: bool,
)
    requires
        dictation_resolves(stored, binding, heal),
    ensures
        forall|next: DictationBinding, again: bool| #[trigger]
            dictation_resolves(Stored::Value(binding), next, again) <==> next == binding && !again,
{
    if is_default_dictation(binding) {
        default_dictation_is_accepted(binding);
    }
}

/// The re-paste binding that the app ships with breaks no rule.
pub proof fn default_repaste_is_accepted(binding: RepasteBinding)
    requires
        binding.mods@ == seq![HotkeyModifier::Control, HotkeyModifier::Command],
        binding.key@ == "KeyV"@,
    ensures
        repaste_error(binding.mods@.to_set(), binding.key@) is None,
{
    reveal_strlit("KeyV");
    reveal_strlit("Key");
    let mods = binding.mods@.to_set();
    assert(binding.mods@[0] == HotkeyModifier::Control);
    assert(mods.contains(HotkeyModifier::Control));
    assert("Key"@ =~= "KeyV"@.subrange(0, 3));
    assert("Key"@.is_prefix_of("KeyV"@));
    assert(!white_space('K') && !white_space('V'));
    assert(trimmed("KeyV"@) == "KeyV"@);
    assert(!set![HotkeyModifier::Command].contains(HotkeyModifier::Control));
    assert(!set![HotkeyModifier::Command, HotkeyModifier::Shift].contains(
        HotkeyModifier::Control,
    ));
}

/// A stored truth value counts as it is, and a stored number too; anything else
/// gives way to the default.
pub proof fn only_fitting_values_count(stored: Option<SettingValue>, flag: bool, number: int)
    ensures
        stored == Some(SettingValue::Bool(true)) ==> flag_or(stored, flag),
        stored == Some(SettingValue::Bool(false)) ==> !flag_or(stored, flag),
        !(stored matches Some(value) && value is Bool) ==> flag_or(stored, flag) == flag,
        stored matches Some(SettingValue::Number(n)) ==> number_or(stored, number) == n,
        !(stored matches Some(value) && value is Number) ==> number_or(stored, number) == number,
{
}

/// A stored dictation binding that breaks no rule is used as it is. In any other
/// case it is Control and Option, and this is stored exactly where a binding that
/// breaks a rule was.
pub proof fn usable_dictation_bindings_are_used(
    stored: Stored<DictationBinding>,
    binding: DictationBinding,
    heal: bool,
)
    requires
        dictation_resolves(stored, binding, heal),
    ensures
        stored matches Stored::Value(value) ==> {
            let fault = dictation_error(value.modifiers().to_set(), value.key_code());
            &&& fault is None ==> binding == value && !heal
            &&& fault is Some ==> heal
        },
        !(stored is Value) ==> !heal,
        !(stored is Value) || heal ==> {
            &&& binding.modifiers() == seq![HotkeyModifier::Control, HotkeyModifier::Option]
            &&& binding.key_code() is None
            &&& binding.typed_key() is None
        },
{
}

/// A stored re-paste binding is cleared exactly if it is there and cannot be used;
/// what is used is the stored one if it can be, Control, Command and V if none was
/// ever stored, and none in any other case.
pub proof fn unusable_repaste_bindings_are_cleared(
    stored: Stored<RepasteBinding>,
    heal: bool,
    binding: Option<RepasteBinding>,
)
    requires
        repaste_needs_heal.ensures((&stored,), heal),
        resolve_repaste_binding.ensures((stored,), binding),
    ensures
        heal ==> binding is None,
        stored is Absent ==> !heal && binding is Some && binding->0.mods@ == seq![
            HotkeyModifier::Control,
            HotkeyModifier::Command,
        ] && binding->0.key@ == "KeyV"@,
        stored is Null ==> !heal && binding is None,
        stored is Malformed ==> heal,
        stored matches Stored::Value(value) ==> {
            let fault = repaste_error(value.mods@.to_set(), value.key@);
            &&& heal <==> fault is Some
            &&& fault is None ==> binding == Some(value)
        },
{
}

/// The defaults: 50 milliseconds of pause, no start at login, 30 days of history.
pub proof fn defaults_of_the_settings(
    stored: Option<SettingValue>,
    pause: u64,
    login: bool,
    days: u32,
)
    requires
        resolve_paste_delay_ms.ensures((stored,), pause),
        resolve_launch_at_login_pref.ensures((stored,), login),
        read_retention_days.ensures((stored,), days),
    ensures
        stored matches Some(SettingValue::Number(n)) ==> pause == n && days == n % 0x1_0000_0000,
        !(stored matches Some(value) && value is Number) ==> pause == 50 && days == 30,
        login <==> stored == Some(SettingValue::Bool(true)),
{
}

} // verus!
