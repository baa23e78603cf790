//! What is stored, and what holds where nothing is.

use muni::hotkey_binding::{DictationBinding, HotkeyModifier, RepasteBinding};
use muni::settings::{
    default_for, read_flag, read_retention_days, repaste_needs_heal, resolve_dictation_binding,
    resolve_launch_at_login_pref, resolve_paste_delay_ms, resolve_repaste_binding, SettingValue,
    Stored, KEY_GENERAL_LAUNCH_AT_LOGIN,
};

fn repaste(mods: Vec<HotkeyModifier>, key: &str) -> RepasteBinding {
    RepasteBinding { mods, key: key.to_string(), display_key: None }
}

#[test]
fn resolve_repaste_binding_absent_key_uses_enabled_default() {
    assert_eq!(
        resolve_repaste_binding(Stored::Absent),
        Some(RepasteBinding::default_repaste()),
        "an absent re-paste key must fall back to the enabled Ctrl+Cmd+V default"
    );
    assert_eq!(
        resolve_repaste_binding(Stored::Null),
        None,
        "a stored JSON null is clear-to-disable and must stay disabled"
    );
    let custom = RepasteBinding::default_repaste();
    assert_eq!(resolve_repaste_binding(Stored::Value(custom.clone())), Some(custom));
    assert_eq!(
        resolve_repaste_binding(Stored::Malformed),
        None,
        "a malformed stored value degrades to disabled, never a panic"
    );
}

#[test]
fn resolve_repaste_binding_invalid_binding_disables() {
    let bare_key = repaste(vec![], "KeyA");
    assert_eq!(
        resolve_repaste_binding(Stored::Value(bare_key)),
        None,
        "a structurally invalid stored binding must resolve to disabled"
    );
    let cmd_v = repaste(vec![HotkeyModifier::Command], "KeyV");
    assert_eq!(resolve_repaste_binding(Stored::Value(cmd_v)), None);
    let ok = repaste(vec![HotkeyModifier::Control, HotkeyModifier::Command], "KeyV");
    assert_eq!(
        resolve_repaste_binding(Stored::Value(ok)),
        Some(RepasteBinding::default_repaste())
    );
}

#[test]
fn launch_at_login_pref_falls_back_to_settings_default() {
    let want = default_for(KEY_GENERAL_LAUNCH_AT_LOGIN)
        .and_then(|v| v.as_bool())
        .expect("KEY_GENERAL_LAUNCH_AT_LOGIN has a bool default");

    assert_eq!(resolve_launch_at_login_pref(None), want);
    assert_eq!(resolve_launch_at_login_pref(Some(SettingValue::Other)), want);
    assert!(resolve_launch_at_login_pref(Some(SettingValue::Bool(true))));
    assert!(!resolve_launch_at_login_pref(Some(SettingValue::Bool(false))));
}

#[test]
fn a_rejected_binding_is_healed() {
    assert!(!repaste_needs_heal(&Stored::Absent));
    assert!(!repaste_needs_heal(&Stored::Null));
    assert!(!repaste_needs_heal(&Stored::Value(RepasteBinding::default_repaste())));
    assert!(repaste_needs_heal(&Stored::Value(repaste(vec![], "KeyA"))));
}

#[test]
fn dictation_always_has_a_binding() {
    let shipped = DictationBinding::default_dictation();
    assert_eq!(resolve_dictation_binding(Stored::Absent), (shipped.clone(), false));
    let keyed = DictationBinding::Modifiers {
        mods: vec![HotkeyModifier::Control],
        key: Some("KeyR".to_string()),
        display_key: None,
    };
    assert_eq!(resolve_dictation_binding(Stored::Value(keyed.clone())), (keyed, false));
    let weak = DictationBinding::Modifiers {
        mods: vec![HotkeyModifier::Control],
        key: None,
        display_key: None,
    };
    assert_eq!(resolve_dictation_binding(Stored::Value(weak)), (shipped, true));
}

#[test]
fn numbers_and_flags_fall_back() {
    assert_eq!(resolve_paste_delay_ms(None), 50);
    assert_eq!(resolve_paste_delay_ms(Some(SettingValue::Number(75))), 75);
    assert_eq!(resolve_paste_delay_ms(Some(SettingValue::Bool(true))), 50);
    assert_eq!(read_retention_days(None), 30);
    assert_eq!(read_retention_days(Some(SettingValue::Number(7))), 7);
    assert_eq!(read_retention_days(Some(SettingValue::Number(4_294_967_295))), u32::MAX);
    assert_eq!(read_retention_days(Some(SettingValue::Number(4_294_967_296))), 0);
    assert_eq!(read_retention_days(Some(SettingValue::Number(4_294_967_303))), 7);
    assert!(read_flag(Some(SettingValue::Null), true));
    assert!(!read_flag(Some(SettingValue::Bool(false)), true));
    assert_eq!(default_for("no.such.key"), None);
}

#[test]
fn healing_once_is_enough() {
    for stored in [
        Stored::Absent,
        Stored::Null,
        Stored::Malformed,
        Stored::Value(DictationBinding::Modifiers { mods: vec![], key: None, display_key: None }),
    ] {
        let (binding, _) = resolve_dictation_binding(stored);
        let again = resolve_dictation_binding(Stored::Value(binding.clone()));
        assert_eq!(again, (binding, false));
    }
}
