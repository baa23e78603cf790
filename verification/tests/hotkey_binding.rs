//! The hotkey bindings: what is accepted, and how a binding is written.

use global_hotkey::hotkey::HotKey;
use muni::hotkey_binding::{
    accelerator_of, distinct_mod_count, is_allowed_anchor_key, key_symbol, modifiers_is_subset,
    modifiers_set_eq, ordered_mods, validate_pair, BindingError, DictationBinding, HotkeyModifier,
    RepasteBinding, CG_FLAG_ALTERNATE, CG_FLAG_COMMAND, CG_FLAG_CONTROL, CG_FLAG_SECONDARY_FN,
    CG_FLAG_SHIFT,
};
use std::str::FromStr;

/// A flag that a keyboard sets beside the modifiers.
const NUMERIC_PAD: u64 = 0x0020_0000;

#[test]
fn dictation_modifiers_requires_at_least_two() {
    let one = DictationBinding::Modifiers {
        mods: vec![HotkeyModifier::Control],
        key: None,
        display_key: None,
    };
    assert_eq!(one.validate(), Err(BindingError::TooFewModifiers));

    let two = DictationBinding::Modifiers {
        mods: vec![HotkeyModifier::Control, HotkeyModifier::Option],
        key: None,
        display_key: None,
    };
    assert_eq!(two.validate(), Ok(()));
}

#[test]
fn dictation_shift_inclusive_modifier_chord_is_now_allowed() {
    let shift_chord = DictationBinding::Modifiers {
        mods: vec![HotkeyModifier::Control, HotkeyModifier::Shift],
        key: None,
        display_key: None,
    };
    assert_eq!(shift_chord.validate(), Ok(()));

    let shift_repaste = RepasteBinding {
        mods: vec![HotkeyModifier::Control, HotkeyModifier::Shift],
        key: "KeyR".to_string(),
        display_key: None,
    };
    assert_eq!(shift_repaste.validate(), Ok(()));
}

#[test]
fn dictation_keyed_validates_with_one_modifier_and_key() {
    let keyed = DictationBinding::Modifiers {
        mods: vec![HotkeyModifier::Control],
        key: Some("KeyR".to_string()),
        display_key: None,
    };
    assert_eq!(keyed.validate(), Ok(()));
}

#[test]
fn dictation_bare_key_is_rejected() {
    let bare = DictationBinding::Modifiers {
        mods: vec![],
        key: Some("KeyR".to_string()),
        display_key: None,
    };
    assert_eq!(bare.validate(), Err(BindingError::MissingModifier));
}

#[test]
fn repaste_rejects_empty_key_and_zero_modifiers() {
    let empty_key = RepasteBinding {
        mods: vec![HotkeyModifier::Control, HotkeyModifier::Command],
        key: "   ".to_string(),
        display_key: None,
    };
    assert_eq!(empty_key.validate(), Err(BindingError::MissingKey));

    let no_mods = RepasteBinding {
        mods: vec![],
        key: "KeyV".to_string(),
        display_key: None,
    };
    assert_eq!(no_mods.validate(), Err(BindingError::MissingModifier));

    assert_eq!(RepasteBinding::default_repaste().validate(), Ok(()));
}

#[test]
fn required_flags_mask_ors_the_modifier_bits() {
    let binding = DictationBinding::Modifiers {
        mods: vec![HotkeyModifier::Control, HotkeyModifier::Option],
        key: None,
        display_key: None,
    };
    let expected =
        CG_FLAG_CONTROL | CG_FLAG_ALTERNATE;
    assert_eq!(binding.required_flags_mask(), expected);
}

#[test]
fn required_flags_mask_uses_subset_semantics() {
    let binding = DictationBinding::Modifiers {
        mods: vec![HotkeyModifier::Control, HotkeyModifier::Option],
        key: None,
        display_key: None,
    };
    let mask = binding.required_flags_mask();

    let live_exact = mask;
    let live_with_transient = mask | NUMERIC_PAD;
    let live_missing = CG_FLAG_CONTROL;

    assert_eq!(live_exact & mask, mask);
    assert_eq!(live_with_transient & mask, mask);
    assert_ne!(live_missing & mask, mask);
}

#[test]
fn accelerator_matches_plugin_grammar() {
    assert_eq!(
        RepasteBinding::default_repaste().accelerator(),
        "Control+Command+KeyV"
    );
}

#[test]
fn accelerator_round_trips_through_the_plugin_parser() {
    let accelerator = RepasteBinding::default_repaste().accelerator();
    assert!(
        HotKey::from_str(&accelerator).is_ok(),
        "accelerator '{accelerator}' must parse"
    );
}

#[test]
fn labels_render_expected_glyphs() {
    let dictation = DictationBinding::Modifiers {
        mods: vec![HotkeyModifier::Control, HotkeyModifier::Option],
        key: None,
        display_key: None,
    };
    assert_eq!(dictation.label(), "⌃⌥");

    assert_eq!(RepasteBinding::default_repaste().label(), "⌃⌘V");
}

#[test]
fn keyed_dictation_label_and_accelerator() {
    let keyed = DictationBinding::Modifiers {
        mods: vec![HotkeyModifier::Control, HotkeyModifier::Shift],
        key: Some("KeyR".to_string()),
        display_key: None,
    };
    assert_eq!(keyed.label(), "⌃⇧R");
    assert_eq!(keyed.accelerator(), Some("Control+Shift+KeyR".to_string()));
}

#[test]
fn modifier_only_dictation_has_no_accelerator() {
    let modifier_only = DictationBinding::default_dictation();
    assert_eq!(modifier_only.key(), None);
    assert_eq!(modifier_only.accelerator(), None);
}

#[test]
fn labels_and_accelerators_render_in_canonical_order() {
    let dictation = DictationBinding::Modifiers {
        mods: vec![HotkeyModifier::Command, HotkeyModifier::Control],
        key: None,
        display_key: None,
    };
    assert_eq!(dictation.label(), "⌃⌘");

    let repaste = RepasteBinding {
        mods: vec![
            HotkeyModifier::Command,
            HotkeyModifier::Shift,
            HotkeyModifier::Control,
        ],
        key: "KeyR".to_string(),
        display_key: None,
    };
    assert_eq!(repaste.label(), "⌃⇧⌘R");
    assert_eq!(repaste.accelerator(), "Control+Shift+Command+KeyR");
}

#[test]
fn validate_pair_rejects_identical_chord() {
    let dictation = DictationBinding::Modifiers {
        mods: vec![HotkeyModifier::Control, HotkeyModifier::Command],
        key: None,
        display_key: None,
    };
    let repaste = RepasteBinding {
        mods: vec![HotkeyModifier::Command, HotkeyModifier::Control],
        key: "KeyV".to_string(),
        display_key: None,
    };
    assert_eq!(
        validate_pair(&dictation, Some(&repaste)),
        Err(BindingError::Conflict)
    );
}

#[test]
fn validate_pair_keyed_dictation_allows_different_key() {
    let dictation = DictationBinding::Modifiers {
        mods: vec![HotkeyModifier::Control, HotkeyModifier::Command],
        key: Some("KeyR".to_string()),
        display_key: None,
    };
    let repaste = RepasteBinding {
        mods: vec![HotkeyModifier::Control, HotkeyModifier::Command],
        key: "KeyV".to_string(),
        display_key: None,
    };
    assert_eq!(validate_pair(&dictation, Some(&repaste)), Ok(()));
}

#[test]
fn validate_pair_keyed_dictation_rejects_identical_accelerator() {
    let dictation = DictationBinding::Modifiers {
        mods: vec![HotkeyModifier::Control, HotkeyModifier::Command],
        key: Some("KeyV".to_string()),
        display_key: None,
    };
    let repaste = RepasteBinding {
        mods: vec![HotkeyModifier::Command, HotkeyModifier::Control],
        key: "KeyV".to_string(),
        display_key: None,
    };
    assert_eq!(
        validate_pair(&dictation, Some(&repaste)),
        Err(BindingError::Conflict)
    );
}

#[test]
fn validate_pair_accepts_the_shipped_defaults() {
    assert_eq!(
        validate_pair(
            &DictationBinding::default_dictation(),
            Some(&RepasteBinding::default_repaste())
        ),
        Ok(())
    );
}

#[test]
fn validate_pair_allows_disabled_repaste() {
    assert_eq!(
        validate_pair(&DictationBinding::default_dictation(), None),
        Ok(())
    );
}

#[test]
fn validate_pair_rejects_repaste_superset_of_modifier_only_dictation() {
    let dictation = DictationBinding::Modifiers {
        mods: vec![HotkeyModifier::Control, HotkeyModifier::Option],
        key: None,
        display_key: None,
    };
    let repaste = RepasteBinding {
        mods: vec![
            HotkeyModifier::Control,
            HotkeyModifier::Option,
            HotkeyModifier::Command,
        ],
        key: "KeyR".to_string(),
        display_key: None,
    };
    assert_eq!(
        validate_pair(&dictation, Some(&repaste)),
        Err(BindingError::SupersetTripsDictation)
    );
}

#[test]
fn validate_pair_allows_repaste_disjoint_modifiers() {
    let dictation = DictationBinding::Modifiers {
        mods: vec![HotkeyModifier::Control, HotkeyModifier::Option],
        key: None,
        display_key: None,
    };
    let repaste = RepasteBinding {
        mods: vec![HotkeyModifier::Command, HotkeyModifier::Shift],
        key: "KeyR".to_string(),
        display_key: None,
    };
    assert_eq!(validate_pair(&dictation, Some(&repaste)), Ok(()));
}

#[test]
fn validate_pair_keyed_dictation_ignores_superset_rule() {
    let dictation = DictationBinding::Modifiers {
        mods: vec![HotkeyModifier::Control, HotkeyModifier::Option],
        key: Some("KeyD".to_string()),
        display_key: None,
    };
    let repaste = RepasteBinding {
        mods: vec![
            HotkeyModifier::Control,
            HotkeyModifier::Option,
            HotkeyModifier::Command,
        ],
        key: "KeyR".to_string(),
        display_key: None,
    };
    assert_eq!(validate_pair(&dictation, Some(&repaste)), Ok(()));
}

#[test]
fn reserved_paste_combos_are_rejected() {
    let repaste_cmd_v = RepasteBinding {
        mods: vec![HotkeyModifier::Command],
        key: "KeyV".to_string(),
        display_key: None,
    };
    assert_eq!(
        repaste_cmd_v.validate(),
        Err(BindingError::ReservedForPaste)
    );
    let dictation_cmd_v = DictationBinding::Modifiers {
        mods: vec![HotkeyModifier::Command],
        key: Some("KeyV".to_string()),
        display_key: None,
    };
    assert_eq!(
        dictation_cmd_v.validate(),
        Err(BindingError::ReservedForPaste)
    );

    let repaste_cmd_shift_v = RepasteBinding {
        mods: vec![HotkeyModifier::Command, HotkeyModifier::Shift],
        key: "KeyV".to_string(),
        display_key: None,
    };
    assert_eq!(
        repaste_cmd_shift_v.validate(),
        Err(BindingError::ReservedForPaste)
    );
}

#[test]
fn default_repaste_ctrl_cmd_v_is_not_reserved() {
    assert_eq!(RepasteBinding::default_repaste().validate(), Ok(()));
    let cmd_c = RepasteBinding {
        mods: vec![HotkeyModifier::Command],
        key: "KeyC".to_string(),
        display_key: None,
    };
    assert_eq!(cmd_c.validate(), Ok(()));
}

#[test]
fn keyed_binding_rejects_shift_or_option_alone() {
    let shift_only = RepasteBinding {
        mods: vec![HotkeyModifier::Shift],
        key: "KeyR".to_string(),
        display_key: None,
    };
    assert_eq!(shift_only.validate(), Err(BindingError::WeakModifier));

    let option_only = RepasteBinding {
        mods: vec![HotkeyModifier::Option],
        key: "KeyE".to_string(),
        display_key: None,
    };
    assert_eq!(option_only.validate(), Err(BindingError::WeakModifier));

    let dictation_shift_only = DictationBinding::Modifiers {
        mods: vec![HotkeyModifier::Shift],
        key: Some("KeyR".to_string()),
        display_key: None,
    };
    assert_eq!(
        dictation_shift_only.validate(),
        Err(BindingError::WeakModifier)
    );
}

#[test]
fn keyed_binding_accepts_hard_modifier_or_two_modifiers() {
    let ctrl = RepasteBinding {
        mods: vec![HotkeyModifier::Control],
        key: "KeyR".to_string(),
        display_key: None,
    };
    assert_eq!(ctrl.validate(), Ok(()));
    let fn_keyed = DictationBinding::Modifiers {
        mods: vec![HotkeyModifier::Fn],
        key: Some("KeyR".to_string()),
        display_key: None,
    };
    assert_eq!(fn_keyed.validate(), Ok(()));

    let shift_option = RepasteBinding {
        mods: vec![HotkeyModifier::Shift, HotkeyModifier::Option],
        key: "KeyR".to_string(),
        display_key: None,
    };
    assert_eq!(shift_option.validate(), Ok(()));
}

#[test]
fn duplicate_modifiers_do_not_satisfy_the_floor() {
    let keyed_dup = RepasteBinding {
        mods: vec![HotkeyModifier::Shift, HotkeyModifier::Shift],
        key: "KeyR".to_string(),
        display_key: None,
    };
    assert_eq!(keyed_dup.validate(), Err(BindingError::WeakModifier));

    let dictation_keyed_dup = DictationBinding::Modifiers {
        mods: vec![HotkeyModifier::Option, HotkeyModifier::Option],
        key: Some("KeyE".to_string()),
        display_key: None,
    };
    assert_eq!(
        dictation_keyed_dup.validate(),
        Err(BindingError::WeakModifier)
    );

    let modifier_only_dup = DictationBinding::Modifiers {
        mods: vec![HotkeyModifier::Shift, HotkeyModifier::Shift],
        key: None,
        display_key: None,
    };
    assert_eq!(
        modifier_only_dup.validate(),
        Err(BindingError::TooFewModifiers)
    );
}

#[test]
fn validate_pair_surfaces_invalid_dictation_first() {
    let bad = DictationBinding::Modifiers {
        mods: vec![HotkeyModifier::Control],
        key: None,
        display_key: None,
    };
    assert_eq!(
        validate_pair(&bad, Some(&RepasteBinding::default_repaste())),
        Err(BindingError::TooFewModifiers)
    );
}

#[test]
fn all_modifier_symbols_are_stable() {
    assert_eq!(HotkeyModifier::Control.to_symbol(), "⌃");
    assert_eq!(HotkeyModifier::Option.to_symbol(), "⌥");
    assert_eq!(HotkeyModifier::Command.to_symbol(), "⌘");
    assert_eq!(HotkeyModifier::Shift.to_symbol(), "⇧");
    assert_eq!(HotkeyModifier::Fn.to_symbol(), "fn");
}

#[test]
fn allowlisted_keys_validate() {
    for code in [
        "KeyR",
        "Digit1",
        "F1",
        "F13",
        "F24",
        "ArrowUp",
        "Home",
        "PageDown",
        "Comma",
        "Semicolon",
        "Space",
        "Tab",
        "Enter",
    ] {
        let keyed = DictationBinding::Modifiers {
            mods: vec![HotkeyModifier::Control],
            key: Some(code.to_string()),
            display_key: None,
        };
        assert_eq!(keyed.validate(), Ok(()), "{code} should be a valid anchor");

        let repaste = RepasteBinding {
            mods: vec![HotkeyModifier::Control],
            key: code.to_string(),
            display_key: None,
        };
        assert_eq!(
            repaste.validate(),
            Ok(()),
            "{code} should be a valid anchor"
        );
    }
}

#[test]
fn caps_lock_class_keys_are_rejected_as_anchors() {
    for code in [
        "CapsLock",
        "NumLock",
        "ScrollLock",
        "ContextMenu",
        "MediaPlayPause",
        "AudioVolumeUp",
        "Lang1",
        "Convert",
    ] {
        let keyed = DictationBinding::Modifiers {
            mods: vec![HotkeyModifier::Control],
            key: Some(code.to_string()),
            display_key: None,
        };
        assert_eq!(
            keyed.validate(),
            Err(BindingError::InvalidAnchorKey),
            "{code} must be rejected as an anchor"
        );

        let repaste = RepasteBinding {
            mods: vec![HotkeyModifier::Control],
            key: code.to_string(),
            display_key: None,
        };
        assert_eq!(
            repaste.validate(),
            Err(BindingError::InvalidAnchorKey),
            "{code} must be rejected as an anchor"
        );
    }
}

#[test]
fn function_keys_are_written_as_plain_numbers() {
    for code in ["F1", "F9", "F10", "F19", "F24"] {
        assert!(is_allowed_anchor_key(code), "{code}");
    }
    for code in ["F", "F0", "F01", "F+1", "F024", "F25", "F100", "F-1", "F1a", "Fn"] {
        assert!(!is_allowed_anchor_key(code), "{code}");
    }
}

#[test]
fn invalid_anchor_key_message_matches_frontend_copy() {
    assert_eq!(
        BindingError::InvalidAnchorKey.to_string(),
        "That key can't be used."
    );
}

#[test]
fn label_prefers_display_key_over_physical_code() {
    let keyed = DictationBinding::Modifiers {
        mods: vec![HotkeyModifier::Control],
        key: Some("KeyQ".to_string()),
        display_key: Some("a".to_string()),
    };
    assert_eq!(keyed.label(), "⌃A");

    let repaste = RepasteBinding {
        mods: vec![HotkeyModifier::Control, HotkeyModifier::Command],
        key: "KeyQ".to_string(),
        display_key: Some("a".to_string()),
    };
    assert_eq!(repaste.label(), "⌃⌘A");
}

#[test]
fn label_falls_back_to_code_symbol_when_display_key_absent() {
    let keyed = DictationBinding::Modifiers {
        mods: vec![HotkeyModifier::Control],
        key: Some("KeyR".to_string()),
        display_key: None,
    };
    assert_eq!(keyed.label(), "⌃R");
}

#[test]
fn label_falls_back_to_code_symbol_for_blank_space_display_key() {
    let keyed = DictationBinding::Modifiers {
        mods: vec![HotkeyModifier::Control, HotkeyModifier::Command],
        key: Some("Space".to_string()),
        display_key: Some(" ".to_string()),
    };
    assert_eq!(keyed.label(), "⌃⌘Space");

    let repaste = RepasteBinding {
        mods: vec![HotkeyModifier::Control, HotkeyModifier::Command],
        key: "Space".to_string(),
        display_key: Some(" ".to_string()),
    };
    assert_eq!(repaste.label(), "⌃⌘Space");
}

#[test]
fn canonical_order_is_fn_control_option_shift_command() {
    let pressed = vec![
        HotkeyModifier::Command,
        HotkeyModifier::Shift,
        HotkeyModifier::Option,
        HotkeyModifier::Control,
        HotkeyModifier::Fn,
    ];
    assert_eq!(
        ordered_mods(&pressed),
        vec![
            HotkeyModifier::Fn,
            HotkeyModifier::Control,
            HotkeyModifier::Option,
            HotkeyModifier::Shift,
            HotkeyModifier::Command,
        ]
    );
    assert_eq!(accelerator_of(&pressed, "KeyR"), "Fn+Control+Option+Shift+Command+KeyR");
}

#[test]
fn press_order_does_not_change_a_shortcut() {
    let one = RepasteBinding {
        mods: vec![HotkeyModifier::Shift, HotkeyModifier::Control],
        key: "KeyR".to_string(),
        display_key: None,
    };
    let two = RepasteBinding {
        mods: vec![HotkeyModifier::Control, HotkeyModifier::Shift],
        key: "KeyR".to_string(),
        display_key: None,
    };
    assert_eq!(one.accelerator(), two.accelerator());
    assert_eq!(one.label(), two.label());
}

#[test]
fn accelerators_with_every_modifier_but_fn_parse() {
    for modifier in [
        HotkeyModifier::Control,
        HotkeyModifier::Option,
        HotkeyModifier::Command,
        HotkeyModifier::Shift,
    ] {
        let accelerator = accelerator_of(&vec![modifier], "KeyR");
        assert!(HotKey::from_str(&accelerator).is_ok(), "{accelerator}");
    }
}

#[test]
fn each_modifier_has_its_flag() {
    assert_eq!(HotkeyModifier::Control.to_cg_flag(), CG_FLAG_CONTROL);
    assert_eq!(HotkeyModifier::Option.to_cg_flag(), CG_FLAG_ALTERNATE);
    assert_eq!(HotkeyModifier::Command.to_cg_flag(), CG_FLAG_COMMAND);
    assert_eq!(HotkeyModifier::Shift.to_cg_flag(), CG_FLAG_SHIFT);
    assert_eq!(HotkeyModifier::Fn.to_cg_flag(), CG_FLAG_SECONDARY_FN);
}

#[test]
fn key_symbols_cover_letters_digits_and_names() {
    assert_eq!(key_symbol("KeyR"), "R");
    assert_eq!(key_symbol("Digit7"), "7");
    assert_eq!(key_symbol("ArrowUp"), "ArrowUp");
    assert_eq!(key_symbol("F13"), "F13");
}

#[test]
fn anchor_keys_are_letters_digits_function_keys_and_named_keys() {
    assert!(is_allowed_anchor_key("KeyA"));
    assert!(!is_allowed_anchor_key("Keya"));
    assert!(!is_allowed_anchor_key("KeyAB"));
    assert!(is_allowed_anchor_key("Digit0"));
    assert!(!is_allowed_anchor_key("Digit10"));
    assert!(is_allowed_anchor_key("F24"));
    assert!(!is_allowed_anchor_key("F25"));
    assert!(!is_allowed_anchor_key("F0"));
    assert!(!is_allowed_anchor_key(""));
}

#[test]
fn modifier_sets_ignore_order_and_repeats() {
    let one = vec![HotkeyModifier::Control, HotkeyModifier::Shift, HotkeyModifier::Control];
    let two = vec![HotkeyModifier::Shift, HotkeyModifier::Control];
    assert!(modifiers_set_eq(&one, &two));
    assert_eq!(distinct_mod_count(&one), 2);
    assert!(modifiers_is_subset(&vec![HotkeyModifier::Shift], &two));
    assert!(!modifiers_is_subset(&two, &vec![HotkeyModifier::Shift]));
    assert!(modifiers_is_subset(&vec![], &two));
}

#[test]
fn a_display_key_keeps_its_length_rules() {
    let label = |display: &str| {
        DictationBinding::Modifiers {
            mods: vec![HotkeyModifier::Control],
            key: Some("KeyQ".to_string()),
            display_key: Some(display.to_string()),
        }
        .label()
    };
    assert_eq!(label("é"), "⌃É");
    assert_eq!(label("ß"), "⌃SS");
    assert_eq!(label(""), "⌃Q");
}
