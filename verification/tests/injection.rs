//! Inserting text into the focused app.

use muni::error::MuniError;
use muni::injection::{
    classify_role, default_injector, effective_restore_delay_ms, focused_app_pid,
    focused_field_probe, keep_waiting, paste_payload, paste_result, probe_with_budget, FocusFacts,
    FocusProbe, Injector, MacInjector, PastePlan, PasteStep, Platform, PlatformInjector, ProbeOutcome,
    WindowsInjector, AX_ERROR_ATTRIBUTE_UNSUPPORTED, AX_ERROR_SUCCESS, DEFAULT_PASTE_DELAY_MS,
    DEFAULT_RESTORE_DELAY_MS, MAX_PASTE_DELAY_MS, MAX_RESTORE_DELAY_MS,
};

#[test]
fn classify_role_splits_editable_control_and_container() {
    for r in ["AXTextField", "AXTextArea", "AXComboBox", "AXSearchField"] {
        assert_eq!(classify_role(r), Some(FocusProbe::Editable), "{r}");
    }
    for r in ["AXButton", "AXStaticText", "AXLink", "AXImage", "AXMenuItem"] {
        assert_eq!(classify_role(r), Some(FocusProbe::NoEditableField), "{r}");
    }
    for r in ["AXGroup", "AXWebArea", "AXScrollArea", "AXOutline", "", "AXWhatever"] {
        assert_eq!(classify_role(r), None, "{r} must stay inconclusive");
    }
}

#[test]
fn slow_probe_fails_open_within_budget() {
    assert_eq!(
        probe_with_budget(ProbeOutcome::TimedOut),
        FocusProbe::Unknown,
        "timed-out probe must fail open to Unknown (paste proceeds)"
    );
}

#[test]
fn fast_probe_returns_real_verdict() {
    let verdict = probe_with_budget(ProbeOutcome::Verdict(FocusProbe::NoEditableField));
    assert_eq!(verdict, FocusProbe::NoEditableField);
}

#[test]
fn panicking_probe_fails_open() {
    let verdict = probe_with_budget(ProbeOutcome::Failed);
    assert_eq!(verdict, FocusProbe::Unknown);
}

#[test]
fn paste_empty_returns_nothing_to_paste() {
    let injector = MacInjector::default();
    for trusted in [true, false] {
        let err = injector.paste("", trusted).expect_err("empty must error");
        assert!(matches!(err, MuniError::NothingToPaste));
    }
}

#[test]
fn default_restore_window_is_widened_past_swift_v1() {
    let injector = MacInjector::default();
    assert_eq!(injector.paste_delay_ms, DEFAULT_PASTE_DELAY_MS);
    assert_eq!(injector.restore_delay_ms, DEFAULT_RESTORE_DELAY_MS);
    assert!(
        injector.restore_delay_ms >= 300,
        "restore window must stay wide enough to survive a briefly stalled paste consumer"
    );
}

#[test]
fn settings_default_matches_injector_default() {
    assert_eq!(
        muni::settings::DEFAULT_PASTE_DELAY_MS,
        DEFAULT_PASTE_DELAY_MS,
        "settings paste-delay default drifted from the injector default"
    );
    assert_eq!(
        muni::settings::default_for(muni::settings::KEY_PASTE_DELAY_MS).and_then(|v| v.as_u64()),
        Some(DEFAULT_PASTE_DELAY_MS)
    );
}

#[test]
fn max_paste_delay_is_above_default() {
    assert!(MAX_PASTE_DELAY_MS > DEFAULT_PASTE_DELAY_MS);
}

#[test]
fn effective_restore_delay_short_text_is_base() {
    assert_eq!(effective_restore_delay_ms(350, 0), 350);
    assert_eq!(effective_restore_delay_ms(350, 9), 350);
    assert_eq!(effective_restore_delay_ms(350, 10), 351);
}

#[test]
fn effective_restore_delay_scales_with_length() {
    let short = effective_restore_delay_ms(350, 100);
    let long = effective_restore_delay_ms(350, 2000);
    assert!(long > short, "longer text must widen the restore window");
    assert_eq!(effective_restore_delay_ms(350, 1000), 450);
}

#[test]
fn effective_restore_delay_is_capped() {
    assert_eq!(effective_restore_delay_ms(350, 1_000_000), MAX_RESTORE_DELAY_MS);
    assert_eq!(effective_restore_delay_ms(u64::MAX, usize::MAX), MAX_RESTORE_DELAY_MS);
    assert_eq!(effective_restore_delay_ms(900, 0), MAX_RESTORE_DELAY_MS);
}

#[test]
fn effective_restore_delay_never_below_base() {
    for len in [0usize, 1, 50, 500, 5_000, 50_000] {
        assert!(
            effective_restore_delay_ms(350, len) >= 350,
            "restore window shrank below base for len={len}"
        );
    }
}

#[test]
fn paste_payload_appends_trailing_space() {
    assert_eq!(paste_payload("this is dictation 1."), "this is dictation 1. ");
    assert_eq!(paste_payload("hello"), "hello ");
    assert_eq!(paste_payload(""), " ");
}

#[test]
fn pasting_takes_the_permission() {
    let injector = MacInjector::default();
    assert!(matches!(injector.paste("hi", false), Err(MuniError::AccessibilityDenied)));
    assert!(matches!(injector.press_enter(false), Err(MuniError::AccessibilityDenied)));
    assert!(injector.press_enter(true).is_ok());
    assert_eq!(
        injector.paste("hi", true).expect("allowed"),
        PastePlan { payload: "hi ".to_string(), paste_delay_ms: 50, restore_delay_ms: 350 }
    );
}

#[test]
fn the_window_counts_characters() {
    let injector = MacInjector::default();
    let plan = injector.paste(&"é".repeat(100), true).expect("allowed");
    assert_eq!(plan.restore_delay_ms, 360);
}

#[test]
fn the_clipboard_is_put_back_last() {
    let plan = MacInjector::default().paste("hi", true).expect("allowed");
    assert_eq!(
        plan.steps(),
        vec![
            PasteStep::Snapshot,
            PasteStep::Write,
            PasteStep::WaitForKeyRelease,
            PasteStep::Post,
            PasteStep::Sleep(50),
            PasteStep::Sleep(350),
            PasteStep::Restore,
        ]
    );
}

#[test]
fn a_failed_keystroke_puts_the_clipboard_back() {
    let plan = MacInjector::default().paste("hi", true).expect("allowed");
    assert_eq!(plan.steps_after_failure(), vec![PasteStep::Restore]);
    assert!(matches!(paste_result(false), Err(MuniError::PasteInjectionFailed)));
    assert!(paste_result(true).is_ok());
}

#[test]
fn other_systems_do_not_paste() {
    for platform in [Platform::Windows, Platform::Other] {
        let injector = default_injector(platform, 10);
        assert_eq!(injector, Injector::Stub(WindowsInjector));
        assert!(matches!(injector.paste("hi", true), Err(MuniError::PlatformUnsupported)));
        assert!(matches!(injector.press_enter(true), Err(MuniError::PlatformUnsupported)));
        assert_eq!(
            injector.has_editable_focus(true, FocusProbe::NoEditableField),
            FocusProbe::Unknown
        );
    }
}

#[test]
fn a_long_paste_delay_is_cut() {
    assert_eq!(
        default_injector(Platform::MacOs, 5_000),
        Injector::Mac(MacInjector { paste_delay_ms: 1000, restore_delay_ms: 350 })
    );
    assert_eq!(
        default_injector(Platform::MacOs, 75),
        Injector::Mac(MacInjector { paste_delay_ms: 75, restore_delay_ms: 350 })
    );
}

fn facts(role: Option<&str>, settable: Option<bool>, dom_err: i32) -> FocusFacts {
    FocusFacts { focused: true, role: role.map(|r| r.to_string()), settable, dom_err }
}

#[test]
fn a_probe_goes_by_role_then_value_then_page() {
    let unsupported = AX_ERROR_ATTRIBUTE_UNSUPPORTED;
    assert_eq!(
        focused_field_probe(&facts(Some("AXTextField"), Some(false), unsupported)),
        FocusProbe::Editable
    );
    assert_eq!(
        focused_field_probe(&facts(Some("AXButton"), Some(true), AX_ERROR_SUCCESS)),
        FocusProbe::NoEditableField
    );
    assert_eq!(
        focused_field_probe(&facts(Some("AXGroup"), Some(true), unsupported)),
        FocusProbe::Editable
    );
    assert_eq!(
        focused_field_probe(&facts(Some("AXGroup"), Some(false), unsupported)),
        FocusProbe::NoEditableField
    );
    assert_eq!(
        focused_field_probe(&facts(None, Some(false), AX_ERROR_SUCCESS)),
        FocusProbe::Unknown
    );
    assert_eq!(focused_field_probe(&facts(None, None, unsupported)), FocusProbe::Unknown);
    let nothing = FocusFacts { focused: false, ..facts(Some("AXButton"), None, 0) };
    assert_eq!(focused_field_probe(&nothing), FocusProbe::Unknown);
}

#[test]
fn what_was_found_counts_with_the_permission_only() {
    let injector = MacInjector::default();
    assert_eq!(
        injector.has_editable_focus(true, FocusProbe::NoEditableField),
        FocusProbe::NoEditableField
    );
    assert_eq!(
        injector.has_editable_focus(false, FocusProbe::NoEditableField),
        FocusProbe::Unknown
    );
}

#[test]
fn a_held_key_is_waited_for_but_not_for_long() {
    assert!(keep_waiting(true, 0));
    assert!(keep_waiting(true, 699));
    assert!(!keep_waiting(true, 700));
    assert!(!keep_waiting(false, 0));
}

#[test]
fn an_app_has_a_positive_process_number() {
    assert_eq!(focused_app_pid(Some((0, 42))), Some(42));
    assert_eq!(focused_app_pid(Some((0, 0))), None);
    assert_eq!(focused_app_pid(Some((0, -1))), None);
    assert_eq!(focused_app_pid(Some((-25204, 42))), None);
    assert_eq!(focused_app_pid(None), None);
}
