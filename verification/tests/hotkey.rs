//! The hotkey: its listener, its state machine and what arms it.

use muni::error::MuniError;
use muni::hotkey::{
    handle_msg, install, install_keydown_monitor, install_then, keycode_to_msg, next_deadline,
    parse_toggle_enabled, parse_toggle_max_duration_s, parse_toggle_tap_threshold_ms,
    poll_deadlines, toggle_keys, HotkeyConfig, HotkeyEffect, HotkeyMsg, HotkeyTriggerState, State,
    ToggleKey, DEFAULT_DEBOUNCE_MS, DEFAULT_TOGGLE_MAX_DURATION_S,
    DEFAULT_TOGGLE_TAP_THRESHOLD_MS, MAX_TOGGLE_DURATION_S,
};
use muni::hotkey_binding::{
    DictationBinding, HotkeyModifier, CG_FLAG_ALTERNATE, CG_FLAG_COMMAND, CG_FLAG_CONTROL,
    CG_FLAG_SHIFT,
};
use muni::injection::Platform;
use muni::session::{HotkeyMode, ReleaseKind};
use std::sync::atomic::{AtomicUsize, Ordering};

/// A flag that a keyboard sets beside the modifiers.
const NUMERIC_PAD: u64 = 0x0020_0000;

/// The settings that ship.
fn test_config() -> HotkeyConfig {
    HotkeyConfig {
        debounce_ms: 150,
        tap_threshold_ms: DEFAULT_TOGGLE_TAP_THRESHOLD_MS,
        max_toggle_duration_s: DEFAULT_TOGGLE_MAX_DURATION_S,
        toggle_enabled: true,
    }
}

/// The state machine on a clock that the test winds.
struct Machine {
    config: HotkeyConfig,
    state: State,
    now: u64,
    effects: Vec<HotkeyEffect>,
}

impl Machine {
    fn new(config: HotkeyConfig) -> Self {
        Machine { config, state: State::new(config), now: 0, effects: Vec::new() }
    }

    fn send(&mut self, msg: HotkeyMsg) -> bool {
        handle_msg(&mut self.state, msg, &self.config, self.now, &mut self.effects)
    }

    fn sleep(&mut self, ms: u64) {
        let until = self.now + ms;
        while let Some(at) = next_deadline(&self.state) {
            if at > until {
                break;
            }
            poll_deadlines(&mut self.state, at, &mut self.effects);
        }
        self.now = until;
    }

    fn presses(&self) -> Vec<HotkeyMode> {
        let mut out = Vec::new();
        for effect in &self.effects {
            if let HotkeyEffect::Press(mode) = effect {
                out.push(*mode);
            }
        }
        out
    }

    fn releases(&self) -> Vec<ReleaseKind> {
        let mut out = Vec::new();
        for effect in &self.effects {
            if let HotkeyEffect::Release(kind) = effect {
                out.push(*kind);
            }
        }
        out
    }
}

enum Step {
    Send(HotkeyMsg),
    Sleep(u64),
}

fn run_with_config(config: HotkeyConfig, steps: Vec<Step>) -> (Vec<HotkeyMode>, Vec<ReleaseKind>) {
    let mut machine = Machine::new(config);
    for step in steps {
        match step {
            Step::Send(msg) => assert!(machine.send(msg)),
            Step::Sleep(ms) => machine.sleep(ms),
        }
    }
    (machine.presses(), machine.releases())
}

fn run(debounce_ms: u64, steps: Vec<Step>) -> (usize, usize) {
    let config = HotkeyConfig {
        debounce_ms,
        tap_threshold_ms: DEFAULT_TOGGLE_TAP_THRESHOLD_MS,
        max_toggle_duration_s: DEFAULT_TOGGLE_MAX_DURATION_S,
        toggle_enabled: true,
    };
    let (presses, releases) = run_with_config(config, steps);
    (presses.len(), releases.len())
}

fn flags(both_held: bool) -> HotkeyMsg {
    HotkeyMsg::FlagsChanged { both_held }
}

fn modifiers(mods: Vec<HotkeyModifier>) -> DictationBinding {
    DictationBinding::Modifiers { mods, key: None, display_key: None }
}

fn keyed(mods: Vec<HotkeyModifier>, key: &str) -> DictationBinding {
    DictationBinding::Modifiers { mods, key: Some(key.to_string()), display_key: None }
}

#[test]
fn numpad_enter_maps_to_enter_pressed() {
    assert!(matches!(
        keycode_to_msg(0x4C),
        Some(HotkeyMsg::EnterPressed)
    ));
}

#[test]
fn main_return_and_escape_map_to_their_messages() {
    assert!(matches!(
        keycode_to_msg(0x24),
        Some(HotkeyMsg::EnterPressed)
    ));
    assert!(matches!(keycode_to_msg(0x35), Some(HotkeyMsg::EscPressed)));
}

#[test]
fn unbound_keycode_maps_to_none() {
    assert!(keycode_to_msg(0x00).is_none());
}

#[test]
fn install_then_runs_hook_once_on_success() {
    let ran = AtomicUsize::new(0);
    let result = install_then(
        || Ok(()),
        || {
            ran.fetch_add(1, Ordering::SeqCst);
        },
    );
    assert!(result.is_ok());
    assert_eq!(ran.load(Ordering::SeqCst), 1);
}

#[test]
fn install_then_skips_hook_on_failure_no_task_leak() {
    let ran = AtomicUsize::new(0);
    let result = install_then(
        || Err(MuniError::HotkeyTapInstallFailed),
        || {
            ran.fetch_add(1, Ordering::SeqCst);
        },
    );
    assert!(matches!(result, Err(MuniError::HotkeyTapInstallFailed)));
    assert_eq!(
        ran.load(Ordering::SeqCst),
        0,
        "no tasks may be spawned when the platform listener fails to install"
    );
}

#[test]
fn hold_past_debounce_fires_press_then_release() {
    let (presses, releases) = run_with_config(
        test_config(),
        vec![
            Step::Send(flags(true)),
            Step::Sleep(160),
            Step::Send(flags(false)),
        ],
    );

    assert_eq!(presses, vec![HotkeyMode::Ptt], "PTT press after debounce");
    assert_eq!(
        releases,
        vec![ReleaseKind::Commit],
        "PTT release commits the press"
    );
}

#[test]
fn release_within_debounce_window_cancels_press() {
    let (presses, releases) = run_with_config(
        test_config(),
        vec![
            Step::Send(flags(true)),
            Step::Sleep(100),
            Step::Send(flags(false)),
            Step::Sleep(200),
        ],
    );

    assert!(
        presses.is_empty(),
        "dead-zone release must NOT fire a press (got {presses:?})"
    );
    assert!(releases.is_empty(), "no press → no release");
}

#[test]
fn duplicate_held_messages_do_not_double_fire() {
    let (presses, releases) = run(
        150,
        vec![
            Step::Send(flags(true)),
            Step::Send(flags(true)),
            Step::Send(flags(true)),
            Step::Sleep(160),
            Step::Send(flags(true)),
            Step::Send(flags(false)),
        ],
    );

    assert_eq!(presses, 1);
    assert_eq!(releases, 1);
}

#[test]
fn set_enabled_false_while_active_synthesizes_release() {
    let (presses, releases) = run(
        150,
        vec![
            Step::Send(flags(true)),
            Step::Sleep(160),
            Step::Send(HotkeyMsg::SetEnabled(false)),
        ],
    );

    assert_eq!(presses, 1);
    assert_eq!(releases, 1, "disabling while active must fire release");
}

#[test]
fn set_enabled_false_during_debounce_cancels_press() {
    let (presses, releases) = run(
        150,
        vec![
            Step::Send(flags(true)),
            Step::Sleep(50),
            Step::Send(HotkeyMsg::SetEnabled(false)),
            Step::Sleep(200),
            Step::Send(flags(false)),
        ],
    );

    assert_eq!(presses, 0);
    assert_eq!(releases, 0);
}

#[test]
fn flags_changed_ignored_while_disabled() {
    let (presses, releases) = run(
        150,
        vec![
            Step::Send(HotkeyMsg::SetEnabled(false)),
            Step::Send(flags(true)),
            Step::Sleep(200),
            Step::Send(flags(false)),
        ],
    );

    assert_eq!(presses, 0);
    assert_eq!(releases, 0);
}

#[test]
fn re_enable_resumes_normal_operation() {
    let (presses, releases) = run(
        150,
        vec![
            Step::Send(HotkeyMsg::SetEnabled(false)),
            Step::Send(HotkeyMsg::SetEnabled(true)),
            Step::Send(flags(true)),
            Step::Sleep(160),
            Step::Send(flags(false)),
        ],
    );

    assert_eq!(presses, 1);
    assert_eq!(releases, 1);
}

#[test]
fn shutdown_message_breaks_loop_cleanly() {
    let mut machine = Machine::new(test_config());
    assert!(!machine.send(HotkeyMsg::Shutdown));
}

#[test]
fn rapid_taps_then_real_hold_emits_one_balanced_pair() {
    let mut config = test_config();
    config.toggle_enabled = false;
    let (presses, releases) = run_with_config(
        config,
        vec![
            Step::Send(flags(true)),
            Step::Sleep(40),
            Step::Send(flags(false)),
            Step::Send(flags(true)),
            Step::Sleep(40),
            Step::Send(flags(false)),
            Step::Send(flags(true)),
            Step::Sleep(40),
            Step::Send(flags(false)),
            Step::Send(flags(true)),
            Step::Sleep(200),
            Step::Send(flags(false)),
        ],
    );

    assert_eq!(presses.len(), 1, "exactly one PTT press from the held tap");
    assert_eq!(
        releases,
        vec![ReleaseKind::Commit],
        "exactly one release should pair with that press"
    );
}

#[test]
fn back_to_back_cycles_emit_balanced_pairs() {
    let mut steps = Vec::new();
    for _ in 0..3 {
        steps.push(Step::Send(flags(true)));
        steps.push(Step::Sleep(160));
        steps.push(Step::Send(flags(false)));
        steps.push(Step::Sleep(20));
    }
    let (presses, releases) = run(150, steps);
    assert_eq!(presses, 3);
    assert_eq!(releases, 3);
}

#[test]
fn dup_held_burst_during_active_press_does_not_inflate_releases() {
    let mut steps = vec![Step::Send(flags(true)), Step::Sleep(160)];
    for _ in 0..20 {
        steps.push(Step::Send(flags(true)));
    }
    steps.push(Step::Sleep(20));
    steps.push(Step::Send(flags(false)));

    let (presses, releases) = run(150, steps);
    assert_eq!(presses, 1);
    assert_eq!(releases, 1);
}

#[test]
fn quick_tap_under_threshold_fires_toggle_press() {
    let (presses, releases) = run_with_config(
        test_config(),
        vec![
            Step::Send(flags(true)),
            Step::Sleep(50),
            Step::Send(flags(false)),
            Step::Sleep(20),
        ],
    );

    assert_eq!(
        presses,
        vec![HotkeyMode::ToggleLocked],
        "quick tap must fire a locked-mode press"
    );
    assert!(
        releases.is_empty(),
        "toggle session is still in flight (got {releases:?})"
    );
}

#[test]
fn tap_then_retap_fires_commit_release() {
    let (presses, releases) = run_with_config(
        test_config(),
        vec![
            Step::Send(flags(true)),
            Step::Sleep(50),
            Step::Send(flags(false)),
            Step::Sleep(20),
            Step::Send(flags(true)),
            Step::Sleep(5),
            Step::Send(flags(false)),
        ],
    );

    assert_eq!(presses, vec![HotkeyMode::ToggleLocked]);
    assert_eq!(
        releases,
        vec![ReleaseKind::Commit],
        "re-tap commits the session"
    );
}

#[test]
fn tap_then_esc_fires_cancel_release() {
    let (presses, releases) = run_with_config(
        test_config(),
        vec![
            Step::Send(flags(true)),
            Step::Sleep(50),
            Step::Send(flags(false)),
            Step::Send(HotkeyMsg::EscPressed),
        ],
    );

    assert_eq!(presses, vec![HotkeyMode::ToggleLocked]);
    assert_eq!(
        releases,
        vec![ReleaseKind::Cancel],
        "Esc cancels the toggle session"
    );
}

#[test]
fn tap_then_enter_fires_commit_and_submit_release() {
    let (presses, releases) = run_with_config(
        test_config(),
        vec![
            Step::Send(flags(true)),
            Step::Sleep(50),
            Step::Send(flags(false)),
            Step::Send(HotkeyMsg::EnterPressed),
        ],
    );

    assert_eq!(presses, vec![HotkeyMode::ToggleLocked]);
    assert_eq!(
        releases,
        vec![ReleaseKind::CommitAndSubmit],
        "Enter commits the toggle session and requests submit"
    );
}

#[test]
fn enter_with_no_toggle_session_is_noop() {
    let (presses, releases) = run_with_config(
        test_config(),
        vec![
            Step::Send(HotkeyMsg::EnterPressed),
            Step::Send(HotkeyMsg::EnterPressed),
            Step::Send(HotkeyMsg::EnterPressed),
            Step::Sleep(10),
        ],
    );

    assert!(presses.is_empty());
    assert!(releases.is_empty());
}

#[test]
fn enter_during_ptt_hold_is_noop() {
    let (presses, releases) = run_with_config(
        test_config(),
        vec![
            Step::Send(flags(true)),
            Step::Sleep(160),
            Step::Send(HotkeyMsg::EnterPressed),
            Step::Sleep(10),
            Step::Send(flags(false)),
        ],
    );

    assert_eq!(
        presses,
        vec![HotkeyMode::Ptt],
        "exactly one PTT press, Enter must not synthesise a second"
    );
    assert_eq!(
        releases,
        vec![ReleaseKind::Commit],
        "exactly one release from the modifier lift; Enter must not double-fire"
    );
}

#[test]
fn silence_timeout_during_toggle_fires_commit_release() {
    let (presses, releases) = run_with_config(
        test_config(),
        vec![
            Step::Send(flags(true)),
            Step::Sleep(50),
            Step::Send(flags(false)),
            Step::Sleep(20),
            Step::Send(HotkeyMsg::SilenceTimeout),
        ],
    );

    assert_eq!(presses, vec![HotkeyMode::ToggleLocked]);
    assert_eq!(
        releases,
        vec![ReleaseKind::Commit],
        "silence-watchdog timeout commits the session"
    );
}

#[test]
fn silence_timeout_outside_toggle_is_noop() {
    let (presses, releases) = run_with_config(
        test_config(),
        vec![Step::Send(HotkeyMsg::SilenceTimeout), Step::Sleep(20)],
    );

    assert!(
        presses.is_empty(),
        "silence timeout outside a toggle must not synthesise a press (got {presses:?})"
    );
    assert!(
        releases.is_empty(),
        "silence timeout outside a toggle must not fire a release (got {releases:?})"
    );
}

#[test]
fn medium_release_between_thresholds_still_cancels() {
    let (presses, releases) = run_with_config(
        test_config(),
        vec![
            Step::Send(flags(true)),
            Step::Sleep(100),
            Step::Send(flags(false)),
            Step::Sleep(200),
        ],
    );

    assert!(
        presses.is_empty(),
        "dead-zone release must not fire any press (got {presses:?})"
    );
    assert!(releases.is_empty(), "no press → no release");
}

#[test]
fn hold_past_debounce_still_fires_ptt() {
    let (presses, releases) = run_with_config(
        test_config(),
        vec![
            Step::Send(flags(true)),
            Step::Sleep(160),
            Step::Send(flags(false)),
        ],
    );

    assert_eq!(presses, vec![HotkeyMode::Ptt]);
    assert_eq!(releases, vec![ReleaseKind::Commit]);
}

#[test]
fn tap_then_hold_during_active_toggle_commits_via_retap_edge() {
    let (presses, releases) = run_with_config(
        test_config(),
        vec![
            Step::Send(flags(true)),
            Step::Sleep(50),
            Step::Send(flags(false)),
            Step::Sleep(20),
            Step::Send(flags(true)),
            Step::Sleep(500),
            Step::Send(flags(false)),
        ],
    );

    assert_eq!(presses, vec![HotkeyMode::ToggleLocked]);
    assert_eq!(releases, vec![ReleaseKind::Commit]);
}

#[test]
fn set_enabled_false_during_toggle_commits() {
    let (presses, releases) = run_with_config(
        test_config(),
        vec![
            Step::Send(flags(true)),
            Step::Sleep(50),
            Step::Send(flags(false)),
            Step::Send(HotkeyMsg::SetEnabled(false)),
        ],
    );

    assert_eq!(presses, vec![HotkeyMode::ToggleLocked]);
    assert_eq!(releases, vec![ReleaseKind::Commit]);
}

#[test]
fn shutdown_during_toggle_commits() {
    let mut machine = Machine::new(test_config());
    assert!(machine.send(flags(true)));
    machine.sleep(50);
    assert!(machine.send(flags(false)));
    assert!(!machine.send(HotkeyMsg::Shutdown));

    assert_eq!(machine.presses(), vec![HotkeyMode::ToggleLocked]);
    assert_eq!(machine.releases(), vec![ReleaseKind::Commit]);
}

#[test]
fn toggle_disabled_by_env_falls_back_to_ptt_only() {
    let mut config = test_config();
    config.toggle_enabled = false;
    let (presses, releases) = run_with_config(
        config,
        vec![
            Step::Send(flags(true)),
            Step::Sleep(50),
            Step::Send(flags(false)),
            Step::Sleep(200),
        ],
    );

    assert!(presses.is_empty());
    assert!(releases.is_empty());
}

#[test]
fn cancel_signal_with_no_toggle_session_is_noop() {
    let (presses, releases) = run_with_config(
        test_config(),
        vec![Step::Send(HotkeyMsg::EscPressed), Step::Sleep(10)],
    );

    assert!(presses.is_empty());
    assert!(releases.is_empty());
}

#[test]
fn parse_toggle_tap_threshold_ms_accepts_positive_values_below_debounce() {
    assert_eq!(parse_toggle_tap_threshold_ms(Some("50".into())), 50);
    assert_eq!(parse_toggle_tap_threshold_ms(Some(" 120 ".into())), 120);
}

#[test]
fn parse_toggle_tap_threshold_ms_rejects_values_at_or_above_debounce() {
    assert_eq!(
        parse_toggle_tap_threshold_ms(Some(DEFAULT_DEBOUNCE_MS.to_string())),
        DEFAULT_TOGGLE_TAP_THRESHOLD_MS,
        "threshold == debounce must fall back"
    );
    assert_eq!(
        parse_toggle_tap_threshold_ms(Some("200".into())),
        DEFAULT_TOGGLE_TAP_THRESHOLD_MS,
        "threshold > debounce must fall back"
    );
}

#[test]
fn parse_toggle_tap_threshold_ms_rejects_zero_and_invalid() {
    assert_eq!(
        parse_toggle_tap_threshold_ms(Some("0".into())),
        DEFAULT_TOGGLE_TAP_THRESHOLD_MS
    );
    assert_eq!(
        parse_toggle_tap_threshold_ms(Some("".into())),
        DEFAULT_TOGGLE_TAP_THRESHOLD_MS
    );
    assert_eq!(
        parse_toggle_tap_threshold_ms(Some("abc".into())),
        DEFAULT_TOGGLE_TAP_THRESHOLD_MS
    );
    assert_eq!(
        parse_toggle_tap_threshold_ms(None),
        DEFAULT_TOGGLE_TAP_THRESHOLD_MS
    );
}

#[test]
fn parse_toggle_max_duration_s_rejects_zero_and_excessive() {
    assert_eq!(
        parse_toggle_max_duration_s(Some("0".into())),
        DEFAULT_TOGGLE_MAX_DURATION_S
    );
    assert_eq!(
        parse_toggle_max_duration_s(Some("".into())),
        DEFAULT_TOGGLE_MAX_DURATION_S
    );
    assert_eq!(
        parse_toggle_max_duration_s(Some("abc".into())),
        DEFAULT_TOGGLE_MAX_DURATION_S
    );
    assert_eq!(
        parse_toggle_max_duration_s(Some("99999".into())),
        DEFAULT_TOGGLE_MAX_DURATION_S
    );
    assert_eq!(
        parse_toggle_max_duration_s(None),
        DEFAULT_TOGGLE_MAX_DURATION_S
    );
}

#[test]
fn parse_toggle_max_duration_s_accepts_positive_within_cap() {
    assert_eq!(parse_toggle_max_duration_s(Some("30".into())), 30);
    assert_eq!(
        parse_toggle_max_duration_s(Some(MAX_TOGGLE_DURATION_S.to_string())),
        MAX_TOGGLE_DURATION_S
    );
}

#[test]
fn parse_toggle_enabled_only_zero_disables() {
    assert!(!parse_toggle_enabled(Some("0".into())));
    assert!(!parse_toggle_enabled(Some(" 0 ".into())));
    assert!(parse_toggle_enabled(Some("1".into())));
    assert!(parse_toggle_enabled(Some("true".into())));
    assert!(parse_toggle_enabled(Some("".into())));
    assert!(parse_toggle_enabled(None));
}

#[test]
fn snapshot_and_apply_reflect_the_modifier_mask() {
    let ctrl_opt =
        CG_FLAG_CONTROL | CG_FLAG_ALTERNATE;
    let cmd_shift = CG_FLAG_COMMAND | CG_FLAG_SHIFT;

    let mut trigger = HotkeyTriggerState::from_binding(&modifiers(vec![
        HotkeyModifier::Control,
        HotkeyModifier::Option,
    ]), Platform::MacOs);
    assert_eq!(trigger.snapshot(), ctrl_opt);

    trigger.apply(&modifiers(vec![
        HotkeyModifier::Command,
        HotkeyModifier::Shift,
    ]), Platform::MacOs);
    assert_eq!(trigger.snapshot(), cmd_shift);
}

#[test]
fn only_macos_goes_by_the_modifier_mask() {
    let binding = DictationBinding::default_dictation();
    for platform in [Platform::Windows, Platform::Other] {
        let mut trigger = HotkeyTriggerState::from_binding(&binding, platform);
        assert_eq!(trigger.snapshot(), 0);
        trigger.apply(&binding, Platform::MacOs);
        assert_eq!(trigger.snapshot(), binding.required_flags_mask());
        trigger.apply(&binding, platform);
        assert_eq!(trigger.snapshot(), 0);
    }
}

#[test]
fn on_flags_debounces_and_uses_subset_match() {

    let mut trigger = HotkeyTriggerState::from_binding(&modifiers(vec![
        HotkeyModifier::Control,
        HotkeyModifier::Option,
    ]), Platform::MacOs);
    let required =
        CG_FLAG_CONTROL | CG_FLAG_ALTERNATE;

    assert_eq!(trigger.on_flags(required), Some(true));
    assert_eq!(trigger.on_flags(required), None);

    let with_transient = required | NUMERIC_PAD;
    assert_eq!(trigger.on_flags(with_transient), None); // still held, no edge

    assert_eq!(
        trigger.on_flags(CG_FLAG_CONTROL),
        Some(false)
    );
    assert_eq!(
        trigger.on_flags(CG_FLAG_CONTROL),
        None
    );
}

#[test]
fn suppressed_trigger_does_not_fire_and_resumes() {

    let mut trigger = HotkeyTriggerState::from_binding(&modifiers(vec![
        HotkeyModifier::Control,
        HotkeyModifier::Option,
    ]), Platform::MacOs);
    let required =
        CG_FLAG_CONTROL | CG_FLAG_ALTERNATE;

    trigger.set_suppressed(true);
    assert_eq!(trigger.on_flags(required), None);
    assert_eq!(trigger.on_flags(0), None); // release during recording: still inert

    trigger.set_suppressed(false);
    assert_eq!(trigger.on_flags(required), Some(true));
}

#[test]
fn keyed_binding_gates_off_the_flags_tap() {

    let mut trigger = HotkeyTriggerState::from_binding(&keyed(
        vec![HotkeyModifier::Control, HotkeyModifier::Shift],
        "KeyR",
    ), Platform::MacOs);
    let ctrl_shift = CG_FLAG_CONTROL | CG_FLAG_SHIFT;

    assert_eq!(trigger.on_flags(ctrl_shift), None);
    assert_eq!(trigger.on_flags(ctrl_shift), None);
    assert_eq!(trigger.on_flags(0), None);
}

#[test]
fn apply_toggles_the_key_gate_live() {

    let mut trigger = HotkeyTriggerState::from_binding(&modifiers(vec![
        HotkeyModifier::Control,
        HotkeyModifier::Option,
    ]), Platform::MacOs);
    let ctrl_opt =
        CG_FLAG_CONTROL | CG_FLAG_ALTERNATE;

    assert_eq!(trigger.on_flags(ctrl_opt), Some(true));

    trigger.apply(&keyed(
        vec![HotkeyModifier::Control, HotkeyModifier::Shift],
        "KeyR",
    ), Platform::MacOs);
    let ctrl_shift = CG_FLAG_CONTROL | CG_FLAG_SHIFT;
    assert_eq!(trigger.on_flags(ctrl_shift), None);
    assert_eq!(trigger.on_flags(ctrl_opt), None);

    trigger.apply(&modifiers(vec![
        HotkeyModifier::Control,
        HotkeyModifier::Option,
    ]), Platform::MacOs);
    assert_eq!(trigger.on_flags(0), Some(false));
    assert_eq!(trigger.on_flags(ctrl_opt), Some(true));
}

#[test]
fn a_held_session_is_committed_and_only_that() {
    for last in [flags(false), HotkeyMsg::SetEnabled(false), HotkeyMsg::Shutdown] {
        let mut machine = Machine::new(test_config());
        machine.send(flags(true));
        machine.sleep(1_000);
        machine.send(HotkeyMsg::EscPressed);
        machine.send(HotkeyMsg::EnterPressed);
        machine.send(HotkeyMsg::SilenceTimeout);
        machine.send(last);
        assert_eq!(
            machine.effects,
            vec![
                HotkeyEffect::Press(HotkeyMode::Ptt),
                HotkeyEffect::Release(ReleaseKind::Commit),
            ]
        );
    }
}

#[test]
fn a_session_opens_and_closes_the_toggle_keys() {
    let mut machine = Machine::new(test_config());
    machine.send(flags(true));
    machine.sleep(50);
    machine.send(flags(false));
    assert_eq!(
        machine.effects,
        vec![
            HotkeyEffect::ToggleShortcuts(true),
            HotkeyEffect::Press(HotkeyMode::ToggleLocked),
        ]
    );
    machine.send(HotkeyMsg::EscPressed);
    assert_eq!(machine.effects[2], HotkeyEffect::ToggleShortcuts(false));
    assert_eq!(machine.effects[3], HotkeyEffect::Release(ReleaseKind::Cancel));
    assert_eq!(machine.effects.len(), 4);
}

#[test]
fn a_release_before_the_tap_threshold_is_a_tap() {
    for (held, presses) in [(79, 1), (80, 0), (81, 0)] {
        let (seen, _) = run_with_config(
            test_config(),
            vec![Step::Send(flags(true)), Step::Sleep(held), Step::Send(flags(false))],
        );
        assert_eq!(seen.len(), presses, "held for {held} ms");
    }
}

#[test]
fn the_deadline_is_the_debounce() {
    let mut machine = Machine::new(test_config());
    machine.sleep(1_000);
    assert_eq!(next_deadline(&machine.state), None);
    machine.send(flags(true));
    assert_eq!(machine.state.deadline, Some(1_150));
    machine.sleep(149);
    assert!(machine.presses().is_empty());
    machine.sleep(1);
    assert_eq!(machine.presses(), vec![HotkeyMode::Ptt]);
}

#[test]
fn a_disabled_hotkey_ignores_every_key() {
    let (presses, releases) = run_with_config(
        test_config(),
        vec![
            Step::Send(HotkeyMsg::SetEnabled(false)),
            Step::Send(flags(true)),
            Step::Send(HotkeyMsg::EnterPressed),
            Step::Send(HotkeyMsg::EscPressed),
            Step::Send(HotkeyMsg::SilenceTimeout),
            Step::Send(flags(false)),
            Step::Sleep(500),
        ],
    );
    assert!(presses.is_empty());
    assert!(releases.is_empty());
}

#[test]
fn shutdown_during_a_hold_releases_it() {
    let mut machine = Machine::new(test_config());
    machine.send(flags(true));
    machine.sleep(160);
    assert!(!machine.send(HotkeyMsg::Shutdown));
    assert_eq!(machine.presses(), vec![HotkeyMode::Ptt]);
    assert_eq!(machine.releases(), vec![ReleaseKind::Commit]);
}

#[test]
fn config_comes_from_the_environment() {
    let config = HotkeyConfig::from_env(Some(" 120 ".into()), Some("30".into()), Some("0".into()));
    assert_eq!(
        config,
        HotkeyConfig {
            debounce_ms: 150,
            tap_threshold_ms: 120,
            max_toggle_duration_s: 30,
            toggle_enabled: false,
        }
    );
    assert_eq!(HotkeyConfig::from_env(None, None, None), test_config());
}

#[test]
fn numbers_follow_the_integer_grammar() {
    assert_eq!(parse_toggle_tap_threshold_ms(Some("+50".into())), 50);
    assert_eq!(parse_toggle_tap_threshold_ms(Some("007".into())), 7);
    assert_eq!(parse_toggle_tap_threshold_ms(Some("-5".into())), 80);
    assert_eq!(parse_toggle_tap_threshold_ms(Some("1 0".into())), 80);
    assert_eq!(parse_toggle_max_duration_s(Some("601".into())), 60);
    assert_eq!(parse_toggle_max_duration_s(Some("99999999999999999999999".into())), 60);
    assert_eq!(parse_toggle_max_duration_s(Some("1".into())), 1);
}

#[test]
fn installing_needs_the_permission_and_the_tap() {
    assert!(install(true, true).is_ok());
    assert!(matches!(install(false, true), Err(MuniError::InputMonitoringDenied)));
    assert!(matches!(install(true, false), Err(MuniError::HotkeyTapInstallFailed)));
    assert!(install_keydown_monitor(true, true).is_ok());
    assert!(install_keydown_monitor(false, true).is_ok());
    assert!(install_keydown_monitor(true, false).is_ok());
    assert!(matches!(
        install_keydown_monitor(false, false),
        Err(MuniError::HotkeyTapInstallFailed)
    ));
}

#[test]
fn toggle_keys_send_on_press_only() {
    let keys = toggle_keys();
    assert_eq!(keys.len(), 3);
    let mut seen = Vec::new();
    for key in keys {
        assert!(key.message(false).is_none());
        seen.push((key.accelerator(), key.message(true)));
    }
    assert_eq!(
        seen,
        vec![
            ("Escape", Some(HotkeyMsg::EscPressed)),
            ("Enter", Some(HotkeyMsg::EnterPressed)),
            ("NumpadEnter", Some(HotkeyMsg::EnterPressed)),
        ]
    );
    assert_eq!(ToggleKey::Escape.accelerator(), "Escape");
}
