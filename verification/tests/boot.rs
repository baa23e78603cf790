//! Starting the app, and arming the hotkey.

use muni::boot::{
    arm_hotkey_pipeline, background_tasks, crash_reporting, effective_launch_count, is_crash_loop,
    present_arm_failure, repaste_notice, run, session_to_tray_state, trace_gladia, ArmOutcome,
    Available, Boot, BootFacts, MainWindow, PendingHotkeyArm, Wizard,
};
use muni::error::MuniError;
use muni::hotkey_binding::RepasteBinding;
use muni::session::{SessionState, TrayState};
use muni::settings::SettingValue;

/// A number of unclean starts that makes the app start in safe mode.
const SAFE_MODE_THRESHOLD: u32 = 3;

#[test]
fn arm_failure_surfaces_only_when_onboarded() {
    let mut calls = 0u32;

    if present_arm_failure(true, MuniError::InputMonitoringDenied).is_some() {
        calls += 1;
    }
    assert_eq!(calls, 1, "onboarded arm failure must reach the presenter");

    if present_arm_failure(false, MuniError::InputMonitoringDenied).is_some() {
        calls += 1;
    }
    assert_eq!(calls, 1, "the wizard's expected first-failure must stay silent");
}

#[test]
fn sentry_gate_matches_safe_mode_on_launch_count() {
    let on_disk = SAFE_MODE_THRESHOLD - 1;
    assert!(
        is_crash_loop(effective_launch_count(on_disk), SAFE_MODE_THRESHOLD),
        "Sentry gate must skip init on the launch that boots safe mode"
    );

    let on_disk = SAFE_MODE_THRESHOLD - 2;
    assert!(
        !is_crash_loop(effective_launch_count(on_disk), SAFE_MODE_THRESHOLD),
        "below threshold-1, neither gate should trip"
    );
}

#[test]
fn session_state_maps_one_to_one_to_tray_state() {
    assert_eq!(session_to_tray_state(SessionState::Idle), TrayState::Idle);
    assert_eq!(session_to_tray_state(SessionState::Listening), TrayState::Listening);
    assert_eq!(session_to_tray_state(SessionState::Cleaning), TrayState::Cleaning);
    assert_eq!(session_to_tray_state(SessionState::Recovering), TrayState::Recovering);
    assert_eq!(session_to_tray_state(SessionState::Error), TrayState::Error);
}

#[test]
fn a_locked_session_looks_like_one_that_listens() {
    assert_eq!(session_to_tray_state(SessionState::ListeningLocked), TrayState::Listening);
}

#[test]
fn crash_reporting_is_on_unless_refused() {
    let reporting = crash_reporting(None, None, SAFE_MODE_THRESHOLD);
    assert!(reporting.enabled);
    assert!(!reporting.crash_loop);
    let reporting = crash_reporting(Some(false), Some(2), SAFE_MODE_THRESHOLD);
    assert!(!reporting.enabled);
    assert!(reporting.crash_loop);
    assert_eq!(effective_launch_count(u32::MAX), u32::MAX);
}

#[test]
fn tracing_takes_a_one() {
    assert!(trace_gladia(Some(" 1 ".to_string())));
    assert!(!trace_gladia(Some("true".to_string())));
    assert!(!trace_gladia(None));
}

fn facts(onboarding: Option<SettingValue>) -> BootFacts {
    BootFacts {
        updater_configured: true,
        unclean_launches: 1,
        safe_mode_threshold: SAFE_MODE_THRESHOLD,
        onboarding,
        english_fast_mode: Some(SettingValue::Bool(true)),
        bilingual_mode: Some(SettingValue::Bool(true)),
        main_window: true,
        onboarding_window: true,
        hud_window: true,
    }
}

#[test]
fn an_onboarded_user_gets_everything() {
    match run(&facts(Some(SettingValue::Bool(true)))) {
        Boot::Normal(plan) => {
            assert!(plan.onboarding_complete);
            assert_eq!(plan.main_window, MainWindow::Show);
            assert_eq!(plan.wizard, Wizard::NotNeeded);
            assert!(plan.english_fast_mode);
            assert!(plan.clear_bilingual_mode);
            assert!(plan.build_tray && plan.check_for_updates && plan.arm_hotkey);
            assert!(plan.reconcile_launch_at_login && plan.schedule_healthy_reset);
            assert!(plan.configure_hud);
        }
        other => panic!("unexpected start: {other:?}"),
    }
}

#[test]
fn a_new_user_gets_the_introduction_alone() {
    match run(&facts(None)) {
        Boot::Normal(plan) => {
            assert_eq!(plan.main_window, MainWindow::Hide);
            assert_eq!(plan.wizard, Wizard::Show);
            assert!(!plan.build_tray && !plan.arm_hotkey && !plan.reconcile_launch_at_login);
        }
        other => panic!("unexpected start: {other:?}"),
    }
    let without_windows = BootFacts { main_window: false, onboarding_window: false, ..facts(None) };
    match run(&without_windows) {
        Boot::Normal(plan) => {
            assert_eq!(plan.main_window, MainWindow::Missing);
            assert_eq!(plan.wizard, Wizard::Missing);
        }
        other => panic!("unexpected start: {other:?}"),
    }
}

#[test]
fn safe_mode_needs_an_updater() {
    let looping = BootFacts { unclean_launches: SAFE_MODE_THRESHOLD, ..facts(None) };
    assert_eq!(run(&looping), Boot::SafeMode);
    let stuck = BootFacts { updater_configured: false, ..looping };
    assert!(matches!(run(&stuck), Boot::Normal(_)));
}

#[test]
fn tasks_run_where_they_have_something_to_do() {
    let nothing = Available {
        history_store: false,
        usage_store: false,
        shared_http: false,
        groq_client: false,
        cleanup_prompt: false,
        keepalive: true,
        warmup: true,
        rewarm: false,
    };
    let tasks = background_tasks(&nothing);
    assert!(!tasks.retention_purge && !tasks.usage_writer && !tasks.prices_refresher);
    assert!(!tasks.keepalive && !tasks.warmup && !tasks.rewarm);
    let tasks = background_tasks(&Available { history_store: true, shared_http: true, ..nothing });
    assert!(tasks.retention_purge && tasks.keepalive && !tasks.usage_writer);
}

#[test]
fn the_notice_names_the_shortcut() {
    assert_eq!(
        repaste_notice(Some(&RepasteBinding::default_repaste())),
        "Press ⌃⌘V to insert your dictation"
    );
    assert_eq!(
        repaste_notice(None),
        "Nothing focused — your dictation is saved in history"
    );
}

#[test]
fn a_failed_start_can_be_tried_again() {
    let mut pending = PendingHotkeyArm::new("pipeline");
    let failed = arm_hotkey_pipeline(&mut pending, |_| Err(MuniError::InputMonitoringDenied), true);
    assert_eq!(
        failed,
        ArmOutcome::Failed { surface: Some(MuniError::InputMonitoringDenied) }
    );
    let silent = arm_hotkey_pipeline(&mut pending, |_| Err(MuniError::InputMonitoringDenied), false);
    assert_eq!(silent, ArmOutcome::Failed { surface: None });
    let armed = arm_hotkey_pipeline(
        &mut pending,
        |inner: &&str| {
            assert_eq!(*inner, "pipeline");
            Ok(())
        },
        true,
    );
    assert_eq!(armed, ArmOutcome::Armed("pipeline"));
    let again = arm_hotkey_pipeline(&mut pending, |_| unreachable!(), true);
    assert_eq!(again, ArmOutcome::AlreadyArmed);
}

#[test]
fn what_waits_is_taken_once() {
    let mut pending = PendingHotkeyArm::new(1);
    assert_eq!(pending.take(), Some(1));
    assert_eq!(pending.take(), None);
    pending.put_back(2);
    pending.put_back(3);
    assert_eq!(pending.take(), Some(2));
}
