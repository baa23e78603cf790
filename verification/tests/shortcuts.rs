//! The two global shortcuts.

use muni::hotkey::HotkeyTriggerState;
use muni::hotkey_binding::{DictationBinding, HotkeyModifier, RepasteBinding};
use muni::injection::Platform;
use muni::shortcuts::{
    force_disarm_recording, heal_failed_registration, is_dictation_transition, plan_rebind_steps,
    rebind_superseded, set_recording_suppression, try_claim_repaste, DictationShortcutController,
    Heal, RebindStep, RecordingWatchdog, RepasteController, ShortcutSlot,
};

#[test]
fn is_dictation_transition_forwards_only_real_edges() {
    let mut held = false;

    assert!(is_dictation_transition(&mut held, true));
    assert!(!is_dictation_transition(&mut held, true));
    assert!(!is_dictation_transition(&mut held, true));
    assert!(is_dictation_transition(&mut held, false));
    assert!(!is_dictation_transition(&mut held, false));
    assert!(is_dictation_transition(&mut held, true));
}

#[test]
fn repaste_in_flight_guard_drops_reentrant_press() {
    let mut controller = RepasteController::new();
    assert!(try_claim_repaste(&mut controller.in_flight), "first press claims the slot");
    assert!(
        !try_claim_repaste(&mut controller.in_flight),
        "a re-entrant press must be dropped while one is in flight"
    );
    controller.repaste_done();
    assert!(!controller.in_flight, "the guard must clear the flag on drop");
    assert!(
        try_claim_repaste(&mut controller.in_flight),
        "a fresh press after completion claims the slot again"
    );
}

#[test]
fn recording_watchdog_generation_invalidates_stale_arms() {
    let mut watchdog = RecordingWatchdog::default();
    let gen1 = watchdog.bump();
    assert_eq!(watchdog.current(), gen1);
    let gen2 = watchdog.bump();
    assert_ne!(gen1, gen2);
    assert_ne!(watchdog.current(), gen1, "stale watchdog is invalidated");
    assert_eq!(watchdog.current(), gen2, "the newest arm is current");
}

#[test]
fn rebind_version_counter_supersedes_stale_dispatch() {
    let mut slot = ShortcutSlot::new();

    let v1 = slot.rebind(Some("A".to_string())).version;
    assert!(
        !rebind_superseded(v1, slot.apply_version),
        "the only in-flight rebind must not be considered superseded"
    );

    let v2 = slot.rebind(Some("B".to_string())).version;
    assert!(
        rebind_superseded(v1, slot.apply_version),
        "v1 was superseded by the newer v2 and must skip"
    );
    assert!(
        !rebind_superseded(v2, slot.apply_version),
        "v2 is the newest rebind and must proceed"
    );
}

#[test]
fn superseded_rebind_still_unregisters_old_accel_but_skips_register() {
    assert_eq!(
        plan_rebind_steps(Some("Z".into()), Some("A".into()), true),
        vec![RebindStep::Unregister("Z".into())],
        "a superseded rebind must unregister its old accel and skip register"
    );

    assert_eq!(
        plan_rebind_steps(Some("A".into()), Some("B".into()), false),
        vec![
            RebindStep::Unregister("A".into()),
            RebindStep::Register("B".into())
        ],
        "the current rebind must unregister the old accel then register the new"
    );

    assert_eq!(
        plan_rebind_steps(Some("Z".into()), None, false),
        vec![RebindStep::Unregister("Z".into()), RebindStep::ClearHeld],
        "a disable rebind must unregister then clear the held tracker"
    );

    assert_eq!(
        plan_rebind_steps(None, Some("X".into()), false),
        vec![RebindStep::Register("X".into())],
        "a first bind with no prior accel must register only"
    );

    assert_eq!(
        plan_rebind_steps(None, Some("X".into()), true),
        Vec::<RebindStep>::new(),
        "a superseded bind with no old accel must do nothing"
    );
}

fn keyed(key: &str) -> DictationBinding {
    DictationBinding::Modifiers {
        mods: vec![HotkeyModifier::Control],
        key: Some(key.to_string()),
        display_key: None,
    }
}

/// Carries out the steps on what is registered.
fn perform(live: &mut Vec<String>, steps: Vec<RebindStep>) {
    for step in steps {
        match step {
            RebindStep::Unregister(accel) => live.retain(|other| *other != accel),
            RebindStep::Register(accel) => {
                if !live.contains(&accel) {
                    live.push(accel);
                }
            }
            RebindStep::ClearHeld => {}
        }
    }
}

#[test]
fn changes_that_overlap_leave_the_last_one_registered() {
    let mut controller = DictationShortcutController::new();
    let mut live = Vec::new();
    let first = controller.apply(&keyed("KeyA"));
    let second = controller.apply(&keyed("KeyB"));
    let third = controller.apply(&keyed("KeyC"));
    for job in [first, second, third] {
        let steps = controller.slot.rebind_steps(job);
        perform(&mut live, steps);
    }
    assert_eq!(live, vec!["Control+KeyC".to_string()]);

    let off = controller.apply(&DictationBinding::default_dictation());
    perform(&mut live, controller.slot.rebind_steps(off));
    assert!(live.is_empty());
}

#[test]
fn recording_sets_a_shortcut_aside_and_takes_it_up_again() {
    let mut controller = RepasteController::new();
    assert!(controller.set_recording(true).is_none());
    let job = controller.apply(Some(&RepasteBinding::default_repaste()));
    let mut live = Vec::new();
    perform(&mut live, controller.slot.rebind_steps(job));
    let aside = controller.set_recording(true).expect("it is bound");
    perform(&mut live, controller.slot.recording_steps(aside));
    assert!(live.is_empty());
    let back = controller.set_recording(false).expect("it is bound");
    perform(&mut live, controller.slot.recording_steps(back));
    assert_eq!(live, vec!["Control+Command+KeyV".to_string()]);
}

#[test]
fn a_shortcut_that_changed_while_recording_is_not_taken_up_again() {
    let mut controller = DictationShortcutController::new();
    let _ = controller.apply(&keyed("KeyA"));
    let back = controller.set_recording(false).expect("it is bound");
    let _ = controller.apply(&keyed("KeyB"));
    assert!(controller.slot.recording_steps(back).is_empty());
}

#[test]
fn a_fresh_registration_counts_as_up() {
    let mut controller = DictationShortcutController::new();
    assert_eq!(controller.on_edge(true), Some(true));
    assert_eq!(controller.on_edge(true), None);
    assert!(!controller.slot.begin_register(true));
    assert!(controller.slot.held);
    assert!(controller.slot.begin_register(false));
    assert!(!controller.slot.held);
    assert_eq!(controller.on_edge(false), None);
    assert_eq!(controller.on_edge(true), Some(true));
    controller.slot.clear_held();
    assert_eq!(controller.on_edge(true), Some(true));
}

#[test]
fn a_repaste_takes_a_press() {
    let mut controller = RepasteController::new();
    assert!(controller.on_edge(true));
    assert!(!controller.on_edge(true));
    assert!(!controller.on_edge(false));
    assert!(!controller.on_edge(true));
    controller.repaste_done();
    assert!(!controller.on_edge(false));
    assert!(controller.on_edge(true));
}

#[test]
fn a_refused_shortcut_is_given_up() {
    assert_eq!(
        heal_failed_registration("dictation"),
        Some(Heal::Dictation(DictationBinding::default_dictation()))
    );
    assert_eq!(heal_failed_registration("repaste"), Some(Heal::Repaste));
    assert_eq!(heal_failed_registration("other"), None);
}

#[test]
fn recording_silences_everything_until_the_timer_runs_out() {
    let mut trigger = HotkeyTriggerState::from_binding(
        &DictationBinding::default_dictation(),
        Platform::MacOs,
    );
    let mut dictation = DictationShortcutController::new();
    let _ = dictation.apply(&keyed("KeyA"));
    let repaste = RepasteController::new();
    let mut watchdog = RecordingWatchdog::default();
    let armed = set_recording_suppression(
        &mut trigger,
        Some(&dictation),
        Some(&repaste),
        &mut watchdog,
        true,
    );
    assert!(trigger.suppressed);
    assert!(armed.dictation.expect("it is bound").recording);
    assert!(armed.repaste.is_none());
    let timer = armed.timer.expect("a timer is started");

    let stale = force_disarm_recording(&mut trigger, None, None, &watchdog, timer + 1);
    assert!(stale.is_none());
    assert!(trigger.suppressed);
    let disarmed = force_disarm_recording(
        &mut trigger,
        Some(&dictation),
        Some(&repaste),
        &watchdog,
        timer,
    );
    let disarmed = disarmed.expect("the timer is current");
    assert!(!trigger.suppressed);
    assert!(!disarmed.dictation.expect("it is bound").recording);

    let ended = set_recording_suppression(&mut trigger, None, None, &mut watchdog, false);
    assert!(ended.timer.is_none());
    assert!(!watchdog.fires(timer));
}
