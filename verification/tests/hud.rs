//! The overlay: when it is shown, and for how long.

use muni::hud::{
    hide_delay_with_min_visible, pick_active_monitor, session_is_pill_visible, HudAction,
    HudController, MonitorChoice, PendingHide, HUD_HIDE_DELAY_MS, HUD_NOTICE_DWELL_MS,
};
use muni::session::SessionState;

#[test]
fn hide_delay_uses_base_when_min_visible_already_reached() {
    let delay = hide_delay_with_min_visible(Some(2000), 400, 150);
    assert_eq!(delay, 150);
}

#[test]
fn hide_delay_uses_base_when_never_shown() {
    let delay = hide_delay_with_min_visible(None, 400, 150);
    assert_eq!(delay, 150);
}

#[test]
fn hide_delay_extends_to_floor_for_short_press() {
    let delay = hide_delay_with_min_visible(Some(5), 400, 150);
    assert_eq!(delay, 545);
}

#[test]
fn hide_delay_extends_for_press_exactly_at_floor() {
    let delay = hide_delay_with_min_visible(Some(400), 400, 150);
    assert_eq!(delay, 150);
}

#[test]
fn hide_delay_extends_for_press_just_under_floor() {
    let delay = hide_delay_with_min_visible(Some(399), 400, 150);
    assert_eq!(delay, 151);
}

#[test]
fn hud_controller_generation_is_strictly_monotonic() {
    let mut c = HudController::default();
    let g1 = c.bump_generation();
    let g2 = c.bump_generation();
    let g3 = c.bump_generation();
    assert!(g2 > g1, "g2 = {g2}, g1 = {g1}");
    assert!(g3 > g2, "g3 = {g3}, g2 = {g2}");
}

#[test]
fn notice_floor_extends_until_cleared() {
    let now = 1_000_000;
    let mut c = HudController::default();
    assert_eq!(c.remaining_notice_dwell(now), 0);

    c.record_notice(2500, now);
    let remaining = c.remaining_notice_dwell(now);
    assert!(remaining > 2000 && remaining <= 2500, "remaining = {remaining:?}");
    assert_eq!(c.remaining_notice_dwell(now + 2400), 100);

    c.clear_notice();
    assert_eq!(c.remaining_notice_dwell(now), 0);
}

#[test]
fn notice_hide_delay_is_dwell_plus_fade_budget() {
    let delay = HUD_NOTICE_DWELL_MS + HUD_HIDE_DELAY_MS;
    assert_eq!(delay, 2650);
    let mut c = HudController::new();
    assert_eq!(
        c.show_notice(true, 10_000),
        Some(PendingHide { generation: 2, delay_ms: 2650 })
    );
}

#[test]
fn hud_controller_current_matches_last_bump() {
    let mut c = HudController::default();
    let g = c.bump_generation();
    assert_eq!(c.current_generation(), g);
    let g2 = c.bump_generation();
    assert_eq!(c.current_generation(), g2);
    assert_ne!(g, g2);
}

#[test]
fn a_session_shows_keeps_and_hides_the_overlay() {
    let mut c = HudController::new();
    assert_eq!(c.handle_state_change(true, SessionState::Listening, 10_000), HudAction::Show);
    assert_eq!(c.elapsed_since_shown(10_100), Some(100));
    assert_eq!(c.handle_state_change(true, SessionState::Cleaning, 10_100), HudAction::Keep);
    assert_eq!(
        c.handle_state_change(true, SessionState::Idle, 10_150),
        HudAction::HideLater(PendingHide { generation: 3, delay_ms: 400 })
    );
    assert!(c.hides(PendingHide { generation: 3, delay_ms: 400 }));
}

#[test]
fn a_new_press_drops_the_hide_of_the_last_one() {
    let mut c = HudController::new();
    c.handle_state_change(true, SessionState::Listening, 10_000);
    let pending = match c.handle_state_change(true, SessionState::Error, 12_000) {
        HudAction::HideLater(pending) => pending,
        other => panic!("unexpected action: {other:?}"),
    };
    assert_eq!(pending.delay_ms, 150);
    c.handle_state_change(true, SessionState::ListeningLocked, 12_050);
    assert!(!c.hides(pending));
}

#[test]
fn a_notice_is_not_cut_short_by_the_end_of_a_session() {
    let mut c = HudController::new();
    let hide = c.show_notice(true, 20_000).expect("there is an overlay");
    match c.handle_state_change(true, SessionState::Idle, 20_100) {
        HudAction::HideLater(pending) => assert_eq!(pending.delay_ms, 2550),
        other => panic!("unexpected action: {other:?}"),
    }
    assert!(!c.notice_hides(hide, Some(SessionState::Idle)));
}

#[test]
fn a_notice_stays_while_a_session_is_seen() {
    let mut c = HudController::new();
    let hide = c.show_notice(true, 20_000).expect("there is an overlay");
    assert!(!c.notice_hides(hide, Some(SessionState::Listening)));
    assert!(!c.notice_hides(hide, Some(SessionState::Recovering)));
    assert!(c.notice_hides(hide, Some(SessionState::Error)));
    assert!(c.notice_hides(hide, None));
}

#[test]
fn without_a_window_nothing_happens() {
    let mut c = HudController::new();
    assert_eq!(c.handle_state_change(false, SessionState::Listening, 5), HudAction::Missing);
    assert_eq!(c.show_notice(false, 5), None);
    assert_eq!(c, HudController::default());
}

#[test]
fn the_pill_is_seen_while_a_session_runs() {
    assert!(session_is_pill_visible(Some(SessionState::ListeningLocked)));
    assert!(session_is_pill_visible(Some(SessionState::Cleaning)));
    assert!(!session_is_pill_visible(Some(SessionState::Idle)));
    assert!(!session_is_pill_visible(None));
}

#[test]
fn the_generation_wraps_around() {
    let mut c = HudController { hide_generation: u64::MAX, last_shown_ms: 0, notice_until_ms: 0 };
    assert_eq!(c.bump_generation(), 0);
}

#[test]
fn the_screen_with_the_pointer_comes_first() {
    assert_eq!(pick_active_monitor(3, Some(2), true), MonitorChoice::Listed(2));
    assert_eq!(pick_active_monitor(3, None, true), MonitorChoice::Current);
    assert_eq!(pick_active_monitor(3, None, false), MonitorChoice::Listed(0));
    assert_eq!(pick_active_monitor(0, None, false), MonitorChoice::NoScreen);
}
