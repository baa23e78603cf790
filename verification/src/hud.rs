//! The overlay window: when it is shown and when it is hidden.
//!
//! Hiding is put off, so that the overlay can fade out and a short press can
//! be seen at all. Each change counts up a generation, and a hide that was put
//! off takes place only if none came after it. Times are milliseconds since
//! 1970.

use vstd::prelude::*;

use crate::session::SessionState;

verus! {

/// Label of the overlay window.
pub const HUD_WINDOW_LABEL: &'static str = "hud";

/// How long the overlay takes to fade out.
pub const HUD_HIDE_DELAY_MS: u64 = 150;

/// How long the overlay is shown at least.
pub const HUD_MIN_VISIBLE_MS: u64 = 400;

/// How long a notice is shown.
pub const HUD_NOTICE_DWELL_MS: u64 = 2500;

/// What the overlay goes by.
#[derive(Debug, Clone, Copy, PartialEq, Eq, Structural)]
pub struct HudController {
    /// The number of changes so far.
    pub hide_generation: u64,
    /// When the overlay was last shown; zero if it never was.
    pub last_shown_ms: u64,
    /// Until when a notice is to be seen; zero if there is none.
    pub notice_until_ms: u64,
}

impl Default for HudController {
    /// An overlay that was never shown.
    fn default() -> (controller: Self)
        ensures
            controller == (HudController {
                hide_generation: 0,
                last_shown_ms: 0,
                notice_until_ms: 0,
            }),
    {
        HudController { hide_generation: 0, last_shown_ms: 0, notice_until_ms: 0 }
    }
}

/// A hide that is put off.
#[derive(Debug, Clone, Copy, PartialEq, Eq, Structural)]
pub struct PendingHide {
    pub generation: u64,
    pub delay_ms: u64,
}

/// What a change of the session means for the overlay.
#[derive(Debug, Clone, Copy, PartialEq, Eq, Structural)]
pub enum HudAction {
    /// There is no overlay.
    Missing,
    /// It stays as it is, and no hide that was put off takes place.
    Keep,
    /// It is moved to the active screen and shown.
    Show,
    /// It is hidden later.
    HideLater(PendingHide),
}

/// The generation after one more change.
pub open spec fn next_generation(generation: u64) -> u64 {
    if generation == u64::MAX {
        0
    } else {
        (generation + 1) as u64
    }
}

/// The difference of two times, or zero if the first is not the later one.
pub open spec fn time_left(until: u64, now: u64) -> int {
    if until > now {
        until - now
    } else {
        0
    }
}

/// Whether a session that stands here is seen on the overlay.
pub open spec fn pill_visible(state: SessionState) -> bool {
    state == SessionState::Listening || state == SessionState::ListeningLocked || state
        == SessionState::Cleaning || state == SessionState::Recovering
}

/// Whether a session that stands here has just begun to listen.
pub open spec fn listening(state: SessionState) -> bool {
    state == SessionState::Listening || state == SessionState::ListeningLocked
}

/// The delay before a hide: what is left of the time that the overlay is to be
/// seen, and then the time that it takes to fade out.
pub open spec fn hide_delay(elapsed_ms: Option<u64>, min_visible_ms: u64, base_ms: u64) -> int {
    match elapsed_ms {
        Some(elapsed) => time_left(min_visible_ms, elapsed) + base_ms,
        None => base_ms as int,
    }
}

/// The delay before a hide.
pub fn hide_delay_with_min_visible(
    elapsed_since_shown_ms: Option<u64>,
    min_visible_ms: u64,
    base_delay_ms: u64,
) -> (delay_ms: u64)
    requires
        min_visible_ms + base_delay_ms <= u64::MAX,
    ensures
        delay_ms == hide_delay(elapsed_since_shown_ms, min_visible_ms, base_delay_ms),
{
    let elapsed: u64 = match elapsed_since_shown_ms {
        None => return base_delay_ms,
        Some(elapsed) => elapsed,
    };
    if elapsed >= min_visible_ms {
        return base_delay_ms;
    }
    (min_visible_ms - elapsed) + base_delay_ms
}

impl HudController {
    /// How long ago the overlay was last shown, if it ever was.
    pub open spec fn shown_for(self, now_ms: u64) -> Option<u64> {
        if self.last_shown_ms == 0 {
            None
        } else {
            Some(time_left(now_ms, self.last_shown_ms) as u64)
        }
    }

    /// The delay before a hide that the end of a session asks for: it does not
    /// cut short a notice.
    pub open spec fn release_delay(self, now_ms: u64) -> int {
        let delay = hide_delay(self.shown_for(now_ms), HUD_MIN_VISIBLE_MS, HUD_HIDE_DELAY_MS);
        let notice = time_left(self.notice_until_ms, now_ms);
        if delay >= notice {
            delay
        } else {
            notice
        }
    }

    /// An overlay that was never shown.
    pub fn new() -> (controller: Self)
        ensures
            controller == (HudController {
                hide_generation: 0,
                last_shown_ms: 0,
                notice_until_ms: 0,
            }),
    {
        HudController::default()
    }

    /// Counts a change.
    pub fn bump_generation(&mut self) -> (generation: u64)
        ensures
            generation == next_generation(old(self).hide_generation),
            *final(self) == (HudController { hide_generation: generation, ..*old(self) }),
    {
        self.hide_generation = self.hide_generation.wrapping_add(1);
        self.hide_generation
    }

    /// The number of changes so far.
    pub fn current_generation(&self) -> (generation: u64)
        ensures
            generation == self.hide_generation,
    {
        self.hide_generation
    }

    /// Takes in that the overlay is shown.
    pub fn record_shown(&mut self, now_ms: u64)
        ensures
            *final(self) == (HudController { last_shown_ms: now_ms, ..*old(self) }),
    {
        self.last_shown_ms = now_ms;
    }

    /// How long ago the overlay was last shown, if it ever was.
    pub fn elapsed_since_shown(&self, now_ms: u64) -> (elapsed_ms: Option<u64>)
        ensures
            elapsed_ms == self.shown_for(now_ms),
    {
        if self.last_shown_ms == 0 {
            return None;
        }
        Some(now_ms.saturating_sub(self.last_shown_ms))
    }

    /// Takes in that a notice is to be seen for `dwell_ms`.
    pub fn record_notice(&mut self, dwell_ms: u64, now_ms: u64)
        ensures
            *final(self) == (HudController {
                notice_until_ms: if now_ms + dwell_ms <= u64::MAX {
                    (now_ms + dwell_ms) as u64
                } else {
                    u64::MAX
                },
                ..*old(self)
            }),
    {
        self.notice_until_ms = now_ms.saturating_add(dwell_ms);
    }

    /// Takes in that no notice is to be seen any more.
    pub fn clear_notice(&mut self)
        ensures
            *final(self) == (HudController { notice_until_ms: 0, ..*old(self) }),
    {
        self.notice_until_ms = 0;
    }

    /// How much longer a notice is to be seen.
    pub fn remaining_notice_dwell(&self, now_ms: u64) -> (remaining_ms: u64)
        ensures
            remaining_ms == time_left(self.notice_until_ms, now_ms),
    {
        self.notice_until_ms.saturating_sub(now_ms)
    }

    /// Takes in where the session stands now. Listening shows the overlay and
    /// takes it over from any notice; while the dictation is worked on it
    /// stays; after that it is hidden.
    pub fn handle_state_change(&mut self, window: bool, state: SessionState, now_ms: u64) -> (
        action: HudAction)
        ensures
            !window ==> action == HudAction::Missing && *final(self) == *old(self),
            window && listening(state) ==> {
                &&& action == HudAction::Show
                &&& *final(self) == HudController {
                    hide_generation: next_generation(old(self).hide_generation),
                    last_shown_ms: now_ms,
                    notice_until_ms: 0,
                }
            },
            window && !listening(state) ==> *final(self) == (HudController {
                hide_generation: next_generation(old(self).hide_generation),
                ..*old(self)
            }),
            window && !listening(state) && pill_visible(state) ==> action == HudAction::Keep,
            window && !pill_visible(state) ==> action == HudAction::HideLater(
                PendingHide {
                    generation: final(self).hide_generation,
                    delay_ms: old(self).release_delay(now_ms) as u64,
                },
            ) && old(self).release_delay(now_ms) <= u64::MAX,
    {
        if !window {
            return HudAction::Missing;
        }
        match state {
            SessionState::Listening | SessionState::ListeningLocked => {
                self.bump_generation();
                self.record_shown(now_ms);
                self.clear_notice();
                HudAction::Show
            },
            SessionState::Cleaning | SessionState::Recovering => {
                self.bump_generation();
                HudAction::Keep
            },
            SessionState::Idle | SessionState::Error => {
                let generation: u64 = self.bump_generation();
                let release: u64 = hide_delay_with_min_visible(
                    self.elapsed_since_shown(now_ms),
                    HUD_MIN_VISIBLE_MS,
                    HUD_HIDE_DELAY_MS,
                );
                let notice: u64 = self.remaining_notice_dwell(now_ms);
                let delay_ms: u64 = if release >= notice {
                    release
                } else {
                    notice
                };
                HudAction::HideLater(PendingHide { generation, delay_ms })
            },
        }
    }

    /// Takes in that a notice is shown: the overlay is moved to the active
    /// screen and shown with it, and hidden once the notice was seen and has
    /// faded.
    pub fn show_notice(&mut self, window: bool, now_ms: u64) -> (hide: Option<PendingHide>)
        ensures
            !window ==> hide is None && *final(self) == *old(self),
            window ==> hide == Some(
                PendingHide {
                    generation: final(self).hide_generation,
                    delay_ms: (HUD_NOTICE_DWELL_MS + HUD_HIDE_DELAY_MS) as u64,
                },
            ),
            window ==> *final(self) == (HudController {
                hide_generation: next_generation(next_generation(old(self).hide_generation)),
                last_shown_ms: now_ms,
                notice_until_ms: if now_ms + HUD_NOTICE_DWELL_MS + HUD_HIDE_DELAY_MS <= u64::MAX {
                    (now_ms + HUD_NOTICE_DWELL_MS + HUD_HIDE_DELAY_MS) as u64
                } else {
                    u64::MAX
                },
            }),
    {
        if !window {
            return None;
        }
        self.bump_generation();
        self.record_shown(now_ms);
        self.record_notice(HUD_NOTICE_DWELL_MS + HUD_HIDE_DELAY_MS, now_ms);
        let generation: u64 = self.bump_generation();
        Some(PendingHide { generation, delay_ms: HUD_NOTICE_DWELL_MS + HUD_HIDE_DELAY_MS })
    }

    /// Whether a hide that was put off takes place: only if nothing came after
    /// it.
    pub fn hides(&self, pending: PendingHide) -> (hides: bool)
        ensures
            hides == (self.hide_generation == pending.generation),
    {
        self.current_generation() == pending.generation
    }

    /// Whether the hide after a notice takes place: only if nothing came after
    /// it, and no session is seen on the overlay.
    pub fn notice_hides(&self, pending: PendingHide, session: Option<SessionState>) -> (hides: bool)
        ensures
            hides == (self.hide_generation == pending.generation && !(session matches Some(state)
                && pill_visible(state))),
    {
        if self.current_generation() != pending.generation {
            return false;
        }
        !session_is_pill_visible(session)
    }
}

/// Whether a session is seen on the overlay, if it is known where it stands.
pub fn session_is_pill_visible(session: Option<SessionState>) -> (visible: bool)
    ensures
        visible == (session matches Some(state) && pill_visible(state)),
{
    match session {
        Some(SessionState::Listening) => true,
        Some(SessionState::ListeningLocked) => true,
        Some(SessionState::Cleaning) => true,
        Some(SessionState::Recovering) => true,
        _ => false,
    }
}

/// The generation after many more changes.
pub open spec fn generation_after(generation: u64, changes: nat) -> u64
    decreases changes,
{
    if changes == 0 {
        generation
    } else {
        next_generation(generation_after(generation, (changes - 1) as nat))
    }
}

proof fn generation_counts(generation: u64, changes: nat)
    ensures
        generation_after(generation, changes) == (generation + changes) % 0x1_0000_0000_0000_0000,
    decreases changes,
{
    if changes > 0 {
        generation_counts(generation, (changes - 1) as nat);
    }
}

/// A hide that was put off does not take place once anything came after it,
/// unless as much came as can be counted.
pub proof fn superseded_hide_is_dropped(generation: u64, changes: nat)
    requires
        0 < changes < 0x1_0000_0000_0000_0000,
    ensures
        generation_after(generation, changes) != generation,
{
    generation_counts(generation, changes);
}

/// A hide that the end of a session asks for takes place when the overlay has
/// been seen for long enough and the time to fade out has passed, and not
/// before a notice was seen for long enough.
pub proof fn overlay_is_seen_long_enough(controller: HudController, now_ms: u64)
    requires
        controller.last_shown_ms <= now_ms,
    ensures
        controller.last_shown_ms != 0 ==> now_ms + controller.release_delay(now_ms)
            >= controller.last_shown_ms + HUD_MIN_VISIBLE_MS + HUD_HIDE_DELAY_MS,
        now_ms + controller.release_delay(now_ms) >= controller.notice_until_ms,
        controller.release_delay(now_ms) >= HUD_HIDE_DELAY_MS,
{
}

/// Which screen the overlay goes to.
#[derive(Debug, Clone, Copy, PartialEq, Eq, Structural)]
pub enum MonitorChoice {
    /// The screen with this place in the list.
    Listed(usize),
    /// The screen that the overlay is on.
    Current,
    /// There is no screen.
    NoScreen,
}

/// Which screen the overlay goes to: the one with the pointer, else the one
/// that it is on, else the first.
pub fn pick_active_monitor(
    count: usize,
    cursor_hit: Option<usize>,
    current_known: bool,
) -> (choice: MonitorChoice)
    ensures
        choice == match cursor_hit {
            Some(index) => MonitorChoice::Listed(index),
            None => if current_known {
                MonitorChoice::Current
            } else if count > 0 {
                MonitorChoice::Listed(0)
            } else {
                MonitorChoice::NoScreen
            },
        },
{
    if let Some(index) = cursor_hit {
        return MonitorChoice::Listed(index);
    }
    if current_known {
        return MonitorChoice::Current;
    }
    if count > 0 {
        MonitorChoice::Listed(0)
    } else {
        MonitorChoice::NoScreen
    }
}

/// A hide that the end of a session asks for comes no later than it must: after
/// 150 milliseconds, or when the overlay has been seen for 400 and faded for
/// 150, or when the notice was seen for long enough. One that was shown in the
/// future, by a clock that was set back, counts as just shown.
pub proof fn overlay_is_not_kept_longer(controller: HudController, now_ms: u64)
    ensures
        ({
            let delay = controller.release_delay(now_ms);
            let least = if controller.last_shown_ms > now_ms {
                550
            } else if controller.last_shown_ms != 0 && controller.last_shown_ms + 400 > now_ms {
                controller.last_shown_ms + 550 - now_ms
            } else {
                150
            };
            let notice = controller.notice_until_ms - now_ms;
            &&& delay >= least && delay >= notice
            &&& delay == least || delay == notice
        }),
{
}

/// The delay before a hide is what is asked for, and on top of it what is left
/// of the time that the overlay is to be seen.
pub proof fn hides_wait_for_what_is_left(
    elapsed_ms: Option<u64>,
    min_visible_ms: u64,
    base_ms: u64,
)
    ensures
        elapsed_ms is None ==> hide_delay(elapsed_ms, min_visible_ms, base_ms) == base_ms,
        elapsed_ms matches Some(elapsed) ==> {
            &&& elapsed >= min_visible_ms ==> hide_delay(elapsed_ms, min_visible_ms, base_ms)
                == base_ms
            &&& elapsed < min_visible_ms ==> elapsed + hide_delay(
                elapsed_ms,
                min_visible_ms,
                base_ms,
            ) == min_visible_ms + base_ms
        },
{
}

/// The overlay is seen while a session listens and while the dictation is worked
/// on, and neither at rest nor after a failure.
pub proof fn sessions_seen_on_the_overlay(state: SessionState)
    ensures
        pill_visible(state) <==> state != SessionState::Idle && state != SessionState::Error,
        listening(state) <==> state == SessionState::Listening || state
            == SessionState::ListeningLocked,
{
}

/// Whatever the overlay did before: listening shows it, working on the dictation
/// keeps it, and the end hides it later. Each of them makes every hide that was
/// put off before stale, and only the last is carried out.
pub proof fn session_changes_drive_the_overlay(
    controller: &mut HudController,
    state: SessionState,
    now_ms: u64,
    action: HudAction,
    stale: PendingHide,
)
    requires
        HudController::handle_state_change.ensures((controller, true, state, now_ms), action),
        stale.generation == old(controller).hide_generation,
    ensures
        action == HudAction::Show <==> state == SessionState::Listening || state
            == SessionState::ListeningLocked,
        action == HudAction::Keep <==> state == SessionState::Cleaning || state
            == SessionState::Recovering,
        action is HideLater <==> state == SessionState::Idle || state == SessionState::Error,
        action matches HudAction::HideLater(hide) ==> hide.generation
            == final(controller).hide_generation && hide.delay_ms == old(controller).release_delay(
            now_ms,
        ),
        final(controller).hide_generation != stale.generation,
        action == HudAction::Show ==> final(controller).last_shown_ms == now_ms
            && final(controller).notice_until_ms == 0,
        action != HudAction::Show ==> final(controller).last_shown_ms
            == old(controller).last_shown_ms && final(controller).notice_until_ms
            == old(controller).notice_until_ms,
{
}

/// A notice is not cut short: if the session ends while it is seen, the hide
/// that this asks for waits until the notice was seen for 2.5 seconds and has
/// faded.
pub proof fn notices_are_not_cut_short(
    before: &mut HudController,
    after: &mut HudController,
    shown_ms: u64,
    end_ms: u64,
    state: SessionState,
    hide: Option<PendingHide>,
    action: HudAction,
)
    requires
        HudController::show_notice.ensures((before, true, shown_ms), hide),
        HudController::handle_state_change.ensures((after, true, state, end_ms), action),
        *old(after) == *final(before),
        shown_ms <= end_ms,
        end_ms + 10_000 <= u64::MAX,
    ensures
        hide matches Some(hide) && hide.delay_ms == 2_650,
        hide->0.generation == final(before).hide_generation,
        action matches HudAction::HideLater(later) ==> end_ms + later.delay_ms >= shown_ms + 2_650,
        final(after).hide_generation != hide->0.generation,
{
}

/// The overlay goes to the screen with the pointer; failing that it stays where
/// it is; failing that it goes to the first screen.
pub proof fn overlay_follows_the_pointer(
    count: usize,
    hit: Option<usize>,
    known: bool,
    choice: MonitorChoice,
)
    requires
        pick_active_monitor.ensures((count, hit, known), choice),
    ensures
        hit matches Some(index) ==> choice == MonitorChoice::Listed(index),
        hit is None && known ==> choice == MonitorChoice::Current,
        hit is None && !known && count > 0 ==> choice == MonitorChoice::Listed(0),
        hit is None && !known && count == 0 ==> choice == MonitorChoice::NoScreen,
{
}

/// How long ago the overlay was shown, and how much longer a notice is seen, are
/// told by the clock, and never below zero.
pub proof fn times_of_the_overlay(
    controller: HudController,
    now_ms: u64,
    remaining_ms: u64,
)
    requires
        HudController::remaining_notice_dwell.ensures((&controller, now_ms), remaining_ms),
    ensures
        controller.last_shown_ms == 0 <==> controller.shown_for(now_ms) is None,
        controller.shown_for(now_ms) matches Some(elapsed) ==> {
            &&& now_ms >= controller.last_shown_ms ==> controller.last_shown_ms + elapsed == now_ms
            &&& now_ms < controller.last_shown_ms ==> elapsed == 0
        },
        controller.notice_until_ms >= now_ms ==> now_ms + remaining_ms
            == controller.notice_until_ms,
        controller.notice_until_ms < now_ms ==> remaining_ms == 0,
{
}

} // verus!
