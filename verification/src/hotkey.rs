//! The dictation hotkey: from modifier edges to the start and end of sessions.
//!
//! Holding the hotkey past the debounce time starts a session that ends when
//! it is let go. Tapping it starts a session that is locked: it ends when the
//! hotkey is tapped again, on Enter, on Escape, or after a time of silence.
//! Letting go between the two does nothing.
//!
//! Time is a number of milliseconds on a clock that never goes back.

use vstd::prelude::*;

use crate::error::MuniError;
use crate::hotkey_binding::{flags_mask, mask_matches_held_modifiers};
use crate::hotkey_binding::{DictationBinding, HotkeyModifier};
use crate::injection::Platform;
use crate::session::{HotkeyMode, ReleaseKind};
use crate::text::{decimal, decimal_digits, decimal_round_trip, parse_decimal, same_text};
use crate::text::{trim, trimmed};

verus! {

/// How long the hotkey must be held before a session starts.
pub const DEFAULT_DEBOUNCE_MS: u64 = 150;

/// Environment variable that sets how short a tap is, in milliseconds.
pub const TOGGLE_TAP_THRESHOLD_ENV: &'static str = "MUNI_TOGGLE_TAP_THRESHOLD_MS";

/// Letting go before this time is a tap.
pub const DEFAULT_TOGGLE_TAP_THRESHOLD_MS: u64 = 80;

/// Environment variable that sets how much silence ends a locked session, in
/// seconds.
pub const TOGGLE_MAX_DURATION_ENV: &'static str = "MUNI_TOGGLE_MAX_DURATION_S";

/// The silence that ends a locked session.
pub const DEFAULT_TOGGLE_MAX_DURATION_S: u64 = 60;

/// The longest silence that can be set.
pub const MAX_TOGGLE_DURATION_S: u64 = 600;

/// Environment variable that switches tapping off when it is `0`.
pub const TOGGLE_ENABLED_ENV: &'static str = "MUNI_TOGGLE_ENABLED";

/// Event that tells the frontend of a press.
pub const EVENT_PRESSED: &'static str = "hotkey://pressed";

/// Event that tells the frontend of a release.
pub const EVENT_RELEASED: &'static str = "hotkey://released";

/// The number that a setting stands for, white space around it aside.
pub open spec fn setting_number(raw: Option<String>) -> Option<nat> {
    match raw {
        Some(text) => decimal(trimmed(text@)),
        None => None,
    }
}

/// The number of a setting if it lies in `low..=high`, else `default`.
pub open spec fn number_within(raw: Option<String>, low: int, high: int, default: int) -> int {
    match setting_number(raw) {
        Some(n) => if low <= n <= high {
            n as int
        } else {
            default
        },
        None => default,
    }
}

/// The number of a setting if it lies in `low..=high`, else `default`.
pub fn parse_within(raw: Option<String>, low: u64, high: u64, default: u64) -> (number: u64)
    ensures
        number == number_within(raw, low as int, high as int, default as int),
{
    match raw {
        Some(text) => match parse_decimal(trim(text.as_str()).as_str(), high) {
            Some(n) => if n >= low {
                n
            } else {
                default
            },
            None => default,
        },
        None => default,
    }
}

/// The tap threshold that a setting asks for. It must be shorter than the
/// debounce time, or a press by accident would count as a tap.
pub fn parse_toggle_tap_threshold_ms(raw: Option<String>) -> (ms: u64)
    ensures
        ms == number_within(
            raw,
            1,
            DEFAULT_DEBOUNCE_MS - 1,
            DEFAULT_TOGGLE_TAP_THRESHOLD_MS as int,
        ),
        0 < ms < DEFAULT_DEBOUNCE_MS,
{
    parse_within(raw, 1, DEFAULT_DEBOUNCE_MS - 1, DEFAULT_TOGGLE_TAP_THRESHOLD_MS)
}

/// The silence, in seconds, that a setting asks for.
pub fn parse_toggle_max_duration_s(raw: Option<String>) -> (seconds: u64)
    ensures
        seconds == number_within(
            raw,
            1,
            MAX_TOGGLE_DURATION_S as int,
            DEFAULT_TOGGLE_MAX_DURATION_S as int,
        ),
        0 < seconds <= MAX_TOGGLE_DURATION_S,
{
    parse_within(raw, 1, MAX_TOGGLE_DURATION_S, DEFAULT_TOGGLE_MAX_DURATION_S)
}

/// Whether tapping is on: it is, unless the setting is `0`.
pub fn parse_toggle_enabled(raw: Option<String>) -> (enabled: bool)
    ensures
        enabled == !(raw matches Some(text) && trimmed(text@) == "0"@),
{
    match raw {
        Some(text) => !same_text(trim(text.as_str()).as_str(), "0"),
        None => true,
    }
}

/// The settings of the state machine.
#[derive(Debug, Clone, Copy, PartialEq, Eq, Structural)]
pub struct HotkeyConfig {
    pub debounce_ms: u64,
    pub tap_threshold_ms: u64,
    pub max_toggle_duration_s: u64,
    pub toggle_enabled: bool,
}

impl HotkeyConfig {
    /// The settings that the values of the environment variables ask for.
    pub fn from_env(
        tap_threshold: Option<String>,
        max_duration: Option<String>,
        toggle_enabled: Option<String>,
    ) -> (config: Self)
        ensures
            config.debounce_ms == DEFAULT_DEBOUNCE_MS,
            config.tap_threshold_ms == number_within(
                tap_threshold,
                1,
                DEFAULT_DEBOUNCE_MS - 1,
                DEFAULT_TOGGLE_TAP_THRESHOLD_MS as int,
            ),
            config.max_toggle_duration_s == number_within(
                max_duration,
                1,
                MAX_TOGGLE_DURATION_S as int,
                DEFAULT_TOGGLE_MAX_DURATION_S as int,
            ),
            config.toggle_enabled == !(toggle_enabled matches Some(text) && trimmed(text@)
                == "0"@),
            0 < config.tap_threshold_ms < config.debounce_ms,
    {
        HotkeyConfig {
            debounce_ms: DEFAULT_DEBOUNCE_MS,
            tap_threshold_ms: parse_toggle_tap_threshold_ms(tap_threshold),
            max_toggle_duration_s: parse_toggle_max_duration_s(max_duration),
            toggle_enabled: parse_toggle_enabled(toggle_enabled),
        }
    }
}

/// The state of the listener that watches the modifiers go down and up.
#[derive(Debug, Clone, Copy, PartialEq, Eq, Structural)]
pub struct HotkeyTriggerState {
    /// The bits of the modifiers that must be down.
    pub required_flags: u64,
    /// The edge that was forwarded last.
    pub last_sent: bool,
    /// Whether a shortcut is being recorded, so that nothing is forwarded.
    pub suppressed: bool,
    /// Whether the binding has a key, so that a shortcut gives the edges.
    pub key_bound: bool,
}

/// The bits of the modifiers that must be down on a system. Only on macOS is
/// there a listener that goes by them.
pub open spec fn required_flags(modifiers: Seq<HotkeyModifier>, platform: Platform) -> u64 {
    if platform == Platform::MacOs {
        flags_mask(modifiers)
    } else {
        0
    }
}

fn required_flags_of(binding: &DictationBinding, platform: Platform) -> (flags: u64)
    ensures
        flags == required_flags(binding.modifiers(), platform),
{
    match platform {
        Platform::MacOs => binding.required_flags_mask(),
        _ => 0,
    }
}

impl HotkeyTriggerState {
    /// Whether the modifiers are all down, whatever other bits are set.
    pub open spec fn held(self, flags_bits: u64) -> bool {
        (flags_bits & self.required_flags) == self.required_flags
    }

    /// Whether edges are forwarded at all.
    pub open spec fn listening(self) -> bool {
        !self.suppressed && !self.key_bound
    }

    /// The state for a binding, with the modifiers up.
    pub fn from_binding(binding: &DictationBinding, platform: Platform) -> (trigger: Self)
        ensures
            trigger == (HotkeyTriggerState {
                required_flags: required_flags(binding.modifiers(), platform),
                last_sent: false,
                suppressed: false,
                key_bound: binding.key_code() is Some,
            }),
    {
        HotkeyTriggerState {
            required_flags: required_flags_of(binding, platform),
            last_sent: false,
            suppressed: false,
            key_bound: binding.key().is_some(),
        }
    }

    /// Silences the listener while a shortcut is recorded, or resumes it.
    /// Silencing forgets the edge that was forwarded last, so modifiers held
    /// throughout give no release on resumption.
    pub fn set_suppressed(&mut self, suppressed: bool)
        ensures
            *final(self) == (HotkeyTriggerState {
                suppressed,
                last_sent: old(self).last_sent && !suppressed,
                ..*old(self)
            }),
    {
        if suppressed {
            self.last_sent = false;
        }
        self.suppressed = suppressed;
    }

    /// Changes the binding. What was forwarded last stays as it is.
    pub fn apply(&mut self, binding: &DictationBinding, platform: Platform)
        ensures
            *final(self) == (HotkeyTriggerState {
                required_flags: required_flags(binding.modifiers(), platform),
                key_bound: binding.key_code() is Some,
                ..*old(self)
            }),
    {
        self.required_flags = required_flags_of(binding, platform);
        self.key_bound = binding.key().is_some();
    }

    /// The bits of the modifiers that must be down.
    pub fn snapshot(&self) -> (flags: u64)
        ensures
            flags == self.required_flags,
    {
        self.required_flags
    }

    /// Takes in the flags of an event and gives the edge to forward, if there
    /// is one: the modifiers went all down, or no longer are.
    pub fn on_flags(&mut self, flags_bits: u64) -> (edge: Option<bool>)
        ensures
            !old(self).listening() ==> edge is None && *final(self) == *old(self),
            old(self).listening() ==> *final(self) == (HotkeyTriggerState {
                last_sent: old(self).held(flags_bits),
                ..*old(self)
            }),
            old(self).listening() && old(self).held(flags_bits) == old(self).last_sent ==> edge
                is None,
            old(self).listening() && old(self).held(flags_bits) != old(self).last_sent ==> edge
                == Some(old(self).held(flags_bits)),
    {
        if self.suppressed || self.key_bound {
            return None;
        }
        let required: u64 = self.required_flags;
        let both_held = (flags_bits & required) == required;
        if self.last_sent == both_held {
            return None;
        }
        self.last_sent = both_held;
        Some(both_held)
    }
}

/// The edges that are forwarded when the flags of `events` come in, one after
/// the other.
pub open spec fn forwarded(trigger: HotkeyTriggerState, events: Seq<u64>) -> Seq<bool>
    decreases events.len(),
{
    if events.len() == 0 || !trigger.listening() {
        Seq::empty()
    } else {
        let held = trigger.held(events[0]);
        let rest = forwarded(
            HotkeyTriggerState { last_sent: held, ..trigger },
            events.drop_first(),
        );
        if held == trigger.last_sent {
            rest
        } else {
            seq![held] + rest
        }
    }
}

/// However many events come in, presses and releases are forwarded in turn.
pub proof fn forwarded_edges_alternate(trigger: HotkeyTriggerState, events: Seq<u64>)
    ensures
        forall|i: int|
            0 <= i < forwarded(trigger, events).len() ==> #[trigger] forwarded(trigger, events)[i]
                == (trigger.last_sent == (i % 2 == 1)),
    decreases events.len(),
{
    if events.len() > 0 && trigger.listening() {
        let held = trigger.held(events[0]);
        let next = HotkeyTriggerState { last_sent: held, ..trigger };
        let rest = forwarded(next, events.drop_first());
        forwarded_edges_alternate(next, events.drop_first());
        let edges = forwarded(trigger, events);
        assert forall|i: int| 0 <= i < edges.len() implies #[trigger] edges[i] == (
        trigger.last_sent == (i % 2 == 1)) by {
            if held == trigger.last_sent {
                assert(next == trigger);
                assert(edges[i] == rest[i]);
            } else if i > 0 {
                assert(edges[i] == rest[i - 1]);
            }
        }
    }
}

/// What the state machine takes in.
#[derive(Debug, Clone, Copy, PartialEq, Eq, Structural)]
pub enum HotkeyMsg {
    /// The hotkey went down or up.
    FlagsChanged { both_held: bool },
    /// Escape was pressed.
    EscPressed,
    /// Enter was pressed.
    EnterPressed,
    /// A locked session has been silent for too long.
    SilenceTimeout,
    /// The hotkey is switched on or off.
    SetEnabled(bool),
    /// The app is closing.
    Shutdown,
}

/// What the state machine asks for.
#[derive(Debug, Clone, Copy, PartialEq, Eq, Structural)]
pub enum HotkeyEffect {
    /// Take over Escape and Enter, or give them back.
    ToggleShortcuts(bool),
    /// Start a session.
    Press(HotkeyMode),
    /// End the session.
    Release(ReleaseKind),
}

/// The state of the hotkey.
#[derive(Debug, Clone, Copy, PartialEq, Eq, Structural)]
pub struct State {
    pub enabled: bool,
    /// Whether a session runs because the hotkey is held.
    pub is_active: bool,
    /// When the hotkey will have been held long enough.
    pub deadline: Option<u64>,
    /// Until when letting go is a tap.
    pub tap_window_deadline: Option<u64>,
    /// Whether a locked session runs.
    pub toggle_active: bool,
    /// Whether tapping is on.
    pub toggle_enabled: bool,
    /// Letting go before this time is a tap.
    pub tap_threshold: u64,
}

impl State {
    /// At most one kind of session runs; none while a press is pending or the
    /// hotkey is off; and a tap can only be pending inside a pending press.
    pub open spec fn wf(self) -> bool {
        &&& !(self.is_active && self.toggle_active)
        &&& self.open_session() ==> self.deadline is None
        &&& self.tap_window_deadline is Some ==> self.deadline is Some && self.toggle_enabled
        &&& self.toggle_active ==> self.toggle_enabled
        &&& !self.enabled ==> !self.open_session() && self.deadline is None
    }

    /// Whether a session runs.
    pub open spec fn open_session(self) -> bool {
        self.is_active || self.toggle_active
    }

    /// The gesture that started the session that runs, if one does.
    pub open spec fn session(self) -> Option<HotkeyMode> {
        if self.is_active {
            Some(HotkeyMode::Ptt)
        } else if self.toggle_active {
            Some(HotkeyMode::ToggleLocked)
        } else {
            None
        }
    }

    /// Whether no session runs and no press is pending.
    pub open spec fn idle(self) -> bool {
        !self.open_session() && self.deadline is None && self.tap_window_deadline is None
    }

    /// Nothing is pressed and nothing runs.
    pub fn new(config: HotkeyConfig) -> (state: Self)
        ensures
            state == (State {
                enabled: true,
                is_active: false,
                deadline: None,
                tap_window_deadline: None,
                toggle_active: false,
                toggle_enabled: config.toggle_enabled,
                tap_threshold: config.tap_threshold_ms,
            }),
            state.wf(),
    {
        State {
            enabled: true,
            is_active: false,
            deadline: None,
            tap_window_deadline: None,
            toggle_active: false,
            toggle_enabled: config.toggle_enabled,
            tap_threshold: config.tap_threshold_ms,
        }
    }
}

/// What a locked session does when it ends.
pub open spec fn unlocking(kind: ReleaseKind) -> Seq<HotkeyEffect> {
    seq![HotkeyEffect::ToggleShortcuts(false), HotkeyEffect::Release(kind)]
}

/// The state after a locked session was ended, and what is done: nothing, if
/// none runs.
pub open spec fn ended(state: State, kind: ReleaseKind) -> (State, Seq<HotkeyEffect>) {
    if state.toggle_active {
        (State { toggle_active: false, ..state }, unlocking(kind))
    } else {
        (state, Seq::empty())
    }
}

/// The state after the hotkey went down or up at `now`, and what is done.
pub open spec fn flags_changed(
    state: State,
    both_held: bool,
    debounce_ms: u64,
    now_ms: u64,
) -> (State, Seq<HotkeyEffect>) {
    let cleared = State { deadline: None, tap_window_deadline: None, ..state };
    if !state.enabled {
        (state, Seq::empty())
    } else if state.toggle_active {
        if both_held {
            ended(state, ReleaseKind::Commit)
        } else {
            (state, Seq::empty())
        }
    } else if both_held {
        if state.is_active || state.deadline is Some {
            (state, Seq::empty())
        } else {
            let tap = if state.toggle_enabled {
                Some((now_ms + state.tap_threshold) as u64)
            } else {
                state.tap_window_deadline
            };
            (
                State {
                    deadline: Some((now_ms + debounce_ms) as u64),
                    tap_window_deadline: tap,
                    ..state
                },
                Seq::empty(),
            )
        }
    } else if state.is_active {
        (
            State { is_active: false, ..cleared },
            seq![HotkeyEffect::Release(ReleaseKind::Commit)],
        )
    } else if state.deadline is Some {
        if state.toggle_enabled && state.tap_window_deadline is Some {
            (
                State { toggle_active: true, ..cleared },
                seq![
                    HotkeyEffect::ToggleShortcuts(true),
                    HotkeyEffect::Press(HotkeyMode::ToggleLocked),
                ],
            )
        } else {
            (cleared, Seq::empty())
        }
    } else {
        (state, Seq::empty())
    }
}

/// The state after the hotkey was held long enough, and what is done.
pub open spec fn debounce_expired(state: State) -> (State, Seq<HotkeyEffect>) {
    let cleared = State { deadline: None, tap_window_deadline: None, ..state };
    if state.is_active {
        (cleared, Seq::empty())
    } else {
        (State { is_active: true, ..cleared }, seq![HotkeyEffect::Press(HotkeyMode::Ptt)])
    }
}

/// The state after every running session was committed, and what is done.
pub open spec fn all_committed(state: State) -> (State, Seq<HotkeyEffect>) {
    let released = if state.is_active {
        State { is_active: false, deadline: None, tap_window_deadline: None, ..state }
    } else {
        state
    };
    let effects = if state.is_active {
        seq![HotkeyEffect::Release(ReleaseKind::Commit)]
    } else {
        Seq::empty()
    };
    let (after, unlocked) = ended(released, ReleaseKind::Commit);
    (after, effects + unlocked)
}

/// The state after the hotkey was switched on or off, and what is done.
pub open spec fn enabled_set(state: State, enabled: bool) -> (State, Seq<HotkeyEffect>) {
    if enabled {
        (State { enabled: true, ..state }, Seq::empty())
    } else {
        all_committed(
            State { enabled: false, deadline: None, tap_window_deadline: None, ..state },
        )
    }
}

/// The state after the deadlines up to `now` have passed, and what is done.
pub open spec fn polled(state: State, now_ms: u64) -> (State, Seq<HotkeyEffect>) {
    if state.deadline matches Some(at) && at <= now_ms {
        debounce_expired(state)
    } else if state.tap_window_deadline matches Some(at) && at <= now_ms {
        (State { tap_window_deadline: None, ..state }, Seq::empty())
    } else {
        (state, Seq::empty())
    }
}

/// The state after a message, and what is done. Deadlines that have passed are
/// not looked at.
pub open spec fn handled(
    state: State,
    msg: HotkeyMsg,
    debounce_ms: u64,
    now_ms: u64,
) -> (State, Seq<HotkeyEffect>) {
    match msg {
        HotkeyMsg::FlagsChanged { both_held } => flags_changed(
            state,
            both_held,
            debounce_ms,
            now_ms,
        ),
        HotkeyMsg::EscPressed => ended(state, ReleaseKind::Cancel),
        HotkeyMsg::EnterPressed => ended(state, ReleaseKind::CommitAndSubmit),
        HotkeyMsg::SilenceTimeout => ended(state, ReleaseKind::Commit),
        HotkeyMsg::SetEnabled(enabled) => enabled_set(state, enabled),
        HotkeyMsg::Shutdown => all_committed(state),
    }
}

/// The state after a message that came at `now`, and what is done. Deadlines
/// that passed before it go first.
pub open spec fn stepped(
    state: State,
    msg: HotkeyMsg,
    debounce_ms: u64,
    now_ms: u64,
) -> (State, Seq<HotkeyEffect>) {
    let (due, first) = polled(state, now_ms);
    let (after, second) = handled(due, msg, debounce_ms, now_ms);
    (after, first + second)
}

fn start_toggle_session(state: &mut State, effects: &mut Vec<HotkeyEffect>)
    ensures
        *final(state) == (State { toggle_active: true, ..*old(state) }),
        final(effects)@ == old(effects)@ + seq![
            HotkeyEffect::ToggleShortcuts(true),
            HotkeyEffect::Press(HotkeyMode::ToggleLocked),
        ],
{
    state.toggle_active = true;
    effects.push(HotkeyEffect::ToggleShortcuts(true));
    effects.push(HotkeyEffect::Press(HotkeyMode::ToggleLocked));
}

/// Ends the locked session, if one runs.
fn end_toggle(state: &mut State, kind: ReleaseKind, effects: &mut Vec<HotkeyEffect>)
    ensures
        *final(state) == ended(*old(state), kind).0,
        final(effects)@ == old(effects)@ + ended(*old(state), kind).1,
{
    if state.toggle_active {
        state.toggle_active = false;
        effects.push(HotkeyEffect::ToggleShortcuts(false));
        effects.push(HotkeyEffect::Release(kind));
    }
}

/// Takes in that the hotkey went down or up.
pub fn on_flags_changed(
    state: &mut State,
    both_held: bool,
    debounce_ms: u64,
    now_ms: u64,
    effects: &mut Vec<HotkeyEffect>,
)
    requires
        now_ms + debounce_ms <= u64::MAX,
        now_ms + old(state).tap_threshold <= u64::MAX,
    ensures
        *final(state) == flags_changed(*old(state), both_held, debounce_ms, now_ms).0,
        final(effects)@ == old(effects)@ + flags_changed(
            *old(state),
            both_held,
            debounce_ms,
            now_ms,
        ).1,
{
    if !state.enabled {
        return;
    }
    if state.toggle_active {
        if both_held {
            end_toggle(state, ReleaseKind::Commit, effects);
        }
        return;
    }
    match (both_held, state.is_active, state.deadline.is_some()) {
        (true, false, false) => {
            state.deadline = Some(now_ms + debounce_ms);
            if state.toggle_enabled {
                state.tap_window_deadline = Some(now_ms + state.tap_threshold);
            }
        },
        (true, _, _) => {},
        (false, true, _) => {
            state.is_active = false;
            state.deadline = None;
            state.tap_window_deadline = None;
            effects.push(HotkeyEffect::Release(ReleaseKind::Commit));
        },
        (false, false, true) => {
            if state.toggle_enabled && state.tap_window_deadline.is_some() {
                start_toggle_session(state, effects);
            }
            state.tap_window_deadline = None;
            state.deadline = None;
        },
        (false, false, false) => {},
    }
}

/// Takes in that a locked session has been silent for too long.
pub fn on_silence_timeout(state: &mut State, effects: &mut Vec<HotkeyEffect>)
    ensures
        *final(state) == ended(*old(state), ReleaseKind::Commit).0,
        final(effects)@ == old(effects)@ + ended(*old(state), ReleaseKind::Commit).1,
{
    end_toggle(state, ReleaseKind::Commit, effects);
}

/// Takes in that Escape was pressed.
pub fn on_cancel_signal(state: &mut State, effects: &mut Vec<HotkeyEffect>)
    ensures
        *final(state) == ended(*old(state), ReleaseKind::Cancel).0,
        final(effects)@ == old(effects)@ + ended(*old(state), ReleaseKind::Cancel).1,
{
    end_toggle(state, ReleaseKind::Cancel, effects);
}

/// Takes in that Enter was pressed.
pub fn on_enter_commit(state: &mut State, effects: &mut Vec<HotkeyEffect>)
    ensures
        *final(state) == ended(*old(state), ReleaseKind::CommitAndSubmit).0,
        final(effects)@ == old(effects)@ + ended(*old(state), ReleaseKind::CommitAndSubmit).1,
{
    end_toggle(state, ReleaseKind::CommitAndSubmit, effects);
}

/// Takes in that the hotkey was held long enough.
pub fn on_debounce_expired(state: &mut State, effects: &mut Vec<HotkeyEffect>)
    ensures
        *final(state) == debounce_expired(*old(state)).0,
        final(effects)@ == old(effects)@ + debounce_expired(*old(state)).1,
{
    state.deadline = None;
    state.tap_window_deadline = None;
    if state.is_active {
        return;
    }
    state.is_active = true;
    effects.push(HotkeyEffect::Press(HotkeyMode::Ptt));
}

/// Commits whatever session runs.
fn commit_all(state: &mut State, effects: &mut Vec<HotkeyEffect>)
    ensures
        *final(state) == all_committed(*old(state)).0,
        final(effects)@ == old(effects)@ + all_committed(*old(state)).1,
{
    if state.is_active {
        state.is_active = false;
        state.deadline = None;
        state.tap_window_deadline = None;
        effects.push(HotkeyEffect::Release(ReleaseKind::Commit));
    }
    end_toggle(state, ReleaseKind::Commit, effects);
}

/// Switches the hotkey on or off. Switching it off commits whatever session
/// runs, so that nothing is left open.
pub fn on_set_enabled(state: &mut State, enabled: bool, effects: &mut Vec<HotkeyEffect>)
    ensures
        *final(state) == enabled_set(*old(state), enabled).0,
        final(effects)@ == old(effects)@ + enabled_set(*old(state), enabled).1,
{
    state.enabled = enabled;
    if !enabled {
        state.deadline = None;
        state.tap_window_deadline = None;
        commit_all(state, effects);
    }
}

/// When the next deadline passes, if one is pending.
pub fn next_deadline(state: &State) -> (at: Option<u64>)
    ensures
        at == match (state.deadline, state.tap_window_deadline) {
            (Some(press), Some(tap)) => Some(
                if press <= tap {
                    press
                } else {
                    tap
                },
            ),
            (Some(press), None) => Some(press),
            (None, tap) => tap,
        },
{
    match (state.deadline, state.tap_window_deadline) {
        (Some(press), Some(tap)) => if press <= tap {
            Some(press)
        } else {
            Some(tap)
        },
        (Some(press), None) => Some(press),
        (None, tap) => tap,
    }
}

/// Takes in that the clock stands at `now`.
pub fn poll_deadlines(state: &mut State, now_ms: u64, effects: &mut Vec<HotkeyEffect>)
    ensures
        *final(state) == polled(*old(state), now_ms).0,
        final(effects)@ == old(effects)@ + polled(*old(state), now_ms).1,
{
    if let Some(at) = state.deadline {
        if at <= now_ms {
            on_debounce_expired(state, effects);
            return;
        }
    }
    if let Some(at) = state.tap_window_deadline {
        if at <= now_ms {
            state.tap_window_deadline = None;
        }
    }
}

/// Takes in a message at `now`, after the deadlines that have passed by then,
/// and tells whether the machine goes on.
pub fn handle_msg(
    state: &mut State,
    msg: HotkeyMsg,
    config: &HotkeyConfig,
    now_ms: u64,
    effects: &mut Vec<HotkeyEffect>,
) -> (running: bool)
    requires
        now_ms + config.debounce_ms <= u64::MAX,
        now_ms + old(state).tap_threshold <= u64::MAX,
    ensures
        *final(state) == stepped(*old(state), msg, config.debounce_ms, now_ms).0,
        final(effects)@ == old(effects)@ + stepped(
            *old(state),
            msg,
            config.debounce_ms,
            now_ms,
        ).1,
        running == (msg != HotkeyMsg::Shutdown),
{
    let ghost before = effects@;
    poll_deadlines(state, now_ms, effects);
    let ghost due = *state;
    let ghost first = polled(*old(state), now_ms).1;
    let ghost second = handled(due, msg, config.debounce_ms, now_ms).1;
    assert(before + (first + second) =~= (before + first) + second);
    match msg {
        HotkeyMsg::Shutdown => {
            commit_all(state, effects);
            return false;
        },
        HotkeyMsg::SetEnabled(enabled) => on_set_enabled(state, enabled, effects),
        HotkeyMsg::FlagsChanged { both_held } => on_flags_changed(
            state,
            both_held,
            config.debounce_ms,
            now_ms,
            effects,
        ),
        HotkeyMsg::EscPressed => on_cancel_signal(state, effects),
        HotkeyMsg::EnterPressed => on_enter_commit(state, effects),
        HotkeyMsg::SilenceTimeout => on_silence_timeout(state, effects),
    }
    true
}

/// The session that runs after `effects`, if `open` is the one that ran before.
/// `None` if a session starts while one runs, one ends while none does, or one
/// whose hotkey is held ends in another way than by being committed.
pub open spec fn accounted(
    open: Option<HotkeyMode>,
    effects: Seq<HotkeyEffect>,
) -> Option<Option<HotkeyMode>>
    decreases effects.len(),
{
    if effects.len() == 0 {
        Some(open)
    } else {
        match accounted(open, effects.drop_last()) {
            None => None,
            Some(open) => match effects.last() {
                HotkeyEffect::Press(mode) => match open {
                    None => Some(Some(mode)),
                    Some(_) => None,
                },
                HotkeyEffect::Release(kind) => match open {
                    None => None,
                    Some(HotkeyMode::Ptt) => if kind == ReleaseKind::Commit {
                        Some(None)
                    } else {
                        None
                    },
                    Some(HotkeyMode::ToggleLocked) => Some(None),
                },
                HotkeyEffect::ToggleShortcuts(_) => Some(open),
            },
        }
    }
}

/// Whether Escape and Enter are taken over after `effects`, if `taken` tells
/// whether they were before.
pub open spec fn keys_taken(taken: bool, effects: Seq<HotkeyEffect>) -> bool
    decreases effects.len(),
{
    if effects.len() == 0 {
        taken
    } else {
        match effects.last() {
            HotkeyEffect::ToggleShortcuts(on) => on,
            _ => keys_taken(taken, effects.drop_last()),
        }
    }
}

proof fn accounted_concat(
    open: Option<HotkeyMode>,
    taken: bool,
    a: Seq<HotkeyEffect>,
    b: Seq<HotkeyEffect>,
)
    ensures
        accounted(open, a + b) == match accounted(open, a) {
            Some(between) => accounted(between, b),
            None => None,
        },
        keys_taken(taken, a + b) == keys_taken(keys_taken(taken, a), b),
    decreases b.len(),
{
    if b.len() == 0 {
        assert(a + b =~= a);
    } else {
        assert((a + b).drop_last() =~= a + b.drop_last());
        accounted_concat(open, taken, a, b.drop_last());
    }
}

/// What the state machine does over a run: each entry is a time and the
/// message that came then, if one did.
pub open spec fn ran(
    state: State,
    run: Seq<(Option<HotkeyMsg>, u64)>,
    debounce_ms: u64,
) -> (State, Seq<HotkeyEffect>)
    decreases run.len(),
{
    if run.len() == 0 {
        (state, Seq::empty())
    } else {
        let (before, first) = ran(state, run.drop_last(), debounce_ms);
        let (msg, now_ms) = run.last();
        let (after, second) = match msg {
            Some(msg) => stepped(before, msg, debounce_ms, now_ms),
            None => polled(before, now_ms),
        };
        (after, first + second)
    }
}

proof fn polled_keeps_account(state: State, now_ms: u64)
    requires
        state.wf(),
    ensures
        polled(state, now_ms).0.wf(),
        accounted(state.session(), polled(state, now_ms).1) == Some(
            polled(state, now_ms).0.session(),
        ),
        keys_taken(state.toggle_active, polled(state, now_ms).1) == polled(
            state,
            now_ms,
        ).0.toggle_active,
{
    reveal_with_fuel(accounted, 3);
    reveal_with_fuel(keys_taken, 3);
}

proof fn unlocking_accounts(kind: ReleaseKind)
    ensures
        accounted(Some(HotkeyMode::ToggleLocked), unlocking(kind)) == Some(None::<HotkeyMode>),
        !keys_taken(true, unlocking(kind)),
{
    reveal_with_fuel(accounted, 3);
    reveal_with_fuel(keys_taken, 3);
    let first = seq![HotkeyEffect::ToggleShortcuts(false)];
    assert(unlocking(kind).drop_last() =~= first);
    assert(first.drop_last() =~= Seq::<HotkeyEffect>::empty());
}

proof fn handled_keeps_account(state: State, msg: HotkeyMsg, debounce_ms: u64, now_ms: u64)
    requires
        state.wf(),
    ensures
        handled(state, msg, debounce_ms, now_ms).0.wf(),
        accounted(state.session(), handled(state, msg, debounce_ms, now_ms).1) == Some(
            handled(state, msg, debounce_ms, now_ms).0.session(),
        ),
        keys_taken(state.toggle_active, handled(state, msg, debounce_ms, now_ms).1) == handled(
            state,
            msg,
            debounce_ms,
            now_ms,
        ).0.toggle_active,
        msg == HotkeyMsg::Shutdown || msg == HotkeyMsg::SetEnabled(false) ==> !handled(
            state,
            msg,
            debounce_ms,
            now_ms,
        ).0.open_session(),
{
    reveal_with_fuel(accounted, 3);
    reveal_with_fuel(keys_taken, 3);
    unlocking_accounts(ReleaseKind::Commit);
    unlocking_accounts(ReleaseKind::CommitAndSubmit);
    unlocking_accounts(ReleaseKind::Cancel);
    let effects = handled(state, msg, debounce_ms, now_ms).1;
    let none = Seq::<HotkeyEffect>::empty();
    let commit = seq![HotkeyEffect::Release(ReleaseKind::Commit)];
    let on = seq![HotkeyEffect::ToggleShortcuts(true)];
    let locked = seq![
        HotkeyEffect::ToggleShortcuts(true),
        HotkeyEffect::Press(HotkeyMode::ToggleLocked),
    ];
    assert(locked.drop_last() =~= on);
    assert(on.drop_last() =~= none);
    assert(commit.drop_last() =~= none);
    assert(none + unlocking(ReleaseKind::Commit) =~= unlocking(ReleaseKind::Commit));
    assert(commit + none =~= commit);
}

/// Sessions start and end in turn. After any run of the state machine, from a
/// sound state, each session that started has ended exactly once, but for the
/// one that runs, and by being committed if its hotkey was held; at most one
/// kind of session runs; and Escape and Enter are taken over exactly while a
/// locked one does.
pub proof fn sessions_are_balanced(
    state: State,
    run: Seq<(Option<HotkeyMsg>, u64)>,
    debounce_ms: u64,
)
    requires
        state.wf(),
    ensures
        ran(state, run, debounce_ms).0.wf(),
        accounted(state.session(), ran(state, run, debounce_ms).1) == Some(
            ran(state, run, debounce_ms).0.session(),
        ),
        keys_taken(state.toggle_active, ran(state, run, debounce_ms).1) == ran(
            state,
            run,
            debounce_ms,
        ).0.toggle_active,
    decreases run.len(),
{
    if run.len() > 0 {
        let (before, first) = ran(state, run.drop_last(), debounce_ms);
        let (msg, now_ms) = run.last();
        sessions_are_balanced(state, run.drop_last(), debounce_ms);
        polled_keeps_account(before, now_ms);
        let (due, second) = polled(before, now_ms);
        accounted_concat(state.session(), state.toggle_active, first, second);
        if let Some(msg) = msg {
            let third = handled(due, msg, debounce_ms, now_ms).1;
            handled_keeps_account(due, msg, debounce_ms, now_ms);
            accounted_concat(before.session(), before.toggle_active, second, third);
            accounted_concat(state.session(), state.toggle_active, first, second + third);
        }
    }
}

/// Whether an effect starts or ends a session.
pub open spec fn session_event(effect: HotkeyEffect) -> bool {
    effect is Press || effect is Release
}

proof fn account_of_prefix(open: Option<HotkeyMode>, effects: Seq<HotkeyEffect>, count: int)
    requires
        0 <= count <= effects.len(),
        accounted(open, effects) is Some,
    ensures
        accounted(open, effects.take(count)) is Some,
{
    assert(effects =~= effects.take(count) + effects.skip(count));
    accounted_concat(open, false, effects.take(count), effects.skip(count));
}

proof fn account_stays(open: Option<HotkeyMode>, effects: Seq<HotkeyEffect>, from: int, to: int)
    requires
        0 <= from <= to <= effects.len(),
        forall|k: int| from <= k < to ==> !session_event(#[trigger] effects[k]),
    ensures
        accounted(open, effects.take(to)) == accounted(open, effects.take(from)),
    decreases to - from,
{
    if from < to {
        account_stays(open, effects, from, to - 1);
        assert(effects.take(to).drop_last() =~= effects.take(to - 1));
        assert(!session_event(effects[to - 1]));
    }
}

/// Over any run that begins while no session runs, the first event of a session
/// is a start; starts and ends follow each other in turn; and what follows the
/// start of a session whose hotkey is held is that it is committed. So Escape
/// and Enter, which cancel or submit, end locked sessions only.
pub proof fn held_sessions_are_committed(
    state: State,
    run: Seq<(Option<HotkeyMsg>, u64)>,
    debounce_ms: u64,
)
    requires
        state.wf(),
        !state.open_session(),
    ensures
        ({
            let effects = ran(state, run, debounce_ms).1;
            &&& forall|i: int|
                #![trigger effects[i]]
                0 <= i < effects.len() && effects[i] is Release ==> exists|k: int|
                    0 <= k < i && session_event(#[trigger] effects[k])
            &&& forall|i: int, j: int|
                #![trigger effects[i], effects[j]]
                0 <= i < j < effects.len() && session_event(effects[i]) && session_event(
                    effects[j],
                ) && (forall|k: int| i < k < j ==> !session_event(#[trigger] effects[k])) ==> {
                    &&& effects[i] is Press <==> effects[j] is Release
                    &&& effects[i] == HotkeyEffect::Press(HotkeyMode::Ptt) ==> effects[j]
                        == HotkeyEffect::Release(ReleaseKind::Commit)
                }
        }),
{
    sessions_are_balanced(state, run, debounce_ms);
    let effects = ran(state, run, debounce_ms).1;
    let open = state.session();
    assert forall|i: int|
        #![trigger effects[i]]
        0 <= i < effects.len() && effects[i] is Release implies exists|k: int|
        0 <= k < i && session_event(#[trigger] effects[k]) by {
        if forall|k: int| 0 <= k < i ==> !session_event(#[trigger] effects[k]) {
            account_stays(open, effects, 0, i);
            assert(effects.take(0) =~= Seq::<HotkeyEffect>::empty());
            account_of_prefix(open, effects, i + 1);
            assert(effects.take(i + 1).drop_last() =~= effects.take(i));
            assert(effects.take(i + 1).last() == effects[i]);
        }
    }
    assert forall|i: int, j: int|
        #![trigger effects[i], effects[j]]
        0 <= i < j < effects.len() && session_event(effects[i]) && session_event(effects[j]) && (
        forall|k: int| i < k < j ==> !session_event(#[trigger] effects[k])) implies {
        &&& effects[i] is Press <==> effects[j] is Release
        &&& effects[i] == HotkeyEffect::Press(HotkeyMode::Ptt) ==> effects[j]
            == HotkeyEffect::Release(ReleaseKind::Commit)
    } by {
        account_of_prefix(open, effects, i);
        account_of_prefix(open, effects, i + 1);
        account_of_prefix(open, effects, j + 1);
        account_stays(open, effects, i + 1, j);
        assert(effects.take(i + 1).drop_last() =~= effects.take(i));
        assert(effects.take(i + 1).last() == effects[i]);
        assert(effects.take(j + 1).drop_last() =~= effects.take(j));
        assert(effects.take(j + 1).last() == effects[j]);
    }
}

/// Switching the hotkey off, or closing the app, leaves no session open,
/// whatever came before.
pub proof fn off_and_shutdown_end_the_session(
    state: State,
    run: Seq<(Option<HotkeyMsg>, u64)>,
    debounce_ms: u64,
)
    requires
        state.wf(),
        run.len() > 0,
        run.last().0 == Some(HotkeyMsg::Shutdown) || run.last().0 == Some(
            HotkeyMsg::SetEnabled(false),
        ),
    ensures
        !ran(state, run, debounce_ms).0.open_session(),
        accounted(state.session(), ran(state, run, debounce_ms).1) == Some(None::<HotkeyMode>),
{
    sessions_are_balanced(state, run, debounce_ms);
    sessions_are_balanced(state, run.drop_last(), debounce_ms);
    let before = ran(state, run.drop_last(), debounce_ms).0;
    let (msg, now_ms) = run.last();
    polled_keeps_account(before, now_ms);
    handled_keeps_account(polled(before, now_ms).0, msg->0, debounce_ms, now_ms);
}

/// Closing the app leaves no session open.
pub proof fn shutdown_ends_the_session(state: State, debounce_ms: u64, now_ms: u64)
    requires
        state.wf(),
    ensures
        !stepped(state, HotkeyMsg::Shutdown, debounce_ms, now_ms).0.open_session(),
{
    polled_keeps_account(state, now_ms);
    handled_keeps_account(polled(state, now_ms).0, HotkeyMsg::Shutdown, debounce_ms, now_ms);
}

/// The three gestures. From rest, the hotkey goes down and comes up again
/// `held_ms` later. Shorter than the tap threshold, with tapping on, that
/// starts a locked session. Held at least for the debounce time, it is a
/// session that starts and ends. Anything between does nothing.
pub proof fn gestures(state: State, debounce_ms: u64, down_ms: u64, held_ms: u64)
    requires
        state.wf(),
        state.enabled,
        state.idle(),
        state.tap_threshold < debounce_ms,
        down_ms + held_ms + debounce_ms <= u64::MAX,
    ensures
        ({
            let down = HotkeyMsg::FlagsChanged { both_held: true };
            let up = HotkeyMsg::FlagsChanged { both_held: false };
            let (after, effects) = ran(
                state,
                seq![(Some(down), down_ms), (Some(up), (down_ms + held_ms) as u64)],
                debounce_ms,
            );
            if state.toggle_enabled && held_ms < state.tap_threshold {
                &&& after == State { toggle_active: true, ..state }
                &&& effects == seq![
                    HotkeyEffect::ToggleShortcuts(true),
                    HotkeyEffect::Press(HotkeyMode::ToggleLocked),
                ]
            } else if held_ms < debounce_ms {
                after == state && effects == Seq::<HotkeyEffect>::empty()
            } else {
                &&& after == state
                &&& effects == seq![
                    HotkeyEffect::Press(HotkeyMode::Ptt),
                    HotkeyEffect::Release(ReleaseKind::Commit),
                ]
            }
        }),
{
    reveal_with_fuel(ran, 3);
    let down = HotkeyMsg::FlagsChanged { both_held: true };
    let up = HotkeyMsg::FlagsChanged { both_held: false };
    let up_ms = (down_ms + held_ms) as u64;
    let run = seq![(Some(down), down_ms), (Some(up), up_ms)];
    assert(run.drop_last() =~= seq![(Some(down), down_ms)]);
    assert(run.drop_last().drop_last() =~= Seq::empty());
    let (pressed, first) = stepped(state, down, debounce_ms, down_ms);
    assert(first =~= Seq::<HotkeyEffect>::empty());
    let effects = ran(state, run, debounce_ms).1;
    if state.toggle_enabled && held_ms < state.tap_threshold {
        assert(effects =~= seq![
            HotkeyEffect::ToggleShortcuts(true),
            HotkeyEffect::Press(HotkeyMode::ToggleLocked),
        ]);
    } else if held_ms < debounce_ms {
        assert(effects =~= Seq::<HotkeyEffect>::empty());
    } else {
        assert(effects =~= seq![
            HotkeyEffect::Press(HotkeyMode::Ptt),
            HotkeyEffect::Release(ReleaseKind::Commit),
        ]);
    }
}

/// Escape, Enter and the silence watchdog do nothing unless a locked session
/// runs, and end it if one does.
pub proof fn only_locked_sessions_end_on_keys(
    state: State,
    msg: HotkeyMsg,
    debounce_ms: u64,
    now_ms: u64,
)
    requires
        msg is EscPressed || msg is EnterPressed || msg is SilenceTimeout,
    ensures
        !state.toggle_active ==> handled(state, msg, debounce_ms, now_ms) == (
            state,
            Seq::<HotkeyEffect>::empty(),
        ),
        state.toggle_active ==> !handled(state, msg, debounce_ms, now_ms).0.toggle_active,
{
}

/// While the hotkey is off, pressing it does nothing.
pub proof fn off_means_off(state: State, both_held: bool, debounce_ms: u64, now_ms: u64)
    requires
        !state.enabled,
    ensures
        flags_changed(state, both_held, debounce_ms, now_ms) == (
            state,
            Seq::<HotkeyEffect>::empty(),
        ),
{
}

/// A locked session ends as it is asked to: the hotkey going down again, or too
/// much silence, commits the dictation; Escape throws it away; Enter commits it
/// and submits. Each gives Escape and Enter back first. Letting go of the hotkey
/// does nothing.
pub proof fn locked_sessions_end_as_asked(state: State, debounce_ms: u64, now_ms: u64)
    requires
        state.wf(),
        state.toggle_active,
    ensures
        ({
            let over = State { toggle_active: false, ..state };
            let down = HotkeyMsg::FlagsChanged { both_held: true };
            let up = HotkeyMsg::FlagsChanged { both_held: false };
            let back = HotkeyEffect::ToggleShortcuts(false);
            &&& stepped(state, down, debounce_ms, now_ms) == (
                over,
                seq![back, HotkeyEffect::Release(ReleaseKind::Commit)],
            )
            &&& stepped(state, HotkeyMsg::EscPressed, debounce_ms, now_ms) == (
                over,
                seq![back, HotkeyEffect::Release(ReleaseKind::Cancel)],
            )
            &&& stepped(state, HotkeyMsg::EnterPressed, debounce_ms, now_ms) == (
                over,
                seq![back, HotkeyEffect::Release(ReleaseKind::CommitAndSubmit)],
            )
            &&& stepped(state, HotkeyMsg::SilenceTimeout, debounce_ms, now_ms) == (
                over,
                seq![back, HotkeyEffect::Release(ReleaseKind::Commit)],
            )
            &&& stepped(state, HotkeyMsg::SetEnabled(false), debounce_ms, now_ms) == (
                State { enabled: false, ..over },
                seq![back, HotkeyEffect::Release(ReleaseKind::Commit)],
            )
            &&& stepped(state, HotkeyMsg::Shutdown, debounce_ms, now_ms) == (
                over,
                seq![back, HotkeyEffect::Release(ReleaseKind::Commit)],
            )
            &&& stepped(state, up, debounce_ms, now_ms) == (state, Seq::<HotkeyEffect>::empty())
            &&& stepped(state, HotkeyMsg::SetEnabled(true), debounce_ms, now_ms) == (
                state,
                Seq::<HotkeyEffect>::empty(),
            )
        }),
{
    let none = Seq::<HotkeyEffect>::empty();
    assert(none + unlocking(ReleaseKind::Commit) =~= unlocking(ReleaseKind::Commit));
    assert(none + (none + unlocking(ReleaseKind::Commit)) =~= unlocking(ReleaseKind::Commit));
    assert(none + unlocking(ReleaseKind::Cancel) =~= unlocking(ReleaseKind::Cancel));
    assert(none + unlocking(ReleaseKind::CommitAndSubmit) =~= unlocking(
        ReleaseKind::CommitAndSubmit,
    ));
    assert(none + none =~= none);
}

/// A session whose hotkey is held is committed when it is let go, and when the
/// hotkey is switched off or the app closes. Nothing else ends it.
pub proof fn held_sessions_last_until_let_go(state: State, debounce_ms: u64, now_ms: u64)
    requires
        state.wf(),
        state.is_active,
    ensures
        ({
            let over = State { is_active: false, ..state };
            let commit = seq![HotkeyEffect::Release(ReleaseKind::Commit)];
            let nothing = (state, Seq::<HotkeyEffect>::empty());
            let down = HotkeyMsg::FlagsChanged { both_held: true };
            let up = HotkeyMsg::FlagsChanged { both_held: false };
            &&& stepped(state, up, debounce_ms, now_ms) == (over, commit)
            &&& stepped(state, HotkeyMsg::SetEnabled(false), debounce_ms, now_ms) == (
                State { enabled: false, ..over },
                commit,
            )
            &&& stepped(state, HotkeyMsg::Shutdown, debounce_ms, now_ms) == (over, commit)
            &&& stepped(state, down, debounce_ms, now_ms) == nothing
            &&& stepped(state, HotkeyMsg::EscPressed, debounce_ms, now_ms) == nothing
            &&& stepped(state, HotkeyMsg::EnterPressed, debounce_ms, now_ms) == nothing
            &&& stepped(state, HotkeyMsg::SilenceTimeout, debounce_ms, now_ms) == nothing
            &&& stepped(state, HotkeyMsg::SetEnabled(true), debounce_ms, now_ms) == nothing
        }),
{
    let none = Seq::<HotkeyEffect>::empty();
    let commit = seq![HotkeyEffect::Release(ReleaseKind::Commit)];
    assert(none + commit =~= commit);
    assert(none + (commit + none) =~= commit);
    assert(none + none =~= none);
}

/// From rest, the hotkey going down starts two clocks, the one for a tap only
/// where tapping is on, and does nothing yet. Nothing else does anything.
pub proof fn rest_waits_for_the_hotkey(state: State, debounce_ms: u64, now_ms: u64)
    requires
        state.wf(),
        state.enabled,
        state.idle(),
        now_ms + debounce_ms <= u64::MAX,
        now_ms + state.tap_threshold <= u64::MAX,
    ensures
        ({
            let none = Seq::<HotkeyEffect>::empty();
            let down = HotkeyMsg::FlagsChanged { both_held: true };
            let up = HotkeyMsg::FlagsChanged { both_held: false };
            let (pressed, effects) = stepped(state, down, debounce_ms, now_ms);
            &&& effects == none
            &&& pressed.deadline matches Some(at) && at == now_ms + debounce_ms
            &&& state.toggle_enabled ==> (pressed.tap_window_deadline matches Some(at) && at
                == now_ms + state.tap_threshold)
            &&& !state.toggle_enabled ==> pressed.tap_window_deadline is None
            &&& State { deadline: None, tap_window_deadline: None, ..pressed } == state
            &&& stepped(state, up, debounce_ms, now_ms) == (state, none)
            &&& stepped(state, HotkeyMsg::EscPressed, debounce_ms, now_ms) == (state, none)
            &&& stepped(state, HotkeyMsg::EnterPressed, debounce_ms, now_ms) == (state, none)
            &&& stepped(state, HotkeyMsg::SilenceTimeout, debounce_ms, now_ms) == (state, none)
            &&& stepped(state, HotkeyMsg::Shutdown, debounce_ms, now_ms) == (state, none)
            &&& stepped(state, HotkeyMsg::SetEnabled(true), debounce_ms, now_ms) == (state, none)
            &&& stepped(state, HotkeyMsg::SetEnabled(false), debounce_ms, now_ms) == (
                State { enabled: false, ..state },
                none,
            )
        }),
{
    let none = Seq::<HotkeyEffect>::empty();
    assert(none + none =~= none);
    assert(none + (none + none) =~= none);
}

/// While a press is pending: once it was held long enough a session starts. Let
/// go before that, it starts a locked session if the clock for a tap still runs,
/// and nothing otherwise. Escape, Enter, silence and the hotkey going down once
/// more do nothing, and switching off drops the press.
pub proof fn pending_presses_resolve(state: State, at: u64, debounce_ms: u64, now_ms: u64)
    requires
        state.wf(),
        state.deadline == Some(at),
    ensures
        ({
            let none = Seq::<HotkeyEffect>::empty();
            let rest = State { deadline: None, tap_window_deadline: None, ..state };
            let up = HotkeyMsg::FlagsChanged { both_held: false };
            let down = HotkeyMsg::FlagsChanged { both_held: true };
            let tapping = state.tap_window_deadline matches Some(until) && now_ms < until;
            let waiting = State {
                tap_window_deadline: if tapping {
                    state.tap_window_deadline
                } else {
                    None
                },
                ..state
            };
            if now_ms >= at {
                &&& polled(state, now_ms) == (
                    State { is_active: true, ..rest },
                    seq![HotkeyEffect::Press(HotkeyMode::Ptt)],
                )
                &&& stepped(state, up, debounce_ms, now_ms) == (
                    rest,
                    seq![
                        HotkeyEffect::Press(HotkeyMode::Ptt),
                        HotkeyEffect::Release(ReleaseKind::Commit),
                    ],
                )
            } else {
                &&& polled(state, now_ms) == (waiting, none)
                &&& stepped(state, up, debounce_ms, now_ms) == if tapping {
                    (
                        State { toggle_active: true, ..rest },
                        seq![
                            HotkeyEffect::ToggleShortcuts(true),
                            HotkeyEffect::Press(HotkeyMode::ToggleLocked),
                        ],
                    )
                } else {
                    (rest, none)
                }
                &&& stepped(state, down, debounce_ms, now_ms) == (waiting, none)
                &&& stepped(state, HotkeyMsg::EscPressed, debounce_ms, now_ms) == (waiting, none)
                &&& stepped(state, HotkeyMsg::EnterPressed, debounce_ms, now_ms) == (waiting, none)
                &&& stepped(state, HotkeyMsg::SilenceTimeout, debounce_ms, now_ms) == (
                    waiting,
                    none,
                )
                &&& stepped(state, HotkeyMsg::SetEnabled(true), debounce_ms, now_ms) == (
                    waiting,
                    none,
                )
                &&& stepped(state, HotkeyMsg::Shutdown, debounce_ms, now_ms) == (waiting, none)
                &&& stepped(state, HotkeyMsg::SetEnabled(false), debounce_ms, now_ms) == (
                    State { enabled: false, ..rest },
                    none,
                )
            }
        }),
{
    let none = Seq::<HotkeyEffect>::empty();
    let press = seq![HotkeyEffect::Press(HotkeyMode::Ptt)];
    let commit = seq![HotkeyEffect::Release(ReleaseKind::Commit)];
    let locked = seq![
        HotkeyEffect::ToggleShortcuts(true),
        HotkeyEffect::Press(HotkeyMode::ToggleLocked),
    ];
    assert(none + none =~= none);
    assert(none + (none + none) =~= none);
    assert(none + locked =~= locked);
    assert(press + commit =~= seq![
        HotkeyEffect::Press(HotkeyMode::Ptt),
        HotkeyEffect::Release(ReleaseKind::Commit),
    ]);
}

/// A message that comes when a press was held long enough finds the session that
/// this started: it does what it does to that, after the start.
pub proof fn due_sessions_start_first(
    state: State,
    at: u64,
    msg: HotkeyMsg,
    debounce_ms: u64,
    now_ms: u64,
)
    requires
        state.wf(),
        state.deadline == Some(at),
        at <= now_ms,
    ensures
        ({
            let running = State {
                is_active: true,
                deadline: None,
                tap_window_deadline: None,
                ..state
            };
            let (after, effects) = stepped(running, msg, debounce_ms, now_ms);
            &&& running.wf()
            &&& stepped(state, msg, debounce_ms, now_ms) == (
                after,
                seq![HotkeyEffect::Press(HotkeyMode::Ptt)] + effects,
            )
        }),
{
    let running = State { is_active: true, deadline: None, tap_window_deadline: None, ..state };
    let none = Seq::<HotkeyEffect>::empty();
    let effects = handled(running, msg, debounce_ms, now_ms).1;
    assert(none + effects =~= effects);
}

/// While the hotkey is off no message does anything, but for the one that
/// switches it on, which changes nothing else.
pub proof fn off_takes_nothing_in(state: State, msg: HotkeyMsg, debounce_ms: u64, now_ms: u64)
    requires
        state.wf(),
        !state.enabled,
    ensures
        stepped(state, msg, debounce_ms, now_ms) == (
            if msg == HotkeyMsg::SetEnabled(true) {
                State { enabled: true, ..state }
            } else {
                state
            },
            Seq::<HotkeyEffect>::empty(),
        ),
{
    let none = Seq::<HotkeyEffect>::empty();
    assert(none + none =~= none);
    assert(none + (none + none) =~= none);
}

/// The deadline to wait for is the first one: before it the clock changes
/// nothing, and at it something is due. There is none if nothing is pending.
pub proof fn the_first_deadline_is_waited_for(state: State, at: Option<u64>, now_ms: u64)
    requires
        state.wf(),
        next_deadline.ensures((&state,), at),
    ensures
        at is None ==> polled(state, now_ms) == (state, Seq::<HotkeyEffect>::empty()),
        at matches Some(at) ==> {
            &&& now_ms < at ==> polled(state, now_ms) == (state, Seq::<HotkeyEffect>::empty())
            &&& now_ms >= at ==> polled(state, now_ms).0 != state
        },
{
}

/// The machine goes on until the app closes, and what a message does comes after
/// what was done before.
pub proof fn messages_add_to_the_effects(
    state: &mut State,
    msg: HotkeyMsg,
    config: HotkeyConfig,
    now_ms: u64,
    effects: &mut Vec<HotkeyEffect>,
    running: bool,
)
    requires
        handle_msg.ensures((state, msg, &config, now_ms, effects), running),
    ensures
        running <==> msg != HotkeyMsg::Shutdown,
        old(effects)@.is_prefix_of(final(effects)@),
        old(state).wf() ==> final(state).wf(),
        old(state).wf() ==> accounted(
            old(state).session(),
            final(effects)@.skip(old(effects)@.len() as int),
        ) == Some(final(state).session()),
{
    let before = *old(state);
    let done = stepped(before, msg, config.debounce_ms, now_ms).1;
    assert(final(effects)@.skip(old(effects)@.len() as int) =~= done);
    if before.wf() {
        polled_keeps_account(before, now_ms);
        let (due, first) = polled(before, now_ms);
        let second = handled(due, msg, config.debounce_ms, now_ms).1;
        handled_keeps_account(due, msg, config.debounce_ms, now_ms);
        accounted_concat(before.session(), before.toggle_active, first, second);
    }
}

/// A setting counts if it is the digits of a number in range, white space around
/// it aside; in any other case the default does.
pub proof fn settings_count_in_range(
    text: String,
    n: nat,
    low: int,
    high: int,
    default: int,
)
    ensures
        number_within(None, low, high, default) == default,
        trimmed(text@) == decimal_digits(n) && low <= n <= high ==> number_within(
            Some(text),
            low,
            high,
            default,
        ) == n,
        trimmed(text@) == decimal_digits(n) && !(low <= n <= high) ==> number_within(
            Some(text),
            low,
            high,
            default,
        ) == default,
        decimal(trimmed(text@)) is None ==> number_within(Some(text), low, high, default)
            == default,
        decimal(trimmed(text@)) == Some(n) && low <= n <= high ==> number_within(
            Some(text),
            low,
            high,
            default,
        ) == n,
{
    decimal_round_trip(n);
}

/// The settings of the hotkey: a tap is shorter than 1 to 149 milliseconds, 80
/// unless it is set; 1 to 600 seconds of silence end a locked session, 60 unless
/// it is set; tapping is on unless the setting is a zero.
pub proof fn hotkey_settings(raw: Option<String>, ms: u64, seconds: u64, enabled: bool)
    requires
        parse_toggle_tap_threshold_ms.ensures((raw,), ms),
        parse_toggle_max_duration_s.ensures((raw,), seconds),
        parse_toggle_enabled.ensures((raw,), enabled),
    ensures
        ms == number_within(raw, 1, 149, 80),
        seconds == number_within(raw, 1, 600, 60),
        enabled <==> !(raw matches Some(text) && trimmed(text@) == seq!['0']),
{
    reveal_strlit("0");
    assert("0"@ =~= seq!['0']);
}

/// The listener forwards that the hotkey went down exactly when the last of its
/// modifiers does, and that it went up exactly when the first of them comes up,
/// whatever other bits are set. It forwards nothing while a shortcut is recorded
/// or where the binding has a key.
pub proof fn edges_follow_the_modifiers(
    trigger: &mut HotkeyTriggerState,
    mods: Seq<HotkeyModifier>,
    flags: u64,
    edge: Option<bool>,
)
    requires
        old(trigger).required_flags == required_flags(mods, Platform::MacOs),
        HotkeyTriggerState::on_flags.ensures((trigger, flags), edge),
    ensures
        ({
            let held = forall|m: HotkeyModifier|
                mods.contains(m) ==> (flags & #[trigger] m.cg_flag()) == m.cg_flag();
            let silent = old(trigger).suppressed || old(trigger).key_bound;
            &&& silent ==> edge is None && *final(trigger) == *old(trigger)
            &&& !silent ==> edge == if held == old(trigger).last_sent {
                None
            } else {
                Some(held)
            }
            &&& !silent ==> *final(trigger) == HotkeyTriggerState {
                last_sent: held,
                ..*old(trigger)
            }
        }),
{
    mask_matches_held_modifiers(mods, flags);
}

/// Off macOS no modifier is waited for.
pub proof fn only_macos_waits_for_modifiers(mods: Seq<HotkeyModifier>)
    ensures
        required_flags(mods, Platform::MacOs) == flags_mask(mods),
        required_flags(mods, Platform::Windows) == 0,
        required_flags(mods, Platform::Other) == 0,
{
}

/// Key code of Escape.
pub const KV_ESCAPE: u16 = 0x35;

/// Key code of Return.
pub const KV_RETURN: u16 = 0x24;

/// Key code of Enter on the number pad.
pub const KV_NUMPAD_RETURN: u16 = 0x4C;

/// The message that a key gives, if it gives one.
pub fn keycode_to_msg(keycode: u16) -> (msg: Option<HotkeyMsg>)
    ensures
        msg == if keycode == KV_ESCAPE {
            Some(HotkeyMsg::EscPressed)
        } else if keycode == KV_RETURN || keycode == KV_NUMPAD_RETURN {
            Some(HotkeyMsg::EnterPressed)
        } else {
            None
        },
{
    if keycode == KV_ESCAPE {
        Some(HotkeyMsg::EscPressed)
    } else if keycode == KV_RETURN || keycode == KV_NUMPAD_RETURN {
        Some(HotkeyMsg::EnterPressed)
    } else {
        None
    }
}

/// The keys that a locked session takes over.
#[derive(Debug, Clone, Copy, PartialEq, Eq, Structural)]
pub enum ToggleKey {
    Escape,
    Enter,
    NumpadEnter,
}

impl ToggleKey {
    /// The accelerator that the key is registered as.
    pub fn accelerator(self) -> (accelerator: &'static str)
        ensures
            accelerator@ == match self {
                ToggleKey::Escape => "Escape"@,
                ToggleKey::Enter => "Enter"@,
                ToggleKey::NumpadEnter => "NumpadEnter"@,
            },
    {
        match self {
            ToggleKey::Escape => "Escape",
            ToggleKey::Enter => "Enter",
            ToggleKey::NumpadEnter => "NumpadEnter",
        }
    }

    /// The message that the key gives when it goes down. Coming up it gives
    /// none.
    pub fn message(self, pressed: bool) -> (msg: Option<HotkeyMsg>)
        ensures
            msg == if !pressed {
                None
            } else if self == ToggleKey::Escape {
                Some(HotkeyMsg::EscPressed)
            } else {
                Some(HotkeyMsg::EnterPressed)
            },
    {
        if !pressed {
            return None;
        }
        match self {
            ToggleKey::Escape => Some(HotkeyMsg::EscPressed),
            ToggleKey::Enter => Some(HotkeyMsg::EnterPressed),
            ToggleKey::NumpadEnter => Some(HotkeyMsg::EnterPressed),
        }
    }
}

/// The keys that are registered when a locked session starts, and given back
/// when it ends, in this order.
pub fn toggle_keys() -> (keys: Vec<ToggleKey>)
    ensures
        keys@ == seq![ToggleKey::Escape, ToggleKey::Enter, ToggleKey::NumpadEnter],
{
    vec![ToggleKey::Escape, ToggleKey::Enter, ToggleKey::NumpadEnter]
}

/// Runs `install`, and `on_installed` only if that went well.
pub fn install_then<I: FnOnce() -> Result<(), MuniError>, F: FnOnce()>(
    install: I,
    on_installed: F,
) -> (result: Result<(), MuniError>)
    requires
        install.requires(()),
        forall|installed: Result<(), MuniError>|
            installed is Ok && #[trigger] install.ensures((), installed)
                ==> on_installed.requires(()),
    ensures
        install.ensures((), result),
        result is Ok ==> on_installed.ensures((), ()),
{
    let installed = install();
    if installed.is_ok() {
        on_installed();
    }
    installed
}

/// How installing the keyboard listener comes out. Without the permission the
/// listener is not tried; keys that cannot be watched are no failure.
pub fn install(input_monitoring: bool, tap_installed: bool) -> (result: Result<(), MuniError>)
    ensures
        result == if !input_monitoring {
            Err::<(), MuniError>(MuniError::InputMonitoringDenied)
        } else if !tap_installed {
            Err::<(), MuniError>(MuniError::HotkeyTapInstallFailed)
        } else {
            Ok::<(), MuniError>(())
        },
{
    if !input_monitoring {
        return Err(MuniError::InputMonitoringDenied);
    }
    if !tap_installed {
        return Err(MuniError::HotkeyTapInstallFailed);
    }
    Ok(())
}

/// How installing the two key monitors comes out: one of them is enough.
pub fn install_keydown_monitor(global_ok: bool, local_ok: bool) -> (result: Result<(), MuniError>)
    ensures
        result == if global_ok || local_ok {
            Ok::<(), MuniError>(())
        } else {
            Err::<(), MuniError>(MuniError::HotkeyTapInstallFailed)
        },
{
    if !global_ok && !local_ok {
        return Err(MuniError::HotkeyTapInstallFailed);
    }
    Ok(())
}

/// Escape gives its message, Return and the Enter of the number pad theirs, and
/// no other key any; a key that a locked session takes over gives one when it
/// goes down.
pub proof fn keys_and_their_messages(
    keycode: u16,
    msg: Option<HotkeyMsg>,
    key: ToggleKey,
    pressed: bool,
    given: Option<HotkeyMsg>,
)
    requires
        keycode_to_msg.ensures((keycode,), msg),
        ToggleKey::message.ensures((key, pressed), given),
    ensures
        msg == Some(HotkeyMsg::EscPressed) <==> keycode == 53,
        msg == Some(HotkeyMsg::EnterPressed) <==> keycode == 36 || keycode == 76,
        msg is Some ==> keycode == 53 || keycode == 36 || keycode == 76,
        given is Some <==> pressed,
        pressed ==> (given == Some(HotkeyMsg::EscPressed) <==> key == ToggleKey::Escape),
        pressed ==> (given == Some(HotkeyMsg::EnterPressed) <==> key != ToggleKey::Escape),
{
}

/// The listener needs the permission and must install; of the two key monitors
/// one is enough.
pub proof fn what_installing_needs(
    a: bool,
    b: bool,
    listener: Result<(), MuniError>,
    monitors: Result<(), MuniError>,
)
    requires
        install.ensures((a, b), listener),
        install_keydown_monitor.ensures((a, b), monitors),
    ensures
        listener is Ok <==> a && b,
        !a ==> listener == Err::<(), MuniError>(MuniError::InputMonitoringDenied),
        a && !b ==> listener == Err::<(), MuniError>(MuniError::HotkeyTapInstallFailed),
        monitors is Ok <==> a || b,
{
}

} // verus!
