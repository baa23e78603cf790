//! Starting the app: what runs in which state, and what the hotkey waits for.

use vstd::prelude::*;

use crate::error::MuniError;
use crate::hotkey_binding::{canonical, glyphs, key_label, option_view, RepasteBinding};
use crate::session::{SessionState, TrayState};
use crate::settings::{flag_or, read_flag, SettingValue};
use crate::text::{same_text, trim, trimmed};

verus! {

/// Whether so many starts did not go well that the app starts in safe mode.
pub fn is_crash_loop(unclean: u32, threshold: u32) -> (crash_loop: bool)
    ensures
        crash_loop == (unclean >= threshold),
{
    unclean >= threshold
}

/// One more than `on_disk`, as far as that can be counted.
pub open spec fn counted(on_disk: u32) -> int {
    if on_disk == u32::MAX {
        u32::MAX as int
    } else {
        on_disk + 1
    }
}

/// The number of starts that did not go well, this one included, if `on_disk`
/// counts those before it.
pub fn effective_launch_count(on_disk: u32) -> (count: u32)
    ensures
        count == counted(on_disk),
{
    on_disk.saturating_add(1)
}

/// What crash reporting is told.
#[derive(Debug, Clone, Copy, PartialEq, Eq, Structural)]
pub struct CrashReporting {
    /// Whether the user allows it.
    pub enabled: bool,
    /// Whether the app will start in safe mode.
    pub crash_loop: bool,
}

/// What crash reporting is told: whether the user allows it, which holds unless
/// it was declined, and whether this start, counted ahead, is one too many.
pub open spec fn reporting_verdict(
    consent: Option<bool>,
    unclean_on_disk: Option<u32>,
    threshold: u32,
) -> CrashReporting {
    CrashReporting {
        enabled: match consent {
            Some(consent) => consent,
            None => true,
        },
        crash_loop: counted_from(unclean_on_disk) >= threshold,
    }
}

/// One more than what is on disk; nothing there stands for zero.
pub open spec fn counted_from(unclean_on_disk: Option<u32>) -> int {
    match unclean_on_disk {
        Some(count) => counted(count),
        None => counted(0),
    }
}

/// What crash reporting is told. It starts before this start is counted, so it
/// counts it itself, and sees what the choice of the mode will see.
pub fn crash_reporting(
    consent: Option<bool>,
    unclean_on_disk: Option<u32>,
    threshold: u32,
) -> (reporting: CrashReporting)
    ensures
        reporting == reporting_verdict(consent, unclean_on_disk, threshold),
{
    let enabled = match consent {
        Some(consent) => consent,
        None => true,
    };
    let on_disk: u32 = match unclean_on_disk {
        Some(count) => count,
        None => 0,
    };
    CrashReporting {
        enabled,
        crash_loop: is_crash_loop(effective_launch_count(on_disk), threshold),
    }
}

/// Whether every frame of one speech service is logged.
pub fn trace_gladia(raw: Option<String>) -> (trace: bool)
    ensures
        trace == (raw matches Some(text) && trimmed(text@) == "1"@),
{
    match raw {
        Some(text) => same_text(trim(text.as_str()).as_str(), "1"),
        None => false,
    }
}

/// What is known when the app starts.
#[derive(Debug, Clone, Copy, PartialEq, Eq, Structural)]
pub struct BootFacts {
    /// Whether updates can be had.
    pub updater_configured: bool,
    /// The starts that did not go well, this one included.
    pub unclean_launches: u32,
    /// How many of them make it start in safe mode.
    pub safe_mode_threshold: u32,
    /// The stored flag that the introduction was completed.
    pub onboarding: Option<SettingValue>,
    /// The stored flag for the fast English mode.
    pub english_fast_mode: Option<SettingValue>,
    /// The stored flag for the bilingual mode.
    pub bilingual_mode: Option<SettingValue>,
    /// Whether there is a main window.
    pub main_window: bool,
    /// Whether there is a window for the introduction.
    pub onboarding_window: bool,
    /// Whether there is a window for the overlay.
    pub hud_window: bool,
}

/// What the main window is told.
#[derive(Debug, Clone, Copy, PartialEq, Eq, Structural)]
pub enum MainWindow {
    Missing,
    Show,
    Hide,
}

/// What the window for the introduction is told.
#[derive(Debug, Clone, Copy, PartialEq, Eq, Structural)]
pub enum Wizard {
    /// It is not needed.
    NotNeeded,
    /// It is shown and focused.
    Show,
    /// It is needed, and is not there.
    Missing,
}

/// What is done when the app starts as usual.
#[derive(Debug, Clone, Copy, PartialEq, Eq, Structural)]
pub struct BootPlan {
    pub onboarding_complete: bool,
    pub main_window: MainWindow,
    pub wizard: Wizard,
    pub english_fast_mode: bool,
    /// Whether the stored bilingual flag is to be overwritten; the mode itself
    /// stays off.
    pub clear_bilingual_mode: bool,
    pub build_tray: bool,
    pub check_for_updates: bool,
    pub configure_hud: bool,
    pub arm_hotkey: bool,
    pub reconcile_launch_at_login: bool,
    pub schedule_healthy_reset: bool,
}

/// How the app starts.
#[derive(Debug, Clone, Copy, PartialEq, Eq, Structural)]
pub enum Boot {
    /// Too many starts did not go well: only updates are checked for, and the
    /// count is taken back if this start goes well.
    SafeMode,
    /// As usual.
    Normal(BootPlan),
}

/// Whether the app starts in safe mode: only where an update can help.
pub open spec fn starts_in_safe_mode(facts: BootFacts) -> bool {
    facts.updater_configured && facts.unclean_launches >= facts.safe_mode_threshold
}

/// How the app starts. Until the introduction is completed, nothing runs that
/// would make the system ask for a permission.
pub fn run(facts: &BootFacts) -> (boot: Boot)
    ensures
        boot is SafeMode <==> starts_in_safe_mode(*facts),
        boot matches Boot::Normal(plan) ==> {
            let onboarded = flag_or(facts.onboarding, false);
            &&& plan.onboarding_complete == onboarded
            &&& plan.main_window == if !facts.main_window {
                MainWindow::Missing
            } else if onboarded {
                MainWindow::Show
            } else {
                MainWindow::Hide
            }
            &&& plan.wizard == if onboarded {
                Wizard::NotNeeded
            } else if facts.onboarding_window {
                Wizard::Show
            } else {
                Wizard::Missing
            }
            &&& plan.english_fast_mode == flag_or(facts.english_fast_mode, false)
            &&& plan.clear_bilingual_mode == flag_or(facts.bilingual_mode, false)
            &&& plan.build_tray == onboarded
            &&& plan.check_for_updates == onboarded
            &&& plan.configure_hud == facts.hud_window
            &&& plan.arm_hotkey == onboarded
            &&& plan.reconcile_launch_at_login == onboarded
            &&& plan.schedule_healthy_reset == facts.updater_configured
        },
{
    if facts.updater_configured && is_crash_loop(
        facts.unclean_launches,
        facts.safe_mode_threshold,
    ) {
        return Boot::SafeMode;
    }
    let onboarded = read_flag(facts.onboarding, false);
    let main_window = if !facts.main_window {
        MainWindow::Missing
    } else if onboarded {
        MainWindow::Show
    } else {
        MainWindow::Hide
    };
    let wizard = if onboarded {
        Wizard::NotNeeded
    } else if facts.onboarding_window {
        Wizard::Show
    } else {
        Wizard::Missing
    };
    Boot::Normal(
        BootPlan {
            onboarding_complete: onboarded,
            main_window,
            wizard,
            english_fast_mode: read_flag(facts.english_fast_mode, false),
            clear_bilingual_mode: read_flag(facts.bilingual_mode, false),
            build_tray: onboarded,
            check_for_updates: onboarded,
            configure_hud: facts.hud_window,
            arm_hotkey: onboarded,
            reconcile_launch_at_login: onboarded,
            schedule_healthy_reset: facts.updater_configured,
        },
    )
}

/// Crash reporting and the choice of the mode agree: where this start is counted
/// between the two, crash reporting is told of a crash loop exactly if the app
/// then starts in safe mode, whatever the user allows.
pub proof fn crash_reporting_agrees_with_mode(
    consent: Option<bool>,
    unclean_on_disk: Option<u32>,
    facts: BootFacts,
)
    requires
        facts.updater_configured,
        facts.unclean_launches == counted_from(unclean_on_disk),
    ensures
        reporting_verdict(consent, unclean_on_disk, facts.safe_mode_threshold).crash_loop
            <==> starts_in_safe_mode(facts),
{
}

/// Which parts came up.
#[derive(Debug, Clone, Copy, PartialEq, Eq, Structural)]
pub struct Available {
    pub history_store: bool,
    pub usage_store: bool,
    pub shared_http: bool,
    pub groq_client: bool,
    pub cleanup_prompt: bool,
    /// Whether keeping the connection open is switched on.
    pub keepalive: bool,
    /// Whether warming up the cleanup is switched on.
    pub warmup: bool,
    /// Whether warming it up again later is switched on.
    pub rewarm: bool,
}

/// Which tasks run in the background.
#[derive(Debug, Clone, Copy, PartialEq, Eq, Structural)]
pub struct Background {
    pub retention_purge: bool,
    pub usage_writer: bool,
    pub prices_refresher: bool,
    pub keepalive: bool,
    pub warmup: bool,
    pub rewarm: bool,
}

/// Which tasks run in the background: each one that is switched on and has
/// what it works on.
pub fn background_tasks(available: &Available) -> (tasks: Background)
    ensures
        tasks.retention_purge == (available.history_store || available.usage_store),
        tasks.usage_writer == available.usage_store,
        tasks.prices_refresher == available.usage_store,
        tasks.keepalive == (available.keepalive && available.shared_http),
        tasks.warmup == (available.warmup && available.groq_client && available.cleanup_prompt),
        tasks.rewarm == available.rewarm,
{
    Background {
        retention_purge: available.history_store || available.usage_store,
        usage_writer: available.usage_store,
        prices_refresher: available.usage_store,
        keepalive: available.keepalive && available.shared_http,
        warmup: available.warmup && available.groq_client && available.cleanup_prompt,
        rewarm: available.rewarm,
    }
}

/// What the tray icon shows for a session. A locked session looks like any
/// other that listens.
pub fn session_to_tray_state(state: SessionState) -> (tray: TrayState)
    ensures
        tray == match state {
            SessionState::Idle => TrayState::Idle,
            SessionState::Listening => TrayState::Listening,
            SessionState::ListeningLocked => TrayState::Listening,
            SessionState::Cleaning => TrayState::Cleaning,
            SessionState::Recovering => TrayState::Recovering,
            SessionState::Error => TrayState::Error,
        },
{
    match state {
        SessionState::Idle => TrayState::Idle,
        SessionState::Listening => TrayState::Listening,
        SessionState::ListeningLocked => TrayState::Listening,
        SessionState::Cleaning => TrayState::Cleaning,
        SessionState::Recovering => TrayState::Recovering,
        SessionState::Error => TrayState::Error,
    }
}

/// What the user is told when a dictation was completed with nothing focused.
pub fn repaste_notice(binding: Option<&RepasteBinding>) -> (text: String)
    ensures
        text@ == match binding {
            Some(binding) => "Press "@ + (glyphs(canonical(binding.mods@)) + key_label(
                binding.key@,
                option_view(binding.display_key),
            )) + " to insert your dictation"@,
            None => "Nothing focused — your dictation is saved in history"@,
        },
{
    match binding {
        Some(binding) => {
            let mut text = String::new();
            text.append("Press ");
            text.append(binding.label().as_str());
            text.append(" to insert your dictation");
            proof {
                let label = glyphs(canonical(binding.mods@)) + key_label(
                    binding.key@,
                    option_view(binding.display_key),
                );
                assert(text@ =~= "Press "@ + label + " to insert your dictation"@);
            }
            text
        },
        None => "Nothing focused — your dictation is saved in history".to_owned(),
    }
}

/// What the hotkey needs to start, until it has started.
#[derive(Debug)]
pub struct PendingHotkeyArm<T> {
    inner: Option<T>,
}

impl<T> PendingHotkeyArm<T> {
    /// What waits, if anything does.
    pub closed spec fn waiting(self) -> Option<T> {
        self.inner
    }

    /// The hotkey waits with `inner`.
    pub fn new(inner: T) -> (pending: Self)
        ensures
            pending.waiting() == Some(inner),
    {
        PendingHotkeyArm { inner: Some(inner) }
    }

    /// Takes what waits. A second call gets nothing.
    pub fn take(&mut self) -> (inner: Option<T>)
        ensures
            inner == old(self).waiting(),
            final(self).waiting() is None,
    {
        self.inner.take()
    }

    /// Puts back what was taken, so that the start can be tried again. What
    /// waits already stays.
    pub fn put_back(&mut self, inner: T)
        ensures
            final(self).waiting() == match old(self).waiting() {
                Some(other) => Some(other),
                None => Some(inner),
            },
    {
        if self.inner.is_none() {
            self.inner = Some(inner);
        }
    }
}

/// What comes of starting the hotkey.
#[derive(Debug, PartialEq, Eq)]
pub enum ArmOutcome<T> {
    /// It has started before.
    AlreadyArmed,
    /// It has started.
    Armed(T),
    /// It has not, and can be tried again. The error is for the user, if it is
    /// there.
    Failed { surface: Option<MuniError> },
}

/// The error to tell the user of when the hotkey did not start: none during
/// the introduction, where the failure is what makes the system ask for the
/// permission.
pub fn present_arm_failure(onboarding_complete: bool, err: MuniError) -> (surface: Option<
    MuniError,
>)
    ensures
        surface == if onboarding_complete {
            Some(err)
        } else {
            None
        },
{
    if onboarding_complete {
        Some(err)
    } else {
        None
    }
}

/// Starts the hotkey with what waits for it. If `start` fails, that goes on
/// waiting.
pub fn arm_hotkey_pipeline<T, F: FnOnce(&T) -> Result<(), MuniError>>(
    pending: &mut PendingHotkeyArm<T>,
    start: F,
    onboarding_complete: bool,
) -> (outcome: ArmOutcome<T>)
    requires
        old(pending).waiting() matches Some(inner) ==> start.requires((&inner,)),
    ensures
        match old(pending).waiting() {
            None => outcome is AlreadyArmed && final(pending).waiting() is None,
            Some(inner) => match outcome {
                ArmOutcome::AlreadyArmed => false,
                ArmOutcome::Armed(armed) => {
                    &&& armed == inner
                    &&& final(pending).waiting() is None
                    &&& exists|started: Result<(), MuniError>|
                        started is Ok && #[trigger] start.ensures((&inner,), started)
                },
                ArmOutcome::Failed { surface } => {
                    &&& final(pending).waiting() == Some(inner)
                    &&& exists|err: MuniError|
                        #![trigger start.ensures((&inner,), Err(err))]
                        start.ensures((&inner,), Err(err)) && surface == if onboarding_complete {
                            Some(err)
                        } else {
                            None
                        }
                },
            },
        },
{
    match pending.take() {
        None => ArmOutcome::AlreadyArmed,
        Some(inner) => {
            let started = start(&inner);
            assert(start.ensures((&inner,), started));
            match started {
                Ok(()) => ArmOutcome::Armed(inner),
                Err(err) => {
                    assert(started == Err::<(), MuniError>(err));
                    pending.put_back(inner);
                    ArmOutcome::Failed { surface: present_arm_failure(onboarding_complete, err) }
                },
            }
        },
    }
}

/// This start is counted on top of those on disk, as far as can be counted, and
/// crash reporting is on unless the user declined it.
pub proof fn starts_are_counted_ahead(
    consent: Option<bool>,
    unclean_on_disk: Option<u32>,
    threshold: u32,
)
    ensures
        ({
            let verdict = reporting_verdict(consent, unclean_on_disk, threshold);
            let before = match unclean_on_disk {
                Some(count) => count as int,
                None => 0,
            };
            &&& verdict.enabled <==> consent != Some(false)
            &&& before < u32::MAX ==> (verdict.crash_loop <==> before + 1 >= threshold)
            &&& before == u32::MAX ==> verdict.crash_loop
        }),
{
}

/// The app starts in safe mode exactly where updates can be had and too many
/// starts did not go well.
pub proof fn safe_mode_needs_an_updater(facts: BootFacts, boot: Boot)
    requires
        run.ensures((&facts,), boot),
    ensures
        boot is SafeMode <==> facts.updater_configured && facts.unclean_launches
            >= facts.safe_mode_threshold,
{
}

/// Until the introduction is completed, nothing is started that would make the
/// system ask for a permission, the main window is hidden and the introduction is
/// shown. Once it is, all of that is started and the main window is shown.
pub proof fn nothing_runs_before_the_introduction(facts: BootFacts, plan: BootPlan)
    requires
        run.ensures((&facts,), Boot::Normal(plan)),
    ensures
        ({
            let done = facts.onboarding == Some(SettingValue::Bool(true));
            &&& plan.onboarding_complete == done
            &&& plan.build_tray == done
            &&& plan.check_for_updates == done
            &&& plan.arm_hotkey == done
            &&& plan.reconcile_launch_at_login == done
            &&& plan.main_window == MainWindow::Show <==> facts.main_window && done
            &&& plan.main_window == MainWindow::Hide <==> facts.main_window && !done
            &&& plan.wizard == Wizard::NotNeeded <==> done
            &&& plan.wizard == Wizard::Show <==> !done && facts.onboarding_window
            &&& plan.configure_hud == facts.hud_window
            &&& plan.schedule_healthy_reset == facts.updater_configured
            &&& plan.english_fast_mode <==> facts.english_fast_mode == Some(
                SettingValue::Bool(true),
            )
            &&& plan.clear_bilingual_mode <==> facts.bilingual_mode == Some(
                SettingValue::Bool(true),
            )
        }),
{
}

/// What waits for the hotkey is handed out once, and put back it waits again.
pub proof fn the_hotkey_is_armed_once<T>(
    first: &mut PendingHotkeyArm<T>,
    second: &mut PendingHotkeyArm<T>,
    taken: Option<T>,
    again: Option<T>,
)
    requires
        PendingHotkeyArm::<T>::take.ensures((first,), taken),
        PendingHotkeyArm::<T>::take.ensures((second,), again),
        *old(second) == *final(first),
    ensures
        taken == old(first).waiting(),
        again is None,
{
}

/// A task runs in the background only if what it works on came up.
pub proof fn tasks_have_what_they_work_on(available: Available, tasks: Background)
    requires
        background_tasks.ensures((&available,), tasks),
    ensures
        tasks.retention_purge <==> available.history_store || available.usage_store,
        tasks.usage_writer <==> available.usage_store,
        tasks.prices_refresher <==> available.usage_store,
        tasks.keepalive <==> available.keepalive && available.shared_http,
        tasks.warmup <==> available.warmup && available.groq_client && available.cleanup_prompt,
        tasks.rewarm <==> available.rewarm,
{
}

/// A start that fails can be tried again with the same, and its error is told the
/// user only after the introduction; one that went well leaves nothing to start.
pub proof fn failed_starts_can_be_tried_again<T, F: FnOnce(&T) -> Result<(), MuniError>>(
    pending: &mut PendingHotkeyArm<T>,
    start: F,
    onboarding_complete: bool,
    outcome: ArmOutcome<T>,
)
    requires
        arm_hotkey_pipeline::<T, F>.ensures((pending, start, onboarding_complete), outcome),
    ensures
        outcome is AlreadyArmed <==> old(pending).waiting() is None,
        outcome is Failed ==> final(pending).waiting() == old(pending).waiting(),
        outcome matches ArmOutcome::Failed { surface } ==> (surface is Some
            <==> onboarding_complete),
        outcome matches ArmOutcome::Armed(armed) ==> old(pending).waiting() == Some(armed)
            && final(pending).waiting() is None,
{
}

} // verus!
