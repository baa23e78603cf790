//! The two global shortcuts while the app runs: binding them anew, setting
//! them aside while a shortcut is recorded, and giving them up when the system
//! refuses them.
//!
//! A change of binding is decided at once and carried out later, on the main
//! thread, in the order in which the changes were decided. In between a newer
//! change may have come, so each carries the version that it made.

use vstd::prelude::*;

use crate::hotkey::HotkeyTriggerState;
use crate::hotkey_binding::{accelerator_text, option_view, DictationBinding, HotkeyModifier};
use crate::hotkey_binding::{dictation_bindings_that_are_fine, dictation_error, RepasteBinding};
use crate::text::same_text;

verus! {

/// Event that tells the frontend that the system refused a shortcut.
pub const EVENT_HOTKEY_REGISTRATION_FAILED: &'static str = "hotkey://registration-failed";

/// How long the shortcuts may stay set aside, in milliseconds.
pub const RECORDING_SUPPRESSION_WATCHDOG_MS: u64 = 60_000;

/// One thing to do on the main thread.
#[derive(Debug, PartialEq, Eq)]
pub enum RebindStep {
    /// Give up the accelerator; one that is not registered is no matter.
    Unregister(String),
    /// Register the accelerator.
    Register(String),
    /// Forget whether the shortcut is held.
    ClearHeld,
}

/// A step, over the characters of its accelerator.
pub enum StepModel {
    Unregister(Seq<char>),
    Register(Seq<char>),
    ClearHeld,
}

impl View for RebindStep {
    type V = StepModel;

    open spec fn view(&self) -> StepModel {
        match self {
            RebindStep::Unregister(accel) => StepModel::Unregister(accel@),
            RebindStep::Register(accel) => StepModel::Register(accel@),
            RebindStep::ClearHeld => StepModel::ClearHeld,
        }
    }
}

/// The models of a list of steps.
pub open spec fn step_views(steps: Seq<RebindStep>) -> Seq<StepModel> {
    steps.map_values(|step: RebindStep| step@)
}

/// The steps that bind `new_accel` in place of `old_accel`. The old one is
/// given up in any case. The new one is registered only if no newer change
/// has come, which then registers its own.
pub open spec fn rebind_plan(
    old_accel: Option<Seq<char>>,
    new_accel: Option<Seq<char>>,
    superseded: bool,
) -> Seq<StepModel> {
    let first = match old_accel {
        Some(old) => seq![StepModel::Unregister(old)],
        None => Seq::empty(),
    };
    if superseded {
        first
    } else {
        match new_accel {
            Some(new) => first.push(StepModel::Register(new)),
            None => first.push(StepModel::ClearHeld),
        }
    }
}

/// The steps that bind `new_accel` in place of `old_accel`.
pub fn plan_rebind_steps(
    old_accel: Option<String>,
    new_accel: Option<String>,
    superseded: bool,
) -> (steps: Vec<RebindStep>)
    ensures
        step_views(steps@) == rebind_plan(
            option_view(old_accel),
            option_view(new_accel),
            superseded,
        ),
{
    let mut steps: Vec<RebindStep> = Vec::new();
    let ghost first = rebind_plan(option_view(old_accel), None, true);
    if let Some(old) = old_accel {
        steps.push(RebindStep::Unregister(old));
    }
    proof {
        assert(step_views(steps@) =~= first);
    }
    if superseded {
        return steps;
    }
    let step = match new_accel {
        Some(new) => RebindStep::Register(new),
        None => RebindStep::ClearHeld,
    };
    let ghost before = steps@;
    steps.push(step);
    proof {
        assert(step_views(steps@) =~= step_views(before).push(step@));
    }
    steps
}

/// Whether a newer change has come since `captured_version`.
pub fn rebind_superseded(captured_version: u64, current: u64) -> (superseded: bool)
    ensures
        superseded == (captured_version != current),
{
    current != captured_version
}

/// Takes in an edge and tells whether it is one: the same edge twice in a row,
/// as a repeating key gives it, is not.
pub fn is_dictation_transition(held: &mut bool, both_held: bool) -> (transition: bool)
    ensures
        transition == (*old(held) != both_held),
        *final(held) == both_held,
{
    let before = *held;
    *held = both_held;
    before != both_held
}

/// A change of binding, to be carried out.
#[derive(Debug)]
pub struct Rebind {
    pub old_accel: Option<String>,
    pub new_accel: Option<String>,
    pub version: u64,
}

/// Setting a shortcut aside, or taking it up again, to be carried out.
#[derive(Debug)]
pub struct RecordingToggle {
    pub accel: String,
    pub version: u64,
    pub recording: bool,
}

impl Rebind {
    /// The job that it is.
    pub open spec fn model(self) -> Job {
        Job::Rebind {
            old_accel: option_view(self.old_accel),
            new_accel: option_view(self.new_accel),
            version: self.version as nat,
        }
    }
}

impl RecordingToggle {
    /// The job that it is.
    pub open spec fn model(self) -> Job {
        Job::Recording {
            accel: self.accel@,
            version: self.version as nat,
            recording: self.recording,
        }
    }
}

/// The steps that set `accel` aside, or take it up again unless a newer change
/// has come.
pub open spec fn recording_plan(accel: Seq<char>, recording: bool, superseded: bool) -> Seq<
    StepModel,
> {
    if recording {
        seq![StepModel::Unregister(accel), StepModel::ClearHeld]
    } else if superseded {
        Seq::empty()
    } else {
        seq![StepModel::Register(accel)]
    }
}

/// One shortcut.
#[derive(Debug)]
pub struct ShortcutSlot {
    /// The accelerator that is meant to be registered.
    pub current_accel: Option<String>,
    /// The edge that was taken in last.
    pub held: bool,
    /// The number of changes so far.
    pub apply_version: u64,
}

impl ShortcutSlot {
    /// The accelerator that is meant to be registered.
    pub open spec fn accel(self) -> Option<Seq<char>> {
        option_view(self.current_accel)
    }

    /// Whether this is the shortcut of a desk.
    pub open spec fn stands_in(self, desk: Desk) -> bool {
        desk.accel == self.accel() && desk.version == self.apply_version
    }

    /// A shortcut without a binding.
    pub fn new() -> (slot: Self)
        ensures
            slot.accel() is None,
            !slot.held,
            slot.apply_version == 0,
            slot.stands_in(Desk::start()),
    {
        ShortcutSlot { current_accel: None, held: false, apply_version: 0 }
    }

    /// Decides on a new accelerator, or on none.
    pub fn rebind(&mut self, new_accel: Option<String>) -> (job: Rebind)
        requires
            old(self).apply_version < u64::MAX,
        ensures
            final(self).accel() == option_view(new_accel),
            final(self).held == old(self).held,
            final(self).apply_version == old(self).apply_version + 1,
            option_view(job.old_accel) == old(self).accel(),
            option_view(job.new_accel) == option_view(new_accel),
            job.version == final(self).apply_version,
            forall|desk: Desk| #[trigger]
                old(self).stands_in(desk) ==> {
                    let after = desk.after(DeskEvent::Apply(option_view(new_accel)));
                    final(self).stands_in(after) && after.queue == desk.queue.push(job.model())
                },
    {
        let mut old_accel = new_accel.clone();
        std::mem::swap(&mut old_accel, &mut self.current_accel);
        self.apply_version = self.apply_version + 1;
        Rebind { old_accel, new_accel, version: self.apply_version }
    }

    /// What carrying out a change of binding takes.
    pub fn rebind_steps(&self, job: Rebind) -> (steps: Vec<RebindStep>)
        ensures
            step_views(steps@) == rebind_plan(
                option_view(job.old_accel),
                option_view(job.new_accel),
                job.version != self.apply_version,
            ),
            forall|desk: Desk, refused: bool|
                #![trigger desk.after(DeskEvent::RunNext { refused })]
                self.stands_in(desk) && desk.queue.len() > 0 && desk.queue[0] == job.model() ==> {
                    let after = desk.after(DeskEvent::RunNext { refused });
                    self.stands_in(after) && after.live == performed_all(
                        desk.live,
                        step_views(steps@),
                        refused,
                    )
                },
    {
        let superseded = rebind_superseded(job.version, self.apply_version);
        plan_rebind_steps(job.old_accel, job.new_accel, superseded)
    }

    /// Sets the shortcut aside, or takes it up again. Nothing is to be done for
    /// one without an accelerator.
    pub fn set_recording(&self, recording: bool) -> (job: Option<RecordingToggle>)
        ensures
            job is Some <==> self.accel() is Some,
            job matches Some(job) ==> {
                &&& Some(job.accel@) == self.accel()
                &&& job.version == self.apply_version
                &&& job.recording == recording
            },
            forall|desk: Desk| #[trigger]
                self.stands_in(desk) ==> {
                    let after = desk.after(DeskEvent::SetRecording(recording));
                    self.stands_in(after) && after.queue == match job {
                        Some(job) => desk.queue.push(job.model()),
                        None => desk.queue,
                    }
                },
    {
        match &self.current_accel {
            Some(accel) => Some(
                RecordingToggle { accel: accel.clone(), version: self.apply_version, recording },
            ),
            None => None,
        }
    }

    /// What carrying out a `set_recording` takes.
    pub fn recording_steps(&self, job: RecordingToggle) -> (steps: Vec<RebindStep>)
        ensures
            step_views(steps@) == recording_plan(
                job.accel@,
                job.recording,
                job.version != self.apply_version,
            ),
            forall|desk: Desk, refused: bool|
                #![trigger desk.after(DeskEvent::RunNext { refused })]
                self.stands_in(desk) && desk.queue.len() > 0 && desk.queue[0] == job.model() ==> {
                    let after = desk.after(DeskEvent::RunNext { refused });
                    self.stands_in(after) && after.live == performed_all(
                        desk.live,
                        step_views(steps@),
                        refused,
                    )
                },
    {
        let mut steps: Vec<RebindStep> = Vec::new();
        let ghost plan = recording_plan(
            job.accel@,
            job.recording,
            job.version != self.apply_version,
        );
        if job.recording {
            steps.push(RebindStep::Unregister(job.accel));
            steps.push(RebindStep::ClearHeld);
        } else if !rebind_superseded(job.version, self.apply_version) {
            steps.push(RebindStep::Register(job.accel));
        }
        proof {
            assert(step_views(steps@) =~= plan);
        }
        steps
    }

    /// Tells whether the accelerator is to be registered with the system: one
    /// that is registered already stays as it is. A key that is held as it is
    /// registered gives no press, so a fresh one counts as up.
    pub fn begin_register(&mut self, already_registered: bool) -> (register: bool)
        ensures
            register == !already_registered,
            *final(self) == (ShortcutSlot {
                held: old(self).held && already_registered,
                ..*old(self)
            }),
    {
        if already_registered {
            return false;
        }
        self.held = false;
        true
    }

    /// Forgets whether the shortcut is held.
    pub fn clear_held(&mut self)
        ensures
            *final(self) == (ShortcutSlot { held: false, ..*old(self) }),
    {
        self.held = false;
    }
}

/// The re-paste shortcut.
#[derive(Debug)]
pub struct RepasteController {
    pub slot: ShortcutSlot,
    /// Whether a re-paste is under way.
    pub in_flight: bool,
}

impl RepasteController {
    /// The shortcut before it was first bound.
    pub fn new() -> (controller: Self)
        ensures
            controller.slot.accel() is None,
            !controller.slot.held,
            controller.slot.apply_version == 0,
            !controller.in_flight,
    {
        RepasteController { slot: ShortcutSlot::new(), in_flight: false }
    }

    /// Binds the shortcut anew, or switches it off.
    pub fn apply(&mut self, binding: Option<&RepasteBinding>) -> (job: Rebind)
        requires
            old(self).slot.apply_version < u64::MAX,
        ensures
            final(self).slot.accel() == match binding {
                Some(binding) => Some(accelerator_text(binding.mods@, binding.key@)),
                None => None,
            },
            final(self).slot.held == old(self).slot.held,
            final(self).slot.apply_version == old(self).slot.apply_version + 1,
            final(self).in_flight == old(self).in_flight,
            option_view(job.old_accel) == old(self).slot.accel(),
            option_view(job.new_accel) == final(self).slot.accel(),
            job.version == final(self).slot.apply_version,
    {
        let new_accel = match binding {
            Some(binding) => Some(binding.accelerator()),
            None => None,
        };
        self.slot.rebind(new_accel)
    }

    /// Sets the shortcut aside while a shortcut is recorded, or takes it up
    /// again.
    pub fn set_recording(&self, recording: bool) -> (job: Option<RecordingToggle>)
        ensures
            job is Some <==> self.slot.accel() is Some,
            job matches Some(job) ==> {
                &&& Some(job.accel@) == self.slot.accel()
                &&& job.version == self.slot.apply_version
                &&& job.recording == recording
            },
    {
        self.slot.set_recording(recording)
    }

    /// Takes in an edge of the shortcut and tells whether to re-paste: on a
    /// genuine press, unless a re-paste is under way. That press is dropped.
    pub fn on_edge(&mut self, pressed: bool) -> (paste: bool)
        ensures
            paste == (pressed && !old(self).slot.held && !old(self).in_flight),
            *final(self) == (RepasteController {
                slot: ShortcutSlot { held: pressed, ..old(self).slot },
                in_flight: old(self).in_flight || paste,
            }),
    {
        if !is_dictation_transition(&mut self.slot.held, pressed) {
            return false;
        }
        if !pressed {
            return false;
        }
        try_claim_repaste(&mut self.in_flight)
    }

    /// Takes in that the re-paste is over, however it went.
    pub fn repaste_done(&mut self)
        ensures
            *final(self) == (RepasteController { in_flight: false, ..*old(self) }),
    {
        self.in_flight = false;
    }
}

/// Claims the one re-paste that may be under way, if none is.
pub fn try_claim_repaste(in_flight: &mut bool) -> (claimed: bool)
    ensures
        claimed == !*old(in_flight),
        *final(in_flight),
{
    let claimed = !*in_flight;
    *in_flight = true;
    claimed
}

/// The dictation shortcut, for a binding with a key. Modifiers alone are not
/// registered.
#[derive(Debug)]
pub struct DictationShortcutController {
    pub slot: ShortcutSlot,
}

impl DictationShortcutController {
    /// The shortcut before it was first bound.
    pub fn new() -> (controller: Self)
        ensures
            controller.slot.accel() is None,
            !controller.slot.held,
            controller.slot.apply_version == 0,
    {
        DictationShortcutController { slot: ShortcutSlot::new() }
    }

    /// Binds the shortcut anew. A binding without a key registers nothing.
    pub fn apply(&mut self, binding: &DictationBinding) -> (job: Rebind)
        requires
            old(self).slot.apply_version < u64::MAX,
        ensures
            final(self).slot.accel() == binding.accelerator_code(),
            final(self).slot.held == old(self).slot.held,
            final(self).slot.apply_version == old(self).slot.apply_version + 1,
            option_view(job.old_accel) == old(self).slot.accel(),
            option_view(job.new_accel) == final(self).slot.accel(),
            job.version == final(self).slot.apply_version,
    {
        self.slot.rebind(binding.accelerator())
    }

    /// Sets the shortcut aside while a shortcut is recorded, or takes it up
    /// again.
    pub fn set_recording(&self, recording: bool) -> (job: Option<RecordingToggle>)
        ensures
            job is Some <==> self.slot.accel() is Some,
            job matches Some(job) ==> {
                &&& Some(job.accel@) == self.slot.accel()
                &&& job.version == self.slot.apply_version
                &&& job.recording == recording
            },
    {
        self.slot.set_recording(recording)
    }

    /// Takes in an edge of the shortcut and gives the one to forward, if any.
    pub fn on_edge(&mut self, pressed: bool) -> (edge: Option<bool>)
        ensures
            edge == if old(self).slot.held == pressed {
                None
            } else {
                Some(pressed)
            },
            *final(self) == (DictationShortcutController {
                slot: ShortcutSlot { held: pressed, ..old(self).slot },
            }),
    {
        if is_dictation_transition(&mut self.slot.held, pressed) {
            Some(pressed)
        } else {
            None
        }
    }
}

/// What a shortcut that the system refused is replaced by.
#[derive(Debug, PartialEq, Eq)]
pub enum Heal {
    /// Dictation goes back to the binding that the app ships with.
    Dictation(DictationBinding),
    /// Re-paste is switched off.
    Repaste,
}

/// What a refused shortcut is replaced by, in the settings and at once. Neither
/// replacement is registered with the system, so neither can be refused.
pub fn heal_failed_registration(target: &str) -> (heal: Option<Heal>)
    ensures
        match heal {
            Some(Heal::Dictation(binding)) => {
                &&& target@ == "dictation"@
                &&& binding.modifiers() == seq![HotkeyModifier::Control, HotkeyModifier::Option]
                &&& binding.key_code() is None
                &&& binding.typed_key() is None
                &&& binding.accelerator_code() is None
            },
            Some(Heal::Repaste) => target@ == "repaste"@ && target@ != "dictation"@,
            None => target@ != "repaste"@ && target@ != "dictation"@,
        },
{
    if same_text(target, "dictation") {
        Some(Heal::Dictation(DictationBinding::default_dictation()))
    } else if same_text(target, "repaste") {
        Some(Heal::Repaste)
    } else {
        None
    }
}

/// Tells whether the shortcuts have been set aside for too long. Each change
/// counts up, so a timer that was started before the last change is stale.
#[derive(Debug, Clone, Copy, PartialEq, Eq, Structural)]
pub struct RecordingWatchdog {
    pub generation: u64,
}

impl Default for RecordingWatchdog {
    /// No change so far.
    fn default() -> (watchdog: Self)
        ensures
            watchdog.generation == 0,
    {
        RecordingWatchdog { generation: 0 }
    }
}

impl RecordingWatchdog {
    /// Counts a change, which makes every running timer stale.
    pub fn bump(&mut self) -> (generation: u64)
        requires
            old(self).generation < u64::MAX,
        ensures
            generation == old(self).generation + 1,
            final(self).generation == generation,
    {
        self.generation = self.generation + 1;
        self.generation
    }

    /// The number of changes so far.
    pub fn current(&self) -> (generation: u64)
        ensures
            generation == self.generation,
    {
        self.generation
    }

    /// Counts that recording started or ended, and gives the number of the
    /// timer to start: none is needed once it ended.
    pub fn set_recording(&mut self, recording: bool) -> (timer: Option<u64>)
        requires
            old(self).generation < u64::MAX,
        ensures
            final(self).generation == old(self).generation + 1,
            timer == if recording {
                Some(final(self).generation)
            } else {
                None
            },
    {
        let generation: u64 = self.bump();
        if recording {
            Some(generation)
        } else {
            None
        }
    }

    /// Whether the timer with this number takes the shortcuts up again when it
    /// runs out: only if nothing changed since.
    pub fn fires(&self, generation: u64) -> (fires: bool)
        ensures
            fires == (self.generation == generation),
    {
        self.current() == generation
    }
}

/// What setting the shortcuts aside, or taking them up again, takes.
#[derive(Debug)]
pub struct Suppression {
    pub dictation: Option<RecordingToggle>,
    pub repaste: Option<RecordingToggle>,
    /// The number of the timer to start, if one is.
    pub timer: Option<u64>,
}

/// Whether `job` sets the accelerator of a shortcut aside, or takes it up again.
/// A shortcut that is not there, or has no accelerator, gives no job.
pub open spec fn toggles(
    slot: Option<ShortcutSlot>,
    recording: bool,
    job: Option<RecordingToggle>,
) -> bool {
    match slot {
        Some(slot) => match job {
            Some(job) => Some(job.accel@) == slot.accel() && job.version == slot.apply_version
                && job.recording == recording,
            None => slot.accel() is None,
        },
        None => job is None,
    }
}

/// The shortcut of a controller that may not be there yet.
pub open spec fn dictation_slot(controller: Option<&DictationShortcutController>) -> Option<
    ShortcutSlot,
> {
    match controller {
        Some(controller) => Some(controller.slot),
        None => None,
    }
}

/// The shortcut of a controller that may not be there yet.
pub open spec fn repaste_slot(controller: Option<&RepasteController>) -> Option<ShortcutSlot> {
    match controller {
        Some(controller) => Some(controller.slot),
        None => None,
    }
}

/// Silences everything that starts a dictation or a re-paste while a shortcut
/// is recorded, or takes it up again. A timer sees to it that it is not left
/// silenced.
pub fn set_recording_suppression(
    trigger: &mut HotkeyTriggerState,
    dictation: Option<&DictationShortcutController>,
    repaste: Option<&RepasteController>,
    watchdog: &mut RecordingWatchdog,
    recording: bool,
) -> (suppression: Suppression)
    requires
        old(watchdog).generation < u64::MAX,
    ensures
        *final(trigger) == (HotkeyTriggerState {
            suppressed: recording,
            last_sent: old(trigger).last_sent && !recording,
            ..*old(trigger)
        }),
        toggles(dictation_slot(dictation), recording, suppression.dictation),
        toggles(repaste_slot(repaste), recording, suppression.repaste),
        final(watchdog).generation == old(watchdog).generation + 1,
        suppression.timer == if recording {
            Some(final(watchdog).generation)
        } else {
            None
        },
{
    trigger.set_suppressed(recording);
    let dictation = match dictation {
        Some(controller) => controller.set_recording(recording),
        None => None,
    };
    let repaste = match repaste {
        Some(controller) => controller.set_recording(recording),
        None => None,
    };
    let timer = watchdog.set_recording(recording);
    Suppression { dictation, repaste, timer }
}

/// Takes everything up again when the timer with this number runs out, if
/// nothing changed since it was started.
pub fn force_disarm_recording(
    trigger: &mut HotkeyTriggerState,
    dictation: Option<&DictationShortcutController>,
    repaste: Option<&RepasteController>,
    watchdog: &RecordingWatchdog,
    timer: u64,
) -> (suppression: Option<Suppression>)
    ensures
        watchdog.generation != timer ==> suppression is None && *final(trigger) == *old(trigger),
        watchdog.generation == timer ==> {
            &&& *final(trigger) == HotkeyTriggerState { suppressed: false, ..*old(trigger) }
            &&& suppression matches Some(suppression)
            &&& toggles(dictation_slot(dictation), false, suppression.dictation)
            &&& toggles(repaste_slot(repaste), false, suppression.repaste)
            &&& suppression.timer is None
        },
{
    if !watchdog.fires(timer) {
        return None;
    }
    trigger.set_suppressed(false);
    let dictation = match dictation {
        Some(controller) => controller.set_recording(false),
        None => None,
    };
    let repaste = match repaste {
        Some(controller) => controller.set_recording(false),
        None => None,
    };
    Some(Suppression { dictation, repaste, timer: None })
}

/// A job that waits for the main thread.
pub enum Job {
    Rebind { old_accel: Option<Seq<char>>, new_accel: Option<Seq<char>>, version: nat },
    Recording { accel: Seq<char>, version: nat, recording: bool },
}

/// One shortcut together with the jobs that wait and what the system has
/// registered. What happens to it is what the methods of `ShortcutSlot` say
/// that they do, and what performing their steps does.
#[verifier::ext_equal]
pub struct Desk {
    /// The accelerator that is meant to be registered.
    pub accel: Option<Seq<char>>,
    /// The number of changes so far.
    pub version: nat,
    /// The jobs that wait, in order.
    pub queue: Seq<Job>,
    /// The accelerators that are registered with the system.
    pub live: Set<Seq<char>>,
    /// The accelerator of the last change that was carried out.
    pub settled: Option<Seq<char>>,
    /// The version of the last change that was carried out.
    pub settled_version: nat,
}

/// Something that happens to a shortcut.
pub enum DeskEvent {
    /// It is bound anew.
    Apply(Option<Seq<char>>),
    /// It is set aside or taken up again.
    SetRecording(bool),
    /// The main thread takes the next job. The system may refuse to register.
    RunNext { refused: bool },
}

/// What is registered after a step.
pub open spec fn performed(
    live: Set<Seq<char>>,
    step: StepModel,
    refused: bool,
) -> Set<Seq<char>> {
    match step {
        StepModel::Unregister(accel) => live.remove(accel),
        StepModel::Register(accel) => if refused {
            live
        } else {
            live.insert(accel)
        },
        StepModel::ClearHeld => live,
    }
}

/// What is registered after some steps.
pub open spec fn performed_all(
    live: Set<Seq<char>>,
    steps: Seq<StepModel>,
    refused: bool,
) -> Set<Seq<char>>
    decreases steps.len(),
{
    if steps.len() == 0 {
        live
    } else {
        performed(performed_all(live, steps.drop_last(), refused), steps.last(), refused)
    }
}

impl Desk {
    /// A shortcut that was never bound.
    pub open spec fn start() -> Self {
        Desk {
            accel: None,
            version: 0,
            queue: Seq::empty(),
            live: Set::empty(),
            settled: None,
            settled_version: 0,
        }
    }

    /// The shortcut after something happened to it.
    pub open spec fn after(self, event: DeskEvent) -> Self {
        match event {
            DeskEvent::Apply(new_accel) => {
                let job = Job::Rebind {
                    old_accel: self.accel,
                    new_accel,
                    version: self.version + 1,
                };
                Desk {
                    accel: new_accel,
                    version: self.version + 1,
                    queue: self.queue.push(job),
                    ..self
                }
            },
            DeskEvent::SetRecording(recording) => match self.accel {
                Some(accel) => Desk {
                    queue: self.queue.push(
                        Job::Recording { accel, version: self.version, recording },
                    ),
                    ..self
                },
                None => self,
            },
            DeskEvent::RunNext { refused } => if self.queue.len() == 0 {
                self
            } else {
                let rest = self.queue.drop_first();
                match self.queue[0] {
                    Job::Rebind { old_accel, new_accel, version } => Desk {
                        queue: rest,
                        live: performed_all(
                            self.live,
                            rebind_plan(old_accel, new_accel, version != self.version),
                            refused,
                        ),
                        settled: new_accel,
                        settled_version: version,
                        ..self
                    },
                    Job::Recording { accel, version, recording } => Desk {
                        queue: rest,
                        live: performed_all(
                            self.live,
                            recording_plan(accel, recording, version != self.version),
                            refused,
                        ),
                        ..self
                    },
                }
            },
        }
    }

    /// The shortcut after many things happened to it, one after the other.
    pub open spec fn after_all(self, events: Seq<DeskEvent>) -> Self
        decreases events.len(),
    {
        if events.len() == 0 {
            self
        } else {
            self.after_all(events.drop_last()).after(events.last())
        }
    }

    /// The waiting jobs lead from what was carried out to what is meant, and
    /// nothing else than what was carried out is registered.
    pub open spec fn inv(self) -> bool {
        &&& leads(self.queue, self.settled, self.settled_version, self.accel, self.version)
        &&& forall|accel: Seq<char>|
            self.live.contains(accel) ==> self.settled == Some(accel)
    }
}

/// Whether the jobs, one after the other, take a shortcut from one accelerator
/// and version to another.
pub open spec fn leads(
    queue: Seq<Job>,
    from: Option<Seq<char>>,
    from_version: nat,
    to: Option<Seq<char>>,
    to_version: nat,
) -> bool
    decreases queue.len(),
{
    if queue.len() == 0 {
        from == to && from_version == to_version
    } else {
        match queue[0] {
            Job::Rebind { old_accel, new_accel, version } => {
                &&& old_accel == from
                &&& version > from_version
                &&& leads(queue.drop_first(), new_accel, version, to, to_version)
            },
            Job::Recording { accel, version, recording } => {
                &&& from == Some(accel)
                &&& version == from_version
                &&& leads(queue.drop_first(), from, from_version, to, to_version)
            },
        }
    }
}

proof fn leads_forward(
    queue: Seq<Job>,
    from: Option<Seq<char>>,
    from_version: nat,
    to: Option<Seq<char>>,
    to_version: nat,
)
    requires
        leads(queue, from, from_version, to, to_version),
    ensures
        from_version <= to_version,
        from_version == to_version ==> from == to,
    decreases queue.len(),
{
    if queue.len() > 0 {
        match queue[0] {
            Job::Rebind { old_accel, new_accel, version } => {
                leads_forward(queue.drop_first(), new_accel, version, to, to_version);
            },
            Job::Recording { accel, version, recording } => {
                leads_forward(queue.drop_first(), from, from_version, to, to_version);
            },
        }
    }
}

proof fn leads_push(
    queue: Seq<Job>,
    from: Option<Seq<char>>,
    from_version: nat,
    to: Option<Seq<char>>,
    to_version: nat,
    job: Job,
)
    requires
        leads(queue, from, from_version, to, to_version),
    ensures
        job matches Job::Rebind { old_accel, new_accel, version } ==> old_accel == to && version
            > to_version ==> leads(queue.push(job), from, from_version, new_accel, version),
        job matches Job::Recording { accel, version, recording } ==> to == Some(accel) && version
            == to_version ==> leads(queue.push(job), from, from_version, to, to_version),
    decreases queue.len(),
{
    let longer = queue.push(job);
    if queue.len() == 0 {
        assert(longer.drop_first() =~= Seq::<Job>::empty());
        match job {
            Job::Rebind { old_accel, new_accel, version } => {
                assert(leads(longer.drop_first(), new_accel, version, new_accel, version));
            },
            Job::Recording { accel, version, recording } => {
                assert(leads(longer.drop_first(), from, from_version, to, to_version));
            },
        }
    } else {
        assert(longer.drop_first() =~= queue.drop_first().push(job));
        match queue[0] {
            Job::Rebind { old_accel, new_accel, version } => {
                leads_push(queue.drop_first(), new_accel, version, to, to_version, job);
            },
            Job::Recording { accel, version, recording } => {
                leads_push(queue.drop_first(), from, from_version, to, to_version, job);
            },
        }
    }
}

proof fn rebind_performed(
    live: Set<Seq<char>>,
    old_accel: Option<Seq<char>>,
    new_accel: Option<Seq<char>>,
    superseded: bool,
    refused: bool,
)
    requires
        forall|accel: Seq<char>| live.contains(accel) ==> old_accel == Some(accel),
    ensures
        forall|accel: Seq<char>|
            performed_all(
                live,
                rebind_plan(old_accel, new_accel, superseded),
                refused,
            ).contains(accel) <==> !superseded && !refused && new_accel == Some(accel),
{
    reveal_with_fuel(performed_all, 3);
    let plan = rebind_plan(old_accel, new_accel, superseded);
    let first = rebind_plan(old_accel, new_accel, true);
    assert(first.len() > 0 ==> first.drop_last() =~= Seq::<StepModel>::empty());
    if !superseded {
        assert(plan.drop_last() =~= first);
    }
}

proof fn recording_performed(
    live: Set<Seq<char>>,
    accel: Seq<char>,
    recording: bool,
    superseded: bool,
    refused: bool,
)
    requires
        forall|other: Seq<char>| live.contains(other) ==> other == accel,
    ensures
        forall|other: Seq<char>|
            performed_all(
                live,
                recording_plan(accel, recording, superseded),
                refused,
            ).contains(other) ==> other == accel && !recording,
{
    reveal_with_fuel(performed_all, 3);
    let plan = recording_plan(accel, recording, superseded);
    if recording {
        let first = seq![StepModel::Unregister(accel)];
        assert(plan.drop_last() =~= first);
        assert(first.drop_last() =~= Seq::<StepModel>::empty());
    } else if !superseded {
        assert(plan.drop_last() =~= Seq::<StepModel>::empty());
    }
}

proof fn desk_step(desk: Desk, event: DeskEvent)
    requires
        desk.inv(),
    ensures
        desk.after(event).inv(),
{
    match event {
        DeskEvent::Apply(new_accel) => {
            let job = Job::Rebind {
                old_accel: desk.accel,
                new_accel,
                version: desk.version + 1,
            };
            leads_push(
                desk.queue,
                desk.settled,
                desk.settled_version,
                desk.accel,
                desk.version,
                job,
            );
        },
        DeskEvent::SetRecording(recording) => {
            if let Some(accel) = desk.accel {
                let job = Job::Recording { accel, version: desk.version, recording };
                leads_push(
                    desk.queue,
                    desk.settled,
                    desk.settled_version,
                    desk.accel,
                    desk.version,
                    job,
                );
            }
        },
        DeskEvent::RunNext { refused } => {
            if desk.queue.len() > 0 {
                match desk.queue[0] {
                    Job::Rebind { old_accel, new_accel, version } => {
                        rebind_performed(
                            desk.live,
                            old_accel,
                            new_accel,
                            version != desk.version,
                            refused,
                        );
                    },
                    Job::Recording { accel, version, recording } => {
                        recording_performed(
                            desk.live,
                            accel,
                            recording,
                            version != desk.version,
                            refused,
                        );
                    },
                }
            }
        },
    }
}

/// However changes, recordings and the main thread take turns, once no job
/// waits nothing is registered but the accelerator that is meant to be: no
/// stale one is left behind.
pub proof fn no_stale_accelerator(events: Seq<DeskEvent>)
    ensures
        Desk::start().after_all(events).inv(),
        Desk::start().after_all(events).queue.len() == 0 ==> (forall|accel: Seq<char>|
            Desk::start().after_all(events).live.contains(accel) ==> Desk::start().after_all(
                events,
            ).accel == Some(accel)),
    decreases events.len(),
{
    if events.len() > 0 {
        no_stale_accelerator(events.drop_last());
        desk_step(Desk::start().after_all(events.drop_last()), events.last());
    }
}

/// When the last change waiting is carried out and the system does not refuse
/// it, its accelerator, and no other, is registered.
pub proof fn last_change_is_registered(desk: Desk)
    requires
        desk.inv(),
        desk.queue.len() == 1,
        desk.queue[0] is Rebind,
    ensures
        ({
            let done = desk.after(DeskEvent::RunNext { refused: false });
            forall|accel: Seq<char>| done.live.contains(accel) <==> desk.accel == Some(accel)
        }),
{
    if let Job::Rebind { old_accel, new_accel, version } = desk.queue[0] {
        assert(desk.queue.drop_first() =~= Seq::<Job>::empty());
        assert(leads(Seq::<Job>::empty(), new_accel, version, desk.accel, desk.version));
        rebind_performed(desk.live, old_accel, new_accel, false, false);
    }
}

/// Carrying out a change gives the old accelerator up first, whatever came since,
/// and registers the new one only if nothing did; where there is none to register
/// it is forgotten that the shortcut is held.
pub proof fn changes_give_up_the_old_one(
    old_accel: Option<Seq<char>>,
    new_accel: Option<Seq<char>>,
    superseded: bool,
)
    ensures
        ({
            let steps = rebind_plan(old_accel, new_accel, superseded);
            let from = if old_accel is Some {
                1int
            } else {
                0
            };
            &&& steps.len() == from + if superseded {
                0int
            } else {
                1
            }
            &&& old_accel matches Some(old) ==> steps[0] == StepModel::Unregister(old)
            &&& !superseded && new_accel is Some ==> steps[from] == StepModel::Register(
                new_accel->0,
            )
            &&& !superseded && new_accel is None ==> steps[from] == StepModel::ClearHeld
        }),
{
}

/// Setting a shortcut aside gives its accelerator up and forgets that it is held;
/// taking it up again registers it, unless a newer change came.
pub proof fn recordings_set_aside_and_take_up(accel: Seq<char>, superseded: bool)
    ensures
        recording_plan(accel, true, superseded).len() == 2,
        recording_plan(accel, true, superseded)[0] == StepModel::Unregister(accel),
        recording_plan(accel, true, superseded)[1] == StepModel::ClearHeld,
        recording_plan(accel, false, true).len() == 0,
        recording_plan(accel, false, false).len() == 1,
        recording_plan(accel, false, false)[0] == StepModel::Register(accel),
{
}

/// Setting aside and taking up again leaves what is registered as it was, where
/// the accelerator was registered, nothing came between and the system does not
/// refuse it. While it is set aside it is not registered.
pub proof fn recording_leaves_no_trace(live: Set<Seq<char>>, accel: Seq<char>, superseded: bool)
    requires
        live.contains(accel),
    ensures
        ({
            let aside = performed_all(live, recording_plan(accel, true, superseded), false);
            &&& !aside.contains(accel)
            &&& performed_all(aside, recording_plan(accel, false, false), false) == live
        }),
{
    reveal_with_fuel(performed_all, 3);
    let down = recording_plan(accel, true, superseded);
    let up = recording_plan(accel, false, false);
    assert(down.drop_last() =~= seq![StepModel::Unregister(accel)]);
    assert(down.drop_last().drop_last() =~= Seq::<StepModel>::empty());
    assert(up.drop_last() =~= Seq::<StepModel>::empty());
    let aside = performed_all(live, down, false);
    assert(aside =~= live.remove(accel));
    assert(performed_all(aside, up, false) =~= live);
}

/// A job toggles the accelerator of a shortcut that is there and has one, and
/// there is no job in any other case.
pub proof fn toggling_needs_an_accelerator(
    slot: Option<ShortcutSlot>,
    recording: bool,
    job: Option<RecordingToggle>,
)
    requires
        toggles(slot, recording, job),
    ensures
        job is Some <==> slot is Some && slot->0.accel() is Some,
        job matches Some(job) ==> Some(job.accel@) == slot->0.accel() && job.recording == recording
            && job.version == slot->0.apply_version,
{
}

/// Of two presses without a release between them the second does not re-paste,
/// and neither does any while a re-paste is under way. A press after a release
/// does, once the re-paste is over.
pub proof fn one_repaste_at_a_time(
    first: &mut RepasteController,
    second: &mut RepasteController,
    pressed: bool,
    pasted: bool,
    again: bool,
)
    requires
        RepasteController::on_edge.ensures((first, pressed), pasted),
        RepasteController::on_edge.ensures((second, true), again),
        *old(second) == *final(first),
    ensures
        pasted ==> !again,
        pressed ==> !again,
        old(first).in_flight ==> !pasted && !again,
        !pressed && !old(first).in_flight ==> again,
        !pressed ==> !pasted,
{
}

/// The edges of the dictation shortcut that are forwarded are presses and
/// releases in turn.
pub proof fn forwarded_dictation_edges_alternate(
    first: &mut DictationShortcutController,
    second: &mut DictationShortcutController,
    a: bool,
    b: bool,
    edge_a: Option<bool>,
    edge_b: Option<bool>,
)
    requires
        DictationShortcutController::on_edge.ensures((first, a), edge_a),
        DictationShortcutController::on_edge.ensures((second, b), edge_b),
        *old(second) == *final(first),
    ensures
        edge_a is Some ==> edge_a == Some(a),
        edge_b is Some <==> a != b,
        edge_b is Some ==> edge_b == Some(b),
        old(first).slot.held != a ==> edge_a is Some,
{
}

/// A timer that was started when recording began fires only if nothing was
/// recorded since, and none is started when it ends.
pub proof fn only_the_last_timer_fires(
    first: &mut RecordingWatchdog,
    second: &mut RecordingWatchdog,
    timer: Option<u64>,
    recording: bool,
    next: Option<u64>,
    fires: bool,
)
    requires
        RecordingWatchdog::set_recording.ensures((first, true), timer),
        RecordingWatchdog::set_recording.ensures((second, recording), next),
        *old(second) == *final(first),
        timer is Some ==> RecordingWatchdog::fires.ensures((&*final(second), timer->0), fires),
    ensures
        timer is Some,
        !fires,
        next is Some <==> recording,
        next matches Some(next) ==> next == final(second).generation,
{
}

/// What replaces a shortcut that the system refused is fine, and is not registered
/// with the system itself.
pub proof fn healed_shortcuts_cannot_be_refused(target: &str, heal: Option<Heal>)
    requires
        heal_failed_registration.ensures((target,), heal),
    ensures
        heal is Some <==> target@ == "dictation"@ || target@ == "repaste"@,
        heal matches Some(Heal::Dictation(binding)) ==> binding.accelerator_code() is None
            && dictation_error(binding.modifiers().to_set(), binding.key_code()) is None,
        heal matches Some(Heal::Repaste) ==> target@ == "repaste"@,
{
    if let Some(Heal::Dictation(binding)) = heal {
        dictation_bindings_that_are_fine(binding.modifiers(), Seq::empty());
        assert(binding.modifiers()[0] != binding.modifiers()[1]);
    }
}

} // verus!
