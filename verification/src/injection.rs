//! Inserting a dictation into the app that has the focus.
//!
//! The text goes over the clipboard: what is on it is set aside, the text is
//! written, the paste keystroke is typed, and what was on it is put back.

use vstd::prelude::*;
use vstd::utf8::*;

use crate::error::MuniError;
use crate::text::same_text;

verus! {

/// The pause after the keystroke, unless it is set, in milliseconds.
pub const DEFAULT_PASTE_DELAY_MS: u64 = 50;

/// The longest pause that can be set, in milliseconds.
pub const MAX_PASTE_DELAY_MS: u64 = 1000;

/// How long the text stays on the clipboard after that, in milliseconds. An
/// app that is slow to read it must not find what was there before.
pub const DEFAULT_RESTORE_DELAY_MS: u64 = 350;

/// Each so many characters keep the text on the clipboard a millisecond longer.
pub const RESTORE_DELAY_CHARS_PER_MS: u64 = 10;

/// The longest time that the text stays on the clipboard, in milliseconds.
pub const MAX_RESTORE_DELAY_MS: u64 = 800;

/// How long the user's own key is waited for, in milliseconds.
pub const KEY_RELEASE_MAX_WAIT_MS: u64 = 700;

/// How often it is looked at, in milliseconds.
pub const KEY_RELEASE_POLL_MS: u64 = 8;

/// How long the focus is looked for, in milliseconds.
pub const FOCUS_PROBE_BUDGET_MS: u64 = 300;

/// The clipboard type of plain text.
pub const TEXT_TYPE: &'static str = "public.utf8-plain-text";

/// The clipboard type that keeps a text out of clipboard histories.
pub const TRANSIENT_TYPE: &'static str = "org.nspasteboard.TransientType";

/// The answer of an accessibility call that went well.
pub const AX_ERROR_SUCCESS: i32 = 0;

/// The answer that an element does not have an attribute.
pub const AX_ERROR_ATTRIBUTE_UNSUPPORTED: i32 = -25205;

/// Whether there is something focused that takes text.
#[derive(Debug, Clone, Copy, PartialEq, Eq, Structural)]
pub enum FocusProbe {
    /// There is.
    Editable,
    /// There certainly is not. Only this keeps a dictation from being pasted.
    NoEditableField,
    /// It is not known.
    Unknown,
}

/// The roles of elements that take text.
pub open spec fn editable_role(role: Seq<char>) -> bool {
    ||| role == "AXTextField"@
    ||| role == "AXTextArea"@
    ||| role == "AXComboBox"@
    ||| role == "AXSearchField"@
}

/// The roles of elements that certainly take none. Roles of containers are not
/// among them: an editor may report one.
pub open spec fn non_editable_role(role: Seq<char>) -> bool {
    ||| role == "AXButton"@
    ||| role == "AXStaticText"@
    ||| role == "AXLink"@
    ||| role == "AXImage"@
    ||| role == "AXCheckBox"@
    ||| role == "AXRadioButton"@
    ||| role == "AXMenuItem"@
    ||| role == "AXPopUpButton"@
    ||| role == "AXDisclosureTriangle"@
}

fn is_editable_role(role: &str) -> (result: bool)
    ensures
        result == editable_role(role@),
{
    same_text(role, "AXTextField") || same_text(role, "AXTextArea")
        || same_text(role, "AXComboBox") || same_text(role, "AXSearchField")
}

fn is_non_editable_role(role: &str) -> (result: bool)
    ensures
        result == non_editable_role(role@),
{
    same_text(role, "AXButton") || same_text(role, "AXStaticText") || same_text(role, "AXLink")
        || same_text(role, "AXImage") || same_text(role, "AXCheckBox")
        || same_text(role, "AXRadioButton") || same_text(role, "AXMenuItem")
        || same_text(role, "AXPopUpButton") || same_text(role, "AXDisclosureTriangle")
}

/// What a role alone tells, if it tells anything.
pub open spec fn role_verdict(role: Seq<char>) -> Option<FocusProbe> {
    if editable_role(role) {
        Some(FocusProbe::Editable)
    } else if non_editable_role(role) {
        Some(FocusProbe::NoEditableField)
    } else {
        None
    }
}

/// What a role alone tells, if it tells anything.
pub fn classify_role(role: &str) -> (verdict: Option<FocusProbe>)
    ensures
        verdict == role_verdict(role@),
{
    if is_editable_role(role) {
        Some(FocusProbe::Editable)
    } else if is_non_editable_role(role) {
        Some(FocusProbe::NoEditableField)
    } else {
        None
    }
}

/// What is asked next about the focused element.
#[derive(Debug, Clone, Copy, PartialEq, Eq, Structural)]
pub enum ProbeStep {
    /// Nothing: this is the answer.
    Done(FocusProbe),
    /// Whether its value can be set.
    AskSettable,
    /// Whether it has the class list that elements of web pages have.
    AskDomClassList,
}

/// Takes in whether there is a focused element and what its role is. A role
/// that could not be read counts as an empty one.
pub fn probe_role(focused: bool, role: Option<&str>) -> (step: ProbeStep)
    ensures
        step == if !focused {
            ProbeStep::Done(FocusProbe::Unknown)
        } else {
            match role {
                Some(role) => match role_verdict(role@) {
                    Some(verdict) => ProbeStep::Done(verdict),
                    None => ProbeStep::AskSettable,
                },
                None => ProbeStep::AskSettable,
            }
        },
{
    if !focused {
        return ProbeStep::Done(FocusProbe::Unknown);
    }
    match role {
        Some(role) => match classify_role(role) {
            Some(verdict) => ProbeStep::Done(verdict),
            None => ProbeStep::AskSettable,
        },
        None => ProbeStep::AskSettable,
    }
}

/// Takes in whether the value of the element can be set; `None` if that could
/// not be told.
pub fn probe_settable(settable: Option<bool>) -> (step: ProbeStep)
    ensures
        step == match settable {
            None => ProbeStep::Done(FocusProbe::Unknown),
            Some(true) => ProbeStep::Done(FocusProbe::Editable),
            Some(false) => ProbeStep::AskDomClassList,
        },
{
    match settable {
        None => ProbeStep::Done(FocusProbe::Unknown),
        Some(true) => ProbeStep::Done(FocusProbe::Editable),
        Some(false) => ProbeStep::AskDomClassList,
    }
}

/// Takes in the answer to the question for the class list. Only an element that
/// does not know the attribute is certainly none of a web page, where an editor
/// may report a value that cannot be set.
pub fn probe_dom(dom_err: i32) -> (verdict: FocusProbe)
    ensures
        verdict == if dom_err == AX_ERROR_ATTRIBUTE_UNSUPPORTED {
            FocusProbe::NoEditableField
        } else {
            FocusProbe::Unknown
        },
{
    if dom_err == AX_ERROR_ATTRIBUTE_UNSUPPORTED {
        FocusProbe::NoEditableField
    } else {
        FocusProbe::Unknown
    }
}

/// All that can be asked about the focused element.
#[derive(Debug, Clone, PartialEq, Eq)]
pub struct FocusFacts {
    pub focused: bool,
    pub role: Option<String>,
    pub settable: Option<bool>,
    pub dom_err: i32,
}

/// Whether the facts rule out that something focused takes text: the role is
/// one that takes none, or it tells nothing, the value cannot be set, and the
/// element is none of a web page.
pub open spec fn certainly_not_editable(facts: FocusFacts) -> bool {
    let role = match facts.role {
        Some(role) => role_verdict(role@),
        None => None,
    };
    facts.focused && (role == Some(FocusProbe::NoEditableField) || (role is None && facts.settable
        == Some(false) && facts.dom_err == AX_ERROR_ATTRIBUTE_UNSUPPORTED))
}

/// Whether the facts show that something focused takes text.
pub open spec fn certainly_editable(facts: FocusFacts) -> bool {
    let role = match facts.role {
        Some(role) => role_verdict(role@),
        None => None,
    };
    facts.focused && (role == Some(FocusProbe::Editable) || (role is None && facts.settable
        == Some(true)))
}

/// Whether there is something focused that takes text. Any doubt counts as not
/// known, so that no dictation is kept back by mistake.
pub fn focused_field_probe(facts: &FocusFacts) -> (verdict: FocusProbe)
    ensures
        verdict == FocusProbe::NoEditableField <==> certainly_not_editable(*facts),
        verdict == FocusProbe::Editable <==> certainly_editable(*facts),
{
    let role = match &facts.role {
        Some(role) => Some(role.as_str()),
        None => None,
    };
    match probe_role(facts.focused, role) {
        ProbeStep::Done(verdict) => verdict,
        _ => match probe_settable(facts.settable) {
            ProbeStep::Done(verdict) => verdict,
            _ => probe_dom(facts.dom_err),
        },
    }
}

/// How looking for the focus went.
#[derive(Debug, Clone, Copy, PartialEq, Eq, Structural)]
pub enum ProbeOutcome {
    /// It gave an answer in time.
    Verdict(FocusProbe),
    /// It broke down.
    Failed,
    /// It took too long.
    TimedOut,
}

/// The answer, if one came in time; else it is not known.
pub fn probe_with_budget(outcome: ProbeOutcome) -> (verdict: FocusProbe)
    ensures
        verdict == match outcome {
            ProbeOutcome::Verdict(verdict) => verdict,
            _ => FocusProbe::Unknown,
        },
{
    match outcome {
        ProbeOutcome::Verdict(verdict) => verdict,
        _ => FocusProbe::Unknown,
    }
}

/// The process of the focused app, given the answer for it, if an app is
/// focused.
pub fn focused_app_pid(answer: Option<(i32, i32)>) -> (pid: Option<i32>)
    ensures
        pid == match answer {
            Some((err, pid)) => if err == AX_ERROR_SUCCESS && pid > 0 {
                Some(pid)
            } else {
                None
            },
            None => None,
        },
{
    match answer {
        Some((err, pid)) => if err == AX_ERROR_SUCCESS && pid > 0 {
            Some(pid)
        } else {
            None
        },
        None => None,
    }
}

/// Whether to go on waiting for the user's own key to come up.
pub fn keep_waiting(key_down: bool, waited_ms: u64) -> (wait: bool)
    ensures
        wait == (key_down && waited_ms < KEY_RELEASE_MAX_WAIT_MS),
{
    key_down && waited_ms < KEY_RELEASE_MAX_WAIT_MS
}

/// What is written to the clipboard: the text and a space, so that what is
/// dictated or typed next does not run into it.
pub fn paste_payload(text: &str) -> (payload: String)
    ensures
        payload@ == text@.push(' '),
{
    let mut payload = text.to_owned();
    payload.push(' ');
    payload
}

/// How long the text stays on the clipboard.
pub open spec fn restore_delay(base_ms: int, text_len: int) -> int {
    let delay = base_ms + text_len / (RESTORE_DELAY_CHARS_PER_MS as int);
    if delay <= MAX_RESTORE_DELAY_MS {
        delay
    } else {
        MAX_RESTORE_DELAY_MS as int
    }
}

/// How long the text stays on the clipboard.
pub fn effective_restore_delay_ms(base_ms: u64, text_len: usize) -> (ms: u64)
    ensures
        ms == restore_delay(base_ms as int, text_len as int),
{
    let extra: u64 = text_len as u64 / RESTORE_DELAY_CHARS_PER_MS;
    let delay: u64 = base_ms.saturating_add(extra);
    if delay <= MAX_RESTORE_DELAY_MS {
        delay
    } else {
        MAX_RESTORE_DELAY_MS
    }
}

/// A longer text never stays on the clipboard for a shorter time, and none for
/// less than the configured one, unless that exceeds the longest.
pub proof fn restore_delay_only_widens(base_ms: nat, short: nat, long: nat)
    requires
        short <= long,
    ensures
        restore_delay(base_ms as int, short as int) <= restore_delay(base_ms as int, long as int)
            <= MAX_RESTORE_DELAY_MS,
        base_ms <= MAX_RESTORE_DELAY_MS ==> base_ms <= restore_delay(base_ms as int, short as int),
{
}

/// What inserting a text takes.
#[derive(Debug, Clone, PartialEq, Eq)]
pub struct PastePlan {
    pub payload: String,
    pub paste_delay_ms: u64,
    pub restore_delay_ms: u64,
}

/// One step of inserting a text.
#[derive(Debug, Clone, Copy, PartialEq, Eq, Structural)]
pub enum PasteStep {
    /// What is on the clipboard is set aside.
    Snapshot,
    /// The text is written to the clipboard.
    Write,
    /// The user's own key is waited for.
    WaitForKeyRelease,
    /// The paste keystroke is typed. If that fails, the steps that are left are
    /// those after a failure.
    Post,
    /// Nothing is done for so many milliseconds.
    Sleep(u64),
    /// What was set aside is put back.
    Restore,
}

impl PastePlan {
    /// The steps, in order.
    pub open spec fn step_list(self) -> Seq<PasteStep> {
        seq![
            PasteStep::Snapshot,
            PasteStep::Write,
            PasteStep::WaitForKeyRelease,
            PasteStep::Post,
            PasteStep::Sleep(self.paste_delay_ms),
            PasteStep::Sleep(self.restore_delay_ms),
            PasteStep::Restore,
        ]
    }

    /// The steps, in order.
    pub fn steps(&self) -> (steps: Vec<PasteStep>)
        ensures
            steps@ == self.step_list(),
    {
        vec![
            PasteStep::Snapshot,
            PasteStep::Write,
            PasteStep::WaitForKeyRelease,
            PasteStep::Post,
            PasteStep::Sleep(self.paste_delay_ms),
            PasteStep::Sleep(self.restore_delay_ms),
            PasteStep::Restore,
        ]
    }

    /// The steps that are left once the keystroke could not be typed: what was
    /// set aside is put back.
    pub open spec fn failure_list(self) -> Seq<PasteStep> {
        seq![PasteStep::Restore]
    }

    /// The steps that are left once the keystroke could not be typed.
    pub fn steps_after_failure(&self) -> (steps: Vec<PasteStep>)
        ensures
            steps@ == self.failure_list(),
    {
        vec![PasteStep::Restore]
    }

    /// The steps that act, whether or not the keystroke could be typed.
    pub open spec fn steps_taken(self, posted: bool) -> Seq<PasteStep> {
        if posted {
            self.step_list()
        } else {
            self.step_list().take(3) + self.failure_list()
        }
    }
}

/// What inserting a text comes to, given whether the keystroke could be typed.
pub fn paste_result(posted: bool) -> (result: Result<(), MuniError>)
    ensures
        result == if posted {
            Ok::<(), MuniError>(())
        } else {
            Err::<(), MuniError>(MuniError::PasteInjectionFailed)
        },
{
    if posted {
        Ok(())
    } else {
        Err(MuniError::PasteInjectionFailed)
    }
}

/// The clipboard, and what was set aside of it.
#[verifier::ext_equal]
pub struct ClipboardModel {
    pub contents: Map<Seq<char>, Seq<u8>>,
    pub saved: Map<Seq<char>, Seq<u8>>,
}

/// What is on the clipboard once a text was written to it.
pub open spec fn written(payload: Seq<char>) -> Map<Seq<char>, Seq<u8>> {
    map![TEXT_TYPE@ => encode_utf8(payload), TRANSIENT_TYPE@ => Seq::<u8>::empty()]
}

/// The clipboard after a step.
pub open spec fn clipboard_after(
    clipboard: ClipboardModel,
    step: PasteStep,
    payload: Seq<char>,
) -> ClipboardModel {
    match step {
        PasteStep::Snapshot => ClipboardModel { saved: clipboard.contents, ..clipboard },
        PasteStep::Write => ClipboardModel { contents: written(payload), ..clipboard },
        PasteStep::Restore => ClipboardModel { contents: clipboard.saved, ..clipboard },
        _ => clipboard,
    }
}

/// The clipboard after some steps.
pub open spec fn clipboard_after_all(
    clipboard: ClipboardModel,
    steps: Seq<PasteStep>,
    payload: Seq<char>,
) -> ClipboardModel
    decreases steps.len(),
{
    if steps.len() == 0 {
        clipboard
    } else {
        clipboard_after(
            clipboard_after_all(clipboard, steps.drop_last(), payload),
            steps.last(),
            payload,
        )
    }
}

/// When the keystroke is typed the clipboard holds the text. After the last
/// step it holds what it held before, also if the keystroke could not be typed.
pub proof fn paste_keeps_the_clipboard(plan: PastePlan, clipboard: ClipboardModel)
    ensures
        plan.step_list()[3] == PasteStep::Post,
        clipboard_after_all(clipboard, plan.step_list().take(3), plan.payload@).contents
            == written(plan.payload@),
        clipboard_after_all(clipboard, plan.step_list(), plan.payload@).contents
            == clipboard.contents,
        clipboard_after_all(
            clipboard,
            plan.step_list().take(3) + plan.failure_list(),
            plan.payload@,
        ).contents == clipboard.contents,
{
    reveal_with_fuel(clipboard_after_all, 8);
    let steps = plan.step_list();
    assert(steps.take(3).drop_last() =~= steps.take(2));
    assert(steps.take(2).drop_last() =~= steps.take(1));
    assert(steps.take(1).drop_last() =~= Seq::<PasteStep>::empty());
    assert(steps.drop_last() =~= steps.take(6));
    assert(steps.take(6).drop_last() =~= steps.take(5));
    assert(steps.take(5).drop_last() =~= steps.take(4));
    assert(steps.take(4).drop_last() =~= steps.take(3));
    assert((steps.take(3) + plan.failure_list()).drop_last() =~= steps.take(3));
}

/// The clipboard after some texts were to be inserted, each one only when the
/// one before it was done. Each entry tells whether the keystroke could be
/// typed.
pub open spec fn clipboard_after_pastes(
    clipboard: ClipboardModel,
    pastes: Seq<(PastePlan, bool)>,
) -> ClipboardModel
    decreases pastes.len(),
{
    if pastes.len() == 0 {
        clipboard
    } else {
        let (plan, posted) = pastes.last();
        clipboard_after_all(
            clipboard_after_pastes(clipboard, pastes.drop_last()),
            plan.steps_taken(posted),
            plan.payload@,
        )
    }
}

/// However many texts are inserted one after the other, and whichever of them
/// fail, the clipboard holds what it held before.
pub proof fn serialized_pastes_keep_the_clipboard(
    clipboard: ClipboardModel,
    pastes: Seq<(PastePlan, bool)>,
)
    ensures
        clipboard_after_pastes(clipboard, pastes).contents == clipboard.contents,
    decreases pastes.len(),
{
    if pastes.len() > 0 {
        serialized_pastes_keep_the_clipboard(clipboard, pastes.drop_last());
        paste_keeps_the_clipboard(
            pastes.last().0,
            clipboard_after_pastes(clipboard, pastes.drop_last()),
        );
    }
}

/// A way to insert text into the focused app.
pub trait PlatformInjector {
    /// Whether `result` is what inserting `text` comes to; `trusted` tells
    /// whether the app may type into others.
    spec fn pastes(&self, text: Seq<char>, trusted: bool, result: Result<PastePlan, MuniError>)
        -> bool;

    /// Whether Enter can be pressed.
    spec fn enters(&self, trusted: bool) -> Result<(), MuniError>;

    /// Whether something focused takes text, given what looking for it gives.
    spec fn focus(&self, trusted: bool, probed: FocusProbe) -> FocusProbe;

    /// What inserting a text takes, or why it is not inserted.
    fn paste(&self, text: &str, trusted: bool) -> (result: Result<PastePlan, MuniError>)
        ensures
            self.pastes(text@, trusted, result),
    ;

    /// Whether Enter is pressed in the focused app, or why it is not.
    fn press_enter(&self, trusted: bool) -> (result: Result<(), MuniError>)
        ensures
            result == self.enters(trusted),
    ;

    /// Whether something focused takes text, given what looking for it gives.
    fn has_editable_focus(&self, trusted: bool, probed: FocusProbe) -> (verdict: FocusProbe)
        ensures
            verdict == self.focus(trusted, probed),
    ;
}

/// Inserting text on macOS.
#[derive(Debug, Clone, Copy, PartialEq, Eq, Structural)]
pub struct MacInjector {
    pub paste_delay_ms: u64,
    pub restore_delay_ms: u64,
}

impl Default for MacInjector {
    /// The pauses that hold unless they are set.
    fn default() -> (injector: Self)
        ensures
            injector.paste_delay_ms == DEFAULT_PASTE_DELAY_MS,
            injector.restore_delay_ms == DEFAULT_RESTORE_DELAY_MS,
    {
        MacInjector {
            paste_delay_ms: DEFAULT_PASTE_DELAY_MS,
            restore_delay_ms: DEFAULT_RESTORE_DELAY_MS,
        }
    }
}

impl PlatformInjector for MacInjector {
    /// There must be a text, and the app must be allowed to type.
    open spec fn pastes(
        &self,
        text: Seq<char>,
        trusted: bool,
        result: Result<PastePlan, MuniError>,
    ) -> bool {
        if text.len() == 0 {
            result == Err::<PastePlan, MuniError>(MuniError::NothingToPaste)
        } else if !trusted {
            result == Err::<PastePlan, MuniError>(MuniError::AccessibilityDenied)
        } else {
            &&& result matches Ok(plan)
            &&& plan.payload@ == text.push(' ')
            &&& plan.paste_delay_ms == self.paste_delay_ms
            &&& plan.restore_delay_ms == restore_delay(
                self.restore_delay_ms as int,
                text.len() as int,
            )
        }
    }

    open spec fn enters(&self, trusted: bool) -> Result<(), MuniError> {
        if trusted {
            Ok(())
        } else {
            Err(MuniError::AccessibilityDenied)
        }
    }

    /// Without the permission, what was found counts for nothing.
    open spec fn focus(&self, trusted: bool, probed: FocusProbe) -> FocusProbe {
        if trusted {
            probed
        } else {
            FocusProbe::Unknown
        }
    }

    fn paste(&self, text: &str, trusted: bool) -> (result: Result<PastePlan, MuniError>) {
        if text.is_empty() {
            return Err(MuniError::NothingToPaste);
        }
        if !trusted {
            return Err(MuniError::AccessibilityDenied);
        }
        let restore_delay_ms: u64 = effective_restore_delay_ms(
            self.restore_delay_ms,
            text.unicode_len(),
        );
        Ok(
            PastePlan {
                payload: paste_payload(text),
                paste_delay_ms: self.paste_delay_ms,
                restore_delay_ms,
            },
        )
    }

    fn press_enter(&self, trusted: bool) -> (result: Result<(), MuniError>) {
        if trusted {
            Ok(())
        } else {
            Err(MuniError::AccessibilityDenied)
        }
    }

    fn has_editable_focus(&self, trusted: bool, probed: FocusProbe) -> (verdict: FocusProbe) {
        if trusted {
            probed
        } else {
            FocusProbe::Unknown
        }
    }
}

/// Windows, where text is not inserted yet.
#[derive(Debug, Clone, Copy, PartialEq, Eq, Structural)]
pub struct WindowsInjector;

impl PlatformInjector for WindowsInjector {
    open spec fn pastes(
        &self,
        text: Seq<char>,
        trusted: bool,
        result: Result<PastePlan, MuniError>,
    ) -> bool {
        result == Err::<PastePlan, MuniError>(MuniError::PlatformUnsupported)
    }

    open spec fn enters(&self, trusted: bool) -> Result<(), MuniError> {
        Err(MuniError::PlatformUnsupported)
    }

    open spec fn focus(&self, trusted: bool, probed: FocusProbe) -> FocusProbe {
        FocusProbe::Unknown
    }

    fn paste(&self, _text: &str, _trusted: bool) -> (result: Result<PastePlan, MuniError>) {
        Err(MuniError::PlatformUnsupported)
    }

    fn press_enter(&self, _trusted: bool) -> (result: Result<(), MuniError>) {
        Err(MuniError::PlatformUnsupported)
    }

    fn has_editable_focus(&self, _trusted: bool, _probed: FocusProbe) -> (verdict: FocusProbe) {
        FocusProbe::Unknown
    }
}

/// The system that the app runs on.
#[derive(Debug, Clone, Copy, PartialEq, Eq, Structural)]
pub enum Platform {
    MacOs,
    Windows,
    Other,
}

/// The way to insert text on a system.
#[derive(Debug, Clone, Copy, PartialEq, Eq, Structural)]
pub enum Injector {
    Mac(MacInjector),
    /// Any system where text is not inserted yet.
    Stub(WindowsInjector),
}

impl PlatformInjector for Injector {
    open spec fn pastes(
        &self,
        text: Seq<char>,
        trusted: bool,
        result: Result<PastePlan, MuniError>,
    ) -> bool {
        match self {
            Injector::Mac(injector) => injector.pastes(text, trusted, result),
            Injector::Stub(injector) => injector.pastes(text, trusted, result),
        }
    }

    open spec fn enters(&self, trusted: bool) -> Result<(), MuniError> {
        match self {
            Injector::Mac(injector) => injector.enters(trusted),
            Injector::Stub(injector) => injector.enters(trusted),
        }
    }

    open spec fn focus(&self, trusted: bool, probed: FocusProbe) -> FocusProbe {
        match self {
            Injector::Mac(injector) => injector.focus(trusted, probed),
            Injector::Stub(injector) => injector.focus(trusted, probed),
        }
    }

    fn paste(&self, text: &str, trusted: bool) -> (result: Result<PastePlan, MuniError>) {
        match self {
            Injector::Mac(injector) => injector.paste(text, trusted),
            Injector::Stub(injector) => injector.paste(text, trusted),
        }
    }

    fn press_enter(&self, trusted: bool) -> (result: Result<(), MuniError>) {
        match self {
            Injector::Mac(injector) => injector.press_enter(trusted),
            Injector::Stub(injector) => injector.press_enter(trusted),
        }
    }

    fn has_editable_focus(&self, trusted: bool, probed: FocusProbe) -> (verdict: FocusProbe) {
        match self {
            Injector::Mac(injector) => injector.has_editable_focus(trusted, probed),
            Injector::Stub(injector) => injector.has_editable_focus(trusted, probed),
        }
    }
}

/// The way to insert text on a system, with the pause that is set. A pause that
/// is too long is cut.
pub fn default_injector(platform: Platform, paste_delay_ms: u64) -> (injector: Injector)
    ensures
        injector == match platform {
            Platform::MacOs => Injector::Mac(
                MacInjector {
                    paste_delay_ms: if paste_delay_ms <= MAX_PASTE_DELAY_MS {
                        paste_delay_ms
                    } else {
                        MAX_PASTE_DELAY_MS
                    },
                    restore_delay_ms: DEFAULT_RESTORE_DELAY_MS,
                },
            ),
            _ => Injector::Stub(WindowsInjector),
        },
{
    match platform {
        Platform::MacOs => {
            let delay: u64 = if paste_delay_ms <= MAX_PASTE_DELAY_MS {
                paste_delay_ms
            } else {
                MAX_PASTE_DELAY_MS
            };
            Injector::Mac(MacInjector { paste_delay_ms: delay, ..MacInjector::default() })
        },
        Platform::Windows => Injector::Stub(WindowsInjector),
        Platform::Other => Injector::Stub(WindowsInjector),
    }
}

/// The roles that take text are four, and those that certainly take none are
/// nine. No other role tells anything.
pub proof fn roles_that_tell(role: Seq<char>)
    ensures
        role_verdict(role) == Some(FocusProbe::Editable) <==> role == "AXTextField"@ || role
            == "AXTextArea"@ || role == "AXComboBox"@ || role == "AXSearchField"@,
        role_verdict(role) == Some(FocusProbe::NoEditableField) <==> role == "AXButton"@ || role
            == "AXStaticText"@ || role == "AXLink"@ || role == "AXImage"@ || role == "AXCheckBox"@
            || role == "AXRadioButton"@ || role == "AXMenuItem"@ || role == "AXPopUpButton"@
            || role == "AXDisclosureTriangle"@,
        role_verdict(role) != Some(FocusProbe::Unknown),
{
    reveal_strlit("AXTextField");
    reveal_strlit("AXTextArea");
    reveal_strlit("AXComboBox");
    reveal_strlit("AXSearchField");
    reveal_strlit("AXButton");
    reveal_strlit("AXStaticText");
    reveal_strlit("AXLink");
    reveal_strlit("AXImage");
    reveal_strlit("AXCheckBox");
    reveal_strlit("AXRadioButton");
    reveal_strlit("AXMenuItem");
    reveal_strlit("AXPopUpButton");
    reveal_strlit("AXDisclosureTriangle");
    if editable_role(role) && non_editable_role(role) {
        assert("AXTextField"@[2] == 'T' && "AXTextArea"@[2] == 'T' && "AXSearchField"@[2] == 'S');
        assert("AXComboBox"@[2] == 'C' && "AXComboBox"@[3] == 'o');
        assert("AXButton"@[2] == 'B' && "AXStaticText"@[3] == 't' && "AXSearchField"@[3] == 'e');
        assert("AXLink"@[2] == 'L' && "AXImage"@[2] == 'I' && "AXCheckBox"@[2] == 'C');
        assert("AXCheckBox"@[3] == 'h' && "AXRadioButton"@[2] == 'R' && "AXMenuItem"@[2] == 'M');
        assert("AXPopUpButton"@[2] == 'P' && "AXDisclosureTriangle"@[2] == 'D');
        assert("AXStaticText"@[2] == 'S');
    }
}

/// A dictation is kept back only on certain knowledge: something is focused, and
/// either its role takes no text, or its role tells nothing, its value cannot be
/// set, and it does not know the attribute that elements of web pages have. It
/// counts as text where the role says so, or where the role tells nothing and the
/// value can be set. Anything else is not known.
pub proof fn doubt_keeps_nothing_back(facts: FocusFacts, verdict: FocusProbe)
    requires
        focused_field_probe.ensures((&facts,), verdict),
    ensures
        !facts.focused ==> verdict == FocusProbe::Unknown,
        facts.focused ==> {
            let told = match facts.role {
                Some(role) => role_verdict(role@),
                None => None,
            };
            &&& told matches Some(told) ==> verdict == told
            &&& told is None && facts.settable is None ==> verdict == FocusProbe::Unknown
            &&& told is None && facts.settable == Some(true) ==> verdict == FocusProbe::Editable
            &&& told is None && facts.settable == Some(false) && facts.dom_err == -25205 ==> verdict
                == FocusProbe::NoEditableField
            &&& told is None && facts.settable == Some(false) && facts.dom_err != -25205 ==> verdict
                == FocusProbe::Unknown
        },
{
    if let Some(role) = facts.role {
        roles_that_tell(role@);
    }
}

/// The text stays on the clipboard for the configured time and a millisecond more
/// for each ten characters, but for no more than 800 milliseconds.
pub proof fn restore_delay_grows_with_the_text(base_ms: nat, text_len: nat)
    ensures
        ({
            let delay = restore_delay(base_ms as int, text_len as int);
            &&& 10 * base_ms + text_len < 8_010 ==> 10 * (delay - base_ms) <= text_len < 10 * (delay
                - base_ms) + 10
            &&& 10 * base_ms + text_len >= 8_010 ==> delay == 800
        }),
{
}

/// What was on the clipboard is set aside before the text is written, the user's
/// own key is waited for before the keystroke, and between the keystroke and
/// putting things back both pauses pass.
pub proof fn steps_of_a_paste(plan: PastePlan)
    ensures
        ({
            let steps = plan.step_list();
            &&& steps.len() == 7
            &&& steps[0] == PasteStep::Snapshot
            &&& steps[1] == PasteStep::Write
            &&& steps[2] == PasteStep::WaitForKeyRelease
            &&& steps[3] == PasteStep::Post
            &&& steps[4] == PasteStep::Sleep(plan.paste_delay_ms)
            &&& steps[5] == PasteStep::Sleep(plan.restore_delay_ms)
            &&& steps[6] == PasteStep::Restore
        }),
{
}

/// On macOS a text is inserted exactly if there is one and the app may type. What
/// is written is the text and a space, and the pauses are those that are set, the
/// second as long as the text needs. What is on the clipboard then is that text,
/// marked as passing.
pub proof fn texts_are_inserted_whole(
    injector: MacInjector,
    text: Seq<char>,
    trusted: bool,
    result: Result<PastePlan, MuniError>,
)
    requires
        injector.pastes(text, trusted, result),
    ensures
        result is Ok <==> text.len() > 0 && trusted,
        text.len() == 0 ==> result == Err::<PastePlan, MuniError>(MuniError::NothingToPaste),
        text.len() > 0 && !trusted ==> result == Err::<PastePlan, MuniError>(
            MuniError::AccessibilityDenied,
        ),
        result matches Ok(plan) ==> {
            &&& plan.payload@ == text + seq![' ']
            &&& plan.paste_delay_ms == injector.paste_delay_ms
            &&& plan.restore_delay_ms == restore_delay(
                injector.restore_delay_ms as int,
                text.len() as int,
            )
            &&& written(plan.payload@).dom() == set![
                "public.utf8-plain-text"@,
                "org.nspasteboard.TransientType"@,
            ]
            &&& written(plan.payload@)["public.utf8-plain-text"@] == encode_utf8(
                text + seq![' '],
            )
            &&& written(plan.payload@)["org.nspasteboard.TransientType"@].len() == 0
        },
{
    if let Ok(plan) = result {
        assert(text.push(' ') =~= text + seq![' ']);
        reveal_strlit("public.utf8-plain-text");
        reveal_strlit("org.nspasteboard.TransientType");
        assert(TEXT_TYPE@.len() != TRANSIENT_TYPE@.len());
        assert(written(plan.payload@).dom() =~= set![TEXT_TYPE@, TRANSIENT_TYPE@]);
    }
}

/// Without the permission Enter is not pressed and what was found counts for
/// nothing; with it both go through. Windows takes neither.
pub proof fn typing_needs_the_permission(injector: MacInjector, probed: FocusProbe)
    ensures
        injector.enters(true) is Ok,
        injector.enters(false) == Err::<(), MuniError>(MuniError::AccessibilityDenied),
        injector.focus(true, probed) == probed,
        injector.focus(false, probed) == FocusProbe::Unknown,
        WindowsInjector.enters(true) == Err::<(), MuniError>(MuniError::PlatformUnsupported),
        WindowsInjector.focus(true, probed) == FocusProbe::Unknown,
{
}

/// The user's own key is waited for while it is down, for up to 700 milliseconds.
pub proof fn keys_are_waited_for(key_down: bool, waited_ms: u64, wait: bool)
    requires
        keep_waiting.ensures((key_down, waited_ms), wait),
    ensures
        wait <==> key_down && waited_ms < 700,
{
}

/// The keystroke goes to a process only if the system named one.
pub proof fn keystrokes_go_to_a_process(answer: Option<(i32, i32)>, pid: Option<i32>)
    requires
        focused_app_pid.ensures((answer,), pid),
    ensures
        pid matches Some(pid) ==> pid > 0 && answer == Some((0i32, pid)),
        answer matches Some(given) ==> (given.0 == 0 && given.1 > 0 ==> pid == Some(given.1)),
{
}

/// On macOS text is inserted with the pause that is set, cut at a second, and a
/// third of a second or so on the clipboard. Elsewhere it is not inserted.
pub proof fn injectors_of_the_systems(
    platform: Platform,
    paste_delay_ms: u64,
    injector: Injector,
    text: Seq<char>,
    trusted: bool,
    result: Result<PastePlan, MuniError>,
)
    requires
        default_injector.ensures((platform, paste_delay_ms), injector),
        injector.pastes(text, trusted, result),
    ensures
        platform != Platform::MacOs ==> result == Err::<PastePlan, MuniError>(
            MuniError::PlatformUnsupported,
        ) && injector.enters(trusted) == Err::<(), MuniError>(MuniError::PlatformUnsupported),
        platform == Platform::MacOs ==> {
            &&& result is Ok <==> text.len() > 0 && trusted
            &&& injector.enters(trusted) is Ok <==> trusted
            &&& result matches Ok(plan) ==> plan.payload@ == text + seq![' '] && (plan.paste_delay_ms
                == paste_delay_ms || paste_delay_ms > 1_000 && plan.paste_delay_ms == 1_000)
                && plan.paste_delay_ms <= 1_000 && plan.restore_delay_ms == restore_delay(
                350,
                text.len() as int,
            )
        },
{
    if let Ok(plan) = result {
        assert(text.push(' ') =~= text + seq![' ']);
    }
}

} // verus!
