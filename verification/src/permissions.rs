//! The permissions that the system gives, and where they are granted.
//!
//! Each function takes what the system answers, or `None` on a system that
//! does not ask for the permission.

use vstd::prelude::*;

use crate::text::same_text;

verus! {

/// Whether the app may use the microphone.
#[derive(Debug, Clone, Copy, PartialEq, Eq, Structural)]
pub enum MicrophoneStatus {
    NotDetermined,
    Restricted,
    Denied,
    Authorized,
}

/// Whether the app may watch the keyboard.
#[derive(Debug, Clone, Copy, PartialEq, Eq, Structural)]
pub enum InputMonitoringStatus {
    NotDetermined,
    Denied,
    Granted,
    Unknown,
}

/// Whether the app may use the microphone. An answer that is not known counts
/// as a refusal.
pub fn microphone_status(raw: Option<isize>) -> (status: MicrophoneStatus)
    ensures
        status == match raw {
            None => MicrophoneStatus::Authorized,
            Some(code) => if code == 0 {
                MicrophoneStatus::NotDetermined
            } else if code == 1 {
                MicrophoneStatus::Restricted
            } else if code == 3 {
                MicrophoneStatus::Authorized
            } else {
                MicrophoneStatus::Denied
            },
        },
{
    match raw {
        None => MicrophoneStatus::Authorized,
        Some(0) => MicrophoneStatus::NotDetermined,
        Some(1) => MicrophoneStatus::Restricted,
        Some(2) => MicrophoneStatus::Denied,
        Some(3) => MicrophoneStatus::Authorized,
        Some(_) => MicrophoneStatus::Denied,
    }
}

/// Whether the user allowed the microphone when asked. `None` stands for an
/// answer that never came.
pub fn request_microphone(asks: bool, answer: Option<bool>) -> (granted: bool)
    ensures
        granted == (!asks || answer == Some(true)),
{
    if !asks {
        return true;
    }
    match answer {
        Some(granted) => granted,
        None => false,
    }
}

/// Whether the app may type into others.
pub fn is_accessibility_trusted(raw: Option<bool>) -> (trusted: bool)
    ensures
        trusted == match raw {
            Some(trusted) => trusted,
            None => true,
        },
{
    match raw {
        Some(trusted) => trusted,
        None => true,
    }
}

/// Whether the app may type into others, when the user was just asked.
pub fn prompt_accessibility(raw: Option<bool>) -> (trusted: bool)
    ensures
        trusted == match raw {
            Some(trusted) => trusted,
            None => true,
        },
{
    is_accessibility_trusted(raw)
}

/// Whether the app may watch the keyboard.
pub open spec fn monitoring(raw: Option<u32>) -> InputMonitoringStatus {
    match raw {
        None => InputMonitoringStatus::Granted,
        Some(code) => if code == 0 {
            InputMonitoringStatus::Granted
        } else if code == 1 {
            InputMonitoringStatus::Denied
        } else if code == 2 {
            InputMonitoringStatus::NotDetermined
        } else {
            InputMonitoringStatus::Unknown
        },
    }
}

/// Whether the app may watch the keyboard.
pub fn input_monitoring_status(raw: Option<u32>) -> (status: InputMonitoringStatus)
    ensures
        status == monitoring(raw),
{
    match raw {
        None => InputMonitoringStatus::Granted,
        Some(0) => InputMonitoringStatus::Granted,
        Some(1) => InputMonitoringStatus::Denied,
        Some(2) => InputMonitoringStatus::NotDetermined,
        Some(_) => InputMonitoringStatus::Unknown,
    }
}

/// Whether the app may watch the keyboard, from what the system answers once
/// the user was asked.
pub fn request_input_monitoring(raw_after: Option<u32>) -> (status: InputMonitoringStatus)
    ensures
        status == monitoring(raw_after),
{
    input_monitoring_status(raw_after)
}

/// A page of the system settings.
#[derive(Debug, Clone, Copy, PartialEq, Eq, Structural)]
pub enum SystemSettingsTarget {
    Microphone,
    Accessibility,
    InputMonitoring,
}

impl SystemSettingsTarget {
    /// The page that a name stands for. No other page can be asked for.
    pub fn from_wire(value: &str) -> (target: Option<Self>)
        ensures
            match target {
                Some(SystemSettingsTarget::Microphone) => value@ == "microphone"@,
                Some(SystemSettingsTarget::Accessibility) => value@ == "accessibility"@,
                Some(SystemSettingsTarget::InputMonitoring) => value@ == "input-monitoring"@
                    || value@ == "inputMonitoring"@,
                None => value@ != "microphone"@ && value@ != "accessibility"@ && value@
                    != "input-monitoring"@ && value@ != "inputMonitoring"@,
            },
    {
        if same_text(value, "microphone") {
            Some(SystemSettingsTarget::Microphone)
        } else if same_text(value, "accessibility") {
            Some(SystemSettingsTarget::Accessibility)
        } else if same_text(value, "input-monitoring") || same_text(value, "inputMonitoring") {
            Some(SystemSettingsTarget::InputMonitoring)
        } else {
            None
        }
    }

    /// The address of the page.
    pub fn deep_link(self) -> (link: &'static str)
        ensures
            link@ == match self {
                SystemSettingsTarget::Microphone =>
                    "x-apple.systempreferences:com.apple.preference.security?Privacy_Microphone"@,
                SystemSettingsTarget::Accessibility =>
                    "x-apple.systempreferences:com.apple.preference.security?Privacy_Accessibility"@,
                SystemSettingsTarget::InputMonitoring =>
                    "x-apple.systempreferences:com.apple.preference.security?Privacy_ListenEvent"@,
            },
    {
        match self {
            SystemSettingsTarget::Microphone =>
                "x-apple.systempreferences:com.apple.preference.security?Privacy_Microphone",
            SystemSettingsTarget::Accessibility =>
                "x-apple.systempreferences:com.apple.preference.security?Privacy_Accessibility",
            SystemSettingsTarget::InputMonitoring =>
                "x-apple.systempreferences:com.apple.preference.security?Privacy_ListenEvent",
        }
    }
}

/// A system that does not ask for the permission grants it. Of one that does, 0
/// grants it, 1 refuses it, 2 leaves it open, and nothing else is known.
pub proof fn answers_about_the_keyboard(raw: Option<u32>)
    ensures
        monitoring(raw) == InputMonitoringStatus::Granted <==> raw is None || raw == Some(0u32),
        monitoring(raw) == InputMonitoringStatus::Denied <==> raw == Some(1u32),
        monitoring(raw) == InputMonitoringStatus::NotDetermined <==> raw == Some(2u32),
{
}

/// The microphone may be used where the system does not ask, or answers 3. An
/// answer that is not known counts as a refusal.
pub proof fn answers_about_the_microphone(raw: Option<isize>, status: MicrophoneStatus)
    requires
        microphone_status.ensures((raw,), status),
    ensures
        status == MicrophoneStatus::Authorized <==> raw is None || raw == Some(3isize),
        status == MicrophoneStatus::NotDetermined <==> raw == Some(0isize),
        status == MicrophoneStatus::Restricted <==> raw == Some(1isize),
{
}

/// A request is granted only by an answer that says so, where the system asks.
pub proof fn silence_grants_nothing(asks: bool, answer: Option<bool>, granted: bool)
    requires
        request_microphone.ensures((asks, answer), granted),
    ensures
        granted <==> !asks || answer == Some(true),
{
}

} // verus!
