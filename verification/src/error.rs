//! The failures that the user is told about.

use vstd::prelude::*;

verus! {

/// A failure of a part of the app.
#[derive(Debug, Clone, PartialEq, Eq)]
pub enum MuniError {
    /// The Input Monitoring permission is missing.
    InputMonitoringDenied,
    /// The keyboard listener could not be installed.
    HotkeyTapInstallFailed,
    /// The Accessibility permission is missing.
    AccessibilityDenied,
    /// There is no dictation to insert.
    NothingToPaste,
    /// The paste could not be typed.
    PasteInjectionFailed,
    /// The platform does not offer this.
    PlatformUnsupported,
    /// The speech sidecar could not be started.
    ParakeetSidecarUnavailable { reason: String },
    /// The speech sidecar did not transcribe.
    ParakeetTranscribeFailed { reason: String },
}

} // verus!
