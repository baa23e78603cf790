//! The states of a dictation session and how one starts and ends.

use vstd::prelude::*;

verus! {

/// The gesture that started a session.
#[derive(Debug, Clone, Copy, PartialEq, Eq, Structural)]
pub enum HotkeyMode {
    /// The hotkey is held while the user speaks.
    Ptt,
    /// The hotkey was tapped; the session runs until it is ended.
    ToggleLocked,
}

/// How a session ends.
#[derive(Debug, Clone, Copy, PartialEq, Eq, Structural)]
pub enum ReleaseKind {
    /// The dictation is inserted.
    Commit,
    /// The dictation is inserted and Enter is pressed after it.
    CommitAndSubmit,
    /// The dictation is thrown away.
    Cancel,
}

/// Where a session stands.
#[derive(Debug, Clone, Copy, PartialEq, Eq, Structural)]
pub enum SessionState {
    Idle,
    Listening,
    ListeningLocked,
    Cleaning,
    Recovering,
    Error,
}

/// What the tray icon shows.
#[derive(Debug, Clone, Copy, PartialEq, Eq, Structural)]
pub enum TrayState {
    Idle,
    Listening,
    Cleaning,
    Recovering,
    Error,
}

} // verus!
