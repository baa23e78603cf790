//! How long the parts of a press took.
//!
//! A part that did not take place has no time, which is not the same as none.

use vstd::prelude::*;

use crate::text::{decimal, decimal_digits, decimal_round_trip, signed_digits};
use crate::text::{signed_digits_injective, signed_text};

verus! {

/// The times of a press, in milliseconds, as far as they are known.
#[derive(Debug, Clone, PartialEq, Eq)]
pub struct PressTiming {
    /// Where the transcript came from.
    pub route: String,
    /// How long the user spoke.
    pub audio_ms: Option<i64>,
    /// From the release to the transcript.
    pub asr_ms: Option<i64>,
    /// How long the language was waited for.
    pub lid_wait_ms: Option<i64>,
    /// How long the cleanup took.
    pub cleanup_ms: Option<i64>,
    /// From the cleanup to the insertion.
    pub inject_ms: Option<i64>,
    /// From the release to the insertion.
    pub total_ms: Option<i64>,
}

/// The times of a press as they are stored.
#[derive(Debug, Clone, PartialEq, Eq)]
pub struct NewPressTiming {
    /// When it was stored, in seconds since 1970.
    pub created_at: i64,
    /// The stored dictation that it belongs to.
    pub session_id: Option<i64>,
    pub route: String,
    pub audio_ms: Option<i64>,
    pub asr_ms: Option<i64>,
    pub lid_wait_ms: Option<i64>,
    pub cleanup_ms: Option<i64>,
    pub inject_ms: Option<i64>,
    pub total_ms: i64,
}

/// A time as it is logged.
pub open spec fn shown(v: Option<i64>) -> Seq<char> {
    match v {
        Some(n) => signed_digits(n as int),
        None => "-"@,
    }
}

/// A time as it is logged: the number, or `-` if there is none.
pub fn fmt_opt(v: Option<i64>) -> (text: String)
    ensures
        text@ == shown(v),
{
    match v {
        Some(n) => signed_text(n),
        None => "-".to_owned(),
    }
}

/// The log tells any two times apart, and one that was not taken from all that
/// were, zero included.
pub proof fn logged_times_differ(a: Option<i64>, b: Option<i64>)
    ensures
        shown(a) == shown(b) <==> a == b,
{
    reveal_strlit("-");
    assert("-"@ =~= seq!['-']);
    if let Some(n) = a {
        signed_digits_injective(n as int, 0);
    }
    if let Some(n) = b {
        signed_digits_injective(n as int, 0);
    }
    if let (Some(m), Some(n)) = (a, b) {
        signed_digits_injective(m as int, n as int);
    }
}

impl Default for PressTiming {
    /// No times.
    fn default() -> (timing: Self)
        ensures
            timing.route@ == Seq::<char>::empty(),
            timing.audio_ms is None,
            timing.asr_ms is None,
            timing.lid_wait_ms is None,
            timing.cleanup_ms is None,
            timing.inject_ms is None,
            timing.total_ms is None,
    {
        PressTiming {
            route: String::new(),
            audio_ms: None,
            asr_ms: None,
            lid_wait_ms: None,
            cleanup_ms: None,
            inject_ms: None,
            total_ms: None,
        }
    }
}

impl PressTiming {
    /// The times that are known at the release.
    pub fn new(
        route: &str,
        audio_ms: Option<i64>,
        asr_ms: Option<i64>,
        lid_wait_ms: Option<i64>,
    ) -> (timing: Self)
        ensures
            timing.route@ == route@,
            timing.audio_ms == audio_ms,
            timing.asr_ms == asr_ms,
            timing.lid_wait_ms == lid_wait_ms,
            timing.cleanup_ms is None,
            timing.inject_ms is None,
            timing.total_ms is None,
    {
        PressTiming {
            route: route.to_owned(),
            audio_ms,
            asr_ms,
            lid_wait_ms,
            cleanup_ms: None,
            inject_ms: None,
            total_ms: None,
        }
    }

    /// Takes in how long the cleanup took.
    pub fn set_cleanup_ms(&mut self, ms: i64)
        ensures
            *final(self) == (PressTiming { cleanup_ms: Some(ms), ..*old(self) }),
    {
        self.cleanup_ms = Some(ms);
    }

    /// Takes in how long the insertion took.
    pub fn set_inject_ms(&mut self, ms: i64)
        ensures
            *final(self) == (PressTiming { inject_ms: Some(ms), ..*old(self) }),
    {
        self.inject_ms = Some(ms);
    }

    /// Takes in how long it took from the release to the insertion.
    pub fn set_total_ms(&mut self, ms: i64)
        ensures
            *final(self) == (PressTiming { total_ms: Some(ms), ..*old(self) }),
    {
        self.total_ms = Some(ms);
    }

    /// What is logged.
    pub open spec fn line(self) -> Seq<char> {
        "press: route="@ + self.route@ + " total_ms="@ + shown(self.total_ms) + " asr_ms="@ + shown(
            self.asr_ms,
        ) + " lid_wait_ms="@ + shown(self.lid_wait_ms) + " cleanup_ms="@ + shown(self.cleanup_ms)
            + " inject_ms="@ + shown(self.inject_ms) + " audio_ms="@ + shown(self.audio_ms)
    }

    /// What is logged.
    pub fn log_line(&self) -> (text: String)
        ensures
            text@ == self.line(),
    {
        let mut text = String::new();
        text.append("press: route=");
        text.append(self.route.as_str());
        text.append(" total_ms=");
        text.append(fmt_opt(self.total_ms).as_str());
        text.append(" asr_ms=");
        text.append(fmt_opt(self.asr_ms).as_str());
        text.append(" lid_wait_ms=");
        text.append(fmt_opt(self.lid_wait_ms).as_str());
        text.append(" cleanup_ms=");
        text.append(fmt_opt(self.cleanup_ms).as_str());
        text.append(" inject_ms=");
        text.append(fmt_opt(self.inject_ms).as_str());
        text.append(" audio_ms=");
        text.append(fmt_opt(self.audio_ms).as_str());
        proof {
            assert(text@ =~= self.line());
        }
        text
    }

    /// The times as they are stored. A total that was never taken is stored as
    /// zero.
    pub fn into_new_press_timing(self, session_id: Option<i64>, created_at_unix: i64) -> (row:
        NewPressTiming)
        ensures
            row == (NewPressTiming {
                created_at: created_at_unix,
                session_id,
                route: self.route,
                audio_ms: self.audio_ms,
                asr_ms: self.asr_ms,
                lid_wait_ms: self.lid_wait_ms,
                cleanup_ms: self.cleanup_ms,
                inject_ms: self.inject_ms,
                total_ms: match self.total_ms {
                    Some(ms) => ms,
                    None => 0,
                },
            }),
    {
        let total_ms: i64 = match self.total_ms {
            Some(ms) => ms,
            None => 0,
        };
        NewPressTiming {
            created_at: created_at_unix,
            session_id,
            route: self.route,
            audio_ms: self.audio_ms,
            asr_ms: self.asr_ms,
            lid_wait_ms: self.lid_wait_ms,
            cleanup_ms: self.cleanup_ms,
            inject_ms: self.inject_ms,
            total_ms,
        }
    }
}

/// The log names each time.
pub proof fn each_time_is_logged_by_name(timing: PressTiming, text: String)
    requires
        PressTiming::log_line.ensures((&timing,), text),
    ensures
        text@ == "press: route="@ + timing.route@ + (" total_ms="@ + shown(timing.total_ms)) + (
        " asr_ms="@ + shown(timing.asr_ms)) + (" lid_wait_ms="@ + shown(timing.lid_wait_ms)) + (
        " cleanup_ms="@ + shown(timing.cleanup_ms)) + (" inject_ms="@ + shown(timing.inject_ms)) + (
        " audio_ms="@ + shown(timing.audio_ms)),
{
    assert(text@ =~= "press: route="@ + timing.route@ + (" total_ms="@ + shown(timing.total_ms)) + (
    " asr_ms="@ + shown(timing.asr_ms)) + (" lid_wait_ms="@ + shown(timing.lid_wait_ms)) + (
    " cleanup_ms="@ + shown(timing.cleanup_ms)) + (" inject_ms="@ + shown(timing.inject_ms)) + (
    " audio_ms="@ + shown(timing.audio_ms)));
}

/// A time is logged as its number, with a minus sign if it is negative, and one
/// that was not taken as a dash.
pub proof fn times_are_logged_as_numbers(n: i64)
    ensures
        shown(None) == seq!['-'],
        n >= 0 ==> decimal(shown(Some(n))) == Some(n as nat),
        n < 0 ==> shown(Some(n)).len() > 1 && shown(Some(n))[0] == '-' && decimal(
            shown(Some(n)).skip(1),
        ) == Some((-n) as nat),
{
    reveal_strlit("-");
    assert("-"@ =~= seq!['-']);
    if n >= 0 {
        decimal_round_trip(n as nat);
    } else {
        decimal_round_trip((-n) as nat);
        assert(shown(Some(n)).skip(1) =~= decimal_digits((-n) as nat));
        signed_digits_injective(n as int, 0);
    }
}

/// What is stored is what was taken; a total that was never taken is stored as
/// zero.
pub proof fn taken_times_are_stored(
    timing: PressTiming,
    session_id: Option<i64>,
    at: i64,
    row: NewPressTiming,
)
    requires
        PressTiming::into_new_press_timing.ensures((timing, session_id, at), row),
    ensures
        row.created_at == at,
        row.session_id == session_id,
        row.route == timing.route,
        row.audio_ms == timing.audio_ms,
        row.asr_ms == timing.asr_ms,
        row.lid_wait_ms == timing.lid_wait_ms,
        row.cleanup_ms == timing.cleanup_ms,
        row.inject_ms == timing.inject_ms,
        timing.total_ms is Some ==> Some(row.total_ms) == timing.total_ms,
        timing.total_ms is None ==> row.total_ms == 0,
{
}

} // verus!
