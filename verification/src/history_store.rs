//! The history of dictations: what is stored of one, what is asked of the
//! database, and how an older database is brought up to date.

use vstd::prelude::*;

use crate::hotkey_binding::option_view;
use crate::text::{trim_suffix, without_suffix};

verus! {

/// Name of the database file.
pub const HISTORY_FILENAME: &'static str = "history.sqlite3";

/// The version of the tables.
pub const CURRENT_SCHEMA_VERSION: i32 = 2;

/// The transcript came from Gladia, or the row is older than the tags.
pub const SERVED_BY_GLADIA_PRIMARY: &'static str = "gladia-primary";

/// The transcript came from Groq Whisper.
pub const SERVED_BY_WHISPER_FALLBACK: &'static str = "whisper-fallback";

/// The transcript came from the local sidecar.
pub const SERVED_BY_PARAKEET_LOCAL: &'static str = "parakeet-local";

/// The transcript is what Deepgram had sent before it failed.
pub const SERVED_BY_DEEPGRAM_PARTIAL: &'static str = "deepgram-partial";

/// The transcript came from Gladia after another service had failed.
pub const SERVED_BY_GLADIA_RESCUE: &'static str = "gladia-rescue";

/// The length of a day, in seconds.
pub const SECONDS_PER_DAY: i64 = 86_400;

/// A stored dictation.
#[derive(Debug, Clone, PartialEq, Eq)]
pub struct DictationRecord {
    pub id: i64,
    /// When it was stored, in seconds since 1970.
    pub created_at: i64,
    pub raw_text: String,
    pub cleaned_text: String,
    /// The app that it was dictated into, where that is known.
    pub target_app_bundle_id: Option<String>,
    /// The number of characters of the cleaned text.
    pub char_count: i64,
    /// Where the transcript came from.
    pub served_by: String,
}

/// A dictation to be stored.
#[derive(Debug, Clone, PartialEq, Eq)]
pub struct NewDictationRecord {
    pub raw_text: String,
    pub cleaned_text: String,
    pub target_app_bundle_id: Option<String>,
    pub served_by: String,
}

/// What goes into the row of a dictation; the database gives it its id.
#[derive(Debug, Clone, PartialEq, Eq)]
pub struct PreparedRecord {
    pub created_at: i64,
    pub raw_text: String,
    pub cleaned_text: String,
    pub target_app_bundle_id: Option<String>,
    pub char_count: i64,
    pub served_by: String,
}

/// What a cast of `n` to a signed number of 64 bits gives.
pub open spec fn wrapped(n: int) -> int {
    if n <= i64::MAX {
        n
    } else {
        n - 0x1_0000_0000_0000_0000
    }
}

fn cast_signed(n: u64) -> (signed: i64)
    ensures
        signed == wrapped(n as int),
{
    let signed: i64 = #[verifier::truncate] (n as i64);
    assert(n <= 0x7fff_ffff_ffff_ffff ==> n as i64 == n) by (bit_vector);
    assert(n > 0x7fff_ffff_ffff_ffff ==> n as i64 == n - 0x1_0000_0000_0000_0000) by (bit_vector);
    signed
}

/// The row of a dictation that is stored at `now`.
pub fn prepare_record(record: NewDictationRecord, now: i64) -> (row: PreparedRecord)
    ensures
        row.created_at == now,
        row.raw_text == record.raw_text,
        row.cleaned_text == record.cleaned_text,
        row.target_app_bundle_id == record.target_app_bundle_id,
        row.char_count == wrapped(record.cleaned_text@.len() as int),
        row.served_by == record.served_by,
{
    let count: usize = record.cleaned_text.as_str().unicode_len();
    PreparedRecord {
        created_at: now,
        raw_text: record.raw_text,
        cleaned_text: record.cleaned_text,
        target_app_bundle_id: record.target_app_bundle_id,
        char_count: cast_signed(count as u64),
        served_by: record.served_by,
    }
}

/// Why the history is not available.
#[derive(Debug, Clone, PartialEq, Eq)]
pub enum HistoryStoreError {
    /// The database could not be opened.
    Open(String),
    /// The database could not be brought up to date.
    Migrate(String),
    /// The database did not answer.
    Query(String),
}

impl HistoryStoreError {
    /// What the user is told.
    pub open spec fn message(self) -> Seq<char> {
        match self {
            HistoryStoreError::Open(reason) => "Couldn't open history database: "@ + reason@,
            HistoryStoreError::Migrate(reason) => "Couldn't migrate history database: "@ + reason@,
            HistoryStoreError::Query(reason) => "History query failed: "@ + reason@,
        }
    }

    /// What the user is told.
    pub fn user_message(&self) -> (text: String)
        ensures
            text@ == self.message(),
    {
        let mut text = String::new();
        match self {
            HistoryStoreError::Open(reason) => {
                text.append("Couldn't open history database: ");
                text.append(reason.as_str());
            },
            HistoryStoreError::Migrate(reason) => {
                text.append("Couldn't migrate history database: ");
                text.append(reason.as_str());
            },
            HistoryStoreError::Query(reason) => {
                text.append("History query failed: ");
                text.append(reason.as_str());
            },
        }
        proof {
            assert(text@ =~= self.message());
        }
        text
    }
}

/// What bringing a database up to date takes.
#[derive(Debug, Clone, Copy, PartialEq, Eq, Structural)]
pub struct Migration {
    /// The tables are created, where they are missing.
    pub create_tables: bool,
    /// The column for where a transcript came from is added.
    pub add_served_by: bool,
    /// The version is written.
    pub stamp_version: bool,
}

/// What bringing a database up to date takes, given the version that it has and
/// whether, with its tables created, it has the column for where a transcript
/// came from. A database that is up to date is left alone.
pub fn run_migrations(current: i32, has_served_by: bool) -> (migration: Migration)
    ensures
        migration.create_tables == (current < CURRENT_SCHEMA_VERSION),
        migration.add_served_by == (current < CURRENT_SCHEMA_VERSION && current < 2
            && !has_served_by),
        migration.stamp_version == (current < CURRENT_SCHEMA_VERSION),
{
    if current >= CURRENT_SCHEMA_VERSION {
        return Migration { create_tables: false, add_served_by: false, stamp_version: false };
    }
    Migration {
        create_tables: true,
        add_served_by: current < 2 && !has_served_by,
        stamp_version: true,
    }
}

/// The query for all dictations, the newest first.
pub const LIST_SQL: &'static str =
    "SELECT id, created_at, raw_text, cleaned_text, target_app_bundle_id, char_count, served_by FROM dictation_records ORDER BY created_at DESC, id DESC";

/// What ends the query where only some are asked for.
pub const LIMIT_SQL: &'static str = " LIMIT ?1";

/// The query for the dictations, the newest first; with a limit, the query
/// takes it as its parameter.
pub fn list_sql(limit: Option<i64>) -> (sql: String)
    ensures
        sql@ == if limit is Some {
            LIST_SQL@ + LIMIT_SQL@
        } else {
            LIST_SQL@
        },
{
    let mut sql = LIST_SQL.to_owned();
    if limit.is_some() {
        sql.append(LIMIT_SQL);
    }
    sql
}

/// The newest dictation of a list that was asked for with a limit of one.
pub fn latest_of(records: Vec<DictationRecord>) -> (latest: Option<DictationRecord>)
    ensures
        latest == if records@.len() > 0 {
            Some(records@[0])
        } else {
            None
        },
{
    let mut records = records;
    if records.len() > 0 {
        Some(records.remove(0))
    } else {
        None
    }
}

/// What is inserted again: the cleaned text of the newest dictation, if there
/// is one and it could be read.
pub fn repaste_text(latest: Result<Option<DictationRecord>, HistoryStoreError>) -> (text: Option<
    String,
>)
    ensures
        text == match latest {
            Ok(Some(record)) => Some(record.cleaned_text),
            _ => None,
        },
{
    match latest {
        Ok(Some(record)) => Some(record.cleaned_text),
        _ => None,
    }
}

/// The seconds since 1970, of a clock that tells how long 1970 is ago; zero for
/// one that stands before.
pub fn unix_seconds_now(since_epoch_s: Option<u64>) -> (now: i64)
    ensures
        now == match since_epoch_s {
            Some(s) => wrapped(s as int),
            None => 0,
        },
{
    match since_epoch_s {
        Some(s) => cast_signed(s),
        None => 0,
    }
}

/// Which dictations are dropped.
#[derive(Debug, Clone, Copy, PartialEq, Eq, Structural)]
pub enum PurgeScope {
    /// All of them.
    Everything,
    /// Those that were stored before this time.
    Before(i64),
}

impl PurgeScope {
    /// Whether a dictation that was stored at `created_at` is dropped.
    pub open spec fn drops(self, created_at: int) -> bool {
        match self {
            PurgeScope::Everything => true,
            PurgeScope::Before(cutoff) => created_at < cutoff,
        }
    }
}

/// Which dictations are dropped at `now`, if they are kept for `days`. Kept for
/// none, all are dropped.
pub open spec fn purged(now: int, days: nat) -> PurgeScope {
    if days == 0 {
        PurgeScope::Everything
    } else {
        PurgeScope::Before((now - days * SECONDS_PER_DAY) as i64)
    }
}

/// Which dictations are dropped at `now`, if they are kept for `days`.
pub fn purge_older_than(now: i64, days: u32) -> (scope: PurgeScope)
    requires
        now - days * SECONDS_PER_DAY >= i64::MIN,
    ensures
        scope == purged(now as int, days as nat),
{
    if days == 0 {
        return PurgeScope::Everything;
    }
    let kept: i64 = days as i64 * SECONDS_PER_DAY;
    PurgeScope::Before(now - kept)
}

/// A dictation is dropped if and only if it is older than it is kept for, or
/// none is kept.
pub proof fn purge_drops_what_is_older(now: i64, days: u32, created_at: i64)
    requires
        now - days * SECONDS_PER_DAY >= i64::MIN,
    ensures
        purged(now as int, days as nat).drops(created_at as int) <==> days == 0 || now - created_at
            > days * SECONDS_PER_DAY,
{
}

/// Keeping dictations longer never drops more of them.
pub proof fn longer_retention_drops_less(now: i64, days: u32, more: u32, created_at: i64)
    requires
        now - more * SECONDS_PER_DAY >= i64::MIN,
        days <= more,
        purged(now as int, more as nat).drops(created_at as int),
    ensures
        purged(now as int, days as nat).drops(created_at as int),
{
}

/// How often what is too old is dropped, in seconds.
pub const RETENTION_PURGE_INTERVAL_S: u64 = 21_600;

/// What is dropped, if it is older than so many days.
#[derive(Debug, Clone, Copy, PartialEq, Eq, Structural)]
pub enum PurgeStep {
    Dictations { days: u32 },
    ApiCalls { days: u32 },
    PressTimings { days: u32 },
}

/// What is dropped each time: dictations as the user set it, the calls and the
/// times of presses as the app does. Where a store did not open, its part is
/// left out.
pub fn retention_pass(
    history_open: bool,
    usage_open: bool,
    retention_days: u32,
    api_calls_days: u32,
) -> (steps: Vec<PurgeStep>)
    ensures
        steps@ == (if history_open {
            seq![PurgeStep::Dictations { days: retention_days }]
        } else {
            Seq::empty()
        }) + (if usage_open {
            seq![
                PurgeStep::ApiCalls { days: api_calls_days },
                PurgeStep::PressTimings { days: api_calls_days },
            ]
        } else {
            Seq::empty()
        }),
{
    let mut steps: Vec<PurgeStep> = Vec::new();
    if history_open {
        steps.push(PurgeStep::Dictations { days: retention_days });
    }
    if usage_open {
        steps.push(PurgeStep::ApiCalls { days: api_calls_days });
        steps.push(PurgeStep::PressTimings { days: api_calls_days });
    }
    steps
}

/// The name of an app, from the last part of where it lies. An unnamed app has
/// none.
pub fn display_name_for_bundle_id(bundle_id: &str, last_component: Option<String>) -> (name: Option<
    String,
>)
    ensures
        option_view(name) == match last_component {
            Some(last) => if bundle_id@.len() == 0 || without_suffix(last@, ".app"@).len() == 0 {
                None
            } else {
                Some(without_suffix(last@, ".app"@))
            },
            None => None,
        },
{
    if bundle_id.is_empty() {
        return None;
    }
    match last_component {
        Some(last) => {
            let name = trim_suffix(last.as_str(), ".app");
            if name.as_str().is_empty() {
                None
            } else {
                Some(name)
            }
        },
        None => None,
    }
}

/// A cast keeps the number up to a multiple of two to the 64, and gives one that
/// fits.
pub proof fn casts_wrap(n: u64)
    ensures
        i64::MIN <= wrapped(n as int) <= i64::MAX,
        (n - wrapped(n as int)) % 0x1_0000_0000_0000_0000 == 0,
        n <= i64::MAX ==> wrapped(n as int) == n,
{
}

/// A dictation is stored as it was given, with the number of characters of its
/// cleaned text.
pub proof fn records_are_stored_as_given(
    record: NewDictationRecord,
    now: i64,
    row: PreparedRecord,
)
    requires
        prepare_record.ensures((record, now), row),
    ensures
        row.created_at == now,
        row.raw_text == record.raw_text,
        row.cleaned_text == record.cleaned_text,
        row.target_app_bundle_id == record.target_app_bundle_id,
        row.served_by == record.served_by,
        record.cleaned_text@.len() <= i64::MAX ==> row.char_count == record.cleaned_text@.len(),
{
}

/// What is inserted again is the cleaned text of the first of the listed
/// dictations, which is the newest.
pub proof fn the_newest_is_inserted_again(
    records: Vec<DictationRecord>,
    latest: Option<DictationRecord>,
    text: Option<String>,
)
    requires
        latest_of.ensures((records,), latest),
        repaste_text.ensures((Ok(latest),), text),
    ensures
        text is Some <==> records@.len() > 0,
        text matches Some(text) ==> text == records@[0].cleaned_text,
{
}

/// Bringing a database up to date is done once: with the version written, nothing
/// is left to do. The column is added only where it is missing.
pub proof fn migrations_settle(
    current: i32,
    has_served_by: bool,
    migration: Migration,
    next: Migration,
)
    requires
        run_migrations.ensures((current, has_served_by), migration),
        run_migrations.ensures((CURRENT_SCHEMA_VERSION, true), next),
    ensures
        !next.create_tables && !next.add_served_by && !next.stamp_version,
        migration.stamp_version <==> current < CURRENT_SCHEMA_VERSION,
        migration.create_tables <==> current < CURRENT_SCHEMA_VERSION,
        migration.add_served_by ==> migration.stamp_version && !has_served_by,
        current < 2 && !has_served_by && migration.stamp_version ==> migration.add_served_by,
{
}

/// Dictations are dropped as the user set it, the rest as the app does, each
/// where its store is open.
pub proof fn each_store_is_purged(
    history_open: bool,
    usage_open: bool,
    days: u32,
    api_days: u32,
    steps: Vec<PurgeStep>,
)
    requires
        retention_pass.ensures((history_open, usage_open, days, api_days), steps),
    ensures
        steps@.contains(PurgeStep::Dictations { days }) <==> history_open,
        usage_open ==> steps@.contains(PurgeStep::ApiCalls { days: api_days }) && steps@.contains(
            PurgeStep::PressTimings { days: api_days },
        ),
        steps@.len() == (if history_open {
            1int
        } else {
            0
        }) + (if usage_open {
            2int
        } else {
            0
        }),
{
    if history_open {
        assert(steps@[0] == PurgeStep::Dictations { days });
    }
    if usage_open {
        let from = if history_open {
            1int
        } else {
            0
        };
        assert(steps@[from] == PurgeStep::ApiCalls { days: api_days });
        assert(steps@[from + 1] == PurgeStep::PressTimings { days: api_days });
    }
}

/// The name of an app is the last part of where it lies, without `.app`.
pub proof fn apps_are_named_without_suffix(name: Seq<char>)
    ensures
        without_suffix(name + seq!['.', 'a', 'p', 'p'], ".app"@) == name,
        name.len() < 4 || name.skip(name.len() - 4) != seq!['.', 'a', 'p', 'p'] ==> without_suffix(
            name,
            ".app"@,
        ) == name,
{
    reveal_strlit(".app");
    let suffix = seq!['.', 'a', 'p', 'p'];
    assert(".app"@ =~= suffix);
    let whole = name + suffix;
    assert(whole.skip(whole.len() - 4) =~= suffix);
    assert(suffix =~= whole.subrange(whole.len() - 4, whole.len() as int));
    assert(suffix.is_suffix_of(whole));
    assert(whole.take(whole.len() - 4) =~= name);
    if suffix.is_suffix_of(name) {
        assert(name.skip(name.len() - 4) =~= suffix);
    }
}

/// Dictations are kept for so many days of 86400 seconds.
pub proof fn days_are_whole_days(now: i64, days: u32, created_at: i64)
    requires
        now - days * 86_400 >= i64::MIN,
    ensures
        days > 0 ==> (purged(now as int, days as nat).drops(created_at as int) <==> created_at + days
            * 86_400 < now),
        days == 0 ==> purged(now as int, days as nat).drops(created_at as int),
{
}

/// What the user is told ends with the reason.
pub proof fn history_errors_give_the_reason(reason: String)
    ensures
        HistoryStoreError::Open(reason).message() == "Couldn't open history database: "@ + reason@,
        HistoryStoreError::Migrate(reason).message() == "Couldn't migrate history database: "@
            + reason@,
        HistoryStoreError::Query(reason).message() == "History query failed: "@ + reason@,
{
}

} // verus!
