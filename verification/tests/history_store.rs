//! The history of dictations.

use muni::history_store::{
    display_name_for_bundle_id, latest_of, list_sql, prepare_record, purge_older_than, repaste_text,
    retention_pass, run_migrations, unix_seconds_now, DictationRecord, HistoryStoreError,
    Migration, NewDictationRecord, PurgeScope, PurgeStep, CURRENT_SCHEMA_VERSION, LIST_SQL,
    SERVED_BY_GLADIA_PRIMARY,
};

fn record(id: i64, cleaned: &str) -> DictationRecord {
    DictationRecord {
        id,
        created_at: 10,
        raw_text: "raw".to_string(),
        cleaned_text: cleaned.to_string(),
        target_app_bundle_id: None,
        char_count: 3,
        served_by: SERVED_BY_GLADIA_PRIMARY.to_string(),
    }
}

#[test]
fn a_row_counts_characters() {
    let row = prepare_record(
        NewDictationRecord {
            raw_text: "raw".to_string(),
            cleaned_text: "héllo".to_string(),
            target_app_bundle_id: Some("com.example".to_string()),
            served_by: SERVED_BY_GLADIA_PRIMARY.to_string(),
        },
        1_779_192_000,
    );
    assert_eq!(row.char_count, 5);
    assert_eq!(row.created_at, 1_779_192_000);
    assert_eq!(row.target_app_bundle_id, Some("com.example".to_string()));
}

#[test]
fn a_database_is_brought_up_to_date_once() {
    let fresh = run_migrations(0, true);
    assert_eq!(
        fresh,
        Migration { create_tables: true, add_served_by: false, stamp_version: true }
    );
    let first = run_migrations(1, false);
    assert!(first.add_served_by);
    let current = run_migrations(CURRENT_SCHEMA_VERSION, false);
    assert_eq!(
        current,
        Migration { create_tables: false, add_served_by: false, stamp_version: false }
    );
}

#[test]
fn lists_come_newest_first() {
    assert_eq!(list_sql(None), LIST_SQL);
    assert!(list_sql(None).ends_with("ORDER BY created_at DESC, id DESC"));
    assert!(list_sql(Some(5)).ends_with("ORDER BY created_at DESC, id DESC LIMIT ?1"));
}

#[test]
fn the_newest_dictation_is_inserted_again() {
    assert_eq!(latest_of(vec![]), None);
    assert_eq!(latest_of(vec![record(2, "b"), record(1, "a")]), Some(record(2, "b")));
    assert_eq!(repaste_text(Ok(Some(record(2, "b")))), Some("b".to_string()));
    assert_eq!(repaste_text(Ok(None)), None);
    assert_eq!(repaste_text(Err(HistoryStoreError::Query("x".to_string()))), None);
}

#[test]
fn errors_are_told_in_words() {
    assert_eq!(
        HistoryStoreError::Open("locked".to_string()).user_message(),
        "Couldn't open history database: locked"
    );
    assert_eq!(
        HistoryStoreError::Migrate("locked".to_string()).user_message(),
        "Couldn't migrate history database: locked"
    );
    assert_eq!(
        HistoryStoreError::Query("locked".to_string()).user_message(),
        "History query failed: locked"
    );
}

#[test]
fn the_cutoff_is_whole_days_ago() {
    assert_eq!(purge_older_than(1_000_000, 1), PurgeScope::Before(913_600));
    assert_eq!(purge_older_than(1_000_000, 30), PurgeScope::Before(-1_592_000));
    assert_eq!(purge_older_than(0, u32::MAX), PurgeScope::Before(-371_085_174_288_000));
}

#[test]
fn keeping_none_drops_all() {
    assert_eq!(purge_older_than(1_000_000, 0), PurgeScope::Everything);
}

#[test]
fn clocks_before_the_epoch_count_as_zero() {
    assert_eq!(unix_seconds_now(None), 0);
    assert_eq!(unix_seconds_now(Some(17)), 17);
    assert_eq!(unix_seconds_now(Some(u64::MAX)), -1);
}

#[test]
fn each_store_is_purged_with_its_own_number() {
    assert_eq!(
        retention_pass(true, true, 30, 90),
        vec![
            PurgeStep::Dictations { days: 30 },
            PurgeStep::ApiCalls { days: 90 },
            PurgeStep::PressTimings { days: 90 },
        ]
    );
    assert_eq!(retention_pass(true, false, 30, 90), vec![PurgeStep::Dictations { days: 30 }]);
    assert!(retention_pass(false, false, 30, 90).is_empty());
}

#[test]
fn apps_are_named_without_their_ending() {
    let name = |last: &str| display_name_for_bundle_id("com.example", Some(last.to_string()));
    assert_eq!(name("Notes.app"), Some("Notes".to_string()));
    assert_eq!(name("Notes"), Some("Notes".to_string()));
    assert_eq!(name(".app"), None);
    assert_eq!(display_name_for_bundle_id("", Some("Notes.app".to_string())), None);
    assert_eq!(display_name_for_bundle_id("com.example", None), None);
}
