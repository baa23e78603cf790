//! Starting the app at login.

use muni::launch_item::{
    current_exe_is_dev_bundle, is_dev_bundle_path, is_enabled, migrate_legacy_login_item,
    reconcile_launch_at_login, run_legacy_cleanup, set_enabled, status, CleanupProcess,
    CleanupStep, LaunchItemStatus, LoginItemCall, Reconcile, ServiceError,
};
use muni::settings::SettingValue;
use std::path::Path;

fn parts(path: &str) -> Vec<String> {
    Path::new(path)
        .components()
        .map(|part| part.as_os_str().to_string_lossy().into_owned())
        .collect()
}

#[test]
fn is_dev_bundle_path_rejects_target_subtrees() {
    let dev = "/Users/x/code/muni/apps/desktop/src-tauri/target/debug/Muni-dev.app/Contents/MacOS/muni";
    assert!(is_dev_bundle_path(&parts(dev)));

    let release_uninstalled = "/Users/x/code/muni/apps/desktop/src-tauri/target/release/bundle/macos/Muni.app/Contents/MacOS/muni";
    assert!(is_dev_bundle_path(&parts(release_uninstalled)));

    let raw_debug = "/Users/x/code/muni/apps/desktop/src-tauri/target/debug/muni";
    assert!(is_dev_bundle_path(&parts(raw_debug)));
}

#[test]
fn is_dev_bundle_path_accepts_installed_paths() {
    let installed = "/Applications/Muni.app/Contents/MacOS/muni";
    assert!(!is_dev_bundle_path(&parts(installed)));

    let user_apps = "/Users/x/Applications/Muni.app/Contents/MacOS/muni";
    assert!(!is_dev_bundle_path(&parts(user_apps)));

    let lookalike = "/Users/x/targeting/Muni.app/Contents/MacOS/muni";
    assert!(!is_dev_bundle_path(&parts(lookalike)));
}

#[test]
fn an_unknown_program_is_no_build_output() {
    assert!(!current_exe_is_dev_bundle(None));
    assert!(current_exe_is_dev_bundle(Some(&parts("target"))));
}

#[test]
fn the_system_numbers_stand_for_login_items() {
    assert_eq!(status(Some(0)), LaunchItemStatus::NotRegistered);
    assert_eq!(status(Some(1)), LaunchItemStatus::Enabled);
    assert_eq!(status(Some(2)), LaunchItemStatus::RequiresApproval);
    assert_eq!(status(Some(3)), LaunchItemStatus::NotFound);
    assert_eq!(status(Some(-1)), LaunchItemStatus::NotRegistered);
    assert_eq!(status(None), LaunchItemStatus::NotRegistered);
    assert!(is_enabled(Some(1)));
    assert!(!is_enabled(Some(2)));
}

#[test]
fn the_system_is_asked_only_where_something_must_change() {
    let never = |_: LoginItemCall| -> Result<(), ServiceError> { unreachable!() };
    assert!(set_enabled(true, Some(LaunchItemStatus::Enabled), never).is_ok());
    assert!(set_enabled(false, Some(LaunchItemStatus::NotRegistered), never).is_ok());
    assert!(set_enabled(false, Some(LaunchItemStatus::NotFound), never).is_ok());
    assert!(set_enabled(true, None, never).is_ok());
}

fn refused(code: isize) -> Result<(), ServiceError> {
    Err(ServiceError { code, description: "refused".to_string() })
}

#[test]
fn errors_that_say_it_is_done_are_no_errors() {
    let result = set_enabled(true, Some(LaunchItemStatus::NotRegistered), |call| {
        assert_eq!(call, LoginItemCall::Register);
        refused(12)
    });
    assert_eq!(result, Ok(()));
    let result = set_enabled(false, Some(LaunchItemStatus::RequiresApproval), |call| {
        assert_eq!(call, LoginItemCall::Unregister);
        refused(6)
    });
    assert_eq!(result, Ok(()));
    let result = set_enabled(true, Some(LaunchItemStatus::NotRegistered), |_| refused(6));
    assert_eq!(result, Err("SMAppService register failed (code 6): refused".to_string()));
    let result = set_enabled(false, Some(LaunchItemStatus::Enabled), |_| refused(-12));
    assert_eq!(result, Err("SMAppService unregister failed (code -12): refused".to_string()));
    assert_eq!(set_enabled(false, Some(LaunchItemStatus::Enabled), |_| Ok(())), Ok(()));
}

#[test]
fn build_output_is_never_registered() {
    assert_eq!(reconcile_launch_at_login(true, true, false), Reconcile::InSync);
    assert_eq!(reconcile_launch_at_login(true, false, true), Reconcile::SkippedDevBundle);
    assert_eq!(reconcile_launch_at_login(true, false, false), Reconcile::SetTo(true));
    assert_eq!(reconcile_launch_at_login(false, true, true), Reconcile::SetTo(false));
}

#[test]
fn the_older_login_item_is_removed_once() {
    let first = migrate_legacy_login_item(None, true, false);
    assert!(first.remove_item && first.store_marker);
    let later = migrate_legacy_login_item(Some(SettingValue::Bool(true)), true, false);
    assert!(!later.remove_item && !later.store_marker);
    let never = migrate_legacy_login_item(None, false, false);
    assert!(!never.remove_item && never.store_marker);
    let dev = migrate_legacy_login_item(Some(SettingValue::Other), true, true);
    assert!(!dev.remove_item && dev.store_marker);
}

#[test]
fn the_cleanup_is_not_waited_for_long() {
    assert_eq!(run_legacy_cleanup(CleanupProcess::Exited, 5_000), CleanupStep::Done);
    assert_eq!(run_legacy_cleanup(CleanupProcess::Lost, 0), CleanupStep::Done);
    assert_eq!(run_legacy_cleanup(CleanupProcess::Running, 2_999), CleanupStep::Wait);
    assert_eq!(run_legacy_cleanup(CleanupProcess::Running, 3_000), CleanupStep::Kill);
}
