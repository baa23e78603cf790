//! Starting the app at login.

use vstd::prelude::*;

use crate::settings::{flag_or, read_flag, SettingValue};
use crate::text::{same_text, signed_digits, signed_text, views};

verus! {

/// Whether the app starts at login.
#[derive(Debug, Clone, Copy, PartialEq, Eq, Structural)]
pub enum LaunchItemStatus {
    /// It does.
    Enabled,
    /// It was never registered, or was unregistered.
    NotRegistered,
    /// It is registered, and the user switched it off in the system settings.
    RequiresApproval,
    /// The system does not know it.
    NotFound,
}

impl LaunchItemStatus {
    /// Whether the app starts at login. Switched off by the user, it does not.
    pub fn is_enabled(self) -> (enabled: bool)
        ensures
            enabled == (self == LaunchItemStatus::Enabled),
    {
        match self {
            LaunchItemStatus::Enabled => true,
            _ => false,
        }
    }
}

/// The system's number for a service that starts.
pub const SM_STATUS_ENABLED: isize = 1;

/// The system's number for a service that the user switched off.
pub const SM_STATUS_REQUIRES_APPROVAL: isize = 2;

/// The system's number for a service that it does not know.
pub const SM_STATUS_NOT_FOUND: isize = 3;

/// The system's error for registering what is registered.
pub const SM_ERROR_ALREADY_REGISTERED: isize = 12;

/// The system's error for unregistering what is not registered.
pub const SM_ERROR_JOB_NOT_FOUND: isize = 6;

/// What the system's number stands for. Any that is not known counts as not
/// registered.
pub open spec fn status_of(raw: Option<isize>) -> LaunchItemStatus {
    match raw {
        Some(code) => if code == SM_STATUS_ENABLED {
            LaunchItemStatus::Enabled
        } else if code == SM_STATUS_REQUIRES_APPROVAL {
            LaunchItemStatus::RequiresApproval
        } else if code == SM_STATUS_NOT_FOUND {
            LaunchItemStatus::NotFound
        } else {
            LaunchItemStatus::NotRegistered
        },
        None => LaunchItemStatus::NotRegistered,
    }
}

/// Whether the app starts at login, from the number that the system gives;
/// `None` on a system that has no such service.
pub fn status(raw: Option<isize>) -> (status: LaunchItemStatus)
    ensures
        status == status_of(raw),
{
    match raw {
        Some(code) => if code == SM_STATUS_ENABLED {
            LaunchItemStatus::Enabled
        } else if code == SM_STATUS_REQUIRES_APPROVAL {
            LaunchItemStatus::RequiresApproval
        } else if code == SM_STATUS_NOT_FOUND {
            LaunchItemStatus::NotFound
        } else {
            LaunchItemStatus::NotRegistered
        },
        None => LaunchItemStatus::NotRegistered,
    }
}

/// Whether the app starts at login.
pub fn is_enabled(raw: Option<isize>) -> (enabled: bool)
    ensures
        enabled == (status_of(raw) == LaunchItemStatus::Enabled),
{
    status(raw).is_enabled()
}

/// What the system is asked to do.
#[derive(Debug, Clone, Copy, PartialEq, Eq, Structural)]
pub enum LoginItemCall {
    Register,
    Unregister,
}

/// Why the system did not do it.
#[derive(Debug, Clone, PartialEq, Eq)]
pub struct ServiceError {
    pub code: isize,
    pub description: String,
}

/// What the system must be asked for, if anything: nothing where it is as it
/// should be.
pub open spec fn needed_call(enabled: bool, current: LaunchItemStatus) -> Option<LoginItemCall> {
    if enabled {
        if current == LaunchItemStatus::Enabled {
            None
        } else {
            Some(LoginItemCall::Register)
        }
    } else if current == LaunchItemStatus::NotRegistered || current == LaunchItemStatus::NotFound {
        None
    } else {
        Some(LoginItemCall::Unregister)
    }
}

/// Whether the error only says that it is as it should be.
pub open spec fn harmless(call: LoginItemCall, code: isize) -> bool {
    match call {
        LoginItemCall::Register => code == SM_ERROR_ALREADY_REGISTERED,
        LoginItemCall::Unregister => code == SM_ERROR_JOB_NOT_FOUND,
    }
}

/// What is reported of a call that failed.
pub open spec fn failure_text(call: LoginItemCall, error: ServiceError) -> Seq<char> {
    let name = match call {
        LoginItemCall::Register => "SMAppService register failed (code "@,
        LoginItemCall::Unregister => "SMAppService unregister failed (code "@,
    };
    name + signed_digits(error.code as int) + "): "@ + error.description@
}

/// Whether `result` is what the answer of the system comes to.
pub open spec fn settles(
    call: LoginItemCall,
    answer: Result<(), ServiceError>,
    result: Result<(), String>,
) -> bool {
    match answer {
        Ok(_) => result is Ok,
        Err(error) => if harmless(call, error.code) {
            result is Ok
        } else {
            result matches Err(text) && text@ == failure_text(call, error)
        },
    }
}

/// What the answer of the system comes to.
pub fn settle_call(call: LoginItemCall, answer: Result<(), ServiceError>) -> (result: Result<
    (),
    String,
>)
    ensures
        settles(call, answer, result),
{
    match answer {
        Ok(_) => Ok(()),
        Err(error) => {
            let fine = match call {
                LoginItemCall::Register => error.code == SM_ERROR_ALREADY_REGISTERED,
                LoginItemCall::Unregister => error.code == SM_ERROR_JOB_NOT_FOUND,
            };
            if fine {
                return Ok(());
            }
            let mut text = String::new();
            match call {
                LoginItemCall::Register => text.append("SMAppService register failed (code "),
                LoginItemCall::Unregister => text.append("SMAppService unregister failed (code "),
            }
            text.append(signed_text(error.code as i64).as_str());
            text.append("): ");
            text.append(error.description.as_str());
            proof {
                assert(text@ =~= failure_text(call, error));
            }
            Err(text)
        },
    }
}

/// Makes the app start at login, or not. `call` asks the system, and is used
/// only where something must change; on a system without the service, where
/// `current` is `None`, it never is.
pub fn set_enabled<F: FnOnce(LoginItemCall) -> Result<(), ServiceError>>(
    enabled: bool,
    current: Option<LaunchItemStatus>,
    call: F,
) -> (result: Result<(), String>)
    requires
        current matches Some(current) ==> (needed_call(enabled, current) matches Some(needed)
            ==> call.requires((needed,))),
    ensures
        match current {
            None => result is Ok,
            Some(current) => match needed_call(enabled, current) {
                None => result is Ok,
                Some(needed) => exists|answer: Result<(), ServiceError>| #[trigger]
                    call.ensures((needed,), answer) && settles(needed, answer, result),
            },
        },
{
    let current = match current {
        None => return Ok(()),
        Some(current) => current,
    };
    let needed = if enabled {
        match current {
            LaunchItemStatus::Enabled => return Ok(()),
            _ => LoginItemCall::Register,
        }
    } else {
        match current {
            LaunchItemStatus::NotRegistered | LaunchItemStatus::NotFound => return Ok(()),
            _ => LoginItemCall::Unregister,
        }
    };
    let answer = call(needed);
    settle_call(needed, answer)
}

/// The system is left alone exactly where the app is as it should be: it
/// starts at login, or the system has no record of it.
pub proof fn settled_state_needs_nothing(enabled: bool, current: LaunchItemStatus)
    ensures
        needed_call(enabled, current) is None <==> if enabled {
            current is Enabled
        } else {
            current is NotRegistered || current is NotFound
        },
        needed_call(enabled, current) matches Some(call) ==> (call is Register <==> enabled),
{
}

/// Whether a path leads into the output of a build, where nothing stays in its
/// place: one of its parts is `target`.
pub open spec fn dev_bundle(parts: Seq<Seq<char>>) -> bool {
    parts.contains("target"@)
}

/// Whether a path leads into the output of a build, given its parts.
pub fn is_dev_bundle_path(parts: &Vec<String>) -> (dev: bool)
    ensures
        dev == dev_bundle(views(parts@)),
{
    let mut i: usize = 0;
    while i < parts.len()
        invariant
            0 <= i <= parts@.len(),
            forall|k: int| 0 <= k < i ==> views(parts@)[k] != "target"@,
        decreases parts@.len() - i,
    {
        if same_text(parts[i].as_str(), "target") {
            proof {
                assert(views(parts@)[i as int] == "target"@);
            }
            return true;
        }
        i += 1;
    }
    false
}

/// Whether the running program lies in the output of a build, given the parts
/// of its path. If it is not known where it lies, it does not.
pub fn current_exe_is_dev_bundle(exe: Option<&Vec<String>>) -> (dev: bool)
    ensures
        dev == (exe matches Some(parts) && dev_bundle(views(parts@))),
{
    match exe {
        Some(parts) => is_dev_bundle_path(parts),
        None => false,
    }
}

/// What makes the system agree with the setting.
#[derive(Debug, Clone, Copy, PartialEq, Eq, Structural)]
pub enum Reconcile {
    /// It agrees.
    InSync,
    /// The output of a build is not registered.
    SkippedDevBundle,
    /// It is set.
    SetTo(bool),
}

/// What makes the system agree with the setting. The output of a build is
/// never made to start at login; that it does not can always be set.
pub fn reconcile_launch_at_login(want_enabled: bool, is_enabled: bool, dev_bundle: bool) -> (step:
    Reconcile)
    ensures
        step == if want_enabled == is_enabled {
            Reconcile::InSync
        } else if want_enabled && dev_bundle {
            Reconcile::SkippedDevBundle
        } else {
            Reconcile::SetTo(want_enabled)
        },
{
    if want_enabled == is_enabled {
        return Reconcile::InSync;
    }
    if want_enabled && dev_bundle {
        return Reconcile::SkippedDevBundle;
    }
    Reconcile::SetTo(want_enabled)
}

/// What is to be done about the login item of older versions.
#[derive(Debug, Clone, Copy, PartialEq, Eq, Structural)]
pub struct LegacyMigration {
    /// It is removed.
    pub remove_item: bool,
    /// It is stored that it was seen to.
    pub store_marker: bool,
}

/// What is to be done about the login item of older versions, once: it is there
/// only if the app was set to start at login.
pub fn migrate_legacy_login_item(
    migrated: Option<SettingValue>,
    launch_at_login: bool,
    dev_bundle: bool,
) -> (migration: LegacyMigration)
    ensures
        migration.store_marker == !flag_or(migrated, false),
        migration.remove_item == (!flag_or(migrated, false) && launch_at_login && !dev_bundle),
{
    if read_flag(migrated, false) {
        return LegacyMigration { remove_item: false, store_marker: false };
    }
    LegacyMigration { remove_item: launch_at_login && !dev_bundle, store_marker: true }
}

/// How long removing it is waited for, in milliseconds.
pub const LEGACY_CLEANUP_DEADLINE_MS: u64 = 3_000;

/// How often it is looked at, in milliseconds.
pub const LEGACY_CLEANUP_POLL_MS: u64 = 50;

/// How the program that removes it stands.
#[derive(Debug, Clone, Copy, PartialEq, Eq, Structural)]
pub enum CleanupProcess {
    Exited,
    Running,
    /// That cannot be told.
    Lost,
}

/// What is done about the program that removes it.
#[derive(Debug, Clone, Copy, PartialEq, Eq, Structural)]
pub enum CleanupStep {
    Done,
    Wait,
    Kill,
}

/// What is done about the program that removes it: it is waited for, but not
/// for long.
pub fn run_legacy_cleanup(process: CleanupProcess, elapsed_ms: u64) -> (step: CleanupStep)
    ensures
        step == if process != CleanupProcess::Running {
            CleanupStep::Done
        } else if elapsed_ms >= LEGACY_CLEANUP_DEADLINE_MS {
            CleanupStep::Kill
        } else {
            CleanupStep::Wait
        },
{
    match process {
        CleanupProcess::Exited => CleanupStep::Done,
        CleanupProcess::Lost => CleanupStep::Done,
        CleanupProcess::Running => if elapsed_ms >= LEGACY_CLEANUP_DEADLINE_MS {
            CleanupStep::Kill
        } else {
            CleanupStep::Wait
        },
    }
}

/// The system's numbers: 1 for a login item that starts, 2 for one that the user
/// switched off, 3 for one that the system does not know. Any other stands for
/// one that is not registered.
pub proof fn numbers_of_the_system(raw: Option<isize>)
    ensures
        status_of(raw) == LaunchItemStatus::Enabled <==> raw == Some(1isize),
        status_of(raw) == LaunchItemStatus::RequiresApproval <==> raw == Some(2isize),
        status_of(raw) == LaunchItemStatus::NotFound <==> raw == Some(3isize),
{
}

/// A call to the system comes to nothing bad if the system did it, or says that
/// it is so already. Any other error is reported with its number and its
/// description.
pub proof fn only_real_failures_are_reported(
    call: LoginItemCall,
    answer: Result<(), ServiceError>,
    result: Result<(), String>,
)
    requires
        settles(call, answer, result),
    ensures
        answer is Ok ==> result is Ok,
        answer matches Err(error) ==> {
            let settled = if call == LoginItemCall::Register {
                error.code == 12
            } else {
                error.code == 6
            };
            &&& result is Ok <==> settled
            &&& !settled ==> (result matches Err(text) && text@ == (if call
                == LoginItemCall::Register {
                "SMAppService register failed (code "@
            } else {
                "SMAppService unregister failed (code "@
            }) + signed_digits(error.code as int) + "): "@ + error.description@)
        },
{
}

/// A path leads into the output of a build exactly if one of its parts is
/// `target`.
pub proof fn build_output_lies_in_target(parts: Seq<Seq<char>>)
    ensures
        dev_bundle(parts) <==> exists|i: int|
            0 <= i < parts.len() && #[trigger] parts[i] == seq!['t', 'a', 'r', 'g', 'e', 't'],
{
    reveal_strlit("target");
    assert("target"@ =~= seq!['t', 'a', 'r', 'g', 'e', 't']);
}

/// Reconciling makes the system agree with the setting, except that the output of
/// a build is never made to start at login. Where they agree it does nothing.
pub proof fn reconciling_follows_the_setting(
    want: bool,
    is_enabled: bool,
    dev_bundle: bool,
    step: Reconcile,
)
    requires
        reconcile_launch_at_login.ensures((want, is_enabled, dev_bundle), step),
    ensures
        step == Reconcile::InSync <==> want == is_enabled,
        step == Reconcile::SetTo(true) <==> want && !is_enabled && !dev_bundle,
        step == Reconcile::SetTo(false) <==> !want && is_enabled,
{
}

/// The login item of older versions is seen to once.
pub proof fn migration_happens_once(
    migrated: Option<SettingValue>,
    launch_at_login: bool,
    dev_bundle: bool,
    migration: LegacyMigration,
)
    requires
        migrate_legacy_login_item.ensures((migrated, launch_at_login, dev_bundle), migration),
    ensures
        migration.store_marker <==> migrated != Some(SettingValue::Bool(true)),
        migration.remove_item <==> migration.store_marker && launch_at_login && !dev_bundle,
{
}

/// The program that removes it is waited for while it runs, for up to three
/// seconds, and stopped after that.
pub proof fn cleanup_is_bounded(process: CleanupProcess, elapsed_ms: u64, step: CleanupStep)
    requires
        run_legacy_cleanup.ensures((process, elapsed_ms), step),
    ensures
        step == CleanupStep::Wait <==> process == CleanupProcess::Running && elapsed_ms < 3_000,
        step == CleanupStep::Kill <==> process == CleanupProcess::Running && elapsed_ms >= 3_000,
{
}

} // verus!
