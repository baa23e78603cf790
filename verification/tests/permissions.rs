//! What the system allows.

use muni::permissions::{
    input_monitoring_status, is_accessibility_trusted, microphone_status, prompt_accessibility,
    request_input_monitoring, request_microphone, InputMonitoringStatus, MicrophoneStatus,
    SystemSettingsTarget,
};

#[test]
fn target_round_trips_through_wire_format() {
    for (wire, target, link_fragment) in [
        ("microphone", SystemSettingsTarget::Microphone, "Privacy_Microphone"),
        ("accessibility", SystemSettingsTarget::Accessibility, "Privacy_Accessibility"),
        ("input-monitoring", SystemSettingsTarget::InputMonitoring, "Privacy_ListenEvent"),
    ] {
        assert_eq!(SystemSettingsTarget::from_wire(wire), Some(target));
        assert!(target.deep_link().contains(link_fragment));
    }
}

#[test]
fn unknown_target_is_rejected() {
    assert!(SystemSettingsTarget::from_wire("camera").is_none());
    assert!(SystemSettingsTarget::from_wire("").is_none());
}

#[test]
fn input_monitoring_accepts_camel_case_alias() {
    assert_eq!(
        SystemSettingsTarget::from_wire("inputMonitoring"),
        Some(SystemSettingsTarget::InputMonitoring)
    );
}

#[test]
fn the_system_numbers_stand_for_permissions() {
    assert_eq!(microphone_status(Some(0)), MicrophoneStatus::NotDetermined);
    assert_eq!(microphone_status(Some(1)), MicrophoneStatus::Restricted);
    assert_eq!(microphone_status(Some(2)), MicrophoneStatus::Denied);
    assert_eq!(microphone_status(Some(3)), MicrophoneStatus::Authorized);
    assert_eq!(microphone_status(Some(9)), MicrophoneStatus::Denied);
    assert_eq!(microphone_status(None), MicrophoneStatus::Authorized);
    assert_eq!(input_monitoring_status(Some(0)), InputMonitoringStatus::Granted);
    assert_eq!(input_monitoring_status(Some(1)), InputMonitoringStatus::Denied);
    assert_eq!(input_monitoring_status(Some(2)), InputMonitoringStatus::NotDetermined);
    assert_eq!(input_monitoring_status(Some(7)), InputMonitoringStatus::Unknown);
    assert_eq!(request_input_monitoring(None), InputMonitoringStatus::Granted);
}

#[test]
fn an_answer_that_never_came_is_a_refusal() {
    assert!(request_microphone(false, None));
    assert!(!request_microphone(true, None));
    assert!(!request_microphone(true, Some(false)));
    assert!(request_microphone(true, Some(true)));
}

#[test]
fn systems_without_the_permission_grant_it() {
    assert!(is_accessibility_trusted(None));
    assert!(!is_accessibility_trusted(Some(false)));
    assert!(prompt_accessibility(Some(true)));
}
