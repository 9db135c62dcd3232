use glide::platform::permissions::{open_accessibility_settings, open_microphone_settings};
use glide::permissions::{
    check_all, macos_permission_hint, microphone_access_error, AccessibilityPromptOnce,
    MicrophoneAuthorizationStatus,
};
use glide::platform::permissions::{
    has_microphone_access, microphone_authorization_status, microphone_request_answer,
    request_accessibility_access_or_open_settings, request_microphone_access,
    status_from_input_device, AccessibilityStep, MicrophoneRequest, ACCESSIBILITY_SETTINGS_URL,
    INPUT_MONITORING_SETTINGS_URL, MICROPHONE_SETTINGS_URL,
};

#[test]
fn test_hint_mentions_required_permissions() {
    let hint = macos_permission_hint();
    assert!(hint.contains("Microphone"));
    assert!(hint.contains("Accessibility"));
    assert!(hint.contains("Input Monitoring"));
}

#[test]
fn test_check_all_returns_three_permissions() {
    let statuses = check_all(false, true, false);
    assert_eq!(statuses.len(), 3);
    assert_eq!(statuses[0].name, "Microphone");
    assert_eq!(statuses[1].name, "Accessibility");
    assert_eq!(statuses[2].name, "Input Monitoring");
}

#[test]
fn test_microphone_authorization_status_mapping() {
    assert_eq!(
        MicrophoneAuthorizationStatus::from_raw(0),
        MicrophoneAuthorizationStatus::NotDetermined
    );
    assert_eq!(
        MicrophoneAuthorizationStatus::from_raw(1),
        MicrophoneAuthorizationStatus::Restricted
    );
    assert_eq!(
        MicrophoneAuthorizationStatus::from_raw(2),
        MicrophoneAuthorizationStatus::Denied
    );
    assert_eq!(
        MicrophoneAuthorizationStatus::from_raw(3),
        MicrophoneAuthorizationStatus::Authorized
    );
    assert_eq!(
        MicrophoneAuthorizationStatus::from_raw(99),
        MicrophoneAuthorizationStatus::Unknown(99)
    );
}

#[test]
fn permissions_test_microphone_authorization_status_mapping() {
    let cases = [
        (0, MicrophoneAuthorizationStatus::NotDetermined),
        (1, MicrophoneAuthorizationStatus::Restricted),
        (2, MicrophoneAuthorizationStatus::Denied),
        (3, MicrophoneAuthorizationStatus::Authorized),
        (99, MicrophoneAuthorizationStatus::Unknown(99)),
    ];
    for (raw, status) in cases {
        assert_eq!(MicrophoneAuthorizationStatus::from_raw(raw), status);
    }
}

#[test]
fn test_microphone_denied_status_has_actionable_error() {
    let message = microphone_access_error(MicrophoneAuthorizationStatus::Denied)
        .expect("denied status should produce a message");
    assert!(message.contains("Microphone access is denied"));
    assert!(message.contains("System Settings"));
}

#[test]
fn test_microphone_not_determined_has_prompt_error() {
    let message = microphone_access_error(MicrophoneAuthorizationStatus::NotDetermined)
        .expect("not determined status should produce a message");
    assert!(message.contains("Choose Allow"));
}

#[test]
fn test_check_all_returns_expected_permissions() {
    let statuses = check_all(true, true, true);
    let names = statuses
        .iter()
        .map(|status| status.name)
        .collect::<Vec<_>>();
    assert_eq!(names, ["Microphone", "Accessibility", "Input Monitoring"]);
}

#[test]
fn test_microphone_access_errors_are_actionable() {
    let cases = [
        (
            MicrophoneAuthorizationStatus::Denied,
            ["Microphone access is denied", "System Settings"],
        ),
        (
            MicrophoneAuthorizationStatus::NotDetermined,
            ["Microphone access has not been granted", "Choose Allow"],
        ),
    ];

    for (status, snippets) in cases {
        let message = microphone_access_error(status).expect("status should produce a message");
        for snippet in snippets {
            assert!(message.contains(snippet), "{message}");
        }
    }
}

#[test]
fn authorized_microphone_has_no_error_and_others_do() {
    assert_eq!(microphone_access_error(MicrophoneAuthorizationStatus::Authorized), None);
    assert!(microphone_access_error(MicrophoneAuthorizationStatus::Restricted)
        .unwrap()
        .contains("restricted by macOS policy"));
    assert!(microphone_access_error(MicrophoneAuthorizationStatus::Unknown(-1))
        .unwrap()
        .contains("could not determine"));
}

#[test]
fn status_predicates_agree() {
    let all = [
        MicrophoneAuthorizationStatus::NotDetermined,
        MicrophoneAuthorizationStatus::Restricted,
        MicrophoneAuthorizationStatus::Denied,
        MicrophoneAuthorizationStatus::Authorized,
        MicrophoneAuthorizationStatus::Unknown(7),
    ];
    for s in all {
        assert_eq!(s.is_authorized(), s.can_capture());
        assert!(!(s.is_authorized() && s.is_denied_or_restricted()));
        assert_eq!(has_microphone_access(s), s == MicrophoneAuthorizationStatus::Authorized);
    }
    assert!(MicrophoneAuthorizationStatus::Denied.is_denied_or_restricted());
    assert!(MicrophoneAuthorizationStatus::Restricted.is_denied_or_restricted());
}

#[test]
fn status_query_and_device_probe() {
    assert_eq!(microphone_authorization_status(None), MicrophoneAuthorizationStatus::Unknown(-1));
    assert_eq!(
        microphone_authorization_status(Some(2)),
        MicrophoneAuthorizationStatus::Denied
    );
    assert_eq!(status_from_input_device(true), MicrophoneAuthorizationStatus::Authorized);
    assert_eq!(status_from_input_device(false), MicrophoneAuthorizationStatus::Unknown(-1));
}

#[test]
fn microphone_request_asks_only_when_undecided() {
    assert_eq!(
        request_microphone_access(MicrophoneAuthorizationStatus::NotDetermined),
        MicrophoneRequest::AskUser
    );
    assert_eq!(
        request_microphone_access(MicrophoneAuthorizationStatus::Denied),
        MicrophoneRequest::Settled(MicrophoneAuthorizationStatus::Denied)
    );
    assert_eq!(
        microphone_request_answer(Some(true)),
        Some(MicrophoneAuthorizationStatus::Authorized)
    );
    assert_eq!(microphone_request_answer(Some(false)), None);
    assert_eq!(microphone_request_answer(None), None);
}

#[test]
fn accessibility_request_flow() {
    assert_eq!(
        request_accessibility_access_or_open_settings(true, None),
        AccessibilityStep::Granted
    );
    assert_eq!(
        request_accessibility_access_or_open_settings(false, None),
        AccessibilityStep::Prompt
    );
    assert_eq!(
        request_accessibility_access_or_open_settings(false, Some(true)),
        AccessibilityStep::Granted
    );
    assert_eq!(
        request_accessibility_access_or_open_settings(false, Some(false)),
        AccessibilityStep::OpenSettings
    );
}

#[test]
fn accessibility_prompt_is_shown_once() {
    let mut once = AccessibilityPromptOnce::new();
    assert!(once.request_accessibility_access_once());
    assert!(!once.request_accessibility_access_once());
    assert!(!once.request_accessibility_access_once());
}

#[test]
fn check_all_reports_granted_flags_and_panes() {
    let statuses = check_all(true, false, true);
    assert!(statuses[0].granted);
    assert!(!statuses[1].granted);
    assert!(statuses[2].granted);
    assert_eq!(statuses[0].settings_url, MICROPHONE_SETTINGS_URL);
    assert_eq!(statuses[1].settings_url, ACCESSIBILITY_SETTINGS_URL);
    assert_eq!(statuses[2].settings_url, INPUT_MONITORING_SETTINGS_URL);
    assert_eq!(statuses[0].icon, "bell");
    assert_eq!(statuses[1].icon, "user");
    assert_eq!(statuses[2].icon, "eye");
}

#[test]
fn settings_panes_to_open() {
    assert!(open_microphone_settings().ends_with("Privacy_Microphone"));
    assert!(open_accessibility_settings().ends_with("Privacy_Accessibility"));
}
