//! The decisions around the three macOS privacy permissions Glide needs
//! (Microphone, Accessibility, Input Monitoring). The platform layer queries
//! the system and hands the answers in as plain values.
use vstd::prelude::*;

verus! {

/// The System Settings pane for microphone access.
pub const MICROPHONE_SETTINGS_URL: &'static str =
    "x-apple.systempreferences:com.apple.preference.security?Privacy_Microphone";

/// The System Settings pane for accessibility access.
pub const ACCESSIBILITY_SETTINGS_URL: &'static str =
    "x-apple.systempreferences:com.apple.preference.security?Privacy_Accessibility";

/// The System Settings pane for input monitoring.
pub const INPUT_MONITORING_SETTINGS_URL: &'static str =
    "x-apple.systempreferences:com.apple.preference.security?Privacy_ListenEvent";

/// The system's answer about microphone access.
#[derive(Debug, Clone, Copy, PartialEq, Eq, Structural)]
pub enum MicrophoneAuthorizationStatus {
    NotDetermined,
    Restricted,
    Denied,
    Authorized,
    Unknown(isize),
}

/// The status that the system's raw authorization value stands for.
pub open spec fn from_raw_spec(value: isize) -> MicrophoneAuthorizationStatus {
    if value == 0 {
        MicrophoneAuthorizationStatus::NotDetermined
    } else if value == 1 {
        MicrophoneAuthorizationStatus::Restricted
    } else if value == 2 {
        MicrophoneAuthorizationStatus::Denied
    } else if value == 3 {
        MicrophoneAuthorizationStatus::Authorized
    } else {
        MicrophoneAuthorizationStatus::Unknown(value)
    }
}

impl MicrophoneAuthorizationStatus {
    /// The status that the system's raw authorization value stands for.
    pub fn from_raw(value: isize) -> (r: Self)
        ensures
            r == from_raw_spec(value),
    {
        match value {
            0 => Self::NotDetermined,
            1 => Self::Restricted,
            2 => Self::Denied,
            3 => Self::Authorized,
            other => Self::Unknown(other),
        }
    }

    pub fn is_authorized(self) -> (r: bool)
        ensures
            r == (self == MicrophoneAuthorizationStatus::Authorized),
    {
        matches!(self, Self::Authorized)
    }

    pub fn is_denied_or_restricted(self) -> (r: bool)
        ensures
            r == (self == MicrophoneAuthorizationStatus::Denied || self
                == MicrophoneAuthorizationStatus::Restricted),
    {
        matches!(self, Self::Denied | Self::Restricted)
    }

    /// Audio can be captured.
    pub fn can_capture(self) -> (r: bool)
        ensures
            r == (self == MicrophoneAuthorizationStatus::Authorized),
    {
        matches!(self, Self::Authorized)
    }
}

/// The status from asking the capture-device class for it: `None` when the
/// class could not be found, else the raw value it answered.
pub fn microphone_authorization_status(raw: Option<isize>) -> (r: MicrophoneAuthorizationStatus)
    ensures
        r == match raw {
            Some(v) => from_raw_spec(v),
            None => MicrophoneAuthorizationStatus::Unknown(-1isize),
        },
{
    match raw {
        Some(v) => MicrophoneAuthorizationStatus::from_raw(v),
        None => MicrophoneAuthorizationStatus::Unknown(-1),
    }
}

/// The status on systems without the macOS privacy prompt: authorized when a
/// default input device offers a configuration, else unknown.
pub fn status_from_input_device(device_usable: bool) -> (r: MicrophoneAuthorizationStatus)
    ensures
        r == if device_usable {
            MicrophoneAuthorizationStatus::Authorized
        } else {
            MicrophoneAuthorizationStatus::Unknown(-1isize)
        },
{
    if device_usable {
        MicrophoneAuthorizationStatus::Authorized
    } else {
        MicrophoneAuthorizationStatus::Unknown(-1)
    }
}

/// Microphone access is granted.
pub fn has_microphone_access(status: MicrophoneAuthorizationStatus) -> (r: bool)
    ensures
        r == (status == MicrophoneAuthorizationStatus::Authorized),
{
    status.is_authorized()
}

/// What requesting microphone access does next.
#[derive(Debug, Clone, Copy, PartialEq, Eq, Structural)]
pub enum MicrophoneRequest {
    /// The answer is already known: this is it.
    Settled(MicrophoneAuthorizationStatus),
    /// The user has not decided yet: ask them.
    AskUser,
}

/// Requesting microphone access asks the user only while they have not decided.
pub fn request_microphone_access(current: MicrophoneAuthorizationStatus) -> (r: MicrophoneRequest)
    ensures
        current == MicrophoneAuthorizationStatus::NotDetermined ==> r == MicrophoneRequest::AskUser,
        current != MicrophoneAuthorizationStatus::NotDetermined ==> r == MicrophoneRequest::Settled(
            current,
        ),
{
    if current != MicrophoneAuthorizationStatus::NotDetermined {
        MicrophoneRequest::Settled(current)
    } else {
        MicrophoneRequest::AskUser
    }
}

/// The status once the user answered the prompt: `Some(true)` grants access;
/// a refusal or no answer within the wait leaves it to a fresh query (`None`).
pub fn microphone_request_answer(answer: Option<bool>) -> (r: Option<MicrophoneAuthorizationStatus>)
    ensures
        answer == Some(true) ==> r == Some(MicrophoneAuthorizationStatus::Authorized),
        answer != Some(true) ==> r is None,
{
    match answer {
        Some(true) => Some(MicrophoneAuthorizationStatus::Authorized),
        _ => None,
    }
}

/// The message shown when dictation cannot use the microphone.
pub open spec fn access_error_spec(status: MicrophoneAuthorizationStatus) -> Option<Seq<char>> {
    match status {
        MicrophoneAuthorizationStatus::NotDetermined => Some(
            "Microphone access has not been granted. Choose Allow when macOS asks for microphone access, then try dictation again."@,
        ),
        MicrophoneAuthorizationStatus::Denied => Some(
            "Microphone access is denied. Enable Glide in System Settings > Privacy & Security > Microphone, then try again."@,
        ),
        MicrophoneAuthorizationStatus::Restricted => Some(
            "Microphone access is restricted by macOS policy. Enable microphone access for Glide in System Settings if available."@,
        ),
        MicrophoneAuthorizationStatus::Unknown(_) => Some(
            "Glide could not determine microphone permission. Enable microphone access in System Settings > Privacy & Security > Microphone, then try again."@,
        ),
        MicrophoneAuthorizationStatus::Authorized => None,
    }
}

/// The message shown when dictation cannot use the microphone; none when it can.
pub fn microphone_access_error(status: MicrophoneAuthorizationStatus) -> (r: Option<String>)
    ensures
        r is Some == access_error_spec(status) is Some,
        r matches Some(m) ==> m@ == access_error_spec(status)->0,
{
    match status {
        MicrophoneAuthorizationStatus::NotDetermined => Some(
            "Microphone access has not been granted. Choose Allow when macOS asks for microphone access, then try dictation again.".to_owned(),
        ),
        MicrophoneAuthorizationStatus::Denied => Some(
            "Microphone access is denied. Enable Glide in System Settings > Privacy & Security > Microphone, then try again.".to_owned(),
        ),
        MicrophoneAuthorizationStatus::Restricted => Some(
            "Microphone access is restricted by macOS policy. Enable microphone access for Glide in System Settings if available.".to_owned(),
        ),
        MicrophoneAuthorizationStatus::Unknown(_) => Some(
            "Glide could not determine microphone permission. Enable microphone access in System Settings > Privacy & Security > Microphone, then try again.".to_owned(),
        ),
        MicrophoneAuthorizationStatus::Authorized => None,
    }
}

/// The settings pane to open for microphone access.
pub fn open_microphone_settings() -> (url: &'static str)
    ensures
        url@ == MICROPHONE_SETTINGS_URL@,
{
    MICROPHONE_SETTINGS_URL
}

/// The settings pane to open for accessibility access.
pub fn open_accessibility_settings() -> (url: &'static str)
    ensures
        url@ == ACCESSIBILITY_SETTINGS_URL@,
{
    ACCESSIBILITY_SETTINGS_URL
}

/// What obtaining accessibility access does next.
#[derive(Debug, Clone, Copy, PartialEq, Eq, Structural)]
pub enum AccessibilityStep {
    /// Access is granted.
    Granted,
    /// Ask macOS to prompt the user (and register the app in the list).
    Prompt,
    /// Access was not granted: open the settings pane; access is not granted.
    OpenSettings,
}

/// Obtaining accessibility access: granted access is kept; otherwise the
/// system prompt is shown once (`prompt_answer` is its result when it has
/// been shown), and if it does not grant access the settings pane is opened.
pub fn request_accessibility_access_or_open_settings(
    has_access: bool,
    prompt_answer: Option<bool>,
) -> (r: AccessibilityStep)
    ensures
        has_access ==> r == AccessibilityStep::Granted,
        !has_access && prompt_answer is None ==> r == AccessibilityStep::Prompt,
        !has_access && prompt_answer == Some(true) ==> r == AccessibilityStep::Granted,
        !has_access && prompt_answer == Some(false) ==> r == AccessibilityStep::OpenSettings,
{
    if has_access {
        return AccessibilityStep::Granted;
    }
    match prompt_answer {
        None => AccessibilityStep::Prompt,
        Some(true) => AccessibilityStep::Granted,
        Some(false) => AccessibilityStep::OpenSettings,
    }
}

/// A permission and whether it is granted, for display.
#[derive(Debug, Clone, PartialEq, Eq)]
pub struct PermissionStatus {
    pub name: &'static str,
    pub description: &'static str,
    pub granted: bool,
    pub settings_url: &'static str,
    /// Icon name of the settings icon set.
    pub icon: &'static str,
}

pub fn permission_status(
    name: &'static str,
    description: &'static str,
    granted: bool,
    settings_url: &'static str,
    icon: &'static str,
) -> (r: PermissionStatus)
    ensures
        r.name == name,
        r.description == description,
        r.granted == granted,
        r.settings_url == settings_url,
        r.icon == icon,
{
    PermissionStatus { name, description, granted, settings_url, icon }
}

/// The three permissions, in the order the settings show them, with what the
/// system answered for each.
pub fn check_all(microphone: bool, accessibility: bool, input_monitoring: bool) -> (r: Vec<PermissionStatus>)
    ensures
        r@.len() == 3,
        r@[0].name@ == "Microphone"@,
        r@[0].description@ == "Capture audio for dictation"@,
        r@[0].granted == microphone,
        r@[0].settings_url@ == MICROPHONE_SETTINGS_URL@,
        r@[0].icon@ == "bell"@,
        r@[1].name@ == "Accessibility"@,
        r@[1].description@ == "Paste transcribed text"@,
        r@[1].granted == accessibility,
        r@[1].settings_url@ == ACCESSIBILITY_SETTINGS_URL@,
        r@[1].icon@ == "user"@,
        r@[2].name@ == "Input Monitoring"@,
        r@[2].description@ == "Global hotkey detection"@,
        r@[2].granted == input_monitoring,
        r@[2].settings_url@ == INPUT_MONITORING_SETTINGS_URL@,
        r@[2].icon@ == "eye"@,
{
    let mut r: Vec<PermissionStatus> = Vec::new();
    r.push(
        permission_status(
            "Microphone",
            "Capture audio for dictation",
            microphone,
            MICROPHONE_SETTINGS_URL,
            "bell",
        ),
    );
    r.push(
        permission_status(
            "Accessibility",
            "Paste transcribed text",
            accessibility,
            ACCESSIBILITY_SETTINGS_URL,
            "user",
        ),
    );
    r.push(
        permission_status(
            "Input Monitoring",
            "Global hotkey detection",
            input_monitoring,
            INPUT_MONITORING_SETTINGS_URL,
            "eye",
        ),
    );
    r
}

/// The status is authorized exactly when no access error is reported, and
/// capture is possible exactly then.
pub proof fn law_error_iff_not_authorized(status: MicrophoneAuthorizationStatus)
    ensures
        (access_error_spec(status) is None) == (status == MicrophoneAuthorizationStatus::Authorized),
        !(status == MicrophoneAuthorizationStatus::Authorized && (status
            == MicrophoneAuthorizationStatus::Denied || status
            == MicrophoneAuthorizationStatus::Restricted)),
{
}

/// Every raw value maps to a status, and the four known values map to their
/// own statuses; any other value is kept inside `Unknown`.
pub proof fn law_from_raw_total(value: isize)
    ensures
        from_raw_spec(value) is Unknown <==> !(0 <= value <= 3),
        from_raw_spec(value) matches MicrophoneAuthorizationStatus::Unknown(v) ==> v == value,
{
}

} // verus!
