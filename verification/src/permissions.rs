//! Permission helpers used by onboarding and the menu: the shared permission
//! decisions, the one-time accessibility prompt and the permissions hint.
use vstd::prelude::*;

pub use crate::platform::permissions::{
    check_all, has_microphone_access, microphone_access_error, microphone_authorization_status,
    open_microphone_settings, request_microphone_access, MicrophoneAuthorizationStatus,
    PermissionStatus, MICROPHONE_SETTINGS_URL,
};

verus! {

/// Remembers whether the accessibility prompt was already shown in this run.
#[derive(Debug)]
pub struct AccessibilityPromptOnce {
    shown: bool,
}

impl AccessibilityPromptOnce {
    /// Not shown yet.
    pub fn new() -> (r: AccessibilityPromptOnce)
        ensures
            !r.was_shown(),
    {
        AccessibilityPromptOnce { shown: false }
    }

    /// The prompt was shown.
    pub closed spec fn was_shown(&self) -> bool {
        self.shown
    }

    /// Whether to show the accessibility prompt now: only the first time, so
    /// that the prompt is shown at most once however often this is asked.
    pub fn request_accessibility_access_once(&mut self) -> (prompt: bool)
        ensures
            prompt == !old(self).was_shown(),
            final(self).was_shown(),
    {
        let prompt = !self.shown;
        self.shown = true;
        prompt
    }
}

/// The hint shown when dictation does nothing for want of permissions.
pub open spec fn hint_spec() -> Seq<char> {
    "macOS needs Microphone, Accessibility, and Input Monitoring access for Glide to capture audio, listen globally, and paste text. If dictation does nothing, grant those permissions in System Settings > Privacy & Security and relaunch the app."@
}

/// The hint shown when dictation does nothing for want of permissions.
pub fn macos_permission_hint() -> (r: String)
    ensures
        r@ == hint_spec(),
{
    "macOS needs Microphone, Accessibility, and Input Monitoring access for Glide to capture audio, listen globally, and paste text. If dictation does nothing, grant those permissions in System Settings > Privacy & Security and relaunch the app.".to_owned()
}

} // verus!
