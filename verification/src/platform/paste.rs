//! The decisions of pasting a transcript through the clipboard: whether
//! pasting may start, which clipboard text to restore, and when.
use vstd::prelude::*;

use crate::config::PasteConfig;

verus! {

/// Pause between filling the clipboard and sending the paste keystroke.
pub const CLIPBOARD_SETTLE_DELAY_MS: u64 = 50;

/// The shortest wait before the previous clipboard text is put back; a
/// shorter wait could restore it before the target application has pasted.
pub const MIN_RESTORE_DELAY_MS: u64 = 750;

/// Why a paste could not be done.
#[derive(Debug, Clone, Copy, PartialEq, Eq, Structural)]
pub enum PasteError {
    /// Simulated keystrokes need the Accessibility permission.
    AccessibilityRequired,
}

impl PasteError {
    /// The message shown to the user.
    pub fn message(&self) -> (r: &'static str)
        ensures
            r@ == "Accessibility permission required for paste. Grant access in System Settings > Privacy & Security > Accessibility and relaunch."@,
    {
        "Accessibility permission required for paste. Grant access in System Settings > Privacy & Security > Accessibility and relaunch."
    }
}

/// Pasting may start only with the Accessibility permission.
pub fn paste_preflight(has_accessibility_access: bool) -> (r: Result<(), PasteError>)
    ensures
        r is Ok == has_accessibility_access,
        r matches Err(e) ==> e == PasteError::AccessibilityRequired,
{
    if has_accessibility_access {
        Ok(())
    } else {
        Err(PasteError::AccessibilityRequired)
    }
}

/// The clipboard text to put back after pasting: the current text when the
/// settings ask for restoring it (and there is text), else none.
pub fn previous_clipboard_text(config: &PasteConfig, current_text: Option<String>) -> (r: Option<String>)
    ensures
        r == if config.restore_clipboard { current_text } else { None },
{
    if config.restore_clipboard {
        current_text
    } else {
        None
    }
}

/// The wait, in milliseconds, before the previous clipboard text is restored:
/// the configured delay, but never less than `MIN_RESTORE_DELAY_MS`.
pub fn restore_delay(config: &PasteConfig) -> (r: u64)
    ensures
        r == if config.restore_delay_ms < MIN_RESTORE_DELAY_MS {
            MIN_RESTORE_DELAY_MS
        } else {
            config.restore_delay_ms
        },
        r >= MIN_RESTORE_DELAY_MS,
        r >= config.restore_delay_ms,
{
    if config.restore_delay_ms < MIN_RESTORE_DELAY_MS {
        MIN_RESTORE_DELAY_MS
    } else {
        config.restore_delay_ms
    }
}

} // verus!
