//! The first-launch walkthrough: its steps, the hotkey choices it offers and
//! what leaving each step saves.
use vstd::prelude::*;

verus! {

/// The key held to record.
#[derive(Debug, Clone, Copy, PartialEq, Eq, Structural)]
pub enum HotkeyTrigger {
    /// A key given by its virtual key code.
    Custom(u16),
    CommandRight,
    Option,
    F8,
    F9,
    F10,
}

/// The operating system the presets are for.
#[derive(Debug, Clone, Copy, PartialEq, Eq, Structural)]
pub enum Platform {
    MacOs,
    Windows,
    Other,
}

/// The hotkeys offered during onboarding, the recommended one first, with their labels.
pub fn hotkey_presets(platform: Platform) -> (r: Vec<(HotkeyTrigger, &'static str)>)
    ensures
        r@.len() == 4,
        platform == Platform::MacOs ==> r@[0].0 == HotkeyTrigger::Custom(61) && r@[1].0
            == HotkeyTrigger::CommandRight && r@[2].0 == HotkeyTrigger::Custom(63) && r@[3].0
            == HotkeyTrigger::F8,
        platform != Platform::MacOs ==> r@[0].0 == HotkeyTrigger::F8 && r@[1].0 == HotkeyTrigger::F9
            && r@[2].0 == HotkeyTrigger::F10 && r@[3].0 == HotkeyTrigger::Option,
        platform == Platform::MacOs ==> r@[0].1@ == "\u{2325} Right Option (recommended)"@
            && r@[1].1@ == "\u{2318} Right Command"@ && r@[2].1@ == "Fn"@ && r@[3].1@ == "F8"@,
        platform != Platform::MacOs ==> r@[0].1@ == "F8 (recommended)"@ && r@[1].1@ == "F9"@
            && r@[2].1@ == "F10"@ && r@[3].1@ == "Right Alt"@,
{
    match platform {
        Platform::MacOs => vec![
            (HotkeyTrigger::Custom(61), "\u{2325} Right Option (recommended)"),
            (HotkeyTrigger::CommandRight, "\u{2318} Right Command"),
            (HotkeyTrigger::Custom(63), "Fn"),
            (HotkeyTrigger::F8, "F8"),
        ],
        _ => vec![
            (HotkeyTrigger::F8, "F8 (recommended)"),
            (HotkeyTrigger::F9, "F9"),
            (HotkeyTrigger::F10, "F10"),
            (HotkeyTrigger::Option, "Right Alt"),
        ],
    }
}

/// The recommended hotkey: the first preset.
pub fn default_hotkey_preset(platform: Platform) -> (r: HotkeyTrigger)
    ensures
        platform == Platform::MacOs ==> r == HotkeyTrigger::Custom(61),
        platform != Platform::MacOs ==> r == HotkeyTrigger::F8,
{
    let presets = hotkey_presets(platform);
    presets[0].0
}

/// The steps of the walkthrough, in order.
#[derive(Debug, Clone, Copy, PartialEq, Eq, Structural)]
pub enum OnboardingStep {
    Welcome,
    Permissions,
    Hotkey,
    HowItWorks,
}

pub open spec fn step_index(s: OnboardingStep) -> int {
    match s {
        OnboardingStep::Welcome => 0,
        OnboardingStep::Permissions => 1,
        OnboardingStep::Hotkey => 2,
        OnboardingStep::HowItWorks => 3,
    }
}

impl OnboardingStep {
    /// The position of the step, from 0.
    pub fn index(self) -> (r: usize)
        ensures
            r == step_index(self),
    {
        match self {
            Self::Welcome => 0,
            Self::Permissions => 1,
            Self::Hotkey => 2,
            Self::HowItWorks => 3,
        }
    }

    /// The step after this one; none after the last.
    pub fn next(self) -> (r: Option<Self>)
        ensures
            r is None <==> self == OnboardingStep::HowItWorks,
            r matches Some(n) ==> step_index(n) == step_index(self) + 1 && n == self.next_spec(),
    {
        match self {
            Self::Welcome => Some(Self::Permissions),
            Self::Permissions => Some(Self::Hotkey),
            Self::Hotkey => Some(Self::HowItWorks),
            Self::HowItWorks => None,
        }
    }

    /// The step before this one; none before the first.
    pub fn prev(self) -> (r: Option<Self>)
        ensures
            r is None <==> self == OnboardingStep::Welcome,
            r matches Some(p) ==> step_index(p) + 1 == step_index(self) && p == self.prev_spec(),
    {
        match self {
            Self::Welcome => None,
            Self::Permissions => Some(Self::Welcome),
            Self::Hotkey => Some(Self::Permissions),
            Self::HowItWorks => Some(Self::Hotkey),
        }
    }
}

/// The three permissions as the walkthrough last saw them.
#[derive(Debug, Clone, Copy, PartialEq, Eq)]
pub struct PermissionState {
    pub microphone: bool,
    pub accessibility: bool,
    pub input_monitoring: bool,
}

impl PermissionState {
    /// All three are granted.
    pub fn all_granted(&self) -> (r: bool)
        ensures
            r == (self.microphone && self.accessibility && self.input_monitoring),
    {
        self.microphone && self.accessibility && self.input_monitoring
    }
}

/// Where the walkthrough stands.
#[derive(Debug, Clone, Copy, PartialEq, Eq)]
pub struct Onboarding {
    pub step: OnboardingStep,
    pub selected_trigger: Option<HotkeyTrigger>,
    pub visible: bool,
}

/// The settings change that a move through the walkthrough asks for.
#[derive(Debug, Clone, Copy, PartialEq, Eq, Structural)]
pub enum OnboardingEffect {
    /// Nothing to save.
    Nothing,
    /// Save the chosen hotkey.
    SaveHotkey(HotkeyTrigger),
    /// Save the chosen hotkey and record that onboarding is complete.
    Complete(HotkeyTrigger),
}

impl Onboarding {
    /// The walkthrough from its first step.
    pub fn new(selected_trigger: Option<HotkeyTrigger>) -> (r: Onboarding)
        ensures
            r.step == OnboardingStep::Welcome,
            r.selected_trigger == selected_trigger,
            r.visible,
    {
        Onboarding { step: OnboardingStep::Welcome, selected_trigger, visible: true }
    }

    /// The hotkey step needs a chosen hotkey; the others can always be left.
    pub fn can_advance(&self) -> (r: bool)
        ensures
            r == (self.step != OnboardingStep::Hotkey || self.selected_trigger is Some),
    {
        match self.step {
            OnboardingStep::Hotkey => self.selected_trigger.is_some(),
            _ => true,
        }
    }

    /// Moves to the next step, saving the hotkey when leaving the hotkey step;
    /// from the last step, closes the walkthrough and records it as complete
    /// (when a hotkey was chosen).
    pub fn advance(&mut self) -> (effect: OnboardingEffect)
        ensures
            old(self).step != OnboardingStep::HowItWorks ==> final(self).step == old(
                self,
            ).step.next_spec() && final(self).visible == old(self).visible,
            old(self).step == OnboardingStep::HowItWorks ==> !final(self).visible && final(self).step
                == old(self).step,
            final(self).selected_trigger == old(self).selected_trigger,
            effect == if old(self).step == OnboardingStep::HowItWorks {
                match old(self).selected_trigger {
                    Some(t) => OnboardingEffect::Complete(t),
                    None => OnboardingEffect::Nothing,
                }
            } else if old(self).step == OnboardingStep::Hotkey {
                match old(self).selected_trigger {
                    Some(t) => OnboardingEffect::SaveHotkey(t),
                    None => OnboardingEffect::Nothing,
                }
            } else {
                OnboardingEffect::Nothing
            },
    {
        match self.step.next() {
            Some(next) => {
                let effect = if self.step == OnboardingStep::Hotkey {
                    match self.selected_trigger {
                        Some(t) => OnboardingEffect::SaveHotkey(t),
                        None => OnboardingEffect::Nothing,
                    }
                } else {
                    OnboardingEffect::Nothing
                };
                self.step = next;
                effect
            },
            None => {
                self.visible = false;
                match self.selected_trigger {
                    Some(t) => OnboardingEffect::Complete(t),
                    None => OnboardingEffect::Nothing,
                }
            },
        }
    }

    /// Moves back one step; nothing happens on the first step.
    pub fn go_back(&mut self)
        ensures
            old(self).step != OnboardingStep::Welcome ==> final(self).step == old(
                self,
            ).step.prev_spec(),
            old(self).step == OnboardingStep::Welcome ==> *final(self) == *old(self),
            final(self).selected_trigger == old(self).selected_trigger,
            final(self).visible == old(self).visible,
    {
        if let Some(prev) = self.step.prev() {
            self.step = prev;
        }
    }
}

impl OnboardingStep {
    pub open spec fn next_spec(self) -> OnboardingStep {
        match self {
            OnboardingStep::Welcome => OnboardingStep::Permissions,
            OnboardingStep::Permissions => OnboardingStep::Hotkey,
            OnboardingStep::Hotkey => OnboardingStep::HowItWorks,
            OnboardingStep::HowItWorks => OnboardingStep::HowItWorks,
        }
    }

    pub open spec fn prev_spec(self) -> OnboardingStep {
        match self {
            OnboardingStep::Welcome => OnboardingStep::Welcome,
            OnboardingStep::Permissions => OnboardingStep::Welcome,
            OnboardingStep::Hotkey => OnboardingStep::Permissions,
            OnboardingStep::HowItWorks => OnboardingStep::Hotkey,
        }
    }
}

/// Going back undoes going forward, and going forward undoes going back:
/// from any step but the last, advancing then going back returns to it; from
/// any step but the first, going back then advancing returns to it.
pub proof fn law_back_undoes_advance(s: OnboardingStep)
    ensures
        s != OnboardingStep::HowItWorks ==> s.next_spec().prev_spec() == s,
        s != OnboardingStep::Welcome ==> s.prev_spec().next_spec() == s,
{
}

} // verus!
