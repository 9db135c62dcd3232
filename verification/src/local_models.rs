//! What is known of the models that run on this machine: the Apple Speech
//! locales, the Parakeet models and the Apple Foundation model. The state is
//! gathered by the platform layer and handed to the logic as plain values.
use vstd::prelude::*;

use crate::text::str_eq;

verus! {

/// Download state of a Parakeet model.
#[derive(Debug, Clone, PartialEq, Eq)]
pub enum LocalModelInstallState {
    NotInstalled,
    Downloading { downloaded_bytes: u64, total_bytes: Option<u64> },
    Cancelling { downloaded_bytes: u64, total_bytes: Option<u64> },
    Installed { size_bytes: u64 },
    Failed(String),
}

/// One Parakeet model and its download state.
#[derive(Debug, Clone)]
pub struct ParakeetModelStatus {
    pub id: String,
    pub state: LocalModelInstallState,
}

/// One Apple Speech model (a recognition locale) and whether it is installed.
#[derive(Debug, Clone)]
pub struct AppleSpeechModelStatus {
    pub id: String,
    pub display_name: String,
    pub installed: bool,
}

/// One Apple Foundation language model and whether it can be used.
#[derive(Debug, Clone)]
pub struct AppleFoundationModel {
    pub id: String,
    pub display_name: String,
    pub available: bool,
}

/// A snapshot of the local models.
#[derive(Debug, Clone)]
pub struct LocalModels {
    pub apple_speech: Vec<AppleSpeechModelStatus>,
    pub parakeet: Vec<ParakeetModelStatus>,
    pub apple_foundation: Vec<AppleFoundationModel>,
    /// Identifiers that earlier settings used for Apple Speech and that no longer name a model.
    pub legacy_apple_speech_ids: Vec<String>,
}

impl LocalModelInstallState {
    pub open spec fn is_installed(self) -> bool {
        self is Installed
    }
}

/// Index of the first installed Apple Speech model at or after `from`.
pub open spec fn first_installed_speech_from(s: Seq<AppleSpeechModelStatus>, from: int) -> Option<int>
    decreases s.len() - from,
{
    if from < 0 || from >= s.len() {
        None
    } else if s[from].installed {
        Some(from)
    } else {
        first_installed_speech_from(s, from + 1)
    }
}

/// Index of the first installed Parakeet model at or after `from`.
pub open spec fn first_installed_parakeet_from(s: Seq<ParakeetModelStatus>, from: int) -> Option<int>
    decreases s.len() - from,
{
    if from < 0 || from >= s.len() {
        None
    } else if s[from].state.is_installed() {
        Some(from)
    } else {
        first_installed_parakeet_from(s, from + 1)
    }
}

/// Index of the first available Apple Foundation model at or after `from`.
pub open spec fn first_available_foundation_from(s: Seq<AppleFoundationModel>, from: int) -> Option<int>
    decreases s.len() - from,
{
    if from < 0 || from >= s.len() {
        None
    } else if s[from].available {
        Some(from)
    } else {
        first_available_foundation_from(s, from + 1)
    }
}

impl LocalModels {
    /// An installed Apple Speech model has the identifier `id`.
    pub open spec fn speech_installed(self, id: Seq<char>) -> bool {
        exists|i: int|
            0 <= i < self.apple_speech@.len() && (#[trigger] self.apple_speech@[i]).id@ == id
                && self.apple_speech@[i].installed
    }

    /// Some Apple Speech model is known under the identifier `id`.
    pub open spec fn speech_known(self, id: Seq<char>) -> bool {
        exists|i: int|
            0 <= i < self.apple_speech@.len() && (#[trigger] self.apple_speech@[i]).id@ == id
    }

    /// An installed Parakeet model has the identifier `id`.
    pub open spec fn parakeet_installed(self, id: Seq<char>) -> bool {
        exists|i: int|
            0 <= i < self.parakeet@.len() && (#[trigger] self.parakeet@[i]).id@ == id
                && self.parakeet@[i].state.is_installed()
    }

    /// An available Apple Foundation model has the identifier `id`.
    pub open spec fn foundation_available(self, id: Seq<char>) -> bool {
        exists|i: int|
            0 <= i < self.apple_foundation@.len() && (#[trigger] self.apple_foundation@[i]).id@
                == id && self.apple_foundation@[i].available
    }

    /// `id` is a retired Apple Speech identifier.
    pub open spec fn is_legacy_speech(self, id: Seq<char>) -> bool {
        exists|i: int|
            0 <= i < self.legacy_apple_speech_ids@.len() && (#[trigger] self.legacy_apple_speech_ids@[i])@
                == id
    }

    pub open spec fn first_installed_speech(self) -> Option<int> {
        first_installed_speech_from(self.apple_speech@, 0)
    }

    pub open spec fn first_installed_parakeet(self) -> Option<int> {
        first_installed_parakeet_from(self.parakeet@, 0)
    }

    pub open spec fn first_available_foundation(self) -> Option<int> {
        first_available_foundation_from(self.apple_foundation@, 0)
    }

    /// The first installed Apple Speech model.
    pub fn first_installed_apple_speech_model(&self) -> (r: Option<&AppleSpeechModelStatus>)
        ensures
            r is Some == self.first_installed_speech() is Some,
            r matches Some(m) ==> *m == self.apple_speech@[self.first_installed_speech()->0],
            r is Some ==> 0 <= self.first_installed_speech()->0 < self.apple_speech@.len(),
    {
        let mut i: usize = 0;
        while i < self.apple_speech.len()
            invariant
                i <= self.apple_speech@.len(),
                first_installed_speech_from(self.apple_speech@, 0) == first_installed_speech_from(
                    self.apple_speech@,
                    i as int,
                ),
            decreases self.apple_speech.len() - i,
        {
            if self.apple_speech[i].installed {
                return Some(&self.apple_speech[i]);
            }
            i = i + 1;
        }
        None
    }

    /// The first installed Parakeet model.
    pub fn first_installed_parakeet_model(&self) -> (r: Option<&ParakeetModelStatus>)
        ensures
            r is Some == self.first_installed_parakeet() is Some,
            r matches Some(m) ==> *m == self.parakeet@[self.first_installed_parakeet()->0],
            r is Some ==> 0 <= self.first_installed_parakeet()->0 < self.parakeet@.len(),
    {
        let mut i: usize = 0;
        while i < self.parakeet.len()
            invariant
                i <= self.parakeet@.len(),
                first_installed_parakeet_from(self.parakeet@, 0) == first_installed_parakeet_from(
                    self.parakeet@,
                    i as int,
                ),
            decreases self.parakeet.len() - i,
        {
            if matches!(self.parakeet[i].state, LocalModelInstallState::Installed { .. }) {
                return Some(&self.parakeet[i]);
            }
            i = i + 1;
        }
        None
    }

    /// The first Apple Foundation model that can be used.
    pub fn first_available_apple_foundation_model(&self) -> (r: Option<&AppleFoundationModel>)
        ensures
            r is Some == self.first_available_foundation() is Some,
            r matches Some(m) ==> *m == self.apple_foundation@[self.first_available_foundation()->0],
            r is Some ==> 0 <= self.first_available_foundation()->0 < self.apple_foundation@.len(),
    {
        let mut i: usize = 0;
        while i < self.apple_foundation.len()
            invariant
                i <= self.apple_foundation@.len(),
                first_available_foundation_from(self.apple_foundation@, 0)
                    == first_available_foundation_from(self.apple_foundation@, i as int),
            decreases self.apple_foundation.len() - i,
        {
            if self.apple_foundation[i].available {
                return Some(&self.apple_foundation[i]);
            }
            i = i + 1;
        }
        None
    }

    /// An Apple Speech model with this identifier is installed.
    pub fn apple_speech_installed(&self, id: &str) -> (r: bool)
        ensures
            r == self.speech_installed(id@),
    {
        let mut i: usize = 0;
        while i < self.apple_speech.len()
            invariant
                i <= self.apple_speech@.len(),
                forall|k: int|
                    0 <= k < i ==> !((#[trigger] self.apple_speech@[k]).id@ == id@
                        && self.apple_speech@[k].installed),
            decreases self.apple_speech.len() - i,
        {
            if self.apple_speech[i].installed && str_eq(self.apple_speech[i].id.as_str(), id) {
                return true;
            }
            i = i + 1;
        }
        false
    }

    /// The Apple Speech model that `id` names, if one is known under it.
    pub fn resolve_apple_speech_model_id(&self, id: &str) -> (r: Option<String>)
        ensures
            r is Some == self.speech_known(id@),
            r matches Some(m) ==> m@ == id@,
    {
        let mut i: usize = 0;
        while i < self.apple_speech.len()
            invariant
                i <= self.apple_speech@.len(),
                forall|k: int| 0 <= k < i ==> (#[trigger] self.apple_speech@[k]).id@ != id@,
            decreases self.apple_speech.len() - i,
        {
            if str_eq(self.apple_speech[i].id.as_str(), id) {
                return Some(self.apple_speech[i].id.clone());
            }
            i = i + 1;
        }
        None
    }

    /// A Parakeet model with this identifier is installed.
    pub fn parakeet_installed_exec(&self, id: &str) -> (r: bool)
        ensures
            r == self.parakeet_installed(id@),
    {
        let mut i: usize = 0;
        while i < self.parakeet.len()
            invariant
                i <= self.parakeet@.len(),
                forall|k: int|
                    0 <= k < i ==> !((#[trigger] self.parakeet@[k]).id@ == id@
                        && self.parakeet@[k].state.is_installed()),
            decreases self.parakeet.len() - i,
        {
            if matches!(self.parakeet[i].state, LocalModelInstallState::Installed { .. })
                && str_eq(self.parakeet[i].id.as_str(), id) {
                return true;
            }
            i = i + 1;
        }
        false
    }

    /// The available Apple Foundation model that `id` names, if any.
    pub fn resolve_apple_foundation_model_id(&self, id: &str) -> (r: Option<String>)
        ensures
            r is Some == self.foundation_available(id@),
            r matches Some(m) ==> m@ == id@,
    {
        let mut i: usize = 0;
        while i < self.apple_foundation.len()
            invariant
                i <= self.apple_foundation@.len(),
                forall|k: int|
                    0 <= k < i ==> !((#[trigger] self.apple_foundation@[k]).id@ == id@
                        && self.apple_foundation@[k].available),
            decreases self.apple_foundation.len() - i,
        {
            if self.apple_foundation[i].available && str_eq(
                self.apple_foundation[i].id.as_str(),
                id,
            ) {
                return Some(self.apple_foundation[i].id.clone());
            }
            i = i + 1;
        }
        None
    }

    /// `id` is a retired Apple Speech identifier.
    pub fn is_legacy_apple_speech_model(&self, id: &str) -> (r: bool)
        ensures
            r == self.is_legacy_speech(id@),
    {
        let mut i: usize = 0;
        while i < self.legacy_apple_speech_ids.len()
            invariant
                i <= self.legacy_apple_speech_ids@.len(),
                forall|k: int|
                    0 <= k < i ==> (#[trigger] self.legacy_apple_speech_ids@[k])@ != id@,
            decreases self.legacy_apple_speech_ids.len() - i,
        {
            if str_eq(self.legacy_apple_speech_ids[i].as_str(), id) {
                return true;
            }
            i = i + 1;
        }
        false
    }
}

} // verus!
