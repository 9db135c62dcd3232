//! The settings that the dictation logic reads: providers, model selections,
//! per-application styles, the dictionary and paste behaviour.
use vstd::prelude::*;

use crate::text::{chars_of, str_eq, trim, trimmed};

verus! {

/// A speech-to-text or language-model backend.
#[derive(Debug, Clone, Copy, PartialEq, Eq, Structural)]
pub enum Provider {
    OpenAi,
    Groq,
    Cerebras,
    Fireworks,
    ElevenLabs,
    AppleLocal,
    Parakeet,
}

impl Provider {
    /// The name under which models of this provider are listed.
    pub open spec fn label_view(self) -> Seq<char> {
        match self {
            Provider::OpenAi => "OpenAI"@,
            Provider::Groq => "Groq"@,
            Provider::Cerebras => "Cerebras"@,
            Provider::Fireworks => "Fireworks"@,
            Provider::ElevenLabs => "ElevenLabs"@,
            Provider::AppleLocal => "Apple"@,
            Provider::Parakeet => "Parakeet"@,
        }
    }

    /// The asset path of this provider's logo.
    pub open spec fn logo_view(self) -> Seq<char> {
        match self {
            Provider::OpenAi => "assets/providers/openai.svg"@,
            Provider::Groq => "assets/providers/groq.svg"@,
            Provider::Cerebras => "assets/providers/cerebras.svg"@,
            Provider::Fireworks => "assets/providers/fireworks.svg"@,
            Provider::ElevenLabs => "assets/providers/elevenlabs.svg"@,
            Provider::AppleLocal => "assets/providers/apple.svg"@,
            Provider::Parakeet => "assets/providers/parakeet.svg"@,
        }
    }

    /// Models of this provider run on this machine.
    pub open spec fn is_local_spec(self) -> bool {
        self == Provider::AppleLocal || self == Provider::Parakeet
    }

    /// The slot of a remote (networked) provider among the five of them.
    pub open spec fn remote_index_spec(self) -> Option<usize> {
        match self {
            Provider::OpenAi => Some(0usize),
            Provider::Groq => Some(1usize),
            Provider::Cerebras => Some(2usize),
            Provider::Fireworks => Some(3usize),
            Provider::ElevenLabs => Some(4usize),
            Provider::AppleLocal => None,
            Provider::Parakeet => None,
        }
    }

    /// The provider whose label is `s`, if any.
    pub open spec fn from_label(s: Seq<char>) -> Option<Provider> {
        if s == "OpenAI"@ {
            Some(Provider::OpenAi)
        } else if s == "Groq"@ {
            Some(Provider::Groq)
        } else if s == "Cerebras"@ {
            Some(Provider::Cerebras)
        } else if s == "Fireworks"@ {
            Some(Provider::Fireworks)
        } else if s == "ElevenLabs"@ {
            Some(Provider::ElevenLabs)
        } else if s == "Apple"@ {
            Some(Provider::AppleLocal)
        } else if s == "Parakeet"@ {
            Some(Provider::Parakeet)
        } else {
            None
        }
    }

    pub fn label(self) -> (r: &'static str)
        ensures
            r@ == self.label_view(),
    {
        match self {
            Provider::OpenAi => "OpenAI",
            Provider::Groq => "Groq",
            Provider::Cerebras => "Cerebras",
            Provider::Fireworks => "Fireworks",
            Provider::ElevenLabs => "ElevenLabs",
            Provider::AppleLocal => "Apple",
            Provider::Parakeet => "Parakeet",
        }
    }

    pub fn logo(self) -> (r: &'static str)
        ensures
            r@ == self.logo_view(),
    {
        match self {
            Provider::OpenAi => "assets/providers/openai.svg",
            Provider::Groq => "assets/providers/groq.svg",
            Provider::Cerebras => "assets/providers/cerebras.svg",
            Provider::Fireworks => "assets/providers/fireworks.svg",
            Provider::ElevenLabs => "assets/providers/elevenlabs.svg",
            Provider::AppleLocal => "assets/providers/apple.svg",
            Provider::Parakeet => "assets/providers/parakeet.svg",
        }
    }

    pub fn is_local(self) -> (r: bool)
        ensures
            r == self.is_local_spec(),
    {
        matches!(self, Provider::AppleLocal | Provider::Parakeet)
    }

    pub fn remote_index(self) -> (r: Option<usize>)
        ensures
            r == self.remote_index_spec(),
    {
        match self {
            Provider::OpenAi => Some(0),
            Provider::Groq => Some(1),
            Provider::Cerebras => Some(2),
            Provider::Fireworks => Some(3),
            Provider::ElevenLabs => Some(4),
            Provider::AppleLocal => None,
            Provider::Parakeet => None,
        }
    }

    /// The provider that a catalog entry's provider label names.
    pub fn from_model_info_provider(s: &str) -> (r: Option<Provider>)
        ensures
            r == Provider::from_label(s@),
    {
        if str_eq(s, "OpenAI") {
            Some(Provider::OpenAi)
        } else if str_eq(s, "Groq") {
            Some(Provider::Groq)
        } else if str_eq(s, "Cerebras") {
            Some(Provider::Cerebras)
        } else if str_eq(s, "Fireworks") {
            Some(Provider::Fireworks)
        } else if str_eq(s, "ElevenLabs") {
            Some(Provider::ElevenLabs)
        } else if str_eq(s, "Apple") {
            Some(Provider::AppleLocal)
        } else if str_eq(s, "Parakeet") {
            Some(Provider::Parakeet)
        } else {
            None
        }
    }
}

/// Each provider is found again from its own label, so that catalog entries
/// (which carry the label) are attributed to the provider that listed them.
pub proof fn law_label_round_trip(p: Provider)
    ensures
        Provider::from_label(p.label_view()) == Some(p),
{
    reveal_strlit("OpenAI");
    reveal_strlit("Groq");
    reveal_strlit("Cerebras");
    reveal_strlit("Fireworks");
    reveal_strlit("ElevenLabs");
    reveal_strlit("Apple");
    reveal_strlit("Parakeet");
    let l = p.label_view();
    assert(l[0] == "OpenAI"@[0] ==> p == Provider::OpenAi);
    assert(l[0] == "Groq"@[0] ==> p == Provider::Groq);
    assert(l[0] == "Cerebras"@[0] ==> p == Provider::Cerebras);
    assert(l[0] == "Fireworks"@[0] ==> p == Provider::Fireworks);
    assert(l[0] == "ElevenLabs"@[0] ==> p == Provider::ElevenLabs);
    assert(l[0] == "Apple"@[0] ==> p == Provider::AppleLocal);
    assert(l[0] == "Parakeet"@[0] ==> p == Provider::Parakeet);
}

/// A provider together with one of its models.
#[derive(Debug, Clone)]
pub struct ModelSelection {
    pub provider: Provider,
    pub model: String,
}

/// The content of a selection: its provider and model identifier.
pub open spec fn sel_view(s: ModelSelection) -> (Provider, Seq<char>) {
    (s.provider, s.model@)
}

/// The content of an optional selection.
pub open spec fn opt_sel_view(o: Option<ModelSelection>) -> Option<(Provider, Seq<char>)> {
    match o {
        Some(s) => Some(sel_view(s)),
        None => None,
    }
}

impl ModelSelection {
    /// A selection of `model` from `provider`.
    pub fn new(provider: Provider, model: &str) -> (r: ModelSelection)
        ensures
            sel_view(r) == (provider, model@),
    {
        ModelSelection { provider, model: model.to_owned() }
    }

    /// A copy with the same content.
    pub fn copy(&self) -> (r: ModelSelection)
        ensures
            r == *self,
    {
        ModelSelection { provider: self.provider, model: self.model.clone() }
    }
}

/// A copy of an optional selection.
pub fn copy_opt_selection(o: &Option<ModelSelection>) -> (r: Option<ModelSelection>)
    ensures
        r == *o,
{
    match o {
        Some(s) => Some(s.copy()),
        None => None,
    }
}

/// Dictation settings for the applications a style lists.
#[derive(Debug, Clone)]
pub struct Style {
    pub name: String,
    pub apps: Vec<String>,
    pub prompt: String,
    pub stt: Option<ModelSelection>,
    pub llm: Option<ModelSelection>,
}

/// The default dictation settings and the styles that override them.
#[derive(Debug, Clone)]
pub struct DictationConfig {
    pub stt: ModelSelection,
    pub llm: Option<ModelSelection>,
    pub system_prompt: String,
    pub styles: Vec<Style>,
    pub smart_defaults_applied: bool,
}

/// One text substitution applied to every transcript.
#[derive(Debug, Clone)]
pub struct ReplacementRule {
    pub find: String,
    pub replace: String,
    pub case_sensitive: bool,
}

/// Vocabulary hints for recognition and substitutions on its output.
#[derive(Debug, Clone)]
pub struct DictionaryConfig {
    pub vocabulary: Vec<String>,
    pub replacements: Vec<ReplacementRule>,
}

/// How a transcript is pasted.
#[derive(Debug, Clone, Copy)]
pub struct PasteConfig {
    pub restore_clipboard: bool,
    pub restore_delay_ms: u64,
}

/// Endpoint and key of one remote provider.
#[derive(Debug, Clone)]
pub struct ProviderCredentials {
    pub api_key: String,
    pub base_url: String,
}

/// The credentials of the five remote providers.
#[derive(Debug, Clone)]
pub struct ProvidersConfig {
    pub openai: ProviderCredentials,
    pub groq: ProviderCredentials,
    pub cerebras: ProviderCredentials,
    pub fireworks: ProviderCredentials,
    pub elevenlabs: ProviderCredentials,
}

/// The whole configuration the dictation logic reads.
#[derive(Debug, Clone)]
pub struct GlideConfig {
    pub providers: ProvidersConfig,
    pub dictation: DictationConfig,
    pub dictionary: DictionaryConfig,
    pub paste: PasteConfig,
}

impl ProvidersConfig {
    /// The credentials of a remote provider.
    pub open spec fn credentials_spec(self, provider: Provider) -> Option<ProviderCredentials> {
        match provider {
            Provider::OpenAi => Some(self.openai),
            Provider::Groq => Some(self.groq),
            Provider::Cerebras => Some(self.cerebras),
            Provider::Fireworks => Some(self.fireworks),
            Provider::ElevenLabs => Some(self.elevenlabs),
            _ => None,
        }
    }

    pub fn credentials_for(&self, provider: Provider) -> (r: Option<&ProviderCredentials>)
        ensures
            r is Some == self.credentials_spec(provider) is Some,
            r matches Some(c) ==> *c == self.credentials_spec(provider)->0,
    {
        match provider {
            Provider::OpenAi => Some(&self.openai),
            Provider::Groq => Some(&self.groq),
            Provider::Cerebras => Some(&self.cerebras),
            Provider::Fireworks => Some(&self.fireworks),
            Provider::ElevenLabs => Some(&self.elevenlabs),
            _ => None,
        }
    }
}

impl ProviderCredentials {
    /// Neither the key nor the base URL is blank.
    pub open spec fn usable_spec(self) -> bool {
        trim(self.api_key@).len() > 0 && trim(self.base_url@).len() > 0
    }

    /// Neither the key nor the base URL is blank; blank credentials cannot be verified.
    pub fn usable(&self) -> (r: bool)
        ensures
            r == self.usable_spec(),
    {
        let key = chars_of(self.api_key.as_str());
        let url = chars_of(self.base_url.as_str());
        trimmed(key.as_slice()).len() > 0 && trimmed(url.as_slice()).len() > 0
    }
}

} // verus!
