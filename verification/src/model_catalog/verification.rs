//! Which providers are known to work: remote ones once their credentials were
//! checked against their service, local ones once a model is installed.
use vstd::prelude::*;

use crate::config::Provider;
use crate::local_models::LocalModels;

verus! {

/// The outcome of the last credential check of each remote provider.
#[derive(Debug, Clone, Copy, PartialEq, Eq, Structural)]
pub struct RemoteVerification {
    pub openai: bool,
    pub groq: bool,
    pub cerebras: bool,
    pub fireworks: bool,
    pub elevenlabs: bool,
}

impl RemoteVerification {
    /// No provider verified yet.
    pub fn new() -> (r: RemoteVerification)
        ensures
            !r.any_spec(),
    {
        RemoteVerification {
            openai: false,
            groq: false,
            cerebras: false,
            fireworks: false,
            elevenlabs: false,
        }
    }

    /// The recorded outcome for `provider`; local providers have none.
    pub open spec fn get_spec(self, provider: Provider) -> bool {
        match provider {
            Provider::OpenAi => self.openai,
            Provider::Groq => self.groq,
            Provider::Cerebras => self.cerebras,
            Provider::Fireworks => self.fireworks,
            Provider::ElevenLabs => self.elevenlabs,
            _ => false,
        }
    }

    /// Some remote provider is verified.
    pub open spec fn any_spec(self) -> bool {
        self.openai || self.groq || self.cerebras || self.fireworks || self.elevenlabs
    }

    pub fn get(&self, provider: Provider) -> (r: bool)
        ensures
            r == self.get_spec(provider),
    {
        match provider {
            Provider::OpenAi => self.openai,
            Provider::Groq => self.groq,
            Provider::Cerebras => self.cerebras,
            Provider::Fireworks => self.fireworks,
            Provider::ElevenLabs => self.elevenlabs,
            _ => false,
        }
    }
}

/// `state` with the outcome for `p` replaced by `v` (local providers have none).
pub open spec fn with_verified(state: RemoteVerification, p: Provider, v: bool) -> RemoteVerification {
    match p {
        Provider::OpenAi => RemoteVerification { openai: v, ..state },
        Provider::Groq => RemoteVerification { groq: v, ..state },
        Provider::Cerebras => RemoteVerification { cerebras: v, ..state },
        Provider::Fireworks => RemoteVerification { fireworks: v, ..state },
        Provider::ElevenLabs => RemoteVerification { elevenlabs: v, ..state },
        _ => state,
    }
}

/// Records the outcome of checking a remote provider's credentials; local
/// providers are not recorded.
pub fn set_remote_provider_verified(state: &mut RemoteVerification, provider: Provider, verified: bool)
    ensures
        provider.remote_index_spec() is Some ==> final(state).get_spec(provider) == verified,
        forall|p: Provider| p != provider ==> final(state).get_spec(p) == old(state).get_spec(p),
        provider.remote_index_spec() is None ==> *final(state) == *old(state),
        *final(state) == with_verified(*old(state), provider, verified),
{
    match provider {
        Provider::OpenAi => state.openai = verified,
        Provider::Groq => state.groq = verified,
        Provider::Cerebras => state.cerebras = verified,
        Provider::Fireworks => state.fireworks = verified,
        Provider::ElevenLabs => state.elevenlabs = verified,
        _ => {},
    }
}

/// Some remote provider is verified.
pub fn any_remote_provider_verified(state: &RemoteVerification) -> (r: bool)
    ensures
        r == state.any_spec(),
{
    state.openai || state.groq || state.cerebras || state.fireworks || state.elevenlabs
}

/// An Apple Speech model is installed.
pub fn apple_speech_available(local: &LocalModels) -> (r: bool)
    ensures
        r == (local.first_installed_speech() is Some),
{
    local.first_installed_apple_speech_model().is_some()
}

/// An Apple Foundation model can be used.
pub fn apple_foundation_available(local: &LocalModels) -> (r: bool)
    ensures
        r == (local.first_available_foundation() is Some),
{
    local.first_available_apple_foundation_model().is_some()
}

/// `provider` can be used: a remote one when its credentials were verified,
/// Apple when a speech or foundation model is present, Parakeet when one of its
/// models is installed.
pub open spec fn verified_spec(state: RemoteVerification, local: LocalModels, provider: Provider) -> bool {
    match provider {
        Provider::AppleLocal => local.first_installed_speech() is Some
            || local.first_available_foundation() is Some,
        Provider::Parakeet => local.first_installed_parakeet() is Some,
        _ => state.get_spec(provider),
    }
}

/// Some provider, remote or local, can be used.
pub open spec fn any_verified_spec(state: RemoteVerification, local: LocalModels) -> bool {
    state.any_spec() || verified_spec(state, local, Provider::AppleLocal) || verified_spec(
        state,
        local,
        Provider::Parakeet,
    )
}

pub fn provider_verified(state: &RemoteVerification, local: &LocalModels, provider: Provider) -> (r: bool)
    ensures
        r == verified_spec(*state, *local, provider),
{
    if provider.remote_index().is_some() {
        return state.get(provider);
    }
    match provider {
        Provider::AppleLocal => apple_speech_available(local) || apple_foundation_available(local),
        Provider::Parakeet => local.first_installed_parakeet_model().is_some(),
        _ => false,
    }
}

pub fn any_provider_verified(state: &RemoteVerification, local: &LocalModels) -> (r: bool)
    ensures
        r == any_verified_spec(*state, *local),
{
    any_remote_provider_verified(state) || provider_verified(state, local, Provider::AppleLocal)
        || provider_verified(state, local, Provider::Parakeet)
}

/// What a credential check records is what a later query of that remote
/// provider answers, and the other providers answer as before.
pub proof fn law_verification_read_after_write(
    before: RemoteVerification,
    after: RemoteVerification,
    local: LocalModels,
    provider: Provider,
    verified: bool,
    other: Provider,
)
    requires
        provider.remote_index_spec() is Some,
        after.get_spec(provider) == verified,
        forall|p: Provider| p != provider ==> after.get_spec(p) == before.get_spec(p),
        other != provider,
    ensures
        verified_spec(after, local, provider) == verified,
        verified_spec(after, local, other) == verified_spec(before, local, other),
{
}

} // verus!
