//! Choosing working models: a selection that cannot be used is replaced by the
//! preferred model of the first provider that can.
use vstd::prelude::*;

use crate::config::{opt_sel_view, sel_view, GlideConfig, ModelSelection, Provider, Style};
use crate::local_models::LocalModels;
use crate::model_catalog::verification::{
    any_provider_verified, any_verified_spec, provider_verified, verified_spec, RemoteVerification,
};

verus! {

/// A speech-to-text selection can be used: its remote provider is verified or
/// its local model is installed. Cerebras offers no speech-to-text.
pub open spec fn stt_available_spec(
    state: RemoteVerification,
    local: LocalModels,
    sel: (Provider, Seq<char>),
) -> bool {
    match sel.0 {
        Provider::Cerebras => false,
        Provider::AppleLocal => local.speech_known(sel.1) && local.speech_installed(sel.1),
        Provider::Parakeet => local.parakeet_installed(sel.1),
        _ => verified_spec(state, local, sel.0),
    }
}

/// A cleanup selection can be used: its remote provider is verified or its
/// Apple Foundation model is available. ElevenLabs and Parakeet offer no cleanup.
pub open spec fn llm_available_spec(
    state: RemoteVerification,
    local: LocalModels,
    sel: (Provider, Seq<char>),
) -> bool {
    match sel.0 {
        Provider::ElevenLabs => false,
        Provider::Parakeet => false,
        Provider::AppleLocal => local.foundation_available(sel.1),
        _ => verified_spec(state, local, sel.0),
    }
}

/// The preferred speech-to-text model: Groq, OpenAI, Fireworks, ElevenLabs in
/// that order of preference, then the first installed Parakeet model, then the
/// first installed Apple Speech model.
pub open spec fn smart_stt_spec(state: RemoteVerification, local: LocalModels) -> Option<
    (Provider, Seq<char>),
> {
    if state.groq {
        Some((Provider::Groq, "whisper-large-v3-turbo"@))
    } else if state.openai {
        Some((Provider::OpenAi, "whisper-1"@))
    } else if state.fireworks {
        Some((Provider::Fireworks, "whisper-v3-turbo"@))
    } else if state.elevenlabs {
        Some((Provider::ElevenLabs, "scribe_v2"@))
    } else if local.first_installed_parakeet() is Some {
        Some((Provider::Parakeet, local.parakeet@[local.first_installed_parakeet()->0].id@))
    } else if local.first_installed_speech() is Some {
        Some((Provider::AppleLocal, local.apple_speech@[local.first_installed_speech()->0].id@))
    } else {
        None
    }
}

/// The preferred cleanup model: Groq, OpenAI, Fireworks, Cerebras in that order
/// of preference, then the first available Apple Foundation model.
pub open spec fn smart_llm_spec(state: RemoteVerification, local: LocalModels) -> Option<
    (Provider, Seq<char>),
> {
    if state.groq {
        Some((Provider::Groq, "meta-llama/llama-4-scout-17b-16e-instruct"@))
    } else if state.openai {
        Some((Provider::OpenAi, "gpt-5.4-nano"@))
    } else if state.fireworks {
        Some((Provider::Fireworks, "accounts/fireworks/models/gpt-oss-20b"@))
    } else if state.cerebras {
        Some((Provider::Cerebras, "gpt-oss-120b"@))
    } else if local.first_available_foundation() is Some {
        Some(
            (
                Provider::AppleLocal,
                local.apple_foundation@[local.first_available_foundation()->0].id@,
            ),
        )
    } else {
        None
    }
}

/// A selection of a retired Apple Speech identifier moves to the first
/// installed Apple Speech model, when there is one.
pub open spec fn resolve_legacy_spec(local: LocalModels, sel: (Provider, Seq<char>)) -> (
    Provider,
    Seq<char>,
) {
    if sel.0 == Provider::AppleLocal && local.is_legacy_speech(sel.1)
        && local.first_installed_speech() is Some {
        (Provider::AppleLocal, local.apple_speech@[local.first_installed_speech()->0].id@)
    } else {
        sel
    }
}

pub open spec fn resolve_legacy_opt(local: LocalModels, o: Option<(Provider, Seq<char>)>) -> Option<
    (Provider, Seq<char>),
> {
    match o {
        Some(s) => Some(resolve_legacy_spec(local, s)),
        None => None,
    }
}

/// Each style keeps its fields, but its speech-to-text selection is resolved.
pub open spec fn styles_resolved(local: LocalModels, old: Seq<Style>, new: Seq<Style>) -> bool {
    &&& new.len() == old.len()
    &&& forall|i: int|
        0 <= i < old.len() ==> {
            &&& (#[trigger] new[i]).name == old[i].name
            &&& new[i].apps == old[i].apps
            &&& new[i].prompt == old[i].prompt
            &&& new[i].llm == old[i].llm
            &&& opt_sel_view(new[i].stt) == resolve_legacy_opt(local, opt_sel_view(old[i].stt))
        }
}

/// The speech-to-text selection after the smart defaults.
pub open spec fn defaults_stt_spec(state: RemoteVerification, local: LocalModels, stt: (Provider, Seq<char>)) -> (
    Provider,
    Seq<char>,
) {
    let s = resolve_legacy_spec(local, stt);
    if any_verified_spec(state, local) && !stt_available_spec(state, local, s) && smart_stt_spec(
        state,
        local,
    ) is Some {
        smart_stt_spec(state, local)->0
    } else {
        s
    }
}

/// The cleanup selection after the smart defaults: a disabled one (`None`) stays
/// disabled, one that cannot be used moves to the preferred model (or is disabled).
pub open spec fn defaults_llm_spec(
    state: RemoteVerification,
    local: LocalModels,
    llm: Option<(Provider, Seq<char>)>,
) -> Option<(Provider, Seq<char>)> {
    if any_verified_spec(state, local) && llm is Some && !llm_available_spec(state, local, llm->0) {
        smart_llm_spec(state, local)
    } else {
        llm
    }
}

/// Everything but the dictation selections is the same in both configurations.
pub open spec fn same_except_selections(old: GlideConfig, new: GlideConfig) -> bool {
    &&& new.providers == old.providers
    &&& new.dictionary == old.dictionary
    &&& new.paste == old.paste
    &&& new.dictation.system_prompt == old.dictation.system_prompt
}

fn stt_selection_available(
    selection: &ModelSelection,
    state: &RemoteVerification,
    local: &LocalModels,
) -> (r: bool)
    ensures
        r == stt_available_spec(*state, *local, sel_view(*selection)),
{
    match selection.provider {
        Provider::Cerebras => false,
        Provider::AppleLocal => match local.resolve_apple_speech_model_id(selection.model.as_str()) {
            Some(model_id) => local.apple_speech_installed(model_id.as_str()),
            None => false,
        },
        Provider::Parakeet => local.parakeet_installed_exec(selection.model.as_str()),
        _ => provider_verified(state, local, selection.provider),
    }
}

fn llm_selection_available(
    selection: &ModelSelection,
    state: &RemoteVerification,
    local: &LocalModels,
) -> (r: bool)
    ensures
        r == llm_available_spec(*state, *local, sel_view(*selection)),
{
    match selection.provider {
        Provider::ElevenLabs => false,
        Provider::Parakeet => false,
        Provider::AppleLocal => local.resolve_apple_foundation_model_id(
            selection.model.as_str(),
        ).is_some(),
        _ => provider_verified(state, local, selection.provider),
    }
}

/// The preferred speech-to-text model among those that can be used.
pub fn smart_stt_default(state: &RemoteVerification, local: &LocalModels) -> (r: Option<ModelSelection>)
    ensures
        opt_sel_view(r) == smart_stt_spec(*state, *local),
{
    if state.groq {
        Some(ModelSelection::new(Provider::Groq, "whisper-large-v3-turbo"))
    } else if state.openai {
        Some(ModelSelection::new(Provider::OpenAi, "whisper-1"))
    } else if state.fireworks {
        Some(ModelSelection::new(Provider::Fireworks, "whisper-v3-turbo"))
    } else if state.elevenlabs {
        Some(ModelSelection::new(Provider::ElevenLabs, "scribe_v2"))
    } else if let Some(model) = local.first_installed_parakeet_model() {
        Some(ModelSelection::new(Provider::Parakeet, model.id.as_str()))
    } else if let Some(model) = local.first_installed_apple_speech_model() {
        Some(ModelSelection::new(Provider::AppleLocal, model.id.as_str()))
    } else {
        None
    }
}

/// The preferred cleanup model among those that can be used.
pub fn smart_llm_default(state: &RemoteVerification, local: &LocalModels) -> (r: Option<ModelSelection>)
    ensures
        opt_sel_view(r) == smart_llm_spec(*state, *local),
{
    if state.groq {
        Some(ModelSelection::new(Provider::Groq, "meta-llama/llama-4-scout-17b-16e-instruct"))
    } else if state.openai {
        Some(ModelSelection::new(Provider::OpenAi, "gpt-5.4-nano"))
    } else if state.fireworks {
        Some(ModelSelection::new(Provider::Fireworks, "accounts/fireworks/models/gpt-oss-20b"))
    } else if state.cerebras {
        Some(ModelSelection::new(Provider::Cerebras, "gpt-oss-120b"))
    } else if let Some(model) = local.first_available_apple_foundation_model() {
        Some(ModelSelection::new(Provider::AppleLocal, model.id.as_str()))
    } else {
        None
    }
}

/// The speech-to-text selection with a retired Apple Speech identifier resolved.
fn resolve_legacy_selection(local: &LocalModels, sel: &ModelSelection) -> (r: Option<ModelSelection>)
    ensures
        r is Some ==> sel_view(r->0) == resolve_legacy_spec(*local, sel_view(*sel)),
        r is None ==> resolve_legacy_spec(*local, sel_view(*sel)) == sel_view(*sel),
{
    if sel.provider == Provider::AppleLocal && local.is_legacy_apple_speech_model(sel.model.as_str()) {
        if let Some(model) = local.first_installed_apple_speech_model() {
            return Some(ModelSelection::new(Provider::AppleLocal, model.id.as_str()));
        }
    }
    None
}

/// Moves selections of retired Apple Speech identifiers, in the defaults and in
/// every style, to the first installed Apple Speech model.
fn resolve_legacy_apple_speech_selections(config: &mut GlideConfig, local: &LocalModels)
    ensures
        sel_view(final(config).dictation.stt) == resolve_legacy_spec(
            *local,
            sel_view(old(config).dictation.stt),
        ),
        final(config).dictation.llm == old(config).dictation.llm,
        final(config).dictation.smart_defaults_applied == old(config).dictation.smart_defaults_applied,
        same_except_selections(*old(config), *final(config)),
        styles_resolved(*local, old(config).dictation.styles@, final(config).dictation.styles@),
{
    if let Some(sel) = resolve_legacy_selection(local, &config.dictation.stt) {
        config.dictation.stt = sel;
    }
    let ghost old_styles = config.dictation.styles@;
    let ghost stt_view = sel_view(config.dictation.stt);
    let ghost before = *config;
    let mut i: usize = 0;
    while i < config.dictation.styles.len()
        invariant
            sel_view(config.dictation.stt) == stt_view,
            config.dictation.llm == before.dictation.llm,
            config.dictation.smart_defaults_applied == before.dictation.smart_defaults_applied,
            same_except_selections(before, *config),
            i <= config.dictation.styles@.len(),
            config.dictation.styles@.len() == old_styles.len(),
            forall|k: int|
                i <= k < old_styles.len() ==> (#[trigger] config.dictation.styles@[k]) == old_styles[k],
            forall|k: int|
                0 <= k < i ==> {
                    &&& (#[trigger] config.dictation.styles@[k]).name == old_styles[k].name
                    &&& config.dictation.styles@[k].apps == old_styles[k].apps
                    &&& config.dictation.styles@[k].prompt == old_styles[k].prompt
                    &&& config.dictation.styles@[k].llm == old_styles[k].llm
                    &&& opt_sel_view(config.dictation.styles@[k].stt) == resolve_legacy_opt(
                        *local,
                        opt_sel_view(old_styles[k].stt),
                    )
                },
        decreases old_styles.len() - i,
    {
        let replacement = match &config.dictation.styles[i].stt {
            Some(stt) => resolve_legacy_selection(local, stt),
            None => None,
        };
        if let Some(sel) = replacement {
            let mut style = Style {
                name: String::new(),
                apps: Vec::new(),
                prompt: String::new(),
                stt: None,
                llm: None,
            };
            config.dictation.styles.set_and_swap(i, &mut style);
            style.stt = Some(sel);
            config.dictation.styles.set_and_swap(i, &mut style);
        }
        i = i + 1;
    }
}

/// Replaces selections that cannot be used by the preferred working models,
/// once some provider can be used. A disabled cleanup step stays disabled.
pub fn apply_smart_defaults(config: &mut GlideConfig, state: &RemoteVerification, local: &LocalModels)
    ensures
        sel_view(final(config).dictation.stt) == defaults_stt_spec(
            *state,
            *local,
            sel_view(old(config).dictation.stt),
        ),
        opt_sel_view(final(config).dictation.llm) == defaults_llm_spec(
            *state,
            *local,
            opt_sel_view(old(config).dictation.llm),
        ),
        !any_verified_spec(*state, *local) ==> final(config).dictation.llm == old(
            config,
        ).dictation.llm,
        final(config).dictation.smart_defaults_applied == old(config).dictation.smart_defaults_applied,
        same_except_selections(*old(config), *final(config)),
        styles_resolved(*local, old(config).dictation.styles@, final(config).dictation.styles@),
{
    resolve_legacy_apple_speech_selections(config, local);
    if !any_provider_verified(state, local) {
        return;
    }
    if !stt_selection_available(&config.dictation.stt, state, local) {
        if let Some(smart) = smart_stt_default(state, local) {
            config.dictation.stt = smart;
        }
    }
    let replace_llm = match &config.dictation.llm {
        Some(llm) => !llm_selection_available(llm, state, local),
        None => false,
    };
    if replace_llm {
        config.dictation.llm = smart_llm_default(state, local);
    }
}

/// The smart defaults, and on the first run also a cleanup model when cleanup
/// is disabled; the first run is then recorded, so that a cleanup step that the
/// user disables later stays disabled.
pub fn apply_smart_defaults_initial(
    config: &mut GlideConfig,
    state: &RemoteVerification,
    local: &LocalModels,
)
    ensures
        sel_view(final(config).dictation.stt) == defaults_stt_spec(
            *state,
            *local,
            sel_view(old(config).dictation.stt),
        ),
        old(config).dictation.smart_defaults_applied ==> opt_sel_view(final(config).dictation.llm)
            == defaults_llm_spec(*state, *local, opt_sel_view(old(config).dictation.llm)),
        !old(config).dictation.smart_defaults_applied ==> opt_sel_view(final(config).dictation.llm)
            == if old(config).dictation.llm is None {
            smart_llm_spec(*state, *local)
        } else {
            defaults_llm_spec(*state, *local, opt_sel_view(old(config).dictation.llm))
        },
        final(config).dictation.smart_defaults_applied,
        same_except_selections(*old(config), *final(config)),
        styles_resolved(*local, old(config).dictation.styles@, final(config).dictation.styles@),
{
    if config.dictation.smart_defaults_applied {
        apply_smart_defaults(config, state, local);
        return;
    }
    apply_smart_defaults(config, state, local);
    if config.dictation.llm.is_none() {
        config.dictation.llm = smart_llm_default(state, local);
    }
    config.dictation.smart_defaults_applied = true;
}

proof fn lemma_first_installed_speech(s: Seq<crate::local_models::AppleSpeechModelStatus>, from: int)
    ensures
        crate::local_models::first_installed_speech_from(s, from) matches Some(i) ==> 0 <= i < s.len()
            && s[i].installed,
    decreases s.len() - from,
{
    if 0 <= from < s.len() && !s[from].installed {
        lemma_first_installed_speech(s, from + 1);
    }
}

proof fn lemma_first_installed_parakeet(s: Seq<crate::local_models::ParakeetModelStatus>, from: int)
    ensures
        crate::local_models::first_installed_parakeet_from(s, from) matches Some(i) ==> 0 <= i
            < s.len() && s[i].state.is_installed(),
    decreases s.len() - from,
{
    if 0 <= from < s.len() && !s[from].state.is_installed() {
        lemma_first_installed_parakeet(s, from + 1);
    }
}

proof fn lemma_first_available_foundation(s: Seq<crate::local_models::AppleFoundationModel>, from: int)
    ensures
        crate::local_models::first_available_foundation_from(s, from) matches Some(i) ==> 0 <= i
            < s.len() && s[i].available,
    decreases s.len() - from,
{
    if 0 <= from < s.len() && !s[from].available {
        lemma_first_available_foundation(s, from + 1);
    }
}

/// The preferred speech-to-text model, when there is one, can be used.
pub proof fn law_smart_stt_is_available(state: RemoteVerification, local: LocalModels)
    ensures
        smart_stt_spec(state, local) matches Some(sel) ==> stt_available_spec(state, local, sel),
{
    lemma_first_installed_speech(local.apple_speech@, 0);
    lemma_first_installed_parakeet(local.parakeet@, 0);
    if let Some(i) = local.first_installed_speech() {
        assert(local.apple_speech@[i].id@ == local.apple_speech@[i].id@);
    }
}

/// The preferred cleanup model, when there is one, can be used.
pub proof fn law_smart_llm_is_available(state: RemoteVerification, local: LocalModels)
    ensures
        smart_llm_spec(state, local) matches Some(sel) ==> llm_available_spec(state, local, sel),
{
    lemma_first_available_foundation(local.apple_foundation@, 0);
}

/// Once some provider can be used and some speech-to-text model can be
/// chosen, the smart defaults leave a speech-to-text selection that can be used.
pub proof fn law_defaults_give_usable_stt(
    state: RemoteVerification,
    local: LocalModels,
    stt: (Provider, Seq<char>),
)
    requires
        any_verified_spec(state, local),
        smart_stt_spec(state, local) is Some,
    ensures
        stt_available_spec(state, local, defaults_stt_spec(state, local, stt)),
{
    law_smart_stt_is_available(state, local);
}

/// Applying the smart defaults a second time changes nothing.
pub proof fn law_defaults_idempotent(
    state: RemoteVerification,
    local: LocalModels,
    stt: (Provider, Seq<char>),
    llm: Option<(Provider, Seq<char>)>,
)
    ensures
        defaults_stt_spec(state, local, defaults_stt_spec(state, local, stt)) == defaults_stt_spec(
            state,
            local,
            stt,
        ),
        defaults_llm_spec(state, local, defaults_llm_spec(state, local, llm)) == defaults_llm_spec(
            state,
            local,
            llm,
        ),
{
    law_smart_stt_is_available(state, local);
    law_smart_llm_is_available(state, local);
    lemma_first_installed_speech(local.apple_speech@, 0);
    let s = resolve_legacy_spec(local, stt);
    assert(resolve_legacy_spec(local, s) == s);
    if let Some(sm) = smart_stt_spec(state, local) {
        assert(resolve_legacy_spec(local, sm) == sm);
    }
}

proof fn lemma_speech_found(s: Seq<crate::local_models::AppleSpeechModelStatus>, from: int, i: int)
    requires
        0 <= from <= i < s.len(),
        s[i].installed,
    ensures
        crate::local_models::first_installed_speech_from(s, from) is Some,
        (forall|j: int| from <= j < i ==> !(#[trigger] s[j]).installed)
            ==> crate::local_models::first_installed_speech_from(s, from) == Some(i),
    decreases i - from,
{
    if from < i && !s[from].installed {
        lemma_speech_found(s, from + 1, i);
    }
}

proof fn lemma_parakeet_found(s: Seq<crate::local_models::ParakeetModelStatus>, from: int, i: int)
    requires
        0 <= from <= i < s.len(),
        s[i].state.is_installed(),
    ensures
        crate::local_models::first_installed_parakeet_from(s, from) is Some,
    decreases i - from,
{
    if from < i && !s[from].state.is_installed() {
        lemma_parakeet_found(s, from + 1, i);
    }
}

proof fn lemma_parakeet_none(s: Seq<crate::local_models::ParakeetModelStatus>, from: int)
    requires
        forall|j: int| 0 <= j < s.len() ==> !(#[trigger] s[j]).state.is_installed(),
    ensures
        crate::local_models::first_installed_parakeet_from(s, from) is None,
    decreases s.len() - from,
{
    if 0 <= from < s.len() {
        lemma_parakeet_none(s, from + 1);
    }
}

/// A speech-to-text default is always found when some speech-to-text provider
/// can be used: a verified Groq, OpenAI, Fireworks or ElevenLabs key, an
/// installed Parakeet model, or an installed Apple Speech model.
pub proof fn law_smart_stt_exists(state: RemoteVerification, local: LocalModels)
    ensures
        (state.groq || state.openai || state.fireworks || state.elevenlabs || (exists|i: int|
            0 <= i < local.parakeet@.len() && (#[trigger] local.parakeet@[i]).state.is_installed())
            || (exists|i: int|
            0 <= i < local.apple_speech@.len() && (#[trigger] local.apple_speech@[i]).installed))
            ==> smart_stt_spec(state, local) is Some,
{
    if exists|i: int|
        0 <= i < local.parakeet@.len() && (#[trigger] local.parakeet@[i]).state.is_installed() {
        let i = choose|i: int|
            0 <= i < local.parakeet@.len() && (#[trigger] local.parakeet@[i]).state.is_installed();
        lemma_parakeet_found(local.parakeet@, 0, i);
    }
    if exists|i: int| 0 <= i < local.apple_speech@.len() && (#[trigger] local.apple_speech@[i]).installed {
        let i = choose|i: int|
            0 <= i < local.apple_speech@.len() && (#[trigger] local.apple_speech@[i]).installed;
        lemma_speech_found(local.apple_speech@, 0, i);
    }
}

/// With no remote speech-to-text provider verified and no Parakeet model
/// installed, the speech-to-text default is the first installed Apple Speech
/// model.
pub proof fn law_smart_stt_falls_back_to_apple_speech(state: RemoteVerification, local: LocalModels, i: int)
    requires
        !state.groq && !state.openai && !state.fireworks && !state.elevenlabs,
        forall|j: int| 0 <= j < local.parakeet@.len() ==> !(#[trigger] local.parakeet@[j]).state.is_installed(),
        0 <= i < local.apple_speech@.len(),
        local.apple_speech@[i].installed,
        forall|j: int| 0 <= j < i ==> !(#[trigger] local.apple_speech@[j]).installed,
    ensures
        smart_stt_spec(state, local) == Some((Provider::AppleLocal, local.apple_speech@[i].id@)),
{
    lemma_parakeet_none(local.parakeet@, 0);
    lemma_speech_found(local.apple_speech@, 0, i);
}

} // verus!
