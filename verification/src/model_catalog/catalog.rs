//! The lists of models offered for speech-to-text and for cleanup, built from
//! the last fetch of each provider's model list, the local models and a
//! built-in fallback list, and narrowed to providers that can be used.
use vstd::prelude::*;

use crate::config::Provider;
use crate::local_models::{
    AppleFoundationModel, AppleSpeechModelStatus, LocalModelInstallState, LocalModels,
    ParakeetModelStatus,
};
use crate::model_catalog::types::{extend_infos, info_view, views, ModelInfo, ModelInfoView};
use crate::model_catalog::verification::{
    any_remote_provider_verified, any_verified_spec, provider_verified, verified_spec,
    RemoteVerification,
};

verus! {

/// The model lists fetched from the remote providers, empty until a fetch
/// returned models.
#[derive(Debug, Clone)]
pub struct ModelCache {
    pub stt: Vec<ModelInfo>,
    pub llm: Vec<ModelInfo>,
}

impl ModelCache {
    /// Nothing fetched yet.
    pub fn new() -> (r: ModelCache)
        ensures
            r.stt@.len() == 0,
            r.llm@.len() == 0,
    {
        ModelCache { stt: Vec::new(), llm: Vec::new() }
    }
}

/// Installed Apple Speech models, as catalog entries.
pub open spec fn speech_infos(s: Seq<AppleSpeechModelStatus>) -> Seq<ModelInfoView>
    decreases s.len(),
{
    if s.len() == 0 {
        seq![]
    } else {
        let l = s.last();
        speech_infos(s.drop_last()) + if l.installed {
            seq![info_view(Provider::AppleLocal, l.id@, l.display_name@, true)]
        } else {
            seq![]
        }
    }
}

/// Installed Parakeet models, as catalog entries.
pub open spec fn parakeet_infos(s: Seq<ParakeetModelStatus>) -> Seq<ModelInfoView>
    decreases s.len(),
{
    if s.len() == 0 {
        seq![]
    } else {
        let l = s.last();
        parakeet_infos(s.drop_last()) + if l.state.is_installed() {
            seq![info_view(Provider::Parakeet, l.id@, l.id@, true)]
        } else {
            seq![]
        }
    }
}

/// Available Apple Foundation models, as catalog entries.
pub open spec fn foundation_infos(s: Seq<AppleFoundationModel>) -> Seq<ModelInfoView>
    decreases s.len(),
{
    if s.len() == 0 {
        seq![]
    } else {
        let l = s.last();
        foundation_infos(s.drop_last()) + if l.available {
            seq![info_view(Provider::AppleLocal, l.id@, l.display_name@, true)]
        } else {
            seq![]
        }
    }
}

/// The speech-to-text models offered when no list was fetched.
pub open spec fn base_stt_views() -> Seq<ModelInfoView> {
    seq![
        info_view(Provider::OpenAi, "whisper-1"@, "whisper-1"@, false),
        info_view(Provider::Groq, "whisper-large-v3"@, "whisper-large-v3"@, false),
        info_view(Provider::Groq, "whisper-large-v3-turbo"@, "whisper-large-v3-turbo"@, false),
        info_view(Provider::Fireworks, "whisper-v3-turbo"@, "whisper-v3-turbo"@, false),
        info_view(Provider::Fireworks, "whisper-v3"@, "whisper-v3"@, false),
        info_view(Provider::ElevenLabs, "scribe_v2"@, "Scribe v2"@, false),
        info_view(Provider::ElevenLabs, "scribe_v1"@, "Scribe v1"@, false),
    ]
}

/// The cleanup models offered when no list was fetched.
pub open spec fn base_llm_views() -> Seq<ModelInfoView> {
    seq![
        info_view(Provider::OpenAi, "gpt-5.4-nano"@, "gpt-5.4-nano"@, false),
        info_view(Provider::OpenAi, "gpt-4o-mini"@, "gpt-4o-mini"@, false),
        info_view(Provider::OpenAi, "gpt-4o"@, "gpt-4o"@, false),
        info_view(Provider::OpenAi, "gpt-4-turbo"@, "gpt-4-turbo"@, false),
        info_view(
            Provider::Groq,
            "meta-llama/llama-4-scout-17b-16e-instruct"@,
            "meta-llama/llama-4-scout-17b-16e-instruct"@,
            false,
        ),
        info_view(Provider::Groq, "llama-3.3-70b-versatile"@, "llama-3.3-70b-versatile"@, false),
        info_view(Provider::Groq, "llama-3.1-8b-instant"@, "llama-3.1-8b-instant"@, false),
        info_view(Provider::Groq, "mixtral-8x7b-32768"@, "mixtral-8x7b-32768"@, false),
        info_view(
            Provider::Fireworks,
            "accounts/fireworks/models/gpt-oss-20b"@,
            "accounts/fireworks/models/gpt-oss-20b"@,
            false,
        ),
        info_view(
            Provider::Fireworks,
            "accounts/fireworks/models/gpt-oss-120b"@,
            "accounts/fireworks/models/gpt-oss-120b"@,
            false,
        ),
        info_view(Provider::Cerebras, "gpt-oss-120b"@, "gpt-oss-120b"@, false),
        info_view(
            Provider::Cerebras,
            "llama-4-scout-17b-16e-instruct"@,
            "llama-4-scout-17b-16e-instruct"@,
            false,
        ),
    ]
}

/// A model stays listed when its provider can be used; a local model also
/// has to be installed. Entries of unknown providers are dropped.
pub open spec fn keep_model(state: RemoteVerification, local: LocalModels, m: ModelInfoView) -> bool {
    match Provider::from_label(m.provider) {
        Some(p) => if p.is_local_spec() {
            m.installed && verified_spec(state, local, p)
        } else {
            verified_spec(state, local, p)
        },
        None => false,
    }
}

/// The models offered: all of them while no provider can be used (so that the
/// lists are not empty on first launch), else those that `keep_model` keeps.
pub open spec fn filter_spec(
    state: RemoteVerification,
    local: LocalModels,
    models: Seq<ModelInfoView>,
) -> Seq<ModelInfoView> {
    if !state.any_spec() && !verified_spec(state, local, Provider::AppleLocal) && !verified_spec(
        state,
        local,
        Provider::Parakeet,
    ) {
        models
    } else {
        models.filter(|m: ModelInfoView| keep_model(state, local, m))
    }
}

/// The local speech-to-text models.
pub open spec fn local_stt_spec(local: LocalModels) -> Seq<ModelInfoView> {
    speech_infos(local.apple_speech@) + parakeet_infos(local.parakeet@)
}

/// The speech-to-text models offered when no list was fetched.
pub open spec fn fallback_stt_spec(state: RemoteVerification, local: LocalModels) -> Seq<ModelInfoView> {
    filter_spec(state, local, base_stt_views() + local_stt_spec(local))
}

/// The cleanup models offered when no list was fetched.
pub open spec fn fallback_llm_spec(state: RemoteVerification, local: LocalModels) -> Seq<ModelInfoView> {
    filter_spec(state, local, base_llm_views() + foundation_infos(local.apple_foundation@))
}

/// The entry for model `id` of `provider`, shown under its identifier.
pub fn model_info(provider: Provider, id: &str, installed: bool) -> (r: ModelInfo)
    ensures
        r@ == info_view(provider, id@, id@, installed),
{
    model_info_with_display(provider, id, id, installed)
}

/// The entry for model `id` of `provider`, shown as `display_name`.
pub fn model_info_with_display(provider: Provider, id: &str, display_name: &str, installed: bool) -> (r: ModelInfo)
    ensures
        r@ == info_view(provider, id@, display_name@, installed),
{
    ModelInfo {
        id: id.to_owned(),
        display_name: display_name.to_owned(),
        provider: provider.label().to_owned(),
        logo: provider.logo().to_owned(),
        installed,
    }
}

/// The installed Apple Speech models.
pub fn apple_speech_model_infos(local: &LocalModels) -> (r: Vec<ModelInfo>)
    ensures
        views(r@) == speech_infos(local.apple_speech@),
{
    let s = &local.apple_speech;
    let mut r: Vec<ModelInfo> = Vec::new();
    let mut i: usize = 0;
    while i < s.len()
        invariant
            i <= s@.len(),
            views(r@) == speech_infos(s@.take(i as int)),
        decreases s.len() - i,
    {
        let ghost prev = r@;
        if s[i].installed {
            let m = model_info_with_display(
                Provider::AppleLocal,
                s[i].id.as_str(),
                s[i].display_name.as_str(),
                true,
            );
            r.push(m);
            assert(views(r@) =~= views(prev).push(m@));
        }
        assert(s@.take(i + 1).drop_last() =~= s@.take(i as int));
        i = i + 1;
        assert(views(r@) =~= speech_infos(s@.take(i as int)));
    }
    assert(s@.take(s@.len() as int) =~= s@);
    r
}

/// The installed Parakeet models.
pub fn parakeet_model_infos(local: &LocalModels) -> (r: Vec<ModelInfo>)
    ensures
        views(r@) == parakeet_infos(local.parakeet@),
{
    let s = &local.parakeet;
    let mut r: Vec<ModelInfo> = Vec::new();
    let mut i: usize = 0;
    while i < s.len()
        invariant
            i <= s@.len(),
            views(r@) == parakeet_infos(s@.take(i as int)),
        decreases s.len() - i,
    {
        let ghost prev = r@;
        if matches!(s[i].state, LocalModelInstallState::Installed { .. }) {
            let m = model_info(Provider::Parakeet, s[i].id.as_str(), true);
            r.push(m);
            assert(views(r@) =~= views(prev).push(m@));
        }
        assert(s@.take(i + 1).drop_last() =~= s@.take(i as int));
        i = i + 1;
        assert(views(r@) =~= parakeet_infos(s@.take(i as int)));
    }
    assert(s@.take(s@.len() as int) =~= s@);
    r
}

/// The available Apple Foundation models.
pub fn apple_foundation_model_infos(local: &LocalModels) -> (r: Vec<ModelInfo>)
    ensures
        views(r@) == foundation_infos(local.apple_foundation@),
{
    let s = &local.apple_foundation;
    let mut r: Vec<ModelInfo> = Vec::new();
    let mut i: usize = 0;
    while i < s.len()
        invariant
            i <= s@.len(),
            views(r@) == foundation_infos(s@.take(i as int)),
        decreases s.len() - i,
    {
        let ghost prev = r@;
        if s[i].available {
            let m = model_info_with_display(
                Provider::AppleLocal,
                s[i].id.as_str(),
                s[i].display_name.as_str(),
                true,
            );
            r.push(m);
            assert(views(r@) =~= views(prev).push(m@));
        }
        assert(s@.take(i + 1).drop_last() =~= s@.take(i as int));
        i = i + 1;
        assert(views(r@) =~= foundation_infos(s@.take(i as int)));
    }
    assert(s@.take(s@.len() as int) =~= s@);
    r
}

/// The local speech-to-text models: Apple Speech, then Parakeet.
pub fn local_stt_models(local: &LocalModels) -> (r: Vec<ModelInfo>)
    ensures
        views(r@) == local_stt_spec(*local),
{
    let mut r = apple_speech_model_infos(local);
    let p = parakeet_model_infos(local);
    extend_infos(&mut r, &p);
    r
}

/// The local cleanup models.
pub fn local_llm_models(local: &LocalModels) -> (r: Vec<ModelInfo>)
    ensures
        views(r@) == foundation_infos(local.apple_foundation@),
{
    apple_foundation_model_infos(local)
}

/// `keep_model`, computed.
fn keep_model_exec(state: &RemoteVerification, local: &LocalModels, m: &ModelInfo) -> (r: bool)
    ensures
        r == keep_model(*state, *local, m@),
{
    match Provider::from_model_info_provider(m.provider.as_str()) {
        Some(provider) => if provider.is_local() {
            m.installed && provider_verified(state, local, provider)
        } else {
            provider_verified(state, local, provider)
        },
        None => false,
    }
}

proof fn lemma_filter_take_step<A>(s: Seq<A>, i: int, pred: spec_fn(A) -> bool)
    requires
        0 <= i < s.len(),
    ensures
        s.take(i + 1).filter(pred) == if pred(s[i]) {
            s.take(i).filter(pred).push(s[i])
        } else {
            s.take(i).filter(pred)
        },
{
    reveal(Seq::filter);
    assert(s.take(i + 1).drop_last() =~= s.take(i));
}

/// Narrows `models` to what `filter_spec` keeps.
pub fn filter_models_by_verified_providers(
    models: Vec<ModelInfo>,
    state: &RemoteVerification,
    local: &LocalModels,
) -> (r: Vec<ModelInfo>)
    ensures
        views(r@) == filter_spec(*state, *local, views(models@)),
{
    if !any_remote_provider_verified(state) && !provider_verified(state, local, Provider::AppleLocal)
        && !provider_verified(state, local, Provider::Parakeet) {
        return models;
    }
    let ghost pred = |m: ModelInfoView| keep_model(*state, *local, m);
    let ghost vs = views(models@);
    let mut r: Vec<ModelInfo> = Vec::new();
    let mut i: usize = 0;
    assert(vs.take(0).filter(pred) =~= Seq::<ModelInfoView>::empty()) by {
        reveal(Seq::filter);
    }
    while i < models.len()
        invariant
            i <= models@.len(),
            vs == views(models@),
            pred == (|m: ModelInfoView| keep_model(*state, *local, m)),
            views(r@) == vs.take(i as int).filter(pred),
        decreases models.len() - i,
    {
        proof {
            lemma_filter_take_step(vs, i as int, pred);
        }
        let ghost prev = r@;
        if keep_model_exec(state, local, &models[i]) {
            let m = models[i].copy();
            r.push(m);
            assert(views(r@) =~= views(prev).push(m@));
        }
        i = i + 1;
    }
    assert(vs.take(vs.len() as int) =~= vs);
    r
}

/// The speech-to-text models offered when no list was fetched.
pub fn fallback_stt_models(state: &RemoteVerification, local: &LocalModels) -> (r: Vec<ModelInfo>)
    ensures
        views(r@) == fallback_stt_spec(*state, *local),
{
    let mut all: Vec<ModelInfo> = Vec::new();
    all.push(model_info(Provider::OpenAi, "whisper-1", false));
    all.push(model_info(Provider::Groq, "whisper-large-v3", false));
    all.push(model_info(Provider::Groq, "whisper-large-v3-turbo", false));
    all.push(model_info(Provider::Fireworks, "whisper-v3-turbo", false));
    all.push(model_info(Provider::Fireworks, "whisper-v3", false));
    all.push(model_info_with_display(Provider::ElevenLabs, "scribe_v2", "Scribe v2", false));
    all.push(model_info_with_display(Provider::ElevenLabs, "scribe_v1", "Scribe v1", false));
    assert(views(all@) =~= base_stt_views());
    let speech = apple_speech_model_infos(local);
    extend_infos(&mut all, &speech);
    let parakeet = parakeet_model_infos(local);
    extend_infos(&mut all, &parakeet);
    assert(views(all@) =~= base_stt_views() + local_stt_spec(*local));
    filter_models_by_verified_providers(all, state, local)
}

/// The cleanup models offered when no list was fetched.
pub fn fallback_llm_models(state: &RemoteVerification, local: &LocalModels) -> (r: Vec<ModelInfo>)
    ensures
        views(r@) == fallback_llm_spec(*state, *local),
{
    let mut all: Vec<ModelInfo> = Vec::new();
    all.push(model_info(Provider::OpenAi, "gpt-5.4-nano", false));
    all.push(model_info(Provider::OpenAi, "gpt-4o-mini", false));
    all.push(model_info(Provider::OpenAi, "gpt-4o", false));
    all.push(model_info(Provider::OpenAi, "gpt-4-turbo", false));
    all.push(model_info(Provider::Groq, "meta-llama/llama-4-scout-17b-16e-instruct", false));
    all.push(model_info(Provider::Groq, "llama-3.3-70b-versatile", false));
    all.push(model_info(Provider::Groq, "llama-3.1-8b-instant", false));
    all.push(model_info(Provider::Groq, "mixtral-8x7b-32768", false));
    all.push(model_info(Provider::Fireworks, "accounts/fireworks/models/gpt-oss-20b", false));
    all.push(model_info(Provider::Fireworks, "accounts/fireworks/models/gpt-oss-120b", false));
    all.push(model_info(Provider::Cerebras, "gpt-oss-120b", false));
    all.push(model_info(Provider::Cerebras, "llama-4-scout-17b-16e-instruct", false));
    assert(views(all@) =~= base_llm_views());
    let foundation = apple_foundation_model_infos(local);
    extend_infos(&mut all, &foundation);
    filter_models_by_verified_providers(all, state, local)
}

/// The speech-to-text models to offer: the fallback list while nothing was
/// fetched, else the fetched list followed by the local models, narrowed to
/// usable providers.
pub fn cached_stt_models(cache: &ModelCache, state: &RemoteVerification, local: &LocalModels) -> (r: Vec<ModelInfo>)
    ensures
        cache.stt@.len() == 0 ==> views(r@) == fallback_stt_spec(*state, *local),
        cache.stt@.len() > 0 ==> views(r@) == filter_spec(
            *state,
            *local,
            views(cache.stt@) + local_stt_spec(*local),
        ),
{
    if cache.stt.len() == 0 {
        fallback_stt_models(state, local)
    } else {
        let mut models: Vec<ModelInfo> = Vec::new();
        extend_infos(&mut models, &cache.stt);
        let local_models = local_stt_models(local);
        extend_infos(&mut models, &local_models);
        assert(views(models@) =~= views(cache.stt@) + local_stt_spec(*local));
        filter_models_by_verified_providers(models, state, local)
    }
}

/// The cleanup models to offer: the fallback list while nothing was fetched,
/// else the fetched list followed by the local models, narrowed to usable
/// providers.
pub fn cached_llm_models(cache: &ModelCache, state: &RemoteVerification, local: &LocalModels) -> (r: Vec<ModelInfo>)
    ensures
        cache.llm@.len() == 0 ==> views(r@) == fallback_llm_spec(*state, *local),
        cache.llm@.len() > 0 ==> views(r@) == filter_spec(
            *state,
            *local,
            views(cache.llm@) + foundation_infos(local.apple_foundation@),
        ),
{
    if cache.llm.len() == 0 {
        fallback_llm_models(state, local)
    } else {
        let mut models: Vec<ModelInfo> = Vec::new();
        extend_infos(&mut models, &cache.llm);
        let local_models = local_llm_models(local);
        extend_infos(&mut models, &local_models);
        assert(views(models@) =~= views(cache.llm@) + foundation_infos(local.apple_foundation@));
        filter_models_by_verified_providers(models, state, local)
    }
}

/// The label names a remote provider that can be used.
pub open spec fn usable_remote_label(state: RemoteVerification, local: LocalModels, label: Seq<char>) -> bool {
    match Provider::from_label(label) {
        Some(p) => !p.is_local_spec() && verified_spec(state, local, p),
        None => false,
    }
}

/// While no provider can be used, every model is offered; once some provider
/// (remote or local) can be used, every offered model belongs to a provider
/// that can be used, a local model only when it is installed, and every model
/// of a usable remote provider is offered.
pub proof fn law_offered_models_are_usable(
    state: RemoteVerification,
    local: LocalModels,
    models: Seq<ModelInfoView>,
)
    ensures
        !any_verified_spec(state, local) ==> filter_spec(state, local, models) == models,
        any_verified_spec(state, local) ==> forall|i: int|
            0 <= i < filter_spec(state, local, models).len() ==> {
                let m = #[trigger] filter_spec(state, local, models)[i];
                &&& Provider::from_label(m.provider) is Some
                &&& verified_spec(state, local, Provider::from_label(m.provider)->0)
                &&& Provider::from_label(m.provider)->0.is_local_spec() ==> m.installed
            },
        any_verified_spec(state, local) ==> forall|i: int|
            0 <= i < models.len() && usable_remote_label(state, local, #[trigger] models[i].provider)
                ==> filter_spec(state, local, models).contains(models[i]),
{
    let pred = |m: ModelInfoView| keep_model(state, local, m);
    if any_verified_spec(state, local) {
        assert(filter_spec(state, local, models) == models.filter(pred));
        assert forall|i: int| 0 <= i < models.filter(pred).len() implies keep_model(
            state,
            local,
            #[trigger] models.filter(pred)[i],
        ) by {
            models.lemma_filter_pred(pred, i);
        }
        assert forall|i: int|
            0 <= i < models.len() && usable_remote_label(state, local, #[trigger] models[i].provider)
                implies models.filter(pred).contains(models[i]) by {
            assert(pred(models[i]));
            models.lemma_filter_contains(pred, i);
        }
    }
}

} // verus!
