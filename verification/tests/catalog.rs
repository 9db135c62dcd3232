use glide::config::{
    DictationConfig, DictionaryConfig, GlideConfig, ModelSelection, PasteConfig, Provider,
    ProviderCredentials, ProvidersConfig, Style,
};
use glide::local_models::{
    AppleFoundationModel, AppleSpeechModelStatus, LocalModelInstallState, LocalModels,
    ParakeetModelStatus,
};
use glide::model_catalog::catalog::{
    fallback_llm_models, fallback_stt_models, filter_models_by_verified_providers, model_info,
    ModelCache,
};
use glide::model_catalog::fetch::{
    classify_remote_models, endpoint_url, finish_model_fetch, is_whisper_model, ElevenLabsFetch,
    ProviderFetch,
};
use glide::model_catalog::remote::{
    append_elevenlabs_scribe_models, elevenlabs_scribe_display_name, excluded_remote_llm_model,
    ElevenLabsModelsResponseEntry, ModelsResponseEntry,
};
use glide::model_catalog::sort::sort_models;
use glide::model_catalog::verification::{
    any_provider_verified, provider_verified, set_remote_provider_verified, RemoteVerification,
};
use glide::model_catalog::{
    apply_smart_defaults, apply_smart_defaults_initial, cached_llm_models, cached_stt_models,
    smart_llm_default, smart_stt_default, ModelInfo,
};
use glide::ui::helpers::disable_llm_rewrite;

fn no_local() -> LocalModels {
    LocalModels {
        apple_speech: Vec::new(),
        parakeet: Vec::new(),
        apple_foundation: Vec::new(),
        legacy_apple_speech_ids: Vec::new(),
    }
}

fn with_local() -> LocalModels {
    LocalModels {
        apple_speech: vec![
            AppleSpeechModelStatus {
                id: "en-GB".to_string(),
                display_name: "English (UK)".to_string(),
                installed: false,
            },
            AppleSpeechModelStatus {
                id: "en-US".to_string(),
                display_name: "English (US)".to_string(),
                installed: true,
            },
        ],
        parakeet: vec![
            ParakeetModelStatus {
                id: "parakeet-tdt-0.6b-v2".to_string(),
                state: LocalModelInstallState::Downloading { downloaded_bytes: 1, total_bytes: None },
            },
            ParakeetModelStatus {
                id: "parakeet-tdt-0.6b-v3".to_string(),
                state: LocalModelInstallState::Installed { size_bytes: 10 },
            },
        ],
        apple_foundation: vec![AppleFoundationModel {
            id: "apple-foundation".to_string(),
            display_name: "Apple Intelligence".to_string(),
            available: true,
        }],
        legacy_apple_speech_ids: vec!["apple-speech".to_string()],
    }
}

fn creds() -> ProviderCredentials {
    ProviderCredentials { api_key: "k".to_string(), base_url: "https://x".to_string() }
}

fn config(stt: ModelSelection, llm: Option<ModelSelection>, applied: bool) -> GlideConfig {
    GlideConfig {
        providers: ProvidersConfig {
            openai: creds(),
            groq: creds(),
            cerebras: creds(),
            fireworks: creds(),
            elevenlabs: creds(),
        },
        dictation: DictationConfig {
            stt,
            llm,
            system_prompt: "p".to_string(),
            styles: vec![Style {
                name: "s".to_string(),
                apps: vec!["Mail".to_string()],
                prompt: "sp".to_string(),
                stt: Some(ModelSelection { provider: Provider::AppleLocal, model: "apple-speech".to_string() }),
                llm: None,
            }],
            smart_defaults_applied: applied,
        },
        dictionary: DictionaryConfig { vocabulary: Vec::new(), replacements: Vec::new() },
        paste: PasteConfig { restore_clipboard: false, restore_delay_ms: 0 },
    }
}

fn sel(provider: Provider, model: &str) -> ModelSelection {
    ModelSelection { provider, model: model.to_string() }
}

fn ids(models: &[ModelInfo]) -> Vec<String> {
    models.iter().map(|m| m.id.clone()).collect()
}

#[test]
fn fallback_lists_are_unfiltered_while_nothing_is_verified() {
    let state = RemoteVerification::new();
    let stt = fallback_stt_models(&state, &no_local());
    assert_eq!(
        ids(&stt),
        ["whisper-1", "whisper-large-v3", "whisper-large-v3-turbo", "whisper-v3-turbo", "whisper-v3", "scribe_v2", "scribe_v1"]
    );
    assert_eq!(stt[5].display_name, "Scribe v2");
    assert_eq!(stt[0].provider, "OpenAI");
    assert_eq!(fallback_llm_models(&state, &no_local()).len(), 12);
}

#[test]
fn fallback_lists_keep_only_verified_providers() {
    let mut state = RemoteVerification::new();
    set_remote_provider_verified(&mut state, Provider::Groq, true);
    let stt = fallback_stt_models(&state, &with_local());
    assert_eq!(
        ids(&stt),
        ["whisper-large-v3", "whisper-large-v3-turbo", "en-US", "parakeet-tdt-0.6b-v3"]
    );
    assert_eq!(stt[2].display_name, "English (US)");
    assert!(stt[3].installed);
    let llm = fallback_llm_models(&state, &with_local());
    assert_eq!(
        ids(&llm),
        [
            "meta-llama/llama-4-scout-17b-16e-instruct",
            "llama-3.3-70b-versatile",
            "llama-3.1-8b-instant",
            "mixtral-8x7b-32768",
            "apple-foundation",
        ]
    );
}

#[test]
fn filter_drops_unknown_providers_and_uninstalled_local_models() {
    let mut state = RemoteVerification::new();
    set_remote_provider_verified(&mut state, Provider::OpenAi, true);
    let models = vec![
        model_info(Provider::OpenAi, "a", false),
        ModelInfo { id: "b".into(), display_name: "b".into(), provider: "Nobody".into(), logo: String::new(), installed: false },
        model_info(Provider::Parakeet, "c", false),
        model_info(Provider::Groq, "d", false),
    ];
    assert_eq!(ids(&filter_models_by_verified_providers(models, &state, &with_local())), ["a"]);
}

#[test]
fn cache_replaces_fallback_once_filled() {
    let mut state = RemoteVerification::new();
    set_remote_provider_verified(&mut state, Provider::Cerebras, true);
    let mut cache = ModelCache::new();
    cache.llm.push(model_info(Provider::Cerebras, "zz-model", false));
    let llm = cached_llm_models(&cache, &state, &no_local());
    assert_eq!(ids(&llm), ["zz-model"]);
    let stt = cached_stt_models(&cache, &state, &no_local());
    assert!(stt.is_empty());
}

#[test]
fn verification_read_after_write() {
    let mut state = RemoteVerification::new();
    let local = no_local();
    assert!(!any_provider_verified(&state, &local));
    set_remote_provider_verified(&mut state, Provider::Fireworks, true);
    assert!(provider_verified(&state, &local, Provider::Fireworks));
    assert!(!provider_verified(&state, &local, Provider::Groq));
    set_remote_provider_verified(&mut state, Provider::Fireworks, false);
    assert!(!provider_verified(&state, &local, Provider::Fireworks));
    set_remote_provider_verified(&mut state, Provider::Parakeet, true);
    assert!(!provider_verified(&state, &local, Provider::Parakeet));
    assert!(provider_verified(&state, &with_local(), Provider::Parakeet));
    assert!(any_provider_verified(&state, &with_local()));
}

#[test]
fn smart_defaults_follow_preference_order() {
    let mut state = RemoteVerification::new();
    assert!(smart_stt_default(&state, &no_local()).is_none());
    let local = smart_stt_default(&state, &with_local()).unwrap();
    assert_eq!((local.provider, local.model.as_str()), (Provider::Parakeet, "parakeet-tdt-0.6b-v3"));
    set_remote_provider_verified(&mut state, Provider::ElevenLabs, true);
    set_remote_provider_verified(&mut state, Provider::OpenAi, true);
    let s = smart_stt_default(&state, &no_local()).unwrap();
    assert_eq!((s.provider, s.model.as_str()), (Provider::OpenAi, "whisper-1"));
    let l = smart_llm_default(&state, &no_local()).unwrap();
    assert_eq!((l.provider, l.model.as_str()), (Provider::OpenAi, "gpt-5.4-nano"));
    set_remote_provider_verified(&mut state, Provider::Groq, true);
    let l = smart_llm_default(&state, &no_local()).unwrap();
    assert_eq!(l.model, "meta-llama/llama-4-scout-17b-16e-instruct");
}

#[test]
fn apply_smart_defaults_repairs_unusable_selections() {
    let mut state = RemoteVerification::new();
    set_remote_provider_verified(&mut state, Provider::Groq, true);
    let mut c = config(sel(Provider::OpenAi, "whisper-1"), Some(sel(Provider::Cerebras, "gpt-oss-120b")), true);
    apply_smart_defaults(&mut c, &state, &with_local());
    assert_eq!(c.dictation.stt.provider, Provider::Groq);
    assert_eq!(c.dictation.stt.model, "whisper-large-v3-turbo");
    assert_eq!(c.dictation.llm.as_ref().unwrap().model, "meta-llama/llama-4-scout-17b-16e-instruct");
    let style_stt = c.dictation.styles[0].stt.as_ref().unwrap();
    assert_eq!(style_stt.model, "en-US");
}

#[test]
fn apply_smart_defaults_waits_for_a_usable_provider() {
    let state = RemoteVerification::new();
    let mut c = config(sel(Provider::OpenAi, "whisper-1"), None, false);
    apply_smart_defaults(&mut c, &state, &no_local());
    assert_eq!(c.dictation.stt.model, "whisper-1");
    assert!(c.dictation.llm.is_none());
}

#[test]
fn initial_defaults_enable_cleanup_once() {
    let mut state = RemoteVerification::new();
    set_remote_provider_verified(&mut state, Provider::Groq, true);
    let mut c = config(sel(Provider::Groq, "whisper-large-v3"), None, false);
    apply_smart_defaults_initial(&mut c, &state, &no_local());
    assert!(c.dictation.smart_defaults_applied);
    assert_eq!(c.dictation.llm.as_ref().unwrap().provider, Provider::Groq);
    assert_eq!(c.dictation.stt.model, "whisper-large-v3");

    disable_llm_rewrite(&mut c);
    apply_smart_defaults_initial(&mut c, &state, &no_local());
    assert!(c.dictation.llm.is_none());
}

#[test]
fn applying_defaults_twice_changes_nothing_more() {
    let mut state = RemoteVerification::new();
    set_remote_provider_verified(&mut state, Provider::Fireworks, true);
    let mut c = config(sel(Provider::Cerebras, "x"), Some(sel(Provider::ElevenLabs, "y")), true);
    apply_smart_defaults(&mut c, &state, &with_local());
    let once = (c.dictation.stt.model.clone(), c.dictation.llm.clone().map(|l| l.model));
    apply_smart_defaults(&mut c, &state, &with_local());
    let twice = (c.dictation.stt.model.clone(), c.dictation.llm.clone().map(|l| l.model));
    assert_eq!(once, twice);
    assert_eq!(once.0, "whisper-v3-turbo");
}

#[test]
fn excluded_models_are_not_cleanup_models() {
    assert!(excluded_remote_llm_model(Provider::Groq, "text-embedding-3"));
    assert!(excluded_remote_llm_model(Provider::Groq, "ft:gpt-4o"));
    assert!(excluded_remote_llm_model(Provider::Groq, "playai-tts"));
    assert!(excluded_remote_llm_model(Provider::OpenAi, "sora-2"));
    assert!(excluded_remote_llm_model(Provider::OpenAi, "gpt-image-1"));
    assert!(!excluded_remote_llm_model(Provider::Groq, "sora-2"));
    assert!(!excluded_remote_llm_model(Provider::OpenAi, "gpt-4o"));
}

#[test]
fn elevenlabs_scribe_models_are_always_offered() {
    assert_eq!(elevenlabs_scribe_display_name("scribe_v1"), Some("Scribe v1"));
    assert_eq!(elevenlabs_scribe_display_name("eleven_v3"), None);
    let mut stt = Vec::new();
    append_elevenlabs_scribe_models(
        &mut stt,
        vec![
            ElevenLabsModelsResponseEntry { model_id: "eleven_v3".into(), name: Some("TTS".into()) },
            ElevenLabsModelsResponseEntry { model_id: "scribe_v1".into(), name: Some("Scribe One".into()) },
        ],
    );
    assert_eq!(ids(&stt), ["scribe_v1", "scribe_v2"]);
    assert_eq!(stt[0].display_name, "Scribe One");
    assert_eq!(stt[1].display_name, "Scribe v2");
}

#[test]
fn remote_lists_are_split_into_stt_and_cleanup() {
    let entries = vec![
        ModelsResponseEntry { id: "Whisper-Large-v3".into(), active: None },
        ModelsResponseEntry { id: "llama-3.3-70b".into(), active: Some(true) },
        ModelsResponseEntry { id: "old-model".into(), active: Some(false) },
        ModelsResponseEntry { id: "text-embedding".into(), active: None },
    ];
    let (mut stt, mut llm) = (Vec::new(), Vec::new());
    classify_remote_models(Provider::Groq, &entries, &mut stt, &mut llm);
    assert_eq!(ids(&stt), ["Whisper-Large-v3"]);
    assert_eq!(ids(&llm), ["llama-3.3-70b"]);

    let (mut stt, mut llm) = (Vec::new(), Vec::new());
    classify_remote_models(Provider::Cerebras, &entries, &mut stt, &mut llm);
    assert!(stt.is_empty());

    let fw = vec![ModelsResponseEntry { id: "accounts/fireworks/models/gpt-oss-20b".into(), active: None }];
    let (mut stt, mut llm) = (Vec::new(), Vec::new());
    classify_remote_models(Provider::Fireworks, &fw, &mut stt, &mut llm);
    assert_eq!(ids(&stt), ["whisper-v3-turbo", "whisper-v3"]);
    assert_eq!(
        ids(&llm),
        ["accounts/fireworks/models/gpt-oss-20b", "accounts/fireworks/models/gpt-oss-120b"]
    );
}

#[test]
fn finished_fetch_sorts_records_and_keeps_last_good_lists() {
    let mut cache = ModelCache::new();
    cache.stt.push(model_info(Provider::OpenAi, "kept", false));
    let mut state = RemoteVerification::new();
    let fetches = vec![
        (
            Provider::OpenAi,
            ProviderFetch::Listed(vec![
                ModelsResponseEntry { id: "gpt-4o".into(), active: None },
                ModelsResponseEntry { id: "gpt-4".into(), active: None },
            ]),
        ),
        (Provider::Groq, ProviderFetch::Failed),
        (Provider::Cerebras, ProviderFetch::Listed(vec![ModelsResponseEntry { id: "a".into(), active: None }])),
    ];
    finish_model_fetch(&mut cache, &mut state, &fetches, Some(ElevenLabsFetch::Failed));
    assert!(state.openai && state.cerebras && !state.groq && !state.elevenlabs);
    assert_eq!(ids(&cache.stt), ["kept"]);
    assert_eq!(ids(&cache.llm), ["a", "gpt-4", "gpt-4o"]);
    assert_eq!(cache.llm[0].provider, "Cerebras");

    finish_model_fetch(&mut cache, &mut state, &Vec::new(), Some(ElevenLabsFetch::KeyVerified));
    assert!(state.elevenlabs);
    assert_eq!(ids(&cache.stt), ["scribe_v1", "scribe_v2"]);
}

#[test]
fn sort_is_stable_and_ordered() {
    let v = vec![
        model_info(Provider::OpenAi, "b", false),
        model_info(Provider::Groq, "z", false),
        model_info(Provider::OpenAi, "a", false),
        model_info(Provider::Groq, "z", true),
    ];
    let s = sort_models(&v);
    assert_eq!(ids(&s), ["z", "z", "a", "b"]);
    assert!(!s[0].installed && s[1].installed);
}

#[test]
fn endpoint_urls_drop_trailing_slashes() {
    assert_eq!(endpoint_url("https://api.groq.com/openai/v1//", "/models"), "https://api.groq.com/openai/v1/models");
    assert_eq!(endpoint_url("https://x", "/user"), "https://x/user");
}

#[test]
fn whisper_models_are_recognised_by_lowercase_id() {
    assert!(is_whisper_model("whisper-large-v3-turbo"));
    assert!(is_whisper_model("distil-whisper-large-v3-en"));
    assert!(!is_whisper_model("llama-3.3-70b-versatile"));
}
