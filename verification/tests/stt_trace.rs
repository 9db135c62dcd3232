use glide::stt::{auth_header_for, clean_transcription, prompt_field, AuthHeader};
use glide::config::{Provider, ProviderCredentials, ProvidersConfig};
use glide::local_models::{AppleSpeechModelStatus, LocalModels};
use glide::stt::apple::{parse_vocabulary, AppleSpeechProvider};
use glide::stt::{build_provider, stt_request_model, SttError, SttProvider};
use glide::trace::{attrs, event_kind, trace_enabled, trace_path};

fn local() -> LocalModels {
    LocalModels {
        apple_speech: vec![AppleSpeechModelStatus {
            id: "en-US".to_string(),
            display_name: "English".to_string(),
            installed: true,
        }],
        parakeet: Vec::new(),
        apple_foundation: Vec::new(),
        legacy_apple_speech_ids: Vec::new(),
    }
}

#[test]
fn vocabulary_is_split_trimmed_and_capped() {
    assert_eq!(parse_vocabulary(" Glide , ,Verus,  "), ["Glide", "Verus"]);
    assert!(parse_vocabulary("").is_empty());
    let many = (0..150).map(|i| format!("w{i}")).collect::<Vec<_>>().join(",");
    let terms = parse_vocabulary(&many);
    assert_eq!(terms.len(), 100);
    assert_eq!(terms[99], "w99");
}

#[test]
fn apple_speech_provider_needs_a_known_model() {
    let p = AppleSpeechProvider::new("en-US", Some("a, b".to_string()), &local()).unwrap();
    assert_eq!(p.model_id, "en-US");
    assert_eq!(p.vocabulary, ["a", "b"]);
    assert_eq!(p.name(), "Apple Speech");
    let err = AppleSpeechProvider::new("fr-FR", None, &local()).unwrap_err();
    assert_eq!(err, SttError::AppleSpeechModelNotInstalled("fr-FR".to_string()));
}

fn providers(groq_key: &str) -> ProvidersConfig {
    let creds = |key: &str, url: &str| ProviderCredentials {
        api_key: key.to_string(),
        base_url: url.to_string(),
    };
    ProvidersConfig {
        openai: creds("", "https://api.openai.com/v1"),
        groq: creds(groq_key, "https://api.groq.com/openai/v1"),
        cerebras: creds("c", "https://api.cerebras.ai/v1"),
        fireworks: creds("", "https://api.fireworks.ai/inference/v1"),
        elevenlabs: creds("", "https://api.elevenlabs.io"),
    }
}

#[test]
fn stt_backend_selection() {
    let config = providers("  gsk-123 ");
    let q = build_provider(Provider::Groq, "whisper-large-v3", &config, Some("x".to_string())).unwrap();
    assert_eq!(q.model, "whisper-large-v3");
    assert_eq!(q.prompt.as_deref(), Some("x"));
    assert_eq!(q.api_key, "gsk-123");
    assert_eq!(q.base_url, "https://api.groq.com/openai/v1");
    assert_eq!(q.name(), "STT Provider");
    assert_eq!(
        build_provider(Provider::Cerebras, "m", &config, None).unwrap_err(),
        SttError::UnsupportedProvider(Provider::Cerebras)
    );
    assert_eq!(
        build_provider(Provider::OpenAi, "whisper-1", &config, None).unwrap_err(),
        SttError::MissingApiKey(Provider::OpenAi)
    );
    assert_eq!(
        build_provider(Provider::Groq, "whisper-1", &providers(" \t"), None).unwrap_err(),
        SttError::MissingApiKey(Provider::Groq)
    );
    assert_eq!(stt_request_model(Provider::Fireworks, "accounts/fireworks/models/whisper-v3"), "whisper-v3");
    assert_eq!(stt_request_model(Provider::OpenAi, "a/b"), "a/b");
}

#[test]
fn trace_switch_and_path() {
    assert!(trace_enabled(true, None));
    assert!(trace_enabled(false, Some("1")));
    assert!(!trace_enabled(false, Some("0")));
    assert!(!trace_enabled(false, Some("FaLsE")));
    assert!(!trace_enabled(false, None));
    assert_eq!(trace_path(None), "/tmp/glide-trace.jsonl");
    assert_eq!(trace_path(Some("/x".to_string())), "/x");
    assert_eq!(event_kind(true), "span");
    assert_eq!(event_kind(false), "instant");
}

#[test]
fn attrs_are_ordered_and_later_pairs_win() {
    let a = attrs(vec![
        ("provider", "Groq".to_string()),
        ("model", "m1".to_string()),
        ("provider", "OpenAI".to_string()),
    ]);
    assert_eq!(
        a,
        vec![
            ("model".to_string(), "m1".to_string()),
            ("provider".to_string(), "OpenAI".to_string())
        ]
    );
}

#[test]
fn request_details_per_service() {
    assert_eq!(auth_header_for(Provider::Fireworks), AuthHeader::Raw);
    assert_eq!(auth_header_for(Provider::OpenAi), AuthHeader::Bearer);
    assert_eq!(prompt_field(&Some(String::new())), None);
    assert_eq!(prompt_field(&Some("Glide".to_string())), Some("Glide"));
    assert_eq!(prompt_field(&None), None);
    assert_eq!(clean_transcription("  hello world \n"), "hello world");
}
