use glide::config::{
    DictationConfig, DictionaryConfig, GlideConfig, ModelSelection, PasteConfig, Provider,
    ProviderCredentials, ProvidersConfig, Style,
};
use glide::model_catalog::ModelInfo;
use glide::ui::helpers::{
    disable_llm_rewrite, display_model_name, filtered_models, model_display_name, model_label_for,
    strip_model_display_prefix, strip_segment_prefix,
};
use glide::local_models::{
    AppleFoundationModel, AppleSpeechModelStatus, LocalModelInstallState, LocalModels,
    ParakeetModelStatus,
};
use glide::model_catalog::verification::{set_remote_provider_verified, RemoteVerification};
use glide::config::ReplacementRule;
use glide::ui::autosave::{draft_from_inputs, CredentialInputs, StyleInputs};
use glide::ui::dictionary::{
    add_replacement, add_vocabulary_word, remove_replacement, remove_vocabulary_word,
};
use glide::ui::styles::{add_app, expanded_after_removal, new_style, remove_app};
use glide::ui::local_models::{
    active_download_count, apple_speech_row_action, apple_speech_row_detail,
    forget_deleted_stt_model, locale_search_order, LocaleSearchEntry,
    parakeet_row_action_kind, AppleSpeechInstallState, AppleSpeechRowActionKind,
    ParakeetRowActionKind,
};
use glide::ui::onboarding::{
    default_hotkey_preset, hotkey_presets, HotkeyTrigger, Onboarding, OnboardingEffect,
    OnboardingStep, PermissionState, Platform,
};

fn model(provider: &str, id: &str, display_name: &str) -> ModelInfo {
    ModelInfo {
        id: id.to_string(),
        display_name: display_name.to_string(),
        provider: provider.to_string(),
        logo: String::new(),
        installed: false,
    }
}

fn creds() -> ProviderCredentials {
    ProviderCredentials { api_key: String::new(), base_url: String::new() }
}

fn test_config() -> GlideConfig {
    GlideConfig {
        providers: ProvidersConfig {
            openai: creds(),
            groq: creds(),
            cerebras: creds(),
            fireworks: creds(),
            elevenlabs: creds(),
        },
        dictation: DictationConfig {
            stt: ModelSelection { provider: Provider::Groq, model: "whisper-large-v3-turbo".to_string() },
            llm: None,
            system_prompt: String::new(),
            styles: Vec::new(),
            smart_defaults_applied: false,
        },
        dictionary: DictionaryConfig { vocabulary: Vec::new(), replacements: Vec::new() },
        paste: PasteConfig { restore_clipboard: true, restore_delay_ms: 750 },
    }
}

#[test]
fn disable_llm_rewrite_persists_disabled_default() {
    let mut config = test_config();
    config.dictation.llm = Some(ModelSelection {
        provider: Provider::OpenAi,
        model: "gpt-5.4-nano".to_string(),
    });
    config.dictation.smart_defaults_applied = false;

    disable_llm_rewrite(&mut config);

    assert!(config.dictation.llm.is_none());
    assert!(config.dictation.smart_defaults_applied);
}

#[test]
fn model_display_name_strips_only_known_provider_prefixes() {
    let cases = [
        (
            "Fireworks",
            "accounts/fireworks/models/gpt-oss-20b",
            "accounts/fireworks/models/gpt-oss-20b",
            "gpt-oss-20b",
        ),
        ("Groq", "openai/gpt-oss-120b", "openai/gpt-oss-120b", "gpt-oss-120b"),
        (
            "Groq",
            "meta-llama/llama-4-scout-17b-16e-instruct",
            "meta-llama/llama-4-scout-17b-16e-instruct",
            "llama-4-scout-17b-16e-instruct",
        ),
        ("Other", "vendor/model", "vendor/model", "vendor/model"),
    ];

    for (provider, id, display_name, expected) in cases {
        assert_eq!(model_display_name(&model(provider, id, display_name)), expected);
    }
}

#[test]
fn display_names_of_blank_entries_use_the_identifier() {
    assert_eq!(model_display_name(&model("Other", "vendor/model-x", "  ")), "model-x");
    assert_eq!(display_model_name("openai/gpt-4o"), "gpt-4o");
    assert_eq!(display_model_name("plain"), "plain");
    assert_eq!(strip_segment_prefix("openai/", "openai"), None);
    assert_eq!(strip_segment_prefix("openai/x", "openai"), Some("x"));
    assert_eq!(strip_segment_prefix("openaix", "openai"), None);
    assert_eq!(strip_model_display_prefix("openai/x", Some("Fireworks")), "openai/x");
}

#[test]
fn model_label_prefers_listed_name() {
    let models = vec![model("Groq", "openai/gpt-oss-120b", "GPT OSS 120B")];
    assert_eq!(model_label_for("openai/gpt-oss-120b", &models), "GPT OSS 120B");
    assert_eq!(model_label_for("meta-llama/llama-3", &models), "llama-3");
}

#[test]
fn parakeet_row_x_action_cancels_download_or_deletes_installed_model() {
    assert_eq!(
        parakeet_row_action_kind(&LocalModelInstallState::Downloading {
            downloaded_bytes: 512,
            total_bytes: Some(1024),
        }),
        ParakeetRowActionKind::Cancel
    );
    assert_eq!(
        parakeet_row_action_kind(&LocalModelInstallState::Installed { size_bytes: 4096 }),
        ParakeetRowActionKind::Delete
    );
}

#[test]
fn parakeet_row_has_no_x_action_while_cancelling() {
    assert_eq!(
        parakeet_row_action_kind(&LocalModelInstallState::Cancelling {
            downloaded_bytes: 512,
            total_bytes: Some(1024),
        }),
        ParakeetRowActionKind::NoAction
    );
}

#[test]
fn parakeet_row_action_kind_matches_install_state() {
    let cases = [
        (
            LocalModelInstallState::Downloading { downloaded_bytes: 512, total_bytes: Some(1024) },
            ParakeetRowActionKind::Cancel,
        ),
        (LocalModelInstallState::Installed { size_bytes: 4096 }, ParakeetRowActionKind::Delete),
        (
            LocalModelInstallState::Cancelling { downloaded_bytes: 512, total_bytes: Some(1024) },
            ParakeetRowActionKind::NoAction,
        ),
    ];

    for (state, expected) in cases {
        assert_eq!(parakeet_row_action_kind(&state), expected);
    }
}

#[test]
fn parakeet_row_other_states() {
    assert_eq!(
        parakeet_row_action_kind(&LocalModelInstallState::NotInstalled),
        ParakeetRowActionKind::Download
    );
    assert_eq!(
        parakeet_row_action_kind(&LocalModelInstallState::Failed("network".to_string())),
        ParakeetRowActionKind::Retry
    );
}

#[test]
fn onboarding_steps_go_forward_and_back() {
    assert_eq!(OnboardingStep::Welcome.next(), Some(OnboardingStep::Permissions));
    assert_eq!(OnboardingStep::HowItWorks.next(), None);
    assert_eq!(OnboardingStep::Welcome.prev(), None);
    assert_eq!(OnboardingStep::Hotkey.prev(), Some(OnboardingStep::Permissions));
    assert_eq!(OnboardingStep::HowItWorks.index(), 3);
    let step = OnboardingStep::Permissions;
    assert_eq!(step.next().unwrap().prev(), Some(step));
}

#[test]
fn onboarding_saves_hotkey_and_completes() {
    let mut ob = Onboarding::new(None);
    assert_eq!(ob.advance(), OnboardingEffect::Nothing);
    assert_eq!(ob.advance(), OnboardingEffect::Nothing);
    assert_eq!(ob.step, OnboardingStep::Hotkey);
    assert!(!ob.can_advance());
    ob.selected_trigger = Some(HotkeyTrigger::F8);
    assert!(ob.can_advance());
    assert_eq!(ob.advance(), OnboardingEffect::SaveHotkey(HotkeyTrigger::F8));
    assert_eq!(ob.step, OnboardingStep::HowItWorks);
    assert_eq!(ob.advance(), OnboardingEffect::Complete(HotkeyTrigger::F8));
    assert!(!ob.visible);
    ob.go_back();
    assert_eq!(ob.step, OnboardingStep::Hotkey);
}

#[test]
fn hotkey_presets_recommend_first() {
    assert_eq!(default_hotkey_preset(Platform::MacOs), HotkeyTrigger::Custom(61));
    assert_eq!(default_hotkey_preset(Platform::Windows), HotkeyTrigger::F8);
    assert_eq!(hotkey_presets(Platform::MacOs)[2].1, "Fn");
    assert_eq!(hotkey_presets(Platform::Other)[3].1, "Right Alt");
}

#[test]
fn permission_state_all_granted() {
    assert!(PermissionState { microphone: true, accessibility: true, input_monitoring: true }
        .all_granted());
    assert!(!PermissionState { microphone: true, accessibility: false, input_monitoring: true }
        .all_granted());
}

#[test]
fn apple_speech_row_action_follows_install_state() {
    assert_eq!(apple_speech_row_action(&AppleSpeechInstallState::NotInstalled, false), None);
    assert_eq!(
        apple_speech_row_action(&AppleSpeechInstallState::NotInstalled, true),
        Some(AppleSpeechRowActionKind::Download)
    );
    assert_eq!(
        apple_speech_row_action(&AppleSpeechInstallState::Downloading, false),
        Some(AppleSpeechRowActionKind::Progress)
    );
    assert_eq!(
        apple_speech_row_action(&AppleSpeechInstallState::Cancelling, false),
        Some(AppleSpeechRowActionKind::Cancelling)
    );
    assert_eq!(
        apple_speech_row_action(&AppleSpeechInstallState::Installed, false),
        Some(AppleSpeechRowActionKind::Delete)
    );
    assert_eq!(
        apple_speech_row_action(&AppleSpeechInstallState::Failed("boom".to_string()), false),
        Some(AppleSpeechRowActionKind::Retry)
    );
}

#[test]
fn apple_speech_row_detail_joins_locale_and_status() {
    assert_eq!(apple_speech_row_detail("en_US", "installed"), "en_US \u{b7} installed");
    assert_eq!(apple_speech_row_detail("", "supported"), "supported");
}

fn parakeet_local(installed: &[&str]) -> LocalModels {
    LocalModels {
        apple_speech: Vec::<AppleSpeechModelStatus>::new(),
        parakeet: installed
            .iter()
            .map(|id| ParakeetModelStatus {
                id: id.to_string(),
                state: LocalModelInstallState::Installed { size_bytes: 1 },
            })
            .collect(),
        apple_foundation: Vec::<AppleFoundationModel>::new(),
        legacy_apple_speech_ids: Vec::new(),
    }
}

fn style_with_stt(name: &str, stt: Option<ModelSelection>) -> Style {
    Style {
        name: name.to_string(),
        apps: vec!["Mail".to_string()],
        prompt: "p".to_string(),
        stt,
        llm: None,
    }
}

#[test]
fn deleting_a_local_model_moves_selections_off_it() {
    let parakeet = |m: &str| ModelSelection { provider: Provider::Parakeet, model: m.to_string() };
    let mut config = test_config();
    config.dictation.stt = parakeet("tdt-v3");
    config.dictation.styles = vec![
        style_with_stt("a", Some(parakeet("tdt-v3"))),
        style_with_stt("b", Some(parakeet("tdt-v2"))),
        style_with_stt("c", None),
    ];
    let mut state = RemoteVerification::new();
    set_remote_provider_verified(&mut state, Provider::OpenAi, true);
    forget_deleted_stt_model(&mut config, Provider::Parakeet, "tdt-v3", &state, &parakeet_local(&[]));
    assert_eq!(config.dictation.stt.provider, Provider::OpenAi);
    assert_eq!(config.dictation.stt.model, "whisper-1");
    assert!(config.dictation.styles[0].stt.is_none());
    assert_eq!(config.dictation.styles[1].stt.as_ref().unwrap().model, "tdt-v2");
    assert!(config.dictation.styles[2].stt.is_none());
    assert_eq!(config.dictation.styles[0].name, "a");
}

#[test]
fn deleting_a_local_model_keeps_default_when_nothing_else_works() {
    let mut config = test_config();
    config.dictation.stt = ModelSelection { provider: Provider::Parakeet, model: "tdt-v3".to_string() };
    let state = RemoteVerification::new();
    forget_deleted_stt_model(&mut config, Provider::Parakeet, "tdt-v3", &state, &parakeet_local(&[]));
    assert_eq!(config.dictation.stt.model, "tdt-v3");

    forget_deleted_stt_model(
        &mut config,
        Provider::Parakeet,
        "tdt-v3",
        &state,
        &parakeet_local(&["tdt-v2"]),
    );
    assert_eq!(config.dictation.stt.provider, Provider::Parakeet);
    assert_eq!(config.dictation.stt.model, "tdt-v2");
}

#[test]
fn deleting_another_provider_model_changes_nothing() {
    let mut config = test_config();
    let mut state = RemoteVerification::new();
    set_remote_provider_verified(&mut state, Provider::OpenAi, true);
    forget_deleted_stt_model(
        &mut config,
        Provider::AppleLocal,
        "whisper-large-v3-turbo",
        &state,
        &parakeet_local(&[]),
    );
    assert_eq!(config.dictation.stt.provider, Provider::Groq);
    assert_eq!(config.dictation.stt.model, "whisper-large-v3-turbo");
}

#[test]
fn draft_takes_typed_fields_and_keeps_style_overrides() {
    let mut saved = test_config();
    saved.providers.groq.api_key = "old-groq".to_string();
    saved.dictation.llm = Some(ModelSelection { provider: Provider::OpenAi, model: "gpt-5.4-nano".to_string() });
    saved.dictation.styles = vec![Style {
        name: "Email".to_string(),
        apps: vec!["Mail".to_string()],
        prompt: "formal".to_string(),
        stt: Some(ModelSelection { provider: Provider::Parakeet, model: "tdt-v3".to_string() }),
        llm: None,
    }];
    let credentials = vec![
        CredentialInputs {
            provider: Provider::OpenAi,
            api_key: "sk-first".to_string(),
            base_url: "https://api.openai.com/v1".to_string(),
        },
        CredentialInputs {
            provider: Provider::OpenAi,
            api_key: "sk-second".to_string(),
            base_url: "https://api.openai.com/v1".to_string(),
        },
    ];
    let styles = vec![
        StyleInputs { name: "Mail".to_string(), apps: vec!["Mail".to_string()], prompt: "short".to_string() },
        StyleInputs { name: "Chat".to_string(), apps: vec!["Slack".to_string()], prompt: "casual".to_string() },
    ];
    let draft = draft_from_inputs(saved, &credentials, "Clean up", &styles);
    assert_eq!(draft.providers.openai.api_key, "sk-second");
    assert_eq!(draft.providers.groq.api_key, "old-groq");
    assert_eq!(draft.dictation.system_prompt, "Clean up");
    assert_eq!(draft.dictation.llm.as_ref().unwrap().model, "gpt-5.4-nano");
    assert_eq!(draft.dictation.styles.len(), 2);
    assert_eq!(draft.dictation.styles[0].name, "Mail");
    assert_eq!(draft.dictation.styles[0].prompt, "short");
    assert_eq!(draft.dictation.styles[0].stt.as_ref().unwrap().model, "tdt-v3");
    assert_eq!(draft.dictation.styles[1].apps, vec!["Slack".to_string()]);
    assert!(draft.dictation.styles[1].stt.is_none());
    assert!(draft.dictation.styles[1].llm.is_none());
}

#[test]
fn filtered_models_lists_all_for_empty_query() {
    assert_eq!(filtered_models("", &vec![(None, None), (Some(3), None), (None, Some(1))]), vec![0, 1, 2]);
}

#[test]
fn filtered_models_ranks_matches_best_first_ties_in_order() {
    let scores = vec![
        (Some(5), Some(99)),
        (None, None),
        (None, Some(9)),
        (Some(5), None),
        (None, None),
        (Some(1), Some(50)),
    ];
    assert_eq!(filtered_models("wh", &scores), vec![2, 0, 3, 5]);
    assert_eq!(filtered_models("zz", &vec![(None, None), (None, None)]), Vec::<usize>::new());
}

fn empty_dictionary() -> DictionaryConfig {
    DictionaryConfig { vocabulary: Vec::new(), replacements: Vec::new() }
}

#[test]
fn vocabulary_words_are_trimmed_and_blank_ones_ignored() {
    let mut dictionary = empty_dictionary();
    assert!(add_vocabulary_word(&mut dictionary, "  Kubernetes \n"));
    assert!(!add_vocabulary_word(&mut dictionary, "   "));
    assert!(add_vocabulary_word(&mut dictionary, "Verus"));
    assert_eq!(dictionary.vocabulary, vec!["Kubernetes".to_string(), "Verus".to_string()]);
    remove_vocabulary_word(&mut dictionary, 5);
    assert_eq!(dictionary.vocabulary.len(), 2);
    remove_vocabulary_word(&mut dictionary, 1);
    assert_eq!(dictionary.vocabulary, vec!["Kubernetes".to_string()]);
}

#[test]
fn replacement_rules_are_trimmed_and_case_insensitive() {
    let mut dictionary = empty_dictionary();
    assert!(!add_replacement(&mut dictionary, " ", "x"));
    assert!(add_replacement(&mut dictionary, " gpt ", " GPT "));
    assert_eq!(dictionary.replacements.len(), 1);
    let ReplacementRule { find, replace, case_sensitive } = &dictionary.replacements[0];
    assert_eq!(find, "gpt");
    assert_eq!(replace, "GPT");
    assert!(!case_sensitive);
    remove_replacement(&mut dictionary, 1);
    assert_eq!(dictionary.replacements.len(), 1);
    remove_replacement(&mut dictionary, 0);
    assert!(dictionary.replacements.is_empty());
}

#[test]
fn new_styles_are_numbered_after_their_position() {
    let style = new_style(0);
    assert_eq!(style.name, "Style 1");
    assert!(style.apps.is_empty() && style.prompt.is_empty());
    assert!(style.stt.is_none() && style.llm.is_none());
    assert_eq!(new_style(11).name, "Style 12");
}

#[test]
fn style_apps_are_listed_once_and_removed_entirely() {
    let mut apps = vec!["Mail".to_string()];
    assert!(add_app(&mut apps, "Slack"));
    assert!(!add_app(&mut apps, "Mail"));
    assert_eq!(apps, vec!["Mail".to_string(), "Slack".to_string()]);
    let mut with_repeats = vec!["Mail".to_string(), "Notes".to_string(), "Mail".to_string()];
    remove_app(&mut with_repeats, "Mail");
    assert_eq!(with_repeats, vec!["Notes".to_string()]);
}

#[test]
fn expanded_style_follows_removal() {
    assert_eq!(expanded_after_removal(Some(2), 2), None);
    assert_eq!(expanded_after_removal(Some(3), 1), Some(2));
    assert_eq!(expanded_after_removal(Some(0), 1), Some(0));
    assert_eq!(expanded_after_removal(None, 0), None);
}

#[test]
fn downloads_under_way_are_counted() {
    let states = vec![
        AppleSpeechInstallState::Downloading,
        AppleSpeechInstallState::Installed,
        AppleSpeechInstallState::Cancelling,
        AppleSpeechInstallState::NotInstalled,
        AppleSpeechInstallState::Failed("x".to_string()),
    ];
    assert_eq!(active_download_count(&states), 2);
    assert_eq!(active_download_count(&Vec::new()), 0);
}

fn locale(name: &str, label_score: Option<i64>, locale_score: Option<i64>) -> LocaleSearchEntry {
    LocaleSearchEntry { display_name: name.to_string(), label_score, locale_score }
}

#[test]
fn locale_search_sorts_by_name_for_blank_query_and_ranks_otherwise() {
    let entries = vec![
        locale("German", None, Some(4)),
        locale("English (US)", Some(7), None),
        locale("English (UK)", Some(7), Some(9)),
        locale("Dutch", None, None),
        locale("English (US)", None, Some(2)),
    ];
    assert_eq!(locale_search_order("  ", &entries), vec![3, 2, 1, 4, 0]);
    assert_eq!(locale_search_order("en", &entries), vec![1, 2, 0, 4]);
}

#[test]
fn hotkey_preset_labels() {
    let mac = hotkey_presets(Platform::MacOs);
    assert_eq!(mac[0].1, "\u{2325} Right Option (recommended)");
    assert_eq!(mac[2].1, "Fn");
    let other = hotkey_presets(Platform::Windows);
    assert_eq!(other[0].1, "F8 (recommended)");
    assert_eq!(other[3].1, "Right Alt");
}
