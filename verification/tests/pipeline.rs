use std::time::Duration;

use glide::config::{
    DictationConfig, DictionaryConfig, GlideConfig, ModelSelection, PasteConfig, Provider,
    ProviderCredentials, ProvidersConfig, ReplacementRule, Style,
};
use glide::pipeline::{
    apply_replacements, finish_transcript, join_vocabulary, match_style, plan_recording,
    try_apply_replacements, try_finish_transcript,
    PipelineError,
};
use glide::platform::paste::{
    paste_preflight, previous_clipboard_text, restore_delay, PasteError, MIN_RESTORE_DELAY_MS,
};
use glide::prewarm::{prewarm_app_config, prewarm_effective_recording_config, PrewarmAction};

fn creds() -> ProviderCredentials {
    ProviderCredentials {
        api_key: String::new(),
        base_url: "https://api.example.com/v1".to_string(),
    }
}

fn sel(provider: Provider, model: &str) -> ModelSelection {
    ModelSelection {
        provider,
        model: model.to_string(),
    }
}

fn style(name: &str, apps: &[&str], stt: Option<ModelSelection>, llm: Option<ModelSelection>) -> Style {
    Style {
        name: name.to_string(),
        apps: apps.iter().map(|a| a.to_string()).collect(),
        prompt: format!("{name} prompt"),
        stt,
        llm,
    }
}

fn config(styles: Vec<Style>, vocabulary: &[&str], rules: Vec<ReplacementRule>) -> GlideConfig {
    GlideConfig {
        providers: ProvidersConfig {
            openai: creds(),
            groq: creds(),
            cerebras: creds(),
            fireworks: creds(),
            elevenlabs: creds(),
        },
        dictation: DictationConfig {
            stt: sel(Provider::Groq, "whisper-large-v3-turbo"),
            llm: Some(sel(Provider::OpenAi, "gpt-5.4-nano")),
            system_prompt: "default prompt".to_string(),
            styles,
            smart_defaults_applied: true,
        },
        dictionary: DictionaryConfig {
            vocabulary: vocabulary.iter().map(|v| v.to_string()).collect(),
            replacements: rules,
        },
        paste: PasteConfig {
            restore_clipboard: true,
            restore_delay_ms: 1_000,
        },
    }
}

fn rule(find: &str, replace: &str, case_sensitive: bool) -> ReplacementRule {
    ReplacementRule {
        find: find.to_string(),
        replace: replace.to_string(),
        case_sensitive,
    }
}

#[test]
fn restore_delay_preserves_safe_values_and_clamps_unsafe_values() {
    let cases = [
        (1_000, Duration::from_millis(1_000)),
        (100, Duration::from_millis(MIN_RESTORE_DELAY_MS)),
    ];

    for (restore_delay_ms, expected) in cases {
        let config = PasteConfig {
            restore_clipboard: true,
            restore_delay_ms,
        };
        assert_eq!(Duration::from_millis(restore_delay(&config)), expected);
    }
}

#[test]
fn restore_delay_boundary() {
    let at_min = PasteConfig { restore_clipboard: true, restore_delay_ms: 750 };
    assert_eq!(restore_delay(&at_min), 750);
    let zero = PasteConfig { restore_clipboard: false, restore_delay_ms: 0 };
    assert_eq!(restore_delay(&zero), 750);
}

#[test]
fn clipboard_restore_follows_setting() {
    let on = PasteConfig { restore_clipboard: true, restore_delay_ms: 0 };
    let off = PasteConfig { restore_clipboard: false, restore_delay_ms: 0 };
    assert_eq!(previous_clipboard_text(&on, Some("old".to_string())), Some("old".to_string()));
    assert_eq!(previous_clipboard_text(&on, None), None);
    assert_eq!(previous_clipboard_text(&off, Some("old".to_string())), None);
}

#[test]
fn paste_needs_accessibility() {
    assert_eq!(paste_preflight(true), Ok(()));
    let err = paste_preflight(false).unwrap_err();
    assert_eq!(err, PasteError::AccessibilityRequired);
    assert!(err.message().contains("Accessibility permission required for paste"));
}

#[test]
fn case_sensitive_replacement_replaces_every_match() {
    let out = apply_replacements("foo Foo foo", &[rule("foo", "bar", true)]);
    assert_eq!(out, "bar Foo bar");
}

#[test]
fn case_insensitive_replacement_ignores_case() {
    let out = apply_replacements("Hello hello HELLO", &[rule("hello", "hi", false)]);
    assert_eq!(out, "hi hi hi");
}

#[test]
fn case_insensitive_replacement_with_non_ascii_letters() {
    let out = apply_replacements("Éclair and éclair", &[rule("ÉCLAIR", "cake", false)]);
    assert_eq!(out, "cake and cake");
}

#[test]
fn replacements_are_left_to_right_and_non_overlapping() {
    assert_eq!(apply_replacements("aaa", &[rule("aa", "b", true)]), "ba");
    assert_eq!(apply_replacements("abab", &[rule("ab", "ab", true)]), "abab");
}

#[test]
fn replacements_apply_in_order_and_skip_empty_find() {
    let rules = vec![rule("", "x", true), rule("cat", "dog", true), rule("dog", "bird", true)];
    assert_eq!(apply_replacements("cat", &rules), "bird");
    assert_eq!(apply_replacements("unchanged", &[]), "unchanged");
}

#[test]
fn transcript_of_whitespace_is_refused() {
    assert_eq!(finish_transcript("  \n\t ", &[]), Err(PipelineError::EmptyTranscript));
    assert_eq!(finish_transcript("", &[]), Err(PipelineError::EmptyTranscript));
    assert_eq!(
        finish_transcript(" teh cat ", &[rule("teh", "the", true)]),
        Ok(" the cat ".to_string())
    );
}

#[test]
fn style_matching_ignores_ascii_case_and_takes_first() {
    let styles = vec![
        style("Mail", &["Mail"], None, None),
        style("Slack", &["slack", "Discord"], None, None),
        style("Other", &["SLACK"], None, None),
    ];
    assert_eq!(match_style(&styles, Some("SLACK")), Some(1));
    assert_eq!(match_style(&styles, Some("discord")), Some(1));
    assert_eq!(match_style(&styles, Some("Notes")), None);
    assert_eq!(match_style(&styles, None), None);
}

#[test]
fn recording_plan_uses_style_overrides() {
    let styles = vec![style(
        "Code",
        &["Xcode"],
        Some(sel(Provider::Parakeet, "parakeet-tdt")),
        None,
    )];
    let cfg = config(styles, &["Glide", "Verus"], vec![]);
    let plan = plan_recording(&cfg, Some("xcode"));
    assert_eq!(plan.stt.provider, Provider::Parakeet);
    assert_eq!(plan.stt.model, "parakeet-tdt");
    assert_eq!(plan.llm.as_ref().unwrap().model, "gpt-5.4-nano");
    assert_eq!(plan.system_prompt, "Code prompt");
    assert_eq!(plan.vocabulary_prompt.as_deref(), Some("Glide, Verus"));

    let plain = plan_recording(&cfg, Some("Safari"));
    assert_eq!(plain.stt.model, "whisper-large-v3-turbo");
    assert_eq!(plain.system_prompt, "default prompt");
}

#[test]
fn empty_vocabulary_gives_no_hint() {
    let cfg = config(vec![], &[], vec![]);
    assert_eq!(plan_recording(&cfg, None).vocabulary_prompt, None);
    assert_eq!(join_vocabulary(&vec!["one".to_string()]), "one");
}

#[test]
fn prewarm_loads_only_local_models() {
    let styles = vec![
        style(
            "Notes",
            &["Notes"],
            Some(sel(Provider::Parakeet, "parakeet-a")),
            Some(sel(Provider::AppleLocal, "apple-foundation")),
        ),
        style("Unused", &[], Some(sel(Provider::Parakeet, "parakeet-b")), None),
    ];
    let cfg = config(styles, &[], vec![]);
    let actions = prewarm_app_config(&cfg);
    assert_eq!(actions.len(), 2);
    match &actions[0] {
        PrewarmAction::Parakeet { model } => assert_eq!(model, "parakeet-a"),
        other => panic!("unexpected {other:?}"),
    }
    match &actions[1] {
        PrewarmAction::AppleFoundation { model, system_prompt } => {
            assert_eq!(model, "apple-foundation");
            assert_eq!(system_prompt, "Notes prompt");
        }
        other => panic!("unexpected {other:?}"),
    }
    let recording = prewarm_effective_recording_config(&cfg, Some("notes"));
    assert_eq!(recording.len(), 2);
    let elsewhere = prewarm_effective_recording_config(&cfg, Some("Mail"));
    assert!(elsewhere.is_empty());
}

#[test]
fn case_insensitive_matches_follow_the_lowercased_text() {
    // Lowercasing the whole text gives a final sigma, which the pattern does not match.
    assert_eq!(apply_replacements("ΟΔΟΣ", &[rule("οδοσ", "road", false)]), "ΟΔΟΣ");
    assert_eq!(apply_replacements("ΟΔΟΣ x", &[rule("οδος", "road", false)]), "road x");
}

#[test]
fn case_insensitive_rule_that_would_cut_a_character_is_refused() {
    // "İ" lowercases to two characters, three bytes in place of two, so the
    // search resumes past the end of the text and the rest cannot be cut.
    assert_eq!(try_apply_replacements("İa", &[rule("a", "b", false)]), None);
    assert_eq!(try_apply_replacements("abc", &[rule("B", "x", false)]), Some("axc".to_string()));
}

#[test]
fn checked_transcript_refuses_only_what_would_cut_a_character() {
    assert_eq!(try_finish_transcript("  ", &[rule("a", "b", false)]), Some(Err(PipelineError::EmptyTranscript)));
    assert_eq!(try_finish_transcript("İa", &[rule("a", "b", false)]), None);
    assert_eq!(
        try_finish_transcript(" Teh cat ", &[rule("teh", "the", false)]),
        Some(Ok(" the cat ".to_string()))
    );
}
