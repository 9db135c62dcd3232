use glide::config::{ProviderCredentials, ProvidersConfig};
use glide::overlay::{
    animation_step, eq_bar_count, floating_origin, mirror_source, next_loading_tick,
    overlay_to_open, poll_step, AnimationStep, OverlayKind, OverlayPhase, OverlayPoll,
    OverlayPosition, OverlayStyle, NOTCH_BAR_COUNT,
};
use glide::ui::autosave::{providers_changed, Autosave};

#[test]
fn overlay_opens_on_recording_and_closes_on_dismissal() {
    assert_eq!(poll_step(OverlayPhase::Recording, false), OverlayPoll::Open);
    assert_eq!(poll_step(OverlayPhase::Recording, true), OverlayPoll::Keep);
    assert_eq!(poll_step(OverlayPhase::Dismissed, true), OverlayPoll::CloseAndHide);
    assert_eq!(poll_step(OverlayPhase::Dismissed, false), OverlayPoll::Keep);
    assert_eq!(poll_step(OverlayPhase::Processing, true), OverlayPoll::Keep);
}

#[test]
fn overlay_kind_follows_settings() {
    assert_eq!(overlay_to_open(OverlayStyle::Off, OverlayPosition::Notch), None);
    assert_eq!(overlay_to_open(OverlayStyle::Glow, OverlayPosition::Floating), Some(OverlayKind::NotchGlow));
    assert_eq!(overlay_to_open(OverlayStyle::Classic, OverlayPosition::Notch), Some(OverlayKind::Notch));
    assert_eq!(overlay_to_open(OverlayStyle::Classic, OverlayPosition::Floating), Some(OverlayKind::Window));
}

#[test]
fn floating_overlay_is_centred_above_the_bottom() {
    assert_eq!(floating_origin(1440, 900, 200, 48), (620, 772));
    assert_eq!(floating_origin(100, 50, 201, 48), (-50, -78));
}

#[test]
fn bars_are_mirrored() {
    assert_eq!(eq_bar_count(OverlayStyle::Classic), 16);
    assert_eq!(eq_bar_count(OverlayStyle::Glow), 0);
    let order: Vec<usize> = (0..NOTCH_BAR_COUNT).map(|k| mirror_source(NOTCH_BAR_COUNT, k)).collect();
    assert_eq!(order, [7, 6, 5, 4, 3, 2, 1, 0, 0, 1, 2, 3, 4, 5, 6, 7]);
    let odd: Vec<usize> = (0..5).map(|k| mirror_source(5, k)).collect();
    assert_eq!(odd, [1, 0, 0, 1, 2]);
}

#[test]
fn animation_follows_phase() {
    assert_eq!(animation_step(OverlayPhase::Hidden), AnimationStep::Close);
    assert_eq!(animation_step(OverlayPhase::Processing), AnimationStep::Loading);
    assert_eq!(animation_step(OverlayPhase::Recording), AnimationStep::Levels);
    assert_eq!(next_loading_tick(usize::MAX), 0);
    assert_eq!(next_loading_tick(4), 5);
}

#[test]
fn autosave_debounces_edits() {
    let mut autosave = Autosave::new();
    assert!(!autosave.pending);
    assert!(autosave.schedule());
    assert!(autosave.pending);
    assert!(!autosave.schedule());
    autosave.timer_fired();
    assert!(!autosave.pending);
    assert!(autosave.schedule());
}

fn providers(key: &str) -> ProvidersConfig {
    let c = |k: &str| ProviderCredentials { api_key: k.to_string(), base_url: "https://x".to_string() };
    ProvidersConfig { openai: c(key), groq: c(""), cerebras: c(""), fireworks: c(""), elevenlabs: c("") }
}

#[test]
fn provider_changes_trigger_refetch() {
    assert!(!providers_changed(&providers("a"), &providers("a")));
    assert!(providers_changed(&providers("a"), &providers("b")));
}
