//! Turning the model lists that remote providers return into catalog entries:
//! which models are offered for speech-to-text, which for cleanup, and which
//! are left out.
use vstd::prelude::*;

use crate::config::Provider;
use crate::model_catalog::catalog::model_info_with_display;
use crate::model_catalog::types::{info_view, views, ModelInfo, ModelInfoView};
use crate::text::{chars_of, contains, contains_exec, starts_with, starts_with_exec, str_eq};

verus! {

/// `s` contains the literal `lit`.
fn has(s: &[char], lit: &str) -> (r: bool)
    ensures
        r == contains(s@, lit@),
{
    let p = chars_of(lit);
    contains_exec(s, p.as_slice())
}

/// `s` begins with the literal `lit`.
fn begins(s: &[char], lit: &str) -> (r: bool)
    ensures
        r == starts_with(s@, lit@),
{
    let p = chars_of(lit);
    starts_with_exec(s, p.as_slice())
}

/// Model families that are no cleanup models: embeddings, rerankers, speech
/// synthesis, image generation, moderation, fine-tunes, realtime and audio
/// models, legacy completion models, search and similarity models.
pub open spec fn excluded_family(id: Seq<char>) -> bool {
    ||| contains(id, "embedding"@)
    ||| contains(id, "embed"@)
    ||| contains(id, "rerank"@)
    ||| contains(id, "tts"@)
    ||| contains(id, "dall-e"@)
    ||| contains(id, "flux"@)
    ||| contains(id, "stable-diffusion"@)
    ||| contains(id, "sdxl"@)
    ||| contains(id, "image"@)
    ||| contains(id, "moderation"@)
    ||| starts_with(id, "ft:"@)
    ||| contains(id, "realtime"@)
    ||| contains(id, "-audio-"@)
    ||| contains(id, "davinci"@)
    ||| contains(id, "babbage"@)
    ||| contains(id, "canary"@)
    ||| contains(id, "search"@)
    ||| contains(id, "similarity"@)
    ||| starts_with(id, "text-"@)
    ||| starts_with(id, "code-"@)
    ||| contains(id, "omni-"@)
    ||| contains(id, "orpheus"@)
}

/// OpenAI's video, image and audio generation models.
pub open spec fn excluded_openai(provider: Provider, id: Seq<char>) -> bool {
    provider == Provider::OpenAi && (id == "sora-2"@ || id == "sora-2-pro"@ || starts_with(
        id,
        "gpt-image"@,
    ) || starts_with(id, "gpt-audio"@))
}

/// A remote model (by its lowercase identifier) is not offered for cleanup.
pub open spec fn excluded_spec(provider: Provider, id_lower: Seq<char>) -> bool {
    excluded_family(id_lower) || excluded_openai(provider, id_lower)
}

/// A remote model (by its lowercase identifier) is not offered for cleanup.
pub fn excluded_remote_llm_model(provider: Provider, id_lower: &str) -> (r: bool)
    ensures
        r == excluded_spec(provider, id_lower@),
{
    let v = chars_of(id_lower);
    let s = v.as_slice();
    let excluded_by_family = has(s, "embedding") || has(s, "embed") || has(s, "rerank") || has(
        s,
        "tts",
    ) || has(s, "dall-e") || has(s, "flux") || has(s, "stable-diffusion") || has(s, "sdxl")
        || has(s, "image") || has(s, "moderation") || begins(s, "ft:") || has(s, "realtime")
        || has(s, "-audio-") || has(s, "davinci") || has(s, "babbage") || has(s, "canary") || has(
        s,
        "search",
    ) || has(s, "similarity") || begins(s, "text-") || begins(s, "code-") || has(s, "omni-")
        || has(s, "orpheus");
    let excluded_openai_generation_model = provider == Provider::OpenAi && (str_eq(
        id_lower,
        "sora-2",
    ) || str_eq(id_lower, "sora-2-pro") || begins(s, "gpt-image") || begins(s, "gpt-audio"));
    excluded_by_family || excluded_openai_generation_model
}

/// A model is never offered for cleanup, whatever its provider, when its
/// lowercase identifier names an embedding, reranking, speech-synthesis,
/// image, moderation, realtime or audio model, a fine-tune, a legacy
/// completion model or a search or similarity model; OpenAI's Sora, image and
/// audio generation models are not offered either.
pub proof fn law_non_chat_models_are_excluded(provider: Provider, id: Seq<char>)
    ensures
        contains(id, "embedding"@) || contains(id, "embed"@) || contains(id, "rerank"@) || contains(
            id,
            "tts"@,
        ) || contains(id, "dall-e"@) || contains(id, "flux"@) || contains(id, "stable-diffusion"@)
            || contains(id, "sdxl"@) || contains(id, "image"@) || contains(id, "moderation"@)
            || starts_with(id, "ft:"@) || contains(id, "realtime"@) || contains(id, "-audio-"@)
            || contains(id, "davinci"@) || contains(id, "babbage"@) || contains(id, "canary"@)
            || contains(id, "search"@) || contains(id, "similarity"@) || starts_with(id, "text-"@)
            || starts_with(id, "code-"@) || contains(id, "omni-"@) || contains(id, "orpheus"@)
            ==> excluded_spec(provider, id),
        provider == Provider::OpenAi && (id == "sora-2"@ || id == "sora-2-pro"@ || starts_with(
            id,
            "gpt-image"@,
        ) || starts_with(id, "gpt-audio"@)) ==> excluded_spec(provider, id),
{
}

/// One entry of an OpenAI-style model list.
#[derive(Debug, Clone)]
pub struct ModelsResponseEntry {
    pub id: String,
    pub active: Option<bool>,
}

/// One entry of ElevenLabs' model list.
#[derive(Debug, Clone)]
pub struct ElevenLabsModelsResponseEntry {
    pub model_id: String,
    pub name: Option<String>,
}

/// The built-in display name of an ElevenLabs Scribe model.
pub open spec fn scribe_display_spec(model_id: Seq<char>) -> Option<Seq<char>> {
    if model_id == "scribe_v2"@ {
        Some("Scribe v2"@)
    } else if model_id == "scribe_v1"@ {
        Some("Scribe v1"@)
    } else {
        None
    }
}

/// The built-in display name of an ElevenLabs Scribe model.
pub fn elevenlabs_scribe_display_name(model_id: &str) -> (r: Option<&'static str>)
    ensures
        r is Some == scribe_display_spec(model_id@) is Some,
        r matches Some(n) ==> n@ == scribe_display_spec(model_id@)->0,
{
    if str_eq(model_id, "scribe_v2") {
        Some("Scribe v2")
    } else if str_eq(model_id, "scribe_v1") {
        Some("Scribe v1")
    } else {
        None
    }
}

/// The name shown for a listed Scribe model: its own name, else the built-in one.
pub open spec fn scribe_entry_name(e: ElevenLabsModelsResponseEntry) -> Seq<char> {
    match e.name {
        Some(n) => n@,
        None => match scribe_display_spec(e.model_id@) {
            Some(d) => d,
            None => "ElevenLabs Scribe"@,
        },
    }
}

/// The speech-to-text entries for the Scribe models that ElevenLabs listed.
pub open spec fn scribe_infos(es: Seq<ElevenLabsModelsResponseEntry>) -> Seq<ModelInfoView>
    decreases es.len(),
{
    if es.len() == 0 {
        seq![]
    } else {
        let l = es.last();
        scribe_infos(es.drop_last()) + if l.model_id@ == "scribe_v2"@ || l.model_id@
            == "scribe_v1"@ {
            seq![info_view(Provider::ElevenLabs, l.model_id@, scribe_entry_name(l), false)]
        } else {
            seq![]
        }
    }
}

/// ElevenLabs listed a model with this identifier.
pub open spec fn scribe_listed(es: Seq<ElevenLabsModelsResponseEntry>, id: Seq<char>) -> bool {
    exists|i: int| 0 <= i < es.len() && (#[trigger] es[i]).model_id@ == id
}

/// The Scribe entries to add: those listed, then Scribe v2 and Scribe v1 under
/// their built-in names when they were not listed.
pub open spec fn scribe_additions(es: Seq<ElevenLabsModelsResponseEntry>) -> Seq<ModelInfoView> {
    scribe_infos(es) + (if scribe_listed(es, "scribe_v2"@) {
        seq![]
    } else {
        seq![info_view(Provider::ElevenLabs, "scribe_v2"@, "Scribe v2"@, false)]
    }) + (if scribe_listed(es, "scribe_v1"@) {
        seq![]
    } else {
        seq![info_view(Provider::ElevenLabs, "scribe_v1"@, "Scribe v1"@, false)]
    })
}

/// Adds ElevenLabs' Scribe models to the speech-to-text list.
pub fn append_elevenlabs_scribe_models(
    stt: &mut Vec<ModelInfo>,
    entries: Vec<ElevenLabsModelsResponseEntry>,
)
    ensures
        views(final(stt)@) == views(old(stt)@) + scribe_additions(entries@),
{
    let ghost start = views(stt@);
    let mut saw_scribe_v2 = false;
    let mut saw_scribe_v1 = false;
    let mut i: usize = 0;
    while i < entries.len()
        invariant
            i <= entries@.len(),
            views(stt@) == start + scribe_infos(entries@.take(i as int)),
            saw_scribe_v2 == scribe_listed(entries@.take(i as int), "scribe_v2"@),
            saw_scribe_v1 == scribe_listed(entries@.take(i as int), "scribe_v1"@),
        decreases entries.len() - i,
    {
        let entry = &entries[i];
        let is_v2 = str_eq(entry.model_id.as_str(), "scribe_v2");
        let is_v1 = str_eq(entry.model_id.as_str(), "scribe_v1");
        let ghost prev = stt@;
        if is_v2 || is_v1 {
            let m = match &entry.name {
                Some(n) => model_info_with_display(
                    Provider::ElevenLabs,
                    entry.model_id.as_str(),
                    n.as_str(),
                    false,
                ),
                None => {
                    let d = match elevenlabs_scribe_display_name(entry.model_id.as_str()) {
                        Some(d) => d,
                        None => "ElevenLabs Scribe",
                    };
                    model_info_with_display(Provider::ElevenLabs, entry.model_id.as_str(), d, false)
                },
            };
            stt.push(m);
            assert(views(stt@) =~= views(prev).push(m@));
        }
        proof {
            let t = entries@.take(i + 1);
            assert(t.drop_last() =~= entries@.take(i as int));
            assert(scribe_listed(t, "scribe_v2"@) == (saw_scribe_v2 || is_v2)) by {
                if is_v2 {
                    assert(t[i as int].model_id@ == "scribe_v2"@);
                }
                if scribe_listed(t, "scribe_v2"@) && !is_v2 {
                    let k = choose|k: int| 0 <= k < t.len() && (#[trigger] t[k]).model_id@
                        == "scribe_v2"@;
                    assert(entries@.take(i as int)[k] == t[k]);
                }
            }
            assert(scribe_listed(t, "scribe_v1"@) == (saw_scribe_v1 || is_v1)) by {
                if is_v1 {
                    assert(t[i as int].model_id@ == "scribe_v1"@);
                }
                if scribe_listed(t, "scribe_v1"@) && !is_v1 {
                    let k = choose|k: int| 0 <= k < t.len() && (#[trigger] t[k]).model_id@
                        == "scribe_v1"@;
                    assert(entries@.take(i as int)[k] == t[k]);
                }
            }
        }
        saw_scribe_v2 = saw_scribe_v2 || is_v2;
        saw_scribe_v1 = saw_scribe_v1 || is_v1;
        i = i + 1;
        assert(views(stt@) =~= start + scribe_infos(entries@.take(i as int)));
    }
    assert(entries@.take(entries@.len() as int) =~= entries@);
    let ghost mid = views(stt@);
    if !saw_scribe_v2 {
        let m = model_info_with_display(Provider::ElevenLabs, "scribe_v2", "Scribe v2", false);
        stt.push(m);
    }
    let ghost mid2 = views(stt@);
    assert(mid2 =~= mid + (if scribe_listed(entries@, "scribe_v2"@) {
        seq![]
    } else {
        seq![info_view(Provider::ElevenLabs, "scribe_v2"@, "Scribe v2"@, false)]
    }));
    if !saw_scribe_v1 {
        let m = model_info_with_display(Provider::ElevenLabs, "scribe_v1", "Scribe v1", false);
        stt.push(m);
    }
    assert(views(stt@) =~= mid2 + (if scribe_listed(entries@, "scribe_v1"@) {
        seq![]
    } else {
        seq![info_view(Provider::ElevenLabs, "scribe_v1"@, "Scribe v1"@, false)]
    }));
}

} // verus!
