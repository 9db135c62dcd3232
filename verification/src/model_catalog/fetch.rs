//! What a refresh of the remote model lists decides, once the platform layer
//! has asked each provider: which providers are verified, which models each
//! list offers, and what is kept in the cache.
use vstd::prelude::*;

use crate::config::Provider;
use crate::model_catalog::catalog::{model_info, ModelCache};
use crate::model_catalog::remote::{
    append_elevenlabs_scribe_models, excluded_remote_llm_model, excluded_spec, scribe_additions,
    ElevenLabsModelsResponseEntry, ModelsResponseEntry,
};
use crate::model_catalog::sort::{isort, law_sort_orders_and_keeps, sort_models};
use crate::model_catalog::types::{info_view, views, ModelInfo, ModelInfoView};
use crate::model_catalog::verification::{set_remote_provider_verified, with_verified, RemoteVerification};
use crate::text::{
    chars_of, contains, contains_exec, ends_with, ends_with_exec, lowercase_of, str_eq, string_of,
    to_lowercase,
};

verus! {

/// The entry is not marked inactive.
pub open spec fn entry_active(e: ModelsResponseEntry) -> bool {
    e.active != Some(false)
}

/// The entry is a Whisper speech-to-text model.
pub open spec fn entry_is_stt(e: ModelsResponseEntry) -> bool {
    let l = lowercase_of(e.id@);
    contains(l, "whisper"@) || contains(l, "distil-whisper"@)
}

/// A model identifier, already in lowercase, names a Whisper speech-to-text
/// model; every other listed model is a cleanup model.
pub fn is_whisper_model(lowercase_id: &str) -> (r: bool)
    ensures
        r == (contains(lowercase_id@, "whisper"@) || contains(lowercase_id@, "distil-whisper"@)),
{
    let lv = chars_of(lowercase_id);
    let w = chars_of("whisper");
    let dw = chars_of("distil-whisper");
    contains_exec(lv.as_slice(), w.as_slice()) || contains_exec(lv.as_slice(), dw.as_slice())
}

/// The entry that a listed model becomes.
pub open spec fn entry_info(p: Provider, e: ModelsResponseEntry) -> ModelInfoView {
    info_view(p, e.id@, e.id@, false)
}

/// The speech-to-text models a provider listed (Cerebras offers none).
pub open spec fn listed_stt(p: Provider, es: Seq<ModelsResponseEntry>) -> Seq<ModelInfoView>
    decreases es.len(),
{
    if es.len() == 0 {
        seq![]
    } else {
        let l = es.last();
        listed_stt(p, es.drop_last()) + if entry_active(l) && entry_is_stt(l) && p
            != Provider::Cerebras {
            seq![entry_info(p, l)]
        } else {
            seq![]
        }
    }
}

/// The cleanup models a provider listed.
pub open spec fn listed_llm(p: Provider, es: Seq<ModelsResponseEntry>) -> Seq<ModelInfoView>
    decreases es.len(),
{
    if es.len() == 0 {
        seq![]
    } else {
        let l = es.last();
        listed_llm(p, es.drop_last()) + if entry_active(l) && !entry_is_stt(l) && !excluded_spec(
            p,
            lowercase_of(l.id@),
        ) {
            seq![entry_info(p, l)]
        } else {
            seq![]
        }
    }
}

/// The Fireworks models that are always offered: 0 Whisper v3, 1 Whisper v3
/// Turbo, 2 gpt-oss-20b, 3 gpt-oss-120b. `fw_match` says whether a listed
/// identifier is that model.
pub open spec fn fw_match(e: ModelsResponseEntry, which: int) -> bool {
    if which == 0 {
        e.id@ == "whisper-v3"@
    } else if which == 1 {
        e.id@ == "whisper-v3-turbo"@
    } else if which == 2 {
        ends_with(e.id@, "/gpt-oss-20b"@) || e.id@ == "gpt-oss-20b"@
    } else {
        ends_with(e.id@, "/gpt-oss-120b"@) || e.id@ == "gpt-oss-120b"@
    }
}

/// An active entry of the list is that Fireworks model.
pub open spec fn fw_seen(es: Seq<ModelsResponseEntry>, which: int) -> bool {
    exists|i: int| 0 <= i < es.len() && entry_active(#[trigger] es[i]) && fw_match(es[i], which)
}

/// Fireworks speech-to-text models added when the list lacks them.
pub open spec fn fireworks_stt_extra(es: Seq<ModelsResponseEntry>) -> Seq<ModelInfoView> {
    (if fw_seen(es, 1) {
        seq![]
    } else {
        seq![info_view(Provider::Fireworks, "whisper-v3-turbo"@, "whisper-v3-turbo"@, false)]
    }) + (if fw_seen(es, 0) {
        seq![]
    } else {
        seq![info_view(Provider::Fireworks, "whisper-v3"@, "whisper-v3"@, false)]
    })
}

/// Fireworks cleanup models added when the list lacks them.
pub open spec fn fireworks_llm_extra(es: Seq<ModelsResponseEntry>) -> Seq<ModelInfoView> {
    (if fw_seen(es, 2) {
        seq![]
    } else {
        seq![
            info_view(
                Provider::Fireworks,
                "accounts/fireworks/models/gpt-oss-20b"@,
                "accounts/fireworks/models/gpt-oss-20b"@,
                false,
            ),
        ]
    }) + (if fw_seen(es, 3) {
        seq![]
    } else {
        seq![
            info_view(
                Provider::Fireworks,
                "accounts/fireworks/models/gpt-oss-120b"@,
                "accounts/fireworks/models/gpt-oss-120b"@,
                false,
            ),
        ]
    })
}

/// The speech-to-text entries a provider's list contributes.
pub open spec fn provider_stt_additions(p: Provider, es: Seq<ModelsResponseEntry>) -> Seq<
    ModelInfoView,
> {
    listed_stt(p, es) + if p == Provider::Fireworks {
        fireworks_stt_extra(es)
    } else {
        seq![]
    }
}

/// The cleanup entries a provider's list contributes.
pub open spec fn provider_llm_additions(p: Provider, es: Seq<ModelsResponseEntry>) -> Seq<
    ModelInfoView,
> {
    listed_llm(p, es) + if p == Provider::Fireworks {
        fireworks_llm_extra(es)
    } else {
        seq![]
    }
}

proof fn lemma_seen_step(es: Seq<ModelsResponseEntry>, i: int, which: int)
    requires
        0 <= i < es.len(),
    ensures
        fw_seen(es.take(i + 1), which) == (fw_seen(es.take(i), which) || (entry_active(es[i])
            && fw_match(es[i], which))),
{
    let t = es.take(i + 1);
    if fw_seen(t, which) {
        let k = choose|k: int| 0 <= k < t.len() && entry_active(#[trigger] t[k]) && fw_match(t[k], which);
        if k < i {
            assert(es.take(i)[k] == t[k]);
        }
    }
    if fw_seen(es.take(i), which) {
        let k = choose|k: int|
            0 <= k < es.take(i).len() && entry_active(#[trigger] es.take(i)[k]) && fw_match(
                es.take(i)[k],
                which,
            );
        assert(t[k] == es.take(i)[k]);
    }
    if entry_active(es[i]) && fw_match(es[i], which) {
        assert(t[i] == es[i]);
    }
}

/// `fw_match`, computed.
fn fw_match_exec(id: &str, which: u8) -> (r: bool)
    requires
        which < 4,
    ensures
        forall|e: ModelsResponseEntry| e.id@ == id@ ==> r == fw_match(e, which as int),
{
    if which == 0 {
        str_eq(id, "whisper-v3")
    } else if which == 1 {
        str_eq(id, "whisper-v3-turbo")
    } else if which == 2 {
        let v = chars_of(id);
        let p = chars_of("/gpt-oss-20b");
        ends_with_exec(v.as_slice(), p.as_slice()) || str_eq(id, "gpt-oss-20b")
    } else {
        let v = chars_of(id);
        let p = chars_of("/gpt-oss-120b");
        ends_with_exec(v.as_slice(), p.as_slice()) || str_eq(id, "gpt-oss-120b")
    }
}

/// The listed model as a catalog entry.
fn entry_model(provider: Provider, e: &ModelsResponseEntry) -> (r: ModelInfo)
    ensures
        r@ == entry_info(provider, *e),
{
    model_info(provider, e.id.as_str(), false)
}

/// Adds the models of one provider's list: Whisper models to speech-to-text
/// (except for Cerebras), the rest to cleanup unless excluded; inactive entries
/// are skipped. For Fireworks, its usual models are added when not listed.
pub fn classify_remote_models(
    provider: Provider,
    entries: &Vec<ModelsResponseEntry>,
    stt: &mut Vec<ModelInfo>,
    llm: &mut Vec<ModelInfo>,
)
    ensures
        views(final(stt)@) == views(old(stt)@) + provider_stt_additions(provider, entries@),
        views(final(llm)@) == views(old(llm)@) + provider_llm_additions(provider, entries@),
{
    let ghost es = entries@;
    let ghost stt0 = views(stt@);
    let ghost llm0 = views(llm@);
    let mut saw_v3 = false;
    let mut saw_turbo = false;
    let mut saw_20b = false;
    let mut saw_120b = false;
    let mut i: usize = 0;
    assert(es.take(0) =~= Seq::<ModelsResponseEntry>::empty());
    while i < entries.len()
        invariant
            es == entries@,
            i <= es.len(),
            views(stt@) == stt0 + listed_stt(provider, es.take(i as int)),
            views(llm@) == llm0 + listed_llm(provider, es.take(i as int)),
            saw_v3 == fw_seen(es.take(i as int), 0),
            saw_turbo == fw_seen(es.take(i as int), 1),
            saw_20b == fw_seen(es.take(i as int), 2),
            saw_120b == fw_seen(es.take(i as int), 3),
        decreases es.len() - i,
    {
        let entry = &entries[i];
        let active = match entry.active {
            Some(a) => a,
            None => true,
        };
        proof {
            lemma_seen_step(es, i as int, 0);
            lemma_seen_step(es, i as int, 1);
            lemma_seen_step(es, i as int, 2);
            lemma_seen_step(es, i as int, 3);
            assert(es.take(i + 1).drop_last() =~= es.take(i as int));
        }
        if active {
            let lower = to_lowercase(entry.id.as_str());
            let is_stt = is_whisper_model(lower.as_str());
            saw_v3 = saw_v3 || fw_match_exec(entry.id.as_str(), 0);
            saw_turbo = saw_turbo || fw_match_exec(entry.id.as_str(), 1);
            saw_20b = saw_20b || fw_match_exec(entry.id.as_str(), 2);
            saw_120b = saw_120b || fw_match_exec(entry.id.as_str(), 3);
            let ghost s_prev = stt@;
            let ghost l_prev = llm@;
            if is_stt {
                if provider != Provider::Cerebras {
                    let m = entry_model(provider, entry);
                    stt.push(m);
                    assert(views(stt@) =~= views(s_prev).push(m@));
                }
            } else if !excluded_remote_llm_model(provider, lower.as_str()) {
                let m = entry_model(provider, entry);
                llm.push(m);
                assert(views(llm@) =~= views(l_prev).push(m@));
            }
        }
        i = i + 1;
        assert(views(stt@) =~= stt0 + listed_stt(provider, es.take(i as int)));
        assert(views(llm@) =~= llm0 + listed_llm(provider, es.take(i as int)));
    }
    assert(es.take(es.len() as int) =~= es);
    let ghost stt1 = views(stt@);
    let ghost llm1 = views(llm@);
    if provider == Provider::Fireworks {
        if !saw_turbo {
            stt.push(model_info(Provider::Fireworks, "whisper-v3-turbo", false));
        }
        if !saw_v3 {
            stt.push(model_info(Provider::Fireworks, "whisper-v3", false));
        }
        if !saw_20b {
            llm.push(model_info(Provider::Fireworks, "accounts/fireworks/models/gpt-oss-20b", false));
        }
        if !saw_120b {
            llm.push(model_info(Provider::Fireworks, "accounts/fireworks/models/gpt-oss-120b", false));
        }
    }
    assert(views(stt@) =~= stt1 + if provider == Provider::Fireworks {
        fireworks_stt_extra(es)
    } else {
        seq![]
    });
    assert(views(llm@) =~= llm1 + if provider == Provider::Fireworks {
        fireworks_llm_extra(es)
    } else {
        seq![]
    });
}

/// What asking one OpenAI-compatible provider for its models gave.
#[derive(Debug, Clone)]
pub enum ProviderFetch {
    /// The key or the base URL is blank; nothing was asked.
    Unusable,
    /// The request or the parsing of its answer failed.
    Failed,
    /// The provider answered with its model list.
    Listed(Vec<ModelsResponseEntry>),
}

/// What asking ElevenLabs gave.
#[derive(Debug, Clone)]
pub enum ElevenLabsFetch {
    /// The key or the base URL is blank; nothing was asked.
    Unusable,
    /// The model list was returned (entries that could not be parsed are absent).
    Listed(Vec<ElevenLabsModelsResponseEntry>),
    /// The model list was refused but the key was accepted by the user endpoint.
    KeyVerified,
    /// Neither endpoint accepted the key.
    Failed,
}

/// The verification outcomes after the OpenAI-compatible fetches; ElevenLabs
/// entries among them are ignored, being handled on their own.
pub open spec fn verified_after(state: RemoteVerification, fs: Seq<(Provider, ProviderFetch)>) -> RemoteVerification
    decreases fs.len(),
{
    if fs.len() == 0 {
        state
    } else {
        let prev = verified_after(state, fs.drop_last());
        let (p, f) = fs.last();
        if p == Provider::ElevenLabs {
            prev
        } else {
            with_verified(prev, p, f is Listed)
        }
    }
}

/// The speech-to-text entries the OpenAI-compatible fetches contribute.
pub open spec fn fetched_stt(fs: Seq<(Provider, ProviderFetch)>) -> Seq<ModelInfoView>
    decreases fs.len(),
{
    if fs.len() == 0 {
        seq![]
    } else {
        let (p, f) = fs.last();
        fetched_stt(fs.drop_last()) + match f {
            ProviderFetch::Listed(es) => if p == Provider::ElevenLabs {
                seq![]
            } else {
                provider_stt_additions(p, es@)
            },
            _ => seq![],
        }
    }
}

/// The cleanup entries the OpenAI-compatible fetches contribute.
pub open spec fn fetched_llm(fs: Seq<(Provider, ProviderFetch)>) -> Seq<ModelInfoView>
    decreases fs.len(),
{
    if fs.len() == 0 {
        seq![]
    } else {
        let (p, f) = fs.last();
        fetched_llm(fs.drop_last()) + match f {
            ProviderFetch::Listed(es) => if p == Provider::ElevenLabs {
                seq![]
            } else {
                provider_llm_additions(p, es@)
            },
            _ => seq![],
        }
    }
}

/// The speech-to-text entries ElevenLabs contributes.
pub open spec fn elevenlabs_stt(f: Option<ElevenLabsFetch>) -> Seq<ModelInfoView> {
    match f {
        Some(ElevenLabsFetch::Listed(es)) => scribe_additions(es@),
        Some(ElevenLabsFetch::KeyVerified) => scribe_additions(seq![]),
        _ => seq![],
    }
}

/// The verification outcomes once ElevenLabs is accounted for.
pub open spec fn elevenlabs_verified(state: RemoteVerification, f: Option<ElevenLabsFetch>) -> RemoteVerification {
    match f {
        Some(g) => with_verified(
            state,
            Provider::ElevenLabs,
            g is Listed || g is KeyVerified,
        ),
        None => state,
    }
}

/// Records each provider's outcome and gathers the models the answers list:
/// speech-to-text models first, then cleanup models.
pub fn collect_fetched_models(
    state: &mut RemoteVerification,
    fetches: &Vec<(Provider, ProviderFetch)>,
    elevenlabs: Option<ElevenLabsFetch>,
) -> (r: (Vec<ModelInfo>, Vec<ModelInfo>))
    ensures
        *final(state) == elevenlabs_verified(verified_after(*old(state), fetches@), elevenlabs),
        views(r.0@) == fetched_stt(fetches@) + elevenlabs_stt(elevenlabs),
        views(r.1@) == fetched_llm(fetches@),
{
    let ghost fs = fetches@;
    let ghost start = *state;
    let mut stt: Vec<ModelInfo> = Vec::new();
    let mut llm: Vec<ModelInfo> = Vec::new();
    let mut i: usize = 0;
    assert(fs.take(0) =~= Seq::<(Provider, ProviderFetch)>::empty());
    while i < fetches.len()
        invariant
            fs == fetches@,
            i <= fs.len(),
            *state == verified_after(start, fs.take(i as int)),
            views(stt@) == fetched_stt(fs.take(i as int)),
            views(llm@) == fetched_llm(fs.take(i as int)),
        decreases fs.len() - i,
    {
        let provider = fetches[i].0;
        assert(fs.take(i + 1).drop_last() =~= fs.take(i as int));
        if provider != Provider::ElevenLabs {
            match &fetches[i].1 {
                ProviderFetch::Listed(entries) => {
                    set_remote_provider_verified(state, provider, true);
                    classify_remote_models(provider, entries, &mut stt, &mut llm);
                },
                _ => {
                    set_remote_provider_verified(state, provider, false);
                    assert(views(stt@) =~= fetched_stt(fs.take(i + 1)));
                    assert(views(llm@) =~= fetched_llm(fs.take(i + 1)));
                },
            }
            assert(*state == with_verified(verified_after(start, fs.take(i as int)), provider, fetches@[i as int].1 is Listed));
        } else {
            assert(views(stt@) =~= fetched_stt(fs.take(i + 1)));
            assert(views(llm@) =~= fetched_llm(fs.take(i + 1)));
        }
        i = i + 1;
    }
    assert(fs.take(fs.len() as int) =~= fs);
    let ghost mid = views(stt@);
    match elevenlabs {
        Some(ElevenLabsFetch::Listed(entries)) => {
            set_remote_provider_verified(state, Provider::ElevenLabs, true);
            append_elevenlabs_scribe_models(&mut stt, entries);
        },
        Some(ElevenLabsFetch::KeyVerified) => {
            set_remote_provider_verified(state, Provider::ElevenLabs, true);
            append_elevenlabs_scribe_models(&mut stt, Vec::new());
            assert(Seq::<ElevenLabsModelsResponseEntry>::empty() =~= seq![]);
        },
        Some(_) => {
            set_remote_provider_verified(state, Provider::ElevenLabs, false);
            assert(views(stt@) =~= mid + seq![]);
        },
        None => {
            assert(views(stt@) =~= mid + seq![]);
        },
    }
    (stt, llm)
}

/// Keeps a fetched list in the cache only when it is not empty, so that a
/// failed refresh does not erase the last good lists.
pub fn store_fetched_models(cache: &mut ModelCache, stt: Vec<ModelInfo>, llm: Vec<ModelInfo>)
    ensures
        final(cache).stt@ == if stt@.len() > 0 { stt@ } else { old(cache).stt@ },
        final(cache).llm@ == if llm@.len() > 0 { llm@ } else { old(cache).llm@ },
{
    if stt.len() > 0 {
        cache.stt = stt;
    }
    if llm.len() > 0 {
        cache.llm = llm;
    }
}

/// Ends a refresh of the remote model lists: records each provider's outcome,
/// sorts the gathered lists by provider and identifier and keeps the non-empty
/// ones in the cache.
pub fn finish_model_fetch(
    cache: &mut ModelCache,
    state: &mut RemoteVerification,
    fetches: &Vec<(Provider, ProviderFetch)>,
    elevenlabs: Option<ElevenLabsFetch>,
)
    ensures
        *final(state) == elevenlabs_verified(verified_after(*old(state), fetches@), elevenlabs),
        ({
            let s = fetched_stt(fetches@) + elevenlabs_stt(elevenlabs);
            views(final(cache).stt@) == if s.len() > 0 { isort(s) } else { views(old(cache).stt@) }
        }),
        ({
            let l = fetched_llm(fetches@);
            views(final(cache).llm@) == if l.len() > 0 { isort(l) } else { views(old(cache).llm@) }
        }),
{
    let (stt, llm) = collect_fetched_models(state, fetches, elevenlabs);
    let stt_sorted = sort_models(&stt);
    let llm_sorted = sort_models(&llm);
    proof {
        broadcast use vstd::seq_lib::group_to_multiset_ensures;
        law_sort_orders_and_keeps(views(stt@));
        law_sort_orders_and_keeps(views(llm@));
        assert(views(stt_sorted@).len() == stt_sorted@.len());
        assert(views(llm_sorted@).len() == llm_sorted@.len());
        assert(views(stt@).len() == stt@.len());
        assert(views(llm@).len() == llm@.len());
    }
    store_fetched_models(cache, stt_sorted, llm_sorted);
}

/// `s` without the slashes at its end (`str::trim_end_matches('/')`).
pub open spec fn strip_trailing_slashes(s: Seq<char>) -> Seq<char>
    decreases s.len(),
{
    if s.len() > 0 && s.last() == '/' {
        strip_trailing_slashes(s.drop_last())
    } else {
        s
    }
}

/// The address of `path` under a provider's base URL; slashes at the end of
/// the base URL are dropped first.
pub fn endpoint_url(base_url: &str, path: &str) -> (r: String)
    ensures
        r@ == strip_trailing_slashes(base_url@) + path@,
{
    let b = chars_of(base_url);
    let mut n = b.len();
    assert(b@.take(n as int) =~= b@);
    while n > 0 && b[n - 1] == '/'
        invariant
            n <= b@.len(),
            strip_trailing_slashes(b@) == strip_trailing_slashes(b@.take(n as int)),
        decreases n,
    {
        assert(b@.take(n as int).drop_last() =~= b@.take(n - 1));
        n = n - 1;
    }
    let p = chars_of(path);
    let mut out: Vec<char> = Vec::new();
    let mut i: usize = 0;
    while i < n
        invariant
            n <= b@.len(),
            i <= n,
            out@ == b@.take(i as int),
        decreases n - i,
    {
        out.push(b[i]);
        i = i + 1;
        assert(out@ =~= b@.take(i as int));
    }
    let mut j: usize = 0;
    while j < p.len()
        invariant
            j <= p@.len(),
            out@ == b@.take(n as int) + p@.take(j as int),
        decreases p.len() - j,
    {
        out.push(p[j]);
        j = j + 1;
        assert(out@ =~= b@.take(n as int) + p@.take(j as int));
    }
    assert(p@.take(p@.len() as int) =~= p@);
    assert(strip_trailing_slashes(b@.take(n as int)) == b@.take(n as int));
    string_of(out.as_slice())
}

} // verus!
