//! The local models in the settings list: the action next to each, how many
//! downloads are under way, and the order in which a locale search lists them.
use vstd::prelude::*;

use crate::config::{opt_sel_view, sel_view, GlideConfig, Provider, Style};
use crate::local_models::{LocalModelInstallState, LocalModels};
use crate::model_catalog::defaults::{same_except_selections, smart_stt_spec};
use crate::model_catalog::smart_stt_default;
use crate::model_catalog::verification::RemoteVerification;
use crate::model_catalog::sort::{lemma_lex_antisym, lemma_lex_total, lemma_lex_trans, lex_le, lex_le_exec};
use crate::pipeline::string_views;
use crate::text::{chars_of, str_eq, string_of, trim, trimmed};
use crate::ui::helpers::{rank_by_score, ranks_before};

verus! {

/// The button shown on a Parakeet model's row.
#[derive(Debug, Clone, Copy, PartialEq, Eq, Structural)]
pub enum ParakeetRowActionKind {
    Download,
    Cancel,
    NoAction,
    Delete,
    Retry,
}

/// A model not installed can be downloaded, a download in progress cancelled,
/// an installed model deleted and a failed download retried; while a download
/// is being cancelled no action is offered.
pub fn parakeet_row_action_kind(state: &LocalModelInstallState) -> (r: ParakeetRowActionKind)
    ensures
        r == match *state {
            LocalModelInstallState::NotInstalled => ParakeetRowActionKind::Download,
            LocalModelInstallState::Downloading { .. } => ParakeetRowActionKind::Cancel,
            LocalModelInstallState::Cancelling { .. } => ParakeetRowActionKind::NoAction,
            LocalModelInstallState::Installed { .. } => ParakeetRowActionKind::Delete,
            LocalModelInstallState::Failed(_) => ParakeetRowActionKind::Retry,
        },
{
    match state {
        LocalModelInstallState::NotInstalled => ParakeetRowActionKind::Download,
        LocalModelInstallState::Downloading { .. } => ParakeetRowActionKind::Cancel,
        LocalModelInstallState::Cancelling { .. } => ParakeetRowActionKind::NoAction,
        LocalModelInstallState::Installed { .. } => ParakeetRowActionKind::Delete,
        LocalModelInstallState::Failed(_) => ParakeetRowActionKind::Retry,
    }
}

/// Download state of an Apple Speech locale, as its settings row reads it
/// (the progress of a download is shown by the interface and not modelled).
#[derive(Debug, Clone, PartialEq, Eq)]
pub enum AppleSpeechInstallState {
    NotInstalled,
    Downloading,
    Cancelling,
    Installed,
    Failed(String),
}

/// What the row of an Apple Speech locale offers.
#[derive(Debug, Clone, Copy, PartialEq, Eq, Structural)]
pub enum AppleSpeechRowActionKind {
    Download,
    Progress,
    Cancelling,
    Delete,
    Retry,
}

/// The row of an Apple Speech locale: a locale not installed is listed only
/// when asked for (`None` otherwise) and offers a download; a download in
/// progress shows its progress, a cancellation its state; an installed locale
/// can be deleted and a failed download retried.
pub fn apple_speech_row_action(state: &AppleSpeechInstallState, show_not_installed: bool) -> (r:
    Option<AppleSpeechRowActionKind>)
    ensures
        r == match *state {
            AppleSpeechInstallState::NotInstalled => if show_not_installed {
                Some(AppleSpeechRowActionKind::Download)
            } else {
                None
            },
            AppleSpeechInstallState::Downloading => Some(AppleSpeechRowActionKind::Progress),
            AppleSpeechInstallState::Cancelling => Some(AppleSpeechRowActionKind::Cancelling),
            AppleSpeechInstallState::Installed => Some(AppleSpeechRowActionKind::Delete),
            AppleSpeechInstallState::Failed(_) => Some(AppleSpeechRowActionKind::Retry),
        },
{
    match state {
        AppleSpeechInstallState::NotInstalled => if show_not_installed {
            Some(AppleSpeechRowActionKind::Download)
        } else {
            None
        },
        AppleSpeechInstallState::Downloading => Some(AppleSpeechRowActionKind::Progress),
        AppleSpeechInstallState::Cancelling => Some(AppleSpeechRowActionKind::Cancelling),
        AppleSpeechInstallState::Installed => Some(AppleSpeechRowActionKind::Delete),
        AppleSpeechInstallState::Failed(_) => Some(AppleSpeechRowActionKind::Retry),
    }
}

/// The detail line of an Apple Speech locale: its asset status, preceded by
/// the locale and a middle dot when the locale is known.
pub open spec fn apple_speech_detail_spec(locale_id: Seq<char>, asset_status: Seq<char>) -> Seq<
    char,
> {
    if locale_id.len() == 0 {
        asset_status
    } else {
        locale_id + " \u{b7} "@ + asset_status
    }
}

/// The detail line shown under an Apple Speech locale's name.
pub fn apple_speech_row_detail(locale_id: &str, asset_status: &str) -> (r: String)
    ensures
        r@ == apple_speech_detail_spec(locale_id@, asset_status@),
{
    let mut v = chars_of(locale_id);
    if v.len() == 0 {
        return asset_status.to_owned();
    }
    let mut sep = chars_of(" \u{b7} ");
    let mut rest = chars_of(asset_status);
    v.append(&mut sep);
    v.append(&mut rest);
    string_of(v.as_slice())
}

/// The selection is `model` of `provider`.
pub open spec fn selects(sel: (Provider, Seq<char>), provider: Provider, model: Seq<char>) -> bool {
    sel.0 == provider && sel.1 == model
}

/// The optional selection is `model` of `provider`.
pub open spec fn uses_model(o: Option<(Provider, Seq<char>)>, provider: Provider, model: Seq<char>) -> bool {
    match o {
        Some(s) => selects(s, provider, model),
        None => false,
    }
}

/// A style's speech-to-text selection after `model` of `provider` was deleted.
pub open spec fn forget_opt(o: Option<(Provider, Seq<char>)>, provider: Provider, model: Seq<char>) -> Option<
    (Provider, Seq<char>),
> {
    match o {
        Some(s) => if selects(s, provider, model) {
            None
        } else {
            o
        },
        None => None,
    }
}

/// Each style keeps its fields, but one that used the deleted model for
/// speech-to-text falls back to the default model.
pub open spec fn styles_forget(
    old: Seq<Style>,
    new: Seq<Style>,
    provider: Provider,
    model: Seq<char>,
) -> bool {
    &&& new.len() == old.len()
    &&& forall|i: int|
        0 <= i < old.len() ==> {
            &&& (#[trigger] new[i]).name == old[i].name
            &&& new[i].apps == old[i].apps
            &&& new[i].prompt == old[i].prompt
            &&& new[i].llm == old[i].llm
            &&& opt_sel_view(new[i].stt) == forget_opt(opt_sel_view(old[i].stt), provider, model)
        }
}

/// The configuration after the local model `model` of `provider` was deleted:
/// the default speech-to-text selection, when it was that model, moves to the
/// preferred working model (and stays when there is none), and the styles that
/// used it fall back to the default. Nothing else changes.
pub fn forget_deleted_stt_model(
    config: &mut GlideConfig,
    provider: Provider,
    model: &str,
    state: &RemoteVerification,
    local: &LocalModels,
)
    ensures
        sel_view(final(config).dictation.stt) == if selects(
            sel_view(old(config).dictation.stt),
            provider,
            model@,
        ) && smart_stt_spec(*state, *local) is Some {
            smart_stt_spec(*state, *local)->0
        } else {
            sel_view(old(config).dictation.stt)
        },
        final(config).dictation.llm == old(config).dictation.llm,
        final(config).dictation.smart_defaults_applied == old(config).dictation.smart_defaults_applied,
        same_except_selections(*old(config), *final(config)),
        styles_forget(old(config).dictation.styles@, final(config).dictation.styles@, provider, model@),
        forall|i: int|
            0 <= i < final(config).dictation.styles@.len() ==> !uses_model(
                opt_sel_view((#[trigger] final(config).dictation.styles@[i]).stt),
                provider,
                model@,
            ),
{
    if config.dictation.stt.provider == provider && str_eq(config.dictation.stt.model.as_str(), model) {
        if let Some(default) = smart_stt_default(state, local) {
            config.dictation.stt = default;
        }
    }
    let ghost old_styles = config.dictation.styles@;
    let ghost stt_view = sel_view(config.dictation.stt);
    let ghost before = *config;
    let mut i: usize = 0;
    while i < config.dictation.styles.len()
        invariant
            sel_view(config.dictation.stt) == stt_view,
            config.dictation.llm == before.dictation.llm,
            config.dictation.smart_defaults_applied == before.dictation.smart_defaults_applied,
            same_except_selections(before, *config),
            i <= config.dictation.styles@.len(),
            config.dictation.styles@.len() == old_styles.len(),
            forall|k: int|
                i <= k < old_styles.len() ==> (#[trigger] config.dictation.styles@[k]) == old_styles[k],
            forall|k: int|
                0 <= k < i ==> {
                    &&& (#[trigger] config.dictation.styles@[k]).name == old_styles[k].name
                    &&& config.dictation.styles@[k].apps == old_styles[k].apps
                    &&& config.dictation.styles@[k].prompt == old_styles[k].prompt
                    &&& config.dictation.styles@[k].llm == old_styles[k].llm
                    &&& opt_sel_view(config.dictation.styles@[k].stt) == forget_opt(
                        opt_sel_view(old_styles[k].stt),
                        provider,
                        model@,
                    )
                },
        decreases old_styles.len() - i,
    {
        let uses_deleted = match &config.dictation.styles[i].stt {
            Some(stt) => stt.provider == provider && str_eq(stt.model.as_str(), model),
            None => false,
        };
        if uses_deleted {
            let mut style = Style {
                name: String::new(),
                apps: Vec::new(),
                prompt: String::new(),
                stt: None,
                llm: None,
            };
            config.dictation.styles.set_and_swap(i, &mut style);
            style.stt = None;
            config.dictation.styles.set_and_swap(i, &mut style);
        }
        i = i + 1;
    }
}

/// The locale's download is under way or being cancelled.
pub open spec fn download_active(state: AppleSpeechInstallState) -> bool {
    state is Downloading || state is Cancelling
}

/// How many of the locales are downloading or cancelling a download.
pub open spec fn active_count(states: Seq<AppleSpeechInstallState>) -> nat
    decreases states.len(),
{
    if states.len() == 0 {
        0
    } else {
        active_count(states.drop_last()) + if download_active(states.last()) {
            1nat
        } else {
            0nat
        }
    }
}

/// The number of Apple Speech locales whose download is under way or being
/// cancelled, shown in the provider's header.
pub fn active_download_count(states: &Vec<AppleSpeechInstallState>) -> (r: usize)
    ensures
        r == active_count(states@),
{
    let mut count: usize = 0;
    let mut i: usize = 0;
    assert(states@.take(0) =~= Seq::<AppleSpeechInstallState>::empty());
    while i < states.len()
        invariant
            i <= states@.len(),
            count == active_count(states@.take(i as int)),
            count <= i,
        decreases states.len() - i,
    {
        assert(states@.take(i + 1).drop_last() =~= states@.take(i as int));
        match &states[i] {
            AppleSpeechInstallState::Downloading => count = count + 1,
            AppleSpeechInstallState::Cancelling => count = count + 1,
            _ => {},
        }
        i = i + 1;
    }
    assert(states@.take(states@.len() as int) =~= states@);
    count
}

/// Entry `a` comes before entry `b` by display name (code point order), ties
/// in list order.
pub open spec fn name_before(names: Seq<Seq<char>>, a: usize, b: usize) -> bool {
    let na = names[a as int];
    let nb = names[b as int];
    (lex_le(na, nb) && na != nb) || (na == nb && a < b)
}

proof fn lemma_name_before_trans(names: Seq<Seq<char>>, a: usize, b: usize, c: usize)
    requires
        name_before(names, a, b),
        name_before(names, b, c),
    ensures
        name_before(names, a, c),
{
    let na = names[a as int];
    let nb = names[b as int];
    let nc = names[c as int];
    if na != nb && nb != nc {
        lemma_lex_trans(na, nb, nc);
        if na == nc {
            lemma_lex_antisym(na, nb);
        }
    }
}

/// The positions of the entries ordered by name, ties in list order (a
/// stable sort by display name).
pub fn sort_by_name(names: &Vec<String>) -> (r: Vec<usize>)
    ensures
        forall|k: int| 0 <= k < r@.len() ==> (#[trigger] r@[k]) < names@.len(),
        forall|i: int| 0 <= i < names@.len() ==> #[trigger] r@.contains(i as usize),
        forall|k: int, l: int|
            0 <= k < l < r@.len() ==> name_before(string_views(names@), #[trigger] r@[k], #[trigger] r@[l]),
{
    let ghost nv = string_views(names@);
    let mut out: Vec<usize> = Vec::new();
    let mut i: usize = 0;
    while i < names.len()
        invariant
            i <= names@.len(),
            nv == string_views(names@),
            forall|k: int| 0 <= k < out@.len() ==> (#[trigger] out@[k]) < i,
            forall|j: int| 0 <= j < i ==> #[trigger] out@.contains(j as usize),
            forall|k: int, l: int|
                0 <= k < l < out@.len() ==> name_before(nv, #[trigger] out@[k], #[trigger] out@[l]),
        decreases names.len() - i,
    {
        let name = chars_of(names[i].as_str());
        let mut pos: usize = 0;
        while pos < out.len() && lex_le_exec(chars_of(names[out[pos]].as_str()).as_slice(), name.as_slice())
            invariant
                pos <= out@.len(),
                i < names@.len(),
                name@ == nv[i as int],
                nv == string_views(names@),
                forall|k: int| 0 <= k < out@.len() ==> (#[trigger] out@[k]) < i,
                forall|k: int| 0 <= k < pos ==> name_before(nv, #[trigger] out@[k], i),
            decreases out.len() - pos,
        {
            assert(names@[out@[pos as int] as int]@ == nv[out@[pos as int] as int]);
            pos = pos + 1;
        }
        let ghost prev = out@;
        proof {
            if pos < prev.len() {
                let np = nv[prev[pos as int] as int];
                assert(names@[prev[pos as int] as int]@ == np);
                assert(!lex_le(np, nv[i as int]));
                lemma_lex_total(np, nv[i as int]);
                assert(name_before(nv, i, prev[pos as int]));
            }
        }
        out.insert(pos, i);
        assert forall|k: int, l: int| 0 <= k < l < out@.len() implies name_before(
            nv,
            #[trigger] out@[k],
            #[trigger] out@[l],
        ) by {
            if l < pos {
                assert(out@[k] == prev[k] && out@[l] == prev[l]);
            } else if l == pos {
                assert(out@[k] == prev[k]);
            } else if k < pos {
                assert(out@[k] == prev[k] && out@[l] == prev[l - 1]);
                assert(name_before(nv, prev[k], i));
                if l - 1 > pos {
                    lemma_name_before_trans(nv, i, prev[pos as int], prev[l - 1]);
                }
                lemma_name_before_trans(nv, prev[k], i, prev[l - 1]);
            } else if k == pos {
                assert(out@[l] == prev[l - 1]);
                if l - 1 > pos {
                    lemma_name_before_trans(nv, i, prev[pos as int], prev[l - 1]);
                }
            } else {
                assert(out@[k] == prev[k - 1] && out@[l] == prev[l - 1]);
            }
        }
        assert forall|j: int| 0 <= j <= i implies #[trigger] out@.contains(j as usize) by {
            if j == i {
                assert(out@[pos as int] == i);
            } else {
                assert(prev.contains(j as usize));
                let w = choose|w: int| 0 <= w < prev.len() && prev[w] == j as usize;
                if w < pos {
                    assert(out@[w] == j as usize);
                } else {
                    assert(out@[w + 1] == j as usize);
                }
            }
        }
        assert forall|k: int| 0 <= k < out@.len() implies (#[trigger] out@[k]) < i + 1 by {
            if k < pos {
                assert(out@[k] == prev[k]);
            } else if k > pos {
                assert(out@[k] == prev[k - 1]);
            }
        }
        i = i + 1;
    }
    out
}

/// One locale offered in the search: its display name and how well its
/// display name and its locale identifier matched the query (`None` for no
/// match).
#[derive(Debug, Clone)]
pub struct LocaleSearchEntry {
    pub display_name: String,
    pub label_score: Option<i64>,
    pub locale_score: Option<i64>,
}

/// A locale's score: its display name's, else its identifier's.
pub open spec fn locale_score(e: LocaleSearchEntry) -> Option<i64> {
    match e.label_score {
        Some(s) => Some(s),
        None => e.locale_score,
    }
}

/// The scores of all entries.
pub open spec fn locale_scores(es: Seq<LocaleSearchEntry>) -> Seq<Option<i64>> {
    Seq::new(es.len(), |i: int| locale_score(es[i]))
}

/// The display names of all entries.
pub open spec fn locale_names(es: Seq<LocaleSearchEntry>) -> Seq<Seq<char>> {
    Seq::new(es.len(), |i: int| es[i].display_name@)
}

/// The positions of the locales listed for a search in the Apple Speech
/// picker. A blank query lists every locale by display name; otherwise
/// exactly the locales that scored are listed, best first, ties in list order.
pub fn locale_search_order(query: &str, entries: &Vec<LocaleSearchEntry>) -> (r: Vec<usize>)
    ensures
        trim(query@).len() == 0 ==> {
            &&& forall|k: int| 0 <= k < r@.len() ==> (#[trigger] r@[k]) < entries@.len()
            &&& forall|i: int| 0 <= i < entries@.len() ==> #[trigger] r@.contains(i as usize)
            &&& forall|k: int, l: int|
                0 <= k < l < r@.len() ==> name_before(
                    locale_names(entries@),
                    #[trigger] r@[k],
                    #[trigger] r@[l],
                )
        },
        trim(query@).len() > 0 ==> ({
            let scores = locale_scores(entries@);
            &&& forall|k: int|
                0 <= k < r@.len() ==> (#[trigger] r@[k]) < scores.len() && scores[r@[k] as int] is Some
            &&& forall|i: int|
                0 <= i < scores.len() && (#[trigger] scores[i]) is Some ==> r@.contains(i as usize)
            &&& forall|k: int, l: int|
                0 <= k < l < r@.len() ==> ranks_before(scores, #[trigger] r@[k], #[trigger] r@[l])
        }),
{
    let q = chars_of(query);
    if trimmed(q.as_slice()).len() == 0 {
        let mut names: Vec<String> = Vec::new();
        let mut i: usize = 0;
        while i < entries.len()
            invariant
                i <= entries@.len(),
                names@.len() == i,
                string_views(names@) == locale_names(entries@.take(i as int)),
            decreases entries.len() - i,
        {
            let ghost prev = names@;
            names.push(entries[i].display_name.clone());
            proof {
                assert forall|k: int| 0 <= k < names@.len() implies string_views(names@)[k] == locale_names(
                    entries@.take(i + 1),
                )[k] by {
                    if k < i {
                        assert(names@[k] == prev[k]);
                        assert(string_views(prev)[k] == locale_names(entries@.take(i as int))[k]);
                    }
                }
            }
            i = i + 1;
            assert(string_views(names@) =~= locale_names(entries@.take(i as int)));
        }
        assert(entries@.take(entries@.len() as int) =~= entries@);
        return sort_by_name(&names);
    }
    let mut scores: Vec<Option<i64>> = Vec::new();
    let mut i: usize = 0;
    while i < entries.len()
        invariant
            i <= entries@.len(),
            scores@ == locale_scores(entries@.take(i as int)),
        decreases entries.len() - i,
    {
        let s = match entries[i].label_score {
            Some(x) => Some(x),
            None => entries[i].locale_score,
        };
        scores.push(s);
        i = i + 1;
        assert(scores@ =~= locale_scores(entries@.take(i as int)));
    }
    assert(entries@.take(entries@.len() as int) =~= entries@);
    rank_by_score(&scores)
}

} // verus!
