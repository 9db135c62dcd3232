//! How the settings screens name models, rank them for a search, and turn
//! cleanup off.
use vstd::prelude::*;

use crate::config::{opt_sel_view, GlideConfig};
use crate::local_models::LocalModels;
use crate::model_catalog::defaults::defaults_llm_spec;
use crate::model_catalog::verification::RemoteVerification;
use crate::model_catalog::types::{ModelInfo, ModelInfoView};
use crate::stt::last_segment;
use crate::text::{chars_of, is_blank, starts_with, str_eq, string_of, trim};

verus! {

/// `value` without a leading `prefix/`, when something follows it.
pub open spec fn strip_segment_spec(value: Seq<char>, prefix: Seq<char>) -> Option<Seq<char>> {
    let head = prefix.push('/');
    if starts_with(value, head) && value.len() > head.len() {
        Some(value.skip(head.len() as int))
    } else {
        None
    }
}

/// The routing prefixes shown in front of model names by each provider.
pub open spec fn display_prefixes(provider: Option<Seq<char>>) -> Seq<Seq<char>> {
    match provider {
        Some(p) => if p == "Fireworks"@ {
            seq!["accounts/fireworks/models"@]
        } else if p == "Groq"@ {
            seq!["openai"@, "meta-llama"@]
        } else {
            seq![]
        },
        None => seq!["accounts/fireworks/models"@, "openai"@, "meta-llama"@],
    }
}

/// `value` stripped of the first of `ps` (from index `k` on) that prefixes it.
pub open spec fn strip_first(value: Seq<char>, ps: Seq<Seq<char>>, k: int) -> Seq<char>
    decreases ps.len() - k,
{
    if k < 0 || k >= ps.len() {
        value
    } else {
        match strip_segment_spec(value, ps[k]) {
            Some(rest) => rest,
            None => strip_first(value, ps, k + 1),
        }
    }
}

/// A model name without the provider's routing prefix.
pub open spec fn strip_display_spec(value: Seq<char>, provider: Option<Seq<char>>) -> Seq<char> {
    strip_first(value, display_prefixes(provider), 0)
}

/// The short name of a model identifier: known prefixes dropped, then the
/// part after the last `/`.
pub open spec fn display_model_name_spec(id: Seq<char>) -> Seq<char> {
    last_segment(strip_display_spec(id, None))
}

/// The name a model is listed under.
pub open spec fn model_display_name_spec(m: ModelInfoView) -> Seq<char> {
    if is_blank(m.display_name) {
        display_model_name_spec(m.id)
    } else {
        strip_display_spec(m.display_name, Some(m.provider))
    }
}

/// `value` without a leading `prefix/`, when something follows it.
pub fn strip_segment_prefix<'a>(value: &'a str, prefix: &str) -> (r: Option<&'a str>)
    ensures
        r is Some == strip_segment_spec(value@, prefix@) is Some,
        r matches Some(rest) ==> rest@ == strip_segment_spec(value@, prefix@)->0,
{
    let v = chars_of(value);
    let mut head = chars_of(prefix);
    head.push('/');
    if !crate::text::starts_with_exec(v.as_slice(), head.as_slice()) || v.len() <= head.len() {
        return None;
    }
    let n = v.len();
    proof {
        assert(n == value@.len());
    }
    let rest = value.substring_char(head.len(), n);
    assert(rest@ =~= value@.skip(head@.len() as int));
    Some(rest)
}

/// A model name without the provider's routing prefix (known providers only).
pub fn strip_model_display_prefix<'a>(value: &'a str, provider: Option<&str>) -> (r: &'a str)
    ensures
        r@ == strip_display_spec(
            value@,
            match provider {
                Some(p) => Some(p@),
                None => None,
            },
        ),
{
    let ghost pv: Option<Seq<char>> = match provider {
        Some(p) => Some(p@),
        None => None,
    };
    let prefixes: Vec<&str> = match provider {
        Some(p) => if str_eq(p, "Fireworks") {
            vec!["accounts/fireworks/models"]
        } else if str_eq(p, "Groq") {
            vec!["openai", "meta-llama"]
        } else {
            vec![]
        },
        None => vec!["accounts/fireworks/models", "openai", "meta-llama"],
    };
    let ghost ps = display_prefixes(pv);
    assert(prefixes@.map_values(|s: &str| s@) =~= ps);
    let mut k: usize = 0;
    while k < prefixes.len()
        invariant
            k <= prefixes@.len(),
            ps == display_prefixes(pv),
            pv == (match provider {
                Some(p) => Some(p@),
                None => None::<Seq<char>>,
            }),
            prefixes@.len() == ps.len(),
            forall|j: int| 0 <= j < ps.len() ==> (#[trigger] prefixes@[j])@ == ps[j],
            strip_first(value@, ps, 0) == strip_first(value@, ps, k as int),
        decreases prefixes.len() - k,
    {
        if let Some(rest) = strip_segment_prefix(value, prefixes[k]) {
            return rest;
        }
        k = k + 1;
    }
    value
}

/// The short name of a model identifier.
pub fn display_model_name(id: &str) -> (r: &str)
    ensures
        r@ == display_model_name_spec(id@),
{
    let s = strip_model_display_prefix(id, None);
    let v = chars_of(s);
    let n = v.len();
    let mut start = n;
    assert(v@.take(start as int) =~= v@);
    assert(v@.subrange(start as int, n as int) =~= Seq::<char>::empty());
    assert(last_segment(v@) + Seq::<char>::empty() =~= last_segment(v@));
    while start > 0 && v[start - 1] != '/'
        invariant
            start <= n,
            n == v@.len(),
            last_segment(v@) == last_segment(v@.take(start as int)) + v@.subrange(
                start as int,
                n as int,
            ),
        decreases start,
    {
        let ghost t = v@.take(start as int);
        assert(t.drop_last() =~= v@.take(start - 1));
        assert(v@.subrange(start - 1, n as int) =~= seq![t.last()] + v@.subrange(
            start as int,
            n as int,
        ));
        assert(last_segment(t) =~= last_segment(t.drop_last()).push(t.last()));
        assert(last_segment(t.drop_last()).push(t.last()) + v@.subrange(start as int, n as int)
            =~= last_segment(t.drop_last()) + (seq![t.last()] + v@.subrange(start as int, n as int)));
        start = start - 1;
    }
    assert(last_segment(v@.take(start as int)) =~= Seq::<char>::empty()) by {
        if start > 0 {
            assert(v@.take(start as int).last() == '/');
        }
    }
    s.substring_char(start, n)
}

/// The name a model is listed under: its display name without the
/// provider's routing prefix, or the short form of its identifier when the
/// display name is blank.
pub fn model_display_name(model: &ModelInfo) -> (r: String)
    ensures
        r@ == model_display_name_spec(model@),
{
    let d = chars_of(model.display_name.as_str());
    if crate::text::blank(d.as_slice()) {
        display_model_name(model.id.as_str()).to_owned()
    } else {
        strip_model_display_prefix(model.display_name.as_str(), Some(model.provider.as_str())).to_owned()
    }
}

/// The index of the first model with identifier `id`.
pub open spec fn first_with_id(models: Seq<ModelInfo>, id: Seq<char>, from: int) -> Option<int>
    decreases models.len() - from,
{
    if from < 0 || from >= models.len() {
        None
    } else if models[from].id@ == id {
        Some(from)
    } else {
        first_with_id(models, id, from + 1)
    }
}

/// The label of the selected model: its listed name when the list has it,
/// else the short form of its identifier.
pub fn model_label_for(id: &str, models: &[ModelInfo]) -> (r: String)
    ensures
        r@ == match first_with_id(models@, id@, 0) {
            Some(i) => model_display_name_spec(models@[i]@),
            None => display_model_name_spec(id@),
        },
{
    let mut i: usize = 0;
    while i < models.len()
        invariant
            i <= models@.len(),
            first_with_id(models@, id@, 0) == first_with_id(models@, id@, i as int),
        decreases models.len() - i,
    {
        if str_eq(models[i].id.as_str(), id) {
            return model_display_name(&models[i]);
        }
        i = i + 1;
    }
    display_model_name(id).to_owned()
}

/// Turns cleanup off, and records that the defaults ran, so that the smart
/// defaults do not turn it back on.
pub fn disable_llm_rewrite(config: &mut GlideConfig)
    ensures
        final(config).dictation.llm is None,
        final(config).dictation.smart_defaults_applied,
        final(config).dictation.stt == old(config).dictation.stt,
        final(config).dictation.styles == old(config).dictation.styles,
        final(config).dictation.system_prompt == old(config).dictation.system_prompt,
        final(config).providers == old(config).providers,
        final(config).dictionary == old(config).dictionary,
        final(config).paste == old(config).paste,
{
    config.dictation.llm = None;
    config.dictation.smart_defaults_applied = true;
}

/// Turning cleanup off lasts: the smart defaults that run at every launch
/// leave it off, whatever providers and models are available.
pub proof fn law_disabled_cleanup_stays_disabled(
    state: RemoteVerification,
    local: LocalModels,
    config: GlideConfig,
)
    requires
        config.dictation.llm is None,
        config.dictation.smart_defaults_applied,
    ensures
        defaults_llm_spec(state, local, opt_sel_view(config.dictation.llm)) is None,
{
}

/// Model `a` is listed before model `b` in search results: it scored higher,
/// or as high and came first in the catalog.
pub open spec fn ranks_before(scores: Seq<Option<i64>>, a: usize, b: usize) -> bool {
    let sa = scores[a as int]->0;
    let sb = scores[b as int]->0;
    sa > sb || (sa == sb && a < b)
}

/// The score of each model for a search: its identifier's score, else its
/// display name's (`None` when neither matched).
pub open spec fn combined_scores(match_scores: Seq<(Option<i64>, Option<i64>)>) -> Seq<Option<i64>> {
    Seq::new(
        match_scores.len(),
        |i: int|
            match match_scores[i].0 {
                Some(s) => Some(s),
                None => match_scores[i].1,
            },
    )
}

/// The positions `0`, `1`, ... up to `n`, excluded.
pub fn all_positions(n: usize) -> (r: Vec<usize>)
    ensures
        r@ == Seq::new(n as nat, |i: int| i as usize),
{
    let mut out: Vec<usize> = Vec::new();
    let mut i: usize = 0;
    while i < n
        invariant
            i <= n,
            out@ == Seq::new(i as nat, |j: int| j as usize),
        decreases n - i,
    {
        out.push(i);
        i = i + 1;
        assert(out@ =~= Seq::new(i as nat, |j: int| j as usize));
    }
    out
}

/// The positions of the entries that have a score, best score first, ties in
/// the order of the list.
pub fn rank_by_score(scores: &Vec<Option<i64>>) -> (r: Vec<usize>)
    ensures
        forall|k: int|
            0 <= k < r@.len() ==> (#[trigger] r@[k]) < scores@.len() && scores@[r@[k] as int] is Some,
        forall|i: int|
            0 <= i < scores@.len() && (#[trigger] scores@[i]) is Some ==> r@.contains(i as usize),
        forall|k: int, l: int|
            0 <= k < l < r@.len() ==> ranks_before(scores@, #[trigger] r@[k], #[trigger] r@[l]),
{
    let mut out: Vec<usize> = Vec::new();
    let mut i: usize = 0;
    while i < scores.len()
        invariant
            i <= scores@.len(),
            forall|k: int|
                0 <= k < out@.len() ==> (#[trigger] out@[k]) < i && scores@[out@[k] as int] is Some,
            forall|j: int| 0 <= j < i && (#[trigger] scores@[j]) is Some ==> out@.contains(j as usize),
            forall|k: int, l: int|
                0 <= k < l < out@.len() ==> ranks_before(scores@, #[trigger] out@[k], #[trigger] out@[l]),
        decreases scores.len() - i,
    {
        if let Some(score) = scores[i] {
            let mut pos: usize = 0;
            while pos < out.len() && scores[out[pos]].unwrap() >= score
                invariant
                    pos <= out@.len(),
                    i < scores@.len(),
                    scores@[i as int] == Some(score),
                    forall|k: int|
                        0 <= k < out@.len() ==> (#[trigger] out@[k]) < i && scores@[out@[k] as int] is Some,
                    forall|k: int| 0 <= k < pos ==> ranks_before(scores@, #[trigger] out@[k], i),
                decreases out.len() - pos,
            {
                pos = pos + 1;
            }
            let ghost prev = out@;
            assert(pos < prev.len() ==> ranks_before(scores@, i, prev[pos as int]));
            out.insert(pos, i);
            assert forall|k: int, l: int| 0 <= k < l < out@.len() implies ranks_before(
                scores@,
                #[trigger] out@[k],
                #[trigger] out@[l],
            ) by {
                if l < pos {
                    assert(out@[k] == prev[k] && out@[l] == prev[l]);
                } else if l == pos {
                    assert(out@[k] == prev[k]);
                } else if k < pos {
                    assert(out@[k] == prev[k] && out@[l] == prev[l - 1]);
                } else if k == pos {
                    assert(out@[l] == prev[l - 1]);
                    if l - 1 > pos {
                        assert(ranks_before(scores@, prev[pos as int], prev[l - 1]));
                    }
                } else {
                    assert(out@[k] == prev[k - 1] && out@[l] == prev[l - 1]);
                }
            }
            assert forall|j: int| 0 <= j <= i && (#[trigger] scores@[j]) is Some implies out@.contains(
                j as usize,
            ) by {
                if j == i {
                    assert(out@[pos as int] == i);
                } else {
                    let w = choose|w: int| 0 <= w < prev.len() && prev[w] == j as usize;
                    if w < pos {
                        assert(out@[w] == j as usize);
                    } else {
                        assert(out@[w + 1] == j as usize);
                    }
                }
            }
            assert forall|k: int| 0 <= k < out@.len() implies (#[trigger] out@[k]) < i + 1
                && scores@[out@[k] as int] is Some by {
                if k < pos {
                    assert(out@[k] == prev[k]);
                } else if k > pos {
                    assert(out@[k] == prev[k - 1]);
                }
            }
        }
        i = i + 1;
    }
    out
}

/// The catalog positions of the models listed for a search. With an empty
/// query every model is listed, in catalog order. Otherwise `match_scores[i]`
/// holds how well model `i`'s identifier and display name matched the query
/// (`None` for no match); a model scores by its identifier, else by its
/// display name, and exactly the models that scored are listed, best first,
/// ties in catalog order.
pub fn filtered_models(query: &str, match_scores: &Vec<(Option<i64>, Option<i64>)>) -> (r: Vec<usize>)
    ensures
        query@.len() == 0 ==> r@ == Seq::new(match_scores@.len(), |i: int| i as usize),
        query@.len() > 0 ==> ({
            let scores = combined_scores(match_scores@);
            &&& forall|k: int|
                0 <= k < r@.len() ==> (#[trigger] r@[k]) < scores.len() && scores[r@[k] as int] is Some
            &&& forall|i: int|
                0 <= i < scores.len() && (#[trigger] scores[i]) is Some ==> r@.contains(i as usize)
            &&& forall|k: int, l: int|
                0 <= k < l < r@.len() ==> ranks_before(scores, #[trigger] r@[k], #[trigger] r@[l])
        }),
{
    if query.unicode_len() == 0 {
        return all_positions(match_scores.len());
    }
    let scores = combine_scores(match_scores);
    rank_by_score(&scores)
}

/// Each model's identifier score, else its display name's.
fn combine_scores(match_scores: &Vec<(Option<i64>, Option<i64>)>) -> (r: Vec<Option<i64>>)
    ensures
        r@ == combined_scores(match_scores@),
{
    let mut out: Vec<Option<i64>> = Vec::new();
    let mut i: usize = 0;
    while i < match_scores.len()
        invariant
            i <= match_scores@.len(),
            out@ == combined_scores(match_scores@.take(i as int)),
        decreases match_scores.len() - i,
    {
        let (id_score, name_score) = match_scores[i];
        let s = match id_score {
            Some(x) => Some(x),
            None => name_score,
        };
        out.push(s);
        i = i + 1;
        assert(out@ =~= combined_scores(match_scores@.take(i as int)));
    }
    assert(match_scores@.take(match_scores@.len() as int) =~= match_scores@);
    out
}

} // verus!
