//! The decisions of one dictation: which style applies to the target
//! application, which models and prompt it uses, what vocabulary hint goes to
//! recognition, and how the transcript is checked and rewritten by the
//! dictionary before cleanup.
use vstd::prelude::*;

use crate::config::{
    copy_opt_selection, opt_sel_view, sel_view, GlideConfig, ModelSelection, Provider,
    ReplacementRule, Style,
};
use crate::casefold::{
    byte_offset, find_from, fold_ok, fold_replace, lemma_decode_replaced, lemma_encode_concat,
    lemma_encode_subrange, lemma_fold_replace_chars, replace_lowercase_matches,
};
use crate::text::{
    chars_of, eq_ignore_ascii_case, eq_ignore_ascii_case_exec, is_blank, lowercase_of, occurs_at,
    replace_all, replace_all_exec, string_of, to_lowercase, trim,
};
use vstd::utf8::{decode_utf8, encode_utf8};

verus! {

/// The bytes of `text` after a rule that ignores case replaced `find` by
/// `replace`: matches are searched in the lowercase forms and cut from the
/// text at the byte offsets found there.
pub open spec fn fold_rule_bytes(text: Seq<char>, find: Seq<char>, replace: Seq<char>) -> Seq<u8> {
    fold_replace(
        text,
        lowercase_of(text),
        lowercase_of(find),
        replace,
        encode_utf8(find).len() as int,
        0,
    )
}

/// A rule that ignores case can be applied to `text` without cutting a
/// string off a character boundary or past its end.
pub open spec fn fold_rule_ok(text: Seq<char>, find: Seq<char>) -> bool {
    fold_ok(text, lowercase_of(text), lowercase_of(find), encode_utf8(find).len() as int, 0)
}

/// The text after one dictionary rule: every occurrence of its `find` text
/// replaced, exactly, or ignoring case; a rule with empty `find` does nothing.
pub open spec fn apply_rule(text: Seq<char>, rule: ReplacementRule) -> Seq<char> {
    if rule.find@.len() == 0 {
        text
    } else if rule.case_sensitive {
        replace_all(text, rule.find@, rule.replace@)
    } else {
        decode_utf8(fold_rule_bytes(text, rule.find@, rule.replace@))
    }
}

/// The rule can be applied to `text`: only a rule that ignores case can fail.
pub open spec fn rule_ok(text: Seq<char>, rule: ReplacementRule) -> bool {
    rule.find@.len() == 0 || rule.case_sensitive || fold_rule_ok(text, rule.find@)
}

/// The text after the dictionary rules, applied one after the other in order.
pub open spec fn apply_rules(text: Seq<char>, rules: Seq<ReplacementRule>) -> Seq<char>
    decreases rules.len(),
{
    if rules.len() == 0 {
        text
    } else {
        apply_rule(apply_rules(text, rules.drop_last()), rules.last())
    }
}

/// Every rule can be applied to the text that the rules before it left.
pub open spec fn rules_ok(text: Seq<char>, rules: Seq<ReplacementRule>) -> bool
    decreases rules.len(),
{
    if rules.len() == 0 {
        true
    } else {
        rules_ok(text, rules.drop_last()) && rule_ok(apply_rules(text, rules.drop_last()), rules.last())
    }
}

/// One dictionary rule applied to `text`; `None` where a rule that ignores
/// case would cut a string off a character boundary or past its end.
pub fn try_apply_rule(text: &str, rule: &ReplacementRule) -> (r: Option<String>)
    ensures
        r is Some == rule_ok(text@, *rule),
        r matches Some(t) ==> t@ == apply_rule(text@, *rule),
{
    let find = chars_of(rule.find.as_str());
    if find.len() == 0 {
        return Some(text.to_owned());
    }
    if rule.case_sensitive {
        let t = chars_of(text);
        let rep = chars_of(rule.replace.as_str());
        let out = replace_all_exec(t.as_slice(), find.as_slice(), rep.as_slice());
        return Some(string_of(out.as_slice()));
    }
    let lower_text = to_lowercase(text);
    let lower_find = to_lowercase(rule.find.as_str());
    let find_str = rule.find.as_str();
    let find_len = find_str.as_bytes().len();
    match replace_lowercase_matches(
        text,
        lower_text.as_str(),
        lower_find.as_str(),
        find_len,
        rule.replace.as_str(),
    ) {
        Some(out) => {
            proof {
                lemma_decode_replaced(out@, fold_rule_bytes(text@, rule.find@, rule.replace@));
            }
            Some(out)
        },
        None => None,
    }
}

/// Applies the dictionary's replacement rules to a transcript, in order;
/// `None` where a rule that ignores case would cut a string off a character
/// boundary or past its end.
pub fn try_apply_replacements(text: &str, replacements: &[ReplacementRule]) -> (r: Option<String>)
    ensures
        r is Some == rules_ok(text@, replacements@),
        r matches Some(t) ==> t@ == apply_rules(text@, replacements@),
{
    let mut result = text.to_owned();
    let mut i: usize = 0;
    assert(replacements@.take(0) =~= Seq::<ReplacementRule>::empty());
    while i < replacements.len()
        invariant
            i <= replacements@.len(),
            rules_ok(text@, replacements@.take(i as int)),
            result@ == apply_rules(text@, replacements@.take(i as int)),
        decreases replacements.len() - i,
    {
        proof {
            assert(replacements@.take(i + 1).drop_last() =~= replacements@.take(i as int));
            lemma_rules_ok_prefix(text@, replacements@, i + 1);
        }
        match try_apply_rule(result.as_str(), &replacements[i]) {
            Some(next) => {
                result = next;
            },
            None => {
                return None;
            },
        }
        i = i + 1;
    }
    assert(replacements@.take(replacements@.len() as int) =~= replacements@);
    Some(result)
}

proof fn lemma_rules_ok_prefix(text: Seq<char>, rules: Seq<ReplacementRule>, k: int)
    requires
        0 <= k <= rules.len(),
    ensures
        !rules_ok(text, rules.take(k)) ==> !rules_ok(text, rules),
    decreases rules.len() - k,
{
    if k < rules.len() {
        lemma_rules_ok_prefix(text, rules, k + 1);
        assert(rules.take(k + 1).drop_last() =~= rules.take(k));
    } else {
        assert(rules.take(k) =~= rules);
    }
}

/// Applies the dictionary's replacement rules to a transcript, in order, on
/// texts where no rule that ignores case cuts a string off a character
/// boundary or past its end.
pub fn apply_replacements(text: &str, replacements: &[ReplacementRule]) -> (r: String)
    requires
        rules_ok(text@, replacements@),
    ensures
        r@ == apply_rules(text@, replacements@),
{
    match try_apply_replacements(text, replacements) {
        Some(r) => r,
        None => {
            assert(false);
            String::new()
        },
    }
}

/// A style lists the application, compared ignoring ASCII case.
pub open spec fn style_lists_app(style: Style, app: Seq<char>) -> bool {
    exists|k: int| 0 <= k < style.apps@.len() && eq_ignore_ascii_case(#[trigger] style.apps@[k]@, app)
}

/// The index of the first style at or after `from` that lists the application.
pub open spec fn first_style_from(styles: Seq<Style>, app: Seq<char>, from: int) -> Option<int>
    decreases styles.len() - from,
{
    if from < 0 || from >= styles.len() {
        None
    } else if style_lists_app(styles[from], app) {
        Some(from)
    } else {
        first_style_from(styles, app, from + 1)
    }
}

/// The content of an optional string.
pub open spec fn opt_str_view(o: Option<&str>) -> Option<Seq<char>> {
    match o {
        Some(t) => Some(t@),
        None => None,
    }
}

/// The style that applies to the target application: the first that lists it.
pub open spec fn matched_style(styles: Seq<Style>, target: Option<Seq<char>>) -> Option<int> {
    match target {
        Some(app) => first_style_from(styles, app, 0),
        None => None,
    }
}

fn style_lists_app_exec(style: &Style, app: &[char]) -> (r: bool)
    ensures
        r == style_lists_app(*style, app@),
{
    let mut k: usize = 0;
    while k < style.apps.len()
        invariant
            k <= style.apps@.len(),
            forall|j: int| 0 <= j < k ==> !eq_ignore_ascii_case(#[trigger] style.apps@[j]@, app@),
        decreases style.apps.len() - k,
    {
        let a = chars_of(style.apps[k].as_str());
        if eq_ignore_ascii_case_exec(a.as_slice(), app) {
            return true;
        }
        k = k + 1;
    }
    false
}

/// The index of the style that applies to the target application, if any.
pub fn match_style(styles: &Vec<Style>, target_app: Option<&str>) -> (r: Option<usize>)
    ensures
        r is Some == matched_style(styles@, opt_str_view(target_app)) is Some,
        r matches Some(i) ==> matched_style(styles@, opt_str_view(target_app)) == Some(i as int),
        r matches Some(i) ==> i < styles@.len(),
{
    match target_app {
        None => None,
        Some(target) => {
            let app = chars_of(target);
            let mut i: usize = 0;
            while i < styles.len()
                invariant
                    i <= styles@.len(),
                    app@ == target@,
                    target_app == Some(target),
                    first_style_from(styles@, app@, 0) == first_style_from(styles@, app@, i as int),
                decreases styles.len() - i,
            {
                if style_lists_app_exec(&styles[i], app.as_slice()) {
                    assert(first_style_from(styles@, app@, i as int) == Some(i as int));
                    return Some(i);
                }
                i = i + 1;
            }
            None
        },
    }
}

/// The items joined with `sep` between them.
pub open spec fn join(items: Seq<Seq<char>>, sep: Seq<char>) -> Seq<char>
    decreases items.len(),
{
    if items.len() == 0 {
        seq![]
    } else if items.len() == 1 {
        items[0]
    } else {
        join(items.drop_last(), sep) + sep + items.last()
    }
}

/// The views of a list of strings.
pub open spec fn string_views(v: Seq<String>) -> Seq<Seq<char>> {
    v.map_values(|s: String| s@)
}

/// The vocabulary joined by `", "` (`[String]::join`).
pub fn join_vocabulary(items: &Vec<String>) -> (r: String)
    ensures
        r@ == join(string_views(items@), ", "@),
{
    let sep = chars_of(", ");
    let ghost vs = string_views(items@);
    let mut out: Vec<char> = Vec::new();
    let mut i: usize = 0;
    assert(vs.take(0) =~= Seq::<Seq<char>>::empty());
    while i < items.len()
        invariant
            i <= items@.len(),
            vs == string_views(items@),
            sep@ == ", "@,
            out@ == join(vs.take(i as int), sep@),
        decreases items.len() - i,
    {
        let item = chars_of(items[i].as_str());
        let ghost before = out@;
        if i > 0 {
            let mut k: usize = 0;
            while k < sep.len()
                invariant
                    k <= sep@.len(),
                    out@ == before + sep@.take(k as int),
                decreases sep.len() - k,
            {
                out.push(sep[k]);
                k = k + 1;
                assert(out@ =~= before + sep@.take(k as int));
            }
            assert(sep@.take(sep@.len() as int) =~= sep@);
        }
        let ghost mid = out@;
        let mut k: usize = 0;
        while k < item.len()
            invariant
                k <= item@.len(),
                out@ == mid + item@.take(k as int),
            decreases item.len() - k,
        {
            out.push(item[k]);
            k = k + 1;
            assert(out@ =~= mid + item@.take(k as int));
        }
        assert(item@.take(item@.len() as int) =~= item@);
        assert(vs.take(i + 1).drop_last() =~= vs.take(i as int));
        if i == 0 {
            assert(before =~= Seq::<char>::empty());
            assert(out@ =~= vs.take(1)[0]);
        }
        i = i + 1;
    }
    assert(vs.take(vs.len() as int) =~= vs);
    string_of(out.as_slice())
}

/// What a dictation uses once the target application is known.
#[derive(Debug)]
pub struct RecordingPlan {
    /// The speech-to-text model.
    pub stt: ModelSelection,
    /// The cleanup model, if cleanup is enabled.
    pub llm: Option<ModelSelection>,
    /// The cleanup instructions.
    pub system_prompt: String,
    /// The vocabulary hint for recognition, if the dictionary has words.
    pub vocabulary_prompt: Option<String>,
}

/// The speech-to-text selection: the matched style's own, else the default.
pub open spec fn plan_stt(config: GlideConfig, m: Option<int>) -> ModelSelection {
    match m {
        Some(i) => match config.dictation.styles@[i].stt {
            Some(s) => s,
            None => config.dictation.stt,
        },
        None => config.dictation.stt,
    }
}

/// The cleanup selection: the matched style's own, else the default (which may be off).
pub open spec fn plan_llm(config: GlideConfig, m: Option<int>) -> Option<ModelSelection> {
    match m {
        Some(i) => match config.dictation.styles@[i].llm {
            Some(s) => Some(s),
            None => config.dictation.llm,
        },
        None => config.dictation.llm,
    }
}

/// The cleanup instructions: the matched style's prompt, else the default prompt.
pub open spec fn plan_prompt(config: GlideConfig, m: Option<int>) -> String {
    match m {
        Some(i) => config.dictation.styles@[i].prompt,
        None => config.dictation.system_prompt,
    }
}

/// Works out the models, prompt and vocabulary hint of a dictation into
/// `target_app` (unknown when `None`).
pub fn plan_recording(config: &GlideConfig, target_app: Option<&str>) -> (r: RecordingPlan)
    ensures
        ({
            let m = matched_style(config.dictation.styles@, opt_str_view(target_app));
            &&& r.stt == plan_stt(*config, m)
            &&& r.llm == plan_llm(*config, m)
            &&& r.system_prompt == plan_prompt(*config, m)
        }),
        config.dictionary.vocabulary@.len() == 0 ==> r.vocabulary_prompt is None,
        config.dictionary.vocabulary@.len() > 0 ==> (r.vocabulary_prompt matches Some(v) && v@
            == join(string_views(config.dictionary.vocabulary@), ", "@)),
{
    let m = match_style(&config.dictation.styles, target_app);
    let (stt, llm, system_prompt) = match m {
        Some(i) => {
            let style = &config.dictation.styles[i];
            let stt = match &style.stt {
                Some(s) => s.copy(),
                None => config.dictation.stt.copy(),
            };
            let llm = match &style.llm {
                Some(s) => Some(s.copy()),
                None => copy_opt_selection(&config.dictation.llm),
            };
            (stt, llm, style.prompt.clone())
        },
        None => (
            config.dictation.stt.copy(),
            copy_opt_selection(&config.dictation.llm),
            config.dictation.system_prompt.clone(),
        ),
    };
    let vocabulary_prompt = if config.dictionary.vocabulary.len() == 0 {
        None
    } else {
        Some(join_vocabulary(&config.dictionary.vocabulary))
    };
    RecordingPlan { stt, llm, system_prompt, vocabulary_prompt }
}

/// Why a dictation stopped.
#[derive(Debug, Clone, Copy, PartialEq, Eq, Structural)]
pub enum PipelineError {
    /// Recognition returned nothing but whitespace.
    EmptyTranscript,
}

/// Checks the recognized text and applies the dictionary to it: a transcript
/// of only whitespace is refused, any other is rewritten by the rules.
pub fn finish_transcript(raw_text: &str, replacements: &[ReplacementRule]) -> (r: Result<String, PipelineError>)
    requires
        !is_blank(raw_text@) ==> rules_ok(raw_text@, replacements@),
    ensures
        is_blank(raw_text@) <==> r is Err,
        r matches Err(e) ==> e == PipelineError::EmptyTranscript,
        r matches Ok(t) ==> t@ == apply_rules(raw_text@, replacements@),
{
    let raw = chars_of(raw_text);
    if crate::text::blank(raw.as_slice()) {
        return Err(PipelineError::EmptyTranscript);
    }
    Ok(apply_replacements(raw_text, replacements))
}

/// Checks the recognized text and applies the dictionary to it, on any text:
/// `None` where a rule that ignores case would cut a string off a character
/// boundary or past its end; otherwise what `finish_transcript` gives.
pub fn try_finish_transcript(raw_text: &str, replacements: &[ReplacementRule]) -> (r: Option<
    Result<String, PipelineError>,
>)
    ensures
        r is None <==> (!is_blank(raw_text@) && !rules_ok(raw_text@, replacements@)),
        r matches Some(res) ==> (is_blank(raw_text@) <==> res is Err),
        r matches Some(Err(e)) ==> e == PipelineError::EmptyTranscript,
        r matches Some(Ok(t)) ==> t@ == apply_rules(raw_text@, replacements@),
{
    let raw = chars_of(raw_text);
    if !crate::text::blank(raw.as_slice()) && try_apply_replacements(raw_text, replacements).is_none() {
        return None;
    }
    Some(finish_transcript(raw_text, replacements))
}

/// A rule that ignores case puts its replacement in as typed: when the
/// lowercase pattern is first found in the lowercase text at the byte offset
/// of character `k`, the result is the text before character `k`, then the
/// replacement exactly as the rule holds it, then the rest.
pub proof fn law_ignoring_case_inserts_replacement_as_typed(
    text: Seq<char>,
    rule: ReplacementRule,
    k: int,
)
    requires
        !rule.case_sensitive,
        rule.find@.len() > 0,
        rule_ok(text, rule),
        0 <= k <= text.len(),
        find_from(encode_utf8(lowercase_of(text)), encode_utf8(lowercase_of(rule.find@)), 0) == Some(
            byte_offset(text, k),
        ),
    ensures
        exists|rest: Seq<char>| apply_rule(text, rule) == text.take(k) + rule.replace@ + rest,
{
    let lt = lowercase_of(text);
    let lf = lowercase_of(rule.find@);
    let n = encode_utf8(rule.find@).len() as int;
    let q = byte_offset(text, k);
    assert(fold_ok(text, lt, lf, n, 0));
    let rest = lemma_fold_replace_chars(text, lt, lf, rule.replace@, n, q + n);
    lemma_encode_subrange(text, 0, k);
    assert(text.take(0) =~= Seq::<char>::empty());
    assert(text.subrange(0, k) =~= text.take(k));
    let c = text.take(k) + rule.replace@ + rest;
    lemma_encode_concat(text.take(k), rule.replace@);
    lemma_encode_concat(text.take(k) + rule.replace@, rest);
    assert(fold_rule_bytes(text, rule.find@, rule.replace@) == encode_utf8(c));
    lemma_decode_replaced(c, encode_utf8(c));
    assert(apply_rule(text, rule) == c);
}

/// Replacing text by itself changes nothing.
pub proof fn law_self_replacement_is_identity(s: Seq<char>, p: Seq<char>)
    ensures
        replace_all(s, p, p) == s,
    decreases s.len(),
{
    if p.len() == 0 || s.len() < p.len() {
    } else if occurs_at(s, 0, p) {
        law_self_replacement_is_identity(s.skip(p.len() as int), p);
        assert(s =~= s.subrange(0, p.len() as int) + s.skip(p.len() as int));
    } else {
        law_self_replacement_is_identity(s.drop_first(), p);
        assert(s =~= seq![s[0]] + s.drop_first());
    }
}

/// Text in which the pattern never occurs is left as it is.
pub proof fn law_no_match_no_change(s: Seq<char>, p: Seq<char>, r: Seq<char>)
    requires
        forall|i: int| !occurs_at(s, i, p),
    ensures
        replace_all(s, p, r) == s,
    decreases s.len(),
{
    if p.len() == 0 || s.len() < p.len() {
    } else {
        assert(!occurs_at(s, 0, p));
        assert forall|i: int| !occurs_at(s.drop_first(), i, p) by {
            if occurs_at(s.drop_first(), i, p) {
                assert(s.drop_first().subrange(i, i + p.len()) =~= s.subrange(i + 1, i + 1 + p.len()));
                assert(occurs_at(s, i + 1, p));
            }
        }
        law_no_match_no_change(s.drop_first(), p, r);
        assert(s =~= seq![s[0]] + s.drop_first());
    }
}

/// A dictionary without rules leaves every transcript unchanged.
pub proof fn law_no_rules_no_change(text: Seq<char>)
    ensures
        apply_rules(text, Seq::<ReplacementRule>::empty()) == text,
{
}

} // verus!
