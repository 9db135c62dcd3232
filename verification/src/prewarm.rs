//! Which local models to load ahead of a dictation, so that the first
//! recognition or cleanup does not wait for them.
use vstd::prelude::*;

use crate::config::{GlideConfig, ModelSelection, Provider, Style};
use crate::pipeline::{matched_style, opt_str_view, plan_llm, plan_prompt, plan_stt, plan_recording};

verus! {

/// A local model to load.
#[derive(Debug, Clone)]
pub enum PrewarmAction {
    /// A Parakeet speech-to-text model.
    Parakeet { model: String },
    /// An Apple Foundation cleanup model, with the instructions it will use.
    AppleFoundation { model: String, system_prompt: String },
}

/// The content of an action: whether it loads Parakeet, the model, the prompt.
pub open spec fn action_view(a: PrewarmAction) -> (bool, Seq<char>, Seq<char>) {
    match a {
        PrewarmAction::Parakeet { model } => (true, model@, seq![]),
        PrewarmAction::AppleFoundation { model, system_prompt } => (false, model@, system_prompt@),
    }
}

pub open spec fn action_views(s: Seq<PrewarmAction>) -> Seq<(bool, Seq<char>, Seq<char>)> {
    s.map_values(|a: PrewarmAction| action_view(a))
}

/// Only Parakeet speech-to-text models are loaded ahead.
pub open spec fn stt_action(sel: ModelSelection) -> Seq<(bool, Seq<char>, Seq<char>)> {
    if sel.provider == Provider::Parakeet {
        seq![(true, sel.model@, seq![])]
    } else {
        seq![]
    }
}

/// Only Apple Foundation cleanup models are loaded ahead.
pub open spec fn llm_action(sel: Option<ModelSelection>, prompt: Seq<char>) -> Seq<
    (bool, Seq<char>, Seq<char>),
> {
    match sel {
        Some(s) => if s.provider == Provider::AppleLocal {
            seq![(false, s.model@, prompt)]
        } else {
            seq![]
        },
        None => seq![],
    }
}

/// The loads for the styles that list applications, each with its effective models.
pub open spec fn style_actions(config: GlideConfig, styles: Seq<Style>) -> Seq<
    (bool, Seq<char>, Seq<char>),
>
    decreases styles.len(),
{
    if styles.len() == 0 {
        seq![]
    } else {
        let st = styles.last();
        style_actions(config, styles.drop_last()) + if st.apps@.len() == 0 {
            seq![]
        } else {
            stt_action(
                match st.stt {
                    Some(s) => s,
                    None => config.dictation.stt,
                },
            ) + llm_action(
                match st.llm {
                    Some(s) => Some(s),
                    None => config.dictation.llm,
                },
                st.prompt@,
            )
        }
    }
}

/// The loads at launch: the default models, then those of every style.
pub open spec fn app_prewarm_spec(config: GlideConfig) -> Seq<(bool, Seq<char>, Seq<char>)> {
    stt_action(config.dictation.stt) + llm_action(config.dictation.llm, config.dictation.system_prompt@)
        + style_actions(config, config.dictation.styles@)
}

/// The load for a speech-to-text selection, if it is a Parakeet model.
pub fn prewarm_stt_selection(selection: &ModelSelection) -> (r: Option<PrewarmAction>)
    ensures
        r is Some == (selection.provider == Provider::Parakeet),
        r matches Some(a) ==> seq![action_view(a)] == stt_action(*selection),
{
    if selection.provider != Provider::Parakeet {
        return None;
    }
    Some(PrewarmAction::Parakeet { model: selection.model.clone() })
}

/// The load for a cleanup selection, if it is an Apple Foundation model.
pub fn prewarm_llm_selection(selection: &ModelSelection, system_prompt: &str) -> (r: Option<PrewarmAction>)
    ensures
        r is Some == (selection.provider == Provider::AppleLocal),
        r matches Some(a) ==> seq![action_view(a)] == llm_action(Some(*selection), system_prompt@),
{
    if selection.provider != Provider::AppleLocal {
        return None;
    }
    Some(
        PrewarmAction::AppleFoundation {
            model: selection.model.clone(),
            system_prompt: system_prompt.to_owned(),
        },
    )
}

fn push_stt(out: &mut Vec<PrewarmAction>, selection: &ModelSelection)
    ensures
        action_views(final(out)@) == action_views(old(out)@) + stt_action(*selection),
{
    let ghost before = out@;
    if let Some(a) = prewarm_stt_selection(selection) {
        out.push(a);
        assert(action_views(out@) =~= action_views(before) + seq![action_view(a)]);
    } else {
        assert(action_views(out@) =~= action_views(before) + stt_action(*selection));
    }
}

fn push_llm(out: &mut Vec<PrewarmAction>, selection: &Option<ModelSelection>, system_prompt: &str)
    ensures
        action_views(final(out)@) == action_views(old(out)@) + llm_action(*selection, system_prompt@),
{
    let ghost before = out@;
    match selection {
        Some(s) => {
            if let Some(a) = prewarm_llm_selection(s, system_prompt) {
                out.push(a);
                assert(action_views(out@) =~= action_views(before) + seq![action_view(a)]);
            } else {
                assert(action_views(out@) =~= action_views(before) + llm_action(*selection, system_prompt@));
            }
        },
        None => {
            assert(action_views(out@) =~= action_views(before) + llm_action(*selection, system_prompt@));
        },
    }
}

/// The local models to load at launch: the defaults, then, for each style
/// that lists applications, its own models or the defaults it falls back to.
pub fn prewarm_app_config(config: &GlideConfig) -> (r: Vec<PrewarmAction>)
    ensures
        action_views(r@) == app_prewarm_spec(*config),
{
    let mut out: Vec<PrewarmAction> = Vec::new();
    push_stt(&mut out, &config.dictation.stt);
    push_llm(&mut out, &config.dictation.llm, config.dictation.system_prompt.as_str());
    let ghost head = action_views(out@);
    let styles = &config.dictation.styles;
    let mut i: usize = 0;
    assert(styles@.take(0) =~= Seq::<Style>::empty());
    while i < styles.len()
        invariant
            i <= styles@.len(),
            styles == &config.dictation.styles,
            action_views(out@) == head + style_actions(*config, styles@.take(i as int)),
        decreases styles.len() - i,
    {
        let style = &styles[i];
        let ghost before = action_views(out@);
        if style.apps.len() > 0 {
            match &style.stt {
                Some(s) => push_stt(&mut out, s),
                None => push_stt(&mut out, &config.dictation.stt),
            }
            match &style.llm {
                Some(s) => {
                    let o = Some(s.copy());
                    push_llm(&mut out, &o, style.prompt.as_str());
                },
                None => push_llm(&mut out, &config.dictation.llm, style.prompt.as_str()),
            }
        }
        assert(styles@.take(i + 1).drop_last() =~= styles@.take(i as int));
        i = i + 1;
        assert(action_views(out@) =~= head + style_actions(*config, styles@.take(i as int)));
    }
    assert(styles@.take(styles@.len() as int) =~= styles@);
    out
}

/// The local models to load when recording into `target_app` starts: those
/// that this dictation will use.
pub fn prewarm_effective_recording_config(config: &GlideConfig, target_app: Option<&str>) -> (r: Vec<PrewarmAction>)
    ensures
        ({
            let m = matched_style(config.dictation.styles@, opt_str_view(target_app));
            action_views(r@) == stt_action(plan_stt(*config, m)) + llm_action(
                plan_llm(*config, m),
                plan_prompt(*config, m)@,
            )
        }),
{
    let plan = plan_recording(config, target_app);
    let mut out: Vec<PrewarmAction> = Vec::new();
    push_stt(&mut out, &plan.stt);
    push_llm(&mut out, &plan.llm, plan.system_prompt.as_str());
    out
}

/// The launch loads begin with the default models: a default Parakeet
/// speech-to-text model is loaded first, and a default Apple Foundation
/// cleanup model right after it (first when the default speech-to-text model
/// is not Parakeet), with the default instructions. With no styles, nothing
/// else is loaded.
pub proof fn law_launch_loads_default_models(config: GlideConfig)
    ensures
        config.dictation.stt.provider == Provider::Parakeet ==> app_prewarm_spec(config).len() >= 1
            && app_prewarm_spec(config)[0] == (true, config.dictation.stt.model@, Seq::<char>::empty()),
        (config.dictation.llm matches Some(l) && l.provider == Provider::AppleLocal) ==> ({
            let k: int = if config.dictation.stt.provider == Provider::Parakeet {
                1
            } else {
                0
            };
            &&& app_prewarm_spec(config).len() > k
            &&& app_prewarm_spec(config)[k] == (
                false,
                config.dictation.llm->0.model@,
                config.dictation.system_prompt@,
            )
        }),
        config.dictation.styles@.len() == 0 ==> app_prewarm_spec(config).len() == (if config.dictation.stt.provider
            == Provider::Parakeet {
            1int
        } else {
            0int
        }) + (if config.dictation.llm matches Some(l) && l.provider == Provider::AppleLocal {
            1int
        } else {
            0int
        }),
{
}

} // verus!
