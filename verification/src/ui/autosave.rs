//! Saving the settings a moment after the last edit, and refreshing the model
//! lists when the provider credentials changed.
use vstd::prelude::*;

use crate::config::{
    copy_opt_selection, GlideConfig, ModelSelection, Provider, ProviderCredentials, ProvidersConfig,
    Style,
};
use crate::text::{copy_strings, str_eq};

verus! {

/// How long after an edit the settings are saved.
pub const AUTOSAVE_DELAY_MS: u64 = 800;

/// How long after a refresh of the model lists the smart defaults are re-applied.
pub const PROVIDER_RECHECK_DELAY_MS: u64 = 3000;

/// Whether a save is scheduled.
#[derive(Debug, Clone, Copy, PartialEq, Eq)]
pub struct Autosave {
    pub pending: bool,
}

impl Autosave {
    pub fn new() -> (r: Autosave)
        ensures
            !r.pending,
    {
        Autosave { pending: false }
    }

    /// After an edit: starts the save timer unless one is already running
    /// (the returned flag), so that edits in quick succession save once.
    pub fn schedule(&mut self) -> (start_timer: bool)
        ensures
            start_timer == !old(self).pending,
            final(self).pending,
    {
        if !self.pending {
            self.pending = true;
            true
        } else {
            false
        }
    }

    /// The save timer fired: the save happens now and nothing is pending.
    pub fn timer_fired(&mut self)
        ensures
            !final(self).pending,
    {
        self.pending = false;
    }
}

/// The content of one provider's credentials.
pub open spec fn creds_view(c: ProviderCredentials) -> (Seq<char>, Seq<char>) {
    (c.api_key@, c.base_url@)
}

/// The content of all providers' credentials.
pub open spec fn providers_view(p: ProvidersConfig) -> Seq<(Seq<char>, Seq<char>)> {
    seq![
        creds_view(p.openai),
        creds_view(p.groq),
        creds_view(p.cerebras),
        creds_view(p.fireworks),
        creds_view(p.elevenlabs),
    ]
}

fn same_creds(a: &ProviderCredentials, b: &ProviderCredentials) -> (r: bool)
    ensures
        r == (creds_view(*a) == creds_view(*b)),
{
    str_eq(a.api_key.as_str(), b.api_key.as_str()) && str_eq(a.base_url.as_str(), b.base_url.as_str())
}

/// The saved credentials differ from those the model lists were last fetched
/// with, so the lists have to be fetched again.
pub fn providers_changed(saved: &ProvidersConfig, last_fetched: &ProvidersConfig) -> (r: bool)
    ensures
        r == (providers_view(*saved) != providers_view(*last_fetched)),
{
    let same = same_creds(&saved.openai, &last_fetched.openai) && same_creds(
        &saved.groq,
        &last_fetched.groq,
    ) && same_creds(&saved.cerebras, &last_fetched.cerebras) && same_creds(
        &saved.fireworks,
        &last_fetched.fireworks,
    ) && same_creds(&saved.elevenlabs, &last_fetched.elevenlabs);
    proof {
        let a = providers_view(*saved);
        let b = providers_view(*last_fetched);
        if a == b {
            assert(a[0] == b[0] && a[1] == b[1] && a[2] == b[2] && a[3] == b[3] && a[4] == b[4]);
        }
        if same {
            assert(a =~= b);
        }
    }
    !same
}

/// The key and base URL typed for one remote provider.
#[derive(Debug, Clone)]
pub struct CredentialInputs {
    pub provider: Provider,
    pub api_key: String,
    pub base_url: String,
}

/// The name, applications and prompt typed for one style.
#[derive(Debug, Clone)]
pub struct StyleInputs {
    pub name: String,
    pub apps: Vec<String>,
    pub prompt: String,
}

/// The credentials of provider `p` after the typed entries: the last entry for
/// `p` wins, and without one the saved credentials stay.
pub open spec fn typed_credentials(
    entries: Seq<CredentialInputs>,
    p: Provider,
    saved: (Seq<char>, Seq<char>),
) -> (Seq<char>, Seq<char>)
    decreases entries.len(),
{
    if entries.len() == 0 {
        saved
    } else if entries.last().provider == p {
        (entries.last().api_key@, entries.last().base_url@)
    } else {
        typed_credentials(entries.drop_last(), p, saved)
    }
}

/// The speech-to-text or cleanup override of the style at `i` in the saved
/// list, and none for a style that was added since.
pub open spec fn kept_override(saved: Seq<Style>, i: int, stt: bool) -> Option<ModelSelection> {
    if i < saved.len() {
        if stt {
            saved[i].stt
        } else {
            saved[i].llm
        }
    } else {
        None
    }
}

fn set_credentials(providers: &mut ProvidersConfig, provider: Provider, api_key: &str, base_url: &str)
    ensures
        forall|p: Provider|
            #![trigger final(providers).credentials_spec(p)]
            p.remote_index_spec() is Some ==> creds_view(final(providers).credentials_spec(p)->0)
                == if p == provider {
                (api_key@, base_url@)
            } else {
                creds_view(old(providers).credentials_spec(p)->0)
            },
{
    let creds = ProviderCredentials { api_key: api_key.to_owned(), base_url: base_url.to_owned() };
    match provider {
        Provider::OpenAi => providers.openai = creds,
        Provider::Groq => providers.groq = creds,
        Provider::Cerebras => providers.cerebras = creds,
        Provider::Fireworks => providers.fireworks = creds,
        Provider::ElevenLabs => providers.elevenlabs = creds,
        Provider::AppleLocal => {},
        Provider::Parakeet => {},
    }
}

/// The configuration to save: the saved one with the typed credentials, the
/// typed default prompt and the typed styles. A style keeps the model
/// overrides of the saved style at its position; one added since has none.
/// The default selections and the rest of the configuration stay.
pub fn draft_from_inputs(
    saved: GlideConfig,
    credentials: &Vec<CredentialInputs>,
    system_prompt: &str,
    styles: &Vec<StyleInputs>,
) -> (r: GlideConfig)
    ensures
        forall|p: Provider|
            #![trigger r.providers.credentials_spec(p)]
            p.remote_index_spec() is Some ==> creds_view(r.providers.credentials_spec(p)->0)
                == typed_credentials(
                credentials@,
                p,
                creds_view(saved.providers.credentials_spec(p)->0),
            ),
        r.dictation.system_prompt@ == system_prompt@,
        r.dictation.stt == saved.dictation.stt,
        r.dictation.llm == saved.dictation.llm,
        r.dictation.smart_defaults_applied == saved.dictation.smart_defaults_applied,
        r.dictionary == saved.dictionary,
        r.paste == saved.paste,
        r.dictation.styles@.len() == styles@.len(),
        forall|i: int|
            0 <= i < styles@.len() ==> {
                &&& (#[trigger] r.dictation.styles@[i]).name@ == styles@[i].name@
                &&& r.dictation.styles@[i].apps@ == styles@[i].apps@
                &&& r.dictation.styles@[i].prompt@ == styles@[i].prompt@
                &&& r.dictation.styles@[i].stt == kept_override(saved.dictation.styles@, i, true)
                &&& r.dictation.styles@[i].llm == kept_override(saved.dictation.styles@, i, false)
            },
{
    let mut config = saved;
    let mut k: usize = 0;
    while k < credentials.len()
        invariant
            k <= credentials@.len(),
            config.dictation == saved.dictation,
            config.dictionary == saved.dictionary,
            config.paste == saved.paste,
            forall|p: Provider|
                #![trigger config.providers.credentials_spec(p)]
                p.remote_index_spec() is Some ==> creds_view(config.providers.credentials_spec(p)->0)
                    == typed_credentials(
                    credentials@.subrange(0, k as int),
                    p,
                    creds_view(saved.providers.credentials_spec(p)->0),
                ),
        decreases credentials.len() - k,
    {
        let entry = &credentials[k];
        set_credentials(&mut config.providers, entry.provider, entry.api_key.as_str(), entry.base_url.as_str());
        proof {
            let pre = credentials@.subrange(0, k as int);
            let post = credentials@.subrange(0, k + 1);
            assert(post.drop_last() =~= pre);
            assert(post.last() == credentials@[k as int]);
        }
        k = k + 1;
    }
    assert(credentials@.subrange(0, credentials@.len() as int) =~= credentials@);
    config.dictation.system_prompt = system_prompt.to_owned();
    let mut drafted: Vec<Style> = Vec::new();
    let mut i: usize = 0;
    while i < styles.len()
        invariant
            i <= styles@.len(),
            drafted@.len() == i,
            config.dictation.styles == saved.dictation.styles,
            forall|j: int|
                0 <= j < i ==> {
                    &&& (#[trigger] drafted@[j]).name@ == styles@[j].name@
                    &&& drafted@[j].apps@ == styles@[j].apps@
                    &&& drafted@[j].prompt@ == styles@[j].prompt@
                    &&& drafted@[j].stt == kept_override(saved.dictation.styles@, j, true)
                    &&& drafted@[j].llm == kept_override(saved.dictation.styles@, j, false)
                },
        decreases styles.len() - i,
    {
        let input = &styles[i];
        let (stt, llm) = if i < config.dictation.styles.len() {
            (
                copy_opt_selection(&config.dictation.styles[i].stt),
                copy_opt_selection(&config.dictation.styles[i].llm),
            )
        } else {
            (None, None)
        };
        drafted.push(
            Style {
                name: input.name.clone(),
                apps: copy_strings(&input.apps),
                prompt: input.prompt.clone(),
                stt,
                llm,
            },
        );
        i = i + 1;
    }
    config.dictation.styles = drafted;
    config
}

} // verus!
