//! Choosing and preparing the speech-to-text backend of a dictation.
use vstd::prelude::*;

use crate::config::{Provider, ProvidersConfig};
use crate::text::{chars_of, string_of, trim, trimmed_string};

pub mod apple;

verus! {

/// A speech-to-text backend, as the pipeline names it in messages.
pub trait SttProvider {
    fn name(&self) -> &'static str;
}

/// Why a speech-to-text backend could not be prepared.
#[derive(Debug, Clone, PartialEq, Eq)]
pub enum SttError {
    /// No Apple Speech model is known under this identifier.
    AppleSpeechModelNotInstalled(String),
    /// This provider has no backend here.
    UnsupportedProvider(Provider),
    /// No API key is configured for this provider.
    MissingApiKey(Provider),
}

/// The model name sent to the service: Fireworks takes the last path segment
/// of the identifier, other providers the identifier itself.
pub open spec fn request_model_spec(provider: Provider, model: Seq<char>) -> Seq<char> {
    if provider == Provider::Fireworks {
        last_segment(model)
    } else {
        model
    }
}

/// The part of `s` after its last `/` (all of `s` when it has none).
pub open spec fn last_segment(s: Seq<char>) -> Seq<char>
    decreases s.len(),
{
    if s.len() == 0 {
        s
    } else if s.last() == '/' {
        seq![]
    } else {
        last_segment(s.drop_last()).push(s.last())
    }
}

/// The model name sent to the service.
pub fn stt_request_model(provider: Provider, model: &str) -> (r: String)
    ensures
        r@ == request_model_spec(provider, model@),
{
    if provider != Provider::Fireworks {
        return model.to_owned();
    }
    let v = chars_of(model);
    let mut start = v.len();
    assert(v@.take(start as int) =~= v@);
    assert(v@.subrange(start as int, v@.len() as int) =~= Seq::<char>::empty());
    assert(last_segment(v@) + Seq::<char>::empty() =~= last_segment(v@));
    while start > 0 && v[start - 1] != '/'
        invariant
            start <= v@.len(),
            last_segment(v@) == last_segment(v@.take(start as int)) + v@.subrange(
                start as int,
                v@.len() as int,
            ),
        decreases start,
    {
        let ghost t = v@.take(start as int);
        assert(t.drop_last() =~= v@.take(start - 1));
        assert(v@.subrange(start - 1, v@.len() as int) =~= seq![t.last()] + v@.subrange(
            start as int,
            v@.len() as int,
        ));
        assert(last_segment(t) =~= last_segment(t.drop_last()).push(t.last()));
        assert(last_segment(t.drop_last()).push(t.last()) + v@.subrange(start as int, v@.len() as int)
            =~= last_segment(t.drop_last()) + (seq![t.last()] + v@.subrange(start as int, v@.len() as int)));
        start = start - 1;
    }
    let mut out: Vec<char> = Vec::new();
    let mut i = start;
    while i < v.len()
        invariant
            start <= i <= v@.len(),
            out@ == v@.subrange(start as int, i as int),
        decreases v.len() - i,
    {
        out.push(v[i]);
        i = i + 1;
        assert(out@ =~= v@.subrange(start as int, i as int));
    }
    assert(last_segment(v@.take(start as int)) =~= Seq::<char>::empty()) by {
        if start > 0 {
            assert(v@.take(start as int).last() == '/');
        }
    }
    assert(v@.take(v@.len() as int) =~= v@);
    string_of(out.as_slice())
}

/// The request settings of an OpenAI-compatible transcription service.
#[derive(Debug)]
pub struct OpenAiSttRequest {
    pub provider: Provider,
    /// The model name sent with each request.
    pub model: String,
    /// The vocabulary hint sent with each request, if any.
    pub prompt: Option<String>,
    /// The API key, as configured but without surrounding whitespace.
    pub api_key: String,
    /// The base URL of the service, as configured.
    pub base_url: String,
}

impl SttProvider for OpenAiSttRequest {
    fn name(&self) -> (r: &'static str)
        ensures
            r@ == "STT Provider"@,
    {
        "STT Provider"
    }
}

/// Prepares the backend for `provider`: OpenAI and Groq share the
/// OpenAI-compatible transcription API; other providers have no backend here.
/// The provider's API key must resolve: a key that is blank (empty or only
/// whitespace) fails; a resolved key is used without surrounding whitespace.
pub fn build_provider(
    provider: Provider,
    model: &str,
    providers: &ProvidersConfig,
    vocabulary_prompt: Option<String>,
) -> (r: Result<OpenAiSttRequest, SttError>)
    ensures
        !(provider == Provider::OpenAi || provider == Provider::Groq) ==> r == Err::<
            OpenAiSttRequest,
            SttError,
        >(SttError::UnsupportedProvider(provider)),
        (provider == Provider::OpenAi || provider == Provider::Groq) ==> {
            let creds = providers.credentials_spec(provider)->0;
            &&& r is Ok == (trim(creds.api_key@).len() > 0)
            &&& r is Err ==> r == Err::<OpenAiSttRequest, SttError>(SttError::MissingApiKey(provider))
            &&& r matches Ok(q) ==> q.provider == provider && q.model@ == request_model_spec(
                provider,
                model@,
            ) && q.prompt == vocabulary_prompt && q.api_key@ == trim(creds.api_key@)
                && q.base_url@ == creds.base_url@
        },
{
    match provider {
        Provider::OpenAi | Provider::Groq => {
            let creds = match providers.credentials_for(provider) {
                Some(c) => c,
                None => {
                    return Err(SttError::UnsupportedProvider(provider));
                },
            };
            let api_key = trimmed_string(creds.api_key.as_str());
            if api_key.unicode_len() == 0 {
                return Err(SttError::MissingApiKey(provider));
            }
            Ok(
                OpenAiSttRequest {
                    provider,
                    model: stt_request_model(provider, model),
                    prompt: vocabulary_prompt,
                    api_key,
                    base_url: creds.base_url.clone(),
                },
            )
        },
        _ => Err(SttError::UnsupportedProvider(provider)),
    }
}

/// How the API key is sent to a transcription service.
#[derive(Debug, Clone, Copy, PartialEq, Eq, Structural)]
pub enum AuthHeader {
    /// `Authorization: Bearer <key>`.
    Bearer,
    /// `Authorization: <key>`, as Fireworks expects.
    Raw,
}

/// Fireworks takes the key as it is; the other OpenAI-compatible services as a bearer token.
pub fn auth_header_for(provider: Provider) -> (r: AuthHeader)
    ensures
        r == if provider == Provider::Fireworks { AuthHeader::Raw } else { AuthHeader::Bearer },
{
    if provider == Provider::Fireworks {
        AuthHeader::Raw
    } else {
        AuthHeader::Bearer
    }
}

/// The vocabulary hint sent with a request: only a non-empty one is sent.
pub fn prompt_field(prompt: &Option<String>) -> (r: Option<&str>)
    ensures
        match *prompt {
            Some(p) => if p@.len() > 0 {
                r matches Some(q) && q@ == p@
            } else {
                r is None
            },
            None => r is None,
        },
{
    match prompt {
        Some(p) => {
            let v = chars_of(p.as_str());
            if v.len() > 0 {
                Some(p.as_str())
            } else {
                None
            }
        },
        None => None,
    }
}

/// The transcript a service returned, without surrounding whitespace.
pub fn clean_transcription(text: &str) -> (r: String)
    ensures
        r@ == trim(text@),
{
    trimmed_string(text)
}

} // verus!
