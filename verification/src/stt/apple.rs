//! On-device recognition with Apple Speech: the model to use and the
//! vocabulary hints passed with each request.
use vstd::prelude::*;

use crate::local_models::LocalModels;
use crate::stt::{SttError, SttProvider};
use crate::text::{chars_of, string_of, trim, trimmed};

verus! {

/// The most vocabulary hints passed to the recognizer.
pub const MAX_VOCABULARY_TERMS: usize = 100;

/// The pieces of `s` between commas (`str::split(',')`): always at least one.
pub open spec fn split_commas(s: Seq<char>) -> Seq<Seq<char>>
    decreases s.len(),
{
    if s.len() == 0 {
        seq![seq![]]
    } else {
        let rest = split_commas(s.drop_last());
        if s.last() == ',' {
            rest.push(seq![])
        } else {
            rest.update(rest.len() - 1, rest.last().push(s.last()))
        }
    }
}

/// The trimmed pieces that are not empty.
pub open spec fn clean_terms(pieces: Seq<Seq<char>>) -> Seq<Seq<char>>
    decreases pieces.len(),
{
    if pieces.len() == 0 {
        seq![]
    } else {
        clean_terms(pieces.drop_last()) + if trim(pieces.last()).len() > 0 {
            seq![trim(pieces.last())]
        } else {
            seq![]
        }
    }
}

/// At most the first `n` items.
pub open spec fn first_n<A>(s: Seq<A>, n: nat) -> Seq<A> {
    if s.len() <= n {
        s
    } else {
        s.take(n as int)
    }
}

/// The vocabulary hints in a comma-separated prompt: its trimmed, non-empty
/// pieces, at most `MAX_VOCABULARY_TERMS` of them.
pub open spec fn vocabulary_terms(prompt: Seq<char>) -> Seq<Seq<char>> {
    first_n(clean_terms(split_commas(prompt)), MAX_VOCABULARY_TERMS as nat)
}

proof fn lemma_split_nonempty(s: Seq<char>)
    ensures
        split_commas(s).len() >= 1,
    decreases s.len(),
{
    if s.len() > 0 {
        lemma_split_nonempty(s.drop_last());
    }
}

proof fn lemma_first_n_push<A>(a: Seq<A>, x: A, n: nat)
    ensures
        first_n(a.push(x), n) == if a.len() < n { first_n(a, n).push(x) } else { first_n(a, n) },
        first_n(a, n).len() == if a.len() <= n { a.len() } else { n },
{
    if a.len() >= n {
        assert(a.push(x).take(n as int) =~= first_n(a, n));
    }
}

/// The views of a list of strings.
pub open spec fn term_views(v: Seq<String>) -> Seq<Seq<char>> {
    v.map_values(|s: String| s@)
}

/// The vocabulary hints in a comma-separated prompt.
pub fn parse_vocabulary(prompt: &str) -> (r: Vec<String>)
    ensures
        term_views(r@) == vocabulary_terms(prompt@),
{
    let s = chars_of(prompt);
    let mut out: Vec<String> = Vec::new();
    let mut current: Vec<char> = Vec::new();
    let mut i: usize = 0;
    let ghost n = MAX_VOCABULARY_TERMS as nat;
    assert(s@.take(0) =~= Seq::<char>::empty());
    while i < s.len()
        invariant
            i <= s@.len(),
            s@ == prompt@,
            n == MAX_VOCABULARY_TERMS as nat,
            split_commas(s@.take(i as int)).len() >= 1,
            current@ == split_commas(s@.take(i as int)).last(),
            term_views(out@) == first_n(
                clean_terms(split_commas(s@.take(i as int)).drop_last()),
                n,
            ),
            out@.len() <= n,
        decreases s.len() - i,
    {
        let ghost ps = split_commas(s@.take(i as int));
        assert(s@.take(i + 1).drop_last() =~= s@.take(i as int));
        if s[i] == ',' {
            let t = trimmed(current.as_slice());
            let ghost before = out@;
            proof {
                assert(ps.push(seq![]).drop_last() =~= ps);
                assert(ps =~= ps.drop_last().push(ps.last()));
                lemma_first_n_push(clean_terms(ps.drop_last()), trim(ps.last()), n);
            }
            if t.len() > 0 && out.len() < MAX_VOCABULARY_TERMS {
                let term = string_of(t.as_slice());
                out.push(term);
                assert(term_views(out@) =~= term_views(before).push(term@));
            }
            current = Vec::new();
            proof {
                assert(s@.take(i + 1).last() == ',');
                assert(split_commas(s@.take(i + 1)) == ps.push(seq![]));
                assert(split_commas(s@.take(i + 1)).drop_last() == ps);
                assert(clean_terms(ps) == clean_terms(ps.drop_last()) + if trim(ps.last()).len() > 0 {
                    seq![trim(ps.last())]
                } else {
                    seq![]
                });
                if trim(ps.last()).len() > 0 {
                    assert(clean_terms(ps) =~= clean_terms(ps.drop_last()).push(trim(ps.last())));
                } else {
                    assert(clean_terms(ps) =~= clean_terms(ps.drop_last()));
                }
            }
        } else {
            current.push(s[i]);
            proof {
                assert(s@.take(i + 1).last() == s@[i as int]);
                assert(split_commas(s@.take(i + 1)) == ps.update(ps.len() - 1, ps.last().push(s@[i as int])));
                assert(ps.update(ps.len() - 1, ps.last().push(s@[i as int])).drop_last() =~= ps.drop_last());
            }
        }
        i = i + 1;
        proof {
            lemma_split_nonempty(s@.take(i as int));
        }
    }
    assert(s@.take(s@.len() as int) =~= s@);
    let ghost ps = split_commas(s@);
    let t = trimmed(current.as_slice());
    let ghost before = out@;
    proof {
        assert(ps =~= ps.drop_last().push(ps.last()));
        lemma_first_n_push(clean_terms(ps.drop_last()), trim(ps.last()), n);
    }
    if t.len() > 0 && out.len() < MAX_VOCABULARY_TERMS {
        let term = string_of(t.as_slice());
        out.push(term);
        assert(term_views(out@) =~= term_views(before).push(term@));
    }
    proof {
        if trim(ps.last()).len() > 0 {
            assert(clean_terms(ps) =~= clean_terms(ps.drop_last()).push(trim(ps.last())));
        } else {
            assert(clean_terms(ps) =~= clean_terms(ps.drop_last()));
        }
    }
    out
}

/// Recognition with an installed Apple Speech model.
#[derive(Debug)]
pub struct AppleSpeechProvider {
    pub model_id: String,
    pub vocabulary: Vec<String>,
}

impl AppleSpeechProvider {
    /// Prepares recognition with the Apple Speech model `model_id`; the
    /// vocabulary prompt is a comma-separated list of hints. Fails when no
    /// Apple Speech model is known under that identifier.
    pub fn new(model_id: &str, vocabulary_prompt: Option<String>, local: &LocalModels) -> (r: Result<
        AppleSpeechProvider,
        SttError,
    >)
        ensures
            r is Ok == local.speech_known(model_id@),
            r matches Ok(p) ==> p.model_id@ == model_id@ && term_views(p.vocabulary@)
                == vocabulary_terms(
                match vocabulary_prompt {
                    Some(v) => v@,
                    None => seq![],
                },
            ),
            r matches Err(e) ==> e matches SttError::AppleSpeechModelNotInstalled(m) && m@
                == model_id@,
    {
        let model_id = match local.resolve_apple_speech_model_id(model_id) {
            Some(m) => m,
            None => {
                return Err(SttError::AppleSpeechModelNotInstalled(model_id.to_owned()));
            },
        };
        let vocabulary = match &vocabulary_prompt {
            Some(v) => parse_vocabulary(v.as_str()),
            None => parse_vocabulary(""),
        };
        proof {
            reveal_strlit("");
        }
        Ok(AppleSpeechProvider { model_id, vocabulary })
    }
}

impl SttProvider for AppleSpeechProvider {
    fn name(&self) -> (r: &'static str)
        ensures
            r@ == "Apple Speech"@,
    {
        "Apple Speech"
    }
}

} // verus!
