//! Tracing of a dictation's phases: whether it is switched on, where it is
//! written, and the attributes attached to an event.
use vstd::prelude::*;

use crate::model_catalog::sort::{lemma_lex_antisym, lemma_lex_total, lemma_lex_trans, lex_le};
use crate::text::{chars_of, eq_ignore_ascii_case, eq_ignore_ascii_case_exec, str_eq};

verus! {

/// Where traces go when no path is given.
pub const DEFAULT_TRACE_PATH: &'static str = "/tmp/glide-trace.jsonl";

/// Tracing is on when a trace path is set, or when the trace switch is set to
/// anything but `0` or `false` (in any case).
pub open spec fn trace_enabled_spec(path_set: bool, switch: Option<Seq<char>>) -> bool {
    path_set || match switch {
        Some(v) => v != "0"@ && !eq_ignore_ascii_case(v, "false"@),
        None => false,
    }
}

/// Whether tracing is on, from the trace path variable being set and the value
/// of the trace switch variable.
pub fn trace_enabled(path_set: bool, switch: Option<&str>) -> (r: bool)
    ensures
        r == trace_enabled_spec(
            path_set,
            match switch {
                Some(v) => Some(v@),
                None => None,
            },
        ),
{
    if path_set {
        return true;
    }
    match switch {
        Some(v) => {
            let chars = chars_of(v);
            let f = chars_of("false");
            !str_eq(v, "0") && !eq_ignore_ascii_case_exec(chars.as_slice(), f.as_slice())
        },
        None => false,
    }
}

/// The file traces are appended to: the given path, else the default.
pub fn trace_path(path: Option<String>) -> (r: String)
    ensures
        r@ == match path {
            Some(p) => p@,
            None => DEFAULT_TRACE_PATH@,
        },
{
    match path {
        Some(p) => p,
        None => DEFAULT_TRACE_PATH.to_owned(),
    }
}

/// The kind of an event: a span has a duration, an instant has none.
pub fn event_kind(has_duration: bool) -> (r: &'static str)
    ensures
        r@ == if has_duration { "span"@ } else { "instant"@ },
{
    if has_duration {
        "span"
    } else {
        "instant"
    }
}

/// Strictly before in code point order.
pub open spec fn lex_lt(a: Seq<char>, b: Seq<char>) -> bool {
    lex_le(a, b) && a != b
}

/// The attribute map the pairs build: a later pair for a key wins.
pub open spec fn pairs_map(ps: Seq<(&'static str, String)>) -> Map<Seq<char>, Seq<char>>
    decreases ps.len(),
{
    if ps.len() == 0 {
        Map::empty()
    } else {
        pairs_map(ps.drop_last()).insert(ps.last().0@, ps.last().1@)
    }
}

/// The entries are ordered by key, each key once.
pub open spec fn keys_sorted(r: Seq<(String, String)>) -> bool {
    forall|i: int, j: int| 0 <= i < j < r.len() ==> lex_lt(#[trigger] r[i].0@, #[trigger] r[j].0@)
}

/// The entries hold exactly the map `m`.
pub open spec fn entries_are(r: Seq<(String, String)>, m: Map<Seq<char>, Seq<char>>) -> bool {
    &&& forall|i: int| 0 <= i < r.len() ==> m.contains_key(#[trigger] r[i].0@) && m[r[i].0@] == r[i].1@
    &&& forall|k: Seq<char>| m.contains_key(k) ==> exists|i: int| 0 <= i < r.len() && #[trigger] r[i].0@ == k
}

/// `a` comes strictly before `b`.
fn key_before(a: &String, b: &[char]) -> (r: bool)
    ensures
        r == lex_lt(a@, b@),
{
    let ak = chars_of(a.as_str());
    crate::model_catalog::sort::lex_le_exec(ak.as_slice(), b) && !crate::text::seq_eq(ak.as_slice(), b)
}

/// The attributes of an event as an ordered map (a later pair for a key wins),
/// listed in key order.
pub fn attrs(pairs: Vec<(&'static str, String)>) -> (r: Vec<(String, String)>)
    ensures
        keys_sorted(r@),
        entries_are(r@, pairs_map(pairs@)),
{
    let ghost ps = pairs@;
    let mut r: Vec<(String, String)> = Vec::new();
    let mut i: usize = 0;
    assert(ps.take(0) =~= Seq::<(&'static str, String)>::empty());
    while i < pairs.len()
        invariant
            ps == pairs@,
            i <= ps.len(),
            keys_sorted(r@),
            entries_are(r@, pairs_map(ps.take(i as int))),
        decreases ps.len() - i,
    {
        let key = chars_of(pairs[i].0);
        let value = pairs[i].1.clone();
        let ghost m = pairs_map(ps.take(i as int));
        let ghost k = key@;
        let ghost v = value@;
        assert(ps.take(i + 1).drop_last() =~= ps.take(i as int));
        assert(pairs_map(ps.take(i + 1)) == m.insert(k, v));
        let mut pos: usize = 0;
        while pos < r.len() && key_before(&r[pos].0, key.as_slice())
            invariant
                pos <= r@.len(),
                key@ == k,
                forall|j: int| 0 <= j < pos ==> lex_lt(#[trigger] r@[j].0@, k),
            decreases r.len() - pos,
        {
            pos = pos + 1;
        }
        assert(pos < r@.len() ==> !lex_lt(r@[pos as int].0@, k));
        let same = pos < r.len() && str_eq(r[pos].0.as_str(), pairs[i].0);
        let ghost before = r@;
        let entry = (pairs[i].0.to_owned(), value);
        if same {
            r.set(pos, entry);
            proof {
                assert forall|j: int| 0 <= j < r@.len() && j != pos implies (#[trigger] r@[j]).0@ != k by {
                    assert(r@[j] == before[j]);
                    if j < pos {
                    } else {
                        assert(lex_lt(before[pos as int].0@, before[j].0@));
                    }
                }
                assert(keys_sorted(r@)) by {
                    assert forall|a: int, b: int| 0 <= a < b < r@.len() implies lex_lt(
                        #[trigger] r@[a].0@,
                        #[trigger] r@[b].0@,
                    ) by {
                        assert(before[a].0@ == r@[a].0@ || a == pos);
                        assert(before[b].0@ == r@[b].0@ || b == pos);
                    }
                }
            }
        } else {
            r.insert(pos, entry);
            proof {
                before.insert_ensures(pos as int, entry);
                if pos < before.len() {
                    lemma_lex_total(before[pos as int].0@, k);
                }
                assert forall|j: int| pos <= j < before.len() implies lex_lt(k, #[trigger] before[j].0@) by {
                    if j > pos {
                        lemma_lex_trans(k, before[pos as int].0@, before[j].0@);
                        if k == before[j].0@ {
                            lemma_lex_antisym(k, before[pos as int].0@);
                        }
                    }
                }
                assert forall|a: int, b: int| 0 <= a < b < r@.len() implies lex_lt(
                    #[trigger] r@[a].0@,
                    #[trigger] r@[b].0@,
                ) by {
                    if b < pos {
                        assert(r@[a] == before[a] && r@[b] == before[b]);
                    } else if b == pos {
                        assert(r@[a] == before[a]);
                    } else if a < pos {
                        assert(r@[a] == before[a] && r@[b] == before[b - 1]);
                        lemma_lex_trans(before[a].0@, k, before[b - 1].0@);
                        if before[a].0@ == before[b - 1].0@ {
                            lemma_lex_antisym(before[a].0@, k);
                        }
                    } else if a == pos {
                        assert(r@[b] == before[b - 1]);
                    } else {
                        assert(r@[a] == before[a - 1] && r@[b] == before[b - 1]);
                    }
                }
                assert forall|j: int| 0 <= j < before.len() implies (#[trigger] before[j]).0@ != k by {
                    if j >= pos {
                        assert(lex_lt(k, before[j].0@));
                    }
                }
            }
        }
        proof {
            let m2 = m.insert(k, v);
            assert forall|j: int| 0 <= j < r@.len() implies m2.contains_key(#[trigger] r@[j].0@) && m2[r@[j].0@] == r@[j].1@ by {
                if same {
                    if j != pos {
                        assert(r@[j] == before[j]);
                    }
                } else {
                    if j < pos {
                        assert(r@[j] == before[j]);
                    } else if j > pos {
                        assert(r@[j] == before[j - 1]);
                    }
                }
            }
            assert forall|kk: Seq<char>| m2.contains_key(kk) implies exists|j: int| 0 <= j < r@.len() && #[trigger] r@[j].0@ == kk by {
                if kk == k {
                    assert(r@[pos as int].0@ == k);
                } else {
                    let j0 = choose|j: int| 0 <= j < before.len() && #[trigger] before[j].0@ == kk;
                    if same {
                        assert(r@[j0].0@ == kk);
                    } else if j0 < pos {
                        assert(r@[j0].0@ == kk);
                    } else {
                        assert(r@[j0 + 1].0@ == kk);
                    }
                }
            }
        }
        i = i + 1;
    }
    assert(ps.take(ps.len() as int) =~= ps);
    r
}

} // verus!
