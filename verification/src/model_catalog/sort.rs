//! Ordering catalog entries by provider, then by identifier, as strings
//! compare (code point by code point, a prefix first).
use vstd::prelude::*;

use crate::model_catalog::types::{views, ModelInfo, ModelInfoView};

verus! {

/// `a` comes before `b` or equals it in the lexicographic order of code points.
pub open spec fn lex_le(a: Seq<char>, b: Seq<char>) -> bool
    decreases a.len(),
{
    if a.len() == 0 {
        true
    } else if b.len() == 0 {
        false
    } else if a[0] == b[0] {
        lex_le(a.drop_first(), b.drop_first())
    } else {
        a[0] < b[0]
    }
}

/// Entries are ordered by provider label, then by identifier.
pub open spec fn key_le(x: ModelInfoView, y: ModelInfoView) -> bool {
    (lex_le(x.provider, y.provider) && x.provider != y.provider) || (x.provider == y.provider
        && lex_le(x.id, y.id))
}

/// Every entry comes before or with every later one.
pub open spec fn sorted(s: Seq<ModelInfoView>) -> bool {
    forall|i: int, j: int| 0 <= i < j < s.len() ==> key_le(#[trigger] s[i], #[trigger] s[j])
}

/// Where `x` goes into `t` after the entries at or after `k` that come before or with it.
pub open spec fn insert_pos(t: Seq<ModelInfoView>, x: ModelInfoView, k: int) -> int
    decreases t.len() - k,
{
    if k < 0 || k >= t.len() {
        t.len() as int
    } else if !key_le(t[k], x) {
        k
    } else {
        insert_pos(t, x, k + 1)
    }
}

/// `s` sorted by inserting each entry, in order, after every entry that comes
/// before or with it; entries with equal keys keep their order.
pub open spec fn isort(s: Seq<ModelInfoView>) -> Seq<ModelInfoView>
    decreases s.len(),
{
    if s.len() == 0 {
        s
    } else {
        let t = isort(s.drop_last());
        t.insert(insert_pos(t, s.last(), 0), s.last())
    }
}

proof fn lemma_lex_refl(a: Seq<char>)
    ensures
        lex_le(a, a),
    decreases a.len(),
{
    if a.len() > 0 {
        lemma_lex_refl(a.drop_first());
    }
}

pub proof fn lemma_lex_total(a: Seq<char>, b: Seq<char>)
    ensures
        lex_le(a, b) || lex_le(b, a),
    decreases a.len(),
{
    if a.len() > 0 && b.len() > 0 {
        if a[0] == b[0] {
            lemma_lex_total(a.drop_first(), b.drop_first());
        }
    }
}

pub proof fn lemma_lex_antisym(a: Seq<char>, b: Seq<char>)
    requires
        lex_le(a, b),
        lex_le(b, a),
    ensures
        a == b,
    decreases a.len(),
{
    if a.len() > 0 && b.len() > 0 {
        lemma_lex_antisym(a.drop_first(), b.drop_first());
        assert(a =~= seq![a[0]] + a.drop_first());
        assert(b =~= seq![b[0]] + b.drop_first());
    } else {
        assert(a.len() == 0 && b.len() == 0);
        assert(a =~= b);
    }
}

pub proof fn lemma_lex_trans(a: Seq<char>, b: Seq<char>, c: Seq<char>)
    requires
        lex_le(a, b),
        lex_le(b, c),
    ensures
        lex_le(a, c),
    decreases a.len(),
{
    if a.len() > 0 && b.len() > 0 && c.len() > 0 && a[0] == b[0] && b[0] == c[0] {
        lemma_lex_trans(a.drop_first(), b.drop_first(), c.drop_first());
    }
}

proof fn lemma_key_total(x: ModelInfoView, y: ModelInfoView)
    ensures
        key_le(x, y) || key_le(y, x),
{
    lemma_lex_total(x.provider, y.provider);
    lemma_lex_total(x.id, y.id);
}

proof fn lemma_key_trans(x: ModelInfoView, y: ModelInfoView, z: ModelInfoView)
    requires
        key_le(x, y),
        key_le(y, z),
    ensures
        key_le(x, z),
{
    if x.provider == y.provider && y.provider == z.provider {
        lemma_lex_trans(x.id, y.id, z.id);
    } else if x.provider == y.provider || y.provider == z.provider {
    } else {
        lemma_lex_trans(x.provider, y.provider, z.provider);
        if x.provider == z.provider {
            lemma_lex_antisym(x.provider, y.provider);
        }
    }
}

proof fn lemma_insert_pos(t: Seq<ModelInfoView>, x: ModelInfoView, k: int)
    requires
        0 <= k <= t.len(),
    ensures
        k <= insert_pos(t, x, k) <= t.len(),
        forall|j: int| k <= j < insert_pos(t, x, k) ==> key_le(#[trigger] t[j], x),
        insert_pos(t, x, k) < t.len() ==> !key_le(t[insert_pos(t, x, k)], x),
    decreases t.len() - k,
{
    if k < t.len() && key_le(t[k], x) {
        lemma_insert_pos(t, x, k + 1);
    }
}

proof fn lemma_insert_sorted(t: Seq<ModelInfoView>, x: ModelInfoView)
    requires
        sorted(t),
    ensures
        sorted(t.insert(insert_pos(t, x, 0), x)),
{
    lemma_insert_pos(t, x, 0);
    let p = insert_pos(t, x, 0);
    let u = t.insert(p, x);
    t.insert_ensures(p, x);
    assert forall|j: int| p <= j < t.len() implies key_le(x, #[trigger] t[j]) by {
        if key_le(t[j], x) {
            if p < j {
                lemma_key_trans(t[p], t[j], x);
            }
        }
        lemma_key_total(x, t[j]);
    }
    assert forall|i: int, j: int| 0 <= i < j < u.len() implies key_le(#[trigger] u[i], #[trigger] u[j]) by {
        if j < p {
            assert(u[i] == t[i] && u[j] == t[j]);
        } else if j == p {
            assert(u[i] == t[i]);
        } else if i < p {
            assert(u[i] == t[i] && u[j] == t[j - 1]);
            assert(key_le(t[i], x));
            assert(key_le(x, t[j - 1]));
            lemma_key_trans(t[i], x, t[j - 1]);
        } else if i == p {
            assert(u[j] == t[j - 1]);
        } else {
            assert(u[i] == t[i - 1] && u[j] == t[j - 1]);
        }
    }
}

/// Sorting puts the entries in order and keeps exactly the entries it was given.
pub proof fn law_sort_orders_and_keeps(s: Seq<ModelInfoView>)
    ensures
        sorted(isort(s)),
        isort(s).to_multiset() == s.to_multiset(),
    decreases s.len(),
{
    broadcast use vstd::seq_lib::group_to_multiset_ensures;

    if s.len() > 0 {
        let t = isort(s.drop_last());
        law_sort_orders_and_keeps(s.drop_last());
        lemma_insert_sorted(t, s.last());
        let p = insert_pos(t, s.last(), 0);
        lemma_insert_pos(t, s.last(), 0);
        assert(t.insert(p, s.last()) =~= t.take(p) + seq![s.last()] + t.skip(p));
        vstd::seq_lib::lemma_multiset_commutative(t.take(p) + seq![s.last()], t.skip(p));
        vstd::seq_lib::lemma_multiset_commutative(t.take(p), seq![s.last()]);
        vstd::seq_lib::lemma_multiset_commutative(t.take(p), t.skip(p));
        assert(t =~= t.take(p) + t.skip(p));
        assert(s =~= s.drop_last().push(s.last()));
        assert(seq![s.last()].to_multiset() =~= Seq::<ModelInfoView>::empty().push(
            s.last(),
        ).to_multiset()) by {
            assert(seq![s.last()] =~= Seq::<ModelInfoView>::empty().push(s.last()));
        }
    } else {
        assert(isort(s) =~= s);
    }
}

/// `a` comes before or equals `b` in code point order.
pub fn lex_le_exec(a: &[char], b: &[char]) -> (r: bool)
    ensures
        r == lex_le(a@, b@),
{
    let mut i: usize = 0;
    proof {
        lemma_lex_skip0(a@);
        lemma_lex_skip0(b@);
    }
    while i < a.len() && i < b.len() && a[i] == b[i]
        invariant
            i <= a@.len(),
            i <= b@.len(),
            lex_le(a@, b@) == lex_le(a@.skip(i as int), b@.skip(i as int)),
        decreases a.len() - i,
    {
        assert(a@.skip(i as int).drop_first() =~= a@.skip(i + 1));
        assert(b@.skip(i as int).drop_first() =~= b@.skip(i + 1));
        i = i + 1;
    }
    if i == a.len() {
        true
    } else if i == b.len() {
        false
    } else {
        a[i] < b[i]
    }
}

proof fn lemma_lex_skip0(a: Seq<char>)
    ensures
        a.skip(0) == a,
{
    assert(a.skip(0) =~= a);
}

fn key_le_exec(x: &ModelInfo, y: &ModelInfo) -> (r: bool)
    ensures
        r == key_le(x@, y@),
{
    let xp = crate::text::chars_of(x.provider.as_str());
    let yp = crate::text::chars_of(y.provider.as_str());
    let xi = crate::text::chars_of(x.id.as_str());
    let yi = crate::text::chars_of(y.id.as_str());
    let same_provider = crate::text::seq_eq(xp.as_slice(), yp.as_slice());
    (lex_le_exec(xp.as_slice(), yp.as_slice()) && !same_provider) || (same_provider && lex_le_exec(
        xi.as_slice(),
        yi.as_slice(),
    ))
}

/// The entries of `v` ordered by provider, then identifier; entries with equal
/// keys keep their order.
pub fn sort_models(v: &Vec<ModelInfo>) -> (r: Vec<ModelInfo>)
    ensures
        views(r@) == isort(views(v@)),
{
    let ghost vs = views(v@);
    let mut out: Vec<ModelInfo> = Vec::new();
    let mut i: usize = 0;
    assert(vs.take(0) =~= Seq::<ModelInfoView>::empty());
    while i < v.len()
        invariant
            i <= v@.len(),
            vs == views(v@),
            views(out@) == isort(vs.take(i as int)),
        decreases v.len() - i,
    {
        let x = v[i].copy();
        let ghost t = views(out@);
        let mut pos: usize = 0;
        while pos < out.len() && key_le_exec(&out[pos], &x)
            invariant
                pos <= out@.len(),
                t == views(out@),
                insert_pos(t, x@, 0) == insert_pos(t, x@, pos as int),
            decreases out.len() - pos,
        {
            pos = pos + 1;
        }
        assert(insert_pos(t, x@, pos as int) == pos);
        let ghost prev = out@;
        out.insert(pos, x);
        assert(views(out@) =~= t.insert(pos as int, vs[i as int]));
        assert(vs.take(i + 1).drop_last() =~= vs.take(i as int));
        i = i + 1;
    }
    assert(vs.take(vs.len() as int) =~= vs);
    out
}

} // verus!
