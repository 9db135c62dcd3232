//! Case-insensitive replacement as the dictionary performs it: matches of the
//! lowercased pattern are searched in the lowercased text, and the byte
//! offsets found there are used to cut the original text. Offsets are those
//! of the UTF-8 encodings, so where lowercasing changes the length of the text
//! the cuts fall where the lowercased text puts them.
use vstd::prelude::*;
use vstd::utf8::{char_is_scalar, encode_scalar, encode_utf8, encode_utf8_decode_utf8};

use crate::text::{chars_of, string_of};

verus! {

/// The UTF-8 encoding of `a + b` is the encoding of `a` followed by that of `b`.
pub proof fn lemma_encode_concat(a: Seq<char>, b: Seq<char>)
    ensures
        encode_utf8(a + b) == encode_utf8(a) + encode_utf8(b),
    decreases a.len(),
{
    if a.len() == 0 {
        assert(a + b =~= b);
        assert(encode_utf8(a) + encode_utf8(b) =~= encode_utf8(b));
    } else {
        lemma_encode_concat(a.drop_first(), b);
        assert((a + b).drop_first() =~= a.drop_first() + b);
        assert((a + b)[0] == a[0]);
        assert(encode_utf8(a + b) =~= encode_scalar(a[0] as u32) + (encode_utf8(a.drop_first())
            + encode_utf8(b)));
    }
}

/// The byte offset of the character at index `k` of `c` in its UTF-8 encoding.
pub open spec fn byte_offset(c: Seq<char>, k: int) -> int {
    encode_utf8(c.take(k)).len() as int
}

/// `b` is a character boundary of the encoding of `c`: the byte offset of one
/// of its character positions (its end included).
pub open spec fn is_boundary(c: Seq<char>, b: int) -> bool {
    exists|k: int| 0 <= k <= c.len() && byte_offset(c, k) == b
}

/// The number of bytes that encode `c`.
pub open spec fn scalar_len(c: char) -> int {
    encode_scalar(c as u32).len() as int
}

proof fn lemma_scalar_len(c: char)
    ensures
        1 <= scalar_len(c) <= 4,
{
}

proof fn lemma_offset_step(c: Seq<char>, k: int)
    requires
        0 <= k < c.len(),
    ensures
        byte_offset(c, k + 1) == byte_offset(c, k) + scalar_len(c[k]),
{
    assert(c.take(k + 1) =~= c.take(k) + seq![c[k]]);
    lemma_encode_concat(c.take(k), seq![c[k]]);
    let one = seq![c[k]];
    assert(one.drop_first() =~= Seq::<char>::empty());
    assert(encode_utf8(Seq::<char>::empty()) == Seq::<u8>::empty());
    assert(encode_utf8(one) == encode_scalar(one[0] as u32) + encode_utf8(one.drop_first()));
    assert(encode_utf8(one) =~= encode_scalar(c[k] as u32));
}

/// The encoding of a slice of characters is the slice of the encoding between
/// their byte offsets.
pub proof fn lemma_encode_subrange(c: Seq<char>, i: int, j: int)
    requires
        0 <= i <= j <= c.len(),
    ensures
        encode_utf8(c.subrange(i, j)) == encode_utf8(c).subrange(byte_offset(c, i), byte_offset(c, j)),
        byte_offset(c, i) <= byte_offset(c, j) <= encode_utf8(c).len(),
{
    let a = c.take(i);
    let m = c.subrange(i, j);
    let z = c.skip(j);
    assert(c =~= a + m + z);
    assert(c.take(j) =~= a + m);
    lemma_encode_concat(a, m);
    lemma_encode_concat(a + m, z);
    let ea = encode_utf8(a);
    let em = encode_utf8(m);
    let ez = encode_utf8(z);
    assert(encode_utf8(c) == ea + em + ez);
    assert(encode_utf8(c).subrange(ea.len() as int, (ea.len() + em.len()) as int) =~= em);
}

/// Offsets grow with the index: distinct positions have distinct offsets.
proof fn lemma_offset_strict(c: Seq<char>, i: int, j: int)
    requires
        0 <= i < j <= c.len(),
    ensures
        byte_offset(c, i) < byte_offset(c, j),
    decreases j - i,
{
    lemma_offset_step(c, j - 1);
    lemma_scalar_len(c[j - 1]);
    if i < j - 1 {
        lemma_offset_strict(c, i, j - 1);
    }
}

/// The first byte offset at or after `from` where `pat` occurs in `hay`, as
/// `str::find` reports it on `hay[from..]` (plus `from`).
pub open spec fn find_from(hay: Seq<u8>, pat: Seq<u8>, from: int) -> Option<int>
    decreases hay.len() - from,
{
    if from < 0 || from + pat.len() > hay.len() {
        None
    } else if hay.subrange(from, from + pat.len()) == pat {
        Some(from)
    } else if from >= hay.len() {
        None
    } else {
        find_from(hay, pat, from + 1)
    }
}

/// The replacement runs without slicing a string off a character boundary or
/// past its end, starting at byte `s`: `text` and `lower_text` are cut at
/// `s`, the match found in the lowercase text is cut from `text`, and the
/// search goes on `find_len` bytes (the length of the pattern as typed)
/// after the match.
pub open spec fn fold_ok(
    text: Seq<char>,
    lower_text: Seq<char>,
    lower_find: Seq<char>,
    find_len: int,
    s: int,
) -> bool
    decreases encode_utf8(lower_text).len() - s,
{
    let l = encode_utf8(lower_text);
    if find_len <= 0 || !is_boundary(lower_text, s) || !is_boundary(text, s) {
        false
    } else {
        match find_from(l, encode_utf8(lower_find), s) {
            None => true,
            Some(q) => if s <= q && q + find_len <= l.len() && is_boundary(text, q) {
                fold_ok(text, lower_text, lower_find, find_len, q + find_len)
            } else {
                false
            },
        }
    }
}

/// The bytes of the text after the replacement, from byte `s` on: up to each
/// match found in the lowercase text the text is kept, the match is replaced
/// by `replace`, and the search resumes `find_len` bytes after the match.
pub open spec fn fold_replace(
    text: Seq<char>,
    lower_text: Seq<char>,
    lower_find: Seq<char>,
    replace: Seq<char>,
    find_len: int,
    s: int,
) -> Seq<u8>
    decreases encode_utf8(lower_text).len() - s,
{
    let t = encode_utf8(text);
    let l = encode_utf8(lower_text);
    if find_len <= 0 || s < 0 || s > l.len() {
        seq![]
    } else {
        match find_from(l, encode_utf8(lower_find), s) {
            None => t.subrange(s, t.len() as int),
            Some(q) => if s <= q && q + find_len <= l.len() {
                t.subrange(s, q) + encode_utf8(replace) + fold_replace(
                    text,
                    lower_text,
                    lower_find,
                    replace,
                    find_len,
                    q + find_len,
                )
            } else {
                seq![]
            },
        }
    }
}

/// The number of bytes that encode `c`.
fn utf8_len(c: char) -> (r: usize)
    ensures
        r == scalar_len(c),
{
    proof {
        char_is_scalar(c);
    }
    let u = c as u32;
    if u <= 0x7F {
        1
    } else if u <= 0x7FF {
        2
    } else if u <= 0xFFFF {
        3
    } else {
        4
    }
}

/// The byte offset of every character position of `c`, its end included.
fn offsets(c: &Vec<char>) -> (r: Vec<usize>)
    requires
        encode_utf8(c@).len() <= usize::MAX,
    ensures
        r@.len() == c@.len() + 1,
        forall|k: int| 0 <= k <= c@.len() ==> #[trigger] r@[k] == byte_offset(c@, k),
{
    let mut r: Vec<usize> = Vec::new();
    r.push(0);
    assert(c@.take(0) =~= Seq::<char>::empty());
    let mut i: usize = 0;
    while i < c.len()
        invariant
            i <= c@.len(),
            encode_utf8(c@).len() <= usize::MAX,
            r@.len() == i + 1,
            forall|k: int| 0 <= k <= i ==> #[trigger] r@[k] == byte_offset(c@, k),
        decreases c.len() - i,
    {
        proof {
            lemma_offset_step(c@, i as int);
            lemma_encode_subrange(c@, i + 1, c@.len() as int);
        }
        let w = utf8_len(c[i]);
        let next = r[i] + w;
        r.push(next);
        i = i + 1;
    }
    r
}

/// The character position whose byte offset is `b`, if there is one.
fn position_of_offset(off: &Vec<usize>, b: usize) -> (r: Option<usize>)
    ensures
        r matches Some(k) ==> k < off@.len() && off@[k as int] == b,
        r is None ==> forall|k: int| 0 <= k < off@.len() ==> off@[k] != b,
{
    let mut k: usize = 0;
    while k < off.len()
        invariant
            k <= off@.len(),
            forall|j: int| 0 <= j < k ==> off@[j] != b,
        decreases off.len() - k,
    {
        if off[k] == b {
            return Some(k);
        }
        k = k + 1;
    }
    None
}

/// `pat` occurs in `hay` at offset `i`.
fn occurs_at_bytes(hay: &[u8], pat: &[u8], i: usize) -> (r: bool)
    requires
        i + pat@.len() <= hay@.len(),
    ensures
        r == (hay@.subrange(i as int, i + pat@.len()) == pat@),
{
    assert(hay@.len() == hay.len() && pat@.len() == pat.len());
    let mut k: usize = 0;
    while k < pat.len()
        invariant
            i + pat@.len() <= hay@.len(),
            hay@.len() == hay.len(),
            pat@.len() == pat.len(),
            k <= pat@.len(),
            forall|j: int| 0 <= j < k ==> hay@[i + j] == pat@[j],
        decreases pat.len() - k,
    {
        if hay[i + k] != pat[k] {
            assert(hay@.subrange(i as int, i + pat@.len())[k as int] != pat@[k as int]);
            return false;
        }
        k = k + 1;
    }
    assert(hay@.subrange(i as int, i + pat@.len()) =~= pat@);
    true
}

/// The first offset at or after `from` where `pat` occurs in `hay`.
fn find_bytes(hay: &[u8], pat: &[u8], from: usize) -> (r: Option<usize>)
    ensures
        r matches Some(q) ==> find_from(hay@, pat@, from as int) == Some(q as int),
        r is None ==> find_from(hay@, pat@, from as int) is None,
{
    let mut i = from;
    while i <= hay.len() && pat.len() <= hay.len() - i
        invariant
            from <= i,
            find_from(hay@, pat@, from as int) == find_from(hay@, pat@, i as int),
        decreases hay.len() + 1 - i,
    {
        if occurs_at_bytes(hay, pat, i) {
            return Some(i);
        }
        if i == hay.len() {
            return None;
        }
        i = i + 1;
    }
    None
}

/// Appends `src[from..to]` to `out`.
fn append_range(out: &mut Vec<char>, src: &Vec<char>, from: usize, to: usize)
    requires
        from <= to <= src@.len(),
    ensures
        final(out)@ == old(out)@ + src@.subrange(from as int, to as int),
{
    let mut i = from;
    while i < to
        invariant
            from <= i <= to <= src@.len(),
            out@ == old(out)@ + src@.subrange(from as int, i as int),
        decreases to - i,
    {
        out.push(src[i]);
        i = i + 1;
        assert(out@ =~= old(out)@ + src@.subrange(from as int, i as int));
    }
}

/// Replaces, in `text`, the matches of `lower_find` found in `lower_text` (the
/// lowercase forms of the text and of the pattern) by `replace`, as the
/// dictionary does for a rule that ignores case; `find_len` is the length in
/// bytes of the pattern as typed. Returns `None` exactly where the
/// replacement would cut a string off a character boundary or past its end.
pub fn replace_lowercase_matches(
    text: &str,
    lower_text: &str,
    lower_find: &str,
    find_len: usize,
    replace: &str,
) -> (r: Option<String>)
    ensures
        r is Some == fold_ok(text@, lower_text@, lower_find@, find_len as int, 0),
        r matches Some(out) ==> encode_utf8(out@) == fold_replace(
            text@,
            lower_text@,
            lower_find@,
            replace@,
            find_len as int,
            0,
        ),
{
    let ghost tx = text@;
    let ghost lx = lower_text@;
    let ghost fx = lower_find@;
    let ghost rx = replace@;
    let n = find_len;
    if n == 0 {
        return None;
    }
    let tc = chars_of(text);
    let lc = chars_of(lower_text);
    let rc = chars_of(replace);
    let tb = text.as_bytes();
    let lb = lower_text.as_bytes();
    let fb = lower_find.as_bytes();
    assert(tb@.len() == tb.len() && lb@.len() == lb.len());
    let ot = offsets(&tc);
    let ol = offsets(&lc);
    proof {
        assert(tx.take(tx.len() as int) =~= tx);
        assert(lx.take(lx.len() as int) =~= lx);
        assert(byte_offset(tx, 0) == 0) by {
            assert(tx.take(0) =~= Seq::<char>::empty());
        }
    }
    let mut out: Vec<char> = Vec::new();
    let mut s: usize = 0;
    loop
        invariant
            tx == text@,
            lx == lower_text@,
            fx == lower_find@,
            rx == replace@,
            n == find_len,
            n > 0,
            tc@ == tx,
            lc@ == lx,
            rc@ == rx,
            tb@ == encode_utf8(tx),
            lb@ == encode_utf8(lx),
            fb@ == encode_utf8(fx),
            ot@.len() == tx.len() + 1,
            ol@.len() == lx.len() + 1,
            forall|k: int| 0 <= k <= tx.len() ==> #[trigger] ot@[k] == byte_offset(tx, k),
            forall|k: int| 0 <= k <= lx.len() ==> #[trigger] ol@[k] == byte_offset(lx, k),
            s <= lb@.len(),
            fold_ok(tx, lx, fx, n as int, 0) == fold_ok(tx, lx, fx, n as int, s as int),
            encode_utf8(out@) + fold_replace(tx, lx, fx, rx, n as int, s as int) == fold_replace(
                tx,
                lx,
                fx,
                rx,
                n as int,
                0,
            ),
        decreases lb@.len() - s,
    {
        match position_of_offset(&ol, s) {
            Some(k) => {
                assert(ol@[k as int] == byte_offset(lx, k as int));
            },
            None => {
                proof {
                    lemma_not_boundary(lx, ol@, s as int);
                }
                return None;
            },
        }
        let kt = match position_of_offset(&ot, s) {
            Some(k) => k,
            None => {
                proof {
                    lemma_not_boundary(tx, ot@, s as int);
                }
                return None;
            },
        };
        assert(is_boundary(lx, s as int));
        assert(is_boundary(tx, s as int));
        match find_bytes(lb, fb, s) {
            None => {
                proof {
                    lemma_encode_subrange(tx, kt as int, tx.len() as int);
                    assert(tx.subrange(kt as int, tx.len() as int) =~= tc@.subrange(
                        kt as int,
                        tc@.len() as int,
                    ));
                }
                let ghost before = out@;
                append_range(&mut out, &tc, kt, tc.len());
                proof {
                    lemma_encode_concat(before, tx.subrange(kt as int, tx.len() as int));
                    assert(tx.take(tx.len() as int) =~= tx);
                    assert(byte_offset(tx, tx.len() as int) == encode_utf8(tx).len());
                    assert(ot@[kt as int] == s);
                    assert(fold_replace(tx, lx, fx, rx, n as int, s as int) == encode_utf8(tx).subrange(
                        s as int,
                        encode_utf8(tx).len() as int,
                    ));
                    assert(encode_utf8(out@) == encode_utf8(before) + fold_replace(
                        tx,
                        lx,
                        fx,
                        rx,
                        n as int,
                        s as int,
                    ));
                }
                let r = string_of(out.as_slice());
                return Some(r);
            },
            Some(q) => {
                proof {
                    lemma_find_from_bounds(lb@, fb@, s as int);
                }
                let kq = match position_of_offset(&ot, q) {
                    Some(k) => k,
                    None => {
                        proof {
                            lemma_not_boundary(tx, ot@, q as int);
                        }
                        return None;
                    },
                };
                if n > lb.len() - q {
                    return None;
                }
                assert(is_boundary(tx, q as int));
                proof {
                    if kq < kt {
                        lemma_offset_strict(tx, kq as int, kt as int);
                    }
                    lemma_encode_subrange(tx, kt as int, kq as int);
                }
                let ghost before = out@;
                append_range(&mut out, &tc, kt, kq);
                let ghost middle = out@;
                append_range(&mut out, &rc, 0, rc.len());
                proof {
                    assert(rc@.subrange(0, rc@.len() as int) =~= rx);
                    assert(middle == before + tx.subrange(kt as int, kq as int));
                    lemma_encode_concat(before, tx.subrange(kt as int, kq as int));
                    lemma_encode_concat(middle, rx);
                    let t = encode_utf8(tx);
                    assert(encode_utf8(out@) == encode_utf8(before) + t.subrange(s as int, q as int)
                        + encode_utf8(rx));
                    assert(encode_utf8(out@) + fold_replace(tx, lx, fx, rx, n as int, q + n) =~= encode_utf8(
                        before,
                    ) + (t.subrange(s as int, q as int) + encode_utf8(rx) + fold_replace(
                        tx,
                        lx,
                        fx,
                        rx,
                        n as int,
                        q + n,
                    )));
                }
                s = q + n;
            },
        }
    }
}

proof fn lemma_not_boundary(c: Seq<char>, off: Seq<usize>, b: int)
    requires
        off.len() == c.len() + 1,
        forall|k: int| 0 <= k <= c.len() ==> #[trigger] off[k] == byte_offset(c, k),
        forall|k: int| 0 <= k < off.len() ==> off[k] != b,
    ensures
        !is_boundary(c, b),
{
    if is_boundary(c, b) {
        let k = choose|k: int| 0 <= k <= c.len() && byte_offset(c, k) == b;
        assert(off[k] == byte_offset(c, k));
    }
}

proof fn lemma_find_from_bounds(hay: Seq<u8>, pat: Seq<u8>, from: int)
    ensures
        find_from(hay, pat, from) matches Some(q) ==> from <= q && q + pat.len() <= hay.len(),
    decreases hay.len() - from,
{
    if from < 0 || from + pat.len() > hay.len() {
    } else if hay.subrange(from, from + pat.len()) == pat {
    } else if from >= hay.len() {
    } else {
        lemma_find_from_bounds(hay, pat, from + 1);
    }
}

/// Decoding the bytes that a replacement produced gives back its characters.
pub proof fn lemma_decode_replaced(out: Seq<char>, bytes: Seq<u8>)
    requires
        encode_utf8(out) == bytes,
    ensures
        vstd::utf8::decode_utf8(bytes) == out,
{
    encode_utf8_decode_utf8(out);
}

/// Where the replacement runs without cutting a string off a character
/// boundary, the bytes it produces are the encoding of a character sequence:
/// the text between matches and the replacement, character for character.
pub proof fn lemma_fold_replace_chars(
    text: Seq<char>,
    lower_text: Seq<char>,
    lower_find: Seq<char>,
    replace: Seq<char>,
    find_len: int,
    s: int,
) -> (c: Seq<char>)
    requires
        fold_ok(text, lower_text, lower_find, find_len, s),
    ensures
        encode_utf8(c) == fold_replace(text, lower_text, lower_find, replace, find_len, s),
    decreases encode_utf8(lower_text).len() - s,
{
    let t = encode_utf8(text);
    let l = encode_utf8(lower_text);
    let k = choose|k: int| 0 <= k <= text.len() && byte_offset(text, k) == s;
    let kl = choose|k: int| 0 <= k <= lower_text.len() && byte_offset(lower_text, k) == s;
    lemma_encode_subrange(lower_text, kl, lower_text.len() as int);
    assert(lower_text.take(lower_text.len() as int) =~= lower_text);
    assert(text.take(text.len() as int) =~= text);
    lemma_encode_subrange(text, k, text.len() as int);
    match find_from(l, encode_utf8(lower_find), s) {
        None => {
            text.subrange(k, text.len() as int)
        },
        Some(q) => {
            let kq = choose|j: int| 0 <= j <= text.len() && byte_offset(text, j) == q;
            if kq < k {
                lemma_offset_strict(text, kq, k);
            }
            lemma_encode_subrange(text, k, kq);
            let rest = lemma_fold_replace_chars(
                text,
                lower_text,
                lower_find,
                replace,
                find_len,
                q + find_len,
            );
            let mid = text.subrange(k, kq);
            lemma_encode_concat(mid, replace);
            lemma_encode_concat(mid + replace, rest);
            mid + replace + rest
        },
    }
}

} // verus!
