use vstd::prelude::*;

use vstd::slice::slice_to_vec;

use crate::bytes::text_bytes;

verus! {

/// `s` with every occurrence of `p` replaced by `r`, matched left to right
/// without overlap; an empty pattern leaves `s` as it is.
pub open spec fn replace_all(s: Seq<u8>, p: Seq<u8>, r: Seq<u8>) -> Seq<u8>
    decreases s.len(),
{
    if p.len() == 0 || s.len() == 0 {
        s
    } else if p.len() <= s.len() && s.subrange(0, p.len() as int) == p {
        r + replace_all(s.subrange(p.len() as int, s.len() as int), p, r)
    } else {
        seq![s[0]] + replace_all(s.drop_first(), p, r)
    }
}

/// A rewrite rule as bytes: its pattern and its replacement.
pub open spec fn rule_bytes(rule: (String, String)) -> (Seq<u8>, Seq<u8>) {
    (text_bytes(rule.0@), text_bytes(rule.1@))
}

/// The rules applied one after the other, in order, each to the output of the
/// ones before it.
pub open spec fn apply_rules(rules: Seq<(Seq<u8>, Seq<u8>)>, s: Seq<u8>) -> Seq<u8>
    decreases rules.len(),
{
    if rules.len() == 0 {
        s
    } else {
        let last = rules.last();
        replace_all(apply_rules(rules.drop_last(), s), last.0, last.1)
    }
}

/// The rules of a configuration, as byte pairs.
pub open spec fn rules_bytes(rules: Seq<(String, String)>) -> Seq<(Seq<u8>, Seq<u8>)> {
    rules.map_values(|rule: (String, String)| rule_bytes(rule))
}

/// Whether `p` occurs in `s` at position `i`.
fn occurs_at(s: &[u8], p: &[u8], i: usize) -> (r: bool)
    requires
        i <= s@.len(),
    ensures
        r == (i + p@.len() <= s@.len() && s@.subrange(i as int, i + p@.len()) == p@),
{
    if p.len() > s.len() - i {
        return false;
    }
    let len = s.len();
    let mut k: usize = 0;
    while k < p.len()
        invariant
            len == s@.len(),
            i + p@.len() <= s@.len(),
            k <= p@.len(),
            forall|m: int| 0 <= m < k ==> s@[i + m] == p@[m],
        decreases p.len() - k,
    {
        if s[i + k] != p[k] {
            assert(s@.subrange(i as int, i + p@.len())[k as int] != p@[k as int]);
            return false;
        }
        k = k + 1;
    }
    assert(s@.subrange(i as int, i + p@.len()) =~= p@);
    true
}

/// Appends the bytes of `src` to `out`.
fn push_all(out: &mut Vec<u8>, src: &[u8])
    ensures
        final(out)@ == old(out)@ + src@,
{
    let mut k: usize = 0;
    while k < src.len()
        invariant
            k <= src@.len(),
            out@ == old(out)@ + src@.subrange(0, k as int),
        decreases src.len() - k,
    {
        out.push(src[k]);
        k = k + 1;
        assert(src@.subrange(0, k as int) =~= src@.subrange(0, k - 1) + seq![src@[k - 1]]);
    }
    assert(src@.subrange(0, k as int) =~= src@);
}

/// Replaces every occurrence of `pattern` in `text` by `replacement`, left to
/// right and without overlap. An empty pattern changes nothing.
pub fn replace_bytes(text: &[u8], pattern: &[u8], replacement: &[u8]) -> (r: Vec<u8>)
    ensures
        r@ == replace_all(text@, pattern@, replacement@),
{
    let mut out: Vec<u8> = Vec::new();
    if pattern.len() == 0 {
        push_all(&mut out, text);
        return out;
    }
    let n = text.len();
    let mut i: usize = 0;
    assert(text@.subrange(0, n as int) =~= text@);
    while i < n
        invariant
            n == text@.len(),
            pattern@.len() > 0,
            i <= n,
            out@ + replace_all(text@.subrange(i as int, n as int), pattern@, replacement@)
                == replace_all(text@, pattern@, replacement@),
        decreases n - i,
    {
        let ghost t = text@.subrange(i as int, n as int);
        if occurs_at(text, pattern, i) {
            assert(t.subrange(0, pattern@.len() as int) =~= pattern@);
            assert(t.subrange(pattern@.len() as int, t.len() as int) =~= text@.subrange(
                i + pattern@.len(),
                n as int,
            ));
            let ghost before = out@;
            push_all(&mut out, replacement);
            i = i + pattern.len();
            assert(out@ + replace_all(text@.subrange(i as int, n as int), pattern@, replacement@)
                =~= before + (replacement@ + replace_all(
                text@.subrange(i as int, n as int),
                pattern@,
                replacement@,
            )));
        } else {
            assert(pattern@.len() <= t.len() ==> t.subrange(0, pattern@.len() as int)
                =~= text@.subrange(i as int, i + pattern@.len()));
            assert(t.drop_first() =~= text@.subrange(i + 1, n as int));
            out.push(text[i]);
            i = i + 1;
            assert(out@ + replace_all(text@.subrange(i as int, n as int), pattern@, replacement@)
                =~= out@.drop_last() + (seq![text@[i - 1]] + replace_all(
                text@.subrange(i as int, n as int),
                pattern@,
                replacement@,
            )));
        }
    }
    assert(text@.subrange(n as int, n as int) =~= Seq::<u8>::empty());
    assert(out@ + Seq::<u8>::empty() =~= out@);
    out
}

/// Applies the rules to the text of `query`, in order, each to the output of
/// the ones before it.
pub fn apply_rewrites(rules: &Vec<(String, String)>, query: &str) -> (r: Vec<u8>)
    ensures
        r@ == apply_rules(rules_bytes(rules@), text_bytes(query@)),
{
    let mut cur: Vec<u8> = slice_to_vec(query.as_bytes());
    let mut i: usize = 0;
    assert(rules_bytes(rules@).take(0) =~= Seq::<(Seq<u8>, Seq<u8>)>::empty());
    while i < rules.len()
        invariant
            i <= rules@.len(),
            cur@ == apply_rules(rules_bytes(rules@).take(i as int), text_bytes(query@)),
        decreases rules.len() - i,
    {
        let rule = &rules[i];
        cur = replace_bytes(cur.as_slice(), rule.0.as_str().as_bytes(), rule.1.as_str().as_bytes());
        i = i + 1;
        assert(rules_bytes(rules@).take(i as int).drop_last() =~= rules_bytes(rules@).take(
            i - 1,
        ));
    }
    assert(rules_bytes(rules@).take(i as int) =~= rules_bytes(rules@));
    cur
}

/// Rules act in sequence: applying `first` followed by `then` is applying
/// `first`, and then `then` to what came out.
pub proof fn lemma_rules_compose(
    first: Seq<(Seq<u8>, Seq<u8>)>,
    then: Seq<(Seq<u8>, Seq<u8>)>,
    s: Seq<u8>,
)
    ensures
        apply_rules(first + then, s) == apply_rules(then, apply_rules(first, s)),
    decreases then.len(),
{
    if then.len() == 0 {
        assert(first + then =~= first);
    } else {
        assert((first + then).drop_last() =~= first + then.drop_last());
        assert((first + then).last() == then.last());
        lemma_rules_compose(first, then.drop_last(), s);
    }
}

/// A single rule replaces its pattern once over the text, left to right: text
/// that a replacement brings in is not looked at again by the same rule.
pub proof fn lemma_single_rule(rule: (Seq<u8>, Seq<u8>), s: Seq<u8>)
    ensures
        apply_rules(seq![rule], s) == replace_all(s, rule.0, rule.1),
{
    assert(seq![rule].drop_last() =~= Seq::<(Seq<u8>, Seq<u8>)>::empty());
    assert(apply_rules(seq![rule].drop_last(), s) == s);
}

} // verus!
