use vstd::prelude::*;
use vstd::utf8::encode_utf8;

verus! {

/// The UTF-8 encoding of a text, as `str::as_bytes` gives it.
pub open spec fn text_bytes(s: Seq<char>) -> Seq<u8> {
    encode_utf8(s)
}

/// Lexicographic order on byte strings: the order in which Rust compares `str`.
pub open spec fn le_bytes(a: Seq<u8>, b: Seq<u8>) -> bool
    decreases a.len(),
{
    if a.len() == 0 {
        true
    } else if b.len() == 0 {
        false
    } else if a[0] != b[0] {
        a[0] < b[0]
    } else {
        le_bytes(a.drop_first(), b.drop_first())
    }
}

/// Every byte string is at or below itself.
pub proof fn lemma_le_bytes_refl(a: Seq<u8>)
    ensures
        le_bytes(a, a),
    decreases a.len(),
{
    if a.len() > 0 {
        lemma_le_bytes_refl(a.drop_first());
    }
}

/// Comparing from position `i` on, where both strings agree at `i`, is the
/// same as comparing from `i + 1` on.
proof fn lemma_le_bytes_step(a: Seq<u8>, b: Seq<u8>, i: int)
    requires
        0 <= i < a.len(),
        i < b.len(),
        a[i] == b[i],
    ensures
        le_bytes(a.subrange(i, a.len() as int), b.subrange(i, b.len() as int)) == le_bytes(
            a.subrange(i + 1, a.len() as int),
            b.subrange(i + 1, b.len() as int),
        ),
{
    assert(a.subrange(i, a.len() as int).drop_first() =~= a.subrange(i + 1, a.len() as int));
    assert(b.subrange(i, b.len() as int).drop_first() =~= b.subrange(i + 1, b.len() as int));
}

/// Whether `a` sorts at or before `b`, byte by byte.
pub fn bytes_le(a: &[u8], b: &[u8]) -> (r: bool)
    ensures
        r == le_bytes(a@, b@),
{
    let mut i: usize = 0;
    assert(a@.subrange(0, a@.len() as int) =~= a@);
    assert(b@.subrange(0, b@.len() as int) =~= b@);
    while i < a.len() && i < b.len()
        invariant
            i <= a.len(),
            i <= b.len(),
            le_bytes(a@, b@) == le_bytes(
                a@.subrange(i as int, a@.len() as int),
                b@.subrange(i as int, b@.len() as int),
            ),
        decreases a.len() - i,
    {
        if a[i] != b[i] {
            return a[i] < b[i];
        }
        proof {
            lemma_le_bytes_step(a@, b@, i as int);
        }
        i = i + 1;
    }
    i == a.len()
}

} // verus!
