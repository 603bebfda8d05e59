use vstd::prelude::*;

use crate::bytes::{bytes_le, le_bytes, lemma_le_bytes_refl, text_bytes};
use crate::rewrite::{apply_rewrites, apply_rules, rules_bytes};

verus! {

/// One line of an index: a key and the page where its section starts.
pub struct IndexEntry {
    pub key: Vec<u8>,
    pub page: u32,
}

/// The entries of a document's index, in file order.
pub struct Index {
    pub entries: Vec<IndexEntry>,
}

impl Index {
    pub open spec fn len(self) -> int {
        self.entries@.len() as int
    }

    pub open spec fn key(self, i: int) -> Seq<u8> {
        self.entries@[i].key@
    }

    pub open spec fn page(self, i: int) -> u32 {
        self.entries@[i].page
    }

    /// Keys never decrease along the index.
    pub open spec fn is_sorted(self) -> bool {
        forall|i: int, j: int| 0 <= i < j < self.len() ==> le_bytes(#[trigger] self.key(i), #[trigger] self.key(j))
    }

    /// Entry `i` is at or below `q`, and no later entry is.
    pub open spec fn is_last_match(self, q: Seq<u8>, i: int) -> bool {
        &&& 0 <= i < self.len()
        &&& le_bytes(self.key(i), q)
        &&& forall|j: int| i < j < self.len() ==> !le_bytes(#[trigger] self.key(j), q)
    }

    /// The page that a search for `q` lands on: that of the last entry whose key
    /// is at or below `q`, or the first page when there is none.
    pub open spec fn resolved_page(self, q: Seq<u8>) -> u32 {
        if exists|i: int| self.is_last_match(q, i) {
            self.page(choose|i: int| self.is_last_match(q, i))
        } else {
            1
        }
    }

    pub proof fn lemma_last_match_unique(self, q: Seq<u8>, i: int, k: int)
        requires
            self.is_last_match(q, i),
            self.is_last_match(q, k),
        ensures
            i == k,
    {
        if i < k {
            assert(!le_bytes(self.key(k), q));
        } else if k < i {
            assert(!le_bytes(self.key(i), q));
        }
    }

    /// Where some entry is at or below `q`, a last such entry exists.
    pub proof fn lemma_last_match_exists(self, q: Seq<u8>, j: int)
        requires
            0 <= j < self.len(),
            le_bytes(self.key(j), q),
        ensures
            exists|i: int| self.is_last_match(q, i),
        decreases self.len() - j,
    {
        if self.is_last_match(q, j) {
        } else {
            let k = choose|k: int| j < k < self.len() && le_bytes(#[trigger] self.key(k), q);
            self.lemma_last_match_exists(q, k);
        }
    }

    /// Scans the index from its end and returns the page of the first entry
    /// whose key is at or below `query`; page 1 where none is.
    pub fn resolve(&self, query: &[u8]) -> (r: u32)
        ensures
            r == self.resolved_page(query@),
    {
        let mut i: usize = self.entries.len();
        while i > 0
            invariant
                i <= self.entries@.len(),
                forall|j: int| i <= j < self.len() ==> !le_bytes(#[trigger] self.key(j), query@),
            decreases i,
        {
            i = i - 1;
            if bytes_le(self.entries[i].key.as_slice(), query) {
                proof {
                    assert(self.is_last_match(query@, i as int));
                    assert forall|k: int| self.is_last_match(query@, k) implies k == i by {
                        self.lemma_last_match_unique(query@, i as int, k);
                    }
                }
                return self.entries[i].page;
            }
        }
        1
    }

    /// Rewrites `query` with `rules`, in order, then resolves the result.
    pub fn lookup(&self, rules: &Vec<(String, String)>, query: &str) -> (r: u32)
        ensures
            r == self.resolved_page(apply_rules(rules_bytes(rules@), text_bytes(query@))),
    {
        let rewritten = apply_rewrites(rules, query);
        self.resolve(rewritten.as_slice())
    }
}

/// A search lands on the entry with the greatest key at or below the query
/// (the last one in index order among equal keys), and on page 1 when every key
/// sorts after the query.
pub proof fn lemma_resolve_is_floor(index: Index, q: Seq<u8>)
    requires
        index.is_sorted(),
    ensures
        (forall|j: int| 0 <= j < index.len() ==> !le_bytes(#[trigger] index.key(j), q))
            ==> index.resolved_page(q) == 1,
        (exists|j: int| 0 <= j < index.len() && le_bytes(#[trigger] index.key(j), q)) ==> exists|
            i: int,
        |
            0 <= i < index.len() && le_bytes(#[trigger] index.key(i), q) && index.page(i)
                == index.resolved_page(q) && forall|j: int|
                0 <= j < index.len() && le_bytes(#[trigger] index.key(j), q) ==> j <= i
                    && le_bytes(index.key(j), index.key(i)),
{
    if exists|j: int| 0 <= j < index.len() && le_bytes(#[trigger] index.key(j), q) {
        let j = choose|j: int| 0 <= j < index.len() && le_bytes(#[trigger] index.key(j), q);
        index.lemma_last_match_exists(q, j);
        let i = choose|i: int| index.is_last_match(q, i);
        assert forall|j: int|
            0 <= j < index.len() && le_bytes(#[trigger] index.key(j), q) implies j <= i
            && le_bytes(index.key(j), index.key(i)) by {
            if j == i {
                lemma_le_bytes_refl(index.key(i));
            }
        }
        assert(0 <= i < index.len() && le_bytes(index.key(i), q) && index.page(i)
            == index.resolved_page(q));
    }
}

} // verus!
