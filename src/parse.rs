use vstd::prelude::*;
use vstd::slice::{slice_subrange, slice_to_vec};

use crate::bytes::text_bytes;
use crate::index::{Index, IndexEntry};

verus! {

pub const NEWLINE: u8 = 10;

pub const CARRIAGE_RETURN: u8 = 13;

pub const SPACE: u8 = 32;

/// Position of the first newline in `b`, or its length where it has none.
pub open spec fn first_newline(b: Seq<u8>) -> int
    decreases b.len(),
{
    if b.len() == 0 || b[0] == NEWLINE {
        0
    } else {
        1 + first_newline(b.drop_first())
    }
}

/// A line without the carriage return of a `\r\n` ending.
pub open spec fn strip_cr(l: Seq<u8>) -> Seq<u8> {
    if l.len() > 0 && l.last() == CARRIAGE_RETURN {
        l.drop_last()
    } else {
        l
    }
}

/// The lines of a text: split at each newline, a `\r` before the newline
/// dropped, and no empty line after a final newline.
pub open spec fn lines_of(b: Seq<u8>) -> Seq<Seq<u8>>
    decreases b.len(),
{
    if b.len() == 0 {
        Seq::empty()
    } else {
        let k = first_newline(b);
        if 0 <= k < b.len() {
            seq![strip_cr(b.subrange(0, k))] + lines_of(b.subrange(k + 1, b.len() as int))
        } else {
            seq![b]
        }
    }
}

/// Position of the last space in `l`, or -1 where it has none.
pub open spec fn last_space(l: Seq<u8>) -> int
    decreases l.len(),
{
    if l.len() == 0 {
        -1
    } else if l.last() == SPACE {
        l.len() - 1
    } else {
        last_space(l.drop_last())
    }
}

pub open spec fn is_digit(c: u8) -> bool {
    48 <= c <= 57
}

/// The number that a string of decimal digits writes.
pub open spec fn digits_value(d: Seq<u8>) -> nat
    decreases d.len(),
{
    if d.len() == 0 {
        0
    } else {
        digits_value(d.drop_last()) * 10 + (d.last() - 48) as nat
    }
}

/// `d` is a page number: one or more decimal digits, within `u32`.
pub open spec fn is_page_number(d: Seq<u8>) -> bool {
    &&& d.len() > 0
    &&& forall|i: int| 0 <= i < d.len() ==> is_digit(#[trigger] d[i])
    &&& digits_value(d) <= u32::MAX
}

/// An index line read as its key and page: the page is the text after the
/// last space, the key all that comes before it.
pub open spec fn parse_line(l: Seq<u8>) -> Option<(Seq<u8>, u32)> {
    let sp = last_space(l);
    let d = l.subrange(sp + 1, l.len() as int);
    if sp >= 0 && is_page_number(d) {
        Some((l.subrange(0, sp), digits_value(d) as u32))
    } else {
        None
    }
}

/// Why an index text could not be read.
#[derive(Clone, Copy, Debug, PartialEq, Eq, Structural)]
pub enum IndexError {
    /// The line of this number (counted from 1) is not `<key> <page>`.
    BadLine(usize),
}

proof fn lemma_first_newline(b: Seq<u8>, k: int)
    requires
        0 <= k <= b.len(),
        forall|m: int| 0 <= m < k ==> b[m] != NEWLINE,
        k == b.len() || b[k] == NEWLINE,
    ensures
        first_newline(b) == k,
    decreases k,
{
    if k > 0 {
        lemma_first_newline(b.drop_first(), k - 1);
    }
}

proof fn lemma_digits_monotone(d: Seq<u8>, i: int)
    requires
        0 <= i <= d.len(),
    ensures
        digits_value(d.subrange(0, i)) <= digits_value(d),
    decreases d.len() - i,
{
    if i < d.len() {
        assert(d.subrange(0, i + 1).drop_last() =~= d.subrange(0, i));
        lemma_digits_monotone(d, i + 1);
    } else {
        assert(d.subrange(0, i) =~= d);
    }
}

/// Reads a page number.
fn parse_page(d: &[u8]) -> (r: Option<u32>)
    ensures
        r is Some <==> is_page_number(d@),
        r matches Some(v) ==> v == digits_value(d@),
{
    if d.len() == 0 {
        return None;
    }
    let mut v: u64 = 0;
    let mut i: usize = 0;
    while i < d.len()
        invariant
            i <= d@.len(),
            v == digits_value(d@.subrange(0, i as int)),
            v <= u32::MAX,
            forall|m: int| 0 <= m < i ==> is_digit(#[trigger] d@[m]),
        decreases d.len() - i,
    {
        let c = d[i];
        if c < 48 || c > 57 {
            return None;
        }
        assert(d@.subrange(0, i + 1).drop_last() =~= d@.subrange(0, i as int));
        v = v * 10 + (c - 48) as u64;
        i = i + 1;
        if v > 4294967295 {
            proof {
                lemma_digits_monotone(d@, i as int);
            }
            return None;
        }
    }
    assert(d@.subrange(0, i as int) =~= d@);
    Some(v as u32)
}

/// Reads one index line.
pub fn parse_index_line(l: &[u8]) -> (r: Option<IndexEntry>)
    ensures
        r is Some <==> parse_line(l@) is Some,
        r matches Some(e) ==> parse_line(l@) == Some((e.key@, e.page)),
{
    let mut j: usize = l.len();
    assert(l@.subrange(0, j as int) =~= l@);
    while j > 0 && l[j - 1] != SPACE
        invariant
            j <= l@.len(),
            last_space(l@) == last_space(l@.subrange(0, j as int)),
        decreases j,
    {
        assert(l@.subrange(0, j as int).drop_last() =~= l@.subrange(0, j - 1));
        j = j - 1;
    }
    if j == 0 {
        return None;
    }
    let sp = j - 1;
    let page = parse_page(slice_subrange(l, j, l.len()));
    match page {
        Some(p) => Some(IndexEntry { key: slice_to_vec(slice_subrange(l, 0, sp)), page: p }),
        None => None,
    }
}

impl Index {
    /// Reads an index text: one `<key> <page>` entry per line. Fails on the
    /// first line that is not of that form.
    pub fn parse(text: &str) -> (r: Result<Index, IndexError>)
        ensures
            ({
                let lines = lines_of(text_bytes(text@));
                match r {
                    Ok(index) => index.len() == lines.len() && forall|k: int|
                        0 <= k < lines.len() ==> parse_line(#[trigger] lines[k]) == Some(
                            (index.key(k), index.page(k)),
                        ),
                    Err(IndexError::BadLine(n)) => 1 <= n <= lines.len() && parse_line(
                        lines[n - 1],
                    ) is None && forall|k: int|
                        0 <= k < n - 1 ==> parse_line(#[trigger] lines[k]) is Some,
                }
            }),
    {
        let b = text.as_bytes();
        let n = b.len();
        let ghost lines = lines_of(b@);
        let mut entries: Vec<IndexEntry> = Vec::new();
        let mut start: usize = 0;
        assert(b@.subrange(0, n as int) =~= b@);
        while start < n
            invariant
                n == b@.len(),
                b@ == text_bytes(text@),
                lines == lines_of(b@),
                start <= n,
                entries@.len() <= lines.len(),
                entries@.len() <= start,
                lines.subrange(entries@.len() as int, lines.len() as int) == lines_of(
                    b@.subrange(start as int, n as int),
                ),
                forall|k: int|
                    0 <= k < entries@.len() ==> parse_line(#[trigger] lines[k]) == Some(
                        (entries@[k].key@, entries@[k].page),
                    ),
            decreases n - start,
        {
            let ghost s = b@.subrange(start as int, n as int);
            let ghost done = entries@.len() as int;
            let mut j: usize = start;
            while j < n && b[j] != NEWLINE
                invariant
                    start <= j <= n,
                    n == b@.len(),
                    forall|m: int| start <= m < j ==> b@[m] != NEWLINE,
                decreases n - j,
            {
                j = j + 1;
            }
            proof {
                let k = j - start;
                lemma_first_newline(s, k);
                if k < s.len() {
                    assert(lines_of(s) == seq![strip_cr(s.subrange(0, k))] + lines_of(
                        s.subrange(k + 1, s.len() as int),
                    ));
                } else {
                    assert(lines_of(s) == seq![s]);
                }
                assert(lines.subrange(done, lines.len() as int)[0] == lines[done]);
            }
            let mut end = j;
            if j < n && j > start && b[j - 1] == CARRIAGE_RETURN {
                end = j - 1;
            }
            let line = slice_subrange(b, start, end);
            proof {
                assert(s.subrange(0, j - start) =~= b@.subrange(start as int, j as int));
                if j < n {
                    assert(s.subrange(j - start + 1, s.len() as int) =~= b@.subrange(
                        j + 1,
                        n as int,
                    ));
                    assert(line@ =~= strip_cr(s.subrange(0, j - start)));
                } else {
                    assert(line@ =~= s);
                }
            }
            match parse_index_line(line) {
                Some(e) => {
                    entries.push(e);
                },
                None => {
                    return Err(IndexError::BadLine(entries.len() + 1));
                },
            }
            proof {
                let rest = lines.subrange(done + 1, lines.len() as int);
                assert(rest =~= lines.subrange(done, lines.len() as int).drop_first());
            }
            if j < n {
                start = j + 1;
            } else {
                start = n;
                proof {
                    assert(b@.subrange(n as int, n as int) =~= Seq::<u8>::empty());
                }
            }
        }
        proof {
            assert(b@.subrange(n as int, n as int) =~= Seq::<u8>::empty());
            assert(lines.subrange(entries@.len() as int, lines.len() as int).len() == 0);
        }
        Ok(Index { entries })
    }
}

} // verus!
