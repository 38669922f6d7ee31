use vstd::prelude::*;
use vstd::string::StringSliceAdditionalSpecFns;

use crate::bytes::{matches_at, occurs_at};

verus! {

/// Whether `b` starts a UTF-8 encoded character (is no continuation byte).
pub open spec fn starts_char(b: u8) -> bool {
    b < 128 || b >= 192
}

/// Characters encoded in `b[lo..hi]`, counted by their first bytes.
pub open spec fn chars_between(b: Seq<u8>, lo: int, hi: int) -> nat
    decreases hi - lo,
{
    if hi <= lo {
        0
    } else {
        chars_between(b, lo, hi - 1) + if starts_char(b[hi - 1]) {
            1nat
        } else {
            0nat
        }
    }
}

proof fn lemma_chars_between_split(b: Seq<u8>, lo: int, mid: int, hi: int)
    requires
        lo <= mid <= hi,
    ensures
        chars_between(b, lo, hi) == chars_between(b, lo, mid) + chars_between(b, mid, hi),
    decreases hi - mid,
{
    if hi > mid {
        lemma_chars_between_split(b, lo, mid, hi - 1);
    }
}

proof fn lemma_chars_between_bound(b: Seq<u8>, lo: int, hi: int)
    requires
        lo <= hi,
    ensures
        chars_between(b, lo, hi) <= hi - lo,
    decreases hi - lo,
{
    if hi > lo {
        lemma_chars_between_bound(b, lo, hi - 1);
    }
}

proof fn lemma_chars_between_same(a: Seq<u8>, alo: int, b: Seq<u8>, blo: int, n: int)
    requires
        0 <= n,
        0 <= alo,
        alo + n <= a.len(),
        0 <= blo,
        blo + n <= b.len(),
        a.subrange(alo, alo + n) == b.subrange(blo, blo + n),
    ensures
        chars_between(a, alo, alo + n) == chars_between(b, blo, blo + n),
    decreases n,
{
    if n > 0 {
        assert(a.subrange(alo, alo + n - 1) =~= a.subrange(alo, alo + n).subrange(0, n - 1));
        assert(b.subrange(blo, blo + n - 1) =~= b.subrange(blo, blo + n).subrange(0, n - 1));
        assert(a[alo + n - 1] == a.subrange(alo, alo + n)[n - 1]);
        assert(b[blo + n - 1] == b.subrange(blo, blo + n)[n - 1]);
        lemma_chars_between_same(a, alo, b, blo, n - 1);
    }
}

/// The first occurrence of `needle` at or after `i`, or -1.
pub open spec fn next_occurrence(hay: Seq<u8>, needle: Seq<u8>, i: int) -> int
    decreases hay.len() + 1 - i,
{
    if i < 0 || i + needle.len() > hay.len() {
        -1
    } else if occurs_at(hay, needle, i) {
        i
    } else {
        next_occurrence(hay, needle, i + 1)
    }
}

proof fn lemma_next_occurrence_bounds(hay: Seq<u8>, needle: Seq<u8>, i: int)
    requires
        0 <= i,
    ensures
        next_occurrence(hay, needle, i) == -1 || (i <= next_occurrence(hay, needle, i)
            && next_occurrence(hay, needle, i) + needle.len() <= hay.len() && occurs_at(
            hay,
            needle,
            next_occurrence(hay, needle, i),
        )),
    decreases hay.len() + 1 - i,
{
    if i + needle.len() <= hay.len() && !occurs_at(hay, needle, i) {
        lemma_next_occurrence_bounds(hay, needle, i + 1);
    }
}

/// Start offsets of the occurrences found by searching from `from` and
/// resuming after the end of each one found.
pub open spec fn occurrence_starts(hay: Seq<u8>, needle: Seq<u8>, from: int) -> Seq<int>
    decreases hay.len() + 1 - from,
    via occurrence_starts_decreases
{
    if needle.len() == 0 || from < 0 {
        seq![]
    } else {
        let p = next_occurrence(hay, needle, from);
        if p < 0 {
            seq![]
        } else {
            seq![p] + occurrence_starts(hay, needle, p + needle.len())
        }
    }
}

#[via_fn]
proof fn occurrence_starts_decreases(hay: Seq<u8>, needle: Seq<u8>, from: int) {
    if needle.len() > 0 && from >= 0 {
        lemma_next_occurrence_bounds(hay, needle, from);
    }
}

/// Character span of the occurrence of `needle` at byte offset `p`.
pub open spec fn span_at(hay: Seq<u8>, needle: Seq<u8>, p: int) -> (nat, nat) {
    (chars_between(hay, 0, p), chars_between(hay, 0, p) + chars_between(needle, 0, needle.len() as int))
}

/// Character spans of the occurrences of `needle` in `hay`.
pub open spec fn occurrence_spans(hay: Seq<u8>, needle: Seq<u8>) -> Seq<(nat, nat)> {
    occurrence_starts(hay, needle, 0).map_values(|p: int| span_at(hay, needle, p))
}

pub open spec fn span_views(v: Seq<(usize, usize)>) -> Seq<(nat, nat)> {
    v.map_values(|s: (usize, usize)| (s.0 as nat, s.1 as nat))
}

fn next_occurrence_exec(hay: &[u8], needle: &[u8], from: usize) -> (r: Option<usize>)
    ensures
        match r {
            Some(p) => p as int == next_occurrence(hay@, needle@, from as int),
            None => next_occurrence(hay@, needle@, from as int) == -1,
        },
{
    let n = hay.len();
    let m = needle.len();
    if m > n {
        return None;
    }
    let last = n - m;
    if from > last {
        return None;
    }
    let mut i: usize = from;
    while i <= last
        invariant
            from <= i <= last,
            last == n - m,
            n == hay@.len(),
            m == needle@.len(),
            next_occurrence(hay@, needle@, from as int) == next_occurrence(hay@, needle@, i as int),
        decreases last - i,
    {
        if matches_at(hay, needle, i) {
            return Some(i);
        }
        if i == last {
            assert(next_occurrence(hay@, needle@, i as int + 1) == -1);
            return None;
        }
        i = i + 1;
    }
    None
}

fn count_chars(b: &[u8], lo: usize, hi: usize) -> (r: usize)
    requires
        lo <= hi <= b@.len(),
    ensures
        r as nat == chars_between(b@, lo as int, hi as int),
{
    let mut c: usize = 0;
    let mut k: usize = lo;
    while k < hi
        invariant
            lo <= k <= hi <= b@.len(),
            c as nat == chars_between(b@, lo as int, k as int),
            c <= k - lo,
        decreases hi - k,
    {
        if b[k] < 128 || b[k] >= 192 {
            c = c + 1;
        }
        k = k + 1;
    }
    c
}

/// Character spans `(start, end)` of every occurrence of `matched` in
/// `full_text`: each search resumes after the end of the occurrence before
/// it. An empty `matched` has no occurrences.
pub fn match_positions(full_text: &str, matched: &str) -> (r: Vec<(usize, usize)>)
    ensures
        span_views(r@) == occurrence_spans(
            full_text.spec_bytes(),
            matched.spec_bytes(),
        ),
{
    let hay = full_text.as_bytes();
    let needle = matched.as_bytes();
    let ghost h = hay@;
    let ghost nd = needle@;
    let ghost spans = occurrence_spans(h, nd);
    let mut out: Vec<(usize, usize)> = Vec::new();
    if needle.len() == 0 {
        assert(span_views(out@) =~= spans);
        return out;
    }
    let needle_chars = count_chars(needle, 0, needle.len());
    let mut cursor: usize = 0;
    let mut before: usize = 0;
    let ghost done: Seq<int> = seq![];
    assert(span_views(out@) =~= done.map_values(|p: int| span_at(h, nd, p)));
    while cursor <= hay.len()
        invariant
            h == hay@,
            nd == needle@,
            nd.len() > 0,
            spans == occurrence_spans(h, nd),
            h == full_text.spec_bytes(),
            nd == matched.spec_bytes(),
            cursor <= h.len(),
            before as nat == chars_between(h, 0, cursor as int),
            needle_chars as nat == chars_between(nd, 0, nd.len() as int),
            done + occurrence_starts(h, nd, cursor as int) == occurrence_starts(h, nd, 0),
            span_views(out@) == done.map_values(|p: int| span_at(h, nd, p)),
        decreases h.len() + 1 - cursor,
    {
        let found = next_occurrence_exec(hay, needle, cursor);
        match found {
            None => {
                assert(occurrence_starts(h, nd, cursor as int) =~= seq![]);
                assert(done + seq![] =~= done);
                assert(done =~= occurrence_starts(h, nd, 0));
                assert(span_views(out@) =~= spans);
                return out;
            },
            Some(p) => {
                proof {
                    lemma_next_occurrence_bounds(h, nd, cursor as int);
                    lemma_chars_between_split(h, 0, cursor as int, p as int);
                    lemma_chars_between_split(h, 0, p as int, p + nd.len());
                    lemma_chars_between_bound(h, 0, p + nd.len());
                    assert(nd.subrange(0, nd.len() as int) =~= nd);
                    lemma_chars_between_same(h, p as int, nd, 0, nd.len() as int);
                }
                let start = before + count_chars(hay, cursor, p);
                let end = start + needle_chars;
                let ghost old_out = out@;
                out.push((start, end));
                proof {
                    assert(occurrence_starts(h, nd, cursor as int) == seq![p as int]
                        + occurrence_starts(h, nd, p + nd.len()));
                    assert(done + occurrence_starts(h, nd, cursor as int) =~= done.push(p as int)
                        + occurrence_starts(h, nd, p + nd.len()));
                    done = done.push(p as int);
                    assert(start as nat == chars_between(h, 0, p as int));
                    assert(span_views(out@) =~= span_views(old_out).push((start as nat, end as nat)));
                    assert(span_views(out@) =~= done.map_values(|q: int| span_at(h, nd, q)));
                }
                cursor = p + needle.len();
                before = end;
            },
        }
    }
    out
}

} // verus!
