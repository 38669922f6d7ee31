use vstd::prelude::*;
use vstd::utf8::valid_utf8;

use crate::bytes::copy_range;
use crate::textcodec::utf8_text;

verus! {

/// Size of a tar header and of the blocks that entry contents are padded to.
pub const TAR_BLOCK: usize = 512;

pub open spec fn tar_padding_spec(size: nat) -> nat {
    ((512 - (size % 512) as int) % 512) as nat
}

/// Number of padding bytes after an entry of `size` bytes, before the next
/// header.
pub fn tar_padding(size: usize) -> (r: usize)
    ensures
        r as nat == tar_padding_spec(size as nat),
        r < 512,
{
    (512 - size % 512) % 512
}

pub open spec fn trim_nul_start(s: Seq<u8>) -> Seq<u8>
    decreases s.len(),
{
    if s.len() > 0 && s[0] == 0 {
        trim_nul_start(s.drop_first())
    } else {
        s
    }
}

pub open spec fn trim_nul_end(s: Seq<u8>) -> Seq<u8>
    decreases s.len(),
{
    if s.len() > 0 && s.last() == 0 {
        trim_nul_end(s.drop_last())
    } else {
        s
    }
}

/// A header field without its leading and trailing NUL bytes.
pub open spec fn trim_nul(s: Seq<u8>) -> Seq<u8> {
    trim_nul_end(trim_nul_start(s))
}

proof fn lemma_trim_start_skip(s: Seq<u8>, lo: int)
    requires
        0 <= lo <= s.len(),
        forall|j: int| 0 <= j < lo ==> s[j] == 0,
    ensures
        trim_nul_start(s) == trim_nul_start(s.subrange(lo, s.len() as int)),
    decreases lo,
{
    if lo > 0 {
        assert(s.drop_first().subrange(lo - 1, s.drop_first().len() as int) =~= s.subrange(
            lo,
            s.len() as int,
        ));
        lemma_trim_start_skip(s.drop_first(), lo - 1);
    } else {
        assert(s.subrange(0, s.len() as int) =~= s);
    }
}

proof fn lemma_trim_end_skip(s: Seq<u8>, hi: int)
    requires
        0 <= hi <= s.len(),
        forall|j: int| hi <= j < s.len() ==> s[j] == 0,
    ensures
        trim_nul_end(s) == trim_nul_end(s.subrange(0, hi)),
    decreases s.len() - hi,
{
    if hi < s.len() {
        assert(s.drop_last().subrange(0, hi) =~= s.subrange(0, hi));
        lemma_trim_end_skip(s.drop_last(), hi);
    } else {
        assert(s.subrange(0, s.len() as int) =~= s);
    }
}

/// The bounds of `trim_nul(s)` within `s`.
fn trim_nul_bounds(s: &[u8]) -> (r: (usize, usize))
    ensures
        r.0 <= r.1 <= s@.len(),
        s@.subrange(r.0 as int, r.1 as int) == trim_nul(s@),
{
    let n = s.len();
    let mut lo: usize = 0;
    while lo < n && s[lo] == 0
        invariant
            0 <= lo <= n,
            n == s@.len(),
            forall|j: int| 0 <= j < lo ==> s@[j] == 0,
        decreases n - lo,
    {
        lo = lo + 1;
    }
    proof {
        lemma_trim_start_skip(s@, lo as int);
    }
    let ghost t = s@.subrange(lo as int, n as int);
    assert(trim_nul_start(t) == t);
    let mut hi: usize = n;
    while hi > lo && s[hi - 1] == 0
        invariant
            lo <= hi <= n,
            n == s@.len(),
            t == s@.subrange(lo as int, n as int),
            forall|j: int| hi - lo <= j < t.len() ==> t[j] == 0,
        decreases hi,
    {
        hi = hi - 1;
    }
    proof {
        lemma_trim_end_skip(t, (hi - lo) as int);
        assert(t.subrange(0, (hi - lo) as int) =~= s@.subrange(lo as int, hi as int));
    }
    (lo, hi)
}

pub open spec fn is_octal_digit(b: u8) -> bool {
    48 <= b <= 55
}

pub open spec fn octal_value(s: Seq<u8>) -> nat
    decreases s.len(),
{
    if s.len() == 0 {
        0
    } else {
        octal_value(s.drop_last()) * 8 + (s.last() - 48) as nat
    }
}

/// The digits of a size field once one leading `+` is dropped.
pub open spec fn octal_digits(s: Seq<u8>) -> Seq<u8> {
    if s.len() > 1 && s[0] == 43 {
        s.drop_first()
    } else {
        s
    }
}

/// The entry size that a header's size field gives: its NUL-trimmed text read
/// in base 8, and 0 when that text is no octal number that fits a `usize`.
pub open spec fn size_field_value(field: Seq<u8>) -> nat {
    let d = octal_digits(trim_nul(field));
    if d.len() > 0 && (forall|i: int| 0 <= i < d.len() ==> is_octal_digit(#[trigger] d[i]))
        && octal_value(d) <= usize::MAX {
        octal_value(d)
    } else {
        0
    }
}

proof fn lemma_octal_prefix(d: Seq<u8>, k: int)
    requires
        0 <= k < d.len(),
        is_octal_digit(d[k]),
    ensures
        octal_value(d.subrange(0, k + 1)) == octal_value(d.subrange(0, k)) * 8 + (d[k] - 48) as nat,
{
    assert(d.subrange(0, k + 1).drop_last() =~= d.subrange(0, k));
}

proof fn lemma_octal_monotone(d: Seq<u8>, k: int, m: int)
    requires
        0 <= k <= m <= d.len(),
        forall|i: int| 0 <= i < d.len() ==> is_octal_digit(#[trigger] d[i]),
    ensures
        octal_value(d.subrange(0, k)) <= octal_value(d.subrange(0, m)),
    decreases m - k,
{
    if k < m {
        lemma_octal_monotone(d, k, m - 1);
        lemma_octal_prefix(d, m - 1);
    }
}

/// Parses a header size field.
pub fn parse_size_field(field: &[u8]) -> (r: usize)
    ensures
        r as nat == size_field_value(field@),
{
    let (lo0, hi) = trim_nul_bounds(field);
    let ghost t = field@.subrange(lo0 as int, hi as int);
    let mut lo = lo0;
    if hi - lo > 1 && field[lo] == 43 {
        lo = lo + 1;
        assert(field@.subrange(lo as int, hi as int) =~= t.drop_first());
    }
    let ghost d = field@.subrange(lo as int, hi as int);
    assert(d == octal_digits(t));
    if lo == hi {
        return 0;
    }
    let mut v: usize = 0;
    let mut k: usize = lo;
    while k < hi
        invariant
            lo <= k <= hi <= field@.len(),
            d == field@.subrange(lo as int, hi as int),
            t == trim_nul(field@),
            d == octal_digits(t),
            d.len() > 0,
            forall|i: int| 0 <= i < k - lo ==> is_octal_digit(#[trigger] d[i]),
            v as nat == octal_value(d.subrange(0, k - lo)),
        decreases hi - k,
    {
        let c = field[k];
        assert(d[k - lo] == c);
        if c < 48 || c > 55 {
            assert(!is_octal_digit(d[k - lo]));
            assert(trim_nul(field@) == t);
            assert(size_field_value(field@) == 0);
            return 0;
        }
        proof {
            lemma_octal_prefix(d, k - lo);
        }
        if v > usize::MAX / 8 {
            proof {
                let ghost w = octal_value(d.subrange(0, k - lo + 1));
                assert(w > usize::MAX) by (nonlinear_arith)
                    requires
                        w == v * 8 + (c - 48) as nat,
                        v > usize::MAX / 8,
                        c >= 48,
                {
                }
                if forall|i: int| 0 <= i < d.len() ==> is_octal_digit(#[trigger] d[i]) {
                    lemma_octal_monotone(d, k - lo + 1, d.len() as int);
                    assert(d.subrange(0, d.len() as int) =~= d);
                }
                assert(trim_nul(field@) == t);
                assert(size_field_value(field@) == 0);
            }
            return 0;
        }
        assert(v * 8 + (c - 48) as nat <= usize::MAX) by (nonlinear_arith)
            requires
                v <= usize::MAX / 8,
                c <= 55,
                c >= 48,
        {
        }
        v = v * 8 + (c - 48) as usize;
        k = k + 1;
    }
    assert(d.subrange(0, d.len() as int) =~= d);
    v
}

/// One entry of a tar archive: its NUL-trimmed name and its content, or
/// `None` when the archive ends before the content does.
pub struct TarEntry {
    pub name: Vec<u8>,
    pub data: Option<Vec<u8>>,
}

pub type TarEntryView = (Seq<u8>, Option<Seq<u8>>);

pub open spec fn tar_entry_view(e: TarEntry) -> TarEntryView {
    (
        e.name@,
        match e.data {
            Some(d) => Some(d@),
            None => None,
        },
    )
}

pub open spec fn tar_entry_views(v: Seq<TarEntry>) -> Seq<TarEntryView> {
    v.map_values(|e: TarEntry| tar_entry_view(e))
}

/// The entries of a tar archive, read header by header. Reading stops at the
/// first header that cannot be read whole, whose name is empty, or whose name
/// or size field is not UTF-8 text; an entry whose content is cut short is
/// the last one, listed without content.
pub open spec fn tar_entries_spec(b: Seq<u8>) -> Seq<TarEntryView>
    decreases b.len(),
{
    if b.len() < 512 {
        seq![]
    } else {
        let name_field = b.subrange(0, 100);
        let size_field = b.subrange(124, 136);
        let name = trim_nul(name_field);
        if !valid_utf8(name_field) || name.len() == 0 || !valid_utf8(size_field) {
            seq![]
        } else {
            let size = size_field_value(size_field);
            if size > b.len() - 512 {
                seq![(name, None)]
            } else {
                let next = 512 + size + tar_padding_spec(size);
                seq![(name, Some(b.subrange(512, 512 + size as int)))] + if next <= b.len() {
                    tar_entries_spec(b.subrange(next as int, b.len() as int))
                } else {
                    seq![]
                }
            }
        }
    }
}

/// Splits a tar archive into its entries.
pub fn tar_entries(b: &[u8]) -> (r: Vec<TarEntry>)
    ensures
        tar_entry_views(r@) == tar_entries_spec(b@),
{
    let n = b.len();
    let mut pos: usize = 0;
    let mut out: Vec<TarEntry> = Vec::new();
    assert(b@.subrange(0, n as int) =~= b@);
    while pos < n
        invariant
            pos <= n,
            n == b@.len(),
            tar_entry_views(out@) + tar_entries_spec(b@.subrange(pos as int, n as int))
                == tar_entries_spec(b@),
        decreases n - pos,
    {
        let ghost rest = b@.subrange(pos as int, n as int);
        if n - pos < TAR_BLOCK {
            assert(tar_entries_spec(rest) =~= seq![]);
            assert(tar_entry_views(out@) + seq![] =~= tar_entry_views(out@));
            return out;
        }
        let name_field = &b[pos..pos + 100];
        let size_field = &b[pos + 124..pos + 136];
        assert(rest.subrange(0, 100) =~= name_field@);
        assert(rest.subrange(124, 136) =~= size_field@);
        let name_ok = utf8_text(name_field).is_some();
        let size_ok = utf8_text(size_field).is_some();
        let (lo, hi) = trim_nul_bounds(name_field);
        if !name_ok || lo == hi || !size_ok {
            assert(tar_entries_spec(rest) =~= seq![]);
            assert(tar_entry_views(out@) + seq![] =~= tar_entry_views(out@));
            return out;
        }
        let size = parse_size_field(size_field);
        let name = copy_range(name_field, lo, hi);
        let ghost before = tar_entry_views(out@);
        if size > n - pos - TAR_BLOCK {
            out.push(TarEntry { name, data: None });
            assert(tar_entry_views(out@) =~= before.push((name@, None)));
            assert(tar_entries_spec(rest) =~= seq![(name@, None::<Seq<u8>>)]);
            assert(before + tar_entries_spec(rest) =~= tar_entry_views(out@));
            return out;
        }
        let start = pos + TAR_BLOCK;
        let data = copy_range(b, start, start + size);
        assert(rest.subrange(512, 512 + size) =~= data@);
        let ghost dv = data@;
        out.push(TarEntry { name, data: Some(data) });
        assert(tar_entry_views(out@) =~= before.push((name@, Some(dv))));
        let pad = tar_padding(size);
        if pad > n - start - size {
            assert(tar_entries_spec(rest) =~= seq![(name@, Some(dv))]);
            assert(tar_entry_views(out@) + seq![] =~= tar_entry_views(out@));
            assert(before + tar_entries_spec(rest) =~= tar_entry_views(out@));
            return out;
        }
        let next = start + size + pad;
        assert(rest.subrange((next - pos) as int, rest.len() as int) =~= b@.subrange(
            next as int,
            n as int,
        ));
        assert(tar_entries_spec(rest) == seq![(name@, Some(dv))] + tar_entries_spec(
            b@.subrange(next as int, n as int),
        ));
        assert(before + tar_entries_spec(rest) =~= tar_entry_views(out@) + tar_entries_spec(
            b@.subrange(next as int, n as int),
        ));
        pos = next;
    }
    assert(tar_entries_spec(b@.subrange(pos as int, n as int)) =~= seq![]);
    assert(tar_entry_views(out@) + seq![] =~= tar_entry_views(out@));
    out
}

/// After an entry of `n` content bytes the next header starts after exactly
/// `tar_padding_spec(n)` padding bytes: an archive made of a readable header,
/// its content, that padding and a rest reads as that entry followed by the
/// entries of the rest.
pub proof fn tar_next_header_after_padding(
    header: Seq<u8>,
    data: Seq<u8>,
    padding: Seq<u8>,
    rest: Seq<u8>,
)
    requires
        header.len() == 512,
        valid_utf8(header.subrange(0, 100)),
        trim_nul(header.subrange(0, 100)).len() > 0,
        valid_utf8(header.subrange(124, 136)),
        data.len() == size_field_value(header.subrange(124, 136)),
        padding.len() == tar_padding_spec(data.len()),
    ensures
        tar_entries_spec(header + data + padding + rest) == seq![
            (trim_nul(header.subrange(0, 100)), Some(data)),
        ] + tar_entries_spec(rest),
{
    let b = header + data + padding + rest;
    let size = data.len();
    let next = 512 + size + padding.len();
    assert(b.subrange(0, 100) =~= header.subrange(0, 100));
    assert(b.subrange(124, 136) =~= header.subrange(124, 136));
    assert(b.subrange(512, 512 + size as int) =~= data);
    assert(b.subrange(next as int, b.len() as int) =~= rest);
}

} // verus!
