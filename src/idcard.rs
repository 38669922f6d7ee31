use vstd::prelude::*;

verus! {

/// Weights applied to the first seventeen digits of a national ID number.
pub const ID_WEIGHTS: [u32; 17] = [7, 9, 10, 5, 8, 4, 2, 1, 6, 3, 7, 9, 10, 5, 8, 4, 2];

pub open spec fn is_ascii_digit(b: u8) -> bool {
    48 <= b <= 57
}

pub open spec fn digit_value(b: u8) -> nat {
    (b - 48) as nat
}

pub open spec fn weight_at(i: int) -> nat {
    if i == 0 || i == 10 { 7 }
    else if i == 1 || i == 11 { 9 }
    else if i == 2 || i == 12 { 10 }
    else if i == 3 || i == 13 { 5 }
    else if i == 4 || i == 14 { 8 }
    else if i == 5 || i == 15 { 4 }
    else if i == 6 || i == 16 { 2 }
    else if i == 7 { 1 }
    else if i == 8 { 6 }
    else { 3 }
}

/// Decimal value of the digits `s[lo..hi]`.
pub open spec fn digits_value(s: Seq<u8>, lo: int, hi: int) -> nat
    decreases hi - lo,
{
    if hi <= lo {
        0
    } else {
        digits_value(s, lo, hi - 1) * 10 + digit_value(s[hi - 1])
    }
}

/// Weighted sum of the first `n` digits.
pub open spec fn weighted_sum(s: Seq<u8>, n: int) -> nat
    decreases n,
{
    if n <= 0 {
        0
    } else {
        weighted_sum(s, n - 1) + digit_value(s[n - 1]) * weight_at(n - 1)
    }
}

pub open spec fn check_digit(s: Seq<u8>) -> nat {
    ((12 - (weighted_sum(s, 17) % 11) as int) % 11) as nat
}

/// Whether `b` is the trailing character that the checksum `c` asks for.
pub open spec fn trailer_matches(c: nat, b: u8) -> bool {
    if c == 10 {
        b == 88 || b == 120
    } else {
        b as nat == 48 + c
    }
}

pub open spec fn date_plausible(s: Seq<u8>) -> bool {
    &&& 1900 <= digits_value(s, 6, 10) <= 2025
    &&& 1 <= digits_value(s, 10, 12) <= 12
    &&& 1 <= digits_value(s, 12, 14) <= 31
}

/// An eighteen-character ID candidate: seventeen digits, a plausible birth
/// date, and a trailing character equal to the checksum.
pub open spec fn id_checksum_ok(s: Seq<u8>) -> bool {
    &&& s.len() == 18
    &&& forall|i: int| 0 <= i < 17 ==> is_ascii_digit(#[trigger] s[i])
    &&& date_plausible(s)
    &&& trailer_matches(check_digit(s), s[17])
}

fn digits_at(s: &[u8], lo: usize, hi: usize) -> (r: u32)
    requires
        lo <= hi <= s@.len(),
        hi - lo <= 4,
        forall|i: int| lo <= i < hi ==> is_ascii_digit(#[trigger] s@[i]),
    ensures
        r as nat == digits_value(s@, lo as int, hi as int),
        r < 10000,
{
    let mut v: u32 = 0;
    let mut k: usize = lo;
    while k < hi
        invariant
            lo <= k <= hi,
            hi <= s@.len(),
            hi - lo <= 4,
            forall|i: int| lo <= i < hi ==> is_ascii_digit(#[trigger] s@[i]),
            v as nat == digits_value(s@, lo as int, k as int),
            v < pow10((k - lo) as nat),
        decreases hi - k,
    {
        let d = s[k];
        assert(is_ascii_digit(s@[k as int]));
        proof {
            lemma_pow10_step((k - lo) as nat);
            lemma_pow10_le((k - lo) as nat, 3);
            assert(pow10(3) == 1000) by {
                reveal_with_fuel(pow10, 4);
            }
        }
        v = v * 10 + (d - 48) as u32;
        k = k + 1;
    }
    proof {
        lemma_pow10_le((hi - lo) as nat, 4);
    }
    assert(pow10(4) == 10000) by {
        reveal_with_fuel(pow10, 5);
    }
    v
}

pub open spec fn pow10(n: nat) -> nat
    decreases n,
{
    if n == 0 { 1 } else { 10 * pow10((n - 1) as nat) }
}

proof fn lemma_pow10_step(n: nat)
    ensures
        pow10(n + 1) == 10 * pow10(n),
{
}

proof fn lemma_pow10_le(n: nat, m: nat)
    requires
        n <= m,
    ensures
        pow10(n) <= pow10(m),
    decreases m,
{
    if n < m {
        lemma_pow10_le(n, (m - 1) as nat);
    }
}

/// Checks an eighteen-character ID candidate against its birth date and
/// weighted checksum.
pub fn id_card_valid(candidate: &[u8]) -> (r: bool)
    ensures
        r == id_checksum_ok(candidate@),
{
    if candidate.len() != 18 {
        return false;
    }
    let mut i: usize = 0;
    while i < 17
        invariant
            0 <= i <= 17,
            candidate@.len() == 18,
            forall|j: int| 0 <= j < i ==> is_ascii_digit(#[trigger] candidate@[j]),
        decreases 17 - i,
    {
        if candidate[i] < 48 || candidate[i] > 57 {
            return false;
        }
        i = i + 1;
    }
    let year = digits_at(candidate, 6, 10);
    let month = digits_at(candidate, 10, 12);
    let day = digits_at(candidate, 12, 14);
    if year < 1900 || year > 2025 || month < 1 || month > 12 || day < 1 || day > 31 {
        return false;
    }
    let mut sum: u32 = 0;
    let mut k: usize = 0;
    while k < 17
        invariant
            0 <= k <= 17,
            candidate@.len() == 18,
            forall|j: int| 0 <= j < 17 ==> is_ascii_digit(#[trigger] candidate@[j]),
            sum as nat == weighted_sum(candidate@, k as int),
            sum <= 90 * k,
        decreases 17 - k,
    {
        assert(is_ascii_digit(candidate@[k as int]));
        let w = ID_WEIGHTS[k];
        assert(w as nat == weight_at(k as int));
        sum = sum + ((candidate[k] - 48) as u32) * w;
        k = k + 1;
    }
    let check: u32 = (12 - sum % 11) % 11;
    let last = candidate[17];
    if check == 10 {
        last == 88 || last == 120
    } else {
        last as u32 == 48 + check
    }
}

proof fn lemma_weighted_sum_prefix(s: Seq<u8>, t: Seq<u8>, n: int)
    requires
        0 <= n <= s.len(),
        n <= t.len(),
        forall|i: int| 0 <= i < n ==> s[i] == t[i],
    ensures
        weighted_sum(s, n) == weighted_sum(t, n),
    decreases n,
{
    if n > 0 {
        lemma_weighted_sum_prefix(s, t, n - 1);
    }
}

proof fn lemma_digits_value_prefix(s: Seq<u8>, t: Seq<u8>, lo: int, hi: int)
    requires
        0 <= lo,
        hi <= s.len(),
        hi <= t.len(),
        forall|i: int| lo <= i < hi ==> s[i] == t[i],
    ensures
        digits_value(s, lo, hi) == digits_value(t, lo, hi),
    decreases hi - lo,
{
    if hi > lo {
        lemma_digits_value_prefix(s, t, lo, hi - 1);
    }
}

/// A candidate whose first seventeen characters are digits with a plausible
/// birth date is accepted with exactly the trailing characters that its
/// checksum asks for: the checksum digit, or `X` or `x` when the checksum is
/// ten.
pub proof fn id_trailer_decides(body: Seq<u8>, last: u8)
    requires
        body.len() == 17,
        forall|i: int| 0 <= i < 17 ==> is_ascii_digit(#[trigger] body[i]),
        date_plausible(body),
    ensures
        id_checksum_ok(body.push(last)) <==> trailer_matches(check_digit(body), last),
{
    let s = body.push(last);
    assert forall|i: int| 0 <= i < 17 implies s[i] == body[i] by {}
    lemma_weighted_sum_prefix(s, body, 17);
    lemma_digits_value_prefix(s, body, 6, 10);
    lemma_digits_value_prefix(s, body, 10, 12);
    lemma_digits_value_prefix(s, body, 12, 14);
    assert(s[17] == last);
}

} // verus!
