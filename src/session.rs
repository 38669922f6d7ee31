use vstd::prelude::*;
use vstd::seq_lib::lemma_multiset_commutative;

use vstd::string::StringSliceAdditionalSpecFns;
use vstd::utf8::encode_utf8;

use crate::search::{
    evaluate_rule, file_results, file_results_upto, match_views, search_in_file_contents_sync,
    unit_results, MatchResult, MatchView, PatternRule,
};
use crate::lines::split_lines;

verus! {

/// Bounds how many units of work are in flight at once. Each unit takes a
/// permit before it starts and gives it back when it ends.
pub struct AdmissionLimiter {
    capacity: usize,
    in_flight: usize,
}

impl View for AdmissionLimiter {
    /// Capacity and the number of permits held.
    type V = (nat, nat);

    closed spec fn view(&self) -> (nat, nat) {
        (self.capacity as nat, self.in_flight as nat)
    }
}

impl AdmissionLimiter {
    /// No more permits are held than there are.
    pub open spec fn wf(&self) -> bool {
        self@.1 <= self@.0
    }

    pub fn new(capacity: usize) -> (r: AdmissionLimiter)
        ensures
            r@ == (capacity as nat, 0nat),
            r.wf(),
    {
        AdmissionLimiter { capacity, in_flight: 0 }
    }

    /// Takes a permit when one is free.
    pub fn try_acquire(&mut self) -> (r: bool)
        requires
            old(self).wf(),
        ensures
            r == (old(self)@.1 < old(self)@.0),
            final(self)@ == if r {
                (old(self)@.0, old(self)@.1 + 1)
            } else {
                old(self)@
            },
            final(self).wf(),
    {
        if self.in_flight < self.capacity {
            self.in_flight = self.in_flight + 1;
            true
        } else {
            false
        }
    }

    /// Gives back a permit.
    pub fn release(&mut self)
        requires
            old(self).wf(),
            old(self)@.1 > 0,
        ensures
            final(self)@ == (old(self)@.0, (old(self)@.1 - 1) as nat),
            final(self).wf(),
    {
        self.in_flight = self.in_flight - 1;
    }

    pub fn in_flight(&self) -> (r: usize)
        ensures
            r as nat == self@.1,
    {
        self.in_flight
    }

    pub fn capacity(&self) -> (r: usize)
        ensures
            r as nat == self@.0,
    {
        self.capacity
    }
}

/// The findings of one scan. Each unit of work appends its findings as one
/// batch; nothing is changed in place.
pub struct ScanSession {
    results: Vec<MatchResult>,
}

impl View for ScanSession {
    type V = Seq<MatchView>;

    closed spec fn view(&self) -> Seq<MatchView> {
        match_views(self.results@)
    }
}

impl ScanSession {
    pub fn new() -> (r: ScanSession)
        ensures
            r@ == Seq::<MatchView>::empty(),
    {
        let r = ScanSession { results: Vec::new() };
        assert(r@ =~= Seq::<MatchView>::empty());
        r
    }

    /// Appends one unit's findings after those already held.
    pub fn append(&mut self, batch: Vec<MatchResult>)
        ensures
            final(self)@ == old(self)@ + match_views(batch@),
    {
        let mut batch = batch;
        let ghost a = self.results@;
        let ghost b = batch@;
        self.results.append(&mut batch);
        assert(match_views(self.results@) =~= match_views(a) + match_views(b));
    }

    pub fn len(&self) -> (r: usize)
        ensures
            r == self@.len(),
    {
        self.results.len()
    }

    pub fn into_results(self) -> (r: Vec<MatchResult>)
        ensures
            match_views(r@) == self@,
    {
        self.results
    }
}

/// The findings of one (file, rule) unit of work.
pub fn evaluate_unit(rule: &PatternRule, contents: &str, file_name: &str) -> (r: Vec<MatchResult>)
    ensures
        match_views(r@) == unit_results(*rule, contents.spec_bytes(), file_name@),
{
    let text = contents.as_bytes();
    let lines = split_lines(text);
    let mut r: Vec<MatchResult> = Vec::new();
    evaluate_rule(&mut r, rule, text, &lines, file_name);
    assert(match_views(r@) =~= seq![] + unit_results(*rule, text@, file_name@));
    r
}

/// A file ready for matching: its path from the scan root and its text.
pub struct TextFile {
    pub name: String,
    pub contents: String,
}

pub open spec fn text_file_views(v: Seq<TextFile>) -> Seq<(Seq<char>, Seq<u8>)> {
    v.map_values(|f: TextFile| (f.name@, encode_utf8(f.contents@)))
}

/// Findings of a synchronous scan: files in order, each with every rule in
/// rule order.
pub open spec fn sync_results(files: Seq<(Seq<char>, Seq<u8>)>, rules: Seq<PatternRule>) -> Seq<
    MatchView,
>
    decreases files.len(),
{
    if files.len() == 0 {
        seq![]
    } else {
        sync_results(files.drop_last(), rules) + file_results(
            rules,
            files.last().1,
            files.last().0,
        )
    }
}

/// Scans files one after another, rules in order for each file.
pub fn scan_sync(files: &Vec<TextFile>, rules: &Vec<PatternRule>) -> (r: Vec<MatchResult>)
    ensures
        match_views(r@) == sync_results(text_file_views(files@), rules@),
{
    let ghost fv = text_file_views(files@);
    let mut r: Vec<MatchResult> = Vec::new();
    let mut k: usize = 0;
    assert(match_views(r@) =~= seq![]);
    while k < files.len()
        invariant
            k <= files@.len(),
            fv == text_file_views(files@),
            match_views(r@) == sync_results(fv.subrange(0, k as int), rules@),
        decreases files@.len() - k,
    {
        let f = &files[k];
        search_in_file_contents_sync(&mut r, rules, f.contents.as_str(), f.name.as_str());
        assert(fv.subrange(0, k + 1).drop_last() =~= fv.subrange(0, k as int));
        k = k + 1;
    }
    assert(fv.subrange(0, files@.len() as int) =~= fv);
    r
}

/// Concatenation of batches, in order.
pub open spec fn flatten<T>(b: Seq<Seq<T>>) -> Seq<T>
    decreases b.len(),
{
    if b.len() == 0 {
        seq![]
    } else {
        flatten(b.drop_last()) + b.last()
    }
}

/// The units of one file, one per rule, for the first `n` rules.
pub open spec fn file_units(
    rules: Seq<PatternRule>,
    name: Seq<char>,
    text: Seq<u8>,
    n: int,
) -> Seq<Seq<MatchView>>
    decreases n,
{
    if n <= 0 {
        seq![]
    } else {
        file_units(rules, name, text, n - 1).push(unit_results(rules[n - 1], text, name))
    }
}

/// The (file, rule) units of a workload, file by file and rule by rule.
pub open spec fn workload_units(files: Seq<(Seq<char>, Seq<u8>)>, rules: Seq<PatternRule>) -> Seq<
    Seq<MatchView>,
>
    decreases files.len(),
{
    if files.len() == 0 {
        seq![]
    } else {
        workload_units(files.drop_last(), rules) + file_units(
            rules,
            files.last().0,
            files.last().1,
            rules.len() as int,
        )
    }
}

/// Unit `u` is among the first `n` to finish.
pub open spec fn finishes(order: Seq<int>, n: int, u: int) -> bool {
    exists|i: int| 0 <= i < n && #[trigger] order[i] == u
}

/// `order[i]` is the unit that finished `i`-th: every unit finishes, once.
pub open spec fn is_completion_order(order: Seq<int>, n: int) -> bool {
    &&& order.len() == n
    &&& forall|i: int| 0 <= i < n ==> 0 <= #[trigger] order[i] < n
    &&& forall|i: int, j: int| 0 <= i < n && 0 <= j < n && i != j ==> order[i] != order[j]
    &&& forall|u: int| 0 <= u < n ==> #[trigger] finishes(order, n, u)
}

proof fn lemma_flatten_concat<T>(a: Seq<Seq<T>>, b: Seq<Seq<T>>)
    ensures
        flatten(a + b) == flatten(a) + flatten(b),
    decreases b.len(),
{
    if b.len() == 0 {
        assert(a + b =~= a);
        assert(flatten(a) + seq![] =~= flatten(a));
    } else {
        lemma_flatten_concat(a, b.drop_last());
        assert((a + b).drop_last() =~= a + b.drop_last());
        assert(flatten(a) + flatten(b.drop_last()) + b.last() =~= flatten(a) + flatten(b));
    }
}

proof fn lemma_flatten_remove<T>(s: Seq<Seq<T>>, p: int)
    requires
        0 <= p < s.len(),
    ensures
        flatten(s).to_multiset() == flatten(s.remove(p)).to_multiset().add(s[p].to_multiset()),
{
    let a = s.subrange(0, p);
    let b = s.subrange(p + 1, s.len() as int);
    assert(s =~= a.push(s[p]) + b);
    assert(s.remove(p) =~= a + b);
    lemma_flatten_concat(a.push(s[p]), b);
    lemma_flatten_concat(a, b);
    assert(a.push(s[p]).drop_last() =~= a);
    lemma_multiset_commutative(flatten(a) + s[p], flatten(b));
    lemma_multiset_commutative(flatten(a), s[p]);
    lemma_multiset_commutative(flatten(a), flatten(b));
    assert(flatten(s).to_multiset() =~= flatten(s.remove(p)).to_multiset().add(s[p].to_multiset()));
}

/// Units finishing in any order, each once, give the findings of the units
/// in plan order, counted with multiplicity.
pub proof fn lemma_completion_order_irrelevant<T>(units: Seq<Seq<T>>, order: Seq<int>)
    requires
        is_completion_order(order, units.len() as int),
    ensures
        flatten(order.map_values(|k: int| units[k])).to_multiset() == flatten(units).to_multiset(),
    decreases units.len(),
{
    let n = units.len() as int;
    let done = order.map_values(|k: int| units[k]);
    if n == 0 {
        assert(done =~= seq![]);
        assert(units =~= seq![]);
    } else {
        assert(finishes(order, n, n - 1));
        let p = choose|i: int| 0 <= i < n && #[trigger] order[i] == n - 1;
        let rest = order.remove(p);
        let smaller = units.drop_last();
        assert forall|i: int| 0 <= i < n - 1 implies 0 <= #[trigger] rest[i] < n - 1 by {
            let j = if i < p { i } else { i + 1 };
            assert(rest[i] == order[j]);
            assert(order[j] != order[p]);
        }
        assert forall|i: int, j: int| 0 <= i < n - 1 && 0 <= j < n - 1 && i != j implies rest[i]
            != rest[j] by {
            let i2 = if i < p { i } else { i + 1 };
            let j2 = if j < p { j } else { j + 1 };
            assert(rest[i] == order[i2]);
            assert(rest[j] == order[j2]);
        }
        assert forall|u: int| 0 <= u < n - 1 implies #[trigger] finishes(rest, n - 1, u) by {
            assert(finishes(order, n, u));
            let k = choose|k: int| 0 <= k < n && #[trigger] order[k] == u;
            assert(k != p);
            let i = if k < p { k } else { k - 1 };
            assert(rest[i] == order[k]);
        }
        lemma_completion_order_irrelevant(smaller, rest);
        assert(done.remove(p) =~= rest.map_values(|k: int| smaller[k]));
        lemma_flatten_remove(done, p);
        assert(done[p] == units.last());
        lemma_multiset_commutative(flatten(smaller), units.last());
    }
}

proof fn lemma_file_units_flatten(rules: Seq<PatternRule>, name: Seq<char>, text: Seq<u8>, n: int)
    requires
        0 <= n,
    ensures
        flatten(file_units(rules, name, text, n)) == file_results_upto(rules, text, name, n),
    decreases n,
{
    if n > 0 {
        lemma_file_units_flatten(rules, name, text, n - 1);
        assert(file_units(rules, name, text, n).drop_last() =~= file_units(rules, name, text, n - 1));
    } else {
        assert(file_units(rules, name, text, n) =~= seq![]);
    }
}

/// Running the units of a workload in plan order gives the findings of the
/// synchronous scan.
pub proof fn lemma_units_in_plan_order(files: Seq<(Seq<char>, Seq<u8>)>, rules: Seq<PatternRule>)
    ensures
        flatten(workload_units(files, rules)) == sync_results(files, rules),
    decreases files.len(),
{
    if files.len() > 0 {
        lemma_units_in_plan_order(files.drop_last(), rules);
        lemma_flatten_concat(
            workload_units(files.drop_last(), rules),
            file_units(rules, files.last().0, files.last().1, rules.len() as int),
        );
        lemma_file_units_flatten(rules, files.last().0, files.last().1, rules.len() as int);
    } else {
        assert(workload_units(files, rules) =~= seq![]);
    }
}

/// A concurrent scan reports what the synchronous scan reports: whatever
/// order the (file, rule) units finish in, each once, the findings appended
/// batch by batch are, counted with multiplicity, those of the synchronous
/// scan.
pub proof fn concurrent_scan_matches_sync(
    files: Seq<(Seq<char>, Seq<u8>)>,
    rules: Seq<PatternRule>,
    order: Seq<int>,
)
    requires
        is_completion_order(order, workload_units(files, rules).len() as int),
    ensures
        flatten(order.map_values(|k: int| workload_units(files, rules)[k])).to_multiset()
            == sync_results(files, rules).to_multiset(),
{
    lemma_completion_order_irrelevant(workload_units(files, rules), order);
    lemma_units_in_plan_order(files, rules);
}

} // verus!
