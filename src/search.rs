use vstd::prelude::*;
use vstd::string::StringSliceAdditionalSpecFns;
use vstd::utf8::encode_utf8;

use crate::bytes::{ends_with, seq_ends_with};
use crate::engine::{
    findings_in, findings_over, finding_views, Finding, FindingView,
    Validator, QUOTED_SECRET_PATTERN,
};
use crate::lines::{line_views, lines_of, split_lines};
use crate::textcodec::{gbk_decode, gbk_decoding, utf8_lossy, utf8_lossy_text};

verus! {

/// One rule of a scan: a PCRE2 pattern, the validator run after it matches,
/// and whether the rule takes part.
#[derive(Clone, Debug)]
pub struct PatternRule {
    pub pattern: String,
    pub validator: Validator,
    pub enabled: bool,
}

/// One finding as reported: where it is, the matched text, and the matched
/// line with its neighbours.
#[derive(Clone, Debug, PartialEq, Eq, Hash, PartialOrd, Ord)]
pub struct MatchResult {
    pub matched_text: String,
    pub file_name: String,
    pub line_number: String,
    pub origin_text: String,
}

/// File name, line number, matched text and context, as text.
pub type MatchView = (Seq<char>, Seq<char>, Seq<char>, Seq<char>);

impl View for MatchResult {
    type V = MatchView;

    open spec fn view(&self) -> MatchView {
        (self.file_name@, self.line_number@, self.matched_text@, self.origin_text@)
    }
}

pub open spec fn match_views(v: Seq<MatchResult>) -> Seq<MatchView> {
    v.map_values(|m: MatchResult| m@)
}

/// The suffix that marks compiled classes, and so text recovered from them
/// by decompiling.
pub const CLASS_SUFFIX: &'static str = ".class";

pub open spec fn is_compiled_name(name: Seq<u8>) -> bool {
    seq_ends_with(name, CLASS_SUFFIX.spec_bytes())
}

/// The pattern a rule runs with: on decompiled code the quoted-secret rule
/// switches to its stricter variant.
pub open spec fn effective_pattern(rule: PatternRule, compiled: bool) -> Seq<char> {
    if compiled && rule.validator == Validator::QuotedSecretOverride {
        QUOTED_SECRET_PATTERN@
    } else {
        rule.pattern@
    }
}

/// Findings of one pattern over `text`; when the engine fails, the
/// evaluation is run once more over the GBK reading of the same bytes, and a
/// second failure gives no findings.
pub open spec fn rule_findings(pattern: Seq<char>, v: Validator, text: Seq<u8>) -> Seq<FindingView> {
    match findings_in(pattern, v, text) {
        Ok(f) => f,
        Err(_) => match findings_in(pattern, v, encode_utf8(gbk_decoding(text).0)) {
            Ok(f) => f,
            Err(_) => seq![],
        },
    }
}

/// Decimal digits of `n`, most significant first.
pub open spec fn decimal_digits(n: nat) -> Seq<u8>
    decreases n,
{
    if n < 10 {
        seq![(48 + n) as u8]
    } else {
        decimal_digits(n / 10).push((48 + n % 10) as u8)
    }
}

pub open spec fn match_view(file_name: Seq<char>, f: FindingView) -> MatchView {
    (
        file_name,
        utf8_lossy_text(decimal_digits(f.0)),
        utf8_lossy_text(f.1),
        utf8_lossy_text(f.2),
    )
}

/// What one (file, rule) unit of work reports.
pub open spec fn unit_results(rule: PatternRule, text: Seq<u8>, file_name: Seq<char>) -> Seq<
    MatchView,
> {
    if !rule.enabled {
        seq![]
    } else {
        rule_findings(
            effective_pattern(rule, is_compiled_name(encode_utf8(file_name))),
            rule.validator,
            text,
        ).map_values(|f: FindingView| match_view(file_name, f))
    }
}

/// What the first `n` rules report for one file, in rule order.
pub open spec fn file_results_upto(
    rules: Seq<PatternRule>,
    text: Seq<u8>,
    file_name: Seq<char>,
    n: int,
) -> Seq<MatchView>
    decreases n,
{
    if n <= 0 {
        seq![]
    } else {
        file_results_upto(rules, text, file_name, n - 1) + unit_results(rules[n - 1], text, file_name)
    }
}

pub open spec fn file_results(rules: Seq<PatternRule>, text: Seq<u8>, file_name: Seq<char>) -> Seq<
    MatchView,
> {
    file_results_upto(rules, text, file_name, rules.len() as int)
}

fn decimal_bytes(n: usize) -> (r: Vec<u8>)
    ensures
        r@ == decimal_digits(n as nat),
    decreases n,
{
    if n < 10 {
        let mut r: Vec<u8> = Vec::new();
        r.push(48 + n as u8);
        assert(r@ =~= decimal_digits(n as nat));
        r
    } else {
        let mut r = decimal_bytes(n / 10);
        r.push(48 + (n % 10) as u8);
        r
    }
}

fn render(file_name: &str, f: &Finding) -> (r: MatchResult)
    ensures
        r@ == match_view(file_name@, (f.line_number as nat, f.matched@, f.context@)),
{
    let digits = decimal_bytes(f.line_number);
    MatchResult {
        matched_text: utf8_lossy(f.matched.as_slice()),
        file_name: file_name.to_owned(),
        line_number: utf8_lossy(digits.as_slice()),
        origin_text: utf8_lossy(f.context.as_slice()),
    }
}

/// Appends the rendering of `found` to `res`.
fn append_rendered(res: &mut Vec<MatchResult>, file_name: &str, found: &Vec<Finding>)
    ensures
        match_views(final(res)@) == match_views(old(res)@) + finding_views(found@).map_values(
            |f: FindingView| match_view(file_name@, f),
        ),
{
    let ghost fv = finding_views(found@).map_values(|f: FindingView| match_view(file_name@, f));
    let mut k: usize = 0;
    while k < found.len()
        invariant
            k <= found@.len(),
            fv == finding_views(found@).map_values(|f: FindingView| match_view(file_name@, f)),
            match_views(res@) == match_views(old(res)@) + fv.subrange(0, k as int),
        decreases found@.len() - k,
    {
        let m = render(file_name, &found[k]);
        let ghost before = match_views(res@);
        res.push(m);
        assert(match_views(res@) =~= before.push(m@));
        assert(fv.subrange(0, k + 1) =~= fv.subrange(0, k as int).push(fv[k as int]));
        k = k + 1;
    }
    assert(fv.subrange(0, found@.len() as int) =~= fv);
}

/// Evaluates one rule over a file's text and appends what it reports.
/// `lines` holds the text already split.
pub fn evaluate_rule(
    res: &mut Vec<MatchResult>,
    rule: &PatternRule,
    text: &[u8],
    lines: &Vec<Vec<u8>>,
    file_name: &str,
)
    requires
        line_views(lines@) == lines_of(text@),
    ensures
        match_views(final(res)@) == match_views(old(res)@) + unit_results(*rule, text@, file_name@),
{
    if !rule.enabled {
        assert(match_views(res@) + seq![] =~= match_views(res@));
        return;
    }
    let name = file_name.as_bytes();
    let compiled = ends_with(name, CLASS_SUFFIX.as_bytes());
    let pattern: &str = if compiled && rule.validator == Validator::QuotedSecretOverride {
        QUOTED_SECRET_PATTERN
    } else {
        rule.pattern.as_str()
    };
    assert(pattern@ == effective_pattern(*rule, compiled));
    let first = findings_over(pattern, rule.validator, lines);
    match first {
        Ok(found) => {
            append_rendered(res, file_name, &found);
        },
        Err(()) => {
            let (gbk_text, _) = gbk_decode(text);
            let retry_lines = split_lines(gbk_text.as_str().as_bytes());
            let second = findings_over(pattern, rule.validator, &retry_lines);
            match second {
                Ok(found) => {
                    append_rendered(res, file_name, &found);
                },
                Err(()) => {
                    assert(match_views(res@) + seq![] =~= match_views(res@));
                },
            }
        },
    }
}

/// Scans decoded file contents with every enabled rule, in rule order, and
/// appends the findings to `res`. Rules that fail to compile or to run
/// contribute nothing.
pub fn search_in_file_contents_sync(
    res: &mut Vec<MatchResult>,
    regex_list: &Vec<PatternRule>,
    contents: &str,
    file_name: &str,
)
    ensures
        match_views(final(res)@) == match_views(old(res)@) + file_results(
            regex_list@,
            contents.spec_bytes(),
            file_name@,
        ),
{
    let text = contents.as_bytes();
    let lines = split_lines(text);
    let mut k: usize = 0;
    while k < regex_list.len()
        invariant
            k <= regex_list@.len(),
            text@ == contents.spec_bytes(),
            line_views(lines@) == lines_of(text@),
            match_views(res@) == match_views(old(res)@) + file_results_upto(
                regex_list@,
                text@,
                file_name@,
                k as int,
            ),
        decreases regex_list@.len() - k,
    {
        evaluate_rule(res, &regex_list[k], text, &lines, file_name);
        k = k + 1;
    }
}

} // verus!
