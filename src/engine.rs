use vstd::prelude::*;

use crate::bytes::{copy_range, push_all};
use crate::idcard::{id_card_valid, id_checksum_ok};
use crate::lines::{line_views, lines_of};

verus! {

/// What PCRE2 finds for `pattern` in `subject`: the byte span of the
/// leftmost-first match, no match, or a failure to compile or to match.
pub uninterp spec fn regex_first_match(pattern: Seq<char>, subject: Seq<u8>) -> Result<
    Option<(usize, usize)>,
    (),
>;

/// Relies on `pcre2::bytes::Regex::new` and `Regex::find`: the pattern is
/// compiled once with the default options and searched for in each line on
/// its own; a match is a span of byte offsets into its line, and a pattern
/// that does not compile fails on every line.
#[verifier::external_body]
fn regex_find_each(pattern: &str, lines: &Vec<Vec<u8>>) -> (r: Vec<Result<Option<(usize, usize)>, ()>>)
    ensures
        r@.len() == lines@.len(),
        forall|i: int| #![trigger r@[i]] 0 <= i < lines@.len() ==> r@[i] == regex_first_match(pattern@, lines@[i]@),
{
    match pcre2::bytes::Regex::new(pattern) {
        Ok(re) => lines.iter().map(|l| re.find(l).map(|m| m.map(|m| (m.start(), m.end()))).map_err(|_| ())).collect(),
        Err(_) => lines.iter().map(|_| Err(())).collect(),
    }
}

/// The stricter e-mail pattern: the loose one without the `*` wildcard.
pub const STRICT_EMAIL_PATTERN: &'static str = r"[a-zA-Z0-9]+\@[a-zA-Z0-9]+\.[a-zA-Z]+";

/// The secret pattern used on decompiled code: the value must be quoted on
/// both sides.
pub const QUOTED_SECRET_PATTERN: &'static str = r#"((P|p)((A|a)(S|s)(S|s))?(W|w)((O|o)(R|r))?(D|d)|(K|k)(E|e)(Y|y)|(E|e)(N|n)(C|c)(R|r)(Y|y)(P|p)(T|t)|(S|s)(E|e)(C|c)(R|r)(E|e)(T|t)|(A|a)(U|u)(T|t)(H|h)((O|o)(R|r)(I|i)(Z|z)(A|a)(T|t)(I|i)(O|o)(N|n))?)\s?[\"\']?(=|:)+\s?[\"\']+[a-zA-Z0-9\@\.]+[\"\']+"#;

/// Extra acceptance logic applied after a rule's pattern matches.
#[derive(Clone, Copy, Debug, PartialEq, Eq, Structural)]
pub enum Validator {
    Plain,
    EmailStrict,
    IdChecksum,
    QuotedSecretOverride,
}

/// What a validator makes of a match: `found` is what the rule's pattern
/// found on `line`, `strict` what the strict e-mail pattern found there
/// (read only by the e-mail validator). A span that does not lie within the
/// line counts as an engine failure.
pub open spec fn validated(
    v: Validator,
    line: Seq<u8>,
    found: Result<Option<(usize, usize)>, ()>,
    strict: Result<Option<(usize, usize)>, ()>,
) -> Result<Option<(usize, usize)>, ()> {
    match found {
        Err(_) => Err(()),
        Ok(None) => Ok(None),
        Ok(Some(span)) => if !(span.0 <= span.1 <= line.len()) {
            Err(())
        } else {
            match v {
                Validator::EmailStrict => match strict {
                    Err(_) => Err(()),
                    Ok(Some(s)) => if s == span {
                        Ok(Some(span))
                    } else {
                        Ok(None)
                    },
                    Ok(None) => Ok(None),
                },
                Validator::IdChecksum => if id_checksum_ok(
                    line.subrange(span.0 as int, span.1 as int),
                ) {
                    Ok(Some(span))
                } else {
                    Ok(None)
                },
                _ => Ok(Some(span)),
            }
        },
    }
}

/// Outcome of one rule on one line: the accepted span, none, or an engine
/// failure.
pub open spec fn line_match(pattern: Seq<char>, v: Validator, line: Seq<u8>) -> Result<
    Option<(usize, usize)>,
    (),
> {
    validated(
        v,
        line,
        regex_first_match(pattern, line),
        regex_first_match(STRICT_EMAIL_PATTERN@, line),
    )
}

/// Applies a validator to what the patterns found on a line.
pub fn validate_match(
    v: Validator,
    line: &[u8],
    found: Result<Option<(usize, usize)>, ()>,
    strict: Result<Option<(usize, usize)>, ()>,
) -> (r: Result<Option<(usize, usize)>, ()>)
    ensures
        r == validated(v, line@, found, strict),
{
    match found {
        Err(()) => Err(()),
        Ok(None) => Ok(None),
        Ok(Some(span)) if !(span.0 <= span.1 && span.1 <= line.len()) => Err(()),
        Ok(Some(span)) => match v {
            Validator::EmailStrict => match strict {
                Err(()) => Err(()),
                Ok(Some(s)) => if s.0 == span.0 && s.1 == span.1 {
                    Ok(Some(span))
                } else {
                    Ok(None)
                },
                Ok(None) => Ok(None),
            },
            Validator::IdChecksum => {
                let candidate = copy_range(line, span.0, span.1);
                if id_card_valid(candidate.as_slice()) {
                    Ok(Some(span))
                } else {
                    Ok(None)
                }
            },
            _ => Ok(Some(span)),
        },
    }
}

/// A match before it is rendered as text: 1-based line number, matched
/// bytes, and the previous, matched and next lines joined by `\r\n`.
pub struct Finding {
    pub line_number: usize,
    pub matched: Vec<u8>,
    pub context: Vec<u8>,
}

pub type FindingView = (nat, Seq<u8>, Seq<u8>);

pub open spec fn finding_views(v: Seq<Finding>) -> Seq<FindingView> {
    v.map_values(|f: Finding| (f.line_number as nat, f.matched@, f.context@))
}

/// Line `k` with its neighbours, a missing neighbour read as empty.
pub open spec fn context_of(lines: Seq<Seq<u8>>, k: int) -> Seq<u8> {
    let prev = if k > 0 {
        lines[k - 1]
    } else {
        seq![]
    };
    let next = if k + 1 < lines.len() {
        lines[k + 1]
    } else {
        seq![]
    };
    prev + seq![13u8, 10u8] + lines[k] + seq![13u8, 10u8] + next
}

/// Findings of one rule over the first `n` lines; a failure on any line
/// fails the whole evaluation.
pub open spec fn findings_upto(pattern: Seq<char>, v: Validator, lines: Seq<Seq<u8>>, n: int) -> Result<
    Seq<FindingView>,
    (),
>
    decreases n,
{
    if n <= 0 {
        Ok(seq![])
    } else {
        match findings_upto(pattern, v, lines, n - 1) {
            Err(_) => Err(()),
            Ok(f) => match line_match(pattern, v, lines[n - 1]) {
                Err(_) => Err(()),
                Ok(None) => Ok(f),
                Ok(Some(span)) => Ok(
                    f.push(
                        (
                            n as nat,
                            lines[n - 1].subrange(span.0 as int, span.1 as int),
                            context_of(lines, n - 1),
                        ),
                    ),
                ),
            },
        }
    }
}

/// Findings of one rule over all lines of `text`.
pub open spec fn findings_in(pattern: Seq<char>, v: Validator, text: Seq<u8>) -> Result<
    Seq<FindingView>,
    (),
> {
    findings_upto(pattern, v, lines_of(text), lines_of(text).len() as int)
}

fn context_exec(lines: &Vec<Vec<u8>>, k: usize) -> (r: Vec<u8>)
    requires
        k < lines@.len(),
    ensures
        r@ == context_of(line_views(lines@), k as int),
{
    let ghost lv = line_views(lines@);
    let mut r: Vec<u8> = Vec::new();
    if k > 0 {
        push_all(&mut r, lines[k - 1].as_slice());
    }
    r.push(13);
    r.push(10);
    push_all(&mut r, lines[k].as_slice());
    r.push(13);
    r.push(10);
    if k < lines.len() - 1 {
        push_all(&mut r, lines[k + 1].as_slice());
    }
    assert(r@ =~= context_of(lv, k as int));
    r
}

pub open spec fn findings_result_view(r: Result<Vec<Finding>, ()>) -> Result<Seq<FindingView>, ()> {
    match r {
        Ok(f) => Ok(finding_views(f@)),
        Err(_) => Err(()),
    }
}

/// Evaluates one pattern with its validator over split lines.
pub fn findings_over(pattern: &str, v: Validator, lines: &Vec<Vec<u8>>) -> (r: Result<Vec<Finding>, ()>)
    ensures
        findings_result_view(r) == findings_upto(
            pattern@,
            v,
            line_views(lines@),
            lines@.len() as int,
        ),
{
    let ghost lv = line_views(lines@);
    let found = regex_find_each(pattern, lines);
    let email = v == Validator::EmailStrict;
    let strict = if email {
        regex_find_each(STRICT_EMAIL_PATTERN, lines)
    } else {
        Vec::new()
    };
    let mut out: Vec<Finding> = Vec::new();
    let mut k: usize = 0;
    assert(finding_views(out@) =~= seq![]);
    while k < lines.len()
        invariant
            k <= lines@.len(),
            lv == line_views(lines@),
            found@.len() == lines@.len(),
            forall|i: int| #![trigger found@[i]] 0 <= i < lines@.len() ==> found@[i] == regex_first_match(pattern@, lines@[i]@),
            email == (v == Validator::EmailStrict),
            email ==> strict@.len() == lines@.len(),
            email ==> forall|i: int| #![trigger strict@[i]] 0 <= i < lines@.len() ==> strict@[i]
                == regex_first_match(STRICT_EMAIL_PATTERN@, lines@[i]@),
            findings_upto(pattern@, v, lv, k as int) == Ok::<Seq<FindingView>, ()>(
                finding_views(out@),
            ),
        decreases lines@.len() - k,
    {
        let line = lines[k].as_slice();
        assert(lv[k as int] == lines@[k as int]@);
        let found_here = found[k];
        let strict_here = if email {
            strict[k]
        } else {
            Ok(None)
        };
        let outcome = validate_match(v, line, found_here, strict_here);
        assert(outcome == line_match(pattern@, v, lv[k as int]));
        match outcome {
            Err(()) => {
                proof {
                    lemma_findings_err_sticks(pattern@, v, lv, k as int + 1, lv.len() as int);
                }
                return Err(());
            },
            Ok(None) => {},
            Ok(Some(span)) => {
                let matched = copy_range(line, span.0, span.1);
                let context = context_exec(lines, k);
                let ghost before = finding_views(out@);
                out.push(Finding { line_number: k + 1, matched, context });
                assert(finding_views(out@) =~= before.push(
                    ((k + 1) as nat, matched@, context@),
                ));
            },
        }
        k = k + 1;
    }
    Ok(out)
}

proof fn lemma_findings_err_sticks(
    pattern: Seq<char>,
    v: Validator,
    lines: Seq<Seq<u8>>,
    k: int,
    n: int,
)
    requires
        0 < k <= n,
        findings_upto(pattern, v, lines, k) is Err,
    ensures
        findings_upto(pattern, v, lines, n) is Err,
    decreases n - k,
{
    if k < n {
        lemma_findings_err_sticks(pattern, v, lines, k + 1, n);
    }
}

/// Under the e-mail validator, a line on which the strict pattern does not
/// find the very span that the loose pattern found gives no finding.
pub proof fn email_spans_must_agree(pattern: Seq<char>, line: Seq<u8>, loose: (usize, usize))
    requires
        regex_first_match(pattern, line) == Ok::<Option<(usize, usize)>, ()>(Some(loose)),
        loose.0 <= loose.1 <= line.len(),
        regex_first_match(STRICT_EMAIL_PATTERN@, line) is Ok,
        regex_first_match(STRICT_EMAIL_PATTERN@, line) != Ok::<Option<(usize, usize)>, ()>(
            Some(loose),
        ),
    ensures
        line_match(pattern, Validator::EmailStrict, line) == Ok::<Option<(usize, usize)>, ()>(None),
{
}

/// A finding names the 1-based number of the line it was found on: that
/// line's accepted span is the matched text, its neighbours make the
/// context, and findings come in line order, at most one per line.
pub proof fn findings_point_at_their_lines(
    pattern: Seq<char>,
    v: Validator,
    lines: Seq<Seq<u8>>,
    n: int,
)
    requires
        0 <= n <= lines.len(),
        findings_upto(pattern, v, lines, n) is Ok,
    ensures
        forall|i: int|
            0 <= i < findings_upto(pattern, v, lines, n)->Ok_0.len() ==> {
                let f = #[trigger] findings_upto(pattern, v, lines, n)->Ok_0[i];
                &&& 1 <= f.0 <= n
                &&& line_match(pattern, v, lines[f.0 - 1]) matches Ok(Some(span)) && f.1
                    == lines[f.0 - 1].subrange(span.0 as int, span.1 as int)
                &&& f.2 == context_of(lines, f.0 - 1)
            },
        forall|i: int, j: int|
            0 <= i < j < findings_upto(pattern, v, lines, n)->Ok_0.len() ==> (
            #[trigger] findings_upto(pattern, v, lines, n)->Ok_0[i]).0 < (
            #[trigger] findings_upto(pattern, v, lines, n)->Ok_0[j]).0,
    decreases n,
{
    if n > 0 {
        findings_point_at_their_lines(pattern, v, lines, n - 1);
    }
}

} // verus!
