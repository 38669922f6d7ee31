use vstd::prelude::*;
use vstd::string::StringSliceAdditionalSpecFns;

use crate::engine::Validator;
use crate::search::PatternRule;

verus! {

pub const PHONE_PATTERN: &'static str = r"(?<!\d)(1\d{10})(?!\d)";
pub const EMAIL_PATTERN: &'static str = r"[a-zA-Z0-9\*]+\@[a-zA-Z0-9]+\.[a-zA-Z]+";
pub const NATIONAL_ID_PATTERN: &'static str = r"(?<!\d)(\d{17}[Xx]|\d{18})(?!\d)";
pub const PASSPORT_PATTERN: &'static str = "((P|p)ass(P|p)ort((N|n)o(s|S)?)?(\\s)?\"?(\\s)?\\:(\\s)?(\\[)?\"?[a-zA-Z0-9]+\"?[,;]+)";
pub const PASSWORD_WORD_PATTERN: &'static str = r"(P|p)(A|a)(S|s)(S|s)(W|w)((O|o)(R|r))?(D|d)";
pub const AES_KEY_WORD_PATTERN: &'static str = r"(A|a)(E|e)(S|s)_?(K|k)(E|e)(Y|y)";
pub const APP_KEY_WORD_PATTERN: &'static str = r"(A|a)(P|p)(P|p)_?(K|k)(E|e)(Y|y)";
pub const SECRET_KEY_WORD_PATTERN: &'static str = r"(S|s)_?(K|k)(E|e)(Y|y)";
pub const ACCESS_TOKEN_WORD_PATTERN: &'static str = r"(A|a)ccess_?(T|t)oken";
pub const TOKEN_FIELD_PATTERN: &'static str = "(T|t)oken\\\"\\:\t";
pub const SECRET_FIELD_PATTERN: &'static str = "(S|s)(E|e)(C|c)(R|r)(E|e)(T|t)\\\"\\:\t";
pub const CERTIFICATE_WORD_PATTERN: &'static str = "(C|c)ertificate";
pub const ID_CARD_WORD_PATTERN: &'static str = "(I|i)(D|d)_?(C|c)ard";
pub const ASSIGNED_SECRET_PATTERN: &'static str = r#"((P|p)((A|a)(S|s)(S|s))?(W|w)((O|o)(R|r))?(D|d)|(K|k)(E|e)(Y|y)|(E|e)(N|n)(C|c)(R|r)(Y|y)(P|p)(T|t)|(S|s)(E|e)(C|c)(R|r)(E|e)(T|t)|(A|a)(U|u)(T|t)(H|h)((O|o)(R|r)(I|i)(Z|z)(A|a)(T|t)(I|i)(O|o)(N|n))?)\s?[\"\']?(=|:)+\s?[\"\']?[a-zA-Z0-9\@\.]+[\"\']?"#;
pub const VALUE_SECRET_PATTERN: &'static str = r#"((P|p)((A|a)(S|s)(S|s))?(W|w)((O|o)(R|r))?(D|d)|(K|k)(E|e)(Y|y)|(E|e)(N|n)(C|c)(R|r)(Y|y)(P|p)(T|t)|(S|s)(E|e)(C|c)(R|r)(E|e)(T|t)|(A|a)(U|u)(T|t)(H|h)((O|o)(R|r)(I|i)(Z|z)(A|a)(T|t)(I|i)(O|o)(N|n))?)[\"\']?\s?value(=|:)+[\"\']?[a-zA-Z0-9\@\.]+[\"\']?"#;
pub const TAGGED_SECRET_PATTERN: &'static str = r#"((P|p)((A|a)(S|s)(S|s))?(W|w)((O|o)(R|r))?(D|d)|(K|k)(E|e)(Y|y)|(E|e)(N|n)(C|c)(R|r)(Y|y)(P|p)(T|t)|(S|s)(E|e)(C|c)(R|r)(E|e)(T|t)|(A|a)(U|u)(T|t)(H|h)((O|o)(R|r)(I|i)(Z|z)(A|a)(T|t)(I|i)(O|o)(N|n))?)[\"\']?\>)+\s?[a-zA-Z0-9\@\.]+\<[\"\']?"#;
pub const SETTER_SECRET_PATTERN: &'static str = r#"(S|s)(E|e)(T|t)([a-zA-Z0-9]+)?((P|p)((A|a)(S|s)(S|s))?(W|w)((O|o)(R|r))?(D|d)|(K|k)(E|e)(Y|y)|(E|e)(N|n)(C|c)(R|r)(Y|y)(P|p)(T|t)|(S|s)(E|e)(C|c)(R|r)(E|e)(T|t)|(A|a)(U|u)(T|t)(H|h)((O|o)(R|r)(I|i)(Z|z)(A|a)(T|t)(I|i)(O|o)(N|n))?)\(\s?[\"\']+[a-zA-Z0-9\@\.]+[\"\']+\s?\)"#;
pub const QUOTED_THEN_SECRET_PATTERN: &'static str = r#"[\"\']+[a-zA-Z0-9\@\.]+[\"\']+\s?\,\s?((P|p)((A|a)(S|s)(S|s))?(W|w)((O|o)(R|r))?(D|d)|(E|e)(N|n)(C|c)(R|r)(Y|y)(P|p)(T|t)|(S|s)(E|e)(C|c)(R|r)(E|e)(T|t)|(A|a)(U|u)(T|t)(H|h)((O|o)(R|r)(I|i)(Z|z)(A|a)(T|t)(I|i)(O|o)(N|n))?)+"#;
pub const SECRET_THEN_QUOTED_PATTERN: &'static str = r#"((P|p)((A|a)(S|s)(S|s))?(W|w)((O|o)(R|r))?(D|d)|(E|e)(N|n)(C|c)(R|r)(Y|y)(P|p)(T|t)|(S|s)(E|e)(C|c)(R|r)(E|e)(T|t)|(A|a)(U|u)(T|t)(H|h)((O|o)(R|r)(I|i)(Z|z)(A|a)(T|t)(I|i)(O|o)(N|n))?)+\s?\,\s?[\"\']+[a-zA-Z0-9\@\.]+[\"\']+"#;
pub const JWT_ALGORITHM_WORD_PATTERN: &'static str = r"(J|j)(W|w)(T|t)\\.(A|a)(L|l)(G|g)(O|o)(R|r)(I|i)(T|t)(H|h)(M|m)";
pub const PACKAGE_SECRET_WORD_PATTERN: &'static str = r"(S|s)(E|e)(C|c)(R|r)(E|e)(T|t)";
pub const PACKAGE_PASSWORD_WORD_PATTERN: &'static str = r"(P|p)(A|a)(S|s)(S|s)(W|w)((O|o)(R|r))?(D|d)";
pub const PACKAGE_AES_KEY_WORD_PATTERN: &'static str = r"(A|a)(E|e)(S|s)_?(K|k)(E|e)(Y|y)";

pub open spec fn rule_views(v: Seq<PatternRule>) -> Seq<(Seq<char>, Validator, bool)> {
    v.map_values(|r: PatternRule| (r.pattern@, r.validator, r.enabled))
}

fn rule(pattern: &str, validator: Validator, enabled: bool) -> (r: PatternRule)
    ensures
        r.pattern@ == pattern@,
        r.validator == validator,
        r.enabled == enabled,
{
    PatternRule { pattern: pattern.to_owned(), validator, enabled }
}

/// The default rules for logs: personal data first, then credential
/// keywords, all enabled.
pub fn default_log_rules() -> (r: Vec<PatternRule>)
    ensures
        rule_views(r@) == seq![
            (PHONE_PATTERN@, Validator::Plain, true),
            (EMAIL_PATTERN@, Validator::EmailStrict, true),
            (NATIONAL_ID_PATTERN@, Validator::IdChecksum, true),
            (PASSPORT_PATTERN@, Validator::Plain, true),
            (PASSWORD_WORD_PATTERN@, Validator::Plain, true),
            (AES_KEY_WORD_PATTERN@, Validator::Plain, true),
            (APP_KEY_WORD_PATTERN@, Validator::Plain, true),
            (SECRET_KEY_WORD_PATTERN@, Validator::Plain, true),
            (ACCESS_TOKEN_WORD_PATTERN@, Validator::Plain, true),
            (TOKEN_FIELD_PATTERN@, Validator::Plain, true),
            (SECRET_FIELD_PATTERN@, Validator::Plain, true),
            (CERTIFICATE_WORD_PATTERN@, Validator::Plain, true),
            (ID_CARD_WORD_PATTERN@, Validator::Plain, true),
        ],
{
    let mut r: Vec<PatternRule> = Vec::new();
    r.push(rule(PHONE_PATTERN, Validator::Plain, true));
    r.push(rule(EMAIL_PATTERN, Validator::EmailStrict, true));
    r.push(rule(NATIONAL_ID_PATTERN, Validator::IdChecksum, true));
    r.push(rule(PASSPORT_PATTERN, Validator::Plain, true));
    r.push(rule(PASSWORD_WORD_PATTERN, Validator::Plain, true));
    r.push(rule(AES_KEY_WORD_PATTERN, Validator::Plain, true));
    r.push(rule(APP_KEY_WORD_PATTERN, Validator::Plain, true));
    r.push(rule(SECRET_KEY_WORD_PATTERN, Validator::Plain, true));
    r.push(rule(ACCESS_TOKEN_WORD_PATTERN, Validator::Plain, true));
    r.push(rule(TOKEN_FIELD_PATTERN, Validator::Plain, true));
    r.push(rule(SECRET_FIELD_PATTERN, Validator::Plain, true));
    r.push(rule(CERTIFICATE_WORD_PATTERN, Validator::Plain, true));
    r.push(rule(ID_CARD_WORD_PATTERN, Validator::Plain, true));
    assert(rule_views(r@) =~= seq![
        (PHONE_PATTERN@, Validator::Plain, true),
        (EMAIL_PATTERN@, Validator::EmailStrict, true),
        (NATIONAL_ID_PATTERN@, Validator::IdChecksum, true),
        (PASSPORT_PATTERN@, Validator::Plain, true),
        (PASSWORD_WORD_PATTERN@, Validator::Plain, true),
        (AES_KEY_WORD_PATTERN@, Validator::Plain, true),
        (APP_KEY_WORD_PATTERN@, Validator::Plain, true),
        (SECRET_KEY_WORD_PATTERN@, Validator::Plain, true),
        (ACCESS_TOKEN_WORD_PATTERN@, Validator::Plain, true),
        (TOKEN_FIELD_PATTERN@, Validator::Plain, true),
        (SECRET_FIELD_PATTERN@, Validator::Plain, true),
        (CERTIFICATE_WORD_PATTERN@, Validator::Plain, true),
        (ID_CARD_WORD_PATTERN@, Validator::Plain, true),
    ]);
    r
}

/// The default rules for release packages: assigned secrets, enabled, then
/// bare keywords, disabled.
pub fn default_package_rules() -> (r: Vec<PatternRule>)
    ensures
        rule_views(r@) == seq![
            (ASSIGNED_SECRET_PATTERN@, Validator::QuotedSecretOverride, true),
            (VALUE_SECRET_PATTERN@, Validator::Plain, true),
            (TAGGED_SECRET_PATTERN@, Validator::Plain, true),
            (SETTER_SECRET_PATTERN@, Validator::Plain, true),
            (QUOTED_THEN_SECRET_PATTERN@, Validator::Plain, true),
            (SECRET_THEN_QUOTED_PATTERN@, Validator::Plain, true),
            (JWT_ALGORITHM_WORD_PATTERN@, Validator::Plain, false),
            (PACKAGE_SECRET_WORD_PATTERN@, Validator::Plain, false),
            (PACKAGE_PASSWORD_WORD_PATTERN@, Validator::Plain, false),
            (PACKAGE_AES_KEY_WORD_PATTERN@, Validator::Plain, false),
        ],
{
    let mut r: Vec<PatternRule> = Vec::new();
    r.push(rule(ASSIGNED_SECRET_PATTERN, Validator::QuotedSecretOverride, true));
    r.push(rule(VALUE_SECRET_PATTERN, Validator::Plain, true));
    r.push(rule(TAGGED_SECRET_PATTERN, Validator::Plain, true));
    r.push(rule(SETTER_SECRET_PATTERN, Validator::Plain, true));
    r.push(rule(QUOTED_THEN_SECRET_PATTERN, Validator::Plain, true));
    r.push(rule(SECRET_THEN_QUOTED_PATTERN, Validator::Plain, true));
    r.push(rule(JWT_ALGORITHM_WORD_PATTERN, Validator::Plain, false));
    r.push(rule(PACKAGE_SECRET_WORD_PATTERN, Validator::Plain, false));
    r.push(rule(PACKAGE_PASSWORD_WORD_PATTERN, Validator::Plain, false));
    r.push(rule(PACKAGE_AES_KEY_WORD_PATTERN, Validator::Plain, false));
    assert(rule_views(r@) =~= seq![
        (ASSIGNED_SECRET_PATTERN@, Validator::QuotedSecretOverride, true),
        (VALUE_SECRET_PATTERN@, Validator::Plain, true),
        (TAGGED_SECRET_PATTERN@, Validator::Plain, true),
        (SETTER_SECRET_PATTERN@, Validator::Plain, true),
        (QUOTED_THEN_SECRET_PATTERN@, Validator::Plain, true),
        (SECRET_THEN_QUOTED_PATTERN@, Validator::Plain, true),
        (JWT_ALGORITHM_WORD_PATTERN@, Validator::Plain, false),
        (PACKAGE_SECRET_WORD_PATTERN@, Validator::Plain, false),
        (PACKAGE_PASSWORD_WORD_PATTERN@, Validator::Plain, false),
        (PACKAGE_AES_KEY_WORD_PATTERN@, Validator::Plain, false),
    ]);
    r
}

/// The validator that a pattern of the default rule sets carries; patterns
/// of other origins run without one.
pub open spec fn validator_for_spec(pattern: Seq<u8>) -> Validator {
    if pattern == EMAIL_PATTERN.spec_bytes() {
        Validator::EmailStrict
    } else if pattern == NATIONAL_ID_PATTERN.spec_bytes() {
        Validator::IdChecksum
    } else if pattern == ASSIGNED_SECRET_PATTERN.spec_bytes() {
        Validator::QuotedSecretOverride
    } else {
        Validator::Plain
    }
}

fn same_bytes(a: &[u8], b: &[u8]) -> (r: bool)
    ensures
        r == (a@ == b@),
{
    if a.len() != b.len() {
        return false;
    }
    let mut k: usize = 0;
    while k < a.len()
        invariant
            k <= a@.len(),
            a@.len() == b@.len(),
            forall|j: int| 0 <= j < k ==> a@[j] == b@[j],
        decreases a@.len() - k,
    {
        if a[k] != b[k] {
            return false;
        }
        k = k + 1;
    }
    assert(a@ =~= b@);
    true
}

/// Tags a pattern with its validator when a rule is defined from text, such
/// as a stored rule set.
pub fn validator_for(pattern: &str) -> (r: Validator)
    ensures
        r == validator_for_spec(pattern.spec_bytes()),
{
    let p = pattern.as_bytes();
    if same_bytes(p, EMAIL_PATTERN.as_bytes()) {
        Validator::EmailStrict
    } else if same_bytes(p, NATIONAL_ID_PATTERN.as_bytes()) {
        Validator::IdChecksum
    } else if same_bytes(p, ASSIGNED_SECRET_PATTERN.as_bytes()) {
        Validator::QuotedSecretOverride
    } else {
        Validator::Plain
    }
}

} // verus!
