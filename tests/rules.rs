use minigrep::{default_log_rules, default_package_rules, validator_for, Validator};

#[test]
fn default_log_rules_carry_validators() {
    let rules = default_log_rules();
    assert_eq!(rules.len(), 13);
    assert_eq!(rules[0].pattern, r"(?<!\d)(1\d{10})(?!\d)");
    assert_eq!(rules[1].validator, Validator::EmailStrict);
    assert_eq!(rules[2].validator, Validator::IdChecksum);
    assert!(rules.iter().all(|r| r.enabled));
}

#[test]
fn default_package_rules_enable_assignments_only() {
    let rules = default_package_rules();
    assert_eq!(rules.len(), 10);
    assert_eq!(rules[0].validator, Validator::QuotedSecretOverride);
    assert!(rules[..6].iter().all(|r| r.enabled));
    assert!(rules[6..].iter().all(|r| !r.enabled));
}

#[test]
fn validators_follow_pattern_text() {
    let log = default_log_rules();
    let pkg = default_package_rules();
    assert_eq!(validator_for(&log[1].pattern), Validator::EmailStrict);
    assert_eq!(validator_for(&log[2].pattern), Validator::IdChecksum);
    assert_eq!(validator_for(&pkg[0].pattern), Validator::QuotedSecretOverride);
    assert_eq!(validator_for(&log[0].pattern), Validator::Plain);
    assert_eq!(validator_for("abc"), Validator::Plain);
}
