//! Sensitive-data scanning over files, nested archives and decoded text.
//!
//! Files are unfolded into the texts they hold (`unpack`), texts are
//! matched line by line against pattern rules with per-rule validators
//! (`engine`, `search`), and scans of many (file, rule) units aggregate into
//! one session under an admission limit (`session`).

mod bytes;
mod engine;
mod grep;
mod highlight;
mod idcard;
mod lines;
mod rules;
mod search;
mod session;
mod tar;
mod textcodec;
mod unpack;

pub use engine::{validate_match, Validator, QUOTED_SECRET_PATTERN, STRICT_EMAIL_PATTERN};
pub use grep::{contains_text, search_case_insensitive, Config, MISSING_CONTENTS, MISSING_QUERY};
pub use highlight::match_positions;
pub use idcard::{id_card_valid, ID_WEIGHTS};
pub use lines::split_lines;
pub use rules::{default_log_rules, default_package_rules, validator_for};
pub use search::{
    evaluate_rule, search_in_file_contents_sync, MatchResult, PatternRule, CLASS_SUFFIX,
};
pub use session::{evaluate_unit, scan_sync, AdmissionLimiter, ScanSession, TextFile};
pub use tar::{parse_size_field, tar_entries, tar_padding, TarEntry, TAR_BLOCK};
pub use textcodec::{decode_name, decode_text, DecodedText, TextEncoding};
pub use unpack::{
    format_for, join_path, unpack_file, unpack_gunzipped, unpack_zip_members, Artifact, Format, SkipReason, ZipMember, MAX_NESTING,
};
