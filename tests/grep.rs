use minigrep::{contains_text, match_positions, search_case_insensitive, Config, MISSING_CONTENTS, MISSING_QUERY};

#[test]
fn case_insensitive() {
    let query = "rUsT";
    let contents = "\
Rust:
safe, fast, productive.
Pick three.
Trust me.";
    assert_eq!(vec!["Rust:", "Trust me."], search_case_insensitive(query, contents));
}

#[test]
fn case_insensitive_crlf_and_no_match() {
    assert_eq!(vec!["ONE".to_string()], search_case_insensitive("one", "ONE\r\ntwo\r\n"));
    assert!(search_case_insensitive("zzz", "abc\ndef").is_empty());
}

#[test]
fn contains_text_bytes() {
    assert!(contains_text("hello world", "o w"));
    assert!(contains_text("abc", ""));
    assert!(!contains_text("abc", "abcd"));
}

#[test]
fn config_build_outcomes() {
    let args = |v: &[&str]| v.iter().map(|s| s.to_string()).collect::<Vec<String>>();
    assert_eq!(Config::build(args(&["prog"]), false).err(), Some(MISSING_QUERY));
    assert_eq!(Config::build(args(&["prog", "q"]), false).err(), Some(MISSING_CONTENTS));
    let c = Config::build(args(&["prog", "q", "text", "extra"]), true).ok().unwrap();
    assert_eq!(c.query, "q");
    assert_eq!(c.contents, "text");
    assert!(c.ignore_case);
}

#[test]
fn positions_advance_past_each_occurrence() {
    assert_eq!(match_positions("aaaa", "aa"), vec![(0, 2), (2, 4)]);
    assert_eq!(match_positions("aaa", "aa"), vec![(0, 2)]);
    assert!(match_positions("abc", "").is_empty());
    assert!(match_positions("abc", "x").is_empty());
}

#[test]
fn positions_count_characters() {
    assert_eq!(match_positions("你好abc你好", "你好"), vec![(0, 2), (5, 7)]);
    assert_eq!(match_positions("密码=123 密码", "123"), vec![(3, 6)]);
}
