use std::io::Write;

use minigrep::{
    evaluate_unit, scan_sync, search_in_file_contents_sync, unpack_file, AdmissionLimiter,
    Artifact, MatchResult, PatternRule, ScanSession, SkipReason, TextEncoding, TextFile, Validator,
};

const PHONE: &str = r"(?<!\d)(1\d{10})(?!\d)";
const EMAIL: &str = r"[a-zA-Z0-9\*]+\@[a-zA-Z0-9]+\.[a-zA-Z]+";

fn phone_rule() -> Vec<PatternRule> {
    vec![PatternRule { pattern: PHONE.to_string(), validator: Validator::Plain, enabled: true }]
}

fn text_with_phone_on_line(line: usize) -> String {
    let mut s = String::new();
    for i in 1..line {
        s.push_str(&format!("line {}\n", i));
    }
    s.push_str("call 13812345678 now\n");
    s.push_str("tail\n");
    s
}

fn zip_of(entries: &[(&str, &[u8])]) -> Vec<u8> {
    let mut w = zip::ZipWriter::new(std::io::Cursor::new(Vec::new()));
    for (name, data) in entries {
        w.start_file(*name, zip::write::SimpleFileOptions::default()).unwrap();
        w.write_all(data).unwrap();
    }
    w.finish().unwrap().into_inner()
}

fn gzip_of(data: &[u8]) -> Vec<u8> {
    let mut e = flate2::write::GzEncoder::new(Vec::new(), flate2::Compression::default());
    e.write_all(data).unwrap();
    e.finish().unwrap()
}

fn tar_of(entries: &[(&str, &[u8])]) -> Vec<u8> {
    let mut out = Vec::new();
    for (name, data) in entries {
        let mut h = vec![0u8; 512];
        h[..name.len()].copy_from_slice(name.as_bytes());
        h[124..135].copy_from_slice(format!("{:011o}", data.len()).as_bytes());
        out.extend(h);
        out.extend_from_slice(data);
        out.extend(std::iter::repeat(0u8).take((512 - data.len() % 512) % 512));
    }
    out.extend(vec![0u8; 1024]);
    out
}

fn scan(path: &str, data: &[u8], rules: &Vec<PatternRule>) -> Vec<MatchResult> {
    let mut res = Vec::new();
    for a in unpack_file(path.as_bytes(), data) {
        if let Artifact::Text { text, .. } = &a {
            search_in_file_contents_sync(&mut res, rules, text, &a.path_text());
        }
    }
    res
}

#[test]
fn plain_text_file_match() {
    let text = text_with_phone_on_line(3);
    let res = scan("logs/app.log", text.as_bytes(), &phone_rule());
    assert_eq!(res.len(), 1);
    assert_eq!(res[0].file_name, "logs/app.log");
    assert_eq!(res[0].line_number, "3");
    assert_eq!(res[0].matched_text, "13812345678");
    assert_eq!(res[0].origin_text, "line 2\r\ncall 13812345678 now\r\ntail");
}

#[test]
fn zip_container_match() {
    let text = text_with_phone_on_line(2);
    let z = zip_of(&[("notes.txt", b"nothing here\n"), ("dir/app.log", text.as_bytes())]);
    let res = scan("pkg/a.zip", &z, &phone_rule());
    assert_eq!(res.len(), 1);
    assert_eq!(res[0].file_name, "pkg/a.zip/dir/app.log");
    assert_eq!(res[0].line_number, "2");
}

#[test]
fn war_and_jar_read_as_zip() {
    let text = text_with_phone_on_line(4);
    let z = zip_of(&[("WEB-INF/web.xml", text.as_bytes())]);
    let war = scan("site.war", &z, &phone_rule());
    assert_eq!(war.len(), 1);
    assert_eq!(war[0].file_name, "site.war/WEB-INF/web.xml");
    assert_eq!(war[0].line_number, "4");
    let jar = scan("lib.jar", &z, &phone_rule());
    assert_eq!(jar.len(), 1);
    assert_eq!(jar[0].file_name, "lib.jar/WEB-INF/web.xml");
}

#[test]
fn gzip_container_match() {
    let text = text_with_phone_on_line(6);
    let g = gzip_of(text.as_bytes());
    let res = scan("app.log.gz", &g, &phone_rule());
    assert_eq!(res.len(), 1);
    assert_eq!(res[0].file_name, "app.log.gz");
    assert_eq!(res[0].line_number, "6");
}

#[test]
fn double_gzip_is_unwrapped() {
    let text = text_with_phone_on_line(2);
    let g = gzip_of(&gzip_of(text.as_bytes()));
    let res = scan("twice.gz", &g, &phone_rule());
    assert_eq!(res.len(), 1);
    assert_eq!(res[0].line_number, "2");
}

#[test]
fn tar_container_match() {
    let text = text_with_phone_on_line(1);
    let t = tar_of(&[("a.txt", b"x\n"), ("b/app.log", text.as_bytes())]);
    let res = scan("bundle.tar", &t, &phone_rule());
    assert_eq!(res.len(), 1);
    assert_eq!(res[0].file_name, "bundle.tar/b/app.log");
    assert_eq!(res[0].line_number, "1");
}

#[test]
fn tar_gz_read_as_tar() {
    let text = text_with_phone_on_line(2);
    let g = gzip_of(&tar_of(&[("app.log", text.as_bytes())]));
    let res = scan("bundle.tar.gz", &g, &phone_rule());
    assert_eq!(res.len(), 1);
    assert_eq!(res[0].file_name, "bundle.tar.gz/app.log");
}

#[test]
fn zip_gzip_tar_nesting() {
    let text = text_with_phone_on_line(5);
    let t = tar_of(&[("deep.txt", text.as_bytes())]);
    let g = gzip_of(&t);
    let z = zip_of(&[("mid.tar.gz", &g)]);
    let res = scan("outer.zip", &z, &phone_rule());
    assert_eq!(res.len(), 1);
    assert_eq!(res[0].file_name, "outer.zip/mid.tar.gz/deep.txt");
    assert_eq!(res[0].line_number, "5");
}

#[test]
fn gbk_text_is_matched() {
    let (gbk, _, _) = encoding_rs::GBK.encode("联系电话 13812345678 谢谢\n");
    let bytes = gbk.into_owned();
    assert!(std::str::from_utf8(&bytes).is_err());
    let arts = unpack_file(b"cn.log", &bytes);
    assert_eq!(arts.len(), 1);
    match &arts[0] {
        Artifact::Text { encoding, text, .. } => {
            assert_eq!(*encoding, TextEncoding::Gbk);
            assert_eq!(text, "联系电话 13812345678 谢谢\n");
        },
        _ => panic!("expected text"),
    }
    let res = scan("cn.log", &bytes, &phone_rule());
    assert_eq!(res.len(), 1);
    assert_eq!(res[0].matched_text, "13812345678");
}

#[test]
fn corrupt_container_is_skipped() {
    let arts = unpack_file(b"bad.zip", b"not a zip at all");
    assert_eq!(arts.len(), 1);
    match &arts[0] {
        Artifact::Skipped { reason, .. } => assert_eq!(*reason, SkipReason::BadContainer),
        _ => panic!("expected skip"),
    }
    let arts = unpack_file(b"bad.gz", b"not gzip");
    assert!(matches!(arts[0], Artifact::Skipped { reason: SkipReason::BadContainer, .. }));
}

#[test]
fn binary_entry_is_skipped_and_siblings_scanned() {
    let text = text_with_phone_on_line(1);
    let z = zip_of(&[("blob.bin", &[0x81, 0x00, 0xff, 0xfe, 0x80]), ("ok.txt", text.as_bytes())]);
    let arts = unpack_file(b"mix.zip", &z);
    assert_eq!(arts.len(), 2);
    assert!(matches!(arts[0], Artifact::Skipped { reason: SkipReason::NotText, .. }));
    let res = scan("mix.zip", &z, &phone_rule());
    assert_eq!(res.len(), 1);
    assert_eq!(res[0].file_name, "mix.zip/ok.txt");
}

#[test]
fn class_entries_are_handed_out() {
    let z = zip_of(&[("com/A.class", &[0xca, 0xfe, 0xba, 0xbe])]);
    let arts = unpack_file(b"app.jar", &z);
    assert_eq!(arts.len(), 1);
    match &arts[0] {
        Artifact::Compiled { path, data } => {
            assert_eq!(path, &b"app.jar/com/A.class".to_vec());
            assert_eq!(data, &vec![0xca, 0xfe, 0xba, 0xbe]);
        },
        _ => panic!("expected class"),
    }
}

#[test]
fn quoted_secret_switches_on_decompiled_code() {
    let loose = r#"((P|p)((A|a)(S|s)(S|s))?(W|w)((O|o)(R|r))?(D|d)|(K|k)(E|e)(Y|y)|(E|e)(N|n)(C|c)(R|r)(Y|y)(P|p)(T|t)|(S|s)(E|e)(C|c)(R|r)(E|e)(T|t)|(A|a)(U|u)(T|t)(H|h)((O|o)(R|r)(I|i)(Z|z)(A|a)(T|t)(I|i)(O|o)(N|n))?)\s?[\"\']?(=|:)+\s?[\"\']?[a-zA-Z0-9\@\.]+[\"\']?"#;
    let rules = vec![PatternRule {
        pattern: loose.to_string(),
        validator: Validator::QuotedSecretOverride,
        enabled: true,
    }];
    let text = "password = value\nkey = \"abc123\"\n";
    let mut plain = Vec::new();
    search_in_file_contents_sync(&mut plain, &rules, text, "conf.properties");
    assert_eq!(plain.len(), 2);
    let mut compiled = Vec::new();
    search_in_file_contents_sync(&mut compiled, &rules, text, "x.jar/A.class");
    assert_eq!(compiled.len(), 1);
    assert_eq!(compiled[0].line_number, "2");
    assert_eq!(compiled[0].matched_text, "key = \"abc123\"");
}

#[test]
fn email_rule_needs_agreeing_spans() {
    let rules = vec![PatternRule { pattern: EMAIL.to_string(), validator: Validator::EmailStrict, enabled: true }];
    let mut res = Vec::new();
    search_in_file_contents_sync(&mut res, &rules, "mail john@x.com\na*b@x.com\n", "m.log");
    assert_eq!(res.len(), 1);
    assert_eq!(res[0].matched_text, "john@x.com");
    assert_eq!(res[0].line_number, "1");
}

#[test]
fn email_wildcard_before_at_is_rejected() {
    let rules = vec![PatternRule { pattern: EMAIL.to_string(), validator: Validator::EmailStrict, enabled: true }];
    let mut res = Vec::new();
    search_in_file_contents_sync(&mut res, &rules, "a.b*@x.com", "m.log");
    assert!(res.is_empty());
    let plain = vec![PatternRule { pattern: EMAIL.to_string(), validator: Validator::Plain, enabled: true }];
    let mut loose = Vec::new();
    search_in_file_contents_sync(&mut loose, &plain, "a.b*@x.com", "m.log");
    assert_eq!(loose.len(), 1);
    assert_eq!(loose[0].matched_text, "b*@x.com");
}

#[test]
fn bad_pattern_and_disabled_rule_give_nothing() {
    let rules = vec![
        PatternRule { pattern: "(unclosed".to_string(), validator: Validator::Plain, enabled: true },
        PatternRule { pattern: PHONE.to_string(), validator: Validator::Plain, enabled: false },
    ];
    let mut res = Vec::new();
    search_in_file_contents_sync(&mut res, &rules, "13812345678", "f.log");
    assert!(res.is_empty());
}

fn workload() -> (Vec<TextFile>, Vec<PatternRule>) {
    let mut files = Vec::new();
    for i in 0..10 {
        let mut contents = String::new();
        contents.push_str(&format!("file {} start\n", i));
        contents.push_str(&format!("phone 1381234{:04}\n", i));
        contents.push_str(&format!("mail user{}@corp.com\n", i));
        contents.push_str("password: hunter2\n");
        contents.push_str("id 110101199003070476\n");
        files.push(TextFile { name: format!("dir/f{}.log", i), contents });
    }
    let rules = vec![
        PatternRule { pattern: PHONE.to_string(), validator: Validator::Plain, enabled: true },
        PatternRule { pattern: EMAIL.to_string(), validator: Validator::EmailStrict, enabled: true },
        PatternRule {
            pattern: r"(?<!\d)(\d{17}[Xx]|\d{18})(?!\d)".to_string(),
            validator: Validator::IdChecksum,
            enabled: true,
        },
        PatternRule {
            pattern: r"(P|p)(A|a)(S|s)(S|s)(W|w)((O|o)(R|r))?(D|d)".to_string(),
            validator: Validator::Plain,
            enabled: true,
        },
        PatternRule { pattern: r"start".to_string(), validator: Validator::Plain, enabled: true },
    ];
    (files, rules)
}

#[test]
fn concurrent_units_match_sync_scan() {
    let (files, rules) = workload();
    let mut sync = scan_sync(&files, &rules);
    assert_eq!(sync.len(), 50);

    let mut units: Vec<(usize, usize)> = Vec::new();
    for f in 0..files.len() {
        for r in 0..rules.len() {
            units.push((f, r));
        }
    }
    // Admit units through a limiter of 4 permits and let them finish out of
    // order: the most recently started unit finishes first.
    let mut limiter = AdmissionLimiter::new(4);
    let mut session = ScanSession::new();
    let mut pending = units.into_iter().rev().collect::<Vec<_>>();
    let mut running: Vec<(usize, usize)> = Vec::new();
    let mut max_running = 0;
    while !pending.is_empty() || !running.is_empty() {
        while !pending.is_empty() && limiter.try_acquire() {
            running.push(pending.pop().unwrap());
        }
        max_running = max_running.max(limiter.in_flight());
        assert!(limiter.in_flight() <= 4);
        let (f, r) = running.pop().unwrap();
        session.append(evaluate_unit(&rules[r], &files[f].contents, &files[f].name));
        limiter.release();
    }
    assert_eq!(max_running, 4);
    let mut concurrent = session.into_results();
    assert_ne!(concurrent, sync);
    concurrent.sort();
    sync.sort();
    assert_eq!(concurrent, sync);
}

#[test]
fn limiter_refuses_past_capacity() {
    let mut l = AdmissionLimiter::new(2);
    assert!(l.try_acquire());
    assert!(l.try_acquire());
    assert!(!l.try_acquire());
    assert_eq!(l.in_flight(), 2);
    l.release();
    assert!(l.try_acquire());
    assert_eq!(l.capacity(), 2);
}

#[test]
fn two_digit_line_numbers() {
    let text = text_with_phone_on_line(12);
    let res = scan("long.log", text.as_bytes(), &phone_rule());
    assert_eq!(res.len(), 1);
    assert_eq!(res[0].line_number, "12");
    assert_eq!(res[0].origin_text, "line 11\r\ncall 13812345678 now\r\ntail");
}

#[test]
fn finding_on_last_line_has_empty_next() {
    let res = scan("end.log", b"first\n13812345678", &phone_rule());
    assert_eq!(res.len(), 1);
    assert_eq!(res[0].line_number, "2");
    assert_eq!(res[0].origin_text, "first\r\n13812345678\r\n");
}

#[test]
fn truncated_tar_entry_is_skipped_after_earlier_matches() {
    let text = text_with_phone_on_line(1);
    let mut t = Vec::new();
    let mut h = vec![0u8; 512];
    h[..5].copy_from_slice(b"a.txt");
    h[124..135].copy_from_slice(format!("{:011o}", text.len()).as_bytes());
    t.extend(h);
    t.extend_from_slice(text.as_bytes());
    t.extend(std::iter::repeat(0u8).take((512 - text.len() % 512) % 512));
    let mut h = vec![0u8; 512];
    h[..5].copy_from_slice(b"b.txt");
    h[124..135].copy_from_slice(format!("{:011o}", 100).as_bytes());
    t.extend(h);
    t.extend_from_slice(&[b'z'; 40]);
    let arts = unpack_file(b"t.tar", &t);
    assert_eq!(arts.len(), 2);
    assert!(matches!(&arts[1], Artifact::Skipped { reason: SkipReason::BadContainer, .. }));
    assert_eq!(arts[1].path_text(), "t.tar/b.txt");
    let res = scan("t.tar", &t, &phone_rule());
    assert_eq!(res.len(), 1);
    assert_eq!(res[0].file_name, "t.tar/a.txt");
}

#[test]
fn java_source_keeps_the_rule_pattern() {
    let rules = minigrep::default_package_rules();
    let first = vec![rules[0].clone()];
    let text = "password = value\n";
    let mut source = Vec::new();
    search_in_file_contents_sync(&mut source, &first, text, "src/Db.java");
    assert_eq!(source.len(), 1);
    let mut decompiled = Vec::new();
    search_in_file_contents_sync(&mut decompiled, &first, text, "app.jar/Db.class");
    assert!(decompiled.is_empty());
}
