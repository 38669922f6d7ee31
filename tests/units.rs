use minigrep::{
    decode_name, decode_text, format_for, join_path, split_lines, unpack_gunzipped,
    unpack_zip_members, validate_match, Artifact, Format, SkipReason, TextEncoding, Validator,
    ZipMember,
};

#[test]
fn validator_plain_keeps_span() {
    assert_eq!(validate_match(Validator::Plain, b"abc", Ok(Some((0, 2))), Err(())), Ok(Some((0, 2))));
    assert_eq!(validate_match(Validator::Plain, b"abc", Ok(None), Ok(None)), Ok(None));
    assert_eq!(validate_match(Validator::Plain, b"abc", Err(()), Ok(None)), Err(()));
    assert_eq!(validate_match(Validator::Plain, b"abc", Ok(Some((2, 4))), Ok(None)), Err(()));
    assert_eq!(validate_match(Validator::Plain, b"abc", Ok(Some((2, 1))), Ok(None)), Err(()));
}

#[test]
fn validator_email_needs_same_span() {
    let line = b"a*b@x.com";
    assert_eq!(validate_match(Validator::EmailStrict, line, Ok(Some((0, 9))), Ok(Some((2, 9)))), Ok(None));
    assert_eq!(validate_match(Validator::EmailStrict, line, Ok(Some((2, 9))), Ok(Some((2, 9)))), Ok(Some((2, 9))));
    assert_eq!(validate_match(Validator::EmailStrict, line, Ok(Some((0, 9))), Ok(None)), Ok(None));
    assert_eq!(validate_match(Validator::EmailStrict, line, Ok(Some((0, 9))), Err(())), Err(()));
}

#[test]
fn validator_id_checks_the_span() {
    let line = b"id=110101199003070476;";
    assert_eq!(validate_match(Validator::IdChecksum, line, Ok(Some((3, 21))), Ok(None)), Ok(Some((3, 21))));
    assert_eq!(validate_match(Validator::IdChecksum, line, Ok(Some((2, 20))), Ok(None)), Ok(None));
}

#[test]
fn zip_members_unfold_in_order() {
    let members = vec![
        ZipMember { is_file: false, name: b"dir/".to_vec(), data: Some(Vec::new()) },
        ZipMember { is_file: true, name: b"dir/a.txt".to_vec(), data: Some(b"hello".to_vec()) },
        ZipMember { is_file: true, name: b"dir/b.txt".to_vec(), data: None },
        ZipMember { is_file: true, name: b"A.class".to_vec(), data: Some(vec![1, 2]) },
        ZipMember { is_file: true, name: b"inner.zip".to_vec(), data: Some(b"junk".to_vec()) },
    ];
    let arts = unpack_zip_members(b"top.jar", &members, 3);
    assert_eq!(arts.len(), 4);
    match &arts[0] {
        Artifact::Text { path, text, encoding } => {
            assert_eq!(path, &b"top.jar/dir/a.txt".to_vec());
            assert_eq!(text, "hello");
            assert_eq!(*encoding, TextEncoding::Utf8);
        },
        _ => panic!("expected text"),
    }
    assert!(matches!(&arts[1], Artifact::Skipped { reason: SkipReason::UnreadableEntry, .. }));
    assert!(matches!(&arts[2], Artifact::Compiled { .. }));
    assert!(matches!(&arts[3], Artifact::Skipped { reason: SkipReason::BadContainer, .. }));
    assert_eq!(arts[3].path_text(), "top.jar/inner.zip");
}

#[test]
fn zip_member_names_fall_back_to_gbk() {
    let (gbk, _, _) = encoding_rs::GBK.encode("日志.txt");
    let members = vec![ZipMember { is_file: true, name: gbk.into_owned(), data: Some(b"x".to_vec()) }];
    let arts = unpack_zip_members(b"a.zip", &members, 3);
    assert_eq!(arts[0].path_text(), "a.zip/日志.txt");
    let (gbk, _, _) = encoding_rs::GBK.encode("名字");
    assert_eq!(decode_name(&gbk), "名字");
    assert_eq!(decode_name("名字".as_bytes()), "名字");
}

#[test]
fn gunzipped_content_dispatch() {
    let arts = unpack_gunzipped(b"notes.gz", b"plain words", 3);
    assert_eq!(arts.len(), 1);
    match &arts[0] {
        Artifact::Text { path, text, .. } => {
            assert_eq!(path, &b"notes.gz".to_vec());
            assert_eq!(text, "plain words");
        },
        _ => panic!("expected text"),
    }
    let arts = unpack_gunzipped(b"x.tar.gz", b"short", 0);
    assert!(matches!(&arts[0], Artifact::Skipped { reason: SkipReason::TooDeep, .. }));
}

#[test]
fn decoding_chain() {
    let d = decode_text("héllo".as_bytes()).unwrap();
    assert_eq!(d.encoding, TextEncoding::Utf8);
    assert_eq!(d.text, "héllo");
    let (gbk, _, _) = encoding_rs::GBK.encode("中文");
    let d = decode_text(&gbk).unwrap();
    assert_eq!(d.encoding, TextEncoding::Gbk);
    assert_eq!(d.text, "中文");
    assert!(decode_text(&[0x81, 0x20, 0xff]).is_none());
}

#[test]
fn formats_by_extension() {
    assert_eq!(format_for(b"a.zip"), Format::Zip);
    assert_eq!(format_for(b"a.war"), Format::Zip);
    assert_eq!(format_for(b"a.jar"), Format::Zip);
    assert_eq!(format_for(b"a.tar.gz"), Format::Gzip);
    assert_eq!(format_for(b"a.tar"), Format::Tar);
    assert_eq!(format_for(b"A.class"), Format::Class);
    assert_eq!(format_for(b"a.log"), Format::Text);
    assert_eq!(join_path(b"a.zip", b"b.txt"), b"a.zip/b.txt".to_vec());
}

#[test]
fn lines_follow_str_lines() {
    let text = "a\r\nb\n\nc\r";
    let expected: Vec<Vec<u8>> = text.lines().map(|l| l.as_bytes().to_vec()).collect();
    assert_eq!(split_lines(text.as_bytes()), expected);
    assert!(split_lines(b"").is_empty());
    assert_eq!(split_lines(b"x\n"), vec![b"x".to_vec()]);
}
