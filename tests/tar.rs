use minigrep::{parse_size_field, tar_entries, tar_padding};

fn header(name: &str, size: usize) -> Vec<u8> {
    let mut h = vec![0u8; 512];
    h[..name.len()].copy_from_slice(name.as_bytes());
    let size_text = format!("{:011o}", size);
    h[124..135].copy_from_slice(size_text.as_bytes());
    h
}

fn entry(name: &str, data: &[u8]) -> Vec<u8> {
    let mut v = header(name, data.len());
    v.extend_from_slice(data);
    let pad = (512 - data.len() % 512) % 512;
    v.extend(std::iter::repeat(0u8).take(pad));
    v
}

#[test]
fn tar_padding_values() {
    assert_eq!(tar_padding(0), 0);
    assert_eq!(tar_padding(513), 511);
    assert_eq!(tar_padding(512), 0);
    assert_eq!(tar_padding(1), 511);
    assert_eq!(tar_padding(1024), 0);
}

#[test]
fn tar_empty_entry_has_no_padding() {
    let mut archive = header("empty.txt", 0);
    archive.extend(entry("next.txt", b"hello"));
    archive.extend(vec![0u8; 1024]);
    let entries = tar_entries(&archive);
    assert_eq!(entries.len(), 2);
    assert_eq!(entries[0].name, b"empty.txt".to_vec());
    assert_eq!(entries[0].data, Some(Vec::new()));
    assert_eq!(entries[1].name, b"next.txt".to_vec());
    assert_eq!(entries[1].data, Some(b"hello".to_vec()));
}

#[test]
fn tar_entry_of_513_bytes_skips_511() {
    let big = vec![b'a'; 513];
    let first = entry("big.txt", &big);
    assert_eq!(first.len(), 512 + 513 + 511);
    let mut archive = first;
    archive.extend(entry("after.txt", b"x"));
    let entries = tar_entries(&archive);
    assert_eq!(entries.len(), 2);
    assert_eq!(entries[0].data.as_ref().map(|d| d.len()), Some(513));
    assert_eq!(entries[1].name, b"after.txt".to_vec());
    assert_eq!(entries[1].data, Some(b"x".to_vec()));
}

#[test]
fn tar_stops_at_truncated_content() {
    let mut archive = entry("a.txt", b"abc");
    let mut cut = header("b.txt", 100);
    cut.extend_from_slice(&[b'z'; 10]);
    archive.extend(cut);
    let entries = tar_entries(&archive);
    assert_eq!(entries.len(), 2);
    assert_eq!(entries[0].name, b"a.txt".to_vec());
    assert_eq!(entries[0].data, Some(b"abc".to_vec()));
    assert_eq!(entries[1].name, b"b.txt".to_vec());
    assert_eq!(entries[1].data, None);
}

#[test]
fn tar_stops_at_empty_name_or_short_header() {
    assert!(tar_entries(&vec![0u8; 1024]).is_empty());
    assert!(tar_entries(&vec![b'a'; 100]).is_empty());
}

#[test]
fn tar_size_field_parsing() {
    assert_eq!(parse_size_field(b"00000001001\0"), 513);
    assert_eq!(parse_size_field(b"\0\0\0\0\0\0\0\0\0\0\0\0"), 0);
    assert_eq!(parse_size_field(b"0000000012 \0"), 0);
    assert_eq!(parse_size_field(b"+17\0\0\0\0\0\0\0\0\0"), 15);
    assert_eq!(parse_size_field(b"0000000009\0\0"), 0);
    assert_eq!(parse_size_field(b"777777777777777777777777"), 0);
}
