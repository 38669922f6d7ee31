use minigrep::{id_card_valid, search_in_file_contents_sync, MatchResult, PatternRule, Validator};

const BODY: &str = "11010119900307047";

fn with_trailer(body: &str, last: u8) -> Vec<u8> {
    let mut v = body.as_bytes().to_vec();
    v.push(last);
    v
}

fn checksum(body: &[u8]) -> u32 {
    let weights = [7u32, 9, 10, 5, 8, 4, 2, 1, 6, 3, 7, 9, 10, 5, 8, 4, 2];
    let sum: u32 = body.iter().zip(weights.iter()).map(|(d, w)| (*d - b'0') as u32 * w).sum();
    (12 - sum % 11) % 11
}

#[test]
fn id_checksum_digit_accepted() {
    assert_eq!(checksum(BODY.as_bytes()), 6);
    assert!(id_card_valid(&with_trailer(BODY, b'6')));
}

#[test]
fn id_other_trailers_rejected() {
    for last in 0u8..=255 {
        if last == b'6' {
            continue;
        }
        assert!(!id_card_valid(&with_trailer(BODY, last)), "trailer {}", last);
    }
}

#[test]
fn id_checksum_ten_takes_x() {
    let mut found = false;
    for d in b'0'..=b'9' {
        let mut body = BODY.as_bytes().to_vec();
        body[16] = d;
        if checksum(&body) == 10 {
            let body = String::from_utf8(body).unwrap();
            assert!(id_card_valid(&with_trailer(&body, b'X')));
            assert!(id_card_valid(&with_trailer(&body, b'x')));
            assert!(!id_card_valid(&with_trailer(&body, b'0')));
            assert!(!id_card_valid(&with_trailer(&body, b'1')));
            found = true;
        }
    }
    assert!(found);
}

#[test]
fn id_implausible_dates_rejected() {
    // year 1899
    assert!(!id_card_valid(b"110101189903070470"));
    // month 13
    let mut v = with_trailer(BODY, b'6');
    v[10] = b'1';
    v[11] = b'3';
    assert!(!id_card_valid(&v));
    // day 32
    let mut v = with_trailer(BODY, b'6');
    v[12] = b'3';
    v[13] = b'2';
    assert!(!id_card_valid(&v));
}

#[test]
fn id_wrong_length_or_letters_rejected() {
    assert!(!id_card_valid(b"1101011990030704"));
    assert!(!id_card_valid(b"1101011990030704766"));
    assert!(!id_card_valid(b"11010119900307A476"));
}

#[test]
fn id_rule_reports_only_valid_numbers() {
    let rules = vec![PatternRule {
        pattern: r"(?<!\d)(\d{17}[Xx]|\d{18})(?!\d)".to_string(),
        validator: Validator::IdChecksum,
        enabled: true,
    }];
    let text = "id 110101199003070476 ok\nid 110101199003070477 bad\n";
    let mut res: Vec<MatchResult> = Vec::new();
    search_in_file_contents_sync(&mut res, &rules, text, "ids.log");
    assert_eq!(res.len(), 1);
    assert_eq!(res[0].matched_text, "110101199003070476");
    assert_eq!(res[0].line_number, "1");
    assert_eq!(res[0].file_name, "ids.log");
    assert_eq!(res[0].origin_text, "\r\nid 110101199003070476 ok\r\nid 110101199003070477 bad");
}
