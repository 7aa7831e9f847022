use fuzz_dqn::action_file::{actions_with_prefix, code_at, nums_from_csv, nums_from_records};
use fuzz_dqn::decimal::{dec_i64, parse_i64_bytes, starts_with};

#[test]
fn dec_i64_matches_to_string() {
    for n in [0i64, 7, 10, -1, -120, 101, 10203141, i64::MAX, i64::MIN] {
        assert_eq!(dec_i64(n), n.to_string().into_bytes());
    }
}

#[test]
fn parse_i64_bytes_matches_std() {
    let cases: [&str; 16] = [
        "", "+", "-", "+5", "-0", "007", "12a", " 1", "1 ", "-+1", "9223372036854775807",
        "9223372036854775808", "-9223372036854775808", "-9223372036854775809", "42", "99999999999999999999",
    ];
    for c in cases.iter() {
        assert_eq!(parse_i64_bytes(c.as_bytes()), c.parse::<i64>().ok(), "case {:?}", c);
    }
}

#[test]
fn parse_i64_bytes_exact_values() {
    assert_eq!(parse_i64_bytes(b"-9223372036854775808"), Some(i64::MIN));
    assert_eq!(parse_i64_bytes(b"+5"), Some(5));
    assert_eq!(parse_i64_bytes(b"9223372036854775808"), None);
    assert_eq!(parse_i64_bytes(b"-"), None);
}

#[test]
fn starts_with_decides_prefix() {
    assert!(starts_with(&b"10101011".to_vec(), &b"101".to_vec()));
    assert!(!starts_with(&b"10201011".to_vec(), &b"101".to_vec()));
    assert!(!starts_with(&b"10".to_vec(), &b"101".to_vec()));
    assert!(starts_with(&b"10".to_vec(), &Vec::new()));
}

#[test]
fn nums_from_csv_skips_header_and_non_numbers() {
    let data = b"code,name,extra\n10101011,abc,-5\n42101011,+7,x\n";
    assert_eq!(nums_from_csv(data).unwrap(), vec![10101011, -5, 42101011, 7]);
}

#[test]
fn nums_from_csv_header_only() {
    assert_eq!(nums_from_csv(b"10101011\n").unwrap(), Vec::<i64>::new());
}

#[test]
fn nums_from_csv_rejects_unequal_records() {
    assert!(nums_from_csv(b"a,b\n1\n").is_err());
}

#[test]
fn nums_from_csv_rejects_invalid_utf8() {
    assert!(nums_from_csv(b"a\n\xff\xfe\n").is_err());
}

#[test]
fn actions_with_prefix_keeps_order() {
    let nums = vec![10101011, 42101011, 10299999, 10100001, -101, 101];
    assert_eq!(actions_with_prefix(&nums, 101), vec![10101011, 10100001, 101]);
    assert_eq!(actions_with_prefix(&nums, -1), vec![-101]);
    assert_eq!(actions_with_prefix(&nums, 5), Vec::<i64>::new());
}

#[test]
fn code_at_indexes_the_codes_of_the_action() {
    let nums = vec![10101011, 42101011, 10299999, 10100001];
    assert_eq!(code_at(&nums, 101, 0), 10101011);
    assert_eq!(code_at(&nums, 101, 1), 10100001);
    assert_eq!(code_at(&nums, 102, 0), 10299999);
}

#[test]
fn nums_from_records_reads_fields_in_order() {
    let records = vec![
        vec![b"12".to_vec(), b"x".to_vec()],
        vec![b"-3".to_vec(), b"+4".to_vec()],
    ];
    assert_eq!(nums_from_records(&records), vec![12, -3, 4]);
}
