use kakitu_miner::difficulty::{
    is_acceptable, parse_difficulty, work_threshold, MAX_DIFFICULTY, MIN_DIFFICULTY,
    WORK_THRESHOLD,
};

#[test]
fn difficulty_constants() {
    assert_eq!(WORK_THRESHOLD, 0xfffff00000000000);
    assert_eq!(MIN_DIFFICULTY, 0xffffe00000000000);
    assert_eq!(MAX_DIFFICULTY, 0xfffff80000000000);
}

#[test]
fn difficulty_is_read_in_hexadecimal() {
    assert_eq!(parse_difficulty("fffff00000000000"), Some(0xfffff00000000000));
    assert_eq!(parse_difficulty("0xfffff00000000000"), Some(0xfffff00000000000));
    assert_eq!(parse_difficulty("0xFFFFf00000000000"), Some(0xfffff00000000000));
    assert_eq!(parse_difficulty("ff"), Some(255));
    assert_eq!(parse_difficulty("ffffffffffffffff"), Some(u64::MAX));
    assert_eq!(parse_difficulty("0"), Some(0));
}

#[test]
fn difficulty_may_repeat_its_prefix() {
    assert_eq!(parse_difficulty("0x0x1f"), Some(0x1f));
    assert_eq!(parse_difficulty("0x+1f"), Some(0x1f));
    assert_eq!(parse_difficulty("+1f"), Some(0x1f));
    assert_eq!(parse_difficulty("+0x1f"), None);
}

#[test]
fn unreadable_difficulties() {
    for s in ["", "0x", "+", "-1", "0X1f", "xyz", " ff", "ff ", "1_0", "10000000000000000", "f\u{e9}"] {
        assert_eq!(parse_difficulty(s), None, "{}", s);
    }
}

#[test]
fn long_runs_of_zeros_are_no_overflow() {
    assert_eq!(parse_difficulty("00000000000000000000000000000001"), Some(1));
}

#[test]
fn difficulty_agrees_with_the_standard_library() {
    let parts = ["", "0x", "0", "x", "+", "-", "f", "A", "9", "g", "ffffffffffffffff", "\u{df}"];
    for a in parts {
        for b in parts {
            for c in parts {
                let s = format!("{}{}{}", a, b, c);
                let expected = u64::from_str_radix(s.trim_start_matches("0x"), 16).ok();
                assert_eq!(parse_difficulty(&s), expected, "{}", s);
            }
        }
    }
}

#[test]
fn difficulty_written_out_is_read_back() {
    for t in [0, 1, 0x123456789abcdef, MIN_DIFFICULTY, WORK_THRESHOLD, MAX_DIFFICULTY, u64::MAX] {
        assert_eq!(parse_difficulty(&format!("{:016x}", t)), Some(t));
        assert_eq!(parse_difficulty(&format!("0x{:016x}", t)), Some(t));
    }
}

#[test]
fn missing_or_unreadable_difficulty_is_the_default() {
    assert_eq!(work_threshold(&None), WORK_THRESHOLD);
    assert_eq!(work_threshold(&Some("hard".to_string())), WORK_THRESHOLD);
    assert_eq!(work_threshold(&Some("0xffffe80000000000".to_string())), 0xffffe80000000000);
    assert_eq!(work_threshold(&Some("5".to_string())), 5);
}

#[test]
fn bounds_are_included() {
    assert!(is_acceptable(MIN_DIFFICULTY));
    assert!(is_acceptable(MAX_DIFFICULTY));
    assert!(is_acceptable(WORK_THRESHOLD));
    assert!(!is_acceptable(MIN_DIFFICULTY - 1));
    assert!(!is_acceptable(MAX_DIFFICULTY + 1));
    assert!(!is_acceptable(0));
    assert!(!is_acceptable(u64::MAX));
}
