use kakitu_miner::endian::{le_u64, u64_be, u64_le};
use kakitu_miner::json::{pong_text, registration_text, result_text};
use kakitu_miner::text::{chars_of, decimal_text, same_text};

#[test]
fn decimal_numerals() {
    assert_eq!(decimal_text(0), "0");
    assert_eq!(decimal_text(7), "7");
    assert_eq!(decimal_text(10), "10");
    assert_eq!(decimal_text(60), "60");
    assert_eq!(decimal_text(1002), "1002");
    assert_eq!(decimal_text(u64::MAX), "18446744073709551615");
}

#[test]
fn texts_are_compared_whole() {
    assert!(same_text("work", "work"));
    assert!(!same_text("work", "works"));
    assert!(!same_text("Work", "work"));
    assert!(same_text("", ""));
    assert_eq!(chars_of("a\u{e9}z"), vec!['a', '\u{e9}', 'z']);
}

#[test]
fn numbers_as_bytes() {
    assert_eq!(u64_le(0x0102030405060708), vec![8, 7, 6, 5, 4, 3, 2, 1]);
    assert_eq!(u64_be(0x0102030405060708), vec![1, 2, 3, 4, 5, 6, 7, 8]);
    assert_eq!(le_u64(&[8, 7, 6, 5, 4, 3, 2, 1]), 0x0102030405060708);
    for n in [0, 1, 255, 256, u64::MAX, 0x8000000000000000] {
        assert_eq!(le_u64(&u64_le(n)), n);
        assert_eq!(u64_le(n), n.to_le_bytes().to_vec());
        assert_eq!(u64_be(n), n.to_be_bytes().to_vec());
    }
}

#[test]
fn registration_message_text() {
    assert_eq!(registration_text("kshs_1abc"), "{\"kshs_address\":\"kshs_1abc\"}");
    assert_eq!(
        registration_text("a\"b\\c\n\t\r\u{8}\u{c}\u{1}\u{1f}\u{7f}\u{e9}/"),
        "{\"kshs_address\":\"a\\\"b\\\\c\\n\\t\\r\\b\\f\\u0001\\u001f\u{7f}\u{e9}/\"}"
    );
}

#[test]
fn pong_message_text() {
    assert_eq!(pong_text(), "{\"action\":\"pong\"}");
}

#[test]
fn result_message_text() {
    assert_eq!(result_text("AB", "01"), "{\"hash\":\"AB\",\"work\":\"01\"}");
    assert_eq!(result_text("", ""), "{\"hash\":\"\",\"work\":\"\"}");
}

#[test]
fn messages_are_read_back() {
    for text in ["", "plain", "q\"uote", "\\", "\u{0}\u{1f}", "\u{1f600}", "\",\"work\":\""] {
        let value: serde_json::Value = serde_json::from_str(&registration_text(text)).unwrap();
        assert_eq!(value["kshs_address"], text);
        let value: serde_json::Value = serde_json::from_str(&result_text(text, "w")).unwrap();
        assert_eq!(value["hash"], text);
        assert_eq!(value["work"], "w");
    }
}
