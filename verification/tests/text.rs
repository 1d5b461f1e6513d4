use larql_backend::text::{
    blank, count_words, decimal_string, join, parse_u64, same_text, to_one_line, trimmed,
    white_space,
};

#[test]
fn white_space_is_that_of_the_standard_library() {
    for code in 0..=0x10ffff_u32 {
        if let Some(c) = char::from_u32(code) {
            assert_eq!(white_space(c), c.is_whitespace(), "{code:x}");
        }
    }
}

#[test]
fn trimming_and_words_agree_with_the_standard_library() {
    for s in ["", " ", "a", " a b\t", "\u{3000}x\u{2003}\ny", "no_space", "\r\n a  b\r\n", "é ü"] {
        assert_eq!(trimmed(s), s.trim());
        assert_eq!(blank(s), s.trim().is_empty());
        assert_eq!(count_words(s), s.split_whitespace().count());
        assert_eq!(to_one_line(s), s.replace('\n', " "));
        assert!(same_text(s, s));
    }
    assert_eq!(trimmed("\t a b \n"), "a b");
    assert_eq!(count_words("one two  three\n"), 3);
    assert!(!same_text("ab", "ac"));
    assert!(!same_text("ab", "abc"));
}

#[test]
fn joining_puts_separators_between_parts() {
    let parts = |list: &[&str]| list.iter().map(|s| s.to_string()).collect::<Vec<String>>();
    assert_eq!(join(&parts(&[]), ", "), "");
    assert_eq!(join(&parts(&["a"]), ", "), "a");
    assert_eq!(join(&parts(&["a", "", "b"]), ", "), "a, , b");
}

#[test]
fn numbers_are_read_as_the_standard_library_reads_them() {
    for s in [
        "", "+", "-", "0", "007", "+5", "++5", "-5", "5 ", " 5", "1_000", "12a", "٣",
        "18446744073709551615", "18446744073709551616", "99999999999999999999999",
        "000000000000000000000000000001",
    ] {
        assert_eq!(parse_u64(s), s.parse::<u64>().ok(), "{s:?}");
    }
    assert_eq!(parse_u64("+42"), Some(42));
}

#[test]
fn numbers_read_back_as_they_were_written() {
    for n in [0, 7, 10, 120, 999, 1000, u64::MAX] {
        assert_eq!(decimal_string(n), n.to_string());
        assert_eq!(parse_u64(&decimal_string(n)), Some(n));
    }
}

#[test]
fn words_add_up_over_white_space() {
    let (a, b) = ("one two\n", "three");
    assert_eq!(count_words(&format!("{a}{b}")), count_words(a) + count_words(b));
    assert_eq!(count_words("onetwo"), 1);
}
