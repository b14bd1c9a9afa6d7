use cloud_spanner::text::{
    before, cat3, decimal_text, eq_ignore_ascii_case, join, parse_i64, same_text,
    signed_decimal_text, split_nonblank, trim, trim_start, white_space,
};

const SAMPLES: [&str; 12] = [
    "",
    " ",
    "a",
    "  a b  ",
    "\t\r\n x\u{85}\u{a0}",
    "\u{3000}日本語\u{2003}",
    "Straße",
    "STRASSE",
    "abc",
    "abd",
    "ab",
    "\u{10ffff}z",
];

#[test]
fn white_space_is_what_std_says_it_is() {
    for code in 0..0x110000u32 {
        if let Some(c) = char::from_u32(code) {
            assert_eq!(white_space(c), c.is_whitespace(), "U+{code:04X}");
        }
    }
}

#[test]
fn trimming_agrees_with_std() {
    for s in SAMPLES {
        assert_eq!(trim(s), s.trim());
        assert_eq!(trim_start(s), s.trim_start());
        assert_eq!(trim(&trim(s)), trim(s));
    }
}

#[test]
fn comparing_agrees_with_std() {
    for a in SAMPLES {
        for b in SAMPLES {
            assert_eq!(same_text(a, b), a == b);
            assert_eq!(before(a, b), a < b);
            assert_eq!(eq_ignore_ascii_case(a, b), a.eq_ignore_ascii_case(b));
        }
    }
    assert!(eq_ignore_ascii_case("Table_Name", "TABLE_NAME"));
    assert!(!eq_ignore_ascii_case("[", "{"));
    // The Kelvin sign folds to `k` in Unicode, but not in ASCII.
    assert!(!eq_ignore_ascii_case("\u{212a}", "k"));
}

#[test]
fn the_order_of_texts_is_that_of_their_bytes() {
    // UTF-8 keeps the order of code points, which UTF-16 would not.
    assert!(before("\u{ffff}", "\u{10000}"));
    assert!(before("", "a"));
    assert!(!before("a", "a"));
    assert!(before("Z", "a"));
}

#[test]
fn numbers_are_written_in_decimal() {
    for n in [0, 9, 10, 99, 100, 3600, u64::MAX] {
        assert_eq!(decimal_text(n), n.to_string());
    }
    for n in [0, 7, -7, i64::MAX, i64::MIN] {
        assert_eq!(signed_decimal_text(n), n.to_string());
    }
}

#[test]
fn numbers_are_read_as_std_reads_them() {
    for s in [
        "", "-", "+", "0", "-0", "+0", "007", "12", "-12", "+12", "--1", "1-", " 1", "1 ", "1.0",
        "٣", "9223372036854775807", "9223372036854775808", "-9223372036854775808",
        "-9223372036854775809", "00000000000000000000000000000000000000000000000001",
        "99999999999999999999999999999999999999999999999999",
    ] {
        assert_eq!(parse_i64(s), s.parse::<i64>().ok(), "{s:?}");
    }
}

#[test]
fn lists_are_split_and_joined() {
    assert_eq!(split_nonblank("a, b ,,c", ','), vec!["a", "b", "c"]);
    assert!(split_nonblank("", ',').is_empty());
    assert!(split_nonblank(" , ,\t", ',').is_empty());
    assert_eq!(split_nonblank(",x", ','), vec!["x"]);
    let parts = |list: &[&str]| -> Vec<String> { list.iter().map(|s| s.to_string()).collect() };
    for list in [&[][..], &["a"], &["a", "b"], &["", "", "c"]] {
        assert_eq!(join(&parts(list), ", "), list.join(", "));
    }
    assert_eq!(cat3("a", "", "b"), "ab");
}
