use response_recovery::text::{
    append_decimal, chars_of, contains, equals, find, lower, trim, trim_end, white_space,
};

const SAMPLES: [&str; 8] = [
    "",
    "   ",
    "plain",
    "  Padded \t\n",
    "\u{3000}\u{a0}Wide\u{2003}",
    "inner  space",
    "\u{1f600} \u{e9}A\u{c9} ",
    "\u{200b}not white space\u{feff}",
];

#[test]
fn white_space_is_that_of_char() {
    for code in 0..=0x10ffffu32 {
        if let Some(c) = char::from_u32(code) {
            assert_eq!(white_space(c), c.is_whitespace(), "{:x}", code);
        }
    }
}

#[test]
fn trimming_is_that_of_str() {
    for s in SAMPLES {
        assert_eq!(trim(s), s.trim());
        assert_eq!(trim_end(s), s.trim_end());
    }
}

#[test]
fn lower_case_is_ascii_lower_case() {
    for s in SAMPLES {
        let lowered: String = lower(s).into_iter().collect();
        assert_eq!(lowered, s.to_ascii_lowercase());
    }
    let lowered: String = lower("AZ@[az\u{c9}").into_iter().collect();
    assert_eq!(lowered, "az@[az\u{c9}");
}

#[test]
fn search_is_leftmost() {
    let s = chars_of("a\u{e9}bcbc");
    assert_eq!(find(&s, "bc"), Some(2));
    assert_eq!(find(&s, "c"), Some(3));
    assert_eq!(find(&s, ""), Some(0));
    assert_eq!(find(&s, "bcd"), None);
    assert!(contains(&s, "\u{e9}b"));
    assert!(!contains(&s, "longer than the text"));
    assert_eq!(find(&chars_of(""), ""), Some(0));
}

#[test]
fn equality_compares_all_characters() {
    let s = chars_of("stop");
    assert!(equals(&s, "stop"));
    assert!(!equals(&s, "sto"));
    assert!(!equals(&s, "stopp"));
    assert!(!equals(&s, "Stop"));
}

#[test]
fn numbers_are_written_in_base_ten() {
    for n in [0usize, 7, 10, 99, 100, 4096, 262144, usize::MAX] {
        let mut out = String::from("n=");
        append_decimal(&mut out, n);
        assert_eq!(out, format!("n={}", n));
    }
}
