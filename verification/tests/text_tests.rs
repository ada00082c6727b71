use realtyflow::text::{
    chars_of, contains_char, lowercase, push_decimal, push_signed_decimal, starts_with, text_equals,
    trimmed, trimmed_end_char,
};

#[test]
fn trimmed_agrees_with_std_trim() {
    let samples = [
        "",
        "   ",
        "  abc  ",
        "\t\n select 1 \r\n",
        "\u{3000}ФИО\u{a0}",
        "\u{2028}x\u{200b}",
        "a b",
        "\u{85}\u{1680}\u{205f}z\u{202f}",
    ];
    for s in samples {
        assert_eq!(trimmed(s), s.trim());
    }
}

#[test]
fn trimmed_end_char_agrees_with_std() {
    for s in ["select 1;;;", ";", "", "a;b;", ";;a"] {
        assert_eq!(trimmed_end_char(s, ';'), s.trim_end_matches(';'));
    }
}

#[test]
fn searching_helpers() {
    assert!(contains_char("a;b", ';'));
    assert!(!contains_char("ab", ';'));
    assert!(starts_with("select *", "select"));
    assert!(!starts_with("sel", "select"));
    assert!(text_equals("admin", "admin"));
    assert!(!text_equals("admin", "Admin"));
    assert_eq!(chars_of("жук"), vec!['ж', 'у', 'к']);
}

#[test]
fn decimal_text_matches_display() {
    for n in [0u64, 7, 10, 404, 18446744073709551615] {
        let mut s = String::new();
        push_decimal(&mut s, n);
        assert_eq!(s, n.to_string());
    }
    for n in [0i64, -1, 42, -9223372036854775808, 9223372036854775807] {
        let mut s = String::from("x");
        push_signed_decimal(&mut s, n);
        assert_eq!(s, format!("x{}", n));
    }
}

#[test]
fn lowercase_is_unicode_lowercase() {
    assert_eq!(lowercase("SELECT Дом"), "select дом");
}
