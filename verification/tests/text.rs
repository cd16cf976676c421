use pixel_paint_studio::text::{decimal_chars, parse_usize_chars, short_label, str_chars};

fn chars(s: &str) -> Vec<char> {
    s.chars().collect()
}

#[test]
fn decimal_chars_writes_digits() {
    assert_eq!(decimal_chars(0), chars("0"));
    assert_eq!(decimal_chars(7), chars("7"));
    assert_eq!(decimal_chars(64), chars("64"));
    assert_eq!(decimal_chars(256), chars("256"));
    assert_eq!(decimal_chars(usize::MAX as u64), chars(&usize::MAX.to_string()));
    assert_eq!(decimal_chars(u64::MAX), chars(&u64::MAX.to_string()));
}

#[test]
fn parse_accepts_digits_and_a_plus() {
    assert_eq!(parse_usize_chars(&chars("42")), Some(42));
    assert_eq!(parse_usize_chars(&chars("+42")), Some(42));
    assert_eq!(parse_usize_chars(&chars("007")), Some(7));
    assert_eq!(parse_usize_chars(&chars("0")), Some(0));
}

#[test]
fn parse_rejects_what_usize_parsing_rejects() {
    for text in ["", "+", "-1", "4a", " 4", "4 ", "++4", "1_000"] {
        assert_eq!(parse_usize_chars(&chars(text)), None, "{text:?}");
        assert!(text.parse::<usize>().is_err());
    }
    let too_big = format!("{}0", usize::MAX);
    assert_eq!(parse_usize_chars(&chars(&too_big)), None);
    let just_over = "18446744073709551616";
    assert_eq!(parse_usize_chars(&chars(just_over)), just_over.parse::<usize>().ok());
}

#[test]
fn parse_reads_back_decimal() {
    for n in [0usize, 1, 9, 10, 99, 100, 255, 65535, usize::MAX] {
        assert_eq!(parse_usize_chars(&decimal_chars(n as u64)), Some(n));
    }
}

#[test]
fn short_label_keeps_short_names() {
    assert_eq!(short_label("cat.png", 24), "cat.png");
    assert_eq!(short_label("exactly-ten", 11), "exactly-ten");
}

#[test]
fn short_label_cuts_long_names() {
    assert_eq!(short_label("a-very-long-reference-photo-name.png", 24), "a-very-long-reference...");
    assert_eq!(short_label("abcdef", 2), "...");
    assert_eq!(short_label("ñandú-über-straße", 8), "ñandú...");
}

#[test]
fn str_chars_lists_characters() {
    assert_eq!(str_chars("Undo"), vec!['U', 'n', 'd', 'o']);
    assert_eq!(str_chars(""), Vec::<char>::new());
}
