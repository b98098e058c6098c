use asol_naki::text::{
    chars_of, find_exec, is_whitespace, lines, parse_u64, push_decimal, push_signed_decimal,
    str_contains, to_lowercase, trimmed,
};

const SAMPLES: &[&str] = &[
    "",
    " ",
    "abc",
    "  abc  ",
    "\t\n\x0b\x0c\r x y \u{85}",
    "\u{a0}\u{1680}mid\u{2000}\u{200a}\u{2028}\u{2029}\u{202f}\u{205f}\u{3000}",
    "\u{200b}zero width is not whitespace\u{200b}",
    "é ü ß",
];

#[test]
fn whitespace_matches_std() {
    for c in (0u32..0x3100).filter_map(char::from_u32) {
        assert_eq!(is_whitespace(c), c.is_whitespace(), "{:?}", c);
    }
}

#[test]
fn trimmed_matches_std_trim() {
    for s in SAMPLES {
        assert_eq!(trimmed(s), s.trim(), "{:?}", s);
    }
}

#[test]
fn parse_u64_matches_std_parse() {
    let inputs = [
        "", "+", "-", "-0", "0", "+0", "007", "+42", "42x", " 42", "18446744073709551615",
        "18446744073709551616", "99999999999999999999", "+18446744073709551615", "١٢", "1_000",
    ];
    for s in inputs.iter() {
        assert_eq!(parse_u64(s), s.parse::<u64>().ok(), "{:?}", s);
    }
}

#[test]
fn decimal_matches_to_string() {
    for n in [0u64, 1, 9, 10, 99, 100, 12345, u64::MAX] {
        let mut s = String::from("x=");
        push_decimal(&mut s, n);
        assert_eq!(s, format!("x={}", n));
    }
    for n in [0i64, -1, 7, -120, i64::MIN, i64::MAX] {
        let mut s = String::new();
        push_signed_decimal(&mut s, n);
        assert_eq!(s, n.to_string());
    }
}

#[test]
fn contains_and_find_match_std() {
    let hay = "<a><Battery>x</Battery>é<Battery>";
    for needle in ["<Battery>", "</Battery>", "é<", "zz", "<a><Battery>x</Battery>é<Battery>!"] {
        assert_eq!(str_contains(hay, needle), hay.contains(needle), "{:?}", needle);
    }
    let h = chars_of(hay);
    let n = chars_of("<Battery>");
    assert_eq!(find_exec(&h, &n, 0), Some(3));
    assert_eq!(find_exec(&h, &n, 4), Some(24));
    assert_eq!(find_exec(&h, &n, 25), None);
}

#[test]
fn lowercase_is_std_lowercase() {
    assert_eq!(to_lowercase("NVMe"), "nvme");
    assert_eq!(to_lowercase("ΑΣ"), "ΑΣ".to_lowercase());
}

#[test]
fn lines_match_std_lines() {
    for s in ["", "a", "a\n", "\n", "a\r\nb", "a\rb\r", "a\n\nb\r\n", "\r\n\r\n", "é\nü"] {
        let expected: Vec<String> = s.lines().map(|l| l.to_string()).collect();
        assert_eq!(lines(s), expected, "{:?}", s);
    }
}
