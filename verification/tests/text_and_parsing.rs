use usehid::accessibility::int_error_message;
use usehid::text::{
    chars_of, contains_chars, eq_ignore_ascii_case_chars, int_to_text, parse_i32_chars, trim_chars,
    IntErrorKind,
};

fn chars(s: &str) -> Vec<char> {
    s.chars().collect()
}

const SAMPLES: &[&str] = &[
    "", "0", "7", "-7", "+7", "+", "-", "--1", "+-1", "12a", "a12", " 12", "12 ", "2147483647",
    "2147483648", "-2147483648", "-2147483649", "99999999999", "-99999999999", "0000123", "1_000",
    "١٢", "9999999999x", "-9999999999x", "+0", "-0",
];

#[test]
fn parse_i32_agrees_with_std() {
    for s in SAMPLES {
        let ours = parse_i32_chars(&chars(s));
        match s.parse::<i32>() {
            Ok(v) => assert_eq!(ours, Ok(v), "input {:?}", s),
            Err(e) => {
                let kind = ours.expect_err(&format!("input {:?} should fail", s));
                assert_eq!(int_error_message(kind), e.to_string(), "input {:?}", s);
            }
        }
    }
}

#[test]
fn parse_i32_error_kinds() {
    assert_eq!(parse_i32_chars(&chars("")), Err(IntErrorKind::Empty));
    assert_eq!(parse_i32_chars(&chars("-")), Err(IntErrorKind::InvalidDigit));
    assert_eq!(parse_i32_chars(&chars("2147483648")), Err(IntErrorKind::PosOverflow));
    assert_eq!(parse_i32_chars(&chars("-2147483649")), Err(IntErrorKind::NegOverflow));
    assert_eq!(parse_i32_chars(&chars("-2147483648")), Ok(i32::MIN));
}

#[test]
fn trim_agrees_with_std() {
    for s in ["", "  ", " a ", "\t\r\nx y\u{3000}", "\u{85}z\u{a0}", "no-space", "\u{200b}k"] {
        assert_eq!(trim_chars(&chars(s)), chars(s.trim()), "input {:?}", s);
    }
}

#[test]
fn ascii_case_comparison_agrees_with_std() {
    let pairs = [("AXButton", "axbutton"), ("abc", "abd"), ("Straße", "STRASSE"), ("", ""), ("a", "ab"), ("É", "é")];
    for (a, b) in pairs {
        assert_eq!(eq_ignore_ascii_case_chars(&chars(a), &chars(b)), a.eq_ignore_ascii_case(b), "{:?} {:?}", a, b);
    }
}

#[test]
fn substring_search_agrees_with_std() {
    let pairs = [("Submit form", "form"), ("Submit", "submit"), ("abc", ""), ("", "a"), ("aaab", "aab"), ("x", "xx")];
    for (h, n) in pairs {
        assert_eq!(contains_chars(&chars(h), &chars(n)), h.contains(n), "{:?} {:?}", h, n);
    }
}

#[test]
fn decimal_text_agrees_with_display() {
    for v in [0i64, 7, -7, 10, 1234567890, i64::MAX, i64::MIN, -1, 100] {
        assert_eq!(int_to_text(v), v.to_string());
    }
}

#[test]
fn chars_of_keeps_unicode() {
    assert_eq!(chars_of("añ€"), vec!['a', 'ñ', '€']);
}
