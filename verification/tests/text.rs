use cnr::text::{IntErrorKind, decimal_string, is_whitespace, parse_unsigned_chars, trimmed};

#[test]
fn whitespace_matches_std() {
    for c in (0u32..=0x10ffff).filter_map(char::from_u32) {
        assert_eq!(is_whitespace(c), c.is_whitespace(), "{:x}", c as u32);
    }
}

#[test]
fn trim_matches_std() {
    for s in ["", "  ", " a ", "\u{2003}b c\u{85}", "x", "\ta\tb\n"] {
        assert_eq!(trimmed(s), s.trim());
    }
}

#[test]
fn decimal_matches_display() {
    for n in [0u64, 7, 10, 99, 100, 12345, u64::MAX] {
        assert_eq!(decimal_string(n), n.to_string());
    }
}

#[test]
fn unsigned_parse_matches_std() {
    for s in ["", "+", "-", "0", "+12", "-3", "007", "18446744073709551615", "18446744073709551616", "1a", "a1", "99999999999999999999a"] {
        let chars: Vec<char> = s.chars().collect();
        let ours = parse_unsigned_chars(&chars, u64::MAX);
        match s.parse::<u64>() {
            Ok(v) => assert_eq!(ours, Ok(v), "{s}"),
            Err(e) => {
                let kind = match e.kind() {
                    std::num::IntErrorKind::Empty => IntErrorKind::Empty,
                    std::num::IntErrorKind::InvalidDigit => IntErrorKind::InvalidDigit,
                    std::num::IntErrorKind::PosOverflow => IntErrorKind::PosOverflow,
                    other => panic!("unexpected {other:?}"),
                };
                assert_eq!(ours, Err(kind), "{s}");
            }
        }
    }
}
