use micron::errors::Code;
use micron::text::{int_to_string, parse_chars, push_decimal, string_chars, trimmed};

fn parse(s: &str) -> Option<isize> {
    parse_chars(&s.chars().collect())
}

#[test]
fn decimal_numerals() {
    for n in [0isize, 1, 9, 10, 11, 99, 100, 12345, -1, -10, -999, isize::MAX, isize::MIN] {
        assert_eq!(int_to_string(n), n.to_string());
    }
}

#[test]
fn push_decimal_appends() {
    let mut s = "n=".to_string();
    push_decimal(&mut s, 0);
    push_decimal(&mut s, 1203);
    push_decimal(&mut s, u128::MAX);
    assert_eq!(s, format!("n=01203{}", u128::MAX));
}

#[test]
fn integer_literals_read_like_the_standard_library() {
    let cases = [
        "0", "7", "-7", "+7", "007", "-0", "+0", "", "-", "+", "--1", "+-1", "1-", "1 ", " 1",
        "1.0", "0x10", "1e3", "１２", "9223372036854775807", "9223372036854775808",
        "-9223372036854775808", "-9223372036854775809", "2147483647", "2147483648",
        "-2147483648", "-2147483649", "00000000000000000000000000000001",
        "340282366920938463463374607431768211456",
    ];
    for s in cases {
        assert_eq!(parse(s), s.parse::<isize>().ok(), "{:?}", s);
    }
}

#[test]
fn numerals_survive_a_round_trip() {
    for n in [0isize, 5, -5, 120, -120, isize::MAX, isize::MIN] {
        assert_eq!(parse(&int_to_string(n)), Some(n));
    }
    for s in ["0", "123", "-123", "9000"] {
        assert_eq!(int_to_string(parse(s).unwrap()), s);
    }
}

#[test]
fn trimming_removes_ascii_whitespace_at_both_ends() {
    assert_eq!(trimmed("  a b \t\r\n"), "a b");
    assert_eq!(trimmed("\x0C\na\x0C"), "a");
    assert_eq!(trimmed(""), "");
    assert_eq!(trimmed(" \t "), "");
    assert_eq!(trimmed("x"), "x");
    assert_eq!(trimmed("\u{a0}x\u{2003}"), "\u{a0}x\u{2003}");
    assert_eq!(trimmed("\x0Bx"), "\x0Bx");
}

#[test]
fn strings_split_into_characters() {
    assert_eq!(string_chars("héllo"), vec!['h', 'é', 'l', 'l', 'o']);
    assert_eq!(string_chars(""), Vec::<char>::new());
}

#[test]
fn codes_show_with_an_e() {
    assert_eq!(Code::ErrCode(0).to_string(), "E0");
    assert_eq!(Code::ErrCode(201).to_string(), "E201");
    assert_eq!(Code::ErrCode(404).as_isize(), 404);
    assert_eq!(Code::ErrCode(usize::MAX).as_isize(), -1);
    assert_eq!(Code::ErrCode(7).clone(), Code::ErrCode(7));
}
