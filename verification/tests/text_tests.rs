use frogbot::text::push_i64_dec;
use frogbot::text::push_u64_dec;
use frogbot::text::str_eq;

#[test]
fn decimal_rendering_unsigned() {
    let cases: Vec<(u64, &str)> = vec![
        (0, "0"),
        (7, "7"),
        (10, "10"),
        (12345, "12345"),
        (18446744073709551615, "18446744073709551615"),
    ];
    for (n, expect) in cases {
        let mut s = String::new();
        push_u64_dec(&mut s, n);
        assert_eq!(s, expect);
    }
}

#[test]
fn decimal_rendering_signed() {
    let cases: Vec<(i64, &str)> = vec![
        (0, "0"),
        (42, "42"),
        (-1, "-1"),
        (-9223372036854775808, "-9223372036854775808"),
        (9223372036854775807, "9223372036854775807"),
    ];
    for (n, expect) in cases {
        let mut s = String::new();
        push_i64_dec(&mut s, n);
        assert_eq!(s, expect);
    }
}

#[test]
fn string_equality_by_characters() {
    assert!(str_eq("", ""));
    assert!(str_eq("abc", "abc"));
    assert!(!str_eq("abc", "abd"));
    assert!(!str_eq("abc", "ab"));
    assert!(str_eq("\u{1F438}", "\u{1F438}"));
    assert!(!str_eq("\u{1F438}", "f"));
}
