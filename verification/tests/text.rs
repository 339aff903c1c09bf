use gsm_supervisor::text::{
    base_name, chars_of, concat3, contains, decimal_string, is_lex_less, join_path,
    parse_digits, same_text, signed_decimal_string, starts_with, string_of, strip_bounds,
    to_ascii_lower, to_lowercase, trim, Strip,
};

#[test]
fn chars_round_trip_through_string() {
    let chars = chars_of("héllo wörld");
    assert_eq!(chars.len(), 11);
    assert_eq!(string_of(&chars), "héllo wörld");
}

#[test]
fn concat_joins_in_order() {
    assert_eq!(gsm_supervisor::text::concat("ab", "cd"), "abcd");
    assert_eq!(concat3("a", "", "c"), "ac");
}

#[test]
fn same_text_compares_contents() {
    assert!(same_text("abc", "abc"));
    assert!(!same_text("abc", "abd"));
    assert!(!same_text("abc", "ab"));
    assert!(same_text("", ""));
}

#[test]
fn trim_removes_surrounding_whitespace_only() {
    assert_eq!(trim("  12 34\t\n"), "12 34");
    assert_eq!(trim("\u{a0}x\u{2003}"), "x");
    assert_eq!(trim("   "), "");
    assert_eq!(trim(""), "");
    assert_eq!(trim("x"), "x");
}

#[test]
fn strip_bounds_of_quotes() {
    let chars = chars_of("\"\"a\"b\"");
    assert_eq!(strip_bounds(&chars, 0, chars.len(), Strip::Quotes), (2, 5));
    assert_eq!(strip_bounds(&chars, 0, chars.len(), Strip::Whitespace), (0, 6));
    assert_eq!(strip_bounds(&chars, 0, 2, Strip::Quotes), (2, 2));
}

#[test]
fn decimal_notation_of_numbers() {
    assert_eq!(decimal_string(0), "0");
    assert_eq!(decimal_string(7), "7");
    assert_eq!(decimal_string(2278520), "2278520");
    assert_eq!(decimal_string(u64::MAX), "18446744073709551615");
    assert_eq!(signed_decimal_string(-1), "-1");
    assert_eq!(signed_decimal_string(i32::MIN), "-2147483648");
    assert_eq!(signed_decimal_string(i32::MAX), "2147483647");
    assert_eq!(signed_decimal_string(0), "0");
}

#[test]
fn digits_are_read_up_to_the_limit() {
    let chars = chars_of("x0042y");
    assert_eq!(parse_digits(&chars, 1, 5, 100), Some(42));
    assert_eq!(parse_digits(&chars, 1, 5, 41), None);
    assert_eq!(parse_digits(&chars, 0, 5, 100), None);
    assert_eq!(parse_digits(&chars, 1, 6, 100), None);
    assert_eq!(parse_digits(&chars, 1, 1, 100), None);
    let big = chars_of("99999999999999999999999999");
    assert_eq!(parse_digits(&big, 0, big.len(), u64::MAX / 16), None);
}

#[test]
fn decimal_notation_reads_back() {
    for n in [0u64, 1, 9, 10, 99, 100, 12345, 2147483647] {
        let text = decimal_string(n);
        let chars = chars_of(&text);
        assert_eq!(parse_digits(&chars, 0, chars.len(), u64::MAX / 16), Some(n));
    }
}

#[test]
fn ascii_lower_case_leaves_other_characters() {
    assert_eq!(to_ascii_lower('A'), 'a');
    assert_eq!(to_ascii_lower('Z'), 'z');
    assert_eq!(to_ascii_lower('a'), 'a');
    assert_eq!(to_ascii_lower('@'), '@');
    assert_eq!(to_ascii_lower('['), '[');
    assert_eq!(to_ascii_lower('É'), 'É');
    assert_eq!(to_lowercase("Enshrouded_Server.EXE"), "enshrouded_server.exe");
    assert_eq!(to_lowercase("ÄBC"), "Äbc");
}

#[test]
fn substrings_and_prefixes() {
    assert!(contains("a WARNING here", "WARNING"));
    assert!(contains("WARNING", "WARNING"));
    assert!(!contains("WARNIN", "WARNING"));
    assert!(!contains("warning", "WARNING"));
    assert!(contains("abc", ""));
    assert!(contains("", ""));
    assert!(contains("xxab", "ab"));
    assert!(starts_with("Proton 9.0", "Proton"));
    assert!(!starts_with("GE-Proton", "Proton"));
    assert!(!starts_with("Pro", "Proton"));
    assert!(starts_with("abc", ""));
}

#[test]
fn lexicographic_order_is_that_of_str() {
    let pairs = [
        ("", "a"),
        ("a", "b"),
        ("Proton 8.0", "Proton 9.0"),
        ("Proton 9.0", "Proton 9.0 (Beta)"),
        ("Proton 10", "Proton 9"),
        ("Z", "a"),
        ("a", "é"),
    ];
    for (a, b) in pairs {
        assert!(a < b);
        assert!(is_lex_less(&chars_of(a), &chars_of(b)));
        assert!(!is_lex_less(&chars_of(b), &chars_of(a)));
        assert!(!is_lex_less(&chars_of(a), &chars_of(a)));
    }
}

#[test]
fn paths_are_joined_with_one_separator() {
    assert_eq!(join_path("/home/steam/server", "logs"), "/home/steam/server/logs");
    assert_eq!(join_path("/home/steam/server/", "logs"), "/home/steam/server/logs");
    assert_eq!(join_path("", "logs"), "logs");
    assert_eq!(join_path("/", "logs"), "/logs");
    assert_eq!(join_path(".", "instance.pid"), "./instance.pid");
}

#[test]
fn base_name_is_the_last_component() {
    assert_eq!(base_name("/opt/game/server.exe"), "server.exe");
    assert_eq!(base_name("server.exe"), "server.exe");
    assert_eq!(base_name("/opt/game/"), "");
    assert_eq!(base_name(""), "");
    assert_eq!(base_name("a/b/.."), "..");
}
