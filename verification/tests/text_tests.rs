use beads_workers::text::{
    find_exec, lines_exec, parse_unsigned_exec, path_join_exec, push_fixed, to_decimal, trim_exec, words_exec,
};

fn fixed(num: u128, den: u128, places: u32) -> String {
    let mut s = String::new();
    push_fixed(&mut s, num, den, places);
    s
}

/// Fractions whose value a double holds exactly, or that lie far from a
/// rounding tie, display as a double of their value does.
#[test]
fn test_fixed_matches_float_display() {
    let cases: [(u128, u128); 12] = [(2, 3), (1, 8), (1, 16), (5, 2), (7, 2), (1, 3), (100, 7), (0, 5), (999, 1000), (1, 1), (3, 64), (10001, 20000)];
    for (n, d) in cases {
        for places in 0..=2u32 {
            let expected = match places {
                0 => format!("{:.0}", n as f64 / d as f64),
                1 => format!("{:.1}", n as f64 / d as f64),
                _ => format!("{:.2}", n as f64 / d as f64),
            };
            assert_eq!(fixed(n, d, places), expected, "{}/{} with {} places", n, d, places);
        }
    }
}

#[test]
fn test_decimal_and_parse() {
    assert_eq!(to_decimal(0), "0");
    assert_eq!(to_decimal(18446744073709551615), "18446744073709551615");
    assert_eq!(parse_unsigned_exec("+17", 100), Some(17));
    assert_eq!(parse_unsigned_exec("101", 100), None);
    assert_eq!(parse_unsigned_exec("", 100), None);
    assert_eq!(parse_unsigned_exec("+", 100), None);
    assert_eq!(parse_unsigned_exec("1_0", 100), None);
    for n in [0u64, 9, 10, 12345, u64::MAX] {
        assert_eq!(parse_unsigned_exec(&to_decimal(n), u64::MAX), Some(n));
    }
}

#[test]
fn test_string_helpers() {
    assert_eq!(trim_exec("\t a b \u{3000}\n"), "a b");
    assert_eq!(trim_exec("   "), "");
    assert_eq!(words_exec(" a  b\tc "), vec!["a", "b", "c"]);
    assert_eq!(lines_exec("a\r\nb\n\nc\r"), vec!["a", "b", "", "c\r"]);
    assert_eq!(lines_exec("x\n"), vec!["x"]);
    assert_eq!(find_exec("abcabc", "ca"), Some(2));
    assert_eq!(find_exec("abc", "x"), None);
    assert_eq!(path_join_exec("/a/", "b"), "/a/b");
    assert_eq!(path_join_exec("", "b"), "b");
    assert_eq!(path_join_exec("/a", "b"), "/a/b");
}

#[test]
fn test_fixed_rounds_exact_ties_to_even() {
    assert_eq!(fixed(3, 40, 2), "0.08");
    assert_eq!(fixed(1, 40, 2), "0.02");
    assert_eq!(fixed(5, 2, 0), "2");
    assert_eq!(fixed(7, 2, 0), "4");
    assert_eq!(fixed(123456789, 1000, 1), "123456.8");
}
