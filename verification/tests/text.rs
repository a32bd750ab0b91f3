use opra_statistical_profiler::sorting::stable_sort;
use opra_statistical_profiler::text::{
    is_white_space, parse_digits, push_decimal, push_digit, str_before, trim, trim_end,
};

#[test]
fn trimming_agrees_with_the_standard_library() {
    for s in ["", " ", "a", " a b \t\n", "\u{a0}x\u{3000}", "é \u{2028}", "\u{200b}a\u{200b}"] {
        assert_eq!(trim(s), s.trim());
        assert_eq!(trim_end(s), s.trim_end());
    }
}

#[test]
fn white_space_agrees_with_the_standard_library() {
    for c in (0..0x11_0000).filter_map(char::from_u32) {
        assert_eq!(is_white_space(c), c.is_whitespace(), "{:?}", c);
    }
}

#[test]
fn digits_alone_are_numbers() {
    let texts = [
        "", "0", "7", "007", "+", "-", "++1", "1a", " 1", "99", "18446744073709551615",
        "18446744073709551616", "99999999999999999999999",
    ];
    for s in texts {
        assert_eq!(parse_digits(s.as_bytes(), 0, s.len()), s.parse::<u64>().ok(), "{}", s);
    }
    for s in ["+5", "-5", "-0", "+-1"] {
        assert_eq!(parse_digits(s.as_bytes(), 0, s.len()), None, "{}", s);
    }
    assert_eq!(parse_digits(b"ab12cd", 2, 4), Some(12));
}

#[test]
fn decimals_are_padded() {
    for (n, width) in [(0u64, 0u64), (0, 1), (5, 2), (12, 2), (123, 2), (7, 4), (u64::MAX, 3)] {
        let mut s = String::from("x");
        push_decimal(&mut s, n, width);
        assert_eq!(s, format!("x{:0w$}", n, w = width as usize));
    }
    let mut s = String::new();
    for d in 0..10 {
        push_digit(&mut s, d);
    }
    assert_eq!(s, "0123456789");
}

#[test]
fn texts_are_ordered_as_the_standard_library_orders_them() {
    let texts = ["", "a", "b", "ab", "2025-11-14", "2025-11-15", "é", "z"];
    for a in texts {
        for b in texts {
            assert_eq!(str_before(a, b), a < b, "{} {}", a, b);
        }
    }
}

#[test]
fn sorting_is_stable() {
    let items = vec![(3, 'a'), (1, 'b'), (3, 'c'), (2, 'd'), (1, 'e')];
    assert_eq!(
        stable_sort(items),
        vec![(1, 'b'), (1, 'e'), (2, 'd'), (3, 'a'), (3, 'c')]
    );
    assert!(stable_sort(Vec::<(i64, u8)>::new()).is_empty());
    assert_eq!(stable_sort(vec![(i64::MAX, 1), (i64::MIN, 2)]), vec![(i64::MIN, 2), (i64::MAX, 1)]);
}
