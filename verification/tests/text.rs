use srss::text::bytes_contain;
use srss::text::bytes_le;
use srss::text::contains;
use srss::text::decimal_string;
use srss::text::str_le;

const WORDS: [&str; 12] =
    ["", "a", "A", "ab", "abc", "b", "Zeta", "alpha", "\u{e9}t\u{e9}", "\u{4e2d}", "10", "9"];

#[test]
fn the_order_of_texts_is_that_of_str() {
    for a in WORDS {
        for b in WORDS {
            assert_eq!(str_le(a, b), a <= b, "{:?} against {:?}", a, b);
        }
    }
}

#[test]
fn a_prefix_comes_first() {
    assert!(str_le("ab", "abc"));
    assert!(!str_le("abc", "ab"));
    assert!(str_le("", ""));
}

#[test]
fn bytes_are_ordered_by_the_first_that_differs() {
    assert!(bytes_le(&[1, 2, 3], &[1, 3]));
    assert!(!bytes_le(&[1, 3], &[1, 2, 3]));
    assert!(bytes_le(&[], &[0]));
    assert!(bytes_le(&[5], &[5]));
}

#[test]
fn containment_is_that_of_str() {
    for a in WORDS {
        for b in WORDS {
            assert_eq!(contains(a, b), a.contains(b), "{:?} in {:?}", b, a);
        }
    }
}

#[test]
fn a_month_is_found_inside_a_date() {
    assert!(contains("2021-04-17", "2021-04"));
    assert!(!contains("2021-05-17", "2021-04"));
    assert!(contains("2021-04", "2021-04"));
    assert!(!contains("2021-0", "2021-04"));
    assert!(contains("anything", ""));
    assert!(contains("", ""));
}

#[test]
fn bytes_are_found_at_the_end_too() {
    assert!(bytes_contain(&[1, 2, 3], &[2, 3]));
    assert!(bytes_contain(&[1, 2, 3], &[3]));
    assert!(!bytes_contain(&[1, 2, 3], &[3, 4]));
    assert!(!bytes_contain(&[1, 2], &[1, 2, 3]));
}

#[test]
fn numbers_are_written_in_decimal() {
    assert_eq!(decimal_string(0), "0");
    assert_eq!(decimal_string(7), "7");
    assert_eq!(decimal_string(9), "9");
    assert_eq!(decimal_string(10), "10");
    assert_eq!(decimal_string(4444), "4444");
    assert_eq!(decimal_string(1_000_000), "1000000");
    assert_eq!(decimal_string(u64::MAX), "18446744073709551615");
}
