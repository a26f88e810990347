//! Tests of the character-level helpers and the calendar model.

use import_ynab::dates::{format_date, parse_date, Date};
use import_ynab::text::{
    find_str, i64_to_string, milli_to_string, split_first_word, str_eq_ignore_case,
    trim_prefix_repeated, u64_to_string,
};

#[test]
fn case_insensitive_currency_comparison() {
    assert!(str_eq_ignore_case("EUR", "eur"));
    assert!(str_eq_ignore_case("UsD", "usd"));
    assert!(!str_eq_ignore_case("EUR", "EURO"));
    assert!(!str_eq_ignore_case("EUR", "USD"));
    assert!(str_eq_ignore_case("", ""));
}

#[test]
fn substring_search_finds_the_first_hit() {
    assert_eq!(find_str("abcabc", "bc", 0), Some(1));
    assert_eq!(find_str("abcabc", "bc", 2), Some(4));
    assert_eq!(find_str("abcabc", "zz", 0), None);
    assert_eq!(find_str("abc", "", 1), Some(1));
    assert_eq!(find_str("abc", "abcd", 0), None);
}

#[test]
fn numbers_format_in_decimal() {
    assert_eq!(u64_to_string(0), "0");
    assert_eq!(u64_to_string(907), "907");
    assert_eq!(i64_to_string(-45), "-45");
    assert_eq!(i64_to_string(i64::MIN), "-9223372036854775808");
    assert_eq!(milli_to_string(50000), "50.000");
    assert_eq!(milli_to_string(-1234), "-1.234");
    assert_eq!(milli_to_string(7), "0.007");
}

#[test]
fn words_split_on_whitespace() {
    assert_eq!(split_first_word("TESCO STORES").as_deref(), Some("TESCO"));
    assert_eq!(split_first_word("  padded out").as_deref(), Some("padded"));
    assert_eq!(split_first_word("single").as_deref(), Some("single"));
    assert_eq!(split_first_word("   "), None);
    assert_eq!(split_first_word(""), None);
}

#[test]
fn words_split_on_unicode_whitespace_too() {
    // no-break space, ideographic space, and line separator all split,
    // exactly as the standard library's whitespace split does
    assert_eq!(split_first_word("\u{A0}CAF\u{C9} BAR").as_deref(), Some("CAF\u{C9}"));
    assert_eq!(split_first_word("a\u{3000}b").as_deref(), Some("a"));
    assert_eq!(split_first_word("one\u{2028}two").as_deref(), Some("one"));
    assert_eq!(split_first_word("\u{2009}\u{200A}"), None);
    assert_eq!(
        "\u{A0}CAF\u{C9} BAR".split_whitespace().next(),
        split_first_word("\u{A0}CAF\u{C9} BAR").as_deref()
    );
}

#[test]
fn repeated_prefixes_trim_away() {
    assert_eq!(trim_prefix_repeated("Payment from Jane", "Payment from "), "Jane");
    assert_eq!(
        trim_prefix_repeated("Payment from Payment from Jane", "Payment from "),
        "Jane"
    );
    assert_eq!(trim_prefix_repeated("no prefix", "Payment from "), "no prefix");
    assert_eq!(trim_prefix_repeated("", "x"), "");
}

#[test]
fn dates_parse_and_format() {
    let d = parse_date("2024-01-15").unwrap();
    assert_eq!(d, Date { year: 2024, month: 1, day: 15 });
    assert_eq!(format_date(&d), "2024-01-15");
    assert_eq!(format_date(&Date { year: 987, month: 6, day: 4 }), "0987-06-04");
    assert_eq!(parse_date("2024-02-29").unwrap().day, 29);
    assert_eq!(parse_date("2023-02-29"), None);
    assert_eq!(parse_date("2024-13-01"), None);
    assert_eq!(parse_date("2024-00-10"), None);
    assert_eq!(parse_date("24-01-15"), None);
    assert_eq!(parse_date("2024/01/15"), None);
    assert_eq!(parse_date(""), None);
}

#[test]
fn day_numbers_step_by_one_across_boundaries() {
    let jan31 = Date { year: 2024, month: 1, day: 31 }.day_number();
    let feb1 = Date { year: 2024, month: 2, day: 1 }.day_number();
    assert_eq!(feb1, jan31 + 1);
    let feb29 = Date { year: 2024, month: 2, day: 29 }.day_number();
    let mar1 = Date { year: 2024, month: 3, day: 1 }.day_number();
    assert_eq!(mar1, feb29 + 1);
    let dec31 = Date { year: 2023, month: 12, day: 31 }.day_number();
    let jan1 = Date { year: 2024, month: 1, day: 1 }.day_number();
    assert_eq!(jan1, dec31 + 1);
}
