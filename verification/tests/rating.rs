use restaurant_reviews::rating::{
    in_range, parse_i32, parse_rating, rating_text, MAX_RATING, MIN_RATING, NO_RATING,
};

#[test]
fn a_digit_in_range_is_its_rating() {
    assert_eq!(parse_rating("5"), 5);
    assert!(in_range(parse_rating("5")));
}

#[test]
fn text_that_is_no_number_is_no_rating() {
    assert_eq!(parse_rating("abc"), -1);
    assert_eq!(parse_rating("abc"), NO_RATING);
    assert!(!in_range(parse_rating("abc")));
}

#[test]
fn a_number_out_of_range_is_kept() {
    assert_eq!(parse_rating("7"), 7);
    assert!(!in_range(parse_rating("7")));
}

#[test]
fn range_is_one_to_five() {
    assert_eq!(MIN_RATING, 1);
    assert_eq!(MAX_RATING, 5);
    assert!(!in_range(0));
    assert!(in_range(1));
    assert!(in_range(3));
    assert!(in_range(5));
    assert!(!in_range(6));
    assert!(!in_range(-1));
    assert!(!in_range(i32::MIN));
    assert!(!in_range(i32::MAX));
}

#[test]
fn parse_reads_signs_and_leading_zeros() {
    assert_eq!(parse_i32("0"), Some(0));
    assert_eq!(parse_i32("+5"), Some(5));
    assert_eq!(parse_i32("-5"), Some(-5));
    assert_eq!(parse_i32("-0"), Some(0));
    assert_eq!(parse_i32("0005"), Some(5));
    assert_eq!(parse_i32("00000000000000000000012"), Some(12));
    assert_eq!(parse_i32("12345"), Some(12345));
}

#[test]
fn parse_reads_the_whole_range() {
    assert_eq!(parse_i32("2147483647"), Some(i32::MAX));
    assert_eq!(parse_i32("-2147483648"), Some(i32::MIN));
    assert_eq!(parse_i32("+2147483647"), Some(i32::MAX));
}

#[test]
fn parse_refuses_what_does_not_fit() {
    assert_eq!(parse_i32("2147483648"), None);
    assert_eq!(parse_i32("-2147483649"), None);
    assert_eq!(parse_i32("21474836470"), None);
    assert_eq!(parse_i32("99999999999999999999999999"), None);
    assert_eq!(parse_i32("-99999999999999999999999999"), None);
}

#[test]
fn parse_refuses_what_is_no_number() {
    assert_eq!(parse_i32(""), None);
    assert_eq!(parse_i32("+"), None);
    assert_eq!(parse_i32("-"), None);
    assert_eq!(parse_i32("--5"), None);
    assert_eq!(parse_i32("+-5"), None);
    assert_eq!(parse_i32("5-"), None);
    assert_eq!(parse_i32(" 5"), None);
    assert_eq!(parse_i32("5 "), None);
    assert_eq!(parse_i32("4.5"), None);
    assert_eq!(parse_i32("1_000"), None);
    assert_eq!(parse_i32("0x10"), None);
    assert_eq!(parse_i32("five"), None);
    assert_eq!(parse_i32("\u{0665}"), None);
    assert_eq!(parse_i32("5\u{00e9}"), None);
    assert_eq!(parse_i32("\u{ff15}"), None);
}

#[test]
fn parse_agrees_with_the_standard_library() {
    let inputs = [
        "", "0", "1", "5", "7", "-1", "+1", "+", "-", "abc", "12a", "a12", " 1", "1 ", "007",
        "-007", "+-1", "-+1", "2147483647", "2147483648", "-2147483648", "-2147483649",
        "4294967296", "1e3", "1.0", "\u{0663}", "3\n", "--", "++1", "0000000000000000000000",
        "-0000000000000000000001", "9999999999",
    ];
    for text in inputs {
        assert_eq!(parse_i32(text), text.parse::<i32>().ok(), "on {:?}", text);
        assert_eq!(parse_rating(text), text.parse::<i32>().unwrap_or(-1), "on {:?}", text);
    }
}

#[test]
fn rating_text_writes_decimal() {
    assert_eq!(rating_text(0), "0");
    assert_eq!(rating_text(5), "5");
    assert_eq!(rating_text(-1), "-1");
    assert_eq!(rating_text(10), "10");
    assert_eq!(rating_text(12345), "12345");
    assert_eq!(rating_text(-907), "-907");
    assert_eq!(rating_text(i32::MAX), "2147483647");
    assert_eq!(rating_text(i32::MIN), "-2147483648");
}

#[test]
fn rating_text_agrees_with_the_standard_library() {
    let values = [
        0, 1, -1, 9, 10, 11, 99, 100, 101, -9, -10, -100, 1000000, -1000000, 2147483646,
        i32::MAX, i32::MIN, -2147483647,
    ];
    for v in values {
        assert_eq!(rating_text(v), v.to_string());
    }
}

#[test]
fn a_rating_written_and_read_is_the_same() {
    let values = [0, 1, 5, -1, 7, 42, -42, 1000, i32::MAX, i32::MIN];
    for v in values {
        assert_eq!(parse_i32(&rating_text(v)), Some(v));
        assert_eq!(parse_rating(&rating_text(v)), v);
    }
}

#[test]
fn every_rating_from_minus_ten_to_ten() {
    for v in -10..=10 {
        let text = v.to_string();
        assert_eq!(parse_rating(&text), v);
        assert_eq!(in_range(parse_rating(&text)), (1..=5).contains(&v));
    }
}
