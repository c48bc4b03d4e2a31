use dist_sys_rust::conflict::{
    conflict_detail, conflict_detail_of, current_value_text, parse_decimal, ConflictDetail,
};

#[test]
fn report_of_a_stale_expectation_gives_the_current_value() {
    assert_eq!(
        conflict_detail("current value 10 is not 0"),
        Some(ConflictDetail { current: Some(10) })
    );
}

#[test]
fn report_is_found_inside_a_longer_text() {
    assert_eq!(
        conflict_detail("cas failed: current value 731 is not 12, try again"),
        Some(ConflictDetail { current: Some(731) })
    );
    assert_eq!(current_value_text("xx current value 5 is not 6 yy"), Some("5".to_string()));
}

#[test]
fn first_report_in_a_text_counts() {
    assert_eq!(
        conflict_detail("current value 1 is not 2; current value 3 is not 4"),
        Some(ConflictDetail { current: Some(1) })
    );
}

#[test]
fn other_texts_are_no_report() {
    assert_eq!(conflict_detail(""), None);
    assert_eq!(conflict_detail("key does not exist"), None);
    assert_eq!(conflict_detail("current value ten is not 0"), None);
    assert_eq!(conflict_detail("current value 10 is not"), None);
    assert_eq!(conflict_detail("current value  10 is not 0"), None);
    assert_eq!(current_value_text("current value is not 0"), None);
}

#[test]
fn value_beyond_the_machine_is_reported_without_number() {
    let text = "current value 99999999999999999999999999999999999999999 is not 0";
    assert_eq!(conflict_detail(text), Some(ConflictDetail { current: None }));
}

#[test]
fn digits_of_other_scripts_are_reported_without_number() {
    // U+0663 is a decimal digit to the pattern, not to the reader of numbers.
    let text = "current value \u{0663} is not 0";
    assert_eq!(current_value_text(text), Some("\u{0663}".to_string()));
    assert_eq!(conflict_detail(text), Some(ConflictDetail { current: None }));
}

#[test]
fn detail_of_captured_digits() {
    assert_eq!(conflict_detail_of(None), None);
    assert_eq!(
        conflict_detail_of(Some("42".to_string())),
        Some(ConflictDetail { current: Some(42) })
    );
    assert_eq!(
        conflict_detail_of(Some("4x2".to_string())),
        Some(ConflictDetail { current: None })
    );
}

#[test]
fn decimal_numbers_are_read_exactly() {
    assert_eq!(parse_decimal("0"), Some(0));
    assert_eq!(parse_decimal("7"), Some(7));
    assert_eq!(parse_decimal("10"), Some(10));
    assert_eq!(parse_decimal("007"), Some(7));
    assert_eq!(parse_decimal("1234567890"), Some(1234567890));
    assert_eq!(parse_decimal(&usize::MAX.to_string()), Some(usize::MAX));
}

#[test]
fn what_is_no_decimal_number_is_refused() {
    assert_eq!(parse_decimal(""), None);
    assert_eq!(parse_decimal(" 1"), None);
    assert_eq!(parse_decimal("1 "), None);
    assert_eq!(parse_decimal("-1"), None);
    assert_eq!(parse_decimal("+1"), None);
    assert_eq!(parse_decimal("12a"), None);
    assert_eq!(parse_decimal("1.5"), None);
    assert_eq!(parse_decimal("\u{0661}"), None);
}

#[test]
fn decimal_number_beyond_the_machine_is_refused() {
    let mut beyond = usize::MAX.to_string();
    let last = beyond.pop().unwrap();
    beyond.push(char::from_digit(last.to_digit(10).unwrap() + 1, 10).unwrap());
    assert_eq!(parse_decimal(&beyond), None);
    let mut longer = usize::MAX.to_string();
    longer.push('0');
    assert_eq!(parse_decimal(&longer), None);
}
