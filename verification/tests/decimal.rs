use seashell::decimal::decimal_string;

#[test]
fn decimal_of_small_numbers() {
    assert_eq!(decimal_string(0), "0");
    assert_eq!(decimal_string(7), "7");
    assert_eq!(decimal_string(42), "42");
    assert_eq!(decimal_string(100), "100");
}

#[test]
fn decimal_of_negative_numbers() {
    assert_eq!(decimal_string(-1), "-1");
    assert_eq!(decimal_string(-305), "-305");
}

#[test]
fn decimal_of_extremes_matches_display() {
    assert_eq!(decimal_string(i32::MAX), i32::MAX.to_string());
    assert_eq!(decimal_string(i32::MIN), i32::MIN.to_string());
}

#[test]
fn decimal_matches_display_on_a_range() {
    for i in -1200..1200 {
        assert_eq!(decimal_string(i), i.to_string());
    }
}
