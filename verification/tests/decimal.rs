use find_merge::decimal::decimal_text;

#[test]
fn small_numbers_are_one_digit() {
    for n in 0..10 {
        assert_eq!(decimal_text(n), n.to_string());
    }
}

#[test]
fn digits_come_highest_first() {
    assert_eq!(decimal_text(128), "128");
    assert_eq!(decimal_text(10), "10");
    assert_eq!(decimal_text(1000000), "1000000");
    assert_eq!(decimal_text(907), "907");
}

#[test]
fn negative_numbers_carry_a_minus_sign() {
    assert_eq!(decimal_text(-1), "-1");
    assert_eq!(decimal_text(-128), "-128");
    assert_eq!(decimal_text(-10), "-10");
}

#[test]
fn range_of_i32_is_covered() {
    assert_eq!(decimal_text(i32::MAX), "2147483647");
    assert_eq!(decimal_text(i32::MIN), "-2147483648");
}

#[test]
fn decimal_agrees_with_the_standard_library() {
    let mut n: i32 = -2000000000;
    while n < 2000000000 {
        assert_eq!(decimal_text(n), n.to_string());
        n += 7919 * 101;
    }
}
