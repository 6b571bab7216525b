use hypermaze::decimal::{decimal_text, push_decimal};

#[test]
fn decimal_of_zero() {
    assert_eq!(decimal_text(0), "0");
}

#[test]
fn decimal_of_single_digits() {
    assert_eq!(decimal_text(7), "7");
    assert_eq!(decimal_text(9), "9");
}

#[test]
fn decimal_of_several_digits() {
    assert_eq!(decimal_text(10), "10");
    assert_eq!(decimal_text(42), "42");
    assert_eq!(decimal_text(1000), "1000");
    assert_eq!(decimal_text(90817), "90817");
}

#[test]
fn decimal_of_largest_size() {
    assert_eq!(decimal_text(usize::MAX), usize::MAX.to_string());
}

#[test]
fn push_decimal_appends() {
    let mut s = String::from("score ");
    push_decimal(&mut s, 305);
    assert_eq!(s, "score 305");
}
