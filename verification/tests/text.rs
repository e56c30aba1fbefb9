use image_fetcher::text::{byte_list_text, decimal_text};

#[test]
fn decimal_of_single_digits() {
    assert_eq!(decimal_text(0), "0");
    assert_eq!(decimal_text(7), "7");
    assert_eq!(decimal_text(9), "9");
}

#[test]
fn decimal_of_longer_numbers() {
    assert_eq!(decimal_text(10), "10");
    assert_eq!(decimal_text(404), "404");
    assert_eq!(decimal_text(1000), "1000");
    assert_eq!(decimal_text(1234567890), "1234567890");
    assert_eq!(decimal_text(u64::MAX), "18446744073709551615");
}

#[test]
fn decimal_agrees_with_the_standard_rendering() {
    for n in 0..2000u64 {
        assert_eq!(decimal_text(n), format!("{}", n));
    }
}

#[test]
fn byte_list_of_nothing() {
    assert_eq!(byte_list_text(&[]), "[]");
}

#[test]
fn byte_list_of_one_byte() {
    assert_eq!(byte_list_text(&[0]), "[0]");
    assert_eq!(byte_list_text(&[255]), "[255]");
}

#[test]
fn byte_list_of_several_bytes() {
    assert_eq!(byte_list_text(&[1, 2, 3]), "[1, 2, 3]");
    assert_eq!(byte_list_text(&[255, 0, 16, 100]), "[255, 0, 16, 100]");
}

#[test]
fn byte_list_agrees_with_the_debug_rendering() {
    let bytes: Vec<u8> = (0..=255u8).collect();
    assert_eq!(byte_list_text(&bytes), format!("{:?}", bytes));
}
