use imgdump::media::Media;
use imgdump::naming::{file_name, push_decimal, NAME_WIDTH};

#[test]
fn png_record_is_named_by_padded_number() {
    let extension = Media::extension_for_content_type("image/png").unwrap_or("unk");
    assert_eq!(file_name(42, extension), "00000042.png");
}

#[test]
fn long_number_is_not_cut_and_absent_type_gets_fallback() {
    let extension = Media::extension_for_content_type("").unwrap_or("unk");
    assert_eq!(file_name(123456789, extension), "123456789.unk");
}

#[test]
fn zero_is_eight_zeros() {
    assert_eq!(file_name(0, "gif"), "00000000.gif");
}

#[test]
fn widest_padded_and_narrowest_unpadded_numbers() {
    assert_eq!(file_name(9_999_999, "jpg"), "09999999.jpg");
    assert_eq!(file_name(99_999_999, "jpg"), "99999999.jpg");
    assert_eq!(file_name(100_000_000, "jpg"), "100000000.jpg");
}

#[test]
fn largest_number_is_written_in_full() {
    assert_eq!(file_name(u64::MAX, "webp"), "18446744073709551615.webp");
}

#[test]
fn name_agrees_with_zero_padded_formatting() {
    for number in [0u64, 1, 9, 10, 99, 100, 12345678, 987654321, 10_000_000_000] {
        assert_eq!(file_name(number, "png"), format!("{:0>8}.{}", number, "png"));
    }
}

#[test]
fn extension_is_appended_as_given() {
    assert_eq!(file_name(5, ""), "00000005.");
    assert_eq!(file_name(5, "tar.gz"), "00000005.tar.gz");
}

#[test]
fn names_of_the_same_record_are_equal_and_of_others_differ() {
    assert_eq!(file_name(77, "png"), file_name(77, "png"));
    assert_ne!(file_name(77, "png"), file_name(78, "png"));
    assert_ne!(file_name(77, "png"), file_name(77, "jpg"));
    assert_ne!(file_name(1, "png"), file_name(10, "png"));
}

#[test]
fn decimal_is_appended_without_padding() {
    let mut text = String::from("n=");
    push_decimal(&mut text, 0);
    push_decimal(&mut text, 907);
    push_decimal(&mut text, u64::MAX);
    assert_eq!(text, "n=090718446744073709551615");
    assert_eq!(NAME_WIDTH, 8);
}
