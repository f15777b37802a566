use pipeshare::number::{decimal_text, padded_left, padded_right, parse_u32, two_digit_text};
use pipeshare::text::chars_of;

#[test]
fn decimals_are_written_without_leading_zeros() {
    for n in [0u64, 7, 10, 99, 100, 536870912, u32::MAX as u64, u64::MAX] {
        assert_eq!(decimal_text(n), n.to_string());
    }
}

#[test]
fn two_digits_are_always_written() {
    for n in 0..100u64 {
        assert_eq!(two_digit_text(n), format!("{:02}", n));
    }
}

#[test]
fn numbers_are_read_as_the_standard_library_reads_them() {
    let texts = [
        "", "+", "-", "0", "-0", "+0", "7", "+7", "-7", "007", "42 ", " 42", "4294967295",
        "4294967296", "00000000000000000000001", "99999999999999999999999999", "4294967295x", "1+",
        "++1", "0x10", "1_000", "²", "٣",
    ];
    for text in texts {
        assert_eq!(parse_u32(&chars_of(text)), text.parse::<u32>().ok(), "{:?}", text);
    }
}

#[test]
fn decimals_read_back_as_themselves() {
    for n in [0u32, 1, 9, 10, 4711, 536870912, u32::MAX] {
        assert_eq!(parse_u32(&chars_of(&decimal_text(n as u64))), Some(n));
    }
}

#[test]
fn padding_fills_up_to_a_width() {
    for text in ["", "1", "12", "123", "1234", "日本"] {
        assert_eq!(padded_left(text, 3), format!("{:>3}", text));
        assert_eq!(padded_right(text, 3), format!("{:<3}", text));
    }
    assert_eq!(padded_left("7", 3), "  7");
    assert_eq!(padded_right("Firefox", 9), "Firefox  ");
}
