use impsupri::text::{chars_of, decimal, leading_digits_of, number_of_digits_from, parse_number};

#[test]
fn decimal_has_no_leading_zeros() {
    assert_eq!(decimal(0), "0");
    assert_eq!(decimal(7), "7");
    assert_eq!(decimal(10), "10");
    assert_eq!(decimal(1234), "1234");
    assert_eq!(decimal(u32::MAX), "4294967295");
}

#[test]
fn numbers_are_read_as_the_standard_library_reads_them() {
    let texts = [
        "", "+", "-", "0", "+0", "-0", "7", "+7", "++7", "007", " 7", "7 ", "7a", "a7", "1,000",
        "1.5", "4294967295", "4294967296", "+4294967295", "99999999999", "000000000000001", "\u{0661}",
    ];
    for text in texts {
        assert_eq!(parse_number(text), text.parse::<u32>().ok(), "{:?}", text);
    }
    assert_eq!(parse_number("4294967295"), Some(4294967295));
    assert_eq!(parse_number("4294967296"), None);
}

#[test]
fn leading_digits_end_at_the_first_other_character() {
    assert_eq!(leading_digits_of("12%"), vec!['1', '2']);
    assert_eq!(leading_digits_of("<10"), Vec::<char>::new());
    assert_eq!(leading_digits_of(""), Vec::<char>::new());
    assert_eq!(leading_digits_of("3400 pages 12"), vec!['3', '4', '0', '0']);
    assert_eq!(leading_digits_of("1\u{0662}3"), vec!['1']);
}

#[test]
fn digits_are_read_from_an_index_on() {
    let chars = chars_of("x123");
    assert_eq!(number_of_digits_from(&chars, 1), Some(123));
    assert_eq!(number_of_digits_from(&chars, 0), None);
    assert_eq!(number_of_digits_from(&chars, 4), None);
}

#[test]
fn decimal_numbers_are_read_back() {
    for n in [0u32, 1, 9, 10, 99, 100, 65535, 1000000, u32::MAX - 1, u32::MAX] {
        assert_eq!(parse_number(&decimal(n)), Some(n));
        assert_eq!(number_of_digits_from(&leading_digits_of(&decimal(n)), 0), Some(n));
    }
}
