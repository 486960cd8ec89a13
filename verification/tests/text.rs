use pngme::text::{decimal_string, utf8_text};

#[test]
fn numbers_in_decimal() {
    assert_eq!(decimal_string(0), "0");
    assert_eq!(decimal_string(7), "7");
    assert_eq!(decimal_string(9), "9");
    assert_eq!(decimal_string(10), "10");
    assert_eq!(decimal_string(42), "42");
    assert_eq!(decimal_string(99), "99");
    assert_eq!(decimal_string(100), "100");
    assert_eq!(decimal_string(1234567890), "1234567890");
    assert_eq!(decimal_string(2882656334), "2882656334");
    assert_eq!(decimal_string(4294967295), "4294967295");
    assert_eq!(decimal_string(u64::MAX), "18446744073709551615");
    for n in [0u64, 5, 10, 19, 101, 1000, 65535, 1 << 40] {
        assert_eq!(decimal_string(n), n.to_string());
    }
}

#[test]
fn text_of_utf8_bytes() {
    assert_eq!(utf8_text(b"hello".to_vec()), Some(String::from("hello")));
    assert_eq!(utf8_text(Vec::new()), Some(String::new()));
    assert_eq!(
        utf8_text(vec![0xe4, 0xb8, 0x96, 0xe7, 0x95, 0x8c]),
        Some(String::from("\u{4e16}\u{754c}"))
    );
    assert_eq!(utf8_text(vec![0xf0, 0x9f, 0x98, 0x80]), Some(String::from("\u{1f600}")));
}

#[test]
fn no_text_of_bytes_that_are_not_utf8() {
    assert_eq!(utf8_text(vec![0xff]), None);
    assert_eq!(utf8_text(vec![b'a', 0x80]), None);
    assert_eq!(utf8_text(vec![0xc0, 0x80]), None);
    assert_eq!(utf8_text(vec![0xe4, 0xb8]), None);
    assert_eq!(utf8_text(vec![0xed, 0xa0, 0x80]), None);
    assert_eq!(utf8_text(vec![0xf4, 0x90, 0x80, 0x80]), None);
}
