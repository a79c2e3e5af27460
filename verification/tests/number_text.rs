use roster_messenger::numbers::{parse_u32, u32_to_string};

#[test]
fn renders_decimal_without_leading_zeros() {
    assert_eq!(u32_to_string(0), "0");
    assert_eq!(u32_to_string(7), "7");
    assert_eq!(u32_to_string(300), "300");
    assert_eq!(u32_to_string(4294967295), "4294967295");
}

#[test]
fn parses_plain_decimals() {
    assert_eq!(parse_u32("0"), Some(0));
    assert_eq!(parse_u32("42"), Some(42));
    assert_eq!(parse_u32("007"), Some(7));
    assert_eq!(parse_u32("4294967295"), Some(4294967295));
}

#[test]
fn rejects_what_is_no_page_number() {
    assert_eq!(parse_u32(""), None);
    assert_eq!(parse_u32("+3"), None);
    assert_eq!(parse_u32("-3"), None);
    assert_eq!(parse_u32("3a"), None);
    assert_eq!(parse_u32(" 3"), None);
    assert_eq!(parse_u32("4294967296"), None);
    assert_eq!(parse_u32("99999999999999"), None);
}

#[test]
fn rendering_then_parsing_gives_the_number_back() {
    for n in [0u32, 1, 9, 10, 299, 300, 301, 65535, 4294967295] {
        assert_eq!(parse_u32(u32_to_string(n).as_str()), Some(n));
    }
}
