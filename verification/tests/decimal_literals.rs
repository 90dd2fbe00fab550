use stack_asm::decimal::parse_u32;

#[test]
fn digits_are_read_in_base_ten() {
    assert_eq!(parse_u32("0"), Some(0));
    assert_eq!(parse_u32("7"), Some(7));
    assert_eq!(parse_u32("10"), Some(10));
    assert_eq!(parse_u32("300"), Some(300));
    assert_eq!(parse_u32("1234567890"), Some(1234567890));
}

#[test]
fn the_largest_operand_is_the_largest_u32() {
    assert_eq!(parse_u32("4294967295"), Some(u32::MAX));
    assert_eq!(parse_u32("4294967296"), None);
    assert_eq!(parse_u32("4294967300"), None);
    assert_eq!(parse_u32("42949672950"), None);
    assert_eq!(parse_u32("99999999999999999999999999"), None);
}

#[test]
fn leading_zeros_are_allowed() {
    assert_eq!(parse_u32("007"), Some(7));
    assert_eq!(parse_u32("00000000000000000004294967295"), Some(u32::MAX));
    assert_eq!(parse_u32("0000000000000000000000"), Some(0));
}

#[test]
fn a_plus_sign_may_lead() {
    assert_eq!(parse_u32("+5"), Some(5));
    assert_eq!(parse_u32("+0"), Some(0));
    assert_eq!(parse_u32("+"), None);
    assert_eq!(parse_u32("++5"), None);
    assert_eq!(parse_u32("5+"), None);
}

#[test]
fn anything_else_is_no_literal() {
    let samples = [
        "", "-1", "-0", "1.5", "1e3", "0x10", "ten", " 5", "5 ", "1_000", "\u{661}", "\u{ff11}",
        "12a",
    ];
    for text in samples {
        assert_eq!(parse_u32(text), None, "{:?}", text);
    }
}

#[test]
fn parsing_agrees_with_the_standard_library() {
    let samples = [
        "", "+", "-", "0", "+0", "-0", "1", "+1", "-1", "00", "0001", "+0001", "4294967295",
        "+4294967295", "4294967296", "04294967296", "429496729", "4294967294", "4294967299",
        "5000000000", "12 ", " 12", "1a", "a1", "1+1", "\u{b2}", "9", "99", "999999999",
        "9999999999",
    ];
    for text in samples {
        assert_eq!(parse_u32(text), text.parse::<u32>().ok(), "{:?}", text);
    }
}
