use daofactory::text::{addr_to_lower, parse_u128, same_text, try_parse_u128, try_parse_u64, u128_to_text};

#[test]
fn parses_plain_decimal() {
    assert_eq!(try_parse_u128("80000"), Some(80000));
    assert_eq!(parse_u128("007"), 7);
    assert_eq!(try_parse_u128("0"), Some(0));
}

#[test]
fn parses_leading_plus() {
    assert_eq!(try_parse_u128("+42"), Some(42));
    assert_eq!(try_parse_u128("+"), None);
    assert_eq!(try_parse_u128("++1"), None);
}

#[test]
fn rejects_what_std_rejects() {
    for t in ["", "-1", "1a", " 1", "1 ", "٣", "0x10"] {
        assert_eq!(try_parse_u128(t), t.parse::<u128>().ok(), "text {:?}", t);
    }
}

#[test]
fn parse_agrees_with_std_at_the_limits() {
    let max = u128::MAX.to_string();
    assert_eq!(try_parse_u128(&max), Some(u128::MAX));
    assert_eq!(try_parse_u128("340282366920938463463374607431768211456"), None);
    assert_eq!(try_parse_u64("18446744073709551615"), Some(u64::MAX));
    assert_eq!(try_parse_u64("18446744073709551616"), None);
}

#[test]
fn formats_like_std() {
    for n in [0u128, 9, 10, 99, 100, 12345, u64::MAX as u128, u128::MAX] {
        assert_eq!(u128_to_text(n), n.to_string());
    }
}

#[test]
fn format_then_parse_gives_back_the_number() {
    for n in [0u128, 1, 7, 10, 1_000_000_000_000_000_000, u128::MAX - 1, u128::MAX] {
        assert_eq!(try_parse_u128(&u128_to_text(n)), Some(n));
    }
}

#[test]
fn lowers_ascii_letters_only() {
    assert_eq!(
        addr_to_lower("0x9BA7dc2269895DF1004Ec75D8326644295508069"),
        "0x9ba7dc2269895df1004ec75d8326644295508069"
    );
    assert_eq!(addr_to_lower("ÄBC-Ω"), "Äbc-Ω");
    assert_eq!(addr_to_lower(""), "");
}

#[test]
fn lowering_twice_is_lowering_once() {
    let once = addr_to_lower("MiXeD-CaSe_Z");
    assert_eq!(addr_to_lower(&once), once);
}

#[test]
fn compares_text() {
    assert!(same_text("abc", "abc"));
    assert!(!same_text("abc", "abd"));
    assert!(!same_text("abc", "ab"));
    assert!(same_text("", ""));
}
