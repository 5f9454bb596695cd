use transfer_sh_helper::level::{parse_compression_level, MAX_COMPRESSION_LEVEL};

#[test]
fn levels_in_range_parse() {
    assert_eq!(MAX_COMPRESSION_LEVEL, 9);
    assert_eq!(parse_compression_level("0"), Some(0));
    assert_eq!(parse_compression_level("6"), Some(6));
    assert_eq!(parse_compression_level("9"), Some(9));
    assert_eq!(parse_compression_level("+6"), Some(6));
    assert_eq!(parse_compression_level("007"), Some(7));
    assert_eq!(parse_compression_level("09"), Some(9));
}

#[test]
fn levels_out_of_range_refused() {
    assert_eq!(parse_compression_level("10"), None);
    assert_eq!(parse_compression_level("90"), None);
    assert_eq!(parse_compression_level("4294967296"), None);
    assert_eq!(parse_compression_level("99999999999999999999"), None);
}

#[test]
fn malformed_levels_refused() {
    assert_eq!(parse_compression_level(""), None);
    assert_eq!(parse_compression_level("+"), None);
    assert_eq!(parse_compression_level("-1"), None);
    assert_eq!(parse_compression_level("-0"), None);
    assert_eq!(parse_compression_level(" 5"), None);
    assert_eq!(parse_compression_level("5 "), None);
    assert_eq!(parse_compression_level("5a"), None);
    assert_eq!(parse_compression_level("++5"), None);
    assert_eq!(parse_compression_level("٣"), None);
}
