use hbproxy::util::{compare_version, fmt_i32, fmt_u64, host_defport, mytimes, parse_addr,
    parse_dec_i32, split_char, AddrError, CompareVersion};

#[test]
fn fmt_decimal() {
    assert_eq!(fmt_u64(0), "0");
    assert_eq!(fmt_u64(7), "7");
    assert_eq!(fmt_u64(10), "10");
    assert_eq!(fmt_u64(65535), "65535");
    assert_eq!(fmt_u64(u64::MAX), "18446744073709551615");
    assert_eq!(fmt_i32(-1), "-1");
    assert_eq!(fmt_i32(i32::MIN), "-2147483648");
    assert_eq!(fmt_i32(9000), "9000");
}

#[test]
fn parse_decimal() {
    assert_eq!(parse_dec_i32("0"), Some(0));
    assert_eq!(parse_dec_i32("80"), Some(80));
    assert_eq!(parse_dec_i32("2147483647"), Some(2147483647));
    assert_eq!(parse_dec_i32("0000000001"), Some(1));
    assert_eq!(parse_dec_i32(""), None);
    assert_eq!(parse_dec_i32("+5"), None);
    assert_eq!(parse_dec_i32("-5"), None);
    assert_eq!(parse_dec_i32("2147483648"), None);
    assert_eq!(parse_dec_i32("99999999999999999999"), None);
    assert_eq!(parse_dec_i32("12a"), None);
}

#[test]
fn splitting() {
    let parts = split_char("a:b", ':');
    assert_eq!(parts, vec!["a".to_string(), "b".to_string()]);
    let parts = split_char("::", ':');
    assert_eq!(parts, vec!["".to_string(), "".to_string(), "".to_string()]);
    let parts = split_char("noseparator", ':');
    assert_eq!(parts, vec!["noseparator".to_string()]);
    let parts = split_char("", '.');
    assert_eq!(parts, vec!["".to_string()]);
    let parts = split_char("0.2.3", '.');
    assert_eq!(parts, vec!["0".to_string(), "2".to_string(), "3".to_string()]);
}

#[test]
fn addresses() {
    assert_eq!(parse_addr("0.0.0.0:9000"), Ok(("0.0.0.0".to_string(), 9000)));
    assert_eq!(parse_addr(":80"), Ok(("".to_string(), 80)));
    assert_eq!(parse_addr("host"), Err(AddrError::Pieces));
    assert_eq!(parse_addr("a:b:c"), Err(AddrError::Pieces));
    assert_eq!(parse_addr("h:0"), Err(AddrError::PortZero));
    assert_eq!(parse_addr("h:-1"), Err(AddrError::Port));
    assert_eq!(parse_addr("h:x"), Err(AddrError::Port));
}

#[test]
fn durations() {
    assert_eq!(mytimes(0), "0s");
    assert_eq!(mytimes(59), "59s");
    assert_eq!(mytimes(60), "1m0s");
    assert_eq!(mytimes(61), "1m1s");
    assert_eq!(mytimes(3600), "1h0m0s");
    assert_eq!(mytimes(3601), "1h0m1s");
    assert_eq!(mytimes(3660), "1h1m0s");
    assert_eq!(mytimes(3725), "1h2m5s");
    assert_eq!(mytimes(86400), "1d0h0m0s");
    assert_eq!(mytimes(86445), "1d0h0m45s");
    assert_eq!(mytimes(90061), "1d1h1m1s");
}

#[test]
fn versions() {
    assert_eq!(compare_version(&"0.2.3".to_string(), "0.2.3".to_string()), CompareVersion::Equal);
    assert_eq!(compare_version(&"0.2.2".to_string(), "0.2.3".to_string()), CompareVersion::Less);
    assert_eq!(compare_version(&"0.3.0".to_string(), "0.2.9".to_string()), CompareVersion::Great);
    assert_eq!(compare_version(&"0.2.3.1".to_string(), "0.2.3".to_string()), CompareVersion::Great);
    assert_eq!(compare_version(&"0.2".to_string(), "0.2.0".to_string()), CompareVersion::Equal);
    assert_eq!(compare_version(&"1".to_string(), "1.0".to_string()), CompareVersion::Invalid);
    assert_eq!(compare_version(&"a.b".to_string(), "1.0".to_string()), CompareVersion::Invalid);
}

#[test]
fn default_ports() {
    assert_eq!(host_defport("example.net".to_string(), 6573), "example.net:6573");
    assert_eq!(host_defport("example.net:80".to_string(), 6573), "example.net:80");
    assert_eq!(host_defport(":9".to_string(), 6573), ":9");
    assert_eq!(host_defport("".to_string(), 6573), ":6573");
}
