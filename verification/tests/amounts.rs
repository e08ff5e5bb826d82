use payment_processing_engine::amount::{amount_string, bool_string, dec_string, parse_amount};

#[test]
fn amounts_render_with_four_decimals() {
    assert_eq!(amount_string(0), "0.0000");
    assert_eq!(amount_string(1), "0.0001");
    assert_eq!(amount_string(10000), "1.0000");
    assert_eq!(amount_string(1234567), "123.4567");
    assert_eq!(amount_string(568953), "56.8953");
    assert_eq!(amount_string(u64::MAX), "1844674407370955.1615");
}

#[test]
fn decimals_render_without_padding() {
    assert_eq!(dec_string(0), "0");
    assert_eq!(dec_string(7), "7");
    assert_eq!(dec_string(65535), "65535");
}

#[test]
fn booleans_render_as_words() {
    assert_eq!(bool_string(true), "true");
    assert_eq!(bool_string(false), "false");
}

#[test]
fn amounts_parse_exactly() {
    assert_eq!(parse_amount(""), Some(0));
    assert_eq!(parse_amount("0"), Some(0));
    assert_eq!(parse_amount("1"), Some(10000));
    assert_eq!(parse_amount("56.8953"), Some(568953));
    assert_eq!(parse_amount("7.9"), Some(79000));
    assert_eq!(parse_amount("7.90"), Some(79000));
    assert_eq!(parse_amount("123."), Some(1230000));
    assert_eq!(parse_amount("999999999999999.9999"), Some(9999999999999999999));
}

#[test]
fn malformed_amounts_are_refused() {
    assert_eq!(parse_amount("."), None);
    assert_eq!(parse_amount(".5"), None);
    assert_eq!(parse_amount("1.23456"), None);
    assert_eq!(parse_amount("1.2.3"), None);
    assert_eq!(parse_amount("-1"), None);
    assert_eq!(parse_amount("12a"), None);
    assert_eq!(parse_amount("1 2"), None);
    assert_eq!(parse_amount("1234567890123456"), None);
}

#[test]
fn parsing_and_rendering_round_trip() {
    for raw in ["0.0001", "56.8953", "1.0000", "999999999999999.9999"] {
        let value = parse_amount(raw).unwrap();
        assert_eq!(amount_string(value), raw);
    }
}
