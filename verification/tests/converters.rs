use okx_client::convert::{parse_decimal, parse_u64_digits, Dec};
use okx_client::encode::{build_json_body, build_query};

#[test]
fn decimal_basic() {
    assert_eq!(parse_decimal("0.015"), Some(Dec { units: 15, scale: 3 }));
    assert_eq!(parse_decimal("1.23"), Some(Dec { units: 123, scale: 2 }));
    assert_eq!(parse_decimal("-1.5"), Some(Dec { units: -15, scale: 1 }));
    assert_eq!(parse_decimal("42"), Some(Dec { units: 42, scale: 0 }));
    assert_eq!(parse_decimal("0"), Some(Dec { units: 0, scale: 0 }));
    assert_eq!(parse_decimal("-7"), Some(Dec { units: -7, scale: 0 }));
}

#[test]
fn decimal_rejects_malformed() {
    assert_eq!(parse_decimal("abc"), None);
    assert_eq!(parse_decimal(""), None);
    assert_eq!(parse_decimal("1."), None);
    assert_eq!(parse_decimal(".5"), None);
    assert_eq!(parse_decimal("1.2.3"), None);
    assert_eq!(parse_decimal("--1"), None);
    assert_eq!(parse_decimal("1,5"), None);
    assert_eq!(parse_decimal("-"), None);
}

#[test]
fn decimal_scale_and_range_limits() {
    // 28 fractional digits are accepted, 29 are not
    let ok = format!("0.{}", "1".repeat(28));
    assert!(parse_decimal(&ok).is_some());
    let too_deep = format!("0.{}", "1".repeat(29));
    assert_eq!(parse_decimal(&too_deep), None);
    // the largest representable coefficient, and one past it
    assert_eq!(
        parse_decimal("79228162514264337593543950335"),
        Some(Dec { units: 79228162514264337593543950335, scale: 0 })
    );
    assert_eq!(parse_decimal("79228162514264337593543950336"), None);
}

#[test]
fn timestamp_decoding() {
    assert_eq!(parse_u64_digits("1597026383085"), Some(1597026383085));
    assert_eq!(parse_u64_digits("0"), Some(0));
    assert_eq!(parse_u64_digits(""), None);
    assert_eq!(parse_u64_digits("12x"), None);
    assert_eq!(parse_u64_digits("18446744073709551615"), Some(u64::MAX));
    assert_eq!(parse_u64_digits("18446744073709551616"), None);
}

#[test]
fn query_encoding_percent_escapes_comma() {
    let pairs = vec![("ccy".to_owned(), "BTC,ETH".to_owned())];
    assert_eq!(build_query(&pairs), "ccy=BTC%2CETH");
}

#[test]
fn query_encoding_joins_pairs() {
    let pairs = vec![
        ("a".to_owned(), "x y".to_owned()),
        ("b".to_owned(), "2".to_owned()),
    ];
    assert_eq!(build_query(&pairs), "a=x%20y&b=2");
    let empty: Vec<(String, String)> = Vec::new();
    assert_eq!(build_query(&empty), "");
}

#[test]
fn query_encoding_utf8_bytes() {
    let pairs = vec![("note".to_owned(), "é".to_owned())];
    assert_eq!(build_query(&pairs), "note=%C3%A9");
}

#[test]
fn json_body_encoding() {
    let pairs = vec![
        ("ccy".to_owned(), "BTC".to_owned()),
        ("note".to_owned(), "a\"b\\c".to_owned()),
    ];
    assert_eq!(build_json_body(&pairs), "{\"ccy\":\"BTC\",\"note\":\"a\\\"b\\\\c\"}");
    let empty: Vec<(String, String)> = Vec::new();
    assert_eq!(build_json_body(&empty), "{}");
}

#[test]
fn json_body_parses_back() {
    let pairs = vec![("k".to_owned(), "line\u{0001}end".to_owned())];
    let body = build_json_body(&pairs);
    let v: serde_json::Value = serde_json::from_str(&body).expect("body is valid JSON");
    assert_eq!(v.get("k").and_then(|x| x.as_str()), Some("line\u{0001}end"));
}
