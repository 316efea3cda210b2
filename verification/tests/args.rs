use httpie::args::{parse_kv_pair, parse_url, url_result, KvPair, PairError};

#[test]
fn parse_url_works() {
    assert!(parse_url("https://httpbin.org").is_ok());
    assert!(parse_url("httpbin.org").is_err());
}

#[test]
fn parse_kv_pair_works() {
    assert!(parse_kv_pair("a").is_err());
    assert!(parse_kv_pair("a=b").is_ok());
    assert_eq!(
        parse_kv_pair("a=b").unwrap(),
        KvPair {
            k: "a".into(),
            v: "b".into(),
        }
    );
}

#[test]
fn parse_url_returns_the_text_unchanged() {
    assert_eq!(parse_url("https://httpbin.org/get?x=1").unwrap(), "https://httpbin.org/get?x=1");
}

#[test]
fn parse_url_reports_the_parser_message() {
    let err = parse_url("httpbin.org").unwrap_err();
    assert_eq!(err.message, "relative URL without a base");
}

#[test]
fn url_result_follows_the_objection() {
    assert_eq!(url_result("x", None).unwrap(), "x");
    assert_eq!(url_result("x", Some("bad".to_string())).unwrap_err().message, "bad");
}

#[test]
fn pair_splits_at_first_equals_only() {
    let pair = parse_kv_pair("a=b=c").unwrap();
    assert_eq!(pair.k, "a");
    assert_eq!(pair.v, "b=c");
}

#[test]
fn pair_allows_empty_key_and_value() {
    assert_eq!(parse_kv_pair("=").unwrap(), KvPair { k: "".into(), v: "".into() });
    assert_eq!(parse_kv_pair("k=").unwrap(), KvPair { k: "k".into(), v: "".into() });
    assert_eq!(parse_kv_pair("=v").unwrap(), KvPair { k: "".into(), v: "v".into() });
}

#[test]
fn pair_handles_non_ascii() {
    let pair = KvPair::from_str("clé=värde").unwrap();
    assert_eq!(pair.k, "clé");
    assert_eq!(pair.v, "värde");
}

#[test]
fn pair_without_equals_has_no_value() {
    assert_eq!(parse_kv_pair("abc").unwrap_err(), PairError::NoValue);
    assert_eq!(parse_kv_pair("").unwrap_err(), PairError::NoValue);
    assert_eq!(PairError::NoValue.message(), "No value found");
    assert_eq!(PairError::NoKey.message(), "No key found");
}
