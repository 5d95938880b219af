//! Tests for the urlencoded codec.

use httptest::input::MatchInput;
use httptest::matchers::KV;
use httptest::json::Json;
use httptest::urlenc::{url_decode, url_encode};

fn pairs(list: &[(&str, &str)]) -> Vec<KV<String, String>> {
    list.iter()
        .map(|(k, v)| KV::new(&k.to_string(), &v.to_string()))
        .collect()
}

fn as_tuples(decoded: &[KV<String, String>]) -> Vec<(String, String)> {
    decoded.iter().map(|kv| (kv.k.clone(), kv.v.clone())).collect()
}

#[test]
fn test_url_decode_basic() {
    let decoded = url_decode(b"key%201=value%201&key2");
    assert_eq!(
        as_tuples(&decoded),
        vec![
            ("key 1".to_string(), "value 1".to_string()),
            ("key2".to_string(), "".to_string()),
        ]
    );
}

#[test]
fn test_url_decode_plus_and_empty_segments() {
    let decoded = url_decode(b"a+b=c+d&&x=%41");
    assert_eq!(
        as_tuples(&decoded),
        vec![
            ("a b".to_string(), "c d".to_string()),
            ("x".to_string(), "A".to_string()),
        ]
    );
    assert!(url_decode(b"").is_empty());
}

#[test]
fn test_url_decode_stray_percent_is_literal() {
    let decoded = url_decode(b"a=%zz&b=%2");
    assert_eq!(
        as_tuples(&decoded),
        vec![
            ("a".to_string(), "%zz".to_string()),
            ("b".to_string(), "%2".to_string()),
        ]
    );
}

#[test]
fn test_url_encode_reserved_bytes() {
    let encoded = url_encode(&pairs(&[("key 1", "value&=1")]));
    assert_eq!(encoded, b"key+1=value%26%3D1".to_vec());
}

#[test]
fn test_url_round_trip() {
    let original = pairs(&[("key 1", "value 1"), ("key2", ""), ("a&b", "c=d"), ("", "")]);
    let encoded = url_encode(&original);
    let decoded = url_decode(&encoded);
    assert_eq!(as_tuples(&decoded), as_tuples(&original));
}

#[test]
fn test_url_round_trip_preserves_order_and_duplicates() {
    let original = pairs(&[("k", "1"), ("k", "2"), ("j", "3"), ("k", "1")]);
    let encoded = url_encode(&original);
    let decoded = url_decode(&encoded);
    assert_eq!(as_tuples(&decoded), as_tuples(&original));
}

#[test]
fn test_json_canonical_equality() {
    let a = Json::parse(r#" { "x" : [1, 2, {"y": null}] } "#).unwrap();
    let b = Json::parse(r#"{"x":[1,2,{"y":null}]}"#).unwrap();
    assert!(a.eq_input(&b));
    let c = Json::parse(r#"{"x":[1,2,{"y":0}]}"#).unwrap();
    assert!(!a.eq_input(&c));
    assert!(Json::parse("{not json").is_none());
}
