//! Tests for the mapper combinators.

use httptest::http_types::{HttpRequest, HttpResponse};
use httptest::mappers::{
    all_of, any, any_of, contains, eq, inspect, json_decoded, key, len, lowercase, not, request,
    response, url_decoded, value, Mapper, KV,
};

fn get_request(uri: &str, body: &str) -> HttpRequest {
    let after_scheme = match uri.find("://") {
        Some(i) => &uri[i + 3..],
        None => uri,
    };
    let path_start = after_scheme.find('/').unwrap_or(after_scheme.len());
    let path_and_query = &after_scheme[path_start..];
    let (path, query) = match path_and_query.find('?') {
        Some(i) => (&path_and_query[..i], &path_and_query[i + 1..]),
        None => (path_and_query, ""),
    };
    let path = if path.is_empty() { "/" } else { path };
    HttpRequest::new(
        "GET".to_string(),
        path.to_string(),
        query.to_string(),
        Vec::new(),
        body.as_bytes().to_vec(),
    )
}

#[test]
fn mappers_test_eq() {
    let c = eq("foo".to_string());
    assert_eq!(false, c.map(&"foobar".to_string()));
    assert_eq!(false, c.map(&"bazfoobar".to_string()));
    assert_eq!(false, c.map(&"bar".to_string()));
    assert_eq!(true, c.map(&"foo".to_string()));
}

#[test]
fn mappers_test_matches() {
    let c = httptest::mappers::matches(r#"^foo\d*bar$"#).unwrap();
    assert_eq!(true, c.map(&"foobar".to_string()));
    assert_eq!(true, c.map(&"foo99bar".to_string()));
    assert_eq!(false, c.map(&"foo99barz".to_string()));
    assert_eq!(false, c.map(&"bat".to_string()));

    let c = httptest::mappers::matches("(?i)foobar").unwrap();
    assert_eq!(true, c.map(&"foobar".to_string()));
    assert_eq!(true, c.map(&"FOOBAR".to_string()));
    assert_eq!(false, c.map(&"FOO99BAR".to_string()));
}

#[test]
fn mappers_test_not() {
    let c = not(httptest::mappers::matches(r#"^foo\d*bar$"#).unwrap());
    assert_eq!(false, c.map(&"foobar".to_string()));
    assert_eq!(false, c.map(&"foo99bar".to_string()));
    assert_eq!(true, c.map(&"foo99barz".to_string()));
    assert_eq!(true, c.map(&"bat".to_string()));
}

#[test]
fn mappers_test_all_of() {
    let c = all_of(vec![httptest::mappers::matches("foo").unwrap(), httptest::mappers::matches("bar").unwrap()]);
    assert_eq!(true, c.map(&"foobar".to_string()));
    assert_eq!(true, c.map(&"barfoo".to_string()));
    assert_eq!(false, c.map(&"foo".to_string()));
    assert_eq!(false, c.map(&"bar".to_string()));
}

#[test]
fn mappers_test_any_of() {
    let c = any_of(vec![httptest::mappers::matches("foo").unwrap(), httptest::mappers::matches("bar").unwrap()]);
    assert_eq!(true, c.map(&"foobar".to_string()));
    assert_eq!(true, c.map(&"barfoo".to_string()));
    assert_eq!(true, c.map(&"foo".to_string()));
    assert_eq!(true, c.map(&"bar".to_string()));
    assert_eq!(false, c.map(&"baz".to_string()));
}

#[test]
fn mappers_test_url_decoded() {
    let expected = vec![
        KV::new(&"key 1".to_string(), &"value 1".to_string()),
        KV::new(&"key2".to_string(), &"".to_string()),
    ];
    let c = request::query(url_decoded(eq(expected)));
    let req = get_request("https://example.com/path?key%201=value%201&key2", "");
    assert_eq!(true, c.map(&req));
}

#[test]
fn mappers_test_json_decoded() {
    let c = json_decoded(eq(httptest::json::Json::parse(r#"{"foo": 1, "bar": 99}"#).unwrap()));
    assert_eq!(true, c.map(&r#"{"foo": 1, "bar": 99}"#.to_string()));
    assert_eq!(true, c.map(&r#"{"bar": 99, "foo": 1}"#.to_string()));
    assert_eq!(false, c.map(&r#"{"foo": 1, "bar": 100}"#.to_string()));
}

#[test]
fn mappers_test_lowercase() {
    let c = lowercase(httptest::mappers::matches("foo").unwrap());
    assert_eq!(true, c.map(&"FOO".to_string()));
    assert_eq!(true, c.map(&"FoOBar".to_string()));
    assert_eq!(true, c.map(&"foobar".to_string()));
    assert_eq!(false, c.map(&"bar".to_string()));
}

#[test]
fn mappers_test_contains() {
    let c = contains(eq(100));
    assert_eq!(true, c.map(&vec![100, 200, 300]));
    assert_eq!(false, c.map(&vec![99, 200, 300]));
}

#[test]
fn sequence_test_contains() {
    let c = httptest::mappers::sequence::contains(eq(100));
    assert_eq!(true, c.map(&vec![100, 200, 300]));
    assert_eq!(false, c.map(&vec![99, 200, 300]));
}

#[test]
fn sequence_test_tuple() {
    let kv: KV<String, String> = KV::new(&"key1".to_string(), &"value1".to_string());
    assert_eq!(true, (httptest::mappers::matches("key1").unwrap(), any()).map(&kv));
    assert_eq!(
        true,
        (httptest::mappers::matches("key1").unwrap(), httptest::mappers::matches("value1").unwrap()).map(&kv)
    );
    assert_eq!(
        false,
        (httptest::mappers::matches("key1").unwrap(), httptest::mappers::matches("value2").unwrap()).map(&kv)
    );
    assert_eq!(
        false,
        (httptest::mappers::matches("key2").unwrap(), httptest::mappers::matches("value1").unwrap()).map(&kv)
    );
}

#[test]
fn mappers_test_key() {
    let kv = KV::new(&"key1".to_string(), &"value1".to_string());
    assert_eq!(true, key(eq("key1".to_string())).map(&kv));
    assert_eq!(false, key(eq("key2".to_string())).map(&kv));
}

#[test]
fn mappers_test_value() {
    let kv = KV::new(&"key1".to_string(), &"value1".to_string());
    assert_eq!(true, value(eq("value1".to_string())).map(&kv));
    assert_eq!(false, value(eq("value2".to_string())).map(&kv));
}

#[test]
fn mappers_test_tuple() {
    let kv = KV::new(&"key1".to_string(), &"value1".to_string());
    assert_eq!(true, (eq("key1".to_string()), any()).map(&kv));
    assert_eq!(true, (eq("key1".to_string()), eq("value1".to_string())).map(&kv));
    assert_eq!(false, (eq("key1".to_string()), eq("value2".to_string())).map(&kv));
    assert_eq!(false, (eq("key2".to_string()), eq("value1".to_string())).map(&kv));
}

#[test]
fn mappers_test_len() {
    let c = len(eq(3usize));
    assert_eq!(true, c.map(&"foo".to_string()));
    assert_eq!(false, c.map(&"foobar".to_string()));
    assert_eq!(true, c.map(&b"foo".to_vec()));
    assert_eq!(false, c.map(&b"foobar".to_vec()));
}

#[test]
fn test_inspect() {
    let c = inspect(httptest::mappers::matches("^foobar$").unwrap());
    let lowered = lowercase(c);
    assert_eq!(true, lowered.map(&"Foobar".to_string()));
    assert_eq!(false, lowered.map(&"Foobar1".to_string()));
}

#[test]
fn test_status_code() {
    let resp = HttpResponse::new(404, Vec::new(), b"".to_vec());
    assert!(response::status_code(eq(404u16)).map(&resp));

    let resp = HttpResponse::new(200, Vec::new(), b"".to_vec());
    assert!(response::status_code(eq(200u16)).map(&resp));
}

#[test]
fn response_test_headers() {
    let expected = vec![
        KV::new(&"host".to_string(), &b"example.com".to_vec()),
        KV::new(&"content-length".to_string(), &b"101".to_vec()),
    ];
    let headers = vec![
        KV::new(&"host".to_string(), &b"example.com".to_vec()),
        KV::new(&"content-length".to_string(), &b"101".to_vec()),
    ];
    let resp = HttpResponse::new(200, headers, b"".to_vec());
    assert!(response::headers(eq(expected)).map(&resp));
}

#[test]
fn response_test_body() {
    let resp = HttpResponse::new(200, Vec::new(), b"my request body".to_vec());
    assert!(response::body(eq("my request body".to_string())).map(&resp));
}
