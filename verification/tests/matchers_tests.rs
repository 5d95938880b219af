//! Tests for the matcher combinators.

use httptest::http_types::HttpRequest;
use httptest::input::MatchInput;
use httptest::matchers::request;
use httptest::matchers::{
    all_of, any, any_of, contains, eq, json_decoded, key, len, lowercase, not, url_decoded,
    ExecutionContext, Matcher, KV,
};

fn eval<I: MatchInput, M: Matcher<I>>(matcher: &M, input: &I) -> bool {
    ExecutionContext::evaluate(matcher, input)
}

fn get_request(uri: &str, body: &str) -> HttpRequest {
    request_with_method("GET", uri, body)
}

fn request_with_method(method: &str, uri: &str, body: &str) -> HttpRequest {
    // Split a URI of the form scheme://host/path?query into path and query.
    let after_scheme = match uri.find("://") {
        Some(i) => &uri[i + 3..],
        None => uri,
    };
    let path_start = after_scheme.find('/').unwrap_or(after_scheme.len());
    let path_and_query = &after_scheme[path_start..];
    let (path, query) = match path_and_query.find('?') {
        Some(i) => (&path_and_query[..i], &path_and_query[i + 1..]),
        None => (path_and_query, ""),
    };
    let path = if path.is_empty() { "/" } else { path };
    HttpRequest::new(
        method.to_string(),
        path.to_string(),
        query.to_string(),
        Vec::new(),
        body.as_bytes().to_vec(),
    )
}

#[test]
fn matchers_test_eq() {
    let c = eq("foo".to_string());
    assert_eq!(false, eval(&c, &"foobar".to_string()));
    assert_eq!(false, eval(&c, &"bazfoobar".to_string()));
    assert_eq!(false, eval(&c, &"bar".to_string()));
    assert_eq!(true, eval(&c, &"foo".to_string()));
}

#[test]
fn matchers_test_matches() {
    // regex from str
    let c = httptest::matchers::matches(r#"^foo\d*bar$"#).unwrap();
    assert_eq!(true, eval(&c, &"foobar".to_string()));
    assert_eq!(true, eval(&c, &"foo99bar".to_string()));
    assert_eq!(false, eval(&c, &"foo99barz".to_string()));
    assert_eq!(false, eval(&c, &"bat".to_string()));

    // regex from String
    let c = httptest::matchers::matches(r#"^foo\d*bar$"#.to_owned().as_str()).unwrap();
    assert_eq!(true, eval(&c, &"foobar".to_string()));
    assert_eq!(true, eval(&c, &"foo99bar".to_string()));
    assert_eq!(false, eval(&c, &"foo99barz".to_string()));
    assert_eq!(false, eval(&c, &"bat".to_string()));

    // case insensitive matching
    let c = httptest::matchers::matches("(?i)foobar").unwrap();
    assert_eq!(true, eval(&c, &"foobar".to_string()));
    assert_eq!(true, eval(&c, &"FOOBAR".to_string()));
    assert_eq!(false, eval(&c, &"FOO99BAR".to_string()));

    // an invalid pattern is rejected at construction
    assert!(httptest::matchers::matches("(unclosed").is_none());
}

#[test]
fn matchers_test_not() {
    let c = not(httptest::matchers::matches(r#"^foo\d*bar$"#).unwrap());
    assert_eq!(false, eval(&c, &"foobar".to_string()));
    assert_eq!(false, eval(&c, &"foo99bar".to_string()));
    assert_eq!(true, eval(&c, &"foo99barz".to_string()));
    assert_eq!(true, eval(&c, &"bat".to_string()));
}

#[test]
fn matchers_test_all_of() {
    let c = all_of(vec![httptest::matchers::matches("foo").unwrap(), httptest::matchers::matches("bar").unwrap()]);
    assert_eq!(true, eval(&c, &"foobar".to_string()));
    assert_eq!(true, eval(&c, &"barfoo".to_string()));
    assert_eq!(false, eval(&c, &"foo".to_string()));
    assert_eq!(false, eval(&c, &"bar".to_string()));
}

#[test]
fn matchers_test_all_of_empty_is_true() {
    let c: httptest::matchers::AllOf<httptest::matchers::Matches> = all_of(vec![]);
    assert_eq!(true, eval(&c, &"anything".to_string()));
}

#[test]
fn matchers_test_any_of() {
    let c = any_of(vec![httptest::matchers::matches("foo").unwrap(), httptest::matchers::matches("bar").unwrap()]);
    assert_eq!(true, eval(&c, &"foobar".to_string()));
    assert_eq!(true, eval(&c, &"barfoo".to_string()));
    assert_eq!(true, eval(&c, &"foo".to_string()));
    assert_eq!(true, eval(&c, &"bar".to_string()));
    assert_eq!(false, eval(&c, &"baz".to_string()));
}

#[test]
fn matchers_test_any_of_empty_is_false() {
    let c: httptest::matchers::AnyOf<httptest::matchers::Matches> = any_of(vec![]);
    assert_eq!(false, eval(&c, &"anything".to_string()));
}

#[test]
fn matchers_test_url_decoded() {
    let expected = vec![
        KV::new(&"key 1".to_string(), &"value 1".to_string()),
        KV::new(&"key2".to_string(), &"".to_string()),
    ];
    let c = request::query(url_decoded(eq(expected)));
    let req = get_request("https://example.com/path?key%201=value%201&key2", "");
    assert_eq!(true, eval(&c, &req));
}

#[test]
fn matchers_test_json_decoded() {
    let c = json_decoded(eq(httptest::json::Json::parse(r#"{"foo": 1, "bar": 99}"#).unwrap()));
    assert_eq!(true, eval(&c, &r#"{"foo": 1, "bar": 99}"#.to_string()));
    assert_eq!(true, eval(&c, &r#"{"bar": 99, "foo": 1}"#.to_string()));
    assert_eq!(false, eval(&c, &r#"{"foo": 1, "bar": 100}"#.to_string()));
}

#[test]
fn matchers_test_json_decoded_bad_input_does_not_match() {
    let c = json_decoded(eq(httptest::json::Json::parse("{}").unwrap()));
    assert_eq!(false, eval(&c, &"not json at all {".to_string()));
}

#[test]
fn matchers_test_lowercase() {
    let c = lowercase(httptest::matchers::matches("foo").unwrap());
    assert_eq!(true, eval(&c, &"FOO".to_string()));
    assert_eq!(true, eval(&c, &"FoOBar".to_string()));
    assert_eq!(true, eval(&c, &"foobar".to_string()));
    assert_eq!(false, eval(&c, &"bar".to_string()));
}

#[test]
fn matchers_test_contains() {
    let c = contains(eq(100));
    assert_eq!(true, eval(&c, &vec![100, 200, 300]));
    assert_eq!(false, eval(&c, &vec![99, 200, 300]));
}

#[test]
fn matchers_test_key() {
    let kv = KV::new(&"key1".to_string(), &"value1".to_string());
    assert_eq!(true, eval(&key(eq("key1".to_string())), &kv));
    assert_eq!(false, eval(&key(eq("key2".to_string())), &kv));
}

#[test]
fn matchers_test_value() {
    let kv = KV::new(&"key1".to_string(), &"value1".to_string());
    assert_eq!(true, eval(&httptest::matchers::value(eq("value1".to_string())), &kv));
    assert_eq!(false, eval(&httptest::matchers::value(eq("value2".to_string())), &kv));
}

#[test]
fn matchers_test_tuple() {
    let kv = KV::new(&"key1".to_string(), &"value1".to_string());
    assert_eq!(true, eval(&(eq("key1".to_string()), any()), &kv));
    assert_eq!(
        true,
        eval(&(eq("key1".to_string()), eq("value1".to_string())), &kv)
    );
    assert_eq!(
        false,
        eval(&(eq("key1".to_string()), eq("value2".to_string())), &kv)
    );
    assert_eq!(
        false,
        eval(&(eq("key2".to_string()), eq("value1".to_string())), &kv)
    );
}

#[test]
fn matchers_test_len() {
    let c = len(eq(3usize));
    assert!(eval(&c, &"foo".to_string()));
    assert!(!eval(&c, &"foobar".to_string()));
    assert!(eval(&c, &b"foo".to_vec()));
    assert!(!eval(&c, &b"foobar".to_vec()));

    let req = get_request("/test?foo=bar", "foobar");
    assert!(eval(&request::body(len(eq(6usize))), &req));
}

#[test]
fn request_test_path() {
    let req = get_request("https://example.com/foo", "");
    assert!(eval(&request::path(eq("/foo".to_string())), &req));

    let req = get_request("https://example.com/foobar", "");
    assert!(eval(&request::path(eq("/foobar".to_string())), &req));
}

#[test]
fn request_test_query() {
    let req = get_request("https://example.com/path?foo=bar&baz=bat", "");
    assert!(eval(&request::query(eq("foo=bar&baz=bat".to_string())), &req));
    let req = get_request("https://example.com/path?search=1", "");
    assert!(eval(&request::query(eq("search=1".to_string())), &req));
}

#[test]
fn request_test_method() {
    let req = get_request("https://example.com/foo", "");
    assert!(eval(&request::method(eq("GET".to_string())), &req));
    let req = request_with_method("POST", "https://example.com/foobar", "");
    assert!(eval(&request::method(eq("POST".to_string())), &req));
}

#[test]
fn request_test_headers() {
    let expected = vec![
        KV::new(&"host".to_string(), &b"example.com".to_vec()),
        KV::new(&"content-length".to_string(), &b"101".to_vec()),
    ];
    let mut req = get_request("https://example.com/path?key%201=value%201&key2", "");
    req.headers.push(KV::new(&"host".to_string(), &b"example.com".to_vec()));
    req.headers
        .push(KV::new(&"content-length".to_string(), &b"101".to_vec()));

    assert!(eval(&request::headers(eq(expected)), &req));
}

#[test]
fn request_test_body() {
    let req = get_request("https://example.com/foo", "my request body");
    assert!(eval(&request::body(eq("my request body".to_string())), &req));
}

#[test]
fn test_method_path() {
    let req = get_request("https://example.com/foo", "");
    assert!(eval(&request::method_path(eq("GET".to_string()), eq("/foo".to_string())), &req));
    assert!(!eval(&request::method_path(eq("POST".to_string()), eq("/foo".to_string())), &req));
    assert!(!eval(&request::method_path(eq("GET".to_string()), eq("/".to_string())), &req));

    let req = request_with_method("POST", "https://example.com/foobar", "");
    assert!(eval(
        &request::method_path(eq("POST".to_string()), eq("/foobar".to_string())),
        &req
    ));
    assert!(!eval(
        &request::method_path(eq("GET".to_string()), eq("/foobar".to_string())),
        &req
    ));
    assert!(!eval(&request::method_path(eq("POST".to_string()), eq("/".to_string())), &req));
}

#[test]
fn matchers_test_trace_records_sub_matches() {
    // Chaining through a composite matcher records one trace entry per
    // sub-match, naming the matcher, its depth and its decision.
    let c = not(httptest::matchers::matches("^foo").unwrap());
    let mut ctx = ExecutionContext::new();
    let r = c.matches(&"bar".to_string(), &mut ctx);
    assert!(r);
    assert_eq!(ctx.trace.len(), 1);
    assert_eq!(ctx.trace[0].name, "Matches(^foo)");
    assert_eq!(ctx.trace[0].depth, 1);
    assert_eq!(ctx.trace[0].matched, false);
}

#[test]
fn matchers_test_describe_names_the_tree() {
    let c = not(lowercase(httptest::matchers::matches("foo").unwrap()));
    assert_eq!(
        <_ as Matcher<String>>::describe(&c),
        "Not(Lowercase(Matches(foo)))"
    );
    let c = all_of(vec![
        httptest::matchers::matches("foo").unwrap(),
        httptest::matchers::matches("bar").unwrap(),
    ]);
    assert_eq!(
        <_ as Matcher<String>>::describe(&c),
        "AllOf[Matches(foo), Matches(bar)]"
    );
}
