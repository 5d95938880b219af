//! Tests for the expectation registry, dispatch, cardinality bounds and
//! responders.

use httptest::http_types::HttpRequest;
use httptest::matchers::request;
use httptest::matchers::{any, eq};
use httptest::responders::{cycle, delay_and_then, json_encoded, status_code, url_encoded, IntoResponder};
use httptest::server::ServerState;
use httptest::times::{describe_times, IntoTimes, Times, TimesBound};
use httptest::Expectation;
use httptest::matchers::KV;

type PathMatcher = request::MethodPath<httptest::matchers::Eq<String>, httptest::matchers::Eq<String>>;

fn method_path(method: &str, path: &str) -> PathMatcher {
    request::method_path(eq(method.to_string()), eq(path.to_string()))
}

fn get(path: &str) -> HttpRequest {
    HttpRequest::new(
        "GET".to_string(),
        path.to_string(),
        "".to_string(),
        Vec::new(),
        Vec::new(),
    )
}

fn body_text(resp: &httptest::http_types::HttpResponse) -> String {
    String::from_utf8(resp.body.clone()).unwrap()
}

#[test]
fn test_server() {
    // Scenario: one expectation for GET /foo with the default cardinality of
    // exactly one; one matching request gets the configured response and
    // teardown reports no failure.
    let mut state: ServerState<PathMatcher> = ServerState::new();
    state.push_expectation(
        Expectation::matching(method_path("GET", "/foo")).respond_with(status_code(200)),
    );
    let (resp, delay) = state.on_req(get("/foo"));
    assert_eq!(resp.status, 200);
    assert_eq!(delay, 0);
    assert!(state.verify_and_clear().is_ok());
}

#[test]
fn test_expectation_cardinality_not_reached() {
    // Scenario: the expectation sees zero requests; teardown must fail and
    // report the received count and the expected bound.
    let mut state: ServerState<PathMatcher> = ServerState::new();
    state.push_expectation(
        Expectation::matching(method_path("GET", "/foo")).respond_with(status_code(200)),
    );
    let err = state.verify_and_clear().unwrap_err();
    assert!(err.contains("received 0; expected Exactly(1)"), "message: {}", err);
    assert!(
        err.contains("for matcher 'MethodPath(Eq(\"GET\"), Eq(\"/foo\"))'"),
        "message: {}",
        err
    );
    // The registry is reset whatever the verdict.
    assert!(state.verify_and_clear().is_ok());
}

#[test]
fn test_expectation_cardinality_exceeded() {
    // Scenario: cardinality exactly one, two matching requests. The first
    // gets the configured response, the second a 500 naming the counts, and
    // teardown fails too.
    let mut state: ServerState<PathMatcher> = ServerState::new();
    state.push_expectation(
        Expectation::matching(method_path("GET", "/foo")).respond_with(status_code(200)),
    );
    let (first, _) = state.on_req(get("/foo"));
    assert_eq!(first.status, 200);
    let (second, _) = state.on_req(get("/foo"));
    assert_eq!(second.status, 500);
    assert!(
        body_text(&second).contains("received 2; expected Exactly(1)"),
        "body: {}",
        body_text(&second)
    );
    let err = state.verify_and_clear().unwrap_err();
    assert!(err.contains("received 2; expected Exactly(1)"), "message: {}", err);
}

#[test]
fn test_no_matcher_found() {
    // Scenario: a request matching no expectation gets a 500 with the
    // no-matcher body, and teardown fails even though the one declared
    // expectation is satisfied.
    let mut state: ServerState<PathMatcher> = ServerState::new();
    state.push_expectation(
        Expectation::matching(method_path("GET", "/foo")).respond_with(status_code(200)),
    );
    let (ok_resp, _) = state.on_req(get("/foo"));
    assert_eq!(ok_resp.status, 200);
    let (resp, _) = state.on_req(get("/bar"));
    assert_eq!(resp.status, 500);
    assert_eq!(body_text(&resp), "No matcher found");
    let err = state.verify_and_clear().unwrap_err();
    assert!(err.contains("unexpected requests"), "message: {}", err);
    assert!(err.contains("GET /bar"), "message: {}", err);
}

#[test]
fn test_reverse_order_precedence() {
    // A broad expectation registered first and a narrower one registered
    // second: a request matching both is attributed to the second.
    let mut state: ServerState<request::Path<httptest::matchers::Matches>> = ServerState::new();
    state.push_expectation(
        Expectation::matching(request::path(httptest::matchers::matches("^/foo").unwrap()))
            .times(0usize..)
            .respond_with(status_code(200)),
    );
    state.push_expectation(
        Expectation::matching(request::path(httptest::matchers::matches("^/foo/bar$").unwrap()))
            .respond_with(status_code(201)),
    );
    let (resp, _) = state.on_req(get("/foo/bar"));
    // The narrower, later expectation answered.
    assert_eq!(resp.status, 201);
    assert_eq!(state.expected[0].hit_count, 0);
    assert_eq!(state.expected[1].hit_count, 1);
    assert!(state.verify_and_clear().is_ok());
}

#[test]
fn test_cycle() {
    // Scenario: a cycling responder over statuses 200 and 404 with
    // cardinality four; four requests see 200, 404, 200, 404 in order.
    let mut state: ServerState<PathMatcher> = ServerState::new();
    state.push_expectation(
        Expectation::matching(method_path("GET", "/foo"))
            .times(4usize)
            .respond_with(cycle(vec![status_code(200), status_code(404)])),
    );
    let mut statuses = Vec::new();
    for _ in 0..4 {
        let (resp, _) = state.on_req(get("/foo"));
        statuses.push(resp.status);
    }
    assert_eq!(statuses, vec![200, 404, 200, 404]);
    assert!(state.verify_and_clear().is_ok());
}

#[test]
fn test_json() {
    let mut state: ServerState<PathMatcher> = ServerState::new();
    let doc = httptest::json::Json::parse(r#"{"foo": "bar", "baz": 99}"#).unwrap();
    state.push_expectation(
        Expectation::matching(method_path("GET", "/foo")).respond_with(json_encoded(doc)),
    );
    let (resp, _) = state.on_req(get("/foo"));
    assert_eq!(resp.status, 200);
    let ct = resp
        .headers
        .iter()
        .find(|kv| kv.k == "Content-Type")
        .map(|kv| kv.v.clone())
        .unwrap();
    assert_eq!(ct, b"application/json".to_vec());
    // Canonical form orders object keys.
    assert_eq!(body_text(&resp), r#"{"baz":99,"foo":"bar"}"#);
    assert!(state.verify_and_clear().is_ok());
}

#[test]
fn test_url_encoded() {
    let mut state: ServerState<PathMatcher> = ServerState::new();
    let pairs = vec![
        KV::new(&"key".to_string(), &"value".to_string()),
        KV::new(&"k".to_string(), &"v".to_string()),
    ];
    state.push_expectation(
        Expectation::matching(method_path("GET", "/foo")).respond_with(url_encoded(&pairs)),
    );
    let (resp, _) = state.on_req(get("/foo"));
    assert_eq!(resp.status, 200);
    let ct = resp
        .headers
        .iter()
        .find(|kv| kv.k == "Content-Type")
        .map(|kv| kv.v.clone())
        .unwrap();
    assert_eq!(ct, b"application/x-www-form-urlencoded".to_vec());
    assert_eq!(body_text(&resp), "key=value&k=v");
    assert!(state.verify_and_clear().is_ok());
}

#[test]
fn test_delay_and_then() {
    let mut state: ServerState<PathMatcher> = ServerState::new();
    state.push_expectation(
        Expectation::matching(method_path("GET", "/foo"))
            .respond_with(delay_and_then(100, status_code(200).into_responder())),
    );
    let (resp, delay) = state.on_req(get("/foo"));
    assert_eq!(resp.status, 200);
    assert_eq!(delay, 100);
    assert!(state.verify_and_clear().is_ok());
}

#[test]
fn test_distinct_expectations_all_hit_once() {
    // Many expectations, one request each: every hit count ends at exactly
    // one, none lost, none double counted.
    let n = 8;
    let mut state: ServerState<PathMatcher> = ServerState::new();
    for i in 0..n {
        state.push_expectation(
            Expectation::matching(method_path("GET", &format!("/e{}", i)))
                .respond_with(status_code(200)),
        );
    }
    for i in (0..n).rev() {
        let (resp, _) = state.on_req(get(&format!("/e{}", i)));
        assert_eq!(resp.status, 200);
    }
    for i in 0..n {
        assert_eq!(state.expected[i].hit_count, 1);
    }
    assert!(state.verify_and_clear().is_ok());
}

#[test]
fn test_times_parsing() {
    // Cardinality bound parsing over every range form.
    assert_eq!(
        5usize.into_times(),
        Times { lower: TimesBound::Included(5), upper: TimesBound::Included(5) }
    );
    assert_eq!(
        (2usize..).into_times(),
        Times { lower: TimesBound::Included(2), upper: TimesBound::Unbounded }
    );
    assert_eq!(
        (..=7usize).into_times(),
        Times { lower: TimesBound::Unbounded, upper: TimesBound::Included(7) }
    );
    assert_eq!(
        (..7usize).into_times(),
        Times { lower: TimesBound::Unbounded, upper: TimesBound::Excluded(7) }
    );
    assert_eq!(
        (3usize..6usize).into_times(),
        Times { lower: TimesBound::Included(3), upper: TimesBound::Excluded(6) }
    );
    assert_eq!(
        (3usize..=6usize).into_times(),
        Times { lower: TimesBound::Included(3), upper: TimesBound::Included(6) }
    );
    assert_eq!(
        (..).into_times(),
        Times { lower: TimesBound::Unbounded, upper: TimesBound::Unbounded }
    );
}

#[test]
fn test_times_descriptions() {
    assert_eq!(describe_times(5usize.into_times()), "Exactly(5)");
    assert_eq!(describe_times((2usize..).into_times()), "AtLeast(2)");
    assert_eq!(describe_times((..=7usize).into_times()), "AtMost(7)");
    assert_eq!(describe_times((3usize..6usize).into_times()), "Between(3..=5)");
    assert_eq!(describe_times((3usize..=6usize).into_times()), "Between(3..=6)");
    assert_eq!(describe_times((..).into_times()), "Any");
}

#[test]
fn test_times_between_window() {
    // A half-open range 3..6 admits 3, 4 and 5 matching requests and no
    // more; the first five requests are answered, the sixth overflows.
    let mut state: ServerState<PathMatcher> = ServerState::new();
    state.push_expectation(
        Expectation::matching(method_path("GET", "/foo"))
            .times(3usize..6usize)
            .respond_with(status_code(200)),
    );
    for _ in 0..5 {
        let (resp, _) = state.on_req(get("/foo"));
        assert_eq!(resp.status, 200);
    }
    let (resp, _) = state.on_req(get("/foo"));
    assert_eq!(resp.status, 500);
    let err = state.verify_and_clear().unwrap_err();
    assert!(err.contains("received 6; expected Between(3..=5)"), "message: {}", err);
}

#[test]
fn test_at_least_satisfied() {
    let mut state: ServerState<PathMatcher> = ServerState::new();
    state.push_expectation(
        Expectation::matching(method_path("GET", "/foo"))
            .times(2usize..)
            .respond_with(status_code(200)),
    );
    let (r1, _) = state.on_req(get("/foo"));
    assert_eq!(r1.status, 200);
    let err = state.verify_and_clear().unwrap_err();
    assert!(err.contains("received 1; expected AtLeast(2)"), "message: {}", err);
}

#[test]
fn test_any_matcher_catches_all() {
    let mut state: ServerState<httptest::matchers::Any> = ServerState::new();
    state.push_expectation(
        Expectation::matching(any()).times(0usize..).respond_with(status_code(204)),
    );
    let (resp, _) = state.on_req(get("/whatever"));
    assert_eq!(resp.status, 204);
    assert!(state.verify_and_clear().is_ok());
}

#[test]
fn test_concurrent_requests_no_lost_hits() {
    // Many concurrent requests, each matching a distinct expectation with
    // cardinality exactly one: every hit lands, none is lost or doubled.
    let n = 8;
    let state = std::sync::Arc::new(std::sync::Mutex::new(
        ServerState::<PathMatcher>::new(),
    ));
    {
        let mut s = state.lock().unwrap();
        for i in 0..n {
            s.push_expectation(
                Expectation::matching(method_path("GET", &format!("/e{}", i)))
                    .respond_with(status_code(200)),
            );
        }
    }
    let runtime = tokio::runtime::Builder::new_multi_thread()
        .worker_threads(4)
        .build()
        .unwrap();
    runtime.block_on(async {
        let mut handles = Vec::new();
        for i in 0..n {
            let st = state.clone();
            handles.push(tokio::spawn(async move {
                let (resp, _) = st.lock().unwrap().on_req(get(&format!("/e{}", i)));
                assert_eq!(resp.status, 200);
            }));
        }
        for h in handles {
            h.await.unwrap();
        }
    });
    let mut s = state.lock().unwrap();
    for i in 0..n {
        assert_eq!(s.expected[i].hit_count, 1);
    }
    assert!(s.verify_and_clear().is_ok());
}

#[test]
fn test_times_description_edges() {
    // An exclusive upper bound of zero admits no count and renders at zero;
    // an exclusive lower bound renders one above itself.
    assert_eq!(
        describe_times(Times { lower: TimesBound::Unbounded, upper: TimesBound::Excluded(0) }),
        "AtMost(0)"
    );
    assert_eq!(
        describe_times(Times { lower: TimesBound::Excluded(1), upper: TimesBound::Unbounded }),
        "AtLeast(2)"
    );
    assert_eq!(
        describe_times(Times { lower: TimesBound::Included(0), upper: TimesBound::Included(0) }),
        "Exactly(0)"
    );
}

#[test]
fn test_record_hit() {
    let mut e = Expectation::matching(method_path("GET", "/foo")).respond_with(status_code(200));
    assert_eq!(e.hit_count, 0);
    assert!(!e.is_satisfied());
    // The first hit stays within Exactly(1); the second exceeds it.
    assert!(!e.record_hit());
    assert_eq!(e.hit_count, 1);
    assert!(e.is_satisfied());
    assert!(e.record_hit());
    assert_eq!(e.hit_count, 2);
    assert!(!e.is_satisfied());
}
