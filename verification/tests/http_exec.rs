use webex::error::Error;
use webex::http::{HttpExecutor, HttpStep, RetryPolicy, parse_retry_after};
use webex::request::{encode_query, Method, Request};
use webex::room::rooms_from_body;

fn default_executor() -> HttpExecutor {
    HttpExecutor::new(RetryPolicy::new())
}

#[test]
fn success_returns_the_raw_body() {
    let mut exec = default_executor();
    match exec.on_response(200, None, "{\"items\":[]}") {
        HttpStep::Success(body) => assert_eq!(body, "{\"items\":[]}"),
        _ => panic!("a 2xx response must succeed"),
    }
    assert_eq!(exec.attempts(), 1);
}

#[test]
fn unauthorized_fails_at_once_without_retry() {
    let mut exec = default_executor();
    match exec.on_response(401, None, "") {
        HttpStep::Fail(e) => assert_eq!(e, Error::AuthenticationFailure),
        _ => panic!("401 must fail as an authentication failure"),
    }
    assert_eq!(exec.attempts(), 1);
}

#[test]
fn forbidden_fails_at_once_without_retry() {
    let mut exec = default_executor();
    match exec.on_response(403, None, "{\"message\":\"no\"}") {
        HttpStep::Fail(e) => assert_eq!(e, Error::AuthenticationFailure),
        _ => panic!("403 must fail as an authentication failure"),
    }
    assert_eq!(exec.attempts(), 1);
}

#[test]
fn rate_limit_retries_with_the_server_indicated_wait() {
    let mut exec = default_executor();
    match exec.on_response(429, Some(2), "") {
        HttpStep::Retry(wait) => assert!(wait >= 2),
        _ => panic!("a rate limit within budget must be retried"),
    }
}

#[test]
fn rate_limit_scenario_two_attempts_three_rooms() {
    let body = "{\"items\":[\
{\"id\":\"r1\",\"title\":\"One\",\"type\":\"group\",\"created\":\"2024-01-01T00:00:00.000Z\"},\
{\"id\":\"r2\",\"title\":null,\"type\":\"direct\",\"created\":\"2024-02-01T00:00:00.000Z\"},\
{\"id\":\"r3\",\"title\":\"Three\",\"type\":\"group\",\"created\":\"2024-03-01T00:00:00.000Z\"}]}";
    let mut exec = default_executor();
    let wait = match exec.on_response(429, Some(2), "") {
        HttpStep::Retry(wait) => wait,
        _ => panic!("the first attempt must be retried"),
    };
    assert!(wait >= 2);
    let delivered = match exec.on_response(200, None, body) {
        HttpStep::Success(delivered) => delivered,
        _ => panic!("the second attempt must succeed"),
    };
    assert_eq!(exec.attempts(), 2);
    let rooms = rooms_from_body(delivered.as_str()).expect("a canonical room list");
    assert_eq!(rooms.len(), 3);
    assert_eq!(rooms[0].id, "r1");
    assert_eq!(rooms[1].title, None);
    assert_eq!(rooms[2].id, "r3");
}

#[test]
fn rate_limit_with_exhausted_budget_surfaces_the_error() {
    let policy = RetryPolicy { max_attempts: 1, base_backoff_secs: 1, max_wait_secs: 60 };
    let mut exec = HttpExecutor::new(policy);
    match exec.on_response(429, Some(1), "") {
        HttpStep::Fail(e) => assert_eq!(e, Error::RateLimited(429, Some(1))),
        _ => panic!("an exhausted budget must fail as rate limited"),
    }
}

#[test]
fn rate_limit_hint_above_the_wait_cap_is_not_honoured() {
    let mut exec = default_executor();
    match exec.on_response(429, Some(3600), "") {
        HttpStep::Fail(e) => assert_eq!(e, Error::RateLimited(429, Some(3600))),
        _ => panic!("a wait above the cap must not be slept"),
    }
}

#[test]
fn rate_limit_without_hint_uses_the_backoff_schedule() {
    let mut exec = default_executor();
    match exec.on_response(429, None, "") {
        HttpStep::Retry(wait) => assert_eq!(wait, 1),
        _ => panic!("a rate limit within budget must be retried"),
    }
}

#[test]
fn server_error_with_message_scenario() {
    let mut exec = default_executor();
    match exec.on_response(500, None, "{\"message\":\"internal error\"}") {
        HttpStep::Fail(e) => {
            assert_eq!(e, Error::HttpStatusWithMessage(500, "internal error".to_string()));
        },
        _ => panic!("500 must fail on first occurrence"),
    }
    assert_eq!(exec.attempts(), 1);
}

#[test]
fn server_error_without_message_carries_the_bare_status() {
    let mut exec = default_executor();
    match exec.on_response(503, None, "downstream unavailable") {
        HttpStep::Fail(e) => assert_eq!(e, Error::HttpStatus(503)),
        _ => panic!("503 must fail on first occurrence"),
    }
}

#[test]
fn client_error_with_non_string_message_carries_the_bare_status() {
    let mut exec = default_executor();
    match exec.on_response(404, None, "{\"message\":42}") {
        HttpStep::Fail(e) => assert_eq!(e, Error::HttpStatus(404)),
        _ => panic!("404 must fail on first occurrence"),
    }
}

#[test]
fn backoff_doubles_up_to_the_cap() {
    let policy = RetryPolicy::new();
    assert_eq!(policy.backoff_secs(0), 1);
    assert_eq!(policy.backoff_secs(1), 2);
    assert_eq!(policy.backoff_secs(5), 32);
    assert_eq!(policy.backoff_secs(6), 60);
    assert_eq!(policy.backoff_secs(20), 60);
}

#[test]
fn retry_after_header_values_parse_exactly() {
    assert_eq!(parse_retry_after("2"), Some(2));
    assert_eq!(parse_retry_after("0"), Some(0));
    assert_eq!(parse_retry_after("120"), Some(120));
    assert_eq!(parse_retry_after("18446744073709551615"), Some(u64::MAX));
    assert_eq!(parse_retry_after("18446744073709551616"), None);
    assert_eq!(parse_retry_after(""), None);
    assert_eq!(parse_retry_after("12x"), None);
    assert_eq!(parse_retry_after("-1"), None);
    assert_eq!(parse_retry_after("Wed, 21 Oct 2015"), None);
}

#[test]
fn query_pairs_are_form_urlencoded() {
    let pairs = vec![
        ("max".to_string(), "10".to_string()),
        ("q".to_string(), "a b".to_string()),
    ];
    let encoded = encode_query(&pairs).expect("string pairs encode");
    assert_eq!(encoded, "max=10&q=a+b");
}

#[test]
fn query_pairs_with_exotic_text_still_encode() {
    let pairs = vec![("cl\u{e9}".to_string(), "a&b=c %\n".to_string())];
    let encoded = encode_query(&pairs).expect("string pairs always encode");
    assert_eq!(encoded, "cl%C3%A9=a%26b%3Dc+%25%0A");
}

#[test]
fn empty_query_encodes_to_nothing() {
    let pairs: Vec<(String, String)> = Vec::new();
    let encoded = encode_query(&pairs).expect("string pairs encode");
    assert_eq!(encoded, "");
}

#[test]
fn request_with_relative_path_is_invalid_usage() {
    let r = Request::new(Method::Get, "rooms".to_string(), Vec::new(), None);
    match r {
        Err(Error::InvalidUsage(_)) => {},
        _ => panic!("a relative path must be refused before any network call"),
    }
}

#[test]
fn request_with_empty_path_is_invalid_usage() {
    let r = Request::new(Method::Post, String::new(), Vec::new(), Some("{}".to_string()));
    match r {
        Err(Error::InvalidUsage(_)) => {},
        _ => panic!("an empty path must be refused before any network call"),
    }
}

#[test]
fn request_builds_and_encodes_its_query() {
    let query = vec![("max".to_string(), "3".to_string())];
    let req = Request::new(Method::Get, "/v1/rooms".to_string(), query, None)
        .expect("an absolute path is accepted");
    assert_eq!(req.path, "/v1/rooms");
    assert_eq!(req.query_string().expect("string pairs encode"), "max=3");
}

#[test]
fn error_accessors_expose_category_and_status() {
    assert_eq!(Error::RateLimited(429, Some(7)).status_code(), Some(429));
    assert_eq!(Error::HttpStatus(500).status_code(), Some(500));
    assert_eq!(Error::AuthenticationFailure.status_code(), None);
    assert_eq!(Error::AuthenticationFailure.category(), "authentication failure");
    assert_eq!(Error::Encode("cause".to_string()).category(), "encode failure");
    assert_eq!(Error::TransportIo("reset".to_string()).category(), "transport I/O failure");
}

#[test]
fn bare_strings_become_the_fallback_category() {
    let e: Error = Error::from("something odd".to_string());
    assert_eq!(e, Error::Uncategorized("something odd".to_string()));
    let e2 = Error::uncategorized("also odd");
    assert_eq!(e2, Error::Uncategorized("also odd".to_string()));
}
