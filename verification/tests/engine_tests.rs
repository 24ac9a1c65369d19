use std::time::{Duration, UNIX_EPOCH};

use hoppscotch_relay::error::{InterceptorError, RelayError};
use hoppscotch_relay::error::TimeoutPhase;
use hoppscotch_relay::header::wire_header_lines;
use hoppscotch_relay::interop::{
    AuthType, ContentType, Method, Proxy, Request, Response, ResponseMeta, SizeInfo, TimingInfo,
};
use hoppscotch_relay::registry::{
    cancel, finish_run, resolve_outcome, CancellationRegistry, WorkerOutcome,
};
use hoppscotch_relay::request::prepare;
use hoppscotch_relay::response::{
    accumulate_header, get_status_text, split_header_line, ResponseHandler,
};

fn dummy_response(id: i64) -> Response {
    Response {
        id,
        status: 200,
        status_text: "OK".to_string(),
        headers: Vec::new(),
        content: ContentType::Text { content: String::new() },
        meta: ResponseMeta {
            timing: TimingInfo { start: 0, end: 0 },
            size: SizeInfo { headers: 0, body: 0, total: 0 },
        },
    }
}

#[test]
fn repeated_header_name_produces_two_lines() {
    let headers = vec![("X-Test".to_string(), vec!["a".to_string(), "b".to_string()])];
    let lines = wire_header_lines(&headers);
    assert_eq!(lines, vec!["X-Test: a".to_string(), "X-Test: b".to_string()]);
}

#[test]
fn wire_lines_keep_entry_order() {
    let headers = vec![
        ("A".to_string(), vec!["1".to_string()]),
        ("B".to_string(), vec!["2".to_string(), "3".to_string()]),
        ("A".to_string(), vec!["4".to_string()]),
    ];
    let lines = wire_header_lines(&headers);
    assert_eq!(lines, vec!["A: 1", "B: 2", "B: 3", "A: 4"]);
}

#[test]
fn cancel_before_registration_is_noop() {
    let mut reg = CancellationRegistry::new();
    cancel(&mut reg, 42);
    assert!(!reg.contains(42));
    assert!(!reg.is_cancelled(42));
}

#[test]
fn cancel_after_registration_forces_cancelled_result() {
    let mut reg = CancellationRegistry::new();
    reg.register(1);
    cancel(&mut reg, 1);
    assert!(reg.is_cancelled(1));
    let outcome = WorkerOutcome::Completed { result: Ok(dummy_response(1)) };
    let r = finish_run(&mut reg, 1, outcome);
    assert!(matches!(r, Err(RelayError::RequestCancelled)));
    assert!(!reg.contains(1));
}

#[test]
fn slot_released_on_success_path() {
    let mut reg = CancellationRegistry::new();
    reg.register(5);
    let r = finish_run(&mut reg, 5, WorkerOutcome::Completed { result: Ok(dummy_response(5)) });
    assert!(r.is_ok());
    assert!(!reg.contains(5));
}

#[test]
fn slot_released_on_error_path() {
    let mut reg = CancellationRegistry::new();
    reg.register(6);
    let failed = WorkerOutcome::Completed { result: Err(RelayError::InvalidUrl) };
    let r = finish_run(&mut reg, 6, failed);
    assert!(matches!(r, Err(RelayError::InvalidUrl)));
    assert!(!reg.contains(6));
}

#[test]
fn slot_released_on_panic_path() {
    let mut reg = CancellationRegistry::new();
    reg.register(7);
    let r = finish_run(&mut reg, 7, WorkerOutcome::Panicked);
    match r {
        Err(RelayError::RequestRunError { message }) => {
            assert_eq!(message, "Request thread panicked");
        },
        _ => panic!("expected the distinct worker-failure error"),
    }
    assert!(!reg.contains(7));
}

#[test]
fn worker_failure_is_not_cancellation() {
    let r = resolve_outcome(true, WorkerOutcome::Panicked);
    match r {
        Err(RelayError::RequestRunError { message }) => {
            assert_eq!(message, "Request thread panicked");
        },
        _ => panic!("expected the distinct worker-failure error"),
    }
}

#[test]
fn duplicate_registration_overwrites_flag() {
    let mut reg = CancellationRegistry::new();
    reg.register(9);
    cancel(&mut reg, 9);
    assert!(reg.is_cancelled(9));
    reg.register(9);
    assert!(reg.contains(9));
    assert!(!reg.is_cancelled(9));
}

#[test]
fn status_text_table() {
    assert_eq!(get_status_text(200), "OK");
    assert_eq!(get_status_text(404), "Not Found");
    assert_eq!(get_status_text(418), "I'm a teapot");
    assert_eq!(get_status_text(503), "Service Unavailable");
    assert_eq!(get_status_text(999), "Unknown Status");
}

#[test]
fn timeout_phase_names() {
    assert_eq!(TimeoutPhase::Connect.as_str(), "connection establishment");
    assert_eq!(TimeoutPhase::Tls.as_str(), "TLS handshake");
    assert_eq!(TimeoutPhase::Response.as_str(), "response waiting");
}

#[test]
fn method_names() {
    assert_eq!(Method::Get.as_str(), "GET");
    assert_eq!(Method::Post.as_str(), "POST");
    assert_eq!(Method::Put.as_str(), "PUT");
    assert_eq!(Method::Delete.as_str(), "DELETE");
    assert_eq!(Method::Patch.as_str(), "PATCH");
    assert_eq!(Method::Head.as_str(), "HEAD");
    assert_eq!(Method::Options.as_str(), "OPTIONS");
}

#[test]
fn header_line_splits_on_first_colon() {
    let kv = split_header_line("Content-Type: text/html; charset=utf-8").unwrap();
    assert_eq!(kv.0, "Content-Type");
    assert_eq!(kv.1, "text/html; charset=utf-8");
    let kv = split_header_line("  X-A  :  b c  ").unwrap();
    assert_eq!(kv.0, "X-A");
    assert_eq!(kv.1, "b c");
    assert!(split_header_line("no-colon-line").is_none());
}

#[test]
fn accumulate_groups_repeated_names_in_wire_order() {
    let mut headers: Vec<(String, Vec<String>)> = Vec::new();
    accumulate_header(&mut headers, "Set-Cookie".to_string(), "a=1".to_string());
    accumulate_header(&mut headers, "Date".to_string(), "now".to_string());
    accumulate_header(&mut headers, "Set-Cookie".to_string(), "b=2".to_string());
    assert_eq!(headers.len(), 2);
    assert_eq!(headers[0].0, "Set-Cookie");
    assert_eq!(headers[0].1, vec!["a=1".to_string(), "b=2".to_string()]);
    assert_eq!(headers[1].0, "Date");
    assert_eq!(headers[1].1, vec!["now".to_string()]);
}

#[test]
fn response_build_sizes_and_timing() {
    let headers = vec![("Content-Type".to_string(), vec!["application/json".to_string()])];
    let body = b"{\"a\":1}".to_vec();
    let start = UNIX_EPOCH + Duration::from_millis(1000);
    let end = UNIX_EPOCH + Duration::from_millis(2500);
    let handler = ResponseHandler::new(7, headers, body, 200, 100, start, end);
    let resp = handler.build().unwrap();
    assert_eq!(resp.id, 7);
    assert_eq!(resp.status, 200);
    assert_eq!(resp.status_text, "OK");
    assert_eq!(resp.meta.size.headers, 100);
    assert_eq!(resp.meta.size.body, 7);
    assert_eq!(resp.meta.size.total, 107);
    assert_eq!(resp.meta.timing.start, 1000);
    assert_eq!(resp.meta.timing.end, 2500);
    match resp.content {
        ContentType::Json { content } => {
            let expected: serde_json::Value = serde_json::from_str("{\"a\":1}").unwrap();
            assert_eq!(content, expected);
        },
        _ => panic!("expected json content"),
    }
}

#[test]
fn pre_epoch_timestamp_is_parse_error() {
    if let Some(before) = UNIX_EPOCH.checked_sub(Duration::from_secs(1)) {
        let handler = ResponseHandler::new(1, Vec::new(), Vec::new(), 200, 0, before, before);
        match handler.calculate_timing() {
            Err(InterceptorError::Parse { cause, .. }) => assert!(cause.is_some()),
            _ => panic!("expected a parse error"),
        }
    }
}

#[test]
fn prepare_accumulates_headers_additively() {
    let req = Request {
        id: 3,
        url: "https://example.com/x".to_string(),
        method: Method::Post,
        headers: Some(vec![("X-Test".to_string(), vec!["a".to_string(), "b".to_string()])]),
        params: None,
        content: Some(ContentType::Text { content: "body".to_string() }),
        auth: Some(AuthType::Bearer { token: "tok".to_string() }),
        security: None,
        proxy: Some(Proxy { url: "http://proxy:8080".to_string() }),
    };
    let plan = prepare(&req).unwrap();
    assert_eq!(plan.method, "POST");
    assert_eq!(plan.url, "https://example.com/x");
    assert_eq!(
        plan.header_lines,
        vec![
            "X-Test: a".to_string(),
            "X-Test: b".to_string(),
            "Content-Type: text/plain".to_string(),
            "Authorization: Bearer tok".to_string(),
        ]
    );
    assert!(plan.credentials.is_none());
    assert!(!plan.digest_auth);
    assert!(plan.verify_peer);
    assert!(plan.verify_host);
    assert!(plan.client_cert.is_none());
    assert!(plan.ca_certs.is_empty());
    assert_eq!(plan.proxy_url.as_deref(), Some("http://proxy:8080"));
    assert!(plan.proxy_auth_auto);
}

#[test]
fn prepare_sets_basic_and_digest_credentials() {
    let mut req = Request {
        id: 1,
        url: "https://example.com".to_string(),
        method: Method::Get,
        headers: None,
        params: None,
        content: None,
        auth: Some(AuthType::Basic { username: "u".to_string(), password: "p".to_string() }),
        security: None,
        proxy: None,
    };
    let plan = prepare(&req).unwrap();
    assert_eq!(plan.credentials, Some(("u".to_string(), "p".to_string())));
    assert!(!plan.digest_auth);
    assert!(plan.payload.is_none());
    assert!(plan.header_lines.is_empty());

    req.auth = Some(AuthType::Digest {
        username: "du".to_string(),
        password: "dp".to_string(),
        realm: None,
        nonce: None,
        opaque: None,
        algorithm: None,
        qop: None,
    });
    let plan = prepare(&req).unwrap();
    assert_eq!(plan.credentials, Some(("du".to_string(), "dp".to_string())));
    assert!(plan.digest_auth);
}

#[test]
fn error_messages_are_descriptive() {
    let e = InterceptorError::Network { message: "boom".to_string(), cause: None };
    assert_eq!(e.message(), "Network error: boom");
    let e = InterceptorError::Abort { message: "stopped".to_string() };
    assert_eq!(e.message(), "Request aborted: stopped");
    let e = InterceptorError::Timeout { message: String::new(), phase: Some(TimeoutPhase::Tls) };
    assert_eq!(e.message(), "Request timed out during TLS handshake");
    let e = InterceptorError::Timeout { message: String::new(), phase: None };
    assert_eq!(e.message(), "Request timed out during execution");
}
