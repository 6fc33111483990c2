use avalon_sdk::error::SdkError;
use avalon_sdk::http::{
    backoff_ceiling_ms, backoff_delay_ms, error_message, is_retryable_status, map_error_response, retry_write_step,
    send_step, websocket_url, AttemptResult, ErrorBody, RetryConfig, SendStep, WriteStep,
};

fn body(error: &str, code: Option<&str>) -> Option<ErrorBody> {
    Some(ErrorBody { error: error.to_string(), code: code.map(str::to_string) })
}

#[test]
fn websocket_url_swaps_http_scheme_for_ws() {
    assert_eq!(
        websocket_url("http://127.0.0.1:8080", "/ws/presence?token=abc"),
        "ws://127.0.0.1:8080/ws/presence?token=abc"
    );
}

#[test]
fn websocket_url_swaps_https_scheme_for_wss() {
    assert_eq!(
        websocket_url("https://avalon.example", "/ws/presence?token=abc"),
        "wss://avalon.example/ws/presence?token=abc"
    );
}

#[test]
fn websocket_url_leaves_other_schemes_alone() {
    assert_eq!(websocket_url("ws://x", "/p"), "ws://x/p");
}

#[test]
fn maps_401_to_unauthorized() {
    assert_eq!(map_error_response(401, &body("unauthorized", Some("UNAUTHORIZED"))), SdkError::Unauthorized);
}

#[test]
fn maps_403_capability_to_capability_not_granted() {
    assert_eq!(
        map_error_response(403, &body("forbidden", Some("FORBIDDEN"))),
        SdkError::CapabilityNotGranted("FORBIDDEN".to_string())
    );
}

#[test]
fn maps_409_to_conflict() {
    assert_eq!(
        map_error_response(409, &body("conflict", Some("ALREADY_FRIENDS"))),
        SdkError::Conflict("ALREADY_FRIENDS".to_string())
    );
}

#[test]
fn maps_every_bucket_by_status() {
    assert_eq!(map_error_response(404, &body("gone", None)), SdkError::NotFound("gone".to_string()));
    assert_eq!(map_error_response(400, &body("bad", Some("BAD"))), SdkError::Rejected { reason: "BAD".to_string() });
    assert_eq!(map_error_response(422, &body("bad", None)), SdkError::Rejected { reason: "bad".to_string() });
    assert_eq!(
        map_error_response(429, &None),
        SdkError::Unavailable { retried: 0, detail: "429 Too Many Requests".to_string() }
    );
    assert_eq!(
        map_error_response(500, &body("boom", None)),
        SdkError::Unavailable { retried: 0, detail: "boom".to_string() }
    );
    assert_eq!(
        map_error_response(418, &None),
        SdkError::Protocol("418 I'm a teapot: 418 I'm a teapot".to_string())
    );
}

#[test]
fn error_messages_prefer_the_stable_code() {
    assert_eq!(error_message(404, &body("not here", Some("NOT_FOUND"))), "NOT_FOUND");
    assert_eq!(error_message(404, &body("not here", None)), "not here");
    assert_eq!(error_message(404, &None), "404 Not Found");
}

#[test]
fn only_502_503_504_are_retryable() {
    assert!(is_retryable_status(502) && is_retryable_status(503) && is_retryable_status(504));
    assert!(!is_retryable_status(500) && !is_retryable_status(429) && !is_retryable_status(200));
}

#[test]
fn retries_on_503_then_succeeds() {
    assert_eq!(send_step(true, 3, 0, AttemptResult::Status(503)), SendStep::Retry { attempt: 1 });
    assert_eq!(send_step(true, 3, 1, AttemptResult::Status(200)), SendStep::Deliver);
}

#[test]
fn does_not_retry_write_without_idempotency_key() {
    assert_eq!(send_step(false, 3, 0, AttemptResult::Status(503)), SendStep::Unavailable { retried: 0 });
    assert_eq!(
        send_step(false, 3, 0, AttemptResult::TransportFailure { connectivity: true }),
        SendStep::Unavailable { retried: 0 }
    );
}

#[test]
fn retries_stop_after_the_configured_count() {
    assert_eq!(send_step(true, 2, 2, AttemptResult::Status(502)), SendStep::Unavailable { retried: 2 });
    assert_eq!(send_step(true, 2, 1, AttemptResult::TransportFailure { connectivity: true }), SendStep::Retry { attempt: 2 });
    assert_eq!(send_step(true, 2, 0, AttemptResult::TransportFailure { connectivity: false }), SendStep::Protocol);
    assert_eq!(send_step(true, 2, 0, AttemptResult::Status(404)), SendStep::Deliver);
}

#[test]
fn whole_writes_retry_only_unavailability() {
    assert_eq!(
        retry_write_step(3, 0, SdkError::Unavailable { retried: 0, detail: "x".to_string() }),
        WriteStep::Retry { attempt: 1 }
    );
    assert_eq!(
        retry_write_step(3, 3, SdkError::Unavailable { retried: 0, detail: "x".to_string() }),
        WriteStep::Fail(SdkError::Unavailable { retried: 3, detail: "x".to_string() })
    );
    assert_eq!(retry_write_step(3, 0, SdkError::Unauthorized), WriteStep::Fail(SdkError::Unauthorized));
}

#[test]
fn backoff_doubles_up_to_thirty_seconds() {
    let retry = RetryConfig { max_retries: 3, base_delay_ms: 200, request_timeout_ms: 10_000 };
    assert_eq!(backoff_ceiling_ms(&retry, 1), 200);
    assert_eq!(backoff_ceiling_ms(&retry, 2), 400);
    assert_eq!(backoff_ceiling_ms(&retry, 0), 200);
    assert_eq!(backoff_ceiling_ms(&retry, 8), 25_600);
    assert_eq!(backoff_ceiling_ms(&retry, 9), 30_000);
    assert_eq!(backoff_ceiling_ms(&retry, 100), 30_000);
    for attempt in 0..20 {
        assert!(backoff_delay_ms(&retry, attempt) <= backoff_ceiling_ms(&retry, attempt));
    }
    let none = RetryConfig { max_retries: 0, base_delay_ms: 0, request_timeout_ms: 1 };
    assert_eq!(backoff_delay_ms(&none, 5), 0);
}

#[test]
fn retry_defaults() {
    assert_eq!(
        RetryConfig::default(),
        RetryConfig { max_retries: 3, base_delay_ms: 200, request_timeout_ms: 10_000 }
    );
}

#[test]
fn error_texts_match_their_display() {
    assert_eq!(SdkError::Unauthorized.message(), "unauthorized");
    assert_eq!(
        SdkError::Unavailable { retried: 2, detail: "down".to_string() }.message(),
        "avalon-server unavailable after 2 retries: down"
    );
    assert_eq!(
        SdkError::RateLimited { retry_after: Some(5) }.message(),
        "rate limited by avalon-server (retry after Some(5s))"
    );
    assert_eq!(
        SdkError::RateLimited { retry_after: None }.message(),
        "rate limited by avalon-server (retry after None)"
    );
    assert_eq!(SdkError::Rejected { reason: "bad".to_string() }.message(), "rejected: bad");
    assert_eq!(SdkError::RateLimited { retry_after: Some(5) }.retry_after(), Some(5));
    assert_eq!(SdkError::Unauthorized.retry_after(), None);
    assert_eq!(SdkError::RateLimited { retry_after: None }.http_status(), Some(429));
    assert_eq!(SdkError::Unauthorized.http_status(), Some(401));
    assert_eq!(SdkError::NotFound("x".to_string()).http_status(), None);
}
