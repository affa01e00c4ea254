use devwatchman::health::{health_request, interpret_health_response, HealthBackoff, ProbeFailure};

#[test]
fn ok_true_body_is_healthy() {
    assert!(interpret_health_response("HTTP/1.1 200 OK\r\n\r\n{\"ok\": true}"));
}

#[test]
fn http_1_0_status_is_accepted() {
    assert!(interpret_health_response("HTTP/1.0 200 OK\r\n\r\n{\"ok\":true}"));
}

#[test]
fn ok_false_body_is_not_healthy() {
    assert!(!interpret_health_response("HTTP/1.1 200 OK\r\n\r\n{\"ok\":false}"));
}

#[test]
fn error_status_is_not_healthy() {
    assert!(!interpret_health_response("HTTP/1.1 503 Service Unavailable\r\n\r\n{\"ok\": true}"));
    assert!(!interpret_health_response("HTTP/1.1 404 Not Found\r\n\r\nanything"));
}

#[test]
fn empty_body_is_not_healthy() {
    assert!(!interpret_health_response("HTTP/1.1 200 OK\r\n\r\n"));
    assert!(!interpret_health_response("HTTP/1.1 200 OK\r\n\r\n   \r\n"));
}

#[test]
fn missing_separator_is_not_healthy() {
    assert!(!interpret_health_response("HTTP/1.1 200 OK"));
    assert!(!interpret_health_response(""));
}

#[test]
fn spaces_inside_the_body_are_ignored() {
    assert!(interpret_health_response(
        "HTTP/1.1 200 OK\r\nContent-Type: application/json\r\n\r\n{ \"ok\" :  true }"
    ));
}

#[test]
fn headers_come_before_the_body() {
    // The status check reads the head, not the body.
    assert!(!interpret_health_response("X 500\r\n\r\nHTTP/1.1 200 {\"ok\":true}"));
}

#[test]
fn backoff_doubles_and_caps_at_one_second() {
    let mut b = HealthBackoff::new();
    assert_eq!(b.on_probe_failure(ProbeFailure::Unhealthy), 250);
    assert_eq!(b.on_probe_failure(ProbeFailure::Unhealthy), 500);
    assert_eq!(b.on_probe_failure(ProbeFailure::Unhealthy), 1000);
    assert_eq!(b.on_probe_failure(ProbeFailure::Unhealthy), 1000);
}

#[test]
fn deadline_is_forty_five_seconds() {
    let b = HealthBackoff::new();
    assert!(!b.deadline_exceeded(0));
    assert!(!b.deadline_exceeded(44999));
    assert!(b.deadline_exceeded(45000));
}

#[test]
fn timeout_text_without_any_diagnostic() {
    let b = HealthBackoff::new();
    assert_eq!(b.timeout_text(), "Backend didn't become healthy within 45s (no response)");
}

#[test]
fn timeout_text_carries_the_last_diagnostic() {
    let mut b = HealthBackoff::new();
    b.on_probe_failure(ProbeFailure::Failed(String::from("connection refused")));
    assert_eq!(b.timeout_text(), "Backend didn't become healthy within 45s (connection refused)");
    b.on_probe_failure(ProbeFailure::Unhealthy);
    assert_eq!(b.timeout_text(), "Backend didn't become healthy within 45s (unhealthy response)");
}

#[test]
fn health_request_is_the_fixed_probe_request() {
    assert_eq!(
        health_request(5173),
        "GET /api/health HTTP/1.1\r\nHost: 127.0.0.1:5173\r\nConnection: close\r\nAccept: application/json\r\n\r\n"
    );
}
