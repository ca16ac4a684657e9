//! Tests of the admission pipeline: routing, admission, classification.

use totp_server::BoundedQueue;
use totp_server::Config;
use totp_server::InputToken;
use totp_server::Outcome;
use totp_server::Pipeline;
use totp_server::Signal;
use totp_server::classify;
use totp_server::classify_layer_error;
use totp_server::compute;
use totp_server::counter_of;

const SECRET: &[u8] = b"12345678901234567890";
const NOW: u64 = 1111111109;
const CLIENT: u64 = 7;

fn new_pipeline(rate_limit: &str) -> Pipeline {
    let cfg = Config::build(SECRET.to_vec(), Some(rate_limit), None).unwrap();
    Pipeline::new(cfg)
}

fn post_token(p: &mut Pipeline, token: &str, now: u64) -> Outcome {
    let input = InputToken::new(String::from(token));
    p.handle_request("POST", "/", Some(&input), CLIENT, now)
}

#[test]
fn test_handler_405() {
    let mut p = new_pipeline("25");
    let r = p.handle_request("GET", "/", None, CLIENT, NOW);
    assert_eq!(r.status, 405);
    assert_eq!(r.body, "405 Method Not Allowed");
}

#[test]
fn test_handler_404() {
    let mut p = new_pipeline("25");
    let r = p.handle_request("GET", "/somewhere/unreachable", None, CLIENT, NOW);
    assert_eq!(r.status, 404);
    assert_eq!(r.body, "404 Not Found");
}

#[test]
fn test_health() {
    let mut p = new_pipeline("25");
    let r = p.handle_request("GET", "/health", None, CLIENT, NOW);
    assert_eq!(r.status, 200);
    assert_eq!(r.body, "");
}

#[test]
fn tests_test_totp_invalid_format() {
    // A 6-digit token is required.
    for false_token in ["12345", "123"] {
        let mut p = new_pipeline("25");
        let r = post_token(&mut p, false_token, NOW);
        assert_eq!(r.status, 400);
        assert_eq!(r.body, "Error: TOTP must be a 6-digit number");
    }
}

#[test]
fn test_token_checker_incorrect() {
    let mut p = new_pipeline("25");
    let good = compute(SECRET, counter_of(NOW));
    let false_token = if good == "999999" { "999998" } else { "999999" };
    let r = post_token(&mut p, false_token, NOW);
    assert_eq!(r.status, 401);
    assert_eq!(r.body, "Error: invalid TOTP");
}

#[test]
fn test_token_checker_correct_pipeline() {
    let mut p = new_pipeline("25");
    let good = compute(SECRET, counter_of(NOW));
    let r = post_token(&mut p, &good, NOW);
    assert_eq!(r.status, 200);
    assert_eq!(r.body, "");
}

#[test]
fn test_too_many_requests() {
    let mut p = new_pipeline("25");
    // One probe consumes the first permit, as a readiness check would.
    let first = p.handle_request("GET", "/health", None, CLIENT, NOW);
    assert_eq!(first.status, 200);
    for _ in 0..(25 - 1) {
        let r = p.handle_request("GET", "/health", None, CLIENT, NOW);
        assert_eq!(r.status, 200);
    }
    for _ in 0..3 {
        let r = p.handle_request("GET", "/health", None, CLIENT, NOW);
        assert_eq!(r.status, 429);
        assert_eq!(r.body, "request count reaches the buffer limit");
    }
}

#[test]
fn test_rate_limit_window_resets() {
    let mut p = new_pipeline("2");
    assert_eq!(p.handle_request("GET", "/health", None, CLIENT, NOW).status, 200);
    assert_eq!(p.handle_request("GET", "/health", None, CLIENT, NOW).status, 200);
    assert_eq!(p.handle_request("GET", "/health", None, CLIENT, NOW).status, 429);
    // After the window passes, the same client is admitted again.
    let later = NOW + 30;
    assert_eq!(p.handle_request("GET", "/health", None, CLIENT, later).status, 200);
}

#[test]
fn test_rate_limit_per_client() {
    let mut p = new_pipeline("1");
    assert_eq!(p.handle_request("GET", "/health", None, 1, NOW).status, 200);
    assert_eq!(p.handle_request("GET", "/health", None, 1, NOW).status, 429);
    // A different client has its own bucket.
    assert_eq!(p.handle_request("GET", "/health", None, 2, NOW).status, 200);
}

#[test]
fn test_rejected_request_never_reaches_the_checker() {
    // Even a correct code is rejected once the budget is spent, and the
    // rejection does not depend on the body at all.
    let mut p = new_pipeline("1");
    let good = compute(SECRET, counter_of(NOW));
    assert_eq!(post_token(&mut p, &good, NOW).status, 200);
    assert_eq!(post_token(&mut p, &good, NOW).status, 429);
}

#[test]
fn test_sweep_evicts_passed_windows() {
    let mut p = new_pipeline("1");
    assert_eq!(p.handle_request("GET", "/health", None, CLIENT, NOW).status, 200);
    assert_eq!(p.handle_request("GET", "/health", None, CLIENT, NOW).status, 429);
    // Sweeping within the window changes nothing.
    p.sweep(NOW + 5);
    assert_eq!(p.handle_request("GET", "/health", None, CLIENT, NOW).status, 429);
    // Sweeping after the window evicts the bucket; a fresh one admits.
    p.sweep(NOW + 30);
    assert_eq!(p.handle_request("GET", "/health", None, CLIENT, NOW + 30).status, 200);
}

#[test]
fn test_handle_request_current_health() {
    let mut p = new_pipeline("25");
    let r = p.handle_request_current("GET", "/health", None, CLIENT);
    assert_eq!(r.status, 200);
}

#[test]
fn test_timeout_middleware() {
    let r = classify_layer_error(true, String::from("elapsed"));
    assert_eq!(r.status, 408);
    assert_eq!(r.body, "request timed out");
    let other = classify_layer_error(false, String::from("boom"));
    assert_eq!(other.status, 500);
    assert_eq!(other.body, "internal server error: boom");
}

#[test]
fn test_classify_rows() {
    let rows: [(Signal, u16, &str); 7] = [
        (Signal::Timeout, 408, "request timed out"),
        (Signal::RateLimited, 429, "request count reaches the buffer limit"),
        (Signal::QueueFull, 429, "request count reaches the buffer limit"),
        (Signal::InvalidFormat, 400, "Error: TOTP must be a 6-digit number"),
        (Signal::Mismatch, 401, "Error: invalid TOTP"),
        (Signal::NotFound, 404, "404 Not Found"),
        (Signal::MethodNotAllowed, 405, "405 Method Not Allowed"),
    ];
    for (signal, status, body) in rows {
        let r = classify(signal);
        assert_eq!(r.status, status);
        assert_eq!(r.body, body);
    }
    let sys = classify(Signal::System(String::from("clock drift")));
    assert_eq!(sys.status, 500);
    assert_eq!(sys.body, "Error: clock drift");
}

#[test]
fn test_bounded_queue() {
    let mut q = BoundedQueue::new(1);
    assert!(q.try_enter());
    assert!(!q.try_enter());
    q.leave();
    assert!(q.try_enter());
}

#[test]
fn test_scenario_literal() {
    // The full wire-visible behaviour at one instant.
    let mut p = new_pipeline("25");
    let token = compute(SECRET, counter_of(NOW));
    assert_eq!(post_token(&mut p, &token, NOW).status, 200);
    let wrong = if token == "000000" { "000001" } else { "000000" };
    assert_eq!(post_token(&mut p, wrong, NOW).status, 401);
    assert_eq!(post_token(&mut p, "12345", NOW).status, 400);
    assert_eq!(p.handle_request("GET", "/health", None, CLIENT, NOW).status, 200);
    assert_eq!(p.handle_request("GET", "/missing", None, CLIENT, NOW).status, 404);
}
