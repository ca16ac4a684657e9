//! Acceptance tests: the service's behaviour end to end, clock included.

use std::time::SystemTime;
use std::time::UNIX_EPOCH;

use totp_server::Config;
use totp_server::InputToken;
use totp_server::Pipeline;
use totp_server::compute;
use totp_server::counter_of;
use totp_server::try_get_token;

const SECRET: &[u8] = b"H4bY!9MP8s5a#Cm4";

fn unix_seconds() -> u64 {
    SystemTime::now()
        .duration_since(UNIX_EPOCH)
        .expect("clock before epoch")
        .as_secs()
}

fn setup() -> (Pipeline, String, u64) {
    let cfg = Config::build(SECRET.to_vec(), None, None).unwrap();
    let pipeline = Pipeline::new(cfg);
    let now = unix_seconds();
    let token = compute(SECRET, counter_of(now));
    (pipeline, token, now)
}

/// Provide a correct token.
#[test]
fn test_totp_valid() {
    let (mut pipeline, token, now) = setup();
    let input = InputToken::new(token);
    let res = pipeline.handle_request("POST", "/", Some(&input), 1, now);
    assert_eq!(res.status, 200);
}

/// Provide an incorrect token.
#[test]
fn test_totp_invalid() {
    let (mut pipeline, token, now) = setup();
    let incorrect_raw_secret = b"jG5t*qUztkV9!FA9YxDo4j7d%nLGiD!^";
    let false_token = try_get_token(incorrect_raw_secret).unwrap();
    assert_ne!(false_token, token);

    let input = InputToken::new(false_token);
    let res = pipeline.handle_request("POST", "/", Some(&input), 1, now);
    assert_eq!(res.status, 401);
}

/// Provide a token in an invalid format.
#[test]
fn app_test_totp_invalid_format() {
    let (mut pipeline, _, now) = setup();
    // A 6-digit token is required, while a 5-digit token is provided here.
    let false_token = "12345";

    let input = InputToken::new(String::from(false_token));
    let res = pipeline.handle_request("POST", "/", Some(&input), 1, now);
    assert_eq!(res.status, 400);
}
