//! Tests of the code engine: derivation, round trips, format checks.

use totp_server::Error;
use totp_server::InputToken;
use totp_server::check_current;
use totp_server::check_token;
use totp_server::compute;
use totp_server::constant_time_eq;
use totp_server::counter_of;
use totp_server::secret_base32;
use totp_server::try_get_token;
use totp_server::valid_format;
use totp_server::verify;

const RFC_SECRET: &[u8] = b"12345678901234567890";

#[test]
fn test_compute_known_vectors() {
    // HMAC-SHA-1 based codes for the 20-byte test secret, counters 0..=9.
    let expected = [
        "755224", "287082", "359152", "969429", "338314", "254676", "287922", "162583", "399871",
        "520489",
    ];
    for (c, want) in expected.iter().enumerate() {
        assert_eq!(compute(RFC_SECRET, c as u64), *want);
    }
}

#[test]
fn test_compute_time_based_vectors() {
    // Unix time 59 falls in counter 1; 1111111109 in counter 37037036.
    assert_eq!(counter_of(59), 1);
    assert_eq!(compute(RFC_SECRET, counter_of(59)), "287082");
    assert_eq!(counter_of(1111111109), 37037036);
}

#[test]
fn test_compute_always_six_digits() {
    let secrets: [&[u8]; 3] = [RFC_SECRET, b"H4bY!9MP8s5a#Cm4", b"0000000000000000"];
    let counters = [0u64, 1, 2, 1000, 37037036, u64::MAX / 30];
    for s in secrets.iter() {
        for c in counters.iter() {
            let code = compute(s, *c);
            assert_eq!(code.len(), 6);
            assert!(code.chars().all(|ch| ch.is_ascii_digit()));
            // Deterministic: a second computation returns the same code.
            assert_eq!(code, compute(s, *c));
        }
    }
}

#[test]
fn test_round_trip_generate_then_check() {
    let now: u64 = 1111111109;
    let code = compute(RFC_SECRET, counter_of(now));
    assert!(verify(RFC_SECRET, &code, now));
    assert!(matches!(check_token(RFC_SECRET, &code, now), Ok(())));
}

#[test]
fn test_mismatch_different_secret() {
    let other: &[u8] = b"09876543210987654321";
    let now: u64 = 1111111109;
    let code_other = compute(other, counter_of(now));
    let code_own = compute(RFC_SECRET, counter_of(now));
    assert_ne!(code_own, code_other);
    assert!(!verify(RFC_SECRET, &code_other, now));
    assert!(matches!(
        check_token(RFC_SECRET, &code_other, now),
        Err(Error::TotpInvalid)
    ));
}

#[test]
fn test_wrong_window_rejected() {
    // A code from the previous window is rejected: skew tolerance is 0.
    let now: u64 = 1111111109;
    let stale = compute(RFC_SECRET, counter_of(now - 30));
    let fresh = compute(RFC_SECRET, counter_of(now));
    if stale != fresh {
        assert!(matches!(
            check_token(RFC_SECRET, &stale, now),
            Err(Error::TotpInvalid)
        ));
    }
}

#[test]
fn test_format_errors() {
    let now: u64 = 1111111109;
    for bad in ["", "12345", "1234567", "12a456", "+12345", "12345 ", "12 456"] {
        assert!(!valid_format(bad));
        assert!(matches!(
            check_token(RFC_SECRET, bad, now),
            Err(Error::TotpInvalidFormat)
        ));
    }
    assert!(valid_format("000000"));
    assert!(valid_format("417213"));
}

#[test]
fn test_verify_wrong_length() {
    let now: u64 = 1111111109;
    assert!(!verify(RFC_SECRET, "12345", now));
    assert!(!verify(RFC_SECRET, "", now));
    assert!(!verify(RFC_SECRET, "1234567", now));
}

#[test]
fn test_constant_time_eq() {
    assert!(constant_time_eq("417213", "417213"));
    assert!(!constant_time_eq("417213", "417214"));
    assert!(!constant_time_eq("000000", "900000"));
    assert!(constant_time_eq("", ""));
}

#[test]
fn test_token_checker_correct() {
    let token = try_get_token(RFC_SECRET).unwrap();
    let my_token = InputToken::new(token);
    check_current(RFC_SECRET, &my_token).unwrap();
}

#[test]
fn test_try_get_token_shape() {
    let vec = "999a999a999a999a".as_bytes();
    assert!(vec.len() >= 16);
    let token = try_get_token(vec).unwrap();
    assert_eq!(token.len(), 6);
    assert!(token.chars().all(|c| c.is_ascii_digit()));
}

#[test]
fn test_check_current_invalid_format() {
    let input = InputToken::new(String::from("12345"));
    assert!(matches!(
        check_current(RFC_SECRET, &input),
        Err(Error::TotpInvalidFormat)
    ));
}

#[test]
fn test_input_token_new() {
    let t = InputToken::new(String::from("417213"));
    assert_eq!(t.token, "417213");
}

#[test]
fn test_print_secret_base32() {
    let encoded = secret_base32(RFC_SECRET);
    assert_eq!(encoded, "GEZDGNBVGY3TQOJQGEZDGNBVGY3TQOJQ");
}

#[test]
fn test_secret_base32_known_value() {
    let bytes: [u8; 23] = [
        0x70, 0x6c, 0x61, 0x69, 0x6e, 0x2d, 0x73, 0x74, 0x72, 0x69, 0x6e, 0x67, 0x2d, 0x73, 0x65,
        0x63, 0x72, 0x65, 0x74, 0x2d, 0x31, 0x32, 0x33,
    ];
    assert_eq!(secret_base32(&bytes), "OBWGC2LOFVZXI4TJNZTS243FMNZGK5BNGEZDG");
}
